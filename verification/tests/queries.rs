use form::{Operation, Operational, SelectQuery, WhereClause};

fn count_marks(s: &str) -> usize {
    s.chars().filter(|c| *c == '?').count()
}

#[test]
fn leaf_predicates_format() {
    let age = Operational("age");
    let (clause, values) = age.greater_than("18").format();
    assert_eq!(clause, "age > ?");
    assert_eq!(values, vec!["18".to_string()]);

    let email = Operational("email");
    let (clause, values) = email.equals("a@b.com").format();
    assert_eq!(clause, "email = ?");
    assert_eq!(values, vec!["a@b.com".to_string()]);

    let (clause, values) = age.less_than("65").format();
    assert_eq!(clause, "age < ?");
    assert_eq!(values, vec!["65".to_string()]);
}

#[test]
fn and_concatenates_clauses_and_values() {
    let p1 = Operational("age").greater_than("18");
    let p2 = Operational("email").equals("a@b.com");
    let (c1, v1) = Operational("age").greater_than("18").format();
    let (c2, v2) = Operational("email").equals("a@b.com").format();
    let (clause, values) = p1.and(p2).format();
    assert_eq!(clause, format!("({} AND {})", c1, c2));
    let mut expected = v1.clone();
    expected.extend(v2.clone());
    assert_eq!(values, expected);
}

#[test]
fn or_concatenates_clauses_and_values() {
    let p1 = Operational("age").greater_than("18");
    let p2 = Operational("email").equals("a@b.com");
    let (c1, v1) = Operational("age").greater_than("18").format();
    let (c2, v2) = Operational("email").equals("a@b.com").format();
    let (clause, values) = p1.or(p2).format();
    assert_eq!(clause, format!("({} OR {})", c1, c2));
    let mut expected = v1.clone();
    expected.extend(v2.clone());
    assert_eq!(values, expected);
}

#[test]
fn nested_composites_keep_left_to_right_value_order() {
    let p = Operational("a")
        .equals("1")
        .and(Operational("b").greater_than("2"))
        .or(Operational("c").less_than("3"));
    let (clause, values) = p.format();
    assert_eq!(clause, "((a = ? AND b > ?) OR c < ?)");
    assert_eq!(
        values,
        vec!["1".to_string(), "2".to_string(), "3".to_string()]
    );
    assert_eq!(count_marks(&clause), values.len());
}

#[test]
fn empty_builder_has_no_where_and_no_limit() {
    let q = SelectQuery::new("SELECT a FROM ts");
    let text = q.get_query();
    assert!(!text.contains("WHERE"));
    assert!(!text.contains("LIMIT"));
    assert_eq!(text, "SELECT a FROM ts ");
}

#[test]
fn limit_five_appends_limit_clause() {
    let mut q = SelectQuery::new("SELECT a FROM ts");
    q.limit(5);
    let text = q.get_query();
    assert!(text.contains("LIMIT 5"));
    assert_eq!(text, "SELECT a FROM ts LIMIT 5");
}

#[test]
fn negative_limit_passes_through() {
    let mut q = SelectQuery::new("SELECT a FROM ts");
    q.limit(-3);
    assert_eq!(q.get_query(), "SELECT a FROM ts LIMIT -3");
}

#[test]
fn first_fragment_renders_bare() {
    let mut q = SelectQuery::new("SELECT a FROM ts");
    q.and(Operational("a").equals("1"));
    assert_eq!(q.get_query(), "SELECT a FROM ts WHERE a = ? ");
    assert_eq!(q.params(), &vec!["1".to_string()]);
}

#[test]
fn later_fragments_render_with_their_role() {
    let mut q = SelectQuery::new("SELECT a FROM ts");
    q.and(Operational("a").equals("1"));
    q.or(Operational("b").equals("2"));
    q.and(Operational("c").greater_than("3"));
    assert_eq!(
        q.get_query(),
        "SELECT a FROM ts WHERE a = ? OR b = ? AND c > ? "
    );
    assert_eq!(
        q.params(),
        &vec!["1".to_string(), "2".to_string(), "3".to_string()]
    );
}

#[test]
fn placeholders_match_bound_values() {
    let mut q = SelectQuery::new("SELECT a, b FROM ts");
    q.and(Operational("a").equals("1").or(Operational("b").less_than("9")));
    q.or(Operational("c").greater_than("2"));
    q.limit(7);
    let text = q.get_query();
    assert_eq!(count_marks(&text), q.params().len());
    assert_eq!(q.params().len(), 3);
}

#[test]
fn with_params_seeds_builder() {
    let q = SelectQuery::with_params(
        "SELECT a FROM ts",
        vec!["1".to_string()],
        vec![WhereClause::Single("a = ?".to_string())],
    );
    assert_eq!(q.get_query(), "SELECT a FROM ts WHERE a = ? ");
    assert_eq!(q.build_wheres(), " WHERE a = ?");
}

#[test]
fn where_clause_rendering() {
    assert_eq!(WhereClause::Single("a = ?".to_string()).to_string(), "a = ?");
    assert_eq!(WhereClause::And("a = ?".to_string()).to_string(), "AND a = ?");
    assert_eq!(WhereClause::Or("a = ?".to_string()).to_string(), "OR a = ?");
}

#[test]
fn simple_operation_formats_as_given() {
    let op = Operation::Simple("a = ? AND b = ?".to_string(), vec![
        "1".to_string(),
        "2".to_string(),
    ]);
    let (clause, values) = op.format();
    assert_eq!(clause, "a = ? AND b = ?");
    assert_eq!(values.len(), 2);
}
