use form::{ColumnValue, Constraint, Entity, FieldDecl, Operational};

fn decl(name: &str, ty: &str) -> FieldDecl {
    FieldDecl {
        name: name.to_string(),
        ty: ty.to_string(),
        suppress: false,
        primary_key: false,
        unique: false,
        serial: false,
        default_value: false,
        sql_type: false,
    }
}

/// The entity of the end-to-end scenario: a serial primary key, a unique
/// email, a plain age.
fn user_entity() -> Entity {
    let mut id = decl("id", "u32");
    id.serial = true;
    id.primary_key = true;
    let mut email = decl("email", "String");
    email.unique = true;
    let age = decl("age", "u32");
    Entity::new("User", &vec![id, email, age])
}

fn val(text: &str, is_default: bool) -> ColumnValue {
    ColumnValue { text: text.to_string(), is_default }
}

#[test]
fn table_name_is_lowercased_and_pluralized() {
    let e = user_entity();
    assert_eq!(e.table_name, "users");
    let e2 = Entity::new("BlogPost", &vec![decl("id", "u32")]);
    assert_eq!(e2.table_name, "blogposts");
}

#[test]
fn base_select_lists_fields_in_declaration_order() {
    let e = user_entity();
    assert_eq!(e.base_select(), "SELECT id, email, age FROM users");
}

#[test]
fn suppressed_fields_are_dropped_entirely() {
    let mut hidden = decl("secret", "String");
    hidden.suppress = true;
    let e = Entity::new("User", &vec![decl("id", "u32"), hidden, decl("age", "u32")]);
    assert_eq!(e.base_select(), "SELECT id, age FROM users");
    assert_eq!(e.read_params(), vec!["id".to_string(), "age".to_string()]);
}

#[test]
fn primary_key_marker_wins_over_unique() {
    let mut both = decl("code", "u32");
    both.primary_key = true;
    both.unique = true;
    let e = Entity::new("Item", &vec![both]);
    assert_eq!(e.fields[0].constraint, Constraint::Primary);
    assert_eq!(e.primary_keys(), vec!["code".to_string()]);
}

#[test]
fn read_params_and_primary_keys() {
    let e = user_entity();
    assert_eq!(
        e.read_params(),
        vec!["id".to_string(), "email".to_string(), "age".to_string()]
    );
    assert_eq!(e.primary_keys(), vec!["id".to_string()]);
}

#[test]
fn primary_where_joins_keys_in_declaration_order() {
    let mut org = decl("org", "u32");
    org.primary_key = true;
    let mut num = decl("num", "u32");
    num.primary_key = true;
    let e = Entity::new("Ticket", &vec![org, decl("note", "String"), num]);
    assert_eq!(e.primary_where(), "org = ? AND num = ?");
}

#[test]
fn primary_where_is_empty_without_primary_keys() {
    let e = Entity::new("Log", &vec![decl("line", "String")]);
    assert_eq!(e.primary_where(), "");
}

#[test]
fn update_excludes_primary_keys_from_set_and_binds_them_last() {
    let e = user_entity();
    let row = vec!["7".to_string(), "a@b.com".to_string(), "30".to_string()];
    let (text, params) = e.update_statement(&row);
    assert_eq!(text, "UPDATE users SET email = ?, age = ? WHERE id = ?");
    assert_eq!(
        params,
        vec!["a@b.com".to_string(), "30".to_string(), "7".to_string()]
    );
    assert!(!text["UPDATE users SET ".len()..text.find(" WHERE ").unwrap()].contains("id"));
}

#[test]
fn delete_binds_primary_keys_in_declaration_order() {
    let e = user_entity();
    let row = vec!["7".to_string(), "a@b.com".to_string(), "30".to_string()];
    let (text, params) = e.delete_statement(&row);
    assert_eq!(text, "DELETE FROM users WHERE id = ?");
    assert_eq!(params, vec!["7".to_string()]);
}

#[test]
fn create_binds_always_fields_before_optional_fields() {
    let mut id = decl("id", "u32");
    id.serial = true;
    let mut stamp = decl("stamp", "u32");
    stamp.default_value = true;
    let e = Entity::new(
        "Event",
        &vec![id, decl("kind", "String"), stamp, decl("note", "String")],
    );
    let row = vec![
        val("9", false),
        val("click", false),
        val("123", false),
        val("ok", false),
    ];
    let (text, params) = e.create_statement(&row);
    assert_eq!(
        text,
        "INSERT INTO events (kind, note, id, stamp) VALUES (?, ?, ?, ?)"
    );
    assert_eq!(
        params,
        vec![
            "click".to_string(),
            "ok".to_string(),
            "9".to_string(),
            "123".to_string()
        ]
    );
}

#[test]
fn create_omits_optional_fields_holding_their_default() {
    // The end-to-end scenario: id is unset (serial, default) and age holds
    // its type's default, so with age marked as defaulted both leave the
    // column list; only email is inserted.
    let mut id = decl("id", "u32");
    id.serial = true;
    id.primary_key = true;
    let mut email = decl("email", "String");
    email.unique = true;
    let mut age = decl("age", "u32");
    age.default_value = true;
    let e = Entity::new("User", &vec![id, email, age]);
    let row = vec![val("0", true), val("a@b.com", false), val("0", true)];
    let (text, params) = e.create_statement(&row);
    assert_eq!(text, "INSERT INTO users (email) VALUES (?)");
    assert_eq!(params, vec!["a@b.com".to_string()]);
}

#[test]
fn create_keeps_always_fields_even_when_defaulted() {
    let e = user_entity();
    // age is an always-insert field: it stays bound even at its default.
    let row = vec![val("0", true), val("a@b.com", false), val("0", true)];
    let (text, params) = e.create_statement(&row);
    assert_eq!(text, "INSERT INTO users (email, age) VALUES (?, ?)");
    assert_eq!(params, vec!["a@b.com".to_string(), "0".to_string()]);
}

#[test]
fn finder_queries() {
    let e = user_entity();
    assert_eq!(
        e.finder_query("email"),
        "SELECT id, email, age FROM users WHERE email = ?"
    );
    let mut org = decl("org", "u32");
    org.primary_key = true;
    let mut num = decl("num", "u32");
    num.primary_key = true;
    let e2 = Entity::new("Ticket", &vec![org, num]);
    assert_eq!(
        e2.primary_finder_query(),
        "SELECT org, num FROM tickets WHERE org = ? AND num = ?"
    );
}

#[test]
fn select_builds_the_end_to_end_query() {
    let e = user_entity();
    let mut q = e.select();
    q.and(Operational("age").greater_than("18"));
    assert_eq!(q.get_query(), "SELECT id, email, age FROM users WHERE age > ? ");
    assert_eq!(q.params(), &vec!["18".to_string()]);

    q.or(Operational("email").equals("a@b.com"));
    assert_eq!(
        q.get_query(),
        "SELECT id, email, age FROM users WHERE age > ? OR email = ? "
    );
    assert_eq!(q.params(), &vec!["18".to_string(), "a@b.com".to_string()]);
}

#[test]
fn select_where_seeds_one_filter() {
    let e = user_entity();
    let q = e.select_where(Operational("email").equals("a@b.com"));
    assert_eq!(
        q.get_query(),
        "SELECT id, email, age FROM users WHERE email = ? "
    );
    assert_eq!(q.params(), &vec!["a@b.com".to_string()]);
}

#[test]
fn statement_placeholders_match_their_parameters() {
    let count = |s: &str| s.chars().filter(|c| *c == '?').count();
    let e = user_entity();
    let row = vec!["7".to_string(), "a@b.com".to_string(), "30".to_string()];
    let (text, params) = e.update_statement(&row);
    assert_eq!(count(&text), params.len());
    let (text, params) = e.delete_statement(&row);
    assert_eq!(count(&text), params.len());
    let cells = vec![val("0", true), val("a@b.com", false), val("30", false)];
    let (text, params) = e.create_statement(&cells);
    assert_eq!(count(&text), params.len());
}

#[test]
fn unique_keys_are_the_unique_fields_in_order() {
    let mut a = decl("email", "String");
    a.unique = true;
    let mut b = decl("handle", "String");
    b.unique = true;
    let e = Entity::new("User", &vec![decl("id", "u32"), a, b]);
    let uniques = form::get_unique_keys(&e.fields);
    assert_eq!(uniques.len(), 2);
    assert_eq!(uniques[0].name, "email");
    assert_eq!(uniques[1].name, "handle");
    assert_eq!(uniques[0].constraint, Constraint::Unique);
}

#[test]
fn finder_queries_cover_unique_then_primary_keys() {
    let e = user_entity();
    assert_eq!(
        e.finder_queries(),
        vec![
            "SELECT id, email, age FROM users WHERE email = ?".to_string(),
            "SELECT id, email, age FROM users WHERE id = ?".to_string(),
        ]
    );
}

#[test]
fn composite_primary_key_adds_a_composite_finder() {
    let mut org = decl("org", "u32");
    org.primary_key = true;
    let mut num = decl("num", "u32");
    num.primary_key = true;
    let e = Entity::new("Ticket", &vec![org, num]);
    assert_eq!(
        e.finder_queries(),
        vec![
            "SELECT org, num FROM tickets WHERE org = ?".to_string(),
            "SELECT org, num FROM tickets WHERE num = ?".to_string(),
            "SELECT org, num FROM tickets WHERE org = ? AND num = ?".to_string(),
        ]
    );
}
