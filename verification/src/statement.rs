//! The statement synthesizer: from classified entity metadata to
//! parameterized SELECT/INSERT/UPDATE/DELETE texts and their ordered
//! parameter lists.

use vstd::prelude::*;
use vstd::string::StringExecFns;

use crate::operation::{clause_of, lemma_op_placeholders, params_of, wf_op, Operation};
use crate::schema::{
    classify, get_primary_keys, get_unique_keys, no_q_names, parse_fields, primary_fields,
    unique_fields, Constraint, Field, FieldDecl, FieldView,
};
use crate::select::{rendered_all, wf_query, wheres_text, SelectQuery, WhereClause};
use crate::text::{
    count_placeholders, join_strings, join_with, lemma_count_no_placeholders,
    lemma_count_one_trailing, lemma_count_placeholders_concat, lemma_join_no_placeholders,
    lemma_join_single_placeholders, lemma_lower_chars_no_placeholders, lower_chars, to_lowercase,
};

verus! {

/// The name of each field, in order.
pub open spec fn names_of(fields: Seq<FieldView>) -> Seq<Seq<char>> {
    fields.map_values(|f: FieldView| f.name)
}

/// One `<name> = ?` comparison per field, in order.
pub open spec fn eq_marks(fields: Seq<FieldView>) -> Seq<Seq<char>> {
    fields.map_values(|f: FieldView| f.name + " = ?"@)
}

/// The fields a row must always provide on insert: neither
/// database-generated nor defaulted.
pub open spec fn always_insert(fields: Seq<FieldView>) -> Seq<FieldView> {
    fields.filter(|f: FieldView| !f.is_serial && !f.has_default)
}

/// The fields an update's SET list covers: every field except the
/// primary keys.
pub open spec fn update_fields(fields: Seq<FieldView>) -> Seq<FieldView> {
    fields.filter(|f: FieldView| f.constraint != Constraint::Primary)
}

/// An update's SET list never names a primary-key field.
pub proof fn lemma_update_set_excludes_primary(fields: Seq<FieldView>)
    ensures
        forall|i: int|
            0 <= i < update_fields(fields).len() ==> (#[trigger] update_fields(fields)[i]).constraint
                != Constraint::Primary,
{
    broadcast use vstd::seq_lib::group_filter_ensures;

}

/// `n` placeholders, to be comma-joined into a VALUES list.
pub open spec fn q_marks_text(n: nat) -> Seq<Seq<char>> {
    Seq::new(n, |i: int| "?"@)
}

/// The base SELECT text: the non-suppressed field names in declaration
/// order, comma-joined, then the table.
pub open spec fn base_select_text(fields: Seq<FieldView>, table: Seq<char>) -> Seq<char> {
    "SELECT "@ + join_with(names_of(fields), ", "@) + " FROM "@ + table
}

/// The primary-key WHERE text: one `<pk> = ?` per primary key in
/// declaration order, joined by ` AND `; empty without primary keys.
pub open spec fn primary_where_text(fields: Seq<FieldView>) -> Seq<char> {
    join_with(eq_marks(primary_fields(fields)), " AND "@)
}

/// One single-field finder text per given key field, in order.
pub open spec fn finder_each(
    fields: Seq<FieldView>,
    table: Seq<char>,
    keys: Seq<FieldView>,
) -> Seq<Seq<char>> {
    keys.map_values(
        |f: FieldView| base_select_text(fields, table) + " WHERE "@ + f.name + " = ?"@,
    )
}

/// The finder statements of an entity: one per unique key, then one per
/// primary key, each `<BASE_SELECT> WHERE <field> = ?`; a composite
/// finder over all primary keys follows when there is more than one.
pub open spec fn finder_texts(fields: Seq<FieldView>, table: Seq<char>) -> Seq<Seq<char>> {
    let singles = finder_each(fields, table, unique_fields(fields) + primary_fields(fields));
    if primary_fields(fields).len() > 1 {
        singles.push(base_select_text(fields, table) + " WHERE "@ + primary_where_text(fields))
    } else {
        singles
    }
}

/// A derived table name never carries a placeholder: lowercasing a
/// `?`-free record name and adding the plural suffix keeps it `?`-free.
pub proof fn lemma_table_name_no_placeholders(record_name: Seq<char>)
    requires
        count_placeholders(record_name) == 0,
    ensures
        count_placeholders(lower_chars(record_name) + "s"@) == 0,
{
    broadcast use lemma_count_placeholders_concat;

    lemma_lower_chars_no_placeholders(record_name);
    reveal_strlit("s");
    lemma_count_no_placeholders("s"@);
}

/// A table mapped from one record type: its derived table name and its
/// classified fields in declaration order.
pub struct Entity {
    pub table_name: String,
    pub fields: Vec<Field>,
}

impl Entity {
    /// Classifies a record type: the table name is the lower-cased type
    /// name with a plural suffix, the fields are the classified
    /// non-suppressed declarations.
    pub fn new(record_name: &str, decls: &Vec<FieldDecl>) -> (r: Entity)
        ensures
            r.table_name@ == lower_chars(record_name@) + "s"@,
            r.fields.deep_view() == classify(decls.deep_view()),
    {
        let mut table_name = to_lowercase(record_name);
        table_name.append("s");
        Entity { table_name, fields: parse_fields(decls) }
    }

    /// The ordered names of all persisted fields.
    pub fn read_params(&self) -> (r: Vec<String>)
        ensures
            r.deep_view() == names_of(self.fields.deep_view()),
    {
        names_vec(&self.fields)
    }

    /// The ordered names of the primary-key fields.
    pub fn primary_keys(&self) -> (r: Vec<String>)
        ensures
            r.deep_view() == names_of(primary_fields(self.fields.deep_view())),
    {
        let pks = get_primary_keys(&self.fields);
        names_vec(&pks)
    }

    /// The base SELECT statement over all persisted fields.
    pub fn base_select(&self) -> (r: String)
        ensures
            r@ == base_select_text(self.fields.deep_view(), self.table_name@),
    {
        let names = names_vec(&self.fields);
        let joined = join_strings(&names, ", ");
        let mut s = String::from_str("SELECT ");
        s.append(joined.as_str());
        s.append(" FROM ");
        s.append(self.table_name.as_str());
        s
    }

    /// The primary-key WHERE clause.
    pub fn primary_where(&self) -> (r: String)
        ensures
            r@ == primary_where_text(self.fields.deep_view()),
    {
        let pks = get_primary_keys(&self.fields);
        let marks = eq_marks_vec(&pks);
        join_strings(&marks, " AND ")
    }

    /// A builder seeded with the base SELECT and no filters.
    pub fn select(&self) -> (r: SelectQuery)
        ensures
            r.base_query@ == base_select_text(self.fields.deep_view(), self.table_name@),
            r.wheres@ == Seq::<WhereClause>::empty(),
            r.params@ == Seq::<String>::empty(),
            r.limit_ == 0,
            no_q_names(self.fields.deep_view()) && count_placeholders(self.table_name@) == 0
                ==> wf_query(r),
    {
        let base = self.base_select();
        let r = SelectQuery::new(base.as_str());
        proof {
            if no_q_names(self.fields.deep_view()) && count_placeholders(self.table_name@) == 0 {
                lemma_base_select_placeholders(self.fields.deep_view(), self.table_name@);
            }
        }
        r
    }

    /// A builder seeded with the base SELECT and one initial filter.
    pub fn select_where(&self, op: Operation) -> (r: SelectQuery)
        ensures
            r.base_query@ == base_select_text(self.fields.deep_view(), self.table_name@),
            rendered_all(r.wheres@) == seq![clause_of(op)],
            r.params.deep_view() == params_of(op),
            r.limit_ == 0,
            no_q_names(self.fields.deep_view()) && count_placeholders(self.table_name@) == 0
                && wf_op(op) ==> wf_query(r),
    {
        let base = self.base_select();
        let (clause, params) = op.format();
        let r = SelectQuery::with_params(base.as_str(), params, vec![WhereClause::Single(clause)]);
        proof {
            broadcast use lemma_count_placeholders_concat;

            assert(rendered_all(r.wheres@) =~= seq![clause_of(op)]);
            assert(r.params.deep_view() =~= params_of(op));
            if no_q_names(self.fields.deep_view()) && count_placeholders(self.table_name@) == 0
                && wf_op(op) {
                lemma_base_select_placeholders(self.fields.deep_view(), self.table_name@);
                lemma_op_placeholders(op);
                reveal_strlit(" WHERE ");
                lemma_count_no_placeholders(" WHERE "@);
                assert(join_with(rendered_all(r.wheres@), " "@) == clause_of(op));
                assert(wheres_text(r.wheres@) == " WHERE "@ + clause_of(op));
            }
        }
        r
    }

    /// The single-field finder statement for a unique or primary field.
    pub fn finder_query(&self, field_name: &str) -> (r: String)
        ensures
            r@ == base_select_text(self.fields.deep_view(), self.table_name@) + " WHERE "@
                + field_name@ + " = ?"@,
    {
        let mut s = self.base_select();
        s.append(" WHERE ");
        s.append(field_name);
        s.append(" = ?");
        s
    }

    /// The composite finder statement over all primary keys.
    pub fn primary_finder_query(&self) -> (r: String)
        ensures
            r@ == base_select_text(self.fields.deep_view(), self.table_name@) + " WHERE "@
                + primary_where_text(self.fields.deep_view()),
    {
        let mut s = self.base_select();
        s.append(" WHERE ");
        let w = self.primary_where();
        s.append(w.as_str());
        s
    }

    /// Every finder statement of the entity: one per unique key, then one
    /// per primary key, and the composite primary-key finder when the key
    /// is composite.
    pub fn finder_queries(&self) -> (r: Vec<String>)
        ensures
            r.deep_view() == finder_texts(self.fields.deep_view(), self.table_name@),
    {
        let ghost fv = self.fields.deep_view();
        let ghost table = self.table_name@;
        let mut keys = get_unique_keys(&self.fields);
        let mut pks = get_primary_keys(&self.fields);
        let n_primary = pks.len();
        keys.append(&mut pks);
        let ghost kv = keys.deep_view();
        let mut r: Vec<String> = Vec::new();
        let mut i: usize = 0;
        while i < keys.len()
            invariant
                i <= keys@.len(),
                kv == keys.deep_view(),
                kv == unique_fields(fv) + primary_fields(fv),
                fv == self.fields.deep_view(),
                table == self.table_name@,
                r.deep_view() == finder_each(fv, table, kv.take(i as int)),
            decreases keys@.len() - i,
        {
            let ghost prev = r.deep_view();
            let q = self.finder_query(keys[i].name.as_str());
            r.push(q);
            proof {
                assert(r.deep_view() =~= prev.push(
                    base_select_text(fv, table) + " WHERE "@ + kv[i as int].name + " = ?"@,
                ));
                assert(kv.take(i + 1 as int) =~= kv.take(i as int).push(kv[i as int]));
                assert(finder_each(fv, table, kv.take(i as int).push(kv[i as int])) =~= finder_each(
                    fv,
                    table,
                    kv.take(i as int),
                ).push(base_select_text(fv, table) + " WHERE "@ + kv[i as int].name + " = ?"@));
            }
            i = i + 1;
        }
        proof {
            assert(kv.take(kv.len() as int) =~= kv);
        }
        if n_primary > 1 {
            let ghost prev = r.deep_view();
            let q = self.primary_finder_query();
            r.push(q);
            proof {
                assert(r.deep_view() =~= prev.push(
                    base_select_text(fv, table) + " WHERE "@ + primary_where_text(fv),
                ));
            }
        }
        r
    }
}

proof fn lemma_primary_no_q(fields: Seq<FieldView>)
    requires
        no_q_names(fields),
    ensures
        no_q_names(primary_fields(fields)),
    decreases fields.len(),
{
    reveal(Seq::filter);
    if fields.len() > 0 {
        assert(no_q_names(fields.drop_last()));
        lemma_primary_no_q(fields.drop_last());
    }
}

proof fn lemma_update_no_q(fields: Seq<FieldView>)
    requires
        no_q_names(fields),
    ensures
        no_q_names(update_fields(fields)),
    decreases fields.len(),
{
    reveal(Seq::filter);
    if fields.len() > 0 {
        assert(no_q_names(fields.drop_last()));
        lemma_update_no_q(fields.drop_last());
    }
}

proof fn lemma_always_no_q(fields: Seq<FieldView>)
    requires
        no_q_names(fields),
    ensures
        no_q_names(always_insert(fields)),
    decreases fields.len(),
{
    reveal(Seq::filter);
    if fields.len() > 0 {
        assert(no_q_names(fields.drop_last()));
        lemma_always_no_q(fields.drop_last());
    }
}

/// Every item of `eq_marks` over `?`-free names has exactly one
/// placeholder.
proof fn lemma_eq_marks_single(fields: Seq<FieldView>)
    requires
        no_q_names(fields),
    ensures
        forall|i: int|
            0 <= i < eq_marks(fields).len() ==> count_placeholders(#[trigger] eq_marks(fields)[i])
                == 1,
{
    broadcast use lemma_count_placeholders_concat;

    reveal_strlit(" = ?");
    assert forall|i: int| 0 <= i < eq_marks(fields).len() implies count_placeholders(
        #[trigger] eq_marks(fields)[i],
    ) == 1 by {
        assert(eq_marks(fields)[i] == fields[i].name + " = ?"@);
        lemma_count_one_trailing(" = ?"@);
    }
}

/// The base SELECT text holds no placeholder: a column list and a table
/// name contribute none.
pub proof fn lemma_base_select_placeholders(fields: Seq<FieldView>, table: Seq<char>)
    requires
        no_q_names(fields),
        count_placeholders(table) == 0,
    ensures
        count_placeholders(base_select_text(fields, table)) == 0,
{
    broadcast use lemma_count_placeholders_concat;

    reveal_strlit("SELECT ");
    reveal_strlit(" FROM ");
    reveal_strlit(", ");
    lemma_count_no_placeholders("SELECT "@);
    lemma_count_no_placeholders(" FROM "@);
    lemma_count_no_placeholders(", "@);
    assert forall|i: int| 0 <= i < names_of(fields).len() implies count_placeholders(
        #[trigger] names_of(fields)[i],
    ) == 0 by {
        assert(names_of(fields)[i] == fields[i].name);
    }
    lemma_join_no_placeholders(names_of(fields), ", "@);
}

/// The primary-key WHERE text holds exactly one placeholder per primary
/// key.
pub proof fn lemma_primary_where_placeholders(fields: Seq<FieldView>)
    requires
        no_q_names(fields),
    ensures
        count_placeholders(primary_where_text(fields)) == primary_fields(fields).len(),
{
    reveal_strlit(" AND ");
    lemma_count_no_placeholders(" AND "@);
    lemma_primary_no_q(fields);
    lemma_eq_marks_single(primary_fields(fields));
    lemma_join_single_placeholders(eq_marks(primary_fields(fields)), " AND "@);
}

/// Each kept optional column is a `?`-free field name.
proof fn lemma_optional_cols_no_q(fields: Seq<FieldView>, row: Seq<ColumnValueView>)
    requires
        no_q_names(fields),
    ensures
        forall|i: int|
            0 <= i < optional_cols(fields, row).len() ==> count_placeholders(
                #[trigger] optional_cols(fields, row)[i],
            ) == 0,
    decreases fields.len(),
{
    if fields.len() > 0 && row.len() > 0 {
        assert(no_q_names(fields.drop_last()));
        lemma_optional_cols_no_q(fields.drop_last(), row.drop_last());
        let rest = optional_cols(fields.drop_last(), row.drop_last());
        assert forall|i: int| 0 <= i < optional_cols(fields, row).len() implies count_placeholders(
            #[trigger] optional_cols(fields, row)[i],
        ) == 0 by {
            if (fields.last().is_serial || fields.last().has_default) && !row.last().is_default {
                if i < rest.len() {
                    assert(optional_cols(fields, row)[i] == rest[i]);
                } else {
                    assert(optional_cols(fields, row)[i] == fields.last().name);
                    assert(fields.last() == fields[fields.len() - 1]);
                }
            } else {
                assert(optional_cols(fields, row)[i] == rest[i]);
            }
        }
    }
}

/// One bound value per kept column, group by group.
proof fn lemma_insert_lens(fields: Seq<FieldView>, row: Seq<ColumnValueView>)
    requires
        row.len() == fields.len(),
    ensures
        always_vals(fields, row).len() == always_insert(fields).len(),
        optional_vals(fields, row).len() == optional_cols(fields, row).len(),
    decreases fields.len(),
{
    reveal(Seq::filter);
    if fields.len() > 0 {
        lemma_insert_lens(fields.drop_last(), row.drop_last());
    }
}

/// One bound value per SET item and per primary key.
proof fn lemma_key_lens(fields: Seq<FieldView>, row: Seq<Seq<char>>)
    requires
        row.len() == fields.len(),
    ensures
        non_primary_vals(fields, row).len() == update_fields(fields).len(),
        primary_vals(fields, row).len() == primary_fields(fields).len(),
    decreases fields.len(),
{
    reveal(Seq::filter);
    if fields.len() > 0 {
        lemma_key_lens(fields.drop_last(), row.drop_last());
    }
}

/// The insert text holds exactly one placeholder per bound value: the
/// kept columns and their `?` marks stay index-aligned.
pub proof fn lemma_insert_placeholders(
    fields: Seq<FieldView>,
    table: Seq<char>,
    row: Seq<ColumnValueView>,
)
    requires
        no_q_names(fields),
        count_placeholders(table) == 0,
        row.len() == fields.len(),
    ensures
        count_placeholders(insert_text(fields, table, row)) == insert_vals(fields, row).len(),
{
    broadcast use lemma_count_placeholders_concat;

    reveal_strlit("INSERT INTO ");
    reveal_strlit(" (");
    reveal_strlit(") VALUES (");
    reveal_strlit(")");
    reveal_strlit(", ");
    reveal_strlit("?");
    lemma_count_no_placeholders("INSERT INTO "@);
    lemma_count_no_placeholders(" ("@);
    lemma_count_no_placeholders(") VALUES ("@);
    lemma_count_no_placeholders(")"@);
    lemma_count_no_placeholders(", "@);
    let cols = insert_cols(fields, row);
    lemma_always_no_q(fields);
    lemma_optional_cols_no_q(fields, row);
    assert forall|i: int| 0 <= i < cols.len() implies count_placeholders(#[trigger] cols[i])
        == 0 by {
        if i < names_of(always_insert(fields)).len() {
            assert(cols[i] == always_insert(fields)[i].name);
        } else {
            assert(cols[i] == optional_cols(fields, row)[i - names_of(
                always_insert(fields),
            ).len()]);
        }
    }
    lemma_join_no_placeholders(cols, ", "@);
    assert(count_placeholders("?"@) == 1) by {
        assert(count_placeholders(Seq::<char>::empty()) == 0);
        assert("?"@.drop_last() =~= Seq::<char>::empty());
    }
    assert forall|i: int| 0 <= i < q_marks_text(cols.len()).len() implies count_placeholders(
        #[trigger] q_marks_text(cols.len())[i],
    ) == 1 by {
        assert(q_marks_text(cols.len())[i] == "?"@);
    }
    lemma_join_single_placeholders(q_marks_text(cols.len()), ", "@);
    lemma_insert_lens(fields, row);
}

/// The update text holds exactly one placeholder per bound value: one
/// per SET item, then one per primary key.
pub proof fn lemma_update_placeholders(fields: Seq<FieldView>, table: Seq<char>, row: Seq<Seq<char>>)
    requires
        no_q_names(fields),
        count_placeholders(table) == 0,
        row.len() == fields.len(),
    ensures
        count_placeholders(update_text(fields, table)) == non_primary_vals(fields, row).len()
            + primary_vals(fields, row).len(),
{
    broadcast use lemma_count_placeholders_concat;

    reveal_strlit("UPDATE ");
    reveal_strlit(" SET ");
    reveal_strlit(" WHERE ");
    reveal_strlit(", ");
    lemma_count_no_placeholders("UPDATE "@);
    lemma_count_no_placeholders(" SET "@);
    lemma_count_no_placeholders(" WHERE "@);
    lemma_count_no_placeholders(", "@);
    lemma_update_no_q(fields);
    lemma_eq_marks_single(update_fields(fields));
    lemma_join_single_placeholders(eq_marks(update_fields(fields)), ", "@);
    lemma_primary_where_placeholders(fields);
    lemma_key_lens(fields, row);
}

/// The delete text holds exactly one placeholder per bound primary-key
/// value.
pub proof fn lemma_delete_placeholders(fields: Seq<FieldView>, table: Seq<char>, row: Seq<Seq<char>>)
    requires
        no_q_names(fields),
        count_placeholders(table) == 0,
        row.len() == fields.len(),
    ensures
        count_placeholders(delete_text(fields, table)) == primary_vals(fields, row).len(),
{
    broadcast use lemma_count_placeholders_concat;

    reveal_strlit("DELETE FROM ");
    reveal_strlit(" WHERE ");
    lemma_count_no_placeholders("DELETE FROM "@);
    lemma_count_no_placeholders(" WHERE "@);
    lemma_primary_where_placeholders(fields);
    lemma_key_lens(fields, row);
}

/// One field's value at a create call: its textual form, and whether it
/// equals its type's default value. A defaulted value of an optional
/// (serial or defaulted) field is treated as not provided and omitted
/// from the insert — an explicit default and an unset field are
/// indistinguishable here.
pub struct ColumnValue {
    pub text: String,
    pub is_default: bool,
}

/// The mathematical image of a `ColumnValue`.
pub struct ColumnValueView {
    pub text: Seq<char>,
    pub is_default: bool,
}

impl View for ColumnValue {
    type V = ColumnValueView;

    open spec fn view(&self) -> ColumnValueView {
        ColumnValueView { text: self.text@, is_default: self.is_default }
    }
}

impl DeepView for ColumnValue {
    type V = ColumnValueView;

    open spec fn deep_view(&self) -> ColumnValueView {
        self.view()
    }
}

/// The row values bound for the always-insert fields, in declaration
/// order (`row` is index-aligned with `fields`).
pub open spec fn always_vals(fields: Seq<FieldView>, row: Seq<ColumnValueView>) -> Seq<Seq<char>>
    decreases fields.len(),
{
    if fields.len() == 0 || row.len() == 0 {
        Seq::empty()
    } else if !fields.last().is_serial && !fields.last().has_default {
        always_vals(fields.drop_last(), row.drop_last()).push(row.last().text)
    } else {
        always_vals(fields.drop_last(), row.drop_last())
    }
}

/// The names of the optional-insert fields whose value is not the
/// default, in declaration order.
pub open spec fn optional_cols(fields: Seq<FieldView>, row: Seq<ColumnValueView>) -> Seq<Seq<char>>
    decreases fields.len(),
{
    if fields.len() == 0 || row.len() == 0 {
        Seq::empty()
    } else if (fields.last().is_serial || fields.last().has_default) && !row.last().is_default {
        optional_cols(fields.drop_last(), row.drop_last()).push(fields.last().name)
    } else {
        optional_cols(fields.drop_last(), row.drop_last())
    }
}

/// The row values bound for the kept optional-insert fields, in
/// declaration order.
pub open spec fn optional_vals(fields: Seq<FieldView>, row: Seq<ColumnValueView>) -> Seq<Seq<char>>
    decreases fields.len(),
{
    if fields.len() == 0 || row.len() == 0 {
        Seq::empty()
    } else if (fields.last().is_serial || fields.last().has_default) && !row.last().is_default {
        optional_vals(fields.drop_last(), row.drop_last()).push(row.last().text)
    } else {
        optional_vals(fields.drop_last(), row.drop_last())
    }
}

/// Extending the considered prefix by one field extends each insert
/// list exactly when that field's group and value call for it.
proof fn lemma_insert_step(fields: Seq<FieldView>, row: Seq<ColumnValueView>, i: int)
    requires
        0 <= i < fields.len(),
        row.len() == fields.len(),
    ensures
        always_vals(fields.take(i + 1), row.take(i + 1)) == if !fields[i].is_serial
            && !fields[i].has_default {
            always_vals(fields.take(i), row.take(i)).push(row[i].text)
        } else {
            always_vals(fields.take(i), row.take(i))
        },
        optional_cols(fields.take(i + 1), row.take(i + 1)) == if (fields[i].is_serial
            || fields[i].has_default) && !row[i].is_default {
            optional_cols(fields.take(i), row.take(i)).push(fields[i].name)
        } else {
            optional_cols(fields.take(i), row.take(i))
        },
        optional_vals(fields.take(i + 1), row.take(i + 1)) == if (fields[i].is_serial
            || fields[i].has_default) && !row[i].is_default {
            optional_vals(fields.take(i), row.take(i)).push(row[i].text)
        } else {
            optional_vals(fields.take(i), row.take(i))
        },
{
    assert(fields.take(i + 1).drop_last() =~= fields.take(i));
    assert(row.take(i + 1).drop_last() =~= row.take(i));
    assert(fields.take(i + 1).last() == fields[i]);
    assert(row.take(i + 1).last() == row[i]);
}

/// The column list of an insert: always-insert field names first, then
/// the kept optional field names, each group in declaration order.
pub open spec fn insert_cols(fields: Seq<FieldView>, row: Seq<ColumnValueView>) -> Seq<Seq<char>> {
    names_of(always_insert(fields)) + optional_cols(fields, row)
}

/// The bound values of an insert, index-aligned with `insert_cols`.
pub open spec fn insert_vals(fields: Seq<FieldView>, row: Seq<ColumnValueView>) -> Seq<Seq<char>> {
    always_vals(fields, row) + optional_vals(fields, row)
}

/// The insert text: the kept columns, then one `?` per kept column.
pub open spec fn insert_text(
    fields: Seq<FieldView>,
    table: Seq<char>,
    row: Seq<ColumnValueView>,
) -> Seq<char> {
    "INSERT INTO "@ + table + " ("@ + join_with(insert_cols(fields, row), ", "@) + ") VALUES ("@
        + join_with(q_marks_text(insert_cols(fields, row).len()), ", "@) + ")"@
}

/// The row values at the non-primary positions, in declaration order
/// (`row` is index-aligned with `fields`).
pub open spec fn non_primary_vals(fields: Seq<FieldView>, row: Seq<Seq<char>>) -> Seq<Seq<char>>
    decreases fields.len(),
{
    if fields.len() == 0 || row.len() == 0 {
        Seq::empty()
    } else if fields.last().constraint != Constraint::Primary {
        non_primary_vals(fields.drop_last(), row.drop_last()).push(row.last())
    } else {
        non_primary_vals(fields.drop_last(), row.drop_last())
    }
}

/// The row values at the primary-key positions, in declaration order.
pub open spec fn primary_vals(fields: Seq<FieldView>, row: Seq<Seq<char>>) -> Seq<Seq<char>>
    decreases fields.len(),
{
    if fields.len() == 0 || row.len() == 0 {
        Seq::empty()
    } else if fields.last().constraint == Constraint::Primary {
        primary_vals(fields.drop_last(), row.drop_last()).push(row.last())
    } else {
        primary_vals(fields.drop_last(), row.drop_last())
    }
}

/// Extending the considered prefix by one field routes that field's
/// value to the key or the non-key list by its constraint.
proof fn lemma_key_vals_step(fields: Seq<FieldView>, row: Seq<Seq<char>>, i: int)
    requires
        0 <= i < fields.len(),
        row.len() == fields.len(),
    ensures
        non_primary_vals(fields.take(i + 1), row.take(i + 1)) == if fields[i].constraint
            != Constraint::Primary {
            non_primary_vals(fields.take(i), row.take(i)).push(row[i])
        } else {
            non_primary_vals(fields.take(i), row.take(i))
        },
        primary_vals(fields.take(i + 1), row.take(i + 1)) == if fields[i].constraint
            == Constraint::Primary {
            primary_vals(fields.take(i), row.take(i)).push(row[i])
        } else {
            primary_vals(fields.take(i), row.take(i))
        },
{
    assert(fields.take(i + 1).drop_last() =~= fields.take(i));
    assert(row.take(i + 1).drop_last() =~= row.take(i));
    assert(fields.take(i + 1).last() == fields[i]);
    assert(row.take(i + 1).last() == row[i]);
}

/// The update text: a SET item for every non-primary field in
/// declaration order, then the primary-key WHERE clause.
pub open spec fn update_text(fields: Seq<FieldView>, table: Seq<char>) -> Seq<char> {
    "UPDATE "@ + table + " SET "@ + join_with(eq_marks(update_fields(fields)), ", "@) + " WHERE "@
        + primary_where_text(fields)
}

/// The delete text: the primary-key WHERE clause over the table.
pub open spec fn delete_text(fields: Seq<FieldView>, table: Seq<char>) -> Seq<char> {
    "DELETE FROM "@ + table + " WHERE "@ + primary_where_text(fields)
}

impl Entity {
    /// The insert statement for one row: always-insert columns come
    /// first, then the optional columns whose value is not the default;
    /// defaulted optional columns are omitted, with their placeholders.
    /// The bound values follow the column order exactly.
    pub fn create_statement(&self, row: &Vec<ColumnValue>) -> (r: (String, Vec<String>))
        requires
            row@.len() == self.fields@.len(),
        ensures
            r.0@ == insert_text(self.fields.deep_view(), self.table_name@, row.deep_view()),
            r.1.deep_view() == insert_vals(self.fields.deep_view(), row.deep_view()),
    {
        broadcast use vstd::seq_lib::group_filter_ensures;

        let ghost fv = self.fields.deep_view();
        let ghost rv = row.deep_view();
        let mut cols: Vec<String> = Vec::new();
        let mut vals: Vec<String> = Vec::new();
        let mut i: usize = 0;
        while i < self.fields.len()
            invariant
                i <= self.fields@.len(),
                row@.len() == self.fields@.len(),
                fv == self.fields.deep_view(),
                rv == row.deep_view(),
                cols.deep_view() == names_of(always_insert(fv.take(i as int))),
                vals.deep_view() == always_vals(fv.take(i as int), rv.take(i as int)),
            decreases self.fields@.len() - i,
        {
            if !self.fields[i].is_serial && !self.fields[i].has_default {
                cols.push(self.fields[i].name.clone());
                vals.push(row[i].text.clone());
            }
            proof {
                lemma_insert_step(fv, rv, i as int);
                assert(fv.take(i + 1 as int) =~= fv.take(i as int).push(fv[i as int]));
                fv.take(i as int).lemma_filter_push(
                    fv[i as int],
                    |f: FieldView| !f.is_serial && !f.has_default,
                );
                assert(names_of(always_insert(fv.take(i as int)).push(fv[i as int])) =~= names_of(
                    always_insert(fv.take(i as int)),
                ).push(fv[i as int].name));
                assert(cols.deep_view() =~= names_of(always_insert(fv.take(i + 1 as int))));
                assert(vals.deep_view() =~= always_vals(fv.take(i + 1 as int), rv.take(i + 1 as int)));
            }
            i = i + 1;
        }
        proof {
            assert(fv.take(fv.len() as int) =~= fv);
            assert(rv.take(rv.len() as int) =~= rv);
            assert(cols.deep_view() =~= names_of(always_insert(fv)) + optional_cols(
                fv.take(0int),
                rv.take(0int),
            ));
            assert(vals.deep_view() =~= always_vals(fv, rv) + optional_vals(
                fv.take(0int),
                rv.take(0int),
            ));
        }
        let mut j: usize = 0;
        while j < self.fields.len()
            invariant
                j <= self.fields@.len(),
                row@.len() == self.fields@.len(),
                fv == self.fields.deep_view(),
                rv == row.deep_view(),
                cols.deep_view() == names_of(always_insert(fv)) + optional_cols(
                    fv.take(j as int),
                    rv.take(j as int),
                ),
                vals.deep_view() == always_vals(fv, rv) + optional_vals(
                    fv.take(j as int),
                    rv.take(j as int),
                ),
            decreases self.fields@.len() - j,
        {
            let ghost prev_cols = cols.deep_view();
            let ghost prev_vals = vals.deep_view();
            if (self.fields[j].is_serial || self.fields[j].has_default) && !row[j].is_default {
                cols.push(self.fields[j].name.clone());
                vals.push(row[j].text.clone());
                proof {
                    assert(cols.deep_view() =~= prev_cols.push(fv[j as int].name));
                    assert(vals.deep_view() =~= prev_vals.push(rv[j as int].text));
                }
            }
            proof {
                lemma_insert_step(fv, rv, j as int);
                assert(cols.deep_view() =~= names_of(always_insert(fv)) + optional_cols(
                    fv.take(j + 1 as int),
                    rv.take(j + 1 as int),
                ));
                assert(vals.deep_view() =~= always_vals(fv, rv) + optional_vals(
                    fv.take(j + 1 as int),
                    rv.take(j + 1 as int),
                ));
            }
            j = j + 1;
        }
        let marks = q_marks_vec(cols.len());
        let joined_cols = join_strings(&cols, ", ");
        let joined_marks = join_strings(&marks, ", ");
        let mut s = String::from_str("INSERT INTO ");
        s.append(self.table_name.as_str());
        s.append(" (");
        s.append(joined_cols.as_str());
        s.append(") VALUES (");
        s.append(joined_marks.as_str());
        s.append(")");
        (s, vals)
    }

    /// The update statement for one row, keyed by the primary keys: the
    /// SET values in declaration order come first, then every primary-key
    /// value, in declaration order (`row` holds each field's textual
    /// value, index-aligned with the entity's fields).
    pub fn update_statement(&self, row: &Vec<String>) -> (r: (String, Vec<String>))
        requires
            row@.len() == self.fields@.len(),
        ensures
            r.0@ == update_text(self.fields.deep_view(), self.table_name@),
            r.1.deep_view() == non_primary_vals(self.fields.deep_view(), row.deep_view())
                + primary_vals(self.fields.deep_view(), row.deep_view()),
    {
        let ghost fv = self.fields.deep_view();
        let ghost rv = row.deep_view();
        let sets = non_primary_fields_vec(&self.fields);
        let set_marks = eq_marks_vec(&sets);
        let joined_sets = join_strings(&set_marks, ", ");
        let pw = self.primary_where();
        let mut s = String::from_str("UPDATE ");
        s.append(self.table_name.as_str());
        s.append(" SET ");
        s.append(joined_sets.as_str());
        s.append(" WHERE ");
        s.append(pw.as_str());
        let mut vals = vals_at_non_primary(&self.fields, row);
        let mut pk_vals = vals_at_primary(&self.fields, row);
        vals.append(&mut pk_vals);
        proof {
            assert(vals.deep_view() =~= non_primary_vals(fv, rv) + primary_vals(fv, rv));
        }
        (s, vals)
    }

    /// The delete statement for one row, keyed by the primary keys, whose
    /// values are bound in declaration order.
    pub fn delete_statement(&self, row: &Vec<String>) -> (r: (String, Vec<String>))
        requires
            row@.len() == self.fields@.len(),
        ensures
            r.0@ == delete_text(self.fields.deep_view(), self.table_name@),
            r.1.deep_view() == primary_vals(self.fields.deep_view(), row.deep_view()),
    {
        let pw = self.primary_where();
        let mut s = String::from_str("DELETE FROM ");
        s.append(self.table_name.as_str());
        s.append(" WHERE ");
        s.append(pw.as_str());
        let vals = vals_at_primary(&self.fields, row);
        (s, vals)
    }
}

/// The fields outside the primary key, in declaration order.
fn non_primary_fields_vec(fields: &Vec<Field>) -> (r: Vec<Field>)
    ensures
        r.deep_view() == update_fields(fields.deep_view()),
{
    broadcast use vstd::seq_lib::group_filter_ensures;

    let mut r: Vec<Field> = Vec::new();
    let mut i: usize = 0;
    while i < fields.len()
        invariant
            i <= fields@.len(),
            r.deep_view() == update_fields(fields.deep_view().take(i as int)),
        decreases fields@.len() - i,
    {
        if !matches!(fields[i].constraint, Constraint::Primary) {
            r.push(fields[i].clone());
        }
        proof {
            let fv = fields.deep_view();
            assert(fv.take(i + 1 as int) =~= fv.take(i as int).push(fv[i as int]));
            fv.take(i as int).lemma_filter_push(
                fv[i as int],
                |f: FieldView| f.constraint != Constraint::Primary,
            );
            assert(r.deep_view() =~= update_fields(fv.take(i + 1 as int)));
        }
        i = i + 1;
    }
    proof {
        assert(fields.deep_view().take(fields@.len() as int) =~= fields.deep_view());
    }
    r
}

/// The row values at the non-primary positions.
fn vals_at_non_primary(fields: &Vec<Field>, row: &Vec<String>) -> (r: Vec<String>)
    requires
        row@.len() == fields@.len(),
    ensures
        r.deep_view() == non_primary_vals(fields.deep_view(), row.deep_view()),
{
    let ghost fv = fields.deep_view();
    let ghost rv = row.deep_view();
    let mut r: Vec<String> = Vec::new();
    let mut i: usize = 0;
    while i < fields.len()
        invariant
            i <= fields@.len(),
            row@.len() == fields@.len(),
            fv == fields.deep_view(),
            rv == row.deep_view(),
            r.deep_view() == non_primary_vals(fv.take(i as int), rv.take(i as int)),
        decreases fields@.len() - i,
    {
        if !matches!(fields[i].constraint, Constraint::Primary) {
            r.push(row[i].clone());
        }
        proof {
            lemma_key_vals_step(fv, rv, i as int);
            assert(r.deep_view() =~= non_primary_vals(fv.take(i + 1 as int), rv.take(i + 1 as int)));
        }
        i = i + 1;
    }
    proof {
        assert(fv.take(fv.len() as int) =~= fv);
        assert(rv.take(rv.len() as int) =~= rv);
    }
    r
}

/// The row values at the primary-key positions.
fn vals_at_primary(fields: &Vec<Field>, row: &Vec<String>) -> (r: Vec<String>)
    requires
        row@.len() == fields@.len(),
    ensures
        r.deep_view() == primary_vals(fields.deep_view(), row.deep_view()),
{
    let ghost fv = fields.deep_view();
    let ghost rv = row.deep_view();
    let mut r: Vec<String> = Vec::new();
    let mut i: usize = 0;
    while i < fields.len()
        invariant
            i <= fields@.len(),
            row@.len() == fields@.len(),
            fv == fields.deep_view(),
            rv == row.deep_view(),
            r.deep_view() == primary_vals(fv.take(i as int), rv.take(i as int)),
        decreases fields@.len() - i,
    {
        if matches!(fields[i].constraint, Constraint::Primary) {
            r.push(row[i].clone());
        }
        proof {
            lemma_key_vals_step(fv, rv, i as int);
            assert(r.deep_view() =~= primary_vals(fv.take(i + 1 as int), rv.take(i + 1 as int)));
        }
        i = i + 1;
    }
    proof {
        assert(fv.take(fv.len() as int) =~= fv);
        assert(rv.take(rv.len() as int) =~= rv);
    }
    r
}

/// `n` placeholder strings.
fn q_marks_vec(n: usize) -> (r: Vec<String>)
    ensures
        r.deep_view() == q_marks_text(n as nat),
{
    let mut r: Vec<String> = Vec::new();
    let mut i: usize = 0;
    while i < n
        invariant
            i <= n,
            r.deep_view() == q_marks_text(i as nat),
        decreases n - i,
    {
        let ghost prev = r.deep_view();
        r.push(String::from_str("?"));
        proof {
            assert(r.deep_view() =~= prev.push("?"@));
            assert(r.deep_view() =~= q_marks_text((i + 1) as nat));
        }
        i = i + 1;
    }
    r
}

/// The ordered field names as strings.
fn names_vec(fields: &Vec<Field>) -> (r: Vec<String>)
    ensures
        r.deep_view() == names_of(fields.deep_view()),
{
    let mut r: Vec<String> = Vec::new();
    let mut i: usize = 0;
    while i < fields.len()
        invariant
            i <= fields@.len(),
            r.deep_view() == names_of(fields.deep_view().take(i as int)),
        decreases fields@.len() - i,
    {
        r.push(fields[i].name.clone());
        proof {
            let fv = fields.deep_view();
            assert(fv.take(i + 1 as int) =~= fv.take(i as int).push(fv[i as int]));
            assert(names_of(fv.take(i as int).push(fv[i as int])) =~= names_of(
                fv.take(i as int),
            ).push(fv[i as int].name));
            assert(r.deep_view() =~= names_of(fv.take(i + 1 as int)));
        }
        i = i + 1;
    }
    proof {
        assert(fields.deep_view().take(fields@.len() as int) =~= fields.deep_view());
    }
    r
}

/// One `<name> = ?` string per field.
fn eq_marks_vec(fields: &Vec<Field>) -> (r: Vec<String>)
    ensures
        r.deep_view() == eq_marks(fields.deep_view()),
{
    let mut r: Vec<String> = Vec::new();
    let mut i: usize = 0;
    while i < fields.len()
        invariant
            i <= fields@.len(),
            r.deep_view() == eq_marks(fields.deep_view().take(i as int)),
        decreases fields@.len() - i,
    {
        let mut s = fields[i].name.clone();
        s.append(" = ?");
        r.push(s);
        proof {
            let fv = fields.deep_view();
            assert(fv.take(i + 1 as int) =~= fv.take(i as int).push(fv[i as int]));
            assert(eq_marks(fv.take(i as int).push(fv[i as int])) =~= eq_marks(
                fv.take(i as int),
            ).push(fv[i as int].name + " = ?"@));
            assert(r.deep_view() =~= eq_marks(fv.take(i + 1 as int)));
        }
        i = i + 1;
    }
    proof {
        assert(fields.deep_view().take(fields@.len() as int) =~= fields.deep_view());
    }
    r
}

} // verus!
