//! The field classifier: turns a record type's declared fields and their
//! per-field markers into ordered field metadata. Classification is total
//! and deterministic; no marker combination is an error.

use vstd::prelude::*;

use crate::text::count_placeholders;

verus! {

/// The key constraint of a classified field. `primary_key` takes priority
/// over `unique` when a field carries both markers.
#[derive(Clone, Copy, PartialEq, Eq, Structural, Debug)]
pub enum Constraint {
    Primary,
    Unique,
    Plain,
}

/// A declared field as the user wrote it: its name, the name of its type,
/// and the recognized markers. `sql_type` is a reserved configuration slot
/// with no behavioral effect.
pub struct FieldDecl {
    pub name: String,
    pub ty: String,
    pub suppress: bool,
    pub primary_key: bool,
    pub unique: bool,
    pub serial: bool,
    pub default_value: bool,
    pub sql_type: bool,
}

/// Classified field metadata, one per declared, non-suppressed field.
pub struct Field {
    pub constraint: Constraint,
    pub is_serial: bool,
    pub name: String,
    pub ty: String,
    pub has_default: bool,
}

/// The mathematical image of a `FieldDecl`.
pub struct FieldDeclView {
    pub name: Seq<char>,
    pub ty: Seq<char>,
    pub suppress: bool,
    pub primary_key: bool,
    pub unique: bool,
    pub serial: bool,
    pub default_value: bool,
    pub sql_type: bool,
}

/// The mathematical image of a `Field`.
pub struct FieldView {
    pub constraint: Constraint,
    pub is_serial: bool,
    pub name: Seq<char>,
    pub ty: Seq<char>,
    pub has_default: bool,
}

impl View for FieldDecl {
    type V = FieldDeclView;

    open spec fn view(&self) -> FieldDeclView {
        FieldDeclView {
            name: self.name@,
            ty: self.ty@,
            suppress: self.suppress,
            primary_key: self.primary_key,
            unique: self.unique,
            serial: self.serial,
            default_value: self.default_value,
            sql_type: self.sql_type,
        }
    }
}

impl DeepView for FieldDecl {
    type V = FieldDeclView;

    open spec fn deep_view(&self) -> FieldDeclView {
        self.view()
    }
}

impl View for Field {
    type V = FieldView;

    open spec fn view(&self) -> FieldView {
        FieldView {
            constraint: self.constraint,
            is_serial: self.is_serial,
            name: self.name@,
            ty: self.ty@,
            has_default: self.has_default,
        }
    }
}

impl DeepView for Field {
    type V = FieldView;

    open spec fn deep_view(&self) -> FieldView {
        self.view()
    }
}

impl Clone for Field {
    fn clone(&self) -> (r: Self)
        ensures
            r@ == self@,
    {
        Field {
            constraint: self.constraint,
            is_serial: self.is_serial,
            name: self.name.clone(),
            ty: self.ty.clone(),
            has_default: self.has_default,
        }
    }
}

/// The metadata of one non-suppressed declared field: `primary_key` wins
/// over `unique`, `serial` sets the serial flag, and a recognized
/// default-value marker sets the default flag.
pub open spec fn classify_one(d: FieldDeclView) -> FieldView {
    FieldView {
        constraint: if d.primary_key {
            Constraint::Primary
        } else if d.unique {
            Constraint::Unique
        } else {
            Constraint::Plain
        },
        is_serial: d.serial,
        name: d.name,
        ty: d.ty,
        has_default: d.default_value,
    }
}

/// The metadata of a declared field list: suppressed fields are dropped,
/// the rest are classified in declaration order.
pub open spec fn classify(decls: Seq<FieldDeclView>) -> Seq<FieldView>
    decreases decls.len(),
{
    if decls.len() == 0 {
        Seq::empty()
    } else if decls.last().suppress {
        classify(decls.drop_last())
    } else {
        classify(decls.drop_last()).push(classify_one(decls.last()))
    }
}

/// Classifies the declared fields into ordered field metadata.
pub fn parse_fields(decls: &Vec<FieldDecl>) -> (r: Vec<Field>)
    ensures
        r.deep_view() == classify(decls.deep_view()),
{
    let mut r: Vec<Field> = Vec::new();
    let mut i: usize = 0;
    while i < decls.len()
        invariant
            i <= decls.len(),
            r.deep_view() == classify(decls.deep_view().take(i as int)),
        decreases decls.len() - i,
    {
        let d = &decls[i];
        if !d.suppress {
            let constraint = if d.primary_key {
                Constraint::Primary
            } else if d.unique {
                Constraint::Unique
            } else {
                Constraint::Plain
            };
            r.push(
                Field {
                    constraint,
                    is_serial: d.serial,
                    name: d.name.clone(),
                    ty: d.ty.clone(),
                    has_default: d.default_value,
                },
            );
        }
        proof {
            let dv = decls.deep_view();
            assert(dv.take(i + 1 as int).drop_last() =~= dv.take(i as int));
            assert(dv.take(i + 1 as int).last() == dv[i as int]);
            assert(r.deep_view() =~= classify(dv.take(i + 1 as int)));
        }
        i = i + 1;
    }
    proof {
        assert(decls.deep_view().take(decls.len() as int) =~= decls.deep_view());
    }
    r
}

/// No field name carries a `?` of its own: what every identifier-named
/// schema satisfies, and what keeps placeholder counting exact.
pub open spec fn no_q_names(fields: Seq<FieldView>) -> bool {
    forall|i: int| 0 <= i < fields.len() ==> count_placeholders((#[trigger] fields[i]).name) == 0
}

/// Classification never invents a `?`: a declaration list with `?`-free
/// names yields `?`-free field metadata.
pub proof fn lemma_classify_no_q(decls: Seq<FieldDeclView>)
    requires
        forall|i: int|
            0 <= i < decls.len() ==> count_placeholders((#[trigger] decls[i]).name) == 0,
    ensures
        no_q_names(classify(decls)),
    decreases decls.len(),
{
    if decls.len() > 0 {
        assert forall|i: int| 0 <= i < decls.drop_last().len() implies count_placeholders(
            (#[trigger] decls.drop_last()[i]).name,
        ) == 0 by {
            assert(decls.drop_last()[i] == decls[i]);
        }
        lemma_classify_no_q(decls.drop_last());
        let rest = classify(decls.drop_last());
        if !decls.last().suppress {
            assert forall|i: int| 0 <= i < classify(decls).len() implies count_placeholders(
                (#[trigger] classify(decls)[i]).name,
            ) == 0 by {
                if i < rest.len() {
                    assert(classify(decls)[i] == rest[i]);
                } else {
                    assert(classify(decls)[i] == classify_one(decls.last()));
                    assert(decls.last() == decls[decls.len() - 1]);
                }
            }
        }
    }
}

/// The fields with a primary-key constraint, in declaration order.
pub open spec fn primary_fields(fields: Seq<FieldView>) -> Seq<FieldView> {
    fields.filter(|f: FieldView| f.constraint == Constraint::Primary)
}

/// The fields with a unique constraint, in declaration order.
pub open spec fn unique_fields(fields: Seq<FieldView>) -> Seq<FieldView> {
    fields.filter(|f: FieldView| f.constraint == Constraint::Unique)
}

/// The primary-key fields of `fields`, in declaration order.
pub fn get_primary_keys(fields: &Vec<Field>) -> (r: Vec<Field>)
    ensures
        r.deep_view() == primary_fields(fields.deep_view()),
{
    broadcast use vstd::seq_lib::group_filter_ensures;

    let mut r: Vec<Field> = Vec::new();
    let mut i: usize = 0;
    while i < fields.len()
        invariant
            i <= fields.len(),
            r.deep_view() == primary_fields(fields.deep_view().take(i as int)),
        decreases fields.len() - i,
    {
        if matches!(fields[i].constraint, Constraint::Primary) {
            r.push(fields[i].clone());
        }
        proof {
            let fv = fields.deep_view();
            assert(fv.take(i + 1 as int) =~= fv.take(i as int).push(fv[i as int]));
            fv.take(i as int).lemma_filter_push(
                fv[i as int],
                |f: FieldView| f.constraint == Constraint::Primary,
            );
            assert(r.deep_view() =~= primary_fields(fv.take(i + 1 as int)));
        }
        i = i + 1;
    }
    proof {
        assert(fields.deep_view().take(fields.len() as int) =~= fields.deep_view());
    }
    r
}

/// The unique-key fields of `fields`, in declaration order.
pub fn get_unique_keys(fields: &Vec<Field>) -> (r: Vec<Field>)
    ensures
        r.deep_view() == unique_fields(fields.deep_view()),
{
    broadcast use vstd::seq_lib::group_filter_ensures;

    let mut r: Vec<Field> = Vec::new();
    let mut i: usize = 0;
    while i < fields.len()
        invariant
            i <= fields.len(),
            r.deep_view() == unique_fields(fields.deep_view().take(i as int)),
        decreases fields.len() - i,
    {
        if matches!(fields[i].constraint, Constraint::Unique) {
            r.push(fields[i].clone());
        }
        proof {
            let fv = fields.deep_view();
            assert(fv.take(i + 1 as int) =~= fv.take(i as int).push(fv[i as int]));
            fv.take(i as int).lemma_filter_push(
                fv[i as int],
                |f: FieldView| f.constraint == Constraint::Unique,
            );
            assert(r.deep_view() =~= unique_fields(fv.take(i + 1 as int)));
        }
        i = i + 1;
    }
    proof {
        assert(fields.deep_view().take(fields.len() as int) =~= fields.deep_view());
    }
    r
}

} // verus!
