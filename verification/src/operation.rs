//! The predicate algebra: leaf comparisons over named columns and AND/OR
//! composition, each formatting to a parameterized clause plus the ordered
//! list of its operand values.

use vstd::prelude::*;
use vstd::string::StringExecFns;

use crate::text::{
    count_placeholders, lemma_count_no_placeholders, lemma_count_one_trailing,
    lemma_count_placeholders_concat,
};

verus! {

/// A column proxy: holds the column's name and offers the comparison
/// constructors of the predicate algebra.
pub struct Operational(pub &'static str);

/// A predicate over one table's columns. A leaf compares a column with a
/// snapshotted value; `Simple` carries an already-rendered clause together
/// with its ordered values, and is what composition produces.
pub enum Operation {
    Simple(String, Vec<String>),
    EQ(&'static str, String),
    GT(&'static str, String),
    LT(&'static str, String),
}

/// The clause text that `format` renders for `op`.
pub open spec fn clause_of(op: Operation) -> Seq<char> {
    match op {
        Operation::Simple(fmt, _) => fmt@,
        Operation::EQ(key, _) => key@ + " = ?"@,
        Operation::GT(key, _) => key@ + " > ?"@,
        Operation::LT(key, _) => key@ + " < ?"@,
    }
}

/// The ordered values that `format` returns for `op`.
pub open spec fn params_of(op: Operation) -> Seq<Seq<char>> {
    match op {
        Operation::Simple(_, values) => values.deep_view(),
        Operation::EQ(_, value) => seq![value@],
        Operation::GT(_, value) => seq![value@],
        Operation::LT(_, value) => seq![value@],
    }
}

/// A well-formed predicate: column names carry no `?` of their own, and a
/// pre-rendered clause has exactly one `?` per value. Everything built from
/// `?`-free column names through the constructors of this module satisfies
/// this.
pub open spec fn wf_op(op: Operation) -> bool {
    match op {
        Operation::Simple(fmt, values) => count_placeholders(fmt@) == values@.len(),
        Operation::EQ(key, _) => count_placeholders(key@) == 0,
        Operation::GT(key, _) => count_placeholders(key@) == 0,
        Operation::LT(key, _) => count_placeholders(key@) == 0,
    }
}

/// In a well-formed predicate, the clause holds exactly one `?` per value:
/// the formatted text and the value list stay index-aligned.
pub proof fn lemma_op_placeholders(op: Operation)
    requires
        wf_op(op),
    ensures
        count_placeholders(clause_of(op)) == params_of(op).len(),
{
    broadcast use lemma_count_placeholders_concat;

    match op {
        Operation::Simple(fmt, values) => {
            assert(values.deep_view().len() == values@.len());
        },
        Operation::EQ(_, _) => {
            reveal_strlit(" = ?");
            lemma_count_one_trailing(" = ?"@);
        },
        Operation::GT(_, _) => {
            reveal_strlit(" > ?");
            lemma_count_one_trailing(" > ?"@);
        },
        Operation::LT(_, _) => {
            reveal_strlit(" < ?");
            lemma_count_one_trailing(" < ?"@);
        },
    }
}

impl Operational {
    /// The predicate `<column> = <value>`; the value is snapshotted as text.
    pub fn equals(&self, value: &str) -> (r: Operation)
        ensures
            r matches Operation::EQ(k, v) && k@ == self.0@ && v@ == value@,
    {
        Operation::EQ(self.0, String::from_str(value))
    }

    /// The predicate `<column> > <value>`; the value is snapshotted as text.
    pub fn greater_than(&self, value: &str) -> (r: Operation)
        ensures
            r matches Operation::GT(k, v) && k@ == self.0@ && v@ == value@,
    {
        Operation::GT(self.0, String::from_str(value))
    }

    /// The predicate `<column> < <value>`; the value is snapshotted as text.
    pub fn less_than(&self, value: &str) -> (r: Operation)
        ensures
            r matches Operation::LT(k, v) && k@ == self.0@ && v@ == value@,
    {
        Operation::LT(self.0, String::from_str(value))
    }
}

impl Operation {
    /// Renders the predicate as a clause plus its ordered values. Consuming:
    /// a predicate is formatted exactly once.
    pub fn format(self) -> (r: (String, Vec<String>))
        ensures
            r.0@ == clause_of(self),
            r.1.deep_view() == params_of(self),
            r.1@.len() == params_of(self).len(),
    {
        match self {
            Operation::Simple(fmt, values) => (fmt, values),
            Operation::EQ(key, value) => {
                let mut s = String::from_str(key);
                s.append(" = ?");
                let vs = vec![value];
                proof {
                    assert(vs.deep_view() =~= params_of(self));
                }
                (s, vs)
            },
            Operation::GT(key, value) => {
                let mut s = String::from_str(key);
                s.append(" > ?");
                let vs = vec![value];
                proof {
                    assert(vs.deep_view() =~= params_of(self));
                }
                (s, vs)
            },
            Operation::LT(key, value) => {
                let mut s = String::from_str(key);
                s.append(" < ?");
                let vs = vec![value];
                proof {
                    assert(vs.deep_view() =~= params_of(self));
                }
                (s, vs)
            },
        }
    }

    /// The conjunction of two predicates: the clause is
    /// `(<left> AND <right>)` and the left operand's values precede the
    /// right operand's.
    pub fn and(self, rhs: Operation) -> (r: Operation)
        ensures
            r matches Operation::Simple(c, vs) && c@ == "("@ + clause_of(self) + " AND "@
                + clause_of(rhs) + ")"@ && vs.deep_view() == params_of(self) + params_of(rhs),
            clause_of(r) == "("@ + clause_of(self) + " AND "@ + clause_of(rhs) + ")"@,
            params_of(r) == params_of(self) + params_of(rhs),
            wf_op(self) && wf_op(rhs) ==> wf_op(r),
    {
        let ghost op1 = self;
        let ghost op2 = rhs;
        let (c1, mut p1) = self.format();
        let (c2, mut p2) = rhs.format();
        let mut s = String::from_str("(");
        s.append(c1.as_str());
        s.append(" AND ");
        s.append(c2.as_str());
        s.append(")");
        p1.append(&mut p2);
        proof {
            assert(p1.deep_view() =~= params_of(op1) + params_of(op2));
            reveal_strlit(" AND ");
            lemma_count_no_placeholders(" AND "@);
            lemma_combined_wf(op1, op2, " AND "@, s@, p1@.len());
        }
        Operation::Simple(s, p1)
    }

    /// The disjunction of two predicates: the clause is
    /// `(<left> OR <right>)` and the left operand's values precede the
    /// right operand's.
    pub fn or(self, rhs: Operation) -> (r: Operation)
        ensures
            r matches Operation::Simple(c, vs) && c@ == "("@ + clause_of(self) + " OR "@
                + clause_of(rhs) + ")"@ && vs.deep_view() == params_of(self) + params_of(rhs),
            clause_of(r) == "("@ + clause_of(self) + " OR "@ + clause_of(rhs) + ")"@,
            params_of(r) == params_of(self) + params_of(rhs),
            wf_op(self) && wf_op(rhs) ==> wf_op(r),
    {
        let ghost op1 = self;
        let ghost op2 = rhs;
        let (c1, mut p1) = self.format();
        let (c2, mut p2) = rhs.format();
        let mut s = String::from_str("(");
        s.append(c1.as_str());
        s.append(" OR ");
        s.append(c2.as_str());
        s.append(")");
        p1.append(&mut p2);
        proof {
            assert(p1.deep_view() =~= params_of(op1) + params_of(op2));
            reveal_strlit(" OR ");
            lemma_count_no_placeholders(" OR "@);
            lemma_combined_wf(op1, op2, " OR "@, s@, p1@.len());
        }
        Operation::Simple(s, p1)
    }
}

/// A clause that wraps two well-formed operands in parentheses around a
/// `?`-free connective has one `?` per combined value.
proof fn lemma_combined_wf(op1: Operation, op2: Operation, mid: Seq<char>, text: Seq<char>, n_values: nat)
    requires
        text == "("@ + clause_of(op1) + mid + clause_of(op2) + ")"@,
        count_placeholders(mid) == 0,
        n_values == params_of(op1).len() + params_of(op2).len(),
    ensures
        wf_op(op1) && wf_op(op2) ==> count_placeholders(text) == n_values,
{
    broadcast use lemma_count_placeholders_concat;

    if wf_op(op1) && wf_op(op2) {
        lemma_op_placeholders(op1);
        lemma_op_placeholders(op2);
        reveal_strlit("(");
        reveal_strlit(")");
        lemma_count_no_placeholders("("@);
        lemma_count_no_placeholders(")"@);
    }
}

} // verus!
