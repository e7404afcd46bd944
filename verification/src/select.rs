//! The select query builder: a mutable accumulator of WHERE fragments,
//! ordered bound values, and a limit, assembled into the final query text.

use vstd::prelude::*;
use vstd::string::StringExecFns;

use crate::operation::{clause_of, lemma_op_placeholders, params_of, wf_op, Operation};
use crate::text::{
    count_placeholders, int_dec_rep, isize_to_dec, join_strings, join_with,
    lemma_count_no_placeholders, lemma_count_placeholders_concat, lemma_int_dec_rep_no_placeholders,
};

verus! {

/// A rendered WHERE fragment tagged with its join role: the first fragment
/// of a query renders bare, later ones render with a leading `AND ` or
/// `OR `.
pub enum WhereClause {
    Single(String),
    And(String),
    Or(String),
}

/// The text a fragment contributes to the WHERE section.
pub open spec fn rendered(wc: WhereClause) -> Seq<char> {
    match wc {
        WhereClause::Single(clause) => clause@,
        WhereClause::And(clause) => "AND "@ + clause@,
        WhereClause::Or(clause) => "OR "@ + clause@,
    }
}

impl WhereClause {
    /// Renders the fragment, prefixing its join role.
    pub fn to_string(&self) -> (r: String)
        ensures
            r@ == rendered(*self),
    {
        match self {
            WhereClause::Single(clause) => clause.clone(),
            WhereClause::And(clause) => {
                let mut s = String::from_str("AND ");
                s.append(clause.as_str());
                s
            },
            WhereClause::Or(clause) => {
                let mut s = String::from_str("OR ");
                s.append(clause.as_str());
                s
            },
        }
    }
}

/// A select statement under construction: the entity's base SELECT text,
/// the ordered WHERE fragments, the bound values (index-aligned with the
/// `?` placeholders), and the limit (`0` means unbounded).
pub struct SelectQuery {
    pub base_query: String,
    pub wheres: Vec<WhereClause>,
    pub params: Vec<String>,
    pub limit_: isize,
}

/// The rendered text of each fragment, in order.
pub open spec fn rendered_all(ws: Seq<WhereClause>) -> Seq<Seq<char>> {
    ws.map_values(|w: WhereClause| rendered(w))
}

/// The WHERE section: empty without fragments, else ` WHERE ` followed by
/// the fragments joined by single spaces.
pub open spec fn wheres_text(ws: Seq<WhereClause>) -> Seq<char> {
    if ws.len() == 0 {
        Seq::empty()
    } else {
        " WHERE "@ + join_with(rendered_all(ws), " "@)
    }
}

/// The LIMIT section: empty for limit `0`, else `LIMIT ` and the number.
pub open spec fn limit_text(limit: int) -> Seq<char> {
    if limit == 0 {
        Seq::empty()
    } else {
        "LIMIT "@ + int_dec_rep(limit)
    }
}

/// The assembled query text: base text, WHERE section, one space, LIMIT
/// section.
pub open spec fn query_text(q: SelectQuery) -> Seq<char> {
    q.base_query@ + wheres_text(q.wheres@) + " "@ + limit_text(q.limit_ as int)
}

/// A well-formed builder: the base text and the WHERE fragments together
/// hold exactly one `?` per bound value. Every builder seeded from a
/// `?`-free base text and grown through `and`/`or` with well-formed
/// predicates satisfies this.
pub open spec fn wf_query(q: SelectQuery) -> bool {
    count_placeholders(q.base_query@ + wheres_text(q.wheres@)) == q.params@.len()
}

/// Appending a fragment extends the WHERE section by the fragment's text,
/// after ` WHERE ` for the first fragment and a single space otherwise.
pub proof fn lemma_wheres_text_push(ws: Seq<WhereClause>, w: WhereClause)
    ensures
        wheres_text(ws.push(w)) == wheres_text(ws) + (if ws.len() == 0 {
            " WHERE "@
        } else {
            " "@
        }) + rendered(w),
{
    let m = rendered_all(ws);
    let mp = rendered_all(ws.push(w));
    assert(mp =~= m.push(rendered(w)));
    if ws.len() == 0 {
        assert(join_with(mp, " "@) == rendered(w));
        assert(wheres_text(ws.push(w)) =~= wheres_text(ws) + " WHERE "@ + rendered(w));
    } else {
        assert(mp.drop_last() =~= m);
        assert(join_with(mp, " "@) == join_with(m, " "@) + " "@ + rendered(w));
        assert(wheres_text(ws.push(w)) =~= wheres_text(ws) + " "@ + rendered(w));
    }
}

/// In a well-formed builder the assembled query text holds exactly as many
/// `?` placeholders as there are bound values: neither the spaces, nor
/// ` WHERE `, nor the rendered limit add or hide one.
pub proof fn lemma_query_placeholders(q: SelectQuery)
    requires
        wf_query(q),
    ensures
        count_placeholders(query_text(q)) == q.params@.len(),
{
    broadcast use lemma_count_placeholders_concat;

    reveal_strlit(" ");
    reveal_strlit("LIMIT ");
    lemma_count_no_placeholders(" "@);
    assert(count_placeholders(Seq::<char>::empty()) == 0);
    if q.limit_ != 0 {
        lemma_count_no_placeholders("LIMIT "@);
        lemma_int_dec_rep_no_placeholders(q.limit_ as int);
    }
}

impl SelectQuery {
    /// A fresh builder over the given base SELECT text: no fragments, no
    /// bound values, no limit.
    pub fn new(base_query: &str) -> (r: SelectQuery)
        ensures
            r.base_query@ == base_query@,
            r.wheres@ == Seq::<WhereClause>::empty(),
            r.params@ == Seq::<String>::empty(),
            r.limit_ == 0,
            count_placeholders(base_query@) == 0 ==> wf_query(r),
    {
        let r = SelectQuery {
            base_query: String::from_str(base_query),
            params: Vec::new(),
            wheres: Vec::new(),
            limit_: 0,
        };
        proof {
            assert(r.base_query@ + wheres_text(r.wheres@) =~= base_query@);
        }
        r
    }

    /// A builder seeded with fragments and their bound values, as
    /// `select_where` uses after formatting an initial predicate.
    pub fn with_params(base_query: &str, params: Vec<String>, wheres: Vec<WhereClause>) -> (r:
        SelectQuery)
        ensures
            r.base_query@ == base_query@,
            r.wheres@ == wheres@,
            r.params@ == params@,
            r.limit_ == 0,
    {
        SelectQuery { base_query: String::from_str(base_query), params, wheres, limit_: 0 }
    }

    /// Renders the WHERE section of the query.
    pub fn build_wheres(&self) -> (r: String)
        ensures
            r@ == wheres_text(self.wheres@),
    {
        if self.wheres.len() == 0 {
            return String::new();
        }
        let mut clauses: Vec<String> = Vec::new();
        let mut i: usize = 0;
        while i < self.wheres.len()
            invariant
                i <= self.wheres@.len(),
                clauses.deep_view() == rendered_all(self.wheres@.take(i as int)),
            decreases self.wheres@.len() - i,
        {
            clauses.push(self.wheres[i].to_string());
            proof {
                let ws = self.wheres@;
                assert(ws.take(i + 1 as int) =~= ws.take(i as int).push(ws[i as int]));
                assert(rendered_all(ws.take(i as int).push(ws[i as int])) =~= rendered_all(
                    ws.take(i as int),
                ).push(rendered(ws[i as int])));
                assert(clauses.deep_view() =~= rendered_all(ws.take(i + 1 as int)));
            }
            i = i + 1;
        }
        let joined = join_strings(&clauses, " ");
        let mut r = String::from_str(" WHERE ");
        r.append(joined.as_str());
        proof {
            assert(self.wheres@.take(self.wheres@.len() as int) =~= self.wheres@);
        }
        r
    }

    /// Assembles the final query text: base text, WHERE section, a space,
    /// LIMIT section.
    pub fn get_query(&self) -> (r: String)
        ensures
            r@ == query_text(*self),
    {
        let limit = if self.limit_ == 0 {
            String::new()
        } else {
            let mut t = String::from_str("LIMIT ");
            let digits = isize_to_dec(self.limit_);
            t.append(digits.as_str());
            t
        };
        let mut r = self.base_query.clone();
        let w = self.build_wheres();
        r.append(w.as_str());
        r.append(" ");
        r.append(limit.as_str());
        r
    }

    /// Appends the predicate as an `OR` fragment — bare if it is the
    /// first fragment — and its values to the bound list, in the
    /// predicate's own order.
    pub fn or(&mut self, op: Operation)
        ensures
            final(self).base_query@ == old(self).base_query@,
            final(self).limit_ == old(self).limit_,
            final(self).wheres@.len() == old(self).wheres@.len() + 1,
            final(self).wheres@ == old(self).wheres@.push(final(self).wheres@.last()),
            rendered(final(self).wheres@.last()) == if old(self).wheres@.len() == 0 {
                clause_of(op)
            } else {
                "OR "@ + clause_of(op)
            },
            final(self).params.deep_view() == old(self).params.deep_view() + params_of(op),
            final(self).params@.len() == old(self).params@.len() + params_of(op).len(),
            wf_query(*old(self)) && wf_op(op) ==> wf_query(*final(self)),
    {
        let ghost q0 = *self;
        let ghost op0 = op;
        let (clause, mut params) = op.format();
        if self.wheres.len() == 0 {
            self.wheres.push(WhereClause::Single(clause));
        } else {
            self.wheres.push(WhereClause::Or(clause));
        }
        self.params.append(&mut params);
        proof {
            assert(self.params.deep_view() =~= q0.params.deep_view() + params_of(op0));
            lemma_push_preserves_wf(q0, *self, op0);
        }
    }

    /// Appends the predicate as an `AND` fragment — bare if it is the
    /// first fragment — and its values to the bound list, in the
    /// predicate's own order.
    pub fn and(&mut self, op: Operation)
        ensures
            final(self).base_query@ == old(self).base_query@,
            final(self).limit_ == old(self).limit_,
            final(self).wheres@.len() == old(self).wheres@.len() + 1,
            final(self).wheres@ == old(self).wheres@.push(final(self).wheres@.last()),
            rendered(final(self).wheres@.last()) == if old(self).wheres@.len() == 0 {
                clause_of(op)
            } else {
                "AND "@ + clause_of(op)
            },
            final(self).params.deep_view() == old(self).params.deep_view() + params_of(op),
            final(self).params@.len() == old(self).params@.len() + params_of(op).len(),
            wf_query(*old(self)) && wf_op(op) ==> wf_query(*final(self)),
    {
        let ghost q0 = *self;
        let ghost op0 = op;
        let (clause, mut params) = op.format();
        if self.wheres.len() == 0 {
            self.wheres.push(WhereClause::Single(clause));
        } else {
            self.wheres.push(WhereClause::And(clause));
        }
        self.params.append(&mut params);
        proof {
            assert(self.params.deep_view() =~= q0.params.deep_view() + params_of(op0));
            lemma_push_preserves_wf(q0, *self, op0);
        }
    }

    /// Sets the limit; `0` means unbounded. Negative values pass through
    /// unvalidated.
    pub fn limit(&mut self, limit: isize)
        ensures
            final(self).base_query@ == old(self).base_query@,
            final(self).wheres@ == old(self).wheres@,
            final(self).params@ == old(self).params@,
            final(self).limit_ == limit,
            wf_query(*old(self)) ==> wf_query(*final(self)),
    {
        self.limit_ = limit;
    }

    /// The ordered bound values, index-aligned with the placeholders of
    /// `get_query`'s text.
    pub fn params(&self) -> (r: &Vec<String>)
        ensures
            r@ == self.params@,
    {
        &self.params
    }
}

/// Pushing one fragment whose clause came from a well-formed predicate
/// keeps the builder well-formed.
proof fn lemma_push_preserves_wf(q0: SelectQuery, q1: SelectQuery, op: Operation)
    requires
        q1.base_query@ == q0.base_query@,
        q1.wheres@ == q0.wheres@.push(q1.wheres@.last()),
        rendered(q1.wheres@.last()) == "AND "@ + clause_of(op) || rendered(q1.wheres@.last())
            == "OR "@ + clause_of(op) || rendered(q1.wheres@.last()) == clause_of(op),
        q1.params@.len() == q0.params@.len() + params_of(op).len(),
    ensures
        wf_query(q0) && wf_op(op) ==> wf_query(q1),
{
    broadcast use lemma_count_placeholders_concat;

    if wf_query(q0) && wf_op(op) {
        lemma_op_placeholders(op);
        lemma_wheres_text_push(q0.wheres@, q1.wheres@.last());
        reveal_strlit(" WHERE ");
        reveal_strlit(" ");
        reveal_strlit("AND ");
        reveal_strlit("OR ");
        lemma_count_no_placeholders(" WHERE "@);
        lemma_count_no_placeholders(" "@);
        lemma_count_no_placeholders("AND "@);
        lemma_count_no_placeholders("OR "@);
    }
}

} // verus!
