//! The clauses of a `SELECT` statement, in their fixed order.

use vstd::prelude::*;
use vstd::string::StringSliceAdditionalSpecFns;

use crate::ast::{
    elements_model, relations_model, ComparisonModel, ComparisonOperator, OrderBy, OrderByModel,
    Ordering, RelationComparison, RelationElement, RelationModel, Select, SelectElement,
    SelectElementModel, SelectModel,
};
use crate::buffer::ByteView;
use crate::expr::{expr, expr_spec, operator, operator_spec};
use crate::lexical::{
    advances, always_yields, identifier, identifier_spec, rest_is, space0, space0_spec, space1, space1_spec, tag,
    tag_no_case, tag_no_case_spec, tag_spec, yields,
};
use crate::literal::{unsigned_number, unsigned_spec};

verus! {

/// An optional `DISTINCT` followed by whitespace.
pub open spec fn distinct_spec(s: Seq<u8>) -> (bool, Seq<u8>) {
    match tag_no_case_spec(s, "distinct".spec_bytes()) {
        Some(r) => match space1_spec(r) {
            Some(t) => (true, t),
            None => (false, s),
        },
        None => (false, s),
    }
}

/// An optional `JSON` followed by whitespace.
pub open spec fn json_spec(s: Seq<u8>) -> (bool, Seq<u8>) {
    match tag_no_case_spec(s, "json".spec_bytes()) {
        Some(r) => match space1_spec(r) {
            Some(t) => (true, t),
            None => (false, s),
        },
        None => (false, s),
    }
}

/// `<ws+> AS <ws+> identifier`: the alias of a field.
pub open spec fn alias_spec(s: Seq<u8>) -> Option<(Seq<char>, Seq<u8>)> {
    match space1_spec(s) {
        Some(r1) => match tag_no_case_spec(r1, "as".spec_bytes()) {
            Some(r2) => match space1_spec(r2) {
                Some(r3) => identifier_spec(r3),
                None => None,
            },
            None => None,
        },
        None => None,
    }
}

/// One entry of the field list: an expression and an optional alias.
pub open spec fn field_spec(s: Seq<u8>) -> Option<(SelectElementModel, Seq<u8>)> {
    match expr_spec(s) {
        Some((e, r)) => match alias_spec(r) {
            Some((a, t)) => Some((SelectElementModel { expr: e, as_alias: Some(a) }, t)),
            None => Some((SelectElementModel { expr: e, as_alias: None }, r)),
        },
        None => None,
    }
}

/// A comma with optional whitespace on either side.
pub open spec fn comma_spec(s: Seq<u8>) -> Option<Seq<u8>> {
    match tag_spec(space0_spec(s), ",".spec_bytes()) {
        Some(r) => Some(space0_spec(r)),
        None => None,
    }
}

/// The field list: zero or more fields, each followed by an optional
/// comma. A round that consumes nothing is an error.
pub open spec fn fields_spec(s: Seq<u8>) -> Option<(Seq<SelectElementModel>, Seq<u8>)>
    decreases s.len(),
{
    match field_spec(s) {
        None => Some((seq![], s)),
        Some((f, r1)) => {
            let r2 = match comma_spec(r1) {
                Some(r) => r,
                None => r1,
            };
            if r2.len() < s.len() {
                match fields_spec(r2) {
                    Some((fs, t)) => Some((seq![f] + fs, t)),
                    None => None,
                }
            } else {
                None
            }
        },
    }
}

/// `<ws+> FROM <ws+> identifier`: the one table name.
pub open spec fn from_spec(s: Seq<u8>) -> Option<(Seq<Seq<char>>, Seq<u8>)> {
    match space1_spec(s) {
        Some(r1) => match tag_no_case_spec(r1, "from".spec_bytes()) {
            Some(r2) => match space1_spec(r2) {
                Some(r3) => match identifier_spec(r3) {
                    Some((n, t)) => Some((seq![n], t)),
                    None => None,
                },
                None => None,
            },
            None => None,
        },
        None => None,
    }
}

/// `expr <ws+> operator <ws+> expr`.
pub open spec fn where_element_spec(s: Seq<u8>) -> Option<(RelationModel, Seq<u8>)> {
    match expr_spec(s) {
        Some((lhs, r1)) => match space1_spec(r1) {
            Some(r2) => match operator_spec(r2) {
                Some((op, r3)) => match space1_spec(r3) {
                    Some(r4) => match expr_spec(r4) {
                        Some((rhs, t)) => Some(
                            (
                                RelationModel::Comparison(
                                    ComparisonModel { lhs, operator: op, rhs },
                                ),
                                t,
                            ),
                        ),
                        None => None,
                    },
                    None => None,
                },
                None => None,
            },
            None => None,
        },
        None => None,
    }
}

/// `<ws+> AND <ws+>` between two relations.
pub open spec fn and_spec(s: Seq<u8>) -> Option<Seq<u8>> {
    match space1_spec(s) {
        Some(r1) => match tag_no_case_spec(r1, "and".spec_bytes()) {
            Some(r2) => space1_spec(r2),
            None => None,
        },
        None => None,
    }
}

/// The relations of a `WHERE` clause: one or more, joined by `AND`. An
/// `AND` is consumed only where a relation follows it, and the chain
/// stops where an `AND` would not move forward.
pub open spec fn where_elements_spec(s: Seq<u8>) -> Option<(Seq<RelationModel>, Seq<u8>)>
    decreases s.len(),
{
    match where_element_spec(s) {
        None => None,
        Some((e, r1)) => match and_spec(r1) {
            Some(r2) => if r2.len() < s.len() {
                match where_elements_spec(r2) {
                    Some((es, t)) => Some((seq![e] + es, t)),
                    None => Some((seq![e], r1)),
                }
            } else {
                Some((seq![e], r1))
            },
            None => Some((seq![e], r1)),
        },
    }
}

/// An optional `<ws+> WHERE <ws+> relations`; no relation where it is
/// absent.
pub open spec fn where_spec(s: Seq<u8>) -> (Seq<RelationModel>, Seq<u8>) {
    match space1_spec(s) {
        Some(r1) => match tag_no_case_spec(r1, "where".spec_bytes()) {
            Some(r2) => match space1_spec(r2) {
                Some(r3) => match where_elements_spec(r3) {
                    Some((es, t)) => (es, t),
                    None => (seq![], s),
                },
                None => (seq![], s),
            },
            None => (seq![], s),
        },
        None => (seq![], s),
    }
}

/// `ASC` or `DESC`, without regard to case.
pub open spec fn ordering_spec(s: Seq<u8>) -> Option<(Ordering, Seq<u8>)> {
    match tag_no_case_spec(s, "asc".spec_bytes()) {
        Some(r) => Some((Ordering::Asc, r)),
        None => match tag_no_case_spec(s, "desc".spec_bytes()) {
            Some(r) => Some((Ordering::Desc, r)),
            None => None,
        },
    }
}

/// What follows the column of an `ORDER BY`: an optional direction, which
/// is `Asc` where it is absent.
pub open spec fn direction_spec(s: Seq<u8>) -> (Ordering, Seq<u8>) {
    match space1_spec(s) {
        Some(r) => match ordering_spec(r) {
            Some((o, t)) => (o, t),
            None => (Ordering::Asc, s),
        },
        None => (Ordering::Asc, s),
    }
}

/// `<ws+> ORDER <ws+> BY <ws+> identifier [<ws+> (ASC|DESC)]`.
pub open spec fn order_by_spec(s: Seq<u8>) -> Option<(OrderByModel, Seq<u8>)> {
    match space1_spec(s) {
        Some(r1) => match tag_no_case_spec(r1, "order".spec_bytes()) {
            Some(r2) => match space1_spec(r2) {
                Some(r3) => match tag_no_case_spec(r3, "by".spec_bytes()) {
                    Some(r4) => match space1_spec(r4) {
                        Some(r5) => match identifier_spec(r5) {
                            Some((name, r6)) => Some(
                                (
                                    OrderByModel { name, ordering: direction_spec(r6).0 },
                                    direction_spec(r6).1,
                                ),
                            ),
                            None => None,
                        },
                        None => None,
                    },
                    None => None,
                },
                None => None,
            },
            None => None,
        },
        None => None,
    }
}

/// An optional `<ws+> LIMIT <ws+> unsigned`.
pub open spec fn limit_spec(s: Seq<u8>) -> (Option<u64>, Seq<u8>) {
    match space1_spec(s) {
        Some(r1) => match tag_no_case_spec(r1, "limit".spec_bytes()) {
            Some(r2) => match space1_spec(r2) {
                Some(r3) => match unsigned_spec(r3) {
                    Some((v, t)) => (Some(v), t),
                    None => (None, s),
                },
                None => (None, s),
            },
            None => (None, s),
        },
        None => (None, s),
    }
}

/// An optional `<ws+> ALLOW FILTERING`, the two words one space apart.
pub open spec fn allow_filtering_spec(s: Seq<u8>) -> (bool, Seq<u8>) {
    match space1_spec(s) {
        Some(r) => match tag_no_case_spec(r, "allow filtering".spec_bytes()) {
            Some(t) => (true, t),
            None => (false, s),
        },
        None => (false, s),
    }
}

/// The clauses that may follow the table name, in their order, each of
/// them optional: the relations, the ordering, the limit, whether
/// filtering is allowed, and what follows them.
pub open spec fn trailing_clauses_spec(s: Seq<u8>) -> (
    Seq<RelationModel>,
    Option<OrderByModel>,
    Option<u64>,
    bool,
    Seq<u8>,
) {
    let (where_, r1) = where_spec(s);
    let (order_by, r2) = match order_by_spec(r1) {
        Some((o, t)) => (Some(o), t),
        None => (None, r1),
    };
    let (limit, r3) = limit_spec(r2);
    let (allow_filtering, t) = allow_filtering_spec(r3);
    (where_, order_by, limit, allow_filtering, t)
}

/// A whole `SELECT` statement: the keyword and the clauses in their fixed
/// order. The optional clauses fall back to their defaults.
pub open spec fn select_spec(s: Seq<u8>) -> Option<(SelectModel, Seq<u8>)> {
    match tag_no_case_spec(s, "select".spec_bytes()) {
        Some(r1) => match space1_spec(r1) {
            Some(r2) => {
                let (distinct, r3) = distinct_spec(r2);
                let (json, r4) = json_spec(r3);
                match fields_spec(r4) {
                    Some((select, r5)) => match from_spec(r5) {
                        Some((from, r6)) => {
                            let (where_, order_by, limit, allow_filtering, t) =
                                trailing_clauses_spec(r6);
                            Some(
                                (
                                    SelectModel {
                                        distinct,
                                        json,
                                        select,
                                        from,
                                        where_,
                                        order_by,
                                        limit,
                                        allow_filtering,
                                    },
                                    t,
                                ),
                            )
                        },
                        None => None,
                    },
                    None => None,
                }
            },
            None => None,
        },
        None => None,
    }
}

/// An optional `DISTINCT` followed by whitespace.
pub fn distinct(i: &ByteView) -> (r: (ByteView, bool))
    ensures
        always_yields(r, *i, distinct_spec(i@)),
{
    match tag_no_case(i, "distinct") {
        Some(r1) => match space1(&r1) {
            Some(t) => (t, true),
            None => (i.share(), false),
        },
        None => (i.share(), false),
    }
}

/// An optional `JSON` followed by whitespace.
pub fn json(i: &ByteView) -> (r: (ByteView, bool))
    ensures
        always_yields(r, *i, json_spec(i@)),
{
    match tag_no_case(i, "json") {
        Some(r1) => match space1(&r1) {
            Some(t) => (t, true),
            None => (i.share(), false),
        },
        None => (i.share(), false),
    }
}

/// `<ws+> AS <ws+> identifier`.
fn alias(i: &ByteView) -> (r: Option<(ByteView, String)>)
    ensures
        yields(r, *i, alias_spec(i@)),
{
    let r1 = match space1(i) {
        Some(r) => r,
        None => return None,
    };
    let r2 = match tag_no_case(&r1, "as") {
        Some(r) => r,
        None => return None,
    };
    let r3 = match space1(&r2) {
        Some(r) => r,
        None => return None,
    };
    identifier(&r3)
}

/// One entry of the field list: an expression and an optional alias.
pub fn field(i: &ByteView) -> (r: Option<(ByteView, SelectElement)>)
    ensures
        yields(r, *i, field_spec(i@)),
{
    let (r1, e) = match expr(i) {
        Some(x) => x,
        None => return None,
    };
    match alias(&r1) {
        Some((t, a)) => Some((t, SelectElement { expr: e, as_alias: Some(a) })),
        None => Some((r1, SelectElement { expr: e, as_alias: None })),
    }
}

/// A comma with optional whitespace on either side.
pub fn ws_sep_comma(i: &ByteView) -> (r: Option<ByteView>)
    ensures
        rest_is(r, *i, comma_spec(i@)),
{
    let r1 = space0(i);
    match tag(&r1, ",") {
        Some(r2) => Some(space0(&r2)),
        None => None,
    }
}

/// The field list: fields, each followed by an optional comma.
pub fn fields(i: &ByteView) -> (r: Option<(ByteView, Vec<SelectElement>)>)
    ensures
        match fields_spec(i@) {
            Some((m, t)) => r matches Some((o, v)) && o@ == t && advances(*i, o)
                && elements_model(v@) == m,
            None => r is None,
        },
{
    let mut cur = i.share();
    let mut acc: Vec<SelectElement> = Vec::new();
    assert(elements_model(acc@) + seq![] =~= seq![]);
    loop
        invariant
            advances(*i, cur),
            fields_spec(i@) == match fields_spec(cur@) {
                Some((fs, t)) => Some((elements_model(acc@) + fs, t)),
                None => None,
            },
        decreases cur@.len(),
    {
        match field(&cur) {
            None => {
                assert(elements_model(acc@) + seq![] =~= elements_model(acc@));
                return Some((cur, acc));
            },
            Some((r1, f)) => {
                let r2 = match ws_sep_comma(&r1) {
                    Some(r) => r,
                    None => r1,
                };
                if r2.input_len() < cur.input_len() {
                    proof {
                        if let Some((fs, _)) = fields_spec(r2@) {
                            assert(elements_model(acc@.push(f)) + fs =~= elements_model(acc@) + (
                            seq![f@] + fs));
                        }
                    }
                    acc.push(f);
                    cur = r2;
                } else {
                    return None;
                }
            },
        }
    }
}

/// `<ws+> FROM <ws+> identifier`.
pub fn from(i: &ByteView) -> (r: Option<(ByteView, Vec<String>)>)
    ensures
        match from_spec(i@) {
            Some((m, t)) => r matches Some((o, v)) && o@ == t && advances(*i, o)
                && v@.map_values(|s: String| s@) == m,
            None => r is None,
        },
{
    let r1 = match space1(i) {
        Some(r) => r,
        None => return None,
    };
    let r2 = match tag_no_case(&r1, "from") {
        Some(r) => r,
        None => return None,
    };
    let r3 = match space1(&r2) {
        Some(r) => r,
        None => return None,
    };
    match identifier(&r3) {
        Some((t, name)) => {
            let v = vec![name];
            assert(v@.map_values(|s: String| s@) =~= seq![v@[0]@]);
            Some((t, v))
        },
        None => None,
    }
}

/// `expr <ws+> operator <ws+> expr`.
pub fn where_element(i: &ByteView) -> (r: Option<(ByteView, RelationElement)>)
    ensures
        yields(r, *i, where_element_spec(i@)),
{
    let (r1, lhs) = match expr(i) {
        Some(x) => x,
        None => return None,
    };
    let r2 = match space1(&r1) {
        Some(r) => r,
        None => return None,
    };
    let (r3, op) = match operator(&r2) {
        Some(x) => x,
        None => return None,
    };
    let r4 = match space1(&r3) {
        Some(r) => r,
        None => return None,
    };
    match expr(&r4) {
        Some((t, rhs)) => Some(
            (t, RelationElement::Comparison(RelationComparison { lhs, operator: op, rhs })),
        ),
        None => None,
    }
}

/// `<ws+> AND <ws+>`.
fn and_sep(i: &ByteView) -> (r: Option<ByteView>)
    ensures
        rest_is(r, *i, and_spec(i@)),
{
    let r1 = match space1(i) {
        Some(r) => r,
        None => return None,
    };
    match tag_no_case(&r1, "and") {
        Some(r2) => space1(&r2),
        None => None,
    }
}

/// The relations of a `WHERE` clause: one or more, joined by `AND`.
pub fn where_elements(i: &ByteView) -> (r: Option<(ByteView, Vec<RelationElement>)>)
    ensures
        match where_elements_spec(i@) {
            Some((m, t)) => r matches Some((o, v)) && o@ == t && advances(*i, o)
                && relations_model(v@) == m,
            None => r is None,
        },
    decreases i@.len(),
{
    let (r1, e) = match where_element(i) {
        Some(x) => x,
        None => return None,
    };
    let next = match and_sep(&r1) {
        Some(r2) => if r2.input_len() < i.input_len() {
            where_elements(&r2)
        } else {
            None
        },
        None => None,
    };
    match next {
        Some((t, mut es)) => {
            let ghost old_es = es@;
            es.insert(0, e);
            assert(relations_model(es@) =~= seq![e@] + relations_model(old_es));
            Some((t, es))
        },
        None => {
            let single = vec![e];
            assert(relations_model(single@) =~= seq![e@]);
            Some((r1, single))
        },
    }
}

/// An optional `<ws+> WHERE <ws+> relations`.
pub fn where_(i: &ByteView) -> (r: (ByteView, Vec<RelationElement>))
    ensures
        r.0@ == where_spec(i@).1,
        advances(*i, r.0),
        relations_model(r.1@) == where_spec(i@).0,
{
    let none = Vec::new();
    assert(relations_model(none@) =~= seq![]);
    let r1 = match space1(i) {
        Some(r) => r,
        None => return (i.share(), none),
    };
    let r2 = match tag_no_case(&r1, "where") {
        Some(r) => r,
        None => return (i.share(), none),
    };
    let r3 = match space1(&r2) {
        Some(r) => r,
        None => return (i.share(), none),
    };
    match where_elements(&r3) {
        Some(x) => x,
        None => (i.share(), none),
    }
}

/// `ASC` or `DESC`, without regard to case.
pub fn ordering(i: &ByteView) -> (r: Option<(ByteView, Ordering)>)
    ensures
        yields(r, *i, ordering_spec(i@)),
{
    match tag_no_case(i, "asc") {
        Some(r) => Some((r, Ordering::Asc)),
        None => match tag_no_case(i, "desc") {
            Some(r) => Some((r, Ordering::Desc)),
            None => None,
        },
    }
}

/// `<ws+> ORDER <ws+> BY <ws+> identifier [<ws+> (ASC|DESC)]`; the
/// direction is `Asc` where it is absent.
pub fn order_by(i: &ByteView) -> (r: Option<(ByteView, OrderBy)>)
    ensures
        yields(r, *i, order_by_spec(i@)),
{
    let r1 = match space1(i) {
        Some(r) => r,
        None => return None,
    };
    let r2 = match tag_no_case(&r1, "order") {
        Some(r) => r,
        None => return None,
    };
    let r3 = match space1(&r2) {
        Some(r) => r,
        None => return None,
    };
    let r4 = match tag_no_case(&r3, "by") {
        Some(r) => r,
        None => return None,
    };
    let r5 = match space1(&r4) {
        Some(r) => r,
        None => return None,
    };
    let (r6, name) = match identifier(&r5) {
        Some(x) => x,
        None => return None,
    };
    let directed = match space1(&r6) {
        Some(r7) => ordering(&r7),
        None => None,
    };
    match directed {
        Some((t, o)) => Some((t, OrderBy { name, ordering: o })),
        None => Some((r6, OrderBy { name, ordering: Ordering::Asc })),
    }
}

/// An optional `<ws+> LIMIT <ws+> unsigned`.
pub fn limit(i: &ByteView) -> (r: (ByteView, Option<u64>))
    ensures
        always_yields(r, *i, limit_spec(i@)),
{
    let r1 = match space1(i) {
        Some(r) => r,
        None => return (i.share(), None),
    };
    let r2 = match tag_no_case(&r1, "limit") {
        Some(r) => r,
        None => return (i.share(), None),
    };
    let r3 = match space1(&r2) {
        Some(r) => r,
        None => return (i.share(), None),
    };
    match unsigned_number(&r3) {
        Some((t, v)) => (t, Some(v)),
        None => (i.share(), None),
    }
}

/// An optional `<ws+> ALLOW FILTERING`.
pub fn allow_filtering(i: &ByteView) -> (r: (ByteView, bool))
    ensures
        always_yields(r, *i, allow_filtering_spec(i@)),
{
    match space1(i) {
        Some(r1) => match tag_no_case(&r1, "allow filtering") {
            Some(t) => (t, true),
            None => (i.share(), false),
        },
        None => (i.share(), false),
    }
}

/// A whole `SELECT` statement.
pub fn select(i: &ByteView) -> (r: Option<(ByteView, Select)>)
    ensures
        yields(r, *i, select_spec(i@)),
{
    let r1 = match tag_no_case(i, "select") {
        Some(r) => r,
        None => return None,
    };
    let r2 = match space1(&r1) {
        Some(r) => r,
        None => return None,
    };
    let (r3, distinct) = distinct(&r2);
    let (r4, json) = json(&r3);
    let (r5, select) = match fields(&r4) {
        Some(x) => x,
        None => return None,
    };
    let (r6, from) = match from(&r5) {
        Some(x) => x,
        None => return None,
    };
    let (r7, where_) = where_(&r6);
    let (r8, order_by) = match order_by(&r7) {
        Some((t, o)) => (t, Some(o)),
        None => (r7, None),
    };
    let (r9, limit) = limit(&r8);
    let (t, allow_filtering) = allow_filtering(&r9);
    Some(
        (
            t,
            Select { distinct, json, select, from, where_, order_by, limit, allow_filtering },
        ),
    )
}

} // verus!
