//! Every combination of the optional clauses of a `SELECT` statement
//! parses, each clause read where it is present.

use vstd::prelude::*;
use vstd::string::StringSliceAdditionalSpecFns;

use crate::ast::{
    ComparisonModel, ComparisonOperator, ConstantModel, ExprModel, OrderByModel, Ordering,
    RelationModel, SelectElementModel, SelectModel,
};
use crate::foreign::ascii_chars;
use crate::expr::{expr_spec, operator_spec};
use crate::literal::{bool_spec, digits_value, integer_spec, string_spec, unsigned_spec};
use crate::lexical::{identifier_spec, space0_spec, tag_no_case_spec, is_space, lower, run_end, space1_spec, span_len, ByteClass};
use crate::select::{
    alias_spec, allow_filtering_spec, distinct_spec, json_spec, select_spec, and_spec, comma_spec, field_spec, fields_spec, from_spec, direction_spec, where_element_spec, where_elements_spec, limit_spec, order_by_spec, ordering_spec, trailing_clauses_spec,
    where_spec,
};

verus! {

/// A single space.
pub open spec fn sp() -> Seq<u8> {
    seq![' ' as u8]
}

/// The bytes of an ASCII text, one for each character.
pub open spec fn text(s: &str) -> Seq<u8> {
    s@.map_values(|c: char| c as u8)
}

/// ` WHERE a = 1`, where it is present.
pub open spec fn where_part(present: bool) -> Seq<u8> {
    if present {
        text(" WHERE a = 1")
    } else {
        seq![]
    }
}

/// ` ORDER BY c`, where it is present.
pub open spec fn order_part(present: bool) -> Seq<u8> {
    if present {
        text(" ORDER BY c")
    } else {
        seq![]
    }
}

/// ` LIMIT 5`, where it is present.
pub open spec fn limit_part(present: bool) -> Seq<u8> {
    if present {
        text(" LIMIT 5")
    } else {
        seq![]
    }
}

/// ` ALLOW FILTERING`, where it is present.
pub open spec fn allow_part(present: bool) -> Seq<u8> {
    if present {
        text(" ALLOW FILTERING")
    } else {
        seq![]
    }
}

proof fn lemma_word_bytes()
    ensures
        "where".spec_bytes() == text("where"),
        "order".spec_bytes() == text("order"),
        "by".spec_bytes() == text("by"),
        "limit".spec_bytes() == text("limit"),
        "allow filtering".spec_bytes() == text("allow filtering"),
        "and".spec_bytes() == text("and"),
        "asc".spec_bytes() == text("asc"),
        "desc".spec_bytes() == text("desc"),
{
    broadcast use vstd::string::is_ascii_spec_bytes;

    reveal_strlit("where");
    reveal_strlit("order");
    reveal_strlit("by");
    reveal_strlit("limit");
    reveal_strlit("allow filtering");
    reveal_strlit("and");
    reveal_strlit("asc");
    reveal_strlit("desc");
    assert(vstd::string::is_ascii("where"));
    assert(vstd::string::is_ascii("order"));
    assert(vstd::string::is_ascii("by"));
    assert(vstd::string::is_ascii("limit"));
    assert(vstd::string::is_ascii("allow filtering"));
    assert(vstd::string::is_ascii("and"));
    assert(vstd::string::is_ascii("asc"));
    assert(vstd::string::is_ascii("desc"));
    assert("where".spec_bytes() =~= text("where"));
    assert("order".spec_bytes() =~= text("order"));
    assert("by".spec_bytes() =~= text("by"));
    assert("limit".spec_bytes() =~= text("limit"));
    assert("allow filtering".spec_bytes() =~= text("allow filtering"));
    assert("and".spec_bytes() =~= text("and"));
    assert("asc".spec_bytes() =~= text("asc"));
    assert("desc".spec_bytes() =~= text("desc"));
}

/// What may follow a clause: nothing, or a space and then a letter.
pub open spec fn next_is_word(r: Seq<u8>) -> bool {
    r.len() == 0 || (r.len() > 1 && r[0] == ' ' as u8 && ('A' as u8) <= r[1] <= ('Z' as u8))
}

proof fn lemma_one_space(r: Seq<u8>)
    requires
        r.len() > 1,
        r[0] == ' ' as u8,
        !is_space(r[1]),
    ensures
        space1_spec(r) == Some(r.skip(1)),
{
    reveal_with_fuel(run_end, 3);
    assert(span_len(r, ByteClass::Whitespace) == 1);
}

/// An optional clause is absent where the next word does not begin with
/// its keyword's first letter.
proof fn lemma_absent(r: Seq<u8>)
    requires
        next_is_word(r),
    ensures
        r.len() == 0 || lower(r[1]) != 'w' as u8 ==> where_spec(r) == (Seq::<RelationModel>::empty(), r),
        r.len() == 0 || lower(r[1]) != 'o' as u8 ==> order_by_spec(r) is None,
        r.len() == 0 || lower(r[1]) != 'l' as u8 ==> limit_spec(r) == (None::<u64>, r),
        r.len() == 0 || lower(r[1]) != 'a' as u8 ==> allow_filtering_spec(r) == (false, r),
{
    lemma_word_bytes();
    reveal_strlit("where");
    reveal_strlit("order");
    reveal_strlit("limit");
    reveal_strlit("allow filtering");
    assert(text("where")[0] == 'w' as u8);
    assert(text("order")[0] == 'o' as u8);
    assert(text("limit")[0] == 'l' as u8);
    assert(text("allow filtering")[0] == 'a' as u8);
    if r.len() > 0 {
        assert(!is_space(r[1]));
        lemma_one_space(r);
        assert(r.skip(1)[0] == r[1]);
    } else {
        reveal_with_fuel(run_end, 2);
    }
}

/// The tail after a `WHERE` clause: `ORDER BY`, `LIMIT` and
/// `ALLOW FILTERING`, each present or not.
pub open spec fn after_where(o: bool, l: bool, a: bool) -> Seq<u8> {
    order_part(o) + (limit_part(l) + allow_part(a))
}

/// The relation `a = 1`.
pub open spec fn a_equals_one() -> RelationModel {
    RelationModel::Comparison(
        ComparisonModel {
            lhs: ExprModel::Name(seq!['a']),
            operator: ComparisonOperator::Equals,
            rhs: ExprModel::Constant(ConstantModel::Decimal(1)),
        },
    )
}

proof fn lemma_where_present(o: bool, l: bool, a: bool)
    ensures
        where_spec(where_part(true) + after_where(o, l, a)) == (
            seq![a_equals_one()],
            after_where(o, l, a),
        ),
{
    let r = after_where(o, l, a);
    let x = where_part(true) + r;
    reveal_strlit(" WHERE a = 1");
    reveal_strlit(" ORDER BY c");
    reveal_strlit(" LIMIT 5");
    reveal_strlit(" ALLOW FILTERING");
    reveal_strlit("*");
    reveal_strlit("=");
    reveal_strlit("true");
    reveal_strlit("false");
    reveal_strlit("where");
    reveal_strlit("and");
    lemma_word_bytes();
    broadcast use vstd::string::is_ascii_spec_bytes;

    assert(vstd::string::is_ascii("*"));
    assert(vstd::string::is_ascii("="));
    assert(vstd::string::is_ascii("true"));
    assert(vstd::string::is_ascii("false"));
    reveal_with_fuel(run_end, 3);
    assert(x.len() == 12 + r.len());
    assert(forall|k: int| 0 <= k < 12 ==> x[k] == text(" WHERE a = 1")[k]);
    assert(r.len() == 0 || (r[0] == ' ' as u8 && r.len() > 2));
    assert(r.len() > 0 ==> (r[1] == 'O' as u8 || r[1] == 'L' as u8 || (r[1] == 'A' as u8 && r[2] == 'L' as u8)));
    lemma_one_space(x);
    lemma_one_space(x.skip(6));
    assert(x.skip(1).skip(5) =~= x.skip(6));
    assert(x.skip(6).skip(1) =~= x.skip(7));
    let y = x.skip(7);
    assert(y.skip(1) =~= x.skip(8));
    lemma_one_space(x.skip(8));
    assert(x.skip(8).skip(1) =~= x.skip(9));
    assert(x.skip(9).skip(1) =~= x.skip(10));
    lemma_one_space(x.skip(10));
    assert(x.skip(10).skip(1) =~= x.skip(11));
    assert(x.skip(11).take(1) =~= seq!['1' as u8]);
    assert(x.skip(11).skip(1) =~= r);
    assert(y.take(1) =~= seq!['a' as u8]);
    assert(ascii_chars(seq!['a' as u8]) =~= seq!['a']);
    assert(tag_no_case_spec(x.skip(1), "where".spec_bytes()) == Some(x.skip(1).skip(5)));
    assert(identifier_spec(y) == Some((seq!['a'], x.skip(8))));
    assert(integer_spec(y) is None);
    assert(string_spec(y) is None);
    assert(bool_spec(y) is None);
    assert(expr_spec(y) == Some((ExprModel::Name(seq!['a']), x.skip(8))));
    assert(operator_spec(x.skip(9)) == Some((ComparisonOperator::Equals, x.skip(10))));
    assert(digits_value(seq!['1' as u8]) == 1) by {
        reveal_with_fuel(digits_value, 2);
        assert(seq!['1' as u8].drop_last() =~= Seq::<u8>::empty());
        assert(seq!['1' as u8].last() == '1' as u8);
    }
    assert(integer_spec(x.skip(11)) == Some((1i64, r)));
    assert(expr_spec(x.skip(11)) == Some((ExprModel::Constant(ConstantModel::Decimal(1)), r)));
    assert(where_element_spec(y) == Some((a_equals_one(), r)));
    assert(and_spec(r) is None);
    assert(where_elements_spec(y) == Some((seq![a_equals_one()], r)));
}

proof fn lemma_order_present(l: bool, a: bool)
    ensures
        order_by_spec(order_part(true) + (limit_part(l) + allow_part(a))) == Some(
            (OrderByModel { name: seq!['c'], ordering: Ordering::Asc }, limit_part(l) + allow_part(a)),
        ),
{
    let r = limit_part(l) + allow_part(a);
    let x = order_part(true) + r;
    reveal_strlit(" ORDER BY c");
    reveal_strlit(" LIMIT 5");
    reveal_strlit(" ALLOW FILTERING");
    reveal_strlit("order");
    reveal_strlit("by");
    reveal_strlit("asc");
    reveal_strlit("desc");
    lemma_word_bytes();
    reveal_with_fuel(run_end, 3);
    assert(x.len() == 11 + r.len());
    assert(forall|k: int| 0 <= k < 11 ==> x[k] == text(" ORDER BY c")[k]);
    assert(r.len() == 0 || (r[0] == ' ' as u8 && r.len() > 2));
    assert(r.len() > 0 ==> ((r[1] == 'L' as u8 && r[2] == 'I' as u8) || (r[1] == 'A' as u8
        && r[2] == 'L' as u8)));
    lemma_one_space(x);
    assert(x.skip(1).skip(5) =~= x.skip(6));
    lemma_one_space(x.skip(6));
    assert(x.skip(6).skip(1) =~= x.skip(7));
    assert(x.skip(7).skip(2) =~= x.skip(9));
    lemma_one_space(x.skip(9));
    assert(x.skip(9).skip(1) =~= x.skip(10));
    assert(x.skip(10).take(1) =~= seq!['c' as u8]);
    assert(x.skip(10).skip(1) =~= r);
    assert(ascii_chars(seq!['c' as u8]) =~= seq!['c']);
    assert(tag_no_case_spec(x.skip(1), "order".spec_bytes()) == Some(x.skip(1).skip(5)));
    assert(tag_no_case_spec(x.skip(7), "by".spec_bytes()) == Some(x.skip(7).skip(2)));
    assert(identifier_spec(x.skip(10)) == Some((seq!['c'], r)));
    if r.len() > 0 {
        lemma_one_space(r);
        assert(r.skip(1)[0] == r[1] && r.skip(1)[1] == r[2]);
        assert(ordering_spec(r.skip(1)) is None);
    }
    assert(direction_spec(r) == (Ordering::Asc, r));
}

proof fn lemma_limit_present(a: bool)
    ensures
        limit_spec(limit_part(true) + allow_part(a)) == (Some(5u64), allow_part(a)),
{
    let r = allow_part(a);
    let x = limit_part(true) + r;
    reveal_strlit(" LIMIT 5");
    reveal_strlit(" ALLOW FILTERING");
    reveal_strlit("limit");
    lemma_word_bytes();
    reveal_with_fuel(run_end, 3);
    assert(x.len() == 8 + r.len());
    assert(forall|k: int| 0 <= k < 8 ==> x[k] == text(" LIMIT 5")[k]);
    assert(r.len() == 0 || r[0] == ' ' as u8);
    lemma_one_space(x);
    assert(x.skip(1).skip(5) =~= x.skip(6));
    lemma_one_space(x.skip(6));
    assert(x.skip(6).skip(1) =~= x.skip(7));
    assert(x.skip(7).take(1) =~= seq!['5' as u8]);
    assert(x.skip(7).skip(1) =~= r);
    assert(tag_no_case_spec(x.skip(1), "limit".spec_bytes()) == Some(x.skip(1).skip(5)));
    assert(digits_value(seq!['5' as u8]) == 5) by {
        reveal_with_fuel(digits_value, 2);
        assert(seq!['5' as u8].drop_last() =~= Seq::<u8>::empty());
        assert(seq!['5' as u8].last() == '5' as u8);
    }
    assert(unsigned_spec(x.skip(7)) == Some((5u64, r)));
}

proof fn lemma_allow_present()
    ensures
        allow_filtering_spec(allow_part(true)) == (true, Seq::<u8>::empty()),
{
    let x = allow_part(true);
    reveal_strlit(" ALLOW FILTERING");
    reveal_strlit("allow filtering");
    lemma_word_bytes();
    assert(x.len() == 16);
    lemma_one_space(x);
    assert(tag_no_case_spec(x.skip(1), "allow filtering".spec_bytes()) == Some(
        x.skip(1).skip(15),
    ));
    assert(x.skip(1).skip(15) =~= Seq::<u8>::empty());
}

/// Each of the clauses after the table name may be present or absent,
/// in any combination: `WHERE a = 1`, `ORDER BY c`, `LIMIT 5` and
/// `ALLOW FILTERING` are each read exactly where they stand, an absent one
/// blocks none of the others, and nothing is left over.
pub proof fn law_trailing_clauses_any_combination(w: bool, o: bool, l: bool, a: bool)
    ensures
        trailing_clauses_spec(where_part(w) + after_where(o, l, a)) == (
            if w {
                seq![a_equals_one()]
            } else {
                Seq::<RelationModel>::empty()
            },
            if o {
                Some(OrderByModel { name: seq!['c'], ordering: Ordering::Asc })
            } else {
                None::<OrderByModel>
            },
            if l {
                Some(5u64)
            } else {
                None::<u64>
            },
            a,
            Seq::<u8>::empty(),
        ),
{
    reveal_strlit(" WHERE a = 1");
    reveal_strlit(" ORDER BY c");
    reveal_strlit(" LIMIT 5");
    reveal_strlit(" ALLOW FILTERING");
    let r3 = allow_part(a);
    let r2 = limit_part(l) + r3;
    let r1 = order_part(o) + r2;
    let x = where_part(w) + r1;
    if !w {
        assert(x =~= r1);
    }
    if !o {
        assert(r1 =~= r2);
    }
    if !l {
        assert(r2 =~= r3);
    }
    assert(next_is_word(r3));
    assert(next_is_word(r2));
    assert(next_is_word(r1));
    assert(r3.len() > 0 ==> r3[1] == 'A' as u8);
    assert(r2.len() > 0 ==> r2[1] == 'L' as u8 || r2[1] == 'A' as u8);
    assert(r1.len() > 0 ==> r1[1] == 'O' as u8 || r1[1] == 'L' as u8 || r1[1] == 'A' as u8);
    let e = Seq::<u8>::empty();
    assert(next_is_word(e));
    if w {
        lemma_where_present(o, l, a);
    } else {
        lemma_absent(r1);
    }
    if o {
        lemma_order_present(l, a);
    } else {
        lemma_absent(r2);
    }
    if l {
        lemma_limit_present(a);
    } else {
        lemma_absent(r3);
    }
    if a {
        lemma_allow_present();
    } else {
        lemma_absent(e);
    }
}

/// `DISTINCT `, where it is present.
pub open spec fn distinct_part(present: bool) -> Seq<u8> {
    if present {
        text("DISTINCT ")
    } else {
        seq![]
    }
}

/// `JSON `, where it is present.
pub open spec fn json_part(present: bool) -> Seq<u8> {
    if present {
        text("JSON ")
    } else {
        seq![]
    }
}

/// The clauses after the table name, each present or not.
pub open spec fn trailing_part(w: bool, o: bool, l: bool, a: bool) -> Seq<u8> {
    where_part(w) + after_where(o, l, a)
}

proof fn lemma_trailing_starts(w: bool, o: bool, l: bool, a: bool)
    ensures
        trailing_part(w, o, l, a).len() == 0 || trailing_part(w, o, l, a)[0] == ' ' as u8,
{
    reveal_strlit(" WHERE a = 1");
    reveal_strlit(" ORDER BY c");
    reveal_strlit(" LIMIT 5");
    reveal_strlit(" ALLOW FILTERING");
    let r3 = allow_part(a);
    let r2 = limit_part(l) + r3;
    let r1 = order_part(o) + r2;
    let x = where_part(w) + r1;
    if !w {
        assert(x =~= r1);
    }
    if !o {
        assert(r1 =~= r2);
    }
    if !l {
        assert(r2 =~= r3);
    }
}

proof fn lemma_field_and_table(t: Seq<u8>)
    requires
        t.len() == 0 || t[0] == ' ' as u8,
    ensures
        fields_spec(text("f FROM t") + t) == Some(
            (
                seq![SelectElementModel { expr: ExprModel::Name(seq!['f']), as_alias: None }],
                (text("f FROM t") + t).skip(1),
            ),
        ),
        from_spec((text("f FROM t") + t).skip(1)) == Some((seq![seq!['t']], t)),
{
    let u = text("f FROM t") + t;
    reveal_strlit("f FROM t");
    reveal_strlit("*");
    reveal_strlit("true");
    reveal_strlit("false");
    reveal_strlit("as");
    reveal_strlit(",");
    reveal_strlit("from");
    broadcast use vstd::string::is_ascii_spec_bytes;

    assert(vstd::string::is_ascii("*"));
    assert(vstd::string::is_ascii("true"));
    assert(vstd::string::is_ascii("false"));
    assert(vstd::string::is_ascii("as"));
    assert(vstd::string::is_ascii(","));
    assert(vstd::string::is_ascii("from"));
    reveal_with_fuel(run_end, 3);
    assert(u.len() == 8 + t.len());
    assert(forall|k: int| 0 <= k < 8 ==> u[k] == text("f FROM t")[k]);
    let r1 = u.skip(1);
    assert(u.take(1) =~= seq!['f' as u8]);
    assert(ascii_chars(seq!['f' as u8]) =~= seq!['f']);
    assert(identifier_spec(u) == Some((seq!['f'], r1)));
    assert(expr_spec(u) == Some((ExprModel::Name(seq!['f']), r1)));
    lemma_one_space(r1);
    assert(r1.skip(1)[0] == 'F' as u8);
    assert(alias_spec(r1) is None);
    assert(space0_spec(r1) == r1.skip(1));
    assert(comma_spec(r1) is None);
    assert(expr_spec(r1) is None);
    assert(field_spec(r1) is None);
    assert(fields_spec(r1) == Some((Seq::<SelectElementModel>::empty(), r1)));
    assert(seq![SelectElementModel { expr: ExprModel::Name(seq!['f']), as_alias: None }]
        + Seq::<SelectElementModel>::empty() =~= seq![
        SelectElementModel { expr: ExprModel::Name(seq!['f']), as_alias: None },
    ]);
    assert(r1.skip(1).skip(4) =~= u.skip(6));
    assert(tag_no_case_spec(r1.skip(1), "from".spec_bytes()) == Some(r1.skip(1).skip(4)));
    lemma_one_space(u.skip(6));
    assert(u.skip(6).skip(1) =~= u.skip(7));
    assert(u.skip(7).take(1) =~= seq!['t' as u8]);
    assert(u.skip(7).skip(1) =~= t);
    assert(ascii_chars(seq!['t' as u8]) =~= seq!['t']);
    assert(identifier_spec(u.skip(7)) == Some((seq!['t'], t)));
}

/// `SELECT [DISTINCT ][JSON ]f FROM t` followed by the clauses after the
/// table name, each optional part present or not.
pub open spec fn combination_query(d: bool, j: bool, w: bool, o: bool, l: bool, a: bool) -> Seq<
    u8,
> {
    text("SELECT ") + (distinct_part(d) + (json_part(j) + (text("f FROM t") + trailing_part(
        w,
        o,
        l,
        a,
    ))))
}

proof fn lemma_flags(d: bool, j: bool, u: Seq<u8>)
    requires
        u.len() > 0 && u[0] == 'f' as u8,
    ensures
        distinct_spec(distinct_part(d) + (json_part(j) + u)) == (d, json_part(j) + u),
        json_spec(json_part(j) + u) == (j, u),
{
    reveal_strlit("DISTINCT ");
    reveal_strlit("JSON ");
    reveal_strlit("distinct");
    reveal_strlit("json");
    broadcast use vstd::string::is_ascii_spec_bytes;

    assert(vstd::string::is_ascii("distinct"));
    assert(vstd::string::is_ascii("json"));
    reveal_with_fuel(run_end, 3);
    let q = json_part(j) + u;
    let p = distinct_part(d) + q;
    if j {
        assert(q.len() == 5 + u.len());
        assert(forall|k: int| 0 <= k < 5 ==> q[k] == text("JSON ")[k]);
        assert(tag_no_case_spec(q, "json".spec_bytes()) == Some(q.skip(4)));
        lemma_one_space(q.skip(4));
        assert(q.skip(4).skip(1) =~= u);
    } else {
        assert(q =~= u);
    }
    assert(q[0] == 'J' as u8 || q[0] == 'f' as u8);
    if d {
        assert(p.len() == 9 + q.len());
        assert(forall|k: int| 0 <= k < 9 ==> p[k] == text("DISTINCT ")[k]);
        assert(tag_no_case_spec(p, "distinct".spec_bytes()) == Some(p.skip(8)));
        assert(p.skip(8)[1] == q[0]);
        lemma_one_space(p.skip(8));
        assert(p.skip(8).skip(1) =~= q);
    } else {
        assert(p =~= q);
    }
}

/// Each optional part of a `SELECT` statement may be present or absent,
/// in any combination: `DISTINCT`, `JSON`, `WHERE a = 1`, `ORDER BY c`,
/// `LIMIT 5` and `ALLOW FILTERING` are each read exactly where they stand,
/// an absent one blocks none of the others, and the whole input is
/// consumed.
pub proof fn law_optional_clauses_any_combination(
    d: bool,
    j: bool,
    w: bool,
    o: bool,
    l: bool,
    a: bool,
)
    ensures
        select_spec(combination_query(d, j, w, o, l, a)) == Some(
            (
                SelectModel {
                    distinct: d,
                    json: j,
                    select: seq![
                        SelectElementModel { expr: ExprModel::Name(seq!['f']), as_alias: None },
                    ],
                    from: seq![seq!['t']],
                    where_: if w {
                        seq![a_equals_one()]
                    } else {
                        Seq::<RelationModel>::empty()
                    },
                    order_by: if o {
                        Some(OrderByModel { name: seq!['c'], ordering: Ordering::Asc })
                    } else {
                        None::<OrderByModel>
                    },
                    limit: if l {
                        Some(5u64)
                    } else {
                        None::<u64>
                    },
                    allow_filtering: a,
                },
                Seq::<u8>::empty(),
            ),
        ),
{
    reveal_strlit("SELECT ");
    reveal_strlit("DISTINCT ");
    reveal_strlit("JSON ");
    reveal_strlit("f FROM t");
    reveal_strlit("select");
    broadcast use vstd::string::is_ascii_spec_bytes;

    assert(vstd::string::is_ascii("select"));
    reveal_with_fuel(run_end, 3);
    let tail = trailing_part(w, o, l, a);
    let u = text("f FROM t") + tail;
    let q = json_part(j) + u;
    let p = distinct_part(d) + q;
    let x = combination_query(d, j, w, o, l, a);
    assert(x.len() == 7 + p.len());
    assert(forall|k: int| 0 <= k < 7 ==> x[k] == text("SELECT ")[k]);
    assert(x.skip(7) =~= p);
    assert(u[0] == 'f' as u8);
    lemma_flags(d, j, u);
    assert(q[0] == 'J' as u8 || q[0] == 'f' as u8);
    assert(p[0] == 'D' as u8 || p[0] == 'J' as u8 || p[0] == 'f' as u8);
    assert(tag_no_case_spec(x, "select".spec_bytes()) == Some(x.skip(6)));
    assert(x.skip(6).skip(1) =~= x.skip(7));
    lemma_one_space(x.skip(6));
    lemma_trailing_starts(w, o, l, a);
    lemma_field_and_table(tail);
    law_trailing_clauses_any_combination(w, o, l, a);
}

} // verus!
