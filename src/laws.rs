//! Properties of the grammar, stated over its spec functions and proved.

use vstd::prelude::*;
use vstd::string::StringSliceAdditionalSpecFns;

use crate::ast::{ComparisonOperator, OrderByModel, Ordering};
use crate::expr::{expr_spec, operator_spec};
use crate::foreign::ascii_chars;
use crate::lexical::{
    identifier_spec, is_ident_char, is_space, lower, run_end, space1_spec, span_len,
    tag_no_case_spec, ByteClass,
};
use crate::select::{
    alias_spec, allow_filtering_spec, and_spec, comma_spec, direction_spec, where_element_spec, distinct_spec, from_spec, json_spec, limit_spec, order_by_spec, where_spec, ordering_spec, select_spec, trailing_clauses_spec,
};

verus! {

/// A non-empty run of whitespace bytes.
pub open spec fn is_space_run(w: Seq<u8>) -> bool {
    w.len() > 0 && forall|k: int| 0 <= k < w.len() ==> is_space(#[trigger] w[k])
}

/// `t` does not begin with a whitespace byte.
pub open spec fn starts_without_space(t: Seq<u8>) -> bool {
    t.len() == 0 || !is_space(t[0])
}

/// `c` spells `k` with any case of its ASCII letters.
pub open spec fn spells_no_case(c: Seq<u8>, k: Seq<u8>) -> bool {
    c.len() == k.len() && forall|j: int| 0 <= j < k.len() ==> lower(#[trigger] c[j]) == lower(k[j])
}

/// A non-empty run of identifier bytes.
pub open spec fn is_ident_run(x: Seq<u8>) -> bool {
    x.len() > 0 && forall|k: int| 0 <= k < x.len() ==> is_ident_char(#[trigger] x[k])
}

proof fn lemma_run_over(a: Seq<u8>, b: Seq<u8>, class: ByteClass, i: nat)
    requires
        i <= a.len(),
        forall|k: int| 0 <= k < a.len() ==> class.holds(#[trigger] a[k]),
        b.len() == 0 || !class.holds(b[0]),
    ensures
        run_end(a + b, class, i) == a.len(),
    decreases a.len() - i,
{
    if i < a.len() {
        assert((a + b)[i as int] == a[i as int]);
        lemma_run_over(a, b, class, i + 1);
    } else if b.len() > 0 {
        assert((a + b)[i as int] == b[0]);
    }
}

/// The longest run of `class` at the start of `a + b` is `a`, where `a` is
/// made of such bytes and `b` does not begin with one.
proof fn lemma_span_over(a: Seq<u8>, b: Seq<u8>, class: ByteClass)
    requires
        forall|k: int| 0 <= k < a.len() ==> class.holds(#[trigger] a[k]),
        b.len() == 0 || !class.holds(b[0]),
    ensures
        span_len(a + b, class) == a.len(),
        (a + b).skip(a.len() as int) == b,
        (a + b).take(a.len() as int) == a,
{
    lemma_run_over(a, b, class, 0);
    assert((a + b).skip(a.len() as int) =~= b);
    assert((a + b).take(a.len() as int) =~= a);
}

/// Whatever its length, a run of whitespace in front of `t` is consumed
/// whole by the required-whitespace matcher, which hands on `t` itself.
pub proof fn law_space_run_any_length(w: Seq<u8>, t: Seq<u8>)
    requires
        is_space_run(w),
        starts_without_space(t),
    ensures
        space1_spec(w + t) == Some(t),
{
    lemma_span_over(w, t, ByteClass::Whitespace);
}

/// A keyword matches whatever the case of its letters, and hands on
/// exactly what follows it.
pub proof fn law_keyword_any_case(c: Seq<u8>, k: Seq<u8>, t: Seq<u8>)
    requires
        spells_no_case(c, k),
    ensures
        tag_no_case_spec(c + t, k) == Some(t),
{
    assert forall|j: int| 0 <= j < k.len() implies lower((c + t)[j]) == lower(k[j]) by {
        assert((c + t)[j] == c[j]);
    }
    assert((c + t).skip(k.len() as int) =~= t);
}

/// An identifier is read whole, its case kept byte for byte.
pub proof fn law_identifier_keeps_case(x: Seq<u8>, t: Seq<u8>)
    requires
        is_ident_run(x),
        t.len() == 0 || !is_ident_char(t[0]),
    ensures
        identifier_spec(x + t) == Some((ascii_chars(x), t)),
{
    lemma_span_over(x, t, ByteClass::IdentChar);
}

/// The whitespace after the `SELECT` keyword may be any non-empty run, and
/// the keyword may have any case: the statement parses the same.
pub proof fn law_select_keyword_and_space(
    c1: Seq<u8>,
    c2: Seq<u8>,
    w1: Seq<u8>,
    w2: Seq<u8>,
    t: Seq<u8>,
)
    requires
        spells_no_case(c1, "select".spec_bytes()),
        spells_no_case(c2, "select".spec_bytes()),
        is_space_run(w1),
        is_space_run(w2),
        starts_without_space(t),
    ensures
        select_spec(c1 + (w1 + t)) == select_spec(c2 + (w2 + t)),
{
    law_keyword_any_case(c1, "select".spec_bytes(), w1 + t);
    law_keyword_any_case(c2, "select".spec_bytes(), w2 + t);
    law_space_run_any_length(w1, t);
    law_space_run_any_length(w2, t);
}

/// Around the `FROM` keyword the whitespace may be any non-empty runs, and
/// the keyword may have any case: the table clause reads the same.
pub proof fn law_from_keyword_and_spaces(
    w1: Seq<u8>,
    c1: Seq<u8>,
    v1: Seq<u8>,
    w2: Seq<u8>,
    c2: Seq<u8>,
    v2: Seq<u8>,
    t: Seq<u8>,
)
    requires
        is_space_run(w1),
        is_space_run(v1),
        is_space_run(w2),
        is_space_run(v2),
        spells_no_case(c1, "from".spec_bytes()),
        spells_no_case(c2, "from".spec_bytes()),
        starts_without_space(t),
    ensures
        from_spec(w1 + (c1 + (v1 + t))) == from_spec(w2 + (c2 + (v2 + t))),
{
    reveal_strlit("from");
    broadcast use vstd::string::is_ascii_spec_bytes;

    assert(vstd::string::is_ascii("from"));
    assert(lower(c1[0]) == 'f' as u8);
    assert(lower(c2[0]) == 'f' as u8);
    lemma_starts(c1, v1 + t);
    lemma_starts(c2, v2 + t);
    law_space_run_any_length(w1, c1 + (v1 + t));
    law_space_run_any_length(w2, c2 + (v2 + t));
    law_keyword_any_case(c1, "from".spec_bytes(), v1 + t);
    law_keyword_any_case(c2, "from".spec_bytes(), v2 + t);
    law_space_run_any_length(v1, t);
    law_space_run_any_length(v2, t);
}

/// Around the `WHERE` and `LIMIT` keywords the whitespace may be any
/// non-empty runs: the relations and the limit read are the same.
pub proof fn law_where_and_limit_spaces(
    w1: Seq<u8>,
    v1: Seq<u8>,
    w2: Seq<u8>,
    v2: Seq<u8>,
    t: Seq<u8>,
)
    requires
        is_space_run(w1),
        is_space_run(v1),
        is_space_run(w2),
        is_space_run(v2),
        starts_without_space(t),
    ensures
        where_spec(w1 + ("where".spec_bytes() + (v1 + t))).0 == where_spec(
            w2 + ("where".spec_bytes() + (v2 + t)),
        ).0,
        limit_spec(w1 + ("limit".spec_bytes() + (v1 + t))).0 == limit_spec(
            w2 + ("limit".spec_bytes() + (v2 + t)),
        ).0,
{
    reveal_strlit("where");
    reveal_strlit("limit");
    broadcast use vstd::string::is_ascii_spec_bytes;

    assert(vstd::string::is_ascii("where"));
    assert(vstd::string::is_ascii("limit"));
    let kw = "where".spec_bytes();
    let kl = "limit".spec_bytes();
    lemma_starts(kw, v1 + t);
    lemma_starts(kw, v2 + t);
    lemma_starts(kl, v1 + t);
    lemma_starts(kl, v2 + t);
    law_space_run_any_length(w1, kw + (v1 + t));
    law_space_run_any_length(w2, kw + (v2 + t));
    law_space_run_any_length(w1, kl + (v1 + t));
    law_space_run_any_length(w2, kl + (v2 + t));
    law_keyword_any_case(kw, kw, v1 + t);
    law_keyword_any_case(kw, kw, v2 + t);
    law_keyword_any_case(kl, kl, v1 + t);
    law_keyword_any_case(kl, kl, v2 + t);
    law_space_run_any_length(v1, t);
    law_space_run_any_length(v2, t);
}

/// The whitespace in front of the clauses that follow the table name may
/// be any non-empty run: the relations, ordering, limit and filtering
/// flag that are read are the same.
pub proof fn law_space_before_trailing_clauses(w1: Seq<u8>, w2: Seq<u8>, t: Seq<u8>)
    requires
        is_space_run(w1),
        is_space_run(w2),
        starts_without_space(t),
    ensures
        trailing_clauses_spec(w1 + t).0 == trailing_clauses_spec(w2 + t).0,
        trailing_clauses_spec(w1 + t).1 == trailing_clauses_spec(w2 + t).1,
        trailing_clauses_spec(w1 + t).2 == trailing_clauses_spec(w2 + t).2,
        trailing_clauses_spec(w1 + t).3 == trailing_clauses_spec(w2 + t).3,
{
    law_space_run_any_length(w1, t);
    law_space_run_any_length(w2, t);
}

/// `>=` and `<=` are read as one operator each, never as `>` or `<`
/// followed by a stray `=`.
pub proof fn law_operator_longest_match(t: Seq<u8>)
    ensures
        operator_spec(">=".spec_bytes() + t) == Some(
            (ComparisonOperator::GreaterThanOrEqualTo, t),
        ),
        operator_spec("<=".spec_bytes() + t) == Some((ComparisonOperator::LessThanOrEqualTo, t)),
{
    reveal_strlit("=");
    reveal_strlit(">=");
    reveal_strlit("<=");
    reveal_strlit(">");
    broadcast use vstd::string::is_ascii_spec_bytes;

    assert(vstd::string::is_ascii(">"));
    assert(vstd::string::is_ascii("="));
    assert(vstd::string::is_ascii(">="));
    assert(vstd::string::is_ascii("<="));
    let ge = ">=".spec_bytes() + t;
    let le = "<=".spec_bytes() + t;
    assert(ge[0] == '>' as u8 && ge[1] == '=' as u8);
    assert(le[0] == '<' as u8 && le[1] == '=' as u8);
    assert(ge.skip(2) =~= t);
    assert(le.skip(2) =~= t);
}

/// `ORDER BY x` with no direction after the column orders ascending.
pub proof fn law_order_by_defaults_to_asc(
    w1: Seq<u8>,
    o: Seq<u8>,
    w2: Seq<u8>,
    b: Seq<u8>,
    w3: Seq<u8>,
    x: Seq<u8>,
    t: Seq<u8>,
)
    requires
        is_space_run(w1),
        is_space_run(w2),
        is_space_run(w3),
        spells_no_case(o, "order".spec_bytes()),
        spells_no_case(b, "by".spec_bytes()),
        is_ident_run(x),
        t.len() == 0 || !is_ident_char(t[0]),
        space1_spec(t) matches Some(r) ==> ordering_spec(r) is None,
    ensures
        order_by_spec(w1 + (o + (w2 + (b + (w3 + (x + t)))))) == Some(
            (OrderByModel { name: ascii_chars(x), ordering: Ordering::Asc }, t),
        ),
{
    reveal_strlit("order");
    reveal_strlit("by");
    broadcast use vstd::string::is_ascii_spec_bytes;

    assert(vstd::string::is_ascii("order"));
    assert(vstd::string::is_ascii("by"));
    assert(lower(o[0]) == 'o' as u8);
    assert(lower(b[0]) == 'b' as u8);
    law_keyword_any_case(o, "order".spec_bytes(), w2 + (b + (w3 + (x + t))));
    law_keyword_any_case(b, "by".spec_bytes(), w3 + (x + t));
    law_identifier_keeps_case(x, t);
    lemma_starts(o, w2 + (b + (w3 + (x + t))));
    lemma_starts(b, w3 + (x + t));
    lemma_starts(x, t);
    law_space_run_any_length(w1, o + (w2 + (b + (w3 + (x + t)))));
    law_space_run_any_length(w2, b + (w3 + (x + t)));
    law_space_run_any_length(w3, x + t);
    assert(direction_spec(t) == (Ordering::Asc, t));
}

/// An optional clause that is absent does not block the ones after it:
/// `JSON` is read without `DISTINCT`, and `ORDER BY`, `LIMIT` and
/// `ALLOW FILTERING` are each read after the table name without the
/// clauses that may stand before them.
pub proof fn law_absent_clauses_do_not_block(s: Seq<u8>)
    ensures
        json_spec(s).0 ==> distinct_spec(s) == (false, s),
        order_by_spec(s) matches Some((ob, _)) ==> trailing_clauses_spec(s).1 == Some(ob),
        limit_spec(s).0 matches Some(v) ==> trailing_clauses_spec(s).2 == Some(v),
        allow_filtering_spec(s).0 ==> trailing_clauses_spec(s).3,
{
    reveal_strlit("distinct");
    reveal_strlit("json");
    reveal_strlit("where");
    reveal_strlit("order");
    reveal_strlit("limit");
    reveal_strlit("allow filtering");
    broadcast use vstd::string::is_ascii_spec_bytes;

    assert(vstd::string::is_ascii("distinct"));
    assert(vstd::string::is_ascii("json"));
    assert(vstd::string::is_ascii("where"));
    assert(vstd::string::is_ascii("order"));
    assert(vstd::string::is_ascii("limit"));
    assert(vstd::string::is_ascii("allow filtering"));
    if json_spec(s).0 {
        assert(lower(s[0]) == 'j' as u8);
    }
    if let Some(r1) = space1_spec(s) {
        if order_by_spec(s) is Some {
            assert(lower(r1[0]) == 'o' as u8);
        }
        if limit_spec(s).0 is Some {
            assert(lower(r1[0]) == 'l' as u8);
        }
        if allow_filtering_spec(s).0 {
            assert(lower(r1[0]) == 'a' as u8);
        }
    }
}

/// The whitespace after `DISTINCT` and after `JSON` may be any non-empty
/// run, and the words may have any case: the flag is set and the same input
/// is handed on.
pub proof fn law_distinct_json_spaces(c: Seq<u8>, w: Seq<u8>, t: Seq<u8>)
    requires
        is_space_run(w),
        starts_without_space(t),
    ensures
        spells_no_case(c, "distinct".spec_bytes()) ==> distinct_spec(c + (w + t)) == (true, t),
        spells_no_case(c, "json".spec_bytes()) ==> json_spec(c + (w + t)) == (true, t),
{
    law_space_run_any_length(w, t);
    if spells_no_case(c, "distinct".spec_bytes()) {
        law_keyword_any_case(c, "distinct".spec_bytes(), w + t);
    }
    if spells_no_case(c, "json".spec_bytes()) {
        law_keyword_any_case(c, "json".spec_bytes(), w + t);
    }
}

/// Around `AS` the whitespace may be any non-empty runs, and the word may
/// have any case: the alias is the identifier that follows.
pub proof fn law_alias_spaces(w1: Seq<u8>, c: Seq<u8>, w2: Seq<u8>, t: Seq<u8>)
    requires
        is_space_run(w1),
        is_space_run(w2),
        spells_no_case(c, "as".spec_bytes()),
        starts_without_space(t),
    ensures
        alias_spec(w1 + (c + (w2 + t))) == identifier_spec(t),
{
    reveal_strlit("as");
    broadcast use vstd::string::is_ascii_spec_bytes;

    assert(vstd::string::is_ascii("as"));
    assert(lower(c[0]) == 'a' as u8);
    lemma_starts(c, w2 + t);
    law_space_run_any_length(w1, c + (w2 + t));
    law_keyword_any_case(c, "as".spec_bytes(), w2 + t);
    law_space_run_any_length(w2, t);
}

/// Around `AND` the whitespace may be any non-empty runs, and the word may
/// have any case: the next relation is read from the same input.
pub proof fn law_and_spaces(w1: Seq<u8>, c: Seq<u8>, w2: Seq<u8>, t: Seq<u8>)
    requires
        is_space_run(w1),
        is_space_run(w2),
        spells_no_case(c, "and".spec_bytes()),
        starts_without_space(t),
    ensures
        and_spec(w1 + (c + (w2 + t))) == Some(t),
{
    reveal_strlit("and");
    broadcast use vstd::string::is_ascii_spec_bytes;

    assert(vstd::string::is_ascii("and"));
    assert(lower(c[0]) == 'a' as u8);
    lemma_starts(c, w2 + t);
    law_space_run_any_length(w1, c + (w2 + t));
    law_keyword_any_case(c, "and".spec_bytes(), w2 + t);
    law_space_run_any_length(w2, t);
}

/// The whitespace on either side of a comma in the field list may be
/// absent or any run: the next field is read from the same input.
pub proof fn law_comma_spaces(w1: Seq<u8>, w2: Seq<u8>, t: Seq<u8>)
    requires
        forall|k: int| 0 <= k < w1.len() ==> is_space(#[trigger] w1[k]),
        forall|k: int| 0 <= k < w2.len() ==> is_space(#[trigger] w2[k]),
        starts_without_space(t),
    ensures
        comma_spec(w1 + (",".spec_bytes() + (w2 + t))) == Some(t),
{
    reveal_strlit(",");
    broadcast use vstd::string::is_ascii_spec_bytes;

    assert(vstd::string::is_ascii(","));
    let k = ",".spec_bytes();
    lemma_starts(k, w2 + t);
    lemma_span_over(w1, k + (w2 + t), ByteClass::Whitespace);
    law_keyword_any_case(k, k, w2 + t);
    assert(forall|j: int| 0 <= j < k.len() ==> (k + (w2 + t))[j] == k[j]);
    assert((k + (w2 + t)).skip(k.len() as int) =~= w2 + t);
    lemma_span_over(w2, t, ByteClass::Whitespace);
}

/// The whitespace on either side of a comparison operator may be any
/// non-empty runs: the relation read is the same, wherever the left
/// expression ends at the first run.
pub proof fn law_operator_spaces(
    x: Seq<u8>,
    w1: Seq<u8>,
    v1: Seq<u8>,
    w2: Seq<u8>,
    v2: Seq<u8>,
    p: Seq<u8>,
    t: Seq<u8>,
)
    requires
        is_space_run(w1),
        is_space_run(v1),
        is_space_run(w2),
        is_space_run(v2),
        p.len() > 0 && !is_space(p[0]),
        starts_without_space(t),
        operator_spec(p + (v1 + t)) matches Some((_, r)) && r == v1 + t,
        operator_spec(p + (v2 + t)) matches Some((_, r)) && r == v2 + t,
        expr_spec(x + (w1 + (p + (v1 + t)))) matches Some((_, r)) && r == w1 + (p + (v1 + t)),
        expr_spec(x + (w2 + (p + (v2 + t)))) matches Some((_, r)) && r == w2 + (p + (v2 + t)),
        expr_spec(x + (w1 + (p + (v1 + t)))).unwrap().0 == expr_spec(
            x + (w2 + (p + (v2 + t))),
        ).unwrap().0,
        operator_spec(p + (v1 + t)).unwrap().0 == operator_spec(p + (v2 + t)).unwrap().0,
    ensures
        where_element_spec(x + (w1 + (p + (v1 + t)))) == where_element_spec(
            x + (w2 + (p + (v2 + t))),
        ),
{
    lemma_starts(p, v1 + t);
    lemma_starts(p, v2 + t);
    law_space_run_any_length(w1, p + (v1 + t));
    law_space_run_any_length(w2, p + (v2 + t));
    law_space_run_any_length(v1, t);
    law_space_run_any_length(v2, t);
}

/// The whitespace before the direction of an `ORDER BY` may be any
/// non-empty run: the direction read is the same.
pub proof fn law_direction_spaces(w1: Seq<u8>, w2: Seq<u8>, t: Seq<u8>)
    requires
        is_space_run(w1),
        is_space_run(w2),
        starts_without_space(t),
    ensures
        direction_spec(w1 + t).0 == direction_spec(w2 + t).0,
{
    law_space_run_any_length(w1, t);
    law_space_run_any_length(w2, t);
}

proof fn lemma_starts(a: Seq<u8>, b: Seq<u8>)
    requires
        a.len() > 0,
    ensures
        (a + b)[0] == a[0],
{
}

} // verus!
