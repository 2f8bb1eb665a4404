use bytes::Bytes;
use cqlparser::ast::{
    ComparisonOperator, Constant, Expr, OrderBy, Ordering, RelationComparison, RelationElement,
    Select, SelectElement, Statement,
};
use cqlparser::buffer::ByteView;
use cqlparser::lexical::ByteClass;
use cqlparser::{parse, sql_query, ParseError};

fn parse_str(s: &str) -> Result<Vec<Statement>, ParseError> {
    parse(Bytes::copy_from_slice(s.as_bytes()))
}

fn select_of(s: &str) -> Select {
    match parse_str(s).unwrap().remove(0) {
        Statement::Select(sel) => sel,
        other => panic!("not a select: {:?}", other),
    }
}

fn name(s: &str) -> Expr {
    Expr::Name(s.to_string())
}

fn comparison(lhs: Expr, operator: ComparisonOperator, rhs: Expr) -> RelationElement {
    RelationElement::Comparison(RelationComparison { lhs, operator, rhs })
}

#[test]
fn whitespace_runs_give_the_same_tree() {
    let base = select_of("SELECT a AS b FROM t WHERE x = 1 AND y > 2 ORDER BY z DESC LIMIT 5");
    let wide = select_of(
        "SELECT \t a \n AS  b\r\nFROM   t  WHERE\tx  =  1   AND\n y >\t2  ORDER  BY   z   DESC  LIMIT \t 5",
    );
    assert_eq!(base, wide);
    assert_eq!(base.where_.len(), 2);
}

#[test]
fn keyword_case_does_not_matter_but_identifier_case_is_kept() {
    let lower = select_of("select distinct json MyField as Al from MyTable where A = TRUE order by Col asc limit 3");
    let mixed = select_of("SeLeCt DiStInCt JsOn MyField aS Al FrOm MyTable WhErE A = true OrDeR bY Col AsC LiMiT 3");
    assert_eq!(lower, mixed);
    assert_eq!(lower.select[0].expr, name("MyField"));
    assert_eq!(lower.select[0].as_alias, Some("Al".to_string()));
    assert_eq!(lower.from, vec!["MyTable".to_string()]);
    assert_eq!(lower.where_, vec![comparison(name("A"), ComparisonOperator::Equals, Expr::Constant(Constant::Bool(true)))]);
    assert_eq!(lower.order_by.unwrap().name, "Col".to_string());
    assert!(lower.distinct && lower.json);
}

#[test]
fn operators_take_the_longest_spelling() {
    let cases = [
        ("=", ComparisonOperator::Equals),
        (">", ComparisonOperator::GreaterThan),
        (">=", ComparisonOperator::GreaterThanOrEqualTo),
        ("<", ComparisonOperator::LessThan),
        ("<=", ComparisonOperator::LessThanOrEqualTo),
    ];
    for (text, op) in cases {
        let sel = select_of(&format!("SELECT f FROM t WHERE a {} 1", text));
        assert_eq!(sel.where_, vec![comparison(name("a"), op, Expr::Constant(Constant::Decimal(1)))]);
    }
}

#[test]
fn doubled_quote_is_one_quote() {
    let sel = select_of("SELECT 'it''s' FROM t");
    assert_eq!(sel.select[0].expr, Expr::Constant(Constant::String("it's".to_string())));
    let empty = select_of("SELECT '' FROM t");
    assert_eq!(empty.select[0].expr, Expr::Constant(Constant::String(String::new())));
}

#[test]
fn unterminated_string_fails() {
    assert_eq!(parse_str("SELECT 'abc FROM t"), Err(ParseError::NoStatement));
    assert_eq!(parse_str("SELECT ''' FROM t"), Err(ParseError::NoStatement));
}

#[test]
fn string_with_invalid_utf8_fails() {
    let bytes = Bytes::copy_from_slice(b"SELECT '\xff' FROM t");
    assert_eq!(parse(bytes), Err(ParseError::NoStatement));
}

#[test]
fn order_by_without_direction_is_ascending() {
    let sel = select_of("SELECT f FROM t ORDER BY x");
    assert_eq!(sel.order_by, Some(OrderBy { name: "x".to_string(), ordering: Ordering::Asc }));
}

#[test]
fn optional_clauses_in_every_combination() {
    for mask in 0u32..64 {
        let d = mask & 1 != 0;
        let j = mask & 2 != 0;
        let w = mask & 4 != 0;
        let o = mask & 8 != 0;
        let l = mask & 16 != 0;
        let a = mask & 32 != 0;
        let mut q = String::from("SELECT ");
        if d {
            q.push_str("DISTINCT ");
        }
        if j {
            q.push_str("JSON ");
        }
        q.push_str("f FROM t");
        if w {
            q.push_str(" WHERE k = 'v'");
        }
        if o {
            q.push_str(" ORDER BY c DESC");
        }
        if l {
            q.push_str(" LIMIT 7");
        }
        if a {
            q.push_str(" ALLOW FILTERING");
        }
        let sel = select_of(&q);
        assert_eq!(sel.distinct, d, "{}", q);
        assert_eq!(sel.json, j, "{}", q);
        assert_eq!(sel.where_.len(), if w { 1 } else { 0 }, "{}", q);
        assert_eq!(sel.order_by.is_some(), o, "{}", q);
        assert_eq!(sel.limit, if l { Some(7) } else { None }, "{}", q);
        assert_eq!(sel.allow_filtering, a, "{}", q);
        assert_eq!(sel.select, vec![SelectElement { expr: name("f"), as_alias: None }]);
        assert_eq!(sel.from, vec!["t".to_string()]);
    }
}

#[test]
fn constants_in_expressions() {
    let sel = select_of("SELECT -42, 7, FALSE, * FROM t");
    let exprs: Vec<Expr> = sel.select.into_iter().map(|e| e.expr).collect();
    assert_eq!(
        exprs,
        vec![
            Expr::Constant(Constant::Decimal(-42)),
            Expr::Constant(Constant::Decimal(7)),
            Expr::Constant(Constant::Bool(false)),
            Expr::Wildcard,
        ]
    );
}

#[test]
fn integer_limits() {
    let sel = select_of("SELECT -9223372036854775808, 9223372036854775807 FROM t");
    assert_eq!(sel.select[0].expr, Expr::Constant(Constant::Decimal(i64::MIN)));
    assert_eq!(sel.select[1].expr, Expr::Constant(Constant::Decimal(i64::MAX)));
    // Too large for an integer literal: the digits are read as a name.
    let big = select_of("SELECT 9223372036854775808 FROM t");
    assert_eq!(big.select[0].expr, name("9223372036854775808"));
    // Too negative: neither an integer nor a name.
    assert_eq!(parse_str("SELECT -9223372036854775809 FROM t"), Err(ParseError::NoStatement));
}

#[test]
fn limit_bounds() {
    assert_eq!(select_of("SELECT f FROM t LIMIT 18446744073709551615").limit, Some(u64::MAX));
    // A limit that does not fit is not taken, and is left over.
    assert_eq!(select_of("SELECT f FROM t LIMIT 18446744073709551616").limit, None);
}

#[test]
fn where_chain_of_two_relations() {
    // The keyword after SELECT is read as a field, so the table is missing.
    assert_eq!(parse_str("SELECT FROM t"), Err(ParseError::NoStatement));
    let sel = select_of("SELECT f FROM t WHERE a < 'x' AND b <= -1");
    assert_eq!(
        sel.where_,
        vec![
            comparison(name("a"), ComparisonOperator::LessThan, Expr::Constant(Constant::String("x".to_string()))),
            comparison(name("b"), ComparisonOperator::LessThanOrEqualTo, Expr::Constant(Constant::Decimal(-1))),
        ]
    );
}

#[test]
fn missing_separation_or_table_fails() {
    assert_eq!(parse_str("SELECTfield FROM t"), Err(ParseError::NoStatement));
    assert_eq!(parse_str("SELECT field"), Err(ParseError::NoStatement));
    assert_eq!(parse_str("SELECT field FROM"), Err(ParseError::NoStatement));
    assert_eq!(parse_str("UPDATE t"), Err(ParseError::NoStatement));
    assert_eq!(parse_str(""), Err(ParseError::NoStatement));
}

#[test]
fn allow_filtering_needs_one_space() {
    let sel = select_of("SELECT f FROM t ALLOW  FILTERING");
    assert!(!sel.allow_filtering);
}

#[test]
fn trailing_input_is_left_over() {
    let input = ByteView::new(Bytes::from_static(b"insert into t"));
    let (rest, st) = sql_query(&input).unwrap();
    assert!(matches!(st, Statement::Insert(_)));
    assert_eq!(input.offset(&rest), 6);
    assert_eq!(rest.into_bytes(), Bytes::from_static(b" into t"));
}

#[test]
fn buffer_view_operations() {
    let v = ByteView::new(Bytes::from_static(b"  ab_1 'x'"));
    assert_eq!(v.input_len(), 10);
    assert_eq!(v.span(ByteClass::Whitespace), 2);
    let (rest, head) = v.take_split(2);
    assert_eq!(head.to_vec(), b"  ".to_vec());
    assert_eq!(rest.span(ByteClass::IdentChar), 4);
    assert_eq!(rest.byte(0), b'a');
    assert_eq!(v.offset(&rest), 2);
    assert_eq!(v.take(4).to_vec(), b"  ab".to_vec());
    assert_eq!(v.find_substring(b"'x"), Some(7));
    assert_eq!(v.find_substring(b"zz"), None);
    assert_eq!(v.find_substring(b""), Some(0));
    assert_eq!(v.share().into_bytes(), Bytes::from_static(b"  ab_1 'x'"));
}

#[test]
fn scenario_christmas_tree_with_where() {
    let sel = select_of("SELECT DISTINCT a AS x, b FROM ks WHERE a >= 1 ORDER BY a LIMIT 0 ALLOW FILTERING");
    assert!(sel.distinct);
    assert_eq!(sel.select[0].as_alias, Some("x".to_string()));
    assert_eq!(sel.where_, vec![comparison(name("a"), ComparisonOperator::GreaterThanOrEqualTo, Expr::Constant(Constant::Decimal(1)))]);
    assert_eq!(sel.order_by.unwrap().ordering, Ordering::Asc);
    assert_eq!(sel.limit, Some(0));
    assert!(sel.allow_filtering);
}

#[test]
fn where_without_relation_is_absent() {
    let input = ByteView::new(Bytes::from_static(b"SELECT f FROM t WHERE LIMIT 5"));
    let (rest, st) = sql_query(&input).unwrap();
    match st {
        Statement::Select(sel) => {
            assert!(sel.where_.is_empty());
            assert_eq!(sel.limit, None);
        }
        other => panic!("not a select: {:?}", other),
    }
    assert_eq!(rest.into_bytes(), Bytes::from_static(b" WHERE LIMIT 5"));
}

#[test]
fn and_is_consumed_only_before_a_relation() {
    let input = ByteView::new(Bytes::from_static(b"SELECT f FROM t WHERE a = 1 AND LIMIT 5"));
    let (rest, st) = sql_query(&input).unwrap();
    match st {
        Statement::Select(sel) => {
            assert_eq!(sel.where_, vec![comparison(name("a"), ComparisonOperator::Equals, Expr::Constant(Constant::Decimal(1)))]);
            assert_eq!(sel.limit, None);
        }
        other => panic!("not a select: {:?}", other),
    }
    assert_eq!(rest.into_bytes(), Bytes::from_static(b" AND LIMIT 5"));
}

#[test]
fn views_compare_by_content() {
    let a = ByteView::new(Bytes::from_static(b"xabxab"));
    let (second, first) = a.take_split(3);
    assert!(first == second);
    assert!(first != a);
    assert!(a.take(2) != second.take(2).take(1));
    assert!(ByteView::new(Bytes::from_static(b"ab")) == second.take_split(1).0);
}
