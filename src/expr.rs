//! Expressions and comparison operators.

use vstd::prelude::*;
use vstd::string::StringSliceAdditionalSpecFns;

use crate::ast::{ComparisonOperator, Constant, ConstantModel, Expr, ExprModel};
use crate::buffer::ByteView;
use crate::lexical::{identifier, identifier_spec, tag, tag_spec, yields};
use crate::literal::{
    bool_constant, bool_spec, integer_constant, integer_spec, string_constant, string_spec,
};

verus! {

/// A constant: an integer, else a string, else a boolean; the first that
/// matches wins.
pub open spec fn constant_spec(s: Seq<u8>) -> Option<(ConstantModel, Seq<u8>)> {
    match integer_spec(s) {
        Some((v, r)) => Some((ConstantModel::Decimal(v), r)),
        None => match string_spec(s) {
            Some((t, r)) => Some((ConstantModel::String(t), r)),
            None => match bool_spec(s) {
                Some((b, r)) => Some((ConstantModel::Bool(b), r)),
                None => None,
            },
        },
    }
}

/// An expression: `*`, else a constant, else an identifier as a name.
pub open spec fn expr_spec(s: Seq<u8>) -> Option<(ExprModel, Seq<u8>)> {
    match tag_spec(s, "*".spec_bytes()) {
        Some(r) => Some((ExprModel::Wildcard, r)),
        None => match constant_spec(s) {
            Some((c, r)) => Some((ExprModel::Constant(c), r)),
            None => match identifier_spec(s) {
                Some((n, r)) => Some((ExprModel::Name(n), r)),
                None => None,
            },
        },
    }
}

/// A comparison operator; `>=` and `<=` are tried before `>` and `<`.
pub open spec fn operator_spec(s: Seq<u8>) -> Option<(ComparisonOperator, Seq<u8>)> {
    match tag_spec(s, "=".spec_bytes()) {
        Some(r) => Some((ComparisonOperator::Equals, r)),
        None => match tag_spec(s, ">=".spec_bytes()) {
            Some(r) => Some((ComparisonOperator::GreaterThanOrEqualTo, r)),
            None => match tag_spec(s, ">".spec_bytes()) {
                Some(r) => Some((ComparisonOperator::GreaterThan, r)),
                None => match tag_spec(s, "<=".spec_bytes()) {
                    Some(r) => Some((ComparisonOperator::LessThanOrEqualTo, r)),
                    None => match tag_spec(s, "<".spec_bytes()) {
                        Some(r) => Some((ComparisonOperator::LessThan, r)),
                        None => None,
                    },
                },
            },
        },
    }
}

/// A constant: an integer, else a string, else a boolean.
pub fn constant(i: &ByteView) -> (r: Option<(ByteView, Constant)>)
    ensures
        yields(r, *i, constant_spec(i@)),
{
    match integer_constant(i) {
        Some((rest, v)) => Some((rest, Constant::Decimal(v))),
        None => match string_constant(i) {
            Some((rest, t)) => Some((rest, Constant::String(t))),
            None => match bool_constant(i) {
                Some((rest, b)) => Some((rest, Constant::Bool(b))),
                None => None,
            },
        },
    }
}

/// An expression: `*`, else a constant, else a name.
pub fn expr(i: &ByteView) -> (r: Option<(ByteView, Expr)>)
    ensures
        yields(r, *i, expr_spec(i@)),
{
    match tag(i, "*") {
        Some(rest) => Some((rest, Expr::Wildcard)),
        None => match constant(i) {
            Some((rest, c)) => Some((rest, Expr::Constant(c))),
            None => match identifier(i) {
                Some((rest, n)) => Some((rest, Expr::Name(n))),
                None => None,
            },
        },
    }
}

/// A comparison operator, the longest spelling first.
pub fn operator(i: &ByteView) -> (r: Option<(ByteView, ComparisonOperator)>)
    ensures
        yields(r, *i, operator_spec(i@)),
{
    match tag(i, "=") {
        Some(rest) => Some((rest, ComparisonOperator::Equals)),
        None => match tag(i, ">=") {
            Some(rest) => Some((rest, ComparisonOperator::GreaterThanOrEqualTo)),
            None => match tag(i, ">") {
                Some(rest) => Some((rest, ComparisonOperator::GreaterThan)),
                None => match tag(i, "<=") {
                    Some(rest) => Some((rest, ComparisonOperator::LessThanOrEqualTo)),
                    None => match tag(i, "<") {
                        Some(rest) => Some((rest, ComparisonOperator::LessThan)),
                        None => None,
                    },
                },
            },
        },
    }
}

} // verus!
