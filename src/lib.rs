//! A parser for a small subset of CQL that works directly on a shared,
//! immutable byte buffer and produces an immutable syntax tree.
//!
//! Each production takes a view of the input that remains and gives back
//! what remains after it together with its value, or fails. The grammar is
//! stated as spec functions over byte sequences (`select_spec`,
//! `statement_spec`, ...), and every parsing function is proved to compute
//! exactly what they state.

use vstd::prelude::*;

pub mod ast;
pub mod buffer;
pub mod combos;
pub mod expr;
pub mod foreign;
pub mod insert;
pub mod laws;
pub mod lexical;
pub mod literal;
pub mod select;

use crate::ast::{Statement, StatementModel};
use crate::buffer::ByteView;
use crate::foreign::bytes_view;
use crate::insert::{insert, insert_spec};
use crate::lexical::advances;
use crate::select::{select, select_spec};

verus! {

/// Why a parse failed.
#[derive(Clone, Copy, Debug, PartialEq, Eq)]
pub enum ParseError {
    /// The input begins with neither a `SELECT` nor an `INSERT` statement
    /// that the grammar accepts.
    NoStatement,
}

/// One statement: a `SELECT`, else an `INSERT`. What follows the
/// statement is left over and given back.
pub open spec fn statement_spec(s: Seq<u8>) -> Option<(StatementModel, Seq<u8>)> {
    match select_spec(s) {
        Some((m, t)) => Some((StatementModel::Select(m), t)),
        None => match insert_spec(s) {
            Some(t) => Some((StatementModel::Insert, t)),
            None => None,
        },
    }
}

/// Parses one statement at the start of `i`, and gives back what follows
/// it, which may be non-empty.
pub fn sql_query(i: &ByteView) -> (r: Result<(ByteView, Statement), ParseError>)
    ensures
        match statement_spec(i@) {
            Some((m, t)) => r matches Ok((o, st)) && o@ == t && advances(*i, o) && st@ == m,
            None => r == Err::<(ByteView, Statement), ParseError>(ParseError::NoStatement),
        },
{
    match select(i) {
        Some((rest, s)) => Ok((rest, Statement::Select(s))),
        None => match insert(i) {
            Some((rest, m)) => Ok((rest, Statement::Insert(m))),
            None => Err(ParseError::NoStatement),
        },
    }
}

/// Parses the statement that `value` begins with. Bytes after it are
/// ignored.
pub fn parse(value: bytes::Bytes) -> (r: Result<Vec<Statement>, ParseError>)
    ensures
        match statement_spec(bytes_view(value)) {
            Some((m, _)) => r matches Ok(v) && v@.len() == 1 && v@[0]@ == m,
            None => r == Err::<Vec<Statement>, ParseError>(ParseError::NoStatement),
        },
{
    let input = ByteView::new(value);
    match sql_query(&input) {
        Ok((_, st)) => Ok(vec![st]),
        Err(e) => Err(e),
    }
}

} // verus!
