//! The `INSERT` statement, which is the keyword alone.

use vstd::prelude::*;
use vstd::string::StringSliceAdditionalSpecFns;

use crate::ast::Insert;
use crate::buffer::ByteView;
use crate::lexical::{advances, tag_no_case, tag_no_case_spec};

verus! {

/// The keyword `INSERT`, without regard to case.
pub open spec fn insert_spec(s: Seq<u8>) -> Option<Seq<u8>> {
    tag_no_case_spec(s, "insert".spec_bytes())
}

/// The keyword `INSERT`, which parses to the empty marker.
pub fn insert(i: &ByteView) -> (r: Option<(ByteView, Insert)>)
    ensures
        match insert_spec(i@) {
            Some(t) => r matches Some((o, _)) && o@ == t && advances(*i, o),
            None => r is None,
        },
{
    match tag_no_case(i, "insert") {
        Some(rest) => Some((rest, Insert {  })),
        None => None,
    }
}

} // verus!
