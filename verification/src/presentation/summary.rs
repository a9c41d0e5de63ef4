//! Cells of the hourly report.
use crate::text::{i64_to_string, signed_decimal};
use vstd::prelude::*;

verus! {

/// A number, or `-` where there is none.
pub open spec fn optional_signed(v: Option<i64>) -> Seq<char> {
    match v {
        Some(n) => signed_decimal(n as int),
        None => "-"@,
    }
}

pub fn display_optional_i64(value: Option<i64>) -> (s: String)
    ensures
        s@ == optional_signed(value),
{
    match value {
        Some(n) => i64_to_string(n),
        None => crate::text::owned("-"),
    }
}

} // verus!
