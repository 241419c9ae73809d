//! A verified tail-selection engine: given a file's content, a granularity
//! (lines or bytes) and a signed count specifier, it computes the starting
//! unit and the exact bytes to emit, and orchestrates that over many files.
//! A few small verified helpers for sibling command-line tools live here too.

pub mod calendar;
pub mod fortune;
pub mod listing;
pub mod numeric;
pub mod run;
pub mod stream;
pub mod take;
pub mod text;
pub mod wc;

use vstd::prelude::*;

verus! {

/// Smallest function with a pinned result: always yields 200.
pub fn return_value() -> (r: u8)
    ensures
        r == 200,
{
    200
}

} // verus!
