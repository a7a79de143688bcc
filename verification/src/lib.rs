//! A line-search library: it scans a text buffer line by line for a
//! literal query and returns the matching lines in text order, either
//! respecting character case or after lowercase normalization. A small
//! resolver turns raw invocation tokens and an optional override signal
//! into the validated configuration that selects the variant.

pub mod casefold;
pub mod config;
pub mod laws;
pub mod lines;
pub mod matcher;
pub mod menu;

use vstd::prelude::*;

verus! {

/// Reports whether the two numbers are the same.
pub fn test_even(x: i32, y: i32) -> (r: bool)
    ensures
        r == (x == y),
{
    x == y
}

} // verus!
