use vstd::prelude::*;

pub mod catalog;
pub mod paths;
pub mod platform;
pub mod probe;
pub mod report;
pub mod text;

verus! {

/// Sum of two 32-bit integers; the caller keeps the sum within range.
pub fn add(a: i32, b: i32) -> (r: i32)
    requires
        i32::MIN <= a + b <= i32::MAX,
    ensures
        r == a + b,
{
    a + b
}

} // verus!
