//! Functions that yield a value through their final expression or through
//! an explicit `return`.

use vstd::prelude::*;

verus! {

/// Yields five as the value of the body's last expression.
pub fn five() -> (n: i32)
    ensures
        n == 5,
{
    5
}

/// Yields six through an explicit `return`.
pub fn six() -> (n: i32)
    ensures
        n == 6,
{
    return 6;
}

} // verus!
