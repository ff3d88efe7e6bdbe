//! Functions that hand a heap-allocated value to their caller by move.

use vstd::prelude::*;

verus! {

/// Makes a new string and moves it to the caller.
pub fn gives_ownership() -> (some_string: String)
    ensures
        some_string@ == "hello"@,
{
    let some_string = String::from_str("hello");
    some_string
}

/// Takes a string from the caller and moves the same string back.
pub fn takes_and_gives_back(a_string: String) -> (same: String)
    ensures
        same == a_string,
{
    a_string
}

} // verus!
