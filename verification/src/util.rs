//! Small utilities shared by the scanners.

use vstd::prelude::*;

verus! {

/// Applies the predicate `f` to the character, if there is one; `None` never
/// satisfies a predicate.
pub fn some_char<F: Fn(char) -> bool>(opt_char: Option<char>, f: F) -> (r: bool)
    requires
        opt_char matches Some(c) ==> call_requires(f, (c,)),
    ensures
        match opt_char {
            Some(c) => call_ensures(f, (c,), r),
            None => !r,
        },
{
    if let Some(c) = opt_char {
        f(c)
    } else {
        false
    }
}

} // verus!
