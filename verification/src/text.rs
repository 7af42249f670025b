//! Text helpers shared by the tools.

use vstd::prelude::*;

verus! {

/// The two texts are the same, letter for letter.
pub fn same_text(a: &str, b: &str) -> (same: bool)
    ensures
        same == (a@ == b@),
{
    a.to_owned() == b.to_owned()
}

} // verus!
