//! Small helpers on text.

use vstd::prelude::*;
use vstd::std_specs::iter::IteratorSpec;

verus! {

/// Whether two texts hold the same characters.
pub fn same_text(left: &str, right: &str) -> (same: bool)
    ensures
        same == (left@ == right@),
{
    let mut left_chars = left.chars();
    let mut right_chars = right.chars();
    let ghost mut seen: int = 0;
    proof {
        assert(left@.skip(0) =~= left@);
        assert(right@.skip(0) =~= right@);
    }
    loop
        invariant
            0 <= seen <= left@.len(),
            seen <= right@.len(),
            left_chars.remaining() == left@.skip(seen),
            right_chars.remaining() == right@.skip(seen),
            left@.take(seen) == right@.take(seen),
        decreases left@.len() - seen,
    {
        let a = left_chars.next();
        let b = right_chars.next();
        match (a, b) {
            (None, None) => {
                proof {
                    assert(left@.take(seen) =~= left@);
                    assert(right@.take(seen) =~= right@);
                }
                return true;
            },
            (Some(x), Some(y)) => {
                proof {
                    assert(x == left@[seen]);
                    assert(y == right@[seen]);
                    assert(left@.skip(seen).drop_first() =~= left@.skip(seen + 1));
                    assert(right@.skip(seen).drop_first() =~= right@.skip(seen + 1));
                }
                if x != y {
                    return false;
                }
                proof {
                    assert(left@.take(seen + 1) =~= left@.take(seen).push(x));
                    assert(right@.take(seen + 1) =~= right@.take(seen).push(y));
                    seen = seen + 1;
                }
            },
            _ => {
                return false;
            },
        }
    }
}

} // verus!
