//! Indexing arrays.
use vstd::prelude::*;

verus! {

/// The position the index `n` designates in an array of `len` items: `n`
/// itself, or, for a negative `n`, `len + n` (counting from the end); none
/// when that falls outside the array.
pub open spec fn position_of(len: int, n: int) -> Option<int> {
    let t = if n < 0 { len + n } else { n };
    if 0 <= t < len {
        Some(t)
    } else {
        None
    }
}

/// See `position_of`.
pub fn array_position(len: usize, n: i64) -> (r: Option<usize>)
    ensures
        match position_of(len as int, n as int) {
            Some(p) => r == Some(p as usize),
            None => r is None,
        },
{
    let l: i128 = len as i128;
    let m: i128 = n as i128;
    let t: i128 = if m < 0 { l + m } else { m };
    if 0 <= t && t < l {
        Some(t as usize)
    } else {
        None
    }
}

} // verus!
