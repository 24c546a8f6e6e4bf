//! Arrays that hold one value throughout.
use vstd::prelude::*;

verus! {

/// The array that holds `t` throughout: `[t; N]`.
pub open spec fn filled<T: Copy, const N: usize>(t: T) -> [T; N] {
    vstd::array::spec_array_fill_for_copy_type::<T, N>(t)
}

} // verus!
