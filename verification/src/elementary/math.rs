//! Alignment arithmetic.

use vstd::prelude::*;

verus! {

/// The smallest multiple of `alignment` that is not below `value`.
pub open spec fn spec_align(value: int, alignment: int) -> int
    recommends
        alignment > 0,
{
    if value % alignment == 0 {
        value
    } else {
        value + alignment - value % alignment
    }
}

/// `spec_align` yields a multiple of the alignment in `[value, value + alignment)`.
pub proof fn lemma_align_properties(value: int, alignment: int)
    requires
        value >= 0,
        alignment > 0,
    ensures
        spec_align(value, alignment) % alignment == 0,
        value <= spec_align(value, alignment) < value + alignment,
{
    let r = value % alignment;
    assert(0 <= r < alignment) by (nonlinear_arith)
        requires
            r == value % alignment,
            alignment > 0,
    ;
    if r != 0 {
        assert((value + alignment - r) % alignment == 0) by (nonlinear_arith)
            requires
                r == value % alignment,
                alignment > 0,
        ;
    }
}

/// Rounds `value` up to the next multiple of `alignment`.
pub fn align(value: usize, alignment: usize) -> (result: usize)
    requires
        alignment > 0,
        spec_align(value as int, alignment as int) <= usize::MAX,
    ensures
        result == spec_align(value as int, alignment as int),
{
    let remainder: usize = value % alignment;
    if remainder == 0 {
        value
    } else {
        value + (alignment - remainder)
    }
}

} // verus!
