//! The offset aligner: pure arithmetic that reconciles a requested
//! (offset, length) pair with the platform's page-alignment requirement.
//!
//! Native mapping calls require the starting offset to be a multiple of the
//! page size. Shifting the window back by `offset % page_size` and growing
//! the requested length by the same amount keeps full coverage of the
//! caller's logical byte range while satisfying that constraint.

use vstd::prelude::*;
use vstd::arithmetic::div_mod::{
    lemma_div_pos_is_pos,
    lemma_fundamental_div_mod,
    lemma_mod_division_less_than_divisor,
    lemma_mod_multiples_basic,
};

use crate::FileMapError;
use crate::FileMapResult;

verus! {

/// The distance between the page-aligned start and the requested offset.
pub open spec fn padding_for(offset: int, page_size: int) -> int {
    offset % page_size
}

/// The page-aligned start: the requested offset shifted back by the padding.
pub open spec fn aligned_offset_for(offset: int, page_size: int) -> int {
    offset - padding_for(offset, page_size)
}

/// The mapped length: the requested length grown by the padding, so the
/// window still ends at `offset + length`.
pub open spec fn aligned_length_for(offset: int, length: int, page_size: int) -> int {
    length + padding_for(offset, page_size)
}

/// Reconciles a requested offset and length with the page size: fails with
/// `InvalidLength` exactly when `length == 0`, and otherwise returns the
/// page-aligned offset, the padding, and the padded length.
pub fn round_offset(offset: usize, length: usize, page_size: usize) -> (r: FileMapResult<
    (usize, usize, usize),
>)
    requires
        page_size > 0,
        offset + length <= usize::MAX,
    ensures
        length == 0 <==> r == Err::<(usize, usize, usize), FileMapError>(
            FileMapError::InvalidLength,
        ),
        length > 0 ==> (r matches Ok(t) && {
            &&& t.0 == aligned_offset_for(offset as int, page_size as int)
            &&& t.1 == padding_for(offset as int, page_size as int)
            &&& t.2 == aligned_length_for(offset as int, length as int, page_size as int)
            &&& t.0 % page_size == 0
            &&& 0 <= t.1 < page_size
            &&& t.0 + t.1 == offset
            &&& t.2 == length + t.1
        }),
{
    if length == 0 {
        return Err(FileMapError::InvalidLength);
    }
    proof {
        let off = offset as int;
        let ps = page_size as int;
        lemma_mod_division_less_than_divisor(off, ps);
        lemma_fundamental_div_mod(off, ps);
        lemma_div_pos_is_pos(off, ps);
        lemma_mod_multiples_basic(off / ps, ps);
        assert(off - off % ps == (off / ps) * ps);
        assert((off - off % ps) % ps == 0);
        assert(off % ps <= off);
    }
    let padding = offset % page_size;
    let new_offset = offset - padding;
    let new_length = length + padding;
    Ok((new_offset, padding, new_length))
}

} // verus!
