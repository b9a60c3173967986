use vstd::prelude::*;

verus! {

/// Bytes in the arena of the bump allocator.
pub const ARENA_SIZE: usize = 131072;

/// The largest alignment that the allocator serves.
pub const MAX_SUPPORTED_ALIGN: usize = 4096;

/// `align` is a power of two.
pub open spec fn is_power_of_two(align: usize) -> bool {
    align > 0 && align & ((align - 1) as usize) == 0
}

/// The offset of a block of `size` bytes aligned to `align` carved from the top of `remaining`
/// free bytes: the free top moved down by `size`, then rounded down to the alignment.
pub open spec fn carve(remaining: usize, size: usize, align: usize) -> usize {
    ((remaining - size) as usize) & !((align - 1) as usize)
}

proof fn lemma_carve_bounds(remaining: usize, size: usize, align: usize)
    requires
        size <= remaining,
    ensures
        carve(remaining, size, align) <= remaining - size,
{
    let below = (remaining - size) as usize;
    let m = (align - 1) as usize;
    assert(below & !m <= below) by (bit_vector);
}

/// Blocks from successive allocations do not overlap: the second block ends at or below the
/// start of the first, and the first block ends within the free bytes it was carved from.
pub proof fn lemma_successive_blocks_disjoint(
    remaining: usize,
    size1: usize,
    align1: usize,
    size2: usize,
    align2: usize,
)
    requires
        size1 <= remaining,
        size2 <= carve(remaining, size1, align1),
    ensures
        carve(remaining, size1, align1) + size1 <= remaining,
        carve(carve(remaining, size1, align1), size2, align2) + size2 <= carve(
            remaining,
            size1,
            align1,
        ),
{
    lemma_carve_bounds(remaining, size1, align1);
    lemma_carve_bounds(carve(remaining, size1, align1), size2, align2);
}

/// Where a bump allocator that hands out memory from the top of its arena down places a block
/// of `size` bytes aligned to `align`, when `remaining` bytes are still free below: the new
/// offset of the free top, which is also the offset of the block, or `None` when the request
/// cannot be served (an alignment above the supported one, or too few free bytes).
pub fn next_remaining(remaining: usize, size: usize, align: usize) -> (r: Option<usize>)
    requires
        is_power_of_two(align),
    ensures
        align > MAX_SUPPORTED_ALIGN || size > remaining <==> r is None,
        r is Some ==> r.unwrap() == carve(remaining, size, align),
        r is Some ==> r.unwrap() <= remaining - size,
        r is Some ==> remaining - size - r.unwrap() < align,
        r is Some ==> r.unwrap() & ((align - 1) as usize) == 0,
{
    let align_mask_to_round_down = !(align - 1);
    if align > MAX_SUPPORTED_ALIGN {
        return None;
    }
    if size > remaining {
        return None;
    }
    let below = remaining - size;
    let allocated = below & align_mask_to_round_down;
    let m = align - 1;
    assert(allocated <= below && below - allocated <= m && allocated & m == 0) by (bit_vector)
        requires
            allocated == below & !m,
    ;
    assert(m < align);
    Some(allocated)
}

} // verus!
