//! Where the sub-objects of an aggregate are placed when their offsets have
//! to be worked out: base classes first, then members, each at the next
//! offset that its alignment allows.

use crate::layout::LayoutError;
use vstd::arithmetic::div_mod::{lemma_fundamental_div_mod, lemma_mod_multiples_basic};
use vstd::prelude::*;

verus! {

/// The size and the alignment of one sub-object, in bytes. An alignment of 0
/// asks for nothing, as an alignment of 1 does.
#[derive(Clone, Copy, Debug, PartialEq, Eq)]
pub struct FieldShape {
    pub size: u64,
    pub alignment: u64,
}

/// The first offset at or behind `offset` that is a multiple of
/// `alignment`.
pub open spec fn aligned_up(offset: int, alignment: int) -> int {
    if alignment <= 0 || offset % alignment == 0 {
        offset
    } else {
        offset + alignment - offset % alignment
    }
}

/// The offset at which sub-object `i` is placed: the first one behind the
/// end of the sub-object before it that its alignment allows. The first
/// sub-object is placed at 0.
pub open spec fn placed_offset(fields: Seq<FieldShape>, i: int) -> int
    decreases i,
{
    if i <= 0 {
        0
    } else {
        aligned_up(
            placed_offset(fields, i - 1) + fields[i - 1].size,
            fields[i].alignment as int,
        )
    }
}

/// Every one of the first `n` sub-objects ends at or below the largest
/// offset there is.
pub open spec fn placement_fits(fields: Seq<FieldShape>, n: int) -> bool {
    forall|i: int| 0 <= i < n ==> #[trigger] placed_offset(fields, i) + fields[i].size <= u64::MAX
}

/// The aligned offset is a multiple of the alignment, it is not in front of
/// the offset, and it is the first such offset: less than one alignment
/// lies between the two.
pub proof fn lemma_aligned_up(offset: int, alignment: int)
    requires
        0 <= offset,
        0 < alignment,
    ensures
        aligned_up(offset, alignment) % alignment == 0,
        offset <= aligned_up(offset, alignment) < offset + alignment,
{
    if offset % alignment != 0 {
        lemma_fundamental_div_mod(offset, alignment);
        let quotient = offset / alignment;
        assert(offset + alignment - offset % alignment == (quotient + 1) * alignment)
            by (nonlinear_arith)
            requires
                offset == alignment * quotient + offset % alignment,
        ;
        lemma_mod_multiples_basic(quotient + 1, alignment);
        assert(0 < offset % alignment < alignment) by (nonlinear_arith)
            requires
                0 <= offset,
                0 < alignment,
                offset % alignment != 0,
        ;
    }
}

/// Sub-objects are placed in declaration order without overlap: each one
/// starts at or behind the end of the one before, on a multiple of its
/// alignment, with less than one alignment of padding in front of it.
pub proof fn lemma_placement(fields: Seq<FieldShape>, i: int)
    requires
        0 < i < fields.len(),
    ensures
        placed_offset(fields, i - 1) >= 0,
        placed_offset(fields, i) >= placed_offset(fields, i - 1) + fields[i - 1].size,
        fields[i].alignment > 0 ==> placed_offset(fields, i) % (fields[i].alignment as int) == 0
            && placed_offset(fields, i) < placed_offset(fields, i - 1) + fields[i - 1].size
            + fields[i].alignment,
    decreases i,
{
    if i > 1 {
        lemma_placement(fields, i - 1);
    }
    if fields[i].alignment > 0 {
        lemma_aligned_up(
            placed_offset(fields, i - 1) + fields[i - 1].size,
            fields[i].alignment as int,
        );
    }
}

/// Offsets worked out by placement never decrease in declaration order.
pub proof fn lemma_placed_offsets_never_decrease(fields: Seq<FieldShape>, i: int, j: int)
    requires
        0 <= i <= j < fields.len(),
    ensures
        0 <= placed_offset(fields, i) <= placed_offset(fields, j),
    decreases j - i,
{
    if i < j {
        lemma_placed_offsets_never_decrease(fields, i, j - 1);
        lemma_placement(fields, j);
    } else if i > 0 {
        lemma_placement(fields, i);
    }
}

/// The first offset at or behind `offset` that is a multiple of `alignment`;
/// `None` where there is none that fits in 64 bits.
pub fn align_up(offset: u64, alignment: u64) -> (aligned: Option<u64>)
    ensures
        aligned == if aligned_up(offset as int, alignment as int) <= u64::MAX {
            Some(aligned_up(offset as int, alignment as int) as u64)
        } else {
            None
        },
{
    if alignment == 0 {
        return Some(offset);
    }
    let over: u64 = offset % alignment;
    if over == 0 {
        Some(offset)
    } else {
        offset.checked_add(alignment - over)
    }
}

/// Places sub-objects in declaration order and gives their offsets. Fails
/// with `TooLarge` where one of them would end past the largest offset
/// there is.
pub fn place_fields(fields: &Vec<FieldShape>) -> (result: Result<Vec<u64>, LayoutError>)
    ensures
        result is Ok <==> placement_fits(fields@, fields@.len() as int),
        result is Err ==> result == Err::<Vec<u64>, LayoutError>(LayoutError::TooLarge),
        result is Ok ==> result->Ok_0@.len() == fields@.len() && forall|i: int|
            0 <= i < fields@.len() ==> (#[trigger] result->Ok_0@[i]) as int == placed_offset(
                fields@,
                i,
            ),
{
    let mut offsets: Vec<u64> = Vec::new();
    let mut end: u64 = 0;
    let mut i: usize = 0;
    while i < fields.len()
        invariant
            i <= fields.len(),
            offsets@.len() == i,
            placement_fits(fields@, i as int),
            forall|k: int|
                0 <= k < i ==> (#[trigger] offsets@[k]) as int == placed_offset(fields@, k),
            i == 0 ==> end == 0,
            i > 0 ==> end as int == placed_offset(fields@, i - 1) + fields@[i - 1].size,
        decreases fields.len() - i,
    {
        let offset = match align_up(end, fields[i].alignment) {
            Some(offset) => offset,
            None => {
                assert(placed_offset(fields@, i as int) + fields@[i as int].size > u64::MAX);
                return Err(LayoutError::TooLarge);
            },
        };
        assert(offset as int == placed_offset(fields@, i as int));
        end = match offset.checked_add(fields[i].size) {
            Some(end) => end,
            None => {
                assert(placed_offset(fields@, i as int) + fields@[i as int].size > u64::MAX);
                return Err(LayoutError::TooLarge);
            },
        };
        offsets.push(offset);
        i += 1;
    }
    Ok(offsets)
}

} // verus!
