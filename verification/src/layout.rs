//! The layout of an aggregate: where its base classes and members lie, and
//! the rules that such a layout has to keep.

use crate::access::AccessSpecifier;
use vstd::prelude::*;

verus! {

/// Where a bitfield lies inside its storage unit, in bits.
#[derive(Clone, Copy, Debug, PartialEq, Eq)]
pub struct BitfieldPlacement {
    pub bit_offset: u8,
    pub bit_width: u8,
}

/// A member of an aggregate. For a bitfield, `offset` and `size` are those of
/// its storage unit.
#[derive(Clone, Copy, Debug, PartialEq, Eq)]
pub struct Member {
    pub offset: u64,
    pub size: u64,
    pub bitfield: Option<BitfieldPlacement>,
    pub access: AccessSpecifier,
    pub is_static: bool,
}

/// A base class sub-object of an aggregate.
#[derive(Clone, Copy, Debug, PartialEq, Eq)]
pub struct BaseClass {
    pub offset: u64,
    pub size: u64,
    pub access: AccessSpecifier,
    pub is_virtual: bool,
}

/// The declared size of an aggregate with its base classes and its members,
/// both in declaration order.
#[derive(Debug, PartialEq, Eq)]
pub struct AggregateLayout {
    pub size: u64,
    pub bases: Vec<BaseClass>,
    pub members: Vec<Member>,
}

/// Why a layout is refused.
#[derive(Clone, Copy, Debug, PartialEq, Eq, Structural)]
pub enum LayoutError {
    /// A base class or a member reaches past the declared size.
    Truncated,
    /// A member lies in front of one declared before it.
    UnorderedOffsets,
    /// A bitfield reaches past the end of its storage unit.
    BitfieldOutsideUnit,
    /// Two bitfields of one storage unit have a bit in common.
    OverlappingBitfields,
    /// The records that a size depends on lead back to one another.
    Cyclic,
    /// A size does not fit in 64 bits.
    TooLarge,
}

/// Whether bit `bit` of the storage unit belongs to the bitfield.
pub open spec fn covers_bit(placement: BitfieldPlacement, bit: int) -> bool {
    placement.bit_offset <= bit < placement.bit_offset + placement.bit_width
}

/// One of the two bit ranges ends where the other starts, or before.
pub open spec fn ranges_disjoint(a: BitfieldPlacement, b: BitfieldPlacement) -> bool {
    a.bit_offset + a.bit_width <= b.bit_offset || b.bit_offset + b.bit_width <= a.bit_offset
}

/// Both members are bitfields of the object that lie in the same storage
/// unit: a unit of the same size at the same offset.
pub open spec fn share_unit(a: Member, b: Member) -> bool {
    &&& !a.is_static && !b.is_static
    &&& a.bitfield is Some && b.bitfield is Some
    &&& a.offset == b.offset && a.size == b.size
}

/// The member is no bitfield, or its bits lie inside its storage unit.
pub open spec fn inside_unit(member: Member) -> bool {
    match member.bitfield {
        Some(placement) => member.is_static || placement.bit_offset + placement.bit_width <= 8
            * member.size,
        None => true,
    }
}

/// Every base class and every member of the object ends at or before `size`.
pub open spec fn all_fit(size: u64, bases: Seq<BaseClass>, members: Seq<Member>) -> bool {
    &&& forall|i: int|
        0 <= i < bases.len() ==> (#[trigger] bases[i]).offset + bases[i].size <= size
    &&& forall|i: int|
        0 <= i < members.len() && !(#[trigger] members[i]).is_static ==> members[i].offset
            + members[i].size <= size
}

/// The members of the object have non-decreasing offsets in declaration
/// order.
pub open spec fn offsets_ordered(members: Seq<Member>) -> bool {
    forall|i: int, j: int|
        0 <= i < j < members.len() && !(#[trigger] members[i]).is_static && !(
        #[trigger] members[j]).is_static ==> members[i].offset <= members[j].offset
}

/// Every bitfield lies inside its storage unit.
pub open spec fn bitfields_inside_units(members: Seq<Member>) -> bool {
    forall|i: int| 0 <= i < members.len() ==> inside_unit(#[trigger] members[i])
}

/// Any two bitfields of one storage unit have disjoint bit ranges.
pub open spec fn bitfields_disjoint(members: Seq<Member>) -> bool {
    forall|i: int, j: int|
        0 <= i < j < members.len() && share_unit(#[trigger] members[i], #[trigger] members[j])
            ==> ranges_disjoint(members[i].bitfield->0, members[j].bitfield->0)
}

impl AggregateLayout {
    /// The layout keeps all four rules.
    pub open spec fn valid(&self) -> bool {
        &&& all_fit(self.size, self.bases@, self.members@)
        &&& offsets_ordered(self.members@)
        &&& bitfields_inside_units(self.members@)
        &&& bitfields_disjoint(self.members@)
    }

    /// What `check` answers: `Ok` where no rule is broken, else the first
    /// broken rule in this order: reach, order of offsets, bitfields inside
    /// their units, bitfields apart.
    pub open spec fn verdict(&self) -> Result<(), LayoutError> {
        if !all_fit(self.size, self.bases@, self.members@) {
            Err(LayoutError::Truncated)
        } else if !offsets_ordered(self.members@) {
            Err(LayoutError::UnorderedOffsets)
        } else if !bitfields_inside_units(self.members@) {
            Err(LayoutError::BitfieldOutsideUnit)
        } else if !bitfields_disjoint(self.members@) {
            Err(LayoutError::OverlappingBitfields)
        } else {
            Ok(())
        }
    }

    /// Holds the layout to its rules and names the first one that is broken.
    pub fn check(&self) -> (result: Result<(), LayoutError>)
        ensures
            result == self.verdict(),
            result is Ok <==> self.valid(),
    {
        if !fits(self.size, &self.bases, &self.members) {
            Err(LayoutError::Truncated)
        } else if !has_ordered_offsets(&self.members) {
            Err(LayoutError::UnorderedOffsets)
        } else if !has_bitfields_inside_units(&self.members) {
            Err(LayoutError::BitfieldOutsideUnit)
        } else if !has_disjoint_bitfields(&self.members) {
            Err(LayoutError::OverlappingBitfields)
        } else {
            Ok(())
        }
    }
}

/// Tells whether a sub-object of `size` bytes at `offset` ends at or before
/// `total`.
pub fn ends_within(offset: u64, size: u64, total: u64) -> (within: bool)
    ensures
        within == (offset + size <= total),
{
    offset <= total && size <= total - offset
}

/// Tells whether every base class and every member of the object ends at or
/// before `size`.
pub fn fits(size: u64, bases: &Vec<BaseClass>, members: &Vec<Member>) -> (ok: bool)
    ensures
        ok == all_fit(size, bases@, members@),
{
    let mut i: usize = 0;
    while i < bases.len()
        invariant
            i <= bases.len(),
            forall|k: int| 0 <= k < i ==> (#[trigger] bases@[k]).offset + bases@[k].size <= size,
        decreases bases.len() - i,
    {
        if !ends_within(bases[i].offset, bases[i].size, size) {
            return false;
        }
        i += 1;
    }
    let mut j: usize = 0;
    while j < members.len()
        invariant
            j <= members.len(),
            forall|k: int|
                0 <= k < bases.len() ==> (#[trigger] bases@[k]).offset + bases@[k].size <= size,
            forall|k: int|
                0 <= k < j && !(#[trigger] members@[k]).is_static ==> members@[k].offset
                    + members@[k].size <= size,
        decreases members.len() - j,
    {
        if !members[j].is_static && !ends_within(members[j].offset, members[j].size, size) {
            return false;
        }
        j += 1;
    }
    true
}

/// Tells whether the members of the object have non-decreasing offsets in
/// declaration order.
pub fn has_ordered_offsets(members: &Vec<Member>) -> (ok: bool)
    ensures
        ok == offsets_ordered(members@),
{
    let mut last: u64 = 0;
    let ghost mut at: int = 0;
    let mut i: usize = 0;
    while i < members.len()
        invariant
            i <= members.len(),
            offsets_ordered(members@.take(i as int)),
            forall|k: int|
                0 <= k < i && !(#[trigger] members@[k]).is_static ==> members@[k].offset <= last,
            last > 0 ==> 0 <= at < i && !members@[at].is_static && members@[at].offset == last,
        decreases members.len() - i,
    {
        if !members[i].is_static {
            if members[i].offset < last {
                return false;
            }
            last = members[i].offset;
            proof {
                at = i as int;
            }
        }
        proof {
            let shorter = members@.take(i as int);
            let longer = members@.take(i + 1);
            assert forall|a: int, b: int|
                0 <= a < b < longer.len() && !(#[trigger] longer[a]).is_static && !(
                #[trigger] longer[b]).is_static implies longer[a].offset <= longer[b].offset by {
                if b < i {
                    assert(shorter[a].offset <= shorter[b].offset);
                }
            }
        }
        i += 1;
    }
    assert(members@.take(i as int) =~= members@);
    true
}

/// Tells whether every bitfield lies inside its storage unit.
pub fn has_bitfields_inside_units(members: &Vec<Member>) -> (ok: bool)
    ensures
        ok == bitfields_inside_units(members@),
{
    let mut i: usize = 0;
    while i < members.len()
        invariant
            i <= members.len(),
            forall|k: int| 0 <= k < i ==> inside_unit(#[trigger] members@[k]),
        decreases members.len() - i,
    {
        if !is_inside_unit(&members[i]) {
            return false;
        }
        i += 1;
    }
    true
}

/// Tells whether the member is no bitfield, or its bits lie inside its
/// storage unit.
pub fn is_inside_unit(member: &Member) -> (ok: bool)
    ensures
        ok == inside_unit(*member),
{
    match member.bitfield {
        Some(placement) => {
            let end: u64 = placement.bit_offset as u64 + placement.bit_width as u64;
            member.is_static || member.size >= 64 || end <= 8 * member.size
        },
        None => true,
    }
}

/// Tells whether the two bit ranges have no bit in common.
pub fn are_disjoint(a: &BitfieldPlacement, b: &BitfieldPlacement) -> (ok: bool)
    ensures
        ok == ranges_disjoint(*a, *b),
{
    a.bit_offset as u16 + a.bit_width as u16 <= b.bit_offset as u16 || b.bit_offset as u16
        + b.bit_width as u16 <= a.bit_offset as u16
}

/// Tells whether two members are bitfields of the same storage unit that
/// have a bit in common.
pub fn clash(a: &Member, b: &Member) -> (clashing: bool)
    ensures
        clashing == (share_unit(*a, *b) && !ranges_disjoint(a.bitfield->0, b.bitfield->0)),
{
    if a.is_static || b.is_static || a.offset != b.offset || a.size != b.size {
        return false;
    }
    match (a.bitfield, b.bitfield) {
        (Some(first), Some(second)) => !are_disjoint(&first, &second),
        _ => false,
    }
}

/// Tells whether any two bitfields of one storage unit have disjoint bit
/// ranges.
pub fn has_disjoint_bitfields(members: &Vec<Member>) -> (ok: bool)
    ensures
        ok == bitfields_disjoint(members@),
{
    let mut i: usize = 0;
    while i < members.len()
        invariant
            i <= members.len(),
            forall|a: int, b: int|
                0 <= a < i && a < b < members.len() && share_unit(
                    #[trigger] members@[a],
                    #[trigger] members@[b],
                ) ==> ranges_disjoint(members@[a].bitfield->0, members@[b].bitfield->0),
        decreases members.len() - i,
    {
        let mut j: usize = i + 1;
        while j < members.len()
            invariant
                i < members.len(),
                i < j <= members.len(),
                forall|b: int|
                    i < b < j && share_unit(members@[i as int], #[trigger] members@[b])
                        ==> ranges_disjoint(
                        members@[i as int].bitfield->0,
                        members@[b].bitfield->0,
                    ),
            decreases members.len() - j,
        {
            if clash(&members[i], &members[j]) {
                return false;
            }
            j += 1;
        }
        i += 1;
    }
    true
}

/// In a valid layout the members of the object come at non-decreasing
/// offsets: one declared later never lies in front of one declared earlier.
pub proof fn lemma_valid_offsets_never_decrease(layout: AggregateLayout, i: int, j: int)
    requires
        layout.valid(),
        0 <= i <= j < layout.members@.len(),
        !layout.members@[i].is_static,
        !layout.members@[j].is_static,
    ensures
        layout.members@[i].offset <= layout.members@[j].offset,
{
}

/// In a valid layout no bit of a storage unit belongs to two of its
/// bitfields.
pub proof fn lemma_valid_bitfields_share_no_bit(layout: AggregateLayout, i: int, j: int, bit: int)
    requires
        layout.valid(),
        0 <= i < layout.members@.len(),
        0 <= j < layout.members@.len(),
        i != j,
        share_unit(layout.members@[i], layout.members@[j]),
    ensures
        !(covers_bit(layout.members@[i].bitfield->0, bit) && covers_bit(
            layout.members@[j].bitfield->0,
            bit,
        )),
{
    if i < j {
        assert(ranges_disjoint(layout.members@[i].bitfield->0, layout.members@[j].bitfield->0));
    } else {
        assert(share_unit(layout.members@[j], layout.members@[i]));
        assert(ranges_disjoint(layout.members@[j].bitfield->0, layout.members@[i].bitfield->0));
    }
}

} // verus!
