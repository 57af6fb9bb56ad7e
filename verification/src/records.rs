//! Type records held in an arena and found by index, the byte size of a
//! record, and the lookup of a root type by its qualified name.

use crate::enumeration::Enumerator;
use crate::layout::{AggregateLayout, LayoutError};
use vstd::prelude::*;
use vstd::string::*;

verus! {

/// One decoded type record. A record names another by its index in the
/// arena, never by a direct link.
#[derive(Debug, PartialEq, Eq)]
pub enum TypeRecord {
    Primitive { size: u64, signed: bool },
    Pointer { pointee: usize, size: u64 },
    Array { element: usize, count: u64 },
    Modifier { wrapped: usize, is_const: bool, is_volatile: bool },
    Enum { underlying: usize, enumerators: Vec<Enumerator> },
    Bitfield { storage: usize, bit_offset: u8, bit_width: u8 },
    Procedure { return_type: usize },
    Aggregate { layout: AggregateLayout, forward_declaration: bool },
    VTableShape { slots: u32 },
    Unknown,
}

/// A record in the arena with the qualified name of its type (empty where
/// the type has none) and the indices of the types that its members, bases
/// and parameters refer to.
#[derive(Debug, PartialEq, Eq)]
pub struct TypeEntry {
    pub name: String,
    pub record: TypeRecord,
    pub dependencies: Vec<usize>,
}

/// The records of the arena, by index.
pub open spec fn records_of(entries: Seq<TypeEntry>) -> Seq<TypeRecord> {
    entries.map_values(|entry: TypeEntry| entry.record)
}

/// The record only says that a type of this name exists; the type is
/// defined by another record.
pub open spec fn forward_only(record: TypeRecord) -> bool {
    match record {
        TypeRecord::Aggregate { forward_declaration, .. } => forward_declaration,
        _ => false,
    }
}

/// The entry defines the type called `name`: it has that very name, and its
/// record is more than a forward declaration.
pub open spec fn answers_to(entry: TypeEntry, name: Seq<char>) -> bool {
    entry.name@ == name && !forward_only(entry.record)
}

/// Why a reconstruction request fails.
#[derive(Clone, Copy, Debug, PartialEq, Eq)]
pub enum ReconstructError {
    /// No record defines a type of the name asked for.
    NotFound,
    /// More than one record defines a type of the name asked for.
    Ambiguous,
    /// The layout of a type could not be worked out.
    LayoutFailed(LayoutError),
    /// A record names an index at which there is no record.
    UnresolvedReference,
}

/// How a record's size comes about: it is known from the record itself, or
/// it is so many times the size of another record.
pub enum SizeStep {
    Known { size: u64 },
    Times { count: u64, of: usize },
}

/// Primitives, pointers and aggregates carry their size; a pointer's size
/// does not depend on what it points to. An array is `count` times its
/// element. A modifier, an enum and a bitfield have the size of the type
/// they wrap, rest on, or are stored in. What has no storage has size 0.
pub open spec fn size_step(record: TypeRecord) -> SizeStep {
    match record {
        TypeRecord::Primitive { size, .. } => SizeStep::Known { size },
        TypeRecord::Pointer { size, .. } => SizeStep::Known { size },
        TypeRecord::Aggregate { layout, .. } => SizeStep::Known { size: layout.size },
        TypeRecord::Array { element, count } => SizeStep::Times { count, of: element },
        TypeRecord::Modifier { wrapped, .. } => SizeStep::Times { count: 1, of: wrapped },
        TypeRecord::Enum { underlying, .. } => SizeStep::Times { count: 1, of: underlying },
        TypeRecord::Bitfield { storage, .. } => SizeStep::Times { count: 1, of: storage },
        TypeRecord::Procedure { .. } | TypeRecord::VTableShape { .. } | TypeRecord::Unknown =>
            SizeStep::Known { size: 0 },
    }
}

/// `factor` times the size of the record at `index`, where at most `steps`
/// records may be passed through on the way to one that carries its size.
pub open spec fn scaled_size(records: Seq<TypeRecord>, index: usize, factor: u64, steps: nat)
    -> Result<u64, ReconstructError>
    decreases steps,
{
    if index >= records.len() {
        Err(ReconstructError::UnresolvedReference)
    } else {
        match size_step(records[index as int]) {
            SizeStep::Known { size } => if factor * size <= u64::MAX {
                Ok((factor * size) as u64)
            } else {
                Err(ReconstructError::LayoutFailed(LayoutError::TooLarge))
            },
            SizeStep::Times { count, of } => if steps == 0 {
                Err(ReconstructError::LayoutFailed(LayoutError::Cyclic))
            } else if factor * count > u64::MAX {
                Err(ReconstructError::LayoutFailed(LayoutError::TooLarge))
            } else {
                scaled_size(records, of, (factor * count) as u64, (steps - 1) as nat)
            },
        }
    }
}

/// The size in bytes of the record at `index`. A path through as many
/// records as the arena holds has passed through one of them twice, so it is
/// taken for a cycle.
pub open spec fn size_of_record(records: Seq<TypeRecord>, index: usize) -> Result<
    u64,
    ReconstructError,
> {
    scaled_size(records, index, 1, records.len())
}

/// Tells how the size of a record comes about.
pub fn step_of(record: &TypeRecord) -> (step: SizeStep)
    ensures
        step == size_step(*record),
{
    match record {
        TypeRecord::Primitive { size, .. } => SizeStep::Known { size: *size },
        TypeRecord::Pointer { size, .. } => SizeStep::Known { size: *size },
        TypeRecord::Aggregate { layout, .. } => SizeStep::Known { size: layout.size },
        TypeRecord::Array { element, count } => SizeStep::Times { count: *count, of: *element },
        TypeRecord::Modifier { wrapped, .. } => SizeStep::Times { count: 1, of: *wrapped },
        TypeRecord::Enum { underlying, .. } => SizeStep::Times { count: 1, of: *underlying },
        TypeRecord::Bitfield { storage, .. } => SizeStep::Times { count: 1, of: *storage },
        TypeRecord::Procedure { .. } => SizeStep::Known { size: 0 },
        TypeRecord::VTableShape { .. } => SizeStep::Known { size: 0 },
        TypeRecord::Unknown => SizeStep::Known { size: 0 },
    }
}

/// Works out the size in bytes of the record at `index`. Fails with
/// `UnresolvedReference` where an index leads outside the arena, with
/// `Cyclic` where the records lead back to one another, and with `TooLarge`
/// where the size does not fit.
pub fn size_of(entries: &Vec<TypeEntry>, index: usize) -> (size: Result<u64, ReconstructError>)
    ensures
        size == size_of_record(records_of(entries@), index),
{
    let ghost records = records_of(entries@);
    let mut current: usize = index;
    let mut factor: u64 = 1;
    let mut steps: usize = entries.len();
    loop
        invariant
            steps <= entries.len(),
            records == records_of(entries@),
            size_of_record(records, index) == scaled_size(records, current, factor, steps as nat),
        decreases steps,
    {
        if current >= entries.len() {
            return Err(ReconstructError::UnresolvedReference);
        }
        assert(records[current as int] == entries@[current as int].record);
        match step_of(&entries[current].record) {
            SizeStep::Known { size } => {
                return match factor.checked_mul(size) {
                    Some(total) => Ok(total),
                    None => Err(ReconstructError::LayoutFailed(LayoutError::TooLarge)),
                };
            },
            SizeStep::Times { count, of } => {
                if steps == 0 {
                    return Err(ReconstructError::LayoutFailed(LayoutError::Cyclic));
                }
                match factor.checked_mul(count) {
                    Some(scaled) => {
                        factor = scaled;
                        current = of;
                        steps -= 1;
                    },
                    None => {
                        return Err(ReconstructError::LayoutFailed(LayoutError::TooLarge));
                    },
                }
            },
        }
    }
}

/// A pointer has its own size whatever it points to, so a cycle that passes
/// through a pointer does not stand in the way of a size.
pub proof fn lemma_pointer_size_ignores_pointee(
    records: Seq<TypeRecord>,
    index: usize,
    pointee: usize,
    size: u64,
)
    requires
        index < records.len(),
        records[index as int] == (TypeRecord::Pointer { pointee, size }),
    ensures
        size_of_record(records, index) == Ok::<u64, ReconstructError>(size),
{
    assert(1 * size == size);
}

/// A record that wraps itself without a pointer in between has no size: the
/// request fails with `Cyclic`.
pub proof fn lemma_self_reference_is_cyclic(records: Seq<TypeRecord>, index: usize, steps: nat)
    requires
        index < records.len(),
        size_step(records[index as int]) == (SizeStep::Times { count: 1, of: index }),
    ensures
        scaled_size(records, index, 1, steps) == Err::<u64, ReconstructError>(
            ReconstructError::LayoutFailed(LayoutError::Cyclic),
        ),
    decreases steps,
{
    if steps > 0 {
        assert(1 * 1 == 1);
        lemma_self_reference_is_cyclic(records, index, (steps - 1) as nat);
    }
}

/// The entry at `index`; `None` where the arena has none there.
pub fn by_index(entries: &Vec<TypeEntry>, index: usize) -> (entry: Option<&TypeEntry>)
    ensures
        entry is Some <==> index < entries@.len(),
        entry is Some ==> *entry->0 == entries@[index as int],
{
    if index < entries.len() {
        Some(&entries[index])
    } else {
        None
    }
}

/// The indices below `n` of the entries that define the type called `name`,
/// in rising order.
pub open spec fn positions_of(entries: Seq<TypeEntry>, name: Seq<char>, n: int) -> Seq<usize>
    decreases n,
{
    if n <= 0 {
        Seq::empty()
    } else if answers_to(entries[n - 1], name) {
        positions_of(entries, name, n - 1).push((n - 1) as usize)
    } else {
        positions_of(entries, name, n - 1)
    }
}

/// The root that a name stands for: the index of the one entry that defines
/// a type of that name; `NotFound` where there is none, `Ambiguous` where
/// there are several.
pub open spec fn root_of(entries: Seq<TypeEntry>, name: Seq<char>) -> Result<
    usize,
    ReconstructError,
> {
    let found = positions_of(entries, name, entries.len() as int);
    if found.len() == 0 {
        Err(ReconstructError::NotFound)
    } else if found.len() == 1 {
        Ok(found[0])
    } else {
        Err(ReconstructError::Ambiguous)
    }
}

/// Every index found is of an entry that defines the type, the indices
/// rise, and every entry that defines the type is found. This is said of an
/// arena that fits in memory.
pub proof fn lemma_positions_of(entries: Seq<TypeEntry>, name: Seq<char>, n: int)
    requires
        0 <= n <= entries.len() <= usize::MAX,
    ensures
        forall|k: int|
            0 <= k < positions_of(entries, name, n).len() ==> {
                let at = #[trigger] positions_of(entries, name, n)[k];
                0 <= at < n && answers_to(entries[at as int], name)
            },
        forall|k: int, l: int|
            0 <= k < l < positions_of(entries, name, n).len() ==> positions_of(entries, name, n)[k]
                < positions_of(entries, name, n)[l],
        forall|i: int|
            0 <= i < n && answers_to(#[trigger] entries[i], name) ==> positions_of(
                entries,
                name,
                n,
            ).contains(i as usize),
    decreases n,
{
    let found = positions_of(entries, name, n);
    if n > 0 {
        lemma_positions_of(entries, name, n - 1);
        let before = positions_of(entries, name, n - 1);
        assert forall|i: int|
            0 <= i < n && answers_to(#[trigger] entries[i], name) implies found.contains(
            i as usize,
        ) by {
            if i < n - 1 {
                let k = choose|k: int| 0 <= k < before.len() && #[trigger] before[k] == i as usize;
                assert(found[k] == i as usize);
            } else {
                assert(found[found.len() - 1] == i as usize);
            }
        }
    }
}

/// Tells whether the record is a forward declaration and no more.
pub fn is_forward_only(record: &TypeRecord) -> (forward: bool)
    ensures
        forward == forward_only(*record),
{
    match record {
        TypeRecord::Aggregate { forward_declaration, .. } => *forward_declaration,
        _ => false,
    }
}

/// The indices of the entries that define the type called `name`, in rising
/// order.
pub fn find_by_name(entries: &Vec<TypeEntry>, name: &str) -> (found: Vec<usize>)
    ensures
        found@ == positions_of(entries@, name@, entries@.len() as int),
{
    let wanted = String::from_str(name);
    let mut found: Vec<usize> = Vec::new();
    let mut i: usize = 0;
    while i < entries.len()
        invariant
            i <= entries.len(),
            wanted@ == name@,
            found@ == positions_of(entries@, name@, i as int),
        decreases entries.len() - i,
    {
        if entries[i].name == wanted && !is_forward_only(&entries[i].record) {
            found.push(i);
        }
        i += 1;
    }
    found
}

/// Resolves the root of a request: the index of the one entry that defines a
/// type of that name. No match and several matches are told apart.
pub fn resolve_root(entries: &Vec<TypeEntry>, name: &str) -> (root: Result<
    usize,
    ReconstructError,
>)
    ensures
        root == root_of(entries@, name@),
{
    let found = find_by_name(entries, name);
    if found.len() == 0 {
        Err(ReconstructError::NotFound)
    } else if found.len() == 1 {
        Ok(found[0])
    } else {
        Err(ReconstructError::Ambiguous)
    }
}

} // verus!
