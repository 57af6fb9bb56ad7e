//! The order in which declarations are emitted: every type in front of the
//! types that refer to it, with a forward declaration where types refer to
//! one another in a circle.

use crate::dependencies::{in_std_namespace, is_std_name};
use crate::records::{ReconstructError, TypeEntry};
use vstd::prelude::*;

verus! {

/// One declaration to emit, by the index of its type.
#[derive(Clone, Copy, Debug, PartialEq, Eq)]
pub enum Emission {
    /// The name of the type alone, so that others may refer to it before it
    /// is defined.
    Forward(usize),
    /// The whole declaration.
    Full(usize),
}

/// How far the walk has come with a type.
#[derive(Clone, Copy, Debug, PartialEq, Eq, Structural)]
pub enum Mark {
    /// Not reached yet.
    Unseen,
    /// Reached; the types it refers to are being emitted.
    Open,
    /// Reached again from a type it refers to, and declared forward.
    Forwarded,
    /// Emitted in full.
    Done,
}

/// The state of a walk: the mark of every type, what was emitted so far, and
/// whether an index was met at which the arena has no record.
pub struct Walk {
    pub marks: Seq<Mark>,
    pub out: Seq<Emission>,
    pub dangling: bool,
}

/// The type that an emission is for.
pub open spec fn emission_type(emission: Emission) -> usize {
    match emission {
        Emission::Forward(index) => index,
        Emission::Full(index) => index,
    }
}

/// Whether the type at `index` is left out as a dependency: standard-library
/// types are ignored and its name falls under their namespace.
pub open spec fn elided(entries: Seq<TypeEntry>, index: usize, ignore_std_types: bool) -> bool {
    index < entries.len() && ignore_std_types && in_std_namespace(entries[index as int].name@)
}

/// The walk after the type at `node` was reached. A type that is done, or
/// open and declared forward already, changes nothing. An index without a
/// record is noted and nothing is emitted for it. An open type is
/// declared forward: the walk has come back to it in a circle. A type not
/// seen before is opened, the types it refers to are reached one after the
/// other, and then it is emitted in full. `depth` bounds how many types may
/// be open at once.
pub open spec fn reached(
    entries: Seq<TypeEntry>,
    node: usize,
    walk: Walk,
    depth: nat,
    ignore_std_types: bool,
) -> Walk
    decreases depth, 0nat,
{
    if node >= entries.len() {
        Walk { dangling: true, ..walk }
    } else if node >= walk.marks.len() {
        walk
    } else {
        match walk.marks[node as int] {
            Mark::Done | Mark::Forwarded => walk,
            Mark::Open => Walk {
                marks: walk.marks.update(node as int, Mark::Forwarded),
                out: walk.out.push(Emission::Forward(node)),
                ..walk
            },
            Mark::Unseen => if depth == 0 {
                walk
            } else {
                let opened = Walk { marks: walk.marks.update(node as int, Mark::Open), ..walk };
                let after = reached_all(
                    entries,
                    node,
                    0,
                    opened,
                    (depth - 1) as nat,
                    ignore_std_types,
                );
                Walk {
                    marks: after.marks.update(node as int, Mark::Done),
                    out: after.out.push(Emission::Full(node)),
                    ..after
                }
            },
        }
    }
}

/// The walk after the types that `owner` refers to, from the `k`-th on, were
/// reached in the order in which `owner` lists them, those left out that are
/// elided.
pub open spec fn reached_all(
    entries: Seq<TypeEntry>,
    owner: usize,
    k: nat,
    walk: Walk,
    depth: nat,
    ignore_std_types: bool,
) -> Walk
    decreases depth, entries[owner as int].dependencies@.len() - k + 1,
{
    let listed = entries[owner as int].dependencies@;
    if k >= listed.len() {
        walk
    } else if elided(entries, listed[k as int], ignore_std_types) {
        reached_all(entries, owner, k + 1, walk, depth, ignore_std_types)
    } else {
        reached_all(
            entries,
            owner,
            k + 1,
            reached(entries, listed[k as int], walk, depth, ignore_std_types),
            depth,
            ignore_std_types,
        )
    }
}

/// The walk before any type was reached.
pub open spec fn fresh_walk(entries: Seq<TypeEntry>) -> Walk {
    Walk {
        marks: Seq::new(entries.len(), |i: int| Mark::Unseen),
        out: Seq::empty(),
        dangling: false,
    }
}

/// The whole walk from `root`. As many types may be open at once as the
/// arena holds.
pub open spec fn emission_walk(entries: Seq<TypeEntry>, root: usize, ignore_std_types: bool)
    -> Walk {
    reached(entries, root, fresh_walk(entries), entries.len(), ignore_std_types)
}

/// The declarations emitted for `root` with its dependencies, in order.
pub open spec fn emission_order(entries: Seq<TypeEntry>, root: usize, ignore_std_types: bool)
    -> Seq<Emission> {
    emission_walk(entries, root, ignore_std_types).out
}

/// Every emission so far is for the root or for a type that is not elided.
pub open spec fn only_kept(
    entries: Seq<TypeEntry>,
    out: Seq<Emission>,
    root: usize,
    ignore_std_types: bool,
) -> bool {
    forall|i: int|
        0 <= i < out.len() ==> emission_type(#[trigger] out[i]) == root || !elided(
            entries,
            emission_type(out[i]),
            ignore_std_types,
        )
}

/// Reaching the root, or a type that is not elided, emits nothing for an
/// elided type other than the root, and keeps the number of marks.
pub proof fn lemma_reached_only_kept(
    entries: Seq<TypeEntry>,
    node: usize,
    walk: Walk,
    depth: nat,
    ignore_std_types: bool,
    root: usize,
)
    requires
        only_kept(entries, walk.out, root, ignore_std_types),
        node == root || !elided(entries, node, ignore_std_types),
    ensures
        only_kept(
            entries,
            reached(entries, node, walk, depth, ignore_std_types).out,
            root,
            ignore_std_types,
        ),
        reached(entries, node, walk, depth, ignore_std_types).marks.len() == walk.marks.len(),
    decreases depth, 0nat,
{
    if node < entries.len() && node < walk.marks.len() && walk.marks[node as int] == Mark::Unseen
        && depth > 0 {
        let opened = Walk { marks: walk.marks.update(node as int, Mark::Open), ..walk };
        lemma_reached_all_only_kept(
            entries,
            node,
            0,
            opened,
            (depth - 1) as nat,
            ignore_std_types,
            root,
        );
    }
}

/// Reaching the types that `owner` refers to emits nothing for an elided
/// type other than the root, and keeps the number of marks.
pub proof fn lemma_reached_all_only_kept(
    entries: Seq<TypeEntry>,
    owner: usize,
    k: nat,
    walk: Walk,
    depth: nat,
    ignore_std_types: bool,
    root: usize,
)
    requires
        only_kept(entries, walk.out, root, ignore_std_types),
    ensures
        only_kept(
            entries,
            reached_all(entries, owner, k, walk, depth, ignore_std_types).out,
            root,
            ignore_std_types,
        ),
        reached_all(entries, owner, k, walk, depth, ignore_std_types).marks.len()
            == walk.marks.len(),
    decreases depth, entries[owner as int].dependencies@.len() - k + 1,
{
    let listed = entries[owner as int].dependencies@;
    if k < listed.len() {
        if elided(entries, listed[k as int], ignore_std_types) {
            lemma_reached_all_only_kept(entries, owner, k + 1, walk, depth, ignore_std_types, root);
        } else {
            lemma_reached_only_kept(
                entries,
                listed[k as int],
                walk,
                depth,
                ignore_std_types,
                root,
            );
            lemma_reached_all_only_kept(
                entries,
                owner,
                k + 1,
                reached(entries, listed[k as int], walk, depth, ignore_std_types),
                depth,
                ignore_std_types,
                root,
            );
        }
    }
}

/// With standard-library types ignored, no declaration is emitted for a
/// dependency whose name falls under the standard-library namespace; the
/// root is exempt, and its full declaration is the last one emitted.
pub proof fn lemma_emission_order_elides_std(
    entries: Seq<TypeEntry>,
    root: usize,
    ignore_std_types: bool,
)
    requires
        root < entries.len(),
    ensures
        emission_order(entries, root, ignore_std_types).len() > 0,
        emission_order(entries, root, ignore_std_types).last() == Emission::Full(root),
        forall|i: int|
            0 <= i < emission_order(entries, root, ignore_std_types).len() ==> {
                let index = emission_type(
                    #[trigger] emission_order(entries, root, ignore_std_types)[i],
                );
                index == root || !(ignore_std_types && in_std_namespace(
                    entries[index as int].name@,
                ))
            },
{
    let start = fresh_walk(entries);
    lemma_reached_only_kept(entries, root, start, entries.len(), ignore_std_types, root);
    lemma_emissions_in_arena(entries, root, start, entries.len(), ignore_std_types);
}

/// Every emission of a walk is for a type of the arena.
pub open spec fn in_arena(entries: Seq<TypeEntry>, out: Seq<Emission>) -> bool {
    forall|i: int| 0 <= i < out.len() ==> emission_type(#[trigger] out[i]) < entries.len()
}

/// Reaching a type emits declarations for types of the arena only.
pub proof fn lemma_emissions_in_arena(
    entries: Seq<TypeEntry>,
    node: usize,
    walk: Walk,
    depth: nat,
    ignore_std_types: bool,
)
    requires
        in_arena(entries, walk.out),
    ensures
        in_arena(entries, reached(entries, node, walk, depth, ignore_std_types).out),
    decreases depth, 0nat,
{
    if node < entries.len() && node < walk.marks.len() && walk.marks[node as int] == Mark::Unseen
        && depth > 0 {
        let opened = Walk { marks: walk.marks.update(node as int, Mark::Open), ..walk };
        lemma_all_emissions_in_arena(
            entries,
            node,
            0,
            opened,
            (depth - 1) as nat,
            ignore_std_types,
        );
    }
}

/// Reaching the types that `owner` refers to emits declarations for types of
/// the arena only.
pub proof fn lemma_all_emissions_in_arena(
    entries: Seq<TypeEntry>,
    owner: usize,
    k: nat,
    walk: Walk,
    depth: nat,
    ignore_std_types: bool,
)
    requires
        in_arena(entries, walk.out),
    ensures
        in_arena(entries, reached_all(entries, owner, k, walk, depth, ignore_std_types).out),
    decreases depth, entries[owner as int].dependencies@.len() - k + 1,
{
    let listed = entries[owner as int].dependencies@;
    if k < listed.len() {
        if elided(entries, listed[k as int], ignore_std_types) {
            lemma_all_emissions_in_arena(entries, owner, k + 1, walk, depth, ignore_std_types);
        } else {
            lemma_emissions_in_arena(entries, listed[k as int], walk, depth, ignore_std_types);
            lemma_all_emissions_in_arena(
                entries,
                owner,
                k + 1,
                reached(entries, listed[k as int], walk, depth, ignore_std_types),
                depth,
                ignore_std_types,
            );
        }
    }
}

/// The type is open: reached, and not emitted in full yet.
pub open spec fn is_open(mark: Mark) -> bool {
    mark == Mark::Open || mark == Mark::Forwarded
}

/// Every type emitted in full is marked as done, and none is emitted in
/// full twice.
pub open spec fn emitted_once(walk: Walk) -> bool {
    &&& forall|p: int|
        0 <= p < walk.out.len() && (#[trigger] walk.out[p]) is Full ==> emission_type(walk.out[p])
            < walk.marks.len() && walk.marks[emission_type(walk.out[p]) as int] == Mark::Done
    &&& forall|p: int, q: int|
        0 <= p < q < walk.out.len() && (#[trigger] walk.out[p]) is Full ==> walk.out[p]
            != #[trigger] walk.out[q]
}

/// Reaching a type emits no type in full a second time and leaves open
/// what was open.
pub proof fn lemma_reached_emits_once(
    entries: Seq<TypeEntry>,
    node: usize,
    walk: Walk,
    depth: nat,
    ignore_std_types: bool,
)
    requires
        emitted_once(walk),
    ensures
        emitted_once(reached(entries, node, walk, depth, ignore_std_types)),
        reached(entries, node, walk, depth, ignore_std_types).marks.len() == walk.marks.len(),
        forall|j: int|
            0 <= j < walk.marks.len() && is_open(#[trigger] walk.marks[j]) ==> is_open(
                reached(entries, node, walk, depth, ignore_std_types).marks[j],
            ),
    decreases depth, 0nat,
{
    let after_all = reached(entries, node, walk, depth, ignore_std_types);
    if node < entries.len() && node < walk.marks.len() {
        if walk.marks[node as int] == Mark::Unseen && depth > 0 {
            let opened = Walk { marks: walk.marks.update(node as int, Mark::Open), ..walk };
            assert(emitted_once(opened));
            lemma_reached_all_emits_once(
                entries,
                node,
                0,
                opened,
                (depth - 1) as nat,
                ignore_std_types,
            );
            let after = reached_all(entries, node, 0, opened, (depth - 1) as nat, ignore_std_types);
            assert(is_open(opened.marks[node as int]));
            assert(is_open(after.marks[node as int]));
            assert forall|p: int| 0 <= p < after.out.len() implies after.out[p] != Emission::Full(
                node,
            ) by {
                if after.out[p] == Emission::Full(node) {
                    assert(after.out[p] is Full);
                    assert(after.marks[emission_type(after.out[p]) as int] == Mark::Done);
                }
            }
            assert(emitted_once(after_all));
            assert forall|j: int|
                0 <= j < walk.marks.len() && is_open(#[trigger] walk.marks[j]) implies is_open(
                after_all.marks[j],
            ) by {
                assert(is_open(opened.marks[j]));
                assert(is_open(after.marks[j]));
            }
        } else if walk.marks[node as int] == Mark::Open {
            assert(emitted_once(after_all));
        }
    }
}

/// Reaching the types that `owner` refers to emits no type in full a second
/// time and leaves open what was open.
pub proof fn lemma_reached_all_emits_once(
    entries: Seq<TypeEntry>,
    owner: usize,
    k: nat,
    walk: Walk,
    depth: nat,
    ignore_std_types: bool,
)
    requires
        emitted_once(walk),
    ensures
        emitted_once(reached_all(entries, owner, k, walk, depth, ignore_std_types)),
        reached_all(entries, owner, k, walk, depth, ignore_std_types).marks.len()
            == walk.marks.len(),
        forall|j: int|
            0 <= j < walk.marks.len() && is_open(#[trigger] walk.marks[j]) ==> is_open(
                reached_all(entries, owner, k, walk, depth, ignore_std_types).marks[j],
            ),
    decreases depth, entries[owner as int].dependencies@.len() - k + 1,
{
    let listed = entries[owner as int].dependencies@;
    if k < listed.len() {
        if elided(entries, listed[k as int], ignore_std_types) {
            lemma_reached_all_emits_once(entries, owner, k + 1, walk, depth, ignore_std_types);
        } else {
            let next = reached(entries, listed[k as int], walk, depth, ignore_std_types);
            lemma_reached_emits_once(entries, listed[k as int], walk, depth, ignore_std_types);
            lemma_reached_all_emits_once(entries, owner, k + 1, next, depth, ignore_std_types);
        }
    }
}

/// No type is emitted in full twice.
pub proof fn lemma_each_type_emitted_once(
    entries: Seq<TypeEntry>,
    root: usize,
    ignore_std_types: bool,
    p: int,
    q: int,
)
    requires
        0 <= p < q < emission_order(entries, root, ignore_std_types).len(),
        emission_order(entries, root, ignore_std_types)[p] is Full,
    ensures
        emission_order(entries, root, ignore_std_types)[p] != emission_order(
            entries,
            root,
            ignore_std_types,
        )[q],
{
    lemma_reached_emits_once(
        entries,
        root,
        fresh_walk(entries),
        entries.len(),
        ignore_std_types,
    );
}

/// How many types the walk has not reached yet.
pub open spec fn unseen_count(marks: Seq<Mark>) -> nat
    decreases marks.len(),
{
    if marks.len() == 0 {
        0
    } else if marks.last() == Mark::Unseen {
        unseen_count(marks.drop_last()) + 1
    } else {
        unseen_count(marks.drop_last())
    }
}

/// There are no more unseen types than types.
pub proof fn lemma_unseen_count_bound(marks: Seq<Mark>)
    ensures
        unseen_count(marks) <= marks.len(),
    decreases marks.len(),
{
    if marks.len() > 0 {
        lemma_unseen_count_bound(marks.drop_last());
    }
}

/// Marking a type as seen takes one off the count where the type was unseen,
/// and leaves the count where it was not.
pub proof fn lemma_unseen_count_update(marks: Seq<Mark>, i: int, mark: Mark)
    requires
        0 <= i < marks.len(),
        mark != Mark::Unseen,
    ensures
        marks[i] == Mark::Unseen ==> unseen_count(marks) >= 1 && unseen_count(
            marks.update(i, mark),
        ) == unseen_count(marks) - 1,
        marks[i] != Mark::Unseen ==> unseen_count(marks.update(i, mark)) == unseen_count(marks),
    decreases marks.len(),
{
    if i == marks.len() - 1 {
        assert(marks.update(i, mark).drop_last() =~= marks.drop_last());
    } else {
        lemma_unseen_count_update(marks.drop_last(), i, mark);
        assert(marks.update(i, mark).drop_last() =~= marks.drop_last().update(i, mark));
    }
}

/// A declaration of the type at `index`, forward or in full, stands among
/// the first `before` emissions.
pub open spec fn presented(out: Seq<Emission>, index: usize, before: int) -> bool {
    exists|q: int| 0 <= q < before && q < out.len() && emission_type(#[trigger] out[q]) == index
}

/// Where emission `p` is the full declaration of a type, the `k`-th type it
/// refers to has no record, is elided, or was declared in front of it.
pub open spec fn served(
    entries: Seq<TypeEntry>,
    out: Seq<Emission>,
    p: int,
    k: int,
    ignore_std_types: bool,
) -> bool {
    let owner = emission_type(out[p]);
    (out[p] is Full && owner < entries.len() && k < entries[owner as int].dependencies@.len())
        ==> {
        let needed = entries[owner as int].dependencies@[k];
        needed >= entries.len() || elided(entries, needed, ignore_std_types) || presented(
            out,
            needed,
            p,
        )
    }
}

/// Every full declaration stands behind a declaration of each type it
/// refers to that has a record and is not elided.
pub open spec fn dependencies_first(
    entries: Seq<TypeEntry>,
    out: Seq<Emission>,
    ignore_std_types: bool,
) -> bool {
    forall|p: int, k: int|
        0 <= p < out.len() && 0 <= k ==> #[trigger] served(entries, out, p, k, ignore_std_types)
}

/// The walk is in order: it has a mark for every type, every type that is
/// done or declared forward has a declaration among the emissions, and the
/// emissions keep `dependencies_first`.
pub open spec fn settled(entries: Seq<TypeEntry>, walk: Walk, ignore_std_types: bool) -> bool {
    &&& walk.marks.len() == entries.len()
    &&& forall|i: int|
        0 <= i < walk.marks.len() && (#[trigger] walk.marks[i] == Mark::Done || walk.marks[i]
            == Mark::Forwarded) ==> presented(walk.out, i as usize, walk.out.len() as int)
    &&& dependencies_first(entries, walk.out, ignore_std_types)
}

/// `longer` starts with `shorter`.
pub open spec fn extends(shorter: Seq<Emission>, longer: Seq<Emission>) -> bool {
    &&& shorter.len() <= longer.len()
    &&& forall|i: int| 0 <= i < shorter.len() ==> #[trigger] longer[i] == shorter[i]
}

/// What was presented stays presented when more is emitted.
pub proof fn lemma_presented_extends(
    shorter: Seq<Emission>,
    longer: Seq<Emission>,
    index: usize,
    before: int,
)
    requires
        extends(shorter, longer),
        presented(shorter, index, before),
    ensures
        presented(longer, index, before),
        presented(longer, index, longer.len() as int),
{
    let q = choose|q: int|
        0 <= q < before && q < shorter.len() && emission_type(#[trigger] shorter[q]) == index;
    assert(longer[q] == shorter[q]);
}

/// Emitting more keeps `dependencies_first` for what was emitted before.
pub proof fn lemma_served_extends(
    entries: Seq<TypeEntry>,
    shorter: Seq<Emission>,
    longer: Seq<Emission>,
    p: int,
    k: int,
    ignore_std_types: bool,
)
    requires
        extends(shorter, longer),
        0 <= p < shorter.len(),
        0 <= k,
        served(entries, shorter, p, k, ignore_std_types),
    ensures
        served(entries, longer, p, k, ignore_std_types),
{
    assert(longer[p] == shorter[p]);
    let owner = emission_type(shorter[p]);
    if shorter[p] is Full && owner < entries.len() && k
        < entries[owner as int].dependencies@.len() {
        let needed = entries[owner as int].dependencies@[k];
        if needed < entries.len() && !elided(entries, needed, ignore_std_types) {
            lemma_presented_extends(shorter, longer, needed, p);
        }
    }
}

/// Reaching a type keeps the walk in order where as many types may be open
/// as are unseen: the walk never gives up, and afterwards the type has a
/// declaration among the emissions.
pub proof fn lemma_reached_settled(
    entries: Seq<TypeEntry>,
    node: usize,
    walk: Walk,
    depth: nat,
    ignore_std_types: bool,
)
    requires
        settled(entries, walk, ignore_std_types),
        depth >= unseen_count(walk.marks),
    ensures
        settled(entries, reached(entries, node, walk, depth, ignore_std_types), ignore_std_types),
        unseen_count(reached(entries, node, walk, depth, ignore_std_types).marks) <= unseen_count(
            walk.marks,
        ),
        extends(walk.out, reached(entries, node, walk, depth, ignore_std_types).out),
        node < entries.len() ==> presented(
            reached(entries, node, walk, depth, ignore_std_types).out,
            node,
            reached(entries, node, walk, depth, ignore_std_types).out.len() as int,
        ),
    decreases depth, 0nat,
{
    let result = reached(entries, node, walk, depth, ignore_std_types);
    if node < entries.len() {
        match walk.marks[node as int] {
            Mark::Done | Mark::Forwarded => {},
            Mark::Open => {
                lemma_unseen_count_update(walk.marks, node as int, Mark::Forwarded);
                assert(emission_type(result.out[walk.out.len() as int]) == node);
                assert forall|i: int|
                    0 <= i < result.marks.len() && (#[trigger] result.marks[i] == Mark::Done
                        || result.marks[i] == Mark::Forwarded) implies presented(
                    result.out,
                    i as usize,
                    result.out.len() as int,
                ) by {
                    if i != node {
                        assert(walk.marks[i] == result.marks[i]);
                        lemma_presented_extends(
                            walk.out,
                            result.out,
                            i as usize,
                            walk.out.len() as int,
                        );
                    }
                }
                assert forall|p: int, k: int|
                    0 <= p < result.out.len() && 0 <= k implies #[trigger] served(
                    entries,
                    result.out,
                    p,
                    k,
                    ignore_std_types,
                ) by {
                    if p < walk.out.len() {
                        assert(served(entries, walk.out, p, k, ignore_std_types));
                        lemma_served_extends(entries, walk.out, result.out, p, k, ignore_std_types);
                    }
                }
            },
            Mark::Unseen => {
                lemma_unseen_count_update(walk.marks, node as int, Mark::Open);
                let opened = Walk { marks: walk.marks.update(node as int, Mark::Open), ..walk };
                assert forall|i: int|
                    0 <= i < opened.marks.len() && (#[trigger] opened.marks[i] == Mark::Done
                        || opened.marks[i] == Mark::Forwarded) implies presented(
                    opened.out,
                    i as usize,
                    opened.out.len() as int,
                ) by {
                    assert(walk.marks[i] == opened.marks[i]);
                }
                lemma_reached_all_settled(
                    entries,
                    node,
                    0,
                    opened,
                    (depth - 1) as nat,
                    ignore_std_types,
                );
                let after = reached_all(
                    entries,
                    node,
                    0,
                    opened,
                    (depth - 1) as nat,
                    ignore_std_types,
                );
                lemma_unseen_count_update(after.marks, node as int, Mark::Done);
                let last = after.out.len() as int;
                assert(emission_type(result.out[last]) == node);
                assert(extends(after.out, result.out));
                assert forall|i: int|
                    0 <= i < result.marks.len() && (#[trigger] result.marks[i] == Mark::Done
                        || result.marks[i] == Mark::Forwarded) implies presented(
                    result.out,
                    i as usize,
                    result.out.len() as int,
                ) by {
                    if i != node {
                        assert(after.marks[i] == result.marks[i]);
                        lemma_presented_extends(after.out, result.out, i as usize, last);
                    }
                }
                assert forall|p: int, k: int|
                    0 <= p < result.out.len() && 0 <= k implies #[trigger] served(
                    entries,
                    result.out,
                    p,
                    k,
                    ignore_std_types,
                ) by {
                    if p < last {
                        assert(served(entries, after.out, p, k, ignore_std_types));
                        lemma_served_extends(
                            entries,
                            after.out,
                            result.out,
                            p,
                            k,
                            ignore_std_types,
                        );
                    } else if k < entries[node as int].dependencies@.len() {
                        let needed = entries[node as int].dependencies@[k];
                        if needed < entries.len() && !elided(entries, needed, ignore_std_types) {
                            assert(listed_presented(entries, node, k, after.out, ignore_std_types));
                            lemma_presented_extends(after.out, result.out, needed, last);
                        }
                    }
                }
            },
        }
    }
}

/// The `k`-th type that `owner` refers to has no record, is elided, or has a
/// declaration among the emissions.
pub open spec fn listed_presented(
    entries: Seq<TypeEntry>,
    owner: usize,
    k: int,
    out: Seq<Emission>,
    ignore_std_types: bool,
) -> bool {
    let needed = entries[owner as int].dependencies@[k];
    needed >= entries.len() || elided(entries, needed, ignore_std_types) || presented(
        out,
        needed,
        out.len() as int,
    )
}

/// Reaching the types that `owner` refers to keeps the walk in order, and
/// afterwards each of them that has a record and is not elided has a
/// declaration among the emissions.
pub proof fn lemma_reached_all_settled(
    entries: Seq<TypeEntry>,
    owner: usize,
    k: nat,
    walk: Walk,
    depth: nat,
    ignore_std_types: bool,
)
    requires
        owner < entries.len(),
        settled(entries, walk, ignore_std_types),
        depth >= unseen_count(walk.marks),
    ensures
        settled(
            entries,
            reached_all(entries, owner, k, walk, depth, ignore_std_types),
            ignore_std_types,
        ),
        unseen_count(reached_all(entries, owner, k, walk, depth, ignore_std_types).marks)
            <= unseen_count(walk.marks),
        extends(walk.out, reached_all(entries, owner, k, walk, depth, ignore_std_types).out),
        forall|j: int|
            k <= j < entries[owner as int].dependencies@.len() ==> #[trigger] listed_presented(
                entries,
                owner,
                j,
                reached_all(entries, owner, k, walk, depth, ignore_std_types).out,
                ignore_std_types,
            ),
    decreases depth, entries[owner as int].dependencies@.len() - k + 1,
{
    let listed = entries[owner as int].dependencies@;
    let result = reached_all(entries, owner, k, walk, depth, ignore_std_types);
    if k < listed.len() {
        let needed = listed[k as int];
        if elided(entries, needed, ignore_std_types) {
            lemma_reached_all_settled(entries, owner, k + 1, walk, depth, ignore_std_types);
        } else {
            let next = reached(entries, needed, walk, depth, ignore_std_types);
            lemma_reached_settled(entries, needed, walk, depth, ignore_std_types);
            lemma_reached_all_settled(entries, owner, k + 1, next, depth, ignore_std_types);
            if needed < entries.len() {
                lemma_presented_extends(next.out, result.out, needed, next.out.len() as int);
            }
            assert(listed_presented(entries, owner, k as int, result.out, ignore_std_types));
        }
    }
}

/// In the order of emission every full declaration stands behind a
/// declaration, forward or in full, of each type it refers to, but for
/// those that are elided.
pub proof fn lemma_dependencies_come_first(
    entries: Seq<TypeEntry>,
    root: usize,
    ignore_std_types: bool,
    p: int,
    k: int,
)
    requires
        0 <= p < emission_order(entries, root, ignore_std_types).len(),
        emission_order(entries, root, ignore_std_types)[p] is Full,
        emission_type(emission_order(entries, root, ignore_std_types)[p]) < entries.len(),
        0 <= k < entries[emission_type(
            emission_order(entries, root, ignore_std_types)[p],
        ) as int].dependencies@.len(),
    ensures
        ({
            let order = emission_order(entries, root, ignore_std_types);
            let needed = entries[emission_type(order[p]) as int].dependencies@[k];
            needed >= entries.len() || elided(entries, needed, ignore_std_types) || presented(
                order,
                needed,
                p,
            )
        }),
{
    let start = fresh_walk(entries);
    lemma_unseen_count_bound(start.marks);
    lemma_reached_settled(entries, root, start, entries.len(), ignore_std_types);
    let order = emission_order(entries, root, ignore_std_types);
    assert(served(entries, order, p, k, ignore_std_types));
}

/// Tells whether the type at `index` is left out as a dependency.
pub fn is_elided(entries: &Vec<TypeEntry>, index: usize, ignore_std_types: bool) -> (left_out: bool)
    ensures
        left_out == elided(entries@, index, ignore_std_types),
{
    index < entries.len() && ignore_std_types && is_std_name(entries[index].name.as_str())
}

/// Reaches the type at `node` and carries the walk on as `reached` says.
pub fn reach(
    entries: &Vec<TypeEntry>,
    node: usize,
    marks: &mut Vec<Mark>,
    out: &mut Vec<Emission>,
    dangling: &mut bool,
    depth: usize,
    ignore_std_types: bool,
)
    ensures
        (Walk { marks: final(marks)@, out: final(out)@, dangling: *final(dangling) }) == reached(
            entries@,
            node,
            Walk { marks: old(marks)@, out: old(out)@, dangling: *old(dangling) },
            depth as nat,
            ignore_std_types,
        ),
        final(marks)@.len() == old(marks)@.len(),
    decreases depth,
{
    if node >= entries.len() {
        *dangling = true;
        return ;
    }
    if node >= marks.len() {
        return ;
    }
    match marks[node] {
        Mark::Done => {},
        Mark::Forwarded => {},
        Mark::Open => {
            marks.set(node, Mark::Forwarded);
            out.push(Emission::Forward(node));
        },
        Mark::Unseen => {
            if depth == 0 {
                return ;
            }
            marks.set(node, Mark::Open);
            let ghost opened = Walk { marks: marks@, out: out@, dangling: *dangling };
            let mut k: usize = 0;
            while k < entries[node as usize].dependencies.len()
                invariant
                    node < entries.len(),
                    depth > 0,
                    k <= entries@[node as int].dependencies@.len(),
                    marks@.len() == opened.marks.len(),
                    node < marks@.len(),
                    reached_all(
                        entries@,
                        node,
                        0,
                        opened,
                        (depth - 1) as nat,
                        ignore_std_types,
                    ) == reached_all(
                        entries@,
                        node,
                        k as nat,
                        Walk { marks: marks@, out: out@, dangling: *dangling },
                        (depth - 1) as nat,
                        ignore_std_types,
                    ),
                decreases entries@[node as int].dependencies@.len() - k,
            {
                let next = entries[node].dependencies[k];
                if !is_elided(entries, next, ignore_std_types) {
                    reach(entries, next, marks, out, dangling, depth - 1, ignore_std_types);
                }
                k += 1;
            }
            marks.set(node, Mark::Done);
            out.push(Emission::Full(node));
        },
    }
}

/// The declarations to emit for the type at `root` with its dependencies:
/// each type behind the types it refers to, the root last. Fails with
/// `UnresolvedReference` where the walk meets an index without a record.
pub fn order_emissions(entries: &Vec<TypeEntry>, root: usize, ignore_std_types: bool) -> (order:
    Result<Vec<Emission>, ReconstructError>)
    ensures
        order is Err <==> emission_walk(entries@, root, ignore_std_types).dangling,
        order is Err ==> order->Err_0 == ReconstructError::UnresolvedReference,
        order is Ok ==> order->Ok_0@ == emission_order(entries@, root, ignore_std_types),
{
    let mut marks: Vec<Mark> = Vec::new();
    let mut i: usize = 0;
    while i < entries.len()
        invariant
            i <= entries.len(),
            marks@ =~= Seq::new(i as nat, |i: int| Mark::Unseen),
        decreases entries.len() - i,
    {
        marks.push(Mark::Unseen);
        i += 1;
    }
    let mut order: Vec<Emission> = Vec::new();
    let mut dangling = false;
    reach(entries, root, &mut marks, &mut order, &mut dangling, entries.len(), ignore_std_types);
    if dangling {
        Err(ReconstructError::UnresolvedReference)
    } else {
        Ok(order)
    }
}

} // verus!
