//! A reconstruction request from the name of the root to the lines of its
//! declaration and the declarations emitted with it.

use crate::declaration::{
    declaration_outline, lemma_outline_ignores_numeral_base, outline, DeclarationItem,
};
use crate::dependencies::{
    in_std_namespace, kept_dependencies, lemma_kept_dependencies, names_of, retain_dependencies,
};
use crate::layout::{bitfields_disjoint, offsets_ordered, LayoutError};
use crate::ordering::{
    emission_order, emission_type, emission_walk, lemma_emission_order_elides_std, order_emissions,
    Emission,
};
use crate::policy::FormattingPolicy;
use crate::records::{
    records_of, resolve_root, root_of, size_of, size_of_record, ReconstructError, TypeEntry,
    TypeRecord,
};
use vstd::prelude::*;

verus! {

/// What a request gives back.
#[derive(Debug, PartialEq, Eq)]
pub struct Reconstruction {
    /// The lines of the root's declaration; none for a root that is no
    /// aggregate.
    pub outline: Vec<DeclarationItem>,
    /// The declarations that are emitted, in order, the root last.
    pub emitted: Vec<Emission>,
    /// The names of the types that the root refers to itself, without those
    /// that the policy leaves out.
    pub dependencies: Vec<String>,
}

/// A `Reconstruction` as plain values.
pub struct ReconstructionView {
    pub outline: Seq<DeclarationItem>,
    pub emitted: Seq<Emission>,
    pub dependencies: Seq<Seq<char>>,
}

impl View for Reconstruction {
    type V = ReconstructionView;

    open spec fn view(&self) -> ReconstructionView {
        ReconstructionView {
            outline: self.outline@,
            emitted: self.emitted@,
            dependencies: names_of(self.dependencies@),
        }
    }
}

/// Every type that the entry at `root` refers to has a record in the arena.
pub open spec fn dependencies_resolve(entries: Seq<TypeEntry>, root: usize) -> bool {
    &&& root < entries.len()
    &&& forall|k: int|
        0 <= k < entries[root as int].dependencies@.len()
            ==> #[trigger] entries[root as int].dependencies@[k] < entries.len()
}

/// The names of the types that the entry at `root` refers to, in the order
/// in which it lists them.
pub open spec fn dependency_names(entries: Seq<TypeEntry>, root: usize) -> Seq<Seq<char>> {
    Seq::new(
        entries[root as int].dependencies@.len(),
        |k: int| entries[entries[root as int].dependencies@[k] as int].name@,
    )
}

/// The lines of a record's declaration: the outline of an aggregate, and
/// nothing for any other record.
pub open spec fn record_outline(record: TypeRecord, policy: FormattingPolicy) -> Seq<
    DeclarationItem,
> {
    match record {
        TypeRecord::Aggregate { layout, .. } => outline(&layout, policy),
        _ => Seq::empty(),
    }
}

/// Whether a record's layout keeps its rules; a record that is no aggregate
/// has none to keep.
pub open spec fn record_verdict(record: TypeRecord) -> Result<(), LayoutError> {
    match record {
        TypeRecord::Aggregate { layout, .. } => layout.verdict(),
        _ => Ok(()),
    }
}

/// The declarations that a request emits: the root alone, or the root behind
/// the types it depends on where the policy asks for them.
pub open spec fn emissions(entries: Seq<TypeEntry>, root: usize, policy: FormattingPolicy) -> Seq<
    Emission,
> {
    if policy.reconstruct_dependencies {
        emission_order(entries, root, policy.ignore_std_types)
    } else {
        seq![Emission::Full(root)]
    }
}

/// What a request for `root_name` under `policy` gives. It fails, in this
/// order, where the name has no record or several, where the root refers to
/// a type without a record, where the root has no size, where its layout
/// breaks a rule, and where a type to emit with it refers to a type without
/// a record.
pub open spec fn reconstructed(
    entries: Seq<TypeEntry>,
    root_name: Seq<char>,
    policy: FormattingPolicy,
) -> Result<ReconstructionView, ReconstructError> {
    match root_of(entries, root_name) {
        Err(error) => Err(error),
        Ok(root) => if !dependencies_resolve(entries, root) {
            Err(ReconstructError::UnresolvedReference)
        } else {
            match size_of_record(records_of(entries), root) {
                Err(error) => Err(error),
                Ok(_) => match record_verdict(entries[root as int].record) {
                    Err(error) => Err(ReconstructError::LayoutFailed(error)),
                    Ok(_) => if policy.reconstruct_dependencies && emission_walk(
                        entries,
                        root,
                        policy.ignore_std_types,
                    ).dangling {
                        Err(ReconstructError::UnresolvedReference)
                    } else {
                        Ok(
                            ReconstructionView {
                                outline: record_outline(entries[root as int].record, policy),
                                emitted: emissions(entries, root, policy),
                                dependencies: kept_dependencies(
                                    dependency_names(entries, root),
                                    policy.ignore_std_types,
                                    dependency_names(entries, root).len() as int,
                                ),
                            },
                        )
                    },
                },
            }
        },
    }
}

/// Whatever the request, the full declaration of the root is the last one
/// emitted. With standard-library types ignored, no declaration is emitted
/// for another type whose name falls under the standard-library namespace,
/// and no such name is among the dependencies given back.
pub proof fn lemma_reconstruction_elides_std(
    entries: Seq<TypeEntry>,
    root_name: Seq<char>,
    policy: FormattingPolicy,
)
    requires
        reconstructed(entries, root_name, policy) is Ok,
    ensures
        ({
            let root = root_of(entries, root_name)->Ok_0;
            let result = reconstructed(entries, root_name, policy)->Ok_0;
            &&& result.emitted.len() > 0
            &&& result.emitted.last() == Emission::Full(root)
            &&& policy.ignore_std_types ==> forall|i: int|
                0 <= i < result.emitted.len() ==> emission_type(#[trigger] result.emitted[i])
                    == root || !in_std_namespace(
                    entries[emission_type(result.emitted[i]) as int].name@,
                )
            &&& policy.ignore_std_types ==> forall|k: int|
                0 <= k < result.dependencies.len() ==> !in_std_namespace(
                    #[trigger] result.dependencies[k],
                )
        }),
{
    let root = root_of(entries, root_name)->Ok_0;
    lemma_emission_order_elides_std(entries, root, policy.ignore_std_types);
    lemma_kept_dependencies(
        dependency_names(entries, root),
        policy.ignore_std_types,
        dependency_names(entries, root).len() as int,
    );
}

/// A request is answered only for a root whose layout keeps the rules: the
/// members of the object have non-decreasing offsets in declaration order,
/// and no two bitfields of one storage unit have a bit in common.
pub proof fn lemma_reconstructed_root_is_valid(
    entries: Seq<TypeEntry>,
    root_name: Seq<char>,
    policy: FormattingPolicy,
)
    requires
        reconstructed(entries, root_name, policy) is Ok,
    ensures
        ({
            let root = root_of(entries, root_name)->Ok_0;
            &&& root < entries.len()
            &&& entries[root as int].record matches TypeRecord::Aggregate { layout, .. }
                ==> layout.valid() && offsets_ordered(layout.members@) && bitfields_disjoint(
                layout.members@,
            )
        }),
{
}

/// A request is answered by its arguments alone: two answers to the same
/// request from the same arena are the same.
pub proof fn lemma_reconstruction_is_determined(
    entries: Seq<TypeEntry>,
    root_name: Seq<char>,
    policy: FormattingPolicy,
    first: Result<ReconstructionView, ReconstructError>,
    second: Result<ReconstructionView, ReconstructError>,
)
    requires
        first == reconstructed(entries, root_name, policy),
        second == reconstructed(entries, root_name, policy),
    ensures
        first == second,
{
}

/// Printing integers as hexadecimal changes nothing in the answer to a
/// request: not whether it fails, not a line of the declaration or the order
/// of the lines, no emission and no name. Only the spelling of the values
/// that the lines carry depends on that option.
pub proof fn lemma_reconstruction_ignores_numeral_base(
    entries: Seq<TypeEntry>,
    root_name: Seq<char>,
    policy: FormattingPolicy,
    other: FormattingPolicy,
)
    requires
        other == (FormattingPolicy {
            integers_as_hexadecimal: !policy.integers_as_hexadecimal,
            ..policy
        }),
    ensures
        reconstructed(entries, root_name, policy) == reconstructed(entries, root_name, other),
{
    if root_of(entries, root_name) is Ok {
        let root = root_of(entries, root_name)->Ok_0;
        match entries[root as int].record {
            TypeRecord::Aggregate { layout, .. } => {
                lemma_outline_ignores_numeral_base(&layout, policy, other);
            },
            _ => {},
        }
    }
}

/// The names of the types that the entry at `root` refers to; `None` where
/// there is no such entry or one of the types has no record.
pub fn dependency_names_of(entries: &Vec<TypeEntry>, root: usize) -> (names: Option<Vec<String>>)
    ensures
        names is Some <==> dependencies_resolve(entries@, root),
        names is Some ==> names_of(names->0@) == dependency_names(entries@, root),
{
    if root >= entries.len() {
        return None;
    }
    let listed = &entries[root].dependencies;
    let mut names: Vec<String> = Vec::new();
    let mut k: usize = 0;
    while k < listed.len()
        invariant
            k <= listed.len(),
            root < entries.len(),
            listed == &entries@[root as int].dependencies,
            names@.len() == k,
            forall|j: int| 0 <= j < k ==> #[trigger] listed@[j] < entries.len(),
            forall|j: int|
                0 <= j < k ==> (#[trigger] names@[j])@ == entries@[listed@[j] as int].name@,
        decreases listed.len() - k,
    {
        let at = listed[k];
        if at >= entries.len() {
            return None;
        }
        names.push(entries[at].name.clone());
        k += 1;
    }
    assert(names_of(names@) =~= dependency_names(entries@, root));
    Some(names)
}

/// Answers a request: resolves the root by its exact name, collects the
/// names of the types it refers to, makes sure that it has a size and that
/// its layout keeps the rules, and gives the lines of its declaration with
/// the declarations to emit.
pub fn reconstruct(entries: &Vec<TypeEntry>, root_name: &str, policy: &FormattingPolicy) -> (result:
    Result<Reconstruction, ReconstructError>)
    ensures
        match result {
            Ok(reconstruction) => reconstructed(entries@, root_name@, *policy) == Ok::<
                ReconstructionView,
                ReconstructError,
            >(reconstruction@),
            Err(error) => reconstructed(entries@, root_name@, *policy) == Err::<
                ReconstructionView,
                ReconstructError,
            >(error),
        },
{
    let root = match resolve_root(entries, root_name) {
        Ok(root) => root,
        Err(error) => {
            return Err(error);
        },
    };
    let dependencies = match dependency_names_of(entries, root) {
        Some(names) => names,
        None => {
            return Err(ReconstructError::UnresolvedReference);
        },
    };
    match size_of(entries, root) {
        Ok(_) => {},
        Err(error) => {
            return Err(error);
        },
    }
    assert(records_of(entries@)[root as int] == entries@[root as int].record);
    let outline = match &entries[root].record {
        TypeRecord::Aggregate { layout, .. } => {
            match layout.check() {
                Ok(_) => {},
                Err(error) => {
                    return Err(ReconstructError::LayoutFailed(error));
                },
            }
            declaration_outline(layout, policy)
        },
        _ => Vec::new(),
    };
    let emitted = if policy.reconstruct_dependencies {
        match order_emissions(entries, root, policy.ignore_std_types) {
            Ok(order) => order,
            Err(error) => {
                return Err(error);
            },
        }
    } else {
        let mut only: Vec<Emission> = Vec::new();
        only.push(Emission::Full(root));
        only
    };
    let dependencies = retain_dependencies(&dependencies, policy.ignore_std_types);
    Ok(Reconstruction { outline, emitted, dependencies })
}

} // verus!
