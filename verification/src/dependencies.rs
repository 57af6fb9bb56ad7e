//! Which of the types that a root depends on are kept for a request: all of
//! them, or all but those of the standard-library namespace where the policy
//! says so.

use vstd::prelude::*;
use vstd::string::*;

verus! {

/// The start of every qualified name in the standard-library namespace.
pub open spec fn std_namespace() -> Seq<char> {
    seq!['s', 't', 'd', ':', ':']
}

/// Whether a qualified name falls under the standard-library namespace.
pub open spec fn in_std_namespace(name: Seq<char>) -> bool {
    std_namespace().is_prefix_of(name)
}

/// Whether the declaration of a dependency with this name is emitted.
pub open spec fn dependency_kept(name: Seq<char>, ignore_std_types: bool) -> bool {
    !(ignore_std_types && in_std_namespace(name))
}

/// The names of a list of strings.
pub open spec fn names_of(names: Seq<String>) -> Seq<Seq<char>> {
    names.map_values(|name: String| name@)
}

/// Of the first `n` dependencies, those whose declarations are emitted, in
/// the order in which they were given.
pub open spec fn kept_dependencies(names: Seq<Seq<char>>, ignore_std_types: bool, n: int) -> Seq<
    Seq<char>,
>
    decreases n,
{
    if n <= 0 {
        Seq::empty()
    } else if dependency_kept(names[n - 1], ignore_std_types) {
        kept_dependencies(names, ignore_std_types, n - 1).push(names[n - 1])
    } else {
        kept_dependencies(names, ignore_std_types, n - 1)
    }
}

/// With standard-library types ignored, no kept dependency falls under the
/// standard-library namespace. Whatever the option, every kept dependency is
/// one that was given, and every one given that is not of that namespace is
/// kept.
pub proof fn lemma_kept_dependencies(names: Seq<Seq<char>>, ignore_std_types: bool, n: int)
    requires
        0 <= n <= names.len(),
    ensures
        forall|k: int|
            0 <= k < kept_dependencies(names, ignore_std_types, n).len() ==> {
                let name = #[trigger] kept_dependencies(names, ignore_std_types, n)[k];
                &&& ignore_std_types ==> !in_std_namespace(name)
                &&& names.take(n).contains(name)
            },
        forall|i: int|
            0 <= i < n && !in_std_namespace(#[trigger] names[i]) ==> kept_dependencies(
                names,
                ignore_std_types,
                n,
            ).contains(names[i]),
        !ignore_std_types ==> kept_dependencies(names, ignore_std_types, n) == names.take(n),
    decreases n,
{
    let kept = kept_dependencies(names, ignore_std_types, n);
    if n > 0 {
        lemma_kept_dependencies(names, ignore_std_types, n - 1);
        let before = kept_dependencies(names, ignore_std_types, n - 1);
        assert(names.take(n - 1).push(names[n - 1]) =~= names.take(n));
        assert forall|k: int| 0 <= k < kept.len() implies {
            let name = #[trigger] kept[k];
            &&& ignore_std_types ==> !in_std_namespace(name)
            &&& names.take(n).contains(name)
        } by {
            if k < before.len() {
                let name = before[k];
                let shorter = names.take(n - 1);
                let at = choose|at: int| 0 <= at < shorter.len() && #[trigger] shorter[at] == name;
                assert(names.take(n)[at] == name);
            } else {
                assert(names.take(n)[n - 1] == kept[k]);
            }
        }
        assert forall|i: int|
            0 <= i < n && !in_std_namespace(#[trigger] names[i]) implies kept.contains(
            names[i],
        ) by {
            if i < n - 1 {
                let at = choose|at: int|
                    0 <= at < before.len() && #[trigger] before[at] == names[i];
                assert(kept[at] == names[i]);
            } else {
                assert(kept[kept.len() - 1] == names[i]);
            }
        }
    } else {
        assert(names.take(n) =~= Seq::<Seq<char>>::empty());
    }
}

/// Where every one of the first `n` names is kept, keeping changes nothing.
pub proof fn lemma_keeping_kept_changes_nothing(
    names: Seq<Seq<char>>,
    ignore_std_types: bool,
    n: int,
)
    requires
        0 <= n <= names.len(),
        forall|i: int| 0 <= i < n ==> dependency_kept(#[trigger] names[i], ignore_std_types),
    ensures
        kept_dependencies(names, ignore_std_types, n) == names.take(n),
    decreases n,
{
    if n > 0 {
        lemma_keeping_kept_changes_nothing(names, ignore_std_types, n - 1);
        assert(names.take(n - 1).push(names[n - 1]) =~= names.take(n));
    } else {
        assert(names.take(n) =~= Seq::<Seq<char>>::empty());
    }
}

/// Leaving out is idempotent: from what was kept nothing more is left out.
pub proof fn lemma_elision_is_idempotent(names: Seq<Seq<char>>, ignore_std_types: bool)
    ensures
        ({
            let kept = kept_dependencies(names, ignore_std_types, names.len() as int);
            kept_dependencies(kept, ignore_std_types, kept.len() as int) == kept
        }),
{
    let kept = kept_dependencies(names, ignore_std_types, names.len() as int);
    lemma_kept_dependencies(names, ignore_std_types, names.len() as int);
    lemma_keeping_kept_changes_nothing(kept, ignore_std_types, kept.len() as int);
    assert(kept.take(kept.len() as int) =~= kept);
}

/// Tells whether a qualified name falls under the standard-library
/// namespace.
pub fn is_std_name(name: &str) -> (is_std: bool)
    ensures
        is_std == in_std_namespace(name@),
{
    if name.unicode_len() < 5 {
        return false;
    }
    let is_std = name.get_char(0) == 's' && name.get_char(1) == 't' && name.get_char(2) == 'd'
        && name.get_char(3) == ':' && name.get_char(4) == ':';
    proof {
        let start = name@.subrange(0, 5);
        assert(start[0] == name@[0]);
        assert(start[1] == name@[1]);
        assert(start[2] == name@[2]);
        assert(start[3] == name@[3]);
        assert(start[4] == name@[4]);
        if is_std {
            assert(start =~= std_namespace());
        }
    }
    is_std
}

/// The dependencies whose declarations are emitted, in the order given.
pub fn retain_dependencies(names: &Vec<String>, ignore_std_types: bool) -> (kept: Vec<String>)
    ensures
        names_of(kept@) == kept_dependencies(
            names_of(names@),
            ignore_std_types,
            names@.len() as int,
        ),
{
    let mut kept: Vec<String> = Vec::new();
    let mut i: usize = 0;
    assert(names_of(kept@) =~= Seq::<Seq<char>>::empty());
    while i < names.len()
        invariant
            i <= names.len(),
            names_of(kept@) == kept_dependencies(names_of(names@), ignore_std_types, i as int),
        decreases names.len() - i,
    {
        let ghost before = kept@;
        assert(names_of(names@)[i as int] == names@[i as int]@);
        if !(ignore_std_types && is_std_name(names[i].as_str())) {
            let name = names[i].clone();
            kept.push(name);
            assert(names_of(kept@) =~= names_of(before).push(names@[i as int]@));
        }
        i += 1;
    }
    kept
}

} // verus!
