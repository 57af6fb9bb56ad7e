//! Which access-specifier keywords are printed in front of the members of an
//! aggregate, under each access-specifier flavor.

use crate::policy::AccessSpecifierReconstructionFlavor;
use vstd::prelude::*;

verus! {

/// The access of a member or of a base class.
#[derive(Clone, Copy, Debug, PartialEq, Eq, Structural)]
pub enum AccessSpecifier {
    Public,
    Protected,
    Private,
}

/// Whether a keyword is printed in front of member `i`: always under
/// `Always`, never under `Disabled`, and under `Automatic` in front of the
/// first member and wherever the access differs from that of the member
/// before.
pub open spec fn keyword_emitted(
    flavor: AccessSpecifierReconstructionFlavor,
    members: Seq<AccessSpecifier>,
    i: int,
) -> bool {
    &&& 0 <= i < members.len()
    &&& match flavor {
        AccessSpecifierReconstructionFlavor::Always => true,
        AccessSpecifierReconstructionFlavor::Disabled => false,
        AccessSpecifierReconstructionFlavor::Automatic => i == 0 || members[i - 1] != members[i],
    }
}

/// The keywords printed in front of the first `n` members, in the order in
/// which they are printed.
pub open spec fn emitted_keywords(
    flavor: AccessSpecifierReconstructionFlavor,
    members: Seq<AccessSpecifier>,
    n: int,
) -> Seq<AccessSpecifier>
    decreases n,
{
    if n <= 0 {
        Seq::empty()
    } else if keyword_emitted(flavor, members, n - 1) {
        emitted_keywords(flavor, members, n - 1).push(members[n - 1])
    } else {
        emitted_keywords(flavor, members, n - 1)
    }
}

/// No two neighbours in `keywords` are the same.
pub open spec fn no_repeats(keywords: Seq<AccessSpecifier>) -> bool {
    forall|k: int| 0 < k < keywords.len() ==> keywords[k - 1] != #[trigger] keywords[k]
}

/// Under `Automatic` no keyword is printed twice in a row, and the last
/// keyword printed is the access of the last member.
pub proof fn lemma_automatic_never_repeats(members: Seq<AccessSpecifier>, n: int)
    requires
        0 <= n <= members.len(),
    ensures
        no_repeats(emitted_keywords(AccessSpecifierReconstructionFlavor::Automatic, members, n)),
        n > 0 ==> emitted_keywords(
            AccessSpecifierReconstructionFlavor::Automatic,
            members,
            n,
        ).len() > 0 && emitted_keywords(
            AccessSpecifierReconstructionFlavor::Automatic,
            members,
            n,
        ).last() == members[n - 1],
    decreases n,
{
    if n > 0 {
        lemma_automatic_never_repeats(members, n - 1);
    }
}

/// Under `Always` there is one keyword for each member, the member's own;
/// under `Disabled` there is none.
pub proof fn lemma_always_and_disabled(members: Seq<AccessSpecifier>, n: int)
    requires
        0 <= n <= members.len(),
    ensures
        emitted_keywords(AccessSpecifierReconstructionFlavor::Always, members, n)
            == members.take(n),
        emitted_keywords(AccessSpecifierReconstructionFlavor::Disabled, members, n)
            == Seq::<AccessSpecifier>::empty(),
    decreases n,
{
    if n > 0 {
        lemma_always_and_disabled(members, n - 1);
        assert(members.take(n - 1).push(members[n - 1]) =~= members.take(n));
    } else {
        assert(members.take(n) =~= Seq::<AccessSpecifier>::empty());
    }
}

/// Tells whether a keyword is printed in front of member `i`. There is none
/// for an `i` past the last member.
pub fn keyword_before(
    flavor: AccessSpecifierReconstructionFlavor,
    members: &Vec<AccessSpecifier>,
    i: usize,
) -> (emitted: bool)
    ensures
        emitted == keyword_emitted(flavor, members@, i as int),
{
    if i >= members.len() {
        return false;
    }
    match flavor {
        AccessSpecifierReconstructionFlavor::Always => true,
        AccessSpecifierReconstructionFlavor::Disabled => false,
        AccessSpecifierReconstructionFlavor::Automatic => i == 0 || members[i - 1] != members[i],
    }
}

/// The keywords printed for `members`, in order. Under `Automatic` no two
/// neighbours among them are the same.
pub fn access_keywords(
    flavor: AccessSpecifierReconstructionFlavor,
    members: &Vec<AccessSpecifier>,
) -> (keywords: Vec<AccessSpecifier>)
    ensures
        keywords@ == emitted_keywords(flavor, members@, members@.len() as int),
        flavor == AccessSpecifierReconstructionFlavor::Automatic ==> no_repeats(keywords@),
{
    let mut keywords: Vec<AccessSpecifier> = Vec::new();
    let mut i: usize = 0;
    while i < members.len()
        invariant
            i <= members.len(),
            keywords@ == emitted_keywords(flavor, members@, i as int),
        decreases members.len() - i,
    {
        if keyword_before(flavor, members, i) {
            keywords.push(members[i]);
        }
        i += 1;
    }
    proof {
        lemma_automatic_never_repeats(members@, members@.len() as int);
    }
    keywords
}

} // verus!
