//! The make-up of an aggregate's declaration: which lines it has and in what
//! order, before any of them is spelled out.

use crate::access::{emitted_keywords, keyword_emitted, no_repeats, AccessSpecifier};
use crate::layout::{AggregateLayout, BitfieldPlacement, Member};
use crate::policy::{AccessSpecifierReconstructionFlavor, FormattingPolicy};
use vstd::prelude::*;

verus! {

/// What the offset comment of a member carries: the byte offset, and for a
/// bitfield its bits inside the storage unit at that offset.
#[derive(Clone, Copy, Debug, PartialEq, Eq)]
pub struct OffsetComment {
    pub byte_offset: u64,
    pub bits: Option<BitfieldPlacement>,
}

/// One line of an aggregate's declaration.
#[derive(Clone, Copy, Debug, PartialEq, Eq)]
pub enum DeclarationItem {
    /// The comment that gives the aggregate's size in bytes.
    SizeComment { size: u64 },
    /// The keyword and the name of the aggregate.
    Head,
    /// The opening bracket, on the head's line or on a line of its own.
    OpeningBracket { on_new_line: bool },
    /// The base class with this place in the list of base classes.
    Base { index: usize },
    /// An access-specifier keyword.
    AccessKeyword { access: AccessSpecifier },
    /// The member with this place in the list of members, with its offset
    /// comment where it has one.
    Member { index: usize, offset: Option<OffsetComment> },
    /// The closing bracket.
    ClosingBracket,
}

/// The access of each member, in declaration order.
pub open spec fn accesses(members: Seq<Member>) -> Seq<AccessSpecifier> {
    members.map_values(|member: Member| member.access)
}

/// The offset comment of a member: there is one where the policy asks for
/// offsets and the member is part of the object.
pub open spec fn offset_comment(member: Member, policy: FormattingPolicy) -> Option<
    OffsetComment,
> {
    if policy.print_offset_info && !member.is_static {
        Some(OffsetComment { byte_offset: member.offset, bits: member.bitfield })
    } else {
        None
    }
}

/// The lines in front of the base classes: the size comment where the policy
/// asks for sizes, the head, and the opening bracket.
pub open spec fn opening_items(size: u64, policy: FormattingPolicy) -> Seq<DeclarationItem> {
    let head = seq![
        DeclarationItem::Head,
        DeclarationItem::OpeningBracket { on_new_line: policy.print_brackets_new_line },
    ];
    if policy.print_size_info {
        seq![DeclarationItem::SizeComment { size }] + head
    } else {
        head
    }
}

/// The lines of the first `n` base classes, in declaration order.
pub open spec fn base_items(n: int) -> Seq<DeclarationItem> {
    Seq::new(n as nat, |i: int| DeclarationItem::Base { index: i as usize })
}

/// The lines of the first `n` members, in declaration order, each behind its
/// access keyword where one is printed.
pub open spec fn member_items(members: Seq<Member>, policy: FormattingPolicy, n: int) -> Seq<
    DeclarationItem,
>
    decreases n,
{
    if n <= 0 {
        Seq::empty()
    } else {
        let before = member_items(members, policy, n - 1);
        let member = DeclarationItem::Member {
            index: (n - 1) as usize,
            offset: offset_comment(members[n - 1], policy),
        };
        if keyword_emitted(policy.print_access_specifiers, accesses(members), n - 1) {
            before.push(DeclarationItem::AccessKeyword { access: members[n - 1].access }).push(
                member,
            )
        } else {
            before.push(member)
        }
    }
}

/// The lines of the whole declaration: the opening, the base classes, the
/// members, and the closing bracket.
pub open spec fn outline(layout: &AggregateLayout, policy: FormattingPolicy) -> Seq<
    DeclarationItem,
> {
    opening_items(layout.size, policy) + base_items(layout.bases@.len() as int) + member_items(
        layout.members@,
        policy,
        layout.members@.len() as int,
    ) + seq![DeclarationItem::ClosingBracket]
}

/// The access keywords among `items`, in order.
pub open spec fn keywords_of(items: Seq<DeclarationItem>) -> Seq<AccessSpecifier>
    decreases items.len(),
{
    if items.len() == 0 {
        Seq::empty()
    } else {
        match items.last() {
            DeclarationItem::AccessKeyword { access } => keywords_of(items.drop_last()).push(
                access,
            ),
            _ => keywords_of(items.drop_last()),
        }
    }
}

/// Every line among the member lines is an access keyword or a member.
pub proof fn lemma_member_items_kinds(members: Seq<Member>, policy: FormattingPolicy, n: int)
    requires
        0 <= n <= members.len(),
    ensures
        forall|k: int|
            0 <= k < member_items(members, policy, n).len() ==> {
                let item = #[trigger] member_items(members, policy, n)[k];
                item is AccessKeyword || item is Member
            },
    decreases n,
{
    if n > 0 {
        lemma_member_items_kinds(members, policy, n - 1);
    }
}

/// The access keywords among the member lines are the keywords that the
/// access-specifier flavor prints for these members. Under `Automatic` no two
/// of them in a row are the same.
pub proof fn lemma_member_items_keywords(members: Seq<Member>, policy: FormattingPolicy, n: int)
    requires
        0 <= n <= members.len(),
    ensures
        keywords_of(member_items(members, policy, n)) == emitted_keywords(
            policy.print_access_specifiers,
            accesses(members),
            n,
        ),
        policy.print_access_specifiers == AccessSpecifierReconstructionFlavor::Automatic
            ==> no_repeats(keywords_of(member_items(members, policy, n))),
    decreases n,
{
    if n > 0 {
        lemma_member_items_keywords(members, policy, n - 1);
        let before = member_items(members, policy, n - 1);
        let member = DeclarationItem::Member {
            index: (n - 1) as usize,
            offset: offset_comment(members[n - 1], policy),
        };
        let keyword = DeclarationItem::AccessKeyword { access: members[n - 1].access };
        if keyword_emitted(policy.print_access_specifiers, accesses(members), n - 1) {
            assert(before.push(keyword).drop_last() =~= before);
            assert(keywords_of(before.push(keyword)) == keywords_of(before).push(
                members[n - 1].access,
            ));
            assert(before.push(keyword).push(member).drop_last() =~= before.push(keyword));
            assert(keywords_of(before.push(keyword).push(member)) == keywords_of(
                before.push(keyword),
            ));
        } else {
            assert(before.push(member).drop_last() =~= before);
            assert(keywords_of(before.push(member)) == keywords_of(before));
        }
    }
    crate::access::lemma_automatic_never_repeats(accesses(members), n);
}

/// In a declaration every base class stands in front of every member.
pub proof fn lemma_bases_precede_members(
    layout: &AggregateLayout,
    policy: FormattingPolicy,
    i: int,
    j: int,
)
    requires
        0 <= i < outline(layout, policy).len(),
        0 <= j < outline(layout, policy).len(),
        outline(layout, policy)[i] is Base,
        outline(layout, policy)[j] is Member,
    ensures
        i < j,
{
    lemma_member_items_kinds(layout.members@, policy, layout.members@.len() as int);
}

/// Printing integers as hexadecimal changes no line of a declaration and not
/// their order: the lines carry values, and only the spelling of a value
/// depends on that option.
pub proof fn lemma_outline_ignores_numeral_base(
    layout: &AggregateLayout,
    policy: FormattingPolicy,
    other: FormattingPolicy,
)
    requires
        other == (FormattingPolicy {
            integers_as_hexadecimal: !policy.integers_as_hexadecimal,
            ..policy
        }),
    ensures
        outline(layout, policy) == outline(layout, other),
{
    lemma_member_items_ignore_numeral_base(
        layout.members@,
        policy,
        other,
        layout.members@.len() as int,
    );
}

/// The member lines do not depend on how integers are printed.
pub proof fn lemma_member_items_ignore_numeral_base(
    members: Seq<Member>,
    policy: FormattingPolicy,
    other: FormattingPolicy,
    n: int,
)
    requires
        other == (FormattingPolicy {
            integers_as_hexadecimal: !policy.integers_as_hexadecimal,
            ..policy
        }),
    ensures
        member_items(members, policy, n) == member_items(members, other, n),
    decreases n,
{
    if n > 0 {
        lemma_member_items_ignore_numeral_base(members, policy, other, n - 1);
    }
}

/// Tells whether an access keyword is printed in front of member `i`.
pub fn keyword_before_member(
    flavor: AccessSpecifierReconstructionFlavor,
    members: &Vec<Member>,
    i: usize,
) -> (emitted: bool)
    ensures
        emitted == keyword_emitted(flavor, accesses(members@), i as int),
{
    if i >= members.len() {
        return false;
    }
    match flavor {
        AccessSpecifierReconstructionFlavor::Always => true,
        AccessSpecifierReconstructionFlavor::Disabled => false,
        AccessSpecifierReconstructionFlavor::Automatic => i == 0 || members[i - 1].access
            != members[i].access,
    }
}

/// The offset comment of a member, where it has one.
pub fn member_offset_comment(member: &Member, policy: &FormattingPolicy) -> (comment: Option<
    OffsetComment,
>)
    ensures
        comment == offset_comment(*member, *policy),
{
    if policy.print_offset_info && !member.is_static {
        Some(OffsetComment { byte_offset: member.offset, bits: member.bitfield })
    } else {
        None
    }
}

/// The lines of the declaration of an aggregate under a policy, in order.
pub fn declaration_outline(layout: &AggregateLayout, policy: &FormattingPolicy) -> (items: Vec<
    DeclarationItem,
>)
    ensures
        items@ == outline(layout, *policy),
{
    let mut items: Vec<DeclarationItem> = Vec::new();
    if policy.print_size_info {
        items.push(DeclarationItem::SizeComment { size: layout.size });
    }
    items.push(DeclarationItem::Head);
    items.push(DeclarationItem::OpeningBracket { on_new_line: policy.print_brackets_new_line });
    assert(items@ =~= opening_items(layout.size, *policy));
    let mut i: usize = 0;
    while i < layout.bases.len()
        invariant
            i <= layout.bases.len(),
            items@ == opening_items(layout.size, *policy) + base_items(i as int),
        decreases layout.bases.len() - i,
    {
        items.push(DeclarationItem::Base { index: i });
        assert(base_items(i + 1) =~= base_items(i as int).push(
            DeclarationItem::Base { index: i },
        ));
        assert(items@ =~= opening_items(layout.size, *policy) + base_items(i + 1));
        i += 1;
    }
    let ghost front = items@;
    let mut j: usize = 0;
    assert(items@ =~= front + member_items(layout.members@, *policy, 0));
    while j < layout.members.len()
        invariant
            j <= layout.members.len(),
            items@ == front + member_items(layout.members@, *policy, j as int),
        decreases layout.members.len() - j,
    {
        let ghost before = member_items(layout.members@, *policy, j as int);
        if keyword_before_member(policy.print_access_specifiers, &layout.members, j) {
            items.push(DeclarationItem::AccessKeyword { access: layout.members[j].access });
        }
        let offset = member_offset_comment(&layout.members[j], policy);
        items.push(DeclarationItem::Member { index: j, offset });
        assert(items@ =~= front + member_items(layout.members@, *policy, j + 1));
        j += 1;
    }
    items.push(DeclarationItem::ClosingBracket);
    assert(items@ =~= outline(layout, *policy));
    items
}

} // verus!
