use resym::access::AccessSpecifier;
use resym::declaration::{
    declaration_outline, keyword_before_member, member_offset_comment, DeclarationItem,
    OffsetComment,
};
use resym::layout::{AggregateLayout, BaseClass, BitfieldPlacement, Member};
use resym::policy::{
    AccessSpecifierReconstructionFlavor, FormattingPolicy, PrimitiveReconstructionFlavor,
};

fn policy(access: AccessSpecifierReconstructionFlavor) -> FormattingPolicy {
    FormattingPolicy {
        primitives_flavor: PrimitiveReconstructionFlavor::Portable,
        print_access_specifiers: access,
        reconstruct_dependencies: false,
        integers_as_hexadecimal: false,
        print_size_info: true,
        print_offset_info: true,
        print_brackets_new_line: false,
        ignore_std_types: false,
    }
}

fn member(offset: u64, access: AccessSpecifier) -> Member {
    Member { offset, size: 4, bitfield: None, access, is_static: false }
}

fn struct_test() -> AggregateLayout {
    AggregateLayout {
        size: 16,
        bases: vec![
            BaseClass { offset: 0, size: 4, access: AccessSpecifier::Public, is_virtual: false },
            BaseClass { offset: 4, size: 0, access: AccessSpecifier::Private, is_virtual: true },
        ],
        members: vec![
            member(4, AccessSpecifier::Public),
            member(8, AccessSpecifier::Public),
            Member {
                offset: 0,
                size: 4,
                bitfield: None,
                access: AccessSpecifier::Private,
                is_static: true,
            },
            Member {
                offset: 12,
                size: 4,
                bitfield: Some(BitfieldPlacement { bit_offset: 3, bit_width: 2 }),
                access: AccessSpecifier::Private,
                is_static: false,
            },
        ],
    }
}

fn plain(byte_offset: u64) -> Option<OffsetComment> {
    Some(OffsetComment { byte_offset, bits: None })
}

#[test]
fn outline_with_every_keyword_and_comment() {
    let items = declaration_outline(&struct_test(), &policy(AccessSpecifierReconstructionFlavor::Always));
    let expected = vec![
        DeclarationItem::SizeComment { size: 16 },
        DeclarationItem::Head,
        DeclarationItem::OpeningBracket { on_new_line: false },
        DeclarationItem::Base { index: 0 },
        DeclarationItem::Base { index: 1 },
        DeclarationItem::AccessKeyword { access: AccessSpecifier::Public },
        DeclarationItem::Member { index: 0, offset: plain(4) },
        DeclarationItem::AccessKeyword { access: AccessSpecifier::Public },
        DeclarationItem::Member { index: 1, offset: plain(8) },
        DeclarationItem::AccessKeyword { access: AccessSpecifier::Private },
        DeclarationItem::Member { index: 2, offset: None },
        DeclarationItem::AccessKeyword { access: AccessSpecifier::Private },
        DeclarationItem::Member {
            index: 3,
            offset: Some(OffsetComment {
                byte_offset: 12,
                bits: Some(BitfieldPlacement { bit_offset: 3, bit_width: 2 }),
            }),
        },
        DeclarationItem::ClosingBracket,
    ];
    assert_eq!(items, expected);
    assert!(!items.is_empty());
    assert!(items.iter().any(|item| matches!(item, DeclarationItem::SizeComment { .. })));
    assert!(items.iter().any(|item| matches!(item, DeclarationItem::AccessKeyword { .. })));
}

#[test]
fn automatic_outline_never_repeats_a_keyword() {
    let items =
        declaration_outline(&struct_test(), &policy(AccessSpecifierReconstructionFlavor::Automatic));
    let keywords: Vec<AccessSpecifier> = items
        .iter()
        .filter_map(|item| match item {
            DeclarationItem::AccessKeyword { access } => Some(*access),
            _ => None,
        })
        .collect();
    assert_eq!(keywords, vec![AccessSpecifier::Public, AccessSpecifier::Private]);
    assert_eq!(items.len(), 12);
}

#[test]
fn disabled_outline_has_no_keyword() {
    let items =
        declaration_outline(&struct_test(), &policy(AccessSpecifierReconstructionFlavor::Disabled));
    assert!(!items.iter().any(|item| matches!(item, DeclarationItem::AccessKeyword { .. })));
    assert_eq!(items.len(), 10);
}

#[test]
fn bases_stand_in_front_of_members() {
    let items = declaration_outline(&struct_test(), &policy(AccessSpecifierReconstructionFlavor::Always));
    let last_base =
        items.iter().rposition(|item| matches!(item, DeclarationItem::Base { .. })).unwrap();
    let first_member =
        items.iter().position(|item| matches!(item, DeclarationItem::Member { .. })).unwrap();
    assert!(last_base < first_member);
}

#[test]
fn comments_follow_the_policy() {
    let mut quiet = policy(AccessSpecifierReconstructionFlavor::Disabled);
    quiet.print_size_info = false;
    quiet.print_offset_info = false;
    quiet.print_brackets_new_line = true;
    let items = declaration_outline(&struct_test(), &quiet);
    let expected = vec![
        DeclarationItem::Head,
        DeclarationItem::OpeningBracket { on_new_line: true },
        DeclarationItem::Base { index: 0 },
        DeclarationItem::Base { index: 1 },
        DeclarationItem::Member { index: 0, offset: None },
        DeclarationItem::Member { index: 1, offset: None },
        DeclarationItem::Member { index: 2, offset: None },
        DeclarationItem::Member { index: 3, offset: None },
        DeclarationItem::ClosingBracket,
    ];
    assert_eq!(items, expected);
}

#[test]
fn hexadecimal_changes_no_line() {
    let decimal = policy(AccessSpecifierReconstructionFlavor::Automatic);
    let mut hexadecimal = decimal;
    hexadecimal.integers_as_hexadecimal = true;
    assert_eq!(
        declaration_outline(&struct_test(), &decimal),
        declaration_outline(&struct_test(), &hexadecimal)
    );
}

#[test]
fn same_request_gives_the_same_outline() {
    let chosen = policy(AccessSpecifierReconstructionFlavor::Automatic);
    assert_eq!(
        declaration_outline(&struct_test(), &chosen),
        declaration_outline(&struct_test(), &chosen)
    );
}

#[test]
fn empty_aggregate_has_head_and_brackets() {
    let empty = AggregateLayout { size: 1, bases: vec![], members: vec![] };
    let items = declaration_outline(&empty, &policy(AccessSpecifierReconstructionFlavor::Always));
    assert_eq!(
        items,
        vec![
            DeclarationItem::SizeComment { size: 1 },
            DeclarationItem::Head,
            DeclarationItem::OpeningBracket { on_new_line: false },
            DeclarationItem::ClosingBracket,
        ]
    );
}

#[test]
fn bitfields_of_one_unit_show_the_same_byte_offset() {
    let unit = |bit_offset: u8, bit_width: u8| Member {
        offset: 0,
        size: 4,
        bitfield: Some(BitfieldPlacement { bit_offset, bit_width }),
        access: AccessSpecifier::Public,
        is_static: false,
    };
    let layout =
        AggregateLayout { size: 4, bases: vec![], members: vec![unit(0, 1), unit(1, 2), unit(3, 29)] };
    assert_eq!(layout.check(), Ok(()));
    let chosen = policy(AccessSpecifierReconstructionFlavor::Disabled);
    let comments: Vec<OffsetComment> = layout
        .members
        .iter()
        .map(|member| member_offset_comment(member, &chosen).unwrap())
        .collect();
    assert_eq!(comments[0].byte_offset, comments[1].byte_offset);
    assert_eq!(comments[1].byte_offset, comments[2].byte_offset);
    assert_eq!(comments[0].bits, Some(BitfieldPlacement { bit_offset: 0, bit_width: 1 }));
    assert_eq!(comments[1].bits, Some(BitfieldPlacement { bit_offset: 1, bit_width: 2 }));
    assert_eq!(comments[2].bits, Some(BitfieldPlacement { bit_offset: 3, bit_width: 29 }));
}

#[test]
fn keyword_in_front_of_a_member() {
    let members = struct_test().members;
    let automatic = AccessSpecifierReconstructionFlavor::Automatic;
    assert!(keyword_before_member(automatic, &members, 0));
    assert!(!keyword_before_member(automatic, &members, 1));
    assert!(keyword_before_member(automatic, &members, 2));
    assert!(!keyword_before_member(automatic, &members, 3));
    assert!(!keyword_before_member(automatic, &members, 4));
    assert!(!keyword_before_member(AccessSpecifierReconstructionFlavor::Always, &members, 4));
}
