use resym::access::AccessSpecifier;
use resym::declaration::DeclarationItem;
use resym::layout::{AggregateLayout, BitfieldPlacement, LayoutError, Member};
use resym::ordering::Emission;
use resym::policy::{
    AccessSpecifierReconstructionFlavor, FormattingPolicy, PrimitiveReconstructionFlavor,
};
use resym::reconstruct::{dependency_names_of, reconstruct};
use resym::records::{ReconstructError, TypeEntry, TypeRecord};

fn policy() -> FormattingPolicy {
    FormattingPolicy {
        primitives_flavor: PrimitiveReconstructionFlavor::Portable,
        print_access_specifiers: AccessSpecifierReconstructionFlavor::Always,
        reconstruct_dependencies: false,
        integers_as_hexadecimal: false,
        print_size_info: true,
        print_offset_info: true,
        print_brackets_new_line: false,
        ignore_std_types: false,
    }
}

fn member(offset: u64, size: u64) -> Member {
    Member { offset, size, bitfield: None, access: AccessSpecifier::Public, is_static: false }
}

fn entry(name: &str, record: TypeRecord, dependencies: Vec<usize>) -> TypeEntry {
    TypeEntry { name: name.to_string(), record, dependencies }
}

fn aggregate(size: u64, members: Vec<Member>) -> TypeRecord {
    TypeRecord::Aggregate {
        layout: AggregateLayout { size, bases: vec![], members },
        forward_declaration: false,
    }
}

fn container() -> Vec<TypeEntry> {
    vec![
        entry("", TypeRecord::Primitive { size: 4, signed: true }, vec![]),
        entry("resym_test::StructTest", aggregate(16, vec![member(0, 4), member(8, 8)]), vec![3, 2, 4]),
        entry("std::string", aggregate(32, vec![]), vec![]),
        entry("resym_test::EnumTest1", TypeRecord::Enum { underlying: 0, enumerators: vec![] }, vec![]),
        entry("resym_test::UnionTest", aggregate(8, vec![member(0, 4), member(0, 8)]), vec![]),
        entry("resym_test::Twice", aggregate(1, vec![]), vec![]),
        entry("resym_test::Twice", aggregate(1, vec![]), vec![]),
        entry("resym_test::Dangling", aggregate(8, vec![member(0, 8)]), vec![1, 40]),
        entry("resym_test::Loop", TypeRecord::Modifier { wrapped: 9, is_const: true, is_volatile: false }, vec![]),
        entry("", TypeRecord::Enum { underlying: 8, enumerators: vec![] }, vec![]),
        entry("resym_test::Short", aggregate(4, vec![member(0, 8)]), vec![]),
        entry("resym_test::LostElement", TypeRecord::Array { element: 77, count: 2 }, vec![]),
        entry("std::pair<int,int>", aggregate(8, vec![member(0, 4), member(4, 4)]), vec![2]),
        entry(
            "resym_test::Overlap",
            aggregate(
                4,
                vec![
                    Member {
                        offset: 0,
                        size: 4,
                        bitfield: Some(BitfieldPlacement { bit_offset: 0, bit_width: 4 }),
                        access: AccessSpecifier::Public,
                        is_static: false,
                    },
                    Member {
                        offset: 0,
                        size: 4,
                        bitfield: Some(BitfieldPlacement { bit_offset: 3, bit_width: 4 }),
                        access: AccessSpecifier::Public,
                        is_static: false,
                    },
                ],
            ),
            vec![],
        ),
    ]
}

fn names(list: &[&str]) -> Vec<String> {
    list.iter().map(|name| name.to_string()).collect()
}

#[test]
fn struct_with_size_comment_and_access_keywords() {
    let result = reconstruct(&container(), "resym_test::StructTest", &policy()).unwrap();
    assert!(!result.outline.is_empty());
    assert_eq!(result.outline[0], DeclarationItem::SizeComment { size: 16 });
    assert!(result.outline.iter().any(|item| matches!(item, DeclarationItem::AccessKeyword { .. })));
    assert_eq!(result.outline.len(), 8);
    assert_eq!(result.emitted, vec![Emission::Full(1)]);
    assert_eq!(
        result.dependencies,
        names(&["resym_test::EnumTest1", "std::string", "resym_test::UnionTest"])
    );
}

#[test]
fn unknown_name_is_not_found() {
    assert_eq!(
        reconstruct(&container(), "resym_test::DoesNotExist", &policy()),
        Err(ReconstructError::NotFound)
    );
    assert_eq!(reconstruct(&Vec::new(), "resym_test::StructTest", &policy()), Err(ReconstructError::NotFound));
}

#[test]
fn name_with_two_records_is_ambiguous() {
    assert_eq!(
        reconstruct(&container(), "resym_test::Twice", &policy()),
        Err(ReconstructError::Ambiguous)
    );
}

#[test]
fn dependency_without_a_record_is_unresolved() {
    assert_eq!(
        reconstruct(&container(), "resym_test::Dangling", &policy()),
        Err(ReconstructError::UnresolvedReference)
    );
    assert_eq!(
        reconstruct(&container(), "resym_test::LostElement", &policy()),
        Err(ReconstructError::UnresolvedReference)
    );
}

#[test]
fn root_without_a_size_fails_in_layout() {
    assert_eq!(
        reconstruct(&container(), "resym_test::Loop", &policy()),
        Err(ReconstructError::LayoutFailed(LayoutError::Cyclic))
    );
}

#[test]
fn root_that_breaks_a_layout_rule_fails_in_layout() {
    assert_eq!(
        reconstruct(&container(), "resym_test::Short", &policy()),
        Err(ReconstructError::LayoutFailed(LayoutError::Truncated))
    );
    assert_eq!(
        reconstruct(&container(), "resym_test::Overlap", &policy()),
        Err(ReconstructError::LayoutFailed(LayoutError::OverlappingBitfields))
    );
}

#[test]
fn dependencies_come_in_front_of_the_root() {
    let mut with_dependencies = policy();
    with_dependencies.reconstruct_dependencies = true;
    let result =
        reconstruct(&container(), "resym_test::StructTest", &with_dependencies).unwrap();
    assert_eq!(
        result.emitted,
        vec![Emission::Full(3), Emission::Full(2), Emission::Full(4), Emission::Full(1)]
    );
}

#[test]
fn std_dependencies_are_elided_but_not_a_std_root() {
    let mut chosen = policy();
    chosen.reconstruct_dependencies = true;
    chosen.ignore_std_types = true;
    let result = reconstruct(&container(), "resym_test::StructTest", &chosen).unwrap();
    assert_eq!(result.emitted, vec![Emission::Full(3), Emission::Full(4), Emission::Full(1)]);
    assert_eq!(result.dependencies, names(&["resym_test::EnumTest1", "resym_test::UnionTest"]));
    let result = reconstruct(&container(), "std::pair<int,int>", &chosen).unwrap();
    assert_eq!(result.emitted, vec![Emission::Full(12)]);
    assert!(result.dependencies.is_empty());
    chosen.ignore_std_types = false;
    let result = reconstruct(&container(), "std::pair<int,int>", &chosen).unwrap();
    assert_eq!(result.emitted, vec![Emission::Full(2), Emission::Full(12)]);
    assert_eq!(result.dependencies, names(&["std::string"]));
}

#[test]
fn root_that_is_no_aggregate_has_no_lines() {
    let result = reconstruct(&container(), "resym_test::EnumTest1", &policy()).unwrap();
    assert!(result.outline.is_empty());
    assert_eq!(result.emitted, vec![Emission::Full(3)]);
    assert!(result.dependencies.is_empty());
}

#[test]
fn same_request_gives_the_same_answer() {
    let first = reconstruct(&container(), "resym_test::StructTest", &policy());
    let second = reconstruct(&container(), "resym_test::StructTest", &policy());
    assert_eq!(first, second);
}

#[test]
fn hexadecimal_changes_nothing_but_numerals() {
    let mut hexadecimal = policy();
    hexadecimal.integers_as_hexadecimal = true;
    assert_eq!(
        reconstruct(&container(), "resym_test::UnionTest", &policy()),
        reconstruct(&container(), "resym_test::UnionTest", &hexadecimal)
    );
}

#[test]
fn dependency_names_by_index() {
    let entries = container();
    assert_eq!(
        dependency_names_of(&entries, 1),
        Some(names(&["resym_test::EnumTest1", "std::string", "resym_test::UnionTest"]))
    );
    assert_eq!(dependency_names_of(&entries, 0), Some(Vec::new()));
    assert_eq!(dependency_names_of(&entries, 7), None);
    assert_eq!(dependency_names_of(&entries, entries.len()), None);
}

#[test]
fn dangling_reference_of_a_dependency_is_unresolved() {
    let entries = vec![
        entry("Root", aggregate(4, vec![member(0, 4)]), vec![1]),
        entry("Middle", aggregate(4, vec![member(0, 4)]), vec![9]),
    ];
    let mut chosen = policy();
    assert!(reconstruct(&entries, "Root", &chosen).is_ok());
    chosen.reconstruct_dependencies = true;
    assert_eq!(reconstruct(&entries, "Root", &chosen), Err(ReconstructError::UnresolvedReference));
}
