use resym::layout::AggregateLayout;
use resym::ordering::{is_elided, order_emissions, Emission};
use resym::records::{ReconstructError, TypeEntry, TypeRecord};

fn entry(name: &str, dependencies: Vec<usize>) -> TypeEntry {
    TypeEntry {
        name: name.to_string(),
        record: TypeRecord::Aggregate {
            layout: AggregateLayout { size: 1, bases: vec![], members: vec![] },
            forward_declaration: false,
        },
        dependencies,
    }
}

use Emission::{Forward, Full};

#[test]
fn type_without_dependencies_is_emitted_alone() {
    let entries = vec![entry("A", vec![])];
    assert_eq!(order_emissions(&entries, 0, false), Ok(vec![Full(0)]));
}

#[test]
fn dependencies_come_first_in_listed_order() {
    let entries =
        vec![entry("Root", vec![2, 1]), entry("B", vec![]), entry("C", vec![3]), entry("D", vec![])];
    assert_eq!(order_emissions(&entries, 0, false), Ok(vec![Full(3), Full(2), Full(1), Full(0)]));
    assert_eq!(order_emissions(&entries, 2, false), Ok(vec![Full(3), Full(2)]));
}

#[test]
fn shared_dependency_is_emitted_once() {
    let entries = vec![
        entry("Root", vec![1, 2, 3]),
        entry("Left", vec![3]),
        entry("Right", vec![3]),
        entry("Shared", vec![]),
    ];
    assert_eq!(order_emissions(&entries, 0, false), Ok(vec![Full(3), Full(1), Full(2), Full(0)]));
}

#[test]
fn circle_is_broken_by_a_forward_declaration() {
    let entries = vec![entry("A", vec![1]), entry("B", vec![2]), entry("C", vec![0])];
    assert_eq!(
        order_emissions(&entries, 0, false),
        Ok(vec![Forward(0), Full(2), Full(1), Full(0)])
    );
    assert_eq!(
        order_emissions(&entries, 1, false),
        Ok(vec![Forward(1), Full(0), Full(2), Full(1)])
    );
}

#[test]
fn type_that_refers_to_itself_is_declared_forward_once() {
    let entries = vec![entry("Node", vec![0, 0, 1]), entry("Leaf", vec![0])];
    assert_eq!(order_emissions(&entries, 0, false), Ok(vec![Forward(0), Full(1), Full(0)]));
}

#[test]
fn std_dependencies_and_what_only_they_need_are_left_out() {
    let entries = vec![
        entry("Root", vec![1, 2]),
        entry("std::vector<A>", vec![3]),
        entry("A", vec![]),
        entry("std::allocator<A>", vec![]),
    ];
    assert_eq!(order_emissions(&entries, 0, true), Ok(vec![Full(2), Full(0)]));
    assert_eq!(
        order_emissions(&entries, 0, false),
        Ok(vec![Full(3), Full(1), Full(2), Full(0)])
    );
}

#[test]
fn std_root_is_emitted_all_the_same() {
    let entries = vec![
        entry("std::vector<A>", vec![1, 2]),
        entry("std::allocator<A>", vec![]),
        entry("A", vec![0]),
    ];
    assert_eq!(order_emissions(&entries, 0, true), Ok(vec![Full(2), Full(0)]));
    assert_eq!(
        order_emissions(&entries, 0, false),
        Ok(vec![Full(1), Forward(0), Full(2), Full(0)])
    );
}

#[test]
fn index_without_a_record_fails_the_walk() {
    let entries = vec![entry("Root", vec![1]), entry("B", vec![7])];
    assert_eq!(order_emissions(&entries, 0, false), Err(ReconstructError::UnresolvedReference));
    assert_eq!(order_emissions(&entries, 2, false), Err(ReconstructError::UnresolvedReference));
    assert_eq!(order_emissions(&Vec::new(), 0, true), Err(ReconstructError::UnresolvedReference));
    let elided = vec![entry("Root", vec![1]), entry("std::B", vec![7])];
    assert_eq!(order_emissions(&elided, 0, true), Ok(vec![Full(0)]));
}

#[test]
fn long_chain_is_walked_to_its_end() {
    let mut entries: Vec<TypeEntry> = (0..200).map(|i| entry("T", vec![i + 1])).collect();
    entries.push(entry("Last", vec![]));
    let expected: Vec<Emission> = (0..=200).rev().map(Full).collect();
    assert_eq!(order_emissions(&entries, 0, false), Ok(expected));
}

#[test]
fn elision_goes_by_the_name_of_the_type() {
    let entries = vec![entry("std::string", vec![]), entry("resym_test::A", vec![])];
    assert!(is_elided(&entries, 0, true));
    assert!(!is_elided(&entries, 0, false));
    assert!(!is_elided(&entries, 1, true));
    assert!(!is_elided(&entries, 2, true));
}
