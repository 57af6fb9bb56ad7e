use resym::access::{access_keywords, keyword_before, AccessSpecifier};
use resym::policy::AccessSpecifierReconstructionFlavor;

use AccessSpecifier::{Private, Protected, Public};

fn sample() -> Vec<AccessSpecifier> {
    vec![Public, Public, Private, Private, Private, Protected, Public, Public]
}

#[test]
fn always_prints_one_keyword_per_member() {
    let keywords = access_keywords(AccessSpecifierReconstructionFlavor::Always, &sample());
    assert_eq!(keywords, sample());
}

#[test]
fn disabled_prints_no_keyword() {
    let keywords = access_keywords(AccessSpecifierReconstructionFlavor::Disabled, &sample());
    assert!(keywords.is_empty());
}

#[test]
fn automatic_collapses_repeats() {
    let keywords = access_keywords(AccessSpecifierReconstructionFlavor::Automatic, &sample());
    assert_eq!(keywords, vec![Public, Private, Protected, Public]);
    for pair in keywords.windows(2) {
        assert_ne!(pair[0], pair[1]);
    }
}

#[test]
fn automatic_prints_in_front_of_the_first_member() {
    let members = vec![Private];
    assert!(keyword_before(AccessSpecifierReconstructionFlavor::Automatic, &members, 0));
    assert_eq!(
        access_keywords(AccessSpecifierReconstructionFlavor::Automatic, &members),
        vec![Private]
    );
}

#[test]
fn keyword_before_each_member() {
    let members = sample();
    let automatic: Vec<bool> = (0..members.len())
        .map(|i| keyword_before(AccessSpecifierReconstructionFlavor::Automatic, &members, i))
        .collect();
    assert_eq!(automatic, vec![true, false, true, false, false, true, true, false]);
    for i in 0..members.len() {
        assert!(keyword_before(AccessSpecifierReconstructionFlavor::Always, &members, i));
        assert!(!keyword_before(AccessSpecifierReconstructionFlavor::Disabled, &members, i));
    }
}

#[test]
fn no_keyword_past_the_last_member() {
    let members = sample();
    assert!(!keyword_before(AccessSpecifierReconstructionFlavor::Always, &members, 8));
    assert!(!keyword_before(AccessSpecifierReconstructionFlavor::Automatic, &members, 100));
    assert!(!keyword_before(AccessSpecifierReconstructionFlavor::Always, &Vec::new(), 0));
}

#[test]
fn no_members_no_keywords() {
    let none: Vec<AccessSpecifier> = Vec::new();
    assert!(access_keywords(AccessSpecifierReconstructionFlavor::Always, &none).is_empty());
    assert!(access_keywords(AccessSpecifierReconstructionFlavor::Automatic, &none).is_empty());
}
