use resym::dependencies::{is_std_name, retain_dependencies};

fn names(list: &[&str]) -> Vec<String> {
    list.iter().map(|name| name.to_string()).collect()
}

#[test]
fn std_names_are_told_by_their_prefix() {
    assert!(is_std_name("std::string"));
    assert!(is_std_name("std::vector<int,std::allocator<int> >"));
    assert!(is_std_name("std::"));
    assert!(!is_std_name("std"));
    assert!(!is_std_name("std:"));
    assert!(!is_std_name("std:string"));
    assert!(!is_std_name(""));
    assert!(!is_std_name("stdx::string"));
    assert!(!is_std_name("Std::string"));
    assert!(!is_std_name("resym_test::std::Inner"));
    assert!(!is_std_name("résumé::Type"));
    assert!(is_std_name("std::résumé"));
}

#[test]
fn std_dependencies_are_dropped_when_ignored() {
    let given = names(&["std::string", "resym_test::A", "std::vector<int>", "B", "stdlib::C"]);
    let kept = retain_dependencies(&given, true);
    assert_eq!(kept, names(&["resym_test::A", "B", "stdlib::C"]));
    assert!(kept.iter().all(|name| !name.starts_with("std::")));
}

#[test]
fn dropping_is_idempotent() {
    let given = names(&["std::string", "resym_test::A", "std::vector<int>", "B"]);
    let once = retain_dependencies(&given, true);
    let twice = retain_dependencies(&once, true);
    assert_eq!(once, twice);
}

#[test]
fn all_dependencies_are_kept_when_not_ignored() {
    let given = names(&["std::string", "resym_test::A", "std::vector<int>", "B"]);
    assert_eq!(retain_dependencies(&given, false), given);
    assert!(retain_dependencies(&Vec::new(), true).is_empty());
}
