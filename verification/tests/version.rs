use rn_run::package::{react_native_version, PackageJson};
use rn_run::version::is_version_greater_or_equal;

#[test]
fn equal_versions_compare_as_at_least() {
    assert!(is_version_greater_or_equal("0.74", "0.74"));
}

#[test]
fn larger_minor_component_wins() {
    assert!(is_version_greater_or_equal("0.75", "0.74"));
    assert!(!is_version_greater_or_equal("0.73", "0.74"));
}

#[test]
fn larger_major_component_wins() {
    assert!(is_version_greater_or_equal("1.0", "0.74"));
    assert!(!is_version_greater_or_equal("0.74", "1.0"));
}

#[test]
fn components_compare_lexicographically() {
    // The comparison is on the component strings, not their numeric
    // values: "9" sorts above "74".
    assert!(is_version_greater_or_equal("0.9", "0.74"));
}

#[test]
fn equal_prefix_counts_as_at_least_whatever_follows() {
    assert!(is_version_greater_or_equal("0.74.0", "0.74.9"));
    assert!(is_version_greater_or_equal("0.74.9", "0.74.0"));
}

#[test]
fn react_native_version_found_in_dependencies() {
    let pkg = PackageJson {
        dependencies: Some(vec![
            ("react".to_string(), "18.2.0".to_string()),
            ("react-native".to_string(), "0.74.1".to_string()),
        ]),
    };
    assert_eq!(react_native_version(&pkg), Some("0.74.1".to_string()));
}

#[test]
fn react_native_version_missing_dependency() {
    let pkg = PackageJson {
        dependencies: Some(vec![("react".to_string(), "18.2.0".to_string())]),
    };
    assert_eq!(react_native_version(&pkg), None);
}

#[test]
fn react_native_version_without_dependency_table() {
    let pkg = PackageJson { dependencies: None };
    assert_eq!(react_native_version(&pkg), None);
}
