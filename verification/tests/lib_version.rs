use lattice::version;

#[test]
fn version_is_non_empty() {
    assert!(!version().is_empty());
}

#[test]
fn lib_version_is_non_empty() {
    assert!(!version().is_empty());
}
