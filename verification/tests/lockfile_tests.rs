use gitmsg::lockfile::is_lock_file;

#[test]
fn known_basenames_match() {
    assert!(is_lock_file("Cargo.lock"));
    assert!(is_lock_file("package-lock.json"));
    assert!(is_lock_file("yarn.lock"));
    assert!(is_lock_file("pnpm-lock.yaml"));
    assert!(is_lock_file("poetry.lock"));
    assert!(is_lock_file("Pipfile.lock"));
    assert!(is_lock_file("Gemfile.lock"));
    assert!(is_lock_file("go.sum"));
    assert!(is_lock_file("composer.lock"));
    assert!(is_lock_file("flake.lock"));
}

#[test]
fn nested_paths_match_on_basename() {
    assert!(is_lock_file("some/dir/Cargo.lock"));
    assert!(is_lock_file("a/b/c/go.sum"));
    assert!(is_lock_file("frontend/package-lock.json"));
}

#[test]
fn partial_matches_are_rejected() {
    assert!(!is_lock_file("mypackage-lock.json"));
    assert!(!is_lock_file("Cargo.lock.bak"));
    assert!(!is_lock_file("xCargo.lock"));
    assert!(!is_lock_file("go.sum.old"));
}

#[test]
fn classification_is_case_sensitive() {
    assert!(!is_lock_file("cargo.lock"));
    assert!(!is_lock_file("GO.SUM"));
}

#[test]
fn other_names_are_rejected() {
    assert!(!is_lock_file("main.rs"));
    assert!(!is_lock_file("src/lib.rs"));
    assert!(!is_lock_file(""));
    assert!(!is_lock_file("dir/Cargo.lock/readme.md"));
}
