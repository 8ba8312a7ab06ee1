use gitmsg::vcs::{
    analyzable_files, file_diff_args, file_outcome, full_diff_args, name_only_args,
    staged_lock_files, tree_outcome,
};

#[test]
fn tree_outcome_passes_output_through_on_success() {
    let r = tree_outcome(true, "the diff".to_string(), "ignored");
    assert_eq!(r.ok().unwrap(), "the diff");
}

#[test]
fn tree_outcome_carries_trimmed_diagnostics_on_failure() {
    let r = tree_outcome(false, String::new(), "  fatal: not a git repository \n");
    let e = r.err().unwrap();
    assert!(!e.file_scoped);
    assert_eq!(e.detail, "fatal: not a git repository");
    assert_eq!(e.message(), "Git error: fatal: not a git repository");
}

#[test]
fn file_outcome_uses_the_file_scoped_tag() {
    let e = file_outcome(false, String::new(), "boom\n").err().unwrap();
    assert!(e.file_scoped);
    assert_eq!(e.message(), "Git error file: boom");
}

#[test]
fn full_diff_args_exclude_every_lock_file() {
    let args = full_diff_args();
    assert_eq!(args[..4], ["diff", "--staged", "--", "."]);
    assert!(args.contains(&":!Cargo.lock".to_string()));
    assert!(args.contains(&":!package-lock.json".to_string()));
    assert!(args.contains(&":!yarn.lock".to_string()));
    assert!(args.contains(&":!pnpm-lock.yaml".to_string()));
    assert!(args.contains(&":!poetry.lock".to_string()));
    assert!(args.contains(&":!Pipfile.lock".to_string()));
    assert!(args.contains(&":!Gemfile.lock".to_string()));
    assert!(args.contains(&":!go.sum".to_string()));
    assert!(args.contains(&":!composer.lock".to_string()));
    assert!(args.contains(&":!flake.lock".to_string()));
    assert_eq!(args.len(), 14);
}

#[test]
fn name_only_and_file_scoped_args() {
    assert_eq!(name_only_args(), vec!["diff", "--staged", "--name-only"]);
    assert_eq!(
        file_diff_args("src/lib.rs"),
        vec!["diff", "--staged", "--", "src/lib.rs"]
    );
}

#[test]
fn listing_excludes_lock_files_from_analysis() {
    let files = analyzable_files("a.rs\nCargo.lock\n");
    assert_eq!(files, vec!["a.rs"]);
}

#[test]
fn listing_keeps_tool_order() {
    let files = analyzable_files("z.rs\nsrc/a.rs\nyarn.lock\nREADME.md\n");
    assert_eq!(files, vec!["z.rs", "src/a.rs", "README.md"]);
}

#[test]
fn lock_listing_keeps_only_lock_files() {
    let locks = staged_lock_files("a.rs\nCargo.lock\nvendor/go.sum\n");
    assert_eq!(locks, vec!["Cargo.lock", "vendor/go.sum"]);
}

#[test]
fn empty_listing_yields_no_files() {
    assert_eq!(analyzable_files(""), Vec::<String>::new());
    assert_eq!(staged_lock_files(""), Vec::<String>::new());
}
