use gitmsg::workflow::{
    commit_args, plan_workflow, resolve_choice, scope_name, should_push, AcceptChoice, SplitRun,
    WorkflowPlan,
};

#[test]
fn scope_name_is_the_basename_without_extension() {
    assert_eq!(scope_name("src/main.rs"), "main");
    assert_eq!(scope_name("lib.rs"), "lib");
    assert_eq!(scope_name("deep/dir/parser.test.ts"), "parser.test");
    assert_eq!(scope_name("README"), "README");
}

#[test]
fn scope_name_of_dotfiles_keeps_the_whole_name() {
    assert_eq!(scope_name(".gitignore"), ".gitignore");
    assert_eq!(scope_name("conf/.env"), ".env");
}

#[test]
fn nothing_staged_is_settled_before_any_work() {
    let none: Vec<String> = Vec::new();
    assert!(matches!(
        plan_workflow(&none, false),
        WorkflowPlan::NothingStaged
    ));
    assert!(matches!(
        plan_workflow(&none, true),
        WorkflowPlan::NothingStaged
    ));
}

#[test]
fn split_flag_picks_the_mode() {
    let files = vec!["a.rs".to_string()];
    assert!(matches!(plan_workflow(&files, true), WorkflowPlan::PerFile));
    assert!(matches!(
        plan_workflow(&files, false),
        WorkflowPlan::WholeTree
    ));
}

#[test]
fn resolve_choice_covers_all_answers() {
    let s = "feat: x".to_string();
    assert_eq!(resolve_choice(AcceptChoice::Accept, s.clone()), Some(s.clone()));
    assert_eq!(
        resolve_choice(AcceptChoice::AcceptEdited("fix: y".to_string()), s.clone()),
        Some("fix: y".to_string())
    );
    assert_eq!(resolve_choice(AcceptChoice::Skip, s), None);
}

#[test]
fn whole_tree_commit_names_no_paths() {
    let locks = vec!["Cargo.lock".to_string()];
    let args = commit_args("feat: all", None, &locks);
    assert_eq!(args, vec!["commit", "-m", "feat: all"]);
}

#[test]
fn file_scoped_commit_attaches_the_lock_files() {
    let locks = vec!["Cargo.lock".to_string(), "go.sum".to_string()];
    let args = commit_args("feat: a", Some("a.rs"), &locks);
    assert_eq!(
        args,
        vec!["commit", "-m", "feat: a", "--", "a.rs", "Cargo.lock", "go.sum"]
    );
}

#[test]
fn lock_files_ride_along_with_the_first_accepted_commit_only() {
    // staged files a.rs and b.rs, with Cargo.lock staged as well
    let mut run = SplitRun::new(vec!["Cargo.lock".to_string()]);
    assert!(run.lock_pending);

    // a.rs: the user skips, the locks stay pending
    assert_eq!(run.locks_to_attach(), vec!["Cargo.lock"]);
    run.record(false);
    assert!(run.lock_pending);
    assert!(!run.any_committed);

    // b.rs: the user accepts, the locks ride along and stop pending
    assert_eq!(run.locks_to_attach(), vec!["Cargo.lock"]);
    run.record(true);
    assert!(!run.lock_pending);
    assert!(run.any_committed);

    // any further accepted commit attaches nothing
    assert_eq!(run.locks_to_attach(), Vec::<String>::new());
    run.record(true);
    assert!(!run.lock_pending);
}

#[test]
fn no_lock_files_means_nothing_pending() {
    let run = SplitRun::new(Vec::new());
    assert!(!run.lock_pending);
    assert_eq!(run.locks_to_attach(), Vec::<String>::new());
}

#[test]
fn locks_stay_pending_when_no_commit_is_accepted() {
    let mut run = SplitRun::new(vec!["yarn.lock".to_string()]);
    run.record(false);
    run.record(false);
    assert!(run.lock_pending);
    assert!(!run.any_committed);
}

#[test]
fn push_runs_only_after_an_accepted_commit() {
    assert!(should_push(true, true));
    assert!(!should_push(true, false));
    assert!(!should_push(false, true));
    assert!(!should_push(false, false));
}
