use vcs_context::git::{init_repo, shorten_ref_name, InProgressState, RepoKind, RepoMetadata};

fn sample_metadata() -> RepoMetadata {
    RepoMetadata {
        head_branch: Some("refs/heads/feature".to_string()),
        upstream_ref: Some("refs/heads/feature".to_string()),
        remote_name: Some("origin".to_string()),
        git_dir: "/work/proj/.git".to_string(),
        workdir: Some("/work/proj".to_string()),
        state: None,
        fs_monitor: None,
        kind: RepoKind::Worktree,
    }
}

#[test]
fn absent_discovery_yields_absence() {
    assert!(init_repo(None).is_none());
}

#[test]
fn detached_or_unborn_head_has_no_branch_and_no_remote() {
    let mut meta = sample_metadata();
    meta.head_branch = None;
    let repo = init_repo(Some(meta)).expect("metadata present");
    assert!(repo.branch.is_none());
    assert!(repo.remote.is_none());
}

#[test]
fn configured_upstream_resolves_name_and_branch() {
    let repo = init_repo(Some(sample_metadata())).expect("metadata present");
    assert_eq!(repo.branch, Some("feature".to_string()));
    let remote = repo.remote.expect("a current branch has remote info");
    assert_eq!(remote.name, Some("origin".to_string()));
    assert_eq!(remote.branch, Some("feature".to_string()));
}

#[test]
fn upstream_fields_may_be_absent_independently() {
    let mut meta = sample_metadata();
    meta.upstream_ref = None;
    let repo = init_repo(Some(meta)).expect("metadata present");
    let remote = repo.remote.expect("remote info exists while a branch does");
    assert!(remote.branch.is_none());
    assert_eq!(remote.name, Some("origin".to_string()));
}

#[test]
fn state_and_kind_are_carried_through() {
    let mut meta = sample_metadata();
    meta.state = Some(InProgressState::Rebase);
    let repo = init_repo(Some(meta)).expect("metadata present");
    assert_eq!(repo.state, Some(InProgressState::Rebase));
    assert_eq!(repo.kind, RepoKind::Worktree);
    assert_eq!(repo.path, "/work/proj/.git");
    assert_eq!(repo.workdir, Some("/work/proj".to_string()));
}

#[test]
fn fsmonitor_counts_only_an_observed_true() {
    let mut meta = sample_metadata();
    meta.fs_monitor = Some(true);
    assert!(init_repo(Some(meta)).unwrap().fs_monitor_value_is_true);
    let mut meta = sample_metadata();
    meta.fs_monitor = Some(false);
    assert!(!init_repo(Some(meta)).unwrap().fs_monitor_value_is_true);
    let meta = sample_metadata();
    assert!(!init_repo(Some(meta)).unwrap().fs_monitor_value_is_true);
}

#[test]
fn fsmonitor_true_is_echoed_into_git_invocations() {
    let mut meta = sample_metadata();
    meta.fs_monitor = Some(true);
    let repo = init_repo(Some(meta)).unwrap();
    let inv = repo.exec_git("/work/proj/sub", 500, vec!["status".to_string()]);
    assert!(inv.args.contains(&"-c".to_string()));
    assert!(inv.args.contains(&"core.fsmonitor=true".to_string()));
    assert!(!inv.args.contains(&"core.fsmonitor=".to_string()));
}

#[test]
fn fsmonitor_other_values_are_forced_empty() {
    let repo = init_repo(Some(sample_metadata())).unwrap();
    let inv = repo.exec_git("/work/proj/sub", 500, vec!["status".to_string()]);
    assert!(inv.args.contains(&"core.fsmonitor=".to_string()));
    assert!(!inv.args.contains(&"core.fsmonitor=true".to_string()));
}

#[test]
fn worktree_invocation_is_fully_pinned() {
    let repo = init_repo(Some(sample_metadata())).unwrap();
    let inv = repo.exec_git("/elsewhere", 250, vec!["diff".to_string(), "--stat".to_string()]);
    assert_eq!(inv.program, "git");
    assert_eq!(inv.timeout_ms, 250);
    assert_eq!(
        inv.env,
        vec![("GIT_OPTIONAL_LOCKS".to_string(), "0".to_string())]
    );
    assert_eq!(
        inv.args,
        vec![
            "-C".to_string(),
            "/elsewhere".to_string(),
            "--git-dir".to_string(),
            "/work/proj/.git".to_string(),
            "-c".to_string(),
            "core.fsmonitor=".to_string(),
            "--work-tree".to_string(),
            "/work/proj".to_string(),
            "diff".to_string(),
            "--stat".to_string(),
        ]
    );
}

#[test]
fn bare_repository_has_no_workdir_and_no_work_tree_flag() {
    let mut meta = sample_metadata();
    meta.workdir = None;
    meta.kind = RepoKind::Bare;
    let repo = init_repo(Some(meta)).unwrap();
    assert!(repo.workdir.is_none());
    assert_eq!(repo.kind, RepoKind::Bare);
    let inv = repo.exec_git("/elsewhere", 250, vec!["log".to_string()]);
    assert!(!inv.args.contains(&"--work-tree".to_string()));
    assert_eq!(
        inv.args,
        vec![
            "-C".to_string(),
            "/elsewhere".to_string(),
            "--git-dir".to_string(),
            "/work/proj/.git".to_string(),
            "-c".to_string(),
            "core.fsmonitor=".to_string(),
            "log".to_string(),
        ]
    );
}

#[test]
fn reference_names_shorten_to_their_leaf() {
    assert_eq!(shorten_ref_name("refs/heads/main"), "main");
    assert_eq!(shorten_ref_name("refs/heads/user/topic"), "user/topic");
    assert_eq!(shorten_ref_name("refs/tags/v1.0"), "v1.0");
    assert_eq!(shorten_ref_name("refs/remotes/origin/main"), "origin/main");
    assert_eq!(shorten_ref_name("HEAD"), "HEAD");
    assert_eq!(shorten_ref_name(""), "");
}
