//! The git context builder: turns one snapshot of repository metadata, as a
//! local read-only repository reader observed it, into the `Repo` context a
//! prompt renderer consumes, and builds the hardened argument list for
//! on-demand external git invocations.
use crate::command::Invocation;
use crate::text::is_prefix_of;
use vstd::prelude::*;

verus! {

/// How the discovered repository stores its working tree.
#[derive(Clone, Copy, Debug, PartialEq, Eq, Structural)]
pub enum RepoKind {
    /// A repository with a checked-out working directory.
    Worktree,
    /// A bare repository, without a working directory.
    Bare,
}

/// An operation left in progress in the repository. The variants are carried
/// through to the caller untouched; this crate never inspects them further.
#[derive(Clone, Copy, Debug, PartialEq, Eq, Structural)]
pub enum InProgressState {
    ApplyMailbox,
    ApplyMailboxRebase,
    Bisect,
    CherryPick,
    CherryPickSequence,
    Merge,
    Rebase,
    RebaseInteractive,
    Revert,
    RevertSequence,
}

/// What the current branch tracks on its configured fetch remote. Either
/// field may be absent on its own: a branch may lack an upstream, or the
/// upstream name may fail to resolve.
pub struct Remote {
    pub branch: Option<String>,
    pub name: Option<String>,
}

/// One snapshot of a discovered repository, as the repository reader handed
/// it over: plain values only, read once at discovery time.
pub struct RepoMetadata {
    /// Full name of the reference HEAD points at, such as `refs/heads/main`;
    /// absent when HEAD is detached or the branch is unborn.
    pub head_branch: Option<String>,
    /// Full name of the reference the current branch is configured to merge
    /// from its fetch remote, such as `refs/heads/feature`; absent when the
    /// branch has no upstream or the name could not be resolved.
    pub upstream_ref: Option<String>,
    /// Name of the configured fetch remote of the current branch.
    pub remote_name: Option<String>,
    /// Path of the repository's `.git` directory.
    pub git_dir: String,
    /// Path of the working directory; absent for bare repositories.
    pub workdir: Option<String>,
    /// An operation in progress, if any.
    pub state: Option<InProgressState>,
    /// The `core.fsmonitor` configuration value, read as a boolean; absent
    /// when unset or not parsable as a boolean.
    pub fs_monitor: Option<bool>,
    pub kind: RepoKind,
}

impl RepoMetadata {
    /// A bare repository is exactly one without a working directory.
    pub open spec fn consistent(self) -> bool {
        (self.workdir is None) <==> (self.kind is Bare)
    }
}

/// The context of one discovered git repository, built once per prompt
/// invocation and immutable afterwards.
pub struct Repo {
    /// Short name of the current branch, absent when detached or unborn.
    pub branch: Option<String>,
    /// Root of the working tree; absent for bare repositories.
    pub workdir: Option<String>,
    /// Path of the repository's `.git` directory.
    pub path: String,
    /// An operation in progress, if any.
    pub state: Option<InProgressState>,
    /// What the current branch tracks, when a current branch exists.
    pub remote: Option<Remote>,
    /// Whether `core.fsmonitor` was observed set to `true`; any other
    /// observation counts as `false`, and later git invocations force the
    /// setting to the observed value.
    pub fs_monitor_value_is_true: bool,
    pub kind: RepoKind,
}

impl Repo {
    /// A bare repository is exactly one without a working directory.
    pub open spec fn wf(self) -> bool {
        (self.workdir is None) <==> (self.kind is Bare)
    }
}

/// A full reference name shortened to the name its user knows: the part
/// after `refs/heads/`, `refs/tags/` or `refs/remotes/`. A name outside
/// those categories is kept whole.
pub open spec fn shortened(s: Seq<char>) -> Seq<char> {
    if is_prefix_of("refs/heads/"@, s) {
        s.skip("refs/heads/"@.len() as int)
    } else if is_prefix_of("refs/tags/"@, s) {
        s.skip("refs/tags/"@.len() as int)
    } else if is_prefix_of("refs/remotes/"@, s) {
        s.skip("refs/remotes/"@.len() as int)
    } else {
        s
    }
}

/// Strips the reference category prefix from a full reference name.
pub fn shorten_ref_name(s: &str) -> (r: String)
    ensures
        r@ == shortened(s@),
{
    let n = s.unicode_len();
    if crate::text::str_starts_with(s, "refs/heads/") {
        let p = "refs/heads/".unicode_len();
        s.substring_char(p, n).to_owned()
    } else if crate::text::str_starts_with(s, "refs/tags/") {
        let p = "refs/tags/".unicode_len();
        s.substring_char(p, n).to_owned()
    } else if crate::text::str_starts_with(s, "refs/remotes/") {
        let p = "refs/remotes/".unicode_len();
        s.substring_char(p, n).to_owned()
    } else {
        s.to_owned()
    }
}

/// The view of an optional owned string.
pub open spec fn view_opt(o: Option<String>) -> Option<Seq<char>> {
    match o {
        Some(s) => Some(s@),
        None => None,
    }
}

/// The current branch of the snapshot, shortened; absent when HEAD was
/// detached or unborn.
fn get_current_branch(head_branch: &Option<String>) -> (r: Option<String>)
    ensures
        match *head_branch {
            Some(ref h) => r matches Some(b) && b@ == shortened(h@),
            None => r is None,
        },
{
    match head_branch {
        Some(h) => Some(shorten_ref_name(h.as_str())),
        None => None,
    }
}

/// The remote-tracking info of the current branch: present exactly when a
/// current branch exists, its tracked branch the configured upstream
/// reference shortened to its leaf name, its remote name verbatim.
fn get_remote_repository_info(
    has_branch: bool,
    upstream_ref: &Option<String>,
    remote_name: Option<String>,
) -> (r: Option<Remote>)
    ensures
        has_branch ==> (r matches Some(rem) && view_opt(rem.branch) == (match *upstream_ref {
            Some(ref u) => Some(shortened(u@)),
            None => None,
        }) && rem.name == remote_name),
        !has_branch ==> r is None,
{
    if has_branch {
        let branch = match upstream_ref {
            Some(u) => Some(shorten_ref_name(u.as_str())),
            None => None,
        };
        Some(Remote { branch, name: remote_name })
    } else {
        None
    }
}

/// Builds the git `Repo` context from one discovery outcome: absence in,
/// absence out; a metadata snapshot in, the context it determines out.
///
/// The branch is the snapshot's HEAD reference shortened to its leaf name;
/// remote info exists exactly when a current branch does, its branch the
/// configured upstream reference shortened to its leaf name and its remote
/// name verbatim; `core.fsmonitor` counts as enabled only when it was
/// observed as exactly `true`.
pub fn init_repo(meta: Option<RepoMetadata>) -> (r: Option<Repo>)
    requires
        meta matches Some(m) ==> m.consistent(),
    ensures
        (r is Some) == (meta is Some),
        meta matches Some(m) ==> r matches Some(repo) && {
            &&& view_opt(repo.branch) == match m.head_branch {
                Some(h) => Some(shortened(h@)),
                None => None,
            }
            &&& match m.head_branch {
                Some(_) => repo.remote matches Some(rem) && view_opt(rem.branch) == (match m
                    .upstream_ref {
                    Some(u) => Some(shortened(u@)),
                    None => None,
                }) && rem.name == m.remote_name,
                None => repo.remote is None,
            }
            &&& repo.workdir == m.workdir
            &&& repo.path == m.git_dir
            &&& repo.state == m.state
            &&& repo.kind == m.kind
            &&& repo.fs_monitor_value_is_true == (m.fs_monitor == Some(true))
            &&& repo.wf()
        },
{
    match meta {
        None => None,
        Some(m) => {
            let branch = get_current_branch(&m.head_branch);
            let remote = get_remote_repository_info(
                branch.is_some(),
                &m.upstream_ref,
                m.remote_name,
            );
            let fs_monitor_value_is_true = match m.fs_monitor {
                Some(b) => b,
                None => false,
            };
            Some(
                Repo {
                    branch,
                    workdir: m.workdir,
                    path: m.git_dir,
                    state: m.state,
                    remote,
                    fs_monitor_value_is_true,
                    kind: m.kind,
                },
            )
        },
    }
}

/// The exact argument list of a hardened git invocation: the caller's
/// directory pinned with `-C`, the discovered `.git` directory pinned with
/// `--git-dir`, `core.fsmonitor` forced to the value observed at discovery,
/// the working tree pinned when one exists and omitted for bare
/// repositories, and the caller's arguments last.
pub open spec fn exec_git_args(repo: Repo, current_dir: Seq<char>, extra: Seq<Seq<char>>) -> Seq<
    Seq<char>,
> {
    let fsm = if repo.fs_monitor_value_is_true {
        "core.fsmonitor=true"@
    } else {
        "core.fsmonitor="@
    };
    let base = seq!["-C"@, current_dir, "--git-dir"@, repo.path@, "-c"@, fsm];
    let pinned = match repo.workdir {
        Some(wt) => base + seq!["--work-tree"@, wt@],
        None => base,
    };
    pinned + extra
}

impl Repo {
    /// The external git invocation for the caller's arguments, hardened as
    /// `exec_git_args` states; optional file-system locks are switched off
    /// through the environment, and the call is bounded by the given
    /// timeout. The caller runs it and treats spawn failure, non-zero exit
    /// and timeout as absence of the output, never as a hard error.
    pub fn exec_git(&self, current_dir: &str, timeout_ms: u64, git_args: Vec<String>) -> (r:
        Invocation)
        ensures
            r.program@ == "git"@,
            crate::text::str_views(r.args@) == exec_git_args(
                *self,
                current_dir@,
                crate::text::str_views(git_args@),
            ),
            r.env@.len() == 1 && r.env@[0].0@ == "GIT_OPTIONAL_LOCKS"@ && r.env@[0].1@ == "0"@,
            r.timeout_ms == timeout_ms,
    {
        let mut args: Vec<String> = Vec::new();
        args.push("-C".to_owned());
        args.push(current_dir.to_owned());
        args.push("--git-dir".to_owned());
        args.push(self.path.clone());
        args.push("-c".to_owned());
        // A value of `true` is echoed back; anything else disables the
        // monitor outright, so no unvetted hook runs between discovery
        // and use.
        if self.fs_monitor_value_is_true {
            args.push("core.fsmonitor=true".to_owned());
        } else {
            args.push("core.fsmonitor=".to_owned());
        }
        match &self.workdir {
            Some(wt) => {
                args.push("--work-tree".to_owned());
                args.push(wt.clone());
            },
            None => {},
        }
        let mut extra = git_args;
        let ghost extra_views = crate::text::str_views(extra@);
        args.append(&mut extra);
        let mut env: Vec<(String, String)> = Vec::new();
        env.push(("GIT_OPTIONAL_LOCKS".to_owned(), "0".to_owned()));
        proof {
            assert(crate::text::str_views(args@) =~= exec_git_args(
                *self,
                current_dir@,
                extra_views,
            ));
        }
        Invocation { program: "git".to_owned(), env, args, timeout_ms }
    }
}

} // verus!
