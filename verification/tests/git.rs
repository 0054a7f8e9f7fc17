use git2::Status;
use hoshino::collect::git::{
    collect, count_statuses, upstream, AheadRead, GitRead, StatusCounts, UpstreamRead, CONFLICTED,
    INDEX_CHANGES, WORKTREE_CHANGES,
};
use hoshino::model::{Diagnostic, Git, GitHead};

fn collected(read: GitRead) -> (Option<Git>, Vec<Diagnostic>) {
    let mut diagnostics = Vec::new();
    let git = collect(read, &mut diagnostics);
    (git, diagnostics)
}

fn main_branch(statuses: Vec<Status>, upstream: UpstreamRead) -> GitRead {
    GitRead::Read {
        head: GitHead::Branch { name: "main".into() },
        statuses: statuses.iter().map(|status| status.bits()).collect(),
        upstream,
    }
}

#[test]
fn no_repository_returns_none_without_diagnostic() {
    let (git, diagnostics) = collected(GitRead::NoRepository);
    assert!(git.is_none());
    assert!(diagnostics.is_empty());
}

#[test]
fn unborn_repository_is_reported_without_error() {
    let (git, diagnostics) = collected(GitRead::Read {
        head: GitHead::Unborn,
        statuses: vec![],
        upstream: UpstreamRead::NoBranch,
    });
    let git = git.unwrap();
    assert_eq!(git.head, GitHead::Unborn);
    assert!(!git.dirty);
    assert_eq!((git.staged, git.unstaged, git.conflicts), (0, 0, 0));
    assert_eq!(git.upstream, None);
    assert_eq!(git.ahead, None);
    assert!(diagnostics.is_empty());
}

#[test]
fn named_branch_clean_state_has_zero_counts() {
    let (git, diagnostics) =
        collected(main_branch(vec![Status::CURRENT], UpstreamRead::NotConfigured));
    let git = git.unwrap();
    assert_eq!(git.head, GitHead::Branch { name: "main".into() });
    assert!(!git.dirty);
    assert_eq!((git.staged, git.unstaged, git.conflicts), (0, 0, 0));
    assert!(diagnostics.is_empty());
}

#[test]
fn staged_changes_are_counted_separately() {
    let (git, _) =
        collected(main_branch(vec![Status::INDEX_MODIFIED], UpstreamRead::NotConfigured));
    let git = git.unwrap();
    assert!(git.dirty);
    assert_eq!((git.staged, git.unstaged, git.conflicts), (1, 0, 0));
}

#[test]
fn unstaged_changes_are_counted_separately() {
    let (git, _) = collected(main_branch(vec![Status::WT_MODIFIED], UpstreamRead::NotConfigured));
    let git = git.unwrap();
    assert!(git.dirty);
    assert_eq!((git.staged, git.unstaged, git.conflicts), (0, 1, 0));
}

#[test]
fn detached_head_keeps_commit_identity() {
    let commit = "0123456789012345678901234567890123456789".to_string();
    let (git, diagnostics) = collected(GitRead::Read {
        head: GitHead::Detached { commit: commit.clone() },
        statuses: vec![],
        upstream: UpstreamRead::NoBranch,
    });
    let git = git.unwrap();
    assert_eq!(git.head, GitHead::Detached { commit });
    assert!(!git.dirty);
    assert_eq!(git.upstream, None);
    assert_eq!(git.ahead, None);
    assert!(diagnostics.is_empty());
}

#[test]
fn branch_without_upstream_reports_no_ahead_value() {
    let (git, diagnostics) = collected(main_branch(vec![], UpstreamRead::NotConfigured));
    let git = git.unwrap();
    assert_eq!(git.upstream, None);
    assert_eq!(git.ahead, None);
    assert!(diagnostics.is_empty());
}

#[test]
fn local_branch_ahead_of_local_bare_upstream_is_counted() {
    let (git, diagnostics) = collected(main_branch(
        vec![],
        UpstreamRead::Named { name: "origin/main".into(), ahead: AheadRead::Ahead(1) },
    ));
    let git = git.unwrap();
    assert_eq!(git.upstream.as_deref(), Some("origin/main"));
    assert_eq!(git.ahead, Some(1));
    assert!(!git.dirty);
    assert!(diagnostics.is_empty());
}

#[test]
fn actual_merge_conflict_is_counted_without_panic() {
    let conflict = Status::CONFLICTED | Status::INDEX_MODIFIED | Status::WT_MODIFIED;
    let (git, diagnostics) = collected(main_branch(vec![conflict], UpstreamRead::NotConfigured));
    let git = git.unwrap();
    assert!(git.dirty);
    assert_eq!(git.conflicts, 1);
    assert_eq!((git.staged, git.unstaged), (0, 0));
    assert!(diagnostics.is_empty());
}

#[test]
fn invalid_index_is_reported_as_a_diagnostic() {
    let (git, diagnostics) = collected(GitRead::StatusFailed("invalid index".into()));
    assert!(git.is_none());
    assert!(diagnostics.iter().any(|item| item.code == "git-status"));
}

#[test]
fn failed_reads_are_told_apart() {
    for (read, code) in [
        (GitRead::DiscoverFailed("m".into()), "git-discover"),
        (GitRead::HeadFailed("m".into()), "git-head"),
        (GitRead::DetachedWithoutTarget, "git-head"),
    ] {
        let (git, diagnostics) = collected(read);
        assert!(git.is_none());
        assert_eq!(diagnostics.len(), 1);
        assert_eq!(diagnostics[0].code, code);
    }
    for read in [
        UpstreamRead::BranchFailed("m".into()),
        UpstreamRead::UpstreamFailed("m".into()),
        UpstreamRead::NameInvalid,
        UpstreamRead::NameFailed("m".into()),
        UpstreamRead::Named { name: "n".into(), ahead: AheadRead::Failed("m".into()) },
    ] {
        let found = upstream(read);
        assert_eq!(found.ahead, None);
        assert!(found.warning.is_some());
    }
    let silent = upstream(UpstreamRead::Named { name: "n".into(), ahead: AheadRead::NoTarget });
    assert_eq!(silent.name.as_deref(), Some("n"));
    assert!(silent.warning.is_none());
}

#[test]
fn status_bits_are_those_of_the_repository() {
    assert_eq!(CONFLICTED, Status::CONFLICTED.bits());
    let index = Status::INDEX_NEW
        | Status::INDEX_MODIFIED
        | Status::INDEX_DELETED
        | Status::INDEX_RENAMED
        | Status::INDEX_TYPECHANGE;
    assert_eq!(INDEX_CHANGES, index.bits());
    let worktree = Status::WT_NEW
        | Status::WT_MODIFIED
        | Status::WT_DELETED
        | Status::WT_RENAMED
        | Status::WT_TYPECHANGE;
    assert_eq!(WORKTREE_CHANGES, worktree.bits());
    let both = (Status::INDEX_NEW | Status::WT_DELETED).bits();
    assert_eq!(
        count_statuses(&vec![both, both, Status::IGNORED.bits()]),
        StatusCounts { staged: 2, unstaged: 2, conflicts: 0 }
    );
}
