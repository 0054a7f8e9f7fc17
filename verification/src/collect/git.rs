//! Git facts from what a repository answered.
use vstd::prelude::*;
use crate::collect::system;
use crate::collect::system::diagnostic;
use crate::model;
use crate::model::{push_diagnostic, Diagnostic, DiagnosticView, Git, GitHead};

verus! {

/// The status bit of a conflicted entry.
pub const CONFLICTED: u32 = 0x8000;

/// The status bits of a change in the index: new, modified, deleted, renamed, or of
/// another type.
pub const INDEX_CHANGES: u32 = 0x1f;

/// The status bits of a change in the worktree: new, modified, deleted, of another type,
/// or renamed.
pub const WORKTREE_CHANGES: u32 = 0xf80;

/// How far reading how far a branch is ahead got.
#[derive(Clone, Debug)]
pub enum AheadRead {
    /// One of the two ends has no commit.
    NoTarget,
    Failed(String),
    Ahead(usize),
}

/// How far reading the branch's upstream got.
#[derive(Clone, Debug)]
pub enum UpstreamRead {
    /// The head is no branch.
    NoBranch,
    BranchFailed(String),
    NotConfigured,
    UpstreamFailed(String),
    NameInvalid,
    NameFailed(String),
    Named { name: String, ahead: AheadRead },
}

/// How far reading the repository got.
#[derive(Clone, Debug)]
pub enum GitRead {
    NoRepository,
    DiscoverFailed(String),
    HeadFailed(String),
    DetachedWithoutTarget,
    StatusFailed(String),
    Read { head: GitHead, statuses: Vec<u32>, upstream: UpstreamRead },
}

/// How many entries are changed, and where.
#[derive(Clone, Copy, Debug, PartialEq, Eq, Structural)]
pub struct StatusCounts {
    pub staged: u32,
    pub unstaged: u32,
    pub conflicts: u32,
}

pub open spec fn conflicted(status: u32) -> bool {
    status & CONFLICTED != 0
}

pub open spec fn staged(status: u32) -> bool {
    !conflicted(status) && status & INDEX_CHANGES != 0
}

pub open spec fn unstaged(status: u32) -> bool {
    !conflicted(status) && status & WORKTREE_CHANGES != 0
}

/// One more, as far as 32 bits count.
pub open spec fn counted(count: u32, more: bool) -> u32 {
    if more && count < u32::MAX {
        (count + 1) as u32
    } else {
        count
    }
}

/// The counts of some entries: a conflicted one counts as that alone, any other as staged,
/// as unstaged, or as both.
pub open spec fn counts_of(statuses: Seq<u32>) -> StatusCounts
    decreases statuses.len(),
{
    if statuses.len() == 0 {
        StatusCounts { staged: 0, unstaged: 0, conflicts: 0 }
    } else {
        let before = counts_of(statuses.drop_last());
        let last = statuses.last();
        StatusCounts {
            staged: counted(before.staged, staged(last)),
            unstaged: counted(before.unstaged, unstaged(last)),
            conflicts: counted(before.conflicts, conflicted(last)),
        }
    }
}

/// Counts the entries.
pub fn count_statuses(statuses: &Vec<u32>) -> (counts: StatusCounts)
    ensures
        counts == counts_of(statuses@),
{
    let mut counts = StatusCounts { staged: 0, unstaged: 0, conflicts: 0 };
    let mut at: usize = 0;
    while at < statuses.len()
        invariant
            at <= statuses@.len(),
            counts == counts_of(statuses@.take(at as int)),
        decreases statuses@.len() - at,
    {
        assert(statuses@.take(at + 1).drop_last() =~= statuses@.take(at as int));
        let status: u32 = statuses[at];
        if status & CONFLICTED != 0 {
            counts.conflicts = counts.conflicts.saturating_add(1);
        } else {
            if status & INDEX_CHANGES != 0 {
                counts.staged = counts.staged.saturating_add(1);
            }
            if status & WORKTREE_CHANGES != 0 {
                counts.unstaged = counts.unstaged.saturating_add(1);
            }
        }
        at = at + 1;
    }
    assert(statuses@.take(at as int) =~= statuses@);
    counts
}

/// The upstream's name, how far the branch is ahead of it, and a warning.
pub struct Upstream {
    pub name: Option<String>,
    pub ahead: Option<u32>,
    pub warning: Option<Diagnostic>,
}

pub struct UpstreamView {
    pub name: Option<Seq<char>>,
    pub ahead: Option<u32>,
    pub warning: Option<DiagnosticView>,
}

impl View for Upstream {
    type V = UpstreamView;

    open spec fn view(&self) -> UpstreamView {
        UpstreamView {
            name: crate::strings::optional_text(self.name),
            ahead: self.ahead,
            warning: match self.warning {
                Some(item) => Some(item@),
                None => None,
            },
        }
    }
}

pub open spec fn capped(count: usize) -> u32 {
    if count > u32::MAX {
        u32::MAX
    } else {
        count as u32
    }
}

/// The upstream that was read. None is no problem; one that cannot be read is.
pub open spec fn upstream_of(read: UpstreamRead) -> UpstreamView {
    let none = UpstreamView { name: None, ahead: None, warning: None };
    match read {
        UpstreamRead::NoBranch | UpstreamRead::NotConfigured => none,
        UpstreamRead::BranchFailed(message) | UpstreamRead::UpstreamFailed(message)
        | UpstreamRead::NameFailed(message) => UpstreamView {
            warning: Some(system::warning("git-upstream"@, message@)),
            ..none
        },
        UpstreamRead::NameInvalid => UpstreamView {
            warning: Some(system::warning("git-upstream"@, "upstream name is not valid UTF-8"@)),
            ..none
        },
        UpstreamRead::Named { name, ahead } => match ahead {
            AheadRead::NoTarget => UpstreamView { name: Some(name@), ..none },
            AheadRead::Failed(message) => UpstreamView {
                name: Some(name@),
                warning: Some(system::warning("git-ahead"@, message@)),
                ..none
            },
            AheadRead::Ahead(count) => UpstreamView {
                name: Some(name@),
                ahead: Some(capped(count)),
                ..none
            },
        },
    }
}

pub fn upstream(read: UpstreamRead) -> (found: Upstream)
    ensures
        found@ == upstream_of(read),
{
    match read {
        UpstreamRead::NoBranch | UpstreamRead::NotConfigured => Upstream {
            name: None,
            ahead: None,
            warning: None,
        },
        UpstreamRead::BranchFailed(message) | UpstreamRead::UpstreamFailed(message)
        | UpstreamRead::NameFailed(message) => Upstream {
            name: None,
            ahead: None,
            warning: Some(diagnostic("git-upstream", message.as_str())),
        },
        UpstreamRead::NameInvalid => Upstream {
            name: None,
            ahead: None,
            warning: Some(diagnostic("git-upstream", "upstream name is not valid UTF-8")),
        },
        UpstreamRead::Named { name, ahead } => match ahead {
            AheadRead::NoTarget => Upstream { name: Some(name), ahead: None, warning: None },
            AheadRead::Failed(message) => Upstream {
                name: Some(name),
                ahead: None,
                warning: Some(diagnostic("git-ahead", message.as_str())),
            },
            AheadRead::Ahead(count) => {
                let ahead: u32 = if count > u32::MAX as usize {
                    u32::MAX
                } else {
                    count as u32
                };
                Upstream { name: Some(name), ahead: Some(ahead), warning: None }
            },
        },
    }
}

/// The warning of a reading that gave no facts.
pub open spec fn read_warning(read: GitRead) -> Option<DiagnosticView> {
    match read {
        GitRead::NoRepository => None,
        GitRead::DiscoverFailed(message) => Some(system::warning("git-discover"@, message@)),
        GitRead::HeadFailed(message) => Some(system::warning("git-head"@, message@)),
        GitRead::DetachedWithoutTarget => Some(
            system::warning("git-head"@, "detached HEAD has no commit target"@),
        ),
        GitRead::StatusFailed(message) => Some(system::warning("git-status"@, message@)),
        GitRead::Read { upstream, .. } => upstream_of(upstream).warning,
    }
}

pub open spec fn with_warning(diagnostics: Seq<DiagnosticView>, item: Option<DiagnosticView>) -> Seq<
    DiagnosticView,
> {
    match item {
        Some(item) => diagnostics.push(item),
        None => diagnostics,
    }
}

/// The facts of what a repository answered. Outside of a repository there are none, and
/// that is no problem; a repository that cannot be read has none, with a warning.
pub fn collect(read: GitRead, diagnostics: &mut Vec<Diagnostic>) -> (facts: Option<Git>)
    ensures
        model::diagnostic_views(final(diagnostics)@) == with_warning(
            model::diagnostic_views(old(diagnostics)@),
            read_warning(read),
        ),
        match read {
            GitRead::Read { head, statuses, upstream } => {
                let counts = counts_of(statuses@);
                &&& facts is Some
                &&& facts->0.head == head
                &&& facts->0.staged == counts.staged
                &&& facts->0.unstaged == counts.unstaged
                &&& facts->0.conflicts == counts.conflicts
                &&& facts->0.dirty == (counts.staged > 0 || counts.unstaged > 0 || counts.conflicts
                    > 0)
                &&& facts->0.ahead == upstream_of(upstream).ahead
                &&& crate::strings::optional_text(facts->0.upstream) == upstream_of(upstream).name
            },
            _ => facts is None,
        },
{
    match read {
        GitRead::NoRepository => None,
        GitRead::DiscoverFailed(message) => {
            push_diagnostic(diagnostics, diagnostic("git-discover", message.as_str()));
            None
        },
        GitRead::HeadFailed(message) => {
            push_diagnostic(diagnostics, diagnostic("git-head", message.as_str()));
            None
        },
        GitRead::DetachedWithoutTarget => {
            push_diagnostic(
                diagnostics,
                diagnostic("git-head", "detached HEAD has no commit target"),
            );
            None
        },
        GitRead::StatusFailed(message) => {
            push_diagnostic(diagnostics, diagnostic("git-status", message.as_str()));
            None
        },
        GitRead::Read { head, statuses, upstream: read } => {
            let counts = count_statuses(&statuses);
            let found = upstream(read);
            if let Some(item) = found.warning {
                push_diagnostic(diagnostics, item);
            }
            Some(
                Git {
                    head,
                    dirty: counts.staged > 0 || counts.unstaged > 0 || counts.conflicts > 0,
                    staged: counts.staged,
                    unstaged: counts.unstaged,
                    conflicts: counts.conflicts,
                    ahead: found.ahead,
                    upstream: found.name,
                },
            )
        },
    }
}

/// A repository is clean exactly where no entry has a change that is counted.
pub proof fn law_clean_means_no_change(statuses: Seq<u32>)
    ensures
        ({
            let counts = counts_of(statuses);
            (counts.staged > 0 || counts.unstaged > 0 || counts.conflicts > 0) == exists|i: int|
                0 <= i < statuses.len() && (conflicted(#[trigger] statuses[i]) || staged(
                    statuses[i],
                ) || unstaged(statuses[i]))
        }),
    decreases statuses.len(),
{
    if statuses.len() > 0 {
        let front = statuses.drop_last();
        law_clean_means_no_change(front);
        let last = statuses[statuses.len() - 1];
        let before = counts_of(front);
        if before.staged > 0 || before.unstaged > 0 || before.conflicts > 0 {
            let i = choose|i: int|
                0 <= i < front.len() && (conflicted(#[trigger] front[i]) || staged(front[i])
                    || unstaged(front[i]));
            assert(statuses[i] == front[i]);
        }
        assert forall|i: int|
            0 <= i < statuses.len() && (conflicted(#[trigger] statuses[i]) || staged(statuses[i])
                || unstaged(statuses[i])) && i < front.len() implies before.staged > 0
            || before.unstaged > 0 || before.conflicts > 0 by {
            assert(front[i] == statuses[i]);
        }
        if conflicted(last) || staged(last) || unstaged(last) {
            assert(conflicted(statuses[statuses.len() - 1]) || staged(last) || unstaged(last));
        }
    }
}

/// What one entry more adds, bit by bit. A conflicted entry adds one to the conflicts and
/// nothing else. Of any other entry each of the five index bits adds it to the staged
/// count and each of the five worktree bits adds it to the unstaged count, once however
/// many of them it has; an entry that has none of them adds nothing.
pub proof fn law_every_status_bit_counts(statuses: Seq<u32>, status: u32)
    requires
        statuses.len() < u32::MAX,
    ensures
        ({
            let before = counts_of(statuses);
            let after = counts_of(statuses.push(status));
            &&& status & 0x8000 != 0 ==> {
                &&& after.conflicts == before.conflicts + 1
                &&& after.staged == before.staged
                &&& after.unstaged == before.unstaged
            }
            &&& status & 0x8000 == 0 ==> {
                &&& after.conflicts == before.conflicts
                &&& status & 0x1 != 0 ==> after.staged == before.staged + 1
                &&& status & 0x2 != 0 ==> after.staged == before.staged + 1
                &&& status & 0x4 != 0 ==> after.staged == before.staged + 1
                &&& status & 0x8 != 0 ==> after.staged == before.staged + 1
                &&& status & 0x10 != 0 ==> after.staged == before.staged + 1
                &&& (status & 0x1 == 0 && status & 0x2 == 0 && status & 0x4 == 0 && status & 0x8
                    == 0 && status & 0x10 == 0) ==> after.staged == before.staged
                &&& status & 0x80 != 0 ==> after.unstaged == before.unstaged + 1
                &&& status & 0x100 != 0 ==> after.unstaged == before.unstaged + 1
                &&& status & 0x200 != 0 ==> after.unstaged == before.unstaged + 1
                &&& status & 0x400 != 0 ==> after.unstaged == before.unstaged + 1
                &&& status & 0x800 != 0 ==> after.unstaged == before.unstaged + 1
                &&& (status & 0x80 == 0 && status & 0x100 == 0 && status & 0x200 == 0 && status
                    & 0x400 == 0 && status & 0x800 == 0) ==> after.unstaged == before.unstaged
            }
        }),
        counts_of(Seq::<u32>::empty()).staged == 0,
        counts_of(Seq::<u32>::empty()).unstaged == 0,
        counts_of(Seq::<u32>::empty()).conflicts == 0,
{
    law_no_more_counted_than_entries(statuses);
    assert(statuses.push(status).drop_last() =~= statuses);
    assert(statuses.push(status).last() == status);
    assert((status & 0x1f == 0) == (status & 0x1 == 0 && status & 0x2 == 0 && status & 0x4 == 0
        && status & 0x8 == 0 && status & 0x10 == 0)) by (bit_vector);
    assert((status & 0xf80 == 0) == (status & 0x80 == 0 && status & 0x100 == 0 && status & 0x200
        == 0 && status & 0x400 == 0 && status & 0x800 == 0)) by (bit_vector);
}

/// No count is larger than the number of entries.
pub proof fn law_no_more_counted_than_entries(statuses: Seq<u32>)
    ensures
        counts_of(statuses).staged <= statuses.len(),
        counts_of(statuses).unstaged <= statuses.len(),
        counts_of(statuses).conflicts <= statuses.len(),
    decreases statuses.len(),
{
    if statuses.len() > 0 {
        law_no_more_counted_than_entries(statuses.drop_last());
    }
}

/// A status list is clean exactly where no entry has the conflict bit, an index bit or a
/// worktree bit: the mask holds all eleven of them, and none of the others.
pub proof fn law_clean_means_no_bit(statuses: Seq<u32>)
    ensures
        (counts_of(statuses).staged == 0 && counts_of(statuses).unstaged == 0 && counts_of(
            statuses,
        ).conflicts == 0) == (forall|i: int|
            0 <= i < statuses.len() ==> #[trigger] statuses[i] & 0x8f9f == 0),
    decreases statuses.len(),
{
    if statuses.len() > 0 {
        let front = statuses.drop_last();
        let last = statuses[statuses.len() - 1];
        law_clean_means_no_bit(front);
        assert((last & 0x8f9f == 0) == (last & 0x8000 == 0 && last & 0x1f == 0 && last & 0xf80
            == 0)) by (bit_vector);
        if forall|i: int| 0 <= i < statuses.len() ==> #[trigger] statuses[i] & 0x8f9f == 0 {
            assert forall|i: int| 0 <= i < front.len() implies #[trigger] front[i] & 0x8f9f == 0 by {
                assert(front[i] == statuses[i]);
            }
        } else if forall|i: int| 0 <= i < front.len() ==> #[trigger] front[i] & 0x8f9f == 0 {
            assert forall|i: int| 0 <= i < statuses.len() && last & 0x8f9f == 0 implies
                #[trigger] statuses[i] & 0x8f9f == 0 by {
                if i < front.len() {
                    assert(front[i] == statuses[i]);
                }
            }
        }
    }
}

/// The counts tell nothing of the order of the entries: two neighbours may change places.
pub proof fn law_order_of_entries_is_not_counted(statuses: Seq<u32>, first: u32, second: u32)
    ensures
        counts_of(statuses.push(first).push(second)) == counts_of(
            statuses.push(second).push(first),
        ),
{
    assert(statuses.push(first).push(second).drop_last() =~= statuses.push(first));
    assert(statuses.push(second).push(first).drop_last() =~= statuses.push(second));
    assert(statuses.push(first).drop_last() =~= statuses);
    assert(statuses.push(second).drop_last() =~= statuses);
    reveal_with_fuel(counts_of, 3);
}

/// How far a branch is ahead is told as it was read, held at the largest 32-bit number,
/// and only where it was read; the name of the upstream is told wherever it was read, and
/// a warning comes exactly with a reading that failed.
pub proof fn law_upstream_is_told_as_read(name: String, count: usize, message: String)
    ensures
        ({
            let told = upstream_of(UpstreamRead::Named { name, ahead: AheadRead::Ahead(count) });
            &&& told.name == Some(name@)
            &&& count <= 0xffff_ffff ==> told.ahead == Some(count as u32)
            &&& count > 0xffff_ffff ==> told.ahead == Some(0xffff_ffffu32)
            &&& told.warning is None
        }),
        ({
            let told = upstream_of(UpstreamRead::Named { name, ahead: AheadRead::NoTarget });
            &&& told.name == Some(name@)
            &&& told.ahead is None
            &&& told.warning is None
        }),
        ({
            let told = upstream_of(
                UpstreamRead::Named { name, ahead: AheadRead::Failed(message) },
            );
            &&& told.name == Some(name@)
            &&& told.ahead is None
            &&& told.warning is Some
            &&& told.warning->0.message == message@
        }),
        upstream_of(UpstreamRead::NoBranch).warning is None,
        upstream_of(UpstreamRead::NotConfigured).warning is None,
        upstream_of(UpstreamRead::BranchFailed(message)).warning is Some,
        upstream_of(UpstreamRead::UpstreamFailed(message)).warning is Some,
        upstream_of(UpstreamRead::NameFailed(message)).warning is Some,
        upstream_of(UpstreamRead::BranchFailed(message)).warning->0.message == message@,
        upstream_of(UpstreamRead::UpstreamFailed(message)).warning->0.message == message@,
        upstream_of(UpstreamRead::NameFailed(message)).warning->0.message == message@,
{
}

} // verus!
