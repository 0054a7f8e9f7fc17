//! The facts that a card shows. A fact that could not be had is `None`.
use vstd::prelude::*;
use crate::binary64::Binary64;

verus! {

pub const SCHEMA_VERSION: u32 = 1;

#[derive(Clone, Debug, PartialEq)]
pub struct Snapshot {
    pub schema_version: u32,
    pub mode: SnapshotMode,
    pub context: Context,
    pub project: Option<Project>,
    pub git: Option<Git>,
    pub system: System,
    pub time: LocalTime,
    pub diagnostics: Vec<Diagnostic>,
}

impl Snapshot {
    /// A snapshot of `mode` in which no fact is known.
    pub fn empty(mode: SnapshotMode) -> (snapshot: Self)
        ensures
            snapshot.schema_version == SCHEMA_VERSION,
            snapshot.mode == mode,
            snapshot.context.worktree is None,
            snapshot.context.directory is None,
            snapshot.project is None,
            snapshot.git is None,
            snapshot.system.unknown(),
            snapshot.time.unknown(),
            snapshot.diagnostics@.len() == 0,
    {
        Snapshot {
            schema_version: SCHEMA_VERSION,
            mode,
            context: Context { worktree: None, directory: None },
            project: None,
            git: None,
            system: System::default(),
            time: LocalTime::default(),
            diagnostics: Vec::new(),
        }
    }
}

#[derive(Clone, Copy, Debug, PartialEq, Eq, Structural)]
pub enum SnapshotMode {
    OneShot,
    Live,
    Hook,
}

#[derive(Clone, Debug, PartialEq)]
pub struct Context {
    pub worktree: Option<String>,
    pub directory: Option<String>,
}

impl Default for Context {
    fn default() -> (context: Self)
        ensures
            context.worktree is None,
            context.directory is None,
    {
        Context { worktree: None, directory: None }
    }
}

#[derive(Clone, Debug, PartialEq)]
pub struct Project {
    pub primary_language: Option<String>,
    pub toolchains: Vec<Toolchain>,
    pub loc: Option<Loc>,
    pub coverage: Option<Coverage>,
}

#[derive(Clone, Debug, PartialEq)]
pub struct Toolchain {
    pub language: String,
    pub runtime: String,
    pub version: Option<String>,
}

#[derive(Clone, Debug, PartialEq)]
pub struct Loc {
    pub total: u64,
    pub unit: CountUnit,
    pub truncated: bool,
    pub by_language: Vec<LanguageLoc>,
}

/// The lines of all entries together.
pub open spec fn lines_sum(entries: Seq<LanguageLoc>) -> nat
    decreases entries.len(),
{
    if entries.len() == 0 {
        0
    } else {
        lines_sum(entries.drop_last()) + entries.last().lines as nat
    }
}

pub proof fn lemma_lines_sum_prefix(entries: Seq<LanguageLoc>, count: int)
    requires
        0 <= count <= entries.len(),
    ensures
        lines_sum(entries.take(count)) <= lines_sum(entries),
    decreases entries.len() - count,
{
    if count < entries.len() {
        lemma_lines_sum_prefix(entries, count + 1);
        assert(entries.take(count + 1).drop_last() =~= entries.take(count));
    } else {
        assert(entries.take(count) =~= entries);
    }
}

impl Loc {
    /// Whether the entries' lines add up to the total.
    pub fn totals_reconcile(&self) -> (reconciled: bool)
        requires
            lines_sum(self.by_language@) <= u64::MAX,
        ensures
            reconciled == (lines_sum(self.by_language@) == self.total),
    {
        let mut sum: u64 = 0;
        let mut i: usize = 0;
        while i < self.by_language.len()
            invariant
                i <= self.by_language@.len(),
                sum == lines_sum(self.by_language@.take(i as int)),
                lines_sum(self.by_language@) <= u64::MAX,
            decreases self.by_language@.len() - i,
        {
            proof {
                lemma_lines_sum_prefix(self.by_language@, i + 1);
                assert(self.by_language@.take(i + 1).drop_last() =~= self.by_language@.take(
                    i as int,
                ));
            }
            sum = sum + self.by_language[i].lines;
            i = i + 1;
        }
        assert(self.by_language@.take(i as int) =~= self.by_language@);
        sum == self.total
    }
}

#[derive(Clone, Debug, PartialEq)]
pub struct LanguageLoc {
    pub language: String,
    pub lines: u64,
    pub unit: CountUnit,
}

#[derive(Clone, Debug, PartialEq)]
pub struct Coverage {
    pub line_percent: Option<Binary64>,
    pub branch_percent: Option<Binary64>,
    pub function_percent: Option<Binary64>,
    pub source: Option<String>,
    pub format: Option<CoverageFormat>,
    pub report_path: Option<String>,
    pub report_modified: Option<Seconds>,
    pub stale: Freshness,
}

#[derive(Clone, Copy, Debug, PartialEq, Eq, Structural)]
pub enum CoverageFormat {
    Lcov,
    CoberturaXml,
    JacocoXml,
    GoCoverprofile,
    IstanbulSummary,
}

#[derive(Clone, Debug, PartialEq)]
pub struct Git {
    pub head: GitHead,
    pub dirty: bool,
    pub staged: u32,
    pub unstaged: u32,
    pub conflicts: u32,
    pub ahead: Option<u32>,
    pub upstream: Option<String>,
}

#[derive(Clone, Debug, PartialEq)]
pub enum GitHead {
    Branch { name: String },
    Detached { commit: String },
    Unborn,
}

#[derive(Clone, Debug, PartialEq)]
pub struct System {
    pub os: Option<OperatingSystem>,
    pub cpu: Option<Cpu>,
    pub memory: Option<Memory>,
    pub disks: Vec<Disk>,
    pub uptime: Option<Seconds>,
}

impl System {
    /// No fact is known.
    pub open spec fn unknown(self) -> bool {
        &&& self.os is None
        &&& self.cpu is None
        &&& self.memory is None
        &&& self.disks@.len() == 0
        &&& self.uptime is None
    }
}

impl Default for System {
    fn default() -> (system: Self)
        ensures
            system.unknown(),
    {
        System { os: None, cpu: None, memory: None, disks: Vec::new(), uptime: None }
    }
}

#[derive(Clone, Debug, PartialEq)]
pub struct OperatingSystem {
    pub name: String,
    pub version: Option<String>,
    pub architecture: Option<String>,
}

#[derive(Clone, Debug, PartialEq)]
pub struct Cpu {
    pub label: Option<String>,
    pub utilization_percent: Option<Binary64>,
    pub frequency_mhz: Option<u64>,
}

#[derive(Clone, Debug, PartialEq)]
pub struct Memory {
    pub used_bytes: u64,
    pub total_bytes: u64,
}

#[derive(Clone, Debug, PartialEq)]
pub struct Disk {
    pub mount: String,
    pub used_bytes: u64,
    pub total_bytes: u64,
}

#[derive(Clone, Debug, PartialEq)]
pub struct LocalTime {
    pub local: Option<String>,
    pub date: Option<String>,
    pub timezone_name: Option<String>,
    pub timezone_offset_seconds: Option<i32>,
    pub day_progress_percent: Option<Binary64>,
}

impl LocalTime {
    /// No fact is known.
    pub open spec fn unknown(self) -> bool {
        &&& self.local is None
        &&& self.date is None
        &&& self.timezone_name is None
        &&& self.timezone_offset_seconds is None
        &&& self.day_progress_percent is None
    }
}

impl Default for LocalTime {
    fn default() -> (time: Self)
        ensures
            time.unknown(),
    {
        LocalTime {
            local: None,
            date: None,
            timezone_name: None,
            timezone_offset_seconds: None,
            day_progress_percent: None,
        }
    }
}

#[derive(Clone, Copy, Debug, PartialEq, Eq, Structural)]
pub enum Freshness {
    Current,
    Stale,
    Unknown,
}

#[derive(Clone, Copy, Debug, PartialEq, Eq, Structural)]
pub enum CountUnit {
    Lines,
}

#[derive(Clone, Copy, Debug, PartialEq, Eq, Structural)]
pub struct Seconds {
    pub value: u64,
    pub unit: SecondsUnit,
}

#[derive(Clone, Copy, Debug, PartialEq, Eq, Structural)]
pub enum SecondsUnit {
    Seconds,
}

#[derive(Clone, Debug, PartialEq)]
pub struct Diagnostic {
    pub severity: DiagnosticSeverity,
    pub code: String,
    pub message: String,
    pub subject: Option<String>,
}

#[derive(Clone, Copy, Debug, PartialEq, Eq, Structural)]
pub enum DiagnosticSeverity {
    Info,
    Warning,
    Error,
}

#[verifier::ext_equal]
pub struct DiagnosticView {
    pub severity: DiagnosticSeverity,
    pub code: Seq<char>,
    pub message: Seq<char>,
    pub subject: Option<Seq<char>>,
}

impl View for Diagnostic {
    type V = DiagnosticView;

    open spec fn view(&self) -> DiagnosticView {
        DiagnosticView {
            severity: self.severity,
            code: self.code@,
            message: self.message@,
            subject: crate::strings::optional_text(self.subject),
        }
    }
}

pub open spec fn diagnostic_views(diagnostics: Seq<Diagnostic>) -> Seq<DiagnosticView> {
    Seq::new(diagnostics.len(), |i: int| diagnostics[i]@)
}

/// Adds one diagnostic.
pub fn push_diagnostic(diagnostics: &mut Vec<Diagnostic>, item: Diagnostic)
    ensures
        diagnostic_views(final(diagnostics)@) == diagnostic_views(old(diagnostics)@).push(item@),
{
    diagnostics.push(item);
    assert(diagnostic_views(diagnostics@) =~= diagnostic_views(old(diagnostics)@).push(item@));
}

#[verifier::ext_equal]
pub struct CoverageView {
    pub line_percent: Option<Binary64>,
    pub branch_percent: Option<Binary64>,
    pub function_percent: Option<Binary64>,
    pub source: Option<Seq<char>>,
    pub format: Option<CoverageFormat>,
    pub report_path: Option<Seq<char>>,
    pub report_modified: Option<Seconds>,
    pub stale: Freshness,
}

impl View for Coverage {
    type V = CoverageView;

    open spec fn view(&self) -> CoverageView {
        CoverageView {
            line_percent: self.line_percent,
            branch_percent: self.branch_percent,
            function_percent: self.function_percent,
            source: crate::strings::optional_text(self.source),
            format: self.format,
            report_path: crate::strings::optional_text(self.report_path),
            report_modified: self.report_modified,
            stale: self.stale,
        }
    }
}

} // verus!
