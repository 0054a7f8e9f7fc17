//! The search for a coverage report: which candidates are looked at, in which
//! order, and which of them counts.
use vstd::prelude::*;
use crate::binary64::Binary64;
use crate::collect::coverage;
use crate::collect::coverage::{cobertura, parse, ParsedCoverage, Report, ReportView};
use crate::model;
use crate::model::{
    push_diagnostic, Coverage, CoverageView, Diagnostic, DiagnosticSeverity, DiagnosticView,
    Freshness, Seconds, SecondsUnit,
};
use crate::strings;

verus! {

/// The places below a project's root where a report is looked for, in order.
pub fn candidate_names() -> (names: Vec<&'static str>)
    ensures
        names@.len() == 10,
        names@[0]@ == "coverage/lcov.info"@,
        names@[1]@ == "lcov.info"@,
        names@[2]@ == "coverage/coverage-summary.json"@,
        names@[3]@ == "coverage-summary.json"@,
        names@[4]@ == "coverage.xml"@,
        names@[5]@ == "cobertura.xml"@,
        names@[6]@ == "coverage/cobertura-coverage.xml"@,
        names@[7]@ == "target/site/jacoco/jacoco.xml"@,
        names@[8]@ == "coverage.out"@,
        names@[9]@ == "cover.out"@,
{
    vec![
        "coverage/lcov.info",
        "lcov.info",
        "coverage/coverage-summary.json",
        "coverage-summary.json",
        "coverage.xml",
        "cobertura.xml",
        "coverage/cobertura-coverage.xml",
        "target/site/jacoco/jacoco.xml",
        "coverage.out",
        "cover.out",
    ]
}

/// A file that may hold a report: its path as it is shown, that path below the
/// project's root, its name and extension, and whether the user asked for it.
#[derive(Clone, Debug, PartialEq, Eq)]
pub struct Candidate {
    pub path: String,
    pub relative: String,
    pub name: String,
    pub extension: Option<String>,
    pub configured: bool,
}

pub struct CandidateView {
    pub path: Seq<char>,
    pub relative: Seq<char>,
    pub name: Seq<char>,
    pub extension: Option<Seq<char>>,
    pub configured: bool,
}

impl View for Candidate {
    type V = CandidateView;

    open spec fn view(&self) -> CandidateView {
        CandidateView {
            path: self.path@,
            relative: self.relative@,
            name: self.name@,
            extension: strings::optional_text(self.extension),
            configured: self.configured,
        }
    }
}

pub open spec fn candidate_views(candidates: Seq<Candidate>) -> Seq<CandidateView> {
    Seq::new(candidates.len(), |i: int| candidates[i]@)
}

/// What a path leads to, links not followed.
#[derive(Clone, Copy, Debug, PartialEq, Eq, Structural)]
pub enum LinkCheck {
    Symlink,
    Present,
    Missing,
    Failed,
}

/// What a path leads to, links followed.
#[derive(Clone, Copy, Debug, PartialEq, Eq, Structural)]
pub enum MetadataCheck {
    Missing,
    Failed,
    NotFile,
    File { bytes: u64 },
}

/// What reading a report gave. The time is in nanoseconds since the Unix epoch.
#[derive(Clone, Debug, PartialEq, Eq)]
pub enum ReadOutcome {
    TooLarge,
    NotRegular,
    Failed,
    Text { contents: String, modified: Option<i128> },
}

/// What the search wants to know next of its current candidate.
#[derive(Clone, Debug, PartialEq, Eq)]
pub enum Question {
    Link,
    Identity,
    Metadata,
    Contents { follow_links: bool },
    Rates { line: String, branch: String },
    Nothing,
}

/// The answer to a question. An identity is the same for the paths of one file.
#[derive(Clone, Debug, PartialEq, Eq)]
pub enum Answer {
    Link(LinkCheck),
    Identity(Vec<u8>),
    Metadata(MetadataCheck),
    Contents(ReadOutcome),
    Rates(Option<Binary64>, Option<Binary64>),
}

pub enum AnswerView {
    Link(LinkCheck),
    Identity(Seq<u8>),
    Metadata(MetadataCheck),
    TooLarge,
    NotRegular,
    Unreadable,
    Text { contents: Seq<char>, modified: Option<i128> },
    Rates(Option<Binary64>, Option<Binary64>),
}

impl View for Answer {
    type V = AnswerView;

    open spec fn view(&self) -> AnswerView {
        match *self {
            Answer::Link(check) => AnswerView::Link(check),
            Answer::Identity(key) => AnswerView::Identity(key@),
            Answer::Metadata(check) => AnswerView::Metadata(check),
            Answer::Contents(ReadOutcome::TooLarge) => AnswerView::TooLarge,
            Answer::Contents(ReadOutcome::NotRegular) => AnswerView::NotRegular,
            Answer::Contents(ReadOutcome::Failed) => AnswerView::Unreadable,
            Answer::Contents(ReadOutcome::Text { contents, modified }) => AnswerView::Text {
                contents: contents@,
                modified,
            },
            Answer::Rates(line, branch) => AnswerView::Rates(line, branch),
        }
    }
}

/// How far the search has come with its current candidate.
#[derive(Clone, Debug, PartialEq, Eq)]
pub enum Stage {
    Link,
    Identity,
    Metadata,
    Contents,
    Rates { line: String, branch: String, modified: Option<i128> },
    Done,
}

pub enum StageView {
    Link,
    Identity,
    Metadata,
    Contents,
    Rates { line: Seq<char>, branch: Seq<char>, modified: Option<i128> },
    Done,
}

impl View for Stage {
    type V = StageView;

    open spec fn view(&self) -> StageView {
        match *self {
            Stage::Link => StageView::Link,
            Stage::Identity => StageView::Identity,
            Stage::Metadata => StageView::Metadata,
            Stage::Contents => StageView::Contents,
            Stage::Rates { line, branch, modified } => StageView::Rates {
                line: line@,
                branch: branch@,
                modified,
            },
            Stage::Done => StageView::Done,
        }
    }
}

/// The search for a report among candidates.
pub struct Search {
    pub candidates: Vec<Candidate>,
    pub max_bytes: u64,
    pub newest: Option<i128>,
    pub truncated: bool,
    pub at: usize,
    pub stage: Stage,
    pub seen: Vec<Vec<u8>>,
    pub diagnostics: Vec<Diagnostic>,
    pub found: Option<Coverage>,
}

#[verifier::ext_equal]
pub struct SearchView {
    pub candidates: Seq<CandidateView>,
    pub max_bytes: u64,
    pub newest: Option<i128>,
    pub truncated: bool,
    pub at: nat,
    pub stage: StageView,
    pub seen: Seq<Seq<u8>>,
    pub diagnostics: Seq<DiagnosticView>,
    pub found: Option<CoverageView>,
}

pub open spec fn key_views(keys: Seq<Vec<u8>>) -> Seq<Seq<u8>> {
    Seq::new(keys.len(), |i: int| keys[i]@)
}

impl View for Search {
    type V = SearchView;

    open spec fn view(&self) -> SearchView {
        SearchView {
            candidates: candidate_views(self.candidates@),
            max_bytes: self.max_bytes,
            newest: self.newest,
            truncated: self.truncated,
            at: self.at as nat,
            stage: self.stage@,
            seen: key_views(self.seen@),
            diagnostics: model::diagnostic_views(self.diagnostics@),
            found: match self.found {
                Some(coverage) => Some(coverage@),
                None => None,
            },
        }
    }
}

impl SearchView {
    /// The search has a current candidate until it is done.
    pub open spec fn sound(self) -> bool {
        self.stage is Done || self.at < self.candidates.len()
    }
}

/// The warning that a candidate was passed over.
pub open spec fn skipped(code: Seq<char>, path: Seq<char>) -> DiagnosticView {
    DiagnosticView {
        severity: DiagnosticSeverity::Warning,
        code,
        message: "coverage candidate was skipped"@,
        subject: Some(path),
    }
}

fn skip_warning(code: &str, path: &String) -> (item: Diagnostic)
    ensures
        item@ == skipped(code@, path@),
{
    Diagnostic {
        severity: DiagnosticSeverity::Warning,
        code: code.to_owned(),
        message: "coverage candidate was skipped".to_owned(),
        subject: Some(path.clone()),
    }
}

/// What is asked first of the candidate at `at`: whether it is a link, unless
/// the user asked for it.
pub open spec fn first_stage(candidates: Seq<CandidateView>, at: nat) -> StageView {
    if at >= candidates.len() {
        StageView::Done
    } else if candidates[at as int].configured {
        StageView::Identity
    } else {
        StageView::Link
    }
}

/// The search at its next candidate.
pub open spec fn passed(search: SearchView) -> SearchView {
    SearchView {
        at: search.at + 1,
        stage: first_stage(search.candidates, search.at + 1),
        ..search
    }
}

/// The search at its next candidate, with a warning on this one.
pub open spec fn rejected(search: SearchView, code: Seq<char>) -> SearchView {
    SearchView {
        diagnostics: search.diagnostics.push(
            skipped(code, search.candidates[search.at as int].path),
        ),
        ..passed(search)
    }
}

/// A report is stale where a source is newer, and unknown where not every source was seen.
pub open spec fn freshness_of(
    modified: Option<i128>,
    newest: Option<i128>,
    truncated: bool,
) -> Freshness {
    if truncated {
        Freshness::Unknown
    } else if modified is Some && newest is Some && modified->0 < newest->0 {
        Freshness::Stale
    } else {
        Freshness::Current
    }
}

/// Whole seconds since the Unix epoch, for times not before it.
pub open spec fn seconds_of(modified: Option<i128>) -> Option<Seconds> {
    match modified {
        Some(time) => if time < 0 {
            None
        } else if time / 1_000_000_000 > u64::MAX {
            None
        } else {
            Some(
                Seconds { value: (time / 1_000_000_000) as u64, unit: SecondsUnit::Seconds },
            )
        },
        None => None,
    }
}

/// The search done, with this report found.
pub open spec fn settled(
    search: SearchView,
    parsed: ParsedCoverage,
    modified: Option<i128>,
) -> SearchView {
    SearchView {
        stage: StageView::Done,
        found: Some(
            CoverageView {
                line_percent: parsed.1,
                branch_percent: parsed.2,
                function_percent: parsed.3,
                source: None,
                format: Some(parsed.0),
                report_path: Some(search.candidates[search.at as int].relative),
                report_modified: seconds_of(modified),
                stale: freshness_of(modified, search.newest, search.truncated),
            },
        ),
        ..search
    }
}

/// The search after an answer. An answer to another question changes nothing.
pub open spec fn advanced(search: SearchView, answer: AnswerView) -> SearchView {
    let candidate = search.candidates[search.at as int];
    match search.stage {
        StageView::Link => match answer {
            AnswerView::Link(LinkCheck::Symlink) => rejected(search, "coverage-auto-symlink"@),
            AnswerView::Link(LinkCheck::Present) => SearchView {
                stage: StageView::Identity,
                ..search
            },
            AnswerView::Link(LinkCheck::Missing) => passed(search),
            AnswerView::Link(LinkCheck::Failed) => rejected(search, "coverage-metadata-failed"@),
            _ => search,
        },
        StageView::Identity => match answer {
            AnswerView::Identity(key) => if search.seen.contains(key) {
                passed(search)
            } else {
                SearchView { seen: search.seen.push(key), stage: StageView::Metadata, ..search }
            },
            _ => search,
        },
        StageView::Metadata => match answer {
            AnswerView::Metadata(MetadataCheck::Missing) => if candidate.configured {
                rejected(search, "coverage-configured-missing"@)
            } else {
                passed(search)
            },
            AnswerView::Metadata(MetadataCheck::Failed) => if candidate.configured {
                rejected(search, "coverage-configured-missing"@)
            } else {
                rejected(search, "coverage-metadata-failed"@)
            },
            AnswerView::Metadata(MetadataCheck::NotFile) => rejected(
                search,
                "coverage-not-regular-file"@,
            ),
            AnswerView::Metadata(MetadataCheck::File { bytes }) => if bytes > search.max_bytes {
                rejected(search, "coverage-too-large"@)
            } else {
                SearchView { stage: StageView::Contents, ..search }
            },
            _ => search,
        },
        StageView::Contents => match answer {
            AnswerView::TooLarge => rejected(search, "coverage-too-large"@),
            AnswerView::NotRegular => rejected(search, "coverage-not-regular-file"@),
            AnswerView::Unreadable => rejected(search, "coverage-read-failed"@),
            AnswerView::Text { contents, modified } => match coverage::report_of(
                candidate.name,
                candidate.extension,
                contents,
            ) {
                Some(ReportView::Parsed(parsed)) => settled(search, parsed, modified),
                Some(ReportView::Rates { line, branch }) => SearchView {
                    stage: StageView::Rates { line, branch, modified },
                    ..search
                },
                None => rejected(search, "coverage-malformed"@),
            },
            _ => search,
        },
        StageView::Rates { line, branch, modified } => match answer {
            AnswerView::Rates(line_rate, branch_rate) => {
                let first = coverage::rate_percent(line_rate);
                let second = coverage::rate_percent(branch_rate);
                if first is Some && second is Some {
                    settled(
                        search,
                        (model::CoverageFormat::CoberturaXml, first, second, None),
                        modified,
                    )
                } else {
                    rejected(search, "coverage-malformed"@)
                }
            },
            _ => search,
        },
        StageView::Done => search,
    }
}

/// Whether a report is current.
pub fn report_freshness(modified: Option<i128>, newest: Option<i128>, truncated: bool) -> (fresh:
    Freshness)
    ensures
        fresh == freshness_of(modified, newest, truncated),
{
    if truncated {
        return Freshness::Unknown;
    }
    match (modified, newest) {
        (Some(report), Some(source)) => if report < source {
            Freshness::Stale
        } else {
            Freshness::Current
        },
        _ => Freshness::Current,
    }
}

fn modified_seconds(modified: Option<i128>) -> (seconds: Option<Seconds>)
    ensures
        seconds == seconds_of(modified),
{
    match modified {
        Some(time) => {
            if time < 0 {
                return None;
            }
            let whole: u128 = time as u128 / 1_000_000_000;
            if whole > u64::MAX as u128 {
                return None;
            }
            Some(Seconds { value: whole as u64, unit: SecondsUnit::Seconds })
        },
        None => None,
    }
}

fn holds_key(keys: &Vec<Vec<u8>>, key: &Vec<u8>) -> (held: bool)
    ensures
        held == key_views(keys@).contains(key@),
{
    let mut i: usize = 0;
    while i < keys.len()
        invariant
            i <= keys@.len(),
            forall|j: int| 0 <= j < i ==> key_views(keys@)[j] != key@,
        decreases keys@.len() - i,
    {
        if same_bytes(&keys[i], key) {
            assert(key_views(keys@)[i as int] == key@);
            return true;
        }
        i = i + 1;
    }
    false
}

fn same_bytes(left: &Vec<u8>, right: &Vec<u8>) -> (equal: bool)
    ensures
        equal == (left@ == right@),
{
    if left.len() != right.len() {
        return false;
    }
    let mut i: usize = 0;
    while i < left.len()
        invariant
            i <= left@.len(),
            left@.len() == right@.len(),
            forall|j: int| 0 <= j < i ==> left@[j] == right@[j],
        decreases left@.len() - i,
    {
        if left[i] != right[i] {
            return false;
        }
        i = i + 1;
    }
    assert(left@ =~= right@);
    true
}

impl Search {
    /// A search that has not looked at anything yet.
    pub fn new(
        candidates: Vec<Candidate>,
        max_bytes: u64,
        newest: Option<i128>,
        truncated: bool,
    ) -> (search: Self)
        ensures
            search@ == (SearchView {
                candidates: candidate_views(candidates@),
                max_bytes,
                newest,
                truncated,
                at: 0,
                stage: first_stage(candidate_views(candidates@), 0),
                seen: Seq::empty(),
                diagnostics: Seq::empty(),
                found: None,
            }),
            search@.sound(),
    {
        let stage = if candidates.len() == 0 {
            Stage::Done
        } else if candidates[0].configured {
            Stage::Identity
        } else {
            Stage::Link
        };
        let search = Search {
            candidates,
            max_bytes,
            newest,
            truncated,
            at: 0,
            stage,
            seen: Vec::new(),
            diagnostics: Vec::new(),
            found: None,
        };
        assert(search@.seen =~= Seq::empty());
        assert(search@.diagnostics =~= Seq::empty());
        search
    }

    /// What to find out next.
    pub fn question(&self) -> (question: Question)
        requires
            self@.sound(),
        ensures
            match self@.stage {
                StageView::Link => question is Link,
                StageView::Identity => question is Identity,
                StageView::Metadata => question is Metadata,
                StageView::Contents => question == (Question::Contents {
                    follow_links: self@.candidates[self@.at as int].configured,
                }),
                StageView::Rates { line, branch, .. } => question is Rates
                    && question->Rates_line@ == line && question->Rates_branch@ == branch,
                StageView::Done => question is Nothing,
            },
    {
        match &self.stage {
            Stage::Link => Question::Link,
            Stage::Identity => Question::Identity,
            Stage::Metadata => Question::Metadata,
            Stage::Contents => Question::Contents {
                follow_links: self.candidates[self.at].configured,
            },
            Stage::Rates { line, branch, .. } => Question::Rates {
                line: line.clone(),
                branch: branch.clone(),
            },
            Stage::Done => Question::Nothing,
        }
    }

    fn pass(&mut self)
        requires
            old(self)@.at < old(self)@.candidates.len(),
        ensures
            final(self)@ == passed(old(self)@),
            final(self)@.sound(),
    {
        let count: usize = self.candidates.len();
        self.at = self.at + 1;
        self.stage = if self.at >= count {
            Stage::Done
        } else if self.candidates[self.at].configured {
            Stage::Identity
        } else {
            Stage::Link
        };
    }

    fn reject(&mut self, code: &str)
        requires
            old(self)@.at < old(self)@.candidates.len(),
        ensures
            final(self)@ == rejected(old(self)@, code@),
            final(self)@.sound(),
    {
        let warning = skip_warning(code, &self.candidates[self.at].path);
        push_diagnostic(&mut self.diagnostics, warning);
        self.pass();
    }

    fn settle(&mut self, parsed: ParsedCoverage, modified: Option<i128>)
        requires
            old(self)@.at < old(self)@.candidates.len(),
        ensures
            final(self)@ == settled(old(self)@, parsed, modified),
            final(self)@.sound(),
    {
        self.found = Some(
            Coverage {
                line_percent: parsed.1,
                branch_percent: parsed.2,
                function_percent: parsed.3,
                source: None,
                format: Some(parsed.0),
                report_path: Some(self.candidates[self.at].relative.clone()),
                report_modified: modified_seconds(modified),
                stale: report_freshness(modified, self.newest, self.truncated),
            },
        );
        self.stage = Stage::Done;
    }

    fn read(&mut self, outcome: ReadOutcome)
        requires
            old(self)@.stage is Contents,
            old(self)@.sound(),
        ensures
            final(self)@ == advanced(old(self)@, Answer::Contents(outcome)@),
            final(self)@.sound(),
    {
        match outcome {
            ReadOutcome::TooLarge => self.reject("coverage-too-large"),
            ReadOutcome::NotRegular => self.reject("coverage-not-regular-file"),
            ReadOutcome::Failed => self.reject("coverage-read-failed"),
            ReadOutcome::Text { contents, modified } => {
                let candidate = &self.candidates[self.at];
                let extension = match &candidate.extension {
                    Some(extension) => Some(extension.as_str()),
                    None => None,
                };
                let report = parse(candidate.name.as_str(), extension, contents.as_str());
                match report {
                    Some(Report::Parsed(parsed)) => self.settle(parsed, modified),
                    Some(Report::Rates { line, branch }) => {
                        self.stage = Stage::Rates { line, branch, modified };
                    },
                    None => self.reject("coverage-malformed"),
                }
            },
        }
    }

    fn inspect(&mut self, check: MetadataCheck)
        requires
            old(self)@.stage is Metadata,
            old(self)@.sound(),
        ensures
            final(self)@ == advanced(old(self)@, AnswerView::Metadata(check)),
            final(self)@.sound(),
    {
        let configured = self.candidates[self.at].configured;
        match check {
            MetadataCheck::Missing => if configured {
                self.reject("coverage-configured-missing")
            } else {
                self.pass()
            },
            MetadataCheck::Failed => if configured {
                self.reject("coverage-configured-missing")
            } else {
                self.reject("coverage-metadata-failed")
            },
            MetadataCheck::NotFile => self.reject("coverage-not-regular-file"),
            MetadataCheck::File { bytes } => if bytes > self.max_bytes {
                self.reject("coverage-too-large")
            } else {
                self.stage = Stage::Contents;
            },
        }
    }

    /// Take the answer to the current question.
    pub fn answer(&mut self, answer: Answer)
        requires
            old(self)@.sound(),
        ensures
            final(self)@ == advanced(old(self)@, answer@),
            final(self)@.sound(),
    {
        match &self.stage {
            Stage::Link => match answer {
                Answer::Link(LinkCheck::Symlink) => self.reject("coverage-auto-symlink"),
                Answer::Link(LinkCheck::Present) => {
                    self.stage = Stage::Identity;
                },
                Answer::Link(LinkCheck::Missing) => self.pass(),
                Answer::Link(LinkCheck::Failed) => self.reject("coverage-metadata-failed"),
                _ => {},
            },
            Stage::Identity => match answer {
                Answer::Identity(key) => {
                    if holds_key(&self.seen, &key) {
                        self.pass();
                    } else {
                        let ghost before = key_views(self.seen@);
                        self.seen.push(key);
                        self.stage = Stage::Metadata;
                        assert(key_views(self.seen@) =~= before.push(key@));
                    }
                },
                _ => {},
            },
            Stage::Metadata => match answer {
                Answer::Metadata(check) => self.inspect(check),
                _ => {},
            },
            Stage::Contents => match answer {
                Answer::Contents(outcome) => self.read(outcome),
                _ => {},
            },
            Stage::Rates { modified, .. } => match answer {
                Answer::Rates(line_rate, branch_rate) => {
                    let time = *modified;
                    match cobertura(line_rate, branch_rate) {
                        Some(parsed) => self.settle(parsed, time),
                        None => self.reject("coverage-malformed"),
                    }
                },
                _ => {},
            },
            Stage::Done => {},
        }
    }
}

/// The search never goes back: an answer leaves the candidate or moves to the
/// next one, and the warnings given before stay.
pub proof fn law_search_goes_forward(search: SearchView, answer: AnswerView)
    requires
        search.sound(),
    ensures
        search.at <= advanced(search, answer).at <= search.at + 1,
        advanced(search, answer).candidates == search.candidates,
        search.diagnostics.is_prefix_of(advanced(search, answer).diagnostics),
        search.seen.is_prefix_of(advanced(search, answer).seen),
{
}

/// A search that is done stays as it is, whatever it is told.
pub proof fn law_finished_search_stays(search: SearchView, answer: AnswerView)
    requires
        search.stage is Done,
    ensures
        advanced(search, answer) == search,
{
}

/// No file is looked into twice: its identity is met once at most.
pub proof fn law_no_file_is_met_twice(search: SearchView, answer: AnswerView)
    requires
        search.seen.no_duplicates(),
    ensures
        advanced(search, answer).seen.no_duplicates(),
{
}

/// Only a report that has been accepted ends the search before its candidates
/// do, and a search finds at most one.
pub proof fn law_first_accepted_report_wins(search: SearchView, answer: AnswerView)
    requires
        search.sound(),
        !(search.stage is Done),
        search.found is None,
    ensures
        advanced(search, answer).found is Some ==> advanced(search, answer).stage is Done
            && advanced(search, answer).found->0.report_path == Some(
            search.candidates[search.at as int].relative,
        ),
        advanced(search, answer).stage is Done && advanced(search, answer).found is None
            ==> advanced(search, answer).at == search.candidates.len(),
{
}

/// Every percentage of a report is a number from 0 to 100.
#[verifier::spinoff_prover]
#[verifier::rlimit(30)]
pub proof fn law_percentages_are_percentages(
    name: Seq<char>,
    extension: Option<Seq<char>>,
    contents: Seq<char>,
)
    ensures
        coverage::report_of(name, extension, contents) matches Some(ReportView::Parsed(parsed))
            ==> sound_percent(parsed.1) && sound_percent(parsed.2) && sound_percent(parsed.3),
{
}

pub open spec fn sound_percent(percent: Option<Binary64>) -> bool {
    percent is Some ==> percent->0.finite() && percent->0.within(100)
}

} // verus!
