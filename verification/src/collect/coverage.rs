//! Coverage reports: LCOV, Go profiles, Istanbul summaries, Cobertura and JaCoCo.
use vstd::prelude::*;
use crate::binary64;
use crate::binary64::{share_of, Binary64};
use crate::collect::documents;
use crate::collect::documents::{
    json_get, json_natural, json_number, json_text, read_json, xml_next, xml_reader, AttributeView,
    Markup, MarkupView, Tag, TagView,
};
use crate::model::CoverageFormat;
use crate::render::values::{no_texts, push_text};
use crate::strings;
use crate::strings::{
    after_last, chars_of, contains, ends_with, lines, lower_text, parse_natural, same, split,
    split_once, starts_with, string_of, trim, trim_start, words,
};

verus! {

/// The format of a report and its line, branch and function percentages.
pub type ParsedCoverage = (CoverageFormat, Option<Binary64>, Option<Binary64>, Option<Binary64>);

/// A report as far as text alone decides it. The rates of a Cobertura report
/// are decimal fractions, which [`cobertura`] takes as numbers.
#[derive(Debug, PartialEq)]
pub enum Report {
    Parsed(ParsedCoverage),
    Rates { line: String, branch: String },
}

pub enum ReportView {
    Parsed(ParsedCoverage),
    Rates { line: Seq<char>, branch: Seq<char> },
}

impl View for Report {
    type V = ReportView;

    open spec fn view(&self) -> ReportView {
        match *self {
            Report::Parsed(parsed) => ReportView::Parsed(parsed),
            Report::Rates { line, branch } => ReportView::Rates { line: line@, branch: branch@ },
        }
    }
}

pub open spec fn report_view(report: Option<Report>) -> Option<ReportView> {
    match report {
        Some(report) => Some(report@),
        None => None,
    }
}

/// A number between 0 and 100.
pub open spec fn percent_or_none(value: Binary64) -> Option<Binary64> {
    if value.finite() && value.within(100) {
        Some(value)
    } else {
        None
    }
}

pub fn finite_percent(value: Binary64) -> (percent: Option<Binary64>)
    ensures
        percent == percent_or_none(value),
{
    if value.is_finite() && value.is_within(100) {
        Some(value)
    } else {
        None
    }
}

/// `hit` of `total` as a percentage; nothing of no total, or of more than it.
pub open spec fn ratio_of(hit: u64, total: u64) -> Option<Binary64> {
    if total == 0 || hit > total {
        None
    } else {
        percent_or_none(binary64::share(hit as nat, total as nat))
    }
}

pub fn ratio(hit: u64, total: u64) -> (percent: Option<Binary64>)
    ensures
        percent == ratio_of(hit, total),
{
    if total == 0 || hit > total {
        return None;
    }
    finite_percent(share_of(hit, total))
}

/// What LCOV records have added up to.
#[derive(Clone, Copy, Debug, PartialEq, Eq, Structural)]
pub struct Lcov {
    pub recognized: bool,
    pub line_hit: u64,
    pub line_total: u64,
    pub branch_hit: u64,
    pub branch_total: u64,
    pub function_hit: u64,
    pub function_total: u64,
    pub line_summary: Option<u64>,
    pub line_summary_hit: Option<u64>,
    pub branch_summary: Option<u64>,
    pub branch_summary_hit: Option<u64>,
    pub function_summary: Option<u64>,
    pub function_summary_hit: Option<u64>,
}

pub open spec fn lcov_start() -> Lcov {
    Lcov {
        recognized: false,
        line_hit: 0,
        line_total: 0,
        branch_hit: 0,
        branch_total: 0,
        function_hit: 0,
        function_total: 0,
        line_summary: None,
        line_summary_hit: None,
        branch_summary: None,
        branch_summary_hit: None,
        function_summary: None,
        function_summary_hit: None,
    }
}

/// `line` without the carriage returns at its end.
pub open spec fn without_returns(line: Seq<char>) -> Seq<char>
    decreases line.len(),
{
    if line.len() > 0 && line.last() == '\r' {
        without_returns(line.drop_last())
    } else {
        line
    }
}

/// The hit count of a `DA` record: line, count and an optional checksum.
pub open spec fn line_count(value: Seq<char>) -> Option<u64> {
    let fields = strings::split_text(value, ',');
    if 2 <= fields.len() <= 3 && strings::natural_of(fields[0]) is Some && (fields.len() == 3
        ==> fields[2].len() > 0) {
        strings::natural_of(fields[1])
    } else {
        None
    }
}

/// Whether a `BRDA` record was taken: line, block, branch, and a count or `-`.
pub open spec fn branch_taken(value: Seq<char>) -> Option<bool> {
    let fields = strings::split_text(value, ',');
    if fields.len() == 4 && strings::natural_of(fields[0]) is Some && strings::natural_of(
        fields[1],
    ) is Some && strings::natural_of(fields[2]) is Some {
        if fields[3] == "-"@ {
            Some(false)
        } else if strings::natural_of(fields[3]) is Some {
            Some(fields[3] != "0"@)
        } else {
            None
        }
    } else {
        None
    }
}

/// The number before the first comma, where a name stands behind it.
pub open spec fn named_number(value: Seq<char>) -> Option<u64> {
    match strings::cut_at(value, ',') {
        Some(parts) => if parts.1.len() > 0 {
            strings::natural_of(parts.0)
        } else {
            None
        },
        None => None,
    }
}

/// The kind and the value of a record: what stands round its first colon.
pub open spec fn record_parts(line: Seq<char>) -> (Seq<char>, Seq<char>) {
    match strings::cut_at(line, ':') {
        Some(parts) => parts,
        None => (line, ""@),
    }
}

pub open spec fn one_if(yes: bool) -> int {
    if yes {
        1
    } else {
        0
    }
}

/// The sums after one more record, or `None` where it is malformed. Records of
/// unknown kinds change nothing.
pub open spec fn lcov_record(sums: Lcov, kind: Seq<char>, value: Seq<char>) -> Option<Lcov> {
    let seen = Lcov { recognized: true, ..sums };
    if kind == "TN"@ {
        Some(seen)
    } else if kind == "SF"@ {
        if value.len() == 0 {
            None
        } else {
            Some(seen)
        }
    } else if kind == "FN"@ {
        match named_number(value) {
            Some(number) => Some(seen),
            None => None,
        }
    } else if kind == "FNDA"@ {
        match named_number(value) {
            Some(count) => if sums.function_total < u64::MAX && sums.function_hit + one_if(
                count > 0,
            ) <= u64::MAX {
                Some(
                    Lcov {
                        function_total: (sums.function_total + 1) as u64,
                        function_hit: (sums.function_hit + one_if(count > 0)) as u64,
                        ..seen
                    },
                )
            } else {
                None
            },
            None => None,
        }
    } else if kind == "DA"@ {
        match line_count(value) {
            Some(count) => if sums.line_total < u64::MAX && sums.line_hit + one_if(count > 0)
                <= u64::MAX {
                Some(
                    Lcov {
                        line_total: (sums.line_total + 1) as u64,
                        line_hit: (sums.line_hit + one_if(count > 0)) as u64,
                        ..seen
                    },
                )
            } else {
                None
            },
            None => None,
        }
    } else if kind == "BRDA"@ {
        match branch_taken(value) {
            Some(taken) => if sums.branch_total < u64::MAX && sums.branch_hit + one_if(taken)
                <= u64::MAX {
                Some(
                    Lcov {
                        branch_total: (sums.branch_total + 1) as u64,
                        branch_hit: (sums.branch_hit + one_if(taken)) as u64,
                        ..seen
                    },
                )
            } else {
                None
            },
            None => None,
        }
    } else if kind == "end_of_record"@ {
        if value.len() > 0 {
            None
        } else {
            Some(seen)
        }
    } else {
        lcov_summary(sums, kind, value)
    }
}

/// The sums after a record that gives a total or a hit total.
pub open spec fn lcov_summary(sums: Lcov, kind: Seq<char>, value: Seq<char>) -> Option<Lcov> {
    let seen = Lcov { recognized: true, ..sums };
    let number = strings::natural_of(value);
    if kind == "FNF"@ {
        match number {
            Some(_) => Some(Lcov { function_summary: number, ..seen }),
            None => None,
        }
    } else if kind == "FNH"@ {
        match number {
            Some(_) => Some(Lcov { function_summary_hit: number, ..seen }),
            None => None,
        }
    } else if kind == "LF"@ {
        match number {
            Some(_) => Some(Lcov { line_summary: number, ..seen }),
            None => None,
        }
    } else if kind == "LH"@ {
        match number {
            Some(_) => Some(Lcov { line_summary_hit: number, ..seen }),
            None => None,
        }
    } else if kind == "BRF"@ {
        match number {
            Some(_) => Some(Lcov { branch_summary: number, ..seen }),
            None => None,
        }
    } else if kind == "BRH"@ {
        match number {
            Some(_) => Some(Lcov { branch_summary_hit: number, ..seen }),
            None => None,
        }
    } else {
        Some(sums)
    }
}

/// The sums of the lines' records, or `None` from the first malformed one on.
pub open spec fn lcov_sums(records: Seq<Seq<char>>) -> Option<Lcov>
    decreases records.len(),
{
    if records.len() == 0 {
        Some(lcov_start())
    } else {
        match lcov_sums(records.drop_last()) {
            Some(sums) => {
                let line = without_returns(records.last());
                if line.len() == 0 {
                    Some(sums)
                } else {
                    lcov_record(sums, record_parts(line).0, record_parts(line).1)
                }
            },
            None => None,
        }
    }
}

/// A summary has both its numbers, the hits within the total, or neither.
pub open spec fn summary_holds(total: Option<u64>, hit: Option<u64>) -> bool {
    match total {
        Some(total) => match hit {
            Some(hit) => hit <= total,
            None => false,
        },
        None => hit is None,
    }
}

/// The percentages of an LCOV report.
pub open spec fn lcov_report(contents: Seq<char>) -> Option<ParsedCoverage> {
    match lcov_sums(strings::lines_text(contents)) {
        Some(sums) => if sums.recognized && summary_holds(sums.line_summary, sums.line_summary_hit)
            && summary_holds(sums.branch_summary, sums.branch_summary_hit) && summary_holds(
            sums.function_summary,
            sums.function_summary_hit,
        ) {
            Some(
                (
                    CoverageFormat::Lcov,
                    ratio_of(sums.line_hit, sums.line_total),
                    ratio_of(sums.branch_hit, sums.branch_total),
                    ratio_of(sums.function_hit, sums.function_total),
                ),
            )
        } else {
            None
        },
        None => None,
    }
}

fn trim_returns(line: &str) -> (rest: String)
    ensures
        rest@ == without_returns(line@),
{
    let chars = chars_of(line);
    let mut to: usize = chars.len();
    assert(line@.take(to as int) =~= line@);
    while to > 0 && chars[to - 1] == '\r'
        invariant
            chars@ == line@,
            to <= chars@.len(),
            without_returns(line@) == without_returns(line@.take(to as int)),
        decreases to,
    {
        assert(line@.take(to as int).drop_last() =~= line@.take(to - 1));
        to = to - 1;
    }
    assert(line@.take(to as int) =~= chars@.subrange(0, to as int));
    string_of(&chars, 0, to)
}

fn parse_line_count(value: &str) -> (count: Option<u64>)
    ensures
        count == line_count(value@),
{
    let fields = split(value, ',');
    let ghost texts = strings::texts(fields@);
    assert(texts.len() == fields@.len());
    if fields.len() < 2 || fields.len() > 3 {
        return None;
    }
    assert(texts[0] == fields@[0]@ && texts[1] == fields@[1]@);
    if parse_natural(fields[0].as_str()).is_none() {
        return None;
    }
    if fields.len() == 3 {
        assert(texts[2] == fields@[2]@);
        if fields[2].as_str().is_empty() {
            return None;
        }
    }
    parse_natural(fields[1].as_str())
}

fn parse_branch_taken(value: &str) -> (taken: Option<bool>)
    ensures
        taken == branch_taken(value@),
{
    let fields = split(value, ',');
    let ghost texts = strings::texts(fields@);
    assert(texts.len() == fields@.len());
    if fields.len() != 4 {
        return None;
    }
    assert(texts[0] == fields@[0]@ && texts[1] == fields@[1]@ && texts[2] == fields@[2]@ && texts[3]
        == fields@[3]@);
    if parse_natural(fields[0].as_str()).is_none() || parse_natural(fields[1].as_str()).is_none()
        || parse_natural(fields[2].as_str()).is_none() {
        return None;
    }
    if same(fields[3].as_str(), "-") {
        Some(false)
    } else if parse_natural(fields[3].as_str()).is_some() {
        Some(!same(fields[3].as_str(), "0"))
    } else {
        None
    }
}

fn parse_named_number(value: &str) -> (number: Option<u64>)
    ensures
        number == named_number(value@),
{
    match split_once(value, ',') {
        Some(parts) => if parts.1.as_str().is_empty() {
            None
        } else {
            parse_natural(parts.0.as_str())
        },
        None => None,
    }
}

fn add_summary(sums: Lcov, kind: &str, value: &str) -> (next: Option<Lcov>)
    ensures
        next == lcov_summary(sums, kind@, value@),
{
    let mut seen = sums;
    seen.recognized = true;
    let number = parse_natural(value);
    if same(kind, "FNF") {
        seen.function_summary = number;
    } else if same(kind, "FNH") {
        seen.function_summary_hit = number;
    } else if same(kind, "LF") {
        seen.line_summary = number;
    } else if same(kind, "LH") {
        seen.line_summary_hit = number;
    } else if same(kind, "BRF") {
        seen.branch_summary = number;
    } else if same(kind, "BRH") {
        seen.branch_summary_hit = number;
    } else {
        return Some(sums);
    }
    if number.is_some() {
        Some(seen)
    } else {
        None
    }
}

fn add_record(sums: Lcov, kind: &str, value: &str) -> (next: Option<Lcov>)
    ensures
        next == lcov_record(sums, kind@, value@),
{
    let mut seen = sums;
    seen.recognized = true;
    if same(kind, "TN") {
        Some(seen)
    } else if same(kind, "SF") {
        if value.is_empty() {
            None
        } else {
            Some(seen)
        }
    } else if same(kind, "FN") {
        match parse_named_number(value) {
            Some(_) => Some(seen),
            None => None,
        }
    } else if same(kind, "FNDA") {
        match parse_named_number(value) {
            Some(count) => {
                let hit: u64 = if count > 0 {
                    1
                } else {
                    0
                };
                if sums.function_total == u64::MAX || sums.function_hit > u64::MAX - hit {
                    return None;
                }
                seen.function_total = sums.function_total + 1;
                seen.function_hit = sums.function_hit + hit;
                Some(seen)
            },
            None => None,
        }
    } else if same(kind, "DA") {
        match parse_line_count(value) {
            Some(count) => {
                let hit: u64 = if count > 0 {
                    1
                } else {
                    0
                };
                if sums.line_total == u64::MAX || sums.line_hit > u64::MAX - hit {
                    return None;
                }
                seen.line_total = sums.line_total + 1;
                seen.line_hit = sums.line_hit + hit;
                Some(seen)
            },
            None => None,
        }
    } else if same(kind, "BRDA") {
        match parse_branch_taken(value) {
            Some(taken) => {
                let hit: u64 = if taken {
                    1
                } else {
                    0
                };
                if sums.branch_total == u64::MAX || sums.branch_hit > u64::MAX - hit {
                    return None;
                }
                seen.branch_total = sums.branch_total + 1;
                seen.branch_hit = sums.branch_hit + hit;
                Some(seen)
            },
            None => None,
        }
    } else if same(kind, "end_of_record") {
        if value.is_empty() {
            Some(seen)
        } else {
            None
        }
    } else {
        add_summary(sums, kind, value)
    }
}

proof fn lemma_lcov_fails_on(records: Seq<Seq<char>>, count: int)
    requires
        0 <= count <= records.len(),
        lcov_sums(records.take(count)) is None,
    ensures
        lcov_sums(records) is None,
    decreases records.len() - count,
{
    if count < records.len() {
        assert(records.take(count + 1).drop_last() =~= records.take(count));
        lemma_lcov_fails_on(records, count + 1);
    } else {
        assert(records.take(count) =~= records);
    }
}

fn validate_summary(total: Option<u64>, hit: Option<u64>) -> (holds: bool)
    ensures
        holds == summary_holds(total, hit),
{
    match total {
        Some(total) => match hit {
            Some(hit) => hit <= total,
            None => false,
        },
        None => hit.is_none(),
    }
}

/// An LCOV report: the records' own counts decide, and its summaries must hold.
pub fn parse_lcov(contents: &str) -> (parsed: Option<ParsedCoverage>)
    ensures
        parsed == lcov_report(contents@),
{
    let records = lines(contents);
    let ghost all = strings::texts(records@);
    let mut sums = Lcov {
        recognized: false,
        line_hit: 0,
        line_total: 0,
        branch_hit: 0,
        branch_total: 0,
        function_hit: 0,
        function_total: 0,
        line_summary: None,
        line_summary_hit: None,
        branch_summary: None,
        branch_summary_hit: None,
        function_summary: None,
        function_summary_hit: None,
    };
    let mut i: usize = 0;
    while i < records.len()
        invariant
            i <= records@.len(),
            all == strings::texts(records@),
            all == strings::lines_text(contents@),
            lcov_sums(all.take(i as int)) == Some(sums),
        decreases records@.len() - i,
    {
        assert(all.take(i + 1).drop_last() =~= all.take(i as int));
        assert(all.take(i + 1).last() == records@[i as int]@);
        let line = trim_returns(records[i].as_str());
        if !line.as_str().is_empty() {
            let next = match split_once(line.as_str(), ':') {
                Some(parts) => add_record(sums, parts.0.as_str(), parts.1.as_str()),
                None => add_record(sums, line.as_str(), ""),
            };
            match next {
                Some(next) => {
                    sums = next;
                },
                None => {
                    proof {
                        lemma_lcov_fails_on(all, i + 1);
                    }
                    return None;
                },
            }
        }
        i = i + 1;
    }
    assert(all.take(i as int) =~= all);
    if sums.recognized && validate_summary(sums.line_summary, sums.line_summary_hit)
        && validate_summary(sums.branch_summary, sums.branch_summary_hit) && validate_summary(
        sums.function_summary,
        sums.function_summary_hit,
    ) {
        Some(
            (
                CoverageFormat::Lcov,
                ratio(sums.line_hit, sums.line_total),
                ratio(sums.branch_hit, sums.branch_total),
                ratio(sums.function_hit, sums.function_total),
            ),
        )
    } else {
        None
    }
}

/// The lines that hold more than white space, without carriage returns at their ends.
pub open spec fn written_lines(records: Seq<Seq<char>>) -> Seq<Seq<char>>
    decreases records.len(),
{
    if records.len() == 0 {
        Seq::empty()
    } else {
        let before = written_lines(records.drop_last());
        let line = without_returns(records.last());
        if strings::trimmed(line).len() == 0 {
            before
        } else {
            before.push(line)
        }
    }
}

/// `line.column`.
pub open spec fn go_position(position: Seq<char>) -> bool {
    match strings::cut_at(position, '.') {
        Some(parts) => strings::natural_of(parts.0) is Some && strings::natural_of(
            parts.1,
        ) is Some,
        None => false,
    }
}

/// `file:start,end`: the range stands behind the last colon.
pub open spec fn go_location(location: Seq<char>) -> bool {
    match strings::behind_last(location, ':') {
        Some(range) => match strings::cut_at(range, ',') {
            Some(ends) => go_position(ends.0) && go_position(ends.1),
            None => false,
        },
        None => false,
    }
}

/// The statements of one block, and how often it ran.
pub open spec fn go_block(line: Seq<char>) -> Option<(u64, u64)> {
    let fields = strings::words_text(line);
    if fields.len() == 3 && go_location(fields[0]) && strings::natural_of(fields[1]) is Some
        && strings::natural_of(fields[2]) is Some {
        Some((strings::natural_of(fields[1])->0, strings::natural_of(fields[2])->0))
    } else {
        None
    }
}

/// The covered statements and all statements of the blocks, where every block
/// is well-formed and the sums fit.
pub open spec fn go_sums(blocks: Seq<Seq<char>>) -> Option<(u64, u64)>
    decreases blocks.len(),
{
    if blocks.len() == 0 {
        Some((0, 0))
    } else {
        match go_sums(blocks.drop_last()) {
            Some(sums) => match go_block(blocks.last()) {
                Some(block) => if sums.1 + block.0 > u64::MAX {
                    None
                } else if block.1 == 0 {
                    Some((sums.0, (sums.1 + block.0) as u64))
                } else if sums.0 + block.0 > u64::MAX {
                    None
                } else {
                    Some(((sums.0 + block.0) as u64, (sums.1 + block.0) as u64))
                },
                None => None,
            },
            None => None,
        }
    }
}

/// `mode: set`, `mode: count` or `mode: atomic`.
pub open spec fn go_mode(line: Seq<char>) -> bool {
    match strings::cut_at(line, ':') {
        Some(parts) => {
            let mode = strings::trimmed(parts.1);
            parts.0 == "mode"@ && (mode == "set"@ || mode == "count"@ || mode == "atomic"@)
        },
        None => false,
    }
}

/// The percentage of a Go cover profile, weighted by statements.
pub open spec fn go_report(contents: Seq<char>) -> Option<ParsedCoverage> {
    let written = written_lines(strings::lines_text(contents));
    if written.len() == 0 || !go_mode(written[0]) {
        None
    } else {
        match go_sums(written.skip(1)) {
            Some(sums) => Some(
                (CoverageFormat::GoCoverprofile, ratio_of(sums.0, sums.1), None, None),
            ),
            None => None,
        }
    }
}

fn parse_go_position(position: &str) -> (valid: bool)
    ensures
        valid == go_position(position@),
{
    match split_once(position, '.') {
        Some(parts) => parse_natural(parts.0.as_str()).is_some() && parse_natural(
            parts.1.as_str(),
        ).is_some(),
        None => false,
    }
}

fn parse_go_block(line: &str) -> (block: Option<(u64, u64)>)
    ensures
        block == go_block(line@),
{
    let fields = words(line);
    let ghost texts = strings::texts(fields@);
    assert(texts.len() == fields@.len());
    if fields.len() != 3 {
        return None;
    }
    assert(texts[0] == fields@[0]@ && texts[1] == fields@[1]@ && texts[2] == fields@[2]@);
    let valid = match after_last(fields[0].as_str(), ':') {
        Some(range) => match split_once(range.as_str(), ',') {
            Some(ends) => parse_go_position(ends.0.as_str()) && parse_go_position(ends.1.as_str()),
            None => false,
        },
        None => false,
    };
    if !valid {
        return None;
    }
    match parse_natural(fields[1].as_str()) {
        Some(statements) => match parse_natural(fields[2].as_str()) {
            Some(count) => Some((statements, count)),
            None => None,
        },
        None => None,
    }
}

proof fn lemma_go_fails_on(blocks: Seq<Seq<char>>, count: int)
    requires
        0 <= count <= blocks.len(),
        go_sums(blocks.take(count)) is None,
    ensures
        go_sums(blocks) is None,
    decreases blocks.len() - count,
{
    if count < blocks.len() {
        assert(blocks.take(count + 1).drop_last() =~= blocks.take(count));
        lemma_go_fails_on(blocks, count + 1);
    } else {
        assert(blocks.take(count) =~= blocks);
    }
}

fn find_written(contents: &str) -> (written: Vec<String>)
    ensures
        strings::texts(written@) == written_lines(strings::lines_text(contents@)),
{
    let records = lines(contents);
    let ghost all = strings::texts(records@);
    let mut written = no_texts();
    let mut i: usize = 0;
    assert(all.take(0) =~= Seq::empty());
    while i < records.len()
        invariant
            i <= records@.len(),
            all == strings::texts(records@),
            strings::texts(written@) == written_lines(all.take(i as int)),
        decreases records@.len() - i,
    {
        assert(all.take(i + 1).drop_last() =~= all.take(i as int));
        let line = trim_returns(records[i].as_str());
        if !trim(line.as_str()).as_str().is_empty() {
            push_text(&mut written, line);
        }
        i = i + 1;
    }
    assert(all.take(i as int) =~= all);
    written
}

/// A Go cover profile: a mode line, then one block to a line.
pub fn parse_go(contents: &str) -> (parsed: Option<ParsedCoverage>)
    ensures
        parsed == go_report(contents@),
{
    let written = find_written(contents);
    let ghost all = strings::texts(written@);
    assert(all.len() == written@.len());
    if written.len() == 0 {
        return None;
    }
    assert(all[0] == written@[0]@);
    let valid = match split_once(written[0].as_str(), ':') {
        Some(parts) => {
            let mode = trim(parts.1.as_str());
            same(parts.0.as_str(), "mode") && (same(mode.as_str(), "set") || same(
                mode.as_str(),
                "count",
            ) || same(mode.as_str(), "atomic"))
        },
        None => false,
    };
    if !valid {
        return None;
    }
    let ghost blocks = all.skip(1);
    let mut covered: u64 = 0;
    let mut total: u64 = 0;
    let mut i: usize = 1;
    assert(blocks.take(0) =~= Seq::empty());
    while i < written.len()
        invariant
            1 <= i <= written@.len(),
            all == strings::texts(written@),
            all == written_lines(strings::lines_text(contents@)),
            go_mode(all[0]),
            blocks == all.skip(1),
            go_sums(blocks.take(i - 1)) == Some((covered, total)),
        decreases written@.len() - i,
    {
        assert(blocks.take(i as int).drop_last() =~= blocks.take(i - 1));
        assert(blocks.take(i as int).last() == written@[i as int]@);
        let block = match parse_go_block(written[i].as_str()) {
            Some(block) => block,
            None => {
                proof {
                    lemma_go_fails_on(blocks, i as int);
                }
                return None;
            },
        };
        if total > u64::MAX - block.0 || (block.1 > 0 && covered > u64::MAX - block.0) {
            proof {
                lemma_go_fails_on(blocks, i as int);
            }
            return None;
        }
        total = total + block.0;
        if block.1 > 0 {
            covered = covered + block.0;
        }
        i = i + 1;
    }
    assert(blocks.take(i - 1) =~= blocks);
    assert(written_lines(strings::lines_text(contents@)) == all);
    Some((CoverageFormat::GoCoverprofile, ratio(covered, total), None, None))
}

/// One metric of an Istanbul summary: its percentage, which is `Unknown` only
/// where nothing was there to cover. The outer `None` is a malformed metric.
pub open spec fn istanbul_metric_of(total: documents::JsonTree, name: Seq<char>) -> Option<
    Option<Binary64>,
> {
    match documents::json_member(total, name) {
        Some(metric) => {
            let denominator = json_natural_of(documents::json_member(metric, "total"@));
            let covered = json_natural_of(documents::json_member(metric, "covered"@));
            match documents::json_member(metric, "pct"@) {
                Some(percent) => if denominator is Some && covered is Some && covered->0
                    <= denominator->0 {
                    istanbul_percent(percent, denominator->0)
                } else {
                    None
                },
                None => None,
            }
        },
        None => None,
    }
}

pub open spec fn json_natural_of(tree: Option<documents::JsonTree>) -> Option<u64> {
    match tree {
        Some(tree) => match tree {
            documents::JsonTree::Number { natural, .. } => natural,
            _ => None,
        },
        None => None,
    }
}

/// The percentage that a metric states.
pub open spec fn istanbul_percent(percent: documents::JsonTree, denominator: u64) -> Option<
    Option<Binary64>,
> {
    match percent {
        documents::JsonTree::Number { bits, .. } => match percent_or_none(Binary64 { bits }) {
            Some(value) => Some(Some(value)),
            None => None,
        },
        documents::JsonTree::Text(text) => if denominator == 0 && text == "Unknown"@ {
            Some(None)
        } else {
            None
        },
        _ => None,
    }
}

/// The percentages of an Istanbul summary document.
pub open spec fn istanbul_document(document: documents::JsonTree) -> Option<ParsedCoverage> {
    match documents::json_member(document, "total"@) {
        Some(total) => {
            let lines = istanbul_metric_of(total, "lines"@);
            let branches = istanbul_metric_of(total, "branches"@);
            let functions = istanbul_metric_of(total, "functions"@);
            if lines is Some && branches is Some && functions is Some {
                Some((CoverageFormat::IstanbulSummary, lines->0, branches->0, functions->0))
            } else {
                None
            }
        },
        None => None,
    }
}

pub open spec fn istanbul_report(contents: Seq<char>) -> Option<ParsedCoverage> {
    match documents::json_document(contents) {
        Some(document) => istanbul_document(document),
        None => None,
    }
}

/// The percentage of a metric with these numbers: `number` where the percentage
/// is a number, `unknown` where it is the word `Unknown`.
pub fn istanbul_percentage(
    denominator: u64,
    covered: u64,
    number: Option<Binary64>,
    unknown: bool,
) -> (percent: Option<Option<Binary64>>)
    requires
        unknown ==> number is None,
    ensures
        percent == if covered > denominator {
            None
        } else if number is Some {
            match percent_or_none(number->0) {
                Some(value) => Some(Some(value)),
                None => None,
            }
        } else if unknown && denominator == 0 {
            Some(None::<Binary64>)
        } else {
            None
        },
{
    if covered > denominator {
        return None;
    }
    match number {
        Some(value) => match finite_percent(value) {
            Some(value) => Some(Some(value)),
            None => None,
        },
        None => if unknown && denominator == 0 {
            Some(None)
        } else {
            None
        },
    }
}

fn istanbul_metric(total: &serde_json::Value, name: &str) -> (metric: Option<Option<Binary64>>)
    ensures
        metric == istanbul_metric_of(documents::json_tree(*total), name@),
{
    let metric = match json_get(total, name) {
        Some(metric) => metric,
        None => return None,
    };
    let denominator = match json_get(metric, "total") {
        Some(value) => match json_natural(value) {
            Some(number) => number,
            None => return None,
        },
        None => return None,
    };
    let covered = match json_get(metric, "covered") {
        Some(value) => match json_natural(value) {
            Some(number) => number,
            None => return None,
        },
        None => return None,
    };
    let percent = match json_get(metric, "pct") {
        Some(value) => value,
        None => return None,
    };
    let unknown = match json_text(percent) {
        Some(text) => same(text, "Unknown"),
        None => false,
    };
    istanbul_percentage(denominator, covered, json_number(percent), unknown)
}

/// An Istanbul summary: the totals of its lines, branches and functions.
pub fn parse_istanbul(contents: &str) -> (parsed: Option<ParsedCoverage>)
    ensures
        parsed == istanbul_report(contents@),
{
    let document = match read_json(contents) {
        Some(document) => document,
        None => return None,
    };
    let total = match json_get(&document, "total") {
        Some(total) => total,
        None => return None,
    };
    match (
        istanbul_metric(total, "lines"),
        istanbul_metric(total, "branches"),
        istanbul_metric(total, "functions"),
    ) {
        (Some(lines), Some(branches), Some(functions)) => Some(
            (CoverageFormat::IstanbulSummary, lines, branches, functions),
        ),
        _ => None,
    }
}

/// Looking an attribute up: the outer `None` is a failure, the inner one an
/// attribute not met yet. Malformed attributes fail, and so does a second value
/// or one that cannot be normalized.
pub open spec fn attribute_search(attributes: Seq<AttributeView>, key: Seq<char>) -> Option<
    Option<Seq<char>>,
>
    decreases attributes.len(),
{
    if attributes.len() == 0 {
        Some(None)
    } else {
        match attribute_search(attributes.drop_last(), key) {
            Some(found) => match attributes.last() {
                Some(pair) => if pair.0 != key {
                    Some(found)
                } else if found is Some || pair.1 is None {
                    None
                } else {
                    Some(pair.1)
                },
                None => None,
            },
            None => None,
        }
    }
}

/// The value of the one attribute of that name, where all are well-formed.
pub open spec fn attribute_of(tag: TagView, key: Seq<char>) -> Option<Seq<char>> {
    match attribute_search(tag.attributes, key) {
        Some(found) => found,
        None => None,
    }
}

proof fn lemma_attribute_fails_on(attributes: Seq<AttributeView>, key: Seq<char>, count: int)
    requires
        0 <= count <= attributes.len(),
        attribute_search(attributes.take(count), key) is None,
    ensures
        attribute_search(attributes, key) is None,
    decreases attributes.len() - count,
{
    if count < attributes.len() {
        assert(attributes.take(count + 1).drop_last() =~= attributes.take(count));
        lemma_attribute_fails_on(attributes, key, count + 1);
    } else {
        assert(attributes.take(count) =~= attributes);
    }
}

fn xml_attribute(tag: &Tag, key: &str) -> (value: Option<String>)
    ensures
        strings::optional_text(value) == attribute_of(tag@, key@),
{
    let ghost all = tag@.attributes;
    let mut value: Option<String> = None;
    let mut i: usize = 0;
    while i < tag.attributes.len()
        invariant
            i <= tag.attributes@.len(),
            all == tag@.attributes,
            attribute_search(all.take(i as int), key@) == Some(strings::optional_text(value)),
        decreases tag.attributes@.len() - i,
    {
        assert(all.take(i + 1).drop_last() =~= all.take(i as int));
        assert(all.take(i + 1).last() == documents::attribute_view(tag.attributes@[i as int]));
        match &tag.attributes[i] {
            Some(pair) => {
                if same(pair.0.as_str(), key) {
                    if value.is_some() || pair.1.is_none() {
                        proof {
                            lemma_attribute_fails_on(all, key@, i + 1);
                        }
                        return None;
                    }
                    value = strings::copy_optional(&pair.1);
                }
            },
            None => {
                proof {
                    lemma_attribute_fails_on(all, key@, i + 1);
                }
                return None;
            },
        }
        i = i + 1;
    }
    assert(all.take(i as int) =~= all);
    value
}

#[derive(Clone, Copy, Debug, PartialEq, Eq, Structural)]
pub enum XmlRoot {
    Coverage,
    Report,
}

/// What the events read so far have settled: the root, how deep the reader
/// stands, whether the root is closed, and the values found.
pub struct XmlState {
    pub root: Option<XmlRoot>,
    pub depth: u32,
    pub closed: bool,
    pub line_rate: Seq<char>,
    pub branch_rate: Seq<char>,
    pub line: Option<(u64, u64)>,
    pub branch: Option<(u64, u64)>,
    pub method: Option<(u64, u64)>,
}

pub open spec fn xml_start() -> XmlState {
    XmlState {
        root: None,
        depth: 0,
        closed: false,
        line_rate: Seq::empty(),
        branch_rate: Seq::empty(),
        line: None,
        branch: None,
        method: None,
    }
}

/// The state once the root's tag is read: Cobertura's `coverage` has its rates,
/// JaCoCo's `report` nothing yet, and no other root is known.
pub open spec fn xml_root(state: XmlState, tag: TagView) -> Option<XmlState> {
    if tag.name == "coverage"@ {
        let line = attribute_of(tag, "line-rate"@);
        let branch = attribute_of(tag, "branch-rate"@);
        if line is Some && branch is Some {
            Some(
                XmlState {
                    root: Some(XmlRoot::Coverage),
                    line_rate: line->0,
                    branch_rate: branch->0,
                    ..state
                },
            )
        } else {
            None
        }
    } else if tag.name == "report"@ {
        Some(XmlState { root: Some(XmlRoot::Report), ..state })
    } else {
        None
    }
}

/// The total and the covered count of a counter.
pub open spec fn counter_of(tag: TagView) -> Option<(u64, u64)> {
    let missed = attribute_of(tag, "missed"@);
    let covered = attribute_of(tag, "covered"@);
    if missed is Some && covered is Some {
        let without = strings::natural_of(missed->0);
        let with = strings::natural_of(covered->0);
        if without is Some && with is Some && without->0 + with->0 <= u64::MAX {
            Some(((without->0 + with->0) as u64, with->0))
        } else {
            None
        }
    } else {
        None
    }
}

/// The state after a counter right below a JaCoCo root. A second counter of one
/// type is malformed; unknown types change nothing.
pub open spec fn xml_counter(state: XmlState, tag: TagView) -> Option<XmlState> {
    match attribute_of(tag, "type"@) {
        Some(kind) => if kind == "LINE"@ {
            if state.line is Some || counter_of(tag) is None {
                None
            } else {
                Some(XmlState { line: counter_of(tag), ..state })
            }
        } else if kind == "BRANCH"@ {
            if state.branch is Some || counter_of(tag) is None {
                None
            } else {
                Some(XmlState { branch: counter_of(tag), ..state })
            }
        } else if kind == "METHOD"@ {
            if state.method is Some || counter_of(tag) is None {
                None
            } else {
                Some(XmlState { method: counter_of(tag), ..state })
            }
        } else {
            Some(state)
        },
        None => None,
    }
}

/// A tag below the root.
pub open spec fn xml_inner(state: XmlState, tag: TagView) -> Option<XmlState> {
    if state.root == Some(XmlRoot::Report) && state.depth == 1 && tag.name == "counter"@ {
        xml_counter(state, tag)
    } else {
        Some(state)
    }
}

/// ASCII white space.
pub open spec fn ascii_blank(c: char) -> bool {
    c == ' ' || c == '\t' || c == '\n' || c == '\x0C' || c == '\r'
}

pub open spec fn only_blanks(text: Seq<char>) -> bool {
    forall|i: int| 0 <= i < text.len() ==> ascii_blank(#[trigger] text[i])
}

/// The state after one more event, or `None` where the document is refused.
pub open spec fn xml_step(state: XmlState, event: MarkupView) -> Option<XmlState> {
    match event {
        MarkupView::Start(tag) => if state.root is Some && state.closed {
            None
        } else if state.root is None {
            match xml_root(state, tag) {
                Some(next) => Some(XmlState { depth: 1, ..next }),
                None => None,
            }
        } else {
            match xml_inner(state, tag) {
                Some(next) => if state.depth == u32::MAX {
                    None
                } else {
                    Some(XmlState { depth: (state.depth + 1) as u32, ..next })
                },
                None => None,
            }
        },
        MarkupView::Empty(tag) => if state.root is Some && state.closed {
            None
        } else if state.root is None {
            match xml_root(state, tag) {
                Some(next) => Some(XmlState { closed: true, ..next }),
                None => None,
            }
        } else {
            xml_inner(state, tag)
        },
        MarkupView::End => if state.depth == 0 {
            None
        } else {
            Some(
                XmlState {
                    depth: (state.depth - 1) as u32,
                    closed: state.closed || state.depth == 1,
                    ..state
                },
            )
        },
        MarkupView::Text(text) => if (state.closed || state.root is None) && !only_blanks(text) {
            None
        } else {
            Some(state)
        },
        MarkupView::Other => Some(state),
        MarkupView::Finished => Some(state),
        MarkupView::Malformed => None,
    }
}

/// The state after all events, or `None` from the first refusal on.
pub open spec fn xml_run(events: Seq<MarkupView>) -> Option<XmlState>
    decreases events.len(),
{
    if events.len() == 0 {
        Some(xml_start())
    } else {
        match xml_run(events.drop_last()) {
            Some(state) => xml_step(state, events.last()),
            None => None,
        }
    }
}

pub open spec fn counter_ratio(counter: (u64, u64)) -> Option<Binary64> {
    ratio_of(counter.1, counter.0)
}

/// What a document says whose events have all been read.
pub open spec fn xml_verdict(state: XmlState) -> Option<ReportView> {
    if !state.closed || state.depth != 0 {
        None
    } else {
        match state.root {
            Some(XmlRoot::Coverage) => Some(
                ReportView::Rates { line: state.line_rate, branch: state.branch_rate },
            ),
            Some(XmlRoot::Report) => if state.line is Some && state.branch is Some
                && state.method is Some {
                Some(
                    ReportView::Parsed(
                        (
                            CoverageFormat::JacocoXml,
                            counter_ratio(state.line->0),
                            counter_ratio(state.branch->0),
                            counter_ratio(state.method->0),
                        ),
                    ),
                )
            } else {
                None
            },
            None => None,
        }
    }
}

pub open spec fn xml_report(contents: Seq<char>) -> Option<ReportView> {
    match xml_run(documents::xml_events(contents)) {
        Some(state) => xml_verdict(state),
        None => None,
    }
}

/// The reading of an XML report, event by event.
pub struct XmlScan {
    pub root: Option<XmlRoot>,
    pub depth: u32,
    pub closed: bool,
    pub line_rate: String,
    pub branch_rate: String,
    pub line: Option<(u64, u64)>,
    pub branch: Option<(u64, u64)>,
    pub method: Option<(u64, u64)>,
}

impl View for XmlScan {
    type V = XmlState;

    open spec fn view(&self) -> XmlState {
        XmlState {
            root: self.root,
            depth: self.depth,
            closed: self.closed,
            line_rate: self.line_rate@,
            branch_rate: self.branch_rate@,
            line: self.line,
            branch: self.branch,
            method: self.method,
        }
    }
}

fn parse_counter(tag: &Tag) -> (counter: Option<(u64, u64)>)
    ensures
        counter == counter_of(tag@),
{
    match (xml_attribute(tag, "missed"), xml_attribute(tag, "covered")) {
        (Some(missed), Some(covered)) => match (
            parse_natural(missed.as_str()),
            parse_natural(covered.as_str()),
        ) {
            (Some(missed), Some(covered)) => if missed <= u64::MAX - covered {
                Some((missed + covered, covered))
            } else {
                None
            },
            _ => None,
        },
        _ => None,
    }
}

impl XmlScan {
    pub fn new() -> (scan: Self)
        ensures
            scan@ == xml_start(),
    {
        XmlScan {
            root: None,
            depth: 0,
            closed: false,
            line_rate: String::new(),
            branch_rate: String::new(),
            line: None,
            branch: None,
            method: None,
        }
    }

    fn open_root(&mut self, tag: &Tag) -> (accepted: bool)
        ensures
            accepted == xml_root(old(self)@, tag@) is Some,
            accepted ==> final(self)@ == xml_root(old(self)@, tag@)->0,
    {
        if same(tag.name.as_str(), "coverage") {
            match (xml_attribute(tag, "line-rate"), xml_attribute(tag, "branch-rate")) {
                (Some(line), Some(branch)) => {
                    self.line_rate = line;
                    self.branch_rate = branch;
                    self.root = Some(XmlRoot::Coverage);
                    true
                },
                _ => false,
            }
        } else if same(tag.name.as_str(), "report") {
            self.root = Some(XmlRoot::Report);
            true
        } else {
            false
        }
    }

    fn add_inner(&mut self, tag: &Tag) -> (accepted: bool)
        ensures
            accepted == xml_inner(old(self)@, tag@) is Some,
            accepted ==> final(self)@ == xml_inner(old(self)@, tag@)->0,
    {
        let report = match self.root {
            Some(XmlRoot::Report) => true,
            _ => false,
        };
        if !(report && self.depth == 1 && same(tag.name.as_str(), "counter")) {
            return true;
        }
        let kind = match xml_attribute(tag, "type") {
            Some(kind) => kind,
            None => return false,
        };
        if same(kind.as_str(), "LINE") {
            let counter = parse_counter(tag);
            if self.line.is_some() || counter.is_none() {
                return false;
            }
            self.line = counter;
        } else if same(kind.as_str(), "BRANCH") {
            let counter = parse_counter(tag);
            if self.branch.is_some() || counter.is_none() {
                return false;
            }
            self.branch = counter;
        } else if same(kind.as_str(), "METHOD") {
            let counter = parse_counter(tag);
            if self.method.is_some() || counter.is_none() {
                return false;
            }
            self.method = counter;
        }
        true
    }

    /// Take one event in; `false` where the document is refused.
    pub fn take(&mut self, event: &Markup) -> (accepted: bool)
        ensures
            accepted == xml_step(old(self)@, event@) is Some,
            accepted ==> final(self)@ == xml_step(old(self)@, event@)->0,
    {
        match event {
            Markup::Start(tag) => {
                if self.root.is_some() && self.closed {
                    return false;
                }
                if self.root.is_none() {
                    if !self.open_root(tag) {
                        return false;
                    }
                    self.depth = 1;
                    true
                } else {
                    if !self.add_inner(tag) || self.depth == u32::MAX {
                        return false;
                    }
                    self.depth = self.depth + 1;
                    true
                }
            },
            Markup::Empty(tag) => {
                if self.root.is_some() && self.closed {
                    return false;
                }
                if self.root.is_none() {
                    if !self.open_root(tag) {
                        return false;
                    }
                    self.closed = true;
                    true
                } else {
                    self.add_inner(tag)
                }
            },
            Markup::End => {
                if self.depth == 0 {
                    return false;
                }
                self.depth = self.depth - 1;
                if self.depth == 0 {
                    self.closed = true;
                }
                true
            },
            Markup::Text(text) => !((self.closed || self.root.is_none()) && !is_blank(
                text.as_str(),
            )),
            Markup::Other => true,
            Markup::Finished => true,
            Markup::Malformed => false,
        }
    }

    /// What the document says, once every event was taken in.
    pub fn verdict(self) -> (report: Option<Report>)
        ensures
            report_view(report) == xml_verdict(self@),
    {
        if !self.closed || self.depth != 0 {
            return None;
        }
        match self.root {
            Some(XmlRoot::Coverage) => Some(
                Report::Rates { line: self.line_rate, branch: self.branch_rate },
            ),
            Some(XmlRoot::Report) => match (self.line, self.branch, self.method) {
                (Some(line), Some(branch), Some(method)) => Some(
                    Report::Parsed(
                        (
                            CoverageFormat::JacocoXml,
                            ratio(line.1, line.0),
                            ratio(branch.1, branch.0),
                            ratio(method.1, method.0),
                        ),
                    ),
                ),
                _ => None,
            },
            None => None,
        }
    }
}

fn is_blank(text: &str) -> (blank: bool)
    ensures
        blank == only_blanks(text@),
{
    let chars = chars_of(text);
    let mut i: usize = 0;
    while i < chars.len()
        invariant
            chars@ == text@,
            i <= chars@.len(),
            forall|j: int| 0 <= j < i ==> ascii_blank(#[trigger] text@[j]),
        decreases chars@.len() - i,
    {
        let c = chars[i];
        if !(c == ' ' || c == '\t' || c == '\n' || c == '\x0C' || c == '\r') {
            assert(!ascii_blank(text@[i as int]));
            return false;
        }
        i = i + 1;
    }
    true
}

proof fn lemma_xml_fails_on(events: Seq<MarkupView>, count: int)
    requires
        0 <= count <= events.len(),
        xml_run(events.take(count)) is None,
    ensures
        xml_run(events) is None,
    decreases events.len() - count,
{
    if count < events.len() {
        assert(events.take(count + 1).drop_last() =~= events.take(count));
        lemma_xml_fails_on(events, count + 1);
    } else {
        assert(events.take(count) =~= events);
    }
}

/// A Cobertura or JaCoCo report: one well-formed document with a known root.
pub fn parse_xml(contents: &str) -> (report: Option<Report>)
    ensures
        report_view(report) == xml_report(contents@),
{
    let mut reader = xml_reader(contents);
    let mut scan = XmlScan::new();
    let ghost events = documents::xml_events(contents@);
    let ghost mut count: int = 0;
    assert(events.skip(0) =~= events);
    loop
        invariant_except_break
            documents::xml_pending(reader).len() > 0,
        invariant
            events == documents::xml_events(contents@),
            0 <= count <= events.len(),
            documents::xml_pending(reader) == events.skip(count),
            xml_run(events.take(count)) == Some(scan@),
        ensures
            documents::xml_pending(reader).len() == 0,
        decreases documents::xml_pending(reader).len(),
    {
        let event = xml_next(&mut reader);
        proof {
            assert(event@ == events[count]);
            assert(events.take(count + 1).drop_last() =~= events.take(count));
            assert(events.skip(count).skip(1) =~= events.skip(count + 1));
            count = count + 1;
        }
        if !scan.take(&event) {
            proof {
                lemma_xml_fails_on(events, count);
            }
            return None;
        }
        match event {
            Markup::Finished => break,
            _ => {},
        }
    }
    assert(events.take(count) =~= events);
    scan.verdict()
}

/// A rate between 0 and 1 as a percentage.
pub open spec fn rate_percent(rate: Option<Binary64>) -> Option<Binary64> {
    match rate {
        Some(rate) => if rate.finite() && rate.within(1) {
            percent_or_none(rate.hundredfold())
        } else {
            None
        },
        None => None,
    }
}

fn xml_rate(rate: Option<Binary64>) -> (percent: Option<Binary64>)
    ensures
        percent == rate_percent(rate),
{
    match rate {
        Some(rate) => if rate.is_finite() && rate.is_within(1) {
            finite_percent(rate.times_hundred())
        } else {
            None
        },
        None => None,
    }
}

/// A Cobertura report by its two rates, each `None` where its text is no number.
pub fn cobertura(line_rate: Option<Binary64>, branch_rate: Option<Binary64>) -> (parsed: Option<
    ParsedCoverage,
>)
    ensures
        parsed == if rate_percent(line_rate) is Some && rate_percent(branch_rate) is Some {
            Some(
                (
                    CoverageFormat::CoberturaXml,
                    rate_percent(line_rate),
                    rate_percent(branch_rate),
                    None::<Binary64>,
                ),
            )
        } else {
            None
        },
{
    match (xml_rate(line_rate), xml_rate(branch_rate)) {
        (Some(line), Some(branch)) => Some(
            (CoverageFormat::CoberturaXml, Some(line), Some(branch), None),
        ),
        _ => None,
    }
}

/// A line that only an LCOV report would hold.
pub open spec fn lcov_mark(line: Seq<char>) -> bool {
    line == "end_of_record"@ || match strings::cut_at(line, ':') {
        Some(parts) => lcov_kind(parts.0),
        None => false,
    }
}

pub open spec fn lcov_kind(kind: Seq<char>) -> bool {
    ||| kind == "TN"@
    ||| kind == "SF"@
    ||| kind == "FN"@
    ||| kind == "FNDA"@
    ||| kind == "FNF"@
    ||| kind == "FNH"@
    ||| kind == "DA"@
    ||| kind == "LF"@
    ||| kind == "LH"@
    ||| kind == "BRDA"@
    ||| kind == "BRF"@
    ||| kind == "BRH"@
}

pub open spec fn lcov_marked(contents: Seq<char>) -> bool {
    exists|i: int|
        0 <= i < strings::lines_text(contents).len() && lcov_mark(
            #[trigger] strings::lines_text(contents)[i],
        )
}

fn looks_like_lcov(contents: &str) -> (yes: bool)
    ensures
        yes == lcov_marked(contents@),
{
    let records = lines(contents);
    let ghost all = strings::lines_text(contents@);
    let mut i: usize = 0;
    while i < records.len()
        invariant
            i <= records@.len(),
            all == strings::texts(records@),
            all == strings::lines_text(contents@),
            forall|j: int| 0 <= j < i ==> !lcov_mark(#[trigger] all[j]),
        decreases records@.len() - i,
    {
        let line = records[i].as_str();
        assert(all[i as int] == line@);
        let marked = same(line, "end_of_record") || match split_once(line, ':') {
            Some(parts) => {
                let kind = parts.0.as_str();
                same(kind, "TN") || same(kind, "SF") || same(kind, "FN") || same(kind, "FNDA")
                    || same(kind, "FNF") || same(kind, "FNH") || same(kind, "DA") || same(
                    kind,
                    "LF",
                ) || same(kind, "LH") || same(kind, "BRDA") || same(kind, "BRF") || same(
                    kind,
                    "BRH",
                )
            },
            None => false,
        };
        if marked {
            return true;
        }
        i = i + 1;
    }
    false
}

/// The first line, where the text is not empty.
pub open spec fn first_line(text: Seq<char>) -> Option<Seq<char>> {
    let all = strings::lines_text(text);
    if all.len() > 0 {
        Some(all[0])
    } else {
        None
    }
}

pub open spec fn parsed_view(parsed: Option<ParsedCoverage>) -> Option<ReportView> {
    match parsed {
        Some(parsed) => Some(ReportView::Parsed(parsed)),
        None => None,
    }
}

/// The report in a file of that name and extension. The first character decides
/// for XML and JSON, then the file's name and the first line, then the records.
pub open spec fn report_of(
    name: Seq<char>,
    extension: Option<Seq<char>>,
    contents: Seq<char>,
) -> Option<ReportView> {
    let start = strings::trimmed_start(contents);
    if strings::begins_with(start, "<"@) {
        xml_report(contents)
    } else if strings::begins_with(start, "{"@) || strings::occurs(name, "summary"@) {
        parsed_view(istanbul_report(contents))
    } else {
        match first_line(start) {
            None => None,
            Some(line) => if strings::begins_with(strings::trimmed_start(line), "mode:"@) || name
                == "coverage.out"@ || name == "cover.out"@ {
                parsed_view(go_report(contents))
            } else if strings::finishes_with(name, ".info"@) || lcov_marked(contents) {
                parsed_view(lcov_report(contents))
            } else if extension is Some && strings::lowered(extension->0) == strings::lowered(
                "xml"@,
            ) {
                xml_report(contents)
            } else {
                None
            },
        }
    }
}

fn settled(parsed: Option<ParsedCoverage>) -> (report: Option<Report>)
    ensures
        report_view(report) == parsed_view(parsed),
{
    match parsed {
        Some(parsed) => Some(Report::Parsed(parsed)),
        None => None,
    }
}

/// The report in a file of that name and extension; the name is empty where it
/// is no text.
pub fn parse(name: &str, extension: Option<&str>, contents: &str) -> (report: Option<Report>)
    ensures
        report_view(report) == report_of(
            name@,
            match extension {
                Some(extension) => Some(extension@),
                None => None,
            },
            contents@,
        ),
{
    let start = trim_start(contents);
    if starts_with(start.as_str(), "<") {
        return parse_xml(contents);
    }
    if starts_with(start.as_str(), "{") || contains(name, "summary") {
        return settled(parse_istanbul(contents));
    }
    let records = lines(start.as_str());
    let ghost all = strings::lines_text(start@);
    assert(all.len() == records@.len());
    if records.len() == 0 {
        return None;
    }
    assert(all[0] == records@[0]@);
    if starts_with(trim_start(records[0].as_str()).as_str(), "mode:") || same(
        name,
        "coverage.out",
    ) || same(name, "cover.out") {
        return settled(parse_go(contents));
    }
    if ends_with(name, ".info") || looks_like_lcov(contents) {
        return settled(parse_lcov(contents));
    }
    match extension {
        Some(extension) => if same(
            lower_text(extension).as_str(),
            lower_text("xml").as_str(),
        ) {
            parse_xml(contents)
        } else {
            None
        },
        None => None,
    }
}

} // verus!
