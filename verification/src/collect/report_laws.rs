//! What reading a coverage report promises of its records, its kinds and its refusals.
use vstd::prelude::*;
use crate::binary64::Binary64;
use crate::collect::coverage;
use crate::collect::coverage::{Lcov, ReportView, XmlRoot, XmlState};
use crate::collect::documents;
use crate::collect::documents::{JsonTree, MarkupView, TagView};
use crate::collect::git;
use crate::collect::git::GitRead;
use crate::collect::reports;
use crate::collect::reports::{AnswerView, LinkCheck, MetadataCheck, SearchView};
use crate::model::{CoverageFormat, DiagnosticSeverity, DiagnosticView};
use crate::strings;
use crate::strings_laws;

verus! {

/// The names of records differ from one another.
proof fn lemma_names_differ()
    ensures
        forall|kind: Seq<char>|
            kind == "FNF"@ || kind == "FNH"@ || kind == "LF"@ || kind == "LH"@ || kind == "BRF"@
                || kind == "BRH"@ ==> kind != "TN"@ && kind != "SF"@ && kind != "FN"@ && kind
                != "FNDA"@ && kind != "DA"@ && kind != "BRDA"@ && #[trigger] kind.len() > 0 && kind
                != "end_of_record"@,
        "FNH"@ != "FNF"@,
        "LF"@ != "FNF"@ && "LF"@ != "FNH"@,
        "LH"@ != "FNF"@ && "LH"@ != "FNH"@ && "LH"@ != "LF"@,
        "BRF"@ != "FNF"@ && "BRF"@ != "FNH"@ && "BRF"@ != "LF"@ && "BRF"@ != "LH"@,
        "BRH"@ != "FNF"@ && "BRH"@ != "FNH"@ && "BRH"@ != "LF"@ && "BRH"@ != "LH"@ && "BRH"@
            != "BRF"@,
        "SF"@ != "TN"@,
        "FN"@ != "TN"@ && "FN"@ != "SF"@,
        "FNDA"@ != "TN"@ && "FNDA"@ != "SF"@ && "FNDA"@ != "FN"@,
        "DA"@ != "TN"@ && "DA"@ != "SF"@ && "DA"@ != "FN"@ && "DA"@ != "FNDA"@,
        "BRDA"@ != "TN"@ && "BRDA"@ != "SF"@ && "BRDA"@ != "FN"@ && "BRDA"@ != "FNDA"@ && "BRDA"@
            != "DA"@,
        "end_of_record"@ != "TN"@ && "end_of_record"@ != "SF"@ && "end_of_record"@ != "FN"@
            && "end_of_record"@ != "FNDA"@ && "end_of_record"@ != "DA"@ && "end_of_record"@
            != "BRDA"@,
{
    reveal_strlit("FNF");
    reveal_strlit("FNH");
    reveal_strlit("LF");
    reveal_strlit("LH");
    reveal_strlit("BRF");
    reveal_strlit("BRH");
    reveal_strlit("TN");
    reveal_strlit("SF");
    reveal_strlit("FN");
    reveal_strlit("FNDA");
    reveal_strlit("DA");
    reveal_strlit("BRDA");
    reveal_strlit("end_of_record");
    assert("FNF"@.len() == 3 && "FNH"@.len() == 3 && "LF"@.len() == 2 && "LH"@.len() == 2);
    assert("BRF"@.len() == 3 && "BRH"@.len() == 3 && "TN"@.len() == 2 && "SF"@.len() == 2);
    assert("FN"@.len() == 2 && "FNDA"@.len() == 4 && "DA"@.len() == 2 && "BRDA"@.len() == 4);
    assert("end_of_record"@.len() == 13);
    assert("FNH"@[2] != "FNF"@[2]);
    assert("LH"@[1] != "LF"@[1]);
    assert("BRF"@[0] != "FNF"@[0] && "BRF"@[0] != "FNH"@[0]);
    assert("BRH"@[0] != "FNF"@[0] && "BRH"@[0] != "FNH"@[0]);
    assert("BRH"@[2] != "BRF"@[2]);
    assert("SF"@[0] != "TN"@[0]);
    assert("FN"@[0] != "TN"@[0] && "FN"@[0] != "SF"@[0]);
    assert("DA"@[0] != "TN"@[0] && "DA"@[0] != "SF"@[0] && "DA"@[0] != "FN"@[0]);
    assert("FNDA"@[0] != "BRDA"@[0]);
    assert("LF"@[0] != "TN"@[0] && "LF"@[0] != "SF"@[0] && "LF"@[0] != "FN"@[0] && "LF"@[0]
        != "DA"@[0]);
    assert("LH"@[0] != "TN"@[0] && "LH"@[0] != "SF"@[0] && "LH"@[0] != "FN"@[0] && "LH"@[0]
        != "DA"@[0]);
}

/// A record that states a total, or the hits of it, states it of the lines, the branches or
/// the functions, and of nothing else.
pub proof fn law_totals_are_stated_by_their_records(sums: Lcov, number: u64)
    ensures
        ({
            let value = strings::decimal_text(number as nat);
            let seen = Lcov { recognized: true, ..sums };
            &&& coverage::lcov_record(sums, "LF"@, value) == Some(
                Lcov { line_summary: Some(number), ..seen },
            )
            &&& coverage::lcov_record(sums, "LH"@, value) == Some(
                Lcov { line_summary_hit: Some(number), ..seen },
            )
            &&& coverage::lcov_record(sums, "BRF"@, value) == Some(
                Lcov { branch_summary: Some(number), ..seen },
            )
            &&& coverage::lcov_record(sums, "BRH"@, value) == Some(
                Lcov { branch_summary_hit: Some(number), ..seen },
            )
            &&& coverage::lcov_record(sums, "FNF"@, value) == Some(
                Lcov { function_summary: Some(number), ..seen },
            )
            &&& coverage::lcov_record(sums, "FNH"@, value) == Some(
                Lcov { function_summary_hit: Some(number), ..seen },
            )
        }),
{
    lemma_names_differ();
    strings_laws::law_written_numbers_are_read_back(number as nat);
    assert("LF"@.len() > 0 && "LH"@.len() > 0 && "BRF"@.len() > 0 && "BRH"@.len() > 0
        && "FNF"@.len() > 0 && "FNH"@.len() > 0) by {
        reveal_strlit("FNF");
        reveal_strlit("FNH");
        reveal_strlit("LF");
        reveal_strlit("LH");
        reveal_strlit("BRF");
        reveal_strlit("BRH");
    }
}

/// A record without the parts of its kind refuses the report: a count without a comma, a
/// source without a name, an end with words behind it, and a total that is no number.
pub proof fn law_records_without_their_parts_are_refused(sums: Lcov, value: Seq<char>)
    ensures
        strings_laws::free_of(value, ',') ==> coverage::lcov_record(sums, "DA"@, value) is None
            && coverage::lcov_record(sums, "BRDA"@, value) is None && coverage::lcov_record(
            sums,
            "FN"@,
            value,
        ) is None && coverage::lcov_record(sums, "FNDA"@, value) is None,
        coverage::lcov_record(sums, "SF"@, value) is None <==> value.len() == 0,
        coverage::lcov_record(sums, "end_of_record"@, value) is None <==> value.len() > 0,
        strings::natural_of(value) is None ==> coverage::lcov_record(sums, "LF"@, value) is None
            && coverage::lcov_record(sums, "LH"@, value) is None && coverage::lcov_record(
            sums,
            "BRF"@,
            value,
        ) is None && coverage::lcov_record(sums, "BRH"@, value) is None && coverage::lcov_record(
            sums,
            "FNF"@,
            value,
        ) is None && coverage::lcov_record(sums, "FNH"@, value) is None,
{
    lemma_names_differ();
    assert("LF"@.len() > 0 && "LH"@.len() > 0 && "BRF"@.len() > 0 && "BRH"@.len() > 0
        && "FNF"@.len() > 0 && "FNH"@.len() > 0) by {
        reveal_strlit("FNF");
        reveal_strlit("FNH");
        reveal_strlit("LF");
        reveal_strlit("LH");
        reveal_strlit("BRF");
        reveal_strlit("BRH");
    }
    if strings_laws::free_of(value, ',') {
        strings_laws::lemma_position(value, ',', 0, value.len() as int);
        reveal_with_fuel(strings::split_from, 2);
    }
}

/// Records that count nothing change no sum: those of a test, a source, the place of a
/// function and an end are seen, and those of other kinds are passed over.
pub proof fn law_records_that_count_nothing(sums: Lcov, kind: Seq<char>, value: Seq<char>)
    ensures
        ({
            let seen = Lcov { recognized: true, ..sums };
            &&& coverage::lcov_record(sums, "TN"@, value) == Some(seen)
            &&& value.len() > 0 ==> coverage::lcov_record(sums, "SF"@, value) == Some(seen)
            &&& coverage::named_number(value) is Some ==> coverage::lcov_record(sums, "FN"@, value)
                == Some(seen)
            &&& coverage::lcov_record(sums, "end_of_record"@, Seq::empty()) == Some(seen)
            &&& !coverage::lcov_kind(kind) && kind != "end_of_record"@ ==> coverage::lcov_record(
                sums,
                kind,
                value,
            ) == Some(sums)
        }),
{
    lemma_names_differ();
}

/// A number before a name is the number that stands before the first comma, where something
/// stands behind it.
pub proof fn law_numbers_stand_before_names(number: u64, name: Seq<char>)
    ensures
        name.len() > 0 ==> coverage::named_number(
            strings::decimal_text(number as nat).push(',') + name,
        ) == Some(number),
        coverage::named_number(strings::decimal_text(number as nat).push(',')) is None,
{
    let digits = strings::decimal_text(number as nat);
    strings_laws::law_written_numbers_are_read_back(number as nat);
    strings_laws::law_numbers_are_written_in_digits(number as nat);
    assert(strings_laws::free_of(digits, ','));
    strings_laws::law_pieces_are_what_stands_between(digits, ',', name);
    strings_laws::law_pieces_are_what_stands_between(digits, ',', Seq::empty());
    assert(digits.push(',') + Seq::<char>::empty() =~= digits.push(','));
}

/// A Go profile is one only where it begins with its mode, which is one of three.
pub proof fn law_profiles_begin_with_their_mode(rest: Seq<char>, line: Seq<char>)
    ensures
        coverage::go_mode("mode"@.push(':') + rest) <==> strings::trimmed(rest) == "set"@
            || strings::trimmed(rest) == "count"@ || strings::trimmed(rest) == "atomic"@,
        coverage::go_mode(line) ==> exists|behind: Seq<char>|
            #![trigger strings::trimmed(behind)]
            line == "mode"@.push(':') + behind && (strings::trimmed(behind) == "set"@
                || strings::trimmed(behind) == "count"@ || strings::trimmed(behind)
                == "atomic"@),
{
    reveal_strlit("mode");
    assert(strings_laws::free_of("mode"@, ':'));
    strings_laws::law_pieces_are_what_stands_between("mode"@, ':', rest);
    if coverage::go_mode(line) {
        let parts = strings::cut_at(line, ':')->0;
        strings_laws::lemma_position_is_first(line, ':', 0);
        assert(line =~= parts.0.push(':') + parts.1);
    }
}

/// A profile without its mode is refused.
pub proof fn law_profiles_without_a_mode_are_refused(contents: Seq<char>)
    ensures
        ({
            let written = coverage::written_lines(strings::lines_text(contents));
            &&& written.len() == 0 ==> coverage::go_report(contents) is None
            &&& written.len() > 0 && !coverage::go_mode(written[0]) ==> coverage::go_report(
                contents,
            ) is None
        }),
{
}

/// A metric of an Istanbul summary: what it states is told exactly where its covered count
/// is no more than its total, and its percentage lies between 0 and 100.
pub proof fn law_istanbul_metrics_that_are_told(
    tree: JsonTree,
    name: Seq<char>,
    metric: JsonTree,
    total: u64,
    covered: u64,
    first: u64,
    second: u64,
    percent: Binary64,
    natural: Option<u64>,
)
    requires
        documents::json_member(tree, name) == Some(metric),
        documents::json_member(metric, "total"@) == Some(
            JsonTree::Number { natural: Some(total), bits: first },
        ),
        documents::json_member(metric, "covered"@) == Some(
            JsonTree::Number { natural: Some(covered), bits: second },
        ),
        documents::json_member(metric, "pct"@) == Some(
            JsonTree::Number { natural, bits: percent.bits },
        ),
    ensures
        coverage::istanbul_metric_of(tree, name) is Some <==> covered <= total
            && percent.finite() && percent.within(100),
        coverage::istanbul_metric_of(tree, name) is Some ==> coverage::istanbul_metric_of(
            tree,
            name,
        )->0 == Some(percent),
{
}

/// A summary tells of its metrics only where all three of them are sound.
pub proof fn law_istanbul_summaries_need_all_metrics(document: JsonTree, total: JsonTree)
    requires
        documents::json_member(document, "total"@) == Some(total),
    ensures
        coverage::istanbul_document(document) is Some <==> coverage::istanbul_metric_of(
            total,
            "lines"@,
        ) is Some && coverage::istanbul_metric_of(total, "branches"@) is Some
            && coverage::istanbul_metric_of(total, "functions"@) is Some,
{
}

/// What a file is read as: what begins like XML or JSON as that, whatever its name is; a
/// summary by its name as JSON; a profile by its first line or its name; LCOV by its name or
/// its records; and else XML where the extension says so, in any letters.
pub proof fn law_files_are_read_by_beginning_name_and_records(
    name: Seq<char>,
    extension: Option<Seq<char>>,
    contents: Seq<char>,
)
    ensures
        ({
            let start = strings::trimmed_start(contents);
            let lines = strings::lines_text(start);
            let read = coverage::report_of(name, extension, contents);
            let markup = strings::begins_with(start, "<"@);
            let json = strings::begins_with(start, "{"@) || strings::occurs(name, "summary"@);
            let go = lines.len() > 0 && (strings::begins_with(
                strings::trimmed_start(lines[0]),
                "mode:"@,
            ) || name == "coverage.out"@ || name == "cover.out"@);
            let lcov = lines.len() > 0 && (strings::finishes_with(name, ".info"@)
                || coverage::lcov_marked(contents));
            &&& markup ==> read == coverage::xml_report(contents)
            &&& !markup && json ==> (read is Some <==> coverage::istanbul_report(contents) is Some)
                && (read is Some ==> read->0 == ReportView::Parsed(
                coverage::istanbul_report(contents)->0,
            ))
            &&& !markup && !json && go ==> (read is Some <==> coverage::go_report(
                contents,
            ) is Some) && (read is Some ==> read->0 == ReportView::Parsed(
                coverage::go_report(contents)->0,
            ))
            &&& !markup && !json && !go && lcov ==> (read is Some <==> coverage::lcov_report(
                contents,
            ) is Some) && (read is Some ==> read->0 == ReportView::Parsed(
                coverage::lcov_report(contents)->0,
            ))
            &&& !markup && !json && !go && !lcov && read is Some ==> extension is Some
                && strings::lowered(extension->0) == strings::lowered("xml"@)
            &&& !markup && !json && lines.len() == 0 ==> read is None
        }),
{
}

/// A document is told only once its root is closed, and nothing but blanks stands behind it
/// or before it; what is malformed is refused.
pub proof fn law_documents_end_with_their_root(state: XmlState, tag: TagView, text: Seq<char>)
    ensures
        !state.closed || state.depth != 0 ==> coverage::xml_verdict(state) is None,
        state.root is None ==> coverage::xml_verdict(state) is None,
        coverage::xml_step(state, MarkupView::Malformed) is None,
        state.root is Some && state.closed ==> coverage::xml_step(state, MarkupView::Start(tag))
            is None && coverage::xml_step(state, MarkupView::Empty(tag)) is None,
        state.depth == 0 ==> coverage::xml_step(state, MarkupView::End) is None,
        coverage::xml_step(state, MarkupView::Other) == Some(state),
        coverage::xml_step(state, MarkupView::Finished) == Some(state),
        state.root is Some && !state.closed ==> coverage::xml_step(state, MarkupView::Text(text))
            == Some(state),
{
}

/// Only `coverage` and `report` are roots of reports, and a Cobertura root has its rates.
pub proof fn law_roots_that_are_known(state: XmlState, tag: TagView)
    requires
        state.root is None,
    ensures
        ({
            let next = coverage::xml_root(state, tag);
            let rates = coverage::attribute_of(tag, "line-rate"@) is Some
                && coverage::attribute_of(tag, "branch-rate"@) is Some;
            &&& next is Some <==> (tag.name == "coverage"@ && rates) || tag.name == "report"@
            &&& tag.name == "report"@ ==> next->0.root == Some(XmlRoot::Report)
            &&& tag.name == "coverage"@ && rates ==> next->0.root == Some(XmlRoot::Coverage)
        }),
{
    reveal_strlit("coverage");
    reveal_strlit("report");
    assert("coverage"@.len() == 8 && "report"@.len() == 6);
}

/// A counter counts the missed and the covered together, and is refused where it lacks one
/// of them, or they are no numbers.
pub proof fn law_counters_count_missed_and_covered(tag: TagView, missed: u64, covered: u64)
    requires
        coverage::attribute_of(tag, "missed"@) == Some(strings::decimal_text(missed as nat)),
        coverage::attribute_of(tag, "covered"@) == Some(strings::decimal_text(covered as nat)),
    ensures
        coverage::counter_of(tag) is Some <==> missed + covered <= u64::MAX,
        coverage::counter_of(tag) is Some ==> (coverage::counter_of(tag)->0).0 == missed + covered
            && (coverage::counter_of(tag)->0).1 == covered,
{
    strings_laws::law_written_numbers_are_read_back(missed as nat);
    strings_laws::law_written_numbers_are_read_back(covered as nat);
}

/// A repository that cannot be read is warned of by what failed, in its words; where there
/// is none, nothing is said.
pub proof fn law_repositories_that_cannot_be_read(message: String)
    ensures
        git::read_warning(GitRead::NoRepository) is None,
        git::read_warning(GitRead::DiscoverFailed(message)) == Some(
            (DiagnosticView {
                severity: DiagnosticSeverity::Warning,
                code: "git-discover"@,
                message: message@,
                subject: None,
            }),
        ),
        git::read_warning(GitRead::HeadFailed(message)) == Some(
            (DiagnosticView {
                severity: DiagnosticSeverity::Warning,
                code: "git-head"@,
                message: message@,
                subject: None,
            }),
        ),
        git::read_warning(GitRead::DetachedWithoutTarget) == Some(
            (DiagnosticView {
                severity: DiagnosticSeverity::Warning,
                code: "git-head"@,
                message: "detached HEAD has no commit target"@,
                subject: None,
            }),
        ),
        git::read_warning(GitRead::StatusFailed(message)) == Some(
            (DiagnosticView {
                severity: DiagnosticSeverity::Warning,
                code: "git-status"@,
                message: message@,
                subject: None,
            }),
        ),
{
}

/// A warning is put behind those that there are.
pub proof fn law_warnings_are_put_behind(diagnostics: Seq<DiagnosticView>, item: DiagnosticView)
    ensures
        git::with_warning(diagnostics, Some(item)) == diagnostics.push(item),
        git::with_warning(diagnostics, None) == diagnostics,
{
}

/// One text stands before another in the order of their first difference; of two that agree
/// as far as one goes, the shorter stands first. No text stands before itself, and of two
/// different ones one stands first.
pub proof fn law_texts_stand_in_order(front: Seq<char>, a: char, b: char, x: Seq<char>, y: Seq<char>)
    ensures
        a < b ==> strings::precedes(front.push(a) + x, front.push(b) + y),
        a < b ==> !strings::precedes(front.push(b) + y, front.push(a) + x),
        strings::precedes(front, front.push(a) + x),
        !strings::precedes(front.push(a) + x, front),
        !strings::precedes(front, front),
    decreases front.len(),
{
    let first = front.push(a) + x;
    let second = front.push(b) + y;
    if front.len() > 0 {
        let rest = front.skip(1);
        law_texts_stand_in_order(rest, a, b, x, y);
        assert(first.skip(1) =~= rest.push(a) + x);
        assert(second.skip(1) =~= rest.push(b) + y);
    }
}

/// A candidate that was already looked at under another name is passed over in silence, and
/// one that was not is remembered.
pub proof fn law_no_report_is_looked_at_twice(search: SearchView, key: Seq<u8>)
    requires
        search.stage is Identity,
    ensures
        ({
            let after = reports::advanced(search, AnswerView::Identity(key));
            let again = search.seen.contains(key);
            &&& again ==> after.at == search.at + 1 && after.seen == search.seen
            &&& !again ==> after.at == search.at && after.stage is Metadata && after.seen
                == search.seen.push(key)
            &&& after.diagnostics == search.diagnostics && after.found == search.found
        }),
{
}

/// What cannot be looked at is told of: as missing where the user asked for it, and else as
/// what failed.
pub proof fn law_candidates_that_cannot_be_looked_at(search: SearchView)
    requires
        search.sound(),
        !(search.stage is Done),
    ensures
        ({
            let candidate = search.candidates[search.at as int];
            let link = reports::advanced(search, AnswerView::Link(LinkCheck::Failed));
            let file = reports::advanced(search, AnswerView::Metadata(MetadataCheck::Failed));
            &&& search.stage is Link ==> link.diagnostics.len() == search.diagnostics.len() + 1
                && link.diagnostics.last().code == "coverage-metadata-failed"@ && link.at
                == search.at + 1
            &&& search.stage is Metadata ==> file.diagnostics.len() == search.diagnostics.len() + 1
                && file.at == search.at + 1
            &&& search.stage is Metadata && candidate.configured
                ==> file.diagnostics.last().code == "coverage-configured-missing"@
            &&& search.stage is Metadata && !candidate.configured
                ==> file.diagnostics.last().code == "coverage-metadata-failed"@
        }),
{
}

/// The rates of a Cobertura report are told as percentages, of the lines and of the branches;
/// where one of them is no rate the report is passed over.
pub proof fn law_rates_make_percentages(
    search: SearchView,
    line: Option<Binary64>,
    branch: Option<Binary64>,
)
    requires
        search.stage is Rates,
    ensures
        ({
            let after = reports::advanced(search, AnswerView::Rates(line, branch));
            &&& after.stage is Done && after.at == search.at ==> {
                &&& line is Some && branch is Some && after.found is Some
                &&& line->0.finite() && line->0.within(1) && branch->0.finite()
                    && branch->0.within(1)
                &&& after.found->0.line_percent == Some(line->0.hundredfold())
                &&& after.found->0.branch_percent == Some(branch->0.hundredfold())
                &&& after.found->0.function_percent is None
                &&& after.found->0.format == Some(CoverageFormat::CoberturaXml)
            }
            &&& after.at != search.at ==> after.diagnostics.len() == search.diagnostics.len() + 1
                && after.diagnostics.last().code == "coverage-malformed"@ && after.found
                == search.found
            &&& line is None || branch is None ==> after.at == search.at + 1
        }),
{
}

/// An answer to another question changes nothing, and nothing changes once a search is done.
pub proof fn law_other_answers_change_nothing(search: SearchView, key: Seq<u8>)
    ensures
        search.stage is Done ==> reports::advanced(search, AnswerView::Identity(key)) == search
            && reports::advanced(search, AnswerView::TooLarge) == search,
        search.stage is Link ==> reports::advanced(search, AnswerView::Identity(key)) == search,
        search.stage is Metadata ==> reports::advanced(search, AnswerView::TooLarge) == search,
        search.stage is Identity ==> reports::advanced(search, AnswerView::Unreadable) == search,
        search.stage is Contents ==> reports::advanced(search, AnswerView::Identity(key)) == search,
        search.stage is Rates ==> reports::advanced(search, AnswerView::NotRegular) == search,
{
}

/// A record of a line has a number and a count, and a checksum that is not empty or none; a
/// record of a branch has three numbers and a count or a dash.
pub proof fn law_records_have_their_parts(value: Seq<char>)
    ensures
        ({
            let parts = strings::split_text(value, ',');
            let numbered = parts.len() >= 2 && strings::natural_of(parts[0]) is Some
                && strings::natural_of(parts[1]) is Some;
            &&& coverage::line_count(value) is Some <==> numbered && (parts.len() == 2 || (
            parts.len() == 3 && parts[2].len() > 0))
            &&& coverage::line_count(value) is Some ==> coverage::line_count(value)
                == strings::natural_of(parts[1])
            &&& coverage::branch_taken(value) is Some <==> numbered && parts.len() == 4
                && strings::natural_of(parts[2]) is Some && (parts[3] == "-"@
                || strings::natural_of(parts[3]) is Some)
        }),
{
}

/// A block of a profile has three words: a range in a file, the number of its statements and
/// how often they ran; the range ends, as it begins, at a line and a column.
pub proof fn law_blocks_have_three_words(line: Seq<char>)
    requires
        coverage::go_block(line) is Some,
    ensures
        ({
            let words = strings::words_text(line);
            let range = strings::behind_last(words[0], ':');
            let ends = strings::cut_at(range->0, ',');
            let first = strings::cut_at((ends->0).0, '.');
            let last = strings::cut_at((ends->0).1, '.');
            &&& words.len() == 3
            &&& range is Some && ends is Some && first is Some && last is Some
            &&& strings::natural_of((first->0).0) is Some
            &&& strings::natural_of((first->0).1) is Some
            &&& strings::natural_of((last->0).0) is Some
            &&& strings::natural_of((last->0).1) is Some
            &&& strings::natural_of(words[1]) == Some((coverage::go_block(line)->0).0)
            &&& strings::natural_of(words[2]) == Some((coverage::go_block(line)->0).1)
        }),
{
}

/// All carriage returns at the end of a line are taken off, and nothing else is.
pub proof fn law_returns_are_taken_off(line: Seq<char>)
    ensures
        coverage::without_returns(line.push('\r')) == coverage::without_returns(line),
        line.len() > 0 && line.last() != '\r' ==> coverage::without_returns(line) == line,
        coverage::without_returns(Seq::empty()).len() == 0,
{
    assert(line.push('\r').drop_last() =~= line);
}

/// A line of a profile counts where it holds more than white space, in its order.
pub proof fn law_blank_lines_are_passed_over(lines: Seq<Seq<char>>, last: Seq<char>)
    ensures
        ({
            let before = coverage::written_lines(lines);
            let after = coverage::written_lines(lines.push(last));
            let line = coverage::without_returns(last);
            &&& strings::trimmed(line).len() == 0 ==> after == before
            &&& strings::trimmed(line).len() > 0 ==> after == before.push(line)
        }),
{
    assert(lines.push(last).drop_last() =~= lines);
}

/// A line of an LCOV report is a record of what stands before and behind its first colon; an
/// empty one is none, and a record that is refused refuses all.
pub proof fn law_lines_are_records(lines: Seq<Seq<char>>, last: Seq<char>)
    ensures
        ({
            let before = coverage::lcov_sums(lines);
            let after = coverage::lcov_sums(lines.push(last));
            let line = coverage::without_returns(last);
            let parts = strings::cut_at(line, ':');
            &&& before is None ==> after is None
            &&& before is Some && line.len() == 0 ==> after == before
            &&& before is Some && line.len() > 0 && parts is Some ==> after
                == coverage::lcov_record(before->0, (parts->0).0, (parts->0).1)
            &&& before is Some && line.len() > 0 && parts is None ==> after
                == coverage::lcov_record(before->0, line, Seq::empty())
        }),
{
    reveal_strlit("");
    assert(""@ =~= Seq::empty());
    assert(lines.push(last).drop_last() =~= lines);
}

/// A second counter of one metric refuses the report, and so does a counter without numbers.
pub proof fn law_counters_come_once(state: XmlState, tag: TagView)
    requires
        state.root == Some(XmlRoot::Report),
        state.depth == 1,
        !state.closed,
        tag.name == "counter"@,
    ensures
        ({
            let kind = coverage::attribute_of(tag, "type"@);
            let next = coverage::xml_step(state, MarkupView::Empty(tag));
            &&& kind is None ==> next is None
            &&& kind == Some("LINE"@) && (state.line is Some || coverage::counter_of(tag) is None)
                ==> next is None
            &&& kind == Some("BRANCH"@) && (state.branch is Some || coverage::counter_of(
                tag,
            ) is None) ==> next is None
            &&& kind == Some("METHOD"@) && (state.method is Some || coverage::counter_of(
                tag,
            ) is None) ==> next is None
        }),
{
    reveal_strlit("LINE");
    reveal_strlit("BRANCH");
    reveal_strlit("METHOD");
    assert("LINE"@.len() == 4 && "BRANCH"@.len() == 6 && "METHOD"@.len() == 6);
    assert("BRANCH"@[0] != "METHOD"@[0]);
}

/// Tags that are no counters right below the root of a JaCoCo report count nothing.
pub proof fn law_other_tags_count_nothing(state: XmlState, tag: TagView)
    requires
        state.root is Some,
        !state.closed,
        state.depth != 1 || tag.name != "counter"@ || state.root == Some(XmlRoot::Coverage),
    ensures
        coverage::xml_step(state, MarkupView::Empty(tag)) == Some(state),
{
}

} // verus!
