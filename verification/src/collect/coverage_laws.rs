//! What the readings of coverage reports promise: which records count for which metric,
//! and what its percentage is the share of.
use vstd::prelude::*;
use crate::binary64;
use crate::binary64::Binary64;
use crate::collect::coverage;
use crate::collect::coverage::{Lcov, XmlRoot, XmlState};
use crate::collect::documents;
use crate::collect::documents::{AttributeView, JsonTree, MarkupView, TagView};
use crate::model::CoverageFormat;
use crate::strings;
use crate::strings_laws;

verus! {

/// A record of an LCOV report as a tool writes it.
pub enum Record {
    Source { name: Seq<char> },
    Line { number: u64, count: u64 },
    Branch { line: u64, block: u64, branch: u64, count: Option<u64> },
    Function { count: u64, name: Seq<char> },
    End,
}

#[derive(Clone, Copy, PartialEq, Eq, Structural)]
pub enum Metric {
    Line,
    Branch,
    Function,
}

/// A name that a record can hold.
pub open spec fn proper_name(name: Seq<char>) -> bool {
    name.len() > 0 && strings_laws::free_of(name, '\n') && strings_laws::free_of(name, '\r')
}

pub open spec fn proper(record: Record) -> bool {
    match record {
        Record::Source { name } => proper_name(name),
        Record::Function { name, .. } => proper_name(name),
        _ => true,
    }
}

/// A record in the words of the format.
pub open spec fn record_text(record: Record) -> Seq<char> {
    match record {
        Record::Source { name } => "SF:"@ + name,
        Record::Line { number, count } => "DA:"@ + (strings::decimal_text(number as nat).push(',')
            + strings::decimal_text(count as nat)),
        Record::Branch { line, block, branch, count } => "BRDA:"@ + (strings::decimal_text(
            line as nat,
        ).push(',') + (strings::decimal_text(block as nat).push(',') + (strings::decimal_text(
            branch as nat,
        ).push(',') + branch_mark(count)))),
        Record::Function { count, name } => "FNDA:"@ + (strings::decimal_text(count as nat).push(
            ',',
        ) + name),
        Record::End => "end_of_record"@,
    }
}

/// A report of records, each on a line of its own.
pub open spec fn report_text(records: Seq<Record>) -> Seq<char>
    decreases records.len(),
{
    if records.len() == 0 {
        Seq::empty()
    } else {
        record_text(records[0]).push('\n') + report_text(records.skip(1))
    }
}

/// The record tells of the metric.
pub open spec fn tells(record: Record, metric: Metric) -> bool {
    match metric {
        Metric::Line => record is Line,
        Metric::Branch => record is Branch,
        Metric::Function => record is Function,
    }
}

/// The record tells of something that ran: any count above zero.
pub open spec fn ran(record: Record) -> bool {
    match record {
        Record::Line { count, .. } => count > 0,
        Record::Branch { count, .. } => count is Some && count->0 > 0,
        Record::Function { count, .. } => count > 0,
        _ => false,
    }
}

/// How many records tell of the metric.
pub open spec fn told(records: Seq<Record>, metric: Metric) -> nat
    decreases records.len(),
{
    if records.len() == 0 {
        0
    } else {
        told(records.drop_last(), metric) + (if tells(records.last(), metric) {
            1nat
        } else {
            0nat
        })
    }
}

/// How many records tell of the metric, and that it ran.
pub open spec fn told_to_run(records: Seq<Record>, metric: Metric) -> nat
    decreases records.len(),
{
    if records.len() == 0 {
        0
    } else {
        told_to_run(records.drop_last(), metric) + (if tells(records.last(), metric) && ran(
            records.last(),
        ) {
            1nat
        } else {
            0nat
        })
    }
}

proof fn lemma_told(records: Seq<Record>, metric: Metric)
    ensures
        told_to_run(records, metric) <= told(records, metric) <= records.len(),
    decreases records.len(),
{
    if records.len() > 0 {
        lemma_told(records.drop_last(), metric);
    }
}

proof fn lemma_digits_are_plain(value: nat, c: char)
    requires
        !('0' <= c <= '9'),
    ensures
        strings_laws::free_of(strings::decimal_text(value), c),
{
    strings_laws::law_numbers_are_written_in_digits(value);
}

/// What stands round the first colon of a record.
proof fn lemma_record_parts(kind: Seq<char>, value: Seq<char>)
    requires
        strings_laws::free_of(kind, ':'),
        value.len() > 0,
        value.last() != '\r',
    ensures
        coverage::record_parts(kind.push(':') + value) == (kind, value),
        coverage::without_returns(kind.push(':') + value) == kind.push(':') + value,
{
    strings_laws::law_pieces_are_what_stands_between(kind, ':', value);
    let whole = kind.push(':') + value;
    assert(whole.last() == value.last());
}

proof fn lemma_kinds()
    ensures
        "DA"@ != "TN"@,
        "DA"@ != "SF"@,
        "DA"@ != "FN"@,
        "DA"@ != "FNDA"@,
        "BRDA"@ != "TN"@,
        "BRDA"@ != "SF"@,
        "BRDA"@ != "FN"@,
        "BRDA"@ != "FNDA"@,
        "BRDA"@ != "DA"@,
        "FNDA"@ != "TN"@,
        "FNDA"@ != "SF"@,
        "FNDA"@ != "FN"@,
        "SF"@ != "TN"@,
        "end_of_record"@ != "TN"@,
        "end_of_record"@ != "SF"@,
        "end_of_record"@ != "FN"@,
        "end_of_record"@ != "FNDA"@,
        "end_of_record"@ != "DA"@,
        "end_of_record"@ != "BRDA"@,
        "SF:"@ == "SF"@.push(':'),
        "DA:"@ == "DA"@.push(':'),
        "BRDA:"@ == "BRDA"@.push(':'),
        "FNDA:"@ == "FNDA"@.push(':'),
        strings_laws::free_of("SF"@, ':'),
        strings_laws::free_of("DA"@, ':'),
        strings_laws::free_of("BRDA"@, ':'),
        strings_laws::free_of("FNDA"@, ':'),
{
    reveal_strlit("DA");
    reveal_strlit("TN");
    reveal_strlit("SF");
    reveal_strlit("FN");
    reveal_strlit("FNDA");
    reveal_strlit("BRDA");
    reveal_strlit("end_of_record");
    reveal_strlit("SF:");
    reveal_strlit("DA:");
    reveal_strlit("BRDA:");
    reveal_strlit("FNDA:");
    assert("DA"@[0] == 'D' && "TN"@[0] == 'T' && "SF"@[0] == 'S' && "FN"@[0] == 'F');
    assert("BRDA"@[0] == 'B' && "FNDA"@[0] == 'F');
    assert("SF:"@ =~= "SF"@.push(':'));
    assert("DA:"@ =~= "DA"@.push(':'));
    assert("BRDA:"@ =~= "BRDA"@.push(':'));
    assert("FNDA:"@ =~= "FNDA"@.push(':'));
}

/// What a line record adds: one to the lines, and one to the lines that were hit exactly
/// where its count is above zero; nothing to any other metric.
#[verifier::spinoff_prover]
pub proof fn law_line_records_count_lines(sums: Lcov, number: u64, count: u64)
    requires
        sums.line_hit <= sums.line_total < u64::MAX,
    ensures
        ({
            let line = record_text(Record::Line { number, count });
            let parts = coverage::record_parts(coverage::without_returns(line));
            let after = coverage::lcov_record(sums, parts.0, parts.1);
            &&& line.len() > 0
            &&& coverage::without_returns(line).len() > 0
            &&& after is Some
            &&& after->0.line_total == sums.line_total + 1
            &&& count > 0 ==> after->0.line_hit == sums.line_hit + 1
            &&& count == 0 ==> after->0.line_hit == sums.line_hit
            &&& after->0 == (Lcov {
                recognized: true,
                line_total: after->0.line_total,
                line_hit: after->0.line_hit,
                ..sums
            })
        }),
{
    let first = strings::decimal_text(number as nat);
    let second = strings::decimal_text(count as nat);
    let value = first.push(',') + second;
    strings_laws::law_numbers_are_written_in_digits(number as nat);
    strings_laws::law_numbers_are_written_in_digits(count as nat);
    strings_laws::law_written_numbers_are_read_back(number as nat);
    strings_laws::law_written_numbers_are_read_back(count as nat);
    lemma_digits_are_plain(number as nat, ',');
    lemma_digits_are_plain(count as nat, ',');
    strings_laws::law_pieces_are_what_stands_between(first, ',', second);
    strings_laws::law_pieces_are_what_stands_between(second, ',', second);
    lemma_kinds();
    assert(value.last() == second.last());
    lemma_record_parts("DA"@, value);
    let fields = strings::split_text(value, ',');
    assert(fields =~= seq![first, second]);
    assert(coverage::line_count(value) == Some(count));
}

/// The count of a branch as a record tells it.
pub open spec fn branch_mark(count: Option<u64>) -> Seq<char> {
    match count {
        Some(count) => strings::decimal_text(count as nat),
        None => "-"@,
    }
}

proof fn lemma_branch_mark(count: Option<u64>)
    ensures
        branch_mark(count).len() > 0,
        branch_mark(count).last() != '\r',
        strings_laws::free_of(branch_mark(count), ','),
        branch_mark(count) == "-"@ <==> count is None,
        count is Some ==> strings::natural_of(branch_mark(count)) is Some,
        count is Some ==> (branch_mark(count) == "0"@ <==> count->0 == 0),
{
    reveal_strlit("-");
    reveal_strlit("0");
    let last = branch_mark(count);
    if count is Some {
        let number = count->0 as nat;
        strings_laws::law_numbers_are_written_in_digits(number);
        strings_laws::law_written_numbers_are_read_back(number);
        lemma_digits_are_plain(number, ',');
        assert("-"@[0] == '-');
        assert("0"@ =~= seq!['0']);
        assert("0"@[0] == '0');
    }
}

#[verifier::spinoff_prover]
proof fn lemma_branch_value(line: u64, block: u64, branch: u64, count: Option<u64>)
    ensures
        coverage::branch_taken(
            strings::decimal_text(line as nat).push(',') + (strings::decimal_text(
                block as nat,
            ).push(',') + (strings::decimal_text(branch as nat).push(',') + branch_mark(count))),
        ) == Some(count is Some && count->0 > 0),
{
    let first = strings::decimal_text(line as nat);
    let second = strings::decimal_text(block as nat);
    let third = strings::decimal_text(branch as nat);
    let last = branch_mark(count);
    lemma_branch_mark(count);
    strings_laws::law_written_numbers_are_read_back(line as nat);
    strings_laws::law_written_numbers_are_read_back(block as nat);
    strings_laws::law_written_numbers_are_read_back(branch as nat);
    let value = first.push(',') + (second.push(',') + (third.push(',') + last));
    lemma_four_fields(line, block, branch, last);
    assert(strings::split_text(value, ',') == seq![first, second, third, last]);
}

#[verifier::spinoff_prover]
proof fn lemma_four_fields(line: u64, block: u64, branch: u64, last: Seq<char>)
    requires
        strings_laws::free_of(last, ','),
    ensures
        ({
            let first = strings::decimal_text(line as nat);
            let second = strings::decimal_text(block as nat);
            let third = strings::decimal_text(branch as nat);
            strings::split_text(
                first.push(',') + (second.push(',') + (third.push(',') + last)),
                ',',
            ) == seq![first, second, third, last]
        }),
{
    let first = strings::decimal_text(line as nat);
    let second = strings::decimal_text(block as nat);
    let third = strings::decimal_text(branch as nat);
    lemma_digits_are_plain(line as nat, ',');
    lemma_digits_are_plain(block as nat, ',');
    lemma_digits_are_plain(branch as nat, ',');
    let behind = third.push(',') + last;
    let tail = second.push(',') + behind;
    strings_laws::law_pieces_are_what_stands_between(first, ',', tail);
    strings_laws::law_pieces_are_what_stands_between(second, ',', behind);
    strings_laws::law_pieces_are_what_stands_between(third, ',', last);
    strings_laws::law_pieces_are_what_stands_between(last, ',', last);
    assert(seq![first] + (seq![second] + (seq![third] + seq![last])) =~= seq![
        first,
        second,
        third,
        last,
    ]);
}

/// What a branch record adds: one to the branches, and one to the branches that were taken
/// exactly where it has a count above zero; nothing to any other metric.
#[verifier::spinoff_prover]
pub proof fn law_branch_records_count_branches(
    sums: Lcov,
    line: u64,
    block: u64,
    branch: u64,
    count: Option<u64>,
)
    requires
        sums.branch_hit <= sums.branch_total < u64::MAX,
    ensures
        ({
            let text = record_text(Record::Branch { line, block, branch, count });
            let parts = coverage::record_parts(coverage::without_returns(text));
            let after = coverage::lcov_record(sums, parts.0, parts.1);
            &&& coverage::without_returns(text).len() > 0
            &&& after is Some
            &&& after->0.branch_total == sums.branch_total + 1
            &&& count is Some && count->0 > 0 ==> after->0.branch_hit == sums.branch_hit + 1
            &&& count is None || count->0 == 0 ==> after->0.branch_hit == sums.branch_hit
            &&& after->0 == (Lcov {
                recognized: true,
                branch_total: after->0.branch_total,
                branch_hit: after->0.branch_hit,
                ..sums
            })
        }),
{
    let last = branch_mark(count);
    let value = strings::decimal_text(line as nat).push(',') + (strings::decimal_text(
        block as nat,
    ).push(',') + (strings::decimal_text(branch as nat).push(',') + last));
    lemma_branch_mark(count);
    lemma_branch_value(line, block, branch, count);
    lemma_kinds();
    assert(value.last() == last.last());
    lemma_record_parts("BRDA"@, value);
}

/// What a function record adds: one to the functions, and one to the functions that were
/// called exactly where its count is above zero; nothing to any other metric.
#[verifier::spinoff_prover]
pub proof fn law_function_records_count_functions(sums: Lcov, count: u64, name: Seq<char>)
    requires
        sums.function_hit <= sums.function_total < u64::MAX,
        proper_name(name),
    ensures
        ({
            let text = record_text(Record::Function { count, name });
            let parts = coverage::record_parts(coverage::without_returns(text));
            let after = coverage::lcov_record(sums, parts.0, parts.1);
            &&& coverage::without_returns(text).len() > 0
            &&& after is Some
            &&& after->0.function_total == sums.function_total + 1
            &&& count > 0 ==> after->0.function_hit == sums.function_hit + 1
            &&& count == 0 ==> after->0.function_hit == sums.function_hit
            &&& after->0 == (Lcov {
                recognized: true,
                function_total: after->0.function_total,
                function_hit: after->0.function_hit,
                ..sums
            })
        }),
{
    let first = strings::decimal_text(count as nat);
    let value = first.push(',') + name;
    strings_laws::law_written_numbers_are_read_back(count as nat);
    lemma_digits_are_plain(count as nat, ',');
    strings_laws::law_pieces_are_what_stands_between(first, ',', name);
    lemma_kinds();
    assert(value.last() == name.last());
    lemma_record_parts("FNDA"@, value);
    assert(coverage::named_number(value) == Some(count));
}

/// The sums that records leave, told by their numbers alone.
pub open spec fn adds_up(sums: Lcov, records: Seq<Record>) -> bool {
    &&& sums.line_total == told(records, Metric::Line)
    &&& sums.line_hit == told_to_run(records, Metric::Line)
    &&& sums.branch_total == told(records, Metric::Branch)
    &&& sums.branch_hit == told_to_run(records, Metric::Branch)
    &&& sums.function_total == told(records, Metric::Function)
    &&& sums.function_hit == told_to_run(records, Metric::Function)
    &&& sums.recognized == (records.len() > 0)
    &&& sums.line_summary is None && sums.line_summary_hit is None
    &&& sums.branch_summary is None && sums.branch_summary_hit is None
    &&& sums.function_summary is None && sums.function_summary_hit is None
}

pub open spec fn record_lines(records: Seq<Record>) -> Seq<Seq<char>> {
    Seq::new(records.len(), |i: int| record_text(records[i]))
}

#[verifier::spinoff_prover]
proof fn lemma_sums(records: Seq<Record>)
    requires
        records.len() < u64::MAX,
        forall|i: int| 0 <= i < records.len() ==> proper(#[trigger] records[i]),
    ensures
        coverage::lcov_sums(record_lines(records)) is Some,
        adds_up(coverage::lcov_sums(record_lines(records))->0, records),
    decreases records.len(),
{
    let lines = record_lines(records);
    if records.len() > 0 {
        let front = records.drop_last();
        assert forall|i: int| 0 <= i < front.len() implies proper(#[trigger] front[i]) by {
            assert(front[i] == records[i]);
        }
        lemma_sums(front);
        assert(lines.drop_last() =~= record_lines(front));
        let sums = coverage::lcov_sums(lines.drop_last())->0;
        let last = records[records.len() - 1];
        assert(lines.last() == record_text(last));
        lemma_told(front, Metric::Line);
        lemma_told(front, Metric::Branch);
        lemma_told(front, Metric::Function);
        assert(proper(last));
        match last {
            Record::Source { name } => {
                lemma_kinds();
                lemma_record_parts("SF"@, name);
            },
            Record::Line { number, count } => {
                law_line_records_count_lines(sums, number, count);
            },
            Record::Branch { line, block, branch, count } => {
                law_branch_records_count_branches(sums, line, block, branch, count);
            },
            Record::Function { count, name } => {
                law_function_records_count_functions(sums, count, name);
            },
            Record::End => {
                lemma_kinds();
                reveal_strlit("end_of_record");
                reveal_strlit("");
                let text = "end_of_record"@;
                assert(text.last() == 'd');
                assert(strings_laws::free_of(text, ':'));
                strings_laws::law_pieces_are_what_stands_between(text, ':', text);
            },
        }
    }
}

proof fn lemma_record_has_one_line(record: Record)
    requires
        proper(record),
    ensures
        strings_laws::free_of(record_text(record), '\n'),
        record_text(record).len() > 0,
        record_text(record).last() != '\r',
{
    lemma_kinds();
    reveal_strlit("SF");
    reveal_strlit("DA");
    reveal_strlit("BRDA");
    reveal_strlit("FNDA");
    reveal_strlit("-");
    reveal_strlit("end_of_record");
    let text = record_text(record);
    match record {
        Record::Source { name } => {
            assert(text.last() == name.last());
        },
        Record::Line { number, count } => {
            lemma_digits_are_plain(number as nat, '\n');
            lemma_digits_are_plain(count as nat, '\n');
            strings_laws::law_numbers_are_written_in_digits(count as nat);
            assert(text.last() == strings::decimal_text(count as nat).last());
        },
        Record::Branch { line, block, branch, count } => {
            lemma_digits_are_plain(line as nat, '\n');
            lemma_digits_are_plain(block as nat, '\n');
            lemma_digits_are_plain(branch as nat, '\n');
            match count {
                Some(count) => {
                    lemma_digits_are_plain(count as nat, '\n');
                    strings_laws::law_numbers_are_written_in_digits(count as nat);
                    assert(text.last() == strings::decimal_text(count as nat).last());
                },
                None => {
                    assert(text.last() == "-"@.last());
                },
            }
        },
        Record::Function { count, name } => {
            lemma_digits_are_plain(count as nat, '\n');
            assert(text.last() == name.last());
        },
        Record::End => {
            assert(text.last() == 'd');
        },
    }
}

proof fn lemma_report_lines(records: Seq<Record>)
    requires
        forall|i: int| 0 <= i < records.len() ==> proper(#[trigger] records[i]),
    ensures
        strings::lines_text(report_text(records)) == record_lines(records),
    decreases records.len(),
{
    if records.len() > 0 {
        let rest = records.skip(1);
        assert forall|i: int| 0 <= i < rest.len() implies proper(#[trigger] rest[i]) by {
            assert(rest[i] == records[i + 1]);
        }
        lemma_report_lines(rest);
        assert(proper(records[0]));
        lemma_record_has_one_line(records[0]);
        strings_laws::law_lines_end_with_a_feed(record_text(records[0]), report_text(rest));
        assert(record_lines(records) =~= seq![record_text(records[0])] + record_lines(rest));
    } else {
        assert(record_lines(records) =~= Seq::<Seq<char>>::empty());
        strings_laws::law_lines_end_with_a_feed(Seq::empty(), Seq::empty());
    }
}

/// The percentages of an LCOV report are shares of its records: the line percentage is the
/// share of line records with a count above zero in all line records, and so for the
/// branches and the functions. A metric that no record tells of has none.
pub proof fn law_lcov_percentages_are_shares_of_records(records: Seq<Record>)
    requires
        0 < records.len() < u64::MAX,
        forall|i: int| 0 <= i < records.len() ==> proper(#[trigger] records[i]),
    ensures
        coverage::lcov_report(report_text(records)) == Some(
            (
                CoverageFormat::Lcov,
                coverage::ratio_of(
                    told_to_run(records, Metric::Line) as u64,
                    told(records, Metric::Line) as u64,
                ),
                coverage::ratio_of(
                    told_to_run(records, Metric::Branch) as u64,
                    told(records, Metric::Branch) as u64,
                ),
                coverage::ratio_of(
                    told_to_run(records, Metric::Function) as u64,
                    told(records, Metric::Function) as u64,
                ),
            ),
        ),
{
    lemma_report_lines(records);
    lemma_sums(records);
    lemma_told(records, Metric::Line);
    lemma_told(records, Metric::Branch);
    lemma_told(records, Metric::Function);
}

/// How often a line ran tells nothing more than that it ran: with any other count above
/// zero in its place the report has the same percentages.
pub proof fn law_any_positive_count_is_a_hit(
    before: Seq<Record>,
    number: u64,
    first: u64,
    second: u64,
)
    requires
        before.len() + 1 < u64::MAX,
        forall|i: int| 0 <= i < before.len() ==> proper(#[trigger] before[i]),
        first > 0,
        second > 0,
    ensures
        coverage::lcov_report(report_text(before.push(Record::Line { number, count: first })))
            == coverage::lcov_report(
            report_text(before.push(Record::Line { number, count: second })),
        ),
{
    let one = before.push(Record::Line { number, count: first });
    let other = before.push(Record::Line { number, count: second });
    assert(one.drop_last() =~= before);
    assert(other.drop_last() =~= before);
    assert forall|i: int| 0 <= i < one.len() implies proper(#[trigger] one[i]) by {
        if i < before.len() {
            assert(one[i] == before[i]);
        }
    }
    assert forall|i: int| 0 <= i < other.len() implies proper(#[trigger] other[i]) by {
        if i < before.len() {
            assert(other[i] == before[i]);
        }
    }
    law_lcov_percentages_are_shares_of_records(one);
    law_lcov_percentages_are_shares_of_records(other);
}

/// Nothing of nothing is no percentage, nor is more than there is; what there is one of is
/// a share of a hundred.
pub proof fn law_ratios_need_a_total(hit: u64, total: u64)
    ensures
        total == 0 ==> coverage::ratio_of(hit, total) is None,
        hit > total ==> coverage::ratio_of(hit, total) is None,
        coverage::ratio_of(hit, total) is Some ==> coverage::ratio_of(hit, total)->0
            == binary64::share(hit as nat, total as nat) && coverage::ratio_of(
            hit,
            total,
        )->0.finite() && coverage::ratio_of(hit, total)->0.within(100),
{
}

/// A report of LCOV records is read as one, whatever the file is named and whatever its
/// extension is, unless the name is that of another format.
#[verifier::spinoff_prover]
pub proof fn law_lcov_reports_are_told_by_their_records(
    name: Seq<char>,
    extension: Option<Seq<char>>,
    records: Seq<Record>,
)
    requires
        0 < records.len() < u64::MAX,
        forall|i: int| 0 <= i < records.len() ==> proper(#[trigger] records[i]),
        !strings::occurs(name, "summary"@),
        name != "coverage.out"@,
        name != "cover.out"@,
    ensures
        coverage::report_of(name, extension, report_text(records)) == Some(
            coverage::ReportView::Parsed(coverage::lcov_report(report_text(records))->0),
        ),
{
    let contents = report_text(records);
    let first = record_text(records[0]);
    assert(proper(records[0]));
    lemma_record_starts(records[0]);
    lemma_report_lines(records);
    law_lcov_percentages_are_shares_of_records(records);
    assert(contents[0] == first[0]);
    assert(strings::trimmed_start(contents) == contents);
    assert(strings::trimmed_start(first) == first);
    reveal_strlit("<");
    reveal_strlit("{");
    reveal_strlit("mode:");
    lemma_begins_with_another(contents, "<"@);
    lemma_begins_with_another(contents, "{"@);
    lemma_begins_with_another(first, "mode:"@);
    let lines = strings::lines_text(contents);
    assert(lines[0] == first);
    assert(coverage::lcov_mark(lines[0]));
    assert(coverage::lcov_marked(contents));
}

proof fn lemma_begins_with_another(text: Seq<char>, pattern: Seq<char>)
    requires
        text.len() > 0,
        pattern.len() > 0,
        text[0] != pattern[0],
    ensures
        !strings::begins_with(text, pattern),
{
    if strings::begins_with(text, pattern) {
        assert(text.subrange(0, pattern.len() as int)[0] == text[0]);
    }
}

proof fn lemma_record_starts(record: Record)
    requires
        proper(record),
    ensures
        record_text(record).len() > 0,
        !strings::whitespace(record_text(record)[0]),
        record_text(record)[0] != '<',
        record_text(record)[0] != '{',
        record_text(record)[0] != 'm',
        coverage::lcov_mark(record_text(record)),
{
    lemma_kinds();
    reveal_strlit("SF");
    reveal_strlit("DA");
    reveal_strlit("BRDA");
    reveal_strlit("FNDA");
    reveal_strlit("end_of_record");
    let text = record_text(record);
    match record {
        Record::Source { name } => {
            assert(text[0] == 'S');
            strings_laws::law_pieces_are_what_stands_between("SF"@, ':', name);
        },
        Record::Line { number, count } => {
            assert(text[0] == 'D');
            strings_laws::law_pieces_are_what_stands_between(
                "DA"@,
                ':',
                strings::decimal_text(number as nat).push(',') + strings::decimal_text(
                    count as nat,
                ),
            );
        },
        Record::Branch { line, block, branch, count } => {
            assert(text[0] == 'B');
            strings_laws::law_pieces_are_what_stands_between(
                "BRDA"@,
                ':',
                strings::decimal_text(line as nat).push(',') + (strings::decimal_text(
                    block as nat,
                ).push(',') + (strings::decimal_text(branch as nat).push(',') + branch_mark(
                    count,
                ))),
            );
        },
        Record::Function { count, name } => {
            assert(text[0] == 'F');
            strings_laws::law_pieces_are_what_stands_between(
                "FNDA"@,
                ':',
                strings::decimal_text(count as nat).push(',') + name,
            );
        },
        Record::End => {
            assert(text[0] == 'e');
        },
    }
}

/// A line that closes totals tells of them only for the sake of soundness: a total and its
/// hits come together, and the hits are no more than the total, or there is no report.
pub proof fn law_totals_that_do_not_hold_refuse_the_report(contents: Seq<char>)
    requires
        coverage::lcov_report(contents) is Some,
    ensures
        ({
            let sums = coverage::lcov_sums(strings::lines_text(contents))->0;
            &&& sums.recognized
            &&& sums.line_summary is Some <==> sums.line_summary_hit is Some
            &&& sums.line_summary is Some ==> sums.line_summary_hit->0 <= sums.line_summary->0
            &&& sums.branch_summary is Some <==> sums.branch_summary_hit is Some
            &&& sums.branch_summary is Some ==> sums.branch_summary_hit->0
                <= sums.branch_summary->0
            &&& sums.function_summary is Some <==> sums.function_summary_hit is Some
            &&& sums.function_summary is Some ==> sums.function_summary_hit->0
                <= sums.function_summary->0
            &&& (coverage::lcov_report(contents)->0).0 == CoverageFormat::Lcov
        }),
{
}

/// A block of a Go profile as a tool writes it: where it stands, its statements, and how
/// often it ran.
pub open spec fn block_text(
    name: Seq<char>,
    from: (u64, u64),
    to: (u64, u64),
    statements: u64,
    count: u64,
) -> Seq<char> {
    let start = strings::decimal_text(from.0 as nat).push('.') + strings::decimal_text(
        from.1 as nat,
    );
    let end = strings::decimal_text(to.0 as nat).push('.') + strings::decimal_text(to.1 as nat);
    let place = name.push(':') + (start.push(',') + end);
    place + (" "@ + strings::decimal_text(statements as nat) + (" "@ + strings::decimal_text(
        count as nat,
    ) + Seq::<char>::empty()))
}

proof fn lemma_go_position(line: u64, column: u64)
    ensures
        coverage::go_position(
            strings::decimal_text(line as nat).push('.') + strings::decimal_text(column as nat),
        ),
{
    lemma_digits_are_plain(line as nat, '.');
    strings_laws::law_pieces_are_what_stands_between(
        strings::decimal_text(line as nat),
        '.',
        strings::decimal_text(column as nat),
    );
    strings_laws::law_written_numbers_are_read_back(line as nat);
    strings_laws::law_written_numbers_are_read_back(column as nat);
}

proof fn lemma_place(name: Seq<char>, from: (u64, u64), to: (u64, u64))
    requires
        forall|i: int| 0 <= i < name.len() ==> !strings::whitespace(#[trigger] name[i]),
    ensures
        ({
            let start = strings::decimal_text(from.0 as nat).push('.') + strings::decimal_text(
                from.1 as nat,
            );
            let end = strings::decimal_text(to.0 as nat).push('.') + strings::decimal_text(
                to.1 as nat,
            );
            let place = name.push(':') + (start.push(',') + end);
            &&& coverage::go_location(place)
            &&& place.len() > 0
            &&& forall|i: int| 0 <= i < place.len() ==> !strings::whitespace(#[trigger] place[i])
        }),
{
    let start = strings::decimal_text(from.0 as nat).push('.') + strings::decimal_text(
        from.1 as nat,
    );
    let end = strings::decimal_text(to.0 as nat).push('.') + strings::decimal_text(to.1 as nat);
    let range = start.push(',') + end;
    let place = name.push(':') + range;
    strings_laws::law_numbers_are_written_in_digits(from.0 as nat);
    strings_laws::law_numbers_are_written_in_digits(from.1 as nat);
    strings_laws::law_numbers_are_written_in_digits(to.0 as nat);
    strings_laws::law_numbers_are_written_in_digits(to.1 as nat);
    assert(strings_laws::free_of(start, ','));
    assert(strings_laws::free_of(start, ':'));
    assert(strings_laws::free_of(end, ':'));
    assert(strings_laws::free_of(range, ':'));
    strings_laws::law_behind_the_last_is_free_of_it(name, ':', range);
    strings_laws::law_pieces_are_what_stands_between(start, ',', end);
    lemma_go_position(from.0, from.1);
    lemma_go_position(to.0, to.1);
    assert forall|i: int| 0 <= i < start.len() implies !strings::whitespace(#[trigger] start[i]) by {}
    assert forall|i: int| 0 <= i < end.len() implies !strings::whitespace(#[trigger] end[i]) by {}
    assert forall|i: int| 0 <= i < range.len() implies !strings::whitespace(#[trigger] range[i]) by {
        if i < start.len() {
            assert(range[i] == start[i]);
        } else if i > start.len() {
            assert(range[i] == end[i - start.len() - 1]);
        }
    }
    assert forall|i: int| 0 <= i < place.len() implies !strings::whitespace(#[trigger] place[i]) by {
        if i < name.len() {
            assert(place[i] == name[i]);
        } else if i > name.len() {
            assert(place[i] == range[i - name.len() - 1]);
        }
    }
}

#[verifier::spinoff_prover]
proof fn lemma_block_words(place: Seq<char>, statements: u64, count: u64)
    requires
        place.len() > 0,
        forall|i: int| 0 <= i < place.len() ==> !strings::whitespace(#[trigger] place[i]),
    ensures
        strings::words_text(
            place + (" "@ + strings::decimal_text(statements as nat) + (" "@
                + strings::decimal_text(count as nat) + Seq::<char>::empty())),
        ) == seq![
            place,
            strings::decimal_text(statements as nat),
            strings::decimal_text(count as nat),
        ],
{
    reveal_strlit(" ");
    let first = strings::decimal_text(statements as nat);
    let second = strings::decimal_text(count as nat);
    let none = Seq::<char>::empty();
    strings_laws::law_numbers_are_written_in_digits(statements as nat);
    strings_laws::law_numbers_are_written_in_digits(count as nat);
    let last = " "@ + second + none;
    let tail = " "@ + first + last;
    assert(last[0] == ' ');
    assert(tail[0] == ' ');
    strings_laws::law_words_stand_between_white_space(second, none);
    strings_laws::law_words_stand_between_white_space(first, last);
    strings_laws::law_words_stand_between_white_space(place, tail);
    assert(seq![place] + (seq![first] + (seq![second] + Seq::<Seq<char>>::empty())) =~= seq![
        place,
        first,
        second,
    ]);
}

/// What a block of a Go profile adds: its statements to all statements, and to the covered
/// ones exactly where the block ran, however often.
pub proof fn law_go_blocks_weigh_their_statements(
    blocks: Seq<Seq<char>>,
    name: Seq<char>,
    from: (u64, u64),
    to: (u64, u64),
    statements: u64,
    count: u64,
)
    requires
        coverage::go_sums(blocks) is Some,
        (coverage::go_sums(blocks)->0).0 <= (coverage::go_sums(blocks)->0).1,
        (coverage::go_sums(blocks)->0).1 + statements <= u64::MAX,
        forall|i: int| 0 <= i < name.len() ==> !strings::whitespace(#[trigger] name[i]),
    ensures
        ({
            let before = coverage::go_sums(blocks)->0;
            let after = coverage::go_sums(
                blocks.push(block_text(name, from, to, statements, count)),
            );
            &&& after is Some
            &&& (after->0).1 == before.1 + statements
            &&& count > 0 ==> (after->0).0 == before.0 + statements
            &&& count == 0 ==> (after->0).0 == before.0
        }),
        coverage::go_sums(Seq::empty()) == Some((0u64, 0u64)),
{
    let line = block_text(name, from, to, statements, count);
    assert(blocks.push(line).drop_last() =~= blocks);
    assert(blocks.push(line).last() == line);
    let start = strings::decimal_text(from.0 as nat).push('.') + strings::decimal_text(
        from.1 as nat,
    );
    let end = strings::decimal_text(to.0 as nat).push('.') + strings::decimal_text(to.1 as nat);
    let place = name.push(':') + (start.push(',') + end);
    lemma_place(name, from, to);
    lemma_block_words(place, statements, count);
    strings_laws::law_written_numbers_are_read_back(statements as nat);
    strings_laws::law_written_numbers_are_read_back(count as nat);
    assert(coverage::go_block(line) == Some((statements, count)));
}

/// A Go profile tells of statements alone, by the share of the covered ones: the branches
/// and the functions have no percentage.
pub proof fn law_go_profiles_tell_of_statements(contents: Seq<char>)
    requires
        coverage::go_report(contents) is Some,
    ensures
        ({
            let written = coverage::written_lines(strings::lines_text(contents));
            let sums = coverage::go_sums(written.skip(1))->0;
            let parsed = coverage::go_report(contents)->0;
            &&& written.len() > 0
            &&& parsed.0 == CoverageFormat::GoCoverprofile
            &&& parsed.1 == coverage::ratio_of(sums.0, sums.1)
            &&& parsed.2 is None
            &&& parsed.3 is None
        }),
{
}

/// The metric of a summary that a percentage is told of, where there is one: the bits of the
/// number `pct`, or none where there was nothing to cover and `pct` says `Unknown`.
pub open spec fn told_by_metric(metric: Option<JsonTree>, percent: Option<Binary64>) -> bool {
    &&& metric is Some
    &&& match percent {
        Some(percent) => documents::json_member(metric->0, "pct"@) matches Some(
            JsonTree::Number { bits, .. },
        ) && bits == percent.bits && percent.within(100) && percent.finite(),
        None => documents::json_member(metric->0, "pct"@) == Some(JsonTree::Text("Unknown"@))
            && documents::json_member(metric->0, "total"@) matches Some(
            JsonTree::Number { natural: Some(0), .. },
        ),
    }
}

/// The percentages of an Istanbul summary are those that its total states: of `lines` for
/// the lines, of `branches` for the branches and of `functions` for the functions.
pub proof fn law_istanbul_percentages_are_those_stated(document: JsonTree)
    requires
        coverage::istanbul_document(document) is Some,
    ensures
        ({
            let parsed = coverage::istanbul_document(document)->0;
            let total = documents::json_member(document, "total"@)->0;
            &&& parsed.0 == CoverageFormat::IstanbulSummary
            &&& documents::json_member(document, "total"@) is Some
            &&& told_by_metric(documents::json_member(total, "lines"@), parsed.1)
            &&& told_by_metric(documents::json_member(total, "branches"@), parsed.2)
            &&& told_by_metric(documents::json_member(total, "functions"@), parsed.3)
        }),
{
}

/// The value of the one attribute of a name, where all attributes are well-formed: those of
/// other names tell nothing.
pub proof fn law_the_one_attribute_of_a_name(
    attributes: Seq<AttributeView>,
    key: Seq<char>,
    at: int,
    value: Seq<char>,
)
    requires
        0 <= at < attributes.len(),
        attributes[at] == Some((key, Some(value))),
        forall|i: int|
            0 <= i < attributes.len() && i != at ==> #[trigger] attributes[i] is Some
                && (attributes[i]->0).0 != key,
    ensures
        coverage::attribute_search(attributes, key) == Some(Some(value)),
    decreases attributes.len(),
{
    let front = attributes.drop_last();
    if at < front.len() {
        assert forall|i: int| 0 <= i < front.len() && i != at implies #[trigger] front[i] is Some
            && (front[i]->0).0 != key by {
            assert(front[i] == attributes[i]);
        }
        law_the_one_attribute_of_a_name(front, key, at, value);
        assert(attributes[attributes.len() - 1] is Some);
    } else {
        assert forall|i: int| 0 <= i < front.len() implies #[trigger] front[i] is Some
            && (front[i]->0).0 != key by {
            assert(front[i] == attributes[i]);
        }
        law_no_attribute_of_a_name(front, key);
    }
}

/// Where no attribute has the name there is no value.
pub proof fn law_no_attribute_of_a_name(attributes: Seq<AttributeView>, key: Seq<char>)
    requires
        forall|i: int|
            0 <= i < attributes.len() ==> #[trigger] attributes[i] is Some && (attributes[i]->0).0
                != key,
    ensures
        coverage::attribute_search(attributes, key) == Some(None::<Seq<char>>),
    decreases attributes.len(),
{
    if attributes.len() > 0 {
        let front = attributes.drop_last();
        assert forall|i: int| 0 <= i < front.len() implies #[trigger] front[i] is Some
            && (front[i]->0).0 != key by {
            assert(front[i] == attributes[i]);
        }
        law_no_attribute_of_a_name(front, key);
        assert(attributes[attributes.len() - 1] is Some);
    }
}

/// A counter of a JaCoCo report, told by its attributes.
pub open spec fn counts(tag: TagView, kind: Seq<char>, missed: u64, covered: u64) -> bool {
    &&& tag.name == "counter"@
    &&& coverage::attribute_of(tag, "type"@) == Some(kind)
    &&& coverage::attribute_of(tag, "missed"@) == Some(strings::decimal_text(missed as nat))
    &&& coverage::attribute_of(tag, "covered"@) == Some(strings::decimal_text(covered as nat))
}

/// A counter right below the root of a JaCoCo report tells of the one metric that it is of:
/// the missed and the covered together are its total, and the covered its hits. Deeper
/// counters, of packages and classes, tell nothing, nor do counters of other kinds.
pub proof fn law_jacoco_counters_tell_of_their_metric(
    state: XmlState,
    tag: TagView,
    missed: u64,
    covered: u64,
)
    requires
        state.root == Some(XmlRoot::Report),
        !state.closed,
        missed + covered <= u64::MAX,
    ensures
        counts(tag, "LINE"@, missed, covered) && state.depth == 1 && state.line is None
            ==> coverage::xml_step(state, MarkupView::Empty(tag)) == Some(
            XmlState { line: Some(((missed + covered) as u64, covered)), ..state },
        ),
        counts(tag, "BRANCH"@, missed, covered) && state.depth == 1 && state.branch is None
            ==> coverage::xml_step(state, MarkupView::Empty(tag)) == Some(
            XmlState { branch: Some(((missed + covered) as u64, covered)), ..state },
        ),
        counts(tag, "METHOD"@, missed, covered) && state.depth == 1 && state.method is None
            ==> coverage::xml_step(state, MarkupView::Empty(tag)) == Some(
            XmlState { method: Some(((missed + covered) as u64, covered)), ..state },
        ),
        counts(tag, "CLASS"@, missed, covered) ==> coverage::xml_step(
            state,
            MarkupView::Empty(tag),
        ) == Some(state),
        state.depth != 1 ==> coverage::xml_step(state, MarkupView::Empty(tag)) == Some(state),
        counts(tag, "LINE"@, missed, covered) && state.depth == 1 && state.line is Some
            ==> coverage::xml_step(state, MarkupView::Empty(tag)) is None,
{
    reveal_strlit("LINE");
    reveal_strlit("BRANCH");
    reveal_strlit("METHOD");
    reveal_strlit("CLASS");
    assert("LINE"@[0] == 'L' && "BRANCH"@[0] == 'B' && "METHOD"@[0] == 'M' && "CLASS"@[0] == 'C');
    strings_laws::law_written_numbers_are_read_back(missed as nat);
    strings_laws::law_written_numbers_are_read_back(covered as nat);
}

/// The percentages of a JaCoCo report are the shares of what its counters cover: lines,
/// branches and methods, all three of which it needs.
pub proof fn law_jacoco_percentages_are_shares_of_counters(state: XmlState)
    requires
        state.closed,
        state.depth == 0,
        state.root == Some(XmlRoot::Report),
    ensures
        coverage::xml_verdict(state) is Some <==> state.line is Some && state.branch is Some
            && state.method is Some,
        coverage::xml_verdict(state) is Some ==> coverage::xml_verdict(state)->0
            == coverage::ReportView::Parsed(
            (
                CoverageFormat::JacocoXml,
                coverage::ratio_of((state.line->0).1, (state.line->0).0),
                coverage::ratio_of((state.branch->0).1, (state.branch->0).0),
                coverage::ratio_of((state.method->0).1, (state.method->0).0),
            ),
        ),
{
}

/// The rates of a Cobertura report are those of its root, by their names, and no tag below
/// it changes them.
pub proof fn law_cobertura_rates_are_those_of_the_root(
    tag: TagView,
    line: Seq<char>,
    branch: Seq<char>,
)
    requires
        tag.name == "coverage"@,
        coverage::attribute_of(tag, "line-rate"@) == Some(line),
        coverage::attribute_of(tag, "branch-rate"@) == Some(branch),
    ensures
        coverage::xml_step(coverage::xml_start(), MarkupView::Start(tag)) is Some,
        ({
            let state = coverage::xml_step(coverage::xml_start(), MarkupView::Start(tag))->0;
            &&& state.root == Some(XmlRoot::Coverage)
            &&& state.depth == 1
            &&& !state.closed
            &&& coverage::xml_step(state, MarkupView::End) is Some
            &&& coverage::xml_verdict(coverage::xml_step(state, MarkupView::End)->0) == Some(
                coverage::ReportView::Rates { line, branch },
            )
        }),
        coverage::xml_step(coverage::xml_start(), MarkupView::Empty(tag)) is Some,
        coverage::xml_verdict(
            coverage::xml_step(coverage::xml_start(), MarkupView::Empty(tag))->0,
        ) == Some(coverage::ReportView::Rates { line, branch }),
{
}

/// The depth of a document follows its tags: a tag that opens goes one deeper, one that
/// closes comes back, the document is closed with its root, and nothing but white space
/// follows.
pub proof fn law_depth_follows_the_tags(state: XmlState, tag: TagView, text: Seq<char>)
    ensures
        state.root is Some && !state.closed && coverage::xml_step(
            state,
            MarkupView::Start(tag),
        ) is Some ==> coverage::xml_step(state, MarkupView::Start(tag))->0.depth == state.depth + 1,
        state.depth > 0 ==> coverage::xml_step(state, MarkupView::End) is Some
            && coverage::xml_step(state, MarkupView::End)->0.depth == state.depth - 1,
        state.depth == 0 ==> coverage::xml_step(state, MarkupView::End) is None,
        state.depth == 1 ==> coverage::xml_step(state, MarkupView::End)->0.closed,
        state.depth > 1 ==> coverage::xml_step(state, MarkupView::End)->0.closed == state.closed,
        state.root is Some && state.closed ==> coverage::xml_step(
            state,
            MarkupView::Start(tag),
        ) is None && coverage::xml_step(state, MarkupView::Empty(tag)) is None,
        coverage::xml_step(state, MarkupView::Malformed) is None,
        (state.closed || state.root is None) && coverage::xml_step(
            state,
            MarkupView::Text(text),
        ) is Some ==> forall|i: int|
            0 <= i < text.len() ==> #[trigger] text[i] == ' ' || text[i] == '\t' || text[i] == '\n'
                || text[i] == '\x0C' || text[i] == '\r',
{
}

/// The percentages of a Cobertura report are its two rates a hundredfold, the line rate for
/// the lines and the branch rate for the branches; there is none where either is no number
/// from zero to one.
pub proof fn law_cobertura_percentages_are_its_rates(
    line_rate: Option<Binary64>,
    branch_rate: Option<Binary64>,
    parsed: Option<coverage::ParsedCoverage>,
)
    requires
        call_ensures(coverage::cobertura, (line_rate, branch_rate), parsed),
    ensures
        parsed is Some ==> {
            &&& (parsed->0).0 == CoverageFormat::CoberturaXml
            &&& line_rate is Some && branch_rate is Some
            &&& line_rate->0.finite() && line_rate->0.within(1)
            &&& branch_rate->0.finite() && branch_rate->0.within(1)
            &&& (parsed->0).1 == Some(line_rate->0.hundredfold())
            &&& (parsed->0).2 == Some(branch_rate->0.hundredfold())
            &&& (parsed->0).3 is None
        },
        line_rate is None || branch_rate is None ==> parsed is None,
{
}

} // verus!
