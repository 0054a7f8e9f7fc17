use hoshino::binary64::Binary64;
use hoshino::collect::coverage::{
    cobertura, finite_percent, istanbul_percentage, parse, parse_go, parse_istanbul, parse_lcov,
    parse_xml, ratio, ParsedCoverage, Report,
};
use hoshino::model::CoverageFormat;

fn number(value: f64) -> Binary64 {
    Binary64 { bits: value.to_bits() }
}

fn percent(value: f64) -> Option<Binary64> {
    Some(number(value))
}

fn rate(text: &str) -> Option<Binary64> {
    text.parse::<f64>().ok().map(number)
}

/// A report of a file of this name, whose rates are read as numbers.
fn read(path: &str, contents: &str) -> Option<ParsedCoverage> {
    let extension = path.rsplit_once('.').map(|parts| parts.1);
    match parse(path, extension, contents)? {
        Report::Parsed(parsed) => Some(parsed),
        Report::Rates { line, branch } => cobertura(rate(&line), rate(&branch)),
    }
}

fn coverage(path: &str, contents: &str) -> ParsedCoverage {
    read(path, contents).unwrap()
}

fn istanbul_metric_json(pct: &str, total: u64, covered: u64) -> String {
    format!(
        r#"{{"total":{{"lines":{{"total":{total},"covered":{covered},"pct":{pct}}},"branches":{{"total":{total},"covered":{covered},"pct":{pct}}},"functions":{{"total":{total},"covered":{covered},"pct":{pct}}}}}}}"#
    )
}

#[test]
fn lcov_covers_zero_hundred_mixed_and_zero_denominators() {
    let cases = [
        ("DA:1,0\nBRDA:1,0,0,0\nFNDA:0,a\n", (0.0, 0.0, 0.0)),
        ("DA:1,1\nBRDA:1,0,0,1\nFNDA:1,a\n", (100.0, 100.0, 100.0)),
        (
            "DA:1,1\nDA:2,0\nBRDA:1,0,0,1\nBRDA:1,0,1,-\nFNDA:1,a\nFNDA:0,b\n",
            (50.0, 50.0, 50.0),
        ),
        (
            "TN:\nSF:file.go\nLF:0\nLH:0\nBRF:0\nBRH:0\nFNF:0\nFNH:0\nend_of_record\n",
            (f64::NAN, f64::NAN, f64::NAN),
        ),
    ];
    for (contents, expected) in cases {
        let parsed = coverage("lcov.info", contents);
        assert_eq!(parsed.0, CoverageFormat::Lcov);
        if expected.0.is_nan() {
            assert_eq!(parsed.1, None);
            assert_eq!(parsed.2, None);
            assert_eq!(parsed.3, None);
        } else {
            assert_eq!(parsed.1, percent(expected.0));
            assert_eq!(parsed.2, percent(expected.1));
            assert_eq!(parsed.3, percent(expected.2));
        }
    }
}

#[test]
fn go_coverprofile_weights_num_statements_and_allows_zero_denominator() {
    let mixed = coverage(
        "coverage.out",
        "mode: count\nfile.go:1.1,2.1 3 1\nfile.go:3.1,4.1 1 0\n",
    );
    assert_eq!(mixed.0, CoverageFormat::GoCoverprofile);
    assert_eq!(mixed.1, percent(75.0));
    assert_eq!(coverage("coverage.out", "mode: set\n").1, None);
    assert_eq!(
        coverage("coverage.out", "mode: set\nfile.go:1.1,2.1 1 1\n").1,
        percent(100.0)
    );
    assert_eq!(
        coverage("coverage.out", "mode: set\nfile.go:1.1,2.1 1 0\n").1,
        percent(0.0)
    );
}

#[test]
fn malformed_go_and_lcov_are_rejected() {
    assert!(read("coverage.out", "mode: invalid\n").is_none());
    assert!(read("coverage.out", "mode: set\nfile.go:bad 1 1\n").is_none());
    assert!(read("lcov.info", "DA:bad\n").is_none());
    assert!(read("lcov.info", "BRDA:1,0,0,NaN\n").is_none());
}

#[test]
fn istanbul_covers_zero_hundred_mixed_and_rejects_invalid_percentages() {
    let zero = coverage(
        "coverage-summary.json",
        r#"{"total":{"lines":{"total":0,"covered":0,"pct":"Unknown"},"branches":{"total":0,"covered":0,"pct":"Unknown"},"functions":{"total":0,"covered":0,"pct":"Unknown"}}}"#,
    );
    assert_eq!(zero.0, CoverageFormat::IstanbulSummary);
    assert_eq!((zero.1, zero.2, zero.3), (None, None, None));
    assert_eq!(
        coverage("coverage-summary.json", &istanbul_metric_json("0", 2, 0)).1,
        percent(0.0)
    );
    assert_eq!(
        coverage("coverage-summary.json", &istanbul_metric_json("100", 2, 2)).1,
        percent(100.0)
    );
    assert_eq!(
        coverage("coverage-summary.json", &istanbul_metric_json("50", 2, 1)).1,
        percent(50.0)
    );
    assert!(read("coverage-summary.json", &istanbul_metric_json("101", 2, 1)).is_none());
    assert!(read("coverage-summary.json", &istanbul_metric_json("-1", 2, 0)).is_none());
    assert!(read("coverage-summary.json", "{}\n").is_none());
}

#[test]
fn cobertura_uses_root_rates_and_validates_finite_bounds() {
    assert_eq!(
        coverage(
            "coverage.xml",
            r#"<coverage line-rate="0" branch-rate="0"/>"#
        ),
        (CoverageFormat::CoberturaXml, percent(0.0), percent(0.0), None)
    );
    assert_eq!(
        coverage(
            "coverage.xml",
            r#"<coverage line-rate="1" branch-rate="1"/>"#
        ),
        (CoverageFormat::CoberturaXml, percent(100.0), percent(100.0), None)
    );
    assert_eq!(
        coverage(
            "coverage.xml",
            r#"<coverage line-rate="0.5" branch-rate="0.25"><sources><source>src</source></sources></coverage>"#
        ),
        (CoverageFormat::CoberturaXml, percent(50.0), percent(25.0), None)
    );
    assert!(read(
        "coverage.xml",
        r#"<coverage line-rate="NaN" branch-rate="0"/>"#
    )
    .is_none());
    assert!(read(
        "coverage.xml",
        r#"<coverage line-rate="1.1" branch-rate="0"/>"#
    )
    .is_none());
    assert!(read("coverage.xml", "<coverage line-rate=\"0\">").is_none());
}

#[test]
fn jacoco_uses_line_branch_and_method_counters() {
    let zero = coverage(
        "jacoco.xml",
        r#"<report><counter type="LINE" missed="0" covered="0"/><counter type="BRANCH" missed="0" covered="0"/><counter type="METHOD" missed="0" covered="0"/></report>"#,
    );
    assert_eq!(zero.0, CoverageFormat::JacocoXml);
    assert_eq!((zero.1, zero.2, zero.3), (None, None, None));
    assert_eq!(
        coverage(
            "jacoco.xml",
            r#"<report><counter type="LINE" missed="0" covered="2"/><counter type="BRANCH" missed="2" covered="0"/><counter type="METHOD" missed="1" covered="1"/></report>"#,
        ),
        (
            CoverageFormat::JacocoXml,
            percent(100.0),
            percent(0.0),
            percent(50.0)
        )
    );
    assert!(read(
        "jacoco.xml",
        r#"<report><counter type="LINE" missed="NaN" covered="1"/><counter type="BRANCH" missed="0" covered="0"/><counter type="METHOD" missed="0" covered="0"/></report>"#
    )
    .is_none());
    assert!(read(
        "jacoco.xml",
        r#"<report><counter type="LINE" missed="0" covered="1"/><counter type="BRANCH" missed="0" covered="0"/></report>"#
    )
    .is_none());
}

#[test]
fn attributes_are_read_with_their_entities_resolved() {
    let report = parse_xml(r#"<coverage line-rate="0&#46;5" branch-rate="&lt;&amp;"/>"#);
    match report {
        Some(Report::Rates { line, branch }) => {
            assert_eq!(line, "0.5");
            assert_eq!(branch, "<&");
        }
        _ => panic!("rates expected"),
    }
}

#[test]
fn markup_outside_of_one_closed_root_is_refused() {
    for contents in [
        "",
        "text",
        "<coverage line-rate=\"1\" branch-rate=\"1\"/><coverage/>",
        "<coverage line-rate=\"1\" branch-rate=\"1\"/>tail",
        "<coverage line-rate=\"1\" branch-rate=\"1\"></wrong>",
        "<coverage line-rate=\"1\" line-rate=\"1\" branch-rate=\"1\"/>",
        "<coverage line-rate=\"&unknown;\" branch-rate=\"1\"/>",
        "<other/>",
    ] {
        assert!(parse_xml(contents).is_none(), "{contents}");
    }
}

#[test]
fn summaries_are_read_by_their_own_numbers() {
    let mixed = r#"{"total":{"lines":{"total":8,"covered":3,"pct":37.5},"branches":{"total":0,"covered":0,"pct":"Unknown"},"functions":{"total":3,"covered":1,"pct":33.33}}}"#;
    assert_eq!(
        parse_istanbul(mixed),
        Some((CoverageFormat::IstanbulSummary, percent(37.5), None, percent(33.33)))
    );
    assert!(parse_istanbul("not json").is_none());
    assert_eq!(istanbul_percentage(0, 0, None, true), Some(None));
    assert_eq!(istanbul_percentage(2, 3, percent(50.0), false), None);
}

#[test]
fn ratios_are_those_of_floats() {
    for (hit, total) in [(1_u64, 3_u64), (2, 3), (5, 7), (999, 1000), (123_456_789, 987_654_321)] {
        let expected = hit as f64 * 100.0 / total as f64;
        assert_eq!(ratio(hit, total), percent(expected), "{hit} of {total}");
    }
    assert_eq!(ratio(0, 0), None);
    assert_eq!(finite_percent(number(100.0)), percent(100.0));
    assert_eq!(finite_percent(number(100.1)), None);
    assert_eq!(finite_percent(number(f64::INFINITY)), None);
    assert_eq!(cobertura(percent(0.1), percent(0.7)).unwrap().1, percent(0.1 * 100.0));
    assert_eq!(cobertura(percent(0.1), percent(0.7)).unwrap().2, percent(0.7 * 100.0));
    assert_eq!(cobertura(None, percent(0.7)), None);
}

#[test]
fn formats_are_told_apart_by_their_names() {
    assert!(parse_lcov("DA:1,1\n").is_some());
    assert!(parse_go("DA:1,1\n").is_none());
    assert_eq!(coverage("notes.txt", "DA:1,1\n").0, CoverageFormat::Lcov);
    assert!(read("notes.txt", "a note\n").is_none());
    assert!(read("notes.XML", "a note\n").is_none());
}
