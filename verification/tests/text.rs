use hoshino::binary64::Binary64;
use hoshino::config::Theme;
use hoshino::model::{
    Context, CountUnit, Coverage, CoverageFormat, Cpu, Diagnostic, DiagnosticSeverity, Disk,
    Freshness, Git, GitHead, LanguageLoc, Loc, LocalTime, Memory, OperatingSystem, Project,
    Seconds, SecondsUnit, Snapshot, SnapshotMode, System, Toolchain,
};
use hoshino::render::card::strip_ansi;
use hoshino::render::cells::{fit_middle, take_back, visible_width};
use hoshino::render::measures::content_measures;
use hoshino::render::text::{
    card_body, card_spans, expanded_card_spans, is_renderable, layout_line, render_card,
    render_text, row, section_rows, span, with_flex, with_trailing, CardLine, CardSpan, Flex,
    FlexSlot, TextOptions, FULL_GUTTER,
};
use hoshino::render::theme::{palette, Role, RuntimeRole, SpanStyle, SystemRole};
use hoshino::render::values::{freshness_name, toolchain_version};

fn percent(value: f64) -> Option<Binary64> {
    Some(Binary64 { bits: value.to_bits() })
}

fn fixture(git: bool) -> Snapshot {
    let mut snapshot = Snapshot::empty(SnapshotMode::OneShot);
    snapshot.context = Context {
        worktree: git.then(|| "/work/hoshino".into()),
        directory: Some("/work/hoshino/src".into()),
    };
    snapshot.system = System {
        os: Some(OperatingSystem {
            name: "macOS".into(),
            version: Some("26".into()),
            architecture: None,
        }),
        cpu: Some(Cpu {
            label: Some("Apple CPU".into()),
            utilization_percent: percent(12.5),
            frequency_mhz: Some(3200),
        }),
        memory: Some(Memory {
            used_bytes: 8 << 30,
            total_bytes: 16 << 30,
        }),
        disks: vec![Disk {
            mount: "/".into(),
            used_bytes: 40,
            total_bytes: 100,
        }],
        uptime: Some(Seconds {
            value: 90_061,
            unit: SecondsUnit::Seconds,
        }),
    };
    snapshot.time = LocalTime {
        local: Some("12:34:56".into()),
        date: Some("2026-09-16".into()),
        timezone_name: Some("America/Los_Angeles".into()),
        timezone_offset_seconds: Some(-25_200),
        day_progress_percent: percent(52.5),
    };
    if git {
        snapshot.git = Some(Git {
            head: GitHead::Branch {
                name: "main".into(),
            },
            dirty: true,
            staged: 2,
            unstaged: 3,
            conflicts: 1,
            ahead: Some(4),
            upstream: Some("origin/main".into()),
        });
        snapshot.project = Some(Project {
            primary_language: Some("Rust".into()),
            toolchains: vec![
                Toolchain {
                    language: "Rust".into(),
                    runtime: "rustc".into(),
                    version: Some("1.98.1".into()),
                },
                Toolchain {
                    language: "Python".into(),
                    runtime: "python3".into(),
                    version: Some("3.13".into()),
                },
            ],
            loc: Some(Loc {
                total: 1234,
                unit: CountUnit::Lines,
                truncated: false,
                by_language: vec![
                    LanguageLoc {
                        language: "Rust".into(),
                        lines: 1000,
                        unit: CountUnit::Lines,
                    },
                    LanguageLoc {
                        language: "Python".into(),
                        lines: 234,
                        unit: CountUnit::Lines,
                    },
                ],
            }),
            coverage: Some(Coverage {
                line_percent: percent(87.5),
                branch_percent: percent(62.0),
                function_percent: percent(91.0),
                source: Some("fixture".into()),
                format: Some(CoverageFormat::Lcov),
                report_path: Some("coverage/lcov.info".into()),
                report_modified: Some(Seconds {
                    value: 1_700_000_000,
                    unit: SecondsUnit::Seconds,
                }),
                stale: Freshness::Current,
            }),
        });
    }
    snapshot.diagnostics = vec![Diagnostic {
        severity: DiagnosticSeverity::Warning,
        code: "coverage-stale".into(),
        message: "report needs refresh".into(),
        subject: None,
    }];
    snapshot
}
fn options(full: bool, width: usize) -> TextOptions {
    TextOptions {
        full,
        width: Some(width),
        ..TextOptions::default()
    }
}
fn spans_of(full: bool, width: usize) -> Vec<CardSpan> {
    render_card(&fixture(true), options(full, width))
        .iter()
        .flat_map(card_spans)
        .collect()
}
fn find<'a>(lines: &'a [CardLine], prefix: &str) -> &'a CardLine {
    lines
        .iter()
        .find(|line| line.text.starts_with(prefix))
        .unwrap_or_else(|| panic!("no line starting with {prefix:?}"))
}

#[test]
fn normal_is_a_compact_instrument_rail() {
    let body = card_body(&fixture(true), false);
    assert!((6..=9).contains(&body.identity.len()));
    assert!(body.sections.is_empty());
    let text = render_text(&fixture(true), options(false, 104));
    for fact in [
        "/work/hoshino on main · conflict",
        "rustc 1.98.1",
        "macOS 26 · Apple CPU @ 3200 MHz · 12.5%",
        "up 1d 1h",
        "mem  ",
        "disk ",
        "12:34:56 ",
        "52.5% · 2026-09-16",
        "project: 1234 LOC",
    ] {
        assert!(text.contains(fact), "{fact:?} missing from\n{text}");
    }
    assert!(text.lines().all(|line| visible_width(line) == 104));
}

#[test]
fn sparse_non_git_omits_unavailable_rows() {
    let text = render_text(&fixture(false), options(false, 40));
    assert!(!text.contains("main"));
    assert!(!text.contains("—"));
    assert!(!text.contains("coverage"));
    assert!(!text.contains("project:"));
}

#[test]
fn full_has_ordered_nonempty_semantic_sections() {
    let body = card_body(&fixture(true), true);
    assert_eq!(
        body.sections
            .iter()
            .map(|section| section.name)
            .collect::<Vec<_>>(),
        ["system & health", "active context", "project telemetry"]
    );
    let text = render_text(&fixture(true), options(true, 120));
    assert_eq!(text.matches("source fixture").count(), 1);
    assert_eq!(text.matches("coverage/lcov.info").count(), 1);
    assert!(
        !text
            .lines()
            .any(|line| line.trim_matches(['│', ' ']).is_empty())
    );
}

#[test]
fn full_keeps_ram_capacity_in_one_place() {
    let output = render_text(&fixture(true), options(true, 120));
    assert_eq!(output.matches("8.0 GiB / 16.0 GiB").count(), 1);
    assert!(!output.contains("RAM"));
}

#[test]
fn python_runtime_strips_a_case_insensitive_language_version_prefix() {
    let mut snapshot = fixture(true);
    {
        let project = snapshot.project.as_mut().unwrap();
        project.primary_language = Some("Python".into());
        project.toolchains[1].version = Some("Python 3.14.6".into());
    }
    let output = render_text(&snapshot, options(false, 104));
    assert!(output.contains("python3 3.14.6"));
    assert!(!output.contains("python3 Python"));
    assert_eq!(
        toolchain_version(&snapshot.project.as_ref().unwrap().toolchains[0]),
        "1.98.1"
    );
}

#[test]
fn normal_runtime_is_short_and_full_keeps_build_provenance() {
    let mut snapshot = fixture(true);
    snapshot.project.as_mut().unwrap().toolchains[0].version =
        Some("rustc 1.98.1 (48a229cea 2026-09-01)".into());
    let normal = render_text(&snapshot, options(false, 104));
    assert!(normal.contains("rustc 1.98.1"));
    assert!(!normal.contains("48a229cea"));
    let full = render_text(&snapshot, options(true, 120));
    assert!(full.contains("rustc 1.98.1 (48a229cea 2026-09-01)"));
}

#[test]
fn coverage_report_modified_is_explicit_unix_provenance_not_an_age() {
    let output = render_text(&fixture(true), options(true, 120));
    assert!(output.contains("modified Unix 1700000000"));
    assert!(!output.contains("1700000000 seconds"));
    assert!(!output.contains("report age"));
}

#[test]
fn gradients_only_fill_instrument_cells() {
    for full in [false, true] {
        let spans = spans_of(full, 200);
        let gradients = spans
            .iter()
            .filter(|span| span.style == SpanStyle::Gradient)
            .collect::<Vec<_>>();
        assert!(!gradients.is_empty());
        assert!(gradients.iter().all(|span| {
            span.text.chars().all(|character| character == '━')
                && matches!(
                    span.role,
                    Role::System(_) | Role::Coverage | Role::Warning | Role::Progress
                )
        }));
    }
}

#[test]
fn ansi_and_plain_share_fragments_and_width_caps() {
    for full in [false, true] {
        let plain = render_text(&fixture(true), options(full, 200));
        let card = render_card(&fixture(true), options(full, 200));
        assert!(
            card.iter()
                .all(|line| visible_width(&line.text) == if full { 120 } else { 104 })
        );
        let ansi = render_text(
            &fixture(true),
            TextOptions {
                color: true,
                ..options(full, 200)
            },
        );
        assert!(ansi.matches("\x1b[0m").count() > 0);
        assert_eq!(plain.lines().count(), ansi.lines().count());
    }
}

#[test]
fn narrow_is_deterministic_unframed() {
    for full in [false, true] {
        for width in 1..20 {
            let output = render_text(&fixture(true), options(full, width));
            assert!(output.lines().all(|line| visible_width(line) <= width));
            assert!(!output.contains('╭'));
        }
    }
}

#[test]
fn conflict_stale_python_and_long_values_remain_textual() {
    let mut snapshot = fixture(true);
    snapshot.git.as_mut().unwrap().head = GitHead::Branch {
        name: format!("feature/{}-tail", "very-long-".repeat(20)),
    };
    snapshot.project.as_mut().unwrap().primary_language = Some("Python".into());
    snapshot
        .project
        .as_mut()
        .unwrap()
        .coverage
        .as_mut()
        .unwrap()
        .stale = Freshness::Stale;
    let output = render_text(&snapshot, options(true, 80));
    assert!(output.contains("conflict"));
    assert!(output.contains("stale"));
    assert!(output.contains("Python"));
    assert!(output.contains("tail"));
}

#[test]
fn every_width_is_cell_bounded_and_small_widths_are_unframed() {
    for full in [false, true] {
        for width in [1, 2, 19, 20, 21, 30, 40, 60, 80, 104, 120, 160] {
            let output = render_text(&fixture(true), options(full, width));
            assert!(
                output.lines().all(|line| visible_width(line) <= width),
                "{width}:\n{output}"
            );
            if width < 20 {
                assert!(!output.contains('╭'));
            } else {
                let cap = if full { 120 } else { 104 };
                assert!(
                    output
                        .lines()
                        .all(|line| visible_width(line) == width.min(cap))
                );
            }
        }
    }
}

#[test]
fn wide_and_combining_values_obey_terminal_cell_boundaries() {
    assert_eq!(visible_width("界"), 2);
    assert_eq!(visible_width("e\u{301}"), 1);
    let value = "prefix-界e\u{301}-distinguishing-suffix";
    for width in 1..=16 {
        let fitted = fit_middle(value, width);
        assert!(visible_width(&fitted) <= width, "{width}: {fitted:?}");
    }
    assert!(fit_middle(value, 16).contains("suffix"));
    let mut snapshot = fixture(false);
    snapshot.context.directory = Some(format!("/prefix/{value}"));
    for width in [20, 21, 40] {
        assert!(
            render_text(&snapshot, options(false, width))
                .lines()
                .all(|line| visible_width(line) == width)
        );
    }
}

#[test]
fn border_spans_and_framed_geometry_are_independent_of_values() {
    let card = render_card(&fixture(true), options(false, 104));
    assert!(card.iter().all(|line| visible_width(&line.text) == 104));
    let spans: Vec<_> = card.iter().flat_map(card_spans).collect();
    assert!(
        spans
            .iter()
            .filter(|span| span
                .text
                .chars()
                .any(|c| matches!(c, '╭' | '╮' | '╰' | '╯' | '│' | '├')))
            .all(|span| span.role == Role::Border)
    );
    assert!(
        spans
            .iter()
            .any(|span| span.text.contains("main") && span.role == Role::Git)
    );
    let lines = render_text(&fixture(true), options(false, 104));
    assert!(
        lines
            .lines()
            .skip(1)
            .take(card.len() - 2)
            .all(|line| { line.starts_with("│ ") && line.ends_with(" │") }),
        "content keeps one cell of padding inside the frame"
    );
}

#[test]
fn extreme_non_git_path_keeps_a_closed_frame() {
    let mut snapshot = fixture(false);
    snapshot.context.directory = Some(format!("/{}tail", "very-long-directory/".repeat(20)));
    let output = render_text(&snapshot, options(false, 80));
    let lines: Vec<_> = output.lines().collect();
    assert!(
        lines
            .first()
            .is_some_and(|line| line.starts_with("╭─hoshino ") && line.ends_with('╮'))
    );
    assert!(
        lines
            .last()
            .is_some_and(|line| line.starts_with('╰') && line.ends_with('╯'))
    );
    assert!(lines.iter().all(|line| visible_width(line) == 80));
}

#[test]
fn full_sections_are_framed_and_normal_and_full_caps_differ() {
    for (full, cap) in [(false, 104), (true, 120)] {
        let output = render_text(&fixture(true), options(full, 160));
        let lines: Vec<_> = output.lines().collect();
        assert!(lines.iter().all(|line| visible_width(line) == cap));
        assert!(lines[1..lines.len() - 1].iter().all(|line| {
            (line.starts_with('│') && line.ends_with('│'))
                || (full && line.starts_with("├─ ") && line.ends_with("─┤"))
        }));
        if full {
            for section in ["system & health", "active context", "project telemetry"] {
                assert!(output.contains(&format!("├─ {section} ─")));
            }
        }
    }
}

#[test]
fn git_clean_dirty_and_conflict_have_distinct_textual_states() {
    let mut clean = fixture(true);
    let git = clean.git.as_mut().unwrap();
    git.dirty = false;
    git.staged = 0;
    git.unstaged = 0;
    git.conflicts = 0;
    assert!(render_text(&clean, options(false, 104)).contains("main · clean"));
    clean.git.as_mut().unwrap().dirty = true;
    assert!(render_text(&clean, options(false, 104)).contains("main · dirty"));
    clean.git.as_mut().unwrap().conflicts = 1;
    assert!(render_text(&clean, options(false, 104)).contains("main · conflict"));
}

#[test]
fn whole_values_take_their_roles_and_labels_stay_secondary() {
    let body = card_body(&fixture(true), false);
    let place = &body.identity[0];
    assert_eq!(place.fragments[0].role, Role::Primary);
    assert_eq!(place.fragments[1].role, Role::Secondary);
    assert!(
        place.fragments[2].text == "main · conflict · +2 ~3 !1 ↑4"
            && place.fragments[2].role == Role::Git
    );
    assert!(matches!(place.trailing[0].role, Role::Runtime(_)));
    let machine = &body.identity[1];
    assert!(machine.fragments.iter().any(|span| {
        span.text == "Apple CPU @ 3200 MHz · 12.5%"
            && span.role == Role::System(SystemRole::Cpu)
    }));
    assert_eq!(machine.trailing[1].role, Role::System(SystemRole::Health));
    let memory = find(&body.identity, "mem");
    assert_eq!(memory.fragments[0].role, Role::Secondary);
    assert!(memory.fragments.iter().any(|span| {
        span.text == "50.0%  8.0 GiB/16.0 GiB" && span.role == Role::System(SystemRole::Memory)
    }));
    assert!(matches!(
        memory.flex,
        Some(FlexSlot {
            kind: Flex::Meter {
                role: Role::System(SystemRole::Memory),
                ..
            },
            ..
        })
    ));
    let disk = find(&body.identity, "disk");
    assert!(disk.fragments.iter().any(|span| {
        span.text.starts_with("40.0%") && span.role == Role::System(SystemRole::Disk)
    }));
    assert!(
        body.identity
            .iter()
            .flat_map(|line| &line.fragments)
            .all(|span| span.style == SpanStyle::Solid)
    );
}

#[test]
fn rails_are_solid_pink_without_brackets() {
    let spans = spans_of(true, 120);
    for header in ["system & health", "active context", "project telemetry"] {
        assert!(spans.iter().any(|span| span.text == header
            && span.role == Role::Primary
            && span.style == SpanStyle::Solid));
    }
    assert!(!spans.iter().any(|span| span.text.contains("[ ")));
    assert!(
        spans
            .iter()
            .filter(|span| span.text.starts_with("─ "))
            .all(|span| span.role == Role::Border)
    );
}

#[test]
fn time_is_lavender_and_plain_output_is_control_free() {
    let plain = render_text(&fixture(true), options(false, 104));
    assert!(!plain.contains('\x1b'));
    let colors = palette(Theme::DuskDarker);
    let body = card_body(&fixture(true), false);
    let ruler = find(&body.identity, "12:34:56");
    assert!(
        expanded_card_spans(ruler, colors)
            .iter()
            .any(|chunk| chunk.text.contains("12:34:56") && chunk.color == colors.lavender)
    );
    let full = card_body(&fixture(true), true);
    let time = find(&full.sections[1].left, "time");
    assert!(time.fragments.iter().any(|span| {
        span.text == "12:34:56 · 2026-09-16 · America/Los_Angeles" && span.role == Role::Time
    }));
    let colored = render_text(
        &fixture(true),
        TextOptions {
            color: true,
            ..options(false, 104)
        },
    );
    assert!(colored.contains(&colors.ansi_foreground(Role::Time)));
}

#[test]
fn full_diagnostics_are_inside_the_frame_and_unavailable_facts_are_omitted() {
    let full = render_text(&fixture(true), options(true, 120));
    assert!(full.contains("diag  coverage-stale warning · report needs refresh"));
    assert!(
        full.lines()
            .filter(|line| line.contains("diag  "))
            .all(|line| line.starts_with('│') && line.ends_with('│'))
    );
    let sparse = render_text(&Snapshot::empty(SnapshotMode::OneShot), options(true, 80));
    assert!(!sparse.contains("coverage"));
    assert!(!sparse.contains("unknown"));
}

#[test]
fn full_owns_a_compact_header() {
    let body = card_body(&fixture(true), true);
    assert_eq!(body.identity.len(), 2);
    assert_eq!(body.identity_layout_height, 6);
    let git = &body.identity[0];
    assert!(git.text.starts_with("git   main · conflict"));
    assert!(git.text.contains(" → origin/main"));
    assert!(git.trailing.iter().any(|span| span.text == "rustc 1.98.1"));
    assert_eq!(body.identity[1].text, "dir   /work/hoshino · macOS 26");
    assert!(body.identity.iter().all(|line| !line.text.contains("GiB")));
}

#[test]
fn trailing_support_drops_before_the_instrument_and_text_last() {
    let line = with_trailing(
        with_flex(
            row(
                Role::Text,
                vec![span("ab", Role::Text), span("cd", Role::Text)],
            ),
            1,
            Flex::Meter {
                permille: 500,
                role: Role::System(SystemRole::Cpu),
            },
            4,
            10,
        ),
        vec![span("tail", Role::Secondary)],
    );
    let text = |width| {
        layout_line(&line, width)
            .iter()
            .map(|span| span.text.clone())
            .collect::<String>()
    };
    assert_eq!(
        text(30),
        format!("ab{}cd{}tail", "━━━━━╌╌╌╌╌", " ".repeat(12))
    );
    // 2 + 2 fixed, 4-cell meter would need 12 with trailing: trailing goes first.
    assert_eq!(text(11), "ab━━━━╌╌╌cd");
    assert_eq!(text(7), "abcd");
    assert_eq!(visible_width(&text(3)), 3);
}

#[test]
fn ruler_quarters_align_with_the_axis_labels() {
    let body = card_body(&fixture(true), true);
    let active = &body.sections[1].left;
    let ruler_index = active
        .iter()
        .position(|line| {
            matches!(
                line.flex,
                Some(FlexSlot {
                    kind: Flex::Ruler { .. },
                    ..
                })
            )
        })
        .unwrap();
    for width in [40, 80, 116] {
        let ruler = layout_line(&active[ruler_index], width)
            .iter()
            .map(|span| span.text.clone())
            .collect::<String>();
        let axis = layout_line(&active[ruler_index + 1], width)
            .iter()
            .map(|span| span.text.clone())
            .collect::<String>();
        assert_eq!(visible_width(&ruler), visible_width(&axis));
        let ruler: Vec<char> = ruler.chars().collect();
        let axis: Vec<char> = axis.chars().collect();
        let end = ruler.iter().position(|c| *c == '┤').unwrap();
        let start = FULL_GUTTER;
        let quarter = (end - start) / 4;
        for (tick, label) in [(1, '0'), (2, '1'), (3, '1')] {
            let column = start + tick * quarter;
            assert!(matches!(ruler[column], '┼' | '●' | '━'), "{width} {tick}");
            assert_eq!(axis[column], label, "{width} {tick}");
        }
        assert_eq!(&axis[end - 1..=end], &['2', '4']);
        // 52.5% of the day puts the marker just past the 12:00 tick.
        let marker = ruler.iter().position(|c| *c == '●').unwrap();
        assert!(marker >= start + 2 * quarter && marker <= start + 2 * quarter + 2);
    }
}

#[test]
fn disk_table_aligns_skips_mirrored_volumes_and_flags_full_disks() {
    let mut snapshot = fixture(true);
    snapshot.system.disks = vec![
        Disk {
            mount: "/".into(),
            used_bytes: 40 << 30,
            total_bytes: 100 << 30,
        },
        // The APFS data volume shares the container; its byte count drifts
        // slightly between reads but prints identically.
        Disk {
            mount: "/System/Volumes/Data".into(),
            used_bytes: (40 << 30) + 4096,
            total_bytes: 100 << 30,
        },
        Disk {
            mount: "/Volumes/OpenCode 2.0.16-arm64".into(),
            used_bytes: 996,
            total_bytes: 1000,
        },
    ];
    let body = card_body(&snapshot, true);
    let system = &body.sections[0].left;
    assert!(
        !system
            .iter()
            .any(|line| line.text.contains("/System/Volumes/Data"))
    );
    let full = system
        .iter()
        .find(|line| line.text.contains("/Volumes/O…") && line.text.contains("arm64"))
        .unwrap();
    assert!(
        full.fragments
            .iter()
            .any(|span| span.text.trim() == "▲ full" && span.role == Role::Warning)
    );
    let root = system
        .iter()
        .find(|line| line.text.starts_with("disk  / "))
        .unwrap();
    assert!(!root.text.contains("full"));
    let header = system
        .iter()
        .find(|line| line.text.contains("mount"))
        .unwrap();
    for width in [80, 116] {
        let columns = |line: &CardLine| {
            let text = layout_line(line, width)
                .iter()
                .map(|span| span.text.clone())
                .collect::<String>();
            (
                visible_width(&text),
                text.find('%').map(|index| visible_width(&text[..index])),
            )
        };
        let (header_width, header_percent) = columns(header);
        let (root_width, root_percent) = columns(root);
        let (full_width, full_percent) = columns(full);
        assert_eq!(header_width, root_width);
        assert_eq!(root_width, full_width);
        assert_eq!(header_percent, root_percent);
        assert_eq!(root_percent, full_percent);
    }
    let narrow = section_rows(&body.sections[0], 60, false);
    assert!(!narrow.iter().any(|line| line.text.contains("mount")));
    let compact = layout_line(
        narrow
            .iter()
            .find(|line| line.text.starts_with("disk  / "))
            .unwrap(),
        60,
    );
    assert_eq!(
        compact
            .iter()
            .map(|span| span.text.as_str())
            .collect::<String>(),
        "disk  / 40.0% · 40.0 GiB / 100.0 GiB"
    );
    assert!(
        section_rows(&body.sections[0], 116, true)
            .iter()
            .any(|line| line.text.contains("mount"))
    );
    let normal = card_body(&snapshot, false);
    assert!(find(&normal.identity, "disk").text.contains("40.0%"));
}

#[test]
fn language_stack_fills_its_width_in_language_roles() {
    let body = card_body(&fixture(true), true);
    let project = &body.sections[2].left;
    let stack = project
        .iter()
        .find(|line| {
            matches!(
                line.flex,
                Some(FlexSlot {
                    kind: Flex::Stack(_),
                    ..
                })
            )
        })
        .unwrap();
    let spans = layout_line(stack, 60);
    let runs = spans
        .iter()
        .filter(|span| span.text.starts_with('█'))
        .collect::<Vec<_>>();
    assert_eq!(runs.len(), 2);
    assert_eq!(runs[0].role, Role::Runtime(RuntimeRole::Rust));
    assert_eq!(runs[1].role, Role::Runtime(RuntimeRole::Python));
    assert_eq!(
        runs.iter()
            .map(|span| visible_width(&span.text))
            .sum::<usize>(),
        60 - FULL_GUTTER
    );
    assert_eq!(visible_width(&runs[0].text), 44);
    let legend = find(project, "      ■ Rust");
    assert_eq!(legend.text, "      ■ Rust 1000 lines · 81.0%");
}

#[test]
fn full_git_row_keeps_zero_counts() {
    let mut snapshot = fixture(true);
    let git = snapshot.git.as_mut().unwrap();
    git.dirty = false;
    git.staged = 0;
    git.unstaged = 0;
    git.conflicts = 0;
    git.ahead = None;
    let body = card_body(&snapshot, true);
    let git = find(&body.sections[1].left, "git");
    assert_eq!(git.text, "git   staged 0    unstaged 0    conflicts 0");
    assert!(
        git.fragments
            .iter()
            .filter(|span| span.text == "0")
            .all(|span| span.role == Role::Git)
    );
}

#[test]
fn coverage_rows_follow_freshness_roles() {
    let mut snapshot = fixture(true);
    for (freshness, role) in [
        (Freshness::Current, Role::Coverage),
        (Freshness::Stale, Role::Warning),
        (Freshness::Unknown, Role::Secondary),
    ] {
        snapshot
            .project
            .as_mut()
            .unwrap()
            .coverage
            .as_mut()
            .unwrap()
            .stale = freshness;
        let body = card_body(&snapshot, true);
        let line = find(&body.sections[2].left, "cov   line");
        assert_eq!(line.role, role);
        assert!(matches!(
            &line.flex,
            Some(FlexSlot { kind: Flex::Meter { role: meter, .. }, .. }) if *meter == role
        ));
        let provenance = body.sections[2].left.last().unwrap();
        assert_eq!(provenance.fragments.last().unwrap().role, role);
        assert_eq!(
            provenance.fragments.last().unwrap().text,
            freshness_name(freshness)
        );
    }
}

#[test]
fn parting_glyphs_part_what_is_measured() {
    let texts = [
        "",
        "plain",
        "1\u{fe0f}",
        "#\u{fe0f}\u{20e3}",
        "\u{fe0f}",
        "\u{fe0e}x",
        "\u{200d}",
        "\u{20e3}",
        "\u{338}=",
        "e\u{301}",
        "한글",
        "\u{644}\u{627}",
        "\u{627}",
        "👩\u{200d}🚀",
        "\u{1f3fb}",
        "🇩🇪🇩",
        "\u{10eeee}\u{305}\u{30d}",
        "x\r",
        "\ny",
    ];
    for glyph in " …·→↑●■▲█━╌─│╭╮╰╯├┤┼aZ-~!<=>".chars() {
        for before in texts {
            for behind in texts {
                let whole = format!("{before}{glyph}{behind}");
                let sum = visible_width(before) + 1 + visible_width(behind);
                assert_eq!(visible_width(&whole), sum, "{whole:?}");
            }
        }
    }
    assert_eq!(visible_width("0123456789#*"), 12);
}

#[test]
fn every_text_is_cut_to_size() {
    for text in [
        "plain",
        "",
        "한글 und mehr",
        "e\u{301}e\u{301}",
        "→ path/to",
        "ab#\u{fe0f}",
        "1\u{fe0f}\u{20e3}2\u{fe0f}\u{20e3}3\u{fe0f}\u{20e3}",
        "👩\u{200d}🚀👩\u{200d}🚀",
        "\u{644}\u{627}\u{644}\u{627}",
    ] {
        for width in 0..12 {
            let cut = fit_middle(text, width);
            assert!(visible_width(&cut) <= width, "{text:?} {width}");
            assert!(visible_width(&take_back(text, width)) <= width, "{text:?} {width}");
            if visible_width(text) <= width {
                assert_eq!(cut, text);
            }
        }
    }
    assert_eq!(fit_middle("abcdefgh", 5), "ab…gh");
    assert_eq!(take_back("ab#\u{fe0f}", 1), "\u{fe0f}");
    assert_eq!(take_back("ab#\u{fe0f}", 2), "#\u{fe0f}");
    assert_eq!(take_back("한글", 3), "글");
}

#[test]
fn cards_of_any_facts_keep_to_their_width() {
    let mut snapshot = fixture(true);
    snapshot.context.worktree =
        Some("/work/1\u{fe0f}\u{20e3}2\u{fe0f}\u{20e3}3\u{fe0f}\u{20e3}ab#\u{fe0f}".into());
    for full in [false, true] {
        for width in [20, 24, 30, 44, 80, 104, 120] {
            let cap = if full { 120 } else { 104 };
            let shown = width.min(cap);
            for color in [false, true] {
                let options = TextOptions { color, ..options(full, width) };
                let measured = content_measures(&card_body(&snapshot, full), shown - 4, shown >= 80);
                for line in render_text(&snapshot, options).lines() {
                    let taken = visible_width(&strip_ansi(line));
                    if measured {
                        assert_eq!(taken, shown, "{line:?}");
                    }
                }
                for line in render_card(&snapshot, options) {
                    let parts: usize =
                        line.fragments.iter().map(|span| visible_width(&span.text)).sum();
                    assert_eq!(parts, shown, "{:?}", line.text);
                }
            }
        }
    }
    assert!(content_measures(&card_body(&fixture(true), true), 116, true));
}

#[test]
fn snapshots_whose_lines_overflow_are_found() {
    let mut snapshot = fixture(true);
    assert!(is_renderable(&snapshot));
    let loc = snapshot.project.as_mut().unwrap().loc.as_mut().unwrap();
    for name in ["A", "B"] {
        loc.by_language.push(LanguageLoc {
            language: name.into(),
            lines: u64::MAX / 2 + 1,
            unit: CountUnit::Lines,
        });
    }
    assert!(!is_renderable(&snapshot));
}
