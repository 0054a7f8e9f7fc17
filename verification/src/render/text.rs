//! The card as semantic rows, and its plain and coloured text.
use vstd::prelude::*;
use crate::binary64;
use crate::model;
use crate::strings;
use crate::render::cells;
use crate::render::theme;
use crate::render::values;
use crate::binary64::{percent_of, Binary64};
use crate::config::Theme;
use crate::model::{
    Coverage, Diagnostic, DiagnosticSeverity, Disk, Freshness, Git, GitHead, LanguageLoc, Loc,
    Project, Snapshot,
};
use crate::render::cells::{fit_middle, visible_width};
use crate::render::theme::{
    expand_span, palette, runtime_role, ExpandedChunk, Palette, Role, SpanStyle, SystemRole,
};
use crate::render::values::{
    coverage_format_name, coverage_role, cpu_value, diagnostic_role, displayed_disks, finite,
    format_bytes, format_os, format_percent, format_uptime, freshness_name, git_value, no_texts,
    push_text, runtime_value, severity_name, shortest_path, time_value, workspace,
};
use crate::strings::{decimal, join, pad_left, pad_right, repeat_char, same, sanitize, spaces};

verus! {

/// Pure rendering options. Embedded rows deliberately exclude the enclosing
/// frame because the caller already owns one.
#[derive(Clone, Copy, Debug, PartialEq, Eq, Structural)]
pub struct TextOptions {
    pub full: bool,
    pub width: Option<usize>,
    pub color: bool,
    pub theme: Theme,
    pub embedded: bool,
}

impl Default for TextOptions {
    fn default() -> (options: Self)
        ensures
            options == (TextOptions {
                full: false,
                width: None,
                color: false,
                theme: Theme::DuskDarker,
                embedded: false,
            }),
    {
        TextOptions {
            full: false,
            width: None,
            color: false,
            theme: Theme::DuskDarker,
            embedded: false,
        }
    }
}

pub type RenderOptions = TextOptions;

/// A serializable semantic fragment. Its role and style are authoritative;
/// serializers must not infer either from its label or rendered characters.
#[derive(Clone, Debug, PartialEq, Eq)]
pub struct CardSpan {
    pub text: String,
    pub role: Role,
    pub style: SpanStyle,
}

/// One semantic row. `text` is retained as a plain-text convenience for
/// callers; it is derived from `fragments` and `trailing` and is never reparsed
/// for styling. Width-dependent parts stay symbolic until [`layout_line`].
#[derive(Clone, Debug, PartialEq, Eq)]
pub struct CardLine {
    pub text: String,
    pub role: Role,
    pub fragments: Vec<CardSpan>,
    /// Right-aligned support, dropped before anything else when space is short.
    pub trailing: Vec<CardSpan>,
    /// One width-dependent element inserted before `fragments[at]`.
    pub flex: Option<FlexSlot>,
}

/// Width-dependent instruments. Rows that share fixed widths lay out their
/// flexible element at the same width, which keeps table and ruler columns aligned.
#[derive(Clone, Debug, PartialEq, Eq)]
pub enum Flex {
    /// Filled cells fade into `role`; the remainder is a secondary track.
    Meter { permille: u16, role: Role },
    /// A 24-hour ruler: elapsed cells and the current-time marker use Progress.
    Ruler { permille: u16 },
    /// Hour labels for a `Ruler` laid out at the same width.
    RulerAxis,
    /// A composition bar with one solid run per part, in order.
    Stack(Vec<(u64, Role)>),
    /// A secondary column caption padded to the flexible width.
    Caption(&'static str),
}

#[derive(Clone, Debug, PartialEq, Eq)]
pub struct FlexSlot {
    pub at: usize,
    pub kind: Flex,
    pub min: usize,
    pub max: usize,
    /// Stacked form used when the element cannot fit at its minimum width; an
    /// empty form omits the row (for example a table header at narrow widths).
    pub compact: Option<Vec<CardSpan>>,
}

/// Shared, embedded compositor input. The one-shot compositor reserves image
/// geometry only around `identity`; `sections` always span the full body.
#[derive(Clone, Debug, PartialEq, Eq)]
pub struct CardBody {
    pub title: Vec<CardSpan>,
    pub identity: Vec<CardLine>,
    /// Reserved compact-header rows. Image compositors may use this height, but
    /// semantic sections always begin after the actual identity rows.
    pub identity_layout_height: usize,
    pub sections: Vec<CardSection>,
}

#[derive(Clone, Debug, PartialEq, Eq)]
pub struct CardSection {
    pub name: &'static str,
    pub role: Role,
    pub left: Vec<CardLine>,
    pub right: Vec<CardLine>,
}

pub struct SpanView {
    pub text: Seq<char>,
    pub role: Role,
    pub style: SpanStyle,
}

#[verifier::ext_equal]
pub struct LineView {
    pub text: Seq<char>,
    pub role: Role,
    pub fragments: Seq<SpanView>,
    pub trailing: Seq<SpanView>,
    pub flex: Option<SlotView>,
}

#[verifier::ext_equal]
pub enum FlexView {
    Meter { permille: u16, role: Role },
    Ruler { permille: u16 },
    RulerAxis,
    Stack(Seq<(u64, Role)>),
    Caption(Seq<char>),
}

#[verifier::ext_equal]
pub struct SlotView {
    pub at: nat,
    pub kind: FlexView,
    pub min: nat,
    pub max: nat,
    pub compact: Option<Seq<SpanView>>,
}

#[verifier::ext_equal]
pub struct SectionView {
    pub name: Seq<char>,
    pub role: Role,
    pub left: Seq<LineView>,
    pub right: Seq<LineView>,
}

#[verifier::ext_equal]
pub struct BodyView {
    pub title: Seq<SpanView>,
    pub identity: Seq<LineView>,
    pub identity_layout_height: nat,
    pub sections: Seq<SectionView>,
}

impl View for CardSpan {
    type V = SpanView;

    open spec fn view(&self) -> SpanView {
        SpanView { text: self.text@, role: self.role, style: self.style }
    }
}

pub open spec fn span_views(spans: Seq<CardSpan>) -> Seq<SpanView> {
    Seq::new(spans.len(), |i: int| spans[i]@)
}

impl View for Flex {
    type V = FlexView;

    open spec fn view(&self) -> FlexView {
        match *self {
            Flex::Meter { permille, role } => FlexView::Meter { permille, role },
            Flex::Ruler { permille } => FlexView::Ruler { permille },
            Flex::RulerAxis => FlexView::RulerAxis,
            Flex::Stack(parts) => FlexView::Stack(parts@),
            Flex::Caption(caption) => FlexView::Caption(caption@),
        }
    }
}

impl View for FlexSlot {
    type V = SlotView;

    open spec fn view(&self) -> SlotView {
        SlotView {
            at: self.at as nat,
            kind: self.kind@,
            min: self.min as nat,
            max: self.max as nat,
            compact: match self.compact {
                Some(spans) => Some(span_views(spans@)),
                None => None,
            },
        }
    }
}

impl View for CardLine {
    type V = LineView;

    open spec fn view(&self) -> LineView {
        LineView {
            text: self.text@,
            role: self.role,
            fragments: span_views(self.fragments@),
            trailing: span_views(self.trailing@),
            flex: match self.flex {
                Some(slot) => Some(slot@),
                None => None,
            },
        }
    }
}

pub open spec fn line_views(lines: Seq<CardLine>) -> Seq<LineView> {
    Seq::new(lines.len(), |i: int| lines[i]@)
}

impl View for CardSection {
    type V = SectionView;

    open spec fn view(&self) -> SectionView {
        SectionView {
            name: self.name@,
            role: self.role,
            left: line_views(self.left@),
            right: line_views(self.right@),
        }
    }
}

pub open spec fn section_views(sections: Seq<CardSection>) -> Seq<SectionView> {
    Seq::new(sections.len(), |i: int| sections[i]@)
}

impl View for CardBody {
    type V = BodyView;

    open spec fn view(&self) -> BodyView {
        BodyView {
            title: span_views(self.title@),
            identity: line_views(self.identity@),
            identity_layout_height: self.identity_layout_height as nat,
            sections: section_views(self.sections@),
        }
    }
}

pub const TRAILING_GAP: usize = 2;

pub const NORMAL_GUTTER: usize = 5;

pub const FULL_GUTTER: usize = 6;

pub const METER_MIN: usize = 8;

pub const NORMAL_METER_MAX: usize = 30;

pub const FULL_METER_MAX: usize = 44;

pub const RULER_MIN: usize = 17;

pub const NORMAL_RULER_MAX: usize = 49;

pub const FULL_RULER_MAX: usize = 97;

pub const STACK_MIN: usize = 10;

pub const STACK_MAX: usize = 97;

/// The full card's disk table: mount, meter, percent, used / size, and a state column.
pub const TABLE_NAME: usize = 22;

pub const TABLE_PERCENT: usize = 6;

pub const TABLE_DETAIL: usize = 23;

pub const TABLE_STATE: usize = 8;

/// A disk at or above this share of its capacity is marked `▲ full`.
pub const DISK_FULL_PERCENT: u64 = 95;

/// A solid span, its control characters made spaces.
pub open spec fn solid(text: Seq<char>, role: Role) -> SpanView {
    SpanView { text: strings::sanitized(text), role, style: SpanStyle::Solid }
}

pub open spec fn shaded(text: Seq<char>, role: Role) -> SpanView {
    SpanView { text, role, style: SpanStyle::Gradient }
}

/// The texts of the spans in order.
pub open spec fn spans_text(spans: Seq<SpanView>) -> Seq<char>
    decreases spans.len(),
{
    if spans.len() == 0 {
        Seq::empty()
    } else {
        spans_text(spans.drop_last()) + spans.last().text
    }
}

/// The fragments, and the trailing support behind a gap where there is any.
pub open spec fn plain_text(fragments: Seq<SpanView>, trailing: Seq<SpanView>) -> Seq<char> {
    if trailing.len() == 0 {
        spans_text(fragments)
    } else {
        spans_text(fragments) + strings::blank(TRAILING_GAP as nat) + spans_text(trailing)
    }
}

pub open spec fn row_of(role: Role, fragments: Seq<SpanView>) -> LineView {
    LineView {
        text: plain_text(fragments, Seq::empty()),
        role,
        fragments,
        trailing: Seq::empty(),
        flex: None,
    }
}

pub open spec fn trailed(line: LineView, trailing: Seq<SpanView>) -> LineView {
    LineView { text: plain_text(line.fragments, trailing), trailing, ..line }
}

pub open spec fn flexed(line: LineView, at: nat, kind: FlexView, min: nat, max: nat) -> LineView {
    LineView { flex: Some(SlotView { at, kind, min, max, compact: None }), ..line }
}

pub open spec fn compacted(line: LineView, compact: Seq<SpanView>) -> LineView {
    match line.flex {
        Some(slot) => LineView {
            flex: Some(SlotView { compact: Some(compact), ..slot }),
            ..line
        },
        None => line,
    }
}

/// A copy of `source`.
pub fn copy_span(source: &CardSpan) -> (copy: CardSpan)
    ensures
        copy@ == source@,
{
    CardSpan { text: source.text.clone(), role: source.role, style: source.style }
}

pub fn copy_spans(source: &Vec<CardSpan>) -> (copy: Vec<CardSpan>)
    ensures
        span_views(copy@) == span_views(source@),
{
    let mut copy: Vec<CardSpan> = Vec::new();
    let mut i: usize = 0;
    while i < source.len()
        invariant
            i <= source@.len(),
            copy@.len() == i,
            forall|j: int| 0 <= j < i ==> #[trigger] copy@[j]@ == source@[j]@,
        decreases source@.len() - i,
    {
        copy.push(copy_span(&source[i]));
        i = i + 1;
    }
    assert(span_views(copy@) =~= span_views(source@));
    copy
}

fn copy_parts(source: &Vec<(u64, Role)>) -> (copy: Vec<(u64, Role)>)
    ensures
        copy@ == source@,
{
    let mut copy: Vec<(u64, Role)> = Vec::new();
    let mut i: usize = 0;
    while i < source.len()
        invariant
            i <= source@.len(),
            copy@ == source@.take(i as int),
        decreases source@.len() - i,
    {
        copy.push((source[i].0, source[i].1));
        i = i + 1;
        assert(copy@ =~= source@.take(i as int));
    }
    assert(copy@ =~= source@);
    copy
}

/// A copy of `source`.
pub fn copy_line(source: &CardLine) -> (copy: CardLine)
    ensures
        copy@ == source@,
{
    let flex = match &source.flex {
        Some(slot) => Some(
            FlexSlot {
                at: slot.at,
                kind: match &slot.kind {
                    Flex::Meter { permille, role } => Flex::Meter {
                        permille: *permille,
                        role: *role,
                    },
                    Flex::Ruler { permille } => Flex::Ruler { permille: *permille },
                    Flex::RulerAxis => Flex::RulerAxis,
                    Flex::Stack(parts) => Flex::Stack(copy_parts(parts)),
                    Flex::Caption(caption) => Flex::Caption(*caption),
                },
                min: slot.min,
                max: slot.max,
                compact: match &slot.compact {
                    Some(spans) => Some(copy_spans(spans)),
                    None => None,
                },
            },
        ),
        None => None,
    };
    CardLine {
        text: source.text.clone(),
        role: source.role,
        fragments: copy_spans(&source.fragments),
        trailing: copy_spans(&source.trailing),
        flex,
    }
}

pub fn no_spans() -> (spans: Vec<CardSpan>)
    ensures
        span_views(spans@) == Seq::<SpanView>::empty(),
{
    let spans: Vec<CardSpan> = Vec::new();
    assert(span_views(spans@) =~= Seq::<SpanView>::empty());
    spans
}

pub fn push_span(spans: &mut Vec<CardSpan>, item: CardSpan)
    ensures
        span_views(final(spans)@) == span_views(old(spans)@).push(item@),
{
    spans.push(item);
    assert(span_views(spans@) =~= span_views(old(spans)@).push(item@));
}

pub fn append_spans(spans: &mut Vec<CardSpan>, mut more: Vec<CardSpan>)
    ensures
        span_views(final(spans)@) == span_views(old(spans)@) + span_views(more@),
{
    let ghost added = span_views(more@);
    spans.append(&mut more);
    assert(span_views(spans@) =~= span_views(old(spans)@) + added);
}

pub fn no_lines() -> (lines: Vec<CardLine>)
    ensures
        line_views(lines@) == Seq::<LineView>::empty(),
{
    let lines: Vec<CardLine> = Vec::new();
    assert(line_views(lines@) =~= Seq::<LineView>::empty());
    lines
}

pub fn push_line(lines: &mut Vec<CardLine>, item: CardLine)
    ensures
        line_views(final(lines)@) == line_views(old(lines)@).push(item@),
{
    lines.push(item);
    assert(line_views(lines@) =~= line_views(old(lines)@).push(item@));
}

pub fn append_lines(lines: &mut Vec<CardLine>, mut more: Vec<CardLine>)
    ensures
        line_views(final(lines)@) == line_views(old(lines)@) + line_views(more@),
{
    let ghost added = line_views(more@);
    lines.append(&mut more);
    assert(line_views(lines@) =~= line_views(old(lines)@) + added);
}

/// A solid span.
pub fn span(text: &str, role: Role) -> (item: CardSpan)
    ensures
        item@ == solid(text@, role),
{
    CardSpan { text: sanitize(text), role, style: SpanStyle::Solid }
}

/// A span whose colour fades in.
pub fn gradient(text: String, role: Role) -> (item: CardSpan)
    ensures
        item@ == shaded(text@, role),
{
    CardSpan { text, role, style: SpanStyle::Gradient }
}

fn append_texts(text: &mut String, spans: &Vec<CardSpan>)
    ensures
        final(text)@ == old(text)@ + spans_text(span_views(spans@)),
{
    let ghost views = span_views(spans@);
    let mut i: usize = 0;
    assert(text@ =~= old(text)@ + spans_text(views.take(0)));
    while i < spans.len()
        invariant
            i <= spans@.len(),
            views == span_views(spans@),
            text@ == old(text)@ + spans_text(views.take(i as int)),
        decreases spans@.len() - i,
    {
        text.append(spans[i].text.as_str());
        i = i + 1;
        assert(views.take(i as int).drop_last() =~= views.take(i - 1));
        assert(text@ =~= old(text)@ + spans_text(views.take(i as int)));
    }
    assert(views.take(i as int) =~= views);
}

fn plain(fragments: &Vec<CardSpan>, trailing: &Vec<CardSpan>) -> (text: String)
    ensures
        text@ == plain_text(span_views(fragments@), span_views(trailing@)),
{
    let mut text = String::new();
    append_texts(&mut text, fragments);
    assert(text@ =~= spans_text(span_views(fragments@)));
    if trailing.len() > 0 {
        text.append(spaces(TRAILING_GAP).as_str());
        append_texts(&mut text, trailing);
    }
    text
}

/// A row of `fragments`.
pub fn row(role: Role, fragments: Vec<CardSpan>) -> (line: CardLine)
    ensures
        line@ == row_of(role, span_views(fragments@)),
{
    let trailing = no_spans();
    let text = plain(&fragments, &trailing);
    CardLine { text, role, fragments, trailing, flex: None }
}

impl CardLine {
    pub fn new(role: Role, fragments: Vec<CardSpan>) -> (line: Self)
        ensures
            line@ == row_of(role, span_views(fragments@)),
    {
        row(role, fragments)
    }
}

pub fn with_trailing(line: CardLine, trailing: Vec<CardSpan>) -> (out: CardLine)
    ensures
        out@ == trailed(line@, span_views(trailing@)),
{
    let text = plain(&line.fragments, &trailing);
    CardLine { text, role: line.role, fragments: line.fragments, trailing, flex: line.flex }
}

pub fn with_flex(line: CardLine, at: usize, kind: Flex, min: usize, max: usize) -> (out: CardLine)
    ensures
        out@ == flexed(line@, at as nat, kind@, min as nat, max as nat),
{
    CardLine {
        text: line.text,
        role: line.role,
        fragments: line.fragments,
        trailing: line.trailing,
        flex: Some(FlexSlot { at, kind, min, max, compact: None }),
    }
}

fn with_compact(line: CardLine, compact: Vec<CardSpan>) -> (out: CardLine)
    ensures
        out@ == compacted(line@, span_views(compact@)),
{
    let flex = match line.flex {
        Some(slot) => Some(
            FlexSlot {
                at: slot.at,
                kind: slot.kind,
                min: slot.min,
                max: slot.max,
                compact: Some(compact),
            },
        ),
        None => None,
    };
    CardLine {
        text: line.text,
        role: line.role,
        fragments: line.fragments,
        trailing: line.trailing,
        flex,
    }
}

/// `label: value`.
pub open spec fn labelled_of(label: Seq<char>, value: Seq<char>, role: Role) -> LineView {
    row_of(role, seq![solid(label + ": "@, Role::Secondary)].push(solid(value, role)))
}

fn labelled(label: &str, value: &str, role: Role) -> (line: CardLine)
    ensures
        line@ == labelled_of(label@, value@, role),
{
    let mut fragments = no_spans();
    push_span(&mut fragments, span(label.to_owned().concat(": ").as_str(), Role::Secondary));
    push_span(&mut fragments, span(value, role));
    row(role, fragments)
}

pub open spec fn gutter_of(label: Seq<char>, width: nat) -> SpanView {
    solid(strings::padded_right(label, width), Role::Secondary)
}

fn gutter(label: &str, width: usize) -> (item: CardSpan)
    ensures
        item@ == gutter_of(label@, width as nat),
{
    span(pad_right(label, width).as_str(), Role::Secondary)
}

/// `label ━━━━╌╌╌  80.8%  value`: the whole value takes the metric role.
pub open spec fn meter_of(
    label: Seq<char>,
    percent: Binary64,
    role: Role,
    value: Seq<char>,
    state: Option<SpanView>,
) -> LineView {
    let base = seq![gutter_of(label, NORMAL_GUTTER as nat)].push(solid("  "@, Role::Text)).push(solid(values::percent_text(percent) + "  "@ + value, role));
    let fragments = match state {
        Some(mark) => base.push(mark),
        None => base,
    };
    flexed(
        row_of(role, fragments),
        1,
        FlexView::Meter { permille: binary64::permille_of(percent) as u16, role },
        METER_MIN as nat,
        NORMAL_METER_MAX as nat,
    )
}

fn meter_row(
    label: &str,
    percent: Binary64,
    role: Role,
    value: &str,
    state: Option<CardSpan>,
) -> (line: CardLine)
    requires
        percent.finite(),
    ensures
        line@ == meter_of(
            label@,
            percent,
            role,
            value@,
            match state {
                Some(mark) => Some(mark@),
                None => None,
            },
        ),
{
    let mut fragments = no_spans();
    push_span(&mut fragments, gutter(label, NORMAL_GUTTER));
    push_span(&mut fragments, span("  ", Role::Text));
    let text = format_percent(percent).concat("  ").concat(value);
    push_span(&mut fragments, span(text.as_str(), role));
    if let Some(mark) = state {
        push_span(&mut fragments, mark);
    }
    with_flex(
        row(role, fragments),
        1,
        Flex::Meter { permille: percent.permille(), role },
        METER_MIN,
        NORMAL_METER_MAX,
    )
}

/// One row of the full card's metric table. Every row has the same fixed widths
/// so the flexible meter (or the header caption) lines up across the band.
pub open spec fn table_of(
    label: Seq<char>,
    name: Seq<char>,
    percent: Binary64,
    role: Role,
    detail: Seq<char>,
    full: bool,
) -> LineView {
    let shown = values::percent_text(percent);
    let short = cells::fitted(name, (TABLE_NAME - 1) as nat);
    let value = strings::padded_left(shown, TABLE_PERCENT as nat) + "  "@
        + strings::padded_right(detail, TABLE_DETAIL as nat);
    let state = if full {
        solid(strings::padded_right("  ▲ full"@, TABLE_STATE as nat), Role::Warning)
    } else {
        solid(strings::blank(TABLE_STATE as nat), Role::Text)
    };
    let line = flexed(
        row_of(
            role,
            seq![gutter_of(label, FULL_GUTTER as nat)].push(solid(strings::padded_right(short, TABLE_NAME as nat), Role::Text)).push(solid("  "@, Role::Text)).push(solid(value, role)).push(state),
        ),
        2,
        FlexView::Meter { permille: binary64::permille_of(percent) as u16, role },
        METER_MIN as nat,
        FULL_METER_MAX as nat,
    );
    compacted(line, stacked_of(label, name, percent, role, detail, full))
}

/// The stacked form: the state word sits before capacity so it survives fitting.
pub open spec fn stacked_of(
    label: Seq<char>,
    name: Seq<char>,
    percent: Binary64,
    role: Role,
    detail: Seq<char>,
    full: bool,
) -> Seq<SpanView> {
    let short = cells::fitted(name, (TABLE_NAME - 1) as nat);
    let head = seq![gutter_of(label, FULL_GUTTER as nat)];
    let named = if name.len() > 0 {
        head.push(solid(short + " "@, Role::Text))
    } else {
        head
    };
    let measured = named.push(solid(values::percent_text(percent), role));
    let marked = if full {
        measured.push(solid(" ▲ full"@, Role::Warning))
    } else {
        measured
    };
    if detail.len() > 0 {
        marked.push(solid(" · "@ + detail, role))
    } else {
        marked
    }
}

fn table_row(
    label: &str,
    name: &str,
    percent: Binary64,
    role: Role,
    detail: &str,
    full: bool,
) -> (line: CardLine)
    requires
        percent.finite(),
    ensures
        line@ == table_of(label@, name@, percent, role, detail@, full),
{
    let shown = format_percent(percent);
    let short = fit_middle(name, TABLE_NAME - 1);
    let value = pad_left(shown.as_str(), TABLE_PERCENT).concat("  ").concat(
        pad_right(detail, TABLE_DETAIL).as_str(),
    );
    let state = if full {
        span(pad_right("  ▲ full", TABLE_STATE).as_str(), Role::Warning)
    } else {
        span(spaces(TABLE_STATE).as_str(), Role::Text)
    };
    let mut compact = no_spans();
    push_span(&mut compact, gutter(label, FULL_GUTTER));
    if !name.is_empty() {
        push_span(&mut compact, span(short.clone().concat(" ").as_str(), Role::Text));
    }
    push_span(&mut compact, span(shown.as_str(), role));
    if full {
        push_span(&mut compact, span(" ▲ full", Role::Warning));
    }
    if !detail.is_empty() {
        push_span(&mut compact, span(" · ".to_owned().concat(detail).as_str(), role));
    }
    let mut fragments = no_spans();
    push_span(&mut fragments, gutter(label, FULL_GUTTER));
    push_span(&mut fragments, span(pad_right(short.as_str(), TABLE_NAME).as_str(), Role::Text));
    push_span(&mut fragments, span("  ", Role::Text));
    push_span(&mut fragments, span(value.as_str(), role));
    push_span(&mut fragments, state);
    let line = with_flex(
        row(role, fragments),
        2,
        Flex::Meter { permille: percent.permille(), role },
        METER_MIN,
        FULL_METER_MAX,
    );
    with_compact(line, compact)
}

pub open spec fn header_of(name: Seq<char>, detail: Seq<char>) -> LineView {
    let tail = "  "@ + strings::padded_left("%"@, TABLE_PERCENT as nat) + "  "@
        + strings::padded_right(detail, TABLE_DETAIL as nat) + strings::blank(
        TABLE_STATE as nat,
    );
    compacted(
        flexed(
            row_of(
                Role::Secondary,
                seq![gutter_of(""@, FULL_GUTTER as nat)].push(solid(strings::padded_right(name, TABLE_NAME as nat), Role::Secondary)).push(solid(tail, Role::Secondary)),
            ),
            2,
            FlexView::Caption("usage"@),
            METER_MIN as nat,
            FULL_METER_MAX as nat,
        ),
        Seq::empty(),
    )
}

fn table_header(name: &str, detail: &str) -> (line: CardLine)
    ensures
        line@ == header_of(name@, detail@),
{
    let mut tail = "  ".to_owned();
    tail.append(pad_left("%", TABLE_PERCENT).as_str());
    tail.append("  ");
    tail.append(pad_right(detail, TABLE_DETAIL).as_str());
    tail.append(spaces(TABLE_STATE).as_str());
    let mut fragments = no_spans();
    push_span(&mut fragments, gutter("", FULL_GUTTER));
    push_span(&mut fragments, span(pad_right(name, TABLE_NAME).as_str(), Role::Secondary));
    push_span(&mut fragments, span(tail.as_str(), Role::Secondary));
    let line = with_flex(
        row(Role::Secondary, fragments),
        2,
        Flex::Caption("usage"),
        METER_MIN,
        FULL_METER_MAX,
    );
    with_compact(line, no_spans())
}

/// The sum of two lengths, held at the largest `usize`.
pub open spec fn held(left: nat, right: nat) -> nat {
    if left + right > usize::MAX {
        usize::MAX as nat
    } else {
        left + right
    }
}

/// The cells of the spans together.
pub open spec fn spans_cells(spans: Seq<SpanView>) -> nat
    decreases spans.len(),
{
    if spans.len() == 0 {
        0
    } else {
        held(
            spans_cells(spans.drop_last()),
            cells::cell_width(spans.last().text),
        )
    }
}

/// The cells of the spans together.
pub fn spans_width(spans: &Vec<CardSpan>) -> (width: usize)
    ensures
        width == spans_cells(span_views(spans@)),
{
    let ghost views = span_views(spans@);
    let mut width: usize = 0;
    let mut i: usize = 0;
    while i < spans.len()
        invariant
            i <= spans@.len(),
            views == span_views(spans@),
            width == spans_cells(views.take(i as int)),
        decreases spans@.len() - i,
    {
        assert(views.take(i + 1).drop_last() =~= views.take(i as int));
        width = width.saturating_add(visible_width(spans[i].text.as_str()));
        i = i + 1;
    }
    assert(views.take(i as int) =~= views);
    width
}

/// A 24-hour ruler row and the hour axis beneath it. Both rows carry identical
/// fixed widths, so the axis labels sit under the ruler's quarter ticks.
pub open spec fn rulers_of(
    lead: Seq<SpanView>,
    percent: Binary64,
    tail: Seq<SpanView>,
    max: nat,
) -> Seq<LineView> {
    seq![flexed(
            row_of(Role::Time, lead + tail),
            lead.len(),
            FlexView::Ruler { permille: binary64::permille_of(percent) as u16 },
            RULER_MIN as nat,
            max,
        )].push(flexed(
            row_of(
                Role::Secondary,
                seq![solid(strings::blank(spans_cells(lead)), Role::Text)].push(solid(strings::blank(spans_cells(tail)), Role::Text)),
            ),
            1,
            FlexView::RulerAxis,
            RULER_MIN as nat,
            max,
        ))
}

fn ruler_rows(lead: Vec<CardSpan>, percent: Binary64, tail: Vec<CardSpan>, max: usize) -> (rows: Vec<
    CardLine,
>)
    requires
        percent.finite(),
    ensures
        line_views(rows@) == rulers_of(span_views(lead@), percent, span_views(tail@), max as nat),
{
    let mut blanks = no_spans();
    push_span(&mut blanks, span(spaces(spans_width(&lead)).as_str(), Role::Text));
    push_span(&mut blanks, span(spaces(spans_width(&tail)).as_str(), Role::Text));
    let at: usize = lead.len();
    let mut fragments = lead;
    append_spans(&mut fragments, tail);
    let mut rows = no_lines();
    push_line(
        &mut rows,
        with_flex(
            row(Role::Time, fragments),
            at,
            Flex::Ruler { permille: percent.permille() },
            RULER_MIN,
            max,
        ),
    );
    push_line(
        &mut rows,
        with_flex(row(Role::Secondary, blanks), 1, Flex::RulerAxis, RULER_MIN, max),
    );
    rows
}

/// Where the work happens, and on what: `path on branch · state`.
pub open spec fn place_spans(snapshot: Snapshot) -> Seq<SpanView> {
    let path = match values::workspace_text(snapshot) {
        Some(path) => seq![solid(values::short_path_text(path), Role::Primary)],
        None => Seq::empty(),
    };
    match snapshot.git {
        Some(git) => {
            let lead = if path.len() > 0 {
                path.push(solid(" on "@, Role::Secondary))
            } else {
                path
            };
            lead.push(solid(values::git_text(git), Role::Git))
        },
        None => path,
    }
}

pub open spec fn runtime_spans(snapshot: Snapshot, full: bool) -> Seq<SpanView> {
    match values::runtime_text(snapshot, full) {
        Some(value) => seq![solid(value.0, Role::Runtime(value.1))],
        None => Seq::empty(),
    }
}

/// `main` with `support` at its right; `support` alone where there is no `main`;
/// no row where there is neither.
pub open spec fn supported(
    role: Role,
    main: Seq<SpanView>,
    alone: Role,
    support: Seq<SpanView>,
) -> Seq<LineView> {
    if main.len() > 0 {
        seq![trailed(row_of(role, main), support)]
    } else if support.len() > 0 {
        seq![row_of(alone, support)]
    } else {
        Seq::empty()
    }
}

fn supported_rows(role: Role, main: Vec<CardSpan>, alone: Role, support: Vec<CardSpan>) -> (rows: Vec<
    CardLine,
>)
    ensures
        line_views(rows@) == supported(role, span_views(main@), alone, span_views(support@)),
{
    let mut rows = no_lines();
    if main.len() > 0 {
        push_line(&mut rows, with_trailing(row(role, main), support));
    } else if support.len() > 0 {
        push_line(&mut rows, row(alone, support));
    }
    rows
}

fn place_fragments(snapshot: &Snapshot) -> (spans: Vec<CardSpan>)
    ensures
        span_views(spans@) == place_spans(*snapshot),
{
    let mut place = no_spans();
    if let Some(path) = workspace(snapshot) {
        push_span(&mut place, span(shortest_path(path).as_str(), Role::Primary));
    }
    if let Some(git) = &snapshot.git {
        if place.len() > 0 {
            push_span(&mut place, span(" on ", Role::Secondary));
        }
        push_span(&mut place, span(git_value(git).as_str(), Role::Git));
    }
    place
}

fn runtime_fragments(snapshot: &Snapshot, full: bool) -> (spans: Vec<CardSpan>)
    ensures
        span_views(spans@) == runtime_spans(*snapshot, full),
{
    let mut spans = no_spans();
    if let Some(value) = runtime_value(snapshot, full) {
        push_span(&mut spans, span(value.0.as_str(), Role::Runtime(value.1)));
    }
    spans
}

/// `macOS 26 · Apple CPU @ 3200 MHz · 12.5%`.
pub open spec fn machine_spans(snapshot: Snapshot) -> Seq<SpanView> {
    let os = match snapshot.system.os {
        Some(os) => seq![solid(values::os_text(os), Role::Primary)],
        None => Seq::empty(),
    };
    let cpu = cpu_words(snapshot);
    if cpu.len() == 0 {
        os
    } else {
        let lead = if os.len() > 0 {
            os.push(solid(" · "@, Role::Secondary))
        } else {
            os
        };
        lead.push(solid(cpu, Role::System(SystemRole::Cpu)))
    }
}

/// The CPU's facts, or the empty text where there are none.
pub open spec fn cpu_words(snapshot: Snapshot) -> Seq<char> {
    match snapshot.system.cpu {
        Some(cpu) => values::cpu_text(cpu),
        None => Seq::empty(),
    }
}

fn cpu_facts(snapshot: &Snapshot) -> (text: String)
    ensures
        text@ == cpu_words(*snapshot),
{
    match &snapshot.system.cpu {
        Some(cpu) => cpu_value(cpu),
        None => String::new(),
    }
}

fn machine_fragments(snapshot: &Snapshot) -> (spans: Vec<CardSpan>)
    ensures
        span_views(spans@) == machine_spans(*snapshot),
{
    let mut machine = no_spans();
    if let Some(os) = &snapshot.system.os {
        push_span(&mut machine, span(format_os(os).as_str(), Role::Primary));
    }
    let cpu = cpu_facts(snapshot);
    if !cpu.as_str().is_empty() {
        if machine.len() > 0 {
            push_span(&mut machine, span(" · ", Role::Secondary));
        }
        push_span(&mut machine, span(cpu.as_str(), Role::System(SystemRole::Cpu)));
    }
    machine
}

/// `up 1d 1h` behind the word `label`.
pub open spec fn uptime_spans(snapshot: Snapshot, label: Seq<char>) -> Seq<SpanView> {
    match snapshot.system.uptime {
        Some(uptime) => seq![solid(label, Role::Secondary)].push(
            solid(values::uptime_text(uptime, false), Role::System(SystemRole::Health)),
        ),
        None => Seq::empty(),
    }
}

fn uptime_fragments(snapshot: &Snapshot, label: &str) -> (spans: Vec<CardSpan>)
    ensures
        span_views(spans@) == uptime_spans(*snapshot, label@),
{
    let mut spans = no_spans();
    if let Some(uptime) = snapshot.system.uptime {
        push_span(&mut spans, span(label, Role::Secondary));
        push_span(
            &mut spans,
            span(format_uptime(uptime, false).as_str(), Role::System(SystemRole::Health)),
        );
    }
    spans
}

/// `used/total`.
pub open spec fn usage_text(used: u64, total: u64, separator: Seq<char>) -> Seq<char> {
    values::bytes_text(used) + separator + values::bytes_text(total)
}

fn usage(used: u64, total: u64, separator: &str) -> (text: String)
    ensures
        text@ == usage_text(used, total, separator@),
{
    format_bytes(used).concat(separator).concat(format_bytes(total).as_str())
}

/// A gutter label and a value.
pub open spec fn guttered(label: Seq<char>, width: nat, value: Seq<char>, role: Role) -> LineView {
    row_of(role, seq![gutter_of(label, width)].push(solid(value, role)))
}

fn gutter_row(label: &str, width: usize, value: &str, role: Role) -> (line: CardLine)
    ensures
        line@ == guttered(label@, width as nat, value@, role),
{
    let mut fragments = no_spans();
    push_span(&mut fragments, gutter(label, width));
    push_span(&mut fragments, span(value, role));
    row(role, fragments)
}

pub open spec fn memory_rows(snapshot: Snapshot) -> Seq<LineView> {
    match snapshot.system.memory {
        Some(memory) => {
            let role = Role::System(SystemRole::Memory);
            let value = usage_text(memory.used_bytes, memory.total_bytes, "/"@);
            if memory.total_bytes > 0 {
                seq![
                    meter_of(
                        "mem"@,
                        binary64::percentage(memory.used_bytes as nat, memory.total_bytes as nat),
                        role,
                        value,
                        None,
                    ),
                ]
            } else {
                seq![guttered("mem"@, NORMAL_GUTTER as nat, value, role)]
            }
        },
        None => Seq::empty(),
    }
}

fn memory_lines(snapshot: &Snapshot) -> (rows: Vec<CardLine>)
    ensures
        line_views(rows@) == memory_rows(*snapshot),
{
    let mut rows = no_lines();
    if let Some(memory) = &snapshot.system.memory {
        let role = Role::System(SystemRole::Memory);
        let value = usage(memory.used_bytes, memory.total_bytes, "/");
        match percent_of(memory.used_bytes, memory.total_bytes) {
            Some(percent) => push_line(
                &mut rows,
                meter_row("mem", percent, role, value.as_str(), None),
            ),
            None => push_line(&mut rows, gutter_row("mem", NORMAL_GUTTER, value.as_str(), role)),
        }
    }
    rows
}

/// The first disk shown, with its mount unless that is the root.
pub open spec fn disk_rows(snapshot: Snapshot) -> Seq<LineView> {
    let shown = values::distinct_disks(snapshot.system.disks@);
    if shown.len() == 0 {
        Seq::empty()
    } else {
        let disk = shown[0];
        let role = Role::System(SystemRole::Disk);
        let capacity = usage_text(disk.used_bytes, disk.total_bytes, "/"@);
        let value = if disk.mount@ == "/"@ {
            capacity
        } else {
            capacity + " · "@ + disk.mount@
        };
        let percent = binary64::percentage(disk.used_bytes as nat, disk.total_bytes as nat);
        if disk.total_bytes > 0 {
            seq![
                meter_of(
                    "disk"@,
                    percent,
                    role,
                    value,
                    if percent.reaches(DISK_FULL_PERCENT as nat) {
                        Some(solid("  ▲ full"@, Role::Warning))
                    } else {
                        None
                    },
                ),
            ]
        } else {
            seq![guttered("disk"@, NORMAL_GUTTER as nat, value, role)]
        }
    }
}

fn disk_lines(snapshot: &Snapshot) -> (rows: Vec<CardLine>)
    ensures
        line_views(rows@) == disk_rows(*snapshot),
{
    let mut rows = no_lines();
    let shown = displayed_disks(&snapshot.system.disks);
    let ghost disks = Seq::new(shown@.len(), |i: int| snapshot.system.disks@[shown@[i] as int]);
    assert(disks == values::distinct_disks(snapshot.system.disks@));
    if shown.len() > 0 {
        let disk = &snapshot.system.disks[shown[0]];
        assert(*disk == disks[0]);
        let role = Role::System(SystemRole::Disk);
        let mut value = usage(disk.used_bytes, disk.total_bytes, "/");
        if !same(disk.mount.as_str(), "/") {
            value.append(" · ");
            value.append(disk.mount.as_str());
        }
        match percent_of(disk.used_bytes, disk.total_bytes) {
            Some(percent) => {
                let state = if percent.at_least(DISK_FULL_PERCENT) {
                    Some(span("  ▲ full", Role::Warning))
                } else {
                    None
                };
                push_line(&mut rows, meter_row("disk", percent, role, value.as_str(), state));
            },
            None => push_line(&mut rows, gutter_row("disk", NORMAL_GUTTER, value.as_str(), role)),
        }
    }
    rows
}

/// The day as a ruler where its progress is known, else the clock.
pub open spec fn clock_rows(snapshot: Snapshot) -> Seq<LineView> {
    let time = snapshot.time;
    match values::finite_of(time.day_progress_percent) {
        Some(day) => {
            let lead = match time.local {
                Some(local) => solid(local@ + " "@, Role::Time),
                None => gutter_of("day"@, NORMAL_GUTTER as nat),
            };
            let tail = match time.date {
                Some(date) => values::percent_text(day) + " · "@ + date@,
                None => values::percent_text(day),
            };
            rulers_of(
                seq![lead],
                day,
                seq![solid("  "@, Role::Text)].push(solid(tail, Role::Time)),
                NORMAL_RULER_MAX as nat,
            )
        },
        None => match values::time_text(snapshot) {
            Some(clock) => seq![guttered("time"@, NORMAL_GUTTER as nat, clock, Role::Time)],
            None => Seq::empty(),
        },
    }
}

fn clock_lines(snapshot: &Snapshot) -> (rows: Vec<CardLine>)
    ensures
        line_views(rows@) == clock_rows(*snapshot),
{
    match finite(snapshot.time.day_progress_percent) {
        Some(day) => {
            let mut lead = no_spans();
            match &snapshot.time.local {
                Some(local) => push_span(
                    &mut lead,
                    span(local.clone().concat(" ").as_str(), Role::Time),
                ),
                None => push_span(&mut lead, gutter("day", NORMAL_GUTTER)),
            }
            let mut value = format_percent(day);
            if let Some(date) = &snapshot.time.date {
                value.append(" · ");
                value.append(date.as_str());
            }
            let mut tail = no_spans();
            push_span(&mut tail, span("  ", Role::Text));
            push_span(&mut tail, span(value.as_str(), Role::Time));
            ruler_rows(lead, day, tail, NORMAL_RULER_MAX)
        },
        None => {
            let mut rows = no_lines();
            if let Some(clock) = time_value(snapshot) {
                push_line(
                    &mut rows,
                    gutter_row("time", NORMAL_GUTTER, clock.as_str(), Role::Time),
                );
            }
            rows
        },
    }
}

/// Lines of code and line coverage, as far as they are known.
pub open spec fn summary_parts(project: Project) -> Seq<Seq<char>> {
    let none = Seq::<Seq<char>>::empty();
    let counted = match project.loc {
        Some(loc) => none.push(
            strings::decimal_text(loc.total as nat) + " LOC"@ + (if loc.truncated {
                " · partial"@
            } else {
                ""@
            }),
        ),
        None => none,
    };
    match project.coverage {
        Some(coverage) => match values::finite_of(coverage.line_percent) {
            Some(percent) => counted.push(
                "coverage "@ + values::percent_text(percent) + (match coverage.stale {
                    Freshness::Stale => " · stale"@,
                    Freshness::Unknown => " · freshness unknown"@,
                    Freshness::Current => ""@,
                }),
            ),
            None => counted,
        },
        None => counted,
    }
}

pub open spec fn summary_rows(snapshot: Snapshot) -> Seq<LineView> {
    match snapshot.project {
        Some(project) => {
            let parts = summary_parts(project);
            if parts.len() == 0 {
                Seq::empty()
            } else {
                seq![
                    labelled_of(
                        "project"@,
                        strings::joined(parts, " · "@),
                        match project.coverage {
                            Some(coverage) => values::coverage_role_of(coverage.stale),
                            None => Role::Secondary,
                        },
                    ),
                ]
            }
        },
        None => Seq::empty(),
    }
}

fn project_summary(project: &Project) -> (line: Option<CardLine>)
    ensures
        line is Some == (summary_parts(*project).len() > 0),
        line is Some ==> line->0@ == labelled_of(
            "project"@,
            strings::joined(summary_parts(*project), " · "@),
            match project.coverage {
                Some(coverage) => values::coverage_role_of(coverage.stale),
                None => Role::Secondary,
            },
        ),
{
    let mut parts = no_texts();
    if let Some(loc) = &project.loc {
        let mut text = decimal(loc.total);
        text.append(" LOC");
        text.append(
            if loc.truncated {
                " · partial"
            } else {
                ""
            },
        );
        push_text(&mut parts, text);
    }
    let mut role = Role::Secondary;
    if let Some(coverage) = &project.coverage {
        role = coverage_role(coverage);
        if let Some(percent) = finite(coverage.line_percent) {
            let mut text = "coverage ".to_owned();
            text.append(format_percent(percent).as_str());
            text.append(
                match coverage.stale {
                    Freshness::Stale => " · stale",
                    Freshness::Unknown => " · freshness unknown",
                    Freshness::Current => "",
                },
            );
            push_text(&mut parts, text);
        }
    }
    assert(strings::texts(parts@) == summary_parts(*project));
    assert(parts@.len() == summary_parts(*project).len());
    if parts.len() == 0 {
        None
    } else {
        Some(labelled("project", join(&parts, " · ").as_str(), role))
    }
}

pub open spec fn severity_rank(severity: DiagnosticSeverity) -> int {
    match severity {
        DiagnosticSeverity::Error => 2,
        DiagnosticSeverity::Warning => 1,
        DiagnosticSeverity::Info => 0,
    }
}

/// Where the last of the gravest diagnostics stands.
pub open spec fn gravest(diagnostics: Seq<Diagnostic>) -> int
    decreases diagnostics.len(),
{
    if diagnostics.len() <= 1 {
        0
    } else {
        let before = gravest(diagnostics.drop_last());
        if severity_rank(diagnostics.last().severity) >= severity_rank(
            diagnostics[before].severity,
        ) {
            diagnostics.len() - 1
        } else {
            before
        }
    }
}

fn rank(severity: DiagnosticSeverity) -> (value: u8)
    ensures
        value == severity_rank(severity),
{
    match severity {
        DiagnosticSeverity::Error => 2,
        DiagnosticSeverity::Warning => 1,
        DiagnosticSeverity::Info => 0,
    }
}

pub open spec fn warning_rows(snapshot: Snapshot) -> Seq<LineView> {
    let diagnostics = snapshot.diagnostics@;
    if diagnostics.len() == 0 {
        Seq::empty()
    } else {
        let diagnostic = diagnostics[gravest(diagnostics)];
        seq![
            labelled_of(
                "DIAG"@,
                diagnostic.message@ + " · "@ + values::severity_text(diagnostic.severity),
                values::diagnostic_role_of(diagnostic.severity),
            ),
        ]
    }
}

fn warning_lines(snapshot: &Snapshot) -> (rows: Vec<CardLine>)
    ensures
        line_views(rows@) == warning_rows(*snapshot),
{
    let mut rows = no_lines();
    let diagnostics = &snapshot.diagnostics;
    if diagnostics.len() > 0 {
        let mut worst: usize = 0;
        let mut i: usize = 1;
        assert(diagnostics@.take(1).len() == 1);
        while i < diagnostics.len()
            invariant
                1 <= i <= diagnostics@.len(),
                worst < i,
                worst == gravest(diagnostics@.take(i as int)),
            decreases diagnostics@.len() - i,
        {
            assert(diagnostics@.take(i + 1).drop_last() =~= diagnostics@.take(i as int));
            if rank(diagnostics[i].severity) >= rank(diagnostics[worst].severity) {
                worst = i;
            }
            i = i + 1;
        }
        assert(diagnostics@.take(i as int) =~= diagnostics@);
        let diagnostic = &diagnostics[worst];
        let text = diagnostic.message.clone().concat(" · ").concat(
            severity_name(diagnostic.severity),
        );
        push_line(
            &mut rows,
            labelled("DIAG", text.as_str(), diagnostic_role(diagnostic.severity)),
        );
    }
    rows
}

pub const IDENTITY_ROWS: usize = 9;

/// The normal card: a compact rail of at most nine rows.
pub open spec fn normal_identity_of(snapshot: Snapshot) -> Seq<LineView> {
    let health = Role::System(SystemRole::Health);
    let rows = supported(
        Role::Primary,
        place_spans(snapshot),
        Role::Primary,
        runtime_spans(snapshot, false),
    ) + supported(health, machine_spans(snapshot), health, uptime_spans(snapshot, "up "@))
        + memory_rows(snapshot) + disk_rows(snapshot) + clock_rows(snapshot) + summary_rows(
        snapshot,
    ) + warning_rows(snapshot);
    if rows.len() > IDENTITY_ROWS {
        rows.take(IDENTITY_ROWS as int)
    } else {
        rows
    }
}

fn normal_identity(snapshot: &Snapshot) -> (rows: Vec<CardLine>)
    ensures
        line_views(rows@) == normal_identity_of(*snapshot),
{
    let health = Role::System(SystemRole::Health);
    let mut identity = supported_rows(
        Role::Primary,
        place_fragments(snapshot),
        Role::Primary,
        runtime_fragments(snapshot, false),
    );
    append_lines(
        &mut identity,
        supported_rows(
            health,
            machine_fragments(snapshot),
            health,
            uptime_fragments(snapshot, "up "),
        ),
    );
    append_lines(&mut identity, memory_lines(snapshot));
    append_lines(&mut identity, disk_lines(snapshot));
    append_lines(&mut identity, clock_lines(snapshot));
    let mut summary = no_lines();
    if let Some(project) = &snapshot.project {
        if let Some(line) = project_summary(project) {
            push_line(&mut summary, line);
        }
    }
    assert(line_views(summary@) == summary_rows(*snapshot));
    append_lines(&mut identity, summary);
    append_lines(&mut identity, warning_lines(snapshot));
    let ghost all = line_views(identity@);
    if identity.len() > IDENTITY_ROWS {
        identity.truncate(IDENTITY_ROWS);
        assert(line_views(identity@) =~= all.take(IDENTITY_ROWS as int));
    }
    identity
}

/// The full card: a compact workspace, Git and runtime header above the bands.
pub open spec fn full_identity_of(snapshot: Snapshot) -> Seq<LineView> {
    let runtime = runtime_spans(snapshot, true);
    let head = match snapshot.git {
        Some(git) => {
            let base = seq![gutter_of("git"@, FULL_GUTTER as nat)].push(
                solid(values::git_text(git), Role::Git),
            );
            let spans = match git.upstream {
                Some(upstream) => base.push(solid(" → "@, Role::Secondary)).push(
                    solid(upstream@, Role::Git),
                ),
                None => base,
            };
            seq![trailed(row_of(Role::Git, spans), runtime)]
        },
        None => supported(Role::Primary, Seq::empty(), Role::Primary, runtime),
    };
    let place = match values::workspace_text(snapshot) {
        Some(path) => match snapshot.system.os {
            Some(os) => Some(values::short_path_text(path) + " · "@ + values::os_text(os)),
            None => Some(values::short_path_text(path)),
        },
        None => match snapshot.system.os {
            Some(os) => Some(values::os_text(os)),
            None => None,
        },
    };
    match place {
        Some(place) => head.push(guttered("dir"@, FULL_GUTTER as nat, place, Role::Primary)),
        None => head,
    }
}

fn full_identity(snapshot: &Snapshot) -> (rows: Vec<CardLine>)
    ensures
        line_views(rows@) == full_identity_of(*snapshot),
{
    let runtime = runtime_fragments(snapshot, true);
    let mut identity = no_lines();
    match &snapshot.git {
        Some(git) => {
            let mut fragments = no_spans();
            push_span(&mut fragments, gutter("git", FULL_GUTTER));
            push_span(&mut fragments, span(git_value(git).as_str(), Role::Git));
            if let Some(upstream) = &git.upstream {
                push_span(&mut fragments, span(" → ", Role::Secondary));
                push_span(&mut fragments, span(upstream.as_str(), Role::Git));
            }
            push_line(&mut identity, with_trailing(row(Role::Git, fragments), runtime));
        },
        None => {
            if runtime.len() > 0 {
                push_line(&mut identity, row(Role::Primary, runtime));
            }
        },
    }
    let path = match workspace(snapshot) {
        Some(path) => Some(shortest_path(path)),
        None => None,
    };
    let place = match &snapshot.system.os {
        Some(os) => Some(
            match path {
                Some(path) => path.concat(" · ").concat(format_os(os).as_str()),
                None => format_os(os),
            },
        ),
        None => path,
    };
    if let Some(place) = place {
        push_line(&mut identity, gutter_row("dir", FULL_GUTTER, place.as_str(), Role::Primary));
    }
    identity
}

/// Memory as a table row, or as plain detail where its size is unknown.
pub open spec fn memory_table(snapshot: Snapshot) -> Seq<LineView> {
    match snapshot.system.memory {
        Some(memory) => {
            let role = Role::System(SystemRole::Memory);
            let detail = usage_text(memory.used_bytes, memory.total_bytes, " / "@);
            if memory.total_bytes > 0 {
                seq![
                    table_of(
                        "mem"@,
                        ""@,
                        binary64::percentage(memory.used_bytes as nat, memory.total_bytes as nat),
                        role,
                        detail,
                        false,
                    ),
                ]
            } else {
                seq![guttered("mem"@, FULL_GUTTER as nat, detail, role)]
            }
        },
        None => Seq::empty(),
    }
}

/// The table row of one disk.
pub open spec fn disk_table_row(disk: Disk, first: bool) -> LineView {
    let role = Role::System(SystemRole::Disk);
    let label = if first {
        "disk"@
    } else {
        ""@
    };
    let detail = usage_text(disk.used_bytes, disk.total_bytes, " / "@);
    let percent = binary64::percentage(disk.used_bytes as nat, disk.total_bytes as nat);
    if disk.total_bytes > 0 {
        table_of(
            label,
            disk.mount@,
            percent,
            role,
            detail,
            percent.reaches(DISK_FULL_PERCENT as nat),
        )
    } else {
        row_of(
            Role::Text,
            seq![gutter_of(label, FULL_GUTTER as nat)].push(
                solid(
                    strings::padded_right(
                        cells::fitted(disk.mount@, (TABLE_NAME - 1) as nat),
                        TABLE_NAME as nat,
                    ),
                    Role::Text,
                ),
            ).push(solid(detail, role)),
        )
    }
}

pub open spec fn disk_table(disks: Seq<Disk>) -> Seq<LineView> {
    if disks.len() == 0 {
        Seq::empty()
    } else {
        seq![header_of("mount"@, "used / size"@)] + Seq::new(
            disks.len(),
            |i: int| disk_table_row(disks[i], i == 0),
        )
    }
}

/// The rows of the band `system & health`; none where no fact is known.
pub open spec fn system_rows(snapshot: Snapshot) -> Seq<LineView> {
    let cpu = cpu_words(snapshot);
    let cpu_spans = if cpu.len() == 0 {
        Seq::empty()
    } else {
        seq![gutter_of("cpu"@, FULL_GUTTER as nat)].push(
            solid(cpu, Role::System(SystemRole::Cpu)),
        )
    };
    supported(
        Role::System(SystemRole::Cpu),
        cpu_spans,
        Role::System(SystemRole::Health),
        uptime_spans(snapshot, "uptime "@),
    ) + memory_table(snapshot) + disk_table(values::distinct_disks(snapshot.system.disks@))
}

fn disk_table_line(disk: &Disk, first: bool) -> (line: CardLine)
    ensures
        line@ == disk_table_row(*disk, first),
{
    let role = Role::System(SystemRole::Disk);
    let label = if first {
        "disk"
    } else {
        ""
    };
    let detail = usage(disk.used_bytes, disk.total_bytes, " / ");
    match percent_of(disk.used_bytes, disk.total_bytes) {
        Some(percent) => table_row(
            label,
            disk.mount.as_str(),
            percent,
            role,
            detail.as_str(),
            percent.at_least(DISK_FULL_PERCENT),
        ),
        None => {
            let mut fragments = no_spans();
            push_span(&mut fragments, gutter(label, FULL_GUTTER));
            let short = fit_middle(disk.mount.as_str(), TABLE_NAME - 1);
            push_span(
                &mut fragments,
                span(pad_right(short.as_str(), TABLE_NAME).as_str(), Role::Text),
            );
            push_span(&mut fragments, span(detail.as_str(), role));
            row(Role::Text, fragments)
        },
    }
}

fn system_details(snapshot: &Snapshot) -> (rows: Vec<CardLine>)
    ensures
        line_views(rows@) == system_rows(*snapshot),
{
    let mut cpu_spans = no_spans();
    let cpu = cpu_facts(snapshot);
    if !cpu.as_str().is_empty() {
        push_span(&mut cpu_spans, gutter("cpu", FULL_GUTTER));
        push_span(&mut cpu_spans, span(cpu.as_str(), Role::System(SystemRole::Cpu)));
    }
    let mut rows = supported_rows(
        Role::System(SystemRole::Cpu),
        cpu_spans,
        Role::System(SystemRole::Health),
        uptime_fragments(snapshot, "uptime "),
    );
    let ghost head = line_views(rows@);
    if let Some(memory) = &snapshot.system.memory {
        let role = Role::System(SystemRole::Memory);
        let detail = usage(memory.used_bytes, memory.total_bytes, " / ");
        match percent_of(memory.used_bytes, memory.total_bytes) {
            Some(percent) => push_line(
                &mut rows,
                table_row("mem", "", percent, role, detail.as_str(), false),
            ),
            None => push_line(&mut rows, gutter_row("mem", FULL_GUTTER, detail.as_str(), role)),
        }
    }
    assert(line_views(rows@) =~= head + memory_table(*snapshot)) by {
        reveal_strlit("");
    }
    let ghost middle = line_views(rows@);
    let shown = displayed_disks(&snapshot.system.disks);
    let ghost disks = Seq::new(shown@.len(), |i: int| snapshot.system.disks@[shown@[i] as int]);
    assert(disks == values::distinct_disks(snapshot.system.disks@));
    if shown.len() > 0 {
        push_line(&mut rows, table_header("mount", "used / size"));
    }
    assert(disk_table(disks).take(
        if disks.len() > 0 {
            1
        } else {
            0
        },
    ) =~= if disks.len() > 0 {
        seq![header_of("mount"@, "used / size"@)]
    } else {
        Seq::empty()
    });
    let mut i: usize = 0;
    while i < shown.len()
        invariant
            i <= shown@.len(),
            disks == Seq::new(
                shown@.len(),
                |j: int| snapshot.system.disks@[shown@[j] as int],
            ),
            forall|j: int|
                0 <= j < shown@.len() ==> #[trigger] shown@[j] < snapshot.system.disks@.len(),
            line_views(rows@) == middle + disk_table(disks).take(
                if disks.len() > 0 {
                    i + 1
                } else {
                    0
                },
            ),
        decreases shown@.len() - i,
    {
        let disk = &snapshot.system.disks[shown[i]];
        assert(*disk == disks[i as int]);
        push_line(&mut rows, disk_table_line(disk, i == 0));
        i = i + 1;
        assert(disk_table(disks).take(i + 1) =~= disk_table(disks).take(i as int).push(
            disk_table_row(disks[i - 1], i - 1 == 0),
        ));
        assert(line_views(rows@) =~= middle + disk_table(disks).take(i + 1));
    }
    assert(disk_table(disks).take(disk_table(disks).len() as int) =~= disk_table(disks));
    rows
}

/// The named Git counts, then how far ahead, then the detached commit.
pub open spec fn git_counts(git: Git) -> Seq<(Seq<char>, Seq<char>)> {
    let base = Seq::<(Seq<char>, Seq<char>)>::empty().push(
        ("staged"@, strings::decimal_text(git.staged as nat)),
    ).push(("unstaged"@, strings::decimal_text(git.unstaged as nat))).push(
        ("conflicts"@, strings::decimal_text(git.conflicts as nat)),
    );
    let ahead = match git.ahead {
        Some(ahead) => if ahead > 0 {
            base.push(("ahead"@, strings::decimal_text(ahead as nat)))
        } else {
            base
        },
        None => base,
    };
    match git.head {
        GitHead::Detached { commit } => ahead.push(("detached at"@, commit@)),
        _ => ahead,
    }
}

pub open spec fn count_spans(counts: Seq<(Seq<char>, Seq<char>)>) -> Seq<SpanView>
    decreases counts.len(),
{
    if counts.len() == 0 {
        seq![gutter_of("git"@, FULL_GUTTER as nat)]
    } else {
        let gap = if counts.len() == 1 {
            ""@
        } else {
            "    "@
        };
        count_spans(counts.drop_last()).push(
            solid(gap + counts.last().0 + " "@, Role::Secondary),
        ).push(solid(counts.last().1, Role::Git))
    }
}

fn push_count(fragments: &mut Vec<CardSpan>, first: bool, name: &str, value: &str)
    ensures
        span_views(final(fragments)@) == span_views(old(fragments)@).push(
            solid(
                (if first {
                    ""@
                } else {
                    "    "@
                }) + name@ + " "@,
                Role::Secondary,
            ),
        ).push(solid(value@, Role::Git)),
{
    let gap = if first {
        ""
    } else {
        "    "
    };
    let label = gap.to_owned().concat(name).concat(" ");
    push_span(fragments, span(label.as_str(), Role::Secondary));
    push_span(fragments, span(value, Role::Git));
}

fn count_line(git: &Git) -> (line: CardLine)
    ensures
        line@ == row_of(Role::Git, count_spans(git_counts(*git))),
{
    let mut fragments = no_spans();
    push_span(&mut fragments, gutter("git", FULL_GUTTER));
    let ghost none = Seq::<(Seq<char>, Seq<char>)>::empty();
    assert(span_views(fragments@) == count_spans(none));
    let ghost one = none.push(("staged"@, strings::decimal_text(git.staged as nat)));
    assert(one.drop_last() =~= none);
    push_count(&mut fragments, true, "staged", decimal(git.staged as u64).as_str());
    assert(span_views(fragments@) == count_spans(one));
    let ghost two = one.push(("unstaged"@, strings::decimal_text(git.unstaged as nat)));
    assert(two.drop_last() =~= one);
    push_count(&mut fragments, false, "unstaged", decimal(git.unstaged as u64).as_str());
    assert(span_views(fragments@) == count_spans(two));
    let ghost three = two.push(("conflicts"@, strings::decimal_text(git.conflicts as nat)));
    assert(three.drop_last() =~= two);
    push_count(&mut fragments, false, "conflicts", decimal(git.conflicts as u64).as_str());
    assert(span_views(fragments@) == count_spans(three));
    let ghost mut counts = three;
    if let Some(ahead) = git.ahead {
        if ahead > 0 {
            proof {
                counts = three.push(("ahead"@, strings::decimal_text(ahead as nat)));
                assert(counts.drop_last() =~= three);
            }
            push_count(&mut fragments, false, "ahead", decimal(ahead as u64).as_str());
        }
    }
    assert(span_views(fragments@) == count_spans(counts));
    if let GitHead::Detached { commit } = &git.head {
        let ghost more = counts.push(("detached at"@, commit@));
        assert(more.drop_last() =~= counts);
        push_count(&mut fragments, false, "detached at", commit.as_str());
        assert(span_views(fragments@) == count_spans(more));
    }
    row(Role::Git, fragments)
}

/// The full card's row of one diagnostic.
pub open spec fn diagnostic_row(diagnostic: Diagnostic) -> LineView {
    guttered(
        "diag"@,
        FULL_GUTTER as nat,
        diagnostic.code@ + " "@ + values::severity_text(diagnostic.severity) + " · "@
            + diagnostic.message@,
        values::diagnostic_role_of(diagnostic.severity),
    )
}

/// The rows of the band `active context`; none where no fact is known.
pub open spec fn context_rows(snapshot: Snapshot) -> Seq<LineView> {
    let clock = match values::time_text(snapshot) {
        Some(clock) => seq![guttered("time"@, FULL_GUTTER as nat, clock, Role::Time)],
        None => Seq::empty(),
    };
    let day = match values::finite_of(snapshot.time.day_progress_percent) {
        Some(day) => rulers_of(
            seq![gutter_of("day"@, FULL_GUTTER as nat)],
            day,
            seq![solid("  "@, Role::Text)].push(solid(values::percent_text(day), Role::Time)),
            FULL_RULER_MAX as nat,
        ),
        None => Seq::empty(),
    };
    let git = match snapshot.git {
        Some(git) => seq![row_of(Role::Git, count_spans(git_counts(git)))],
        None => Seq::empty(),
    };
    clock + day + git + Seq::new(
        snapshot.diagnostics@.len(),
        |i: int| diagnostic_row(snapshot.diagnostics@[i]),
    )
}

fn active_context(snapshot: &Snapshot) -> (rows: Vec<CardLine>)
    ensures
        line_views(rows@) == context_rows(*snapshot),
{
    let mut rows = no_lines();
    if let Some(clock) = time_value(snapshot) {
        push_line(&mut rows, gutter_row("time", FULL_GUTTER, clock.as_str(), Role::Time));
    }
    let mut days = no_lines();
    if let Some(day) = finite(snapshot.time.day_progress_percent) {
        let mut lead = no_spans();
        push_span(&mut lead, gutter("day", FULL_GUTTER));
        let mut tail = no_spans();
        push_span(&mut tail, span("  ", Role::Text));
        push_span(&mut tail, span(format_percent(day).as_str(), Role::Time));
        days = ruler_rows(lead, day, tail, FULL_RULER_MAX);
    }
    append_lines(&mut rows, days);
    let mut counts = no_lines();
    if let Some(git) = &snapshot.git {
        push_line(&mut counts, count_line(git));
    }
    append_lines(&mut rows, counts);
    let ghost head = line_views(rows@);
    let ghost all = Seq::new(
        snapshot.diagnostics@.len(),
        |i: int| diagnostic_row(snapshot.diagnostics@[i]),
    );
    let mut i: usize = 0;
    assert(line_views(rows@) =~= head + all.take(0));
    while i < snapshot.diagnostics.len()
        invariant
            i <= snapshot.diagnostics@.len(),
            all == Seq::new(
                snapshot.diagnostics@.len(),
                |j: int| diagnostic_row(snapshot.diagnostics@[j]),
            ),
            line_views(rows@) == head + all.take(i as int),
        decreases snapshot.diagnostics@.len() - i,
    {
        let diagnostic = &snapshot.diagnostics[i];
        let mut text = diagnostic.code.clone();
        text.append(" ");
        text.append(severity_name(diagnostic.severity));
        text.append(" · ");
        text.append(diagnostic.message.as_str());
        push_line(
            &mut rows,
            gutter_row("diag", FULL_GUTTER, text.as_str(), diagnostic_role(diagnostic.severity)),
        );
        i = i + 1;
        assert(line_views(rows@) =~= head + all.take(i as int));
    }
    assert(all.take(i as int) =~= all);
    rows
}

/// The entries that count at least one line.
pub open spec fn counted(entries: Seq<LanguageLoc>) -> Seq<LanguageLoc>
    decreases entries.len(),
{
    if entries.len() == 0 {
        Seq::empty()
    } else if entries.last().lines > 0 {
        counted(entries.drop_last()).push(entries.last())
    } else {
        counted(entries.drop_last())
    }
}

/// The first position at or after `from` whose entry has fewer lines.
pub open spec fn rank_from(entries: Seq<LanguageLoc>, lines: u64, from: int) -> int
    decreases entries.len() - from,
{
    if from >= entries.len() {
        entries.len() as int
    } else if entries[from].lines < lines {
        from
    } else {
        rank_from(entries, lines, from + 1)
    }
}

/// The entries by falling line count; equal counts stay in their order.
pub open spec fn ranked(entries: Seq<LanguageLoc>) -> Seq<LanguageLoc>
    decreases entries.len(),
{
    if entries.len() == 0 {
        Seq::empty()
    } else {
        let before = ranked(entries.drop_last());
        before.insert(rank_from(before, entries.last().lines, 0), entries.last())
    }
}

pub open spec fn language_role(entry: LanguageLoc) -> Role {
    Role::Runtime(theme::runtime_role_of(entry.language@, entry.language@))
}

proof fn lemma_rank_bounds(entries: Seq<LanguageLoc>, lines: u64, from: int)
    requires
        0 <= from <= entries.len(),
    ensures
        from <= rank_from(entries, lines, from) <= entries.len(),
        forall|i: int| from <= i < rank_from(entries, lines, from) ==> entries[i].lines >= lines,
        rank_from(entries, lines, from) < entries.len() ==> entries[rank_from(
            entries,
            lines,
            from,
        )].lines < lines,
    decreases entries.len() - from,
{
    if from < entries.len() && entries[from].lines >= lines {
        lemma_rank_bounds(entries, lines, from + 1);
    }
}

/// The languages of the composition come largest first, and each of them is one
/// that was counted, as often as it was.
pub proof fn law_languages_are_ranked(entries: Seq<LanguageLoc>)
    ensures
        ranked(entries).to_multiset() == entries.to_multiset(),
        forall|i: int, j: int|
            0 <= i <= j < ranked(entries).len() ==> ranked(entries)[i].lines
                >= ranked(entries)[j].lines,
    decreases entries.len(),
{
    broadcast use vstd::seq_lib::group_to_multiset_ensures;

    if entries.len() > 0 {
        let last = entries.last();
        let before = ranked(entries.drop_last());
        law_languages_are_ranked(entries.drop_last());
        let at = rank_from(before, last.lines, 0);
        lemma_rank_bounds(before, last.lines, 0);
        assert(entries =~= entries.drop_last().push(last));
        before.insert_ensures(at, last);
        vstd::seq_lib::to_multiset_insert(before, at, last);
        let after = ranked(entries);
        assert forall|i: int, j: int| 0 <= i <= j < after.len() implies after[i].lines
            >= after[j].lines by {
            let first = if i < at {
                i
            } else {
                i - 1
            };
            let second = if j < at {
                j
            } else {
                j - 1
            };
            if i != at && j != at {
                assert(after[i] == before[first] && after[j] == before[second]);
            } else if i == at && j > at {
                assert(after[j] == before[j - 1]);
                assert(before[at].lines >= before[j - 1].lines);
            } else if j == at && i < at {
                assert(after[i] == before[i]);
            }
        }
    } else {
        assert(ranked(entries) =~= entries);
    }
}

/// The share of one language in the total, where there is a total.
pub open spec fn share_text(lines: u64, total: u64) -> Seq<char> {
    if total > 0 {
        " · "@ + values::percent_text(binary64::percentage(lines as nat, total as nat))
    } else {
        Seq::empty()
    }
}

pub open spec fn language_row(entry: LanguageLoc, total: u64) -> LineView {
    let role = language_role(entry);
    row_of(
        role,
        seq![gutter_of(""@, FULL_GUTTER as nat)].push(solid("■ "@, role)).push(
            solid(entry.language@ + " "@ + strings::decimal_text(entry.lines as nat), role),
        ).push(solid(" lines"@, Role::Text)).push(
            solid(share_text(entry.lines, total), Role::Secondary),
        ),
    )
}

pub open spec fn stack_parts(entries: Seq<LanguageLoc>) -> Seq<(u64, Role)> {
    Seq::new(entries.len(), |i: int| (entries[i].lines, language_role(entries[i])))
}

pub open spec fn stack_row(entries: Seq<LanguageLoc>) -> LineView {
    flexed(
        row_of(Role::Primary, seq![gutter_of(""@, FULL_GUTTER as nat)]),
        1,
        FlexView::Stack(stack_parts(entries)),
        STACK_MIN as nat,
        STACK_MAX as nat,
    )
}

pub open spec fn total_row(loc: Loc) -> LineView {
    row_of(
        Role::Primary,
        seq![gutter_of("loc"@, FULL_GUTTER as nat)].push(
            solid(strings::decimal_text(loc.total as nat), Role::Primary),
        ).push(solid(" lines"@, Role::Secondary)).push(
            solid(
                if loc.truncated {
                    " · partial"@
                } else {
                    ""@
                },
                Role::Secondary,
            ),
        ),
    )
}

/// The line count, the composition bar, and a row for each language.
pub open spec fn loc_rows(loc: Loc) -> Seq<LineView> {
    let languages = ranked(counted(loc.by_language@));
    let head = seq![total_row(loc)];
    if languages.len() == 0 {
        head
    } else {
        head.push(stack_row(languages)) + Seq::new(
            languages.len(),
            |i: int| language_row(languages[i], loc.total),
        )
    }
}

/// The positions of the counted languages, ranked.
fn ranked_languages(entries: &Vec<LanguageLoc>) -> (order: Vec<usize>)
    ensures
        forall|i: int| 0 <= i < order@.len() ==> #[trigger] order@[i] < entries@.len(),
        Seq::new(order@.len(), |i: int| entries@[order@[i] as int]) == ranked(counted(entries@)),
{
    let mut order: Vec<usize> = Vec::new();
    let mut next: usize = 0;
    assert(entries@.take(0) =~= Seq::empty());
    assert(Seq::new(order@.len(), |i: int| entries@[order@[i] as int]) =~= ranked(
        counted(entries@.take(0)),
    ));
    while next < entries.len()
        invariant
            next <= entries@.len(),
            forall|i: int| 0 <= i < order@.len() ==> #[trigger] order@[i] < entries@.len(),
            Seq::new(order@.len(), |i: int| entries@[order@[i] as int]) == ranked(
                counted(entries@.take(next as int)),
            ),
        decreases entries@.len() - next,
    {
        let ghost before = ranked(counted(entries@.take(next as int)));
        let lines: u64 = entries[next].lines;
        assert(entries@.take(next + 1).drop_last() =~= entries@.take(next as int));
        if lines > 0 {
            let mut at: usize = 0;
            while at < order.len() && entries[order[at]].lines >= lines
                invariant
                    at <= order@.len(),
                    forall|i: int| 0 <= i < order@.len() ==> #[trigger] order@[i] < entries@.len(),
                    before == Seq::new(order@.len(), |i: int| entries@[order@[i] as int]),
                    rank_from(before, lines, 0) == rank_from(before, lines, at as int),
                decreases order@.len() - at,
            {
                assert(before[at as int] == entries@[order@[at as int] as int]);
                at = at + 1;
            }
            assert(at < order@.len() ==> before[at as int] == entries@[order@[at as int] as int]);
            let ghost old_order = order@;
            order.insert(at, next);
            let ghost kept = counted(entries@.take(next as int));
            assert(counted(entries@.take(next + 1)) == kept.push(entries@[next as int]));
            assert(kept.push(entries@[next as int]).drop_last() =~= kept);
            assert forall|i: int| 0 <= i < order@.len() implies #[trigger] order@[i]
                < entries@.len() by {
                if i < at {
                    assert(order@[i] == old_order[i]);
                } else if i > at {
                    assert(order@[i] == old_order[i - 1]);
                }
            }
            assert(Seq::new(order@.len(), |i: int| entries@[order@[i] as int]) =~= before.insert(
                at as int,
                entries@[next as int],
            ));
        }
        next = next + 1;
    }
    assert(entries@.take(next as int) =~= entries@);
    order
}

fn language_line(entry: &LanguageLoc, total: u64) -> (line: CardLine)
    ensures
        line@ == language_row(*entry, total),
{
    let role = Role::Runtime(runtime_role(entry.language.as_str(), entry.language.as_str()));
    let share = match percent_of(entry.lines, total) {
        Some(percent) => " · ".to_owned().concat(format_percent(percent).as_str()),
        None => String::new(),
    };
    let mut text = entry.language.clone();
    text.append(" ");
    text.append(decimal(entry.lines).as_str());
    let mut fragments = no_spans();
    push_span(&mut fragments, gutter("", FULL_GUTTER));
    push_span(&mut fragments, span("■ ", role));
    push_span(&mut fragments, span(text.as_str(), role));
    push_span(&mut fragments, span(" lines", Role::Text));
    push_span(&mut fragments, span(share.as_str(), Role::Secondary));
    row(role, fragments)
}

fn loc_lines(loc: &Loc) -> (rows: Vec<CardLine>)
    ensures
        line_views(rows@) == loc_rows(*loc),
{
    let mut rows = no_lines();
    let mut fragments = no_spans();
    push_span(&mut fragments, gutter("loc", FULL_GUTTER));
    push_span(&mut fragments, span(decimal(loc.total).as_str(), Role::Primary));
    push_span(&mut fragments, span(" lines", Role::Secondary));
    push_span(
        &mut fragments,
        span(
            if loc.truncated {
                " · partial"
            } else {
                ""
            },
            Role::Secondary,
        ),
    );
    push_line(&mut rows, row(Role::Primary, fragments));
    let order = ranked_languages(&loc.by_language);
    let ghost languages = ranked(counted(loc.by_language@));
    if order.len() == 0 {
        return rows;
    }
    let mut parts: Vec<(u64, Role)> = Vec::new();
    let mut i: usize = 0;
    while i < order.len()
        invariant
            i <= order@.len(),
            forall|j: int| 0 <= j < order@.len() ==> #[trigger] order@[j] < loc.by_language@.len(),
            languages == Seq::new(order@.len(), |j: int| loc.by_language@[order@[j] as int]),
            parts@ == stack_parts(languages).take(i as int),
        decreases order@.len() - i,
    {
        let entry = &loc.by_language[order[i]];
        assert(*entry == languages[i as int]);
        parts.push(
            (
                entry.lines,
                Role::Runtime(runtime_role(entry.language.as_str(), entry.language.as_str())),
            ),
        );
        i = i + 1;
        assert(parts@ =~= stack_parts(languages).take(i as int));
    }
    assert(parts@ =~= stack_parts(languages));
    let mut lead = no_spans();
    push_span(&mut lead, gutter("", FULL_GUTTER));
    push_line(
        &mut rows,
        with_flex(row(Role::Primary, lead), 1, Flex::Stack(parts), STACK_MIN, STACK_MAX),
    );
    let ghost head = line_views(rows@);
    let ghost all = Seq::new(
        languages.len(),
        |j: int| language_row(languages[j], loc.total),
    );
    assert(line_views(rows@) =~= head + all.take(0));
    i = 0;
    while i < order.len()
        invariant
            i <= order@.len(),
            forall|j: int| 0 <= j < order@.len() ==> #[trigger] order@[j] < loc.by_language@.len(),
            languages == Seq::new(order@.len(), |j: int| loc.by_language@[order@[j] as int]),
            all == Seq::new(languages.len(), |j: int| language_row(languages[j], loc.total)),
            line_views(rows@) == head + all.take(i as int),
        decreases order@.len() - i,
    {
        let entry = &loc.by_language[order[i]];
        assert(*entry == languages[i as int]);
        push_line(&mut rows, language_line(entry, loc.total));
        i = i + 1;
        assert(line_views(rows@) =~= head + all.take(i as int));
    }
    assert(all.take(i as int) =~= all);
    rows
}

/// One coverage metric as a table row, where it is known.
pub open spec fn metric_rows(
    label: Seq<char>,
    name: Seq<char>,
    value: Option<Binary64>,
    role: Role,
) -> Seq<LineView> {
    match values::finite_of(value) {
        Some(percent) => seq![table_of(label, name, percent, role, ""@, false)],
        None => Seq::empty(),
    }
}

/// `cov` for the first row of the coverage, nothing for the others.
pub open spec fn cov_label(first: bool) -> Seq<char> {
    if first {
        "cov"@
    } else {
        ""@
    }
}

/// Where the coverage comes from.
pub open spec fn provenance_parts(coverage: Coverage) -> Seq<Seq<char>> {
    let none = Seq::<Seq<char>>::empty();
    let format = match coverage.format {
        Some(format) => none.push(values::coverage_format_text(format)),
        None => none,
    };
    let path = match coverage.report_path {
        Some(path) => format.push(path@),
        None => format,
    };
    let source = match coverage.source {
        Some(source) => path.push("source "@ + source@),
        None => path,
    };
    match coverage.report_modified {
        Some(modified) => source.push(
            "modified Unix "@ + strings::decimal_text(modified.value as nat),
        ),
        None => source,
    }
}

pub open spec fn provenance_row(coverage: Coverage, first: bool) -> LineView {
    let role = values::coverage_role_of(coverage.stale);
    let parts = provenance_parts(coverage);
    let head = seq![gutter_of(cov_label(first), FULL_GUTTER as nat)];
    let lead = if parts.len() > 0 {
        head.push(solid(strings::joined(parts, " · "@), Role::Text)).push(
            solid(" · "@, Role::Secondary),
        )
    } else {
        head
    };
    row_of(role, lead.push(solid(values::freshness_text(coverage.stale), role)))
}

pub open spec fn coverage_rows(coverage: Coverage) -> Seq<LineView> {
    let role = values::coverage_role_of(coverage.stale);
    let line = values::finite_of(coverage.line_percent);
    let branch = values::finite_of(coverage.branch_percent);
    let function = values::finite_of(coverage.function_percent);
    let second = line is None;
    let third = second && branch is None;
    let fourth = third && function is None;
    metric_rows(cov_label(true), "line"@, coverage.line_percent, role) + metric_rows(
        cov_label(second),
        "branch"@,
        coverage.branch_percent,
        role,
    ) + metric_rows(cov_label(third), "function"@, coverage.function_percent, role) + seq![
        provenance_row(coverage, fourth),
    ]
}

fn cov(first: bool) -> (label: &'static str)
    ensures
        label@ == cov_label(first),
{
    if first {
        "cov"
    } else {
        ""
    }
}

fn metric_lines(label: &str, name: &str, value: Option<Binary64>, role: Role) -> (rows: Vec<
    CardLine,
>)
    ensures
        line_views(rows@) == metric_rows(label@, name@, value, role),
{
    let mut rows = no_lines();
    if let Some(percent) = finite(value) {
        push_line(&mut rows, table_row(label, name, percent, role, "", false));
    }
    rows
}

fn provenance_line(coverage: &Coverage, first: bool) -> (line: CardLine)
    ensures
        line@ == provenance_row(*coverage, first),
{
    let role = coverage_role(coverage);
    let mut parts = no_texts();
    if let Some(format) = coverage.format {
        push_text(&mut parts, coverage_format_name(format).to_owned());
    }
    if let Some(path) = &coverage.report_path {
        push_text(&mut parts, path.clone());
    }
    if let Some(source) = &coverage.source {
        push_text(&mut parts, "source ".to_owned().concat(source.as_str()));
    }
    if let Some(modified) = coverage.report_modified {
        push_text(
            &mut parts,
            "modified Unix ".to_owned().concat(decimal(modified.value).as_str()),
        );
    }
    assert(strings::texts(parts@) == provenance_parts(*coverage));
    assert(parts@.len() == provenance_parts(*coverage).len());
    let mut fragments = no_spans();
    push_span(&mut fragments, gutter(cov(first), FULL_GUTTER));
    if parts.len() > 0 {
        push_span(&mut fragments, span(join(&parts, " · ").as_str(), Role::Text));
        push_span(&mut fragments, span(" · ", Role::Secondary));
    }
    push_span(&mut fragments, span(freshness_name(coverage.stale), role));
    row(role, fragments)
}

fn coverage_lines(coverage: &Coverage) -> (rows: Vec<CardLine>)
    ensures
        line_views(rows@) == coverage_rows(*coverage),
{
    let role = coverage_role(coverage);
    let second = finite(coverage.line_percent).is_none();
    let third = second && finite(coverage.branch_percent).is_none();
    let fourth = third && finite(coverage.function_percent).is_none();
    let mut rows = metric_lines(cov(true), "line", coverage.line_percent, role);
    append_lines(&mut rows, metric_lines(cov(second), "branch", coverage.branch_percent, role));
    append_lines(
        &mut rows,
        metric_lines(cov(third), "function", coverage.function_percent, role),
    );
    let ghost metrics = line_views(rows@);
    push_line(&mut rows, provenance_line(coverage, fourth));
    assert(line_views(rows@) =~= metrics + seq![provenance_row(*coverage, fourth)]);
    rows
}

/// The rows of the band `project telemetry`; none where no fact is known.
pub open spec fn telemetry_rows(snapshot: Snapshot) -> Seq<LineView> {
    match snapshot.project {
        Some(project) => {
            let loc = match project.loc {
                Some(loc) => loc_rows(loc),
                None => Seq::empty(),
            };
            let coverage = match project.coverage {
                Some(coverage) => coverage_rows(coverage),
                None => Seq::empty(),
            };
            loc + coverage
        },
        None => Seq::empty(),
    }
}

fn project_telemetry(snapshot: &Snapshot) -> (rows: Vec<CardLine>)
    ensures
        line_views(rows@) == telemetry_rows(*snapshot),
{
    let mut rows = no_lines();
    if let Some(project) = &snapshot.project {
        if let Some(loc) = &project.loc {
            rows = loc_lines(loc);
        }
        let mut coverage_part = no_lines();
        if let Some(coverage) = &project.coverage {
            coverage_part = coverage_lines(coverage);
        }
        append_lines(&mut rows, coverage_part);
    }
    rows
}

/// One band, where it has rows.
pub open spec fn band(name: Seq<char>, role: Role, rows: Seq<LineView>) -> Seq<SectionView> {
    if rows.len() == 0 {
        Seq::empty()
    } else {
        seq![SectionView { name, role, left: rows, right: Seq::empty() }]
    }
}

/// Title, identity rows and bands in their order. The normal card has no bands;
/// a band without facts is left out.
pub open spec fn card_body_of(snapshot: Snapshot, full: bool) -> BodyView {
    let identity = if full {
        full_identity_of(snapshot)
    } else {
        normal_identity_of(snapshot)
    };
    BodyView {
        title: seq![solid("hoshino"@, Role::Primary)],
        identity,
        identity_layout_height: if full {
            6
        } else {
            identity.len()
        },
        sections: if full {
            band("system & health"@, Role::System(SystemRole::Health), system_rows(snapshot))
                + band("active context"@, Role::Context, context_rows(snapshot)) + band(
                "project telemetry"@,
                Role::Primary,
                telemetry_rows(snapshot),
            )
        } else {
            Seq::empty()
        },
    }
}

fn push_band(sections: &mut Vec<CardSection>, name: &'static str, role: Role, rows: Vec<CardLine>)
    ensures
        section_views(final(sections)@) == section_views(old(sections)@) + band(
            name@,
            role,
            line_views(rows@),
        ),
{
    let ghost before = section_views(sections@);
    if rows.len() > 0 {
        let ghost added = SectionView {
            name: name@,
            role,
            left: line_views(rows@),
            right: Seq::empty(),
        };
        sections.push(CardSection { name, role, left: rows, right: no_lines() });
        assert(section_views(sections@) =~= before.push(added));
        assert(before.push(added) =~= before + seq![added]);
    } else {
        assert(section_views(sections@) =~= before + Seq::<SectionView>::empty());
    }
}

/// Build semantic rows directly from a snapshot: title, identity and ordered
/// sections, for every compositor.
pub fn card_body(snapshot: &Snapshot, full: bool) -> (body: CardBody)
    ensures
        body@ == card_body_of(*snapshot, full),
{
    let identity = if full {
        full_identity(snapshot)
    } else {
        normal_identity(snapshot)
    };
    let mut sections: Vec<CardSection> = Vec::new();
    assert(section_views(sections@) =~= Seq::<SectionView>::empty());
    if full {
        push_band(
            &mut sections,
            "system & health",
            Role::System(SystemRole::Health),
            system_details(snapshot),
        );
        push_band(&mut sections, "active context", Role::Context, active_context(snapshot));
        push_band(&mut sections, "project telemetry", Role::Primary, project_telemetry(snapshot));
        assert(section_views(sections@) =~= card_body_of(*snapshot, full).sections);
    }
    let mut title = no_spans();
    push_span(&mut title, span("hoshino", Role::Primary));
    let identity_layout_height: usize = if full {
        6
    } else {
        identity.len()
    };
    CardBody { title, identity, identity_layout_height, sections }
}

/// The values of the parts together.
pub open spec fn parts_sum(parts: Seq<(u64, Role)>) -> nat
    decreases parts.len(),
{
    if parts.len() == 0 {
        0
    } else {
        parts_sum(parts.drop_last()) + parts.last().0 as nat
    }
}

/// The instrument can be drawn in `cells` cells within machine integers.
pub open spec fn drawable(kind: FlexView, cells: nat) -> bool {
    match kind {
        FlexView::Meter { permille, .. } => permille * cells + 500 <= usize::MAX,
        FlexView::Ruler { permille } => permille * cells + 500 <= usize::MAX,
        FlexView::RulerAxis => cells >= 5,
        FlexView::Stack(parts) => parts_sum(parts) <= u64::MAX,
        FlexView::Caption(caption) => true,
    }
}

/// The line can be laid out at every width.
pub open spec fn sound_line(line: LineView) -> bool {
    match line.flex {
        Some(slot) => drawable(slot.kind, slot.max) && (slot.kind is RulerAxis ==> slot.min >= 5),
        None => true,
    }
}

pub open spec fn sound_lines(lines: Seq<LineView>) -> bool {
    forall|i: int| 0 <= i < lines.len() ==> sound_line(#[trigger] lines[i])
}

/// The difference, or zero where it would be negative.
pub open spec fn beyond(whole: nat, part: nat) -> nat {
    if whole >= part {
        (whole - part) as nat
    } else {
        0
    }
}

pub open spec fn smaller(left: nat, right: nat) -> nat {
    if left <= right {
        left
    } else {
        right
    }
}

/// The flexible element's cell count and whether trailing support survives.
pub open spec fn flex_cells_of(line: LineView, width: nat) -> (nat, bool) {
    let keep = line.trailing.len() > 0;
    match line.flex {
        None => (0, keep),
        Some(slot) => {
            let fixed = spans_cells(line.fragments);
            let reserve = if keep {
                held(spans_cells(line.trailing), TRAILING_GAP as nat)
            } else {
                0
            };
            let room = beyond(width, held(fixed, reserve));
            let bare = beyond(width, fixed);
            if room >= slot.min {
                (smaller(room, slot.max), keep)
            } else if bare >= slot.min {
                (smaller(bare, slot.max), false)
            } else {
                (0, false)
            }
        },
    }
}

/// The ruler's tick span: the largest multiple of four that, with its end
/// cap, fits in `cells`. Quarter ticks then land on exact hour positions.
pub open spec fn ruler_span_of(cells: nat) -> nat {
    beyond(cells, 1) / 4 * 4
}

/// `permille` of the cells to the nearest, at least one where it is not zero.
pub open spec fn meter_filled(permille: nat, cells: nat) -> nat {
    let product = permille * cells;
    let near = product / 1000 + (if product % 1000 >= 500 {
        1nat
    } else {
        0nat
    });
    let shown = if permille > 0 && near == 0 {
        1
    } else {
        near
    };
    smaller(shown, cells)
}

pub open spec fn meter_spans(permille: u16, role: Role, cells: nat) -> Seq<SpanView> {
    let filled = meter_filled(permille as nat, cells);
    let bar = if filled > 0 {
        seq![shaded(strings::repeated('━', filled), role)]
    } else {
        Seq::empty()
    };
    if cells > filled {
        bar.push(solid(strings::repeated('╌', (cells - filled) as nat), Role::Secondary))
    } else {
        bar
    }
}

/// The track's glyph at `index`: the end cap, a quarter tick, or the rail.
pub open spec fn tick(span: nat, index: int) -> char {
    if index == span {
        '┤'
    } else if index % (span as int / 4) == 0 {
        '┼'
    } else {
        '─'
    }
}

pub open spec fn ruler_position(permille: nat, span: nat) -> nat {
    (permille * span + 500) / 1000
}

pub open spec fn ruler_spans(permille: u16, cells: nat) -> Seq<SpanView> {
    let span = ruler_span_of(cells);
    let position = ruler_position(permille as nat, span);
    let elapsed = if position > 0 {
        seq![shaded(strings::repeated('━', position), Role::Progress)]
    } else {
        Seq::empty()
    };
    let track = Seq::new(beyond(span, position), |i: int| tick(span, position + 1 + i));
    elapsed.push(solid("●"@, Role::Progress)).push(
        solid(track + strings::blank(beyond(cells, span + 1)), Role::Secondary),
    )
}

/// The axis glyph at `index`: `00`, `06`, `12` and `18` under the quarters and
/// `24` at the end, a later label over an earlier one.
pub open spec fn axis_glyph(span: int, index: int) -> char {
    if index == span - 1 {
        '2'
    } else if index == span {
        '4'
    } else if index == span * 3 / 4 {
        '1'
    } else if index == span * 3 / 4 + 1 {
        '8'
    } else if index == span / 2 {
        '1'
    } else if index == span / 2 + 1 {
        '2'
    } else if index == span / 4 {
        '0'
    } else if index == span / 4 + 1 {
        '6'
    } else if index == 0 || index == 1 {
        '0'
    } else {
        ' '
    }
}

pub open spec fn axis_text(cells: nat) -> Seq<char> {
    Seq::new(cells, |i: int| axis_glyph(ruler_span_of(cells) as int, i))
}

pub open spec fn at_least_one(value: nat) -> nat {
    if value == 0 {
        1
    } else {
        value
    }
}

/// Where a run ends that holds `amount` of `total`, to the nearest cell.
pub open spec fn stack_edge(amount: nat, total: nat, cells: nat) -> nat {
    smaller((amount * cells + total / 2) / total, cells)
}

/// The runs of the first parts in a bar of `cells` cells.
pub open spec fn stack_spans(parts: Seq<(u64, Role)>, total: nat, cells: nat) -> Seq<SpanView>
    decreases parts.len(),
{
    if parts.len() == 0 {
        Seq::empty()
    } else {
        let before = stack_spans(parts.drop_last(), total, cells);
        let drawn = stack_edge(parts_sum(parts.drop_last()), total, cells);
        let edge = stack_edge(parts_sum(parts), total, cells);
        if edge > drawn {
            before.push(solid(strings::repeated('█', (edge - drawn) as nat), parts.last().1))
        } else {
            before
        }
    }
}

/// The instrument drawn in `cells` cells.
pub open spec fn flex_spans_of(kind: FlexView, cells: nat) -> Seq<SpanView> {
    match kind {
        FlexView::Meter { permille, role } => meter_spans(permille, role, cells),
        FlexView::Ruler { permille } => ruler_spans(permille, cells),
        FlexView::RulerAxis => seq![solid(axis_text(cells), Role::Secondary)],
        FlexView::Stack(parts) => stack_spans(parts, at_least_one(parts_sum(parts)), cells),
        FlexView::Caption(caption) => seq![
            solid(strings::padded_right(cells::fitted(caption, cells), cells), Role::Secondary),
        ],
    }
}

/// The spans that fit in `width` cells, and the cells they take. The span that
/// passes the width is cut; what follows is left out.
pub open spec fn fit_state(spans: Seq<SpanView>, width: nat) -> (Seq<SpanView>, nat)
    decreases spans.len(),
{
    if spans.len() == 0 {
        (Seq::empty(), 0)
    } else {
        let before = fit_state(spans.drop_last(), width);
        if before.1 >= width {
            before
        } else {
            let text = cells::fitted(spans.last().text, (width - before.1) as nat);
            (
                before.0.push(SpanView { text, ..spans.last() }),
                held(before.1, cells::cell_width(text)),
            )
        }
    }
}

pub open spec fn fit_spans(spans: Seq<SpanView>, width: nat) -> Seq<SpanView> {
    fit_state(spans, width).0
}

/// A semantic line at a concrete cell width: its flexible element expanded, the
/// trailing support right-aligned, then every fragment fitted. Narrow widths
/// drop trailing support first, then the flexible element, and only then
/// shorten text.
pub open spec fn layout_of(line: LineView, width: nat) -> Seq<SpanView> {
    let (cells, keep) = flex_cells_of(line, width);
    match line.flex {
        Some(slot) => if cells == 0 && slot.compact is Some {
            fit_spans(slot.compact->0, width)
        } else if cells > 0 {
            let at = smaller(slot.at, line.fragments.len()) as int;
            aligned(
                line.fragments.take(at) + flex_spans_of(slot.kind, cells) + line.fragments.skip(at),
                keep,
                line.trailing,
                width,
            )
        } else {
            aligned(line.fragments, keep, line.trailing, width)
        },
        None => aligned(line.fragments, keep, line.trailing, width),
    }
}

/// `spans` with `trailing` at the right edge where both and a gap fit.
pub open spec fn aligned(
    spans: Seq<SpanView>,
    keep: bool,
    trailing: Seq<SpanView>,
    width: nat,
) -> Seq<SpanView> {
    let used = spans_cells(spans);
    let behind = spans_cells(trailing);
    if keep && used + TRAILING_GAP + behind <= width {
        fit_spans(
            spans.push(solid(strings::blank((width - used - behind) as nat), Role::Text))
                + trailing,
            width,
        )
    } else {
        fit_spans(spans, width)
    }
}

/// The line has no form at `width`.
pub open spec fn omitted(line: LineView, width: nat) -> bool {
    match line.flex {
        Some(slot) => slot.compact is Some && slot.compact->0.len() == 0 && flex_cells_of(
            line,
            width,
        ).0 == 0,
        None => false,
    }
}

fn flex_cells(line: &CardLine, width: usize) -> (found: (usize, bool))
    ensures
        (found.0 as nat, found.1) == flex_cells_of(line@, width as nat),
{
    let keep = line.trailing.len() > 0;
    match &line.flex {
        None => (0, keep),
        Some(slot) => {
            let fixed: usize = spans_width(&line.fragments);
            let reserve: usize = if keep {
                spans_width(&line.trailing).saturating_add(TRAILING_GAP)
            } else {
                0
            };
            let room: usize = width.saturating_sub(fixed.saturating_add(reserve));
            if room >= slot.min {
                return (
                    if room <= slot.max {
                        room
                    } else {
                        slot.max
                    },
                    keep,
                );
            }
            let bare: usize = width.saturating_sub(fixed);
            if bare >= slot.min {
                (
                    if bare <= slot.max {
                        bare
                    } else {
                        slot.max
                    },
                    false,
                )
            } else {
                (0, false)
            }
        },
    }
}

fn ruler_span(cells: usize) -> (span: usize)
    ensures
        span == ruler_span_of(cells as nat),
        span % 4 == 0,
        cells >= 1 ==> span + 1 <= cells,
        cells >= 5 ==> span >= 4,
{
    cells.saturating_sub(1) / 4 * 4
}

fn meter_fragments(permille: u16, role: Role, cells: usize) -> (spans: Vec<CardSpan>)
    requires
        permille * cells + 500 <= usize::MAX,
    ensures
        span_views(spans@) == meter_spans(permille, role, cells as nat),
{
    proof {
        assert(0 <= permille * cells) by (nonlinear_arith)
            requires
                permille >= 0,
                cells >= 0,
        ;
    }
    let product: usize = permille as usize * cells;
    let mut filled: usize = product / 1000;
    if product % 1000 >= 500 {
        filled = filled + 1;
    }
    if permille > 0 && filled == 0 {
        filled = 1;
    }
    if filled > cells {
        filled = cells;
    }
    let mut spans = no_spans();
    if filled > 0 {
        push_span(&mut spans, gradient(repeat_char('━', filled), role));
    }
    if cells > filled {
        push_span(&mut spans, span(repeat_char('╌', cells - filled).as_str(), Role::Secondary));
    }
    spans
}

fn ruler_fragments(permille: u16, cells: usize) -> (spans: Vec<CardSpan>)
    requires
        cells > 0,
        permille * cells + 500 <= usize::MAX,
    ensures
        span_views(spans@) == ruler_spans(permille, cells as nat),
{
    let length: usize = ruler_span(cells);
    proof {
        assert(permille * length <= permille * cells) by (nonlinear_arith)
            requires
                permille >= 0,
                length <= cells,
        ;
        assert(0 <= permille * length) by (nonlinear_arith)
            requires
                permille >= 0,
                length >= 0,
        ;
    }
    let position: usize = (permille as usize * length + 500) / 1000;
    let mut spans = no_spans();
    if position > 0 {
        push_span(&mut spans, gradient(repeat_char('━', position), Role::Progress));
    }
    push_span(&mut spans, span("●", Role::Progress));
    let mut track = String::new();
    let ghost all = Seq::new(
        beyond(length as nat, position as nat),
        |i: int| tick(length as nat, position + 1 + i),
    );
    let mut drawn: usize = position;
    assert(track@ =~= all.take(0));
    while drawn < length
        invariant
            length % 4 == 0,
            position <= drawn,
            drawn <= length || drawn == position,
            all == Seq::new(
                beyond(length as nat, position as nat),
                |i: int| tick(length as nat, position + 1 + i),
            ),
            track@ == all.take(drawn - position),
        decreases length - drawn,
    {
        drawn = drawn + 1;
        assert(all[drawn - 1 - position] == tick(length as nat, drawn as int));
        let glyph = if drawn == length {
            '┤'
        } else if drawn % (length / 4) == 0 {
            '┼'
        } else {
            '─'
        };
        track.push(glyph);
        assert(track@ =~= all.take(drawn - position));
    }
    assert(all.take(drawn - position) =~= all);
    track.append(spaces(cells - length - 1).as_str());
    push_span(&mut spans, span(track.as_str(), Role::Secondary));
    spans
}

fn axis_label(cells: usize) -> (text: String)
    requires
        cells >= 5,
    ensures
        text@ == axis_text(cells as nat),
{
    let length: usize = ruler_span(cells);
    let quarter: usize = length / 4;
    let half: usize = length / 2;
    let late: usize = half + quarter;
    assert(length as int * 3 / 4 == late) by {
        assert(length == 4 * quarter);
    }
    let mut text = String::new();
    let mut index: usize = 0;
    while index < cells
        invariant
            index <= cells,
            length == ruler_span_of(cells as nat),
            length >= 4,
            quarter == length / 4,
            half == length / 2,
            late == length as int * 3 / 4,
            text@ == axis_text(cells as nat).take(index as int),
        decreases cells - index,
    {
        let glyph = if index == length - 1 {
            '2'
        } else if index == length {
            '4'
        } else if index == late {
            '1'
        } else if index >= 1 && index - 1 == late {
            '8'
        } else if index == half {
            '1'
        } else if index >= 1 && index - 1 == half {
            '2'
        } else if index == quarter {
            '0'
        } else if index >= 1 && index - 1 == quarter {
            '6'
        } else if index == 0 || index == 1 {
            '0'
        } else {
            ' '
        };
        text.push(glyph);
        index = index + 1;
        assert(text@ =~= axis_text(cells as nat).take(index as int));
    }
    assert(text@ =~= axis_text(cells as nat));
    text
}

proof fn lemma_parts_sum_prefix(parts: Seq<(u64, Role)>, count: int)
    requires
        0 <= count <= parts.len(),
    ensures
        parts_sum(parts.take(count)) <= parts_sum(parts),
    decreases parts.len() - count,
{
    if count < parts.len() {
        lemma_parts_sum_prefix(parts, count + 1);
        assert(parts.take(count + 1).drop_last() =~= parts.take(count));
    } else {
        assert(parts.take(count) =~= parts);
    }
}

proof fn lemma_stack_edge(low: nat, high: nat, total: nat, cells: nat)
    requires
        low <= high <= total,
        total > 0,
    ensures
        stack_edge(low, total, cells) <= stack_edge(high, total, cells),
        (high * cells + total / 2) / total <= cells,
        stack_edge(0, total, cells) == 0,
{
    assert(low * cells <= high * cells) by (nonlinear_arith)
        requires
            low <= high,
    ;
    assert((low * cells + total / 2) / total <= (high * cells + total / 2) / total)
        by (nonlinear_arith)
        requires
            low * cells <= high * cells,
            total > 0,
    ;
    assert(high * cells <= total * cells) by (nonlinear_arith)
        requires
            high <= total,
    ;
    assert((high * cells + total / 2) / total <= cells) by (nonlinear_arith)
        requires
            high * cells <= total * cells,
            total > 0,
    ;
    assert(0 * cells == 0);
    assert((total / 2) / total == 0) by (nonlinear_arith)
        requires
            total > 0,
    ;
}

fn stack_fragments(parts: &Vec<(u64, Role)>, cells: usize) -> (spans: Vec<CardSpan>)
    requires
        parts_sum(parts@) <= u64::MAX,
    ensures
        span_views(spans@) == stack_spans(
            parts@,
            at_least_one(parts_sum(parts@)),
            cells as nat,
        ),
{
    let mut sum: u64 = 0;
    let mut i: usize = 0;
    while i < parts.len()
        invariant
            i <= parts@.len(),
            sum == parts_sum(parts@.take(i as int)),
            parts_sum(parts@) <= u64::MAX,
        decreases parts@.len() - i,
    {
        proof {
            lemma_parts_sum_prefix(parts@, i + 1);
            assert(parts@.take(i + 1).drop_last() =~= parts@.take(i as int));
        }
        sum = sum + parts[i].0;
        i = i + 1;
    }
    assert(parts@.take(i as int) =~= parts@);
    let total: u64 = if sum == 0 {
        1
    } else {
        sum
    };
    let mut spans = no_spans();
    let mut amount: u64 = 0;
    let mut drawn: usize = 0;
    i = 0;
    proof {
        lemma_stack_edge(0, 0, total as nat, cells as nat);
        assert(parts@.take(0) =~= Seq::empty());
    }
    while i < parts.len()
        invariant
            i <= parts@.len(),
            parts_sum(parts@) <= total <= u64::MAX,
            total > 0,
            amount == parts_sum(parts@.take(i as int)),
            drawn == stack_edge(amount as nat, total as nat, cells as nat),
            span_views(spans@) == stack_spans(parts@.take(i as int), total as nat, cells as nat),
        decreases parts@.len() - i,
    {
        let ghost before = amount as nat;
        proof {
            lemma_parts_sum_prefix(parts@, i + 1);
            assert(parts@.take(i + 1).drop_last() =~= parts@.take(i as int));
        }
        amount = amount + parts[i].0;
        proof {
            lemma_stack_edge(before, amount as nat, total as nat, cells as nat);
            assert(amount * cells <= u64::MAX * u64::MAX) by (nonlinear_arith)
                requires
                    0 <= amount <= u64::MAX,
                    0 <= cells <= u64::MAX,
            ;
            assert(amount * cells >= 0) by (nonlinear_arith)
                requires
                    amount >= 0,
                    cells >= 0,
            ;
        }
        let edge: usize = ((amount as u128 * cells as u128 + (total / 2) as u128) / total as u128)
            as usize;
        if edge > drawn {
            push_span(&mut spans, span(repeat_char('█', edge - drawn).as_str(), parts[i].1));
            drawn = edge;
        }
        i = i + 1;
    }
    assert(parts@.take(i as int) =~= parts@);
    spans
}

fn flex_spans(kind: &Flex, cells: usize) -> (spans: Vec<CardSpan>)
    requires
        cells > 0,
        drawable(kind@, cells as nat),
    ensures
        span_views(spans@) == flex_spans_of(kind@, cells as nat),
{
    match kind {
        Flex::Meter { permille, role } => meter_fragments(*permille, *role, cells),
        Flex::Ruler { permille } => ruler_fragments(*permille, cells),
        Flex::RulerAxis => {
            let mut spans = no_spans();
            push_span(&mut spans, span(axis_label(cells).as_str(), Role::Secondary));
            spans
        },
        Flex::Stack(parts) => stack_fragments(parts, cells),
        Flex::Caption(caption) => {
            let mut spans = no_spans();
            let text = pad_right(fit_middle(caption, cells).as_str(), cells);
            push_span(&mut spans, span(text.as_str(), Role::Secondary));
            spans
        },
    }
}

/// The spans that fit in `width` cells, the last of them cut.
pub fn fit_fragments(fragments: &Vec<CardSpan>, width: usize) -> (output: Vec<CardSpan>)
    ensures
        span_views(output@) == fit_spans(span_views(fragments@), width as nat),
{
    let ghost views = span_views(fragments@);
    let mut used: usize = 0;
    let mut output = no_spans();
    let mut i: usize = 0;
    while i < fragments.len()
        invariant
            i <= fragments@.len(),
            views == span_views(fragments@),
            (span_views(output@), used as nat) == fit_state(views.take(i as int), width as nat),
        decreases fragments@.len() - i,
    {
        assert(views.take(i + 1).drop_last() =~= views.take(i as int));
        let fragment = &fragments[i];
        if used < width {
            let text = fit_middle(fragment.text.as_str(), width - used);
            used = used.saturating_add(visible_width(text.as_str()));
            push_span(
                &mut output,
                CardSpan { text, role: fragment.role, style: fragment.style },
            );
        }
        i = i + 1;
    }
    assert(views.take(i as int) =~= views);
    output
}

/// The spans before `at`, `middle`, and the spans from `at` on.
fn spliced(fragments: &Vec<CardSpan>, at: usize, middle: Vec<CardSpan>) -> (spans: Vec<CardSpan>)
    requires
        at <= fragments@.len(),
    ensures
        span_views(spans@) == span_views(fragments@).take(at as int) + span_views(middle@)
            + span_views(fragments@).skip(at as int),
{
    let ghost views = span_views(fragments@);
    let ghost inner = span_views(middle@);
    let mut spans = no_spans();
    let mut i: usize = 0;
    while i < at
        invariant
            i <= at <= fragments@.len(),
            views == span_views(fragments@),
            span_views(spans@) == views.take(i as int),
        decreases at - i,
    {
        push_span(&mut spans, copy_span(&fragments[i]));
        i = i + 1;
        assert(span_views(spans@) =~= views.take(i as int));
    }
    append_spans(&mut spans, middle);
    let ghost front = span_views(spans@);
    while i < fragments.len()
        invariant
            at <= i <= fragments@.len(),
            views == span_views(fragments@),
            span_views(spans@) == front + views.subrange(at as int, i as int),
        decreases fragments@.len() - i,
    {
        push_span(&mut spans, copy_span(&fragments[i]));
        i = i + 1;
        assert(span_views(spans@) =~= front + views.subrange(at as int, i as int));
    }
    assert(views.subrange(at as int, i as int) =~= views.skip(at as int));
    spans
}

fn align(spans: Vec<CardSpan>, keep: bool, trailing: &Vec<CardSpan>, width: usize) -> (laid: Vec<
    CardSpan,
>)
    ensures
        span_views(laid@) == aligned(
            span_views(spans@),
            keep,
            span_views(trailing@),
            width as nat,
        ),
{
    let used: usize = spans_width(&spans);
    let behind: usize = spans_width(trailing);
    let mut spans = spans;
    if keep && used <= width && TRAILING_GAP <= width - used && behind <= width - used
        - TRAILING_GAP {
        push_span(&mut spans, span(spaces(width - used - behind).as_str(), Role::Text));
        append_spans(&mut spans, copy_spans(trailing));
    }
    fit_fragments(&spans, width)
}

/// Resolve a semantic line at a concrete cell width: expand its flexible
/// element, right-align trailing support, then fit every fragment. Narrow
/// widths drop trailing support first, then the flexible element, and only
/// then shorten text, so a meter's value always outlives the meter itself.
pub fn layout_line(line: &CardLine, width: usize) -> (laid: Vec<CardSpan>)
    requires
        sound_line(line@),
    ensures
        span_views(laid@) == layout_of(line@, width as nat),
{
    let (cells, keep) = flex_cells(line, width);
    match &line.flex {
        Some(slot) => {
            if cells == 0 {
                if let Some(compact) = &slot.compact {
                    return fit_fragments(compact, width);
                }
            }
            if cells > 0 {
                let at: usize = if slot.at <= line.fragments.len() {
                    slot.at
                } else {
                    line.fragments.len()
                };
                proof {
                    lemma_drawable_below(slot@.kind, cells as nat, slot.max as nat);
                }
                let middle = flex_spans(&slot.kind, cells);
                return align(spliced(&line.fragments, at, middle), keep, &line.trailing, width);
            }
        },
        None => {},
    }
    align(copy_spans(&line.fragments), keep, &line.trailing, width)
}

proof fn lemma_drawable_below(kind: FlexView, cells: nat, max: nat)
    requires
        drawable(kind, max),
        cells <= max,
        kind is RulerAxis ==> cells >= 5,
    ensures
        drawable(kind, cells),
{
    match kind {
        FlexView::Meter { permille, .. } => {
            assert(permille * cells <= permille * max) by (nonlinear_arith)
                requires
                    permille >= 0,
                    cells <= max,
            ;
        },
        FlexView::Ruler { permille } => {
            assert(permille * cells <= permille * max) by (nonlinear_arith)
                requires
                    permille >= 0,
                    cells <= max,
            ;
        },
        _ => {},
    }
}

/// True when the line has no form at `width`; callers skip it instead of
/// painting an empty row.
pub fn omitted_at(line: &CardLine, width: usize) -> (yes: bool)
    ensures
        yes == omitted(line@, width as nat),
{
    match &line.flex {
        Some(slot) => match &slot.compact {
            Some(compact) => compact.len() == 0 && flex_cells(line, width).0 == 0,
            None => false,
        },
        None => false,
    }
}

/// The line's fragments.
pub fn card_spans(line: &CardLine) -> (spans: Vec<CardSpan>)
    ensures
        span_views(spans@) == line@.fragments,
{
    copy_spans(&line.fragments)
}

/// The coloured chunks of the spans in order.
pub open spec fn expanded_spans(spans: Seq<SpanView>, colors: Palette) -> Seq<theme::ChunkView>
    decreases spans.len(),
{
    if spans.len() == 0 {
        Seq::empty()
    } else {
        expanded_spans(spans.drop_last(), colors) + theme::expanded(
            spans.last().text,
            spans.last().role,
            spans.last().style,
            colors,
        )
    }
}

pub fn expanded_card_spans(line: &CardLine, colors: Palette) -> (chunks: Vec<ExpandedChunk>)
    ensures
        theme::chunk_views(chunks@) == expanded_spans(line@.fragments, colors),
{
    let ghost views = span_views(line.fragments@);
    let mut chunks: Vec<ExpandedChunk> = Vec::new();
    let mut i: usize = 0;
    assert(theme::chunk_views(chunks@) =~= Seq::empty());
    while i < line.fragments.len()
        invariant
            i <= line.fragments@.len(),
            views == span_views(line.fragments@),
            theme::chunk_views(chunks@) == expanded_spans(views.take(i as int), colors),
        decreases line.fragments@.len() - i,
    {
        let fragment = &line.fragments[i];
        let ghost before = theme::chunk_views(chunks@);
        let mut more = expand_span(fragment.text.as_str(), fragment.role, fragment.style, colors);
        let ghost added = theme::chunk_views(more@);
        chunks.append(&mut more);
        assert(theme::chunk_views(chunks@) =~= before + added);
        assert(views.take(i + 1).drop_last() =~= views.take(i as int));
        i = i + 1;
    }
    assert(views.take(i as int) =~= views);
    chunks
}

/// The chunks as text, each between its colour and a reset where `color`.
pub open spec fn chunks_text(chunks: Seq<theme::ChunkView>, color: bool) -> Seq<char>
    decreases chunks.len(),
{
    if chunks.len() == 0 {
        Seq::empty()
    } else if color {
        chunks_text(chunks.drop_last(), color) + theme::ansi_text(chunks.last().color)
            + chunks.last().text + "\x1b[0m"@
    } else {
        chunks_text(chunks.drop_last(), color) + chunks.last().text
    }
}

pub fn serialize_line(line: &CardLine, color: bool, colors: Palette) -> (text: String)
    ensures
        text@ == chunks_text(expanded_spans(line@.fragments, colors), color),
{
    let chunks = expanded_card_spans(line, colors);
    let ghost views = theme::chunk_views(chunks@);
    let mut text = String::new();
    let mut i: usize = 0;
    while i < chunks.len()
        invariant
            i <= chunks@.len(),
            views == theme::chunk_views(chunks@),
            text@ == chunks_text(views.take(i as int), color),
        decreases chunks@.len() - i,
    {
        assert(views.take(i + 1).drop_last() =~= views.take(i as int));
        if color {
            text.append(colors.ansi_foreground_rgb(chunks[i].color).as_str());
            text.append(chunks[i].text.as_str());
            text.append("\x1b[0m");
        } else {
            text.append(chunks[i].text.as_str());
        }
        i = i + 1;
    }
    assert(views.take(i as int) =~= views);
    text
}

/// The lines of code can be added up.
pub open spec fn renderable(snapshot: Snapshot) -> bool {
    match snapshot.project {
        Some(project) => match project.loc {
            Some(loc) => model::lines_sum(loc.by_language@) <= u64::MAX,
            None => true,
        },
        None => true,
    }
}

fn can_be_added(entries: &Vec<LanguageLoc>) -> (yes: bool)
    ensures
        yes == (model::lines_sum(entries@) <= u64::MAX),
{
    let mut sum: u64 = 0;
    let mut at: usize = 0;
    while at < entries.len()
        invariant
            at <= entries@.len(),
            sum == model::lines_sum(entries@.take(at as int)),
        decreases entries@.len() - at,
    {
        proof {
            assert(entries@.take(at + 1).drop_last() =~= entries@.take(at as int));
            model::lemma_lines_sum_prefix(entries@, at + 1);
        }
        match sum.checked_add(entries[at].lines) {
            Some(more) => {
                sum = more;
            },
            None => {
                return false;
            },
        }
        at = at + 1;
    }
    assert(entries@.take(at as int) =~= entries@);
    true
}

/// Whether the lines of code can be added up.
pub fn is_renderable(snapshot: &Snapshot) -> (yes: bool)
    ensures
        yes == renderable(*snapshot),
{
    match &snapshot.project {
        Some(project) => match &project.loc {
            Some(loc) => can_be_added(&loc.by_language),
            None => true,
        },
        None => true,
    }
}

pub open spec fn sound_body(body: BodyView) -> bool {
    &&& sound_lines(body.identity)
    &&& forall|i: int|
        0 <= i < body.sections.len() ==> sound_lines((#[trigger] body.sections[i]).left)
            && sound_lines(body.sections[i].right)
}

proof fn lemma_counted_sum(entries: Seq<LanguageLoc>)
    ensures
        model::lines_sum(counted(entries)) == model::lines_sum(entries),
    decreases entries.len(),
{
    if entries.len() > 0 {
        lemma_counted_sum(entries.drop_last());
        if entries.last().lines > 0 {
            assert(counted(entries).drop_last() =~= counted(entries.drop_last()));
        }
    }
}

proof fn lemma_insert_sum(entries: Seq<LanguageLoc>, at: int, entry: LanguageLoc)
    requires
        0 <= at <= entries.len(),
    ensures
        model::lines_sum(entries.insert(at, entry)) == model::lines_sum(entries) + entry.lines,
    decreases entries.len() - at,
{
    let after = entries.insert(at, entry);
    if at == entries.len() {
        assert(after.drop_last() =~= entries);
    } else {
        assert(after.drop_last() =~= entries.drop_last().insert(at, entry));
        lemma_insert_sum(entries.drop_last(), at, entry);
        assert(after.last() == entries.last());
    }
}

proof fn lemma_ranked_sum(entries: Seq<LanguageLoc>)
    ensures
        model::lines_sum(ranked(entries)) == model::lines_sum(entries),
    decreases entries.len(),
{
    if entries.len() > 0 {
        let before = ranked(entries.drop_last());
        lemma_ranked_sum(entries.drop_last());
        lemma_rank_bounds(before, entries.last().lines, 0);
        lemma_insert_sum(
            before,
            rank_from(before, entries.last().lines, 0),
            entries.last(),
        );
    }
}

proof fn lemma_stack_parts_sum(entries: Seq<LanguageLoc>)
    ensures
        parts_sum(stack_parts(entries)) == model::lines_sum(entries),
    decreases entries.len(),
{
    if entries.len() > 0 {
        lemma_stack_parts_sum(entries.drop_last());
        assert(stack_parts(entries).drop_last() =~= stack_parts(entries.drop_last()));
    }
}

proof fn lemma_permille_product(permille: nat, cells: nat)
    requires
        permille <= u16::MAX,
        cells <= 100,
    ensures
        permille * cells + 500 <= usize::MAX,
{
    assert(permille * cells <= 65535 * 100) by (nonlinear_arith)
        requires
            permille <= 65535,
            cells <= 100,
    ;
}

proof fn lemma_sound_meters()
    ensures
        forall|permille: u16| #[trigger] (permille * FULL_METER_MAX) + 500 <= usize::MAX,
        forall|permille: u16| #[trigger] (permille * NORMAL_METER_MAX) + 500 <= usize::MAX,
        forall|permille: u16| #[trigger] (permille * FULL_RULER_MAX) + 500 <= usize::MAX,
        forall|permille: u16| #[trigger] (permille * NORMAL_RULER_MAX) + 500 <= usize::MAX,
{
    assert forall|permille: u16| #[trigger] (permille * FULL_METER_MAX) + 500 <= usize::MAX by {
        lemma_permille_product(permille as nat, FULL_METER_MAX as nat);
    }
    assert forall|permille: u16| #[trigger] (permille * NORMAL_METER_MAX) + 500 <= usize::MAX by {
        lemma_permille_product(permille as nat, NORMAL_METER_MAX as nat);
    }
    assert forall|permille: u16| #[trigger] (permille * FULL_RULER_MAX) + 500 <= usize::MAX by {
        lemma_permille_product(permille as nat, FULL_RULER_MAX as nat);
    }
    assert forall|permille: u16| #[trigger] (permille * NORMAL_RULER_MAX) + 500 <= usize::MAX by {
        lemma_permille_product(permille as nat, NORMAL_RULER_MAX as nat);
    }
}

proof fn lemma_sound_concat(first: Seq<LineView>, second: Seq<LineView>)
    requires
        sound_lines(first),
        sound_lines(second),
    ensures
        sound_lines(first + second),
{
    let all = first + second;
    assert forall|i: int| 0 <= i < all.len() implies sound_line(#[trigger] all[i]) by {
        if i >= first.len() {
            assert(all[i] == second[i - first.len()]);
        } else {
            assert(all[i] == first[i]);
        }
    }
}

proof fn lemma_sound_gauges(snapshot: Snapshot)
    ensures
        sound_lines(memory_rows(snapshot)),
        sound_lines(disk_rows(snapshot)),
{
    lemma_sound_meters();
}

proof fn lemma_sound_clock(snapshot: Snapshot)
    ensures
        sound_lines(clock_rows(snapshot)),
{
    lemma_sound_meters();
}

proof fn lemma_sound_supported(role: Role, main: Seq<SpanView>, alone: Role, support: Seq<SpanView>)
    ensures
        sound_lines(supported(role, main, alone, support)),
{
}

proof fn lemma_sound_normal(snapshot: Snapshot)
    ensures
        sound_lines(normal_identity_of(snapshot)),
{
    let health = Role::System(SystemRole::Health);
    let place = supported(
        Role::Primary,
        place_spans(snapshot),
        Role::Primary,
        runtime_spans(snapshot, false),
    );
    let machine = supported(
        health,
        machine_spans(snapshot),
        health,
        uptime_spans(snapshot, "up "@),
    );
    lemma_sound_supported(
        Role::Primary,
        place_spans(snapshot),
        Role::Primary,
        runtime_spans(snapshot, false),
    );
    lemma_sound_supported(
        health,
        machine_spans(snapshot),
        health,
        uptime_spans(snapshot, "up "@),
    );
    lemma_sound_gauges(snapshot);
    lemma_sound_clock(snapshot);
    assert(sound_lines(summary_rows(snapshot)));
    assert(sound_lines(warning_rows(snapshot)));
    let two = place + machine;
    let three = two + memory_rows(snapshot);
    let four = three + disk_rows(snapshot);
    let five = four + clock_rows(snapshot);
    let six = five + summary_rows(snapshot);
    let seven = six + warning_rows(snapshot);
    lemma_sound_concat(place, machine);
    lemma_sound_concat(two, memory_rows(snapshot));
    lemma_sound_concat(three, disk_rows(snapshot));
    lemma_sound_concat(four, clock_rows(snapshot));
    lemma_sound_concat(five, summary_rows(snapshot));
    lemma_sound_concat(six, warning_rows(snapshot));
    let shown = normal_identity_of(snapshot);
    assert forall|i: int| 0 <= i < shown.len() implies sound_line(#[trigger] shown[i]) by {
        assert(shown[i] == seven[i]);
    }
}

proof fn lemma_sound_full(snapshot: Snapshot)
    ensures
        sound_lines(full_identity_of(snapshot)),
{
}

proof fn lemma_sound_system(snapshot: Snapshot)
    ensures
        sound_lines(system_rows(snapshot)),
{
    lemma_sound_meters();
    assert(sound_lines(memory_table(snapshot)));
    let disks = values::distinct_disks(snapshot.system.disks@);
    assert(sound_lines(disk_table(disks))) by {
        let table = disk_table(disks);
        assert forall|i: int| 0 <= i < table.len() implies sound_line(#[trigger] table[i]) by {
            if i > 0 {
                assert(table[i] == disk_table_row(disks[i - 1], i - 1 == 0));
            }
        }
    }
}

proof fn lemma_sound_context(snapshot: Snapshot)
    ensures
        sound_lines(context_rows(snapshot)),
{
    lemma_sound_meters();
}

proof fn lemma_sound_telemetry(snapshot: Snapshot)
    requires
        renderable(snapshot),
    ensures
        sound_lines(telemetry_rows(snapshot)),
{
    lemma_sound_meters();
    if let Some(project) = snapshot.project {
        if let Some(loc) = project.loc {
            let languages = ranked(counted(loc.by_language@));
            lemma_counted_sum(loc.by_language@);
            lemma_ranked_sum(counted(loc.by_language@));
            lemma_stack_parts_sum(languages);
            let rows = loc_rows(loc);
            assert forall|i: int| 0 <= i < rows.len() implies sound_line(#[trigger] rows[i]) by {
                if i > 1 {
                    assert(rows[i] == language_row(languages[i - 2], loc.total));
                }
            }
        }
        if let Some(coverage) = project.coverage {
            assert(sound_lines(coverage_rows(coverage)));
        }
    }
}

#[verifier::spinoff_prover]
proof fn lemma_sound_normal_body(snapshot: Snapshot)
    ensures
        sound_body(card_body_of(snapshot, false)),
{
    lemma_sound_normal(snapshot);
}

#[verifier::spinoff_prover]
proof fn lemma_sound_full_body(snapshot: Snapshot)
    requires
        renderable(snapshot),
    ensures
        sound_body(card_body_of(snapshot, true)),
{
    lemma_sound_full(snapshot);
    lemma_sound_system(snapshot);
    lemma_sound_context(snapshot);
    lemma_sound_telemetry(snapshot);
}

/// Every line of a renderable snapshot's card can be laid out.
pub proof fn lemma_sound_body(snapshot: Snapshot, full: bool)
    requires
        renderable(snapshot),
    ensures
        sound_body(card_body_of(snapshot, full)),
{
    if full {
        lemma_sound_full_body(snapshot);
    } else {
        lemma_sound_normal_body(snapshot);
    }
}

/// A structural band divider: `─ name ───`, solid pink like the frame.
pub open spec fn rail_of(name: Seq<char>, width: nat) -> LineView {
    let title = cells::fitted(name, beyond(width, 3));
    let fill = beyond(width, held(cells::cell_width(title), 3));
    row_of(
        Role::Border,
        seq![solid("─ "@, Role::Border)].push(solid(title, Role::Primary)).push(
            solid(" "@ + strings::repeated('─', fill), Role::Border),
        ),
    )
}

pub fn section_rail(name: &'static str, width: usize) -> (line: CardLine)
    ensures
        line@ == rail_of(name@, width as nat),
{
    let title = fit_middle(name, width.saturating_sub(3));
    let fill: usize = width.saturating_sub(visible_width(title.as_str()).saturating_add(3));
    let mut fragments = no_spans();
    push_span(&mut fragments, span("─ ", Role::Border));
    push_span(&mut fragments, span(title.as_str(), Role::Primary));
    push_span(
        &mut fragments,
        span(" ".to_owned().concat(repeat_char('─', fill).as_str()).as_str(), Role::Border),
    );
    row(Role::Border, fragments)
}

pub open spec fn connected_rail(name: Seq<char>, inner: nat) -> LineView {
    row_of(
        Role::Border,
        (seq![solid("├"@, Role::Border)] + rail_of(name, inner).fragments).push(
            solid("┤"@, Role::Border),
        ),
    )
}

fn connected_section_rail(name: &'static str, inner: usize) -> (line: CardLine)
    ensures
        line@ == connected_rail(name@, inner as nat),
{
    let rail = section_rail(name, inner);
    let mut fragments = no_spans();
    push_span(&mut fragments, span("├", Role::Border));
    append_spans(&mut fragments, rail.fragments);
    push_span(&mut fragments, span("┤", Role::Border));
    row(Role::Border, fragments)
}

/// The lines that have a form at `width`.
pub open spec fn shown_lines(lines: Seq<LineView>, width: nat) -> Seq<LineView>
    decreases lines.len(),
{
    if lines.len() == 0 {
        Seq::empty()
    } else if omitted(lines.last(), width) {
        shown_lines(lines.drop_last(), width)
    } else {
        shown_lines(lines.drop_last(), width).push(lines.last())
    }
}

/// Two lines side by side, three cells between their columns.
pub open spec fn paired_row(role: Role, left: LineView, right: LineView, width: nat) -> LineView {
    let left_width = beyond(width, 3) / 2;
    let right_width = beyond(width, left_width + 3);
    let laid = layout_of(left, left_width);
    row_of(
        role,
        laid.push(
            solid(strings::blank(beyond(left_width, spans_cells(laid)) + 3), Role::Text),
        ) + layout_of(right, right_width),
    )
}

/// The section's rows: stacked, or where `wide` side by side as far as both
/// columns reach and stacked below that.
pub open spec fn section_rows_of(section: SectionView, width: nat, wide: bool) -> Seq<LineView> {
    if !wide {
        shown_lines(section.left, width) + shown_lines(section.right, width)
    } else {
        let paired = smaller(section.left.len(), section.right.len());
        Seq::new(
            paired,
            |i: int| paired_row(section.role, section.left[i], section.right[i], width),
        ) + shown_lines(section.left.skip(paired as int), width) + shown_lines(
            section.right.skip(paired as int),
            width,
        )
    }
}

fn append_shown(rows: &mut Vec<CardLine>, lines: &Vec<CardLine>, from: usize, width: usize)
    requires
        from <= lines@.len(),
    ensures
        line_views(final(rows)@) == line_views(old(rows)@) + shown_lines(
            line_views(lines@).skip(from as int),
            width as nat,
        ),
{
    let ghost views = line_views(lines@).skip(from as int);
    let ghost before = line_views(rows@);
    let mut i: usize = from;
    assert(line_views(rows@) =~= before + shown_lines(views.take(0), width as nat));
    while i < lines.len()
        invariant
            from <= i <= lines@.len(),
            views == line_views(lines@).skip(from as int),
            line_views(rows@) == before + shown_lines(views.take(i - from), width as nat),
        decreases lines@.len() - i,
    {
        assert(views.take(i + 1 - from).drop_last() =~= views.take(i - from));
        if !omitted_at(&lines[i], width) {
            push_line(rows, copy_line(&lines[i]));
        }
        i = i + 1;
        assert(line_views(rows@) =~= before + shown_lines(views.take(i - from), width as nat));
    }
    assert(views.take(i - from) =~= views);
}

fn pair_line(role: Role, left: &CardLine, right: &CardLine, width: usize) -> (line: CardLine)
    requires
        sound_line(left@),
        sound_line(right@),
    ensures
        line@ == paired_row(role, left@, right@, width as nat),
{
    let left_width: usize = width.saturating_sub(3) / 2;
    let right_width: usize = width.saturating_sub(left_width + 3);
    let mut fragments = layout_line(left, left_width);
    let used: usize = spans_width(&fragments);
    push_span(
        &mut fragments,
        span(spaces(left_width.saturating_sub(used) + 3).as_str(), Role::Text),
    );
    append_spans(&mut fragments, layout_line(right, right_width));
    row(role, fragments)
}

/// Layout consumes the semantic columns directly. Where `wide`, paired columns
/// sit side by side; else each column stacks without relabeling its facts.
/// Rows with no form at `width` (a table header too narrow for its columns)
/// are left out rather than painted blank.
pub fn section_rows(section: &CardSection, width: usize, wide: bool) -> (rows: Vec<CardLine>)
    requires
        sound_lines(section@.left),
        sound_lines(section@.right),
    ensures
        line_views(rows@) == section_rows_of(section@, width as nat, wide),
{
    let mut rows = no_lines();
    assert(section@.left.skip(0) =~= section@.left);
    assert(section@.right.skip(0) =~= section@.right);
    if !wide {
        append_shown(&mut rows, &section.left, 0, width);
        append_shown(&mut rows, &section.right, 0, width);
        assert(line_views(rows@) =~= section_rows_of(section@, width as nat, wide));
        return rows;
    }
    let paired: usize = if section.left.len() <= section.right.len() {
        section.left.len()
    } else {
        section.right.len()
    };
    let ghost all = Seq::new(
        paired as nat,
        |i: int| paired_row(section.role, section@.left[i], section@.right[i], width as nat),
    );
    let mut i: usize = 0;
    assert(line_views(rows@) =~= all.take(0));
    while i < paired
        invariant
            i <= paired,
            paired <= section.left@.len(),
            paired <= section.right@.len(),
            sound_lines(section@.left),
            sound_lines(section@.right),
            all == Seq::new(
                paired as nat,
                |j: int|
                    paired_row(section.role, section@.left[j], section@.right[j], width as nat),
            ),
            line_views(rows@) == all.take(i as int),
        decreases paired - i,
    {
        assert(section@.left[i as int] == section.left@[i as int]@);
        assert(section@.right[i as int] == section.right@[i as int]@);
        push_line(&mut rows, pair_line(section.role, &section.left[i], &section.right[i], width));
        i = i + 1;
        assert(line_views(rows@) =~= all.take(i as int));
    }
    assert(all.take(i as int) =~= all);
    append_shown(&mut rows, &section.left, paired, width);
    append_shown(&mut rows, &section.right, paired, width);
    rows
}

/// `│ content │` with one cell of padding on each side of the content.
pub open spec fn framed(line: LineView, content: nat) -> LineView {
    let laid = layout_of(line, content);
    row_of(
        line.role,
        (seq![solid("│ "@, Role::Border)] + laid).push(
            solid(strings::blank(beyond(content, spans_cells(laid))), Role::Text),
        ).push(solid(" │"@, Role::Border)),
    )
}

fn frame_line(line: &CardLine, content: usize) -> (out: CardLine)
    requires
        sound_line(line@),
    ensures
        out@ == framed(line@, content as nat),
{
    let laid = layout_line(line, content);
    let used: usize = spans_width(&laid);
    let mut fragments = no_spans();
    push_span(&mut fragments, span("│ ", Role::Border));
    append_spans(&mut fragments, laid);
    push_span(&mut fragments, span(spaces(content.saturating_sub(used)).as_str(), Role::Text));
    push_span(&mut fragments, span(" │", Role::Border));
    row(line.role, fragments)
}

/// The card's width: what is available, 40 where that is unknown, up to 120
/// cells for the full card and 104 for the normal one.
pub open spec fn card_width(options: TextOptions) -> nat {
    let available = match options.width {
        Some(width) => if width == 0 {
            1
        } else {
            width as nat
        },
        None => 40,
    };
    smaller(
        available,
        if options.full {
            120
        } else {
            104
        },
    )
}

pub open spec fn framed_all(lines: Seq<LineView>, content: nat) -> Seq<LineView> {
    Seq::new(lines.len(), |i: int| framed(lines[i], content))
}

/// The framed rows of the first sections, each behind its rail.
pub open spec fn framed_sections(sections: Seq<SectionView>, width: nat) -> Seq<LineView>
    decreases sections.len(),
{
    if sections.len() == 0 {
        Seq::empty()
    } else {
        framed_sections(sections.drop_last(), width).push(
            connected_rail(sections.last().name, (width - 2) as nat),
        ) + framed_all(
            section_rows_of(sections.last(), (width - 4) as nat, width >= 80),
            (width - 4) as nat,
        )
    }
}

/// The unframed rows of the first sections, each behind its rail.
pub open spec fn bare_sections(sections: Seq<SectionView>, width: nat) -> Seq<LineView>
    decreases sections.len(),
{
    if sections.len() == 0 {
        Seq::empty()
    } else {
        bare_sections(sections.drop_last(), width).push(rail_of(sections.last().name, width))
            + section_rows_of(sections.last(), width, width >= 80)
    }
}

pub open spec fn laid_row(line: LineView, width: nat) -> LineView {
    row_of(line.role, layout_of(line, width))
}

/// `╭─title ────╮`.
pub open spec fn top_row(title: Seq<SpanView>, inner: nat) -> LineView {
    let shown = fit_spans(title, beyond(inner, 2));
    row_of(
        Role::Border,
        (seq![solid("╭─"@, Role::Border)] + shown).push(
            solid(
                " "@ + strings::repeated('─', beyond(inner, held(spans_cells(shown), 2))),
                Role::Border,
            ),
        ).push(solid("╮"@, Role::Border)),
    )
}

pub open spec fn bottom_row(inner: nat) -> LineView {
    row_of(
        Role::Border,
        seq![solid("╰"@, Role::Border)].push(
            solid(strings::repeated('─', inner), Role::Border),
        ).push(solid("╯"@, Role::Border)),
    )
}

/// The rows of the card. Embedded rows and those below 20 cells have no frame.
pub open spec fn card_rows(snapshot: Snapshot, options: TextOptions) -> Seq<LineView> {
    let width = card_width(options);
    let body = card_body_of(snapshot, options.full);
    if options.embedded || width < 20 {
        let rows = body.identity + bare_sections(body.sections, width);
        Seq::new(rows.len(), |i: int| laid_row(rows[i], width))
    } else {
        (seq![top_row(body.title, (width - 2) as nat)] + framed_all(
            body.identity,
            (width - 4) as nat,
        ) + framed_sections(body.sections, width)).push(bottom_row((width - 2) as nat))
    }
}

fn top_line(title: &Vec<CardSpan>, inner: usize) -> (line: CardLine)
    ensures
        line@ == top_row(span_views(title@), inner as nat),
{
    let shown = fit_fragments(title, inner.saturating_sub(2));
    let fill: usize = inner.saturating_sub(spans_width(&shown).saturating_add(2));
    let mut top = no_spans();
    push_span(&mut top, span("╭─", Role::Border));
    append_spans(&mut top, shown);
    push_span(
        &mut top,
        span(" ".to_owned().concat(repeat_char('─', fill).as_str()).as_str(), Role::Border),
    );
    push_span(&mut top, span("╮", Role::Border));
    row(Role::Border, top)
}

fn bottom_line(inner: usize) -> (line: CardLine)
    ensures
        line@ == bottom_row(inner as nat),
{
    let mut bottom = no_spans();
    push_span(&mut bottom, span("╰", Role::Border));
    push_span(&mut bottom, span(repeat_char('─', inner).as_str(), Role::Border));
    push_span(&mut bottom, span("╯", Role::Border));
    row(Role::Border, bottom)
}

fn append_framed(output: &mut Vec<CardLine>, lines: &Vec<CardLine>, content: usize)
    requires
        sound_lines(line_views(lines@)),
    ensures
        line_views(final(output)@) == line_views(old(output)@) + framed_all(
            line_views(lines@),
            content as nat,
        ),
{
    let ghost views = line_views(lines@);
    let ghost before = line_views(output@);
    let ghost all = framed_all(views, content as nat);
    let mut i: usize = 0;
    assert(line_views(output@) =~= before + all.take(0));
    while i < lines.len()
        invariant
            i <= lines@.len(),
            views == line_views(lines@),
            sound_lines(views),
            all == framed_all(views, content as nat),
            line_views(output@) == before + all.take(i as int),
        decreases lines@.len() - i,
    {
        assert(views[i as int] == lines@[i as int]@);
        push_line(output, frame_line(&lines[i], content));
        i = i + 1;
        assert(line_views(output@) =~= before + all.take(i as int));
    }
    assert(all.take(i as int) =~= all);
}

proof fn lemma_shown_sound(lines: Seq<LineView>, width: nat)
    requires
        sound_lines(lines),
    ensures
        sound_lines(shown_lines(lines, width)),
    decreases lines.len(),
{
    if lines.len() > 0 {
        assert(sound_line(lines[lines.len() - 1]));
        assert forall|i: int| 0 <= i < lines.drop_last().len() implies sound_line(
            #[trigger] lines.drop_last()[i],
        ) by {
            assert(lines.drop_last()[i] == lines[i]);
        }
        lemma_shown_sound(lines.drop_last(), width);
    }
}

/// The rows of a sound section are sound.
pub proof fn lemma_section_rows_sound(section: SectionView, width: nat, wide: bool)
    requires
        sound_lines(section.left),
        sound_lines(section.right),
    ensures
        sound_lines(section_rows_of(section, width, wide)),
{
    let paired = if wide {
        smaller(section.left.len(), section.right.len()) as int
    } else {
        0
    };
    let left = section.left.skip(paired);
    let right = section.right.skip(paired);
    assert forall|i: int| 0 <= i < left.len() implies sound_line(#[trigger] left[i]) by {
        assert(left[i] == section.left[paired + i]);
    }
    assert forall|i: int| 0 <= i < right.len() implies sound_line(#[trigger] right[i]) by {
        assert(right[i] == section.right[paired + i]);
    }
    lemma_shown_sound(left, width);
    lemma_shown_sound(right, width);
    if !wide {
        assert(left =~= section.left);
        assert(right =~= section.right);
    }
}

/// Every row of the card, already laid out at its cell width.
pub fn render_card(snapshot: &Snapshot, options: TextOptions) -> (output: Vec<CardLine>)
    requires
        renderable(*snapshot),
    ensures
        line_views(output@) == card_rows(*snapshot, options),
{
    let available: usize = match options.width {
        Some(width) => if width == 0 {
            1
        } else {
            width
        },
        None => 40,
    };
    let cap: usize = if options.full {
        120
    } else {
        104
    };
    let width: usize = if available <= cap {
        available
    } else {
        cap
    };
    let body = card_body(snapshot, options.full);
    proof {
        lemma_sound_body(*snapshot, options.full);
    }
    if options.embedded || width < 20 {
        render_bare(body, width)
    } else {
        render_framed(body, width)
    }
}

fn render_bare(body: CardBody, width: usize) -> (output: Vec<CardLine>)
    requires
        sound_body(body@),
    ensures
        line_views(output@) == Seq::new(
            (body@.identity + bare_sections(body@.sections, width as nat)).len(),
            |i: int|
                laid_row(
                    (body@.identity + bare_sections(body@.sections, width as nat))[i],
                    width as nat,
                ),
        ),
{
    let ghost identity = body@.identity;
    let ghost sections = body@.sections;
    let mut rows = body.identity;
    let mut i: usize = 0;
    assert(line_views(rows@) =~= identity + bare_sections(sections.take(0), width as nat));
    while i < body.sections.len()
        invariant
            i <= body.sections@.len(),
            sections == section_views(body.sections@),
            forall|j: int|
                0 <= j < sections.len() ==> sound_lines((#[trigger] sections[j]).left)
                    && sound_lines(sections[j].right),
            sound_lines(line_views(rows@)),
            line_views(rows@) == identity + bare_sections(sections.take(i as int), width as nat),
        decreases body.sections@.len() - i,
    {
        let section = &body.sections[i];
        assert(section@ == sections[i as int]);
        push_line(&mut rows, section_rail(section.name, width));
        proof {
            lemma_section_rows_sound(section@, width as nat, width >= 80);
            assert(sections.take(i + 1).drop_last() =~= sections.take(i as int));
        }
        append_lines(&mut rows, section_rows(section, width, width >= 80));
        i = i + 1;
        assert(line_views(rows@) =~= identity + bare_sections(
            sections.take(i as int),
            width as nat,
        ));
    }
    assert(sections.take(i as int) =~= sections);
    let ghost views = line_views(rows@);
    let ghost all = Seq::new(views.len(), |j: int| laid_row(views[j], width as nat));
    let mut output = no_lines();
    i = 0;
    assert(line_views(output@) =~= all.take(0));
    while i < rows.len()
        invariant
            i <= rows@.len(),
            views == line_views(rows@),
            sound_lines(views),
            all == Seq::new(views.len(), |j: int| laid_row(views[j], width as nat)),
            line_views(output@) == all.take(i as int),
        decreases rows@.len() - i,
    {
        assert(views[i as int] == rows@[i as int]@);
        let line = &rows[i];
        push_line(&mut output, row(line.role, layout_line(line, width)));
        i = i + 1;
        assert(line_views(output@) =~= all.take(i as int));
    }
    assert(all.take(i as int) =~= all);
    output
}

fn render_framed(body: CardBody, width: usize) -> (output: Vec<CardLine>)
    requires
        sound_body(body@),
        width >= 20,
    ensures
        line_views(output@) == (seq![top_row(body@.title, (width - 2) as nat)] + framed_all(
            body@.identity,
            (width - 4) as nat,
        ) + framed_sections(body@.sections, width as nat)).push(bottom_row((width - 2) as nat)),
{
    let inner: usize = width - 2;
    let content: usize = inner - 2;
    let ghost sections = body@.sections;
    let mut output = no_lines();
    push_line(&mut output, top_line(&body.title, inner));
    append_framed(&mut output, &body.identity, content);
    let ghost head = line_views(output@);
    let mut i: usize = 0;
    assert(line_views(output@) =~= head + framed_sections(sections.take(0), width as nat));
    while i < body.sections.len()
        invariant
            i <= body.sections@.len(),
            inner == width - 2,
            content == width - 4,
            width >= 20,
            sections == section_views(body.sections@),
            forall|j: int|
                0 <= j < sections.len() ==> sound_lines((#[trigger] sections[j]).left)
                    && sound_lines(sections[j].right),
            line_views(output@) == head + framed_sections(sections.take(i as int), width as nat),
        decreases body.sections@.len() - i,
    {
        let section = &body.sections[i];
        assert(section@ == sections[i as int]);
        push_line(&mut output, connected_section_rail(section.name, inner));
        let rows = section_rows(section, content, width >= 80);
        proof {
            lemma_section_rows_sound(section@, content as nat, width >= 80);
            assert(sections.take(i + 1).drop_last() =~= sections.take(i as int));
        }
        append_framed(&mut output, &rows, content);
        i = i + 1;
        assert(line_views(output@) =~= head + framed_sections(
            sections.take(i as int),
            width as nat,
        ));
    }
    assert(sections.take(i as int) =~= sections);
    push_line(&mut output, bottom_line(inner));
    output
}

/// Each row as text.
pub open spec fn row_texts(rows: Seq<LineView>, color: bool, colors: Palette) -> Seq<Seq<char>> {
    Seq::new(
        rows.len(),
        |i: int| chunks_text(expanded_spans(rows[i].fragments, colors), color),
    )
}

/// The serialized rows of the card.
pub open spec fn card_texts(snapshot: Snapshot, options: TextOptions) -> Seq<Seq<char>> {
    row_texts(card_rows(snapshot, options), options.color, theme::palette_of(options.theme))
}

fn serialize_rows(rows: &Vec<CardLine>, color: bool, colors: Palette) -> (found: Vec<String>)
    ensures
        strings::texts(found@) == row_texts(line_views(rows@), color, colors),
{
    let ghost views = line_views(rows@);
    let ghost all = row_texts(views, color, colors);
    let mut found = no_texts();
    let mut i: usize = 0;
    assert(strings::texts(found@) =~= all.take(0));
    while i < rows.len()
        invariant
            i <= rows@.len(),
            views == line_views(rows@),
            all == row_texts(views, color, colors),
            strings::texts(found@) == all.take(i as int),
        decreases rows@.len() - i,
    {
        assert(views[i as int] == rows@[i as int]@);
        push_text(&mut found, serialize_line(&rows[i], color, colors));
        i = i + 1;
        assert(strings::texts(found@) =~= all.take(i as int));
    }
    assert(all.take(i as int) =~= all);
    found
}

/// The card as text, one row to a line.
pub fn render_text(snapshot: &Snapshot, options: TextOptions) -> (text: String)
    requires
        renderable(*snapshot),
    ensures
        text@ == strings::joined(card_texts(*snapshot, options), "\n"@),
{
    let rows = render_card(snapshot, options);
    join(&serialize_rows(&rows, options.color, palette(options.theme)), "\n")
}

pub fn render(snapshot: &Snapshot, options: RenderOptions) -> (text: String)
    requires
        renderable(*snapshot),
    ensures
        text@ == strings::joined(card_texts(*snapshot, options), "\n"@),
{
    render_text(snapshot, options)
}

} // verus!
