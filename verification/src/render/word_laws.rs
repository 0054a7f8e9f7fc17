//! The words in which errors and kinds are told.
use vstd::prelude::*;
use crate::cli::Protocol;
use crate::config;
use crate::config::ImageFault;
use crate::model::{CoverageFormat, DiagnosticSeverity, Freshness};
use crate::render::cells;
use crate::render::images::ImageErrorView;
use crate::render::live::LiveErrorView;
use crate::render::one_shot::OneShotErrorView;
use crate::render::tui;
use crate::render::values;
use crate::strings;

verus! {

/// An error about an image says what is wrong, and where there is a path, a message or a
/// limit, which one.
pub proof fn law_errors_about_images_say_what_is_wrong(path: Seq<char>, message: Seq<char>)
    ensures
        (ImageErrorView::Io { path, message }).text() == "cannot read image "@ + path + ": "@
            + message,
        ImageErrorView::Decode(message).text() == "cannot decode image: "@ + message,
        ImageErrorView::Limit(message).text() == "image exceeds configured "@ + message
            + " limit"@,
        ImageErrorView::InvalidGeometry(message).text() == message,
        ImageErrorView::UnsupportedFormat.text()
            == "image format must be PNG, JPEG, GIF, or WebP"@,
        ImageErrorView::LiveRequiresTtys.text()
            == "live image display requires both stdin and stdout to be TTYs"@,
{
}

/// A protocol that lacks the pixels of a cell is named.
pub proof fn law_protocols_without_geometry_are_named()
    ensures
        ImageErrorView::MissingGeometry(Protocol::Kitty).text() == "Kitty"@
            + " images require configured cell pixel geometry"@,
        ImageErrorView::MissingGeometry(Protocol::Iterm2).text() == "Iterm2"@
            + " images require configured cell pixel geometry"@,
        ImageErrorView::MissingGeometry(Protocol::Sixel).text() == "Sixel"@
            + " images require configured cell pixel geometry"@,
        ImageErrorView::MissingGeometry(Protocol::Halfblocks).text() == "Halfblocks"@
            + " images require configured cell pixel geometry"@,
        ImageErrorView::MissingGeometry(Protocol::Auto).text() == "Auto"@
            + " images require configured cell pixel geometry"@,
        ImageErrorView::MissingGeometry(Protocol::Off).text() == "None"@
            + " images require configured cell pixel geometry"@,
{
}

/// An image that cannot be shown once: the columns that there are, and those that it takes.
pub proof fn law_errors_of_a_card_say_what_is_wrong(
    error: ImageErrorView,
    message: Seq<char>,
    available: u16,
    required: u16,
)
    ensures
        OneShotErrorView::Image(error).text() == error.text(),
        OneShotErrorView::Backend(message).text() == "cannot prepare terminal image: "@ + message,
        (OneShotErrorView::Narrow { available, required }).text()
            == "terminal is too narrow for image and compact text ("@ + strings::decimal_text(
            available as nat,
        ) + " columns; need "@ + strings::decimal_text(required as nat) + ")"@,
{
}

/// An error of the live view names the part of it that failed.
pub proof fn law_errors_of_the_live_view_name_their_part(
    error: ImageErrorView,
    message: Seq<char>,
)
    ensures
        LiveErrorView::Image(error).text() == error.text(),
        LiveErrorView::Event(message).text() == "live event error: "@ + message,
        LiveErrorView::Refresh(message).text() == "live refresh error: "@ + message,
        LiveErrorView::Render(message).text() == "live render error: "@ + message,
        LiveErrorView::Terminal(message).text() == "live terminal error: "@ + message,
        LiveErrorView::InvalidInput(message).text() == message,
{
}

/// What is wrong with the settings of an image is told by the name of the setting, and its
/// range.
pub proof fn law_faults_name_their_setting()
    ensures
        config::image_fault_text(ImageFault::WidthCells)
            == "image.width_cells must be between 1 and 120"@,
        config::image_fault_text(ImageFault::MaxHeightRows)
            == "image.max_height_rows must be between 1 and 60"@,
        config::image_fault_text(ImageFault::UnpairedCell)
            == "image.cell_width_px and image.cell_height_px must be configured together"@,
        config::image_fault_text(ImageFault::CellWidth)
            == "image.cell_width_px must be between 1 and 1000"@,
        config::image_fault_text(ImageFault::CellHeight)
            == "image.cell_height_px must be between 1 and 1000"@,
{
}

/// Severities, report formats and freshness are told by their names.
pub proof fn law_kinds_have_their_names()
    ensures
        values::severity_text(DiagnosticSeverity::Info) == "info"@,
        values::severity_text(DiagnosticSeverity::Warning) == "warning"@,
        values::severity_text(DiagnosticSeverity::Error) == "error"@,
        values::coverage_format_text(CoverageFormat::Lcov) == "lcov"@,
        values::coverage_format_text(CoverageFormat::CoberturaXml) == "cobertura-xml"@,
        values::coverage_format_text(CoverageFormat::JacocoXml) == "jacoco-xml"@,
        values::coverage_format_text(CoverageFormat::GoCoverprofile) == "go-coverprofile"@,
        values::coverage_format_text(CoverageFormat::IstanbulSummary) == "istanbul-summary"@,
        values::freshness_text(Freshness::Current) == "current"@,
        values::freshness_text(Freshness::Stale) == "stale"@,
        values::freshness_text(Freshness::Unknown) == "unknown"@,
{
}

proof fn lemma_plain_front(text: Seq<char>, limit: nat, from: nat)
    requires
        cells::plain_glyphs(text),
        from <= limit,
        limit < text.len(),
    ensures
        cells::fitting_from(text, limit, from) == limit,
    decreases limit - from,
{
    let front = text.take(from as int + 1);
    assert(cells::plain_glyphs(front)) by {
        assert forall|i: int| 0 <= i < front.len() implies cells::plain_glyph(
            #[trigger] front[i],
        ) by {
            assert(front[i] == text[i]);
        }
    }
    cells::law_plain_glyphs_take_one_cell(front);
    if from < limit {
        lemma_plain_front(text, limit, from + 1);
    }
}

proof fn lemma_plain_back(text: Seq<char>, limit: nat)
    requires
        cells::plain_glyphs(text),
        limit < text.len(),
    ensures
        cells::ended(text, limit) == text.skip(text.len() - limit),
{
    let reversed = text.reverse();
    assert(cells::plain_glyphs(reversed)) by {
        assert forall|i: int| 0 <= i < reversed.len() implies cells::plain_glyph(
            #[trigger] reversed[i],
        ) by {
            assert(reversed[i] == text[text.len() - 1 - i]);
        }
    }
    lemma_plain_front(reversed, limit, 0);
    let back = text.skip(text.len() - limit);
    assert(cells::plain_glyphs(back)) by {
        assert forall|i: int| 0 <= i < back.len() implies cells::plain_glyph(
            #[trigger] back[i],
        ) by {
            assert(back[i] == text[text.len() - limit + i]);
        }
    }
    cells::law_plain_glyphs_take_one_cell(back);
}

/// Plain text that does not fit keeps half of what fits at each end, the odd cell at the
/// back, and an ellipsis between; it is then as wide as the room. The live card cuts it in
/// the same way.
pub proof fn law_plain_text_is_cut_in_the_middle(text: Seq<char>, width: nat)
    requires
        cells::plain_glyphs(text),
        2 <= width < text.len(),
    ensures
        ({
            let front = (width - 1) / 2;
            let back = width / 2;
            let cut = text.take(front) + "…"@ + text.skip(text.len() - back);
            &&& cells::fitted(text, width) == cut
            &&& tui::live_fitted(text, width) == cut
            &&& cut.len() == width
        }),
{
    reveal_strlit("…");
    cells::law_plain_glyphs_take_one_cell(text);
    let left = (width - 1) as nat / 2;
    lemma_plain_front(text, left, 0);
    lemma_plain_back(text, (width / 2) as nat);
    let front = text.take(left as int);
    assert(cells::plain_glyphs(front)) by {
        assert forall|i: int| 0 <= i < front.len() implies cells::plain_glyph(
            #[trigger] front[i],
        ) by {
            assert(front[i] == text[i]);
        }
    }
    cells::law_plain_glyphs_take_one_cell(front);
    assert(width - 1 - left == width / 2);
}

/// Where there is one cell for a text that does not fit, the ellipsis stands in it; where
/// there is none, nothing does. The live card keeps a text that fits.
pub proof fn law_little_room_holds_the_ellipsis(text: Seq<char>, width: nat)
    ensures
        cells::cell_width(text) > 1 ==> cells::fitted(text, 1) == "…"@ && tui::live_fitted(text, 1)
            == "…"@,
        cells::cell_width(text) > 0 ==> cells::fitted(text, 0).len() == 0 && tui::live_fitted(
            text,
            0,
        ).len() == 0,
        cells::cell_width(text) <= width ==> tui::live_fitted(text, width) == text,
{
}

} // verus!
