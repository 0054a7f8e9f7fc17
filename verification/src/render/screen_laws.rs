//! What the live screen, the terminal and the colours promise.
use vstd::prelude::*;
use crate::config::{ImagePosition, ImageSettings, Settings, Theme};
use crate::render::images::{CellPixels, RenderMode, TerminalKind};
use crate::render::one_shot::Rect;
use crate::render::terminal;
use crate::render::terminal::{LiveTerminalGuard, TerminalStep, WindowGeometry};
use crate::render::text::{BodyView, LineView};
use crate::render::theme;
use crate::render::theme::{Palette, Rgb, Role, RuntimeRole, SystemRole};
use crate::render::tui;
use crate::strings;

verus! {

/// The live card stands at the top left of the screen, as wide as that, but no wider than
/// 104 cells, and in full no wider than 120.
pub proof fn law_the_live_card_takes_the_screen(area: Rect)
    ensures
        ({
            let card = tui::live_card(area, false);
            &&& card.x == area.x && card.y == area.y && card.height == area.height
            &&& area.width <= 104 ==> card.width == area.width
            &&& area.width > 104 ==> card.width == 104
        }),
        ({
            let card = tui::live_card(area, true);
            &&& card.x == area.x && card.y == area.y && card.height == area.height
            &&& area.width <= 120 ==> card.width == area.width
            &&& area.width > 120 ==> card.width == 120
        }),
{
}

/// An image at the left stands two columns in, is no larger than configured, leaves the text
/// its 32 columns and the frame, and stands in the middle of the rows beside it.
pub proof fn law_images_at_the_left_of_the_live_card(card: Rect, settings: Settings, rows: nat)
    requires
        rows <= 0xffff,
        card.x + 2 <= 0xffff,
        card.y + 1 + rows <= 0xffff,
        tui::left_area(card, settings, rows) is Some,
    ensures
        ({
            let area = tui::left_area(card, settings, rows)->0;
            let above = area.y - card.y - 1;
            let below = rows - area.height - above;
            &&& area.x == card.x + 2
            &&& 0 < area.width <= settings.image.width_cells
            &&& area.width + 37 <= card.width
            &&& area.width == settings.image.width_cells || area.width + 37 == card.width
            &&& 0 < area.height <= settings.image.max_height_rows
            &&& area.height + 2 <= rows
            &&& area.height == settings.image.max_height_rows || area.height + 2 == rows
            &&& above == below || above + 1 == below
        }),
{
}

/// There is such an image wherever three rows are there, and a cell for it.
pub proof fn law_room_at_the_left_of_the_live_card(card: Rect, settings: Settings, rows: nat)
    requires
        rows <= 0xffff,
    ensures
        tui::left_area(card, settings, rows) is Some <==> rows >= 3 && card.width >= 38
            && settings.image.width_cells > 0 && settings.image.max_height_rows > 0,
{
}

/// An image above the text is no wider than the card and stands in its middle, where all
/// rows of the text still fit below it.
pub proof fn law_images_above_the_live_card(card: Rect, settings: Settings, required: nat)
    requires
        card.x + card.width <= 0xffff,
        card.y + 1 <= 0xffff,
    ensures
        tui::top_area(card, settings, required) is Some <==> card.width >= 3
            && settings.image.width_cells > 0 && settings.image.max_height_rows > 0 && card.height
            >= 2 && required + settings.image.max_height_rows + 2 <= card.height,
        tui::top_area(card, settings, required) is Some ==> {
            let area = tui::top_area(card, settings, required)->0;
            let before = area.x - card.x - 1;
            let behind = card.width - 2 - area.width - before;
            &&& area.y == card.y + 1
            &&& area.height == settings.image.max_height_rows
            &&& area.width <= settings.image.width_cells
            &&& area.width + 2 <= card.width
            &&& area.width == settings.image.width_cells || area.width + 2 == card.width
            &&& before == behind || before + 1 == behind
        },
{
}

/// Wherever the rows fit and there is no image, the live card shows all of them.
pub proof fn law_the_live_card_shows_all_rows_that_fit(
    area: Rect,
    settings: Settings,
    body: BodyView,
    full: bool,
)
    requires
        body.sections.len() == 0,
        area.height >= 2,
        body.identity.len() <= area.height - 2,
    ensures
        ({
            let plan = tui::plan_of(area, settings, body, full, false);
            &&& plan.image is None
            &&& plan.lines == body.identity
        }),
{
    let card = tui::live_card(area, full);
    assert(tui::live_sections(body.sections, tui::inside(card.width) as nat, card.width >= 80)
        =~= Seq::<LineView>::empty());
    assert(tui::blank_rows(0) =~= Seq::<LineView>::empty());
    assert(tui::semantic_rows(body, body.identity.len(), card) =~= body.identity);
}

/// An image above the text takes its rows at the top, and the text follows whole.
pub proof fn law_text_follows_the_image_above_it(
    area: Rect,
    settings: Settings,
    body: BodyView,
    full: bool,
)
    requires
        body.sections.len() == 0,
        settings.image.position == ImagePosition::Top,
        tui::plan_of(area, settings, body, full, true).image is Some,
    ensures
        ({
            let plan = tui::plan_of(area, settings, body, full, true);
            plan.lines == tui::blank_rows(plan.image->0.height as nat) + body.identity
        }),
{
    let card = tui::live_card(area, full);
    assert(tui::live_sections(body.sections, tui::inside(card.width) as nat, card.width >= 80)
        =~= Seq::<LineView>::empty());
    assert(tui::blank_rows(0) =~= Seq::<LineView>::empty());
    assert(tui::semantic_rows(body, body.identity.len(), card) =~= body.identity);
}

/// Where the rows do not fit, as many rows of the identity are shown as leave one for the
/// words that say so.
pub proof fn law_rows_that_do_not_fit(identity: Seq<LineView>, height: nat, full: bool)
    requires
        height > 0,
    ensures
        ({
            let rows = tui::fallback_rows(identity, height, full);
            &&& rows.last() == tui::footer_row(full)
            &&& identity.len() < height ==> rows.len() == identity.len() + 1
            &&& identity.len() >= height ==> rows.len() == height
            &&& forall|i: int| 0 <= i < rows.len() - 1 ==> #[trigger] rows[i] == identity[i]
        }),
{
}

/// The pixels of a cell are what the window has for each column and each row, rounded down;
/// they are known only where that is one pixel at least.
pub proof fn law_cells_are_shares_of_the_window(geometry: WindowGeometry)
    ensures
        ({
            let cell = terminal::derived_cell_pixels(geometry);
            &&& cell is Some <==> geometry.columns > 0 && geometry.rows > 0 && geometry.width_px
                >= geometry.columns && geometry.height_px >= geometry.rows
            &&& cell is Some ==> {
                &&& cell->0.width * geometry.columns <= geometry.width_px
                &&& geometry.width_px < (cell->0.width + 1) * geometry.columns
                &&& cell->0.height * geometry.rows <= geometry.height_px
                &&& geometry.height_px < (cell->0.height + 1) * geometry.rows
                &&& cell->0.width > 0 && cell->0.height > 0
            }
        }),
{
    if terminal::derived_cell_pixels(geometry) is Some {
        lemma_share(geometry.width_px as int, geometry.columns as int);
        lemma_share(geometry.height_px as int, geometry.rows as int);
    }
}

proof fn lemma_share(whole: int, parts: int)
    requires
        parts > 0,
        whole >= parts,
    ensures
        (whole / parts) * parts <= whole,
        whole < (whole / parts + 1) * parts,
        whole / parts > 0,
{
    vstd::arithmetic::div_mod::lemma_fundamental_div_mod(whole, parts);
    let q = whole / parts;
    let r = whole % parts;
    assert(q * parts <= whole && whole < (q + 1) * parts && q > 0) by (nonlinear_arith)
        requires
            whole == parts * q + r,
            0 <= r < parts,
            whole >= parts,
    ;
}

/// The terminal is Ghostty where its environment says so, in any case or as a part of its
/// kind, and iTerm only where it names itself so; anything else is another.
pub proof fn law_terminals_name_themselves(program: Option<Seq<char>>, term: Option<Seq<char>>)
    ensures
        terminal::terminal_of(program, term) == TerminalKind::Ghostty <==> (program is Some
            && strings::lowered(program->0) == "ghostty"@) || (term is Some && strings::occurs(
            term->0,
            "ghostty"@,
        )),
        terminal::terminal_of(program, term) == TerminalKind::Iterm2 ==> program == Some(
            "iTerm.app"@,
        ),
        terminal::terminal_of(None, None) == TerminalKind::Other,
{
}

/// What is configured of a cell goes before what the window tells; it counts where both
/// lengths are given and neither is zero.
pub proof fn law_configured_cells_go_first(
    stdin: bool,
    program: Option<Seq<char>>,
    term: Option<Seq<char>>,
    tmux: Option<Seq<char>>,
    geometry: Option<WindowGeometry>,
    mode: RenderMode,
    settings: ImageSettings,
)
    ensures
        ({
            let caps = terminal::capabilities_of(
                stdin,
                program,
                term,
                tmux,
                geometry,
                mode,
                settings,
            );
            let both = settings.cell_width_px is Some && settings.cell_height_px is Some
                && settings.cell_width_px->0 > 0 && settings.cell_height_px->0 > 0;
            &&& caps.stdout_tty
            &&& caps.is_tmux <==> tmux is Some
            &&& caps.stdin_tty <==> mode == RenderMode::Live && stdin
            &&& both ==> caps.cell_pixels == Some(
                CellPixels {
                    width: settings.cell_width_px->0 as u32,
                    height: settings.cell_height_px->0 as u32,
                },
            )
            &&& !both && geometry is Some ==> caps.cell_pixels == terminal::derived_cell_pixels(
                geometry->0,
            )
            &&& !both && geometry is None ==> caps.cell_pixels is None
        }),
{
}

/// What a live view has taken over is given back, the last first: the cursor is shown, the
/// screen left and raw mode ended, each where it was taken.
pub proof fn law_what_was_taken_is_given_back(guard: LiveTerminalGuard)
    ensures
        guard.raw && guard.alternate && guard.cursor_hidden ==> terminal::restoring(guard) =~= seq![
            TerminalStep::ShowCursor,
            TerminalStep::LeaveAlternate,
            TerminalStep::DisableRaw,
        ],
        guard.raw && guard.alternate && !guard.cursor_hidden ==> terminal::restoring(guard)
            =~= seq![TerminalStep::LeaveAlternate, TerminalStep::DisableRaw],
        guard.raw && !guard.alternate && !guard.cursor_hidden ==> terminal::restoring(guard)
            =~= seq![TerminalStep::DisableRaw],
        !guard.raw && !guard.alternate && !guard.cursor_hidden ==> terminal::restoring(guard).len()
            == 0,
{
}

/// The colours of the roles: warnings are yellow, errors red, coverage green, and so on.
pub proof fn law_roles_have_their_colours(colors: Palette)
    ensures
        colors.color_of(Role::Error) == colors.red,
        colors.color_of(Role::Warning) == colors.yellow,
        colors.color_of(Role::Coverage) == colors.green,
        colors.color_of(Role::Git) == colors.sky,
        colors.color_of(Role::Time) == colors.lavender,
        colors.color_of(Role::Progress) == colors.blue,
        colors.color_of(Role::Context) == colors.peach,
        colors.color_of(Role::Primary) == colors.pink,
        colors.color_of(Role::Border) == colors.pink,
        colors.color_of(Role::Secondary) == colors.overlay,
        colors.color_of(Role::Text) == colors.text,
        colors.color_of(Role::Runtime(RuntimeRole::Rust)) == colors.peach,
        colors.color_of(Role::Runtime(RuntimeRole::Bun)) == colors.peach,
        colors.color_of(Role::Runtime(RuntimeRole::Python)) == colors.yellow,
        colors.color_of(Role::Runtime(RuntimeRole::Node)) == colors.green,
        colors.color_of(Role::Runtime(RuntimeRole::Go)) == colors.blue,
        colors.color_of(Role::Runtime(RuntimeRole::Other)) == colors.overlay,
        colors.color_of(Role::System(SystemRole::Health)) == colors.green,
        colors.color_of(Role::System(SystemRole::Memory)) == colors.green,
        colors.color_of(Role::System(SystemRole::Cpu)) == colors.blue,
        colors.color_of(Role::System(SystemRole::Disk)) == colors.peach,
{
}

/// The colours of the two themes.
pub proof fn law_themes_have_their_colours()
    ensures
        ({
            let dusk = theme::palette_of(Theme::Dusk);
            &&& dusk.pink == (Rgb { red: 0xF3, green: 0xBD, blue: 0xCA })
            &&& dusk.red == (Rgb { red: 0xE2, green: 0x78, blue: 0x78 })
            &&& dusk.peach == (Rgb { red: 0xDD, green: 0xA0, blue: 0x5C })
            &&& dusk.yellow == (Rgb { red: 0xDE, green: 0xC4, blue: 0x7C })
            &&& dusk.green == (Rgb { red: 0x82, green: 0xC8, blue: 0xA0 })
            &&& dusk.sky == (Rgb { red: 0x75, green: 0xD6, blue: 0xF6 })
            &&& dusk.blue == (Rgb { red: 0x68, green: 0xAC, blue: 0xE0 })
            &&& dusk.lavender == (Rgb { red: 0xB0, green: 0xBC, blue: 0xE8 })
            &&& dusk.text == (Rgb { red: 0xF3, green: 0xF5, blue: 0xFC })
            &&& dusk.overlay == (Rgb { red: 0x7E, green: 0x82, blue: 0x8F })
            &&& dusk.surface == (Rgb { red: 0x2F, green: 0x32, blue: 0x38 })
        }),
        ({
            let darker = theme::palette_of(Theme::DuskDarker);
            &&& darker.pink == (Rgb { red: 0xFF, green: 0xB8, blue: 0xD1 })
            &&& darker.red == (Rgb { red: 0xFF, green: 0x8F, blue: 0x9A })
            &&& darker.peach == (Rgb { red: 0xDD, green: 0xA0, blue: 0x5C })
            &&& darker.yellow == (Rgb { red: 0xF4, green: 0xDA, blue: 0x86 })
            &&& darker.green == (Rgb { red: 0x9B, green: 0xE6, blue: 0xB5 })
            &&& darker.sky == (Rgb { red: 0x8B, green: 0xD3, blue: 0xFF })
            &&& darker.blue == (Rgb { red: 0x7B, green: 0xC1, blue: 0xF2 })
            &&& darker.lavender == (Rgb { red: 0xB0, green: 0xBC, blue: 0xE8 })
            &&& darker.text == (Rgb { red: 0xFF, green: 0xFF, blue: 0xFF })
            &&& darker.overlay == (Rgb { red: 0x85, green: 0x8B, blue: 0x9C })
            &&& darker.surface == (Rgb { red: 0x20, green: 0x24, blue: 0x2E })
        }),
{
}

/// A blend begins at one colour, ends at the other, and lies between them on its way.
pub proof fn law_blends_lead_from_one_colour_to_the_other(
    start: u8,
    end: u8,
    numerator: int,
    denominator: int,
)
    requires
        0 <= numerator <= denominator,
        denominator > 0,
    ensures
        theme::blended_channel(start, end, 0, denominator) == start,
        theme::blended_channel(start, end, denominator, denominator) == end,
        start <= end ==> start <= theme::blended_channel(start, end, numerator, denominator) <= end,
        end <= start ==> end <= theme::blended_channel(start, end, numerator, denominator) <= start,
{
    let a = start as int;
    let b = end as int;
    let d = denominator;
    let n = numerator;
    let sum = a * (d - n) + b * n;
    let low = if a <= b {
        a
    } else {
        b
    };
    let high = if a <= b {
        b
    } else {
        a
    };
    assert(low * d <= sum <= high * d) by (nonlinear_arith)
        requires
            sum == a * (d - n) + b * n,
            0 <= n <= d,
            low <= a <= high,
            low <= b <= high,
    ;
    assert(a * (d - 0) + b * 0 == a * d) by (nonlinear_arith);
    assert(a * (d - d) + b * d == b * d) by (nonlinear_arith);
    vstd::arithmetic::div_mod::lemma_div_is_ordered(low * d, sum, d);
    vstd::arithmetic::div_mod::lemma_div_is_ordered(sum, high * d, d);
    vstd::arithmetic::div_mod::lemma_div_multiples_vanish(low, d);
    vstd::arithmetic::div_mod::lemma_div_multiples_vanish(high, d);
    vstd::arithmetic::div_mod::lemma_div_multiples_vanish(a, d);
    vstd::arithmetic::div_mod::lemma_div_multiples_vanish(b, d);
    assert(d * low == low * d && d * high == high * d && d * a == a * d && d * b == b * d)
        by (nonlinear_arith);
}

/// A toolchain has the accent of its runtime, whatever case its name is in: Bun before
/// Node, Node before Python, and the language where the runtime tells nothing.
pub proof fn law_toolchains_have_the_accent_of_their_runtime(
    language: Seq<char>,
    runtime: Seq<char>,
)
    ensures
        ({
            let role = theme::runtime_role_of(language, runtime);
            let name = strings::lowered(runtime);
            let bun = strings::occurs(name, "bun"@);
            let node = strings::occurs(name, "node"@);
            let python = strings::occurs(name, "python"@) || strings::lowered(language)
                == "python"@;
            let go = name == "go"@ || strings::begins_with(name, "go "@) || strings::lowered(
                language,
            ) == "go"@;
            let rust = strings::occurs(name, "rust"@) || name == "cargo"@ || strings::lowered(
                language,
            ) == "rust"@;
            &&& role == RuntimeRole::Bun <==> bun
            &&& role == RuntimeRole::Node <==> !bun && node
            &&& role == RuntimeRole::Python <==> !bun && !node && python
            &&& role == RuntimeRole::Go <==> !bun && !node && !python && go
            &&& role == RuntimeRole::Rust <==> !bun && !node && !python && !go && rust
        }),
{
}

/// A colour is set by its three channels, in the order of red, green and blue.
pub proof fn law_colours_are_set_by_their_channels(color: Rgb)
    ensures
        theme::ansi_text(color) == "\x1b[38;2;"@ + strings::decimal_text(color.red as nat) + ";"@
            + strings::decimal_text(color.green as nat) + ";"@ + strings::decimal_text(
            color.blue as nat,
        ) + "m"@,
{
}

} // verus!
