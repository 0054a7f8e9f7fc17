//! Semantic roles, the two palettes, and the expansion of spans into colours.
use vstd::prelude::*;
use crate::strings;
use crate::config::Theme;
use crate::strings::{chars_of, contains, decimal, lower_text, same, starts_with, string_of};

verus! {

/// Semantic roles used by the one-shot card. A role describes why a value is
/// highlighted, not where it happens to be placed in the card.
#[derive(Clone, Copy, Debug, PartialEq, Eq, Structural)]
pub enum Role {
    Border,
    Primary,
    Git,
    Time,
    Context,
    Coverage,
    Progress,
    Runtime(RuntimeRole),
    System(SystemRole),
    Secondary,
    Warning,
    Error,
    Text,
}

/// Presentation treatment for a semantic card span.
#[derive(Clone, Copy, Debug, PartialEq, Eq, Structural)]
pub enum SpanStyle {
    Solid,
    Gradient,
}

/// System-health accents are semantic data roles, distinct from runtimes.
#[derive(Clone, Copy, Debug, PartialEq, Eq, Structural)]
pub enum SystemRole {
    Health,
    Cpu,
    Memory,
    Disk,
}

#[derive(Clone, Copy, Debug, PartialEq, Eq, Structural)]
pub enum RuntimeRole {
    Rust,
    Bun,
    Python,
    Node,
    Go,
    Other,
}

#[derive(Clone, Copy, Debug, PartialEq, Eq, Structural)]
pub struct Rgb {
    pub red: u8,
    pub green: u8,
    pub blue: u8,
}

#[derive(Clone, Debug, PartialEq, Eq)]
pub struct ExpandedChunk {
    pub text: String,
    pub color: Rgb,
}

impl Rgb {
    pub fn new(red: u8, green: u8, blue: u8) -> (color: Self)
        ensures
            color == (Rgb { red, green, blue }),
    {
        Rgb { red, green, blue }
    }

    /// The colour as `0xRRGGBB`.
    pub fn hex(self) -> (value: u32)
        ensures
            value == self.red * 0x1_0000 + self.green * 0x100 + self.blue,
    {
        self.red as u32 * 0x1_0000 + self.green as u32 * 0x100 + self.blue as u32
    }
}

#[derive(Clone, Copy, Debug, PartialEq, Eq, Structural)]
pub struct Palette {
    pub theme: Theme,
    pub pink: Rgb,
    pub red: Rgb,
    pub peach: Rgb,
    pub yellow: Rgb,
    pub green: Rgb,
    pub sky: Rgb,
    pub blue: Rgb,
    pub lavender: Rgb,
    pub text: Rgb,
    pub overlay: Rgb,
    pub surface: Rgb,
}

/// The colours of `theme`.
pub open spec fn palette_of(theme: Theme) -> Palette {
    match theme {
        Theme::Dusk => Palette {
            theme,
            pink: Rgb { red: 0xF3, green: 0xBD, blue: 0xCA },
            red: Rgb { red: 0xE2, green: 0x78, blue: 0x78 },
            peach: Rgb { red: 0xDD, green: 0xA0, blue: 0x5C },
            yellow: Rgb { red: 0xDE, green: 0xC4, blue: 0x7C },
            green: Rgb { red: 0x82, green: 0xC8, blue: 0xA0 },
            sky: Rgb { red: 0x75, green: 0xD6, blue: 0xF6 },
            blue: Rgb { red: 0x68, green: 0xAC, blue: 0xE0 },
            lavender: Rgb { red: 0xB0, green: 0xBC, blue: 0xE8 },
            text: Rgb { red: 0xF3, green: 0xF5, blue: 0xFC },
            overlay: Rgb { red: 0x7E, green: 0x82, blue: 0x8F },
            surface: Rgb { red: 0x2F, green: 0x32, blue: 0x38 },
        },
        Theme::DuskDarker => Palette {
            theme,
            pink: Rgb { red: 0xFF, green: 0xB8, blue: 0xD1 },
            red: Rgb { red: 0xFF, green: 0x8F, blue: 0x9A },
            peach: Rgb { red: 0xDD, green: 0xA0, blue: 0x5C },
            yellow: Rgb { red: 0xF4, green: 0xDA, blue: 0x86 },
            green: Rgb { red: 0x9B, green: 0xE6, blue: 0xB5 },
            sky: Rgb { red: 0x8B, green: 0xD3, blue: 0xFF },
            blue: Rgb { red: 0x7B, green: 0xC1, blue: 0xF2 },
            lavender: Rgb { red: 0xB0, green: 0xBC, blue: 0xE8 },
            text: Rgb { red: 0xFF, green: 0xFF, blue: 0xFF },
            overlay: Rgb { red: 0x85, green: 0x8B, blue: 0x9C },
            surface: Rgb { red: 0x20, green: 0x24, blue: 0x2E },
        },
    }
}

/// The escape sequence that sets the foreground to `color`.
pub open spec fn ansi_text(color: Rgb) -> Seq<char> {
    "\x1b[38;2;"@ + strings::decimal_text(color.red as nat) + ";"@
        + strings::decimal_text(color.green as nat) + ";"@ + strings::decimal_text(
        color.blue as nat,
    ) + "m"@
}

impl Palette {
    pub fn for_theme(theme: Theme) -> (palette: Self)
        ensures
            palette == palette_of(theme),
    {
        match theme {
            Theme::Dusk => Palette {
                theme,
                pink: Rgb::new(0xF3, 0xBD, 0xCA),
                red: Rgb::new(0xE2, 0x78, 0x78),
                peach: Rgb::new(0xDD, 0xA0, 0x5C),
                yellow: Rgb::new(0xDE, 0xC4, 0x7C),
                green: Rgb::new(0x82, 0xC8, 0xA0),
                sky: Rgb::new(0x75, 0xD6, 0xF6),
                blue: Rgb::new(0x68, 0xAC, 0xE0),
                lavender: Rgb::new(0xB0, 0xBC, 0xE8),
                text: Rgb::new(0xF3, 0xF5, 0xFC),
                overlay: Rgb::new(0x7E, 0x82, 0x8F),
                surface: Rgb::new(0x2F, 0x32, 0x38),
            },
            Theme::DuskDarker => Palette {
                theme,
                pink: Rgb::new(0xFF, 0xB8, 0xD1),
                red: Rgb::new(0xFF, 0x8F, 0x9A),
                peach: Rgb::new(0xDD, 0xA0, 0x5C),
                yellow: Rgb::new(0xF4, 0xDA, 0x86),
                green: Rgb::new(0x9B, 0xE6, 0xB5),
                sky: Rgb::new(0x8B, 0xD3, 0xFF),
                blue: Rgb::new(0x7B, 0xC1, 0xF2),
                lavender: Rgb::new(0xB0, 0xBC, 0xE8),
                text: Rgb::new(0xFF, 0xFF, 0xFF),
                overlay: Rgb::new(0x85, 0x8B, 0x9C),
                surface: Rgb::new(0x20, 0x24, 0x2E),
            },
        }
    }

    /// The colour that shows `role`.
    pub open spec fn color_of(self, role: Role) -> Rgb {
        match role {
            Role::Border | Role::Primary => self.pink,
            Role::Git => self.sky,
            Role::Time => self.lavender,
            Role::Context => self.peach,
            Role::Coverage => self.green,
            Role::Progress => self.blue,
            Role::Runtime(RuntimeRole::Rust) | Role::Runtime(RuntimeRole::Bun) => self.peach,
            Role::Runtime(RuntimeRole::Python) => self.yellow,
            Role::Runtime(RuntimeRole::Node) => self.green,
            Role::Runtime(RuntimeRole::Go) => self.blue,
            Role::Runtime(RuntimeRole::Other) => self.overlay,
            Role::System(SystemRole::Health) | Role::System(SystemRole::Memory) => self.green,
            Role::System(SystemRole::Cpu) => self.blue,
            Role::System(SystemRole::Disk) => self.peach,
            Role::Secondary => self.overlay,
            Role::Warning => self.yellow,
            Role::Error => self.red,
            Role::Text => self.text,
        }
    }

    pub fn color(self, role: Role) -> (color: Rgb)
        ensures
            color == self.color_of(role),
    {
        match role {
            Role::Border => self.pink,
            Role::Primary => self.pink,
            Role::Git => self.sky,
            Role::Time => self.lavender,
            Role::Context => self.peach,
            Role::Coverage => self.green,
            Role::Progress => self.blue,
            Role::Runtime(runtime) => match runtime {
                RuntimeRole::Rust => self.peach,
                RuntimeRole::Bun => self.peach,
                RuntimeRole::Python => self.yellow,
                RuntimeRole::Node => self.green,
                RuntimeRole::Go => self.blue,
                RuntimeRole::Other => self.overlay,
            },
            Role::System(system) => match system {
                SystemRole::Health => self.green,
                SystemRole::Memory => self.green,
                SystemRole::Cpu => self.blue,
                SystemRole::Disk => self.peach,
            },
            Role::Secondary => self.overlay,
            Role::Warning => self.yellow,
            Role::Error => self.red,
            Role::Text => self.text,
        }
    }

    pub fn ansi_foreground(self, role: Role) -> (text: String)
        ensures
            text@ == ansi_text(self.color_of(role)),
    {
        self.ansi_foreground_rgb(self.color(role))
    }

    pub fn ansi_foreground_rgb(self, color: Rgb) -> (text: String)
        ensures
            text@ == ansi_text(color),
    {
        let mut text = "\x1b[38;2;".to_owned();
        text.append(decimal(color.red as u64).as_str());
        text.append(";");
        text.append(decimal(color.green as u64).as_str());
        text.append(";");
        text.append(decimal(color.blue as u64).as_str());
        text.append("m");
        text
    }
}

pub const GRADIENT_START_PERCENT: usize = 35;

/// `numerator / denominator` of the way from `start` to `end`, rounded down.
pub open spec fn blended_channel(start: u8, end: u8, numerator: int, denominator: int) -> int {
    (start * (denominator - numerator) + end * numerator) / denominator
}

pub open spec fn blended(start: Rgb, end: Rgb, numerator: int, denominator: int) -> Rgb {
    Rgb {
        red: blended_channel(start.red, end.red, numerator, denominator) as u8,
        green: blended_channel(start.green, end.green, numerator, denominator) as u8,
        blue: blended_channel(start.blue, end.blue, numerator, denominator) as u8,
    }
}

/// The number of chunks that a gradient of `glyphs` glyphs is drawn in.
pub open spec fn chunk_count(glyphs: int) -> int {
    if glyphs < 5 {
        glyphs
    } else {
        5
    }
}

/// Where chunk `index` of a gradient begins: the first chunks are one glyph
/// longer where the glyphs do not divide evenly.
pub open spec fn chunk_start(glyphs: int, index: int) -> int {
    let chunks = chunk_count(glyphs);
    let extra = glyphs % chunks;
    index * (glyphs / chunks) + (if index < extra {
        index
    } else {
        extra
    })
}

/// The text and colour of one chunk.
pub struct ChunkView {
    pub text: Seq<char>,
    pub color: Rgb,
}

impl View for ExpandedChunk {
    type V = ChunkView;

    open spec fn view(&self) -> ChunkView {
        ChunkView { text: self.text@, color: self.color }
    }
}

pub open spec fn chunk_views(chunks: Seq<ExpandedChunk>) -> Seq<ChunkView> {
    Seq::new(chunks.len(), |i: int| chunks[i]@)
}

/// Chunk `index` of the gradient of `text` that ends in `target`.
pub open spec fn gradient_chunk(text: Seq<char>, surface: Rgb, target: Rgb, index: int) -> ChunkView {
    let glyphs = text.len() as int;
    let chunks = chunk_count(glyphs);
    ChunkView {
        text: text.subrange(chunk_start(glyphs, index), chunk_start(glyphs, index + 1)),
        color: if index + 1 == chunks {
            target
        } else {
            blended(
                blended(surface, target, GRADIENT_START_PERCENT as int, 100),
                target,
                index,
                chunks - 1,
            )
        },
    }
}

/// The chunks of one span: none of an empty text, one of a solid span or a
/// single glyph, and up to five that lead from a shade of the surface to the
/// exact colour otherwise.
pub open spec fn expanded(text: Seq<char>, role: Role, style: SpanStyle, colors: Palette) -> Seq<
    ChunkView,
> {
    let target = colors.color_of(role);
    if text.len() == 0 {
        Seq::empty()
    } else if style == SpanStyle::Solid || text.len() == 1 {
        seq![ChunkView { text, color: target }]
    } else {
        Seq::new(
            chunk_count(text.len() as int) as nat,
            |index: int| gradient_chunk(text, colors.surface, target, index),
        )
    }
}

/// Expand one semantic span into deterministic text/color chunks shared by
/// every serializer. Gradient spans begin at a 35% integer blend from the
/// palette surface and finish at the exact semantic target.
pub fn expand_span(text: &str, role: Role, style: SpanStyle, colors: Palette) -> (chunks: Vec<
    ExpandedChunk,
>)
    ensures
        chunk_views(chunks@) == expanded(text@, role, style, colors),
{
    let mut output: Vec<ExpandedChunk> = Vec::new();
    let characters = chars_of(text);
    let glyphs: usize = characters.len();
    if glyphs == 0 {
        assert(chunk_views(output@) =~= expanded(text@, role, style, colors));
        return output;
    }
    let target = colors.color(role);
    if style == SpanStyle::Solid || glyphs == 1 {
        output.push(ExpandedChunk { text: text.to_owned(), color: target });
        assert(chunk_views(output@) =~= expanded(text@, role, style, colors));
        return output;
    }
    let chunks: usize = if glyphs < 5 {
        glyphs
    } else {
        5
    };
    let start = blend(colors.surface, target, GRADIENT_START_PERCENT, 100);
    let base_size: usize = glyphs / chunks;
    let extra: usize = glyphs % chunks;
    let mut offset: usize = 0;
    let mut index: usize = 0;
    proof {
        assert(chunks * base_size + extra == glyphs) by (nonlinear_arith)
            requires
                base_size == glyphs / chunks,
                extra == glyphs % chunks,
                chunks > 0,
        ;
        assert(0 * base_size == 0);
    }
    while index < chunks
        invariant
            2 <= chunks <= 5,
            chunks == chunk_count(glyphs as int),
            glyphs >= 2,
            base_size == glyphs as int / chunks as int,
            extra == glyphs as int % chunks as int,
            extra < chunks,
            chunks * base_size + extra == glyphs,
            index <= chunks,
            characters@ == text@,
            glyphs == text@.len(),
            offset == chunk_start(glyphs as int, index as int),
            offset <= glyphs,
            start == blended(colors.surface, target, GRADIENT_START_PERCENT as int, 100),
            output@.len() == index,
            forall|i: int|
                0 <= i < index ==> #[trigger] output@[i]@ == gradient_chunk(
                    text@,
                    colors.surface,
                    target,
                    i,
                ),
        decreases chunks - index,
    {
        proof {
            assert((index + 1) * base_size == index * base_size + base_size) by (nonlinear_arith);
            assert((index + 1) * base_size <= chunks * base_size) by (nonlinear_arith)
                requires
                    index + 1 <= chunks,
                    base_size >= 0,
            ;
        }
        let size: usize = base_size + (if index < extra {
            1usize
        } else {
            0usize
        });
        let end: usize = offset + size;
        let color = if index + 1 == chunks {
            target
        } else {
            blend(start, target, index, chunks - 1)
        };
        output.push(ExpandedChunk { text: string_of(&characters, offset, end), color });
        offset = end;
        index = index + 1;
    }
    assert(chunk_views(output@) =~= expanded(text@, role, style, colors));
    output
}

/// `numerator / denominator` of the way from `start` to `end`.
pub fn blend(start: Rgb, end: Rgb, numerator: usize, denominator: usize) -> (color: Rgb)
    requires
        numerator <= denominator,
        0 < denominator <= 0x101_0101,
    ensures
        color == blended(start, end, numerator as int, denominator as int),
{
    Rgb::new(
        blend_channel(start.red, end.red, numerator, denominator),
        blend_channel(start.green, end.green, numerator, denominator),
        blend_channel(start.blue, end.blue, numerator, denominator),
    )
}

fn blend_channel(start: u8, end: u8, numerator: usize, denominator: usize) -> (channel: u8)
    requires
        numerator <= denominator,
        0 < denominator <= 0x101_0101,
    ensures
        channel == blended_channel(start, end, numerator as int, denominator as int),
        0 <= blended_channel(start, end, numerator as int, denominator as int) <= 255,
{
    let remaining: usize = denominator - numerator;
    proof {
        assert(start * remaining <= 255 * remaining) by (nonlinear_arith)
            requires
                0 <= start <= 255,
                remaining >= 0,
        ;
        assert(end * numerator <= 255 * numerator) by (nonlinear_arith)
            requires
                0 <= end <= 255,
                numerator >= 0,
        ;
        assert(0 <= start * remaining && 0 <= end * numerator) by (nonlinear_arith)
            requires
                start >= 0,
                end >= 0,
                remaining >= 0,
                numerator >= 0,
        ;
    }
    let weighted: u32 = start as u32 * remaining as u32 + end as u32 * numerator as u32;
    proof {
        assert(weighted as int / denominator as int <= 255) by (nonlinear_arith)
            requires
                weighted <= 255 * denominator,
                denominator > 0,
        ;
    }
    (weighted / denominator as u32) as u8
}

pub fn palette(theme: Theme) -> (colors: Palette)
    ensures
        colors == palette_of(theme),
{
    Palette::for_theme(theme)
}

/// The accent of a toolchain, by the names in lower case: the runtime's name
/// goes before the language's.
pub open spec fn runtime_role_of(language: Seq<char>, runtime: Seq<char>) -> RuntimeRole {
    let runtime = strings::lowered(runtime);
    let language = strings::lowered(language);
    if strings::occurs(runtime, "bun"@) {
        RuntimeRole::Bun
    } else if strings::occurs(runtime, "node"@) {
        RuntimeRole::Node
    } else if strings::occurs(runtime, "python"@) || language == "python"@ {
        RuntimeRole::Python
    } else if runtime == "go"@ || strings::begins_with(runtime, "go "@) || language
        == "go"@ {
        RuntimeRole::Go
    } else if strings::occurs(runtime, "rust"@) || runtime == "cargo"@ || language
        == "rust"@ {
        RuntimeRole::Rust
    } else {
        RuntimeRole::Other
    }
}

/// Pick the semantic runtime accent for a model toolchain row.
pub fn runtime_role(language: &str, runtime: &str) -> (role: RuntimeRole)
    ensures
        role == runtime_role_of(language@, runtime@),
{
    let runtime = lower_text(runtime);
    let language = lower_text(language);
    if contains(runtime.as_str(), "bun") {
        RuntimeRole::Bun
    } else if contains(runtime.as_str(), "node") {
        RuntimeRole::Node
    } else if contains(runtime.as_str(), "python") || same(language.as_str(), "python") {
        RuntimeRole::Python
    } else if same(runtime.as_str(), "go") || starts_with(runtime.as_str(), "go ") || same(
        language.as_str(),
        "go",
    ) {
        RuntimeRole::Go
    } else if contains(runtime.as_str(), "rust") || same(runtime.as_str(), "cargo") || same(
        language.as_str(),
        "rust",
    ) {
        RuntimeRole::Rust
    } else {
        RuntimeRole::Other
    }
}

/// The texts of `chunks` in order.
pub open spec fn chunk_text(chunks: Seq<ChunkView>) -> Seq<char>
    decreases chunks.len(),
{
    if chunks.len() == 0 {
        Seq::empty()
    } else {
        chunk_text(chunks.drop_last()) + chunks.last().text
    }
}

proof fn lemma_chunk_start_step(glyphs: int, index: int)
    requires
        glyphs >= 2,
        0 <= index < chunk_count(glyphs),
    ensures
        0 <= chunk_start(glyphs, index) <= chunk_start(glyphs, index + 1) <= glyphs,
        chunk_start(glyphs, chunk_count(glyphs)) == glyphs,
        chunk_start(glyphs, 0) == 0,
{
    let chunks = chunk_count(glyphs);
    let base = glyphs / chunks;
    let extra = glyphs % chunks;
    assert(chunks * base + extra == glyphs) by (nonlinear_arith)
        requires
            base == glyphs / chunks,
            extra == glyphs % chunks,
            chunks > 0,
    ;
    assert(base >= 0 && extra < chunks);
    assert(0 * base == 0);
    assert((index + 1) * base == index * base + base) by (nonlinear_arith);
    assert((index + 1) * base <= chunks * base) by (nonlinear_arith)
        requires
            index + 1 <= chunks,
            base >= 0,
    ;
    assert(index * base >= 0) by (nonlinear_arith)
        requires
            index >= 0,
            base >= 0,
    ;
}

proof fn lemma_gradient_prefix(text: Seq<char>, surface: Rgb, target: Rgb, count: int)
    requires
        text.len() >= 2,
        0 <= count <= chunk_count(text.len() as int),
    ensures
        chunk_text(Seq::new(count as nat, |i: int| gradient_chunk(text, surface, target, i)))
            == text.take(chunk_start(text.len() as int, count)),
        0 <= chunk_start(text.len() as int, count) <= text.len(),
    decreases count,
{
    let glyphs = text.len() as int;
    let chunks = Seq::new(count as nat, |i: int| gradient_chunk(text, surface, target, i));
    if count == 0 {
        lemma_chunk_start_step(glyphs, 0);
        assert(text.take(0) =~= Seq::empty());
    } else {
        lemma_gradient_prefix(text, surface, target, count - 1);
        lemma_chunk_start_step(glyphs, count - 1);
        assert(chunks.drop_last() =~= Seq::new(
            (count - 1) as nat,
            |i: int| gradient_chunk(text, surface, target, i),
        ));
        assert(chunk_text(chunks) =~= text.take(chunk_start(glyphs, count)));
    }
}

/// Expanding a span keeps its text: the chunks' texts, put together, are the
/// text that went in.
pub proof fn law_expansion_keeps_the_text(
    text: Seq<char>,
    role: Role,
    style: SpanStyle,
    colors: Palette,
)
    ensures
        chunk_text(expanded(text, role, style, colors)) == text,
{
    let chunks = expanded(text, role, style, colors);
    if text.len() == 0 {
        assert(chunk_text(chunks) =~= text);
    } else if style == SpanStyle::Solid || text.len() == 1 {
        assert(chunks.drop_last() =~= Seq::empty());
        assert(chunk_text(chunks.drop_last()) =~= Seq::empty());
        assert(chunk_text(chunks) =~= text);
    } else {
        let glyphs = text.len() as int;
        let count = chunk_count(glyphs);
        lemma_gradient_prefix(text, colors.surface, colors.color_of(role), count);
        lemma_chunk_start_step(glyphs, count - 1);
        assert(text.take(glyphs) =~= text);
    }
}

/// A span becomes at most five chunks, none of them empty, and the last one has
/// exactly the colour of its role.
pub proof fn law_expansion_is_bounded_and_ends_in_the_role(
    text: Seq<char>,
    role: Role,
    style: SpanStyle,
    colors: Palette,
)
    ensures
        expanded(text, role, style, colors).len() <= 5,
        forall|i: int|
            0 <= i < expanded(text, role, style, colors).len() ==> (#[trigger] expanded(
                text,
                role,
                style,
                colors,
            )[i]).text.len() > 0,
        text.len() > 0 ==> expanded(text, role, style, colors).len() > 0 && expanded(
            text,
            role,
            style,
            colors,
        ).last().color == colors.color_of(role),
{
    let chunks = expanded(text, role, style, colors);
    if style == SpanStyle::Gradient && text.len() > 1 {
        let glyphs = text.len() as int;
        let count = chunk_count(glyphs);
        assert forall|i: int| 0 <= i < chunks.len() implies (#[trigger] chunks[i]).text.len()
            > 0 by {
            lemma_chunk_start_step(glyphs, i);
            assert((i + 1) * (glyphs / count) == i * (glyphs / count) + glyphs / count)
                by (nonlinear_arith);
            assert(glyphs / count >= 1) by (nonlinear_arith)
                requires
                    glyphs >= count,
                    count > 0,
            ;
        }
    }
}

} // verus!
