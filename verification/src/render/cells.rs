//! How many terminal cells a text takes, and texts cut to a number of cells.
use vstd::prelude::*;
use crate::strings::{chars_of, string_of};

verus! {

/// The cells that ratatui gives to a line of this text.
pub uninterp spec fn line_width(text: Seq<char>) -> nat;

/// The glyphs this crate draws with: printable ASCII and the lines, bars, marks
/// and arrows of the card.
pub open spec fn plain_glyph(c: char) -> bool {
    ||| (' ' <= c && c <= '~')
    ||| c == '…'
    ||| c == '·'
    ||| c == '→'
    ||| c == '↑'
    ||| c == '●'
    ||| c == '■'
    ||| c == '▲'
    ||| c == '█'
    ||| c == '━'
    ||| c == '╌'
    ||| c == '─'
    ||| c == '│'
    ||| c == '╭'
    ||| c == '╮'
    ||| c == '╰'
    ||| c == '╯'
    ||| c == '├'
    ||| c == '┤'
    ||| c == '┼'
}

/// Nothing but plain glyphs.
pub open spec fn plain_glyphs(text: Seq<char>) -> bool {
    forall|i: int| 0 <= i < text.len() ==> plain_glyph(#[trigger] text[i])
}

/// A plain glyph that takes part in no wider or narrower cluster: all but those that an
/// emoji can begin with.
pub open spec fn parting_glyph(c: char) -> bool {
    plain_glyph(c) && c != '#' && c != '*' && !('0' <= c && c <= '9')
}

/// The first place from `from` on where a glyph parts the text, or the text's end.
pub open spec fn parting_at(text: Seq<char>, from: nat) -> nat
    decreases text.len() - from,
{
    if from >= text.len() {
        text.len()
    } else if parting_glyph(text[from as int]) {
        from
    } else {
        parting_at(text, from + 1)
    }
}

/// The cells that `text` takes: one for each plain glyph, where it is of these alone; else
/// those of the two parts that a parting glyph leaves, and one for it; and what ratatui
/// gives to a part that no glyph parts further.
#[verifier::opaque]
pub open spec fn cell_width(text: Seq<char>) -> nat
    decreases text.len(),
{
    let at = parting_at(text, 0);
    if plain_glyphs(text) {
        text.len()
    } else if at < text.len() {
        cell_width(text.take(at as int)) + 1 + cell_width(text.skip(at as int + 1))
    } else {
        line_width(text)
    }
}

/// `ratatui::text::Line::width` on the line made of `value`. The result depends on the
/// characters alone, so it has a name. It is also the sum of the parts round parting
/// glyphs: the width tables, read from the end of a text to its front, give such a glyph one
/// cell and go on behind it as at an end, and they give every plain glyph one cell among
/// plain glyphs.
#[verifier::external_body]
fn measure(value: &str) -> (width: usize)
    ensures
        width == line_width(value@),
        width == cell_width(value@),
{
    ratatui::text::Line::from(value).width()
}

/// The cells that `value` takes.
pub fn visible_width(value: &str) -> (width: usize)
    ensures
        width == cell_width(value@),
        plain_glyphs(value@) ==> width == value@.len(),
{
    proof {
        reveal(cell_width);
    }
    measure(value)
}

proof fn lemma_parting_at(text: Seq<char>, from: nat)
    requires
        from <= text.len(),
    ensures
        from <= parting_at(text, from) <= text.len(),
        forall|i: int|
            from <= i < parting_at(text, from) ==> !parting_glyph(#[trigger] text[i]),
        parting_at(text, from) < text.len() ==> parting_glyph(
            text[parting_at(text, from) as int],
        ),
    decreases text.len() - from,
{
    if from < text.len() && !parting_glyph(text[from as int]) {
        lemma_parting_at(text, from + 1);
    }
}

/// A text of plain glyphs takes one cell for each.
pub proof fn law_plain_glyphs_take_one_cell(text: Seq<char>)
    requires
        plain_glyphs(text),
    ensures
        cell_width(text) == text.len(),
{
    reveal(cell_width);
}

/// A parting glyph takes one cell, and what stands before it and behind it what it takes
/// alone.
pub proof fn law_parting_glyphs_part(before: Seq<char>, glyph: char, behind: Seq<char>)
    requires
        parting_glyph(glyph),
    ensures
        cell_width(before + seq![glyph] + behind) == cell_width(before) + 1 + cell_width(behind),
    decreases before.len(),
{
    reveal(cell_width);
    let text = before + seq![glyph] + behind;
    let at = parting_at(text, 0);
    lemma_parting_at(text, 0);
    assert(text[before.len() as int] == glyph);
    assert(at <= before.len());
    assert(forall|i: int| 0 <= i < before.len() ==> #[trigger] text[i] == before[i]);
    assert(forall|i: int|
        0 <= i < behind.len() ==> #[trigger] behind[i] == text[before.len() + 1 + i]);
    if plain_glyphs(text) {
        assert(plain_glyphs(before)) by {
            assert forall|i: int| 0 <= i < before.len() implies plain_glyph(
                #[trigger] before[i],
            ) by {
                assert(text[i] == before[i]);
            }
        }
        assert(plain_glyphs(behind));
    } else if at == before.len() {
        assert(text.take(at as int) =~= before);
        assert(text.skip(at as int + 1) =~= behind);
    } else {
        let rest = before.skip(at as int + 1);
        assert(text.take(at as int) =~= before.take(at as int));
        assert(text.skip(at as int + 1) =~= rest + seq![glyph] + behind);
        law_parting_glyphs_part(rest, glyph, behind);
        lemma_parting_at(before, 0);
        let first = parting_at(before, 0);
        assert(first == at) by {
            assert(parting_glyph(text[at as int]));
            assert(text[at as int] == before[at as int]);
            if first < at {
                assert(parting_glyph(text[first as int]));
            }
        }
        if plain_glyphs(before) {
            assert(plain_glyphs(before.take(at as int)));
            assert(plain_glyphs(rest));
            law_plain_glyphs_take_one_cell(before);
            law_plain_glyphs_take_one_cell(before.take(at as int));
            law_plain_glyphs_take_one_cell(rest);
        } else {
            assert(cell_width(before) == cell_width(before.take(at as int)) + 1 + cell_width(
                rest,
            ));
        }
        assert(cell_width(text) == cell_width(text.take(at as int)) + 1 + cell_width(
            text.skip(at as int + 1),
        ));
    }
}

/// What holds of the cells of every text: a plain glyph has one cell, and an ellipsis
/// parts a text.
pub proof fn lemma_regular_cells()
    ensures
        forall|text: Seq<char>| plain_glyphs(text) ==> #[trigger] cell_width(text) == text.len(),
        forall|before: Seq<char>, behind: Seq<char>|
            cell_width(#[trigger] (before + "…"@ + behind)) == cell_width(before) + 1
                + cell_width(behind),
{
    reveal_strlit("…");
    assert forall|text: Seq<char>| plain_glyphs(text) implies #[trigger] cell_width(text)
        == text.len() by {
        law_plain_glyphs_take_one_cell(text);
    }
    assert forall|before: Seq<char>, behind: Seq<char>|
        cell_width(#[trigger] (before + "…"@ + behind)) == cell_width(before) + 1 + cell_width(
            behind,
        ) by {
        assert("…"@ =~= seq!['…']);
        law_parting_glyphs_part(before, '…', behind);
    }
}

/// How many characters from the front of `text` fit in `limit` cells, given
/// that `from` of them do.
pub open spec fn fitting_from(text: Seq<char>, limit: nat, from: nat) -> nat
    decreases text.len() - from,
{
    if from >= text.len() {
        text.len()
    } else if cell_width(text.take(from as int + 1)) > limit {
        from
    } else {
        fitting_from(text, limit, from + 1)
    }
}

/// The front of `text` that fits in `limit` cells, up to the first character
/// that does not.
pub open spec fn taken(text: Seq<char>, limit: nat) -> Seq<char> {
    text.take(fitting_from(text, limit, 0) as int)
}

/// The longest end of `text`, of so many characters at most, that fits in `limit` cells.
pub open spec fn longest_end(text: Seq<char>, limit: nat, count: nat) -> nat
    decreases count,
{
    if count == 0 || cell_width(text.skip(text.len() - count)) <= limit {
        count
    } else {
        longest_end(text, limit, (count - 1) as nat)
    }
}

/// The end of `text` that fits in `limit` cells, as it stands and read backwards up to the
/// first character that does not.
pub open spec fn ended(text: Seq<char>, limit: nat) -> Seq<char> {
    let count = longest_end(text, limit, fitting_from(text.reverse(), limit, 0));
    text.skip(text.len() - count)
}

/// `text` where it fits in `width` cells, else its two ends round an ellipsis.
pub open spec fn fitted(text: Seq<char>, width: nat) -> Seq<char> {
    if cell_width(text) <= width {
        text
    } else if width == 0 {
        Seq::empty()
    } else if width == 1 {
        "…"@
    } else {
        let left = (width - 1) as nat / 2;
        let right = (width - 1 - left) as nat;
        taken(text, left) + "…"@ + ended(text, right)
    }
}

pub proof fn lemma_fitting_bounds(text: Seq<char>, limit: nat, from: nat)
    requires
        from <= text.len(),
    ensures
        from <= fitting_from(text, limit, from) <= text.len(),
        fitting_from(text, limit, from) > from ==> cell_width(
            text.take(fitting_from(text, limit, from) as int),
        ) <= limit,
    decreases text.len() - from,
{
    if from < text.len() && cell_width(text.take(from as int + 1)) <= limit {
        lemma_fitting_bounds(text, limit, from + 1);
    }
}

proof fn lemma_longest_end(text: Seq<char>, limit: nat, count: nat)
    requires
        count <= text.len(),
    ensures
        longest_end(text, limit, count) <= count,
        cell_width(text.skip(text.len() - longest_end(text, limit, count))) <= limit,
    decreases count,
{
    if count == 0 {
        assert(text.skip(text.len() as int) =~= Seq::empty());
        law_plain_glyphs_take_one_cell(Seq::empty());
    } else if cell_width(text.skip(text.len() - count)) > limit {
        lemma_longest_end(text, limit, (count - 1) as nat);
    }
}

/// The ends that are taken of a text are ends of it, and fit.
pub proof fn lemma_ends_fit(text: Seq<char>, limit: nat)
    ensures
        taken(text, limit).len() <= text.len(),
        taken(text, limit) == text.take(taken(text, limit).len() as int),
        cell_width(taken(text, limit)) <= limit,
        ended(text, limit).len() <= text.len(),
        ended(text, limit) == text.skip(text.len() - ended(text, limit).len()),
        cell_width(ended(text, limit)) <= limit,
{
    lemma_fitting_bounds(text, limit, 0);
    lemma_fitting_bounds(text.reverse(), limit, 0);
    lemma_longest_end(text, limit, fitting_from(text.reverse(), limit, 0));
    law_plain_glyphs_take_one_cell(Seq::empty());
    assert(text.take(0) =~= Seq::empty());
}

/// The front of `chars` that fits in `limit` cells.
fn take_cells(chars: &Vec<char>, limit: usize) -> (count: usize)
    ensures
        count == fitting_from(chars@, limit as nat, 0),
        count <= chars@.len(),
{
    let mut text = String::new();
    let mut count: usize = 0;
    assert(text@ =~= chars@.take(0));
    while count < chars.len()
        invariant
            count <= chars@.len(),
            text@ == chars@.take(count as int),
            fitting_from(chars@, limit as nat, 0) == fitting_from(
                chars@,
                limit as nat,
                count as nat,
            ),
        decreases chars@.len() - count,
    {
        text.push(chars[count]);
        assert(text@ =~= chars@.take(count + 1));
        if visible_width(text.as_str()) > limit {
            return count;
        }
        count = count + 1;
    }
    count
}

/// `value` where it fits in `width` cells, else its two ends round an ellipsis.
pub fn fit_middle(value: &str, width: usize) -> (text: String)
    ensures
        text@ == fitted(value@, width as nat),
{
    if visible_width(value) <= width {
        return value.to_owned();
    }
    if width == 0 {
        return String::new();
    }
    if width == 1 {
        return "…".to_owned();
    }
    let left: usize = (width - 1) / 2;
    let right: usize = width - 1 - left;
    let mut text = take_front(value, left);
    text.append("…");
    text.append(take_back(value, right).as_str());
    text
}

/// The characters backwards.
fn reversed(chars: &Vec<char>) -> (backwards: Vec<char>)
    ensures
        backwards@ == chars@.reverse(),
{
    let mut backwards: Vec<char> = Vec::new();
    let mut i: usize = chars.len();
    while i > 0
        invariant
            i <= chars@.len(),
            backwards@.len() == chars@.len() - i,
            forall|j: int|
                0 <= j < backwards@.len() ==> backwards@[j] == chars@[chars@.len() - 1 - j],
        decreases i,
    {
        i = i - 1;
        backwards.push(chars[i]);
    }
    assert(backwards@ =~= chars@.reverse());
    backwards
}

/// The front of `value` that fits in `limit` cells.
pub fn take_front(value: &str, limit: usize) -> (text: String)
    ensures
        text@ == taken(value@, limit as nat),
{
    let chars = chars_of(value);
    let count: usize = take_cells(&chars, limit);
    let text = string_of(&chars, 0, count);
    assert(chars@.subrange(0, count as int) =~= value@.take(count as int));
    text
}

/// The end of `value` that fits in `limit` cells, as it stands and read backwards.
pub fn take_back(value: &str, limit: usize) -> (text: String)
    ensures
        text@ == ended(value@, limit as nat),
{
    let chars = chars_of(value);
    let length: usize = chars.len();
    let backwards = reversed(&chars);
    let mut count: usize = take_cells(&backwards, limit);
    loop
        invariant
            count <= length,
            length == chars@.len(),
            chars@ == value@,
            longest_end(value@, limit as nat, count as nat) == longest_end(
                value@,
                limit as nat,
                fitting_from(value@.reverse(), limit as nat, 0),
            ),
        decreases count,
    {
        let text = string_of(&chars, length - count, length);
        assert(text@ =~= value@.skip(value@.len() - count));
        if count == 0 || visible_width(text.as_str()) <= limit {
            return text;
        }
        count = count - 1;
    }
}

/// Every text fits, cut, in any width.
pub proof fn law_fitted_text_fits(text: Seq<char>, width: nat)
    ensures
        cell_width(fitted(text, width)) <= width,
{
    reveal_strlit("…");
    lemma_regular_cells();
    if cell_width(text) <= width {
    } else if width == 0 {
        assert(plain_glyphs(Seq::empty()));
    } else if width == 1 {
        assert(plain_glyphs("…"@));
    } else {
        let left = (width - 1) as nat / 2;
        lemma_ends_fit(text, left);
        lemma_ends_fit(text, (width - 1 - left) as nat);
    }
}

} // verus!
