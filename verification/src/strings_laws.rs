//! What the ways of writing, cutting and reading text promise of one another.
use vstd::prelude::*;
use crate::strings;

verus! {

/// The character stands nowhere in the text.
pub open spec fn free_of(text: Seq<char>, c: char) -> bool {
    forall|i: int| 0 <= i < text.len() ==> #[trigger] text[i] != c
}

/// A number is written in decimal digits, at least one of them, and without a zero in front
/// unless it is zero.
pub proof fn law_numbers_are_written_in_digits(value: nat)
    ensures
        strings::decimal_text(value).len() > 0,
        forall|i: int|
            0 <= i < strings::decimal_text(value).len() ==> '0' <= #[trigger] strings::decimal_text(
                value,
            )[i] <= '9',
        value > 0 ==> strings::decimal_text(value)[0] != '0',
        value == 0 ==> strings::decimal_text(value) == seq!['0'],
    decreases value,
{
    lemma_digit_chars();
    let text = strings::decimal_text(value);
    if value >= 10 {
        law_numbers_are_written_in_digits(value / 10);
        let front = strings::decimal_text(value / 10);
        assert(text =~= front.push(strings::digit_char(value % 10)));
        assert forall|i: int| 0 <= i < text.len() implies '0' <= #[trigger] text[i] <= '9' by {
            if i < front.len() {
                assert(text[i] == front[i]);
            }
        }
    }
}

proof fn lemma_digit_chars()
    ensures
        forall|value: nat|
            value < 10 ==> '0' <= #[trigger] strings::digit_char(value) <= '9' && strings::digit_char(
                value,
            ) as u32 - '0' as u32 == value,
{
    assert forall|value: nat| value < 10 implies '0' <= #[trigger] strings::digit_char(value) <= '9'
        && strings::digit_char(value) as u32 - '0' as u32 == value by {
        assert(strings::digit_char(0) == '0');
        assert(strings::digit_char(1) == '1');
        assert(strings::digit_char(2) == '2');
        assert(strings::digit_char(3) == '3');
        assert(strings::digit_char(4) == '4');
        assert(strings::digit_char(5) == '5');
        assert(strings::digit_char(6) == '6');
        assert(strings::digit_char(7) == '7');
        assert(strings::digit_char(8) == '8');
        assert(strings::digit_char(9) == '9');
    }
}

proof fn lemma_digits_number_of_decimal(value: nat)
    ensures
        strings::digits_number(strings::decimal_text(value)) == value,
        strings::only_digits(strings::decimal_text(value)),
    decreases value,
{
    lemma_digit_chars();
    law_numbers_are_written_in_digits(value);
    let text = strings::decimal_text(value);
    if value >= 10 {
        lemma_digits_number_of_decimal(value / 10);
        assert(text.drop_last() =~= strings::decimal_text(value / 10));
        assert(text.last() == strings::digit_char(value % 10));
    } else {
        assert(text.drop_last() =~= Seq::<char>::empty());
        assert(strings::digits_number(text.drop_last()) == 0);
        assert(text.last() == strings::digit_char(value));
    }
}

/// A number that is written is read back, with a plus sign in front as well, wherever it
/// has 64 bits; what has more is none.
pub proof fn law_written_numbers_are_read_back(value: nat)
    ensures
        value <= u64::MAX ==> strings::natural_of(strings::decimal_text(value)) == Some(
            value as u64,
        ),
        value <= u64::MAX ==> strings::natural_of("+"@ + strings::decimal_text(value)) == Some(
            value as u64,
        ),
        value > u64::MAX ==> strings::natural_of(strings::decimal_text(value)) is None,
{
    reveal_strlit("+");
    lemma_digits_number_of_decimal(value);
    law_numbers_are_written_in_digits(value);
    let text = strings::decimal_text(value);
    let signed = "+"@ + text;
    assert(signed[0] == '+');
    assert(signed.skip(1) =~= text);
}

/// Two numbers that are written alike are the same number.
pub proof fn law_different_numbers_are_written_differently(first: nat, second: nat)
    requires
        strings::decimal_text(first) == strings::decimal_text(second),
    ensures
        first == second,
{
    lemma_digits_number_of_decimal(first);
    lemma_digits_number_of_decimal(second);
}

/// No text is a number that is empty or holds anything but digits behind one plus sign.
pub proof fn law_only_digits_are_numbers(text: Seq<char>)
    requires
        strings::natural_of(text) is Some,
    ensures
        text.len() > 0,
        forall|i: int| 1 <= i < text.len() ==> '0' <= #[trigger] text[i] <= '9',
        text[0] == '+' || '0' <= text[0] <= '9',
        text[0] == '+' ==> text.len() > 1,
{
    let digits = strings::unsigned_digits(text);
    assert forall|i: int| 1 <= i < text.len() implies '0' <= #[trigger] text[i] <= '9' by {
        if text[0] == '+' {
            assert(digits[i - 1] == text[i]);
        } else {
            assert(digits[i] == text[i]);
        }
    }
    if text[0] != '+' {
        assert(digits[0] == text[0]);
    }
}

pub proof fn lemma_position(text: Seq<char>, c: char, from: int, at: int)
    requires
        0 <= from <= at <= text.len(),
        forall|i: int| from <= i < at ==> #[trigger] text[i] != c,
        at < text.len() ==> text[at] == c,
    ensures
        strings::position_from(text, c, from) == at,
    decreases at - from,
{
    if from < at {
        assert(text[from] != c);
        lemma_position(text, c, from + 1, at);
    }
}

pub proof fn lemma_position_is_first(text: Seq<char>, c: char, from: int)
    requires
        0 <= from <= text.len(),
    ensures
        from <= strings::position_from(text, c, from) <= text.len(),
        forall|i: int|
            from <= i < strings::position_from(text, c, from) ==> #[trigger] text[i] != c,
        strings::position_from(text, c, from) < text.len() ==> text[strings::position_from(
            text,
            c,
            from,
        )] == c,
    decreases text.len() - from,
{
    if from < text.len() && text[from] != c {
        lemma_position_is_first(text, c, from + 1);
    }
}

proof fn lemma_split_from(text: Seq<char>, c: char, from: int)
    requires
        0 <= from <= text.len(),
    ensures
        strings::split_from(text, c, from) == strings::split_text(text.skip(from), c),
    decreases text.len() - from,
{
    let rest = text.skip(from);
    lemma_position_is_first(text, c, from);
    let end = strings::position_from(text, c, from);
    assert forall|i: int| 0 <= i < end - from implies #[trigger] rest[i] != c by {
        assert(text[from + i] != c);
    }
    lemma_position(rest, c, 0, end - from);
    if end < text.len() {
        lemma_split_from(text, c, end + 1);
        lemma_split_from(rest, c, end - from + 1);
        assert(text.skip(end + 1) =~= rest.skip(end - from + 1));
        assert(text.subrange(from, end) =~= rest.subrange(0, end - from));
    } else {
        assert(text.subrange(from, text.len() as int) =~= rest.subrange(0, rest.len() as int));
    }
}

/// Two texts with a character between them, of which the first is free of it, are cut into
/// the first and the pieces of the second; a text that is free of it is one piece.
pub proof fn law_pieces_are_what_stands_between(first: Seq<char>, c: char, second: Seq<char>)
    requires
        free_of(first, c),
    ensures
        strings::split_text(first, c) == seq![first],
        strings::split_text(first.push(c) + second, c) == seq![first] + strings::split_text(
            second,
            c,
        ),
        strings::cut_at(first, c) is None,
        strings::cut_at(first.push(c) + second, c) == Some((first, second)),
{
    lemma_position(first, c, 0, first.len() as int);
    assert(first.subrange(0, first.len() as int) =~= first);
    let whole = first.push(c) + second;
    lemma_position(whole, c, 0, first.len() as int);
    assert(whole.subrange(0, first.len() as int) =~= first);
    assert(whole.take(first.len() as int) =~= first);
    assert(whole.skip(first.len() as int + 1) =~= second);
    lemma_split_from(whole, c, first.len() as int + 1);
}

/// The pieces, with the character between them, are the text again, and none of them holds
/// it.
pub proof fn law_pieces_make_the_text_again(text: Seq<char>, c: char)
    ensures
        strings::split_text(text, c).len() > 0,
        strings::joined(strings::split_text(text, c), seq![c]) == text,
        forall|i: int|
            0 <= i < strings::split_text(text, c).len() ==> free_of(
                #[trigger] strings::split_text(text, c)[i],
                c,
            ),
    decreases text.len(),
{
    lemma_position_is_first(text, c, 0);
    let end = strings::position_from(text, c, 0);
    let pieces = strings::split_text(text, c);
    if end < text.len() {
        let first = text.take(end);
        let second = text.skip(end + 1);
        assert(first.push(c) + second =~= text);
        law_pieces_are_what_stands_between(first, c, second);
        law_pieces_make_the_text_again(second, c);
        let rest = strings::split_text(second, c);
        assert(pieces =~= seq![first] + rest);
        lemma_joined_from_the_front(first, rest, seq![c]);
        assert forall|i: int| 0 <= i < pieces.len() implies free_of(#[trigger] pieces[i], c) by {
            if i > 0 {
                assert(pieces[i] == rest[i - 1]);
            }
        }
    } else {
        assert(free_of(text, c));
        law_pieces_are_what_stands_between(text, c, text);
    }
}

/// Parts are joined from the front as from the back.
pub proof fn lemma_joined_from_the_front(
    first: Seq<char>,
    rest: Seq<Seq<char>>,
    separator: Seq<char>,
)
    requires
        rest.len() > 0,
    ensures
        strings::joined(seq![first] + rest, separator) == first + separator + strings::joined(
            rest,
            separator,
        ),
    decreases rest.len(),
{
    let all = seq![first] + rest;
    assert(all.last() == rest.last());
    if rest.len() == 1 {
        assert(all.drop_last() =~= seq![first]);
        assert(strings::joined(all.drop_last(), separator) == first);
        assert(strings::joined(rest, separator) == rest[0]);
    } else {
        assert(all.drop_last() =~= seq![first] + rest.drop_last());
        lemma_joined_from_the_front(first, rest.drop_last(), separator);
        assert(strings::joined(all, separator) =~= first + separator + strings::joined(
            rest,
            separator,
        ));
    }
}

proof fn lemma_lines_from(text: Seq<char>, from: int)
    requires
        0 <= from <= text.len(),
    ensures
        strings::lines_from(text, from) == strings::lines_text(text.skip(from)),
    decreases text.len() - from,
{
    let rest = text.skip(from);
    if from < text.len() {
        lemma_position_is_first(text, '\n', from);
        let end = strings::position_from(text, '\n', from);
        assert forall|i: int| 0 <= i < end - from implies #[trigger] rest[i] != '\n' by {
            assert(text[from + i] != '\n');
        }
        lemma_position(rest, '\n', 0, end - from);
        if end < text.len() {
            lemma_lines_from(text, end + 1);
            lemma_lines_from(rest, end - from + 1);
            assert(text.skip(end + 1) =~= rest.skip(end - from + 1));
            assert(text.subrange(from, end) =~= rest.subrange(0, end - from));
        } else {
            assert(text.subrange(from, text.len() as int) =~= rest.subrange(0, rest.len() as int));
        }
    }
}

/// A line that is ended by a line feed stands before the lines of what follows, without
/// the carriage return that the feed may have before it; no text has no line, and what no
/// feed ends is a line as it stands.
pub proof fn law_lines_end_with_a_feed(line: Seq<char>, rest: Seq<char>)
    requires
        free_of(line, '\n'),
    ensures
        line.len() > 0 && line.last() == '\r' ==> strings::lines_text(line.push('\n') + rest)
            == seq![line.drop_last()] + strings::lines_text(rest),
        line.len() == 0 || line.last() != '\r' ==> strings::lines_text(line.push('\n') + rest)
            == seq![line] + strings::lines_text(rest),
        line.len() > 0 ==> strings::lines_text(line) == seq![line],
        strings::lines_text(Seq::empty()) == Seq::<Seq<char>>::empty(),
{
    let whole = line.push('\n') + rest;
    lemma_position(whole, '\n', 0, line.len() as int);
    assert(whole.subrange(0, line.len() as int) =~= line);
    assert(whole.skip(line.len() as int + 1) =~= rest);
    lemma_lines_from(whole, line.len() as int + 1);
    lemma_position(line, '\n', 0, line.len() as int);
    assert(line.subrange(0, line.len() as int) =~= line);
}

/// Trimming takes white space from both ends and nothing else, and leaves none there.
pub proof fn law_trimming_takes_white_space_alone(text: Seq<char>)
    ensures
        ({
            let rest = strings::trimmed(text);
            &&& rest.len() > 0 ==> !strings::whitespace(rest[0]) && !strings::whitespace(
                rest.last(),
            )
            &&& exists|from: int, to: int|
                #![trigger text.subrange(from, to)]
                0 <= from <= to <= text.len() && rest == text.subrange(from, to) && (forall|i: int|
                    0 <= i < from || to <= i < text.len() ==> strings::whitespace(
                        #[trigger] text[i],
                    ))
        }),
{
    let start = strings::trimmed_start(text);
    lemma_trimmed_start(text);
    lemma_trimmed_end(start);
    let rest = strings::trimmed_end(start);
    let from = text.len() - start.len();
    let to = from + rest.len();
    assert(text.subrange(from, to) =~= rest) by {
        assert forall|i: int| 0 <= i < rest.len() implies text.subrange(from, to)[i] == rest[i] by {
            assert(start[i] == text[from + i]);
        }
    }
    assert forall|i: int| 0 <= i < from || to <= i < text.len() implies strings::whitespace(
        #[trigger] text[i],
    ) by {
        if to <= i {
            assert(start[i - from] == text[i]);
        }
    }
    if rest.len() > 0 {
        assert(rest[0] == start[0]);
    }
}

proof fn lemma_trimmed_start(text: Seq<char>)
    ensures
        strings::trimmed_start(text).len() <= text.len(),
        strings::trimmed_start(text) == text.skip(
            text.len() - strings::trimmed_start(text).len(),
        ),
        strings::trimmed_start(text).len() > 0 ==> !strings::whitespace(
            strings::trimmed_start(text)[0],
        ),
        forall|i: int|
            0 <= i < text.len() - strings::trimmed_start(text).len() ==> strings::whitespace(
                #[trigger] text[i],
            ),
    decreases text.len(),
{
    if text.len() > 0 && strings::whitespace(text[0]) {
        let rest = text.drop_first();
        lemma_trimmed_start(rest);
        let out = strings::trimmed_start(rest);
        assert(rest.skip(rest.len() - out.len()) =~= text.skip(text.len() - out.len()));
        assert forall|i: int| 0 <= i < text.len() - out.len() implies strings::whitespace(
            #[trigger] text[i],
        ) by {
            if i > 0 {
                assert(rest[i - 1] == text[i]);
            }
        }
    } else {
        assert(text.skip(0) =~= text);
    }
}

proof fn lemma_trimmed_end(text: Seq<char>)
    ensures
        strings::trimmed_end(text).len() <= text.len(),
        strings::trimmed_end(text) == text.take(strings::trimmed_end(text).len() as int),
        strings::trimmed_end(text).len() > 0 ==> !strings::whitespace(
            strings::trimmed_end(text).last(),
        ),
        forall|i: int|
            strings::trimmed_end(text).len() <= i < text.len() ==> strings::whitespace(
                #[trigger] text[i],
            ),
    decreases text.len(),
{
    if text.len() > 0 && strings::whitespace(text.last()) {
        let rest = text.drop_last();
        lemma_trimmed_end(rest);
        let out = strings::trimmed_end(rest);
        assert(rest.take(out.len() as int) =~= text.take(out.len() as int));
        assert forall|i: int| out.len() <= i < text.len() implies strings::whitespace(
            #[trigger] text[i],
        ) by {
            if i < rest.len() {
                assert(rest[i] == text[i]);
            }
        }
    } else {
        assert(text.take(text.len() as int) =~= text);
    }
}

/// A text without white space at its ends is trimmed to itself, and white space round it
/// goes.
pub proof fn law_trimming_is_undone_by_nothing(text: Seq<char>)
    ensures
        strings::trimmed(strings::trimmed(text)) == strings::trimmed(text),
        text.len() > 0 && !strings::whitespace(text[0]) && !strings::whitespace(text.last())
            ==> strings::trimmed(text) == text,
        strings::trimmed(" "@ + text) == strings::trimmed(text),
{
    reveal_strlit(" ");
    law_trimming_takes_white_space_alone(text);
    let spaced = " "@ + text;
    assert(spaced[0] == ' ');
    assert(spaced.drop_first() =~= text);
}

/// The white space of ASCII: space, tab, line feed, vertical tab, form feed and carriage
/// return.
pub proof fn law_white_space_of_ascii(c: char)
    requires
        (c as u32) < 0x80,
    ensures
        strings::whitespace(c) <==> c == ' ' || c == '\t' || c == '\n' || c == '\u{b}' || c
            == '\u{c}' || c == '\r',
{
}

/// A small letter stands for each capital of ASCII; every other character stays, the
/// length stays, and doing it twice does no more.
pub proof fn law_capitals_are_made_small(text: Seq<char>)
    ensures
        strings::lowered(text).len() == text.len(),
        forall|i: int|
            0 <= i < text.len() ==> if 'A' <= #[trigger] text[i] <= 'Z' {
                strings::lowered(text)[i] as u32 == text[i] as u32 + 32
            } else {
                strings::lowered(text)[i] == text[i]
            },
        strings::lowered(strings::lowered(text)) == strings::lowered(text),
{
    let small = strings::lowered(text);
    assert forall|i: int| 0 <= i < text.len() implies if 'A' <= #[trigger] text[i] <= 'Z' {
        small[i] as u32 == text[i] as u32 + 32
    } else {
        small[i] == text[i]
    } by {}
    assert(strings::lowered(small) =~= small) by {
        assert forall|i: int| 0 <= i < small.len() implies strings::lowered(small)[i] == small[i] by {
            assert('A' <= text[i] <= 'Z' || small[i] == text[i]);
        }
    }
}

/// No control character is left, nothing else changes, and no character is lost.
pub proof fn law_control_characters_are_taken_out(text: Seq<char>)
    ensures
        strings::sanitized(text).len() == text.len(),
        forall|i: int|
            0 <= i < text.len() ==> if (#[trigger] text[i] as u32) < 0x20 || 0x7f <= text[i] as u32
                <= 0x9f {
                strings::sanitized(text)[i] == ' '
            } else {
                strings::sanitized(text)[i] == text[i]
            },
{
}

/// Padding brings a text to a width with spaces, and cuts nothing.
pub proof fn law_padding_adds_spaces_alone(text: Seq<char>, width: nat)
    ensures
        text.len() <= width ==> strings::padded_right(text, width).len() == width
            && strings::padded_left(text, width).len() == width,
        text.len() >= width ==> strings::padded_right(text, width) == text
            && strings::padded_left(text, width) == text,
        forall|i: int|
            0 <= i < text.len() ==> strings::padded_right(text, width)[i] == #[trigger] text[i],
        forall|i: int|
            text.len() <= i < width ==> #[trigger] strings::padded_right(text, width)[i] == ' ',
        forall|i: int|
            0 <= i < width - text.len() ==> #[trigger] strings::padded_left(text, width)[i] == ' ',
        text.len() <= width ==> strings::padded_left(text, width).skip(width - text.len()) == text,
{
    if text.len() <= width {
        assert(strings::padded_left(text, width).skip(width - text.len()) =~= text);
    }
}

/// Joined parts stand one behind the other with the separator between each two, whatever
/// comes last last.
pub proof fn law_parts_are_joined_in_order(
    parts: Seq<Seq<char>>,
    last: Seq<char>,
    separator: Seq<char>,
)
    ensures
        strings::joined(Seq::empty(), separator) == Seq::<char>::empty(),
        parts.len() == 0 ==> strings::joined(parts.push(last), separator) == last,
        parts.len() > 0 ==> strings::joined(parts.push(last), separator) == strings::joined(
            parts,
            separator,
        ) + separator + last,
{
    assert(parts.push(last).drop_last() =~= parts);
    assert(parts.push(last).last() == last);
}

/// What stands behind the last of a character is free of it.
pub proof fn law_behind_the_last_is_free_of_it(front: Seq<char>, c: char, rest: Seq<char>)
    requires
        free_of(rest, c),
    ensures
        strings::behind_last(front.push(c) + rest, c) == Some(rest),
        strings::behind_last(rest, c) is None,
{
    let whole = front.push(c) + rest;
    lemma_last_position(whole, c, whole.len() as int, front.len() as int);
    assert(whole.skip(front.len() as int + 1) =~= rest);
    lemma_last_position(rest, c, rest.len() as int, -1);
}

proof fn lemma_last_position(text: Seq<char>, c: char, to: int, at: int)
    requires
        -1 <= at <= to <= text.len(),
        at < to,
        at >= 0 ==> text[at] == c,
        forall|i: int| at < i < to ==> #[trigger] text[i] != c,
    ensures
        strings::last_position(text, c, to) == at,
    decreases to,
{
    if at < to - 1 {
        assert(text[to - 1] != c);
        lemma_last_position(text, c, to - 1, at);
    }
}

/// A word and white space behind it stand before the words of what follows; white space in
/// front tells nothing.
pub proof fn law_words_stand_between_white_space(word: Seq<char>, rest: Seq<char>)
    requires
        word.len() > 0,
        forall|i: int| 0 <= i < word.len() ==> !strings::whitespace(#[trigger] word[i]),
        rest.len() > 0 ==> strings::whitespace(rest[0]),
    ensures
        strings::words_text(word + rest) == seq![word] + strings::words_text(rest),
        strings::words_text(" "@ + word + rest) == strings::words_text(word + rest),
        strings::words_text(Seq::empty()) == Seq::<Seq<char>>::empty(),
{
    reveal_strlit(" ");
    let whole = word + rest;
    assert(whole[0] == word[0]);
    lemma_word_end_at(whole, 0, word.len() as int);
    assert(whole.take(word.len() as int) =~= word);
    assert(whole.skip(word.len() as int) =~= rest);
    let spaced = " "@ + word + rest;
    assert(spaced[0] == ' ');
    assert(spaced.drop_first() =~= whole);
}

proof fn lemma_word_end_at(text: Seq<char>, from: int, at: int)
    requires
        0 <= from <= at <= text.len(),
        forall|i: int| from <= i < at ==> !strings::whitespace(#[trigger] text[i]),
        at < text.len() ==> strings::whitespace(text[at]),
    ensures
        strings::word_end(text, from) == at,
    decreases at - from,
{
    if from < at {
        assert(!strings::whitespace(text[from]));
        lemma_word_end_at(text, from + 1, at);
    }
}

} // verus!
