//! Text as a sequence of characters: the small vocabulary that every contract
//! of this crate speaks, and the executable functions that meet it.
use vstd::prelude::*;

verus! {

/// `String::push` appends one character.
pub assume_specification[ String::push ](string: &mut String, ch: char)
    ensures
        final(string)@ == old(string)@.push(ch),
;

/// The contents of a list of strings.
pub open spec fn texts(items: Seq<String>) -> Seq<Seq<char>> {
    Seq::new(items.len(), |i: int| items[i]@)
}

/// The contents of an optional string.
pub open spec fn optional_text(item: Option<String>) -> Option<Seq<char>> {
    match item {
        Some(text) => Some(text@),
        None => None,
    }
}

pub open spec fn optional_str(text: Option<&str>) -> Option<Seq<char>> {
    match text {
        Some(text) => Some(text@),
        None => None,
    }
}

/// `count` copies of `c`.
pub open spec fn repeated(c: char, count: nat) -> Seq<char> {
    Seq::new(count, |i: int| c)
}

/// `count` spaces.
pub open spec fn blank(count: nat) -> Seq<char> {
    repeated(' ', count)
}

/// The decimal digit of `value`, for values below ten.
pub open spec fn digit_char(value: nat) -> char {
    (('0' as u32) + value) as char
}

/// `value` written in decimal, without leading zeros.
pub open spec fn decimal_text(value: nat) -> Seq<char>
    decreases value,
{
    if value < 10 {
        seq![digit_char(value)]
    } else {
        decimal_text(value / 10).push(digit_char(value % 10))
    }
}

/// `text` followed by the spaces that bring it to `width` characters.
pub open spec fn padded_right(text: Seq<char>, width: nat) -> Seq<char> {
    if text.len() >= width {
        text
    } else {
        text + blank((width - text.len()) as nat)
    }
}

/// `text` preceded by the spaces that bring it to `width` characters.
pub open spec fn padded_left(text: Seq<char>, width: nat) -> Seq<char> {
    if text.len() >= width {
        text
    } else {
        blank((width - text.len()) as nat) + text
    }
}

/// One text stands before another in the order of their characters.
pub open spec fn precedes(first: Seq<char>, second: Seq<char>) -> bool
    decreases first.len(),
{
    if second.len() == 0 {
        false
    } else if first.len() == 0 {
        true
    } else if first[0] != second[0] {
        first[0] < second[0]
    } else {
        precedes(first.skip(1), second.skip(1))
    }
}

/// No text stands before itself.
pub proof fn lemma_precedes_is_strict(text: Seq<char>)
    ensures
        !precedes(text, text),
    decreases text.len(),
{
    if text.len() > 0 {
        lemma_precedes_is_strict(text.skip(1));
    }
}

/// The parts in order with `separator` between neighbours.
pub open spec fn joined(parts: Seq<Seq<char>>, separator: Seq<char>) -> Seq<char>
    decreases parts.len(),
{
    if parts.len() == 0 {
        Seq::empty()
    } else if parts.len() == 1 {
        parts[0]
    } else {
        joined(parts.drop_last(), separator) + separator + parts.last()
    }
}

/// The Unicode control characters.
pub open spec fn control(c: char) -> bool {
    (c as u32) < 0x20 || 0x7F <= (c as u32) < 0xA0
}

/// The characters with the Unicode property White_Space.
pub open spec fn whitespace(c: char) -> bool {
    let code = c as u32;
    ||| 0x09 <= code <= 0x0D
    ||| code == 0x20
    ||| code == 0x85
    ||| code == 0xA0
    ||| code == 0x1680
    ||| 0x2000 <= code <= 0x200A
    ||| code == 0x2028
    ||| code == 0x2029
    ||| code == 0x202F
    ||| code == 0x205F
    ||| code == 0x3000
}

/// `c` with an ASCII capital made small.
pub open spec fn lower(c: char) -> char {
    if 'A' <= c && c <= 'Z' {
        ((c as u32) + 32) as char
    } else {
        c
    }
}

/// `text` with its ASCII capitals made small.
pub open spec fn lowered(text: Seq<char>) -> Seq<char> {
    Seq::new(text.len(), |i: int| lower(text[i]))
}

/// `pattern` stands in `text` at position `at`.
pub open spec fn occurs_at(text: Seq<char>, pattern: Seq<char>, at: int) -> bool {
    &&& 0 <= at
    &&& at + pattern.len() <= text.len()
    &&& text.subrange(at, at + pattern.len()) == pattern
}

/// `pattern` stands somewhere in `text`.
pub open spec fn occurs(text: Seq<char>, pattern: Seq<char>) -> bool {
    exists|at: int| #[trigger] occurs_at(text, pattern, at)
}

/// `text` begins with `pattern`.
pub open spec fn begins_with(text: Seq<char>, pattern: Seq<char>) -> bool {
    occurs_at(text, pattern, 0)
}

/// `text` ends with `pattern`.
pub open spec fn finishes_with(text: Seq<char>, pattern: Seq<char>) -> bool {
    occurs_at(text, pattern, text.len() - pattern.len())
}

/// The first position at or after `from` that holds `c`, or the length.
pub open spec fn position_from(text: Seq<char>, c: char, from: int) -> int
    decreases text.len() - from,
{
    if from >= text.len() {
        text.len() as int
    } else if text[from] == c {
        from
    } else {
        position_from(text, c, from + 1)
    }
}

/// The pieces of `text` from `from` on, cut at every `c`.
pub open spec fn split_from(text: Seq<char>, c: char, from: int) -> Seq<Seq<char>>
    decreases text.len() - from,
{
    if from < 0 || from > text.len() {
        Seq::empty()
    } else {
        let end = position_from(text, c, from);
        if from <= end < text.len() {
            seq![text.subrange(from, end)] + split_from(text, c, end + 1)
        } else {
            seq![text.subrange(from, text.len() as int)]
        }
    }
}

/// The pieces of `text` between the occurrences of `c`; one piece where there is none.
pub open spec fn split_text(text: Seq<char>, c: char) -> Seq<Seq<char>> {
    split_from(text, c, 0)
}

/// `line` without one carriage return at its end.
pub open spec fn without_return(line: Seq<char>) -> Seq<char> {
    if line.len() > 0 && line.last() == '\r' {
        line.drop_last()
    } else {
        line
    }
}

/// The lines of `text` from `from` on. A line feed ends a line, a carriage
/// return before it goes with it, and nothing follows the last line feed.
pub open spec fn lines_from(text: Seq<char>, from: int) -> Seq<Seq<char>>
    decreases text.len() - from,
{
    if from < 0 || from >= text.len() {
        Seq::empty()
    } else {
        let end = position_from(text, '\n', from);
        if from <= end < text.len() {
            seq![without_return(text.subrange(from, end))] + lines_from(text, end + 1)
        } else {
            seq![text.subrange(from, text.len() as int)]
        }
    }
}

/// The lines of `text`.
pub open spec fn lines_text(text: Seq<char>) -> Seq<Seq<char>> {
    lines_from(text, 0)
}

/// `text` without the white space at its start.
pub open spec fn trimmed_start(text: Seq<char>) -> Seq<char>
    decreases text.len(),
{
    if text.len() > 0 && whitespace(text[0]) {
        trimmed_start(text.drop_first())
    } else {
        text
    }
}

/// `text` without the white space at its end.
pub open spec fn trimmed_end(text: Seq<char>) -> Seq<char>
    decreases text.len(),
{
    if text.len() > 0 && whitespace(text.last()) {
        trimmed_end(text.drop_last())
    } else {
        text
    }
}

/// `text` without the white space at either end.
pub open spec fn trimmed(text: Seq<char>) -> Seq<char> {
    trimmed_end(trimmed_start(text))
}

pub proof fn lemma_trimmed_start_is_suffix(text: Seq<char>)
    ensures
        trimmed_start(text).len() <= text.len(),
        trimmed_start(text) == text.skip(text.len() - trimmed_start(text).len()),
        trimmed_start(text).len() > 0 ==> !whitespace(trimmed_start(text)[0]),
    decreases text.len(),
{
    if text.len() > 0 && whitespace(text[0]) {
        lemma_trimmed_start_is_suffix(text.drop_first());
        let rest = text.drop_first();
        let out = trimmed_start(rest);
        assert(rest.skip(rest.len() - out.len()) =~= text.skip(text.len() - out.len()));
    } else {
        assert(text.skip(0) =~= text);
    }
}

/// The characters of `text`, in order.
pub fn chars_of(text: &str) -> (chars: Vec<char>)
    ensures
        chars@ == text@,
{
    let mut chars: Vec<char> = Vec::new();
    for c in it: text.chars()
        invariant
            it.seq() == text@,
            chars@ == text@.take(it.index()),
    {
        chars.push(c);
        assert(text@.take(it.index() + 1) =~= text@.take(it.index()).push(c));
    }
    assert(text@.take(text@.len() as int) =~= text@);
    chars
}

/// The string of `chars[from..to]`.
pub fn string_of(chars: &Vec<char>, from: usize, to: usize) -> (text: String)
    requires
        from <= to <= chars@.len(),
    ensures
        text@ == chars@.subrange(from as int, to as int),
{
    let mut text = String::new();
    let mut i: usize = from;
    while i < to
        invariant
            from <= i <= to <= chars@.len(),
            text@ == chars@.subrange(from as int, i as int),
        decreases to - i,
    {
        text.push(chars[i]);
        i = i + 1;
        assert(text@ =~= chars@.subrange(from as int, i as int));
    }
    text
}

/// Whether the two texts are the same.
pub fn same(left: &str, right: &str) -> (equal: bool)
    ensures
        equal == (left@ == right@),
{
    let a = chars_of(left);
    let b = chars_of(right);
    if a.len() != b.len() {
        return false;
    }
    let mut i: usize = 0;
    while i < a.len()
        invariant
            a@ == left@,
            b@ == right@,
            a@.len() == b@.len(),
            i <= a@.len(),
            forall|j: int| 0 <= j < i ==> a@[j] == b@[j],
        decreases a@.len() - i,
    {
        if a[i] != b[i] {
            return false;
        }
        i = i + 1;
    }
    assert(a@ =~= b@);
    true
}

/// `count` copies of `c`.
pub fn repeat_char(c: char, count: usize) -> (text: String)
    ensures
        text@ == repeated(c, count as nat),
{
    let mut text = String::new();
    let mut i: usize = 0;
    while i < count
        invariant
            i <= count,
            text@ == repeated(c, i as nat),
        decreases count - i,
    {
        text.push(c);
        i = i + 1;
        assert(text@ =~= repeated(c, i as nat));
    }
    text
}

/// `count` spaces.
pub fn spaces(count: usize) -> (text: String)
    ensures
        text@ == blank(count as nat),
{
    repeat_char(' ', count)
}

/// One decimal digit.
pub fn digit(value: u8) -> (c: char)
    requires
        value < 10,
    ensures
        c == digit_char(value as nat),
{
    (48u8 + value) as char
}

/// `value` in decimal.
pub fn decimal(value: u64) -> (text: String)
    ensures
        text@ == decimal_text(value as nat),
    decreases value,
{
    if value < 10 {
        let mut text = String::new();
        text.push(digit(value as u8));
        assert(text@ =~= decimal_text(value as nat));
        text
    } else {
        let mut text = decimal(value / 10);
        text.push(digit((value % 10) as u8));
        text
    }
}

/// `value` in decimal with at least two digits.
pub fn decimal_two(value: u64) -> (text: String)
    ensures
        text@ == if value < 10 {
            "0"@ + decimal_text(value as nat)
        } else {
            decimal_text(value as nat)
        },
{
    if value < 10 {
        "0".to_owned().concat(decimal(value).as_str())
    } else {
        decimal(value)
    }
}

/// `text` padded with spaces on its right to `width` characters.
pub fn pad_right(text: &str, width: usize) -> (padded: String)
    ensures
        padded@ == padded_right(text@, width as nat),
{
    let count: usize = chars_of(text).len();
    if count >= width {
        text.to_owned()
    } else {
        text.to_owned().concat(spaces(width - count).as_str())
    }
}

/// `text` padded with spaces on its left to `width` characters.
pub fn pad_left(text: &str, width: usize) -> (padded: String)
    ensures
        padded@ == padded_left(text@, width as nat),
{
    let count: usize = chars_of(text).len();
    if count >= width {
        text.to_owned()
    } else {
        spaces(width - count).concat(text)
    }
}

/// The parts in order with `separator` between neighbours.
pub fn join(parts: &Vec<String>, separator: &str) -> (text: String)
    ensures
        text@ == joined(texts(parts@), separator@),
{
    let mut text = String::new();
    let mut i: usize = 0;
    while i < parts.len()
        invariant
            i <= parts@.len(),
            text@ == joined(texts(parts@).take(i as int), separator@),
        decreases parts@.len() - i,
    {
        let ghost taken = texts(parts@).take(i as int + 1);
        if i > 0 {
            text.append(separator);
        }
        text.append(parts[i].as_str());
        i = i + 1;
        assert(taken.drop_last() =~= texts(parts@).take(i as int - 1));
        if i == 1 {
            assert(text@ =~= joined(taken, separator@));
        } else {
            assert(text@ =~= joined(taken, separator@));
        }
    }
    assert(texts(parts@).take(parts@.len() as int) =~= texts(parts@));
    text
}

/// `text` with every control character replaced by a space.
pub open spec fn sanitized(text: Seq<char>) -> Seq<char> {
    Seq::new(text.len(), |i: int| if control(text[i]) { ' ' } else { text[i] })
}

/// Whether `c` is a control character.
pub fn is_control(c: char) -> (yes: bool)
    ensures
        yes == control(c),
{
    let code: u32 = c as u32;
    code < 0x20 || (0x7F <= code && code < 0xA0)
}

/// Whether `c` is white space.
pub fn is_whitespace(c: char) -> (yes: bool)
    ensures
        yes == whitespace(c),
{
    let code: u32 = c as u32;
    (0x09 <= code && code <= 0x0D) || code == 0x20 || code == 0x85 || code == 0xA0 || code == 0x1680
        || (0x2000 <= code && code <= 0x200A) || code == 0x2028 || code == 0x2029 || code == 0x202F
        || code == 0x205F || code == 0x3000
}

/// `text` with every control character replaced by a space.
pub fn sanitize(text: &str) -> (clean: String)
    ensures
        clean@ == sanitized(text@),
{
    let chars = chars_of(text);
    let mut clean = String::new();
    let mut i: usize = 0;
    while i < chars.len()
        invariant
            chars@ == text@,
            i <= chars@.len(),
            clean@ == sanitized(text@).take(i as int),
        decreases chars@.len() - i,
    {
        let c = chars[i];
        clean.push(if is_control(c) { ' ' } else { c });
        i = i + 1;
        assert(clean@ =~= sanitized(text@).take(i as int));
    }
    assert(sanitized(text@).take(text@.len() as int) =~= sanitized(text@));
    clean
}

/// `c` with an ASCII capital made small.
pub fn lower_char(c: char) -> (small: char)
    ensures
        small == lower(c),
{
    if 'A' <= c && c <= 'Z' {
        ((c as u8) + 32) as char
    } else {
        c
    }
}

/// `text` with its ASCII capitals made small.
pub fn lower_text(text: &str) -> (small: String)
    ensures
        small@ == lowered(text@),
{
    let chars = chars_of(text);
    let mut small = String::new();
    let mut i: usize = 0;
    while i < chars.len()
        invariant
            chars@ == text@,
            i <= chars@.len(),
            small@ == lowered(text@).take(i as int),
        decreases chars@.len() - i,
    {
        small.push(lower_char(chars[i]));
        i = i + 1;
        assert(small@ =~= lowered(text@).take(i as int));
    }
    assert(lowered(text@).take(text@.len() as int) =~= lowered(text@));
    small
}

/// Whether `pattern` stands in `text` at `at`.
pub fn is_at(text: &Vec<char>, pattern: &Vec<char>, at: usize) -> (yes: bool)
    ensures
        yes == occurs_at(text@, pattern@, at as int),
{
    if at > text.len() || pattern.len() > text.len() - at {
        return false;
    }
    let mut i: usize = 0;
    while i < pattern.len()
        invariant
            i <= pattern@.len(),
            at + pattern@.len() <= text@.len() <= usize::MAX,
            forall|j: int| 0 <= j < i ==> text@[at + j] == pattern@[j],
        decreases pattern@.len() - i,
    {
        if text[at + i] != pattern[i] {
            assert(text@.subrange(at as int, at + pattern@.len())[i as int] != pattern@[i as int]);
            return false;
        }
        i = i + 1;
    }
    assert(text@.subrange(at as int, at + pattern@.len()) =~= pattern@);
    true
}

/// Whether `pattern` stands somewhere in `text`.
pub fn contains(text: &str, pattern: &str) -> (yes: bool)
    ensures
        yes == occurs(text@, pattern@),
{
    let chars = chars_of(text);
    let sought = chars_of(pattern);
    if sought.len() > chars.len() {
        return false;
    }
    let last: usize = chars.len() - sought.len();
    let mut at: usize = 0;
    loop
        invariant
            chars@ == text@,
            sought@ == pattern@,
            last == chars@.len() - sought@.len(),
            at <= last,
            forall|j: int| 0 <= j < at ==> !occurs_at(text@, pattern@, j),
        decreases last - at,
    {
        if is_at(&chars, &sought, at) {
            return true;
        }
        if at == last {
            return false;
        }
        at = at + 1;
    }
}

/// Whether `text` begins with `pattern`.
pub fn starts_with(text: &str, pattern: &str) -> (yes: bool)
    ensures
        yes == begins_with(text@, pattern@),
{
    is_at(&chars_of(text), &chars_of(pattern), 0)
}

/// Whether `text` ends with `pattern`.
pub fn ends_with(text: &str, pattern: &str) -> (yes: bool)
    ensures
        yes == finishes_with(text@, pattern@),
{
    let chars = chars_of(text);
    let sought = chars_of(pattern);
    if sought.len() > chars.len() {
        return false;
    }
    is_at(&chars, &sought, chars.len() - sought.len())
}

/// The first position at or after `from` that holds `c`, or the length.
pub fn find_char(chars: &Vec<char>, c: char, from: usize) -> (position: usize)
    requires
        from <= chars@.len(),
    ensures
        position == position_from(chars@, c, from as int),
        from <= position <= chars@.len(),
        position < chars@.len() ==> chars@[position as int] == c,
{
    let mut i: usize = from;
    while i < chars.len()
        invariant
            from <= i <= chars@.len(),
            position_from(chars@, c, from as int) == position_from(chars@, c, i as int),
        decreases chars@.len() - i,
    {
        if chars[i] == c {
            return i;
        }
        i = i + 1;
    }
    i
}

/// The pieces of `text` between the occurrences of `c`.
pub fn split(text: &str, c: char) -> (pieces: Vec<String>)
    ensures
        texts(pieces@) == split_text(text@, c),
{
    let chars = chars_of(text);
    let mut pieces: Vec<String> = Vec::new();
    let mut from: usize = 0;
    loop
        invariant_except_break
            from <= chars@.len(),
            texts(pieces@) + split_from(text@, c, from as int) == split_text(text@, c),
        invariant
            chars@ == text@,
        ensures
            texts(pieces@) == split_text(text@, c),
        decreases chars@.len() - from,
    {
        let end: usize = find_char(&chars, c, from);
        let piece = string_of(&chars, from, end);
        let ghost before = texts(pieces@);
        pieces.push(piece);
        assert(texts(pieces@) =~= before.push(text@.subrange(from as int, end as int)));
        if end >= chars.len() {
            assert(texts(pieces@) =~= before + split_from(text@, c, from as int));
            break;
        }
        assert(texts(pieces@) + split_from(text@, c, end + 1) =~= before + split_from(
            text@,
            c,
            from as int,
        ));
        from = end + 1;
    }
    pieces
}

/// The lines of `text`.
pub fn lines(text: &str) -> (found: Vec<String>)
    ensures
        texts(found@) == lines_text(text@),
{
    let chars = chars_of(text);
    let mut found: Vec<String> = Vec::new();
    let mut from: usize = 0;
    while from < chars.len()
        invariant
            chars@ == text@,
            from <= chars@.len(),
            texts(found@) + lines_from(text@, from as int) == lines_text(text@),
        decreases chars@.len() - from,
    {
        let end: usize = find_char(&chars, '\n', from);
        let ghost before = texts(found@);
        if end < chars.len() {
            let stop: usize = if end > from && chars[end - 1] == '\r' {
                end - 1
            } else {
                end
            };
            found.push(string_of(&chars, from, stop));
            assert(text@.subrange(from as int, stop as int) =~= without_return(
                text@.subrange(from as int, end as int),
            ));
            assert(texts(found@) + lines_from(text@, end + 1) =~= before + lines_from(
                text@,
                from as int,
            ));
            from = end + 1;
        } else {
            found.push(string_of(&chars, from, end));
            assert(texts(found@) + lines_from(text@, end as int) =~= before + lines_from(
                text@,
                from as int,
            ));
            from = end;
        }
    }
    assert(texts(found@) =~= lines_text(text@));
    found
}

/// `text` without the white space at its start.
pub fn trim_start(text: &str) -> (rest: String)
    ensures
        rest@ == trimmed_start(text@),
{
    let chars = chars_of(text);
    let mut from: usize = 0;
    assert(text@.skip(0) =~= text@);
    while from < chars.len() && is_whitespace(chars[from])
        invariant
            chars@ == text@,
            from <= chars@.len(),
            trimmed_start(text@) == trimmed_start(text@.skip(from as int)),
        decreases chars@.len() - from,
    {
        assert(text@.skip(from as int).drop_first() =~= text@.skip(from + 1));
        from = from + 1;
    }
    assert(text@.skip(from as int) =~= text@.subrange(from as int, text@.len() as int));
    string_of(&chars, from, chars.len())
}

/// `text` without the white space at either end.
pub fn trim(text: &str) -> (rest: String)
    ensures
        rest@ == trimmed(text@),
{
    let rest = trim_start(text);
    let chars = chars_of(rest.as_str());
    let mut to: usize = chars.len();
    assert(chars@.take(to as int) =~= chars@);
    while to > 0 && is_whitespace(chars[to - 1])
        invariant
            to <= chars@.len(),
            trimmed_end(chars@) == trimmed_end(chars@.take(to as int)),
        decreases to,
    {
        assert(chars@.take(to as int).drop_last() =~= chars@.take(to - 1));
        to = to - 1;
    }
    assert(chars@.take(to as int) =~= chars@.subrange(0, to as int));
    string_of(&chars, 0, to)
}

/// A copy of an optional string.
pub fn copy_optional(item: &Option<String>) -> (copy: Option<String>)
    ensures
        optional_text(copy) == optional_text(*item),
{
    match item {
        Some(text) => Some(text.clone()),
        None => None,
    }
}

/// An ASCII digit.
pub open spec fn decimal_digit(c: char) -> bool {
    '0' <= c && c <= '9'
}

pub open spec fn only_digits(text: Seq<char>) -> bool {
    forall|i: int| 0 <= i < text.len() ==> decimal_digit(#[trigger] text[i])
}

/// The number that decimal digits write.
pub open spec fn digits_number(text: Seq<char>) -> nat
    decreases text.len(),
{
    if text.len() == 0 {
        0
    } else {
        10 * digits_number(text.drop_last()) + ((text.last() as u32 - '0' as u32) as nat)
    }
}

/// The digits behind an optional plus sign.
pub open spec fn unsigned_digits(text: Seq<char>) -> Seq<char> {
    if text.len() > 0 && text[0] == '+' {
        text.skip(1)
    } else {
        text
    }
}

/// The number that `text` writes in decimal, an optional plus sign before it,
/// where it is one and fits in 64 bits.
pub open spec fn natural_of(text: Seq<char>) -> Option<u64> {
    let digits = unsigned_digits(text);
    if digits.len() > 0 && only_digits(digits) && digits_number(digits) <= u64::MAX {
        Some(digits_number(digits) as u64)
    } else {
        None
    }
}

proof fn lemma_digits_grow(text: Seq<char>, count: int)
    requires
        0 <= count <= text.len(),
        only_digits(text),
    ensures
        digits_number(text.take(count)) <= digits_number(text),
    decreases text.len() - count,
{
    if count < text.len() {
        lemma_digits_grow(text, count + 1);
        assert(text.take(count + 1).drop_last() =~= text.take(count));
        assert(decimal_digit(text[count]));
    } else {
        assert(text.take(count) =~= text);
    }
}

/// The number that `text` writes in decimal.
pub fn parse_natural(text: &str) -> (number: Option<u64>)
    ensures
        number == natural_of(text@),
{
    let chars = chars_of(text);
    let start: usize = if chars.len() > 0 && chars[0] == '+' {
        1
    } else {
        0
    };
    let ghost digits = unsigned_digits(text@);
    assert(digits =~= text@.skip(start as int));
    if start == chars.len() {
        return None;
    }
    let mut number: u64 = 0;
    let mut i: usize = start;
    assert(digits.take(0) =~= Seq::empty());
    while i < chars.len()
        invariant
            chars@ == text@,
            start <= i <= chars@.len(),
            digits == text@.skip(start as int),
            digits == unsigned_digits(text@),
            forall|j: int| 0 <= j < i - start ==> decimal_digit(#[trigger] digits[j]),
            number == digits_number(digits.take(i - start)),
        decreases chars@.len() - i,
    {
        let c = chars[i];
        assert(digits[i - start] == c);
        if !('0' <= c && c <= '9') {
            assert(!decimal_digit(digits[i - start]));
            return None;
        }
        let digit: u64 = (c as u64) - 48;
        let ghost next = digits.take(i + 1 - start);
        assert(next.drop_last() =~= digits.take(i - start));
        if number > 1844674407370955161 || (number == 1844674407370955161 && digit > 5) {
            proof {
                if only_digits(digits) {
                    lemma_digits_grow(digits, i + 1 - start);
                }
            }
            return None;
        }
        number = number * 10 + digit;
        i = i + 1;
    }
    assert(digits.take(i - start) =~= digits);
    Some(number)
}

/// What stands before and behind the first `c`, where there is one.
pub open spec fn cut_at(text: Seq<char>, c: char) -> Option<(Seq<char>, Seq<char>)> {
    let at = position_from(text, c, 0);
    if at < text.len() {
        Some((text.take(at), text.skip(at + 1)))
    } else {
        None
    }
}

/// The contents of an optional pair of strings.
pub open spec fn optional_pair(pair: Option<(String, String)>) -> Option<(Seq<char>, Seq<char>)> {
    match pair {
        Some(parts) => Some((parts.0@, parts.1@)),
        None => None,
    }
}

/// What stands before and behind the first `c`, where there is one.
pub fn split_once(text: &str, c: char) -> (pair: Option<(String, String)>)
    ensures
        optional_pair(pair) == cut_at(text@, c),
{
    let chars = chars_of(text);
    let at: usize = find_char(&chars, c, 0);
    if at >= chars.len() {
        return None;
    }
    let before = string_of(&chars, 0, at);
    let behind = string_of(&chars, at + 1, chars.len());
    assert(before@ =~= text@.take(at as int));
    assert(behind@ =~= text@.skip(at + 1));
    Some((before, behind))
}

/// The last position before `to` that holds `c`, or -1.
pub open spec fn last_position(text: Seq<char>, c: char, to: int) -> int
    decreases to,
{
    if to <= 0 {
        -1
    } else if text[to - 1] == c {
        to - 1
    } else {
        last_position(text, c, to - 1)
    }
}

/// What stands behind the last `c`, where there is one.
pub open spec fn behind_last(text: Seq<char>, c: char) -> Option<Seq<char>> {
    let at = last_position(text, c, text.len() as int);
    if at >= 0 {
        Some(text.skip(at + 1))
    } else {
        None
    }
}

/// What stands behind the last `c`, where there is one.
pub fn after_last(text: &str, c: char) -> (rest: Option<String>)
    ensures
        optional_text(rest) == behind_last(text@, c),
{
    let chars = chars_of(text);
    let mut to: usize = chars.len();
    while to > 0
        invariant
            chars@ == text@,
            to <= chars@.len(),
            last_position(text@, c, text@.len() as int) == last_position(text@, c, to as int),
        decreases to,
    {
        if chars[to - 1] == c {
            let rest = string_of(&chars, to, chars.len());
            assert(rest@ =~= text@.skip(to as int));
            return Some(rest);
        }
        to = to - 1;
    }
    None
}

/// Where the word ends that begins at `from`.
pub open spec fn word_end(text: Seq<char>, from: int) -> int
    decreases text.len() - from,
{
    if from >= text.len() || whitespace(text[from]) {
        from
    } else {
        word_end(text, from + 1)
    }
}

pub proof fn lemma_word_end(text: Seq<char>, from: int)
    requires
        0 <= from <= text.len(),
    ensures
        from <= word_end(text, from) <= text.len(),
        from < text.len() && !whitespace(text[from]) ==> word_end(text, from) > from,
    decreases text.len() - from,
{
    if from < text.len() && !whitespace(text[from]) {
        lemma_word_end(text, from + 1);
    }
}

/// The words of `text`: what stands between white space.
pub open spec fn words_text(text: Seq<char>) -> Seq<Seq<char>>
    decreases text.len(),
{
    let rest = trimmed_start(text);
    if rest.len() == 0 {
        Seq::empty()
    } else {
        proof {
            lemma_trimmed_start_is_suffix(text);
            lemma_word_end(rest, 0);
        }
        let end = word_end(rest, 0);
        seq![rest.take(end)] + words_text(rest.skip(end))
    }
}

/// The words of `text`.
pub fn words(text: &str) -> (found: Vec<String>)
    ensures
        texts(found@) == words_text(text@),
{
    let mut found: Vec<String> = Vec::new();
    let mut rest = text.to_owned();
    assert(texts(found@) + words_text(rest@) =~= words_text(text@));
    loop
        invariant_except_break
            texts(found@) + words_text(rest@) == words_text(text@),
        ensures
            texts(found@) == words_text(text@),
        decreases rest@.len(),
    {
        proof {
            lemma_trimmed_start_is_suffix(rest@);
        }
        let ghost before = rest@;
        let chars = chars_of(trim_start(rest.as_str()).as_str());
        if chars.len() == 0 {
            assert(texts(found@) =~= words_text(text@));
            break;
        }
        let mut end: usize = 0;
        while end < chars.len() && !is_whitespace(chars[end])
            invariant
                end <= chars@.len(),
                word_end(chars@, 0) == word_end(chars@, end as int),
            decreases chars@.len() - end,
        {
            end = end + 1;
        }
        proof {
            lemma_word_end(chars@, 0);
        }
        let word = string_of(&chars, 0, end);
        assert(word@ =~= chars@.take(end as int));
        rest = string_of(&chars, end, chars.len());
        assert(rest@ =~= chars@.skip(end as int));
        let ghost old_found = texts(found@);
        found.push(word);
        assert(texts(found@) =~= old_found.push(word@));
        assert(texts(found@) + words_text(rest@) =~= old_found + words_text(before));
    }
    found
}

} // verus!
