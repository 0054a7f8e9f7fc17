//! Query-free Kitty Graphics Protocol serialization for one-shot output.
use vstd::prelude::*;
use crate::strings;
use crate::strings::{chars_of, decimal};

verus! {

pub const ESC: u8 = 0x1b;

pub const MAX_CHUNK: usize = 4096;

/// The marks that number rows and columns, in kitty's order, the first 256 of them.
pub const DIACRITICS: [char; 256] = [
    '\u{0305}', '\u{030D}', '\u{030E}', '\u{0310}', '\u{0312}', '\u{033D}', '\u{033E}', '\u{033F}',
    '\u{0346}', '\u{034A}', '\u{034B}', '\u{034C}', '\u{0350}', '\u{0351}', '\u{0352}', '\u{0357}',
    '\u{035B}', '\u{0363}', '\u{0364}', '\u{0365}', '\u{0366}', '\u{0367}', '\u{0368}', '\u{0369}',
    '\u{036A}', '\u{036B}', '\u{036C}', '\u{036D}', '\u{036E}', '\u{036F}', '\u{0483}', '\u{0484}',
    '\u{0485}', '\u{0486}', '\u{0487}', '\u{0592}', '\u{0593}', '\u{0594}', '\u{0595}', '\u{0597}',
    '\u{0598}', '\u{0599}', '\u{059C}', '\u{059D}', '\u{059E}', '\u{059F}', '\u{05A0}', '\u{05A1}',
    '\u{05A8}', '\u{05A9}', '\u{05AB}', '\u{05AC}', '\u{05AF}', '\u{05C4}', '\u{0610}', '\u{0611}',
    '\u{0612}', '\u{0613}', '\u{0614}', '\u{0615}', '\u{0616}', '\u{0617}', '\u{0657}', '\u{0658}',
    '\u{0659}', '\u{065A}', '\u{065B}', '\u{065D}', '\u{065E}', '\u{06D6}', '\u{06D7}', '\u{06D8}',
    '\u{06D9}', '\u{06DA}', '\u{06DB}', '\u{06DC}', '\u{06DF}', '\u{06E0}', '\u{06E1}', '\u{06E2}',
    '\u{06E4}', '\u{06E7}', '\u{06E8}', '\u{06EB}', '\u{06EC}', '\u{0730}', '\u{0732}', '\u{0733}',
    '\u{0735}', '\u{0736}', '\u{073A}', '\u{073D}', '\u{073F}', '\u{0740}', '\u{0741}', '\u{0743}',
    '\u{0745}', '\u{0747}', '\u{0749}', '\u{074A}', '\u{07EB}', '\u{07EC}', '\u{07ED}', '\u{07EE}',
    '\u{07EF}', '\u{07F0}', '\u{07F1}', '\u{07F3}', '\u{0816}', '\u{0817}', '\u{0818}', '\u{0819}',
    '\u{081B}', '\u{081C}', '\u{081D}', '\u{081E}', '\u{081F}', '\u{0820}', '\u{0821}', '\u{0822}',
    '\u{0823}', '\u{0825}', '\u{0826}', '\u{0827}', '\u{0829}', '\u{082A}', '\u{082B}', '\u{082C}',
    '\u{082D}', '\u{0951}', '\u{0953}', '\u{0954}', '\u{0F82}', '\u{0F83}', '\u{0F86}', '\u{0F87}',
    '\u{135D}', '\u{135E}', '\u{135F}', '\u{17DD}', '\u{193A}', '\u{1A17}', '\u{1A75}', '\u{1A76}',
    '\u{1A77}', '\u{1A78}', '\u{1A79}', '\u{1A7A}', '\u{1A7B}', '\u{1A7C}', '\u{1B6B}', '\u{1B6D}',
    '\u{1B6E}', '\u{1B6F}', '\u{1B70}', '\u{1B71}', '\u{1B72}', '\u{1B73}', '\u{1CD0}', '\u{1CD1}',
    '\u{1CD2}', '\u{1CDA}', '\u{1CDB}', '\u{1CE0}', '\u{1DC0}', '\u{1DC1}', '\u{1DC3}', '\u{1DC4}',
    '\u{1DC5}', '\u{1DC6}', '\u{1DC7}', '\u{1DC8}', '\u{1DC9}', '\u{1DCB}', '\u{1DCC}', '\u{1DD1}',
    '\u{1DD2}', '\u{1DD3}', '\u{1DD4}', '\u{1DD5}', '\u{1DD6}', '\u{1DD7}', '\u{1DD8}', '\u{1DD9}',
    '\u{1DDA}', '\u{1DDB}', '\u{1DDC}', '\u{1DDD}', '\u{1DDE}', '\u{1DDF}', '\u{1DE0}', '\u{1DE1}',
    '\u{1DE2}', '\u{1DE3}', '\u{1DE4}', '\u{1DE5}', '\u{1DE6}', '\u{1DFE}', '\u{20D0}', '\u{20D1}',
    '\u{20D4}', '\u{20D5}', '\u{20D6}', '\u{20D7}', '\u{20DB}', '\u{20DC}', '\u{20E1}', '\u{20E7}',
    '\u{20E9}', '\u{20F0}', '\u{2CEF}', '\u{2CF0}', '\u{2CF1}', '\u{2DE0}', '\u{2DE1}', '\u{2DE2}',
    '\u{2DE3}', '\u{2DE4}', '\u{2DE5}', '\u{2DE6}', '\u{2DE7}', '\u{2DE8}', '\u{2DE9}', '\u{2DEA}',
    '\u{2DEB}', '\u{2DEC}', '\u{2DED}', '\u{2DEE}', '\u{2DEF}', '\u{2DF0}', '\u{2DF1}', '\u{2DF2}',
    '\u{2DF3}', '\u{2DF4}', '\u{2DF5}', '\u{2DF6}', '\u{2DF7}', '\u{2DF8}', '\u{2DF9}', '\u{2DFA}',
    '\u{2DFB}', '\u{2DFC}', '\u{2DFD}', '\u{2DFE}', '\u{2DFF}', '\u{A66F}', '\u{A67C}', '\u{A67D}',
    '\u{A6F0}', '\u{A6F1}', '\u{A8E0}', '\u{A8E1}', '\u{A8E2}', '\u{A8E3}', '\u{A8E4}', '\u{A8E5}',
];

/// An image as bytes that transmit it and rows of text that show it.
#[derive(Clone, Debug, PartialEq, Eq)]
pub struct SerializedImage {
    pub transfer: Vec<u8>,
    pub placeholder_rows: Vec<String>,
}

#[derive(Clone, Copy, Debug, PartialEq, Eq, Structural)]
pub enum SerializeError {
    EmptyPayload,
    InvalidGeometry,
    Overflow,
}

pub const ID_STEP: u32 = 0x9e37_79b9;

/// The next value of the counter behind image ids.
pub fn next_counter(counter: u32) -> (next: u32)
    ensures
        next == (counter + ID_STEP) % 0x1_0000_0000,
{
    let sum: u64 = counter as u64 + ID_STEP as u64;
    (sum % 0x1_0000_0000) as u32
}

/// An image id from a counter, the time and the process: never zero.
pub fn image_id(counter: u32, time: u32, process: u32) -> (id: u32)
    ensures
        id == if counter ^ time ^ process == 0 {
            1
        } else {
            counter ^ time ^ process
        },
        id != 0,
{
    let mixed: u32 = counter ^ time ^ process;
    if mixed == 0 {
        1
    } else {
        mixed
    }
}

/// The base64 letter of a value below 64.
pub open spec fn letter(value: int) -> u8 {
    (if value < 26 {
        65 + value
    } else if value < 52 {
        97 + value - 26
    } else if value < 62 {
        48 + value - 52
    } else if value == 62 {
        43
    } else {
        47
    }) as u8
}

/// The byte at `index`, or zero behind the end.
pub open spec fn byte_or_zero(input: Seq<u8>, index: int) -> int {
    if 0 <= index < input.len() {
        input[index] as int
    } else {
        0
    }
}

/// The 24 bits of group `group`.
pub open spec fn group_bits(input: Seq<u8>, group: int) -> int {
    byte_or_zero(input, 3 * group) * 0x1_0000 + byte_or_zero(input, 3 * group + 1) * 0x100
        + byte_or_zero(input, 3 * group + 2)
}

/// The base64 character at `index`: six bits, or padding where the input ends.
pub open spec fn base64_char(input: Seq<u8>, index: int) -> u8 {
    let group = index / 4;
    let bits = group_bits(input, group);
    if index % 4 == 0 {
        letter(bits / 0x4_0000)
    } else if index % 4 == 1 {
        letter((bits / 0x1000) % 64)
    } else if index % 4 == 2 {
        if 3 * group + 1 < input.len() {
            letter((bits / 64) % 64)
        } else {
            61
        }
    } else {
        if 3 * group + 2 < input.len() {
            letter(bits % 64)
        } else {
            61
        }
    }
}

pub open spec fn base64_length(input: Seq<u8>) -> nat {
    ((input.len() + 2) / 3 * 4) as nat
}

/// The base64 text of the input, padded.
pub open spec fn base64_text(input: Seq<u8>) -> Seq<u8> {
    Seq::new(base64_length(input), |i: int| base64_char(input, i))
}

fn encode_letter(value: u32) -> (c: u8)
    requires
        value < 64,
    ensures
        c == letter(value as int),
{
    if value < 26 {
        65 + value as u8
    } else if value < 52 {
        97 + (value as u8 - 26)
    } else if value < 62 {
        48 + (value as u8 - 52)
    } else if value == 62 {
        43
    } else {
        47
    }
}

/// The base64 text of the input, unless it is longer than memory can be.
pub fn base64(input: &[u8]) -> (encoded: Result<Vec<u8>, SerializeError>)
    ensures
        encoded is Ok == (input@.len() + 2 <= usize::MAX && base64_length(input@) <= usize::MAX),
        encoded is Ok ==> encoded->Ok_0@ == base64_text(input@),
        encoded is Err ==> encoded->Err_0 == SerializeError::Overflow,
{
    if input.len() > usize::MAX - 2 {
        return Err(SerializeError::Overflow);
    }
    let groups: usize = (input.len() + 2) / 3;
    if groups > usize::MAX / 4 {
        return Err(SerializeError::Overflow);
    }
    let mut out: Vec<u8> = Vec::new();
    let mut group: usize = 0;
    while group < groups
        invariant
            group <= groups,
            groups == (input@.len() + 2) / 3,
            input@.len() + 2 <= usize::MAX,
            groups * 4 <= usize::MAX,
            out@ == base64_text(input@).take(4 * group),
        decreases groups - group,
    {
        let at: usize = 3 * group;
        let first: u32 = input[at] as u32;
        let second: u32 = if at + 1 < input.len() {
            input[at + 1] as u32
        } else {
            0
        };
        let third: u32 = if at + 2 < input.len() {
            input[at + 2] as u32
        } else {
            0
        };
        let bits: u32 = first * 0x1_0000 + second * 0x100 + third;
        assert(bits == group_bits(input@, group as int));
        let ghost before = out@;
        out.push(encode_letter(bits / 0x4_0000));
        out.push(encode_letter((bits / 0x1000) % 64));
        out.push(
            if at + 1 < input.len() {
                encode_letter((bits / 64) % 64)
            } else {
                61
            },
        );
        out.push(
            if at + 2 < input.len() {
                encode_letter(bits % 64)
            } else {
                61
            },
        );
        proof {
            let all = base64_text(input@);
            assert(all[4 * group] == base64_char(input@, 4 * group));
            assert(all[4 * group + 1] == base64_char(input@, 4 * group + 1));
            assert(all[4 * group + 2] == base64_char(input@, 4 * group + 2));
            assert(all[4 * group + 3] == base64_char(input@, 4 * group + 3));
            assert(out@ =~= all.take(4 * group + 4));
        }
        group = group + 1;
    }
    assert(out@ =~= base64_text(input@));
    Ok(out)
}

/// The value of a base64 letter; padding counts as zero.
pub open spec fn letter_value(c: u8) -> int {
    if 65 <= c <= 90 {
        c - 65
    } else if 97 <= c <= 122 {
        c - 97 + 26
    } else if 48 <= c <= 57 {
        c - 48 + 52
    } else if c == 43 {
        62
    } else if c == 47 {
        63
    } else {
        0
    }
}

/// The padding at the end of a base64 text.
pub open spec fn padding(text: Seq<u8>) -> int {
    if text.len() < 4 {
        0
    } else if text[text.len() - 2] == 61 {
        2
    } else if text[text.len() - 1] == 61 {
        1
    } else {
        0
    }
}

pub open spec fn decoded_bits(text: Seq<u8>, group: int) -> int {
    letter_value(text[4 * group]) * 0x4_0000 + letter_value(text[4 * group + 1]) * 0x1000
        + letter_value(text[4 * group + 2]) * 64 + letter_value(text[4 * group + 3])
}

/// The bytes that a base64 text stands for.
pub open spec fn base64_decoded(text: Seq<u8>) -> Seq<u8> {
    Seq::new(
        (3 * (text.len() / 4) - padding(text)) as nat,
        |i: int|
            {
                let bits = decoded_bits(text, i / 3);
                (if i % 3 == 0 {
                    bits / 0x1_0000
                } else if i % 3 == 1 {
                    (bits / 0x100) % 0x100
                } else {
                    bits % 0x100
                }) as u8
            },
    )
}

proof fn lemma_letter_value(value: int)
    requires
        0 <= value < 64,
    ensures
        letter_value(letter(value)) == value,
        letter(value) != 61,
{
}

/// A number of 24 bits is its four groups of six bits.
proof fn lemma_six_bit_groups(bits: int)
    requires
        0 <= bits < 0x100_0000,
    ensures
        0 <= bits / 0x4_0000 < 64,
        bits == (bits / 0x4_0000) * 0x4_0000 + ((bits / 0x1000) % 64) * 0x1000 + ((bits / 64) % 64)
            * 64 + bits % 64,
{
    let one = bits / 64;
    let two = one / 64;
    let three = two / 64;
    assert(bits == 64 * one + bits % 64);
    assert(one == 64 * two + one % 64);
    assert(two == 64 * three + two % 64);
    assert(bits / 0x1000 == two);
    assert(bits / 0x4_0000 == three);
}

/// Bytes put together and taken apart again.
proof fn lemma_three_bytes(first: int, second: int, third: int)
    requires
        0 <= first < 0x100,
        0 <= second < 0x100,
        0 <= third < 0x100,
    ensures
        ({
            let bits = first * 0x1_0000 + second * 0x100 + third;
            &&& 0 <= bits < 0x100_0000
            &&& bits / 0x1_0000 == first
            &&& (bits / 0x100) % 0x100 == second
            &&& bits % 0x100 == third
        }),
{
    let bits = first * 0x1_0000 + second * 0x100 + third;
    assert(bits / 0x100 == first * 0x100 + second);
}

proof fn lemma_group_bytes(input: Seq<u8>, group: int)
    ensures
        0 <= group_bits(input, group) < 0x100_0000,
        group_bits(input, group) / 0x1_0000 == byte_or_zero(input, 3 * group),
        (group_bits(input, group) / 0x100) % 0x100 == byte_or_zero(input, 3 * group + 1),
        group_bits(input, group) % 0x100 == byte_or_zero(input, 3 * group + 2),
{
    lemma_three_bytes(
        byte_or_zero(input, 3 * group),
        byte_or_zero(input, 3 * group + 1),
        byte_or_zero(input, 3 * group + 2),
    );
}

/// Where the last bytes of a group are missing, so are the letters' bits.
proof fn lemma_missing_bits(bits: int)
    ensures
        bits % 0x1_0000 == 0 ==> (bits / 64) % 64 == 0 && bits % 64 == 0,
        bits % 0x100 == 0 ==> bits % 64 == 0,
{
    if bits % 0x1_0000 == 0 {
        let high = bits / 0x1_0000;
        assert(bits == 64 * (1024 * high));
        assert(bits / 64 == 64 * (16 * high));
    }
}

proof fn lemma_group_decodes(input: Seq<u8>, group: int)
    requires
        0 <= group,
        3 * group < input.len(),
    ensures
        decoded_bits(base64_text(input), group) == group_bits(input, group),
{
    let bits = group_bits(input, group);
    let text = base64_text(input);
    lemma_group_bytes(input, group);
    assert(text[4 * group] == base64_char(input, 4 * group));
    assert(text[4 * group + 1] == base64_char(input, 4 * group + 1));
    assert(text[4 * group + 2] == base64_char(input, 4 * group + 2));
    assert(text[4 * group + 3] == base64_char(input, 4 * group + 3));
    lemma_six_bit_groups(bits);
    lemma_missing_bits(bits);
    lemma_letter_value(bits / 0x4_0000);
    lemma_letter_value((bits / 0x1000) % 64);
    lemma_letter_value((bits / 64) % 64);
    lemma_letter_value(bits % 64);
    if 3 * group + 1 >= input.len() {
        assert(bits == byte_or_zero(input, 3 * group) * 0x1_0000);
    }
}

/// Decoding gives back what was encoded.
pub proof fn law_base64_round_trips(input: Seq<u8>)
    ensures
        base64_decoded(base64_text(input)) == input,
{
    let text = base64_text(input);
    let groups = (input.len() + 2) / 3;
    let decoded = base64_decoded(text);
    assert(text.len() == groups * 4);
    if input.len() > 0 {
        let last = groups - 1;
        assert(text[text.len() - 2] == base64_char(input, 4 * last + 2));
        assert(text[text.len() - 1] == base64_char(input, 4 * last + 3));
        let bits = group_bits(input, last);
        lemma_group_bytes(input, last);
        lemma_letter_value((bits / 64) % 64);
        lemma_letter_value(bits % 64);
        assert(3 * groups - padding(text) == input.len());
    } else {
        assert(text.len() == 0);
    }
    assert(decoded.len() == input.len());
    assert forall|i: int| 0 <= i < input.len() implies decoded[i] == input[i] by {
        let group = i / 3;
        lemma_group_decodes(input, group);
        lemma_group_bytes(input, group);
    }
    assert(decoded =~= input);
}

/// The bytes of an ASCII text.
pub open spec fn ascii_bytes(text: Seq<char>) -> Seq<u8> {
    Seq::new(text.len(), |i: int| text[i] as u8)
}

pub fn push_ascii(out: &mut Vec<u8>, text: &str)
    ensures
        final(out)@ == old(out)@ + ascii_bytes(text@),
{
    let chars = chars_of(text);
    let mut i: usize = 0;
    while i < chars.len()
        invariant
            chars@ == text@,
            i <= chars@.len(),
            out@ == old(out)@ + ascii_bytes(text@).take(i as int),
        decreases chars@.len() - i,
    {
        out.push(chars[i] as u8);
        i = i + 1;
        assert(out@ =~= old(out)@ + ascii_bytes(text@).take(i as int));
    }
    assert(ascii_bytes(text@).take(i as int) =~= ascii_bytes(text@));
}

/// The bytes with every escape doubled.
pub open spec fn doubled(bytes: Seq<u8>) -> Seq<u8>
    decreases bytes.len(),
{
    if bytes.len() == 0 {
        Seq::empty()
    } else if bytes.last() == ESC {
        doubled(bytes.drop_last()).push(ESC).push(ESC)
    } else {
        doubled(bytes.drop_last()).push(bytes.last())
    }
}

/// A command as tmux passes it through.
pub open spec fn tmux_wrapped(bytes: Seq<u8>) -> Seq<u8> {
    ascii_bytes("\x1bPtmux;"@) + doubled(bytes) + ascii_bytes("\x1b\\"@)
}

fn append_doubled(out: &mut Vec<u8>, bytes: &Vec<u8>)
    ensures
        final(out)@ == old(out)@ + doubled(bytes@),
{
    let mut i: usize = 0;
    assert(out@ =~= old(out)@ + doubled(bytes@.take(0)));
    while i < bytes.len()
        invariant
            i <= bytes@.len(),
            out@ == old(out)@ + doubled(bytes@.take(i as int)),
        decreases bytes@.len() - i,
    {
        assert(bytes@.take(i + 1).drop_last() =~= bytes@.take(i as int));
        let byte: u8 = bytes[i];
        out.push(byte);
        if byte == ESC {
            out.push(ESC);
        }
        i = i + 1;
        assert(out@ =~= old(out)@ + doubled(bytes@.take(i as int)));
    }
    assert(bytes@.take(i as int) =~= bytes@);
}

/// A command as tmux passes it through.
pub fn wrap_tmux(apc: &Vec<u8>) -> (out: Vec<u8>)
    ensures
        out@ == tmux_wrapped(apc@),
{
    let mut out: Vec<u8> = Vec::new();
    push_ascii(&mut out, "\x1bPtmux;");
    assert(out@ =~= ascii_bytes("\x1bPtmux;"@));
    append_doubled(&mut out, apc);
    push_ascii(&mut out, "\x1b\\");
    out
}

/// The bytes with every pair of escapes made one.
pub open spec fn halved(bytes: Seq<u8>) -> Seq<u8>
    decreases bytes.len(),
{
    if bytes.len() == 0 {
        Seq::empty()
    } else if bytes.last() == ESC && bytes.len() > 1 {
        halved(bytes.drop_last().drop_last()).push(ESC)
    } else {
        halved(bytes.drop_last()).push(bytes.last())
    }
}

/// What tmux unwraps is what was wrapped.
pub proof fn law_tmux_wrapping_is_undone(bytes: Seq<u8>)
    ensures
        halved(doubled(bytes)) == bytes,
    decreases bytes.len(),
{
    if bytes.len() > 0 {
        let before = doubled(bytes.drop_last());
        law_tmux_wrapping_is_undone(bytes.drop_last());
        if bytes.last() == ESC {
            assert(doubled(bytes).drop_last().drop_last() =~= before);
        } else {
            assert(doubled(bytes).drop_last() =~= before);
        }
        assert(halved(doubled(bytes)) =~= bytes);
    }
}

/// The part of the base64 text that command `index` carries.
pub open spec fn payload(encoded: Seq<u8>, index: int) -> Seq<u8> {
    let start = MAX_CHUNK * index;
    encoded.subrange(
        start,
        if start + MAX_CHUNK < encoded.len() {
            start + MAX_CHUNK
        } else {
            encoded.len() as int
        },
    )
}

/// The control data of command `index`: the first one describes the image, and
/// all but the last announce more.
pub open spec fn control_text(
    index: int,
    more: bool,
    id: u32,
    cols: u16,
    rows: u16,
) -> Seq<char> {
    let mark = if more {
        "1"@
    } else {
        "0"@
    };
    if index == 0 {
        "a=T,t=d,f=100,U=1,i="@ + strings::decimal_text(id as nat) + ",c="@
            + strings::decimal_text(cols as nat) + ",r="@ + strings::decimal_text(rows as nat)
            + ",q=2,N=1,m="@ + mark
    } else {
        "m="@ + mark + ",q=2"@
    }
}

/// Command `index` of the transmission.
pub open spec fn command(
    encoded: Seq<u8>,
    index: int,
    id: u32,
    cols: u16,
    rows: u16,
) -> Seq<u8> {
    ascii_bytes("\x1b_G"@) + ascii_bytes(
        control_text(index, MAX_CHUNK * (index + 1) < encoded.len(), id, cols, rows),
    ) + ascii_bytes(";"@) + payload(encoded, index) + ascii_bytes("\x1b\\"@)
}

/// The first `count` commands, one after the other.
pub open spec fn transfer_of(
    encoded: Seq<u8>,
    count: nat,
    id: u32,
    cols: u16,
    rows: u16,
    tmux: bool,
) -> Seq<u8>
    decreases count,
{
    if count == 0 {
        Seq::empty()
    } else {
        let last = command(encoded, count - 1, id, cols, rows);
        transfer_of(encoded, (count - 1) as nat, id, cols, rows, tmux) + if tmux {
            tmux_wrapped(last)
        } else {
            last
        }
    }
}

/// How many commands carry a text of that length.
pub open spec fn command_count(length: nat) -> nat {
    ((length + MAX_CHUNK - 1) / MAX_CHUNK as int) as nat
}

fn build_command(
    encoded: &Vec<u8>,
    index: usize,
    start: usize,
    end: usize,
    id: u32,
    cols: u16,
    rows: u16,
) -> (apc: Vec<u8>)
    requires
        start == MAX_CHUNK * index,
        start < encoded@.len(),
        end == if start + MAX_CHUNK < encoded@.len() {
            start + MAX_CHUNK
        } else {
            encoded@.len() as int
        },
    ensures
        apc@ == command(encoded@, index as int, id, cols, rows),
{
    let mark = if end < encoded.len() {
        "1"
    } else {
        "0"
    };
    let mut control = String::new();
    if index == 0 {
        control = "a=T,t=d,f=100,U=1,i=".to_owned();
        control.append(decimal(id as u64).as_str());
        control.append(",c=");
        control.append(decimal(cols as u64).as_str());
        control.append(",r=");
        control.append(decimal(rows as u64).as_str());
        control.append(",q=2,N=1,m=");
        control.append(mark);
    } else {
        control = "m=".to_owned();
        control.append(mark);
        control.append(",q=2");
    }
    let mut apc: Vec<u8> = Vec::new();
    push_ascii(&mut apc, "\x1b_G");
    assert(apc@ =~= ascii_bytes("\x1b_G"@));
    push_ascii(&mut apc, control.as_str());
    push_ascii(&mut apc, ";");
    let ghost head = apc@;
    let mut i: usize = start;
    assert(apc@ =~= head + encoded@.subrange(start as int, start as int));
    while i < end
        invariant
            start <= i <= end <= encoded@.len(),
            apc@ == head + encoded@.subrange(start as int, i as int),
        decreases end - i,
    {
        apc.push(encoded[i]);
        i = i + 1;
        assert(apc@ =~= head + encoded@.subrange(start as int, i as int));
    }
    push_ascii(&mut apc, "\x1b\\");
    apc
}

fn build_transfer(encoded: &Vec<u8>, id: u32, cols: u16, rows: u16, tmux: bool) -> (transfer: Vec<
    u8,
>)
    ensures
        transfer@ == transfer_of(encoded@, command_count(encoded@.len()), id, cols, rows, tmux),
{
    let mut transfer: Vec<u8> = Vec::new();
    let mut index: usize = 0;
    let mut start: usize = 0;
    let total: usize = encoded.len();
    while start < total
        invariant
            total == encoded@.len(),
            start <= total,
            index <= total,
            start == MAX_CHUNK * index || (start == total && index == command_count(total as nat)),
            start < total ==> index < command_count(total as nat),
            start == total ==> index == command_count(total as nat),
            transfer@ == transfer_of(encoded@, index as nat, id, cols, rows, tmux),
        decreases total - start,
    {
        let end: usize = if total - start > MAX_CHUNK {
            start + MAX_CHUNK
        } else {
            total
        };
        let mut apc = build_command(encoded, index, start, end, id, cols, rows);
        if tmux {
            apc = wrap_tmux(&apc);
        }
        transfer.append(&mut apc);
        index = index + 1;
        start = end;
    }
    transfer
}

/// The red, green and blue that carry the low 24 bits of an id.
pub open spec fn id_color_text(id: u32) -> Seq<char> {
    let color = id as nat % 0x100_0000;
    "\x1b[38;2;"@ + strings::decimal_text(color / 0x1_0000) + ";"@ + strings::decimal_text(
        (color / 0x100) % 0x100,
    ) + ";"@ + strings::decimal_text(color % 0x100) + "m"@
}

/// The marks stand far above the control characters.
pub proof fn lemma_marks_are_marks()
    ensures
        forall|i: int| 0 <= i < 256 ==> #[trigger] DIACRITICS[i] >= '\u{305}',
{
}

/// The glyphs of the first `cols` cells of a row: each is the placeholder with
/// the marks of its row, its column and the id's high byte.
pub open spec fn placeholder_cells(row: int, cols: nat, high: int) -> Seq<char>
    decreases cols,
{
    if cols == 0 {
        Seq::empty()
    } else {
        placeholder_cells(row, (cols - 1) as nat, high).push('\u{10eeee}').push(
            DIACRITICS[row],
        ).push(DIACRITICS[cols - 1]).push(DIACRITICS[high])
    }
}

/// One row of placeholders.
pub open spec fn placeholder_row(id: u32, row: int, cols: nat) -> Seq<char> {
    id_color_text(id) + placeholder_cells(row, cols, id as int / 0x100_0000) + "\x1b[0m\n"@
}

pub open spec fn placeholder_rows_of(id: u32, cols: nat, rows: nat) -> Seq<Seq<char>> {
    Seq::new(rows, |row: int| placeholder_row(id, row, cols))
}

fn build_row(id: u32, row: usize, cols: usize) -> (line: String)
    requires
        row < 256,
        cols <= 256,
    ensures
        line@ == placeholder_row(id, row as int, cols as nat),
{
    let color: u32 = id % 0x100_0000;
    let high: usize = (id / 0x100_0000) as usize;
    let mut line = "\x1b[38;2;".to_owned();
    line.append(decimal((color / 0x1_0000) as u64).as_str());
    line.append(";");
    line.append(decimal(((color / 0x100) % 0x100) as u64).as_str());
    line.append(";");
    line.append(decimal((color % 0x100) as u64).as_str());
    line.append("m");
    let ghost head = line@;
    let mut col: usize = 0;
    assert(line@ =~= head + placeholder_cells(row as int, 0, high as int));
    while col < cols
        invariant
            col <= cols <= 256,
            row < 256,
            high < 256,
            line@ == head + placeholder_cells(row as int, col as nat, high as int),
        decreases cols - col,
    {
        line.push('\u{10eeee}');
        line.push(DIACRITICS[row]);
        line.push(DIACRITICS[col]);
        line.push(DIACRITICS[high]);
        col = col + 1;
        assert(line@ =~= head + placeholder_cells(row as int, col as nat, high as int));
    }
    line.append("\x1b[0m\n");
    line
}

/// Transmit a PNG image under `id` and place it in `cols` by `rows` cells. The
/// bytes transmit it in chunks; the rows show it wherever they are printed.
pub fn serialize(png: &[u8], id: u32, cols: u16, rows: u16, tmux: bool) -> (serialized: Result<
    SerializedImage,
    SerializeError,
>)
    ensures
        png@.len() == 0 ==> serialized == Err::<SerializedImage, SerializeError>(
            SerializeError::EmptyPayload,
        ),
        png@.len() > 0 && !(1 <= cols <= 256 && 1 <= rows <= 256) ==> serialized == Err::<
            SerializedImage,
            SerializeError,
        >(SerializeError::InvalidGeometry),
        png@.len() > 0 && 1 <= cols <= 256 && 1 <= rows <= 256 ==> (serialized is Ok == (
        png@.len() + 2 <= usize::MAX && base64_length(png@) <= usize::MAX)) && (serialized is Err
            ==> serialized->Err_0 == SerializeError::Overflow),
        serialized is Ok ==> {
            &&& serialized->Ok_0.transfer@ == transfer_of(
                base64_text(png@),
                command_count(base64_length(png@)),
                id,
                cols,
                rows,
                tmux,
            )
            &&& strings::texts(serialized->Ok_0.placeholder_rows@) == placeholder_rows_of(
                id,
                cols as nat,
                rows as nat,
            )
        },
{
    if png.len() == 0 {
        return Err(SerializeError::EmptyPayload);
    }
    if cols == 0 || rows == 0 || cols > 256 || rows > 256 {
        return Err(SerializeError::InvalidGeometry);
    }
    let encoded = match base64(png) {
        Ok(encoded) => encoded,
        Err(error) => return Err(error),
    };
    let transfer = build_transfer(&encoded, id, cols, rows, tmux);
    let mut placeholder_rows: Vec<String> = Vec::new();
    let mut row: usize = 0;
    let ghost all = placeholder_rows_of(id, cols as nat, rows as nat);
    assert(strings::texts(placeholder_rows@) =~= all.take(0));
    while row < rows as usize
        invariant
            row <= rows <= 256,
            cols <= 256,
            all == placeholder_rows_of(id, cols as nat, rows as nat),
            strings::texts(placeholder_rows@) == all.take(row as int),
        decreases rows - row,
    {
        let line = build_row(id, row, cols as usize);
        let ghost before = strings::texts(placeholder_rows@);
        placeholder_rows.push(line);
        row = row + 1;
        assert(strings::texts(placeholder_rows@) =~= before.push(line@));
        assert(all[row - 1] == line@);
        assert(strings::texts(placeholder_rows@) =~= all.take(row as int));
    }
    assert(all.take(row as int) =~= all);
    Ok(SerializedImage { transfer, placeholder_rows })
}

/// The payloads of the first `count` commands, one after the other.
pub open spec fn joined_payloads(encoded: Seq<u8>, count: nat) -> Seq<u8>
    decreases count,
{
    if count == 0 {
        Seq::empty()
    } else {
        joined_payloads(encoded, (count - 1) as nat) + payload(encoded, count - 1)
    }
}

proof fn lemma_joined_payloads(encoded: Seq<u8>, count: nat)
    requires
        count <= command_count(encoded.len()),
    ensures
        joined_payloads(encoded, count) == encoded.take(
            if MAX_CHUNK * count < encoded.len() {
                MAX_CHUNK * count
            } else {
                encoded.len() as int
            },
        ),
    decreases count,
{
    if count > 0 {
        lemma_joined_payloads(encoded, (count - 1) as nat);
        assert(MAX_CHUNK * (count - 1) < encoded.len());
        assert(joined_payloads(encoded, count) =~= encoded.take(
            if MAX_CHUNK * count < encoded.len() {
                MAX_CHUNK * count
            } else {
                encoded.len() as int
            },
        ));
    } else {
        assert(encoded.take(0) =~= Seq::empty());
    }
}

/// The commands carry the whole image in bounded chunks: no payload is empty or
/// longer than 4096 bytes, and together they decode to the image.
pub proof fn law_chunks_carry_the_image(png: Seq<u8>)
    ensures
        forall|index: int|
            0 <= index < command_count(base64_length(png)) ==> 0 < (#[trigger] payload(
                base64_text(png),
                index,
            )).len() <= MAX_CHUNK,
        base64_decoded(joined_payloads(base64_text(png), command_count(base64_length(png))))
            == png,
{
    let encoded = base64_text(png);
    let count = command_count(encoded.len());
    lemma_joined_payloads(encoded, count);
    assert(encoded.take(encoded.len() as int) =~= encoded);
    law_base64_round_trips(png);
}

} // verus!
