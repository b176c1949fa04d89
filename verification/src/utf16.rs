//! UTF-16, the encoding of every text that the system hands over.

use crate::text::chars_of;
use vstd::prelude::*;
use vstd::utf8::is_scalar;

verus! {

/// What stands for a surrogate without its partner.
pub const REPLACEMENT: char = '\u{FFFD}';

pub open spec fn is_high_surrogate(unit: u16) -> bool {
    0xd800 <= unit <= 0xdbff
}

pub open spec fn is_low_surrogate(unit: u16) -> bool {
    0xdc00 <= unit <= 0xdfff
}

/// The units of one character.
pub open spec fn units_of(ch: char) -> Seq<u16> {
    let c = ch as int;
    if c < 0x1_0000 {
        seq![c as u16]
    } else {
        seq![
            (0xd800 + (c - 0x1_0000) / 0x400) as u16,
            (0xdc00 + (c - 0x1_0000) % 0x400) as u16,
        ]
    }
}

/// The units of a text.
pub open spec fn encode_utf16(text: Seq<char>) -> Seq<u16>
    decreases text.len(),
{
    if text.len() == 0 {
        Seq::empty()
    } else {
        units_of(text[0]) + encode_utf16(text.skip(1))
    }
}

/// The first unit is a character of its own.
pub open spec fn starts_with_single(units: Seq<u16>) -> bool {
    units.len() > 0 && !is_high_surrogate(units[0]) && !is_low_surrogate(units[0])
}

/// The first two units are one character.
pub open spec fn starts_with_pair(units: Seq<u16>) -> bool {
    units.len() > 1 && is_high_surrogate(units[0]) && is_low_surrogate(units[1])
}

pub open spec fn pair_char(high: u16, low: u16) -> char {
    (0x1_0000 + (high - 0xd800) * 0x400 + (low - 0xdc00)) as char
}

/// The text with the units `units`; there is none where a surrogate has no
/// partner.
pub open spec fn decode_utf16(units: Seq<u16>) -> Option<Seq<char>>
    decreases units.len(),
{
    if units.len() == 0 {
        Some(Seq::empty())
    } else if starts_with_single(units) {
        match decode_utf16(units.skip(1)) {
            Some(rest) => Some(seq![units[0] as char] + rest),
            None => None,
        }
    } else if starts_with_pair(units) {
        match decode_utf16(units.skip(2)) {
            Some(rest) => Some(seq![pair_char(units[0], units[1])] + rest),
            None => None,
        }
    } else {
        None
    }
}

/// The text with the units `units`, each surrogate without its partner read as
/// the replacement character.
pub open spec fn decode_utf16_lossy(units: Seq<u16>) -> Seq<char>
    decreases units.len(),
{
    if units.len() == 0 {
        Seq::empty()
    } else if starts_with_single(units) {
        seq![units[0] as char] + decode_utf16_lossy(units.skip(1))
    } else if starts_with_pair(units) {
        seq![pair_char(units[0], units[1])] + decode_utf16_lossy(units.skip(2))
    } else {
        seq![REPLACEMENT] + decode_utf16_lossy(units.skip(1))
    }
}

/// A character is a code point below the limit that is no surrogate.
proof fn lemma_char_range(ch: char)
    ensures
        0 <= ch as int <= 0x10_ffff,
        !(0xd800 <= ch as int <= 0xdfff),
        ch as u32 == ch as int,
{
    vstd::utf8::char_is_scalar(ch);
}

/// Decoding gives back the text that was encoded.
pub proof fn lemma_decode_inverts_encode(text: Seq<char>)
    ensures
        decode_utf16(encode_utf16(text)) == Some(text),
    decreases text.len(),
{
    if text.len() > 0 {
        lemma_decode_inverts_encode(text.skip(1));
        let units = encode_utf16(text);
        let rest = encode_utf16(text.skip(1));
        let c = text[0] as int;
        lemma_char_range(text[0]);
        assert(units == units_of(text[0]) + rest);
        if c < 0x1_0000 {
            assert(units.skip(1) =~= rest);
            assert(units[0] == c as u16);
            assert(starts_with_single(units));
            assert(seq![text[0]] + text.skip(1) =~= text);
        } else {
            assert(units.skip(2) =~= rest);
            assert(units[0] == 0xd800 + (c - 0x1_0000) / 0x400);
            assert(units[1] == 0xdc00 + (c - 0x1_0000) % 0x400);
            assert(starts_with_pair(units));
            assert(pair_char(units[0], units[1]) == text[0]);
            assert(seq![text[0]] + text.skip(1) =~= text);
        }
    }
}

/// Encoding gives back the units that were decoded.
pub proof fn lemma_encode_inverts_decode(units: Seq<u16>)
    requires
        decode_utf16(units) is Some,
    ensures
        encode_utf16(decode_utf16(units).unwrap()) == units,
    decreases units.len(),
{
    if units.len() > 0 {
        let text = decode_utf16(units).unwrap();
        if starts_with_single(units) {
            lemma_encode_inverts_decode(units.skip(1));
            let rest = decode_utf16(units.skip(1)).unwrap();
            assert(text.skip(1) =~= rest);
            assert(text[0] == units[0] as char);
            assert(units_of(text[0]) =~= seq![units[0]]);
            assert(seq![units[0]] + units.skip(1) =~= units);
        } else {
            lemma_encode_inverts_decode(units.skip(2));
            let rest = decode_utf16(units.skip(2)).unwrap();
            assert(text.skip(1) =~= rest);
            let c = 0x1_0000 + (units[0] - 0xd800) * 0x400 + (units[1] - 0xdc00);
            assert(text[0] == c as char);
            assert(c - 0x1_0000 == (units[0] - 0xd800) * 0x400 + (units[1] - 0xdc00));
            assert(units_of(text[0]) =~= seq![units[0], units[1]]);
            assert(seq![units[0], units[1]] + units.skip(2) =~= units);
        }
    }
}

/// The first units of a text, where they are a text, are the beginning of it.
pub proof fn lemma_first_units_begin_the_text(text: Seq<char>, count: int)
    requires
        0 <= count <= encode_utf16(text).len(),
        decode_utf16(encode_utf16(text).take(count)) is Some,
    ensures
        ({
            let beginning = decode_utf16(encode_utf16(text).take(count)).unwrap();
            beginning.len() <= text.len() && text.take(beginning.len() as int) == beginning
        }),
    decreases text.len(),
{
    let units = encode_utf16(text);
    let first = units.take(count);
    let beginning = decode_utf16(first).unwrap();
    if count == 0 {
        assert(text.take(0) =~= beginning);
    } else {
        let rest = encode_utf16(text.skip(1));
        let c = text[0] as int;
        lemma_char_range(text[0]);
        assert(units == units_of(text[0]) + rest);
        let width: int = if c < 0x1_0000 {
            1
        } else {
            2
        };
        if c < 0x1_0000 {
            assert(first[0] == c as u16);
            assert(starts_with_single(first));
        } else {
            assert(first[0] == 0xd800 + (c - 0x1_0000) / 0x400);
            assert(is_high_surrogate(first[0]));
            assert(starts_with_pair(first));
            assert(first[1] == 0xdc00 + (c - 0x1_0000) % 0x400);
            assert(pair_char(first[0], first[1]) == text[0]);
        }
        assert(first.skip(width) =~= rest.take(count - width));
        lemma_first_units_begin_the_text(text.skip(1), count - width);
        let tail = decode_utf16(first.skip(width)).unwrap();
        assert(beginning == seq![text[0]] + tail);
        assert(text.take(beginning.len() as int) =~= seq![text[0]] + text.skip(1).take(
            tail.len() as int,
        ));
    }
}

/// On a text without lone surrogates both decoders agree.
pub proof fn lemma_lossy_decoding_is_exact_on_valid_units(units: Seq<u16>)
    requires
        decode_utf16(units) is Some,
    ensures
        decode_utf16_lossy(units) == decode_utf16(units).unwrap(),
    decreases units.len(),
{
    if units.len() > 0 {
        if starts_with_single(units) {
            lemma_lossy_decoding_is_exact_on_valid_units(units.skip(1));
        } else {
            lemma_lossy_decoding_is_exact_on_valid_units(units.skip(2));
        }
    }
}

/// The units of `text`.
pub fn utf16_units(text: &str) -> (units: Vec<u16>)
    ensures
        units@ == encode_utf16(text@),
{
    let chars: Vec<char> = chars_of(text);
    let mut units: Vec<u16> = Vec::new();
    let mut i: usize = 0;
    proof {
        assert(text@.skip(0) =~= text@);
        assert(units@ + encode_utf16(text@) =~= encode_utf16(text@));
    }
    while i < chars.len()
        invariant
            i <= chars@.len(),
            chars@ == text@,
            units@ + encode_utf16(text@.skip(i as int)) == encode_utf16(text@),
        decreases chars@.len() - i,
    {
        let ghost before = units@;
        let ch: char = chars[i];
        let c: u32 = ch as u32;
        proof {
            lemma_char_range(ch);
        }
        if c < 0x1_0000 {
            units.push(c as u16);
        } else {
            units.push((0xd800 + (c - 0x1_0000) / 0x400) as u16);
            units.push((0xdc00 + (c - 0x1_0000) % 0x400) as u16);
        }
        proof {
            let rest = text@.skip(i as int);
            assert(rest.skip(1) =~= text@.skip(i as int + 1));
            assert(units@ =~= before + units_of(rest[0]));
            assert(units@ + encode_utf16(rest.skip(1)) =~= before + encode_utf16(rest));
        }
        i = i + 1;
    }
    proof {
        assert(text@.skip(i as int) =~= Seq::<char>::empty());
        assert(units@ + Seq::<u16>::empty() =~= units@);
    }
    units
}

/// The units of `text`, terminated by a zero unit.
pub fn wide(text: &str) -> (units: Vec<u16>)
    ensures
        units@ == encode_utf16(text@).push(0),
{
    let mut units: Vec<u16> = utf16_units(text);
    units.push(0);
    units
}

/// The character at the head of `units[at..]` and the number of its units.
fn head_char(units: &[u16], at: usize) -> (head: Option<(char, usize)>)
    requires
        at < units@.len(),
    ensures
        head == if starts_with_single(units@.skip(at as int)) {
            Some((units@[at as int] as char, 1usize))
        } else if starts_with_pair(units@.skip(at as int)) {
            Some((pair_char(units@[at as int], units@[at as int + 1]), 2usize))
        } else {
            None
        },
{
    let first: u16 = units[at];
    if first < 0xd800 || first > 0xdfff {
        proof {
            assert(is_scalar(first as u32));
        }
        return match char::from_u32(first as u32) {
            Some(ch) => Some((ch, 1)),
            None => None,
        };
    }
    if first <= 0xdbff && units.len() - at > 1 {
        let second: u16 = units[at + 1];
        if 0xdc00 <= second && second <= 0xdfff {
            let code: u32 = 0x1_0000 + (first as u32 - 0xd800) * 0x400 + (second as u32 - 0xdc00);
            proof {
                assert(is_scalar(code));
            }
            return match char::from_u32(code) {
                Some(ch) => Some((ch, 2)),
                None => None,
            };
        }
    }
    None
}

/// The text with the units `units`, where there is one.
pub fn text_of_utf16(units: &[u16]) -> (text: Option<String>)
    ensures
        match text {
            Some(s) => decode_utf16(units@) == Some(s@),
            None => decode_utf16(units@) is None,
        },
{
    let mut text = String::new();
    let mut i: usize = 0;
    proof {
        assert(units@.skip(0) =~= units@);
        if let Some(all) = decode_utf16(units@) {
            assert(text@ + all =~= all);
        }
    }
    while i < units.len()
        invariant
            i <= units@.len(),
            decode_utf16(units@) == match decode_utf16(units@.skip(i as int)) {
                Some(rest) => Some(text@ + rest),
                None => None,
            },
        decreases units@.len() - i,
    {
        let ghost rest = units@.skip(i as int);
        let ghost before = text@;
        match head_char(units, i) {
            Some((ch, count)) => {
                proof {
                    assert(rest.skip(count as int) =~= units@.skip(i + count));
                    if let Some(tail) = decode_utf16(rest.skip(count as int)) {
                        assert(before + (seq![ch] + tail) =~= before.push(ch) + tail);
                    }
                }
                text.push(ch);
                i = i + count;
            },
            None => {
                return None;
            },
        }
    }
    proof {
        assert(units@.skip(i as int) =~= Seq::<u16>::empty());
        assert(text@ + Seq::<char>::empty() =~= text@);
    }
    Some(text)
}

/// The text with the units `units`, lone surrogates replaced.
pub fn text_of_utf16_lossy(units: &[u16]) -> (text: String)
    ensures
        text@ == decode_utf16_lossy(units@),
{
    let mut text = String::new();
    let mut i: usize = 0;
    proof {
        assert(units@.skip(0) =~= units@);
        assert(text@ + decode_utf16_lossy(units@) =~= decode_utf16_lossy(units@));
    }
    while i < units.len()
        invariant
            i <= units@.len(),
            text@ + decode_utf16_lossy(units@.skip(i as int)) == decode_utf16_lossy(units@),
        decreases units@.len() - i,
    {
        let ghost rest = units@.skip(i as int);
        let ghost before = text@;
        let (ch, count): (char, usize) = match head_char(units, i) {
            Some(head) => head,
            None => (REPLACEMENT, 1),
        };
        proof {
            assert(rest.skip(count as int) =~= units@.skip(i + count));
            let tail = decode_utf16_lossy(rest.skip(count as int));
            assert(before + (seq![ch] + tail) =~= before.push(ch) + tail);
        }
        text.push(ch);
        i = i + count;
    }
    proof {
        assert(units@.skip(i as int) =~= Seq::<u16>::empty());
        assert(text@ + Seq::<char>::empty() =~= text@);
    }
    text
}

/// A character of the basic plane is its own unit; any other is a high
/// surrogate before a low one, ten bits each above 0x10000.
pub proof fn lemma_units_carry_the_code_point(ch: char)
    ensures
        (ch as int) < 0x1_0000 ==> units_of(ch).len() == 1 && units_of(ch)[0] == ch as int,
        (ch as int) >= 0x1_0000 ==> {
            &&& units_of(ch).len() == 2
            &&& 0xd800 <= units_of(ch)[0] < 0xdc00
            &&& 0xdc00 <= units_of(ch)[1] < 0xe000
            &&& ch as int == 0x1_0000 + (units_of(ch)[0] - 0xd800) * 1024 + (units_of(ch)[1]
                - 0xdc00)
        },
        is_high_surrogate(units_of(ch)[0]) <==> units_of(ch).len() == 2,
{
    lemma_char_range(ch);
}

/// The units of two texts, one after the other, are those of the two joined.
pub proof fn lemma_encoding_joins(a: Seq<char>, b: Seq<char>)
    ensures
        encode_utf16(a + b) == encode_utf16(a) + encode_utf16(b),
    decreases a.len(),
{
    if a.len() == 0 {
        assert(a + b =~= b);
        assert(encode_utf16(a) + encode_utf16(b) =~= encode_utf16(b));
    } else {
        assert((a + b).skip(1) =~= a.skip(1) + b);
        lemma_encoding_joins(a.skip(1), b);
        assert(encode_utf16(a + b) =~= encode_utf16(a) + encode_utf16(b));
    }
}

/// A surrogate without its partner is replaced by one U+FFFD, and what follows
/// it is kept.
pub proof fn lemma_a_lone_surrogate_is_replaced(unit: u16, rest: Seq<char>)
    requires
        0xd800 <= unit < 0xe000,
    ensures
        decode_utf16_lossy(seq![unit] + encode_utf16(rest)) == seq!['\u{fffd}'] + rest,
        decode_utf16(seq![unit] + encode_utf16(rest)) is None,
{
    let units = seq![unit] + encode_utf16(rest);
    assert(units.skip(1) =~= encode_utf16(rest));
    lemma_decode_inverts_encode(rest);
    lemma_lossy_decoding_is_exact_on_valid_units(encode_utf16(rest));
    if rest.len() > 0 {
        lemma_units_carry_the_code_point(rest[0]);
        lemma_char_range(rest[0]);
        assert(units[1] == units_of(rest[0])[0]);
        assert(!is_low_surrogate(units[1]));
    }
    assert(!starts_with_pair(units));
}

} // verus!
