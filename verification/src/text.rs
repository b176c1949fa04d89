//! Characters, words and numbers of the texts that the library reads and
//! writes.

use vstd::prelude::*;
use vstd::utf8::{is_scalar, valid_utf8};

verus! {

/// `String::push` appends one character.
pub assume_specification[ String::push ](text: &mut String, ch: char)
    ensures
        final(text)@ == old(text)@.push(ch),
;

/// `char::from_u32` converts exactly the Unicode scalar values.
pub assume_specification[ char::from_u32 ](i: u32) -> (ch: Option<char>)
    ensures
        ch == if is_scalar(i) {
            Some(i as char)
        } else {
            None
        },
;

/// `String::from_utf8` accepts exactly the valid UTF-8 byte sequences, and the
/// string that it returns has those bytes. The error, which hands the bytes
/// back, is dropped.
#[verifier::external_body]
pub(crate) fn string_from_utf8(bytes: Vec<u8>) -> (text: Option<String>)
    ensures
        text is Some <==> valid_utf8(bytes@),
        text matches Some(s) ==> vstd::utf8::encode_utf8(s@) == bytes@,
{
    String::from_utf8(bytes).ok()
}

/// `part` stands at the character `at` of `text`.
pub open spec fn occurs_at(text: Seq<char>, part: Seq<char>, at: int) -> bool {
    0 <= at && at + part.len() <= text.len() && text.subrange(at, at + part.len()) == part
}

/// `text` holds `part`.
pub open spec fn holds_text(text: Seq<char>, part: Seq<char>) -> bool {
    exists|at: int| occurs_at(text, part, at)
}

/// The characters of `text`.
pub fn chars_of(text: &str) -> (chars: Vec<char>)
    ensures
        chars@ == text@,
{
    let mut chars: Vec<char> = Vec::new();
    for ch in it: text.chars()
        invariant
            it.seq() == text@,
            chars@ == text@.take(it.index() as int),
    {
        proof {
            assert(text@.take(it.index() as int).push(ch) =~= text@.take(it.index() as int + 1));
        }
        chars.push(ch);
    }
    proof {
        assert(text@.take(text@.len() as int) =~= text@);
    }
    chars
}

/// The text with the characters `chars[from..to]`.
pub fn string_of(chars: &[char], from: usize, to: usize) -> (text: String)
    requires
        from <= to <= chars@.len(),
    ensures
        text@ == chars@.subrange(from as int, to as int),
{
    let mut text = String::new();
    let mut i: usize = from;
    while i < to
        invariant
            from <= i <= to <= chars@.len(),
            text@ == chars@.subrange(from as int, i as int),
        decreases to - i,
    {
        proof {
            assert(chars@.subrange(from as int, i as int).push(chars@[i as int])
                =~= chars@.subrange(from as int, i as int + 1));
        }
        text.push(chars[i]);
        i = i + 1;
    }
    text
}

/// A copy of `text`.
pub fn copy_of(text: &str) -> (copy: String)
    ensures
        copy@ == text@,
{
    text.to_owned()
}

/// Both texts have the same characters.
pub fn same_text(a: &str, b: &str) -> (same: bool)
    ensures
        same == (a@ == b@),
{
    let left: Vec<char> = chars_of(a);
    let right: Vec<char> = chars_of(b);
    if left.len() != right.len() {
        return false;
    }
    let mut i: usize = 0;
    while i < left.len()
        invariant
            i <= left@.len() == right@.len(),
            left@ == a@,
            right@ == b@,
            forall|j: int| 0 <= j < i ==> left@[j] == right@[j],
        decreases left@.len() - i,
    {
        if left[i] != right[i] {
            proof {
                assert(left@[i as int] != right@[i as int]);
            }
            return false;
        }
        i = i + 1;
    }
    proof {
        assert(left@ =~= right@);
    }
    true
}

/// The text holds `ch`.
pub fn has_char(text: &str, ch: char) -> (has: bool)
    ensures
        has == text@.contains(ch),
{
    let chars: Vec<char> = chars_of(text);
    let mut i: usize = 0;
    while i < chars.len()
        invariant
            i <= chars@.len(),
            chars@ == text@,
            forall|j: int| 0 <= j < i ==> chars@[j] != ch,
        decreases chars@.len() - i,
    {
        if chars[i] == ch {
            return true;
        }
        i = i + 1;
    }
    false
}

/// `text` begins with `prefix`.
pub fn begins_with(text: &str, prefix: &str) -> (begins: bool)
    ensures
        begins == prefix@.is_prefix_of(text@),
{
    let chars: Vec<char> = chars_of(text);
    let start: Vec<char> = chars_of(prefix);
    if start.len() > chars.len() {
        return false;
    }
    let mut i: usize = 0;
    while i < start.len()
        invariant
            i <= start@.len() <= chars@.len(),
            start@ == prefix@,
            chars@ == text@,
            forall|j: int| 0 <= j < i ==> start@[j] == chars@[j],
        decreases start@.len() - i,
    {
        if start[i] != chars[i] {
            proof {
                assert(start@[i as int] != chars@.subrange(0, start@.len() as int)[i as int]);
            }
            return false;
        }
        i = i + 1;
    }
    proof {
        assert(start@ =~= chars@.subrange(0, start@.len() as int));
    }
    true
}

// Lists of texts.

/// The texts of a list.
pub open spec fn views(list: Seq<String>) -> Seq<Seq<char>> {
    list.map_values(|text: String| text@)
}

/// The index of the last text of `list` that is `wanted`.
pub fn last_position(list: &Vec<String>, wanted: &str) -> (position: Option<usize>)
    ensures
        match position {
            Some(i) => {
                &&& i < list@.len()
                &&& list@[i as int]@ == wanted@
                &&& forall|j: int| i < j < list@.len() ==> list@[j]@ != wanted@
            },
            None => forall|j: int| 0 <= j < list@.len() ==> list@[j]@ != wanted@,
        },
{
    let mut i: usize = list.len();
    while i > 0
        invariant
            i <= list@.len(),
            forall|j: int| i <= j < list@.len() ==> list@[j]@ != wanted@,
        decreases i,
    {
        i = i - 1;
        if same_text(list[i].as_str(), wanted) {
            return Some(i);
        }
    }
    None
}

/// The pieces of `text` between the separators.
pub open spec fn split_on(text: Seq<char>, separator: char) -> Seq<Seq<char>>
    decreases text.len(),
{
    if text.len() == 0 {
        seq![Seq::empty()]
    } else {
        let before = split_on(text.drop_last(), separator);
        if text.last() == separator {
            before.push(Seq::empty())
        } else {
            before.drop_last().push(before.last().push(text.last()))
        }
    }
}

/// The pieces of `text` between the separators.
pub fn split_text(text: &str, separator: char) -> (pieces: Vec<String>)
    ensures
        views(pieces@) == split_on(text@, separator),
        pieces@.len() > 0,
{
    let chars: Vec<char> = chars_of(text);
    let mut pieces: Vec<String> = Vec::new();
    let mut current = String::new();
    let mut i: usize = 0;
    proof {
        assert(text@.take(0) =~= Seq::<char>::empty());
        assert(views(pieces@).push(current@) =~= split_on(text@.take(0), separator));
    }
    while i < chars.len()
        invariant
            i <= chars@.len(),
            chars@ == text@,
            views(pieces@).push(current@) == split_on(text@.take(i as int), separator),
        decreases chars@.len() - i,
    {
        let ch: char = chars[i];
        let ghost done = views(pieces@);
        proof {
            assert(text@.take(i as int + 1).drop_last() =~= text@.take(i as int));
            assert(done.push(current@).drop_last() =~= done);
        }
        if ch == separator {
            pieces.push(current);
            current = String::new();
            proof {
                assert(views(pieces@).push(current@) =~= split_on(
                    text@.take(i as int + 1),
                    separator,
                ));
            }
        } else {
            current.push(ch);
            proof {
                assert(views(pieces@).push(current@) =~= split_on(
                    text@.take(i as int + 1),
                    separator,
                ));
            }
        }
        i = i + 1;
    }
    let ghost done = views(pieces@);
    pieces.push(current);
    proof {
        assert(text@.take(i as int) =~= text@);
        assert(views(pieces@) =~= done.push(current@));
    }
    pieces
}

// Byte positions.

/// The number of bytes of a character in UTF-8.
pub open spec fn char_bytes(ch: char) -> nat {
    let c = ch as u32;
    if c < 0x80 {
        1
    } else if c < 0x800 {
        2
    } else if c < 0x1_0000 {
        3
    } else {
        4
    }
}

/// The number of bytes of a text in UTF-8.
pub open spec fn byte_len(text: Seq<char>) -> nat
    decreases text.len(),
{
    if text.len() == 0 {
        0
    } else {
        byte_len(text.drop_last()) + char_bytes(text.last())
    }
}

pub proof fn lemma_byte_len_splits(a: Seq<char>, b: Seq<char>)
    ensures
        byte_len(a + b) == byte_len(a) + byte_len(b),
    decreases b.len(),
{
    if b.len() == 0 {
        assert(a + b =~= a);
    } else {
        assert((a + b).drop_last() =~= a + b.drop_last());
        lemma_byte_len_splits(a, b.drop_last());
    }
}

/// The byte length is the length of the UTF-8 encoding.
pub proof fn lemma_byte_len_is_encoded_len(text: Seq<char>)
    ensures
        byte_len(text) == vstd::utf8::encode_utf8(text).len(),
    decreases text.len(),
{
    if text.len() > 0 {
        lemma_byte_len_is_encoded_len(text.drop_first());
        let head = seq![text[0]];
        assert(head + text.drop_first() =~= text);
        lemma_byte_len_splits(head, text.drop_first());
        assert(byte_len(head.drop_last()) == 0);
        assert(byte_len(head) == char_bytes(text[0]));
        vstd::utf8::char_is_scalar(text[0]);
    }
}

/// `offset` is where the character with the index `index`, or the end, is found
/// among the bytes of `text`.
pub open spec fn is_byte_offset(text: Seq<char>, index: int, offset: int) -> bool {
    0 <= index <= text.len() && byte_len(text.take(index)) == offset
}

/// A byte offset belongs to one character.
pub proof fn lemma_byte_offset_is_unique(text: Seq<char>, a: int, b: int)
    requires
        0 <= a < b <= text.len(),
    ensures
        byte_len(text.take(a)) < byte_len(text.take(b)),
    decreases b,
{
    assert(text.take(b).drop_last() =~= text.take(b - 1));
    if a < b - 1 {
        lemma_byte_offset_is_unique(text, a, b - 1);
    }
}

pub fn width_of(ch: char) -> (width: usize)
    ensures
        width == char_bytes(ch),
{
    let c: u32 = ch as u32;
    if c < 0x80 {
        1
    } else if c < 0x800 {
        2
    } else if c < 0x1_0000 {
        3
    } else {
        4
    }
}

/// The number of bytes of `text`.
pub fn bytes_in(text: &str) -> (count: usize)
    ensures
        count == byte_len(text@),
{
    proof {
        lemma_byte_len_is_encoded_len(text@);
    }
    text.as_bytes().len()
}

/// The character of `text` that begins at the byte `offset`, or the end.
pub fn char_at_byte(text: &str, offset: usize) -> (index: Option<usize>)
    ensures
        match index {
            Some(i) => is_byte_offset(text@, i as int, offset as int),
            None => forall|i: int| !is_byte_offset(text@, i, offset as int),
        },
{
    let chars: Vec<char> = chars_of(text);
    let total: usize = bytes_in(text);
    let mut i: usize = 0;
    let mut at: usize = 0;
    proof {
        assert(text@.take(0) =~= Seq::<char>::empty());
    }
    while at < offset && i < chars.len()
        invariant
            i <= chars@.len(),
            chars@ == text@,
            at == byte_len(text@.take(i as int)),
            total == byte_len(text@),
            at <= total,
            forall|j: int| 0 <= j < i ==> byte_len(text@.take(j)) < offset,
        decreases chars@.len() - i,
    {
        proof {
            assert(text@.take(i as int + 1).drop_last() =~= text@.take(i as int));
            assert(text@ =~= text@.take(i as int + 1) + text@.skip(i as int + 1));
            lemma_byte_len_splits(text@.take(i as int + 1), text@.skip(i as int + 1));
        }
        at = at + width_of(chars[i]);
        i = i + 1;
    }
    if at == offset {
        return Some(i);
    }
    proof {
        assert forall|j: int| !is_byte_offset(text@, j, offset as int) by {
            if 0 <= j <= text@.len() {
                if j < i {
                } else if j == i {
                } else {
                    lemma_byte_offset_is_unique(text@, i as int, j);
                }
            }
        }
    }
    None
}

// Letter case.

pub open spec fn ascii_lower_char(ch: char) -> char {
    if 'A' <= ch <= 'Z' {
        (ch as u32 + 32) as char
    } else {
        ch
    }
}

pub open spec fn ascii_upper_char(ch: char) -> char {
    if 'a' <= ch <= 'z' {
        (ch as u32 - 32) as char
    } else {
        ch
    }
}

/// The text with its ASCII letters in lower case.
pub open spec fn ascii_lower(text: Seq<char>) -> Seq<char> {
    text.map_values(|ch: char| ascii_lower_char(ch))
}

/// The text with its ASCII letters in upper case.
pub open spec fn ascii_upper(text: Seq<char>) -> Seq<char> {
    text.map_values(|ch: char| ascii_upper_char(ch))
}

pub fn lower_char(ch: char) -> (lower: char)
    ensures
        lower == ascii_lower_char(ch),
{
    if 'A' <= ch && ch <= 'Z' {
        ((ch as u8) + 32) as char
    } else {
        ch
    }
}

pub fn upper_char(ch: char) -> (upper: char)
    ensures
        upper == ascii_upper_char(ch),
{
    if 'a' <= ch && ch <= 'z' {
        ((ch as u8) - 32) as char
    } else {
        ch
    }
}

/// The text with its ASCII letters in lower case.
pub fn to_lower(text: &str) -> (lower: String)
    ensures
        lower@ == ascii_lower(text@),
{
    let chars: Vec<char> = chars_of(text);
    let mut lower = String::new();
    let mut i: usize = 0;
    while i < chars.len()
        invariant
            i <= chars@.len(),
            chars@ == text@,
            lower@ == ascii_lower(text@.take(i as int)),
        decreases chars@.len() - i,
    {
        lower.push(lower_char(chars[i]));
        i = i + 1;
        proof {
            assert(lower@ =~= ascii_lower(text@.take(i as int)));
        }
    }
    proof {
        assert(text@.take(i as int) =~= text@);
    }
    lower
}

/// The text with its ASCII letters in upper case.
pub fn to_upper(text: &str) -> (upper: String)
    ensures
        upper@ == ascii_upper(text@),
{
    let chars: Vec<char> = chars_of(text);
    let mut upper = String::new();
    let mut i: usize = 0;
    while i < chars.len()
        invariant
            i <= chars@.len(),
            chars@ == text@,
            upper@ == ascii_upper(text@.take(i as int)),
        decreases chars@.len() - i,
    {
        upper.push(upper_char(chars[i]));
        i = i + 1;
        proof {
            assert(upper@ =~= ascii_upper(text@.take(i as int)));
        }
    }
    proof {
        assert(text@.take(i as int) =~= text@);
    }
    upper
}

/// The texts differ at most in the case of ASCII letters.
pub fn same_ignoring_case(a: &str, b: &str) -> (same: bool)
    ensures
        same == (ascii_lower(a@) == ascii_lower(b@)),
{
    let left: String = to_lower(a);
    let right: String = to_lower(b);
    same_text(left.as_str(), right.as_str())
}

// White space.

/// The characters with the Unicode property White_Space.
pub open spec fn is_white(ch: char) -> bool {
    let c = ch as u32;
    0x09 <= c <= 0x0d || c == 0x20 || c == 0x85 || c == 0xa0 || c == 0x1680 || 0x2000 <= c <= 0x200a
        || c == 0x2028 || c == 0x2029 || c == 0x202f || c == 0x205f || c == 0x3000
}

pub fn is_whitespace(ch: char) -> (white: bool)
    ensures
        white == is_white(ch),
{
    let c: u32 = ch as u32;
    (0x09 <= c && c <= 0x0d) || c == 0x20 || c == 0x85 || c == 0xa0 || c == 0x1680 || (0x2000 <= c
        && c <= 0x200a) || c == 0x2028 || c == 0x2029 || c == 0x202f || c == 0x205f || c == 0x3000
}

/// Every character is white space.
pub open spec fn is_blank(text: Seq<char>) -> bool {
    forall|i: int| 0 <= i < text.len() ==> is_white(text[i])
}

/// The text without leading white space.
pub open spec fn trim_start(text: Seq<char>) -> Seq<char>
    decreases text.len(),
{
    if text.len() > 0 && is_white(text[0]) {
        trim_start(text.drop_first())
    } else {
        text
    }
}

/// The text without trailing white space.
pub open spec fn trim_end(text: Seq<char>) -> Seq<char>
    decreases text.len(),
{
    if text.len() > 0 && is_white(text.last()) {
        trim_end(text.drop_last())
    } else {
        text
    }
}

/// The text without leading and trailing white space.
pub open spec fn trim(text: Seq<char>) -> Seq<char> {
    trim_end(trim_start(text))
}

/// Where the text begins and ends once it is trimmed.
fn trim_bounds(chars: &Vec<char>) -> (bounds: (usize, usize))
    ensures
        bounds.0 <= bounds.1 <= chars@.len(),
        trim(chars@) == chars@.subrange(bounds.0 as int, bounds.1 as int),
{
    let mut from: usize = 0;
    proof {
        assert(chars@.skip(0) =~= chars@);
    }
    while from < chars.len() && is_whitespace(chars[from])
        invariant
            from <= chars@.len(),
            trim_start(chars@) == trim_start(chars@.skip(from as int)),
        decreases chars@.len() - from,
    {
        proof {
            assert(chars@.skip(from as int).drop_first() =~= chars@.skip(from as int + 1));
        }
        from = from + 1;
    }
    let mut to: usize = chars.len();
    proof {
        assert(trim_start(chars@) == chars@.skip(from as int));
        assert(chars@.skip(from as int) =~= chars@.subrange(from as int, to as int));
    }
    while from < to && is_whitespace(chars[to - 1])
        invariant
            from <= to <= chars@.len(),
            trim(chars@) == trim_end(chars@.subrange(from as int, to as int)),
        decreases to - from,
    {
        proof {
            assert(chars@.subrange(from as int, to as int).drop_last() =~= chars@.subrange(
                from as int,
                to as int - 1,
            ));
        }
        to = to - 1;
    }
    (from, to)
}

/// The text without leading and trailing white space.
pub fn trimmed(text: &str) -> (trimmed: String)
    ensures
        trimmed@ == trim(text@),
{
    let chars: Vec<char> = chars_of(text);
    let (from, to) = trim_bounds(&chars);
    string_of(chars.as_slice(), from, to)
}

/// Trimming leaves nothing of a text exactly where it is blank.
pub proof fn lemma_trim_is_empty_iff_blank(text: Seq<char>)
    ensures
        trim(text).len() == 0 <==> is_blank(text),
    decreases text.len(),
{
    lemma_trim_start_keeps_blankness(text);
    lemma_trim_end_keeps_blankness(trim_start(text));
    assert(is_blank(Seq::<char>::empty()));
    if trim(text).len() == 0 {
        assert(trim(text) =~= Seq::<char>::empty());
    }
}

proof fn lemma_trim_start_keeps_blankness(text: Seq<char>)
    ensures
        is_blank(trim_start(text)) == is_blank(text),
    decreases text.len(),
{
    if text.len() > 0 && is_white(text[0]) {
        lemma_trim_start_keeps_blankness(text.drop_first());
        if is_blank(text.drop_first()) {
            assert forall|i: int| 0 <= i < text.len() implies is_white(text[i]) by {
                if i > 0 {
                    assert(text.drop_first()[i - 1] == text[i]);
                }
            }
        }
    }
}

proof fn lemma_trim_end_keeps_blankness(text: Seq<char>)
    ensures
        is_blank(trim_end(text)) == is_blank(text),
        is_blank(text) ==> trim_end(text).len() == 0,
    decreases text.len(),
{
    if text.len() > 0 && is_white(text.last()) {
        lemma_trim_end_keeps_blankness(text.drop_last());
        if is_blank(text.drop_last()) {
            assert forall|i: int| 0 <= i < text.len() implies is_white(text[i]) by {
                if i < text.len() - 1 {
                    assert(text.drop_last()[i] == text[i]);
                }
            }
        }
    }
}

/// Nothing but white space remains of the text.
pub fn blank(text: &str) -> (blank: bool)
    ensures
        blank == is_blank(text@),
        blank == (trim(text@).len() == 0),
{
    let chars: Vec<char> = chars_of(text);
    let (from, to) = trim_bounds(&chars);
    proof {
        lemma_trim_is_empty_iff_blank(text@);
    }
    from == to
}

// Decimal numbers.

pub open spec fn digit_char(digit: int) -> char {
    (48 + digit) as char
}

/// The decimal digits of `n`.
pub open spec fn decimal(n: nat) -> Seq<char>
    decreases n,
{
    if n < 10 {
        seq![digit_char(n as int)]
    } else {
        decimal(n / 10).push(digit_char((n % 10) as int))
    }
}

/// The decimal digits of `n`, with a minus sign below zero.
pub open spec fn signed_decimal(n: int) -> Seq<char> {
    if n < 0 {
        seq!['-'] + decimal((-n) as nat)
    } else {
        decimal(n as nat)
    }
}

/// Appends the decimal digits of `n`.
pub fn push_decimal(text: &mut String, n: u64)
    ensures
        final(text)@ == old(text)@ + decimal(n as nat),
    decreases n,
{
    if n >= 10 {
        push_decimal(text, n / 10);
    }
    let digit: u8 = 48 + (n % 10) as u8;
    text.push(digit as char);
    proof {
        assert(text@ =~= old(text)@ + decimal(n as nat));
    }
}

/// Appends `n` in decimal.
pub fn push_signed_decimal(text: &mut String, n: i64)
    ensures
        final(text)@ == old(text)@ + signed_decimal(n as int),
{
    if n < 0 {
        text.push('-');
        let magnitude: u64 = if n == i64::MIN {
            9_223_372_036_854_775_808
        } else {
            (-n) as u64
        };
        push_decimal(text, magnitude);
        proof {
            assert(text@ =~= old(text)@ + signed_decimal(n as int));
        }
    } else {
        push_decimal(text, n as u64);
    }
}

pub open spec fn is_digit(ch: char) -> bool {
    '0' <= ch <= '9'
}

/// Only digits, and at least one.
pub open spec fn is_number(text: Seq<char>) -> bool {
    text.len() > 0 && forall|i: int| 0 <= i < text.len() ==> is_digit(text[i])
}

/// The value of a sequence of decimal digits.
pub open spec fn digits_value(text: Seq<char>) -> nat
    decreases text.len(),
{
    if text.len() == 0 {
        0
    } else {
        digits_value(text.drop_last()) * 10 + (text.last() as u32 - 48) as nat
    }
}

/// The text without one leading plus sign.
pub open spec fn without_plus(text: Seq<char>) -> Seq<char> {
    if text.len() > 0 && text[0] == '+' {
        text.drop_first()
    } else {
        text
    }
}

/// The number that a text of digits, with an optional plus sign, stands for,
/// where it is at most `u32::MAX`.
pub open spec fn parsed_u32(text: Seq<char>) -> Option<u32> {
    let digits = without_plus(text);
    if is_number(digits) && digits_value(digits) <= u32::MAX {
        Some(digits_value(digits) as u32)
    } else {
        None
    }
}

proof fn lemma_digits_value_grows(text: Seq<char>, i: int)
    requires
        0 <= i <= text.len(),
    ensures
        digits_value(text.take(i)) <= digits_value(text),
    decreases text.len(),
{
    if i == text.len() {
        assert(text.take(i) =~= text);
    } else {
        assert(text.drop_last().take(i) =~= text.take(i));
        lemma_digits_value_grows(text.drop_last(), i);
    }
}

pub fn parse_u32(text: &str) -> (number: Option<u32>)
    ensures
        number == parsed_u32(text@),
{
    let chars: Vec<char> = chars_of(text);
    let from: usize = if chars.len() > 0 && chars[0] == '+' {
        1
    } else {
        0
    };
    let ghost digits = without_plus(text@);
    proof {
        assert(digits =~= chars@.skip(from as int));
    }
    if from == chars.len() {
        return None;
    }
    let mut value: u64 = 0;
    let mut i: usize = from;
    while i < chars.len()
        invariant
            from <= i <= chars@.len(),
            digits == chars@.skip(from as int),
            digits == without_plus(text@),
            value == digits_value(digits.take(i - from)),
            value <= u32::MAX,
            forall|j: int| 0 <= j < i - from ==> is_digit(digits[j]),
        decreases chars@.len() - i,
    {
        let ch: char = chars[i];
        if !('0' <= ch && ch <= '9') {
            proof {
                assert(digits[i - from] == ch);
            }
            return None;
        }
        proof {
            assert(digits.take(i - from + 1).drop_last() =~= digits.take(i - from));
            assert(digits.take(i - from + 1).last() == ch);
        }
        value = value * 10 + (ch as u64 - 48);
        i = i + 1;
        if value > u32::MAX as u64 {
            proof {
                lemma_digits_value_grows(digits, i - from);
            }
            return None;
        }
    }
    proof {
        assert(digits.take(i - from) =~= digits);
    }
    Some(value as u32)
}

// What the spec functions above are for.

/// Trimming takes white space off both ends and nothing else: what it takes is
/// blank, and what is left begins and ends with another character.
pub proof fn lemma_trim_takes_only_the_ends(text: Seq<char>)
    ensures
        exists|from: int, to: int|
            {
                &&& 0 <= from <= to <= text.len()
                &&& trim(text) == #[trigger] text.subrange(from, to)
                &&& is_blank(text.take(from))
                &&& is_blank(text.skip(to))
            },
        trim(text).len() > 0 ==> !is_white(trim(text)[0]) && !is_white(trim(text).last()),
{
    lemma_trim_start_takes_a_blank_beginning(text);
    let started = trim_start(text);
    lemma_trim_end_takes_a_blank_end(started);
    let from = text.len() - started.len();
    let to = from + trim(text).len();
    assert(text.subrange(from, to) =~= trim(text)) by {
        assert forall|i: int| 0 <= i < trim(text).len() implies text.subrange(from, to)[i] == trim(
            text,
        )[i] by {
            assert(trim(text)[i] == started[i]);
            assert(started[i] == text.skip(from)[i]);
        }
    }
    assert(text.skip(to) =~= started.skip(trim(text).len() as int)) by {
        assert forall|i: int| 0 <= i < text.len() - to implies text.skip(to)[i] == started.skip(
            trim(text).len() as int,
        )[i] by {
            assert(started[trim(text).len() + i] == text.skip(from)[trim(text).len() + i]);
        }
    }
    if trim(text).len() > 0 {
        assert(trim(text)[0] == started[0]);
    }
}

proof fn lemma_trim_start_takes_a_blank_beginning(text: Seq<char>)
    ensures
        trim_start(text).len() <= text.len(),
        trim_start(text) == text.skip(text.len() - trim_start(text).len()),
        is_blank(text.take(text.len() - trim_start(text).len())),
        trim_start(text).len() > 0 ==> !is_white(trim_start(text)[0]),
    decreases text.len(),
{
    if text.len() > 0 && is_white(text[0]) {
        let rest = text.drop_first();
        lemma_trim_start_takes_a_blank_beginning(rest);
        let n = text.len() - trim_start(text).len();
        assert(text.skip(n) =~= rest.skip(n - 1));
        assert forall|i: int| 0 <= i < n implies is_white(text.take(n)[i]) by {
            if i > 0 {
                assert(text.take(n)[i] == rest.take(n - 1)[i - 1]);
            }
        }
    } else {
        assert(text.skip(0) =~= text);
    }
}

proof fn lemma_trim_end_takes_a_blank_end(text: Seq<char>)
    ensures
        trim_end(text).len() <= text.len(),
        trim_end(text) == text.take(trim_end(text).len() as int),
        is_blank(text.skip(trim_end(text).len() as int)),
        trim_end(text).len() > 0 ==> !is_white(trim_end(text).last()),
    decreases text.len(),
{
    if text.len() > 0 && is_white(text.last()) {
        let rest = text.drop_last();
        lemma_trim_end_takes_a_blank_end(rest);
        let n = trim_end(text).len() as int;
        assert(text.take(n) =~= rest.take(n));
        assert forall|i: int| 0 <= i < text.len() - n implies is_white(text.skip(n)[i]) by {
            if n + i < rest.len() {
                assert(text.skip(n)[i] == rest.skip(n)[i]);
            }
        }
    } else {
        assert(text.take(text.len() as int) =~= text);
    }
}

/// Space, tab and line ends are white space, visible ASCII characters are not,
/// and neither is a zero-width space.
pub proof fn lemma_what_is_white_space(ch: char)
    ensures
        ch == ' ' || ch == '\t' || ch == '\n' || ch == '\r' ==> is_white(ch),
        ch == '\u{a0}' || ch == '\u{3000}' || ch == '\u{2003}' || ch == '\u{2028}' ==> is_white(ch),
        0x21 <= ch as u32 <= 0x7e ==> !is_white(ch),
        ch as u32 <= 8 || ch == '\u{200b}' || ch == '\u{feff}' ==> !is_white(ch),
{
}

/// The digits of a number are digits, have no leading zero and stand for the
/// number.
pub proof fn lemma_decimal_stands_for_its_number(n: nat)
    ensures
        is_number(decimal(n)),
        digits_value(decimal(n)) == n,
        n > 0 ==> decimal(n)[0] != '0',
    decreases n,
{
    if n < 10 {
        assert(decimal(n).drop_last() =~= Seq::<char>::empty());
        assert(digits_value(Seq::<char>::empty()) == 0);
    } else {
        lemma_decimal_stands_for_its_number(n / 10);
        assert(decimal(n).drop_last() =~= decimal(n / 10));
        assert forall|i: int| 0 <= i < decimal(n).len() implies is_digit(decimal(n)[i]) by {
            if i < decimal(n / 10).len() {
                assert(decimal(n)[i] == decimal(n / 10)[i]);
            }
        }
        assert(decimal(n)[0] == decimal(n / 10)[0]);
    }
}

/// Digits mean what positions say: a digit behind others counts ten times them
/// and itself.
pub proof fn lemma_digits_are_decimal(text: Seq<char>, digit: int)
    requires
        0 <= digit <= 9,
    ensures
        digits_value(text.push(digit_char(digit))) == 10 * digits_value(text) + digit,
        is_digit(digit_char(digit)),
        digit_char(0) == '0',
        digit_char(9) == '9',
{
    assert(text.push(digit_char(digit)).drop_last() =~= text);
}

/// A number that was written is read back, with or without a plus sign, as
/// long as it fits; anything with another character in it is no number.
pub proof fn lemma_written_numbers_are_read_back(n: nat, text: Seq<char>, i: int)
    ensures
        n <= 0xffff_ffff ==> parsed_u32(decimal(n)) == Some(n as u32) && parsed_u32(
            seq!['+'] + decimal(n),
        ) == Some(n as u32),
        n > 0xffff_ffff ==> parsed_u32(decimal(n)) is None,
        0 < i < text.len() && !('0' <= text[i] <= '9') ==> parsed_u32(text) is None,
        text.len() == 0 || text == seq!['+'] ==> parsed_u32(text) is None,
{
    lemma_decimal_stands_for_its_number(n);
    assert(is_digit(decimal(n)[0]));
    assert((seq!['+'] + decimal(n)).drop_first() =~= decimal(n));
    if 0 < i < text.len() && !('0' <= text[i] <= '9') {
        let digits = without_plus(text);
        if text[0] == '+' {
            assert(digits[i - 1] == text[i]);
        } else {
            assert(digits[i] == text[i]);
        }
    }
    if text == seq!['+'] {
        assert(text.drop_first() =~= Seq::<char>::empty());
    }
}

/// Letters keep their place when the case changes; the two cases undo each
/// other, and nothing but the 26 letters changes.
pub proof fn lemma_case_changes_only_letters(ch: char)
    ensures
        'A' <= ch <= 'Z' ==> ascii_lower_char(ch) as int == ch as int + 32 && ascii_upper_char(
            ascii_lower_char(ch),
        ) == ch,
        'a' <= ch <= 'z' ==> ascii_upper_char(ch) as int == ch as int - 32 && ascii_lower_char(
            ascii_upper_char(ch),
        ) == ch,
        !('A' <= ch <= 'Z') ==> ascii_lower_char(ch) == ch,
        !('a' <= ch <= 'z') ==> ascii_upper_char(ch) == ch,
        ascii_lower_char('A') == 'a',
        ascii_lower_char('Z') == 'z',
{
}

/// Splitting undoes joining: no part holds the separator, and the parts with
/// separators between them are the text.
pub proof fn lemma_split_parts_make_up_the_text(text: Seq<char>, separator: char)
    ensures
        split_on(text, separator).len() > 0,
        joined_with(split_on(text, separator), separator) == text,
        forall|i: int|
            0 <= i < split_on(text, separator).len() ==> !(#[trigger] split_on(
                text,
                separator,
            )[i]).contains(separator),
    decreases text.len(),
{
    let parts = split_on(text, separator);
    if text.len() == 0 {
        assert(parts.drop_last() =~= Seq::<Seq<char>>::empty());
        assert(joined_with(parts, separator) =~= text);
    } else {
        let before = split_on(text.drop_last(), separator);
        lemma_split_parts_make_up_the_text(text.drop_last(), separator);
        if text.last() == separator {
            assert(parts.drop_last() =~= before);
            assert(joined_with(parts, separator) =~= text);
        } else {
            let grown = before.last().push(text.last());
            assert(parts.drop_last() =~= before.drop_last());
            assert(!before.last().contains(separator)) by {
                assert(before[before.len() - 1] == before.last());
            }
            assert(!grown.contains(separator)) by {
                if grown.contains(separator) {
                    let k = choose|k: int| 0 <= k < grown.len() && grown[k] == separator;
                    assert(k < before.last().len());
                    assert(before.last()[k] == separator);
                }
            }
            assert(parts.last() == grown);
            assert(text =~= text.drop_last().push(text.last()));
            if before.len() == 1 {
                assert(joined_with(before, separator) == before[0]);
                assert(joined_with(parts, separator) == parts[0]);
            } else {
                let head = joined_with(before.drop_last(), separator).push(separator);
                assert(joined_with(before, separator) == head + before.last());
                assert(joined_with(parts, separator) == head + grown);
                assert(head + grown =~= (head + before.last()).push(text.last()));
            }
            assert(joined_with(parts, separator) =~= text);
            assert forall|i: int| 0 <= i < parts.len() implies !(#[trigger] parts[i]).contains(
                separator,
            ) by {
                if i < before.len() - 1 {
                    assert(parts[i] == before[i]);
                }
            }
        }
    }
}

/// The parts with the separator between them.
pub open spec fn joined_with(parts: Seq<Seq<char>>, separator: char) -> Seq<char>
    decreases parts.len(),
{
    if parts.len() == 0 {
        Seq::empty()
    } else if parts.len() == 1 {
        parts[0]
    } else {
        joined_with(parts.drop_last(), separator).push(separator) + parts.last()
    }
}

/// Joining is undone by splitting: parts without the separator come back as
/// they were.
pub proof fn lemma_joined_parts_are_split_again(parts: Seq<Seq<char>>, separator: char)
    requires
        parts.len() > 0,
        forall|i: int| 0 <= i < parts.len() ==> !(#[trigger] parts[i]).contains(separator),
    ensures
        split_on(joined_with(parts, separator), separator) == parts,
    decreases parts.len(),
{
    let last = parts.last();
    assert(last == parts[parts.len() - 1]);
    if parts.len() == 1 {
        lemma_split_grows(Seq::empty(), last, separator);
        assert(Seq::<char>::empty() + last =~= last);
        assert(split_on(Seq::<char>::empty(), separator) =~= seq![Seq::<char>::empty()]);
        assert(split_on(last, separator) =~= parts);
    } else {
        let front = parts.drop_last();
        assert forall|i: int| 0 <= i < front.len() implies !(#[trigger] front[i]).contains(
            separator,
        ) by {
            assert(front[i] == parts[i]);
        }
        lemma_joined_parts_are_split_again(front, separator);
        let head = joined_with(front, separator).push(separator);
        assert(head.drop_last() =~= joined_with(front, separator));
        assert(split_on(head, separator) == front.push(Seq::empty()));
        lemma_split_grows(head, last, separator);
        assert(split_on(head + last, separator) =~= parts);
    }
}

/// Text without the separator only makes the last part longer.
proof fn lemma_split_grows(head: Seq<char>, tail: Seq<char>, separator: char)
    requires
        !tail.contains(separator),
    ensures
        split_on(head, separator).len() > 0,
        split_on(head + tail, separator) == split_on(head, separator).drop_last().push(
            split_on(head, separator).last() + tail,
        ),
    decreases tail.len(),
{
    lemma_split_parts_make_up_the_text(head, separator);
    let parts = split_on(head, separator);
    if tail.len() == 0 {
        assert(head + tail =~= head);
        assert(parts.last() + tail =~= parts.last());
        assert(parts.drop_last().push(parts.last()) =~= parts);
    } else {
        let rest = tail.drop_last();
        assert(!rest.contains(separator)) by {
            if rest.contains(separator) {
                let k = choose|k: int| 0 <= k < rest.len() && rest[k] == separator;
                assert(tail[k] == separator);
            }
        }
        lemma_split_grows(head, rest, separator);
        assert((head + tail).drop_last() =~= head + rest);
        assert((head + tail).last() == tail.last());
        assert(tail[tail.len() - 1] == tail.last());
        let grown = parts.drop_last().push(parts.last() + rest);
        assert(grown.drop_last() =~= parts.drop_last());
        assert((parts.last() + rest).push(tail.last()) =~= parts.last() + tail);
    }
}

/// A text that begins and ends with another character than white space is
/// trimmed already.
pub proof fn lemma_trimmed_text_stays(text: Seq<char>)
    requires
        text.len() > 0 ==> !is_white(text[0]) && !is_white(text.last()),
    ensures
        trim(text) == text,
{
}

} // verus!
