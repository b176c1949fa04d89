//! The selection of a native edit control.
//!
//! A fallback for controls without automation text: it reads the focused edit
//! control of the originating process, or the one under the pointer, and
//! refuses anything that could hold a password.

use crate::extraction::{ExtractionFailure, ExtractionSource, TextContext};
use crate::geometry::{ScreenPoint, ScreenRect};
use crate::text::{
    ascii_lower, begins_with, byte_len, bytes_in, char_at_byte, chars_of, is_byte_offset, is_white,
    is_whitespace, lemma_byte_len_splits, lemma_byte_offset_is_unique, same_text, to_lower,
    width_of,
};
use crate::utf16::{
    decode_utf16, decode_utf16_lossy, encode_utf16, lemma_decode_inverts_encode, text_of_utf16,
    text_of_utf16_lossy, utf16_units,
};
use vstd::prelude::*;

verus! {

pub const EM_GETSEL: u32 = 0x00b0;

pub const EM_GETPASSWORDCHAR: u32 = 0x00d2;

/// The window style of an edit control that hides what is typed.
pub const ES_PASSWORD: isize = 0x20;

/// How many ancestors of a window are looked at, besides the window itself.
pub const MAX_PARENT_DEPTH: usize = 8;

pub const MAX_TEXT_UNITS: usize = 32_768;

pub const MESSAGE_TIMEOUT_MS: u64 = 80;

/// How long the whole extraction may take, in nanoseconds.
pub const NATIVE_BUDGET: u64 = 300_000_000;

/// The units that a window's class name is read into.
pub const CLASS_NAME_UNITS: usize = 64;

pub const NANOS_PER_MILLI: u64 = 1_000_000;

/// The class name, in either case, is that of a Unicode edit control.
pub open spec fn is_edit_class(class: Seq<char>) -> bool {
    let lower = ascii_lower(class);
    lower == "edit"@ || lower == "richedit20w"@ || lower == "richedit50w"@ || lower
        == "richeditd2dpt"@ || "windowsforms10.edit."@.is_prefix_of(lower)
        || "windowsforms10.richedit20w."@.is_prefix_of(lower)
        || "windowsforms10.richedit50w."@.is_prefix_of(lower)
}

pub fn is_allowed_edit_class_name(class: &str) -> (allowed: bool)
    ensures
        allowed == is_edit_class(class@),
{
    let lower: String = to_lower(class);
    let lower: &str = lower.as_str();
    same_text(lower, "edit") || same_text(lower, "richedit20w") || same_text(lower, "richedit50w")
        || same_text(lower, "richeditd2dpt") || begins_with(lower, "windowsforms10.edit.")
        || begins_with(lower, "windowsforms10.richedit20w.") || begins_with(
        lower,
        "windowsforms10.richedit50w.",
    )
}

/// The class name that was read into `buffer`, `length` units of it, is that of
/// an edit control. A name that fills the buffer may be cut off.
pub fn is_allowed_edit_class(buffer: &[u16], length: usize) -> (allowed: bool)
    requires
        length <= buffer@.len(),
    ensures
        allowed <==> 0 < length < buffer@.len() && is_edit_class(
            decode_utf16_lossy(buffer@.take(length as int)),
        ),
{
    if length == 0 || length >= buffer.len() {
        return false;
    }
    let units: &[u16] = vstd::slice::slice_subrange(buffer, 0, length);
    proof {
        assert(units@ =~= buffer@.take(length as int));
    }
    let class: String = text_of_utf16_lossy(units);
    is_allowed_edit_class_name(class.as_str())
}

/// The range is in order and within `max_units`.
pub fn valid_utf16_range(start: u32, end: u32, max_units: usize) -> (valid: bool)
    ensures
        valid <==> start <= end <= max_units,
{
    start <= end && end as u64 <= max_units as u64
}

/// The number of UTF-8 bytes of the first `offset` units, where they are a
/// text.
pub fn utf16_offset_to_byte(units: &[u16], offset: usize) -> (bytes: Option<usize>)
    ensures
        match bytes {
            Some(count) => {
                &&& offset <= units@.len()
                &&& decode_utf16(units@.take(offset as int)) is Some
                &&& count == byte_len(decode_utf16(units@.take(offset as int)).unwrap())
            },
            None => offset > units@.len() || decode_utf16(units@.take(offset as int)) is None,
        },
{
    if offset > units.len() {
        return None;
    }
    let prefix: &[u16] = vstd::slice::slice_subrange(units, 0, offset);
    proof {
        assert(prefix@ =~= units@.take(offset as int));
    }
    match text_of_utf16(prefix) {
        Some(text) => Some(bytes_in(text.as_str())),
        None => None,
    }
}

/// Only a selection with geometry, a drag or a double click, may be read from
/// a native control without being asked for.
pub fn native_fallback_allowed(selection_rect: Option<ScreenRect>) -> (allowed: bool)
    ensures
        allowed == (selection_rect is Some),
{
    selection_rect.is_some()
}

/// Whether to look for an edit control at all, and at which point.
pub fn begin_native_selection(
    cancelled: bool,
    pointer: Option<ScreenPoint>,
    process_id: u32,
    own_process_id: u32,
    selection_rect: Option<ScreenRect>,
) -> (point: Result<ScreenPoint, ExtractionFailure>)
    ensures
        point == if cancelled {
            Err(ExtractionFailure::Platform)
        } else if selection_rect is None || pointer is None || process_id == 0 || process_id
            == own_process_id {
            Err(ExtractionFailure::UnsupportedPattern)
        } else {
            Ok(pointer.unwrap())
        },
{
    if cancelled {
        return Err(ExtractionFailure::Platform);
    }
    if !native_fallback_allowed(selection_rect) {
        return Err(ExtractionFailure::UnsupportedPattern);
    }
    match pointer {
        Some(point) => if process_id == 0 || process_id == own_process_id {
            Err(ExtractionFailure::UnsupportedPattern)
        } else {
            Ok(point)
        },
        None => Err(ExtractionFailure::UnsupportedPattern),
    }
}

/// The focused window is a candidate: it exists and belongs, with the
/// foreground window, to the expected process.
pub fn focused_window_usable(
    foreground_exists: bool,
    thread_id: u32,
    foreground_process: u32,
    expected_process: u32,
    focused_exists: bool,
) -> (usable: bool)
    ensures
        usable <==> foreground_exists && thread_id != 0 && foreground_process == expected_process
            && focused_exists,
{
    foreground_exists && thread_id != 0 && foreground_process == expected_process && focused_exists
}

/// What to do with a window on the way up from the first one.
#[derive(Clone, Copy, Debug, PartialEq, Eq, Structural)]
pub enum AncestorStep {
    /// An edit control: check its policy and take it.
    Take,
    /// Look at the parent.
    VisitParent,
    Fail(ExtractionFailure),
}

/// Looks at the window that comes after `visited` others. `window` gives its
/// process and whether its class is that of an edit control; it is missing at
/// the end of the chain.
pub fn ancestor_step(visited: usize, window: Option<(u32, bool)>, expected_process: u32) -> (step:
    AncestorStep)
    ensures
        step == if visited > MAX_PARENT_DEPTH {
            AncestorStep::Fail(ExtractionFailure::UnsupportedPattern)
        } else {
            match window {
                None => AncestorStep::Fail(ExtractionFailure::UnsupportedPattern),
                Some((process, is_edit)) => if process != expected_process {
                    AncestorStep::Fail(ExtractionFailure::StaleElement)
                } else if is_edit {
                    AncestorStep::Take
                } else {
                    AncestorStep::VisitParent
                },
            }
        },
{
    if visited > MAX_PARENT_DEPTH {
        return AncestorStep::Fail(ExtractionFailure::UnsupportedPattern);
    }
    match window {
        None => AncestorStep::Fail(ExtractionFailure::UnsupportedPattern),
        Some((process, is_edit)) => if process != expected_process {
            AncestorStep::Fail(ExtractionFailure::StaleElement)
        } else if is_edit {
            AncestorStep::Take
        } else {
            AncestorStep::VisitParent
        },
    }
}

/// A window may be read only if it is a Unicode window without the password
/// style.
pub fn check_text_window_style(unicode: bool, style: isize) -> (policy: Result<
    (),
    ExtractionFailure,
>)
    ensures
        policy == if !unicode {
            Err(ExtractionFailure::UnsupportedPattern)
        } else if style & ES_PASSWORD != 0 {
            Err(ExtractionFailure::PermissionDenied)
        } else {
            Ok(())
        },
{
    if !unicode {
        return Err(ExtractionFailure::UnsupportedPattern);
    }
    if style & ES_PASSWORD != 0 {
        return Err(ExtractionFailure::PermissionDenied);
    }
    Ok(())
}

/// A window may be read only if it answers that it has no password character.
pub fn check_password_char(reply: Result<usize, ExtractionFailure>) -> (policy: Result<
    (),
    ExtractionFailure,
>)
    ensures
        policy == if reply == Ok::<usize, ExtractionFailure>(0) {
            Ok(())
        } else {
            Err(ExtractionFailure::PermissionDenied)
        },
{
    match reply {
        Ok(0) => Ok(()),
        _ => Err(ExtractionFailure::PermissionDenied),
    }
}

/// The candidate is still an edit control of the expected process.
pub fn validate_candidate(process: u32, expected_process: u32, is_edit: bool) -> (valid: Result<
    (),
    ExtractionFailure,
>)
    ensures
        valid == if process == expected_process && is_edit {
            Ok(())
        } else {
            Err(ExtractionFailure::StaleElement)
        },
{
    if process != expected_process || !is_edit {
        Err(ExtractionFailure::StaleElement)
    } else {
        Ok(())
    }
}

/// How long one message may take, in milliseconds: what is left until the
/// deadline, at least one and at most the limit.
pub fn message_timeout(now: u64, deadline: u64) -> (timeout: Result<u32, ExtractionFailure>)
    ensures
        timeout == if now > deadline {
            Err(ExtractionFailure::Platform)
        } else {
            let left = (deadline - now) / NANOS_PER_MILLI as int;
            Ok(
                if left < 1 {
                    1
                } else if left > MESSAGE_TIMEOUT_MS {
                    MESSAGE_TIMEOUT_MS as u32
                } else {
                    left as u32
                },
            )
        },
{
    if now > deadline {
        return Err(ExtractionFailure::Platform);
    }
    let left: u64 = (deadline - now) / NANOS_PER_MILLI;
    Ok(
        if left < 1 {
            1
        } else if left > MESSAGE_TIMEOUT_MS {
            MESSAGE_TIMEOUT_MS as u32
        } else {
            left as u32
        },
    )
}

/// The selection that a control reported is a range of some of its units.
pub fn check_selected_range(start: u32, end: u32, cancelled: bool) -> (range: Result<
    (),
    ExtractionFailure,
>)
    ensures
        range == if !(start < end <= MAX_TEXT_UNITS) {
            Err(ExtractionFailure::EmptyRange)
        } else if cancelled {
            Err(ExtractionFailure::Platform)
        } else {
            Ok(())
        },
{
    if !valid_utf16_range(start, end, MAX_TEXT_UNITS) || start == end {
        return Err(ExtractionFailure::EmptyRange);
    }
    if cancelled {
        return Err(ExtractionFailure::Platform);
    }
    Ok(())
}

/// The units to allocate for a text that a control says is `length` long, its
/// terminator included.
pub fn text_buffer_units(length: usize) -> (units: Result<usize, ExtractionFailure>)
    ensures
        units == if length > MAX_TEXT_UNITS {
            Err(ExtractionFailure::Platform)
        } else if length == 0 {
            Err(ExtractionFailure::EmptyRange)
        } else {
            Ok((length + 1) as usize)
        },
{
    if length > MAX_TEXT_UNITS {
        return Err(ExtractionFailure::Platform);
    }
    if length == 0 {
        return Err(ExtractionFailure::EmptyRange);
    }
    Ok(length + 1)
}

fn has_zero(units: &[u16]) -> (found: bool)
    ensures
        found == units@.contains(0),
{
    let mut i: usize = 0;
    while i < units.len()
        invariant
            i <= units@.len(),
            forall|j: int| 0 <= j < i ==> units@[j] != 0,
        decreases units@.len() - i,
    {
        if units[i] == 0 {
            return true;
        }
        i = i + 1;
    }
    false
}

/// The text that a control copied into `buffer`; it had announced `length`
/// units and copied `copied`.
pub fn window_text(buffer: &[u16], length: usize, copied: usize) -> (text: Result<
    String,
    ExtractionFailure,
>)
    requires
        length <= buffer@.len(),
    ensures
        match text {
            Ok(text) => {
                &&& copied <= length
                &&& !buffer@.take(copied as int).contains(0)
                &&& decode_utf16(buffer@.take(copied as int)) == Some(text@)
            },
            Err(failure) => {
                &&& failure == ExtractionFailure::StaleElement
                &&& copied > length || buffer@.take(copied as int).contains(0) || decode_utf16(
                    buffer@.take(copied as int),
                ) is None
            },
        },
{
    if copied > length {
        return Err(ExtractionFailure::StaleElement);
    }
    let units: &[u16] = vstd::slice::slice_subrange(buffer, 0, copied);
    proof {
        assert(units@ =~= buffer@.take(copied as int));
    }
    if has_zero(units) {
        return Err(ExtractionFailure::StaleElement);
    }
    match text_of_utf16(units) {
        Some(text) => Ok(text),
        None => Err(ExtractionFailure::StaleElement),
    }
}

/// A selected part of a text and the byte at which it begins.
#[derive(Debug, PartialEq, Eq)]
pub struct SelectedPart {
    pub target: String,
    pub byte_offset: usize,
}

/// The units `start..end` of `text` are characters, after characters.
pub open spec fn is_selectable(text: Seq<char>, start: int, end: int) -> bool {
    let units = encode_utf16(text);
    end <= units.len() && decode_utf16(units.subrange(start, end)) is Some && decode_utf16(
        units.take(start),
    ) is Some
}

/// The part of `text` that the control had selected before and after the text
/// was read. It is stale where the two ranges differ, where the text is too
/// short, or where the range cuts a character.
pub fn selected_part(text: &str, first: (u32, u32), second: (u32, u32)) -> (part: Result<
    SelectedPart,
    ExtractionFailure,
>)
    requires
        first.0 <= first.1,
    ensures
        match part {
            Ok(part) => {
                let units = encode_utf16(text@);
                &&& first == second
                &&& is_selectable(text@, first.0 as int, first.1 as int)
                &&& decode_utf16(units.subrange(first.0 as int, first.1 as int)) == Some(
                    part.target@,
                )
                &&& part.byte_offset == byte_len(decode_utf16(units.take(first.0 as int)).unwrap())
            },
            Err(failure) => {
                &&& failure == ExtractionFailure::StaleElement
                &&& first != second || !is_selectable(text@, first.0 as int, first.1 as int)
            },
        },
{
    let units: Vec<u16> = utf16_units(text);
    if first.1 as u64 > units.len() as u64 {
        return Err(ExtractionFailure::StaleElement);
    }
    if first.0 != second.0 || first.1 != second.1 {
        return Err(ExtractionFailure::StaleElement);
    }
    let range: &[u16] = vstd::slice::slice_subrange(
        units.as_slice(),
        first.0 as usize,
        first.1 as usize,
    );
    let target: String = match text_of_utf16(range) {
        Some(target) => target,
        None => {
            return Err(ExtractionFailure::StaleElement);
        },
    };
    match utf16_offset_to_byte(units.as_slice(), first.0 as usize) {
        Some(byte_offset) => Ok(SelectedPart { target, byte_offset }),
        None => Err(ExtractionFailure::StaleElement),
    }
}

/// A normalized target is usable: it is not empty and not longer than
/// `max_scalars` characters.
pub fn check_target(target: &str, max_scalars: usize) -> (valid: Result<(), ExtractionFailure>)
    ensures
        valid == if target@.len() == 0 {
            Err(ExtractionFailure::EmptyRange)
        } else if target@.len() > max_scalars {
            Err(ExtractionFailure::Platform)
        } else {
            Ok(())
        },
{
    let count: usize = target.unicode_len();
    if count == 0 {
        return Err(ExtractionFailure::EmptyRange);
    }
    if count > max_scalars {
        return Err(ExtractionFailure::Platform);
    }
    Ok(())
}

/// White space and invisible joiners, which may precede a target.
pub open spec fn is_skippable(ch: char) -> bool {
    is_white(ch) || ch == '\u{200B}' || ch == '\u{2060}' || ch == '\u{FEFF}'
}

/// How many skippable characters `text` begins with.
pub open spec fn skippable_prefix(text: Seq<char>) -> nat
    decreases text.len(),
{
    if text.len() > 0 && is_skippable(text[0]) {
        1 + skippable_prefix(text.drop_first())
    } else {
        0
    }
}

/// Where, from the character `index` on, the first visible character is; the
/// index itself where there is none.
pub open spec fn visible_from(text: Seq<char>, index: int) -> int {
    let skipped = skippable_prefix(text.skip(index)) as int;
    if index + skipped < text.len() {
        index + skipped
    } else {
        index
    }
}

/// The byte at which the sentence search begins: that of the first visible
/// character from `byte_offset` on.
pub fn context_offset(full_text: &str, byte_offset: usize) -> (offset: usize)
    requires
        exists|i: int| is_byte_offset(full_text@, i, byte_offset as int),
    ensures
        forall|i: int| #[trigger]
            is_byte_offset(full_text@, i, byte_offset as int) ==> is_byte_offset(
                full_text@,
                visible_from(full_text@, i),
                offset as int,
            ),
{
    let chars: Vec<char> = chars_of(full_text);
    let start: usize = match char_at_byte(full_text, byte_offset) {
        Some(start) => start,
        None => 0,
    };
    let total: usize = bytes_in(full_text);
    let mut i: usize = start;
    let mut offset: usize = byte_offset;
    let ghost skipped_all = skippable_prefix(full_text@.skip(start as int));
    proof {
        assert(full_text@ =~= full_text@.take(start as int) + full_text@.skip(start as int));
        lemma_byte_len_splits(full_text@.take(start as int), full_text@.skip(start as int));
    }
    while i < chars.len() && (is_whitespace(chars[i]) || chars[i] == '\u{200B}' || chars[i]
        == '\u{2060}' || chars[i] == '\u{FEFF}')
        invariant
            start <= i <= chars@.len(),
            chars@ == full_text@,
            offset == byte_len(full_text@.take(i as int)),
            total == byte_len(full_text@),
            offset <= total,
            skipped_all == i - start + skippable_prefix(full_text@.skip(i as int)),
        decreases chars@.len() - i,
    {
        proof {
            assert(full_text@.skip(i as int).drop_first() =~= full_text@.skip(i as int + 1));
            assert(full_text@.take(i as int + 1).drop_last() =~= full_text@.take(i as int));
            assert(full_text@ =~= full_text@.take(i as int + 1) + full_text@.skip(i as int + 1));
            lemma_byte_len_splits(full_text@.take(i as int + 1), full_text@.skip(i as int + 1));
        }
        offset = offset + width_of(chars[i]);
        i = i + 1;
    }
    let result: usize = if i < chars.len() {
        offset
    } else {
        byte_offset
    };
    proof {
        assert forall|k: int| #[trigger]
            is_byte_offset(full_text@, k, byte_offset as int) implies is_byte_offset(
            full_text@,
            visible_from(full_text@, k),
            result as int,
        ) by {
            if k < start {
                lemma_byte_offset_is_unique(full_text@, k, start as int);
            } else if k > start {
                lemma_byte_offset_is_unique(full_text@, start as int, k);
            }
            assert(k == start);
        }
    }
    result
}

/// The context of a target: the normalized sentence around it, where there is
/// one and it says more than the target.
pub fn context_beyond_target(sentence: Option<String>, target: &str) -> (context: Option<String>)
    ensures
        context == match sentence {
            Some(text) => if text@ != target@ && text@.len() > 0 {
                Some(text)
            } else {
                None
            },
            None => None,
        },
{
    match sentence {
        Some(text) => if !same_text(text.as_str(), target) && !text.as_str().is_empty() {
            Some(text)
        } else {
            None
        },
        None => None,
    }
}

/// What the extraction returns; a native selection counts as one of UI
/// automation.
pub fn native_result(
    target: String,
    context: Option<String>,
    selection_rect: Option<ScreenRect>,
) -> (text: TextContext)
    ensures
        text == (TextContext {
            target,
            context,
            source: ExtractionSource::UiaSelection,
            screen_rect: selection_rect,
        }),
{
    TextContext {
        target,
        context,
        source: ExtractionSource::UiaSelection,
        screen_rect: selection_rect,
    }
}

/// Selecting the whole of a text gives the text itself, from its first byte.
pub proof fn lemma_whole_selection_is_the_text(text: Seq<char>)
    ensures
        is_selectable(text, 0, encode_utf16(text).len() as int),
        decode_utf16(encode_utf16(text).subrange(0, encode_utf16(text).len() as int)) == Some(text),
        byte_len(decode_utf16(encode_utf16(text).take(0)).unwrap()) == 0,
{
    let units = encode_utf16(text);
    assert(units.subrange(0, units.len() as int) =~= units);
    assert(units.take(0) =~= Seq::<u16>::empty());
    lemma_decode_inverts_encode(text);
}

/// A range that begins and ends between characters selects exactly the
/// characters between them.
pub proof fn lemma_selection_is_the_characters_between(
    before: Seq<char>,
    selected: Seq<char>,
    after: Seq<char>,
)
    ensures
        ({
            let text = before + selected + after;
            let start = encode_utf16(before).len() as int;
            let end = start + encode_utf16(selected).len();
            &&& is_selectable(text, start, end)
            &&& decode_utf16(encode_utf16(text).subrange(start, end)) == Some(selected)
            &&& decode_utf16(encode_utf16(text).take(start)) == Some(before)
        }),
{
    let text = before + selected + after;
    let start = encode_utf16(before).len() as int;
    let end = start + encode_utf16(selected).len();
    lemma_encode_splits(before + selected, after);
    lemma_encode_splits(before, selected);
    assert(encode_utf16(text).subrange(start, end) =~= encode_utf16(selected));
    assert(encode_utf16(text).take(start) =~= encode_utf16(before));
    lemma_decode_inverts_encode(selected);
    lemma_decode_inverts_encode(before);
}

proof fn lemma_encode_splits(a: Seq<char>, b: Seq<char>)
    ensures
        encode_utf16(a + b) == encode_utf16(a) + encode_utf16(b),
    decreases a.len(),
{
    if a.len() == 0 {
        assert(a + b =~= b);
        assert(encode_utf16(a) + encode_utf16(b) =~= encode_utf16(b));
    } else {
        assert((a + b).skip(1) =~= a.skip(1) + b);
        lemma_encode_splits(a.skip(1), b);
        assert(encode_utf16(a + b) =~= encode_utf16(a) + encode_utf16(b));
    }
}

// What the rules above are for.

/// What is skipped before a sentence is invisible, and stops at the first
/// visible character; where nothing visible follows, the place stays.
pub proof fn lemma_the_first_visible_character_is_found(text: Seq<char>, index: int)
    requires
        0 <= index <= text.len(),
    ensures
        ({
            let at = visible_from(text, index);
            &&& index <= at <= text.len()
            &&& forall|i: int| index <= i < at ==> is_skippable(#[trigger] text[i])
            &&& at < text.len() && at > index ==> !is_skippable(text[at])
            &&& index < text.len() && !is_skippable(text[index]) ==> at == index
            &&& at == index && index < text.len() && is_skippable(text[index]) ==> forall|i: int|
                index <= i < text.len() ==> is_skippable(#[trigger] text[i])
        }),
        is_skippable(' ') && is_skippable('\n') && is_skippable('\u{200b}') && is_skippable(
            '\u{feff}',
        ),
        !is_skippable('a') && !is_skippable('.'),
{
    let rest = text.skip(index);
    lemma_skippable_prefix(rest);
    let skipped = skippable_prefix(rest) as int;
    assert forall|i: int| index <= i < index + skipped implies is_skippable(#[trigger] text[i]) by {
        assert(text[i] == rest[i - index]);
    }
    if index + skipped < text.len() {
        assert(text[index + skipped] == rest[skipped]);
    }
    if index < text.len() {
        assert(text[index] == rest[0]);
    }
}

proof fn lemma_skippable_prefix(text: Seq<char>)
    ensures
        skippable_prefix(text) <= text.len(),
        forall|i: int| 0 <= i < skippable_prefix(text) ==> is_skippable(#[trigger] text[i]),
        skippable_prefix(text) < text.len() ==> !is_skippable(text[skippable_prefix(text) as int]),
    decreases text.len(),
{
    if text.len() > 0 && is_skippable(text[0]) {
        let rest = text.drop_first();
        lemma_skippable_prefix(rest);
        assert forall|i: int| 0 <= i < skippable_prefix(text) implies is_skippable(
            #[trigger] text[i],
        ) by {
            if i > 0 {
                assert(text[i] == rest[i - 1]);
            }
        }
        if skippable_prefix(text) < text.len() {
            assert(text[skippable_prefix(text) as int] == rest[skippable_prefix(rest) as int]);
        }
    }
}

/// A native selection is read only for a selection with a place and a pointer,
/// in another program.
pub proof fn lemma_what_is_read_natively(
    cancelled: bool,
    pointer: Option<ScreenPoint>,
    process: u32,
    own: u32,
    selection: Option<ScreenRect>,
    point: Result<ScreenPoint, ExtractionFailure>,
    allowed: bool,
)
    requires
        call_ensures(
            begin_native_selection,
            (cancelled, pointer, process, own, selection),
            point,
        ),
        call_ensures(native_fallback_allowed, (selection,), allowed),
    ensures
        point matches Ok(at) ==> pointer == Some(at) && !cancelled && selection is Some && process
            != 0 && process != own,
        !cancelled && selection is Some && process != 0 && process != own ==> (point is Ok
            <==> pointer is Some),
        cancelled ==> point == Err::<ScreenPoint, _>(ExtractionFailure::Platform),
        !cancelled && point is Err ==> point == Err::<ScreenPoint, _>(
            ExtractionFailure::UnsupportedPattern,
        ),
        allowed <==> selection is Some,
{
}

/// The way up from a window ends at the first edit control, in the expected
/// program, after at most nine windows.
pub proof fn lemma_the_way_up_ends(
    visited: usize,
    window: Option<(u32, bool)>,
    expected: u32,
    step: AncestorStep,
)
    requires
        call_ensures(ancestor_step, (visited, window, expected), step),
    ensures
        visited > 8 ==> step == AncestorStep::Fail(ExtractionFailure::UnsupportedPattern),
        step == AncestorStep::Take ==> window == Some((expected, true)),
        step == AncestorStep::VisitParent ==> window == Some((expected, false)) && visited <= 8,
        visited <= 8 && window == Some((expected, true)) ==> step == AncestorStep::Take,
        visited <= 8 && window == Some((expected, false)) ==> step == AncestorStep::VisitParent,
        visited <= 8 ==> (window matches Some((process, _)) ==> (process != expected ==> step
            == AncestorStep::Fail(ExtractionFailure::StaleElement))),
{
}

/// No text is read from a password field: not by its style, and not where it
/// shows another character or does not say so.
pub proof fn lemma_passwords_are_not_read(
    unicode: bool,
    style: isize,
    policy: Result<(), ExtractionFailure>,
    reply: Result<usize, ExtractionFailure>,
    shown: Result<(), ExtractionFailure>,
)
    requires
        call_ensures(check_text_window_style, (unicode, style), policy),
        call_ensures(check_password_char, (reply,), shown),
    ensures
        policy is Ok <==> unicode && style & 0x20isize == 0,
        unicode && style & 0x20isize != 0 ==> policy == Err::<(), _>(
            ExtractionFailure::PermissionDenied,
        ),
        !unicode ==> policy == Err::<(), _>(ExtractionFailure::UnsupportedPattern),
        reply matches Ok(character) ==> (shown is Ok <==> character == 0),
        reply is Err ==> shown == Err::<(), _>(ExtractionFailure::PermissionDenied),
{
}

/// A control is taken again only as an edit control of the same program, and
/// the focused one only where the program is in front.
pub proof fn lemma_a_control_stays_what_it_was(
    process: u32,
    expected: u32,
    is_edit: bool,
    valid: Result<(), ExtractionFailure>,
    front: bool,
    thread: u32,
    focused: bool,
    usable: bool,
)
    requires
        call_ensures(validate_candidate, (process, expected, is_edit), valid),
        call_ensures(focused_window_usable, (front, thread, process, expected, focused), usable),
    ensures
        valid is Ok <==> process == expected && is_edit,
        valid matches Err(failure) ==> failure == ExtractionFailure::StaleElement,
        usable ==> process == expected && front && focused && thread != 0,
        process == expected && front && focused && thread != 0 ==> usable,
{
}

/// A message waits for one to eighty milliseconds, and no longer than is left.
pub proof fn lemma_a_message_waits_at_most_eighty_milliseconds(
    now: u64,
    deadline: u64,
    timeout: Result<u32, ExtractionFailure>,
)
    requires
        call_ensures(message_timeout, (now, deadline), timeout),
    ensures
        timeout is Ok <==> now <= deadline,
        timeout matches Ok(millis) ==> 1 <= millis <= 80 && (millis > 1 ==> now + millis * 1_000_000
            <= deadline),
        now + 80_000_000 <= deadline ==> timeout == Ok::<u32, ExtractionFailure>(80),
{
}

/// A selected range is not empty, goes forward and ends within 32768 units; a
/// text of that length, and no longer, is read, with room for its end.
pub proof fn lemma_ranges_and_texts_are_bounded(
    start: u32,
    end: u32,
    cancelled: bool,
    range: Result<(), ExtractionFailure>,
    length: usize,
    units: Result<usize, ExtractionFailure>,
)
    requires
        call_ensures(check_selected_range, (start, end, cancelled), range),
        call_ensures(text_buffer_units, (length,), units),
    ensures
        range is Ok <==> start < end && end <= 32768 && !cancelled,
        start >= end ==> range == Err::<(), _>(ExtractionFailure::EmptyRange),
        units is Ok <==> 1 <= length && length <= 32768,
        units matches Ok(count) ==> count == length + 1,
        length == 0 ==> units == Err::<usize, _>(ExtractionFailure::EmptyRange),
        length > 32768 ==> units == Err::<usize, _>(ExtractionFailure::Platform),
{
}

/// The text that was copied into the buffer is the text that is read.
pub proof fn lemma_a_windows_text_is_read(
    buffer: &[u16],
    written: Seq<char>,
    length: usize,
    text: Result<String, ExtractionFailure>,
)
    requires
        !encode_utf16(written).contains(0),
        encode_utf16(written).len() <= length <= buffer@.len(),
        encode_utf16(written).len() <= usize::MAX,
        buffer@.take(encode_utf16(written).len() as int) == encode_utf16(written),
        call_ensures(window_text, (buffer, length, encode_utf16(written).len() as usize), text),
    ensures
        text matches Ok(read) && read@ == written,
{
    crate::utf16::lemma_decode_inverts_encode(written);
}

/// A selection between two texts is the part between them, at the byte where
/// the first one ends, as long as the range has not moved meanwhile.
pub proof fn lemma_the_selected_part_stands_between(
    before: Seq<char>,
    selected: Seq<char>,
    after: Seq<char>,
    text: &str,
    first: (u32, u32),
    second: (u32, u32),
    part: Result<SelectedPart, ExtractionFailure>,
)
    requires
        text@ == before + selected + after,
        first.0 == encode_utf16(before).len(),
        first.1 == encode_utf16(before).len() + encode_utf16(selected).len(),
        call_ensures(selected_part, (text, first, second), part),
    ensures
        first == second ==> (part matches Ok(found) && found.target@ == selected
            && found.byte_offset == byte_len(before)),
        first != second ==> part == Err::<SelectedPart, _>(ExtractionFailure::StaleElement),
{
    lemma_selection_is_the_characters_between(before, selected, after);
}

/// A sentence that is just the target, or empty, adds nothing.
pub proof fn lemma_a_sentence_must_add_something(
    sentence: String,
    target: &str,
    context: Option<String>,
    nothing: Option<String>,
    checked: Result<(), ExtractionFailure>,
    limit: usize,
)
    requires
        call_ensures(context_beyond_target, (Some(sentence), target), context),
        call_ensures(context_beyond_target, (None, target), nothing),
        call_ensures(check_target, (target, limit), checked),
    ensures
        sentence@ == target@ || sentence@.len() == 0 ==> context is None,
        sentence@ != target@ && sentence@.len() > 0 ==> context == Some(sentence),
        nothing is None,
        checked is Ok <==> 1 <= target@.len() && target@.len() <= limit,
        target@.len() == 0 ==> checked == Err::<(), _>(ExtractionFailure::EmptyRange),
{
}

/// The classes that are read: the edit controls and rich edit controls of the
/// system, in any case, and those of Windows Forms with whatever follows.
pub proof fn lemma_which_classes_are_read(class: Seq<char>, rest: Seq<char>)
    ensures
        ascii_lower(class) == "edit"@ || ascii_lower(class) == "richedit20w"@ || ascii_lower(class)
            == "richedit50w"@ || ascii_lower(class) == "richeditd2dpt"@ ==> is_edit_class(class),
        ascii_lower(class) == "windowsforms10.edit."@ + rest ==> is_edit_class(class),
        ascii_lower(class) == "windowsforms10.richedit20w."@ + rest ==> is_edit_class(class),
        ascii_lower(class) == "windowsforms10.richedit50w."@ + rest ==> is_edit_class(class),
        class.len() < 4 ==> !is_edit_class(class),
        4 < class.len() < 11 ==> !is_edit_class(class),
        is_edit_class(class) && class.len() == 4 ==> ascii_lower(class) == "edit"@,
        is_edit_class(class) && class.len() == 11 ==> ascii_lower(class) == "richedit20w"@
            || ascii_lower(class) == "richedit50w"@,
        is_edit_class(class) && class.len() > 13 ==> "windowsforms10."@.is_prefix_of(
            ascii_lower(class),
        ),
{
    reveal_strlit("edit");
    reveal_strlit("richedit20w");
    reveal_strlit("richedit50w");
    reveal_strlit("richeditd2dpt");
    reveal_strlit("windowsforms10.edit.");
    reveal_strlit("windowsforms10.richedit20w.");
    reveal_strlit("windowsforms10.richedit50w.");
    reveal_strlit("windowsforms10.");
    assert(ascii_lower(class).len() == class.len());
    let lower = ascii_lower(class);
    if "windowsforms10.edit."@.is_prefix_of(lower) {
        lemma_prefix_of_prefix("windowsforms10."@, "windowsforms10.edit."@, lower);
    }
    if "windowsforms10.richedit20w."@.is_prefix_of(lower) {
        lemma_prefix_of_prefix("windowsforms10."@, "windowsforms10.richedit20w."@, lower);
    }
    if "windowsforms10.richedit50w."@.is_prefix_of(lower) {
        lemma_prefix_of_prefix("windowsforms10."@, "windowsforms10.richedit50w."@, lower);
    }
    if lower == "windowsforms10.edit."@ + rest {
        assert("windowsforms10.edit."@ =~= lower.subrange(0, "windowsforms10.edit."@.len() as int));
    }
    if lower == "windowsforms10.richedit20w."@ + rest {
        assert("windowsforms10.richedit20w."@ =~= lower.subrange(
            0,
            "windowsforms10.richedit20w."@.len() as int,
        ));
    }
    if lower == "windowsforms10.richedit50w."@ + rest {
        assert("windowsforms10.richedit50w."@ =~= lower.subrange(
            0,
            "windowsforms10.richedit50w."@.len() as int,
        ));
    }
}

proof fn lemma_prefix_of_prefix(short: Seq<char>, long: Seq<char>, text: Seq<char>)
    requires
        long.is_prefix_of(text),
        short.len() <= long.len(),
        forall|i: int| 0 <= i < short.len() ==> short[i] == long[i],
    ensures
        short.is_prefix_of(text),
{
    assert forall|i: int| 0 <= i < short.len() implies short[i] == text[i] by {
        assert(text.subrange(0, long.len() as int)[i] == long[i]);
    }
    assert(short =~= text.subrange(0, short.len() as int));
}

/// A class name is that of the buffer's first units, unless it fills the buffer
/// and so may have been cut.
pub proof fn lemma_a_cut_class_name_is_refused(buffer: &[u16], length: usize, allowed: bool)
    requires
        length <= buffer@.len(),
        call_ensures(is_allowed_edit_class, (buffer, length), allowed),
    ensures
        length == 0 || length == buffer@.len() ==> !allowed,
        0 < length < buffer@.len() ==> (allowed <==> is_edit_class(
            decode_utf16_lossy(buffer@.take(length as int)),
        )),
{
}

} // verus!
