//! Reading the selection of a native edit control, one request at a time.

use crate::extraction::{ExtractionFailure, ExtractionResult, ExtractionSource, TextContext};
use crate::geometry::{ScreenPoint, ScreenRect};
use crate::native_selection::{
    begin_native_selection, check_selected_range, check_target, context_beyond_target,
    context_offset, is_selectable, native_result, selected_part, visible_from, SelectedPart,
    MAX_TEXT_UNITS,
};
use crate::text::{byte_len, is_byte_offset, lemma_byte_offset_is_unique};
use crate::utf16::{
    decode_utf16, encode_utf16, lemma_first_units_begin_the_text, utf16_units,
};
use vstd::prelude::*;

verus! {

/// What is asked for next.
#[derive(Debug, PartialEq, Eq)]
pub enum NativeState {
    /// The focused edit control of the process.
    FindFocused,
    /// The edit control at the pointer, or above it.
    FindAtPoint,
    /// The selected range.
    ReadRange,
    /// The text of the control.
    ReadText { range: (u32, u32) },
    /// Whether the control still is what it was.
    Revalidate { range: (u32, u32), text: String },
    /// The selected range, once more.
    ReadRangeAgain { range: (u32, u32), text: String },
    /// The normalized form of the selected part.
    Normalize { text: String, part: SelectedPart },
    /// The normalized sentence of the text around the byte, which is that of the
    /// first visible character from the selected part on.
    FindSentence { text: String, byte_offset: usize, target: String },
    Done { result: ExtractionResult },
}

/// An answer.
#[derive(Debug, PartialEq, Eq)]
pub enum NativeEvent {
    Window { found: bool },
    Range { range: Result<(u32, u32), ExtractionFailure> },
    Text { text: Result<String, ExtractionFailure> },
    Valid { valid: Result<(), ExtractionFailure> },
    Normalized { target: String },
    Sentence { sentence: Option<String> },
}

/// What stays the same during an extraction.
#[derive(Clone, Copy, Debug, PartialEq, Eq, Structural)]
pub struct NativeContext {
    pub selection_rect: Option<ScreenRect>,
    /// There is a window at the pointer.
    pub window_at_point: bool,
    /// The longest target, in characters.
    pub max_scalars: usize,
}

pub open spec fn failed(state: NativeState, failure: ExtractionFailure) -> bool {
    state matches NativeState::Done { result } && result == Err::<TextContext, _>(failure)
}

fn fail(failure: ExtractionFailure) -> (state: NativeState)
    ensures
        failed(state, failure),
{
    NativeState::Done { result: Err(failure) }
}

/// The first request, or why there is none.
pub fn start_native(
    pointer: Option<ScreenPoint>,
    process_id: u32,
    own_process_id: u32,
    selection_rect: Option<ScreenRect>,
    cancelled: bool,
) -> (state: NativeState)
    ensures
        if cancelled {
            failed(state, ExtractionFailure::Platform)
        } else if selection_rect is None || pointer is None || process_id == 0 || process_id
            == own_process_id {
            failed(state, ExtractionFailure::UnsupportedPattern)
        } else {
            state == NativeState::FindFocused
        },
{
    match begin_native_selection(cancelled, pointer, process_id, own_process_id, selection_rect) {
        Ok(_) => NativeState::FindFocused,
        Err(failure) => fail(failure),
    }
}

/// What follows an answer. A found window, a reported range and every other
/// answer is checked before the next request, and so is whether the extraction
/// was cancelled where it takes time. An answer to no request changes nothing.
pub open spec fn native_after(
    state: NativeState,
    event: NativeEvent,
    context: NativeContext,
    cancelled: bool,
    next: NativeState,
) -> bool {
    match (state, event) {
        (NativeState::FindFocused, NativeEvent::Window { found }) => if found {
            if cancelled {
                failed(next, ExtractionFailure::Platform)
            } else {
                next == NativeState::ReadRange
            }
        } else if context.window_at_point {
            next == NativeState::FindAtPoint
        } else {
            failed(next, ExtractionFailure::UnsupportedPattern)
        },
        (NativeState::FindAtPoint, NativeEvent::Window { found }) => if !found {
            failed(next, ExtractionFailure::UnsupportedPattern)
        } else if cancelled {
            failed(next, ExtractionFailure::Platform)
        } else {
            next == NativeState::ReadRange
        },
        (NativeState::ReadRange, NativeEvent::Range { range: Ok(range) }) => if !(range.0 < range.1
            <= MAX_TEXT_UNITS) {
            failed(next, ExtractionFailure::EmptyRange)
        } else if cancelled {
            failed(next, ExtractionFailure::Platform)
        } else {
            next == NativeState::ReadText { range }
        },
        (NativeState::ReadRange, NativeEvent::Range { range: Err(failure) }) => failed(
            next,
            failure,
        ),
        (NativeState::ReadText { range }, NativeEvent::Text { text: Ok(text) }) => next
            == NativeState::Revalidate { range, text },
        (NativeState::ReadText { .. }, NativeEvent::Text { text: Err(failure) }) => failed(
            next,
            failure,
        ),
        (NativeState::Revalidate { range, text }, NativeEvent::Valid { valid: Ok(_) }) => if range.1
            > encode_utf16(text@).len() {
            failed(next, ExtractionFailure::StaleElement)
        } else {
            next == NativeState::ReadRangeAgain { range, text }
        },
        (NativeState::Revalidate { .. }, NativeEvent::Valid { valid: Err(failure) }) => failed(
            next,
            failure,
        ),
        (
            NativeState::ReadRangeAgain { range, text },
            NativeEvent::Range { range: Ok(again) },
        ) => if range != again || !is_selectable(text@, range.0 as int, range.1 as int) {
            failed(next, ExtractionFailure::StaleElement)
        } else {
            let units = encode_utf16(text@);
            next matches NativeState::Normalize { text: kept, part } && kept == text
                && decode_utf16(units.subrange(range.0 as int, range.1 as int)) == Some(
                part.target@,
            ) && part.byte_offset == byte_len(decode_utf16(units.take(range.0 as int)).unwrap())
        },
        (
            NativeState::ReadRangeAgain { .. },
            NativeEvent::Range { range: Err(failure) },
        ) => failed(next, failure),
        (NativeState::Normalize { text, part }, NativeEvent::Normalized { target }) => if target@.len()
            == 0 {
            failed(next, ExtractionFailure::EmptyRange)
        } else if target@.len() > context.max_scalars {
            failed(next, ExtractionFailure::Platform)
        } else {
            &&& next matches NativeState::FindSentence { text: kept, byte_offset, target: wanted }
            &&& kept == text && wanted == target
            &&& begins_at_visible(text@, part.byte_offset as int, byte_offset as int)
        },
        (
            NativeState::FindSentence { target, .. },
            NativeEvent::Sentence { sentence },
        ) => next matches NativeState::Done { result } && result == Ok::<_, ExtractionFailure>(
            TextContext {
                target,
                context: match sentence {
                    Some(around) => if around@ != target@ && around@.len() > 0 {
                        Some(around)
                    } else {
                        None
                    },
                    None => None,
                },
                source: ExtractionSource::UiaSelection,
                screen_rect: context.selection_rect,
            },
        ),
        _ => next == state,
    }
}

/// A character of the text, or its end, is at the byte `offset`.
pub open spec fn begins_at_character(text: Seq<char>, offset: int) -> bool {
    exists|i: int| is_byte_offset(text, i, offset)
}

/// `to` is the byte of the first visible character of the text from the byte
/// `from` on, and `from` itself where there is none.
pub open spec fn begins_at_visible(text: Seq<char>, from: int, to: int) -> bool {
    exists|i: int| #[trigger]
        is_byte_offset(text, i, from) && is_byte_offset(text, visible_from(text, i), to)
}

/// A range that was read again begins before it ends, and a selected part
/// begins at a character of its text.
pub open spec fn native_wf(state: NativeState) -> bool {
    match state {
        NativeState::ReadText { range } => range.0 < range.1,
        NativeState::Revalidate { range, .. } => range.0 < range.1,
        NativeState::ReadRangeAgain { range, .. } => range.0 < range.1,
        NativeState::Normalize { text, part } => begins_at_character(
            text@,
            part.byte_offset as int,
        ),
        _ => true,
    }
}

pub fn native_step(
    state: NativeState,
    event: NativeEvent,
    context: NativeContext,
    cancelled: bool,
) -> (next: NativeState)
    requires
        native_wf(state),
    ensures
        native_after(state, event, context, cancelled, next),
        native_wf(next),
{
    match (state, event) {
        (NativeState::FindFocused, NativeEvent::Window { found }) => {
            if found {
                if cancelled {
                    fail(ExtractionFailure::Platform)
                } else {
                    NativeState::ReadRange
                }
            } else if context.window_at_point {
                NativeState::FindAtPoint
            } else {
                fail(ExtractionFailure::UnsupportedPattern)
            }
        },
        (NativeState::FindAtPoint, NativeEvent::Window { found }) => {
            if !found {
                fail(ExtractionFailure::UnsupportedPattern)
            } else if cancelled {
                fail(ExtractionFailure::Platform)
            } else {
                NativeState::ReadRange
            }
        },
        (NativeState::ReadRange, NativeEvent::Range { range: Ok(range) }) => {
            match check_selected_range(range.0, range.1, cancelled) {
                Ok(_) => NativeState::ReadText { range },
                Err(failure) => fail(failure),
            }
        },
        (NativeState::ReadRange, NativeEvent::Range { range: Err(failure) }) => fail(failure),
        (NativeState::ReadText { range }, NativeEvent::Text { text: Ok(text) }) => {
            NativeState::Revalidate { range, text }
        },
        (NativeState::ReadText { .. }, NativeEvent::Text { text: Err(failure) }) => fail(failure),
        (NativeState::Revalidate { range, text }, NativeEvent::Valid { valid: Ok(_) }) => {
            let units: Vec<u16> = utf16_units(text.as_str());
            if range.1 as u64 > units.len() as u64 {
                fail(ExtractionFailure::StaleElement)
            } else {
                NativeState::ReadRangeAgain { range, text }
            }
        },
        (NativeState::Revalidate { .. }, NativeEvent::Valid { valid: Err(failure) }) => fail(
            failure,
        ),
        (
            NativeState::ReadRangeAgain { range, text },
            NativeEvent::Range { range: Ok(again) },
        ) => {
            match selected_part(text.as_str(), range, again) {
                Ok(part) => {
                    proof {
                        let units = encode_utf16(text@);
                        lemma_first_units_begin_the_text(text@, range.0 as int);
                        let before = decode_utf16(units.take(range.0 as int)).unwrap();
                        assert(is_byte_offset(
                            text@,
                            before.len() as int,
                            part.byte_offset as int,
                        ));
                        assert(begins_at_character(text@, part.byte_offset as int));
                    }
                    NativeState::Normalize { text, part }
                },
                Err(failure) => fail(failure),
            }
        },
        (
            NativeState::ReadRangeAgain { .. },
            NativeEvent::Range { range: Err(failure) },
        ) => fail(failure),
        (NativeState::Normalize { text, part }, NativeEvent::Normalized { target }) => {
            match check_target(target.as_str(), context.max_scalars) {
                Ok(_) => {
                    let byte_offset: usize = context_offset(text.as_str(), part.byte_offset);
                    NativeState::FindSentence { text, byte_offset, target }
                },
                Err(failure) => fail(failure),
            }
        },
        (
            NativeState::FindSentence { target, .. },
            NativeEvent::Sentence { sentence },
        ) => {
            let around: Option<String> = context_beyond_target(sentence, target.as_str());
            NativeState::Done { result: Ok(native_result(target, around, context.selection_rect)) }
        },
        (state, _) => state,
    }
}

/// How many answers are still needed at most.
pub open spec fn native_rank(state: NativeState) -> nat {
    match state {
        NativeState::FindFocused => 8,
        NativeState::FindAtPoint => 7,
        NativeState::ReadRange => 6,
        NativeState::ReadText { .. } => 5,
        NativeState::Revalidate { .. } => 4,
        NativeState::ReadRangeAgain { .. } => 3,
        NativeState::Normalize { .. } => 2,
        NativeState::FindSentence { .. } => 1,
        NativeState::Done { .. } => 0,
    }
}

/// The answer is to the request.
pub open spec fn answers(state: NativeState, event: NativeEvent) -> bool {
    match state {
        NativeState::FindFocused => event is Window,
        NativeState::FindAtPoint => event is Window,
        NativeState::ReadRange => event is Range,
        NativeState::ReadText { .. } => event is Text,
        NativeState::Revalidate { .. } => event is Valid,
        NativeState::ReadRangeAgain { .. } => event is Range,
        NativeState::Normalize { .. } => event is Normalized,
        NativeState::FindSentence { .. } => event is Sentence,
        NativeState::Done { .. } => false,
    }
}

/// Every answered request brings the extraction nearer to its end.
pub proof fn lemma_native_selection_ends(
    state: NativeState,
    event: NativeEvent,
    context: NativeContext,
    cancelled: bool,
    next: NativeState,
)
    requires
        native_after(state, event, context, cancelled, next),
        answers(state, event),
    ensures
        native_rank(next) < native_rank(state),
{
}

/// A text is taken only from a control whose selection was the same before and
/// after it was read.
pub proof fn lemma_moved_selection_is_stale(
    range: (u32, u32),
    again: (u32, u32),
    text: String,
    context: NativeContext,
    cancelled: bool,
    next: NativeState,
)
    requires
        range != again,
        native_after(
            NativeState::ReadRangeAgain { range, text },
            NativeEvent::Range { range: Ok(again) },
            context,
            cancelled,
            next,
        ),
    ensures
        failed(next, ExtractionFailure::StaleElement),
{
}

/// The sentence around a selection is looked for from the first visible
/// character of the text at or behind the beginning of the selection.
pub proof fn lemma_sentence_is_sought_from_the_selection(
    range: (u32, u32),
    text: String,
    target: String,
    context: NativeContext,
    first_cancelled: bool,
    then_cancelled: bool,
    between: NativeState,
    next: NativeState,
)
    requires
        range.0 < range.1,
        native_after(
            NativeState::ReadRangeAgain { range, text },
            NativeEvent::Range { range: Ok(range) },
            context,
            first_cancelled,
            between,
        ),
        native_after(between, NativeEvent::Normalized { target }, context, then_cancelled, next),
    ensures
        next matches NativeState::FindSentence { text: kept, byte_offset, target: wanted } ==> {
            let before = decode_utf16(encode_utf16(text@).take(range.0 as int)).unwrap();
            &&& kept == text
            &&& wanted == target
            &&& before == text@.take(before.len() as int)
            &&& is_byte_offset(
                text@,
                visible_from(text@, before.len() as int),
                byte_offset as int,
            )
        },
{
    if between is Normalize && next is FindSentence {
        lemma_first_units_begin_the_text(text@, range.0 as int);
        let before = decode_utf16(encode_utf16(text@).take(range.0 as int)).unwrap();
        let from = between->Normalize_part.byte_offset as int;
        assert(is_byte_offset(text@, before.len() as int, from));
        let i = choose|i: int| #[trigger]
            is_byte_offset(text@, i, from) && is_byte_offset(
                text@,
                visible_from(text@, i),
                next->FindSentence_byte_offset as int,
            );
        if i < before.len() {
            lemma_byte_offset_is_unique(text@, i, before.len() as int);
        } else if i > before.len() {
            lemma_byte_offset_is_unique(text@, before.len() as int, i);
        }
    }
}

/// Where every answer is good, the reader goes from the control to the range,
/// the text, one more look at both, and ends with the normalized target, the
/// sentence where it adds something, and the rectangle of the selection.
pub proof fn lemma_a_good_answer_goes_on(
    range: (u32, u32),
    text: String,
    part: SelectedPart,
    target: String,
    sentence: Option<String>,
    byte_offset: usize,
    context: NativeContext,
    found: NativeState,
    ranged: NativeState,
    read: NativeState,
    checked: NativeState,
    again: NativeState,
    normal: NativeState,
    done: NativeState,
)
    requires
        range.0 < range.1 <= 32768,
        range.1 <= encode_utf16(text@).len(),
        is_selectable(text@, range.0 as int, range.1 as int),
        0 < target@.len() <= context.max_scalars,
        native_after(
            NativeState::FindFocused,
            NativeEvent::Window { found: true },
            context,
            false,
            found,
        ),
        native_after(found, NativeEvent::Range { range: Ok(range) }, context, false, ranged),
        native_after(ranged, NativeEvent::Text { text: Ok(text) }, context, false, read),
        native_after(read, NativeEvent::Valid { valid: Ok(()) }, context, false, checked),
        native_after(checked, NativeEvent::Range { range: Ok(range) }, context, false, again),
        native_after(
            NativeState::Normalize { text, part },
            NativeEvent::Normalized { target },
            context,
            false,
            normal,
        ),
        native_after(
            NativeState::FindSentence { text, byte_offset, target },
            NativeEvent::Sentence { sentence },
            context,
            false,
            done,
        ),
    ensures
        found == NativeState::ReadRange,
        ranged == (NativeState::ReadText { range }),
        read == (NativeState::Revalidate { range, text }),
        checked == (NativeState::ReadRangeAgain { range, text }),
        again matches NativeState::Normalize { text: kept, part: selected } && kept == text
            && encode_utf16(selected.target@).len() == range.1 - range.0,
        normal is FindSentence,
        done matches NativeState::Done { result: Ok(answer) } && {
            &&& answer.target == target
            &&& answer.screen_rect == context.selection_rect
            &&& answer.source == ExtractionSource::UiaSelection
            &&& answer.context is Some ==> answer.context == sentence
            &&& sentence matches Some(around) ==> (around@ != target@ && around@.len() > 0
                <==> answer.context is Some)
        },
{
    let units = encode_utf16(text@);
    if let NativeState::Normalize { part: selected, .. } = again {
        crate::utf16::lemma_encode_inverts_decode(
            units.subrange(range.0 as int, range.1 as int),
        );
    }
}

/// Without a focused control the one at the pointer is tried, where there is a
/// window; a failure of any answer is the failure of the reader, and a
/// cancelled one goes no further than the range.
pub proof fn lemma_a_bad_answer_ends_the_reader(
    range: (u32, u32),
    text: String,
    failure: ExtractionFailure,
    context: NativeContext,
    cancelled: bool,
    unfocused: NativeState,
    missed: NativeState,
    unranged: NativeState,
    unread: NativeState,
    invalid: NativeState,
    stale: NativeState,
    stopped: NativeState,
)
    requires
        native_after(
            NativeState::FindFocused,
            NativeEvent::Window { found: false },
            context,
            cancelled,
            unfocused,
        ),
        native_after(
            NativeState::FindAtPoint,
            NativeEvent::Window { found: false },
            context,
            cancelled,
            missed,
        ),
        native_after(
            NativeState::ReadRange,
            NativeEvent::Range { range: Err(failure) },
            context,
            cancelled,
            unranged,
        ),
        native_after(
            NativeState::ReadText { range },
            NativeEvent::Text { text: Err(failure) },
            context,
            cancelled,
            unread,
        ),
        native_after(
            NativeState::Revalidate { range, text },
            NativeEvent::Valid { valid: Err(failure) },
            context,
            cancelled,
            invalid,
        ),
        native_after(
            NativeState::ReadRangeAgain { range, text },
            NativeEvent::Range { range: Err(failure) },
            context,
            cancelled,
            stale,
        ),
        native_after(
            NativeState::FindAtPoint,
            NativeEvent::Window { found: true },
            context,
            true,
            stopped,
        ),
    ensures
        context.window_at_point ==> unfocused == NativeState::FindAtPoint,
        !context.window_at_point ==> failed(unfocused, ExtractionFailure::UnsupportedPattern),
        failed(missed, ExtractionFailure::UnsupportedPattern),
        failed(unranged, failure),
        failed(unread, failure),
        failed(invalid, failure),
        failed(stale, failure),
        failed(stopped, ExtractionFailure::Platform),
{
}

/// A range that is empty, goes backwards or ends beyond 32768 units is no
/// selection, and one beyond the text is stale.
pub proof fn lemma_an_odd_range_is_no_selection(
    range: (u32, u32),
    text: String,
    context: NativeContext,
    cancelled: bool,
    ranged: NativeState,
    checked: NativeState,
)
    requires
        native_after(
            NativeState::ReadRange,
            NativeEvent::Range { range: Ok(range) },
            context,
            cancelled,
            ranged,
        ),
        native_after(
            NativeState::Revalidate { range, text },
            NativeEvent::Valid { valid: Ok(()) },
            context,
            cancelled,
            checked,
        ),
    ensures
        range.0 >= range.1 || range.1 > 32768 ==> failed(ranged, ExtractionFailure::EmptyRange),
        range.0 < range.1 && range.1 <= 32768 && !cancelled ==> ranged == (NativeState::ReadText {
            range,
        }),
        range.1 > encode_utf16(text@).len() ==> failed(checked, ExtractionFailure::StaleElement),
        range.1 <= encode_utf16(text@).len() ==> checked == (NativeState::ReadRangeAgain {
            range,
            text,
        }),
{
}

/// The reader begins with the focused control, of another program and for a
/// selection with a place, and moves by the steps of the model.
pub proof fn lemma_the_reader_moves_by_the_model(
    pointer: Option<ScreenPoint>,
    process: u32,
    own: u32,
    selection: Option<ScreenRect>,
    stopped: bool,
    first: NativeState,
    state: NativeState,
    event: NativeEvent,
    context: NativeContext,
    cancelled: bool,
    next: NativeState,
)
    requires
        call_ensures(start_native, (pointer, process, own, selection, stopped), first),
        native_wf(state),
        call_ensures(native_step, (state, event, context, cancelled), next),
    ensures
        first == NativeState::FindFocused <==> !stopped && pointer is Some && selection is Some
            && process != 0 && process != own,
        stopped ==> failed(first, ExtractionFailure::Platform),
        native_after(state, event, context, cancelled, next),
{
}

} // verus!
