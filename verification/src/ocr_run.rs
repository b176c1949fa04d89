//! A recognition from start to end: the calls that it takes, and what its
//! lines amount to.

use crate::extraction::{ExtractionFailure, ExtractionSource, TextContext, TriggerKind};
use crate::geometry::ScreenRect;
use crate::ocr::{are_target_words, target_words, OcrScene, WordBox};
use crate::ocr_text::{
    all_words, are_places, assemble_text, bounds_of, check_recognized, chosen_texts, context_query,
    group_texts, has_line_sentence, hover_context_admitted, hover_sentence_from_lines,
    is_square, joined, line_group, line_texts, normalized_words_target, recognized_text, spaced,
    target_screen_rect, text_start, total_bytes, words_of, words_rect, OcrLine, OcrText, SentenceQuery,
};
use crate::text::{holds_text, is_blank, views};
use vstd::prelude::*;

verus! {

/// What is done to recognize an image, in this order.
#[derive(Clone, Copy, Debug, PartialEq, Eq, Structural)]
pub enum RecognitionStep {
    InitializeRuntime,
    /// The pixels are as many as the image says.
    CheckPixels,
    ReadLimit,
    /// The image is within the recognizer's limit.
    CheckImage,
    FillBuffer,
    /// The buffer holds the whole image.
    CheckBuffer,
    MakeBitmap,
    MakeEngine,
    Recognize,
    ReadLines,
}

/// What follows a step. The runtime is released at the end where it was
/// initialized.
#[derive(Clone, Copy, Debug, PartialEq, Eq, Structural)]
pub enum RecognitionNext {
    Perform(RecognitionStep),
    Recognized { release: bool },
    Fail { failure: ExtractionFailure, release: bool },
}

/// A step that fails ends the recognition; only a missing recognizer is no
/// fault of the platform.
pub open spec fn recognition_after(step: RecognitionStep, succeeded: bool) -> RecognitionNext {
    if !succeeded {
        RecognitionNext::Fail {
            failure: if step == RecognitionStep::MakeEngine {
                ExtractionFailure::UnsupportedPattern
            } else {
                ExtractionFailure::Platform
            },
            release: step != RecognitionStep::InitializeRuntime,
        }
    } else {
        match step {
            RecognitionStep::InitializeRuntime => RecognitionNext::Perform(
                RecognitionStep::CheckPixels,
            ),
            RecognitionStep::CheckPixels => RecognitionNext::Perform(RecognitionStep::ReadLimit),
            RecognitionStep::ReadLimit => RecognitionNext::Perform(RecognitionStep::CheckImage),
            RecognitionStep::CheckImage => RecognitionNext::Perform(RecognitionStep::FillBuffer),
            RecognitionStep::FillBuffer => RecognitionNext::Perform(RecognitionStep::CheckBuffer),
            RecognitionStep::CheckBuffer => RecognitionNext::Perform(RecognitionStep::MakeBitmap),
            RecognitionStep::MakeBitmap => RecognitionNext::Perform(RecognitionStep::MakeEngine),
            RecognitionStep::MakeEngine => RecognitionNext::Perform(RecognitionStep::Recognize),
            RecognitionStep::Recognize => RecognitionNext::Perform(RecognitionStep::ReadLines),
            RecognitionStep::ReadLines => RecognitionNext::Recognized { release: true },
        }
    }
}

pub fn recognition_step(step: RecognitionStep, succeeded: bool) -> (next: RecognitionNext)
    ensures
        next == recognition_after(step, succeeded),
{
    if !succeeded {
        let failure = match step {
            RecognitionStep::MakeEngine => ExtractionFailure::UnsupportedPattern,
            _ => ExtractionFailure::Platform,
        };
        let release: bool = match step {
            RecognitionStep::InitializeRuntime => false,
            _ => true,
        };
        return RecognitionNext::Fail { failure, release };
    }
    match step {
        RecognitionStep::InitializeRuntime => RecognitionNext::Perform(
            RecognitionStep::CheckPixels,
        ),
        RecognitionStep::CheckPixels => RecognitionNext::Perform(RecognitionStep::ReadLimit),
        RecognitionStep::ReadLimit => RecognitionNext::Perform(RecognitionStep::CheckImage),
        RecognitionStep::CheckImage => RecognitionNext::Perform(RecognitionStep::FillBuffer),
        RecognitionStep::FillBuffer => RecognitionNext::Perform(RecognitionStep::CheckBuffer),
        RecognitionStep::CheckBuffer => RecognitionNext::Perform(RecognitionStep::MakeBitmap),
        RecognitionStep::MakeBitmap => RecognitionNext::Perform(RecognitionStep::MakeEngine),
        RecognitionStep::MakeEngine => RecognitionNext::Perform(RecognitionStep::Recognize),
        RecognitionStep::Recognize => RecognitionNext::Perform(RecognitionStep::ReadLines),
        RecognitionStep::ReadLines => RecognitionNext::Recognized { release: true },
    }
}

/// The runtime is released exactly where it was initialized.
pub proof fn lemma_recognition_releases_the_runtime(step: RecognitionStep, succeeded: bool)
    ensures
        match recognition_after(step, succeeded) {
            RecognitionNext::Perform(_) => true,
            RecognitionNext::Recognized { release } => release,
            RecognitionNext::Fail { release, .. } => release == (step
                != RecognitionStep::InitializeRuntime),
        },
{
}

/// The target of a recognition, and the text that it stands in.
#[derive(Debug, PartialEq, Eq)]
pub struct RecognizedTarget {
    pub text: OcrText,
    pub indices: Vec<usize>,
    pub target: String,
}

/// The text of the lines.
pub open spec fn is_text_of(lines: Seq<OcrLine>, text: OcrText) -> bool {
    &&& text.context@ == joined(line_texts(lines))
    &&& views(text.texts@) == line_texts(lines)
    &&& are_places(lines, text.places@)
    &&& text.line_bounds@.len() == lines.len()
    &&& forall|i: int|
        0 <= i < lines.len() ==> #[trigger] text.line_bounds@[i] == bounds_of(
            lines[i].words@,
            lines[i].words@.len() as int,
        )
}

proof fn lemma_places_are_counted(lines: Seq<OcrLine>, places: Seq<crate::ocr_text::WordPlace>)
    requires
        are_places(lines, places),
    ensures
        places.len() == words_of(lines).len(),
    decreases lines.len(),
{
    if lines.len() > 0 {
        let before = places.len() - lines.last().words@.len();
        lemma_places_are_counted(lines.drop_last(), places.take(before));
    }
}

/// The target that a trigger means in the recognized lines: its words, each
/// normalized, with single spaces between them. Lines without words, a blank
/// text and an empty target are no result. `scene` and `normalized` say of each
/// word of the lines, in order, where it is and what its normalized text is.
pub fn recognized_target(
    trigger: TriggerKind,
    lines: &Vec<OcrLine>,
    scene: &OcrScene,
    normalized: &Vec<String>,
) -> (found: Result<RecognizedTarget, ExtractionFailure>)
    requires
        total_bytes(line_texts(lines@)) <= usize::MAX,
        scene.places(words_of(lines@).len()),
        normalized@.len() == words_of(lines@).len(),
    ensures
        match found {
            Ok(found) => {
                &&& words_of(lines@).len() > 0
                &&& !is_blank(joined(line_texts(lines@)))
                &&& is_text_of(lines@, found.text)
                &&& are_target_words(trigger, words_of(lines@), *scene, found.indices@)
                &&& forall|i: int|
                    0 <= i < found.indices@.len() ==> (#[trigger] found.indices@[i]) < words_of(
                        lines@,
                    ).len()
                &&& found.target@ == spaced(chosen_texts(views(normalized@), found.indices@))
                &&& found.target@.len() > 0
            },
            Err(failure) => {
                &&& failure == ExtractionFailure::EmptyRange
                &&& words_of(lines@).len() == 0 || is_blank(joined(line_texts(lines@))) || exists|
                    indices: Seq<usize>,
                |
                    are_target_words(trigger, words_of(lines@), *scene, indices) && #[trigger] spaced(
                        chosen_texts(views(normalized@), indices),
                    ).len() == 0
            },
        },
{
    let text: OcrText = assemble_text(lines);
    proof {
        lemma_places_are_counted(lines@, text.places@);
    }
    match check_recognized(text.places.len(), text.context.as_str()) {
        Ok(_) => {},
        Err(failure) => {
            return Err(failure);
        },
    }
    let words: Vec<WordBox> = all_words(lines);
    let indices: Vec<usize> = target_words(trigger, &words, scene);
    let target: String = normalized_words_target(normalized, &indices);
    if target.as_str().is_empty() {
        proof {
            assert(spaced(chosen_texts(views(normalized@), indices@)).len() == 0);
        }
        return Err(ExtractionFailure::EmptyRange);
    }
    Ok(RecognizedTarget { text, indices, target })
}

/// Where the sentence around the target is looked for: a hover looks in the
/// lines that belong to the target's line, any other trigger in the whole text.
pub fn sentence_query(
    trigger: TriggerKind,
    found: &RecognizedTarget,
    linked: &Vec<Vec<bool>>,
) -> (query: Option<SentenceQuery>)
    requires
        is_square(linked@, found.text.line_bounds@.len() as int),
        total_bytes(views(found.text.texts@)) <= usize::MAX,
    ensures
        if trigger == TriggerKind::Hover {
            let lines = found.text.line_bounds@;
            let places = found.text.places@;
            &&& query is Some <==> found.indices@.len() > 0 && has_line_sentence(
                found.indices@[0] as int,
                places,
                views(found.text.texts@),
                lines,
                linked@,
            )
            &&& query matches Some(query) ==> {
                let place = places[found.indices@[0] as int];
                let group = line_group(lines, linked@, place.line as int, lines.len() as int);
                let parts = group_texts(views(found.text.texts@), group);
                &&& query.source@ == joined(parts)
                &&& exists|p: int|
                    #![trigger group[p]]
                    0 <= p < group.len() && group[p] == place.line && query.offset == text_start(
                        parts,
                        p,
                    ) + place.line_offset.unwrap()
            }
        } else {
            let offset = if found.indices@.len() > 0 && found.indices@[0]
                < found.text.places@.len() {
                found.text.places@[found.indices@[0] as int].context_offset
            } else {
                None
            };
            match (query, offset) {
                (Some(query), Some(at)) => query.source@ == found.text.context@ && query.offset
                    == at,
                (None, None) => true,
                _ => false,
            }
        },
{
    match trigger {
        TriggerKind::Hover => {
            if found.indices.len() == 0 {
                return None;
            }
            hover_sentence_from_lines(
                found.indices[0],
                &found.text.places,
                &found.text.texts,
                &found.text.line_bounds,
                linked,
            )
        },
        _ => match context_query(&found.text.places, &found.indices) {
            Some(offset) => Some(SentenceQuery { source: found.text.context.clone(), offset }),
            None => None,
        },
    }
}

/// The result of a recognition, given the sentence that was found around its
/// target. A hover needs one that, normalized, holds the normalized target.
pub fn finish_recognition(
    trigger: TriggerKind,
    found: RecognizedTarget,
    sentence: Option<String>,
    normalized_sentence: &str,
    normalized_target: &str,
    boxes: &Vec<Option<ScreenRect>>,
    crop: ScreenRect,
) -> (result: Result<TextContext, ExtractionFailure>)
    requires
        found.target@.len() > 0,
        boxes@.len() == found.text.places@.len(),
    ensures
        ({
            let context = if trigger == TriggerKind::Hover && !(normalized_sentence@.len() > 0
                && holds_text(normalized_sentence@, normalized_target@)) {
                None
            } else {
                sentence
            };
            result == if trigger == TriggerKind::Hover && context is None {
                Err(ExtractionFailure::EmptyRange)
            } else {
                Ok(
                    TextContext {
                        target: found.target,
                        context,
                        source: ExtractionSource::Ocr,
                        screen_rect: words_rect(boxes@, found.indices@, crop),
                    },
                )
            }
        }),
{
    let context: Option<String> = match trigger {
        TriggerKind::Hover => hover_context_admitted(
            sentence,
            normalized_sentence,
            normalized_target,
        ),
        _ => sentence,
    };
    let rect: Option<ScreenRect> = target_screen_rect(boxes, &found.indices, crop);
    recognized_text(trigger, found.target, context, rect)
}

/// A recognition that works makes ready, checks the image before it is copied
/// and the copy before it is used, recognizes, and reads the lines last.
pub proof fn lemma_a_recognition_goes_in_order()
    ensures
        recognition_after(RecognitionStep::InitializeRuntime, true) == RecognitionNext::Perform(
            RecognitionStep::CheckPixels,
        ),
        recognition_after(RecognitionStep::CheckPixels, true) == RecognitionNext::Perform(
            RecognitionStep::ReadLimit,
        ),
        recognition_after(RecognitionStep::ReadLimit, true) == RecognitionNext::Perform(
            RecognitionStep::CheckImage,
        ),
        recognition_after(RecognitionStep::CheckImage, true) == RecognitionNext::Perform(
            RecognitionStep::FillBuffer,
        ),
        recognition_after(RecognitionStep::FillBuffer, true) == RecognitionNext::Perform(
            RecognitionStep::CheckBuffer,
        ),
        recognition_after(RecognitionStep::CheckBuffer, true) == RecognitionNext::Perform(
            RecognitionStep::MakeBitmap,
        ),
        recognition_after(RecognitionStep::MakeBitmap, true) == RecognitionNext::Perform(
            RecognitionStep::MakeEngine,
        ),
        recognition_after(RecognitionStep::MakeEngine, true) == RecognitionNext::Perform(
            RecognitionStep::Recognize,
        ),
        recognition_after(RecognitionStep::Recognize, true) == RecognitionNext::Perform(
            RecognitionStep::ReadLines,
        ),
        recognition_after(RecognitionStep::ReadLines, true) is Recognized,
{
}

/// A step that fails ends the recognition; only a missing engine says that the
/// language is not supported.
pub proof fn lemma_a_failed_step_ends_the_recognition(step: RecognitionStep)
    ensures
        recognition_after(step, false) matches RecognitionNext::Fail { failure, .. } && (failure
            == ExtractionFailure::UnsupportedPattern <==> step == RecognitionStep::MakeEngine) && (
        failure == ExtractionFailure::Platform <==> step != RecognitionStep::MakeEngine),
{
}

/// What was recognized is given with its rectangle, and with its sentence; a
/// hover without a sentence that holds the word is empty.
pub proof fn lemma_what_a_recognition_gives(
    trigger: TriggerKind,
    found: RecognizedTarget,
    sentence: Option<String>,
    normalized_sentence: &str,
    normalized_target: &str,
    boxes: Vec<Option<ScreenRect>>,
    crop: ScreenRect,
    result: Result<TextContext, ExtractionFailure>,
)
    requires
        call_ensures(
            finish_recognition,
            (trigger, found, sentence, normalized_sentence, normalized_target, &boxes, crop),
            result,
        ),
    ensures
        result matches Ok(text) ==> text.target == found.target && text.source
            == ExtractionSource::Ocr && text.context == sentence && text.screen_rect == words_rect(
            boxes@,
            found.indices@,
            crop,
        ),
        trigger != TriggerKind::Hover ==> result is Ok,
        trigger == TriggerKind::Hover ==> (result is Ok <==> sentence is Some
            && normalized_sentence@.len() > 0 && holds_text(
            normalized_sentence@,
            normalized_target@,
        )),
        result matches Err(failure) ==> failure == ExtractionFailure::EmptyRange,
{
}

/// The sentence of a selection is looked for in the whole text, at the place of
/// its first word; without a word there is none to look for.
pub proof fn lemma_where_a_sentence_is_looked_for(
    trigger: TriggerKind,
    found: RecognizedTarget,
    linked: Vec<Vec<bool>>,
    query: Option<SentenceQuery>,
)
    requires
        trigger != TriggerKind::Hover,
        call_ensures(sentence_query, (trigger, &found, &linked), query),
    ensures
        found.indices@.len() == 0 ==> query is None,
        query matches Some(asked) ==> asked.source@ == found.text.context@ && found.indices@.len()
            > 0 && found.text.places@[found.indices@[0] as int].context_offset
                == Some(asked.offset),
        found.indices@.len() > 0 && found.indices@[0] < found.text.places@.len()
            && found.text.places@[found.indices@[0] as int].context_offset is Some
                ==> query is Some,
{
}

/// Recognition moves by the steps of the model, and what it finds is not empty
/// and is made of the meant words in their normalized form.
pub proof fn lemma_what_is_found_is_what_is_meant(
    step: RecognitionStep,
    succeeded: bool,
    next: RecognitionNext,
    trigger: TriggerKind,
    lines: Vec<OcrLine>,
    scene: OcrScene,
    normalized: Vec<String>,
    found: Result<RecognizedTarget, ExtractionFailure>,
)
    requires
        call_ensures(recognition_step, (step, succeeded), next),
        call_ensures(recognized_target, (trigger, &lines, &scene, &normalized), found),
    ensures
        next == recognition_after(step, succeeded),
        found matches Ok(target) ==> target.target@.len() > 0 && target.target@ == spaced(
            chosen_texts(views(normalized@), target.indices@),
        ) && are_target_words(trigger, words_of(lines@), scene, target.indices@)
            && target.text.context@ == joined(line_texts(lines@)),
        words_of(lines@).len() == 0 ==> found == Err::<RecognizedTarget, _>(
            ExtractionFailure::EmptyRange,
        ),
        found matches Err(failure) ==> failure == ExtractionFailure::EmptyRange,
{
}

} // verus!
