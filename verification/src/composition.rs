//! The extraction pipeline: which extractor runs next, which failures may fall
//! back to another, when a text needs its sentence, and the one-place mailbox
//! between the message loop and the extraction worker.

use crate::extraction::{
    ExtractionFailure, ExtractionResult, ExtractionSource, TextContext, TriggerKind,
};
use crate::geometry::{ScreenPoint, ScreenRect};
use crate::provider::ProviderError;
use crate::text::{ascii_lower, same_ignoring_case, same_text};
use vstd::prelude::*;

verus! {

/// Wakes the resident window when an event of a worker waits for it.
pub const PIPELINE_EVENT: u32 = 0x801f;

/// What a worker hands to the message loop.
#[allow(inconsistent_fields)]
#[derive(Debug, PartialEq, Eq)]
pub enum PipelineEvent {
    Extraction {
        attempt: u64,
        trigger: TriggerKind,
        process_id: u32,
        pointer: Option<ScreenPoint>,
        selection_rect: Option<ScreenRect>,
        result: ExtractionResult,
    },
    Delta { job_id: u64, delta: String },
    Finished { job_id: u64, result: Result<(), ProviderError> },
}

/// An adapter that looks for text.
#[derive(Clone, Copy, Debug, PartialEq, Eq, Structural)]
pub enum Extractor {
    Uia,
    Native,
    Clipboard,
    Ocr,
}

/// Copying through the clipboard is for an explicit request, and for a
/// selection with geometry; hovering never copies.
pub open spec fn may_use_clipboard(trigger: TriggerKind, has_selection_rect: bool) -> bool {
    trigger == TriggerKind::Manual || trigger == TriggerKind::Selection && has_selection_rect
}

pub fn clipboard_fallback_allowed(trigger: TriggerKind, has_selection_rect: bool) -> (allowed: bool)
    ensures
        allowed == may_use_clipboard(trigger, has_selection_rect),
{
    match trigger {
        TriggerKind::Manual => true,
        TriggerKind::Selection => has_selection_rect,
        TriggerKind::Hover => false,
    }
}

/// A control that refuses to be read ends the search for a selection.
pub fn native_failure_allows_fallback(error: ExtractionFailure) -> (allows: bool)
    ensures
        allows == (error != ExtractionFailure::PermissionDenied),
{
    match error {
        ExtractionFailure::PermissionDenied => false,
        _ => true,
    }
}

/// The result of an extractor once hover text was cleaned: `cleaned` is the
/// text's single token with its sentence, where it has one. Other triggers
/// keep their text.
pub fn sanitize_extraction_result(
    trigger: TriggerKind,
    result: ExtractionResult,
    cleaned: Option<TextContext>,
) -> (sanitized: ExtractionResult)
    ensures
        sanitized == if trigger == TriggerKind::Hover && result is Ok {
            match cleaned {
                Some(text) => Ok(text),
                None => Err(ExtractionFailure::EmptyRange),
            }
        } else {
            result
        },
{
    match trigger {
        TriggerKind::Hover => match result {
            Ok(_) => match cleaned {
                Some(text) => Ok(text),
                None => Err(ExtractionFailure::EmptyRange),
            },
            Err(error) => Err(error),
        },
        _ => result,
    }
}

/// Both normalized targets are the same; ASCII targets may differ in case.
pub fn same_normalized_target(first: &str, second: &str) -> (same: bool)
    ensures
        same <==> first@ == second@ || vstd::utf8::is_ascii_chars(first@)
            && vstd::utf8::is_ascii_chars(second@) && ascii_lower(first@) == ascii_lower(second@),
{
    same_text(first, second) || (first.is_ascii() && second.is_ascii() && same_ignoring_case(
        first,
        second,
    ))
}

/// Gives `primary` the sentence that another text holds for its target.
/// Everything else of it stays.
pub fn merge_selection_context(primary: &mut TextContext, sentence: Option<String>) -> (merged:
    bool)
    ensures
        merged == (sentence is Some),
        *final(primary) == with_sentence(*old(primary), sentence),
{
    match sentence {
        Some(text) => {
            primary.context = Some(text);
            true
        },
        None => false,
    }
}

/// Gives `primary` the sentence of another text with the same target.
pub fn merge_hover_context(
    primary: &mut TextContext,
    same_target: bool,
    sentence: Option<String>,
) -> (merged: bool)
    ensures
        merged == (same_target && sentence is Some),
        *final(primary) == if same_target {
            with_sentence(*old(primary), sentence)
        } else {
            *old(primary)
        },
{
    if !same_target {
        return false;
    }
    merge_selection_context(primary, sentence)
}

/// `text` with `sentence` as its context, where there is one.
pub open spec fn with_sentence(text: TextContext, sentence: Option<String>) -> TextContext {
    match sentence {
        Some(found) => TextContext { context: Some(found), ..text },
        None => text,
    }
}

// One extraction, step by step.

/// What an extraction is for.
#[derive(Clone, Copy, Debug, PartialEq, Eq, Structural)]
pub struct ExtractionJob {
    pub trigger: TriggerKind,
    pub has_selection_rect: bool,
}

/// What an extraction waits for.
#[derive(Debug, PartialEq, Eq)]
pub enum ExtractionState {
    /// The result of an extractor; `error` stands where the extractor is
    /// missing.
    Extracting { extractor: Extractor, error: ExtractionFailure },
    /// The sentence of the target in its own context.
    Checking { primary: TextContext },
    /// The text that OCR finds around the target.
    Enriching { primary: TextContext },
    /// Whether the two targets are the same once normalized.
    Comparing { primary: TextContext, candidate: TextContext },
    /// The sentence of the target in the other text's context.
    Merging { primary: TextContext, candidate: TextContext },
    /// The sentence of the target in its new context.
    Rechecking { primary: TextContext },
    Finished { result: ExtractionResult },
    /// The extraction was cancelled: nobody waits for its result.
    Abandoned,
}

/// What an extraction is told.
#[derive(Debug, PartialEq, Eq)]
pub enum ExtractionEvent {
    /// What the extractor returned, sanitized; `None` where it is missing.
    Extracted(Option<ExtractionResult>),
    Sentence(Option<String>),
    SameTarget(bool),
}

/// The event answers the state.
pub open spec fn extraction_event_fits(state: ExtractionState, event: ExtractionEvent) -> bool {
    match state {
        ExtractionState::Extracting { .. } | ExtractionState::Enriching { .. } => event
            is Extracted,
        ExtractionState::Checking { .. } | ExtractionState::Merging { .. }
        | ExtractionState::Rechecking { .. } => event is Sentence,
        ExtractionState::Comparing { .. } => event is SameTarget,
        ExtractionState::Finished { .. } | ExtractionState::Abandoned => false,
    }
}

/// UI automation is always asked first.
pub open spec fn extraction_start() -> ExtractionState {
    ExtractionState::Extracting { extractor: Extractor::Uia, error: ExtractionFailure::Platform }
}

/// Who is asked after `extractor` failed with `error`.
pub open spec fn next_extractor(
    job: ExtractionJob,
    extractor: Extractor,
    error: ExtractionFailure,
) -> Option<Extractor> {
    match job.trigger {
        TriggerKind::Manual => match extractor {
            Extractor::Uia => Some(Extractor::Clipboard),
            Extractor::Ocr => None,
            _ => Some(Extractor::Ocr),
        },
        TriggerKind::Selection => match extractor {
            Extractor::Uia => Some(Extractor::Native),
            Extractor::Ocr => None,
            _ => if error == ExtractionFailure::PermissionDenied {
                None
            } else if extractor == Extractor::Native && may_use_clipboard(
                job.trigger,
                job.has_selection_rect,
            ) {
                Some(Extractor::Clipboard)
            } else {
                Some(Extractor::Ocr)
            },
        },
        TriggerKind::Hover => match extractor {
            Extractor::Ocr => None,
            _ => Some(Extractor::Ocr),
        },
    }
}

/// A text that was found is checked for its sentence: that of a selection with
/// geometry unless OCR found it, and that of a hover unless OCR found it.
pub open spec fn wants_sentence(
    job: ExtractionJob,
    extractor: Extractor,
    source: ExtractionSource,
) -> bool {
    match job.trigger {
        TriggerKind::Manual => false,
        TriggerKind::Selection => source != ExtractionSource::Ocr && job.has_selection_rect,
        TriggerKind::Hover => extractor != Extractor::Ocr,
    }
}

/// Where a text without its sentence leaves the extraction: a selection keeps
/// its text, a hover has nothing.
pub open spec fn without_sentence(job: ExtractionJob, primary: TextContext) -> ExtractionState {
    ExtractionState::Finished {
        result: if job.trigger == TriggerKind::Hover {
            Err(ExtractionFailure::EmptyRange)
        } else {
            Ok(primary)
        },
    }
}

/// The state after an extractor's result.
pub open spec fn after_extractor(
    job: ExtractionJob,
    extractor: Extractor,
    result: ExtractionResult,
) -> ExtractionState {
    match result {
        Ok(text) => if !wants_sentence(job, extractor, text.source) {
            ExtractionState::Finished { result: Ok(text) }
        } else if text.context is Some {
            ExtractionState::Checking { primary: text }
        } else {
            ExtractionState::Enriching { primary: text }
        },
        Err(error) => match next_extractor(job, extractor, error) {
            Some(next) => ExtractionState::Extracting { extractor: next, error },
            None => ExtractionState::Finished { result: Err(error) },
        },
    }
}

/// The state after an event that answers `state`.
pub open spec fn extraction_next(
    job: ExtractionJob,
    state: ExtractionState,
    event: ExtractionEvent,
    cancelled: bool,
) -> ExtractionState {
    if cancelled {
        ExtractionState::Abandoned
    } else {
        match (state, event) {
            (
                ExtractionState::Extracting { extractor, error },
                ExtractionEvent::Extracted(result),
            ) => after_extractor(job, extractor, result.unwrap_or(Err(error))),
            (ExtractionState::Checking { primary }, ExtractionEvent::Sentence(found)) => if found
                is Some {
                ExtractionState::Finished { result: Ok(primary) }
            } else {
                ExtractionState::Enriching { primary }
            },
            (ExtractionState::Enriching { primary }, ExtractionEvent::Extracted(result)) => match result {
                Some(Ok(candidate)) => if job.trigger == TriggerKind::Hover {
                    ExtractionState::Comparing { primary, candidate }
                } else if candidate.context is Some {
                    ExtractionState::Merging { primary, candidate }
                } else {
                    without_sentence(job, primary)
                },
                _ => without_sentence(job, primary),
            },
            (
                ExtractionState::Comparing { primary, candidate },
                ExtractionEvent::SameTarget(same),
            ) => if same && candidate.context is Some {
                ExtractionState::Merging { primary, candidate }
            } else {
                without_sentence(job, primary)
            },
            (ExtractionState::Merging { primary, .. }, ExtractionEvent::Sentence(found)) => if found
                is None {
                without_sentence(job, primary)
            } else if job.trigger == TriggerKind::Hover {
                ExtractionState::Rechecking { primary: with_sentence(primary, found) }
            } else {
                ExtractionState::Finished { result: Ok(with_sentence(primary, found)) }
            },
            (ExtractionState::Rechecking { primary }, ExtractionEvent::Sentence(found)) => if found
                is Some {
                ExtractionState::Finished { result: Ok(primary) }
            } else {
                without_sentence(job, primary)
            },
            _ => ExtractionState::Abandoned,
        }
    }
}

/// An extraction begins with UI automation.
pub fn start_extraction() -> (state: ExtractionState)
    ensures
        state == extraction_start(),
{
    ExtractionState::Extracting { extractor: Extractor::Uia, error: ExtractionFailure::Platform }
}

fn fallback_extractor(job: ExtractionJob, extractor: Extractor, error: ExtractionFailure) -> (next:
    Option<Extractor>)
    ensures
        next == next_extractor(job, extractor, error),
{
    match extractor {
        Extractor::Ocr => None,
        Extractor::Uia => Some(
            match job.trigger {
                TriggerKind::Manual => Extractor::Clipboard,
                TriggerKind::Selection => Extractor::Native,
                TriggerKind::Hover => Extractor::Ocr,
            },
        ),
        Extractor::Native | Extractor::Clipboard => match job.trigger {
            TriggerKind::Selection => if !native_failure_allows_fallback(error) {
                None
            } else if extractor == Extractor::Native && clipboard_fallback_allowed(
                job.trigger,
                job.has_selection_rect,
            ) {
                Some(Extractor::Clipboard)
            } else {
                Some(Extractor::Ocr)
            },
            _ => Some(Extractor::Ocr),
        },
    }
}

fn end_without_sentence(job: ExtractionJob, primary: TextContext) -> (state: ExtractionState)
    ensures
        state == without_sentence(job, primary),
{
    match job.trigger {
        TriggerKind::Hover => ExtractionState::Finished {
            result: Err(ExtractionFailure::EmptyRange),
        },
        _ => ExtractionState::Finished { result: Ok(primary) },
    }
}

/// Advances an extraction past the event that it waited for. `cancelled` is
/// the state of its cancellation when the event arrived.
pub fn extraction_step(
    job: ExtractionJob,
    state: ExtractionState,
    event: ExtractionEvent,
    cancelled: bool,
) -> (next: ExtractionState)
    requires
        extraction_event_fits(state, event),
    ensures
        next == extraction_next(job, state, event, cancelled),
{
    if cancelled {
        return ExtractionState::Abandoned;
    }
    match state {
        ExtractionState::Extracting { extractor, error } => {
            let result: ExtractionResult = match event {
                ExtractionEvent::Extracted(Some(result)) => result,
                _ => Err(error),
            };
            match result {
                Ok(text) => {
                    let wants: bool = match job.trigger {
                        TriggerKind::Manual => false,
                        TriggerKind::Selection => text.source != ExtractionSource::Ocr
                            && job.has_selection_rect,
                        TriggerKind::Hover => extractor != Extractor::Ocr,
                    };
                    if !wants {
                        ExtractionState::Finished { result: Ok(text) }
                    } else if text.context.is_some() {
                        ExtractionState::Checking { primary: text }
                    } else {
                        ExtractionState::Enriching { primary: text }
                    }
                },
                Err(failure) => match fallback_extractor(job, extractor, failure) {
                    Some(next) => ExtractionState::Extracting { extractor: next, error: failure },
                    None => ExtractionState::Finished { result: Err(failure) },
                },
            }
        },
        ExtractionState::Checking { primary } => match event {
            ExtractionEvent::Sentence(Some(_)) => ExtractionState::Finished { result: Ok(primary) },
            _ => ExtractionState::Enriching { primary },
        },
        ExtractionState::Enriching { primary } => match event {
            ExtractionEvent::Extracted(Some(Ok(candidate))) => match job.trigger {
                TriggerKind::Hover => ExtractionState::Comparing { primary, candidate },
                _ => if candidate.context.is_some() {
                    ExtractionState::Merging { primary, candidate }
                } else {
                    end_without_sentence(job, primary)
                },
            },
            _ => end_without_sentence(job, primary),
        },
        ExtractionState::Comparing { primary, candidate } => match event {
            ExtractionEvent::SameTarget(true) => if candidate.context.is_some() {
                ExtractionState::Merging { primary, candidate }
            } else {
                end_without_sentence(job, primary)
            },
            _ => end_without_sentence(job, primary),
        },
        ExtractionState::Merging { primary, candidate } => {
            let mut merged: TextContext = primary;
            let found: Option<String> = match event {
                ExtractionEvent::Sentence(found) => found,
                _ => None,
            };
            if !merge_selection_context(&mut merged, found) {
                return end_without_sentence(job, merged);
            }
            match job.trigger {
                TriggerKind::Hover => ExtractionState::Rechecking { primary: merged },
                _ => ExtractionState::Finished { result: Ok(merged) },
            }
        },
        ExtractionState::Rechecking { primary } => match event {
            ExtractionEvent::Sentence(Some(_)) => ExtractionState::Finished { result: Ok(primary) },
            _ => end_without_sentence(job, primary),
        },
        ExtractionState::Finished { .. } | ExtractionState::Abandoned => ExtractionState::Abandoned,
    }
}

/// How many steps an extraction can still take.
pub open spec fn steps_left(job: ExtractionJob, state: ExtractionState) -> nat {
    match state {
        ExtractionState::Extracting { extractor, .. } => match extractor {
            Extractor::Uia => 9,
            Extractor::Native => 8,
            Extractor::Clipboard => 7,
            Extractor::Ocr => 6,
        },
        ExtractionState::Checking { .. } => 5,
        ExtractionState::Enriching { .. } => 4,
        ExtractionState::Comparing { .. } => 3,
        ExtractionState::Merging { .. } => 2,
        ExtractionState::Rechecking { .. } => 1,
        ExtractionState::Finished { .. } | ExtractionState::Abandoned => 0,
    }
}

/// Every extraction ends: each step leaves fewer steps to take.
pub proof fn lemma_extraction_ends(
    job: ExtractionJob,
    state: ExtractionState,
    event: ExtractionEvent,
    cancelled: bool,
)
    requires
        extraction_event_fits(state, event),
    ensures
        steps_left(job, extraction_next(job, state, event, cancelled)) < steps_left(job, state),
{
}

/// Hovering never copies and never reads a native control.
pub open spec fn respects_hover(job: ExtractionJob, state: ExtractionState) -> bool {
    job.trigger == TriggerKind::Hover ==> !(state matches ExtractionState::Extracting {
        extractor: Extractor::Clipboard,
        ..
    }) && !(state matches ExtractionState::Extracting { extractor: Extractor::Native, .. })
}

/// An automatic selection copies only where it has geometry.
pub open spec fn respects_selection(job: ExtractionJob, state: ExtractionState) -> bool {
    job.trigger == TriggerKind::Selection && !job.has_selection_rect ==> !(
    state matches ExtractionState::Extracting { extractor: Extractor::Clipboard, .. })
}

/// Copying through the clipboard is never reached for a hover, nor for a
/// selection without geometry, whatever the extractors return.
pub proof fn lemma_clipboard_is_reached_only_where_allowed(
    job: ExtractionJob,
    state: ExtractionState,
    event: ExtractionEvent,
    cancelled: bool,
)
    requires
        respects_hover(job, state),
        respects_selection(job, state),
        extraction_event_fits(state, event),
    ensures
        respects_hover(job, extraction_start()),
        respects_selection(job, extraction_start()),
        respects_hover(job, extraction_next(job, state, event, cancelled)),
        respects_selection(job, extraction_next(job, state, event, cancelled)),
{
}

/// A control that refuses to be read is the end of a selection: neither the
/// clipboard nor OCR is tried after it.
pub proof fn lemma_refused_selection_is_terminal(job: ExtractionJob, error: ExtractionFailure)
    requires
        job.trigger == TriggerKind::Selection,
    ensures
        extraction_next(
            job,
            ExtractionState::Extracting { extractor: Extractor::Native, error },
            ExtractionEvent::Extracted(Some(Err(ExtractionFailure::PermissionDenied))),
            false,
        ) == (ExtractionState::Finished { result: Err(ExtractionFailure::PermissionDenied) }),
{
}

/// The text whose sentence is being looked for, if any.
pub open spec fn primary_text(state: ExtractionState) -> Option<TextContext> {
    match state {
        ExtractionState::Checking { primary } => Some(primary),
        ExtractionState::Enriching { primary } => Some(primary),
        ExtractionState::Comparing { primary, .. } => Some(primary),
        ExtractionState::Merging { primary, .. } => Some(primary),
        ExtractionState::Rechecking { primary } => Some(primary),
        ExtractionState::Finished { result: Ok(text) } => Some(text),
        _ => None,
    }
}

/// Looking for the sentence never replaces the target, its source or its place
/// on the screen.
pub proof fn lemma_enrichment_keeps_the_target(
    job: ExtractionJob,
    state: ExtractionState,
    event: ExtractionEvent,
    cancelled: bool,
)
    requires
        primary_text(state) is Some,
        extraction_event_fits(state, event),
    ensures
        primary_text(extraction_next(job, state, event, cancelled)) matches Some(after) ==> {
            let before = primary_text(state).unwrap();
            &&& after.target == before.target
            &&& after.source == before.source
            &&& after.screen_rect == before.screen_rect
        },
{
}

/// A cancelled extraction posts nothing.
pub proof fn lemma_cancelled_extraction_is_silent(
    job: ExtractionJob,
    state: ExtractionState,
    event: ExtractionEvent,
)
    ensures
        extraction_next(job, state, event, true) == ExtractionState::Abandoned,
{
}

// Trace labels.

pub open spec fn trigger_label(trigger: TriggerKind) -> Seq<char> {
    match trigger {
        TriggerKind::Selection => "selection"@,
        TriggerKind::Manual => "manual"@,
        TriggerKind::Hover => "hover"@,
    }
}

pub open spec fn extractor_label(extractor: Extractor) -> Seq<char> {
    match extractor {
        Extractor::Uia => "uia"@,
        Extractor::Native => "native"@,
        Extractor::Clipboard => "clipboard"@,
        Extractor::Ocr => "ocr"@,
    }
}

pub open spec fn failure_label(failure: ExtractionFailure) -> Seq<char> {
    match failure {
        ExtractionFailure::UnsupportedPattern => "unsupported"@,
        ExtractionFailure::EmptyRange => "empty"@,
        ExtractionFailure::PermissionDenied => "permission"@,
        ExtractionFailure::StaleElement => "stale"@,
        ExtractionFailure::Platform => "platform"@,
    }
}

/// The trigger can reach the extractor.
pub open spec fn is_traced(extractor: Extractor, trigger: TriggerKind) -> bool {
    match trigger {
        TriggerKind::Selection => true,
        TriggerKind::Manual => extractor != Extractor::Native,
        TriggerKind::Hover => extractor == Extractor::Uia || extractor == Extractor::Ocr,
    }
}

/// The labels of one stage: its outcome and, for a failure, its category.
#[derive(Debug, PartialEq, Eq)]
pub struct StageTrace {
    pub label: String,
    pub category: Option<String>,
}

pub open spec fn stage_label(
    extractor: Extractor,
    trigger: TriggerKind,
    failure: Option<ExtractionFailure>,
) -> Seq<char> {
    let stage = trigger_label(trigger) + "_"@ + extractor_label(extractor);
    match failure {
        None => stage + "_success"@,
        Some(failure) => if trigger == TriggerKind::Selection {
            stage + "_failure"@ + "_"@ + failure_label(failure)
        } else {
            stage + "_failure"@
        },
    }
}

pub open spec fn category_label(trigger: TriggerKind, failure: ExtractionFailure) -> Seq<char> {
    trigger_label(trigger) + "_failure_"@ + failure_label(failure)
}

fn push_trigger_label(text: &mut String, trigger: TriggerKind)
    ensures
        final(text)@ == old(text)@ + trigger_label(trigger),
{
    match trigger {
        TriggerKind::Selection => text.append("selection"),
        TriggerKind::Manual => text.append("manual"),
        TriggerKind::Hover => text.append("hover"),
    }
}

fn push_extractor_label(text: &mut String, extractor: Extractor)
    ensures
        final(text)@ == old(text)@ + extractor_label(extractor),
{
    match extractor {
        Extractor::Uia => text.append("uia"),
        Extractor::Native => text.append("native"),
        Extractor::Clipboard => text.append("clipboard"),
        Extractor::Ocr => text.append("ocr"),
    }
}

fn push_failure_label(text: &mut String, failure: ExtractionFailure)
    ensures
        final(text)@ == old(text)@ + failure_label(failure),
{
    match failure {
        ExtractionFailure::UnsupportedPattern => text.append("unsupported"),
        ExtractionFailure::EmptyRange => text.append("empty"),
        ExtractionFailure::PermissionDenied => text.append("permission"),
        ExtractionFailure::StaleElement => text.append("stale"),
        ExtractionFailure::Platform => text.append("platform"),
    }
}

/// The failure of a result.
pub open spec fn failure_of(result: ExtractionResult) -> Option<ExtractionFailure> {
    match result {
        Ok(_) => None,
        Err(failure) => Some(failure),
    }
}

/// What is recorded of a stage. The labels are made of the extractor, the
/// trigger and the kind of failure alone: no text, place or code of the result
/// is part of them.
pub fn extraction_stage_trace(
    extractor: Extractor,
    trigger: TriggerKind,
    result: &ExtractionResult,
) -> (trace: Option<StageTrace>)
    ensures
        trace is Some <==> is_traced(extractor, trigger),
        trace matches Some(trace) ==> trace.label@ == stage_label(
            extractor,
            trigger,
            failure_of(*result),
        ) && match (trace.category, failure_of(*result)) {
            (Some(category), Some(failure)) => category@ == category_label(trigger, failure),
            (None, None) => true,
            _ => false,
        },
{
    let traced: bool = match trigger {
        TriggerKind::Selection => true,
        TriggerKind::Manual => extractor != Extractor::Native,
        TriggerKind::Hover => extractor == Extractor::Uia || extractor == Extractor::Ocr,
    };
    if !traced {
        return None;
    }
    let mut label = String::new();
    push_trigger_label(&mut label, trigger);
    label.append("_");
    push_extractor_label(&mut label, extractor);
    match result {
        Ok(_) => {
            label.append("_success");
            proof {
                assert(label@ =~= stage_label(extractor, trigger, None));
            }
            Some(StageTrace { label, category: None })
        },
        Err(failure) => {
            label.append("_failure");
            if trigger == TriggerKind::Selection {
                label.append("_");
                push_failure_label(&mut label, *failure);
            }
            let mut category = String::new();
            push_trigger_label(&mut category, trigger);
            category.append("_failure_");
            push_failure_label(&mut category, *failure);
            proof {
                assert(label@ =~= stage_label(extractor, trigger, Some(*failure)));
                assert(category@ =~= category_label(trigger, *failure));
            }
            Some(StageTrace { label, category: Some(category) })
        },
    }
}

// The mailbox of the extraction worker.

/// One extraction that the message loop asks for.
#[derive(Clone, Copy, Debug, PartialEq, Eq, Structural)]
pub struct ExtractionRequest {
    pub attempt: u64,
    pub trigger: TriggerKind,
    pub process_id: u32,
    pub source_root_window: isize,
    pub pointer: Option<ScreenPoint>,
    pub selection_rect: Option<ScreenRect>,
}

/// What the worker does next.
#[derive(Clone, Copy, Debug, PartialEq, Eq, Structural)]
pub enum WorkerTask {
    Run(ExtractionRequest),
    Wait,
    Stop,
}

/// The outcome of a submission: whether it was taken, and the attempt whose
/// extraction it cancels.
#[derive(Clone, Copy, Debug, PartialEq, Eq, Structural)]
pub struct Submission {
    pub accepted: bool,
    pub cancels: Option<u64>,
}

/// One place for the newest request, and the attempt that is being run.
#[derive(Clone, Copy, Debug, PartialEq, Eq, Structural)]
pub struct ExtractionMailbox {
    pub pending: Option<ExtractionRequest>,
    pub active: Option<u64>,
    pub shutting_down: bool,
}

impl ExtractionMailbox {
    /// A mailbox that shuts down holds nothing.
    pub open spec fn wf(self) -> bool {
        self.shutting_down ==> self.pending is None && self.active is None
    }

    pub fn new() -> (mailbox: ExtractionMailbox)
        ensures
            mailbox == (ExtractionMailbox { pending: None, active: None, shutting_down: false }),
            mailbox.wf(),
    {
        ExtractionMailbox { pending: None, active: None, shutting_down: false }
    }

    /// Puts `request` in the place of the pending one and cancels what runs.
    pub fn submit(&mut self, request: ExtractionRequest) -> (submission: Submission)
        requires
            old(self).wf(),
        ensures
            submission.accepted == !old(self).shutting_down,
            submission.cancels == old(self).active,
            *final(self) == if old(self).shutting_down {
                *old(self)
            } else {
                ExtractionMailbox { pending: Some(request), ..*old(self) }
            },
            final(self).wf(),
    {
        if self.shutting_down {
            return Submission { accepted: false, cancels: None };
        }
        self.pending = Some(request);
        Submission { accepted: true, cancels: self.active }
    }

    /// The worker's next task. It asks only once the previous one is complete.
    pub fn next(&mut self) -> (task: WorkerTask)
        requires
            old(self).wf(),
        ensures
            task == if old(self).shutting_down {
                WorkerTask::Stop
            } else {
                match old(self).pending {
                    Some(request) => WorkerTask::Run(request),
                    None => WorkerTask::Wait,
                }
            },
            *final(self) == match task {
                WorkerTask::Run(request) => ExtractionMailbox {
                    pending: None,
                    active: Some(request.attempt),
                    ..*old(self)
                },
                _ => *old(self),
            },
            final(self).wf(),
    {
        if self.shutting_down {
            return WorkerTask::Stop;
        }
        match self.pending {
            Some(request) => {
                self.pending = None;
                self.active = Some(request.attempt);
                WorkerTask::Run(request)
            },
            None => WorkerTask::Wait,
        }
    }

    /// The attempt has ended; one that was already replaced changes nothing.
    pub fn complete(&mut self, attempt: u64)
        requires
            old(self).wf(),
        ensures
            *final(self) == if old(self).active == Some(attempt) {
                ExtractionMailbox { active: None, ..*old(self) }
            } else {
                *old(self)
            },
            final(self).wf(),
    {
        if let Some(active) = self.active {
            if active == attempt {
                self.active = None;
            }
        }
    }

    /// Drops everything; the attempt returned is to be cancelled.
    pub fn cancel(&mut self) -> (cancels: Option<u64>)
        requires
            old(self).wf(),
        ensures
            cancels == old(self).active,
            *final(self) == (ExtractionMailbox { pending: None, active: None, ..*old(self) }),
            final(self).wf(),
    {
        self.pending = None;
        self.active.take()
    }

    /// Drops everything for good; the attempt returned is to be cancelled.
    pub fn shutdown(&mut self) -> (cancels: Option<u64>)
        requires
            old(self).wf(),
        ensures
            cancels == old(self).active,
            *final(self) == (ExtractionMailbox {
                pending: None,
                active: None,
                shutting_down: true,
            }),
            final(self).wf(),
    {
        self.shutting_down = true;
        self.pending = None;
        self.active.take()
    }
}

/// The mailbox once the requests of `burst` were submitted in order.
pub open spec fn after_burst(
    mailbox: ExtractionMailbox,
    burst: Seq<ExtractionRequest>,
) -> ExtractionMailbox
    decreases burst.len(),
{
    if burst.len() == 0 || mailbox.shutting_down {
        mailbox
    } else {
        ExtractionMailbox { pending: Some(burst.last()), ..after_burst(mailbox, burst.drop_last()) }
    }
}

/// A burst of requests leaves only the newest one pending, and does not touch
/// what runs.
pub proof fn lemma_burst_leaves_the_newest(
    mailbox: ExtractionMailbox,
    burst: Seq<ExtractionRequest>,
)
    requires
        !mailbox.shutting_down,
        burst.len() > 0,
    ensures
        after_burst(mailbox, burst) == (ExtractionMailbox {
            pending: Some(burst.last()),
            ..mailbox
        }),
    decreases burst.len(),
{
    if burst.len() == 1 {
        assert(after_burst(mailbox, burst.drop_last()) == mailbox);
    } else {
        lemma_burst_leaves_the_newest(mailbox, burst.drop_last());
    }
}

/// The number of the next attempt.
pub fn next_attempt(attempt: u64) -> (next: u64)
    ensures
        next == if attempt == u64::MAX {
            0
        } else {
            attempt + 1
        },
{
    attempt.wrapping_add(1)
}

/// The event that reports the end of an extraction: the result, under the
/// request's own attempt, trigger, process, pointer and rectangle.
pub fn extraction_event(request: ExtractionRequest, result: ExtractionResult) -> (event:
    PipelineEvent)
    ensures
        event == (PipelineEvent::Extraction {
            attempt: request.attempt,
            trigger: request.trigger,
            process_id: request.process_id,
            pointer: request.pointer,
            selection_rect: request.selection_rect,
            result,
        }),
{
    PipelineEvent::Extraction {
        attempt: request.attempt,
        trigger: request.trigger,
        process_id: request.process_id,
        pointer: request.pointer,
        selection_rect: request.selection_rect,
        result,
    }
}

/// What an extraction posts once it needs no more events: exactly one event
/// where it finished, and nothing where it was abandoned.
pub fn posted_event(request: ExtractionRequest, state: ExtractionState) -> (event: Option<
    PipelineEvent,
>)
    requires
        state is Finished || state is Abandoned,
    ensures
        event == match state {
            ExtractionState::Finished { result } => Some(
                PipelineEvent::Extraction {
                    attempt: request.attempt,
                    trigger: request.trigger,
                    process_id: request.process_id,
                    pointer: request.pointer,
                    selection_rect: request.selection_rect,
                    result,
                },
            ),
            _ => None,
        },
{
    match state {
        ExtractionState::Finished { result } => Some(extraction_event(request, result)),
        _ => None,
    }
}

/// The event that stands for a request that no worker took.
pub fn rejected_submission(request: ExtractionRequest) -> (event: PipelineEvent)
    ensures
        event == (PipelineEvent::Extraction {
            attempt: request.attempt,
            trigger: request.trigger,
            process_id: request.process_id,
            pointer: request.pointer,
            selection_rect: request.selection_rect,
            result: Err(ExtractionFailure::Platform),
        }),
{
    extraction_event(request, Err(ExtractionFailure::Platform))
}

/// A stream that cannot start, for want of a provider or of a thread, finishes
/// as unavailable; one that starts posts nothing yet.
pub fn stream_start_failure(job_id: u64, has_provider: bool, spawned: bool) -> (event: Option<
    PipelineEvent,
>)
    ensures
        event == if has_provider && spawned {
            None
        } else {
            Some(
                PipelineEvent::Finished { job_id, result: Err(ProviderError::Unavailable) },
            )
        },
{
    if has_provider && spawned {
        None
    } else {
        Some(PipelineEvent::Finished { job_id, result: Err(ProviderError::Unavailable) })
    }
}

/// What a provider's update for `job_id` posts from the worker of `own_job`:
/// nothing where the job is another one or the update is empty.
pub fn stream_delta(own_job: u64, job_id: u64, delta: String) -> (event: Option<PipelineEvent>)
    ensures
        event == if job_id == own_job && delta@.len() > 0 {
            Some(PipelineEvent::Delta { job_id, delta })
        } else {
            None
        },
{
    if job_id == own_job && !delta.as_str().is_empty() {
        Some(PipelineEvent::Delta { job_id, delta })
    } else {
        None
    }
}

/// Where a failed extractor leaves an extraction that nobody cancelled: an
/// explicit request goes from UI automation to the clipboard and from there to
/// OCR; a selection goes from UI automation to the native control, from there to
/// the clipboard where it has geometry, and then to OCR; a hover goes straight to
/// OCR. An extractor that is missing counts as one that failed as the one before
/// it did.
pub proof fn lemma_fallback_goes_on(
    job: ExtractionJob,
    extractor: Extractor,
    earlier: ExtractionFailure,
    result: Option<ExtractionResult>,
)
    requires
        result matches Some(answer) ==> answer is Err,
    ensures
        ({
            let error = match result {
                Some(answer) => answer->Err_0,
                None => earlier,
            };
            let next = extraction_next(
                job,
                ExtractionState::Extracting { extractor, error: earlier },
                ExtractionEvent::Extracted(result),
                false,
            );
            let asks = |other: Extractor|
                next == (ExtractionState::Extracting { extractor: other, error });
            let denied = error == ExtractionFailure::PermissionDenied;
            &&& job.trigger == TriggerKind::Manual && extractor == Extractor::Uia ==> asks(
                Extractor::Clipboard,
            )
            &&& job.trigger == TriggerKind::Manual && extractor == Extractor::Clipboard ==> asks(
                Extractor::Ocr,
            )
            &&& job.trigger == TriggerKind::Hover && extractor == Extractor::Uia ==> asks(
                Extractor::Ocr,
            )
            &&& job.trigger == TriggerKind::Selection && extractor == Extractor::Uia ==> asks(
                Extractor::Native,
            )
            &&& job.trigger == TriggerKind::Selection && extractor == Extractor::Native && !denied
                && job.has_selection_rect ==> asks(Extractor::Clipboard)
            &&& job.trigger == TriggerKind::Selection && extractor == Extractor::Native && !denied
                && !job.has_selection_rect ==> asks(Extractor::Ocr)
            &&& job.trigger == TriggerKind::Selection && extractor == Extractor::Clipboard
                && !denied ==> asks(Extractor::Ocr)
            &&& extractor == Extractor::Ocr ==> next == (ExtractionState::Finished {
                result: Err(error),
            })
        }),
{
}

/// The extraction ends with an error.
pub open spec fn gives_up(state: ExtractionState) -> bool {
    state matches ExtractionState::Finished { result } && result is Err
}

/// No extraction gives up before OCR was asked, but for a selection whose
/// control or clipboard denies access, and a hover for whose text no sentence was
/// found.
pub proof fn lemma_nothing_gives_up_before_ocr(
    job: ExtractionJob,
    state: ExtractionState,
    event: ExtractionEvent,
)
    requires
        extraction_event_fits(state, event),
        gives_up(extraction_next(job, state, event, false)),
    ensures
        ({
            ||| state matches ExtractionState::Extracting { extractor, .. } && extractor
                == Extractor::Ocr
            ||| job.trigger == TriggerKind::Selection && (state matches
                ExtractionState::Extracting { extractor, .. } && (extractor == Extractor::Native
                || extractor == Extractor::Clipboard)) && extraction_next(job, state, event, false)
                == (ExtractionState::Finished {
                result: Err::<TextContext, _>(ExtractionFailure::PermissionDenied),
            })
            ||| job.trigger == TriggerKind::Hover && !(state is Extracting) && extraction_next(
                job,
                state,
                event,
                false,
            ) == (ExtractionState::Finished {
                result: Err::<TextContext, _>(ExtractionFailure::EmptyRange),
            })
        }),
{
}

/// The extractor that the state waits for.
pub open spec fn asked_in(state: ExtractionState) -> Option<Extractor> {
    match state {
        ExtractionState::Extracting { extractor, .. } => Some(extractor),
        _ => None,
    }
}

/// An extraction whose extractors all fail, none of them for want of permission,
/// asks every one that its trigger has, in order, and ends with what OCR said.
pub proof fn lemma_failing_extraction_asks_everyone(
    job: ExtractionJob,
    first: ExtractionFailure,
    second: ExtractionFailure,
    third: ExtractionFailure,
    last: ExtractionFailure,
)
    requires
        first != ExtractionFailure::PermissionDenied,
        second != ExtractionFailure::PermissionDenied,
        third != ExtractionFailure::PermissionDenied,
    ensures
        ({
            let fail = |state: ExtractionState, error: ExtractionFailure|
                extraction_next(
                    job,
                    state,
                    ExtractionEvent::Extracted(Some(Err::<TextContext, _>(error))),
                    false,
                );
            let s0 = extraction_start();
            let s1 = fail(s0, first);
            let s2 = fail(s1, second);
            let s3 = fail(s2, third);
            let done = ExtractionState::Finished { result: Err::<TextContext, _>(last) };
            &&& asked_in(s0) == Some(Extractor::Uia)
            &&& match job.trigger {
                TriggerKind::Manual => asked_in(s1) == Some(Extractor::Clipboard) && asked_in(s2)
                    == Some(Extractor::Ocr) && fail(s2, last) == done,
                TriggerKind::Hover => asked_in(s1) == Some(Extractor::Ocr) && fail(s1, last)
                    == done,
                TriggerKind::Selection => asked_in(s1) == Some(Extractor::Native)
                    && if job.has_selection_rect {
                    asked_in(s2) == Some(Extractor::Clipboard) && asked_in(s3) == Some(
                        Extractor::Ocr,
                    ) && fail(s3, last) == done
                } else {
                    asked_in(s2) == Some(Extractor::Ocr) && fail(s2, last) == done
                },
            }
        }),
{
}

/// What becomes of a text that an extractor found. An explicit request gets it as
/// it is, and so does a text that OCR found. Any other selection with geometry,
/// and any other hover, is looked up for its sentence, in its own context first,
/// and by OCR where it has none.
pub proof fn lemma_found_text_is_used(
    job: ExtractionJob,
    extractor: Extractor,
    earlier: ExtractionFailure,
    text: TextContext,
)
    requires
        extractor == Extractor::Ocr <==> text.source == ExtractionSource::Ocr,
    ensures
        ({
            let next = extraction_next(
                job,
                ExtractionState::Extracting { extractor, error: earlier },
                ExtractionEvent::Extracted(Some(Ok::<_, ExtractionFailure>(text))),
                false,
            );
            let as_it_is = ExtractionState::Finished { result: Ok::<_, ExtractionFailure>(text) };
            &&& job.trigger == TriggerKind::Manual ==> next == as_it_is
            &&& extractor == Extractor::Ocr ==> next == as_it_is
            &&& job.trigger == TriggerKind::Selection && !job.has_selection_rect ==> next
                == as_it_is
            &&& extractor != Extractor::Ocr && (job.trigger == TriggerKind::Hover || job.trigger
                == TriggerKind::Selection && job.has_selection_rect) ==> {
                &&& text.context is Some ==> next == (ExtractionState::Checking { primary: text })
                &&& text.context is None ==> next == (ExtractionState::Enriching { primary: text })
            }
        }),
{
}

/// Looking for a sentence never costs a selection its text: whatever is found,
/// the extraction ends with the text, as it was or with a sentence of the other
/// text as its context.
pub proof fn lemma_selection_keeps_its_text(
    job: ExtractionJob,
    primary: TextContext,
    candidate: TextContext,
    found: Option<String>,
    refused: Option<ExtractionResult>,
)
    requires
        job.trigger == TriggerKind::Selection,
        refused matches Some(answer) ==> answer is Err,
    ensures
        ({
            let kept = ExtractionState::Finished { result: Ok::<_, ExtractionFailure>(primary) };
            let sentence = ExtractionEvent::Sentence(found);
            let checked = extraction_next(
                job,
                ExtractionState::Checking { primary },
                sentence,
                false,
            );
            let merged = extraction_next(
                job,
                ExtractionState::Merging { primary, candidate },
                sentence,
                false,
            );
            let looked = extraction_next(
                job,
                ExtractionState::Enriching { primary },
                ExtractionEvent::Extracted(Some(Ok::<_, ExtractionFailure>(candidate))),
                false,
            );
            &&& found is Some ==> checked == kept
            &&& found is None ==> checked == (ExtractionState::Enriching { primary })
            &&& extraction_next(
                job,
                ExtractionState::Enriching { primary },
                ExtractionEvent::Extracted(refused),
                false,
            ) == kept
            &&& candidate.context is None ==> looked == kept
            &&& candidate.context is Some ==> looked == (ExtractionState::Merging {
                primary,
                candidate,
            })
            &&& found is None ==> merged == kept
            &&& found is Some ==> merged == (ExtractionState::Finished {
                result: Ok::<_, ExtractionFailure>(TextContext { context: found, ..primary }),
            })
        }),
{
}

/// A hover ends with its text only where a sentence was found for it: in its own
/// context, or in that of a text that OCR found for the same target.
pub proof fn lemma_hover_needs_a_sentence(
    job: ExtractionJob,
    primary: TextContext,
    candidate: TextContext,
    found: Option<String>,
    same: bool,
    refused: Option<ExtractionResult>,
)
    requires
        job.trigger == TriggerKind::Hover,
        refused matches Some(answer) ==> answer is Err,
    ensures
        ({
            let nothing = ExtractionState::Finished {
                result: Err::<TextContext, _>(ExtractionFailure::EmptyRange),
            };
            let kept = ExtractionState::Finished { result: Ok::<_, ExtractionFailure>(primary) };
            let sentence = ExtractionEvent::Sentence(found);
            let checked = extraction_next(
                job,
                ExtractionState::Checking { primary },
                sentence,
                false,
            );
            let compared = extraction_next(
                job,
                ExtractionState::Comparing { primary, candidate },
                ExtractionEvent::SameTarget(same),
                false,
            );
            let merged = extraction_next(
                job,
                ExtractionState::Merging { primary, candidate },
                sentence,
                false,
            );
            let rechecked = extraction_next(
                job,
                ExtractionState::Rechecking { primary },
                sentence,
                false,
            );
            &&& found is Some ==> checked == kept && rechecked == kept
            &&& found is None ==> checked == (ExtractionState::Enriching { primary })
            &&& found is None ==> merged == nothing && rechecked == nothing
            &&& found is Some ==> merged == (ExtractionState::Rechecking {
                primary: TextContext { context: found, ..primary },
            })
            &&& extraction_next(
                job,
                ExtractionState::Enriching { primary },
                ExtractionEvent::Extracted(refused),
                false,
            ) == nothing
            &&& extraction_next(
                job,
                ExtractionState::Enriching { primary },
                ExtractionEvent::Extracted(Some(Ok::<_, ExtractionFailure>(candidate))),
                false,
            ) == (ExtractionState::Comparing { primary, candidate })
            &&& !same || candidate.context is None ==> compared == nothing
            &&& same && candidate.context is Some ==> compared == (ExtractionState::Merging {
                primary,
                candidate,
            })
        }),
{
}

// What the helpers and the mailbox do.

/// A refused permission is the one failure of the native reader after which
/// nobody else is asked.
pub proof fn lemma_only_a_refusal_ends_the_fallback(error: ExtractionFailure, allows: bool)
    requires
        call_ensures(native_failure_allows_fallback, (error,), allows),
    ensures
        !allows <==> error == ExtractionFailure::PermissionDenied,
{
}

/// Only what the pointer rests on is cleaned: a text that cleaning leaves
/// nothing of is empty, any other result stays as it was.
pub proof fn lemma_only_hovered_text_is_cleaned(
    trigger: TriggerKind,
    result: ExtractionResult,
    cleaned: Option<TextContext>,
    sanitized: ExtractionResult,
)
    requires
        call_ensures(sanitize_extraction_result, (trigger, result, cleaned), sanitized),
    ensures
        trigger != TriggerKind::Hover || result is Err ==> sanitized == result,
        trigger == TriggerKind::Hover && result is Ok ==> {
            &&& cleaned matches Some(text) ==> sanitized == Ok::<_, ExtractionFailure>(text)
            &&& cleaned is None ==> sanitized == Err::<TextContext, _>(
                ExtractionFailure::EmptyRange,
            )
        },
{
}

/// Two targets are the same word where they are equal, or are equal but for
/// the case of ASCII letters; other letters keep their case.
pub proof fn lemma_same_words_may_differ_in_case(first: &str, second: &str, same: bool)
    requires
        call_ensures(same_normalized_target, (first, second), same),
    ensures
        first@ == second@ ==> same,
        same ==> first@.len() == second@.len(),
        same && !vstd::utf8::is_ascii_chars(first@) ==> first@ == second@,
        same && !vstd::utf8::is_ascii_chars(second@) ==> first@ == second@,
        vstd::utf8::is_ascii_chars(first@) && vstd::utf8::is_ascii_chars(second@) ==> (same
            <==> ascii_lower(first@) == ascii_lower(second@)),
{
    if ascii_lower(first@) == ascii_lower(second@) {
        assert(ascii_lower(first@).len() == first@.len());
        assert(ascii_lower(second@).len() == second@.len());
    }
}

/// A sentence is taken up, in place of any other, and the target stays; for a
/// hover only where the word is the same.
pub proof fn lemma_a_sentence_joins_its_target(
    selected: &mut TextContext,
    hovered: &mut TextContext,
    same_target: bool,
    sentence: Option<String>,
    merged: bool,
    hover_merged: bool,
)
    requires
        call_ensures(merge_selection_context, (selected, sentence), merged),
        call_ensures(merge_hover_context, (hovered, same_target, sentence), hover_merged),
    ensures
        merged <==> sentence is Some,
        sentence is Some ==> final(selected).context == sentence,
        sentence is None ==> *final(selected) == *old(selected),
        final(selected).target == old(selected).target,
        final(selected).source == old(selected).source,
        final(selected).screen_rect == old(selected).screen_rect,
        hover_merged <==> same_target && sentence is Some,
        hover_merged ==> final(hovered).context == sentence,
        !hover_merged ==> *final(hovered) == *old(hovered),
        final(hovered).target == old(hovered).target,
        final(hovered).screen_rect == old(hovered).screen_rect,
{
}

/// What was submitted last is what the worker runs next, once, and what it
/// runs is known as active; a submission while something runs names that for
/// cancelling.
pub proof fn lemma_the_worker_runs_what_was_submitted(
    mailbox: &mut ExtractionMailbox,
    later: &mut ExtractionMailbox,
    afterwards: &mut ExtractionMailbox,
    request: ExtractionRequest,
    submission: Submission,
    task: WorkerTask,
    following: WorkerTask,
)
    requires
        !old(mailbox).shutting_down,
        call_ensures(ExtractionMailbox::submit, (mailbox, request), submission),
        call_ensures(ExtractionMailbox::next, (later,), task),
        call_ensures(ExtractionMailbox::next, (afterwards,), following),
    ensures
        submission.accepted,
        submission.cancels == old(mailbox).active,
        *final(mailbox) == *old(later) ==> task == WorkerTask::Run(request) && final(later).active
            == Some(request.attempt),
        *final(mailbox) == *old(later) && *final(later) == *old(afterwards) ==> following
            == WorkerTask::Wait,
{
}

/// Once it shuts down the mailbox takes nothing and the worker stops, and the
/// extraction that runs is named for cancelling.
pub proof fn lemma_nothing_runs_after_the_shutdown(
    mailbox: &mut ExtractionMailbox,
    later: &mut ExtractionMailbox,
    last: &mut ExtractionMailbox,
    request: ExtractionRequest,
    cancels: Option<u64>,
    submission: Submission,
    task: WorkerTask,
)
    requires
        call_ensures(ExtractionMailbox::shutdown, (mailbox,), cancels),
        call_ensures(ExtractionMailbox::submit, (later, request), submission),
        call_ensures(ExtractionMailbox::next, (last,), task),
    ensures
        cancels == old(mailbox).active,
        *final(mailbox) == *old(later) ==> !submission.accepted && *final(later) == *old(later),
        *final(mailbox) == *old(later) && *final(later) == *old(last) ==> task == WorkerTask::Stop,
{
}

/// Cancelling drops what waits and names what runs; completing forgets only the
/// attempt that runs.
pub proof fn lemma_cancelling_empties_the_mailbox(
    mailbox: &mut ExtractionMailbox,
    other: &mut ExtractionMailbox,
    cancels: Option<u64>,
    attempt: u64,
    outcome: (),
)
    requires
        call_ensures(ExtractionMailbox::cancel, (mailbox,), cancels),
        call_ensures(ExtractionMailbox::complete, (other, attempt), outcome),
    ensures
        cancels == old(mailbox).active,
        final(mailbox).pending is None && final(mailbox).active is None,
        final(mailbox).shutting_down == old(mailbox).shutting_down,
        final(other).pending == old(other).pending,
        old(other).active == Some(attempt) ==> final(other).active is None,
        old(other).active != Some(attempt) ==> *final(other) == *old(other),
{
}

/// The end of an extraction is reported under its own request, with its
/// result; one that was given up reports nothing, and one that was never taken
/// reports a failure.
pub proof fn lemma_an_extraction_reports_under_its_own_attempt(
    request: ExtractionRequest,
    state: ExtractionState,
    event: Option<PipelineEvent>,
    refused: PipelineEvent,
)
    requires
        state is Finished || state is Abandoned,
        call_ensures(posted_event, (request, state), event),
        call_ensures(rejected_submission, (request,), refused),
    ensures
        state is Abandoned ==> event is None,
        state matches ExtractionState::Finished { result: found } ==> (event matches Some(
            PipelineEvent::Extraction {
                attempt,
                trigger,
                process_id,
                pointer,
                selection_rect,
                result,
            },
        ) && attempt == request.attempt && trigger == request.trigger && process_id
            == request.process_id && pointer == request.pointer && selection_rect
            == request.selection_rect && result == found),
        refused matches PipelineEvent::Extraction { attempt, trigger, result, .. } && attempt
            == request.attempt && trigger == request.trigger && result == Err::<TextContext, _>(
            ExtractionFailure::Platform,
        ),
{
}

/// A stream that cannot start ends at once as unavailable; its text is passed
/// on under its own job, and an empty piece or another job's is dropped.
pub proof fn lemma_a_stream_passes_on_its_own_text(
    own_job: u64,
    job_id: u64,
    delta: String,
    has_provider: bool,
    spawned: bool,
    passed: Option<PipelineEvent>,
    failure: Option<PipelineEvent>,
)
    requires
        call_ensures(stream_delta, (own_job, job_id, delta), passed),
        call_ensures(stream_start_failure, (own_job, has_provider, spawned), failure),
    ensures
        job_id == own_job && delta@.len() > 0 ==> (passed matches Some(PipelineEvent::Delta {
            job_id: job,
            delta: text,
        }) && job == own_job && text == delta),
        job_id != own_job || delta@.len() == 0 ==> passed is None,
        has_provider && spawned <==> failure is None,
        failure matches Some(event)
            ==> (event matches PipelineEvent::Finished { job_id: job, result }
            && job == own_job && result == Err::<(), _>(ProviderError::Unavailable)),
{
}

/// Every stage that a trigger can reach is traced, and no other: a selection
/// reaches all of them, the hotkey all but the native reader, and a hover only
/// automation and recognition.
pub proof fn lemma_what_is_traced(extractor: Extractor, trigger: TriggerKind)
    ensures
        trigger == TriggerKind::Selection ==> is_traced(extractor, trigger),
        !is_traced(Extractor::Native, TriggerKind::Manual),
        extractor != Extractor::Native ==> is_traced(extractor, TriggerKind::Manual),
        is_traced(Extractor::Uia, TriggerKind::Hover),
        is_traced(Extractor::Ocr, TriggerKind::Hover),
        !is_traced(Extractor::Native, TriggerKind::Hover),
        !is_traced(Extractor::Clipboard, TriggerKind::Hover),
{
}

/// A traced stage is named after its trigger and its extractor, and says
/// whether it succeeded; a failure has a category, a success has none.
pub proof fn lemma_a_stage_is_named_after_what_it_is(
    extractor: Extractor,
    trigger: TriggerKind,
    result: ExtractionResult,
    trace: Option<StageTrace>,
)
    requires
        call_ensures(extraction_stage_trace, (extractor, trigger, &result), trace),
    ensures
        trace matches Some(stage) ==> {
            &&& stage.category is Some <==> result is Err
            &&& trigger == TriggerKind::Hover && extractor == Extractor::Uia && result is Ok
                ==> stage.label@ == "hover"@ + "_"@ + "uia"@ + "_success"@
            &&& trigger == TriggerKind::Manual && extractor == Extractor::Clipboard && result is Ok
                ==> stage.label@ == "manual"@ + "_"@ + "clipboard"@ + "_success"@
            &&& trigger == TriggerKind::Selection && extractor == Extractor::Native && result is Ok
                ==> stage.label@ == "selection"@ + "_"@ + "native"@ + "_success"@
            &&& trigger == TriggerKind::Hover && extractor == Extractor::Ocr && result is Err
                ==> stage.label@ == "hover"@ + "_"@ + "ocr"@ + "_failure"@
            &&& result == Err::<TextContext, _>(ExtractionFailure::EmptyRange) ==> (
            stage.category matches Some(category) && category@ == (match trigger {
                TriggerKind::Selection => "selection"@,
                TriggerKind::Manual => "manual"@,
                TriggerKind::Hover => "hover"@,
            }) + "_failure_"@ + "empty"@)
            &&& trigger == TriggerKind::Selection && extractor == Extractor::Uia && result
                == Err::<TextContext, _>(ExtractionFailure::PermissionDenied) ==> stage.label@
                == "selection"@ + "_"@ + "uia"@ + "_failure"@ + "_"@ + "permission"@
        },
{
}

/// The next attempt has another number.
pub proof fn lemma_attempts_are_numbered_on(attempt: u64, next: u64)
    requires
        call_ensures(next_attempt, (attempt,), next),
    ensures
        next != attempt,
        attempt < u64::MAX ==> next == attempt + 1,
{
}

/// The clipboard is copied through for the hotkey, and for a selection with a
/// place; never for a hover.
pub proof fn lemma_who_may_copy(placed: bool)
    ensures
        !may_use_clipboard(TriggerKind::Hover, placed),
        may_use_clipboard(TriggerKind::Manual, placed),
        may_use_clipboard(TriggerKind::Selection, placed) <==> placed,
{
}

/// An extraction begins with automation and moves by the steps of the model;
/// what is said of those holds of it.
pub proof fn lemma_an_extraction_moves_by_the_model(
    job: ExtractionJob,
    first: ExtractionState,
    state: ExtractionState,
    event: ExtractionEvent,
    cancelled: bool,
    next: ExtractionState,
)
    requires
        extraction_event_fits(state, event),
        call_ensures(start_extraction, (), first),
        call_ensures(extraction_step, (job, state, event, cancelled), next),
    ensures
        first == extraction_start(),
        next == extraction_next(job, state, event, cancelled),
{
}

} // verus!
