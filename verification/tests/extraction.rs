use selection_translate::composition::{
    clipboard_fallback_allowed, extraction_stage_trace, extraction_step, merge_hover_context,
    extraction_event, merge_selection_context, native_failure_allows_fallback, next_attempt,
    posted_event, rejected_submission,
    same_normalized_target, sanitize_extraction_result, start_extraction, stream_delta,
    stream_start_failure, ExtractionEvent, ExtractionJob, ExtractionMailbox, ExtractionRequest,
    ExtractionState, Extractor, PipelineEvent, WorkerTask,
};
use selection_translate::extraction::{
    ExtractionFailure, ExtractionSource, TextContext, TriggerKind,
};
use selection_translate::geometry::{ScreenPoint, ScreenRect};
use selection_translate::native_run::{
    native_step, start_native, NativeContext, NativeEvent, NativeState,
};
use selection_translate::native_selection::{
    ancestor_step, check_password_char, check_target, check_text_window_style,
    context_beyond_target, context_offset, focused_window_usable, is_allowed_edit_class,
    is_allowed_edit_class_name, message_timeout, native_fallback_allowed, selected_part,
    text_buffer_units, utf16_offset_to_byte, valid_utf16_range, validate_candidate, window_text,
    AncestorStep, ES_PASSWORD, MAX_PARENT_DEPTH, MAX_TEXT_UNITS,
};
use selection_translate::provider::ProviderError;

#[test]
fn allowlist_is_narrow_and_unicode_only() {
    assert!(is_allowed_edit_class_name("Edit"));
    assert!(is_allowed_edit_class_name("RichEdit20W"));
    assert!(is_allowed_edit_class_name("RICHEDIT50W"));
    assert!(is_allowed_edit_class_name("richeditd2dpt"));
    assert!(is_allowed_edit_class_name("WindowsForms10.EDIT.abcdef"));
    assert!(!is_allowed_edit_class_name("Button"));
    assert!(is_allowed_edit_class_name("edit"));
    assert!(!is_allowed_edit_class_name("RichEdit20A"));
}

#[test]
fn ranges_are_bounded_and_ordered() {
    assert!(valid_utf16_range(1, 2, 8));
    assert!(!valid_utf16_range(2, 1, 8));
    assert!(!valid_utf16_range(0, 9, 8));
}

#[test]
fn utf16_offsets_handle_non_bmp() {
    let units: Vec<u16> = "a😀b".encode_utf16().collect();
    assert_eq!(utf16_offset_to_byte(&units, 0), Some(0));
    assert_eq!(utf16_offset_to_byte(&units, 1), Some(1));
    assert_eq!(utf16_offset_to_byte(&units, 3), Some(5));
    assert_eq!(utf16_offset_to_byte(&units, 4), Some(6));
}

#[test]
fn invalid_surrogate_prefix_is_rejected() {
    assert_eq!(utf16_offset_to_byte(&[0xD800], 1), None);
}

#[test]
fn automatic_native_fallback_requires_selection_geometry() {
    assert!(!native_fallback_allowed(None));
    assert!(native_fallback_allowed(Some(ScreenRect::new(1, 2, 3, 4))));
}

#[test]
fn context_handles_repeated_targets_leading_space_and_crlf() {
    let text = "First word.\r\n  word second.";
    let offset = text.rfind("  word").unwrap();
    let from = context_offset(text, offset);
    assert_eq!(&text[from..], "word second.");
    assert_eq!(
        context_beyond_target(Some(text[from..].to_owned()), "word"),
        Some("word second.".into())
    );
}

#[test]
fn context_handles_zero_width_and_non_bmp() {
    let text = "One. \u{200B}\u{1F600} target here.";
    let offset = text.find('\u{200B}').unwrap();
    let from = context_offset(text, offset);
    assert_eq!(
        context_beyond_target(Some(text[from..].to_owned()), "\u{1F600}"),
        Some("\u{1F600} target here.".into())
    );
}

#[test]
fn clipboard_fallback_routing_allows_selection_and_manual_but_rejects_hover() {
    assert!(clipboard_fallback_allowed(TriggerKind::Selection, true));
    assert!(!clipboard_fallback_allowed(TriggerKind::Selection, false));
    assert!(clipboard_fallback_allowed(TriggerKind::Manual, false));
    assert!(!clipboard_fallback_allowed(TriggerKind::Hover, true));
}

#[test]
fn sensitive_native_failure_is_terminal_before_clipboard_or_ocr() {
    assert!(!native_failure_allows_fallback(
        ExtractionFailure::PermissionDenied
    ));
    assert!(native_failure_allows_fallback(
        ExtractionFailure::UnsupportedPattern
    ));
}

#[test]
fn context_enrichment_preserves_selected_target_and_adds_its_sentence() {
    let mut primary = TextContext::new("bank", ExtractionSource::Clipboard);
    let sentence = Some("He sat on the bank by the river.".to_owned());

    assert!(merge_selection_context(&mut primary, sentence));
    assert_eq!(primary.target, "bank");
    assert_eq!(primary.source, ExtractionSource::Clipboard);
    assert_eq!(
        primary.context.as_deref(),
        Some("He sat on the bank by the river.")
    );
}

#[test]
fn unrelated_ocr_text_cannot_be_attached_as_selection_context() {
    let mut primary = TextContext::new("bank", ExtractionSource::Clipboard);
    assert!(!merge_selection_context(&mut primary, None));
    assert!(primary.context.is_none());
}

#[test]
fn hover_context_enrichment_preserves_uia_target_and_source() {
    let mut primary = TextContext {
        target: "bank".into(),
        context: None,
        source: ExtractionSource::UiaPoint,
        screen_rect: Some(ScreenRect::new(10, 20, 30, 40)),
    };
    let same = same_normalized_target("bank", "bank");
    let sentence = Some("He sat on the bank by the river.".to_owned());
    assert!(merge_hover_context(&mut primary, same, sentence));
    assert_eq!(primary.target, "bank");
    assert_eq!(primary.source, ExtractionSource::UiaPoint);
    assert_eq!(primary.screen_rect, Some(ScreenRect::new(10, 20, 30, 40)));
    assert_eq!(
        primary.context.as_deref(),
        Some("He sat on the bank by the river.")
    );
}

#[test]
fn hover_context_mismatch_is_rejected_without_replacing_target() {
    let mut primary = TextContext::new("bank", ExtractionSource::UiaPoint);
    let same = same_normalized_target("bank", "bench");
    assert!(!merge_hover_context(&mut primary, same, None));
    assert_eq!(primary.target, "bank");
    assert!(primary.context.is_none());
}

#[test]
fn hover_context_rejects_a_different_ocr_target_even_if_sentence_mentions_primary() {
    let mut primary = TextContext::new("bank", ExtractionSource::UiaPoint);
    let same = same_normalized_target("bank", "river");
    let sentence = Some("He sat on the bank by the river.".to_owned());
    assert!(!merge_hover_context(&mut primary, same, sentence));
    assert!(primary.context.is_none());
}

fn job(trigger: TriggerKind) -> ExtractionJob {
    ExtractionJob {
        trigger,
        has_selection_rect: true,
    }
}

/// Runs a hover whose extractors give `found`, and whose text has no sentence.
fn hover_without_sentence(found: TextContext) -> ExtractionState {
    let mut state = start_extraction();
    let mut first = Some(found);
    for _ in 0..32 {
        let event = match &state {
            ExtractionState::Extracting { .. } => ExtractionEvent::Extracted(Some(
                first.take().ok_or(ExtractionFailure::EmptyRange),
            )),
            ExtractionState::Enriching { .. } => {
                ExtractionEvent::Extracted(Some(Err(ExtractionFailure::EmptyRange)))
            }
            ExtractionState::Comparing { .. } => ExtractionEvent::SameTarget(false),
            ExtractionState::Finished { .. } | ExtractionState::Abandoned => break,
            _ => ExtractionEvent::Sentence(None),
        };
        state = extraction_step(job(TriggerKind::Hover), state, event, false);
    }
    state
}

#[test]
fn hover_without_containing_sentence_fails_locally() {
    let primary = TextContext::new("word", ExtractionSource::UiaPoint);
    match hover_without_sentence(primary) {
        ExtractionState::Finished { result } => assert!(result.is_err()),
        other => panic!("not finished: {:?}", other),
    }
}

#[test]
fn hover_extractor_result_is_cleaned_before_it_can_stop_fallback() {
    let decorated = TextContext {
        target: "\u{2022} **word,**".into(),
        context: Some("Read **word,** in this sentence.".into()),
        source: ExtractionSource::UiaPoint,
        screen_rect: Some(ScreenRect::new(1, 2, 3, 4)),
    };
    let mut cleaned = decorated.duplicate();
    cleaned.target = "word".into();
    let result = sanitize_extraction_result(TriggerKind::Hover, Ok(decorated), Some(cleaned))
        .expect("decorated Hover word remains usable");
    assert_eq!(result.target, "word");
    assert_eq!(
        result.context.as_deref(),
        Some("Read **word,** in this sentence.")
    );
    assert_eq!(result.screen_rect, Some(ScreenRect::new(1, 2, 3, 4)));
}

#[test]
fn hover_junk_becomes_empty_range_but_selection_remains_unchanged() {
    let junk = TextContext::new("foo***bar", ExtractionSource::UiaPoint);
    assert_eq!(
        sanitize_extraction_result(TriggerKind::Hover, Ok(junk.duplicate()), None),
        Err(ExtractionFailure::EmptyRange)
    );
    assert_eq!(
        sanitize_extraction_result(TriggerKind::Selection, Ok(junk.duplicate()), None),
        Ok(junk)
    );
}

fn request(attempt: u64, trigger: TriggerKind) -> ExtractionRequest {
    ExtractionRequest {
        attempt,
        trigger,
        process_id: attempt as u32,
        source_root_window: attempt as isize,
        pointer: Some(ScreenPoint::new(attempt as i32, 10)),
        selection_rect: Some(ScreenRect::new(1, 2, 3, 4)),
    }
}

#[test]
fn mailbox_coalesces_a_burst_to_the_newest_pending_request() {
    let mut mailbox = ExtractionMailbox::new();
    for attempt in 1..=1_000 {
        assert!(mailbox.submit(request(attempt, TriggerKind::Hover)).accepted);
    }

    let pending = mailbox.pending.as_ref().expect("one pending request");
    assert_eq!(pending.attempt, 1_000);
    assert_eq!(pending.process_id, 1_000);
    assert_eq!(pending.pointer, Some(ScreenPoint::new(1_000, 10)));
}

#[test]
fn newer_work_cancels_the_active_extraction() {
    let mut mailbox = ExtractionMailbox::new();
    let first = mailbox.submit(request(1, TriggerKind::Hover));
    assert!(first.accepted);
    assert_eq!(first.cancels, None);
    let active = match mailbox.next() {
        WorkerTask::Run(active) => active,
        other => panic!("active request: {:?}", other),
    };

    let second = mailbox.submit(request(2, TriggerKind::Manual));
    assert!(second.accepted);
    assert_eq!(second.cancels, Some(active.attempt));
    mailbox.complete(active.attempt);

    match mailbox.next() {
        WorkerTask::Run(replacement) => assert_eq!(replacement.attempt, 2),
        other => panic!("replacement request: {:?}", other),
    }
    assert_eq!(mailbox.cancel(), Some(2));
}

#[test]
fn shutdown_discards_pending_work_and_wakes_the_worker() {
    let mut mailbox = ExtractionMailbox::new();
    assert!(mailbox.submit(request(1, TriggerKind::Selection)).accepted);
    mailbox.shutdown();

    assert!(matches!(mailbox.next(), WorkerTask::Stop));
    assert!(mailbox.pending.is_none());
    assert!(mailbox.active.is_none());
    assert!(mailbox.shutting_down);
    assert!(!mailbox.submit(request(2, TriggerKind::Selection)).accepted);
}

#[test]
fn extraction_falls_back_through_every_extractor() {
    let mut state = start_extraction();
    let mut asked = Vec::new();
    for _ in 0..16 {
        let extractor = match &state {
            ExtractionState::Extracting { extractor, .. } => *extractor,
            _ => break,
        };
        asked.push(extractor);
        state = extraction_step(
            job(TriggerKind::Selection),
            state,
            ExtractionEvent::Extracted(Some(Err(ExtractionFailure::UnsupportedPattern))),
            false,
        );
    }
    assert_eq!(
        asked,
        vec![
            Extractor::Uia,
            Extractor::Native,
            Extractor::Clipboard,
            Extractor::Ocr
        ]
    );
    assert!(matches!(
        state,
        ExtractionState::Finished { result: Err(_) }
    ));
}

#[test]
fn cancelled_extraction_is_abandoned() {
    let state = extraction_step(
        job(TriggerKind::Manual),
        start_extraction(),
        ExtractionEvent::Extracted(Some(Ok(TextContext::new(
            "word",
            ExtractionSource::UiaSelection,
        )))),
        true,
    );
    assert_eq!(state, ExtractionState::Abandoned);
}

#[test]
fn traces_name_the_stage_and_not_the_text() {
    let trace = extraction_stage_trace(
        Extractor::Native,
        TriggerKind::Selection,
        &Err(ExtractionFailure::PermissionDenied),
    )
    .expect("a trace");
    assert_eq!(trace.label, "selection_native_failure_permission");
    let found = Ok(TextContext::new("private words", ExtractionSource::Ocr));
    if let Some(trace) = extraction_stage_trace(Extractor::Ocr, TriggerKind::Manual, &found) {
        assert!(!trace.label.contains("private"));
    }
}

#[test]
fn streams_report_their_own_job_only() {
    assert!(stream_delta(1, 2, "x".to_owned()).is_none());
    assert_eq!(
        stream_delta(1, 1, "x".to_owned()),
        Some(PipelineEvent::Delta {
            job_id: 1,
            delta: "x".to_owned()
        })
    );
    assert!(stream_start_failure(1, true, true).is_none());
    match stream_start_failure(1, false, true) {
        Some(PipelineEvent::Finished { job_id, result }) => {
            assert_eq!(job_id, 1);
            assert!(matches!(result, Err(ProviderError::Unavailable)));
        }
        other => panic!("no failure: {:?}", other),
    }
    assert_eq!(next_attempt(u64::MAX), 0);
    assert_eq!(
        rejected_submission(request(3, TriggerKind::Hover)),
        extraction_event(request(3, TriggerKind::Hover), Err(ExtractionFailure::Platform))
    );
}

#[test]
fn finished_extraction_is_reported_under_its_own_request() {
    let finished = ExtractionState::Finished {
        result: Err(ExtractionFailure::EmptyRange),
    };
    assert_eq!(
        posted_event(request(7, TriggerKind::Selection), finished),
        Some(PipelineEvent::Extraction {
            attempt: 7,
            trigger: TriggerKind::Selection,
            process_id: 7,
            pointer: Some(ScreenPoint::new(7, 10)),
            selection_rect: Some(ScreenRect::new(1, 2, 3, 4)),
            result: Err(ExtractionFailure::EmptyRange),
        })
    );
    assert_eq!(
        posted_event(request(7, TriggerKind::Selection), ExtractionState::Abandoned),
        None
    );
}

#[test]
fn edit_controls_are_found_among_their_ancestors() {
    assert_eq!(ancestor_step(0, Some((7, true)), 7), AncestorStep::Take);
    assert_eq!(
        ancestor_step(MAX_PARENT_DEPTH, Some((7, false)), 7),
        AncestorStep::VisitParent
    );
    assert_eq!(
        ancestor_step(MAX_PARENT_DEPTH + 1, Some((7, true)), 7),
        AncestorStep::Fail(ExtractionFailure::UnsupportedPattern)
    );
    assert_eq!(
        ancestor_step(1, Some((8, true)), 7),
        AncestorStep::Fail(ExtractionFailure::StaleElement)
    );
    assert!(focused_window_usable(true, 1, 7, 7, true));
    assert!(!focused_window_usable(true, 1, 8, 7, true));
    let mut buffer: Vec<u16> = "Edit".encode_utf16().collect();
    buffer.push(0);
    assert!(is_allowed_edit_class(&buffer, 4));
    assert!(!is_allowed_edit_class(&buffer, 5));
}

#[test]
fn passwords_are_never_read() {
    assert_eq!(
        check_text_window_style(true, ES_PASSWORD),
        Err(ExtractionFailure::PermissionDenied)
    );
    assert_eq!(
        check_text_window_style(false, 0),
        Err(ExtractionFailure::UnsupportedPattern)
    );
    assert_eq!(check_password_char(Ok(0)), Ok(()));
    assert_eq!(
        check_password_char(Ok(42)),
        Err(ExtractionFailure::PermissionDenied)
    );
    assert_eq!(
        check_password_char(Err(ExtractionFailure::Platform)),
        Err(ExtractionFailure::PermissionDenied)
    );
    assert!(validate_candidate(1, 2, true).is_err());
}

#[test]
fn window_texts_are_bounded_and_whole() {
    assert_eq!(text_buffer_units(5), Ok(6));
    assert_eq!(text_buffer_units(0), Err(ExtractionFailure::EmptyRange));
    assert_eq!(
        text_buffer_units(MAX_TEXT_UNITS + 1),
        Err(ExtractionFailure::Platform)
    );
    let units: Vec<u16> = "ab\u{1F600}\0".encode_utf16().collect();
    assert_eq!(
        window_text(&units, 4, 4),
        Ok("ab\u{1F600}".to_owned())
    );
    assert_eq!(
        window_text(&units, 4, 3),
        Err(ExtractionFailure::StaleElement)
    );
    assert_eq!(message_timeout(0, 300_000_000), Ok(80));
    assert_eq!(message_timeout(9, 9), Ok(1));
    assert_eq!(message_timeout(10, 9), Err(ExtractionFailure::Platform));
    assert_eq!(check_target("", 3), Err(ExtractionFailure::EmptyRange));
    assert_eq!(check_target("abcd", 3), Err(ExtractionFailure::Platform));
    let part = selected_part("a\u{1F600}b", (1, 3), (1, 3)).expect("a part");
    assert_eq!(part.target, "\u{1F600}");
    assert_eq!(part.byte_offset, 1);
    assert!(selected_part("a\u{1F600}b", (1, 2), (1, 2)).is_err());
}

fn native_context() -> NativeContext {
    NativeContext {
        selection_rect: Some(ScreenRect::new(1, 2, 3, 4)),
        window_at_point: true,
        max_scalars: 10,
    }
}

#[test]
fn native_selection_is_read_step_by_step() {
    let mut state = start_native(
        Some(ScreenPoint::new(0, 0)),
        5,
        6,
        Some(ScreenRect::new(1, 2, 3, 4)),
        false,
    );
    assert_eq!(state, NativeState::FindFocused);
    for event in [
        NativeEvent::Window { found: false },
        NativeEvent::Window { found: true },
        NativeEvent::Range { range: Ok((2, 6)) },
        NativeEvent::Text {
            text: Ok("a word.".to_owned()),
        },
        NativeEvent::Valid { valid: Ok(()) },
        NativeEvent::Range { range: Ok((2, 6)) },
    ] {
        state = native_step(state, event, native_context(), false);
    }
    match &state {
        NativeState::Normalize { part, .. } => assert_eq!(part.target, "word"),
        other => panic!("nothing to normalize: {:?}", other),
    }
    for event in [
        NativeEvent::Normalized {
            target: "word".to_owned(),
        },
        NativeEvent::Sentence {
            sentence: Some("a word.".to_owned()),
        },
    ] {
        state = native_step(state, event, native_context(), false);
    }
    match state {
        NativeState::Done { result: Ok(text) } => {
            assert_eq!(text.target, "word");
            assert_eq!(text.context.as_deref(), Some("a word."));
            assert_eq!(text.source, ExtractionSource::UiaSelection);
        }
        other => panic!("not read: {:?}", other),
    }
}

#[test]
fn native_selection_that_moves_is_stale() {
    let state = native_step(
        NativeState::ReadRangeAgain {
            range: (0, 2),
            text: "abcd".to_owned(),
        },
        NativeEvent::Range { range: Ok((0, 3)) },
        native_context(),
        false,
    );
    assert_eq!(
        state,
        NativeState::Done {
            result: Err(ExtractionFailure::StaleElement)
        }
    );
    let cancelled = start_native(None, 5, 6, None, true);
    assert_eq!(
        cancelled,
        NativeState::Done {
            result: Err(ExtractionFailure::Platform)
        }
    );
    let own = start_native(
        Some(ScreenPoint::new(0, 0)),
        5,
        5,
        Some(ScreenRect::new(1, 2, 3, 4)),
        false,
    );
    assert_eq!(
        own,
        NativeState::Done {
            result: Err(ExtractionFailure::UnsupportedPattern)
        }
    );
}

#[test]
fn native_sentence_is_sought_from_the_first_visible_character() {
    let text = "One \u{1F600}.  \u{200B}word here.";
    let state = native_step(
        NativeState::ReadRangeAgain {
            range: (7, 14),
            text: text.to_owned(),
        },
        NativeEvent::Range {
            range: Ok((7, 14)),
        },
        native_context(),
        false,
    );
    match &state {
        NativeState::Normalize { part, .. } => {
            assert_eq!(part.target, "  \u{200B}word");
            assert_eq!(&text[part.byte_offset..], "  \u{200B}word here.");
        }
        other => panic!("nothing to normalize: {:?}", other),
    }
    let state = native_step(
        state,
        NativeEvent::Normalized {
            target: "word".to_owned(),
        },
        native_context(),
        false,
    );
    match state {
        NativeState::FindSentence {
            byte_offset,
            target,
            ..
        } => {
            assert_eq!(&text[byte_offset..], "word here.");
            assert_eq!(target, "word");
        }
        other => panic!("no sentence is sought: {:?}", other),
    }
}
