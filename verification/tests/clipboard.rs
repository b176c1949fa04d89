use selection_translate::clipboard::{
    check_copy, classify_storage, clipboard_fallback_allowed, clipboard_text, copy_inputs,
    copy_retry_allowed, foreground_source_identity, is_key_down, is_sequence_advance,
    may_have_produced_copy, modifiers_released, next_wait, read_failure, readable_units,
    release_partial_copy, response_wait, restore_next, sent_copy, should_restore,
    snapshot_budget_allows, snapshot_retry, source_identity_matches, ClipboardSignals,
    ClipboardStorage, CopyCheck, CopyEvent, CopyRun, CopySendError, CopySettle, CopyState,
    KeyEvent, ReadStep, RestoreGuard, RestoreStep, SettleStep, SnapshotFailure, SnapshotProgress,
    SnapshotStep, SourceIdentity, CF_BITMAP, CF_DSPBITMAP, CF_DSPENHMETAFILE, CF_DSPMETAFILEPICT,
    CF_ENHMETAFILE, CF_GDIOBJFIRST, CF_GDIOBJLAST, CF_METAFILEPICT, CF_OWNERDISPLAY, CF_PALETTE,
    CF_PRIVATEFIRST, CF_PRIVATELAST, CF_UNICODETEXT, COPY_ATTEMPT_TIMEOUT, INPUT_TIMEOUT,
    MAX_CLIPBOARD_UNITS, MAX_SNAPSHOT_BYTES, MAX_SNAPSHOT_FORMATS, REQUEST_TIMEOUT,
    RESTORE_TIMEOUT, SNAPSHOT_TIMEOUT, VK_C, VK_LCONTROL, WAIT_SLICE,
};
use selection_translate::extraction::{ExtractionFailure, TriggerKind};

#[test]
fn stable_single_or_multi_copy_sequence_is_restorable() {
    assert!(should_restore(41, 42, 42, Some(7), Some(7)));
    assert!(!should_restore(41, 42, 43, Some(7), Some(7)));
    assert!(should_restore(41, 43, 43, Some(7), Some(7)));
}

#[test]
fn owner_signal_must_remain_compatible() {
    assert!(should_restore(41, 43, 43, Some(7), Some(7)));
    assert!(!should_restore(41, 43, 43, Some(7), Some(8)));
    assert!(!should_restore(41, 43, 43, Some(7), None));
    assert!(!should_restore(41, 43, 43, None, Some(9)));
    assert!(should_restore(41, 43, 43, None, None));
}

#[test]
fn sequence_wraparound_is_an_advance_but_later_sequence_is_not_restored() {
    assert!(should_restore(u32::MAX, 0, 0, Some(7), Some(7)));
    assert!(!should_restore(u32::MAX, 0, 1, Some(7), Some(7)));
}

#[test]
fn newer_sequence_never_restores_even_when_owner_is_same() {
    assert!(!should_restore(41, 43, 44, Some(7), Some(7)));
}

#[test]
fn modifier_state_uses_high_bit_only() {
    assert!(is_key_down(i16::MIN));
    assert!(is_key_down(-1));
    assert!(!is_key_down(0));
    assert!(!is_key_down(i16::MAX));
}

#[test]
fn clipboard_wait_is_bounded_by_the_shared_timeout() {
    assert_eq!(SNAPSHOT_TIMEOUT, 250_000_000);
    assert!(INPUT_TIMEOUT < COPY_ATTEMPT_TIMEOUT);
    assert!(WAIT_SLICE <= COPY_ATTEMPT_TIMEOUT);
    assert!(
        REQUEST_TIMEOUT
            > SNAPSHOT_TIMEOUT
                + INPUT_TIMEOUT
                + (COPY_ATTEMPT_TIMEOUT * 2)
                + RESTORE_TIMEOUT
    );
}

#[test]
fn copy_retry_requires_same_root_process_and_original_clipboard_signals() {
    assert!(copy_retry_allowed(
        SourceIdentity {
            process_id: 42,
            root_window: 100
        },
        SourceIdentity {
            process_id: 42,
            root_window: 100
        },
        ClipboardSignals {
            sequence: 10,
            owner: Some(7)
        },
        ClipboardSignals {
            sequence: 10,
            owner: Some(7)
        },
    ));
    assert!(copy_retry_allowed(
        SourceIdentity {
            process_id: 0,
            root_window: 0
        },
        SourceIdentity {
            process_id: 99,
            root_window: 777
        },
        ClipboardSignals {
            sequence: 10,
            owner: None
        },
        ClipboardSignals {
            sequence: 10,
            owner: None
        },
    ));
    assert!(!copy_retry_allowed(
        SourceIdentity {
            process_id: 42,
            root_window: 100
        },
        SourceIdentity {
            process_id: 99,
            root_window: 101
        },
        ClipboardSignals {
            sequence: 10,
            owner: Some(7)
        },
        ClipboardSignals {
            sequence: 10,
            owner: Some(7)
        },
    ));
    assert!(!copy_retry_allowed(
        SourceIdentity {
            process_id: 42,
            root_window: 100
        },
        SourceIdentity {
            process_id: 42,
            root_window: 101
        },
        ClipboardSignals {
            sequence: 10,
            owner: Some(7)
        },
        ClipboardSignals {
            sequence: 10,
            owner: Some(7)
        },
    ));
    assert!(!copy_retry_allowed(
        SourceIdentity {
            process_id: 42,
            root_window: 100
        },
        SourceIdentity {
            process_id: 42,
            root_window: 100
        },
        ClipboardSignals {
            sequence: 10,
            owner: Some(7)
        },
        ClipboardSignals {
            sequence: 11,
            owner: Some(7)
        },
    ));
    assert!(!copy_retry_allowed(
        SourceIdentity {
            process_id: 42,
            root_window: 100
        },
        SourceIdentity {
            process_id: 42,
            root_window: 100
        },
        ClipboardSignals {
            sequence: 10,
            owner: Some(7)
        },
        ClipboardSignals {
            sequence: 10,
            owner: Some(8)
        },
    ));
    assert!(!copy_retry_allowed(
        SourceIdentity {
            process_id: 42,
            root_window: 100
        },
        SourceIdentity {
            process_id: 42,
            root_window: 100
        },
        ClipboardSignals {
            sequence: 10,
            owner: Some(7)
        },
        ClipboardSignals {
            sequence: 10,
            owner: None
        },
    ));
}

#[test]
fn root_guard_is_primary_and_zero_is_only_generic_wildcard() {
    assert!(source_identity_matches(
        SourceIdentity {
            process_id: 42,
            root_window: 100
        },
        SourceIdentity {
            process_id: 99,
            root_window: 100
        },
    ));
    assert!(!source_identity_matches(
        SourceIdentity {
            process_id: 42,
            root_window: 100
        },
        SourceIdentity {
            process_id: 42,
            root_window: 101
        },
    ));
    assert!(source_identity_matches(
        SourceIdentity {
            process_id: 42,
            root_window: 0
        },
        SourceIdentity {
            process_id: 42,
            root_window: 99
        },
    ));
    assert!(!source_identity_matches(
        SourceIdentity {
            process_id: 42,
            root_window: 0
        },
        SourceIdentity {
            process_id: 99,
            root_window: 99
        },
    ));
    assert!(source_identity_matches(
        SourceIdentity {
            process_id: 0,
            root_window: 0
        },
        SourceIdentity {
            process_id: 99,
            root_window: 99
        },
    ));
}

#[test]
fn no_input_failure_never_qualifies_for_clipboard_observation() {
    assert!(!may_have_produced_copy(&CopySendError::NoInput(
        ExtractionFailure::PermissionDenied,
    )));
    assert!(may_have_produced_copy(&CopySendError::MayHaveCopied(
        ExtractionFailure::PermissionDenied,
    )));
}

#[test]
fn clipboard_fallback_allows_manual_and_selection_but_not_hover() {
    assert!(clipboard_fallback_allowed(TriggerKind::Selection));
    assert!(clipboard_fallback_allowed(TriggerKind::Manual));
    assert!(!clipboard_fallback_allowed(TriggerKind::Hover));
}

#[test]
fn clipboard_storage_classification_is_fail_closed() {
    assert_eq!(
        classify_storage(CF_UNICODETEXT),
        ClipboardStorage::HGlobal
    );
    assert_eq!(classify_storage(0xc001), ClipboardStorage::HGlobal);

    for format in [
        CF_BITMAP,
        CF_METAFILEPICT,
        CF_PALETTE,
        CF_ENHMETAFILE,
        CF_OWNERDISPLAY,
        CF_DSPBITMAP,
        CF_DSPMETAFILEPICT,
        CF_DSPENHMETAFILE,
        CF_PRIVATEFIRST,
        CF_PRIVATELAST,
        CF_GDIOBJFIRST,
        CF_GDIOBJLAST,
    ] {
        assert_eq!(classify_storage(format), ClipboardStorage::Unsupported);
    }
}

#[test]
fn clipboard_snapshot_budget_is_bounded_and_overflow_safe() {
    assert!(snapshot_budget_allows(0, 0, 1));
    assert!(snapshot_budget_allows(
        MAX_SNAPSHOT_FORMATS - 1,
        0,
        MAX_SNAPSHOT_BYTES
    ));
    assert!(!snapshot_budget_allows(MAX_SNAPSHOT_FORMATS, 0, 1));
    assert!(!snapshot_budget_allows(0, 0, 0));
    assert!(!snapshot_budget_allows(0, MAX_SNAPSHOT_BYTES, 1));
    assert!(!snapshot_budget_allows(0, usize::MAX, 2));
}

const SOURCE: SourceIdentity = SourceIdentity {
    process_id: 42,
    root_window: 100,
};

fn signals(sequence: u32, owner: isize) -> ClipboardSignals {
    ClipboardSignals {
        sequence,
        owner: Some(owner),
    }
}

#[test]
fn sequence_advances_by_any_change() {
    assert!(is_sequence_advance(41, 42));
    assert!(!is_sequence_advance(41, 41));
}

#[test]
fn missing_foreground_has_no_identity() {
    assert_eq!(
        foreground_source_identity(0, 7, 9),
        SourceIdentity {
            process_id: 0,
            root_window: 0
        }
    );
    assert_eq!(
        foreground_source_identity(5, 7, 9),
        SourceIdentity {
            process_id: 7,
            root_window: 9
        }
    );
}

#[test]
fn waits_are_cut_into_slices() {
    assert_eq!(next_wait(0, WAIT_SLICE * 3), Some(WAIT_SLICE));
    assert_eq!(next_wait(5, 9), Some(4));
    assert_eq!(next_wait(10, 9), None);
}

#[test]
fn copy_settles_once_the_sequence_stands_still() {
    let mut settle = CopySettle::begin(7, 0, COPY_ATTEMPT_TIMEOUT);
    assert_eq!(settle.observe(8, 1), SettleStep::Again);
    assert!(matches!(settle.observe(8, 2), SettleStep::Sleep(_)));
    assert_eq!(
        settle.observe(8, COPY_ATTEMPT_TIMEOUT),
        SettleStep::Settled
    );
}

#[test]
fn copy_presses_and_releases_both_keys() {
    assert_eq!(
        copy_inputs(),
        vec![
            KeyEvent {
                key: VK_LCONTROL,
                up: false
            },
            KeyEvent {
                key: VK_C,
                up: false
            },
            KeyEvent {
                key: VK_C,
                up: true
            },
            KeyEvent {
                key: VK_LCONTROL,
                up: true
            },
        ]
    );
}

#[test]
fn partial_copy_releases_what_is_still_down() {
    for sent in 0..=4 {
        let mut down: Vec<u16> = Vec::new();
        let inputs = copy_inputs();
        for event in inputs.iter().take(sent) {
            if event.up {
                down.retain(|key| *key != event.key);
            } else {
                down.push(event.key);
            }
        }
        for event in release_partial_copy(sent) {
            assert!(event.up);
            down.retain(|key| *key != event.key);
        }
        assert!(down.is_empty());
    }
}

#[test]
fn modifiers_must_all_be_up() {
    assert!(modifiers_released(&[0, 1, i16::MAX]));
    assert!(!modifiers_released(&[0, i16::MIN]));
}

#[test]
fn copy_is_checked_before_it_is_sent() {
    let check = CopyCheck {
        modifiers_released: true,
        actual: SOURCE,
        signals: signals(10, 7),
    };
    assert_eq!(check_copy(SOURCE, None, check), Ok(()));
    assert_eq!(check_copy(SOURCE, Some(signals(10, 7)), check), Ok(()));
    assert!(check_copy(SOURCE, Some(signals(11, 7)), check).is_err());
    let held = CopyCheck {
        modifiers_released: false,
        ..check
    };
    assert!(matches!(
        check_copy(SOURCE, None, held),
        Err(CopySendError::NoInput(_))
    ));
    let elsewhere = CopyCheck {
        actual: SourceIdentity {
            process_id: 42,
            root_window: 101,
        },
        ..check
    };
    assert!(matches!(
        check_copy(SOURCE, None, elsewhere),
        Err(CopySendError::NoInput(_))
    ));
}

#[test]
fn sent_events_tell_whether_a_copy_may_have_happened() {
    assert_eq!(sent_copy(4), Ok(()));
    assert!(matches!(sent_copy(0), Err(CopySendError::NoInput(_))));
    assert!(matches!(sent_copy(3), Err(CopySendError::MayHaveCopied(_))));
}

#[test]
fn snapshot_takes_every_format_and_notices_a_change() {
    let mut progress = SnapshotProgress::begin(5);
    assert_eq!(progress.current(), 0);
    assert_eq!(
        progress.enumerated(true, CF_UNICODETEXT, 0),
        SnapshotStep::Clone(CF_UNICODETEXT)
    );
    assert_eq!(progress.admits(Some(10)), Ok(()));
    assert!(progress.admits(None).is_err());
    assert_eq!(progress.cloned(CF_UNICODETEXT, 10, true), Ok(()));
    assert_eq!(progress.total_bytes, 10);
    assert_eq!(progress.current(), CF_UNICODETEXT);
    assert_eq!(progress.enumerated(true, 0, 0), SnapshotStep::Complete);
    assert_eq!(progress.finish(true, signals(5, 1)), Ok(signals(5, 1)));
    assert_eq!(
        progress.finish(true, signals(6, 1)),
        Err(SnapshotFailure::Changed)
    );
    assert!(matches!(
        progress.enumerated(true, CF_BITMAP, 0),
        SnapshotStep::Fail(SnapshotFailure::Unsafe)
    ));
}

#[test]
fn only_a_changed_clipboard_is_snapshot_again() {
    assert!(snapshot_retry(SnapshotFailure::Changed, 0, SNAPSHOT_TIMEOUT).is_ok());
    assert!(snapshot_retry(SnapshotFailure::Unsafe, 0, SNAPSHOT_TIMEOUT).is_err());
    assert!(snapshot_retry(SnapshotFailure::Changed, 2, 1).is_err());
}

#[test]
fn clipboard_text_ends_at_its_terminator() {
    let mut units: Vec<u16> = "copied 😀".encode_utf16().collect();
    units.push(0);
    units.push(0x41);
    assert_eq!(clipboard_text(&units), Ok("copied 😀".to_owned()));
    assert_eq!(readable_units(8), Ok(4));
    assert_eq!(readable_units(1), Err(ExtractionFailure::EmptyRange));
    assert_eq!(
        readable_units(MAX_CLIPBOARD_UNITS * 2 + 2),
        Ok(MAX_CLIPBOARD_UNITS)
    );
    assert_eq!(
        read_failure(ReadStep::FindFormat),
        ExtractionFailure::EmptyRange
    );
}

#[test]
fn copy_is_tried_twice_and_restored_once_seen() {
    let original = signals(10, 7);
    let mut run = CopyRun::begin(SOURCE, original);
    assert_eq!(run.unchanged_since(), None);
    run = run.step(CopyEvent::Sent(Ok(())));
    assert_eq!(run.state, CopyState::Settle { second: false });
    run = run.step(CopyEvent::Settled {
        copy: None,
        actual: SOURCE,
        current: original,
    });
    assert_eq!(run.state, CopyState::Send { second: true });
    assert_eq!(run.unchanged_since(), Some(original));
    run = run.step(CopyEvent::Sent(Ok(())));
    run = run.step(CopyEvent::Settled {
        copy: Some(signals(11, 8)),
        actual: SOURCE,
        current: signals(11, 8),
    });
    assert_eq!(run.state, CopyState::Read);
    assert!(run.guard.restore_now(signals(11, 8)));
    assert!(!run.guard.restore_now(signals(12, 8)));
    run = run.step(CopyEvent::Text(Ok("text".to_owned())));
    match run.state {
        CopyState::Finished(Ok(text)) => assert_eq!(text.target, "text"),
        other => panic!("not finished: {:?}", other),
    }
}

#[test]
fn restoring_goes_through_every_step() {
    let mut guard = RestoreGuard {
        original: signals(1, 1),
        copy: None,
    };
    assert!(!guard.restore_now(signals(1, 1)));
    guard.observe_copy(signals(2, 2));
    assert!(guard.restore_now(signals(2, 2)));
    let mut step = RestoreStep::CreateOwner;
    let mut steps = 0;
    while step != RestoreStep::Done {
        step = restore_next(step, true);
        steps += 1;
    }
    assert_eq!(steps, 5);
    assert_eq!(
        restore_next(RestoreStep::Revalidate, false),
        RestoreStep::Done
    );
}

#[test]
fn response_is_waited_for_until_cancelled_or_late() {
    assert!(response_wait(false, 0, REQUEST_TIMEOUT).is_ok());
    assert!(response_wait(true, 0, REQUEST_TIMEOUT).is_err());
    assert!(response_wait(false, REQUEST_TIMEOUT + 1, REQUEST_TIMEOUT).is_err());
}
