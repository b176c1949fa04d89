use selection_translate::capture::{
    capture_step, checked_capture_len, clamp_rect, finish_capture, inflate_rect, monitor_dpi,
    nearest_work_area, plan_capture, virtual_screen_bounds, CaptureNext, CaptureStep, GdiHandle,
    DEFAULT_DPI, MAX_CAPTURE_BYTES, MAX_CAPTURE_DIMENSION,
};
use selection_translate::config_reload::{
    filled_bytes, notification_mentions_file, watch_step, WatchEvent, WatchState,
    FILE_ACTION_ADDED, FILE_ACTION_MODIFIED, FILE_ACTION_REMOVED,
};
use selection_translate::credentials::{
    delete_api_key, deleted_api_key, read_api_key, stored_api_key, validate_secret,
    validate_target, write_api_key, written_api_key, CredentialError, CredentialReply,
};
use selection_translate::extraction::ExtractionFailure;
use selection_translate::geometry::ScreenRect;
use selection_translate::text::{
    blank, is_whitespace, parse_u32, push_decimal, push_signed_decimal, same_ignoring_case,
    split_text, to_lower, to_upper, trimmed,
};
use selection_translate::utf16::{text_of_utf16, text_of_utf16_lossy, utf16_units, wide};
use selection_translate::win32::{hresult_from_win32, ERROR_NOT_FOUND};

#[test]
fn inflate_and_clamp_handles_negative_virtual_coordinates() {
    let inflated = inflate_rect(ScreenRect::new(-10, -5, 10, 5), 16);
    assert_eq!(inflated, ScreenRect::new(-26, -21, 26, 21));
    assert_eq!(
        clamp_rect(inflated, ScreenRect::new(-20, -10, 20, 10)),
        Some(ScreenRect::new(-20, -10, 20, 10))
    );
}

#[test]
fn empty_intersection_is_rejected() {
    assert_eq!(
        clamp_rect(ScreenRect::new(0, 0, 1, 1), ScreenRect::new(2, 2, 3, 3)),
        None
    );
}

#[test]
fn cross_monitor_capture_is_clamped_to_the_virtual_desktop_union() {
    let virtual_desktop = ScreenRect::new(-1920, 0, 3840, 2160);
    assert_eq!(
        clamp_rect(ScreenRect::new(-100, 100, 100, 300), virtual_desktop),
        Some(ScreenRect::new(-100, 100, 100, 300))
    );
}

#[test]
fn capture_allocation_is_checked_and_bounded() {
    assert_eq!(checked_capture_len(2, 3), Some(24));
    assert_eq!(checked_capture_len(0, 1), None);
    assert_eq!(checked_capture_len(8_193, 1), None);
    assert_eq!(checked_capture_len(8_192, 8_192), None);
}

fn notification(action: u32, name: &str, next: u32) -> Vec<u8> {
    let encoded: Vec<u16> = name.encode_utf16().collect();
    let record_len = 12 + encoded.len() * 2;
    let mut bytes = vec![0_u8; record_len];
    bytes[0..4].copy_from_slice(&next.to_ne_bytes());
    bytes[4..8].copy_from_slice(&action.to_ne_bytes());
    bytes[8..12].copy_from_slice(&(encoded.len() as u32 * 2).to_ne_bytes());
    for (index, value) in encoded.iter().enumerate() {
        bytes[12 + index * 2..14 + index * 2].copy_from_slice(&value.to_ne_bytes());
    }
    bytes
}

#[test]
fn notification_parser_matches_only_config_file_changes() {
    let changed = notification(FILE_ACTION_MODIFIED, "config.toml", 0);
    assert!(notification_mentions_file(&changed, "config.toml"));

    let unrelated = notification(FILE_ACTION_MODIFIED, "other.toml", 0);
    assert!(!notification_mentions_file(&unrelated, "config.toml"));

    let added = notification(FILE_ACTION_ADDED, "CONFIG.TOML", 0);
    assert!(notification_mentions_file(&added, "config.toml"));
}

#[test]
fn notification_parser_rejects_truncated_name() {
    let mut malformed = notification(FILE_ACTION_MODIFIED, "config.toml", 0);
    malformed[8..12].copy_from_slice(&200_u32.to_ne_bytes());
    assert!(!notification_mentions_file(&malformed, "config.toml"));
}

#[test]
fn rejects_invalid_inputs_before_touching_the_store() {
    assert!(matches!(
        write_api_key("", "secret"),
        Err(CredentialError::InvalidInput("target is empty"))
    ));
    assert!(matches!(
        write_api_key("target", ""),
        Err(CredentialError::InvalidInput("secret is empty"))
    ));
    assert!(matches!(
        write_api_key("target\0suffix", "secret"),
        Err(CredentialError::InvalidInput("target contains NUL"))
    ));
    assert!(matches!(
        write_api_key("target", "secret\0suffix"),
        Err(CredentialError::InvalidInput("secret contains NUL"))
    ));
}

#[test]
fn diagnostics_do_not_include_secret_material() {
    let error = CredentialError::InvalidInput("secret is empty");
    assert!(!error.message().contains("api-key-value"));
}

#[test]
fn capture_is_planned_within_the_desktop() {
    let desktop = virtual_screen_bounds(-100, 0, 300, 200);
    assert_eq!(desktop, ScreenRect::new(-100, 0, 200, 200));
    let plan = plan_capture(ScreenRect::new(-200, 10, -90, 20), desktop).expect("plan");
    assert_eq!(plan.rect, ScreenRect::new(-100, 10, -90, 20));
    assert_eq!((plan.width, plan.height, plan.buffer_len), (10, 10, 400));
    assert!(plan_capture(ScreenRect::new(500, 500, 600, 600), desktop).is_err());
}

#[test]
fn capture_releases_every_handle_it_took() {
    let mut step = CaptureStep::AcquireScreenDc;
    let mut performed = 0;
    loop {
        match capture_step(step, true) {
            CaptureNext::Perform(next) => {
                step = next;
                performed += 1;
            }
            CaptureNext::Finish { release, captured } => {
                assert!(captured);
                assert_eq!(release.len(), 3);
                break;
            }
        }
    }
    assert_eq!(performed, 6);
    match capture_step(CaptureStep::CreateBitmap, false) {
        CaptureNext::Finish { release, captured } => {
            assert!(!captured);
            assert!(release.contains(&GdiHandle::ScreenDc));
            assert!(release.contains(&GdiHandle::MemoryDc));
            assert!(!release.contains(&GdiHandle::Bitmap));
        }
        CaptureNext::Perform(next) => panic!("went on with {:?}", next),
    }
}

#[test]
fn capture_without_pixels_is_a_failure() {
    let desktop = ScreenRect::new(0, 0, 10, 10);
    let plan = plan_capture(ScreenRect::new(0, 0, 2, 3), desktop).expect("plan");
    let pixels = finish_capture(plan, true, vec![9; 24]).expect("pixels");
    assert_eq!((pixels.width, pixels.height, pixels.bgra.len()), (2, 3, 24));
    let plan = plan_capture(ScreenRect::new(0, 0, 2, 3), desktop).expect("plan");
    assert_eq!(
        finish_capture(plan, false, vec![0; 24]).unwrap_err(),
        ExtractionFailure::Platform
    );
}

#[test]
fn capture_limits_and_defaults() {
    assert_eq!(
        checked_capture_len(MAX_CAPTURE_DIMENSION, 1),
        Some(MAX_CAPTURE_DIMENSION as usize * 4)
    );
    assert!(checked_capture_len(4096, 4096).map_or(true, |len| len <= MAX_CAPTURE_BYTES));
    assert_eq!(monitor_dpi(None), DEFAULT_DPI);
    assert_eq!(monitor_dpi(Some(144)), 144);
    assert_eq!(
        nearest_work_area(Some(ScreenRect::new(1, 2, 3, 4))),
        ScreenRect::new(1, 2, 3, 4)
    );
}

#[test]
fn notifications_are_walked_and_old_names_left_out() {
    let removed = notification(FILE_ACTION_REMOVED, "config.toml", 0);
    assert!(notification_mentions_file(&removed, "config.toml"));
    let renamed_away = notification(4, "config.toml", 0);
    assert!(!notification_mentions_file(&renamed_away, "config.toml"));
    let mut two = notification(FILE_ACTION_MODIFIED, "a.toml", 24);
    two.extend(notification(FILE_ACTION_MODIFIED, "config.toml", 0));
    assert!(notification_mentions_file(&two, "config.toml"));
    assert!(!notification_mentions_file(&[], "config.toml"));
}

#[test]
fn watcher_keeps_one_read_outstanding() {
    let state = watch_step(WatchState::PollStop, WatchEvent::StopRequested(false));
    assert_eq!(state, WatchState::IssueRead);
    let state = watch_step(state, WatchEvent::Io(Ok(())));
    assert_eq!(state, WatchState::AwaitRead);
    let state = watch_step(
        state,
        WatchEvent::ReadCompleted {
            mentions_file: true,
        },
    );
    assert_eq!(state, WatchState::Publish);
    assert_eq!(
        watch_step(state, WatchEvent::Published(true)),
        WatchState::PollStop
    );
    assert_eq!(
        watch_step(
            WatchState::PollStopWhileReading,
            WatchEvent::StopRequested(true)
        ),
        WatchState::CancelRead
    );
    assert_eq!(filled_bytes(100, 16), 16);
    assert_eq!(filled_bytes(7, 16), 7);
}

#[test]
fn stored_key_reads_back_what_was_written() {
    let secret = "sk-\u{e9}\u{1F600}";
    let request = write_api_key("target", secret).expect("valid request");
    assert_eq!(request.target, wide("target"));
    let reply = CredentialReply::Found {
        blob: Some(request.blob),
    };
    assert_eq!(stored_api_key(reply), Ok(Some(secret.to_owned())));
}

#[test]
fn stored_bytes_that_are_no_text_are_refused() {
    let reply = CredentialReply::Found {
        blob: Some(vec![0x66, 0xff, 0xfe]),
    };
    assert_eq!(
        stored_api_key(reply),
        Err(CredentialError::InvalidStoredValue)
    );
    assert_eq!(
        stored_api_key(CredentialReply::Found { blob: None }),
        Err(CredentialError::InvalidStoredValue)
    );
    assert!(matches!(
        stored_api_key(CredentialReply::Nothing),
        Err(CredentialError::Platform { .. })
    ));
}

#[test]
fn missing_credential_is_no_error() {
    for code in [ERROR_NOT_FOUND as i32, hresult_from_win32(ERROR_NOT_FOUND)] {
        assert_eq!(stored_api_key(CredentialReply::Failed { code }), Ok(None));
        assert_eq!(deleted_api_key(Err(code)), Ok(()));
    }
    let error = stored_api_key(CredentialReply::Failed { code: 5 }).unwrap_err();
    assert_eq!(error.message(), "credential operation read failed (5)");
    assert!(deleted_api_key(Err(5)).is_err());
    assert!(written_api_key(Err(ERROR_NOT_FOUND as i32)).is_err());
    assert_eq!(written_api_key(Ok(())), Ok(()));
}

#[test]
fn targets_and_secrets_are_bounded() {
    assert_eq!(validate_target(&"t".repeat(511)), Ok(()));
    assert!(validate_target(&"t".repeat(513)).is_err());
    assert_eq!(validate_secret("s"), Ok(()));
    assert!(validate_secret(&"s".repeat(5000)).is_err());
    assert!(read_api_key("").is_err());
    assert_eq!(delete_api_key("t"), Ok(wide("t")));
}

#[test]
fn whitespace_agrees_with_the_standard_library() {
    for code in 0..=0x10_ffff_u32 {
        if let Some(ch) = char::from_u32(code) {
            assert_eq!(is_whitespace(ch), ch.is_whitespace());
        }
    }
}

#[test]
fn texts_are_trimmed_split_and_compared() {
    assert_eq!(trimmed(" \u{3000}a b\n"), "a b");
    assert!(blank("\t \u{2003}"));
    assert!(!blank("\u{200b}"));
    assert_eq!(split_text("a+b++c", '+'), vec!["a", "b", "", "c"]);
    assert_eq!(to_lower("AbC\u{c9}"), "abc\u{c9}");
    assert_eq!(to_upper("abC\u{e9}"), "ABC\u{e9}");
    assert!(same_ignoring_case("Config.TOML", "config.toml"));
}

#[test]
fn numbers_are_written_and_read() {
    let mut text = String::new();
    push_decimal(&mut text, 0);
    push_decimal(&mut text, u64::MAX);
    assert_eq!(text, "018446744073709551615");
    let mut text = String::new();
    push_signed_decimal(&mut text, i64::MIN);
    assert_eq!(text, "-9223372036854775808");
    for value in ["0", "+7", "4294967295", "4294967296", "", "+", "-1", "1 "] {
        assert_eq!(parse_u32(value), value.parse::<u32>().ok());
    }
}

#[test]
fn utf16_round_trips_and_rejects_lone_surrogates() {
    let text = "a\u{e9}\u{1F600}\u{10FFFF}";
    let expected: Vec<u16> = text.encode_utf16().collect();
    assert_eq!(utf16_units(text), expected);
    assert_eq!(text_of_utf16(&expected), Some(text.to_owned()));
    let broken = [0x61, 0xd800, 0x62, 0xdc00, 0xd83d, 0xde00];
    assert_eq!(text_of_utf16(&broken), None);
    assert_eq!(
        text_of_utf16_lossy(&broken),
        String::from_utf16_lossy(&broken)
    );
}
