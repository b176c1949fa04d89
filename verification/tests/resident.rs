use selection_translate::credentials::CredentialError;
use selection_translate::extraction::ExtractionSource;
use selection_translate::history_writer::{
    batch_persisted, next_batch, CompletedEntry, HistoryMessage, WRITE_BATCH_CAPACITY,
};
use selection_translate::provider::{
    check_provider, config_error, environment_key, keep_polling, map_provider_error,
    provider_error, provider_status, resolve_key, setting_or, startup_error, stream_admitted,
    stream_outcome, ConfigFile, OpenAiError, ProviderError, StreamPoll,
};
use selection_translate::resident::{
    ensure_resident_running, message_loop_step, notify_config_changed,
    notify_credentials_changed, resident_ready, resident_response, run,
    show_resident_startup_failure, startup_step, wait_for_resident, DiagnosticIcon, LoopStep,
    RefreshOutcome, ResidentDiagnostic, ResidentStartOutcome, RuntimeGuard, RuntimeService,
    StartReport, StartStep, StartupNext, StartupReport, StartupStep, WaitStep, ACK_READY,
    ACK_REFRESHED,
};
use selection_translate::shutdown::{
    join_step, JoinStep, EXTRACTION_SHUTDOWN_BUDGET, EXTRACTOR_SHUTDOWN_BUDGET,
    HISTORY_SHUTDOWN_BUDGET, JOIN_POLL_INTERVAL,
};
use std::collections::VecDeque;

#[test]
fn maps_provider_categories_without_preserving_sensitive_details() {
    let cases = [
        (
            OpenAiError::InvalidConfiguration("api_key"),
            ProviderError::Configuration,
        ),
        (OpenAiError::HttpStatus(401), ProviderError::Authentication),
        (OpenAiError::HttpStatus(403), ProviderError::Authentication),
        (
            OpenAiError::HttpStatus(503),
            ProviderError::HttpStatus(503),
        ),
        (OpenAiError::RateLimited, ProviderError::RateLimited),
        (OpenAiError::Dns, ProviderError::Dns),
        (OpenAiError::Tls, ProviderError::Tls),
        (OpenAiError::Timeout, ProviderError::Timeout),
        (OpenAiError::Transport, ProviderError::Transport),
        (
            OpenAiError::MalformedJson,
            ProviderError::MalformedResponse,
        ),
        (
            OpenAiError::IncompleteResponse,
            ProviderError::IncompleteResponse,
        ),
        (
            OpenAiError::ResponseTooLarge,
            ProviderError::ResponseTooLarge,
        ),
        (OpenAiError::Cancelled, ProviderError::Cancelled),
    ];
    for (source, expected) in cases {
        assert_eq!(map_provider_error(source), expected);
    }
}

#[test]
fn unsupported_platform_is_not_reported_as_a_provider_response_error() {
    assert_eq!(
        map_provider_error(OpenAiError::UnsupportedPlatform),
        ProviderError::Unavailable
    );
}

#[test]
fn every_provider_error_has_words() {
    for error in [
        ProviderError::Cancelled,
        ProviderError::Configuration,
        ProviderError::Authentication,
        ProviderError::HttpStatus(503),
        ProviderError::RateLimited,
        ProviderError::Dns,
        ProviderError::Tls,
        ProviderError::Timeout,
        ProviderError::Transport,
        ProviderError::MalformedResponse,
        ProviderError::IncompleteResponse,
        ProviderError::ResponseTooLarge,
        ProviderError::Unavailable,
        ProviderError::InvalidResponse,
    ] {
        assert!(!provider_error(&error).is_empty());
    }
    assert!(provider_error(&ProviderError::HttpStatus(503)).contains("503"));
    assert_eq!(
        provider_error(&ProviderError::Local("local words".to_owned())),
        "Provider request failed"
    );
}

#[test]
fn streams_end_with_their_outcome() {
    assert_eq!(stream_admitted(false, true), Ok(()));
    assert_eq!(stream_admitted(true, true), Err(ProviderError::Cancelled));
    assert!(stream_admitted(false, false).is_err());
    assert!(keep_polling(StreamPoll::Delta));
    assert!(keep_polling(StreamPoll::Quiet { finished: false }));
    assert!(!keep_polling(StreamPoll::Quiet { finished: true }));
    assert!(!keep_polling(StreamPoll::Disconnected));
    assert_eq!(stream_outcome(Some(Ok(())), false), Ok(()));
    assert_eq!(
        stream_outcome(Some(Err(OpenAiError::Timeout)), false),
        Err(ProviderError::Timeout)
    );
    assert_eq!(
        stream_outcome(Some(Ok(())), true),
        Err(ProviderError::Cancelled)
    );
}

#[test]
fn environment_key_has_precedence_over_the_store() {
    assert_eq!(setting_or(Some("env".to_owned()), "file"), "env");
    assert_eq!(setting_or(None, "file"), "file");
    assert_eq!(
        environment_key(None, Some("second".to_owned())),
        Some("second".to_owned())
    );
    assert_eq!(
        environment_key(Some("first".to_owned()), Some("second".to_owned())),
        Some("first".to_owned())
    );
    assert_eq!(
        environment_key(Some(" ".to_owned()), Some("second".to_owned())),
        Some("second".to_owned())
    );
    assert_eq!(
        environment_key(Some(" ".to_owned()), Some("\t".to_owned())),
        None
    );
    assert_eq!(environment_key(Some(String::new()), None), None);
    assert_eq!(environment_key(None, None), None);
    let lookup = resolve_key(
        Some("env".to_owned()),
        Err(CredentialError::InvalidStoredValue),
    );
    assert_eq!(lookup.key, Some("env".to_owned()));
    assert!(!lookup.store_failed);
    assert_eq!(check_provider(&lookup, true), None);
    let lookup = resolve_key(None, Err(CredentialError::InvalidStoredValue));
    assert_eq!(lookup.key, None);
    assert!(lookup.store_failed);
    assert!(check_provider(&lookup, true).is_some());
    assert_eq!(
        check_provider(&lookup, true),
        Some("Credential storage is unavailable")
    );
    assert_eq!(
        check_provider(&resolve_key(None, Ok(None)), true),
        Some("OpenAI API key is not configured")
    );
    let lookup = resolve_key(None, Ok(Some("stored".to_owned())));
    assert_eq!(lookup.key, Some("stored".to_owned()));
    assert!(check_provider(&lookup, false).is_some());
}

#[test]
fn faults_of_the_provider_are_reported_before_those_of_the_file() {
    assert!(provider_status(None, true).usable);
    assert!(provider_status(None, false).error.is_some());
    assert_eq!(config_error(ConfigFile::Absent), None);
    assert_eq!(config_error(ConfigFile::Loaded), None);
    assert_eq!(
        config_error(ConfigFile::Invalid),
        Some("Configuration file is invalid")
    );
    assert_eq!(
        startup_error(None, Some("Configuration file is invalid")),
        Some("Configuration file is invalid")
    );
    assert_eq!(startup_error(None, None), None);
}

fn entry(number: u64) -> CompletedEntry {
    let minute = (number / 60) % 60;
    let second = number % 60;
    CompletedEntry {
        created_at_utc: format!("2026-08-19T00:{minute:02}:{second:02}Z"),
        source: ExtractionSource::UiaSelection,
        target: format!("target-{number}"),
        context: Some("sentence context".to_owned()),
        output: format!("output-{number}"),
        prompt_id: "translate".to_owned(),
        model: "test-model".to_owned(),
        served_from_cache: false,
    }
}

#[test]
fn burst_admission_is_lossless_and_nonblocking() {
    let mut queue: VecDeque<HistoryMessage> = VecDeque::new();
    for number in 0..1_088 {
        queue.push_back(HistoryMessage::Entry(entry(number)));
    }
    queue.push_back(HistoryMessage::Flush(1));
    let mut written = Vec::new();
    let mut flushed = Vec::new();
    while let Some(batch) = next_batch(&mut queue) {
        assert!(batch.entries.len() <= WRITE_BATCH_CAPACITY);
        assert!(batch_persisted(&batch, true));
        written.extend(batch.entries.into_iter().map(|entry| entry.target));
        flushed.extend(batch.flushes);
    }
    assert_eq!(written.len(), 1_088);
    for (number, target) in written.iter().enumerate() {
        assert_eq!(*target, format!("target-{number}"));
    }
    assert_eq!(flushed, vec![1]);
}

#[test]
fn resident_is_launched_only_without_another() {
    let ok = StartReport {
        succeeded: true,
        mutex_present: false,
    };
    let no = StartReport {
        succeeded: false,
        mutex_present: false,
    };
    let starting = StartReport {
        succeeded: false,
        mutex_present: true,
    };
    assert_eq!(
        ensure_resident_running(StartStep::Probe, ok),
        StartStep::Done(ResidentStartOutcome::AlreadyRunning)
    );
    assert_eq!(
        ensure_resident_running(StartStep::Probe, no),
        StartStep::Lock
    );
    assert_eq!(
        ensure_resident_running(StartStep::Lock, ok),
        StartStep::Inspect
    );
    assert_eq!(
        ensure_resident_running(StartStep::Inspect, no),
        StartStep::Launch
    );
    assert_eq!(
        ensure_resident_running(StartStep::Inspect, starting),
        StartStep::Wait { launched: false }
    );
    assert_eq!(
        ensure_resident_running(StartStep::Launch, ok),
        StartStep::Wait { launched: true }
    );
    assert_eq!(
        ensure_resident_running(StartStep::Wait { launched: true }, ok),
        StartStep::Done(ResidentStartOutcome::Started)
    );
    assert_eq!(
        ensure_resident_running(StartStep::Wait { launched: true }, no),
        StartStep::Done(ResidentStartOutcome::Unavailable)
    );
    assert_eq!(wait_for_resident(true, true, 9, 1), WaitStep::Ready);
    assert_eq!(wait_for_resident(false, true, 0, 1), WaitStep::GiveUp);
    assert_eq!(wait_for_resident(false, false, 0, 1), WaitStep::Sleep);
}

#[test]
fn acknowledgements_are_never_assumed() {
    assert_eq!(
        resident_response(false, Some(ACK_REFRESHED)),
        Err(RefreshOutcome::ResidentAbsent)
    );
    assert_eq!(
        notify_config_changed(true, Some(ACK_REFRESHED)),
        RefreshOutcome::Acknowledged
    );
    assert_eq!(
        notify_credentials_changed(true, None),
        RefreshOutcome::Unacknowledged
    );
    assert!(resident_ready(true, Some(ACK_READY)));
    assert!(!resident_ready(true, Some(ACK_REFRESHED)));
    assert!(!resident_ready(false, Some(ACK_READY)));
}

#[test]
fn services_are_released_in_reverse_order() {
    let guard = RuntimeGuard::initialize(true, true).expect("both services");
    assert_eq!(
        guard.release(),
        vec![RuntimeService::WinRt, RuntimeService::Com]
    );
    let partial = RuntimeGuard::initialize(true, false).unwrap_err();
    assert_eq!(partial.release(), vec![RuntimeService::Com]);
}

#[test]
fn startup_ends_without_leaving_a_window() {
    let mut step = run(true).expect("supported");
    loop {
        match startup_step(step, StartupReport::Succeeded) {
            StartupNext::Perform(next) => step = next,
            StartupNext::End {
                failed,
                destroy_window,
            } => {
                assert!(!failed);
                assert!(destroy_window);
                break;
            }
        }
    }
    assert_eq!(
        startup_step(StartupStep::AcquireInstance, StartupReport::Taken),
        StartupNext::End {
            failed: false,
            destroy_window: false
        }
    );
    assert_eq!(
        startup_step(StartupStep::InstallMouseHook, StartupReport::Failed),
        StartupNext::End {
            failed: true,
            destroy_window: true
        }
    );
    assert_eq!(run(false), Err("the resident shell requires Windows"));
    assert_eq!(message_loop_step(-1), LoopStep::Fail);
    assert_eq!(message_loop_step(0), LoopStep::Quit);
    assert_eq!(message_loop_step(1), LoopStep::Dispatch);
}

#[test]
fn startup_failure_is_an_error_and_the_rest_are_warnings() {
    assert_eq!(
        show_resident_startup_failure(),
        ResidentDiagnostic::FatalStartup
    );
    assert_eq!(
        ResidentDiagnostic::FatalStartup.icon(),
        DiagnosticIcon::Error
    );
    assert_eq!(
        ResidentDiagnostic::ManualHotkeyUnavailable.icon(),
        DiagnosticIcon::Warning
    );
}

#[test]
fn workers_are_joined_or_left_at_the_deadline() {
    for budget in [
        HISTORY_SHUTDOWN_BUDGET,
        EXTRACTION_SHUTDOWN_BUDGET,
        EXTRACTOR_SHUTDOWN_BUDGET,
    ] {
        assert!(JOIN_POLL_INTERVAL < budget);
        assert_eq!(join_step(false, 0, budget), JoinStep::Sleep);
        assert_eq!(join_step(false, budget - 1, budget), JoinStep::Sleep);
        assert_eq!(join_step(false, budget, budget), JoinStep::Detach);
        assert_eq!(join_step(true, 0, budget), JoinStep::Join);
        assert_eq!(join_step(true, budget + 1, budget), JoinStep::Join);
    }
    assert_eq!(HISTORY_SHUTDOWN_BUDGET, 500_000_000);
    assert_eq!(EXTRACTION_SHUTDOWN_BUDGET, 150_000_000);
}
