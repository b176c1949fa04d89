use selection_translate::extraction::{
    ExtractionFailure, ExtractionSource, TextContext, TriggerKind,
};
use selection_translate::geometry::{ScreenPoint, ScreenRect};
use selection_translate::messages::{
    decode_message, reload_reply, ShellCommand, CONFIG_REFRESH_MESSAGE, EXIT_COMMAND,
    POPUP_PROFILE_SELECTED, RESIDENT_PING_MESSAGE, TOGGLE_HOVER_COMMAND, WM_COMMAND, WM_HOTKEY,
    WM_TIMER,
};
use selection_translate::hotkey::TOGGLE_POPUP_ID;
use selection_translate::mouse::{
    MouseTrigger, RawMouseMessage, WM_LBUTTONDOWN, WM_MBUTTONDOWN, WM_MOUSEMOVE, WM_RBUTTONDOWN,
    WM_XBUTTONDOWN,
};
use selection_translate::popups::{
    candidate_cancellation, cascade_source_status, displayed_input,
    hover_foreground_guard_is_current, is_pointer_button_down, next_unused_popup_id,
    oldest_evictable_popup, popup_can_be_evicted, popup_can_be_reused, profile_chooser_order,
    profile_for_generation, protected_capacity_error, selection_rect_for_root,
    should_dismiss_for_outside_click, should_dismiss_hover_for_foreground, translation_enabled,
    CandidateCancellation, CascadeSourceStatus, PopupEvictionCandidate, ResultSurfaceError,
    MAX_VISIBLE_POPUPS,
};
use selection_translate::provider::ProviderError;
use selection_translate::resident::{
    decode_refresh_response, plan_resident_start, RefreshOutcome, ResidentDiagnostic,
    ResidentStartPlan, ACK_READY, ACK_REFRESHED, ACK_REJECTED,
};
use selection_translate::settings::{
    resident_runtime_config_eq, AppConfig, HotkeySettings, ProfileDefaults, PromptConfig,
    ProviderSettings, UiLanguage, UiSettings,
};
use selection_translate::shell::{
    ActiveRequest, CacheIdentity, PendingAttempt, PopupEntry, PopupFacts, PreparedText,
    RequestSpec, Shell, ShellAction,
};
use selection_translate::shell_admission::{
    admission_step, history_entry, AdmissionContext, AdmissionEvent, AdmissionStage, Admitted,
    FinishOutcome, JobEnd, Refusal,
};
use selection_translate::shell_input::{timer_millis, PointerEvent};
use selection_translate::shell_request::{
    extraction_error, next_prompt, offer_selection, request_error, retarget_popup_replay,
    take_matching_pending,
    BeginOutcome, ExtractedRequest, ExtractionCompleted, ExtractionOutcome, Priorities,
    RequestRejection,
};
use selection_translate::shell_surface::{
    begin_present, present_next, stage_popup, surface_request, unbound_request, EnsureRequest,
    EnsureStep, PresentStep,
};

fn profile(id: &str) -> PromptConfig {
    PromptConfig {
        id: id.to_owned(),
        name: id.to_owned(),
        system_prompt: "system".to_owned(),
        user_template: "{target}".to_owned(),
        model: None,
        temperature: None,
        max_output_tokens: None,
    }
}

fn config() -> AppConfig {
    AppConfig {
        profiles: vec![profile("translate"), profile("explain")],
        defaults: ProfileDefaults {
            selection: "translate".to_owned(),
            hover: "explain".to_owned(),
        },
        provider: ProviderSettings {
            endpoint: "http://127.0.0.1:1".to_owned(),
            model: "mock-model".to_owned(),
            credential_target: "target".to_owned(),
        },
        hotkeys: HotkeySettings {
            cycle_profiles: "Ctrl+Alt+P".to_owned(),
        },
        ui: UiSettings {
            manager_language: UiLanguage::English,
        },
    }
}

fn pending(attempt: u64, trigger: TriggerKind, generation: u64) -> PendingAttempt {
    PendingAttempt {
        attempt,
        spec: RequestSpec {
            trigger,
            process_id: 42,
            source_root_window: 42,
            foreground_guard_root_window: 42,
            pointer: Some(ScreenPoint::new(10, 20)),
            selection_rect: None,
            prompt_id: "translate".to_owned(),
            bypass_duplicate_suppression: false,
            source_popup_id: None,
            destination_popup_id: None,
        },
        config_generation: generation,
    }
}

#[test]
fn remembered_selection_rect_is_only_reused_in_same_root_window() {
    let rect = ScreenRect::new(1, 2, 3, 4);
    assert_eq!(selection_rect_for_root(Some((rect, 10)), 10), Some(rect));
    assert_eq!(selection_rect_for_root(Some((rect, 10)), 11), None);
    assert_eq!(selection_rect_for_root(Some((rect, 0)), 0), None);
}

#[test]
fn manager_language_only_change_is_not_a_resident_runtime_change() {
    let english = config();
    let mut chinese = english.duplicate();
    chinese.ui.manager_language = UiLanguage::SimplifiedChinese;
    assert!(resident_runtime_config_eq(&english, &chinese));

    chinese.provider.model.push_str("-changed");
    assert!(!resident_runtime_config_eq(&english, &chinese));
}

#[test]
fn stale_extraction_does_not_consume_current_candidate() {
    let mut slot = Some(pending(2, TriggerKind::Selection, 7));

    assert!(take_matching_pending(&mut slot, 1, TriggerKind::Selection, 7).is_none());
    assert!(slot.is_some());
    assert!(take_matching_pending(&mut slot, 2, TriggerKind::Hover, 7).is_none());
    assert!(slot.is_some());
    assert!(take_matching_pending(&mut slot, 2, TriggerKind::Selection, 6).is_none());
    assert!(slot.is_some());
}

#[test]
fn matching_extraction_consumes_current_candidate_once() {
    let mut slot = Some(pending(2, TriggerKind::Manual, 7));

    let accepted = take_matching_pending(&mut slot, 2, TriggerKind::Manual, 7)
        .expect("matching extraction should be accepted");
    assert_eq!(accepted.attempt, 2);
    assert!(slot.is_none());
    assert!(take_matching_pending(&mut slot, 2, TriggerKind::Manual, 7).is_none());
}

#[test]
fn chooser_maps_visible_index_only_for_current_config_generation() {
    let profiles = vec!["translate".to_owned(), "explain".to_owned()];

    assert_eq!(
        profile_for_generation(&profiles, 1, 7, 7),
        Some("explain".to_owned())
    );
    assert_eq!(profile_for_generation(&profiles, 2, 7, 7), None);
    assert_eq!(profile_for_generation(&profiles, 0, 6, 7), None);
}

#[test]
fn chooser_prioritizes_standard_profiles_and_preserves_other_order() {
    let profiles = vec![
        profile("custom-first"),
        profile("code-specialist"),
        profile("custom-second"),
        profile("linguist-analysis"),
        profile("concise-explanation"),
    ];

    let ordered = profile_chooser_order(&profiles);
    let ids: Vec<&str> = ordered
        .iter()
        .map(|&index| profiles[index].id.as_str())
        .collect();
    assert_eq!(
        ids,
        vec![
            "linguist-analysis",
            "code-specialist",
            "concise-explanation",
            "custom-first",
            "custom-second",
        ]
    );
}

#[test]
fn chooser_omits_missing_standard_profiles_without_reordering_custom_profiles() {
    let profiles = vec![
        profile("custom-first"),
        profile("concise-explanation"),
        profile("custom-second"),
    ];

    let ordered = profile_chooser_order(&profiles);
    let ids: Vec<&str> = ordered
        .iter()
        .map(|&index| profiles[index].id.as_str())
        .collect();
    assert_eq!(
        ids,
        vec!["concise-explanation", "custom-first", "custom-second"]
    );
}

#[test]
fn rest_mode_blocks_translation_inputs_only_when_enabled() {
    assert!(translation_enabled(false));
    assert!(!translation_enabled(true));
}

#[test]
fn pinned_popups_are_neither_reused_nor_evicted() {
    assert!(popup_can_be_reused(false));
    assert!(!popup_can_be_reused(true));
    assert!(popup_can_be_evicted(2, Some(1), Some(3), false, true));
    assert!(!popup_can_be_evicted(1, Some(1), Some(3), false, true));
    assert!(!popup_can_be_evicted(3, Some(1), Some(3), false, true));
    assert!(!popup_can_be_evicted(2, Some(1), Some(3), true, true));
    assert!(!popup_can_be_evicted(2, Some(1), Some(3), false, false));
}

#[test]
fn cascade_source_is_revalidated_after_extraction_before_admission() {
    assert_eq!(
        cascade_source_status(false, false, false, false),
        CascadeSourceStatus::Missing
    );
    assert_eq!(
        cascade_source_status(true, false, true, true),
        CascadeSourceStatus::Unavailable,
        "a dead source popup must be rejected before provider admission"
    );
    assert_eq!(
        cascade_source_status(true, true, false, true),
        CascadeSourceStatus::Unavailable,
        "a loading/streaming source popup must not start a cascade"
    );
    assert_eq!(
        cascade_source_status(true, true, true, false),
        CascadeSourceStatus::Unavailable,
        "a source without a usable native anchor must not start a cascade"
    );
    assert_eq!(
        cascade_source_status(true, true, true, true),
        CascadeSourceStatus::Ready
    );
}

#[test]
fn full_popup_registry_selects_only_oldest_eligible_eviction() {
    let candidates: Vec<_> = (0..MAX_VISIBLE_POPUPS)
        .map(|index| PopupEvictionCandidate {
            id: index + 1,
            created_order: index as u64,
            pinned: index == 0,
            completed: index != 1,
        })
        .collect();

    assert_eq!(candidates.len(), MAX_VISIBLE_POPUPS);
    assert_eq!(
        oldest_evictable_popup(&candidates, Some(3), Some(99)),
        Some(4),
        "pinned, incomplete, parent, and active entries are protected"
    );
    assert_eq!(
        oldest_evictable_popup(&candidates, Some(3), Some(4)),
        None,
        "the active destination must not be evicted"
    );
}

#[test]
fn full_popup_registry_has_no_admission_when_every_entry_is_protected() {
    let candidates: Vec<_> = (0..MAX_VISIBLE_POPUPS)
        .map(|index| PopupEvictionCandidate {
            id: index + 1,
            created_order: index as u64,
            pinned: true,
            completed: true,
        })
        .collect();

    assert_eq!(candidates.len(), MAX_VISIBLE_POPUPS);
    assert_eq!(oldest_evictable_popup(&candidates, None, None), None);
    assert_eq!(
        protected_capacity_error(true, candidates.len(), None),
        Some(ResultSurfaceError::ProtectedCapacity),
        "a protected capacity rejection must stay local and never become a native-window diagnostic"
    );
    assert_eq!(
        candidates.len(),
        MAX_VISIBLE_POPUPS,
        "a full all-pinned registry must not grow past the capacity limit"
    );
}

#[test]
fn staged_popup_uses_a_fresh_monotonic_id_without_growing_registry() {
    let mut ids: Vec<_> = (1..=MAX_VISIBLE_POPUPS).collect();
    let before = ids.len();
    let evicted = ids[1];
    let (staged, next_id) = next_unused_popup_id(5, &ids);

    ids[1] = staged;
    assert_eq!(ids.len(), before, "staging replaces one entry at commit");
    assert!(staged > MAX_VISIBLE_POPUPS);
    assert!(!ids[..1].contains(&staged));
    assert!(!ids[2..].contains(&staged));
    assert_ne!(staged, evicted);
    assert!(next_id > staged);
}

#[test]
fn popup_replay_targets_owner_without_reextracting_a_parent() {
    let mut request = pending(7, TriggerKind::Hover, 1).spec;
    request.source_popup_id = Some(10);
    retarget_popup_replay(&mut request, 11);
    assert_eq!(request.source_popup_id, None);
    assert_eq!(request.destination_popup_id, Some(11));
    assert!(request.bypass_duplicate_suppression);
}

#[test]
fn popup_input_prefers_full_sentence_and_falls_back_to_target() {
    assert_eq!(
        displayed_input("bank", Some("He sat on the bank by the river.")),
        "He sat on the bank by the river."
    );
    assert_eq!(displayed_input("bank", None), "bank");
}

#[test]
fn manager_start_decision_uses_ready_and_mutex_evidence() {
    assert_eq!(
        plan_resident_start(true, true),
        ResidentStartPlan::UseReadyResident
    );
    assert_eq!(
        plan_resident_start(false, true),
        ResidentStartPlan::WaitForStartingResident
    );
    assert_eq!(
        plan_resident_start(false, false),
        ResidentStartPlan::LaunchSibling
    );
}

#[test]
fn refresh_acknowledgement_never_conflates_missing_or_silent_resident() {
    assert_eq!(
        decode_refresh_response(Ok(ACK_REFRESHED)),
        RefreshOutcome::Acknowledged
    );
    assert_eq!(
        decode_refresh_response(Ok(ACK_REJECTED)),
        RefreshOutcome::Rejected
    );
    assert_eq!(
        decode_refresh_response(Ok(0)),
        RefreshOutcome::Unacknowledged
    );
    assert_eq!(
        decode_refresh_response(Err(RefreshOutcome::ResidentAbsent)),
        RefreshOutcome::ResidentAbsent
    );
}

#[test]
fn explicit_requests_still_cancel_the_previous_job_immediately() {
    assert_eq!(
        candidate_cancellation(TriggerKind::Manual, false),
        CandidateCancellation::AllInflight
    );
    assert_eq!(
        candidate_cancellation(TriggerKind::Selection, true),
        CandidateCancellation::AllInflight
    );
}

#[test]
fn outside_click_retains_only_the_clicked_or_pinned_popups() {
    assert!(is_pointer_button_down(WM_LBUTTONDOWN));
    assert!(is_pointer_button_down(WM_RBUTTONDOWN));
    assert!(is_pointer_button_down(WM_MBUTTONDOWN));
    assert!(is_pointer_button_down(WM_XBUTTONDOWN));
    assert!(!is_pointer_button_down(
        WM_MOUSEMOVE
    ));
    assert!(should_dismiss_for_outside_click(None, 1, false));
    assert!(!should_dismiss_for_outside_click(None, 1, true));
    assert!(!should_dismiss_for_outside_click(Some(2), 2, false));
    assert!(should_dismiss_for_outside_click(Some(2), 1, false));
    assert!(!should_dismiss_for_outside_click(Some(2), 1, true));
}

#[test]
fn hover_popup_foreground_guard_accepts_internal_or_same_root_only() {
    assert!(hover_foreground_guard_is_current(
        TriggerKind::Hover,
        41,
        41,
        false,
    ));
    assert!(!hover_foreground_guard_is_current(
        TriggerKind::Hover,
        41,
        99,
        false,
    ));
    assert!(hover_foreground_guard_is_current(
        TriggerKind::Hover,
        41,
        99,
        true,
    ));
    assert!(!should_dismiss_hover_for_foreground(
        Some(TriggerKind::Hover),
        10,
        10,
        true,
        false,
        false,
    ));
    assert!(should_dismiss_hover_for_foreground(
        Some(TriggerKind::Hover),
        10,
        20,
        true,
        false,
        false,
    ));
    assert!(!should_dismiss_hover_for_foreground(
        Some(TriggerKind::Hover),
        10,
        20,
        true,
        false,
        true,
    ));
    assert!(!should_dismiss_hover_for_foreground(
        Some(TriggerKind::Hover),
        10,
        20,
        true,
        true,
        false,
    ));
}

#[test]
fn visible_diagnostics_are_fixed_and_privacy_safe() {
    let forbidden = ["endpoint", "model", "prompt", "selected text", "api key"];
    for diagnostic in [
        ResidentDiagnostic::FatalStartup,
        ResidentDiagnostic::ManualHotkeyUnavailable,
        ResidentDiagnostic::ResultWindowUnavailable,
    ] {
        let message = diagnostic.message().to_ascii_lowercase();
        for term in forbidden {
            assert!(!message.contains(term));
        }
    }
}

fn text(target: &str, context: Option<&str>) -> TextContext {
    TextContext {
        target: target.to_owned(),
        context: context.map(|value| value.to_owned()),
        source: ExtractionSource::UiaSelection,
        screen_rect: None,
    }
}

fn admission(trigger: TriggerKind) -> AdmissionContext {
    AdmissionContext {
        trigger,
        foreground_guard_root_window: 42,
        has_source: false,
        anchor: ScreenPoint::new(1, 2),
        startup_error: None,
    }
}

fn ranks() -> Priorities {
    Priorities {
        selection: 2,
        manual: 3,
        hover: 1,
        active: None,
    }
}

fn entry(id: usize, order: u64) -> PopupEntry {
    PopupEntry {
        id,
        last_request: None,
        last_text: None,
        presented_trigger: None,
        guard_root_window: 0,
        anchor: ScreenPoint::new(0, 0),
        parent: None,
        created_order: order,
    }
}

fn facts(id: usize, pinned: bool) -> PopupFacts {
    PopupFacts {
        id,
        pinned,
        completed: true,
        available: true,
    }
}

fn admitted(shell_popup: usize, job_id: u64, cached: Option<&str>) -> Admitted {
    Admitted {
        request: ExtractedRequest {
            pending: pending(1, TriggerKind::Selection, 1),
            text: text("current", None),
            anchor: ScreenPoint::new(10, 20),
        },
        prepared: PreparedText {
            target: "current".to_owned(),
            context: None,
            prompt_id: "translate".to_owned(),
            model: "mock-model".to_owned(),
        },
        cache: CacheIdentity {
            source: "UiaSelection".to_owned(),
            provider: "https://api.test|mock-model".to_owned(),
        },
        anchor: ScreenPoint::new(30, 40),
        job_id,
        popup_id: shell_popup,
        staged: None,
        cached_output: cached.map(|value| value.to_owned()),
    }
}

fn shell_with_popup() -> Shell {
    let mut shell = Shell::new(config(), None);
    let mut actions = Vec::new();
    let request = EnsureRequest {
        destination: None,
        parent: None,
        force_new: false,
    };
    let step = shell.begin_ensure(request, &Vec::new(), &mut actions);
    let id = match step {
        EnsureStep::Show { id } => id,
        other => panic!("no window was asked for: {:?}", other),
    };
    let step = shell.shown(request, id, ScreenPoint::new(3, 4), true);
    assert_eq!(step, EnsureStep::Ready { id });
    shell
}

#[test]
fn popup_admission_failure_preserves_prior_job_and_provider() {
    let mut shell = shell_with_popup();
    let mut actions = Vec::new();
    let popup = shell.popups[0].id;
    let outcome = shell.commit_request(admitted(popup, 42, None), &mut actions);
    assert!(outcome.completed.is_none());
    assert_eq!(shell.popup_job_id, Some(42));

    let context = admission(TriggerKind::Selection);
    let mut stage = AdmissionStage::Foreground;
    for event in [
        AdmissionEvent::Foreground {
            root_window: 42,
            is_popup: false,
        },
        AdmissionEvent::Prepared(Ok(())),
        AdmissionEvent::CanStart(Ok(())),
        AdmissionEvent::Surface(Err(ResultSurfaceError::Unavailable)),
    ] {
        stage = admission_step(&context, stage, event);
    }
    assert_eq!(stage, AdmissionStage::Refused(Refusal::Unavailable));
    assert!(shell.report_unavailable());
    assert!(!shell.report_unavailable());
    assert_eq!(shell.popup_job_id, Some(42));
    assert!(shell.provider_active);
    assert!(!actions.contains(&ShellAction::CancelProvider));
}

#[test]
fn delayed_selection_job_remains_the_current_presentation() {
    let mut shell = shell_with_popup();
    let mut actions = Vec::new();
    let popup = shell.popups[0].id;
    shell.commit_request(admitted(popup, 42, None), &mut actions);
    assert_eq!(shell.handle_delta(42, true, "late"), Some(popup));
    assert_eq!(
        candidate_cancellation(TriggerKind::Selection, false),
        CandidateCancellation::ExtractionOnly
    );
    assert_eq!(shell.popup_job_id, Some(42));
}

#[test]
fn superseded_stream_is_cancelled_and_only_current_popup_result_is_used() {
    let mut shell = shell_with_popup();
    let mut actions = Vec::new();
    let popup = shell.popups[0].id;
    shell.commit_request(admitted(popup, 1, None), &mut actions);
    shell.commit_request(admitted(popup, 2, None), &mut actions);
    assert_eq!(actions, vec![ShellAction::CancelProvider]);
    assert_eq!(shell.handle_delta(1, false, "stale"), None);
    assert_eq!(shell.handle_delta(2, true, "translated "), Some(popup));
    assert_eq!(shell.handle_delta(2, true, "result"), Some(popup));
    assert_eq!(
        shell.handle_finished(1, false, Err(ProviderError::Cancelled), String::new()),
        FinishOutcome::Ignored
    );
    match shell.handle_finished(2, true, Ok(()), "translated result".to_owned()) {
        FinishOutcome::Completed { output, .. } => assert_eq!(output, "translated result"),
        other => panic!("not completed: {:?}", other),
    }
}

#[test]
fn known_result_needs_no_provider() {
    let mut shell = shell_with_popup();
    let mut actions = Vec::new();
    let popup = shell.popups[0].id;
    let outcome = shell.commit_request(admitted(popup, 7, Some("known")), &mut actions);
    assert_eq!(outcome.input, "current");
    assert!(outcome.completed.is_some());
    assert!(!shell.provider_active);
}

#[test]
fn refusals_are_told_only_to_explicit_requests() {
    let manual = admission(TriggerKind::Manual);
    assert_eq!(
        admission_step(
            &manual,
            AdmissionStage::Prepare {
                anchor: ScreenPoint::new(1, 2)
            },
            AdmissionEvent::Prepared(Err(RequestRejection::MissingTarget))
        ),
        AdmissionStage::Refused(Refusal::LocalError {
            anchor: ScreenPoint::new(1, 2),
            message: "No selectable text was detected".to_owned()
        })
    );
    let selection = admission(TriggerKind::Selection);
    assert_eq!(
        admission_step(
            &selection,
            AdmissionStage::Prepare {
                anchor: ScreenPoint::new(1, 2)
            },
            AdmissionEvent::Prepared(Err(RequestRejection::MissingTarget))
        ),
        AdmissionStage::Refused(Refusal::Silent)
    );
    assert_eq!(
        admission_step(
            &selection,
            AdmissionStage::Surface {
                anchor: ScreenPoint::new(1, 2)
            },
            AdmissionEvent::Surface(Err(ResultSurfaceError::ProtectedCapacity))
        ),
        AdmissionStage::Refused(Refusal::Silent)
    );
    assert_eq!(
        admission_step(
            &selection,
            AdmissionStage::Start {
                anchor: ScreenPoint::new(1, 2)
            },
            AdmissionEvent::Started { job_id: 9 }
        ),
        AdmissionStage::Admitted {
            anchor: ScreenPoint::new(1, 2),
            job_id: 9
        }
    );
}

#[test]
fn every_rejection_has_words() {
    for rejection in [
        RequestRejection::MissingTarget,
        RequestRejection::TargetTooLong,
        RequestRejection::Cancelled,
        RequestRejection::StaleJob,
        RequestRejection::MissingPrompt,
        RequestRejection::InvalidPrompt,
        RequestRejection::MissingProviderConfig,
        RequestRejection::InvalidProviderConfig,
    ] {
        assert!(!request_error(rejection).is_empty());
    }
    assert_eq!(
        extraction_error(ExtractionFailure::PermissionDenied),
        "Text access was denied"
    );
}

#[test]
fn request_waits_for_its_extraction_and_the_selection_for_a_profile() {
    let mut shell = Shell::new(config(), None);
    let mut actions = Vec::new();
    let trigger = MouseTrigger::Selection {
        pointer: ScreenPoint::new(5, 6),
        process_id: 42,
        source_root_window: 42,
        rect: Some(ScreenRect::new(1, 2, 3, 4)),
    };
    let outcome = shell.observe_trigger(
        trigger,
        None,
        42,
        "translate",
        None,
        ranks(),
        &mut actions,
    );
    let attempt = match outcome {
        BeginOutcome::Extract(request) => request.attempt,
        other => panic!("nothing to extract: {:?}", other),
    };
    assert_eq!(
        shell.last_selection_rect,
        Some((ScreenRect::new(1, 2, 3, 4), 42))
    );
    let stale = shell.handle_extraction(
        ExtractionCompleted {
            attempt: attempt + 1,
            trigger: TriggerKind::Selection,
            pointer: None,
            selection_rect: None,
            result: Ok(text("word", None)),
        },
        None,
    );
    assert!(matches!(stale, ExtractionOutcome::Ignored));
    assert!(shell.pending.is_some());
    let outcome = shell.handle_extraction(
        ExtractionCompleted {
            attempt,
            trigger: TriggerKind::Selection,
            pointer: Some(ScreenPoint::new(5, 6)),
            selection_rect: None,
            result: Ok(text("word", None)),
        },
        None,
    );
    let request = match outcome {
        ExtractionOutcome::Prepare(request) => request,
        other => panic!("nothing to prepare: {:?}", other),
    };
    match offer_selection(request, Ok(())) {
        ExtractionOutcome::Choose(request) => assert_eq!(request.text.target, "word"),
        other => panic!("no choice: {:?}", other),
    }
    assert!(shell.pending.is_none());
    let choices = shell.profile_choices();
    assert_eq!(choices.ids, vec!["translate", "explain"]);
}

#[test]
fn rest_mode_clears_the_shell_and_begins_nothing() {
    let mut shell = shell_with_popup();
    let mut actions = Vec::new();
    assert!(shell.set_rest_mode(true, 0, &mut actions));
    assert!(shell.popups.is_empty());
    assert!(actions
        .iter()
        .any(|action| matches!(action, ShellAction::DismissPopup(_))));
    let outcome = shell.observe_manual(42, 42, None, "translate", ranks(), &mut actions);
    assert!(matches!(outcome, BeginOutcome::Ignored));
    let event = PointerEvent {
        raw: RawMouseMessage {
            kind: WM_LBUTTONDOWN,
            x: 1,
            y: 1,
        },
        process_id: 1,
        source_root_window: 1,
        is_resident: false,
        clicked: None,
        over_output: false,
    };
    assert!(!shell.handle_mouse_message(&Vec::new(), event, 0, &mut actions));
    assert_eq!(shell.toggle_hover(0, &mut actions), None);
}

#[test]
fn click_elsewhere_dismisses_what_is_not_pinned() {
    let mut shell = Shell::new(config(), None);
    for id in 1..=3 {
        shell.popups.push(entry(id, id as u64));
    }
    shell.next_popup_id = 4;
    let mut actions = Vec::new();
    let event = PointerEvent {
        raw: RawMouseMessage {
            kind: WM_RBUTTONDOWN,
            x: 1,
            y: 1,
        },
        process_id: 1,
        source_root_window: 1,
        is_resident: false,
        clicked: Some(2),
        over_output: false,
    };
    let all = vec![facts(1, false), facts(2, false), facts(3, true)];
    shell.handle_mouse_message(&all, event, 0, &mut actions);
    let left: Vec<usize> = shell.popups.iter().map(|popup| popup.id).collect();
    assert_eq!(left, vec![2, 3]);
    assert!(actions.contains(&ShellAction::DismissPopup(1)));
}

#[test]
fn full_registry_stages_a_popup_in_place_of_the_oldest() {
    let mut shell = Shell::new(config(), None);
    for id in 1..=MAX_VISIBLE_POPUPS {
        shell.popups.push(entry(id, id as u64));
    }
    shell.next_popup_id = MAX_VISIBLE_POPUPS + 1;
    let mut actions = Vec::new();
    let all: Vec<PopupFacts> = (1..=MAX_VISIBLE_POPUPS)
        .map(|id| facts(id, id == 1))
        .collect();
    let request = EnsureRequest {
        destination: None,
        parent: None,
        force_new: true,
    };
    let step = shell.begin_ensure(request, &all, &mut actions);
    let (id, evict) = match step {
        EnsureStep::Stage { id, evict } => (id, evict),
        other => panic!("nothing staged: {:?}", other),
    };
    assert_eq!(evict, 2);
    let staged = stage_popup(id, evict, ScreenPoint::new(1, 1), None);
    shell.commit_presented_staged_popup(Some(staged), &mut actions);
    assert_eq!(shell.popups.len(), MAX_VISIBLE_POPUPS);
    assert!(shell.popup_index(2).is_none());
    assert!(shell.popup_index(id).is_some());

    let pinned: Vec<PopupFacts> = shell
        .popups
        .iter()
        .map(|popup| facts(popup.id, true))
        .collect();
    assert_eq!(
        shell.surface_refusal(request, &pinned),
        Some(ResultSurfaceError::ProtectedCapacity)
    );
}

#[test]
fn hidden_popup_comes_back_when_its_successor_cannot_be_shown() {
    let step = begin_present(true, true);
    assert_eq!(step, PresentStep::HideEvicted);
    let step = present_next(step, true);
    assert_eq!(step, PresentStep::PresentStaged);
    let step = present_next(step, false);
    assert_eq!(step, PresentStep::RestoreEvicted);
    assert_eq!(present_next(step, true), PresentStep::Failed);
    assert_eq!(begin_present(false, false), PresentStep::Presented);
}

#[test]
fn cascaded_request_needs_a_window_of_its_own() {
    let mut spec = pending(1, TriggerKind::Hover, 1).spec;
    spec.source_popup_id = Some(3);
    let request = surface_request(&spec);
    assert_eq!(request.parent, Some(3));
    assert!(request.force_new);
}

#[test]
fn prompts_are_cycled_in_order() {
    let profiles = config().profiles;
    assert_eq!(next_prompt(&profiles, "translate"), "explain");
    assert_eq!(next_prompt(&profiles, "explain"), "translate");
    let mut shell = Shell::new(config(), None);
    assert_eq!(shell.selected_prompt_id("translate"), "translate");
    shell.cycle_prompt("translate");
    assert_eq!(shell.selected_prompt_id("translate"), "explain");
}

#[test]
fn timers_never_fire_at_once_and_never_overflow() {
    assert_eq!(timer_millis(None, 5), None);
    assert_eq!(timer_millis(Some(5), 9), Some(1));
    assert_eq!(timer_millis(Some(80_000_000), 0), Some(80));
    assert_eq!(timer_millis(Some(u64::MAX), 0), Some(u32::MAX));
}

#[test]
fn changed_configuration_outdates_the_work() {
    let mut shell = shell_with_popup();
    let mut actions = Vec::new();
    let popup = shell.popups[0].id;
    shell.commit_request(admitted(popup, 42, None), &mut actions);
    shell.cycle_prompt("translate");

    let mut language = config();
    language.ui.manager_language = UiLanguage::SimplifiedChinese;
    actions.clear();
    assert!(shell.begin_config(language, &mut actions).is_none());
    assert!(actions.is_empty());
    assert_eq!(shell.config_generation, 1);

    let mut changed = config();
    changed.profiles = vec![profile("other")];
    let apply = shell
        .begin_config(changed, &mut actions)
        .expect("a change to apply");
    assert_eq!(shell.config_generation, 2);
    assert!(actions.contains(&ShellAction::CancelProvider));
    assert!(actions.contains(&ShellAction::ClearCache));
    assert_eq!(shell.finish_config(apply, None, "other"), None);
    assert_eq!(shell.active_prompt_id, None);
    assert_eq!(
        shell.last_request.as_ref().map(|spec| spec.prompt_id.as_str()),
        Some("other")
    );
}

#[test]
fn faulty_configuration_is_reported_to_explicit_requests() {
    let mut shell = Shell::new(config(), None);
    let mut actions = Vec::new();
    shell.reject_config(&mut actions);
    assert_eq!(shell.config_generation, 2);
    let outcome = shell.observe_manual(42, 42, None, "translate", ranks(), &mut actions);
    match outcome {
        BeginOutcome::LocalError { message, .. } => {
            assert_eq!(message, "Configuration file is invalid")
        }
        other => panic!("not reported: {:?}", other),
    }
    shell.refresh_provider(None, &mut actions);
    assert_eq!(shell.config_generation, 3);
    assert_eq!(shell.startup_error, None);
}

#[test]
fn messages_are_told_apart() {
    assert_eq!(
        decode_message(RESIDENT_PING_MESSAGE, 0, 0, true, false),
        ShellCommand::Reply(ACK_READY)
    );
    assert_eq!(
        decode_message(CONFIG_REFRESH_MESSAGE, 0, 0, false, false),
        ShellCommand::Reply(0)
    );
    assert_eq!(
        decode_message(WM_HOTKEY, TOGGLE_POPUP_ID as usize, 0, true, false),
        ShellCommand::ObserveManual
    );
    assert_eq!(
        decode_message(WM_HOTKEY, TOGGLE_POPUP_ID as usize, 0, true, true),
        ShellCommand::Nothing
    );
    assert_eq!(
        decode_message(WM_COMMAND, TOGGLE_HOVER_COMMAND + 0x3_0000, 0, true, false),
        ShellCommand::ToggleHover
    );
    assert_eq!(
        decode_message(WM_COMMAND, EXIT_COMMAND, 0, false, false),
        ShellCommand::Quit
    );
    assert_eq!(
        decode_message(POPUP_PROFILE_SELECTED, 1, 9, true, false),
        ShellCommand::ChooseProfile { popup: 9, index: 1 }
    );
    assert_eq!(
        decode_message(WM_TIMER, 0, 0, true, true),
        ShellCommand::StopTimers
    );
    assert_eq!(decode_message(0x1234, 0, 0, true, false), ShellCommand::Default);
    assert_eq!(reload_reply(true), ACK_REFRESHED);
    assert_eq!(reload_reply(false), ACK_REJECTED);
}

#[test]
fn completed_request_is_recorded_unless_it_is_empty() {
    let active = ActiveRequest {
        process_id: 42,
        text: text("current", None),
        prepared: PreparedText {
            target: "current".to_owned(),
            context: Some("whole sentence".to_owned()),
            prompt_id: "translate".to_owned(),
            model: "mock-model".to_owned(),
        },
        cache: CacheIdentity {
            source: "UiaSelection".to_owned(),
            provider: "https://api.test|mock-model".to_owned(),
        },
    };
    let recorded = history_entry(&active, "out", "out", false, "2026".to_owned())
        .expect("an entry");
    assert_eq!(recorded.target, "current");
    assert_eq!(recorded.output, "out");
    assert!(history_entry(&active, " ", "", false, "2026".to_owned()).is_none());
}

/// Admits a request whose content is judged by `prepared`; returns the job that
/// the provider is started for.
fn admission_of(prepared: Result<(), RequestRejection>) -> Option<u64> {
    let context = admission(TriggerKind::Selection);
    let mut stage = AdmissionStage::Foreground;
    for event in [
        AdmissionEvent::Foreground {
            root_window: 42,
            is_popup: false,
        },
        AdmissionEvent::Prepared(prepared),
        AdmissionEvent::CanStart(Ok(())),
        AdmissionEvent::Surface(Ok(1)),
        AdmissionEvent::Presented(true),
        AdmissionEvent::Started { job_id: 1 },
    ] {
        if matches!(stage, AdmissionStage::Refused(_)) {
            return None;
        }
        stage = admission_step(&context, stage, event);
    }
    match stage {
        AdmissionStage::Admitted { job_id, .. } => Some(job_id),
        _ => None,
    }
}

#[test]
fn valid_extracted_text_makes_one_request_and_one_completed_popup_stream() {
    let job = admission_of(Ok(())).expect("extracted text should pass the request gate");
    let mut shell = shell_with_popup();
    let popup = shell.popups[0].id;
    let mut actions = Vec::new();
    shell.commit_request(admitted(popup, job, None), &mut actions);
    assert!(shell.provider_active);
    shell.handle_delta(job, true, "translated ");
    shell.handle_delta(job, true, "result");
    let streamed = shell.stream_output.clone();
    assert_eq!(streamed, "translated result");
    match shell.handle_finished(job, true, Ok(()), streamed) {
        FinishOutcome::Completed { popup: shown, output, request } => {
            assert_eq!(shown, Some(popup));
            assert_eq!(output, "translated result");
            assert!(request.is_some());
        }
        other => panic!("not completed: {:?}", other),
    }
}

#[test]
fn missing_extracted_text_makes_zero_provider_requests() {
    assert_eq!(admission_of(Err(RequestRejection::MissingTarget)), None);
}

#[test]
fn refused_selection_is_offered_nothing() {
    for rejection in [
        RequestRejection::MissingTarget,
        RequestRejection::TargetTooLong,
        RequestRejection::InvalidPrompt,
    ] {
        let request = ExtractedRequest {
            pending: pending(1, TriggerKind::Selection, 1),
            text: text("", None),
            anchor: ScreenPoint::new(10, 20),
        };
        assert_eq!(
            offer_selection(request, Err(rejection)),
            ExtractionOutcome::Ignored
        );
    }
}

#[test]
fn result_of_a_popup_text_stands_beside_the_popup() {
    let mut context = admission(TriggerKind::Hover);
    context.has_source = true;
    let foreground = AdmissionEvent::Foreground {
        root_window: 42,
        is_popup: false,
    };
    let source = |cascade| AdmissionEvent::Source {
        present: true,
        available: true,
        completed: true,
        cascade,
    };
    let stage = admission_step(&context, AdmissionStage::Foreground, foreground);
    assert_eq!(stage, AdmissionStage::Source);
    let beside = ScreenPoint::new(70, 80);
    let mut stage = admission_step(&context, stage, source(Some(beside)));
    assert_eq!(stage, AdmissionStage::Prepare { anchor: beside });
    for event in [
        AdmissionEvent::Prepared(Ok(())),
        AdmissionEvent::CanStart(Ok(())),
        AdmissionEvent::Surface(Ok(1)),
        AdmissionEvent::Presented(true),
        AdmissionEvent::Started { job_id: 5 },
    ] {
        stage = admission_step(&context, stage, event);
    }
    assert_eq!(
        stage,
        AdmissionStage::Admitted {
            anchor: beside,
            job_id: 5
        }
    );
    assert_eq!(
        admission_step(&context, AdmissionStage::Source, source(None)),
        AdmissionStage::Refused(Refusal::Silent)
    );
}

#[test]
fn committed_request_remembers_where_it_is_shown() {
    let mut shell = shell_with_popup();
    let mut actions = Vec::new();
    let popup = shell.popups[0].id;
    shell.commit_request(admitted(popup, 3, None), &mut actions);
    assert_eq!(shell.popup_anchor, ScreenPoint::new(30, 40));
    assert_eq!(shell.popups[0].anchor, ScreenPoint::new(30, 40));
}

#[test]
fn known_results_are_kept_by_source_endpoint_and_model() {
    let shell = Shell::new(config(), None);
    let prepared = PreparedText {
        target: "word".to_owned(),
        context: None,
        prompt_id: "translate".to_owned(),
        model: "mock-model".to_owned(),
    };
    let identity = shell.cache_identity(&text("word", None), &prepared);
    assert_eq!(identity.source, "UiaSelection");
    assert_eq!(
        identity.provider,
        format!("{}|mock-model", config().provider.endpoint)
    );
}

#[test]
fn jobs_are_told_how_a_stream_ended() {
    assert_eq!(FinishOutcome::Ignored.job_end(), JobEnd::Unchanged);
    assert_eq!(FinishOutcome::Cancelled.job_end(), JobEnd::Finished);
    let failed = FinishOutcome::Failed {
        popup: None,
        message: "Provider returned no text".to_owned(),
    };
    assert_eq!(failed.job_end(), JobEnd::Finished);
    let mut shell = shell_with_popup();
    let mut actions = Vec::new();
    let popup = shell.popups[0].id;
    shell.commit_request(admitted(popup, 3, None), &mut actions);
    shell.handle_delta(3, true, "out");
    let outcome = shell.handle_finished(3, true, Ok(()), "out".to_owned());
    assert_eq!(outcome.job_end(), JobEnd::Completed);
}

#[test]
fn pinned_popups_stay_while_a_popup_is_found() {
    let mut shell = Shell::new(config(), None);
    for id in 1..5 {
        shell.popups.push(entry(id, id as u64));
    }
    let mut actions = Vec::new();
    let known = vec![
        facts(1, true),
        facts(2, true),
        facts(3, false),
        facts(4, true),
    ];
    let request = EnsureRequest {
        destination: None,
        parent: Some(4),
        force_new: true,
    };
    match shell.begin_ensure(request, &known, &mut actions) {
        EnsureStep::Stage { id, evict } => {
            assert_eq!(evict, 3);
            assert!(shell.popups.iter().all(|popup| popup.id != id));
        }
        other => panic!("nothing staged: {:?}", other),
    }
    assert_eq!(shell.popups.len(), 4);
    let step = shell.begin_ensure(unbound_request(), &known, &mut actions);
    assert_eq!(
        step,
        EnsureStep::Reanchor {
            id: 3,
            reused: true
        }
    );
    let step = shell.reanchored(unbound_request(), 3, true, false, &known, &mut actions);
    assert!(matches!(step, EnsureStep::Show { .. }));
    assert_eq!(shell.popups.len(), 3);
}

#[test]
fn zeros_are_one_temperature_and_what_is_no_number_is_none() {
    let with = |temperature: f32| {
        let mut changed = config();
        changed.profiles[0].temperature = Some(temperature.to_bits());
        changed
    };
    assert!(resident_runtime_config_eq(&with(0.0), &with(-0.0)));
    assert!(resident_runtime_config_eq(&with(0.5), &with(0.5)));
    assert!(!resident_runtime_config_eq(&with(0.5), &with(0.25)));
    assert!(!resident_runtime_config_eq(&with(f32::NAN), &with(f32::NAN)));
    assert!(resident_runtime_config_eq(
        &with(f32::INFINITY),
        &with(f32::INFINITY)
    ));
}
