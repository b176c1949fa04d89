use selection_translate::extraction::ExtractionSource;
use selection_translate::geometry::ScreenRect;
use selection_translate::manager::{
    config_with_manager_language, credential_state, load_config, profile_id_for_index,
    profile_option_label, save_next, selected_profile_index, AfterSwitch, ConfigSource, KeyReport,
    LanguageStep, Manager, SaveReport, SaveStep, SettingsForm, UiAction,
};
use selection_translate::manager_commands::{
    handle_command, manager_message, page_message, ManagerCommand, ManagerMessage, PageMessage,
    WM_CREATE, WM_DRAWITEM, WM_PAINT, WM_SIZE,
};
use selection_translate::manager_controls::{
    all_controls, apply_manager_layout, control_spec, control_style, creation_frame,
    visibility_style, Control, ControlKind, WS_VISIBLE,
};
use selection_translate::manager_history::{
    clipboard_payload, copy_text_to_clipboard, format_history_row, history_source_for_index,
    nonempty, single_line, valid_history_index, DeletionReport, HistoryEntry, HistoryOrder,
    HistorySelections, PutNext, PutStep,
};
use selection_translate::manager_layout::{
    button_radius, dpi_of_message, draw_manager_button, focus_rect, min_track_size, page_identity,
    page_is_visible, paint_manager, paint_page, scale_for_dpi, suggested_frame,
    themed_control_color, unscale_from_dpi, window_size, Brush, Frame, ManagerLayout, Page, ACCENT,
    DANGER, ID_DELETE_KEY, ID_HISTORY_LIST, ID_HISTORY_PROMPT, ID_LANGUAGE, ID_PROMPTS_TAB,
    ID_SAVE_PROMPT, MANAGER_BG, SURFACE_HOVER,
};
use selection_translate::manager_prompts::{
    apply_prompt, parse_optional_f32, parse_optional_u32, prompt_from_form, PromptForm,
};
use selection_translate::manager_status::{
    config_refresh_status, credential_refresh_status, credential_status_event, history_count_text,
    resident_start_status, status_text, CredentialStatusState, StatusEvent, StatusOperation,
};
use selection_translate::manager_text::{
    all_text_keys, source_label, text_key_from_english, ui_text, TextKey,
};
use selection_translate::resident::{RefreshOutcome, ResidentStartOutcome};
use selection_translate::settings::{
    AppConfig, HotkeySettings, ProfileDefaults, PromptConfig, ProviderSettings, UiLanguage,
    UiSettings,
};

fn new_prompt(id: &str) -> PromptConfig {
    PromptConfig {
        id: id.to_owned(),
        name: id.to_owned(),
        system_prompt: "system".to_owned(),
        user_template: "{target}".to_owned(),
        model: None,
        temperature: None,
        max_output_tokens: None,
    }
}

fn default_config() -> AppConfig {
    AppConfig {
        profiles: vec![new_prompt("translate"), new_prompt("explain")],
        defaults: ProfileDefaults {
            selection: "translate".to_owned(),
            hover: "explain".to_owned(),
        },
        provider: ProviderSettings {
            endpoint: "http://127.0.0.1:1".to_owned(),
            model: "mock-model".to_owned(),
            credential_target: "target".to_owned(),
        },
        hotkeys: HotkeySettings {
            cycle_profiles: "Ctrl+Alt+P".to_owned(),
        },
        ui: UiSettings {
            manager_language: UiLanguage::English,
        },
    }
}

fn profile<'a>(config: &'a AppConfig, id: &str) -> Option<&'a PromptConfig> {
    config.profiles.iter().find(|profile| profile.id == id)
}

/// Reads a temperature as the form does, with the number of its text.
fn parse_f32(value: &str, language: UiLanguage) -> Result<Option<f32>, String> {
    let bits = value.trim().parse::<f32>().ok().map(f32::to_bits);
    parse_optional_f32(value, bits, language).map(|found| found.map(f32::from_bits))
}

#[test]
fn optional_numbers_are_strict_and_bounded() {
    assert_eq!(parse_f32("", UiLanguage::English).unwrap(), None);
    assert_eq!(
        parse_f32(" 0.5 ", UiLanguage::English).unwrap(),
        Some(0.5)
    );
    assert!(parse_f32("2.1", UiLanguage::English).is_err());
    assert_eq!(
        parse_optional_u32("512", UiLanguage::English).unwrap(),
        Some(512)
    );
    assert!(parse_optional_u32("0", UiLanguage::English).is_err());
    assert!(parse_f32("bad", UiLanguage::SimplifiedChinese)
        .unwrap_err()
        .contains("温度"));
}

#[test]
fn page_children_are_visible_inside_hidden_containers() {
    assert_eq!(visibility_style(None), WS_VISIBLE);
    assert_eq!(visibility_style(Some(Page::Settings)), WS_VISIBLE);
    assert_eq!(visibility_style(Some(Page::Prompts)), WS_VISIBLE);
    assert_eq!(visibility_style(Some(Page::History)), WS_VISIBLE);
}

#[test]
fn page_visibility_is_exclusive() {
    for selected in [Page::Settings, Page::Prompts, Page::History] {
        for page in [Page::Settings, Page::Prompts, Page::History] {
            assert_eq!(page_is_visible(page, selected), page == selected);
        }
    }
}

#[test]
fn manager_layout_keeps_navigation_and_page_disjoint_at_supported_dpi() {
    for dpi in [96, 144, 192] {
        let width = scale_for_dpi(980, dpi);
        let height = scale_for_dpi(680, dpi);
        let layout = ManagerLayout::for_client(width, height, dpi);
        assert_eq!(layout.nav.left, 0);
        assert_eq!(layout.nav.right, layout.page.left);
        assert_eq!(layout.page.right, 980);
        assert_eq!(layout.page.bottom, 680);
        assert!(layout.status.bottom <= layout.nav_buttons[3].top - 12);
        for pair in layout.nav_buttons[..3].windows(2) {
            assert!(pair[0].bottom < pair[1].top);
        }
    }
}

#[test]
fn manager_layout_uses_extra_width_without_moving_fixed_navigation() {
    let compact = ManagerLayout::for_client(980, 680, 96);
    let wide = ManagerLayout::for_client(1240, 760, 96);
    assert_eq!(compact.nav.right, wide.nav.right);
    assert_eq!(compact.page.left, wide.page.left);
    assert!(wide.page.right > compact.page.right);
    assert!(wide.nav_buttons[3].top > compact.nav_buttons[3].top);
}

#[test]
fn both_localization_catalogs_cover_every_static_key() {
    for key in all_text_keys() {
        assert!(!ui_text(UiLanguage::English, key).trim().is_empty());
        assert!(!ui_text(UiLanguage::SimplifiedChinese, key)
            .trim()
            .is_empty());
    }
}

#[test]
fn every_status_event_has_complete_english_and_chinese_text() {
    let events = vec![
        StatusEvent::ManagerInitializationFailed {
            detail: "opaque-error",
        },
        StatusEvent::ConfigLoadFailed {
            detail: "opaque-error",
        },
        StatusEvent::LocalAppDataUnavailable {
            operation: StatusOperation::Save,
        },
        StatusEvent::LocalAppDataUnavailable {
            operation: StatusOperation::History,
        },
        StatusEvent::SaveInterfaceLanguageFailed {
            detail: "opaque-error",
        },
        StatusEvent::InterfaceLanguageSaved,
        StatusEvent::HistoryRefreshed,
        StatusEvent::HistoryUnavailable {
            detail: "opaque-error",
        },
        StatusEvent::SelectHistoryEntry,
        StatusEvent::HistoryEntryUnavailable,
        StatusEvent::OutputCopied,
        StatusEvent::CopyOutputFailed {
            detail: "opaque-error",
        },
        StatusEvent::DeleteHistoryConfirm {
            target: "user text",
        },
        StatusEvent::DeletionCancelled,
        StatusEvent::HistoryEntryDeleted,
        StatusEvent::HistoryEntryAlreadyDeleted,
        StatusEvent::DeleteHistoryFailed {
            detail: "opaque-error",
        },
        StatusEvent::OutputTooLarge,
        StatusEvent::ClipboardMemoryLockFailed,
        StatusEvent::ResidentStart(ResidentStartOutcome::AlreadyRunning),
        StatusEvent::ResidentStart(ResidentStartOutcome::Started),
        StatusEvent::ResidentStart(ResidentStartOutcome::Unavailable),
        StatusEvent::ConfigRefresh(RefreshOutcome::Acknowledged),
        StatusEvent::ConfigRefresh(RefreshOutcome::ResidentAbsent),
        StatusEvent::ConfigRefresh(RefreshOutcome::Unacknowledged),
        StatusEvent::ConfigRefresh(RefreshOutcome::Rejected),
        StatusEvent::CredentialRefresh {
            outcome: RefreshOutcome::Acknowledged,
            deleted: false,
        },
        StatusEvent::CredentialRefresh {
            outcome: RefreshOutcome::Acknowledged,
            deleted: true,
        },
        StatusEvent::CredentialRefresh {
            outcome: RefreshOutcome::ResidentAbsent,
            deleted: false,
        },
        StatusEvent::CredentialRefresh {
            outcome: RefreshOutcome::ResidentAbsent,
            deleted: true,
        },
        StatusEvent::CredentialRefresh {
            outcome: RefreshOutcome::Unacknowledged,
            deleted: false,
        },
        StatusEvent::CredentialRefresh {
            outcome: RefreshOutcome::Rejected,
            deleted: true,
        },
        StatusEvent::CannotSaveSettings {
            detail: "opaque-error",
        },
        StatusEvent::EnterApiKey,
        StatusEvent::ApiKeySavedToCredentialManager,
        StatusEvent::ApiKeyInactiveTargetSaved,
        StatusEvent::SaveApiKeyFailed {
            detail: "opaque-error",
        },
        StatusEvent::NoSavedApiKey,
        StatusEvent::ApiKeyInactiveTargetDeleted,
        StatusEvent::DeleteApiKeyFailed {
            detail: "opaque-error",
        },
        StatusEvent::NoPromptProfile,
        StatusEvent::CannotSavePrompt {
            detail: "opaque-error",
        },
        StatusEvent::NewPromptUnsaved,
        StatusEvent::NewDraft,
        StatusEvent::UnsavedPromptDiscarded,
        StatusEvent::PromptInvalid {
            detail: "opaque-error",
        },
        StatusEvent::InvalidTemperature,
        StatusEvent::InvalidMaxOutputTokens,
        StatusEvent::ConfigPathUnavailable,
        StatusEvent::CredentialStatusPresent,
        StatusEvent::CredentialStatusAbsent,
        StatusEvent::CredentialStatusUnavailable {
            detail: "opaque-error",
        },
        StatusEvent::HistoryCount { count: 2 },
        StatusEvent::ProfilePosition {
            current: 1,
            total: 2,
        },
    ];
    assert!(events.len() >= 50);
    for event in events {
        let english = status_text(UiLanguage::English, event);
        let chinese = status_text(UiLanguage::SimplifiedChinese, event);
        assert!(!english.trim().is_empty());
        assert!(!chinese.trim().is_empty());
        if english.contains("opaque-error") {
            assert!(chinese.contains("opaque-error"));
        }
    }
}

#[test]
fn credential_language_relabel_is_pure_and_preserves_opaque_detail() {
    let status = CredentialStatusState::Unavailable("vault-error".to_owned());
    let event = credential_status_event(&status);
    assert_eq!(
        status,
        CredentialStatusState::Unavailable("vault-error".to_owned())
    );
    assert!(status_text(UiLanguage::English, event).contains("vault-error"));
    assert!(status_text(UiLanguage::SimplifiedChinese, event).contains("vault-error"));
}

#[test]
fn language_only_update_preserves_every_other_config_field() {
    let config = default_config();
    let mut expected = config.duplicate();
    expected.ui.manager_language = UiLanguage::SimplifiedChinese;
    let changed = config_with_manager_language(&config, UiLanguage::SimplifiedChinese);
    assert_eq!(changed, expected);
    assert_eq!(config.ui.manager_language, UiLanguage::English);
}

#[test]
fn default_profile_selectors_show_names_but_save_stable_ids() {
    let mut first = new_prompt("translate");
    first.name = "  Translate  ".to_owned();
    let mut second = new_prompt("explain");
    second.name = "解释".to_owned();
    let profiles = vec![first.duplicate(), second.duplicate()];

    assert_eq!(profile_option_label(&first), "Translate — translate");
    assert_eq!(profile_option_label(&second), "解释 — explain");
    assert_eq!(
        profile_id_for_index(Some(0), &profiles),
        Some("translate".to_owned())
    );
    assert_eq!(
        profile_id_for_index(Some(1), &profiles),
        Some("explain".to_owned())
    );
    assert_eq!(profile_id_for_index(Some(2), &profiles), None);
    assert_eq!(profile_id_for_index(None, &profiles), None);
}

#[test]
fn localized_counts_and_statuses_have_chinese_variants() {
    assert_eq!(history_count_text(UiLanguage::English, 1), "1 entry");
    assert_eq!(history_count_text(UiLanguage::English, 2), "2 entries");
    assert_eq!(
        history_count_text(UiLanguage::SimplifiedChinese, 2),
        "2 条记录"
    );
    assert!(resident_start_status(
        UiLanguage::SimplifiedChinese,
        ResidentStartOutcome::Started
    )
    .contains("驻留程序"));
    assert!(config_refresh_status(
        UiLanguage::SimplifiedChinese,
        RefreshOutcome::Acknowledged
    )
    .contains("已保存"));
}

#[test]
fn draft_commit_does_not_mutate_saved_config_until_commit() {
    let config = default_config();
    let original_count = config.profiles.len();
    let draft = new_prompt("draft");
    let committed = apply_prompt(&config, None, None, draft);
    assert_eq!(config.profiles.len(), original_count);
    assert_eq!(committed.profiles.len(), original_count + 1);
    assert!(profile(&config, "draft").is_none());
    assert!(profile(&committed, "draft").is_some());
}

#[test]
fn history_source_filter_maps_all_and_each_source() {
    assert_eq!(history_source_for_index(None), None);
    assert_eq!(history_source_for_index(Some(0)), None);
    assert_eq!(
        history_source_for_index(Some(1)),
        Some(ExtractionSource::UiaSelection)
    );
    assert_eq!(
        history_source_for_index(Some(2)),
        Some(ExtractionSource::UiaPoint)
    );
    assert_eq!(
        history_source_for_index(Some(3)),
        Some(ExtractionSource::Clipboard)
    );
    assert_eq!(
        history_source_for_index(Some(4)),
        Some(ExtractionSource::Ocr)
    );
    assert_eq!(history_source_for_index(Some(5)), None);
}

#[test]
fn history_row_is_single_line_and_keeps_target_and_output() {
    let entry = HistoryEntry {
        id: 7,
        created_at_utc: "2026-08-19T12:00:00Z".to_owned(),
        source: ExtractionSource::UiaSelection,
        target: "hello\nworld".to_owned(),
        context: None,
        output: "你好\t世界".to_owned(),
        prompt_id: "translate".to_owned(),
        model: "test".to_owned(),
        served_from_cache: false,
    };
    assert_eq!(format_history_row(&entry), "hello world  |  你好 世界");
}

#[test]
fn history_selection_rejects_negative_and_out_of_range_values() {
    assert_eq!(valid_history_index(-1, 2), None);
    assert_eq!(valid_history_index(0, 2), Some(0));
    assert_eq!(valid_history_index(1, 2), Some(1));
    assert_eq!(valid_history_index(2, 2), None);
}

#[test]
fn resident_and_refresh_statuses_never_claim_unacknowledged_success() {
    assert!(
        resident_start_status(UiLanguage::English, ResidentStartOutcome::Started)
            .contains("ready")
    );
    assert!(
        resident_start_status(UiLanguage::English, ResidentStartOutcome::Unavailable)
            .contains("translation is unavailable")
    );
    assert!(
        config_refresh_status(UiLanguage::English, RefreshOutcome::Acknowledged)
            .contains("confirmed")
    );
    assert!(
        !config_refresh_status(UiLanguage::English, RefreshOutcome::ResidentAbsent)
            .contains("confirmed")
    );
    assert!(
        !config_refresh_status(UiLanguage::English, RefreshOutcome::Unacknowledged)
            .contains("confirmed")
    );
    assert!(
        !config_refresh_status(UiLanguage::English, RefreshOutcome::Rejected)
            .contains("confirmed")
    );
    assert!(credential_refresh_status(
        UiLanguage::English,
        RefreshOutcome::Acknowledged,
        false
    )
    .contains("confirmed"));
    assert!(!credential_refresh_status(
        UiLanguage::English,
        RefreshOutcome::ResidentAbsent,
        true
    )
    .contains("confirmed"));
}

fn entry(id: i64, target: &str, output: &str) -> HistoryEntry {
    HistoryEntry {
        id,
        created_at_utc: "2026-08-19T12:00:00Z".to_owned(),
        source: ExtractionSource::UiaSelection,
        target: target.to_owned(),
        context: None,
        output: output.to_owned(),
        prompt_id: "translate".to_owned(),
        model: "test".to_owned(),
        served_from_cache: true,
    }
}

fn manager() -> Manager {
    Manager::new(
        default_config(),
        None,
        true,
        ResidentStartOutcome::Started,
        96,
    )
}

fn selections() -> HistorySelections {
    HistorySelections {
        prompt: None,
        source: None,
        order: None,
    }
}

/// The last text that was shown in a control.
fn shown(actions: &[UiAction], wanted: Control) -> Option<String> {
    actions.iter().rev().find_map(|action| match action {
        UiAction::SetText { control, text } if *control == wanted => Some(text.clone()),
        _ => None,
    })
}

fn choices(actions: &[UiAction], wanted: Control) -> Vec<String> {
    actions
        .iter()
        .filter_map(|action| match action {
            UiAction::AddChoice { control, text } if *control == wanted => Some(text.clone()),
            _ => None,
        })
        .collect()
}

fn chosen(actions: &[UiAction], wanted: Control) -> Option<usize> {
    actions.iter().rev().find_map(|action| match action {
        UiAction::Choose { control, index } if *control == wanted => Some(*index),
        _ => None,
    })
}

fn form(id: &str) -> PromptForm {
    PromptForm {
        id: format!(" {id} "),
        name: " Name ".to_owned(),
        system_prompt: " system ".to_owned(),
        user_template: "{target}".to_owned(),
        model: "  ".to_owned(),
        temperature: "0.5".to_owned(),
        temperature_bits: Some(0.5_f32.to_bits()),
        max_tokens: " 512 ".to_owned(),
        selection_default: " translate ".to_owned(),
        hover_default: "explain".to_owned(),
    }
}

#[test]
fn temperatures_agree_with_their_numbers() {
    for value in [
        "0", "-0", "-0.0", "2", "2.0", "2.0000002", "1e-45", "-1e-45", "nan", "inf", "-1", "1.25",
    ] {
        let number = value.parse::<f32>().unwrap();
        let expected = number.is_finite() && (0.0..=2.0).contains(&number);
        assert_eq!(parse_f32(value, UiLanguage::English).is_ok(), expected);
    }
}

#[test]
fn english_texts_tell_their_keys() {
    for key in all_text_keys() {
        assert_eq!(
            text_key_from_english(ui_text(UiLanguage::English, key)),
            Some(key)
        );
    }
    assert_eq!(text_key_from_english(""), None);
    assert_eq!(
        ui_text(UiLanguage::SimplifiedChinese, TextKey::Settings),
        "\u{8bbe}\u{7f6e}"
    );
}

#[test]
fn sources_have_labels_in_both_languages() {
    assert_eq!(
        source_label(UiLanguage::English, ExtractionSource::UiaPoint),
        "hover"
    );
    assert_eq!(
        source_label(UiLanguage::SimplifiedChinese, ExtractionSource::Ocr),
        "OCR"
    );
}

#[test]
fn scaling_is_exact_at_whole_pixels_and_never_zero() {
    assert_eq!(scale_for_dpi(980, 144), 1470);
    assert_eq!(unscale_from_dpi(1470, 144), 980);
    assert_eq!(scale_for_dpi(0, 96), 1);
    assert_eq!(scale_for_dpi(-5, 192), 1);
    assert_eq!(scale_for_dpi(i32::MAX, u32::MAX), i32::MAX);
    assert_eq!(scale_for_dpi(100, 10), 100);
    assert_eq!(unscale_from_dpi(3, 100), 2);
    assert_eq!(window_size(192), (1960, 1360));
    assert_eq!(min_track_size(96), (956, 650));
    assert_eq!(dpi_of_message(0x0090_0090), 144);
    assert_eq!(dpi_of_message(0x0010_0010), 96);
}

#[test]
fn frames_keep_at_least_a_pixel() {
    assert_eq!(
        suggested_frame(ScreenRect::new(5, 5, 3, 9)),
        Frame {
            left: 5,
            top: 5,
            width: 1,
            height: 4
        }
    );
    assert_eq!(
        focus_rect(ScreenRect::new(0, 0, 100, 40), 96),
        ScreenRect::new(4, 4, 96, 36)
    );
    assert_eq!(button_radius(96), 8);
}

#[test]
fn controls_are_numbered_once_and_placed_in_the_page() {
    let controls = all_controls();
    assert_eq!(controls.len(), 72);
    let mut numbers: Vec<usize> = controls
        .iter()
        .map(|control| control_spec(*control).id)
        .filter(|id| *id != 0)
        .collect();
    let count = numbers.len();
    numbers.sort();
    numbers.dedup();
    assert_eq!(numbers.len(), count);
    assert_eq!(
        creation_frame(Control::Endpoint, 96),
        Frame {
            left: 220,
            top: 16,
            width: 520,
            height: 26
        }
    );
    assert_eq!(
        apply_manager_layout(Control::Endpoint, 980, 680, 96),
        Frame {
            left: 220,
            top: 72,
            width: 520,
            height: 26
        }
    );
    assert_eq!(
        apply_manager_layout(Control::HistoryPage, 980, 680, 96),
        Frame {
            left: 176,
            top: 1,
            width: 804,
            height: 679
        }
    );
    let style = control_style(
        ControlKind::Edit {
            password: true,
            multiline: false,
            read_only: false,
        },
        Some(Page::Settings),
    );
    assert_eq!(style, 0x5481_00a0);
    assert_eq!(control_style(ControlKind::Page, None) & WS_VISIBLE, 0);
}

#[test]
fn buttons_show_their_state() {
    let pressed = draw_manager_button(ID_SAVE_PROMPT, 1, Page::Settings);
    assert_eq!(pressed.fill, SURFACE_HOVER);
    let disabled = draw_manager_button(ID_SAVE_PROMPT, 5, Page::Settings);
    assert_eq!(disabled.fill, MANAGER_BG);
    let focused = draw_manager_button(ID_DELETE_KEY, 0x10, Page::Settings);
    assert!(focused.focused);
    assert_eq!((focused.text, focused.border), (DANGER, ACCENT));
    let selected = draw_manager_button(ID_PROMPTS_TAB, 0, Page::Prompts);
    assert_eq!((selected.fill, selected.border), (ACCENT, ACCENT));
    assert_eq!(themed_control_color(0x0138, true).brush, Brush::Navigation);
    assert_eq!(themed_control_color(0x0138, false).brush, Brush::Background);
    assert_eq!(themed_control_color(0x0133, false).brush, Brush::Surface);
}

#[test]
fn pages_paint_their_titles() {
    let paint = paint_page(page_identity(7, 5, 6, 7), 96).expect("a page");
    assert_eq!(paint.title, TextKey::History);
    assert_eq!(paint.subtitle, TextKey::HistorySubtitle);
    assert!(paint_page(page_identity(9, 5, 6, 7), 96).is_none());
    let paint = paint_manager(980, 680, 96);
    assert_eq!(paint.brand, ScreenRect::new(16, 18, 164, 48));
    assert_eq!(paint.nav.right, 176);
}

#[test]
fn commands_depend_on_the_control_and_the_page() {
    assert_eq!(
        handle_command(ID_HISTORY_LIST + 0x1_0000, Page::Settings),
        ManagerCommand::HistorySelectionChanged
    );
    assert_eq!(
        handle_command(ID_HISTORY_PROMPT + 0x1_0000, Page::History),
        ManagerCommand::RefreshHistory
    );
    assert_eq!(
        handle_command(ID_HISTORY_PROMPT + 0x1_0000, Page::Settings),
        ManagerCommand::Nothing
    );
    assert_eq!(
        handle_command(ID_LANGUAGE + 0x1_0000, Page::Settings),
        ManagerCommand::SaveLanguage
    );
    assert_eq!(
        handle_command(ID_PROMPTS_TAB, Page::Settings),
        ManagerCommand::SwitchPage(Page::Prompts)
    );
    assert_eq!(manager_message(WM_CREATE, false), ManagerMessage::Create);
    assert_eq!(manager_message(WM_SIZE, false), ManagerMessage::Default);
    assert_eq!(manager_message(0x0134, true), ManagerMessage::ColorControl);
    assert_eq!(page_message(WM_DRAWITEM, true), PageMessage::Forward);
    assert_eq!(page_message(WM_DRAWITEM, false), PageMessage::Default);
    assert_eq!(page_message(WM_PAINT, true), PageMessage::Paint);
}

#[test]
fn configuration_falls_back_to_the_default() {
    let (config, error) = load_config(
        ConfigSource::Failed {
            detail: "line 3".to_owned(),
        },
        default_config(),
    );
    assert_eq!(config, default_config());
    assert_eq!(error.as_deref(), Some("Could not load config: line 3"));
    let (_, error) = load_config(ConfigSource::NoPath, default_config());
    assert!(error.unwrap().contains("LOCALAPPDATA"));
    assert_eq!(load_config(ConfigSource::Missing, default_config()).1, None);
}

#[test]
fn first_contents_show_the_configuration() {
    let mut manager = manager();
    let mut actions = Vec::new();
    assert!(manager.populate(selections(), &mut actions));
    assert_eq!(
        shown(&actions, Control::Endpoint).as_deref(),
        Some("http://127.0.0.1:1")
    );
    assert_eq!(
        shown(&actions, Control::ProfileNumber).as_deref(),
        Some("1 of 2")
    );
    assert_eq!(
        choices(&actions, Control::SettingsHoverDefault),
        vec!["translate \u{2014} translate", "explain \u{2014} explain"]
    );
    assert_eq!(chosen(&actions, Control::SettingsHoverDefault), Some(1));
    assert_eq!(chosen(&actions, Control::Language), Some(0));
    manager.report_resident_start(&mut actions);
    assert_eq!(
        shown(&actions, Control::Status).as_deref(),
        Some("Resident started and is ready.")
    );
}

#[test]
fn saved_settings_take_effect_and_refused_ones_do_not() {
    let mut manager = manager();
    let mut actions = Vec::new();
    let entered = SettingsForm {
        endpoint: " http://other ".to_owned(),
        model: "m".to_owned(),
        credential_target: "t".to_owned(),
        selection_default: Some(1),
        hover_default: Some(9),
    };
    let next = manager.begin_save_settings(&entered, &mut actions);
    assert_eq!(next.provider.endpoint, "http://other");
    assert_eq!(next.defaults.selection, "explain");
    assert_eq!(next.defaults.hover, "explain");
    let refused = next.duplicate();
    assert!(!manager.finish_save_settings(
        refused,
        SaveReport::Invalid { detail: "why" },
        &mut actions
    ));
    assert_eq!(
        shown(&actions, Control::Status).as_deref(),
        Some("Cannot save settings: why")
    );
    assert_eq!(manager.config, default_config());
    assert!(manager.finish_save_settings(
        next,
        SaveReport::Saved {
            refresh: RefreshOutcome::Acknowledged
        },
        &mut actions
    ));
    assert_eq!(manager.config.provider.endpoint, "http://other");
    assert_eq!(save_next(SaveStep::Validate, true), SaveStep::Write);
    assert_eq!(save_next(SaveStep::Write, false), SaveStep::Report);
    assert_eq!(
        selected_profile_index(&manager.config.profiles, "explain"),
        Some(1)
    );
    manager.has_config_path = false;
    assert_eq!(
        manager.save_target(),
        Err("LOCALAPPDATA is not available".to_owned())
    );
}

#[test]
fn keys_are_saved_and_deleted_with_a_report() {
    let mut manager = manager();
    let mut actions = Vec::new();
    assert_eq!(manager.begin_save_key("target", "  ", &mut actions), None);
    assert_eq!(
        manager.begin_save_key(" target ", "sk", &mut actions),
        Some("target".to_owned())
    );
    assert!(manager.finish_save_key("target", KeyReport::Done, &mut actions));
    assert_eq!(manager.credential_status, CredentialStatusState::Present);
    assert_eq!(shown(&actions, Control::ApiKey).as_deref(), Some(""));
    manager.report_credential_refresh(RefreshOutcome::Acknowledged, false, &mut actions);
    assert!(shown(&actions, Control::Status).unwrap().contains("confirmed"));
    assert!(!manager.finish_delete_key("other", KeyReport::Done, &mut actions));
    assert_eq!(manager.credential_status, CredentialStatusState::Absent);
    assert!(!manager.finish_delete_key(
        "target",
        KeyReport::Failed { detail: "denied" },
        &mut actions
    ));
    assert_eq!(
        shown(&actions, Control::Status).as_deref(),
        Some("Could not delete API key: denied")
    );
    manager.update_credential_status(credential_state(Ok(true)), &mut actions);
    assert_eq!(
        shown(&actions, Control::CredentialStatus).as_deref(),
        Some("A saved key is present (value hidden).")
    );
}

#[test]
fn draft_is_discarded_when_its_page_is_left() {
    let mut manager = manager();
    let mut actions = Vec::new();
    assert_eq!(
        manager.switch_view(Page::Prompts, &mut actions),
        AfterSwitch::Nothing
    );
    manager.new_prompt(new_prompt("template"), &mut actions);
    assert_eq!(
        shown(&actions, Control::ProfileId).as_deref(),
        Some("custom-3")
    );
    assert_eq!(
        shown(&actions, Control::ProfileNumber).as_deref(),
        Some("New draft")
    );
    assert_eq!(manager.config, default_config());
    assert_eq!(
        manager.switch_view(Page::History, &mut actions),
        AfterSwitch::RefreshHistory
    );
    assert!(manager.draft_prompt.is_none());
    assert_eq!(
        shown(&actions, Control::ProfileId).as_deref(),
        Some("translate")
    );
    assert_eq!(
        manager.switch_view(Page::Settings, &mut actions),
        AfterSwitch::ReadCredential
    );
}

#[test]
fn draft_becomes_the_last_profile_when_it_is_saved() {
    let mut manager = manager();
    let mut actions = Vec::new();
    manager.new_prompt(new_prompt("template"), &mut actions);
    let entered = form("fresh");
    let prompt = manager
        .save_prompt(&entered, &mut actions)
        .expect("a profile");
    assert_eq!(prompt.id, "fresh");
    assert_eq!(prompt.model, None);
    assert_eq!(prompt.temperature, Some(0.5_f32.to_bits()));
    assert_eq!(prompt.max_output_tokens, Some(512));
    let next = manager.stage_prompt(prompt, &entered);
    assert_eq!(manager.config, default_config());
    manager.finish_save_prompt(
        next,
        SaveReport::Saved {
            refresh: RefreshOutcome::ResidentAbsent,
        },
        selections(),
        &mut actions,
    );
    assert_eq!(manager.profile_index, 2);
    assert!(manager.draft_prompt.is_none());
    assert_eq!(manager.config.profiles[2].id, "fresh");
    assert_eq!(
        shown(&actions, Control::ProfileNumber).as_deref(),
        Some("3 of 3")
    );
}

#[test]
fn renamed_profile_keeps_its_defaults() {
    let config = default_config();
    let renamed = apply_prompt(&config, Some(0), Some("translate"), new_prompt("renamed"));
    assert_eq!(renamed.defaults.selection, "renamed");
    assert_eq!(renamed.defaults.hover, "explain");
    assert_eq!(renamed.profiles[0].id, "renamed");
}

#[test]
fn faulty_numbers_are_shown_beside_the_form() {
    let manager = manager();
    let mut actions = Vec::new();
    let mut entered = form("x");
    entered.max_tokens = "0".to_owned();
    assert!(manager.save_prompt(&entered, &mut actions).is_none());
    assert_eq!(
        shown(&actions, Control::PromptStatus).as_deref(),
        Some("Max output tokens must be a positive integer.")
    );
    entered.temperature_bits = None;
    assert_eq!(
        prompt_from_form(&entered, UiLanguage::English).unwrap_err(),
        "Temperature must be a number from 0 to 2."
    );
    manager.refuse_prompt("no target", &mut actions);
    assert_eq!(
        shown(&actions, Control::PromptStatus).as_deref(),
        Some("Prompt is invalid: no target")
    );
}

#[test]
fn profiles_are_walked_forth_and_back() {
    let mut manager = manager();
    let mut actions = Vec::new();
    manager.next_prompt(&mut actions);
    assert_eq!(manager.profile_index, 1);
    manager.previous_prompt(&mut actions);
    assert_eq!(manager.profile_index, 0);
    manager.previous_prompt(&mut actions);
    assert_eq!(manager.profile_index, 0);
    manager.next_prompt(&mut actions);
    manager.next_prompt(&mut actions);
    assert_eq!(manager.profile_index, 0);
}

#[test]
fn history_is_listed_shown_and_deleted() {
    let mut manager = manager();
    let mut actions = Vec::new();
    let query = manager.history_query(
        "  word ".to_owned(),
        HistorySelections {
            prompt: Some(2),
            source: Some(4),
            order: Some(1),
        },
    );
    assert_eq!(query.search.as_deref(), Some("word"));
    assert_eq!(query.prompt_id.as_deref(), Some("explain"));
    assert_eq!(query.source, Some(ExtractionSource::Ocr));
    assert_eq!(query.order, HistoryOrder::OldestFirst);
    manager.refresh_history(
        Ok(vec![entry(7, "one\ttwo", "out"), entry(8, "b", "c")]),
        &mut actions,
    );
    let rows: Vec<&str> = actions
        .iter()
        .filter_map(|action| match action {
            UiAction::AddRow { text } => Some(text.as_str()),
            _ => None,
        })
        .collect();
    assert_eq!(rows, vec!["one two  |  out", "b  |  c"]);
    assert_eq!(
        shown(&actions, Control::HistoryMeta).as_deref(),
        Some("2 entries")
    );
    manager.history_selection_changed(0, &mut actions);
    assert_eq!(
        shown(&actions, Control::HistoryContext).as_deref(),
        Some("(no context)")
    );
    assert_eq!(
        shown(&actions, Control::HistoryMeta).as_deref(),
        Some("2026-08-19T12:00:00Z \u{b7} selection \u{b7} translate \u{b7} test \u{b7} cache")
    );
    assert_eq!(
        manager.copy_history_output(1, &mut actions).as_deref(),
        Some("c")
    );
    assert_eq!(manager.copy_history_output(-1, &mut actions), None);
    let deletion = manager.delete_history(0, &mut actions).expect("an entry");
    assert_eq!(deletion.id, 7);
    assert_eq!(deletion.question, "Delete this history entry?\n\none two");
    assert!(manager.finish_delete_history(DeletionReport::Deleted, &mut actions));
    assert!(!manager.finish_delete_history(DeletionReport::AlreadyDeleted, &mut actions));
    manager.report_copy(None, &mut actions);
    assert_eq!(
        shown(&actions, Control::Status).as_deref(),
        Some("Output copied to the clipboard.")
    );
    manager.refresh_history(Err("locked".to_owned()), &mut actions);
    assert!(manager.history_entries.is_empty());
    assert_eq!(
        shown(&actions, Control::Status).as_deref(),
        Some("History unavailable: locked")
    );
    assert!(manager.history_path_error().contains("history"));
}

#[test]
fn long_lines_are_cut() {
    let long = "x".repeat(181);
    let line = single_line(&long);
    assert_eq!(line.chars().count(), 180);
    assert!(line.ends_with("..."));
    assert_eq!(single_line(&"y".repeat(180)), "y".repeat(180));
    assert_eq!(single_line("a\r\nb"), "a  b");
    assert_eq!(nonempty("  ".to_owned()), None);
    assert_eq!(nonempty(" a ".to_owned()), Some("a".to_owned()));
}

#[test]
fn language_is_saved_alone() {
    let mut manager = manager();
    let mut actions = Vec::new();
    assert!(matches!(
        manager.save_manager_language(Some(0), &mut actions),
        LanguageStep::Stay
    ));
    assert!(actions.is_empty());
    assert!(matches!(
        manager.save_manager_language(None, &mut actions),
        LanguageStep::Stay
    ));
    assert_eq!(chosen(&actions, Control::Language), Some(0));
    let next = match manager.save_manager_language(Some(1), &mut actions) {
        LanguageStep::Save(next) => next,
        LanguageStep::Stay => panic!("nothing to save"),
    };
    manager.finish_language(
        next,
        KeyReport::Done,
        selections(),
        -1,
        &mut actions,
    );
    assert_eq!(manager.language(), UiLanguage::SimplifiedChinese);
    assert_eq!(chosen(&actions, Control::Language), Some(1));
    assert_eq!(
        shown(&actions, Control::Status).unwrap(),
        status_text(
            UiLanguage::SimplifiedChinese,
            StatusEvent::InterfaceLanguageSaved
        )
    );
}

#[test]
fn clipboard_memory_is_freed_unless_it_is_handed_over() {
    let (units, bytes) = clipboard_payload("a\u{1F600}", UiLanguage::English).expect("payload");
    assert_eq!(units, vec![0x61, 0xd83d, 0xde00, 0]);
    assert_eq!(bytes, 8);
    assert_eq!(
        copy_text_to_clipboard(PutStep::Lock, false),
        PutNext::End {
            close: false,
            free: true
        }
    );
    assert_eq!(
        copy_text_to_clipboard(PutStep::Replace, true),
        PutNext::End {
            close: true,
            free: false
        }
    );
}
