//! The controls of the manager's window: what they are, where they stand, and
//! the numbers by which assistive tools find them.

use crate::geometry::{max_int, ScreenRect};
use crate::manager_layout::{
    close_top, control_frame, frame_of, nav_button, page_rect, place_control, scaled,
    scaled_rect_of, status_rect, unscaled, Frame, ManagerLayout, Page,
    ID_CLOSE, ID_DELETE_KEY, ID_HISTORY_COPY, ID_HISTORY_DELETE, ID_HISTORY_LIST, ID_HISTORY_ORDER,
    ID_HISTORY_PROMPT, ID_HISTORY_REFRESH, ID_HISTORY_SOURCE, ID_HISTORY_TAB, ID_LANGUAGE,
    ID_NEW_PROMPT, ID_NEXT_PROMPT, ID_PREVIOUS_PROMPT, ID_PROMPTS_TAB, ID_SAVE_KEY, ID_SAVE_PROMPT,
    ID_SAVE_SETTINGS, ID_SETTINGS_TAB, MIN_CLIENT_HEIGHT, MIN_CONTENT_WIDTH, PAGE_HEADER_HEIGHT,
};
use crate::manager_text::TextKey;
use vstd::prelude::*;

verus! {

pub const ID_SETTINGS_PAGE: usize = 150;

pub const ID_PROMPTS_PAGE: usize = 151;

pub const ID_HISTORY_PAGE: usize = 152;

pub const ID_SETTINGS_ENDPOINT: usize = 160;

pub const ID_SETTINGS_MODEL: usize = 161;

pub const ID_SETTINGS_CREDENTIAL_TARGET: usize = 162;

pub const ID_SETTINGS_API_KEY: usize = 163;

pub const ID_SETTINGS_SELECTION_DEFAULT: usize = 164;

pub const ID_SETTINGS_HOVER_DEFAULT: usize = 165;

pub const ID_PROMPT_ID: usize = 166;

pub const ID_PROMPT_NAME: usize = 167;

pub const ID_PROMPT_SYSTEM: usize = 168;

pub const ID_PROMPT_USER_TEMPLATE: usize = 169;

pub const ID_PROMPT_MODEL: usize = 170;

pub const ID_PROMPT_TEMPERATURE: usize = 171;

pub const ID_PROMPT_MAX_TOKENS: usize = 172;

pub const ID_PROMPT_SELECTION_DEFAULT: usize = 173;

pub const ID_PROMPT_HOVER_DEFAULT: usize = 174;

pub const ID_HISTORY_SEARCH: usize = 175;

/// The top of the pages when they are made.
pub const PAGE_TOP: i32 = 56;

pub const WS_CHILD: u32 = 0x4000_0000;

pub const WS_VISIBLE: u32 = 0x1000_0000;

pub const WS_CLIPSIBLINGS: u32 = 0x0400_0000;

pub const WS_CLIPCHILDREN: u32 = 0x0200_0000;

pub const WS_BORDER: u32 = 0x0080_0000;

pub const WS_VSCROLL: u32 = 0x0020_0000;

pub const WS_TABSTOP: u32 = 0x0001_0000;

pub const BS_OWNERDRAW: u32 = 0x000b;

pub const ES_AUTOHSCROLL: u32 = 0x0080;

pub const ES_AUTOVSCROLL: u32 = 0x0040;

pub const ES_PASSWORD: u32 = 0x0020;

pub const ES_MULTILINE: u32 = 0x0004;

pub const CBS_DROPDOWNLIST: u32 = 0x0003;

pub const LBS_NOTIFY: u32 = 0x0001;

/// A control of the window.
#[derive(Clone, Copy, Debug, PartialEq, Eq, Structural)]
pub enum Control {
    SettingsNav,
    PromptsNav,
    HistoryNav,
    Close,
    SettingsPage,
    PromptsPage,
    HistoryPage,
    InterfaceLanguageLabel,
    Language,
    ProviderEndpointLabel,
    Endpoint,
    ModelLabel,
    Model,
    CredentialTargetLabel,
    CredentialTarget,
    ApiKeyLabel,
    ApiKey,
    SaveKeyButton,
    DeleteSavedKeyButton,
    CredentialStatus,
    SelectionDefaultProfileLabel,
    SettingsSelectionDefault,
    HoverDefaultProfileLabel,
    SettingsHoverDefault,
    SaveSettingsButton,
    CredentialPrivacyLabel,
    ProfileLabel,
    ProfileNumber,
    PreviousButton,
    NextButton,
    NewButton,
    IdLabel,
    ProfileId,
    NameLabel,
    ProfileName,
    SystemPromptLabel,
    SystemPrompt,
    UserTemplateLabel,
    UserTemplate,
    ModelOverrideLabel,
    ProfileModel,
    TemperatureLabel,
    Temperature,
    MaxOutputTokensLabel,
    MaxTokens,
    DefaultsSelectionHoverLabel,
    PromptSelectionDefault,
    PromptHoverDefault,
    PromptStatus,
    SavePromptButton,
    PromptHintLabel,
    SearchTargetOutputLabel,
    HistorySearch,
    RefreshButton,
    CopyOutputButton,
    PromptLabel,
    HistoryPrompt,
    SourceLabel,
    HistorySource,
    OrderLabel,
    HistoryOrder,
    HistoryList,
    TargetLabel,
    HistoryTarget,
    ContextLabel,
    HistoryContext,
    OutputLabel,
    HistoryOutput,
    HistoryMeta,
    DeleteSelectedButton,
    HistoryPrivacyLabel,
    Status,
}

/// What a control is.
#[derive(Clone, Copy, Debug, PartialEq, Eq, Structural)]
pub enum ControlKind {
    Page,
    Label,
    Button,
    Edit { password: bool, multiline: bool, read_only: bool },
    Combo,
    List,
}

/// How a control is made. The number is zero where it has none, and the text
/// comes from the catalog where it is fixed. The place is that in the window;
/// the height of a combo box is that of its open list.
#[derive(Clone, Copy, Debug, PartialEq, Eq, Structural)]
pub struct ControlSpec {
    pub kind: ControlKind,
    pub id: usize,
    pub key: Option<TextKey>,
    pub page: Option<Page>,
    pub x: i32,
    pub y: i32,
    pub width: i32,
    pub height: i32,
}

/// The order in which the controls are made.
pub open spec fn control_index(control: Control) -> int {
    match control {
        Control::SettingsNav => 0,
        Control::PromptsNav => 1,
        Control::HistoryNav => 2,
        Control::Close => 3,
        Control::SettingsPage => 4,
        Control::PromptsPage => 5,
        Control::HistoryPage => 6,
        Control::InterfaceLanguageLabel => 7,
        Control::Language => 8,
        Control::ProviderEndpointLabel => 9,
        Control::Endpoint => 10,
        Control::ModelLabel => 11,
        Control::Model => 12,
        Control::CredentialTargetLabel => 13,
        Control::CredentialTarget => 14,
        Control::ApiKeyLabel => 15,
        Control::ApiKey => 16,
        Control::SaveKeyButton => 17,
        Control::DeleteSavedKeyButton => 18,
        Control::CredentialStatus => 19,
        Control::SelectionDefaultProfileLabel => 20,
        Control::SettingsSelectionDefault => 21,
        Control::HoverDefaultProfileLabel => 22,
        Control::SettingsHoverDefault => 23,
        Control::SaveSettingsButton => 24,
        Control::CredentialPrivacyLabel => 25,
        Control::ProfileLabel => 26,
        Control::ProfileNumber => 27,
        Control::PreviousButton => 28,
        Control::NextButton => 29,
        Control::NewButton => 30,
        Control::IdLabel => 31,
        Control::ProfileId => 32,
        Control::NameLabel => 33,
        Control::ProfileName => 34,
        Control::SystemPromptLabel => 35,
        Control::SystemPrompt => 36,
        Control::UserTemplateLabel => 37,
        Control::UserTemplate => 38,
        Control::ModelOverrideLabel => 39,
        Control::ProfileModel => 40,
        Control::TemperatureLabel => 41,
        Control::Temperature => 42,
        Control::MaxOutputTokensLabel => 43,
        Control::MaxTokens => 44,
        Control::DefaultsSelectionHoverLabel => 45,
        Control::PromptSelectionDefault => 46,
        Control::PromptHoverDefault => 47,
        Control::PromptStatus => 48,
        Control::SavePromptButton => 49,
        Control::PromptHintLabel => 50,
        Control::SearchTargetOutputLabel => 51,
        Control::HistorySearch => 52,
        Control::RefreshButton => 53,
        Control::CopyOutputButton => 54,
        Control::PromptLabel => 55,
        Control::HistoryPrompt => 56,
        Control::SourceLabel => 57,
        Control::HistorySource => 58,
        Control::OrderLabel => 59,
        Control::HistoryOrder => 60,
        Control::HistoryList => 61,
        Control::TargetLabel => 62,
        Control::HistoryTarget => 63,
        Control::ContextLabel => 64,
        Control::HistoryContext => 65,
        Control::OutputLabel => 66,
        Control::HistoryOutput => 67,
        Control::HistoryMeta => 68,
        Control::DeleteSelectedButton => 69,
        Control::HistoryPrivacyLabel => 70,
        Control::Status => 71,
    }
}

/// Every control, once, in the order in which they are made.
pub fn all_controls() -> (controls: Vec<Control>)
    ensures
        controls@.len() == 72,
        forall|control: Control| controls@[#[trigger] control_index(control)] == control,
{
    vec![
        Control::SettingsNav,
        Control::PromptsNav,
        Control::HistoryNav,
        Control::Close,
        Control::SettingsPage,
        Control::PromptsPage,
        Control::HistoryPage,
        Control::InterfaceLanguageLabel,
        Control::Language,
        Control::ProviderEndpointLabel,
        Control::Endpoint,
        Control::ModelLabel,
        Control::Model,
        Control::CredentialTargetLabel,
        Control::CredentialTarget,
        Control::ApiKeyLabel,
        Control::ApiKey,
        Control::SaveKeyButton,
        Control::DeleteSavedKeyButton,
        Control::CredentialStatus,
        Control::SelectionDefaultProfileLabel,
        Control::SettingsSelectionDefault,
        Control::HoverDefaultProfileLabel,
        Control::SettingsHoverDefault,
        Control::SaveSettingsButton,
        Control::CredentialPrivacyLabel,
        Control::ProfileLabel,
        Control::ProfileNumber,
        Control::PreviousButton,
        Control::NextButton,
        Control::NewButton,
        Control::IdLabel,
        Control::ProfileId,
        Control::NameLabel,
        Control::ProfileName,
        Control::SystemPromptLabel,
        Control::SystemPrompt,
        Control::UserTemplateLabel,
        Control::UserTemplate,
        Control::ModelOverrideLabel,
        Control::ProfileModel,
        Control::TemperatureLabel,
        Control::Temperature,
        Control::MaxOutputTokensLabel,
        Control::MaxTokens,
        Control::DefaultsSelectionHoverLabel,
        Control::PromptSelectionDefault,
        Control::PromptHoverDefault,
        Control::PromptStatus,
        Control::SavePromptButton,
        Control::PromptHintLabel,
        Control::SearchTargetOutputLabel,
        Control::HistorySearch,
        Control::RefreshButton,
        Control::CopyOutputButton,
        Control::PromptLabel,
        Control::HistoryPrompt,
        Control::SourceLabel,
        Control::HistorySource,
        Control::OrderLabel,
        Control::HistoryOrder,
        Control::HistoryList,
        Control::TargetLabel,
        Control::HistoryTarget,
        Control::ContextLabel,
        Control::HistoryContext,
        Control::OutputLabel,
        Control::HistoryOutput,
        Control::HistoryMeta,
        Control::DeleteSelectedButton,
        Control::HistoryPrivacyLabel,
        Control::Status,
    ]
}

pub open spec fn page_container(id: usize) -> ControlSpec {
    ControlSpec {
        kind: ControlKind::Page,
        id,
        key: None,
        page: None,
        x: 0,
        y: PAGE_TOP,
        width: 780,
        height: 528,
    }
}

pub open spec fn label(
    key: Option<TextKey>,
    x: i32,
    y: i32,
    width: i32,
    height: i32,
    page: Option<Page>,
) -> ControlSpec {
    ControlSpec { kind: ControlKind::Label, id: 0, key, page, x, y, width, height }
}

pub open spec fn button(
    id: usize,
    key: TextKey,
    x: i32,
    y: i32,
    width: i32,
    height: i32,
    page: Option<Page>,
) -> ControlSpec {
    ControlSpec { kind: ControlKind::Button, id, key: Some(key), page, x, y, width, height }
}

/// A field of one line.
pub open spec fn edit(
    id: usize,
    x: i32,
    y: i32,
    width: i32,
    height: i32,
    page: Page,
) -> ControlSpec {
    ControlSpec {
        kind: ControlKind::Edit { password: false, multiline: false, read_only: false },
        id,
        key: None,
        page: Some(page),
        x,
        y,
        width,
        height,
    }
}

pub open spec fn combo(
    id: usize,
    x: i32,
    y: i32,
    width: i32,
    height: i32,
    page: Page,
) -> ControlSpec {
    ControlSpec {
        kind: ControlKind::Combo,
        id,
        key: None,
        page: Some(page),
        x,
        y,
        width,
        height,
    }
}

/// How each control is made.
pub open spec fn control_model(control: Control) -> ControlSpec {
    match control {
        Control::SettingsNav => button(ID_SETTINGS_TAB, TextKey::Settings, 18, 16, 112, 32, None),
        Control::PromptsNav => button(ID_PROMPTS_TAB, TextKey::Prompts, 136, 16, 112, 32, None),
        Control::HistoryNav => button(ID_HISTORY_TAB, TextKey::History, 254, 16, 112, 32, None),
        Control::Close => button(ID_CLOSE, TextKey::Close, 652, 16, 100, 32, None),
        Control::SettingsPage => page_container(ID_SETTINGS_PAGE),
        Control::PromptsPage => page_container(ID_PROMPTS_PAGE),
        Control::HistoryPage => page_container(ID_HISTORY_PAGE),
        Control::InterfaceLanguageLabel => label(Some(TextKey::InterfaceLanguage), 486, 24, 122, 22, Some(Page::Settings)),
        Control::Language => combo(ID_LANGUAGE, 610, 18, 130, 180, Page::Settings),
        Control::ProviderEndpointLabel => label(Some(TextKey::ProviderEndpoint), 28, 76, 180, 22, Some(Page::Settings)),
        Control::Endpoint => edit(ID_SETTINGS_ENDPOINT, 220, 72, 520, 26, Page::Settings),
        Control::ModelLabel => label(Some(TextKey::Model), 28, 116, 180, 22, Some(Page::Settings)),
        Control::Model => edit(ID_SETTINGS_MODEL, 220, 112, 520, 26, Page::Settings),
        Control::CredentialTargetLabel => label(Some(TextKey::CredentialTarget), 28, 156, 180, 22, Some(Page::Settings)),
        Control::CredentialTarget => edit(ID_SETTINGS_CREDENTIAL_TARGET, 220, 152, 520, 26, Page::Settings),
        Control::ApiKeyLabel => label(Some(TextKey::ApiKey), 28, 196, 180, 22, Some(Page::Settings)),
        Control::ApiKey => ControlSpec {
            kind: ControlKind::Edit { password: true, multiline: false, read_only: false },
            ..edit(ID_SETTINGS_API_KEY, 220, 192, 380, 26, Page::Settings)
        },
        Control::SaveKeyButton => button(ID_SAVE_KEY, TextKey::SaveKey, 610, 191, 130, 28, Some(Page::Settings)),
        Control::DeleteSavedKeyButton => button(ID_DELETE_KEY, TextKey::DeleteSavedKey, 220, 228, 160, 28, Some(Page::Settings)),
        Control::CredentialStatus => label(None, 392, 232, 348, 22, Some(Page::Settings)),
        Control::SelectionDefaultProfileLabel => label(Some(TextKey::SelectionDefaultProfile), 28, 286, 180, 22, Some(Page::Settings)),
        Control::SettingsSelectionDefault => combo(ID_SETTINGS_SELECTION_DEFAULT, 220, 282, 520, 220, Page::Settings),
        Control::HoverDefaultProfileLabel => label(Some(TextKey::HoverDefaultProfile), 28, 326, 180, 22, Some(Page::Settings)),
        Control::SettingsHoverDefault => combo(ID_SETTINGS_HOVER_DEFAULT, 220, 322, 520, 220, Page::Settings),
        Control::SaveSettingsButton => button(ID_SAVE_SETTINGS, TextKey::SaveSettings, 220, 366, 160, 32, Some(Page::Settings)),
        Control::CredentialPrivacyLabel => label(Some(TextKey::CredentialPrivacy), 28, 420, 712, 36, Some(Page::Settings)),
        Control::ProfileLabel => label(Some(TextKey::Profile), 28, 76, 80, 22, Some(Page::Prompts)),
        Control::ProfileNumber => label(None, 112, 76, 120, 22, Some(Page::Prompts)),
        Control::PreviousButton => button(ID_PREVIOUS_PROMPT, TextKey::Previous, 270, 70, 100, 30, Some(Page::Prompts)),
        Control::NextButton => button(ID_NEXT_PROMPT, TextKey::Next, 378, 70, 86, 30, Some(Page::Prompts)),
        Control::NewButton => button(ID_NEW_PROMPT, TextKey::New, 472, 70, 86, 30, Some(Page::Prompts)),
        Control::IdLabel => label(Some(TextKey::Id), 28, 118, 180, 22, Some(Page::Prompts)),
        Control::ProfileId => edit(ID_PROMPT_ID, 220, 114, 520, 26, Page::Prompts),
        Control::NameLabel => label(Some(TextKey::Name), 28, 158, 180, 22, Some(Page::Prompts)),
        Control::ProfileName => edit(ID_PROMPT_NAME, 220, 154, 520, 26, Page::Prompts),
        Control::SystemPromptLabel => label(Some(TextKey::SystemPrompt), 28, 198, 180, 22, Some(Page::Prompts)),
        Control::SystemPrompt => ControlSpec {
            kind: ControlKind::Edit { password: false, multiline: true, read_only: false },
            ..edit(ID_PROMPT_SYSTEM, 220, 194, 520, 64, Page::Prompts)
        },
        Control::UserTemplateLabel => label(Some(TextKey::UserTemplate), 28, 278, 180, 22, Some(Page::Prompts)),
        Control::UserTemplate => ControlSpec {
            kind: ControlKind::Edit { password: false, multiline: true, read_only: false },
            ..edit(ID_PROMPT_USER_TEMPLATE, 220, 274, 520, 74, Page::Prompts)
        },
        Control::ModelOverrideLabel => label(Some(TextKey::ModelOverride), 28, 368, 180, 22, Some(Page::Prompts)),
        Control::ProfileModel => edit(ID_PROMPT_MODEL, 220, 364, 520, 26, Page::Prompts),
        Control::TemperatureLabel => label(Some(TextKey::Temperature), 28, 408, 180, 22, Some(Page::Prompts)),
        Control::Temperature => edit(ID_PROMPT_TEMPERATURE, 220, 404, 180, 26, Page::Prompts),
        Control::MaxOutputTokensLabel => label(Some(TextKey::MaxOutputTokens), 424, 408, 150, 22, Some(Page::Prompts)),
        Control::MaxTokens => edit(ID_PROMPT_MAX_TOKENS, 574, 404, 166, 26, Page::Prompts),
        Control::DefaultsSelectionHoverLabel => label(Some(TextKey::DefaultsSelectionHover), 28, 448, 180, 22, Some(Page::Prompts)),
        Control::PromptSelectionDefault => edit(ID_PROMPT_SELECTION_DEFAULT, 220, 444, 240, 26, Page::Prompts),
        Control::PromptHoverDefault => edit(ID_PROMPT_HOVER_DEFAULT, 500, 444, 240, 26, Page::Prompts),
        Control::PromptStatus => label(None, 28, 486, 712, 40, Some(Page::Prompts)),
        Control::SavePromptButton => button(ID_SAVE_PROMPT, TextKey::SavePrompt, 220, 536, 160, 32, Some(Page::Prompts)),
        Control::PromptHintLabel => label(Some(TextKey::PromptHint), 392, 538, 348, 34, Some(Page::Prompts)),
        Control::SearchTargetOutputLabel => label(Some(TextKey::SearchTargetOutput), 28, 76, 150, 22, Some(Page::History)),
        Control::HistorySearch => edit(ID_HISTORY_SEARCH, 178, 72, 330, 26, Page::History),
        Control::RefreshButton => button(ID_HISTORY_REFRESH, TextKey::Refresh, 520, 70, 100, 30, Some(Page::History)),
        Control::CopyOutputButton => button(ID_HISTORY_COPY, TextKey::CopyOutput, 628, 70, 112, 30, Some(Page::History)),
        Control::PromptLabel => label(Some(TextKey::Prompt), 28, 114, 70, 22, Some(Page::History)),
        Control::HistoryPrompt => combo(ID_HISTORY_PROMPT, 100, 110, 220, 260, Page::History),
        Control::SourceLabel => label(Some(TextKey::Source), 340, 114, 70, 22, Some(Page::History)),
        Control::HistorySource => combo(ID_HISTORY_SOURCE, 410, 110, 150, 260, Page::History),
        Control::OrderLabel => label(Some(TextKey::Order), 578, 114, 54, 22, Some(Page::History)),
        Control::HistoryOrder => combo(ID_HISTORY_ORDER, 632, 110, 108, 260, Page::History),
        Control::HistoryList => ControlSpec {
            kind: ControlKind::List,
            ..edit(ID_HISTORY_LIST, 28, 148, 712, 156, Page::History)
        },
        Control::TargetLabel => label(Some(TextKey::Target), 28, 320, 75, 22, Some(Page::History)),
        Control::HistoryTarget => ControlSpec {
            kind: ControlKind::Edit { password: false, multiline: true, read_only: true },
            ..edit(0, 103, 316, 637, 36, Page::History)
        },
        Control::ContextLabel => label(Some(TextKey::Context), 28, 364, 75, 22, Some(Page::History)),
        Control::HistoryContext => ControlSpec {
            kind: ControlKind::Edit { password: false, multiline: true, read_only: true },
            ..edit(0, 103, 360, 637, 54, Page::History)
        },
        Control::OutputLabel => label(Some(TextKey::Output), 28, 426, 75, 22, Some(Page::History)),
        Control::HistoryOutput => ControlSpec {
            kind: ControlKind::Edit { password: false, multiline: true, read_only: true },
            ..edit(0, 103, 422, 637, 92, Page::History)
        },
        Control::HistoryMeta => label(None, 28, 522, 712, 24, Some(Page::History)),
        Control::DeleteSelectedButton => button(ID_HISTORY_DELETE, TextKey::DeleteSelected, 28, 552, 140, 30, Some(Page::History)),
        Control::HistoryPrivacyLabel => label(Some(TextKey::HistoryPrivacy), 184, 554, 556, 28, Some(Page::History)),
        Control::Status => label(None, 28, 584, 712, 28, None),
    }
}

fn create_page_container(id: usize) -> (made: ControlSpec)
    ensures
        made == page_container(id),
{
    ControlSpec {
        kind: ControlKind::Page,
        id,
        key: None,
        page: None,
        x: 0,
        y: PAGE_TOP,
        width: 780,
        height: 528,
    }
}

fn add_label(
    key: Option<TextKey>,
    x: i32,
    y: i32,
    width: i32,
    height: i32,
    page: Option<Page>,
) -> (made: ControlSpec)
    ensures
        made == label(key, x, y, width, height, page),
{
    ControlSpec { kind: ControlKind::Label, id: 0, key, page, x, y, width, height }
}

fn add_button(
    id: usize,
    key: TextKey,
    x: i32,
    y: i32,
    width: i32,
    height: i32,
    page: Option<Page>,
) -> (made: ControlSpec)
    ensures
        made == button(id, key, x, y, width, height, page),
{
    ControlSpec { kind: ControlKind::Button, id, key: Some(key), page, x, y, width, height }
}

fn add_edit(id: usize, x: i32, y: i32, width: i32, height: i32, page: Page) -> (made: ControlSpec)
    ensures
        made == edit(id, x, y, width, height, page),
{
    ControlSpec {
        kind: ControlKind::Edit { password: false, multiline: false, read_only: false },
        id,
        key: None,
        page: Some(page),
        x,
        y,
        width,
        height,
    }
}

fn add_combo(id: usize, x: i32, y: i32, width: i32, height: i32, page: Page) -> (made: ControlSpec)
    ensures
        made == combo(id, x, y, width, height, page),
{
    ControlSpec {
        kind: ControlKind::Combo,
        id,
        key: None,
        page: Some(page),
        x,
        y,
        width,
        height,
    }
}

/// How a control is made.
pub fn control_spec(control: Control) -> (made: ControlSpec)
    ensures
        made == control_model(control),
{
    match control {
        Control::SettingsNav => add_button(ID_SETTINGS_TAB, TextKey::Settings, 18, 16, 112, 32, None),
        Control::PromptsNav => add_button(ID_PROMPTS_TAB, TextKey::Prompts, 136, 16, 112, 32, None),
        Control::HistoryNav => add_button(ID_HISTORY_TAB, TextKey::History, 254, 16, 112, 32, None),
        Control::Close => add_button(ID_CLOSE, TextKey::Close, 652, 16, 100, 32, None),
        Control::SettingsPage => create_page_container(ID_SETTINGS_PAGE),
        Control::PromptsPage => create_page_container(ID_PROMPTS_PAGE),
        Control::HistoryPage => create_page_container(ID_HISTORY_PAGE),
        Control::InterfaceLanguageLabel => add_label(Some(TextKey::InterfaceLanguage), 486, 24, 122, 22, Some(Page::Settings)),
        Control::Language => add_combo(ID_LANGUAGE, 610, 18, 130, 180, Page::Settings),
        Control::ProviderEndpointLabel => add_label(Some(TextKey::ProviderEndpoint), 28, 76, 180, 22, Some(Page::Settings)),
        Control::Endpoint => add_edit(ID_SETTINGS_ENDPOINT, 220, 72, 520, 26, Page::Settings),
        Control::ModelLabel => add_label(Some(TextKey::Model), 28, 116, 180, 22, Some(Page::Settings)),
        Control::Model => add_edit(ID_SETTINGS_MODEL, 220, 112, 520, 26, Page::Settings),
        Control::CredentialTargetLabel => add_label(Some(TextKey::CredentialTarget), 28, 156, 180, 22, Some(Page::Settings)),
        Control::CredentialTarget => add_edit(ID_SETTINGS_CREDENTIAL_TARGET, 220, 152, 520, 26, Page::Settings),
        Control::ApiKeyLabel => add_label(Some(TextKey::ApiKey), 28, 196, 180, 22, Some(Page::Settings)),
        Control::ApiKey => ControlSpec {
            kind: ControlKind::Edit { password: true, multiline: false, read_only: false },
            ..add_edit(ID_SETTINGS_API_KEY, 220, 192, 380, 26, Page::Settings)
        },
        Control::SaveKeyButton => add_button(ID_SAVE_KEY, TextKey::SaveKey, 610, 191, 130, 28, Some(Page::Settings)),
        Control::DeleteSavedKeyButton => add_button(ID_DELETE_KEY, TextKey::DeleteSavedKey, 220, 228, 160, 28, Some(Page::Settings)),
        Control::CredentialStatus => add_label(None, 392, 232, 348, 22, Some(Page::Settings)),
        Control::SelectionDefaultProfileLabel => add_label(Some(TextKey::SelectionDefaultProfile), 28, 286, 180, 22, Some(Page::Settings)),
        Control::SettingsSelectionDefault => add_combo(ID_SETTINGS_SELECTION_DEFAULT, 220, 282, 520, 220, Page::Settings),
        Control::HoverDefaultProfileLabel => add_label(Some(TextKey::HoverDefaultProfile), 28, 326, 180, 22, Some(Page::Settings)),
        Control::SettingsHoverDefault => add_combo(ID_SETTINGS_HOVER_DEFAULT, 220, 322, 520, 220, Page::Settings),
        Control::SaveSettingsButton => add_button(ID_SAVE_SETTINGS, TextKey::SaveSettings, 220, 366, 160, 32, Some(Page::Settings)),
        Control::CredentialPrivacyLabel => add_label(Some(TextKey::CredentialPrivacy), 28, 420, 712, 36, Some(Page::Settings)),
        Control::ProfileLabel => add_label(Some(TextKey::Profile), 28, 76, 80, 22, Some(Page::Prompts)),
        Control::ProfileNumber => add_label(None, 112, 76, 120, 22, Some(Page::Prompts)),
        Control::PreviousButton => add_button(ID_PREVIOUS_PROMPT, TextKey::Previous, 270, 70, 100, 30, Some(Page::Prompts)),
        Control::NextButton => add_button(ID_NEXT_PROMPT, TextKey::Next, 378, 70, 86, 30, Some(Page::Prompts)),
        Control::NewButton => add_button(ID_NEW_PROMPT, TextKey::New, 472, 70, 86, 30, Some(Page::Prompts)),
        Control::IdLabel => add_label(Some(TextKey::Id), 28, 118, 180, 22, Some(Page::Prompts)),
        Control::ProfileId => add_edit(ID_PROMPT_ID, 220, 114, 520, 26, Page::Prompts),
        Control::NameLabel => add_label(Some(TextKey::Name), 28, 158, 180, 22, Some(Page::Prompts)),
        Control::ProfileName => add_edit(ID_PROMPT_NAME, 220, 154, 520, 26, Page::Prompts),
        Control::SystemPromptLabel => add_label(Some(TextKey::SystemPrompt), 28, 198, 180, 22, Some(Page::Prompts)),
        Control::SystemPrompt => ControlSpec {
            kind: ControlKind::Edit { password: false, multiline: true, read_only: false },
            ..add_edit(ID_PROMPT_SYSTEM, 220, 194, 520, 64, Page::Prompts)
        },
        Control::UserTemplateLabel => add_label(Some(TextKey::UserTemplate), 28, 278, 180, 22, Some(Page::Prompts)),
        Control::UserTemplate => ControlSpec {
            kind: ControlKind::Edit { password: false, multiline: true, read_only: false },
            ..add_edit(ID_PROMPT_USER_TEMPLATE, 220, 274, 520, 74, Page::Prompts)
        },
        Control::ModelOverrideLabel => add_label(Some(TextKey::ModelOverride), 28, 368, 180, 22, Some(Page::Prompts)),
        Control::ProfileModel => add_edit(ID_PROMPT_MODEL, 220, 364, 520, 26, Page::Prompts),
        Control::TemperatureLabel => add_label(Some(TextKey::Temperature), 28, 408, 180, 22, Some(Page::Prompts)),
        Control::Temperature => add_edit(ID_PROMPT_TEMPERATURE, 220, 404, 180, 26, Page::Prompts),
        Control::MaxOutputTokensLabel => add_label(Some(TextKey::MaxOutputTokens), 424, 408, 150, 22, Some(Page::Prompts)),
        Control::MaxTokens => add_edit(ID_PROMPT_MAX_TOKENS, 574, 404, 166, 26, Page::Prompts),
        Control::DefaultsSelectionHoverLabel => add_label(Some(TextKey::DefaultsSelectionHover), 28, 448, 180, 22, Some(Page::Prompts)),
        Control::PromptSelectionDefault => add_edit(ID_PROMPT_SELECTION_DEFAULT, 220, 444, 240, 26, Page::Prompts),
        Control::PromptHoverDefault => add_edit(ID_PROMPT_HOVER_DEFAULT, 500, 444, 240, 26, Page::Prompts),
        Control::PromptStatus => add_label(None, 28, 486, 712, 40, Some(Page::Prompts)),
        Control::SavePromptButton => add_button(ID_SAVE_PROMPT, TextKey::SavePrompt, 220, 536, 160, 32, Some(Page::Prompts)),
        Control::PromptHintLabel => add_label(Some(TextKey::PromptHint), 392, 538, 348, 34, Some(Page::Prompts)),
        Control::SearchTargetOutputLabel => add_label(Some(TextKey::SearchTargetOutput), 28, 76, 150, 22, Some(Page::History)),
        Control::HistorySearch => add_edit(ID_HISTORY_SEARCH, 178, 72, 330, 26, Page::History),
        Control::RefreshButton => add_button(ID_HISTORY_REFRESH, TextKey::Refresh, 520, 70, 100, 30, Some(Page::History)),
        Control::CopyOutputButton => add_button(ID_HISTORY_COPY, TextKey::CopyOutput, 628, 70, 112, 30, Some(Page::History)),
        Control::PromptLabel => add_label(Some(TextKey::Prompt), 28, 114, 70, 22, Some(Page::History)),
        Control::HistoryPrompt => add_combo(ID_HISTORY_PROMPT, 100, 110, 220, 260, Page::History),
        Control::SourceLabel => add_label(Some(TextKey::Source), 340, 114, 70, 22, Some(Page::History)),
        Control::HistorySource => add_combo(ID_HISTORY_SOURCE, 410, 110, 150, 260, Page::History),
        Control::OrderLabel => add_label(Some(TextKey::Order), 578, 114, 54, 22, Some(Page::History)),
        Control::HistoryOrder => add_combo(ID_HISTORY_ORDER, 632, 110, 108, 260, Page::History),
        Control::HistoryList => ControlSpec {
            kind: ControlKind::List,
            ..add_edit(ID_HISTORY_LIST, 28, 148, 712, 156, Page::History)
        },
        Control::TargetLabel => add_label(Some(TextKey::Target), 28, 320, 75, 22, Some(Page::History)),
        Control::HistoryTarget => ControlSpec {
            kind: ControlKind::Edit { password: false, multiline: true, read_only: true },
            ..add_edit(0, 103, 316, 637, 36, Page::History)
        },
        Control::ContextLabel => add_label(Some(TextKey::Context), 28, 364, 75, 22, Some(Page::History)),
        Control::HistoryContext => ControlSpec {
            kind: ControlKind::Edit { password: false, multiline: true, read_only: true },
            ..add_edit(0, 103, 360, 637, 54, Page::History)
        },
        Control::OutputLabel => add_label(Some(TextKey::Output), 28, 426, 75, 22, Some(Page::History)),
        Control::HistoryOutput => ControlSpec {
            kind: ControlKind::Edit { password: false, multiline: true, read_only: true },
            ..add_edit(0, 103, 422, 637, 92, Page::History)
        },
        Control::HistoryMeta => add_label(None, 28, 522, 712, 24, Some(Page::History)),
        Control::DeleteSelectedButton => add_button(ID_HISTORY_DELETE, TextKey::DeleteSelected, 28, 552, 140, 30, Some(Page::History)),
        Control::HistoryPrivacyLabel => add_label(Some(TextKey::HistoryPrivacy), 184, 554, 556, 28, Some(Page::History)),
        Control::Status => add_label(None, 28, 584, 712, 28, None),
    }
}

/// The numbers by which tools find the controls are unique.
pub proof fn lemma_control_numbers_are_unique(a: Control, b: Control)
    requires
        control_model(a).id == control_model(b).id,
        control_model(a).id != 0,
    ensures
        a == b,
{
}

/// Every button can be told apart by its number, and shows a text of the
/// catalog.
pub proof fn lemma_buttons_are_numbered(control: Control)
    requires
        control_model(control).kind == ControlKind::Button,
    ensures
        control_model(control).id != 0,
        control_model(control).key is Some,
{
}

/// Every control of a page lies within the smallest page.
pub proof fn lemma_controls_fit_the_smallest_page(control: Control)
    requires
        control_model(control).page is Some,
    ensures
        ({
            let made = control_model(control);
            &&& 0 <= made.x < made.x + made.width <= MIN_CONTENT_WIDTH
            &&& 0 <= made.y < made.y + made.height <= MIN_CLIENT_HEIGHT
        }),
{
}

/// Page children are visible within their page, which is hidden at first.
pub fn visibility_style(page: Option<Page>) -> (style: u32)
    ensures
        style == WS_VISIBLE,
{
    let _ = page;
    WS_VISIBLE
}

/// The style that a control is made with; its bits do not overlap.
pub open spec fn style_of(kind: ControlKind) -> int {
    match kind {
        ControlKind::Page => WS_CHILD + WS_CLIPCHILDREN + WS_CLIPSIBLINGS,
        ControlKind::Label => WS_CHILD + WS_VISIBLE + WS_CLIPSIBLINGS,
        ControlKind::Button => WS_CHILD + WS_VISIBLE + WS_CLIPSIBLINGS + WS_TABSTOP + BS_OWNERDRAW,
        ControlKind::Edit { password, multiline, .. } => WS_CHILD + WS_VISIBLE + WS_CLIPSIBLINGS
            + WS_TABSTOP + WS_BORDER + ES_AUTOHSCROLL + (if password {
            ES_PASSWORD as int
        } else {
            0
        }) + (if multiline {
            ES_MULTILINE + ES_AUTOVSCROLL + WS_VSCROLL
        } else {
            0
        }),
        ControlKind::Combo => WS_CHILD + WS_VISIBLE + WS_CLIPSIBLINGS + WS_TABSTOP + WS_VSCROLL
            + WS_BORDER + CBS_DROPDOWNLIST,
        ControlKind::List => WS_CHILD + WS_VISIBLE + WS_CLIPSIBLINGS + WS_TABSTOP + WS_VSCROLL
            + WS_BORDER + LBS_NOTIFY,
    }
}

pub fn control_style(kind: ControlKind, page: Option<Page>) -> (style: u32)
    ensures
        style == style_of(kind),
{
    let visible: u32 = visibility_style(page);
    match kind {
        ControlKind::Page => WS_CHILD + WS_CLIPCHILDREN + WS_CLIPSIBLINGS,
        ControlKind::Label => WS_CHILD + visible + WS_CLIPSIBLINGS,
        ControlKind::Button => WS_CHILD + visible + WS_CLIPSIBLINGS + WS_TABSTOP + BS_OWNERDRAW,
        ControlKind::Edit { password, multiline, .. } => {
            let mut style: u32 = WS_CHILD + visible + WS_CLIPSIBLINGS + WS_TABSTOP + WS_BORDER
                + ES_AUTOHSCROLL;
            if password {
                style = style + ES_PASSWORD;
            }
            if multiline {
                style = style + ES_MULTILINE + ES_AUTOVSCROLL + WS_VSCROLL;
            }
            style
        },
        ControlKind::Combo => WS_CHILD + visible + WS_CLIPSIBLINGS + WS_TABSTOP + WS_VSCROLL
            + WS_BORDER + CBS_DROPDOWNLIST,
        ControlKind::List => WS_CHILD + visible + WS_CLIPSIBLINGS + WS_TABSTOP + WS_VSCROLL
            + WS_BORDER + LBS_NOTIFY,
    }
}

/// The pages start hidden; everything else is visible where it stands.
pub proof fn lemma_only_pages_start_hidden(kind: ControlKind)
    ensures
        (style_of(kind) / WS_VISIBLE as int) % 2 == 1 <==> kind != ControlKind::Page,
{
}

/// The parent of a control, and its place in that: the page, whose top is the
/// origin, or the window.
pub fn page_parent(page: Option<Page>, y: i32) -> (place: (Option<Page>, i32))
    requires
        page is Some ==> y - PAGE_TOP >= i32::MIN,
    ensures
        place.0 == page,
        place.1 == if page is Some {
            y - PAGE_TOP
        } else {
            y as int
        },
{
    match page {
        Some(shown) => (Some(shown), y - PAGE_TOP),
        None => (None, y),
    }
}

/// The frame of a control when it is made.
pub fn creation_frame(control: Control, dpi: u32) -> (frame: Frame)
    ensures
        ({
            let made = control_model(control);
            let y = if made.page is Some {
                made.y - PAGE_TOP
            } else {
                made.y as int
            };
            frame == (Frame {
                left: scaled(made.x as int, dpi as int) as i32,
                top: scaled(y, dpi as int) as i32,
                width: scaled(made.width as int, dpi as int) as i32,
                height: scaled(made.height as int, dpi as int) as i32,
            })
        }),
{
    let made: ControlSpec = control_spec(control);
    let (_, y) = page_parent(made.page, made.y);
    control_frame(made.x, y, made.width, made.height, dpi)
}

/// The edges of a control in its page or in a window of `width` by `height`
/// units of the design.
pub open spec fn control_rect(control: Control, width: int, height: int) -> ScreenRect {
    match control {
        Control::SettingsNav => nav_button(width, 78),
        Control::PromptsNav => nav_button(width, 126),
        Control::HistoryNav => nav_button(width, 174),
        Control::Close => nav_button(width, close_top(height)),
        Control::Status => status_rect(width, height),
        Control::SettingsPage | Control::PromptsPage | Control::HistoryPage => page_rect(
            width,
            height,
        ),
        _ => {
            let made = control_model(control);
            let top = made.y - PAGE_TOP + PAGE_HEADER_HEIGHT;
            ScreenRect {
                left: made.x,
                top: top as i32,
                right: (made.x + made.width) as i32,
                bottom: (top + made.height) as i32,
            }
        },
    }
}

/// The frame of a control in a client area of `width` by `height` pixels.
pub fn apply_manager_layout(control: Control, width: i32, height: i32, dpi: u32) -> (frame: Frame)
    ensures
        frame == frame_of(
            scaled_rect_of(
                control_rect(
                    control,
                    unscaled(max_int(width as int, 1), dpi as int),
                    unscaled(max_int(height as int, 1), dpi as int),
                ),
                dpi as int,
            ),
        ),
{
    let layout: ManagerLayout = ManagerLayout::for_client(width, height, dpi);
    let rect: ScreenRect = match control {
        Control::SettingsNav => layout.nav_buttons[0],
        Control::PromptsNav => layout.nav_buttons[1],
        Control::HistoryNav => layout.nav_buttons[2],
        Control::Close => layout.nav_buttons[3],
        Control::Status => layout.status,
        Control::SettingsPage => layout.page,
        Control::PromptsPage => layout.page,
        Control::HistoryPage => layout.page,
        _ => {
            let made: ControlSpec = control_spec(control);
            proof {
                assert(control_model(control).page is Some);
                lemma_controls_fit_the_smallest_page(control);
            }
            let top: i32 = made.y - PAGE_TOP + PAGE_HEADER_HEIGHT;
            ScreenRect::new(made.x, top, made.x + made.width, top + made.height)
        },
    };
    place_control(rect, dpi)
}

/// Only the key is hidden while it is typed, only the prompts and the details
/// have several lines, and only the details cannot be typed into.
pub proof fn lemma_only_the_key_is_hidden(control: Control)
    ensures
        control_model(control).kind matches ControlKind::Edit { password, multiline, read_only } ==> {
            &&& password <==> control == Control::ApiKey
            &&& multiline <==> control == Control::SystemPrompt || control == Control::UserTemplate
                || control == Control::HistoryTarget || control == Control::HistoryContext
                || control == Control::HistoryOutput
            &&& read_only <==> control == Control::HistoryTarget || control
                == Control::HistoryContext || control == Control::HistoryOutput
        },
        control_model(Control::ApiKey).kind is Edit,
        control_model(Control::HistoryList).kind == ControlKind::List,
        control_model(control).kind == ControlKind::Page <==> control == Control::SettingsPage
            || control == Control::PromptsPage || control == Control::HistoryPage,
        control_model(control).kind == ControlKind::Combo <==> control == Control::Language
            || control == Control::SettingsSelectionDefault || control
            == Control::SettingsHoverDefault || control == Control::HistoryPrompt || control
            == Control::HistorySource || control == Control::HistoryOrder,
{
}

/// A control on a page is laid out where and as large as it was made, whatever
/// the size of the window; the pages fill what the navigation leaves.
pub proof fn lemma_page_controls_stay_where_they_are(control: Control, width: int, height: int)
    requires
        176 <= width <= 1_000_000,
        300 <= height <= 1_000_000,
    ensures
        control_model(control).page is Some ==> {
            let made = control_model(control);
            let rect = control_rect(control, width, height);
            &&& rect.left == made.x
            &&& rect.top == made.y
            &&& rect.right - rect.left == made.width
            &&& rect.bottom - rect.top == made.height
        },
        control_rect(Control::PromptsPage, width, height).left == 176,
        control_rect(Control::PromptsPage, width, height).right == width,
        control_rect(Control::SettingsNav, width, height).top == 78,
        control_rect(Control::PromptsNav, width, height).top == 126,
        control_rect(Control::HistoryNav, width, height).top == 174,
        control_rect(Control::Close, width, height).bottom == height - 16,
{
}

/// Two fields or buttons of a page do not overlap.
pub proof fn lemma_fields_do_not_overlap(a: Control, b: Control)
    requires
        a != b,
        control_model(a).page is Some,
        control_model(a).page == control_model(b).page,
        control_model(a).kind != ControlKind::Combo,
        control_model(b).kind != ControlKind::Combo,
        control_model(a).kind != ControlKind::Label,
        control_model(b).kind != ControlKind::Label,
    ensures
        ({
            let one = control_model(a);
            let other = control_model(b);
            ||| one.x + one.width <= other.x
            ||| other.x + other.width <= one.x
            ||| one.y + one.height <= other.y
            ||| other.y + other.height <= one.y
        }),
{
}

/// A control of a page is placed relative to the page, 56 lower than in it; any
/// other where it says.
pub proof fn lemma_pages_hold_their_controls(
    page: Option<Page>,
    y: i32,
    place: (Option<Page>, i32),
)
    requires
        page is Some ==> y - PAGE_TOP >= i32::MIN,
        call_ensures(page_parent, (page, y), place),
    ensures
        place.0 == page,
        page is Some ==> place.1 == y - 56,
        page is None ==> place.1 == y,
{
}

/// Every control is made once, and is made and laid out by its own measures.
pub proof fn lemma_every_control_is_made(
    controls: Vec<Control>,
    control: Control,
    dpi: u32,
    frame: Frame,
    style: u32,
)
    requires
        dpi <= 96,
        call_ensures(all_controls, (), controls),
        call_ensures(creation_frame, (control, dpi), frame),
        call_ensures(control_style, (control_model(control).kind, control_model(control).page), style),
    ensures
        controls@.len() == 72,
        controls@.contains(control),
        frame.width == control_model(control).width,
        frame.height == control_model(control).height,
        control_model(control).x >= 1 ==> frame.left == control_model(control).x,
        control_model(control).page is Some && control_model(control).y > 56 ==> frame.top
            == control_model(control).y - 56,
        style == style_of(control_model(control).kind),
{
    let at = control_index(control);
    assert(controls@[at] == control);
    let made = control_model(control);
    crate::manager_layout::lemma_lengths_are_scaled(made.width as int, dpi as int);
    crate::manager_layout::lemma_lengths_are_scaled(made.height as int, dpi as int);
    if made.x >= 1 {
        crate::manager_layout::lemma_lengths_are_scaled(made.x as int, dpi as int);
    }
    if made.page is Some && made.y > 56 {
        crate::manager_layout::lemma_lengths_are_scaled(made.y - 56, dpi as int);
    }
}

} // verus!
