//! The manager: the window in which the configuration is edited.
//!
//! Its operations read what the user entered and change the state; what is to
//! be shown is returned as a list of actions. A configuration that is edited
//! takes effect only once it was saved.

use crate::credentials::CredentialError;
use crate::manager_controls::Control;
use crate::manager_history::HistoryEntry;
use crate::manager_layout::Page;
use crate::manager_status::{
    credential_status_event, credential_text, status_in, status_text, CredentialStatusState,
    StatusEvent, StatusOperation,
};
use crate::manager_text::{text_in, ui_text, TextKey};
use crate::resident::{RefreshOutcome, ResidentStartOutcome};
use crate::settings::{
    find_profile, has_profile, lemma_profile_position, optional_text, profile_position,
    prompt_models, AppConfig, ConfigModel, PromptConfig, PromptModel, UiLanguage, UiSettings,
};
use crate::text::{blank, copy_of, decimal, is_blank, push_decimal, same_text, trim, trimmed};
use vstd::prelude::*;

verus! {

/// A change of what the window shows.
#[derive(Debug)]
pub enum UiAction {
    SetText { control: Control, text: String },
    /// Show the number with these bits in the temperature's field, or nothing.
    SetTemperature { bits: Option<u32> },
    ResetChoices { control: Control },
    AddChoice { control: Control, text: String },
    Choose { control: Control, index: usize },
    ResetRows,
    AddRow { text: String },
    ShowPage { page: Page },
    /// Show every fixed text in the language.
    Localize { language: UiLanguage },
}

/// A change of what the window shows, over texts.
pub enum UiEffect {
    Text(Control, Seq<char>),
    Temperature(Option<u32>),
    NoChoices(Control),
    Choice(Control, Seq<char>),
    Chosen(Control, usize),
    NoRows,
    Row(Seq<char>),
    Shown(Page),
    Localized(UiLanguage),
}

impl View for UiAction {
    type V = UiEffect;

    open spec fn view(&self) -> UiEffect {
        match *self {
            UiAction::SetText { control, text } => UiEffect::Text(control, text@),
            UiAction::SetTemperature { bits } => UiEffect::Temperature(bits),
            UiAction::ResetChoices { control } => UiEffect::NoChoices(control),
            UiAction::AddChoice { control, text } => UiEffect::Choice(control, text@),
            UiAction::Choose { control, index } => UiEffect::Chosen(control, index),
            UiAction::ResetRows => UiEffect::NoRows,
            UiAction::AddRow { text } => UiEffect::Row(text@),
            UiAction::ShowPage { page } => UiEffect::Shown(page),
            UiAction::Localize { language } => UiEffect::Localized(language),
        }
    }
}

pub open spec fn effects(actions: Seq<UiAction>) -> Seq<UiEffect> {
    actions.map_values(|action: UiAction| action@)
}

pub(crate) fn emit(actions: &mut Vec<UiAction>, action: UiAction)
    ensures
        effects(final(actions)@) == effects(old(actions)@).push(action@),
{
    actions.push(action);
    proof {
        assert(effects(actions@) =~= effects(old(actions)@).push(action@));
    }
}

pub(crate) fn set_text(actions: &mut Vec<UiAction>, control: Control, text: &str)
    ensures
        effects(final(actions)@) == effects(old(actions)@).push(UiEffect::Text(control, text@)),
{
    emit(actions, UiAction::SetText { control, text: copy_of(text) });
}

pub(crate) fn add_choice(actions: &mut Vec<UiAction>, control: Control, text: &str)
    ensures
        effects(final(actions)@) == effects(old(actions)@).push(UiEffect::Choice(control, text@)),
{
    emit(actions, UiAction::AddChoice { control, text: copy_of(text) });
}

pub(crate) fn set_status(
    actions: &mut Vec<UiAction>,
    control: Control,
    language: UiLanguage,
    event: StatusEvent<'_>,
)
    ensures
        effects(final(actions)@) == effects(old(actions)@).push(
            UiEffect::Text(control, status_in(language, event)),
        ),
{
    emit(actions, UiAction::SetText { control, text: status_text(language, event) });
}

/// The state of the manager.
#[derive(Debug)]
pub struct Manager {
    /// The configuration as it was last saved or loaded.
    pub config: AppConfig,
    /// There is a file to save the configuration to.
    pub has_config_path: bool,
    pub load_error: Option<String>,
    pub page: Page,
    pub profile_index: usize,
    /// A new profile; it is no part of the configuration until it is saved.
    pub draft_prompt: Option<PromptConfig>,
    pub history_entries: Vec<HistoryEntry>,
    pub history_loaded: bool,
    pub resident_start: ResidentStartOutcome,
    pub credential_status: CredentialStatusState,
    pub dpi: u32,
}

/// The state of the manager, over texts.
pub struct ManagerModel {
    pub config: ConfigModel,
    pub has_config_path: bool,
    pub load_error: Option<Seq<char>>,
    pub page: Page,
    pub profile_index: usize,
    pub draft: Option<PromptModel>,
    pub entries: Seq<HistoryEntry>,
    pub history_loaded: bool,
    pub resident_start: ResidentStartOutcome,
    pub credential: CredentialStatusState,
    pub dpi: u32,
}

pub open spec fn optional_prompt(prompt: Option<PromptConfig>) -> Option<PromptModel> {
    match prompt {
        Some(profile) => Some(profile@),
        None => None,
    }
}

impl View for Manager {
    type V = ManagerModel;

    open spec fn view(&self) -> ManagerModel {
        ManagerModel {
            config: self.config@,
            has_config_path: self.has_config_path,
            load_error: optional_text(self.load_error),
            page: self.page,
            profile_index: self.profile_index,
            draft: optional_prompt(self.draft_prompt),
            entries: self.history_entries@,
            history_loaded: self.history_loaded,
            resident_start: self.resident_start,
            credential: self.credential_status,
            dpi: self.dpi,
        }
    }
}

/// What is known of the configuration file when the manager starts.
pub enum ConfigSource {
    /// There is no folder for it.
    NoPath,
    /// There is no file yet.
    Missing,
    Loaded(AppConfig),
    Failed { detail: String },
}

/// The words for a file that could not be loaded, which are always English.
pub open spec fn load_failure(detail: Seq<char>) -> Seq<char> {
    "Could not load config: "@ + detail
}

/// The configuration to start with, and what to report: without a usable file
/// it is the default one.
pub fn load_config(source: ConfigSource, default: AppConfig) -> (loaded: (
    AppConfig,
    Option<String>,
))
    ensures
        match source {
            ConfigSource::NoPath => {
                &&& loaded.0 == default
                &&& optional_text(loaded.1) == Some(
                    status_in(
                        UiLanguage::English,
                        StatusEvent::LocalAppDataUnavailable { operation: StatusOperation::Save },
                    ),
                )
            },
            ConfigSource::Missing => loaded.0 == default && loaded.1 is None,
            ConfigSource::Loaded(config) => loaded.0 == config && loaded.1 is None,
            ConfigSource::Failed { detail } => {
                &&& loaded.0 == default
                &&& optional_text(loaded.1) == Some(load_failure(detail@))
            },
        },
{
    match source {
        ConfigSource::NoPath => (
            default,
            Some(
                status_text(
                    UiLanguage::English,
                    StatusEvent::LocalAppDataUnavailable { operation: StatusOperation::Save },
                ),
            ),
        ),
        ConfigSource::Missing => (default, None),
        ConfigSource::Loaded(config) => (config, None),
        ConfigSource::Failed { detail } => (
            default,
            Some(
                status_text(
                    UiLanguage::English,
                    StatusEvent::ConfigLoadFailed { detail: detail.as_str() },
                ),
            ),
        ),
    }
}

/// `config` in another language, and otherwise the same.
pub fn config_with_manager_language(config: &AppConfig, language: UiLanguage) -> (next: AppConfig)
    ensures
        next@ == (ConfigModel { language, ..config@ }),
{
    let mut next: AppConfig = config.duplicate();
    next.ui = UiSettings { manager_language: language };
    next
}

/// How a profile is offered: by its name and its identifier, or by its
/// identifier alone where it has no name.
pub open spec fn option_label(profile: PromptModel) -> Seq<char> {
    if is_blank(profile.name) {
        profile.id
    } else {
        trim(profile.name) + " — "@ + profile.id
    }
}

pub fn profile_option_label(profile: &PromptConfig) -> (label: String)
    ensures
        label@ == option_label(profile@),
{
    if blank(profile.name.as_str()) {
        return profile.id.clone();
    }
    let mut label: String = trimmed(profile.name.as_str());
    label.append(" — ");
    label.append(profile.id.as_str());
    label
}

/// The identifier of the profile at a chosen index.
pub open spec fn profile_at(index: Option<usize>, profiles: Seq<PromptModel>) -> Option<Seq<char>> {
    match index {
        Some(i) => if i < profiles.len() {
            Some(profiles[i as int].id)
        } else {
            None
        },
        None => None,
    }
}

pub fn profile_id_for_index(index: Option<usize>, profiles: &[PromptConfig]) -> (id: Option<String>)
    ensures
        optional_text(id) == profile_at(index, prompt_models(profiles@)),
{
    match index {
        Some(i) => {
            if i < profiles.len() {
                proof {
                    assert(prompt_models(profiles@)[i as int] == profiles@[i as int]@);
                }
                Some(profiles[i].id.clone())
            } else {
                None
            }
        },
        None => None,
    }
}

pub fn selected_profile_index(profiles: &[PromptConfig], id: &str) -> (index: Option<usize>)
    ensures
        match index {
            Some(i) => i < profiles@.len() && profile_position(prompt_models(profiles@), id@)
                == Some(i as int),
            None => profile_position(prompt_models(profiles@), id@) is None,
        },
{
    find_profile(profiles, id)
}

/// The choices of a profile selector.
pub open spec fn profile_choices(control: Control, profiles: Seq<PromptModel>) -> Seq<UiEffect> {
    profiles.map_values(|profile: PromptModel| UiEffect::Choice(control, option_label(profile)))
}

/// What fills a profile selector: every profile by its label, with the one
/// chosen whose identifier is `id`.
pub open spec fn profile_selector(
    control: Control,
    profiles: Seq<PromptModel>,
    id: Seq<char>,
) -> Seq<UiEffect> {
    seq![UiEffect::NoChoices(control)] + profile_choices(control, profiles) + match profile_position(
        profiles,
        id,
    ) {
        Some(index) => seq![UiEffect::Chosen(control, index as usize)],
        None => seq![],
    }
}

fn fill_profile_selector(
    control: Control,
    profiles: &Vec<PromptConfig>,
    id: &str,
    actions: &mut Vec<UiAction>,
)
    ensures
        effects(final(actions)@) == effects(old(actions)@) + profile_selector(
            control,
            prompt_models(profiles@),
            id@,
        ),
{
    let ghost models = prompt_models(profiles@);
    let ghost start = effects(old(actions)@);
    emit(actions, UiAction::ResetChoices { control });
    let mut i: usize = 0;
    proof {
        assert(start.push(UiEffect::NoChoices(control)) =~= start + seq![
            UiEffect::NoChoices(control),
        ] + profile_choices(control, models.take(0)));
    }
    while i < profiles.len()
        invariant
            i <= profiles@.len(),
            models == prompt_models(profiles@),
            effects(actions@) == start + seq![UiEffect::NoChoices(control)] + profile_choices(
                control,
                models.take(i as int),
            ),
        decreases profiles@.len() - i,
    {
        let label: String = profile_option_label(&profiles[i]);
        add_choice(actions, control, label.as_str());
        proof {
            assert(models[i as int] == profiles@[i as int]@);
            assert(profile_choices(control, models.take(i as int + 1)) =~= profile_choices(
                control,
                models.take(i as int),
            ).push(UiEffect::Choice(control, option_label(models[i as int]))));
            assert(effects(actions@) =~= start + seq![UiEffect::NoChoices(control)]
                + profile_choices(control, models.take(i as int + 1)));
        }
        i = i + 1;
    }
    proof {
        assert(models.take(models.len() as int) =~= models);
    }
    match selected_profile_index(profiles.as_slice(), id) {
        Some(index) => {
            emit(actions, UiAction::Choose { control, index });
        },
        None => {},
    }
    proof {
        assert(effects(actions@) =~= start + profile_selector(control, models, id@));
    }
}

/// What the settings of the page are filled with.
pub open spec fn profile_selectors(config: ConfigModel) -> Seq<UiEffect> {
    profile_selector(Control::SettingsSelectionDefault, config.profiles, config.selection)
        + profile_selector(Control::SettingsHoverDefault, config.profiles, config.hover)
}

pub open spec fn settings_form(config: ConfigModel) -> Seq<UiEffect> {
    seq![
        UiEffect::Text(Control::Endpoint, config.endpoint),
        UiEffect::Text(Control::Model, config.model),
        UiEffect::Text(Control::CredentialTarget, config.credential_target),
    ] + profile_selectors(config)
}

pub open spec fn language_index(language: UiLanguage) -> usize {
    match language {
        UiLanguage::English => 0,
        UiLanguage::SimplifiedChinese => 1,
    }
}

/// What the choice of the language is filled with.
pub open spec fn language_selector(language: UiLanguage) -> Seq<UiEffect> {
    seq![
        UiEffect::NoChoices(Control::Language),
        UiEffect::Choice(Control::Language, text_in(language, TextKey::English)),
        UiEffect::Choice(Control::Language, text_in(language, TextKey::SimplifiedChinese)),
        UiEffect::Chosen(Control::Language, language_index(language)),
    ]
}

impl ManagerModel {
    /// The shown profile exists, or the first one is meant.
    pub open spec fn wf(self) -> bool {
        self.profile_index == 0 || self.profile_index < self.config.profiles.len()
    }

    /// The profile that the form shows: the draft, where there is one.
    pub open spec fn shown_prompt(self) -> Option<PromptModel> {
        match self.draft {
            Some(prompt) => Some(prompt),
            None => if self.profile_index < self.config.profiles.len() {
                Some(self.config.profiles[self.profile_index as int])
            } else {
                None
            },
        }
    }

    /// What stands for the position of the shown profile.
    pub open spec fn profile_number(self) -> UiEffect {
        UiEffect::Text(
            Control::ProfileNumber,
            match self.draft {
                Some(_) => status_in(self.config.language, StatusEvent::NewDraft),
                None => status_in(
                    self.config.language,
                    StatusEvent::ProfilePosition {
                        current: if self.profile_index == usize::MAX {
                            usize::MAX
                        } else {
                            (self.profile_index + 1) as usize
                        },
                        total: self.config.profiles.len() as usize,
                    },
                ),
            },
        )
    }

    /// What the form of a profile is filled with.
    pub open spec fn prompt_form(self) -> Seq<UiEffect> {
        seq![self.profile_number()] + match self.shown_prompt() {
            Some(prompt) => seq![
                UiEffect::Text(Control::ProfileId, prompt.id),
                UiEffect::Text(Control::ProfileName, prompt.name),
                UiEffect::Text(Control::SystemPrompt, prompt.system_prompt),
                UiEffect::Text(Control::UserTemplate, prompt.user_template),
                UiEffect::Text(
                    Control::ProfileModel,
                    match prompt.model {
                        Some(model) => model,
                        None => seq![],
                    },
                ),
                UiEffect::Temperature(prompt.temperature),
                UiEffect::Text(
                    Control::MaxTokens,
                    match prompt.max_output_tokens {
                        Some(count) => decimal(count as nat),
                        None => seq![],
                    },
                ),
                UiEffect::Text(Control::PromptSelectionDefault, self.config.selection),
                UiEffect::Text(Control::PromptHoverDefault, self.config.hover),
            ],
            None => seq![],
        }
    }

    /// The state without an unsaved profile.
    pub open spec fn without_draft(self) -> ManagerModel {
        ManagerModel { draft: None, ..self }
    }

    pub open spec fn discarding(self) -> Seq<UiEffect> {
        match self.draft {
            Some(_) => self.without_draft().prompt_form() + seq![
                UiEffect::Text(
                    Control::PromptStatus,
                    status_in(self.config.language, StatusEvent::UnsavedPromptDiscarded),
                ),
            ],
            None => seq![],
        }
    }

    pub open spec fn status(self, event: StatusEvent) -> UiEffect {
        UiEffect::Text(Control::Status, status_in(self.config.language, event))
    }

    pub open spec fn credential_label(self) -> UiEffect {
        UiEffect::Text(
            Control::CredentialStatus,
            credential_text(self.config.language, self.credential),
        )
    }
}

/// What the user entered on the page of settings.
pub struct SettingsForm {
    pub endpoint: String,
    pub model: String,
    pub credential_target: String,
    pub selection_default: Option<usize>,
    pub hover_default: Option<usize>,
}

/// What became of a configuration that was to be saved.
#[derive(Clone, Copy, Debug, PartialEq, Eq)]
pub enum SaveReport<'a> {
    /// It is not valid.
    Invalid { detail: &'a str },
    /// It could not be written.
    Failed { detail: &'a str },
    /// It was written, and the resident was told.
    Saved { refresh: RefreshOutcome },
}

/// What is done to save a configuration, in this order.
#[derive(Clone, Copy, Debug, PartialEq, Eq, Structural)]
pub enum SaveStep {
    Validate,
    Write,
    Notify,
    Report,
}

/// The step after one that succeeded or failed: a failure ends it, so that only
/// a valid configuration is written, and the resident is told of none but a
/// written one.
pub fn save_next(step: SaveStep, succeeded: bool) -> (next: SaveStep)
    ensures
        next == if !succeeded {
            SaveStep::Report
        } else {
            match step {
                SaveStep::Validate => SaveStep::Write,
                SaveStep::Write => SaveStep::Notify,
                _ => SaveStep::Report,
            }
        },
{
    if !succeeded {
        return SaveStep::Report;
    }
    match step {
        SaveStep::Validate => SaveStep::Write,
        SaveStep::Write => SaveStep::Notify,
        SaveStep::Notify => SaveStep::Report,
        SaveStep::Report => SaveStep::Report,
    }
}

/// What became of a key that was to be written or deleted.
#[derive(Clone, Copy, Debug, PartialEq, Eq)]
pub enum KeyReport<'a> {
    Done,
    Failed { detail: &'a str },
}

/// What follows a switch to another page.
#[derive(Clone, Copy, Debug, PartialEq, Eq, Structural)]
pub enum AfterSwitch {
    ReadCredential,
    RefreshHistory,
    Nothing,
}

/// What is known of the key, told by reading it.
pub fn credential_state(read: Result<bool, CredentialError>) -> (state: CredentialStatusState)
    ensures
        match read {
            Ok(found) => state == if found {
                CredentialStatusState::Present
            } else {
                CredentialStatusState::Absent
            },
            Err(error) => (state matches CredentialStatusState::Unavailable(detail) && detail@
                == error.text()),
        },
{
    match read {
        Ok(found) => if found {
            CredentialStatusState::Present
        } else {
            CredentialStatusState::Absent
        },
        Err(error) => CredentialStatusState::Unavailable(error.message()),
    }
}

/// What a choice of the language asks for.
pub enum LanguageStep {
    /// Nothing: no language was chosen, or the one that is shown.
    Stay,
    /// Save this configuration.
    Save(AppConfig),
}

impl Manager {
    /// The state of a manager that starts.
    pub fn new(
        config: AppConfig,
        load_error: Option<String>,
        has_config_path: bool,
        resident_start: ResidentStartOutcome,
        dpi: u32,
    ) -> (manager: Manager)
        ensures
            manager@ == (ManagerModel {
                config: config@,
                has_config_path,
                load_error: optional_text(load_error),
                page: Page::Settings,
                profile_index: 0,
                draft: None,
                entries: seq![],
                history_loaded: false,
                resident_start,
                credential: CredentialStatusState::Absent,
                dpi,
            }),
            manager@.wf(),
    {
        let manager = Manager {
            config,
            has_config_path,
            load_error,
            page: Page::Settings,
            profile_index: 0,
            draft_prompt: None,
            history_entries: Vec::new(),
            history_loaded: false,
            resident_start,
            credential_status: CredentialStatusState::Absent,
            dpi,
        };
        proof {
            assert(manager.history_entries@ =~= seq![]);
        }
        manager
    }

    pub fn language(&self) -> (language: UiLanguage)
        ensures
            language == self@.config.language,
    {
        self.config.ui.manager_language
    }

    pub fn refresh_profile_number(&self, actions: &mut Vec<UiAction>)
        ensures
            effects(final(actions)@) == effects(old(actions)@).push(self@.profile_number()),
    {
        let language: UiLanguage = self.language();
        if self.draft_prompt.is_some() {
            set_status(actions, Control::ProfileNumber, language, StatusEvent::NewDraft);
        } else {
            let current: usize = if self.profile_index == usize::MAX {
                usize::MAX
            } else {
                self.profile_index + 1
            };
            let total: usize = self.config.profiles.len();
            proof {
                assert(prompt_models(self.config.profiles@).len() == total);
            }
            set_status(
                actions,
                Control::ProfileNumber,
                language,
                StatusEvent::ProfilePosition { current, total },
            );
        }
    }

    /// Fills the form with the shown profile.
    pub fn refresh_prompt_form(&self, actions: &mut Vec<UiAction>)
        ensures
            effects(final(actions)@) == effects(old(actions)@) + self@.prompt_form(),
    {
        let ghost start = effects(old(actions)@);
        self.refresh_profile_number(actions);
        let prompt: &PromptConfig = match &self.draft_prompt {
            Some(draft) => draft,
            None => {
                if self.profile_index < self.config.profiles.len() {
                    proof {
                        assert(self@.config.profiles[self.profile_index as int]
                            == self.config.profiles@[self.profile_index as int]@);
                    }
                    &self.config.profiles[self.profile_index]
                } else {
                    proof {
                        assert(effects(actions@) =~= start + self@.prompt_form());
                    }
                    return;
                }
            },
        };
        proof {
            assert(self@.shown_prompt() == Some(prompt@));
        }
        set_text(actions, Control::ProfileId, prompt.id.as_str());
        set_text(actions, Control::ProfileName, prompt.name.as_str());
        set_text(actions, Control::SystemPrompt, prompt.system_prompt.as_str());
        set_text(actions, Control::UserTemplate, prompt.user_template.as_str());
        let model: String = match &prompt.model {
            Some(model) => model.clone(),
            None => String::new(),
        };
        set_text(actions, Control::ProfileModel, model.as_str());
        emit(actions, UiAction::SetTemperature { bits: prompt.temperature });
        let mut tokens = String::new();
        match prompt.max_output_tokens {
            Some(count) => {
                push_decimal(&mut tokens, count as u64);
            },
            None => {},
        }
        proof {
            assert(tokens@ =~= match prompt.max_output_tokens {
                Some(count) => decimal(count as nat),
                None => seq![],
            });
            assert(model@ =~= match prompt@.model {
                Some(text) => text,
                None => seq![],
            });
        }
        set_text(actions, Control::MaxTokens, tokens.as_str());
        set_text(
            actions,
            Control::PromptSelectionDefault,
            self.config.defaults.selection.as_str(),
        );
        set_text(actions, Control::PromptHoverDefault, self.config.defaults.hover.as_str());
        proof {
            assert(effects(actions@) =~= start + self@.prompt_form());
        }
    }

    /// Gives up an unsaved profile.
    pub fn discard_draft(&mut self, actions: &mut Vec<UiAction>)
        requires
            old(self)@.wf(),
        ensures
            final(self)@ == old(self)@.without_draft(),
            effects(final(actions)@) == effects(old(actions)@) + old(self)@.discarding(),
            final(self)@.wf(),
    {
        let ghost before = self@;
        let ghost start = effects(old(actions)@);
        if self.draft_prompt.is_some() {
            self.draft_prompt = None;
            self.refresh_prompt_form(actions);
            set_status(
                actions,
                Control::PromptStatus,
                self.language(),
                StatusEvent::UnsavedPromptDiscarded,
            );
        }
        proof {
            assert(effects(actions@) =~= start + before.discarding());
        }
    }

    pub fn populate_profile_selectors(&self, actions: &mut Vec<UiAction>)
        ensures
            effects(final(actions)@) == effects(old(actions)@) + profile_selectors(self@.config),
    {
        let ghost start = effects(old(actions)@);
        fill_profile_selector(
            Control::SettingsSelectionDefault,
            &self.config.profiles,
            self.config.defaults.selection.as_str(),
            actions,
        );
        fill_profile_selector(
            Control::SettingsHoverDefault,
            &self.config.profiles,
            self.config.defaults.hover.as_str(),
            actions,
        );
        proof {
            assert(effects(actions@) =~= start + profile_selectors(self@.config));
        }
    }

    pub fn refresh_settings_form(&self, actions: &mut Vec<UiAction>)
        ensures
            effects(final(actions)@) == effects(old(actions)@) + settings_form(self@.config),
    {
        let ghost start = effects(old(actions)@);
        set_text(actions, Control::Endpoint, self.config.provider.endpoint.as_str());
        set_text(actions, Control::Model, self.config.provider.model.as_str());
        set_text(
            actions,
            Control::CredentialTarget,
            self.config.provider.credential_target.as_str(),
        );
        self.populate_profile_selectors(actions);
        proof {
            assert(effects(actions@) =~= start + settings_form(self@.config));
        }
    }

    pub fn populate_language_selector(&self, actions: &mut Vec<UiAction>)
        ensures
            effects(final(actions)@) == effects(old(actions)@) + language_selector(
                self@.config.language,
            ),
    {
        let ghost start = effects(old(actions)@);
        let language: UiLanguage = self.language();
        emit(actions, UiAction::ResetChoices { control: Control::Language });
        add_choice(actions, Control::Language, ui_text(language, TextKey::English));
        add_choice(actions, Control::Language, ui_text(language, TextKey::SimplifiedChinese));
        let index: usize = match language {
            UiLanguage::English => 0,
            UiLanguage::SimplifiedChinese => 1,
        };
        emit(actions, UiAction::Choose { control: Control::Language, index });
        proof {
            assert(effects(actions@) =~= start + language_selector(language));
        }
    }

    pub fn relabel_credential_status(&self, actions: &mut Vec<UiAction>)
        ensures
            effects(final(actions)@) == effects(old(actions)@).push(self@.credential_label()),
    {
        let event: StatusEvent<'_> = credential_status_event(&self.credential_status);
        set_status(actions, Control::CredentialStatus, self.language(), event);
    }

    /// Takes over what is known of the saved key.
    pub fn update_credential_status(
        &mut self,
        status: CredentialStatusState,
        actions: &mut Vec<UiAction>,
    )
        requires
            old(self)@.wf(),
        ensures
            final(self)@ == (ManagerModel { credential: status, ..old(self)@ }),
            effects(final(actions)@) == effects(old(actions)@).push(
                final(self)@.credential_label(),
            ),
            final(self)@.wf(),
    {
        self.credential_status = status;
        self.relabel_credential_status(actions);
    }

    /// Shows another page. An unsaved profile is given up when its page is left.
    pub fn switch_view(&mut self, page: Page, actions: &mut Vec<UiAction>) -> (after: AfterSwitch)
        requires
            old(self)@.wf(),
        ensures
            ({
                let leaves = old(self)@.page == Page::Prompts && page != Page::Prompts;
                let given_up = if leaves {
                    old(self)@.without_draft()
                } else {
                    old(self)@
                };
                &&& final(self)@ == (ManagerModel { page, ..given_up })
                &&& effects(final(actions)@) == effects(old(actions)@) + (if leaves {
                    old(self)@.discarding()
                } else {
                    seq![]
                }) + seq![UiEffect::Shown(page)] + (if page == Page::Settings {
                    settings_form(old(self)@.config)
                } else {
                    seq![]
                })
            }),
            after == match page {
                Page::Settings => AfterSwitch::ReadCredential,
                Page::Prompts => AfterSwitch::Nothing,
                Page::History => AfterSwitch::RefreshHistory,
            },
            final(self)@.wf(),
    {
        let ghost before = self@;
        let ghost start = effects(old(actions)@);
        if self.page == Page::Prompts && page != Page::Prompts {
            self.discard_draft(actions);
        }
        self.page = page;
        emit(actions, UiAction::ShowPage { page });
        let after = match page {
            Page::Settings => {
                self.refresh_settings_form(actions);
                AfterSwitch::ReadCredential
            },
            Page::Prompts => AfterSwitch::Nothing,
            Page::History => AfterSwitch::RefreshHistory,
        };
        proof {
            let leaves = before.page == Page::Prompts && page != Page::Prompts;
            assert(effects(actions@) =~= start + (if leaves {
                before.discarding()
            } else {
                seq![]
            }) + seq![UiEffect::Shown(page)] + (if page == Page::Settings {
                settings_form(before.config)
            } else {
                seq![]
            }));
        }
        after
    }

    /// Whether a configuration can be saved; if not, why.
    pub fn save_target(&self) -> (target: Result<(), String>)
        ensures
            match target {
                Ok(_) => self@.has_config_path,
                Err(reason) => !self@.has_config_path && reason@ == status_in(
                    self@.config.language,
                    StatusEvent::ConfigPathUnavailable,
                ),
            },
    {
        if self.has_config_path {
            Ok(())
        } else {
            Err(status_text(self.language(), StatusEvent::ConfigPathUnavailable))
        }
    }

    /// The configuration that the page of settings describes. An unsaved
    /// profile is given up. Where no profile is chosen, the saved default
    /// stays.
    pub fn begin_save_settings(&mut self, form: &SettingsForm, actions: &mut Vec<UiAction>) -> (next:
        AppConfig)
        requires
            old(self)@.wf(),
        ensures
            final(self)@ == old(self)@.without_draft(),
            effects(final(actions)@) == effects(old(actions)@) + old(self)@.discarding(),
            next@ == (ConfigModel {
                endpoint: trim(form.endpoint@),
                model: trim(form.model@),
                credential_target: trim(form.credential_target@),
                selection: match profile_at(form.selection_default, old(self)@.config.profiles) {
                    Some(id) => id,
                    None => old(self)@.config.selection,
                },
                hover: match profile_at(form.hover_default, old(self)@.config.profiles) {
                    Some(id) => id,
                    None => old(self)@.config.hover,
                },
                ..old(self)@.config
            }),
            final(self)@.wf(),
    {
        self.discard_draft(actions);
        let mut next: AppConfig = self.config.duplicate();
        next.provider.endpoint = trimmed(form.endpoint.as_str());
        next.provider.model = trimmed(form.model.as_str());
        next.provider.credential_target = trimmed(form.credential_target.as_str());
        match profile_id_for_index(form.selection_default, self.config.profiles.as_slice()) {
            Some(id) => {
                next.defaults.selection = id;
            },
            None => {},
        }
        match profile_id_for_index(form.hover_default, self.config.profiles.as_slice()) {
            Some(id) => {
                next.defaults.hover = id;
            },
            None => {},
        }
        next
    }

    /// Takes over saved settings, or reports why they were not saved. Returns
    /// whether the key is to be read again.
    pub fn finish_save_settings(
        &mut self,
        next: AppConfig,
        report: SaveReport<'_>,
        actions: &mut Vec<UiAction>,
    ) -> (read_credential: bool)
        requires
            old(self)@.wf(),
            next@.profiles == old(self)@.config.profiles,
        ensures
            match report {
                SaveReport::Invalid { detail } | SaveReport::Failed { detail } => {
                    &&& !read_credential
                    &&& final(self)@ == old(self)@
                    &&& effects(final(actions)@) == effects(old(actions)@).push(
                        old(self)@.status(StatusEvent::CannotSaveSettings { detail }),
                    )
                },
                SaveReport::Saved { refresh } => {
                    &&& read_credential
                    &&& final(self)@ == (ManagerModel { config: next@, ..old(self)@ })
                    &&& effects(final(actions)@) == effects(old(actions)@) + profile_selectors(
                        next@,
                    ) + seq![final(self)@.status(StatusEvent::ConfigRefresh(refresh))]
                },
            },
            final(self)@.wf(),
    {
        let ghost start = effects(old(actions)@);
        match report {
            SaveReport::Invalid { detail } => {
                set_status(
                    actions,
                    Control::Status,
                    self.language(),
                    StatusEvent::CannotSaveSettings { detail },
                );
                false
            },
            SaveReport::Failed { detail } => {
                set_status(
                    actions,
                    Control::Status,
                    self.language(),
                    StatusEvent::CannotSaveSettings { detail },
                );
                false
            },
            SaveReport::Saved { refresh } => {
                self.config = next;
                self.populate_profile_selectors(actions);
                set_status(
                    actions,
                    Control::Status,
                    self.language(),
                    StatusEvent::ConfigRefresh(refresh),
                );
                proof {
                    assert(effects(actions@) =~= start + profile_selectors(self@.config) + seq![
                        self@.status(StatusEvent::ConfigRefresh(refresh)),
                    ]);
                }
                true
            },
        }
    }

    /// The target under which an entered key is to be saved; a blank key is
    /// refused.
    pub fn begin_save_key(&self, target: &str, secret: &str, actions: &mut Vec<UiAction>) -> (to:
        Option<String>)
        ensures
            if is_blank(secret@) {
                &&& to is None
                &&& effects(final(actions)@) == effects(old(actions)@).push(
                    self@.status(StatusEvent::EnterApiKey),
                )
            } else {
                &&& optional_text(to) == Some(trim(target@))
                &&& final(actions)@ == old(actions)@
            },
    {
        if blank(secret) {
            set_status(actions, Control::Status, self.language(), StatusEvent::EnterApiKey);
            return None;
        }
        Some(trimmed(target))
    }

    /// Reports a key that was or was not saved. Returns whether the resident is
    /// to be told: only of a key that it uses.
    pub fn finish_save_key(
        &mut self,
        target: &str,
        report: KeyReport<'_>,
        actions: &mut Vec<UiAction>,
    ) -> (notify: bool)
        requires
            old(self)@.wf(),
        ensures
            match report {
                KeyReport::Done => {
                    &&& notify == (target@ == old(self)@.config.credential_target)
                    &&& final(self)@ == (ManagerModel {
                        credential: CredentialStatusState::Present,
                        ..old(self)@
                    })
                    &&& effects(final(actions)@) == effects(old(actions)@) + seq![
                        UiEffect::Text(Control::ApiKey, seq![]),
                        UiEffect::Text(
                            Control::CredentialStatus,
                            status_in(
                                old(self)@.config.language,
                                StatusEvent::ApiKeySavedToCredentialManager,
                            ),
                        ),
                    ] + (if notify {
                        seq![]
                    } else {
                        seq![old(self)@.status(StatusEvent::ApiKeyInactiveTargetSaved)]
                    })
                },
                KeyReport::Failed { detail } => {
                    &&& !notify
                    &&& final(self)@ == old(self)@
                    &&& effects(final(actions)@) == effects(old(actions)@).push(
                        old(self)@.status(StatusEvent::SaveApiKeyFailed { detail }),
                    )
                },
            },
            final(self)@.wf(),
    {
        let ghost start = effects(old(actions)@);
        let language: UiLanguage = self.language();
        match report {
            KeyReport::Done => {
                let empty = String::new();
                set_text(actions, Control::ApiKey, empty.as_str());
                self.credential_status = CredentialStatusState::Present;
                set_status(
                    actions,
                    Control::CredentialStatus,
                    language,
                    StatusEvent::ApiKeySavedToCredentialManager,
                );
                let notify: bool = same_text(
                    target,
                    self.config.provider.credential_target.as_str(),
                );
                if !notify {
                    set_status(
                        actions,
                        Control::Status,
                        language,
                        StatusEvent::ApiKeyInactiveTargetSaved,
                    );
                }
                proof {
                    assert(effects(actions@) =~= start + seq![
                        UiEffect::Text(Control::ApiKey, seq![]),
                        UiEffect::Text(
                            Control::CredentialStatus,
                            status_in(language, StatusEvent::ApiKeySavedToCredentialManager),
                        ),
                    ] + (if notify {
                        seq![]
                    } else {
                        seq![old(self)@.status(StatusEvent::ApiKeyInactiveTargetSaved)]
                    }));
                }
                notify
            },
            KeyReport::Failed { detail } => {
                set_status(
                    actions,
                    Control::Status,
                    language,
                    StatusEvent::SaveApiKeyFailed { detail },
                );
                false
            },
        }
    }

    /// Reports a key that was or was not deleted. Returns whether the resident
    /// is to be told.
    pub fn finish_delete_key(
        &mut self,
        target: &str,
        report: KeyReport<'_>,
        actions: &mut Vec<UiAction>,
    ) -> (notify: bool)
        requires
            old(self)@.wf(),
        ensures
            match report {
                KeyReport::Done => {
                    &&& notify == (target@ == old(self)@.config.credential_target)
                    &&& final(self)@ == (ManagerModel {
                        credential: CredentialStatusState::Absent,
                        ..old(self)@
                    })
                    &&& effects(final(actions)@) == effects(old(actions)@) + seq![
                        UiEffect::Text(
                            Control::CredentialStatus,
                            status_in(old(self)@.config.language, StatusEvent::NoSavedApiKey),
                        ),
                    ] + (if notify {
                        seq![]
                    } else {
                        seq![old(self)@.status(StatusEvent::ApiKeyInactiveTargetDeleted)]
                    })
                },
                KeyReport::Failed { detail } => {
                    &&& !notify
                    &&& final(self)@ == old(self)@
                    &&& effects(final(actions)@) == effects(old(actions)@).push(
                        old(self)@.status(StatusEvent::DeleteApiKeyFailed { detail }),
                    )
                },
            },
            final(self)@.wf(),
    {
        let ghost start = effects(old(actions)@);
        let language: UiLanguage = self.language();
        match report {
            KeyReport::Done => {
                self.credential_status = CredentialStatusState::Absent;
                set_status(
                    actions,
                    Control::CredentialStatus,
                    language,
                    StatusEvent::NoSavedApiKey,
                );
                let notify: bool = same_text(
                    target,
                    self.config.provider.credential_target.as_str(),
                );
                if !notify {
                    set_status(
                        actions,
                        Control::Status,
                        language,
                        StatusEvent::ApiKeyInactiveTargetDeleted,
                    );
                }
                proof {
                    assert(effects(actions@) =~= start + seq![
                        UiEffect::Text(
                            Control::CredentialStatus,
                            status_in(language, StatusEvent::NoSavedApiKey),
                        ),
                    ] + (if notify {
                        seq![]
                    } else {
                        seq![old(self)@.status(StatusEvent::ApiKeyInactiveTargetDeleted)]
                    }));
                }
                notify
            },
            KeyReport::Failed { detail } => {
                set_status(
                    actions,
                    Control::Status,
                    language,
                    StatusEvent::DeleteApiKeyFailed { detail },
                );
                false
            },
        }
    }

    /// Reports what the resident made of a changed key.
    pub fn report_credential_refresh(
        &self,
        outcome: RefreshOutcome,
        deleted: bool,
        actions: &mut Vec<UiAction>,
    )
        ensures
            effects(final(actions)@) == effects(old(actions)@).push(
                self@.status(StatusEvent::CredentialRefresh { outcome, deleted }),
            ),
    {
        set_status(
            actions,
            Control::Status,
            self.language(),
            StatusEvent::CredentialRefresh { outcome, deleted },
        );
    }

    /// What choosing a language asks for. Only the last saved configuration is
    /// read, so that nothing else that was entered is saved with it.
    pub fn save_manager_language(&self, selection: Option<usize>, actions: &mut Vec<UiAction>) -> (
        step: LanguageStep)
        ensures
            ({
                let chosen = match selection {
                    Some(0) => Some(UiLanguage::English),
                    Some(1) => Some(UiLanguage::SimplifiedChinese),
                    _ => None,
                };
                match chosen {
                    None => {
                        &&& step is Stay
                        &&& effects(final(actions)@) == effects(old(actions)@) + language_selector(
                            self@.config.language,
                        )
                    },
                    Some(language) => {
                        &&& final(actions)@ == old(actions)@
                        &&& if language == self@.config.language {
                            step is Stay
                        } else {
                            (step matches LanguageStep::Save(next) && next@ == (ConfigModel {
                                language,
                                ..self@.config
                            }))
                        }
                    },
                }
            }),
    {
        let language: UiLanguage = match selection {
            Some(0) => UiLanguage::English,
            Some(1) => UiLanguage::SimplifiedChinese,
            _ => {
                self.populate_language_selector(actions);
                return LanguageStep::Stay;
            },
        };
        if language == self.language() {
            return LanguageStep::Stay;
        }
        LanguageStep::Save(config_with_manager_language(&self.config, language))
    }
}

// What the operations do.

/// A configuration that could be read is used; where there is none, or it
/// cannot be read, the default is, and only what went wrong is told.
pub proof fn lemma_which_configuration_is_used(
    config: AppConfig,
    default: AppConfig,
    detail: String,
    found: (AppConfig, Option<String>),
    absent: (AppConfig, Option<String>),
    unread: (AppConfig, Option<String>),
    homeless: (AppConfig, Option<String>),
)
    requires
        call_ensures(load_config, (ConfigSource::Loaded(config), default), found),
        call_ensures(load_config, (ConfigSource::Missing, default), absent),
        call_ensures(load_config, (ConfigSource::Failed { detail }, default), unread),
        call_ensures(load_config, (ConfigSource::NoPath, default), homeless),
    ensures
        found.0 == config && found.1 is None,
        absent.0 == default && absent.1 is None,
        unread.0 == default && (unread.1 matches Some(error) && error@.len() >= detail@.len()
            && error@.skip(error@.len() - detail@.len()) == detail@),
        homeless.0 == default && homeless.1 is Some,
{
    if let Some(error) = unread.1 {
        assert(error@.skip(error@.len() - detail@.len()) =~= detail@);
    }
}

/// A profile is offered by its name, without the space around it, and its
/// identifier; without a name by its identifier alone.
pub proof fn lemma_how_a_profile_is_named(profile: PromptModel)
    ensures
        is_blank(profile.name) ==> option_label(profile) == profile.id,
        !is_blank(profile.name) ==> {
            let label = option_label(profile);
            let named = trim(profile.name);
            &&& label.len() == named.len() + 3 + profile.id.len()
            &&& label.take(named.len() as int) == named
            &&& label.skip(named.len() as int + 3) == profile.id
        },
{
    reveal_strlit(" — ");
    if !is_blank(profile.name) {
        let label = option_label(profile);
        let named = trim(profile.name);
        assert(label.take(named.len() as int) =~= named);
        assert(label.skip(named.len() as int + 3) =~= profile.id);
    }
}

/// A selector offers every profile once, in order, and the chosen one is the
/// configured; its index stands for the same profile again.
pub proof fn lemma_a_selector_offers_the_profiles(
    control: Control,
    profiles: Seq<PromptModel>,
    id: Seq<char>,
    i: int,
)
    requires
        profiles.len() <= usize::MAX,
    ensures
        ({
            let shown = profile_selector(control, profiles, id);
            &&& shown[0] == UiEffect::NoChoices(control)
            &&& 0 <= i < profiles.len() ==> shown[i + 1] == UiEffect::Choice(
                control,
                option_label(profiles[i]),
            )
            &&& !has_profile(profiles, id) ==> shown.len() == profiles.len() + 1
            &&& has_profile(profiles, id) ==> shown.len() == profiles.len() + 2 && (
            shown.last() matches UiEffect::Chosen(whose, index) && whose == control && profile_at(
                Some(index),
                profiles,
            ) == Some(id))
        }),
        0 <= i < profiles.len() && i <= usize::MAX ==> profile_at(Some(i as usize), profiles)
            == Some(profiles[i].id),
        profile_at(None, profiles) is None,
        i >= profiles.len() && i <= usize::MAX ==> profile_at(Some(i as usize), profiles) is None,
{
    lemma_profile_position(profiles, id);
    let shown = profile_selector(control, profiles, id);
    let offered = profile_choices(control, profiles);
    assert(offered.len() == profiles.len());
    if 0 <= i < profiles.len() {
        assert(shown[i + 1] == offered[i]);
    }
}

/// Settings that were shown and are saved as they are change nothing.
pub proof fn lemma_unchanged_settings_are_saved_unchanged(
    manager: &mut Manager,
    form: SettingsForm,
    actions: &mut Vec<UiAction>,
    next: AppConfig,
)
    requires
        call_ensures(Manager::begin_save_settings, (manager, &form, actions), next),
        form.endpoint@ == old(manager)@.config.endpoint,
        form.model@ == old(manager)@.config.model,
        form.credential_target@ == old(manager)@.config.credential_target,
        trim(old(manager)@.config.endpoint) == old(manager)@.config.endpoint,
        trim(old(manager)@.config.model) == old(manager)@.config.model,
        trim(old(manager)@.config.credential_target) == old(manager)@.config.credential_target,
        form.selection_default matches Some(index) ==> profile_position(
            old(manager)@.config.profiles,
            old(manager)@.config.selection,
        ) == Some(index as int),
        form.hover_default matches Some(index) ==> profile_position(
            old(manager)@.config.profiles,
            old(manager)@.config.hover,
        ) == Some(index as int),
    ensures
        next@ == old(manager)@.config,
{
    lemma_profile_position(old(manager)@.config.profiles, old(manager)@.config.selection);
    lemma_profile_position(old(manager)@.config.profiles, old(manager)@.config.hover);
}

/// Settings are saved as they were entered, without the space around them, and
/// with the chosen profiles; what is on no form stays.
pub proof fn lemma_settings_are_saved_as_entered(
    manager: &mut Manager,
    form: SettingsForm,
    actions: &mut Vec<UiAction>,
    next: AppConfig,
)
    requires
        call_ensures(Manager::begin_save_settings, (manager, &form, actions), next),
    ensures
        next@.endpoint == trim(form.endpoint@),
        next@.model == trim(form.model@),
        next@.credential_target == trim(form.credential_target@),
        form.selection_default matches Some(index) ==> (index < old(manager)@.config.profiles.len()
            ==> next@.selection == old(manager)@.config.profiles[index as int].id),
        form.hover_default matches Some(index) ==> (index < old(manager)@.config.profiles.len()
            ==> next@.hover == old(manager)@.config.profiles[index as int].id),
        form.selection_default is None ==> next@.selection == old(manager)@.config.selection,
        form.hover_default is None ==> next@.hover == old(manager)@.config.hover,
        next@.profiles == old(manager)@.config.profiles,
        next@.language == old(manager)@.config.language,
        next@.cycle_profiles == old(manager)@.config.cycle_profiles,
        final(manager)@.config == old(manager)@.config,
        final(manager)@.draft is None,
{
}

/// Settings that were written are the manager's, and the credential is looked
/// at again; others leave it as it was.
pub proof fn lemma_only_written_settings_hold(
    manager: &mut Manager,
    next: AppConfig,
    report: SaveReport,
    actions: &mut Vec<UiAction>,
    read_credential: bool,
)
    requires
        call_ensures(Manager::finish_save_settings, (manager, next, report, actions), read_credential),
    ensures
        report is Saved <==> read_credential,
        report is Saved ==> final(manager)@.config == next@,
        !(report is Saved) ==> final(manager)@ == old(manager)@,
        final(manager)@.page == old(manager)@.page,
        final(manager)@.draft == old(manager)@.draft,
        effects(final(actions)@).len() > effects(old(actions)@).len(),
        effects(final(actions)@).last() matches UiEffect::Text(control, _) && control
            == Control::Status,
{
}

/// Saving validates, writes and then tells the resident; what fails is
/// reported at once.
pub proof fn lemma_saving_goes_in_order(
    written: SaveStep,
    told: SaveStep,
    reported: SaveStep,
    step: SaveStep,
    failed: SaveStep,
)
    requires
        call_ensures(save_next, (SaveStep::Validate, true), written),
        call_ensures(save_next, (written, true), told),
        call_ensures(save_next, (told, true), reported),
        call_ensures(save_next, (step, false), failed),
    ensures
        written == SaveStep::Write,
        told == SaveStep::Notify,
        reported == SaveStep::Report,
        failed == SaveStep::Report,
{
}

/// The resident is told of a key only where the key is the one that it uses;
/// the key's field is emptied once the key is stored, and a failure changes
/// nothing.
pub proof fn lemma_a_stored_key_leaves_the_form(
    manager: &mut Manager,
    target: &str,
    report: KeyReport,
    actions: &mut Vec<UiAction>,
    notify: bool,
)
    requires
        call_ensures(Manager::finish_save_key, (manager, target, report, actions), notify),
    ensures
        notify ==> report is Done && target@ == old(manager)@.config.credential_target,
        report is Done && target@ == old(manager)@.config.credential_target ==> notify,
        report is Done ==> final(manager)@.credential == CredentialStatusState::Present,
        report is Done ==> effects(final(actions)@)[effects(old(actions)@).len() as int]
            == UiEffect::Text(Control::ApiKey, seq![]),
        report is Failed ==> final(manager)@ == old(manager)@,
        final(manager)@.config == old(manager)@.config,
{
}

/// A deleted key is absent, and the resident is told where it was its own.
pub proof fn lemma_a_deleted_key_is_absent(
    manager: &mut Manager,
    target: &str,
    report: KeyReport,
    actions: &mut Vec<UiAction>,
    notify: bool,
)
    requires
        call_ensures(Manager::finish_delete_key, (manager, target, report, actions), notify),
    ensures
        notify <==> report is Done && target@ == old(manager)@.config.credential_target,
        report is Done ==> final(manager)@.credential == CredentialStatusState::Absent,
        report is Failed ==> final(manager)@ == old(manager)@,
        final(manager)@.config == old(manager)@.config,
{
}

/// A blank key is not stored; any other goes to the target, without the space
/// around that.
pub proof fn lemma_a_blank_key_is_not_stored(
    manager: Manager,
    target: &str,
    secret: &str,
    actions: &mut Vec<UiAction>,
    to: Option<String>,
)
    requires
        call_ensures(Manager::begin_save_key, (&manager, target, secret, actions), to),
    ensures
        is_blank(secret@) <==> to is None,
        to matches Some(name) ==> name@ == trim(target@) && final(actions)@ == old(actions)@,
{
}

/// A credential is present, absent, or unavailable with the store's own words.
pub proof fn lemma_what_is_known_of_a_credential(
    found: bool,
    error: CredentialError,
    known: CredentialStatusState,
    unknown: CredentialStatusState,
)
    requires
        call_ensures(credential_state, (Ok(found),), known),
        call_ensures(credential_state, (Err(error),), unknown),
    ensures
        known == CredentialStatusState::Present <==> found,
        known == CredentialStatusState::Absent <==> !found,
        unknown matches CredentialStatusState::Unavailable(detail) && detail@ == error.text(),
{
}

/// Another page is shown as soon as it is asked for; leaving the prompts gives
/// a draft up, and nothing else does. Settings look at the credential, the
/// history reads its entries.
pub proof fn lemma_switching_shows_the_page(
    manager: &mut Manager,
    page: Page,
    actions: &mut Vec<UiAction>,
    after: AfterSwitch,
)
    requires
        call_ensures(Manager::switch_view, (manager, page, actions), after),
    ensures
        final(manager)@.page == page,
        effects(final(actions)@).contains(UiEffect::Shown(page)),
        old(manager)@.page == Page::Prompts && page != Page::Prompts
            ==> final(manager)@.draft is None,
        old(manager)@.page != Page::Prompts || page == Page::Prompts ==> final(manager)@.draft
            == old(manager)@.draft,
        final(manager)@.config == old(manager)@.config,
        final(manager)@.profile_index == old(manager)@.profile_index,
        page == Page::Settings <==> after == AfterSwitch::ReadCredential,
        page == Page::History <==> after == AfterSwitch::RefreshHistory,
{
    let before = effects(old(actions)@) + (if old(manager)@.page == Page::Prompts && page
        != Page::Prompts {
        old(manager)@.discarding()
    } else {
        seq![]
    });
    assert(effects(final(actions)@)[before.len() as int] == UiEffect::Shown(page));
}

/// The first entry is English and the second Simplified Chinese; choosing the
/// language that is shown does nothing, and another one is saved with
/// everything else as it is.
pub proof fn lemma_a_language_is_chosen_by_its_entry(
    manager: Manager,
    selection: Option<usize>,
    actions: &mut Vec<UiAction>,
    step: LanguageStep,
)
    requires
        call_ensures(Manager::save_manager_language, (&manager, selection, actions), step),
    ensures
        step matches LanguageStep::Save(next) ==> {
            &&& next@.language != manager@.config.language
            &&& same_runtime_but_language(next@, manager@.config)
            &&& next@.language == UiLanguage::English <==> selection == Some(0usize)
            &&& next@.language == UiLanguage::SimplifiedChinese <==> selection == Some(1usize)
        },
        selection == Some(0usize) && manager@.config.language == UiLanguage::SimplifiedChinese
            ==> step is Save,
        selection == Some(1usize) && manager@.config.language == UiLanguage::English
            ==> step is Save,
        language_index(UiLanguage::English) == 0,
        language_index(UiLanguage::SimplifiedChinese) == 1,
{
}

/// The configurations differ at most in the language.
pub open spec fn same_runtime_but_language(a: ConfigModel, b: ConfigModel) -> bool {
    a.profiles == b.profiles && a.selection == b.selection && a.hover == b.hover && a.endpoint
        == b.endpoint && a.model == b.model && a.credential_target == b.credential_target
        && a.cycle_profiles == b.cycle_profiles
}

/// The form shows the draft where there is one, otherwise the profile at the
/// index; each field shows its own text.
pub proof fn lemma_the_form_shows_the_prompt(state: ManagerModel)
    ensures
        state.draft is Some ==> state.shown_prompt() == state.draft,
        state.draft is None && state.profile_index < state.config.profiles.len()
            ==> state.shown_prompt() == Some(state.config.profiles[state.profile_index as int]),
        state.shown_prompt() matches Some(prompt) ==> {
            let form = state.prompt_form();
            &&& form.len() == 10
            &&& form.contains(UiEffect::Text(Control::ProfileId, prompt.id))
            &&& form.contains(UiEffect::Text(Control::ProfileName, prompt.name))
            &&& form.contains(UiEffect::Text(Control::SystemPrompt, prompt.system_prompt))
            &&& form.contains(UiEffect::Text(Control::UserTemplate, prompt.user_template))
            &&& form.contains(UiEffect::Temperature(prompt.temperature))
            &&& form.contains(UiEffect::Text(Control::PromptSelectionDefault, state.config.selection))
            &&& form.contains(UiEffect::Text(Control::PromptHoverDefault, state.config.hover))
            &&& prompt.max_output_tokens matches Some(count) ==> form.contains(
                UiEffect::Text(Control::MaxTokens, decimal(count as nat)),
            )
            &&& prompt.max_output_tokens is None ==> form.contains(
                UiEffect::Text(Control::MaxTokens, seq![]),
            )
            &&& prompt.model matches Some(model) ==> form.contains(
                UiEffect::Text(Control::ProfileModel, model),
            )
        },
{
    if let Some(prompt) = state.shown_prompt() {
        let form = state.prompt_form();
        assert(form[1] == UiEffect::Text(Control::ProfileId, prompt.id));
        assert(form[2] == UiEffect::Text(Control::ProfileName, prompt.name));
        assert(form[3] == UiEffect::Text(Control::SystemPrompt, prompt.system_prompt));
        assert(form[4] == UiEffect::Text(Control::UserTemplate, prompt.user_template));
        assert(form[5] is Text);
        assert(form[6] == UiEffect::Temperature(prompt.temperature));
        assert(form[7] is Text);
        assert(form[8] == UiEffect::Text(Control::PromptSelectionDefault, state.config.selection));
        assert(form[9] == UiEffect::Text(Control::PromptHoverDefault, state.config.hover));
    }
}

/// The settings show the configured texts, each in its own field.
pub proof fn lemma_the_settings_show_the_configuration(config: ConfigModel)
    ensures
        settings_form(config).contains(UiEffect::Text(Control::Endpoint, config.endpoint)),
        settings_form(config).contains(UiEffect::Text(Control::Model, config.model)),
        settings_form(config).contains(
            UiEffect::Text(Control::CredentialTarget, config.credential_target),
        ),
{
    let form = settings_form(config);
    assert(form[0] == UiEffect::Text(Control::Endpoint, config.endpoint));
    assert(form[1] == UiEffect::Text(Control::Model, config.model));
    assert(form[2] == UiEffect::Text(Control::CredentialTarget, config.credential_target));
}

/// The number shown with a profile is its position among all, counted from
/// one; a draft has none.
pub proof fn lemma_a_profile_shows_its_position(state: ManagerModel)
    requires
        state.profile_index < usize::MAX,
        state.config.profiles.len() <= usize::MAX,
    ensures
        state.draft is None ==> state.profile_number() == UiEffect::Text(
            Control::ProfileNumber,
            status_in(
                state.config.language,
                StatusEvent::ProfilePosition {
                    current: (state.profile_index + 1) as usize,
                    total: state.config.profiles.len() as usize,
                },
            ),
        ),
        state.draft is Some ==> state.profile_number() == UiEffect::Text(
            Control::ProfileNumber,
            status_in(state.config.language, StatusEvent::NewDraft),
        ),
{
}

/// The language selector offers both languages and has the one in force
/// chosen: its entry stands for it.
pub proof fn lemma_the_language_in_force_is_chosen(language: UiLanguage)
    ensures
        language_selector(language).len() == 4,
        language_selector(language)[1] == UiEffect::Choice(
            Control::Language,
            text_in(language, TextKey::English),
        ),
        language_selector(language)[2] == UiEffect::Choice(
            Control::Language,
            text_in(language, TextKey::SimplifiedChinese),
        ),
        language_selector(language)[3] == UiEffect::Chosen(
            Control::Language,
            if language == UiLanguage::English {
                0
            } else {
                1
            },
        ),
{
}

/// A draft that is given up is gone, the profile behind it is shown again, and
/// that is said last; without a draft nothing happens.
pub proof fn lemma_a_draft_is_given_up_aloud(
    manager: &mut Manager,
    actions: &mut Vec<UiAction>,
    outcome: (),
)
    requires
        call_ensures(Manager::discard_draft, (manager, actions), outcome),
    ensures
        final(manager)@.draft is None,
        final(manager)@.config == old(manager)@.config,
        final(manager)@.profile_index == old(manager)@.profile_index,
        old(manager)@.draft is None ==> effects(final(actions)@) == effects(old(actions)@)
            && final(manager)@ == old(manager)@,
        old(manager)@.draft is Some ==> effects(final(actions)@).last() == UiEffect::Text(
            Control::PromptStatus,
            status_in(old(manager)@.config.language, StatusEvent::UnsavedPromptDiscarded),
        ),
{
}

/// A new manager shows the settings, and knows no key, draft or entry yet.
pub proof fn lemma_a_new_manager_knows_nothing_yet(
    config: AppConfig,
    load_error: Option<String>,
    has_path: bool,
    start: ResidentStartOutcome,
    dpi: u32,
    manager: Manager,
    target: Result<(), String>,
)
    requires
        call_ensures(Manager::new, (config, load_error, has_path, start, dpi), manager),
        call_ensures(Manager::save_target, (&manager,), target),
    ensures
        manager@.config == config@,
        manager@.page == Page::Settings,
        manager@.draft is None,
        manager@.entries.len() == 0 && !manager@.history_loaded,
        manager@.credential == CredentialStatusState::Absent,
        manager@.load_error is Some == load_error is Some,
        manager@.resident_start == start,
        target is Ok <==> has_path,
{
}

/// Another language changes nothing else of a configuration.
pub proof fn lemma_only_the_language_changes(
    config: AppConfig,
    language: UiLanguage,
    next: AppConfig,
)
    requires
        call_ensures(config_with_manager_language, (&config, language), next),
    ensures
        next@.language == language,
        same_runtime_but_language(next@, config@),
{
}

} // verus!
