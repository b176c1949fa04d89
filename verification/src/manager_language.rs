//! What the manager shows when it starts and when its language changes.

use crate::manager::{
    effects, emit, language_selector, set_status, set_text, settings_form, KeyReport, Manager,
    ManagerModel, UiAction, UiEffect,
};
use crate::manager_controls::Control;
use crate::manager_history::{history_filters, HistorySelections};
use crate::manager_layout::Page;
use crate::manager_status::StatusEvent;
use crate::settings::{AppConfig, ConfigModel};
use vstd::prelude::*;

verus! {

/// What is shown anew in the language of the configuration.
pub open spec fn localization(config: ConfigModel, selections: HistorySelections) -> Seq<UiEffect> {
    seq![UiEffect::Localized(config.language)] + language_selector(config.language)
        + history_filters(config, selections)
}

impl ManagerModel {
    /// What the window is filled with when it is made.
    pub open spec fn first_contents(self, selections: HistorySelections) -> Seq<UiEffect> {
        localization(self.config, selections) + seq![
            UiEffect::Text(Control::Endpoint, self.config.endpoint),
            UiEffect::Text(Control::Model, self.config.model),
            UiEffect::Text(Control::CredentialTarget, self.config.credential_target),
            UiEffect::Text(Control::PromptSelectionDefault, self.config.selection),
            UiEffect::Text(Control::PromptHoverDefault, self.config.hover),
        ] + self.prompt_form() + seq![UiEffect::Shown(Page::Settings)] + settings_form(
            self.config,
        ) + match self.load_error {
            Some(error) => seq![UiEffect::Text(Control::Status, error)],
            None => seq![],
        }
    }

    /// What is shown after the language was changed.
    pub open spec fn relabelled(self, selections: HistorySelections, selected: int) -> Seq<
        UiEffect,
    > {
        localization(self.config, selections) + seq![
            self.profile_number(),
            self.credential_label(),
        ] + self.detail(selected) + seq![self.status(StatusEvent::InterfaceLanguageSaved)]
    }
}

impl Manager {
    /// Shows every fixed text, and what depends on the language, anew.
    pub fn apply_static_localization(
        &self,
        selections: HistorySelections,
        actions: &mut Vec<UiAction>,
    )
        ensures
            effects(final(actions)@) == effects(old(actions)@) + localization(
                self@.config,
                selections,
            ),
    {
        let ghost start = effects(old(actions)@);
        emit(actions, UiAction::Localize { language: self.language() });
        self.populate_language_selector(actions);
        self.populate_history_filters(selections, actions);
        proof {
            assert(effects(actions@) =~= start + localization(self@.config, selections));
        }
    }

    /// Fills the window when it is made. Returns whether the key is to be read;
    /// a configuration that could not be loaded is reported instead.
    pub fn populate(&mut self, selections: HistorySelections, actions: &mut Vec<UiAction>) -> (
        read_credential: bool)
        requires
            old(self)@.wf(),
        ensures
            final(self)@ == (ManagerModel {
                page: Page::Settings,
                profile_index: 0,
                ..old(self)@
            }),
            effects(final(actions)@) == effects(old(actions)@) + final(self)@.first_contents(
                selections,
            ),
            read_credential == (old(self)@.load_error is None),
            final(self)@.wf(),
    {
        let ghost start = effects(old(actions)@);
        self.profile_index = 0;
        self.page = Page::Settings;
        self.apply_static_localization(selections, actions);
        set_text(actions, Control::Endpoint, self.config.provider.endpoint.as_str());
        set_text(actions, Control::Model, self.config.provider.model.as_str());
        set_text(
            actions,
            Control::CredentialTarget,
            self.config.provider.credential_target.as_str(),
        );
        set_text(
            actions,
            Control::PromptSelectionDefault,
            self.config.defaults.selection.as_str(),
        );
        set_text(actions, Control::PromptHoverDefault, self.config.defaults.hover.as_str());
        self.refresh_prompt_form(actions);
        emit(actions, UiAction::ShowPage { page: Page::Settings });
        self.refresh_settings_form(actions);
        let read_credential: bool = match &self.load_error {
            Some(error) => {
                set_text(actions, Control::Status, error.as_str());
                false
            },
            None => true,
        };
        proof {
            assert(effects(actions@) =~= start + self@.first_contents(selections));
        }
        read_credential
    }

    /// Reports whether a resident runs.
    pub fn report_resident_start(&self, actions: &mut Vec<UiAction>)
        ensures
            effects(final(actions)@) == effects(old(actions)@).push(
                self@.status(StatusEvent::ResidentStart(self@.resident_start)),
            ),
    {
        set_status(
            actions,
            Control::Status,
            self.language(),
            StatusEvent::ResidentStart(self.resident_start),
        );
    }

    /// Reports a window whose controls could not be made.
    pub fn report_initialization_failure(&self, detail: &str, actions: &mut Vec<UiAction>)
        ensures
            effects(final(actions)@) == effects(old(actions)@).push(
                self@.status(StatusEvent::ManagerInitializationFailed { detail }),
            ),
    {
        set_status(
            actions,
            Control::Status,
            self.language(),
            StatusEvent::ManagerInitializationFailed { detail },
        );
    }

    /// Takes over a saved language, or reports why it was not saved. A draft,
    /// and what was entered but not saved, stays.
    pub fn finish_language(
        &mut self,
        next: AppConfig,
        report: KeyReport<'_>,
        selections: HistorySelections,
        selected: isize,
        actions: &mut Vec<UiAction>,
    )
        requires
            old(self)@.wf(),
            next@.profiles == old(self)@.config.profiles,
        ensures
            match report {
                KeyReport::Failed { detail } => {
                    &&& final(self)@ == old(self)@
                    &&& effects(final(actions)@) == effects(old(actions)@) + language_selector(
                        old(self)@.config.language,
                    ) + seq![old(self)@.status(StatusEvent::SaveInterfaceLanguageFailed { detail })]
                },
                KeyReport::Done => {
                    &&& final(self)@ == (ManagerModel { config: next@, ..old(self)@ })
                    &&& effects(final(actions)@) == effects(old(actions)@)
                        + final(self)@.relabelled(selections, selected as int)
                },
            },
            final(self)@.wf(),
    {
        let ghost start = effects(old(actions)@);
        match report {
            KeyReport::Failed { detail } => {
                self.populate_language_selector(actions);
                set_status(
                    actions,
                    Control::Status,
                    self.language(),
                    StatusEvent::SaveInterfaceLanguageFailed { detail },
                );
                proof {
                    assert(effects(actions@) =~= start + language_selector(
                        old(self)@.config.language,
                    ) + seq![
                        old(self)@.status(StatusEvent::SaveInterfaceLanguageFailed { detail }),
                    ]);
                }
            },
            KeyReport::Done => {
                self.config = next;
                self.apply_static_localization(selections, actions);
                self.refresh_profile_number(actions);
                self.relabel_credential_status(actions);
                self.history_selection_changed(selected, actions);
                set_status(
                    actions,
                    Control::Status,
                    self.language(),
                    StatusEvent::InterfaceLanguageSaved,
                );
                proof {
                    assert(effects(actions@) =~= start + self@.relabelled(
                        selections,
                        selected as int,
                    ));
                }
            },
        }
    }
}

/// The window opens on the settings of the first profile, with a fault of
/// loading told last; the credential is read only where loading went well.
pub proof fn lemma_the_window_opens_on_the_settings(
    manager: &mut Manager,
    selections: HistorySelections,
    actions: &mut Vec<UiAction>,
    read_credential: bool,
)
    requires
        call_ensures(Manager::populate, (manager, selections, actions), read_credential),
    ensures
        final(manager)@.page == Page::Settings,
        final(manager)@.profile_index == 0,
        final(manager)@.config == old(manager)@.config,
        read_credential <==> old(manager)@.load_error is None,
        old(manager)@.load_error matches Some(error) ==> effects(final(actions)@).last()
            == UiEffect::Text(Control::Status, error),
        effects(final(actions)@)[effects(old(actions)@).len() as int] == UiEffect::Localized(
            old(manager)@.config.language,
        ),
{
}

/// A language that was saved is shown from then on, first of all; one that was
/// not leaves the old one chosen.
pub proof fn lemma_a_saved_language_is_shown(
    manager: &mut Manager,
    next: AppConfig,
    report: KeyReport,
    selections: HistorySelections,
    selected: isize,
    actions: &mut Vec<UiAction>,
    outcome: (),
)
    requires
        call_ensures(
            Manager::finish_language,
            (manager, next, report, selections, selected, actions),
            outcome,
        ),
    ensures
        report is Done ==> final(manager)@.config == next@ && effects(final(actions)@)[effects(
            old(actions)@,
        ).len() as int] == UiEffect::Localized(next@.language),
        report is Failed ==> final(manager)@ == old(manager)@ && effects(final(actions)@)[effects(
            old(actions)@,
        ).len() as int] == UiEffect::NoChoices(Control::Language),
        final(manager)@.page == old(manager)@.page,
        final(manager)@.entries == old(manager)@.entries,
        effects(final(actions)@).last() matches UiEffect::Text(control, _) && control
            == Control::Status,
{
}

} // verus!
