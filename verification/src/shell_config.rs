//! A changed configuration or credential, seen from the shell.

use crate::popups::PopupId;
use crate::settings::{
    find_profile, has_profile, optional_text, resident_runtime_config_eq, same_runtime, AppConfig,
    ConfigModel,
};
use crate::shell::{
    is_registered, lemma_cancelling_keeps_what_is_shown, PendingProfileChoice, RequestSpec, Shell,
    ShellAction, ShellModel,
};
use crate::shell_request::reprompted;
use crate::text::copy_of;
use vstd::prelude::*;

verus! {

/// What the watcher publishes: a validated replacement, or that the file cannot
/// be used. No text of the file is part of the latter.
#[derive(Debug, PartialEq, Eq)]
pub enum ConfigChange {
    Loaded(AppConfig),
    Invalid,
}

/// The change that loading the file again amounts to.
pub fn config_change(loaded: Option<AppConfig>) -> (change: ConfigChange)
    ensures
        change == match loaded {
            Some(config) => ConfigChange::Loaded(config),
            None => ConfigChange::Invalid,
        },
{
    match loaded {
        Some(config) => ConfigChange::Loaded(config),
        None => ConfigChange::Invalid,
    }
}

/// The generation after `generation`; never zero.
pub open spec fn next_config_generation(generation: u64) -> u64 {
    if generation == u64::MAX {
        1
    } else {
        (generation + 1) as u64
    }
}

fn following_generation(generation: u64) -> (next: u64)
    ensures
        next == next_config_generation(generation),
{
    if generation == u64::MAX {
        1
    } else {
        generation + 1
    }
}

impl ShellModel {
    /// The state once everything that rests on the old configuration was given
    /// up.
    pub open spec fn outdated(self) -> ShellModel {
        ShellModel {
            config_generation: next_config_generation(self.config_generation),
            ..self.without_work()
        }
    }

    pub open spec fn outdating_actions(self) -> Seq<ShellAction> {
        self.work_cancellation() + seq![ShellAction::ClearCache]
    }

    /// The state with an open choice of profile closed.
    pub open spec fn closing_choice(self) -> ShellModel {
        match self.choice {
            Some(choice) => (ShellModel { choice: None, ..self }).without_popup(choice.popup_id),
            None => self,
        }
    }

    pub open spec fn closing_actions(self) -> Seq<ShellAction> {
        match self.choice {
            Some(choice) => (ShellModel { choice: None, ..self }).removal_actions(
                choice.popup_id,
                true,
            ),
            None => seq![],
        }
    }
}

proof fn lemma_outdated_keeps_wf(state: ShellModel)
    requires
        state.wf(),
    ensures
        state.outdated().wf(),
{
    lemma_cancelling_keeps_what_is_shown(state);
    assert forall|id: PopupId| is_registered(state.popups, id) implies is_registered(
        state.outdated().popups,
        id,
    ) by {}
}

impl Shell {
    fn outdate(&mut self, actions: &mut Vec<ShellAction>)
        requires
            old(self)@.wf(),
        ensures
            final(self)@ == old(self)@.outdated(),
            final(actions)@ == old(actions)@ + old(self)@.outdating_actions(),
            final(self)@.wf(),
    {
        let ghost before = self@;
        self.config_generation = following_generation(self.config_generation);
        self.cancel_inflight_work(actions);
        actions.push(ShellAction::ClearCache);
        proof {
            lemma_outdated_keeps_wf(before);
            assert(self@ =~= before.outdated());
            assert(actions@ =~= old(actions)@ + before.outdating_actions());
        }
    }

    fn close_choice(&mut self, actions: &mut Vec<ShellAction>)
        requires
            old(self)@.wf(),
        ensures
            final(self)@ == old(self)@.closing_choice(),
            final(actions)@ == old(actions)@ + old(self)@.closing_actions(),
            final(self)@.wf(),
    {
        let ghost before = self@;
        match self.pending_profile_choice.take() {
            Some(choice) => {
                proof {
                    assert forall|id: PopupId| is_registered(
                        before.popups,
                        id,
                    ) implies is_registered(self@.popups, id) by {}
                    assert(self@.wf());
                }
                self.remove_popup(choice.popup_id, true, actions);
            },
            None => {
                proof {
                    assert(self@ == before);
                    assert(actions@ =~= old(actions)@ + before.closing_actions());
                }
            },
        }
    }

    /// Begins to apply a configuration. One that is the same to the resident
    /// only changes the manager's language, and is done with; for any other the
    /// work is given up, and it is returned to be applied.
    pub fn begin_config(&mut self, config: AppConfig, actions: &mut Vec<ShellAction>) -> (apply: Option<
        AppConfig,
    >)
        requires
            old(self)@.wf(),
        ensures
            if same_runtime(config@, old(self)@.config) {
                &&& apply is None
                &&& final(self)@ == (ShellModel {
                    config: ConfigModel { language: config@.language, ..old(self)@.config },
                    ..old(self)@
                })
                &&& final(actions)@ == old(actions)@
            } else {
                &&& apply == Some(config)
                &&& final(self)@ == old(self)@.outdated()
                &&& final(actions)@ == old(actions)@ + old(self)@.outdating_actions()
            },
            final(self)@.wf(),
    {
        let ghost before = self@;
        if resident_runtime_config_eq(&config, &self.config) {
            self.config.ui = config.ui;
            proof {
                assert forall|id: PopupId| is_registered(before.popups, id) implies is_registered(
                    self@.popups,
                    id,
                ) by {}
            }
            return None;
        }
        self.outdate(actions);
        Some(config)
    }

    /// Applies a configuration whose provider was built, with or without an
    /// error. A prompt whose profile is gone is replaced: the chosen one by
    /// none, that of the last request by `default_prompt` or the chosen one.
    /// Returns the popup whose profiles are to be offered anew.
    pub fn finish_config(
        &mut self,
        config: AppConfig,
        provider_error: Option<String>,
        default_prompt: &str,
    ) -> (chooser: Option<PopupId>)
        requires
            old(self)@.wf(),
        ensures
            ({
                let profiles = config@.profiles;
                let active = match old(self)@.active_prompt_id {
                    Some(id) => if has_profile(profiles, id) {
                        Some(id)
                    } else {
                        None
                    },
                    None => None,
                };
                &&& final(self)@ == (ShellModel {
                    config: config@,
                    startup_error: optional_text(provider_error),
                    active_prompt_id: active,
                    last_request: final(self)@.last_request,
                    ..old(self)@
                })
                &&& match (old(self)@.last_request, final(self)@.last_request) {
                    (Some(before), Some(after)) => if has_profile(profiles, before.prompt_id@) {
                        after == before
                    } else {
                        reprompted(
                            before,
                            after,
                            match active {
                                Some(id) => id,
                                None => default_prompt@,
                            },
                        )
                    },
                    (None, None) => true,
                    _ => false,
                }
            }),
            chooser == match old(self)@.choice {
                Some(choice) => Some(choice.popup_id),
                None => None,
            },
            final(self)@.wf(),
    {
        let ghost before = self@;
        self.startup_error = provider_error;
        self.config = config;
        let keep: bool = match &self.active_prompt_id {
            Some(id) => find_profile(self.config.profiles.as_slice(), id.as_str()).is_some(),
            None => true,
        };
        if !keep {
            self.active_prompt_id = None;
        }
        match self.last_request.take() {
            Some(spec) => {
                let mut spec: RequestSpec = spec;
                if find_profile(
                    self.config.profiles.as_slice(),
                    spec.prompt_id.as_str(),
                ).is_none() {
                    spec.prompt_id = self.selected_prompt_id(default_prompt);
                }
                self.last_request = Some(spec);
            },
            None => {},
        }
        proof {
            assert forall|id: PopupId| is_registered(before.popups, id) implies is_registered(
                self@.popups,
                id,
            ) by {}
            assert(self@.wf());
        }
        match &self.pending_profile_choice {
            Some(choice) => Some(choice.popup_id),
            None => None,
        }
    }

    /// The profiles of an open choice were, or were not, offered anew. A choice
    /// that was belongs to the current configuration; one that was not is
    /// closed.
    pub fn refresh_choice(
        &mut self,
        refreshed: bool,
        profile_ids: Vec<String>,
        actions: &mut Vec<ShellAction>,
    )
        requires
            old(self)@.wf(),
        ensures
            match old(self)@.choice {
                Some(choice) => if refreshed {
                    &&& final(self)@ == (ShellModel {
                        choice: Some(
                            PendingProfileChoice {
                                pending: crate::shell::PendingAttempt {
                                    config_generation: old(self)@.config_generation,
                                    ..choice.pending
                                },
                                profile_ids,
                                ..choice
                            },
                        ),
                        ..old(self)@
                    })
                    &&& final(actions)@ == old(actions)@
                } else {
                    &&& final(self)@ == old(self)@.without_popup(choice.popup_id)
                    &&& final(actions)@ == old(actions)@ + old(self)@.removal_actions(
                        choice.popup_id,
                        true,
                    )
                },
                None => final(self)@ == old(self)@ && final(actions)@ == old(actions)@,
            },
            final(self)@.wf(),
    {
        let ghost before = self@;
        let chooser: PopupId = match &self.pending_profile_choice {
            Some(choice) => choice.popup_id,
            None => {
                return;
            },
        };
        if !refreshed {
            self.remove_popup(chooser, true, actions);
            return;
        }
        match self.pending_profile_choice.take() {
            Some(choice) => {
                let mut choice: PendingProfileChoice = choice;
                choice.pending.config_generation = self.config_generation;
                choice.profile_ids = profile_ids;
                self.pending_profile_choice = Some(choice);
            },
            None => {},
        }
        proof {
            assert forall|id: PopupId| is_registered(before.popups, id) implies is_registered(
                self@.popups,
                id,
            ) by {}
        }
    }

    /// The configuration file cannot be used: the last good configuration
    /// stays, the work is given up, and explicit requests report the fault.
    pub fn reject_config(&mut self, actions: &mut Vec<ShellAction>)
        requires
            old(self)@.wf(),
        ensures
            final(self)@ == (ShellModel {
                startup_error: Some("Configuration file is invalid"@),
                ..old(self)@.outdated()
            }).closing_choice(),
            final(actions)@ == old(actions)@ + old(self)@.outdating_actions() + (ShellModel {
                startup_error: Some("Configuration file is invalid"@),
                ..old(self)@.outdated()
            }).closing_actions(),
            final(self)@.wf(),
    {
        let ghost before = self@;
        self.outdate(actions);
        self.startup_error = Some(copy_of("Configuration file is invalid"));
        proof {
            assert forall|id: PopupId| is_registered(before.popups, id) implies is_registered(
                self@.popups,
                id,
            ) by {}
            assert(self@.wf());
        }
        self.close_choice(actions);
    }

    /// The provider was built again, with or without an error, for a changed
    /// credential.
    pub fn refresh_provider(&mut self, provider_error: Option<String>, actions: &mut Vec<ShellAction>)
        requires
            old(self)@.wf(),
        ensures
            final(self)@ == (ShellModel {
                startup_error: optional_text(provider_error),
                ..old(self)@.outdated()
            }).closing_choice(),
            final(actions)@ == old(actions)@ + old(self)@.outdating_actions() + (ShellModel {
                startup_error: optional_text(provider_error),
                ..old(self)@.outdated()
            }).closing_actions(),
            final(self)@.wf(),
    {
        let ghost before = self@;
        self.outdate(actions);
        self.startup_error = provider_error;
        proof {
            assert forall|id: PopupId| is_registered(before.popups, id) implies is_registered(
                self@.popups,
                id,
            ) by {}
            assert(self@.wf());
        }
        self.close_choice(actions);
    }
}

/// A request that was pending under the old configuration is never admitted
/// under the new one: its generation is another.
pub proof fn lemma_generation_changes(generation: u64)
    requires
        generation >= 1,
    ensures
        next_config_generation(generation) != generation,
        next_config_generation(generation) >= 1,
{
}

/// What rests on the old configuration is given up with it: the work, the cache
/// and every pending or offered request, whose generation is no longer current.
pub proof fn lemma_an_old_configuration_is_given_up(state: ShellModel)
    requires
        state.wf(),
    ensures
        ({
            let after = state.outdated();
            &&& after.pending is None
            &&& after.active_request is None
            &&& !after.provider_active
            &&& after.popup_job_id is None
            &&& after.config_generation != state.config_generation
            &&& after.config == state.config
            &&& after.popups == state.popups
            &&& after.active_prompt_id == state.active_prompt_id
            &&& after.last_request == state.last_request
            &&& after.choice == state.choice
            &&& after.rest_enabled == state.rest_enabled
            &&& after.hover_enabled == state.hover_enabled
        }),
        state.outdating_actions().contains(ShellAction::ClearCache),
        state.outdating_actions().contains(ShellAction::CancelExtraction),
        state.provider_active ==> state.outdating_actions().contains(ShellAction::CancelProvider),
{
    let actions = state.outdating_actions();
    assert(actions.last() == ShellAction::ClearCache);
    assert(actions[actions.len() - 1] == actions.last());
    assert(actions[0] == ShellAction::CancelExtraction);
    if state.provider_active {
        assert(actions[1] == ShellAction::CancelProvider);
    }
}

/// Closing a choice takes its popup away with it, and nothing else that is shown.
pub proof fn lemma_closing_a_choice_takes_its_popup(state: ShellModel, id: PopupId)
    requires
        state.wf(),
    ensures
        state.closing_choice().choice is None,
        state.choice is None ==> state.closing_choice() == state,
        state.choice matches Some(choice) ==> (is_registered(state.closing_choice().popups, id)
            <==> is_registered(state.popups, id) && id != choice.popup_id),
        state.choice matches Some(choice) ==> state.closing_actions().contains(
            ShellAction::DismissPopup(choice.popup_id),
        ),
{
    if let Some(choice) = state.choice {
        let open = ShellModel { choice: None, ..state };
        assert forall|other: PopupId| is_registered(state.popups, other) implies is_registered(
            open.popups,
            other,
        ) by {}
        assert(open.wf());
        let ids = seq![choice.popup_id];
        assert(ids.drop_last() =~= Seq::<PopupId>::empty());
        assert(open.without_popups(ids.drop_last()) == open);
        assert(ids.last() == choice.popup_id);
        crate::shell::lemma_exactly_the_removed_are_gone(open, ids, id);
        crate::shell::lemma_removal_tells_the_window(open, choice.popup_id, true);
        assert(ids[0] == choice.popup_id);
    }
}

// What the operations do to the shell.

/// A configuration that is new to the resident has to be applied, and all work
/// under the old one is given up before; one that differs in the language alone
/// has not, and nothing is given up.
pub proof fn lemma_a_new_configuration_is_applied(
    shell: &mut Shell,
    config: AppConfig,
    actions: &mut Vec<ShellAction>,
    apply: Option<AppConfig>,
)
    requires
        old(shell)@.wf(),
        call_ensures(Shell::begin_config, (shell, config, actions), apply),
    ensures
        config@.endpoint != old(shell)@.config.endpoint
            || config@.model != old(shell)@.config.model
            || config@.profiles.len() != old(shell)@.config.profiles.len() || config@.hover
            != old(shell)@.config.hover || config@.selection != old(shell)@.config.selection
            ==> apply == Some(config),
        apply is Some ==> apply == Some(config) && final(shell)@.pending is None
            && final(shell)@.active_request is None && !final(shell)@.provider_active
            && final(shell)@.config_generation != old(shell)@.config_generation,
        apply is None ==> final(actions)@ == old(actions)@
            && final(shell)@.pending == old(shell)@.pending
            && final(shell)@.active_request == old(shell)@.active_request
            && final(shell)@.config_generation == old(shell)@.config_generation
            && final(shell)@.config.language
            == config@.language,
        final(shell)@.popups == old(shell)@.popups,
        final(shell)@.choice == old(shell)@.choice,
{
    lemma_an_old_configuration_is_given_up(old(shell)@);
}

/// Once applied, the configuration is the shell's, with its own fault or none.
/// A prompt that is still configured stays chosen; one that is gone is
/// replaced, also in the request to repeat, which is otherwise kept.
pub proof fn lemma_an_applied_configuration_holds(
    shell: &mut Shell,
    config: AppConfig,
    provider_error: Option<String>,
    default_prompt: &str,
    chooser: Option<PopupId>,
)
    requires
        call_ensures(
            Shell::finish_config,
            (shell, config, provider_error, default_prompt),
            chooser,
        ),
    ensures
        final(shell)@.config == config@,
        provider_error is None <==> final(shell)@.startup_error is None,
        provider_error matches Some(error) ==> final(shell)@.startup_error == Some(error@),
        final(shell)@.active_prompt_id matches Some(id) ==> has_profile(config@.profiles, id)
            && old(shell)@.active_prompt_id == Some(id),
        old(shell)@.active_prompt_id matches Some(id) ==> (has_profile(config@.profiles, id)
            ==> final(shell)@.active_prompt_id == Some(id)),
        old(shell)@.last_request is None ==> final(shell)@.last_request is None,
        old(shell)@.last_request matches Some(before)
            ==> (final(shell)@.last_request matches Some(after) && {
            &&& after.trigger == before.trigger
            &&& after.process_id == before.process_id
            &&& after.selection_rect == before.selection_rect
            &&& has_profile(config@.profiles, before.prompt_id@) ==> after.prompt_id@
                == before.prompt_id@
            &&& !has_profile(config@.profiles, before.prompt_id@)
                && final(shell)@.active_prompt_id is None ==> after.prompt_id@ == default_prompt@
            &&& !has_profile(config@.profiles, before.prompt_id@)
                ==> (final(shell)@.active_prompt_id matches Some(id) ==> after.prompt_id@ == id)
        }),
        old(shell)@.choice is None <==> chooser is None,
        old(shell)@.choice matches Some(choice) ==> chooser == Some(choice.popup_id),
        final(shell)@.popups == old(shell)@.popups,
        final(shell)@.pending == old(shell)@.pending,
        final(shell)@.config_generation == old(shell)@.config_generation,
{
}

/// A chooser that could be redrawn goes on with the new profiles, under the new
/// configuration and for the same text; one that could not goes away.
pub proof fn lemma_a_chooser_is_redrawn_or_goes(
    shell: &mut Shell,
    refreshed: bool,
    profile_ids: Vec<String>,
    actions: &mut Vec<ShellAction>,
    outcome: (),
)
    requires
        old(shell)@.wf(),
        call_ensures(Shell::refresh_choice, (shell, refreshed, profile_ids, actions), outcome),
    ensures
        old(shell)@.choice matches Some(choice) ==> {
            &&& refreshed ==> (final(shell)@.choice matches Some(after) && after.popup_id
                == choice.popup_id && after.profile_ids == profile_ids && after.text == choice.text
                && after.anchor == choice.anchor && after.pending.attempt == choice.pending.attempt
                && after.pending.spec == choice.pending.spec && after.pending.config_generation
                == old(shell)@.config_generation && final(actions)@ == old(actions)@)
            &&& !refreshed ==> final(shell)@.choice is None && !is_registered(
                final(shell)@.popups,
                choice.popup_id,
            ) && final(actions)@.contains(ShellAction::DismissPopup(choice.popup_id))
        },
        old(shell)@.choice is None ==> final(shell)@ == old(shell)@
            && final(actions)@ == old(actions)@,
{
    if let Some(choice) = old(shell)@.choice {
        if !refreshed {
            crate::shell::lemma_removal_leaves_no_reference(old(shell)@, choice.popup_id);
            crate::shell::lemma_removal_tells_the_window(old(shell)@, choice.popup_id, true);
            let told = old(shell)@.removal_actions(choice.popup_id, true);
            let action = ShellAction::DismissPopup(choice.popup_id);
            let k = choose|k: int| 0 <= k < told.len() && told[k] == action;
            assert(final(actions)@[old(actions)@.len() + k] == action);
        }
    }
}

/// A file that cannot be used stops the work and says so, without a word of
/// what the file holds; the configuration in force stays.
pub proof fn lemma_a_broken_file_stops_the_work(
    shell: &mut Shell,
    actions: &mut Vec<ShellAction>,
    outcome: (),
)
    requires
        old(shell)@.wf(),
        call_ensures(Shell::reject_config, (shell, actions), outcome),
    ensures
        final(shell)@.startup_error == Some("Configuration file is invalid"@),
        final(shell)@.choice is None,
        final(shell)@.pending is None,
        final(shell)@.active_request is None,
        final(shell)@.config == old(shell)@.config,
        final(shell)@.config_generation != old(shell)@.config_generation,
{
    lemma_an_old_configuration_is_given_up(old(shell)@);
}

/// A provider that is made anew leaves its own fault, or none, and ends the
/// work of the one before.
pub proof fn lemma_a_new_provider_ends_the_work_of_the_old(
    shell: &mut Shell,
    provider_error: Option<String>,
    actions: &mut Vec<ShellAction>,
    outcome: (),
)
    requires
        old(shell)@.wf(),
        call_ensures(Shell::refresh_provider, (shell, provider_error, actions), outcome),
    ensures
        provider_error is None <==> final(shell)@.startup_error is None,
        provider_error matches Some(error) ==> final(shell)@.startup_error == Some(error@),
        final(shell)@.choice is None,
        final(shell)@.pending is None,
        final(shell)@.active_request is None,
        final(shell)@.config == old(shell)@.config,
        final(shell)@.config_generation != old(shell)@.config_generation,
{
    lemma_an_old_configuration_is_given_up(old(shell)@);
}

/// What was loaded is published, and anything else as invalid.
pub proof fn lemma_what_is_published(
    config: AppConfig,
    loaded: ConfigChange,
    invalid: ConfigChange,
)
    requires
        call_ensures(config_change, (Some(config),), loaded),
        call_ensures(config_change, (None,), invalid),
    ensures
        loaded == ConfigChange::Loaded(config),
        invalid == ConfigChange::Invalid,
{
}

} // verus!
