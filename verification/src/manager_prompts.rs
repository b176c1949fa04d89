//! The page of the profiles: drafts, the form and what saving it changes.

use crate::manager::{
    effects, set_status, set_text, Manager, ManagerModel, SaveReport, UiAction, UiEffect,
};
use crate::manager_controls::Control;
use crate::manager_history::{
    history_filters, nonempty, nonempty_text, HistorySelections,
};
use crate::manager_status::{status_in, status_text, StatusEvent};
use crate::settings::{
    has_profile, lemma_profile_position, profile_position, prompt_models,
    AppConfig, ConfigModel, PromptConfig, PromptModel, UiLanguage,
};
use crate::text::{
    blank, copy_of, decimal, is_blank, is_digit, lemma_decimal_stands_for_its_number,
    lemma_trimmed_text_stays, lemma_what_is_white_space, lemma_written_numbers_are_read_back,
    parse_u32, parsed_u32, push_decimal, same_text, trim, trimmed,
};
use vstd::prelude::*;

verus! {

/// What the user entered in the form of a profile.
pub struct PromptForm {
    pub id: String,
    pub name: String,
    pub system_prompt: String,
    pub user_template: String,
    pub model: String,
    pub temperature: String,
    /// The bits of the number that the temperature's text stands for, without
    /// the white space around it, if it stands for one.
    pub temperature_bits: Option<u32>,
    pub max_tokens: String,
    pub selection_default: String,
    pub hover_default: String,
}

/// The single-precision number with these bits is finite and from 0 to 2. Up to
/// the infinity, numbers that are not negative are ordered as their bits are;
/// the negative zero is 0.
pub open spec fn is_temperature(bits: u32) -> bool {
    bits <= 0x4000_0000 || bits == 0x8000_0000
}

/// The optional temperature that a text stands for, or that it stands for none.
pub open spec fn entered_temperature(value: Seq<char>, bits: Option<u32>) -> Option<Option<u32>> {
    if is_blank(value) {
        Some(None)
    } else {
        match bits {
            Some(number) => if is_temperature(number) {
                Some(Some(number))
            } else {
                None
            },
            None => None,
        }
    }
}

pub fn parse_optional_f32(value: &str, bits: Option<u32>, language: UiLanguage) -> (parsed: Result<
    Option<u32>,
    String,
>)
    ensures
        match parsed {
            Ok(temperature) => entered_temperature(value@, bits) == Some(temperature),
            Err(reason) => entered_temperature(value@, bits) is None && reason@ == status_in(
                language,
                StatusEvent::InvalidTemperature,
            ),
        },
{
    if blank(value) {
        return Ok(None);
    }
    match bits {
        Some(number) => {
            if number <= 0x4000_0000 || number == 0x8000_0000 {
                return Ok(Some(number));
            }
        },
        None => {},
    }
    Err(status_text(language, StatusEvent::InvalidTemperature))
}

/// The optional positive number that a text stands for, or that it stands for
/// none.
pub open spec fn entered_count(value: Seq<char>) -> Option<Option<u32>> {
    if is_blank(value) {
        Some(None)
    } else {
        match parsed_u32(trim(value)) {
            Some(count) => if count > 0 {
                Some(Some(count))
            } else {
                None
            },
            None => None,
        }
    }
}

pub fn parse_optional_u32(value: &str, language: UiLanguage) -> (parsed: Result<
    Option<u32>,
    String,
>)
    ensures
        match parsed {
            Ok(count) => entered_count(value@) == Some(count),
            Err(reason) => entered_count(value@) is None && reason@ == status_in(
                language,
                StatusEvent::InvalidMaxOutputTokens,
            ),
        },
{
    if blank(value) {
        return Ok(None);
    }
    let digits: String = trimmed(value);
    match parse_u32(digits.as_str()) {
        Some(count) => {
            if count > 0 {
                return Ok(Some(count));
            }
        },
        None => {},
    }
    Err(status_text(language, StatusEvent::InvalidMaxOutputTokens))
}

impl PromptForm {
    /// The profile that the form describes, where its numbers are valid.
    pub open spec fn profile(self) -> Option<PromptModel> {
        match (
            entered_temperature(self.temperature@, self.temperature_bits),
            entered_count(self.max_tokens@),
        ) {
            (Some(temperature), Some(max_output_tokens)) => Some(
                PromptModel {
                    id: trim(self.id@),
                    name: trim(self.name@),
                    system_prompt: self.system_prompt@,
                    user_template: self.user_template@,
                    model: nonempty_text(self.model@),
                    temperature,
                    max_output_tokens,
                },
            ),
            _ => None,
        }
    }

    /// What is wrong with the form: the temperature comes first.
    pub open spec fn fault(self) -> StatusEvent<'static> {
        if entered_temperature(self.temperature@, self.temperature_bits) is None {
            StatusEvent::InvalidTemperature
        } else {
            StatusEvent::InvalidMaxOutputTokens
        }
    }
}

/// The profile that the form describes, or what is wrong with its numbers.
pub fn prompt_from_form(form: &PromptForm, language: UiLanguage) -> (prompt: Result<
    PromptConfig,
    String,
>)
    ensures
        match prompt {
            Ok(profile) => form.profile() == Some(profile@),
            Err(reason) => form.profile() is None && reason@ == status_in(language, form.fault()),
        },
{
    let temperature: Option<u32> = match parse_optional_f32(
        form.temperature.as_str(),
        form.temperature_bits,
        language,
    ) {
        Ok(value) => value,
        Err(reason) => {
            return Err(reason);
        },
    };
    let max_output_tokens: Option<u32> = match parse_optional_u32(
        form.max_tokens.as_str(),
        language,
    ) {
        Ok(value) => value,
        Err(reason) => {
            return Err(reason);
        },
    };
    Ok(
        PromptConfig {
            id: trimmed(form.id.as_str()),
            name: trimmed(form.name.as_str()),
            system_prompt: form.system_prompt.clone(),
            user_template: form.user_template.clone(),
            model: nonempty(form.model.clone()),
            temperature,
            max_output_tokens,
        },
    )
}

/// The configuration with a profile replaced, or added where there is no index.
/// Defaults that meant the replaced profile mean the new one.
pub open spec fn applied(
    config: ConfigModel,
    index: Option<usize>,
    old_id: Option<Seq<char>>,
    prompt: PromptModel,
) -> ConfigModel {
    match index {
        Some(i) => ConfigModel {
            profiles: config.profiles.update(i as int, prompt),
            selection: if old_id == Some(config.selection) {
                prompt.id
            } else {
                config.selection
            },
            hover: if old_id == Some(config.hover) {
                prompt.id
            } else {
                config.hover
            },
            ..config
        },
        None => ConfigModel { profiles: config.profiles.push(prompt), ..config },
    }
}

pub open spec fn optional_view(text: Option<&str>) -> Option<Seq<char>> {
    match text {
        Some(value) => Some(value@),
        None => None,
    }
}

pub fn apply_prompt(
    config: &AppConfig,
    index: Option<usize>,
    old_id: Option<&str>,
    prompt: PromptConfig,
) -> (next: AppConfig)
    requires
        index matches Some(i) ==> i < config.profiles@.len(),
    ensures
        next@ == applied(config@, index, optional_view(old_id), prompt@),
{
    let mut next: AppConfig = config.duplicate();
    let ghost copied = next;
    proof {
        assert(prompt_models(next.profiles@).len() == config@.profiles.len());
    }
    match index {
        Some(i) => {
            let new_id: String = prompt.id.clone();
            next.profiles.set(i, prompt);
            proof {
                assert(prompt_models(next.profiles@) =~= config@.profiles.update(
                    i as int,
                    prompt@,
                ));
            }
            match old_id {
                Some(old) => {
                    if same_text(next.defaults.selection.as_str(), old) {
                        next.defaults.selection = new_id.clone();
                    }
                    if same_text(next.defaults.hover.as_str(), old) {
                        next.defaults.hover = new_id;
                    }
                },
                None => {},
            }
        },
        None => {
            next.profiles.push(prompt);
            proof {
                assert(prompt_models(next.profiles@) =~= config@.profiles.push(prompt@));
            }
        },
    }
    next
}

proof fn lemma_has_profile(profiles: Seq<PromptModel>, id: Seq<char>, at: int)
    requires
        0 <= at < profiles.len(),
        profiles[at].id == id,
    ensures
        has_profile(profiles, id),
{
    lemma_profile_position(profiles, id);
}

/// Replacing a profile, by whatever name, keeps both defaults in the list.
pub proof fn lemma_defaults_follow_a_replaced_profile(
    config: ConfigModel,
    index: usize,
    prompt: PromptModel,
)
    requires
        index < config.profiles.len(),
        has_profile(config.profiles, config.selection),
        has_profile(config.profiles, config.hover),
    ensures
        ({
            let next = applied(
                config,
                Some(index),
                Some(config.profiles[index as int].id),
                prompt,
            );
            has_profile(next.profiles, next.selection) && has_profile(next.profiles, next.hover)
        }),
{
    let next = applied(config, Some(index), Some(config.profiles[index as int].id), prompt);
    lemma_profile_position(config.profiles, config.selection);
    lemma_profile_position(config.profiles, config.hover);
    let selection_at = if config.selection == config.profiles[index as int].id {
        index as int
    } else {
        profile_position(config.profiles, config.selection).unwrap()
    };
    let hover_at = if config.hover == config.profiles[index as int].id {
        index as int
    } else {
        profile_position(config.profiles, config.hover).unwrap()
    };
    lemma_has_profile(next.profiles, next.selection, selection_at);
    lemma_has_profile(next.profiles, next.hover, hover_at);
}

/// Adding a profile keeps every other profile, and the defaults.
pub proof fn lemma_added_profile_is_last(config: ConfigModel, prompt: PromptModel)
    ensures
        ({
            let next = applied(config, None, None, prompt);
            &&& next.profiles.drop_last() == config.profiles
            &&& has_profile(next.profiles, prompt.id)
            &&& next.selection == config.selection
            &&& next.hover == config.hover
        }),
{
    let next = applied(config, None, None, prompt);
    assert(next.profiles.drop_last() =~= config.profiles);
    lemma_has_profile(next.profiles, prompt.id, config.profiles.len() as int);
}

/// The index after the last one is the first.
pub open spec fn next_index(index: int, count: int) -> int {
    (index + 1) % count
}

/// Before the first one there is none.
pub open spec fn previous_index(index: int) -> int {
    if index > 0 {
        index - 1
    } else {
        0
    }
}

/// Going forth and back returns to a profile, unless it was the last.
pub proof fn lemma_previous_undoes_next(index: int, count: int)
    requires
        0 <= index,
        index + 1 < count,
    ensures
        previous_index(next_index(index, count)) == index,
{
    assert((index + 1) % count == index + 1) by (nonlinear_arith)
        requires
            0 <= index,
            index + 1 < count,
    ;
}

/// A new profile, before it is edited. What the form does not set is as in
/// `template`.
pub open spec fn new_profile(count: nat, template: PromptModel) -> PromptModel {
    PromptModel {
        id: "custom-"@ + decimal(count + 1),
        name: "New prompt"@,
        system_prompt: "Interpret the target using the supplied context."@,
        user_template: "Target:\n{target}\nContext:\n{context}\nSource:\n{source}"@,
        ..template
    }
}

impl ManagerModel {
    /// There is a profile to save: a draft, or the shown one.
    pub open spec fn can_save_prompt(self) -> bool {
        self.draft is Some || self.profile_index < self.config.profiles.len()
    }

    /// The configuration that saving `prompt` from the form gives.
    pub open spec fn with_prompt(self, prompt: PromptModel, form: PromptForm) -> ConfigModel {
        let changed = match self.draft {
            Some(_) => applied(self.config, None, None, prompt),
            None => applied(
                self.config,
                Some(self.profile_index),
                Some(self.config.profiles[self.profile_index as int].id),
                prompt,
            ),
        };
        ConfigModel {
            selection: trim(form.selection_default@),
            hover: trim(form.hover_default@),
            ..changed
        }
    }

    /// The state once a profile was saved.
    pub open spec fn prompt_saved(self, config: ConfigModel) -> ManagerModel {
        ManagerModel {
            config,
            draft: None,
            profile_index: match self.draft {
                Some(_) => (config.profiles.len() - 1) as usize,
                None => self.profile_index,
            },
            ..self
        }
    }

    pub open spec fn prompt_status(self, event: StatusEvent) -> UiEffect {
        UiEffect::Text(Control::PromptStatus, status_in(self.config.language, event))
    }
}

impl Manager {
    /// The profile to save, or none, with the reason shown.
    pub fn save_prompt(&self, form: &PromptForm, actions: &mut Vec<UiAction>) -> (prompt: Option<
        PromptConfig,
    >)
        requires
            self@.wf(),
        ensures
            if !self@.can_save_prompt() {
                &&& prompt is None
                &&& effects(final(actions)@) == effects(old(actions)@).push(
                    self@.status(StatusEvent::NoPromptProfile),
                )
            } else if form.profile() is None {
                &&& prompt is None
                &&& effects(final(actions)@) == effects(old(actions)@).push(
                    self@.prompt_status(form.fault()),
                )
            } else {
                &&& prompt matches Some(profile) && form.profile() == Some(profile@)
                &&& final(actions)@ == old(actions)@
            },
    {
        let language: UiLanguage = self.language();
        if self.draft_prompt.is_none() && self.profile_index >= self.config.profiles.len() {
            set_status(actions, Control::Status, language, StatusEvent::NoPromptProfile);
            return None;
        }
        match prompt_from_form(form, language) {
            Ok(prompt) => Some(prompt),
            Err(reason) => {
                set_text(actions, Control::PromptStatus, reason.as_str());
                None
            },
        }
    }

    /// Reports a profile that is not valid.
    pub fn refuse_prompt(&self, detail: &str, actions: &mut Vec<UiAction>)
        ensures
            effects(final(actions)@) == effects(old(actions)@).push(
                self@.prompt_status(StatusEvent::PromptInvalid { detail }),
            ),
    {
        set_status(
            actions,
            Control::PromptStatus,
            self.language(),
            StatusEvent::PromptInvalid { detail },
        );
    }

    /// The configuration with the profile of the form; the saved one stays.
    pub fn stage_prompt(&self, prompt: PromptConfig, form: &PromptForm) -> (next: AppConfig)
        requires
            self@.can_save_prompt(),
        ensures
            next@ == self@.with_prompt(prompt@, *form),
    {
        let mut next: AppConfig = if self.draft_prompt.is_some() {
            apply_prompt(&self.config, None, None, prompt)
        } else {
            proof {
                assert(self@.config.profiles[self.profile_index as int]
                    == self.config.profiles@[self.profile_index as int]@);
            }
            let old_id: String = self.config.profiles[self.profile_index].id.clone();
            apply_prompt(&self.config, Some(self.profile_index), Some(old_id.as_str()), prompt)
        };
        next.defaults.selection = trimmed(form.selection_default.as_str());
        next.defaults.hover = trimmed(form.hover_default.as_str());
        next
    }

    /// Takes over a saved profile, or reports why it was not saved.
    pub fn finish_save_prompt(
        &mut self,
        next: AppConfig,
        report: SaveReport<'_>,
        selections: HistorySelections,
        actions: &mut Vec<UiAction>,
    )
        requires
            old(self)@.wf(),
            old(self)@.can_save_prompt(),
            next@.profiles.len() == old(self)@.config.profiles.len() + (if old(
                self,
            )@.draft is Some {
                1int
            } else {
                0
            }),
        ensures
            match report {
                SaveReport::Invalid { detail } | SaveReport::Failed { detail } => {
                    &&& final(self)@ == old(self)@
                    &&& effects(final(actions)@) == effects(old(actions)@).push(
                        old(self)@.prompt_status(StatusEvent::CannotSavePrompt { detail }),
                    )
                },
                SaveReport::Saved { refresh } => {
                    &&& final(self)@ == old(self)@.prompt_saved(next@)
                    &&& effects(final(actions)@) == effects(old(actions)@) + history_filters(
                        next@,
                        selections,
                    ) + seq![final(self)@.prompt_status(StatusEvent::ConfigRefresh(refresh))]
                        + final(self)@.prompt_form()
                },
            },
            final(self)@.wf(),
    {
        let ghost start = effects(old(actions)@);
        let refresh = match report {
            SaveReport::Invalid { detail } => {
                set_status(
                    actions,
                    Control::PromptStatus,
                    self.language(),
                    StatusEvent::CannotSavePrompt { detail },
                );
                return;
            },
            SaveReport::Failed { detail } => {
                set_status(
                    actions,
                    Control::PromptStatus,
                    self.language(),
                    StatusEvent::CannotSavePrompt { detail },
                );
                return;
            },
            SaveReport::Saved { refresh } => refresh,
        };
        let was_draft: bool = self.draft_prompt.is_some();
        proof {
            assert(prompt_models(next.profiles@).len() == next.profiles@.len());
        }
        self.config = next;
        self.populate_history_filters(selections, actions);
        self.draft_prompt = None;
        if was_draft {
            self.profile_index = self.config.profiles.len() - 1;
        }
        let ghost filtered = effects(actions@);
        set_status(
            actions,
            Control::PromptStatus,
            self.language(),
            StatusEvent::ConfigRefresh(refresh),
        );
        self.refresh_prompt_form(actions);
        proof {
            assert(effects(actions@) =~= filtered + seq![
                self@.prompt_status(StatusEvent::ConfigRefresh(refresh)),
            ] + self@.prompt_form());
        }
    }

    /// Starts a new profile, outside the configuration.
    pub fn new_prompt(&mut self, template: PromptConfig, actions: &mut Vec<UiAction>)
        requires
            old(self)@.wf(),
            old(self)@.config.profiles.len() < usize::MAX,
        ensures
            final(self)@ == (ManagerModel {
                draft: Some(new_profile(old(self)@.config.profiles.len(), template@)),
                ..old(self)@
            }),
            effects(final(actions)@) == effects(old(actions)@) + final(self)@.prompt_form()
                + seq![old(self)@.prompt_status(StatusEvent::NewPromptUnsaved)],
            final(self)@.wf(),
    {
        let ghost start = effects(old(actions)@);
        proof {
            assert(prompt_models(self.config.profiles@).len() == self.config.profiles@.len());
        }
        let count: usize = self.config.profiles.len();
        let mut id: String = copy_of("custom-");
        push_decimal(&mut id, (count + 1) as u64);
        let mut prompt: PromptConfig = template;
        prompt.id = id;
        prompt.name = copy_of("New prompt");
        prompt.system_prompt = copy_of("Interpret the target using the supplied context.");
        prompt.user_template =
        copy_of("Target:\n{target}\nContext:\n{context}\nSource:\n{source}");
        self.draft_prompt = Some(prompt);
        self.refresh_prompt_form(actions);
        let ghost shown = effects(actions@);
        set_status(
            actions,
            Control::PromptStatus,
            self.language(),
            StatusEvent::NewPromptUnsaved,
        );
        proof {
            assert(effects(actions@) =~= shown + seq![
                old(self)@.prompt_status(StatusEvent::NewPromptUnsaved),
            ]);
        }
    }

    /// Shows the profile before the shown one; an unsaved one is given up.
    pub fn previous_prompt(&mut self, actions: &mut Vec<UiAction>)
        requires
            old(self)@.wf(),
        ensures
            if old(self)@.config.profiles.len() == 0 {
                &&& final(self)@ == old(self)@.without_draft()
                &&& effects(final(actions)@) == effects(old(actions)@) + old(self)@.discarding()
            } else {
                &&& final(self)@ == (ManagerModel {
                    profile_index: previous_index(old(self)@.profile_index as int) as usize,
                    ..old(self)@.without_draft()
                })
                &&& effects(final(actions)@) == effects(old(actions)@) + old(self)@.discarding()
                    + final(self)@.prompt_form()
            },
            final(self)@.wf(),
    {
        self.discard_draft(actions);
        proof {
            assert(prompt_models(self.config.profiles@).len() == self.config.profiles@.len());
        }
        if self.config.profiles.len() > 0 {
            if self.profile_index > 0 {
                self.profile_index = self.profile_index - 1;
            }
            self.refresh_prompt_form(actions);
        }
    }

    /// Shows the profile after the shown one; an unsaved one is given up.
    pub fn next_prompt(&mut self, actions: &mut Vec<UiAction>)
        requires
            old(self)@.wf(),
        ensures
            if old(self)@.config.profiles.len() == 0 {
                &&& final(self)@ == old(self)@.without_draft()
                &&& effects(final(actions)@) == effects(old(actions)@) + old(self)@.discarding()
            } else {
                &&& final(self)@ == (ManagerModel {
                    profile_index: next_index(
                        old(self)@.profile_index as int,
                        old(self)@.config.profiles.len() as int,
                    ) as usize,
                    ..old(self)@.without_draft()
                })
                &&& effects(final(actions)@) == effects(old(actions)@) + old(self)@.discarding()
                    + final(self)@.prompt_form()
            },
            final(self)@.wf(),
    {
        self.discard_draft(actions);
        let count: usize = self.config.profiles.len();
        proof {
            assert(prompt_models(self.config.profiles@).len() == count);
        }
        if count > 0 {
            self.profile_index = (self.profile_index + 1) % count;
            self.refresh_prompt_form(actions);
        }
    }
}

// What the operations do.

/// A temperature is a number from zero to two, and blank means none; a count
/// is at least one, and blank means none.
pub proof fn lemma_what_may_be_entered(value: Seq<char>, bits: u32, count: nat)
    ensures
        is_temperature(bits) <==> bits <= 0x4000_0000 || bits == 0x8000_0000,
        is_blank(value) ==> entered_temperature(value, Some(bits)) == Some(None::<u32>)
            && entered_count(value) == Some(None::<u32>),
        !is_blank(value) ==> entered_temperature(value, None) is None,
        !is_blank(value) && bits <= 0x4000_0000 ==> entered_temperature(value, Some(bits)) == Some(
            Some(bits),
        ),
        !is_blank(value) && 0x4000_0000 < bits && bits != 0x8000_0000 ==> entered_temperature(
            value,
            Some(bits),
        ) is None,
        1 <= count <= 0xffff_ffff ==> entered_count(decimal(count)) == Some(Some(count as u32)),
        entered_count(decimal(0)) is None,
        count > 0xffff_ffff ==> entered_count(decimal(count)) is None,
{
    lemma_a_number_is_not_blank(count);
    lemma_a_number_is_not_blank(0);
    lemma_written_numbers_are_read_back(count, Seq::empty(), 0);
    lemma_written_numbers_are_read_back(0, Seq::empty(), 0);
}

proof fn lemma_a_number_is_not_blank(count: nat)
    ensures
        !is_blank(decimal(count)),
        trim(decimal(count)) == decimal(count),
{
    let digits = decimal(count);
    lemma_decimal_stands_for_its_number(count);
    assert(is_digit(digits[0]));
    assert(is_digit(digits[digits.len() - 1]));
    lemma_what_is_white_space(digits[0]);
    lemma_what_is_white_space(digits.last());
    lemma_trimmed_text_stays(digits);
}

/// A prompt that was shown and is saved as it is comes back unchanged.
pub proof fn lemma_an_unchanged_prompt_comes_back(prompt: PromptModel, form: PromptForm)
    requires
        form.id@ == prompt.id && trim(prompt.id) == prompt.id,
        form.name@ == prompt.name && trim(prompt.name) == prompt.name,
        form.system_prompt@ == prompt.system_prompt,
        form.user_template@ == prompt.user_template,
        prompt.model matches Some(model) ==> form.model@ == model && !is_blank(model) && trim(model)
            == model,
        prompt.model is None ==> form.model@.len() == 0,
        prompt.temperature matches Some(bits) ==> !is_blank(form.temperature@)
            && form.temperature_bits == Some(bits) && (bits <= 0x4000_0000 || bits == 0x8000_0000),
        prompt.temperature is None ==> form.temperature@.len() == 0,
        prompt.max_output_tokens matches Some(count) ==> form.max_tokens@ == decimal(count as nat)
            && count > 0,
        prompt.max_output_tokens is None ==> form.max_tokens@.len() == 0,
    ensures
        form.profile() == Some(prompt),
{
    if let Some(count) = prompt.max_output_tokens {
        lemma_what_may_be_entered(Seq::empty(), 0, count as nat);
    }
}

/// A replaced profile stands where the old one stood and every other stays; a
/// default that named the old one names the new one, and a default that named
/// another keeps it.
pub proof fn lemma_only_the_edited_profile_changes(
    config: ConfigModel,
    index: usize,
    prompt: PromptModel,
    i: int,
)
    requires
        index < config.profiles.len(),
    ensures
        ({
            let next = applied(
                config,
                Some(index),
                Some(config.profiles[index as int].id),
                prompt,
            );
            &&& next.profiles.len() == config.profiles.len()
            &&& next.profiles[index as int] == prompt
            &&& 0 <= i < config.profiles.len() && i != index ==> next.profiles[i]
                == config.profiles[i]
            &&& config.selection == config.profiles[index as int].id ==> next.selection == prompt.id
            &&& config.selection != config.profiles[index as int].id ==> next.selection
                == config.selection
            &&& config.hover == config.profiles[index as int].id ==> next.hover == prompt.id
            &&& config.hover != config.profiles[index as int].id ==> next.hover == config.hover
            &&& next.endpoint == config.endpoint && next.model == config.model && next.language
                == config.language
        }),
{
}

/// A saved prompt replaces the one on show, or is added where a draft is; the
/// defaults are those of the form.
pub proof fn lemma_where_a_prompt_is_saved(
    manager: Manager,
    prompt: PromptConfig,
    form: PromptForm,
    next: AppConfig,
)
    requires
        manager@.can_save_prompt(),
        call_ensures(Manager::stage_prompt, (&manager, prompt, &form), next),
    ensures
        manager@.draft is Some ==> next@.profiles == manager@.config.profiles.push(prompt@),
        manager@.draft is None ==> next@.profiles.len() == manager@.config.profiles.len()
            && next@.profiles[manager@.profile_index as int] == prompt@,
        next@.selection == trim(form.selection_default@),
        next@.hover == trim(form.hover_default@),
        next@.endpoint == manager@.config.endpoint,
        next@.language == manager@.config.language,
{
}

/// A prompt that was written is the one on show, with no draft left; one that
/// was not leaves everything as it was.
pub proof fn lemma_a_written_prompt_is_on_show(
    manager: &mut Manager,
    next: AppConfig,
    report: SaveReport,
    selections: HistorySelections,
    actions: &mut Vec<UiAction>,
    outcome: (),
)
    requires
        next@.profiles.len() > 0,
        next@.profiles.len() <= usize::MAX,
        call_ensures(
            Manager::finish_save_prompt,
            (manager, next, report, selections, actions),
            outcome,
        ),
    ensures
        report is Saved ==> final(manager)@.config == next@ && final(manager)@.draft is None,
        report is Saved && old(manager)@.draft is Some ==> final(manager)@.shown_prompt() == Some(
            next@.profiles.last(),
        ),
        report is Saved && old(manager)@.draft is None
            ==> final(manager)@.profile_index == old(manager)@.profile_index,
        !(report is Saved) ==> final(manager)@ == old(manager)@,
{
}

/// A prompt is taken from the form only where there is one to save and the form
/// is in order; what is wrong is said, and the temperature comes first.
pub proof fn lemma_a_faulty_form_is_not_saved(
    manager: Manager,
    form: PromptForm,
    actions: &mut Vec<UiAction>,
    prompt: Option<PromptConfig>,
)
    requires
        call_ensures(Manager::save_prompt, (&manager, &form, actions), prompt),
    ensures
        prompt is Some ==> manager@.can_save_prompt() && final(actions)@ == old(actions)@,
        prompt matches Some(made) ==> made@.id == trim(form.id@) && made@.name == trim(form.name@)
            && made@.system_prompt == form.system_prompt@ && made@.user_template
            == form.user_template@,
        prompt is None ==> effects(final(actions)@).len() == effects(old(actions)@).len() + 1,
        manager@.draft is None && manager@.config.profiles.len() == 0 ==> prompt is None,
        !is_blank(form.temperature@) && form.temperature_bits is None ==> prompt is None
            && form.fault() == StatusEvent::InvalidTemperature,
        is_blank(form.temperature@) && is_blank(form.max_tokens@) && manager@.draft is Some
            ==> prompt is Some,
{
}

/// Going forward visits the profiles in a cycle, going back stops at the first;
/// a draft is given up either way.
pub proof fn lemma_prompts_are_visited_in_order(
    forward: &mut Manager,
    back: &mut Manager,
    actions: &mut Vec<UiAction>,
    others: &mut Vec<UiAction>,
    gone: (),
    come: (),
)
    requires
        old(forward)@.wf(),
        old(back)@.wf(),
        old(forward)@.config.profiles.len() <= usize::MAX,
        call_ensures(Manager::next_prompt, (forward, actions), gone),
        call_ensures(Manager::previous_prompt, (back, others), come),
    ensures
        final(forward)@.draft is None && final(back)@.draft is None,
        old(forward)@.profile_index + 1 < old(forward)@.config.profiles.len()
            ==> final(forward)@.profile_index == old(forward)@.profile_index + 1,
        old(forward)@.profile_index + 1 == old(forward)@.config.profiles.len()
            ==> final(forward)@.profile_index == 0,
        old(back)@.config.profiles.len() > 0 && old(back)@.profile_index > 0
            ==> final(back)@.profile_index == old(back)@.profile_index - 1,
        old(back)@.profile_index == 0 ==> final(back)@.profile_index == 0,
        final(forward)@.config == old(forward)@.config,
        final(back)@.config == old(back)@.config,
{
    let index = old(forward)@.profile_index as int;
    let count = old(forward)@.config.profiles.len() as int;
    if index + 1 < count {
        assert((index + 1) % count == index + 1) by (nonlinear_arith)
            requires
                0 <= index + 1 < count,
        ;
    } else if index + 1 == count {
        assert((index + 1) % count == 0) by (nonlinear_arith)
            requires
                index + 1 == count,
                count > 0,
        ;
    }
}

/// A new prompt is a draft under a number of its own, with a target, a context
/// and a source to fill in, and the rest of the template; the profiles stay.
pub proof fn lemma_a_new_prompt_is_a_draft(
    manager: &mut Manager,
    template: PromptConfig,
    actions: &mut Vec<UiAction>,
    outcome: (),
)
    requires
        call_ensures(Manager::new_prompt, (manager, template, actions), outcome),
    ensures
        final(manager)@.config == old(manager)@.config,
        final(manager)@.profile_index == old(manager)@.profile_index,
        final(manager)@.draft matches Some(draft) && {
            &&& draft.id == "custom-"@ + decimal(old(manager)@.config.profiles.len() + 1)
            &&& draft.user_template == "Target:\n{target}\nContext:\n{context}\nSource:\n{source}"@
            &&& draft.model == template@.model
            &&& draft.temperature == template@.temperature
            &&& draft.max_output_tokens == template@.max_output_tokens
        },
        final(manager)@.shown_prompt() == final(manager)@.draft,
{
}

/// What was typed is read as it stands for, and what stands for nothing is
/// refused in words.
pub proof fn lemma_numbers_are_read_as_typed(
    value: &str,
    bits: Option<u32>,
    language: UiLanguage,
    temperature: Result<Option<u32>, String>,
    count: Result<Option<u32>, String>,
)
    requires
        call_ensures(parse_optional_f32, (value, bits, language), temperature),
        call_ensures(parse_optional_u32, (value, language), count),
    ensures
        is_blank(value@) ==> (temperature matches Ok(none) && none is None) && (
        count matches Ok(nothing) && nothing is None),
        temperature matches Ok(Some(number)) ==> bits == Some(number) && is_temperature(number),
        !is_blank(value@) && bits is None ==> temperature is Err,
        count matches Ok(Some(number)) ==> number > 0 && parsed_u32(trim(value@)) == Some(number),
        !is_blank(value@) ==> (parsed_u32(trim(value@)) matches Some(number) ==> (number > 0
            ==> count is Ok)),
        count is Err ==> !is_blank(value@),
{
}

} // verus!
