//! The configuration that the resident and the manager share.

use crate::text::same_text;
use vstd::prelude::*;

verus! {

/// The language of the manager.
#[derive(Clone, Copy, Debug, PartialEq, Eq, Structural)]
pub enum UiLanguage {
    English,
    SimplifiedChinese,
}

/// A profile: reusable instructions for the provider.
///
/// The temperature is kept by the bits of its single-precision number, which
/// is finite.
#[derive(Debug, PartialEq, Eq)]
pub struct PromptConfig {
    pub id: String,
    pub name: String,
    pub system_prompt: String,
    pub user_template: String,
    pub model: Option<String>,
    pub temperature: Option<u32>,
    pub max_output_tokens: Option<u32>,
}

/// The profiles that the triggers use.
#[derive(Debug, PartialEq, Eq)]
pub struct ProfileDefaults {
    pub selection: String,
    pub hover: String,
}

#[derive(Debug, PartialEq, Eq)]
pub struct ProviderSettings {
    pub endpoint: String,
    pub model: String,
    pub credential_target: String,
}

#[derive(Debug, PartialEq, Eq)]
pub struct HotkeySettings {
    pub cycle_profiles: String,
}

#[derive(Clone, Copy, Debug, PartialEq, Eq, Structural)]
pub struct UiSettings {
    pub manager_language: UiLanguage,
}

#[derive(Debug, PartialEq, Eq)]
pub struct AppConfig {
    pub profiles: Vec<PromptConfig>,
    pub defaults: ProfileDefaults,
    pub provider: ProviderSettings,
    pub hotkeys: HotkeySettings,
    pub ui: UiSettings,
}

/// The texts and numbers of a profile.
pub struct PromptModel {
    pub id: Seq<char>,
    pub name: Seq<char>,
    pub system_prompt: Seq<char>,
    pub user_template: Seq<char>,
    pub model: Option<Seq<char>>,
    pub temperature: Option<u32>,
    pub max_output_tokens: Option<u32>,
}

/// The texts and numbers of a configuration.
pub struct ConfigModel {
    pub profiles: Seq<PromptModel>,
    pub selection: Seq<char>,
    pub hover: Seq<char>,
    pub endpoint: Seq<char>,
    pub model: Seq<char>,
    pub credential_target: Seq<char>,
    pub cycle_profiles: Seq<char>,
    pub language: UiLanguage,
}

/// The bits of a floating-point number that is no number.
pub open spec fn is_nan(bits: u32) -> bool {
    bits % 0x8000_0000 > 0x7f80_0000
}

/// The bits stand for equal numbers: the two zeros are equal, and what is no
/// number is equal to nothing.
pub open spec fn equal_numbers(a: u32, b: u32) -> bool {
    !is_nan(a) && !is_nan(b) && (a == b || a % 0x8000_0000 == 0 && b % 0x8000_0000 == 0)
}

pub open spec fn equal_temperatures(a: Option<u32>, b: Option<u32>) -> bool {
    match (a, b) {
        (Some(x), Some(y)) => equal_numbers(x, y),
        (None, None) => true,
        _ => false,
    }
}

pub open spec fn optional_text(text: Option<String>) -> Option<Seq<char>> {
    match text {
        Some(value) => Some(value@),
        None => None,
    }
}

impl View for PromptConfig {
    type V = PromptModel;

    open spec fn view(&self) -> PromptModel {
        PromptModel {
            id: self.id@,
            name: self.name@,
            system_prompt: self.system_prompt@,
            user_template: self.user_template@,
            model: optional_text(self.model),
            temperature: self.temperature,
            max_output_tokens: self.max_output_tokens,
        }
    }
}

pub open spec fn prompt_models(profiles: Seq<PromptConfig>) -> Seq<PromptModel> {
    profiles.map_values(|profile: PromptConfig| profile@)
}

impl View for AppConfig {
    type V = ConfigModel;

    open spec fn view(&self) -> ConfigModel {
        ConfigModel {
            profiles: prompt_models(self.profiles@),
            selection: self.defaults.selection@,
            hover: self.defaults.hover@,
            endpoint: self.provider.endpoint@,
            model: self.provider.model@,
            credential_target: self.provider.credential_target@,
            cycle_profiles: self.hotkeys.cycle_profiles@,
            language: self.ui.manager_language,
        }
    }
}

fn copy_text(text: &Option<String>) -> (copy: Option<String>)
    ensures
        optional_text(copy) == optional_text(*text),
{
    match text {
        Some(value) => Some(value.clone()),
        None => None,
    }
}

impl PromptConfig {
    pub fn duplicate(&self) -> (copy: PromptConfig)
        ensures
            copy@ == self@,
    {
        PromptConfig {
            id: self.id.clone(),
            name: self.name.clone(),
            system_prompt: self.system_prompt.clone(),
            user_template: self.user_template.clone(),
            model: copy_text(&self.model),
            temperature: self.temperature,
            max_output_tokens: self.max_output_tokens,
        }
    }

    /// Both profiles say the same.
    pub fn same(&self, other: &PromptConfig) -> (same: bool)
        ensures
            same == equal_prompts(self@, other@),
    {
        same_text(self.id.as_str(), other.id.as_str()) && same_text(
            self.name.as_str(),
            other.name.as_str(),
        ) && same_text(self.system_prompt.as_str(), other.system_prompt.as_str()) && same_text(
            self.user_template.as_str(),
            other.user_template.as_str(),
        ) && same_optional(&self.model, &other.model) && same_temperature(
            self.temperature,
            other.temperature,
        ) && same_number(self.max_output_tokens, other.max_output_tokens)
    }
}

fn same_optional(a: &Option<String>, b: &Option<String>) -> (same: bool)
    ensures
        same == (optional_text(*a) == optional_text(*b)),
{
    match (a, b) {
        (Some(x), Some(y)) => same_text(x.as_str(), y.as_str()),
        (None, None) => true,
        _ => false,
    }
}

fn same_temperature(a: Option<u32>, b: Option<u32>) -> (same: bool)
    ensures
        same == equal_temperatures(a, b),
{
    match (a, b) {
        (Some(x), Some(y)) => {
            let left: u32 = x % 0x8000_0000;
            let right: u32 = y % 0x8000_0000;
            left <= 0x7f80_0000 && right <= 0x7f80_0000 && (x == y || left == 0 && right == 0)
        },
        (None, None) => true,
        _ => false,
    }
}

fn same_number(a: Option<u32>, b: Option<u32>) -> (same: bool)
    ensures
        same == (a == b),
{
    match (a, b) {
        (Some(x), Some(y)) => x == y,
        (None, None) => true,
        _ => false,
    }
}

impl AppConfig {
    pub fn duplicate(&self) -> (copy: AppConfig)
        ensures
            copy@ == self@,
    {
        let mut profiles: Vec<PromptConfig> = Vec::new();
        let mut i: usize = 0;
        while i < self.profiles.len()
            invariant
                i <= self.profiles@.len(),
                profiles@.len() == i,
                forall|j: int|
                    0 <= j < i ==> (#[trigger] profiles@[j])@ == self.profiles@[j]@,
            decreases self.profiles@.len() - i,
        {
            profiles.push(self.profiles[i].duplicate());
            i = i + 1;
        }
        let copy = AppConfig {
            profiles,
            defaults: ProfileDefaults {
                selection: self.defaults.selection.clone(),
                hover: self.defaults.hover.clone(),
            },
            provider: ProviderSettings {
                endpoint: self.provider.endpoint.clone(),
                model: self.provider.model.clone(),
                credential_target: self.provider.credential_target.clone(),
            },
            hotkeys: HotkeySettings { cycle_profiles: self.hotkeys.cycle_profiles.clone() },
            ui: self.ui,
        };
        proof {
            assert(prompt_models(copy.profiles@) =~= prompt_models(self.profiles@));
        }
        copy
    }
}

/// The profiles say the same; temperatures are compared as numbers.
pub open spec fn equal_prompts(a: PromptModel, b: PromptModel) -> bool {
    a == (PromptModel { temperature: a.temperature, ..b }) && equal_temperatures(
        a.temperature,
        b.temperature,
    )
}

pub open spec fn equal_profiles(a: Seq<PromptModel>, b: Seq<PromptModel>) -> bool {
    a.len() == b.len() && forall|i: int| 0 <= i < a.len() ==> equal_prompts(#[trigger] a[i], b[i])
}

fn same_profiles(a: &Vec<PromptConfig>, b: &Vec<PromptConfig>) -> (same: bool)
    ensures
        same == equal_profiles(prompt_models(a@), prompt_models(b@)),
{
    let ghost left = prompt_models(a@);
    let ghost right = prompt_models(b@);
    if a.len() != b.len() {
        return false;
    }
    let mut i: usize = 0;
    while i < a.len()
        invariant
            i <= a@.len() == b@.len(),
            left == prompt_models(a@),
            right == prompt_models(b@),
            forall|j: int| 0 <= j < i ==> equal_prompts(#[trigger] left[j], right[j]),
        decreases a@.len() - i,
    {
        proof {
            assert(left[i as int] == a@[i as int]@ && right[i as int] == b@[i as int]@);
        }
        if !a[i].same(&b[i]) {
            return false;
        }
        i = i + 1;
    }
    true
}

/// The configurations are the same to the resident: they differ at most in the
/// language of the manager.
pub open spec fn same_runtime(left: ConfigModel, right: ConfigModel) -> bool {
    equal_profiles(left.profiles, right.profiles) && left == (ConfigModel {
        profiles: left.profiles,
        language: left.language,
        ..right
    })
}

pub fn resident_runtime_config_eq(left: &AppConfig, right: &AppConfig) -> (same: bool)
    ensures
        same == same_runtime(left@, right@),
{
    same_profiles(&left.profiles, &right.profiles) && same_text(
        left.defaults.selection.as_str(),
        right.defaults.selection.as_str(),
    ) && same_text(left.defaults.hover.as_str(), right.defaults.hover.as_str()) && same_text(
        left.provider.endpoint.as_str(),
        right.provider.endpoint.as_str(),
    ) && same_text(left.provider.model.as_str(), right.provider.model.as_str()) && same_text(
        left.provider.credential_target.as_str(),
        right.provider.credential_target.as_str(),
    ) && same_text(
        left.hotkeys.cycle_profiles.as_str(),
        right.hotkeys.cycle_profiles.as_str(),
    )
}

/// Every temperature of the profiles is a number.
pub open spec fn has_numbers(profiles: Seq<PromptModel>) -> bool {
    forall|i: int|
        0 <= i < profiles.len() ==> ((#[trigger] profiles[i]).temperature matches Some(bits)
            ==> !is_nan(bits))
}

/// A change of the manager's language alone is no change to the resident.
pub proof fn lemma_language_is_no_runtime_change(config: ConfigModel, language: UiLanguage)
    requires
        has_numbers(config.profiles),
    ensures
        same_runtime(config, ConfigModel { language, ..config }),
{
}

/// The index of the first profile with the identifier `id`.
pub open spec fn profile_position(profiles: Seq<PromptModel>, id: Seq<char>) -> Option<int>
    decreases profiles.len(),
{
    if profiles.len() == 0 {
        None
    } else if profiles[0].id == id {
        Some(0)
    } else {
        match profile_position(profiles.drop_first(), id) {
            Some(i) => Some(i + 1),
            None => None,
        }
    }
}

pub proof fn lemma_profile_position(profiles: Seq<PromptModel>, id: Seq<char>)
    ensures
        match profile_position(profiles, id) {
            Some(i) => 0 <= i < profiles.len() && profiles[i].id == id && forall|j: int|
                0 <= j < i ==> (#[trigger] profiles[j]).id != id,
            None => forall|j: int| 0 <= j < profiles.len() ==> (#[trigger] profiles[j]).id != id,
        },
    decreases profiles.len(),
{
    if profiles.len() > 0 && profiles[0].id != id {
        let rest = profiles.drop_first();
        lemma_profile_position(rest, id);
        assert forall|j: int| 0 < j < profiles.len() implies profiles[j] == rest[j - 1] by {}
    }
}

pub fn find_profile(profiles: &[PromptConfig], id: &str) -> (index: Option<usize>)
    ensures
        match index {
            Some(i) => i < profiles@.len() && profile_position(prompt_models(profiles@), id@)
                == Some(i as int),
            None => profile_position(prompt_models(profiles@), id@) is None,
        },
{
    let ghost models = prompt_models(profiles@);
    proof {
        lemma_profile_position(models, id@);
    }
    let mut i: usize = 0;
    while i < profiles.len()
        invariant
            i <= profiles@.len(),
            models == prompt_models(profiles@),
            match profile_position(models, id@) {
                Some(p) => 0 <= p < models.len() && models[p].id == id@ && forall|j: int|
                    0 <= j < p ==> (#[trigger] models[j]).id != id@,
                None => forall|j: int| 0 <= j < models.len() ==> (#[trigger] models[j]).id != id@,
            },
            forall|j: int| 0 <= j < i ==> (#[trigger] models[j]).id != id@,
        decreases profiles@.len() - i,
    {
        proof {
            assert(models[i as int].id == profiles@[i as int].id@);
        }
        if same_text(profiles[i].id.as_str(), id) {
            return Some(i);
        }
        i = i + 1;
    }
    None
}

/// A profile with the identifier exists.
pub open spec fn has_profile(profiles: Seq<PromptModel>, id: Seq<char>) -> bool {
    profile_position(profiles, id) is Some
}

/// Two configurations are not the same to the resident as soon as they differ
/// in an endpoint, a model, a credential, a default, a key, or in the number,
/// the order or any field of the profiles.
pub proof fn lemma_any_other_difference_counts(left: ConfigModel, right: ConfigModel, i: int)
    ensures
        left.endpoint != right.endpoint || left.model != right.model || left.credential_target
            != right.credential_target ==> !same_runtime(left, right),
        left.selection != right.selection || left.hover != right.hover || left.cycle_profiles
            != right.cycle_profiles ==> !same_runtime(left, right),
        left.profiles.len() != right.profiles.len() ==> !same_runtime(left, right),
        0 <= i < left.profiles.len() && i < right.profiles.len() && (left.profiles[i].id
            != right.profiles[i].id || left.profiles[i].name != right.profiles[i].name)
            ==> !same_runtime(left, right),
        0 <= i < left.profiles.len() && i < right.profiles.len() && (left.profiles[i].system_prompt
            != right.profiles[i].system_prompt || left.profiles[i].user_template
            != right.profiles[i].user_template || left.profiles[i].model != right.profiles[i].model
            || left.profiles[i].max_output_tokens != right.profiles[i].max_output_tokens)
            ==> !same_runtime(left, right),
        0 <= i < left.profiles.len() && i < right.profiles.len() && (left.profiles[i].temperature
            is Some != right.profiles[i].temperature is Some) ==> !same_runtime(left, right),
{
    if 0 <= i < left.profiles.len() && i < right.profiles.len() && same_runtime(left, right) {
        assert(equal_prompts(left.profiles[i], right.profiles[i]));
    }
}

/// Bits stand for equal numbers exactly when they are the same and are a
/// number, or are the two zeros.
pub proof fn lemma_when_numbers_are_equal(a: u32, b: u32)
    ensures
        equal_numbers(a, a) <==> !is_nan(a),
        equal_numbers(a, b) == equal_numbers(b, a),
        equal_numbers(0, 0x8000_0000),
        a != b && !(a == 0 && b == 0x8000_0000) && !(a == 0x8000_0000 && b == 0) ==> !equal_numbers(
            a,
            b,
        ),
        is_nan(0x7fc0_0000),
        is_nan(0xffc0_0000),
        !is_nan(0x7f80_0000),
        a < 0x7f80_0000 ==> !is_nan(a),
{
}

/// The position of a profile is that of the first with the identifier; there
/// is one exactly where a profile has it.
pub proof fn lemma_profiles_are_found_by_identifier(
    profiles: Seq<PromptModel>,
    id: Seq<char>,
    i: int,
)
    ensures
        0 <= i < profiles.len() && profiles[i].id == id ==> has_profile(profiles, id) && (
        profile_position(profiles, id) matches Some(first) && 0 <= first <= i && profiles[first].id
            == id),
        has_profile(profiles, id) ==> exists|k: int|
            0 <= k < profiles.len() && (#[trigger] profiles[k]).id == id,
{
    lemma_profile_position(profiles, id);
}

} // verus!
