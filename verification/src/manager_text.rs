//! The words of the manager, in both of its languages.

use crate::extraction::ExtractionSource;
use crate::settings::UiLanguage;
use crate::text::{is_blank, same_text};
use vstd::prelude::*;

verus! {

/// A fixed text of the manager.
#[derive(Clone, Copy, Debug, PartialEq, Eq, Structural)]
pub enum TextKey {
    WindowTitle,
    Brand,
    Manager,
    Settings,
    Prompts,
    History,
    Close,
    SettingsSubtitle,
    PromptsSubtitle,
    HistorySubtitle,
    InterfaceLanguage,
    ProviderEndpoint,
    Model,
    CredentialTarget,
    ApiKey,
    SaveKey,
    DeleteSavedKey,
    SelectionDefaultProfile,
    HoverDefaultProfile,
    SaveSettings,
    CredentialPrivacy,
    Profile,
    Previous,
    Next,
    New,
    Id,
    Name,
    SystemPrompt,
    UserTemplate,
    ModelOverride,
    Temperature,
    MaxOutputTokens,
    DefaultsSelectionHover,
    SavePrompt,
    PromptHint,
    SearchTargetOutput,
    Refresh,
    CopyOutput,
    Prompt,
    Source,
    Order,
    Target,
    Context,
    Output,
    DeleteSelected,
    HistoryPrivacy,
    AllPrompts,
    AllSources,
    Selection,
    Hover,
    Clipboard,
    Ocr,
    Newest,
    Oldest,
    English,
    SimplifiedChinese,
}

/// The place of a text in the catalog.
pub open spec fn text_key_index(key: TextKey) -> int {
    match key {
        TextKey::WindowTitle => 0,
        TextKey::Brand => 1,
        TextKey::Manager => 2,
        TextKey::Settings => 3,
        TextKey::Prompts => 4,
        TextKey::History => 5,
        TextKey::Close => 6,
        TextKey::SettingsSubtitle => 7,
        TextKey::PromptsSubtitle => 8,
        TextKey::HistorySubtitle => 9,
        TextKey::InterfaceLanguage => 10,
        TextKey::ProviderEndpoint => 11,
        TextKey::Model => 12,
        TextKey::CredentialTarget => 13,
        TextKey::ApiKey => 14,
        TextKey::SaveKey => 15,
        TextKey::DeleteSavedKey => 16,
        TextKey::SelectionDefaultProfile => 17,
        TextKey::HoverDefaultProfile => 18,
        TextKey::SaveSettings => 19,
        TextKey::CredentialPrivacy => 20,
        TextKey::Profile => 21,
        TextKey::Previous => 22,
        TextKey::Next => 23,
        TextKey::New => 24,
        TextKey::Id => 25,
        TextKey::Name => 26,
        TextKey::SystemPrompt => 27,
        TextKey::UserTemplate => 28,
        TextKey::ModelOverride => 29,
        TextKey::Temperature => 30,
        TextKey::MaxOutputTokens => 31,
        TextKey::DefaultsSelectionHover => 32,
        TextKey::SavePrompt => 33,
        TextKey::PromptHint => 34,
        TextKey::SearchTargetOutput => 35,
        TextKey::Refresh => 36,
        TextKey::CopyOutput => 37,
        TextKey::Prompt => 38,
        TextKey::Source => 39,
        TextKey::Order => 40,
        TextKey::Target => 41,
        TextKey::Context => 42,
        TextKey::Output => 43,
        TextKey::DeleteSelected => 44,
        TextKey::HistoryPrivacy => 45,
        TextKey::AllPrompts => 46,
        TextKey::AllSources => 47,
        TextKey::Selection => 48,
        TextKey::Hover => 49,
        TextKey::Clipboard => 50,
        TextKey::Ocr => 51,
        TextKey::Newest => 52,
        TextKey::Oldest => 53,
        TextKey::English => 54,
        TextKey::SimplifiedChinese => 55,
    }
}

/// Every text of the catalog, once.
pub fn all_text_keys() -> (keys: Vec<TextKey>)
    ensures
        keys@.len() == 56,
        forall|key: TextKey| keys@[#[trigger] text_key_index(key)] == key,
{
    vec![
        TextKey::WindowTitle,
        TextKey::Brand,
        TextKey::Manager,
        TextKey::Settings,
        TextKey::Prompts,
        TextKey::History,
        TextKey::Close,
        TextKey::SettingsSubtitle,
        TextKey::PromptsSubtitle,
        TextKey::HistorySubtitle,
        TextKey::InterfaceLanguage,
        TextKey::ProviderEndpoint,
        TextKey::Model,
        TextKey::CredentialTarget,
        TextKey::ApiKey,
        TextKey::SaveKey,
        TextKey::DeleteSavedKey,
        TextKey::SelectionDefaultProfile,
        TextKey::HoverDefaultProfile,
        TextKey::SaveSettings,
        TextKey::CredentialPrivacy,
        TextKey::Profile,
        TextKey::Previous,
        TextKey::Next,
        TextKey::New,
        TextKey::Id,
        TextKey::Name,
        TextKey::SystemPrompt,
        TextKey::UserTemplate,
        TextKey::ModelOverride,
        TextKey::Temperature,
        TextKey::MaxOutputTokens,
        TextKey::DefaultsSelectionHover,
        TextKey::SavePrompt,
        TextKey::PromptHint,
        TextKey::SearchTargetOutput,
        TextKey::Refresh,
        TextKey::CopyOutput,
        TextKey::Prompt,
        TextKey::Source,
        TextKey::Order,
        TextKey::Target,
        TextKey::Context,
        TextKey::Output,
        TextKey::DeleteSelected,
        TextKey::HistoryPrivacy,
        TextKey::AllPrompts,
        TextKey::AllSources,
        TextKey::Selection,
        TextKey::Hover,
        TextKey::Clipboard,
        TextKey::Ocr,
        TextKey::Newest,
        TextKey::Oldest,
        TextKey::English,
        TextKey::SimplifiedChinese,
    ]
}

pub open spec fn english_text(key: TextKey) -> Seq<char> {
    match key {
        TextKey::WindowTitle => "Selection Translate — Manager"@,
        TextKey::Brand => "SELECTION TRANSLATE"@,
        TextKey::Manager => "Manager"@,
        TextKey::Settings => "Settings"@,
        TextKey::Prompts => "Prompts"@,
        TextKey::History => "History"@,
        TextKey::Close => "Close"@,
        TextKey::SettingsSubtitle => "Provider, credentials and default profiles"@,
        TextKey::PromptsSubtitle => "Create and tune reusable LLM instructions"@,
        TextKey::HistorySubtitle => "Search recent translations without keeping the database open"@,
        TextKey::InterfaceLanguage => "Interface language"@,
        TextKey::ProviderEndpoint => "Provider endpoint"@,
        TextKey::Model => "Model"@,
        TextKey::CredentialTarget => "Credential target"@,
        TextKey::ApiKey => "API key"@,
        TextKey::SaveKey => "Save key"@,
        TextKey::DeleteSavedKey => "Delete saved key"@,
        TextKey::SelectionDefaultProfile => "Selection default profile"@,
        TextKey::HoverDefaultProfile => "Hover default profile"@,
        TextKey::SaveSettings => "Save settings"@,
        TextKey::CredentialPrivacy => "Keys are held by Windows Credential Manager; they never enter config.toml."@,
        TextKey::Profile => "Profile"@,
        TextKey::Previous => "Previous"@,
        TextKey::Next => "Next"@,
        TextKey::New => "New"@,
        TextKey::Id => "ID"@,
        TextKey::Name => "Name"@,
        TextKey::SystemPrompt => "System prompt"@,
        TextKey::UserTemplate => "User template"@,
        TextKey::ModelOverride => "Model override"@,
        TextKey::Temperature => "Temperature"@,
        TextKey::MaxOutputTokens => "Max output tokens"@,
        TextKey::DefaultsSelectionHover => "Defaults: selection / hover"@,
        TextKey::SavePrompt => "Save prompt"@,
        TextKey::PromptHint => "Use {target}, {context}, and {source}; every user template needs {target}."@,
        TextKey::SearchTargetOutput => "Search target/output"@,
        TextKey::Refresh => "Refresh"@,
        TextKey::CopyOutput => "Copy output"@,
        TextKey::Prompt => "Prompt"@,
        TextKey::Source => "Source"@,
        TextKey::Order => "Order"@,
        TextKey::Target => "Target"@,
        TextKey::Context => "Context"@,
        TextKey::Output => "Output"@,
        TextKey::DeleteSelected => "Delete selected"@,
        TextKey::HistoryPrivacy => "History is loaded only while this tab is open; the database is never held open."@,
        TextKey::AllPrompts => "All prompts"@,
        TextKey::AllSources => "All sources"@,
        TextKey::Selection => "Selection"@,
        TextKey::Hover => "Hover"@,
        TextKey::Clipboard => "Clipboard"@,
        TextKey::Ocr => "OCR"@,
        TextKey::Newest => "Newest"@,
        TextKey::Oldest => "Oldest"@,
        TextKey::English => "English"@,
        TextKey::SimplifiedChinese => "Simplified Chinese"@,
    }
}

pub open spec fn chinese_text(key: TextKey) -> Seq<char> {
    match key {
        TextKey::WindowTitle => "划词翻译 — 管理器"@,
        TextKey::Brand => "划词翻译"@,
        TextKey::Manager => "管理器"@,
        TextKey::Settings => "设置"@,
        TextKey::Prompts => "提示词"@,
        TextKey::History => "历史记录"@,
        TextKey::Close => "关闭"@,
        TextKey::SettingsSubtitle => "服务商、凭据和默认配置"@,
        TextKey::PromptsSubtitle => "创建和调整可复用的 LLM 指令"@,
        TextKey::HistorySubtitle => "搜索最近结果；数据库仅按需打开"@,
        TextKey::InterfaceLanguage => "界面语言"@,
        TextKey::ProviderEndpoint => "服务端点"@,
        TextKey::Model => "模型"@,
        TextKey::CredentialTarget => "凭据目标"@,
        TextKey::ApiKey => "API 密钥"@,
        TextKey::SaveKey => "保存密钥"@,
        TextKey::DeleteSavedKey => "删除已存密钥"@,
        TextKey::SelectionDefaultProfile => "划词默认配置"@,
        TextKey::HoverDefaultProfile => "悬停默认配置"@,
        TextKey::SaveSettings => "保存设置"@,
        TextKey::CredentialPrivacy => "密钥保存在 Windows 凭据管理器中，绝不会写入 config.toml。"@,
        TextKey::Profile => "配置"@,
        TextKey::Previous => "上一个"@,
        TextKey::Next => "下一个"@,
        TextKey::New => "新建"@,
        TextKey::Id => "ID"@,
        TextKey::Name => "名称"@,
        TextKey::SystemPrompt => "系统提示词"@,
        TextKey::UserTemplate => "用户模板"@,
        TextKey::ModelOverride => "模型覆盖"@,
        TextKey::Temperature => "温度"@,
        TextKey::MaxOutputTokens => "最大输出令牌数"@,
        TextKey::DefaultsSelectionHover => "默认配置：划词 / 悬停"@,
        TextKey::SavePrompt => "保存提示词"@,
        TextKey::PromptHint => "可使用 {target}、{context} 和 {source}；用户模板必须包含 {target}。"@,
        TextKey::SearchTargetOutput => "搜索目标/输出"@,
        TextKey::Refresh => "刷新"@,
        TextKey::CopyOutput => "复制输出"@,
        TextKey::Prompt => "提示词"@,
        TextKey::Source => "来源"@,
        TextKey::Order => "排序"@,
        TextKey::Target => "目标"@,
        TextKey::Context => "上下文"@,
        TextKey::Output => "输出"@,
        TextKey::DeleteSelected => "删除所选项"@,
        TextKey::HistoryPrivacy => "仅在此页面打开历史数据库，离开后立即关闭。"@,
        TextKey::AllPrompts => "全部提示词"@,
        TextKey::AllSources => "全部来源"@,
        TextKey::Selection => "划词"@,
        TextKey::Hover => "悬停"@,
        TextKey::Clipboard => "剪贴板"@,
        TextKey::Ocr => "OCR"@,
        TextKey::Newest => "最新优先"@,
        TextKey::Oldest => "最早优先"@,
        TextKey::English => "English"@,
        TextKey::SimplifiedChinese => "简体中文"@,
    }
}

/// What the manager shows for `key`.
pub open spec fn text_in(language: UiLanguage, key: TextKey) -> Seq<char> {
    match language {
        UiLanguage::English => english_text(key),
        UiLanguage::SimplifiedChinese => chinese_text(key),
    }
}

pub fn ui_text(language: UiLanguage, key: TextKey) -> (text: &'static str)
    ensures
        text@ == text_in(language, key),
{
    match language {
        UiLanguage::English => english(key),
        UiLanguage::SimplifiedChinese => chinese(key),
    }
}

fn english(key: TextKey) -> (text: &'static str)
    ensures
        text@ == english_text(key),
{
    match key {
        TextKey::WindowTitle => "Selection Translate — Manager",
        TextKey::Brand => "SELECTION TRANSLATE",
        TextKey::Manager => "Manager",
        TextKey::Settings => "Settings",
        TextKey::Prompts => "Prompts",
        TextKey::History => "History",
        TextKey::Close => "Close",
        TextKey::SettingsSubtitle => "Provider, credentials and default profiles",
        TextKey::PromptsSubtitle => "Create and tune reusable LLM instructions",
        TextKey::HistorySubtitle => "Search recent translations without keeping the database open",
        TextKey::InterfaceLanguage => "Interface language",
        TextKey::ProviderEndpoint => "Provider endpoint",
        TextKey::Model => "Model",
        TextKey::CredentialTarget => "Credential target",
        TextKey::ApiKey => "API key",
        TextKey::SaveKey => "Save key",
        TextKey::DeleteSavedKey => "Delete saved key",
        TextKey::SelectionDefaultProfile => "Selection default profile",
        TextKey::HoverDefaultProfile => "Hover default profile",
        TextKey::SaveSettings => "Save settings",
        TextKey::CredentialPrivacy => "Keys are held by Windows Credential Manager; they never enter config.toml.",
        TextKey::Profile => "Profile",
        TextKey::Previous => "Previous",
        TextKey::Next => "Next",
        TextKey::New => "New",
        TextKey::Id => "ID",
        TextKey::Name => "Name",
        TextKey::SystemPrompt => "System prompt",
        TextKey::UserTemplate => "User template",
        TextKey::ModelOverride => "Model override",
        TextKey::Temperature => "Temperature",
        TextKey::MaxOutputTokens => "Max output tokens",
        TextKey::DefaultsSelectionHover => "Defaults: selection / hover",
        TextKey::SavePrompt => "Save prompt",
        TextKey::PromptHint => "Use {target}, {context}, and {source}; every user template needs {target}.",
        TextKey::SearchTargetOutput => "Search target/output",
        TextKey::Refresh => "Refresh",
        TextKey::CopyOutput => "Copy output",
        TextKey::Prompt => "Prompt",
        TextKey::Source => "Source",
        TextKey::Order => "Order",
        TextKey::Target => "Target",
        TextKey::Context => "Context",
        TextKey::Output => "Output",
        TextKey::DeleteSelected => "Delete selected",
        TextKey::HistoryPrivacy => "History is loaded only while this tab is open; the database is never held open.",
        TextKey::AllPrompts => "All prompts",
        TextKey::AllSources => "All sources",
        TextKey::Selection => "Selection",
        TextKey::Hover => "Hover",
        TextKey::Clipboard => "Clipboard",
        TextKey::Ocr => "OCR",
        TextKey::Newest => "Newest",
        TextKey::Oldest => "Oldest",
        TextKey::English => "English",
        TextKey::SimplifiedChinese => "Simplified Chinese",
    }
}

fn chinese(key: TextKey) -> (text: &'static str)
    ensures
        text@ == chinese_text(key),
{
    match key {
        TextKey::WindowTitle => "划词翻译 — 管理器",
        TextKey::Brand => "划词翻译",
        TextKey::Manager => "管理器",
        TextKey::Settings => "设置",
        TextKey::Prompts => "提示词",
        TextKey::History => "历史记录",
        TextKey::Close => "关闭",
        TextKey::SettingsSubtitle => "服务商、凭据和默认配置",
        TextKey::PromptsSubtitle => "创建和调整可复用的 LLM 指令",
        TextKey::HistorySubtitle => "搜索最近结果；数据库仅按需打开",
        TextKey::InterfaceLanguage => "界面语言",
        TextKey::ProviderEndpoint => "服务端点",
        TextKey::Model => "模型",
        TextKey::CredentialTarget => "凭据目标",
        TextKey::ApiKey => "API 密钥",
        TextKey::SaveKey => "保存密钥",
        TextKey::DeleteSavedKey => "删除已存密钥",
        TextKey::SelectionDefaultProfile => "划词默认配置",
        TextKey::HoverDefaultProfile => "悬停默认配置",
        TextKey::SaveSettings => "保存设置",
        TextKey::CredentialPrivacy => "密钥保存在 Windows 凭据管理器中，绝不会写入 config.toml。",
        TextKey::Profile => "配置",
        TextKey::Previous => "上一个",
        TextKey::Next => "下一个",
        TextKey::New => "新建",
        TextKey::Id => "ID",
        TextKey::Name => "名称",
        TextKey::SystemPrompt => "系统提示词",
        TextKey::UserTemplate => "用户模板",
        TextKey::ModelOverride => "模型覆盖",
        TextKey::Temperature => "温度",
        TextKey::MaxOutputTokens => "最大输出令牌数",
        TextKey::DefaultsSelectionHover => "默认配置：划词 / 悬停",
        TextKey::SavePrompt => "保存提示词",
        TextKey::PromptHint => "可使用 {target}、{context} 和 {source}；用户模板必须包含 {target}。",
        TextKey::SearchTargetOutput => "搜索目标/输出",
        TextKey::Refresh => "刷新",
        TextKey::CopyOutput => "复制输出",
        TextKey::Prompt => "提示词",
        TextKey::Source => "来源",
        TextKey::Order => "排序",
        TextKey::Target => "目标",
        TextKey::Context => "上下文",
        TextKey::Output => "输出",
        TextKey::DeleteSelected => "删除所选项",
        TextKey::HistoryPrivacy => "仅在此页面打开历史数据库，离开后立即关闭。",
        TextKey::AllPrompts => "全部提示词",
        TextKey::AllSources => "全部来源",
        TextKey::Selection => "划词",
        TextKey::Hover => "悬停",
        TextKey::Clipboard => "剪贴板",
        TextKey::Ocr => "OCR",
        TextKey::Newest => "最新优先",
        TextKey::Oldest => "最早优先",
        TextKey::English => "English",
        TextKey::SimplifiedChinese => "简体中文",
    }
}

/// The length of a text, its first character and its last but one.
spec fn mark(text: Seq<char>) -> (int, char, char) {
    (text.len() as int, text[0], text[text.len() - 2])
}

/// The mark of each English text; no two are the same.
spec fn english_mark(key: TextKey) -> (int, char, char) {
    match key {
        TextKey::WindowTitle => (29, 'S', 'e'),
        TextKey::Brand => (19, 'S', 'T'),
        TextKey::Manager => (7, 'M', 'e'),
        TextKey::Settings => (8, 'S', 'g'),
        TextKey::Prompts => (7, 'P', 't'),
        TextKey::History => (7, 'H', 'r'),
        TextKey::Close => (5, 'C', 's'),
        TextKey::SettingsSubtitle => (42, 'P', 'e'),
        TextKey::PromptsSubtitle => (41, 'C', 'n'),
        TextKey::HistorySubtitle => (60, 'S', 'e'),
        TextKey::InterfaceLanguage => (18, 'I', 'g'),
        TextKey::ProviderEndpoint => (17, 'P', 'n'),
        TextKey::Model => (5, 'M', 'e'),
        TextKey::CredentialTarget => (17, 'C', 'e'),
        TextKey::ApiKey => (7, 'A', 'e'),
        TextKey::SaveKey => (8, 'S', 'e'),
        TextKey::DeleteSavedKey => (16, 'D', 'e'),
        TextKey::SelectionDefaultProfile => (25, 'S', 'l'),
        TextKey::HoverDefaultProfile => (21, 'H', 'l'),
        TextKey::SaveSettings => (13, 'S', 'g'),
        TextKey::CredentialPrivacy => (74, 'K', 'l'),
        TextKey::Profile => (7, 'P', 'l'),
        TextKey::Previous => (8, 'P', 'u'),
        TextKey::Next => (4, 'N', 'x'),
        TextKey::New => (3, 'N', 'e'),
        TextKey::Id => (2, 'I', 'I'),
        TextKey::Name => (4, 'N', 'm'),
        TextKey::SystemPrompt => (13, 'S', 'p'),
        TextKey::UserTemplate => (13, 'U', 't'),
        TextKey::ModelOverride => (14, 'M', 'd'),
        TextKey::Temperature => (11, 'T', 'r'),
        TextKey::MaxOutputTokens => (17, 'M', 'n'),
        TextKey::DefaultsSelectionHover => (27, 'D', 'e'),
        TextKey::SavePrompt => (11, 'S', 'p'),
        TextKey::PromptHint => (74, 'U', '}'),
        TextKey::SearchTargetOutput => (20, 'S', 'u'),
        TextKey::Refresh => (7, 'R', 's'),
        TextKey::CopyOutput => (11, 'C', 'u'),
        TextKey::Prompt => (6, 'P', 'p'),
        TextKey::Source => (6, 'S', 'c'),
        TextKey::Order => (5, 'O', 'e'),
        TextKey::Target => (6, 'T', 'e'),
        TextKey::Context => (7, 'C', 'x'),
        TextKey::Output => (6, 'O', 'u'),
        TextKey::DeleteSelected => (15, 'D', 'e'),
        TextKey::HistoryPrivacy => (79, 'H', 'n'),
        TextKey::AllPrompts => (11, 'A', 't'),
        TextKey::AllSources => (11, 'A', 'e'),
        TextKey::Selection => (9, 'S', 'o'),
        TextKey::Hover => (5, 'H', 'e'),
        TextKey::Clipboard => (9, 'C', 'r'),
        TextKey::Ocr => (3, 'O', 'C'),
        TextKey::Newest => (6, 'N', 's'),
        TextKey::Oldest => (6, 'O', 's'),
        TextKey::English => (7, 'E', 's'),
        TextKey::SimplifiedChinese => (18, 'S', 's'),
    }
}

proof fn lemma_english_mark(key: TextKey)
    ensures
        mark(english_text(key)) == english_mark(key),
{
    match key {
        TextKey::WindowTitle => {
            reveal_strlit("Selection Translate — Manager");
        },
        TextKey::Brand => {
            reveal_strlit("SELECTION TRANSLATE");
        },
        TextKey::Manager => {
            reveal_strlit("Manager");
        },
        TextKey::Settings => {
            reveal_strlit("Settings");
        },
        TextKey::Prompts => {
            reveal_strlit("Prompts");
        },
        TextKey::History => {
            reveal_strlit("History");
        },
        TextKey::Close => {
            reveal_strlit("Close");
        },
        TextKey::SettingsSubtitle => {
            reveal_strlit("Provider, credentials and default profiles");
        },
        TextKey::PromptsSubtitle => {
            reveal_strlit("Create and tune reusable LLM instructions");
        },
        TextKey::HistorySubtitle => {
            reveal_strlit("Search recent translations without keeping the database open");
        },
        TextKey::InterfaceLanguage => {
            reveal_strlit("Interface language");
        },
        TextKey::ProviderEndpoint => {
            reveal_strlit("Provider endpoint");
        },
        TextKey::Model => {
            reveal_strlit("Model");
        },
        TextKey::CredentialTarget => {
            reveal_strlit("Credential target");
        },
        TextKey::ApiKey => {
            reveal_strlit("API key");
        },
        TextKey::SaveKey => {
            reveal_strlit("Save key");
        },
        TextKey::DeleteSavedKey => {
            reveal_strlit("Delete saved key");
        },
        TextKey::SelectionDefaultProfile => {
            reveal_strlit("Selection default profile");
        },
        TextKey::HoverDefaultProfile => {
            reveal_strlit("Hover default profile");
        },
        TextKey::SaveSettings => {
            reveal_strlit("Save settings");
        },
        TextKey::CredentialPrivacy => {
            reveal_strlit("Keys are held by Windows Credential Manager; they never enter config.toml.");
        },
        TextKey::Profile => {
            reveal_strlit("Profile");
        },
        TextKey::Previous => {
            reveal_strlit("Previous");
        },
        TextKey::Next => {
            reveal_strlit("Next");
        },
        TextKey::New => {
            reveal_strlit("New");
        },
        TextKey::Id => {
            reveal_strlit("ID");
        },
        TextKey::Name => {
            reveal_strlit("Name");
        },
        TextKey::SystemPrompt => {
            reveal_strlit("System prompt");
        },
        TextKey::UserTemplate => {
            reveal_strlit("User template");
        },
        TextKey::ModelOverride => {
            reveal_strlit("Model override");
        },
        TextKey::Temperature => {
            reveal_strlit("Temperature");
        },
        TextKey::MaxOutputTokens => {
            reveal_strlit("Max output tokens");
        },
        TextKey::DefaultsSelectionHover => {
            reveal_strlit("Defaults: selection / hover");
        },
        TextKey::SavePrompt => {
            reveal_strlit("Save prompt");
        },
        TextKey::PromptHint => {
            reveal_strlit("Use {target}, {context}, and {source}; every user template needs {target}.");
        },
        TextKey::SearchTargetOutput => {
            reveal_strlit("Search target/output");
        },
        TextKey::Refresh => {
            reveal_strlit("Refresh");
        },
        TextKey::CopyOutput => {
            reveal_strlit("Copy output");
        },
        TextKey::Prompt => {
            reveal_strlit("Prompt");
        },
        TextKey::Source => {
            reveal_strlit("Source");
        },
        TextKey::Order => {
            reveal_strlit("Order");
        },
        TextKey::Target => {
            reveal_strlit("Target");
        },
        TextKey::Context => {
            reveal_strlit("Context");
        },
        TextKey::Output => {
            reveal_strlit("Output");
        },
        TextKey::DeleteSelected => {
            reveal_strlit("Delete selected");
        },
        TextKey::HistoryPrivacy => {
            reveal_strlit("History is loaded only while this tab is open; the database is never held open.");
        },
        TextKey::AllPrompts => {
            reveal_strlit("All prompts");
        },
        TextKey::AllSources => {
            reveal_strlit("All sources");
        },
        TextKey::Selection => {
            reveal_strlit("Selection");
        },
        TextKey::Hover => {
            reveal_strlit("Hover");
        },
        TextKey::Clipboard => {
            reveal_strlit("Clipboard");
        },
        TextKey::Ocr => {
            reveal_strlit("OCR");
        },
        TextKey::Newest => {
            reveal_strlit("Newest");
        },
        TextKey::Oldest => {
            reveal_strlit("Oldest");
        },
        TextKey::English => {
            reveal_strlit("English");
        },
        TextKey::SimplifiedChinese => {
            reveal_strlit("Simplified Chinese");
        },
    }
}

/// No two English texts are the same, so that a text tells its key.
pub proof fn lemma_english_texts_differ(a: TextKey, b: TextKey)
    requires
        english_text(a) == english_text(b),
    ensures
        a == b,
{
    lemma_english_mark(a);
    lemma_english_mark(b);
}

proof fn lemma_chinese_begins(key: TextKey)
    ensures
        chinese_text(key).len() > 0,
        !crate::text::is_white(chinese_text(key)[0]),
{
    match key {
        TextKey::WindowTitle => {
            reveal_strlit("划词翻译 — 管理器");
        },
        TextKey::Brand => {
            reveal_strlit("划词翻译");
        },
        TextKey::Manager => {
            reveal_strlit("管理器");
        },
        TextKey::Settings => {
            reveal_strlit("设置");
        },
        TextKey::Prompts => {
            reveal_strlit("提示词");
        },
        TextKey::History => {
            reveal_strlit("历史记录");
        },
        TextKey::Close => {
            reveal_strlit("关闭");
        },
        TextKey::SettingsSubtitle => {
            reveal_strlit("服务商、凭据和默认配置");
        },
        TextKey::PromptsSubtitle => {
            reveal_strlit("创建和调整可复用的 LLM 指令");
        },
        TextKey::HistorySubtitle => {
            reveal_strlit("搜索最近结果；数据库仅按需打开");
        },
        TextKey::InterfaceLanguage => {
            reveal_strlit("界面语言");
        },
        TextKey::ProviderEndpoint => {
            reveal_strlit("服务端点");
        },
        TextKey::Model => {
            reveal_strlit("模型");
        },
        TextKey::CredentialTarget => {
            reveal_strlit("凭据目标");
        },
        TextKey::ApiKey => {
            reveal_strlit("API 密钥");
        },
        TextKey::SaveKey => {
            reveal_strlit("保存密钥");
        },
        TextKey::DeleteSavedKey => {
            reveal_strlit("删除已存密钥");
        },
        TextKey::SelectionDefaultProfile => {
            reveal_strlit("划词默认配置");
        },
        TextKey::HoverDefaultProfile => {
            reveal_strlit("悬停默认配置");
        },
        TextKey::SaveSettings => {
            reveal_strlit("保存设置");
        },
        TextKey::CredentialPrivacy => {
            reveal_strlit("密钥保存在 Windows 凭据管理器中，绝不会写入 config.toml。");
        },
        TextKey::Profile => {
            reveal_strlit("配置");
        },
        TextKey::Previous => {
            reveal_strlit("上一个");
        },
        TextKey::Next => {
            reveal_strlit("下一个");
        },
        TextKey::New => {
            reveal_strlit("新建");
        },
        TextKey::Id => {
            reveal_strlit("ID");
        },
        TextKey::Name => {
            reveal_strlit("名称");
        },
        TextKey::SystemPrompt => {
            reveal_strlit("系统提示词");
        },
        TextKey::UserTemplate => {
            reveal_strlit("用户模板");
        },
        TextKey::ModelOverride => {
            reveal_strlit("模型覆盖");
        },
        TextKey::Temperature => {
            reveal_strlit("温度");
        },
        TextKey::MaxOutputTokens => {
            reveal_strlit("最大输出令牌数");
        },
        TextKey::DefaultsSelectionHover => {
            reveal_strlit("默认配置：划词 / 悬停");
        },
        TextKey::SavePrompt => {
            reveal_strlit("保存提示词");
        },
        TextKey::PromptHint => {
            reveal_strlit("可使用 {target}、{context} 和 {source}；用户模板必须包含 {target}。");
        },
        TextKey::SearchTargetOutput => {
            reveal_strlit("搜索目标/输出");
        },
        TextKey::Refresh => {
            reveal_strlit("刷新");
        },
        TextKey::CopyOutput => {
            reveal_strlit("复制输出");
        },
        TextKey::Prompt => {
            reveal_strlit("提示词");
        },
        TextKey::Source => {
            reveal_strlit("来源");
        },
        TextKey::Order => {
            reveal_strlit("排序");
        },
        TextKey::Target => {
            reveal_strlit("目标");
        },
        TextKey::Context => {
            reveal_strlit("上下文");
        },
        TextKey::Output => {
            reveal_strlit("输出");
        },
        TextKey::DeleteSelected => {
            reveal_strlit("删除所选项");
        },
        TextKey::HistoryPrivacy => {
            reveal_strlit("仅在此页面打开历史数据库，离开后立即关闭。");
        },
        TextKey::AllPrompts => {
            reveal_strlit("全部提示词");
        },
        TextKey::AllSources => {
            reveal_strlit("全部来源");
        },
        TextKey::Selection => {
            reveal_strlit("划词");
        },
        TextKey::Hover => {
            reveal_strlit("悬停");
        },
        TextKey::Clipboard => {
            reveal_strlit("剪贴板");
        },
        TextKey::Ocr => {
            reveal_strlit("OCR");
        },
        TextKey::Newest => {
            reveal_strlit("最新优先");
        },
        TextKey::Oldest => {
            reveal_strlit("最早优先");
        },
        TextKey::English => {
            reveal_strlit("English");
        },
        TextKey::SimplifiedChinese => {
            reveal_strlit("简体中文");
        },
    }
}

/// Both catalogs have a visible text for every key.
pub proof fn lemma_every_text_is_visible(language: UiLanguage, key: TextKey)
    ensures
        !is_blank(text_in(language, key)),
{
    match language {
        UiLanguage::English => {
            lemma_english_mark(key);
            assert(!crate::text::is_white(english_text(key)[0]));
        },
        UiLanguage::SimplifiedChinese => {
            lemma_chinese_begins(key);
        },
    }
}

/// The key whose English text is `value`.
pub fn text_key_from_english(value: &str) -> (found: Option<TextKey>)
    ensures
        match found {
            Some(key) => english_text(key) == value@,
            None => forall|key: TextKey| english_text(key) != value@,
        },
{
    let keys: Vec<TextKey> = all_text_keys();
    let mut i: usize = 0;
    while i < keys.len()
        invariant
            i <= keys@.len(),
            forall|key: TextKey| keys@[#[trigger] text_key_index(key)] == key,
            keys@.len() == 56,
            forall|j: int| 0 <= j < i ==> english_text(#[trigger] keys@[j]) != value@,
        decreases keys@.len() - i,
    {
        if same_text(ui_text(UiLanguage::English, keys[i]), value) {
            return Some(keys[i]);
        }
        i = i + 1;
    }
    proof {
        assert forall|key: TextKey| english_text(key) != value@ by {
            assert(keys@[text_key_index(key)] == key);
        }
    }
    None
}

/// The name of a source, as the details of an entry show it.
pub open spec fn source_name(language: UiLanguage, source: ExtractionSource) -> Seq<char> {
    match (language, source) {
        (UiLanguage::English, ExtractionSource::UiaSelection) => "selection"@,
        (UiLanguage::English, ExtractionSource::UiaPoint) => "hover"@,
        (UiLanguage::English, ExtractionSource::Clipboard) => "clipboard"@,
        (_, ExtractionSource::Ocr) => "OCR"@,
        (UiLanguage::SimplifiedChinese, ExtractionSource::UiaSelection) => "划词"@,
        (UiLanguage::SimplifiedChinese, ExtractionSource::UiaPoint) => "悬停"@,
        (UiLanguage::SimplifiedChinese, ExtractionSource::Clipboard) => "剪贴板"@,
    }
}

pub fn source_label(language: UiLanguage, source: ExtractionSource) -> (label: &'static str)
    ensures
        label@ == source_name(language, source),
{
    match (language, source) {
        (UiLanguage::English, ExtractionSource::UiaSelection) => "selection",
        (UiLanguage::English, ExtractionSource::UiaPoint) => "hover",
        (UiLanguage::English, ExtractionSource::Clipboard) => "clipboard",
        (_, ExtractionSource::Ocr) => "OCR",
        (UiLanguage::SimplifiedChinese, ExtractionSource::UiaSelection) => "划词",
        (UiLanguage::SimplifiedChinese, ExtractionSource::UiaPoint) => "悬停",
        (UiLanguage::SimplifiedChinese, ExtractionSource::Clipboard) => "剪贴板",
    }
}

/// Sources have different names, in either language.
pub proof fn lemma_sources_are_told_apart(
    language: UiLanguage,
    a: ExtractionSource,
    b: ExtractionSource,
)
    requires
        a != b,
    ensures
        source_name(language, a) != source_name(language, b),
        source_name(UiLanguage::English, ExtractionSource::UiaSelection) == "selection"@,
        source_name(UiLanguage::English, ExtractionSource::UiaPoint) == "hover"@,
        source_name(UiLanguage::English, ExtractionSource::Clipboard) == "clipboard"@,
        source_name(language, ExtractionSource::Ocr) == "OCR"@,
{
    reveal_strlit("selection");
    reveal_strlit("hover");
    reveal_strlit("clipboard");
    reveal_strlit("OCR");
    reveal_strlit("划词");
    reveal_strlit("悬停");
    reveal_strlit("剪贴板");
    assert("selection"@[0] == 's' && "clipboard"@[0] == 'c');
    assert("划词"@[0] == '划' && "悬停"@[0] == '悬');
    assert("OCR"@[0] == 'O' && "剪贴板"@[0] == '剪');
}

/// A text is shown in the chosen language, and an English text leads back to
/// its own key.
pub proof fn lemma_a_text_leads_back_to_its_key(
    key: TextKey,
    value: &str,
    found: Option<TextKey>,
)
    requires
        value@ == text_in(UiLanguage::English, key),
        call_ensures(text_key_from_english, (value,), found),
    ensures
        found == Some(key),
        text_in(UiLanguage::English, key) == english_text(key),
        text_in(UiLanguage::SimplifiedChinese, key) == chinese_text(key),
{
    if let Some(other) = found {
        if other != key {
            lemma_english_texts_differ(other, key);
        }
    }
}

} // verus!
