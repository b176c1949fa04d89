//! What the manager reports: every status, validation error and confirmation
//! is an event of this catalog before it is shown. Details that come from
//! elsewhere are opaque: they are shown as they are, in either language.

use crate::resident::{RefreshOutcome, ResidentStartOutcome};
use crate::settings::UiLanguage;
use crate::text::{copy_of, decimal, holds_text, is_blank, is_white, occurs_at, push_decimal};
use vstd::prelude::*;

verus! {

/// What needs the folder of the application's data.
#[derive(Clone, Copy, Debug, PartialEq, Eq, Structural)]
pub enum StatusOperation {
    Save,
    History,
}

/// Something that the manager reports.
#[derive(Clone, Copy, Debug, PartialEq, Eq)]
pub enum StatusEvent<'a> {
    ManagerInitializationFailed { detail: &'a str },
    ConfigLoadFailed { detail: &'a str },
    LocalAppDataUnavailable { operation: StatusOperation },
    SaveInterfaceLanguageFailed { detail: &'a str },
    InterfaceLanguageSaved,
    HistoryRefreshed,
    HistoryUnavailable { detail: &'a str },
    SelectHistoryEntry,
    HistoryEntryUnavailable,
    OutputCopied,
    CopyOutputFailed { detail: &'a str },
    DeleteHistoryConfirm { target: &'a str },
    DeletionCancelled,
    HistoryEntryDeleted,
    HistoryEntryAlreadyDeleted,
    DeleteHistoryFailed { detail: &'a str },
    OutputTooLarge,
    ClipboardMemoryLockFailed,
    ResidentStart(ResidentStartOutcome),
    ConfigRefresh(RefreshOutcome),
    CredentialRefresh { outcome: RefreshOutcome, deleted: bool },
    CannotSaveSettings { detail: &'a str },
    EnterApiKey,
    ApiKeySavedToCredentialManager,
    ApiKeyInactiveTargetSaved,
    SaveApiKeyFailed { detail: &'a str },
    NoSavedApiKey,
    ApiKeyInactiveTargetDeleted,
    DeleteApiKeyFailed { detail: &'a str },
    NoPromptProfile,
    CannotSavePrompt { detail: &'a str },
    NewPromptUnsaved,
    NewDraft,
    UnsavedPromptDiscarded,
    PromptInvalid { detail: &'a str },
    InvalidTemperature,
    InvalidMaxOutputTokens,
    ConfigPathUnavailable,
    CredentialStatusPresent,
    CredentialStatusAbsent,
    CredentialStatusUnavailable { detail: &'a str },
    HistoryCount { count: usize },
    ProfilePosition { current: usize, total: usize },
}

/// The text of the language.
pub open spec fn in_language(
    language: UiLanguage,
    english: Seq<char>,
    chinese: Seq<char>,
) -> Seq<char> {
    match language {
        UiLanguage::English => english,
        UiLanguage::SimplifiedChinese => chinese,
    }
}

pub fn said(language: UiLanguage, english: &'static str, chinese: &'static str) -> (text:
    &'static str)
    ensures
        text@ == in_language(language, english@, chinese@),
{
    match language {
        UiLanguage::English => english,
        UiLanguage::SimplifiedChinese => chinese,
    }
}

/// The fixed words of an event; a count and a position have none.
pub open spec fn status_words(language: UiLanguage, event: StatusEvent) -> Seq<char> {
    match event {
        StatusEvent::ManagerInitializationFailed { .. } => in_language(
            language,
            "Manager initialization failed: "@,
            "管理器初始化失败："@,
        ),
        StatusEvent::ConfigLoadFailed { .. } => in_language(
            language,
            "Could not load config: "@,
            "无法加载配置："@,
        ),
        StatusEvent::LocalAppDataUnavailable { operation: StatusOperation::Save } => in_language(
            language,
            "LOCALAPPDATA is not available; changes cannot be saved"@,
            "LOCALAPPDATA 不可用；无法保存更改"@,
        ),
        StatusEvent::LocalAppDataUnavailable { operation: StatusOperation::History } => in_language(
            language,
            "LOCALAPPDATA is not available; history cannot be opened"@,
            "LOCALAPPDATA 不可用；无法打开历史记录"@,
        ),
        StatusEvent::SaveInterfaceLanguageFailed { .. } => in_language(
            language,
            "Could not save interface language: "@,
            "无法保存界面语言："@,
        ),
        StatusEvent::InterfaceLanguageSaved => in_language(
            language,
            "Interface language saved."@,
            "界面语言已保存。"@,
        ),
        StatusEvent::HistoryRefreshed => in_language(
            language,
            "History refreshed."@,
            "历史记录已刷新。"@,
        ),
        StatusEvent::HistoryUnavailable { .. } => in_language(
            language,
            "History unavailable: "@,
            "历史记录不可用："@,
        ),
        StatusEvent::SelectHistoryEntry => in_language(
            language,
            "Select a history entry first."@,
            "请先选择一条历史记录。"@,
        ),
        StatusEvent::HistoryEntryUnavailable => in_language(
            language,
            "The selected history entry is no longer available."@,
            "所选历史记录已不可用。"@,
        ),
        StatusEvent::OutputCopied => in_language(
            language,
            "Output copied to the clipboard."@,
            "输出已复制到剪贴板。"@,
        ),
        StatusEvent::CopyOutputFailed { .. } => in_language(
            language,
            "Could not copy output: "@,
            "无法复制输出："@,
        ),
        StatusEvent::DeleteHistoryConfirm { .. } => in_language(
            language,
            "Delete this history entry?\n\n"@,
            "删除这条历史记录？\n\n"@,
        ),
        StatusEvent::DeletionCancelled => in_language(
            language,
            "Deletion cancelled."@,
            "已取消删除。"@,
        ),
        StatusEvent::HistoryEntryDeleted => in_language(
            language,
            "History entry deleted."@,
            "历史记录已删除。"@,
        ),
        StatusEvent::HistoryEntryAlreadyDeleted => in_language(
            language,
            "The history entry was already deleted."@,
            "该历史记录已被删除。"@,
        ),
        StatusEvent::DeleteHistoryFailed { .. } => in_language(
            language,
            "Could not delete history entry: "@,
            "无法删除历史记录："@,
        ),
        StatusEvent::OutputTooLarge => in_language(
            language,
            "output is too large"@,
            "输出内容过大"@,
        ),
        StatusEvent::ClipboardMemoryLockFailed => in_language(
            language,
            "could not lock clipboard memory"@,
            "无法锁定剪贴板内存"@,
        ),
        StatusEvent::ResidentStart(ResidentStartOutcome::AlreadyRunning) => in_language(
            language,
            "Resident is running."@,
            "驻留程序正在运行。"@,
        ),
        StatusEvent::ResidentStart(ResidentStartOutcome::Started) => in_language(
            language,
            "Resident started and is ready."@,
            "驻留程序已启动并准备就绪。"@,
        ),
        StatusEvent::ResidentStart(ResidentStartOutcome::Unavailable) => in_language(
            language,
            "Resident could not be reached; settings can be saved, but translation is unavailable."@,
            "无法连接驻留程序；可以保存设置，但翻译功能当前不可用。"@,
        ),
        StatusEvent::ConfigRefresh(RefreshOutcome::Acknowledged) => in_language(
            language,
            "Saved; the running resident confirmed the refresh."@,
            "已保存；正在运行的驻留程序已确认刷新。"@,
        ),
        StatusEvent::ConfigRefresh(RefreshOutcome::ResidentAbsent) => in_language(
            language,
            "Saved, but no running resident was found; translation is unavailable."@,
            "已保存，但未找到正在运行的驻留程序；翻译功能不可用。"@,
        ),
        StatusEvent::ConfigRefresh(RefreshOutcome::Unacknowledged) => in_language(
            language,
            "Saved, but the resident did not confirm the refresh; restart the app before translating."@,
            "已保存，但驻留程序未确认刷新；请在翻译前重启应用。"@,
        ),
        StatusEvent::ConfigRefresh(RefreshOutcome::Rejected) => in_language(
            language,
            "Saved, but the resident rejected the refresh; restart the app before translating."@,
            "已保存，但驻留程序拒绝刷新；请在翻译前重启应用。"@,
        ),
        StatusEvent::CredentialRefresh { outcome: RefreshOutcome::Acknowledged, deleted: false } => in_language(
            language,
            "API key saved; the running resident confirmed the credential refresh."@,
            "API 密钥已保存；正在运行的驻留程序已确认凭据刷新。"@,
        ),
        StatusEvent::CredentialRefresh { outcome: RefreshOutcome::Acknowledged, deleted: true } => in_language(
            language,
            "API key deleted; the running resident confirmed the credential refresh."@,
            "API 密钥已删除；正在运行的驻留程序已确认凭据刷新。"@,
        ),
        StatusEvent::CredentialRefresh { outcome: RefreshOutcome::ResidentAbsent, deleted: false } => in_language(
            language,
            "API key saved, but no running resident was found; translation is unavailable."@,
            "API 密钥已保存，但未找到正在运行的驻留程序；翻译功能不可用。"@,
        ),
        StatusEvent::CredentialRefresh { outcome: RefreshOutcome::ResidentAbsent, deleted: true } => in_language(
            language,
            "API key deleted, but no running resident was found; translation is unavailable."@,
            "API 密钥已删除，但未找到正在运行的驻留程序；翻译功能不可用。"@,
        ),
        StatusEvent::CredentialRefresh { outcome: RefreshOutcome::Unacknowledged, deleted: false } => in_language(
            language,
            "API key saved, but the resident did not confirm the credential refresh; restart the app."@,
            "API 密钥已保存，但驻留程序未确认凭据刷新；请重启应用。"@,
        ),
        StatusEvent::CredentialRefresh { outcome: RefreshOutcome::Rejected, deleted: false } => in_language(
            language,
            "API key saved, but the resident did not confirm the credential refresh; restart the app."@,
            "API 密钥已保存，但驻留程序未确认凭据刷新；请重启应用。"@,
        ),
        StatusEvent::CredentialRefresh { outcome: RefreshOutcome::Unacknowledged, deleted: true } => in_language(
            language,
            "API key deleted, but the resident did not confirm the credential refresh; restart the app."@,
            "API 密钥已删除，但驻留程序未确认凭据刷新；请重启应用。"@,
        ),
        StatusEvent::CredentialRefresh { outcome: RefreshOutcome::Rejected, deleted: true } => in_language(
            language,
            "API key deleted, but the resident did not confirm the credential refresh; restart the app."@,
            "API 密钥已删除，但驻留程序未确认凭据刷新；请重启应用。"@,
        ),
        StatusEvent::CannotSaveSettings { .. } => in_language(
            language,
            "Cannot save settings: "@,
            "无法保存设置："@,
        ),
        StatusEvent::EnterApiKey => in_language(
            language,
            "Enter a key before saving it."@,
            "请输入密钥后再保存。"@,
        ),
        StatusEvent::ApiKeySavedToCredentialManager => in_language(
            language,
            "Saved in Windows Credential Manager."@,
            "已保存到 Windows 凭据管理器。"@,
        ),
        StatusEvent::ApiKeyInactiveTargetSaved => in_language(
            language,
            "API key saved, but this credential target is not active; save settings to refresh the resident."@,
            "API 密钥已保存，但此凭据目标未启用；请保存设置以刷新驻留程序。"@,
        ),
        StatusEvent::SaveApiKeyFailed { .. } => in_language(
            language,
            "Could not save API key: "@,
            "无法保存 API 密钥："@,
        ),
        StatusEvent::NoSavedApiKey => in_language(
            language,
            "No saved key for this target."@,
            "此目标没有已保存的密钥。"@,
        ),
        StatusEvent::ApiKeyInactiveTargetDeleted => in_language(
            language,
            "API key deleted, but this credential target is not active; the resident was not refreshed."@,
            "API 密钥已删除，但此凭据目标未启用；未刷新驻留程序。"@,
        ),
        StatusEvent::DeleteApiKeyFailed { .. } => in_language(
            language,
            "Could not delete API key: "@,
            "无法删除 API 密钥："@,
        ),
        StatusEvent::NoPromptProfile => in_language(
            language,
            "There is no prompt profile to save."@,
            "没有可保存的提示词配置。"@,
        ),
        StatusEvent::CannotSavePrompt { .. } => in_language(
            language,
            "Cannot save prompt: "@,
            "无法保存提示词："@,
        ),
        StatusEvent::NewPromptUnsaved => in_language(
            language,
            "New prompt is unsaved. Edit it, then choose Save prompt."@,
            "新提示词尚未保存。编辑后请选择“保存提示词”。"@,
        ),
        StatusEvent::NewDraft => in_language(
            language,
            "New draft"@,
            "新草稿"@,
        ),
        StatusEvent::UnsavedPromptDiscarded => in_language(
            language,
            "Unsaved new prompt discarded; the saved configuration was unchanged."@,
            "已丢弃未保存的新提示词；已保存的配置未更改。"@,
        ),
        StatusEvent::PromptInvalid { .. } => in_language(
            language,
            "Prompt is invalid: "@,
            "提示词无效："@,
        ),
        StatusEvent::InvalidTemperature => in_language(
            language,
            "Temperature must be a number from 0 to 2."@,
            "温度必须是 0 到 2 之间的数字。"@,
        ),
        StatusEvent::InvalidMaxOutputTokens => in_language(
            language,
            "Max output tokens must be a positive integer."@,
            "最大输出令牌数必须是正整数。"@,
        ),
        StatusEvent::ConfigPathUnavailable => in_language(
            language,
            "LOCALAPPDATA is not available"@,
            "LOCALAPPDATA 不可用"@,
        ),
        StatusEvent::CredentialStatusPresent => in_language(
            language,
            "A saved key is present (value hidden)."@,
            "存在已保存的密钥（值已隐藏）。"@,
        ),
        StatusEvent::CredentialStatusAbsent => in_language(
            language,
            "No saved key for this target."@,
            "此目标没有已保存的密钥。"@,
        ),
        StatusEvent::CredentialStatusUnavailable { .. } => in_language(
            language,
            "Credential status unavailable: "@,
            "凭据状态不可用："@,
        ),
        StatusEvent::HistoryCount { .. } => seq![],
        StatusEvent::ProfilePosition { .. } => seq![],
    }
}

fn words(language: UiLanguage, event: StatusEvent<'_>) -> (text: &'static str)
    ensures
        text@ == status_words(language, event),
{
    match event {
        StatusEvent::ManagerInitializationFailed { .. } => said(
            language,
            "Manager initialization failed: ",
            "管理器初始化失败：",
        ),
        StatusEvent::ConfigLoadFailed { .. } => said(
            language,
            "Could not load config: ",
            "无法加载配置：",
        ),
        StatusEvent::LocalAppDataUnavailable { operation: StatusOperation::Save } => said(
            language,
            "LOCALAPPDATA is not available; changes cannot be saved",
            "LOCALAPPDATA 不可用；无法保存更改",
        ),
        StatusEvent::LocalAppDataUnavailable { operation: StatusOperation::History } => said(
            language,
            "LOCALAPPDATA is not available; history cannot be opened",
            "LOCALAPPDATA 不可用；无法打开历史记录",
        ),
        StatusEvent::SaveInterfaceLanguageFailed { .. } => said(
            language,
            "Could not save interface language: ",
            "无法保存界面语言：",
        ),
        StatusEvent::InterfaceLanguageSaved => said(
            language,
            "Interface language saved.",
            "界面语言已保存。",
        ),
        StatusEvent::HistoryRefreshed => said(
            language,
            "History refreshed.",
            "历史记录已刷新。",
        ),
        StatusEvent::HistoryUnavailable { .. } => said(
            language,
            "History unavailable: ",
            "历史记录不可用：",
        ),
        StatusEvent::SelectHistoryEntry => said(
            language,
            "Select a history entry first.",
            "请先选择一条历史记录。",
        ),
        StatusEvent::HistoryEntryUnavailable => said(
            language,
            "The selected history entry is no longer available.",
            "所选历史记录已不可用。",
        ),
        StatusEvent::OutputCopied => said(
            language,
            "Output copied to the clipboard.",
            "输出已复制到剪贴板。",
        ),
        StatusEvent::CopyOutputFailed { .. } => said(
            language,
            "Could not copy output: ",
            "无法复制输出：",
        ),
        StatusEvent::DeleteHistoryConfirm { .. } => said(
            language,
            "Delete this history entry?\n\n",
            "删除这条历史记录？\n\n",
        ),
        StatusEvent::DeletionCancelled => said(
            language,
            "Deletion cancelled.",
            "已取消删除。",
        ),
        StatusEvent::HistoryEntryDeleted => said(
            language,
            "History entry deleted.",
            "历史记录已删除。",
        ),
        StatusEvent::HistoryEntryAlreadyDeleted => said(
            language,
            "The history entry was already deleted.",
            "该历史记录已被删除。",
        ),
        StatusEvent::DeleteHistoryFailed { .. } => said(
            language,
            "Could not delete history entry: ",
            "无法删除历史记录：",
        ),
        StatusEvent::OutputTooLarge => said(
            language,
            "output is too large",
            "输出内容过大",
        ),
        StatusEvent::ClipboardMemoryLockFailed => said(
            language,
            "could not lock clipboard memory",
            "无法锁定剪贴板内存",
        ),
        StatusEvent::ResidentStart(ResidentStartOutcome::AlreadyRunning) => said(
            language,
            "Resident is running.",
            "驻留程序正在运行。",
        ),
        StatusEvent::ResidentStart(ResidentStartOutcome::Started) => said(
            language,
            "Resident started and is ready.",
            "驻留程序已启动并准备就绪。",
        ),
        StatusEvent::ResidentStart(ResidentStartOutcome::Unavailable) => said(
            language,
            "Resident could not be reached; settings can be saved, but translation is unavailable.",
            "无法连接驻留程序；可以保存设置，但翻译功能当前不可用。",
        ),
        StatusEvent::ConfigRefresh(RefreshOutcome::Acknowledged) => said(
            language,
            "Saved; the running resident confirmed the refresh.",
            "已保存；正在运行的驻留程序已确认刷新。",
        ),
        StatusEvent::ConfigRefresh(RefreshOutcome::ResidentAbsent) => said(
            language,
            "Saved, but no running resident was found; translation is unavailable.",
            "已保存，但未找到正在运行的驻留程序；翻译功能不可用。",
        ),
        StatusEvent::ConfigRefresh(RefreshOutcome::Unacknowledged) => said(
            language,
            "Saved, but the resident did not confirm the refresh; restart the app before translating.",
            "已保存，但驻留程序未确认刷新；请在翻译前重启应用。",
        ),
        StatusEvent::ConfigRefresh(RefreshOutcome::Rejected) => said(
            language,
            "Saved, but the resident rejected the refresh; restart the app before translating.",
            "已保存，但驻留程序拒绝刷新；请在翻译前重启应用。",
        ),
        StatusEvent::CredentialRefresh { outcome: RefreshOutcome::Acknowledged, deleted: false } => said(
            language,
            "API key saved; the running resident confirmed the credential refresh.",
            "API 密钥已保存；正在运行的驻留程序已确认凭据刷新。",
        ),
        StatusEvent::CredentialRefresh { outcome: RefreshOutcome::Acknowledged, deleted: true } => said(
            language,
            "API key deleted; the running resident confirmed the credential refresh.",
            "API 密钥已删除；正在运行的驻留程序已确认凭据刷新。",
        ),
        StatusEvent::CredentialRefresh { outcome: RefreshOutcome::ResidentAbsent, deleted: false } => said(
            language,
            "API key saved, but no running resident was found; translation is unavailable.",
            "API 密钥已保存，但未找到正在运行的驻留程序；翻译功能不可用。",
        ),
        StatusEvent::CredentialRefresh { outcome: RefreshOutcome::ResidentAbsent, deleted: true } => said(
            language,
            "API key deleted, but no running resident was found; translation is unavailable.",
            "API 密钥已删除，但未找到正在运行的驻留程序；翻译功能不可用。",
        ),
        StatusEvent::CredentialRefresh { outcome: RefreshOutcome::Unacknowledged, deleted: false } => said(
            language,
            "API key saved, but the resident did not confirm the credential refresh; restart the app.",
            "API 密钥已保存，但驻留程序未确认凭据刷新；请重启应用。",
        ),
        StatusEvent::CredentialRefresh { outcome: RefreshOutcome::Rejected, deleted: false } => said(
            language,
            "API key saved, but the resident did not confirm the credential refresh; restart the app.",
            "API 密钥已保存，但驻留程序未确认凭据刷新；请重启应用。",
        ),
        StatusEvent::CredentialRefresh { outcome: RefreshOutcome::Unacknowledged, deleted: true } => said(
            language,
            "API key deleted, but the resident did not confirm the credential refresh; restart the app.",
            "API 密钥已删除，但驻留程序未确认凭据刷新；请重启应用。",
        ),
        StatusEvent::CredentialRefresh { outcome: RefreshOutcome::Rejected, deleted: true } => said(
            language,
            "API key deleted, but the resident did not confirm the credential refresh; restart the app.",
            "API 密钥已删除，但驻留程序未确认凭据刷新；请重启应用。",
        ),
        StatusEvent::CannotSaveSettings { .. } => said(
            language,
            "Cannot save settings: ",
            "无法保存设置：",
        ),
        StatusEvent::EnterApiKey => said(
            language,
            "Enter a key before saving it.",
            "请输入密钥后再保存。",
        ),
        StatusEvent::ApiKeySavedToCredentialManager => said(
            language,
            "Saved in Windows Credential Manager.",
            "已保存到 Windows 凭据管理器。",
        ),
        StatusEvent::ApiKeyInactiveTargetSaved => said(
            language,
            "API key saved, but this credential target is not active; save settings to refresh the resident.",
            "API 密钥已保存，但此凭据目标未启用；请保存设置以刷新驻留程序。",
        ),
        StatusEvent::SaveApiKeyFailed { .. } => said(
            language,
            "Could not save API key: ",
            "无法保存 API 密钥：",
        ),
        StatusEvent::NoSavedApiKey => said(
            language,
            "No saved key for this target.",
            "此目标没有已保存的密钥。",
        ),
        StatusEvent::ApiKeyInactiveTargetDeleted => said(
            language,
            "API key deleted, but this credential target is not active; the resident was not refreshed.",
            "API 密钥已删除，但此凭据目标未启用；未刷新驻留程序。",
        ),
        StatusEvent::DeleteApiKeyFailed { .. } => said(
            language,
            "Could not delete API key: ",
            "无法删除 API 密钥：",
        ),
        StatusEvent::NoPromptProfile => said(
            language,
            "There is no prompt profile to save.",
            "没有可保存的提示词配置。",
        ),
        StatusEvent::CannotSavePrompt { .. } => said(
            language,
            "Cannot save prompt: ",
            "无法保存提示词：",
        ),
        StatusEvent::NewPromptUnsaved => said(
            language,
            "New prompt is unsaved. Edit it, then choose Save prompt.",
            "新提示词尚未保存。编辑后请选择“保存提示词”。",
        ),
        StatusEvent::NewDraft => said(
            language,
            "New draft",
            "新草稿",
        ),
        StatusEvent::UnsavedPromptDiscarded => said(
            language,
            "Unsaved new prompt discarded; the saved configuration was unchanged.",
            "已丢弃未保存的新提示词；已保存的配置未更改。",
        ),
        StatusEvent::PromptInvalid { .. } => said(
            language,
            "Prompt is invalid: ",
            "提示词无效：",
        ),
        StatusEvent::InvalidTemperature => said(
            language,
            "Temperature must be a number from 0 to 2.",
            "温度必须是 0 到 2 之间的数字。",
        ),
        StatusEvent::InvalidMaxOutputTokens => said(
            language,
            "Max output tokens must be a positive integer.",
            "最大输出令牌数必须是正整数。",
        ),
        StatusEvent::ConfigPathUnavailable => said(
            language,
            "LOCALAPPDATA is not available",
            "LOCALAPPDATA 不可用",
        ),
        StatusEvent::CredentialStatusPresent => said(
            language,
            "A saved key is present (value hidden).",
            "存在已保存的密钥（值已隐藏）。",
        ),
        StatusEvent::CredentialStatusAbsent => said(
            language,
            "No saved key for this target.",
            "此目标没有已保存的密钥。",
        ),
        StatusEvent::CredentialStatusUnavailable { .. } => said(
            language,
            "Credential status unavailable: ",
            "凭据状态不可用：",
        ),
        StatusEvent::HistoryCount { .. } => no_words(),
        StatusEvent::ProfilePosition { .. } => no_words(),
    }
}

fn no_words() -> (text: &'static str)
    ensures
        text@ == Seq::<char>::empty(),
{
    let text: &'static str = "";
    proof {
        reveal_strlit("");
        assert(text@ =~= Seq::<char>::empty());
    }
    text
}

/// The part of an event that comes from elsewhere.
pub open spec fn opaque_part(event: StatusEvent) -> Seq<char> {
    match event {
        StatusEvent::ManagerInitializationFailed { detail } => detail@,
        StatusEvent::ConfigLoadFailed { detail } => detail@,
        StatusEvent::SaveInterfaceLanguageFailed { detail } => detail@,
        StatusEvent::HistoryUnavailable { detail } => detail@,
        StatusEvent::CopyOutputFailed { detail } => detail@,
        StatusEvent::DeleteHistoryConfirm { target } => target@,
        StatusEvent::DeleteHistoryFailed { detail } => detail@,
        StatusEvent::CannotSaveSettings { detail } => detail@,
        StatusEvent::SaveApiKeyFailed { detail } => detail@,
        StatusEvent::DeleteApiKeyFailed { detail } => detail@,
        StatusEvent::CannotSavePrompt { detail } => detail@,
        StatusEvent::PromptInvalid { detail } => detail@,
        StatusEvent::CredentialStatusUnavailable { detail } => detail@,
        _ => seq![],
    }
}

fn opaque_text<'a>(event: StatusEvent<'a>) -> (text: &'a str)
    ensures
        text@ == opaque_part(event),
{
    match event {
        StatusEvent::ManagerInitializationFailed { detail } => detail,
        StatusEvent::ConfigLoadFailed { detail } => detail,
        StatusEvent::SaveInterfaceLanguageFailed { detail } => detail,
        StatusEvent::HistoryUnavailable { detail } => detail,
        StatusEvent::CopyOutputFailed { detail } => detail,
        StatusEvent::DeleteHistoryConfirm { target } => target,
        StatusEvent::DeleteHistoryFailed { detail } => detail,
        StatusEvent::CannotSaveSettings { detail } => detail,
        StatusEvent::SaveApiKeyFailed { detail } => detail,
        StatusEvent::DeleteApiKeyFailed { detail } => detail,
        StatusEvent::CannotSavePrompt { detail } => detail,
        StatusEvent::PromptInvalid { detail } => detail,
        StatusEvent::CredentialStatusUnavailable { detail } => detail,
        _ => no_words(),
    }
}

/// What is shown for an event.
pub open spec fn status_in(language: UiLanguage, event: StatusEvent) -> Seq<char> {
    match event {
        StatusEvent::HistoryCount { count } => match language {
            UiLanguage::English => if count == 1 {
                "1 entry"@
            } else {
                decimal(count as nat) + " entries"@
            },
            UiLanguage::SimplifiedChinese => decimal(count as nat) + " 条记录"@,
        },
        StatusEvent::ProfilePosition { current, total } => match language {
            UiLanguage::English => decimal(current as nat) + " of "@ + decimal(total as nat),
            UiLanguage::SimplifiedChinese => "第 "@ + decimal(current as nat) + " 个，共 "@
                + decimal(total as nat) + " 个"@,
        },
        _ => status_words(language, event) + opaque_part(event),
    }
}

pub fn status_text(language: UiLanguage, event: StatusEvent<'_>) -> (text: String)
    ensures
        text@ == status_in(language, event),
{
    match event {
        StatusEvent::HistoryCount { count } => {
            if count == 1 {
                match language {
                    UiLanguage::English => {
                        return copy_of("1 entry");
                    },
                    UiLanguage::SimplifiedChinese => {},
                }
            }
            let mut text = String::new();
            push_decimal(&mut text, count as u64);
            proof {
                assert(text@ =~= decimal(count as nat));
            }
            text.append(said(language, " entries", " 条记录"));
            text
        },
        StatusEvent::ProfilePosition { current, total } => {
            match language {
                UiLanguage::English => {
                    let mut text = String::new();
                    push_decimal(&mut text, current as u64);
                    text.append(" of ");
                    push_decimal(&mut text, total as u64);
                    proof {
                        assert(text@ =~= decimal(current as nat) + " of "@ + decimal(
                            total as nat,
                        ));
                    }
                    text
                },
                UiLanguage::SimplifiedChinese => {
                    let mut text = copy_of("第 ");
                    push_decimal(&mut text, current as u64);
                    text.append(" 个，共 ");
                    push_decimal(&mut text, total as u64);
                    text.append(" 个");
                    text
                },
            }
        },
        _ => {
            let mut text = copy_of(words(language, event));
            text.append(opaque_text(event));
            text
        },
    }
}

/// The event says nothing but fixed words and an opaque part.
pub open spec fn has_words(event: StatusEvent) -> bool {
    !(event is HistoryCount) && !(event is ProfilePosition)
}

proof fn lemma_words_begin(language: UiLanguage, event: StatusEvent)
    requires
        has_words(event),
    ensures
        status_words(language, event).len() > 0,
        !is_white(status_words(language, event)[0]),
{
    match event {
        StatusEvent::ManagerInitializationFailed { .. } => {
            reveal_strlit("Manager initialization failed: ");
            reveal_strlit("管理器初始化失败：");
        },
        StatusEvent::ConfigLoadFailed { .. } => {
            reveal_strlit("Could not load config: ");
            reveal_strlit("无法加载配置：");
        },
        StatusEvent::LocalAppDataUnavailable { operation: StatusOperation::Save } => {
            reveal_strlit("LOCALAPPDATA is not available; changes cannot be saved");
            reveal_strlit("LOCALAPPDATA 不可用；无法保存更改");
        },
        StatusEvent::LocalAppDataUnavailable { operation: StatusOperation::History } => {
            reveal_strlit("LOCALAPPDATA is not available; history cannot be opened");
            reveal_strlit("LOCALAPPDATA 不可用；无法打开历史记录");
        },
        StatusEvent::SaveInterfaceLanguageFailed { .. } => {
            reveal_strlit("Could not save interface language: ");
            reveal_strlit("无法保存界面语言：");
        },
        StatusEvent::InterfaceLanguageSaved => {
            reveal_strlit("Interface language saved.");
            reveal_strlit("界面语言已保存。");
        },
        StatusEvent::HistoryRefreshed => {
            reveal_strlit("History refreshed.");
            reveal_strlit("历史记录已刷新。");
        },
        StatusEvent::HistoryUnavailable { .. } => {
            reveal_strlit("History unavailable: ");
            reveal_strlit("历史记录不可用：");
        },
        StatusEvent::SelectHistoryEntry => {
            reveal_strlit("Select a history entry first.");
            reveal_strlit("请先选择一条历史记录。");
        },
        StatusEvent::HistoryEntryUnavailable => {
            reveal_strlit("The selected history entry is no longer available.");
            reveal_strlit("所选历史记录已不可用。");
        },
        StatusEvent::OutputCopied => {
            reveal_strlit("Output copied to the clipboard.");
            reveal_strlit("输出已复制到剪贴板。");
        },
        StatusEvent::CopyOutputFailed { .. } => {
            reveal_strlit("Could not copy output: ");
            reveal_strlit("无法复制输出：");
        },
        StatusEvent::DeleteHistoryConfirm { .. } => {
            reveal_strlit("Delete this history entry?\n\n");
            reveal_strlit("删除这条历史记录？\n\n");
        },
        StatusEvent::DeletionCancelled => {
            reveal_strlit("Deletion cancelled.");
            reveal_strlit("已取消删除。");
        },
        StatusEvent::HistoryEntryDeleted => {
            reveal_strlit("History entry deleted.");
            reveal_strlit("历史记录已删除。");
        },
        StatusEvent::HistoryEntryAlreadyDeleted => {
            reveal_strlit("The history entry was already deleted.");
            reveal_strlit("该历史记录已被删除。");
        },
        StatusEvent::DeleteHistoryFailed { .. } => {
            reveal_strlit("Could not delete history entry: ");
            reveal_strlit("无法删除历史记录：");
        },
        StatusEvent::OutputTooLarge => {
            reveal_strlit("output is too large");
            reveal_strlit("输出内容过大");
        },
        StatusEvent::ClipboardMemoryLockFailed => {
            reveal_strlit("could not lock clipboard memory");
            reveal_strlit("无法锁定剪贴板内存");
        },
        StatusEvent::ResidentStart(ResidentStartOutcome::AlreadyRunning) => {
            reveal_strlit("Resident is running.");
            reveal_strlit("驻留程序正在运行。");
        },
        StatusEvent::ResidentStart(ResidentStartOutcome::Started) => {
            reveal_strlit("Resident started and is ready.");
            reveal_strlit("驻留程序已启动并准备就绪。");
        },
        StatusEvent::ResidentStart(ResidentStartOutcome::Unavailable) => {
            reveal_strlit("Resident could not be reached; settings can be saved, but translation is unavailable.");
            reveal_strlit("无法连接驻留程序；可以保存设置，但翻译功能当前不可用。");
        },
        StatusEvent::ConfigRefresh(RefreshOutcome::Acknowledged) => {
            reveal_strlit("Saved; the running resident confirmed the refresh.");
            reveal_strlit("已保存；正在运行的驻留程序已确认刷新。");
        },
        StatusEvent::ConfigRefresh(RefreshOutcome::ResidentAbsent) => {
            reveal_strlit("Saved, but no running resident was found; translation is unavailable.");
            reveal_strlit("已保存，但未找到正在运行的驻留程序；翻译功能不可用。");
        },
        StatusEvent::ConfigRefresh(RefreshOutcome::Unacknowledged) => {
            reveal_strlit("Saved, but the resident did not confirm the refresh; restart the app before translating.");
            reveal_strlit("已保存，但驻留程序未确认刷新；请在翻译前重启应用。");
        },
        StatusEvent::ConfigRefresh(RefreshOutcome::Rejected) => {
            reveal_strlit("Saved, but the resident rejected the refresh; restart the app before translating.");
            reveal_strlit("已保存，但驻留程序拒绝刷新；请在翻译前重启应用。");
        },
        StatusEvent::CredentialRefresh { outcome: RefreshOutcome::Acknowledged, deleted: false } => {
            reveal_strlit("API key saved; the running resident confirmed the credential refresh.");
            reveal_strlit("API 密钥已保存；正在运行的驻留程序已确认凭据刷新。");
        },
        StatusEvent::CredentialRefresh { outcome: RefreshOutcome::Acknowledged, deleted: true } => {
            reveal_strlit("API key deleted; the running resident confirmed the credential refresh.");
            reveal_strlit("API 密钥已删除；正在运行的驻留程序已确认凭据刷新。");
        },
        StatusEvent::CredentialRefresh { outcome: RefreshOutcome::ResidentAbsent, deleted: false } => {
            reveal_strlit("API key saved, but no running resident was found; translation is unavailable.");
            reveal_strlit("API 密钥已保存，但未找到正在运行的驻留程序；翻译功能不可用。");
        },
        StatusEvent::CredentialRefresh { outcome: RefreshOutcome::ResidentAbsent, deleted: true } => {
            reveal_strlit("API key deleted, but no running resident was found; translation is unavailable.");
            reveal_strlit("API 密钥已删除，但未找到正在运行的驻留程序；翻译功能不可用。");
        },
        StatusEvent::CredentialRefresh { outcome: RefreshOutcome::Unacknowledged, deleted: false } => {
            reveal_strlit("API key saved, but the resident did not confirm the credential refresh; restart the app.");
            reveal_strlit("API 密钥已保存，但驻留程序未确认凭据刷新；请重启应用。");
        },
        StatusEvent::CredentialRefresh { outcome: RefreshOutcome::Rejected, deleted: false } => {
            reveal_strlit("API key saved, but the resident did not confirm the credential refresh; restart the app.");
            reveal_strlit("API 密钥已保存，但驻留程序未确认凭据刷新；请重启应用。");
        },
        StatusEvent::CredentialRefresh { outcome: RefreshOutcome::Unacknowledged, deleted: true } => {
            reveal_strlit("API key deleted, but the resident did not confirm the credential refresh; restart the app.");
            reveal_strlit("API 密钥已删除，但驻留程序未确认凭据刷新；请重启应用。");
        },
        StatusEvent::CredentialRefresh { outcome: RefreshOutcome::Rejected, deleted: true } => {
            reveal_strlit("API key deleted, but the resident did not confirm the credential refresh; restart the app.");
            reveal_strlit("API 密钥已删除，但驻留程序未确认凭据刷新；请重启应用。");
        },
        StatusEvent::CannotSaveSettings { .. } => {
            reveal_strlit("Cannot save settings: ");
            reveal_strlit("无法保存设置：");
        },
        StatusEvent::EnterApiKey => {
            reveal_strlit("Enter a key before saving it.");
            reveal_strlit("请输入密钥后再保存。");
        },
        StatusEvent::ApiKeySavedToCredentialManager => {
            reveal_strlit("Saved in Windows Credential Manager.");
            reveal_strlit("已保存到 Windows 凭据管理器。");
        },
        StatusEvent::ApiKeyInactiveTargetSaved => {
            reveal_strlit("API key saved, but this credential target is not active; save settings to refresh the resident.");
            reveal_strlit("API 密钥已保存，但此凭据目标未启用；请保存设置以刷新驻留程序。");
        },
        StatusEvent::SaveApiKeyFailed { .. } => {
            reveal_strlit("Could not save API key: ");
            reveal_strlit("无法保存 API 密钥：");
        },
        StatusEvent::NoSavedApiKey => {
            reveal_strlit("No saved key for this target.");
            reveal_strlit("此目标没有已保存的密钥。");
        },
        StatusEvent::ApiKeyInactiveTargetDeleted => {
            reveal_strlit("API key deleted, but this credential target is not active; the resident was not refreshed.");
            reveal_strlit("API 密钥已删除，但此凭据目标未启用；未刷新驻留程序。");
        },
        StatusEvent::DeleteApiKeyFailed { .. } => {
            reveal_strlit("Could not delete API key: ");
            reveal_strlit("无法删除 API 密钥：");
        },
        StatusEvent::NoPromptProfile => {
            reveal_strlit("There is no prompt profile to save.");
            reveal_strlit("没有可保存的提示词配置。");
        },
        StatusEvent::CannotSavePrompt { .. } => {
            reveal_strlit("Cannot save prompt: ");
            reveal_strlit("无法保存提示词：");
        },
        StatusEvent::NewPromptUnsaved => {
            reveal_strlit("New prompt is unsaved. Edit it, then choose Save prompt.");
            reveal_strlit("新提示词尚未保存。编辑后请选择“保存提示词”。");
        },
        StatusEvent::NewDraft => {
            reveal_strlit("New draft");
            reveal_strlit("新草稿");
        },
        StatusEvent::UnsavedPromptDiscarded => {
            reveal_strlit("Unsaved new prompt discarded; the saved configuration was unchanged.");
            reveal_strlit("已丢弃未保存的新提示词；已保存的配置未更改。");
        },
        StatusEvent::PromptInvalid { .. } => {
            reveal_strlit("Prompt is invalid: ");
            reveal_strlit("提示词无效：");
        },
        StatusEvent::InvalidTemperature => {
            reveal_strlit("Temperature must be a number from 0 to 2.");
            reveal_strlit("温度必须是 0 到 2 之间的数字。");
        },
        StatusEvent::InvalidMaxOutputTokens => {
            reveal_strlit("Max output tokens must be a positive integer.");
            reveal_strlit("最大输出令牌数必须是正整数。");
        },
        StatusEvent::ConfigPathUnavailable => {
            reveal_strlit("LOCALAPPDATA is not available");
            reveal_strlit("LOCALAPPDATA 不可用");
        },
        StatusEvent::CredentialStatusPresent => {
            reveal_strlit("A saved key is present (value hidden).");
            reveal_strlit("存在已保存的密钥（值已隐藏）。");
        },
        StatusEvent::CredentialStatusAbsent => {
            reveal_strlit("No saved key for this target.");
            reveal_strlit("此目标没有已保存的密钥。");
        },
        StatusEvent::CredentialStatusUnavailable { .. } => {
            reveal_strlit("Credential status unavailable: ");
            reveal_strlit("凭据状态不可用：");
        },
        StatusEvent::HistoryCount { .. } => {},
        StatusEvent::ProfilePosition { .. } => {},
    }
}

/// Every event has a visible text in both languages.
pub proof fn lemma_every_status_is_visible(language: UiLanguage, event: StatusEvent)
    ensures
        !is_blank(status_in(language, event)),
{
    let text = status_in(language, event);
    match event {
        StatusEvent::HistoryCount { count } => {
            reveal_strlit("1 entry");
            reveal_strlit(" entries");
            reveal_strlit(" 条记录");
            assert(!is_white(text[text.len() - 1]));
        },
        StatusEvent::ProfilePosition { current, total } => {
            reveal_strlit(" of ");
            reveal_strlit("第 ");
            reveal_strlit(" 个，共 ");
            reveal_strlit(" 个");
            match language {
                UiLanguage::English => {
                    assert(text[decimal(current as nat).len() as int + 1] == 'o');
                },
                UiLanguage::SimplifiedChinese => {
                    assert(!is_white(text[0]));
                },
            }
        },
        _ => {
            lemma_words_begin(language, event);
            assert(text[0] == status_words(language, event)[0]);
        },
    }
}

/// An opaque detail is shown unchanged, at the end, in both languages.
pub proof fn lemma_details_are_shown_unchanged(language: UiLanguage, event: StatusEvent)
    ensures
        ({
            let text = status_in(language, event);
            let detail = opaque_part(event);
            &&& text.len() >= detail.len()
            &&& text.skip(text.len() - detail.len()) == detail
        }),
{
    let text = status_in(language, event);
    let detail = opaque_part(event);
    assert(text.skip(text.len() - detail.len()) =~= detail);
}

/// The word that says that the resident confirmed a change.
pub open spec fn confirmation(language: UiLanguage) -> Seq<char> {
    in_language(language, "confirmed"@, "已确认"@)
}

/// None of the first `count` characters is `first` with `second` behind it.
spec fn lacks_pair(text: Seq<char>, first: char, second: char, count: nat) -> bool
    decreases count,
{
    count == 0 || (!(text[count - 1] == first && text[count as int] == second) && lacks_pair(
        text,
        first,
        second,
        (count - 1) as nat,
    ))
}

proof fn lemma_lacks_pair(text: Seq<char>, first: char, second: char, count: nat, at: int)
    requires
        lacks_pair(text, first, second, count),
        0 <= at < count,
    ensures
        !(text[at] == first && text[at + 1] == second),
    decreases count,
{
    if at < count - 1 {
        lemma_lacks_pair(text, first, second, (count - 1) as nat, at);
    }
}

/// A text without two of a part's neighbouring characters does not hold it.
proof fn lemma_part_is_missing(text: Seq<char>, part: Seq<char>, at: int)
    requires
        0 <= at < part.len() - 1,
        text.len() >= 1,
        lacks_pair(text, part[at], part[at + 1], (text.len() - 1) as nat),
    ensures
        !holds_text(text, part),
{
    if holds_text(text, part) {
        let start = choose|start: int| occurs_at(text, part, start);
        let found = text.subrange(start, start + part.len());
        assert(found[at] == text[start + at] && found[at + 1] == text[start + at + 1]);
        lemma_lacks_pair(
            text,
            part[at],
            part[at + 1],
            (text.len() - 1) as nat,
            start + at,
        );
    }
}

/// A saved configuration is reported as confirmed exactly where the resident
/// acknowledged it, in both languages.
pub proof fn lemma_only_acknowledged_configuration_is_confirmed(
    language: UiLanguage,
    outcome: RefreshOutcome,
)
    ensures
        holds_text(status_in(language, StatusEvent::ConfigRefresh(outcome)), confirmation(language))
            <==> outcome == RefreshOutcome::Acknowledged,
{
    let text = status_in(language, StatusEvent::ConfigRefresh(outcome));
    reveal_strlit("confirmed");
    reveal_strlit("已确认");
    reveal_strlit("Saved; the running resident confirmed the refresh.");
    reveal_strlit("已保存；正在运行的驻留程序已确认刷新。");
    reveal_strlit("Saved, but no running resident was found; translation is unavailable.");
    reveal_strlit("已保存，但未找到正在运行的驻留程序；翻译功能不可用。");
    reveal_strlit("Saved, but the resident did not confirm the refresh; restart the app before translating.");
    reveal_strlit("已保存，但驻留程序未确认刷新；请在翻译前重启应用。");
    reveal_strlit("Saved, but the resident rejected the refresh; restart the app before translating.");
    reveal_strlit("已保存，但驻留程序拒绝刷新；请在翻译前重启应用。");
    if outcome == RefreshOutcome::Acknowledged {
        let at: int = match language {
            UiLanguage::English => 28,
            UiLanguage::SimplifiedChinese => 13,
        };
        assert(text.subrange(at, at + confirmation(language).len()) =~= confirmation(language));
        assert(occurs_at(text, confirmation(language), at));
    } else {
        reveal_with_fuel(lacks_pair, 100);
        match language {
            UiLanguage::English => lemma_part_is_missing(text, "confirmed"@, 6),
            UiLanguage::SimplifiedChinese => lemma_part_is_missing(text, "已确认"@, 0),
        }
    }
}

/// A changed key is reported as confirmed exactly where the resident
/// acknowledged it, in both languages.
pub proof fn lemma_only_acknowledged_credential_is_confirmed(
    language: UiLanguage,
    outcome: RefreshOutcome,
    deleted: bool,
)
    ensures
        holds_text(
            status_in(language, StatusEvent::CredentialRefresh { outcome, deleted }),
            confirmation(language),
        ) <==> outcome == RefreshOutcome::Acknowledged,
{
    let text = status_in(language, StatusEvent::CredentialRefresh { outcome, deleted });
    reveal_strlit("confirmed");
    reveal_strlit("已确认");
    reveal_strlit("API key saved; the running resident confirmed the credential refresh.");
    reveal_strlit("API 密钥已保存；正在运行的驻留程序已确认凭据刷新。");
    reveal_strlit("API key deleted; the running resident confirmed the credential refresh.");
    reveal_strlit("API 密钥已删除；正在运行的驻留程序已确认凭据刷新。");
    reveal_strlit("API key saved, but no running resident was found; translation is unavailable.");
    reveal_strlit("API 密钥已保存，但未找到正在运行的驻留程序；翻译功能不可用。");
    reveal_strlit("API key deleted, but no running resident was found; translation is unavailable.");
    reveal_strlit("API 密钥已删除，但未找到正在运行的驻留程序；翻译功能不可用。");
    reveal_strlit("API key saved, but the resident did not confirm the credential refresh; restart the app.");
    reveal_strlit("API 密钥已保存，但驻留程序未确认凭据刷新；请重启应用。");
    reveal_strlit("API key deleted, but the resident did not confirm the credential refresh; restart the app.");
    reveal_strlit("API 密钥已删除，但驻留程序未确认凭据刷新；请重启应用。");
    if outcome == RefreshOutcome::Acknowledged {
        let at: int = match language {
            UiLanguage::English => if deleted {
                38
            } else {
                36
            },
            UiLanguage::SimplifiedChinese => 19,
        };
        assert(text.subrange(at, at + confirmation(language).len()) =~= confirmation(language));
        assert(occurs_at(text, confirmation(language), at));
    } else {
        reveal_with_fuel(lacks_pair, 100);
        match language {
            UiLanguage::English => lemma_part_is_missing(text, "confirmed"@, 6),
            UiLanguage::SimplifiedChinese => lemma_part_is_missing(text, "已确认"@, 0),
        }
    }
}

/// The number of entries, in words.
pub fn history_count_text(language: UiLanguage, count: usize) -> (text: String)
    ensures
        text@ == status_in(language, StatusEvent::HistoryCount { count }),
{
    status_text(language, StatusEvent::HistoryCount { count })
}

pub fn resident_start_status(language: UiLanguage, outcome: ResidentStartOutcome) -> (text: String)
    ensures
        text@ == status_in(language, StatusEvent::ResidentStart(outcome)),
{
    status_text(language, StatusEvent::ResidentStart(outcome))
}

pub fn config_refresh_status(language: UiLanguage, outcome: RefreshOutcome) -> (text: String)
    ensures
        text@ == status_in(language, StatusEvent::ConfigRefresh(outcome)),
{
    status_text(language, StatusEvent::ConfigRefresh(outcome))
}

pub fn credential_refresh_status(
    language: UiLanguage,
    outcome: RefreshOutcome,
    deleted: bool,
) -> (text: String)
    ensures
        text@ == status_in(language, StatusEvent::CredentialRefresh { outcome, deleted }),
{
    status_text(language, StatusEvent::CredentialRefresh { outcome, deleted })
}

/// What is known of the saved key.
#[derive(Debug, PartialEq, Eq)]
pub enum CredentialStatusState {
    Present,
    Absent,
    Unavailable(String),
}

/// What is shown of the saved key.
pub open spec fn credential_text(
    language: UiLanguage,
    status: CredentialStatusState,
) -> Seq<char> {
    match status {
        CredentialStatusState::Present => status_in(
            language,
            StatusEvent::CredentialStatusPresent,
        ),
        CredentialStatusState::Absent => status_in(language, StatusEvent::CredentialStatusAbsent),
        CredentialStatusState::Unavailable(detail) => in_language(
            language,
            "Credential status unavailable: "@,
            "凭据状态不可用："@,
        ) + detail@,
    }
}

/// The event that shows what is known of the saved key.
pub fn credential_status_event(status: &CredentialStatusState) -> (event: StatusEvent<'_>)
    ensures
        match *status {
            CredentialStatusState::Present => event == StatusEvent::CredentialStatusPresent,
            CredentialStatusState::Absent => event == StatusEvent::CredentialStatusAbsent,
            CredentialStatusState::Unavailable(reason) => (event matches
                StatusEvent::CredentialStatusUnavailable { detail } && detail@ == reason@),
        },
        forall|language: UiLanguage|
            status_in(language, event) == credential_text(language, *status),
{
    match status {
        CredentialStatusState::Present => StatusEvent::CredentialStatusPresent,
        CredentialStatusState::Absent => StatusEvent::CredentialStatusAbsent,
        CredentialStatusState::Unavailable(detail) => StatusEvent::CredentialStatusUnavailable {
            detail: detail.as_str(),
        },
    }
}

/// Every event that carries a detail ends with it: none is left out.
pub proof fn lemma_every_detail_is_told(language: UiLanguage, detail: &str, event: StatusEvent)
    requires
        event == (StatusEvent::ManagerInitializationFailed { detail }) || event == (
        StatusEvent::ConfigLoadFailed { detail }) || event == (
        StatusEvent::SaveInterfaceLanguageFailed { detail }) || event == (
        StatusEvent::HistoryUnavailable { detail }) || event == (StatusEvent::CopyOutputFailed {
            detail,
        }) || event == (StatusEvent::DeleteHistoryConfirm { target: detail }) || event == (
        StatusEvent::DeleteHistoryFailed { detail }) || event == (StatusEvent::CannotSaveSettings {
            detail,
        }) || event == (StatusEvent::SaveApiKeyFailed { detail }) || event == (
        StatusEvent::DeleteApiKeyFailed { detail }) || event == (StatusEvent::CannotSavePrompt {
            detail,
        }) || event == (StatusEvent::PromptInvalid { detail }) || event == (
        StatusEvent::CredentialStatusUnavailable { detail }),
    ensures
        ({
            let text = status_in(language, event);
            &&& text.len() >= detail@.len()
            &&& text.skip(text.len() - detail@.len()) == detail@
        }),
{
    lemma_details_are_shown_unchanged(language, event);
}

/// A count of entries begins with the number; a position begins with the
/// number of the profile and names the number of all after it.
pub proof fn lemma_numbers_are_told(count: usize, current: usize, total: usize)
    ensures
        status_in(UiLanguage::English, StatusEvent::HistoryCount { count }).take(
            decimal(count as nat).len() as int,
        ) == decimal(count as nat),
        status_in(UiLanguage::SimplifiedChinese, StatusEvent::HistoryCount { count }).take(
            decimal(count as nat).len() as int,
        ) == decimal(count as nat),
        ({
            let text = status_in(
                UiLanguage::English,
                StatusEvent::ProfilePosition { current, total },
            );
            &&& text.take(decimal(current as nat).len() as int) == decimal(current as nat)
            &&& text.skip(decimal(current as nat).len() as int + 4) == decimal(total as nat)
        }),
        ({
            let text = status_in(
                UiLanguage::SimplifiedChinese,
                StatusEvent::ProfilePosition { current, total },
            );
            &&& text.subrange(2, 2 + decimal(current as nat).len() as int)
                == decimal(current as nat)
        }),
{
    reveal_strlit("1 entry");
    reveal_strlit(" of ");
    reveal_strlit("第 ");
    let many = status_in(UiLanguage::English, StatusEvent::HistoryCount { count });
    assert(many.take(decimal(count as nat).len() as int) =~= decimal(count as nat)) by {
        if count == 1 {
            assert(decimal(1) =~= seq!['1']);
        }
    }
    let chinese = status_in(UiLanguage::SimplifiedChinese, StatusEvent::HistoryCount { count });
    assert(chinese.take(decimal(count as nat).len() as int) =~= decimal(count as nat));
    let text = status_in(UiLanguage::English, StatusEvent::ProfilePosition { current, total });
    assert(text.take(decimal(current as nat).len() as int) =~= decimal(current as nat));
    assert(text.skip(decimal(current as nat).len() as int + 4) =~= decimal(total as nat));
    let other = status_in(
        UiLanguage::SimplifiedChinese,
        StatusEvent::ProfilePosition { current, total },
    );
    assert(other.subrange(2, 2 + decimal(current as nat).len() as int) =~= decimal(current as nat));
}

/// What is known of a key is told as it is, with the store's own words where it
/// could not be had.
pub proof fn lemma_a_key_is_told_as_it_is(language: UiLanguage, detail: String)
    ensures
        credential_text(language, CredentialStatusState::Present) == status_in(
            language,
            StatusEvent::CredentialStatusPresent,
        ),
        credential_text(language, CredentialStatusState::Absent) == status_in(
            language,
            StatusEvent::CredentialStatusAbsent,
        ),
        ({
            let text = credential_text(language, CredentialStatusState::Unavailable(detail));
            &&& text.len() >= detail@.len()
            &&& text.skip(text.len() - detail@.len()) == detail@
        }),
{
    let text = credential_text(language, CredentialStatusState::Unavailable(detail));
    assert(text.skip(text.len() - detail@.len()) =~= detail@);
}

} // verus!
