//! The messages and commands of the manager's window.

use crate::manager_layout::{
    Page, ID_CLOSE, ID_DELETE_KEY, ID_HISTORY_COPY, ID_HISTORY_DELETE, ID_HISTORY_LIST,
    ID_HISTORY_ORDER, ID_HISTORY_PROMPT, ID_HISTORY_REFRESH, ID_HISTORY_SOURCE, ID_HISTORY_TAB,
    ID_LANGUAGE, ID_NEW_PROMPT, ID_NEXT_PROMPT, ID_PREVIOUS_PROMPT, ID_PROMPTS_TAB, ID_SAVE_KEY,
    ID_SAVE_PROMPT, ID_SAVE_SETTINGS, ID_SETTINGS_TAB, WM_CTLCOLORSTATIC,
};
use crate::messages::{WM_COMMAND, WM_DESTROY};
use vstd::prelude::*;

verus! {

/// A list or a combo box reports another selection.
pub const SELECTION_CHANGED: usize = 1;

pub const WM_CREATE: u32 = 0x0001;

pub const WM_SIZE: u32 = 0x0005;

pub const WM_PAINT: u32 = 0x000f;

pub const WM_CLOSE: u32 = 0x0010;

pub const WM_ERASEBKGND: u32 = 0x0014;

pub const WM_GETMINMAXINFO: u32 = 0x0024;

pub const WM_DRAWITEM: u32 = 0x002b;

pub const WM_NOTIFY: u32 = 0x004e;

pub const WM_CTLCOLOREDIT: u32 = 0x0133;

pub const WM_CTLCOLORLISTBOX: u32 = 0x0134;

pub const WM_CTLCOLORBTN: u32 = 0x0135;

pub const WM_DPICHANGED: u32 = 0x02e0;

/// What a command asks for.
#[derive(Clone, Copy, Debug, PartialEq, Eq, Structural)]
pub enum ManagerCommand {
    HistorySelectionChanged,
    SaveLanguage,
    SwitchPage(Page),
    Close,
    SaveSettings,
    SaveKey,
    DeleteKey,
    SavePrompt,
    NewPrompt,
    PreviousPrompt,
    NextPrompt,
    RefreshHistory,
    CopyHistory,
    DeleteHistory,
    Nothing,
}

pub open spec fn is_history_filter(id: usize) -> bool {
    id == ID_HISTORY_PROMPT || id == ID_HISTORY_SOURCE || id == ID_HISTORY_ORDER
}

/// What pressing the button with the number `id` asks for.
pub open spec fn button_command(id: usize) -> ManagerCommand {
    if id == ID_SETTINGS_TAB {
        ManagerCommand::SwitchPage(Page::Settings)
    } else if id == ID_PROMPTS_TAB {
        ManagerCommand::SwitchPage(Page::Prompts)
    } else if id == ID_HISTORY_TAB {
        ManagerCommand::SwitchPage(Page::History)
    } else if id == ID_CLOSE {
        ManagerCommand::Close
    } else if id == ID_SAVE_SETTINGS {
        ManagerCommand::SaveSettings
    } else if id == ID_SAVE_KEY {
        ManagerCommand::SaveKey
    } else if id == ID_DELETE_KEY {
        ManagerCommand::DeleteKey
    } else if id == ID_SAVE_PROMPT {
        ManagerCommand::SavePrompt
    } else if id == ID_NEW_PROMPT {
        ManagerCommand::NewPrompt
    } else if id == ID_PREVIOUS_PROMPT {
        ManagerCommand::PreviousPrompt
    } else if id == ID_NEXT_PROMPT {
        ManagerCommand::NextPrompt
    } else if id == ID_HISTORY_REFRESH {
        ManagerCommand::RefreshHistory
    } else if id == ID_HISTORY_COPY {
        ManagerCommand::CopyHistory
    } else if id == ID_HISTORY_DELETE {
        ManagerCommand::DeleteHistory
    } else {
        ManagerCommand::Nothing
    }
}

/// What a notification of the control with the number `id` asks for. A filter
/// counts only while the history is shown.
pub open spec fn control_command(id: usize, notification: int, page: Page) -> ManagerCommand {
    if id == ID_HISTORY_LIST && notification == SELECTION_CHANGED {
        ManagerCommand::HistorySelectionChanged
    } else if page == Page::History && notification == SELECTION_CHANGED && is_history_filter(id) {
        ManagerCommand::RefreshHistory
    } else if id == ID_LANGUAGE && notification == SELECTION_CHANGED {
        ManagerCommand::SaveLanguage
    } else {
        button_command(id)
    }
}

/// What a command asks for: its low word is the control's number, the next one
/// the notification.
pub fn handle_command(command: usize, page: Page) -> (asked: ManagerCommand)
    ensures
        asked == control_command(
            (command % 0x1_0000) as usize,
            command as int / 0x1_0000 % 0x1_0000,
            page,
        ),
{
    let id: usize = command % 0x1_0000;
    let notification: usize = command / 0x1_0000 % 0x1_0000;
    if id == ID_HISTORY_LIST && notification == SELECTION_CHANGED {
        return ManagerCommand::HistorySelectionChanged;
    }
    if page == Page::History && notification == SELECTION_CHANGED && (id == ID_HISTORY_PROMPT || id
        == ID_HISTORY_SOURCE || id == ID_HISTORY_ORDER) {
        return ManagerCommand::RefreshHistory;
    }
    if id == ID_LANGUAGE && notification == SELECTION_CHANGED {
        return ManagerCommand::SaveLanguage;
    }
    if id == ID_SETTINGS_TAB {
        ManagerCommand::SwitchPage(Page::Settings)
    } else if id == ID_PROMPTS_TAB {
        ManagerCommand::SwitchPage(Page::Prompts)
    } else if id == ID_HISTORY_TAB {
        ManagerCommand::SwitchPage(Page::History)
    } else if id == ID_CLOSE {
        ManagerCommand::Close
    } else if id == ID_SAVE_SETTINGS {
        ManagerCommand::SaveSettings
    } else if id == ID_SAVE_KEY {
        ManagerCommand::SaveKey
    } else if id == ID_DELETE_KEY {
        ManagerCommand::DeleteKey
    } else if id == ID_SAVE_PROMPT {
        ManagerCommand::SavePrompt
    } else if id == ID_NEW_PROMPT {
        ManagerCommand::NewPrompt
    } else if id == ID_PREVIOUS_PROMPT {
        ManagerCommand::PreviousPrompt
    } else if id == ID_NEXT_PROMPT {
        ManagerCommand::NextPrompt
    } else if id == ID_HISTORY_REFRESH {
        ManagerCommand::RefreshHistory
    } else if id == ID_HISTORY_COPY {
        ManagerCommand::CopyHistory
    } else if id == ID_HISTORY_DELETE {
        ManagerCommand::DeleteHistory
    } else {
        ManagerCommand::Nothing
    }
}

/// Every button of the window does something, and no two do the same.
pub proof fn lemma_buttons_have_commands(
    a: crate::manager_controls::Control,
    b: crate::manager_controls::Control,
)
    requires
        crate::manager_controls::control_model(a).kind
            == crate::manager_controls::ControlKind::Button,
        crate::manager_controls::control_model(b).kind
            == crate::manager_controls::ControlKind::Button,
    ensures
        button_command(crate::manager_controls::control_model(a).id) != ManagerCommand::Nothing,
        button_command(crate::manager_controls::control_model(a).id) == button_command(
            crate::manager_controls::control_model(b).id,
        ) ==> a == b,
{
}

/// What a message of the window asks for.
#[derive(Clone, Copy, Debug, PartialEq, Eq, Structural)]
pub enum ManagerMessage {
    Create,
    Command,
    Layout,
    ChangeDpi,
    LimitSize,
    Paint,
    /// Answer that the background needs no erasing.
    KeepBackground,
    DrawButton,
    ColorControl,
    Close,
    Destroy,
    /// Leave the message to the system.
    Default,
}

pub open spec fn is_control_color(message: u32) -> bool {
    message == WM_CTLCOLOREDIT || message == WM_CTLCOLORLISTBOX || message == WM_CTLCOLORBTN
        || message == WM_CTLCOLORSTATIC
}

/// What a message of the manager's window asks for. Without a state only the
/// making of the window is handled.
pub fn manager_message(message: u32, has_state: bool) -> (asked: ManagerMessage)
    ensures
        asked == if message == WM_CREATE {
            ManagerMessage::Create
        } else if !has_state {
            ManagerMessage::Default
        } else if message == WM_COMMAND {
            ManagerMessage::Command
        } else if message == WM_SIZE {
            ManagerMessage::Layout
        } else if message == WM_DPICHANGED {
            ManagerMessage::ChangeDpi
        } else if message == WM_GETMINMAXINFO {
            ManagerMessage::LimitSize
        } else if message == WM_PAINT {
            ManagerMessage::Paint
        } else if message == WM_ERASEBKGND {
            ManagerMessage::KeepBackground
        } else if message == WM_DRAWITEM {
            ManagerMessage::DrawButton
        } else if is_control_color(message) {
            ManagerMessage::ColorControl
        } else if message == WM_CLOSE {
            ManagerMessage::Close
        } else if message == WM_DESTROY {
            ManagerMessage::Destroy
        } else {
            ManagerMessage::Default
        },
{
    if message == WM_CREATE {
        return ManagerMessage::Create;
    }
    if !has_state {
        return ManagerMessage::Default;
    }
    if message == WM_COMMAND {
        ManagerMessage::Command
    } else if message == WM_SIZE {
        ManagerMessage::Layout
    } else if message == WM_DPICHANGED {
        ManagerMessage::ChangeDpi
    } else if message == WM_GETMINMAXINFO {
        ManagerMessage::LimitSize
    } else if message == WM_PAINT {
        ManagerMessage::Paint
    } else if message == WM_ERASEBKGND {
        ManagerMessage::KeepBackground
    } else if message == WM_DRAWITEM {
        ManagerMessage::DrawButton
    } else if message == WM_CTLCOLOREDIT || message == WM_CTLCOLORLISTBOX || message
        == WM_CTLCOLORBTN || message == WM_CTLCOLORSTATIC {
        ManagerMessage::ColorControl
    } else if message == WM_CLOSE {
        ManagerMessage::Close
    } else if message == WM_DESTROY {
        ManagerMessage::Destroy
    } else {
        ManagerMessage::Default
    }
}

/// What a message of a page asks for.
#[derive(Clone, Copy, Debug, PartialEq, Eq, Structural)]
pub enum PageMessage {
    /// Hand the message to the window.
    Forward,
    Paint,
    KeepBackground,
    Default,
}

/// What a message of a page asks for: what its controls report goes to the
/// window, where there is one.
pub fn page_message(message: u32, has_parent: bool) -> (asked: PageMessage)
    ensures
        asked == if has_parent && (message == WM_COMMAND || message == WM_NOTIFY || message
            == WM_DRAWITEM || is_control_color(message)) {
            PageMessage::Forward
        } else if message == WM_PAINT {
            PageMessage::Paint
        } else if message == WM_ERASEBKGND {
            PageMessage::KeepBackground
        } else {
            PageMessage::Default
        },
{
    let reported: bool = message == WM_COMMAND || message == WM_NOTIFY || message == WM_DRAWITEM
        || message == WM_CTLCOLOREDIT || message == WM_CTLCOLORLISTBOX || message == WM_CTLCOLORBTN
        || message == WM_CTLCOLORSTATIC;
    if has_parent && reported {
        PageMessage::Forward
    } else if message == WM_PAINT {
        PageMessage::Paint
    } else if message == WM_ERASEBKGND {
        PageMessage::KeepBackground
    } else {
        PageMessage::Default
    }
}

/// Each button asks for what it stands for, on whatever page.
pub proof fn lemma_what_a_button_asks_for(page: Page, notification: int)
    ensures
        control_command(100, 0, page) == ManagerCommand::SwitchPage(Page::Settings),
        control_command(101, 0, page) == ManagerCommand::SwitchPage(Page::Prompts),
        control_command(102, 0, page) == ManagerCommand::SwitchPage(Page::History),
        control_command(110, 0, page) == ManagerCommand::SaveSettings,
        control_command(111, 0, page) == ManagerCommand::SaveKey,
        control_command(112, 0, page) == ManagerCommand::DeleteKey,
        control_command(120, 0, page) == ManagerCommand::SavePrompt,
        control_command(121, 0, page) == ManagerCommand::NewPrompt,
        control_command(122, 0, page) == ManagerCommand::PreviousPrompt,
        control_command(123, 0, page) == ManagerCommand::NextPrompt,
        control_command(130, 0, page) == ManagerCommand::Close,
        control_command(145, 0, page) == ManagerCommand::RefreshHistory,
        control_command(146, 0, page) == ManagerCommand::CopyHistory,
        control_command(147, 0, page) == ManagerCommand::DeleteHistory,
        control_command(144, 1, page) == ManagerCommand::HistorySelectionChanged,
        control_command(148, 1, page) == ManagerCommand::SaveLanguage,
        notification != 1 ==> control_command(144, notification, page) == ManagerCommand::Nothing
            && control_command(148, notification, page) == ManagerCommand::Nothing,
{
}

/// A filter reads the history again only where it is on show and was changed.
pub proof fn lemma_filters_work_on_their_page(id: usize, notification: int, page: Page)
    requires
        id == 141 || id == 142 || id == 143,
    ensures
        control_command(id, notification, page) == ManagerCommand::RefreshHistory <==> page
            == Page::History && notification == 1,
{
}

/// The window answers each message as it is meant, and none but its creation
/// before it has a state.
pub proof fn lemma_what_the_window_answers(message: u32, with: ManagerMessage, without: ManagerMessage)
    requires
        call_ensures(manager_message, (message, true), with),
        call_ensures(manager_message, (message, false), without),
    ensures
        message == 0x0001 <==> with == ManagerMessage::Create,
        message == 0x0111 <==> with == ManagerMessage::Command,
        message == 0x0005 <==> with == ManagerMessage::Layout,
        message == 0x02e0 <==> with == ManagerMessage::ChangeDpi,
        message == 0x0024 <==> with == ManagerMessage::LimitSize,
        message == 0x000f <==> with == ManagerMessage::Paint,
        message == 0x0014 <==> with == ManagerMessage::KeepBackground,
        message == 0x002b <==> with == ManagerMessage::DrawButton,
        message == 0x0133 || message == 0x0134 || message == 0x0135 || message == 0x0138 <==> with
            == ManagerMessage::ColorControl,
        message == 0x0010 <==> with == ManagerMessage::Close,
        message == 0x0002 <==> with == ManagerMessage::Destroy,
        without == ManagerMessage::Create <==> message == 0x0001,
        message != 0x0001 ==> without == ManagerMessage::Default,
{
}

/// A page hands on what its controls say, and paints itself.
pub proof fn lemma_what_a_page_hands_on(message: u32, placed: PageMessage, alone: PageMessage)
    requires
        call_ensures(page_message, (message, true), placed),
        call_ensures(page_message, (message, false), alone),
    ensures
        placed == PageMessage::Forward <==> message == 0x0111 || message == 0x004e || message
            == 0x002b || message == 0x0133 || message == 0x0134 || message == 0x0135 || message
            == 0x0138,
        alone != PageMessage::Forward,
        message == 0x000f ==> placed == PageMessage::Paint && alone == PageMessage::Paint,
        message == 0x0014 ==> placed == PageMessage::KeepBackground && alone
            == PageMessage::KeepBackground,
{
}

/// The lower half of a command names the control, the upper half what happened
/// to it.
pub proof fn lemma_a_command_names_its_control(
    id: u32,
    notification: u32,
    page: Page,
    asked: ManagerCommand,
)
    requires
        id < 0x1_0000,
        notification < 0x1_0000,
        call_ensures(handle_command, ((id + 0x1_0000 * notification) as usize, page), asked),
    ensures
        asked == control_command(id as usize, notification as int, page),
{
}

} // verus!
