//! The messages of the resident window and what they ask for.

use crate::composition::PIPELINE_EVENT;
use crate::config_reload::CONFIG_RELOAD_MESSAGE;
use crate::hotkey::{CYCLE_PROFILES_ID, TOGGLE_HOVER_ID, TOGGLE_POPUP_ID};
use crate::mouse::WM_MOUSE_HOOK;
use crate::popups::PopupId;
use crate::resident::{ACK_READY, ACK_REFRESHED, ACK_REJECTED};
use vstd::prelude::*;

verus! {

pub const WM_DESTROY: u32 = 0x0002;

pub const WM_COMMAND: u32 = 0x0111;

pub const WM_TIMER: u32 = 0x0113;

pub const WM_HOTKEY: u32 = 0x0312;

pub const TRAY_CALLBACK: u32 = 0x8001;

pub const POPUP_DISMISSED: u32 = 0x800a;

pub const POPUP_RETRY: u32 = 0x800b;

pub const POPUP_PROMPT: u32 = 0x800c;

pub const POPUP_PROFILE_SELECTED: u32 = 0x800d;

pub const WM_FOREGROUND_CHANGED: u32 = 0x8015;

pub const CREDENTIAL_REFRESH_MESSAGE: u32 = 0x8021;

pub const CONFIG_REFRESH_MESSAGE: u32 = 0x8022;

pub const RESIDENT_PING_MESSAGE: u32 = 0x8023;

pub const OPEN_MANAGER_COMMAND: usize = 0x7201;

pub const TOGGLE_HOVER_COMMAND: usize = 0x7202;

pub const TOGGLE_REST_COMMAND: usize = 0x7203;

pub const EXIT_COMMAND: usize = 0x7204;

/// What a message asks for.
#[derive(Clone, Copy, Debug, PartialEq, Eq, Structural)]
pub enum ShellCommand {
    ShowTrayMenu { resting: bool },
    /// The popup's window is gone.
    RemovePopup(PopupId),
    /// Repeat the popup's request, with the next prompt if `cycle`.
    ReplayPopup { popup: PopupId, cycle: bool },
    ChooseProfile { popup: PopupId, index: usize },
    DrainPipeline,
    /// Take the mouse message and handle it.
    HandleMouse,
    /// Take the mouse message and drop it.
    DropMouse,
    HandleForeground { window: usize },
    DrainConfig,
    /// Answer at once.
    Reply(usize),
    /// Load the configuration again and answer.
    ReloadConfig,
    /// Build the provider again and answer.
    RefreshProvider,
    StopTimers,
    /// Handle the gestures that are due.
    TakeDue,
    OpenManager,
    ToggleHover,
    ToggleRest,
    ObserveManual,
    CyclePrompt,
    Quit,
    Nothing,
    /// Leave the message to the system.
    Default,
}

/// What a command of the tray menu asks for.
pub open spec fn tray_command(command: usize, has_state: bool, resting: bool) -> ShellCommand {
    if command == OPEN_MANAGER_COMMAND {
        ShellCommand::OpenManager
    } else if command == TOGGLE_HOVER_COMMAND && has_state && !resting {
        ShellCommand::ToggleHover
    } else if command == TOGGLE_REST_COMMAND && has_state {
        ShellCommand::ToggleRest
    } else if command == EXIT_COMMAND {
        ShellCommand::Quit
    } else {
        ShellCommand::Nothing
    }
}

/// What a hotkey asks for; nothing while the user rests.
pub open spec fn hotkey_command(id: int, resting: bool) -> ShellCommand {
    if resting {
        ShellCommand::Nothing
    } else if id == TOGGLE_POPUP_ID {
        ShellCommand::ObserveManual
    } else if id == TOGGLE_HOVER_ID {
        ShellCommand::ToggleHover
    } else if id == CYCLE_PROFILES_ID {
        ShellCommand::CyclePrompt
    } else {
        ShellCommand::Nothing
    }
}

/// What a message asks for. Before the state exists, and after it is gone,
/// only what does not need it is done.
pub open spec fn message_command(
    message: u32,
    wparam: usize,
    lparam: usize,
    has_state: bool,
    resting: bool,
) -> ShellCommand {
    if message == TRAY_CALLBACK {
        ShellCommand::ShowTrayMenu { resting: has_state && resting }
    } else if message == RESIDENT_PING_MESSAGE {
        ShellCommand::Reply(
            if has_state {
                ACK_READY
            } else {
                0
            },
        )
    } else if message == CONFIG_REFRESH_MESSAGE {
        if has_state {
            ShellCommand::ReloadConfig
        } else {
            ShellCommand::Reply(0)
        }
    } else if message == CREDENTIAL_REFRESH_MESSAGE {
        if has_state {
            ShellCommand::RefreshProvider
        } else {
            ShellCommand::Reply(0)
        }
    } else if message == WM_MOUSE_HOOK {
        if has_state {
            ShellCommand::HandleMouse
        } else {
            ShellCommand::DropMouse
        }
    } else if message == WM_COMMAND {
        tray_command((wparam % 0x1_0000) as usize, has_state, resting)
    } else if message == WM_HOTKEY {
        if has_state {
            hotkey_command(wparam as int % 0x1_0000_0000, resting)
        } else {
            ShellCommand::Default
        }
    } else if message == WM_DESTROY {
        ShellCommand::Quit
    } else if !is_state_message(message) {
        ShellCommand::Default
    } else if !has_state {
        ShellCommand::Nothing
    } else if message == POPUP_DISMISSED {
        ShellCommand::RemovePopup(lparam)
    } else if message == POPUP_RETRY {
        ShellCommand::ReplayPopup { popup: lparam, cycle: false }
    } else if message == POPUP_PROMPT {
        ShellCommand::ReplayPopup { popup: lparam, cycle: true }
    } else if message == POPUP_PROFILE_SELECTED {
        ShellCommand::ChooseProfile { popup: lparam, index: wparam }
    } else if message == PIPELINE_EVENT {
        ShellCommand::DrainPipeline
    } else if message == WM_FOREGROUND_CHANGED {
        ShellCommand::HandleForeground { window: wparam }
    } else if message == CONFIG_RELOAD_MESSAGE {
        ShellCommand::DrainConfig
    } else if resting {
        ShellCommand::StopTimers
    } else {
        ShellCommand::TakeDue
    }
}

/// The message is handled only while the state exists.
pub open spec fn is_state_message(message: u32) -> bool {
    message == POPUP_DISMISSED || message == POPUP_RETRY || message == POPUP_PROMPT || message
        == POPUP_PROFILE_SELECTED || message == PIPELINE_EVENT || message == WM_FOREGROUND_CHANGED
        || message == CONFIG_RELOAD_MESSAGE || message == WM_TIMER
}

/// What the window procedure does with a message.
pub fn decode_message(
    message: u32,
    wparam: usize,
    lparam: usize,
    has_state: bool,
    resting: bool,
) -> (command: ShellCommand)
    ensures
        command == message_command(message, wparam, lparam, has_state, resting),
{
    if message == TRAY_CALLBACK {
        return ShellCommand::ShowTrayMenu { resting: has_state && resting };
    }
    if message == RESIDENT_PING_MESSAGE {
        return ShellCommand::Reply(
            if has_state {
                ACK_READY
            } else {
                0
            },
        );
    }
    if message == CONFIG_REFRESH_MESSAGE {
        return if has_state {
            ShellCommand::ReloadConfig
        } else {
            ShellCommand::Reply(0)
        };
    }
    if message == CREDENTIAL_REFRESH_MESSAGE {
        return if has_state {
            ShellCommand::RefreshProvider
        } else {
            ShellCommand::Reply(0)
        };
    }
    if message == WM_MOUSE_HOOK {
        return if has_state {
            ShellCommand::HandleMouse
        } else {
            ShellCommand::DropMouse
        };
    }
    if message == WM_COMMAND {
        let selected: usize = wparam % 0x1_0000;
        return if selected == OPEN_MANAGER_COMMAND {
            ShellCommand::OpenManager
        } else if selected == TOGGLE_HOVER_COMMAND && has_state && !resting {
            ShellCommand::ToggleHover
        } else if selected == TOGGLE_REST_COMMAND && has_state {
            ShellCommand::ToggleRest
        } else if selected == EXIT_COMMAND {
            ShellCommand::Quit
        } else {
            ShellCommand::Nothing
        };
    }
    if message == WM_HOTKEY {
        if !has_state {
            return ShellCommand::Default;
        }
        if resting {
            return ShellCommand::Nothing;
        }
        let id: u64 = wparam as u64 % 0x1_0000_0000;
        return if id == TOGGLE_POPUP_ID as u64 {
            ShellCommand::ObserveManual
        } else if id == TOGGLE_HOVER_ID as u64 {
            ShellCommand::ToggleHover
        } else if id == CYCLE_PROFILES_ID as u64 {
            ShellCommand::CyclePrompt
        } else {
            ShellCommand::Nothing
        };
    }
    if message == WM_DESTROY {
        return ShellCommand::Quit;
    }
    let needs_state: bool = message == POPUP_DISMISSED || message == POPUP_RETRY || message
        == POPUP_PROMPT || message == POPUP_PROFILE_SELECTED || message == PIPELINE_EVENT || message
        == WM_FOREGROUND_CHANGED || message == CONFIG_RELOAD_MESSAGE || message == WM_TIMER;
    if !needs_state {
        return ShellCommand::Default;
    }
    if !has_state {
        return ShellCommand::Nothing;
    }
    if message == POPUP_DISMISSED {
        ShellCommand::RemovePopup(lparam)
    } else if message == POPUP_RETRY {
        ShellCommand::ReplayPopup { popup: lparam, cycle: false }
    } else if message == POPUP_PROMPT {
        ShellCommand::ReplayPopup { popup: lparam, cycle: true }
    } else if message == POPUP_PROFILE_SELECTED {
        ShellCommand::ChooseProfile { popup: lparam, index: wparam }
    } else if message == PIPELINE_EVENT {
        ShellCommand::DrainPipeline
    } else if message == WM_FOREGROUND_CHANGED {
        ShellCommand::HandleForeground { window: wparam }
    } else if message == CONFIG_RELOAD_MESSAGE {
        ShellCommand::DrainConfig
    } else if resting {
        ShellCommand::StopTimers
    } else {
        ShellCommand::TakeDue
    }
}

/// The answer to a request to load the configuration again.
pub fn reload_reply(reloaded: bool) -> (reply: usize)
    ensures
        reply == if reloaded {
            ACK_REFRESHED
        } else {
            ACK_REJECTED
        },
{
    if reloaded {
        ACK_REFRESHED
    } else {
        ACK_REJECTED
    }
}

/// While the user rests, no message starts a translation: hotkeys and timers do
/// nothing, and only rest mode itself can be switched off.
pub proof fn lemma_rest_mode_starts_nothing(
    message: u32,
    wparam: usize,
    lparam: usize,
    has_state: bool,
)
    ensures
        ({
            let command = message_command(message, wparam, lparam, has_state, true);
            command != ShellCommand::ObserveManual && command != ShellCommand::TakeDue && command
                != ShellCommand::ToggleHover && command != ShellCommand::CyclePrompt
        }),
{
}

/// Without its state the window does nothing that needs it.
pub proof fn lemma_stateless_window_is_passive(
    message: u32,
    wparam: usize,
    lparam: usize,
    resting: bool,
)
    ensures
        ({
            let command = message_command(message, wparam, lparam, false, resting);
            ||| command is ShowTrayMenu
            ||| command is Reply
            ||| command == ShellCommand::DropMouse
            ||| command == ShellCommand::OpenManager
            ||| command == ShellCommand::Quit
            ||| command == ShellCommand::Nothing
            ||| command == ShellCommand::Default
        }),
{
}

/// Every message does what it is for in a resident that is not resting: its
/// popup or entry is the one that the message names.
pub proof fn lemma_what_a_message_does(wparam: usize, lparam: usize, resting: bool)
    ensures
        message_command(0x800a, wparam, lparam, true, resting) == ShellCommand::RemovePopup(lparam),
        message_command(0x800b, wparam, lparam, true, resting) == (ShellCommand::ReplayPopup {
            popup: lparam,
            cycle: false,
        }),
        message_command(0x800c, wparam, lparam, true, resting) == (ShellCommand::ReplayPopup {
            popup: lparam,
            cycle: true,
        }),
        message_command(0x800d, wparam, lparam, true, resting) == (ShellCommand::ChooseProfile {
            popup: lparam,
            index: wparam,
        }),
        message_command(0x8001, wparam, lparam, true, resting) == (ShellCommand::ShowTrayMenu {
            resting,
        }),
        message_command(0x8014, wparam, lparam, true, resting) == ShellCommand::HandleMouse,
        message_command(0x8014, wparam, lparam, false, resting) == ShellCommand::DropMouse,
        message_command(0x8015, wparam, lparam, true, resting) == (ShellCommand::HandleForeground {
            window: wparam,
        }),
        message_command(0x8020, wparam, lparam, true, resting) == ShellCommand::DrainConfig,
        message_command(0x8021, wparam, lparam, true, resting) == ShellCommand::RefreshProvider,
        message_command(0x8022, wparam, lparam, true, resting) == ShellCommand::ReloadConfig,
        message_command(0x8023, wparam, lparam, true, resting) == ShellCommand::Reply(0x5354_5201),
        message_command(0x8023, wparam, lparam, false, resting) == ShellCommand::Reply(0),
        message_command(0x0113, wparam, lparam, true, false) == ShellCommand::TakeDue,
        message_command(0x0113, wparam, lparam, true, true) == ShellCommand::StopTimers,
        message_command(0x0002, wparam, lparam, true, resting) == ShellCommand::Quit,
        message_command(0x000f, wparam, lparam, true, resting) == ShellCommand::Default,
{
}

/// A hotkey and an entry of the tray menu do what they stand for; while the
/// user rests only resting can be ended, the manager opened and the resident
/// left.
pub proof fn lemma_what_a_command_does(lparam: usize, resting: bool)
    ensures
        message_command(0x0312, 0x7102, lparam, true, false) == ShellCommand::ObserveManual,
        message_command(0x0312, 0x7101, lparam, true, false) == ShellCommand::ToggleHover,
        message_command(0x0312, 0x7103, lparam, true, false) == ShellCommand::CyclePrompt,
        message_command(0x0312, 0x7102, lparam, true, true) == ShellCommand::Nothing,
        message_command(0x0111, 0x7201, lparam, true, resting) == ShellCommand::OpenManager,
        message_command(0x0111, 0x7202, lparam, true, false) == ShellCommand::ToggleHover,
        message_command(0x0111, 0x7202, lparam, true, true) == ShellCommand::Nothing,
        message_command(0x0111, 0x7203, lparam, true, resting) == ShellCommand::ToggleRest,
        message_command(0x0111, 0x7204, lparam, true, resting) == ShellCommand::Quit,
{
}

/// What came of reloading is answered.
pub proof fn lemma_reloading_is_answered(reloaded: bool, reply: usize)
    requires
        call_ensures(reload_reply, (reloaded,), reply),
    ensures
        reloaded ==> reply == 0x5354_5202,
        !reloaded ==> reply == 0x5354_52ff,
{
}

/// A message is decoded into the command that it stands for.
pub proof fn lemma_a_message_is_decoded_by_the_rules(
    message: u32,
    wparam: usize,
    lparam: usize,
    has_state: bool,
    resting: bool,
    command: ShellCommand,
)
    requires
        call_ensures(decode_message, (message, wparam, lparam, has_state, resting), command),
    ensures
        command == message_command(message, wparam, lparam, has_state, resting),
{
}

} // verus!
