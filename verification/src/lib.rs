//! The decision logic of a selection translator: what the mouse, the hotkeys,
//! the clipboard and the screen mean, which extraction runs next, which popup
//! a result belongs to, and what the settings window shows.

pub mod capture;
pub mod clipboard;
pub mod composition;
pub mod config_reload;
pub mod credentials;
pub mod extraction;
pub mod geometry;
pub mod history_writer;
pub mod hotkey;
pub mod manager;
pub mod manager_commands;
pub mod manager_controls;
pub mod manager_history;
pub mod manager_language;
pub mod manager_layout;
pub mod manager_prompts;
pub mod manager_status;
pub mod manager_text;
pub mod messages;
pub mod mouse;
pub mod native_run;
pub mod native_selection;
pub mod ocr;
pub mod ocr_run;
pub mod ocr_text;
pub mod popups;
pub mod provider;
pub mod resident;
pub mod settings;
pub mod shell;
pub mod shell_admission;
pub mod shell_config;
pub mod shell_input;
pub mod shell_request;
pub mod shell_surface;
pub mod shutdown;
pub mod text;
pub mod utf16;
pub mod win32;
