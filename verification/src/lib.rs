//! Taskbar grouping control: the rules by which the AppUserModelID of a window is
//! rewritten, so that the taskbar gives it a button of its own or puts it into a shared
//! one, and by which the rewriting is undone.
//!
//! Everything here is a function of plain values. What reads or changes the system
//! (windows, files, the registry) is left to the caller: the state machines of
//! `session`, `winevent`, `restore` and `menu` name what is to be done next and are told
//! what came of it.

pub mod appid;
pub mod autostart;
pub mod cli;
pub mod health;
pub mod inspect;
pub mod l10n;
pub mod menu;
pub mod num;
pub mod pump;
pub mod restore;
pub mod restoremap;
pub mod ringlog;
pub mod session;
pub mod shortcut;
pub mod singleinstance;
pub mod text;
pub mod utf16;
pub mod watchlog;
pub mod winevent;
pub mod winutil;
