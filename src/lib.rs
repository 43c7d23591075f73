//! Keeps the configuration of applications in step with the desktop's
//! dark/light appearance preference.
//!
//! The logic lives here and is verified: decoding the preference code that
//! the settings service publishes, choosing theme names, rewriting an editor's
//! theme directive, planning a terminal's theme link, and the sync engine that
//! decides, for each event from the settings service, what to apply.
//! Reaching the bus, the file system and other processes is left to callers.

pub mod editor;
pub mod engine;
pub mod preference;
pub mod terminal;
pub mod themes;

pub use editor::{apply_editor_theme, find_theme_directive, rewrite_theme_line};
pub use preference::{parse_theme_preference, preference_of_payload, ThemePreference};
pub use themes::ThemeTable;
pub use terminal::{plan_terminal_apply, settle_terminal_apply, ApplyError, TerminalPlan};
pub use engine::{is_watched, Action, Phase, SyncEngine, WatchError, WatchEvent};
