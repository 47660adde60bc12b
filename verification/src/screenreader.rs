//! The screen reader: its settings, voices and keys.
pub mod json;
pub mod orca;
pub mod settings;
pub mod values;

pub use self::orca::OrcaManager;
pub use self::values::{ScreenReaderAction, ScreenReaderMode};
