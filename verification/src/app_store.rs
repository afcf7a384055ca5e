//! Persistent key-value settings (`settings.json` in the app config directory).
//!
//! Reading and writing the file happens around this module; it decides what a
//! read means for the caller.

use vstd::prelude::*;

verus! {

/// Name of the settings file in the app config directory.
pub const STORE_FILE: &'static str = "settings.json";

/// Persistent key-value settings backed by the settings file. Every mutation is
/// flushed to disk immediately: the main window only hides on close and the app
/// exits via the tray menu, so nothing relies on save-on-exit.
pub struct AppStore;

/// What a settings entry holds, as far as string settings care: a JSON string,
/// or any other JSON value.
#[derive(Debug)]
pub enum StoredValue {
    Text(String),
    Other,
}

/// What reading a string setting leads to.
#[derive(Debug)]
pub enum InitStep {
    /// The entry holds this string: use it.
    UseStored(String),
    /// The entry is missing or not a string: produce the default, persist it, use it.
    StoreDefault,
}

impl AppStore {
    /// Read a string value or fall back to a default, persisting the default on
    /// first use: decides between the two from what the entry holds.
    pub fn init_step(current: Option<StoredValue>) -> (res: InitStep)
        ensures
            current matches Some(StoredValue::Text(s)) ==> (res matches InitStep::UseStored(t)
                && t@ == s@),
            !(current matches Some(StoredValue::Text(_))) ==> res is StoreDefault,
    {
        match current {
            Some(StoredValue::Text(value)) => InitStep::UseStored(value),
            _ => InitStep::StoreDefault,
        }
    }
}

} // verus!
