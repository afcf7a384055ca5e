//! Verified core of the Nila desktop app: secret encryption at rest,
//! model-connection validation and update planning, migration bookkeeping,
//! settings-store decisions and small text utilities.

use crate::crypto::Crypto;
use vstd::prelude::*;
use vstd::string::*;

pub mod app_store;
pub mod crypto;
pub mod database;
pub mod error;
pub mod primitives;
pub mod system_tray;
pub mod text;

verus! {

/// State shared by the app's commands.
pub struct AppState {
    pub crypto: Crypto,
}

/// The greeting the front end's demo command shows.
pub open spec fn greeting(name: Seq<char>) -> Seq<char> {
    "Hello, "@ + name + "! You've been greeted from Rust with hot reload!"@
}

/// Greets `name`.
pub fn greet(name: &str) -> (res: String)
    ensures
        res@ == greeting(name@),
{
    let mut out = String::from_str("Hello, ");
    out.append(name);
    out.append("! You've been greeted from Rust with hot reload!");
    out
}

} // verus!
