//! A process supervisor for a single local nginx instance: the lifecycle
//! decisions (start, stop, reload, configuration test), the name-based
//! process probe, the parsers for the status page and the OS counter
//! queries, uptime derivation, log tailing and filtering, and the assembly
//! of the aggregate status snapshot.
//!
//! Everything here is pure with respect to the outside world: blocking OS
//! work (process spawning, file and network reads) is done by the embedding
//! program, which hands the outcomes in as plain values and mirrors the
//! decisions back out. The two exceptions, reading the local clock and
//! decoding ASCII bytes into a string, are trusted wrappers with stated
//! contracts.

use vstd::prelude::*;

pub mod bytes;
pub mod clock;
pub mod config_files;
pub mod install;
pub mod lifecycle;
pub mod logs;
pub mod metrics;
pub mod projects;
pub mod settings;
pub mod snapshot;

verus! {

/// A user-facing error carrying a short human-readable message.
pub struct AppError {
    message: String,
}

impl AppError {
    /// The message this error was created with, as a sequence of characters.
    pub closed spec fn text(&self) -> Seq<char> {
        self.message@
    }

    pub fn new(message: &str) -> (r: Self)
        ensures
            r.text() == message@,
    {
        AppError { message: message.to_owned() }
    }

    /// The stored message, for display by callers.
    pub fn message(&self) -> (r: &str)
        ensures
            r@ == self.text(),
    {
        self.message.as_str()
    }
}

} // verus!
