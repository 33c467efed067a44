//! The ways in which operations of this library can fail.
use vstd::prelude::*;

use crate::Xid;

verus! {

/// Why an operation failed.
#[derive(Debug)]
pub enum Error {
    /// A serialised state was inconsistent with what is known now.
    HydrationState(String),
    /// Serialised client ids that the display server does not know.
    MissingClientIds(Vec<Xid>),
    /// Window hints received from the display server were invalid.
    InvalidHints(String),
    /// No element matched the given predicate.
    NoMatchingElement,
    /// A generic error for use in user code.
    Raw(String),
    /// Spawning an external process failed.
    SpawnProc(String),
    /// An operation named a client that is not known.
    UnknownClient(Xid),
    /// A key binding named an unknown modifier key.
    UnknownModifier(String),
    /// A region was to be split at `at`, past its extent `extent`.
    SplitOutOfBounds { at: u32, extent: u32 },
}

} // verus!
