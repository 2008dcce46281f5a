//! Verified core of a hosts-file profile switcher.
//!
//! The library keeps an ordered list of named profiles, decides which of
//! them are active under a single- or multi-select policy, renders the
//! active ones together with a common block into one document, and can
//! serialize the whole state to a portable backup and restore it.  All
//! file and process I/O (reading and writing the hosts file, elevation,
//! persistence) lives outside this crate; the functions here are pure
//! state transitions and text producers with proved contracts.

use vstd::prelude::*;

pub mod backup;
pub mod codec;
pub mod hosts;
pub mod model;
pub mod render;
pub mod roundtrip;
pub mod selection;
pub mod store;

verus! {

/// The failure conditions of the library's operations.
#[derive(Debug)]
pub enum HostsError {
    /// No profile with the given id exists.
    NotFound,
    /// Another profile already holds the requested name.
    DuplicateName,
    /// An underlying storage failure, with the platform's message.
    IoError(String),
    /// The privileged write failed twice: directly and through elevation.
    /// Both failure texts are kept so neither is lost.
    ElevationFailed { direct: String, elevation: String },
    /// A persisted configuration or backup document is malformed.
    ParseError,
}

} // verus!
