//! Metadata exchanged with the remote platform when commands and the
//! callback URL are registered at startup: plain data, carried by the
//! administrative client around the core.

use vstd::prelude::*;

verus! {

/// One command as registered with the remote platform.
pub struct Command {
    pub name: &'static str,
    pub description: &'static str,
}

/// The application record the remote platform describes itself with: its
/// identifier and the hex form of the verifying key.
pub struct Application {
    pub id: String,
    pub verify_key: String,
}

} // verus!
