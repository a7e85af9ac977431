//! What the server does when it shuts down.

use vstd::prelude::*;

verus! {

/// The action to perform when shutting down the server.
#[derive(Debug, Clone)]
pub enum ShutdownAction {
    /// Gracefully stops the server.
    Stop,
    /// Restarts the server in place.
    Restart,
    /// Updates the server from a new binary.
    Update {
        /// The path to the new binary.
        binary_path: String,
    },
}

impl ShutdownAction {
    /// The update from the `api` binary that was extracted into `dir`.
    pub fn update_from(dir: &str) -> (a: ShutdownAction)
        ensures
            a matches ShutdownAction::Update { binary_path } && binary_path@ == dir@ + "/api"@,
    {
        let mut binary_path = String::from_str(dir);
        binary_path.append("/api");
        ShutdownAction::Update { binary_path }
    }
}

} // verus!
