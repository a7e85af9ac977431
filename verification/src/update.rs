//! Requests that update the server itself.

use vstd::prelude::*;

verus! {

/// The payload of a request that updates the server from a new image.
#[derive(Debug, Clone)]
pub struct PostPayload {
    pub image: String,
}

/// The payload of a request that updates the server from the artifact of a workflow
/// run.
#[derive(Debug, Clone)]
pub struct Payload {
    /// The run id of the GitHub workflow.
    pub run_id: String,
}

} // verus!
