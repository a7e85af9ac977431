//! The deployment framework: control-flow states, composable transactions and the
//! queued runner that always favours the latest business.

pub mod fetch_artifact;
pub mod queued_async;
pub mod retry_loop;
pub mod state;
pub mod transaction;

pub use state::{State, retry_if_possible, DEFAULT_MAX_RETRY};

use vstd::prelude::*;

verus! {

/// A context that a transaction runs in.
pub trait FrameworkContext {
    /// The text that describes the payload in messages.
    fn payload_display(&self) -> &str;
}

} // verus!
