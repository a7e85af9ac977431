//! The transaction step that fetches the only artifact of a workflow run and passes a
//! value through alongside it.

use vstd::prelude::*;

use crate::framework::state::State;
use crate::workflow::Artifact;

verus! {

/// The input of the step: the value passed through, and the run whose artifact is
/// fetched.
pub struct Input<V> {
    pub passthrough: V,
    pub run_id: String,
}

/// The output of the step: the value passed through, and the fetched artifact.
pub struct Output<V> {
    pub passthrough: V,
    pub artifact: Artifact,
}

/// Completes the step once the artifact of the run was fetched: a fetched artifact is
/// paired with the value passed through, and a retry or a stop is passed on.
pub fn run<V>(passthrough: V, fetched: State<Artifact>) -> (r: State<Output<V>>)
    ensures
        match fetched {
            State::Success(a) => r matches State::Success(o) && o.passthrough == passthrough && o.artifact == a,
            State::Retry => r is Retry,
            State::Stop => r is Stop,
        },
{
    match fetched {
        State::Success(artifact) => State::Success(Output { passthrough, artifact }),
        State::Retry => State::Retry,
        State::Stop => State::Stop,
    }
}

} // verus!
