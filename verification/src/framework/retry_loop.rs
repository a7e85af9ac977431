//! The retry loop shared by every business: a success proceeds, a stop ends the loop,
//! and a retry runs the loop again while the retry budget lasts.

use vstd::prelude::*;

use crate::framework::state::{State, retry_if_possible, retry_step};

verus! {

/// What a loop does after a step returned a `State`.
pub enum Flow<T> {
    /// The step succeeded with this value; the loop goes on with it.
    Proceed(T),
    /// The step asked to retry and the budget allows it; the loop starts over.
    Again,
    /// The loop ends.
    Exit,
}

/// The retry counter of one loop, and its budget.
pub struct RetryLoop {
    retry: u8,
    max_retry: u8,
}

impl RetryLoop {
    #[verifier::type_invariant]
    spec fn counter_in_range(self) -> bool {
        &&& self.max_retry < u8::MAX
        &&& self.retry <= self.max_retry + 1
    }

    /// The retry budget: the maximum number of retries.
    pub closed spec fn max(self) -> u8 {
        self.max_retry
    }

    /// The retries performed so far.
    pub closed spec fn retries(self) -> u8 {
        self.retry
    }

    /// Whether the retry budget is spent, so that every further retry ends the loop.
    pub open spec fn exhausted(self) -> bool {
        self.retries() > self.max()
    }

    /// A loop that has not retried yet and may retry `max_retry` times. (A budget of
    /// `u8::MAX` would overflow the counter on the last refused retry.)
    pub fn new(max_retry: u8) -> (l: RetryLoop)
        requires
            max_retry < u8::MAX,
        ensures
            l.retries() == 0,
            l.max() == max_retry,
    {
        RetryLoop { retry: 0, max_retry }
    }

    /// The retries performed so far.
    pub fn retry_count(&self) -> (r: u8)
        ensures
            r == self.retries(),
    {
        self.retry
    }

    /// The retry budget.
    pub fn max_retry(&self) -> (r: u8)
        ensures
            r == self.max(),
    {
        self.max_retry
    }

    /// Decides what the loop does after a step returned `state`: a success proceeds
    /// with its value, a stop ends the loop, and a retry counts against the budget
    /// and runs the loop again unless the budget is spent.
    pub fn step<T>(&mut self, state: State<T>) -> (flow: Flow<T>)
        ensures
            match state {
                State::Success(v) => flow == Flow::Proceed(v) && final(self).retries() == old(self).retries(),
                State::Stop => flow is Exit && final(self).retries() == old(self).retries(),
                State::Retry => {
                    &&& old(self).exhausted() ==> flow is Exit && final(self).retries() == old(self).retries()
                    &&& !old(self).exhausted() ==> {
                        &&& final(self).retries() == retry_step(old(self).retries(), old(self).max()).0
                        &&& (flow is Again <==> retry_step(old(self).retries(), old(self).max()).1)
                        &&& (flow is Exit <==> !retry_step(old(self).retries(), old(self).max()).1)
                    }
                },
            },
            final(self).max() == old(self).max(),
    {
        proof {
            use_type_invariant(&*self);
        }
        match state {
            State::Success(v) => Flow::Proceed(v),
            State::Stop => Flow::Exit,
            State::Retry => {
                if self.retry > self.max_retry {
                    Flow::Exit
                } else {
                    let mut retry = self.retry;
                    match retry_if_possible(&mut retry, self.max_retry) {
                        Ok(()) => {
                            self.retry = retry;
                            Flow::Again
                        },
                        Err(()) => {
                            self.retry = retry;
                            Flow::Exit
                        },
                    }
                }
            },
        }
    }
}

} // verus!
