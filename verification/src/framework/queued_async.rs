//! A framework that loops transactions until the max retry times is reached, or a stop
//! signal is received, or a value is returned.
//!
//! The framework ensures that the latest business is always executed: each business of
//! an id takes the next index of that id's holder, and an ongoing business checks
//! itself against the holder's latest index so that it stops once a newer business has
//! arrived. The holder's index returns to zero when a business succeeds.

use vstd::prelude::*;

use crate::framework::FrameworkContext;
use crate::framework::retry_loop::{Flow, RetryLoop};
use crate::framework::state::{retry_step, State};

verus! {

/// The index that `register` hands out, and the holder's latest index after it: the
/// index counts up and wraps around at the end of `u8`.
pub open spec fn spec_register(latest: u8) -> (u8, u8) {
    (latest, if latest == u8::MAX { 0u8 } else { (latest + 1) as u8 })
}

/// Whether a business with `index` falls behind the holder's `latest` index, i.e. a
/// newer business of the same id has arrived since it registered. A holder whose index
/// was reset to zero by a success holds no newer business: its latest index is zero.
pub open spec fn falls_behind(index: u8, latest: u8) -> bool {
    index + 1 < latest
}

/// What `check` yields: stop when a newer business has arrived, go on otherwise.
pub open spec fn spec_check(index: u8, latest: u8) -> State<()> {
    if falls_behind(index, latest) {
        State::Stop
    } else {
        State::Success(())
    }
}

/// The counter that the businesses of one id share.
pub struct BusinessHolder {
    latest_payload_index: u8,
}

impl BusinessHolder {
    /// The index of the latest business of the id.
    pub closed spec fn latest(self) -> u8 {
        self.latest_payload_index
    }

    /// A holder that no business has registered with yet.
    pub fn new() -> (h: BusinessHolder)
        ensures
            h.latest() == 0,
    {
        BusinessHolder { latest_payload_index: 0 }
    }

    /// The index of the latest business of the id.
    pub fn latest_payload_index(&self) -> (r: u8)
        ensures
            r == self.latest(),
    {
        self.latest_payload_index
    }

    /// Registers a new business and returns its index.
    pub fn register(&mut self) -> (index: u8)
        ensures
            (index, final(self).latest()) == spec_register(old(self).latest()),
    {
        let index = self.latest_payload_index;
        self.latest_payload_index = self.latest_payload_index.wrapping_add(1);
        index
    }

    /// Resets the index once a business has succeeded.
    pub fn reset(&mut self)
        ensures
            final(self).latest() == 0,
    {
        self.latest_payload_index = 0;
    }
}

/// The context of one business.
pub struct QueuedAsyncFrameworkContext {
    /// The index of the business among those of its id.
    pub index: u8,
    /// The text that describes the payload in messages.
    pub payload_display: String,
}

impl QueuedAsyncFrameworkContext {
    /// Checks the business against the holder's latest index: `State::Stop` once a
    /// newer business of the same id has arrived, `State::Success(())` otherwise.
    pub fn check(&self, latest_payload_index: u8) -> (r: State<()>)
        ensures
            r == spec_check(self.index, latest_payload_index),
            r is Stop <==> self.index as int + 1 < latest_payload_index as int,
            r is Success <==> self.index as int + 1 >= latest_payload_index as int,
    {
        if latest_payload_index >= 1 && self.index < latest_payload_index - 1 {
            State::Stop
        } else {
            State::Success(())
        }
    }
}

impl FrameworkContext for QueuedAsyncFrameworkContext {
    fn payload_display(&self) -> (r: &str)
        ensures
            r@ == self.payload_display@,
    {
        self.payload_display.as_str()
    }
}

/// What the runner of a business does next.
#[derive(Debug, PartialEq, Eq)]
pub enum Action {
    /// Check the business against the latest index of its id.
    Check,
    /// Run the transaction once.
    Transact,
    /// End the business.
    Finish,
}

/// The holder's latest index after a business's transaction returned `outcome`: a
/// success resets it to zero, any other outcome leaves it.
pub open spec fn spec_after_outcome(latest: u8, outcome: State<()>) -> u8 {
    if outcome is Success {
        0
    } else {
        latest
    }
}

/// The decisions of the loop that runs one business.
pub struct Runner {
    retries: RetryLoop,
}

impl Runner {
    /// The retries performed so far.
    pub closed spec fn retries(self) -> u8 {
        self.retries.retries()
    }

    /// The retry budget of the business.
    pub closed spec fn max_retry(self) -> u8 {
        self.retries.max()
    }

    /// A runner that starts with a check, has not retried yet and may retry
    /// `max_retry` times.
    pub fn new(max_retry: u8) -> (r: Runner)
        requires
            max_retry < u8::MAX,
        ensures
            r.retries() == 0,
            r.max_retry() == max_retry,
    {
        Runner { retries: RetryLoop::new(max_retry) }
    }

    /// The retries performed so far.
    pub fn retry_count(&self) -> (r: u8)
        ensures
            r == self.retries(),
    {
        self.retries.retry_count()
    }

    /// Decides the next action after a check: run the transaction when the business is
    /// still the latest, check again on a retry, finish on a stop.
    pub fn after_check(&self, checked: State<()>) -> (a: Action)
        ensures
            a == match checked {
                State::Success(_) => Action::Transact,
                State::Retry => Action::Check,
                State::Stop => Action::Finish,
            },
    {
        match checked {
            State::Success(_) => Action::Transact,
            State::Retry => Action::Check,
            State::Stop => Action::Finish,
        }
    }

    /// Decides the next action after the transaction returned `outcome`: a success
    /// resets the holder's index and finishes, a stop finishes, and a retry checks
    /// again while the retry budget lasts.
    pub fn after_transaction(&mut self, outcome: State<()>, holder: &mut BusinessHolder) -> (a: Action)
        ensures
            final(holder).latest() == spec_after_outcome(old(holder).latest(), outcome),
            outcome is Success ==> a == Action::Finish && final(holder).latest() == 0
                && final(self).retries() == old(self).retries(),
            outcome is Stop ==> a == Action::Finish && *final(holder) == *old(holder)
                && final(self).retries() == old(self).retries(),
            final(self).max_retry() == old(self).max_retry(),
            outcome is Retry ==> {
                &&& *final(holder) == *old(holder)
                &&& a != Action::Transact
                &&& (a == Action::Check <==> old(self).retries() <= old(self).max_retry()
                    && retry_step(old(self).retries(), old(self).max_retry()).1)
                &&& old(self).retries() <= old(self).max_retry() ==> final(self).retries()
                    == retry_step(old(self).retries(), old(self).max_retry()).0
                &&& old(self).retries() > old(self).max_retry() ==> final(self).retries()
                    == old(self).retries()
            },
    {
        match self.retries.step(outcome) {
            Flow::Proceed(()) => {
                holder.reset();
                Action::Finish
            },
            Flow::Again => Action::Check,
            Flow::Exit => Action::Finish,
        }
    }
}

/// The latest business always goes on and an older one stops: when two businesses
/// register with the same holder one after the other (without the index wrapping
/// around), the first one's check stops and the second one's check succeeds.
pub proof fn lemma_latest_business_wins(latest: u8)
    requires
        latest < u8::MAX - 1,
    ensures
        ({
            let (first, after_first) = spec_register(latest);
            let (second, after_second) = spec_register(after_first);
            &&& spec_check(first, after_second) == State::<()>::Stop
            &&& spec_check(second, after_second) == State::Success(())
        }),
{
}

/// The latest business is executed whatever the older one's transaction returned: when
/// two businesses register with the same holder one after the other and the first
/// one's transaction then returns `outcome`, the second one's check succeeds; and
/// unless that outcome is a success (which resets the index) or the index wraps
/// around, the first one's next check stops.
pub proof fn lemma_newer_business_runs(latest: u8, outcome: State<()>)
    ensures
        ({
            let (first, after_first) = spec_register(latest);
            let (second, after_second) = spec_register(after_first);
            let after = spec_after_outcome(after_second, outcome);
            &&& spec_check(second, after) == State::Success(())
            &&& !(outcome is Success) && latest < u8::MAX - 1 ==> spec_check(first, after)
                == State::<()>::Stop
        }),
{
}

/// A business that is the last to register with its holder goes on: registering with
/// a holder and checking right away succeeds, also when the index wraps around.
pub proof fn lemma_single_business_runs(latest: u8)
    ensures
        spec_check(spec_register(latest).0, spec_register(latest).1) == State::Success(()),
{
}

/// The holder's latest index after `k` registrations, starting from a fresh or reset
/// holder.
pub open spec fn latest_after_registrations(k: nat) -> u8
    decreases k,
{
    if k == 0 {
        0
    } else {
        spec_register(latest_after_registrations((k - 1) as nat)).1
    }
}

/// The indices that registrations hand out: starting from a fresh or reset holder, the
/// `k`-th registration (counting from one) gets the index `(k - 1) % 256`, and the
/// holder's latest index after it is `k % 256`.
pub proof fn lemma_registration_indices(k: nat)
    requires
        k >= 1,
    ensures
        spec_register(latest_after_registrations((k - 1) as nat)).0 == (k - 1) % 256,
        latest_after_registrations(k) == k % 256,
    decreases k,
{
    if k > 1 {
        lemma_registration_indices((k - 1) as nat);
    }
}

} // verus!
