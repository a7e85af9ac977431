//! A state that controls the flow of data, and the retry budget shared by all loops.

use vstd::prelude::*;

verus! {

/// The retry budget used where none is configured: the maximum number of retries a
/// loop may perform before it gives up.
pub const DEFAULT_MAX_RETRY: u8 = 5;

/// A state that controls the flow of data.
#[derive(Debug, PartialEq, Eq)]
pub enum State<T> {
    /// The control flow should exit with a value.
    Success(T),
    /// The control flow should retry if possible.
    Retry,
    /// The control flow should exit immediately.
    Stop,
}

/// What `replace` yields: `other` when `s` is a success, `s` otherwise.
pub open spec fn spec_replace<T>(s: State<T>, other: State<T>) -> State<T> {
    match s {
        State::Success(_) => other,
        State::Retry => State::Retry,
        State::Stop => State::Stop,
    }
}

/// `s` with a success's value mapped by `g`; a retry or a stop stays as it is.
pub open spec fn spec_map<T, U>(s: State<T>, g: spec_fn(T) -> U) -> State<U> {
    match s {
        State::Success(v) => State::Success(g(v)),
        State::Retry => State::Retry,
        State::Stop => State::Stop,
    }
}

/// What `map` returns for `s` and the closure `f`: a success's value becomes a value
/// that `f` may return for it; a retry or a stop stays as it is.
pub open spec fn map_yields<T, R, F: FnOnce(T) -> R>(s: State<T>, f: F, r: State<R>) -> bool {
    match s {
        State::Success(v) => r matches State::Success(w) && call_ensures(f, (v,), w),
        State::Retry => r is Retry,
        State::Stop => r is Stop,
    }
}

impl<T> State<T> {
    /// Maps the value if `self` is `State::Success`.
    pub fn map<F, R>(self, f: F) -> (r: State<R>)
        where
            F: FnOnce(T) -> R,
        requires
            self matches State::Success(v) ==> call_requires(f, (v,)),
        ensures
            map_yields(self, f, r),
    {
        match self {
            State::Success(value) => State::Success(f(value)),
            State::Retry => State::Retry,
            State::Stop => State::Stop,
        }
    }

    /// Replaces `self` with a same-typed `State` if `self` is `State::Success`.
    pub fn replace(self, state: Self) -> (r: Self)
        ensures
            r == spec_replace(self, state),
            self is Success ==> r == state,
            self is Retry ==> r is Retry,
            self is Stop ==> r is Stop,
    {
        match self {
            State::Success(_) => state,
            State::Retry => State::Retry,
            State::Stop => State::Stop,
        }
    }
}

/// `map` with a closure that returns `g` of its argument gives `spec_map` with `g`.
pub proof fn lemma_map_follows<T, R, F: FnOnce(T) -> R>(s: State<T>, f: F, g: spec_fn(T) -> R, r: State<R>)
    requires
        map_yields(s, f, r),
        forall|v: T, w: R| #[trigger] call_ensures(f, (v,), w) ==> w == g(v),
    ensures
        r == spec_map(s, g),
{
}

/// Mapping by the identity leaves a state as it is.
pub proof fn lemma_map_identity<T>(s: State<T>)
    ensures
        spec_map(s, |v: T| v) == s,
{
}

/// Mapping by `f` and then by `g` is mapping by `g` after `f`; the variant never
/// changes.
pub proof fn lemma_map_composition<T, U, W>(s: State<T>, f: spec_fn(T) -> U, g: spec_fn(U) -> W)
    ensures
        spec_map(spec_map(s, f), g) == spec_map(s, |v: T| g(f(v))),
        spec_map(s, f) is Success <==> s is Success,
        spec_map(s, f) is Retry <==> s is Retry,
{
}

/// Replacing a state by a success with `x` is mapping it to the constant `x`.
pub proof fn lemma_replace_success_is_map<T>(s: State<T>, x: T)
    ensures
        spec_replace(s, State::Success(x)) == spec_map(s, |v: T| x),
{
}

/// Replacing a success gives exactly the replacement, whatever it is (a success, a
/// retry or a stop); replacing a retry or a stop leaves it as it is.
pub proof fn lemma_replace_success_gives_replacement<T>(v: T, t: State<T>, s: State<T>)
    ensures
        spec_replace(State::Success(v), t) == t,
        spec_replace(State::Success(v), State::<T>::Retry) is Retry,
        spec_replace(State::Success(v), State::<T>::Stop) is Stop,
        !(s is Success) ==> spec_replace(s, t) == s,
{
}

/// `replace` is associative.
pub proof fn lemma_replace_associative<T>(s: State<T>, t: State<T>, u: State<T>)
    ensures
        spec_replace(spec_replace(s, t), u) == spec_replace(s, spec_replace(t, u)),
{
}

/// The counter after one more attempt, and whether that attempt is still allowed
/// under the budget `max_retry`.
pub open spec fn retry_step(retry: u8, max_retry: u8) -> (u8, bool) {
    ((retry + 1) as u8, retry + 1 <= max_retry)
}

/// Decides whether retrying is allowed based on the retries performed so far and the
/// budget `max_retry`: the counter is incremented, and `Err(())` is returned once it
/// exceeds `max_retry`.
pub fn retry_if_possible(retry: &mut u8, max_retry: u8) -> (r: Result<(), ()>)
    requires
        *old(retry) < u8::MAX,
    ensures
        *final(retry) == retry_step(*old(retry), max_retry).0,
        r is Ok <==> retry_step(*old(retry), max_retry).1,
{
    *retry = *retry + 1;
    if *retry > max_retry {
        Err(())
    } else {
        Ok(())
    }
}

/// The retry counter after `n` attempts starting from zero.
pub open spec fn retries_after(n: nat, max_retry: u8) -> u8
    decreases n,
{
    if n == 0 {
        0
    } else {
        retry_step(retries_after((n - 1) as nat, max_retry), max_retry).0
    }
}

/// The retry budget: starting from a fresh counter, the `n`-th of up to 255 attempts
/// (counting from one) can be made, is allowed exactly when `n <= max_retry`, and
/// leaves the counter at `n`; so a loop that retries on every allowed attempt performs
/// at most `max_retry` retries.
pub proof fn lemma_retry_budget(n: nat, max_retry: u8)
    requires
        1 <= n <= 255,
    ensures
        retries_after((n - 1) as nat, max_retry) < u8::MAX,
        retry_step(retries_after((n - 1) as nat, max_retry), max_retry).1 <==> n <= max_retry,
        retries_after(n, max_retry) == n,
    decreases n,
{
    if n > 1 {
        lemma_retry_budget((n - 1) as nat, max_retry);
    }
}

/// Once an attempt is refused, every later attempt is refused as well.
pub proof fn lemma_retry_refusal_is_final(retry: u8, max_retry: u8)
    requires
        retry < u8::MAX,
        !retry_step(retry, max_retry).1,
    ensures
        retry_step(retry, max_retry).0 < u8::MAX ==> !retry_step(retry_step(retry, max_retry).0, max_retry).1,
{
}

} // verus!
