//! Transactions: single-use computations from a payload to a result, composed step by
//! step. A transaction over `State` results skips its later steps once a step asks to
//! retry or to stop.

use vstd::prelude::*;

use core::marker::PhantomData;

use crate::framework::state::State;

verus! {

/// A single-use computation from a payload of type `V` to a result of type `R`. Which
/// payloads it accepts and which results it may yield are stated as relations, so that
/// the closures it is built from may be nondeterministic.
pub trait Runnable<V, R>: Sized {
    /// The payloads on which the computation may run.
    spec fn accepts(&self, payload: V) -> bool;

    /// The results that the computation may yield on a payload.
    spec fn yields(&self, payload: V, output: R) -> bool;

    /// Runs the computation.
    fn call(self, payload: V) -> (output: R)
        requires
            self.accepts(payload),
        ensures
            self.yields(payload, output),
    ;
}

/// A step made of one closure.
pub struct Op<F> {
    op: F,
}

impl<V, R, F: FnOnce(V) -> R> Runnable<V, R> for Op<F> {
    closed spec fn accepts(&self, payload: V) -> bool {
        call_requires(self.op, (payload,))
    }

    closed spec fn yields(&self, payload: V, output: R) -> bool {
        call_ensures(self.op, (payload,), output)
    }

    fn call(self, payload: V) -> (output: R) {
        (self.op)(payload)
    }
}

/// Two computations run one after the other, the result `M` of the first being the
/// payload of the second.
pub struct Chain<A, B, M> {
    first: A,
    second: B,
    middle: PhantomData<M>,
}

impl<V, M, R, A: Runnable<V, M>, B: Runnable<M, R>> Runnable<V, R> for Chain<A, B, M> {
    closed spec fn accepts(&self, payload: V) -> bool {
        &&& self.first.accepts(payload)
        &&& forall|m: M| #[trigger] self.first.yields(payload, m) ==> self.second.accepts(m)
    }

    closed spec fn yields(&self, payload: V, output: R) -> bool {
        exists|m: M| #[trigger] self.first.yields(payload, m) && self.second.yields(m, output)
    }

    fn call(self, payload: V) -> (output: R) {
        let m = self.first.call(payload);
        self.second.call(m)
    }
}

/// A computation over `State` followed by a second one that only runs on a success.
pub struct OnSuccess<A, B, M> {
    first: A,
    second: B,
    middle: PhantomData<M>,
}

impl<V, M, N, A, B> Runnable<V, State<N>> for OnSuccess<A, B, M> where
    A: Runnable<V, State<M>>,
    B: Runnable<M, State<N>>,
 {
    closed spec fn accepts(&self, payload: V) -> bool {
        &&& self.first.accepts(payload)
        &&& forall|m: M| #[trigger] self.first.yields(payload, State::Success(m)) ==> self.second.accepts(m)
    }

    closed spec fn yields(&self, payload: V, output: State<N>) -> bool {
        ||| exists|m: M| #[trigger] self.first.yields(payload, State::Success(m)) && self.second.yields(m, output)
        ||| (self.first.yields(payload, State::Retry) && output is Retry)
        ||| (self.first.yields(payload, State::Stop) && output is Stop)
    }

    fn call(self, payload: V) -> (output: State<N>) {
        match self.first.call(payload) {
            State::Success(m) => self.second.call(m),
            State::Retry => State::Retry,
            State::Stop => State::Stop,
        }
    }
}

/// A computation whose result is dropped and replaced by a fixed value.
pub struct Become<A, N, M> {
    first: A,
    value: N,
    middle: PhantomData<M>,
}

impl<V, M, N, A: Runnable<V, M>> Runnable<V, N> for Become<A, N, M> {
    closed spec fn accepts(&self, payload: V) -> bool {
        self.first.accepts(payload)
    }

    closed spec fn yields(&self, payload: V, output: N) -> bool {
        &&& exists|m: M| #[trigger] self.first.yields(payload, m)
        &&& output == self.value
    }

    fn call(self, payload: V) -> (output: N) {
        let m = self.first.call(payload);
        assert(self.first.yields(payload, m));
        self.value
    }
}

/// A computation over `State` whose successful value is replaced by a fixed value.
pub struct SuccessBecomes<A, N, M> {
    first: A,
    value: N,
    middle: PhantomData<M>,
}

impl<V, M, N, A: Runnable<V, State<M>>> Runnable<V, State<N>> for SuccessBecomes<A, N, M> {
    closed spec fn accepts(&self, payload: V) -> bool {
        self.first.accepts(payload)
    }

    closed spec fn yields(&self, payload: V, output: State<N>) -> bool {
        ||| ((exists|m: M| #[trigger] self.first.yields(payload, State::Success(m)))
            && output == State::Success(self.value))
        ||| (self.first.yields(payload, State::Retry) && output is Retry)
        ||| (self.first.yields(payload, State::Stop) && output is Stop)
    }

    fn call(self, payload: V) -> (output: State<N>) {
        match self.first.call(payload) {
            State::Success(m) => {
                assert(self.first.yields(payload, State::Success(m)));
                State::Success(self.value)
            },
            State::Retry => State::Retry,
            State::Stop => State::Stop,
        }
    }
}

/// A transaction: a computation that is built once, composed with further steps, and
/// run once on a payload. What it accepts and yields is stated through `function()`
/// and the relations of `Runnable`.
pub struct Transaction<T> {
    function: T,
}

impl<T> Transaction<T> {
    /// The computation that the transaction runs.
    pub closed spec fn function(self) -> T {
        self.function
    }

    /// Runs the transaction with a payload.
    pub fn run<V, R>(self, payload: V) -> (r: R) where T: Runnable<V, R>
        requires
            self.function().accepts(payload),
        ensures
            self.function().yields(payload, r),
    {
        self.function.call(payload)
    }
}

impl<F> Transaction<Op<F>> {
    /// Creates a transaction from a closure.
    pub fn create<V, R>(op: F) -> (t: Self) where F: FnOnce(V) -> R
        ensures
            forall|v: V| #[trigger] t.function().accepts(v) <==> call_requires(op, (v,)),
            forall|v: V, r: R| #[trigger] t.function().yields(v, r) <==> call_ensures(op, (v,), r),
    {
        Transaction { function: Op { op } }
    }
}

impl<T> Transaction<T> {
    /// The transaction that runs `self` and then `other` on its result of type `M`.
    pub closed spec fn spec_and_then<B, M>(self, other: Transaction<B>) -> Transaction<Chain<T, B, M>> {
        Transaction { function: Chain { first: self.function, second: other.function, middle: PhantomData } }
    }

    /// What running `self` and then `other` accepts and yields.
    pub proof fn lemma_and_then<V, M, R, B>(self, other: Transaction<B>) where
        T: Runnable<V, M>,
        B: Runnable<M, R>,
        ensures
            forall|v: V| #[trigger] self.spec_and_then::<B, M>(other).function().accepts(v) <==> {
                &&& self.function().accepts(v)
                &&& forall|m: M| #[trigger] self.function().yields(v, m) ==> other.function().accepts(m)
            },
            forall|v: V, r: R| #[trigger] self.spec_and_then::<B, M>(other).function().yields(v, r) <==>
                exists|m: M| #[trigger] self.function().yields(v, m) && other.function().yields(m, r),
    {
        let t = self.spec_and_then::<B, M>(other);
        assert forall|v: V, r: R| #[trigger] t.function().yields(v, r) <==>
            exists|m: M| #[trigger] self.function().yields(v, m) && other.function().yields(m, r) by {
            if t.function().yields(v, r) {
                let m = choose|m: M| #[trigger] t.function().first.yields(v, m) && t.function().second.yields(m, r);
                assert(self.function().yields(v, m));
            }
            if exists|m: M| #[trigger] self.function().yields(v, m) && other.function().yields(m, r) {
                let m = choose|m: M| #[trigger] self.function().yields(v, m) && other.function().yields(m, r);
                assert(t.function().first.yields(v, m));
            }
        }
    }

    /// Composition is associative: running `self`, then `b`, then `c` accepts and
    /// yields the same as running `self` and then the composition of `b` and `c`.
    pub proof fn lemma_and_then_associative<V, M1, M2, R, B, C>(self, b: Transaction<B>, c: Transaction<C>) where
        T: Runnable<V, M1>,
        B: Runnable<M1, M2>,
        C: Runnable<M2, R>,
        ensures
            forall|v: V| #[trigger] self.spec_and_then::<B, M1>(b).spec_and_then::<C, M2>(c).function().accepts(v)
                <==> self.spec_and_then::<Chain<B, C, M2>, M1>(b.spec_and_then::<C, M2>(c)).function().accepts(v),
            forall|v: V, r: R| #[trigger] self.spec_and_then::<B, M1>(b).spec_and_then::<C, M2>(c).function().yields(v, r)
                <==> self.spec_and_then::<Chain<B, C, M2>, M1>(b.spec_and_then::<C, M2>(c)).function().yields(v, r),
    {
        let ab = self.spec_and_then::<B, M1>(b);
        let bc = b.spec_and_then::<C, M2>(c);
        self.lemma_and_then::<V, M1, M2, B>(b);
        b.lemma_and_then::<M1, M2, R, C>(c);
        ab.lemma_and_then::<V, M2, R, C>(c);
        self.lemma_and_then::<V, M1, R, Chain<B, C, M2>>(bc);
        assert forall|v: V| #[trigger] ab.spec_and_then::<C, M2>(c).function().accepts(v)
            <==> self.spec_and_then::<Chain<B, C, M2>, M1>(bc).function().accepts(v) by {
            if ab.spec_and_then::<C, M2>(c).function().accepts(v) {
                assert forall|m: M1| #[trigger] self.function().yields(v, m) implies bc.function().accepts(m) by {
                    assert forall|k: M2| #[trigger] b.function().yields(m, k) implies c.function().accepts(k) by {
                        assert(ab.function().yields(v, k));
                    }
                }
            }
            if self.spec_and_then::<Chain<B, C, M2>, M1>(bc).function().accepts(v) {
                assert forall|k: M2| #[trigger] ab.function().yields(v, k) implies c.function().accepts(k) by {
                    let m = choose|m: M1| #[trigger] self.function().yields(v, m) && b.function().yields(m, k);
                    assert(bc.function().accepts(m));
                }
            }
        }
        assert forall|v: V, r: R| #[trigger] ab.spec_and_then::<C, M2>(c).function().yields(v, r)
            <==> self.spec_and_then::<Chain<B, C, M2>, M1>(bc).function().yields(v, r) by {
            if ab.spec_and_then::<C, M2>(c).function().yields(v, r) {
                let k = choose|k: M2| #[trigger] ab.function().yields(v, k) && c.function().yields(k, r);
                let m = choose|m: M1| #[trigger] self.function().yields(v, m) && b.function().yields(m, k);
                assert(bc.function().yields(m, r));
            }
            if self.spec_and_then::<Chain<B, C, M2>, M1>(bc).function().yields(v, r) {
                let m = choose|m: M1| #[trigger] self.function().yields(v, m) && bc.function().yields(m, r);
                let k = choose|k: M2| #[trigger] b.function().yields(m, k) && c.function().yields(k, r);
                assert(ab.function().yields(v, k));
            }
        }
    }

    /// Appends a step that runs `op` on the result of `self`.
    pub fn next<V, M, G, N>(self, op: G) -> (t: Transaction<Chain<T, Op<G>, M>>) where
        T: Runnable<V, M>,
        G: FnOnce(M) -> N,
        ensures
            forall|v: V| #[trigger] t.function().accepts(v) <==> {
                &&& self.function().accepts(v)
                &&& forall|m: M| #[trigger] self.function().yields(v, m) ==> call_requires(op, (m,))
            },
            forall|v: V, n: N| #[trigger] t.function().yields(v, n) <==>
                exists|m: M| #[trigger] self.function().yields(v, m) && call_ensures(op, (m,), n),
    {
        let t = Transaction { function: Chain { first: self.function, second: Op { op }, middle: PhantomData } };
        assert forall|v: V, n: N| #[trigger] t.function().yields(v, n) <==>
            exists|m: M| #[trigger] self.function().yields(v, m) && call_ensures(op, (m,), n) by {
            if t.function().yields(v, n) {
                let m = choose|m: M| #[trigger] t.function().first.yields(v, m) && t.function().second.yields(m, n);
                assert(self.function().yields(v, m));
            }
            if exists|m: M| #[trigger] self.function().yields(v, m) && call_ensures(op, (m,), n) {
                let m = choose|m: M| #[trigger] self.function().yields(v, m) && call_ensures(op, (m,), n);
                assert(t.function().first.yields(v, m));
            }
        }
        t
    }

    /// Appends a whole transaction that runs on the result of `self`.
    pub fn and_then<V, M, R, B>(self, transaction: Transaction<B>) -> (t: Transaction<Chain<T, B, M>>) where
        T: Runnable<V, M>,
        B: Runnable<M, R>,
        ensures
            t == self.spec_and_then::<B, M>(transaction),
            forall|v: V| #[trigger] t.function().accepts(v) <==> {
                &&& self.function().accepts(v)
                &&& forall|m: M| #[trigger] self.function().yields(v, m) ==> transaction.function().accepts(m)
            },
            forall|v: V, r: R| #[trigger] t.function().yields(v, r) <==>
                exists|m: M| #[trigger] self.function().yields(v, m) && transaction.function().yields(m, r),
    {
        proof {
            self.lemma_and_then::<V, M, R, B>(transaction);
        }
        Transaction { function: Chain { first: self.function, second: transaction.function, middle: PhantomData } }
    }

    /// Appends a step that drops the result of `self` and yields `value`.
    pub fn next_become<V, M, N>(self, value: N) -> (t: Transaction<Become<T, N, M>>) where T: Runnable<V, M>
        ensures
            forall|v: V| #[trigger] t.function().accepts(v) <==> self.function().accepts(v),
            forall|v: V, n: N| #[trigger] t.function().yields(v, n) <==>
                (n == value && exists|m: M| #[trigger] self.function().yields(v, m)),
    {
        let t = Transaction { function: Become { first: self.function, value, middle: PhantomData } };
        assert forall|v: V, n: N| #[trigger] t.function().yields(v, n) <==>
            (n == value && exists|m: M| #[trigger] self.function().yields(v, m)) by {
            if t.function().yields(v, n) {
                let m = choose|m: M| #[trigger] t.function().first.yields(v, m);
                assert(self.function().yields(v, m));
            }
            if n == value && exists|m: M| #[trigger] self.function().yields(v, m) {
                let m = choose|m: M| #[trigger] self.function().yields(v, m);
                assert(t.function().first.yields(v, m));
            }
        }
        t
    }

    /// Appends a step that runs `op` on the successful value of `self`; a retry or a
    /// stop is passed on unchanged and `op` is not run.
    pub fn map_next<V, M, G, N>(self, op: G) -> (t: Transaction<OnSuccess<T, Op<G>, M>>) where
        T: Runnable<V, State<M>>,
        G: FnOnce(M) -> State<N>,
        ensures
            forall|v: V| #[trigger] t.function().accepts(v) <==> {
                &&& self.function().accepts(v)
                &&& forall|m: M| #[trigger] self.function().yields(v, State::Success(m)) ==> call_requires(op, (m,))
            },
            forall|v: V, n: State<N>| #[trigger] t.function().yields(v, n) <==> {
                ||| exists|m: M| #[trigger] self.function().yields(v, State::Success(m)) && call_ensures(op, (m,), n)
                ||| (self.function().yields(v, State::Retry) && n is Retry)
                ||| (self.function().yields(v, State::Stop) && n is Stop)
            },
    {
        let t = Transaction { function: OnSuccess { first: self.function, second: Op { op }, middle: PhantomData } };
        assert forall|v: V, n: State<N>| #[trigger] t.function().yields(v, n) <==> {
            ||| exists|m: M| #[trigger] self.function().yields(v, State::Success(m)) && call_ensures(op, (m,), n)
            ||| (self.function().yields(v, State::Retry) && n is Retry)
            ||| (self.function().yields(v, State::Stop) && n is Stop)
        } by {
            if exists|m: M| #[trigger] t.function().first.yields(v, State::Success(m)) && t.function().second.yields(m, n) {
                let m = choose|m: M| #[trigger] t.function().first.yields(v, State::Success(m)) && t.function().second.yields(m, n);
                assert(self.function().yields(v, State::Success(m)));
            }
            if exists|m: M| #[trigger] self.function().yields(v, State::Success(m)) && call_ensures(op, (m,), n) {
                let m = choose|m: M| #[trigger] self.function().yields(v, State::Success(m)) && call_ensures(op, (m,), n);
                assert(t.function().first.yields(v, State::Success(m)));
            }
        }
        t
    }

    /// Appends a step that replaces the successful value of `self` with `value`; a retry
    /// or a stop is passed on unchanged.
    pub fn map_next_become<V, M, N>(self, value: N) -> (t: Transaction<SuccessBecomes<T, N, M>>) where
        T: Runnable<V, State<M>>,
        ensures
            forall|v: V| #[trigger] t.function().accepts(v) <==> self.function().accepts(v),
            forall|v: V, n: State<N>| #[trigger] t.function().yields(v, n) <==> {
                ||| ((exists|m: M| #[trigger] self.function().yields(v, State::Success(m))) && n == State::Success(value))
                ||| (self.function().yields(v, State::Retry) && n is Retry)
                ||| (self.function().yields(v, State::Stop) && n is Stop)
            },
    {
        let t = Transaction { function: SuccessBecomes { first: self.function, value, middle: PhantomData } };
        assert forall|v: V, n: State<N>| #[trigger] t.function().yields(v, n) <==> {
            ||| ((exists|m: M| #[trigger] self.function().yields(v, State::Success(m))) && n == State::Success(value))
            ||| (self.function().yields(v, State::Retry) && n is Retry)
            ||| (self.function().yields(v, State::Stop) && n is Stop)
        } by {
            if exists|m: M| #[trigger] t.function().first.yields(v, State::Success(m)) {
                let m = choose|m: M| #[trigger] t.function().first.yields(v, State::Success(m));
                assert(self.function().yields(v, State::Success(m)));
            }
            if exists|m: M| #[trigger] self.function().yields(v, State::Success(m)) {
                let m = choose|m: M| #[trigger] self.function().yields(v, State::Success(m));
                assert(t.function().first.yields(v, State::Success(m)));
            }
        }
        t
    }
}

} // verus!
