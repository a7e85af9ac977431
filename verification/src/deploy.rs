//! Website deployments: the payload of a deployment request, the decisions of one
//! deployment run, what the extraction of a downloaded artifact came to, and the
//! workers that deploy one request at a time.

use vstd::prelude::*;

use std::collections::VecDeque;

use crate::digest::{digest_matches, prefix_cut_ok, spec_digest_matches, spec_sha256, StreamDigest};
use crate::framework::retry_loop::{Flow, RetryLoop};
use crate::framework::state::{retry_step, State};
use crate::workflow::Artifact;
use crate::text::{spec_trim, trim_destination, trim_front, trim_back, is_trimmed, white_space_code_point, lemma_whitespace_is_white_space_property};

verus! {

/// The payload of a website deployment request: the workflow run whose artifact is
/// deployed, and the destination it is deployed to.
#[derive(Debug, Clone)]
pub struct Payload {
    pub run_id: String,
    pub dest: String,
}

/// The workflow information that a deployment notification carries.
pub type WorkflowInfo = Payload;

impl Payload {
    /// The payload with its destination stripped of whitespace and `/` at both ends.
    pub fn validate(self) -> (r: Self)
        ensures
            r.run_id@ == self.run_id@,
            r.dest@ == spec_trim(self.dest@),
    {
        let dest = trim_destination(self.dest.as_str());
        Payload { run_id: self.run_id, dest }
    }

    /// The text that describes the payload in messages: `dest<~run_id`.
    pub fn display(&self) -> (s: String)
        ensures
            s@ == self.dest@ + "<~"@ + self.run_id@,
    {
        let mut s = String::from_str(self.dest.as_str());
        s.append("<~");
        s.append(self.run_id.as_str());
        s
    }

    /// The directory that the payload is deployed to: `/var/dest/html`.
    pub fn path(&self) -> (p: String)
        ensures
            p@ == "/var/"@ + self.dest@ + "/html"@,
    {
        let mut p = String::from_str("/var/");
        p.append(self.dest.as_str());
        p.append("/html");
        p
    }
}

proof fn lemma_trim_front_shape(s: Seq<char>)
    ensures
        trim_front(s).len() == 0 || !is_trimmed(trim_front(s)[0]),
        exists|k: int| 0 <= k <= s.len() && trim_front(s) == #[trigger] s.subrange(k, s.len() as int)
            && forall|m: int| 0 <= m < k ==> is_trimmed(#[trigger] s[m]),
    decreases s.len(),
{
    if s.len() > 0 && is_trimmed(s[0]) {
        let t = s.drop_first();
        lemma_trim_front_shape(t);
        let k = choose|k: int| 0 <= k <= t.len() && trim_front(t) == #[trigger] t.subrange(k, t.len() as int)
            && forall|m: int| 0 <= m < k ==> is_trimmed(#[trigger] t[m]);
        assert(t.subrange(k, t.len() as int) =~= s.subrange(k + 1, s.len() as int));
        assert forall|m: int| 0 <= m < k + 1 implies is_trimmed(#[trigger] s[m]) by {
            if m > 0 {
                assert(s[m] == t[m - 1]);
            }
        }
        assert(trim_front(s) == s.subrange(k + 1, s.len() as int));
    } else {
        assert(s.subrange(0, s.len() as int) =~= s);
    }
}

proof fn lemma_trim_back_shape(s: Seq<char>)
    ensures
        trim_back(s).len() == 0 || !is_trimmed(trim_back(s).last()),
        exists|k: int| 0 <= k <= s.len() && trim_back(s) == #[trigger] s.subrange(0, k)
            && forall|m: int| k <= m < s.len() ==> is_trimmed(#[trigger] s[m]),
    decreases s.len(),
{
    if s.len() > 0 && is_trimmed(s.last()) {
        let t = s.drop_last();
        lemma_trim_back_shape(t);
        let k = choose|k: int| 0 <= k <= t.len() && trim_back(t) == #[trigger] t.subrange(0, k)
            && forall|m: int| k <= m < t.len() ==> is_trimmed(#[trigger] t[m]);
        assert(t.subrange(0, k) =~= s.subrange(0, k));
        assert forall|m: int| k <= m < s.len() implies is_trimmed(#[trigger] s[m]) by {
            if m < t.len() {
                assert(s[m] == t[m]);
            }
        }
        assert(trim_back(s) == s.subrange(0, k));
    } else {
        assert(s.subrange(0, s.len() as int) =~= s);
    }
}

/// Whether a destination loses `c` at its ends: a character of the Unicode
/// `White_Space` property, or `/`.
pub open spec fn stripped_at_ends(c: char) -> bool {
    white_space_code_point(c as u32) || c == '/'
}

/// Validation removes exactly the whitespace and `/` at the ends of a destination: the
/// result is a piece of the destination as sent, everything before and after it is a
/// character of the Unicode `White_Space` property (carriage return and line feed
/// included) or `/`, and the result neither starts nor ends with such a character.
pub proof fn lemma_validate_strips_white_space(dest: Seq<char>)
    ensures
        ({
            let r = spec_trim(dest);
            &&& r.len() > 0 ==> !stripped_at_ends(r[0]) && !stripped_at_ends(r.last())
            &&& exists|i: int, j: int| 0 <= i <= j <= dest.len() && r == #[trigger] dest.subrange(i, j)
                && (forall|m: int| 0 <= m < i ==> stripped_at_ends(#[trigger] dest[m]))
                && (forall|m: int| j <= m < dest.len() ==> stripped_at_ends(#[trigger] dest[m]))
        }),
{
    lemma_validate_idempotent(dest);
    let r = spec_trim(dest);
    if r.len() > 0 {
        lemma_whitespace_is_white_space_property(r[0]);
        lemma_whitespace_is_white_space_property(r.last());
    }
    let f = trim_front(dest);
    lemma_trim_front_shape(dest);
    lemma_trim_back_shape(f);
    let i = choose|k: int| 0 <= k <= dest.len() && f == #[trigger] dest.subrange(k, dest.len() as int)
        && forall|m: int| 0 <= m < k ==> is_trimmed(#[trigger] dest[m]);
    let j = choose|k: int| 0 <= k <= f.len() && r == #[trigger] f.subrange(0, k)
        && forall|m: int| k <= m < f.len() ==> is_trimmed(#[trigger] f[m]);
    assert(r =~= dest.subrange(i, i + j));
    assert forall|m: int| 0 <= m < i implies stripped_at_ends(#[trigger] dest[m]) by {
        lemma_whitespace_is_white_space_property(dest[m]);
    }
    assert forall|m: int| i + j <= m < dest.len() implies stripped_at_ends(#[trigger] dest[m]) by {
        assert(dest[m] == f[m - i]);
        assert(is_trimmed(f[m - i]));
        lemma_whitespace_is_white_space_property(dest[m]);
    }
}

/// Validation is idempotent: validating a validated destination changes nothing, and
/// a validated destination neither starts nor ends with whitespace or `/`.
pub proof fn lemma_validate_idempotent(dest: Seq<char>)
    ensures
        spec_trim(spec_trim(dest)) == spec_trim(dest),
        spec_trim(dest).len() > 0 ==> !is_trimmed(spec_trim(dest)[0]) && !is_trimmed(spec_trim(dest).last()),
{
    let f = trim_front(dest);
    let u = trim_back(f);
    lemma_trim_front_shape(dest);
    lemma_trim_back_shape(f);
    let k = choose|k: int| 0 <= k <= f.len() && u == #[trigger] f.subrange(0, k);
    if u.len() > 0 {
        assert(u[0] == f[0]);
        assert(trim_front(u) == u);
        assert(trim_back(u) == u);
    } else {
        assert(trim_front(u) == u);
        assert(trim_back(u) == u);
    }
}

/// What the extraction of a downloaded artifact came to.
#[derive(Debug, Clone)]
pub enum Case {
    /// The archive was extracted and its hash matches the digest.
    Deployed,
    /// The archive could not be extracted, for this reason.
    Failed(String),
    /// The archive was extracted but its hash differs from the digest.
    HashUnmatch,
}

impl Case {
    /// Whether the destination directory is removed afterwards: whenever the
    /// deployment did not succeed.
    pub fn removes_destination(&self) -> (r: bool)
        ensures
            r == !(*self is Deployed),
    {
        match self {
            Case::Deployed => false,
            _ => true,
        }
    }
}

/// Whether the digest that an artifact reports can be checked once its archive is
/// extracted: it is present, and its prefix can be cut.
pub open spec fn digest_checkable(digest: Option<Seq<u8>>) -> bool {
    digest matches Some(d) && prefix_cut_ok(d)
}

/// Decides what an extraction came to: a failure keeps its reason; a successful
/// extraction is deployed when the SHA-256 hash of every byte streamed through
/// `hashed` matches the digest, and is a hash mismatch otherwise.
pub fn extraction_case(extraction: Result<(), String>, hashed: StreamDigest, digest: Option<&[u8]>) -> (c: Case)
    requires
        extraction is Ok ==> digest_checkable(match digest { Some(d) => Some(d@), None => None }),
    ensures
        match extraction {
            Err(reason) => c matches Case::Failed(r) && r@ == reason@,
            Ok(()) => if spec_digest_matches(spec_sha256(hashed.consumed()), digest.unwrap()@) {
                c is Deployed
            } else {
                c is HashUnmatch
            },
        },
{
    match extraction {
        Err(reason) => Case::Failed(reason),
        Ok(()) => {
            match digest {
                Some(d) => {
                    let hash = hashed.finalize();
                    if digest_matches(hash.as_slice(), d) {
                        Case::Deployed
                    } else {
                        Case::HashUnmatch
                    }
                },
                None => Case::HashUnmatch,
            }
        },
    }
}

/// What a deployment does next.
pub enum DeployAction<S> {
    /// Fetch the artifact of the payload's run.
    Fetch,
    /// Request the download of this artifact.
    Download(Artifact),
    /// Extract the downloaded archive into the payload's directory and hash it.
    Extract(S),
    /// Remove the payload's directory, then end.
    Cleanup,
    /// End the deployment.
    Done,
}

/// The decisions of one deployment: fetch the artifact, download it, extract it, and
/// clean up after a failed extraction. Fetching and downloading share one retry
/// budget.
pub struct DeployRun {
    retries: RetryLoop,
}

impl DeployRun {
    /// The retries performed so far.
    pub closed spec fn retries(self) -> u8 {
        self.retries.retries()
    }

    /// The retry budget of the deployment.
    pub closed spec fn max_retry(self) -> u8 {
        self.retries.max()
    }

    /// A deployment that has not retried yet and may retry `max_retry` times; it
    /// starts by fetching.
    pub fn new(max_retry: u8) -> (d: DeployRun)
        requires
            max_retry < u8::MAX,
        ensures
            d.retries() == 0,
            d.max_retry() == max_retry,
    {
        DeployRun { retries: RetryLoop::new(max_retry) }
    }

    /// Decides the next action after the artifact was fetched: download it, fetch
    /// again on a retry while the budget lasts, end otherwise.
    pub fn after_fetch<S>(&mut self, fetched: State<Artifact>) -> (a: DeployAction<S>)
        ensures
            match fetched {
                State::Success(artifact) => a matches DeployAction::Download(x) && x == artifact
                    && final(self).retries() == old(self).retries(),
                State::Stop => a is Done && final(self).retries() == old(self).retries(),
                State::Retry => retry_decision(old(self).retries(), final(self).retries(), old(self).max_retry(), a is Fetch, a is Done),
            },
            final(self).max_retry() == old(self).max_retry(),
    {
        match self.retries.step(fetched) {
            Flow::Proceed(artifact) => DeployAction::Download(artifact),
            Flow::Again => DeployAction::Fetch,
            Flow::Exit => DeployAction::Done,
        }
    }

    /// Decides the next action after the download was requested: extract the stream,
    /// start over with a fetch on a retry while the budget lasts, end otherwise.
    pub fn after_download<S>(&mut self, downloaded: State<S>) -> (a: DeployAction<S>)
        ensures
            match downloaded {
                State::Success(stream) => a matches DeployAction::Extract(x) && x == stream
                    && final(self).retries() == old(self).retries(),
                State::Stop => a is Done && final(self).retries() == old(self).retries(),
                State::Retry => retry_decision(old(self).retries(), final(self).retries(), old(self).max_retry(), a is Fetch, a is Done),
            },
            final(self).max_retry() == old(self).max_retry(),
    {
        match self.retries.step(downloaded) {
            Flow::Proceed(stream) => DeployAction::Extract(stream),
            Flow::Again => DeployAction::Fetch,
            Flow::Exit => DeployAction::Done,
        }
    }

    /// Decides the next action after the extraction: clean up unless deployed.
    pub fn after_extract<S>(&self, case: &Case) -> (a: DeployAction<S>)
        ensures
            *case is Deployed ==> a is Done,
            !(*case is Deployed) ==> a is Cleanup,
    {
        if case.removes_destination() {
            DeployAction::Cleanup
        } else {
            DeployAction::Done
        }
    }
}

/// How a retry is decided with `before` retries done and the budget `max_retry`:
/// within the budget the counter grows by one and the loop starts over exactly when
/// the new count is still allowed; once the budget is spent the loop ends.
pub open spec fn retry_decision(before: u8, after: u8, max_retry: u8, again: bool, done: bool) -> bool {
    &&& before <= max_retry ==> after == retry_step(before, max_retry).0
        && (again <==> retry_step(before, max_retry).1) && (done <==> !retry_step(before, max_retry).1)
    &&& before > max_retry ==> after == before && done && !again
}

/// The abstract state of a deployment worker: whether a worker runs, and the request
/// that waits for it.
pub struct WorkerView<P> {
    pub running: bool,
    pub pending: Option<P>,
}

/// What happens to a submitted request.
#[derive(Debug)]
pub enum Submission<P> {
    /// No worker runs: a worker is started with this request.
    Spawn(P),
    /// A worker runs: the request waits, replacing the request that waited before.
    Suspended { replaced: Option<P> },
}

/// What `submit` does to the worker and answers.
pub open spec fn spec_submit<P>(w: WorkerView<P>, payload: P) -> (WorkerView<P>, Submission<P>) {
    if !w.running {
        (WorkerView { running: true, pending: w.pending }, Submission::Spawn(payload))
    } else {
        (WorkerView { running: true, pending: Some(payload) }, Submission::Suspended { replaced: w.pending })
    }
}

/// What `finish` does to the worker and answers.
pub open spec fn spec_finish<P>(w: WorkerView<P>) -> (WorkerView<P>, Option<P>) {
    match w.pending {
        None => (WorkerView { running: false, pending: None }, None),
        Some(p) => (WorkerView { running: w.running, pending: None }, Some(p)),
    }
}

/// A deployment worker that deploys one request at a time and keeps only the latest
/// request that arrives meanwhile.
pub struct DeployWorker<P> {
    running: bool,
    pending: Option<P>,
}

impl<P> View for DeployWorker<P> {
    type V = WorkerView<P>;

    closed spec fn view(&self) -> WorkerView<P> {
        WorkerView { running: self.running, pending: self.pending }
    }
}

impl<P> DeployWorker<P> {
    /// A request waits only while a worker runs.
    #[verifier::type_invariant]
    spec fn waits_only_while_running(self) -> bool {
        self.pending is Some ==> self.running
    }

    /// Whether a worker runs; a request waits only while one does.
    pub fn is_running(&self) -> (r: bool)
        ensures
            r == self@.running,
            self@.pending is Some ==> self@.running,
    {
        proof {
            use_type_invariant(self);
        }
        self.running
    }

    /// An idle worker without waiting requests.
    pub fn new() -> (w: Self)
        ensures
            w@ == (WorkerView::<P> { running: false, pending: None }),
    {
        DeployWorker { running: false, pending: None }
    }

    /// Submits a request: it starts a worker when none runs, and otherwise waits in
    /// place of the request that waited before.
    pub fn submit(&mut self, payload: P) -> (s: Submission<P>)
        ensures
            (final(self)@, s) == spec_submit(old(self)@, payload),
            old(self)@.pending is Some ==> old(self)@.running,
            final(self)@.pending is Some ==> final(self)@.running,
    {
        proof {
            use_type_invariant(&*self);
        }
        if !self.running {
            self.running = true;
            Submission::Spawn(payload)
        } else {
            let mut before = DeployWorker { running: true, pending: Some(payload) };
            std::mem::swap(self, &mut before);
            Submission::Suspended { replaced: before.pending }
        }
    }

    /// Called by the worker after each deployment: hands out the waiting request, or
    /// stops the worker when none waits.
    pub fn finish(&mut self) -> (next: Option<P>)
        ensures
            (final(self)@, next) == spec_finish(old(self)@),
            old(self)@.pending is Some ==> old(self)@.running,
            final(self)@.pending is Some ==> final(self)@.running,
    {
        proof {
            use_type_invariant(&*self);
        }
        let running = self.running;
        let mut before = DeployWorker { running: false, pending: None };
        std::mem::swap(self, &mut before);
        match before.pending {
            None => None,
            Some(p) => {
                self.running = running;
                Some(p)
            },
        }
    }
}

/// The latest request wins: when two requests arrive while a worker runs, the worker
/// next deploys the second one, and the first one is handed back as replaced.
pub proof fn lemma_latest_request_wins<P>(w: WorkerView<P>, a: P, b: P)
    requires
        w.running,
    ensures
        ({
            let (after_a, _) = spec_submit(w, a);
            let (after_b, answer_b) = spec_submit(after_a, b);
            &&& answer_b == Submission::Suspended { replaced: Some(a) }
            &&& spec_finish(after_b).1 == Some(b)
            &&& spec_finish(after_b).0.running
        }),
{
}

/// A request waits only while a worker runs: submitting and finishing keep this true.
pub proof fn lemma_waits_only_while_running<P>(w: WorkerView<P>, p: P)
    requires
        w.pending is Some ==> w.running,
    ensures
        spec_submit(w, p).0.pending is Some ==> spec_submit(w, p).0.running,
        spec_finish(w).0.pending is Some ==> spec_finish(w).0.running,
{
}

/// A request that no later request follows is deployed: submitting it either starts a
/// worker with it, after which the worker's next finish leaves it idle, or lets it wait,
/// after which the worker's next finish hands it out and the one after leaves the
/// worker idle with nothing waiting.
pub proof fn lemma_single_request_deployed<P>(w: WorkerView<P>, p: P)
    requires
        w.pending is Some ==> w.running,
    ensures
        ({
            let (after, answer) = spec_submit(w, p);
            let idle = WorkerView::<P> { running: false, pending: None };
            ||| answer == Submission::Spawn(p) && spec_finish(after) == (idle, None::<P>)
            ||| answer is Suspended && spec_finish(after).1 == Some(p)
                && spec_finish(spec_finish(after).0) == (idle, None::<P>)
        }),
{
}

/// At most one worker runs: a worker is started only when none runs.
pub proof fn lemma_single_worker<P>(w: WorkerView<P>, p: P)
    ensures
        spec_submit(w, p).1 is Spawn ==> !w.running,
        spec_submit(w, p).0.running,
{
}

/// The abstract state of a deployment queue: whether a worker runs, and the requests
/// that wait for it, oldest first.
pub struct QueueView<P> {
    pub running: bool,
    pub queue: Seq<P>,
}

/// What `DeployQueue::submit` does to the queue and answers.
pub open spec fn spec_queue_submit<P>(q: QueueView<P>, payload: P) -> (QueueView<P>, Option<P>) {
    if !q.running {
        (QueueView { running: true, queue: q.queue }, Some(payload))
    } else {
        (QueueView { running: true, queue: q.queue.push(payload) }, None)
    }
}

/// What `DeployQueue::finish` does to the queue and answers.
pub open spec fn spec_queue_finish<P>(q: QueueView<P>) -> (QueueView<P>, Option<P>) {
    if q.queue.len() == 0 {
        (QueueView { running: false, queue: q.queue }, None)
    } else {
        (QueueView { running: q.running, queue: q.queue.subrange(1, q.queue.len() as int) }, Some(q.queue[0]))
    }
}

/// A deployment worker that deploys one request at a time and deploys the requests
/// that arrive meanwhile in the order they arrived.
pub struct DeployQueue<P> {
    running: bool,
    queue: VecDeque<P>,
}

impl<P> View for DeployQueue<P> {
    type V = QueueView<P>;

    closed spec fn view(&self) -> QueueView<P> {
        QueueView { running: self.running, queue: self.queue@ }
    }
}

impl<P> DeployQueue<P> {
    /// An idle worker without waiting requests.
    pub fn new() -> (q: Self)
        ensures
            q@.running == false,
            q@.queue == Seq::<P>::empty(),
    {
        DeployQueue { running: false, queue: VecDeque::new() }
    }

    /// Submits a request: it starts a worker when none runs (and is returned), and
    /// otherwise joins the end of the queue.
    pub fn submit(&mut self, payload: P) -> (spawn: Option<P>)
        ensures
            (final(self)@, spawn) == spec_queue_submit(old(self)@, payload),
    {
        if !self.running {
            self.running = true;
            Some(payload)
        } else {
            self.queue.push_back(payload);
            None
        }
    }

    /// Called by the worker after each deployment: hands out the oldest waiting
    /// request, or stops the worker when none waits.
    pub fn finish(&mut self) -> (next: Option<P>)
        ensures
            (final(self)@, next) == spec_queue_finish(old(self)@),
    {
        match self.queue.pop_front() {
            None => {
                self.running = false;
                None
            },
            Some(p) => Some(p),
        }
    }
}

/// Requests are deployed in the order they arrive: two requests that arrive while a
/// worker runs with an empty queue are handed to the worker first the one, then the
/// other, and then the worker stops.
pub proof fn lemma_queue_in_arrival_order<P>(q: QueueView<P>, a: P, b: P)
    requires
        q.running,
        q.queue.len() == 0,
    ensures
        ({
            let q1 = spec_queue_submit(spec_queue_submit(q, a).0, b).0;
            let (q2, first) = spec_queue_finish(q1);
            let (q3, second) = spec_queue_finish(q2);
            let (q4, third) = spec_queue_finish(q3);
            &&& first == Some(a)
            &&& second == Some(b)
            &&& third is None
            &&& !q4.running
        }),
{
    let q1 = spec_queue_submit(spec_queue_submit(q, a).0, b).0;
    assert(q1.queue =~= seq![a, b]);
    let q2 = spec_queue_finish(q1).0;
    assert(q2.queue =~= seq![b]);
    let q3 = spec_queue_finish(q2).0;
    assert(q3.queue =~= Seq::<P>::empty());
}

/// What `k` calls of `finish` hand out, one after the other, starting from `q`.
pub open spec fn finish_outputs<P>(q: QueueView<P>, k: nat) -> Seq<Option<P>>
    decreases k,
{
    if k == 0 {
        Seq::<Option<P>>::empty()
    } else {
        seq![spec_queue_finish(q).1] + finish_outputs(spec_queue_finish(q).0, (k - 1) as nat)
    }
}

proof fn lemma_finish_outputs_len<P>(q: QueueView<P>, k: nat)
    ensures
        finish_outputs(q, k).len() == k,
    decreases k,
{
    if k > 0 {
        lemma_finish_outputs_len(spec_queue_finish(q).0, (k - 1) as nat);
    }
}

proof fn lemma_finish_outputs_in_order<P>(q: QueueView<P>, k: nat)
    requires
        k <= q.queue.len(),
    ensures
        finish_outputs(q, k).len() == k,
        forall|i: int| 0 <= i < k ==> #[trigger] finish_outputs(q, k)[i] == Some(q.queue[i]),
    decreases k,
{
    if k > 0 {
        let q2 = spec_queue_finish(q).0;
        lemma_finish_outputs_in_order(q2, (k - 1) as nat);
        assert forall|i: int| 0 <= i < k implies #[trigger] finish_outputs(q, k)[i] == Some(q.queue[i]) by {
            if i > 0 {
                assert(finish_outputs(q, k)[i] == finish_outputs(q2, (k - 1) as nat)[i - 1]);
                assert(q2.queue[i - 1] == q.queue[i]);
            }
        }
    }
}

/// First come, first deployed: a request submitted while a worker runs is handed out
/// after every request that was already waiting, and those in the order they arrived;
/// the finish after it stops the worker.
pub proof fn lemma_queue_first_come_first_deployed<P>(q: QueueView<P>, p: P)
    requires
        q.running,
    ensures
        ({
            let (q1, spawned) = spec_queue_submit(q, p);
            let n = q.queue.len();
            let outs = finish_outputs(q1, n + 2);
            &&& spawned is None
            &&& forall|i: int| 0 <= i < n ==> #[trigger] outs[i] == Some(q.queue[i])
            &&& outs[n as int] == Some(p)
            &&& outs[n + 1int] is None
        }),
{
    let q1 = spec_queue_submit(q, p).0;
    let n = q.queue.len();
    lemma_finish_outputs_in_order(q1, n + 1);
    lemma_finish_outputs_extend(q1, n + 1);
}

proof fn lemma_finish_outputs_extend<P>(q: QueueView<P>, k: nat)
    requires
        k == q.queue.len(),
    ensures
        finish_outputs(q, k + 1).len() == k + 1,
        forall|i: int| 0 <= i < k ==> #[trigger] finish_outputs(q, k + 1)[i] == finish_outputs(q, k)[i],
        finish_outputs(q, k + 1)[k as int] is None,
    decreases k,
{
    lemma_finish_outputs_len(q, k);
    lemma_finish_outputs_len(q, k + 1);
    if k == 0 {
        assert(finish_outputs(q, 1)[0] == spec_queue_finish(q).1);
    } else {
        let q2 = spec_queue_finish(q).0;
        lemma_finish_outputs_len(q2, k);
        lemma_finish_outputs_len(q2, (k - 1) as nat);
        lemma_finish_outputs_extend(q2, (k - 1) as nat);
        assert forall|i: int| 0 <= i < k implies #[trigger] finish_outputs(q, k + 1)[i] == finish_outputs(q, k)[i] by {
            if i > 0 {
                assert(finish_outputs(q, k + 1)[i] == finish_outputs(q2, k)[i - 1]);
                assert(finish_outputs(q, k)[i] == finish_outputs(q2, (k - 1) as nat)[i - 1]);
            }
        }
        assert(finish_outputs(q, k + 1)[k as int] == finish_outputs(q2, k)[k - 1]);
    }
}

} // verus!
