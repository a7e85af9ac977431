use api::framework::queued_async::{Action, BusinessHolder, QueuedAsyncFrameworkContext, Runner};
use api::framework::retry_loop::{Flow, RetryLoop};
use api::framework::state::{retry_if_possible, State, DEFAULT_MAX_RETRY};

const MAX_RETRY: u8 = DEFAULT_MAX_RETRY;
use api::framework::transaction::Transaction;
use api::framework::FrameworkContext;
use api::framework::fetch_artifact;
use api::workflow::Artifact;

fn greet() -> State<String> {
    State::Success(String::from("42!"))
}

fn transaction(cx: QueuedAsyncFrameworkContext, latest: u8) -> State<()> {
    match cx.check(latest) {
        State::Success(()) => {}
        State::Retry => return State::Retry,
        State::Stop => return State::Stop,
    }
    let greeting = match greet() {
        State::Success(g) => g,
        State::Retry => return State::Retry,
        State::Stop => return State::Stop,
    };
    assert!(greeting == "42!");
    State::Success(())
}

#[test]
fn example() {
    let mut holder = BusinessHolder::new();
    let index = holder.register();
    let cx = QueuedAsyncFrameworkContext { index, payload_display: String::from("payload") };
    let mut runner = Runner::new(MAX_RETRY);
    let mut action = Action::Check;
    let mut transactions = 0;
    loop {
        match action {
            Action::Check => action = runner.after_check(cx.check(holder.latest_payload_index())),
            Action::Transact => {
                transactions += 1;
                let outcome = transaction(
                    QueuedAsyncFrameworkContext { index: cx.index, payload_display: cx.payload_display.clone() },
                    holder.latest_payload_index(),
                );
                action = runner.after_transaction(outcome, &mut holder);
            }
            Action::Finish => break,
        }
    }
    assert_eq!(transactions, 1);
    assert_eq!(holder.latest_payload_index(), 0);
}

#[test]
fn state_map_transforms_only_success() {
    assert_eq!(State::Success(20).map(|v| v + 1), State::Success(21));
    assert_eq!(State::<i32>::Retry.map(|v| v + 1), State::Retry);
    assert_eq!(State::<i32>::Stop.map(|v| v + 1), State::Stop);
}

#[test]
fn state_replace_only_on_success() {
    assert_eq!(State::Success(1).replace(State::Success(2)), State::Success(2));
    assert_eq!(State::Success(1).replace(State::Stop), State::Stop);
    assert_eq!(State::<i32>::Retry.replace(State::Success(2)), State::Retry);
    assert_eq!(State::<i32>::Stop.replace(State::Success(2)), State::Stop);
}

#[test]
fn retry_budget_allows_max_retry_retries() {
    let mut retry: u8 = 0;
    for n in 1..=MAX_RETRY {
        assert_eq!(retry_if_possible(&mut retry, MAX_RETRY), Ok(()));
        assert_eq!(retry, n);
    }
    assert_eq!(retry_if_possible(&mut retry, MAX_RETRY), Err(()));
    assert_eq!(retry, MAX_RETRY + 1);
    assert_eq!(MAX_RETRY, 5);
}

#[test]
fn state_map_laws() {
    for s in [State::Success(7), State::Retry, State::Stop] {
        let id = State::<i32>::map(clone_state(&s), |v| v);
        assert_eq!(id, clone_state(&s));
        let twice = clone_state(&s).map(|v| v * 2).map(|v| v + 1);
        assert_eq!(twice, clone_state(&s).map(|v| v * 2 + 1));
        assert_eq!(clone_state(&s).replace(State::Success(9)), clone_state(&s).map(|_| 9));
    }
}

#[test]
fn state_replace_is_associative() {
    let all = [State::Success(1), State::Retry, State::Stop];
    for s in &all {
        for t in &all {
            for u in &all {
                let left = clone_state(s).replace(clone_state(t)).replace(clone_state(u));
                let right = clone_state(s).replace(clone_state(t).replace(clone_state(u)));
                assert_eq!(left, right);
            }
        }
    }
}

fn clone_state(s: &State<i32>) -> State<i32> {
    match s {
        State::Success(v) => State::Success(*v),
        State::Retry => State::Retry,
        State::Stop => State::Stop,
    }
}

#[test]
fn retry_budget_over_all_attempts() {
    let mut retry: u8 = 0;
    let mut allowed = 0;
    for n in 1..=255u8 {
        let r = retry_if_possible(&mut retry, MAX_RETRY);
        assert_eq!(r.is_ok(), n <= MAX_RETRY);
        if r.is_ok() {
            allowed += 1;
        }
        assert_eq!(retry, n);
    }
    assert_eq!(allowed, MAX_RETRY);
}

#[test]
fn retry_budget_follows_the_configured_maximum() {
    for max in [0u8, 1, 3, 254] {
        let mut retry: u8 = 0;
        let mut allowed = 0u32;
        for n in 1..=255u8 {
            let r = retry_if_possible(&mut retry, max);
            assert_eq!(r.is_ok(), n <= max);
            allowed += u32::from(r.is_ok());
        }
        assert_eq!(allowed, u32::from(max));
        let mut l = RetryLoop::new(max);
        let mut agains = 0u32;
        while let Flow::Again = l.step(State::<()>::Retry) {
            agains += 1;
        }
        assert_eq!(agains, u32::from(max));
        assert_eq!(l.max_retry(), max);
    }
}

#[test]
fn retry_loop_flows() {
    let mut l = RetryLoop::new(MAX_RETRY);
    assert!(matches!(l.step(State::Success(7)), Flow::Proceed(7)));
    assert!(matches!(l.step(State::<i32>::Stop), Flow::Exit));
    for _ in 0..MAX_RETRY {
        assert!(matches!(l.step(State::<i32>::Retry), Flow::Again));
    }
    assert!(matches!(l.step(State::<i32>::Retry), Flow::Exit));
    assert!(matches!(l.step(State::<i32>::Retry), Flow::Exit));
    assert_eq!(l.retry_count(), MAX_RETRY + 1);
}

#[test]
fn newer_business_stops_older_one() {
    let mut holder = BusinessHolder::new();
    let first = holder.register();
    let second = holder.register();
    assert_eq!((first, second), (0, 1));
    let latest = holder.latest_payload_index();
    assert_eq!(latest, 2);
    let older = QueuedAsyncFrameworkContext { index: first, payload_display: String::from("a") };
    let newer = QueuedAsyncFrameworkContext { index: second, payload_display: String::from("b") };
    assert_eq!(older.check(latest), State::Stop);
    assert_eq!(newer.check(latest), State::Success(()));
    assert_eq!(newer.payload_display(), "b");
}

#[test]
fn newer_business_runs_after_older_success() {
    let mut holder = BusinessHolder::new();
    let first = holder.register();
    let second = holder.register();
    let mut older_runner = Runner::new(MAX_RETRY);
    assert_eq!(older_runner.after_transaction(State::Success(()), &mut holder), Action::Finish);
    assert_eq!(holder.latest_payload_index(), 0);
    let newer = QueuedAsyncFrameworkContext { index: second, payload_display: String::from("b") };
    let newer_runner = Runner::new(MAX_RETRY);
    assert_eq!(newer.check(holder.latest_payload_index()), State::Success(()));
    assert_eq!(newer_runner.after_check(newer.check(holder.latest_payload_index())), Action::Transact);
    let older = QueuedAsyncFrameworkContext { index: first, payload_display: String::from("a") };
    assert_eq!(older.check(0), State::Success(()));
    assert_eq!(older.check(5), State::Stop);
}

#[test]
fn registration_indices_count_from_zero() {
    let mut holder = BusinessHolder::new();
    for k in 1..=600u32 {
        assert_eq!(u32::from(holder.register()), (k - 1) % 256);
        assert_eq!(u32::from(holder.latest_payload_index()), k % 256);
    }
    holder.reset();
    assert_eq!(holder.register(), 0);
}

#[test]
fn holder_index_wraps_around() {
    let mut holder = BusinessHolder::new();
    for _ in 0..255 {
        holder.register();
    }
    assert_eq!(holder.register(), 255);
    assert_eq!(holder.latest_payload_index(), 0);
}

#[test]
fn runner_actions() {
    let mut holder = BusinessHolder::new();
    holder.register();
    let mut runner = Runner::new(MAX_RETRY);
    assert_eq!(runner.after_check(State::Success(())), Action::Transact);
    assert_eq!(runner.after_check(State::Retry), Action::Check);
    assert_eq!(runner.after_check(State::Stop), Action::Finish);
    assert_eq!(runner.after_transaction(State::Stop, &mut holder), Action::Finish);
    assert_eq!(holder.latest_payload_index(), 1);
    for _ in 0..MAX_RETRY {
        assert_eq!(runner.after_transaction(State::Retry, &mut holder), Action::Check);
    }
    assert_eq!(runner.after_transaction(State::Retry, &mut holder), Action::Finish);
    assert_eq!(runner.retry_count(), MAX_RETRY + 1);
    assert_eq!(runner.after_transaction(State::Retry, &mut holder), Action::Finish);
    assert_eq!(runner.retry_count(), MAX_RETRY + 1);
    let mut runner = Runner::new(MAX_RETRY);
    assert_eq!(runner.after_transaction(State::Success(()), &mut holder), Action::Finish);
    assert_eq!(holder.latest_payload_index(), 0);
}

#[test]
fn transaction_composes_steps() {
    let t = Transaction::create(|x: u32| x + 1).next(|x: u32| x * 10);
    assert_eq!(t.run(4), 50);
    let t = Transaction::create(|x: u32| x + 1).next_become("done");
    assert_eq!(t.run(4), "done");
}

#[test]
fn transaction_map_next_skips_after_failure() {
    let t = Transaction::create(|x: u32| if x > 0 { State::Success(x) } else { State::Retry })
        .map_next(|x: u32| State::Success(x * 2));
    assert_eq!(t.run(3), State::Success(6));
    let t = Transaction::create(|x: u32| if x > 0 { State::Success(x) } else { State::Retry })
        .map_next(|x: u32| State::Success(x * 2));
    assert_eq!(t.run(0), State::Retry);
    let t = Transaction::create(|_: u32| State::<u32>::Stop).map_next(|x: u32| State::Success(x * 2));
    assert_eq!(t.run(1), State::Stop);
    let t = Transaction::create(|x: u32| State::Success(x)).map_next_become('z');
    assert_eq!(t.run(1), State::Success('z'));
    let t = Transaction::create(|_: u32| State::<u32>::Retry).map_next_become('z');
    assert_eq!(t.run(1), State::Retry);
}

#[test]
fn transaction_and_then_is_associative_on_values() {
    let left = Transaction::create(|x: i64| x + 1)
        .and_then(Transaction::create(|x: i64| x * 3))
        .and_then(Transaction::create(|x: i64| x - 2));
    let right = Transaction::create(|x: i64| x + 1)
        .and_then(Transaction::create(|x: i64| x * 3).and_then(Transaction::create(|x: i64| x - 2)));
    for v in [-5i64, 0, 7] {
        let l = Transaction::create(|x: i64| x + 1)
            .and_then(Transaction::create(|x: i64| x * 3))
            .and_then(Transaction::create(|x: i64| x - 2))
            .run(v);
        let r = Transaction::create(|x: i64| x + 1)
            .and_then(Transaction::create(|x: i64| x * 3).and_then(Transaction::create(|x: i64| x - 2)))
            .run(v);
        assert_eq!(l, r);
        assert_eq!(l, (v + 1) * 3 - 2);
    }
    assert_eq!(left.run(1), right.run(1));
}

fn artifact(id: u64) -> Artifact {
    Artifact {
        id,
        node_id: String::from("node"),
        name: String::from("website"),
        size_in_bytes: 10,
        url: String::from("https://example.invalid/a"),
        archive_download_url: String::from("https://example.invalid/a/zip"),
        expired: false,
        created_at: None,
        expires_at: None,
        updated_at: None,
        digest: None,
        workflow_run: None,
    }
}

#[test]
fn fetch_artifact_step_passes_value_through() {
    match fetch_artifact::run("pass", State::Success(artifact(9))) {
        State::Success(out) => {
            assert_eq!(out.passthrough, "pass");
            assert_eq!(out.artifact.id, 9);
        }
        _ => panic!("expected a success"),
    }
    assert!(matches!(fetch_artifact::run("pass", State::Retry), State::Retry));
    assert!(matches!(fetch_artifact::run("pass", State::Stop), State::Stop));
    let input = fetch_artifact::Input { passthrough: 1u8, run_id: String::from("42") };
    assert_eq!(input.run_id, "42");
}
