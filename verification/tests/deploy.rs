use api::archive::{entry_is_dir, plan_entry, sanitize_file_path, EntryPlan};
use api::deploy::{extraction_case, Case, DeployAction, DeployQueue, DeployRun, DeployWorker, Payload, Submission, WorkflowInfo};
use api::digest::{bytes_match_digest, digest_matches, StreamDigest};
use api::text::trim_destination;
use api::framework::state::State;
use api::transactions::{compose_up_args, pull_image_args, reload_args, Rollout, RolloutAction};

const ABC_DIGEST: &str = "sha256:ba7816bf8f01cfea414140de5dae2223b00361a396177a9cb410ff61f20015ad";

fn abc_hash() -> Vec<u8> {
    vec![
        0xba, 0x78, 0x16, 0xbf, 0x8f, 0x01, 0xcf, 0xea, 0x41, 0x41, 0x40, 0xde, 0x5d, 0xae, 0x22, 0x23, 0xb0, 0x03,
        0x61, 0xa3, 0x96, 0x17, 0x7a, 0x9c, 0xb4, 0x10, 0xff, 0x61, 0xf2, 0x00, 0x15, 0xad,
    ]
}

#[test]
fn validate_trims_whitespace_and_slashes() {
    let p = Payload { run_id: String::from("123"), dest: String::from("  /www/ \n") }.validate();
    assert_eq!(p.run_id, "123");
    assert_eq!(p.dest, "www");
    let p = Payload { run_id: String::from("1"), dest: String::from("\u{3000}/a/b/\u{a0}") }.validate();
    assert_eq!(p.dest, "a/b");
    let p = Payload { run_id: String::from("1"), dest: String::from(" / \t/") }.validate();
    assert_eq!(p.dest, "");
    let p = Payload { run_id: String::from("1"), dest: String::from("calendar") }.validate();
    assert_eq!(p.dest, "calendar");
}

#[test]
fn validate_is_idempotent() {
    for dest in ["  /x/ ", "/", "", "a b", " \u{2003}é/ "] {
        let once = Payload { run_id: String::from("7"), dest: String::from(dest) }.validate();
        let twice = once.clone().validate();
        assert_eq!(once.dest, twice.dest);
    }
    assert_eq!(trim_destination(" é/ "), "é");
}

#[test]
fn payload_display_and_path() {
    let p: WorkflowInfo = Payload { run_id: String::from("99"), dest: String::from("www") };
    assert_eq!(p.display(), "www<~99");
    assert_eq!(p.path(), "/var/www/html");
}

#[test]
fn digest_matching() {
    assert!(digest_matches(&abc_hash(), ABC_DIGEST.as_bytes()));
    let mut other = abc_hash();
    other[0] = 0xbb;
    assert!(!digest_matches(&other, ABC_DIGEST.as_bytes()));
    assert!(!digest_matches(&abc_hash(), b"sha256:"));
    assert!(digest_matches(&[], b"sha256:"));
    assert!(digest_matches(&[0x0f, 0xa0], b"sha256:0fa0"));
    assert!(!digest_matches(&[0x0f, 0xa0], b"sha256:0FA0"));
}

#[test]
fn downloaded_bytes_are_hashed() {
    assert!(bytes_match_digest(b"abc", ABC_DIGEST.as_bytes()));
    assert!(!bytes_match_digest(b"abd", ABC_DIGEST.as_bytes()));
    assert!(bytes_match_digest(
        b"",
        b"sha256:e3b0c44298fc1c149afbf4c8996fb92427ae41e4649b934ca495991b7852b855"
    ));
}

fn streamed(chunks: &[&[u8]]) -> StreamDigest {
    let mut hashed = StreamDigest::new();
    for chunk in chunks {
        hashed.update(chunk);
    }
    hashed
}

#[test]
fn streamed_chunks_hash_like_the_whole() {
    assert_eq!(streamed(&[b"a", b"", b"bc"]).finalize(), abc_hash());
    assert_eq!(streamed(&[b"abc"]).finalize(), abc_hash());
    assert_ne!(streamed(&[b"ab"]).finalize(), abc_hash());
    assert_eq!(streamed(&[]).finalize().len(), 32);
}

#[test]
fn extraction_cases() {
    assert!(matches!(extraction_case(Ok(()), streamed(&[b"ab", b"c"]), Some(ABC_DIGEST.as_bytes())), Case::Deployed));
    assert!(matches!(extraction_case(Ok(()), streamed(&[b"abd"]), Some(ABC_DIGEST.as_bytes())), Case::HashUnmatch));
    assert!(matches!(extraction_case(Ok(()), streamed(&[]), Some(ABC_DIGEST.as_bytes())), Case::HashUnmatch));
    match extraction_case(Err(String::from("broken zip")), streamed(&[b"abc"]), None) {
        Case::Failed(reason) => assert_eq!(reason, "broken zip"),
        _ => panic!("expected a failure"),
    }
    assert!(!Case::Deployed.removes_destination());
    assert!(Case::HashUnmatch.removes_destination());
    assert!(Case::Failed(String::new()).removes_destination());
}

#[test]
fn worker_keeps_latest_pending_request() {
    let mut worker = DeployWorker::new();
    assert!(matches!(worker.submit("a"), Submission::Spawn("a")));
    assert!(matches!(worker.submit("b"), Submission::Suspended { replaced: None }));
    assert!(matches!(worker.submit("c"), Submission::Suspended { replaced: Some("b") }));
    assert_eq!(worker.finish(), Some("c"));
    assert_eq!(worker.finish(), None);
    assert!(matches!(worker.submit("d"), Submission::Spawn("d")));
}

#[test]
fn queue_deploys_in_arrival_order() {
    let mut queue = DeployQueue::new();
    assert_eq!(queue.submit(1), Some(1));
    assert_eq!(queue.submit(2), None);
    assert_eq!(queue.submit(3), None);
    assert_eq!(queue.finish(), Some(2));
    assert_eq!(queue.finish(), Some(3));
    assert_eq!(queue.finish(), None);
    assert_eq!(queue.submit(4), Some(4));
}

#[test]
fn entry_paths_are_sanitized() {
    assert_eq!(sanitize_file_path("dir/sub/file.txt"), vec!["dir", "sub", "file.txt"]);
    assert_eq!(sanitize_file_path("a\\..\\b"), vec!["a", "", "b"]);
    assert_eq!(sanitize_file_path("x/"), vec!["x", ""]);
    assert_eq!(sanitize_file_path("we?ird:name"), vec!["weirdname"]);
    assert_eq!(sanitize_file_path(""), vec![""]);
    assert_eq!(sanitize_file_path("ctl\u{7}x/..."), vec!["ctlx", ""]);
    assert_eq!(sanitize_file_path("über/ä b.txt"), vec!["über", "ä b.txt"]);
    let long = "é".repeat(200);
    let cut = &sanitize_file_path(&long)[0];
    assert_eq!(cut.len(), 254);
    assert!(long.starts_with(cut.as_str()));
    assert!(entry_is_dir("assets/"));
    assert!(!entry_is_dir("assets/index.html"));
    assert!(!entry_is_dir(""));
}

#[test]
fn archive_entries_are_planned() {
    assert!(matches!(plan_entry(None), EntryPlan::Skip));
    match plan_entry(Some("assets/img/")) {
        EntryPlan::Directory(c) => assert_eq!(c, vec!["assets", "img", ""]),
        _ => panic!("expected a directory"),
    }
    match plan_entry(Some("assets/a|b.js")) {
        EntryPlan::File(c) => assert_eq!(c, vec!["assets", "ab.js"]),
        _ => panic!("expected a file"),
    }
}

#[test]
fn container_commands() {
    assert_eq!(pull_image_args("ghcr.io/x/y:latest"), vec!["pull", "ghcr.io/x/y:latest"]);
    assert_eq!(
        compose_up_args("/srv/compose.yml", "api-api"),
        vec!["compose", "-f", "/srv/compose.yml", "up", "-d", "api-api", "--force-recreate"]
    );
    assert_eq!(reload_args("nginx"), vec!["exec", "nginx", "nginx", "-s", "reload"]);
}

#[test]
fn rollout_checks_before_each_command() {
    let mut r = Rollout::new();
    assert_eq!(r.after_check(State::Success(())), RolloutAction::PullImage);
    assert_eq!(r.after_command(true), RolloutAction::CheckBusiness);
    assert_eq!(r.after_check(State::Success(())), RolloutAction::ComposeUp);
    assert_eq!(r.after_command(true), RolloutAction::Finish(State::Success(())));

    let mut r = Rollout::new();
    assert_eq!(r.after_check(State::Stop), RolloutAction::Finish(State::Stop));
    let mut r = Rollout::new();
    assert_eq!(r.after_check(State::Retry), RolloutAction::Finish(State::Retry));
    let mut r = Rollout::new();
    r.after_check(State::Success(()));
    assert_eq!(r.after_command(false), RolloutAction::Finish(State::Retry));
    let mut r = Rollout::new();
    r.after_check(State::Success(()));
    r.after_command(true);
    assert_eq!(r.after_check(State::Stop), RolloutAction::Finish(State::Stop));
    let mut r = Rollout::new();
    r.after_check(State::Success(()));
    r.after_command(true);
    r.after_check(State::Success(()));
    assert_eq!(r.after_command(false), RolloutAction::Finish(State::Retry));
}

#[test]
fn single_request_is_deployed_and_worker_goes_idle() {
    let mut worker = DeployWorker::new();
    assert!(!worker.is_running());
    assert!(matches!(worker.submit(1), Submission::Spawn(1)));
    assert!(worker.is_running());
    assert_eq!(worker.finish(), None);
    assert!(!worker.is_running());
    worker.submit(2);
    assert!(matches!(worker.submit(3), Submission::Suspended { replaced: None }));
    assert_eq!(worker.finish(), Some(3));
    assert!(worker.is_running());
    assert_eq!(worker.finish(), None);
    assert!(!worker.is_running());
}

#[test]
fn deployment_retries_within_its_budget() {
    let mut run = DeployRun::new(2);
    assert!(matches!(run.after_fetch::<()>(State::Retry), DeployAction::Fetch));
    assert!(matches!(run.after_download::<()>(State::Retry), DeployAction::Fetch));
    assert!(matches!(run.after_fetch::<()>(State::Retry), DeployAction::Done));
    let mut run = DeployRun::new(0);
    assert!(matches!(run.after_fetch::<()>(State::Retry), DeployAction::Done));
    let mut run = DeployRun::new(0);
    assert!(matches!(run.after_fetch::<()>(State::Stop), DeployAction::Done));
}
