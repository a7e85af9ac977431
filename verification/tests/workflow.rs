use api::framework::state::State;
use api::website::{PostPayload, PostPayloadDestination};
use api::update;
use api::workflow::{
    artifacts_url, resolve_artifact, resolve_artifacts, resolve_download, Artifact, Artifacts, ArtifactsResponse,
    WorkflowRun, GONE,
};

fn artifact(id: u64) -> Artifact {
    Artifact {
        id,
        node_id: String::from("MDg6QXJ0aWZhY3Qx"),
        name: String::from("dist"),
        size_in_bytes: 1024,
        url: format!("https://api.github.com/repos/o/r/actions/artifacts/{id}"),
        archive_download_url: format!("https://api.github.com/repos/o/r/actions/artifacts/{id}/zip"),
        expired: false,
        created_at: Some(String::from("2024-01-01T00:00:00Z")),
        expires_at: None,
        updated_at: None,
        digest: Some(String::from("sha256:00")),
        workflow_run: Some(WorkflowRun {
            id: 5,
            repository_id: 6,
            head_repository_id: 6,
            head_branch: String::from("main"),
            head_sha: String::from("abc"),
        }),
    }
}

fn parsed(total_count: u8, n: u64) -> ArtifactsResponse {
    ArtifactsResponse::Parsed(Artifacts { total_count, artifacts: (1..=n).map(artifact).collect() })
}

#[test]
fn url_lists_run_artifacts() {
    assert_eq!(
        artifacts_url("KessokuTeaTime", "website", "123"),
        "https://api.github.com/repos/KessokuTeaTime/website/actions/runs/123/artifacts"
    );
}

#[test]
fn send_failures() {
    let r = resolve_artifacts(ArtifactsResponse::SendFailed { is_connect: true, is_timeout: false }, None);
    assert!(matches!(r, State::Retry));
    let r = resolve_artifacts(ArtifactsResponse::SendFailed { is_connect: false, is_timeout: true }, None);
    assert!(matches!(r, State::Retry));
    let r = resolve_artifacts(ArtifactsResponse::SendFailed { is_connect: false, is_timeout: false }, None);
    assert!(matches!(r, State::Stop));
    assert!(matches!(resolve_artifacts(ArtifactsResponse::ParseFailed, Some(1)), State::Retry));
}

#[test]
fn artifact_counts() {
    assert!(matches!(resolve_artifacts(parsed(0, 0), None), State::Stop));
    assert!(matches!(resolve_artifacts(parsed(0, 0), Some(0)), State::Stop));
    assert!(matches!(resolve_artifacts(parsed(1, 1), Some(2)), State::Stop));
    assert!(matches!(resolve_artifacts(parsed(3, 3), Some(2)), State::Stop));
    match resolve_artifacts(parsed(2, 2), Some(2)) {
        State::Success(v) => assert_eq!(v.iter().map(|a| a.id).collect::<Vec<_>>(), vec![1, 2]),
        _ => panic!("expected a success"),
    }
    match resolve_artifacts(parsed(4, 4), None) {
        State::Success(v) => assert_eq!(v.len(), 4),
        _ => panic!("expected a success"),
    }
}

#[test]
fn only_artifact() {
    match resolve_artifact(parsed(1, 1)) {
        State::Success(a) => {
            assert_eq!(a.id, 1);
            assert_eq!(a.archive_download_url, "https://api.github.com/repos/o/r/actions/artifacts/1/zip");
        }
        _ => panic!("expected a success"),
    }
    assert!(matches!(resolve_artifact(parsed(2, 2)), State::Stop));
    assert!(matches!(resolve_artifact(ArtifactsResponse::ParseFailed), State::Retry));
}

#[test]
fn download_answers() {
    assert!(matches!(resolve_download::<u8>(Ok(3)), State::Success(3)));
    assert!(matches!(resolve_download::<u8>(Err(Some(GONE))), State::Stop));
    assert!(matches!(resolve_download::<u8>(Err(Some(500))), State::Retry));
    assert!(matches!(resolve_download::<u8>(Err(None)), State::Retry));
}

#[test]
fn destination_names_round_trip() {
    for d in [PostPayloadDestination::Website, PostPayloadDestination::Calendar] {
        assert_eq!(PostPayloadDestination::from_name(d.name()), Ok(d));
    }
    assert_eq!(PostPayloadDestination::from_name("www"), Ok(PostPayloadDestination::Website));
    assert_eq!(PostPayloadDestination::from_name("calendar"), Ok(PostPayloadDestination::Calendar));
    assert_eq!(PostPayloadDestination::from_name("blog"), Err(String::from("unknown destination: blog")));
    assert_eq!(PostPayloadDestination::Website.describe(), "website (www)");
    assert_eq!(PostPayloadDestination::Calendar.describe(), "calendar (calendar)");
}

#[test]
fn payload_types() {
    let p = PostPayload { image: String::from("img"), target: PostPayloadDestination::Calendar };
    assert_eq!(p.target.name(), "calendar");
    let u = update::PostPayload { image: String::from("api:latest") };
    assert_eq!(u.image, "api:latest");
    let a = update::Payload { run_id: String::from("77") };
    assert_eq!(a.run_id, "77");
}
