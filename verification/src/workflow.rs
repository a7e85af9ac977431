//! Data models of GitHub Actions workflows and artifacts, and the decisions taken on
//! the answers of the GitHub REST API.

use vstd::prelude::*;

use crate::framework::state::State;

verus! {

/// A GitHub Actions workflow run, as the GitHub REST API describes it.
#[derive(Debug, Clone)]
pub struct WorkflowRun {
    pub id: u64,
    pub repository_id: u64,
    pub head_repository_id: u64,
    pub head_branch: String,
    pub head_sha: String,
}

/// An artifact, as the GitHub REST API describes it.
#[derive(Debug, Clone)]
pub struct Artifact {
    pub id: u64,
    pub node_id: String,
    pub name: String,
    pub size_in_bytes: u64,
    pub url: String,
    pub archive_download_url: String,
    pub expired: bool,
    pub created_at: Option<String>,
    pub expires_at: Option<String>,
    pub updated_at: Option<String>,
    pub digest: Option<String>,
    pub workflow_run: Option<WorkflowRun>,
}

/// The artifacts of a workflow run, as the GitHub REST API lists them.
#[derive(Debug, Clone)]
pub struct Artifacts {
    pub total_count: u8,
    pub artifacts: Vec<Artifact>,
}

/// How a request for the artifacts of a run ended.
pub enum ArtifactsResponse {
    /// The request could not be sent or answered; whether it failed to connect or
    /// timed out.
    SendFailed { is_connect: bool, is_timeout: bool },
    /// An answer came but was not a valid list of artifacts.
    ParseFailed,
    /// The list of artifacts.
    Parsed(Artifacts),
}

/// The URL that lists the artifacts of a workflow run.
pub open spec fn spec_artifacts_url(owner: Seq<char>, repo: Seq<char>, run_id: Seq<char>) -> Seq<char> {
    "https://api.github.com/repos/"@ + owner + "/"@ + repo + "/actions/runs/"@ + run_id + "/artifacts"@
}

/// The URL that lists the artifacts of a workflow run.
pub fn artifacts_url(owner: &str, repo: &str, run_id: &str) -> (url: String)
    ensures
        url@ == spec_artifacts_url(owner@, repo@, run_id@),
{
    let mut url = String::from_str("https://api.github.com/repos/");
    url.append(owner);
    url.append("/");
    url.append(repo);
    url.append("/actions/runs/");
    url.append(run_id);
    url.append("/artifacts");
    url
}

/// Whether a list of `total` artifacts is what was asked for: never an empty list,
/// and exactly `count` artifacts when a count is given.
pub open spec fn accepted_count(total: u8, count: Option<u8>) -> bool {
    &&& total != 0
    &&& count matches Some(c) ==> total == c
}

/// What `resolve_artifacts` yields for a response.
pub open spec fn spec_resolve_artifacts(response: ArtifactsResponse, count: Option<u8>) -> State<Seq<Artifact>> {
    match response {
        ArtifactsResponse::SendFailed { is_connect, is_timeout } => if is_connect || is_timeout {
            State::Retry
        } else {
            State::Stop
        },
        ArtifactsResponse::ParseFailed => State::Retry,
        ArtifactsResponse::Parsed(json) => if accepted_count(json.total_count, count) {
            State::Success(json.artifacts@)
        } else {
            State::Stop
        },
    }
}

/// Decides on the answer to a request for the artifacts of a run: a connection
/// failure or a timeout is retried and any other send failure stops; an answer that
/// cannot be parsed is retried; an empty list, or a list whose total count differs
/// from the requested `count`, stops; otherwise the artifacts are returned.
pub fn resolve_artifacts(response: ArtifactsResponse, count: Option<u8>) -> (r: State<Vec<Artifact>>)
    ensures
        match (r, spec_resolve_artifacts(response, count)) {
            (State::Success(v), State::Success(w)) => v@ == w,
            (State::Retry, State::Retry) => true,
            (State::Stop, State::Stop) => true,
            _ => false,
        },
        response matches ArtifactsResponse::SendFailed { is_connect, is_timeout } ==> (r is Retry
            <==> is_connect || is_timeout) && (r is Stop <==> !is_connect && !is_timeout),
        response is ParseFailed ==> r is Retry,
{
    match response {
        ArtifactsResponse::SendFailed { is_connect, is_timeout } => {
            if is_connect || is_timeout {
                State::Retry
            } else {
                State::Stop
            }
        },
        ArtifactsResponse::ParseFailed => State::Retry,
        ArtifactsResponse::Parsed(json) => {
            if json.total_count == 0 {
                State::Stop
            } else {
                match count {
                    Some(c) => {
                        if json.total_count < c {
                            State::Stop
                        } else if json.total_count > c {
                            State::Stop
                        } else {
                            State::Success(json.artifacts)
                        }
                    },
                    None => State::Success(json.artifacts),
                }
            }
        },
    }
}

/// How a request for artifacts ends, whatever count is requested: a send failure that
/// is a connection failure or a timeout is retried and any other send failure stops;
/// an answer that cannot be parsed is retried; a parsed answer succeeds, with the
/// listed artifacts, exactly when its total count is not zero and is the requested
/// count, if one is requested.
pub proof fn lemma_artifact_answers(is_connect: bool, is_timeout: bool, json: Artifacts, count: Option<u8>)
    ensures
        spec_resolve_artifacts(ArtifactsResponse::SendFailed { is_connect, is_timeout }, count) is Retry
            <==> is_connect || is_timeout,
        spec_resolve_artifacts(ArtifactsResponse::SendFailed { is_connect, is_timeout }, count) is Stop
            <==> !is_connect && !is_timeout,
        spec_resolve_artifacts(ArtifactsResponse::ParseFailed, count) is Retry,
        spec_resolve_artifacts(ArtifactsResponse::Parsed(json), count) !is Retry,
        spec_resolve_artifacts(ArtifactsResponse::Parsed(json), count) is Success <==> json.total_count != 0
            && (count matches Some(c) ==> c == json.total_count),
        spec_resolve_artifacts(ArtifactsResponse::Parsed(json), count) matches State::Success(listed)
            ==> listed == json.artifacts@,
{
}

/// Whether a response that promises exactly one artifact also lists one.
pub open spec fn lists_promised_artifact(response: ArtifactsResponse) -> bool {
    match response {
        ArtifactsResponse::Parsed(json) => json.total_count == 1 ==> json.artifacts@.len() >= 1,
        _ => true,
    }
}

/// Decides on the answer to a request for the only artifact of a run: as
/// `resolve_artifacts` with a count of one, and the first listed artifact on success.
pub fn resolve_artifact(response: ArtifactsResponse) -> (r: State<Artifact>)
    requires
        lists_promised_artifact(response),
    ensures
        match (r, spec_resolve_artifacts(response, Some(1u8))) {
            (State::Success(a), State::Success(w)) => a == w[0],
            (State::Retry, State::Retry) => true,
            (State::Stop, State::Stop) => true,
            _ => false,
        },
        response matches ArtifactsResponse::SendFailed { is_connect, is_timeout } ==> (r is Retry
            <==> is_connect || is_timeout) && (r is Stop <==> !is_connect && !is_timeout),
        response is ParseFailed ==> r is Retry,
{
    match resolve_artifacts(response, Some(1u8)) {
        State::Success(mut artifacts) => {
            assert(artifacts@.len() >= 1);
            State::Success(artifacts.remove(0))
        },
        State::Retry => State::Retry,
        State::Stop => State::Stop,
    }
}

/// The HTTP status that marks an artifact as expired or removed.
pub const GONE: u16 = 410;

/// Decides on the answer to a download request: the download goes on when the request
/// was answered; an artifact that is gone stops; any other failure, with or without a
/// status, is retried.
pub fn resolve_download<S>(response: Result<S, Option<u16>>) -> (r: State<S>)
    ensures
        match response {
            Ok(s) => r == State::Success(s),
            Err(Some(status)) => if status == GONE { r is Stop } else { r is Retry },
            Err(None) => r is Retry,
        },
{
    match response {
        Ok(stream) => State::Success(stream),
        Err(Some(status)) => {
            if status == GONE {
                State::Stop
            } else {
                State::Retry
            }
        },
        Err(None) => State::Retry,
    }
}

} // verus!
