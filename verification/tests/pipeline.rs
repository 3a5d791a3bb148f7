use atlantic_sdk::client::{handle_submit_response, poll_session, poll_step, PollConfig, PollState, PollStep};
use atlantic_sdk::error::AtlanticSdkError;
use atlantic_sdk::extract::process_proof_text;
use atlantic_sdk::felt::{chain_hash, FieldElement};
use atlantic_sdk::models::{JobResponse, StageName};

fn snapshot(text: &str) -> JobResponse {
    JobResponse::parse(text).unwrap()
}

const FIRST_POLL: &str = r#"{
    "jobs": [
        {"id": "j1", "sharpQueryId": "Q1", "status": "PENDING",
         "jobName": "TRACE_GENERATION", "createdAt": "t0"}
    ],
    "steps": ["TRACE_GENERATION", "PROOF_GENERATION"]
}"#;

const SECOND_POLL: &str = r#"{
    "jobs": [
        {"id": "j1", "sharpQueryId": "Q1", "status": "COMPLETED",
         "jobName": "TRACE_GENERATION", "createdAt": "t0", "completedAt": "t1"},
        {"id": "j2", "sharpQueryId": "Q1", "status": "COMPLETED",
         "jobName": "PROOF_GENERATION", "createdAt": "t1", "completedAt": "t2",
         "context": {"proofPath": "q1/proof.json"}}
    ],
    "steps": ["TRACE_GENERATION", "PROOF_GENERATION"]
}"#;

#[test]
fn happy_path_scenario() {
    // submission is accepted with query id Q1
    let accepted = handle_submit_response(201, r#"{"atlanticQueryId": "Q1"}"#).unwrap();
    assert_eq!(accepted.atlantic_query_id, "Q1");

    // first poll: trace generation still pending
    let first = snapshot(FIRST_POLL);
    assert_eq!(first.current_stage(), Some(StageName::TraceGeneration));
    assert_eq!(first.proof_path(), None);

    // second poll: both stages completed, proof path present
    let second = snapshot(SECOND_POLL);
    assert_eq!(second.current_stage(), None);
    assert_eq!(second.proof_path(), Some(&"q1/proof.json".to_string()));

    // the session ends on the second snapshot
    let result = poll_session(&vec![snapshot(FIRST_POLL), snapshot(SECOND_POLL)], 10);
    assert_eq!(result, Ok(1));

    // the fetched document extracts, and its output hash matches the
    // recomputed hash of the output
    let doc = r#"{
        "cairoVersion": 0,
        "programOutputHash": "0x4",
        "memorySegments": [
            {"name": "program", "values": ["0x7"]},
            {"name": "output", "values": ["0x1", "0x2"]}
        ]
    }"#;
    let artifact = process_proof_text(doc).unwrap();
    assert_eq!(artifact.program_output_hash, chain_hash(&artifact.program_output));
    assert_eq!(artifact.program_output_hash, FieldElement::from_u64(4));
}

#[test]
fn rejected_submission_surfaces_body_verbatim() {
    let r = handle_submit_response(400, "invalid program hash");
    assert_eq!(
        r,
        Err(AtlanticSdkError::SubmissionRejected(
            "invalid program hash".to_string()
        ))
    );
}

#[test]
fn accepted_submission_with_bad_body_is_decode_error() {
    let r = handle_submit_response(201, "not json at all");
    assert!(matches!(r, Err(AtlanticSdkError::Decode(_))));
}

#[test]
fn poll_timeout_after_budget_not_later() {
    // ten non-terminal snapshots under a budget of ten attempts:
    // TimeoutExceeded after attempt 10, never an eleventh attempt
    let mut snaps: Vec<JobResponse> = Vec::new();
    for _ in 0..10 {
        snaps.push(snapshot(FIRST_POLL));
    }
    assert_eq!(
        poll_session(&snaps, 10),
        Err(AtlanticSdkError::TimeoutExceeded)
    );

    // the incremental state machine agrees: the tenth snapshot times out
    let config = PollConfig { max_attempts: 10, interval_units: 1 };
    let mut state = PollState { attempts_used: 0 };
    let mut steps_taken = 0;
    loop {
        steps_taken += 1;
        match poll_step(&config, &state, &snapshot(FIRST_POLL)) {
            PollStep::Done => panic!("never terminal"),
            PollStep::Wait(next) => state = next,
            PollStep::TimedOut => break,
        }
    }
    assert_eq!(steps_taken, 10);
}

#[test]
fn poll_step_stops_on_terminal_snapshot() {
    let config = PollConfig { max_attempts: 10, interval_units: 1 };
    let state = PollState { attempts_used: 3 };
    assert_eq!(
        poll_step(&config, &state, &snapshot(SECOND_POLL)),
        PollStep::Done
    );
}

#[test]
fn current_stage_is_earliest_non_completed() {
    // a later stage reporting COMPLETED out of order does not hide the
    // earlier pending stage
    let out_of_order = snapshot(
        r#"{
        "jobs": [
            {"id": "a", "sharpQueryId": "Q", "status": "IN_PROGRESS",
             "jobName": "TRACE_GENERATION", "createdAt": "t"},
            {"id": "b", "sharpQueryId": "Q", "status": "COMPLETED",
             "jobName": "PROOF_GENERATION", "createdAt": "t"}
        ],
        "steps": ["TRACE_GENERATION", "PROOF_GENERATION"]
    }"#,
    );
    assert_eq!(
        out_of_order.current_stage(),
        Some(StageName::TraceGeneration)
    );
}

#[test]
fn current_stage_none_iff_all_jobs_completed() {
    let done = snapshot(SECOND_POLL);
    assert_eq!(done.current_stage(), None);
    assert!(done.jobs.iter().all(|j| j.status == "COMPLETED"));

    let pending = snapshot(FIRST_POLL);
    assert!(pending.current_stage().is_some());
    assert!(!pending.jobs.iter().all(|j| j.status == "COMPLETED"));
}

#[test]
fn unknown_status_tokens_count_as_pending() {
    let future_token = snapshot(
        r#"{
        "jobs": [
            {"id": "a", "sharpQueryId": "Q", "status": "SOME_FUTURE_STATE",
             "jobName": "TRACE_GENERATION", "createdAt": "t"}
        ],
        "steps": ["TRACE_GENERATION"]
    }"#,
    );
    assert_eq!(
        future_token.current_stage(),
        Some(StageName::TraceGeneration)
    );
}
