//! The decisions of one request: whether a body leads to a run of the
//! external process, and which response a run gives.
//!
//! One request goes through `Received`, `Spawned`, `Draining`, `Completed`
//! and `Responded` in that order. What happens between the decisions (the
//! spawn, reading both output streams at once, waiting for the exit) is done
//! by the caller; the decisions are here.
use vstd::prelude::*;
use vstd::string::StringExecFns;
use crate::request::{argument_text, body_fields, CrewRequest, RequestError};
use crate::json::json_parse;

verus! {

pub const STATUS_OK: u16 = 200;

pub const STATUS_BAD_REQUEST: u16 = 400;

pub const STATUS_INTERNAL_ERROR: u16 = 500;

/// Why a run gave no record.
#[derive(Debug, PartialEq, Eq, Structural, Clone, Copy)]
pub enum FailureReason {
    /// The process ran to its end without a qualifying record.
    NoRecord,
    /// The process could not be started.
    SpawnError,
    /// The process ran past its time limit and was stopped.
    TimedOut,
}

/// What one run of the external process comes to.
pub enum ProcessOutcome {
    Success(serde_json::Value),
    Failure(FailureReason),
}

/// What the caller observed of one run: a failed spawn, a run stopped at its
/// time limit, or the record kept from standard output together with the exit
/// code, where there is one.
pub enum RunReport {
    SpawnFailed,
    TimedOut,
    Exited { record: Option<serde_json::Value>, exit_code: Option<i32> },
}

/// The body of an HTTP response: a record verbatim, or an error message that
/// goes out as `{"error": message}`.
pub enum ResponseBody {
    Record(serde_json::Value),
    Error(String),
}

pub struct Response {
    pub status: u16,
    pub body: ResponseBody,
}

/// What to do with a request body.
pub enum Step {
    /// Answer at once, without starting the process.
    Reject(Response),
    /// Start the process with this argument.
    Run(String),
}

/// The message of the error response of a run without a record.
pub open spec fn no_output_message() -> Seq<char> {
    "No JSON output from crew"@
}

/// The message of the error response to a body that is no JSON.
pub open spec fn not_json_message() -> Seq<char> {
    "Request body is not JSON"@
}

/// The message of the error response to a body without the four string fields.
pub open spec fn missing_field_message() -> Seq<char> {
    "Request body lacks a required string field"@
}

/// The outcome of a run: only the record decides, never the exit code.
pub open spec fn outcome_spec(report: RunReport) -> ProcessOutcome {
    match report {
        RunReport::SpawnFailed => ProcessOutcome::Failure(FailureReason::SpawnError),
        RunReport::TimedOut => ProcessOutcome::Failure(FailureReason::TimedOut),
        RunReport::Exited { record, exit_code } => match record {
            Some(v) => ProcessOutcome::Success(v),
            None => ProcessOutcome::Failure(FailureReason::NoRecord),
        },
    }
}

/// A response as status and model of its body: the record, or the error text.
pub open spec fn response_model(r: Response) -> (u16, Result<serde_json::Value, Seq<char>>) {
    match r.body {
        ResponseBody::Record(v) => (r.status, Ok(v)),
        ResponseBody::Error(m) => (r.status, Err(m@)),
    }
}

/// The response to an outcome: the record with status 200, or the generic
/// error with status 500 for both kinds of failure.
pub open spec fn response_spec(outcome: ProcessOutcome) -> (u16, Result<serde_json::Value, Seq<char>>) {
    match outcome {
        ProcessOutcome::Success(v) => (STATUS_OK, Ok(v)),
        ProcessOutcome::Failure(_) => (STATUS_INTERNAL_ERROR, Err(no_output_message())),
    }
}

/// The process argument for the four fields of a request.
pub open spec fn argument_of(f: (Seq<char>, Seq<char>, Seq<char>, Seq<char>)) -> Seq<char> {
    argument_text(f.0, f.1, f.2, f.3)
}

/// The step for a body, as the argument to run with or the rejection.
pub open spec fn step_spec(body: Seq<char>) -> Result<Seq<char>, (u16, Result<serde_json::Value, Seq<char>>)> {
    match body_fields(body) {
        Some(f) => Ok(argument_of(f)),
        None => Err(
            (
                STATUS_BAD_REQUEST,
                Err(
                    if json_parse(body) is None {
                        not_json_message()
                    } else {
                        missing_field_message()
                    },
                ),
            ),
        ),
    }
}

/// The model of a step, in the shape of `step_spec`.
pub open spec fn step_model(s: Step) -> Result<Seq<char>, (u16, Result<serde_json::Value, Seq<char>>)> {
    match s {
        Step::Run(arg) => Ok(arg@),
        Step::Reject(r) => Err(response_model(r)),
    }
}

/// The outcome of a run from what was observed of it.
pub fn outcome_of(report: RunReport) -> (r: ProcessOutcome)
    ensures
        r == outcome_spec(report),
{
    match report {
        RunReport::SpawnFailed => ProcessOutcome::Failure(FailureReason::SpawnError),
        RunReport::TimedOut => ProcessOutcome::Failure(FailureReason::TimedOut),
        RunReport::Exited { record, exit_code: _ } => match record {
            Some(v) => ProcessOutcome::Success(v),
            None => ProcessOutcome::Failure(FailureReason::NoRecord),
        },
    }
}

/// The HTTP response to an outcome.
pub fn respond(outcome: ProcessOutcome) -> (r: Response)
    ensures
        response_model(r) == response_spec(outcome),
{
    match outcome {
        ProcessOutcome::Success(v) => Response { status: STATUS_OK, body: ResponseBody::Record(v) },
        ProcessOutcome::Failure(_) => Response {
            status: STATUS_INTERNAL_ERROR,
            body: ResponseBody::Error(String::from_str("No JSON output from crew")),
        },
    }
}

/// The HTTP response to what was observed of a run.
pub fn conclude(report: RunReport) -> (r: Response)
    ensures
        response_model(r) == response_spec(outcome_spec(report)),
{
    respond(outcome_of(report))
}

/// What to do with a request body: run the process with the request as its
/// argument, or reject the body with status 400.
pub fn handle_body(body: &str) -> (r: Step)
    ensures
        step_model(r) == step_spec(body@),
{
    match CrewRequest::parse(body) {
        Ok(req) => Step::Run(req.to_argument()),
        Err(RequestError::NotJson) => Step::Reject(
            Response {
                status: STATUS_BAD_REQUEST,
                body: ResponseBody::Error(String::from_str("Request body is not JSON")),
            },
        ),
        Err(RequestError::MissingField) => Step::Reject(
            Response {
                status: STATUS_BAD_REQUEST,
                body: ResponseBody::Error(
                    String::from_str("Request body lacks a required string field"),
                ),
            },
        ),
    }
}

/// A well-formed body always leads to a run of the process with the request
/// as its argument, and whatever the run comes to, it is answered with one
/// response: the record with 200, or the error with 500.
pub proof fn lemma_valid_body_is_answered(body: Seq<char>, report: RunReport)
    requires
        body_fields(body) is Some,
    ensures
        step_spec(body) == Ok::<Seq<char>, (u16, Result<serde_json::Value, Seq<char>>)>(
            argument_of(body_fields(body)->0),
        ),
        response_spec(outcome_spec(report)).0 == STATUS_OK || response_spec(
            outcome_spec(report),
        ).0 == STATUS_INTERNAL_ERROR,
        response_spec(outcome_spec(report)).0 == STATUS_OK <==> (report matches RunReport::Exited {
            record: Some(_),
            ..
        }),
{
}

/// A run that kept no record is answered with status 500 and the generic
/// error, whatever its exit code.
pub proof fn lemma_no_record_fails_whatever_exit(exit_code: Option<i32>)
    ensures
        response_spec(outcome_spec(RunReport::Exited { record: None, exit_code })) == (
            STATUS_INTERNAL_ERROR,
            Err::<serde_json::Value, Seq<char>>(no_output_message()),
        ),
{
}

/// A process that could not be started is answered with status 500 and the
/// generic error.
pub proof fn lemma_spawn_failure_fails()
    ensures
        outcome_spec(RunReport::SpawnFailed) == ProcessOutcome::Failure(FailureReason::SpawnError),
        response_spec(outcome_spec(RunReport::SpawnFailed)) == (
            STATUS_INTERNAL_ERROR,
            Err::<serde_json::Value, Seq<char>>(no_output_message()),
        ),
{
}

/// A run stopped at its time limit is answered with status 500 and the
/// generic error.
pub proof fn lemma_time_out_fails()
    ensures
        outcome_spec(RunReport::TimedOut) == ProcessOutcome::Failure(FailureReason::TimedOut),
        response_spec(outcome_spec(RunReport::TimedOut)) == (
            STATUS_INTERNAL_ERROR,
            Err::<serde_json::Value, Seq<char>>(no_output_message()),
        ),
{
}

/// A malformed body is rejected with a status in the 400s, and the process
/// is not started for it.
pub proof fn lemma_malformed_body_rejected(body: Seq<char>)
    requires
        body_fields(body) is None,
    ensures
        step_spec(body) matches Err(rejection) && 400 <= rejection.0 < 500,
{
}

} // verus!
