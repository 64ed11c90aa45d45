//! One request's lifecycle as a state machine. The caller performs each
//! action (start the process, read both streams at once, wait for the exit,
//! send the response) and hands back what happened as the next event.
//!
//! The phases only move forward, and a request is answered exactly once: by
//! the time it is `Responded`, one response has been sent, and none before.
use vstd::prelude::*;
use crate::handler::{
    conclude, handle_body, outcome_spec, response_model, response_spec, step_spec, Response,
    RunReport, Step,
};

verus! {

#[derive(Debug, PartialEq, Eq, Structural, Clone, Copy)]
pub enum Phase {
    Received,
    Spawned,
    Draining,
    Completed,
    Responded,
}

/// What the caller observed since the last action.
pub enum Event {
    /// The request body arrived.
    BodyArrived(String),
    /// The process could not be started.
    SpawnFailed,
    /// The process was started.
    Started,
    /// Both output streams reached their end; the record kept from standard
    /// output, if any.
    StreamsEnded(Option<serde_json::Value>),
    /// The process exited, with its exit code where there is one.
    Exited(Option<i32>),
    /// The time limit of the run passed; the process has been stopped.
    TimedOut,
}

/// What the caller does next.
pub enum Action {
    /// Start the external process with this argument.
    StartProcess(String),
    /// Read standard output and standard error to their end, at once.
    DrainStreams,
    /// Wait for the process to exit.
    AwaitExit,
    /// Send this response; the request is done.
    Send(Response),
    /// The event does not fit the phase: nothing to do.
    Ignore,
}

/// The position of a phase in the lifecycle.
pub open spec fn rank(p: Phase) -> nat {
    match p {
        Phase::Received => 0,
        Phase::Spawned => 1,
        Phase::Draining => 2,
        Phase::Completed => 3,
        Phase::Responded => 4,
    }
}

/// The phase after an event.
pub open spec fn next_phase(p: Phase, e: Event) -> Phase {
    match (p, e) {
        (Phase::Received, Event::BodyArrived(b)) => if step_spec(b@) is Ok {
            Phase::Spawned
        } else {
            Phase::Responded
        },
        (Phase::Spawned, Event::SpawnFailed) => Phase::Responded,
        (Phase::Spawned, Event::Started) => Phase::Draining,
        (Phase::Draining, Event::StreamsEnded(_)) => Phase::Completed,
        (Phase::Completed, Event::Exited(_)) => Phase::Responded,
        (Phase::Draining, Event::TimedOut) => Phase::Responded,
        (Phase::Completed, Event::TimedOut) => Phase::Responded,
        _ => p,
    }
}

/// Whether an event in a phase leads to sending the response.
pub open spec fn sends(p: Phase, e: Event) -> bool {
    p != Phase::Responded && next_phase(p, e) == Phase::Responded
}

pub struct Session {
    phase: Phase,
    record: Option<serde_json::Value>,
    sent: Ghost<nat>,
}

impl Session {
    pub closed spec fn phase_of(&self) -> Phase {
        self.phase
    }

    /// The record kept once both streams ended.
    pub closed spec fn record(&self) -> Option<serde_json::Value> {
        self.record
    }

    /// How many responses were sent for this request.
    pub closed spec fn responses_sent(&self) -> nat {
        self.sent@
    }

    /// One response once the request is done, none before.
    pub open spec fn wf(&self) -> bool {
        self.responses_sent() == (if self.phase_of() == Phase::Responded {
            1nat
        } else {
            0nat
        })
    }

    pub fn new() -> (r: Session)
        ensures
            r.wf(),
            r.phase_of() == Phase::Received,
            r.record() is None,
            r.responses_sent() == 0,
    {
        Session { phase: Phase::Received, record: None, sent: Ghost(0) }
    }

    pub fn phase(&self) -> (r: Phase)
        ensures
            r == self.phase_of(),
    {
        self.phase
    }

    /// Takes the next event and says what to do.
    pub fn step(&mut self, event: Event) -> (a: Action)
        requires
            old(self).wf(),
        ensures
            final(self).wf(),
            final(self).phase_of() == next_phase(old(self).phase_of(), event),
            rank(final(self).phase_of()) >= rank(old(self).phase_of()),
            final(self).responses_sent() == old(self).responses_sent() + (if a is Send {
                1nat
            } else {
                0nat
            }),
            a is Send <==> sends(old(self).phase_of(), event),
            (match (old(self).phase_of(), event) {
                (Phase::Received, Event::BodyArrived(b)) => match step_spec(b@) {
                    Ok(arg) => a matches Action::StartProcess(x) && x@ == arg,
                    Err(resp) => a matches Action::Send(r) && response_model(r) == resp,
                },
                (Phase::Spawned, Event::SpawnFailed) => a matches Action::Send(r) && response_model(r)
                    == response_spec(outcome_spec(RunReport::SpawnFailed)),
                (Phase::Spawned, Event::Started) => a is DrainStreams,
                (Phase::Draining, Event::StreamsEnded(rec)) => a is AwaitExit && final(self).record()
                    == rec,
                (Phase::Completed, Event::Exited(code)) => a matches Action::Send(r) && response_model(
                    r,
                ) == response_spec(
                    outcome_spec(RunReport::Exited { record: old(self).record(), exit_code: code }),
                ),
                (Phase::Draining, Event::TimedOut) => a matches Action::Send(r) && response_model(r)
                    == response_spec(outcome_spec(RunReport::TimedOut)),
                (Phase::Completed, Event::TimedOut) => a matches Action::Send(r) && response_model(r)
                    == response_spec(outcome_spec(RunReport::TimedOut)),
                _ => a is Ignore && final(self).record() == old(self).record(),
            }),
    {
        match (self.phase, event) {
            (Phase::Received, Event::BodyArrived(body)) => match handle_body(body.as_str()) {
                Step::Run(arg) => {
                    self.phase = Phase::Spawned;
                    Action::StartProcess(arg)
                },
                Step::Reject(resp) => {
                    self.phase = Phase::Responded;
                    self.sent = Ghost(self.sent@ + 1);
                    Action::Send(resp)
                },
            },
            (Phase::Spawned, Event::SpawnFailed) => {
                self.phase = Phase::Responded;
                self.sent = Ghost(self.sent@ + 1);
                Action::Send(conclude(RunReport::SpawnFailed))
            },
            (Phase::Spawned, Event::Started) => {
                self.phase = Phase::Draining;
                Action::DrainStreams
            },
            (Phase::Draining, Event::StreamsEnded(rec)) => {
                self.phase = Phase::Completed;
                self.record = rec;
                Action::AwaitExit
            },
            (Phase::Completed, Event::Exited(code)) => {
                let record = self.record.take();
                self.phase = Phase::Responded;
                self.sent = Ghost(self.sent@ + 1);
                Action::Send(conclude(RunReport::Exited { record, exit_code: code }))
            },
            (Phase::Draining, Event::TimedOut) | (Phase::Completed, Event::TimedOut) => {
                self.phase = Phase::Responded;
                self.sent = Ghost(self.sent@ + 1);
                Action::Send(conclude(RunReport::TimedOut))
            },
            _ => Action::Ignore,
        }
    }
}

/// A well-formed request runs through the phases in order and gets its one
/// response at the end, whether the process failed to start, ran past its time
/// limit or ran to its exit, whatever it kept and whatever its exit code; no
/// event after that sends another.
pub proof fn lemma_request_answered_once(
    body: String,
    record: Option<serde_json::Value>,
    exit_code: Option<i32>,
    later: Event,
)
    requires
        step_spec(body@) is Ok,
    ensures
        next_phase(Phase::Received, Event::BodyArrived(body)) == Phase::Spawned,
        !sends(Phase::Received, Event::BodyArrived(body)),
        next_phase(Phase::Spawned, Event::SpawnFailed) == Phase::Responded,
        sends(Phase::Spawned, Event::SpawnFailed),
        next_phase(Phase::Spawned, Event::Started) == Phase::Draining,
        !sends(Phase::Spawned, Event::Started),
        next_phase(Phase::Draining, Event::StreamsEnded(record)) == Phase::Completed,
        !sends(Phase::Draining, Event::StreamsEnded(record)),
        next_phase(Phase::Completed, Event::Exited(exit_code)) == Phase::Responded,
        sends(Phase::Completed, Event::Exited(exit_code)),
        sends(Phase::Draining, Event::TimedOut),
        sends(Phase::Completed, Event::TimedOut),
        next_phase(Phase::Responded, later) == Phase::Responded,
        !sends(Phase::Responded, later),
{
}

/// A malformed request is answered at once, and the process never starts for
/// it: no later event leads anywhere else.
pub proof fn lemma_malformed_request_answered_at_once(body: String, later: Event)
    requires
        step_spec(body@) is Err,
    ensures
        next_phase(Phase::Received, Event::BodyArrived(body)) == Phase::Responded,
        sends(Phase::Received, Event::BodyArrived(body)),
        next_phase(Phase::Responded, later) == Phase::Responded,
        !sends(Phase::Responded, later),
{
}

/// Nothing is kept from one request to the next: the same well-formed body,
/// sent twice, starts the process twice with the same argument, and neither
/// request is answered before its own run.
pub proof fn lemma_each_request_runs(first: String, second: String)
    requires
        first@ == second@,
        step_spec(first@) is Ok,
    ensures
        next_phase(Phase::Received, Event::BodyArrived(first)) == Phase::Spawned,
        next_phase(Phase::Received, Event::BodyArrived(second)) == Phase::Spawned,
        !sends(Phase::Received, Event::BodyArrived(first)),
        !sends(Phase::Received, Event::BodyArrived(second)),
        step_spec(first@) == step_spec(second@),
{
}

} // verus!
