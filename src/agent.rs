//! The decisions of the agent loop: collect, deliver, sleep, and again.
//! The loop itself, which performs each action and reports what came of it,
//! runs outside the library.
use vstd::prelude::*;
use crate::config::Config;
use crate::payload::{build, built_from, Payload, Snapshot};

verus! {

/// What came of one delivery, as the log reports it.
pub enum Report {
    /// The endpoint answered with a success status; its body.
    Sent { status: u16, body: String },
    /// The endpoint answered with another status; its body.
    Rejected { status: u16, body: String },
    /// The request did not reach the endpoint.
    Unreachable { message: String },
    /// No snapshot could be taken this time.
    NoSnapshot { message: String },
}

/// What the loop waits for.
#[derive(Debug, Clone, Copy, PartialEq, Eq, Structural)]
pub enum Phase {
    AwaitingSnapshot,
    AwaitingResponse,
    Sleeping,
}

/// What happened since the last step.
pub enum Event {
    Collected(Snapshot),
    CollectFailed(String),
    Responded { status: u16, body: String },
    TransportFailed(String),
    Woke,
}

/// What the loop is to do next.
pub enum Action {
    CollectSnapshot,
    /// POST the payload to the endpoint.
    Deliver(Payload),
    /// Sleep this many seconds.
    Sleep(u64),
    /// The event does not belong to this phase: nothing to do.
    Ignore,
}

pub struct Step {
    pub action: Action,
    pub report: Option<Report>,
}

pub open spec fn is_success_status(status: u16) -> bool {
    200 <= status < 300
}

/// Classifies an answer of the endpoint by its status.
pub fn classify_response(status: u16, body: String) -> (r: Report)
    ensures
        is_success_status(status) ==> r == (Report::Sent { status, body }),
        !is_success_status(status) ==> r == (Report::Rejected { status, body }),
{
    if 200 <= status && status < 300 {
        Report::Sent { status, body }
    } else {
        Report::Rejected { status, body }
    }
}

pub struct AgentLoop {
    pub config: Config,
    pub phase: Phase,
}

impl AgentLoop {
    /// A loop about to take its first snapshot.
    pub fn new(config: Config) -> (r: AgentLoop)
        ensures
            r.config == config,
            r.phase == Phase::AwaitingSnapshot,
    {
        AgentLoop { config, phase: Phase::AwaitingSnapshot }
    }

    /// Decides the next action from an event. A snapshot is built into a
    /// payload and delivered; every delivery outcome, and a failed snapshot,
    /// is reported and followed by one interval of sleep; waking starts the
    /// next collection. No outcome stops the loop.
    pub fn step(&mut self, event: Event) -> (r: Step)
        ensures
            final(self).config == old(self).config,
            match (old(self).phase, event) {
                (Phase::AwaitingSnapshot, Event::Collected(s)) => {
                    &&& final(self).phase == Phase::AwaitingResponse
                    &&& r.report is None
                    &&& r.action is Deliver
                    &&& built_from(r.action->Deliver_0, s, old(self).config)
                },
                (Phase::AwaitingSnapshot, Event::CollectFailed(m)) => {
                    &&& final(self).phase == Phase::Sleeping
                    &&& r.report == Some(Report::NoSnapshot { message: m })
                    &&& r.action == Action::Sleep(old(self).config.interval_seconds)
                },
                (Phase::AwaitingResponse, Event::Responded { status, body }) => {
                    &&& final(self).phase == Phase::Sleeping
                    &&& is_success_status(status) ==> r.report == Some(Report::Sent { status, body })
                    &&& !is_success_status(status) ==> r.report == Some(
                        Report::Rejected { status, body },
                    )
                    &&& r.action == Action::Sleep(old(self).config.interval_seconds)
                },
                (Phase::AwaitingResponse, Event::TransportFailed(m)) => {
                    &&& final(self).phase == Phase::Sleeping
                    &&& r.report == Some(Report::Unreachable { message: m })
                    &&& r.action == Action::Sleep(old(self).config.interval_seconds)
                },
                (Phase::Sleeping, Event::Woke) => {
                    &&& final(self).phase == Phase::AwaitingSnapshot
                    &&& r.report is None
                    &&& r.action is CollectSnapshot
                },
                _ => {
                    &&& final(self).phase == old(self).phase
                    &&& r.report is None
                    &&& r.action is Ignore
                },
            },
    {
        match (self.phase, event) {
            (Phase::AwaitingSnapshot, Event::Collected(s)) => {
                let payload = build(s, &self.config);
                self.phase = Phase::AwaitingResponse;
                Step { action: Action::Deliver(payload), report: None }
            },
            (Phase::AwaitingSnapshot, Event::CollectFailed(message)) => {
                self.phase = Phase::Sleeping;
                Step {
                    action: Action::Sleep(self.config.interval_seconds),
                    report: Some(Report::NoSnapshot { message }),
                }
            },
            (Phase::AwaitingResponse, Event::Responded { status, body }) => {
                self.phase = Phase::Sleeping;
                Step {
                    action: Action::Sleep(self.config.interval_seconds),
                    report: Some(classify_response(status, body)),
                }
            },
            (Phase::AwaitingResponse, Event::TransportFailed(message)) => {
                self.phase = Phase::Sleeping;
                Step {
                    action: Action::Sleep(self.config.interval_seconds),
                    report: Some(Report::Unreachable { message }),
                }
            },
            (Phase::Sleeping, Event::Woke) => {
                self.phase = Phase::AwaitingSnapshot;
                Step { action: Action::CollectSnapshot, report: None }
            },
            _ => Step { action: Action::Ignore, report: None },
        }
    }
}

} // verus!
