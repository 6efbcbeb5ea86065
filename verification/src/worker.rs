//! How the lock screen talks to a process that runs an authentication.
use crate::pam_worker::WorkerMsg;
use vstd::prelude::*;
use vstd::string::*;

verus! {

broadcast use vstd::string::group_string_axioms;

/// What an authentication came to.
#[derive(Debug, PartialEq, Eq)]
pub enum WorkerOutcome {
    /// The user was accepted.
    Success,
    /// The user was not accepted, with a reason in the user's language.
    Failure(String),
    /// The process ended without a verdict.
    Aborted,
}

/// What the lock screen is told.
#[derive(Debug, PartialEq, Eq)]
pub enum Notice {
    /// A prompt that expects an answer.
    Prompt { prompt: String, secret: bool },
    /// A prompt that expects none.
    Info(String),
    Error(String),
    FingerprintInfo(String),
}

/// How far the conversation with the process is.
#[derive(Clone, Copy, Debug, PartialEq, Eq, Structural)]
pub enum Phase {
    /// The process is being started.
    Starting,
    /// The next line is waited for.
    Reading,
    /// The user is typing.
    Typing,
    /// What the user typed is being written.
    Writing,
    /// Nothing is being written, so that the process can go on.
    Unblocking,
    /// The conversation is over.
    Done,
}

/// Something that happened.
#[derive(Debug, PartialEq, Eq)]
pub enum Event {
    Spawned,
    SpawnFailed,
    /// A line, as far as it could be understood.
    Line(Option<WorkerMsg>),
    /// There are no more lines, or none can be read.
    Ended,
    /// What the user typed; there is nothing if the lock screen went away.
    Typed(Option<String>),
    Written,
    WriteFailed,
}

/// Something to do.
#[derive(Debug, PartialEq, Eq)]
pub enum Action {
    Tell(Notice),
    /// Read a line.
    ReadLine,
    /// Wait for the user.
    AwaitInput,
    /// Write what the user typed.
    Write(String),
    Finish(WorkerOutcome),
}

/// What the process is: whether it asks for a fingerprint, and whether the user can type for it.
#[derive(Clone, Copy, Debug, PartialEq, Eq, Structural)]
pub struct Worker {
    pub is_fingerprint: bool,
    pub takes_input: bool,
}

impl Worker {
    /// What a line says, unless it asks for input or ends the conversation.
    pub open spec fn notice(self, message: WorkerMsg) -> Option<Notice> {
        match message {
            WorkerMsg::Info(text) => Some(
                if self.is_fingerprint {
                    Notice::FingerprintInfo(text)
                } else {
                    Notice::Info(text)
                },
            ),
            WorkerMsg::Error(text) => Some(
                if self.is_fingerprint {
                    Notice::FingerprintInfo(text)
                } else {
                    Notice::Error(text)
                },
            ),
            _ => None,
        }
    }

    /// What follows a request for input. Where the user cannot type, the process gets an empty
    /// answer.
    pub open spec fn asked(self, prompt: String, secret: bool, actions: Seq<Action>) -> bool {
        if self.takes_input {
            actions == seq![Action::Tell(Notice::Prompt { prompt, secret }), Action::AwaitInput]
        } else {
            &&& actions.len() == 1
            &&& actions[0] is Write
            &&& actions[0]->Write_0@.len() == 0
        }
    }

    /// The phase after a request for input.
    pub open spec fn asked_phase(self) -> Phase {
        if self.takes_input {
            Phase::Typing
        } else {
            Phase::Unblocking
        }
    }

    /// What follows when something happens in the conversation. What cannot happen changes nothing.
    pub open spec fn stepped(
        self,
        phase: Phase,
        event: Event,
        next: Phase,
        actions: Seq<Action>,
    ) -> bool {
        match (phase, event) {
            (Phase::Starting, Event::Spawned) => {
                &&& next == Phase::Reading
                &&& actions == seq![Action::ReadLine]
            },
            (Phase::Starting, Event::SpawnFailed) => {
                &&& next == Phase::Done
                &&& actions == seq![Action::Finish(WorkerOutcome::Aborted)]
            },
            (Phase::Reading, Event::Ended) => {
                &&& next == Phase::Done
                &&& actions == seq![Action::Finish(WorkerOutcome::Aborted)]
            },
            (Phase::Reading, Event::Line(None)) => {
                &&& next == Phase::Reading
                &&& actions == seq![Action::ReadLine]
            },
            (Phase::Reading, Event::Line(Some(message))) => match message {
                WorkerMsg::PromptEchoOff(prompt) => {
                    &&& next == self.asked_phase()
                    &&& self.asked(prompt, true, actions)
                },
                WorkerMsg::PromptEchoOn(prompt) => {
                    &&& next == self.asked_phase()
                    &&& self.asked(prompt, false, actions)
                },
                WorkerMsg::Success => {
                    &&& next == Phase::Done
                    &&& actions == seq![Action::Finish(WorkerOutcome::Success)]
                },
                WorkerMsg::Failure(message) => {
                    &&& next == Phase::Done
                    &&& actions == seq![Action::Finish(WorkerOutcome::Failure(message))]
                },
                other => {
                    &&& next == Phase::Reading
                    &&& self.notice(other) is Some
                    &&& actions == seq![Action::Tell(self.notice(other)->0), Action::ReadLine]
                },
            },
            (Phase::Typing, Event::Typed(Some(value))) => {
                &&& next == Phase::Writing
                &&& actions == seq![Action::Write(value)]
            },
            (Phase::Typing, Event::Typed(None)) => {
                &&& next == Phase::Done
                &&& actions == seq![Action::Finish(WorkerOutcome::Aborted)]
            },
            (Phase::Writing, Event::Written) => {
                &&& next == Phase::Reading
                &&& actions == seq![Action::ReadLine]
            },
            (Phase::Writing, Event::WriteFailed) => {
                &&& next == Phase::Done
                &&& actions == seq![Action::Finish(WorkerOutcome::Aborted)]
            },
            (Phase::Unblocking, Event::Written) | (Phase::Unblocking, Event::WriteFailed) => {
                &&& next == Phase::Reading
                &&& actions == seq![Action::ReadLine]
            },
            _ => next == phase && actions.len() == 0,
        }
    }

    fn ask(&self, prompt: String, secret: bool) -> (step: (Phase, Vec<Action>))
        ensures
            step.0 == self.asked_phase(),
            self.asked(prompt, secret, step.1@),
    {
        if self.takes_input {
            (Phase::Typing, two(Action::Tell(Notice::Prompt { prompt, secret }), Action::AwaitInput))
        } else {
            (Phase::Unblocking, one(Action::Write(String::new())))
        }
    }

    fn hear(&self, message: WorkerMsg) -> (step: (Phase, Vec<Action>))
        ensures
            self.stepped(Phase::Reading, Event::Line(Some(message)), step.0, step.1@),
    {
        match message {
            WorkerMsg::PromptEchoOff(prompt) => self.ask(prompt, true),
            WorkerMsg::PromptEchoOn(prompt) => self.ask(prompt, false),
            WorkerMsg::Success => (Phase::Done, one(Action::Finish(WorkerOutcome::Success))),
            WorkerMsg::Failure(message) => (
                Phase::Done,
                one(Action::Finish(WorkerOutcome::Failure(message))),
            ),
            WorkerMsg::Info(text) => {
                let notice = if self.is_fingerprint {
                    Notice::FingerprintInfo(text)
                } else {
                    Notice::Info(text)
                };
                (Phase::Reading, two(Action::Tell(notice), Action::ReadLine))
            },
            WorkerMsg::Error(text) => {
                let notice = if self.is_fingerprint {
                    Notice::FingerprintInfo(text)
                } else {
                    Notice::Error(text)
                };
                (Phase::Reading, two(Action::Tell(notice), Action::ReadLine))
            },
        }
    }

    /// What follows when something happens in the conversation.
    pub fn step(&self, phase: Phase, event: Event) -> (step: (Phase, Vec<Action>))
        ensures
            self.stepped(phase, event, step.0, step.1@),
    {
        match (phase, event) {
            (Phase::Starting, Event::Spawned) => (Phase::Reading, one(Action::ReadLine)),
            (Phase::Starting, Event::SpawnFailed) => (
                Phase::Done,
                one(Action::Finish(WorkerOutcome::Aborted)),
            ),
            (Phase::Reading, Event::Ended) => (
                Phase::Done,
                one(Action::Finish(WorkerOutcome::Aborted)),
            ),
            (Phase::Reading, Event::Line(None)) => (Phase::Reading, one(Action::ReadLine)),
            (Phase::Reading, Event::Line(Some(message))) => self.hear(message),
            (Phase::Typing, Event::Typed(Some(value))) => (
                Phase::Writing,
                one(Action::Write(value)),
            ),
            (Phase::Typing, Event::Typed(None)) => (
                Phase::Done,
                one(Action::Finish(WorkerOutcome::Aborted)),
            ),
            (Phase::Writing, Event::Written) => (Phase::Reading, one(Action::ReadLine)),
            (Phase::Writing, Event::WriteFailed) => (
                Phase::Done,
                one(Action::Finish(WorkerOutcome::Aborted)),
            ),
            (Phase::Unblocking, Event::Written) => (Phase::Reading, one(Action::ReadLine)),
            (Phase::Unblocking, Event::WriteFailed) => (Phase::Reading, one(Action::ReadLine)),
            _ => (phase, Vec::new()),
        }
    }
}

fn one(action: Action) -> (actions: Vec<Action>)
    ensures
        actions@ == seq![action],
{
    let mut actions: Vec<Action> = Vec::new();
    actions.push(action);
    proof {
        assert(actions@ == seq![action]);
    }
    actions
}

fn two(first: Action, second: Action) -> (actions: Vec<Action>)
    ensures
        actions@ == seq![first, second],
{
    let mut actions: Vec<Action> = Vec::new();
    actions.push(first);
    actions.push(second);
    proof {
        assert(actions@ == seq![first, second]);
    }
    actions
}

// ---------------------------------------------------------------------------
// One attempt after another
// ---------------------------------------------------------------------------

/// What the lock screen does after an attempt.
#[derive(Debug, PartialEq, Eq)]
pub enum Sequel {
    /// Unlock the session, and make no more attempts.
    Unlock,
    /// Show the error, and make another attempt.
    Report(String),
    /// Make another attempt after so many milliseconds.
    RetryAfter(u64),
}

/// What follows an attempt with a password.
pub open spec fn sequel_of_password(outcome: WorkerOutcome) -> Sequel {
    match outcome {
        WorkerOutcome::Success => Sequel::Unlock,
        WorkerOutcome::Failure(message) => Sequel::Report(message),
        WorkerOutcome::Aborted => Sequel::RetryAfter(100),
    }
}

/// What follows an attempt with a fingerprint.
pub open spec fn sequel_of_fingerprint(outcome: WorkerOutcome) -> Sequel {
    match outcome {
        WorkerOutcome::Success => Sequel::Unlock,
        _ => Sequel::RetryAfter(1000),
    }
}

/// What follows an attempt with a password.
pub fn after_password(outcome: WorkerOutcome) -> (sequel: Sequel)
    ensures
        sequel == sequel_of_password(outcome),
{
    match outcome {
        WorkerOutcome::Success => Sequel::Unlock,
        WorkerOutcome::Failure(message) => Sequel::Report(message),
        WorkerOutcome::Aborted => Sequel::RetryAfter(100),
    }
}

/// What follows an attempt with a fingerprint. Failures are not shown.
pub fn after_fingerprint(outcome: WorkerOutcome) -> (sequel: Sequel)
    ensures
        sequel == sequel_of_fingerprint(outcome),
{
    match outcome {
        WorkerOutcome::Success => Sequel::Unlock,
        _ => Sequel::RetryAfter(1000),
    }
}

// ---------------------------------------------------------------------------
// Laws
// ---------------------------------------------------------------------------

/// An authentication succeeds only if the process says so: neither an error nor the end of the
/// process counts.
pub proof fn law_success_only_if_said(
    worker: Worker,
    phase: Phase,
    event: Event,
    next: Phase,
    actions: Seq<Action>,
    i: int,
)
    requires
        worker.stepped(phase, event, next, actions),
        0 <= i < actions.len(),
        actions[i] == Action::Finish(WorkerOutcome::Success),
    ensures
        phase == Phase::Reading,
        event == Event::Line(Some(WorkerMsg::Success)),
        next == Phase::Done,
{
}

/// The process never waits for input in vain: every request for input is followed by an answer from
/// the user, or by an empty one where the user cannot type.
pub proof fn law_every_prompt_is_answered(
    worker: Worker,
    prompt: String,
    secret: bool,
    actions: Seq<Action>,
)
    requires
        worker.asked(prompt, secret, actions),
    ensures
        actions.last() is Write || actions.last() is AwaitInput,
        actions.last() is AwaitInput <==> worker.takes_input,
{
}

}
