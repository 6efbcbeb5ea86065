//! The conversation with greetd.
use crate::text::{contains, occurs};
use vstd::prelude::*;
use vstd::string::*;

verus! {

broadcast use vstd::string::group_string_axioms;

/// What an error of greetd is about.
#[derive(Clone, Copy, Debug, PartialEq, Eq, Structural)]
pub enum ErrorType {
    AuthError,
    Error,
}

/// What a message of an authentication is.
#[derive(Clone, Copy, Debug, PartialEq, Eq, Structural)]
pub enum AuthMessageType {
    Visible,
    Secret,
    Info,
    Error,
}

/// An answer of greetd.
#[derive(Debug, PartialEq, Eq)]
pub enum Response {
    Success,
    Error { error_type: ErrorType, description: String },
    AuthMessage { auth_message_type: AuthMessageType, auth_message: String },
}

/// What kind of request was sent.
#[derive(Clone, Copy, Debug, PartialEq, Eq, Structural)]
pub enum RequestKind {
    CreateSession,
    PostAuthMessageResponse,
    StartSession,
    CancelSession,
}

/// Why somebody was not let in, to be told in the user's language.
#[derive(Clone, Copy, Debug, PartialEq, Eq, Structural)]
pub enum AuthFailure {
    Denied,
    MaxTries,
    Account,
    Credentials,
    Other,
}

/// Why greetd did not let somebody in, from how it describes the error.
pub open spec fn failure_of(error_type: ErrorType, description: Seq<char>) -> AuthFailure {
    match error_type {
        ErrorType::AuthError => if occurs(description, "PERM_DENIED"@) {
            AuthFailure::Denied
        } else if occurs(description, "MAXTRIES"@) {
            AuthFailure::MaxTries
        } else if occurs(description, "ACCT_EXPIRED"@) || occurs(description, "USER_UNKNOWN"@) {
            AuthFailure::Account
        } else {
            AuthFailure::Credentials
        },
        ErrorType::Error => AuthFailure::Other,
    }
}

/// Why greetd did not let somebody in.
pub fn greetd_error_to_message(error_type: ErrorType, description: &str) -> (failure: AuthFailure)
    ensures
        failure == failure_of(error_type, description@),
{
    match error_type {
        ErrorType::AuthError => {
            if contains(description, "PERM_DENIED") {
                AuthFailure::Denied
            } else if contains(description, "MAXTRIES") {
                AuthFailure::MaxTries
            } else if contains(description, "ACCT_EXPIRED") || contains(
                description,
                "USER_UNKNOWN",
            ) {
                AuthFailure::Account
            } else {
                AuthFailure::Credentials
            }
        },
        ErrorType::Error => AuthFailure::Other,
    }
}

/// What the greeter is told.
#[derive(Debug, PartialEq, Eq)]
pub enum Notice {
    /// The connection is about to be opened.
    Reconnect,
    /// The connection is open.
    SocketOpen,
    /// The connection could not be opened: why.
    SocketError(String),
    /// A prompt: its text, whether the answer is hidden, and whether one is expected.
    Prompt { prompt: String, secret: bool, answer: bool },
    /// A message of the authentication.
    Error(String),
    /// Somebody was not let in.
    Failure(AuthFailure),
    /// The user has been accepted.
    Login,
    /// The session has been started.
    Exit,
}

/// What an answer to a request says to the greeter.
pub open spec fn notice_of(request: RequestKind, response: Response) -> Option<Notice> {
    match response {
        Response::AuthMessage { auth_message_type, auth_message } => match auth_message_type {
            AuthMessageType::Secret => Some(
                Notice::Prompt { prompt: auth_message, secret: true, answer: true },
            ),
            AuthMessageType::Visible => Some(
                Notice::Prompt { prompt: auth_message, secret: false, answer: true },
            ),
            AuthMessageType::Info => Some(
                Notice::Prompt { prompt: auth_message, secret: false, answer: false },
            ),
            AuthMessageType::Error => Some(Notice::Error(auth_message)),
        },
        Response::Error { error_type, description } => if request == RequestKind::CancelSession {
            None
        } else {
            Some(Notice::Failure(failure_of(error_type, description@)))
        },
        Response::Success => match request {
            RequestKind::CreateSession => Some(Notice::Login),
            RequestKind::PostAuthMessageResponse => Some(Notice::Login),
            RequestKind::StartSession => Some(Notice::Exit),
            RequestKind::CancelSession => None,
        },
    }
}

/// The connection is opened anew after an answer: to a request to cancel, unless greetd asks
/// something.
pub open spec fn reconnects_after(request: RequestKind, response: Response) -> bool {
    request == RequestKind::CancelSession && !(response is AuthMessage)
}

/// What an answer to a request says to the greeter, and whether the connection is opened anew.
pub fn answer(request: RequestKind, response: Response) -> (answered: (Option<Notice>, bool))
    ensures
        answered == (notice_of(request, response), reconnects_after(request, response)),
{
    match response {
        Response::AuthMessage { auth_message_type, auth_message } => {
            let notice = match auth_message_type {
                AuthMessageType::Secret => Notice::Prompt {
                    prompt: auth_message,
                    secret: true,
                    answer: true,
                },
                AuthMessageType::Visible => Notice::Prompt {
                    prompt: auth_message,
                    secret: false,
                    answer: true,
                },
                AuthMessageType::Info => Notice::Prompt {
                    prompt: auth_message,
                    secret: false,
                    answer: false,
                },
                AuthMessageType::Error => Notice::Error(auth_message),
            };
            (Some(notice), false)
        },
        Response::Error { error_type, description } => match request {
            RequestKind::CancelSession => (None, true),
            _ => (
                Some(Notice::Failure(greetd_error_to_message(error_type, description.as_str()))),
                false,
            ),
        },
        Response::Success => match request {
            RequestKind::CreateSession => (Some(Notice::Login), false),
            RequestKind::PostAuthMessageResponse => (Some(Notice::Login), false),
            RequestKind::StartSession => (Some(Notice::Exit), false),
            RequestKind::CancelSession => (None, true),
        },
    }
}

// ---------------------------------------------------------------------------
// The loop
// ---------------------------------------------------------------------------

/// How far the conversation is.
#[derive(Clone, Copy, Debug, PartialEq, Eq, Structural)]
pub enum Phase {
    /// The connection is not open, and it is not yet time to open it.
    Closed,
    /// The connection is being opened.
    Connecting,
    /// A request is waited for.
    Receiving,
    /// A request is being written.
    Writing(RequestKind),
    /// An answer is being read.
    Reading(RequestKind),
    /// The connection could not be opened, and will not be tried again.
    Halted,
}

/// Something that happened.
#[derive(Debug, PartialEq, Eq)]
pub enum Event {
    /// It is time to open the connection: at the start, and at most once a second after that.
    Due,
    Connected,
    /// The connection could not be opened: why.
    ConnectFailed(String),
    /// The greeter has a request, or will have none any more.
    Request(Option<RequestKind>),
    Written,
    WriteFailed,
    Response(Response),
    ReadFailed,
}

/// Something to do.
#[derive(Debug, PartialEq, Eq)]
pub enum Action {
    Tell(Notice),
    Connect,
    /// Wait for a request.
    Receive,
    /// Write the request.
    Write,
    /// Read the answer.
    Read,
    /// Wait until it is time to open the connection.
    Wait,
    /// Do nothing any more.
    Halt,
}

/// What follows an answer.
pub open spec fn answer_actions(request: RequestKind, response: Response) -> Seq<Action> {
    let next = if reconnects_after(request, response) {
        Action::Wait
    } else {
        Action::Receive
    };
    match notice_of(request, response) {
        Some(notice) => seq![Action::Tell(notice), next],
        None => seq![next],
    }
}

/// What follows when something happens in the conversation. What cannot happen changes nothing.
pub open spec fn next(phase: Phase, event: Event) -> (Phase, Seq<Action>) {
    match (phase, event) {
        (Phase::Closed, Event::Due) => (
            Phase::Connecting,
            seq![Action::Tell(Notice::Reconnect), Action::Connect],
        ),
        (Phase::Connecting, Event::Connected) => (
            Phase::Receiving,
            seq![Action::Tell(Notice::SocketOpen), Action::Receive],
        ),
        (Phase::Connecting, Event::ConnectFailed(error)) => (
            Phase::Halted,
            seq![Action::Tell(Notice::SocketError(error)), Action::Halt],
        ),
        (Phase::Receiving, Event::Request(Some(request))) => (
            Phase::Writing(request),
            seq![Action::Write],
        ),
        (Phase::Receiving, Event::Request(None)) => (Phase::Closed, seq![Action::Wait]),
        (Phase::Writing(request), Event::Written) => (Phase::Reading(request), seq![Action::Read]),
        (Phase::Writing(_), Event::WriteFailed) => (Phase::Closed, seq![Action::Wait]),
        (Phase::Reading(request), Event::Response(response)) => (
            if reconnects_after(request, response) {
                Phase::Closed
            } else {
                Phase::Receiving
            },
            answer_actions(request, response),
        ),
        (Phase::Reading(_), Event::ReadFailed) => (Phase::Closed, seq![Action::Wait]),
        _ => (phase, Seq::empty()),
    }
}

fn one(action: Action) -> (actions: Vec<Action>)
    ensures
        actions@ == seq![action],
{
    let mut actions: Vec<Action> = Vec::new();
    actions.push(action);
    proof {
        assert(actions@ == seq![action]);
    }
    actions
}

fn two(first: Action, second: Action) -> (actions: Vec<Action>)
    ensures
        actions@ == seq![first, second],
{
    let mut actions: Vec<Action> = Vec::new();
    actions.push(first);
    actions.push(second);
    proof {
        assert(actions@ == seq![first, second]);
    }
    actions
}

fn answered(request: RequestKind, response: Response) -> (step: (Phase, Vec<Action>))
    ensures
        step.0 == next(Phase::Reading(request), Event::Response(response)).0,
        step.1@ == answer_actions(request, response),
{
    let (notice, reconnect) = answer(request, response);
    let (phase, action) = if reconnect {
        (Phase::Closed, Action::Wait)
    } else {
        (Phase::Receiving, Action::Receive)
    };
    match notice {
        Some(notice) => (phase, two(Action::Tell(notice), action)),
        None => (phase, one(action)),
    }
}

/// What follows when something happens in the conversation.
pub fn step(phase: Phase, event: Event) -> (step: (Phase, Vec<Action>))
    ensures
        (step.0, step.1@) == next(phase, event),
{
    match (phase, event) {
        (Phase::Closed, Event::Due) => (
            Phase::Connecting,
            two(Action::Tell(Notice::Reconnect), Action::Connect),
        ),
        (Phase::Connecting, Event::Connected) => (
            Phase::Receiving,
            two(Action::Tell(Notice::SocketOpen), Action::Receive),
        ),
        (Phase::Connecting, Event::ConnectFailed(error)) => (
            Phase::Halted,
            two(Action::Tell(Notice::SocketError(error)), Action::Halt),
        ),
        (Phase::Receiving, Event::Request(Some(request))) => (
            Phase::Writing(request),
            one(Action::Write),
        ),
        (Phase::Receiving, Event::Request(None)) => (Phase::Closed, one(Action::Wait)),
        (Phase::Writing(request), Event::Written) => (Phase::Reading(request), one(Action::Read)),
        (Phase::Writing(_), Event::WriteFailed) => (Phase::Closed, one(Action::Wait)),
        (Phase::Reading(request), Event::Response(response)) => answered(request, response),
        (Phase::Reading(_), Event::ReadFailed) => (Phase::Closed, one(Action::Wait)),
        _ => (phase, Vec::new()),
    }
}

// ---------------------------------------------------------------------------
// Laws
// ---------------------------------------------------------------------------

/// The user counts as accepted only when greetd has answered a request to create a session, or the
/// answer to its last question, with success; and the greeter ends only when the session has been
/// started.
pub proof fn law_login_only_after_success(phase: Phase, event: Event, i: int)
    requires
        0 <= i < next(phase, event).1.len(),
    ensures
        next(phase, event).1[i] == Action::Tell(Notice::Login) ==> {
            &&& event == Event::Response(Response::Success)
            &&& phase == Phase::Reading(RequestKind::CreateSession) || phase == Phase::Reading(
                RequestKind::PostAuthMessageResponse,
            )
        },
        next(phase, event).1[i] == Action::Tell(Notice::Exit) ==> {
            &&& event == Event::Response(Response::Success)
            &&& phase == Phase::Reading(RequestKind::StartSession)
        },
{
}

/// Errors while a session is cancelled are not shown: the connection is opened anew.
pub proof fn law_cancel_reconnects(response: Response)
    requires
        !(response is AuthMessage),
    ensures
        next(Phase::Reading(RequestKind::CancelSession), Event::Response(response)) == (
            Phase::Closed,
            seq![Action::Wait],
        ),
{
}

/// The conversation never ends without a word: the greeter is told why the connection could not be
/// opened before nothing is done any more.
pub proof fn law_halts_with_a_reason(phase: Phase, event: Event, i: int)
    requires
        0 <= i < next(phase, event).1.len(),
        next(phase, event).1[i] == Action::Halt,
    ensures
        event is ConnectFailed,
        next(phase, event).1 == seq![
            Action::Tell(Notice::SocketError(event->ConnectFailed_0)),
            Action::Halt,
        ],
{
}

/// One request is under way at a time: the next is taken only once the last has been answered, or
/// the connection was given up.
pub proof fn law_one_request_at_a_time(phase: Phase, event: Event, i: int)
    requires
        0 <= i < next(phase, event).1.len(),
        next(phase, event).1[i] == Action::Receive,
    ensures
        next(phase, event).0 == Phase::Receiving,
        phase == Phase::Connecting || phase is Reading,
{
}

}
