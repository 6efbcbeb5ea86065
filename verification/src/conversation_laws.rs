//! What holds of the conversations with greetd and with the processes that authenticate.
use crate::ipc::{
    failure_of, next, notice_of, reconnects_after, AuthFailure, AuthMessageType, ErrorType, Event,
    Notice, Phase, RequestKind, Response,
};
use crate::ipc;
use crate::pam_worker::{failure_for, is_asked, message_of, Course, PamCode, Stage, WorkerMsg};
use crate::worker;
use crate::worker::{Worker, WorkerOutcome};
use vstd::prelude::*;

verus! {

// ---------------------------------------------------------------------------
// greetd
// ---------------------------------------------------------------------------

/// A text has a word in it.
pub open spec fn mentions(text: Seq<char>, word: Seq<char>) -> bool {
    exists|before: Seq<char>, after: Seq<char>| text == #[trigger] ((before + word) + after)
}

pub(crate) proof fn lemma_mentions(text: Seq<char>, word: Seq<char>)
    ensures
        mentions(text, word) <==> crate::text::occurs(text, word),
{
    if crate::text::occurs(text, word) {
        let at = choose|at: int| crate::text::occurs_at(text, word, at);
        let (before, after) = (text.take(at), text.skip(at + word.len()));
        assert(text == (before + word) + after);
    }
    if mentions(text, word) {
        let (before, after) = choose|before: Seq<char>, after: Seq<char>|
            text == #[trigger] ((before + word) + after);
        let at = before.len() as int;
        assert(text.subrange(at, at + word.len()) == word);
        assert(crate::text::occurs_at(text, word, at));
    }
}

/// What an error of greetd is about follows from its type and from what its description mentions.
pub open spec fn told_failure(
    error_type: ErrorType,
    description: Seq<char>,
    failure: AuthFailure,
) -> bool {
    let denied = mentions(description, "PERM_DENIED"@);
    let tries = mentions(description, "MAXTRIES"@);
    let account = mentions(description, "ACCT_EXPIRED"@) || mentions(description, "USER_UNKNOWN"@);
    &&& error_type == ErrorType::Error <==> failure == AuthFailure::Other
    &&& error_type == ErrorType::AuthError ==> {
        &&& denied <==> failure == AuthFailure::Denied
        &&& !denied && tries <==> failure == AuthFailure::MaxTries
        &&& !denied && !tries && account <==> failure == AuthFailure::Account
        &&& !denied && !tries && !account <==> failure == AuthFailure::Credentials
    }
}

proof fn lemma_told_failure(error_type: ErrorType, description: Seq<char>)
    ensures
        told_failure(error_type, description, failure_of(error_type, description)),
{
    lemma_mentions(description, "PERM_DENIED"@);
    lemma_mentions(description, "MAXTRIES"@);
    lemma_mentions(description, "ACCT_EXPIRED"@);
    lemma_mentions(description, "USER_UNKNOWN"@);
}

/// An error is never swallowed: unless a session was being cancelled, the greeter is first told of a
/// failure of the kind that greetd describes, and then the next request is received.
pub proof fn law_errors_are_told(request: RequestKind, error_type: ErrorType, description: String)
    requires
        request != RequestKind::CancelSession,
    ensures
        ({
            let (phase, actions) = next(
                Phase::Reading(request),
                Event::Response(Response::Error { error_type, description }),
            );
            &&& phase == Phase::Receiving
            &&& actions.len() == 2
            &&& exists|failure: AuthFailure|
                actions[0] == ipc::Action::Tell(Notice::Failure(failure)) && #[trigger] told_failure(
                    error_type,
                    description@,
                    failure,
                )
            &&& actions[1] == ipc::Action::Receive
        }),
{
    lemma_told_failure(error_type, description@);
}

/// What greetd asks or says reaches the greeter word for word, whatever request it answers: questions
/// as prompts, hidden if they are secret, information as a prompt without an answer, and errors as
/// errors. Then the next request is received.
pub proof fn law_messages_are_passed_on(
    request: RequestKind,
    auth_message_type: AuthMessageType,
    auth_message: String,
)
    ensures
        ({
            let (phase, actions) = next(
                Phase::Reading(request),
                Event::Response(Response::AuthMessage { auth_message_type, auth_message }),
            );
            &&& phase == Phase::Receiving
            &&& actions.len() == 2
            &&& actions[0] is Tell
            &&& actions[1] == ipc::Action::Receive
            &&& auth_message_type == AuthMessageType::Error ==> actions[0]->Tell_0 == Notice::Error(
                auth_message,
            )
            &&& auth_message_type != AuthMessageType::Error ==> {
                let notice = actions[0]->Tell_0;
                &&& notice is Prompt
                &&& notice->prompt == auth_message
                &&& notice->secret <==> auth_message_type == AuthMessageType::Secret
                &&& notice->answer <==> auth_message_type != AuthMessageType::Info
            }
        }),
{
}

/// A success is never swallowed: it lets somebody in, or ends the greeter once the session runs, or
/// has the connection opened anew after a session was cancelled.
pub proof fn law_successes_are_told(request: RequestKind)
    ensures
        ({
            let (phase, actions) = next(
                Phase::Reading(request),
                Event::Response(Response::Success),
            );
            &&& request == RequestKind::CancelSession ==> phase == Phase::Closed && actions.contains(
                ipc::Action::Wait,
            )
            &&& request != RequestKind::CancelSession ==> phase == Phase::Receiving
                && actions.contains(ipc::Action::Receive) && actions[0] == ipc::Action::Tell(
                if request == RequestKind::StartSession {
                    Notice::Exit
                } else {
                    Notice::Login
                },
            )
        }),
{
    let actions = next(Phase::Reading(request), Event::Response(Response::Success)).1;
    assert(actions[actions.len() - 1] == actions.last());
}

/// A request goes all the way: it is written, its answer is read, and what is read is the answer to
/// this request.
pub proof fn law_requests_are_carried_out(request: RequestKind)
    ensures
        next(Phase::Receiving, Event::Request(Some(request))) == (
            Phase::Writing(request),
            seq![ipc::Action::Write],
        ),
        next(Phase::Writing(request), Event::Written) == (
            Phase::Reading(request),
            seq![ipc::Action::Read],
        ),
{
}

/// A connection that breaks is opened again: whatever went wrong, the conversation waits, and when it
/// is time it connects, tells the greeter, and receives.
pub proof fn law_broken_connections_are_opened_again(request: RequestKind)
    ensures
        next(Phase::Writing(request), Event::WriteFailed) == (Phase::Closed, seq![ipc::Action::Wait]),
        next(Phase::Reading(request), Event::ReadFailed) == (Phase::Closed, seq![ipc::Action::Wait]),
        next(Phase::Receiving, Event::Request(None)) == (Phase::Closed, seq![ipc::Action::Wait]),
        next(Phase::Closed, Event::Due).0 == Phase::Connecting,
        next(Phase::Closed, Event::Due).1.last() == ipc::Action::Connect,
        next(Phase::Closed, Event::Due).1.contains(ipc::Action::Tell(Notice::Reconnect)),
        next(Phase::Connecting, Event::Connected).0 == Phase::Receiving,
        next(Phase::Connecting, Event::Connected).1.contains(ipc::Action::Tell(Notice::SocketOpen)),
        next(Phase::Connecting, Event::Connected).1.last() == ipc::Action::Receive,
{
    assert(next(Phase::Closed, Event::Due).1[0] == ipc::Action::Tell(Notice::Reconnect));
    assert(next(Phase::Connecting, Event::Connected).1[0] == ipc::Action::Tell(Notice::SocketOpen));
}

/// Nothing is ever told that did not happen: the greeter hears of a prompt or an error only with the
/// answer that says so.
pub proof fn law_nothing_is_made_up(phase: Phase, event: Event, i: int)
    requires
        0 <= i < next(phase, event).1.len(),
        next(phase, event).1[i] is Tell,
    ensures
        ({
            let notice = next(phase, event).1[i]->Tell_0;
            &&& notice is Prompt ==> event is Response && event->Response_0 is AuthMessage
                && event->Response_0->auth_message == notice->prompt
            &&& notice is Error ==> event is Response && event->Response_0 is AuthMessage
                && event->Response_0->auth_message == notice->Error_0
            &&& notice is Failure ==> event is Response && event->Response_0 is Error
            &&& notice is SocketError ==> event is ConnectFailed && event->ConnectFailed_0
                == notice->SocketError_0
            &&& notice is SocketOpen ==> event is Connected
        }),
{
}

// ---------------------------------------------------------------------------
// Processes that authenticate
// ---------------------------------------------------------------------------

/// What the process asks reaches the user word for word where they can type, hidden if it is secret,
/// and what they type reaches the process unchanged; where they cannot type, the process gets an
/// empty answer at once.
pub proof fn law_questions_and_answers_are_carried(
    worker: Worker,
    prompt: String,
    secret: bool,
    asked: worker::Phase,
    questions: Seq<worker::Action>,
    value: String,
    wrote: worker::Phase,
    answers: Seq<worker::Action>,
)
    requires
        worker.stepped(
            worker::Phase::Reading,
            worker::Event::Line(
                Some(
                    if secret {
                        WorkerMsg::PromptEchoOff(prompt)
                    } else {
                        WorkerMsg::PromptEchoOn(prompt)
                    },
                ),
            ),
            asked,
            questions,
        ),
        worker.stepped(
            worker::Phase::Typing,
            worker::Event::Typed(Some(value)),
            wrote,
            answers,
        ),
    ensures
        worker.takes_input ==> {
            &&& asked == worker::Phase::Typing
            &&& questions.contains(
                worker::Action::Tell(worker::Notice::Prompt { prompt, secret }),
            )
            &&& questions.last() == worker::Action::AwaitInput
        },
        !worker.takes_input ==> {
            &&& asked == worker::Phase::Unblocking
            &&& questions.len() == 1
            &&& questions[0] is Write
            &&& questions[0]->Write_0@.len() == 0
        },
        wrote == worker::Phase::Writing,
        answers.len() == 1,
        answers[0] == worker::Action::Write(value),
{
    if worker.takes_input {
        assert(questions[0] == worker::Action::Tell(worker::Notice::Prompt { prompt, secret }));
    }
}

/// What the process says is told word for word, and then the next line is read: to the status of the
/// fingerprint reader where it asks for a fingerprint, and as information or as an error otherwise.
pub proof fn law_what_the_process_says_is_told(
    worker: Worker,
    text: String,
    error: bool,
    next: worker::Phase,
    actions: Seq<worker::Action>,
)
    requires
        worker.stepped(
            worker::Phase::Reading,
            worker::Event::Line(
                Some(
                    if error {
                        WorkerMsg::Error(text)
                    } else {
                        WorkerMsg::Info(text)
                    },
                ),
            ),
            next,
            actions,
        ),
    ensures
        next == worker::Phase::Reading,
        actions.len() == 2,
        actions[1] == worker::Action::ReadLine,
        worker.is_fingerprint ==> actions[0] == worker::Action::Tell(
            worker::Notice::FingerprintInfo(text),
        ),
        !worker.is_fingerprint && error ==> actions[0] == worker::Action::Tell(
            worker::Notice::Error(text),
        ),
        !worker.is_fingerprint && !error ==> actions[0] == worker::Action::Tell(
            worker::Notice::Info(text),
        ),
{
}

/// A verdict of the process is taken as it is; and without one, however the conversation ends, it
/// counts as broken off, neither as accepted nor as refused.
pub proof fn law_verdicts_are_taken_as_they_are(
    worker: Worker,
    phase: worker::Phase,
    event: worker::Event,
    next: worker::Phase,
    actions: Seq<worker::Action>,
)
    requires
        worker.stepped(phase, event, next, actions),
    ensures
        phase == worker::Phase::Reading && event == worker::Event::Line(Some(WorkerMsg::Success))
            ==> actions == seq![worker::Action::Finish(WorkerOutcome::Success)],
        phase == worker::Phase::Reading && event is Line && event->Line_0 is Some
            && event->Line_0->0 is Failure ==> actions == seq![
            worker::Action::Finish(WorkerOutcome::Failure(event->Line_0->0->Failure_0)),
        ],
        (phase == worker::Phase::Reading && event is Ended) || (phase == worker::Phase::Starting
            && event is SpawnFailed) || (phase == worker::Phase::Writing && event is WriteFailed) || (
        phase == worker::Phase::Typing && event == worker::Event::Typed(None)) ==> actions == seq![
            worker::Action::Finish(WorkerOutcome::Aborted),
        ] && next == worker::Phase::Done,
        forall|i: int|
            0 <= i < actions.len() && #[trigger] actions[i] is Finish ==> next
                == worker::Phase::Done && i == actions.len() - 1,
{
}

/// Lines are read until the user has been accepted or refused: after a line that cannot be understood, and
/// after an answer has been written, the next one is read.
pub proof fn law_the_conversation_goes_on(
    worker: Worker,
    phase: worker::Phase,
    event: worker::Event,
    next: worker::Phase,
    actions: Seq<worker::Action>,
)
    requires
        worker.stepped(phase, event, next, actions),
        (phase == worker::Phase::Starting && event is Spawned) || (phase == worker::Phase::Reading
            && event == worker::Event::Line(None)) || (phase == worker::Phase::Writing
            && event is Written) || (phase == worker::Phase::Unblocking && (event is Written
            || event is WriteFailed)),
    ensures
        next == worker::Phase::Reading,
        actions == seq![worker::Action::ReadLine],
{
}

/// An authentication takes its steps one after another as long as they succeed, and ends with the
/// first that fails, for the reason that this step gives.
pub proof fn law_steps_are_taken_in_order(stage: Stage, result: Result<(), PamCode>)
    ensures
        result is Err <==> Course::following(stage, result) is Rejected,
        result is Ok && stage == Stage::Context ==> Course::following(stage, result)
            == Course::Take(Stage::Authenticate),
        result is Ok && stage == Stage::Authenticate ==> Course::following(stage, result)
            == Course::Take(Stage::AccountManagement),
        result is Ok && stage == Stage::AccountManagement ==> Course::following(stage, result)
            == Course::Accepted,
        result == Err::<(), PamCode>(PamCode::AuthErr) || result == Err::<(), PamCode>(
            PamCode::CredInsufficient,
        ) ==> Course::following(stage, result) == Course::Rejected(AuthFailure::Credentials),
        result == Err::<(), PamCode>(PamCode::PermDenied) ==> Course::following(stage, result)
            == Course::Rejected(AuthFailure::Denied),
        result == Err::<(), PamCode>(PamCode::MaxTries) ==> Course::following(stage, result)
            == Course::Rejected(AuthFailure::MaxTries),
        result == Err::<(), PamCode>(PamCode::AcctExpired) || result == Err::<(), PamCode>(
            PamCode::UserUnknown,
        ) ==> Course::following(stage, result) == Course::Rejected(AuthFailure::Account),
        result == Err::<(), PamCode>(PamCode::Other) ==> Course::following(stage, result)
            == Course::Rejected(AuthFailure::Other),
{
}

/// The reason for a refusal is that of the first step that failed, whatever the later ones would give.
pub proof fn law_the_first_failure_counts(
    context: Result<(), PamCode>,
    authenticated: Result<(), PamCode>,
    account: Result<(), PamCode>,
)
    ensures
        ({
            let course = crate::pam_worker::outcome(context, authenticated, account);
            &&& context is Err ==> course == Course::following(Stage::Context, context)
            &&& context is Ok && authenticated is Err ==> course == Course::following(
                Stage::Authenticate,
                authenticated,
            )
            &&& context is Ok && authenticated is Ok ==> course == Course::following(
                Stage::AccountManagement,
                account,
            )
        }),
{
}

/// Only somebody who was accepted unlocks the session. A refused password is reported in the words of
/// the process, a refused finger is not; and an attempt that came to nothing is made again, soon for
/// a password and a second later for a finger.
pub proof fn law_only_success_unlocks(outcome: WorkerOutcome)
    ensures
        worker::sequel_of_password(outcome) == worker::Sequel::Unlock <==> outcome is Success,
        worker::sequel_of_fingerprint(outcome) == worker::Sequel::Unlock <==> outcome is Success,
        outcome is Failure ==> worker::sequel_of_password(outcome) == worker::Sequel::Report(
            outcome->Failure_0,
        ),
        outcome is Aborted ==> worker::sequel_of_password(outcome) == worker::Sequel::RetryAfter(100),
        !(outcome is Success) ==> worker::sequel_of_fingerprint(outcome)
            == worker::Sequel::RetryAfter(1000),
{
}

/// A module that asks is passed on word for word, hidden if it asks for a secret; and so is one that
/// says something. What is no text is not passed on.
pub proof fn law_modules_are_passed_on(
    asked: Result<WorkerMsg, ()>,
    text: Option<String>,
    secret: bool,
    error: bool,
)
    requires
        is_asked(asked, text, secret),
    ensures
        asked is Ok <==> text is Some,
        text is Some && secret ==> asked->Ok_0 == WorkerMsg::PromptEchoOff(text->0),
        text is Some && !secret ==> asked->Ok_0 == WorkerMsg::PromptEchoOn(text->0),
        message_of(text, error) is Some <==> text is Some,
        text is Some && error ==> message_of(text, error)->0 == WorkerMsg::Error(text->0),
        text is Some && !error ==> message_of(text, error)->0 == WorkerMsg::Info(text->0),
{
}

/// What an answer of greetd says to the greeter follows from what it is and what it answers: what
/// greetd asks is never lost, an error is told unless a session was being cancelled, and so is a
/// success. The connection is opened anew only once a session has been cancelled.
pub proof fn law_answers_are_told(request: RequestKind, response: Response)
    ensures
        notice_of(request, response) is None <==> request == RequestKind::CancelSession && !(response
            is AuthMessage),
        reconnects_after(request, response) <==> notice_of(request, response) is None,
        response is Error && request != RequestKind::CancelSession ==> notice_of(
            request,
            response,
        )->0 is Failure && told_failure(
            response->error_type,
            response->description@,
            notice_of(request, response)->0->Failure_0,
        ),
        response is Success && request == RequestKind::StartSession ==> notice_of(
            request,
            response,
        )->0 == Notice::Exit,
        response is Success && (request == RequestKind::CreateSession || request
            == RequestKind::PostAuthMessageResponse) ==> notice_of(request, response)->0
            == Notice::Login,
{
    if response is Error {
        lemma_told_failure(response->error_type, response->description@);
    }
}

/// The user is told of a failure by what the modules say of it: that they may not, that they tried
/// too often, that the account is at fault, or that their answer was wrong.
pub proof fn law_failures_are_told_by_their_code(code: PamCode)
    ensures
        failure_for(code) == AuthFailure::Denied <==> code == PamCode::PermDenied,
        failure_for(code) == AuthFailure::MaxTries <==> code == PamCode::MaxTries,
        failure_for(code) == AuthFailure::Account <==> code == PamCode::AcctExpired || code
            == PamCode::UserUnknown,
        failure_for(code) == AuthFailure::Credentials <==> code == PamCode::AuthErr || code
            == PamCode::CredInsufficient,
{
}

}
