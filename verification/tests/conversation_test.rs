//! The conversations with greetd, with a process that authenticates, and with the login manager.
use cosmic_greeter::ipc;
use cosmic_greeter::ipc::{
    answer, greetd_error_to_message, AuthFailure, AuthMessageType, ErrorType, RequestKind, Response,
};
use cosmic_greeter::logind::{Action, Handler, Signal};
use cosmic_greeter::pam_worker::{
    host_input, pam_error_to_message, prompt_answer, prompt_message, recv_input, run, text_message,
    Course, HostMsg, PamCode, Stage, WorkerMsg,
};
use cosmic_greeter::worker;
use cosmic_greeter::worker::{after_fingerprint, after_password, Sequel, Worker, WorkerOutcome};

#[test]
fn greetd_errors_are_told_apart() {
    for (description, failure) in [
        ("pam: PERM_DENIED", AuthFailure::Denied),
        ("MAXTRIES", AuthFailure::MaxTries),
        ("x ACCT_EXPIRED y", AuthFailure::Account),
        ("USER_UNKNOWN", AuthFailure::Account),
        ("AUTH_ERR", AuthFailure::Credentials),
        ("", AuthFailure::Credentials),
        ("MAXTRIES PERM_DENIED", AuthFailure::Denied),
    ] {
        assert_eq!(greetd_error_to_message(ErrorType::AuthError, description), failure);
        assert_eq!(greetd_error_to_message(ErrorType::Error, description), AuthFailure::Other);
    }
}

fn auth_message(auth_message_type: AuthMessageType) -> Response {
    Response::AuthMessage { auth_message_type, auth_message: "m".to_string() }
}

fn failed() -> Response {
    Response::Error { error_type: ErrorType::AuthError, description: "MAXTRIES".to_string() }
}

#[test]
fn answers_of_greetd_are_understood() {
    let prompt = |secret, answer| ipc::Notice::Prompt { prompt: "m".to_string(), secret, answer };
    let create = RequestKind::CreateSession;
    assert_eq!(answer(create, auth_message(AuthMessageType::Secret)), (Some(prompt(true, true)), false));
    assert_eq!(answer(create, auth_message(AuthMessageType::Visible)), (Some(prompt(false, true)), false));
    assert_eq!(answer(create, auth_message(AuthMessageType::Info)), (Some(prompt(false, false)), false));
    assert_eq!(
        answer(create, auth_message(AuthMessageType::Error)),
        (Some(ipc::Notice::Error("m".to_string())), false)
    );
    assert_eq!(
        answer(create, failed()),
        (Some(ipc::Notice::Failure(AuthFailure::MaxTries)), false)
    );
    assert_eq!(answer(RequestKind::CancelSession, failed()), (None, true));
    assert_eq!(answer(create, Response::Success), (Some(ipc::Notice::Login), false));
    assert_eq!(
        answer(RequestKind::PostAuthMessageResponse, Response::Success),
        (Some(ipc::Notice::Login), false)
    );
    assert_eq!(
        answer(RequestKind::StartSession, Response::Success),
        (Some(ipc::Notice::Exit), false)
    );
    assert_eq!(answer(RequestKind::CancelSession, Response::Success), (None, true));
}

#[test]
fn one_request_is_under_way_at_a_time() {
    let create = RequestKind::CreateSession;
    let (phase, actions) = ipc::step(ipc::Phase::Closed, ipc::Event::Due);
    assert_eq!(actions, vec![ipc::Action::Tell(ipc::Notice::Reconnect), ipc::Action::Connect]);
    let (phase, actions) = ipc::step(phase, ipc::Event::Connected);
    assert_eq!(actions, vec![ipc::Action::Tell(ipc::Notice::SocketOpen), ipc::Action::Receive]);
    let (phase, actions) = ipc::step(phase, ipc::Event::Request(Some(create)));
    assert_eq!((phase, actions), (ipc::Phase::Writing(create), vec![ipc::Action::Write]));
    let (busy, actions) = ipc::step(phase, ipc::Event::Request(Some(create)));
    assert_eq!((busy, actions), (phase, vec![]));
    let (phase, actions) = ipc::step(phase, ipc::Event::Written);
    assert_eq!((phase, actions), (ipc::Phase::Reading(create), vec![ipc::Action::Read]));
    let (phase, actions) = ipc::step(phase, ipc::Event::Response(Response::Success));
    assert_eq!(phase, ipc::Phase::Receiving);
    assert_eq!(actions, vec![ipc::Action::Tell(ipc::Notice::Login), ipc::Action::Receive]);
}

#[test]
fn broken_connections_are_opened_anew() {
    let create = RequestKind::CreateSession;
    let again = (ipc::Phase::Closed, vec![ipc::Action::Wait]);
    assert_eq!(ipc::step(ipc::Phase::Writing(create), ipc::Event::WriteFailed), again);
    assert_eq!(ipc::step(ipc::Phase::Reading(create), ipc::Event::ReadFailed), again);
    assert_eq!(ipc::step(ipc::Phase::Receiving, ipc::Event::Request(None)), again);
    let cancel = ipc::Phase::Reading(RequestKind::CancelSession);
    assert_eq!(ipc::step(cancel, ipc::Event::Response(failed())), again);
    assert_eq!(ipc::step(cancel, ipc::Event::Response(Response::Success)), again);
}

#[test]
fn the_greeter_is_told_why_no_connection_was_opened() {
    let why = || "NotFound".to_string();
    assert_eq!(
        ipc::step(ipc::Phase::Connecting, ipc::Event::ConnectFailed(why())),
        (
            ipc::Phase::Halted,
            vec![ipc::Action::Tell(ipc::Notice::SocketError(why())), ipc::Action::Halt]
        )
    );
    assert_eq!(ipc::step(ipc::Phase::Halted, ipc::Event::Due), (ipc::Phase::Halted, vec![]));
    assert_eq!(
        ipc::step(ipc::Phase::Closed, ipc::Event::ConnectFailed(why())),
        (ipc::Phase::Closed, vec![])
    );
}

#[test]
fn pam_errors_are_told_apart() {
    for (code, failure) in [
        (PamCode::AuthErr, AuthFailure::Credentials),
        (PamCode::CredInsufficient, AuthFailure::Credentials),
        (PamCode::PermDenied, AuthFailure::Denied),
        (PamCode::MaxTries, AuthFailure::MaxTries),
        (PamCode::AcctExpired, AuthFailure::Account),
        (PamCode::UserUnknown, AuthFailure::Account),
        (PamCode::Other, AuthFailure::Other),
    ] {
        assert_eq!(pam_error_to_message(code), failure);
    }
}

#[test]
fn prompts_become_messages() {
    let text = || Some("p".to_string());
    assert_eq!(prompt_message(text(), true), Ok(WorkerMsg::PromptEchoOff("p".to_string())));
    assert_eq!(prompt_message(text(), false), Ok(WorkerMsg::PromptEchoOn("p".to_string())));
    assert_eq!(prompt_message(None, true), Err(()));
    assert_eq!(text_message(text(), false), Some(WorkerMsg::Info("p".to_string())));
    assert_eq!(text_message(text(), true), Some(WorkerMsg::Error("p".to_string())));
    assert_eq!(text_message(None, true), None);
    assert_eq!(prompt_answer(Some("x".to_string())), Ok("x".to_string()));
    assert_eq!(prompt_answer(Some("x\0".to_string())), Err(()));
    assert_eq!(prompt_answer(None), Err(()));
}

#[test]
fn typed_text_comes_back_from_its_line() {
    for value in [
        "", "x", "correct horse", " a b ", "two\nlines", "\r\n", "tab\t", "\"quoted\"", "it's",
        "back\\slash", "\\n", "Input(\"x\")", ")", "\0", "\u{7f}\u{301}\u{200e}", "gr\u{fc}n",
        "\u{1f511}", "// no comment", "#![enable(x)]",
    ] {
        let line = host_input(value);
        assert!(!line.contains('\n'), "{:?}", value);
        let sent = format!("{}\n", line);
        assert_eq!(recv_input(Some(sent), None), Some(value.to_string()), "{:?}", value);
        assert_eq!(recv_input(Some(line), None), Some(value.to_string()), "{:?}", value);
    }
    assert_eq!(host_input("a\"b\nc"), "Input(\"a\\\"b\\nc\")");
}

#[test]
fn the_line_is_what_ron_makes_of_the_text() {
    for value in ["", "a b", "\u{301}", "\"\n\\'\0"] {
        let text = ron::to_string(value).unwrap();
        assert_eq!(host_input(value), format!("Input({})", text));
    }
}

#[test]
fn other_lines_are_read_otherwise_or_not_at_all() {
    let read = || Some(HostMsg::Input("y".to_string()));
    for line in [
        "", "\n", "Input(", "Input()", "Output(\"x\")\n", "Input(\"x\"", "Input( \"x\" )\n",
        "Input(\"x\" // )\n", "Input(r\"x\")\n", "Input(\"x\")  \n", "Input(\"x\")\n\n",
    ] {
        assert_eq!(recv_input(Some(line.to_string()), None), None, "{:?}", line);
        assert_eq!(recv_input(Some(line.to_string()), read()), Some("y".to_string()), "{:?}", line);
    }
    assert_eq!(recv_input(None, None), None);
    assert_eq!(recv_input(None, read()), None);
}

#[test]
fn accepted_only_after_every_stage() {
    assert_eq!(run(Ok(()), Ok(()), Ok(())), Course::Accepted);
    assert_eq!(run(Err(PamCode::Other), Ok(()), Ok(())), Course::Rejected(AuthFailure::Other));
    assert_eq!(
        run(Ok(()), Err(PamCode::AuthErr), Err(PamCode::MaxTries)),
        Course::Rejected(AuthFailure::Credentials)
    );
    assert_eq!(
        run(Ok(()), Ok(()), Err(PamCode::AcctExpired)),
        Course::Rejected(AuthFailure::Account)
    );
    assert_eq!(Course::after(Stage::Context, Ok(())), Course::Take(Stage::Authenticate));
    assert_eq!(
        Course::after(Stage::Authenticate, Ok(())),
        Course::Take(Stage::AccountManagement)
    );
}

const PASSWORD: Worker = Worker { is_fingerprint: false, takes_input: true };
const FINGERPRINT: Worker = Worker { is_fingerprint: true, takes_input: false };

fn line(message: WorkerMsg) -> worker::Event {
    worker::Event::Line(Some(message))
}

#[test]
fn a_password_is_asked_for_and_written() {
    let (phase, actions) = PASSWORD.step(worker::Phase::Starting, worker::Event::Spawned);
    assert_eq!((phase, actions), (worker::Phase::Reading, vec![worker::Action::ReadLine]));
    let (phase, actions) = PASSWORD.step(phase, line(WorkerMsg::PromptEchoOff("p".to_string())));
    let prompt = worker::Notice::Prompt { prompt: "p".to_string(), secret: true };
    assert_eq!(actions, vec![worker::Action::Tell(prompt), worker::Action::AwaitInput]);
    let (phase, actions) = PASSWORD.step(phase, worker::Event::Typed(Some("pw".to_string())));
    assert_eq!(actions, vec![worker::Action::Write("pw".to_string())]);
    let (phase, actions) = PASSWORD.step(phase, worker::Event::Written);
    assert_eq!(actions, vec![worker::Action::ReadLine]);
    let (phase, actions) = PASSWORD.step(phase, line(WorkerMsg::Success));
    assert_eq!(phase, worker::Phase::Done);
    assert_eq!(actions, vec![worker::Action::Finish(WorkerOutcome::Success)]);
}

#[test]
fn a_fingerprint_process_gets_an_empty_answer() {
    let (phase, actions) =
        FINGERPRINT.step(worker::Phase::Reading, line(WorkerMsg::PromptEchoOn("p".to_string())));
    assert_eq!(actions, vec![worker::Action::Write(String::new())]);
    let again = (worker::Phase::Reading, vec![worker::Action::ReadLine]);
    assert_eq!(FINGERPRINT.step(phase, worker::Event::WriteFailed), again);
    assert_eq!(FINGERPRINT.step(phase, worker::Event::Written), again);
}

#[test]
fn news_of_a_process_are_shown_where_they_belong() {
    let told = |worker: Worker, message: WorkerMsg| {
        let (phase, mut actions) = worker.step(worker::Phase::Reading, line(message));
        assert_eq!(phase, worker::Phase::Reading);
        assert_eq!(actions.pop(), Some(worker::Action::ReadLine));
        actions
    };
    let info = || WorkerMsg::Info("t".to_string());
    let error = || WorkerMsg::Error("t".to_string());
    let text = || "t".to_string();
    assert_eq!(told(PASSWORD, info()), vec![worker::Action::Tell(worker::Notice::Info(text()))]);
    assert_eq!(told(PASSWORD, error()), vec![worker::Action::Tell(worker::Notice::Error(text()))]);
    let finger = || vec![worker::Action::Tell(worker::Notice::FingerprintInfo(text()))];
    assert_eq!(told(FINGERPRINT, info()), finger());
    assert_eq!(told(FINGERPRINT, error()), finger());
}

#[test]
fn only_success_is_success() {
    let aborted =
        || (worker::Phase::Done, vec![worker::Action::Finish(WorkerOutcome::Aborted)]);
    assert_eq!(PASSWORD.step(worker::Phase::Starting, worker::Event::SpawnFailed), aborted());
    assert_eq!(PASSWORD.step(worker::Phase::Reading, worker::Event::Ended), aborted());
    assert_eq!(PASSWORD.step(worker::Phase::Typing, worker::Event::Typed(None)), aborted());
    assert_eq!(PASSWORD.step(worker::Phase::Writing, worker::Event::WriteFailed), aborted());
    assert_eq!(
        PASSWORD.step(worker::Phase::Reading, worker::Event::Line(None)),
        (worker::Phase::Reading, vec![worker::Action::ReadLine])
    );
    assert_eq!(
        PASSWORD.step(worker::Phase::Reading, line(WorkerMsg::Failure("no".to_string()))),
        (
            worker::Phase::Done,
            vec![worker::Action::Finish(WorkerOutcome::Failure("no".to_string()))]
        )
    );
    assert_eq!(
        PASSWORD.step(worker::Phase::Typing, line(WorkerMsg::Success)),
        (worker::Phase::Typing, vec![])
    );
}

#[test]
fn attempts_follow_one_another() {
    let failure = || WorkerOutcome::Failure("no".to_string());
    assert_eq!(after_password(WorkerOutcome::Success), Sequel::Unlock);
    assert_eq!(after_password(failure()), Sequel::Report("no".to_string()));
    assert_eq!(after_password(WorkerOutcome::Aborted), Sequel::RetryAfter(100));
    assert_eq!(after_fingerprint(WorkerOutcome::Success), Sequel::Unlock);
    assert_eq!(after_fingerprint(failure()), Sequel::RetryAfter(1000));
    assert_eq!(after_fingerprint(WorkerOutcome::Aborted), Sequel::RetryAfter(1000));
}

#[test]
fn sleep_locks_and_the_inhibitor_is_handed_on_once() {
    let mut handler = Handler { inhibit_opt: Some(4) };
    let sleep = Signal::PrepareForSleep(Some(true));
    assert_eq!(handler.handle(sleep), vec![Action::SendInhibit(4), Action::SendLock]);
    assert_eq!(handler.handle(sleep), vec![Action::SendLock]);
    let resume = Signal::PrepareForSleep(Some(false));
    assert_eq!(handler.handle(resume), vec![Action::Acquire, Action::SendTick]);
    handler.acquired(5);
    assert_eq!(handler.handle(resume), vec![Action::SendTick]);
    assert_eq!(handler.handle(Signal::PrepareForSleep(None)), vec![]);
    assert_eq!(handler.handle(Signal::Lock), vec![Action::SendLock]);
    assert_eq!(handler.handle(Signal::Unlock), vec![Action::SendUnlock]);
    assert_eq!(handler.inhibit_opt, Some(5));
}
