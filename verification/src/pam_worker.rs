//! A process that runs one authentication, and what it says to the lock screen.
use crate::ipc::AuthFailure;
use crate::text::{chars_of, concat3, contains_char, opt_text, str_eq};
use vstd::prelude::*;
use vstd::string::*;

verus! {

broadcast use vstd::string::group_string_axioms;

/// What the process says to the lock screen.
#[derive(Debug, PartialEq, Eq)]
pub enum WorkerMsg {
    /// Hidden input is wanted. A [`HostMsg::Input`] is to follow.
    PromptEchoOff(String),
    /// Visible input is wanted. A [`HostMsg::Input`] is to follow.
    PromptEchoOn(String),
    /// Something to tell the user.
    Info(String),
    /// An error to tell the user.
    Error(String),
    /// The user has been accepted.
    Success,
    /// The user has not been accepted, with a reason in the user's language.
    Failure(String),
}

/// What the lock screen says to the process.
#[derive(Debug, PartialEq, Eq)]
pub enum HostMsg {
    /// What the user typed.
    Input(String),
}

/// The errors of an authentication that are told apart.
#[derive(Clone, Copy, Debug, PartialEq, Eq, Structural)]
pub enum PamCode {
    AuthErr,
    CredInsufficient,
    PermDenied,
    MaxTries,
    AcctExpired,
    UserUnknown,
    Other,
}

/// Why an authentication failed, as the user is told.
pub open spec fn failure_for(code: PamCode) -> AuthFailure {
    match code {
        PamCode::AuthErr | PamCode::CredInsufficient => AuthFailure::Credentials,
        PamCode::PermDenied => AuthFailure::Denied,
        PamCode::MaxTries => AuthFailure::MaxTries,
        PamCode::AcctExpired | PamCode::UserUnknown => AuthFailure::Account,
        PamCode::Other => AuthFailure::Other,
    }
}

/// Why an authentication failed, as the user is told.
pub fn pam_error_to_message(code: PamCode) -> (failure: AuthFailure)
    ensures
        failure == failure_for(code),
{
    match code {
        PamCode::AuthErr | PamCode::CredInsufficient => AuthFailure::Credentials,
        PamCode::PermDenied => AuthFailure::Denied,
        PamCode::MaxTries => AuthFailure::MaxTries,
        PamCode::AcctExpired | PamCode::UserUnknown => AuthFailure::Account,
        PamCode::Other => AuthFailure::Other,
    }
}

/// `asked` asks for input with a prompt.
pub open spec fn is_asked(
    asked: Result<WorkerMsg, ()>,
    prompt: Option<String>,
    secret: bool,
) -> bool {
    match prompt {
        Some(prompt) => asked == Ok::<WorkerMsg, ()>(
            if secret {
                WorkerMsg::PromptEchoOff(prompt)
            } else {
                WorkerMsg::PromptEchoOn(prompt)
            },
        ),
        None => asked is Err,
    }
}

/// Asks for input. A prompt that is no text ends the conversation.
pub fn prompt_message(prompt: Option<String>, secret: bool) -> (asked: Result<WorkerMsg, ()>)
    ensures
        is_asked(asked, prompt, secret),
{
    match prompt {
        Some(prompt) => {
            if secret {
                Ok(WorkerMsg::PromptEchoOff(prompt))
            } else {
                Ok(WorkerMsg::PromptEchoOn(prompt))
            }
        },
        None => Err(()),
    }
}

// ---------------------------------------------------------------------------
// What the user typed, as a line
// ---------------------------------------------------------------------------

/// How RON writes a text.
pub uninterp spec fn ron_text(text: Seq<char>) -> Seq<char>;

/// Writes a text with `ron::to_string`, which puts it between quotes and escapes every character of
/// it as `char::escape_debug` does. Claimed are that writing into a string never fails, that what
/// comes of it depends on the text alone, and that a line feed is escaped, so that the notation
/// stays on one line.
#[verifier::external_body]
fn write_ron(text: &str) -> (notation: Option<String>)
    ensures
        notation is Some,
        notation->0@ == ron_text(text@),
        !notation->0@.contains('\n'),
{
    ron::to_string(text).ok()
}

/// The text that RON reads from a notation, if it is that of one.
pub uninterp spec fn read_text(notation: Seq<char>) -> Option<Seq<char>>;

/// Reads a text with `ron::from_str`. Claimed are that what comes of it depends on the notation
/// alone, and that the reader understands what `ron::to_string` writes, and gives back the text that
/// was written. What it makes of other notations is not restated.
#[verifier::external_body]
fn read_ron(notation: &str) -> (text: Option<String>)
    ensures
        opt_text(text) == read_text(notation@),
        forall|written: Seq<char>|
            notation@ == #[trigger] ron_text(written) ==> opt_text(text) == Some(written),
{
    ron::from_str::<String>(notation).ok()
}

/// The line that hands what the user typed to the process, without its end.
pub open spec fn host_line(value: Seq<char>) -> Seq<char> {
    "Input("@ + ron_text(value) + ")"@
}

/// The line that hands what the user typed to the process, without its end.
pub fn host_input(value: &str) -> (line: String)
    ensures
        line@ == host_line(value@),
        !line@.contains('\n'),
{
    proof {
        reveal_strlit("Input(");
        reveal_strlit(")");
    }
    match write_ron(value) {
        Some(notation) => {
            let line = concat3("Input(", notation.as_str(), ")");
            proof {
                assert forall|i: int| 0 <= i < line@.len() implies line@[i] != '\n' by {
                    if 6 <= i < line@.len() - 1 {
                        assert(line@[i] == notation@[i - 6]);
                    }
                }
            }
            line
        },
        None => String::new(),
    }
}

/// A line without its end.
pub open spec fn without_end(line: Seq<char>) -> Seq<char> {
    if line.len() > 0 && line.last() == '\n' {
        line.drop_last()
    } else {
        line
    }
}

/// A line hands `value` to the process, in the form that the lock screen writes.
pub open spec fn hands_over(line: Seq<char>, value: Seq<char>) -> bool {
    without_end(line) == host_line(value)
}

/// The notation in a line that hands something to the process.
fn handed_notation(line: &str) -> (notation: Option<String>)
    ensures
        match notation {
            Some(notation) => without_end(line@) == "Input("@ + notation@ + ")"@,
            None => forall|value: Seq<char>| !#[trigger] hands_over(line@, value),
        },
{
    proof {
        reveal_strlit("Input(");
        reveal_strlit(")");
    }
    let chars = chars_of(line);
    let mut n: usize = chars.len();
    if n > 0 && chars[n - 1] == '\n' {
        n = n - 1;
    }
    let ghost text = without_end(line@);
    proof {
        assert(text == line@.subrange(0, n as int));
        assert forall|value: Seq<char>| hands_over(line@, value) implies text.len() >= 7
            && text.subrange(0, 6) == "Input("@ && text.subrange(n - 1, n as int) == ")"@ by {
            assert(text == "Input("@ + ron_text(value) + ")"@);
            assert(text.subrange(0, 6) == "Input("@);
            assert(text.subrange(n - 1, n as int) == ")"@);
        }
    }
    if n < 7 {
        return None;
    }
    proof {
        assert(line@.subrange(0, 6) == text.subrange(0, 6));
        assert(line@.subrange(n - 1, n as int) == text.subrange(n - 1, n as int));
    }
    if !str_eq(line.substring_char(0, 6), "Input(") || !str_eq(line.substring_char(n - 1, n), ")") {
        return None;
    }
    let notation = line.substring_char(6, n - 1).to_owned();
    proof {
        assert(text == text.subrange(0, 6) + text.subrange(6, n - 1) + text.subrange(
            n - 1,
            n as int,
        ));
        assert(text.subrange(6, n - 1) == notation@);
    }
    Some(notation)
}

/// The input that was received: from a line in the form that the lock screen writes, the text that
/// was written; from another line, what could be made of it otherwise; without a line, nothing.
pub open spec fn received(
    line: Option<String>,
    read: Option<HostMsg>,
    input: Option<String>,
) -> bool {
    match line {
        Some(line) => {
            &&& forall|value: Seq<char>| #[trigger]
                hands_over(line@, value) ==> opt_text(input) == Some(value)
            &&& (forall|value: Seq<char>| !#[trigger] hands_over(line@, value)) ==> input == (
            match read {
                Some(HostMsg::Input(value)) => Some(value),
                None => None,
            })
        },
        None => input is None,
    }
}

/// The input from what was read: a line, if there was one, and what could be made of it where it is
/// not in the form that the lock screen writes.
pub fn recv_input(line: Option<String>, read: Option<HostMsg>) -> (input: Option<String>)
    ensures
        received(line, read, input),
{
    match line {
        Some(line) => {
            if let Some(notation) = handed_notation(line.as_str()) {
                proof {
                    assert forall|value: Seq<char>| hands_over(line@, value) implies notation@
                        == #[trigger] ron_text(value) by {
                        let whole = "Input("@ + ron_text(value) + ")"@;
                        let text = "Input("@ + notation@ + ")"@;
                        assert(text == whole);
                        assert(ron_text(value) == whole.subrange(
                            "Input("@.len() as int,
                            whole.len() - ")"@.len(),
                        ));
                        assert(notation@ == text.subrange(
                            "Input("@.len() as int,
                            text.len() - ")"@.len(),
                        ));
                    }
                }
                if let Some(value) = read_ron(notation.as_str()) {
                    if let Some(again) = write_ron(value.as_str()) {
                        if again == notation {
                            proof {
                                assert(hands_over(line@, value@));
                            }
                            return Some(value);
                        }
                    }
                }
            }
            match read {
                Some(HostMsg::Input(value)) => Some(value),
                None => None,
            }
        },
        None => None,
    }
}

/// What the user typed comes back as it was typed, whatever characters are in it, and whatever else
/// could be made of the line; and nothing but this one line is used up: it ends with the first line
/// feed.
pub proof fn law_typed_text_comes_back(
    value: Seq<char>,
    line: String,
    sent: String,
    read: Option<HostMsg>,
    input: Option<String>,
)
    requires
        line@ == host_line(value) && !line@.contains('\n'),
        sent@ == line@.push('\n'),
        received(Some(sent), read, input),
    ensures
        opt_text(input) == Some(value),
        forall|i: int| 0 <= i < sent@.len() && #[trigger] sent@[i] == '\n' ==> i == sent@.len() - 1,
{
    assert(sent@.drop_last() == line@);
    assert(hands_over(sent@, value));
    assert forall|i: int| 0 <= i < sent@.len() && #[trigger] sent@[i] == '\n' implies i
        == sent@.len() - 1 by {
        if i < line@.len() {
            assert(line@[i] == sent@[i]);
            assert(line@.contains(line@[i]));
        }
    }
}

/// Where nothing was read, there is no input; and a line that cannot be understood is none either.
pub proof fn law_no_input_without_a_message(
    line: Option<String>,
    read: Option<HostMsg>,
    input: Option<String>,
)
    requires
        received(line, read, input),
        line is None || read is None && forall|value: Seq<char>|
            !#[trigger] hands_over(line->0@, value),
    ensures
        input is None,
{
}

/// The answer to a prompt. Without input, or with a zero byte in it, the conversation ends.
pub fn prompt_answer(input: Option<String>) -> (answer: Result<String, ()>)
    ensures
        match input {
            Some(value) if !value@.contains('\0') => answer == Ok::<String, ()>(value),
            _ => answer is Err,
        },
{
    match input {
        Some(value) => {
            if contains_char(value.as_str(), '\0') {
                Err(())
            } else {
                Ok(value)
            }
        },
        None => Err(()),
    }
}

/// What tells the user a text.
pub open spec fn message_of(text: Option<String>, error: bool) -> Option<WorkerMsg> {
    match text {
        Some(text) => Some(
            if error {
                WorkerMsg::Error(text)
            } else {
                WorkerMsg::Info(text)
            },
        ),
        None => None,
    }
}

/// Tells the user something. What is no text is left out.
pub fn text_message(text: Option<String>, error: bool) -> (told: Option<WorkerMsg>)
    ensures
        told == message_of(text, error),
{
    match text {
        Some(text) => {
            if error {
                Some(WorkerMsg::Error(text))
            } else {
                Some(WorkerMsg::Info(text))
            }
        },
        None => None,
    }
}

/// A step of an authentication. They are taken in this order, until one fails.
#[derive(Clone, Copy, Debug, PartialEq, Eq, Structural)]
pub enum Stage {
    Context,
    Authenticate,
    AccountManagement,
}

/// How an authentication goes on: with another step, or with an end.
#[derive(Clone, Copy, Debug, PartialEq, Eq, Structural)]
pub enum Course {
    Take(Stage),
    /// Say that the user was accepted, and exit with 0.
    Accepted,
    /// Say why the user was not accepted, and exit with 1.
    Rejected(AuthFailure),
}

impl Course {
    /// How an authentication goes on after a step.
    pub open spec fn following(stage: Stage, result: Result<(), PamCode>) -> Course {
        match result {
            Err(code) => Course::Rejected(failure_for(code)),
            Ok(_) => match stage {
                Stage::Context => Course::Take(Stage::Authenticate),
                Stage::Authenticate => Course::Take(Stage::AccountManagement),
                Stage::AccountManagement => Course::Accepted,
            },
        }
    }

    /// How an authentication goes on after a step.
    pub fn after(stage: Stage, result: Result<(), PamCode>) -> (course: Course)
        ensures
            course == Course::following(stage, result),
    {
        match result {
            Err(code) => Course::Rejected(pam_error_to_message(code)),
            Ok(()) => match stage {
                Stage::Context => Course::Take(Stage::Authenticate),
                Stage::Authenticate => Course::Take(Stage::AccountManagement),
                Stage::AccountManagement => Course::Accepted,
            },
        }
    }
}

/// What an authentication comes to, from the results of its steps.
pub open spec fn outcome(
    context: Result<(), PamCode>,
    authenticated: Result<(), PamCode>,
    account: Result<(), PamCode>,
) -> Course {
    match context {
        Err(code) => Course::Rejected(failure_for(code)),
        Ok(_) => match authenticated {
            Err(code) => Course::Rejected(failure_for(code)),
            Ok(_) => match account {
                Err(code) => Course::Rejected(failure_for(code)),
                Ok(_) => Course::Accepted,
            },
        },
    }
}

/// What an authentication comes to, from the results of its steps; those after the first that
/// failed do not matter.
pub fn run(
    context: Result<(), PamCode>,
    authenticated: Result<(), PamCode>,
    account: Result<(), PamCode>,
) -> (course: Course)
    ensures
        course == outcome(context, authenticated, account),
{
    match Course::after(Stage::Context, context) {
        Course::Take(_) => match Course::after(Stage::Authenticate, authenticated) {
            Course::Take(_) => Course::after(Stage::AccountManagement, account),
            other => other,
        },
        other => other,
    }
}

/// Nobody is accepted unless they have been authenticated and their account may be used.
pub proof fn law_accepted_only_after_every_stage(
    context: Result<(), PamCode>,
    authenticated: Result<(), PamCode>,
    account: Result<(), PamCode>,
)
    ensures
        outcome(context, authenticated, account) == Course::Accepted <==> (context is Ok
            && authenticated is Ok && account is Ok),
{
}

}
