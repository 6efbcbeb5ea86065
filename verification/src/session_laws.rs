//! What holds of every session that is found.
use crate::session::{
    comment_run, few_comments, last_described, lookup, parsed_attributes,
    session_in, session_with, shell_words, Session, SessionFile, SessionModel, SessionType,
};
use crate::text_laws::{is_first_piece, law_first_piece_ends_at_the_separator};
use vstd::prelude::*;

verus! {

/// The command of a session ends with all words of its command line, in their order. Before them
/// stands the environment, before that `/usr/bin/env`, and before that nothing, or `startx` where an
/// X server is needed.
pub proof fn law_command_ends_with_all_words(
    kind: SessionType,
    name: Seq<char>,
    desktop_names: Option<Seq<char>>,
    words: Seq<Seq<char>>,
)
    ensures
        ({
            let session = session_with(kind, name, desktop_names, words);
            let (n, e) = (session.command.len() as int, session.env.len() as int);
            let before = if kind == SessionType::X11 {
                2int
            } else {
                1int
            };
            &&& session.name == name
            &&& n == before + e + words.len()
            &&& session.command.subrange(n - words.len(), n) == words
            &&& session.command.subrange(before, before + e) == session.env
            &&& session.command[before - 1] == "/usr/bin/env"@
            &&& kind == SessionType::X11 ==> session.command[0] == "startx"@
        }),
{
    let session = session_with(kind, name, desktop_names, words);
    let (n, e) = (session.command.len() as int, session.env.len() as int);
    assert(session.command.subrange(n - words.len(), n) == words);
    assert(session.command.subrange(n - words.len() - e, n - words.len()) == session.env);
}

/// The environment of a session names its type, and, where the file names desktops, all of them and
/// the first of them, which ends before the first colon.
pub proof fn law_environment_names_the_desktop(
    kind: SessionType,
    name: Seq<char>,
    desktop_names: Option<Seq<char>>,
    words: Seq<Seq<char>>,
)
    ensures
        ({
            let env = session_with(kind, name, desktop_names, words).env;
            &&& env.len() >= 1
            &&& kind == SessionType::X11 ==> env[0] == "XDG_SESSION_TYPE=x11"@
            &&& kind == SessionType::Wayland ==> env[0] == "XDG_SESSION_TYPE=wayland"@
            &&& desktop_names is None ==> env.len() == 1
            &&& desktop_names is Some ==> {
                &&& env.len() == 3
                &&& env[1] == "XDG_CURRENT_DESKTOP="@ + desktop_names->0
                &&& exists|first: Seq<char>| #[trigger]
                    is_first_piece(first, desktop_names->0, ':') && env[2]
                        == "XDG_SESSION_DESKTOP="@ + first
            }
        }),
{
    if let Some(names) = desktop_names {
        law_first_piece_ends_at_the_separator(names, ':');
    }
}

/// An attribute of the main section of a session file.
pub open spec fn entry_attribute(bytes: Seq<u8>, name: Seq<char>) -> Option<Seq<char>> {
    match parsed_attributes(bytes) {
        Some(attributes) if attributes.contains_key(("Desktop Entry"@, name)) => Some(
            attributes[("Desktop Entry"@, name)],
        ),
        _ => None,
    }
}

/// A file describes a session exactly where it has a name and a well formed command line, and the
/// session has that name, those words and those desktop names.
pub proof fn law_files_describe_their_session(kind: SessionType, bytes: Seq<u8>)
    requires
        few_comments(bytes),
    ensures
        session_in(kind, bytes) is Some <==> {
            &&& entry_attribute(bytes, "Name"@) is Some
            &&& entry_attribute(bytes, "Exec"@) is Some
            &&& shell_words(entry_attribute(bytes, "Exec"@)->0) is Some
        },
        session_in(kind, bytes) is Some ==> session_in(kind, bytes)->0 == session_with(
            kind,
            entry_attribute(bytes, "Name"@)->0,
            entry_attribute(bytes, "DesktopNames"@),
            shell_words(entry_attribute(bytes, "Exec"@)->0)->0,
        ),
{
}

proof fn lemma_run_is_counted(bytes: Seq<u8>)
    ensures
        comment_run(bytes).1 <= bytes.filter(|byte: u8| byte == 35).len(),
    decreases bytes.len(),
{
    reveal(Seq::filter);
    if bytes.len() > 0 {
        lemma_run_is_counted(bytes.drop_last());
    }
}

/// A file with no more than 2048 hash signs is always read, however long it is.
pub proof fn law_ordinary_files_are_read(bytes: Seq<u8>)
    requires
        bytes.filter(|byte: u8| byte == 35).len() <= 2048,
    ensures
        few_comments(bytes),
{
    assert forall|n: int| 0 <= n <= bytes.len() implies (#[trigger] comment_run(bytes.take(n))).1
        <= 2048 by {
        lemma_run_is_counted(bytes.take(n));
        let is_hash = |byte: u8| byte == 35;
        Seq::filter_distributes_over_add(bytes.take(n), bytes.skip(n), is_hash);
        assert(bytes.take(n) + bytes.skip(n) == bytes);
    }
}

proof fn lemma_run_after(a: Seq<u8>, b: Seq<u8>)
    requires
        comment_run(a) == (true, 0nat),
    ensures
        comment_run(a + b) == comment_run(b),
    decreases b.len(),
{
    if b.len() == 0 {
        assert(a + b == a);
    } else {
        assert((a + b).drop_last() == a + b.drop_last());
        lemma_run_after(a, b.drop_last());
    }
}

/// Comments that do not follow one another do not add up: after a line that is no comment, the rest
/// of a file is read or not as it would be alone.
pub proof fn law_comments_do_not_add_up(a: Seq<u8>, b: Seq<u8>)
    requires
        comment_run(a) == (true, 0nat),
        few_comments(a),
        few_comments(b),
    ensures
        few_comments(a + b),
{
    let whole = a + b;
    assert forall|n: int| 0 <= n <= whole.len() implies (#[trigger] comment_run(whole.take(n))).1
        <= crate::session::MAX_COMMENTS by {
        if n <= a.len() {
            assert(whole.take(n) == a.take(n));
        } else {
            let m = n - a.len();
            assert(whole.take(n) == a + b.take(m));
            lemma_run_after(a, b.take(m));
        }
    }
}

/// File `i` describes the session `session`, and no later one describes a session of this name.
pub open spec fn is_last_with_name(
    files: Seq<SessionFile>,
    i: int,
    name: Seq<char>,
    session: SessionModel,
) -> bool {
    &&& 0 <= i < files.len()
    &&& session_in(files[i].kind, files[i].contents@) == Some(session)
    &&& session.name == name
    &&& forall|j: int| i < j < files.len() ==> !has_name(#[trigger] files[j], name)
}

/// A file describes a session of this name.
pub open spec fn has_name(file: SessionFile, name: Seq<char>) -> bool {
    match session_in(file.kind, file.contents@) {
        Some(session) => session.name == name,
        None => false,
    }
}

/// No session is lost: under a name there is the session of the last file that describes one of this
/// name, and there is none only where no file does.
pub proof fn law_every_described_session_is_found(files: Seq<SessionFile>, name: Seq<char>)
    ensures
        match last_described(files, name) {
            Some(session) => exists|i: int| #[trigger] is_last_with_name(files, i, name, session),
            None => forall|i: int| 0 <= i < files.len() ==> !has_name(#[trigger] files[i], name),
        },
    decreases files.len(),
{
    if files.len() > 0 {
        let less = files.drop_last();
        law_every_described_session_is_found(less, name);
        let last = files.len() - 1;
        if has_name(files[last], name) {
            let session = session_in(files[last].kind, files[last].contents@)->0;
            assert(is_last_with_name(files, last, name, session));
        } else {
            match last_described(less, name) {
                Some(session) => {
                    let i = choose|i: int| #[trigger] is_last_with_name(less, i, name, session);
                    assert(files[i] == less[i]);
                    assert forall|j: int| i < j < files.len() implies !has_name(
                        #[trigger] files[j],
                        name,
                    ) by {
                        if j < last {
                            assert(files[j] == less[j]);
                        }
                    }
                    assert(is_last_with_name(files, i, name, session));
                },
                None => {
                    assert forall|i: int| 0 <= i < files.len() implies !has_name(
                        #[trigger] files[i],
                        name,
                    ) by {
                        if i < last {
                            assert(files[i] == less[i]);
                        }
                    }
                },
            }
        }
    }
}

/// What is found under a name is in the list, under this name; and where nothing is found, nothing of
/// this name is in it.
pub proof fn law_found_sessions_are_listed(sessions: Seq<Session>, name: Seq<char>)
    ensures
        match lookup(sessions, name) {
            Some(session) => session.name == name && exists|i: int|
                0 <= i < sessions.len() && (#[trigger] sessions[i])@ == session,
            None => forall|i: int|
                0 <= i < sessions.len() ==> (#[trigger] sessions[i]).name@ != name,
        },
    decreases sessions.len(),
{
    if sessions.len() > 0 {
        let less = sessions.drop_last();
        law_found_sessions_are_listed(less, name);
        let last = sessions.len() - 1;
        assert(sessions[last] == sessions.last());
        if sessions.last().name@ != name {
            match lookup(less, name) {
                Some(session) => {
                    let i = choose|i: int|
                        0 <= i < less.len() && (#[trigger] less[i])@ == session;
                    assert(sessions[i]@ == session);
                },
                None => {
                    assert forall|i: int| 0 <= i < sessions.len() implies (
                    #[trigger] sessions[i]).name@ != name by {
                        if i < last {
                            assert(sessions[i] == less[i]);
                        }
                    }
                },
            }
        }
    }
}

}
