//! Desktop sessions: how each is started, and which there are.
use crate::order::{insertion_point, lemma_empty, lemma_insert, stably_sorted, total_preorder};
use crate::text::{
    concat2, first_piece, lemma_text_le_total, lemma_text_le_transitive, opt_text, split,
    text_at_most, text_le, texts,
};
use vstd::prelude::*;
use vstd::string::*;

verus! {

broadcast use vstd::string::group_string_axioms;

/// The display server that a session uses.
#[derive(Clone, Copy, Debug, PartialEq, Eq, Structural)]
pub enum SessionType {
    X11,
    Wayland,
}

/// A session: its name, the command that starts it, and the environment of that command.
#[derive(Debug, PartialEq, Eq)]
pub struct Session {
    pub name: String,
    pub command: Vec<String>,
    pub env: Vec<String>,
}

/// What a [`Session`] says.
#[verifier::ext_equal]
pub struct SessionModel {
    pub name: Seq<char>,
    pub command: Seq<Seq<char>>,
    pub env: Seq<Seq<char>>,
}

impl View for Session {
    type V = SessionModel;

    open spec fn view(&self) -> SessionModel {
        SessionModel { name: self.name@, command: texts(self.command@), env: texts(self.env@) }
    }
}

// ---------------------------------------------------------------------------
// One session
// ---------------------------------------------------------------------------

/// The environment of a session: its type, and what its desktop is called.
pub open spec fn session_env(kind: SessionType, desktop_names: Option<Seq<char>>) -> Seq<Seq<char>> {
    let session_type = match kind {
        SessionType::X11 => "XDG_SESSION_TYPE=x11"@,
        SessionType::Wayland => "XDG_SESSION_TYPE=wayland"@,
    };
    match desktop_names {
        Some(names) => seq![
            session_type,
            "XDG_CURRENT_DESKTOP="@ + names,
            "XDG_SESSION_DESKTOP="@ + split(names, ':')[0],
        ],
        None => seq![session_type],
    }
}

/// The command of a session: its words, in its environment, under an X server if it needs one.
pub open spec fn session_command(
    kind: SessionType,
    env: Seq<Seq<char>>,
    words: Seq<Seq<char>>,
) -> Seq<Seq<char>> {
    let server = match kind {
        SessionType::X11 => seq!["startx"@],
        SessionType::Wayland => Seq::empty(),
    };
    server + seq!["/usr/bin/env"@] + env + words
}

/// The session with this name, these desktop names and these words as its command.
pub open spec fn session_with(
    kind: SessionType,
    name: Seq<char>,
    desktop_names: Option<Seq<char>>,
    words: Seq<Seq<char>>,
) -> SessionModel {
    let env = session_env(kind, desktop_names);
    SessionModel { name, command: session_command(kind, env, words), env }
}

fn push_all(list: &mut Vec<String>, more: Vec<String>)
    ensures
        texts(final(list)@) == texts(old(list)@) + texts(more@),
{
    let ghost before = list@;
    for i in 0..more.len()
        invariant
            texts(list@) == texts(before) + texts(more@).take(i as int),
    {
        let ghost so_far = list@;
        list.push(more[i].clone());
        proof {
            assert(texts(list@) == texts(so_far).push(more@[i as int]@));
            assert(texts(more@).take(i as int + 1) == texts(more@).take(i as int).push(
                more@[i as int]@,
            ));
        }
    }
    proof {
        assert(texts(more@).take(more@.len() as int) == texts(more@));
    }
}

/// Puts a session together.
pub fn build_session(
    kind: SessionType,
    name: String,
    desktop_names: Option<String>,
    words: Vec<String>,
) -> (session: Session)
    ensures
        session@ == session_with(kind, name@, opt_text(desktop_names), texts(words@)),
{
    let mut command: Vec<String> = Vec::new();
    let mut env: Vec<String> = Vec::new();
    match kind {
        SessionType::X11 => {
            command.push("startx".to_owned());
            env.push("XDG_SESSION_TYPE=x11".to_owned());
        },
        SessionType::Wayland => {
            env.push("XDG_SESSION_TYPE=wayland".to_owned());
        },
    }
    if let Some(names) = &desktop_names {
        env.push(concat2("XDG_CURRENT_DESKTOP=", names.as_str()));
        env.push(
            concat2("XDG_SESSION_DESKTOP=", first_piece(names.as_str(), ':').as_str()),
        );
    }
    command.push("/usr/bin/env".to_owned());
    proof {
        assert(texts(env@) == session_env(kind, opt_text(desktop_names)));
    }
    let copy = crate::text::clone_list(&env);
    push_all(&mut command, copy);
    push_all(&mut command, words);
    proof {
        assert(texts(command@) == session_command(
            kind,
            session_env(kind, opt_text(desktop_names)),
            texts(words@),
        ));
    }
    Session { name, command, env }
}

// ---------------------------------------------------------------------------
// Session files
// ---------------------------------------------------------------------------

/// A parsed desktop entry file.
#[verifier::external_type_specification]
#[verifier::external_body]
pub struct ExDesktopEntry(freedesktop_entry_parser::Entry);

/// The attributes that a desktop entry file holds, by section and name.
pub uninterp spec fn attributes(entry: freedesktop_entry_parser::Entry) -> Map<
    (Seq<char>, Seq<char>),
    Seq<char>,
>;

/// The attributes in the bytes of a desktop entry file, if it is one.
pub uninterp spec fn parsed_attributes(bytes: Seq<u8>) -> Option<
    Map<(Seq<char>, Seq<char>), Seq<char>>,
>;

/// How many comments may follow one another in a session file.
pub const MAX_COMMENTS: u32 = 2048;

/// How far a session file has been read: whether there was only white space in the line so far, and
/// how many comments follow one another, each on a line of its own.
pub open spec fn comment_run(bytes: Seq<u8>) -> (bool, nat)
    decreases bytes.len(),
{
    if bytes.len() == 0 {
        (true, 0)
    } else {
        let (blank, run) = comment_run(bytes.drop_last());
        let byte = bytes.last();
        if byte == 10 {
            (true, run)
        } else if !blank || byte == 9 || byte == 13 || byte == 32 {
            (blank, run)
        } else if byte == 35 {
            (false, run + 1)
        } else {
            (false, 0)
        }
    }
}

/// No run of comments in a file is too long for it to be parsed.
pub open spec fn few_comments(bytes: Seq<u8>) -> bool {
    forall|n: int|
        0 <= n <= bytes.len() ==> (#[trigger] comment_run(bytes.take(n))).1 <= MAX_COMMENTS
}

/// Whether no run of comments in a file is too long for it to be parsed.
fn has_few_comments(bytes: &Vec<u8>) -> (yes: bool)
    ensures
        yes == few_comments(bytes@),
{
    let mut blank = true;
    let mut run: u32 = 0;
    proof {
        assert(bytes@.take(0) == Seq::<u8>::empty());
    }
    for i in 0..bytes.len()
        invariant
            run <= MAX_COMMENTS,
            (blank, run as nat) == comment_run(bytes@.take(i as int)),
            forall|n: int|
                0 <= n <= i ==> (#[trigger] comment_run(bytes@.take(n))).1 <= MAX_COMMENTS,
    {
        let byte = bytes[i];
        proof {
            assert(bytes@.take(i as int + 1).drop_last() == bytes@.take(i as int));
            assert(bytes@.take(i as int + 1).last() == byte);
        }
        if byte == 10 {
            blank = true;
        } else if blank && byte != 9 && byte != 13 && byte != 32 {
            blank = false;
            if byte == 35 {
                run = run + 1;
            } else {
                run = 0;
            }
        }
        assert((blank, run as nat) == comment_run(bytes@.take(i as int + 1)));
        if run > MAX_COMMENTS {
            return false;
        }
    }
    true
}

/// Parses a desktop entry file with `freedesktop_entry_parser::Entry::parse`. Whether that works,
/// and which attributes come of it, is claimed to depend on the bytes alone; the grammar is not
/// restated. The parser calls itself once for every comment in a run of comments, so that nothing is
/// claimed of files where very many of them follow one another.
#[verifier::external_body]
fn parse_entry(bytes: &Vec<u8>) -> (entry: Option<freedesktop_entry_parser::Entry>)
    requires
        few_comments(bytes@),
    ensures
        parsed_attributes(bytes@) == (match entry {
            Some(entry) => Some(attributes(entry)),
            None => None,
        }),
{
    freedesktop_entry_parser::Entry::parse(bytes.as_slice()).ok()
}

/// Reads an attribute with `AttrSelector::attr` of `freedesktop_entry_parser`: the value that the
/// file holds under this section and name, without a parameter, if it holds one.
#[verifier::external_body]
fn attribute(entry: &freedesktop_entry_parser::Entry, section: &str, name: &str) -> (value: Option<
    String,
>)
    ensures
        opt_text(value) == (if attributes(*entry).contains_key((section@, name@)) {
            Some(attributes(*entry)[(section@, name@)])
        } else {
            None
        }),
{
    entry.section(section).attr(name).map(|value| value.to_string())
}

/// The words of a command line in the syntax of the POSIX shell, unless it is malformed.
pub uninterp spec fn shell_words(line: Seq<char>) -> Option<Seq<Seq<char>>>;

/// The contents of an optional list of strings.
pub open spec fn opt_texts(list: Option<Vec<String>>) -> Option<Seq<Seq<char>>> {
    match list {
        Some(list) => Some(texts(list@)),
        None => None,
    }
}

/// Takes a command line apart with `shlex::split`. What words come of it is claimed to depend on
/// the line alone; the syntax is not restated.
#[verifier::external_body]
fn words_of(line: &str) -> (words: Option<Vec<String>>)
    ensures
        opt_texts(words) == shell_words(line@),
{
    shlex::split(line)
}

/// An attribute of the main section.
pub open spec fn main_attribute(
    attributes: Map<(Seq<char>, Seq<char>), Seq<char>>,
    name: Seq<char>,
) -> Option<Seq<char>> {
    if attributes.contains_key(("Desktop Entry"@, name)) {
        Some(attributes[("Desktop Entry"@, name)])
    } else {
        None
    }
}

/// The session that a file describes: it needs a name and a command, and the command has to be
/// well formed.
pub open spec fn described_session(
    kind: SessionType,
    attributes: Option<Map<(Seq<char>, Seq<char>), Seq<char>>>,
) -> Option<SessionModel> {
    match attributes {
        Some(attributes) => match (
            main_attribute(attributes, "Name"@),
            main_attribute(attributes, "Exec"@),
        ) {
            (Some(name), Some(exec)) => match shell_words(exec) {
                Some(words) => Some(
                    session_with(kind, name, main_attribute(attributes, "DesktopNames"@), words),
                ),
                None => None,
            },
            _ => None,
        },
        None => None,
    }
}

/// The session in a file. One with too long a run of comments to be parsed describes none.
pub open spec fn session_in(kind: SessionType, bytes: Seq<u8>) -> Option<SessionModel> {
    if few_comments(bytes) {
        described_session(kind, parsed_attributes(bytes))
    } else {
        None
    }
}

/// Reads the session in a file, if it describes one.
pub fn read_session(kind: SessionType, bytes: &Vec<u8>) -> (session: Option<Session>)
    ensures
        (match session {
            Some(session) => Some(session@),
            None => None,
        }) == session_in(kind, bytes@),
{
    if !has_few_comments(bytes) {
        return None;
    }
    match parse_entry(bytes) {
        Some(entry) => {
            let name = match attribute(&entry, "Desktop Entry", "Name") {
                Some(name) => name,
                None => {
                    return None;
                },
            };
            let exec = match attribute(&entry, "Desktop Entry", "Exec") {
                Some(exec) => exec,
                None => {
                    return None;
                },
            };
            let desktop_names = attribute(&entry, "Desktop Entry", "DesktopNames");
            match words_of(exec.as_str()) {
                Some(words) => Some(build_session(kind, name, desktop_names, words)),
                None => None,
            }
        },
        None => None,
    }
}

// ---------------------------------------------------------------------------
// All sessions
// ---------------------------------------------------------------------------

/// A session file: the type of session that its directory is for, and its contents.
#[derive(Debug, PartialEq, Eq)]
pub struct SessionFile {
    pub kind: SessionType,
    pub contents: Vec<u8>,
}

/// The session with this name among `sessions`.
pub open spec fn lookup(sessions: Seq<Session>, name: Seq<char>) -> Option<SessionModel>
    decreases sessions.len(),
{
    if sessions.len() == 0 {
        None
    } else if sessions.last().name@ == name {
        Some(sessions.last()@)
    } else {
        lookup(sessions.drop_last(), name)
    }
}

/// No two sessions have the same name.
pub open spec fn distinct_names(sessions: Seq<Session>) -> bool {
    forall|i: int, j: int|
        0 <= i < j < sessions.len() ==> (#[trigger] sessions[i]).name@ != (
        #[trigger] sessions[j]).name@
}

/// The session with this name in the last file that has one.
pub open spec fn last_described(files: Seq<SessionFile>, name: Seq<char>) -> Option<SessionModel>
    decreases files.len(),
{
    if files.len() == 0 {
        None
    } else {
        match session_in(files.last().kind, files.last().contents@) {
            Some(session) if session.name == name => Some(session),
            _ => last_described(files.drop_last(), name),
        }
    }
}

proof fn lemma_lookup_at(sessions: Seq<Session>, i: int)
    requires
        distinct_names(sessions),
        0 <= i < sessions.len(),
    ensures
        lookup(sessions, sessions[i].name@) == Some(sessions[i]@),
    decreases sessions.len(),
{
    if i < sessions.len() - 1 {
        assert(sessions[i].name@ != sessions[sessions.len() - 1].name@);
        lemma_lookup_at(sessions.drop_last(), i);
    }
}

proof fn lemma_lookup_none(sessions: Seq<Session>, name: Seq<char>)
    requires
        forall|i: int| 0 <= i < sessions.len() ==> (#[trigger] sessions[i]).name@ != name,
    ensures
        lookup(sessions, name) is None,
    decreases sessions.len(),
{
    if sessions.len() > 0 {
        assert(sessions[sessions.len() - 1].name@ != name);
        lemma_lookup_none(sessions.drop_last(), name);
    }
}

/// Replacing a session by one with the same name changes what is found under that name only.
proof fn lemma_lookup_update(sessions: Seq<Session>, i: int, session: Session, name: Seq<char>)
    requires
        distinct_names(sessions),
        0 <= i < sessions.len(),
        sessions[i].name@ == session.name@,
    ensures
        distinct_names(sessions.update(i, session)),
        lookup(sessions.update(i, session), name) == (if name == session.name@ {
            Some(session@)
        } else {
            lookup(sessions, name)
        }),
    decreases sessions.len(),
{
    let updated = sessions.update(i, session);
    assert forall|a: int, b: int| 0 <= a < b < updated.len() implies (
    #[trigger] updated[a]).name@ != (#[trigger] updated[b]).name@ by {
        assert(sessions[a].name@ != sessions[b].name@);
    }
    let n = sessions.len() - 1;
    if i == n {
        assert(updated.drop_last() == sessions.drop_last());
    } else {
        assert(updated.drop_last() == sessions.drop_last().update(i, session));
        assert(sessions[i].name@ != sessions[n].name@);
        lemma_lookup_update(sessions.drop_last(), i, session, name);
    }
}

/// The sessions that the files describe. Where two have the same name the later one counts.
pub fn collect_sessions(files: &Vec<SessionFile>) -> (sessions: Vec<Session>)
    ensures
        distinct_names(sessions@),
        forall|name: Seq<char>| #[trigger]
            lookup(sessions@, name) == last_described(files@, name),
{
    let mut sessions: Vec<Session> = Vec::new();
    for i in 0..files.len()
        invariant
            distinct_names(sessions@),
            forall|name: Seq<char>| #[trigger]
                lookup(sessions@, name) == last_described(files@.take(i as int), name),
    {
        let ghost before = sessions@;
        let ghost done = files@.take(i as int + 1);
        proof {
            assert(done.drop_last() == files@.take(i as int));
            assert(done.last() == files@[i as int]);
        }
        match read_session(files[i].kind, &files[i].contents) {
            Some(session) => {
                let ghost new = session;
                let mut k: usize = 0;
                while k < sessions.len() && sessions[k].name != session.name
                    invariant
                        k <= sessions@.len(),
                        forall|j: int|
                            0 <= j < k ==> (#[trigger] sessions@[j]).name@ != session.name@,
                    decreases sessions@.len() - k,
                {
                    k = k + 1;
                }
                if k < sessions.len() {
                    sessions.set(k, session);
                    proof {
                        assert forall|name: Seq<char>| #[trigger]
                            lookup(sessions@, name) == last_described(done, name) by {
                            lemma_lookup_update(before, k as int, new, name);
                            assert(lookup(before, name) == last_described(
                                files@.take(i as int),
                                name,
                            ));
                        }
                        lemma_lookup_update(before, k as int, new, new.name@);
                    }
                } else {
                    sessions.push(session);
                    proof {
                        assert(sessions@.drop_last() == before);
                        assert forall|name: Seq<char>| #[trigger]
                            lookup(sessions@, name) == last_described(done, name) by {
                            assert(lookup(before, name) == last_described(
                                files@.take(i as int),
                                name,
                            ));
                        }
                    }
                }
            },
            None => {
                proof {
                    assert forall|name: Seq<char>| #[trigger]
                        lookup(sessions@, name) == last_described(done, name) by {
                        assert(lookup(before, name) == last_described(
                            files@.take(i as int),
                            name,
                        ));
                    }
                }
            },
        }
    }
    proof {
        assert(files@.take(files@.len() as int) == files@);
    }
    sessions
}

/// The place of the session with this name.
pub fn find_session(sessions: &Vec<Session>, name: &String) -> (found: Option<usize>)
    requires
        distinct_names(sessions@),
    ensures
        match found {
            Some(i) => i < sessions@.len() && lookup(sessions@, name@) == Some(
                sessions@[i as int]@,
            ),
            None => lookup(sessions@, name@) is None,
        },
{
    for i in 0..sessions.len()
        invariant
            distinct_names(sessions@),
            forall|j: int| 0 <= j < i ==> (#[trigger] sessions@[j]).name@ != name@,
    {
        if sessions[i].name == *name {
            proof {
                lemma_lookup_at(sessions@, i as int);
            }
            return Some(i);
        }
    }
    proof {
        lemma_lookup_none(sessions@, name@);
    }
    None
}

/// Strings are ordered by their characters.
pub open spec fn name_order() -> spec_fn(String, String) -> bool {
    |a: String, b: String| text_le(a@, b@)
}

proof fn lemma_name_order()
    ensures
        total_preorder(name_order()),
{
    assert forall|a: String, b: String| #[trigger] name_order()(a, b) || name_order()(b, a) by {
        lemma_text_le_total(a@, b@);
    }
    assert forall|a: String, b: String, c: String| #[trigger]
        name_order()(a, b) && #[trigger] name_order()(b, c) implies name_order()(a, c) by {
        lemma_text_le_transitive(a@, b@, c@);
    }
}

/// The names of the sessions.
pub open spec fn names_of(sessions: Seq<Session>) -> Seq<String> {
    sessions.map_values(|session: Session| session.name)
}

/// The names of the sessions, sorted.
pub fn sorted_names(sessions: &Vec<Session>) -> (names: Vec<String>)
    ensures
        stably_sorted(names@, names_of(sessions@), name_order()),
{
    let mut names: Vec<String> = Vec::new();
    let ghost all = names_of(sessions@);
    proof {
        lemma_empty(name_order());
        assert(all.take(0) == Seq::<String>::empty());
        lemma_name_order();
    }
    for i in 0..sessions.len()
        invariant
            all == names_of(sessions@),
            total_preorder(name_order()),
            stably_sorted(names@, all.take(i as int), name_order()),
    {
        let name = sessions[i].name.clone();
        let mut k: usize = names.len();
        while k > 0 && !text_at_most(names[k - 1].as_str(), name.as_str())
            invariant
                k <= names@.len(),
                forall|j: int|
                    k <= j < names@.len() ==> !text_le((#[trigger] names@[j])@, name@),
            decreases k,
        {
            k = k - 1;
        }
        proof {
            assert(insertion_point(names@, name, name_order(), k as int)) by {
                assert forall|j: int| 0 <= j < k implies name_order()(#[trigger] names@[j], name) by {
                    if j < k - 1 {
                        assert(name_order()(names@[j], names@[k - 1]));
                        assert(name_order()(names@[k - 1], name));
                    }
                }
            }
            lemma_insert(names@, all.take(i as int), name, k as int, name_order());
            assert(all.take(i as int).push(name) == all.take(i as int + 1));
        }
        names.insert(k, name);
    }
    proof {
        assert(all.take(sessions@.len() as int) == all);
    }
    names
}

// ---------------------------------------------------------------------------
// Laws
// ---------------------------------------------------------------------------

/// The environment of a session is in its command too: what greetd is told to set and what the
/// command sets by itself agree.
pub proof fn law_command_sets_the_environment(
    kind: SessionType,
    name: Seq<char>,
    desktop_names: Option<Seq<char>>,
    words: Seq<Seq<char>>,
    i: int,
)
    requires
        0 <= i < session_env(kind, desktop_names).len(),
    ensures
        session_with(kind, name, desktop_names, words).command.contains(
            session_env(kind, desktop_names)[i],
        ),
{
    let env = session_env(kind, desktop_names);
    let command = session_command(kind, env, words);
    let at = if kind == SessionType::X11 {
        2 + i
    } else {
        1 + i
    };
    assert(command[at] == env[i]);
}

/// A file that comes later and describes a session replaces what was under its name and nothing
/// else.
pub proof fn law_later_file_overwrites(files: Seq<SessionFile>, file: SessionFile, name: Seq<char>)
    ensures
        last_described(files.push(file), name) == (match session_in(file.kind, file.contents@) {
            Some(session) if session.name == name => Some(session),
            _ => last_described(files, name),
        }),
{
    assert(files.push(file).drop_last() == files);
}

}
