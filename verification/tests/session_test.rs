//! Desktop entries and the sessions made of them.
use cosmic_greeter::session::{
    build_session, collect_sessions, find_session, read_session, sorted_names, Session,
    SessionFile, SessionType,
};

fn words(list: &[&str]) -> Vec<String> {
    list.iter().map(|word| word.to_string()).collect()
}

fn file(kind: SessionType, contents: &str) -> SessionFile {
    SessionFile { kind, contents: contents.as_bytes().to_vec() }
}

const COSMIC: &str = "[Desktop Entry]\nName=COSMIC\nExec=/usr/bin/start-cosmic\nType=Application\nDesktopNames=pop:COSMIC\n";

#[test]
fn a_wayland_session_runs_its_command_in_its_environment() {
    let session = read_session(SessionType::Wayland, &COSMIC.as_bytes().to_vec()).unwrap();
    let env = words(&[
        "XDG_SESSION_TYPE=wayland",
        "XDG_CURRENT_DESKTOP=pop:COSMIC",
        "XDG_SESSION_DESKTOP=pop",
    ]);
    let mut command = words(&["/usr/bin/env"]);
    command.extend(env.clone());
    command.push("/usr/bin/start-cosmic".to_string());
    assert_eq!(session, Session { name: "COSMIC".to_string(), command, env });
}

#[test]
fn an_x11_session_is_started_with_startx() {
    let entry = "[Desktop Entry]\nName=i3\nExec=FOO=1 i3 -c \"/etc/my config\"\n";
    let session = read_session(SessionType::X11, &entry.as_bytes().to_vec()).unwrap();
    assert_eq!(session.env, words(&["XDG_SESSION_TYPE=x11"]));
    assert_eq!(
        session.command,
        words(&["startx", "/usr/bin/env", "XDG_SESSION_TYPE=x11", "FOO=1", "i3", "-c", "/etc/my config"])
    );
}

#[test]
fn incomplete_entries_make_no_session() {
    for entry in [
        "[Desktop Entry]\nExec=x\n",
        "[Desktop Entry]\nName=x\n",
        "[Other]\nName=x\nExec=x\n",
        "[Desktop Entry]\nName=x\nExec='unbalanced\n",
        "Name=x\nExec=x\n",
    ] {
        let bytes = entry.as_bytes().to_vec();
        assert_eq!(read_session(SessionType::Wayland, &bytes), None, "{:?}", entry);
    }
    assert_eq!(read_session(SessionType::Wayland, &vec![0xff, 0xfe, 0x00]), None);
}

#[test]
fn empty_desktop_names_are_still_set() {
    let session =
        build_session(SessionType::Wayland, "x".to_string(), Some(String::new()), words(&["y"]));
    assert_eq!(
        session.env,
        words(&["XDG_SESSION_TYPE=wayland", "XDG_CURRENT_DESKTOP=", "XDG_SESSION_DESKTOP="])
    );
}

#[test]
fn the_command_sets_the_environment() {
    let session =
        build_session(SessionType::X11, "x".to_string(), Some("a:b".to_string()), words(&["y", "z"]));
    assert_eq!(session.command[2..2 + session.env.len()], session.env[..]);
    assert_eq!(session.command[2 + session.env.len()..], ["y", "z"]);
}

#[test]
fn a_later_file_overwrites_an_earlier_one() {
    let sessions = collect_sessions(&vec![
        file(SessionType::Wayland, COSMIC),
        file(SessionType::Wayland, "[Desktop Entry]\nName=Sway\nExec=sway\n"),
        file(SessionType::Wayland, "garbage"),
        file(SessionType::X11, "[Desktop Entry]\nName=COSMIC\nExec=old\n"),
    ]);
    assert_eq!(sessions.len(), 2);
    let cosmic = find_session(&sessions, &"COSMIC".to_string()).unwrap();
    assert_eq!(sessions[cosmic].env, words(&["XDG_SESSION_TYPE=x11"]));
    assert_eq!(sessions[cosmic].command.last().map(|word| word.as_str()), Some("old"));
    assert_eq!(find_session(&sessions, &"Gnome".to_string()), None);
}

#[test]
fn sessions_are_listed_by_name() {
    let sessions = collect_sessions(&vec![
        file(SessionType::Wayland, "[Desktop Entry]\nName=sway\nExec=sway\n"),
        file(SessionType::Wayland, "[Desktop Entry]\nName=Niri\nExec=niri\n"),
        file(SessionType::Wayland, COSMIC),
    ]);
    assert_eq!(sorted_names(&sessions), words(&["COSMIC", "Niri", "sway"]));
}

fn commented(comments: usize) -> Vec<u8> {
    format!("[Desktop Entry]\n{}Name=x\nExec=y\n", "# comment\n".repeat(comments)).into_bytes()
}

#[test]
fn comments_are_passed_over_up_to_a_limit() {
    for comments in [0, 1, 2048] {
        let session = read_session(SessionType::Wayland, &commented(comments)).unwrap();
        assert_eq!(session.name, "x");
    }
    assert_eq!(read_session(SessionType::Wayland, &commented(2049)), None);
    assert_eq!(read_session(SessionType::Wayland, &commented(200_000)), None);
}

#[test]
fn only_comments_that_follow_one_another_count() {
    let mut entry = "[Desktop Entry]\nName=x\nExec=y\n".to_string();
    for _ in 0..40 {
        entry.push_str(&"# comment\n \t\r\n  # indented\n".repeat(100));
        entry.push_str("Comment=#######\n");
    }
    entry.push_str(&format!("Color={}\n", "#".repeat(10_000)));
    let session = read_session(SessionType::Wayland, &entry.into_bytes()).unwrap();
    assert_eq!(session.name, "x");
}
