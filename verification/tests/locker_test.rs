//! The lock screen, from locking to unlocking.
use cosmic_greeter::common;
use cosmic_greeter::common::{OutputEvent, Prompt, SessionLockEvent};
use cosmic_greeter::geometry::{OutputInfo, Placement};
use cosmic_greeter::keyboard::{KeyboardLayout, KeyboardLayouts, XkbConfig};
use cosmic_greeter::locker::{lockfile_opt, App, Dropdown, Flags, Message, State, Task};
use cosmic_greeter::locker_menu::{PromptView, Verdict};
use cosmic_greeter::menu::{height_of_list, InputView, ListHeight};
use cosmic_greeter::time::{Moment, Time};
use cosmic_greeter::user::{BackgroundState, LoadedConfig, Passwd, Settings, Source};

fn time() -> Time {
    Time {
        locale: "en-US".to_string(),
        timezone: None,
        now: Moment { year: 2024, month: 2, day: 29, hour: 17, minute: 5, second: 0 },
    }
}

fn layout(name: &str, description: &str) -> KeyboardLayout {
    KeyboardLayout {
        name: name.to_string(),
        description: description.to_string(),
        variants: None,
    }
}

fn xkb(layout: &str, variant: &str) -> XkbConfig {
    XkbConfig {
        rules: String::new(),
        model: String::new(),
        layout: layout.to_string(),
        variant: variant.to_string(),
        options: None,
        rest: "(repeat_delay:600)".to_string(),
    }
}

fn flags(logind: bool) -> Flags {
    let user = Passwd {
        name: "ada".to_string(),
        uid: 1000,
        gid: 1000,
        gecos: Some("Ada L.,,,".to_string()),
        dir: "/home/ada".to_string(),
        shell: "/bin/sh".to_string(),
    };
    let loaded = LoadedConfig {
        icon: Some(vec![1, 2]),
        theme: Settings::Unavailable,
        background: Settings::Loaded(BackgroundState {
            wallpapers: vec![("DP-1".to_string(), Source::Path("/a.png".to_string()))],
        }),
        wallpapers: vec![Some(vec![9])],
        xkb_config: Settings::Loaded(xkb("us,de", "")),
        military_time: Some(true),
    };
    let (flags, icon) =
        Flags::prepare(user, loaded, Some("/run/x.lock".to_string()), true, logind);
    assert_eq!(icon, Some(vec![1, 2]));
    flags
}

fn start(logind: bool, already_locked: bool) -> (App, Vec<Task>) {
    let layouts = KeyboardLayouts { layouts: vec![layout("us", "English"), layout("de", "German")] };
    App::init(flags(logind), true, Some(layouts), time(), already_locked)
}

fn fresh() -> Vec<u64> {
    vec![101, 102, 103, 104]
}

fn send(app: &mut App, message: Message) -> Vec<Task> {
    app.update(message, &fresh())
}

fn created(name: &str) -> Message {
    let info = OutputInfo { name: Some(name.to_string()), logical_size: Some((1920, 1080)) };
    Message::OutputEvent(OutputEvent::Created(Some(info)), 7)
}

const MENU: Placement = Placement { left_halves: 1120, top: 32, width: 800, height: 1048 };

fn locked() -> App {
    let mut app = start(true, false).0;
    send(&mut app, created("DP-1"));
    send(&mut app, Message::Lock);
    send(&mut app, Message::SessionLockEvent(SessionLockEvent::Locked));
    app
}

#[test]
fn the_lockfile_is_named_after_the_session() {
    let dir = || Some("/run/user/1000".to_string());
    let id = || Some("c2".to_string());
    assert_eq!(
        lockfile_opt(dir(), id()),
        Some("/run/user/1000/cosmic-greeter-c2.lock".to_string())
    );
    assert_eq!(
        lockfile_opt(Some("/run/".to_string()), id()),
        Some("/run/cosmic-greeter-c2.lock".to_string())
    );
    assert_eq!(lockfile_opt(None, id()), None);
    assert_eq!(lockfile_opt(dir(), None), None);
}

#[test]
fn the_flags_know_the_user() {
    let flags = flags(true);
    assert!(flags.user_icon && flags.fingerprint_enabled && flags.logind);
    assert_eq!(flags.user_data.full_name_or_name(), "Ada L.");
    assert_eq!(flags.user_data.icon_opt, None);
    assert_eq!(flags.lockfile_opt, Some("/run/x.lock".to_string()));
}

#[test]
fn starting_locks_at_once_or_waits() {
    let (app, tasks) = start(true, false);
    assert_eq!(app.state, State::Unlocked);
    assert_eq!(
        tasks,
        vec![Task::Common(common::Task::Clock), Task::Common(common::Task::TimeZone)]
    );
    assert!(app.common.use_sharp_wallpaper);
    assert!(app.common.on_output_event && app.common.on_session_lock_event);
    assert_eq!(app.common.active_layouts.len(), 2);
    for (logind, already_locked) in [(true, true), (false, false), (false, true)] {
        let (app, tasks) = start(logind, already_locked);
        assert_eq!(app.state, State::Locking);
        assert_eq!(tasks[0], Task::Lock);
        assert_eq!(tasks.len(), 3);
    }
}

#[test]
fn a_request_locks_once() {
    let mut app = start(true, false).0;
    app.common.error_opt = Some("old".to_string());
    app.authenticating = true;
    app.value_tx_opt = Some(3);
    app.fingerprint_info_opt = Some("finger".to_string());
    assert_eq!(
        send(&mut app, Message::Lock),
        vec![Task::CreateLockfile("/run/x.lock".to_string()), Task::Lock]
    );
    assert_eq!(app.state, State::Locking);
    assert_eq!((app.common.error_opt.clone(), app.value_tx_opt), (None, None));
    assert!(!app.authenticating && app.fingerprint_info_opt.is_none());
    assert_eq!(send(&mut app, Message::Lock), vec![]);
    assert_eq!(app.state, State::Locking);
}

#[test]
fn locking_opens_a_surface_for_every_output() {
    let mut app = start(true, false).0;
    assert_eq!(
        send(&mut app, created("DP-1")),
        vec![Task::Common(common::Task::Backdrop {
            surface: 101,
            path: "/a.png".to_string(),
            sharp: true,
        })]
    );
    assert_eq!(app.common.surface_names.get(&101), Some(&"DP-1".to_string()));
    assert_eq!(app.common.surface_names.get(&102), Some(&"DP-1".to_string()));
    assert_eq!(app.common.window_size.get(&101), Some(&(1920, 1080)));
    assert_eq!(app.common.find_text_input(101), Some("input-DP-1".to_string()));
    send(&mut app, Message::Inhibit(55));
    assert_eq!(app.inhibit_opt, Some(55));
    send(&mut app, Message::Lock);
    assert_eq!(
        send(&mut app, Message::SessionLockEvent(SessionLockEvent::Locked)),
        vec![
            Task::ReleaseInhibitor(55),
            Task::Authenticate { username: "ada".to_string(), fingerprint: true },
            Task::GetLockSurface { surface: 101, output: 7 },
            Task::OpenMenu { surface: 101, subsurface: 101, placement: MENU },
        ]
    );
    assert_eq!(app.state, State::Locked);
    assert_eq!(app.inhibit_opt, None);
    assert_eq!(send(&mut app, Message::SessionLockEvent(SessionLockEvent::Locked)), vec![]);
}

#[test]
fn sleep_is_not_held_up_while_locked() {
    let mut app = locked();
    assert_eq!(send(&mut app, Message::Inhibit(56)), vec![Task::ReleaseInhibitor(56)]);
    assert_eq!(app.inhibit_opt, None);
}

#[test]
fn outputs_come_and_go_while_locked() {
    let mut app = locked();
    let info = OutputInfo { name: None, logical_size: None };
    assert_eq!(
        app.update(
            Message::OutputEvent(OutputEvent::Created(Some(info)), 8),
            &vec![201, 202]
        ),
        vec![
            Task::GetLockSurface { surface: 201, output: 8 },
            Task::OpenMenu { surface: 201, subsurface: 202, placement: MENU },
        ]
    );
    assert_eq!(
        app.update(Message::OutputEvent(OutputEvent::Created(None), 8), &vec![203, 204]),
        vec![]
    );
    assert_eq!(app.common.surface_ids.get(&8), Some(&203));
    assert_eq!(
        send(&mut app, Message::OutputEvent(OutputEvent::Removed, 7)),
        vec![Task::DestroyLockSurface(101)]
    );
    assert!(!app.common.surface_images.contains_key(&101));
    assert_eq!(send(&mut app, Message::OutputEvent(OutputEvent::Removed, 7)), vec![]);
}

#[test]
fn a_changed_output_moves_its_menu() {
    let mut app = locked();
    let info = OutputInfo { name: None, logical_size: Some((1000, 700)) };
    assert_eq!(send(&mut app, Message::OutputEvent(OutputEvent::InfoUpdate(info), 7)), vec![]);
    assert_eq!(
        app.common.subsurface_rects.get(&7),
        Some(&Placement { left_halves: 200, top: 32, width: 800, height: 668 })
    );
}

#[test]
fn unlocking_leaves_nothing() {
    let mut app = locked();
    assert_eq!(
        send(&mut app, Message::Unlock),
        vec![
            Task::StopAuthenticating,
            Task::RemoveLockfile("/run/x.lock".to_string()),
            Task::DestroyLockSurface(101),
            Task::Unlock,
        ]
    );
    assert_eq!(app.state, State::Unlocking);
    assert!(app.common.window_size.is_empty());
    assert!(!app.common.surface_names.contains_key(&101));
    assert_eq!(send(&mut app, Message::Unlock), vec![]);
    assert_eq!(send(&mut app, Message::Lock), vec![]);
    assert_eq!(
        send(&mut app, Message::SessionLockEvent(SessionLockEvent::Unlocked)),
        vec![Task::DestroyLockSurface(101)]
    );
    assert_eq!(app.state, State::Unlocked);
    assert_eq!(send(&mut app, Message::Unlock), vec![]);
}

#[test]
fn without_a_login_manager_the_end_is_the_end() {
    let mut app = start(false, false).0;
    send(&mut app, Message::SessionLockEvent(SessionLockEvent::Locked));
    assert_eq!(
        send(&mut app, Message::SessionLockEvent(SessionLockEvent::Unlocked)),
        vec![Task::StopAuthenticating, Task::Exit]
    );
}

#[test]
fn other_lock_events_change_nothing() {
    let mut app = locked();
    assert_eq!(send(&mut app, Message::SessionLockEvent(SessionLockEvent::Focused)), vec![]);
    assert_eq!(send(&mut app, Message::SessionLockEvent(SessionLockEvent::Finished)), vec![]);
    assert_eq!(send(&mut app, Message::Heartbeat), vec![]);
    assert_eq!(app.state, State::Locked);
}

#[test]
fn what_is_submitted_goes_through_the_channel() {
    let mut app = locked();
    assert_eq!(send(&mut app, Message::Submit("pw".to_string())), vec![]);
    assert!(app.authenticating);
    send(&mut app, Message::Error("wrong".to_string()));
    assert!(!app.authenticating);
    assert_eq!(app.common.error_opt, Some("wrong".to_string()));
    send(&mut app, Message::Channel(4));
    assert_eq!(
        send(&mut app, Message::Submit("pw".to_string())),
        vec![Task::SendValue { channel: 4, value: "pw".to_string() }]
    );
    assert_eq!((app.value_tx_opt, app.common.error_opt.clone()), (None, None));
}

#[test]
fn choosing_a_layout_writes_it() {
    let mut app = locked();
    send(&mut app, Message::DropdownToggle(Dropdown::Keyboard));
    assert_eq!(app.dropdown_opt, Some(Dropdown::Keyboard));
    assert_eq!(
        send(&mut app, Message::KeyboardLayout(1)),
        vec![Task::Common(common::Task::WriteXkbConfig(xkb("de,us", ",")))]
    );
    assert_eq!(app.dropdown_opt, None);
    assert_eq!(send(&mut app, Message::KeyboardLayout(2)), vec![]);
    assert_eq!(app.common.active_layouts[0].layout, "de");
    send(&mut app, Message::DropdownToggle(Dropdown::Keyboard));
    send(&mut app, Message::DropdownToggle(Dropdown::Keyboard));
    assert_eq!(app.dropdown_opt, None);
}

#[test]
fn new_backgrounds_replace_the_old() {
    let mut app = locked();
    let state = BackgroundState {
        wallpapers: vec![("DP-1".to_string(), Source::Path("/b.png".to_string()))],
    };
    assert_eq!(
        send(&mut app, Message::BackgroundState(state, vec![Some(vec![3])])),
        vec![Task::Common(common::Task::Backdrop {
            surface: 101,
            path: "/b.png".to_string(),
            sharp: true,
        })]
    );
    assert_eq!(app.common.surface_images.get(&101), Some(&"/b.png".to_string()));
}

#[test]
fn suspending_needs_the_login_manager() {
    let mut app = start(true, false).0;
    assert_eq!(send(&mut app, Message::Suspend), vec![Task::Suspend]);
    let mut app = start(false, false).0;
    assert_eq!(send(&mut app, Message::Suspend), vec![]);
    assert_eq!(send(&mut app, Message::Surface(5)), vec![Task::Surface(5)]);
}

#[test]
fn the_clock_follows_its_settings() {
    let mut app = locked();
    assert_eq!(app.menu(102).status.time, Some("17:05".to_string()));
    assert_eq!(app.menu(102).space_height, 63);
    send(&mut app, Message::TimeAppletConfig(false));
    let menu = app.menu(102);
    assert_eq!((menu.status.time_size, menu.space_height), (75, 10));
}

#[test]
fn the_menu_shows_the_prompt() {
    let mut app = locked();
    let menu = app.menu(101);
    assert_eq!(menu.full_name, "Ada L.");
    assert!(menu.icon && menu.keyboard.is_none());
    assert_eq!(menu.prompt, PromptView::Nothing);
    assert_eq!(menu.verdict, Verdict::Blank);
    assert_eq!(menu.status.width, 800);

    app.common.prompt_opt =
        Some(Prompt { prompt: "Wait".to_string(), secret: false, value: None });
    assert_eq!(app.menu(101).prompt, PromptView::Text("Wait".to_string()));

    app.common.prompt_opt = Some(Prompt {
        prompt: "Password:".to_string(),
        secret: true,
        value: Some("pw".to_string()),
    });
    app.common.caps_lock = true;
    let input = |id: &str| InputView {
        prompt: "Password:".to_string(),
        value: "pw".to_string(),
        secret: true,
        id: id.to_string(),
    };
    assert_eq!(
        app.menu(101).prompt,
        PromptView::Input {
            input: input("input-DP-1"),
            editable: true,
            caps_lock: true,
            blank: false,
        }
    );
    assert_eq!(
        app.menu(999).prompt,
        PromptView::Input { input: input("text_input"), editable: true, caps_lock: true, blank: false }
    );
    send(&mut app, Message::Error("wrong".to_string()));
    assert_eq!(
        app.menu(101).verdict,
        Verdict::Failed { error: "wrong".to_string(), blank: false }
    );
    send(&mut app, Message::FingerprintInfo(Some("finger".to_string())));
    assert_eq!(app.menu(101).fingerprint_info, Some("finger".to_string()));
}

#[test]
fn no_input_while_checking() {
    let mut app = locked();
    app.common.prompt_opt = Some(Prompt {
        prompt: "Password:".to_string(),
        secret: true,
        value: Some(String::new()),
    });
    app.common.caps_lock = true;
    send(&mut app, Message::Submit("pw".to_string()));
    let menu = app.menu(101);
    assert_eq!(menu.verdict, Verdict::Authenticating);
    match menu.prompt {
        PromptView::Input { editable, caps_lock, .. } => assert!(!editable && !caps_lock),
        _ => panic!("no field"),
    }
}

#[test]
fn the_open_menu_lists_the_layouts() {
    let mut app = locked();
    send(&mut app, Message::DropdownToggle(Dropdown::Keyboard));
    let keyboard = app.menu(101).keyboard.unwrap();
    let items: Vec<(&str, bool, usize)> = keyboard
        .items
        .iter()
        .map(|item| (item.label.as_str(), item.checked, item.layout))
        .collect();
    assert_eq!(items, vec![("English", true, 0), ("German", false, 1)]);
    assert_eq!(keyboard.height, ListHeight::Natural);
    assert_eq!(height_of_list(7), ListHeight::Natural);
    assert_eq!(height_of_list(8), ListHeight::Scrolling(252));
}
