//! The greeter, from the start to the login.
use cosmic_greeter::common;
use cosmic_greeter::common::{OutputEvent, Prompt};
use cosmic_greeter::config::{Config, NameIndexPair, NonZeroUid, UserState};
use cosmic_greeter::displays::{choose_arrangement, Arrangement, Display};
use cosmic_greeter::geometry::{OutputInfo, Placement};
use cosmic_greeter::greeter::{
    sorted_usernames, take_icons, AccessibilityRequest, AccessibilitySetting, App, DialogPage,
    Dropdown, Flags, Message, Request, SocketState, Task, UserName, WaylandUpdate,
};
use cosmic_greeter::greeter_menu::{
    Aid, AidItem, DialogView, DropdownView, LoginView, PromptView, UserCard,
};
use cosmic_greeter::keyboard::{KeyboardLayout, KeyboardLayouts, XkbConfig};
use cosmic_greeter::menu::{InputView, ListHeight};
use cosmic_greeter::session::{SessionFile, SessionType};
use cosmic_greeter::theme::{Palette, ThemeBuilder};
use cosmic_greeter::time::{Moment, Time};
use cosmic_greeter::user::{BackgroundState, Passwd, Settings, Source, Theme, UserData};
use std::collections::HashMap;

const SECOND: u64 = 1_000_000_000;

fn time() -> Time {
    Time {
        locale: "en-US".to_string(),
        timezone: None,
        now: Moment { year: 2024, month: 2, day: 29, hour: 17, minute: 5, second: 0 },
    }
}

fn xkb(layout: &str, variant: &str) -> XkbConfig {
    XkbConfig {
        rules: String::new(),
        model: String::new(),
        layout: layout.to_string(),
        variant: variant.to_string(),
        options: None,
        rest: "(repeat_delay:600)".to_string(),
    }
}

fn user(name: &str, full_name: &str, uid: u32) -> UserData {
    UserData::from_passwd(Passwd {
        name: name.to_string(),
        uid,
        gid: uid,
        gecos: Some(full_name.to_string()),
        dir: format!("/home/{}", name),
        shell: "/bin/sh".to_string(),
    })
}

fn display(name: &str, make: Option<&str>) -> Display {
    Display {
        name: name.to_string(),
        make: make.map(|make| make.to_string()),
        model: "X".to_string(),
    }
}

fn arrangement(document: &str, displays: Vec<Display>) -> Arrangement {
    Arrangement { document: document.to_string(), displays }
}

fn ada() -> UserData {
    let mut ada = user("ada", "Zoe Ada", 1000);
    ada.icon_opt = Some(vec![1]);
    ada.xkb_config_opt = Some(xkb("us,de", ""));
    ada.clock_military_time_opt = Some(true);
    ada.bg_state = BackgroundState {
        wallpapers: vec![("DP-1".to_string(), Source::Path("/a.png".to_string()))],
    };
    ada.bg_path_data = vec![("/a.png".to_string(), vec![9])];
    ada.kdl_output_lists = vec![
        arrangement("output {", vec![display("DP-1", None)]),
        arrangement("output \"DP-2\"", vec![display("DP-2", None)]),
        arrangement("output \"DP-1\"", vec![display("DP-1", None)]),
        arrangement("output \"DP-1\" 2", vec![display("DP-1", None)]),
    ];
    ada
}

fn bob() -> UserData {
    let mut bob = user("bob", "Bob", 1001);
    bob.theme_opt = Some(Theme { is_high_contrast: true, notation: "t".to_string() });
    bob.theme_builder_opt =
        Some(ThemeBuilder { palette: Palette::Light, notation: "b".to_string() });
    bob.zoom_on_login = true;
    bob
}

fn files() -> Vec<SessionFile> {
    let file = |contents: &str| SessionFile {
        kind: SessionType::Wayland,
        contents: contents.as_bytes().to_vec(),
    };
    vec![
        file("[Desktop Entry]\nName=Sway\nExec=sway\n"),
        file("[Desktop Entry]\nName=COSMIC\nExec=start-cosmic\n"),
    ]
}

fn config() -> Config {
    let mut users = HashMap::new();
    for (uid, session) in [(1001, "Sway"), (4000, "Gone")] {
        let state = UserState {
            uid: NonZeroUid::new(uid).unwrap(),
            last_session: Some(session.to_string()),
        };
        users.insert(uid, state);
    }
    Config { users, last_user: NonZeroUid::new(1000) }
}

fn flags() -> Flags {
    let (flags, icons) =
        Flags::prepare(vec![bob(), ada()], Settings::Loaded(config()), &files(), true);
    assert_eq!(icons, vec![Some(vec![1]), None]);
    flags
}

fn start() -> App {
    let layout = |name: &str, description: &str| KeyboardLayout {
        name: name.to_string(),
        description: description.to_string(),
        variants: None,
    };
    let layouts = KeyboardLayouts { layouts: vec![layout("us", "English"), layout("de", "German")] };
    let (app, tasks) = App::start(flags(), true, Some(layouts), time(), true);
    assert_eq!(
        tasks,
        vec![Task::Common(common::Task::Clock), Task::Common(common::Task::TimeZone)]
    );
    app
}

fn send(app: &mut App, message: Message) -> Vec<Task> {
    app.update(message, 101, 102)
}

fn connected() -> App {
    let mut app = start();
    send(&mut app, Message::GreetdChannel);
    send(&mut app, Message::Socket(SocketState::Open));
    app
}

fn created(output: u64) -> Message {
    let info = OutputInfo { name: Some("DP-1".to_string()), logical_size: Some((1920, 1080)) };
    Message::OutputEvent(OutputEvent::Created(Some(info)), output)
}

#[test]
fn the_flags_are_prepared() {
    let flags = flags();
    let uids: Vec<u32> = flags.user_datas.iter().map(|user| user.uid).collect();
    assert_eq!(uids, vec![1000, 1001]);
    assert_eq!(flags.user_icons, vec![true, false]);
    assert_eq!(flags.user_datas[0].icon_opt, None);
    assert_eq!(flags.sessions.len(), 2);
    assert!(flags.greeter_config_handler);
    assert_eq!(flags.greeter_config.last_session(1001), Some("Sway".to_string()));
    assert_eq!(flags.greeter_config.last_session(4000), None);
}

#[test]
fn pictures_are_taken_out() {
    let (users, icons) = take_icons(vec![ada(), bob()]);
    assert_eq!(icons, vec![Some(vec![1]), None]);
    assert_eq!(users[0].icon_opt, None);
    assert_eq!(users[1], bob());
}

#[test]
fn users_are_listed_by_full_name() {
    let name = |name: &str, full_name: &str| UserName {
        name: name.to_string(),
        full_name: full_name.to_string(),
    };
    assert_eq!(
        sorted_usernames(&vec![ada(), bob(), user("eve", "", 1002)]),
        vec![name("bob", "Bob"), name("ada", "Zoe Ada"), name("eve", "eve")]
    );
}

#[test]
fn the_start_greets_the_last_user() {
    let app = start();
    assert_eq!(
        app.selected_username,
        NameIndexPair { username: "ada".to_string(), data_idx: Some(0) }
    );
    assert_eq!(app.session_names, vec!["COSMIC".to_string(), "Sway".to_string()]);
    assert_eq!(app.selected_session, "COSMIC");
    assert_eq!(app.socket_state, SocketState::Pending);
    assert!(!app.common.use_sharp_wallpaper && app.common.on_output_event);
    assert!(app.accessibility.helper && !app.entering_name);
}

#[test]
fn a_looked_up_user_is_greeted_without_data() {
    let mut flags = flags();
    flags.greeter_config.last_user = NonZeroUid::new(5000);
    let (app, _) = App::init(flags, true, None, time(), false, Some("ldap".to_string()));
    assert_eq!(
        app.selected_username,
        NameIndexPair { username: "ldap".to_string(), data_idx: None }
    );
}

#[test]
fn requests_wait_for_the_channel() {
    let mut app = start();
    assert_eq!(send(&mut app, Message::Socket(SocketState::Open)), vec![]);
    assert_eq!(send(&mut app, Message::GreetdChannel), vec![]);
    assert_eq!(
        send(&mut app, Message::Socket(SocketState::Open)),
        vec![Task::Send(Request::CreateSession { username: "ada".to_string() })]
    );
    assert_eq!(send(&mut app, Message::Socket(SocketState::NotSet)), vec![]);
    assert_eq!(app.socket_state, SocketState::NotSet);
}

#[test]
fn answers_and_errors_go_to_greetd() {
    let mut app = connected();
    app.common.error_opt = Some("old".to_string());
    app.common.prompt_opt =
        Some(Prompt { prompt: "?".to_string(), secret: true, value: Some("x".to_string()) });
    let response = Some("pw".to_string());
    assert_eq!(
        send(&mut app, Message::Auth(response.clone())),
        vec![Task::Send(Request::PostAuthMessageResponse { response })]
    );
    assert_eq!((app.common.error_opt.clone(), app.common.prompt_opt.is_none()), (None, true));
    assert_eq!(
        send(&mut app, Message::Error("wrong".to_string())),
        vec![Task::Send(Request::CancelSession)]
    );
    assert_eq!(app.common.error_opt, Some("wrong".to_string()));
}

#[test]
fn a_login_starts_the_session_and_comes_back() {
    let mut app = connected();
    send(&mut app, Message::Session("Sway".to_string()));
    let env = vec!["XDG_SESSION_TYPE=wayland".to_string()];
    let cmd =
        vec!["/usr/bin/env".to_string(), "XDG_SESSION_TYPE=wayland".to_string(), "sway".to_string()];
    let start = || Task::Send(Request::StartSession { cmd: cmd.clone(), env: env.clone() });
    assert_eq!(
        send(&mut app, Message::Login),
        vec![start(), Task::SaveLastUser(1000), Task::SaveUsers]
    );
    assert_eq!(app.flags.greeter_config.last_session(1000), Some("Sway".to_string()));
    assert_eq!(send(&mut app, Message::Login), vec![start(), Task::SaveLastUser(1000)]);
    let (next, _) = App::start(app.flags, true, None, time(), true);
    assert_eq!(next.selected_username.username, "ada");
    assert_eq!(next.selected_session, "Sway");
}

#[test]
fn nothing_is_remembered_where_it_cannot_be_written() {
    let mut app = connected();
    app.flags.greeter_config_handler = false;
    assert_eq!(send(&mut app, Message::ConfigUpdateUser), vec![]);
    assert_eq!(app.flags.greeter_config.last_session(1000), None);
    app.flags.greeter_config_handler = true;
    send(&mut app, Message::EnterUser(false, "ldap".to_string()));
    assert_eq!(send(&mut app, Message::ConfigUpdateUser), vec![]);
}

#[test]
fn choosing_a_user_changes_the_session() {
    let mut app = connected();
    app.common.surface_images.insert(1, "/a.png".to_string());
    send(&mut app, Message::DropdownToggle(Dropdown::User));
    assert_eq!(
        send(&mut app, Message::Username("bob".to_string())),
        vec![Task::Send(Request::CancelSession)]
    );
    assert_eq!(
        app.selected_username,
        NameIndexPair { username: "bob".to_string(), data_idx: Some(1) }
    );
    assert_eq!(app.selected_session, "Sway");
    assert_eq!(app.dropdown_opt, None);
    assert!(app.common.surface_images.is_empty());
    assert_eq!(send(&mut app, Message::Username("bob".to_string())), vec![]);
}

#[test]
fn a_typed_name_is_used_even_if_it_is_selected() {
    let mut app = connected();
    assert_eq!(
        send(&mut app, Message::EnterUser(true, String::new())),
        vec![Task::FocusUsername]
    );
    assert_eq!(send(&mut app, Message::EnterUser(false, "ada".to_string())), vec![]);
    assert!(app.entering_name);
    assert_eq!(app.selected_username.data_idx, Some(0));
    assert_eq!(
        send(&mut app, Message::Username("ada".to_string())),
        vec![Task::Send(Request::CancelSession)]
    );
    assert!(!app.entering_name);
}

#[test]
fn the_chosen_layouts_are_handed_over_before_the_session_starts() {
    let handed = |task: &Task| matches!(task, Task::PersistXkbConfig { .. });
    let mut app = connected();
    assert!(!send(&mut app, Message::Login).iter().any(handed));
    send(&mut app, created(7));
    send(&mut app, Message::KeyboardLayout(1));
    let tasks = send(&mut app, Message::Login);
    let username = "ada".to_string();
    assert_eq!(tasks[0], Task::PersistXkbConfig { username, config: xkb("de,us", ",") });
    assert!(matches!(tasks[1], Task::Send(Request::StartSession { .. })));
    assert!(!tasks[1..].iter().any(handed));
    send(&mut app, Message::Username("bob".to_string()));
    assert!(!send(&mut app, Message::Login).iter().any(handed));
}

#[test]
fn a_new_output_shows_the_user() {
    let mut app = start();
    assert_eq!(
        send(&mut app, created(7)),
        vec![
            Task::Common(common::Task::Backdrop {
                surface: 101,
                path: "/a.png".to_string(),
                sharp: false,
            }),
            Task::Common(common::Task::WriteXkbConfig(xkb("us,de", ","))),
            Task::ListDisplays,
            Task::GetLayerSurface { surface: 101, output: 7 },
            Task::OpenMenu {
                surface: 101,
                subsurface: 102,
                placement: Placement { left_halves: 1120, top: 32, width: 800, height: 1048 },
            },
        ]
    );
    assert_eq!(app.common.find_text_input(102), Some("input-DP-1".to_string()));
    assert_eq!(
        send(&mut app, Message::RepositionMenu(101, 1000)),
        vec![Task::Reposition { subsurface: 102, x: 100, y: 32 }]
    );
    assert_eq!(send(&mut app, Message::RepositionMenu(5, 1000)), vec![]);
    assert_eq!(
        send(&mut app, Message::OutputEvent(OutputEvent::Removed, 7)),
        vec![Task::DestroyLayerSurface(101)]
    );
    assert_eq!(app.common.find_text_input(102), None);
    assert_eq!(send(&mut app, Message::OutputEvent(OutputEvent::Removed, 7)), vec![]);
}

#[test]
fn the_end_destroys_the_surfaces() {
    let mut app = start();
    send(&mut app, created(7));
    assert_eq!(send(&mut app, Message::Exit), vec![Task::DestroyLayerSurface(101), Task::Exit]);
    assert!(app.common.surface_ids.is_empty() && app.common.surface_images.is_empty());
    assert_eq!(send(&mut app, Message::Exit), vec![Task::Exit]);
}

#[test]
fn reconnecting_takes_over_the_users_theme() {
    let mut app = connected();
    send(&mut app, Message::Username("bob".to_string()));
    let theme = Theme { is_high_contrast: true, notation: "t".to_string() };
    assert_eq!(
        send(&mut app, Message::Reconnect),
        vec![Task::ListDisplays, Task::SetTheme(theme)]
    );
    assert!(app.accessibility.high_contrast && app.accessibility.magnifier);
    assert_eq!(app.theme_builder.palette, Palette::Light);
    send(&mut app, Message::EnterUser(false, "ldap".to_string()));
    assert_eq!(send(&mut app, Message::Reconnect), vec![]);
}

#[test]
fn the_first_fitting_arrangement_is_applied() {
    let mut app = start();
    assert_eq!(send(&mut app, Message::RandrUpdate(None)), vec![]);
    assert_eq!(
        send(&mut app, Message::RandrUpdate(Some(vec![display("DP-1", None)]))),
        vec![Task::ExecRandr("output \"DP-1\"".to_string())]
    );
    assert_eq!(app.randr_list, Some(vec![display("DP-1", None)]));
    assert_eq!(send(&mut app, Message::Username("bob".to_string())), vec![]);
    assert_eq!(
        send(&mut app, Message::Username("ada".to_string())),
        vec![Task::ExecRandr("output \"DP-1\"".to_string())]
    );
    send(&mut app, Message::EnterUser(false, "ldap".to_string()));
    assert_eq!(send(&mut app, Message::RandrUpdate(Some(vec![]))), vec![]);
}

#[test]
fn arrangements_fit_by_name_make_and_model() {
    let connected = vec![display("DP-1", Some("A")), display("DP-2", None)];
    let fits = |document: &str, displays: Vec<Display>| {
        choose_arrangement(&vec![arrangement(document, displays)], &connected)
    };
    assert_eq!(fits("a", vec![display("DP-2", None), display("DP-1", Some("A"))]), Some(0));
    assert_eq!(fits("a", vec![display("DP-2", None), display("DP-1", Some("B"))]), None);
    assert_eq!(fits("a", vec![display("DP-2", None), display("DP-1", None)]), None);
    assert_eq!(fits("a", vec![display("DP-2", None)]), None);
    assert_eq!(fits("a {", vec![display("DP-2", None), display("DP-1", Some("A"))]), None);
}

#[test]
fn layouts_are_chosen_and_cycled() {
    let mut app = start();
    send(&mut app, Message::Reconnect);
    send(&mut app, Message::DropdownToggle(Dropdown::Keyboard));
    assert_eq!(
        send(&mut app, Message::KeyboardLayout(1)),
        vec![Task::Common(common::Task::WriteXkbConfig(xkb("de,us", ",")))]
    );
    assert_eq!(app.dropdown_opt, None);
    assert_eq!(
        send(&mut app, Message::InputSourceSwitch),
        vec![Task::Common(common::Task::WriteXkbConfig(xkb("us,de", ",")))]
    );
    assert_eq!(send(&mut app, Message::KeyboardLayout(9)), vec![]);
}

#[test]
fn a_question_is_confirmed_after_a_minute() {
    for restart in [true, false] {
        let mut app = start();
        let (message, task) = if restart {
            (Message::Restart(5), Task::Reboot)
        } else {
            (Message::Shutdown(5), Task::PowerOff)
        };
        assert_eq!(send(&mut app, message), vec![Task::StartHeartbeat]);
        assert_eq!(send(&mut app, Message::Heartbeat(60 * SECOND + 4)), vec![]);
        assert_eq!(send(&mut app, Message::Heartbeat(60 * SECOND + 5)), vec![task]);
        assert_eq!(app.dialog_page_opt, None);
        assert_eq!(send(&mut app, Message::Heartbeat(61 * SECOND)), vec![]);
    }
}

#[test]
fn a_question_can_be_confirmed_or_cancelled() {
    let mut app = start();
    assert_eq!(send(&mut app, Message::DialogConfirm), vec![]);
    send(&mut app, Message::Restart(0));
    assert_eq!(send(&mut app, Message::Shutdown(1)), vec![]);
    assert_eq!(app.dialog_page_opt, Some(DialogPage::Shutdown(1)));
    assert_eq!(send(&mut app, Message::DialogConfirm), vec![Task::PowerOff]);
    send(&mut app, Message::Restart(0));
    assert_eq!(send(&mut app, Message::DialogCancel), vec![Task::StopHeartbeat]);
    assert_eq!(send(&mut app, Message::Heartbeat(100 * SECOND)), vec![]);
    assert_eq!(send(&mut app, Message::DialogCancel), vec![]);
    app.flags.logind = false;
    send(&mut app, Message::Restart(0));
    assert_eq!(send(&mut app, Message::DialogConfirm), vec![]);
    assert_eq!(send(&mut app, Message::Suspend), vec![]);
    app.flags.logind = true;
    assert_eq!(send(&mut app, Message::Suspend), vec![Task::Suspend]);
}

#[test]
fn questions_wait_a_minute() {
    assert_eq!(DialogPage::remaining(10, 10), Some(60 * SECOND));
    assert_eq!(DialogPage::remaining(10, 5), Some(60 * SECOND));
    assert_eq!(DialogPage::remaining(10, 9 + 60 * SECOND), Some(1));
    assert_eq!(DialogPage::remaining(10, 10 + 60 * SECOND), None);
}

#[test]
fn the_screen_reader_is_started_and_stopped() {
    let mut app = start();
    let save = |on| Task::SaveAccessibility(AccessibilitySetting::ScreenReader(on));
    assert_eq!(
        send(&mut app, Message::ScreenReader(true, false)),
        vec![Task::StartScreenReader, save(true)]
    );
    assert!(!app.accessibility.screen_reader);
    send(&mut app, Message::ScreenReaderStarted(true));
    assert!(app.accessibility.screen_reader);
    assert_eq!(send(&mut app, Message::ScreenReader(false, true)), vec![Task::StopScreenReader]);
    assert_eq!(send(&mut app, Message::ScreenReader(false, true)), vec![save(false)]);
    send(&mut app, Message::ScreenReaderStarted(true));
    assert_eq!(
        send(&mut app, Message::ScreenReader(true, true)),
        vec![Task::StartScreenReader, save(true)]
    );
    send(&mut app, Message::ScreenReaderStarted(true));
    assert_eq!(send(&mut app, Message::ScreenReader(true, false)), vec![Task::StopScreenReader]);
}

#[test]
fn the_compositor_magnifies_and_inverts() {
    let mut app = start();
    assert_eq!(send(&mut app, Message::Magnifier(true)), vec![]);
    assert_eq!(send(&mut app, Message::InvertColors(true)), vec![]);
    assert!(!app.accessibility.magnifier && !app.accessibility.invert_colors);
    let filter = |inverted| Task::Accessibility(AccessibilityRequest::ScreenFilter { inverted });
    let magnifier = |on| Task::Accessibility(AccessibilityRequest::Magnifier(on));
    assert_eq!(
        send(&mut app, Message::WaylandUpdate(WaylandUpdate::Started)),
        vec![filter(false), magnifier(false)]
    );
    assert_eq!(
        send(&mut app, Message::Magnifier(true)),
        vec![magnifier(true), Task::SaveAccessibility(AccessibilitySetting::Magnifier(true))]
    );
    app.accessibility.helper = false;
    assert_eq!(send(&mut app, Message::InvertColors(true)), vec![filter(true)]);
    assert!(app.accessibility.magnifier && app.accessibility.invert_colors);
    send(&mut app, Message::WaylandUpdate(WaylandUpdate::Bound(3)));
    assert_eq!(app.accessibility.wayland_protocol_version, Some(3));
    send(&mut app, Message::WaylandUpdate(WaylandUpdate::Magnifier(false)));
    send(&mut app, Message::WaylandUpdate(WaylandUpdate::ScreenFilter { inverted: false }));
    assert!(!app.accessibility.magnifier && !app.accessibility.invert_colors);
    send(&mut app, Message::Magnifier(true));
    send(&mut app, Message::WaylandUpdate(WaylandUpdate::Closed));
    assert!(app.accessibility.magnifier && !app.accessibility.wayland_sender);
    send(&mut app, Message::WaylandUpdate(WaylandUpdate::Errored));
    assert!(!app.accessibility.magnifier);
    assert_eq!(app.accessibility.wayland_protocol_version, None);
}

#[test]
fn high_contrast_builds_a_theme() {
    let mut app = start();
    assert_eq!(
        send(&mut app, Message::HighContrast(true)),
        vec![
            Task::SaveAccessibility(AccessibilitySetting::HighContrast(true)),
            Task::BuildTheme(ThemeBuilder {
                palette: Palette::HighContrastDark,
                notation: String::new(),
            }),
        ]
    );
    assert!(app.accessibility.high_contrast);
    let theme = || Theme { is_high_contrast: true, notation: "t".to_string() };
    assert_eq!(send(&mut app, Message::Reload(theme())), vec![Task::SetTheme(theme())]);
    assert_eq!(send(&mut app, Message::Surface(4)), vec![Task::Surface(4)]);
}

#[test]
fn pressing_twice_closes_a_menu() {
    let mut app = start();
    send(&mut app, Message::DropdownToggle(Dropdown::User));
    send(&mut app, Message::DropdownToggle(Dropdown::Session));
    assert_eq!(app.dropdown_opt, Some(Dropdown::Session));
    send(&mut app, Message::DropdownToggle(Dropdown::Session));
    assert_eq!(app.dropdown_opt, None);
}

#[test]
fn the_menu_says_how_the_connection_is() {
    let mut app = start();
    let text = |app: &App| match app.menu(102, 0).login {
        LoginView::Message(text) => text,
        LoginView::Login { .. } => panic!("no message"),
    };
    assert_eq!(text(&app), "Opening GREETD_SOCK");
    app.socket_state = SocketState::NotSet;
    assert_eq!(text(&app), "GREETD_SOCK variable not set");
    app.socket_state = SocketState::Error("Os".to_string());
    assert_eq!(text(&app), "Failed to open GREETD_SOCK: Os");
}

#[test]
fn the_menu_shows_the_user_and_the_prompt() {
    let mut app = connected();
    let cards = || {
        vec![UserCard { icon: true, index: 0, full_name: "Zoe Ada".to_string() }]
    };
    assert_eq!(
        app.menu(102, 0).login,
        LoginView::Login { cards: cards(), username: None, prompt: PromptView::Nothing }
    );
    assert_eq!(app.menu(102, 0).status.time_size, 112);
    app.common.prompt_opt =
        Some(Prompt { prompt: "?".to_string(), secret: false, value: None });
    assert_eq!(
        app.menu(102, 0).login,
        LoginView::Login { cards: cards(), username: None, prompt: PromptView::Confirm }
    );
    app.common.prompt_opt =
        Some(Prompt { prompt: "?".to_string(), secret: true, value: Some("x".to_string()) });
    app.common.caps_lock = true;
    send(&mut app, Message::EnterUser(false, "ad".to_string()));
    assert_eq!(
        app.menu(102, 0).login,
        LoginView::Login {
            cards: vec![],
            username: Some("ad".to_string()),
            prompt: PromptView::Input {
                input: InputView {
                    prompt: "?".to_string(),
                    value: "x".to_string(),
                    secret: true,
                    id: "text_input".to_string(),
                },
                caps_lock: true,
            },
        }
    );
    assert_eq!(app.menu(102, 0).status.time_size, 75);
    app.common.error_opt = Some("wrong".to_string());
    assert_eq!(app.menu(102, 0).error, Some("wrong".to_string()));
}

#[test]
fn the_open_menu_lists_its_items() {
    let mut app = start();
    assert_eq!(app.menu(1, 0).dropdown, None);
    send(&mut app, Message::DropdownToggle(Dropdown::User));
    match app.menu(1, 0).dropdown {
        Some(DropdownView::User { items, height }) => {
            let items: Vec<(&str, bool, &str)> = items
                .iter()
                .map(|item| (item.label.as_str(), item.checked, item.username.as_str()))
                .collect();
            assert_eq!(items, vec![("Bob", false, "bob"), ("Zoe Ada", true, "ada")]);
            assert_eq!(height, ListHeight::Natural);
        }
        _ => panic!("another menu"),
    }
    while app.usernames.len() < 6 {
        app.usernames.push(UserName { name: String::new(), full_name: String::new() });
    }
    match app.menu(1, 0).dropdown {
        Some(DropdownView::User { height, .. }) => assert_eq!(height, ListHeight::Scrolling(216)),
        _ => panic!("another menu"),
    }
    send(&mut app, Message::DropdownToggle(Dropdown::Session));
    match app.menu(1, 0).dropdown {
        Some(DropdownView::Session { items, .. }) => {
            let items: Vec<(&str, bool)> =
                items.iter().map(|item| (item.label.as_str(), item.checked)).collect();
            assert_eq!(items, vec![("COSMIC", true), ("Sway", false)]);
        }
        _ => panic!("another menu"),
    }
    send(&mut app, Message::DropdownToggle(Dropdown::Accessibility));
    app.accessibility.high_contrast = true;
    assert_eq!(
        app.menu(1, 0).dropdown,
        Some(DropdownView::Accessibility(vec![
            AidItem { aid: Aid::ScreenReader, checked: false },
            AidItem { aid: Aid::Magnifier, checked: false },
            AidItem { aid: Aid::HighContrast, checked: true },
            AidItem { aid: Aid::InvertColors, checked: false },
        ]))
    );
    send(&mut app, Message::Reconnect);
    send(&mut app, Message::DropdownToggle(Dropdown::Keyboard));
    match app.menu(1, 0).dropdown {
        Some(DropdownView::Keyboard { items, .. }) => assert_eq!(items.len(), 2),
        _ => panic!("another menu"),
    }
}

#[test]
fn the_countdown_goes_down() {
    let mut app = start();
    assert_eq!(app.menu(1, 0).dialog, None);
    send(&mut app, Message::Restart(0));
    assert_eq!(app.menu(1, 0).dialog, Some(DialogView::Restart(60)));
    assert_eq!(app.menu(1, 1).dialog, Some(DialogView::Restart(59)));
    send(&mut app, Message::Shutdown(0));
    assert_eq!(app.menu(1, 59 * SECOND).dialog, Some(DialogView::Shutdown(1)));
    assert_eq!(app.menu(1, 90 * SECOND).dialog, Some(DialogView::Shutdown(0)));
}
