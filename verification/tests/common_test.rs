//! What the greeter and the locker have in common.
use cosmic_greeter::battery::icon_for_battery;
use cosmic_greeter::common::{
    find_wallpaper, Common, Key, Message, OutputEvent, PowerIcon, PowerInfo, Prompt, RectangleUpdate,
    SessionLockEvent, Task,
};
use cosmic_greeter::geometry::{
    corner_of_menu, move_to_output, place_changed_menu, place_menu, size_of_output, width_of_menu,
    Placement, Rect,
};
use cosmic_greeter::keyboard::{ActiveLayout, KeyboardLayout, KeyboardLayouts, XkbConfig};
use cosmic_greeter::rects::{arrange_wanted, note_rect, same_rects, surfaces_with_menu, Part};
use cosmic_greeter::time::{Moment, Time};
use cosmic_greeter::user::{BackgroundState, Color, Passwd, Source, UserData};

fn time() -> Time {
    Time {
        locale: "en-US".to_string(),
        timezone: None,
        now: Moment { year: 2024, month: 2, day: 29, hour: 17, minute: 5, second: 0 },
    }
}

fn common(sharp: bool) -> Common {
    let layouts = KeyboardLayouts {
        layouts: vec![
            KeyboardLayout {
                name: "us".to_string(),
                description: "English (US)".to_string(),
                variants: None,
            },
            KeyboardLayout {
                name: "de".to_string(),
                description: "German".to_string(),
                variants: None,
            },
        ],
    };
    Common::init(true, Some(layouts), time(), sharp).0
}

fn user() -> UserData {
    UserData::from_passwd(Passwd {
        name: "ada".to_string(),
        uid: 1000,
        gid: 1000,
        gecos: None,
        dir: "/home/ada".to_string(),
        shell: "/bin/sh".to_string(),
    })
}

fn rect(x: i32, y: i32, width: i32, height: i32) -> Rect {
    Rect { x, y, width, height }
}

#[test]
fn battery_icons_follow_level_and_state() {
    let levels = [
        (100, "100"), (96, "100"), (95, "90"), (81, "90"), (80, "80"), (66, "80"), (65, "50"),
        (36, "50"), (35, "35"), (21, "35"), (20, "20"), (15, "20"), (14, "10"), (10, "10"),
        (9, "5"), (6, "5"), (5, "0"), (0, "0"), (-3, "0"), (250, "100"),
    ];
    for (level, step) in levels {
        assert_eq!(
            icon_for_battery(level, true, false),
            format!("cosmic-applet-battery-level-{}-symbolic", step)
        );
    }
    assert_eq!(
        icon_for_battery(97, false, true),
        "cosmic-applet-battery-level-80-limited-charging-symbolic"
    );
    assert_eq!(icon_for_battery(97, false, false), "cosmic-applet-battery-level-100-charging-symbolic");
    assert_eq!(icon_for_battery(5, true, true), "cosmic-applet-battery-level-0-limited-symbolic");
}

#[test]
fn outputs_without_size_count_as_full_hd() {
    assert_eq!(size_of_output(None), (1920, 1080));
    assert_eq!(size_of_output(Some((2560, 1440))), (2560, 1440));
    assert_eq!(size_of_output(Some((-1, 0))), (u32::MAX, 0));
}

#[test]
fn the_menu_is_centred_on_wide_outputs() {
    assert_eq!(
        place_menu((1921, 1080)),
        Placement { left_halves: 1121, top: 32, width: 800, height: 1048 }
    );
    assert_eq!(
        place_menu((800, 600)),
        Placement { left_halves: 0, top: 32, width: 800, height: 568 }
    );
    assert_eq!(
        place_changed_menu((1920, 1080)),
        Placement { left_halves: 1120, top: 32, width: 800, height: 1048 }
    );
    assert_eq!(
        place_changed_menu((800, 600)),
        Placement { left_halves: 0, top: 0, width: 1920, height: 1080 }
    );
    assert_eq!(corner_of_menu(1921), (560, 32));
    assert_eq!(corner_of_menu(640), (0, 32));
}

#[test]
fn menus_are_at_most_eight_hundred_wide() {
    assert_eq!(width_of_menu(None), 800);
    assert_eq!(width_of_menu(Some(1920)), 800);
    assert_eq!(width_of_menu(Some(640)), 640);
}

#[test]
fn rectangles_move_with_the_menu_and_halves_round_away_from_nothing() {
    let menu = Placement { left_halves: 1121, top: 32, width: 800, height: 1048 };
    let whole = Placement { left_halves: 1120, top: 32, width: 800, height: 1048 };
    for x in [-2000, -561, -560, -1, 0, 1, 40] {
        let expected = (x as f64 + 560.5).round() as i32;
        assert_eq!(move_to_output(&rect(x, 8, 3, 4), &menu), rect(expected, 40, 3, 4));
        assert_eq!(move_to_output(&rect(x, 8, 3, 4), &whole), rect(x + 560, 40, 3, 4));
    }
}

#[test]
fn a_rectangle_is_noted_once() {
    let mut parts: Vec<Part> = vec![];
    assert!(note_rect(&mut parts, 7, 0, rect(1, 2, 3, 4)));
    assert!(!note_rect(&mut parts, 7, 0, rect(1, 2, 3, 4)));
    assert!(note_rect(&mut parts, 7, 0, rect(1, 2, 3, 5)));
    assert!(note_rect(&mut parts, 7, 1, rect(1, 2, 3, 4)));
    assert_eq!(parts.len(), 2);
    assert_eq!(surfaces_with_menu(&parts), vec![7]);
}

#[test]
fn rectangles_are_arranged_from_top_to_bottom_and_left_to_right() {
    let menu = Placement { left_halves: 20, top: 100, width: 800, height: 600 };
    let mut parts: Vec<Part> = vec![];
    note_rect(&mut parts, 1, 0, rect(5, 9, 1, 1));
    note_rect(&mut parts, 1, 2, rect(0, 9, 2, 2));
    note_rect(&mut parts, 1, 1, rect(8, 0, 3, 3));
    note_rect(&mut parts, 2, 0, rect(0, 0, 4, 4));
    assert_eq!(
        arrange_wanted(&parts, 1, false, &menu),
        vec![rect(10, 109, 2, 2), rect(15, 109, 1, 1)]
    );
    let with_menu = arrange_wanted(&parts, 1, true, &menu);
    assert_eq!(with_menu, vec![rect(18, 100, 3, 3), rect(10, 109, 2, 2), rect(15, 109, 1, 1)]);
    assert!(same_rects(&with_menu, &with_menu));
    assert!(!same_rects(&with_menu, &vec![]));
}

#[test]
fn starting_asks_for_ticks_and_the_time_zone() {
    let (started, tasks) = Common::init(false, None, time(), true);
    assert_eq!(tasks, vec![Task::Clock, Task::TimeZone]);
    assert!(started.use_sharp_wallpaper && !started.comp_config_open);
    assert!(started.active_layouts.is_empty() && started.prompt_opt.is_none());
    assert!(started.surface_ids.is_empty() && started.power_info_opt.is_none());
}

#[test]
fn simple_messages_set_one_thing() {
    let mut common = common(true);
    assert_eq!(common.update(Message::CapsLock(true)), vec![]);
    assert!(common.caps_lock);
    common.update(Message::NetworkIcon(Some("network-wired-symbolic".to_string())));
    assert_eq!(common.network_icon_opt, Some("network-wired-symbolic".to_string()));
    common.update(Message::NetworkIcon(None));
    assert_eq!(common.network_icon_opt, None);
    common.update(Message::Tz("Asia/Tokyo".to_string()));
    assert_eq!(common.time.timezone, Some("Asia/Tokyo".to_string()));
    common.update(Message::Tick);
    assert!(common.time.now.year >= 2025);
    common.update(Message::Rectangle(RectangleUpdate::Init));
    assert!(common.rectangle_tracker);
}

#[test]
fn power_info_sets_the_icon_and_no_news_takes_it_away() {
    let mut common = common(true);
    let info = PowerInfo { level: 120, on_battery: true, threshold_enabled: false };
    common.update(Message::PowerInfo(Some(info)));
    let shown = PowerIcon {
        icon: "cosmic-applet-battery-level-100-symbolic".to_string(),
        level: 100,
    };
    assert_eq!(common.power_info_opt, Some(shown));
    assert_eq!((common.battery_percent, common.on_battery), (100, true));
    assert_eq!(common.charging_limit, Some(false));
    assert_eq!(common.update(Message::PowerInfo(None)), vec![]);
    assert_eq!(common.power_info_opt, None);
    assert_eq!((common.battery_percent, common.on_battery), (100, true));
    assert_eq!(common.charging_limit, Some(false));
}

fn key(text: &str) -> Key {
    Key {
        logo: false,
        control: false,
        alt: false,
        character: true,
        text: Some(text.to_string()),
    }
}

fn prompt(value: Option<&str>) -> Prompt {
    Prompt {
        prompt: "Password:".to_string(),
        secret: true,
        value: value.map(|value| value.to_string()),
    }
}

#[test]
fn keys_go_to_the_open_prompt() {
    let mut common = common(true);
    common.update(Message::Key(key("x")));
    assert_eq!(common.prompt_opt, None);
    common.prompt_opt = Some(prompt(Some("a")));
    assert_eq!(common.update(Message::Key(key("b"))), vec![]);
    assert_eq!(common.prompt_opt, Some(prompt(Some("ab"))));
    common.update(Message::Key(Key { control: true, ..key("c") }));
    common.update(Message::Key(Key { alt: true, ..key("c") }));
    common.update(Message::Key(Key { logo: true, ..key("c") }));
    common.update(Message::Key(Key { character: false, ..key("c") }));
    assert_eq!(common.prompt_opt, Some(prompt(Some("ab"))));
    common.prompt_opt = Some(prompt(None));
    common.update(Message::Key(key("d")));
    assert_eq!(common.prompt_opt, Some(prompt(None)));
}

#[test]
fn focus_goes_to_the_input_of_the_surface() {
    let mut common = common(true);
    assert_eq!(common.update(Message::Focus(3)), vec![]);
    assert_eq!(common.active_surface_id_opt, Some(3));
    common.surface_names.insert(3, "DP-1".to_string());
    common.text_input_ids.insert("DP-1".to_string(), "input-DP-1".to_string());
    assert_eq!(common.update(Message::Focus(3)), vec![Task::FocusInput("input-DP-1".to_string())]);
    assert_eq!(
        common.update(Message::Key(key("b"))),
        vec![Task::FocusInput("input-DP-1".to_string())]
    );
    assert_eq!(common.find_text_input(3), Some("input-DP-1".to_string()));
    assert_eq!(common.find_text_input(4), None);
}

#[test]
fn the_first_prompt_takes_the_focus() {
    let mut common = common(true);
    let first = || Message::Prompt("Password:".to_string(), true, Some(String::new()));
    assert_eq!(common.update(first()), vec![]);
    common.prompt_opt = None;
    common.active_surface_id_opt = Some(5);
    assert_eq!(common.update(first()), vec![Task::FocusSoon(5)]);
    assert_eq!(common.update(first()), vec![]);
    assert_eq!(common.prompt_opt, Some(prompt(Some(""))));
}

#[test]
fn events_are_handed_on_where_someone_listens() {
    let mut common = common(true);
    assert_eq!(common.update(Message::OutputEvent(OutputEvent::Removed, 9)), vec![]);
    assert_eq!(common.update(Message::SessionLockEvent(SessionLockEvent::Locked)), vec![]);
    common.on_output_event = true;
    common.on_session_lock_event = true;
    assert_eq!(
        common.update(Message::OutputEvent(OutputEvent::Removed, 9)),
        vec![Task::Output(OutputEvent::Removed, 9)]
    );
    assert_eq!(
        common.update(Message::SessionLockEvent(SessionLockEvent::Locked)),
        vec![Task::SessionLock(SessionLockEvent::Locked)]
    );
}

fn blurred_common() -> Common {
    let mut common = common(true);
    common.frosted_interface = true;
    common.subsurface_outputs.insert(4, 1);
    common
        .subsurface_rects
        .insert(1, Placement { left_halves: 20, top: 30, width: 800, height: 600 });
    common
}

fn rectangle(surface: u64, tag: u8, rect: Rect) -> Message {
    Message::Rectangle(RectangleUpdate::Rectangle { surface, tag, rect })
}

#[test]
fn blur_is_sent_once() {
    let mut common = blurred_common();
    assert_eq!(
        common.update(rectangle(4, 0, rect(1, 2, 3, 4))),
        vec![Task::Blur(4, Some(vec![rect(11, 32, 3, 4)]))]
    );
    assert_eq!(common.update(rectangle(4, 0, rect(1, 2, 3, 4))), vec![]);
    assert_eq!(common.update(Message::SubsurfaceOpened(4)), vec![]);
    assert_eq!(common.blur_rects(4), vec![]);
}

#[test]
fn surfaces_without_an_output_are_not_blurred() {
    let mut common = blurred_common();
    assert_eq!(common.update(rectangle(5, 0, rect(1, 2, 3, 4))), vec![]);
    assert!(common.last_blur_rects.is_empty());
}

#[test]
fn nothing_to_blur_clears_once() {
    let mut common = blurred_common();
    assert_eq!(common.blur_rects(4), vec![Task::Blur(4, None)]);
    assert_eq!(common.blur_rects(4), vec![]);
}

#[test]
fn plain_interfaces_are_not_blurred() {
    for (frosted, sharp) in [(false, true), (true, false)] {
        let mut common = blurred_common();
        common.frosted_interface = frosted;
        common.use_sharp_wallpaper = sharp;
        assert_eq!(common.update(rectangle(4, 0, rect(1, 2, 3, 4))), vec![Task::Blur(4, None)]);
        assert_eq!(common.blur_rects(4), vec![]);
    }
}

#[test]
fn the_menu_is_blurred_while_it_is_open() {
    let mut common = blurred_common();
    common.update(rectangle(4, 0, rect(1, 2, 3, 4)));
    assert_eq!(common.update(rectangle(4, 1, rect(0, 9, 5, 5))), vec![]);
    assert_eq!(
        common.dropdown_blur_rects(true),
        vec![Task::Blur(4, Some(vec![rect(11, 32, 3, 4), rect(10, 39, 5, 5)]))]
    );
    assert!(common.include_menu);
    assert_eq!(
        common.dropdown_blur_rects(false),
        vec![Task::Blur(4, Some(vec![rect(11, 32, 3, 4)]))]
    );
    assert!(!common.include_menu);
}

fn painted() -> UserData {
    let mut user = user();
    user.bg_state = BackgroundState {
        wallpapers: vec![
            ("DP-1".to_string(), Source::Color(Color { notation: "red".to_string() })),
            ("DP-1".to_string(), Source::Path("/a.png".to_string())),
            ("DP-1".to_string(), Source::Path("/b.png".to_string())),
            ("DP-2".to_string(), Source::Path("/gone.png".to_string())),
            ("DP-2".to_string(), Source::Path("/b.png".to_string())),
            ("DP-3".to_string(), Source::Color(Color { notation: "red".to_string() })),
        ],
    };
    user.bg_path_data = vec![("/a.png".to_string(), vec![1]), ("/b.png".to_string(), vec![2])];
    user
}

#[test]
fn wallpapers_are_found_by_output() {
    let user = painted();
    assert_eq!(find_wallpaper(&user, &"DP-1".to_string()), Some("/a.png".to_string()));
    // The first picture that is named counts, though it could not be read.
    assert_eq!(find_wallpaper(&user, &"DP-2".to_string()), None);
    assert_eq!(find_wallpaper(&user, &"DP-3".to_string()), None);
    assert_eq!(find_wallpaper(&user, &"DP-4".to_string()), None);
}

#[test]
fn wallpapers_are_set_where_there_is_none() {
    let mut common = common(true);
    for (output, surface, name) in [(1, 11, "DP-1"), (2, 12, "DP-2"), (3, 13, "DP-1")] {
        common.surface_ids.insert(output, surface);
        common.surface_names.insert(surface, name.to_string());
    }
    common.surface_ids.insert(4, 14);
    common.surface_images.insert(13, "/old.png".to_string());
    assert_eq!(
        common.update_wallpapers(&painted()),
        vec![Task::Backdrop { surface: 11, path: "/a.png".to_string(), sharp: true }]
    );
    assert_eq!(common.surface_images.get(&11), Some(&"/a.png".to_string()));
    assert_eq!(common.surface_images.get(&13), Some(&"/old.png".to_string()));
    assert_eq!(common.surface_images.len(), 2);
    assert_eq!(common.update_wallpapers(&painted()), vec![]);
}

fn xkb(layout: &str, variant: &str) -> XkbConfig {
    XkbConfig {
        rules: "evdev".to_string(),
        model: String::new(),
        layout: layout.to_string(),
        variant: variant.to_string(),
        options: None,
        rest: "(repeat_delay:600)".to_string(),
    }
}

#[test]
fn layouts_follow_the_user() {
    let mut common = common(false);
    let mut user = user();
    common.active_layouts = vec![ActiveLayout {
        layout: "fr".to_string(),
        description: "French".to_string(),
        variant: String::new(),
    }];
    assert_eq!(common.update_user_data(&user), vec![]);
    assert_eq!(common.active_layouts.len(), 1);
    user.xkb_config_opt = Some(xkb("de,xx,us", ""));
    common.update_user_data(&user);
    let names: Vec<&str> = common.active_layouts.iter().map(|l| l.description.as_str()).collect();
    assert_eq!(names, vec!["German", "English (US)"]);
    assert_eq!(common.set_xkb_config(&user), vec![Task::WriteXkbConfig(xkb("de,us", ","))]);
    common.comp_config_open = false;
    assert_eq!(common.set_xkb_config(&user), vec![]);
    common.comp_config_open = true;
    user.xkb_config_opt = None;
    assert_eq!(common.set_xkb_config(&user), vec![]);
}
