//! Accounts, what is loaded for them, and what the greeter remembers of them.
use cosmic_greeter::config::{
    contains_uid, determine_selected_username, greeted_user, look_up_last_user, position,
    session_to_offer, uid_to_look_up, Config, NameIndexPair, NonZeroUid, UserState,
};
use cosmic_greeter::keyboard::XkbConfig;
use cosmic_greeter::user::{
    login_user, login_users, path_file_name, prefers_dark, sort_by_uid, user_data_fallback,
    BackgroundState, Color, LoadedConfig, Passwd, Settings, Source, Theme, UserData, WallpaperData,
};
use std::collections::HashMap;

fn account(name: &str, uid: u32, shell: &str) -> Passwd {
    Passwd {
        name: name.to_string(),
        uid,
        gid: uid,
        gecos: None,
        dir: format!("/home/{}", name),
        shell: shell.to_string(),
    }
}

fn user(name: &str, uid: u32) -> UserData {
    UserData::from_passwd(account(name, uid, "/bin/sh"))
}

fn with_gecos(gecos: Option<&str>) -> UserData {
    UserData::from_passwd(Passwd {
        gecos: gecos.map(|text| text.to_string()),
        ..account("ada", 1000, "/bin/sh")
    })
}

#[test]
fn the_full_name_is_the_first_field_of_gecos() {
    assert_eq!(with_gecos(Some("Ada L.,Room 1,,")).full_name_opt, Some("Ada L.".to_string()));
    assert_eq!(with_gecos(Some("")).full_name_opt, Some("".to_string()));
    assert_eq!(with_gecos(None).full_name_opt, None);
    let user_data = with_gecos(None);
    assert_eq!((user_data.uid, user_data.name.as_str()), (1000, "ada"));
    assert_eq!(user_data.icon_opt, None);
    assert_eq!(user_data.wallpapers_opt, None);
    assert!(!user_data.military_time());
}

#[test]
fn the_name_stands_in_for_a_full_name() {
    assert_eq!(with_gecos(Some("Ada L.,x")).full_name_or_name(), "Ada L.");
    assert_eq!(with_gecos(Some(",x")).full_name_or_name(), "ada");
    assert_eq!(with_gecos(None).full_name_or_name(), "ada");
}

#[test]
fn file_names_are_those_of_std() {
    for path in [
        "", "/", "//", ".", "..", "a", "a/", "a/.", "a/..", "/bin/sh", "/bin/false/", "./x", "../x",
        "/usr/sbin/nologin/.", "a//b", "a/./b", "/.", "/..", ".hidden",
    ] {
        let expected = std::path::Path::new(path).file_name().and_then(|name| name.to_str());
        assert_eq!(path_file_name(path).as_deref(), expected, "{:?}", path);
    }
}

#[test]
fn only_people_log_in() {
    assert!(login_user(&account("ada", 1000, "/bin/bash")));
    assert!(!login_user(&account("bin", 999, "/bin/bash")));
    assert!(!login_user(&account("svc", 1001, "/usr/sbin/nologin")));
    assert!(!login_user(&account("svc", 1001, "/bin/false")));
    assert!(!login_user(&account("svc", 1001, "/bin/false/")));
    assert!(login_user(&account("odd", 1001, "")));
    let kept = login_users(vec![
        account("root", 0, "/bin/bash"),
        account("bob", 1001, "/bin/sh"),
        account("svc", 1002, "/bin/false"),
        account("ada", 1000, "/bin/sh"),
    ]);
    let names: Vec<&str> = kept.iter().map(|kept| kept.name.as_str()).collect();
    assert_eq!(names, vec!["bob", "ada"]);
}

#[test]
fn the_account_database_is_the_fallback() {
    let user_datas = user_data_fallback(vec![
        account("daemon", 2, "/bin/sh"),
        account("bob", 1001, "/bin/sh"),
        account("ada", 1000, "/bin/sh"),
    ]);
    assert_eq!(user_datas, vec![user("bob", 1001), user("ada", 1000)]);
}

#[test]
fn users_are_sorted_by_uid_and_equals_keep_their_order() {
    let sorted = sort_by_uid(vec![user("c", 5), user("a", 3), user("d", 5), user("b", 1)]);
    let names: Vec<&str> = sorted.iter().map(|user| user.name.as_str()).collect();
    assert_eq!(names, vec!["b", "a", "c", "d"]);
}

#[test]
fn a_missing_mode_is_dark() {
    assert!(prefers_dark(Settings::Unavailable));
    assert!(prefers_dark(Settings::Loaded(true)));
    assert!(!prefers_dark(Settings::Loaded(false)));
    assert!(!prefers_dark(Settings::Partial(false)));
}

fn background() -> BackgroundState {
    BackgroundState {
        wallpapers: vec![
            ("DP-1".to_string(), Source::Path("/a.png".to_string())),
            ("DP-2".to_string(), Source::Color(Color { notation: "red".to_string() })),
            ("DP-3".to_string(), Source::Path("/gone.png".to_string())),
        ],
    }
}

#[test]
fn readable_wallpapers_and_colours_are_loaded() {
    let mut user_data = user("ada", 1000);
    user_data.load_wallpapers_as_user(background(), &vec![Some(vec![1, 2]), None, None]);
    assert_eq!(
        user_data.wallpapers_opt,
        Some(vec![
            ("DP-1".to_string(), WallpaperData::Bytes(vec![1, 2])),
            ("DP-2".to_string(), WallpaperData::Color(Color { notation: "red".to_string() })),
        ])
    );
    assert_eq!(user_data.bg_path_data, vec![("/a.png".to_string(), vec![1, 2])]);
    assert_eq!(user_data.bg_state, background());
}

#[test]
fn loading_replaces_what_was_loaded_before() {
    let mut user_data = user("ada", 1000);
    user_data.icon_opt = Some(vec![7]);
    user_data.clock_military_time_opt = Some(true);
    let xkb = XkbConfig {
        rules: String::new(),
        model: String::new(),
        layout: "de".to_string(),
        variant: String::new(),
        options: None,
        rest: "(repeat_delay:600)".to_string(),
    };
    let theme = Theme { is_high_contrast: true, notation: "t".to_string() };
    user_data.load_config_as_user(LoadedConfig {
        icon: None,
        theme: Settings::Partial(theme),
        background: Settings::Loaded(background()),
        wallpapers: vec![Some(vec![3]), None, None],
        xkb_config: Settings::Loaded(xkb),
        military_time: None,
    });
    assert_eq!(user_data.icon_opt, None);
    assert_eq!(user_data.clock_military_time_opt, None);
    assert!(user_data.theme_opt.as_ref().is_some_and(|theme| theme.is_high_contrast));
    assert_eq!(user_data.xkb_config_opt.as_ref().map(|xkb| xkb.layout.as_str()), Some("de"));
    assert_eq!(user_data.wallpapers_opt.as_ref().map(|list| list.len()), Some(2));

    user_data.load_config_as_user(LoadedConfig {
        icon: Some(vec![8]),
        theme: Settings::Unavailable,
        background: Settings::Unavailable,
        wallpapers: vec![],
        xkb_config: Settings::Unavailable,
        military_time: Some(true),
    });
    assert_eq!(user_data.icon_opt, Some(vec![8]));
    assert_eq!(user_data.theme_opt, None);
    assert_eq!(user_data.wallpapers_opt, None);
    assert_eq!(user_data.xkb_config_opt, None);
    assert!(user_data.military_time());
}

fn uid(uid: u32) -> NonZeroUid {
    NonZeroUid::new(uid).unwrap()
}

fn remembered(last_user: Option<u32>, sessions: &[(u32, Option<&str>)]) -> Config {
    let mut users = HashMap::new();
    for (id, session) in sessions {
        users.insert(
            *id,
            UserState { uid: uid(*id), last_session: session.map(|name| name.to_string()) },
        );
    }
    Config { users, last_user: last_user.map(uid) }
}

#[test]
fn the_superuser_has_no_state() {
    assert!(NonZeroUid::new(0).is_none());
    assert_eq!(uid(1000).get(), 1000);
}

#[test]
fn settings_that_cannot_be_opened_are_empty() {
    let (config, handler) = Config::load(Settings::Unavailable);
    assert!(!handler && config.users.is_empty() && config.last_user.is_none());
    let (config, handler) = Config::load(Settings::Partial(remembered(Some(1000), &[])));
    assert!(handler);
    assert_eq!(config.last_user.map(|id| id.get()), Some(1000));
}

#[test]
fn removed_users_are_forgotten() {
    let users = vec![user("ada", 1000), user("bob", 1001)];
    let mut config = remembered(Some(1002), &[(1001, Some("Sway")), (1002, Some("Gnome"))]);
    config.retain_users(&users);
    assert_eq!(config.last_session(1001), Some("Sway".to_string()));
    assert_eq!(config.last_session(1002), None);
    assert_eq!(config.last_user.as_ref().map(|id| id.get()), Some(1002));
    assert!(contains_uid(&users, 1001) && !contains_uid(&users, 1002));
}

#[test]
fn a_login_is_remembered_and_comes_back() {
    let users = vec![user("ada", 1000), user("bob", 1001)];
    let names = vec!["COSMIC".to_string(), "Sway".to_string()];
    let mut config = Config::empty();
    assert!(config.remember(uid(1001), &"Sway".to_string()));
    assert!(!config.remember(uid(1001), &"Sway".to_string()));
    assert!(config.remember(uid(1001), &"COSMIC".to_string()));
    assert!(config.remember(uid(1001), &"Sway".to_string()));
    assert_eq!(config.last_session(1001), Some("Sway".to_string()));
    let (name, id) = greeted_user(&config, &users, None);
    assert_eq!(name, "bob");
    assert_eq!(session_to_offer(&config, id, &names), "Sway");
}

#[test]
fn a_state_without_session_takes_one() {
    let mut config = remembered(None, &[(1000, None)]);
    assert!(config.remember(uid(1000), &"Sway".to_string()));
    assert_eq!(config.last_session(1000), Some("Sway".to_string()));
    assert_eq!(config.last_user.map(|id| id.get()), Some(1000));
}

#[test]
fn the_first_session_is_offered_where_none_is_remembered() {
    let names = vec!["COSMIC".to_string(), "Sway".to_string()];
    let config = remembered(None, &[(1000, None)]);
    assert_eq!(session_to_offer(&config, Some(uid(1000)), &names), "COSMIC");
    assert_eq!(session_to_offer(&config, Some(uid(1001)), &names), "COSMIC");
    assert_eq!(session_to_offer(&config, None, &vec![]), "");
}

#[test]
fn a_name_from_the_account_database_is_greeted() {
    let users = vec![user("ada", 1000)];
    let config = remembered(Some(5000), &[]);
    let (name, id) = greeted_user(&config, &users, Some("ldap".to_string()));
    assert_eq!((name.as_str(), id.map(|id| id.get())), ("ldap", Some(5000)));
    let (name, id) = greeted_user(&config, &users, None);
    assert_eq!((name.as_str(), id.map(|id| id.get())), ("ada", Some(1000)));
}

#[test]
fn the_account_database_is_asked_for_unknown_users() {
    let users = vec![user("ada", 1000)];
    assert_eq!(uid_to_look_up(&remembered(Some(5000), &[]), &users), Some(5000));
    assert_eq!(uid_to_look_up(&remembered(Some(1000), &[]), &users), None);
    assert_eq!(uid_to_look_up(&remembered(None, &[]), &users), None);
    let named = pwd::Passwd::from_uid(5000).map(|entry| entry.name);
    assert_eq!(look_up_last_user(&remembered(Some(5000), &[]), &users), named);
}

#[test]
fn known_users_need_no_database() {
    let users = vec![user("ada", 1000)];
    let config = remembered(Some(1000), &[]);
    assert_eq!(look_up_last_user(&config, &users), None);
    let (name, _) = greeted_user(&config, &users, Some("else".to_string()));
    assert_eq!(name, "ada");
    assert_eq!(determine_selected_username(&config, &users).data_idx, Some(0));
}

#[test]
fn names_are_found_at_their_first_place() {
    let users = vec![user("ada", 1000), user("bob", 1001), user("bob", 1002)];
    assert_eq!(position(&users, &"bob".to_string()), Some(1));
    assert_eq!(position(&users, &"eve".to_string()), None);
    assert_eq!(
        NameIndexPair::find("bob".to_string(), &users),
        NameIndexPair { username: "bob".to_string(), data_idx: Some(1) }
    );
}
