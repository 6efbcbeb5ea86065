//! What the daemon accepts, whom it acts for, and in which order it changes identity.
use cosmic_greeter::daemon::{
    accept_payload, find_account, get_user_data, has_usable_name, restore_root, run_as_user,
    set_xkb_config, user_data_of, validate_xkb_config, written, Call, GreeterError,
};
use cosmic_greeter::keyboard::{build_xkb_config, ActiveLayout, XkbConfig};
use cosmic_greeter::user::{LoadedConfig, Passwd, Settings, UserData};

fn config(layout: &str, variant: &str) -> XkbConfig {
    XkbConfig {
        rules: String::new(),
        model: String::new(),
        layout: layout.to_string(),
        variant: variant.to_string(),
        options: None,
        rest: "(repeat_delay:600)".to_string(),
    }
}

fn invalid(text: &str) -> Result<(), GreeterError> {
    Err(GreeterError::InvalidXkbConfig(text.to_string()))
}

fn account(name: &str, uid: u32) -> Passwd {
    Passwd {
        name: name.to_string(),
        uid,
        gid: uid + 7,
        gecos: None,
        dir: format!("/home/{}", name),
        shell: "/bin/sh".to_string(),
    }
}

fn nothing_loaded() -> LoadedConfig {
    LoadedConfig {
        icon: None,
        theme: Settings::Unavailable,
        background: Settings::Unavailable,
        wallpapers: vec![],
        xkb_config: Settings::Unavailable,
        military_time: None,
    }
}

#[test]
fn real_layouts_are_accepted() {
    assert_eq!(validate_xkb_config(&config("us,de", ",nodeadkeys")), Ok(()));
    assert_eq!(validate_xkb_config(&config("us", "")), Ok(()));
}

#[test]
fn an_empty_layout_is_refused() {
    assert_eq!(validate_xkb_config(&config("", "")), invalid("empty layout"));
}

#[test]
fn lists_of_different_length_are_refused() {
    assert_eq!(
        validate_xkb_config(&config("us,de", "")),
        invalid("layout/variant count mismatch (2 vs 1)")
    );
    assert_eq!(
        validate_xkb_config(&config("us", ",,")),
        invalid("layout/variant count mismatch (1 vs 3)")
    );
}

#[test]
fn at_most_sixty_four_layouts_are_accepted() {
    let layouts = |n: usize| vec!["us"; n].join(",");
    let variants = |n: usize| ",".repeat(n - 1);
    assert_eq!(validate_xkb_config(&config(&layouts(64), &variants(64))), Ok(()));
    assert_eq!(
        validate_xkb_config(&config(&layouts(65), &variants(65))),
        invalid("too many layouts (65)")
    );
}

#[test]
fn every_field_is_bounded() {
    let long = "x".repeat(4097);
    let fits = "x".repeat(4096);
    let base = || config("us", "");
    assert_eq!(validate_xkb_config(&XkbConfig { rules: fits.clone(), ..base() }), Ok(()));
    assert_eq!(
        validate_xkb_config(&XkbConfig { rules: long.clone(), ..base() }),
        invalid("rules too long (4097 bytes)")
    );
    assert_eq!(
        validate_xkb_config(&XkbConfig { model: long.clone(), ..base() }),
        invalid("model too long (4097 bytes)")
    );
    assert_eq!(
        validate_xkb_config(&XkbConfig { layout: long.clone(), ..base() }),
        invalid("layout too long (4097 bytes)")
    );
    assert_eq!(
        validate_xkb_config(&XkbConfig { variant: long.clone(), ..base() }),
        invalid("variant too long (4097 bytes)")
    );
    assert_eq!(
        validate_xkb_config(&XkbConfig { options: Some(long.clone()), ..base() }),
        invalid("options too long (4097 bytes)")
    );
    assert_eq!(validate_xkb_config(&XkbConfig { options: Some(fits), ..base() }), Ok(()));
    // Lengths are counted in bytes.
    assert_eq!(
        validate_xkb_config(&XkbConfig { model: "\u{e9}".repeat(2049), ..base() }),
        invalid("model too long (4098 bytes)")
    );
}

#[test]
fn payloads_are_bounded() {
    assert_eq!(accept_payload(&"x".repeat(65536)), Ok(()));
    assert_eq!(accept_payload(&"x".repeat(65537)), invalid("payload too large (65537 bytes)"));
}

#[test]
fn chosen_layouts_are_accepted() {
    let active = vec![
        ActiveLayout {
            layout: "us".to_string(),
            description: "English".to_string(),
            variant: "intl".to_string(),
        },
        ActiveLayout {
            layout: "de".to_string(),
            description: "German".to_string(),
            variant: String::new(),
        },
    ];
    assert_eq!(validate_xkb_config(&build_xkb_config(&active, &config("de", "x,y"))), Ok(()));
}

#[test]
fn only_known_login_users_are_written_for() {
    let users = vec![account("root", 0), account("ada", 1000), account("bob", 1001)];
    let bob = "bob".to_string();
    assert_eq!(find_account(&users, &bob), Ok(2));
    assert_eq!(
        set_xkb_config(&users, &bob, "()", Ok(config("us", ""))),
        Ok((2, config("us", "")))
    );
    for (name, shown) in [("root", "\"root\""), ("e\"ve\n", "\"e\\\"ve\\n\""), ("", "\"\"")] {
        assert_eq!(
            set_xkb_config(&users, &name.to_string(), "()", Ok(config("us", ""))),
            Err(GreeterError::UnknownUser(format!("unknown user {}", shown)))
        );
    }
}

#[test]
fn a_bad_config_is_refused_before_the_user_is_looked_up() {
    let users = vec![account("ada", 1000)];
    let eve = "eve".to_string();
    assert_eq!(
        set_xkb_config(&users, &eve, "()", Err("1:1: oops".to_string())),
        Err(GreeterError::Ron("1:1: oops".to_string()))
    );
    assert_eq!(
        set_xkb_config(&users, &eve, "()", Ok(config("", ""))),
        Err(GreeterError::InvalidXkbConfig("empty layout".to_string()))
    );
}

#[test]
fn failures_to_write_are_told() {
    assert_eq!(written(Ok(Ok(()))), Ok(()));
    assert_eq!(
        written(Ok(Err("full".to_string()))),
        Err(GreeterError::RunAsUser("full".to_string()))
    );
    assert_eq!(
        written(Err("no such id".to_string())),
        Err(GreeterError::RunAsUser("no such id".to_string()))
    );
}

#[test]
fn user_data_is_answered_for_login_users() {
    let users = vec![account("ada", 1000), account("bob", 1001)];
    let loaded = vec![
        Ok(LoadedConfig { icon: Some(vec![1]), ..nothing_loaded() }),
        Ok(LoadedConfig { military_time: Some(true), ..nothing_loaded() }),
    ];
    let answer = get_user_data(users, loaded).unwrap();
    assert_eq!(answer.len(), 2);
    assert_eq!(answer[0].icon_opt, Some(vec![1]));
    assert_eq!(answer[1].name, "bob");
    assert!(answer[1].military_time());
    assert_eq!(
        user_data_of(account("ada", 1000), nothing_loaded()),
        UserData::from_passwd(account("ada", 1000))
    );
}

#[test]
fn the_first_failure_is_the_answer() {
    let users = vec![account("ada", 1000), account("bob", 1001)];
    let loaded = vec![Ok(nothing_loaded()), Err("denied".to_string())];
    assert_eq!(get_user_data(users, loaded), Err(GreeterError::RunAsUser("denied".to_string())));
}

#[test]
fn privileges_are_dropped_last_and_taken_back_first() {
    let ada = account("ada", 1000);
    assert!(has_usable_name(&ada));
    assert_eq!(
        run_as_user(&ada),
        vec![
            Call::SetHome("/home/ada".to_string()),
            Call::InitGroups { name: "ada".to_string(), gid: 1007 },
            Call::SetEgid(1007),
            Call::SetEuid(1000),
        ]
    );
    assert_eq!(
        restore_root(vec![0, 4], Some("/root".to_string())),
        vec![
            Call::SetEuid(0),
            Call::SetEgid(0),
            Call::SetGroups(vec![0, 4]),
            Call::SetHome("/root".to_string()),
        ]
    );
    assert_eq!(restore_root(vec![], None).last(), Some(&Call::RemoveHome));
    assert!(!has_usable_name(&account("a\0b", 1000)));
}

#[test]
fn a_request_that_is_too_long_is_refused_before_anything_else() {
    let users = vec![account("alice", 1000)];
    let alice = "alice".to_string();
    let long = "x".repeat(65537);
    let refused = || Err(GreeterError::InvalidXkbConfig("payload too large (65537 bytes)".to_string()));
    assert_eq!(set_xkb_config(&users, &alice, &long, Err("1:1: oops".to_string())), refused());
    assert_eq!(set_xkb_config(&users, &alice, &long, Ok(config("", ""))), refused());
    assert_eq!(set_xkb_config(&users, &alice, &long, Ok(config("us", ""))), refused());
    assert_eq!(set_xkb_config(&vec![], &alice, &long, Ok(config("us", ""))), refused());
    let fits = "x".repeat(65536);
    assert_eq!(
        set_xkb_config(&users, &alice, &fits, Ok(config("us", ""))),
        Ok((0, config("us", "")))
    );
}
