//! Whom the greeter starts with when the last user is not among the accounts that were enumerated.
use cosmic_greeter::config::{determine_selected_username, Config, NameIndexPair, NonZeroUid};
use cosmic_greeter::user::{Passwd, UserData};
use std::collections::HashMap;

const LOCAL_USER_1_UID: u32 = 1000;
const LOCAL_USER_2_UID: u32 = 1001;
const LDAP_USER_UID: u32 = 5000;

fn user(name: &str, uid: u32) -> UserData {
    UserData::from_passwd(Passwd {
        name: name.to_string(),
        uid,
        gid: uid,
        gecos: None,
        dir: format!("/home/{}", name),
        shell: "/bin/bash".to_string(),
    })
}

fn create_test_users() -> Vec<UserData> {
    vec![user("alice", LOCAL_USER_1_UID), user("bob", LOCAL_USER_2_UID)]
}

fn config(last_user: Option<NonZeroUid>) -> Config {
    Config { users: HashMap::new(), last_user }
}

/// A selection that does not ask the account database.
fn determine_selected_username_buggy(config: &Config, user_datas: &[UserData]) -> NameIndexPair {
    let username = config
        .last_user
        .as_ref()
        .and_then(|last_user| {
            user_datas.iter().find(|d| d.uid == last_user.get()).map(|x| x.name.clone())
        })
        .or_else(|| user_datas.first().map(|x| x.name.clone()))
        .unwrap_or_default();
    let data_idx = user_datas.iter().position(|d| d.name == username);
    NameIndexPair { username, data_idx }
}

#[test]
fn test_last_user_found_in_user_datas() {
    let config = config(NonZeroUid::new(LOCAL_USER_2_UID));
    let user_datas = create_test_users();
    let result = determine_selected_username(&config, &user_datas);
    assert_eq!(result.username, "bob");
    assert_eq!(result.data_idx, Some(1));
}

#[test]
fn test_last_user_not_found_falls_back_to_first() {
    let config = config(NonZeroUid::new(LDAP_USER_UID));
    let user_datas = create_test_users();
    let result = determine_selected_username(&config, &user_datas);
    assert_eq!(result.username, "alice");
    assert_eq!(result.data_idx, Some(0));
}

#[test]
fn test_uid_not_found_anywhere_returns_empty() {
    let config = config(NonZeroUid::new(LDAP_USER_UID));
    let user_datas: Vec<UserData> = vec![];
    let result = determine_selected_username(&config, &user_datas);
    assert_eq!(
        result.username, "",
        "When UID doesn't exist anywhere and no users available, \
         should return empty string as last resort."
    );
    assert_eq!(result.data_idx, None);
}

#[test]
fn test_real_system_user_lookup_via_passwd() {
    let user_datas: Vec<UserData> = vec![];
    match pwd::Passwd::current_user() {
        Some(current_user) if current_user.uid != 0 => {
            let config = config(NonZeroUid::new(current_user.uid));
            let result = determine_selected_username(&config, &user_datas);
            assert_eq!(result.username, current_user.name);
            assert_eq!(result.data_idx, None);
        }
        // Whoever runs this has no entry of their own, or the superuser's: any entry will do.
        _ => {
            let entries: Vec<_> = pwd::Passwd::iter().filter(|entry| entry.uid != 0).collect();
            for entry in entries {
                let named = pwd::Passwd::from_uid(entry.uid).expect("Failed to get user for test");
                let config = config(NonZeroUid::new(entry.uid));
                let result = determine_selected_username(&config, &user_datas);
                assert_eq!(result.username, named.name);
                assert_eq!(result.data_idx, None);
            }
            let unused = (1..).find(|uid| pwd::Passwd::from_uid(*uid).is_none()).unwrap();
            let config = config(NonZeroUid::new(unused));
            let result = determine_selected_username(&config, &user_datas);
            assert_eq!(result.username, "");
            assert_eq!(result.data_idx, None);
        }
    }
}

#[test]
fn test_buggy_version_returns_empty_username() {
    let config = config(NonZeroUid::new(LDAP_USER_UID));
    let user_datas: Vec<UserData> = vec![];
    let result = determine_selected_username_buggy(&config, &user_datas);
    assert_eq!(result.username, "");
    assert_eq!(result.data_idx, None);
}

#[test]
fn test_no_last_user_no_enumerated_users() {
    let config = config(None);
    let user_datas: Vec<UserData> = vec![];
    let result = determine_selected_username(&config, &user_datas);
    assert_eq!(result.username, "");
    assert_eq!(result.data_idx, None);
}
