//! What holds of how the greeter and the lock screen start.
use crate::config::opt_uid;
use crate::greeter::{
    account_names, full_name_order, have_icons, icons_of, without_icons, App, Flags,
    NameModel,
};
use crate::keyboard::{configured, models, KeyboardLayouts};
use crate::locker;
use crate::locker::{joined, lockfile_name};
use crate::order::stably_sorted;
use crate::service_laws::{is_first_with_uid, law_the_last_user_is_greeted, nobody_has};
use crate::session::{lookup, name_order, names_of, Session, SessionFile};
use crate::session_laws::{has_name, is_last_with_name, law_every_described_session_is_found};
use crate::text::{text_le, texts};
use crate::time::Time;
use crate::user::{uid_order, Settings, UserData};
use vstd::prelude::*;

verus! {

// ---------------------------------------------------------------------------
// Sorting
// ---------------------------------------------------------------------------

/// Sorting accounts loses none and makes none up, puts smaller ids first, and keeps accounts with the
/// same id as they were.
pub proof fn law_accounts_are_sorted_by_id(
    out: Seq<UserData>,
    user_datas: Seq<UserData>,
    one: UserData,
)
    requires
        stably_sorted(out, user_datas, uid_order()),
    ensures
        out.to_multiset() == user_datas.to_multiset(),
        out.len() == user_datas.len(),
        forall|i: int, j: int|
            0 <= i < j < out.len() ==> (#[trigger] out[i]).uid <= (#[trigger] out[j]).uid,
        out.filter(|user: UserData| user.uid == one.uid) == user_datas.filter(
            |user: UserData| user.uid == one.uid,
        ),
{
    broadcast use vstd::seq_lib::group_to_multiset_ensures;

    let level = crate::order::level(one, uid_order());
    assert(out.to_multiset().len() == out.len());
    assert(user_datas.to_multiset().len() == user_datas.len());
    assert(level =~= |user: UserData| user.uid == one.uid);
    assert(out.filter(level) == user_datas.filter(level));
    assert forall|i: int, j: int| 0 <= i < j < out.len() implies (#[trigger] out[i]).uid <= (
    #[trigger] out[j]).uid by {
        assert(uid_order()(out[i], out[j]));
    }
}

/// The menu of users has every account, by its full name, and no other; it is in the order of the
/// alphabet.
pub proof fn law_every_account_is_listed(names: Seq<NameModel>, user_datas: Seq<UserData>, i: int)
    requires
        stably_sorted(names, account_names(user_datas), full_name_order()),
        0 <= i < user_datas.len(),
    ensures
        names.len() == user_datas.len(),
        names.contains(
            (NameModel { name: user_datas[i].name@, full_name: user_datas[i].shown_name() }),
        ),
        forall|j: int, k: int|
            0 <= j < k < names.len() ==> text_le(
                (#[trigger] names[j]).full_name,
                (#[trigger] names[k]).full_name,
            ),
        forall|j: int|
            0 <= j < names.len() ==> account_names(user_datas).contains(#[trigger] names[j]),
{
    broadcast use vstd::seq_lib::group_to_multiset_ensures;

    let all = account_names(user_datas);
    assert(names.to_multiset().len() == names.len());
    assert(all.to_multiset().len() == all.len());
    assert(all[i] == (NameModel {
        name: user_datas[i].name@,
        full_name: user_datas[i].shown_name(),
    }));
    assert(all.contains(all[i]));
    assert(all.to_multiset().count(all[i]) > 0);
    assert(names.to_multiset().count(all[i]) > 0);
    assert(names.contains(all[i]));
    assert forall|j: int| 0 <= j < names.len() implies all.contains(#[trigger] names[j]) by {
        assert(names.contains(names[j]));
        assert(names.to_multiset().count(names[j]) > 0);
        assert(all.to_multiset().count(names[j]) > 0);
    }
    assert forall|j: int, k: int| 0 <= j < k < names.len() implies text_le(
        (#[trigger] names[j]).full_name,
        (#[trigger] names[k]).full_name,
    ) by {
        assert(full_name_order()(names[j], names[k]));
    }
}

/// The menu of sessions has every session by its name, and no other; it is in the order of the
/// alphabet.
pub proof fn law_every_session_is_listed(names: Seq<String>, sessions: Seq<Session>, i: int)
    requires
        stably_sorted(names, names_of(sessions), name_order()),
        0 <= i < sessions.len(),
    ensures
        names.len() == sessions.len(),
        names.contains(sessions[i].name),
        forall|j: int, k: int|
            0 <= j < k < names.len() ==> text_le((#[trigger] names[j])@, (#[trigger] names[k])@),
        forall|j: int|
            0 <= j < names.len() ==> exists|k: int|
                0 <= k < sessions.len() && #[trigger] sessions[k].name == #[trigger] names[j],
{
    broadcast use vstd::seq_lib::group_to_multiset_ensures;

    let all = names_of(sessions);
    assert(names.to_multiset().len() == names.len());
    assert(all.to_multiset().len() == all.len());
    assert(all[i] == sessions[i].name);
    assert(all.contains(all[i]));
    assert(all.to_multiset().count(all[i]) > 0);
    assert(names.to_multiset().count(all[i]) > 0);
    assert(names.contains(all[i]));
    assert forall|j: int| 0 <= j < names.len() implies exists|k: int|
        0 <= k < sessions.len() && #[trigger] sessions[k].name == #[trigger] names[j] by {
        assert(names.contains(names[j]));
        assert(names.to_multiset().count(names[j]) > 0);
        assert(all.to_multiset().count(names[j]) > 0);
        assert(all.contains(names[j]));
        let k = choose|k: int| 0 <= k < all.len() && all[k] == names[j];
        assert(sessions[k].name == names[j]);
    }
    assert forall|j: int, k: int| 0 <= j < k < names.len() implies text_le(
        (#[trigger] names[j])@,
        (#[trigger] names[k])@,
    ) by {
        assert(name_order()(names[j], names[k]));
    }
}

// ---------------------------------------------------------------------------
// The greeter
// ---------------------------------------------------------------------------

/// The greeter is started with every account, without its picture but with whether it has one, and
/// otherwise as it is.
pub proof fn law_accounts_are_started_with(sorted: Seq<UserData>, i: int)
    requires
        0 <= i < sorted.len(),
    ensures
        without_icons(sorted).len() == sorted.len(),
        without_icons(sorted)[i] == (UserData { icon_opt: None, ..sorted[i] }),
        icons_of(sorted).len() == sorted.len(),
        icons_of(sorted)[i] == sorted[i].icon_opt,
        have_icons(icons_of(sorted)).len() == sorted.len(),
        have_icons(icons_of(sorted))[i] == sorted[i].icon_opt is Some,
{
}

/// The greeter is started with what is remembered of the accounts that are still there, as it is
/// remembered; accounts that are gone are forgotten.
pub proof fn law_remembered_accounts_are_started_with(
    flags: Flags,
    sorted: Seq<UserData>,
    settings: Settings<crate::config::Config>,
    files: Seq<SessionFile>,
    logind: bool,
    uid: u32,
    i: int,
)
    requires
        flags.prepared(sorted, settings, files, logind),
    ensures
        flags.logind == logind,
        ({
            let users = flags.greeter_config.users@;
            let config = if settings is Loaded {
                settings->Loaded_0
            } else {
                settings->Partial_0
            };
            &&& flags.greeter_config_handler <==> !(settings is Unavailable)
            &&& settings is Unavailable ==> flags.greeter_config.last_user is None
                && !users.contains_key(uid)
            &&& !(settings is Unavailable) ==> {
                &&& flags.greeter_config.last_user == config.last_user
                &&& 0 <= i < sorted.len() && sorted[i].uid == uid && config.users@.contains_key(uid)
                    ==> users.contains_key(uid) && users[uid] == config.users@[uid]
                &&& nobody_has(sorted, uid) ==> !users.contains_key(uid)
                &&& !config.users@.contains_key(uid) ==> !users.contains_key(uid)
            }
        }),
{
    if nobody_has(sorted, uid) && crate::config::has_uid(sorted, uid) {
        let k = choose|k: int| 0 <= k < sorted.len() && (#[trigger] sorted[k]).uid == uid;
        assert(sorted[k].uid != uid);
    }
    if 0 <= i < sorted.len() && sorted[i].uid == uid {
        assert(crate::config::has_uid(sorted, uid));
    }
}

/// The greeter is started with the sessions that the files describe: under every name the one of the
/// last file with that name, and none under a name that no file has.
pub proof fn law_described_sessions_are_started_with(
    flags: Flags,
    sorted: Seq<UserData>,
    settings: Settings<crate::config::Config>,
    files: Seq<SessionFile>,
    logind: bool,
    name: Seq<char>,
)
    requires
        flags.prepared(sorted, settings, files, logind),
    ensures
        match lookup(flags.sessions@, name) {
            Some(session) => exists|i: int| #[trigger] is_last_with_name(files, i, name, session),
            None => forall|i: int| 0 <= i < files.len() ==> !has_name(#[trigger] files[i], name),
        },
{
    law_every_described_session_is_found(files, name);
    assert(lookup(flags.sessions@, name) == crate::session::last_described(files, name));
}

/// The greeter starts with whoever logged in last, and with the session that they chose, or else with
/// the first of the alphabet; nothing is open, and nothing was said yet.
pub proof fn law_the_greeter_starts_with_the_last_user(
    app: App,
    flags: Flags,
    helper: bool,
    looked_up: Option<Seq<char>>,
    uid: u32,
    i: int,
)
    requires
        app.is_started(flags, helper, looked_up),
        opt_uid(flags.greeter_config.last_user) == Some(uid),
        uid != 0,
        is_first_with_uid(flags.user_datas@, i, uid),
    ensures
        app.flags == flags,
        app.selected_username.username@ == flags.user_datas@[i].name@,
        ({
            let users = flags.greeter_config.users@;
            let chosen = users.contains_key(uid) && users[uid].last_session is Some;
            &&& chosen ==> app.selected_session@ == users[uid].last_session->0@
            &&& !chosen && app.session_names@.len() > 0 ==> app.selected_session@
                == app.session_names@[0]@
        }),
        !app.greetd_sender,
        app.dialog_page_opt is None,
        app.dropdown_opt is None,
        !app.entering_name,
        !app.accessibility.screen_reader && !app.accessibility.magnifier
            && !app.accessibility.high_contrast && !app.accessibility.invert_colors,
        app.accessibility.helper == helper,
{
    law_the_last_user_is_greeted(Some(uid), flags.user_datas@, looked_up, i);
    crate::service_laws::law_the_remembered_session_is_offered(
        flags.greeter_config.users@,
        uid,
        texts(app.session_names@),
    );
    if app.session_names@.len() > 0 {
        assert(texts(app.session_names@)[0] == app.session_names@[0]@);
    }
}

/// Where nobody logged in before, the greeter starts with the first account.
pub proof fn law_the_greeter_starts_with_the_first_account(
    app: App,
    flags: Flags,
    helper: bool,
    looked_up: Option<Seq<char>>,
)
    requires
        app.is_started(flags, helper, looked_up),
        flags.greeter_config.last_user is None,
    ensures
        flags.user_datas@.len() > 0 ==> app.selected_username.username@
            == flags.user_datas@[0].name@,
        flags.user_datas@.len() == 0 ==> app.selected_username.username@.len() == 0,
{
}

// ---------------------------------------------------------------------------
// The lock screen
// ---------------------------------------------------------------------------

/// The lock screen locks at once where the session was locked before, and where the login manager does
/// not say when to.
pub proof fn law_the_lock_screen_locks_at_once(flags: locker::Flags, already_locked: bool)
    ensures
        already_locked ==> locker::App::locks_at_start(flags, already_locked),
        !flags.logind ==> locker::App::locks_at_start(flags, already_locked),
        flags.logind && !already_locked ==> !locker::App::locks_at_start(flags, already_locked),
{
}

/// The lockfile lies in its directory, under the name of the session.
pub proof fn law_lockfiles_lie_in_their_directory(dir: Seq<char>, id: Seq<char>)
    requires
        dir.len() > 0,
    ensures
        dir.last() != '/' ==> joined(dir, lockfile_name(id)) == dir + "/cosmic-greeter-"@ + id
            + ".lock"@,
        dir.last() == '/' ==> joined(dir, lockfile_name(id)) == dir + "cosmic-greeter-"@ + id
            + ".lock"@,
{
    reveal_strlit("/");
    reveal_strlit("cosmic-greeter-");
    reveal_strlit("/cosmic-greeter-");
    assert("/"@ + "cosmic-greeter-"@ == "/cosmic-greeter-"@);
    let name = lockfile_name(id);
    if dir.last() != '/' {
        assert(joined(dir, name) =~= dir + "/cosmic-greeter-"@ + id + ".lock"@);
    } else {
        assert(joined(dir, name) =~= dir + "cosmic-greeter-"@ + id + ".lock"@);
    }
}

/// The lock screen starts with what it is given: it locks at once or waits, it hears of outputs and
/// of the lock, and it asks nobody yet. The clock and the time zone are looked up.
pub proof fn law_the_lock_screen_starts_as_it_should(
    app: locker::App,
    flags: locker::Flags,
    comp_config_open: bool,
    layouts_opt: Option<KeyboardLayouts>,
    time: Time,
    already_locked: bool,
    tasks: Seq<locker::Task>,
)
    requires
        app.is_started(flags, comp_config_open, layouts_opt, time, already_locked, tasks),
    ensures
        app.flags == flags,
        ({
            let at_once = already_locked || !flags.logind;
            &&& at_once ==> app.state == locker::State::Locking && tasks.len() == 3 && tasks[0]
                == locker::Task::Lock
            &&& !at_once ==> app.state == locker::State::Unlocked && tasks.len() == 2
        }),
        tasks[tasks.len() - 2] == locker::Task::Common(crate::common::Task::Clock),
        tasks[tasks.len() - 1] == locker::Task::Common(crate::common::Task::TimeZone),
        app.common.on_output_event,
        app.common.on_session_lock_event,
        app.common.use_sharp_wallpaper,
        app.common.prompt_opt is None,
        app.common.error_opt is None,
        app.common.time == time,
        app.common.layouts_opt == layouts_opt,
        app.value_tx_opt is None,
        app.inhibit_opt is None,
        !app.authenticating,
        layouts_opt is Some && flags.user_data.xkb_config_opt is Some ==> models(
            app.common.active_layouts@,
        ) == configured(
            layouts_opt->0.layouts@,
            flags.user_data.xkb_config_opt->0.layout@,
            flags.user_data.xkb_config_opt->0.variant@,
        ),
{
    let rest = locker::common_tasks(
        seq![crate::common::Task::Clock, crate::common::Task::TimeZone],
    );
    let first = if locker::App::locks_at_start(flags, already_locked) {
        seq![locker::Task::Lock]
    } else {
        Seq::empty()
    };
    assert(tasks == first + rest);
    assert(rest.len() == 2);
    assert(tasks[first.len() as int] == rest[0]);
    assert(tasks[first.len() as int + 1] == rest[1]);
}

}
