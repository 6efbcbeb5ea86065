//! The privileged service: what it accepts, and how it acts as another account.
use crate::keyboard::XkbConfig;
use crate::text::{
    byte_len, byte_length, concat2, concat3, contains_char, decimal, decimal_text, split, split_on,
};
use crate::user::{
    is_login_user, loaded_wallpapers, login_user, read_files, same_files, same_wallpapers,
    LoadedConfig, Passwd, UserData,
};
use vstd::prelude::*;
use vstd::string::*;

verus! {

broadcast use vstd::string::group_string_axioms;

/// Why the service refused or failed.
#[derive(Debug, PartialEq, Eq)]
pub enum GreeterError {
    Ron(String),
    RunAsUser(String),
    UnknownUser(String),
    InvalidXkbConfig(String),
}

/// What an error says.
pub enum Fault {
    Ron(Seq<char>),
    RunAsUser(Seq<char>),
    UnknownUser(Seq<char>),
    InvalidXkbConfig(Seq<char>),
}

impl View for GreeterError {
    type V = Fault;

    open spec fn view(&self) -> Fault {
        match self {
            GreeterError::Ron(message) => Fault::Ron(message@),
            GreeterError::RunAsUser(message) => Fault::RunAsUser(message@),
            GreeterError::UnknownUser(message) => Fault::UnknownUser(message@),
            GreeterError::InvalidXkbConfig(message) => Fault::InvalidXkbConfig(message@),
        }
    }
}

/// The error of a result, if it is one.
pub open spec fn fault<T>(result: Result<T, GreeterError>) -> Option<Fault> {
    match result {
        Ok(_) => None,
        Err(err) => Some(err@),
    }
}

/// The longest field that is accepted, in bytes.
pub const MAX_FIELD_LEN: usize = 4096;

/// The most layouts that are accepted.
pub const MAX_LAYOUTS: usize = 64;

/// The longest request that is accepted, in bytes.
pub const MAX_RON_LEN: usize = 65536;

// ---------------------------------------------------------------------------
// Keyboard settings
// ---------------------------------------------------------------------------

/// How a field that is too long is complained of.
pub open spec fn too_long(name: Seq<char>, value: Seq<char>) -> Fault {
    Fault::InvalidXkbConfig(
        name + " too long ("@ + decimal(byte_len(value)) + " bytes)"@,
    )
}

/// What is wrong with keyboard settings, if anything: the first of these that applies.
pub open spec fn xkb_config_fault(config: XkbConfig) -> Option<Fault> {
    let layouts = split(config.layout@, ',').len();
    let variants = split(config.variant@, ',').len();
    if config.layout@.len() == 0 {
        Some(Fault::InvalidXkbConfig("empty layout"@))
    } else if layouts != variants {
        Some(
            Fault::InvalidXkbConfig(
                "layout/variant count mismatch ("@ + decimal(layouts) + " vs "@ + decimal(variants)
                    + ")"@,
            ),
        )
    } else if layouts > MAX_LAYOUTS {
        Some(Fault::InvalidXkbConfig("too many layouts ("@ + decimal(layouts) + ")"@))
    } else if byte_len(config.rules@) > MAX_FIELD_LEN {
        Some(too_long("rules"@, config.rules@))
    } else if byte_len(config.model@) > MAX_FIELD_LEN {
        Some(too_long("model"@, config.model@))
    } else if byte_len(config.layout@) > MAX_FIELD_LEN {
        Some(too_long("layout"@, config.layout@))
    } else if byte_len(config.variant@) > MAX_FIELD_LEN {
        Some(too_long("variant"@, config.variant@))
    } else {
        match config.options {
            Some(options) => if byte_len(options@) > MAX_FIELD_LEN {
                Some(too_long("options"@, options@))
            } else {
                None
            },
            None => None,
        }
    }
}

fn check_length(name: &str, value: &str) -> (checked: Result<(), GreeterError>)
    ensures
        fault(checked) == (if byte_len(value@) > MAX_FIELD_LEN {
            Some(too_long(name@, value@))
        } else {
            None
        }),
{
    let len: usize = byte_length(value);
    if len > MAX_FIELD_LEN {
        let count = decimal_text(len);
        let counted = concat3(name, " too long (", count.as_str());
        return Err(GreeterError::InvalidXkbConfig(concat2(counted.as_str(), " bytes)")));
    }
    Ok(())
}

/// Refuses keyboard settings that would leave an account without its layouts, or bind variants to
/// the wrong ones, or that are far larger than any real choice of layouts.
pub fn validate_xkb_config(config: &XkbConfig) -> (checked: Result<(), GreeterError>)
    ensures
        fault(checked) == xkb_config_fault(*config),
{
    if config.layout.as_str().is_empty() {
        return Err(GreeterError::InvalidXkbConfig("empty layout".to_owned()));
    }
    let layout_count: usize = split_on(config.layout.as_str(), ',').len();
    let variant_count: usize = split_on(config.variant.as_str(), ',').len();
    if layout_count != variant_count {
        let layouts = concat3("layout/variant count mismatch (", decimal_text(layout_count).as_str(), " vs ");
        let message = concat3(layouts.as_str(), decimal_text(variant_count).as_str(), ")");
        return Err(GreeterError::InvalidXkbConfig(message));
    }
    if layout_count > MAX_LAYOUTS {
        let message = concat3("too many layouts (", decimal_text(layout_count).as_str(), ")");
        return Err(GreeterError::InvalidXkbConfig(message));
    }
    check_length("rules", config.rules.as_str())?;
    check_length("model", config.model.as_str())?;
    check_length("layout", config.layout.as_str())?;
    check_length("variant", config.variant.as_str())?;
    if let Some(options) = &config.options {
        check_length("options", options.as_str())?;
    }
    Ok(())
}

/// What is wrong with a request before it is read: it can be too long.
pub open spec fn payload_fault(payload: Seq<char>) -> Option<Fault> {
    if byte_len(payload) > MAX_RON_LEN {
        Some(
            Fault::InvalidXkbConfig(
                "payload too large ("@ + decimal(byte_len(payload)) + " bytes)"@,
            ),
        )
    } else {
        None
    }
}

/// Refuses a request that is too long to be worth reading.
pub fn accept_payload(payload: &str) -> (checked: Result<(), GreeterError>)
    ensures
        fault(checked) == payload_fault(payload@),
{
    let len: usize = byte_length(payload);
    if len > MAX_RON_LEN {
        let message = concat3("payload too large (", decimal_text(len).as_str(), " bytes)");
        return Err(GreeterError::InvalidXkbConfig(message));
    }
    Ok(())
}

/// How `{:?}` prints a string.
pub uninterp spec fn quoted(text: Seq<char>) -> Seq<char>;

/// Prints a string through `format!` with `{:?}`: in quotation marks, with escapes. The exact
/// notation is left to the standard library; all that is claimed is that it depends on nothing
/// but the string.
#[verifier::external_body]
fn quote(text: &str) -> (out: String)
    ensures
        out@ == quoted(text@),
{
    format!("{:?}", text)
}

/// An account that can log in under this name is at `i`, and none is before it.
pub open spec fn is_account(users: Seq<Passwd>, name: Seq<char>, i: int) -> bool {
    &&& 0 <= i < users.len()
    &&& is_login_user(users[i])
    &&& users[i].name@ == name
    &&& forall|j: int|
        0 <= j < i ==> !(is_login_user(#[trigger] users[j]) && users[j].name@ == name)
}

/// No account that can log in has this name.
pub open spec fn unknown(users: Seq<Passwd>, name: Seq<char>) -> bool {
    forall|j: int|
        0 <= j < users.len() ==> !(is_login_user(#[trigger] users[j]) && users[j].name@ == name)
}

/// `found` is the account that a request names, or says that there is none.
pub open spec fn is_found(
    found: Result<usize, GreeterError>,
    users: Seq<Passwd>,
    username: Seq<char>,
) -> bool {
    match found {
        Ok(i) => is_account(users, username, i as int),
        Err(err) => {
            &&& unknown(users, username)
            &&& err@ == Fault::UnknownUser("unknown user "@ + quoted(username))
        },
    }
}

/// The account that a request names, as the database has it.
pub fn find_account(users: &Vec<Passwd>, username: &String) -> (found: Result<usize, GreeterError>)
    ensures
        is_found(found, users@, username@),
{
    for i in 0..users.len()
        invariant
            forall|j: int|
                0 <= j < i ==> !(is_login_user(#[trigger] users@[j]) && users@[j].name@
                    == username@),
    {
        if login_user(&users[i]) && users[i].name == *username {
            return Ok(i);
        }
    }
    Err(
        GreeterError::UnknownUser(
            concat2("unknown user ", quote(username.as_str()).as_str()),
        ),
    )
}

/// `order` is what a request to set keyboard settings comes to.
pub open spec fn is_order(
    order: Result<(usize, XkbConfig), GreeterError>,
    users: Seq<Passwd>,
    username: Seq<char>,
    payload: Seq<char>,
    read: Result<XkbConfig, String>,
) -> bool {
    match payload_fault(payload) {
        Some(wrong) => fault(order) == Some(wrong),
        None => match read {
            Err(message) => fault(order) == Some(Fault::Ron(message@)),
            Ok(config) => match xkb_config_fault(config) {
                Some(wrong) => fault(order) == Some(wrong),
                None => match order {
                    Ok((i, written)) => {
                        &&& is_account(users, username, i as int)
                        &&& written == config
                    },
                    Err(err) => {
                        &&& unknown(users, username)
                        &&& err@ == Fault::UnknownUser("unknown user "@ + quoted(username))
                    },
                },
            },
        },
    }
}

/// What a request to set keyboard settings comes to, from its text and from what reading that gave:
/// whose settings to write, and what to write. What is too long is refused first, whatever reading
/// it would give; then what could not be read, then what is wrong; and only then is the account
/// looked for. A request that is refused leaves nothing to write, and nobody to write it as.
pub fn set_xkb_config(
    users: &Vec<Passwd>,
    username: &String,
    payload: &str,
    read: Result<XkbConfig, String>,
) -> (order: Result<(usize, XkbConfig), GreeterError>)
    ensures
        is_order(order, users@, username@, payload@, read),
{
    match accept_payload(payload) {
        Err(err) => {
            return Err(err);
        },
        Ok(()) => {},
    }
    match read {
        Err(message) => Err(GreeterError::Ron(message)),
        Ok(config) => {
            match validate_xkb_config(&config) {
                Err(err) => Err(err),
                Ok(()) => match find_account(users, username) {
                    Ok(i) => Ok((i, config)),
                    Err(err) => Err(err),
                },
            }
        },
    }
}

/// What went wrong with writing, if anything.
pub open spec fn write_fault(outcome: Result<Result<(), String>, String>) -> Option<Fault> {
    match outcome {
        Ok(Ok(_)) => None,
        Ok(Err(message)) => Some(Fault::RunAsUser(message@)),
        Err(message) => Some(Fault::RunAsUser(message@)),
    }
}

/// The answer to a request, from what writing came to: whether the identity could be assumed, and
/// whether the write itself went through.
pub fn written(outcome: Result<Result<(), String>, String>) -> (answer: Result<(), GreeterError>)
    ensures
        fault(answer) == write_fault(outcome),
{
    match outcome {
        Ok(Ok(())) => Ok(()),
        Ok(Err(message)) => Err(GreeterError::RunAsUser(message)),
        Err(message) => Err(GreeterError::RunAsUser(message)),
    }
}

/// What is known of an account comes from its database entry and from its settings.
pub open spec fn known_of(user_data: UserData, user: Passwd, loaded: LoadedConfig) -> bool {
    &&& user_data.uid == user.uid
    &&& user_data.name == user.name
    &&& crate::text::opt_text(user_data.full_name_opt) == (match user.gecos {
        Some(gecos) => Some(split(gecos@, ',')[0]),
        None => None,
    })
    &&& user_data.icon_opt == loaded.icon
    &&& user_data.theme_opt == loaded.theme.found()
    &&& user_data.xkb_config_opt == loaded.xkb_config.found()
    &&& user_data.clock_military_time_opt == loaded.military_time
    &&& user_data.theme_builder_opt is None
    &&& user_data.kdl_output_lists@.len() == 0
    &&& !user_data.zoom_on_login
    &&& match loaded.background.found() {
        Some(state) => {
            &&& user_data.wallpapers_opt is Some
            &&& same_wallpapers(
                user_data.wallpapers_opt->0@,
                loaded_wallpapers(state.wallpapers@, loaded.wallpapers@),
            )
            &&& user_data.bg_state == state
            &&& same_files(
                user_data.bg_path_data@,
                read_files(state.wallpapers@, loaded.wallpapers@),
            )
        },
        None => {
            &&& user_data.wallpapers_opt is None
            &&& user_data.bg_state.wallpapers@.len() == 0
            &&& user_data.bg_path_data@.len() == 0
        },
    }
}

/// What is known of an account once its settings have been read.
pub fn user_data_of(user: Passwd, loaded: LoadedConfig) -> (user_data: UserData)
    ensures
        known_of(user_data, user, loaded),
{
    let mut user_data = UserData::from_passwd(user);
    user_data.load_config_as_user(loaded);
    user_data
}

/// `answer` is what is known of every account, or which identity could not be assumed.
pub open spec fn is_answer(
    answer: Result<Vec<UserData>, GreeterError>,
    users: Seq<Passwd>,
    loaded: Seq<Result<LoadedConfig, String>>,
) -> bool {
    match answer {
        Ok(user_datas) => {
            &&& user_datas@.len() == users.len()
            &&& forall|i: int|
                0 <= i < users.len() ==> (#[trigger] loaded[i]) is Ok && known_of(
                    user_datas@[i],
                    users[i],
                    loaded[i]->Ok_0,
                )
        },
        Err(err) => exists|i: int|
            0 <= i < loaded.len() && (#[trigger] loaded[i]) is Err && err@ == Fault::RunAsUser(
                loaded[i]->Err_0@,
            ) && forall|j: int| 0 <= j < i ==> (#[trigger] loaded[j]) is Ok,
    }
}

/// What is known of every account that can log in, from what reading its settings as that account
/// came to. If the identity of one could not be assumed, that is the answer.
pub fn get_user_data(
    users: Vec<Passwd>,
    loaded: Vec<Result<LoadedConfig, String>>,
) -> (answer: Result<Vec<UserData>, GreeterError>)
    requires
        users@.len() == loaded@.len(),
    ensures
        is_answer(answer, users@, loaded@),
{
    let mut rest = users;
    let mut outcomes = loaded;
    let mut user_datas: Vec<UserData> = Vec::new();
    while rest.len() > 0
        invariant
            users@.len() == loaded@.len(),
            rest@.len() == outcomes@.len(),
            users@.len() == user_datas@.len() + rest@.len(),
            rest@ == users@.skip(user_datas@.len() as int),
            outcomes@ == loaded@.skip(user_datas@.len() as int),
            forall|i: int|
                0 <= i < user_datas@.len() ==> (#[trigger] loaded@[i]) is Ok && known_of(
                    user_datas@[i],
                    users@[i],
                    loaded@[i]->Ok_0,
                ),
        decreases rest@.len(),
    {
        let ghost n = user_datas@.len() as int;
        proof {
            assert(outcomes@[0] == loaded@[n]);
        }
        let user = rest.remove(0);
        match outcomes.remove(0) {
            Ok(config) => {
                user_datas.push(user_data_of(user, config));
            },
            Err(message) => {
                return Err(GreeterError::RunAsUser(message));
            },
        }
    }
    Ok(user_datas)
}

// ---------------------------------------------------------------------------
// Acting as another account
// ---------------------------------------------------------------------------

/// One change of the process's identity.
#[derive(Debug, PartialEq, Eq)]
pub enum Call {
    SetHome(String),
    RemoveHome,
    InitGroups { name: String, gid: u32 },
    SetGroups(Vec<u32>),
    SetEgid(u32),
    SetEuid(u32),
}

/// As whom the process acts.
#[verifier::ext_equal]
pub struct Identity {
    pub euid: u32,
    pub egid: u32,
    pub groups: Seq<u32>,
    pub home: Option<Seq<char>>,
}

/// The supplementary groups of every account, by its name and main group.
pub type GroupDatabase = spec_fn(Seq<char>, u32) -> Seq<u32>;

impl Call {
    /// The call may be made: anyone may change the environment and go back to being the
    /// superuser, which the process really is; everything else takes the superuser.
    pub open spec fn permitted(self, at: Identity) -> bool {
        match self {
            Call::SetHome(_) | Call::RemoveHome => true,
            Call::SetEuid(uid) => at.euid == 0 || uid == 0,
            _ => at.euid == 0,
        }
    }

    /// As whom the process acts after the call.
    pub open spec fn after(self, at: Identity, database: GroupDatabase) -> Identity {
        match self {
            Call::SetHome(home) => Identity { home: Some(home@), ..at },
            Call::RemoveHome => Identity { home: None, ..at },
            Call::InitGroups { name, gid } => Identity { groups: database(name@, gid), ..at },
            Call::SetGroups(groups) => Identity { groups: groups@, ..at },
            Call::SetEgid(gid) => Identity { egid: gid, ..at },
            Call::SetEuid(uid) => Identity { euid: uid, ..at },
        }
    }
}

/// As whom the process acts after `calls`, if every one of them is permitted.
pub open spec fn after_calls(calls: Seq<Call>, at: Identity, database: GroupDatabase) -> Option<
    Identity,
>
    decreases calls.len(),
{
    if calls.len() == 0 {
        Some(at)
    } else {
        match after_calls(calls.drop_last(), at, database) {
            Some(before) => if calls.last().permitted(before) {
                Some(calls.last().after(before, database))
            } else {
                None
            },
            None => None,
        }
    }
}

/// The calls by which the superuser becomes `user`.
pub open spec fn switches_to(calls: Seq<Call>, user: Passwd) -> bool {
    &&& calls.len() == 4
    &&& calls[0] == Call::SetHome(user.dir)
    &&& calls[1] == (Call::InitGroups { name: user.name, gid: user.gid })
    &&& calls[2] == Call::SetEgid(user.gid)
    &&& calls[3] == Call::SetEuid(user.uid)
}

/// The calls by which the process becomes what it was as the superuser.
pub open spec fn restores(calls: Seq<Call>, groups: Seq<u32>, home: Option<String>) -> bool {
    &&& calls.len() == 4
    &&& calls[0] == Call::SetEuid(0)
    &&& calls[1] == Call::SetEgid(0)
    &&& calls[2] is SetGroups
    &&& calls[2]->SetGroups_0@ == groups
    &&& calls[3] == (match home {
        Some(home) => Call::SetHome(home),
        None => Call::RemoveHome,
    })
}

/// How to become an account before running something as it. The id comes last: the steps before it
/// take the superuser. A name with a zero byte in it belongs to no account.
pub fn run_as_user(user: &Passwd) -> (calls: Vec<Call>)
    requires
        !user.name@.contains('\0'),
    ensures
        switches_to(calls@, *user),
{
    let mut calls: Vec<Call> = Vec::new();
    calls.push(Call::SetHome(user.dir.clone()));
    calls.push(Call::InitGroups { name: user.name.clone(), gid: user.gid });
    calls.push(Call::SetEgid(user.gid));
    calls.push(Call::SetEuid(user.uid));
    calls
}

/// Whether an account's name can be handed to the system.
pub fn has_usable_name(user: &Passwd) -> (yes: bool)
    ensures
        yes == !user.name@.contains('\0'),
{
    !contains_char(user.name.as_str(), '\0')
}

/// How to go back to being the superuser, with the groups and the home directory from before. The
/// id comes first: the steps after it take the superuser.
pub fn restore_root(root_groups: Vec<u32>, root_home: Option<String>) -> (calls: Vec<Call>)
    ensures
        restores(calls@, root_groups@, root_home),
{
    let mut calls: Vec<Call> = Vec::new();
    calls.push(Call::SetEuid(0));
    calls.push(Call::SetEgid(0));
    calls.push(Call::SetGroups(root_groups));
    match root_home {
        Some(home) => calls.push(Call::SetHome(home)),
        None => calls.push(Call::RemoveHome),
    }
    calls
}

// ---------------------------------------------------------------------------
// Laws
// ---------------------------------------------------------------------------

/// Whatever runs between the two lists of calls runs with the account's id, groups and home, and
/// with nothing of the superuser's.
pub proof fn law_runs_as_the_user(
    calls: Seq<Call>,
    user: Passwd,
    root: Identity,
    database: GroupDatabase,
)
    requires
        switches_to(calls, user),
        root.euid == 0,
    ensures
        after_calls(calls, root, database) == Some(
            Identity {
                euid: user.uid,
                egid: user.gid,
                groups: database(user.name@, user.gid),
                home: Some(user.dir@),
            },
        ),
{
    lemma_four(calls, root, database);
}

proof fn lemma_four(calls: Seq<Call>, at: Identity, database: GroupDatabase)
    requires
        calls.len() == 4,
    ensures
        after_calls(calls, at, database) == (if !calls[0].permitted(at) {
            None
        } else {
            let one = calls[0].after(at, database);
            if !calls[1].permitted(one) {
                None
            } else {
                let two = calls[1].after(one, database);
                if !calls[2].permitted(two) {
                    None
                } else {
                    let three = calls[2].after(two, database);
                    if !calls[3].permitted(three) {
                        None
                    } else {
                        Some(calls[3].after(three, database))
                    }
                }
            }
        }),
{
    reveal_with_fuel(after_calls, 5);
    assert(calls.drop_last().drop_last().drop_last().drop_last().len() == 0);
    assert(calls.drop_last().drop_last().drop_last().last() == calls[0]);
    assert(calls.drop_last().drop_last().last() == calls[1]);
    assert(calls.drop_last().last() == calls[2]);
}

/// Wherever the switch stopped, even before its end, going back restores the superuser's id,
/// groups and home as they were.
pub proof fn law_root_is_restored(
    switch: Seq<Call>,
    done: int,
    restore: Seq<Call>,
    user: Passwd,
    root: Identity,
    home: Option<String>,
    database: GroupDatabase,
)
    requires
        switches_to(switch, user),
        0 <= done <= switch.len(),
        restores(restore, root.groups, home),
        root.euid == 0,
        root.egid == 0,
        root.home == crate::text::opt_text(home),
    ensures
        after_calls(switch.take(done), root, database) is Some,
        after_calls(restore, after_calls(switch.take(done), root, database)->0, database) == Some(
            root,
        ),
{
    reveal_with_fuel(after_calls, 5);
    let part = switch.take(done);
    assert forall|k: int| 0 <= k <= done implies after_calls(
        #[trigger] switch.take(k),
        root,
        database,
    ) is Some by {
        lemma_prefix(switch, k, user, root, database);
    }
    assert(after_calls(switch.take(done), root, database) is Some);
    lemma_four(restore, after_calls(part, root, database)->0, database);
}

proof fn lemma_prefix(
    switch: Seq<Call>,
    done: int,
    user: Passwd,
    root: Identity,
    database: GroupDatabase,
)
    requires
        switches_to(switch, user),
        0 <= done <= switch.len(),
        root.euid == 0,
    ensures
        after_calls(switch.take(done), root, database) is Some,
        done < 4 ==> after_calls(switch.take(done), root, database)->0.euid == 0,
    decreases done,
{
    if done > 0 {
        lemma_prefix(switch, done - 1, user, root, database);
        assert(switch.take(done).drop_last() == switch.take(done - 1));
        assert(switch.take(done).last() == switch[done - 1]);
    }
}

/// What the greeter writes back after a choice of layouts is never refused for its layouts: only
/// its length can be.
pub proof fn law_chosen_layouts_are_accepted(
    known: Seq<crate::keyboard::KeyboardLayout>,
    active: Seq<crate::keyboard::LayoutModel>,
    config: XkbConfig,
)
    requires
        crate::keyboard::all_nameable(known, active),
        0 < active.len() <= MAX_LAYOUTS,
        config.layout@ == crate::keyboard::layout_list(active),
        config.variant@ == crate::keyboard::variant_list(active),
        byte_len(config.rules@) <= MAX_FIELD_LEN,
        byte_len(config.model@) <= MAX_FIELD_LEN,
        byte_len(config.layout@) <= MAX_FIELD_LEN,
        byte_len(config.variant@) <= MAX_FIELD_LEN,
        config.options is Some ==> byte_len(config.options->0@) <= MAX_FIELD_LEN,
    ensures
        xkb_config_fault(config) is None,
{
    crate::keyboard::law_lists_stay_parallel(known, active);
}

}
