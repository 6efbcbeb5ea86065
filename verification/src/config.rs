//! What the greeter remembers from one login to the next.
use crate::text::{clone_opt, opt_text};
use crate::user::{Settings, UserData};
use crate::walk::{keys_of, walks};
use std::collections::HashMap;
use vstd::prelude::*;
use vstd::string::*;

verus! {

broadcast use {vstd::string::group_string_axioms, vstd::std_specs::hash::group_hash_axioms};

/// The id of an account other than the superuser's.
#[derive(Clone, Copy, Debug, PartialEq, Eq, Structural)]
pub struct NonZeroUid {
    id: u32,
}

impl View for NonZeroUid {
    type V = u32;

    closed spec fn view(&self) -> u32 {
        self.id
    }
}

impl NonZeroUid {
    #[verifier::type_invariant]
    spec fn nonzero(self) -> bool {
        self.id != 0
    }

    /// The id `uid`, unless it is zero.
    pub fn new(uid: u32) -> (id: Option<NonZeroUid>)
        ensures
            opt_uid(id) == nonzero_uid(uid),
    {
        if uid == 0 {
            None
        } else {
            Some(NonZeroUid { id: uid })
        }
    }

    /// The id as a number.
    pub fn get(&self) -> (uid: u32)
        ensures
            uid == self@,
            uid != 0,
    {
        proof {
            use_type_invariant(self);
        }
        self.id
    }
}

/// The number of an optional id.
pub open spec fn opt_uid(id: Option<NonZeroUid>) -> Option<u32> {
    match id {
        Some(id) => Some(id@),
        None => None,
    }
}

/// `uid`, unless it is zero.
pub open spec fn nonzero_uid(uid: u32) -> Option<u32> {
    if uid == 0 {
        None
    } else {
        Some(uid)
    }
}

/// What is remembered of one account.
#[derive(Debug, PartialEq, Eq)]
pub struct UserState {
    pub uid: NonZeroUid,
    pub last_session: Option<String>,
}

/// What is remembered: something of every account that logged in, by its id, and which was last.
pub struct Config {
    pub users: HashMap<u32, UserState>,
    pub last_user: Option<NonZeroUid>,
}

/// The session that is remembered for an account.
pub open spec fn last_session_of(users: Map<u32, UserState>, uid: u32) -> Option<Seq<char>> {
    if users.contains_key(uid) {
        opt_text(users[uid].last_session)
    } else {
        None
    }
}

/// An account with this id is among `user_datas`.
pub open spec fn has_uid(user_datas: Seq<UserData>, uid: u32) -> bool {
    exists|i: int| 0 <= i < user_datas.len() && (#[trigger] user_datas[i]).uid == uid
}

/// Whether an account with this id is among `user_datas`.
pub fn contains_uid(user_datas: &Vec<UserData>, uid: u32) -> (found: bool)
    ensures
        found == has_uid(user_datas@, uid),
{
    for i in 0..user_datas.len()
        invariant
            forall|j: int| 0 <= j < i ==> (#[trigger] user_datas@[j]).uid != uid,
    {
        if user_datas[i].uid == uid {
            return true;
        }
    }
    false
}

impl Config {
    /// Nothing is remembered.
    pub fn empty() -> (config: Config)
        ensures
            config.users@ == Map::<u32, UserState>::empty(),
            config.last_user is None,
    {
        Config { users: HashMap::new(), last_user: None }
    }

    /// `self` is what is remembered according to the settings, and `writable` is whether they can be
    /// written to.
    pub open spec fn is_loaded(self, writable: bool, entry: Settings<Config>) -> bool {
        match entry.found() {
            Some(config) => self == config && writable,
            None => {
                &&& self.users@ == Map::<u32, UserState>::empty()
                &&& self.last_user is None
                &&& !writable
            },
        }
    }

    /// What is remembered according to the settings, and whether they can be written to. Settings
    /// that were read in part count; without settings nothing is remembered.
    pub fn load(entry: Settings<Config>) -> (loaded: (Config, bool))
        ensures
            loaded.0.is_loaded(loaded.1, entry),
    {
        match entry.value() {
            Some(config) => (config, true),
            None => (Config::empty(), false),
        }
    }

    /// Every account that is not among `user_datas` has been forgotten.
    pub open spec fn retained(self, old: Config, user_datas: Seq<UserData>) -> bool {
        &&& self.last_user == old.last_user
        &&& self.users@ == old.users@.restrict(Set::new(|uid: u32| has_uid(user_datas, uid)))
    }

    /// Forgets every account that is not among `user_datas`.
    pub fn retain_users(&mut self, user_datas: &Vec<UserData>)
        ensures
            final(self).retained(*old(self), user_datas@),
    {
        let uids: Vec<u32> = keys_of(&self.users);
        let ghost before = self.users@;
        let ghost last = self.last_user;
        let ghost keep = Set::new(|uid: u32| has_uid(user_datas@, uid));
        for i in 0..uids.len()
            invariant
                keep == Set::new(|uid: u32| has_uid(user_datas@, uid)),
                walks(before, uids@),
                self.last_user == last,
                forall|uid: u32| #[trigger]
                    self.users@.contains_key(uid) <==> before.contains_key(uid) && (keep.contains(
                        uid,
                    ) || !uids@.take(i as int).contains(uid)),
                forall|uid: u32| #[trigger]
                    self.users@.contains_key(uid) ==> self.users@[uid] == before[uid],
        {
            let uid: u32 = uids[i];
            proof {
                let next = uids@.take(i as int + 1);
                assert(next == uids@.take(i as int).push(uid));
                assert forall|k: u32| next.contains(k) <==> uids@.take(i as int).contains(k) || k
                    == uid by {
                    if k == uid {
                        assert(next[i as int] == uid);
                    }
                    if uids@.take(i as int).contains(k) {
                        let j = uids@.take(i as int).index_of(k);
                        assert(next[j] == k);
                    }
                }
            }
            if !contains_uid(user_datas, uid) {
                self.users.remove(&uid);
            }
        }
        proof {
            assert(uids@.take(uids@.len() as int) == uids@);
            assert(self.users@ =~= before.restrict(keep));
        }
    }

    /// The session that is remembered for an account.
    pub fn last_session(&self, uid: u32) -> (session: Option<String>)
        ensures
            opt_text(session) == last_session_of(self.users@, uid),
    {
        match self.users.get(&uid) {
            Some(user) => clone_opt(&user.last_session),
            None => None,
        }
    }

    /// It has been remembered that an account logged in to a session; `changed` says whether what is
    /// remembered of the accounts themselves has changed.
    pub open spec fn remembered(
        self,
        old: Config,
        uid: NonZeroUid,
        session: String,
        changed: bool,
    ) -> bool {
        &&& self.last_user == Some(uid)
        &&& changed == (last_session_of(old.users@, uid@) != Some(session@))
        &&& !changed ==> self.users@ == old.users@
        &&& changed ==> {
            &&& self.users@ == old.users@.insert(uid@, self.users@[uid@])
            &&& self.users@[uid@].last_session == Some(session)
            &&& self.users@[uid@].uid == (if last_session_of(old.users@, uid@) is Some {
                old.users@[uid@].uid
            } else {
                uid
            })
        }
    }

    /// Remembers that an account logged in to a session. Tells whether what is remembered of the
    /// accounts themselves has changed, and needs writing.
    pub fn remember(&mut self, uid: NonZeroUid, session: &String) -> (changed: bool)
        ensures
            final(self).remembered(*old(self), uid, *session, changed),
    {
        self.last_user = Some(uid);
        let mut stored_uid = uid;
        if let Some(user) = self.users.get(&uid.get()) {
            if let Some(last_session) = &user.last_session {
                if *last_session == *session {
                    return false;
                }
                stored_uid = user.uid;
            }
        }
        let state = UserState { uid: stored_uid, last_session: Some(session.clone()) };
        self.users.insert(uid.get(), state);
        true
    }
}

// ---------------------------------------------------------------------------
// Whom to greet
// ---------------------------------------------------------------------------

/// The account whose name is in the field, and its place among the accounts that are known.
#[derive(Debug, PartialEq, Eq)]
pub struct NameIndexPair {
    pub username: String,
    pub data_idx: Option<usize>,
}

/// `idx` is the place of the first account with this name.
pub open spec fn is_position(idx: Option<usize>, user_datas: Seq<UserData>, name: Seq<char>) -> bool {
    match idx {
        Some(i) => {
            &&& i < user_datas.len()
            &&& user_datas[i as int].name@ == name
            &&& forall|j: int| 0 <= j < i ==> (#[trigger] user_datas[j]).name@ != name
        },
        None => forall|j: int| 0 <= j < user_datas.len() ==> (#[trigger] user_datas[j]).name@
            != name,
    }
}

/// The place of the first account with this name.
pub fn position(user_datas: &Vec<UserData>, name: &String) -> (idx: Option<usize>)
    ensures
        is_position(idx, user_datas@, name@),
{
    for i in 0..user_datas.len()
        invariant
            forall|j: int| 0 <= j < i ==> (#[trigger] user_datas@[j]).name@ != name@,
    {
        if user_datas[i].name == *name {
            return Some(i);
        }
    }
    None
}

impl NameIndexPair {
    /// The pair is in step with the accounts.
    pub open spec fn points_into(self, user_datas: Seq<UserData>) -> bool {
        is_position(self.data_idx, user_datas, self.username@)
    }

    /// The pair for a name.
    pub fn find(username: String, user_datas: &Vec<UserData>) -> (pair: NameIndexPair)
        ensures
            pair.username == username,
            pair.points_into(user_datas@),
    {
        let data_idx: Option<usize> = position(user_datas, &username);
        NameIndexPair { username, data_idx }
    }
}

/// The first account with this id.
pub open spec fn first_with_uid(user_datas: Seq<UserData>, uid: u32) -> Option<UserData>
    decreases user_datas.len(),
{
    if user_datas.len() == 0 {
        None
    } else if user_datas[0].uid == uid {
        Some(user_datas[0])
    } else {
        first_with_uid(user_datas.drop_first(), uid)
    }
}

/// Whom to greet, by name and id: the last user among the accounts that are known, or else as the
/// account database has it, or else the first account, or else nobody.
pub open spec fn greeted(
    last_user: Option<u32>,
    user_datas: Seq<UserData>,
    looked_up: Option<Seq<char>>,
) -> (Seq<char>, Option<u32>) {
    let first = if user_datas.len() > 0 {
        (user_datas[0].name@, nonzero_uid(user_datas[0].uid))
    } else {
        (Seq::empty(), None)
    };
    match last_user {
        Some(uid) => match first_with_uid(user_datas, uid) {
            Some(user) => (user.name@, nonzero_uid(user.uid)),
            None => match looked_up {
                Some(name) => (name, Some(uid)),
                None => first,
            },
        },
        None => first,
    }
}

fn find_uid(user_datas: &Vec<UserData>, uid: u32) -> (found: Option<usize>)
    ensures
        match found {
            Some(i) => i < user_datas@.len() && first_with_uid(user_datas@, uid) == Some(
                user_datas@[i as int],
            ),
            None => first_with_uid(user_datas@, uid) is None,
        },
{
    let mut i: usize = 0;
    proof {
        assert(user_datas@.skip(0) == user_datas@);
    }
    while i < user_datas.len()
        invariant
            i <= user_datas@.len(),
            first_with_uid(user_datas@, uid) == first_with_uid(user_datas@.skip(i as int), uid),
        decreases user_datas@.len() - i,
    {
        if user_datas[i].uid == uid {
            return Some(i);
        }
        proof {
            assert(user_datas@.skip(i as int).drop_first() == user_datas@.skip(i as int + 1));
        }
        i = i + 1;
    }
    None
}

/// Whom to greet, when the account database has `looked_up` as the name of the last user.
pub fn greeted_user(
    config: &Config,
    user_datas: &Vec<UserData>,
    looked_up: Option<String>,
) -> (user: (String, Option<NonZeroUid>))
    ensures
        (user.0@, opt_uid(user.1)) == greeted(
            opt_uid(config.last_user),
            user_datas@,
            opt_text(looked_up),
        ),
{
    if let Some(last_user) = config.last_user {
        if let Some(i) = find_uid(user_datas, last_user.get()) {
            return (user_datas[i].name.clone(), NonZeroUid::new(user_datas[i].uid));
        }
        if let Some(name) = looked_up {
            return (name, Some(last_user));
        }
    }
    if user_datas.len() > 0 {
        (user_datas[0].name.clone(), NonZeroUid::new(user_datas[0].uid))
    } else {
        (String::new(), None)
    }
}

/// `name` is what the account database has answered for an id on some occasion: the name of the
/// account, or nothing if it held none. Two answers need not be the same: this is a relation, and
/// says nothing of what the database holds.
pub uninterp spec fn is_account_name(name: Option<Seq<char>>, uid: u32) -> bool;

/// The name that the account database has for an id, through `pwd::Passwd::from_uid`. Claimed is no
/// more than that the answer is one for this id: which it is depends on what the database holds at
/// that moment.
#[verifier::external_body]
fn passwd_name(uid: u32) -> (name: Option<String>)
    ensures
        is_account_name(opt_text(name), uid),
{
    pwd::Passwd::from_uid(uid).map(|passwd| passwd.name)
}

/// The id that the account database is asked for: that of the last user, unless the accounts that
/// are known have it.
pub open spec fn unknown_last_user(last_user: Option<u32>, user_datas: Seq<UserData>) -> Option<u32> {
    match last_user {
        Some(uid) if !has_uid(user_datas, uid) => Some(uid),
        _ => None,
    }
}

/// The id that the account database is asked for. The database can hold accounts that cannot be
/// enumerated.
pub fn uid_to_look_up(config: &Config, user_datas: &Vec<UserData>) -> (uid: Option<u32>)
    ensures
        uid == unknown_last_user(opt_uid(config.last_user), user_datas@),
{
    match config.last_user {
        Some(last_user) => {
            if contains_uid(user_datas, last_user.get()) {
                None
            } else {
                Some(last_user.get())
            }
        },
        None => None,
    }
}

/// `name` is what the account database answers for the last user, where the accounts that are known
/// do not have it. Nobody is named where there is no id to ask for.
pub open spec fn is_looked_up(
    last_user: Option<u32>,
    user_datas: Seq<UserData>,
    name: Option<Seq<char>>,
) -> bool {
    match unknown_last_user(last_user, user_datas) {
        Some(uid) => is_account_name(name, uid),
        None => name is None,
    }
}

/// The name of the last user in the account database, where the accounts that are known do not
/// have it. Nobody is named where there is no id to ask for; otherwise the answer is whatever the
/// database holds under [`uid_to_look_up`], and [`greeted_user`] says what follows from each.
pub fn look_up_last_user(config: &Config, user_datas: &Vec<UserData>) -> (name: Option<String>)
    ensures
        is_looked_up(opt_uid(config.last_user), user_datas@, opt_text(name)),
{
    match uid_to_look_up(config, user_datas) {
        Some(uid) => passwd_name(uid),
        None => None,
    }
}

/// The account that the greeter starts with.
pub fn determine_selected_username(config: &Config, user_datas: &Vec<UserData>) -> (selected:
    NameIndexPair)
    ensures
        selected.points_into(user_datas@),
        exists|looked_up: Option<Seq<char>>|
            is_looked_up(opt_uid(config.last_user), user_datas@, looked_up) && selected.username@
                == (#[trigger] greeted(opt_uid(config.last_user), user_datas@, looked_up)).0,
{
    let looked_up = look_up_last_user(config, user_datas);
    let ghost name = opt_text(looked_up);
    let (username, _uid) = greeted_user(config, user_datas, looked_up);
    proof {
        assert(username@ == greeted(opt_uid(config.last_user), user_datas@, name).0);
    }
    NameIndexPair::find(username, user_datas)
}

/// The session to offer: the one that is remembered for the account, or else the first.
pub open spec fn offered_session(
    users: Map<u32, UserState>,
    uid: Option<u32>,
    session_names: Seq<Seq<char>>,
) -> Seq<char> {
    let first = if session_names.len() > 0 {
        session_names[0]
    } else {
        Seq::empty()
    };
    match uid {
        Some(uid) => match last_session_of(users, uid) {
            Some(session) => session,
            None => first,
        },
        None => first,
    }
}

/// The session to offer.
pub fn session_to_offer(
    config: &Config,
    uid: Option<NonZeroUid>,
    session_names: &Vec<String>,
) -> (session: String)
    ensures
        session@ == offered_session(
            config.users@,
            opt_uid(uid),
            crate::text::texts(session_names@),
        ),
{
    if let Some(uid) = uid {
        if let Some(session) = config.last_session(uid.get()) {
            return session;
        }
    }
    if session_names.len() > 0 {
        session_names[0].clone()
    } else {
        String::new()
    }
}

// ---------------------------------------------------------------------------
// Laws
// ---------------------------------------------------------------------------

/// Only the answer of the account database can differ between two starts: where the last user is
/// known, or there was none, it is not even asked for.
pub proof fn law_known_users_need_no_database(
    last_user: Option<u32>,
    user_datas: Seq<UserData>,
    one: Option<Seq<char>>,
    other: Option<Seq<char>>,
)
    requires
        last_user is None || has_uid(user_datas, last_user->0),
    ensures
        greeted(last_user, user_datas, one) == greeted(last_user, user_datas, other),
{
    if let Some(uid) = last_user {
        lemma_first_with_uid(user_datas, uid);
    }
}

proof fn lemma_first_with_uid(user_datas: Seq<UserData>, uid: u32)
    ensures
        first_with_uid(user_datas, uid) is Some <==> has_uid(user_datas, uid),
        first_with_uid(user_datas, uid) is Some ==> first_with_uid(user_datas, uid)->0.uid == uid,
    decreases user_datas.len(),
{
    if user_datas.len() > 0 {
        let rest = user_datas.drop_first();
        lemma_first_with_uid(rest, uid);
        if has_uid(rest, uid) {
            let i = choose|i: int| 0 <= i < rest.len() && (#[trigger] rest[i]).uid == uid;
            assert(user_datas[i + 1].uid == uid);
        }
        if has_uid(user_datas, uid) && user_datas[0].uid != uid {
            let i = choose|i: int|
                0 <= i < user_datas.len() && (#[trigger] user_datas[i]).uid == uid;
            assert(rest[i - 1].uid == uid);
        }
    }
}

/// The greeter comes back to whoever logged in last, and to the session that they chose: after
/// [`Config::remember`], the next start greets that account, as long as it is still known.
pub proof fn law_last_login_comes_back(
    users: Map<u32, UserState>,
    uid: u32,
    session: Seq<char>,
    user_datas: Seq<UserData>,
    session_names: Seq<Seq<char>>,
)
    requires
        uid != 0,
        has_uid(user_datas, uid),
        last_session_of(users, uid) == Some(session),
    ensures
        greeted(Some(uid), user_datas, None).1 == Some(uid),
        exists|i: int|
            0 <= i < user_datas.len() && (#[trigger] user_datas[i]).uid == uid
                && user_datas[i].name@ == greeted(Some(uid), user_datas, None).0,
        offered_session(users, greeted(Some(uid), user_datas, None).1, session_names) == session,
{
    lemma_first_with_uid(user_datas, uid);
    lemma_first_is_member(user_datas, uid);
}

proof fn lemma_first_is_member(user_datas: Seq<UserData>, uid: u32)
    requires
        has_uid(user_datas, uid),
    ensures
        exists|i: int|
            0 <= i < user_datas.len() && (#[trigger] user_datas[i]).uid == uid && Some(
                user_datas[i],
            ) == first_with_uid(user_datas, uid),
    decreases user_datas.len(),
{
    if user_datas[0].uid != uid {
        let rest = user_datas.drop_first();
        lemma_first_with_uid(user_datas, uid);
        lemma_first_with_uid(rest, uid);
        lemma_first_is_member(rest, uid);
        let i = choose|i: int|
            0 <= i < rest.len() && (#[trigger] rest[i]).uid == uid && Some(rest[i])
                == first_with_uid(rest, uid);
        assert(user_datas[i + 1] == rest[i]);
    }
}

/// Forgetting accounts that are gone keeps everything that is remembered of the others.
pub proof fn law_retained_users_keep_their_session(
    users: Map<u32, UserState>,
    user_datas: Seq<UserData>,
    uid: u32,
)
    ensures
        last_session_of(
            users.restrict(Set::new(|uid: u32| has_uid(user_datas, uid))),
            uid,
        ) == (if has_uid(user_datas, uid) {
            last_session_of(users, uid)
        } else {
            None
        }),
{
}

}
