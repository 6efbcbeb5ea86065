//! What holds of the privileged service, of what is remembered of the accounts, and of how displays
//! are arranged.
use crate::config::{
    first_with_uid, greeted, last_session_of, nonzero_uid, offered_session, unknown_last_user, Config,
    NonZeroUid, UserState,
};
use crate::daemon::{
    after_calls, is_account, is_answer, is_found, is_order, payload_fault, quoted, restores,
    switches_to, unknown, write_fault, xkb_config_fault, Call, Fault, GreeterError, GroupDatabase,
    Identity,
};
use crate::displays::{fits, has_display, is_readable, unmarked, Arrangement, Display};
use crate::keyboard::XkbConfig;
use crate::nesting::{is_light, scanned, Scan};
use crate::text::{byte_len, decimal, opt_text, split};
use crate::user::{is_login_user, LoadedConfig, Passwd, Settings, UserData};
use vstd::prelude::*;

verus! {

// ---------------------------------------------------------------------------
// Keyboard settings
// ---------------------------------------------------------------------------

/// How often a character occurs.
pub open spec fn count(s: Seq<char>, c: char) -> nat {
    s.filter(|d: char| d == c).len()
}

proof fn lemma_count_pieces(s: Seq<char>, sep: char)
    ensures
        split(s, sep).len() == count(s, sep) + 1,
    decreases s.len(),
{
    reveal(Seq::filter);
    if s.len() > 0 {
        lemma_count_pieces(s.drop_last(), sep);
        crate::text::lemma_split_nonempty(s.drop_last(), sep);
    }
}

/// Keyboard settings are accepted if and only if there is a layout, there are as many variants as
/// layouts, at most 64 of them, and no field has more than 4096 bytes. Lists are counted by their
/// commas.
pub proof fn law_sound_settings_are_accepted(config: XkbConfig)
    ensures
        xkb_config_fault(config) is None <==> {
            &&& config.layout@.len() > 0
            &&& count(config.layout@, ',') == count(config.variant@, ',')
            &&& count(config.layout@, ',') < 64
            &&& byte_len(config.rules@) <= 4096
            &&& byte_len(config.model@) <= 4096
            &&& byte_len(config.layout@) <= 4096
            &&& byte_len(config.variant@) <= 4096
            &&& config.options is Some ==> byte_len(config.options->0@) <= 4096
        },
        xkb_config_fault(config) is Some ==> xkb_config_fault(config)->0 is InvalidXkbConfig,
{
    lemma_count_pieces(config.layout@, ',');
    lemma_count_pieces(config.variant@, ',');
}

/// The settings are refused with this complaint.
pub open spec fn complains(config: XkbConfig, message: Seq<char>) -> bool {
    xkb_config_fault(config) == Some(Fault::InvalidXkbConfig(message))
}

/// What is complained of is what is wrong: first that there is no layout, second that the lists do
/// not go together, third that they are too long; and then the first field that is too long, with its
/// length.
pub proof fn law_complaints_name_what_is_wrong(config: XkbConfig)
    ensures
        ({
            let layouts = count(config.layout@, ',') + 1;
            let variants = count(config.variant@, ',') + 1;
            let sound = config.layout@.len() > 0 && layouts == variants && layouts <= 64;
            let rules = byte_len(config.rules@);
            let model = byte_len(config.model@);
            let layout = byte_len(config.layout@);
            let variant = byte_len(config.variant@);
            &&& config.layout@.len() == 0 ==> complains(config, "empty layout"@)
            &&& config.layout@.len() > 0 && layouts != variants ==> complains(
                config,
                "layout/variant count mismatch ("@ + decimal(layouts) + " vs "@ + decimal(variants)
                    + ")"@,
            )
            &&& config.layout@.len() > 0 && layouts == variants && layouts > 64 ==> complains(
                config,
                "too many layouts ("@ + decimal(layouts) + ")"@,
            )
            &&& sound && rules > 4096 ==> complains(
                config,
                "rules"@ + " too long ("@ + decimal(rules) + " bytes)"@,
            )
            &&& sound && rules <= 4096 && model > 4096 ==> complains(
                config,
                "model"@ + " too long ("@ + decimal(model) + " bytes)"@,
            )
            &&& sound && rules <= 4096 && model <= 4096 && layout > 4096 ==> complains(
                config,
                "layout"@ + " too long ("@ + decimal(layout) + " bytes)"@,
            )
            &&& sound && rules <= 4096 && model <= 4096 && layout <= 4096 && variant > 4096
                ==> complains(
                config,
                "variant"@ + " too long ("@ + decimal(variant) + " bytes)"@,
            )
            &&& sound && rules <= 4096 && model <= 4096 && layout <= 4096 && variant <= 4096
                && config.options is Some && byte_len(config.options->0@) > 4096 ==> complains(
                config,
                "options"@ + " too long ("@ + decimal(byte_len(config.options->0@)) + " bytes)"@,
            )
        }),
{
    lemma_count_pieces(config.layout@, ',');
    lemma_count_pieces(config.variant@, ',');
}

/// A request is read if and only if it has no more than 65536 bytes.
pub proof fn law_long_requests_are_refused(payload: Seq<char>)
    ensures
        payload_fault(payload) is None <==> byte_len(payload) <= 65536,
        payload_fault(payload) is Some ==> payload_fault(payload)->0 == Fault::InvalidXkbConfig(
            "payload too large ("@ + decimal(byte_len(payload)) + " bytes)"@,
        ),
{
}

/// The account that a request names is one that can log in and has that name; and it is unknown only
/// where there is no such account.
pub proof fn law_requests_name_login_accounts(users: Seq<Passwd>, name: Seq<char>, i: int, j: int)
    requires
        0 <= j < users.len(),
        is_login_user(users[j]),
        users[j].name@ == name,
    ensures
        !unknown(users, name),
        is_account(users, name, i) ==> i <= j && is_login_user(users[i]) && users[i].name@ == name,
{
}

// ---------------------------------------------------------------------------
// Acting as another account
// ---------------------------------------------------------------------------

proof fn lemma_one_call(call: Call, at: Identity, database: GroupDatabase)
    ensures
        after_calls(seq![call], at, database) == (if call.permitted(at) {
            Some(call.after(at, database))
        } else {
            None
        }),
{
    let calls = seq![call];
    assert(calls.drop_last().len() == 0);
    assert(calls.last() == call);
    reveal_with_fuel(after_calls, 2);
}

/// Only the superuser can become somebody else; anybody can go back to being the superuser. Groups
/// are for the superuser alone, and the environment is for everybody.
pub proof fn law_calls_take_their_rights(at: Identity, database: GroupDatabase, uid: u32, gid: u32)
    ensures
        after_calls(seq![Call::SetEuid(uid)], at, database) is Some <==> at.euid == 0 || uid == 0,
        after_calls(seq![Call::SetEgid(gid)], at, database) is Some <==> at.euid == 0,
        after_calls(seq![Call::RemoveHome], at, database) is Some,
        after_calls(seq![Call::SetEuid(uid)], at, database) is Some ==> after_calls(
            seq![Call::SetEuid(uid)],
            at,
            database,
        )->0 == (Identity { euid: uid, ..at }),
        at.euid == 0 ==> after_calls(seq![Call::SetEgid(gid)], at, database) == Some(
            (Identity { egid: gid, ..at }),
        ),
        after_calls(seq![Call::RemoveHome], at, database) == Some((Identity { home: None, ..at })),
{
    lemma_one_call(Call::SetEuid(uid), at, database);
    lemma_one_call(Call::SetEgid(gid), at, database);
    lemma_one_call(Call::RemoveHome, at, database);
}

/// Calls are made one after another.
pub proof fn law_calls_are_made_in_order(
    first: Seq<Call>,
    second: Seq<Call>,
    at: Identity,
    database: GroupDatabase,
)
    ensures
        after_calls(first + second, at, database) == (match after_calls(first, at, database) {
            Some(between) => after_calls(second, between, database),
            None => None,
        }),
    decreases second.len(),
{
    if second.len() == 0 {
        assert(first + second == first);
    } else {
        law_calls_are_made_in_order(first, second.drop_last(), at, database);
        assert((first + second).drop_last() == first + second.drop_last());
        assert((first + second).last() == second.last());
    }
}

/// Becoming an account takes its home, its groups, its main group, and its id last; going back takes
/// the id first.
pub proof fn law_the_id_goes_last_and_comes_first(
    switch: Seq<Call>,
    user: Passwd,
    restore: Seq<Call>,
    groups: Seq<u32>,
    home: Option<String>,
)
    requires
        switches_to(switch, user),
        restores(restore, groups, home),
    ensures
        switch.last() == Call::SetEuid(user.uid),
        switch.contains(Call::SetHome(user.dir)),
        switch.contains(Call::SetEgid(user.gid)),
        forall|i: int|
            0 <= i < switch.len() - 1 ==> !((#[trigger] switch[i]) is SetEuid),
        restore.first() == Call::SetEuid(0),
        restore.contains(Call::SetEgid(0)),
        home is Some ==> restore.contains(Call::SetHome(home->0)),
        home is None ==> restore.contains(Call::RemoveHome),
{
    assert(switch.contains(switch[0]) && switch.contains(switch[2]));
    assert(restore.contains(restore[1]) && restore.contains(restore[3]));
}

// ---------------------------------------------------------------------------
// What is remembered
// ---------------------------------------------------------------------------

/// The account at `i` is the first with an id.
pub open spec fn is_first_with_uid(user_datas: Seq<UserData>, i: int, uid: u32) -> bool {
    &&& 0 <= i < user_datas.len()
    &&& user_datas[i].uid == uid
    &&& forall|j: int| 0 <= j < i ==> (#[trigger] user_datas[j]).uid != uid
}

/// No account has an id.
pub open spec fn nobody_has(user_datas: Seq<UserData>, uid: u32) -> bool {
    forall|j: int| 0 <= j < user_datas.len() ==> (#[trigger] user_datas[j]).uid != uid
}

proof fn lemma_first_with_uid(user_datas: Seq<UserData>, i: int, uid: u32)
    ensures
        is_first_with_uid(user_datas, i, uid) ==> first_with_uid(user_datas, uid) == Some(
            user_datas[i],
        ),
        nobody_has(user_datas, uid) ==> first_with_uid(user_datas, uid) is None,
    decreases user_datas.len(),
{
    if user_datas.len() > 0 {
        let rest = user_datas.drop_first();
        lemma_first_with_uid(rest, i - 1, uid);
        if is_first_with_uid(user_datas, i, uid) && i > 0 {
            assert(user_datas[0].uid != uid);
            assert forall|j: int| 0 <= j < i - 1 implies (#[trigger] rest[j]).uid != uid by {
                assert(rest[j] == user_datas[j + 1]);
            }
            assert(rest[i - 1] == user_datas[i]);
            assert(is_first_with_uid(rest, i - 1, uid));
        }
        if nobody_has(user_datas, uid) {
            assert(user_datas[0].uid != uid);
            assert forall|j: int| 0 <= j < rest.len() implies (#[trigger] rest[j]).uid != uid by {
                assert(rest[j] == user_datas[j + 1]);
            }
        }
    }
}

/// Whoever logged in last is greeted, by the name that their account has, if it is known. Otherwise
/// the account database can tell the name; and where nobody logged in, or nobody knows them, the first
/// account is greeted, or nobody.
pub proof fn law_the_last_user_is_greeted(
    last: Option<u32>,
    user_datas: Seq<UserData>,
    looked_up: Option<Seq<char>>,
    i: int,
)
    ensures
        last is Some && is_first_with_uid(user_datas, i, last->0) ==> greeted(
            last,
            user_datas,
            looked_up,
        ).0 == user_datas[i].name@ && (last->0 != 0 ==> greeted(last, user_datas, looked_up).1
            == last),
        last is Some && nobody_has(user_datas, last->0) && looked_up is Some ==> greeted(
            last,
            user_datas,
            looked_up,
        ) == (looked_up->0, last),
        (last is None || (nobody_has(user_datas, last->0) && looked_up is None))
            && user_datas.len() > 0 ==> greeted(last, user_datas, looked_up).0
            == user_datas[0].name@,
        (last is None || (nobody_has(user_datas, last->0) && looked_up is None))
            && user_datas.len() == 0 ==> greeted(last, user_datas, looked_up).0.len() == 0
            && greeted(last, user_datas, looked_up).1 is None,
{
    if last is Some {
        lemma_first_with_uid(user_datas, i, last->0);
    }
}

/// The account database is asked for whoever logged in last and is not among the accounts that are
/// known, and for nobody else.
pub proof fn law_the_database_is_asked_for_strangers(
    last: Option<u32>,
    user_datas: Seq<UserData>,
    i: int,
)
    ensures
        last is None ==> unknown_last_user(last, user_datas) is None,
        last is Some && nobody_has(user_datas, last->0) ==> unknown_last_user(last, user_datas)
            == last,
        last is Some && 0 <= i < user_datas.len() && user_datas[i].uid == last->0
            ==> unknown_last_user(last, user_datas) is None,
{
    if last is Some && crate::config::has_uid(user_datas, last->0) {
        let k = choose|k: int|
            0 <= k < user_datas.len() && (#[trigger] user_datas[k]).uid == last->0;
        assert(user_datas[k].uid == last->0);
    }
}

/// The session that is offered is the one that is remembered for the account, or else the first.
pub proof fn law_the_remembered_session_is_offered(
    users: Map<u32, UserState>,
    uid: u32,
    names: Seq<Seq<char>>,
)
    ensures
        users.contains_key(uid) && users[uid].last_session is Some ==> offered_session(
            users,
            Some(uid),
            names,
        ) == users[uid].last_session->0@,
        (!users.contains_key(uid) || users[uid].last_session is None) && names.len() > 0
            ==> offered_session(users, Some(uid), names) == names[0],
        names.len() > 0 ==> offered_session(users, None, names) == names[0],
        names.len() == 0 ==> offered_session(users, None, names).len() == 0,
        last_session_of(users, uid) is Some <==> users.contains_key(uid)
            && users[uid].last_session is Some,
        nonzero_uid(uid) is None <==> uid == 0,
        nonzero_uid(uid) is Some ==> nonzero_uid(uid)->0 == uid,
{
}

// ---------------------------------------------------------------------------
// Displays
// ---------------------------------------------------------------------------

/// Two displays have the same name, maker and model.
pub open spec fn look_alike(a: Display, b: Display) -> bool {
    a.name@ == b.name@ && a.model@ == b.model@ && opt_text(a.make) == opt_text(b.make)
}

/// A display that looks like this one is in a list.
pub open spec fn is_among(displays: Seq<Display>, display: Display) -> bool {
    exists|k: int| 0 <= k < displays.len() && #[trigger] look_alike(displays[k], display)
}

proof fn lemma_is_among(displays: Seq<Display>, display: Display)
    ensures
        has_display(displays, display) == is_among(displays, display),
{
    if has_display(displays, display) {
        let k = choose|k: int|
            0 <= k < displays.len() && crate::displays::same_display(
                #[trigger] displays[k],
                display,
            );
        assert(look_alike(displays[k], display));
    }
    if is_among(displays, display) {
        let k = choose|k: int| 0 <= k < displays.len() && #[trigger] look_alike(
            displays[k],
            display,
        );
        assert(crate::displays::same_display(displays[k], display));
    }
}

/// An arrangement fits if and only if it can be read, is for as many displays as are connected, and
/// has every one of these, by its name, maker and model.
pub proof fn law_fitting_arrangements_have_every_display(
    arrangement: Arrangement,
    connected: Seq<Display>,
)
    ensures
        fits(arrangement, connected) <==> {
            &&& is_readable(arrangement.document@)
            &&& arrangement.displays@.len() == connected.len()
            &&& forall|i: int|
                0 <= i < connected.len() ==> is_among(
                    arrangement.displays@,
                    #[trigger] connected[i],
                )
        },
{
    let displays = arrangement.displays@;
    assert forall|i: int| 0 <= i < connected.len() implies has_display(
        displays,
        #[trigger] connected[i],
    ) == is_among(displays, connected[i]) by {
        lemma_is_among(displays, connected[i]);
    }
    if fits(arrangement, connected) {
        assert forall|i: int| 0 <= i < connected.len() implies is_among(
            displays,
            #[trigger] connected[i],
        ) by {
            assert(has_display(displays, connected[i]));
        }
    }
}

/// It does not matter in which order the displays are told.
pub proof fn law_the_order_of_displays_does_not_matter(
    arrangement: Arrangement,
    one: Seq<Display>,
    other: Seq<Display>,
)
    requires
        one.len() == other.len(),
        forall|i: int| 0 <= i < other.len() ==> one.contains(#[trigger] other[i]),
        fits(arrangement, one),
    ensures
        fits(arrangement, other),
{
    assert forall|i: int| 0 <= i < other.len() implies has_display(
        arrangement.displays@,
        #[trigger] other[i],
    ) by {
        let k = choose|k: int| 0 <= k < one.len() && one[k] == other[i];
        assert(has_display(arrangement.displays@, one[k]));
    }
}

/// A request went well only if the identity could be assumed and the write went through; otherwise
/// the answer says what failed, word for word.
pub proof fn law_failed_writes_are_told(message: String)
    ensures
        write_fault(Ok(Ok(()))) is None,
        write_fault(Ok(Err(message))) == Some(Fault::RunAsUser(message@)),
        write_fault(Err(message)) == Some(Fault::RunAsUser(message@)),
{
}

// ---------------------------------------------------------------------------
// Documents
// ---------------------------------------------------------------------------

/// Nothing but blocks weighs: no comment and no raw string was begun, and every brace weighs twelve at
/// most.
spec fn weighs_by_braces(scan: Scan, braces: nat) -> bool {
    &&& !(scan.mode is Slash || scan.mode is LineComment || scan.mode is Comment || scan.mode is Hash
        || scan.mode is RawQuote || scan.mode is TwoRawQuotes || scan.mode is ThreeRawQuotes
        || scan.mode is Raw || scan.mode is RawEnd)
    &&& !scan.dashed
    &&& scan.pieces == 0 && scan.nested == 0 && scan.hashes == 0 && scan.ended == 0
    &&& scan.fixed + scan.held + 12 * scan.depth <= 12 * braces
}

proof fn lemma_one_more(scan: Scan, braces: nat, c: char)
    requires
        weighs_by_braces(scan, braces),
        braces <= 1000,
        c != '/' && c != '*' && c != '#',
    ensures
        weighs_by_braces(
            scan.next(c),
            if c == '{' {
                braces + 1
            } else {
                braces
            },
        ),
{
    reveal(Scan::next);
}

proof fn lemma_weighs_by_braces(text: Seq<char>)
    requires
        !text.contains('/') && !text.contains('*') && !text.contains('#'),
        count(text, '{') <= 42,
    ensures
        weighs_by_braces(scanned(text), count(text, '{')),
    decreases text.len(),
{
    reveal(Seq::filter);
    if text.len() > 0 {
        let less = text.drop_last();
        assert(text.contains(text[text.len() - 1]));
        assert forall|c: char| less.contains(c) implies text.contains(c) by {
            let k = choose|k: int| 0 <= k < less.len() && less[k] == c;
            assert(text[k] == c);
        }
        lemma_weighs_by_braces(less);
        lemma_one_more(scanned(less), count(less, '{'), text.last());
    }
}

/// However long a document is, it is light enough to be parsed as long as it opens no more than 42
/// blocks and has neither comments nor raw strings.
pub proof fn law_plain_documents_are_light(text: Seq<char>)
    requires
        !text.contains('/') && !text.contains('*') && !text.contains('#'),
        count(text, '{') <= 42,
    ensures
        is_light(text),
{
    assert forall|n: int| 0 <= n <= text.len() implies #[trigger] scanned(text.take(n)).weight()
        <= 512 by {
        let part = text.take(n);
        assert forall|c: char| part.contains(c) implies text.contains(c) by {
            let k = choose|k: int| 0 <= k < part.len() && part[k] == c;
            assert(text[k] == c);
        }
        let is_brace = |d: char| d == '{';
        Seq::filter_distributes_over_add(part, text.skip(n), is_brace);
        assert(part + text.skip(n) == text);
        lemma_weighs_by_braces(part);
    }
    lemma_weighs_by_braces(text);
}

/// A document is read with a byte order mark before it as it is read without one.
pub proof fn law_a_byte_order_mark_does_not_weigh(document: Seq<char>)
    requires
        document.len() > 0,
        document[0] != '\u{feff}',
    ensures
        unmarked(seq!['\u{feff}'] + document) == document,
        unmarked(document) == document,
{
    assert((seq!['\u{feff}'] + document).drop_first() == document);
}

// ---------------------------------------------------------------------------
// Requests
// ---------------------------------------------------------------------------

/// Nothing is written but what was read from a request that is short enough and sound, and it is
/// written for an account that can log in and has the name of the request.
pub proof fn law_only_sound_requests_are_written(
    order: Result<(usize, XkbConfig), GreeterError>,
    users: Seq<Passwd>,
    username: Seq<char>,
    payload: Seq<char>,
    read: Result<XkbConfig, String>,
)
    requires
        is_order(order, users, username, payload, read),
    ensures
        order is Ok <==> {
            &&& byte_len(payload) <= 65536
            &&& read is Ok
            &&& xkb_config_fault(read->Ok_0) is None
            &&& !unknown(users, username)
        },
        order is Ok ==> {
            let i = order->Ok_0.0 as int;
            &&& order->Ok_0.1 == read->Ok_0
            &&& 0 <= i < users.len()
            &&& is_login_user(users[i])
            &&& users[i].name@ == username
        },
        byte_len(payload) <= 65536 && read is Err ==> order is Err && order->Err_0@ == Fault::Ron(
            read->Err_0@,
        ),
        order is Err && byte_len(payload) <= 65536 && read is Ok && xkb_config_fault(
            read->Ok_0,
        ) is None ==> order->Err_0@ == Fault::UnknownUser("unknown user "@ + quoted(username)),
{
    if order is Ok {
        let i = order->Ok_0.0 as int;
        assert(is_login_user(users[i]) && users[i].name@ == username);
    }
}

/// An account is found if there is one of that name that can log in, and it is the first.
pub proof fn law_named_accounts_are_found(
    found: Result<usize, GreeterError>,
    users: Seq<Passwd>,
    username: Seq<char>,
    j: int,
)
    requires
        is_found(found, users, username),
        0 <= j < users.len(),
        is_login_user(users[j]),
        users[j].name@ == username,
    ensures
        found is Ok,
        found->Ok_0 <= j,
        users[found->Ok_0 as int].name@ == username,
        is_login_user(users[found->Ok_0 as int]),
{
}

/// The service answers for every account, in order, what was read of it; unless one could not be
/// read as that account, and the first such is told.
pub proof fn law_every_account_is_answered_for(
    answer: Result<Vec<UserData>, GreeterError>,
    users: Seq<Passwd>,
    loaded: Seq<Result<LoadedConfig, String>>,
    i: int,
)
    requires
        is_answer(answer, users, loaded),
        users.len() == loaded.len(),
        0 <= i < users.len(),
    ensures
        answer is Ok ==> loaded[i] is Ok && answer->Ok_0@.len() == users.len()
            && answer->Ok_0@[i].uid == users[i].uid && answer->Ok_0@[i].name == users[i].name
            && answer->Ok_0@[i].icon_opt == loaded[i]->Ok_0.icon,
        loaded[i] is Err ==> answer is Err,
        loaded[i] is Err && (forall|j: int| 0 <= j < i ==> (#[trigger] loaded[j]) is Ok)
            ==> answer->Err_0@ == Fault::RunAsUser(loaded[i]->Err_0@),
        (forall|j: int| 0 <= j < loaded.len() ==> (#[trigger] loaded[j]) is Ok) ==> answer is Ok,
{
    if let Err(err) = answer {
        let k = choose|k: int|
            0 <= k < loaded.len() && (#[trigger] loaded[k]) is Err && err@ == Fault::RunAsUser(
                loaded[k]->Err_0@,
            ) && forall|j: int| 0 <= j < k ==> (#[trigger] loaded[j]) is Ok;
        assert(loaded[k] is Err);
        if loaded[i] is Err && (forall|j: int| 0 <= j < i ==> (#[trigger] loaded[j]) is Ok) {
            assert(k == i);
        }
    }
}

/// What is remembered is what the settings hold, also where only a part of them could be read; and it
/// can be written to exactly where they could be opened.
pub proof fn law_settings_are_remembered(config: Config, writable: bool, entry: Settings<Config>)
    requires
        config.is_loaded(writable, entry),
    ensures
        entry is Loaded ==> config == entry->Loaded_0,
        entry is Partial ==> config == entry->Partial_0,
        entry is Unavailable ==> config.last_user is None && config.users@.dom() == Set::<u32>::empty(),
        writable <==> !(entry is Unavailable),
{
}

/// An account is forgotten if and only if it is gone; of the others everything stays.
pub proof fn law_only_lost_accounts_are_forgotten(
    old: Config,
    new: Config,
    user_datas: Seq<UserData>,
    uid: u32,
    i: int,
)
    requires
        new.retained(old, user_datas),
    ensures
        new.last_user == old.last_user,
        old.users@.contains_key(uid) && 0 <= i < user_datas.len() && user_datas[i].uid == uid
            ==> new.users@.contains_key(uid) && new.users@[uid] == old.users@[uid],
        nobody_has(user_datas, uid) ==> !new.users@.contains_key(uid),
        new.users@.contains_key(uid) ==> old.users@.contains_key(uid),
{
    if nobody_has(user_datas, uid) && crate::config::has_uid(user_datas, uid) {
        let k = choose|k: int| 0 <= k < user_datas.len() && (#[trigger] user_datas[k]).uid == uid;
        assert(user_datas[k].uid != uid);
    }
    if 0 <= i < user_datas.len() && user_datas[i].uid == uid {
        assert(crate::config::has_uid(user_datas, uid));
    }
}

/// A login is remembered with its session, and as the last one; what is remembered of others stays.
/// Writing is needed exactly where another session was remembered, or none.
pub proof fn law_a_login_is_remembered(
    old: Config,
    new: Config,
    uid: NonZeroUid,
    session: String,
    changed: bool,
    other: u32,
)
    requires
        new.remembered(old, uid, session, changed),
        other != uid@,
    ensures
        new.last_user == Some(uid),
        new.users@.contains_key(uid@),
        new.users@[uid@].last_session is Some,
        new.users@[uid@].last_session->0@ == session@,
        new.users@.contains_key(other) <==> old.users@.contains_key(other),
        old.users@.contains_key(other) ==> new.users@[other] == old.users@[other],
        !changed <==> old.users@.contains_key(uid@) && old.users@[uid@].last_session is Some
            && old.users@[uid@].last_session->0@ == session@,
{
}

}
