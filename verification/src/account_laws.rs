//! What the greeter learns of every account.
use crate::daemon::known_of;
use crate::text::split;
use crate::text_laws::{is_first_piece, law_first_piece_ends_at_the_separator};
use crate::user::{
    contents_of, file_name, is_login_user, known_from, loaded_wallpaper,
    loaded_wallpapers, login_users_of, read_files, same_bytes, same_files, same_wallpapers,
    LoadedConfig, Passwd, Settings, Source, UserData, WallpaperData,
};
use vstd::prelude::*;

verus! {

/// Something was read, completely or in part, and `value` is that; or nothing could be opened, and
/// there is no value.
pub open spec fn is_what_was_read<T>(value: Option<T>, settings: Settings<T>) -> bool {
    match value {
        Some(value) => settings == Settings::Loaded(value) || settings == Settings::Partial(value),
        None => settings is Unavailable,
    }
}

/// What the service answers of an account holds exactly what was read of its settings: the picture,
/// the theme, the keyboard settings and the clock; and the full name is the comment of the database
/// entry up to the first comma.
pub proof fn law_the_answer_holds_what_was_read(
    user_data: UserData,
    user: Passwd,
    loaded: LoadedConfig,
)
    requires
        known_of(user_data, user, loaded),
    ensures
        user_data.uid == user.uid,
        user_data.name == user.name,
        user_data.icon_opt == loaded.icon,
        is_what_was_read(user_data.theme_opt, loaded.theme),
        is_what_was_read(user_data.xkb_config_opt, loaded.xkb_config),
        user_data.clock_military_time_opt == loaded.military_time,
        user_data.full_name_opt is Some <==> user.gecos is Some,
        user.gecos is Some ==> is_first_piece(user_data.full_name_opt->0@, user.gecos->0@, ','),
        user_data.wallpapers_opt is Some <==> !(loaded.background is Unavailable),
        loaded.background is Loaded ==> user_data.bg_state == loaded.background->Loaded_0,
        loaded.background is Partial ==> user_data.bg_state == loaded.background->Partial_0,
        loaded.background is Unavailable ==> user_data.bg_state.wallpapers@.len() == 0
            && user_data.bg_path_data@.len() == 0,
{
    if let Some(gecos) = user.gecos {
        law_first_piece_ends_at_the_separator(gecos@, ',');
    }
}

/// What is known of an account that nothing was read of comes from its database entry alone.
pub proof fn law_the_database_tells_the_name(user_data: UserData, user: Passwd)
    requires
        known_from(user_data, user),
    ensures
        user_data.uid == user.uid,
        user_data.name == user.name,
        user_data.full_name_opt is Some <==> user.gecos is Some,
        user.gecos is Some ==> is_first_piece(user_data.full_name_opt->0@, user.gecos->0@, ','),
        user_data.icon_opt is None && user_data.theme_opt is None && user_data.wallpapers_opt is None
            && user_data.xkb_config_opt is None && user_data.clock_military_time_opt is None,
{
    if let Some(gecos) = user.gecos {
        law_first_piece_ends_at_the_separator(gecos@, ',');
    }
}

// ---------------------------------------------------------------------------
// Wallpapers
// ---------------------------------------------------------------------------

/// A background could be loaded: it is a colour, or its file was read.
pub open spec fn could_be_loaded(source: Source, contents: Seq<Option<Vec<u8>>>, i: int) -> bool {
    source is Color || (i < contents.len() && contents[i] is Some)
}

/// `shown` is what background `i` of a list shows: its colour, or the bytes of its file.
pub open spec fn shows_background(
    shown: (String, WallpaperData),
    backgrounds: Seq<(String, Source)>,
    contents: Seq<Option<Vec<u8>>>,
    i: int,
) -> bool {
    &&& 0 <= i < backgrounds.len()
    &&& shown.0 == backgrounds[i].0
    &&& match backgrounds[i].1 {
        Source::Color(color) => shown.1 == WallpaperData::Color(color),
        Source::Path(_) => i < contents.len() && contents[i] is Some && shown.1 is Bytes
            && shown.1->Bytes_0@ == contents[i]->0@,
    }
}

/// `shown` are the backgrounds at the places `from`, in their order, and these are all that could be
/// loaded.
pub open spec fn shows_all(
    shown: Seq<(String, WallpaperData)>,
    backgrounds: Seq<(String, Source)>,
    contents: Seq<Option<Vec<u8>>>,
    from: Seq<int>,
) -> bool {
    &&& from.len() == shown.len()
    &&& forall|k: int|
        0 <= k < from.len() ==> shows_background(
            shown[k],
            backgrounds,
            contents,
            #[trigger] from[k],
        )
    &&& forall|j: int, k: int| 0 <= j < k < from.len() ==> #[trigger] from[j] < #[trigger] from[k]
    &&& forall|i: int|
        0 <= i < backgrounds.len() && could_be_loaded(
            (#[trigger] backgrounds[i]).1,
            contents,
            i,
        ) ==> from.contains(i)
}

proof fn lemma_shows_all(
    shown: Seq<(String, WallpaperData)>,
    backgrounds: Seq<(String, Source)>,
    contents: Seq<Option<Vec<u8>>>,
) -> (from: Seq<int>)
    requires
        same_wallpapers(shown, loaded_wallpapers(backgrounds, contents)),
    ensures
        shows_all(shown, backgrounds, contents, from),
    decreases backgrounds.len(),
{
    if backgrounds.len() == 0 {
        Seq::empty()
    } else {
        let less = backgrounds.drop_last();
        let last = backgrounds.len() - 1;
        let before = loaded_wallpapers(less, contents);
        let all = loaded_wallpapers(backgrounds, contents);
        if loaded_wallpaper(backgrounds.last(), contents_of(contents, last)) is Some {
            let part = shown.drop_last();
            assert forall|i: int| 0 <= i < part.len() implies (#[trigger] part[i]).0 == before[i].0
                && same_bytes(part[i].1, before[i].1) by {
                assert(shown[i].0 == all[i].0);
            }
            let from = lemma_shows_all(part, less, contents);
            let out = from.push(last);
            assert(shown[shown.len() - 1].0 == all[all.len() - 1].0);
            assert forall|k: int| 0 <= k < out.len() implies shows_background(
                shown[k],
                backgrounds,
                contents,
                #[trigger] out[k],
            ) by {
                if k < from.len() {
                    assert(shows_background(part[k], less, contents, from[k]));
                    assert(less[from[k]] == backgrounds[from[k]]);
                }
            }
            assert forall|j: int, k: int| 0 <= j < k < out.len() implies #[trigger] out[j]
                < #[trigger] out[k] by {
                if k < from.len() {
                    assert(from[j] < from[k]);
                } else {
                    assert(shows_background(part[j], less, contents, from[j]));
                }
            }
            assert forall|i: int|
                0 <= i < backgrounds.len() && could_be_loaded(
                    (#[trigger] backgrounds[i]).1,
                    contents,
                    i,
                ) implies out.contains(i) by {
                if i < last {
                    assert(less[i] == backgrounds[i]);
                    assert(from.contains(i));
                    let k = choose|k: int| 0 <= k < from.len() && from[k] == i;
                    assert(out[k] == i);
                } else {
                    assert(out[from.len() as int] == i);
                }
            }
            out
        } else {
            let from = lemma_shows_all(shown, less, contents);
            assert forall|k: int| 0 <= k < from.len() implies shows_background(
                shown[k],
                backgrounds,
                contents,
                #[trigger] from[k],
            ) by {
                assert(shows_background(shown[k], less, contents, from[k]));
                assert(less[from[k]] == backgrounds[from[k]]);
            }
            assert forall|i: int|
                0 <= i < backgrounds.len() && could_be_loaded(
                    (#[trigger] backgrounds[i]).1,
                    contents,
                    i,
                ) implies from.contains(i) by {
                assert(i < last);
                assert(less[i] == backgrounds[i]);
            }
            from
        }
    }
}

/// `files` are the files of the backgrounds at the places `from`, in their order, each with its path,
/// and these are all files that were read.
pub open spec fn keeps_all_files(
    files: Seq<(String, Vec<u8>)>,
    backgrounds: Seq<(String, Source)>,
    contents: Seq<Option<Vec<u8>>>,
    from: Seq<int>,
) -> bool {
    &&& from.len() == files.len()
    &&& forall|k: int|
        0 <= k < from.len() ==> {
            let i = #[trigger] from[k];
            &&& 0 <= i < backgrounds.len()
            &&& i < contents.len()
            &&& backgrounds[i].1 == Source::Path(files[k].0)
            &&& contents[i] is Some
            &&& files[k].1@ == contents[i]->0@
        }
    &&& forall|j: int, k: int| 0 <= j < k < from.len() ==> #[trigger] from[j] < #[trigger] from[k]
    &&& forall|i: int|
        0 <= i < backgrounds.len() && (#[trigger] backgrounds[i]).1 is Path && could_be_loaded(
            backgrounds[i].1,
            contents,
            i,
        ) ==> from.contains(i)
}

proof fn lemma_keeps_all_files(
    files: Seq<(String, Vec<u8>)>,
    backgrounds: Seq<(String, Source)>,
    contents: Seq<Option<Vec<u8>>>,
) -> (from: Seq<int>)
    requires
        same_files(files, read_files(backgrounds, contents)),
    ensures
        keeps_all_files(files, backgrounds, contents, from),
    decreases backgrounds.len(),
{
    if backgrounds.len() == 0 {
        Seq::empty()
    } else {
        let less = backgrounds.drop_last();
        let last = backgrounds.len() - 1;
        let before = read_files(less, contents);
        let all = read_files(backgrounds, contents);
        if backgrounds.last().1 is Path && contents_of(contents, last) is Some {
            let part = files.drop_last();
            assert forall|i: int| 0 <= i < part.len() implies (#[trigger] part[i]).0 == before[i].0
                && part[i].1@ == before[i].1@ by {
                assert(files[i].0 == all[i].0);
            }
            let from = lemma_keeps_all_files(part, less, contents);
            let out = from.push(last);
            assert(files[files.len() - 1].0 == all[all.len() - 1].0);
            assert forall|k: int| 0 <= k < out.len() implies {
                let i = #[trigger] out[k];
                &&& 0 <= i < backgrounds.len()
                &&& i < contents.len()
                &&& backgrounds[i].1 == Source::Path(files[k].0)
                &&& contents[i] is Some
                &&& files[k].1@ == contents[i]->0@
            } by {
                if k < from.len() {
                    assert(from[k] < less.len());
                    assert(less[from[k]] == backgrounds[from[k]]);
                }
            }
            assert forall|j: int, k: int| 0 <= j < k < out.len() implies #[trigger] out[j]
                < #[trigger] out[k] by {
                if k < from.len() {
                    assert(from[j] < from[k]);
                } else {
                    assert(from[j] < less.len());
                }
            }
            assert forall|i: int|
                0 <= i < backgrounds.len() && (#[trigger] backgrounds[i]).1 is Path
                    && could_be_loaded(backgrounds[i].1, contents, i) implies out.contains(i) by {
                if i < last {
                    assert(less[i] == backgrounds[i]);
                    assert(from.contains(i));
                    let k = choose|k: int| 0 <= k < from.len() && from[k] == i;
                    assert(out[k] == i);
                } else {
                    assert(out[from.len() as int] == i);
                }
            }
            out
        } else {
            let from = lemma_keeps_all_files(files, less, contents);
            assert forall|k: int| 0 <= k < from.len() implies {
                let i = #[trigger] from[k];
                &&& 0 <= i < backgrounds.len()
                &&& i < contents.len()
                &&& backgrounds[i].1 == Source::Path(files[k].0)
                &&& contents[i] is Some
                &&& files[k].1@ == contents[i]->0@
            } by {
                assert(from[k] < less.len());
                assert(less[from[k]] == backgrounds[from[k]]);
            }
            assert forall|i: int|
                0 <= i < backgrounds.len() && (#[trigger] backgrounds[i]).1 is Path
                    && could_be_loaded(backgrounds[i].1, contents, i) implies from.contains(i) by {
                assert(i < last);
                assert(less[i] == backgrounds[i]);
            }
            from
        }
    }
}

/// Every background that could be loaded reaches the greeter, in its order, with the output that it is
/// for and with its colour or the bytes of its file; and every file that was read is kept under its
/// path. Nothing else does.
pub proof fn law_every_wallpaper_reaches_the_greeter(
    user_data: UserData,
    user: Passwd,
    loaded: LoadedConfig,
)
    requires
        known_of(user_data, user, loaded),
        !(loaded.background is Unavailable),
    ensures
        user_data.wallpapers_opt is Some,
        exists|from: Seq<int>| #[trigger]
            shows_all(
                user_data.wallpapers_opt->0@,
                user_data.bg_state.wallpapers@,
                loaded.wallpapers@,
                from,
            ),
        exists|from: Seq<int>| #[trigger]
            keeps_all_files(
                user_data.bg_path_data@,
                user_data.bg_state.wallpapers@,
                loaded.wallpapers@,
                from,
            ),
{
    let backgrounds = user_data.bg_state.wallpapers@;
    let shown = lemma_shows_all(user_data.wallpapers_opt->0@, backgrounds, loaded.wallpapers@);
    let kept = lemma_keeps_all_files(user_data.bg_path_data@, backgrounds, loaded.wallpapers@);
}

// ---------------------------------------------------------------------------
// Which accounts can log in
// ---------------------------------------------------------------------------

proof fn lemma_split_tail(s: Seq<char>, tail: Seq<char>, sep: char)
    requires
        !tail.contains(sep),
    ensures
        split(s.push(sep) + tail, sep).len() >= 1,
        split(s.push(sep) + tail, sep).last() == tail,
        split(s.push(sep) + tail, sep).drop_last() == split(s, sep),
    decreases tail.len(),
{
    let whole = s.push(sep) + tail;
    crate::text::lemma_split_nonempty(s, sep);
    if tail.len() == 0 {
        assert(whole == s.push(sep));
        assert(whole.drop_last() == s);
        assert(split(whole, sep).last() == tail);
        assert(split(whole, sep).drop_last() == split(s, sep));
    } else {
        let less = tail.drop_last();
        assert forall|i: int| 0 <= i < less.len() implies less[i] != sep by {
            assert(tail.contains(tail[i]));
        }
        lemma_split_tail(s, less, sep);
        assert(tail.contains(tail[tail.len() - 1]));
        assert(whole.drop_last() == s.push(sep) + less);
        assert(split(whole, sep).last() == less.push(tail.last()));
        assert(less.push(tail.last()) == tail);
        assert(split(whole, sep).drop_last() == split(s, sep));
    }
}

proof fn lemma_split_whole(s: Seq<char>, sep: char)
    requires
        !s.contains(sep),
    ensures
        split(s, sep) == seq![s],
    decreases s.len(),
{
    if s.len() > 0 {
        let less = s.drop_last();
        assert forall|i: int| 0 <= i < less.len() implies less[i] != sep by {
            assert(s.contains(s[i]));
        }
        lemma_split_whole(less, sep);
        assert(s.contains(s[s.len() - 1]));
        assert(less.push(s.last()) == s);
    }
}

/// A word says which file it is: it is not empty, has no slash in it, and is no dot or two.
pub open spec fn is_plain_name(name: Seq<char>) -> bool {
    name.len() > 0 && !name.contains('/') && name != seq!['.'] && name != seq!['.', '.']
}

/// The file at the end of a path is the word after the last slash, in whatever directory it is, also
/// where the path ends in slashes.
pub proof fn law_file_name_is_the_last_word(dir: Seq<char>, name: Seq<char>)
    requires
        is_plain_name(name),
    ensures
        file_name(name) == Some(name),
        file_name(dir.push('/') + name) == Some(name),
        file_name((dir.push('/') + name).push('/')) == Some(name),
{
    lemma_split_whole(name, '/');
    assert(seq![name].last() == name);
    lemma_split_tail(dir, name, '/');
    let path = dir.push('/') + name;
    let none = Seq::<char>::empty();
    lemma_split_tail(path, none, '/');
    assert(path.push('/') + none == path.push('/'));
    assert(split(path.push('/'), '/').drop_last() == split(path, '/'));
}

/// Somebody can log in exactly where the account is not the system's and its shell is neither `false`
/// nor `nologin`, in whatever directory.
pub proof fn law_who_can_log_in(user: Passwd, dir: Seq<char>, shell: Seq<char>)
    requires
        is_plain_name(shell),
        user.shell@ == dir.push('/') + shell,
    ensures
        is_login_user(user) <==> user.uid >= 1000 && shell != "false"@ && shell != "nologin"@,
{
    law_file_name_is_the_last_word(dir, shell);
}

/// Of all accounts those that can log in are kept, and no others, in their order.
pub proof fn law_login_users_are_kept_in_order(before: Seq<Passwd>, user: Passwd, after: Seq<Passwd>)
    ensures
        login_users_of(before + seq![user] + after) == login_users_of(before) + (if is_login_user(
            user,
        ) {
            seq![user]
        } else {
            Seq::empty()
        }) + login_users_of(after),
        login_users_of(Seq::empty()).len() == 0,
{
    let p = |user: Passwd| is_login_user(user);
    Seq::filter_distributes_over_add(before + seq![user], after, p);
    Seq::filter_distributes_over_add(before, seq![user], p);
    reveal(Seq::filter);
    let one = seq![user];
    assert(one.drop_last() == Seq::<Passwd>::empty());
    assert(Seq::<Passwd>::empty().filter(p) == Seq::<Passwd>::empty());
    assert(one.last() == user);
    assert(one.filter(p) == (if is_login_user(user) {
        seq![user]
    } else {
        Seq::empty()
    }));
}

}
