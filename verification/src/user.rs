//! Accounts, and what the greeter knows of each.
use crate::displays::Arrangement;
use crate::keyboard::XkbConfig;
use crate::order::{insertion_point, lemma_empty, lemma_insert, stably_sorted, total_preorder};
use crate::text::{first_piece, opt_text, split, split_on, str_eq, texts};
use vstd::prelude::*;
use vstd::string::*;

verus! {

broadcast use vstd::string::group_string_axioms;

/// An entry of the account database.
#[derive(Debug, PartialEq, Eq)]
pub struct Passwd {
    pub name: String,
    pub uid: u32,
    pub gid: u32,
    pub gecos: Option<String>,
    pub dir: String,
    pub shell: String,
}

/// A plain colour or a gradient, in the notation of the background settings.
#[derive(Debug, PartialEq, Eq)]
pub struct Color {
    pub notation: String,
}

/// What an output shows as its background.
#[derive(Debug, PartialEq, Eq)]
pub enum Source {
    Path(String),
    Color(Color),
}

/// The background of every output, by the output's name.
#[derive(Debug, PartialEq, Eq)]
pub struct BackgroundState {
    pub wallpapers: Vec<(String, Source)>,
}

/// A background that has been loaded.
#[derive(Debug, PartialEq, Eq)]
pub enum WallpaperData {
    Bytes(Vec<u8>),
    Color(Color),
}

/// A desktop theme, in the notation of the theme settings.
#[derive(Debug, PartialEq, Eq)]
pub struct Theme {
    pub is_high_contrast: bool,
    pub notation: String,
}

/// What the greeter knows of an account.
#[derive(Debug, PartialEq, Eq)]
pub struct UserData {
    pub uid: u32,
    pub name: String,
    pub full_name_opt: Option<String>,
    pub icon_opt: Option<Vec<u8>>,
    pub theme_opt: Option<Theme>,
    pub theme_builder_opt: Option<crate::theme::ThemeBuilder>,
    pub wallpapers_opt: Option<Vec<(String, WallpaperData)>>,
    /// The background settings that were loaded last.
    pub bg_state: BackgroundState,
    /// The contents of the wallpaper files, by path.
    pub bg_path_data: Vec<(String, Vec<u8>)>,
    pub xkb_config_opt: Option<XkbConfig>,
    pub clock_military_time_opt: Option<bool>,
    /// Display arrangements.
    pub kdl_output_lists: Vec<Arrangement>,
    /// Whether the screen magnifier starts with the session.
    pub zoom_on_login: bool,
}

/// What reading one settings entry came to.
pub enum Settings<T> {
    /// Every key was read.
    Loaded(T),
    /// Some keys could not be read and hold their defaults.
    Partial(T),
    /// The settings could not be opened.
    Unavailable,
}

impl<T> Settings<T> {
    /// The value, complete or not.
    pub open spec fn found(self) -> Option<T> {
        match self {
            Settings::Loaded(value) => Some(value),
            Settings::Partial(value) => Some(value),
            Settings::Unavailable => None,
        }
    }

    /// The value, complete or not.
    pub fn value(self) -> (value: Option<T>)
        ensures
            value == self.found(),
    {
        match self {
            Settings::Loaded(value) => Some(value),
            Settings::Partial(value) => Some(value),
            Settings::Unavailable => None,
        }
    }
}

/// Whether the dark theme is in use, from the theme mode settings. It is unless they say otherwise.
pub fn prefers_dark(mode: Settings<bool>) -> (dark: bool)
    ensures
        dark == (mode.found() != Some(false)),
{
    match mode.value() {
        Some(is_dark) => is_dark,
        None => true,
    }
}

/// Everything that was read of an account's settings.
pub struct LoadedConfig {
    /// The account's picture, if there is one and it could be read.
    pub icon: Option<Vec<u8>>,
    /// The theme in use.
    pub theme: Settings<Theme>,
    /// The background settings.
    pub background: Settings<BackgroundState>,
    /// For each background in them the contents of its file, if it has one that could be read.
    pub wallpapers: Vec<Option<Vec<u8>>>,
    /// The keyboard settings of the compositor.
    pub xkb_config: Settings<XkbConfig>,
    /// Whether the clock applet shows 24 hours, if that is set.
    pub military_time: Option<bool>,
}

// ---------------------------------------------------------------------------
// Wallpapers
// ---------------------------------------------------------------------------

/// The file of background `i`, if it is one and could be read.
pub open spec fn contents_of(contents: Seq<Option<Vec<u8>>>, i: int) -> Option<Vec<u8>> {
    if i < contents.len() {
        contents[i]
    } else {
        None
    }
}

/// A background with its output's name, as far as it was loaded.
pub open spec fn loaded_wallpaper(
    wallpaper: (String, Source),
    contents: Option<Vec<u8>>,
) -> Option<(String, WallpaperData)> {
    match wallpaper.1 {
        Source::Path(_) => match contents {
            Some(bytes) => Some((wallpaper.0, WallpaperData::Bytes(bytes))),
            None => None,
        },
        Source::Color(color) => Some((wallpaper.0, WallpaperData::Color(color))),
    }
}

/// The wallpapers that were loaded, in order; a file that could not be read is left out.
pub open spec fn loaded_wallpapers(
    wallpapers: Seq<(String, Source)>,
    contents: Seq<Option<Vec<u8>>>,
) -> Seq<(String, WallpaperData)>
    decreases wallpapers.len(),
{
    if wallpapers.len() == 0 {
        Seq::empty()
    } else {
        let before = loaded_wallpapers(wallpapers.drop_last(), contents);
        match loaded_wallpaper(wallpapers.last(), contents_of(contents, wallpapers.len() - 1)) {
            Some(loaded) => before.push(loaded),
            None => before,
        }
    }
}

/// The files that were read, each with its path.
pub open spec fn read_files(
    wallpapers: Seq<(String, Source)>,
    contents: Seq<Option<Vec<u8>>>,
) -> Seq<(String, Vec<u8>)>
    decreases wallpapers.len(),
{
    if wallpapers.len() == 0 {
        Seq::empty()
    } else {
        let before = read_files(wallpapers.drop_last(), contents);
        match (wallpapers.last().1, contents_of(contents, wallpapers.len() - 1)) {
            (Source::Path(path), Some(bytes)) => before.push((path, bytes)),
            _ => before,
        }
    }
}

/// The same bytes, in two vectors.
pub open spec fn same_bytes(a: WallpaperData, b: WallpaperData) -> bool {
    match (a, b) {
        (WallpaperData::Bytes(a), WallpaperData::Bytes(b)) => a@ == b@,
        (WallpaperData::Color(a), WallpaperData::Color(b)) => a == b,
        _ => false,
    }
}

/// The same wallpapers, with the same bytes.
pub open spec fn same_wallpapers(
    a: Seq<(String, WallpaperData)>,
    b: Seq<(String, WallpaperData)>,
) -> bool {
    &&& a.len() == b.len()
    &&& forall|i: int|
        0 <= i < a.len() ==> (#[trigger] a[i]).0 == b[i].0 && same_bytes(a[i].1, b[i].1)
}

/// The same files, with the same bytes.
pub open spec fn same_files(a: Seq<(String, Vec<u8>)>, b: Seq<(String, Vec<u8>)>) -> bool {
    &&& a.len() == b.len()
    &&& forall|i: int| 0 <= i < a.len() ==> (#[trigger] a[i]).0 == b[i].0 && a[i].1@ == b[i].1@
}

/// A copy of a string of bytes.
pub fn copy_bytes(bytes: &Vec<u8>) -> (copy: Vec<u8>)
    ensures
        copy@ == bytes@,
{
    let mut copy: Vec<u8> = Vec::new();
    for i in 0..bytes.len()
        invariant
            copy@ == bytes@.take(i as int),
    {
        copy.push(bytes[i]);
    }
    copy
}

impl UserData {
    /// The name to show for the account: the full name, or the login name if there is none.
    pub open spec fn shown_name(self) -> Seq<char> {
        match self.full_name_opt {
            Some(full_name) if full_name@.len() > 0 => full_name@,
            _ => self.name@,
        }
    }

    /// The name to show for the account.
    pub fn full_name_or_name(&self) -> (shown: &str)
        ensures
            shown@ == self.shown_name(),
    {
        if let Some(full_name) = &self.full_name_opt {
            if !full_name.as_str().is_empty() {
                return full_name.as_str();
            }
        }
        self.name.as_str()
    }

    /// Whether the clock shows 24 hours.
    pub open spec fn shows_military_time(self) -> bool {
        self.clock_military_time_opt == Some(true)
    }

    /// Whether the clock shows 24 hours. It does not unless that is set.
    pub fn military_time(&self) -> (on: bool)
        ensures
            on == self.shows_military_time(),
    {
        match self.clock_military_time_opt {
            Some(on) => on,
            None => false,
        }
    }

    /// Takes over background settings, with what was read of each file that they name.
    pub fn load_wallpapers_as_user(
        &mut self,
        wallpaper_state: BackgroundState,
        contents: &Vec<Option<Vec<u8>>>,
    )
        ensures
            *final(self) == (UserData {
                wallpapers_opt: final(self).wallpapers_opt,
                bg_state: wallpaper_state,
                bg_path_data: final(self).bg_path_data,
                ..*old(self)
            }),
            final(self).wallpapers_opt is Some,
            same_wallpapers(
                final(self).wallpapers_opt->0@,
                loaded_wallpapers(wallpaper_state.wallpapers@, contents@),
            ),
            same_files(
                final(self).bg_path_data@,
                read_files(wallpaper_state.wallpapers@, contents@),
            ),
    {
        let mut wallpaper_datas: Vec<(String, WallpaperData)> = Vec::new();
        let mut files: Vec<(String, Vec<u8>)> = Vec::new();
        let ghost all = wallpaper_state.wallpapers@;
        for i in 0..wallpaper_state.wallpapers.len()
            invariant
                all == wallpaper_state.wallpapers@,
                same_wallpapers(
                    wallpaper_datas@,
                    loaded_wallpapers(all.take(i as int), contents@),
                ),
                same_files(files@, read_files(all.take(i as int), contents@)),
        {
            let wallpaper = &wallpaper_state.wallpapers[i];
            proof {
                assert(all.take(i as int + 1).drop_last() == all.take(i as int));
                assert(all.take(i as int + 1).last() == *wallpaper);
            }
            match &wallpaper.1 {
                Source::Path(path) => {
                    if i < contents.len() {
                        if let Some(bytes) = &contents[i] {
                            files.push((path.clone(), copy_bytes(bytes)));
                            wallpaper_datas.push(
                                (wallpaper.0.clone(), WallpaperData::Bytes(copy_bytes(bytes))),
                            );
                        }
                    }
                },
                Source::Color(color) => {
                    wallpaper_datas.push(
                        (
                            wallpaper.0.clone(),
                            WallpaperData::Color(Color { notation: color.notation.clone() }),
                        ),
                    );
                },
            }
        }
        proof {
            assert(all.take(all.len() as int) == all);
        }
        self.wallpapers_opt = Some(wallpaper_datas);
        self.bg_path_data = files;
        self.bg_state = wallpaper_state;
    }

    /// Takes over what was read of the account's settings; whatever was known before is dropped.
    pub fn load_config_as_user(&mut self, loaded: LoadedConfig)
        ensures
            *final(self) == (UserData {
                icon_opt: loaded.icon,
                theme_opt: loaded.theme.found(),
                wallpapers_opt: final(self).wallpapers_opt,
                bg_state: final(self).bg_state,
                bg_path_data: final(self).bg_path_data,
                xkb_config_opt: loaded.xkb_config.found(),
                clock_military_time_opt: loaded.military_time,
                ..*old(self)
            }),
            match loaded.background.found() {
                Some(state) => {
                    &&& final(self).wallpapers_opt is Some
                    &&& same_wallpapers(
                        final(self).wallpapers_opt->0@,
                        loaded_wallpapers(state.wallpapers@, loaded.wallpapers@),
                    )
                    &&& final(self).bg_state == state
                    &&& same_files(
                        final(self).bg_path_data@,
                        read_files(state.wallpapers@, loaded.wallpapers@),
                    )
                },
                None => {
                    &&& final(self).wallpapers_opt is None
                    &&& final(self).bg_state == old(self).bg_state
                    &&& final(self).bg_path_data == old(self).bg_path_data
                },
            },
    {
        self.icon_opt = loaded.icon;
        self.theme_opt = loaded.theme.value();
        self.wallpapers_opt = None;
        self.xkb_config_opt = loaded.xkb_config.value();
        self.clock_military_time_opt = loaded.military_time;
        if let Some(state) = loaded.background.value() {
            self.load_wallpapers_as_user(state, &loaded.wallpapers);
        }
    }

    /// What is known of an account from its database entry alone. The full name is the first
    /// field of the comment.
    pub fn from_passwd(user: Passwd) -> (user_data: UserData)
        ensures
            known_from(user_data, user),
    {
        let full_name_opt = match &user.gecos {
            Some(gecos) => Some(first_piece(gecos.as_str(), ',')),
            None => None,
        };
        UserData {
            uid: user.uid,
            name: user.name,
            full_name_opt,
            icon_opt: None,
            theme_opt: None,
            theme_builder_opt: None,
            wallpapers_opt: None,
            bg_state: BackgroundState { wallpapers: Vec::new() },
            bg_path_data: Vec::new(),
            xkb_config_opt: None,
            clock_military_time_opt: None,
            kdl_output_lists: Vec::new(),
            zoom_on_login: false,
        }
    }
}

/// `user_data` says what the database entry does, and nothing else is known.
pub open spec fn known_from(user_data: UserData, user: Passwd) -> bool {
    &&& user_data.uid == user.uid
    &&& user_data.name == user.name
    &&& opt_text(user_data.full_name_opt) == (match user.gecos {
        Some(gecos) => Some(split(gecos@, ',')[0]),
        None => None,
    })
    &&& user_data.icon_opt is None
    &&& user_data.theme_opt is None
    &&& user_data.theme_builder_opt is None
    &&& user_data.wallpapers_opt is None
    &&& user_data.bg_state.wallpapers@.len() == 0
    &&& user_data.bg_path_data@.len() == 0
    &&& user_data.xkb_config_opt is None
    &&& user_data.clock_military_time_opt is None
    &&& user_data.kdl_output_lists@.len() == 0
    &&& !user_data.zoom_on_login
}

// ---------------------------------------------------------------------------
// Which accounts can log in
// ---------------------------------------------------------------------------

/// The last part of a path that says something: neither empty nor a dot.
pub open spec fn last_part(parts: Seq<Seq<char>>) -> Option<Seq<char>>
    decreases parts.len(),
{
    if parts.len() == 0 {
        None
    } else if parts.last() == Seq::<char>::empty() || parts.last() == seq!['.'] {
        last_part(parts.drop_last())
    } else {
        Some(parts.last())
    }
}

/// The name of the file at the end of a path. A path that ends in two dots has none.
pub open spec fn file_name(path: Seq<char>) -> Option<Seq<char>> {
    match last_part(split(path, '/')) {
        Some(part) => if part == seq!['.', '.'] {
            None
        } else {
            Some(part)
        },
        None => None,
    }
}

/// The name of the file at the end of `path`.
pub fn path_file_name(path: &str) -> (name: Option<String>)
    ensures
        opt_text(name) == file_name(path@),
{
    let parts = split_on(path, '/');
    let mut i: usize = parts.len();
    proof {
        assert(texts(parts@).take(i as int) == texts(parts@));
        reveal_strlit(".");
        reveal_strlit("..");
    }
    while i > 0
        invariant
            i <= parts@.len(),
            "."@ == seq!['.'],
            ".."@ == seq!['.', '.'],
            texts(parts@) == split(path@, '/'),
            last_part(texts(parts@).take(i as int)) == last_part(split(path@, '/')),
        decreases i,
    {
        let part = &parts[i - 1];
        proof {
            assert(texts(parts@).take(i as int).last() == part@);
            assert(texts(parts@).take(i as int).drop_last() == texts(parts@).take(i - 1));
        }
        let empty = part.as_str().is_empty();
        proof {
            if empty {
                assert(part@ == Seq::<char>::empty());
            }
        }
        if !empty && !str_eq(part.as_str(), ".") {
            if str_eq(part.as_str(), "..") {
                return None;
            }
            return Some(part.clone());
        }
        i = i - 1;
    }
    None
}

/// The account belongs to a person: not to the system, and with a shell that lets them in.
pub open spec fn is_login_user(user: Passwd) -> bool {
    &&& user.uid >= 1000
    &&& file_name(user.shell@) != Some("false"@)
    &&& file_name(user.shell@) != Some("nologin"@)
}

/// Whether the account belongs to a person who can log in.
pub fn login_user(user: &Passwd) -> (yes: bool)
    ensures
        yes == is_login_user(*user),
{
    if user.uid < 1000 {
        return false;
    }
    match path_file_name(user.shell.as_str()) {
        Some(name) => !str_eq(name.as_str(), "false") && !str_eq(name.as_str(), "nologin"),
        None => true,
    }
}

/// The accounts of `users` that can log in, in order.
pub open spec fn login_users_of(users: Seq<Passwd>) -> Seq<Passwd> {
    users.filter(|user: Passwd| is_login_user(user))
}

/// Leaves out every account that cannot log in.
pub fn login_users(users: Vec<Passwd>) -> (kept: Vec<Passwd>)
    ensures
        kept@ == login_users_of(users@),
{
    let ghost p = |user: Passwd| is_login_user(user);
    let ghost all = users@;
    let mut rest = users;
    let mut kept: Vec<Passwd> = Vec::new();
    let ghost mut done: int = 0;
    proof {
        reveal(Seq::filter);
        assert(all.take(0).filter(p) == Seq::<Passwd>::empty());
    }
    while rest.len() > 0
        invariant
            0 <= done <= all.len(),
            p == (|user: Passwd| is_login_user(user)),
            rest@ == all.skip(done),
            kept@ == all.take(done).filter(p),
        decreases rest@.len(),
    {
        let user = rest.remove(0);
        proof {
            reveal(Seq::filter);
            assert(all.take(done + 1).drop_last() == all.take(done));
            assert(all.take(done + 1).last() == user);
            assert(rest@ == all.skip(done + 1));
            done = done + 1;
        }
        if login_user(&user) {
            kept.push(user);
        }
    }
    proof {
        assert(all.take(done) == all);
    }
    kept
}

/// What is known of every account that can log in, from the account database alone.
pub fn user_data_fallback(users: Vec<Passwd>) -> (user_datas: Vec<UserData>)
    ensures
        user_datas@.len() == login_users_of(users@).len(),
        forall|i: int|
            0 <= i < user_datas@.len() ==> known_from(
                #[trigger] user_datas@[i],
                login_users_of(users@)[i],
            ),
{
    let mut kept = login_users(users);
    let ghost all = kept@;
    let mut user_datas: Vec<UserData> = Vec::new();
    while kept.len() > 0
        invariant
            all.len() == user_datas@.len() + kept@.len(),
            kept@ == all.skip(user_datas@.len() as int),
            forall|i: int|
                0 <= i < user_datas@.len() ==> known_from(#[trigger] user_datas@[i], all[i]),
        decreases kept@.len(),
    {
        let user = kept.remove(0);
        user_datas.push(UserData::from_passwd(user));
    }
    user_datas
}

// ---------------------------------------------------------------------------
// Order
// ---------------------------------------------------------------------------

/// Accounts are ordered by their ids.
pub open spec fn uid_order() -> spec_fn(UserData, UserData) -> bool {
    |a: UserData, b: UserData| a.uid <= b.uid
}

/// Sorts accounts by id; those with the same id keep their order.
pub fn sort_by_uid(user_datas: Vec<UserData>) -> (out: Vec<UserData>)
    ensures
        stably_sorted(out@, user_datas@, uid_order()),
{
    let mut rest = user_datas;
    let ghost all = rest@;
    let mut out: Vec<UserData> = Vec::new();
    let ghost mut done: int = 0;
    proof {
        lemma_empty(uid_order());
        assert(all.take(0) == Seq::<UserData>::empty());
    }
    while rest.len() > 0
        invariant
            0 <= done <= all.len(),
            rest@ == all.skip(done),
            stably_sorted(out@, all.take(done), uid_order()),
        decreases rest@.len(),
    {
        let user = rest.remove(0);
        let ghost x = user;
        let mut i: usize = out.len();
        while i > 0 && out[i - 1].uid > user.uid
            invariant
                i <= out@.len(),
                forall|j: int| i <= j < out@.len() ==> (#[trigger] out@[j]).uid > user.uid,
            decreases i,
        {
            i = i - 1;
        }
        proof {
            assert(total_preorder(uid_order()));
            assert(insertion_point(out@, x, uid_order(), i as int)) by {
                assert forall|j: int| 0 <= j < i implies uid_order()(#[trigger] out@[j], x) by {
                    if j < i - 1 {
                        assert(uid_order()(out@[j], out@[i - 1]));
                    }
                }
            }
            lemma_insert(out@, all.take(done), x, i as int, uid_order());
            assert(all.take(done).push(x) == all.take(done + 1));
            assert(rest@ == all.skip(done + 1));
            done = done + 1;
        }
        out.insert(i, user);
    }
    proof {
        assert(all.take(done) == all);
    }
    out
}

}
