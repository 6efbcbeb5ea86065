//! The greeter: who logs in, to which session, and what happens until then.
use crate::common;
use crate::common::{Common, OutputEvent};
use crate::config::{
    greeted, greeted_user, has_uid, is_looked_up, last_session_of, look_up_last_user, nonzero_uid,
    offered_session, opt_uid, session_to_offer, Config, NameIndexPair, NonZeroUid, UserState,
};
use crate::displays::{choose_arrangement, copy_displays, first_fitting, Display};
use crate::geometry::{
    corner_of_menu, menu_corner, menu_placement, place_menu, size_of_output, OutputInfo, Placement,
};
use crate::keyboard::{
    bring_to_front, brought_to_front, build_xkb_config, cycle_layouts, cycled, layout_list, models,
    variant_list, KeyboardLayouts, XkbConfig,
};
use crate::locker::{input_name, told_name, told_size};
use crate::order::{insertion_point, lemma_empty, lemma_insert, stably_sorted, total_preorder};
use crate::session::{
    collect_sessions, distinct_names, find_session, last_described, lookup, name_order, names_of,
    sorted_names, Session, SessionFile,
};
use crate::text::{
    clone_list, concat2, lemma_text_le_total, lemma_text_le_transitive, opt_text, text_at_most,
    text_le, texts,
};
use crate::theme::{apply_hc_theme, Palette, ThemeBuilder};
use crate::time::Time;
use crate::user::{sort_by_uid, uid_order, Settings, Theme, UserData};
use crate::walk::{lists_values, remove_keys, values_of};
use vstd::prelude::*;
use vstd::string::*;

verus! {

broadcast use {vstd::string::group_string_axioms, vstd::std_specs::hash::group_hash_axioms};

/// What the greeter is started with.
pub struct Flags {
    pub user_datas: Vec<UserData>,
    /// Which accounts have a picture.
    pub user_icons: Vec<bool>,
    pub sessions: Vec<Session>,
    pub greeter_config: Config,
    /// What is remembered can be written.
    pub greeter_config_handler: bool,
    /// The login manager can suspend, restart and shut down the machine.
    pub logind: bool,
}

/// The connection to greetd.
#[derive(Debug, PartialEq, Eq)]
pub enum SocketState {
    /// It is being opened.
    Pending,
    /// It is open.
    Open,
    /// It is not known where it is.
    NotSet,
    /// It could not be opened.
    Error(String),
}

/// A question before the machine is restarted or shut down, with the time at which it was asked, in
/// nanoseconds on a clock that never goes back.
#[derive(Clone, Copy, Debug, PartialEq, Eq, Structural)]
pub enum DialogPage {
    Restart(u64),
    Shutdown(u64),
}

/// How long a question waits for an answer, in nanoseconds.
pub const DIALOG_TIMEOUT: u64 = 60_000_000_000;

/// How long a question still waits.
pub open spec fn time_left(instant: u64, now: u64) -> Option<u64> {
    let elapsed = if now >= instant {
        now - instant
    } else {
        0
    };
    if elapsed < DIALOG_TIMEOUT {
        Some((DIALOG_TIMEOUT - elapsed) as u64)
    } else {
        None
    }
}

impl DialogPage {
    /// When the question was asked.
    pub open spec fn instant(self) -> u64 {
        match self {
            DialogPage::Restart(instant) => instant,
            DialogPage::Shutdown(instant) => instant,
        }
    }

    /// How long a question that was asked at `instant` still waits.
    pub fn remaining(instant: u64, now: u64) -> (left: Option<u64>)
        ensures
            left == time_left(instant, now),
    {
        let elapsed: u64 = if now >= instant {
            now - instant
        } else {
            0
        };
        if elapsed < DIALOG_TIMEOUT {
            Some(DIALOG_TIMEOUT - elapsed)
        } else {
            None
        }
    }
}

/// A menu that can be open.
#[derive(Clone, Copy, Debug, PartialEq, Eq, Structural)]
pub enum Dropdown {
    Accessibility,
    Keyboard,
    User,
    Session,
}

/// A request to greetd.
#[derive(Debug, PartialEq, Eq)]
pub enum Request {
    CreateSession { username: String },
    PostAuthMessageResponse { response: Option<String> },
    StartSession { cmd: Vec<String>, env: Vec<String> },
    CancelSession,
}

/// A request to the compositor's accessibility protocol.
#[derive(Clone, Copy, Debug, PartialEq, Eq, Structural)]
pub enum AccessibilityRequest {
    Magnifier(bool),
    ScreenFilter { inverted: bool },
}

/// A setting of the accessibility menu.
#[derive(Clone, Copy, Debug, PartialEq, Eq, Structural)]
pub enum AccessibilitySetting {
    ScreenReader(bool),
    Magnifier(bool),
    HighContrast(bool),
    InvertColors(bool),
}

/// News of the compositor's accessibility protocol.
#[derive(Clone, Copy, Debug, PartialEq, Eq, Structural)]
pub enum WaylandUpdate {
    Errored,
    Bound(u32),
    Magnifier(bool),
    ScreenFilter { inverted: bool },
    Closed,
    Started,
}

/// Something that happened.
#[derive(Debug, PartialEq, Eq)]
pub enum Message {
    Common(common::Message),
    OutputEvent(OutputEvent, u64),
    Auth(Option<String>),
    ConfigUpdateUser,
    DialogCancel,
    DialogConfirm,
    DropdownToggle(Dropdown),
    Error(String),
    Exit,
    GreetdChannel,
    /// The displays that are connected, if they could be listed.
    RandrUpdate(Option<Vec<Display>>),
    /// A second has passed; it is now so late.
    Heartbeat(u64),
    KeyboardLayout(usize),
    /// The next keyboard layout is wanted.
    InputSourceSwitch,
    Login,
    Reconnect,
    Reload(Theme),
    /// A window has this width, in whole pixels.
    RepositionMenu(u64, u32),
    Restart(u64),
    Session(String),
    Shutdown(u64),
    Socket(SocketState),
    Surface(u64),
    Suspend,
    Username(String),
    EnterUser(bool, String),
    /// The screen reader is to be on or off; and whether a running one could be asked how it is.
    ScreenReader(bool, bool),
    /// Whether the screen reader could be started.
    ScreenReaderStarted(bool),
    Magnifier(bool),
    HighContrast(bool),
    InvertColors(bool),
    WaylandUpdate(WaylandUpdate),
}

/// Something to do.
#[derive(Debug, PartialEq, Eq)]
pub enum Task {
    Common(common::Task),
    /// Send a request to greetd.
    Send(Request),
    GetLayerSurface { surface: u64, output: u64 },
    DestroyLayerSurface(u64),
    /// Open the menu of a surface.
    OpenMenu { surface: u64, subsurface: u64, placement: Placement },
    Reposition { subsurface: u64, x: i32, y: i32 },
    /// List the displays that are connected.
    ListDisplays,
    /// Arrange the displays as a KDL document says.
    ExecRandr(String),
    SetTheme(Theme),
    /// Build a theme, and show it.
    BuildTheme(ThemeBuilder),
    /// Put the cursor into the field for the user's name.
    FocusUsername,
    StartHeartbeat,
    StopHeartbeat,
    Suspend,
    Reboot,
    PowerOff,
    /// Write who logged in last.
    SaveLastUser(u32),
    /// Write what is remembered of the accounts.
    SaveUsers,
    /// Have the privileged service write keyboard settings for an account.
    PersistXkbConfig { username: String, config: XkbConfig },
    StartScreenReader,
    StopScreenReader,
    Accessibility(AccessibilityRequest),
    SaveAccessibility(AccessibilitySetting),
    Surface(u64),
    Exit,
}

/// An account in the menu of users.
#[derive(Debug, PartialEq, Eq)]
pub struct UserName {
    pub name: String,
    pub full_name: String,
}

/// The state of the accessibility menu.
pub struct Accessibility {
    /// The compositor's protocol can be reached.
    pub wayland_sender: bool,
    pub wayland_protocol_version: Option<u32>,
    /// The settings can be written.
    pub helper: bool,
    pub screen_reader: bool,
    pub magnifier: bool,
    pub high_contrast: bool,
    pub invert_colors: bool,
}

/// The greeter.
pub struct App {
    pub common: Common,
    pub flags: Flags,
    /// Requests can be sent to greetd.
    pub greetd_sender: bool,
    pub socket_state: SocketState,
    pub usernames: Vec<UserName>,
    pub selected_username: NameIndexPair,
    pub session_names: Vec<String>,
    pub selected_session: String,
    pub dialog_page_opt: Option<DialogPage>,
    pub dropdown_opt: Option<Dropdown>,
    /// A heartbeat is running.
    pub heartbeat_handle: bool,
    pub entering_name: bool,
    pub theme_builder: ThemeBuilder,
    /// Every surface with its menu.
    pub surface_id_pairs: Vec<(u64, u64)>,
    pub randr_list: Option<Vec<Display>>,
    pub accessibility: Accessibility,
}

/// Tasks of the common part.
pub open spec fn common_tasks(tasks: Seq<common::Task>) -> Seq<Task> {
    tasks.map_values(|task: common::Task| Task::Common(task))
}

fn wrap(inner: Vec<common::Task>) -> (tasks: Vec<Task>)
    ensures
        tasks@ == common_tasks(inner@),
{
    let mut inner = inner;
    let ghost all = inner@;
    let mut tasks: Vec<Task> = Vec::new();
    while inner.len() > 0
        invariant
            all.len() == tasks@.len() + inner@.len(),
            inner@ == all.skip(tasks@.len() as int),
            tasks@ == common_tasks(all.take(tasks@.len() as int)),
        decreases inner@.len(),
    {
        let ghost n = tasks@.len() as int;
        let task = inner.remove(0);
        tasks.push(Task::Common(task));
        proof {
            assert(all.take(n + 1) == all.take(n).push(task));
            assert(tasks@ == common_tasks(all.take(n + 1)));
        }
    }
    proof {
        assert(all.take(all.len() as int) == all);
    }
    tasks
}

impl App {
    /// The account that is selected, if something is known of it.
    pub open spec fn selected(self) -> Option<UserData> {
        match self.selected_username.data_idx {
            Some(i) if i < self.flags.user_datas@.len() => Some(
                self.flags.user_datas@[i as int],
            ),
            _ => None,
        }
    }

    /// The place of the account that is selected, if something is known of it.
    fn selected_index(&self) -> (found: Option<usize>)
        ensures
            match found {
                Some(i) => i < self.flags.user_datas@.len() && self.selected() == Some(
                    self.flags.user_datas@[i as int],
                ),
                None => self.selected() is None,
            },
    {
        match self.selected_username.data_idx {
            Some(i) => {
                if i < self.flags.user_datas.len() {
                    Some(i)
                } else {
                    None
                }
            },
            None => None,
        }
    }

    /// What is sent to greetd, if that can be reached.
    pub open spec fn sent(self, request: Request) -> Seq<Task> {
        if self.greetd_sender {
            seq![Task::Send(request)]
        } else {
            Seq::empty()
        }
    }

    fn send_request(&self, request: Request, tasks: &mut Vec<Task>)
        ensures
            final(tasks)@ == old(tasks)@ + self.sent(request),
    {
        if self.greetd_sender {
            tasks.push(Task::Send(request));
        }
        proof {
            assert(tasks@ == old(tasks)@ + self.sent(request));
        }
    }
}

// ---------------------------------------------------------------------------
// The selected account
// ---------------------------------------------------------------------------

/// What is shown once an account's data has been taken over: the theme of the account.
pub open spec fn theme_tasks(user_data: UserData) -> Seq<Task> {
    match user_data.theme_opt {
        Some(theme) => seq![Task::ListDisplays, Task::SetTheme(theme)],
        None => seq![Task::ListDisplays],
    }
}

impl App {
    /// The data of the selected account has been taken over.
    pub open spec fn user_data_updated(self, old: App, tasks: Seq<Task>) -> bool {
        match old.selected() {
            None => self == old && tasks.len() == 0,
            Some(user_data) => {
                &&& self == (App {
                    common: self.common,
                    theme_builder: match user_data.theme_builder_opt {
                        Some(builder) => builder,
                        None => old.theme_builder,
                    },
                    randr_list: None,
                    accessibility: Accessibility {
                        magnifier: user_data.zoom_on_login,
                        high_contrast: match user_data.theme_opt {
                            Some(theme) => theme.is_high_contrast,
                            None => old.accessibility.high_contrast,
                        },
                        ..old.accessibility
                    },
                    ..old
                })
                &&& exists|shown: Seq<common::Task>, written: Seq<common::Task>|
                    #![trigger common_tasks(shown), common_tasks(written)]
                    {
                        &&& self.common.user_data_updated(old.common, user_data, shown)
                        &&& self.common.xkb_config_written(user_data, written)
                        &&& tasks == common_tasks(shown) + common_tasks(written) + theme_tasks(
                            user_data,
                        )
                    }
            },
        }
    }

    #[verifier::spinoff_prover]
    #[verifier::rlimit(40)]
    fn update_user_data(&mut self) -> (tasks: Vec<Task>)
        ensures
            final(self).user_data_updated(*old(self), tasks@),
    {
        let mut tasks: Vec<Task> = Vec::new();
        if let Some(i) = self.selected_index() {
            let ghost user_data = self.flags.user_datas@[i as int];
            let inner = self.common.update_user_data(&self.flags.user_datas[i]);
            let ghost shown = inner@;
            let mut more = wrap(inner);
            tasks.append(&mut more);
            let inner = self.common.set_xkb_config(&self.flags.user_datas[i]);
            let ghost written = inner@;
            let mut more = wrap(inner);
            tasks.append(&mut more);
            let builder_opt = match &self.flags.user_datas[i].theme_builder_opt {
                Some(builder) => Some(builder.copy()),
                None => None,
            };
            if let Some(builder) = builder_opt {
                self.theme_builder = builder;
            }
            self.accessibility.magnifier = self.flags.user_datas[i].zoom_on_login;
            self.randr_list = None;
            let ghost before = tasks@;
            tasks.push(Task::ListDisplays);
            let theme_opt = match &self.flags.user_datas[i].theme_opt {
                Some(theme) => Some(
                    Theme {
                        is_high_contrast: theme.is_high_contrast,
                        notation: theme.notation.clone(),
                    },
                ),
                None => None,
            };
            if let Some(theme) = theme_opt {
                self.accessibility.high_contrast = theme.is_high_contrast;
                tasks.push(Task::SetTheme(theme));
            }
            proof {
                assert(before == common_tasks(shown) + common_tasks(written));
                assert(tasks@ == before + theme_tasks(user_data));
            }
        }
        tasks
    }

    /// The keyboard layouts have changed, and the compositor is told.
    pub open spec fn layouts_changed(
        self,
        old: App,
        active: Seq<crate::keyboard::ActiveLayout>,
        tasks: Seq<Task>,
    ) -> bool {
        &&& self == (App {
            common: Common { active_layouts: self.common.active_layouts, ..old.common },
            dropdown_opt: self.dropdown_opt,
            ..old
        })
        &&& self.common.active_layouts@ == active
        &&& match old.selected() {
            Some(user_data) => exists|inner: Seq<common::Task>|
                tasks == #[trigger] common_tasks(inner) && self.common.xkb_config_written(
                    user_data,
                    inner,
                ),
            None => tasks.len() == 0,
        }
    }

    fn set_xkb_config(&self) -> (tasks: Vec<Task>)
        ensures
            match self.selected() {
                Some(user_data) => exists|inner: Seq<common::Task>|
                    tasks@ == #[trigger] common_tasks(inner) && self.common.xkb_config_written(
                        user_data,
                        inner,
                    ),
                None => tasks@.len() == 0,
            },
    {
        match self.selected_index() {
            Some(i) => {
                let inner = self.common.set_xkb_config(&self.flags.user_datas[i]);
                let ghost all = inner@;
                let tasks = wrap(inner);
                proof {
                    assert(tasks@ == common_tasks(all));
                }
                tasks
            },
            None => Vec::new(),
        }
    }

    /// A keyboard layout has been chosen from the menu.
    pub open spec fn layout_chosen(self, old: App, i: usize, tasks: Seq<Task>) -> bool {
        &&& self.dropdown_opt == closed(old.dropdown_opt, Dropdown::Keyboard)
        &&& if i < old.common.active_layouts@.len() {
            self.layouts_changed(
                old,
                brought_to_front(old.common.active_layouts@, i as int),
                tasks,
            )
        } else {
            &&& self == (App { dropdown_opt: self.dropdown_opt, ..old })
            &&& tasks.len() == 0
        }
    }

    fn choose_layout(&mut self, i: usize) -> (tasks: Vec<Task>)
        ensures
            final(self).layout_chosen(*old(self), i, tasks@),
    {
        let mut tasks: Vec<Task> = Vec::new();
        if i < self.common.active_layouts.len() {
            bring_to_front(&mut self.common.active_layouts, i);
            tasks = self.set_xkb_config();
        }
        self.close(Dropdown::Keyboard);
        tasks
    }

    fn next_layout(&mut self) -> (tasks: Vec<Task>)
        ensures
            final(self).layouts_changed(
                *old(self),
                cycled(old(self).common.active_layouts@),
                tasks@,
            ),
            final(self).dropdown_opt == old(self).dropdown_opt,
    {
        cycle_layouts(&mut self.common.active_layouts);
        self.set_xkb_config()
    }

    fn close(&mut self, dropdown: Dropdown)
        ensures
            *final(self) == (App {
                dropdown_opt: closed(old(self).dropdown_opt, dropdown),
                ..*old(self)
            }),
    {
        if let Some(open) = self.dropdown_opt {
            if open == dropdown {
                self.dropdown_opt = None;
            }
        }
    }
}

/// The menu that is open once `dropdown` has been closed.
pub open spec fn closed(dropdown_opt: Option<Dropdown>, dropdown: Dropdown) -> Option<Dropdown> {
    if dropdown_opt == Some(dropdown) {
        None
    } else {
        dropdown_opt
    }
}

/// The menu that is open once the button of `dropdown` has been pressed.
pub open spec fn toggled(dropdown_opt: Option<Dropdown>, dropdown: Dropdown) -> Option<Dropdown> {
    if dropdown_opt == Some(dropdown) {
        None
    } else {
        Some(dropdown)
    }
}

// ---------------------------------------------------------------------------
// Displays
// ---------------------------------------------------------------------------

impl App {
    /// The displays that are connected are known: the first arrangement of the selected account
    /// that fits them is applied.
    pub open spec fn displays_listed(
        self,
        old: App,
        displays: Seq<Display>,
        tasks: Seq<Task>,
    ) -> bool {
        &&& self == (App { randr_list: self.randr_list, ..old })
        &&& self.randr_list is Some
        &&& self.randr_list->0@ == displays
        &&& match old.selected() {
            Some(user_data) => exists|found: Option<usize>|
                #![trigger first_fitting(found, user_data.kdl_output_lists@, displays)]
                {
                    &&& first_fitting(found, user_data.kdl_output_lists@, displays)
                    &&& tasks == (match found {
                        Some(i) => seq![
                            Task::ExecRandr(user_data.kdl_output_lists@[i as int].document),
                        ],
                        None => Seq::empty(),
                    })
                },
            None => tasks.len() == 0,
        }
    }

    fn list_displays(&mut self, displays: Vec<Display>) -> (tasks: Vec<Task>)
        ensures
            final(self).displays_listed(*old(self), displays@, tasks@),
    {
        let mut tasks: Vec<Task> = Vec::new();
        let ghost listed = displays@;
        if let Some(i) = self.selected_index() {
            let arrangements = &self.flags.user_datas[i].kdl_output_lists;
            let found = choose_arrangement(arrangements, &displays);
            if let Some(k) = found {
                tasks.push(Task::ExecRandr(arrangements[k].document.clone()));
            }
            proof {
                assert(first_fitting(found, arrangements@, listed));
                assert(tasks@ == (match found {
                    Some(k) => seq![Task::ExecRandr(arrangements@[k as int].document)],
                    None => Seq::empty(),
                }));
            }
        }
        self.randr_list = Some(displays);
        tasks
    }
}

// ---------------------------------------------------------------------------
// Users and sessions
// ---------------------------------------------------------------------------

impl Common {
    /// The wallpapers are gone, and the prompt too if `prompt` says so.
    pub open spec fn wiped(self, old: Common, prompt: bool) -> bool {
        &&& self == (Common {
            surface_images: self.surface_images,
            prompt_opt: if prompt {
                None
            } else {
                old.prompt_opt
            },
            ..old
        })
        &&& self.surface_images@ == Map::<u64, String>::empty()
    }

    fn wipe(&mut self, prompt: bool)
        ensures
            final(self).wiped(*old(self), prompt),
    {
        self.surface_images.clear();
        if prompt {
            self.prompt_opt = None;
        }
    }
}

impl App {
    /// A name is being typed into the field for the user's name.
    pub open spec fn user_entered(
        self,
        old: App,
        focus: bool,
        username: String,
        tasks: Seq<Task>,
    ) -> bool {
        &&& self == (App {
            dropdown_opt: closed(old.dropdown_opt, Dropdown::User),
            entering_name: true,
            selected_username: self.selected_username,
            ..old
        })
        &&& self.selected_username.username == username
        &&& self.selected_username.points_into(old.flags.user_datas@)
        &&& tasks == (if focus {
            seq![Task::FocusUsername]
        } else {
            Seq::empty()
        })
    }

    fn enter_user(&mut self, focus: bool, username: String) -> (tasks: Vec<Task>)
        ensures
            final(self).user_entered(*old(self), focus, username, tasks@),
    {
        let mut tasks: Vec<Task> = Vec::new();
        self.close(Dropdown::User);
        self.entering_name = true;
        self.selected_username = NameIndexPair::find(username, &self.flags.user_datas);
        if focus {
            tasks.push(Task::FocusUsername);
        }
        proof {
            assert(tasks@ == (if focus {
                seq![Task::FocusUsername]
            } else {
                Seq::empty()
            }));
        }
        tasks
    }

    /// The session that is remembered for the selected account.
    pub open spec fn remembered_session(self) -> Option<Seq<char>> {
        match self.selected() {
            Some(user_data) => match nonzero_uid(user_data.uid) {
                Some(uid) => last_session_of(self.flags.greeter_config.users@, uid),
                None => None,
            },
            None => None,
        }
    }

    /// The id of the selected account, unless it is the superuser's.
    fn selected_uid(&self) -> (uid: Option<NonZeroUid>)
        ensures
            opt_uid(uid) == (match self.selected() {
                Some(user_data) => nonzero_uid(user_data.uid),
                None => None,
            }),
    {
        match self.selected_index() {
            Some(i) => NonZeroUid::new(self.flags.user_datas[i].uid),
            None => None,
        }
    }

    /// The account has changed, apart from what follows for the displays: its session is selected,
    /// the wallpapers go, and greetd is told to forget the account from before.
    pub open spec fn user_switched(self, old: App, username: String, tasks: Seq<Task>) -> bool {
        let open = old.socket_state is Open;
        &&& self == (App {
            common: self.common,
            dropdown_opt: closed(old.dropdown_opt, Dropdown::User),
            entering_name: false,
            selected_username: self.selected_username,
            selected_session: self.selected_session,
            ..old
        })
        &&& self.selected_username.username == username
        &&& self.selected_username.points_into(old.flags.user_datas@)
        &&& self.common.wiped(old.common, open)
        &&& match self.remembered_session() {
            Some(session) => self.selected_session@ == session,
            None => self.selected_session == old.selected_session,
        }
        &&& tasks == (if open {
            old.sent(Request::CancelSession)
        } else {
            Seq::empty()
        })
    }

    fn switch_user(&mut self, username: String) -> (tasks: Vec<Task>)
        ensures
            final(self).user_switched(*old(self), username, tasks@),
    {
        let mut tasks: Vec<Task> = Vec::new();
        self.close(Dropdown::User);
        self.entering_name = false;
        self.selected_username = NameIndexPair::find(username, &self.flags.user_datas);
        let open = match self.socket_state {
            SocketState::Open => true,
            _ => false,
        };
        self.common.wipe(open);
        let session_opt = match self.selected_uid() {
            Some(uid) => self.flags.greeter_config.last_session(uid.get()),
            None => None,
        };
        if let Some(session) = session_opt {
            self.selected_session = session;
        }
        if open {
            self.send_request(Request::CancelSession, &mut tasks);
            proof {
                assert(tasks@ == old(self).sent(Request::CancelSession));
            }
        }
        tasks
    }

    /// An account has been chosen.
    pub open spec fn user_chosen(self, old: App, username: String, tasks: Seq<Task>) -> bool {
        if old.entering_name || username@ != old.selected_username.username@ {
            match old.randr_list {
                Some(displays) => exists|switched: App, first: Seq<Task>, second: Seq<Task>|
                    #![trigger switched.user_switched(old, username, first), first + second]
                    {
                        &&& switched.user_switched(old, username, first)
                        &&& self.displays_listed(switched, displays@, second)
                        &&& tasks == first + second
                    },
                None => self.user_switched(old, username, tasks),
            }
        } else {
            &&& self == (App { dropdown_opt: closed(old.dropdown_opt, Dropdown::User), ..old })
            &&& tasks.len() == 0
        }
    }

    fn choose_user(&mut self, username: String) -> (tasks: Vec<Task>)
        ensures
            final(self).user_chosen(*old(self), username, tasks@),
    {
        if self.entering_name || username != self.selected_username.username {
            let ghost before = *self;
            let mut tasks = self.switch_user(username);
            let ghost switched = *self;
            let ghost first = tasks@;
            let displays_opt = match &self.randr_list {
                Some(displays) => Some(copy_displays(displays)),
                None => None,
            };
            if let Some(displays) = displays_opt {
                let mut more = self.list_displays(displays);
                let ghost second = more@;
                tasks.append(&mut more);
                proof {
                    assert(switched.user_switched(before, username, first));
                    assert(tasks@ == first + second);
                }
            }
            tasks
        } else {
            self.close(Dropdown::User);
            Vec::new()
        }
    }

    /// Who logged in has been taken down, to be remembered.
    pub open spec fn login_remembered(self, old: App, tasks: Seq<Task>) -> bool {
        let uid_opt = match old.selected() {
            Some(user_data) => nonzero_uid(user_data.uid),
            None => None,
        };
        match uid_opt {
            Some(uid) if old.flags.greeter_config_handler => {
                let before = old.flags.greeter_config.users@;
                let after = self.flags.greeter_config.users@;
                let changed = last_session_of(before, uid) != Some(old.selected_session@);
                &&& self == (App {
                    flags: Flags {
                        greeter_config: Config {
                            users: self.flags.greeter_config.users,
                            last_user: self.flags.greeter_config.last_user,
                        },
                        ..old.flags
                    },
                    ..old
                })
                &&& opt_uid(self.flags.greeter_config.last_user) == Some(uid)
                &&& last_session_of(after, uid) == Some(old.selected_session@)
                &&& !changed ==> after == before
                &&& changed ==> after == before.insert(uid, after[uid])
                &&& changed ==> after[uid].uid@ == (if last_session_of(before, uid) is Some {
                    before[uid].uid@
                } else {
                    uid
                })
                &&& tasks == (if changed {
                    seq![Task::SaveLastUser(uid), Task::SaveUsers]
                } else {
                    seq![Task::SaveLastUser(uid)]
                })
            },
            _ => self == old && tasks.len() == 0,
        }
    }

    fn remember_login(&mut self) -> (tasks: Vec<Task>)
        ensures
            final(self).login_remembered(*old(self), tasks@),
    {
        let mut tasks: Vec<Task> = Vec::new();
        if let Some(uid) = self.selected_uid() {
            if self.flags.greeter_config_handler {
                let number: u32 = uid.get();
                let changed = self.flags.greeter_config.remember(uid, &self.selected_session);
                tasks.push(Task::SaveLastUser(number));
                if changed {
                    tasks.push(Task::SaveUsers);
                }
                proof {
                    assert(tasks@ == (if changed {
                        seq![Task::SaveLastUser(number), Task::SaveUsers]
                    } else {
                        seq![Task::SaveLastUser(number)]
                    }));
                }
            }
        }
        tasks
    }

    /// The layouts are handed over, to be written to the keyboard settings of the selected account,
    /// so that its session starts with them. Where the account has no such settings, or there are
    /// no layouts, nothing is.
    pub open spec fn layouts_handed_over(self, tasks: Seq<Task>) -> bool {
        match self.selected() {
            Some(user_data) if user_data.xkb_config_opt is Some && self.common.active_layouts@.len()
                > 0 => {
                &&& tasks.len() == 1
                &&& tasks[0] is PersistXkbConfig
                &&& tasks[0]->username == self.selected_username.username
                &&& tasks[0]->config == (XkbConfig {
                    layout: tasks[0]->config.layout,
                    variant: tasks[0]->config.variant,
                    ..user_data.xkb_config_opt->0
                })
                &&& tasks[0]->config.layout@ == layout_list(models(self.common.active_layouts@))
                &&& tasks[0]->config.variant@ == variant_list(models(self.common.active_layouts@))
            },
            _ => tasks.len() == 0,
        }
    }

    fn hand_over_layouts(&self) -> (tasks: Vec<Task>)
        ensures
            self.layouts_handed_over(tasks@),
    {
        let mut tasks: Vec<Task> = Vec::new();
        if let Some(i) = self.selected_index() {
            if let Some(config) = &self.flags.user_datas[i].xkb_config_opt {
                if self.common.active_layouts.len() > 0 {
                    let config = build_xkb_config(&self.common.active_layouts, config);
                    let username = self.selected_username.username.clone();
                    tasks.push(Task::PersistXkbConfig { username, config });
                }
            }
        }
        tasks
    }

    /// The user has shown who they are: the layouts are handed over, and the selected session is
    /// started, and remembered.
    pub open spec fn logged_in(self, old: App, tasks: Seq<Task>) -> bool {
        let cleared = App {
            common: Common { prompt_opt: None, error_opt: None, ..old.common },
            ..old
        };
        exists|handed: Seq<Task>, request: Request, rest: Seq<Task>|
            #![trigger old.layouts_handed_over(handed), old.sent(request), self.login_remembered(cleared, rest)]
            {
                &&& old.layouts_handed_over(handed)
                &&& request is StartSession
                &&& ({
                    let started = lookup(old.flags.sessions@, old.selected_session@)->0;
                    &&& texts(request->cmd@) == started.command
                    &&& texts(request->env@) == started.env
                })
                &&& self.login_remembered(cleared, rest)
                &&& tasks == handed + old.sent(request) + rest
            }
    }

    fn login(&mut self) -> (tasks: Vec<Task>)
        requires
            distinct_names(old(self).flags.sessions@),
            lookup(old(self).flags.sessions@, old(self).selected_session@) is Some,
        ensures
            final(self).logged_in(*old(self), tasks@),
    {
        let ghost before = *self;
        let mut tasks = self.hand_over_layouts();
        let ghost handed = tasks@;
        self.common.prompt_opt = None;
        self.common.error_opt = None;
        let ghost cleared = *self;
        if let Some(i) = find_session(&self.flags.sessions, &self.selected_session) {
            let cmd = clone_list(&self.flags.sessions[i].command);
            let env = clone_list(&self.flags.sessions[i].env);
            let request = Request::StartSession { cmd, env };
            let ghost sent = request;
            self.send_request(request, &mut tasks);
            let mut more = self.remember_login();
            let ghost rest = more@;
            tasks.append(&mut more);
            proof {
                assert(self.login_remembered(cleared, rest));
                assert(before.sent(sent) == cleared.sent(sent));
                assert(before.layouts_handed_over(handed));
                assert(tasks@ == handed + before.sent(sent) + rest);
            }
        }
        tasks
    }
}

// ---------------------------------------------------------------------------
// Outputs
// ---------------------------------------------------------------------------

impl Common {
    /// A new output has a surface, and a text field under its name.
    pub open spec fn output_entered(
        self,
        old: Common,
        info: Option<OutputInfo>,
        output: u64,
        surface: u64,
        subsurface: u64,
    ) -> bool {
        &&& self == (Common {
            surface_ids: self.surface_ids,
            surface_names: self.surface_names,
            surface_images: self.surface_images,
            text_input_ids: self.text_input_ids,
            window_size: self.window_size,
            ..old
        })
        &&& self.surface_ids@ == old.surface_ids@.insert(output, surface)
        &&& self.window_size@ == old.window_size@.insert(surface, told_size(info))
        &&& match told_name(info) {
            Some(name) => {
                &&& self.surface_names@ == old.surface_names@.insert(surface, name).insert(
                    subsurface,
                    name,
                )
                &&& self.surface_images@ == old.surface_images@.remove(surface)
                &&& self.text_input_ids@.contains_key(name@)
                &&& self.text_input_ids@ == old.text_input_ids@.insert(
                    name@,
                    self.text_input_ids@[name@],
                )
                &&& self.text_input_ids@[name@]@ == input_name(name@)
            },
            None => {
                &&& self.surface_names == old.surface_names
                &&& self.surface_images == old.surface_images
                &&& self.text_input_ids == old.text_input_ids
            },
        }
    }

    fn enter_output(
        &mut self,
        info: Option<OutputInfo>,
        output: u64,
        surface: u64,
        subsurface: u64,
    ) -> (placement: Placement)
        ensures
            final(self).output_entered(*old(self), info, output, surface, subsurface),
            placement == menu_placement(told_size(info)),
    {
        let ghost before = *self;
        let mut logical_size: Option<(i32, i32)> = None;
        let mut name_opt: Option<String> = None;
        if let Some(info) = info {
            logical_size = info.logical_size;
            name_opt = info.name;
        }
        self.surface_ids.insert(output, surface);
        if let Some(name) = name_opt {
            self.surface_names.insert(surface, name.clone());
            self.surface_names.insert(subsurface, name.clone());
            self.surface_images.remove(&surface);
            let id = concat2("input-", name.as_str());
            self.text_input_ids.insert(name, id);
            proof {
                assert(self.text_input_ids@ =~= before.text_input_ids@.insert(
                    name@,
                    self.text_input_ids@[name@],
                ));
                assert(self.surface_images@ =~= before.surface_images@.remove(surface));
            }
        }
        let size: (u32, u32) = size_of_output(logical_size);
        self.window_size.insert(surface, size);
        place_menu(size)
    }

    /// An output, its surface and its text field are forgotten.
    pub open spec fn output_left(self, old: Common, output: u64) -> bool {
        &&& self == (Common {
            surface_ids: self.surface_ids,
            surface_images: self.surface_images,
            window_size: self.window_size,
            surface_names: self.surface_names,
            text_input_ids: self.text_input_ids,
            ..old
        })
        &&& self.surface_ids@ == old.surface_ids@.remove(output)
        &&& if old.surface_ids@.contains_key(output) {
            let surface = old.surface_ids@[output];
            &&& self.surface_images@ == old.surface_images@.remove(surface)
            &&& self.window_size@ == old.window_size@.remove(surface)
            &&& self.surface_names@ == old.surface_names@.remove(surface)
            &&& self.text_input_ids@ == (if old.surface_names@.contains_key(surface) {
                old.text_input_ids@.remove(old.surface_names@[surface]@)
            } else {
                old.text_input_ids@
            })
        } else {
            &&& self.surface_images == old.surface_images
            &&& self.window_size == old.window_size
            &&& self.surface_names == old.surface_names
            &&& self.text_input_ids == old.text_input_ids
        }
    }

    fn leave_output(&mut self, output: u64) -> (surface: Option<u64>)
        ensures
            final(self).output_left(*old(self), output),
            surface == (if old(self).surface_ids@.contains_key(output) {
                Some(old(self).surface_ids@[output])
            } else {
                None
            }),
    {
        let removed: Option<u64> = self.surface_ids.remove(&output);
        if let Some(surface) = removed {
            self.surface_images.remove(&surface);
            self.window_size.remove(&surface);
            if let Some(name) = self.surface_names.remove(&surface) {
                self.text_input_ids.remove(name.as_str());
            }
        }
        proof {
            assert(self.surface_ids@ =~= old(self).surface_ids@.remove(output));
        }
        removed
    }

    /// All outputs are forgotten, with their surfaces.
    pub open spec fn outputs_left(self, old: Common, surfaces: Seq<u64>) -> bool {
        &&& self == (Common {
            surface_ids: self.surface_ids,
            surface_images: self.surface_images,
            surface_names: self.surface_names,
            ..old
        })
        &&& lists_values(old.surface_ids@, surfaces)
        &&& self.surface_ids@ == Map::<u64, u64>::empty()
        &&& self.surface_images@ == old.surface_images@.remove_keys(surfaces.to_set())
        &&& self.surface_names@ == old.surface_names@.remove_keys(surfaces.to_set())
    }

    fn leave_outputs(&mut self) -> (surfaces: Vec<u64>)
        ensures
            final(self).outputs_left(*old(self), surfaces@),
    {
        let surfaces = values_of(&self.surface_ids);
        self.surface_ids.clear();
        remove_keys(&mut self.surface_images, &surfaces);
        remove_keys(&mut self.surface_names, &surfaces);
        surfaces
    }
}

impl App {
    /// An output has appeared.
    pub open spec fn output_created(
        self,
        old: App,
        info: Option<OutputInfo>,
        output: u64,
        surface: u64,
        subsurface: u64,
        tasks: Seq<Task>,
    ) -> bool {
        exists|entered: App, shown: Seq<Task>|
            #![trigger self.user_data_updated(entered, shown)]
            {
                &&& entered == (App {
                    common: entered.common,
                    surface_id_pairs: entered.surface_id_pairs,
                    ..old
                })
                &&& entered.surface_id_pairs@ == old.surface_id_pairs@.push((surface, subsurface))
                &&& entered.common.output_entered(
                    old.common,
                    info,
                    output,
                    surface,
                    subsurface,
                )
                &&& self.user_data_updated(entered, shown)
                &&& tasks == shown + seq![
                    Task::GetLayerSurface { surface, output },
                    Task::OpenMenu {
                        surface,
                        subsurface,
                        placement: menu_placement(told_size(info)),
                    },
                ]
            }
    }

    fn create_output(
        &mut self,
        info: Option<OutputInfo>,
        output: u64,
        surface: u64,
        subsurface: u64,
    ) -> (tasks: Vec<Task>)
        ensures
            final(self).output_created(*old(self), info, output, surface, subsurface, tasks@),
    {
        self.surface_id_pairs.push((surface, subsurface));
        let placement = self.common.enter_output(info, output, surface, subsurface);
        let ghost entered = *self;
        let mut tasks = self.update_user_data();
        let ghost shown = tasks@;
        tasks.push(Task::GetLayerSurface { surface, output });
        tasks.push(Task::OpenMenu { surface, subsurface, placement });
        proof {
            assert(self.user_data_updated(entered, shown));
            assert(tasks@ == shown + seq![
                Task::GetLayerSurface { surface, output },
                Task::OpenMenu { surface, subsurface, placement },
            ]);
        }
        tasks
    }

    /// An output has disappeared, and its surface with it.
    pub open spec fn output_removed(self, old: App, output: u64, tasks: Seq<Task>) -> bool {
        &&& self == (App { common: self.common, ..old })
        &&& self.common.output_left(old.common, output)
        &&& tasks == (if old.common.surface_ids@.contains_key(output) {
            seq![Task::DestroyLayerSurface(old.common.surface_ids@[output])]
        } else {
            Seq::empty()
        })
    }

    fn remove_output(&mut self, output: u64) -> (tasks: Vec<Task>)
        ensures
            final(self).output_removed(*old(self), output, tasks@),
    {
        let mut tasks: Vec<Task> = Vec::new();
        if let Some(surface) = self.common.leave_output(output) {
            tasks.push(Task::DestroyLayerSurface(surface));
            proof {
                assert(tasks@ == seq![Task::DestroyLayerSurface(surface)]);
            }
        }
        tasks
    }

    /// The greeter ends: every surface goes, and then the process.
    pub open spec fn ended(self, old: App, tasks: Seq<Task>) -> bool {
        &&& self == (App { common: self.common, ..old })
        &&& exists|surfaces: Seq<u64>|
            #![trigger self.common.outputs_left(old.common, surfaces)]
            {
                &&& self.common.outputs_left(old.common, surfaces)
                &&& tasks == surfaces.map_values(
                    |surface: u64| Task::DestroyLayerSurface(surface),
                ).push(Task::Exit)
            }
    }

    fn end(&mut self) -> (tasks: Vec<Task>)
        ensures
            final(self).ended(*old(self), tasks@),
    {
        let surfaces = self.common.leave_outputs();
        let mut tasks = destroy_all(&surfaces);
        tasks.push(Task::Exit);
        tasks
    }
}

fn destroy_all(surfaces: &Vec<u64>) -> (tasks: Vec<Task>)
    ensures
        tasks@ == surfaces@.map_values(|surface: u64| Task::DestroyLayerSurface(surface)),
{
    let mut tasks: Vec<Task> = Vec::new();
    for i in 0..surfaces.len()
        invariant
            tasks@ == surfaces@.take(i as int).map_values(
                |surface: u64| Task::DestroyLayerSurface(surface),
            ),
    {
        tasks.push(Task::DestroyLayerSurface(surfaces[i]));
        proof {
            assert(surfaces@.take(i as int + 1) == surfaces@.take(i as int).push(
                surfaces@[i as int],
            ));
            assert(tasks@ == surfaces@.take(i as int + 1).map_values(
                |surface: u64| Task::DestroyLayerSurface(surface),
            ));
        }
    }
    proof {
        assert(surfaces@.take(surfaces@.len() as int) == surfaces@);
    }
    tasks
}

/// The menu of a surface: the first that was opened for it.
pub open spec fn menu_of(pairs: Seq<(u64, u64)>, surface: u64) -> Option<u64>
    decreases pairs.len(),
{
    if pairs.len() == 0 {
        None
    } else if pairs[0].0 == surface {
        Some(pairs[0].1)
    } else {
        menu_of(pairs.drop_first(), surface)
    }
}

fn find_menu(pairs: &Vec<(u64, u64)>, surface: u64) -> (found: Option<u64>)
    ensures
        found == menu_of(pairs@, surface),
{
    let mut i: usize = 0;
    proof {
        assert(pairs@.skip(0) == pairs@);
    }
    while i < pairs.len()
        invariant
            i <= pairs@.len(),
            menu_of(pairs@, surface) == menu_of(pairs@.skip(i as int), surface),
        decreases pairs@.len() - i,
    {
        if pairs[i].0 == surface {
            return Some(pairs[i].1);
        }
        proof {
            assert(pairs@.skip(i as int).drop_first() == pairs@.skip(i as int + 1));
        }
        i = i + 1;
    }
    None
}

/// What follows when a window has been resized.
pub open spec fn reposition_tasks(pairs: Seq<(u64, u64)>, surface: u64, width: u32) -> Seq<Task> {
    match menu_of(pairs, surface) {
        Some(subsurface) => seq![
            Task::Reposition {
                subsurface,
                x: menu_corner(width).0,
                y: menu_corner(width).1,
            },
        ],
        None => Seq::empty(),
    }
}

fn reposition(pairs: &Vec<(u64, u64)>, surface: u64, width: u32) -> (tasks: Vec<Task>)
    ensures
        tasks@ == reposition_tasks(pairs@, surface, width),
{
    let mut tasks: Vec<Task> = Vec::new();
    if let Some(subsurface) = find_menu(pairs, surface) {
        let (x, y): (i32, i32) = corner_of_menu(width);
        tasks.push(Task::Reposition { subsurface, x, y });
    }
    proof {
        assert(tasks@ == reposition_tasks(pairs@, surface, width));
    }
    tasks
}

// ---------------------------------------------------------------------------
// Restarting and shutting down
// ---------------------------------------------------------------------------

/// What follows when a question has been answered with yes, if the login manager can do it.
pub open spec fn confirm_tasks(page: Option<DialogPage>, logind: bool) -> Seq<Task> {
    match page {
        Some(DialogPage::Restart(_)) if logind => seq![Task::Reboot],
        Some(DialogPage::Shutdown(_)) if logind => seq![Task::PowerOff],
        _ => Seq::empty(),
    }
}

impl App {
    /// The question has been answered with yes.
    pub open spec fn dialog_confirmed(self, old: App, tasks: Seq<Task>) -> bool {
        &&& self == (App { dialog_page_opt: None, ..old })
        &&& tasks == confirm_tasks(old.dialog_page_opt, old.flags.logind)
    }

    fn confirm_dialog(&mut self) -> (tasks: Vec<Task>)
        ensures
            final(self).dialog_confirmed(*old(self), tasks@),
    {
        let mut tasks: Vec<Task> = Vec::new();
        let page = self.dialog_page_opt;
        self.dialog_page_opt = None;
        if self.flags.logind {
            match page {
                Some(DialogPage::Restart(_)) => {
                    tasks.push(Task::Reboot);
                },
                Some(DialogPage::Shutdown(_)) => {
                    tasks.push(Task::PowerOff);
                },
                None => {},
            }
        }
        proof {
            assert(tasks@ == confirm_tasks(page, self.flags.logind));
        }
        tasks
    }

    /// The question has been answered with no.
    pub open spec fn dialog_cancelled(self, old: App, tasks: Seq<Task>) -> bool {
        &&& self == (App { dialog_page_opt: None, heartbeat_handle: false, ..old })
        &&& tasks == (if old.heartbeat_handle {
            seq![Task::StopHeartbeat]
        } else {
            Seq::empty()
        })
    }

    fn cancel_dialog(&mut self) -> (tasks: Vec<Task>)
        ensures
            final(self).dialog_cancelled(*old(self), tasks@),
    {
        let mut tasks: Vec<Task> = Vec::new();
        self.dialog_page_opt = None;
        if self.heartbeat_handle {
            self.heartbeat_handle = false;
            tasks.push(Task::StopHeartbeat);
            proof {
                assert(tasks@ == seq![Task::StopHeartbeat]);
            }
        }
        tasks
    }

    /// A question has been asked. A heartbeat runs while it waits.
    pub open spec fn dialog_opened(self, old: App, page: DialogPage, tasks: Seq<Task>) -> bool {
        &&& self == (App { dialog_page_opt: Some(page), heartbeat_handle: true, ..old })
        &&& tasks == (if old.heartbeat_handle {
            Seq::empty()
        } else {
            seq![Task::StartHeartbeat]
        })
    }

    fn open_dialog(&mut self, page: DialogPage) -> (tasks: Vec<Task>)
        ensures
            final(self).dialog_opened(*old(self), page, tasks@),
    {
        let mut tasks: Vec<Task> = Vec::new();
        self.dialog_page_opt = Some(page);
        if !self.heartbeat_handle {
            self.heartbeat_handle = true;
            tasks.push(Task::StartHeartbeat);
            proof {
                assert(tasks@ == seq![Task::StartHeartbeat]);
            }
        }
        tasks
    }

    /// A second has passed. A question that has waited long enough counts as answered with yes.
    pub open spec fn heart_beat(self, old: App, now: u64, tasks: Seq<Task>) -> bool {
        match old.dialog_page_opt {
            Some(page) if time_left(page.instant(), now) is None => self.dialog_confirmed(
                old,
                tasks,
            ),
            _ => self == old && tasks.len() == 0,
        }
    }

    fn beat(&mut self, now: u64) -> (tasks: Vec<Task>)
        ensures
            final(self).heart_beat(*old(self), now, tasks@),
    {
        if let Some(page) = self.dialog_page_opt {
            let instant: u64 = match page {
                DialogPage::Restart(instant) => instant,
                DialogPage::Shutdown(instant) => instant,
            };
            if DialogPage::remaining(instant, now).is_none() {
                return self.confirm_dialog();
            }
        }
        Vec::new()
    }
}

// ---------------------------------------------------------------------------
// Accessibility
// ---------------------------------------------------------------------------

/// Writing a setting, if that is possible.
pub open spec fn save_tasks(helper: bool, setting: AccessibilitySetting) -> Seq<Task> {
    if helper {
        seq![Task::SaveAccessibility(setting)]
    } else {
        Seq::empty()
    }
}

impl Accessibility {
    fn save(&self, setting: AccessibilitySetting, tasks: &mut Vec<Task>)
        ensures
            final(tasks)@ == old(tasks)@ + save_tasks(self.helper, setting),
    {
        if self.helper {
            tasks.push(Task::SaveAccessibility(setting));
        }
        proof {
            assert(tasks@ == old(tasks)@ + save_tasks(self.helper, setting));
        }
    }

    /// The screen reader has been turned on or off. `waited` says that a running one could be
    /// asked how it is.
    pub open spec fn reader_switched(
        self,
        old: Accessibility,
        enabled: bool,
        waited: bool,
        tasks: Seq<Task>,
    ) -> bool {
        let saved = save_tasks(old.helper, AccessibilitySetting::ScreenReader(enabled));
        &&& self == (Accessibility { screen_reader: false, ..old })
        &&& if enabled && (!old.screen_reader || waited) {
            tasks == seq![Task::StartScreenReader] + saved
        } else if old.screen_reader {
            tasks == seq![Task::StopScreenReader]
        } else {
            tasks == saved
        }
    }

    fn switch_reader(&mut self, enabled: bool, waited: bool) -> (tasks: Vec<Task>)
        ensures
            final(self).reader_switched(*old(self), enabled, waited, tasks@),
    {
        let mut tasks: Vec<Task> = Vec::new();
        if enabled && (!self.screen_reader || waited) {
            self.screen_reader = false;
            tasks.push(Task::StartScreenReader);
            proof {
                assert(tasks@ == seq![Task::StartScreenReader]);
            }
        } else if self.screen_reader {
            self.screen_reader = false;
            tasks.push(Task::StopScreenReader);
            proof {
                assert(tasks@ == seq![Task::StopScreenReader]);
            }
            return tasks;
        }
        self.save(AccessibilitySetting::ScreenReader(enabled), &mut tasks);
        proof {
            let saved = save_tasks(self.helper, AccessibilitySetting::ScreenReader(enabled));
            assert(Seq::<Task>::empty() + saved == saved);
        }
        tasks
    }

    /// The magnifier has been turned on or off. It stays off where the compositor cannot be asked.
    pub open spec fn magnifier_switched(
        self,
        old: Accessibility,
        enabled: bool,
        tasks: Seq<Task>,
    ) -> bool {
        if old.wayland_sender {
            &&& self == (Accessibility { magnifier: enabled, ..old })
            &&& tasks == seq![
                Task::Accessibility(AccessibilityRequest::Magnifier(enabled)),
            ] + save_tasks(old.helper, AccessibilitySetting::Magnifier(enabled))
        } else {
            &&& self == (Accessibility { magnifier: false, ..old })
            &&& tasks.len() == 0
        }
    }

    fn switch_magnifier(&mut self, enabled: bool) -> (tasks: Vec<Task>)
        ensures
            final(self).magnifier_switched(*old(self), enabled, tasks@),
    {
        let mut tasks: Vec<Task> = Vec::new();
        if self.wayland_sender {
            self.magnifier = enabled;
            tasks.push(Task::Accessibility(AccessibilityRequest::Magnifier(enabled)));
            proof {
                assert(tasks@ == seq![
                    Task::Accessibility(AccessibilityRequest::Magnifier(enabled)),
                ]);
            }
            self.save(AccessibilitySetting::Magnifier(enabled), &mut tasks);
        } else {
            self.magnifier = false;
        }
        tasks
    }

    /// The colours have been inverted or restored. They stay as they are where the compositor
    /// cannot be asked.
    pub open spec fn colors_switched(
        self,
        old: Accessibility,
        enabled: bool,
        tasks: Seq<Task>,
    ) -> bool {
        if old.wayland_sender {
            &&& self == (Accessibility { invert_colors: enabled, ..old })
            &&& tasks == seq![
                Task::Accessibility(AccessibilityRequest::ScreenFilter { inverted: enabled }),
            ] + save_tasks(old.helper, AccessibilitySetting::InvertColors(enabled))
        } else {
            &&& self == (Accessibility { invert_colors: false, ..old })
            &&& tasks.len() == 0
        }
    }

    fn switch_colors(&mut self, enabled: bool) -> (tasks: Vec<Task>)
        ensures
            final(self).colors_switched(*old(self), enabled, tasks@),
    {
        let mut tasks: Vec<Task> = Vec::new();
        if self.wayland_sender {
            self.invert_colors = enabled;
            tasks.push(
                Task::Accessibility(AccessibilityRequest::ScreenFilter { inverted: enabled }),
            );
            proof {
                assert(tasks@ == seq![
                    Task::Accessibility(AccessibilityRequest::ScreenFilter { inverted: enabled }),
                ]);
            }
            self.save(AccessibilitySetting::InvertColors(enabled), &mut tasks);
        } else {
            self.invert_colors = false;
        }
        tasks
    }

    /// News of the compositor's protocol have been taken over.
    pub open spec fn news_heard(
        self,
        old: Accessibility,
        update: WaylandUpdate,
        tasks: Seq<Task>,
    ) -> bool {
        match update {
            WaylandUpdate::Errored => {
                &&& self == (Accessibility {
                    wayland_sender: false,
                    wayland_protocol_version: None,
                    magnifier: false,
                    invert_colors: false,
                    ..old
                })
                &&& tasks.len() == 0
            },
            WaylandUpdate::Bound(version) => {
                &&& self == (Accessibility { wayland_protocol_version: Some(version), ..old })
                &&& tasks.len() == 0
            },
            WaylandUpdate::Magnifier(enabled) => {
                &&& self == (Accessibility { magnifier: enabled, ..old })
                &&& tasks.len() == 0
            },
            WaylandUpdate::ScreenFilter { inverted } => {
                &&& self == (Accessibility { invert_colors: inverted, ..old })
                &&& tasks.len() == 0
            },
            WaylandUpdate::Closed => {
                &&& self == (Accessibility {
                    wayland_sender: false,
                    wayland_protocol_version: None,
                    ..old
                })
                &&& tasks.len() == 0
            },
            WaylandUpdate::Started => {
                &&& self == (Accessibility { wayland_sender: true, ..old })
                &&& tasks == seq![
                    Task::Accessibility(
                        AccessibilityRequest::ScreenFilter { inverted: old.invert_colors },
                    ),
                    Task::Accessibility(AccessibilityRequest::Magnifier(old.magnifier)),
                ]
            },
        }
    }

    fn hear(&mut self, update: WaylandUpdate) -> (tasks: Vec<Task>)
        ensures
            final(self).news_heard(*old(self), update, tasks@),
    {
        let mut tasks: Vec<Task> = Vec::new();
        match update {
            WaylandUpdate::Errored => {
                self.wayland_sender = false;
                self.wayland_protocol_version = None;
                self.magnifier = false;
                self.invert_colors = false;
            },
            WaylandUpdate::Bound(version) => {
                self.wayland_protocol_version = Some(version);
            },
            WaylandUpdate::Magnifier(enabled) => {
                self.magnifier = enabled;
            },
            WaylandUpdate::ScreenFilter { inverted } => {
                self.invert_colors = inverted;
            },
            WaylandUpdate::Closed => {
                self.wayland_sender = false;
                self.wayland_protocol_version = None;
            },
            WaylandUpdate::Started => {
                tasks.push(
                    Task::Accessibility(
                        AccessibilityRequest::ScreenFilter { inverted: self.invert_colors },
                    ),
                );
                tasks.push(Task::Accessibility(AccessibilityRequest::Magnifier(self.magnifier)));
                self.wayland_sender = true;
                proof {
                    assert(tasks@ == seq![
                        Task::Accessibility(
                            AccessibilityRequest::ScreenFilter { inverted: self.invert_colors },
                        ),
                        Task::Accessibility(AccessibilityRequest::Magnifier(self.magnifier)),
                    ]);
                }
            },
        }
        tasks
    }
}

impl App {
    /// High contrast has been turned on or off: the theme is built anew.
    pub open spec fn contrast_switched(self, old: App, enabled: bool, tasks: Seq<Task>) -> bool {
        &&& self == (App {
            accessibility: Accessibility { high_contrast: enabled, ..old.accessibility },
            ..old
        })
        &&& tasks == save_tasks(
            old.accessibility.helper,
            AccessibilitySetting::HighContrast(enabled),
        ) + seq![tasks.last()]
        &&& tasks.last() is BuildTheme
        &&& ({
            let builder = tasks.last()->BuildTheme_0;
            &&& builder == (ThemeBuilder { palette: builder.palette, ..old.theme_builder })
            &&& builder.palette.dark() == old.theme_builder.palette.dark()
            &&& builder.palette.high_contrast() == enabled
        })
    }

    fn switch_contrast(&mut self, enabled: bool) -> (tasks: Vec<Task>)
        ensures
            final(self).contrast_switched(*old(self), enabled, tasks@),
    {
        let mut tasks: Vec<Task> = Vec::new();
        self.accessibility.high_contrast = enabled;
        self.accessibility.save(AccessibilitySetting::HighContrast(enabled), &mut tasks);
        let builder = apply_hc_theme(self.theme_builder.copy(), enabled);
        tasks.push(Task::BuildTheme(builder));
        proof {
            let saved = save_tasks(
                self.accessibility.helper,
                AccessibilitySetting::HighContrast(enabled),
            );
            assert(tasks@ == saved + seq![Task::BuildTheme(builder)]);
        }
        tasks
    }
}

// ---------------------------------------------------------------------------
// Messages
// ---------------------------------------------------------------------------

impl App {
    /// A session is there to be started when a login succeeds.
    pub open spec fn ready_for(self, message: Message) -> bool {
        &&& distinct_names(self.flags.sessions@)
        &&& message is Login ==> lookup(self.flags.sessions@, self.selected_session@) is Some
    }

    /// What a message does to the greeter, and what is to be done about it. `surface` and
    /// `subsurface` are numbers for new surfaces.
    pub open spec fn updated(
        self,
        old: App,
        message: Message,
        surface: u64,
        subsurface: u64,
        tasks: Seq<Task>,
    ) -> bool {
        match message {
            Message::Common(message) => {
                &&& self == (App { common: self.common, ..old })
                &&& exists|inner: Seq<common::Task>|
                    tasks == #[trigger] common_tasks(inner) && self.common.updated(
                        old.common,
                        message,
                        inner,
                    )
            },
            Message::OutputEvent(OutputEvent::Created(info), output) => self.output_created(
                old,
                info,
                output,
                surface,
                subsurface,
                tasks,
            ),
            Message::OutputEvent(OutputEvent::Removed, output) => self.output_removed(
                old,
                output,
                tasks,
            ),
            Message::OutputEvent(OutputEvent::InfoUpdate(_), _) => self == old && tasks.len() == 0,
            Message::Auth(response) => {
                &&& self == (App {
                    common: Common { prompt_opt: None, error_opt: None, ..old.common },
                    ..old
                })
                &&& tasks == old.sent(Request::PostAuthMessageResponse { response })
            },
            Message::ConfigUpdateUser => self.login_remembered(old, tasks),
            Message::DialogCancel => self.dialog_cancelled(old, tasks),
            Message::DialogConfirm => self.dialog_confirmed(old, tasks),
            Message::DropdownToggle(dropdown) => {
                &&& self == (App { dropdown_opt: toggled(old.dropdown_opt, dropdown), ..old })
                &&& tasks.len() == 0
            },
            Message::Error(error) => {
                &&& self == (App {
                    common: Common { error_opt: Some(error), ..old.common },
                    ..old
                })
                &&& tasks == old.sent(Request::CancelSession)
            },
            Message::Exit => self.ended(old, tasks),
            Message::GreetdChannel => {
                &&& self == (App { greetd_sender: true, ..old })
                &&& tasks.len() == 0
            },
            Message::RandrUpdate(Some(displays)) => self.displays_listed(old, displays@, tasks),
            Message::RandrUpdate(None) => self == old && tasks.len() == 0,
            Message::Heartbeat(now) => self.heart_beat(old, now, tasks),
            Message::KeyboardLayout(i) => self.layout_chosen(old, i, tasks),
            Message::InputSourceSwitch => {
                &&& self.layouts_changed(old, cycled(old.common.active_layouts@), tasks)
                &&& self.dropdown_opt == old.dropdown_opt
            },
            Message::Login => self.logged_in(old, tasks),
            Message::Reconnect => self.user_data_updated(old, tasks),
            Message::Reload(theme) => self == old && tasks == seq![Task::SetTheme(theme)],
            Message::RepositionMenu(surface, width) => {
                &&& self == old
                &&& tasks == reposition_tasks(old.surface_id_pairs@, surface, width)
            },
            Message::Restart(now) => self.dialog_opened(old, DialogPage::Restart(now), tasks),
            Message::Session(session) => {
                &&& self == (App {
                    selected_session: session,
                    dropdown_opt: closed(old.dropdown_opt, Dropdown::Session),
                    ..old
                })
                &&& tasks.len() == 0
            },
            Message::Shutdown(now) => self.dialog_opened(old, DialogPage::Shutdown(now), tasks),
            Message::Socket(socket_state) => self.socket_changed(old, socket_state, tasks),
            Message::Surface(action) => self == old && tasks == seq![Task::Surface(action)],
            Message::Suspend => {
                &&& self == old
                &&& tasks == (if old.flags.logind {
                    seq![Task::Suspend]
                } else {
                    Seq::empty()
                })
            },
            Message::Username(username) => self.user_chosen(old, username, tasks),
            Message::EnterUser(focus, username) => self.user_entered(old, focus, username, tasks),
            Message::ScreenReader(enabled, waited) => {
                &&& self == (App { accessibility: self.accessibility, ..old })
                &&& self.accessibility.reader_switched(old.accessibility, enabled, waited, tasks)
            },
            Message::ScreenReaderStarted(started) => {
                &&& self == (App {
                    accessibility: Accessibility { screen_reader: started, ..old.accessibility },
                    ..old
                })
                &&& tasks.len() == 0
            },
            Message::Magnifier(enabled) => {
                &&& self == (App { accessibility: self.accessibility, ..old })
                &&& self.accessibility.magnifier_switched(old.accessibility, enabled, tasks)
            },
            Message::HighContrast(enabled) => self.contrast_switched(old, enabled, tasks),
            Message::InvertColors(enabled) => {
                &&& self == (App { accessibility: self.accessibility, ..old })
                &&& self.accessibility.colors_switched(old.accessibility, enabled, tasks)
            },
            Message::WaylandUpdate(update) => {
                &&& self == (App { accessibility: self.accessibility, ..old })
                &&& self.accessibility.news_heard(old.accessibility, update, tasks)
            },
        }
    }

    /// The state of the connection to greetd has changed. Once it is open, a session is asked for.
    pub open spec fn socket_changed(
        self,
        old: App,
        socket_state: SocketState,
        tasks: Seq<Task>,
    ) -> bool {
        &&& self == (App { socket_state, ..old })
        &&& tasks == (if socket_state is Open {
            old.sent(Request::CreateSession { username: old.selected_username.username })
        } else {
            Seq::empty()
        })
    }

    fn change_socket(&mut self, socket_state: SocketState) -> (tasks: Vec<Task>)
        ensures
            final(self).socket_changed(*old(self), socket_state, tasks@),
    {
        let mut tasks: Vec<Task> = Vec::new();
        self.socket_state = socket_state;
        if let SocketState::Open = self.socket_state {
            let username = self.selected_username.username.clone();
            self.send_request(Request::CreateSession { username }, &mut tasks);
            proof {
                assert(tasks@ == self.sent(Request::CreateSession { username }));
                assert(self.sent(Request::CreateSession { username }) == old(self).sent(
                    Request::CreateSession { username },
                ));
            }
        }
        tasks
    }

    fn common_message(&mut self, message: common::Message) -> (tasks: Vec<Task>)
        ensures
            final(self).updated(*old(self), Message::Common(message), 0, 0, tasks@),
    {
        let inner = self.common.update(message);
        let ghost all = inner@;
        let tasks = wrap(inner);
        proof {
            assert(tasks@ == common_tasks(all));
        }
        tasks
    }

    fn authenticate(&mut self, response: Option<String>) -> (tasks: Vec<Task>)
        ensures
            final(self).updated(*old(self), Message::Auth(response), 0, 0, tasks@),
    {
        let mut tasks: Vec<Task> = Vec::new();
        self.common.prompt_opt = None;
        self.common.error_opt = None;
        self.send_request(Request::PostAuthMessageResponse { response }, &mut tasks);
        proof {
            assert(tasks@ == old(self).sent(Request::PostAuthMessageResponse { response }));
        }
        tasks
    }

    fn fail(&mut self, error: String) -> (tasks: Vec<Task>)
        ensures
            final(self).updated(*old(self), Message::Error(error), 0, 0, tasks@),
    {
        let mut tasks: Vec<Task> = Vec::new();
        self.common.error_opt = Some(error);
        self.send_request(Request::CancelSession, &mut tasks);
        proof {
            assert(tasks@ == old(self).sent(Request::CancelSession));
        }
        tasks
    }

    fn toggle(&mut self, dropdown: Dropdown)
        ensures
            *final(self) == (App {
                dropdown_opt: toggled(old(self).dropdown_opt, dropdown),
                ..*old(self)
            }),
    {
        let open = match &self.dropdown_opt {
            Some(open) => *open == dropdown,
            None => false,
        };
        if open {
            self.dropdown_opt = None;
        } else {
            self.dropdown_opt = Some(dropdown);
        }
    }

    fn output_event(&mut self, event: OutputEvent, output: u64, surface: u64, subsurface: u64) -> (tasks:
        Vec<Task>)
        ensures
            final(self).updated(
                *old(self),
                Message::OutputEvent(event, output),
                surface,
                subsurface,
                tasks@,
            ),
    {
        match event {
            OutputEvent::Created(info) => self.create_output(info, output, surface, subsurface),
            OutputEvent::Removed => self.remove_output(output),
            OutputEvent::InfoUpdate(_) => Vec::new(),
        }
    }

    /// Handles a message. `surface` and `subsurface` are numbers for new surfaces.
    pub fn update(&mut self, message: Message, surface: u64, subsurface: u64) -> (tasks: Vec<Task>)
        requires
            old(self).ready_for(message),
        ensures
            final(self).updated(*old(self), message, surface, subsurface, tasks@),
    {
        let mut tasks: Vec<Task> = Vec::new();
        match message {
            Message::Common(message) => {
                return self.common_message(message);
            },
            Message::OutputEvent(event, output) => {
                return self.output_event(event, output, surface, subsurface);
            },
            Message::Auth(response) => {
                return self.authenticate(response);
            },
            Message::ConfigUpdateUser => {
                return self.remember_login();
            },
            Message::DialogCancel => {
                return self.cancel_dialog();
            },
            Message::DialogConfirm => {
                return self.confirm_dialog();
            },
            Message::DropdownToggle(dropdown) => {
                self.toggle(dropdown);
            },
            Message::Error(error) => {
                return self.fail(error);
            },
            Message::Exit => {
                return self.end();
            },
            Message::GreetdChannel => {
                self.greetd_sender = true;
            },
            Message::RandrUpdate(displays_opt) => {
                if let Some(displays) = displays_opt {
                    return self.list_displays(displays);
                }
            },
            Message::Heartbeat(now) => {
                return self.beat(now);
            },
            Message::KeyboardLayout(i) => {
                return self.choose_layout(i);
            },
            Message::InputSourceSwitch => {
                return self.next_layout();
            },
            Message::Login => {
                return self.login();
            },
            Message::Reconnect => {
                return self.update_user_data();
            },
            Message::Reload(theme) => {
                tasks.push(Task::SetTheme(theme));
                proof {
                    assert(tasks@ == seq![Task::SetTheme(theme)]);
                }
            },
            Message::RepositionMenu(resized, width) => {
                return reposition(&self.surface_id_pairs, resized, width);
            },
            Message::Restart(now) => {
                return self.open_dialog(DialogPage::Restart(now));
            },
            Message::Session(session) => {
                self.selected_session = session;
                self.close(Dropdown::Session);
            },
            Message::Shutdown(now) => {
                return self.open_dialog(DialogPage::Shutdown(now));
            },
            Message::Socket(socket_state) => {
                return self.change_socket(socket_state);
            },
            Message::Surface(action) => {
                tasks.push(Task::Surface(action));
                proof {
                    assert(tasks@ == seq![Task::Surface(action)]);
                }
            },
            Message::Suspend => {
                if self.flags.logind {
                    tasks.push(Task::Suspend);
                    proof {
                        assert(tasks@ == seq![Task::Suspend]);
                    }
                }
            },
            Message::Username(username) => {
                return self.choose_user(username);
            },
            Message::EnterUser(focus, username) => {
                return self.enter_user(focus, username);
            },
            Message::ScreenReader(enabled, waited) => {
                return self.accessibility.switch_reader(enabled, waited);
            },
            Message::ScreenReaderStarted(started) => {
                self.accessibility.screen_reader = started;
            },
            Message::Magnifier(enabled) => {
                return self.accessibility.switch_magnifier(enabled);
            },
            Message::HighContrast(enabled) => {
                return self.switch_contrast(enabled);
            },
            Message::InvertColors(enabled) => {
                return self.accessibility.switch_colors(enabled);
            },
            Message::WaylandUpdate(update) => {
                return self.accessibility.hear(update);
            },
        }
        tasks
    }
}

// ---------------------------------------------------------------------------
// The start
// ---------------------------------------------------------------------------

/// What a [`UserName`] says.
pub struct NameModel {
    pub name: Seq<char>,
    pub full_name: Seq<char>,
}

impl View for UserName {
    type V = NameModel;

    open spec fn view(&self) -> NameModel {
        NameModel { name: self.name@, full_name: self.full_name@ }
    }
}

/// What a list of names says.
pub open spec fn name_models(names: Seq<UserName>) -> Seq<NameModel> {
    names.map_values(|name: UserName| name@)
}

/// The names of the accounts.
pub open spec fn account_names(user_datas: Seq<UserData>) -> Seq<NameModel> {
    user_datas.map_values(
        |user: UserData| NameModel { name: user.name@, full_name: user.shown_name() },
    )
}

/// Names are ordered by the full name.
pub open spec fn full_name_order() -> spec_fn(NameModel, NameModel) -> bool {
    |a: NameModel, b: NameModel| text_le(a.full_name, b.full_name)
}

proof fn lemma_full_name_order()
    ensures
        total_preorder(full_name_order()),
{
    assert forall|a: NameModel, b: NameModel| #[trigger]
        full_name_order()(a, b) || full_name_order()(b, a) by {
        lemma_text_le_total(a.full_name, b.full_name);
    }
    assert forall|a: NameModel, b: NameModel, c: NameModel| #[trigger]
        full_name_order()(a, b) && #[trigger] full_name_order()(b, c) implies full_name_order()(
        a,
        c,
    ) by {
        lemma_text_le_transitive(a.full_name, b.full_name, c.full_name);
    }
}

/// The names of the accounts, sorted by the full name.
pub fn sorted_usernames(user_datas: &Vec<UserData>) -> (names: Vec<UserName>)
    ensures
        stably_sorted(name_models(names@), account_names(user_datas@), full_name_order()),
{
    let mut names: Vec<UserName> = Vec::new();
    let ghost all = account_names(user_datas@);
    proof {
        lemma_empty(full_name_order());
        assert(all.take(0) == Seq::<NameModel>::empty());
        assert(name_models(names@) == Seq::<NameModel>::empty());
        lemma_full_name_order();
    }
    for i in 0..user_datas.len()
        invariant
            all == account_names(user_datas@),
            total_preorder(full_name_order()),
            stably_sorted(name_models(names@), all.take(i as int), full_name_order()),
    {
        let name = UserName {
            name: user_datas[i].name.clone(),
            full_name: user_datas[i].full_name_or_name().to_owned(),
        };
        let ghost models = name_models(names@);
        let mut k: usize = names.len();
        while k > 0 && !text_at_most(names[k - 1].full_name.as_str(), name.full_name.as_str())
            invariant
                k <= names@.len(),
                forall|j: int|
                    k <= j < names@.len() ==> !text_le(
                        (#[trigger] names@[j]).full_name@,
                        name.full_name@,
                    ),
            decreases k,
        {
            k = k - 1;
        }
        proof {
            assert(insertion_point(models, name@, full_name_order(), k as int)) by {
                assert forall|j: int| 0 <= j < k implies full_name_order()(
                    #[trigger] models[j],
                    name@,
                ) by {
                    assert(models[k - 1] == names@[k - 1]@);
                    if j < k - 1 {
                        assert(full_name_order()(models[j], models[k - 1]));
                        assert(full_name_order()(models[k - 1], name@));
                    }
                }
                assert forall|j: int| k <= j < models.len() implies !full_name_order()(
                    #[trigger] models[j],
                    name@,
                ) by {
                    assert(models[j] == names@[j]@);
                }
            }
            lemma_insert(models, all.take(i as int), name@, k as int, full_name_order());
            assert(all.take(i as int).push(name@) == all.take(i as int + 1));
        }
        names.insert(k, name);
        proof {
            assert(name_models(names@) == models.insert(k as int, name@));
        }
    }
    proof {
        assert(all.take(user_datas@.len() as int) == all);
    }
    names
}

/// The accounts without their pictures.
pub open spec fn without_icons(user_datas: Seq<UserData>) -> Seq<UserData> {
    user_datas.map_values(|user: UserData| UserData { icon_opt: None, ..user })
}

/// The pictures of the accounts.
pub open spec fn icons_of(user_datas: Seq<UserData>) -> Seq<Option<Vec<u8>>> {
    user_datas.map_values(|user: UserData| user.icon_opt)
}

/// Takes the pictures out of the accounts.
pub fn take_icons(user_datas: Vec<UserData>) -> (taken: (Vec<UserData>, Vec<Option<Vec<u8>>>))
    ensures
        taken.0@ == without_icons(user_datas@),
        taken.1@ == icons_of(user_datas@),
{
    let mut rest = user_datas;
    let ghost all = rest@;
    let mut left: Vec<UserData> = Vec::new();
    let mut icons: Vec<Option<Vec<u8>>> = Vec::new();
    while rest.len() > 0
        invariant
            all.len() == left@.len() + rest@.len(),
            rest@ == all.skip(left@.len() as int),
            left@ == without_icons(all.take(left@.len() as int)),
            icons@ == icons_of(all.take(left@.len() as int)),
        decreases rest@.len(),
    {
        let ghost n = left@.len() as int;
        let mut user = rest.remove(0);
        let ghost before = user;
        let icon = user.icon_opt.take();
        icons.push(icon);
        left.push(user);
        proof {
            assert(all.take(n + 1) == all.take(n).push(before));
            assert(left@ == without_icons(all.take(n + 1)));
            assert(icons@ == icons_of(all.take(n + 1)));
        }
    }
    proof {
        assert(all.take(all.len() as int) == all);
    }
    (left, icons)
}

/// Which accounts have pictures.
pub open spec fn have_icons(icons: Seq<Option<Vec<u8>>>) -> Seq<bool> {
    icons.map_values(|icon: Option<Vec<u8>>| icon is Some)
}

fn which_have_icons(icons: &Vec<Option<Vec<u8>>>) -> (which: Vec<bool>)
    ensures
        which@ == have_icons(icons@),
{
    let mut which: Vec<bool> = Vec::new();
    for i in 0..icons.len()
        invariant
            which@ == have_icons(icons@.take(i as int)),
    {
        which.push(icons[i].is_some());
        proof {
            assert(icons@.take(i as int + 1) == icons@.take(i as int).push(icons@[i as int]));
            assert(which@ == have_icons(icons@.take(i as int + 1)));
        }
    }
    proof {
        assert(icons@.take(icons@.len() as int) == icons@);
    }
    which
}

impl Flags {
    /// What the greeter is started with comes from these accounts, in order, from what is
    /// remembered of them, and from these session files.
    pub open spec fn prepared(
        self,
        sorted: Seq<UserData>,
        settings: Settings<Config>,
        files: Seq<SessionFile>,
        logind: bool,
    ) -> bool {
        &&& self.user_datas@ == without_icons(sorted)
        &&& self.user_icons@ == have_icons(icons_of(sorted))
        &&& distinct_names(self.sessions@)
        &&& forall|name: Seq<char>| #[trigger]
            lookup(self.sessions@, name) == last_described(files, name)
        &&& self.greeter_config_handler == settings.found() is Some
        &&& match settings.found() {
            Some(config) => {
                &&& self.greeter_config.last_user == config.last_user
                &&& self.greeter_config.users@ == config.users@.restrict(
                    Set::new(|uid: u32| has_uid(sorted, uid)),
                )
            },
            None => {
                &&& self.greeter_config.last_user is None
                &&& self.greeter_config.users@ == Map::<u32, UserState>::empty()
            },
        }
        &&& self.logind == logind
    }

    /// Prepares the start of the greeter: the accounts are sorted by their ids, accounts that are
    /// gone are forgotten, and the session files are read. The pictures are handed back.
    pub fn prepare(
        user_datas: Vec<UserData>,
        settings: Settings<Config>,
        files: &Vec<SessionFile>,
        logind: bool,
    ) -> (prepared: (Flags, Vec<Option<Vec<u8>>>))
        ensures
            exists|sorted: Seq<UserData>| #[trigger]
                stably_sorted(sorted, user_datas@, uid_order()) && {
                    &&& prepared.0.prepared(sorted, settings, files@, logind)
                    &&& prepared.1@ == icons_of(sorted)
                },
    {
        let sorted = sort_by_uid(user_datas);
        let ghost in_order = sorted@;
        let (mut greeter_config, greeter_config_handler) = Config::load(settings);
        greeter_config.retain_users(&sorted);
        let sessions = collect_sessions(files);
        let (user_datas, icons) = take_icons(sorted);
        let user_icons = which_have_icons(&icons);
        let flags = Flags {
            user_datas,
            user_icons,
            sessions,
            greeter_config,
            greeter_config_handler,
            logind,
        };
        proof {
            if settings.found() is None {
                assert(flags.greeter_config.users@ =~= Map::<u32, UserState>::empty());
            }
            assert(flags.prepared(in_order, settings, files@, logind));
        }
        (flags, icons)
    }
}

impl App {
    /// The greeter has just been started.
    pub open spec fn is_started(
        self,
        flags: Flags,
        accessibility_helper: bool,
        looked_up: Option<Seq<char>>,
    ) -> bool {
        let user = greeted(
            opt_uid(flags.greeter_config.last_user),
            flags.user_datas@,
            looked_up,
        );
        &&& self.flags == flags
        &&& !self.greetd_sender
        &&& self.socket_state is Pending
        &&& stably_sorted(
            name_models(self.usernames@),
            account_names(flags.user_datas@),
            full_name_order(),
        )
        &&& self.selected_username.username@ == user.0
        &&& self.selected_username.points_into(flags.user_datas@)
        &&& stably_sorted(self.session_names@, names_of(flags.sessions@), name_order())
        &&& self.selected_session@ == offered_session(
            flags.greeter_config.users@,
            user.1,
            texts(self.session_names@),
        )
        &&& self.dialog_page_opt is None
        &&& self.dropdown_opt is None
        &&& !self.heartbeat_handle
        &&& !self.entering_name
        &&& self.theme_builder.palette == Palette::Dark
        &&& self.theme_builder.notation@.len() == 0
        &&& self.surface_id_pairs@.len() == 0
        &&& self.randr_list is None
        &&& self.accessibility == (Accessibility {
            wayland_sender: false,
            wayland_protocol_version: None,
            helper: accessibility_helper,
            screen_reader: false,
            magnifier: false,
            high_contrast: false,
            invert_colors: false,
        })
    }

    /// The greeter at the start, with frosted wallpapers, when the account database has
    /// `looked_up` as the name of the last user.
    pub fn init(
        flags: Flags,
        comp_config_open: bool,
        layouts_opt: Option<KeyboardLayouts>,
        time: Time,
        accessibility_helper: bool,
        looked_up: Option<String>,
    ) -> (started: (App, Vec<Task>))
        ensures
            started.0.is_started(flags, accessibility_helper, opt_text(looked_up)),
            exists|fresh: Common|
                #![trigger fresh.is_new(comp_config_open, layouts_opt, time, false)]
                fresh.is_new(comp_config_open, layouts_opt, time, false) && started.0.common == (
                Common { on_output_event: true, ..fresh }),
            started.1@ == common_tasks(seq![common::Task::Clock, common::Task::TimeZone]),
    {
        let (mut common, inner) = Common::init(comp_config_open, layouts_opt, time, false);
        proof {
            assert(common.is_new(comp_config_open, layouts_opt, time, false));
        }
        common.on_output_event = true;
        let usernames = sorted_usernames(&flags.user_datas);
        let (username, uid) = greeted_user(&flags.greeter_config, &flags.user_datas, looked_up);
        let session_names = sorted_names(&flags.sessions);
        let selected_session = session_to_offer(&flags.greeter_config, uid, &session_names);
        let selected_username = NameIndexPair::find(username, &flags.user_datas);
        let app = App {
            common,
            flags,
            greetd_sender: false,
            socket_state: SocketState::Pending,
            usernames,
            selected_username,
            session_names,
            selected_session,
            dialog_page_opt: None,
            dropdown_opt: None,
            heartbeat_handle: false,
            entering_name: false,
            theme_builder: ThemeBuilder { palette: Palette::Dark, notation: String::new() },
            surface_id_pairs: Vec::new(),
            randr_list: None,
            accessibility: Accessibility {
                wayland_sender: false,
                wayland_protocol_version: None,
                helper: accessibility_helper,
                screen_reader: false,
                magnifier: false,
                high_contrast: false,
                invert_colors: false,
            },
        };
        (app, wrap(inner))
    }

    /// The greeter at the start. The account database is asked for the last user where the
    /// accounts that are known do not have them.
    pub fn start(
        flags: Flags,
        comp_config_open: bool,
        layouts_opt: Option<KeyboardLayouts>,
        time: Time,
        accessibility_helper: bool,
    ) -> (started: (App, Vec<Task>))
        ensures
            exists|looked_up: Option<Seq<char>>|
                is_looked_up(
                    opt_uid(flags.greeter_config.last_user),
                    flags.user_datas@,
                    looked_up,
                ) && #[trigger] started.0.is_started(flags, accessibility_helper, looked_up),
            exists|fresh: Common|
                #![trigger fresh.is_new(comp_config_open, layouts_opt, time, false)]
                fresh.is_new(comp_config_open, layouts_opt, time, false) && started.0.common == (
                Common { on_output_event: true, ..fresh }),
            started.1@ == common_tasks(seq![common::Task::Clock, common::Task::TimeZone]),
    {
        let looked_up = look_up_last_user(&flags.greeter_config, &flags.user_datas);
        let ghost name = opt_text(looked_up);
        let started = App::init(
            flags,
            comp_config_open,
            layouts_opt,
            time,
            accessibility_helper,
            looked_up,
        );
        proof {
            assert(started.0.is_started(flags, accessibility_helper, name));
        }
        started
    }
}

// ---------------------------------------------------------------------------
// Laws
// ---------------------------------------------------------------------------

/// The field for the user's name and the selected account never get out of step, and neither the
/// accounts nor the sessions ever change.
pub proof fn law_selection_stays_in_step(
    old: App,
    new: App,
    message: Message,
    surface: u64,
    subsurface: u64,
    tasks: Seq<Task>,
)
    requires
        new.updated(old, message, surface, subsurface, tasks),
        old.selected_username.points_into(old.flags.user_datas@),
    ensures
        new.selected_username.points_into(new.flags.user_datas@),
        new.flags.user_datas == old.flags.user_datas,
        new.flags.sessions == old.flags.sessions,
{
}

/// The task asks greetd to start a session.
pub open spec fn starts_session(task: Task) -> bool {
    task matches Task::Send(request) && request is StartSession
}

/// The task restarts the machine or shuts it down.
pub open spec fn stops_machine(task: Task) -> bool {
    task is Reboot || task is PowerOff
}

/// greetd is asked to start a session only once it has accepted the user, and the machine is
/// stopped only once a question about it has been confirmed or has timed out.
#[verifier::spinoff_prover]
#[verifier::rlimit(40)]
pub proof fn law_nothing_starts_or_stops_by_itself(
    old: App,
    new: App,
    message: Message,
    surface: u64,
    subsurface: u64,
    tasks: Seq<Task>,
    i: int,
)
    requires
        new.updated(old, message, surface, subsurface, tasks),
        0 <= i < tasks.len(),
    ensures
        starts_session(tasks[i]) ==> message is Login,
        stops_machine(tasks[i]) ==> old.dialog_page_opt is Some && (message is DialogConfirm || (
        message matches Message::Heartbeat(now) && time_left(
            old.dialog_page_opt->0.instant(),
            now,
        ) is None)),
{
}

/// Layouts are handed over only for somebody who has just been accepted, and before the session is
/// asked for.
#[verifier::spinoff_prover]
#[verifier::rlimit(40)]
pub proof fn law_layouts_are_handed_over_on_login(
    old: App,
    new: App,
    message: Message,
    surface: u64,
    subsurface: u64,
    tasks: Seq<Task>,
    i: int,
)
    requires
        new.updated(old, message, surface, subsurface, tasks),
        0 <= i < tasks.len(),
        tasks[i] is PersistXkbConfig,
    ensures
        message is Login,
        i == 0,
{
}

/// A question that was answered with no is over: the machine is not stopped by later heartbeats.
pub proof fn law_cancelled_dialog_stays_closed(
    old: App,
    cancelled: App,
    first: Seq<Task>,
    later: App,
    now: u64,
    second: Seq<Task>,
)
    requires
        cancelled.dialog_cancelled(old, first),
        later.heart_beat(cancelled, now, second),
    ensures
        later == cancelled,
        second.len() == 0,
{
}

/// A question waits for an answer for a minute, and not longer.
pub proof fn law_dialog_waits_a_minute(instant: u64, now: u64)
    requires
        instant <= now,
    ensures
        time_left(instant, now) is None <==> now - instant >= 60_000_000_000,
        time_left(instant, now) is Some ==> time_left(instant, now)->0 + (now - instant)
            == 60_000_000_000,
{
}

/// Pressing the button of a menu twice leaves it closed if it was closed, and open if it was open.
pub proof fn law_toggle_twice(dropdown: Dropdown)
    ensures
        toggled(toggled(None, dropdown), dropdown) is None,
        toggled(toggled(Some(dropdown), dropdown), dropdown) == Some(dropdown),
{
}

/// Whoever logs in is greeted first the next time, with the session that they chose, as long as
/// the account is still known.
pub proof fn law_login_comes_back(old: App, new: App, tasks: Seq<Task>, session_names: Seq<Seq<char>>)
    requires
        new.login_remembered(old, tasks),
        old.selected() is Some,
        old.selected()->0.uid != 0,
        old.flags.greeter_config_handler,
    ensures
        ({
            let uid = old.selected()->0.uid;
            let config = new.flags.greeter_config;
            let next = greeted(opt_uid(config.last_user), new.flags.user_datas@, None);
            &&& next.1 == Some(uid)
            &&& offered_session(config.users@, next.1, session_names) == old.selected_session@
        }),
{
    let uid = old.selected()->0.uid;
    let i = old.selected_username.data_idx->0;
    assert(old.flags.user_datas@[i as int].uid == uid);
    assert(crate::config::has_uid(new.flags.user_datas@, uid));
    crate::config::law_last_login_comes_back(
        new.flags.greeter_config.users@,
        uid,
        old.selected_session@,
        new.flags.user_datas@,
        session_names,
    );
}

}
