//! The menu of the greeter.
use crate::common::Prompt;
use crate::greeter::{time_left, App, DialogPage, Dropdown, SocketState, UserName};
use crate::menu::{
    height_of_list, input_view, layout_items, list_height, lists_layouts, shows_input,
    shows_status, status_view, InputView, LayoutItem, ListHeight, StatusView,
    DEFAULT_MENU_ITEM_HEIGHT,
};
use crate::text::{clone_opt, concat2};
use crate::user::UserData;
use vstd::prelude::*;
use vstd::string::*;

verus! {

broadcast use vstd::string::group_string_axioms;

/// An account in its menu.
#[derive(Debug, PartialEq, Eq)]
pub struct UserItem {
    pub label: String,
    pub checked: bool,
    pub username: String,
}

/// A session in its menu.
#[derive(Debug, PartialEq, Eq)]
pub struct SessionItem {
    pub label: String,
    pub checked: bool,
}

/// What an item of the accessibility menu is for.
#[derive(Clone, Copy, Debug, PartialEq, Eq, Structural)]
pub enum Aid {
    ScreenReader,
    Magnifier,
    HighContrast,
    InvertColors,
}

/// An item of the accessibility menu. Choosing it turns the aid off if it is on, and on otherwise.
#[derive(Clone, Copy, Debug, PartialEq, Eq, Structural)]
pub struct AidItem {
    pub aid: Aid,
    pub checked: bool,
}

/// The menu that is open.
#[derive(Debug, PartialEq, Eq)]
pub enum DropdownView {
    Accessibility(Vec<AidItem>),
    Keyboard { items: Vec<LayoutItem>, height: ListHeight },
    /// The accounts, and below them an item for typing another name.
    User { items: Vec<UserItem>, height: ListHeight },
    Session { items: Vec<SessionItem>, height: ListHeight },
}

/// The most accounts that the menu of users shows without scrolling, and one.
pub const MANY_USERS: usize = 6;

/// How high the list of accounts is: the item below it does not scroll with it.
pub open spec fn user_list_height(users: nat) -> ListHeight {
    if users >= MANY_USERS {
        ListHeight::Scrolling((DEFAULT_MENU_ITEM_HEIGHT * 6) as u32)
    } else {
        ListHeight::Natural
    }
}

/// An item for every account; the selected one is checked.
pub open spec fn lists_users(items: Seq<UserItem>, users: Seq<UserName>, selected: Seq<char>) -> bool {
    &&& items.len() == users.len()
    &&& forall|i: int|
        0 <= i < items.len() ==> {
            &&& (#[trigger] items[i]).label == users[i].full_name
            &&& items[i].checked == (users[i].name@ == selected)
            &&& items[i].username == users[i].name
        }
}

/// An item for every session; the selected one is checked.
pub open spec fn lists_sessions(
    items: Seq<SessionItem>,
    sessions: Seq<String>,
    selected: Seq<char>,
) -> bool {
    &&& items.len() == sessions.len()
    &&& forall|i: int|
        0 <= i < items.len() ==> {
            &&& (#[trigger] items[i]).label == sessions[i]
            &&& items[i].checked == (sessions[i]@ == selected)
        }
}

/// What the menu that is open shows.
pub open spec fn shows_dropdown(view: Option<DropdownView>, app: App) -> bool {
    match app.dropdown_opt {
        None => view is None,
        Some(dropdown) => {
            &&& view is Some
            &&& match dropdown {
                Dropdown::Accessibility => {
                    &&& view->0 is Accessibility
                    &&& view->0->Accessibility_0@ == seq![
                        AidItem {
                            aid: Aid::ScreenReader,
                            checked: app.accessibility.screen_reader,
                        },
                        AidItem { aid: Aid::Magnifier, checked: app.accessibility.magnifier },
                        AidItem {
                            aid: Aid::HighContrast,
                            checked: app.accessibility.high_contrast,
                        },
                        AidItem {
                            aid: Aid::InvertColors,
                            checked: app.accessibility.invert_colors,
                        },
                    ]
                },
                Dropdown::Keyboard => match view->0 {
                    DropdownView::Keyboard { items, height } => {
                        &&& lists_layouts(items@, app.common.active_layouts@)
                        &&& height == list_height(app.common.active_layouts@.len())
                    },
                    _ => false,
                },
                Dropdown::User => match view->0 {
                    DropdownView::User { items, height } => {
                        &&& lists_users(
                            items@,
                            app.usernames@,
                            app.selected_username.username@,
                        )
                        &&& height == user_list_height(app.usernames@.len())
                    },
                    _ => false,
                },
                Dropdown::Session => match view->0 {
                    DropdownView::Session { items, height } => {
                        &&& lists_sessions(
                            items@,
                            app.session_names@,
                            app.selected_session@,
                        )
                        &&& height == list_height(app.session_names@.len())
                    },
                    _ => false,
                },
            }
        },
    }
}

fn user_items(users: &Vec<UserName>, selected: &String) -> (items: Vec<UserItem>)
    ensures
        lists_users(items@, users@, selected@),
{
    let mut items: Vec<UserItem> = Vec::new();
    for i in 0..users.len()
        invariant
            lists_users(items@, users@.take(i as int), selected@),
    {
        items.push(
            UserItem {
                label: users[i].full_name.clone(),
                checked: users[i].name == *selected,
                username: users[i].name.clone(),
            },
        );
    }
    proof {
        assert(users@.take(users@.len() as int) == users@);
    }
    items
}

fn session_items(sessions: &Vec<String>, selected: &String) -> (items: Vec<SessionItem>)
    ensures
        lists_sessions(items@, sessions@, selected@),
{
    let mut items: Vec<SessionItem> = Vec::new();
    for i in 0..sessions.len()
        invariant
            lists_sessions(items@, sessions@.take(i as int), selected@),
    {
        items.push(
            SessionItem { label: sessions[i].clone(), checked: sessions[i] == *selected },
        );
    }
    proof {
        assert(sessions@.take(sessions@.len() as int) == sessions@);
    }
    items
}

impl App {
    fn dropdown_view(&self) -> (view: Option<DropdownView>)
        ensures
            shows_dropdown(view, *self),
    {
        match self.dropdown_opt {
            None => None,
            Some(Dropdown::Accessibility) => {
                let mut items: Vec<AidItem> = Vec::new();
                items.push(
                    AidItem {
                        aid: Aid::ScreenReader,
                        checked: self.accessibility.screen_reader,
                    },
                );
                items.push(
                    AidItem { aid: Aid::Magnifier, checked: self.accessibility.magnifier },
                );
                items.push(
                    AidItem { aid: Aid::HighContrast, checked: self.accessibility.high_contrast },
                );
                items.push(
                    AidItem { aid: Aid::InvertColors, checked: self.accessibility.invert_colors },
                );
                proof {
                    assert(items@ == seq![
                        AidItem {
                            aid: Aid::ScreenReader,
                            checked: self.accessibility.screen_reader,
                        },
                        AidItem { aid: Aid::Magnifier, checked: self.accessibility.magnifier },
                        AidItem {
                            aid: Aid::HighContrast,
                            checked: self.accessibility.high_contrast,
                        },
                        AidItem {
                            aid: Aid::InvertColors,
                            checked: self.accessibility.invert_colors,
                        },
                    ]);
                }
                Some(DropdownView::Accessibility(items))
            },
            Some(Dropdown::Keyboard) => {
                let items = layout_items(&self.common.active_layouts);
                let height = height_of_list(items.len());
                Some(DropdownView::Keyboard { items, height })
            },
            Some(Dropdown::User) => {
                let items = user_items(&self.usernames, &self.selected_username.username);
                let height = if items.len() >= MANY_USERS {
                    ListHeight::Scrolling(DEFAULT_MENU_ITEM_HEIGHT * 6)
                } else {
                    ListHeight::Natural
                };
                Some(DropdownView::User { items, height })
            },
            Some(Dropdown::Session) => {
                let items = session_items(&self.session_names, &self.selected_session);
                let height = height_of_list(items.len());
                Some(DropdownView::Session { items, height })
            },
        }
    }
}

// ---------------------------------------------------------------------------
// The user
// ---------------------------------------------------------------------------

/// An account as it is shown: whether it has a picture, its place, and its name.
#[derive(Debug, PartialEq, Eq)]
pub struct UserCard {
    pub icon: bool,
    pub index: usize,
    pub full_name: String,
}

/// What an account's card says.
pub struct CardModel {
    pub icon: bool,
    pub index: int,
    pub full_name: Seq<char>,
}

impl View for UserCard {
    type V = CardModel;

    open spec fn view(&self) -> CardModel {
        CardModel { icon: self.icon, index: self.index as int, full_name: self.full_name@ }
    }
}

/// What cards say.
pub open spec fn card_models(cards: Seq<UserCard>) -> Seq<CardModel> {
    cards.map_values(|card: UserCard| card@)
}

/// The cards of the accounts with this name.
pub open spec fn cards_of(user_datas: Seq<UserData>, icons: Seq<bool>, name: Seq<char>, n: nat) -> Seq<
    CardModel,
>
    decreases n,
{
    if n == 0 {
        Seq::empty()
    } else {
        let i = n - 1;
        let before = cards_of(user_datas, icons, name, i as nat);
        if user_datas[i].name@ == name {
            before.push(
                CardModel { icon: icons[i], index: i, full_name: user_datas[i].shown_name() },
            )
        } else {
            before
        }
    }
}

/// The smaller of two lengths.
pub open spec fn shorter(a: nat, b: nat) -> nat {
    if a <= b {
        a
    } else {
        b
    }
}

fn user_cards(user_datas: &Vec<UserData>, icons: &Vec<bool>, name: &String) -> (cards: Vec<UserCard>)
    ensures
        card_models(cards@) == cards_of(
            user_datas@,
            icons@,
            name@,
            shorter(user_datas@.len(), icons@.len()),
        ),
{
    let mut cards: Vec<UserCard> = Vec::new();
    let n: usize = if user_datas.len() <= icons.len() {
        user_datas.len()
    } else {
        icons.len()
    };
    for i in 0..n
        invariant
            n == shorter(user_datas@.len(), icons@.len()),
            card_models(cards@) == cards_of(user_datas@, icons@, name@, i as nat),
    {
        if user_datas[i].name == *name {
            let card = UserCard {
                icon: icons[i],
                index: i,
                full_name: user_datas[i].full_name_or_name().to_owned(),
            };
            let ghost before = cards@;
            cards.push(card);
            proof {
                assert(card_models(cards@) == card_models(before).push(card@));
            }
        }
    }
    cards
}

/// What is shown of a prompt.
#[derive(Debug, PartialEq, Eq)]
pub enum PromptView {
    Nothing,
    Input {
        input: InputView,
        /// Caps lock is pointed out.
        caps_lock: bool,
    },
    /// A button to go on.
    Confirm,
}

/// What is shown of the login.
#[derive(Debug, PartialEq, Eq)]
pub enum LoginView {
    /// A message instead of the login.
    Message(String),
    Login {
        /// The selected account.
        cards: Vec<UserCard>,
        /// The field for the user's name, if a name is being typed.
        username: Option<String>,
        prompt: PromptView,
    },
}

/// What is shown of the prompt.
pub open spec fn shows_prompt(view: PromptView, app: App, surface: u64) -> bool {
    match app.common.prompt_opt {
        None => view is Nothing,
        Some(Prompt { value: None, .. }) => view is Confirm,
        Some(prompt) => match view {
            PromptView::Input { input, caps_lock } => {
                &&& shows_input(input, app.common, surface, prompt)
                &&& caps_lock == app.common.caps_lock
            },
            _ => false,
        },
    }
}

/// What is shown of the login: how the connection to greetd stands, or if it is open the account,
/// the field for a name that is being typed, and the prompt.
pub open spec fn shows_login(view: LoginView, app: App, surface: u64) -> bool {
    match app.socket_state {
        SocketState::Pending => view is Message && view->Message_0@ == "Opening GREETD_SOCK"@,
        SocketState::NotSet => view is Message && view->Message_0@
            == "GREETD_SOCK variable not set"@,
        SocketState::Error(error) => view is Message && view->Message_0@
            == "Failed to open GREETD_SOCK: "@ + error@,
        SocketState::Open => match view {
            LoginView::Login { cards, username, prompt } => {
                &&& card_models(cards@) == (if app.entering_name {
                    Seq::empty()
                } else {
                    cards_of(
                        app.flags.user_datas@,
                        app.flags.user_icons@,
                        app.selected_username.username@,
                        shorter(app.flags.user_datas@.len(), app.flags.user_icons@.len()),
                    )
                })
                &&& username == (if app.entering_name {
                    Some(app.selected_username.username)
                } else {
                    None
                })
                &&& shows_prompt(prompt, app, surface)
            },
            _ => false,
        },
    }
}

impl App {
    fn prompt_view(&self, surface: u64) -> (view: PromptView)
        ensures
            shows_prompt(view, *self, surface),
    {
        match &self.common.prompt_opt {
            None => PromptView::Nothing,
            Some(prompt) => match &prompt.value {
                None => PromptView::Confirm,
                Some(value) => PromptView::Input {
                    input: input_view(
                        &self.common,
                        surface,
                        &prompt.prompt,
                        prompt.secret,
                        value,
                    ),
                    caps_lock: self.common.caps_lock,
                },
            },
        }
    }

    fn login_view(&self, surface: u64) -> (view: LoginView)
        ensures
            shows_login(view, *self, surface),
    {
        match &self.socket_state {
            SocketState::Pending => LoginView::Message("Opening GREETD_SOCK".to_owned()),
            SocketState::NotSet => LoginView::Message("GREETD_SOCK variable not set".to_owned()),
            SocketState::Error(error) => LoginView::Message(
                concat2("Failed to open GREETD_SOCK: ", error.as_str()),
            ),
            SocketState::Open => {
                let prompt = self.prompt_view(surface);
                if self.entering_name {
                    let cards: Vec<UserCard> = Vec::new();
                    proof {
                        assert(card_models(cards@) == Seq::<CardModel>::empty());
                    }
                    LoginView::Login {
                        cards,
                        username: Some(self.selected_username.username.clone()),
                        prompt,
                    }
                } else {
                    LoginView::Login {
                        cards: user_cards(
                            &self.flags.user_datas,
                            &self.flags.user_icons,
                            &self.selected_username.username,
                        ),
                        username: None,
                        prompt,
                    }
                }
            },
        }
    }
}

// ---------------------------------------------------------------------------
// The whole menu
// ---------------------------------------------------------------------------

/// A question before the machine is stopped, and for how many whole seconds it still waits.
#[derive(Clone, Copy, Debug, PartialEq, Eq, Structural)]
pub enum DialogView {
    Restart(u64),
    Shutdown(u64),
}

/// The whole seconds that a question still waits.
pub open spec fn seconds_left(instant: u64, now: u64) -> u64 {
    match time_left(instant, now) {
        Some(left) => left / 1_000_000_000,
        None => 0,
    }
}

/// What is shown of a question.
pub open spec fn dialog_shown(page: Option<DialogPage>, now: u64) -> Option<DialogView> {
    match page {
        Some(DialogPage::Restart(instant)) => Some(
            DialogView::Restart(seconds_left(instant, now)),
        ),
        Some(DialogPage::Shutdown(instant)) => Some(
            DialogView::Shutdown(seconds_left(instant, now)),
        ),
        None => None,
    }
}

fn count_seconds(instant: u64, now: u64) -> (seconds: u64)
    ensures
        seconds == seconds_left(instant, now),
{
    match DialogPage::remaining(instant, now) {
        Some(left) => left / 1_000_000_000,
        None => 0,
    }
}

/// What the menu of the greeter shows.
#[derive(Debug, PartialEq, Eq)]
pub struct Menu {
    pub status: StatusView,
    pub dropdown: Option<DropdownView>,
    pub login: LoginView,
    pub error: Option<String>,
    pub dialog: Option<DialogView>,
}

impl App {
    /// Whether the clock shows 24 hours for the selected account.
    pub open spec fn shows_military_time(self) -> bool {
        match self.selected() {
            Some(user_data) => user_data.shows_military_time(),
            None => false,
        }
    }

    /// What the menu on a surface shows at a time.
    pub fn menu(&self, surface: u64, now: u64) -> (menu: Menu)
        ensures
            shows_status(menu.status, self.common, surface, self.shows_military_time()),
            shows_dropdown(menu.dropdown, *self),
            shows_login(menu.login, *self, surface),
            menu.error == self.common.error_opt,
            menu.dialog == dialog_shown(self.dialog_page_opt, now),
    {
        let military_time = match self.selected_username.data_idx {
            Some(i) => {
                if i < self.flags.user_datas.len() {
                    self.flags.user_datas[i].military_time()
                } else {
                    false
                }
            },
            None => false,
        };
        let dialog = match self.dialog_page_opt {
            Some(DialogPage::Restart(instant)) => Some(
                DialogView::Restart(count_seconds(instant, now)),
            ),
            Some(DialogPage::Shutdown(instant)) => Some(
                DialogView::Shutdown(count_seconds(instant, now)),
            ),
            None => None,
        };
        Menu {
            status: status_view(&self.common, surface, military_time),
            dropdown: self.dropdown_view(),
            login: self.login_view(surface),
            error: clone_opt(&self.common.error_opt),
            dialog,
        }
    }
}

/// The countdown of a question starts at a minute and never goes up again.
pub proof fn law_countdown_goes_down(instant: u64, earlier: u64, later: u64)
    requires
        earlier <= later,
    ensures
        seconds_left(instant, later) <= seconds_left(instant, earlier) <= 60,
        seconds_left(instant, instant) == 60,
{
}

}
