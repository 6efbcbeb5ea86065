//! What holds of what the menus show.
use crate::common::Common;
use crate::greeter::{App as Greeter, DialogPage, Dropdown};
use crate::greeter_menu::{
    cards_of, dialog_shown, shows_dropdown, shows_login, user_list_height, Aid,
    CardModel, DropdownView, LoginView,
};
use crate::locker::App as Locker;
use crate::locker_menu::{shows_prompt, shows_verdict, PromptView, Verdict};
use crate::menu::{list_height, shows_input, shows_status, InputView, ListHeight, StatusView};
use crate::text::opt_text;
use crate::time::{written_date, written_time, Cycle};
use crate::user::UserData;
use vstd::prelude::*;

verus! {

// ---------------------------------------------------------------------------
// Both menus
// ---------------------------------------------------------------------------

/// The status shows the clock as it was read, in its language, and the machine as it is known; the
/// menu is as wide as its window, up to 800 pixels.
pub proof fn law_the_status_shows_the_machine(
    view: StatusView,
    common: Common,
    surface: u64,
    military: bool,
)
    requires
        shows_status(view, common, surface, military),
    ensures
        opt_text(view.date) == written_date(common.time.locale@, common.time.now),
        military ==> opt_text(view.time) == written_time(
            common.time.locale@,
            common.time.now,
            Cycle::H23,
        ) && view.time_size == 112,
        !military ==> opt_text(view.time) == written_time(
            common.time.locale@,
            common.time.now,
            Cycle::H12,
        ) && view.time_size == 75,
        view.network_icon == common.network_icon_opt,
        view.power == common.power_info_opt,
        view.width <= 800,
        !common.window_size@.contains_key(surface) ==> view.width == 800,
        common.window_size@.contains_key(surface) ==> {
            let width = common.window_size@[surface].0;
            &&& width <= 800 ==> view.width == width
            &&& width > 800 ==> view.width == 800
        },
{
}

/// A prompt for an answer shows the question and what was typed so far, hidden if it is secret, in
/// the text field of its surface.
pub proof fn law_the_input_shows_the_prompt(
    view: InputView,
    common: Common,
    surface: u64,
    prompt: crate::common::Prompt,
)
    requires
        shows_input(view, common, surface, prompt),
    ensures
        view.prompt == prompt.prompt,
        prompt.value == Some(view.value),
        view.secret == prompt.secret,
        ({
            let name = common.surface_names@[surface]@;
            let known = common.surface_names@.contains_key(surface)
                && common.text_input_ids@.contains_key(name);
            &&& known ==> view.id == common.text_input_ids@[name]
            &&& !known ==> view.id@ == "text_input"@
        }),
{
}

/// A list scrolls once it has more than seven items, and is seven items high from there on.
pub proof fn law_long_lists_scroll(items: nat)
    ensures
        items <= 7 ==> list_height(items) == ListHeight::Natural,
        items > 7 ==> list_height(items) == ListHeight::Scrolling(252),
        items < 6 ==> user_list_height(items) == ListHeight::Natural,
        items >= 6 ==> user_list_height(items) == ListHeight::Scrolling(216),
{
}

// ---------------------------------------------------------------------------
// The lock screen
// ---------------------------------------------------------------------------

/// The lock screen shows the prompt that there is: nothing, a message, or a field for the answer,
/// which can be typed into unless an answer is being checked.
pub proof fn law_the_lock_screen_shows_its_prompt(view: PromptView, app: Locker, surface: u64)
    requires
        shows_prompt(view, app, surface),
    ensures
        view is Nothing <==> app.common.prompt_opt is None,
        view is Text <==> app.common.prompt_opt is Some && app.common.prompt_opt->0.value is None,
        view is Text ==> view->Text_0 == app.common.prompt_opt->0.prompt,
        view is Input <==> app.common.prompt_opt is Some && app.common.prompt_opt->0.value is Some,
        view is Input ==> {
            &&& view->input.prompt == app.common.prompt_opt->0.prompt
            &&& Some(view->input.value) == app.common.prompt_opt->0.value
            &&& view->input.secret == app.common.prompt_opt->0.secret
            &&& view->editable <==> !app.authenticating
            &&& view->caps_lock <==> app.common.caps_lock && !app.authenticating
            &&& view->Input_blank <==> !view->caps_lock && app.common.error_opt is None
        },
{
}

/// The lock screen shows that an answer is being checked, or else the error that there is.
pub proof fn law_the_lock_screen_shows_its_verdict(view: Verdict, app: Locker)
    requires
        shows_verdict(view, app),
    ensures
        view is Authenticating <==> app.authenticating,
        view is Failed <==> !app.authenticating && app.common.error_opt is Some,
        view is Failed ==> Some(view->error) == app.common.error_opt && view->Failed_blank
            == !app.common.caps_lock,
{
}

// ---------------------------------------------------------------------------
// The greeter
// ---------------------------------------------------------------------------

/// A menu shows an item for everything there is to choose from, in order, and checks what is chosen.
pub proof fn law_open_menus_show_every_choice(view: Option<DropdownView>, app: Greeter, i: int)
    requires
        shows_dropdown(view, app),
    ensures
        view is None <==> app.dropdown_opt is None,
        app.dropdown_opt == Some(Dropdown::Session) && 0 <= i < app.session_names@.len() ==> {
            &&& view->0 is Session
            &&& view->0->Session_items@.len() == app.session_names@.len()
            &&& view->0->Session_items@[i].label == app.session_names@[i]
            &&& view->0->Session_items@[i].checked <==> app.session_names@[i]@
                == app.selected_session@
        },
        app.dropdown_opt == Some(Dropdown::User) && 0 <= i < app.usernames@.len() ==> {
            &&& view->0 is User
            &&& view->0->User_items@.len() == app.usernames@.len()
            &&& view->0->User_items@[i].label == app.usernames@[i].full_name
            &&& view->0->User_items@[i].username == app.usernames@[i].name
            &&& view->0->User_items@[i].checked <==> app.usernames@[i].name@
                == app.selected_username.username@
        },
        app.dropdown_opt == Some(Dropdown::Keyboard) && 0 <= i < app.common.active_layouts@.len()
            ==> {
            &&& view->0 is Keyboard
            &&& view->0->Keyboard_items@.len() == app.common.active_layouts@.len()
            &&& view->0->Keyboard_items@[i].label == app.common.active_layouts@[i].description
            &&& view->0->Keyboard_items@[i].layout == i
            &&& view->0->Keyboard_items@[i].checked <==> i == 0
        },
        app.dropdown_opt == Some(Dropdown::Accessibility) ==> {
            let items = view->0->Accessibility_0@;
            &&& view->0 is Accessibility
            &&& items.len() == 4
            &&& items[0].aid == Aid::ScreenReader && items[0].checked
                == app.accessibility.screen_reader
            &&& items[1].aid == Aid::Magnifier && items[1].checked == app.accessibility.magnifier
            &&& items[2].aid == Aid::HighContrast && items[2].checked
                == app.accessibility.high_contrast
            &&& items[3].aid == Aid::InvertColors && items[3].checked
                == app.accessibility.invert_colors
        },
{
}

/// The card of an account: its picture, place and name.
pub open spec fn is_card_of(card: CardModel, user_datas: Seq<UserData>, icons: Seq<bool>, i: int) -> bool {
    &&& card.index == i
    &&& card.icon == icons[i]
    &&& card.full_name == user_datas[i].shown_name()
}

/// The cards are those of the accounts with a name: one for each of them, and none for another.
pub proof fn law_accounts_have_their_cards(
    user_datas: Seq<UserData>,
    icons: Seq<bool>,
    name: Seq<char>,
    n: nat,
    i: int,
)
    requires
        0 <= i < n,
    ensures
        user_datas[i].name@ == name ==> exists|k: int|
            0 <= k < cards_of(user_datas, icons, name, n).len() && is_card_of(
                #[trigger] cards_of(user_datas, icons, name, n)[k],
                user_datas,
                icons,
                i,
            ),
        user_datas[i].name@ != name ==> forall|k: int|
            0 <= k < cards_of(user_datas, icons, name, n).len() ==> (
            #[trigger] cards_of(user_datas, icons, name, n)[k]).index != i,
    decreases n,
{
    let cards = cards_of(user_datas, icons, name, n);
    let less = cards_of(user_datas, icons, name, (n - 1) as nat);
    lemma_cards_in_range(user_datas, icons, name, n);
    lemma_cards_in_range(user_datas, icons, name, (n - 1) as nat);
    if i < n - 1 {
        law_accounts_have_their_cards(user_datas, icons, name, (n - 1) as nat, i);
        if user_datas[i].name@ == name {
            let k = choose|k: int|
                0 <= k < less.len() && is_card_of(#[trigger] less[k], user_datas, icons, i);
            assert(cards[k] == less[k]);
        } else {
            assert forall|k: int| 0 <= k < cards.len() implies (#[trigger] cards[k]).index != i by {
                if k < less.len() {
                    assert(cards[k] == less[k]);
                }
            }
        }
    } else if user_datas[i].name@ == name {
        assert(is_card_of(cards[less.len() as int], user_datas, icons, i));
    } else {
        assert(cards == less);
    }
}

proof fn lemma_cards_in_range(
    user_datas: Seq<UserData>,
    icons: Seq<bool>,
    name: Seq<char>,
    n: nat,
)
    ensures
        forall|k: int|
            0 <= k < cards_of(user_datas, icons, name, n).len() ==> 0 <= (
            #[trigger] cards_of(user_datas, icons, name, n)[k]).index < n,
    decreases n,
{
    if n > 0 {
        lemma_cards_in_range(user_datas, icons, name, (n - 1) as nat);
        let less = cards_of(user_datas, icons, name, (n - 1) as nat);
        let cards = cards_of(user_datas, icons, name, n);
        assert forall|k: int| 0 <= k < cards.len() implies 0 <= (#[trigger] cards[k]).index < n by {
            if k < less.len() {
                assert(cards[k] == less[k]);
            }
        }
    }
}

/// The login shows how the connection stands; once it is open, it shows the name that is being typed,
/// and the prompt that there is.
pub proof fn law_the_login_shows_the_conversation(view: LoginView, app: Greeter, surface: u64)
    requires
        shows_login(view, app, surface),
    ensures
        view is Login <==> app.socket_state is Open,
        app.socket_state is Pending ==> view->Message_0@ == "Opening GREETD_SOCK"@,
        app.socket_state is NotSet ==> view->Message_0@ == "GREETD_SOCK variable not set"@,
        app.socket_state is Error ==> view->Message_0@ == "Failed to open GREETD_SOCK: "@
            + app.socket_state->Error_0@,
        view is Login ==> {
            &&& app.entering_name ==> view->username == Some(app.selected_username.username)
                && view->cards@.len() == 0
            &&& !app.entering_name ==> view->username is None
            &&& view->prompt is Nothing <==> app.common.prompt_opt is None
            &&& view->prompt is Confirm <==> app.common.prompt_opt is Some
                && app.common.prompt_opt->0.value is None
            &&& view->prompt is Input ==> {
                &&& view->prompt->input.prompt == app.common.prompt_opt->0.prompt
                &&& Some(view->prompt->input.value) == app.common.prompt_opt->0.value
                &&& view->prompt->input.secret == app.common.prompt_opt->0.secret
                &&& view->prompt->caps_lock == app.common.caps_lock
            }
        },
{
    if view is Login && app.entering_name {
        assert(crate::greeter_menu::card_models(view->cards@).len() == view->cards@.len());
    }
}

/// A question about stopping the machine is shown with the whole seconds that are left of its minute.
pub proof fn law_questions_count_down(page: DialogPage, now: u64)
    ensures
        ({
            let asked: u64 = if page is Restart {
                page->Restart_0
            } else {
                page->Shutdown_0
            };
            let shown = dialog_shown(Some(page), now);
            let seconds: u64 = if page is Restart {
                shown->0->Restart_0
            } else {
                shown->0->Shutdown_0
            };
            &&& shown is Some
            &&& page is Restart <==> shown->0 is Restart
            &&& asked <= now < asked + 60_000_000_000 ==> seconds * 1_000_000_000 <= asked
                + 60_000_000_000 - now < (seconds + 1) * 1_000_000_000
            &&& now >= asked + 60_000_000_000 ==> seconds == 0
        }),
        dialog_shown(None, now) is None,
{
}

/// An account goes by its full name, if it has one that says something, and by its name otherwise; it
/// has a clock of 24 hours only if it wants one.
pub proof fn law_accounts_go_by_their_full_name(user: UserData)
    ensures
        user.full_name_opt is Some && user.full_name_opt->0@.len() > 0 ==> user.shown_name()
            == user.full_name_opt->0@,
        user.full_name_opt is Some && user.full_name_opt->0@.len() == 0 ==> user.shown_name()
            == user.name@,
        user.full_name_opt is None ==> user.shown_name() == user.name@,
        user.shows_military_time() <==> user.clock_military_time_opt is Some
            && user.clock_military_time_opt->0,
{
}

/// The greeter's clock is that of the account that is selected.
pub proof fn law_the_clock_follows_the_account(app: Greeter)
    ensures
        app.selected() is Some ==> app.shows_military_time()
            == app.selected()->0.shows_military_time(),
        app.selected() is None ==> !app.shows_military_time(),
{
}

}
