//! What holds of the greeter, message by message.
use crate::common::{wallpaper_of, Common, OutputEvent};
use crate::common_laws::{law_a_users_wallpapers_are_shown, law_written_settings_are_the_users};
use crate::config::{last_session_of, opt_uid};
use crate::displays::{first_fitting, fits, Display};
use crate::geometry::{menu_corner, menu_placement, output_size, OutputInfo};
use crate::greeter::{
    common_tasks, menu_of, AccessibilityRequest, AccessibilitySetting, App, DialogPage, Dropdown,
    Message, Request, SocketState, Task, WaylandUpdate,
};
use crate::keyboard::{layout_list, models, variant_list};
use crate::session::{lookup, Session};
use crate::text::texts;
use crate::user::UserData;
use crate::walk::{lists_values, walks};
use vstd::prelude::*;

verus! {

// ---------------------------------------------------------------------------
// Logging in
// ---------------------------------------------------------------------------

/// What greetd hears is what is sent to it, once it can be reached; before that it hears nothing.
pub open spec fn greetd_hears(app: App, request: Request, tasks: Seq<Task>) -> bool {
    if app.greetd_sender {
        tasks == seq![Task::Send(request)]
    } else {
        tasks.len() == 0
    }
}

/// Once the connection to greetd is open, a session is asked for, for the user who is selected. Any
/// other change of the connection asks for nothing.
pub proof fn law_an_open_connection_asks_for_the_user(
    old: App,
    new: App,
    state: SocketState,
    surface: u64,
    subsurface: u64,
    tasks: Seq<Task>,
)
    requires
        new.updated(old, Message::Socket(state), surface, subsurface, tasks),
    ensures
        new.socket_state == state,
        new.selected_username == old.selected_username,
        new.selected_session == old.selected_session,
        state is Open ==> greetd_hears(
            old,
            Request::CreateSession { username: old.selected_username.username },
            tasks,
        ),
        !(state is Open) ==> tasks.len() == 0,
{
}

/// What the user answers is handed on as it is, and neither the question nor an error is shown any
/// longer.
pub proof fn law_answers_are_handed_on(
    old: App,
    new: App,
    response: Option<String>,
    surface: u64,
    subsurface: u64,
    tasks: Seq<Task>,
)
    requires
        new.updated(old, Message::Auth(response), surface, subsurface, tasks),
    ensures
        new.common.prompt_opt is None,
        new.common.error_opt is None,
        new.selected_username == old.selected_username,
        greetd_hears(old, Request::PostAuthMessageResponse { response }, tasks),
{
}

/// A failed attempt is shown and called off.
pub proof fn law_failures_are_called_off(
    old: App,
    new: App,
    error: String,
    surface: u64,
    subsurface: u64,
    tasks: Seq<Task>,
)
    requires
        new.updated(old, Message::Error(error), surface, subsurface, tasks),
    ensures
        new.common.error_opt == Some(error),
        new.common.prompt_opt == old.common.prompt_opt,
        greetd_hears(old, Request::CancelSession, tasks),
{
}

/// The session at `i` is the last with its name.
pub open spec fn is_last_named(sessions: Seq<Session>, i: int, name: Seq<char>) -> bool {
    &&& 0 <= i < sessions.len()
    &&& sessions[i].name@ == name
    &&& forall|j: int| i < j < sessions.len() ==> (#[trigger] sessions[j]).name@ != name
}

proof fn lemma_looked_up(sessions: Seq<Session>, i: int, name: Seq<char>)
    requires
        is_last_named(sessions, i, name),
    ensures
        lookup(sessions, name) == Some(sessions[i]@),
    decreases sessions.len(),
{
    if i < sessions.len() - 1 {
        let less = sessions.drop_last();
        assert forall|j: int| i < j < less.len() implies (#[trigger] less[j]).name@ != name by {
            assert(less[j] == sessions[j]);
        }
        lemma_looked_up(less, i, name);
    }
}

/// Whoever is accepted gets the session that is selected: greetd is asked to start the command of
/// that session, with all its words, in its environment. Nothing of the conversation is left.
pub proof fn law_login_starts_the_selected_session(
    old: App,
    new: App,
    surface: u64,
    subsurface: u64,
    tasks: Seq<Task>,
    i: int,
)
    requires
        new.updated(old, Message::Login, surface, subsurface, tasks),
        is_last_named(old.flags.sessions@, i, old.selected_session@),
        old.greetd_sender,
    ensures
        new.common.prompt_opt is None,
        new.common.error_opt is None,
        new.selected_session == old.selected_session,
        exists|k: int|
            0 <= k < tasks.len() && (#[trigger] tasks[k]) is Send && tasks[k]->Send_0 is StartSession
                && texts(tasks[k]->Send_0->cmd@) == texts(old.flags.sessions@[i].command@)
                && texts(tasks[k]->Send_0->env@) == texts(old.flags.sessions@[i].env@),
{
    lemma_looked_up(old.flags.sessions@, i, old.selected_session@);
    let cleared = App {
        common: Common { prompt_opt: None, error_opt: None, ..old.common },
        ..old
    };
    let (handed, request, rest) = choose|handed: Seq<Task>, request: Request, rest: Seq<Task>|
        #![trigger old.layouts_handed_over(handed), old.sent(request), new.login_remembered(cleared, rest)]
        {
            &&& old.layouts_handed_over(handed)
            &&& request is StartSession
            &&& ({
                let started = lookup(old.flags.sessions@, old.selected_session@)->0;
                &&& texts(request->cmd@) == started.command
                &&& texts(request->env@) == started.env
            })
            &&& new.login_remembered(cleared, rest)
            &&& tasks == handed + old.sent(request) + rest
        };
    let k = handed.len() as int;
    assert(tasks[k] == Task::Send(request));
}

/// Whoever logs in is remembered with the session that they chose, if something can be remembered
/// and they are not the superuser. What is remembered of others stays.
pub proof fn law_logins_are_remembered(
    old: App,
    new: App,
    surface: u64,
    subsurface: u64,
    tasks: Seq<Task>,
    user: UserData,
)
    requires
        new.updated(old, Message::ConfigUpdateUser, surface, subsurface, tasks),
        old.selected() == Some(user),
        old.flags.greeter_config_handler,
    ensures
        user.uid == 0 ==> new == old && tasks.len() == 0,
        user.uid != 0 ==> {
            let users = new.flags.greeter_config.users@;
            &&& opt_uid(new.flags.greeter_config.last_user) == Some(user.uid)
            &&& last_session_of(users, user.uid) == Some(old.selected_session@)
            &&& forall|other: u32|
                other != user.uid && #[trigger] old.flags.greeter_config.users@.contains_key(other)
                    ==> users.contains_key(other) && users[other]
                    == old.flags.greeter_config.users@[other]
            &&& tasks.len() > 0
            &&& tasks[0] == Task::SaveLastUser(user.uid)
            &&& tasks.contains(Task::SaveUsers) <==> last_session_of(
                old.flags.greeter_config.users@,
                user.uid,
            ) != Some(old.selected_session@)
        },
{
    if user.uid != 0 {
        let changed = last_session_of(old.flags.greeter_config.users@, user.uid) != Some(
            old.selected_session@,
        );
        if changed {
            assert(tasks[1] == Task::SaveUsers);
        }
    }
}

/// Nothing is remembered where nobody is selected, or where nothing can be remembered.
pub proof fn law_nobody_is_remembered(
    old: App,
    new: App,
    surface: u64,
    subsurface: u64,
    tasks: Seq<Task>,
)
    requires
        new.updated(old, Message::ConfigUpdateUser, surface, subsurface, tasks),
        old.selected() is None || !old.flags.greeter_config_handler,
    ensures
        new == old,
        tasks.len() == 0,
{
}

/// The account that is selected is the one whose name is selected, the first of that name.
pub proof fn law_the_selected_account_has_the_selected_name(app: App)
    requires
        app.selected_username.points_into(app.flags.user_datas@),
    ensures
        app.selected() is Some ==> app.selected()->0.name@ == app.selected_username.username@,
        app.selected() is None ==> forall|i: int|
            0 <= i < app.flags.user_datas@.len() ==> (#[trigger] app.flags.user_datas@[i]).name@
                != app.selected_username.username@,
{
}

// ---------------------------------------------------------------------------
// Choosing
// ---------------------------------------------------------------------------

/// Choosing another account selects it, with the session that is remembered for it if there is one.
/// The wallpapers and the question are those of the account before, so they go, and greetd forgets
/// that account.
pub proof fn law_another_account_starts_afresh(
    old: App,
    new: App,
    username: String,
    surface: u64,
    subsurface: u64,
    tasks: Seq<Task>,
)
    requires
        new.updated(old, Message::Username(username), surface, subsurface, tasks),
        old.entering_name || username@ != old.selected_username.username@,
    ensures
        new.selected_username.username == username,
        new.selected_username.points_into(old.flags.user_datas@),
        new.flags == old.flags,
        !new.entering_name,
        new.common.surface_images@ == Map::<u64, String>::empty(),
        old.socket_state is Open ==> new.common.prompt_opt is None,
        !(old.socket_state is Open) ==> new.common.prompt_opt == old.common.prompt_opt,
        old.socket_state is Open && old.greetd_sender ==> tasks.len() > 0 && tasks[0] == Task::Send(
            Request::CancelSession,
        ),
        ({
            let account = new.selected();
            let remembered = last_session_of(
                old.flags.greeter_config.users@,
                account->0.uid,
            );
            if account is Some && account->0.uid != 0 && remembered is Some {
                new.selected_session@ == remembered->0
            } else {
                new.selected_session == old.selected_session
            }
        }),
{
    match old.randr_list {
        Some(displays) => {
            let (switched, first, second) = choose|
                switched: App,
                first: Seq<Task>,
                second: Seq<Task>,
            |
                #![trigger switched.user_switched(old, username, first), first + second]
                {
                    &&& switched.user_switched(old, username, first)
                    &&& new.displays_listed(switched, displays@, second)
                    &&& tasks == first + second
                };
            assert(new.selected() == switched.selected());
            if old.socket_state is Open && old.greetd_sender {
                assert(tasks[0] == first[0]);
            }
        },
        None => {},
    }
}

/// Choosing the account that is selected changes nothing but that the menu of users is closed.
pub proof fn law_the_same_account_stays(
    old: App,
    new: App,
    username: String,
    surface: u64,
    subsurface: u64,
    tasks: Seq<Task>,
)
    requires
        new.updated(old, Message::Username(username), surface, subsurface, tasks),
        !old.entering_name,
        username@ == old.selected_username.username@,
    ensures
        new == (App { dropdown_opt: new.dropdown_opt, ..old }),
        tasks.len() == 0,
{
}

/// A menu is closed by a choice from it, and by no other; a button opens its own menu, and closes it
/// if it was open.
pub proof fn law_menus_open_and_close(
    old: App,
    new: App,
    message: Message,
    surface: u64,
    subsurface: u64,
    tasks: Seq<Task>,
)
    requires
        new.updated(old, message, surface, subsurface, tasks),
    ensures
        message is DropdownToggle && old.dropdown_opt == Some(message->DropdownToggle_0)
            ==> new.dropdown_opt is None,
        message is DropdownToggle && old.dropdown_opt != Some(message->DropdownToggle_0)
            ==> new.dropdown_opt == Some(message->DropdownToggle_0),
        !(message is DropdownToggle) && new.dropdown_opt != old.dropdown_opt ==> {
            &&& new.dropdown_opt is None
            &&& message is KeyboardLayout ==> old.dropdown_opt == Some(Dropdown::Keyboard)
            &&& message is Session ==> old.dropdown_opt == Some(Dropdown::Session)
            &&& message is Username || message is EnterUser ==> old.dropdown_opt == Some(
                Dropdown::User,
            )
            &&& message is KeyboardLayout || message is Session || message is Username
                || message is EnterUser
        },
        old.dropdown_opt == Some(Dropdown::Keyboard) && message is KeyboardLayout
            ==> new.dropdown_opt is None,
        old.dropdown_opt == Some(Dropdown::Session) && message is Session ==> new.dropdown_opt
            is None,
        old.dropdown_opt == Some(Dropdown::User) && (message is Username || message is EnterUser)
            ==> new.dropdown_opt is None,
{
}

/// The session that is chosen is the one that is selected, and nothing else changes it but a change
/// of account.
pub proof fn law_the_chosen_session_is_selected(
    old: App,
    new: App,
    message: Message,
    surface: u64,
    subsurface: u64,
    tasks: Seq<Task>,
)
    requires
        new.updated(old, message, surface, subsurface, tasks),
    ensures
        message is Session ==> new.selected_session == message->Session_0 && tasks.len() == 0,
        new.selected_session != old.selected_session ==> message is Session || message is Username,
        new.selected_username != old.selected_username ==> message is Username
            || message is EnterUser,
{
}

/// A name that is typed is the one that is selected; the cursor stays in its field while it has it.
pub proof fn law_typed_names_are_selected(
    old: App,
    new: App,
    focus: bool,
    username: String,
    surface: u64,
    subsurface: u64,
    tasks: Seq<Task>,
)
    requires
        new.updated(old, Message::EnterUser(focus, username), surface, subsurface, tasks),
    ensures
        new.entering_name,
        new.selected_username.username == username,
        new.selected_username.points_into(new.flags.user_datas@),
        new.selected_session == old.selected_session,
        focus ==> tasks == seq![Task::FocusUsername],
        !focus ==> tasks.len() == 0,
{
}

// ---------------------------------------------------------------------------
// Displays
// ---------------------------------------------------------------------------

/// The displays are arranged as the account that is selected has it: by its first arrangement that
/// fits the displays that are connected, and not at all if none fits.
pub proof fn law_displays_are_arranged_for_the_account(
    old: App,
    new: App,
    displays: Vec<Display>,
    surface: u64,
    subsurface: u64,
    tasks: Seq<Task>,
    user: UserData,
    i: int,
)
    requires
        new.updated(old, Message::RandrUpdate(Some(displays)), surface, subsurface, tasks),
        old.selected() == Some(user),
        0 <= i <= user.kdl_output_lists@.len(),
        forall|j: int| 0 <= j < i ==> !fits(#[trigger] user.kdl_output_lists@[j], displays@),
    ensures
        new.randr_list is Some,
        new.randr_list->0@ == displays@,
        i < user.kdl_output_lists@.len() && fits(user.kdl_output_lists@[i], displays@) ==> tasks
            == seq![Task::ExecRandr(user.kdl_output_lists@[i].document)],
        i == user.kdl_output_lists@.len() ==> tasks.len() == 0,
{
    let lists = user.kdl_output_lists@;
    let found = choose|found: Option<usize>|
        #![trigger first_fitting(found, lists, displays@)]
        {
            &&& first_fitting(found, lists, displays@)
            &&& tasks == (match found {
                Some(k) => seq![Task::ExecRandr(lists[k as int].document)],
                None => Seq::empty(),
            })
        };
    if i < lists.len() && fits(lists[i], displays@) {
        assert(found is Some);
        let k = found->0 as int;
        assert(k == i);
    }
}

// ---------------------------------------------------------------------------
// Settings of the account
// ---------------------------------------------------------------------------

/// What is known of the account that is selected is taken over: its theme is shown, its magnifier is
/// as it wants it at login, its displays are to be listed anew.
pub proof fn law_the_account_is_taken_over(
    old: App,
    new: App,
    surface: u64,
    subsurface: u64,
    tasks: Seq<Task>,
    user: UserData,
)
    requires
        new.updated(old, Message::Reconnect, surface, subsurface, tasks),
        old.selected() == Some(user),
    ensures
        new.randr_list is None,
        new.accessibility.magnifier == user.zoom_on_login,
        user.theme_opt is Some ==> new.accessibility.high_contrast
            == user.theme_opt->0.is_high_contrast,
        user.theme_opt is None ==> new.accessibility.high_contrast
            == old.accessibility.high_contrast,
        new.accessibility.invert_colors == old.accessibility.invert_colors,
        new.accessibility.screen_reader == old.accessibility.screen_reader,
        user.theme_builder_opt is Some ==> new.theme_builder == user.theme_builder_opt->0,
        user.theme_builder_opt is None ==> new.theme_builder == old.theme_builder,
        tasks.contains(Task::ListDisplays),
        user.theme_opt is Some ==> tasks.len() > 0 && tasks.last() == Task::SetTheme(
            user.theme_opt->0,
        ),
        new.selected_username == old.selected_username,
        new.selected_session == old.selected_session,
        new.flags == old.flags,
{
    let (shown, written) = choose|
        shown: Seq<crate::common::Task>,
        written: Seq<crate::common::Task>,
    |
        #![trigger common_tasks(shown), common_tasks(written)]
        {
            &&& new.common.user_data_updated(old.common, user, shown)
            &&& new.common.xkb_config_written(user, written)
            &&& tasks == common_tasks(shown) + common_tasks(written)
                + crate::greeter::theme_tasks(user)
        };
    let n = (common_tasks(shown) + common_tasks(written)).len() as int;
    assert(tasks[n] == Task::ListDisplays);
    if user.theme_opt is Some {
        assert(tasks.len() == n + 2);
    }
}

/// Nothing is taken over where nothing is known of the account.
pub proof fn law_nothing_is_taken_over(
    old: App,
    new: App,
    surface: u64,
    subsurface: u64,
    tasks: Seq<Task>,
)
    requires
        new.updated(old, Message::Reconnect, surface, subsurface, tasks),
        old.selected() is None,
    ensures
        new == old,
        tasks.len() == 0,
{
}

/// The keyboard layout that was chosen comes first, and the one that was first takes its place.
pub proof fn law_the_chosen_layout_comes_first(
    old: App,
    new: App,
    i: usize,
    surface: u64,
    subsurface: u64,
    tasks: Seq<Task>,
)
    requires
        new.updated(old, Message::KeyboardLayout(i), surface, subsurface, tasks),
    ensures
        ({
            let before = old.common.active_layouts@;
            let after = new.common.active_layouts@;
            &&& after.len() == before.len()
            &&& i < before.len() ==> {
                &&& after[0] == before[i as int]
                &&& after[i as int] == before[0]
                &&& forall|j: int|
                    0 < j < before.len() && j != i ==> #[trigger] after[j] == before[j]
            }
            &&& i >= before.len() ==> after == before && tasks.len() == 0
        }),
{
}

/// The next keyboard layout comes first, and the one that was first goes to the end.
pub proof fn law_the_next_layout_comes_first(
    old: App,
    new: App,
    surface: u64,
    subsurface: u64,
    tasks: Seq<Task>,
)
    requires
        new.updated(old, Message::InputSourceSwitch, surface, subsurface, tasks),
        old.common.active_layouts@.len() > 0,
    ensures
        ({
            let before = old.common.active_layouts@;
            let after = new.common.active_layouts@;
            &&& after.len() == before.len()
            &&& after.last() == before[0]
            &&& forall|j: int| 0 <= j < before.len() - 1 ==> #[trigger] after[j] == before[j + 1]
        }),
        new.dropdown_opt == old.dropdown_opt,
{
    crate::screen_laws::law_cycling_moves_every_layout(old.common.active_layouts@);
}

// ---------------------------------------------------------------------------
// Outputs
// ---------------------------------------------------------------------------

/// An output that appears gets a surface and a menu, in the place for its size, after everything
/// else; its surface and its menu belong together from here on.
pub proof fn law_a_new_output_is_shown(
    old: App,
    new: App,
    info: Option<OutputInfo>,
    output: u64,
    surface: u64,
    subsurface: u64,
    tasks: Seq<Task>,
)
    requires
        new.updated(
            old,
            Message::OutputEvent(OutputEvent::Created(info), output),
            surface,
            subsurface,
            tasks,
        ),
    ensures
        tasks.len() >= 2,
        tasks[tasks.len() - 2] == (Task::GetLayerSurface { surface, output }),
        tasks[tasks.len() - 1] is OpenMenu,
        tasks[tasks.len() - 1]->OpenMenu_surface == surface,
        tasks[tasks.len() - 1]->OpenMenu_subsurface == subsurface,
        info is Some ==> tasks[tasks.len() - 1]->placement == menu_placement(
            output_size(info->0.logical_size),
        ),
        info is None ==> tasks[tasks.len() - 1]->placement == menu_placement(output_size(None)),
        new.surface_id_pairs@ == old.surface_id_pairs@.push((surface, subsurface)),
        new.selected_username == old.selected_username,
        new.selected_session == old.selected_session,
{
    let (entered, shown) = choose|entered: App, shown: Seq<Task>|
        #![trigger new.user_data_updated(entered, shown)]
        {
            &&& entered == (App {
                common: entered.common,
                surface_id_pairs: entered.surface_id_pairs,
                ..old
            })
            &&& entered.surface_id_pairs@ == old.surface_id_pairs@.push((surface, subsurface))
            &&& entered.common.output_entered(old.common, info, output, surface, subsurface)
            &&& new.user_data_updated(entered, shown)
            &&& tasks == shown + seq![
                Task::GetLayerSurface { surface, output },
                Task::OpenMenu {
                    surface,
                    subsurface,
                    placement: menu_placement(crate::locker::told_size(info)),
                },
            ]
        };
    assert(tasks.len() == shown.len() + 2);
}

/// A new output that tells its name goes by it, its surface and its menu too, and they have a text
/// field.
pub proof fn law_a_new_output_goes_by_its_name(
    old: Common,
    new: Common,
    info: OutputInfo,
    name: String,
    output: u64,
    surface: u64,
    subsurface: u64,
)
    requires
        new.output_entered(old, Some(info), output, surface, subsurface),
        info.name == Some(name),
        surface != subsurface,
    ensures
        new.surface_ids@ == old.surface_ids@.insert(output, surface),
        new.window_size@.contains_key(surface),
        new.window_size@[surface] == output_size(info.logical_size),
        new.surface_names@.contains_key(surface),
        new.surface_names@[surface] == name,
        new.surface_names@.contains_key(subsurface),
        new.surface_names@[subsurface] == name,
        new.text_input_ids@.contains_key(name@),
        new.text_input_ids@[name@]@ == "input-"@ + name@,
        !new.surface_images@.contains_key(surface),
{
}

/// An output that goes takes its surface along, with its name, size, wallpaper and text field.
pub proof fn law_a_lost_output_is_forgotten(
    old: App,
    new: App,
    output: u64,
    surface: u64,
    subsurface: u64,
    tasks: Seq<Task>,
)
    requires
        new.updated(
            old,
            Message::OutputEvent(OutputEvent::Removed, output),
            surface,
            subsurface,
            tasks,
        ),
    ensures
        new.common.surface_ids@ == old.common.surface_ids@.remove(output),
        !old.common.surface_ids@.contains_key(output) ==> tasks.len() == 0
            && new.common.surface_names == old.common.surface_names,
        old.common.surface_ids@.contains_key(output) ==> {
            let gone = old.common.surface_ids@[output];
            &&& tasks == seq![Task::DestroyLayerSurface(gone)]
            &&& !new.common.surface_names@.contains_key(gone)
            &&& !new.common.surface_images@.contains_key(gone)
            &&& !new.common.window_size@.contains_key(gone)
            &&& old.common.surface_names@.contains_key(gone)
                ==> !new.common.text_input_ids@.contains_key(old.common.surface_names@[gone]@)
            &&& forall|other: u64|
                other != gone && #[trigger] old.common.surface_names@.contains_key(other)
                    ==> new.common.surface_names@.contains_key(other)
                    && new.common.surface_names@[other] == old.common.surface_names@[other]
        },
{
}

/// When the greeter ends, every surface goes, and the process last.
pub proof fn law_the_end_clears_every_output(
    old: App,
    new: App,
    surface: u64,
    subsurface: u64,
    tasks: Seq<Task>,
)
    requires
        new.updated(old, Message::Exit, surface, subsurface, tasks),
    ensures
        new.common.surface_ids@.dom() == Set::<u64>::empty(),
        tasks.len() > 0,
        tasks.last() == Task::Exit,
        forall|output: u64| #[trigger]
            old.common.surface_ids@.contains_key(output) ==> tasks.contains(
                Task::DestroyLayerSurface(old.common.surface_ids@[output]),
            ),
        forall|output: u64| #[trigger]
            old.common.surface_ids@.contains_key(output) ==> !new.common.surface_names@.contains_key(
                old.common.surface_ids@[output],
            ),
{
    let surfaces = choose|surfaces: Seq<u64>|
        #![trigger new.common.outputs_left(old.common, surfaces)]
        {
            &&& new.common.outputs_left(old.common, surfaces)
            &&& tasks == surfaces.map_values(
                |surface: u64| Task::DestroyLayerSurface(surface),
            ).push(Task::Exit)
        };
    let m = old.common.surface_ids@;
    assert(lists_values(m, surfaces));
    let order = choose|order: Seq<u64>| #[trigger]
        walks(m, order) && surfaces == order.map_values(|k: u64| m[k]);
    assert forall|output: u64| #[trigger] m.contains_key(output) implies tasks.contains(
        Task::DestroyLayerSurface(m[output]),
    ) && !new.common.surface_names@.contains_key(m[output]) by {
        assert(order.contains(output));
        let k = choose|k: int| 0 <= k < order.len() && order[k] == output;
        assert(surfaces[k] == m[output]);
        assert(tasks[k] == Task::DestroyLayerSurface(m[output]));
        assert(surfaces.to_set().contains(m[output]));
    }
}

/// The pair at `i` is the first of a surface.
pub open spec fn is_first_pair(pairs: Seq<(u64, u64)>, i: int, surface: u64) -> bool {
    &&& 0 <= i < pairs.len()
    &&& pairs[i].0 == surface
    &&& forall|j: int| 0 <= j < i ==> (#[trigger] pairs[j]).0 != surface
}

proof fn lemma_menu_of(pairs: Seq<(u64, u64)>, i: int, surface: u64)
    requires
        is_first_pair(pairs, i, surface),
    ensures
        menu_of(pairs, surface) == Some(pairs[i].1),
    decreases pairs.len(),
{
    if i > 0 {
        assert(pairs[0].0 != surface);
        let rest = pairs.drop_first();
        assert forall|j: int| 0 <= j < i - 1 implies (#[trigger] rest[j]).0 != surface by {
            assert(rest[j] == pairs[j + 1]);
        }
        lemma_menu_of(rest, i - 1, surface);
    }
}

proof fn lemma_no_menu(pairs: Seq<(u64, u64)>, surface: u64)
    requires
        forall|j: int| 0 <= j < pairs.len() ==> (#[trigger] pairs[j]).0 != surface,
    ensures
        menu_of(pairs, surface) is None,
    decreases pairs.len(),
{
    if pairs.len() > 0 {
        assert(pairs[0].0 != surface);
        let rest = pairs.drop_first();
        assert forall|j: int| 0 <= j < rest.len() implies (#[trigger] rest[j]).0 != surface by {
            assert(rest[j] == pairs[j + 1]);
        }
        lemma_no_menu(rest, surface);
    }
}

/// A window that is resized has its own menu moved, to the corner for its new width; a window
/// without a menu has none moved.
pub proof fn law_resized_windows_move_their_menu(
    old: App,
    new: App,
    window: u64,
    width: u32,
    surface: u64,
    subsurface: u64,
    tasks: Seq<Task>,
    i: int,
)
    requires
        new.updated(old, Message::RepositionMenu(window, width), surface, subsurface, tasks),
    ensures
        new == old,
        is_first_pair(old.surface_id_pairs@, i, window) ==> tasks == seq![
            Task::Reposition {
                subsurface: old.surface_id_pairs@[i].1,
                x: menu_corner(width).0,
                y: menu_corner(width).1,
            },
        ],
        (forall|j: int|
            0 <= j < old.surface_id_pairs@.len() ==> (#[trigger] old.surface_id_pairs@[j]).0
                != window) ==> tasks.len() == 0,
{
    if is_first_pair(old.surface_id_pairs@, i, window) {
        lemma_menu_of(old.surface_id_pairs@, i, window);
    }
    if forall|j: int|
        0 <= j < old.surface_id_pairs@.len() ==> (#[trigger] old.surface_id_pairs@[j]).0 != window {
        lemma_no_menu(old.surface_id_pairs@, window);
    }
}

// ---------------------------------------------------------------------------
// Restarting and shutting down
// ---------------------------------------------------------------------------

/// A question about stopping the machine is answered by what it asked: a restart restarts, a shutdown
/// shuts down, and either needs the login manager. The question is over.
pub proof fn law_confirmed_questions_are_carried_out(
    old: App,
    new: App,
    surface: u64,
    subsurface: u64,
    tasks: Seq<Task>,
)
    requires
        new.updated(old, Message::DialogConfirm, surface, subsurface, tasks),
    ensures
        new == (App { dialog_page_opt: None, ..old }),
        old.flags.logind && old.dialog_page_opt is Some && old.dialog_page_opt->0 is Restart
            ==> tasks == seq![Task::Reboot],
        old.flags.logind && old.dialog_page_opt is Some && old.dialog_page_opt->0 is Shutdown
            ==> tasks == seq![Task::PowerOff],
        !old.flags.logind || old.dialog_page_opt is None ==> tasks.len() == 0,
{
}

/// A question is asked with the time at which it was asked; a heartbeat runs while it waits.
pub proof fn law_questions_are_asked(
    old: App,
    new: App,
    message: Message,
    surface: u64,
    subsurface: u64,
    tasks: Seq<Task>,
)
    requires
        new.updated(old, message, surface, subsurface, tasks),
        message is Restart || message is Shutdown || message is DialogCancel,
    ensures
        message is Restart ==> new.dialog_page_opt == Some(DialogPage::Restart(message->Restart_0)),
        message is Shutdown ==> new.dialog_page_opt == Some(
            DialogPage::Shutdown(message->Shutdown_0),
        ),
        message is DialogCancel ==> new.dialog_page_opt is None && !new.heartbeat_handle,
        !(message is DialogCancel) ==> new.heartbeat_handle,
        !old.heartbeat_handle && new.heartbeat_handle ==> tasks == seq![Task::StartHeartbeat],
        old.heartbeat_handle && !new.heartbeat_handle ==> tasks == seq![Task::StopHeartbeat],
        old.heartbeat_handle == new.heartbeat_handle ==> tasks.len() == 0,
{
}

/// A question that has waited for a minute counts as confirmed; before that a heartbeat does nothing.
pub proof fn law_questions_are_confirmed_after_a_minute(
    old: App,
    new: App,
    now: u64,
    surface: u64,
    subsurface: u64,
    tasks: Seq<Task>,
)
    requires
        new.updated(old, Message::Heartbeat(now), surface, subsurface, tasks),
    ensures
        ({
            let page = old.dialog_page_opt->0;
            let asked: u64 = if page is Restart {
                page->Restart_0
            } else {
                page->Shutdown_0
            };
            if old.dialog_page_opt is Some && now - asked >= 60_000_000_000 {
                &&& new.dialog_page_opt is None
                &&& old.flags.logind && page is Restart ==> tasks == seq![Task::Reboot]
                &&& old.flags.logind && page is Shutdown ==> tasks == seq![Task::PowerOff]
                &&& !old.flags.logind ==> tasks.len() == 0
            } else {
                new == old && tasks.len() == 0
            }
        }),
{
}

// ---------------------------------------------------------------------------
// Accessibility
// ---------------------------------------------------------------------------

/// The magnifier and the colours are as they are switched, the compositor is told, and the setting
/// is written where that is possible. Where the compositor cannot be asked, they are off.
pub proof fn law_the_compositor_is_told_of_switches(
    old: App,
    new: App,
    message: Message,
    enabled: bool,
    surface: u64,
    subsurface: u64,
    tasks: Seq<Task>,
)
    requires
        new.updated(old, message, surface, subsurface, tasks),
        message == Message::Magnifier(enabled) || message == Message::InvertColors(enabled),
    ensures
        ({
            let on = old.accessibility.wayland_sender && enabled;
            &&& message is Magnifier ==> new.accessibility.magnifier == on
                && new.accessibility.invert_colors == old.accessibility.invert_colors
            &&& message is InvertColors ==> new.accessibility.invert_colors == on
                && new.accessibility.magnifier == old.accessibility.magnifier
            &&& new.accessibility.screen_reader == old.accessibility.screen_reader
            &&& new.accessibility.high_contrast == old.accessibility.high_contrast
            &&& !old.accessibility.wayland_sender ==> tasks.len() == 0
            &&& old.accessibility.wayland_sender && message is Magnifier ==> {
                &&& tasks.len() > 0
                &&& tasks[0] == Task::Accessibility(AccessibilityRequest::Magnifier(enabled))
                &&& old.accessibility.helper ==> tasks.len() == 2 && tasks[1]
                    == Task::SaveAccessibility(AccessibilitySetting::Magnifier(enabled))
                &&& !old.accessibility.helper ==> tasks.len() == 1
            }
            &&& old.accessibility.wayland_sender && message is InvertColors ==> {
                &&& tasks.len() > 0
                &&& tasks[0] == Task::Accessibility(
                    AccessibilityRequest::ScreenFilter { inverted: enabled },
                )
                &&& old.accessibility.helper ==> tasks.len() == 2 && tasks[1]
                    == Task::SaveAccessibility(AccessibilitySetting::InvertColors(enabled))
                &&& !old.accessibility.helper ==> tasks.len() == 1
            }
        }),
{
}

/// The screen reader is started when it is switched on and none runs, or the one that runs answers;
/// otherwise the one that runs is stopped. It counts as running only once it has been started.
pub proof fn law_the_screen_reader_is_switched(
    old: App,
    new: App,
    enabled: bool,
    waited: bool,
    surface: u64,
    subsurface: u64,
    tasks: Seq<Task>,
)
    requires
        new.updated(old, Message::ScreenReader(enabled, waited), surface, subsurface, tasks),
    ensures
        !new.accessibility.screen_reader,
        new.accessibility.magnifier == old.accessibility.magnifier,
        tasks.contains(Task::StartScreenReader) <==> enabled && (!old.accessibility.screen_reader
            || waited),
        tasks.contains(Task::StopScreenReader) <==> old.accessibility.screen_reader && !(enabled
            && waited),
        tasks.contains(
            Task::SaveAccessibility(AccessibilitySetting::ScreenReader(enabled)),
        ) <==> old.accessibility.helper && (!old.accessibility.screen_reader || (enabled
            && waited)),
{
    let started = enabled && (!old.accessibility.screen_reader || waited);
    if started {
        assert(tasks[0] == Task::StartScreenReader);
        if old.accessibility.helper {
            assert(tasks[1] == Task::SaveAccessibility(
                AccessibilitySetting::ScreenReader(enabled),
            ));
        }
    } else if old.accessibility.screen_reader {
        assert(tasks[0] == Task::StopScreenReader);
    } else if old.accessibility.helper {
        assert(tasks[0] == Task::SaveAccessibility(AccessibilitySetting::ScreenReader(enabled)));
    }
}

/// High contrast keeps the theme light or dark as it is, and changes nothing of it but the contrast.
pub proof fn law_contrast_keeps_the_theme(
    old: App,
    new: App,
    enabled: bool,
    surface: u64,
    subsurface: u64,
    tasks: Seq<Task>,
)
    requires
        new.updated(old, Message::HighContrast(enabled), surface, subsurface, tasks),
    ensures
        new.accessibility.high_contrast == enabled,
        new.theme_builder == old.theme_builder,
        tasks.len() > 0,
        tasks.last() is BuildTheme,
        tasks.last()->BuildTheme_0.palette.dark() == old.theme_builder.palette.dark(),
        tasks.last()->BuildTheme_0.palette.high_contrast() == enabled,
        tasks.last()->BuildTheme_0.notation == old.theme_builder.notation,
        old.accessibility.helper <==> tasks.len() == 2,
        old.accessibility.helper ==> tasks[0] == Task::SaveAccessibility(
            AccessibilitySetting::HighContrast(enabled),
        ),
{
}

/// What the compositor says of its accessibility protocol is taken over; once the protocol can be
/// reached, the compositor is told how things are.
pub proof fn law_the_compositor_is_heard(
    old: App,
    new: App,
    update: WaylandUpdate,
    surface: u64,
    subsurface: u64,
    tasks: Seq<Task>,
)
    requires
        new.updated(old, Message::WaylandUpdate(update), surface, subsurface, tasks),
    ensures
        update is Magnifier ==> new.accessibility.magnifier == update->Magnifier_0,
        update is ScreenFilter ==> new.accessibility.invert_colors == update->inverted,
        update is Bound ==> new.accessibility.wayland_protocol_version == Some(update->Bound_0),
        update is Started ==> new.accessibility.wayland_sender && tasks.len() == 2 && tasks.contains(
            Task::Accessibility(AccessibilityRequest::Magnifier(old.accessibility.magnifier)),
        ) && tasks.contains(
            Task::Accessibility(
                AccessibilityRequest::ScreenFilter { inverted: old.accessibility.invert_colors },
            ),
        ),
        update is Errored || update is Closed ==> !new.accessibility.wayland_sender
            && new.accessibility.wayland_protocol_version is None,
        update is Errored ==> !new.accessibility.magnifier && !new.accessibility.invert_colors,
        update is Closed ==> new.accessibility.magnifier == old.accessibility.magnifier
            && new.accessibility.invert_colors == old.accessibility.invert_colors,
        !(update is Started) ==> tasks.len() == 0,
        new.accessibility.screen_reader == old.accessibility.screen_reader,
        new.accessibility.high_contrast == old.accessibility.high_contrast,
{
    if update is Started {
        assert(tasks[0] == Task::Accessibility(
            AccessibilityRequest::ScreenFilter { inverted: old.accessibility.invert_colors },
        ));
        assert(tasks[1] == Task::Accessibility(
            AccessibilityRequest::Magnifier(old.accessibility.magnifier),
        ));
    }
}

/// What is left is done as it is said: a theme is shown, a channel to greetd is there, a surface acts,
/// the machine sleeps if the login manager is there, a screen reader runs if it was started.
pub proof fn law_small_requests_are_carried_out(
    old: App,
    new: App,
    message: Message,
    surface: u64,
    subsurface: u64,
    tasks: Seq<Task>,
)
    requires
        new.updated(old, message, surface, subsurface, tasks),
    ensures
        message is Reload ==> new == old && tasks == seq![Task::SetTheme(message->Reload_0)],
        message is GreetdChannel ==> new.greetd_sender && tasks.len() == 0,
        message is Surface ==> new == old && tasks == seq![Task::Surface(message->Surface_0)],
        message is Suspend && old.flags.logind ==> new == old && tasks == seq![Task::Suspend],
        message is Suspend && !old.flags.logind ==> new == old && tasks.len() == 0,
        message is ScreenReaderStarted ==> new.accessibility.screen_reader
            == message->ScreenReaderStarted_0 && tasks.len() == 0,
        message is RandrUpdate && message->RandrUpdate_0 is None ==> new == old && tasks.len() == 0,
        new.greetd_sender != old.greetd_sender ==> message is GreetdChannel,
        new.socket_state != old.socket_state ==> message is Socket,
        new.usernames == old.usernames,
        new.session_names == old.session_names,
{
}

// ---------------------------------------------------------------------------
// What an account brings along
// ---------------------------------------------------------------------------

/// Every surface that shows nothing yet gets the wallpaper that the account has for its output.
pub proof fn law_the_wallpapers_of_the_account_are_shown(
    old: App,
    new: App,
    surface: u64,
    subsurface: u64,
    tasks: Seq<Task>,
    user: UserData,
    output: u64,
)
    requires
        new.updated(old, Message::Reconnect, surface, subsurface, tasks),
        old.selected() == Some(user),
        old.common.surface_ids@.contains_key(output),
        !old.common.surface_images@.contains_key(old.common.surface_ids@[output]),
        old.common.surface_names@.contains_key(old.common.surface_ids@[output]),
    ensures
        ({
            let shown_on = old.common.surface_ids@[output];
            let path = wallpaper_of(user, old.common.surface_names@[shown_on]@);
            path is Some ==> new.common.surface_images@.contains_key(shown_on)
                && new.common.surface_images@[shown_on] == path->0 && tasks.contains(
                Task::Common(
                    crate::common::Task::Backdrop {
                        surface: shown_on,
                        path: path->0,
                        sharp: old.common.use_sharp_wallpaper,
                    },
                ),
            )
        }),
{
    let (shown, written) = choose|
        shown: Seq<crate::common::Task>,
        written: Seq<crate::common::Task>,
    |
        #![trigger common_tasks(shown), common_tasks(written)]
        {
            &&& new.common.user_data_updated(old.common, user, shown)
            &&& new.common.xkb_config_written(user, written)
            &&& tasks == common_tasks(shown) + common_tasks(written)
                + crate::greeter::theme_tasks(user)
        };
    law_a_users_wallpapers_are_shown(old.common, new.common, user, shown, output);
    let shown_on = old.common.surface_ids@[output];
    let path = wallpaper_of(user, old.common.surface_names@[shown_on]@);
    if path is Some {
        let task = crate::common::Task::Backdrop {
            surface: shown_on,
            path: path->0,
            sharp: old.common.use_sharp_wallpaper,
        };
        let n = choose|n: int| 0 <= n < shown.len() && shown[n] == task;
        assert(common_tasks(shown)[n] == Task::Common(task));
        assert(tasks[n] == Task::Common(task));
    }
}

/// A new output that tells its name goes by it from the moment it appears, its surface and its menu
/// too, and they have a text field; and it has its size.
pub proof fn law_a_new_output_is_known_at_once(
    old: App,
    new: App,
    info: OutputInfo,
    name: String,
    output: u64,
    surface: u64,
    subsurface: u64,
    tasks: Seq<Task>,
)
    requires
        new.updated(
            old,
            Message::OutputEvent(OutputEvent::Created(Some(info)), output),
            surface,
            subsurface,
            tasks,
        ),
        info.name == Some(name),
        surface != subsurface,
    ensures
        new.common.surface_ids@ == old.common.surface_ids@.insert(output, surface),
        new.common.window_size@.contains_key(surface),
        new.common.window_size@[surface] == output_size(info.logical_size),
        new.common.surface_names@.contains_key(surface),
        new.common.surface_names@[surface] == name,
        new.common.surface_names@.contains_key(subsurface),
        new.common.surface_names@[subsurface] == name,
        new.common.text_input_ids@.contains_key(name@),
        new.common.text_input_ids@[name@]@ == "input-"@ + name@,
{
    let (entered, shown) = choose|entered: App, shown: Seq<Task>|
        #![trigger new.user_data_updated(entered, shown)]
        {
            &&& entered == (App {
                common: entered.common,
                surface_id_pairs: entered.surface_id_pairs,
                ..old
            })
            &&& entered.surface_id_pairs@ == old.surface_id_pairs@.push((surface, subsurface))
            &&& entered.common.output_entered(
                old.common,
                Some(info),
                output,
                surface,
                subsurface,
            )
            &&& new.user_data_updated(entered, shown)
        };
    law_a_new_output_goes_by_its_name(
        old.common,
        entered.common,
        info,
        name,
        output,
        surface,
        subsurface,
    );
    if let Some(user) = entered.selected() {
        let (first, written) = choose|
            first: Seq<crate::common::Task>,
            written: Seq<crate::common::Task>,
        |
            #![trigger common_tasks(first), common_tasks(written)]
            {
                &&& new.common.user_data_updated(entered.common, user, first)
                &&& new.common.xkb_config_written(user, written)
                &&& shown == common_tasks(first) + common_tasks(written)
                    + crate::greeter::theme_tasks(user)
            };
        assert(entered.common.surface_ids@.contains_key(output));
        law_a_users_wallpapers_are_shown(entered.common, new.common, user, first, output);
    }
}

/// Whoever logs in takes the layouts along that are active: they are handed over for the name that was
/// selected, in their order, with everything else that the account has set, and before the session is
/// started.
pub proof fn law_login_takes_the_layouts_along(
    old: App,
    new: App,
    surface: u64,
    subsurface: u64,
    tasks: Seq<Task>,
    user: UserData,
)
    requires
        new.updated(old, Message::Login, surface, subsurface, tasks),
        old.selected() == Some(user),
        user.xkb_config_opt is Some,
        old.common.active_layouts@.len() > 0,
    ensures
        tasks.len() > 0,
        tasks[0] is PersistXkbConfig,
        tasks[0]->username == old.selected_username.username,
        tasks[0]->config.layout@ == layout_list(models(old.common.active_layouts@)),
        tasks[0]->config.variant@ == variant_list(models(old.common.active_layouts@)),
        tasks[0]->config.rules == user.xkb_config_opt->0.rules,
        tasks[0]->config.model == user.xkb_config_opt->0.model,
        tasks[0]->config.options == user.xkb_config_opt->0.options,
        tasks[0]->config.rest == user.xkb_config_opt->0.rest,
{
    let cleared = App {
        common: Common { prompt_opt: None, error_opt: None, ..old.common },
        ..old
    };
    let (handed, request, rest) = choose|handed: Seq<Task>, request: Request, rest: Seq<Task>|
        #![trigger old.layouts_handed_over(handed), old.sent(request), new.login_remembered(cleared, rest)]
        {
            &&& old.layouts_handed_over(handed)
            &&& new.login_remembered(cleared, rest)
            &&& tasks == handed + old.sent(request) + rest
        };
    assert(tasks[0] == handed[0]);
}

/// A layout that is chosen, or switched to, is written to the compositor for the account that is
/// selected, if that has keyboard settings and the compositor's can be opened.
pub proof fn law_changed_layouts_are_written(
    old: App,
    new: App,
    message: Message,
    surface: u64,
    subsurface: u64,
    tasks: Seq<Task>,
    user: UserData,
)
    requires
        new.updated(old, message, surface, subsurface, tasks),
        message is InputSourceSwitch || (message is KeyboardLayout && message->KeyboardLayout_0
            < old.common.active_layouts@.len()),
        old.selected() == Some(user),
    ensures
        user.xkb_config_opt is Some && old.common.comp_config_open ==> tasks.len() == 1 && tasks[0]
            is Common && tasks[0]->Common_0 is WriteXkbConfig
            && tasks[0]->Common_0->WriteXkbConfig_0.layout@ == layout_list(
            models(new.common.active_layouts@),
        ),
        user.xkb_config_opt is None || !old.common.comp_config_open ==> tasks.len() == 0,
{
    let inner = choose|inner: Seq<crate::common::Task>|
        tasks == #[trigger] common_tasks(inner) && new.common.xkb_config_written(user, inner);
    law_written_settings_are_the_users(new.common, user, inner);
    if inner.len() == 1 {
        assert(tasks[0] == Task::Common(inner[0]));
    }
}

/// What the greeter has in common with the lock screen takes part in everything that happens to it: a message
/// for that part does there what it does, everything that follows from it is done in order, and the rest
/// stays.
pub proof fn law_common_messages_are_carried_out(
    old: App,
    new: App,
    message: crate::common::Message,
    surface: u64,
    subsurface: u64,
    tasks: Seq<Task>,
)
    requires
        new.updated(old, Message::Common(message), surface, subsurface, tasks),
    ensures
        exists|inner: Seq<crate::common::Task>|
            {
                &&& #[trigger] new.common.updated(old.common, message, inner)
                &&& inner.len() == tasks.len()
                &&& forall|i: int|
                    0 <= i < tasks.len() ==> #[trigger] tasks[i] == Task::Common(inner[i])
            },
        message is CapsLock ==> new.common.caps_lock == message->CapsLock_0,
        message is Prompt ==> new.common.prompt_opt is Some && new.common.prompt_opt->0.prompt
            == message->Prompt_0 && new.common.prompt_opt->0.value == message->Prompt_2,
        message is Key && message->Key_0.types() && message->Key_0.text is Some
            && old.common.prompt_opt is Some && old.common.prompt_opt->0.value is Some
            ==> new.common.prompt_opt is Some && new.common.prompt_opt->0.value is Some
            && new.common.prompt_opt->0.value->0@ == old.common.prompt_opt->0.value->0@
            + message->Key_0.text->0@,
        new == (App { common: new.common, ..old }),
{
    let inner = choose|inner: Seq<crate::common::Task>|
        tasks == #[trigger] common_tasks(inner) && new.common.updated(
            old.common,
            message,
            inner,
        );
    assert(new.common.updated(old.common, message, inner));
    assert forall|i: int| 0 <= i < tasks.len() implies #[trigger] tasks[i] == Task::Common(
        inner[i],
    ) by {
        assert(common_tasks(inner)[i] == Task::Common(inner[i]));
    }
}

}
