//! What holds of the lock screen, message by message.
use crate::common::{wallpaper_of, with_backdrops, Common, OutputEvent, SessionLockEvent};
use crate::common_laws::{law_every_surface_gets_its_wallpaper, lemma_all_backdrops};
use crate::geometry::{changed_placement, menu_placement, output_size, OutputInfo};
use crate::locker::{
    common_tasks, destroy_tasks, joined, lock_tasks, lockfile_name, stop_tasks, unlock_tasks,
    with_lock_surfaces, App, Dropdown, Message, State, Task,
};
use crate::user::BackgroundState;
use crate::walk::{lists_values, walks};
use vstd::prelude::*;

verus! {

// ---------------------------------------------------------------------------
// Locking and unlocking
// ---------------------------------------------------------------------------

/// Only an unlocked session begins to lock when asked to, and it begins anew: without an error, a
/// fingerprint status, a channel or a check that goes on. The lockfile is written before the
/// compositor is told.
pub proof fn law_locking_begins_anew(old: App, new: App, fresh: Seq<u64>, tasks: Seq<Task>)
    requires
        new.updated(old, Message::Lock, fresh, tasks),
    ensures
        old.state != State::Unlocked ==> new == old && tasks.len() == 0,
        old.state == State::Unlocked ==> {
            &&& new.state == State::Locking
            &&& new.common.error_opt is None
            &&& new.value_tx_opt is None
            &&& !new.authenticating
            &&& new.fingerprint_info_opt is None
            &&& new.inhibit_opt == old.inhibit_opt
            &&& new.flags == old.flags
            &&& new.common.surface_ids == old.common.surface_ids
            &&& new.common.surface_names == old.common.surface_names
            &&& tasks.last() == Task::Lock
            &&& old.flags.lockfile_opt is Some <==> tasks.len() == 2
            &&& old.flags.lockfile_opt is None <==> tasks.len() == 1
            &&& old.flags.lockfile_opt is Some ==> tasks[0] == Task::CreateLockfile(
                old.flags.lockfile_opt->0,
            )
        },
{
}

/// Once the session is locked, sleep is no longer held up, and the user who is logged in is asked
/// for credentials, with their finger if that is enabled. A session that is locked is left alone.
pub proof fn law_a_locked_session_asks_its_user(
    old: App,
    new: App,
    fresh: Seq<u64>,
    tasks: Seq<Task>,
)
    requires
        new.updated(old, Message::SessionLockEvent(SessionLockEvent::Locked), fresh, tasks),
    ensures
        old.state == State::Locked ==> new == old && tasks.len() == 0,
        old.state != State::Locked ==> {
            &&& new.state == State::Locked
            &&& new.inhibit_opt is None
            &&& new.flags == old.flags
            &&& new.value_tx_opt == old.value_tx_opt
            &&& new.common.prompt_opt == old.common.prompt_opt
            &&& new.common.error_opt == old.common.error_opt
            &&& new.common.surface_ids == old.common.surface_ids
            &&& tasks.contains(
                Task::Authenticate {
                    username: old.flags.user_data.name,
                    fingerprint: old.flags.fingerprint_enabled,
                },
            )
            &&& old.inhibit_opt is Some ==> tasks.contains(
                Task::ReleaseInhibitor(old.inhibit_opt->0),
            )
        },
{
    if old.state != State::Locked {
        let made = choose|made: Seq<Task>|
            #![trigger new.common.lock_surfaces_made(old.common, fresh, made)]
            new.common.lock_surfaces_made(old.common, fresh, made) && tasks == lock_tasks(old) + made;
        let first = lock_tasks(old);
        if old.inhibit_opt is Some {
            assert(tasks[0] == first[0]);
            assert(tasks[1] == first[1]);
        } else {
            assert(tasks[0] == first[0]);
        }
    }
}

/// A surface is that of an output.
pub open spec fn is_surface_of_an_output(common: Common, surface: u64) -> bool {
    exists|output: u64|
        common.surface_ids@.contains_key(output) && #[trigger] common.surface_ids@[output] == surface
}

/// Every surface of the outputs is destroyed, and no other.
pub open spec fn destroys_all(tasks: Seq<Task>, common: Common) -> bool {
    &&& forall|output: u64| #[trigger]
        common.surface_ids@.contains_key(output) ==> tasks.contains(
            Task::DestroyLockSurface(common.surface_ids@[output]),
        )
    &&& forall|i: int|
        0 <= i < tasks.len() && (#[trigger] tasks[i]) is DestroyLockSurface
            ==> is_surface_of_an_output(common, tasks[i]->DestroyLockSurface_0)
}

/// The surfaces of the outputs have no names and no sizes; all others have what they had.
pub open spec fn all_forgotten(old: Common, new: Common) -> bool {
    &&& forall|output: u64| #[trigger]
        old.surface_ids@.contains_key(output) ==> {
            &&& !new.surface_names@.contains_key(old.surface_ids@[output])
            &&& !new.window_size@.contains_key(old.surface_ids@[output])
        }
    &&& forall|surface: u64| #[trigger]
        old.surface_names@.contains_key(surface) && !is_surface_of_an_output(old, surface)
            ==> new.surface_names@.contains_key(surface) && new.surface_names@[surface]
            == old.surface_names@[surface]
}

proof fn lemma_listed(common: Common, surfaces: Seq<u64>)
    requires
        lists_values(common.surface_ids@, surfaces),
    ensures
        forall|output: u64| #[trigger]
            common.surface_ids@.contains_key(output) ==> surfaces.contains(
                common.surface_ids@[output],
            ),
        forall|i: int|
            0 <= i < surfaces.len() ==> is_surface_of_an_output(common, #[trigger] surfaces[i]),
{
    let m = common.surface_ids@;
    let order = choose|order: Seq<u64>| #[trigger]
        walks(m, order) && surfaces == order.map_values(|k: u64| m[k]);
    assert forall|output: u64| #[trigger] m.contains_key(output) implies surfaces.contains(
        m[output],
    ) by {
        assert(order.contains(output));
        let k = choose|k: int| 0 <= k < order.len() && order[k] == output;
        assert(surfaces[k] == m[output]);
    }
    assert forall|i: int| 0 <= i < surfaces.len() implies is_surface_of_an_output(
        common,
        #[trigger] surfaces[i],
    ) by {
        assert(order.contains(order[i]));
        assert(m.contains_key(order[i]));
        assert(m[order[i]] == surfaces[i]);
    }
}

proof fn lemma_forgotten(old: Common, new: Common, surfaces: Seq<u64>)
    requires
        new.surfaces_forgotten(old, surfaces),
    ensures
        all_forgotten(old, new),
{
    lemma_listed(old, surfaces);
    let gone = surfaces.to_set();
    assert forall|output: u64| #[trigger] old.surface_ids@.contains_key(output) implies {
        &&& !new.surface_names@.contains_key(old.surface_ids@[output])
        &&& !new.window_size@.contains_key(old.surface_ids@[output])
    } by {
        assert(gone.contains(old.surface_ids@[output]));
    }
    assert forall|surface: u64| #[trigger]
        old.surface_names@.contains_key(surface) && !is_surface_of_an_output(
            old,
            surface,
        ) implies new.surface_names@.contains_key(surface) && new.surface_names@[surface]
        == old.surface_names@[surface] by {
        if gone.contains(surface) {
            assert(surfaces.contains(surface));
            let i = choose|i: int| 0 <= i < surfaces.len() && surfaces[i] == surface;
            assert(is_surface_of_an_output(old, surfaces[i]));
        }
    }
}

proof fn lemma_destroyed(before: Seq<Task>, surfaces: Seq<u64>, after: Seq<Task>, common: Common)
    requires
        lists_values(common.surface_ids@, surfaces),
        forall|i: int| 0 <= i < before.len() ==> !((#[trigger] before[i]) is DestroyLockSurface),
        forall|i: int| 0 <= i < after.len() ==> !((#[trigger] after[i]) is DestroyLockSurface),
    ensures
        destroys_all(before + destroy_tasks(surfaces) + after, common),
{
    lemma_listed(common, surfaces);
    let tasks = before + destroy_tasks(surfaces) + after;
    let b = before.len() as int;
    assert forall|output: u64| #[trigger]
        common.surface_ids@.contains_key(output) implies tasks.contains(
        Task::DestroyLockSurface(common.surface_ids@[output]),
    ) by {
        let surface = common.surface_ids@[output];
        let k = choose|k: int| 0 <= k < surfaces.len() && surfaces[k] == surface;
        assert(destroy_tasks(surfaces)[k] == Task::DestroyLockSurface(surface));
        assert(tasks[b + k] == Task::DestroyLockSurface(surface));
    }
    assert forall|i: int|
        0 <= i < tasks.len() && (#[trigger] tasks[i]) is DestroyLockSurface implies
        is_surface_of_an_output(common, tasks[i]->DestroyLockSurface_0) by {
        if i < b {
            assert(tasks[i] == before[i]);
        } else if i < b + surfaces.len() {
            assert(tasks[i] == destroy_tasks(surfaces)[i - b]);
            assert(is_surface_of_an_output(common, surfaces[i - b]));
        } else {
            assert(tasks[i] == after[i - b - surfaces.len()]);
        }
    }
}

/// Only a locked session begins to unlock when asked to. Nobody is asked for credentials any more,
/// the lockfile goes, every lock surface is destroyed, and the compositor is told last.
pub proof fn law_unlocking_clears_everything(old: App, new: App, fresh: Seq<u64>, tasks: Seq<Task>)
    requires
        new.updated(old, Message::Unlock, fresh, tasks),
    ensures
        old.state != State::Locked ==> new == old && tasks.len() == 0,
        old.state == State::Locked ==> {
            &&& new.state == State::Unlocking
            &&& new.flags == old.flags
            &&& new.common.error_opt is None
            &&& new.common.surface_ids == old.common.surface_ids
            &&& all_forgotten(old.common, new.common)
            &&& tasks.len() > 0
            &&& tasks[0] == Task::StopAuthenticating
            &&& tasks.last() == Task::Unlock
            &&& old.flags.lockfile_opt is Some ==> tasks.contains(
                Task::RemoveLockfile(old.flags.lockfile_opt->0),
            )
            &&& destroys_all(tasks, old.common)
        },
{
    if old.state == State::Locked {
        let calm = Common { error_opt: None, ..old.common };
        let surfaces = choose|surfaces: Seq<u64>|
            #![trigger destroy_tasks(surfaces)]
            {
                &&& new.common.surfaces_forgotten(calm, surfaces)
                &&& tasks == unlock_tasks(old.flags.lockfile_opt) + destroy_tasks(surfaces) + seq![
                    Task::Unlock,
                ]
            };
        let first = unlock_tasks(old.flags.lockfile_opt);
        lemma_destroyed(first, surfaces, seq![Task::Unlock], old.common);
        lemma_forgotten(calm, new.common, surfaces);
        assert(all_forgotten(old.common, new.common));
        assert(tasks[0] == first[0]);
        if old.flags.lockfile_opt is Some {
            assert(tasks[1] == first[1]);
        }
    }
}

/// Once the compositor has unlocked the session, nobody is asked for credentials any more. Without
/// the login manager the lock screen has done its work; with it every lock surface is destroyed.
pub proof fn law_an_unlocked_session_shows_nothing(
    old: App,
    new: App,
    fresh: Seq<u64>,
    tasks: Seq<Task>,
)
    requires
        new.updated(old, Message::SessionLockEvent(SessionLockEvent::Unlocked), fresh, tasks),
    ensures
        new.state == State::Unlocked,
        new.flags == old.flags,
        all_forgotten(old.common, new.common),
        old.state == State::Locked <==> tasks.contains(Task::StopAuthenticating),
        !old.flags.logind <==> tasks.contains(Task::Exit),
        old.flags.logind ==> destroys_all(tasks, old.common),
        !old.flags.logind ==> forall|i: int|
            0 <= i < tasks.len() ==> !((#[trigger] tasks[i]) is DestroyLockSurface),
{
    let surfaces = choose|surfaces: Seq<u64>|
        #![trigger new.common.surfaces_forgotten(old.common, surfaces)]
        {
            &&& new.common.surfaces_forgotten(old.common, surfaces)
            &&& tasks == stop_tasks(old.state) + (if old.flags.logind {
                destroy_tasks(surfaces)
            } else {
                seq![Task::Exit]
            })
        };
    let first = stop_tasks(old.state);
    lemma_forgotten(old.common, new.common, surfaces);
    if old.state == State::Locked {
        assert(tasks[0] == first[0]);
    }
    if old.flags.logind {
        lemma_destroyed(first, surfaces, Seq::empty(), old.common);
        assert(first + destroy_tasks(surfaces) + Seq::<Task>::empty() == tasks);
        assert forall|i: int| 0 <= i < tasks.len() implies !((#[trigger] tasks[i]) is Exit) by {
            if i >= first.len() {
                assert(tasks[i] == destroy_tasks(surfaces)[i - first.len()]);
            } else {
                assert(tasks[i] == first[i]);
            }
        }
        if old.state != State::Locked {
            assert forall|i: int| 0 <= i < tasks.len() implies !((
            #[trigger] tasks[i]) is StopAuthenticating) by {
                assert(tasks[i] == destroy_tasks(surfaces)[i]);
            }
        }
    } else {
        assert(tasks[first.len() as int] == Task::Exit);
    }
}

/// Nothing but requests and the compositor's reports moves the lock, and it moves in a circle:
/// unlocked, locking, locked, unlocking.
pub proof fn law_the_lock_moves_in_a_circle(
    old: App,
    new: App,
    message: Message,
    fresh: Seq<u64>,
    tasks: Seq<Task>,
)
    requires
        new.updated(old, message, fresh, tasks),
        new.state != old.state,
    ensures
        new.state == State::Locking ==> old.state == State::Unlocked && message is Lock,
        new.state == State::Unlocking ==> old.state == State::Locked && message is Unlock,
        new.state == State::Locked ==> message == Message::SessionLockEvent(
            SessionLockEvent::Locked,
        ),
        new.state == State::Unlocked ==> message == Message::SessionLockEvent(
            SessionLockEvent::Unlocked,
        ),
{
    crate::locker::law_lock_state(old, new, message, fresh, tasks);
}

proof fn lemma_names(names: Map<u64, String>, outputs: Seq<u64>, common: Common, fresh: Seq<u64>, k: int)
    requires
        outputs.no_duplicates(),
        0 <= k < outputs.len(),
        common.subsurface_rects@.contains_key(outputs[k]),
        common.output_names@.contains_key(outputs[k]),
        forall|i: int, j: int|
            0 <= i < outputs.len() && 0 <= j < outputs.len() && i != j ==>
                common.surface_ids@[#[trigger] outputs[i]] != common.surface_ids@[#[trigger] outputs[j]],
        forall|n: int| 0 <= n < outputs.len() ==> (#[trigger] fresh[n])
            != common.surface_ids@[outputs[k]],
    ensures
        ({
            let made = with_lock_surfaces(names, outputs, common, fresh);
            &&& 0 <= made.taken <= outputs.len()
            &&& made.names.contains_key(common.surface_ids@[outputs[k]])
            &&& made.names[common.surface_ids@[outputs[k]]] == common.output_names@[outputs[k]]
        }),
    decreases outputs.len(),
{
    let less = outputs.drop_last();
    let before = with_lock_surfaces(names, less, common, fresh);
    lemma_taken(names, less, common, fresh);
    lemma_taken(names, outputs, common, fresh);
    if k < less.len() {
        assert(less[k] == outputs[k]);
        assert forall|i: int, j: int|
            0 <= i < less.len() && 0 <= j < less.len() && i != j implies
            common.surface_ids@[#[trigger] less[i]] != common.surface_ids@[#[trigger] less[j]] by {
            assert(less[i] == outputs[i] && less[j] == outputs[j]);
        }
        lemma_names(names, less, common, fresh, k);
        let last = outputs.len() - 1;
        assert(common.surface_ids@[outputs[last]] != common.surface_ids@[outputs[k]]);
        assert(fresh[before.taken] != common.surface_ids@[outputs[k]]);
    } else {
        assert(outputs.last() == outputs[k]);
        assert(fresh[before.taken] != common.surface_ids@[outputs[k]]);
    }
}

proof fn lemma_taken(names: Map<u64, String>, outputs: Seq<u64>, common: Common, fresh: Seq<u64>)
    ensures
        0 <= with_lock_surfaces(names, outputs, common, fresh).taken <= outputs.len(),
    decreases outputs.len(),
{
    if outputs.len() > 0 {
        lemma_taken(names, outputs.drop_last(), common, fresh);
    }
}

/// Once the session is locked, the surface of every output that has a name and a place for a menu
/// goes by the name of that output.
pub proof fn law_lock_surfaces_go_by_their_output(
    old: App,
    new: App,
    fresh: Seq<u64>,
    tasks: Seq<Task>,
    output: u64,
)
    requires
        new.updated(old, Message::SessionLockEvent(SessionLockEvent::Locked), fresh, tasks),
        old.state != State::Locked,
        old.common.surface_ids@.contains_key(output),
        old.common.subsurface_rects@.contains_key(output),
        old.common.output_names@.contains_key(output),
        old.common.surface_ids@.is_injective(),
        forall|n: int| (#[trigger] fresh[n]) != old.common.surface_ids@[output],
    ensures
        new.common.surface_names@.contains_key(old.common.surface_ids@[output]),
        new.common.surface_names@[old.common.surface_ids@[output]]
            == old.common.output_names@[output],
{
    let made = choose|made: Seq<Task>|
        #![trigger new.common.lock_surfaces_made(old.common, fresh, made)]
        new.common.lock_surfaces_made(old.common, fresh, made) && tasks == lock_tasks(old) + made;
    let outputs = choose|outputs: Seq<u64>| #[trigger]
        walks(old.common.surface_ids@, outputs) && ({
            let done = with_lock_surfaces(old.common.surface_names@, outputs, old.common, fresh);
            &&& new.common.surface_names@ == done.names
            &&& made == done.tasks
        });
    assert(outputs.contains(output));
    let k = choose|k: int| 0 <= k < outputs.len() && outputs[k] == output;
    assert forall|i: int, j: int|
        0 <= i < outputs.len() && 0 <= j < outputs.len() && i != j implies
        old.common.surface_ids@[#[trigger] outputs[i]]
        != old.common.surface_ids@[#[trigger] outputs[j]] by {
        assert(outputs.contains(outputs[i]) && outputs.contains(outputs[j]));
        assert(outputs[i] != outputs[j]);
        assert(old.common.surface_ids@.dom().contains(outputs[i]));
        assert(old.common.surface_ids@.dom().contains(outputs[j]));
    }
    lemma_names(old.common.surface_names@, outputs, old.common, fresh, k);
}

// ---------------------------------------------------------------------------
// Outputs
// ---------------------------------------------------------------------------

/// An output that appears has a surface of its size and a place for its menu. While the session is
/// locked it is locked too: it gets a lock surface and then its menu.
pub proof fn law_a_new_output_is_shown(
    old: App,
    new: App,
    info: Option<OutputInfo>,
    output: u64,
    fresh: Seq<u64>,
    tasks: Seq<Task>,
)
    requires
        new.updated(old, Message::OutputEvent(OutputEvent::Created(info), output), fresh, tasks),
        !old.common.surface_ids@.contains_key(output),
    ensures
        ({
            let size = output_size(
                if info is Some {
                    info->0.logical_size
                } else {
                    None
                },
            );
            &&& new.state == old.state
            &&& new.flags == old.flags
            &&& new.common.surface_ids@ == old.common.surface_ids@.insert(output, fresh[0])
            &&& new.common.window_size@.contains_key(fresh[0])
            &&& new.common.window_size@[fresh[0]] == size
            &&& new.common.subsurface_rects@.contains_key(output)
            &&& new.common.subsurface_rects@[output] == menu_placement(size)
            &&& old.state == State::Locked ==> {
                &&& tasks.len() >= 2
                &&& tasks[tasks.len() - 2] == Task::GetLockSurface { surface: fresh[0], output }
                &&& tasks[tasks.len() - 1] == Task::OpenMenu {
                    surface: fresh[0],
                    subsurface: fresh[1],
                    placement: menu_placement(size),
                }
            }
            &&& old.state != State::Locked ==> forall|i: int|
                0 <= i < tasks.len() ==> (#[trigger] tasks[i]) is Common
        }),
{
    let shown = choose|shown: Seq<crate::common::Task>|
        #![trigger common_tasks(shown)]
        {
            &&& new.common.output_added(
                old.common,
                info,
                output,
                fresh[0],
                fresh[1],
                old.flags.user_data,
                shown,
            )
            &&& tasks == common_tasks(shown) + crate::locker::new_surface_tasks(
                old.state,
                fresh[0],
                output,
                fresh[1],
                menu_placement(crate::locker::told_size(info)),
            )
        };
    let first = common_tasks(shown);
    if old.state == State::Locked {
        assert(tasks.len() == first.len() + 2);
    } else {
        assert forall|i: int| 0 <= i < tasks.len() implies (#[trigger] tasks[i]) is Common by {
            assert(tasks[i] == first[i]);
        }
    }
}

/// A new output that tells its name goes by it, its surface and its menu too, and they have a text
/// field.
pub proof fn law_a_new_output_goes_by_its_name(
    old: App,
    new: App,
    info: OutputInfo,
    name: String,
    output: u64,
    fresh: Seq<u64>,
    tasks: Seq<Task>,
)
    requires
        new.updated(
            old,
            Message::OutputEvent(OutputEvent::Created(Some(info)), output),
            fresh,
            tasks,
        ),
        info.name == Some(name),
        !old.common.surface_ids@.contains_key(output),
        fresh[0] != fresh[1],
    ensures
        new.common.output_names@ == old.common.output_names@.insert(output, name),
        new.common.surface_names@.contains_key(fresh[0]),
        new.common.surface_names@[fresh[0]] == name,
        new.common.surface_names@.contains_key(fresh[1]),
        new.common.surface_names@[fresh[1]] == name,
        new.common.text_input_ids@.contains_key(name@),
        new.common.text_input_ids@[name@]@ == "input-"@ + name@,
{
    let shown = choose|shown: Seq<crate::common::Task>|
        #![trigger common_tasks(shown)]
        new.common.output_added(
            old.common,
            Some(info),
            output,
            fresh[0],
            fresh[1],
            old.flags.user_data,
            shown,
        );
    let placed = choose|placed: Common|
        #![trigger placed.output_placed(old.common, Some(info), output, fresh[0])]
        {
            &&& placed.output_placed(old.common, Some(info), output, fresh[0])
            &&& new.common.output_named(
                placed,
                name,
                output,
                fresh[0],
                fresh[1],
                old.flags.user_data,
                shown,
            )
        };
    assert(placed.output_names == old.common.output_names);
}

/// An output that goes takes its surface along, with its name, size and wallpaper; on a locked
/// session the lock surface is destroyed. The other outputs keep what they have.
pub proof fn law_a_lost_output_is_forgotten(
    old: App,
    new: App,
    output: u64,
    fresh: Seq<u64>,
    tasks: Seq<Task>,
)
    requires
        new.updated(old, Message::OutputEvent(OutputEvent::Removed, output), fresh, tasks),
    ensures
        new.state == old.state,
        new.flags == old.flags,
        new.common.surface_ids@ == old.common.surface_ids@.remove(output),
        old.common.surface_ids@.contains_key(output) ==> {
            let surface = old.common.surface_ids@[output];
            &&& !new.common.surface_names@.contains_key(surface)
            &&& !new.common.surface_images@.contains_key(surface)
            &&& !new.common.window_size@.contains_key(surface)
            &&& forall|other: u64|
                other != surface && #[trigger] old.common.surface_names@.contains_key(other)
                    ==> new.common.surface_names@.contains_key(other)
                    && new.common.surface_names@[other] == old.common.surface_names@[other]
            &&& old.state == State::Locked ==> tasks == seq![Task::DestroyLockSurface(surface)]
        },
        old.state != State::Locked || !old.common.surface_ids@.contains_key(output) ==> tasks.len()
            == 0,
{
}

/// An output that changes has its menu in the place for its new size; nothing else changes.
pub proof fn law_a_changed_output_moves_its_menu(
    old: App,
    new: App,
    info: OutputInfo,
    output: u64,
    fresh: Seq<u64>,
    tasks: Seq<Task>,
)
    requires
        new.updated(old, Message::OutputEvent(OutputEvent::InfoUpdate(info), output), fresh, tasks),
    ensures
        tasks.len() == 0,
        new.common.subsurface_rects@.contains_key(output),
        new.common.subsurface_rects@[output] == changed_placement(output_size(info.logical_size)),
        forall|other: u64|
            other != output && #[trigger] old.common.subsurface_rects@.contains_key(other)
                ==> new.common.subsurface_rects@.contains_key(other)
                && new.common.subsurface_rects@[other] == old.common.subsurface_rects@[other],
        new.common.surface_ids == old.common.surface_ids,
        new.common.window_size == old.common.window_size,
        new.state == old.state,
{
}

// ---------------------------------------------------------------------------
// The user
// ---------------------------------------------------------------------------

/// What the user submits goes once through the channel that waits for it, with what they typed, and
/// is being checked; an earlier error is no longer shown.
pub proof fn law_what_is_submitted_is_sent(
    old: App,
    new: App,
    value: String,
    fresh: Seq<u64>,
    tasks: Seq<Task>,
)
    requires
        new.updated(old, Message::Submit(value), fresh, tasks),
    ensures
        new.authenticating,
        new.common.error_opt is None,
        new.value_tx_opt is None,
        new.state == old.state,
        new.common.prompt_opt == old.common.prompt_opt,
        old.value_tx_opt is None ==> tasks.len() == 0,
        old.value_tx_opt is Some ==> tasks == seq![
            Task::SendValue { channel: old.value_tx_opt->0, value },
        ],
{
}

/// A failed attempt shows its error and is no longer being checked; nothing is unlocked.
pub proof fn law_a_failed_attempt_unlocks_nothing(
    old: App,
    new: App,
    error: String,
    fresh: Seq<u64>,
    tasks: Seq<Task>,
)
    requires
        new.updated(old, Message::Error(error), fresh, tasks),
    ensures
        new.common.error_opt == Some(error),
        !new.authenticating,
        new.state == old.state,
        new.value_tx_opt == old.value_tx_opt,
        new.common.surface_ids == old.common.surface_ids,
        tasks.len() == 0,
{
}

/// An inhibitor of sleep is held until the session is locked: a locked session lets go of it at once,
/// and another session lets go of the one before.
pub proof fn law_inhibitors_are_let_go(
    old: App,
    new: App,
    inhibitor: u64,
    fresh: Seq<u64>,
    tasks: Seq<Task>,
)
    requires
        new.updated(old, Message::Inhibit(inhibitor), fresh, tasks),
    ensures
        new.state == old.state,
        old.state == State::Locked ==> new.inhibit_opt == old.inhibit_opt && tasks == seq![
            Task::ReleaseInhibitor(inhibitor),
        ],
        old.state != State::Locked ==> {
            &&& new.inhibit_opt == Some(inhibitor)
            &&& old.inhibit_opt is Some ==> tasks == seq![
                Task::ReleaseInhibitor(old.inhibit_opt->0),
            ]
            &&& old.inhibit_opt is None ==> tasks.len() == 0
        },
{
}

/// News for the lock screen is kept as it comes: the channel for an answer, the status of the
/// fingerprint reader, how the user wants the time. Suspending is for the login manager alone.
pub proof fn law_news_is_kept(
    old: App,
    new: App,
    message: Message,
    fresh: Seq<u64>,
    tasks: Seq<Task>,
)
    requires
        new.updated(old, message, fresh, tasks),
    ensures
        message is Channel ==> new.value_tx_opt == Some(message->Channel_0) && tasks.len() == 0,
        message is FingerprintInfo ==> new.fingerprint_info_opt == message->FingerprintInfo_0
            && tasks.len() == 0,
        message is TimeAppletConfig ==> new.flags.user_data.clock_military_time_opt == Some(
            message->TimeAppletConfig_0,
        ) && new.flags.user_data.name == old.flags.user_data.name && tasks.len() == 0,
        message is Surface ==> new == old && tasks == seq![Task::Surface(message->Surface_0)],
        message is Suspend && old.flags.logind ==> new == old && tasks == seq![Task::Suspend],
        message is Suspend && !old.flags.logind ==> new == old && tasks.len() == 0,
        message is Heartbeat ==> new == old && tasks.len() == 0,
        message is DropdownToggle ==> tasks.len() == 0 && (new.dropdown_opt is None
            <==> old.dropdown_opt is Some),
        message is KeyboardLayout ==> new.dropdown_opt is None,
        new.flags.lockfile_opt == old.flags.lockfile_opt,
        new.flags.logind == old.flags.logind,
        new.flags.fingerprint_enabled == old.flags.fingerprint_enabled,
        new.flags.user_data.name == old.flags.user_data.name,
        new.flags.user_data.uid == old.flags.user_data.uid,
{
    if message is DropdownToggle {
        assert(message->DropdownToggle_0 == Dropdown::Keyboard);
        if old.dropdown_opt is Some {
            assert(old.dropdown_opt->0 == Dropdown::Keyboard);
        }
    }
}

/// The keyboard layout that was chosen comes first, and the one that was first takes its place; a
/// choice that is not in the list changes no layout.
pub proof fn law_the_chosen_layout_comes_first(
    old: App,
    new: App,
    i: usize,
    fresh: Seq<u64>,
    tasks: Seq<Task>,
)
    requires
        new.updated(old, Message::KeyboardLayout(i), fresh, tasks),
    ensures
        ({
            let before = old.common.active_layouts@;
            let after = new.common.active_layouts@;
            &&& after.len() == before.len()
            &&& i < before.len() ==> {
                &&& after[0] == before[i as int]
                &&& after[i as int] == before[0]
                &&& forall|j: int|
                    0 < j < before.len() && j != i ==> #[trigger] after[j] == before[j]
            }
            &&& i >= before.len() ==> after == before && tasks.len() == 0
            &&& i < before.len() && old.flags.user_data.xkb_config_opt is Some
                && old.common.comp_config_open ==> tasks.len() == 1 && tasks[0] is Common
                && tasks[0]->Common_0 is WriteXkbConfig
        }),
{
    if i < old.common.active_layouts@.len() {
        let inner = choose|inner: Seq<crate::common::Task>|
            tasks == #[trigger] common_tasks(inner) && new.common.xkb_config_written(
                old.flags.user_data,
                inner,
            );
        crate::common_laws::law_written_settings_are_the_users(
            new.common,
            old.flags.user_data,
            inner,
        );
    }
}

/// The lockfile of a session lies in the directory for running programs and is named after the
/// session, so that two sessions do not share one.
pub proof fn law_lockfiles_differ(dir: Seq<char>, one: Seq<char>, other: Seq<char>)
    requires
        one != other,
    ensures
        joined(dir, lockfile_name(one)) != joined(dir, lockfile_name(other)),
{
    let start = "cosmic-greeter-"@;
    let end = ".lock"@;
    let first = joined(dir, lockfile_name(one));
    let second = joined(dir, lockfile_name(other));
    if first == second {
        let d = first.len() - lockfile_name(one).len();
        assert(first.skip(d) == lockfile_name(one));
        assert(second.skip(second.len() - lockfile_name(other).len()) == lockfile_name(other));
        assert(lockfile_name(one) == lockfile_name(other));
        let s = start.len() as int;
        let n = lockfile_name(one).len() - end.len();
        assert(lockfile_name(one).subrange(s, n) == one);
        assert(lockfile_name(other).subrange(s, n) == other);
    }
}

// ---------------------------------------------------------------------------
// Wallpapers
// ---------------------------------------------------------------------------

/// With new background settings every surface of an output that has a name shows the wallpaper that
/// these name for it, whatever it showed before.
pub proof fn law_new_backgrounds_replace_all_wallpapers(
    old: App,
    new: App,
    state: BackgroundState,
    contents: Vec<Option<Vec<u8>>>,
    fresh: Seq<u64>,
    tasks: Seq<Task>,
    output: u64,
)
    requires
        new.updated(old, Message::BackgroundState(state, contents), fresh, tasks),
        old.common.surface_ids@.contains_key(output),
        old.common.surface_names@.contains_key(old.common.surface_ids@[output]),
    ensures
        ({
            let surface = old.common.surface_ids@[output];
            let path = wallpaper_of(
                new.flags.user_data,
                old.common.surface_names@[surface]@,
            );
            &&& new.flags.user_data.bg_state == state
            &&& new.state == old.state
            &&& path is Some ==> {
                &&& new.common.surface_images@.contains_key(surface)
                &&& new.common.surface_images@[surface] == path->0
                &&& tasks.contains(
                    Task::Common(
                        crate::common::Task::Backdrop {
                            surface,
                            path: path->0,
                            sharp: old.common.use_sharp_wallpaper,
                        },
                    ),
                )
            }
        }),
{
    let user_data = new.flags.user_data;
    let (cleared, shown) = choose|cleared: Common, shown: Seq<crate::common::Task>|
        #![trigger new.common.wallpapers_updated(cleared, user_data, shown)]
        {
            &&& cleared == (Common { surface_images: cleared.surface_images, ..old.common })
            &&& cleared.surface_images@ == Map::<u64, String>::empty()
            &&& new.common.wallpapers_updated(cleared, user_data, shown)
            &&& tasks == common_tasks(shown)
        };
    law_every_surface_gets_its_wallpaper(cleared, new.common, user_data, shown, output);
    let surface = old.common.surface_ids@[output];
    let path = wallpaper_of(user_data, old.common.surface_names@[surface]@);
    if path is Some {
        let task = crate::common::Task::Backdrop {
            surface,
            path: path->0,
            sharp: old.common.use_sharp_wallpaper,
        };
        let n = choose|n: int| 0 <= n < shown.len() && shown[n] == task;
        assert(tasks[n] == Task::Common(task));
    }
}

/// A new output that tells its name shows its wallpaper at once.
pub proof fn law_a_new_output_shows_its_wallpaper(
    old: App,
    new: App,
    info: OutputInfo,
    name: String,
    output: u64,
    fresh: Seq<u64>,
    tasks: Seq<Task>,
)
    requires
        new.updated(
            old,
            Message::OutputEvent(OutputEvent::Created(Some(info)), output),
            fresh,
            tasks,
        ),
        info.name == Some(name),
        !old.common.surface_ids@.contains_key(output),
        fresh[0] != fresh[1],
        wallpaper_of(old.flags.user_data, name@) is Some,
    ensures
        ({
            let path = wallpaper_of(old.flags.user_data, name@)->0;
            &&& new.common.surface_images@.contains_key(fresh[0])
            &&& new.common.surface_images@[fresh[0]] == path
            &&& tasks.contains(
                Task::Common(
                    crate::common::Task::Backdrop {
                        surface: fresh[0],
                        path,
                        sharp: old.common.use_sharp_wallpaper,
                    },
                ),
            )
        }),
{
    let user_data = old.flags.user_data;
    let path = wallpaper_of(user_data, name@)->0;
    let shown = choose|shown: Seq<crate::common::Task>|
        #![trigger common_tasks(shown)]
        {
            &&& new.common.output_added(
                old.common,
                Some(info),
                output,
                fresh[0],
                fresh[1],
                user_data,
                shown,
            )
            &&& tasks == common_tasks(shown) + crate::locker::new_surface_tasks(
                old.state,
                fresh[0],
                output,
                fresh[1],
                menu_placement(crate::locker::told_size(Some(info))),
            )
        };
    let placed = choose|placed: Common|
        #![trigger placed.output_placed(old.common, Some(info), output, fresh[0])]
        {
            &&& placed.output_placed(old.common, Some(info), output, fresh[0])
            &&& new.common.output_named(
                placed,
                name,
                output,
                fresh[0],
                fresh[1],
                user_data,
                shown,
            )
        };
    let images = placed.surface_images@.remove(fresh[0]);
    let names = placed.surface_names@.insert(fresh[0], name).insert(fresh[1], name);
    let outputs = choose|outputs: Seq<u64>|
        walks(placed.surface_ids@, outputs) && (crate::common::Backdrops {
            images: new.common.surface_images@,
            tasks: shown,
        }) == #[trigger] with_backdrops(
            images,
            outputs,
            placed.surface_ids@,
            names,
            user_data,
            placed.use_sharp_wallpaper,
        );
    assert(placed.surface_ids@.contains_key(output));
    assert(outputs.contains(output));
    let k = choose|k: int| 0 <= k < outputs.len() && outputs[k] == output;
    lemma_all_backdrops(
        images,
        outputs,
        placed.surface_ids@,
        names,
        user_data,
        placed.use_sharp_wallpaper,
        k,
    );
    let task = crate::common::Task::Backdrop {
        surface: fresh[0],
        path,
        sharp: old.common.use_sharp_wallpaper,
    };
    let n = choose|n: int| 0 <= n < shown.len() && shown[n] == task;
    assert(tasks[n] == Task::Common(task));
}

/// What the lock screen has in common with the greeter takes part in everything that happens to it: a message
/// for that part does there what it does, everything that follows from it is done in order, and the rest
/// stays.
pub proof fn law_common_messages_are_carried_out(
    old: App,
    new: App,
    message: crate::common::Message,
    fresh: Seq<u64>,
    tasks: Seq<Task>,
)
    requires
        new.updated(old, Message::Common(message), fresh, tasks),
    ensures
        exists|inner: Seq<crate::common::Task>|
            {
                &&& #[trigger] new.common.updated(old.common, message, inner)
                &&& inner.len() == tasks.len()
                &&& forall|i: int|
                    0 <= i < tasks.len() ==> #[trigger] tasks[i] == Task::Common(inner[i])
            },
        message is CapsLock ==> new.common.caps_lock == message->CapsLock_0,
        message is Prompt ==> new.common.prompt_opt is Some && new.common.prompt_opt->0.prompt
            == message->Prompt_0 && new.common.prompt_opt->0.value == message->Prompt_2,
        message is Key && message->Key_0.types() && message->Key_0.text is Some
            && old.common.prompt_opt is Some && old.common.prompt_opt->0.value is Some
            ==> new.common.prompt_opt is Some && new.common.prompt_opt->0.value is Some
            && new.common.prompt_opt->0.value->0@ == old.common.prompt_opt->0.value->0@
            + message->Key_0.text->0@,
        new == (App { common: new.common, ..old }),
{
    let inner = choose|inner: Seq<crate::common::Task>|
        tasks == #[trigger] common_tasks(inner) && new.common.updated(
            old.common,
            message,
            inner,
        );
    assert(new.common.updated(old.common, message, inner));
    assert forall|i: int| 0 <= i < tasks.len() implies #[trigger] tasks[i] == Task::Common(
        inner[i],
    ) by {
        assert(common_tasks(inner)[i] == Task::Common(inner[i]));
    }
}

/// An output that appears although it is known only gets another surface; and what the compositor says
/// of the lock, but for that it is locked or unlocked, changes nothing.
pub proof fn law_what_is_known_is_not_shown_again(
    old: App,
    new: App,
    message: Message,
    fresh: Seq<u64>,
    tasks: Seq<Task>,
)
    requires
        new.updated(old, message, fresh, tasks),
    ensures
        message is OutputEvent && message->OutputEvent_0 is Created
            && old.common.surface_ids@.contains_key(message->OutputEvent_1) ==> {
            &&& tasks.len() == 0
            &&& new.common.surface_ids@ == old.common.surface_ids@.insert(
                message->OutputEvent_1,
                fresh[0],
            )
            &&& new.common.surface_names == old.common.surface_names
            &&& new.common.window_size == old.common.window_size
            &&& new.state == old.state
        },
        message is SessionLockEvent && message->SessionLockEvent_0 != SessionLockEvent::Locked
            && message->SessionLockEvent_0 != SessionLockEvent::Unlocked ==> new == old
            && tasks.len() == 0,
{
}

}
