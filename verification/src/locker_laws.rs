//! What holds of the lock screen as a whole.
use crate::common::{Common, SessionLockEvent};
use crate::locker::{
    lemma_walk_length, lock_tasks, with_lock_surfaces, App, Message, State, Task,
};
use crate::walk::walks;
use vstd::prelude::*;

verus! {

/// An output has a name and a place for its menu.
pub open spec fn has_menu(common: Common, output: u64) -> bool {
    common.output_names@.contains_key(output) && common.subsurface_rects@.contains_key(output)
}

/// The task that gets the lock surface of an output.
pub open spec fn surface_task(common: Common, output: u64) -> Task {
    Task::GetLockSurface { surface: common.surface_ids@[output], output }
}

/// The task opens the menu of an output on its surface, in its place.
pub open spec fn opens_menu_of(task: Task, common: Common, output: u64) -> bool {
    &&& task is OpenMenu
    &&& task->OpenMenu_surface == common.surface_ids@[output]
    &&& task->placement == common.subsurface_rects@[output]
}

/// The task at `i` opens the menu of an output, and the one before gets the surface of the same
/// output.
pub open spec fn menu_follows(tasks: Seq<Task>, i: int, common: Common, output: u64) -> bool {
    &&& i >= 1
    &&& common.surface_ids@.contains_key(output)
    &&& has_menu(common, output)
    &&& tasks[i - 1] == surface_task(common, output)
    &&& opens_menu_of(tasks[i], common, output)
}

/// The task at `i` gets the surface of an output, or opens its menu right after that.
pub open spec fn in_place(tasks: Seq<Task>, i: int, common: Common) -> bool {
    if tasks[i] is OpenMenu {
        exists|output: u64| menu_follows(tasks, i, common, output)
    } else {
        &&& tasks[i] is GetLockSurface
        &&& common.surface_ids@.contains_key(tasks[i]->GetLockSurface_output)
        &&& tasks[i] == surface_task(common, tasks[i]->GetLockSurface_output)
    }
}

/// The tasks get the surface of an output, and open its menu if it has one.
pub open spec fn covers(tasks: Seq<Task>, common: Common, output: u64) -> bool {
    &&& tasks.contains(surface_task(common, output))
    &&& has_menu(common, output) ==> exists|i: int|
        0 <= i < tasks.len() && opens_menu_of(#[trigger] tasks[i], common, output)
}

/// The menu at `i` has one of the first `taken` fresh numbers.
pub open spec fn menu_is_fresh(tasks: Seq<Task>, i: int, fresh: Seq<u64>, taken: int) -> bool {
    tasks[i] is OpenMenu ==> exists|n: int|
        0 <= n < taken && tasks[i]->OpenMenu_subsurface == #[trigger] fresh[n]
}

/// Two menus are not the same.
pub open spec fn menus_differ(tasks: Seq<Task>, i: int, j: int) -> bool {
    tasks[i] is OpenMenu && tasks[j] is OpenMenu ==> tasks[i]->OpenMenu_subsurface
        != tasks[j]->OpenMenu_subsurface
}

/// Every output of a list has got its surface and its menu, and no two menus are the same.
pub open spec fn all_covered(
    tasks: Seq<Task>,
    outputs: Seq<u64>,
    common: Common,
    fresh: Seq<u64>,
    taken: int,
) -> bool {
    &&& forall|k: int| 0 <= k < outputs.len() ==> covers(tasks, common, #[trigger] outputs[k])
    &&& forall|i: int| 0 <= i < tasks.len() ==> #[trigger] in_place(tasks, i, common)
    &&& forall|i: int| 0 <= i < tasks.len() ==> #[trigger] menu_is_fresh(tasks, i, fresh, taken)
    &&& forall|i: int, j: int| 0 <= i < j < tasks.len() ==> #[trigger] menus_differ(tasks, i, j)
}

proof fn lemma_in_place_longer(less: Seq<Task>, more: Seq<Task>, i: int, common: Common)
    requires
        0 <= i < less.len() <= more.len(),
        more.take(less.len() as int) == less,
        in_place(less, i, common),
    ensures
        in_place(more, i, common),
{
    assert(more[i] == less[i]);
    if less[i] is OpenMenu {
        let output = choose|output: u64| menu_follows(less, i, common, output);
        assert(more[i - 1] == less[i - 1]);
        assert(menu_follows(more, i, common, output));
    }
}

proof fn lemma_covers_longer(before: Seq<Task>, tasks: Seq<Task>, after: Seq<Task>, common: Common, output: u64)
    requires
        covers(tasks, common, output),
    ensures
        covers(before + tasks + after, common, output),
{
    let all = before + tasks + after;
    let b = before.len() as int;
    let i = choose|i: int| 0 <= i < tasks.len() && tasks[i] == surface_task(common, output);
    assert(all[b + i] == tasks[i]);
    if has_menu(common, output) {
        let j = choose|j: int|
            0 <= j < tasks.len() && opens_menu_of(#[trigger] tasks[j], common, output);
        assert(all[b + j] == tasks[j]);
    }
}

proof fn lemma_all_covered(
    names: Map<u64, String>,
    outputs: Seq<u64>,
    common: Common,
    fresh: Seq<u64>,
)
    requires
        outputs.no_duplicates(),
        outputs.len() <= fresh.len(),
        fresh.no_duplicates(),
        forall|k: int|
            0 <= k < outputs.len() ==> common.surface_ids@.contains_key(#[trigger] outputs[k]),
    ensures
        ({
            let made = with_lock_surfaces(names, outputs, common, fresh);
            &&& 0 <= made.taken <= outputs.len()
            &&& all_covered(made.tasks, outputs, common, fresh, made.taken)
        }),
    decreases outputs.len(),
{
    if outputs.len() > 0 {
        let less = outputs.drop_last();
        let output = outputs.last();
        assert forall|k: int| 0 <= k < less.len() implies common.surface_ids@.contains_key(
            #[trigger] less[k],
        ) by {
            assert(less[k] == outputs[k]);
        }
        lemma_all_covered(names, less, common, fresh);
        let before = with_lock_surfaces(names, less, common, fresh);
        let made = with_lock_surfaces(names, outputs, common, fresh);
        let n = before.tasks.len() as int;
        assert(common.surface_ids@.contains_key(outputs[outputs.len() - 1]));
        assert(made.tasks.take(n) == before.tasks);
        assert(made.tasks[n] == surface_task(common, output));
        let rest = made.tasks.skip(n);
        assert(made.tasks == Seq::<Task>::empty() + before.tasks + rest);
        assert forall|k: int| 0 <= k < outputs.len() implies covers(
            made.tasks,
            common,
            #[trigger] outputs[k],
        ) by {
            if k < less.len() {
                assert(covers(before.tasks, common, less[k]));
                lemma_covers_longer(Seq::empty(), before.tasks, rest, common, less[k]);
            } else {
                if has_menu(common, output) {
                    assert(opens_menu_of(made.tasks[n + 1], common, output));
                }
            }
        }
        assert forall|i: int| 0 <= i < made.tasks.len() implies #[trigger] in_place(
            made.tasks,
            i,
            common,
        ) by {
            if i < n {
                assert(in_place(before.tasks, i, common));
                lemma_in_place_longer(before.tasks, made.tasks, i, common);
            } else if i > n {
                assert(menu_follows(made.tasks, i, common, output));
            }
        }
        assert forall|i: int| 0 <= i < made.tasks.len() implies #[trigger] menu_is_fresh(
            made.tasks,
            i,
            fresh,
            made.taken,
        ) by {
            if i < n {
                assert(menu_is_fresh(before.tasks, i, fresh, before.taken));
                assert(made.tasks[i] == before.tasks[i]);
            } else if made.tasks[i] is OpenMenu {
                assert(made.tasks[i]->OpenMenu_subsurface == fresh[before.taken]);
            }
        }
        assert forall|i: int, j: int| 0 <= i < j < made.tasks.len() implies #[trigger] menus_differ(
            made.tasks,
            i,
            j,
        ) by {
            if j < n {
                assert(menus_differ(before.tasks, i, j));
                assert(made.tasks[i] == before.tasks[i] && made.tasks[j] == before.tasks[j]);
            } else if made.tasks[i] is OpenMenu && made.tasks[j] is OpenMenu {
                assert(i < n);
                assert(made.tasks[i] == before.tasks[i]);
                assert(menu_is_fresh(before.tasks, i, fresh, before.taken));
                let m = choose|m: int|
                    0 <= m < before.taken && before.tasks[i]->OpenMenu_subsurface
                        == #[trigger] fresh[m];
                assert(made.tasks[j]->OpenMenu_subsurface == fresh[before.taken]);
                assert(fresh[m] != fresh[before.taken]);
            }
        }
    }
}

proof fn lemma_walk_covered(
    names: Map<u64, String>,
    outputs: Seq<u64>,
    common: Common,
    fresh: Seq<u64>,
) -> (taken: int)
    requires
        walks(common.surface_ids@, outputs),
        common.surface_ids@.dom().finite(),
        common.surface_ids@.len() <= fresh.len(),
        fresh.no_duplicates(),
    ensures
        all_covered(
            with_lock_surfaces(names, outputs, common, fresh).tasks,
            outputs,
            common,
            fresh,
            taken,
        ),
{
    lemma_walk_length(common.surface_ids@, outputs);
    assert forall|k: int| 0 <= k < outputs.len() implies common.surface_ids@.contains_key(
        #[trigger] outputs[k],
    ) by {
        assert(outputs.contains(outputs[k]));
    }
    lemma_all_covered(names, outputs, common, fresh);
    with_lock_surfaces(names, outputs, common, fresh).taken
}

/// What has to come first is no surface and no menu.
spec fn is_prelude(first: Seq<Task>) -> bool {
    forall|i: int|
        0 <= i < first.len() ==> !(#[trigger] first[i] is GetLockSurface) && !(first[i] is OpenMenu)
}

/// The tasks cover every output with a surface, and nothing twice.
pub open spec fn nothing_left_out(tasks: Seq<Task>, common: Common) -> bool {
    &&& forall|output: u64| #[trigger]
        common.surface_ids@.contains_key(output) ==> covers(tasks, common, output)
    &&& forall|i: int|
        0 <= i < tasks.len() && (tasks[i] is OpenMenu || tasks[i] is GetLockSurface)
            ==> #[trigger] in_place(tasks, i, common)
    &&& forall|i: int, j: int| 0 <= i < j < tasks.len() ==> #[trigger] menus_differ(tasks, i, j)
}

proof fn lemma_after_prelude(
    first: Seq<Task>,
    made: Seq<Task>,
    outputs: Seq<u64>,
    common: Common,
    fresh: Seq<u64>,
    taken: int,
)
    requires
        walks(common.surface_ids@, outputs),
        all_covered(made, outputs, common, fresh, taken),
        is_prelude(first),
    ensures
        nothing_left_out(first + made, common),
{
    let tasks = first + made;
    let f = first.len() as int;
    assert forall|output: u64| #[trigger] common.surface_ids@.contains_key(output) implies covers(
        tasks,
        common,
        output,
    ) by {
        assert(outputs.contains(output));
        let k = choose|k: int| 0 <= k < outputs.len() && outputs[k] == output;
        assert(covers(made, common, outputs[k]));
        lemma_covers_longer(first, made, Seq::empty(), common, output);
        assert(first + made + Seq::<Task>::empty() == tasks);
    }
    assert forall|i: int|
        0 <= i < tasks.len() && (tasks[i] is OpenMenu || tasks[i] is GetLockSurface) implies
        #[trigger] in_place(tasks, i, common) by {
        if i < f {
            assert(tasks[i] == first[i]);
        } else {
            let j = i - f;
            assert(tasks[i] == made[j]);
            assert(in_place(made, j, common));
            if made[j] is OpenMenu {
                let output = choose|output: u64| menu_follows(made, j, common, output);
                assert(tasks[i - 1] == made[j - 1]);
                assert(menu_follows(tasks, i, common, output));
            }
        }
    }
    assert forall|i: int, j: int| 0 <= i < j < tasks.len() implies #[trigger] menus_differ(
        tasks,
        i,
        j,
    ) by {
        if i < f {
            assert(tasks[i] == first[i]);
        } else {
            assert(tasks[i] == made[i - f] && tasks[j] == made[j - f]);
            assert(menus_differ(made, i - f, j - f));
        }
    }
}

/// When the session becomes locked, no output is left out: every one that has a surface gets its
/// lock surface, and its menu right after that, in its place, if it has a name and a place for one.
/// No two menus are the same.
pub proof fn law_every_output_is_locked(old: App, new: App, fresh: Seq<u64>, tasks: Seq<Task>)
    requires
        new.updated(old, Message::SessionLockEvent(SessionLockEvent::Locked), fresh, tasks),
        old.state != State::Locked,
        old.common.surface_ids@.dom().finite(),
        old.common.surface_ids@.len() <= fresh.len(),
        fresh.no_duplicates(),
    ensures
        nothing_left_out(tasks, old.common),
{
    let made = choose|made: Seq<Task>|
        #![trigger new.common.lock_surfaces_made(old.common, fresh, made)]
        new.common.lock_surfaces_made(old.common, fresh, made) && tasks == lock_tasks(old) + made;
    let outputs = choose|outputs: Seq<u64>| #[trigger]
        walks(old.common.surface_ids@, outputs) && ({
            let done = with_lock_surfaces(old.common.surface_names@, outputs, old.common, fresh);
            &&& new.common.surface_names@ == done.names
            &&& made == done.tasks
        });
    let taken = lemma_walk_covered(old.common.surface_names@, outputs, old.common, fresh);
    lemma_after_prelude(lock_tasks(old), made, outputs, old.common, fresh, taken);
}

}
