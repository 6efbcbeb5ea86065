//! What holds of the state that the greeter and the lock screen have in common.
use crate::battery::{battery_icon, clamped_level};
use crate::common::{
    blur_model, first_path, is_blur, wallpaper_of, was_read, with_backdrops, Backdrops, Common, Key,
    Message, RectangleUpdate, Task,
};
use crate::geometry::Rect;
use crate::keyboard::{configured, layout_list, models, variant_list};
use crate::rects::{entry_index, menu_surfaces, seen_rect, Part};
use crate::time::{is_reading, is_time_zone};
use crate::user::{Source, UserData};
use crate::walk::walks;
use vstd::prelude::*;

verus! {

// ---------------------------------------------------------------------------
// Wallpapers
// ---------------------------------------------------------------------------

/// Background `i` is the first file for an output.
pub open spec fn is_first_file(
    backgrounds: Seq<(String, Source)>,
    i: int,
    output: Seq<char>,
    path: String,
) -> bool {
    &&& 0 <= i < backgrounds.len()
    &&& backgrounds[i].0@ == output
    &&& backgrounds[i].1 == Source::Path(path)
    &&& forall|j: int|
        0 <= j < i ==> !((#[trigger] backgrounds[j]).0@ == output && backgrounds[j].1 is Path)
}

proof fn lemma_first_file(backgrounds: Seq<(String, Source)>, output: Seq<char>)
    ensures
        first_path(backgrounds, output) is Some ==> exists|i: int| #[trigger]
            is_first_file(backgrounds, i, output, first_path(backgrounds, output)->0),
        first_path(backgrounds, output) is None ==> forall|i: int|
            0 <= i < backgrounds.len() ==> !((#[trigger] backgrounds[i]).0@ == output
                && backgrounds[i].1 is Path),
    decreases backgrounds.len(),
{
    if backgrounds.len() > 0 {
        if backgrounds[0].0@ == output && backgrounds[0].1 is Path {
            let path = backgrounds[0].1->Path_0;
            assert(first_path(backgrounds, output) == Some(path));
            assert(is_first_file(backgrounds, 0, output, path));
            let at = 0int;
            assert(is_first_file(backgrounds, at, output, first_path(backgrounds, output)->0));
        } else {
            let rest = backgrounds.drop_first();
            lemma_first_file(rest, output);
            assert(first_path(backgrounds, output) == first_path(rest, output));
            if first_path(rest, output) is Some {
                let path = first_path(rest, output)->0;
                let i = choose|i: int| #[trigger] is_first_file(rest, i, output, path);
                let at = i + 1;
                assert forall|j: int| 0 <= j < at implies !((#[trigger] backgrounds[j]).0@ == output
                    && backgrounds[j].1 is Path) by {
                    if j > 0 {
                        assert(rest[j - 1] == backgrounds[j]);
                    }
                }
                assert(backgrounds[at] == rest[i]);
                assert(is_first_file(backgrounds, at, output, path));
                assert(exists|i: int| #[trigger]
                    is_first_file(backgrounds, i, output, first_path(backgrounds, output)->0));
            } else {
                assert forall|i: int| 0 <= i < backgrounds.len() implies !((
                #[trigger] backgrounds[i]).0@ == output && backgrounds[i].1 is Path) by {
                    if i > 0 {
                        assert(rest[i - 1] == backgrounds[i]);
                    }
                }
            }
        }
    }
}

/// An output shows the first file that its settings name for it, as long as that was read; and no
/// other.
pub proof fn law_outputs_show_their_first_file(user_data: UserData, output: Seq<char>)
    ensures
        wallpaper_of(user_data, output) is Some ==> {
            let path = wallpaper_of(user_data, output)->0;
            &&& exists|i: int| #[trigger]
                is_first_file(user_data.bg_state.wallpapers@, i, output, path)
            &&& exists|k: int|
                0 <= k < user_data.bg_path_data@.len() && (
                #[trigger] user_data.bg_path_data@[k]).0@ == path@
        },
        wallpaper_of(user_data, output) is None ==> forall|i: int, path: String| #[trigger]
            is_first_file(user_data.bg_state.wallpapers@, i, output, path) ==> forall|k: int|
                0 <= k < user_data.bg_path_data@.len() ==> (
                #[trigger] user_data.bg_path_data@[k]).0@ != path@,
{
    let backgrounds = user_data.bg_state.wallpapers@;
    lemma_first_file(backgrounds, output);
    if wallpaper_of(user_data, output) is None {
        assert forall|i: int, path: String| #[trigger] is_first_file(
            backgrounds,
            i,
            output,
            path,
        ) implies forall|k: int|
            0 <= k < user_data.bg_path_data@.len() ==> (#[trigger] user_data.bg_path_data@[k]).0@
                != path@ by {
            assert(backgrounds[i].0@ == output && backgrounds[i].1 is Path);
            let first = first_path(backgrounds, output)->0;
            let at = choose|at: int| #[trigger] is_first_file(backgrounds, at, output, first);
            assert(at == i);
            assert(first == path);
            assert(!was_read(user_data.bg_path_data@, path@));
        }
    }
}

pub(crate) proof fn lemma_all_backdrops(
    images: Map<u64, String>,
    outputs: Seq<u64>,
    surface_ids: Map<u64, u64>,
    surface_names: Map<u64, String>,
    user_data: UserData,
    sharp: bool,
    k: int,
)
    requires
        0 <= k < outputs.len(),
        !images.contains_key(surface_ids[outputs[k]]),
        surface_names.contains_key(surface_ids[outputs[k]]),
        wallpaper_of(user_data, surface_names[surface_ids[outputs[k]]]@) is Some,
    ensures
        ({
            let surface = surface_ids[outputs[k]];
            let path = wallpaper_of(user_data, surface_names[surface]@)->0;
            let shown = with_backdrops(
                images,
                outputs,
                surface_ids,
                surface_names,
                user_data,
                sharp,
            );
            &&& shown.images.contains_key(surface)
            &&& shown.images[surface] == path
            &&& shown.tasks.contains(Task::Backdrop { surface, path, sharp })
        }),
    decreases outputs.len(),
{
    let less = outputs.drop_last();
    let surface = surface_ids[outputs[k]];
    let path = wallpaper_of(user_data, surface_names[surface]@)->0;
    let task = Task::Backdrop { surface, path, sharp };
    let before = with_backdrops(images, less, surface_ids, surface_names, user_data, sharp);
    let after = with_backdrops(images, outputs, surface_ids, surface_names, user_data, sharp);
    crate::common::law_wallpapers_do_not_depend_on_order(
        images,
        outputs,
        surface_ids,
        surface_names,
        user_data,
        sharp,
        surface,
    );
    assert(surface_ids[outputs[k]] == surface);
    if exists|i: int| 0 <= i < less.len() && surface_ids[#[trigger] less[i]] == surface {
        let i = choose|i: int| 0 <= i < less.len() && surface_ids[#[trigger] less[i]] == surface;
        lemma_all_backdrops(images, less, surface_ids, surface_names, user_data, sharp, i);
        let n = choose|n: int| 0 <= n < before.tasks.len() && before.tasks[n] == task;
        assert(after.tasks[n] == task);
    } else {
        assert(k == outputs.len() - 1) by {
            if k < less.len() {
                assert(less[k] == outputs[k]);
            }
        }
        crate::common::law_wallpapers_do_not_depend_on_order(
            images,
            less,
            surface_ids,
            surface_names,
            user_data,
            sharp,
            surface,
        );
        assert(after.tasks == before.tasks.push(task));
        assert(after.tasks[before.tasks.len() as int] == task);
    }
}

/// No surface is left without a wallpaper that has one coming: every one that has none yet gets the
/// wallpaper of its output, as sharp as it should be. Those that have one keep it, and nothing else
/// changes.
pub proof fn law_every_surface_gets_its_wallpaper(
    old: Common,
    new: Common,
    user_data: UserData,
    tasks: Seq<Task>,
    output: u64,
)
    requires
        new.wallpapers_updated(old, user_data, tasks),
        old.surface_ids@.contains_key(output),
    ensures
        ({
            let surface = old.surface_ids@[output];
            let name = old.surface_names@[surface]@;
            let path = wallpaper_of(user_data, name);
            &&& old.surface_images@.contains_key(surface) ==> new.surface_images@.contains_key(
                surface,
            ) && new.surface_images@[surface] == old.surface_images@[surface]
            &&& !old.surface_images@.contains_key(surface) && old.surface_names@.contains_key(surface)
                && path is Some ==> {
                &&& new.surface_images@.contains_key(surface)
                &&& new.surface_images@[surface] == path->0
                &&& tasks.contains(
                    Task::Backdrop { surface, path: path->0, sharp: old.use_sharp_wallpaper },
                )
            }
        }),
        new.prompt_opt == old.prompt_opt,
        new.surface_ids == old.surface_ids,
        new.surface_names == old.surface_names,
{
    let outputs = choose|outputs: Seq<u64>|
        walks(old.surface_ids@, outputs) && (Backdrops { images: new.surface_images@, tasks })
            == #[trigger] with_backdrops(
            old.surface_images@,
            outputs,
            old.surface_ids@,
            old.surface_names@,
            user_data,
            old.use_sharp_wallpaper,
        );
    let surface = old.surface_ids@[output];
    assert(outputs.contains(output));
    let k = choose|k: int| 0 <= k < outputs.len() && outputs[k] == output;
    if old.surface_images@.contains_key(surface) {
        crate::common::law_wallpapers_stay(
            old.surface_images@,
            outputs,
            old.surface_ids@,
            old.surface_names@,
            user_data,
            old.use_sharp_wallpaper,
            surface,
        );
    } else if old.surface_names@.contains_key(surface) && wallpaper_of(
        user_data,
        old.surface_names@[surface]@,
    ) is Some {
        lemma_all_backdrops(
            old.surface_images@,
            outputs,
            old.surface_ids@,
            old.surface_names@,
            user_data,
            old.use_sharp_wallpaper,
            k,
        );
    }
}

// ---------------------------------------------------------------------------
// A user's settings
// ---------------------------------------------------------------------------

/// The layouts of a user are those that their settings name, where these and the layouts of the
/// system are known; otherwise they stay as they are.
pub proof fn law_layouts_follow_the_user(
    old: Common,
    new: Common,
    user_data: UserData,
    tasks: Seq<Task>,
)
    requires
        new.user_data_updated(old, user_data, tasks),
    ensures
        old.layouts_opt is Some && user_data.xkb_config_opt is Some ==> models(new.active_layouts@)
            == configured(
            old.layouts_opt->0.layouts@,
            user_data.xkb_config_opt->0.layout@,
            user_data.xkb_config_opt->0.variant@,
        ),
        old.layouts_opt is None || user_data.xkb_config_opt is None ==> new.active_layouts
            == old.active_layouts,
        new.prompt_opt == old.prompt_opt,
        new.error_opt == old.error_opt,
        new.layouts_opt == old.layouts_opt,
{
    reveal(Common::user_data_updated);
}

/// What is written to the compositor are the settings of the user with the active layouts in their
/// order, and everything else as it was; nothing is written only where there are no such settings or
/// the compositor's cannot be opened.
pub proof fn law_written_settings_are_the_users(common: Common, user_data: UserData, tasks: Seq<Task>)
    requires
        common.xkb_config_written(user_data, tasks),
    ensures
        tasks.len() == 0 <==> user_data.xkb_config_opt is None || !common.comp_config_open,
        tasks.len() <= 1,
        tasks.len() == 1 ==> {
            let before = user_data.xkb_config_opt->0;
            let written = tasks[0]->WriteXkbConfig_0;
            &&& tasks[0] is WriteXkbConfig
            &&& written.layout@ == layout_list(models(common.active_layouts@))
            &&& written.variant@ == variant_list(models(common.active_layouts@))
            &&& written.rules == before.rules
            &&& written.model == before.model
            &&& written.options == before.options
            &&& written.rest == before.rest
        },
{
    reveal(Common::xkb_config_written);
}

// ---------------------------------------------------------------------------
// Messages
// ---------------------------------------------------------------------------

/// News of the machine are shown as they come: caps lock, the network, the battery.
pub proof fn law_news_are_shown(old: Common, new: Common, message: Message, tasks: Seq<Task>)
    requires
        new.updated(old, message, tasks),
    ensures
        message is CapsLock ==> new.caps_lock == message->CapsLock_0,
        message is NetworkIcon ==> new.network_icon_opt == message->NetworkIcon_0,
        message is PowerInfo && message->PowerInfo_0 is None ==> new.power_info_opt is None,
        message is PowerInfo && message->PowerInfo_0 is Some ==> {
            let info = message->PowerInfo_0->0;
            let level = clamped_level(info.level);
            &&& new.power_info_opt is Some
            &&& new.power_info_opt->0.level == level
            &&& new.power_info_opt->0.icon@ == battery_icon(
                level,
                info.on_battery,
                info.threshold_enabled,
            )
            &&& new.on_battery == info.on_battery
            &&& new.battery_percent == level
            &&& new.charging_limit == Some(info.threshold_enabled)
        },
        message is CapsLock || message is NetworkIcon || message is PowerInfo ==> tasks.len() == 0,
{
}

/// What is shown changes by the news that are about it, and by nothing else.
pub proof fn law_nothing_else_is_touched(old: Common, new: Common, message: Message, tasks: Seq<Task>)
    requires
        new.updated(old, message, tasks),
    ensures
        new.caps_lock != old.caps_lock ==> message is CapsLock,
        new.network_icon_opt != old.network_icon_opt ==> message is NetworkIcon,
        new.power_info_opt != old.power_info_opt ==> message is PowerInfo,
        new.prompt_opt != old.prompt_opt ==> message is Prompt || message is Key,
        new.active_surface_id_opt != old.active_surface_id_opt ==> message is Focus,
        new.time != old.time ==> message is Tick || message is Tz,
        new.rectangles@ != old.rectangles@ ==> message is Rectangle,
        new.error_opt == old.error_opt,
        new.active_layouts == old.active_layouts,
        new.layouts_opt == old.layouts_opt,
        new.surface_ids == old.surface_ids,
        new.surface_names == old.surface_names,
        new.surface_images == old.surface_images,
        new.output_names == old.output_names,
        new.text_input_ids == old.text_input_ids,
        new.window_size == old.window_size,
        new.subsurface_rects == old.subsurface_rects,
{
}

/// A prompt is shown as it is asked; and the first one is where the cursor goes, if a surface is
/// active.
pub proof fn law_prompts_are_shown(
    old: Common,
    new: Common,
    prompt: String,
    secret: bool,
    value: Option<String>,
    tasks: Seq<Task>,
)
    requires
        new.updated(old, Message::Prompt(prompt, secret, value), tasks),
    ensures
        new.prompt_opt is Some,
        new.prompt_opt->0.prompt == prompt,
        new.prompt_opt->0.secret == secret,
        new.prompt_opt->0.value == value,
        old.prompt_opt is None && old.active_surface_id_opt is Some ==> tasks == seq![
            Task::FocusSoon(old.active_surface_id_opt->0),
        ],
        old.prompt_opt is Some || old.active_surface_id_opt is None ==> tasks.len() == 0,
{
}

/// What is typed goes behind what was typed before, and nowhere else: a character, without other
/// modifiers than shift, into a prompt that expects an answer.
pub proof fn law_keys_go_into_the_prompt(old: Common, new: Common, key: Key, tasks: Seq<Task>)
    requires
        new.updated(old, Message::Key(key), tasks),
    ensures
        ({
            let plain = key.character && !key.logo && !key.control && !key.alt;
            let open = old.prompt_opt is Some && old.prompt_opt->0.value is Some;
            &&& plain && open && key.text is Some ==> {
                &&& new.prompt_opt is Some
                &&& new.prompt_opt->0.prompt == old.prompt_opt->0.prompt
                &&& new.prompt_opt->0.secret == old.prompt_opt->0.secret
                &&& new.prompt_opt->0.value is Some
                &&& new.prompt_opt->0.value->0@ == old.prompt_opt->0.value->0@ + key.text->0@
            }
            &&& !(plain && open && key.text is Some) ==> new.prompt_opt == old.prompt_opt
            &&& !plain ==> new == old && tasks.len() == 0
        }),
{
}

/// The cursor goes into the text field of the surface that is active: of the one that was focused, or
/// of the one before when something is typed. Where there is no text field it goes nowhere.
pub proof fn law_the_cursor_follows_the_surface(
    old: Common,
    new: Common,
    surface: u64,
    tasks: Seq<Task>,
)
    requires
        new.updated(old, Message::Focus(surface), tasks),
    ensures
        new.active_surface_id_opt == Some(surface),
        ({
            let name = old.surface_names@[surface]@;
            let known = old.surface_names@.contains_key(surface)
                && old.text_input_ids@.contains_key(name);
            &&& known ==> tasks == seq![Task::FocusInput(old.text_input_ids@[name])]
            &&& !known ==> tasks.len() == 0
        }),
{
}

/// Typing brings the cursor into the text field of the active surface.
pub proof fn law_typing_focuses(old: Common, new: Common, key: Key, tasks: Seq<Task>)
    requires
        new.updated(old, Message::Key(key), tasks),
        key.character && !key.logo && !key.control && !key.alt,
    ensures
        ({
            let surface = old.active_surface_id_opt->0;
            let name = old.surface_names@[surface]@;
            let known = old.active_surface_id_opt is Some && old.surface_names@.contains_key(surface)
                && old.text_input_ids@.contains_key(name);
            &&& known ==> tasks == seq![Task::FocusInput(old.text_input_ids@[name])]
            &&& !known ==> tasks.len() == 0
        }),
{
}

/// Events of outputs and of the lock are handed on as they are, once they are asked for.
pub proof fn law_events_are_handed_on(old: Common, new: Common, message: Message, tasks: Seq<Task>)
    requires
        new.updated(old, message, tasks),
    ensures
        message is OutputEvent || message is SessionLockEvent ==> new == old,
        message is OutputEvent && old.on_output_event ==> tasks == seq![
            Task::Output(message->OutputEvent_0, message->OutputEvent_1),
        ],
        message is SessionLockEvent && old.on_session_lock_event ==> tasks == seq![
            Task::SessionLock(message->SessionLockEvent_0),
        ],
        message is OutputEvent && !old.on_output_event ==> tasks.len() == 0,
        message is SessionLockEvent && !old.on_session_lock_event ==> tasks.len() == 0,
{
}

/// The clock is read anew at every tick, and in the time zone of the machine once that is known; a
/// zone that is none is not taken.
pub proof fn law_the_clock_is_read(old: Common, new: Common, message: Message, tasks: Seq<Task>)
    requires
        new.updated(old, message, tasks),
        message is Tick || message is Tz,
    ensures
        tasks.len() == 0,
        new.time.locale == old.time.locale,
        message is Tick ==> new.time.timezone == old.time.timezone,
        message is Tick && old.time.timezone is None ==> is_reading(new.time.now, None),
        message is Tick && old.time.timezone is Some && is_time_zone(old.time.timezone->0@)
            ==> is_reading(new.time.now, Some(old.time.timezone->0@)),
        message is Tz && is_time_zone(message->Tz_0@) ==> new.time.timezone == Some(message->Tz_0)
            && is_reading(new.time.now, Some(message->Tz_0@)),
        message is Tz && !is_time_zone(message->Tz_0@) ==> new.time == old.time,
{
}

/// What is behind the interface is blurred where the theme frosts it and the wallpaper is sharp, and
/// nothing is blurred otherwise.
pub proof fn law_blur_only_behind_a_frosted_interface(common: Common, surface: u64)
    ensures
        !(common.frosted_interface && common.use_sharp_wallpaper) ==> common.blur_target(surface)
            is Some && common.blur_target(surface)->0.len() == 0,
        common.frosted_interface && common.use_sharp_wallpaper ==> {
            let output = common.subsurface_outputs@[surface];
            let placed = common.subsurface_outputs@.contains_key(surface)
                && common.subsurface_rects@.contains_key(output);
            &&& placed <==> common.blur_target(surface) is Some
            &&& placed ==> common.blur_target(surface)->0 == crate::rects::arranged(
                crate::rects::wanted_rects(
                    common.rectangles@,
                    surface,
                    common.include_menu,
                    common.subsurface_rects@[output],
                ),
            )
        },
{
}

/// What the compositor was told last is what is to be blurred, and it is told exactly then when that
/// has changed.
pub proof fn law_the_compositor_knows_the_blur(
    old: Common,
    new: Common,
    surface: u64,
    tasks: Seq<Task>,
)
    requires
        new.blur_updated(old, surface, tasks),
        old.blur_target(surface) is Some,
    ensures
        new.last_blur_rects@.contains_key(surface),
        new.last_blur_rects@[surface]@ == old.blur_target(surface)->0,
        tasks.len() == 0 <==> old.last_blur_rects@.contains_key(surface)
            && old.last_blur_rects@[surface]@ == old.blur_target(surface)->0,
        tasks.len() <= 1,
        tasks.len() == 1 ==> {
            &&& tasks[0] is Blur
            &&& tasks[0]->Blur_0 == surface
            &&& old.blur_target(surface)->0.len() == 0 <==> tasks[0]->Blur_1 is None
            &&& tasks[0]->Blur_1 is Some ==> tasks[0]->Blur_1->0@ == old.blur_target(surface)->0
        },
{
    let last = crate::common::blur_model(old.last_blur_rects@);
    let now = crate::common::blur_model(new.last_blur_rects@);
    assert(now.contains_key(surface));
    assert(last.contains_key(surface) == old.last_blur_rects@.contains_key(surface));
    assert(now[surface] == new.last_blur_rects@[surface]@);
    if last.contains_key(surface) {
        assert(last[surface] == old.last_blur_rects@[surface]@);
    }
}

/// At the start nothing is shown and nothing is known but what was given.
pub proof fn law_the_start_is_blank(
    common: Common,
    comp_config_open: bool,
    layouts_opt: Option<crate::keyboard::KeyboardLayouts>,
    time: crate::time::Time,
    sharp: bool,
)
    requires
        common.is_new(comp_config_open, layouts_opt, time, sharp),
    ensures
        common.prompt_opt is None,
        common.error_opt is None,
        common.power_info_opt is None,
        common.network_icon_opt is None,
        !common.caps_lock,
        !common.include_menu,
        common.active_layouts@.len() == 0,
        common.surface_ids@.dom() == Set::<u64>::empty(),
        common.surface_images@.dom() == Set::<u64>::empty(),
        common.comp_config_open == comp_config_open,
        common.layouts_opt == layouts_opt,
        common.time == time,
        common.use_sharp_wallpaper == sharp,
{
}

// ---------------------------------------------------------------------------
// Rectangles
// ---------------------------------------------------------------------------

/// A rectangle that is told is known from here on, and the others stay as they are known. When it is
/// new, the compositor knows of the blur behind it, if there is one.
pub proof fn law_told_rectangles_are_known(
    old: Common,
    new: Common,
    surface: u64,
    tag: u8,
    rect: Rect,
    tasks: Seq<Task>,
)
    requires
        new.updated(
            old,
            Message::Rectangle(RectangleUpdate::Rectangle { surface, tag, rect }),
            tasks,
        ),
    ensures
        exists|i: int|
            0 <= i < new.rectangles@.len() && #[trigger] new.rectangles@[i] == (Part {
                surface,
                tag,
                rect,
            }),
        forall|i: int|
            0 <= i < old.rectangles@.len() && !((#[trigger] old.rectangles@[i]).surface == surface
                && old.rectangles@[i].tag == tag) ==> new.rectangles@.contains(old.rectangles@[i]),
        forall|i: int|
            0 <= i < new.rectangles@.len() && !((#[trigger] new.rectangles@[i]).surface == surface
                && new.rectangles@[i].tag == tag) ==> old.rectangles@.contains(new.rectangles@[i]),
        (forall|i: int|
            0 <= i < old.rectangles@.len() ==> #[trigger] old.rectangles@[i] != (Part {
                surface,
                tag,
                rect,
            })) && new.blur_target(surface) is Some ==> new.last_blur_rects@.contains_key(surface)
            && new.last_blur_rects@[surface]@ == new.blur_target(surface)->0,
        old.rectangle_tracker == new.rectangle_tracker,
{
    let parts = old.rectangles@;
    let entry = Part { surface, tag, rect };
    let k = entry_index(parts, surface, tag);
    lemma_entry_found(parts, surface, tag);
    if k < parts.len() {
        assert(new.rectangles@ == parts.update(k, entry));
        assert(new.rectangles@[k] == entry);
        assert forall|i: int|
            0 <= i < parts.len() && !((#[trigger] parts[i]).surface == surface && parts[i].tag
                == tag) implies new.rectangles@.contains(parts[i]) by {
            assert(new.rectangles@[i] == parts[i]);
        }
        assert forall|i: int|
            0 <= i < new.rectangles@.len() && !((#[trigger] new.rectangles@[i]).surface == surface
                && new.rectangles@[i].tag == tag) implies parts.contains(new.rectangles@[i]) by {
            assert(new.rectangles@[i] == parts[i]);
        }
    } else {
        assert(new.rectangles@ == parts.push(entry));
        assert(new.rectangles@[parts.len() as int] == entry);
        assert forall|i: int|
            0 <= i < parts.len() && !((#[trigger] parts[i]).surface == surface && parts[i].tag
                == tag) implies new.rectangles@.contains(parts[i]) by {
            assert(new.rectangles@[i] == parts[i]);
        }
        assert forall|i: int|
            0 <= i < new.rectangles@.len() && !((#[trigger] new.rectangles@[i]).surface == surface
                && new.rectangles@[i].tag == tag) implies parts.contains(new.rectangles@[i]) by {
            assert(new.rectangles@[i] == parts[i]);
        }
    }
    if (forall|i: int| 0 <= i < parts.len() ==> #[trigger] parts[i] != entry) && new.blur_target(
        surface,
    ) is Some {
        if seen_rect(parts, surface, tag) == Some(rect) {
            assert(parts[k] == entry);
        }
        let noted = Common { rectangles: new.rectangles, ..old };
        assert(noted.blur_target(surface) == new.blur_target(surface));
        law_the_compositor_knows_the_blur(noted, new, surface, tasks);
    }
}

proof fn lemma_entry_found(parts: Seq<Part>, surface: u64, tag: u8)
    ensures
        ({
            let k = entry_index(parts, surface, tag);
            &&& 0 <= k <= parts.len()
            &&& k < parts.len() ==> parts[k].surface == surface && parts[k].tag == tag
        }),
    decreases parts.len(),
{
    if parts.len() > 0 && !(parts[0].surface == surface && parts[0].tag == tag) {
        lemma_entry_found(parts.drop_first(), surface, tag);
    }
}

proof fn lemma_brought_up_to_date(
    common: Common,
    last: Map<u64, Seq<Rect>>,
    surfaces: Seq<u64>,
    k: int,
)
    requires
        0 <= k < surfaces.len(),
        common.blur_target(surfaces[k]) is Some,
    ensures
        ({
            let surface = surfaces[k];
            let target = common.blur_target(surface)->0;
            let after = common.blurred_last(last, surfaces);
            &&& after.contains_key(surface)
            &&& after[surface] == target
            &&& common.blur_requests(last, surfaces).contains((surface, target)) || (
            last.contains_key(surface) && last[surface] == target)
        }),
    decreases surfaces.len(),
{
    let less = surfaces.drop_last();
    let surface = surfaces[k];
    let target = common.blur_target(surface)->0;
    let before = common.blurred_last(last, less);
    let told = common.blur_requests(last, less);
    let now = common.blur_requests(last, surfaces);
    lemma_untouched(common, last, less, surface);
    if k < less.len() {
        assert(less[k] == surface);
        lemma_brought_up_to_date(common, last, less, k);
        if told.contains((surface, target)) {
            let n = choose|n: int| 0 <= n < told.len() && told[n] == (surface, target);
            assert(now[n] == (surface, target));
        }
    } else {
        assert(surfaces.last() == surface);
        if common.blur_request(before, surface) is Some {
            assert(now[told.len() as int] == (surface, target));
        } else if exists|j: int| 0 <= j < less.len() && less[j] == surface {
            let j = choose|j: int| 0 <= j < less.len() && less[j] == surface;
            lemma_brought_up_to_date(common, last, less, j);
            if told.contains((surface, target)) {
                let n = choose|n: int| 0 <= n < told.len() && told[n] == (surface, target);
                assert(now[n] == (surface, target));
            }
        }
    }
}

proof fn lemma_untouched(common: Common, last: Map<u64, Seq<Rect>>, surfaces: Seq<u64>, surface: u64)
    ensures
        !surfaces.contains(surface) ==> {
            let after = common.blurred_last(last, surfaces);
            &&& after.contains_key(surface) == last.contains_key(surface)
            &&& last.contains_key(surface) ==> after[surface] == last[surface]
        },
    decreases surfaces.len(),
{
    if surfaces.len() > 0 && !surfaces.contains(surface) {
        let less = surfaces.drop_last();
        if less.contains(surface) {
            let j = choose|j: int| 0 <= j < less.len() && less[j] == surface;
            assert(surfaces[j] == surface);
        }
        assert(surfaces[surfaces.len() - 1] != surface);
        lemma_untouched(common, last, less, surface);
    }
}

/// After surfaces have been brought up to date, what the compositor was told last of every one of
/// them is what is to be blurred there; it was told so now, or before. Of other surfaces it was told
/// nothing.
pub proof fn law_every_surface_is_brought_up_to_date(
    common: Common,
    last: Map<u64, Seq<Rect>>,
    surfaces: Seq<u64>,
    surface: u64,
)
    ensures
        surfaces.contains(surface) && common.blur_target(surface) is Some ==> {
            let target = common.blur_target(surface)->0;
            let after = common.blurred_last(last, surfaces);
            &&& after.contains_key(surface)
            &&& after[surface] == target
            &&& common.blur_requests(last, surfaces).contains((surface, target)) || (
            last.contains_key(surface) && last[surface] == target)
        },
        !surfaces.contains(surface) && last.contains_key(surface) ==> common.blurred_last(
            last,
            surfaces,
        ).contains_key(surface) && common.blurred_last(last, surfaces)[surface] == last[surface],
{
    if surfaces.contains(surface) && common.blur_target(surface) is Some {
        let k = choose|k: int| 0 <= k < surfaces.len() && surfaces[k] == surface;
        lemma_brought_up_to_date(common, last, surfaces, k);
    }
    lemma_untouched(common, last, surfaces, surface);
}

/// When what is behind dropdown menus begins to be blurred, or stops, everything that the compositor
/// was told of the surfaces with a menu is right; when it stops, everything is told anew.
pub proof fn law_menus_are_blurred_everywhere(
    old: Common,
    new: Common,
    enable: bool,
    tasks: Seq<Task>,
    surface: u64,
)
    requires
        new.dropdown_blurred(old, enable, tasks),
    ensures
        new.include_menu == enable,
        new.rectangles == old.rectangles,
        menu_surfaces(old.rectangles@).contains(surface) && new.blur_target(surface) is Some ==> {
            &&& new.last_blur_rects@.contains_key(surface)
            &&& new.last_blur_rects@[surface]@ == new.blur_target(surface)->0
            &&& !enable ==> exists|i: int|
                0 <= i < tasks.len() && is_blur(
                    #[trigger] tasks[i],
                    surface,
                    new.blur_target(surface)->0,
                )
        },
{
    let switched = Common { include_menu: enable, ..old };
    let last = if enable {
        blur_model(old.last_blur_rects@)
    } else {
        Map::empty()
    };
    let surfaces = menu_surfaces(old.rectangles@);
    let requests = switched.blur_requests(last, surfaces);
    let now = blur_model(new.last_blur_rects@);
    law_every_surface_is_brought_up_to_date(switched, last, surfaces, surface);
    if surfaces.contains(surface) && new.blur_target(surface) is Some {
        let target = new.blur_target(surface)->0;
        assert(switched.blur_target(surface) == new.blur_target(surface));
        assert(now.contains_key(surface));
        assert(now[surface] == new.last_blur_rects@[surface]@);
        if !enable {
            assert(requests.contains((surface, target)));
            let i = choose|i: int| 0 <= i < requests.len() && requests[i] == (surface, target);
            assert(is_blur(tasks[i], requests[i].0, requests[i].1));
        }
    }
}

/// When a user's data is taken over, every surface of an output that shows nothing yet gets the
/// wallpaper that the user has for it; those that show something keep it, and so do names and sizes.
pub proof fn law_a_users_wallpapers_are_shown(
    old: Common,
    new: Common,
    user_data: UserData,
    tasks: Seq<Task>,
    output: u64,
)
    requires
        new.user_data_updated(old, user_data, tasks),
        old.surface_ids@.contains_key(output),
    ensures
        ({
            let surface = old.surface_ids@[output];
            let path = wallpaper_of(user_data, old.surface_names@[surface]@);
            &&& old.surface_images@.contains_key(surface) ==> new.surface_images@.contains_key(
                surface,
            ) && new.surface_images@[surface] == old.surface_images@[surface]
            &&& !old.surface_images@.contains_key(surface) && old.surface_names@.contains_key(surface)
                && path is Some ==> {
                &&& new.surface_images@.contains_key(surface)
                &&& new.surface_images@[surface] == path->0
                &&& tasks.contains(
                    Task::Backdrop { surface, path: path->0, sharp: old.use_sharp_wallpaper },
                )
            }
        }),
        new.surface_ids == old.surface_ids,
        new.surface_names == old.surface_names,
        new.text_input_ids == old.text_input_ids,
        new.window_size == old.window_size,
{
    reveal(Common::user_data_updated);
    let between = Common { active_layouts: old.active_layouts, ..new };
    law_every_surface_gets_its_wallpaper(old, between, user_data, tasks, output);
}

}
