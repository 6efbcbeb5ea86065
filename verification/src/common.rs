//! What the greeter and the lock screen have in common.
use crate::battery::{battery_icon, clamped_level, icon_for_battery};
use crate::geometry::{OutputInfo, Placement, Rect};
use crate::keyboard::{
    build_xkb_config, configured, configured_layouts, layout_list, models, variant_list,
    ActiveLayout, KeyboardLayouts, XkbConfig,
};
use crate::rects::{
    arrange_wanted, arranged, copy_rects, menu_surfaces, note_rect, parts_with, same_rects,
    seen_rect, surfaces_with_menu, wanted_rects, Part,
};
use crate::time::{is_time_zone, Time};
use crate::user::{Source, UserData};
use crate::walk::{keys_of, walks};
use std::collections::HashMap;
use vstd::hash_map::StringHashMap;
use vstd::prelude::*;
use vstd::string::*;

verus! {

broadcast use {vstd::string::group_string_axioms, vstd::std_specs::hash::group_hash_axioms};

/// Something that happened to an output.
#[derive(Debug, PartialEq, Eq)]
pub enum OutputEvent {
    Created(Option<OutputInfo>),
    Removed,
    InfoUpdate(OutputInfo),
}

/// Something that happened to the lock of the session.
#[derive(Clone, Copy, Debug, PartialEq, Eq, Structural)]
pub enum SessionLockEvent {
    Focused,
    Locked,
    Unlocked,
    Finished,
}

/// A key that nothing on the screen took.
#[derive(Debug, PartialEq, Eq)]
pub struct Key {
    pub logo: bool,
    pub control: bool,
    pub alt: bool,
    /// The key stands for a character.
    pub character: bool,
    /// What the key types.
    pub text: Option<String>,
}

/// The state of the battery.
#[derive(Clone, Copy, Debug, PartialEq, Eq, Structural)]
pub struct PowerInfo {
    /// How full it is in percent, rounded up.
    pub level: i64,
    pub on_battery: bool,
    pub threshold_enabled: bool,
}

/// What is shown of the battery: its icon, and how full it is.
#[derive(Debug, PartialEq, Eq)]
pub struct PowerIcon {
    pub icon: String,
    pub level: i64,
}

/// A question to the user: what it is, whether the answer is hidden, and the answer so far if one
/// is expected.
#[derive(Debug, PartialEq, Eq)]
pub struct Prompt {
    pub prompt: String,
    pub secret: bool,
    pub value: Option<String>,
}

/// News of where things are on the screen.
#[derive(Debug, PartialEq, Eq)]
pub enum RectangleUpdate {
    Rectangle { surface: u64, tag: u8, rect: Rect },
    Init,
}

/// Something that happened.
#[derive(Debug, PartialEq, Eq)]
pub enum Message {
    CapsLock(bool),
    Focus(u64),
    Key(Key),
    NetworkIcon(Option<String>),
    SubsurfaceOpened(u64),
    OutputEvent(OutputEvent, u64),
    PowerInfo(Option<PowerInfo>),
    Prompt(String, bool, Option<String>),
    SessionLockEvent(SessionLockEvent),
    Tick,
    Tz(String),
    Rectangle(RectangleUpdate),
}

/// Something to do.
#[derive(Debug, PartialEq, Eq)]
pub enum Task {
    /// Tick now and at every full minute.
    Clock,
    /// Watch the time zone of the machine.
    TimeZone,
    /// Put the cursor into a text field.
    FocusInput(String),
    /// Focus a surface in 50 milliseconds.
    FocusSoon(u64),
    /// Hand an event on.
    Output(OutputEvent, u64),
    SessionLock(SessionLockEvent),
    /// Blur what is behind these rectangles of a surface, or nothing.
    Blur(u64, Option<Vec<Rect>>),
    /// Show a wallpaper on a surface, as it is or frosted.
    Backdrop { surface: u64, path: String, sharp: bool },
    /// Write the keyboard settings of the compositor.
    WriteXkbConfig(XkbConfig),
}

/// The state that the greeter and the lock screen have in common. Outputs and surfaces go by
/// numbers.
pub struct Common {
    pub active_layouts: Vec<ActiveLayout>,
    pub active_surface_id_opt: Option<u64>,
    pub on_battery: bool,
    pub battery_percent: i64,
    pub charging_limit: Option<bool>,
    pub caps_lock: bool,
    /// The settings of the compositor can be written.
    pub comp_config_open: bool,
    pub error_opt: Option<String>,
    /// The theme frosts what is behind the interface.
    pub frosted_interface: bool,
    pub layouts_opt: Option<KeyboardLayouts>,
    pub network_icon_opt: Option<String>,
    /// Events of outputs are handed on.
    pub on_output_event: bool,
    /// Events of the lock are handed on.
    pub on_session_lock_event: bool,
    pub output_names: HashMap<u64, String>,
    pub power_info_opt: Option<PowerIcon>,
    pub prompt_opt: Option<Prompt>,
    pub rectangle_tracker: bool,
    pub rectangles: Vec<Part>,
    pub include_menu: bool,
    /// What was last blurred on each surface.
    pub last_blur_rects: HashMap<u64, Vec<Rect>>,
    /// Where the menu of each output stands.
    pub subsurface_rects: HashMap<u64, Placement>,
    /// The surface of each output.
    pub surface_ids: HashMap<u64, u64>,
    /// The output of each menu.
    pub subsurface_outputs: HashMap<u64, u64>,
    /// The wallpaper of each surface, by its path.
    pub surface_images: HashMap<u64, String>,
    /// The name of the output of each surface.
    pub surface_names: HashMap<u64, String>,
    /// The text field on each output, by the output's name.
    pub text_input_ids: StringHashMap<String>,
    pub time: Time,
    pub window_size: HashMap<u64, (u32, u32)>,
    /// Wallpapers are shown as they are. Otherwise they are frosted.
    pub use_sharp_wallpaper: bool,
}

// ---------------------------------------------------------------------------
// Text fields
// ---------------------------------------------------------------------------

/// The text field on a surface.
pub open spec fn text_input_of(
    surface_names: Map<u64, String>,
    text_input_ids: Map<Seq<char>, String>,
    surface: u64,
) -> Option<String> {
    if surface_names.contains_key(surface) && text_input_ids.contains_key(
        surface_names[surface]@,
    ) {
        Some(text_input_ids[surface_names[surface]@])
    } else {
        None
    }
}

impl Common {
    /// The text field on a surface.
    pub open spec fn text_input(self, surface: u64) -> Option<String> {
        text_input_of(self.surface_names@, self.text_input_ids@, surface)
    }

    /// The text field on a surface.
    pub fn find_text_input(&self, surface: u64) -> (id: Option<String>)
        ensures
            id == self.text_input(surface),
    {
        match self.surface_names.get(&surface) {
            Some(name) => match self.text_input_ids.get(name.as_str()) {
                Some(id) => Some(id.clone()),
                None => None,
            },
            None => None,
        }
    }
}

/// What to do to put the cursor into a text field, if there is one.
pub open spec fn focus_tasks(id: Option<String>) -> Seq<Task> {
    match id {
        Some(id) => seq![Task::FocusInput(id)],
        None => Seq::empty(),
    }
}

fn focus(id: Option<String>) -> (tasks: Vec<Task>)
    ensures
        tasks@ == focus_tasks(id),
{
    let mut tasks: Vec<Task> = Vec::new();
    if let Some(id) = id {
        tasks.push(Task::FocusInput(id));
    }
    tasks
}

// ---------------------------------------------------------------------------
// Wallpapers
// ---------------------------------------------------------------------------

/// A file is among those that were read.
pub open spec fn was_read(files: Seq<(String, Vec<u8>)>, path: Seq<char>) -> bool {
    exists|i: int| 0 <= i < files.len() && (#[trigger] files[i]).0@ == path
}

/// The first wallpaper file of an output, by its path.
pub open spec fn first_path(wallpapers: Seq<(String, Source)>, output: Seq<char>) -> Option<String>
    decreases wallpapers.len(),
{
    if wallpapers.len() == 0 {
        None
    } else {
        match wallpapers[0].1 {
            Source::Path(path) if wallpapers[0].0@ == output => Some(path),
            _ => first_path(wallpapers.drop_first(), output),
        }
    }
}

/// The wallpaper file to show on an output: its first one, if that was read.
pub open spec fn wallpaper_of(user_data: UserData, output: Seq<char>) -> Option<String> {
    match first_path(user_data.bg_state.wallpapers@, output) {
        Some(path) if was_read(user_data.bg_path_data@, path@) => Some(path),
        _ => None,
    }
}

fn contains_path(files: &Vec<(String, Vec<u8>)>, path: &String) -> (found: bool)
    ensures
        found == was_read(files@, path@),
{
    for i in 0..files.len()
        invariant
            forall|j: int| 0 <= j < i ==> (#[trigger] files@[j]).0@ != path@,
    {
        if files[i].0 == *path {
            return true;
        }
    }
    false
}

/// The wallpaper file to show on an output.
pub fn find_wallpaper(user_data: &UserData, output: &String) -> (path: Option<String>)
    ensures
        path == wallpaper_of(*user_data, output@),
{
    let wallpapers = &user_data.bg_state.wallpapers;
    let mut i: usize = 0;
    proof {
        assert(wallpapers@.skip(0) == wallpapers@);
    }
    while i < wallpapers.len()
        invariant
            i <= wallpapers@.len(),
            wallpapers@ == user_data.bg_state.wallpapers@,
            first_path(wallpapers@, output@) == first_path(wallpapers@.skip(i as int), output@),
        decreases wallpapers@.len() - i,
    {
        proof {
            assert(wallpapers@.skip(i as int).drop_first() == wallpapers@.skip(i as int + 1));
        }
        if wallpapers[i].0 == *output {
            if let Source::Path(path) = &wallpapers[i].1 {
                if contains_path(&user_data.bg_path_data, path) {
                    return Some(path.clone());
                }
                return None;
            }
        }
        i = i + 1;
    }
    None
}

/// The wallpapers on the surfaces, and what was done to show them.
pub struct Backdrops {
    pub images: Map<u64, String>,
    pub tasks: Seq<Task>,
}

/// The wallpapers once the surface of one more output has been seen to: one that has no wallpaper
/// but a name gets the wallpaper of its output, if there is one.
pub open spec fn with_backdrop(
    shown: Backdrops,
    surface: u64,
    surface_names: Map<u64, String>,
    user_data: UserData,
    sharp: bool,
) -> Backdrops {
    if shown.images.contains_key(surface) || !surface_names.contains_key(surface) {
        shown
    } else {
        match wallpaper_of(user_data, surface_names[surface]@) {
            Some(path) => Backdrops {
                images: shown.images.insert(surface, path),
                tasks: shown.tasks.push(Task::Backdrop { surface, path, sharp }),
            },
            None => shown,
        }
    }
}

/// The wallpapers once the surfaces of all outputs have been seen to, one after another.
pub open spec fn with_backdrops(
    images: Map<u64, String>,
    outputs: Seq<u64>,
    surface_ids: Map<u64, u64>,
    surface_names: Map<u64, String>,
    user_data: UserData,
    sharp: bool,
) -> Backdrops
    decreases outputs.len(),
{
    if outputs.len() == 0 {
        Backdrops { images, tasks: Seq::empty() }
    } else {
        with_backdrop(
            with_backdrops(
                images,
                outputs.drop_last(),
                surface_ids,
                surface_names,
                user_data,
                sharp,
            ),
            surface_ids[outputs.last()],
            surface_names,
            user_data,
            sharp,
        )
    }
}

impl Common {
    /// The wallpapers have been brought up to date from `old`, in some order of the outputs.
    pub open spec fn wallpapers_updated(
        self,
        old: Common,
        user_data: UserData,
        tasks: Seq<Task>,
    ) -> bool {
        &&& self == (Common { surface_images: self.surface_images, ..old })
        &&& exists|outputs: Seq<u64>|
            walks(old.surface_ids@, outputs) && (Backdrops {
                images: self.surface_images@,
                tasks,
            }) == #[trigger] with_backdrops(
                old.surface_images@,
                outputs,
                old.surface_ids@,
                old.surface_names@,
                user_data,
                old.use_sharp_wallpaper,
            )
    }

    /// Gives every surface without a wallpaper the one of its output.
    pub fn update_wallpapers(&mut self, user_data: &UserData) -> (tasks: Vec<Task>)
        ensures
            final(self).wallpapers_updated(*old(self), *user_data, tasks@),
    {
        let mut tasks: Vec<Task> = Vec::new();
        let outputs: Vec<u64> = keys_of(&self.surface_ids);
        let ghost before = *self;
        for i in 0..outputs.len()
            invariant
                walks(before.surface_ids@, outputs@),
                *self == (Common { surface_images: self.surface_images, ..before }),
                (Backdrops { images: self.surface_images@, tasks: tasks@ }) == with_backdrops(
                    before.surface_images@,
                    outputs@.take(i as int),
                    before.surface_ids@,
                    before.surface_names@,
                    *user_data,
                    before.use_sharp_wallpaper,
                ),
        {
            proof {
                assert(outputs@.take(i as int + 1).drop_last() == outputs@.take(i as int));
                assert(outputs@.take(i as int + 1).last() == outputs@[i as int]);
                assert(outputs@.contains(outputs@[i as int]));
                assert(self.surface_ids@.contains_key(outputs@[i as int]));
            }
            if let Some(surface) = self.surface_ids.get(&outputs[i]) {
                let surface: u64 = *surface;
                if !self.surface_images.contains_key(&surface) {
                    let path_opt = match self.surface_names.get(&surface) {
                        Some(name) => find_wallpaper(user_data, name),
                        None => None,
                    };
                    if let Some(path) = path_opt {
                        self.surface_images.insert(surface, path.clone());
                        tasks.push(
                            Task::Backdrop { surface, path, sharp: self.use_sharp_wallpaper },
                        );
                    }
                }
            }
        }
        proof {
            assert(outputs@.take(outputs@.len() as int) == outputs@);
            assert(walks(before.surface_ids@, outputs@));
        }
        tasks
    }

    /// The layouts that a user can switch to, from what is known of the user, or the ones from
    /// before if nothing is.
    pub open spec fn layouts_for(self, user_data: UserData) -> Seq<crate::keyboard::LayoutModel> {
        match (self.layouts_opt, user_data.xkb_config_opt) {
            (Some(known), Some(config)) => configured(
                known.layouts@,
                config.layout@,
                config.variant@,
            ),
            _ => models(self.active_layouts@),
        }
    }

    /// A user's wallpapers and layouts have been taken over.
    #[verifier::opaque]
    pub open spec fn user_data_updated(
        self,
        old: Common,
        user_data: UserData,
        tasks: Seq<Task>,
    ) -> bool {
        &&& (Common { active_layouts: old.active_layouts, ..self }).wallpapers_updated(
            old,
            user_data,
            tasks,
        )
        &&& models(self.active_layouts@) == old.layouts_for(user_data)
        &&& (old.layouts_opt is None || user_data.xkb_config_opt is None) ==> self.active_layouts
            == old.active_layouts
    }

    /// Takes over a user's wallpapers and keyboard layouts.
    pub fn update_user_data(&mut self, user_data: &UserData) -> (tasks: Vec<Task>)
        ensures
            final(self).user_data_updated(*old(self), *user_data, tasks@),
    {
        let tasks = self.update_wallpapers(user_data);
        let ghost middle = *self;
        let mut active_opt: Option<Vec<ActiveLayout>> = None;
        if let Some(known) = &self.layouts_opt {
            if let Some(config) = &user_data.xkb_config_opt {
                active_opt = Some(configured_layouts(known, config));
            }
        }
        if let Some(active) = active_opt {
            self.active_layouts = active;
        }
        proof {
            reveal(Common::user_data_updated);
            assert((Common { active_layouts: old(self).active_layouts, ..*self }) == middle);
        }
        tasks
    }

    /// The keyboard settings to write for a user: those that are known, with the active layouts.
    #[verifier::opaque]
    pub open spec fn xkb_config_written(self, user_data: UserData, tasks: Seq<Task>) -> bool {
        match user_data.xkb_config_opt {
            Some(config) if self.comp_config_open => {
                &&& tasks.len() == 1
                &&& tasks[0] is WriteXkbConfig
                &&& tasks[0]->WriteXkbConfig_0 == (XkbConfig {
                    layout: tasks[0]->WriteXkbConfig_0.layout,
                    variant: tasks[0]->WriteXkbConfig_0.variant,
                    ..config
                })
                &&& tasks[0]->WriteXkbConfig_0.layout@ == layout_list(models(self.active_layouts@))
                &&& tasks[0]->WriteXkbConfig_0.variant@ == variant_list(
                    models(self.active_layouts@),
                )
            },
            _ => tasks.len() == 0,
        }
    }

    /// Has the compositor use the active layouts.
    pub fn set_xkb_config(&self, user_data: &UserData) -> (tasks: Vec<Task>)
        ensures
            self.xkb_config_written(*user_data, tasks@),
    {
        let mut tasks: Vec<Task> = Vec::new();
        if let Some(config) = &user_data.xkb_config_opt {
            let config = build_xkb_config(&self.active_layouts, config);
            if self.comp_config_open {
                tasks.push(Task::WriteXkbConfig(config));
            }
        }
        proof {
            reveal(Common::xkb_config_written);
        }
        tasks
    }
}

// ---------------------------------------------------------------------------
// Blur
// ---------------------------------------------------------------------------

/// What was last blurred on each surface.
pub open spec fn blur_model(last: Map<u64, Vec<Rect>>) -> Map<u64, Seq<Rect>> {
    last.map_values(|rects: Vec<Rect>| rects@)
}

/// A request to blur these rectangles of a surface; without any the blur is turned off.
pub open spec fn is_blur(task: Task, surface: u64, rects: Seq<Rect>) -> bool {
    match task {
        Task::Blur(on, Some(listed)) => on == surface && listed@ == rects && rects.len() > 0,
        Task::Blur(on, None) => on == surface && rects.len() == 0,
        _ => false,
    }
}

impl Common {
    /// What is to be blurred on a surface, if anything is known of it: nothing, unless the theme
    /// asks for it and wallpapers are sharp.
    pub open spec fn blur_target(self, surface: u64) -> Option<Seq<Rect>> {
        if !self.frosted_interface || !self.use_sharp_wallpaper {
            Some(Seq::empty())
        } else if self.subsurface_outputs@.contains_key(surface)
            && self.subsurface_rects@.contains_key(self.subsurface_outputs@[surface]) {
            Some(
                arranged(
                    wanted_rects(
                        self.rectangles@,
                        surface,
                        self.include_menu,
                        self.subsurface_rects@[self.subsurface_outputs@[surface]],
                    ),
                ),
            )
        } else {
            None
        }
    }

    /// What the compositor has to be told to blur: what is to be blurred, unless it was told so
    /// last.
    pub open spec fn blur_request(self, last: Map<u64, Seq<Rect>>, surface: u64) -> Option<
        Seq<Rect>,
    > {
        match self.blur_target(surface) {
            Some(rects) => if last.contains_key(surface) && last[surface] == rects {
                None
            } else {
                Some(rects)
            },
            None => None,
        }
    }

    /// The blur of a surface has been brought up to date.
    pub open spec fn blur_updated(self, old: Common, surface: u64, tasks: Seq<Task>) -> bool {
        match old.blur_request(blur_model(old.last_blur_rects@), surface) {
            Some(rects) => {
                &&& self == (Common { last_blur_rects: self.last_blur_rects, ..old })
                &&& blur_model(self.last_blur_rects@) == blur_model(old.last_blur_rects@).insert(
                    surface,
                    rects,
                )
                &&& tasks.len() == 1
                &&& is_blur(tasks[0], surface, rects)
            },
            None => self == old && tasks.len() == 0,
        }
    }

    /// Tells the compositor what to blur on a surface, unless it was told so last.
    pub fn blur_rects(&mut self, surface: u64) -> (tasks: Vec<Task>)
        ensures
            final(self).blur_updated(*old(self), surface, tasks@),
    {
        let mut tasks: Vec<Task> = Vec::new();
        let ghost before = *self;
        let mut target: Option<Vec<Rect>> = None;
        if !self.frosted_interface || !self.use_sharp_wallpaper {
            target = Some(Vec::new());
        } else {
            if let Some(output) = self.subsurface_outputs.get(&surface) {
                if let Some(menu) = self.subsurface_rects.get(output) {
                    target = Some(
                        arrange_wanted(&self.rectangles, surface, self.include_menu, menu),
                    );
                }
            }
        }
        if let Some(rects) = target {
            let same = match self.last_blur_rects.get(&surface) {
                Some(last) => same_rects(last, &rects),
                None => false,
            };
            if same {
                return tasks;
            }
            let copy = copy_rects(&rects);
            self.last_blur_rects.insert(surface, copy);
            proof {
                assert(blur_model(self.last_blur_rects@) =~= blur_model(
                    before.last_blur_rects@,
                ).insert(surface, rects@));
            }
            if rects.len() == 0 {
                tasks.push(Task::Blur(surface, None));
            } else {
                tasks.push(Task::Blur(surface, Some(rects)));
            }
        }
        tasks
    }

    /// What was last blurred after bringing the surfaces up to date one after another.
    pub open spec fn blurred_last(self, last: Map<u64, Seq<Rect>>, surfaces: Seq<u64>) -> Map<
        u64,
        Seq<Rect>,
    >
        decreases surfaces.len(),
    {
        if surfaces.len() == 0 {
            last
        } else {
            let before = self.blurred_last(last, surfaces.drop_last());
            match self.blur_request(before, surfaces.last()) {
                Some(rects) => before.insert(surfaces.last(), rects),
                None => before,
            }
        }
    }

    /// What the compositor is told meanwhile.
    pub open spec fn blur_requests(self, last: Map<u64, Seq<Rect>>, surfaces: Seq<u64>) -> Seq<
        (u64, Seq<Rect>),
    >
        decreases surfaces.len(),
    {
        if surfaces.len() == 0 {
            Seq::empty()
        } else {
            let before = self.blur_requests(last, surfaces.drop_last());
            match self.blur_request(
                self.blurred_last(last, surfaces.drop_last()),
                surfaces.last(),
            ) {
                Some(rects) => before.push((surfaces.last(), rects)),
                None => before,
            }
        }
    }

    /// What is behind dropdown menus is blurred now, or is not any more.
    pub open spec fn dropdown_blurred(self, old: Common, enable: bool, tasks: Seq<Task>) -> bool {
        let switched = Common { include_menu: enable, ..old };
        let last = if enable {
            blur_model(old.last_blur_rects@)
        } else {
            Map::empty()
        };
        let surfaces = menu_surfaces(old.rectangles@);
        let requests = switched.blur_requests(last, surfaces);
        &&& self == (Common {
            include_menu: enable,
            last_blur_rects: self.last_blur_rects,
            ..old
        })
        &&& blur_model(self.last_blur_rects@) == switched.blurred_last(last, surfaces)
        &&& tasks.len() == requests.len()
        &&& forall|i: int|
            0 <= i < tasks.len() ==> is_blur(#[trigger] tasks[i], requests[i].0, requests[i].1)
    }

    /// Begins or stops blurring what is behind dropdown menus. When it stops, everything is told
    /// anew.
    pub fn dropdown_blur_rects(&mut self, enable: bool) -> (tasks: Vec<Task>)
        ensures
            final(self).dropdown_blurred(*old(self), enable, tasks@),
    {
        let surfaces = surfaces_with_menu(&self.rectangles);
        let ghost before = *self;
        self.include_menu = enable;
        if !enable {
            self.last_blur_rects.clear();
        }
        let ghost switched = Common { include_menu: enable, ..before };
        let ghost last = blur_model(self.last_blur_rects@);
        proof {
            if !enable {
                assert(last =~= Map::<u64, Seq<Rect>>::empty());
            }
        }
        let mut tasks: Vec<Task> = Vec::new();
        for i in 0..surfaces.len()
            invariant
                surfaces@ == menu_surfaces(before.rectangles@),
                switched == (Common { include_menu: enable, ..before }),
                *self == (Common { last_blur_rects: self.last_blur_rects, ..switched }),
                blur_model(self.last_blur_rects@) == switched.blurred_last(
                    last,
                    surfaces@.take(i as int),
                ),
                tasks@.len() == switched.blur_requests(last, surfaces@.take(i as int)).len(),
                forall|j: int|
                    0 <= j < tasks@.len() ==> is_blur(
                        #[trigger] tasks@[j],
                        switched.blur_requests(last, surfaces@.take(i as int))[j].0,
                        switched.blur_requests(last, surfaces@.take(i as int))[j].1,
                    ),
        {
            let ghost now = *self;
            proof {
                assert(surfaces@.take(i as int + 1).drop_last() == surfaces@.take(i as int));
                assert(surfaces@.take(i as int + 1).last() == surfaces@[i as int]);
                assert(now.blur_target(surfaces@[i as int]) == switched.blur_target(
                    surfaces@[i as int],
                ));
            }
            let mut more = self.blur_rects(surfaces[i]);
            tasks.append(&mut more);
        }
        proof {
            assert(surfaces@.take(surfaces@.len() as int) == surfaces@);
        }
        tasks
    }
}

// ---------------------------------------------------------------------------
// Power
// ---------------------------------------------------------------------------

impl Common {
    fn update_battery(&mut self, level: i64, on_battery: bool)
        ensures
            *final(self) == (Common {
                on_battery,
                battery_percent: clamped_level(level),
                power_info_opt: final(self).power_info_opt,
                ..*old(self)
            }),
            final(self).power_info_opt is Some,
            final(self).power_info_opt->0.icon@ == battery_icon(
                clamped_level(level),
                on_battery,
                old(self).charging_limit == Some(true),
            ),
            final(self).power_info_opt->0.level == clamped_level(level),
    {
        let level: i64 = if level < 0 {
            0
        } else if level > 100 {
            100
        } else {
            level
        };
        let limited = match self.charging_limit {
            Some(limited) => limited,
            None => false,
        };
        self.on_battery = on_battery;
        self.battery_percent = level;
        self.power_info_opt = Some(
            PowerIcon { icon: icon_for_battery(level, on_battery, limited), level },
        );
    }
}

// ---------------------------------------------------------------------------
// Messages
// ---------------------------------------------------------------------------

impl Key {
    /// The key goes into the text field: a character, with no modifiers but shift.
    pub open spec fn types(self) -> bool {
        !self.logo && !self.control && !self.alt && self.character
    }
}

/// A prompt with some text typed behind its answer.
pub open spec fn typed(before: Option<Prompt>, text: Option<Seq<char>>, after: Option<Prompt>) -> bool {
    match (before, text) {
        (Some(Prompt { prompt, secret, value: Some(value) }), Some(text)) => {
            &&& after is Some
            &&& after->0.prompt == prompt
            &&& after->0.secret == secret
            &&& after->0.value is Some
            &&& after->0.value->0@ == value@ + text
        },
        _ => after == before,
    }
}

impl Common {
    /// What a message does to the state, and what is to be done about it.
    pub open spec fn updated(self, old: Common, message: Message, tasks: Seq<Task>) -> bool {
        match message {
            Message::CapsLock(caps_lock) => {
                &&& self == (Common { caps_lock, ..old })
                &&& tasks.len() == 0
            },
            Message::Focus(surface) => {
                &&& self == (Common { active_surface_id_opt: Some(surface), ..old })
                &&& tasks == focus_tasks(old.text_input(surface))
            },
            Message::Key(key) => if key.types() {
                &&& self == (Common { prompt_opt: self.prompt_opt, ..old })
                &&& typed(old.prompt_opt, crate::text::opt_text(key.text), self.prompt_opt)
                &&& tasks == (match old.active_surface_id_opt {
                    Some(surface) => focus_tasks(old.text_input(surface)),
                    None => Seq::empty(),
                })
            } else {
                &&& self == old
                &&& tasks.len() == 0
            },
            Message::NetworkIcon(network_icon_opt) => {
                &&& self == (Common { network_icon_opt, ..old })
                &&& tasks.len() == 0
            },
            Message::OutputEvent(event, output) => {
                &&& self == old
                &&& tasks == (if old.on_output_event {
                    seq![Task::Output(event, output)]
                } else {
                    Seq::empty()
                })
            },
            Message::PowerInfo(Some(info)) => {
                &&& self == (Common {
                    charging_limit: Some(info.threshold_enabled),
                    on_battery: info.on_battery,
                    battery_percent: clamped_level(info.level),
                    power_info_opt: self.power_info_opt,
                    ..old
                })
                &&& self.power_info_opt is Some
                &&& self.power_info_opt->0.icon@ == battery_icon(
                    clamped_level(info.level),
                    info.on_battery,
                    info.threshold_enabled,
                )
                &&& self.power_info_opt->0.level == clamped_level(info.level)
                &&& tasks.len() == 0
            },
            Message::PowerInfo(None) => {
                &&& self == (Common { power_info_opt: None, ..old })
                &&& tasks.len() == 0
            },
            Message::Prompt(prompt, secret, value) => {
                &&& self == (Common { prompt_opt: Some(Prompt { prompt, secret, value }), ..old })
                &&& tasks == (match (old.prompt_opt, old.active_surface_id_opt) {
                    (None, Some(surface)) => seq![Task::FocusSoon(surface)],
                    _ => Seq::empty(),
                })
            },
            Message::SessionLockEvent(event) => {
                &&& self == old
                &&& tasks == (if old.on_session_lock_event {
                    seq![Task::SessionLock(event)]
                } else {
                    Seq::empty()
                })
            },
            Message::Tick => {
                &&& self == (Common { time: self.time, ..old })
                &&& self.time.ticked(old.time)
                &&& tasks.len() == 0
            },
            Message::Tz(zone) => {
                &&& self == (Common { time: self.time, ..old })
                &&& if is_time_zone(zone@) {
                    self.time.ticked(Time { timezone: Some(zone), ..old.time })
                } else {
                    self.time == old.time
                }
                &&& tasks.len() == 0
            },
            Message::SubsurfaceOpened(surface) => self.blur_updated(old, surface, tasks),
            Message::Rectangle(RectangleUpdate::Rectangle { surface, tag, rect }) => {
                let noted = Common { rectangles: self.rectangles, ..old };
                &&& self.rectangles@ == parts_with(old.rectangles@, surface, tag, rect)
                &&& if seen_rect(old.rectangles@, surface, tag) != Some(rect) {
                    self.blur_updated(noted, surface, tasks)
                } else {
                    self == noted && tasks.len() == 0
                }
            },
            Message::Rectangle(RectangleUpdate::Init) => {
                &&& self == (Common { rectangle_tracker: true, ..old })
                &&& tasks.len() == 0
            },
        }
    }

    fn key_pressed(&mut self, key: Key) -> (tasks: Vec<Task>)
        ensures
            final(self).updated(*old(self), Message::Key(key), tasks@),
    {
        if !key.logo && !key.control && !key.alt && key.character {
            if let Some(text) = &key.text {
                if let Some(prompt) = self.prompt_opt.take() {
                    let value = match prompt.value {
                        Some(value) => {
                            let mut value = value;
                            value.append(text.as_str());
                            Some(value)
                        },
                        None => None,
                    };
                    self.prompt_opt = Some(
                        Prompt { prompt: prompt.prompt, secret: prompt.secret, value },
                    );
                }
            }
            if let Some(surface) = self.active_surface_id_opt {
                return focus(self.find_text_input(surface));
            }
        }
        Vec::new()
    }

    fn rectangle_updated(&mut self, update: RectangleUpdate) -> (tasks: Vec<Task>)
        ensures
            final(self).updated(*old(self), Message::Rectangle(update), tasks@),
    {
        match update {
            RectangleUpdate::Rectangle { surface, tag, rect } => {
                if note_rect(&mut self.rectangles, surface, tag, rect) {
                    return self.blur_rects(surface);
                }
            },
            RectangleUpdate::Init => {
                self.rectangle_tracker = true;
            },
        }
        Vec::new()
    }

    /// Handles a message.
    pub fn update(&mut self, message: Message) -> (tasks: Vec<Task>)
        ensures
            final(self).updated(*old(self), message, tasks@),
    {
        let mut tasks: Vec<Task> = Vec::new();
        match message {
            Message::CapsLock(caps_lock) => {
                self.caps_lock = caps_lock;
            },
            Message::Focus(surface) => {
                self.active_surface_id_opt = Some(surface);
                return focus(self.find_text_input(surface));
            },
            Message::Key(key) => {
                return self.key_pressed(key);
            },
            Message::NetworkIcon(network_icon_opt) => {
                self.network_icon_opt = network_icon_opt;
            },
            Message::OutputEvent(event, output) => {
                if self.on_output_event {
                    tasks.push(Task::Output(event, output));
                }
            },
            Message::PowerInfo(power_info_opt) => {
                if let Some(info) = power_info_opt {
                    self.charging_limit = Some(info.threshold_enabled);
                    self.update_battery(info.level, info.on_battery);
                } else {
                    self.power_info_opt = None;
                }
            },
            Message::Prompt(prompt, secret, value) => {
                let prompt_was_none = self.prompt_opt.is_none();
                self.prompt_opt = Some(Prompt { prompt, secret, value });
                if prompt_was_none {
                    if let Some(surface) = self.active_surface_id_opt {
                        tasks.push(Task::FocusSoon(surface));
                    }
                }
            },
            Message::SessionLockEvent(event) => {
                if self.on_session_lock_event {
                    tasks.push(Task::SessionLock(event));
                }
            },
            Message::Tick => {
                self.time.tick();
            },
            Message::Tz(zone) => {
                self.time.set_tz(zone);
            },
            Message::SubsurfaceOpened(surface) => {
                return self.blur_rects(surface);
            },
            Message::Rectangle(update) => {
                return self.rectangle_updated(update);
            },
        }
        tasks
    }

    /// The state at the start, and what has to be started with it.
    pub fn init(
        comp_config_open: bool,
        layouts_opt: Option<KeyboardLayouts>,
        time: Time,
        use_sharp_wallpaper: bool,
    ) -> (started: (Common, Vec<Task>))
        ensures
            started.0.is_new(comp_config_open, layouts_opt, time, use_sharp_wallpaper),
            started.1@ == seq![Task::Clock, Task::TimeZone],
    {
        let common = Common {
            active_layouts: Vec::new(),
            active_surface_id_opt: None,
            on_battery: false,
            battery_percent: 0,
            charging_limit: None,
            caps_lock: false,
            comp_config_open,
            error_opt: None,
            frosted_interface: false,
            layouts_opt,
            network_icon_opt: None,
            on_output_event: false,
            on_session_lock_event: false,
            output_names: HashMap::new(),
            power_info_opt: None,
            prompt_opt: None,
            rectangle_tracker: false,
            rectangles: Vec::new(),
            include_menu: false,
            last_blur_rects: HashMap::new(),
            subsurface_rects: HashMap::new(),
            surface_ids: HashMap::new(),
            subsurface_outputs: HashMap::new(),
            surface_images: HashMap::new(),
            surface_names: HashMap::new(),
            text_input_ids: StringHashMap::new(),
            time,
            window_size: HashMap::new(),
            use_sharp_wallpaper,
        };
        let mut tasks: Vec<Task> = Vec::new();
        tasks.push(Task::Clock);
        tasks.push(Task::TimeZone);
        (common, tasks)
    }

    /// Nothing has happened yet.
    pub open spec fn is_new(
        self,
        comp_config_open: bool,
        layouts_opt: Option<KeyboardLayouts>,
        time: Time,
        use_sharp_wallpaper: bool,
    ) -> bool {
        &&& self.active_layouts@.len() == 0
        &&& self.active_surface_id_opt is None
        &&& !self.on_battery
        &&& self.battery_percent == 0
        &&& self.charging_limit is None
        &&& !self.caps_lock
        &&& self.comp_config_open == comp_config_open
        &&& self.error_opt is None
        &&& !self.frosted_interface
        &&& self.layouts_opt == layouts_opt
        &&& self.network_icon_opt is None
        &&& !self.on_output_event
        &&& !self.on_session_lock_event
        &&& self.output_names@ == Map::<u64, String>::empty()
        &&& self.power_info_opt is None
        &&& self.prompt_opt is None
        &&& !self.rectangle_tracker
        &&& self.rectangles@.len() == 0
        &&& !self.include_menu
        &&& self.last_blur_rects@ == Map::<u64, Vec<Rect>>::empty()
        &&& self.subsurface_rects@ == Map::<u64, Placement>::empty()
        &&& self.surface_ids@ == Map::<u64, u64>::empty()
        &&& self.subsurface_outputs@ == Map::<u64, u64>::empty()
        &&& self.surface_images@ == Map::<u64, String>::empty()
        &&& self.surface_names@ == Map::<u64, String>::empty()
        &&& self.text_input_ids@ == Map::<Seq<char>, String>::empty()
        &&& self.time == time
        &&& self.window_size@ == Map::<u64, (u32, u32)>::empty()
        &&& self.use_sharp_wallpaper == use_sharp_wallpaper
    }
}

// ---------------------------------------------------------------------------
// Laws
// ---------------------------------------------------------------------------

/// The compositor is told what to blur once: as long as nothing changes, it is not told again.
pub proof fn law_blur_is_sent_once(
    before: Common,
    after: Common,
    surface: u64,
    tasks: Seq<Task>,
    again: Common,
    more: Seq<Task>,
)
    requires
        after.blur_updated(before, surface, tasks),
        again.blur_updated(after, surface, more),
    ensures
        again == after,
        more.len() == 0,
{
    assert(after.blur_target(surface) == before.blur_target(surface));
}

/// A surface keeps the wallpaper that it has.
pub proof fn law_wallpapers_stay(
    images: Map<u64, String>,
    outputs: Seq<u64>,
    surface_ids: Map<u64, u64>,
    surface_names: Map<u64, String>,
    user_data: UserData,
    sharp: bool,
    surface: u64,
)
    requires
        images.contains_key(surface),
    ensures
        with_backdrops(
            images,
            outputs,
            surface_ids,
            surface_names,
            user_data,
            sharp,
        ).images.contains_key(surface),
        with_backdrops(
            images,
            outputs,
            surface_ids,
            surface_names,
            user_data,
            sharp,
        ).images[surface] == images[surface],
    decreases outputs.len(),
{
    if outputs.len() > 0 {
        law_wallpapers_stay(
            images,
            outputs.drop_last(),
            surface_ids,
            surface_names,
            user_data,
            sharp,
            surface,
        );
    }
}

/// Which wallpaper a surface gets does not depend on the order of the outputs.
pub proof fn law_wallpapers_do_not_depend_on_order(
    images: Map<u64, String>,
    outputs: Seq<u64>,
    surface_ids: Map<u64, u64>,
    surface_names: Map<u64, String>,
    user_data: UserData,
    sharp: bool,
    surface: u64,
)
    requires
        !images.contains_key(surface),
    ensures
        ({
            let after = with_backdrops(
                images,
                outputs,
                surface_ids,
                surface_names,
                user_data,
                sharp,
            ).images;
            let due = surface_names.contains_key(surface) && wallpaper_of(
                user_data,
                surface_names[surface]@,
            ) is Some && exists|i: int|
                0 <= i < outputs.len() && surface_ids[#[trigger] outputs[i]] == surface;
            &&& after.contains_key(surface) <==> due
            &&& due ==> Some(after[surface]) == wallpaper_of(user_data, surface_names[surface]@)
        }),
    decreases outputs.len(),
{
    if outputs.len() > 0 {
        let front = outputs.drop_last();
        law_wallpapers_do_not_depend_on_order(
            images,
            front,
            surface_ids,
            surface_names,
            user_data,
            sharp,
            surface,
        );
        if exists|i: int| 0 <= i < outputs.len() && surface_ids[#[trigger] outputs[i]] == surface {
            let i = choose|i: int|
                0 <= i < outputs.len() && surface_ids[#[trigger] outputs[i]] == surface;
            if i < front.len() {
                assert(surface_ids[front[i]] == surface);
            }
        }
        if exists|i: int| 0 <= i < front.len() && surface_ids[#[trigger] front[i]] == surface {
            let i = choose|i: int|
                0 <= i < front.len() && surface_ids[#[trigger] front[i]] == surface;
            assert(surface_ids[outputs[i]] == surface);
        }
        assert(outputs[outputs.len() - 1] == outputs.last());
    }
}

}
