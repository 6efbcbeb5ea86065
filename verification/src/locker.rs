//! The lock screen: when the session is locked, and what happens while it is.
use crate::common;
use crate::common::{Common, OutputEvent, SessionLockEvent};
use crate::daemon::{known_of, user_data_of};
use crate::geometry::{
    changed_placement, menu_placement, output_size, place_changed_menu, place_menu, size_of_output,
    OutputInfo, Placement,
};
use crate::keyboard::{bring_to_front, brought_to_front, KeyboardLayouts};
use crate::text::{concat2, concat3};
use crate::time::Time;
use crate::user::{
    loaded_wallpapers, read_files, same_files, same_wallpapers, BackgroundState, LoadedConfig,
    Passwd, UserData,
};
use crate::walk::{keys_of, lists_values, remove_keys, values_of, walks};
use vstd::prelude::*;
use vstd::string::*;

verus! {

broadcast use {vstd::string::group_string_axioms, vstd::std_specs::hash::group_hash_axioms};

/// What the lock screen is started with.
pub struct Flags {
    pub user_data: UserData,
    /// There is a picture of the user.
    pub user_icon: bool,
    /// The file that says that the session is locked.
    pub lockfile_opt: Option<String>,
    pub fingerprint_enabled: bool,
    /// The login manager says when to lock. Otherwise the session is locked at once, and the lock
    /// screen ends with it.
    pub logind: bool,
}

/// The name of the lockfile of a session.
pub open spec fn lockfile_name(session_id: Seq<char>) -> Seq<char> {
    "cosmic-greeter-"@ + session_id + ".lock"@
}

/// A path with a name appended.
pub open spec fn joined(dir: Seq<char>, name: Seq<char>) -> Seq<char> {
    if dir.len() == 0 || dir.last() == '/' {
        dir + name
    } else {
        dir + "/"@ + name
    }
}

/// The path of the lockfile, if there is a directory for it and the session has an id.
pub fn lockfile_opt(runtime_dir: Option<String>, session_id: Option<String>) -> (path: Option<
    String,
>)
    ensures
        match (runtime_dir, session_id) {
            (Some(dir), Some(id)) => path is Some && path->0@ == joined(
                dir@,
                lockfile_name(id@),
            ),
            _ => path is None,
        },
{
    match (runtime_dir, session_id) {
        (Some(dir), Some(id)) => {
            let name = concat3("cosmic-greeter-", id.as_str(), ".lock");
            let chars = crate::text::chars_of(dir.as_str());
            if chars.len() == 0 || chars[chars.len() - 1] == '/' {
                Some(concat2(dir.as_str(), name.as_str()))
            } else {
                Some(concat3(dir.as_str(), "/", name.as_str()))
            }
        },
        _ => None,
    }
}

impl Flags {
    /// Prepares the start of the lock screen for the user who runs it, from what was read of their
    /// settings. The picture is handed back.
    pub fn prepare(
        user: Passwd,
        loaded: LoadedConfig,
        lockfile_opt: Option<String>,
        fingerprint_enabled: bool,
        logind: bool,
    ) -> (prepared: (Flags, Option<Vec<u8>>))
        ensures
            prepared.1 == loaded.icon,
            prepared.0.user_icon == loaded.icon is Some,
            prepared.0.user_data.icon_opt is None,
            known_of(
                UserData { icon_opt: loaded.icon, ..prepared.0.user_data },
                user,
                loaded,
            ),
            prepared.0.lockfile_opt == lockfile_opt,
            prepared.0.fingerprint_enabled == fingerprint_enabled,
            prepared.0.logind == logind,
    {
        let mut user_data = user_data_of(user, loaded);
        let icon = user_data.icon_opt.take();
        let flags = Flags {
            user_data,
            user_icon: icon.is_some(),
            lockfile_opt,
            fingerprint_enabled,
            logind,
        };
        (flags, icon)
    }
}

/// A menu that can be open.
#[derive(Clone, Copy, Debug, PartialEq, Eq, Structural)]
pub enum Dropdown {
    Keyboard,
}

/// How far the session is locked.
#[derive(Clone, Copy, Debug, PartialEq, Eq, Structural)]
pub enum State {
    Locking,
    Locked,
    Unlocking,
    Unlocked,
}

/// Something that happened. Channels and inhibitors go by numbers.
#[derive(Debug, PartialEq, Eq)]
pub enum Message {
    /// Nothing but that a second has passed.
    Heartbeat,
    Common(common::Message),
    OutputEvent(OutputEvent, u64),
    SessionLockEvent(SessionLockEvent),
    Channel(u64),
    /// New background settings, with what was read of each file that they name.
    BackgroundState(BackgroundState, Vec<Option<Vec<u8>>>),
    DropdownToggle(Dropdown),
    KeyboardLayout(usize),
    Inhibit(u64),
    Submit(String),
    Surface(u64),
    Suspend,
    TimeAppletConfig(bool),
    Error(String),
    FingerprintInfo(Option<String>),
    Lock,
    Unlock,
}

/// Something to do.
#[derive(Debug, PartialEq, Eq)]
pub enum Task {
    Common(common::Task),
    /// Have the compositor lock the session.
    Lock,
    /// Have the compositor unlock the session.
    Unlock,
    /// Begin to ask for the user's credentials.
    Authenticate { username: String, fingerprint: bool },
    /// Stop asking.
    StopAuthenticating,
    GetLockSurface { surface: u64, output: u64 },
    DestroyLockSurface(u64),
    /// Open the menu of a surface.
    OpenMenu { surface: u64, subsurface: u64, placement: Placement },
    CreateLockfile(String),
    RemoveLockfile(String),
    /// Let go of the inhibitor of sleep.
    ReleaseInhibitor(u64),
    /// Send what was typed through a channel, and hand the channel back.
    SendValue { channel: u64, value: String },
    Surface(u64),
    Suspend,
    Exit,
}

/// The lock screen.
pub struct App {
    pub common: Common,
    pub flags: Flags,
    pub state: State,
    pub dropdown_opt: Option<Dropdown>,
    pub inhibit_opt: Option<u64>,
    pub value_tx_opt: Option<u64>,
    pub authenticating: bool,
    pub fingerprint_info_opt: Option<String>,
}

/// Tasks of the common part.
pub open spec fn common_tasks(tasks: Seq<common::Task>) -> Seq<Task> {
    tasks.map_values(|task: common::Task| Task::Common(task))
}

fn wrap(inner: Vec<common::Task>) -> (tasks: Vec<Task>)
    ensures
        tasks@ == common_tasks(inner@),
{
    let mut inner = inner;
    let ghost all = inner@;
    let mut tasks: Vec<Task> = Vec::new();
    while inner.len() > 0
        invariant
            all.len() == tasks@.len() + inner@.len(),
            inner@ == all.skip(tasks@.len() as int),
            tasks@ == common_tasks(all.take(tasks@.len() as int)),
        decreases inner@.len(),
    {
        let ghost n = tasks@.len() as int;
        let task = inner.remove(0);
        tasks.push(Task::Common(task));
        proof {
            assert(all.take(n + 1) == all.take(n).push(task));
            assert(tasks@ == common_tasks(all.take(n + 1)));
        }
    }
    proof {
        assert(all.take(all.len() as int) == all);
    }
    tasks
}

/// The tasks, if the session is locked.
pub open spec fn stop_tasks(state: State) -> Seq<Task> {
    if state == State::Locked {
        seq![Task::StopAuthenticating]
    } else {
        Seq::empty()
    }
}

/// Destroying each surface.
pub open spec fn destroy_tasks(surfaces: Seq<u64>) -> Seq<Task> {
    surfaces.map_values(|surface: u64| Task::DestroyLockSurface(surface))
}

fn destroy_all(surfaces: &Vec<u64>) -> (tasks: Vec<Task>)
    ensures
        tasks@ == destroy_tasks(surfaces@),
{
    let mut tasks: Vec<Task> = Vec::new();
    for i in 0..surfaces.len()
        invariant
            tasks@ == destroy_tasks(surfaces@.take(i as int)),
    {
        tasks.push(Task::DestroyLockSurface(surfaces[i]));
        proof {
            assert(surfaces@.take(i as int + 1) == surfaces@.take(i as int).push(
                surfaces@[i as int],
            ));
            assert(tasks@ == destroy_tasks(surfaces@.take(i as int + 1)));
        }
    }
    proof {
        assert(surfaces@.take(surfaces@.len() as int) == surfaces@);
    }
    tasks
}

// ---------------------------------------------------------------------------
// Locking
// ---------------------------------------------------------------------------

/// The names of surfaces, what is done for them, and how many fresh numbers were taken.
pub struct LockSurfaces {
    pub names: Map<u64, String>,
    pub tasks: Seq<Task>,
    pub taken: int,
}

/// One more output gets its lock surface, and a menu if it is known where that goes.
pub open spec fn with_lock_surface(
    made: LockSurfaces,
    output: u64,
    common: Common,
    fresh: Seq<u64>,
) -> LockSurfaces {
    let surface = common.surface_ids@[output];
    let tasks = made.tasks.push(Task::GetLockSurface { surface, output });
    if common.subsurface_rects@.contains_key(output) && common.output_names@.contains_key(output) {
        let name = common.output_names@[output];
        let subsurface = fresh[made.taken];
        LockSurfaces {
            names: made.names.insert(surface, name).insert(subsurface, name),
            tasks: tasks.push(
                Task::OpenMenu {
                    surface,
                    subsurface,
                    placement: common.subsurface_rects@[output],
                },
            ),
            taken: made.taken + 1,
        }
    } else {
        LockSurfaces { tasks, ..made }
    }
}

/// All outputs get their lock surfaces, one after another.
pub open spec fn with_lock_surfaces(
    names: Map<u64, String>,
    outputs: Seq<u64>,
    common: Common,
    fresh: Seq<u64>,
) -> LockSurfaces
    decreases outputs.len(),
{
    if outputs.len() == 0 {
        LockSurfaces { names, tasks: Seq::empty(), taken: 0 }
    } else {
        with_lock_surface(
            with_lock_surfaces(names, outputs.drop_last(), common, fresh),
            outputs.last(),
            common,
            fresh,
        )
    }
}

impl Common {
    /// Every output has got its lock surface, in some order.
    pub open spec fn lock_surfaces_made(self, old: Common, fresh: Seq<u64>, tasks: Seq<Task>) -> bool {
        &&& self == (Common { surface_names: self.surface_names, ..old })
        &&& exists|outputs: Seq<u64>| #[trigger]
            walks(old.surface_ids@, outputs) && ({
                let made = with_lock_surfaces(old.surface_names@, outputs, old, fresh);
                &&& self.surface_names@ == made.names
                &&& tasks == made.tasks
            })
    }

    fn make_lock_surfaces(&mut self, fresh: &Vec<u64>) -> (tasks: Vec<Task>)
        requires
            old(self).surface_ids@.len() <= fresh@.len(),
        ensures
            final(self).lock_surfaces_made(*old(self), fresh@, tasks@),
    {
        let ghost before = *self;
        let mut tasks: Vec<Task> = Vec::new();
        let outputs: Vec<u64> = keys_of(&self.surface_ids);
        let mut taken: usize = 0;
        proof {
            lemma_walk_length(self.surface_ids@, outputs@);
        }
        for i in 0..outputs.len()
            invariant
                walks(before.surface_ids@, outputs@),
                outputs@.len() <= fresh@.len(),
                *self == (Common { surface_names: self.surface_names, ..before }),
                taken <= i,
                ({
                    let made = with_lock_surfaces(
                        before.surface_names@,
                        outputs@.take(i as int),
                        before,
                        fresh@,
                    );
                    &&& self.surface_names@ == made.names
                    &&& tasks@ == made.tasks
                    &&& taken == made.taken
                }),
        {
            let output: u64 = outputs[i];
            proof {
                assert(outputs@.take(i as int + 1).drop_last() == outputs@.take(i as int));
                assert(outputs@.take(i as int + 1).last() == output);
                assert(outputs@.contains(output));
                assert(self.surface_ids@.contains_key(output));
            }
            if let Some(surface) = self.surface_ids.get(&output) {
                let surface: u64 = *surface;
                tasks.push(Task::GetLockSurface { surface, output });
                let placement_opt = match self.subsurface_rects.get(&output) {
                    Some(placement) => Some(*placement),
                    None => None,
                };
                let name_opt = match self.output_names.get(&output) {
                    Some(name) => Some(name.clone()),
                    None => None,
                };
                if let (Some(placement), Some(name)) = (placement_opt, name_opt) {
                    let subsurface: u64 = fresh[taken];
                    taken = taken + 1;
                    self.surface_names.insert(surface, name.clone());
                    self.surface_names.insert(subsurface, name);
                    tasks.push(Task::OpenMenu { surface, subsurface, placement });
                }
            }
        }
        proof {
            assert(outputs@.take(outputs@.len() as int) == outputs@);
            assert(walks(before.surface_ids@, outputs@));
        }
        tasks
    }

    /// The surfaces of all outputs have lost their names and sizes.
    pub open spec fn surfaces_forgotten(self, old: Common, surfaces: Seq<u64>) -> bool {
        &&& self == (Common {
            surface_names: self.surface_names,
            window_size: self.window_size,
            ..old
        })
        &&& lists_values(old.surface_ids@, surfaces)
        &&& self.surface_names@ == old.surface_names@.remove_keys(surfaces.to_set())
        &&& self.window_size@ == old.window_size@.remove_keys(surfaces.to_set())
    }

    fn forget_surfaces(&mut self) -> (surfaces: Vec<u64>)
        ensures
            final(self).surfaces_forgotten(*old(self), surfaces@),
    {
        let surfaces = values_of(&self.surface_ids);
        remove_keys(&mut self.surface_names, &surfaces);
        remove_keys(&mut self.window_size, &surfaces);
        surfaces
    }
}

/// What happens first when the session has become locked: sleep is no longer held up, and the user
/// is asked for credentials.
pub open spec fn lock_tasks(old: App) -> Seq<Task> {
    let authenticate = Task::Authenticate {
        username: old.flags.user_data.name,
        fingerprint: old.flags.fingerprint_enabled,
    };
    match old.inhibit_opt {
        Some(inhibitor) => seq![Task::ReleaseInhibitor(inhibitor), authenticate],
        None => seq![authenticate],
    }
}

impl App {
    /// The session has become locked.
    pub open spec fn locked(self, old: App, fresh: Seq<u64>, tasks: Seq<Task>) -> bool {
        if old.state == State::Locked {
            self == old && tasks.len() == 0
        } else {
            &&& self == (App {
                common: self.common,
                state: State::Locked,
                inhibit_opt: None,
                ..old
            })
            &&& exists|made: Seq<Task>|
                #![trigger self.common.lock_surfaces_made(old.common, fresh, made)]
                self.common.lock_surfaces_made(old.common, fresh, made) && tasks == lock_tasks(old)
                    + made
        }
    }

    fn session_locked(&mut self, fresh: &Vec<u64>) -> (tasks: Vec<Task>)
        requires
            old(self).common.surface_ids@.len() <= fresh@.len(),
        ensures
            final(self).locked(*old(self), fresh@, tasks@),
    {
        let mut tasks: Vec<Task> = Vec::new();
        if let State::Locked = self.state {
            return tasks;
        }
        if let Some(inhibitor) = self.inhibit_opt {
            tasks.push(Task::ReleaseInhibitor(inhibitor));
        }
        tasks.push(
            Task::Authenticate {
                username: self.flags.user_data.name.clone(),
                fingerprint: self.flags.fingerprint_enabled,
            },
        );
        proof {
            assert(tasks@ == lock_tasks(*self));
        }
        self.state = State::Locked;
        self.inhibit_opt = None;
        let mut more = self.common.make_lock_surfaces(fresh);
        tasks.append(&mut more);
        tasks
    }

    /// The session has become unlocked.
    pub open spec fn unlocked(self, old: App, tasks: Seq<Task>) -> bool {
        &&& self == (App { common: self.common, state: State::Unlocked, ..old })
        &&& exists|surfaces: Seq<u64>|
            #![trigger self.common.surfaces_forgotten(old.common, surfaces)]
            {
                &&& self.common.surfaces_forgotten(old.common, surfaces)
                &&& tasks == stop_tasks(old.state) + (if old.flags.logind {
                    destroy_tasks(surfaces)
                } else {
                    seq![Task::Exit]
                })
            }
    }

    fn session_unlocked(&mut self) -> (tasks: Vec<Task>)
        ensures
            final(self).unlocked(*old(self), tasks@),
    {
        let mut tasks: Vec<Task> = Vec::new();
        if let State::Locked = self.state {
            tasks.push(Task::StopAuthenticating);
        }
        proof {
            assert(tasks@ == stop_tasks(self.state));
        }
        self.state = State::Unlocked;
        let surfaces = self.common.forget_surfaces();
        if self.flags.logind {
            let mut more = destroy_all(&surfaces);
            tasks.append(&mut more);
        } else {
            tasks.push(Task::Exit);
            proof {
                assert(tasks@ == stop_tasks(old(self).state) + seq![Task::Exit]);
            }
        }
        tasks
    }

    /// Somebody asked to lock the session.
    pub open spec fn lock_requested(self, old: App, tasks: Seq<Task>) -> bool {
        if old.state == State::Unlocked {
            &&& self == (App {
                common: Common { error_opt: None, ..old.common },
                state: State::Locking,
                value_tx_opt: None,
                authenticating: false,
                fingerprint_info_opt: None,
                ..old
            })
            &&& tasks == (match old.flags.lockfile_opt {
                Some(lockfile) => seq![Task::CreateLockfile(lockfile), Task::Lock],
                None => seq![Task::Lock],
            })
        } else {
            self == old && tasks.len() == 0
        }
    }

    fn lock(&mut self) -> (tasks: Vec<Task>)
        ensures
            final(self).lock_requested(*old(self), tasks@),
    {
        let mut tasks: Vec<Task> = Vec::new();
        if let State::Unlocked = self.state {
            self.state = State::Locking;
            self.common.error_opt = None;
            self.value_tx_opt = None;
            self.authenticating = false;
            self.fingerprint_info_opt = None;
            if let Some(lockfile) = &self.flags.lockfile_opt {
                tasks.push(Task::CreateLockfile(lockfile.clone()));
            }
            tasks.push(Task::Lock);
            proof {
                assert(tasks@ == (match old(self).flags.lockfile_opt {
                    Some(lockfile) => seq![Task::CreateLockfile(lockfile), Task::Lock],
                    None => seq![Task::Lock],
                }));
            }
        }
        tasks
    }

    /// The user has shown who they are, or somebody else asked to unlock the session.
    pub open spec fn unlock_requested(self, old: App, tasks: Seq<Task>) -> bool {
        if old.state == State::Locked {
            &&& self == (App {
                common: self.common,
                state: State::Unlocking,
                value_tx_opt: None,
                authenticating: false,
                fingerprint_info_opt: None,
                ..old
            })
            &&& exists|surfaces: Seq<u64>|
                #![trigger destroy_tasks(surfaces)]
                {
                    &&& self.common.surfaces_forgotten(
                        Common { error_opt: None, ..old.common },
                        surfaces,
                    )
                    &&& tasks == unlock_tasks(old.flags.lockfile_opt) + destroy_tasks(surfaces)
                        + seq![Task::Unlock]
                }
        } else {
            self == old && tasks.len() == 0
        }
    }

    fn unlock(&mut self) -> (tasks: Vec<Task>)
        ensures
            final(self).unlock_requested(*old(self), tasks@),
    {
        let mut tasks: Vec<Task> = Vec::new();
        if let State::Locked = self.state {
            tasks.push(Task::StopAuthenticating);
            self.state = State::Unlocking;
            self.common.error_opt = None;
            self.value_tx_opt = None;
            self.authenticating = false;
            self.fingerprint_info_opt = None;
            if let Some(lockfile) = &self.flags.lockfile_opt {
                tasks.push(Task::RemoveLockfile(lockfile.clone()));
            }
            proof {
                assert(tasks@ == unlock_tasks(self.flags.lockfile_opt));
            }
            let surfaces = self.common.forget_surfaces();
            let mut more = destroy_all(&surfaces);
            tasks.append(&mut more);
            tasks.push(Task::Unlock);
            proof {
                assert(tasks@ == unlock_tasks(self.flags.lockfile_opt) + destroy_tasks(surfaces@)
                    + seq![Task::Unlock]);
            }
        }
        tasks
    }
}

/// What happens first when the session is unlocked: nobody is asked any more, and the lockfile
/// goes.
pub open spec fn unlock_tasks(lockfile_opt: Option<String>) -> Seq<Task> {
    match lockfile_opt {
        Some(lockfile) => seq![Task::StopAuthenticating, Task::RemoveLockfile(lockfile)],
        None => seq![Task::StopAuthenticating],
    }
}

pub(crate) proof fn lemma_walk_length(m: Map<u64, u64>, order: Seq<u64>)
    requires
        walks(m, order),
        m.dom().finite(),
    ensures
        order.len() == m.len(),
{
    order.unique_seq_to_set();
    assert(order.to_set() =~= m.dom());
}

// ---------------------------------------------------------------------------
// Outputs
// ---------------------------------------------------------------------------

/// The name of the text field on an output.
pub open spec fn input_name(output: Seq<char>) -> Seq<char> {
    "input-"@ + output
}

/// The name of a new output, if it has told one.
pub open spec fn told_name(info: Option<OutputInfo>) -> Option<String> {
    match info {
        Some(info) => info.name,
        None => None,
    }
}

/// The size of a new output.
pub open spec fn told_size(info: Option<OutputInfo>) -> (u32, u32) {
    match info {
        Some(info) => output_size(info.logical_size),
        None => output_size(None),
    }
}

impl Common {
    /// A new output has a name: its surface and its menu go by it, they have a text field, and the
    /// surface gets its wallpaper.
    pub open spec fn output_named(
        self,
        old: Common,
        name: String,
        output: u64,
        surface: u64,
        subsurface: u64,
        user_data: UserData,
        tasks: Seq<common::Task>,
    ) -> bool {
        let names = old.surface_names@.insert(surface, name).insert(subsurface, name);
        &&& self == (Common {
            output_names: self.output_names,
            surface_names: self.surface_names,
            surface_images: self.surface_images,
            text_input_ids: self.text_input_ids,
            ..old
        })
        &&& self.output_names@ == old.output_names@.insert(output, name)
        &&& self.surface_names@ == names
        &&& self.text_input_ids@.contains_key(name@)
        &&& self.text_input_ids@ == old.text_input_ids@.insert(
            name@,
            self.text_input_ids@[name@],
        )
        &&& self.text_input_ids@[name@]@ == input_name(name@)
        &&& exists|outputs: Seq<u64>|
            walks(old.surface_ids@, outputs) && (common::Backdrops {
                images: self.surface_images@,
                tasks,
            }) == #[trigger] common::with_backdrops(
                old.surface_images@.remove(surface),
                outputs,
                old.surface_ids@,
                names,
                user_data,
                old.use_sharp_wallpaper,
            )
    }

    fn name_output(
        &mut self,
        name: String,
        output: u64,
        surface: u64,
        subsurface: u64,
        user_data: &UserData,
    ) -> (tasks: Vec<common::Task>)
        ensures
            final(self).output_named(
                *old(self),
                name,
                output,
                surface,
                subsurface,
                *user_data,
                tasks@,
            ),
    {
        let ghost before = *self;
        self.output_names.insert(output, name.clone());
        self.surface_names.insert(surface, name.clone());
        self.surface_names.insert(subsurface, name.clone());
        self.surface_images.remove(&surface);
        proof {
            assert(self.surface_images@ =~= before.surface_images@.remove(surface));
        }
        let tasks = self.update_wallpapers(user_data);
        let id = concat2("input-", name.as_str());
        self.text_input_ids.insert(name, id);
        proof {
            assert(self.text_input_ids@ =~= before.text_input_ids@.insert(
                name@,
                self.text_input_ids@[name@],
            ));
        }
        tasks
    }

    /// A new output has a surface of this size, and a menu in its place.
    pub open spec fn output_placed(
        self,
        old: Common,
        info: Option<OutputInfo>,
        output: u64,
        surface: u64,
    ) -> bool {
        &&& self == (Common {
            surface_ids: self.surface_ids,
            window_size: self.window_size,
            subsurface_rects: self.subsurface_rects,
            ..old
        })
        &&& self.surface_ids@ == old.surface_ids@.insert(output, surface)
        &&& self.window_size@ == old.window_size@.insert(surface, told_size(info))
        &&& self.subsurface_rects@ == old.subsurface_rects@.insert(
            output,
            menu_placement(told_size(info)),
        )
    }

    /// An output has appeared that had no surface before.
    pub open spec fn output_added(
        self,
        old: Common,
        info: Option<OutputInfo>,
        output: u64,
        surface: u64,
        subsurface: u64,
        user_data: UserData,
        tasks: Seq<common::Task>,
    ) -> bool {
        exists|placed: Common|
            #![trigger placed.output_placed(old, info, output, surface)]
            {
                &&& placed.output_placed(old, info, output, surface)
                &&& match told_name(info) {
                    Some(name) => self.output_named(
                        placed,
                        name,
                        output,
                        surface,
                        subsurface,
                        user_data,
                        tasks,
                    ),
                    None => self == placed && tasks.len() == 0,
                }
            }
    }

    /// An output has another surface than before.
    pub open spec fn surface_replaced(self, old: Common, output: u64, surface: u64) -> bool {
        &&& self == (Common { surface_ids: self.surface_ids, ..old })
        &&& self.surface_ids@ == old.surface_ids@.insert(output, surface)
    }

    /// Enters a new output. There is nothing else to do if it had a surface before.
    fn add_output(
        &mut self,
        info: Option<OutputInfo>,
        output: u64,
        surface: u64,
        subsurface: u64,
        user_data: &UserData,
    ) -> (placed: Option<(Placement, Vec<common::Task>)>)
        ensures
            match placed {
                Some((placement, tasks)) => {
                    &&& !old(self).surface_ids@.contains_key(output)
                    &&& placement == menu_placement(told_size(info))
                    &&& final(self).output_added(
                        *old(self),
                        info,
                        output,
                        surface,
                        subsurface,
                        *user_data,
                        tasks@,
                    )
                },
                None => {
                    &&& old(self).surface_ids@.contains_key(output)
                    &&& final(self).surface_replaced(*old(self), output, surface)
                },
            },
    {
        let ghost before = *self;
        if self.surface_ids.insert(output, surface).is_some() {
            return None;
        }
        let mut logical_size: Option<(i32, i32)> = None;
        let mut name_opt: Option<String> = None;
        if let Some(info) = info {
            logical_size = info.logical_size;
            name_opt = info.name;
        }
        let size: (u32, u32) = size_of_output(logical_size);
        let placement = place_menu(size);
        self.window_size.insert(surface, size);
        self.subsurface_rects.insert(output, placement);
        proof {
            assert(self.output_placed(before, info, output, surface));
        }
        let mut tasks: Vec<common::Task> = Vec::new();
        if let Some(name) = name_opt {
            tasks = self.name_output(name, output, surface, subsurface, user_data);
        }
        Some((placement, tasks))
    }

    /// An output and its surface are forgotten.
    pub open spec fn output_dropped(self, old: Common, output: u64) -> bool {
        &&& self == (Common {
            surface_ids: self.surface_ids,
            surface_images: self.surface_images,
            surface_names: self.surface_names,
            window_size: self.window_size,
            ..old
        })
        &&& self.surface_ids@ == old.surface_ids@.remove(output)
        &&& if old.surface_ids@.contains_key(output) {
            let surface = old.surface_ids@[output];
            &&& self.surface_images@ == old.surface_images@.remove(surface)
            &&& self.surface_names@ == old.surface_names@.remove(surface)
            &&& self.window_size@ == old.window_size@.remove(surface)
        } else {
            &&& self.surface_images == old.surface_images
            &&& self.surface_names == old.surface_names
            &&& self.window_size == old.window_size
        }
    }

    fn drop_output(&mut self, output: u64) -> (surface: Option<u64>)
        ensures
            final(self).output_dropped(*old(self), output),
            surface == (if old(self).surface_ids@.contains_key(output) {
                Some(old(self).surface_ids@[output])
            } else {
                None
            }),
    {
        let removed: Option<u64> = self.surface_ids.remove(&output);
        if let Some(surface) = removed {
            self.surface_images.remove(&surface);
            self.surface_names.remove(&surface);
            self.window_size.remove(&surface);
        }
        proof {
            assert(self.surface_ids@ =~= old(self).surface_ids@.remove(output));
        }
        removed
    }
}

/// What follows for a new surface: on a locked session it becomes a lock surface, with a menu.
pub open spec fn new_surface_tasks(
    state: State,
    surface: u64,
    output: u64,
    subsurface: u64,
    placement: Placement,
) -> Seq<Task> {
    if state == State::Locked {
        seq![
            Task::GetLockSurface { surface, output },
            Task::OpenMenu { surface, subsurface, placement },
        ]
    } else {
        Seq::empty()
    }
}

impl App {
    /// An output has appeared.
    pub open spec fn output_created(
        self,
        old: App,
        info: Option<OutputInfo>,
        output: u64,
        surface: u64,
        subsurface: u64,
        tasks: Seq<Task>,
    ) -> bool {
        &&& self == (App { common: self.common, ..old })
        &&& if old.common.surface_ids@.contains_key(output) {
            self.common.surface_replaced(old.common, output, surface) && tasks.len() == 0
        } else {
            exists|shown: Seq<common::Task>|
                #![trigger common_tasks(shown)]
                {
                    &&& self.common.output_added(
                        old.common,
                        info,
                        output,
                        surface,
                        subsurface,
                        old.flags.user_data,
                        shown,
                    )
                    &&& tasks == common_tasks(shown) + new_surface_tasks(
                        old.state,
                        surface,
                        output,
                        subsurface,
                        menu_placement(told_size(info)),
                    )
                }
        }
    }

    fn create_output(
        &mut self,
        info: Option<OutputInfo>,
        output: u64,
        surface: u64,
        subsurface: u64,
    ) -> (tasks: Vec<Task>)
        ensures
            final(self).output_created(*old(self), info, output, surface, subsurface, tasks@),
    {
        match self.common.add_output(info, output, surface, subsurface, &self.flags.user_data) {
            Some((placement, inner)) => {
                let ghost shown = inner@;
                let mut tasks = wrap(inner);
                if let State::Locked = self.state {
                    tasks.push(Task::GetLockSurface { surface, output });
                    tasks.push(Task::OpenMenu { surface, subsurface, placement });
                }
                proof {
                    assert(tasks@ == common_tasks(shown) + new_surface_tasks(
                        self.state,
                        surface,
                        output,
                        subsurface,
                        placement,
                    ));
                }
                tasks
            },
            None => Vec::new(),
        }
    }

    /// An output has disappeared, and its surface with it.
    pub open spec fn output_removed(self, old: App, output: u64, tasks: Seq<Task>) -> bool {
        &&& self == (App { common: self.common, ..old })
        &&& self.common.output_dropped(old.common, output)
        &&& tasks == (if old.common.surface_ids@.contains_key(output) && old.state
            == State::Locked {
            seq![Task::DestroyLockSurface(old.common.surface_ids@[output])]
        } else {
            Seq::empty()
        })
    }

    fn remove_output(&mut self, output: u64) -> (tasks: Vec<Task>)
        ensures
            final(self).output_removed(*old(self), output, tasks@),
    {
        let mut tasks: Vec<Task> = Vec::new();
        if let Some(surface) = self.common.drop_output(output) {
            if let State::Locked = self.state {
                tasks.push(Task::DestroyLockSurface(surface));
                proof {
                    assert(tasks@ == seq![Task::DestroyLockSurface(surface)]);
                }
            }
        }
        tasks
    }

    /// An output has changed, and its menu with it.
    pub open spec fn output_changed(
        self,
        old: App,
        info: OutputInfo,
        output: u64,
        tasks: Seq<Task>,
    ) -> bool {
        &&& self == (App {
            common: Common { subsurface_rects: self.common.subsurface_rects, ..old.common },
            ..old
        })
        &&& self.common.subsurface_rects@ == old.common.subsurface_rects@.insert(
            output,
            changed_placement(output_size(info.logical_size)),
        )
        &&& tasks.len() == 0
    }

    fn change_output(&mut self, info: OutputInfo, output: u64) -> (tasks: Vec<Task>)
        ensures
            final(self).output_changed(*old(self), info, output, tasks@),
    {
        let placement = place_changed_menu(size_of_output(info.logical_size));
        self.common.subsurface_rects.insert(output, placement);
        Vec::new()
    }
}

// ---------------------------------------------------------------------------
// Messages
// ---------------------------------------------------------------------------

impl App {
    /// What a message does to the lock screen, and what is to be done about it. `fresh` are
    /// numbers for new surfaces.
    pub open spec fn updated(
        self,
        old: App,
        message: Message,
        fresh: Seq<u64>,
        tasks: Seq<Task>,
    ) -> bool {
        match message {
            Message::Heartbeat => self == old && tasks.len() == 0,
            Message::Common(message) => {
                &&& self == (App { common: self.common, ..old })
                &&& exists|inner: Seq<common::Task>|
                    tasks == #[trigger] common_tasks(inner) && self.common.updated(
                        old.common,
                        message,
                        inner,
                    )
            },
            Message::OutputEvent(OutputEvent::Created(info), output) => self.output_created(
                old,
                info,
                output,
                fresh[0],
                fresh[1],
                tasks,
            ),
            Message::OutputEvent(OutputEvent::Removed, output) => self.output_removed(
                old,
                output,
                tasks,
            ),
            Message::OutputEvent(OutputEvent::InfoUpdate(info), output) => self.output_changed(
                old,
                info,
                output,
                tasks,
            ),
            Message::SessionLockEvent(SessionLockEvent::Locked) => self.locked(old, fresh, tasks),
            Message::SessionLockEvent(SessionLockEvent::Unlocked) => self.unlocked(old, tasks),
            Message::SessionLockEvent(_) => self == old && tasks.len() == 0,
            Message::Channel(channel) => {
                &&& self == (App { value_tx_opt: Some(channel), ..old })
                &&& tasks.len() == 0
            },
            Message::BackgroundState(state, contents) => self.background_changed(
                old,
                state,
                contents@,
                tasks,
            ),
            Message::DropdownToggle(dropdown) => {
                &&& self == (App {
                    dropdown_opt: if old.dropdown_opt == Some(dropdown) {
                        None
                    } else {
                        Some(dropdown)
                    },
                    ..old
                })
                &&& tasks.len() == 0
            },
            Message::KeyboardLayout(i) => self.layout_chosen(old, i, tasks),
            Message::Inhibit(inhibitor) => if old.state == State::Locked {
                &&& self == old
                &&& tasks == seq![Task::ReleaseInhibitor(inhibitor)]
            } else {
                &&& self == (App { inhibit_opt: Some(inhibitor), ..old })
                &&& tasks == (match old.inhibit_opt {
                    Some(inhibitor) => seq![Task::ReleaseInhibitor(inhibitor)],
                    None => Seq::empty(),
                })
            },
            Message::Submit(value) => {
                &&& self == (App {
                    common: Common { error_opt: None, ..old.common },
                    authenticating: true,
                    value_tx_opt: None,
                    ..old
                })
                &&& tasks == (match old.value_tx_opt {
                    Some(channel) => seq![Task::SendValue { channel, value }],
                    None => Seq::empty(),
                })
            },
            Message::Surface(action) => self == old && tasks == seq![Task::Surface(action)],
            Message::Suspend => {
                &&& self == old
                &&& tasks == (if old.flags.logind {
                    seq![Task::Suspend]
                } else {
                    Seq::empty()
                })
            },
            Message::TimeAppletConfig(military_time) => {
                &&& self == (App {
                    flags: Flags {
                        user_data: UserData {
                            clock_military_time_opt: Some(military_time),
                            ..old.flags.user_data
                        },
                        ..old.flags
                    },
                    ..old
                })
                &&& tasks.len() == 0
            },
            Message::Error(error) => {
                &&& self == (App {
                    common: Common { error_opt: Some(error), ..old.common },
                    authenticating: false,
                    ..old
                })
                &&& tasks.len() == 0
            },
            Message::FingerprintInfo(info) => {
                &&& self == (App { fingerprint_info_opt: info, ..old })
                &&& tasks.len() == 0
            },
            Message::Lock => self.lock_requested(old, tasks),
            Message::Unlock => self.unlock_requested(old, tasks),
        }
    }

    /// The background settings have changed: all wallpapers are shown anew.
    pub open spec fn background_changed(
        self,
        old: App,
        state: BackgroundState,
        contents: Seq<Option<Vec<u8>>>,
        tasks: Seq<Task>,
    ) -> bool {
        let user_data = self.flags.user_data;
        &&& self == (App {
            common: self.common,
            flags: Flags {
                user_data: UserData {
                    wallpapers_opt: user_data.wallpapers_opt,
                    bg_state: state,
                    bg_path_data: user_data.bg_path_data,
                    ..old.flags.user_data
                },
                ..old.flags
            },
            ..old
        })
        &&& user_data.wallpapers_opt is Some
        &&& same_wallpapers(
            user_data.wallpapers_opt->0@,
            loaded_wallpapers(state.wallpapers@, contents),
        )
        &&& same_files(user_data.bg_path_data@, read_files(state.wallpapers@, contents))
        &&& exists|cleared: Common, shown: Seq<common::Task>|
            #![trigger self.common.wallpapers_updated(cleared, user_data, shown)]
            {
                &&& cleared == (Common { surface_images: cleared.surface_images, ..old.common })
                &&& cleared.surface_images@ == Map::<u64, String>::empty()
                &&& self.common.wallpapers_updated(cleared, user_data, shown)
                &&& tasks == common_tasks(shown)
            }
    }

    fn change_background(&mut self, state: BackgroundState, contents: Vec<Option<Vec<u8>>>) -> (tasks:
        Vec<Task>)
        ensures
            final(self).background_changed(*old(self), state, contents@, tasks@),
    {
        self.flags.user_data.load_wallpapers_as_user(state, &contents);
        self.common.surface_images.clear();
        let ghost cleared = self.common;
        let inner = self.common.update_wallpapers(&self.flags.user_data);
        proof {
            assert(self.common.wallpapers_updated(cleared, self.flags.user_data, inner@));
        }
        wrap(inner)
    }

    /// A keyboard layout has been chosen from the menu.
    pub open spec fn layout_chosen(self, old: App, i: usize, tasks: Seq<Task>) -> bool {
        &&& self == (App {
            common: Common { active_layouts: self.common.active_layouts, ..old.common },
            dropdown_opt: None,
            ..old
        })
        &&& if i < old.common.active_layouts@.len() {
            &&& self.common.active_layouts@ == brought_to_front(
                old.common.active_layouts@,
                i as int,
            )
            &&& exists|inner: Seq<common::Task>|
                tasks == #[trigger] common_tasks(inner) && self.common.xkb_config_written(
                    old.flags.user_data,
                    inner,
                )
        } else {
            &&& self.common.active_layouts == old.common.active_layouts
            &&& tasks.len() == 0
        }
    }

    fn choose_layout(&mut self, i: usize) -> (tasks: Vec<Task>)
        ensures
            final(self).layout_chosen(*old(self), i, tasks@),
    {
        let mut tasks: Vec<Task> = Vec::new();
        if i < self.common.active_layouts.len() {
            bring_to_front(&mut self.common.active_layouts, i);
            let inner = self.common.set_xkb_config(&self.flags.user_data);
            let ghost all = inner@;
            tasks = wrap(inner);
            proof {
                assert(tasks@ == common_tasks(all));
            }
        }
        match self.dropdown_opt {
            Some(Dropdown::Keyboard) => {
                self.dropdown_opt = None;
            },
            None => {},
        }
        tasks
    }

    fn lock_event(&mut self, event: SessionLockEvent, fresh: &Vec<u64>) -> (tasks: Vec<Task>)
        requires
            old(self).common.surface_ids@.len() <= fresh@.len(),
        ensures
            final(self).updated(*old(self), Message::SessionLockEvent(event), fresh@, tasks@),
    {
        match event {
            SessionLockEvent::Locked => self.session_locked(fresh),
            SessionLockEvent::Unlocked => self.session_unlocked(),
            SessionLockEvent::Focused => Vec::new(),
            SessionLockEvent::Finished => Vec::new(),
        }
    }

    fn output_event(&mut self, event: OutputEvent, output: u64, fresh: &Vec<u64>) -> (tasks: Vec<
        Task,
    >)
        requires
            fresh@.len() >= 2,
        ensures
            final(self).updated(*old(self), Message::OutputEvent(event, output), fresh@, tasks@),
    {
        match event {
            OutputEvent::Created(info) => self.create_output(info, output, fresh[0], fresh[1]),
            OutputEvent::Removed => self.remove_output(output),
            OutputEvent::InfoUpdate(info) => self.change_output(info, output),
        }
    }

    fn common_message(&mut self, message: common::Message) -> (tasks: Vec<Task>)
        ensures
            final(self).updated(
                *old(self),
                Message::Common(message),
                Seq::<u64>::empty(),
                tasks@,
            ),
    {
        let inner = self.common.update(message);
        let ghost all = inner@;
        let tasks = wrap(inner);
        proof {
            assert(tasks@ == common_tasks(all));
        }
        tasks
    }

    fn toggle(&mut self, dropdown: Dropdown) -> (tasks: Vec<Task>)
        ensures
            final(self).updated(
                *old(self),
                Message::DropdownToggle(dropdown),
                Seq::<u64>::empty(),
                tasks@,
            ),
    {
        proof {
            match dropdown {
                Dropdown::Keyboard => {},
            }
            if let Some(shown) = self.dropdown_opt {
                match shown {
                    Dropdown::Keyboard => {},
                }
                assert(shown == dropdown);
                assert(self.dropdown_opt == Some(dropdown));
            }
        }
        self.dropdown_opt = match self.dropdown_opt {
            Some(_) => None,
            None => Some(dropdown),
        };
        Vec::new()
    }

    fn inhibit(&mut self, inhibitor: u64) -> (tasks: Vec<Task>)
        ensures
            final(self).updated(
                *old(self),
                Message::Inhibit(inhibitor),
                Seq::<u64>::empty(),
                tasks@,
            ),
    {
        let mut tasks: Vec<Task> = Vec::new();
        if let State::Locked = self.state {
            tasks.push(Task::ReleaseInhibitor(inhibitor));
            proof {
                assert(tasks@ == seq![Task::ReleaseInhibitor(inhibitor)]);
            }
        } else {
            if let Some(held) = self.inhibit_opt {
                tasks.push(Task::ReleaseInhibitor(held));
                proof {
                    assert(tasks@ == seq![Task::ReleaseInhibitor(held)]);
                }
            }
            self.inhibit_opt = Some(inhibitor);
        }
        tasks
    }

    fn submit(&mut self, value: String) -> (tasks: Vec<Task>)
        ensures
            final(self).updated(*old(self), Message::Submit(value), Seq::<u64>::empty(), tasks@),
    {
        let mut tasks: Vec<Task> = Vec::new();
        self.common.error_opt = None;
        self.authenticating = true;
        if let Some(channel) = self.value_tx_opt {
            self.value_tx_opt = None;
            tasks.push(Task::SendValue { channel, value });
            proof {
                assert(tasks@ == seq![Task::SendValue { channel, value }]);
            }
        }
        tasks
    }

    /// Handles a message. `fresh` are numbers for new surfaces, as many as there are outputs, and
    /// two at least.
    pub fn update(&mut self, message: Message, fresh: &Vec<u64>) -> (tasks: Vec<Task>)
        requires
            fresh@.len() >= 2,
            old(self).common.surface_ids@.len() <= fresh@.len(),
        ensures
            final(self).updated(*old(self), message, fresh@, tasks@),
    {
        let mut tasks: Vec<Task> = Vec::new();
        match message {
            Message::Heartbeat => {},
            Message::Common(message) => {
                return self.common_message(message);
            },
            Message::OutputEvent(event, output) => {
                return self.output_event(event, output, fresh);
            },
            Message::SessionLockEvent(event) => {
                return self.lock_event(event, fresh);
            },
            Message::Channel(channel) => {
                self.value_tx_opt = Some(channel);
            },
            Message::BackgroundState(state, contents) => {
                return self.change_background(state, contents);
            },
            Message::DropdownToggle(dropdown) => {
                return self.toggle(dropdown);
            },
            Message::KeyboardLayout(i) => {
                return self.choose_layout(i);
            },
            Message::Inhibit(inhibitor) => {
                return self.inhibit(inhibitor);
            },
            Message::Submit(value) => {
                return self.submit(value);
            },
            Message::Surface(action) => {
                tasks.push(Task::Surface(action));
                proof {
                    assert(tasks@ == seq![Task::Surface(action)]);
                }
            },
            Message::Suspend => {
                if self.flags.logind {
                    tasks.push(Task::Suspend);
                    proof {
                        assert(tasks@ == seq![Task::Suspend]);
                    }
                }
            },
            Message::TimeAppletConfig(military_time) => {
                self.flags.user_data.clock_military_time_opt = Some(military_time);
            },
            Message::Error(error) => {
                self.common.error_opt = Some(error);
                self.authenticating = false;
            },
            Message::FingerprintInfo(info) => {
                self.fingerprint_info_opt = info;
            },
            Message::Lock => {
                return self.lock();
            },
            Message::Unlock => {
                return self.unlock();
            },
        }
        tasks
    }

    /// Whether the session is to be locked at the start: it was locked before, or it is not the
    /// login manager that says when.
    pub open spec fn locks_at_start(flags: Flags, already_locked: bool) -> bool {
        !flags.logind || already_locked
    }

    /// The lock screen has just been started.
    pub open spec fn is_started(
        self,
        flags: Flags,
        comp_config_open: bool,
        layouts_opt: Option<KeyboardLayouts>,
        time: Time,
        already_locked: bool,
        tasks: Seq<Task>,
    ) -> bool {
        &&& self.flags == flags
        &&& self.state == (if App::locks_at_start(flags, already_locked) {
            State::Locking
        } else {
            State::Unlocked
        })
        &&& self.dropdown_opt is None
        &&& self.inhibit_opt is None
        &&& self.value_tx_opt is None
        &&& !self.authenticating
        &&& self.fingerprint_info_opt is None
        &&& exists|fresh: Common|
            #![trigger fresh.is_new(comp_config_open, layouts_opt, time, true)]
            {
                &&& fresh.is_new(comp_config_open, layouts_opt, time, true)
                &&& self.common == (Common {
                    on_output_event: true,
                    on_session_lock_event: true,
                    active_layouts: self.common.active_layouts,
                    surface_images: self.common.surface_images,
                    ..fresh
                })
                &&& self.common.surface_images@ == Map::<u64, String>::empty()
                &&& crate::keyboard::models(self.common.active_layouts@) == fresh.layouts_for(
                    flags.user_data,
                )
            }
        &&& tasks == (if App::locks_at_start(flags, already_locked) {
            seq![Task::Lock]
        } else {
            Seq::empty()
        }) + common_tasks(seq![common::Task::Clock, common::Task::TimeZone])
    }

    /// The lock screen at the start, with sharp wallpapers. `already_locked` says that the lockfile
    /// is there.
    pub fn init(
        flags: Flags,
        comp_config_open: bool,
        layouts_opt: Option<KeyboardLayouts>,
        time: Time,
        already_locked: bool,
    ) -> (started: (App, Vec<Task>))
        ensures
            started.0.is_started(
                flags,
                comp_config_open,
                layouts_opt,
                time,
                already_locked,
                started.1@,
            ),
    {
        let (mut common, common_started) = Common::init(
            comp_config_open,
            layouts_opt,
            time,
            true,
        );
        let ghost fresh = common;
        common.on_output_event = true;
        common.on_session_lock_event = true;
        let ghost prepared = common;
        let shown = common.update_user_data(&flags.user_data);
        proof {
            reveal(Common::user_data_updated);
            let order = choose|outputs: Seq<u64>|
                walks(prepared.surface_ids@, outputs) && (common::Backdrops {
                    images: common.surface_images@,
                    tasks: shown@,
                }) == #[trigger] common::with_backdrops(
                    prepared.surface_images@,
                    outputs,
                    prepared.surface_ids@,
                    prepared.surface_names@,
                    flags.user_data,
                    prepared.use_sharp_wallpaper,
                );
            if order.len() > 0 {
                assert(order.contains(order[0]));
                assert(prepared.surface_ids@.contains_key(order[0]));
            }
            assert(fresh.is_new(comp_config_open, layouts_opt, time, true));
            assert(prepared.layouts_for(flags.user_data) == fresh.layouts_for(flags.user_data));
        }
        let mut tasks: Vec<Task> = Vec::new();
        let mut state = State::Unlocked;
        if !flags.logind || already_locked {
            state = State::Locking;
            tasks.push(Task::Lock);
        }
        let mut more = wrap(common_started);
        tasks.append(&mut more);
        let app = App {
            common,
            flags,
            state,
            dropdown_opt: None,
            inhibit_opt: None,
            value_tx_opt: None,
            authenticating: false,
            fingerprint_info_opt: None,
        };
        (app, tasks)
    }
}

// ---------------------------------------------------------------------------
// Laws
// ---------------------------------------------------------------------------

/// The task starts or stops asking for credentials, unlocks the session, or touches the lockfile.
pub open spec fn is_sensitive(task: Task) -> bool {
    ||| task is Authenticate
    ||| task is StopAuthenticating
    ||| task is Lock
    ||| task is Unlock
    ||| task is CreateLockfile
    ||| task is RemoveLockfile
}

/// None of the tasks is sensitive.
pub open spec fn harmless(tasks: Seq<Task>) -> bool {
    forall|i: int| 0 <= i < tasks.len() ==> !is_sensitive(#[trigger] tasks[i])
}

proof fn lemma_lock_surfaces_harmless(
    names: Map<u64, String>,
    outputs: Seq<u64>,
    common: Common,
    fresh: Seq<u64>,
)
    ensures
        harmless(with_lock_surfaces(names, outputs, common, fresh).tasks),
    decreases outputs.len(),
{
    if outputs.len() > 0 {
        lemma_lock_surfaces_harmless(names, outputs.drop_last(), common, fresh);
    }
}

/// The sensitive tasks of a step, in order: they follow from how far the session was locked and
/// from the message, whatever else the step does.
pub open spec fn sensitive_tasks(old: App, message: Message) -> Seq<Task> {
    match message {
        Message::Lock if old.state == State::Unlocked => match old.flags.lockfile_opt {
            Some(lockfile) => seq![Task::CreateLockfile(lockfile), Task::Lock],
            None => seq![Task::Lock],
        },
        Message::Unlock if old.state == State::Locked => unlock_tasks(
            old.flags.lockfile_opt,
        ).push(Task::Unlock),
        Message::SessionLockEvent(SessionLockEvent::Locked) if old.state != State::Locked => seq![
            Task::Authenticate {
                username: old.flags.user_data.name,
                fingerprint: old.flags.fingerprint_enabled,
            },
        ],
        Message::SessionLockEvent(SessionLockEvent::Unlocked) => stop_tasks(old.state),
        _ => Seq::empty(),
    }
}

/// How far the session is locked after a message.
pub open spec fn next_state(state: State, message: Message) -> State {
    match message {
        Message::Lock => if state == State::Unlocked {
            State::Locking
        } else {
            state
        },
        Message::Unlock => if state == State::Locked {
            State::Unlocking
        } else {
            state
        },
        Message::SessionLockEvent(SessionLockEvent::Locked) => State::Locked,
        Message::SessionLockEvent(SessionLockEvent::Unlocked) => State::Unlocked,
        _ => state,
    }
}

/// How far the session is locked changes by requests to lock and unlock and by what the compositor
/// reports, and by nothing else. In particular a locked session stays locked until somebody has
/// shown who they are, or the compositor has unlocked it itself.
pub proof fn law_lock_state(
    old: App,
    new: App,
    message: Message,
    fresh: Seq<u64>,
    tasks: Seq<Task>,
)
    requires
        new.updated(old, message, fresh, tasks),
    ensures
        new.state == next_state(old.state, message),
        (old.state == State::Locked && new.state != State::Locked) ==> (message is Unlock
            || message == Message::SessionLockEvent(SessionLockEvent::Unlocked)),
{
    lemma_harmless_parts(old, new, message, fresh, tasks);
}

proof fn lemma_filter_harmless(tasks: Seq<Task>)
    requires
        harmless(tasks),
    ensures
        tasks.filter(|task: Task| is_sensitive(task)) == Seq::<Task>::empty(),
    decreases tasks.len(),
{
    reveal(Seq::filter);
    if tasks.len() > 0 {
        assert forall|i: int| 0 <= i < tasks.drop_last().len() implies !is_sensitive(
            #[trigger] tasks.drop_last()[i],
        ) by {
            assert(tasks.drop_last()[i] == tasks[i]);
        }
        lemma_filter_harmless(tasks.drop_last());
        assert(!is_sensitive(tasks[tasks.len() - 1]));
    }
}

proof fn lemma_filter_sensitive(tasks: Seq<Task>)
    requires
        forall|i: int| 0 <= i < tasks.len() ==> is_sensitive(#[trigger] tasks[i]),
    ensures
        tasks.filter(|task: Task| is_sensitive(task)) == tasks,
    decreases tasks.len(),
{
    reveal(Seq::filter);
    if tasks.len() > 0 {
        assert forall|i: int| 0 <= i < tasks.drop_last().len() implies is_sensitive(
            #[trigger] tasks.drop_last()[i],
        ) by {
            assert(tasks.drop_last()[i] == tasks[i]);
        }
        lemma_filter_sensitive(tasks.drop_last());
        assert(is_sensitive(tasks[tasks.len() - 1]));
        assert(tasks.drop_last().push(tasks.last()) == tasks);
    }
}

proof fn lemma_filter_split(before: Seq<Task>, after: Seq<Task>)
    ensures
        (before + after).filter(|task: Task| is_sensitive(task)) == before.filter(
            |task: Task| is_sensitive(task),
        ) + after.filter(|task: Task| is_sensitive(task)),
{
    Seq::filter_distributes_over_add(before, after, |task: Task| is_sensitive(task));
}

proof fn lemma_lock(old: App, new: App, tasks: Seq<Task>)
    requires
        new.lock_requested(old, tasks),
    ensures
        new.state == next_state(old.state, Message::Lock),
        tasks.filter(|task: Task| is_sensitive(task)) == sensitive_tasks(old, Message::Lock),
{
    if old.state == State::Unlocked {
        lemma_filter_sensitive(tasks);
    } else {
        lemma_filter_harmless(tasks);
    }
}

proof fn lemma_unlock(old: App, new: App, tasks: Seq<Task>)
    requires
        new.unlock_requested(old, tasks),
    ensures
        new.state == next_state(old.state, Message::Unlock),
        tasks.filter(|task: Task| is_sensitive(task)) == sensitive_tasks(old, Message::Unlock),
{
    if old.state == State::Locked {
        let surfaces = choose|surfaces: Seq<u64>|
            #![trigger destroy_tasks(surfaces)]
            {
                &&& new.common.surfaces_forgotten(
                    Common { error_opt: None, ..old.common },
                    surfaces,
                )
                &&& tasks == unlock_tasks(old.flags.lockfile_opt) + destroy_tasks(surfaces) + seq![
                    Task::Unlock,
                ]
            };
        let first = unlock_tasks(old.flags.lockfile_opt);
        let middle = destroy_tasks(surfaces);
        lemma_filter_split(first + middle, seq![Task::Unlock]);
        lemma_filter_split(first, middle);
        lemma_filter_sensitive(first);
        lemma_filter_harmless(middle);
        lemma_filter_sensitive(seq![Task::Unlock]);
        assert(first + Seq::<Task>::empty() + seq![Task::Unlock] == first.push(Task::Unlock));
    } else {
        lemma_filter_harmless(tasks);
    }
}

proof fn lemma_first_tasks(old: App)
    ensures
        lock_tasks(old).filter(|task: Task| is_sensitive(task)) == seq![
            Task::Authenticate {
                username: old.flags.user_data.name,
                fingerprint: old.flags.fingerprint_enabled,
            },
        ],
{
    let authenticate = seq![
        Task::Authenticate {
            username: old.flags.user_data.name,
            fingerprint: old.flags.fingerprint_enabled,
        },
    ];
    lemma_filter_sensitive(authenticate);
    if let Some(inhibitor) = old.inhibit_opt {
        let release = seq![Task::ReleaseInhibitor(inhibitor)];
        lemma_filter_harmless(release);
        lemma_filter_split(release, authenticate);
        assert(release + authenticate == lock_tasks(old));
        assert(Seq::<Task>::empty() + authenticate == authenticate);
    } else {
        assert(lock_tasks(old) == authenticate);
    }
}

proof fn lemma_made_harmless(old: Common, new: Common, fresh: Seq<u64>, made: Seq<Task>)
    requires
        new.lock_surfaces_made(old, fresh, made),
    ensures
        harmless(made),
{
    let outputs = choose|outputs: Seq<u64>| #[trigger]
        walks(old.surface_ids@, outputs) && ({
            let done = with_lock_surfaces(old.surface_names@, outputs, old, fresh);
            &&& new.surface_names@ == done.names
            &&& made == done.tasks
        });
    lemma_lock_surfaces_harmless(old.surface_names@, outputs, old, fresh);
}

proof fn lemma_locked(old: App, new: App, fresh: Seq<u64>, tasks: Seq<Task>)
    requires
        new.locked(old, fresh, tasks),
    ensures
        new.state == next_state(old.state, Message::SessionLockEvent(SessionLockEvent::Locked)),
        tasks.filter(|task: Task| is_sensitive(task)) == sensitive_tasks(
            old,
            Message::SessionLockEvent(SessionLockEvent::Locked),
        ),
{
    if old.state == State::Locked {
        lemma_filter_harmless(tasks);
    } else {
        let made = choose|made: Seq<Task>|
            #![trigger new.common.lock_surfaces_made(old.common, fresh, made)]
            new.common.lock_surfaces_made(old.common, fresh, made) && tasks == lock_tasks(old)
                + made;
        lemma_made_harmless(old.common, new.common, fresh, made);
        lemma_filter_split(lock_tasks(old), made);
        lemma_filter_harmless(made);
        lemma_first_tasks(old);
        let first = lock_tasks(old).filter(|task: Task| is_sensitive(task));
        assert(first + Seq::<Task>::empty() == first);
    }
}

proof fn lemma_unlocked(old: App, new: App, tasks: Seq<Task>)
    requires
        new.unlocked(old, tasks),
    ensures
        new.state == next_state(old.state, Message::SessionLockEvent(SessionLockEvent::Unlocked)),
        tasks.filter(|task: Task| is_sensitive(task)) == sensitive_tasks(
            old,
            Message::SessionLockEvent(SessionLockEvent::Unlocked),
        ),
{
    let surfaces = choose|surfaces: Seq<u64>|
        #![trigger new.common.surfaces_forgotten(old.common, surfaces)]
        {
            &&& new.common.surfaces_forgotten(old.common, surfaces)
            &&& tasks == stop_tasks(old.state) + (if old.flags.logind {
                destroy_tasks(surfaces)
            } else {
                seq![Task::Exit]
            })
        };
    let rest = if old.flags.logind {
        destroy_tasks(surfaces)
    } else {
        seq![Task::Exit]
    };
    lemma_filter_split(stop_tasks(old.state), rest);
    lemma_filter_harmless(rest);
    lemma_filter_sensitive(stop_tasks(old.state));
    assert(stop_tasks(old.state) + Seq::<Task>::empty() == stop_tasks(old.state));
}

proof fn lemma_harmless_parts(
    old: App,
    new: App,
    message: Message,
    fresh: Seq<u64>,
    tasks: Seq<Task>,
)
    requires
        new.updated(old, message, fresh, tasks),
    ensures
        new.state == next_state(old.state, message),
        tasks.filter(|task: Task| is_sensitive(task)) == sensitive_tasks(old, message),
{
    match message {
        Message::Lock => lemma_lock(old, new, tasks),
        Message::Unlock => lemma_unlock(old, new, tasks),
        Message::SessionLockEvent(SessionLockEvent::Locked) => lemma_locked(
            old,
            new,
            fresh,
            tasks,
        ),
        Message::SessionLockEvent(SessionLockEvent::Unlocked) => lemma_unlocked(old, new, tasks),
        _ => {
            lemma_other_messages(old, new, message, fresh, tasks);
            lemma_filter_harmless(tasks);
        },
    }
}

proof fn lemma_other_messages(
    old: App,
    new: App,
    message: Message,
    fresh: Seq<u64>,
    tasks: Seq<Task>,
)
    requires
        new.updated(old, message, fresh, tasks),
        !(message is Lock),
        !(message is Unlock),
        message != Message::SessionLockEvent(SessionLockEvent::Locked),
        message != Message::SessionLockEvent(SessionLockEvent::Unlocked),
    ensures
        new.state == old.state,
        harmless(tasks),
{
}

/// What a step does about the lock follows from how far the session was locked and from the
/// message. So the user is asked for credentials from the moment the session has become locked
/// until it is unlocked; the compositor is told to unlock only when a locked session is to be
/// unlocked; and the lockfile comes with the request to lock and goes with the one to unlock.
pub proof fn law_sensitive_tasks(
    old: App,
    new: App,
    message: Message,
    fresh: Seq<u64>,
    tasks: Seq<Task>,
)
    requires
        new.updated(old, message, fresh, tasks),
    ensures
        tasks.filter(|task: Task| is_sensitive(task)) == sensitive_tasks(old, message),
{
    lemma_harmless_parts(old, new, message, fresh, tasks);
}

/// Asking to lock twice is asking once.
pub proof fn law_lock_is_idempotent(
    old: App,
    once: App,
    first: Seq<Task>,
    twice: App,
    second: Seq<Task>,
)
    requires
        once.lock_requested(old, first),
        twice.lock_requested(once, second),
    ensures
        twice == once,
        second.len() == 0,
{
}

/// Nothing of one attempt to unlock is left for the next: when the session is locked again, there
/// is no error, no channel, no fingerprint status, and nobody is being checked.
pub proof fn law_unlock_leaves_nothing(old: App, new: App, tasks: Seq<Task>)
    requires
        new.unlock_requested(old, tasks),
        old.state == State::Locked,
    ensures
        new.common.error_opt is None,
        new.value_tx_opt is None,
        !new.authenticating,
        new.fingerprint_info_opt is None,
        new.state == State::Unlocking,
{
}

}
