//! The dispatch engine: a state machine that turns an ordered stream of
//! commands into clips to play. The sink itself is driven by the caller,
//! which opens it when asked and reports back whether that worked.
use vstd::prelude::*;
use vstd::arithmetic::div_mod::{lemma_add_mod_noop_right, lemma_mod_self_0, lemma_small_mod};
use crate::keys::{RawKeyEvent, Transition, category_of, clip_slot, classify, slot_of, SLOT_COUNT};
use crate::preset::{Catalog, PresetView, SoundClip};
use crate::device::{DeviceDescriptor, DeviceError, first_equal, folded_names, lower_of, resolve_device};

verus! {

/// Where the engine stands in its life.
#[derive(Clone, Copy, Debug, PartialEq, Eq, Structural)]
pub enum EngineStatus {
    /// No configuration applied yet; no sink is open.
    Idle,
    /// A preset and a device are active and a sink is open.
    Running,
    /// Terminal: the sink is closed and nothing more is played.
    ShuttingDown,
}

/// Why a reconfiguration was refused. None of these stops the engine.
#[derive(Clone, Copy, Debug, PartialEq, Eq, Structural)]
pub enum EngineError {
    /// No preset of the catalog carries the requested name.
    UnknownPreset,
    /// The requested device is not present, or its sink could not be opened.
    DeviceUnavailable,
    /// The platform audio subsystem could not be queried.
    DeviceEnumerationFailed,
}

/// A command that the engine applies on its own, without outside work.
#[derive(Clone, Copy, Debug, PartialEq, Eq, Structural)]
pub enum Command {
    Key(RawKeyEvent),
    SetEnabled(bool),
}

/// A resolved reconfiguration: the preset's position in the catalog and the
/// device to open. The engine takes it on once the sink for it is open.
pub struct ConfigPlan {
    pub preset: usize,
    pub device: DeviceDescriptor,
}

/// The mathematical value of the engine state.
pub struct EngineView {
    pub status: EngineStatus,
    pub preset: int,
    pub device: Seq<char>,
    pub device_is_default: bool,
    pub enabled: bool,
    /// For each clip slot, the position of the clip that the next event of
    /// that slot plays.
    pub cursors: Seq<int>,
}

/// The engine state: active preset and device, the enabled flag, and the
/// round-robin position in each clip set of the active preset.
pub struct Engine {
    status: EngineStatus,
    preset: usize,
    device: DeviceDescriptor,
    enabled: bool,
    cursors: Vec<usize>,
}

impl View for Engine {
    type V = EngineView;

    closed spec fn view(&self) -> EngineView {
        EngineView {
            status: self.status,
            preset: self.preset as int,
            device: self.device.name@,
            device_is_default: self.device.is_default,
            enabled: self.enabled,
            cursors: self.cursors@.map_values(|c: usize| c as int),
        }
    }
}

/// The engine state is consistent with the catalog: one cursor per slot, and
/// while running, a preset of the catalog and cursors inside its clip sets.
pub open spec fn engine_wf(e: EngineView, cat: Seq<PresetView>) -> bool {
    &&& e.cursors.len() == SLOT_COUNT
    &&& forall|s: int| 0 <= s < SLOT_COUNT ==> 0 <= #[trigger] e.cursors[s]
    &&& e.status == EngineStatus::Running ==> {
        &&& 0 <= e.preset < cat.len()
        &&& cat[e.preset].clips.len() == SLOT_COUNT
        &&& forall|s: int|
            0 <= s < SLOT_COUNT ==> #[trigger] e.cursors[s] == 0 || e.cursors[s]
                < cat[e.preset].clips[s].len()
    }
}

/// The clip set that `ev` draws from under the active preset.
pub open spec fn clip_set(e: EngineView, cat: Seq<PresetView>, ev: RawKeyEvent) -> Seq<SoundClip> {
    cat[e.preset].clips[clip_slot(category_of(ev.key_code), ev.transition)]
}

/// What a key event does: while running and enabled, it plays the clip at the
/// cursor of its slot and moves that cursor on by one, round the set; an
/// empty (silent) set plays nothing. Otherwise it is discarded.
pub open spec fn key_step(e: EngineView, cat: Seq<PresetView>, ev: RawKeyEvent) -> (EngineView, Option<SoundClip>) {
    let slot = clip_slot(category_of(ev.key_code), ev.transition);
    let set = clip_set(e, cat, ev);
    if e.status == EngineStatus::Running && e.enabled && set.len() > 0 {
        let k = e.cursors[slot];
        (EngineView { cursors: e.cursors.update(slot, (k + 1) % (set.len() as int)), ..e }, Some(set[k]))
    } else {
        (e, None)
    }
}

/// What one command does.
pub open spec fn command_step(e: EngineView, cat: Seq<PresetView>, c: Command) -> (EngineView, Option<SoundClip>) {
    match c {
        Command::Key(ev) => key_step(e, cat, ev),
        Command::SetEnabled(b) => (EngineView { enabled: b, ..e }, None),
    }
}

/// The state after a sequence of commands, applied in order, and the clips
/// played, in the order they were issued.
pub open spec fn run(e: EngineView, cat: Seq<PresetView>, cmds: Seq<Command>) -> (EngineView, Seq<SoundClip>)
    decreases cmds.len(),
{
    if cmds.len() == 0 {
        (e, Seq::empty())
    } else {
        let (mid, played) = run(e, cat, cmds.drop_last());
        let (last, o) = command_step(mid, cat, cmds.last());
        (last, match o {
            Some(c) => played.push(c),
            None => played,
        })
    }
}

/// The state after a successful reconfiguration: the plan's preset and
/// device, running, every cursor back at the start, the enabled flag kept.
pub open spec fn configured(e: EngineView, preset: int, device: Seq<char>, is_default: bool) -> EngineView {
    EngineView {
        status: EngineStatus::Running,
        preset,
        device,
        device_is_default: is_default,
        enabled: e.enabled,
        cursors: Seq::new(SLOT_COUNT as nat, |s: int| 0int),
    }
}

/// Some preset of the catalog is called `name`.
pub open spec fn preset_known(cat: Seq<PresetView>, name: Seq<char>) -> bool {
    exists|i: int| 0 <= i < cat.len() && #[trigger] cat[i].name == name
}

/// The devices were enumerated and none is called `name`, ignoring case.
pub open spec fn device_absent(devices: Option<Vec<DeviceDescriptor>>, name: Seq<char>) -> bool {
    match devices {
        Some(d) => forall|k: int| 0 <= k < d@.len() ==> #[trigger] lower_of(d@[k].name@) != lower_of(name),
        None => false,
    }
}

/// `found` is the first enumerated device called `name`, ignoring case.
pub open spec fn device_found(devices: Option<Vec<DeviceDescriptor>>, name: Seq<char>, found: DeviceDescriptor) -> bool {
    match devices {
        Some(d) => exists|i: int|
            first_equal(folded_names(d@), lower_of(name), i) && #[trigger] d@[i].name@ == found.name@
                && d@[i].is_default == found.is_default,
        None => false,
    }
}

proof fn lemma_step_wf(e: EngineView, cat: Seq<PresetView>, c: Command)
    requires
        engine_wf(e, cat),
    ensures
        engine_wf(command_step(e, cat, c).0, cat),
{
    if let Command::Key(ev) = c {
        let slot = clip_slot(category_of(ev.key_code), ev.transition);
        let set = clip_set(e, cat, ev);
        if e.status == EngineStatus::Running && e.enabled && set.len() > 0 {
            let k = e.cursors[slot];
            assert(0 <= (k + 1) % (set.len() as int) < set.len());
        }
    }
}

impl Engine {
    /// An engine that has no configuration yet.
    pub fn new(enabled: bool) -> (r: Engine)
        ensures
            r@.status == EngineStatus::Idle,
            r@.enabled == enabled,
            r@.cursors == Seq::new(SLOT_COUNT as nat, |s: int| 0int),
    {
        let mut cursors: Vec<usize> = Vec::new();
        let mut i: usize = 0;
        while i < SLOT_COUNT
            invariant
                i <= SLOT_COUNT,
                cursors@.len() == i,
                forall|s: int| 0 <= s < i ==> #[trigger] cursors@[s] == 0,
            decreases SLOT_COUNT - i,
        {
            cursors.push(0);
            i = i + 1;
        }
        let r = Engine {
            status: EngineStatus::Idle,
            preset: 0,
            device: DeviceDescriptor { name: String::new(), is_default: false },
            enabled,
            cursors,
        };
        assert(r@.cursors =~= Seq::new(SLOT_COUNT as nat, |s: int| 0int));
        r
    }

    /// The engine state is consistent with `cat`.
    pub open spec fn wf(&self, cat: &Catalog) -> bool {
        engine_wf(self@, cat@)
    }

    /// Where the engine stands in its life.
    pub fn status(&self) -> (r: EngineStatus)
        ensures
            r == self@.status,
    {
        self.status
    }

    /// Whether key events are played.
    pub fn enabled(&self) -> (r: bool)
        ensures
            r == self@.enabled,
    {
        self.enabled
    }

    /// Position in the catalog of the active preset.
    pub fn active_preset(&self) -> (r: usize)
        ensures
            r == self@.preset,
    {
        self.preset
    }

    /// The active device.
    pub fn active_device(&self) -> (r: &DeviceDescriptor)
        ensures
            r.name@ == self@.device,
            r.is_default == self@.device_is_default,
    {
        &self.device
    }

    /// Handles one key event: plays the next clip of its slot while running
    /// and enabled, and discards it otherwise. A press on a running, enabled
    /// engine always plays, since every press set is non-empty.
    pub fn key_event(&mut self, cat: &Catalog, ev: RawKeyEvent) -> (r: Option<SoundClip>)
        requires
            old(self).wf(cat),
        ensures
            final(self).wf(cat),
            (final(self)@, r) == key_step(old(self)@, cat@, ev),
            old(self)@.status == EngineStatus::Running && old(self)@.enabled && ev.transition
                == Transition::Press ==> r is Some,
    {
        if self.status == EngineStatus::Running && self.enabled {
            let slot = slot_of(classify(ev.key_code), ev.transition);
            let p = cat.get(self.preset);
            let n = p.set_len(slot);
            proof {
                lemma_step_wf(self@, cat@, Command::Key(ev));
                if ev.transition == Transition::Press {
                    assert(cat@[self@.preset].clips[slot as int].len() > 0);
                }
            }
            if n == 0 {
                None
            } else {
                let k = self.cursors[slot];
                proof {
                    assert(self@.cursors[slot as int] == k as int);
                }
                let c = p.clip(slot, k);
                let next: usize = if k + 1 == n { 0 } else { k + 1 };
                proof {
                    if k + 1 < n {
                        lemma_small_mod((k + 1) as nat, n as nat);
                    } else {
                        lemma_mod_self_0(n as int);
                    }
                }
                self.cursors.set(slot, next);
                proof {
                    let e = key_step(old(self)@, cat@, ev).0;
                    assert(self@.cursors =~= e.cursors);
                }
                Some(c)
            }
        } else {
            None
        }
    }

    /// Sets the enabled flag; it governs every key event handled after it.
    pub fn set_enabled(&mut self, enabled: bool)
        ensures
            final(self)@ == (EngineView { enabled, ..old(self)@ }),
    {
        self.enabled = enabled;
    }

    /// Applies one command.
    pub fn process(&mut self, cat: &Catalog, c: Command) -> (r: Option<SoundClip>)
        requires
            old(self).wf(cat),
        ensures
            final(self).wf(cat),
            (final(self)@, r) == command_step(old(self)@, cat@, c),
    {
        match c {
            Command::Key(ev) => self.key_event(cat, ev),
            Command::SetEnabled(b) => {
                self.set_enabled(b);
                None
            },
        }
    }

    /// Applies the commands in order and returns the clips played, in the
    /// order they were issued.
    pub fn process_all(&mut self, cat: &Catalog, cmds: &Vec<Command>) -> (r: Vec<SoundClip>)
        requires
            old(self).wf(cat),
        ensures
            final(self).wf(cat),
            (final(self)@, r@) == run(old(self)@, cat@, cmds@),
    {
        let ghost e0 = self@;
        let mut played: Vec<SoundClip> = Vec::new();
        let mut i: usize = 0;
        proof {
            assert(cmds@.take(0) =~= Seq::<Command>::empty());
        }
        while i < cmds.len()
            invariant
                i <= cmds@.len(),
                self.wf(cat),
                (self@, played@) == run(e0, cat@, cmds@.take(i as int)),
            decreases cmds@.len() - i,
        {
            let o = self.process(cat, cmds[i]);
            match o {
                Some(c) => played.push(c),
                None => {},
            }
            proof {
                assert(cmds@.take(i + 1).drop_last() =~= cmds@.take(i as int));
            }
            i = i + 1;
        }
        proof {
            assert(cmds@.take(i as int) =~= cmds@);
        }
        played
    }

    /// Resolves a reconfiguration request against the catalog and the
    /// enumerated devices (`None` when enumeration failed). The preset is
    /// resolved first; the device name is matched ignoring case. The engine
    /// is not touched: a refusal leaves the active configuration as it was.
    pub fn plan_config(
        cat: &Catalog,
        preset_name: &String,
        device_name: &String,
        devices: &Option<Vec<DeviceDescriptor>>,
    ) -> (r: Result<ConfigPlan, EngineError>)
        ensures
            r matches Ok(plan) ==> {
                &&& plan.preset < cat@.len()
                &&& cat@[plan.preset as int].name == preset_name@
                &&& device_found(*devices, device_name@, plan.device)
            },
            r matches Err(EngineError::UnknownPreset) <==> !preset_known(cat@, preset_name@),
            r matches Err(EngineError::DeviceEnumerationFailed) <==> preset_known(cat@, preset_name@)
                && devices is None,
            r matches Err(EngineError::DeviceUnavailable) <==> preset_known(cat@, preset_name@)
                && device_absent(*devices, device_name@),
    {
        let preset = match cat.find(preset_name) {
            Some(p) => p,
            None => return Err(EngineError::UnknownPreset),
        };
        let listed = match devices {
            Some(d) => Some(d),
            None => None,
        };
        match resolve_device(listed, Some(device_name)) {
            Ok(i) => {
                let d = listed.unwrap();
                let device = d[i].duplicate();
                Ok(ConfigPlan { preset, device })
            },
            Err(DeviceError::DeviceUnavailable) => Err(EngineError::DeviceUnavailable),
            Err(DeviceError::DeviceEnumerationFailed) => Err(EngineError::DeviceEnumerationFailed),
        }
    }

    /// Completes a reconfiguration once the caller has tried to open a sink on
    /// the plan's device. If it opened, the plan replaces the active preset
    /// and device at once; if not, the device is unavailable and nothing
    /// changes. The caller closes the previous sink only after this returns `Ok`.
    pub fn finish_config(&mut self, cat: &Catalog, plan: ConfigPlan, sink_opened: bool) -> (r: Result<(), EngineError>)
        requires
            old(self).wf(cat),
            old(self)@.status != EngineStatus::ShuttingDown,
            plan.preset < cat@.len(),
        ensures
            final(self).wf(cat),
            sink_opened ==> r is Ok && final(self)@ == configured(
                old(self)@,
                plan.preset as int,
                plan.device.name@,
                plan.device.is_default,
            ),
            !sink_opened ==> r == Err::<(), EngineError>(EngineError::DeviceUnavailable) && final(self)@ == old(self)@,
    {
        let ghost e0 = self@;
        if !sink_opened {
            return Err(EngineError::DeviceUnavailable);
        }
        let p = cat.get(plan.preset);
        let _ = p.set_len(0);
        let mut i: usize = 0;
        while i < SLOT_COUNT
            invariant
                i <= SLOT_COUNT,
                self.cursors@.len() == SLOT_COUNT,
                self.enabled == e0.enabled,
                forall|s: int| 0 <= s < i ==> #[trigger] self.cursors@[s] == 0,
            decreases SLOT_COUNT - i,
        {
            self.cursors.set(i, 0);
            i = i + 1;
        }
        self.preset = plan.preset;
        self.device = plan.device;
        self.status = EngineStatus::Running;
        proof {
            let target = configured(e0, plan.preset as int, plan.device.name@, plan.device.is_default);
            assert(self@.cursors =~= target.cursors);
        }
        Ok(())
    }

    /// Stops the engine for good. Returns whether a sink was open, which the
    /// caller then closes.
    pub fn shutdown(&mut self) -> (r: bool)
        ensures
            r == (old(self)@.status == EngineStatus::Running),
            final(self)@ == (EngineView { status: EngineStatus::ShuttingDown, ..old(self)@ }),
    {
        let was_running = self.status == EngineStatus::Running;
        self.status = EngineStatus::ShuttingDown;
        was_running
    }
}

/// Commands are applied strictly in order: running `a` and then `b` is
/// running `a + b`, and every clip that `a` plays is issued before any clip
/// that `b` plays.
pub proof fn lemma_run_in_order(e: EngineView, cat: Seq<PresetView>, a: Seq<Command>, b: Seq<Command>)
    ensures
        ({
            let (mid, first) = run(e, cat, a);
            let (last, second) = run(mid, cat, b);
            run(e, cat, a + b) == (last, first + second)
        }),
    decreases b.len(),
{
    let (mid, first) = run(e, cat, a);
    if b.len() == 0 {
        assert(a + b =~= a);
        assert(first + Seq::<SoundClip>::empty() =~= first);
    } else {
        lemma_run_in_order(e, cat, a, b.drop_last());
        assert((a + b).drop_last() =~= a + b.drop_last());
        assert((a + b).last() == b.last());
        let (m2, second) = run(mid, cat, b.drop_last());
        let (last, o) = command_step(m2, cat, b.last());
        if let Some(c) = o {
            assert((first + second).push(c) =~= first + second.push(c));
        }
    }
}

/// While the engine is disabled, key events play nothing and change nothing.
pub proof fn lemma_muted(e: EngineView, cat: Seq<PresetView>, a: Seq<Command>)
    requires
        !e.enabled,
        forall|i: int| 0 <= i < a.len() ==> #[trigger] a[i] is Key,
    ensures
        run(e, cat, a) == (e, Seq::<SoundClip>::empty()),
    decreases a.len(),
{
    if a.len() > 0 {
        lemma_muted(e, cat, a.drop_last());
        assert(a.last() is Key);
    }
}

/// Key events sent while disabled are dropped for good: enabling again
/// resumes with the events that follow and replays none of the muted ones.
pub proof fn lemma_resume_without_replay(e: EngineView, cat: Seq<PresetView>, a: Seq<Command>, b: Seq<Command>)
    requires
        !e.enabled,
        forall|i: int| 0 <= i < a.len() ==> #[trigger] a[i] is Key,
    ensures
        run(e, cat, a + seq![Command::SetEnabled(true)] + b) == run(EngineView { enabled: true, ..e }, cat, b),
{
    let on = seq![Command::SetEnabled(true)];
    let e_on = EngineView { enabled: true, ..e };
    let none = Seq::<SoundClip>::empty();
    lemma_muted(e, cat, a);
    assert(on.drop_last() =~= Seq::<Command>::empty());
    assert(run(e, cat, on.drop_last()) == (e, none));
    assert(run(e, cat, on) == (e_on, none));
    lemma_run_in_order(e, cat, a, on);
    assert(none + none =~= none);
    assert(run(e, cat, a + on) == (e_on, none));
    lemma_run_in_order(e, cat, a + on, b);
    assert(none + run(e_on, cat, b).1 =~= run(e_on, cat, b).1);
}

/// Two consecutive events of one slot never play the same clip when the
/// slot's set holds at least two distinct clips.
pub proof fn lemma_no_repeat(e: EngineView, cat: Seq<PresetView>, ev1: RawKeyEvent, ev2: RawKeyEvent)
    requires
        engine_wf(e, cat),
        e.status == EngineStatus::Running,
        e.enabled,
        category_of(ev1.key_code) == category_of(ev2.key_code),
        ev1.transition == ev2.transition,
        clip_set(e, cat, ev1).len() >= 2,
        forall|i: int, j: int|
            0 <= i < clip_set(e, cat, ev1).len() && 0 <= j < clip_set(e, cat, ev1).len() && i != j
                ==> #[trigger] clip_set(e, cat, ev1)[i] != #[trigger] clip_set(e, cat, ev1)[j],
    ensures
        ({
            let (e1, first) = key_step(e, cat, ev1);
            let (e2, second) = key_step(e1, cat, ev2);
            first is Some && second is Some && first != second
        }),
{
    let slot = clip_slot(category_of(ev1.key_code), ev1.transition);
    let set = clip_set(e, cat, ev1);
    let n = set.len() as int;
    let k = e.cursors[slot];
    assert(0 <= slot < SLOT_COUNT) by {
        assert(0 <= crate::keys::category_slot(category_of(ev1.key_code)) < 6);
    }
    assert(0 <= k < n);
    if k + 1 < n {
        lemma_small_mod((k + 1) as nat, n as nat);
    } else {
        lemma_mod_self_0(n);
    }
    let (e1, first) = key_step(e, cat, ev1);
    assert(e1.cursors[slot] == (k + 1) % n);
    assert(clip_set(e1, cat, ev2) == set);
}

/// Events of one slot walk its clip set round-robin: starting from cursor
/// `k`, the `j`-th of `n` such events plays clip `(k + j) % len`, so over a
/// long run every clip is played as often as any other, give or take one.
pub proof fn lemma_round_robin(e: EngineView, cat: Seq<PresetView>, ev: RawKeyEvent, n: nat)
    requires
        engine_wf(e, cat),
        e.status == EngineStatus::Running,
        e.enabled,
        clip_set(e, cat, ev).len() > 0,
    ensures
        ({
            let slot = clip_slot(category_of(ev.key_code), ev.transition);
            let set = clip_set(e, cat, ev);
            let len = set.len() as int;
            let k = e.cursors[slot];
            run(e, cat, Seq::new(n, |j: int| Command::Key(ev))) == (
            EngineView { cursors: e.cursors.update(slot, (k + n) % len), ..e },
            Seq::new(n, |j: int| set[(k + j) % len]))
        }),
    decreases n,
{
    let slot = clip_slot(category_of(ev.key_code), ev.transition);
    let set = clip_set(e, cat, ev);
    let len = set.len() as int;
    let k = e.cursors[slot];
    assert(0 <= slot < SLOT_COUNT) by {
        assert(0 <= crate::keys::category_slot(category_of(ev.key_code)) < 6);
    }
    assert(0 <= k < len);
    let cmds = Seq::new(n, |j: int| Command::Key(ev));
    if n == 0 {
        lemma_small_mod(k as nat, len as nat);
        assert(e.cursors.update(slot, k) =~= e.cursors);
        assert(run(e, cat, cmds).1 =~= Seq::new(n, |j: int| set[(k + j) % len]));
    } else {
        lemma_round_robin(e, cat, ev, (n - 1) as nat);
        let prev = Seq::new((n - 1) as nat, |j: int| Command::Key(ev));
        assert(cmds.drop_last() =~= prev);
        let mid = EngineView { cursors: e.cursors.update(slot, (k + n - 1) % len), ..e };
        assert(clip_set(mid, cat, ev) == set);
        assert(mid.cursors[slot] == (k + n - 1) % len);
        lemma_add_mod_noop_right(1, k + n - 1, len);
        assert(mid.cursors.update(slot, (mid.cursors[slot] + 1) % len) =~= e.cursors.update(slot, (k + n) % len));
        let played = Seq::new((n - 1) as nat, |j: int| set[(k + j) % len]);
        assert(played.push(set[(k + n - 1) % len]) =~= Seq::new(n, |j: int| set[(k + j) % len]));
    }
}

} // verus!
