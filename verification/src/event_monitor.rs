//! Monitors that watch a file and fire a standing instruction when it changes.
//!
//! A monitor subscribes to the parent directory and filters by file name, so it
//! survives editors that save by writing a temporary file and renaming it.

use crate::path::{
    file_name_of, law_a_name_lies_in_its_parent, parent_of, same_bytes, ComponentModel, LocalPath,
    PathComponent,
};
use vstd::prelude::*;

verus! {

/// After the first change a monitor waits for this many seconds of quiet before
/// it fires, so that a burst of changes is one reaction.
pub const MONITOR_DEBOUNCE_SECS: u64 = 2;

/// What a monitor subscribes to: a directory, and the name in it that counts,
/// or all of them.
#[derive(Debug, PartialEq, Eq)]
pub struct MonitorTarget {
    pub dir: LocalPath,
    pub file_name: Option<Vec<u8>>,
}

/// An optional name.
pub open spec fn name_view(name: Option<Vec<u8>>) -> Option<Seq<u8>> {
    match name {
        Some(bytes) => Some(bytes@),
        None => None,
    }
}

/// The directory to watch for changes of `path`.
pub open spec fn watched_dir(path: Seq<ComponentModel>) -> Seq<ComponentModel> {
    match parent_of(path) {
        Some(parent) => parent,
        None => seq![ComponentModel::CurDir],
    }
}

/// What a monitor of `path` subscribes to.
pub fn monitor_target(path: &LocalPath) -> (r: MonitorTarget)
    ensures
        r.dir@ == watched_dir(path@),
        name_view(r.file_name) == file_name_of(path@),
{
    let dir = match path.parent() {
        Some(parent) => parent,
        None => {
            let mut components: Vec<PathComponent> = Vec::new();
            components.push(PathComponent::CurDir);
            let dir = LocalPath { components };
            assert(dir@ == seq![ComponentModel::CurDir]);
            dir
        },
    };
    MonitorTarget { dir, file_name: path.file_name() }
}

/// A file event whose paths have the file names `names` concerns `target`.
pub open spec fn event_hits(target: Option<Seq<u8>>, names: Seq<Option<Vec<u8>>>) -> bool {
    match target {
        Some(name) => exists|i: int|
            0 <= i < names.len() && name_view(#[trigger] names[i]) == Some(name),
        None => true,
    }
}

impl MonitorTarget {
    /// Whether a file event whose paths have the file names `names` concerns
    /// the target.
    pub fn is_hit(&self, names: &Vec<Option<Vec<u8>>>) -> (r: bool)
        ensures
            r == event_hits(name_view(self.file_name), names@),
    {
        match &self.file_name {
            None => true,
            Some(target) => {
                let mut i: usize = 0;
                while i < names.len()
                    invariant
                        i <= names@.len(),
                        name_view(self.file_name) == Some(target@),
                        forall|j: int|
                            0 <= j < i ==> name_view(#[trigger] names@[j]) != Some(target@),
                    decreases names.len() - i,
                {
                    if let Some(name) = &names[i] {
                        if same_bytes(name.as_slice(), target.as_slice()) {
                            assert(name_view(names@[i as int]) == Some(target@));
                            return true;
                        }
                    }
                    i = i + 1;
                }
                false
            },
        }
    }
}

/// Whether a burst of changes is under way.
#[derive(Clone, Copy, Debug, PartialEq, Eq, Structural)]
pub enum Debounce {
    Idle,
    Settling,
    Closed,
}

/// What a monitor's task has waited for.
#[derive(Clone, Copy, Debug, PartialEq, Eq, Structural)]
pub enum DebounceEvent {
    /// The file changed.
    Changed,
    /// The debounce time passed without a change.
    Quiet,
    /// No more changes will be reported.
    Closed,
}

/// What a monitor's task does next.
#[derive(Clone, Copy, Debug, PartialEq, Eq, Structural)]
pub enum DebounceAction {
    /// Wait for a change.
    AwaitChange,
    /// Wait for a change, but no longer than the debounce time.
    AwaitQuiet,
    /// Fire the instruction, then wait for a change.
    Fire,
    /// End.
    Exit,
}

/// The state after `event`, and what to do.
pub open spec fn debounced(state: Debounce, event: DebounceEvent) -> (Debounce, DebounceAction) {
    match (state, event) {
        (Debounce::Closed, _) => (Debounce::Closed, DebounceAction::Exit),
        (_, DebounceEvent::Closed) => (Debounce::Closed, DebounceAction::Exit),
        (_, DebounceEvent::Changed) => (Debounce::Settling, DebounceAction::AwaitQuiet),
        (Debounce::Settling, DebounceEvent::Quiet) => (Debounce::Idle, DebounceAction::Fire),
        (Debounce::Idle, DebounceEvent::Quiet) => (Debounce::Idle, DebounceAction::AwaitChange),
    }
}

impl Debounce {
    /// Takes in what a monitor's task has waited for.
    pub fn step(self, event: DebounceEvent) -> (r: (Debounce, DebounceAction))
        ensures
            r == debounced(self, event),
    {
        match (self, event) {
            (Debounce::Closed, _) => (Debounce::Closed, DebounceAction::Exit),
            (_, DebounceEvent::Closed) => (Debounce::Closed, DebounceAction::Exit),
            (_, DebounceEvent::Changed) => (Debounce::Settling, DebounceAction::AwaitQuiet),
            (Debounce::Settling, DebounceEvent::Quiet) => (Debounce::Idle, DebounceAction::Fire),
            (Debounce::Idle, DebounceEvent::Quiet) => (
                Debounce::Idle,
                DebounceAction::AwaitChange,
            ),
        }
    }
}

/// The state after `events`.
pub open spec fn debounce_after(state: Debounce, events: Seq<DebounceEvent>) -> Debounce
    decreases events.len(),
{
    if events.len() == 0 {
        state
    } else {
        debounced(debounce_after(state, events.drop_last()), events.last()).0
    }
}

/// How often the instruction is fired during `events`.
pub open spec fn times_fired(state: Debounce, events: Seq<DebounceEvent>) -> nat
    decreases events.len(),
{
    if events.len() == 0 {
        0
    } else {
        let before = debounce_after(state, events.drop_last());
        times_fired(state, events.drop_last()) + if debounced(before, events.last()).1
            == DebounceAction::Fire {
            1nat
        } else {
            0
        }
    }
}

proof fn lemma_changes_do_not_fire(n: nat)
    ensures
        ({
            let changes = Seq::new(n, |i: int| DebounceEvent::Changed);
            &&& times_fired(Debounce::Idle, changes) == 0
            &&& n > 0 ==> debounce_after(Debounce::Idle, changes) == Debounce::Settling
        }),
    decreases n,
{
    let changes = Seq::new(n, |i: int| DebounceEvent::Changed);
    if n > 0 {
        let fewer = Seq::new((n - 1) as nat, |i: int| DebounceEvent::Changed);
        assert(changes.drop_last() == fewer);
        lemma_changes_do_not_fire((n - 1) as nat);
        if n == 1 {
            assert(debounce_after(Debounce::Idle, fewer) == Debounce::Idle);
        }
    }
}

/// A burst of changes, however many, followed by quiet, fires exactly once.
pub proof fn law_a_burst_fires_once(n: nat)
    requires
        n > 0,
    ensures
        ({
            let changes = Seq::new(n, |i: int| DebounceEvent::Changed);
            &&& times_fired(Debounce::Idle, changes) == 0
            &&& times_fired(Debounce::Idle, changes.push(DebounceEvent::Quiet)) == 1
            &&& debounce_after(Debounce::Idle, changes.push(DebounceEvent::Quiet)) == Debounce::Idle
        }),
{
    let changes = Seq::new(n, |i: int| DebounceEvent::Changed);
    lemma_changes_do_not_fire(n);
    assert(changes.push(DebounceEvent::Quiet).drop_last() == changes);
}

/// The instruction is never fired more often than the file has changed.
pub proof fn law_no_fire_without_a_change(events: Seq<DebounceEvent>)
    ensures
        times_fired(Debounce::Idle, events) <= changes_in(events),
{
    lemma_fires_follow_changes(events);
}

/// How many of `events` are changes.
pub open spec fn changes_in(events: Seq<DebounceEvent>) -> nat
    decreases events.len(),
{
    if events.len() == 0 {
        0
    } else {
        changes_in(events.drop_last()) + if events.last() == DebounceEvent::Changed {
            1nat
        } else {
            0
        }
    }
}

proof fn lemma_fires_follow_changes(events: Seq<DebounceEvent>)
    ensures
        times_fired(Debounce::Idle, events) + if debounce_after(Debounce::Idle, events)
            == Debounce::Settling {
            1nat
        } else {
            0
        } <= changes_in(events),
    decreases events.len(),
{
    if events.len() > 0 {
        lemma_fires_follow_changes(events.drop_last());
    }
}

/// An active monitor: watches `path` and fires `instruction` on change. What
/// keeps it running is `handle`.
#[derive(Debug)]
pub struct EventMonitor<P, H> {
    pub id: u64,
    pub path: P,
    pub instruction: String,
    pub handle: H,
}

/// Owns the set of active monitors for a session.
#[derive(Debug)]
pub struct EventMonitorRegistry<P, H> {
    next_id: u64,
    monitors: Vec<EventMonitor<P, H>>,
}

/// The id of the next monitor, and the active monitors in the order in which
/// they were added.
pub struct RegistryModel<P, H> {
    pub next_id: int,
    pub monitors: Seq<EventMonitor<P, H>>,
}

impl<P, H> RegistryModel<P, H> {
    /// Ids are given out in ascending order and never twice.
    pub open spec fn well_formed(self) -> bool {
        &&& forall|i: int|
            0 <= i < self.monitors.len() ==> (#[trigger] self.monitors[i]).id < self.next_id
        &&& forall|i: int, j: int|
            0 <= i < j < self.monitors.len() ==> (#[trigger] self.monitors[i]).id < (
            #[trigger] self.monitors[j]).id
    }

    /// A monitor with that id is active.
    pub open spec fn has(self, id: u64) -> bool {
        exists|i: int| 0 <= i < self.monitors.len() && (#[trigger] self.monitors[i]).id == id
    }
}

impl<P, H> View for EventMonitorRegistry<P, H> {
    type V = RegistryModel<P, H>;

    closed spec fn view(&self) -> RegistryModel<P, H> {
        RegistryModel { next_id: self.next_id as int, monitors: self.monitors@ }
    }
}

impl<P, H> EventMonitorRegistry<P, H> {
    #[verifier::type_invariant]
    spec fn ids_ascend(self) -> bool {
        self@.well_formed()
    }
}

impl<P, H> Default for EventMonitorRegistry<P, H> {
    fn default() -> (r: Self)
        ensures
            r@.well_formed(),
            r@.next_id == 0,
            r@.monitors == Seq::<EventMonitor<P, H>>::empty(),
    {
        EventMonitorRegistry { next_id: 0, monitors: Vec::new() }
    }
}

impl<P, H> EventMonitorRegistry<P, H> {
    /// The id that the next monitor will be given.
    pub fn next_id(&self) -> (r: u64)
        ensures
            r == self@.next_id,
    {
        self.next_id
    }

    /// Registers a monitor for `path` that was `started`. Returns the assigned
    /// id, or why it could not be started.
    pub fn add<E>(&mut self, path: P, instruction: String, started: Result<H, E>) -> (r: Result<
        u64,
        E,
    >)
        requires
            started is Ok ==> old(self)@.next_id < u64::MAX,
        ensures
            final(self)@.well_formed(),
            match started {
                Ok(handle) => {
                    &&& r matches Ok(id) && id == old(self)@.next_id
                    &&& final(self)@.next_id == old(self)@.next_id + 1
                    &&& final(self)@.monitors == old(self)@.monitors.push(
                        EventMonitor {
                            id: old(self)@.next_id as u64,
                            path,
                            instruction,
                            handle,
                        },
                    )
                },
                Err(e) => r == Err::<u64, E>(e) && final(self)@ == old(self)@,
            },
    {
        proof {
            use_type_invariant(&*self);
        }
        let id = self.next_id;
        match started {
            Ok(handle) => {
                let mut monitors: Vec<EventMonitor<P, H>> = Vec::new();
                std::mem::swap(&mut monitors, &mut self.monitors);
                let ghost before = monitors@;
                assert(before == old(self)@.monitors);
                self.next_id = id + 1;
                monitors.push(EventMonitor { id, path, instruction, handle });
                proof {
                    assert forall|j: int| 0 <= j < before.len() implies (#[trigger] monitors@[j])
                        == before[j] && before[j].id < id by {
                        assert(before[j] == old(self)@.monitors[j]);
                    }
                    assert forall|i: int, j: int| 0 <= i < j < monitors@.len() implies (
                    #[trigger] monitors@[i]).id < (#[trigger] monitors@[j]).id by {
                        if j < before.len() {
                            assert(old(self)@.monitors[i].id < old(self)@.monitors[j].id);
                        }
                    }
                }
                self.monitors = monitors;
                Ok(id)
            },
            Err(e) => Err(e),
        }
    }

    /// Removes the monitor with that id and hands it out, to be stopped.
    pub fn stop(&mut self, id: u64) -> (r: Option<EventMonitor<P, H>>)
        ensures
            final(self)@.well_formed(),
            final(self)@.next_id == old(self)@.next_id,
            !final(self)@.has(id),
            r is Some <==> old(self)@.has(id),
            r is None ==> final(self)@ == old(self)@,
            r matches Some(m) ==> exists|i: int|
                #![trigger old(self)@.monitors[i]]
                {
                    &&& 0 <= i < old(self)@.monitors.len()
                    &&& old(self)@.monitors[i] == m
                    &&& m.id == id
                    &&& final(self)@.monitors == old(self)@.monitors.remove(i)
                },
    {
        proof {
            use_type_invariant(&*self);
        }
        let mut i: usize = 0;
        while i < self.monitors.len()
            invariant
                i <= self.monitors@.len(),
                self@ == old(self)@,
                self@.well_formed(),
                forall|j: int| 0 <= j < i ==> (#[trigger] self.monitors@[j]).id != id,
            decreases self.monitors.len() - i,
        {
            if self.monitors[i].id == id {
                let mut monitors: Vec<EventMonitor<P, H>> = Vec::new();
                std::mem::swap(&mut monitors, &mut self.monitors);
                let ghost before = monitors@;
                assert(before[i as int] == old(self)@.monitors[i as int]);
                let m = monitors.remove(i);
                assert(monitors@ == before.remove(i as int));
                assert forall|j: int| 0 <= j < monitors@.len() implies (#[trigger] monitors@[j]).id
                    != id && monitors@[j].id < self.next_id by {
                    if j < i {
                        assert(monitors@[j] == before[j]);
                    } else {
                        assert(monitors@[j] == before[j + 1]);
                    }
                }
                self.monitors = monitors;
                return Some(m);
            }
            i = i + 1;
        }
        None
    }

    /// The id, watched path and instruction of each active monitor.
    pub fn list(&self) -> (r: Vec<(u64, &P, &str)>)
        ensures
            r@.len() == self@.monitors.len(),
            forall|i: int|
                #![trigger r@[i]]
                0 <= i < r@.len() ==> {
                    &&& r@[i].0 == self@.monitors[i].id
                    &&& *r@[i].1 == self@.monitors[i].path
                    &&& r@[i].2@ == self@.monitors[i].instruction@
                },
    {
        let mut out: Vec<(u64, &P, &str)> = Vec::new();
        let mut i: usize = 0;
        while i < self.monitors.len()
            invariant
                i <= self.monitors@.len(),
                out@.len() == i,
                forall|j: int|
                    #![trigger out@[j]]
                    0 <= j < i ==> {
                        &&& out@[j].0 == self.monitors@[j].id
                        &&& *out@[j].1 == self.monitors@[j].path
                        &&& out@[j].2@ == self.monitors@[j].instruction@
                    },
            decreases self.monitors.len() - i,
        {
            let m = &self.monitors[i];
            out.push((m.id, &m.path, m.instruction.as_str()));
            i = i + 1;
        }
        out
    }

    pub fn is_empty(&self) -> (r: bool)
        ensures
            r == (self@.monitors.len() == 0),
    {
        self.monitors.len() == 0
    }
}

/// A monitor's id finds that monitor and no other: stopping the one that was
/// added last leaves the registry's other monitors as they were before.
pub proof fn law_stopping_undoes_adding<P, H>(
    m: RegistryModel<P, H>,
    added: EventMonitor<P, H>,
    i: int,
)
    requires
        m.well_formed(),
        added.id == m.next_id,
        0 <= i <= m.monitors.len(),
        m.monitors.push(added)[i].id == added.id,
    ensures
        m.monitors.push(added)[i] == added,
        m.monitors.push(added).remove(i) == m.monitors,
{
    if i < m.monitors.len() {
        assert(m.monitors[i].id < m.next_id);
    }
    assert(m.monitors.push(added).remove(i) =~= m.monitors);
}

/// A monitor of a file subscribes to the directory that the file lies in. An event
/// concerns it exactly where one of the event's paths has the file's name; without a
/// name every event does.
pub proof fn law_events_concern_the_file_by_its_name(
    dir: Seq<ComponentModel>,
    name: Seq<u8>,
    before: Seq<Option<Vec<u8>>>,
    hit: Vec<u8>,
    after: Seq<Option<Vec<u8>>>,
)
    ensures
        watched_dir(dir.push(ComponentModel::Normal(name))) == dir,
        watched_dir(dir.push(ComponentModel::RootDir)) == seq![ComponentModel::CurDir],
        watched_dir(Seq::empty()) == seq![ComponentModel::CurDir],
        event_hits(None, before),
        event_hits(Some(hit@), before.push(Some(hit)) + after),
        event_hits(Some(name), before) ==> exists|i: int|
            0 <= i < before.len() && (#[trigger] before[i] matches Some(found) && found@ == name),
{
    law_a_name_lies_in_its_parent(dir, name);
    let names = before.push(Some(hit)) + after;
    assert(names[before.len() as int] == Some(hit));
    assert(name_view(names[before.len() as int]) == Some(hit@));
    if event_hits(Some(name), before) {
        let i = choose|i: int|
            0 <= i < before.len() && name_view(#[trigger] before[i]) == Some(name);
        assert(before[i] matches Some(found) && found@ == name);
    }
}

/// What a monitor's task does at each of the events that it has waited for. It fires
/// exactly when quiet follows directly on a change; it waits for quiet after every
/// change, and for a change otherwise; and it ends once no more changes will come.
/// Quiet is two seconds without a change.
pub proof fn law_quiet_after_a_change_fires(events: Seq<DebounceEvent>, k: int)
    requires
        0 <= k < events.len(),
    ensures
        debounced(debounce_after(Debounce::Idle, events.take(k)), events[k]).1 == if exists|i: int|
            0 <= i <= k && #[trigger] events[i] == DebounceEvent::Closed {
            DebounceAction::Exit
        } else if events[k] == DebounceEvent::Changed {
            DebounceAction::AwaitQuiet
        } else if k > 0 && events[k - 1] == DebounceEvent::Changed {
            DebounceAction::Fire
        } else {
            DebounceAction::AwaitChange
        },
        MONITOR_DEBOUNCE_SECS == 2,
{
    lemma_debounce_state(events.take(k));
    let head = events.take(k);
    if exists|i: int| 0 <= i <= k && #[trigger] events[i] == DebounceEvent::Closed {
        let i = choose|i: int| 0 <= i <= k && #[trigger] events[i] == DebounceEvent::Closed;
        if i < k {
            assert(head[i] == DebounceEvent::Closed);
        }
    } else {
        assert forall|i: int| 0 <= i < head.len() implies #[trigger] head[i]
            != DebounceEvent::Closed by {
            assert(head[i] == events[i]);
        }
        assert(events[k] != DebounceEvent::Closed);
        if k > 0 {
            assert(head.last() == events[k - 1]);
        }
    }
}

proof fn lemma_debounce_state(events: Seq<DebounceEvent>)
    ensures
        debounce_after(Debounce::Idle, events) == if exists|i: int|
            0 <= i < events.len() && #[trigger] events[i] == DebounceEvent::Closed {
            Debounce::Closed
        } else if events.len() > 0 && events.last() == DebounceEvent::Changed {
            Debounce::Settling
        } else {
            Debounce::Idle
        },
    decreases events.len(),
{
    if events.len() > 0 {
        let head = events.drop_last();
        lemma_debounce_state(head);
        if exists|i: int| 0 <= i < events.len() && #[trigger] events[i] == DebounceEvent::Closed {
            let i = choose|i: int|
                0 <= i < events.len() && #[trigger] events[i] == DebounceEvent::Closed;
            if i < head.len() {
                assert(head[i] == DebounceEvent::Closed);
            }
        } else {
            assert forall|i: int| 0 <= i < head.len() implies #[trigger] head[i]
                != DebounceEvent::Closed by {
                assert(head[i] == events[i]);
            }
            assert(events[events.len() - 1] != DebounceEvent::Closed);
        }
    }
}

} // verus!
