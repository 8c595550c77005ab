//! Offline Matter backend: the whole control API without a Matter stack.
use super::backend;
use super::backend::{clamp_pairing_timeout, STARTUP_PAIRING_TIMEOUT_SECS};
use super::commissioning::CommissioningMaterial;
use super::on_off_map;
use super::on_off_map::on_off_command;
use super::pairing;
use super::pairing::pairing_material_for;
use crate::catalog::model;
use crate::catalog::model::{ExportView, PairingView, StateView};
use crate::catalog::{CommandRequest, Export, HaStateValue, PairingMaterial};
use crate::text::str_eq;
use std::collections::VecDeque;
use vstd::prelude::*;

verus! {

/// Pairing window that ends at a deadline or when its timeout fires, whichever is first.
#[derive(Debug, Clone, Copy, PartialEq, Eq, Structural)]
pub struct WindowState {
    /// Epoch second at which the window closes; 0 means closed.
    pub deadline: u64,
    /// Number of the window, so that the timeout of an older one cannot close a newer one.
    pub generation: u64,
}

/// The number after `n`, from the greatest back to 0.
pub open spec fn next_generation(n: u64) -> u64 {
    if n == u64::MAX {
        0
    } else {
        (n + 1) as u64
    }
}

/// A window opened now for a number of seconds.
pub open spec fn opened(w: WindowState, now: u64, timeout_secs: u16) -> WindowState {
    WindowState {
        deadline: backend::deadline_after(now, timeout_secs),
        generation: next_generation(w.generation),
    }
}

/// A closed window.
pub open spec fn closed(w: WindowState) -> WindowState {
    WindowState { deadline: 0, generation: next_generation(w.generation) }
}

/// A window when the timeout of window number `generation` fires.
pub open spec fn expired(w: WindowState, generation: u64) -> WindowState {
    if w.generation == generation {
        WindowState { deadline: 0, ..w }
    } else {
        w
    }
}

impl WindowState {
    /// The window at startup, open for 900 seconds.
    pub fn new_open_startup(now: u64) -> (r: Self)
        ensures
            r.deadline == backend::deadline_after(now, STARTUP_PAIRING_TIMEOUT_SECS),
            r.generation == 0,
    {
        WindowState {
            deadline: now.saturating_add(STARTUP_PAIRING_TIMEOUT_SECS as u64),
            generation: 0,
        }
    }

    /// Whether the window is open.
    pub fn is_open(&self, now: u64) -> (r: bool)
        ensures
            r == backend::open_at(self.deadline, now),
    {
        self.deadline != 0 && now < self.deadline
    }

    /// Opens the window and gives its number.
    pub fn open(&mut self, now: u64, timeout_secs: u16) -> (r: u64)
        ensures
            *final(self) == opened(*old(self), now, timeout_secs),
            r == final(self).generation,
    {
        self.generation = self.generation.wrapping_add(1);
        self.deadline = now.saturating_add(timeout_secs as u64);
        self.generation
    }

    /// Closes the window.
    pub fn close(&mut self)
        ensures
            *final(self) == closed(*old(self)),
    {
        self.generation = self.generation.wrapping_add(1);
        self.deadline = 0;
    }

    /// The timeout of window number `generation` has fired.
    pub fn expire(&mut self, generation: u64)
        ensures
            *final(self) == expired(*old(self), generation),
    {
        if self.generation == generation {
            self.deadline = 0;
        }
    }
}

/// The timeout of a window that has been replaced by a newer one, or closed and opened
/// again, does not close the newer one.
pub proof fn law_old_timeout_spares_new_window(w: WindowState, now: u64, timeout_secs: u16)
    ensures
        expired(opened(w, now, timeout_secs), w.generation) == opened(w, now, timeout_secs),
        expired(
            opened(closed(w), now, timeout_secs),
            next_generation(w.generation),
        ) == opened(closed(w), now, timeout_secs),
{
}

/// The timeout of the current window closes it, and a closed window stays closed.
pub proof fn law_own_timeout_closes(w: WindowState, now: u64, timeout_secs: u16, later: u64)
    ensures
        !backend::open_at(
            expired(
                opened(w, now, timeout_secs),
                opened(w, now, timeout_secs).generation,
            ).deadline,
            later,
        ),
        !backend::open_at(closed(w).deadline, later),
{
}

/// The last known state of each entity among `entries`.
pub open spec fn states_map(entries: Seq<HaStateValue>) -> Map<Seq<char>, StateView>
    decreases entries.len(),
{
    if entries.len() == 0 {
        Map::empty()
    } else {
        states_map(entries.drop_last()).insert(entries.last().entity_id@, entries.last()@)
    }
}

/// `known` after `states` came in, first to last.
pub open spec fn with_states(
    known: Map<Seq<char>, StateView>,
    states: Seq<HaStateValue>,
) -> Map<Seq<char>, StateView>
    decreases states.len(),
{
    if states.len() == 0 {
        known
    } else {
        with_states(known, states.drop_last()).insert(states.last().entity_id@, states.last()@)
    }
}

/// The state of the offline backend.
#[verifier::ext_equal]
pub struct DevView {
    pub running: bool,
    pub pairing: PairingView,
    pub window: WindowState,
    pub exports: Seq<ExportView>,
    pub entity_states: Map<Seq<char>, StateView>,
    pub commands: Seq<CommandRequest>,
}

/// Offline backend: serves pairing material and keeps what it is told, without a network.
#[derive(Debug)]
pub struct DevMatterBackend {
    running: bool,
    pairing: PairingMaterial,
    window: WindowState,
    exports: Vec<Export>,
    entity_states: Vec<HaStateValue>,
    commands: VecDeque<CommandRequest>,
}

impl View for DevMatterBackend {
    type V = DevView;

    closed spec fn view(&self) -> DevView {
        DevView {
            running: self.running,
            pairing: self.pairing@,
            window: self.window,
            exports: model::export_views(self.exports@),
            entity_states: states_map(self.entity_states@),
            commands: self.commands@,
        }
    }
}

/// Whether every entity occurs once.
spec fn entities_once(entries: Seq<HaStateValue>) -> bool {
    forall|a: int, b: int|
        0 <= a < b < entries.len() ==> (#[trigger] entries[a]).entity_id@ != (
        #[trigger] entries[b]).entity_id@
}

/// An entity is known exactly where an entry has it, with the state of that entry.
proof fn lemma_states_map(entries: Seq<HaStateValue>)
    requires
        entities_once(entries),
    ensures
        forall|i: int|
            0 <= i < entries.len() ==> states_map(entries).contains_key(
                (#[trigger] entries[i]).entity_id@,
            ) && states_map(entries)[entries[i].entity_id@] == entries[i]@,
        forall|e: Seq<char>| #[trigger]
            states_map(entries).contains_key(e) ==> exists|i: int|
                0 <= i < entries.len() && (#[trigger] entries[i]).entity_id@ == e,
    decreases entries.len(),
{
    if entries.len() > 0 {
        let front = entries.drop_last();
        assert forall|a: int, b: int| 0 <= a < b < front.len() implies (
        #[trigger] front[a]).entity_id@ != (#[trigger] front[b]).entity_id@ by {
            assert(entries[a].entity_id@ != entries[b].entity_id@);
        }
        lemma_states_map(front);
        assert forall|i: int| 0 <= i < entries.len() implies states_map(entries).contains_key(
            (#[trigger] entries[i]).entity_id@,
        ) && states_map(entries)[entries[i].entity_id@] == entries[i]@ by {
            if i < front.len() {
                assert(front[i] == entries[i]);
                assert(entries[i].entity_id@ != entries[entries.len() - 1].entity_id@);
            }
        }
        assert forall|e: Seq<char>| #[trigger] states_map(entries).contains_key(e) implies exists|
            i: int,
        | 0 <= i < entries.len() && (#[trigger] entries[i]).entity_id@ == e by {
            if e == entries.last().entity_id@ {
                assert(entries[entries.len() - 1].entity_id@ == e);
            } else {
                assert(states_map(front).contains_key(e));
                let i = choose|i: int| 0 <= i < front.len() && (#[trigger] front[i]).entity_id@ == e;
                assert(entries[i].entity_id@ == e);
            }
        }
    }
}

/// Replacing the entry of an entity replaces its state.
proof fn lemma_states_map_update(entries: Seq<HaStateValue>, k: int, st: HaStateValue)
    requires
        entities_once(entries),
        0 <= k < entries.len(),
        entries[k].entity_id@ == st.entity_id@,
    ensures
        entities_once(entries.update(k, st)),
        states_map(entries.update(k, st)) == states_map(entries).insert(st.entity_id@, st@),
{
    let now = entries.update(k, st);
    assert forall|a: int, b: int| 0 <= a < b < now.len() implies (#[trigger] now[a]).entity_id@ != (
    #[trigger] now[b]).entity_id@ by {
        assert(entries[a].entity_id@ != entries[b].entity_id@);
    }
    lemma_states_map(entries);
    lemma_states_map(now);
    let want = states_map(entries).insert(st.entity_id@, st@);
    let have = states_map(now);
    assert forall|e: Seq<char>| have.contains_key(e) <==> want.contains_key(e) by {
        if have.contains_key(e) {
            let i = choose|i: int| 0 <= i < now.len() && (#[trigger] now[i]).entity_id@ == e;
            assert(entries[i].entity_id@ == e);
        }
        if want.contains_key(e) {
            if e == st.entity_id@ {
                assert(now[k].entity_id@ == e);
            } else {
                let i = choose|i: int|
                    0 <= i < entries.len() && (#[trigger] entries[i]).entity_id@ == e;
                assert(now[i].entity_id@ == e);
            }
        }
    }
    assert forall|e: Seq<char>| #[trigger] have.contains_key(e) implies have[e] == want[e] by {
        let i = choose|i: int| 0 <= i < now.len() && (#[trigger] now[i]).entity_id@ == e;
        assert(have[now[i].entity_id@] == now[i]@);
        if i == k {
            assert(now[k] == st);
        } else {
            assert(entries[i] == now[i]);
            assert(states_map(entries)[entries[i].entity_id@] == entries[i]@);
            if e == st.entity_id@ {
                if i < k {
                    assert(entries[i].entity_id@ != entries[k].entity_id@);
                } else {
                    assert(entries[k].entity_id@ != entries[i].entity_id@);
                }
            }
        }
    }
    assert(have =~= want);
}

impl DevMatterBackend {
    /// Whether every entity has one stored state.
    pub closed spec fn wf(&self) -> bool {
        entities_once(self.entity_states@)
    }

    /// A backend that does not run yet; its pairing window counts from now.
    pub fn new(now: u64, material: &CommissioningMaterial) -> (r: Self)
        requires
            pairing::has_code(material.passcode, material.discriminator),
        ensures
            r.wf(),
            !r@.running,
            r@.pairing == pairing::shown(*material),
            r@.window.deadline == backend::deadline_after(now, STARTUP_PAIRING_TIMEOUT_SECS),
            r@.window.generation == 0,
            r@.exports.len() == 0,
            r@.entity_states == Map::<Seq<char>, StateView>::empty(),
            r@.commands.len() == 0,
    {
        DevMatterBackend {
            running: false,
            pairing: pairing_material_for(material),
            window: WindowState::new_open_startup(now),
            exports: Vec::new(),
            entity_states: Vec::new(),
            commands: VecDeque::new(),
        }
    }

    /// Marks the backend running, and opens the pairing window again if it was closed. Gives
    /// the number of the window whose timeout is to be scheduled, if one was opened.
    pub fn start(&mut self, now: u64) -> (r: Option<u64>)
        requires
            old(self).wf(),
        ensures
            final(self).wf(),
            ({
                let was = old(self)@.window;
                if backend::open_at(was.deadline, now) {
                    r is None && final(self)@ == (DevView { running: true, ..old(self)@ })
                } else {
                    &&& final(self)@ == (DevView {
                        running: true,
                        window: opened(was, now, STARTUP_PAIRING_TIMEOUT_SECS),
                        ..old(self)@
                    })
                    &&& r == Some(final(self)@.window.generation)
                }
            }),
    {
        self.running = true;
        if self.window.is_open(now) {
            None
        } else {
            Some(self.window.open(now, STARTUP_PAIRING_TIMEOUT_SECS))
        }
    }

    /// Whether the backend runs.
    pub fn is_running(&self) -> (r: bool)
        ensures
            r == self@.running,
    {
        self.running
    }

    /// Whether the pairing window is open.
    pub fn pairing_open(&self, now: u64) -> (r: bool)
        ensures
            r == backend::open_at(self@.window.deadline, now),
    {
        self.window.is_open(now)
    }

    /// Opens the pairing window, anew where it is open. Gives its number and its clamped
    /// timeout, which is to be scheduled.
    pub fn open_pairing_window(&mut self, now: u64, timeout_secs: u16) -> (r: (u64, u16))
        requires
            old(self).wf(),
        ensures
            final(self).wf(),
            r.1 == backend::clamped_timeout(timeout_secs),
            final(self)@ == (DevView {
                window: opened(old(self)@.window, now, r.1),
                ..old(self)@
            }),
            r.0 == final(self)@.window.generation,
    {
        let timeout: u16 = clamp_pairing_timeout(timeout_secs);
        (self.window.open(now, timeout), timeout)
    }

    /// Closes the pairing window.
    pub fn close_pairing_window(&mut self)
        requires
            old(self).wf(),
        ensures
            final(self).wf(),
            final(self)@ == (DevView { window: closed(old(self)@.window), ..old(self)@ }),
    {
        self.window.close();
    }

    /// The timeout of window number `generation` has fired.
    pub fn pairing_timeout(&mut self, generation: u64)
        requires
            old(self).wf(),
        ensures
            final(self).wf(),
            final(self)@ == (DevView {
                window: expired(old(self)@.window, generation),
                ..old(self)@
            }),
    {
        self.window.expire(generation);
    }

    /// Setup code and QR payload of this install.
    pub fn pairing_info(&self) -> (r: PairingMaterial)
        ensures
            r@ == self@.pairing,
    {
        self.pairing.clone()
    }

    /// No controller is ever commissioned.
    pub fn commissioned_fabrics(&self) -> (r: u8)
        ensures
            r == 0,
    {
        0
    }

    /// Takes over the exports.
    pub fn set_exports(&mut self, exports: Vec<Export>)
        requires
            old(self).wf(),
        ensures
            final(self).wf(),
            final(self)@ == (DevView {
                exports: model::export_views(exports@),
                ..old(self)@
            }),
    {
        self.exports = exports;
    }

    /// Stores one entity state.
    fn store(&mut self, st: HaStateValue)
        requires
            old(self).wf(),
        ensures
            final(self).wf(),
            final(self)@ == (DevView {
                entity_states: old(self)@.entity_states.insert(st.entity_id@, st@),
                ..old(self)@
            }),
    {
        let ghost was = self.entity_states@;
        let n: usize = self.entity_states.len();
        let mut k: usize = 0;
        while k < n && !str_eq(self.entity_states[k].entity_id.as_str(), st.entity_id.as_str())
            invariant
                *self == *old(self),
                was == self.entity_states@,
                k <= n,
                n == was.len(),
                forall|j: int| 0 <= j < k ==> (#[trigger] was[j]).entity_id@ != st.entity_id@,
            decreases n - k,
        {
            k = k + 1;
        }
        if k < n {
            proof {
                lemma_states_map_update(was, k as int, st);
            }
            self.entity_states.set(k, st);
        } else {
            proof {
                let now = was.push(st);
                assert(now.drop_last() =~= was);
                assert forall|a: int, b: int| 0 <= a < b < now.len() implies (
                #[trigger] now[a]).entity_id@ != (#[trigger] now[b]).entity_id@ by {
                    if b < was.len() {
                        assert(was[a].entity_id@ != was[b].entity_id@);
                    } else {
                        assert(was[a].entity_id@ != st.entity_id@);
                    }
                }
            }
            self.entity_states.push(st);
        }
    }

    /// Stores the states pushed for an export and says how many there were: none for an
    /// export that the backend does not know.
    pub fn apply_state(&mut self, export_id: u128, states: &[HaStateValue]) -> (r: u32)
        requires
            old(self).wf(),
            states@.len() <= u32::MAX,
        ensures
            final(self).wf(),
            ({
                let known = exists|i: int|
                    0 <= i < old(self)@.exports.len() && (
                    #[trigger] old(self)@.exports[i]).export_id == export_id;
                if known {
                    r == states@.len() && final(self)@ == (DevView {
                        entity_states: with_states(old(self)@.entity_states, states@),
                        ..old(self)@
                    })
                } else {
                    r == 0 && final(self)@ == old(self)@
                }
            }),
    {
        let mut known: bool = false;
        for i in 0..self.exports.len()
            invariant
                *self == *old(self),
                known <==> exists|k: int|
                    0 <= k < i && (#[trigger] self@.exports[k]).export_id == export_id,
        {
            assert(self@.exports[i as int] == self.exports@[i as int]@);
            if self.exports[i].export_id == export_id {
                known = true;
            }
        }
        if !known {
            return 0;
        }
        let ghost before = self@.entity_states;
        assert(states@.take(0).len() == 0);
        let mut applied: u32 = 0;
        for i in 0..states.len()
            invariant
                self.wf(),
                states@.len() <= u32::MAX,
                applied == i,
                before == old(self)@.entity_states,
                self@ == (DevView {
                    entity_states: with_states(before, states@.take(i as int)),
                    ..old(self)@
                }),
        {
            let st: HaStateValue = states[i].clone();
            proof {
                assert(states@.take(i + 1).drop_last() =~= states@.take(i as int));
                assert(states@.take(i + 1).last() == states@[i as int]);
                assert(st@ == states@[i as int]@);
            }
            self.store(st);
            applied = applied + 1;
        }
        assert(states@.take(states@.len() as int) =~= states@);
        applied
    }

    /// The last stored state of an entity.
    pub fn entity_state(&self, entity_id: &str) -> (r: Option<HaStateValue>)
        requires
            self.wf(),
        ensures
            match r {
                Some(st) => self@.entity_states.contains_key(entity_id@) && st@
                    == self@.entity_states[entity_id@],
                None => !self@.entity_states.contains_key(entity_id@),
            },
    {
        proof {
            lemma_states_map(self.entity_states@);
        }
        for k in 0..self.entity_states.len()
            invariant
                self.wf(),
                forall|j: int|
                    0 <= j < k ==> (#[trigger] self.entity_states@[j]).entity_id@ != entity_id@,
        {
            if str_eq(self.entity_states[k].entity_id.as_str(), entity_id) {
                proof {
                    lemma_states_map(self.entity_states@);
                    assert(self.entity_states@[k as int].entity_id@ == entity_id@);
                }
                return Some(self.entity_states[k].clone());
            }
        }
        None
    }

    /// Queues a command as if a controller had issued it.
    pub fn push_command(&mut self, cmd: CommandRequest)
        requires
            old(self).wf(),
        ensures
            final(self).wf(),
            final(self)@ == (DevView { commands: old(self)@.commands.push(cmd), ..old(self)@ }),
    {
        self.commands.push_back(cmd);
    }

    /// Queues the command of a controller that switches an export.
    pub fn simulate_controller_on_off(&mut self, export_id: u128, on: bool)
        requires
            old(self).wf(),
        ensures
            final(self).wf(),
            final(self)@ == (DevView {
                commands: old(self)@.commands.push(on_off_map::on_off_request(export_id, on)),
                ..old(self)@
            }),
    {
        self.push_command(on_off_command(export_id, on));
    }

    /// Takes the queue of commands.
    pub fn take_commands(&mut self) -> (r: Vec<CommandRequest>)
        requires
            old(self).wf(),
        ensures
            final(self).wf(),
            r@ == old(self)@.commands,
            final(self)@ == (DevView { commands: Seq::empty(), ..old(self)@ }),
    {
        let mut out: Vec<CommandRequest> = Vec::new();
        let ghost all = self@.commands;
        loop
            invariant
                self.wf(),
                out@ + self.commands@ == all,
                self@ == (DevView { commands: self.commands@, ..old(self)@ }),
            ensures
                self.wf(),
                out@ == all,
                self@ == (DevView { commands: Seq::empty(), ..old(self)@ }),
            decreases self.commands@.len(),
        {
            match self.commands.pop_front() {
                Some(c) => {
                    out.push(c);
                },
                None => {
                    break;
                },
            }
        }
        out
    }
}

/// A window that is opened ends its number of seconds from now; opening and closing give it
/// the next number, and its timeout none.
pub proof fn law_window_numbers(w: WindowState, now: u64, secs: u16, generation: u64)
    ensures
        opened(w, now, secs).generation == (w.generation + 1) % 0x1_0000_0000_0000_0000,
        closed(w).generation == (w.generation + 1) % 0x1_0000_0000_0000_0000,
        expired(w, generation).generation == w.generation,
        now + secs <= 0xffff_ffff_ffff_ffff ==> opened(w, now, secs).deadline == now + secs,
        closed(w).deadline == 0,
        generation == w.generation ==> expired(w, generation).deadline == 0,
        generation != w.generation ==> expired(w, generation) == w,
{
}

/// The last state that came in for an entity is the one that is known of it; an entity for
/// which none came in is known as before.
pub proof fn law_last_state_is_known(
    known: Map<Seq<char>, StateView>,
    states: Seq<HaStateValue>,
    entity: Seq<char>,
    i: int,
)
    requires
        -1 <= i < states.len(),
        i >= 0 ==> states[i].entity_id@ == entity,
        forall|j: int| i < j < states.len() ==> (#[trigger] states[j]).entity_id@ != entity,
    ensures
        i >= 0 ==> with_states(known, states).contains_key(entity) && with_states(
            known,
            states,
        )[entity] == states[i]@,
        i < 0 ==> with_states(known, states).contains_key(entity) == known.contains_key(entity),
        i < 0 && known.contains_key(entity) ==> with_states(known, states)[entity] == known[entity],
    decreases states.len(),
{
    if states.len() > 0 && i < states.len() - 1 {
        let front = states.drop_last();
        assert(states[states.len() - 1].entity_id@ != entity);
        assert forall|j: int| i < j < front.len() implies (#[trigger] front[j]).entity_id@
            != entity by {
            assert(front[j] == states[j]);
        }
        law_last_state_is_known(known, front, entity, i);
    }
}

} // verus!
