//! The gamepad collection and event dispatcher: an ordered, append-only
//! list of device sessions whose index is the externally visible device
//! id, stable for the life of the process. A disconnect never removes or
//! renumbers an entry; a reconnect of the same device model reuses its
//! old index.
//!
//! The embedding program drives the pull loop: it drains its hotplug
//! notifications into [`Gilrs::connect_gamepad`] and
//! [`Gilrs::disconnect_by_path`] first, then feeds records it reads from
//! connected sessions through [`Gilrs::next_event_for`], and hands out at
//! most one canonical event per poll.

use crate::ev::Event;
use crate::gamepad::{
    spec_axis_slot,
    spec_btn_slot,
    spec_decode_event,
    spec_dpad_after,
    Gamepad,
    InputRecord,
    Status,
};
use crate::text::{chars_eq_str, str_to_chars};
use vstd::prelude::*;

verus! {

/// The first slot holding a disconnected session of this identity, from
/// index `i` on: the slot a reconnecting device model gets back.
pub open spec fn spec_find_reuse(gs: Seq<Gamepad>, uuid: u128, i: int) -> Option<int>
    decreases gs.len() - i,
{
    if i < 0 || i >= gs.len() {
        None
    } else if gs[i].status == Status::Disconnected && gs[i].uuid == uuid {
        Some(i)
    } else {
        spec_find_reuse(gs, uuid, i + 1)
    }
}

/// The first slot holding a connected session on this device path, from
/// index `i` on: removal notifications carry only the path.
pub open spec fn spec_find_path(gs: Seq<Gamepad>, path: Seq<char>, i: int) -> Option<int>
    decreases gs.len() - i,
{
    if i < 0 || i >= gs.len() {
        None
    } else if gs[i].status == Status::Connected && gs[i].devpath@ == path {
        Some(i)
    } else {
        spec_find_path(gs, path, i + 1)
    }
}

/// The session collection: index-stable sessions plus the sentinel
/// returned for out-of-range queries.
#[derive(Debug)]
pub struct Gilrs {
    pub gamepads: Vec<Gamepad>,
    pub not_observed: Gamepad,
}

impl Gilrs {
    /// Stored sessions are well-formed and never `NotObserved`; the
    /// sentinel is.
    pub open spec fn wf(&self) -> bool {
        &&& forall|i: int|
            0 <= i < self.gamepads@.len() ==> (#[trigger] self.gamepads@[i]).wf()
                && self.gamepads@[i].status != Status::NotObserved
        &&& self.not_observed.wf()
        &&& self.not_observed.status == Status::NotObserved
    }

    /// An empty collection; the embedding program's enumeration and
    /// hotplug loop fill it through `connect_gamepad`.
    pub fn new() -> (r: Gilrs)
        ensures
            r.gamepads@.len() == 0,
            r.wf(),
    {
        Gilrs { gamepads: Vec::new(), not_observed: Gamepad::none() }
    }

    /// The session at `id`, or the `NotObserved` sentinel for an index
    /// never assigned: out-of-range queries are answered, never a fault.
    pub fn gamepad(&self, id: usize) -> (r: &Gamepad)
        ensures
            *r == if id < self.gamepads@.len() {
                self.gamepads@[id as int]
            } else {
                self.not_observed
            },
    {
        if id < self.gamepads.len() {
            &self.gamepads[id]
        } else {
            &self.not_observed
        }
    }

    /// The session at `id` for mutation, or the sentinel.
    pub fn gamepad_mut(&mut self, id: usize) -> (r: &mut Gamepad)
        ensures
            id < old(self).gamepads@.len() ==> {
                &&& *r == old(self).gamepads@[id as int]
                &&& final(self).gamepads@ == old(self).gamepads@.update(id as int, *final(r))
                &&& final(self).not_observed == old(self).not_observed
            },
            id >= old(self).gamepads@.len() ==> {
                &&& *r == old(self).not_observed
                &&& final(self).not_observed == *final(r)
                &&& final(self).gamepads@ == old(self).gamepads@
            },
    {
        if id < self.gamepads.len() {
            &mut self.gamepads[id]
        } else {
            &mut self.not_observed
        }
    }

    fn find_reuse(&self, uuid: u128) -> (r: Option<usize>)
        ensures
            match r {
                Some(i) => i < self.gamepads@.len() && spec_find_reuse(self.gamepads@, uuid, 0)
                    == Some(i as int),
                None => spec_find_reuse(self.gamepads@, uuid, 0) is None,
            },
    {
        let mut i: usize = 0;
        while i < self.gamepads.len()
            invariant
                0 <= i <= self.gamepads@.len(),
                spec_find_reuse(self.gamepads@, uuid, 0) == spec_find_reuse(
                    self.gamepads@,
                    uuid,
                    i as int,
                ),
            decreases self.gamepads@.len() - i,
        {
            let gp = &self.gamepads[i];
            if gp.status() == Status::Disconnected && gp.uuid() == uuid {
                return Some(i);
            }
            i = i + 1;
        }
        None
    }

    /// Adds a session opened for a hotplug "add" (or initial
    /// enumeration): if a disconnected slot carries the same identity,
    /// the earliest such slot is reactivated in place and keeps its
    /// index; otherwise the session is appended under a fresh index.
    /// Either way the returned index carries a `Connected` event.
    pub fn connect_gamepad(&mut self, g: Gamepad) -> (r: (usize, Event))
        requires
            old(self).wf(),
            g.wf(),
            g.status == Status::Connected,
        ensures
            final(self).wf(),
            final(self).not_observed == old(self).not_observed,
            r.1 == Event::Connected,
            match spec_find_reuse(old(self).gamepads@, g.uuid, 0) {
                Some(i) => final(self).gamepads@ == old(self).gamepads@.update(i, g) && r.0 == i,
                None => final(self).gamepads@ == old(self).gamepads@.push(g) && r.0 == old(
                    self,
                ).gamepads@.len(),
            },
    {
        match self.find_reuse(g.uuid()) {
            Some(i) => {
                self.gamepads.set(i, g);
                (i, Event::Connected)
            },
            None => {
                let n = self.gamepads.len();
                self.gamepads.push(g);
                (n, Event::Connected)
            },
        }
    }

    fn find_path(&self, pchars: &Vec<char>) -> (r: Option<usize>)
        ensures
            match r {
                Some(i) => i < self.gamepads@.len() && spec_find_path(self.gamepads@, pchars@, 0)
                    == Some(i as int),
                None => spec_find_path(self.gamepads@, pchars@, 0) is None,
            },
    {
        let mut i: usize = 0;
        while i < self.gamepads.len()
            invariant
                0 <= i <= self.gamepads@.len(),
                spec_find_path(self.gamepads@, pchars@, 0) == spec_find_path(
                    self.gamepads@,
                    pchars@,
                    i as int,
                ),
            decreases self.gamepads@.len() - i,
        {
            let gp = &self.gamepads[i];
            let path_eq = chars_eq_str(pchars, gp.devpath.as_str());
            if gp.status() == Status::Connected && path_eq {
                return Some(i);
            }
            i = i + 1;
        }
        None
    }

    /// Handles a hotplug "remove" notification, which carries only the
    /// device path: the earliest connected session on that path flips to
    /// `Disconnected` in place (its index is kept forever), its handle
    /// bookkeeping is released exactly once, and its index comes back
    /// with a `Disconnected` event and the handle number left for the
    /// embedding program to close. No match answers `None`.
    pub fn disconnect_by_path(&mut self, path: &str) -> (r: Option<(usize, Event, i32)>)
        requires
            old(self).wf(),
        ensures
            final(self).wf(),
            final(self).not_observed == old(self).not_observed,
            match spec_find_path(old(self).gamepads@, path@, 0) {
                Some(i) => {
                    &&& r matches Some(t)
                    &&& t.0 == i
                    &&& t.1 == Event::Disconnected
                    &&& t.2 == old(self).gamepads@[i].fd
                    &&& final(self).gamepads@.len() == old(self).gamepads@.len()
                    &&& final(self).gamepads@[i] == (Gamepad {
                        fd: -2i32,
                        devpath: final(self).gamepads@[i].devpath,
                        status: Status::Disconnected,
                        ..old(self).gamepads@[i]
                    })
                    &&& final(self).gamepads@[i].devpath@ == Seq::<char>::empty()
                    &&& forall|j: int|
                        0 <= j < old(self).gamepads@.len() && j != i ==> final(self).gamepads@[j]
                            == old(self).gamepads@[j]
                },
                None => r is None && final(self).gamepads@ == old(self).gamepads@,
            },
    {
        let pchars = str_to_chars(path);
        match self.find_path(&pchars) {
            Some(i) => {
                let old_fd = self.gamepads[i].fd();
                let gp = &mut self.gamepads[i];
                let _released = gp.disconnect();
                Some((i, Event::Disconnected, old_fd))
            },
            None => None,
        }
    }

    /// Feeds one record read from the connected session at `id` through
    /// decoding and the state cache, handing back the event to report, if
    /// any: a record without canonical meaning, and an axis change whose
    /// value equals the cached one, yield `None` and the embedding
    /// program reads on.
    pub fn next_event_for(&mut self, id: usize, rec: InputRecord) -> (r: Option<Event>)
        requires
            old(self).wf(),
            id < old(self).gamepads@.len(),
        ensures
            final(self).wf(),
            final(self).not_observed == old(self).not_observed,
            final(self).gamepads@.len() == old(self).gamepads@.len(),
            forall|j: int|
                0 <= j < old(self).gamepads@.len() && j != id ==> final(self).gamepads@[j] == old(
                    self,
                ).gamepads@[j],
            ({
                let g0 = old(self).gamepads@[id as int];
                let g1 = Gamepad { abs_dpad_prev_val: spec_dpad_after(g0, rec), ..g0 };
                let g2 = final(self).gamepads@[id as int];
                match spec_decode_event(g0, rec) {
                    None => r is None && g2 == g1,
                    Some(ev) => match ev {
                        Event::ButtonPressed(btn) => r == Some(ev) && g2 == (Gamepad {
                            btn_state: g2.btn_state,
                            ..g1
                        }) && g2.btn_state@ == g1.btn_state@.update(spec_btn_slot(btn), true),
                        Event::ButtonReleased(btn) => r == Some(ev) && g2 == (Gamepad {
                            btn_state: g2.btn_state,
                            ..g1
                        }) && g2.btn_state@ == g1.btn_state@.update(spec_btn_slot(btn), false),
                        Event::AxisChanged(axis, val) => {
                            let cached = g1.axis_state@[spec_axis_slot(axis)];
                            if cached.num as int * val.den as int == val.num as int
                                * cached.den as int {
                                r is None && g2 == g1
                            } else {
                                r == Some(ev) && g2 == (Gamepad {
                                    axis_state: g2.axis_state,
                                    ..g1
                                }) && g2.axis_state@ == g1.axis_state@.update(
                                    spec_axis_slot(axis),
                                    val,
                                )
                            }
                        },
                        _ => r == Some(ev) && g2 == g1,
                    },
                }
            }),
    {
        let gp = &mut self.gamepads[id];
        let decoded = gp.event(rec);
        match decoded {
            None => None,
            Some(ev) => {
                if gp.apply_event(ev) {
                    Some(ev)
                } else {
                    None
                }
            },
        }
    }
}

/// A disconnect of slot `i` followed by a reconnect with the same
/// identity reuses slot `i`: if no earlier slot holds a disconnected
/// session of that identity, the reuse search lands exactly on `i`.
pub proof fn lemma_reconnect_reuses_index(gs: Seq<Gamepad>, uuid: u128, i: int)
    requires
        0 <= i < gs.len(),
        gs[i].status == Status::Disconnected,
        gs[i].uuid == uuid,
        forall|j: int|
            0 <= j < i ==> !((#[trigger] gs[j]).status == Status::Disconnected && gs[j].uuid
                == uuid),
    ensures
        spec_find_reuse(gs, uuid, 0) == Some(i),
{
    lemma_find_reuse_step(gs, uuid, 0, i);
}

proof fn lemma_find_reuse_step(gs: Seq<Gamepad>, uuid: u128, k: int, i: int)
    requires
        0 <= k <= i < gs.len(),
        gs[i].status == Status::Disconnected,
        gs[i].uuid == uuid,
        forall|j: int|
            k <= j < i ==> !((#[trigger] gs[j]).status == Status::Disconnected && gs[j].uuid
                == uuid),
    ensures
        spec_find_reuse(gs, uuid, k) == Some(i),
    decreases i - k,
{
    if k < i {
        lemma_find_reuse_step(gs, uuid, k + 1, i);
    }
}

/// The full reconnect story: after slot `i` alone flips to
/// `Disconnected` (as `disconnect_by_path` leaves it), a device model
/// with the same identity is assigned slot `i` again by the reuse
/// search, provided no earlier slot already held a disconnected session
/// of that identity.
pub proof fn lemma_disconnect_then_reconnect(
    gs0: Seq<Gamepad>,
    gs1: Seq<Gamepad>,
    i: int,
    uuid: u128,
)
    requires
        0 <= i < gs0.len(),
        gs1.len() == gs0.len(),
        gs1[i].status == Status::Disconnected,
        gs1[i].uuid == uuid,
        forall|j: int| 0 <= j < gs0.len() && j != i ==> gs1[j] == gs0[j],
        forall|j: int|
            0 <= j < i ==> !((#[trigger] gs0[j]).status == Status::Disconnected && gs0[j].uuid
                == uuid),
    ensures
        spec_find_reuse(gs1, uuid, 0) == Some(i),
{
    lemma_reconnect_reuses_index(gs1, uuid, i);
}

/// A reconnect whose identity matches no disconnected slot appends: the
/// reuse search finds nothing, so `connect_gamepad` assigns the next
/// fresh index.
pub proof fn lemma_new_identity_appends(gs: Seq<Gamepad>, uuid: u128)
    requires
        forall|j: int|
            0 <= j < gs.len() ==> !((#[trigger] gs[j]).status == Status::Disconnected && gs[j].uuid
                == uuid),
    ensures
        spec_find_reuse(gs, uuid, 0) is None,
{
    lemma_find_reuse_none(gs, uuid, 0);
}

proof fn lemma_find_reuse_none(gs: Seq<Gamepad>, uuid: u128, k: int)
    requires
        0 <= k,
        forall|j: int|
            k <= j < gs.len() ==> !((#[trigger] gs[j]).status == Status::Disconnected && gs[j].uuid
                == uuid),
    ensures
        spec_find_reuse(gs, uuid, k) is None,
    decreases gs.len() - k,
{
    if k < gs.len() {
        lemma_find_reuse_none(gs, uuid, k + 1);
    }
}

} // verus!
