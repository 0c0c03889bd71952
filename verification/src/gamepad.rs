//! Gamepad management: axis, button and D-pad mappings, slot assignment with
//! persistent slot locks, and the joystick snapshot handed to the control
//! loop.

use vstd::prelude::*;

use crate::types::{GamepadInfo, GamepadUpdate, JoystickState};

verus! {

/// A gamepad axis, in the fixed driver-station convention.
#[derive(Debug, Clone, Copy, PartialEq, Eq, Structural)]
pub enum PadAxis {
    LeftStickX,
    LeftStickY,
    LeftZ,
    RightStickX,
    RightStickY,
    RightZ,
}

/// The fixed index of each axis.
pub open spec fn axis_index_spec(a: PadAxis) -> int {
    match a {
        PadAxis::LeftStickX => 0,
        PadAxis::LeftStickY => 1,
        PadAxis::LeftZ => 2,
        PadAxis::RightStickX => 3,
        PadAxis::RightStickY => 4,
        PadAxis::RightZ => 5,
    }
}

/// Map an axis to its index.
pub fn axis_index(a: PadAxis) -> (r: usize)
    ensures
        r == axis_index_spec(a),
        r < 6,
{
    match a {
        PadAxis::LeftStickX => 0,
        PadAxis::LeftStickY => 1,
        PadAxis::LeftZ => 2,
        PadAxis::RightStickX => 3,
        PadAxis::RightStickY => 4,
        PadAxis::RightZ => 5,
    }
}

/// A gamepad button, in the fixed driver-station convention; the four
/// direction-pad buttons feed the POV hat instead of the button bits.
#[derive(Debug, Clone, Copy, PartialEq, Eq, Structural)]
pub enum PadButton {
    South,
    East,
    West,
    North,
    LeftShoulder,
    RightShoulder,
    Select,
    Start,
    LeftThumb,
    RightThumb,
    LeftTrigger2,
    RightTrigger2,
    C,
    Z,
    Guide,
    Unknown,
    DpadUp,
    DpadRight,
    DpadDown,
    DpadLeft,
}

/// The fixed index of each plain button; the direction-pad buttons have
/// none.
pub open spec fn button_index_spec(b: PadButton) -> Option<int> {
    match b {
        PadButton::South => Some(0),
        PadButton::East => Some(1),
        PadButton::West => Some(2),
        PadButton::North => Some(3),
        PadButton::LeftShoulder => Some(4),
        PadButton::RightShoulder => Some(5),
        PadButton::Select => Some(6),
        PadButton::Start => Some(7),
        PadButton::LeftThumb => Some(8),
        PadButton::RightThumb => Some(9),
        PadButton::LeftTrigger2 => Some(10),
        PadButton::RightTrigger2 => Some(11),
        PadButton::C => Some(12),
        PadButton::Z => Some(13),
        PadButton::Guide => Some(14),
        PadButton::Unknown => Some(15),
        _ => None,
    }
}

/// Map a button to its index; the direction-pad buttons have none.
pub fn button_index(b: PadButton) -> (r: Option<usize>)
    ensures
        (r matches Some(i) && button_index_spec(b) matches Some(j) && i == j && i < 16) || (r
            is None && button_index_spec(b) is None),
{
    match b {
        PadButton::South => Some(0),
        PadButton::East => Some(1),
        PadButton::West => Some(2),
        PadButton::North => Some(3),
        PadButton::LeftShoulder => Some(4),
        PadButton::RightShoulder => Some(5),
        PadButton::Select => Some(6),
        PadButton::Start => Some(7),
        PadButton::LeftThumb => Some(8),
        PadButton::RightThumb => Some(9),
        PadButton::LeftTrigger2 => Some(10),
        PadButton::RightTrigger2 => Some(11),
        PadButton::C => Some(12),
        PadButton::Z => Some(13),
        PadButton::Guide => Some(14),
        PadButton::Unknown => Some(15),
        PadButton::DpadUp => None,
        PadButton::DpadRight => None,
        PadButton::DpadDown => None,
        PadButton::DpadLeft => None,
    }
}

/// The POV hat angle of the four direction-pad booleans: an eight-way
/// compass angle, 0 for up and +45 per clockwise step; centered or
/// contradictory combinations give -1.
pub open spec fn pov_spec(up: bool, right: bool, down: bool, left: bool) -> i16 {
    if up && !right && !down && !left {
        0
    } else if up && right && !down && !left {
        45
    } else if !up && right && !down && !left {
        90
    } else if !up && right && down && !left {
        135
    } else if !up && !right && down && !left {
        180
    } else if !up && !right && down && left {
        225
    } else if !up && !right && !down && left {
        270
    } else if up && !right && !down && left {
        315
    } else {
        -1i16
    }
}

/// Convert the direction-pad state to a POV angle.
pub fn dpad_to_pov(up: bool, right: bool, down: bool, left: bool) -> (r: i16)
    ensures
        r == pov_spec(up, right, down, left),
{
    if up && !right && !down && !left {
        0
    } else if up && right && !down && !left {
        45
    } else if !up && right && !down && !left {
        90
    } else if !up && right && down && !left {
        135
    } else if !up && !right && down && !left {
        180
    } else if !up && !right && down && left {
        225
    } else if !up && !right && !down && left {
        270
    } else if up && !right && !down && left {
        315
    } else {
        -1
    }
}

/// One tracked gamepad: device identity, assigned slot, current joystick
/// state, and the latched direction-pad flags feeding the POV hat.
pub struct TrackedGamepad {
    pub device_id: usize,
    pub name: String,
    pub slot: usize,
    pub state: JoystickState,
    pub dpad_up: bool,
    pub dpad_right: bool,
    pub dpad_down: bool,
    pub dpad_left: bool,
}

/// The first index whose gamepad has the given device id.
pub open spec fn first_with_id(s: Seq<TrackedGamepad>, id: usize, i: int) -> Option<int>
    decreases s.len() - i,
{
    if i < 0 || i >= s.len() {
        None
    } else if s[i].device_id == id {
        Some(i)
    } else {
        first_with_id(s, id, i + 1)
    }
}

/// The first index whose gamepad sits in the given slot.
pub open spec fn first_with_slot(s: Seq<TrackedGamepad>, slot: int, i: int) -> Option<int>
    decreases s.len() - i,
{
    if i < 0 || i >= s.len() {
        None
    } else if s[i].slot as int == slot {
        Some(i)
    } else {
        first_with_slot(s, slot, i + 1)
    }
}

/// What the slot search finds: an index of a gamepad in that slot, past the
/// start, with none before it; or a guarantee that no gamepad sits there.
pub proof fn lemma_first_with_slot_props(s: Seq<TrackedGamepad>, slot: int, i0: int)
    requires
        0 <= i0,
    ensures
        (match first_with_slot(s, slot, i0) {
            Some(t) => i0 <= t < s.len() && s[t].slot as int == slot && (forall|j: int|
                i0 <= j < t ==> (#[trigger] s[j]).slot as int != slot),
            None => forall|j: int| i0 <= j < s.len() ==> (#[trigger] s[j]).slot as int != slot,
        }),
    decreases s.len() - i0,
{
    if i0 < s.len() && s[i0].slot as int != slot {
        lemma_first_with_slot_props(s, slot, i0 + 1);
    }
}

/// The gamepads left after a device disconnects, in their original order.
pub open spec fn without_id(s: Seq<TrackedGamepad>, id: usize) -> Seq<TrackedGamepad>
    decreases s.len(),
{
    if s.len() == 0 {
        Seq::empty()
    } else if s[0].device_id == id {
        without_id(s.drop_first(), id)
    } else {
        seq![s[0]] + without_id(s.drop_first(), id)
    }
}

/// Removing a device keeps a sub-multiset of the gamepads: everything left
/// was tracked before, there are no more of them, and distinct slots stay
/// distinct.
pub proof fn lemma_without_id_props(s: Seq<TrackedGamepad>, id: usize)
    ensures
        without_id(s, id).len() <= s.len(),
        forall|k: int|
            0 <= k < without_id(s, id).len() ==> s.contains(#[trigger] without_id(s, id)[k]),
        (forall|i: int, j: int| 0 <= i < j < s.len() ==> s[i].slot != s[j].slot) ==> (forall|
            i: int,
            j: int,
        |
            0 <= i < j < without_id(s, id).len() ==> without_id(s, id)[i].slot != without_id(
                s,
                id,
            )[j].slot),
    decreases s.len(),
{
    if s.len() > 0 {
        let rest = s.drop_first();
        lemma_without_id_props(rest, id);
        assert forall|k: int| 0 <= k < without_id(rest, id).len() implies s.contains(
            #[trigger] without_id(rest, id)[k],
        ) by {
            assert(rest.contains(without_id(rest, id)[k]));
            let m = choose|m: int| 0 <= m < rest.len() && rest[m] == without_id(rest, id)[k];
            assert(s[m + 1] == without_id(rest, id)[k]);
        }
        if forall|i: int, j: int| 0 <= i < j < s.len() ==> s[i].slot != s[j].slot {
            assert forall|i: int, j: int| 0 <= i < j < rest.len() implies rest[i].slot
                != rest[j].slot by {
                assert(s[i + 1] == rest[i] && s[j + 1] == rest[j]);
            }
            if s[0].device_id != id {
                let w = without_id(s, id);
                let wr = without_id(rest, id);
                assert forall|i: int, j: int| 0 <= i < j < w.len() implies w[i].slot
                    != w[j].slot by {
                    if i == 0 {
                        assert(w[j] == wr[j - 1]);
                        assert(rest.contains(wr[j - 1]));
                        let m = choose|m: int|
                            0 <= m < rest.len() && rest[m] == wr[j - 1];
                        assert(s[0].slot != s[m + 1].slot);
                    } else {
                        assert(w[i] == wr[i - 1] && w[j] == wr[j - 1]);
                    }
                }
            }
        }
    }
}

/// Manages the tracked gamepads, the slot-lock table, and the joystick
/// snapshot handed to the control loop.
pub struct GamepadManager {
    pub gamepads: Vec<TrackedGamepad>,
    /// One entry per slot 0..5: the device name the slot is locked to.
    pub locked_slots: Vec<Option<String>>,
}

impl GamepadManager {
    /// The lock table always covers exactly the six slots, and every tracked
    /// state keeps the fixed joystick shape.
    pub open spec fn wf(self) -> bool {
        self.locked_slots@.len() == 6 && (forall|i: int|
            0 <= i < self.gamepads@.len() ==> (#[trigger] self.gamepads@[i]).state.wf())
    }

    /// Some tracked gamepad sits in slot `s`.
    pub open spec fn occupied(self, s: int) -> bool {
        exists|i: int| 0 <= i < self.gamepads@.len() && (#[trigger] self.gamepads@[i]).slot == s
    }

    /// Slot `s` is locked to the given device name.
    pub open spec fn locked_match(self, name: Seq<char>, s: int) -> bool {
        self.locked_slots@[s] matches Some(nm) && nm@ == name
    }

    /// Slot `s` is neither occupied nor reserved by a lock.
    pub open spec fn slot_free(self, s: int) -> bool {
        !self.occupied(s) && self.locked_slots@[s] is None
    }

    /// The lowest slot at or past `s` locked to the given name.
    pub open spec fn locked_slot_for(self, name: Seq<char>, s: int) -> Option<int>
        decreases 6 - s,
    {
        if s < 0 || s >= 6 {
            None
        } else if self.locked_match(name, s) {
            Some(s)
        } else {
            self.locked_slot_for(name, s + 1)
        }
    }

    /// The lowest free slot at or past `s`.
    pub open spec fn first_free_from(self, s: int) -> Option<int>
        decreases 6 - s,
    {
        if s < 0 || s >= 6 {
            None
        } else if self.slot_free(s) {
            Some(s)
        } else {
            self.first_free_from(s + 1)
        }
    }

    /// The slot a connecting device receives: its locked slot when its name
    /// matches one, else the lowest free slot, else one past the tracked
    /// gamepads.
    pub open spec fn connect_slot(self, name: Seq<char>) -> int {
        match self.locked_slot_for(name, 0) {
            Some(s) => s,
            None => match self.first_free_from(0) {
                Some(s) => s,
                None => self.gamepads@.len() as int,
            },
        }
    }

    /// Whether a connect can respect the slot discipline: a matching locked
    /// slot is unoccupied, or, with no matching lock, some slot is free.
    pub open spec fn connect_ok(self, name: Seq<char>) -> bool {
        match self.locked_slot_for(name, 0) {
            Some(s) => !self.occupied(s),
            None => self.first_free_from(0) is Some,
        }
    }

    /// No two tracked gamepads share a slot.
    pub open spec fn slots_unique(self) -> bool {
        forall|i: int, j: int|
            0 <= i < j < self.gamepads@.len() ==> self.gamepads@[i].slot != self.gamepads@[j].slot
    }

    /// Every tracked gamepad sits in one of the six slots.
    pub open spec fn slots_in_range(self) -> bool {
        forall|i: int| 0 <= i < self.gamepads@.len() ==> (#[trigger] self.gamepads@[i]).slot < 6
    }

    /// No locked slot is occupied by a device whose name differs from its
    /// lock.
    pub open spec fn locks_respected(self) -> bool {
        forall|i: int|
            0 <= i < self.gamepads@.len() ==> ((#[trigger] self.gamepads@[i]).slot < 6 ==> (
            self.locked_slots@[self.gamepads@[i].slot as int] matches Some(nm) ==> nm@
                == self.gamepads@[i].name@))
    }

    /// The slot discipline: every tracked gamepad holds a distinct slot in
    /// the six-slot range, and no locked slot is occupied under another name.
    /// A fresh manager establishes it, and every operation's contract states
    /// that it is kept — unconditionally for disconnects, input events and
    /// lock changes, and under `connect_ok` and `move_lock_ok` for connects
    /// and user reorders, where a full table or a conflicting lock can force
    /// a violation.
    pub open spec fn slot_invariant(self) -> bool {
        self.slots_unique() && self.slots_in_range() && self.locks_respected()
    }

    /// A fresh manager with no gamepads and no locks.
    pub fn new() -> (r: Self)
        ensures
            r.wf(),
            r.slot_invariant(),
            r.gamepads@.len() == 0,
            forall|s: int| 0 <= s < 6 ==> r.locked_slots@[s] is None,
    {
        let mut locked_slots: Vec<Option<String>> = Vec::new();
        locked_slots.push(None);
        locked_slots.push(None);
        locked_slots.push(None);
        locked_slots.push(None);
        locked_slots.push(None);
        locked_slots.push(None);
        GamepadManager { gamepads: Vec::new(), locked_slots }
    }

    /// Find the slot locked to this device name, if any.
    fn find_locked_slot(&self, name: &String) -> (r: Option<usize>)
        requires
            self.wf(),
        ensures
            (match self.locked_slot_for(name@, 0) {
                Some(t) => r matches Some(s) && s == t,
                None => r is None,
            }),
    {
        let mut s: usize = 0;
        while s < 6
            invariant
                0 <= s <= 6,
                self.wf(),
                self.locked_slot_for(name@, 0) == self.locked_slot_for(name@, s as int),
            decreases 6 - s,
        {
            let hit = match &self.locked_slots[s] {
                Some(nm) => nm.eq(name),
                None => false,
            };
            if hit {
                return Some(s);
            }
            s = s + 1;
        }
        None
    }

    /// Whether any tracked gamepad sits in `slot`.
    fn slot_occupied(&self, slot: usize) -> (r: bool)
        ensures
            r == self.occupied(slot as int),
    {
        let n = self.gamepads.len();
        let mut i: usize = 0;
        while i < n
            invariant
                0 <= i <= n,
                n == self.gamepads@.len(),
                forall|j: int| 0 <= j < i ==> (#[trigger] self.gamepads@[j]).slot != slot,
            decreases n - i,
        {
            if self.gamepads[i].slot == slot {
                return true;
            }
            i = i + 1;
        }
        false
    }

    /// The lowest slot that is neither occupied nor lock-reserved, or the
    /// count of tracked gamepads when all six are taken.
    fn first_available_slot(&self) -> (r: usize)
        requires
            self.wf(),
        ensures
            (match self.first_free_from(0) {
                Some(t) => r == t,
                None => r == self.gamepads@.len(),
            }),
    {
        let mut s: usize = 0;
        while s < 6
            invariant
                0 <= s <= 6,
                self.wf(),
                self.first_free_from(0) == self.first_free_from(s as int),
            decreases 6 - s,
        {
            if !self.slot_occupied(s) && self.locked_slots[s].is_none() {
                return s;
            }
            s = s + 1;
        }
        self.gamepads.len()
    }

    /// Track a newly connected device: restore its locked slot when its name
    /// matches one, else take the lowest free slot, else append past the
    /// tracked gamepads. The slot discipline is kept whenever the connect
    /// can respect it (`connect_ok`).
    pub fn handle_connected(&mut self, device_id: usize, name: String)
        requires
            old(self).wf(),
        ensures
            final(self).wf(),
            final(self).locked_slots@ == old(self).locked_slots@,
            final(self).gamepads@.len() == old(self).gamepads@.len() + 1,
            final(self).gamepads@.subrange(0, old(self).gamepads@.len() as int) == old(self).gamepads@,
            ({
                let g = final(self).gamepads@.last();
                &&& g.device_id == device_id
                &&& g.name@ == name@
                &&& g.slot == old(self).connect_slot(name@)
                &&& g.state.axes@ == Seq::new(6, |i: int| 0i8)
                &&& g.state.buttons@ == Seq::new(16, |i: int| false)
                &&& g.state.povs@ == seq![-1i16]
                &&& !g.dpad_up && !g.dpad_right && !g.dpad_down && !g.dpad_left
            }),
            (old(self).slot_invariant() && old(self).connect_ok(name@))
                ==> final(self).slot_invariant(),
    {
        let slot = match self.find_locked_slot(&name) {
            Some(s) => s,
            None => self.first_available_slot(),
        };
        let g = TrackedGamepad {
            device_id,
            name,
            slot,
            state: JoystickState::default(),
            dpad_up: false,
            dpad_right: false,
            dpad_down: false,
            dpad_left: false,
        };
        self.gamepads.push(g);
        proof {
            assert(final(self).gamepads@.subrange(0, old(self).gamepads@.len() as int)
                =~= old(self).gamepads@);
            if old(self).slot_invariant() && old(self).connect_ok(name@) {
                lemma_locked_slot_for_props(*old(self), name@, 0);
                lemma_first_free_props(*old(self), 0);
                let n = old(self).gamepads@.len() as int;
                assert forall|i: int, j: int|
                    0 <= i < j < self.gamepads@.len() implies self.gamepads@[i].slot
                    != self.gamepads@[j].slot by {
                    if j < n {
                        assert(self.gamepads@[i] == old(self).gamepads@[i]);
                        assert(self.gamepads@[j] == old(self).gamepads@[j]);
                    } else {
                        assert(self.gamepads@[i] == old(self).gamepads@[i]);
                        assert(!old(self).occupied(self.gamepads@[j].slot as int));
                    }
                }
                assert forall|i: int|
                    0 <= i < self.gamepads@.len() implies (#[trigger] self.gamepads@[i]).slot
                    < 6 by {
                    if i < n {
                        assert(self.gamepads@[i] == old(self).gamepads@[i]);
                    }
                }
                assert forall|i: int|
                    0 <= i < self.gamepads@.len() implies ((#[trigger] self.gamepads@[i]).slot < 6
                    ==> (self.locked_slots@[self.gamepads@[i].slot as int] matches Some(nm)
                    ==> nm@ == self.gamepads@[i].name@)) by {
                    if i < n {
                        assert(self.gamepads@[i] == old(self).gamepads@[i]);
                    }
                }
            }
        }
    }
    /// Drop a disconnected device's record; any slot lock stays reserved.
    pub fn handle_disconnected(&mut self, device_id: usize)
        requires
            old(self).wf(),
        ensures
            final(self).wf(),
            final(self).locked_slots@ == old(self).locked_slots@,
            final(self).gamepads@ == without_id(old(self).gamepads@, device_id),
            old(self).slot_invariant() ==> final(self).slot_invariant(),
    {
        proof {
            assert(self.gamepads@.skip(0) =~= self.gamepads@);
            assert(self.gamepads@.take(0) + without_id(self.gamepads@.skip(0), device_id)
                =~= without_id(old(self).gamepads@, device_id));
        }
        let mut i: usize = 0;
        while i < self.gamepads.len()
            invariant
                0 <= i <= self.gamepads@.len(),
                self.locked_slots@ == old(self).locked_slots@,
                without_id(old(self).gamepads@, device_id) == self.gamepads@.take(i as int)
                    + without_id(self.gamepads@.skip(i as int), device_id),
                forall|k: int|
                    0 <= k < self.gamepads@.len() ==> old(self).gamepads@.contains(
                        #[trigger] self.gamepads@[k],
                    ),
            decreases self.gamepads@.len() - i,
        {
            let ghost cur = self.gamepads@;
            if self.gamepads[i].device_id == device_id {
                self.gamepads.remove(i);
                proof {
                    assert(cur.skip(i as int).drop_first() =~= cur.skip(i as int + 1));
                    assert(without_id(cur.skip(i as int), device_id) == without_id(
                        cur.skip(i as int + 1),
                        device_id,
                    ));
                    assert(self.gamepads@.take(i as int) =~= cur.take(i as int));
                    assert(self.gamepads@.skip(i as int) =~= cur.skip(i as int + 1));
                    assert forall|k: int|
                        0 <= k < self.gamepads@.len() implies old(self).gamepads@.contains(
                        #[trigger] self.gamepads@[k],
                    ) by {
                        if k < i {
                            assert(self.gamepads@[k] == cur[k]);
                        } else {
                            assert(self.gamepads@[k] == cur[k + 1]);
                        }
                    }
                }
            } else {
                proof {
                    assert(cur.skip(i as int).drop_first() =~= cur.skip(i as int + 1));
                    assert(cur.skip(i as int)[0] == cur[i as int]);
                    assert(without_id(cur.skip(i as int), device_id) == seq![cur[i as int]]
                        + without_id(cur.skip(i as int + 1), device_id));
                    assert(cur.take(i as int + 1) =~= cur.take(i as int) + seq![cur[i as int]]);
                    assert(cur.take(i as int + 1) + without_id(cur.skip(i as int + 1), device_id)
                        =~= cur.take(i as int) + (seq![cur[i as int]] + without_id(
                        cur.skip(i as int + 1),
                        device_id,
                    )));
                }
                i = i + 1;
            }
        }
        proof {
            assert(self.gamepads@.take(self.gamepads@.len() as int) =~= self.gamepads@);
            assert(self.gamepads@.skip(self.gamepads@.len() as int) =~= Seq::<
                TrackedGamepad,
            >::empty());
            assert(without_id(Seq::<TrackedGamepad>::empty(), device_id)
                =~= Seq::<TrackedGamepad>::empty());
            assert(self.gamepads@ =~= without_id(old(self).gamepads@, device_id));
            if old(self).slot_invariant() {
                lemma_without_id_props(old(self).gamepads@, device_id);
                assert forall|k: int|
                    0 <= k < self.gamepads@.len() implies (#[trigger] self.gamepads@[k]).slot < 6
                    by {
                    assert(old(self).gamepads@.contains(self.gamepads@[k]));
                }
                assert forall|k: int|
                    0 <= k < self.gamepads@.len() implies ((#[trigger] self.gamepads@[k]).slot < 6
                    ==> (self.locked_slots@[self.gamepads@[k].slot as int] matches Some(nm)
                    ==> nm@ == self.gamepads@[k].name@)) by {
                    assert(old(self).gamepads@.contains(self.gamepads@[k]));
                }
            }
            assert forall|k: int|
                0 <= k < self.gamepads@.len() implies (#[trigger] self.gamepads@[k]).state.wf() by {
                assert(old(self).gamepads@.contains(self.gamepads@[k]));
            }
        }
    }

    /// Record a new value for one axis of the device, if it is tracked.
    pub fn handle_axis_event(&mut self, device_id: usize, axis: PadAxis, value: i8)
        requires
            old(self).wf(),
        ensures
            final(self).wf(),
            final(self).locked_slots@ == old(self).locked_slots@,
            final(self).gamepads@.len() == old(self).gamepads@.len(),
            (match first_with_id(old(self).gamepads@, device_id, 0) {
                None => final(self).gamepads@ == old(self).gamepads@,
                Some(i) => ({
                    &&& forall|j: int|
                        0 <= j < old(self).gamepads@.len() && j != i ==> final(self).gamepads@[j]
                            == old(self).gamepads@[j]
                    &&& ({
                        let g = final(self).gamepads@[i];
                        let og = old(self).gamepads@[i];
                        &&& g.device_id == og.device_id
                        &&& g.name == og.name
                        &&& g.slot == og.slot
                        &&& g.dpad_up == og.dpad_up
                        &&& g.dpad_right == og.dpad_right
                        &&& g.dpad_down == og.dpad_down
                        &&& g.dpad_left == og.dpad_left
                        &&& g.state.axes@ == og.state.axes@.update(axis_index_spec(axis), value)
                        &&& g.state.buttons@ == og.state.buttons@
                        &&& g.state.povs@ == og.state.povs@
                    })
                }),
            }),
            old(self).slot_invariant() ==> final(self).slot_invariant(),
    {
        let idx = axis_index(axis);
        let n = self.gamepads.len();
        let mut i: usize = 0;
        while i < n
            invariant
                0 <= i <= n,
                n == self.gamepads@.len(),
                idx == axis_index_spec(axis) && idx < 6,
                old(self).wf(),
                *self == *old(self),
                first_with_id(old(self).gamepads@, device_id, 0) == first_with_id(
                    old(self).gamepads@,
                    device_id,
                    i as int,
                ),
            decreases n - i,
        {
            if self.gamepads[i].device_id == device_id {
                proof {
                    assert(old(self).gamepads@[i as int].state.wf());
                    assert(self.gamepads@[i as int].state.wf());
                }
                self.gamepads[i].state.axes[idx] = value;
                return ;
            }
            i = i + 1;
        }
    }

    /// Record a new state for one button of the device, if it is tracked:
    /// the direction-pad buttons latch their flags and re-derive the POV
    /// angle; every other button sets its bit, and the POV angle is
    /// re-derived from the unchanged flags.
    pub fn handle_button_event(&mut self, device_id: usize, button: PadButton, pressed: bool)
        requires
            old(self).wf(),
        ensures
            final(self).wf(),
            final(self).locked_slots@ == old(self).locked_slots@,
            final(self).gamepads@.len() == old(self).gamepads@.len(),
            (match first_with_id(old(self).gamepads@, device_id, 0) {
                None => final(self).gamepads@ == old(self).gamepads@,
                Some(i) => ({
                    &&& forall|j: int|
                        0 <= j < old(self).gamepads@.len() && j != i ==> final(self).gamepads@[j]
                            == old(self).gamepads@[j]
                    &&& ({
                        let g = final(self).gamepads@[i];
                        let og = old(self).gamepads@[i];
                        &&& g.device_id == og.device_id
                        &&& g.name == og.name
                        &&& g.slot == og.slot
                        &&& g.dpad_up == (if button == PadButton::DpadUp {
                            pressed
                        } else {
                            og.dpad_up
                        })
                        &&& g.dpad_right == (if button == PadButton::DpadRight {
                            pressed
                        } else {
                            og.dpad_right
                        })
                        &&& g.dpad_down == (if button == PadButton::DpadDown {
                            pressed
                        } else {
                            og.dpad_down
                        })
                        &&& g.dpad_left == (if button == PadButton::DpadLeft {
                            pressed
                        } else {
                            og.dpad_left
                        })
                        &&& g.state.buttons@ == (match button_index_spec(button) {
                            Some(bi) => og.state.buttons@.update(bi, pressed),
                            None => og.state.buttons@,
                        })
                        &&& g.state.povs@ == seq![
                            pov_spec(g.dpad_up, g.dpad_right, g.dpad_down, g.dpad_left),
                        ]
                        &&& g.state.axes@ == og.state.axes@
                    })
                }),
            }),
            old(self).slot_invariant() ==> final(self).slot_invariant(),
    {
        let n = self.gamepads.len();
        let mut i: usize = 0;
        while i < n
            invariant
                0 <= i <= n,
                n == self.gamepads@.len(),
                old(self).wf(),
                *self == *old(self),
                first_with_id(old(self).gamepads@, device_id, 0) == first_with_id(
                    old(self).gamepads@,
                    device_id,
                    i as int,
                ),
            decreases n - i,
        {
            if self.gamepads[i].device_id == device_id {
                proof {
                    assert(old(self).gamepads@[i as int].state.wf());
                    assert(self.gamepads@[i as int].state.wf());
                }
                match button {
                    PadButton::DpadUp => {
                        self.gamepads[i].dpad_up = pressed;
                    },
                    PadButton::DpadRight => {
                        self.gamepads[i].dpad_right = pressed;
                    },
                    PadButton::DpadDown => {
                        self.gamepads[i].dpad_down = pressed;
                    },
                    PadButton::DpadLeft => {
                        self.gamepads[i].dpad_left = pressed;
                    },
                    _ => {
                        if let Some(bi) = button_index(button) {
                            self.gamepads[i].state.buttons[bi] = pressed;
                        }
                    },
                }
                let up = self.gamepads[i].dpad_up;
                let right = self.gamepads[i].dpad_right;
                let down = self.gamepads[i].dpad_down;
                let left = self.gamepads[i].dpad_left;
                self.gamepads[i].state.povs[0] = dpad_to_pov(up, right, down, left);
                proof {
                    let g = self.gamepads@[i as int];
                    let og = old(self).gamepads@[i as int];
                    assert(g.state.povs@ =~= seq![
                        pov_spec(g.dpad_up, g.dpad_right, g.dpad_down, g.dpad_left),
                    ]);
                }
                return ;
            }
            i = i + 1;
        }
    }

    /// The first index of a gamepad sitting in `slot`, if any.
    fn find_slot_index(&self, slot: usize) -> (r: Option<usize>)
        ensures
            (match first_with_slot(self.gamepads@, slot as int, 0) {
                Some(t) => r matches Some(i) && i == t,
                None => r is None,
            }),
    {
        let n = self.gamepads.len();
        let mut i: usize = 0;
        while i < n
            invariant
                0 <= i <= n,
                n == self.gamepads@.len(),
                first_with_slot(self.gamepads@, slot as int, 0) == first_with_slot(
                    self.gamepads@,
                    slot as int,
                    i as int,
                ),
            decreases n - i,
        {
            if self.gamepads[i].slot == slot {
                return Some(i);
            }
            i = i + 1;
        }
        None
    }

    /// Build the joystick snapshot for the control loop: one entry per slot
    /// up to the highest occupied one, each occupied slot carrying its
    /// gamepad's state and every other slot a centered default.
    pub fn compute_snapshot(&self) -> (r: Vec<JoystickState>)
        requires
            self.wf(),
            self.slots_unique(),
            self.slots_in_range(),
        ensures
            1 <= r@.len() <= 6,
            forall|i: int|
                0 <= i < self.gamepads@.len() ==> (#[trigger] self.gamepads@[i]).slot < r@.len(),
            forall|s: int| 0 <= s < r@.len() ==> (#[trigger] r@[s]).wf(),
            forall|s: int|
                0 <= s < r@.len() ==> (match first_with_slot(self.gamepads@, s, 0) {
                    Some(i) => js_eq(#[trigger] r@[s], self.gamepads@[i].state),
                    None => js_default_shaped(#[trigger] r@[s]),
                }),
    {
        let n = self.gamepads.len();

        let mut max_slot: usize = 0;
        let mut i: usize = 0;
        while i < n
            invariant
                0 <= i <= n,
                n == self.gamepads@.len(),
                self.slots_in_range(),
                max_slot < 6,
                forall|j: int| 0 <= j < i ==> (#[trigger] self.gamepads@[j]).slot <= max_slot,
            decreases n - i,
        {
            if self.gamepads[i].slot > max_slot {
                max_slot = self.gamepads[i].slot;
            }
            i = i + 1;
        }

        let width = max_slot + 1;
        let mut r: Vec<JoystickState> = Vec::new();
        let mut k: usize = 0;
        while k < width
            invariant
                0 <= k <= width,
                width <= 6,
                r@.len() == k,
                forall|s: int| 0 <= s < k ==> js_default_shaped(#[trigger] r@[s]),
            decreases width - k,
        {
            r.push(JoystickState::default());
            k = k + 1;
        }

        let mut i: usize = 0;
        while i < n
            invariant
                0 <= i <= n,
                n == self.gamepads@.len(),
                self.wf(),
                self.slots_unique(),
                self.slots_in_range(),
                r@.len() == width,
                1 <= width <= 6,
                forall|j: int| 0 <= j < n ==> (#[trigger] self.gamepads@[j]).slot < width,
                forall|j: int|
                    0 <= j < i ==> ((#[trigger] self.gamepads@[j]).slot < r@.len() ==> js_eq(
                        r@[self.gamepads@[j].slot as int],
                        self.gamepads@[j].state,
                    )),
                forall|s: int|
                    0 <= s < r@.len() && !(exists|j: int|
                        0 <= j < i && (#[trigger] self.gamepads@[j]).slot as int == s)
                        ==> js_default_shaped(#[trigger] r@[s]),
            decreases n - i,
        {
            let slot = self.gamepads[i].slot;
            assert(slot < width);
            r[slot] = self.gamepads[i].state.duplicate();
            proof {
                assert forall|j: int|
                    0 <= j < i + 1 implies ((#[trigger] self.gamepads@[j]).slot < r@.len()
                    ==> js_eq(r@[self.gamepads@[j].slot as int], self.gamepads@[j].state)) by {
                    if j < i {
                        assert(self.gamepads@[j].slot != self.gamepads@[i as int].slot);
                    }
                }
            }
            i = i + 1;
        }

        proof {
            assert forall|s: int|
                0 <= s < r@.len() implies (match first_with_slot(self.gamepads@, s, 0) {
                Some(i) => js_eq(#[trigger] r@[s], self.gamepads@[i].state),
                None => js_default_shaped(#[trigger] r@[s]),
            }) by {
                lemma_first_with_slot_props(self.gamepads@, s, 0);
                match first_with_slot(self.gamepads@, s, 0) {
                    Some(t) => {},
                    None => {},
                }
            }
        }
        r
    }

    /// One slot's lock, if any, names this device.
    pub open spec fn lock_allows(self, s: int, name: Seq<char>) -> bool {
        self.locked_slots@[s] matches Some(nm) ==> nm@ == name
    }

    /// A user reorder keeps the locks coherent: the devices moved into
    /// locked slots carry the locked names.
    pub open spec fn move_lock_ok(self, from_slot: usize, to_slot: usize) -> bool {
        if from_slot == to_slot || from_slot >= 6 || to_slot >= 6 {
            true
        } else {
            match (first_with_slot(self.gamepads@, from_slot as int, 0), first_with_slot(
                self.gamepads@,
                to_slot as int,
                0,
            )) {
                (Some(fi), Some(ti)) => self.lock_allows(to_slot as int, self.gamepads@[fi].name@)
                    && self.lock_allows(from_slot as int, self.gamepads@[ti].name@),
                (Some(fi), None) => self.lock_allows(to_slot as int, self.gamepads@[fi].name@),
                _ => true,
            }
        }
    }

    /// Move the gamepad in `from_slot` to `to_slot`: swap when both slots
    /// are occupied, move when the target is empty, do nothing otherwise or
    /// when either index lies outside the six slots.
    pub fn move_to_slot(&mut self, from_slot: usize, to_slot: usize)
        requires
            old(self).wf(),
        ensures
            final(self).wf(),
            final(self).locked_slots@ == old(self).locked_slots@,
            final(self).gamepads@.len() == old(self).gamepads@.len(),
            (from_slot == to_slot || from_slot >= 6 || to_slot >= 6) ==> final(self).gamepads@
                == old(self).gamepads@,
            (from_slot != to_slot && from_slot < 6 && to_slot < 6) ==> (match (first_with_slot(
                old(self).gamepads@,
                from_slot as int,
                0,
            ), first_with_slot(old(self).gamepads@, to_slot as int, 0)) {
                (Some(fi), Some(ti)) => (forall|j: int|
                    0 <= j < old(self).gamepads@.len() && j != fi && j != ti ==> final(self).gamepads@[j] == old(self).gamepads@[j]) && same_but_slot(
                    final(self).gamepads@[fi],
                    old(self).gamepads@[fi],
                    to_slot as int,
                ) && same_but_slot(
                    final(self).gamepads@[ti],
                    old(self).gamepads@[ti],
                    from_slot as int,
                ),
                (Some(fi), None) => (forall|j: int|
                    0 <= j < old(self).gamepads@.len() && j != fi ==> final(self).gamepads@[j]
                        == old(self).gamepads@[j]) && same_but_slot(
                    final(self).gamepads@[fi],
                    old(self).gamepads@[fi],
                    to_slot as int,
                ),
                (None, _) => final(self).gamepads@ == old(self).gamepads@,
            }),
            (old(self).slot_invariant() && old(self).move_lock_ok(from_slot, to_slot)) ==> final(self).slot_invariant(),
    {
        if from_slot == to_slot || from_slot >= 6 || to_slot >= 6 {
            return ;
        }
        let from_idx = self.find_slot_index(from_slot);
        let to_idx = self.find_slot_index(to_slot);
        proof {
            lemma_first_with_slot_props(self.gamepads@, from_slot as int, 0);
            lemma_first_with_slot_props(self.gamepads@, to_slot as int, 0);
        }
        match (from_idx, to_idx) {
            (Some(fi), Some(ti)) => {
                self.gamepads[fi].slot = to_slot;
                self.gamepads[ti].slot = from_slot;
                proof {
                    lemma_move_keeps_invariant(*old(self), *self, from_slot, to_slot);
                }
            },
            (Some(fi), None) => {
                self.gamepads[fi].slot = to_slot;
                proof {
                    lemma_move_keeps_invariant(*old(self), *self, from_slot, to_slot);
                }
            },
            _ => {},
        }
    }

    /// Lock the slot of a tracked gamepad to that gamepad's name.
    pub fn lock_slot(&mut self, slot: usize)
        requires
            old(self).wf(),
        ensures
            final(self).wf(),
            final(self).gamepads@ == old(self).gamepads@,
            final(self).locked_slots@.len() == 6,
            slot < 6 ==> (first_with_slot(old(self).gamepads@, slot as int, 0) matches Some(i)
                ==> ((forall|t: int|
                0 <= t < 6 && t != slot ==> final(self).locked_slots@[t] == old(
                    self,
                ).locked_slots@[t]) && (final(self).locked_slots@[slot as int] matches Some(nm)
                && nm@ == old(self).gamepads@[i].name@))),
            (!(slot < 6 && first_with_slot(old(self).gamepads@, slot as int, 0) is Some) ==> final(self).locked_slots@ == old(self).locked_slots@),
            old(self).slot_invariant() ==> final(self).slot_invariant(),
    {
        if slot >= 6 {
            return ;
        }
        if let Some(i) = self.find_slot_index(slot) {
            proof {
                lemma_first_with_slot_props(self.gamepads@, slot as int, 0);
            }
            let nm = self.gamepads[i].name.clone();
            self.locked_slots[slot] = Some(nm);
            proof {
                if old(self).slot_invariant() {
                    assert forall|k: int|
                        0 <= k < self.gamepads@.len() implies ((#[trigger] self.gamepads@[k]).slot
                        < 6 ==> (self.locked_slots@[self.gamepads@[k].slot as int] matches Some(nm2)
                        ==> nm2@ == self.gamepads@[k].name@)) by {
                        if self.gamepads@[k].slot == slot {
                            if k != i as int {
                                assert(self.gamepads@[k].slot == self.gamepads@[i as int].slot);
                            }
                        }
                    }
                }
            }
        }
    }

    /// Clear a slot's lock.
    pub fn unlock_slot(&mut self, slot: usize)
        requires
            old(self).wf(),
        ensures
            final(self).wf(),
            final(self).gamepads@ == old(self).gamepads@,
            final(self).locked_slots@.len() == 6,
            slot < 6 ==> ((forall|t: int|
                0 <= t < 6 && t != slot ==> final(self).locked_slots@[t] == old(self).locked_slots@[t]) && final(self).locked_slots@[slot as int] is None),
            slot >= 6 ==> final(self).locked_slots@ == old(self).locked_slots@,
            old(self).slot_invariant() ==> final(self).slot_invariant(),
    {
        if slot < 6 {
            self.locked_slots[slot] = None;
        }
    }

    /// The slot-lock table: one optional device name per slot.
    pub fn get_locked_slots(&self) -> (r: &Vec<Option<String>>)
        ensures
            r@ == self.locked_slots@,
    {
        &self.locked_slots
    }

    /// How many gamepads are tracked.
    pub fn gamepad_count(&self) -> (r: usize)
        ensures
            r == self.gamepads@.len(),
    {
        self.gamepads.len()
    }

    /// The user-interface picture of every tracked gamepad, in tracking
    /// order, each tagged with whether its slot is locked.
    pub fn get_gamepad_update(&self) -> (r: GamepadUpdate)
        requires
            self.wf(),
        ensures
            r.gamepads@.len() == self.gamepads@.len(),
            forall|k: int|
                0 <= k < self.gamepads@.len() ==> ({
                    let gi = #[trigger] r.gamepads@[k];
                    let g = self.gamepads@[k];
                    &&& gi.id == g.slot
                    &&& gi.name@ == g.name@
                    &&& gi.slot == g.slot
                    &&& gi.axes@ == g.state.axes@
                    &&& gi.buttons@ == g.state.buttons@
                    &&& gi.povs@ == g.state.povs@
                    &&& gi.locked == (g.slot < 6 && self.locked_slots@[g.slot as int] is Some)
                }),
    {
        let n = self.gamepads.len();
        let mut infos: Vec<GamepadInfo> = Vec::new();
        let mut i: usize = 0;
        while i < n
            invariant
                0 <= i <= n,
                n == self.gamepads@.len(),
                self.wf(),
                infos@.len() == i,
                forall|k: int|
                    0 <= k < i ==> ({
                        let gi = #[trigger] infos@[k];
                        let g = self.gamepads@[k];
                        &&& gi.id == g.slot
                        &&& gi.name@ == g.name@
                        &&& gi.slot == g.slot
                        &&& gi.axes@ == g.state.axes@
                        &&& gi.buttons@ == g.state.buttons@
                        &&& gi.povs@ == g.state.povs@
                        &&& gi.locked == (g.slot < 6 && self.locked_slots@[g.slot as int] is Some)
                    }),
            decreases n - i,
        {
            let g = &self.gamepads[i];
            let st = g.state.duplicate();
            let locked = g.slot < 6 && self.locked_slots[g.slot].is_some();
            infos.push(
                GamepadInfo {
                    id: g.slot,
                    name: g.name.clone(),
                    slot: g.slot,
                    axes: st.axes,
                    buttons: st.buttons,
                    povs: st.povs,
                    locked,
                },
            );
            i = i + 1;
        }
        GamepadUpdate { gamepads: infos }
    }
}

/// Two joystick states carry the same values.
pub open spec fn js_eq(a: JoystickState, b: JoystickState) -> bool {
    a.axes@ == b.axes@ && a.buttons@ == b.buttons@ && a.povs@ == b.povs@
}

/// A joystick state is centered and released: zero axes, no buttons, POV
/// released.
pub open spec fn js_default_shaped(a: JoystickState) -> bool {
    a.axes@ == Seq::new(6, |i: int| 0i8) && a.buttons@ == Seq::new(16, |i: int| false) && a.povs@
        == seq![-1i16]
}

/// One gamepad equals another up to its slot.
pub open spec fn same_but_slot(g: TrackedGamepad, og: TrackedGamepad, slot: int) -> bool {
    g.device_id == og.device_id && g.name == og.name && g.state == og.state && g.dpad_up
        == og.dpad_up && g.dpad_right == og.dpad_right && g.dpad_down == og.dpad_down && g.dpad_left
        == og.dpad_left && g.slot as int == slot
}

/// Reassigning the slots of the gamepads found in `from_slot` and `to_slot`
/// keeps the slot discipline whenever the locks allow the move.
proof fn lemma_move_keeps_invariant(
    pre: GamepadManager,
    post: GamepadManager,
    from_slot: usize,
    to_slot: usize,
)
    requires
        from_slot != to_slot,
        from_slot < 6,
        to_slot < 6,
        post.locked_slots@ == pre.locked_slots@,
        post.gamepads@.len() == pre.gamepads@.len(),
        (match (first_with_slot(pre.gamepads@, from_slot as int, 0), first_with_slot(
            pre.gamepads@,
            to_slot as int,
            0,
        )) {
            (Some(fi), Some(ti)) => (forall|j: int|
                0 <= j < pre.gamepads@.len() && j != fi && j != ti ==> post.gamepads@[j]
                    == pre.gamepads@[j]) && same_but_slot(
                post.gamepads@[fi],
                pre.gamepads@[fi],
                to_slot as int,
            ) && same_but_slot(post.gamepads@[ti], pre.gamepads@[ti], from_slot as int),
            (Some(fi), None) => (forall|j: int|
                0 <= j < pre.gamepads@.len() && j != fi ==> post.gamepads@[j] == pre.gamepads@[j])
                && same_but_slot(post.gamepads@[fi], pre.gamepads@[fi], to_slot as int),
            (None, _) => post.gamepads@ == pre.gamepads@,
        }),
    ensures
        (pre.slot_invariant() && pre.move_lock_ok(from_slot, to_slot)) ==> post.slot_invariant(),
{
    if pre.slot_invariant() && pre.move_lock_ok(from_slot, to_slot) {
        lemma_first_with_slot_props(pre.gamepads@, from_slot as int, 0);
        lemma_first_with_slot_props(pre.gamepads@, to_slot as int, 0);
        let n = pre.gamepads@.len() as int;
        match (first_with_slot(pre.gamepads@, from_slot as int, 0), first_with_slot(
            pre.gamepads@,
            to_slot as int,
            0,
        )) {
            (Some(fi), Some(ti)) => {
                assert forall|i: int, j: int| 0 <= i < j < n implies post.gamepads@[i].slot
                    != post.gamepads@[j].slot by {
                    if i != fi && i != ti && j != fi && j != ti {
                        assert(post.gamepads@[i] == pre.gamepads@[i]);
                        assert(post.gamepads@[j] == pre.gamepads@[j]);
                    }
                }
                assert forall|i: int|
                    0 <= i < n implies (#[trigger] post.gamepads@[i]).slot < 6 by {
                    if i != fi && i != ti {
                        assert(post.gamepads@[i] == pre.gamepads@[i]);
                    }
                }
                assert forall|i: int|
                    0 <= i < n implies ((#[trigger] post.gamepads@[i]).slot < 6 ==> (
                    post.locked_slots@[post.gamepads@[i].slot as int] matches Some(nm) ==> nm@
                        == post.gamepads@[i].name@)) by {
                    if i != fi && i != ti {
                        assert(post.gamepads@[i] == pre.gamepads@[i]);
                    }
                }
            },
            (Some(fi), None) => {
                assert forall|i: int, j: int| 0 <= i < j < n implies post.gamepads@[i].slot
                    != post.gamepads@[j].slot by {
                    if i != fi && j != fi {
                        assert(post.gamepads@[i] == pre.gamepads@[i]);
                        assert(post.gamepads@[j] == pre.gamepads@[j]);
                    }
                }
                assert forall|i: int|
                    0 <= i < n implies (#[trigger] post.gamepads@[i]).slot < 6 by {
                    if i != fi {
                        assert(post.gamepads@[i] == pre.gamepads@[i]);
                    }
                }
                assert forall|i: int|
                    0 <= i < n implies ((#[trigger] post.gamepads@[i]).slot < 6 ==> (
                    post.locked_slots@[post.gamepads@[i].slot as int] matches Some(nm) ==> nm@
                        == post.gamepads@[i].name@)) by {
                    if i != fi {
                        assert(post.gamepads@[i] == pre.gamepads@[i]);
                    }
                }
            },
            (None, _) => {
                assert(post.gamepads@ =~= pre.gamepads@);
            },
        }
    }
}

/// A matching locked slot found by the search is in range and matches.
proof fn lemma_locked_slot_for_props(m: GamepadManager, name: Seq<char>, s0: int)
    ensures
        m.locked_slot_for(name, s0) matches Some(s) ==> s0 <= s < 6 && m.locked_match(name, s),
    decreases 6 - s0,
{
    if 0 <= s0 < 6 && !m.locked_match(name, s0) {
        lemma_locked_slot_for_props(m, name, s0 + 1);
    }
}

/// A free slot found by the search is in range and free.
proof fn lemma_first_free_props(m: GamepadManager, s0: int)
    ensures
        m.first_free_from(s0) matches Some(s) ==> s0 <= s < 6 && m.slot_free(s),
    decreases 6 - s0,
{
    if 0 <= s0 < 6 && !m.slot_free(s0) {
        lemma_first_free_props(m, s0 + 1);
    }
}

} // verus!
