//! A device session: capability lists and calibration captured at open
//! time, the resolved mapping, and the decoding of native event records
//! into canonical events, including the synthesis of digital direction-pad
//! presses from the analog hat axes.
//!
//! Everything here computes on plain values; reading the device and the
//! ioctl queries that fill [`DeviceData`] and the calibration belong to
//! the embedding program.

use crate::axis::{axis_value, spec_axis_den, spec_axis_num, AbsInfo};
use crate::ev;
use crate::ev::{spec_axis_from_u16, spec_button_from_u16, Axis, AxisValue, Button, Event};
use crate::identity::{create_uuid, spec_identity};
use crate::mapping::{
    db_get,
    spec_map_get,
    spec_map_rev_get,
    spec_parse,
    Kind,
    Mapping,
    MappingDb,
};
use vstd::prelude::*;

verus! {

/// Connection state of a session slot. `NotObserved` is only ever the
/// state of the sentinel returned for out-of-range queries; it is never
/// stored in the collection.
#[derive(Clone, Copy, Debug, PartialEq, Eq, Structural)]
pub enum Status {
    Connected,
    Disconnected,
    NotObserved,
}

/// Power source information; the underlying query is not in scope, so
/// only `Unknown` is ever reported.
#[derive(Clone, Copy, Debug, PartialEq, Eq, Structural)]
pub enum PowerInfo {
    Unknown,
}

/// One fixed-layout native event record, as read from a device: its
/// class, raw code and value. The record's timestamp carries no decoding
/// information and is dropped at the read boundary.
#[derive(Clone, Copy, Debug, PartialEq, Eq, Structural)]
pub struct InputRecord {
    pub ev_type: u16,
    pub code: u16,
    pub value: i32,
}

/// Whether bit `n` is set in a little-endian byte-array bitset.
pub open spec fn spec_test_bit(arr: Seq<u8>, n: nat) -> bool {
    n / 8 < arr.len() && ((arr[(n / 8) as int] >> ((n % 8) as u8)) & 1) != 0
}

/// Tests one bit of a capability bitset.
pub fn test_bit(n: u16, array: &[u8]) -> (r: bool)
    requires
        (n as nat) / 8 < array@.len(),
    ensures
        r == spec_test_bit(array@, n as nat),
{
    let byte = array[(n / 8) as usize];
    let sh: u8 = (n % 8) as u8;
    ((byte >> sh) & 1) != 0
}

/// The ascending list of codes below `n` whose bit is set.
pub open spec fn spec_bits_codes(bits: Seq<u8>, n: nat) -> Seq<u16>
    decreases n,
{
    if n == 0 {
        Seq::<u16>::empty()
    } else {
        spec_bits_codes(bits, (n - 1) as nat) + if spec_test_bit(bits, (n - 1) as nat) {
            seq![((n - 1) as u16)]
        } else {
            Seq::<u16>::empty()
        }
    }
}

/// Derives the ascending raw code list from a capability bitset: the
/// codes whose bit is set, smallest first.
pub fn bits_codes(bits: &Vec<u8>) -> (r: Vec<u16>)
    requires
        bits@.len() <= 8192,
    ensures
        r@ == spec_bits_codes(bits@, bits@.len() * 8),
{
    let mut r: Vec<u16> = Vec::new();
    let total = bits.len() * 8;
    let mut bit: usize = 0;
    while bit < total
        invariant
            0 <= bit <= total,
            total == bits@.len() * 8,
            bits@.len() <= 8192,
            r@ == spec_bits_codes(bits@, bit as nat),
        decreases total - bit,
    {
        if test_bit(bit as u16, bits.as_slice()) {
            r.push(bit as u16);
            proof {
                assert(r@ =~= spec_bits_codes(bits@, (bit + 1) as nat));
            }
        } else {
            proof {
                assert(r@ =~= spec_bits_codes(bits@, (bit + 1) as nat));
            }
        }
        bit = bit + 1;
    }
    r
}

/// Everything the embedding program reads off a candidate device before a
/// session can be built: handle number, node path, hardware-reported name,
/// the identity-defining fields, and the raw capability bitsets (the
/// force-feedback bitset is absent when its query failed).
pub struct DeviceData {
    pub fd: i32,
    pub devpath: String,
    pub hw_name: String,
    pub bustype: u16,
    pub vendor: u16,
    pub product: u16,
    pub version: u16,
    pub key_bits: Vec<u8>,
    pub abs_bits: Vec<u8>,
    pub ff_bits: Option<Vec<u8>>,
}

/// Byte length of the button capability bitset.
pub const KEY_BITS_LEN: usize = 96;

/// Byte length of the absolute-axis capability bitset.
pub const ABS_BITS_LEN: usize = 8;

/// Byte length of the force-feedback capability bitset.
pub const FF_BITS_LEN: usize = 13;

/// Whether the probed force-feedback bits carry the required primitive
/// set: square, triangle and sine waveforms plus gain control.
pub open spec fn spec_ff_supported(data: DeviceData) -> bool {
    match data.ff_bits {
        Some(b) => spec_test_bit(b@, ev::FF_SQUARE as nat) && spec_test_bit(
            b@,
            ev::FF_TRIANGLE as nat,
        ) && spec_test_bit(b@, ev::FF_SINE as nat) && spec_test_bit(b@, ev::FF_GAIN as nat),
        None => false,
    }
}

/// The tables and name a device identity resolves to: the parse of its
/// database line, or the empty (fully identity) mapping when there is no
/// line or it does not parse.
pub open spec fn spec_resolved_tables(
    entries: Seq<(u128, Seq<char>)>,
    uuid: u128,
    buttons: Seq<u16>,
    axes: Seq<u16>,
) -> (Seq<(u16, u16)>, Seq<(u16, u16)>, Seq<char>) {
    match db_get(entries, uuid) {
        Some(line) => match spec_parse(line, buttons, axes) {
            Ok(t) => t,
            Err(_) => (Seq::<(u16, u16)>::empty(), Seq::<(u16, u16)>::empty(), Seq::<char>::empty()),
        },
        None => (Seq::<(u16, u16)>::empty(), Seq::<(u16, u16)>::empty(), Seq::<char>::empty()),
    }
}

/// Per-canonical-axis calibration, captured once at open time.
#[derive(Clone, Copy, Debug, PartialEq, Eq, Structural)]
pub struct AxesInfo {
    pub x: AbsInfo,
    pub y: AbsInfo,
    pub z: AbsInfo,
    pub rx: AbsInfo,
    pub ry: AbsInfo,
    pub rz: AbsInfo,
    pub dpadx: AbsInfo,
    pub dpady: AbsInfo,
    pub left_tr: AbsInfo,
    pub right_tr: AbsInfo,
    pub left_tr2: AbsInfo,
    pub right_tr2: AbsInfo,
}

/// The all-zero calibration table used until the axes are probed.
pub open spec fn spec_axes_zero() -> AxesInfo {
    let z = AbsInfo { minimum: 0, maximum: 0, flat: 0 };
    AxesInfo {
        x: z,
        y: z,
        z: z,
        rx: z,
        ry: z,
        rz: z,
        dpadx: z,
        dpady: z,
        left_tr: z,
        right_tr: z,
        left_tr2: z,
        right_tr2: z,
    }
}

impl AxesInfo {
    pub fn zero() -> (r: AxesInfo)
        ensures
            r == spec_axes_zero(),
    {
        let z = AbsInfo { minimum: 0, maximum: 0, flat: 0 };
        AxesInfo {
            x: z,
            y: z,
            z: z,
            rx: z,
            ry: z,
            rz: z,
            dpadx: z,
            dpady: z,
            left_tr: z,
            right_tr: z,
            left_tr2: z,
            right_tr2: z,
        }
    }
}

/// The calibration that applies to one canonical analog axis.
pub open spec fn spec_info_for(ai: AxesInfo, axis: Axis) -> AbsInfo {
    match axis {
        Axis::LeftStickX => ai.x,
        Axis::LeftStickY => ai.y,
        Axis::LeftZ => ai.z,
        Axis::RightStickX => ai.rx,
        Axis::RightStickY => ai.ry,
        Axis::RightZ => ai.rz,
        Axis::LeftTrigger => ai.left_tr,
        Axis::LeftTrigger2 => ai.left_tr2,
        Axis::RightTrigger => ai.right_tr,
        Axis::RightTrigger2 => ai.right_tr2,
    }
}

/// The cache slot of a canonical axis.
pub open spec fn spec_axis_slot(axis: Axis) -> int {
    match axis {
        Axis::LeftStickX => 0,
        Axis::LeftStickY => 1,
        Axis::LeftZ => 2,
        Axis::RightStickX => 3,
        Axis::RightStickY => 4,
        Axis::RightZ => 5,
        Axis::RightTrigger => 6,
        Axis::LeftTrigger => 7,
        Axis::RightTrigger2 => 8,
        Axis::LeftTrigger2 => 9,
    }
}

/// The cache slot of a canonical button.
pub open spec fn spec_btn_slot(btn: Button) -> int {
    match btn {
        Button::South => 0,
        Button::East => 1,
        Button::C => 2,
        Button::North => 3,
        Button::West => 4,
        Button::Z => 5,
        Button::LeftTrigger => 6,
        Button::RightTrigger => 7,
        Button::LeftTrigger2 => 8,
        Button::RightTrigger2 => 9,
        Button::Select => 10,
        Button::Start => 11,
        Button::Mode => 12,
        Button::LeftThumb => 13,
        Button::RightThumb => 14,
        Button::DPadUp => 15,
        Button::DPadDown => 16,
        Button::DPadLeft => 17,
        Button::DPadRight => 18,
    }
}

/// Number of axis cache slots.
pub const AXIS_SLOTS: usize = 10;

/// Number of button cache slots.
pub const BTN_SLOTS: usize = 19;

fn axis_slot(axis: Axis) -> (r: usize)
    ensures
        r as int == spec_axis_slot(axis),
        r < AXIS_SLOTS,
{
    match axis {
        Axis::LeftStickX => 0,
        Axis::LeftStickY => 1,
        Axis::LeftZ => 2,
        Axis::RightStickX => 3,
        Axis::RightStickY => 4,
        Axis::RightZ => 5,
        Axis::RightTrigger => 6,
        Axis::LeftTrigger => 7,
        Axis::RightTrigger2 => 8,
        Axis::LeftTrigger2 => 9,
    }
}

fn btn_slot(btn: Button) -> (r: usize)
    ensures
        r as int == spec_btn_slot(btn),
        r < BTN_SLOTS,
{
    match btn {
        Button::South => 0,
        Button::East => 1,
        Button::C => 2,
        Button::North => 3,
        Button::West => 4,
        Button::Z => 5,
        Button::LeftTrigger => 6,
        Button::RightTrigger => 7,
        Button::LeftTrigger2 => 8,
        Button::RightTrigger2 => 9,
        Button::Select => 10,
        Button::Start => 11,
        Button::Mode => 12,
        Button::LeftThumb => 13,
        Button::RightThumb => 14,
        Button::DPadUp => 15,
        Button::DPadDown => 16,
        Button::DPadLeft => 17,
        Button::DPadRight => 18,
    }
}

/// The digital event a hat-axis transition synthesizes. A transition to
/// zero releases whichever side was active; a transition to a nonzero
/// value presses the side of its sign (`pos` for positive, `neg` for
/// negative).
pub open spec fn spec_hat_event(prev: i32, value: i32, pos: Button, neg: Button) -> Option<Event> {
    if value == 0 {
        if prev > 0 {
            Some(Event::ButtonReleased(pos))
        } else if prev < 0 {
            Some(Event::ButtonReleased(neg))
        } else {
            None
        }
    } else if value > 0 {
        Some(Event::ButtonPressed(pos))
    } else {
        Some(Event::ButtonPressed(neg))
    }
}

fn hat_event(prev: i32, value: i32, pos: Button, neg: Button) -> (r: Option<Event>)
    ensures
        r == spec_hat_event(prev, value, pos, neg),
{
    if value == 0 {
        if prev > 0 {
            Some(Event::ButtonReleased(pos))
        } else if prev < 0 {
            Some(Event::ButtonReleased(neg))
        } else {
            None
        }
    } else if value > 0 {
        Some(Event::ButtonPressed(pos))
    } else {
        Some(Event::ButtonPressed(neg))
    }
}

/// One device session: the raw handle number, capture-time calibration,
/// hat state, resolved mapping, identity, connection status and the
/// cached per-button/per-axis state the dispatcher maintains.
#[derive(Debug)]
pub struct Gamepad {
    pub fd: i32,
    pub axes_info: AxesInfo,
    pub abs_dpad_prev_val: (i32, i32),
    pub mapping: Mapping,
    pub ff_supported: bool,
    pub devpath: String,
    pub name: String,
    pub uuid: u128,
    pub status: Status,
    pub btn_state: Vec<bool>,
    pub axis_state: Vec<AxisValue>,
}

/// The canonical event one record decodes to, given the session's mapping,
/// calibration and hat state; `None` for records that carry no canonical
/// meaning, which the read loop skips.
pub open spec fn spec_decode_event(g: Gamepad, rec: InputRecord) -> Option<Event> {
    if rec.ev_type == ev::EV_KEY {
        let code = spec_map_get(g.mapping.btns_seq(), rec.code);
        match spec_button_from_u16(code) {
            Some(btn) => if rec.value == 0 {
                Some(Event::ButtonReleased(btn))
            } else if rec.value == 1 {
                Some(Event::ButtonPressed(btn))
            } else {
                None
            },
            None => None,
        }
    } else if rec.ev_type == ev::EV_ABS {
        let code = spec_map_get(g.mapping.axes_seq(), rec.code);
        if code == ev::ABS_HAT0Y {
            spec_hat_event(g.abs_dpad_prev_val.1, rec.value, Button::DPadDown, Button::DPadUp)
        } else if code == ev::ABS_HAT0X {
            spec_hat_event(g.abs_dpad_prev_val.0, rec.value, Button::DPadRight, Button::DPadLeft)
        } else {
            match spec_axis_from_u16(code) {
                Some(axis) => {
                    let info = spec_info_for(g.axes_info, axis);
                    Some(
                        Event::AxisChanged(
                            axis,
                            AxisValue {
                                num: spec_axis_num(info, rec.value as int, axis) as i64,
                                den: spec_axis_den(info, axis) as i64,
                            },
                        ),
                    )
                },
                None => None,
            }
        }
    } else {
        None
    }
}

/// The hat state after one record: the sign of a hat-axis record is
/// stored unconditionally; other records leave it alone.
pub open spec fn spec_dpad_after(g: Gamepad, rec: InputRecord) -> (i32, i32) {
    if rec.ev_type == ev::EV_ABS {
        let code = spec_map_get(g.mapping.axes_seq(), rec.code);
        if code == ev::ABS_HAT0Y {
            (g.abs_dpad_prev_val.0, rec.value)
        } else if code == ev::ABS_HAT0X {
            (rec.value, g.abs_dpad_prev_val.1)
        } else {
            g.abs_dpad_prev_val
        }
    } else {
        g.abs_dpad_prev_val
    }
}

/// A session's state cache as it starts: every button released, every
/// axis at the exact rational zero.
pub open spec fn spec_fresh_caches(g: Gamepad) -> bool {
    &&& forall|i: int| 0 <= i < g.btn_state@.len() ==> g.btn_state@[i] == false
    &&& forall|i: int|
        0 <= i < g.axis_state@.len() ==> g.axis_state@[i] == (AxisValue { num: 0, den: 1 })
}

impl Gamepad {
    /// The cache vectors have their fixed lengths and the mapping its
    /// sortedness.
    pub open spec fn wf(&self) -> bool {
        self.btn_state@.len() == BTN_SLOTS && self.axis_state@.len() == AXIS_SLOTS
            && self.mapping.wf()
    }

    /// The sentinel session behind out-of-range collection queries: no
    /// handle, no identity, `NotObserved`.
    pub fn none() -> (r: Gamepad)
        ensures
            r.fd == -3,
            r.status == Status::NotObserved,
            r.uuid == 0,
            r.name@ == Seq::<char>::empty(),
            r.devpath@ == Seq::<char>::empty(),
            r.ff_supported == false,
            r.axes_info == spec_axes_zero(),
            r.abs_dpad_prev_val == (0i32, 0i32),
            r.mapping.btns_seq() == Seq::<(u16, u16)>::empty(),
            r.mapping.axes_seq() == Seq::<(u16, u16)>::empty(),
            spec_fresh_caches(r),
            r.wf(),
    {
        Gamepad {
            fd: -3,
            axes_info: AxesInfo::zero(),
            abs_dpad_prev_val: (0, 0),
            mapping: Mapping::new(),
            ff_supported: false,
            devpath: String::new(),
            name: String::new(),
            uuid: 0,
            status: Status::NotObserved,
            btn_state: fresh_btn_state(),
            axis_state: fresh_axis_state(),
        }
    }

    /// The raw handle number, `-2` after release, `-3` for the sentinel.
    pub fn fd(&self) -> (r: i32)
        ensures
            r == self.fd,
    {
        self.fd
    }

    /// Builds a session from the probed device data, resolving its
    /// mapping through the database. The device is rejected (`None`) when
    /// the canonical primary-gamepad marker button reverse-resolves to a
    /// raw code the hardware does not report: such a device is some other
    /// input device, not a gamepad.
    pub fn open(data: DeviceData, db: &MappingDb) -> (r: Option<Gamepad>)
        requires
            data.key_bits@.len() == KEY_BITS_LEN,
            data.abs_bits@.len() == ABS_BITS_LEN,
        ensures
            ({
                let buttons = spec_bits_codes(data.key_bits@, (KEY_BITS_LEN * 8) as nat);
                let axes = spec_bits_codes(data.abs_bits@, (ABS_BITS_LEN * 8) as nat);
                let uuid = spec_identity(data.bustype, data.vendor, data.product, data.version);
                let t = spec_resolved_tables(db.entries_seq(), uuid, buttons, axes);
                let rb = spec_map_rev_get(t.0, ev::BTN_GAMEPAD);
                let accepted = (rb as nat) / 8 < data.key_bits@.len() && spec_test_bit(
                    data.key_bits@,
                    rb as nat,
                );
                match r {
                    Some(g) => {
                        &&& accepted
                        &&& g.fd == data.fd
                        &&& g.devpath@ == data.devpath@
                        &&& g.uuid == uuid
                        &&& g.mapping.btns_seq() == t.0
                        &&& g.mapping.axes_seq() == t.1
                        &&& g.mapping.name_seq() == t.2
                        &&& g.name@ == if t.2.len() == 0 {
                            data.hw_name@
                        } else {
                            t.2
                        }
                        &&& g.ff_supported == spec_ff_supported(data)
                        &&& g.status == Status::Connected
                        &&& g.axes_info == spec_axes_zero()
                        &&& g.abs_dpad_prev_val == (0i32, 0i32)
                        &&& spec_fresh_caches(g)
                        &&& g.wf()
                    },
                    None => !accepted,
                }
            }),
    {
        let buttons = bits_codes(&data.key_bits);
        let axes = bits_codes(&data.abs_bits);
        let uuid = create_uuid(data.bustype, data.vendor, data.product, data.version);
        let mapping = match db.get(uuid) {
            Some(line) => match Mapping::parse_sdl_mapping(
                line.as_str(),
                buttons.as_slice(),
                axes.as_slice(),
            ) {
                Ok(m) => m,
                Err(_) => Mapping::new(),
            },
            None => Mapping::new(),
        };
        let rb = mapping.map_rev(ev::BTN_GAMEPAD, Kind::Button);
        if !((rb as usize) / 8 < data.key_bits.len()) {
            return None;
        }
        if !test_bit(rb, data.key_bits.as_slice()) {
            return None;
        }
        let name = if mapping.name().unicode_len() == 0 {
            data.hw_name
        } else {
            String::from_str(mapping.name())
        };
        let ff_supported = match &data.ff_bits {
            Some(b) => {
                b.len() > 12 && test_bit(ev::FF_SQUARE, b.as_slice()) && test_bit(
                    ev::FF_TRIANGLE,
                    b.as_slice(),
                ) && test_bit(ev::FF_SINE, b.as_slice()) && test_bit(ev::FF_GAIN, b.as_slice())
            },
            None => false,
        };
        Some(
            Gamepad {
                fd: data.fd,
                axes_info: AxesInfo::zero(),
                abs_dpad_prev_val: (0, 0),
                mapping,
                ff_supported,
                devpath: data.devpath,
                name,
                uuid,
                status: Status::Connected,
                btn_state: fresh_btn_state(),
                axis_state: fresh_axis_state(),
            },
        )
    }

    /// Stores the calibration the embedding program queried for the raw
    /// codes named by `mapping().map_rev`.
    pub fn set_axes_info(&mut self, info: AxesInfo)
        ensures
            *final(self) == (Gamepad { axes_info: info, ..*old(self) }),
    {
        self.axes_info = info;
    }

    /// The session's resolved mapping, for reverse-resolving raw codes.
    pub fn mapping(&self) -> (r: &Mapping)
        ensures
            *r == self.mapping,
    {
        &self.mapping
    }

    /// Decodes one native record into at most one canonical event and
    /// updates the stored hat signs; nothing else of the session changes.
    /// `None` stands for a record with no canonical meaning; the caller's
    /// read loop goes on to the next record.
    pub fn event(&mut self, rec: InputRecord) -> (r: Option<Event>)
        ensures
            r == spec_decode_event(*old(self), rec),
            *final(self) == (Gamepad {
                abs_dpad_prev_val: spec_dpad_after(*old(self), rec),
                ..*old(self)
            }),
    {
        if rec.ev_type == ev::EV_KEY {
            let code = self.mapping.map(rec.code, Kind::Button);
            match Button::from_u16(code) {
                Some(btn) => {
                    if rec.value == 0 {
                        Some(Event::ButtonReleased(btn))
                    } else if rec.value == 1 {
                        Some(Event::ButtonPressed(btn))
                    } else {
                        None
                    }
                },
                None => None,
            }
        } else if rec.ev_type == ev::EV_ABS {
            let code = self.mapping.map(rec.code, Kind::Axis);
            if code == ev::ABS_HAT0Y {
                let prev = self.abs_dpad_prev_val.1;
                let r = hat_event(prev, rec.value, Button::DPadDown, Button::DPadUp);
                self.abs_dpad_prev_val = (self.abs_dpad_prev_val.0, rec.value);
                r
            } else if code == ev::ABS_HAT0X {
                let prev = self.abs_dpad_prev_val.0;
                let r = hat_event(prev, rec.value, Button::DPadRight, Button::DPadLeft);
                self.abs_dpad_prev_val = (rec.value, self.abs_dpad_prev_val.1);
                r
            } else {
                match Axis::from_u16(code) {
                    Some(axis) => {
                        let info = info_for(&self.axes_info, axis);
                        Some(Event::AxisChanged(axis, axis_value(info, rec.value, axis)))
                    },
                    None => None,
                }
            }
        } else {
            None
        }
    }

    /// Releases the session's handle bookkeeping exactly once: the handle
    /// number to close is returned on the first call and never again, the
    /// path is cleared and the status flips to `Disconnected`.
    pub fn disconnect(&mut self) -> (r: Option<i32>)
        ensures
            r == if old(self).fd >= 0 {
                Some(old(self).fd)
            } else {
                None::<i32>
            },
            *final(self) == (Gamepad {
                fd: -2i32,
                devpath: final(self).devpath,
                status: Status::Disconnected,
                ..*old(self)
            }),
            final(self).devpath@ == Seq::<char>::empty(),
    {
        let r = if self.fd >= 0 {
            Some(self.fd)
        } else {
            None
        };
        self.fd = -2;
        self.devpath = String::new();
        self.status = Status::Disconnected;
        r
    }

    /// Power information is out of scope; the answer is always `Unknown`.
    pub fn power_info(&self) -> (r: PowerInfo)
        ensures
            r == PowerInfo::Unknown,
    {
        PowerInfo::Unknown
    }

    /// Whether the device carries the force-feedback primitive set probed
    /// at open time.
    pub fn is_ff_supported(&self) -> (r: bool)
        ensures
            r == self.ff_supported,
    {
        self.ff_supported
    }

    /// The record that sets the force-feedback gain; the embedding
    /// program writes it to the handle.
    pub fn ff_gain_record(gain: u16) -> (r: InputRecord)
        ensures
            r == (InputRecord { ev_type: ev::EV_FF, code: ev::FF_GAIN, value: gain as i32 }),
    {
        InputRecord { ev_type: ev::EV_FF, code: ev::FF_GAIN, value: gain as i32 }
    }

    /// The session's display name.
    pub fn name(&self) -> (r: &str)
        ensures
            r@ == self.name@,
    {
        self.name.as_str()
    }

    /// The session's identity, computed once at open time.
    pub fn uuid(&self) -> (r: u128)
        ensures
            r == self.uuid,
    {
        self.uuid
    }

    /// The session's connection status.
    pub fn status(&self) -> (r: Status)
        ensures
            r == self.status,
    {
        self.status
    }

    /// The cached state of one canonical button.
    pub fn is_pressed(&self, btn: Button) -> (r: bool)
        requires
            self.wf(),
        ensures
            r == self.btn_state@[spec_btn_slot(btn)],
    {
        let i = btn_slot(btn);
        self.btn_state[i]
    }

    /// The cached state of one canonical axis.
    pub fn axis_val(&self, axis: Axis) -> (r: AxisValue)
        requires
            self.wf(),
        ensures
            r == self.axis_state@[spec_axis_slot(axis)],
    {
        let i = axis_slot(axis);
        self.axis_state[i]
    }

    /// Applies one decoded event to the cached state and says whether the
    /// dispatcher should report it: presses and releases always update
    /// and report; an axis change equal in value to the cached one is
    /// discarded, so the dead zone cannot repeat identical readings.
    pub fn apply_event(&mut self, event: Event) -> (r: bool)
        requires
            old(self).wf(),
        ensures
            final(self).wf(),
            match event {
                Event::ButtonPressed(btn) => r && *final(self) == (Gamepad {
                    btn_state: final(self).btn_state,
                    ..*old(self)
                }) && final(self).btn_state@ == old(self).btn_state@.update(
                    spec_btn_slot(btn),
                    true,
                ),
                Event::ButtonReleased(btn) => r && *final(self) == (Gamepad {
                    btn_state: final(self).btn_state,
                    ..*old(self)
                }) && final(self).btn_state@ == old(self).btn_state@.update(
                    spec_btn_slot(btn),
                    false,
                ),
                Event::AxisChanged(axis, val) => {
                    let cached = old(self).axis_state@[spec_axis_slot(axis)];
                    if cached.num as int * val.den as int == val.num as int * cached.den as int {
                        !r && *final(self) == *old(self)
                    } else {
                        r && *final(self) == (Gamepad {
                            axis_state: final(self).axis_state,
                            ..*old(self)
                        }) && final(self).axis_state@ == old(self).axis_state@.update(
                            spec_axis_slot(axis),
                            val,
                        )
                    }
                },
                _ => r && *final(self) == *old(self),
            },
    {
        match event {
            Event::ButtonPressed(btn) => {
                let i = btn_slot(btn);
                self.btn_state.set(i, true);
                true
            },
            Event::ButtonReleased(btn) => {
                let i = btn_slot(btn);
                self.btn_state.set(i, false);
                true
            },
            Event::AxisChanged(axis, val) => {
                let i = axis_slot(axis);
                let cached = self.axis_state[i];
                if cached.same_value(&val) {
                    false
                } else {
                    self.axis_state.set(i, val);
                    true
                }
            },
            _ => true,
        }
    }
}

/// Sessions compare by identity: two sessions for the same device model
/// are equal whatever their slot state, as identity is all that
/// distinguishes device models.
impl PartialEq for Gamepad {
    fn eq(&self, other: &Gamepad) -> (r: bool) {
        self.uuid == other.uuid
    }
}

impl vstd::std_specs::cmp::PartialEqSpecImpl for Gamepad {
    open spec fn obeys_eq_spec() -> bool {
        true
    }

    open spec fn eq_spec(&self, other: &Gamepad) -> bool {
        self.uuid == other.uuid
    }
}

fn info_for(ai: &AxesInfo, axis: Axis) -> (r: AbsInfo)
    ensures
        r == spec_info_for(*ai, axis),
{
    match axis {
        Axis::LeftStickX => ai.x,
        Axis::LeftStickY => ai.y,
        Axis::LeftZ => ai.z,
        Axis::RightStickX => ai.rx,
        Axis::RightStickY => ai.ry,
        Axis::RightZ => ai.rz,
        Axis::LeftTrigger => ai.left_tr,
        Axis::LeftTrigger2 => ai.left_tr2,
        Axis::RightTrigger => ai.right_tr,
        Axis::RightTrigger2 => ai.right_tr2,
    }
}

/// All buttons released.
fn fresh_btn_state() -> (r: Vec<bool>)
    ensures
        r@.len() == BTN_SLOTS,
        forall|i: int| 0 <= i < BTN_SLOTS ==> r@[i] == false,
{
    let mut v: Vec<bool> = Vec::new();
    let mut i: usize = 0;
    while i < BTN_SLOTS
        invariant
            0 <= i <= BTN_SLOTS,
            v@.len() == i,
            forall|j: int| 0 <= j < i ==> v@[j] == false,
        decreases BTN_SLOTS - i,
    {
        v.push(false);
        i = i + 1;
    }
    v
}

/// All axes at rest: the exact rational zero.
fn fresh_axis_state() -> (r: Vec<AxisValue>)
    ensures
        r@.len() == AXIS_SLOTS,
        forall|i: int| 0 <= i < AXIS_SLOTS ==> r@[i] == (AxisValue { num: 0, den: 1 }),
{
    let mut v: Vec<AxisValue> = Vec::new();
    let mut i: usize = 0;
    while i < AXIS_SLOTS
        invariant
            0 <= i <= AXIS_SLOTS,
            v@.len() == i,
            forall|j: int| 0 <= j < i ==> v@[j] == (AxisValue { num: 0, den: 1 }),
        decreases AXIS_SLOTS - i,
    {
        v.push(AxisValue { num: 0, den: 1 });
        i = i + 1;
    }
    v
}

/// A hat-axis sequence `0 -> +k -> 0` presses and then releases exactly
/// the positive-side button (right or down), never the opposite side:
/// from a resting hat, a positive value synthesizes its press, and the
/// return to zero, seen through the updated state, synthesizes its
/// release.
pub proof fn lemma_hat_press_release(g: Gamepad, code: u16, k: i32)
    requires
        k > 0,
        g.abs_dpad_prev_val.0 == 0,
        spec_map_get(g.mapping.axes_seq(), code) == ev::ABS_HAT0X,
    ensures
        ({
            let rec1 = InputRecord { ev_type: ev::EV_ABS, code, value: k };
            let rec2 = InputRecord { ev_type: ev::EV_ABS, code, value: 0 };
            let g2 = Gamepad { abs_dpad_prev_val: spec_dpad_after(g, rec1), ..g };
            &&& spec_decode_event(g, rec1) == Some(Event::ButtonPressed(Button::DPadRight))
            &&& spec_decode_event(g2, rec2) == Some(Event::ButtonReleased(Button::DPadRight))
        }),
{
}

} // verus!
