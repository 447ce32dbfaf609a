//! Canonical buttons, axes and events, and the native event-code vocabulary
//! that mapping definitions translate into.

use vstd::prelude::*;

verus! {

/// Event-record class for button (key) state changes.
pub const EV_KEY: u16 = 0x01;
/// Event-record class for absolute-axis changes.
pub const EV_ABS: u16 = 0x03;
/// Event-record class for force-feedback control.
pub const EV_FF: u16 = 0x15;

/// Highest button code a device can report, as used for capability bitsets.
pub const KEY_MAX: u16 = 0x2ff;
/// Highest absolute-axis code a device can report.
pub const ABS_MAX: u16 = 0x3f;
/// Highest force-feedback code a device can report.
pub const FF_MAX: u16 = 0x60;

pub const BTN_GAMEPAD: u16 = 0x130;
pub const BTN_SOUTH: u16 = 0x130;
pub const BTN_EAST: u16 = 0x131;
pub const BTN_C: u16 = 0x132;
pub const BTN_NORTH: u16 = 0x133;
pub const BTN_WEST: u16 = 0x134;
pub const BTN_Z: u16 = 0x135;
pub const BTN_TL: u16 = 0x136;
pub const BTN_TR: u16 = 0x137;
pub const BTN_TL2: u16 = 0x138;
pub const BTN_TR2: u16 = 0x139;
pub const BTN_SELECT: u16 = 0x13a;
pub const BTN_START: u16 = 0x13b;
pub const BTN_MODE: u16 = 0x13c;
pub const BTN_THUMBL: u16 = 0x13d;
pub const BTN_THUMBR: u16 = 0x13e;

pub const BTN_DPAD_UP: u16 = 0x220;
pub const BTN_DPAD_DOWN: u16 = 0x221;
pub const BTN_DPAD_LEFT: u16 = 0x222;
pub const BTN_DPAD_RIGHT: u16 = 0x223;

pub const ABS_X: u16 = 0x00;
pub const ABS_Y: u16 = 0x01;
pub const ABS_Z: u16 = 0x02;
pub const ABS_RX: u16 = 0x03;
pub const ABS_RY: u16 = 0x04;
pub const ABS_RZ: u16 = 0x05;
pub const ABS_HAT0X: u16 = 0x10;
pub const ABS_HAT0Y: u16 = 0x11;
pub const ABS_HAT1X: u16 = 0x12;
pub const ABS_HAT1Y: u16 = 0x13;
pub const ABS_HAT2X: u16 = 0x14;
pub const ABS_HAT2Y: u16 = 0x15;

pub const FF_SQUARE: u16 = 0x58;
pub const FF_TRIANGLE: u16 = 0x59;
pub const FF_SINE: u16 = 0x5a;
pub const FF_GAIN: u16 = 0x60;

/// A canonical gamepad button, independent of the hardware's numbering.
#[derive(Clone, Copy, Debug, PartialEq, Eq, Structural)]
pub enum Button {
    South,
    East,
    C,
    North,
    West,
    Z,
    LeftTrigger,
    RightTrigger,
    LeftTrigger2,
    RightTrigger2,
    Select,
    Start,
    Mode,
    LeftThumb,
    RightThumb,
    DPadUp,
    DPadDown,
    DPadLeft,
    DPadRight,
}

/// A canonical analog axis, independent of the hardware's numbering.
#[derive(Clone, Copy, Debug, PartialEq, Eq, Structural)]
pub enum Axis {
    LeftStickX,
    LeftStickY,
    LeftZ,
    RightStickX,
    RightStickY,
    RightZ,
    RightTrigger,
    LeftTrigger,
    RightTrigger2,
    LeftTrigger2,
}

/// A normalized axis reading, kept as the exact rational `num / den`.
///
/// For a well-calibrated axis the value lies in [-1, 1], that is
/// `-den <= num <= den` with `den > 0`. Keeping the quotient unevaluated
/// lets every statement about normalization be exact; a consumer that wants
/// a floating-point value divides at the edge.
#[derive(Clone, Copy, Debug, PartialEq, Eq, Structural)]
pub struct AxisValue {
    pub num: i64,
    pub den: i64,
}

/// One canonical event produced by decoding a device's native stream or by
/// hotplug reconciliation.
#[derive(Clone, Copy, Debug, PartialEq, Eq, Structural)]
pub enum Event {
    ButtonPressed(Button),
    ButtonReleased(Button),
    AxisChanged(Axis, AxisValue),
    Connected,
    Disconnected,
}

/// The canonical button a native button code stands for, if any.
pub open spec fn spec_button_from_u16(btn: u16) -> Option<Button> {
    if btn == BTN_SOUTH {
        Some(Button::South)
    } else if btn == BTN_EAST {
        Some(Button::East)
    } else if btn == BTN_C {
        Some(Button::C)
    } else if btn == BTN_NORTH {
        Some(Button::North)
    } else if btn == BTN_WEST {
        Some(Button::West)
    } else if btn == BTN_Z {
        Some(Button::Z)
    } else if btn == BTN_TL {
        Some(Button::LeftTrigger)
    } else if btn == BTN_TR {
        Some(Button::RightTrigger)
    } else if btn == BTN_TL2 {
        Some(Button::LeftTrigger2)
    } else if btn == BTN_TR2 {
        Some(Button::RightTrigger2)
    } else if btn == BTN_SELECT {
        Some(Button::Select)
    } else if btn == BTN_START {
        Some(Button::Start)
    } else if btn == BTN_MODE {
        Some(Button::Mode)
    } else if btn == BTN_THUMBL {
        Some(Button::LeftThumb)
    } else if btn == BTN_THUMBR {
        Some(Button::RightThumb)
    } else if btn == BTN_DPAD_UP {
        Some(Button::DPadUp)
    } else if btn == BTN_DPAD_DOWN {
        Some(Button::DPadDown)
    } else if btn == BTN_DPAD_LEFT {
        Some(Button::DPadLeft)
    } else if btn == BTN_DPAD_RIGHT {
        Some(Button::DPadRight)
    } else {
        None
    }
}

/// The canonical axis a native axis code stands for, if any.
pub open spec fn spec_axis_from_u16(axis: u16) -> Option<Axis> {
    if axis == ABS_X {
        Some(Axis::LeftStickX)
    } else if axis == ABS_Y {
        Some(Axis::LeftStickY)
    } else if axis == ABS_Z {
        Some(Axis::LeftZ)
    } else if axis == ABS_RX {
        Some(Axis::RightStickX)
    } else if axis == ABS_RY {
        Some(Axis::RightStickY)
    } else if axis == ABS_RZ {
        Some(Axis::RightZ)
    } else if axis == ABS_HAT1X {
        Some(Axis::RightTrigger)
    } else if axis == ABS_HAT1Y {
        Some(Axis::LeftTrigger)
    } else if axis == ABS_HAT2X {
        Some(Axis::RightTrigger2)
    } else if axis == ABS_HAT2Y {
        Some(Axis::LeftTrigger2)
    } else {
        None
    }
}

impl Button {
    /// Decodes a native button code by explicit range checks; codes outside
    /// the two canonical ranges are rejected rather than reinterpreted.
    pub fn from_u16(btn: u16) -> (r: Option<Button>)
        ensures
            r == spec_button_from_u16(btn),
    {
        match btn {
            0x130 => Some(Button::South),
            0x131 => Some(Button::East),
            0x132 => Some(Button::C),
            0x133 => Some(Button::North),
            0x134 => Some(Button::West),
            0x135 => Some(Button::Z),
            0x136 => Some(Button::LeftTrigger),
            0x137 => Some(Button::RightTrigger),
            0x138 => Some(Button::LeftTrigger2),
            0x139 => Some(Button::RightTrigger2),
            0x13a => Some(Button::Select),
            0x13b => Some(Button::Start),
            0x13c => Some(Button::Mode),
            0x13d => Some(Button::LeftThumb),
            0x13e => Some(Button::RightThumb),
            0x220 => Some(Button::DPadUp),
            0x221 => Some(Button::DPadDown),
            0x222 => Some(Button::DPadLeft),
            0x223 => Some(Button::DPadRight),
            _ => None,
        }
    }
}

impl Axis {
    /// Decodes a native axis code by explicit range checks.
    pub fn from_u16(axis: u16) -> (r: Option<Axis>)
        ensures
            r == spec_axis_from_u16(axis),
    {
        match axis {
            0x00 => Some(Axis::LeftStickX),
            0x01 => Some(Axis::LeftStickY),
            0x02 => Some(Axis::LeftZ),
            0x03 => Some(Axis::RightStickX),
            0x04 => Some(Axis::RightStickY),
            0x05 => Some(Axis::RightZ),
            0x12 => Some(Axis::RightTrigger),
            0x13 => Some(Axis::LeftTrigger),
            0x14 => Some(Axis::RightTrigger2),
            0x15 => Some(Axis::LeftTrigger2),
            _ => None,
        }
    }

    /// Whether the axis is a stick axis, whose unsigned hardware range is
    /// recentered before normalization; triggers keep their raw origin.
    pub fn is_stick(self) -> (r: bool)
        ensures
            r == self.spec_is_stick(),
    {
        match self {
            Axis::LeftStickX | Axis::LeftStickY | Axis::RightStickX | Axis::RightStickY => true,
            _ => false,
        }
    }

    pub open spec fn spec_is_stick(self) -> bool {
        self == Axis::LeftStickX || self == Axis::LeftStickY || self == Axis::RightStickX
            || self == Axis::RightStickY
    }

    /// Whether the axis is a vertical stick axis, whose normalized sign is
    /// inverted so that "up" is positive.
    pub fn is_vertical(self) -> (r: bool)
        ensures
            r == self.spec_is_vertical(),
    {
        match self {
            Axis::LeftStickY | Axis::RightStickY => true,
            _ => false,
        }
    }

    pub open spec fn spec_is_vertical(self) -> bool {
        self == Axis::LeftStickY || self == Axis::RightStickY
    }
}

} // verus!
