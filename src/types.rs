use vstd::prelude::*;

verus! {

/// Bit of the control byte asserted while the robot is enabled.
pub const ENABLED: u8 = 0x04;

/// Bit of the control byte asserted while the robot is emergency-stopped.
pub const ESTOP: u8 = 0x80;

/// Bit of the control byte asserted when the driver station reports itself as
/// attached to a field-management system.
pub const FMS_ATTACHED: u8 = 0x08;

/// Bit of the control byte that marks a driver station as attached.
pub const DS_ATTACHED: u8 = 0x01;

/// Request byte asking the controller to reboot.
pub const REQUEST_REBOOT: u8 = 0x08;

/// Request byte asking the controller to restart the user code.
pub const REQUEST_RESTART_CODE: u8 = 0x04;

/// The side of the field a robot plays on.
#[derive(Clone, Copy, Debug, PartialEq, Eq, Structural)]
pub enum AllianceColor {
    Red,
    Blue,
}

/// A side paired with a driver-station position in `1..=3`.
#[derive(Clone, Copy, Debug, PartialEq, Eq, Structural)]
pub struct Alliance {
    color: AllianceColor,
    position: u8,
}

impl Alliance {
    #[verifier::type_invariant]
    spec fn position_in_range(self) -> bool {
        1 <= self.position <= 3
    }

    /// The station position, in `1..=3`.
    pub closed spec fn spec_position(self) -> u8 {
        self.position
    }

    pub closed spec fn spec_color(self) -> AllianceColor {
        self.color
    }

    /// The byte on the wire: `side * 3 + (position - 1)`.
    pub open spec fn spec_byte(self) -> u8 {
        let side: int = match self.spec_color() {
            AllianceColor::Red => 0,
            AllianceColor::Blue => 3,
        };
        (side + self.spec_position() - 1) as u8
    }

    /// The wire byte determines the side and the position.
    pub proof fn lemma_byte_in_range(self)
        requires
            1 <= self.spec_position() <= 3,
        ensures
            self.spec_byte() <= 5,
            self.spec_byte() < 3 <==> self.spec_color() == AllianceColor::Red,
            self.spec_byte() % 3 + 1 == self.spec_position(),
    {
    }

    pub fn new_red(position: u8) -> (r: Alliance)
        requires
            1 <= position <= 3,
        ensures
            r.spec_color() == AllianceColor::Red,
            r.spec_position() == position,
    {
        Alliance { color: AllianceColor::Red, position }
    }

    pub fn new_blue(position: u8) -> (r: Alliance)
        requires
            1 <= position <= 3,
        ensures
            r.spec_color() == AllianceColor::Blue,
            r.spec_position() == position,
    {
        Alliance { color: AllianceColor::Blue, position }
    }

    pub fn color(&self) -> (r: AllianceColor)
        ensures
            r == self.spec_color(),
    {
        self.color
    }

    pub fn position(&self) -> (r: u8)
        ensures
            r == self.spec_position(),
            1 <= r <= 3,
    {
        proof { use_type_invariant(self); }
        self.position
    }

    /// Encodes the alliance as its single wire byte.
    pub fn to_byte(&self) -> (r: u8)
        ensures
            r == self.spec_byte(),
            r <= 5,
    {
        proof { use_type_invariant(self); }
        match self.color {
            AllianceColor::Red => self.position - 1,
            AllianceColor::Blue => 3 + (self.position - 1),
        }
    }
}

/// The operating mode commanded to the robot.
#[derive(Clone, Copy, Debug, PartialEq, Eq, Structural)]
pub enum Mode {
    TestMode,
    Autonomous,
    Teleoperated,
}

impl Mode {
    /// The two low bits of the control byte.
    pub open spec fn spec_bits(self) -> u8 {
        match self {
            Mode::TestMode => 0b01,
            Mode::Autonomous => 0b10,
            Mode::Teleoperated => 0b00,
        }
    }

    pub fn to_control(&self) -> (r: u8)
        ensures
            r == self.spec_bits(),
    {
        match self {
            Mode::TestMode => 0b01,
            Mode::Autonomous => 0b10,
            Mode::Teleoperated => 0b00,
        }
    }
}

/// Whether the driver station reports itself as attached to a field system.
#[derive(Clone, Copy, Debug, PartialEq, Eq, Structural)]
pub enum DsMode {
    Normal,
    Fms,
}

/// A one-shot request carried by the next control packet.
#[derive(Clone, Copy, Debug, PartialEq, Eq, Structural)]
pub enum Request {
    Reboot,
    RestartCode,
}

/// The request byte of a control packet: zero when nothing is requested.
pub open spec fn spec_request_byte(r: Option<Request>) -> u8 {
    match r {
        None => 0,
        Some(Request::Reboot) => REQUEST_REBOOT,
        Some(Request::RestartCode) => REQUEST_RESTART_CODE,
    }
}

pub fn request_byte(r: Option<Request>) -> (b: u8)
    ensures
        b == spec_request_byte(r),
{
    match r {
        None => 0,
        Some(Request::Reboot) => REQUEST_REBOOT,
        Some(Request::RestartCode) => REQUEST_RESTART_CODE,
    }
}

/// The control byte: the mode bits or'd with the enable, estop and
/// field-attached flags.
pub open spec fn spec_control_byte(mode: Mode, enabled: bool, estopped: bool, ds_mode: DsMode) -> u8 {
    mode.spec_bits() | (if enabled { ENABLED } else { 0u8 }) | (if estopped { ESTOP } else { 0u8 })
        | (if ds_mode == DsMode::Fms { FMS_ATTACHED } else { 0u8 })
}

/// An estopped, disabled state never carries the enable bit.
pub proof fn lemma_control_byte_not_enabled(mode: Mode, estopped: bool, ds_mode: DsMode)
    ensures
        spec_control_byte(mode, false, estopped, ds_mode) & ENABLED == 0,
{
    let m = mode.spec_bits();
    let s: u8 = if estopped { ESTOP } else { 0u8 };
    let f: u8 = if ds_mode == DsMode::Fms { FMS_ATTACHED } else { 0u8 };
    assert(m <= 3);
    assert(s == 0 || s == 0x80);
    assert(f == 0 || f == 0x08);
    assert(m <= 3 && (s == 0 || s == 0x80) && (f == 0 || f == 0x08) ==> ((m | 0u8) | s | f) & 4u8
        == 0) by (bit_vector);
}

pub fn control_byte(mode: Mode, enabled: bool, estopped: bool, ds_mode: DsMode) -> (r: u8)
    ensures
        r == spec_control_byte(mode, enabled, estopped, ds_mode),
{
    let mut c = mode.to_control();
    c = c | (if enabled { ENABLED } else { 0u8 });
    c = c | (if estopped { ESTOP } else { 0u8 });
    c = c | (if matches!(ds_mode, DsMode::Fms) { FMS_ATTACHED } else { 0u8 });
    c
}

} // verus!
