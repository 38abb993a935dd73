use crate::types::Mode;
use crate::wire::read_be16;
use vstd::prelude::*;

verus! {

/// Status bits reported by the robot.
#[derive(Clone, Copy, Debug, PartialEq, Eq, Structural)]
pub struct Status {
    pub bits: u8,
}

impl Status {
    pub const EMERGENCY_STOP: u8 = 0x80;

    pub const DISABLED_AVG_RTT_TOO_HIGH: u8 = 0x40;

    pub const DISABLED_NEED_COMMS: u8 = 0x20;

    pub const BROWNED_OUT: u8 = 0x10;

    pub const CODE_START: u8 = 0x08;

    pub const ENABLED: u8 = 0x04;

    pub const AUTONOMOUS: u8 = 0x02;

    pub const TEST: u8 = 0x01;

    pub fn contains(&self, flag: u8) -> (r: bool)
        ensures
            r == (self.bits & flag == flag),
    {
        self.bits & flag == flag
    }
}

/// Trace bits: what the robot code is doing.
#[derive(Clone, Copy, Debug, PartialEq, Eq, Structural)]
pub struct Trace {
    pub bits: u8,
}

impl Trace {
    pub const ROBOT_CODE: u8 = 0x20;

    pub const IS_ROBORIO: u8 = 0x10;

    pub const TEST_MODE: u8 = 0x08;

    pub const AUTONOMOUS: u8 = 0x04;

    pub const TELEOP_MODE: u8 = 0x02;

    pub const DISABLED: u8 = 0x01;

    pub fn contains(&self, flag: u8) -> (r: bool)
        ensures
            r == (self.bits & flag == flag),
    {
        self.bits & flag == flag
    }

    /// Whether user code is running.
    pub fn is_code_started(&self) -> (r: bool)
        ensures
            r == (self.bits & Trace::ROBOT_CODE != 0),
    {
        self.bits & Trace::ROBOT_CODE != 0
    }

    /// The mode the trace bits show the robot running in.
    pub open spec fn spec_mode(self) -> Mode {
        if self.bits & Trace::TEST_MODE != 0 {
            Mode::TestMode
        } else if self.bits & Trace::AUTONOMOUS != 0 {
            Mode::Autonomous
        } else {
            Mode::Teleoperated
        }
    }

    pub fn mode(&self) -> (r: Mode)
        ensures
            r == self.spec_mode(),
    {
        if self.bits & Trace::TEST_MODE != 0 {
            Mode::TestMode
        } else if self.bits & Trace::AUTONOMOUS != 0 {
            Mode::Autonomous
        } else {
            Mode::Teleoperated
        }
    }
}

/// Payload size of each inbound tag id that is understood.
pub open spec fn spec_tag_size(id: u8) -> Option<nat> {
    if id == 0x01 {
        Some(8)
    } else if id == 0x04 {
        Some(8)
    } else if id == 0x05 {
        Some(33)
    } else if id == 0x06 {
        Some(8)
    } else if id == 0x08 {
        Some(25)
    } else if id == 0x09 {
        Some(9)
    } else if id == 0x0e {
        Some(14)
    } else {
        None
    }
}

/// Payload sizes: joystick output 8, disk 8, CPU 1 + 4 * 4 * 2, RAM 8, PDP log
/// 25, unknown 9, CAN metrics 14.
pub fn tag_size(id: u8) -> (r: Option<usize>)
    ensures
        r matches Some(n) ==> spec_tag_size(id) == Some(n as nat),
        r is None <==> spec_tag_size(id) is None,
{
    match id {
        0x01 => Some(8),
        0x04 => Some(8),
        0x05 => Some(1 + 4 * 4 * 2),
        0x06 => Some(8),
        0x08 => Some(25),
        0x09 => Some(9),
        0x0e => Some(14),
        _ => None,
    }
}

/// Walks the tag records from `pos`: the ids of the records read and the
/// position after the last one. It stops at the end of the bytes, at an
/// unknown id, or at a record cut short.
pub open spec fn scan_tags(b: Seq<u8>, pos: nat) -> (Seq<u8>, nat)
    decreases b.len() - pos,
{
    if pos >= b.len() {
        (Seq::empty(), pos)
    } else {
        match spec_tag_size(b[pos as int]) {
            None => (Seq::empty(), pos),
            Some(n) => if pos + 1 + n > b.len() {
                (Seq::empty(), pos)
            } else {
                let rest = scan_tags(b, pos + 1 + n);
                (seq![b[pos as int]] + rest.0, rest.1)
            },
        }
    }
}

/// A status packet as plain values; the battery is in 1/256 volt.
pub struct ResponseView {
    pub seqnum: u16,
    pub status: u8,
    pub trace: u8,
    pub battery_raw: u16,
    pub need_date: bool,
    pub tag_ids: Seq<u8>,
}

/// Status packets are 8 bytes of header, then an optional tag-block length
/// byte and the tag records.
pub open spec fn spec_decode(b: Seq<u8>) -> Option<(ResponseView, nat)> {
    if b.len() < 8 {
        None
    } else {
        let scanned = if b.len() > 8 {
            scan_tags(b, 9)
        } else {
            (Seq::empty(), 8nat)
        };
        Some(
            (
                ResponseView {
                    seqnum: read_be16(b[0], b[1]),
                    status: b[3],
                    trace: b[4],
                    battery_raw: read_be16(b[5], b[6]),
                    need_date: b[7] == 1,
                    tag_ids: scanned.0,
                },
                scanned.1,
            ),
        )
    }
}

/// Why a status packet could not be decoded.
#[derive(Clone, Copy, Debug, PartialEq, Eq, Structural)]
pub enum DecodeError {
    /// Fewer bytes than the fixed header needs.
    TooShort,
}

/// Status packet sent by the robot about every 20 ms.
#[derive(Debug)]
pub struct UdpResponsePacket {
    pub seqnum: u16,
    pub status: Status,
    pub trace: Trace,
    /// Battery voltage in 1/256 volt: `high * 256 + low`.
    pub battery_raw: u16,
    pub need_date: bool,
    /// Ids of the tag records read, in order.
    pub tag_ids: Vec<u8>,
}

impl View for UdpResponsePacket {
    type V = ResponseView;

    open spec fn view(&self) -> ResponseView {
        ResponseView {
            seqnum: self.seqnum,
            status: self.status.bits,
            trace: self.trace.bits,
            battery_raw: self.battery_raw,
            need_date: self.need_date,
            tag_ids: self.tag_ids@,
        }
    }
}

impl UdpResponsePacket {
    /// Decodes a status packet, returning it with the number of bytes read.
    pub fn decode(buf: &[u8]) -> (r: Result<(UdpResponsePacket, usize), DecodeError>)
        ensures
            match r {
                Ok((p, n)) => spec_decode(buf@) == Some((p@, n as nat)),
                Err(e) => spec_decode(buf@) is None && e == DecodeError::TooShort,
            },
    {
        if buf.len() < 8 {
            return Err(DecodeError::TooShort);
        }
        let seqnum = (buf[0] as u16) * 256 + buf[1] as u16;
        let status = Status { bits: buf[3] };
        let trace = Trace { bits: buf[4] };
        let battery_raw = (buf[5] as u16) * 256 + buf[6] as u16;
        let need_date = buf[7] == 1;
        let mut tag_ids: Vec<u8> = Vec::new();
        let mut pos: usize = 8;
        if buf.len() > 8 {
            pos = 9;
            let ghost total = scan_tags(buf@, 9);
            loop
                invariant_except_break
                    9 <= pos <= buf@.len(),
                    total == (tag_ids@ + scan_tags(buf@, pos as nat).0, scan_tags(
                        buf@,
                        pos as nat,
                    ).1),
                ensures
                    9 <= pos <= buf@.len(),
                    total == (tag_ids@, pos as nat),
                decreases buf@.len() - pos,
            {
                if pos >= buf.len() {
                    assert(scan_tags(buf@, pos as nat) == (Seq::<u8>::empty(), pos as nat));
                    break;
                }
                let id = buf[pos];
                match tag_size(id) {
                    None => {
                        assert(scan_tags(buf@, pos as nat) == (Seq::<u8>::empty(), pos as nat));
                        break;
                    },
                    Some(n) => {
                        if n + 1 > buf.len() - pos {
                            assert(scan_tags(buf@, pos as nat) == (Seq::<u8>::empty(), pos as nat));
                            break;
                        }
                        let ghost old_ids = tag_ids@;
                        tag_ids.push(id);
                        pos = pos + 1 + n;
                        assert(old_ids + scan_tags(buf@, (pos - 1 - n) as nat).0 =~= tag_ids@
                            + scan_tags(buf@, pos as nat).0);
                    },
                }
            }
            assert(tag_ids@ =~= total.0);
        }
        let p = UdpResponsePacket { seqnum, status, trace, battery_raw, need_date, tag_ids };
        Ok((p, pos))
    }
}

/// What the robot last reported, as plain values.
pub struct RecvView {
    pub status: u8,
    pub trace: u8,
    pub battery_raw: u16,
    pub need_date: bool,
    pub last_seqnum: u16,
    /// Whether any status packet has been recorded.
    pub received: bool,
}

impl RecvView {
    /// The state after recording one decoded status packet.
    pub open spec fn observe(self, p: ResponseView) -> RecvView {
        RecvView {
            status: p.status,
            trace: p.trace,
            battery_raw: p.battery_raw,
            need_date: p.need_date,
            last_seqnum: p.seqnum,
            received: true,
        }
    }
}

/// After recording any status packet that decodes, the battery reading is
/// `high + low / 256` volt, that is `256 * high + low` in 1/256 volt.
pub proof fn lemma_battery_reading(b: Seq<u8>, st: RecvView)
    requires
        spec_decode(b) is Some,
    ensures
        st.observe(spec_decode(b).unwrap().0).battery_raw == 256 * b[5] + b[6],
{
}

/// The latest status observed from the robot.
pub struct RecvState {
    status: Status,
    trace: Trace,
    battery_raw: u16,
    need_date: bool,
    last_seqnum: u16,
    received: bool,
}

impl View for RecvState {
    type V = RecvView;

    closed spec fn view(&self) -> RecvView {
        RecvView {
            status: self.status.bits,
            trace: self.trace.bits,
            battery_raw: self.battery_raw,
            need_date: self.need_date,
            last_seqnum: self.last_seqnum,
            received: self.received,
        }
    }
}

impl RecvState {
    pub fn new() -> (r: RecvState)
        ensures
            r@ == (RecvView {
                status: 0,
                trace: 0,
                battery_raw: 0,
                need_date: false,
                last_seqnum: 0,
                received: false,
            }),
    {
        RecvState {
            status: Status { bits: 0 },
            trace: Trace { bits: 0 },
            battery_raw: 0,
            need_date: false,
            last_seqnum: 0,
            received: false,
        }
    }

    /// Records a decoded status packet.
    pub fn update(&mut self, p: &UdpResponsePacket)
        ensures
            final(self)@ == old(self)@.observe(p@),
    {
        self.status = p.status;
        self.trace = p.trace;
        self.battery_raw = p.battery_raw;
        self.need_date = p.need_date;
        self.last_seqnum = p.seqnum;
        self.received = true;
    }

    pub fn status(&self) -> (r: Status)
        ensures
            r.bits == self@.status,
    {
        self.status
    }

    pub fn trace(&self) -> (r: Trace)
        ensures
            r.bits == self@.trace,
    {
        self.trace
    }

    /// Battery voltage in 1/256 volt.
    pub fn battery_raw(&self) -> (r: u16)
        ensures
            r == self@.battery_raw,
    {
        self.battery_raw
    }

    pub fn need_date(&self) -> (r: bool)
        ensures
            r == self@.need_date,
    {
        self.need_date
    }

    pub fn last_seqnum(&self) -> (r: u16)
        ensures
            r == self@.last_seqnum,
    {
        self.last_seqnum
    }

    /// The mode last observed on the robot, or `fallback` (the commanded
    /// mode) before any status has arrived.
    pub fn mode(&self, fallback: Mode) -> (r: Mode)
        ensures
            r == (if self@.received {
                Trace { bits: self@.trace }.spec_mode()
            } else {
                fallback
            }),
    {
        if self.received {
            self.trace.mode()
        } else {
            fallback
        }
    }
}

} // verus!
