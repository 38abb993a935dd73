use crate::wire::{be16, push_all, push_u16_be, read_be16};
use vstd::prelude::*;
use vstd::utf8::encode_utf8;

verus! {

/// Tag id of match information.
pub const TCP_MATCH_INFO: u8 = 0x07;

/// Tag id of game-specific data.
pub const TCP_GAME_DATA: u8 = 0x0e;

/// Tag id of a joystick descriptor.
pub const TCP_JOYSTICK_DESC: u8 = 0x02;

/// Inbound tag id of console output from the robot.
pub const TCP_STDOUT: u8 = 0x0c;

/// The kind of match being played.
#[derive(Clone, Copy, Debug, PartialEq, Eq, Structural)]
pub enum MatchType {
    NoMatch,
    Practice,
    Qualifications,
    Eliminations,
}

impl MatchType {
    pub open spec fn spec_byte(self) -> u8 {
        match self {
            MatchType::NoMatch => 0,
            MatchType::Practice => 1,
            MatchType::Qualifications => 2,
            MatchType::Eliminations => 3,
        }
    }

    pub fn to_byte(&self) -> (r: u8)
        ensures
            r == self.spec_byte(),
    {
        match self {
            MatchType::NoMatch => 0,
            MatchType::Practice => 1,
            MatchType::Qualifications => 2,
            MatchType::Eliminations => 3,
        }
    }
}

/// Name of the competition and kind of match.
#[derive(Debug)]
pub struct MatchInfo {
    competition: String,
    match_type: MatchType,
}

impl MatchInfo {
    #[verifier::type_invariant]
    spec fn name_fits(self) -> bool {
        encode_utf8(self.competition@).len() <= 255
    }

    pub closed spec fn spec_competition(self) -> Seq<char> {
        self.competition@
    }

    pub closed spec fn spec_match_type(self) -> MatchType {
        self.match_type
    }

    /// The competition name is sent behind a one-byte length, so its UTF-8
    /// encoding holds at most 255 bytes.
    pub fn new(competition: String, match_type: MatchType) -> (r: Option<MatchInfo>)
        ensures
            r is Some <==> encode_utf8(competition@).len() <= 255,
            r matches Some(m) ==> m.spec_competition() == competition@ && m.spec_match_type()
                == match_type,
    {
        if competition.as_str().as_bytes().len() <= 255 {
            Some(MatchInfo { competition, match_type })
        } else {
            None
        }
    }

    pub open spec fn spec_data(self) -> Seq<u8> {
        seq![encode_utf8(self.spec_competition()).len() as u8] + encode_utf8(
            self.spec_competition(),
        ) + seq![self.spec_match_type().spec_byte()]
    }

    pub fn id(&self) -> (r: u8)
        ensures
            r == TCP_MATCH_INFO,
    {
        TCP_MATCH_INFO
    }

    pub fn data(&self) -> (r: Vec<u8>)
        ensures
            r@ == self.spec_data(),
            r@.len() <= 257,
    {
        proof { use_type_invariant(self); }
        let name = self.competition.as_str().as_bytes();
        let mut buf: Vec<u8> = Vec::new();
        buf.push(name.len() as u8);
        push_all(&mut buf, name);
        buf.push(self.match_type.to_byte());
        assert(buf@ =~= self.spec_data());
        buf
    }
}

/// Game-specific message for the robot.
#[derive(Debug)]
pub struct GameData {
    pub gsm: String,
}

impl GameData {
    pub open spec fn spec_data(self) -> Seq<u8> {
        encode_utf8(self.gsm@)
    }

    pub fn id(&self) -> (r: u8)
        ensures
            r == TCP_GAME_DATA,
    {
        TCP_GAME_DATA
    }

    pub fn data(&self) -> (r: Vec<u8>)
        ensures
            r@ == self.spec_data(),
    {
        let mut buf: Vec<u8> = Vec::new();
        push_all(&mut buf, self.gsm.as_str().as_bytes());
        buf
    }
}

/// Descriptor of a joystick: a fixed descriptor of a six-axis, ten-button
/// controller with one POV.
#[derive(Clone, Copy, Debug)]
pub struct JoystickDesc;

pub open spec fn joystick_desc_bytes() -> Seq<u8> {
    seq![0u8, 0, 21, 3, 0x50, 0x53, 0x34, 6, 0, 1, 2, 3, 4, 5, 10, 1]
}

impl JoystickDesc {
    pub fn id(&self) -> (r: u8)
        ensures
            r == TCP_JOYSTICK_DESC,
    {
        TCP_JOYSTICK_DESC
    }

    pub fn data(&self) -> (r: Vec<u8>)
        ensures
            r@ == joystick_desc_bytes(),
    {
        let r: Vec<u8> = vec![0u8, 0, 21, 3, 0x50, 0x53, 0x34, 6, 0, 1, 2, 3, 4, 5, 10, 1];
        assert(r@ =~= joystick_desc_bytes());
        r
    }
}

/// A message to the robot over TCP.
#[derive(Debug)]
pub enum TcpTag {
    MatchInfo(MatchInfo),
    GameData(GameData),
    JoystickDesc(JoystickDesc),
}

/// A frame: total length (id and payload) as big-endian u16, id, payload.
pub open spec fn spec_frame(id: u8, data: Seq<u8>) -> Seq<u8> {
    be16((data.len() + 1) as u16) + seq![id] + data
}

impl TcpTag {
    pub open spec fn spec_id(&self) -> u8 {
        match self {
            TcpTag::MatchInfo(_) => TCP_MATCH_INFO,
            TcpTag::GameData(_) => TCP_GAME_DATA,
            TcpTag::JoystickDesc(_) => TCP_JOYSTICK_DESC,
        }
    }

    pub open spec fn spec_data(&self) -> Seq<u8> {
        match self {
            TcpTag::MatchInfo(m) => m.spec_data(),
            TcpTag::GameData(g) => g.spec_data(),
            TcpTag::JoystickDesc(_) => joystick_desc_bytes(),
        }
    }

    /// The frame's length field counts the id, so the payload is below 2^16 - 1.
    pub open spec fn spec_encodable(&self) -> bool {
        self.spec_data().len() < 0xffff
    }

    /// Whether the tag fits one frame.
    pub fn is_encodable(&self) -> (r: bool)
        ensures
            r == self.spec_encodable(),
    {
        match self {
            TcpTag::MatchInfo(m) => {
                let d = m.data();
                d.len() < 0xffff
            },
            TcpTag::GameData(g) => g.gsm.as_str().as_bytes().len() < 0xffff,
            TcpTag::JoystickDesc(_) => true,
        }
    }

    /// The whole frame of this tag.
    pub fn construct(&self) -> (r: Vec<u8>)
        requires
            self.spec_encodable(),
        ensures
            r@ == spec_frame(self.spec_id(), self.spec_data()),
    {
        let (id, data) = match self {
            TcpTag::MatchInfo(m) => (m.id(), m.data()),
            TcpTag::GameData(g) => (g.id(), g.data()),
            TcpTag::JoystickDesc(j) => (j.id(), j.data()),
        };
        let mut out: Vec<u8> = Vec::new();
        push_u16_be(&mut out, (data.len() + 1) as u16);
        out.push(id);
        push_all(&mut out, data.as_slice());
        assert(out@ =~= spec_frame(self.spec_id(), self.spec_data()));
        out
    }
}

/// One inbound frame.
#[derive(Debug)]
pub struct TcpFrame {
    pub id: u8,
    pub payload: Vec<u8>,
    /// Bytes of the buffer the frame took, length field included.
    pub consumed: usize,
}

/// Why no frame could be taken from the front of a buffer.
#[derive(Clone, Copy, Debug, PartialEq, Eq, Structural)]
pub enum FrameError {
    /// The buffer holds only part of a frame: wait for more bytes.
    NeedMore,
    /// The length field is zero, so the frame has no id; it takes two bytes.
    Empty,
}

/// The declared length of the frame at the front of `b`.
pub open spec fn frame_len(b: Seq<u8>) -> nat {
    read_be16(b[0], b[1]) as nat
}

/// Takes the frame at the front of `buf`.
pub fn decode_frame(buf: &[u8]) -> (r: Result<TcpFrame, FrameError>)
    ensures
        buf@.len() < 2 ==> r == Err::<TcpFrame, FrameError>(FrameError::NeedMore),
        buf@.len() >= 2 && frame_len(buf@) == 0 ==> r == Err::<TcpFrame, FrameError>(
            FrameError::Empty,
        ),
        buf@.len() >= 2 && frame_len(buf@) > 0 && buf@.len() < 2 + frame_len(buf@) ==> r == Err::<
            TcpFrame,
            FrameError,
        >(FrameError::NeedMore),
        buf@.len() >= 2 && frame_len(buf@) > 0 && buf@.len() >= 2 + frame_len(buf@) ==> (
        r matches Ok(f) && f.id == buf@[2] && f.payload@ == buf@.subrange(3, 2 + frame_len(buf@) as int)
            && f.consumed == 2 + frame_len(buf@)),
{
    if buf.len() < 2 {
        return Err(FrameError::NeedMore);
    }
    let len = (buf[0] as usize) * 256 + buf[1] as usize;
    if len == 0 {
        return Err(FrameError::Empty);
    }
    if buf.len() - 2 < len {
        return Err(FrameError::NeedMore);
    }
    let end: usize = 2 + len;
    let mut payload: Vec<u8> = Vec::new();
    let mut i: usize = 3;
    while i < end
        invariant
            end == 2 + len,
            3 <= i <= end <= buf@.len(),
            payload@ == buf@.subrange(3, i as int),
        decreases end - i,
    {
        payload.push(buf[i]);
        i += 1;
        assert(payload@ =~= buf@.subrange(3, i as int));
    }
    Ok(TcpFrame { id: buf[2], payload, consumed: end })
}

/// A line of console output from the robot. The payload is a big-endian
/// timestamp (IEEE-754 single precision, kept as its bits), a big-endian
/// seqnum, then the message bytes.
#[derive(Debug)]
pub struct Stdout {
    pub timestamp_bits: u32,
    pub seqnum: u16,
    pub message: Vec<u8>,
}

/// Reads a console-output payload; `None` when it is shorter than the six
/// bytes of timestamp and seqnum.
pub fn parse_stdout(payload: &[u8]) -> (r: Option<Stdout>)
    ensures
        payload@.len() < 6 <==> r is None,
        r matches Some(s) ==> s.timestamp_bits == payload@[0] as int * 0x1000000 + payload@[1] as int
            * 0x10000 + payload@[2] as int * 0x100 + payload@[3] as int && s.seqnum == read_be16(
            payload@[4],
            payload@[5],
        ) && s.message@ == payload@.subrange(6, payload@.len() as int),
{
    if payload.len() < 6 {
        return None;
    }
    let timestamp_bits = (payload[0] as u32) * 0x1000000 + (payload[1] as u32) * 0x10000
        + (payload[2] as u32) * 0x100 + payload[3] as u32;
    let seqnum = (payload[4] as u16) * 256 + payload[5] as u16;
    let mut message: Vec<u8> = Vec::new();
    let mut i: usize = 6;
    while i < payload.len()
        invariant
            6 <= i <= payload@.len(),
            message@ == payload@.subrange(6, i as int),
        decreases payload@.len() - i,
    {
        message.push(payload[i]);
        i += 1;
        assert(message@ =~= payload@.subrange(6, i as int));
    }
    Some(Stdout { timestamp_bits, seqnum, message })
}

} // verus!
