use crate::types::{spec_request_byte, request_byte, Alliance, Request};
use crate::wire::{be16, be32, button_bytes, push_all, push_u16_be, push_u32_be, to_u8_vec};
use vstd::prelude::*;
use vstd::utf8::encode_utf8;

verus! {

/// Tag id of the joystick state record.
pub const TAG_JOYSTICKS: u8 = 0x0c;

/// Tag id of the date-and-time record.
pub const TAG_DATE_TIME: u8 = 0x0f;

/// Tag id of the time-zone record.
pub const TAG_TIMEZONE: u8 = 0x10;

/// Tag id of the match countdown record.
pub const TAG_COUNTDOWN: u8 = 0x07;

/// Version byte sent in every control packet.
pub const COMM_VERSION: u8 = 0x01;

/// State of one joystick as it goes on the wire.
#[derive(Debug)]
pub struct Joysticks {
    /// Axis values as signed bytes.
    pub axes: Vec<i8>,
    pub buttons: Vec<bool>,
    /// POV angles in degrees, `-1` when not pressed.
    pub povs: Vec<i16>,
}

impl Joysticks {
    pub fn new(axes: Vec<i8>, buttons: Vec<bool>, povs: Vec<i16>) -> (r: Joysticks)
        ensures
            r.axes == axes,
            r.buttons == buttons,
            r.povs == povs,
    {
        Joysticks { axes, buttons, povs }
    }
}

/// Current date and time, sent when the controller asks for it.
#[derive(Clone, Copy, Debug, PartialEq, Eq, Structural)]
pub struct DateTime {
    pub micros: u32,
    pub seconds: u8,
    pub minutes: u8,
    pub hours: u8,
    pub day: u8,
    pub month: u8,
    /// Years since 1900.
    pub year: u8,
}

/// Name of the local time zone.
#[derive(Debug)]
pub struct Timezone {
    pub tz: String,
}

/// Remaining match time; `seconds_bits` holds the IEEE-754 bits of the
/// single-precision number of seconds.
#[derive(Clone, Copy, Debug, PartialEq, Eq, Structural)]
pub struct Countdown {
    pub seconds_bits: u32,
}

/// A record carried by a UDP control packet.
#[derive(Debug)]
pub enum UdpTag {
    Joysticks(Joysticks),
    DateTime(DateTime),
    Timezone(Timezone),
    Countdown(Countdown),
}

/// Two's-complement byte of a signed byte.
pub open spec fn i8_wire(x: i8) -> u8 {
    if x >= 0 {
        x as u8
    } else {
        (x + 256) as u8
    }
}

/// Two's-complement bits of a signed 16-bit value.
pub open spec fn i16_wire(x: i16) -> u16 {
    if x >= 0 {
        x as u16
    } else {
        (x + 65536) as u16
    }
}

fn i8_to_wire(x: i8) -> (r: u8)
    ensures
        r == i8_wire(x),
{
    if x >= 0 {
        x as u8
    } else {
        (x as i16 + 256) as u8
    }
}

fn i16_to_wire(x: i16) -> (r: u16)
    ensures
        r == i16_wire(x),
{
    if x >= 0 {
        x as u16
    } else {
        (x as i32 + 65536) as u16
    }
}

/// POV angles, each as a big-endian 16-bit value.
pub open spec fn pov_bytes(p: Seq<i16>) -> Seq<u8>
    decreases p.len(),
{
    if p.len() == 0 {
        Seq::empty()
    } else {
        pov_bytes(p.drop_last()) + be16(i16_wire(p.last()))
    }
}

pub open spec fn axis_bytes(a: Seq<i8>) -> Seq<u8> {
    a.map_values(|x: i8| i8_wire(x))
}

pub open spec fn joystick_payload(j: Joysticks) -> Seq<u8> {
    seq![j.axes@.len() as u8] + axis_bytes(j.axes@) + seq![j.buttons@.len() as u8] + button_bytes(
        j.buttons@,
    ) + seq![j.povs@.len() as u8] + pov_bytes(j.povs@)
}

pub open spec fn date_time_payload(d: DateTime) -> Seq<u8> {
    be32(d.micros) + seq![d.seconds, d.minutes, d.hours, d.day, d.month, d.year]
}

impl UdpTag {
    pub open spec fn spec_id(&self) -> u8 {
        match self {
            UdpTag::Joysticks(_) => TAG_JOYSTICKS,
            UdpTag::DateTime(_) => TAG_DATE_TIME,
            UdpTag::Timezone(_) => TAG_TIMEZONE,
            UdpTag::Countdown(_) => TAG_COUNTDOWN,
        }
    }

    /// The bytes of the record after its id.
    pub open spec fn spec_payload(&self) -> Seq<u8> {
        match self {
            UdpTag::Joysticks(j) => joystick_payload(*j),
            UdpTag::DateTime(d) => date_time_payload(*d),
            UdpTag::Timezone(t) => encode_utf8(t.tz@),
            UdpTag::Countdown(c) => be32(c.seconds_bits),
        }
    }

    /// The length byte counts the id, so the payload holds at most 254 bytes;
    /// a joystick's button count is one byte too.
    pub open spec fn spec_encodable(&self) -> bool {
        &&& self.spec_payload().len() <= 254
        &&& match self {
            UdpTag::Joysticks(j) => j.buttons@.len() <= 255,
            _ => true,
        }
    }

    /// The whole record: `len id payload`.
    pub open spec fn spec_record(&self) -> Seq<u8> {
        seq![(self.spec_payload().len() + 1) as u8, self.spec_id()] + self.spec_payload()
    }

    pub fn id(&self) -> (r: u8)
        ensures
            r == self.spec_id(),
    {
        match self {
            UdpTag::Joysticks(_) => TAG_JOYSTICKS,
            UdpTag::DateTime(_) => TAG_DATE_TIME,
            UdpTag::Timezone(_) => TAG_TIMEZONE,
            UdpTag::Countdown(_) => TAG_COUNTDOWN,
        }
    }

    /// Whether the record fits its one-byte length.
    pub fn is_encodable(&self) -> (r: bool)
        ensures
            r == self.spec_encodable(),
    {
        match self {
            UdpTag::Joysticks(j) => {
                let a = j.axes.len();
                let b = j.buttons.len();
                let p = j.povs.len();
                if a > 254 || b > 255 || p > 127 {
                    proof { lemma_pov_len(j.povs@); }
                    false
                } else {
                    proof { lemma_pov_len(j.povs@); }
                    let nb: usize = b / 8 + if b % 8 == 0 { 0 } else { 1 };
                    3 + a + nb + 2 * p <= 254
                }
            },
            UdpTag::DateTime(_) => true,
            UdpTag::Timezone(t) => t.tz.as_str().as_bytes().len() <= 254,
            UdpTag::Countdown(_) => true,
        }
    }

    /// The payload bytes of this record.
    pub fn data(&self) -> (r: Vec<u8>)
        requires
            self.spec_encodable(),
        ensures
            r@ == self.spec_payload(),
    {
        let mut buf: Vec<u8> = Vec::new();
        match self {
            UdpTag::Joysticks(j) => {
                proof { lemma_pov_len(j.povs@); }
                buf.push(j.axes.len() as u8);
                let mut i: usize = 0;
                while i < j.axes.len()
                    invariant
                        i <= j.axes@.len(),
                        buf@ == seq![j.axes@.len() as u8] + axis_bytes(j.axes@.subrange(0, i as int)),
                    decreases j.axes@.len() - i,
                {
                    buf.push(i8_to_wire(j.axes[i]));
                    i += 1;
                    assert(axis_bytes(j.axes@.subrange(0, i as int)) =~= axis_bytes(
                        j.axes@.subrange(0, i - 1),
                    ).push(i8_wire(j.axes@[i - 1])));
                }
                assert(j.axes@.subrange(0, j.axes@.len() as int) =~= j.axes@);
                buf.push(j.buttons.len() as u8);
                let packed = to_u8_vec(j.buttons.as_slice());
                push_all(&mut buf, packed.as_slice());
                buf.push(j.povs.len() as u8);
                let ghost pre = buf@;
                let mut k: usize = 0;
                while k < j.povs.len()
                    invariant
                        k <= j.povs@.len(),
                        buf@ == pre + pov_bytes(j.povs@.subrange(0, k as int)),
                    decreases j.povs@.len() - k,
                {
                    push_u16_be(&mut buf, i16_to_wire(j.povs[k]));
                    k += 1;
                    assert(j.povs@.subrange(0, k as int).drop_last() =~= j.povs@.subrange(
                        0,
                        k - 1,
                    ));
                }
                assert(j.povs@.subrange(0, j.povs@.len() as int) =~= j.povs@);
                assert(buf@ =~= joystick_payload(*j));
            },
            UdpTag::DateTime(d) => {
                push_u32_be(&mut buf, d.micros);
                buf.push(d.seconds);
                buf.push(d.minutes);
                buf.push(d.hours);
                buf.push(d.day);
                buf.push(d.month);
                buf.push(d.year);
                assert(buf@ =~= date_time_payload(*d));
            },
            UdpTag::Timezone(t) => {
                push_all(&mut buf, t.tz.as_str().as_bytes());
            },
            UdpTag::Countdown(c) => {
                push_u32_be(&mut buf, c.seconds_bits);
            },
        }
        buf
    }

    /// Appends the whole record, length byte and id included.
    pub fn encode_into(&self, buf: &mut Vec<u8>)
        requires
            self.spec_encodable(),
        ensures
            final(buf)@ == old(buf)@ + self.spec_record(),
    {
        let data = self.data();
        buf.push((data.len() + 1) as u8);
        buf.push(self.id());
        push_all(buf, data.as_slice());
        assert(final(buf)@ =~= old(buf)@ + self.spec_record());
    }
}

pub proof fn lemma_pov_len(p: Seq<i16>)
    ensures
        pov_bytes(p).len() == 2 * p.len(),
    decreases p.len(),
{
    if p.len() > 0 {
        lemma_pov_len(p.drop_last());
    }
}

/// The records of `tags`, one after another in queue order.
pub open spec fn records(tags: Seq<UdpTag>) -> Seq<u8>
    decreases tags.len(),
{
    if tags.len() == 0 {
        Seq::empty()
    } else {
        records(tags.drop_last()) + tags.last().spec_record()
    }
}

/// A control packet sent to the robot every tick.
#[derive(Debug)]
pub struct UdpControlPacket {
    pub seqnum: u16,
    pub control: u8,
    pub request: Option<Request>,
    pub alliance: Alliance,
    pub tags: Vec<UdpTag>,
}

impl UdpControlPacket {
    /// Header: seqnum, version, control, request and alliance bytes.
    pub open spec fn spec_header(&self) -> Seq<u8> {
        be16(self.seqnum) + seq![
            COMM_VERSION,
            self.control,
            spec_request_byte(self.request),
            self.alliance.spec_byte(),
        ]
    }

    pub open spec fn spec_encodable(&self) -> bool {
        forall|i: int| 0 <= i < self.tags@.len() ==> #[trigger] self.tags@[i].spec_encodable()
    }

    pub open spec fn spec_encode(&self) -> Seq<u8> {
        self.spec_header() + records(self.tags@)
    }

    /// Serialises the packet for the wire.
    pub fn encode(&self) -> (r: Vec<u8>)
        requires
            self.spec_encodable(),
        ensures
            r@ == self.spec_encode(),
    {
        let mut buf: Vec<u8> = Vec::new();
        push_u16_be(&mut buf, self.seqnum);
        buf.push(COMM_VERSION);
        buf.push(self.control);
        buf.push(request_byte(self.request));
        buf.push(self.alliance.to_byte());
        assert(buf@ =~= self.spec_header());
        let mut i: usize = 0;
        while i < self.tags.len()
            invariant
                i <= self.tags@.len(),
                self.spec_encodable(),
                buf@ == self.spec_header() + records(self.tags@.subrange(0, i as int)),
            decreases self.tags@.len() - i,
        {
            self.tags[i].encode_into(&mut buf);
            i += 1;
            assert(self.tags@.subrange(0, i as int).drop_last() =~= self.tags@.subrange(0, i - 1));
            assert(buf@ =~= self.spec_header() + records(self.tags@.subrange(0, i as int)));
        }
        assert(self.tags@.subrange(0, self.tags@.len() as int) =~= self.tags@);
        buf
    }
}

/// Splits a run of `len id payload` records into `(id, payload)` pairs;
/// `None` when a length byte is zero or runs past the end.
pub open spec fn split_records(b: Seq<u8>) -> Option<Seq<(u8, Seq<u8>)>>
    decreases b.len(),
{
    if b.len() == 0 {
        Some(Seq::empty())
    } else if b[0] == 0 || b.len() < 1 + b[0] {
        None
    } else {
        match split_records(b.subrange(1 + b[0], b.len() as int)) {
            Some(rest) => Some(seq![(b[1], b.subrange(2, 1 + b[0]))] + rest),
            None => None,
        }
    }
}

/// Header fields of a control packet, and its records as `(id, payload)`.
pub open spec fn parse_control_frame(b: Seq<u8>) -> Option<(u16, u8, u8, u8, u8, Seq<(u8, Seq<u8>)>)> {
    if b.len() < 6 {
        None
    } else {
        match split_records(b.subrange(6, b.len() as int)) {
            Some(recs) => Some((crate::wire::read_be16(b[0], b[1]), b[2], b[3], b[4], b[5], recs)),
            None => None,
        }
    }
}

/// Each record as its id and payload.
pub open spec fn record_fields(tags: Seq<UdpTag>) -> Seq<(u8, Seq<u8>)> {
    tags.map_values(|t: UdpTag| (t.spec_id(), t.spec_payload()))
}

proof fn lemma_records_front(tags: Seq<UdpTag>)
    requires
        tags.len() > 0,
    ensures
        records(tags) == tags[0].spec_record() + records(tags.drop_first()),
    decreases tags.len(),
{
    if tags.len() == 1 {
        assert(tags.drop_last() =~= Seq::<UdpTag>::empty());
        assert(tags.drop_first() =~= Seq::<UdpTag>::empty());
        assert(records(tags) =~= tags[0].spec_record() + records(tags.drop_first()));
    } else {
        lemma_records_front(tags.drop_last());
        assert(tags.drop_last().drop_first() =~= tags.drop_first().drop_last());
        assert(tags.drop_first().last() == tags.last());
        assert(tags.drop_last()[0] == tags[0]);
        assert(records(tags) =~= tags[0].spec_record() + records(tags.drop_first()));
    }
}

proof fn lemma_split_records(tags: Seq<UdpTag>)
    requires
        forall|i: int| 0 <= i < tags.len() ==> #[trigger] tags[i].spec_encodable(),
    ensures
        split_records(records(tags)) == Some(record_fields(tags)),
    decreases tags.len(),
{
    if tags.len() == 0 {
        assert(record_fields(tags) =~= Seq::<(u8, Seq<u8>)>::empty());
    } else {
        lemma_records_front(tags);
        let t = tags[0];
        assert(t.spec_encodable());
        let b = records(tags);
        let r = t.spec_record();
        let n = t.spec_payload().len() + 1;
        assert(r.len() == 1 + n);
        assert(b[0] == n as u8);
        assert(b.subrange(1 + b[0], b.len() as int) =~= records(tags.drop_first()));
        assert(b.subrange(2, 1 + b[0]) =~= t.spec_payload());
        assert(b[1] == t.spec_id());
        assert forall|i: int| 0 <= i < tags.drop_first().len() implies #[trigger] tags.drop_first()[i].spec_encodable() by {
            assert(tags.drop_first()[i] == tags[i + 1]);
        };
        lemma_split_records(tags.drop_first());
        assert(record_fields(tags) =~= seq![(t.spec_id(), t.spec_payload())] + record_fields(
            tags.drop_first(),
        ));
    }
}

/// An encoded control packet reads back to its header fields and, record by
/// record, to each tag's id and payload bytes.
pub proof fn lemma_control_packet_framing(p: UdpControlPacket)
    requires
        p.spec_encodable(),
    ensures
        parse_control_frame(p.spec_encode()) == Some(
            (
                p.seqnum,
                COMM_VERSION,
                p.control,
                spec_request_byte(p.request),
                p.alliance.spec_byte(),
                record_fields(p.tags@),
            ),
        ),
{
    let b = p.spec_encode();
    lemma_split_records(p.tags@);
    assert(b.subrange(6, b.len() as int) =~= records(p.tags@));
}

} // verus!

