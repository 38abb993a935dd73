use crate::types::{spec_request_byte, AllianceColor, Request, REQUEST_REBOOT, REQUEST_RESTART_CODE};
use crate::udp_out::{
    axis_bytes, date_time_payload, i16_wire, i8_wire, joystick_payload, parse_control_frame,
    pov_bytes, record_fields, DateTime, UdpControlPacket, UdpTag, TAG_COUNTDOWN, TAG_DATE_TIME,
    TAG_JOYSTICKS, TAG_TIMEZONE, lemma_control_packet_framing, lemma_pov_len,
};
use crate::wire::{be16, be32, button_at, button_byte_count, button_bytes, lemma_pack_bound, pack_lsb, read_be16};
use vstd::arithmetic::power2::{lemma2_to64, pow2};
use vstd::prelude::*;
use vstd::utf8::{decode_utf8, encode_utf8, valid_utf8};

verus! {

/// A control-packet record as plain values.
pub enum TagModel {
    Joysticks { axes: Seq<i8>, buttons: Seq<bool>, povs: Seq<i16> },
    DateTime(DateTime),
    Timezone(Seq<char>),
    Countdown(u32),
}

pub open spec fn tag_model(t: UdpTag) -> TagModel {
    match t {
        UdpTag::Joysticks(j) => TagModel::Joysticks { axes: j.axes@, buttons: j.buttons@, povs: j.povs@ },
        UdpTag::DateTime(d) => TagModel::DateTime(d),
        UdpTag::Timezone(z) => TagModel::Timezone(z.tz@),
        UdpTag::Countdown(c) => TagModel::Countdown(c.seconds_bits),
    }
}

/// A control packet as plain values.
pub struct ControlModel {
    pub seqnum: u16,
    pub control: u8,
    pub request: Option<Request>,
    pub alliance_color: AllianceColor,
    pub alliance_position: u8,
    pub tags: Seq<TagModel>,
}

pub open spec fn packet_model(p: UdpControlPacket) -> ControlModel {
    ControlModel {
        seqnum: p.seqnum,
        control: p.control,
        request: p.request,
        alliance_color: p.alliance.spec_color(),
        alliance_position: p.alliance.spec_position(),
        tags: p.tags@.map_values(|t: UdpTag| tag_model(t)),
    }
}

pub open spec fn read_be32(b: Seq<u8>) -> u32 {
    (b[0] as int * 0x1000000 + b[1] as int * 0x10000 + b[2] as int * 0x100 + b[3] as int) as u32
}

pub open spec fn i8_of_wire(b: u8) -> i8 {
    if b < 128 {
        b as i8
    } else {
        (b - 256) as i8
    }
}

pub open spec fn i16_of_wire(v: u16) -> i16 {
    if v < 32768 {
        v as i16
    } else {
        (v - 65536) as i16
    }
}

/// Bit `j` of a byte, counting from the least significant.
pub open spec fn bit_of(byte: nat, j: nat) -> bool {
    (byte / pow2(j)) % 2 == 1
}

/// `n` buttons from their wire bytes (the last byte holds the first buttons).
pub open spec fn unpack_buttons(bytes: Seq<u8>, n: nat) -> Seq<bool> {
    Seq::new(n, |i: int| bit_of(bytes[bytes.len() - 1 - i / 8] as nat, (i % 8) as nat))
}

pub open spec fn parse_joystick(p: Seq<u8>) -> Option<TagModel> {
    if p.len() < 1 {
        None
    } else {
        let na = p[0] as int;
        if p.len() < na + 2 {
            None
        } else {
            let nb = p[1 + na] as int;
            let nbytes = button_byte_count(nb as nat) as int;
            if p.len() < na + 3 + nbytes {
                None
            } else {
                let np = p[2 + na + nbytes] as int;
                let rest = p.subrange(3 + na + nbytes, p.len() as int);
                if rest.len() != 2 * np {
                    None
                } else {
                    Some(
                        TagModel::Joysticks {
                            axes: Seq::new(na as nat, |i: int| i8_of_wire(p[1 + i])),
                            buttons: unpack_buttons(p.subrange(2 + na, 2 + na + nbytes), nb as nat),
                            povs: Seq::new(
                                np as nat,
                                |i: int| i16_of_wire(read_be16(rest[2 * i], rest[2 * i + 1])),
                            ),
                        },
                    )
                }
            }
        }
    }
}

/// The record with id `id` and payload `p`, when it is one of the known kinds.
pub open spec fn parse_payload(id: u8, p: Seq<u8>) -> Option<TagModel> {
    if id == TAG_COUNTDOWN {
        if p.len() == 4 {
            Some(TagModel::Countdown(read_be32(p)))
        } else {
            None
        }
    } else if id == TAG_DATE_TIME {
        if p.len() == 10 {
            Some(
                TagModel::DateTime(
                    DateTime {
                        micros: read_be32(p),
                        seconds: p[4],
                        minutes: p[5],
                        hours: p[6],
                        day: p[7],
                        month: p[8],
                        year: p[9],
                    },
                ),
            )
        } else {
            None
        }
    } else if id == TAG_TIMEZONE {
        if valid_utf8(p) {
            Some(TagModel::Timezone(decode_utf8(p)))
        } else {
            None
        }
    } else if id == TAG_JOYSTICKS {
        parse_joystick(p)
    } else {
        None
    }
}

pub open spec fn parse_records(recs: Seq<(u8, Seq<u8>)>) -> Option<Seq<TagModel>>
    decreases recs.len(),
{
    if recs.len() == 0 {
        Some(Seq::empty())
    } else {
        match (parse_payload(recs.last().0, recs.last().1), parse_records(recs.drop_last())) {
            (Some(t), Some(ts)) => Some(ts.push(t)),
            _ => None,
        }
    }
}

pub open spec fn parse_request(b: u8) -> Option<Option<Request>> {
    if b == 0 {
        Some(None)
    } else if b == REQUEST_REBOOT {
        Some(Some(Request::Reboot))
    } else if b == REQUEST_RESTART_CODE {
        Some(Some(Request::RestartCode))
    } else {
        None
    }
}

/// Reads a control packet back from its bytes.
pub open spec fn decode_control(b: Seq<u8>) -> Option<ControlModel> {
    match parse_control_frame(b) {
        Some((seqnum, _version, control, req, alliance, recs)) => match (
            parse_request(req),
            parse_records(recs),
        ) {
            (Some(request), Some(tags)) => if alliance <= 5 {
                Some(
                    ControlModel {
                        seqnum,
                        control,
                        request,
                        alliance_color: if alliance < 3 {
                            AllianceColor::Red
                        } else {
                            AllianceColor::Blue
                        },
                        alliance_position: (alliance % 3 + 1) as u8,
                        tags,
                    },
                )
            } else {
                None
            },
            _ => None,
        },
        None => None,
    }
}

proof fn lemma_pack_bit(b: Seq<bool>, s: int, k: nat, j: nat)
    requires
        j < k,
    ensures
        bit_of(pack_lsb(b, s, k), j) == button_at(b, s + j),
    decreases j,
{
    lemma2_to64();
    let p = pack_lsb(b, s + 1, (k - 1) as nat);
    assert(pack_lsb(b, s, k) == (if button_at(b, s) { 1nat } else { 0nat }) + 2 * p);
    if j > 0 {
        lemma_pack_bit(b, s + 1, (k - 1) as nat, (j - 1) as nat);
        vstd::arithmetic::power2::lemma_pow2_unfold(j);
        vstd::arithmetic::power2::lemma_pow2_pos((j - 1) as nat);
        vstd::arithmetic::div_mod::lemma_div_denominator(
            pack_lsb(b, s, k) as int,
            2,
            pow2((j - 1) as nat) as int,
        );
        assert(pack_lsb(b, s, k) / 2 == p);
    }
}

proof fn lemma_unpack_buttons(b: Seq<bool>)
    ensures
        unpack_buttons(button_bytes(b), b.len()) == b,
{
    let n = button_byte_count(b.len());
    let bytes = button_bytes(b);
    assert forall|i: int| 0 <= i < b.len() implies #[trigger] unpack_buttons(bytes, b.len())[i]
        == b[i] by {
        let c = i / 8;
        let j = i % 8;
        let k = n - 1 - c;
        assert(0 <= k < n);
        assert(bytes.len() - 1 - i / 8 == k);
        lemma_pack_bound(b, 8 * c, 8);
        lemma2_to64();
        assert(8 * (n - 1 - k) == 8 * c);
        assert(bytes[k] as nat == pack_lsb(b, 8 * c, 8));
        lemma_pack_bit(b, 8 * c, 8, j as nat);
        assert(8 * c + j == i);
    };
    assert(unpack_buttons(bytes, b.len()) =~= b);
}

proof fn lemma_pov_index(p: Seq<i16>, i: int)
    requires
        0 <= i < p.len(),
    ensures
        pov_bytes(p).len() == 2 * p.len(),
        pov_bytes(p)[2 * i] == be16(i16_wire(p[i]))[0],
        pov_bytes(p)[2 * i + 1] == be16(i16_wire(p[i]))[1],
    decreases p.len(),
{
    if i < p.len() - 1 {
        lemma_pov_index(p.drop_last(), i);
    } else {
        if p.len() > 1 {
            lemma_pov_index(p.drop_last(), 0);
        }
    }
    lemma_pov_len(p);
}

/// Where each part of a joystick payload lies.
proof fn lemma_joystick_parts(j: crate::udp_out::Joysticks)
    ensures
        ({
            let p = joystick_payload(j);
            let na = j.axes@.len() as int;
            let nbytes = button_byte_count(j.buttons@.len()) as int;
            &&& p.len() == na + 3 + nbytes + 2 * j.povs@.len()
            &&& p[0] == j.axes@.len() as u8
            &&& p.subrange(1, 1 + na) == axis_bytes(j.axes@)
            &&& p[1 + na] == j.buttons@.len() as u8
            &&& p.subrange(2 + na, 2 + na + nbytes) == button_bytes(j.buttons@)
            &&& p[2 + na + nbytes] == j.povs@.len() as u8
            &&& p.subrange(3 + na + nbytes, p.len() as int) == pov_bytes(j.povs@)
        }),
{
    let a = j.axes@;
    let b = j.buttons@;
    let v = j.povs@;
    let p = joystick_payload(j);
    lemma_pov_len(v);
    let na = a.len() as int;
    let nbytes = button_byte_count(b.len()) as int;
    let s1 = seq![a.len() as u8] + axis_bytes(a);
    let s2 = s1 + seq![b.len() as u8];
    let s3 = s2 + button_bytes(b);
    let s4 = s3 + seq![v.len() as u8];
    assert(p == s4 + pov_bytes(v));
    assert(p.subrange(3 + na + nbytes, p.len() as int) =~= pov_bytes(v));
    assert(p.subrange(0, 3 + na + nbytes) =~= s4);
    assert(s4.subrange(0, 2 + na + nbytes) =~= s3);
    assert(s3.subrange(2 + na, 2 + na + nbytes) =~= button_bytes(b));
    assert(p.subrange(2 + na, 2 + na + nbytes) =~= button_bytes(b));
    assert(s3.subrange(0, 2 + na) =~= s2);
    assert(s2.subrange(0, 1 + na) =~= s1);
    assert(s1.subrange(1, 1 + na) =~= axis_bytes(a));
    assert(p.subrange(1, 1 + na) =~= axis_bytes(a));
}

proof fn lemma_axes_back(p: Seq<u8>, a: Seq<i8>)
    requires
        p.len() >= 1 + a.len(),
        p.subrange(1, 1 + a.len() as int) == axis_bytes(a),
    ensures
        Seq::new(a.len(), |i: int| i8_of_wire(p[1 + i])) == a,
{
    assert forall|i: int| 0 <= i < a.len() implies p[1 + i] == i8_wire(a[i]) by {
        assert(p.subrange(1, 1 + a.len() as int)[i] == p[1 + i]);
    };
    assert(Seq::new(a.len(), |i: int| i8_of_wire(p[1 + i])) =~= a);
}

proof fn lemma_povs_back(rest: Seq<u8>, v: Seq<i16>)
    requires
        rest == pov_bytes(v),
    ensures
        Seq::new(v.len(), |i: int| i16_of_wire(read_be16(rest[2 * i], rest[2 * i + 1]))) == v,
{
    assert forall|i: int| 0 <= i < v.len() implies i16_of_wire(
        read_be16(rest[2 * i], rest[2 * i + 1]),
    ) == v[i] by {
        lemma_pov_index(v, i);
    };
    assert(Seq::new(v.len(), |i: int| i16_of_wire(read_be16(rest[2 * i], rest[2 * i + 1]))) =~= v);
}

proof fn lemma_joystick_round_trip(j: crate::udp_out::Joysticks)
    requires
        joystick_payload(j).len() <= 254,
        j.buttons@.len() <= 255,
    ensures
        parse_joystick(joystick_payload(j)) == Some(
            TagModel::Joysticks { axes: j.axes@, buttons: j.buttons@, povs: j.povs@ },
        ),
{
    let p = joystick_payload(j);
    let na = j.axes@.len() as int;
    let nbytes = button_byte_count(j.buttons@.len()) as int;
    lemma_joystick_parts(j);
    lemma_unpack_buttons(j.buttons@);
    lemma_axes_back(p, j.axes@);
    lemma_povs_back(p.subrange(3 + na + nbytes, p.len() as int), j.povs@);
}

proof fn lemma_be32_back(v: u32)
    ensures
        read_be32(be32(v)) == v,
{
    let x = v as int;
    vstd::arithmetic::div_mod::lemma_fundamental_div_mod(x, 256);
    vstd::arithmetic::div_mod::lemma_fundamental_div_mod(x / 256, 256);
    vstd::arithmetic::div_mod::lemma_fundamental_div_mod(x / 0x10000, 256);
    vstd::arithmetic::div_mod::lemma_div_denominator(x, 256, 256);
    vstd::arithmetic::div_mod::lemma_div_denominator(x, 0x10000, 256);
    assert(x / 0x1000000 < 256);
}

proof fn lemma_payload_round_trip(t: UdpTag)
    requires
        t.spec_encodable(),
    ensures
        parse_payload(t.spec_id(), t.spec_payload()) == Some(tag_model(t)),
{
    match t {
        UdpTag::Joysticks(j) => {
            lemma_joystick_round_trip(j);
        },
        UdpTag::DateTime(d) => {
            lemma_be32_back(d.micros);
            let p = date_time_payload(d);
            assert(p.subrange(0, 4) =~= be32(d.micros));
            assert(read_be32(p) == read_be32(be32(d.micros)));
        },
        UdpTag::Timezone(z) => {
            vstd::utf8::encode_utf8_decode_utf8(z.tz@);
            vstd::utf8::encode_utf8_valid_utf8(z.tz@);
        },
        UdpTag::Countdown(c) => {
            lemma_be32_back(c.seconds_bits);
        },
    }
}

proof fn lemma_parse_records(tags: Seq<UdpTag>)
    requires
        forall|i: int| 0 <= i < tags.len() ==> #[trigger] tags[i].spec_encodable(),
    ensures
        parse_records(record_fields(tags)) == Some(tags.map_values(|t: UdpTag| tag_model(t))),
    decreases tags.len(),
{
    if tags.len() > 0 {
        let init = tags.drop_last();
        assert forall|i: int| 0 <= i < init.len() implies #[trigger] init[i].spec_encodable() by {
            assert(init[i] == tags[i]);
        };
        lemma_parse_records(init);
        assert(record_fields(tags).drop_last() =~= record_fields(init));
        assert(tags[tags.len() - 1].spec_encodable());
        lemma_payload_round_trip(tags.last());
        assert(tags.map_values(|t: UdpTag| tag_model(t)) =~= init.map_values(
            |t: UdpTag| tag_model(t),
        ).push(tag_model(tags.last())));
    } else {
        assert(tags.map_values(|t: UdpTag| tag_model(t)) =~= Seq::<TagModel>::empty());
    }
}

/// Decoding the bytes of an encoded control packet gives the packet back:
/// its header fields, alliance, request and every record.
pub proof fn lemma_control_round_trip(p: UdpControlPacket)
    requires
        p.spec_encodable(),
        1 <= p.alliance.spec_position() <= 3,
    ensures
        decode_control(p.spec_encode()) == Some(packet_model(p)),
{
    lemma_control_packet_framing(p);
    lemma_parse_records(p.tags@);
    p.alliance.lemma_byte_in_range();
}

} // verus!
