use ds::send::{JoystickValue, SendState};
use ds::tcp::{decode_frame, parse_stdout, FrameError, GameData, JoystickDesc, MatchInfo, MatchType, TcpTag};
use ds::team::ip_from_team_number;
use ds::types::{Alliance, DsMode, Mode, Request, ENABLED, ESTOP, FMS_ATTACHED};
use ds::udp_in::{DecodeError, RecvState, Trace, UdpResponsePacket};
use ds::udp_out::{Countdown, DateTime, Joysticks, Timezone, UdpTag};
use ds::wire::to_u8_vec;

fn no_joysticks() -> Vec<Vec<JoystickValue>> {
    Vec::new()
}

#[test]
fn alliance_encoding() {
    assert_eq!(Alliance::new_red(1).to_byte(), 0x00);
    assert_eq!(Alliance::new_red(2).to_byte(), 0x01);
    assert_eq!(Alliance::new_red(3).to_byte(), 0x02);
    assert_eq!(Alliance::new_blue(1).to_byte(), 0x03);
    assert_eq!(Alliance::new_blue(3).to_byte(), 0x05);
}

#[test]
fn control_byte_composition() {
    let mut s = SendState::new(Alliance::new_red(1));
    s.set_mode(Mode::Autonomous);
    s.enable();
    s.set_ds_mode(DsMode::Normal);
    let p = s.control(&no_joysticks());
    assert_eq!(p.control, 0x06);

    s.estop();
    let p = s.control(&no_joysticks());
    assert_eq!(p.control & ESTOP, ESTOP);
    assert_eq!(p.control & ENABLED, 0);
    assert_eq!(p.control, 0x82);
}

#[test]
fn fms_mode_sets_attached_bit() {
    let mut s = SendState::new(Alliance::new_blue(2));
    s.set_mode(Mode::Teleoperated);
    s.set_ds_mode(DsMode::Fms);
    assert_eq!(*s.ds_mode(), DsMode::Fms);
    let p = s.control(&no_joysticks());
    assert_eq!(p.control, FMS_ATTACHED);
    s.set_mode(Mode::TestMode);
    let p = s.control(&no_joysticks());
    assert_eq!(p.control, FMS_ATTACHED | 0x01);
}

#[test]
fn estop_latches_against_enable() {
    let mut s = SendState::new(Alliance::new_red(2));
    s.enable();
    assert!(s.enabled());
    s.estop();
    assert!(s.estopped());
    assert!(!s.enabled());
    s.enable();
    assert!(!s.enabled());
    let p = s.control(&no_joysticks());
    assert_eq!(p.control & ENABLED, 0);
}

#[test]
fn request_is_one_shot() {
    let mut s = SendState::new(Alliance::new_red(1));
    s.request(Request::RestartCode);
    let first = s.control(&no_joysticks()).encode();
    let second = s.control(&no_joysticks()).encode();
    assert_eq!(first[4], 0x04);
    assert_eq!(second[4], 0x00);
    s.request(Request::Reboot);
    let third = s.control(&no_joysticks()).encode();
    assert_eq!(third[4], 0x08);
}

#[test]
fn seqnums_are_consecutive_and_wrap() {
    let mut s = SendState::new(Alliance::new_red(1));
    for k in 0..5u16 {
        let p = s.control(&no_joysticks());
        assert_eq!(p.seqnum, k);
        s.increment_seqnum();
    }
    s.reset_seqnum();
    assert_eq!(s.seqnum(), 0);
    for _ in 0..65535u32 {
        s.increment_seqnum();
    }
    assert_eq!(s.control(&no_joysticks()).seqnum, 0xffff);
    s.increment_seqnum();
    assert_eq!(s.control(&no_joysticks()).seqnum, 0);
}

#[test]
fn set_mode_twice_is_set_mode_once() {
    let mut a = SendState::new(Alliance::new_red(1));
    let mut b = SendState::new(Alliance::new_red(1));
    a.set_mode(Mode::Teleoperated);
    b.set_mode(Mode::Teleoperated);
    b.set_mode(Mode::Teleoperated);
    assert_eq!(*a.mode(), *b.mode());
    assert_eq!(a.control(&no_joysticks()).encode(), b.control(&no_joysticks()).encode());
}

#[test]
fn pending_udp_empty_after_control() {
    let mut s = SendState::new(Alliance::new_red(1));
    s.queue_udp(UdpTag::Countdown(Countdown { seconds_bits: 0x41200000 }));
    s.queue_udp(UdpTag::Timezone(Timezone { tz: String::from("UTC") }));
    assert_eq!(s.pending_udp().len(), 2);
    let p = s.control(&no_joysticks());
    assert_eq!(p.tags.len(), 2);
    assert!(s.pending_udp().is_empty());
    assert_eq!(p.tags[0].id(), 0x07);
    assert_eq!(p.tags[1].id(), 0x10);
}

#[test]
fn control_packet_bytes() {
    let mut s = SendState::new(Alliance::new_blue(1));
    s.set_alliance(Alliance::new_blue(2));
    s.increment_seqnum();
    s.queue_udp(UdpTag::Timezone(Timezone { tz: String::from("UTC") }));
    s.queue_udp(UdpTag::Countdown(Countdown { seconds_bits: 0x41200000 }));
    let bytes = s.control(&no_joysticks()).encode();
    assert_eq!(
        bytes,
        vec![0x00, 0x01, 0x01, 0x02, 0x00, 0x04, 4, 0x10, b'U', b'T', b'C', 5, 0x07, 0x41, 0x20, 0x00, 0x00]
    );
}

#[test]
fn date_time_record() {
    let d = DateTime { micros: 0x01020304, seconds: 5, minutes: 6, hours: 7, day: 8, month: 9, year: 124 };
    let t = UdpTag::DateTime(d);
    assert!(t.is_encodable());
    assert_eq!(t.data(), vec![1, 2, 3, 4, 5, 6, 7, 8, 9, 124]);
    let mut buf = Vec::new();
    t.encode_into(&mut buf);
    assert_eq!(buf, vec![11, 0x0f, 1, 2, 3, 4, 5, 6, 7, 8, 9, 124]);
}

#[test]
fn joystick_record_from_readings() {
    let mut s = SendState::new(Alliance::new_red(1));
    let readings = vec![vec![
        JoystickValue::Button { id: 1, pressed: true },
        JoystickValue::Button { id: 10, pressed: true },
        JoystickValue::Button { id: 11, pressed: true },
        JoystickValue::Axis { id: 5, value: 12 },
        JoystickValue::Axis { id: 0, value: 127 },
        JoystickValue::Axis { id: 6, value: 1 },
        JoystickValue::POV { id: 0, angle: 90 },
        JoystickValue::POV { id: 1, angle: 180 },
    ]];
    let p = s.control(&readings);
    assert_eq!(p.tags.len(), 1);
    match &p.tags[0] {
        UdpTag::Joysticks(j) => {
            assert_eq!(j.axes, vec![127, 0, 0, 0, 0, 12]);
            assert_eq!(
                j.buttons,
                vec![true, false, false, false, false, false, false, false, false, true]
            );
            assert_eq!(j.povs, vec![90]);
        }
        _ => panic!("expected a joystick record"),
    }
    assert_eq!(
        p.tags[0].data(),
        vec![6, 127, 0, 0, 0, 0, 12, 10, 0x02, 0x01, 1, 0x00, 90]
    );
}

#[test]
fn joystick_defaults_and_negative_axis() {
    let t = UdpTag::Joysticks(Joysticks::new(vec![-128, 0, 0, 0, 0, 0], vec![false; 10], vec![-1]));
    assert_eq!(t.data(), vec![6, 0x80, 0, 0, 0, 0, 0, 10, 0, 0, 1, 0xff, 0xff]);
}

#[test]
fn button_packing() {
    assert_eq!(to_u8_vec(&[]), Vec::<u8>::new());
    assert_eq!(to_u8_vec(&[true]), vec![0x01]);
    assert_eq!(to_u8_vec(&[false, true, false, false, false, false, false, true]), vec![0x82]);
    let mut b = vec![false; 10];
    b[0] = true;
    b[9] = true;
    assert_eq!(to_u8_vec(&b), vec![0x02, 0x01]);
}

#[test]
fn udp_status_decode() {
    let bytes = [0x01, 0x77, 0x01, 0x02, 0x31, 0x0b, 0xdc, 0x00];
    let (p, n) = UdpResponsePacket::decode(&bytes).unwrap();
    assert_eq!(p.seqnum, 0x0177);
    assert_eq!(p.status.bits, 0x02);
    assert_eq!(p.trace.bits, 0x31);
    assert_eq!(p.battery_raw, 11 * 256 + 220);
    assert!(!p.need_date);
    assert!(p.tag_ids.is_empty());
    assert_eq!(n, 8);
    assert!(p.trace.is_code_started());
    assert!(p.trace.contains(Trace::IS_ROBORIO));
}

#[test]
fn udp_status_too_short() {
    let bytes = [0x01, 0x77, 0x01, 0x02, 0x31, 0x0b, 0xdc];
    assert_eq!(UdpResponsePacket::decode(&bytes).unwrap_err(), DecodeError::TooShort);
    assert_eq!(UdpResponsePacket::decode(&[]).unwrap_err(), DecodeError::TooShort);
}

#[test]
fn inbound_tags_stop_on_unknown_id() {
    let mut bytes = vec![0x01, 0x77, 0x01, 0x02, 0x31, 0x0b, 0xdc, 0x01, 0x22, 0x05, 0x02];
    bytes.extend(std::iter::repeat(0x41).take(32));
    bytes.extend([0xff, 0x99, 0x99, 0x01, 0, 0, 0, 0, 0, 0, 0, 0]);
    let (p, n) = UdpResponsePacket::decode(&bytes).unwrap();
    assert_eq!(p.tag_ids, vec![0x05]);
    assert_eq!(n, 9 + 34);
    assert!(p.need_date);
}

#[test]
fn inbound_tags_stop_on_cut_record() {
    let bytes = [0x00, 0x01, 0x01, 0x00, 0x00, 0x0c, 0x00, 0x00, 0x10, 0x06, 1, 2, 3, 4, 5, 6, 7, 8, 0x0e, 1, 2];
    let (p, n) = UdpResponsePacket::decode(&bytes).unwrap();
    assert_eq!(p.tag_ids, vec![0x06]);
    assert_eq!(n, 18);
}

#[test]
fn battery_recorded_from_status() {
    let mut r = RecvState::new();
    assert_eq!(r.battery_raw(), 0);
    assert_eq!(r.mode(Mode::Autonomous), Mode::Autonomous);
    let bytes = [0x01, 0x77, 0x01, 0x02, 0x24, 0x0c, 0x80, 0x01];
    let (p, _) = UdpResponsePacket::decode(&bytes).unwrap();
    r.update(&p);
    assert_eq!(r.battery_raw(), 12 * 256 + 128);
    assert_eq!(r.trace().bits, 0x24);
    assert_eq!(r.status().bits, 0x02);
    assert!(r.need_date());
    assert_eq!(r.last_seqnum(), 0x0177);
    assert_eq!(r.mode(Mode::TestMode), Mode::Autonomous);
}

#[test]
fn trace_modes() {
    assert_eq!(Trace { bits: 0x08 }.mode(), Mode::TestMode);
    assert_eq!(Trace { bits: 0x04 }.mode(), Mode::Autonomous);
    assert_eq!(Trace { bits: 0x02 }.mode(), Mode::Teleoperated);
    assert!(!Trace { bits: 0x11 }.is_code_started());
}

#[test]
fn tcp_game_data_frame() {
    let t = TcpTag::GameData(GameData { gsm: String::from("LRL") });
    assert!(t.is_encodable());
    assert_eq!(t.construct(), vec![0x00, 0x04, 0x0e, b'L', b'R', b'L']);
}

#[test]
fn tcp_match_info_frame() {
    let m = MatchInfo::new(String::from("ab"), MatchType::Qualifications).unwrap();
    assert_eq!(m.id(), 0x07);
    assert_eq!(m.data(), vec![2, b'a', b'b', 2]);
    let t = TcpTag::MatchInfo(m);
    assert_eq!(t.construct(), vec![0x00, 0x05, 0x07, 2, b'a', b'b', 2]);
    assert!(MatchInfo::new("x".repeat(256), MatchType::NoMatch).is_none());
}

#[test]
fn tcp_joystick_desc_frame() {
    let t = TcpTag::JoystickDesc(JoystickDesc);
    let f = t.construct();
    assert_eq!(&f[..3], &[0x00, 17, 0x02]);
    assert_eq!(&f[3..], &[0, 0, 21, 3, b'P', b'S', b'4', 6, 0, 1, 2, 3, 4, 5, 10, 1]);
}

#[test]
fn tcp_frame_decoding() {
    assert_eq!(decode_frame(&[0x00]).unwrap_err(), FrameError::NeedMore);
    assert_eq!(decode_frame(&[0x00, 0x00, 0x05]).unwrap_err(), FrameError::Empty);
    assert_eq!(decode_frame(&[0x00, 0x03, 0x0c, 0x01]).unwrap_err(), FrameError::NeedMore);
    let f = decode_frame(&[0x00, 0x03, 0x0c, 0x01, 0x02, 0x99]).unwrap();
    assert_eq!(f.id, 0x0c);
    assert_eq!(f.payload, vec![0x01, 0x02]);
    assert_eq!(f.consumed, 5);
}

#[test]
fn tcp_stdout_payload() {
    let s = parse_stdout(&[0x3f, 0x80, 0x00, 0x00, 0x00, 0x07, b'h', b'i']).unwrap();
    assert_eq!(s.timestamp_bits, 0x3f800000);
    assert_eq!(s.seqnum, 7);
    assert_eq!(s.message, b"hi".to_vec());
    assert!(parse_stdout(&[0, 0, 0, 0, 0]).is_none());
}

#[test]
fn team_addresses() {
    assert_eq!(ip_from_team_number(5).unwrap(), "10.0.5.2");
    assert_eq!(ip_from_team_number(42).unwrap(), "10.0.42.2");
    assert_eq!(ip_from_team_number(254).unwrap(), "10.2.54.2");
    assert_eq!(ip_from_team_number(105).unwrap(), "10.1.05.2");
    assert_eq!(ip_from_team_number(8089).unwrap(), "10.80.89.2");
    assert!(ip_from_team_number(10000).is_none());
}

#[test]
fn oversized_records_are_not_encodable() {
    let many_buttons = UdpTag::Joysticks(Joysticks::new(vec![], vec![false; 256], vec![]));
    assert!(!many_buttons.is_encodable());
    let max_buttons = UdpTag::Joysticks(Joysticks::new(vec![], vec![true; 255], vec![]));
    assert!(max_buttons.is_encodable());
    let long_tz = UdpTag::Timezone(Timezone { tz: "z".repeat(255) });
    assert!(!long_tz.is_encodable());
    let tz = UdpTag::Timezone(Timezone { tz: "z".repeat(254) });
    assert!(tz.is_encodable());
}
