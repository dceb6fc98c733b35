use batt_protocol::command::{command_for_tick, expect_elements, BattCommand, DecodeError, MainCommand, Status};
use batt_protocol::keys::{all_keys, decode_key_packet, decode_keys, encode_key_packet, encode_keys, is_on, should_sample_imu, ControllerInput, Key, KeyLatch};
use batt_protocol::link::{encode_frame, frame_body_len, ControlMessage, FrameReader};
use batt_protocol::node::{board_address, debug_flag, relay_tick, ControlInputs, TickAction, TickOutcome};

#[test]
fn main_command_codes() {
    assert_eq!(MainCommand::Setup.code(), 0);
    assert_eq!(MainCommand::GetStatus.code(), 1);
    assert_eq!(MainCommand::AttachServo.code(), 2);
    assert_eq!(MainCommand::DetachServo.code(), 3);
    assert_eq!(MainCommand::DetachServo.encode(), vec![3u8]);
}

#[test]
fn main_command_roundtrip() {
    for c in [MainCommand::Setup, MainCommand::GetStatus, MainCommand::AttachServo, MainCommand::DetachServo] {
        assert_eq!(MainCommand::decode(&c.encode()), Ok(c));
        assert_eq!(MainCommand::from_code(c.code()), Ok(c));
    }
}

#[test]
fn main_command_invalid_code() {
    assert_eq!(MainCommand::decode(&[4]), Err(DecodeError::InvalidCode(4)));
    assert_eq!(MainCommand::from_code(255), Err(DecodeError::InvalidCode(255)));
}

#[test]
fn main_command_wrong_length() {
    assert_eq!(MainCommand::decode(&[]), Err(DecodeError::WrongLength { expected: 1, found: 0 }));
    assert_eq!(MainCommand::decode(&[1, 2]), Err(DecodeError::WrongLength { expected: 1, found: 2 }));
}

#[test]
fn batt_command_roundtrip() {
    let b = BattCommand { servo: [10, 2000, 0, 65535] };
    assert_eq!(b.encode(), vec![10u16, 2000, 0, 65535]);
    let back = BattCommand::decode(&b.encode()).unwrap();
    assert_eq!(back.servo, [10, 2000, 0, 65535]);
}

#[test]
fn batt_command_default_is_zero() {
    assert_eq!(BattCommand::default().servo, [0, 0, 0, 0]);
}

#[test]
fn batt_command_wrong_length() {
    assert!(matches!(BattCommand::decode(&[1, 2, 3]), Err(DecodeError::WrongLength { expected: 4, found: 3 })));
    assert!(matches!(BattCommand::decode(&[1, 2, 3, 4, 5]), Err(DecodeError::WrongLength { expected: 4, found: 5 })));
}

#[test]
fn element_count_check() {
    assert_eq!(expect_elements(3, 3), Ok(()));
    assert_eq!(expect_elements(2, 3), Err(DecodeError::WrongLength { expected: 3, found: 2 }));
}

#[test]
fn status_holds_heartbeat() {
    let s = Status { heartbeat: 42 };
    assert_eq!(s, Status { heartbeat: 42 });
}

#[test]
fn tick_commands_cycle() {
    assert_eq!(command_for_tick(0), MainCommand::AttachServo);
    assert_eq!(command_for_tick(1), MainCommand::DetachServo);
    assert_eq!(command_for_tick(2), MainCommand::GetStatus);
    assert_eq!(command_for_tick(3), MainCommand::Setup);
    assert_eq!(command_for_tick(4), MainCommand::AttachServo);
    assert_eq!(command_for_tick(1001), command_for_tick(1005));
}

#[test]
fn key_bits_follow_map_order() {
    let keys = all_keys();
    assert_eq!(keys.len(), 11);
    for (i, k) in keys.iter().enumerate() {
        assert_eq!(k.bit() as usize, i);
    }
    assert_eq!(keys[0], Key::W);
    assert_eq!(keys[10], Key::X);
}

#[test]
fn encode_keys_sets_bits() {
    assert_eq!(encode_keys(&[]), 0);
    assert_eq!(encode_keys(&[Key::W]), 0b1);
    assert_eq!(encode_keys(&[Key::A, Key::D]), 0b1010);
    assert_eq!(encode_keys(&[Key::X, Key::X]), 1 << 10);
    assert_eq!(encode_keys(&all_keys()), 0x07ff);
}

#[test]
fn decode_keys_axes() {
    let d = decode_keys(encode_keys(&[Key::D, Key::W, Key::Q, Key::F]));
    assert_eq!(d, ControllerInput { horizontal: 1, vertical: 1, move_power: 1, roll_power: -1, buttons: 0b1000_1001 | 0b1_0000 });
    let a = decode_keys(encode_keys(&[Key::A, Key::S, Key::E, Key::R]));
    assert_eq!((a.horizontal, a.vertical, a.move_power, a.roll_power), (-1, -1, -1, 1));
}

#[test]
fn decode_keys_opposites_cancel() {
    let d = decode_keys(encode_keys(&[Key::A, Key::D, Key::W, Key::S, Key::Q, Key::E, Key::R, Key::F]));
    assert_eq!((d.horizontal, d.vertical, d.move_power, d.roll_power), (0, 0, 0, 0));
    assert_eq!(d.buttons, 0xff);
}

#[test]
fn decode_keys_keeps_unmapped_bits() {
    let d = decode_keys(0xff00);
    assert_eq!((d.horizontal, d.vertical, d.move_power, d.roll_power), (0, 0, 0, 0));
    assert_eq!(d.buttons, 0xff00);
}

#[test]
fn bit_test() {
    assert!(is_on(0b100, 2));
    assert!(!is_on(0b100, 1));
    assert!(is_on(0x8000, 15));
}

#[test]
fn sample_on_w_only() {
    assert!(should_sample_imu(encode_keys(&[Key::W])));
    assert!(should_sample_imu(0xffff));
    assert!(!should_sample_imu(encode_keys(&[Key::A, Key::S, Key::D])));
}

#[test]
fn key_packet_little_endian() {
    assert_eq!(encode_key_packet(0x0201), vec![0x01, 0x02]);
    assert_eq!(decode_key_packet(&[0x01, 0x02]), Some(0x0201));
    assert_eq!(decode_key_packet(&[0x01]), None);
    assert_eq!(decode_key_packet(&[0x01, 0x02, 0x03]), None);
    for k in [0u16, 1, 255, 256, 0xabcd, 0xffff] {
        assert_eq!(decode_key_packet(&encode_key_packet(k)), Some(k));
        assert_eq!(encode_key_packet(k), k.to_le_bytes().to_vec());
    }
}

#[test]
fn latch_keeps_latest_valid_packet() {
    let mut latch = KeyLatch::new();
    assert_eq!(latch.take(), None);
    latch.receive(&[1, 0]);
    latch.receive(&[7, 0]);
    latch.receive(&[9]);
    assert_eq!(latch.take(), Some(7));
    assert_eq!(latch.take(), None);
}

#[test]
fn control_messages() {
    assert_eq!(ControlMessage::Start.code(), 1);
    assert_eq!(ControlMessage::Shutdown.code(), 2);
    assert_eq!(ControlMessage::Close.code(), 0);
    for m in [ControlMessage::Close, ControlMessage::Start, ControlMessage::Shutdown] {
        assert_eq!(ControlMessage::from_byte(m.code()), Some(m));
    }
    assert_eq!(ControlMessage::from_byte(3), None);
}

#[test]
fn frame_layout() {
    assert_eq!(encode_frame(&[]), vec![0, 0, 0, 0]);
    assert_eq!(encode_frame(&[0xaa, 0xbb]), vec![0, 0, 0, 2, 0xaa, 0xbb]);
    let big = vec![7u8; 0x0102];
    let f = encode_frame(&big);
    assert_eq!(&f[..4], &[0, 0, 1, 2]);
    assert_eq!(f.len(), 0x0106);
    assert_eq!(frame_body_len([0x01, 0x02, 0x03, 0x04]), 0x0102_0304);
    assert_eq!(frame_body_len([0xff, 0xff, 0xff, 0xff]), u32::MAX);
}

#[test]
fn frame_reader_roundtrip() {
    let payload = vec![3u8, 1, 4, 1, 5];
    let frame = encode_frame(&payload);
    let mut r = FrameReader::new();
    assert_eq!(r.needed(), 4);
    assert_eq!(r.feed(&frame[..4]), None);
    assert_eq!(r.needed(), 5);
    assert_eq!(r.feed(&frame[4..]), Some(payload));
    assert_eq!(r.needed(), 4);
}

#[test]
fn frame_reader_empty_payload() {
    let mut r = FrameReader::new();
    assert_eq!(r.feed(&[0, 0, 0, 0]), None);
    assert_eq!(r.needed(), 0);
    assert_eq!(r.feed(&[]), Some(vec![]));
}

#[test]
fn control_inputs_wait_for_both() {
    let mut s: ControlInputs<u32, i64> = ControlInputs::new();
    assert!(s.ready().is_none());
    s.update_imu(1);
    assert!(s.ready().is_none());
    s.update_controller(-5);
    assert_eq!(s.ready(), Some((&1, &-5)));
    s.update_imu(2);
    assert_eq!(s.ready(), Some((&2, &-5)));
}

#[test]
fn debug_flag_parsing() {
    assert!(debug_flag(Some("true")));
    assert!(!debug_flag(Some("false")));
    assert!(!debug_flag(Some("TRUE")));
    assert!(!debug_flag(Some("1")));
    assert!(!debug_flag(None));
}

#[test]
fn board_address_defaults() {
    assert_eq!(board_address(None, None), "192.168.4.1:5001");
    assert_eq!(board_address(Some("10.0.0.2"), None), "10.0.0.2:5001");
    assert_eq!(board_address(None, Some("6000")), "192.168.4.1:6000");
}

#[test]
fn relay_tick_sends_latest_mask() {
    let mut latch = KeyLatch::new();
    let out = relay_tick(&mut latch, &[1], &[vec![1, 0], vec![5, 0], vec![9, 9, 9]]);
    assert_eq!(out, TickOutcome { starts: 1, action: TickAction::Send(5) });
    assert_eq!(latch.take(), None);
}

#[test]
fn relay_tick_idle_without_packets() {
    let mut latch = KeyLatch::new();
    let out = relay_tick(&mut latch, &[], &[vec![3]]);
    assert_eq!(out, TickOutcome { starts: 0, action: TickAction::Idle });
}

#[test]
fn relay_tick_stops_on_shutdown() {
    let mut latch = KeyLatch::new();
    latch.receive(&[4, 0]);
    let out = relay_tick(&mut latch, &[1, 0, 1, 2, 1], &[vec![7, 0]]);
    assert_eq!(out, TickOutcome { starts: 2, action: TickAction::Stop });
    assert_eq!(latch.take(), Some(4));
}
