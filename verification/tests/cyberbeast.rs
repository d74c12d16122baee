use motorbridge::cyberbeast::{
    accepts_frame, can_id_parts, command_frame, decode_feedback, decode_heartbeat_raw,
    decode_param_read_response_bits, encode_param_read, encode_param_write_bits,
    is_broadcast_slot_for, is_param_write_ack, make_can_id, pack_mit_fields, seq_next,
    unpack_mit_fields, unpack_mit_response_raw, ErrorCode, Feedback, ModeState, MsgType,
    Priority, ADDR_BROADCAST, DEFAULT_MASTER_ID,
};
use motorbridge::frame::CanFrame;

#[test]
fn test_can_id_roundtrip() {
    let id = make_can_id(2, 0x00, 0x01, 0x0A, 1);
    let parts = can_id_parts(id);
    assert_eq!(parts.priority, 2);
    assert_eq!(parts.msg_type, 0x00);
    assert_eq!(parts.dest, 0x01);
    assert_eq!(parts.source, 0x0A);
    assert_eq!(parts.seq, 1);
    assert!(!parts.is_broadcast);
}

#[test]
fn test_broadcast_detection() {
    let id = make_can_id(2, 0x80, 0xFF, 0x0A, 0);
    let parts = can_id_parts(id);
    assert!(parts.is_broadcast);
}

#[test]
fn test_mit_response_decode() {
    let resp = unpack_mit_response_raw(&[0u8; 8]).unwrap();
    assert_eq!(resp.error_code, 0);
    assert_eq!(resp.mode_state, 0);
}

#[test]
fn test_accepts_frame() {
    let motor_id: u16 = 0x01;
    let id = make_can_id(2, 0x00, 0x0A, 0x01, 0);
    let frame = CanFrame {
        arbitration_id: id,
        data: [0u8; 8],
        dlc: 8,
        is_extended: true,
        is_rx: true,
    };
    assert!(accepts_frame(motor_id, &frame));

    let id2 = make_can_id(2, 0x00, 0x0A, 0x02, 0);
    let frame2 = CanFrame {
        arbitration_id: id2,
        data: [0u8; 8],
        dlc: 8,
        is_extended: true,
        is_rx: true,
    };
    assert!(!accepts_frame(motor_id, &frame2));

    let frame3 = CanFrame {
        arbitration_id: id,
        data: [0u8; 8],
        dlc: 8,
        is_extended: true,
        is_rx: false,
    };
    assert!(!accepts_frame(motor_id, &frame3));
}

#[test]
fn test_encode_param_read() {
    let data = encode_param_read(0x001C);
    assert_eq!(data[0], 0x00);
    assert_eq!(data[1], 0x00);
    assert_eq!(data[2], 0x1C);
    assert_eq!(data[3], 0x00);
}

#[test]
fn test_decode_param_read_response_wrong_endpoint() {
    let mut data = [0u8; 8];
    data[3] = 0x04;
    let val = decode_param_read_response_bits(&data, 0x001C);
    assert!(val.is_none());
}

#[test]
fn test_is_param_write_ack() {
    let mut data = [0u8; 8];
    data[1] = 0x00;
    data[2] = 0x35;
    data[3] = 0x00;
    assert!(is_param_write_ack(&data, 0x0035));
    assert!(!is_param_write_ack(&data, 0x0036));
}

#[test]
fn test_can_id_boundary_values() {
    let id = make_can_id(0, 0, 0, 0, 0);
    assert_eq!(id, 0);

    let id = make_can_id(7, 0xFF, 0xFF, 0xFF, 3);
    let parts = can_id_parts(id);
    assert_eq!(parts.priority, 7);
    assert_eq!(parts.msg_type, 0xFF);
    assert_eq!(parts.dest, 0xFF);
    assert_eq!(parts.source, 0xFF);
    assert_eq!(parts.seq, 3);
    assert!(parts.is_broadcast);
}

#[test]
fn param_write_then_read_gives_the_bits_back() {
    let bits = 50.0f32.to_bits();
    let data = encode_param_write_bits(0x0035, bits);
    assert_eq!(&data[..4], &[0x00, 0x00, 0x35, 0x04]);
    assert_eq!(decode_param_read_response_bits(&data, 0x0035), Some(bits));
    assert_eq!(f32::from_bits(decode_param_read_response_bits(&data, 0x0035).unwrap()), 50.0);
}

#[test]
fn mit_fields_round_trip() {
    let packed = pack_mit_fields(0x8123, 0x0ABC, 0x0123, 0x0FED, 0x0456);
    let f = unpack_mit_fields(&packed).unwrap();
    assert_eq!((f.pos, f.vel, f.kp, f.kd, f.torque), (0x8123, 0x0ABC, 0x0123, 0x0FED, 0x0456));
    assert!(unpack_mit_fields(&packed[..7]).is_none());
}

#[test]
fn heartbeat_fields() {
    let mut data = [0u8; 8];
    data[0] = (2 << 5) | 0x03;
    data[1] = (0x3 << 4) | 0x1;
    data[2] = 80;
    let pos_raw: i16 = 5000;
    data[3] = (pos_raw >> 8) as u8;
    data[4] = pos_raw as u8;
    let vel_raw: i16 = -200;
    data[5] = (vel_raw >> 8) as u8;
    data[6] = vel_raw as u8;
    data[7] = 20u8;
    let hb = decode_heartbeat_raw(&data).unwrap();
    assert_eq!(hb.life_counter, 2);
    assert_eq!(hb.error_flags, 0x03);
    assert_eq!(hb.motor_state, 3);
    assert_eq!(hb.control_mode, 1);
    assert_eq!(hb.motor_temp_raw, 80);
    assert_eq!(hb.position_raw, 5000);
    assert_eq!(hb.velocity_raw, -200);
    assert_eq!(hb.iq_raw, 20);
}

#[test]
fn enum_codes_round_trip() {
    for v in 0u8..=255 {
        let m = MsgType::from_u8(v);
        if m.code() == v {
            assert_eq!(MsgType::from_u8(m.code()), m);
        }
    }
    assert_eq!(Priority::from_u8(2), Priority::HighCtrl);
    assert_eq!(Priority::HighCtrl.code(), 2);
    assert_eq!(ErrorCode::from_u8(0), ErrorCode::NoError);
    assert_eq!(ErrorCode::from_u8(12), ErrorCode::Multiple);
    assert_eq!(ModeState::name(3), "closed_loop");
    assert_eq!(seq_next(3), 0);
    assert_eq!(seq_next(1), 2);
}

#[test]
fn broadcast_slots() {
    assert!(is_broadcast_slot_for(3, ADDR_BROADCAST));
    assert!(is_broadcast_slot_for(3, 0b0000_1000));
    assert!(!is_broadcast_slot_for(3, 0b0000_0100));
    assert!(!is_broadcast_slot_for(0, 0xFF));
    assert!(!is_broadcast_slot_for(9, 0x7F));
}

#[test]
fn feedback_is_classified_by_message_type() {
    let mk = |msg: u8, data: [u8; 8]| CanFrame {
        arbitration_id: make_can_id(2, msg, DEFAULT_MASTER_ID, 1, 0),
        data,
        dlc: 8,
        is_extended: true,
        is_rx: true,
    };
    match decode_feedback(&mk(0x00, [0x80, 0x00, 0x80, 0x03, 0x00, 0x02, 80, 70])) {
        Feedback::Mit(m) => {
            assert_eq!(m.pos, 0x8000);
            assert_eq!(m.error_code, 3);
            assert_eq!(m.mode_state, 2);
            assert_eq!(m.motor_temp_raw, 80);
        }
        other => panic!("expected MIT response, got {other:?}"),
    }
    let one = 1.0f32.to_bits().to_be_bytes();
    let two = 2.0f32.to_bits().to_be_bytes();
    let pv = [one[0], one[1], one[2], one[3], two[0], two[1], two[2], two[3]];
    match decode_feedback(&mk(0x41, pv)) {
        Feedback::PosVel { pos_bits, vel_bits } => {
            assert_eq!(f32::from_bits(pos_bits), 1.0);
            assert_eq!(f32::from_bits(vel_bits), 2.0);
        }
        other => panic!("expected pos/vel, got {other:?}"),
    }
    match decode_feedback(&mk(0x20, [0, 0x00, 0x1C, 4, one[0], one[1], one[2], one[3]])) {
        Feedback::ParamValue { endpoint_id, bits } => {
            assert_eq!(endpoint_id, 0x001C);
            assert_eq!(f32::from_bits(bits), 1.0);
        }
        other => panic!("expected a parameter value, got {other:?}"),
    }
    assert!(matches!(
        decode_feedback(&mk(0x21, [0, 0x00, 0x35, 0, 0, 0, 0, 0])),
        Feedback::ParamWriteAck { endpoint_id: 0x0035 }
    ));
    assert!(matches!(decode_feedback(&mk(0x44, pv)), Feedback::Ignore));
    assert!(matches!(
        decode_feedback(&mk(0x45, [1, 0, 0, 0, 0, 0, 0x01, 0x02])),
        Feedback::ErrorValue(0x0102)
    ));
}

#[test]
fn command_frames_are_extended_and_outgoing() {
    let f = command_frame(make_can_id(2, 0, 1, 1, 0), [1, 2, 3, 4, 5, 6, 7, 8]);
    assert!(f.is_extended);
    assert!(!f.is_rx);
    assert_eq!(f.dlc, 8);
}
