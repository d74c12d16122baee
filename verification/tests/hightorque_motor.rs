use motorbridge::frame::CanFrame;
use motorbridge::hightorque::{
    accepts_frame, control_frame, feedback_event, feedback_query_frame, mit_frame,
    pos_classic_payload, pos_vel_acc_payload, pos_vel_tqe_payload, query_frame,
    read_registers_frame, register_reply_for, rezero_frame, stop_frame, store_frame,
    validate_run_mode, vel_payload, version_query_frame, version_reply_for, FeedbackEvent,
    ReadCmd, RegisterType,
};

fn ack_frame(id: u16) -> CanFrame {
    CanFrame {
        arbitration_id: u32::from(id) << 8,
        data: [0x41, 0x01, 0x04, 0x4F, 0x4B, 0x0D, 0x0A, 0],
        dlc: 7,
        is_extended: true,
        is_rx: true,
    }
}

fn version_frame(id: u16, b3: u8, b4: u8) -> CanFrame {
    CanFrame {
        arbitration_id: u32::from(id) << 8,
        data: [0x15, 0xB5, 0x02, b3, b4, 0, 0, 0],
        dlc: 5,
        is_extended: true,
        is_rx: true,
    }
}

#[test]
fn accepts_frame_admits_status_register_ack_and_version() {
    let motor_id: u16 = 1;
    let status = CanFrame {
        arbitration_id: 0x0100,
        data: [0x0A, 0x00, 0x34, 0x12, 0x09, 0x00, 0x00, 0x00],
        dlc: 8,
        is_extended: true,
        is_rx: true,
    };
    assert!(accepts_frame(motor_id, &status));
    assert!(accepts_frame(motor_id, &ack_frame(1)));
    assert!(accepts_frame(motor_id, &version_frame(1, 0x12, 0x34)));
    assert!(!accepts_frame(motor_id, &ack_frame(2)));
    let short = CanFrame {
        arbitration_id: 0x0100,
        data: [0x01, 0x00, 0x00, 0, 0, 0, 0, 0],
        dlc: 3,
        is_extended: true,
        is_rx: true,
    };
    assert!(!accepts_frame(motor_id, &short));
}

#[test]
fn ensure_control_mode_accepts_0_through_17() {
    for mode in 0..=17 {
        assert!(validate_run_mode(mode).is_ok(), "mode {mode} should be accepted");
    }
}

#[test]
fn ensure_control_mode_rejects_above_17() {
    for mode in [18, 19, 100, u32::MAX] {
        assert!(validate_run_mode(mode).is_err(), "mode {mode} should be rejected");
    }
}

#[test]
fn run_mode_error_message() {
    let e = validate_run_mode(18).unwrap_err();
    assert_eq!(e.message(), "HighTorque run mode must be 0-17 (表2), got 18");
}

#[test]
fn setting_acks_count_only_for_their_motor() {
    assert_eq!(feedback_event(1, &ack_frame(1)), FeedbackEvent::SettingAck);
    assert_eq!(feedback_event(1, &ack_frame(2)), FeedbackEvent::Ignore);
    let status = CanFrame {
        arbitration_id: 0x0100,
        data: [0x0A, 0x00, 0x34, 0x12, 0x09, 0x00, 0x00, 0x00],
        dlc: 8,
        is_extended: true,
        is_rx: true,
    };
    match feedback_event(1, &status) {
        FeedbackEvent::State(s) => {
            assert_eq!(s.status_code, 0x0A);
            assert_eq!(s.pos_raw, 0x1234);
        }
        other => panic!("expected state, got {other:?}"),
    }
    assert_eq!(feedback_event(1, &version_frame(1, 0x12, 0x34)), FeedbackEvent::Ignore);
}

#[test]
fn version_replies_are_routed_by_motor() {
    let v = version_reply_for(1, &version_frame(1, 0x12, 0x34)).unwrap();
    assert_eq!(v.as_tuple(), (3, 5, 2));
    assert!(version_reply_for(2, &version_frame(1, 0x12, 0x34)).is_none());
}

#[test]
fn register_replies_are_routed_by_motor() {
    let f = CanFrame {
        arbitration_id: 0x0100,
        data: [0x25, 0x01, 0x34, 0x12, 0xAA, 0xBB, 0xCC, 0xDD],
        dlc: 4,
        is_extended: true,
        is_rx: true,
    };
    let vals = register_reply_for(1, &f).unwrap();
    assert_eq!(vals.len(), 1);
    assert_eq!(vals[0].0, 0x01);
    assert!(register_reply_for(2, &f).is_none());
}

#[test]
fn control_commands_use_standard_frame_bare_id() {
    let frames = [
        control_frame(1, &vel_payload(4000), 8),
        control_frame(1, &pos_vel_tqe_payload(5000, 4000, i16::MIN), 8),
        control_frame(1, &pos_vel_acc_payload(5000, 4000, 500), 8),
        stop_frame(1),
    ];
    for f in frames.iter() {
        assert!(!f.is_extended);
        assert_eq!(f.arbitration_id, 1);
        assert!(!f.is_rx);
    }
    assert_eq!(frames[3].dlc, 3);
    assert_eq!(&frames[3].data[..3], &[0x01, 0x00, 0x00]);
}

#[test]
fn query_commands_use_extended_frame_with_reply_bit() {
    let cmds = [ReadCmd { addr: 0x01, ty: RegisterType::Int16, count: 3 }];
    let frames = [
        read_registers_frame(1, &cmds).unwrap(),
        version_query_frame(1),
        rezero_frame(1),
        store_frame(1),
        feedback_query_frame(1),
    ];
    for f in frames.iter() {
        assert!(f.is_extended);
        assert_eq!(f.arbitration_id, 0x8001);
        assert!(!f.is_rx);
    }
    assert_eq!(frames[0].dlc, 2);
    assert_eq!(&frames[0].data[..2], &[0x17, 0x01]);
    assert_eq!(&frames[1].data[..3], &[0x15, 0xB5, 0x02]);
    assert_eq!(&frames[3].data[..5], &[0x05, 0xB3, 0x02, 0, 0]);
    assert_eq!(frames[2].dlc, 7);
    let too_many = [ReadCmd { addr: 0x01, ty: RegisterType::Int8, count: 1 }; 5];
    assert_eq!(
        read_registers_frame(1, &too_many).unwrap_err().message(),
        "read_registers: cmd list too long or count out of range"
    );
}

#[test]
fn payload_layouts() {
    let p = pos_classic_payload(5000, None);
    assert_eq!(&p[0..2], &[0x07, 0x07]);
    assert_eq!(i16::from_le_bytes([p[2], p[3]]), 5000);
    assert_eq!(&p[4..6], &[0x00, 0x00]);
    assert_eq!(i16::from_le_bytes([p[6], p[7]]), i16::MIN);
    let p = pos_classic_payload(0, Some(200));
    assert_eq!(i16::from_le_bytes([p[6], p[7]]), 200);
    let p = pos_vel_tqe_payload(1, 2, 3);
    assert_eq!(p, [0x07, 0x35, 2, 0, 3, 0, 1, 0]);
    let p = pos_vel_acc_payload(1, 2, -1);
    assert_eq!(p, [0x07, 0x2d, 1, 0, 2, 0, 0xFF, 0xFF]);
    let p = vel_payload(-2);
    assert_eq!(p, [0x07, 0x07, 0x00, 0x80, 0xFE, 0xFF, 0x00, 0x80]);
}

#[test]
fn raw_frames_pad_and_cap() {
    let f = query_frame(3, &[1, 2, 3, 4, 5, 6, 7, 8, 9, 10], 12);
    assert_eq!(f.data, [1, 2, 3, 4, 5, 6, 7, 8]);
    assert_eq!(f.dlc, 8);
    let m = mit_frame(3, [9; 8]);
    assert_eq!(m.arbitration_id, 0x18003);
    assert!(m.is_extended);
}
