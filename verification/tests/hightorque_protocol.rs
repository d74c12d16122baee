use motorbridge::frame::CanFrame;
use motorbridge::hightorque::{
    decode_fault, decode_feedback_raw, decode_read_reply_raw, decode_register_reply,
    decode_status_frame_raw, decode_version_reply, encode_read, is_setting_ack, pack_mit_raw,
    reply_motor_id, MotorModel, ReadCmd, RegisterType, RegisterValue, RunMode, SETTING_ACK,
};

fn reply_frame(arbitration_id: u32, is_extended: bool) -> CanFrame {
    CanFrame {
        arbitration_id,
        data: [0x27, 0x01, 0x34, 0x12, 0x78, 0x56, 0x00, 0x0A],
        dlc: 8,
        is_extended,
        is_rx: true,
    }
}

fn frame_with(arbitration_id: u32, data: [u8; 8], dlc: u8, is_extended: bool) -> CanFrame {
    CanFrame {
        arbitration_id,
        data,
        dlc,
        is_extended,
        is_rx: true,
    }
}

#[test]
fn reply_motor_id_extended_frame_uses_high_byte() {
    assert_eq!(reply_motor_id(&reply_frame(0x0100, true)), Some(1));
}

#[test]
fn reply_motor_id_standard_frame_uses_high_byte() {
    assert_eq!(reply_motor_id(&reply_frame(0x0100, false)), Some(1));
}

#[test]
fn reply_motor_id_larger_id_extended() {
    assert_eq!(reply_motor_id(&reply_frame(0x1000, true)), Some(16));
}

#[test]
fn reply_motor_id_rejects_nonzero_dest() {
    assert_eq!(reply_motor_id(&reply_frame(0x0101, true)), None);
}

#[test]
fn decode_read_reply_extended_frame_decodes_correct_id() {
    let frame = reply_frame(0x0100, true);
    let state = decode_read_reply_raw(&frame).expect("extended reply should decode");
    assert_eq!(state.can_id, 1);
}

#[test]
fn encode_read_single_int16_count3_matches_0x17_0x01() {
    let cmds = [ReadCmd {
        addr: 0x01,
        ty: RegisterType::Int16,
        count: 3,
    }];
    assert_eq!(encode_read(&cmds), Some(vec![0x17, 0x01]));
}

#[test]
fn encode_read_rejects_invalid_count() {
    let cmds = [ReadCmd {
        addr: 0x01,
        ty: RegisterType::Int16,
        count: 0,
    }];
    assert_eq!(encode_read(&cmds), None);
}

#[test]
fn encode_read_rejects_over_8_bytes() {
    let cmds = [
        ReadCmd { addr: 0x01, ty: RegisterType::Int8, count: 1 },
        ReadCmd { addr: 0x02, ty: RegisterType::Int8, count: 1 },
        ReadCmd { addr: 0x03, ty: RegisterType::Int8, count: 1 },
        ReadCmd { addr: 0x04, ty: RegisterType::Int8, count: 1 },
        ReadCmd { addr: 0x05, ty: RegisterType::Int8, count: 1 },
    ];
    assert_eq!(encode_read(&cmds), None);
}

#[test]
fn decode_register_reply_pos_vel_tqe() {
    let data = [0x27, 0x01, 0x34, 0x12, 0x09, 0x00, 0x00, 0x00];
    let vals = decode_register_reply(&data).expect("reply decodes");
    assert_eq!(vals.len(), 3);
    assert_eq!(vals[0].0, 0x01);
    assert!(matches!(vals[0].1, RegisterValue::I16(0x1234)));
    assert_eq!(vals[1].0, 0x02);
    assert!(matches!(vals[1].1, RegisterValue::I16(0x0009)));
    assert_eq!(vals[2].0, 0x03);
    assert!(matches!(vals[2].1, RegisterValue::I16(0x0000)));
}

#[test]
fn decode_register_reply_float_single() {
    let val = 1.5f32.to_le_bytes();
    let mut data = vec![0x2D, 0x0F];
    data.extend_from_slice(&val);
    let vals = decode_register_reply(&data).expect("reply decodes");
    assert_eq!(vals.len(), 1);
    assert_eq!(vals[0].0, 0x0F);
    assert!(matches!(vals[0].1, RegisterValue::F32Bits(v) if (f32::from_bits(v) - 1.5).abs() < 1e-6));
}

#[test]
fn decode_register_reply_rejects_status_frame() {
    let data = [0x0A, 0x00, 0x34, 0x12, 0x09, 0x00, 0x00, 0x00];
    assert!(decode_register_reply(&data).is_none());
}

#[test]
fn decode_register_reply_rejects_non_reply_first_byte() {
    let data = [0x17, 0x01, 0, 0, 0, 0, 0, 0];
    assert!(decode_register_reply(&data).is_none());
}

#[test]
fn decode_register_reply_multi_pair() {
    let data = [0x25, 0x01, 0x34, 0x12, 0x25, 0x0F, 0x09, 0x00];
    let vals = decode_register_reply(&data).expect("reply decodes");
    assert_eq!(vals.len(), 2);
    assert_eq!(vals[0].0, 0x01);
    assert_eq!(vals[1].0, 0x0F);
}

#[test]
fn decode_status_frame_carries_fault_code() {
    let frame = frame_with(0x0100, [0x02, 0x22, 0, 0, 0, 0, 0, 0], 8, true);
    let state = decode_status_frame_raw(&frame).expect("status frame decodes");
    assert_eq!(state.status_code, 0x02);
    assert_eq!(state.fault_code, 0x22);
}

#[test]
fn decode_status_frame_rejects_register_reply_and_short() {
    let reg = frame_with(0x0100, [0x27, 0x01, 0, 0, 0, 0, 0, 0], 8, true);
    assert!(decode_status_frame_raw(&reg).is_none());
    let short = frame_with(0x0100, [0x0A, 0x00, 0, 0, 0, 0, 0, 0], 5, true);
    assert!(decode_status_frame_raw(&short).is_none());
}

#[test]
fn decode_feedback_dispatches_both_paths() {
    let reg = frame_with(0x0100, [0x27, 0x01, 0x34, 0x12, 0x09, 0x00, 0x00, 0x00], 8, true);
    let s = decode_feedback_raw(&reg).expect("feedback decodes");
    assert_eq!(s.status_code, 0);
    assert_eq!(s.fault_code, 0);

    let st = frame_with(0x0100, [0x0A, 0x00, 0x34, 0x12, 0x09, 0x00, 0x00, 0x00], 8, true);
    let s = decode_feedback_raw(&st).expect("feedback decodes");
    assert_eq!(s.status_code, 0x0A);
}

#[test]
fn decode_feedback_rejects_ack_and_version() {
    let ack = frame_with(0x0100, [0x41, 0x01, 0x04, 0x4F, 0x4B, 0x0D, 0x0A, 0], 7, true);
    assert!(decode_feedback_raw(&ack).is_none());
    let ver = frame_with(0x0100, [0x00, 0xB5, 0x02, 0x12, 0x34, 0, 0, 0], 5, true);
    assert!(decode_feedback_raw(&ver).is_none());
}

#[test]
fn status_frame_raw_fields() {
    let frame = frame_with(0x0100, [0x0A, 0x00, 0x34, 0x12, 0x09, 0x00, 0xF6, 0xFF], 8, true);
    let s = decode_status_frame_raw(&frame).unwrap();
    assert_eq!(s.can_id, 1);
    assert_eq!(s.pos_raw, 0x1234);
    assert_eq!(s.vel_raw, 9);
    assert_eq!(s.tqe_raw, -10);
}

#[test]
fn is_setting_ack_matches_exact_frame() {
    let f = frame_with(0x0100, [0x41, 0x01, 0x04, 0x4F, 0x4B, 0x0D, 0x0A, 0], 7, true);
    assert!(is_setting_ack(&f));
}

#[test]
fn is_setting_ack_rejects_wrong_dlc_or_bytes() {
    let long = frame_with(0x0100, [0x41, 0x01, 0x04, 0x4F, 0x4B, 0x0D, 0x0A, 0], 8, true);
    assert!(!is_setting_ack(&long));
    let bad = frame_with(0x0100, [0x41, 0x01, 0x04, 0x4E, 0x4B, 0x0D, 0x0A, 0], 7, true);
    assert!(!is_setting_ack(&bad));
    let status = frame_with(0x0100, [0x0A, 0x00, 0, 0, 0, 0, 0, 0], 8, true);
    assert!(!is_setting_ack(&status));
}

#[test]
fn setting_ack_constant_is_ok_crlf() {
    assert_eq!(&SETTING_ACK[3..], b"OK\r\n");
}

#[test]
fn decode_version_reply_extracts_major_minor_patch() {
    let f = frame_with(0x0100, [0x15, 0xB5, 0x02, 0x12, 0x34, 0, 0, 0], 5, true);
    let v = decode_version_reply(&f).expect("version decodes");
    assert_eq!(v.as_tuple(), (3, 5, 2));
}

#[test]
fn decode_version_reply_zero_version() {
    let f = frame_with(0x0100, [0x00, 0xB5, 0x02, 0x00, 0x00, 0, 0, 0], 5, true);
    let v = decode_version_reply(&f).expect("version decodes");
    assert_eq!(v.as_tuple(), (0, 0, 0));
}

#[test]
fn decode_version_reply_max_nibbles() {
    let f = frame_with(0x0100, [0x00, 0xB5, 0x02, 0xFF, 0xFF, 0, 0, 0], 5, true);
    let v = decode_version_reply(&f).expect("version decodes");
    assert_eq!(v.as_tuple(), (15, 15, 15));
}

#[test]
fn decode_version_reply_rejects_wrong_signature_and_length() {
    let bad_sig = frame_with(0x0100, [0x00, 0xB5, 0x03, 0x12, 0x34, 0, 0, 0], 5, true);
    assert!(decode_version_reply(&bad_sig).is_none());
    let bad_len = frame_with(0x0100, [0x00, 0xB5, 0x02, 0x12, 0x34, 0x00, 0x00, 0x00], 8, true);
    assert!(decode_version_reply(&bad_len).is_none());
}

#[test]
fn run_mode_from_code_covers_0_through_17() {
    for code in 0u8..=17 {
        assert!(
            RunMode::from_code(code).is_some(),
            "code {code} should map to a RunMode"
        );
    }
    assert_eq!(RunMode::from_code(18), None);
    assert_eq!(RunMode::from_code(255), None);
}

#[test]
fn run_mode_from_code_matches_repr() {
    assert_eq!(RunMode::from_code(0), Some(RunMode::Stop));
    assert_eq!(RunMode::from_code(1), Some(RunMode::Error));
    assert_eq!(RunMode::from_code(5), Some(RunMode::Pwm));
    assert_eq!(RunMode::from_code(10), Some(RunMode::Position));
    assert_eq!(RunMode::from_code(15), Some(RunMode::Brake));
    assert_eq!(RunMode::from_code(17), Some(RunMode::Reserved17));
}

#[test]
fn run_mode_codes_round_trip() {
    for code in 0u8..=17 {
        assert_eq!(RunMode::from_code(code).unwrap().code(), code);
    }
}

#[test]
fn decode_fault_known_codes() {
    assert_eq!(decode_fault(0), "正常");
    for c in 1u8..=7 {
        assert_eq!(decode_fault(c), "UART/DMA 错误", "code {c}");
    }
    assert_eq!(decode_fault(32), "校准错误");
    assert_eq!(decode_fault(33), "驱动故障");
    assert_eq!(decode_fault(34), "过压");
    assert_eq!(decode_fault(35), "编码器错误");
    assert_eq!(decode_fault(36), "未校准");
    assert_eq!(decode_fault(37), "PWM 周期错误");
    assert_eq!(decode_fault(38), "过温");
    assert_eq!(decode_fault(39), "起始位置超范围");
    assert_eq!(decode_fault(40), "欠压");
    assert_eq!(decode_fault(41), "配置已变更");
    assert_eq!(decode_fault(42), "无效角度");
    assert_eq!(decode_fault(43), "无效位置");
    assert_eq!(decode_fault(44), "驱动使能故障");
    assert_eq!(decode_fault(45), "停止位置误用");
    assert_eq!(decode_fault(46), "时序错误");
    assert_eq!(decode_fault(47), "反电动势前馈错误");
}

#[test]
fn decode_fault_unknown_codes() {
    assert_eq!(decode_fault(8), "未知故障码");
    assert_eq!(decode_fault(31), "未知故障码");
    assert_eq!(decode_fault(48), "未知故障码");
    assert_eq!(decode_fault(255), "未知故障码");
}

#[test]
fn from_hint_accepts_placeholders_as_general() {
    for s in ["", "hightorque", "ht", "auto", "default", "general"] {
        assert_eq!(
            MotorModel::from_hint(s),
            Some(MotorModel::General),
            "placeholder {s:?} → General"
        );
    }
}

#[test]
fn from_hint_accepts_specific_model_codes() {
    assert_eq!(MotorModel::from_hint("5046-20"), Some(MotorModel::M5046_20));
    assert_eq!(MotorModel::from_hint("5046_20"), Some(MotorModel::M5046_20));
    assert_eq!(MotorModel::from_hint("M5046_20"), Some(MotorModel::M5046_20));
    assert_eq!(MotorModel::from_hint("ht-5046-20"), Some(MotorModel::M5046_20));
    assert_eq!(MotorModel::from_hint("hightorque-5046-20"), Some(MotorModel::M5046_20));
    assert_eq!(MotorModel::from_hint("m5046_20"), Some(MotorModel::M5046_20));
    assert_eq!(MotorModel::from_hint("5036"), Some(MotorModel::M5036_36));
    assert_eq!(MotorModel::from_hint("5036_36"), Some(MotorModel::M5036_36));
    assert_eq!(MotorModel::from_hint("M5036_36"), Some(MotorModel::M5036_36));
    assert_eq!(MotorModel::from_hint("ht-5036"), Some(MotorModel::M5036_36));
    assert_eq!(MotorModel::from_hint("ht-5036-36"), Some(MotorModel::M5036_36));
    assert_eq!(MotorModel::from_hint("5036-02"), Some(MotorModel::M5036_36));
    assert_eq!(MotorModel::from_hint("5036_02"), Some(MotorModel::M5036_36));
    assert_eq!(MotorModel::from_hint("M5046_20"), Some(MotorModel::M5046_20));
    assert_eq!(MotorModel::from_hint("5046-20"), Some(MotorModel::M5046_20));
}

#[test]
fn from_hint_rejects_unknown_model_codes() {
    assert_eq!(MotorModel::from_hint("9999_99"), None);
    assert_eq!(MotorModel::from_hint("garbage"), None);
}

#[test]
fn from_hint_accepts_null_and_none() {
    assert_eq!(MotorModel::from_hint("null"), Some(MotorModel::Null));
    assert_eq!(MotorModel::from_hint("none"), Some(MotorModel::Null));
}

#[test]
fn from_hint_trims_and_ignores_case() {
    assert_eq!(MotorModel::from_hint("  HT-60SG-35 "), Some(MotorModel::M60SG_35));
    assert_eq!(MotorModel::from_hint(" AUTO "), Some(MotorModel::General));
    assert_eq!(MotorModel::from_hint("mm5046_20"), None);
}

#[test]
fn mit_packing_layout() {
    assert_eq!(pack_mit_raw(0, 0, 0, 0, 0), [0; 8]);
    assert_eq!(pack_mit_raw(0xFFFF, 0xFFF, 0xFFF, 0xFFF, 0xFFF), [0xFF; 8]);
    let d = pack_mit_raw(0, 0xFFF, 0, 0, 0);
    assert_eq!(d[2], 0xFF);
    assert_eq!(d[3], 0x0F);
    let d = pack_mit_raw(0, 0, 0xFFF, 0, 0);
    assert_eq!(d[3], 0xF0);
    assert_eq!(d[4], 0xFF);
    let d = pack_mit_raw(0, 0, 0, 0xFFF, 0);
    assert_eq!(d[5], 0xFF);
    assert_eq!(d[6], 0x0F);
    let d = pack_mit_raw(0, 0, 0, 0, 0xFFF);
    assert_eq!(d[6], 0xF0);
    assert_eq!(d[7], 0xFF);
    assert_eq!(pack_mit_raw(0x1234, 0, 0, 0, 0)[..2], [0x34, 0x12]);
}

#[test]
fn reply_mirrors_request() {
    let cmds = [
        ReadCmd { addr: 0x01, ty: RegisterType::Int16, count: 2 },
        ReadCmd { addr: 0xFF, ty: RegisterType::Int8, count: 2 },
        ReadCmd { addr: 0x10, ty: RegisterType::Float, count: 1 },
    ];
    let request = encode_read(&cmds).unwrap();
    let mut reply = Vec::new();
    reply.extend_from_slice(&[(request[0] & 0x0F) | 0x20, request[1]]);
    reply.extend_from_slice(&(-2i16).to_le_bytes());
    reply.extend_from_slice(&300i16.to_le_bytes());
    reply.extend_from_slice(&[(request[2] & 0x0F) | 0x20, request[3]]);
    reply.extend_from_slice(&[0x80, 0x7F]);
    reply.extend_from_slice(&[(request[4] & 0x0F) | 0x20, request[5]]);
    reply.extend_from_slice(&2.5f32.to_le_bytes());
    let vals = decode_register_reply(&reply).unwrap();
    assert_eq!(vals.len(), 5);
    assert_eq!(vals[0], (0x01, RegisterValue::I16(-2)));
    assert_eq!(vals[1], (0x02, RegisterValue::I16(300)));
    assert_eq!(vals[2], (0xFF, RegisterValue::I8(-128)));
    assert_eq!(vals[3], (0x00, RegisterValue::I8(127)));
    assert_eq!(vals[4], (0x10, RegisterValue::F32Bits(2.5f32.to_bits())));
    assert!(decode_register_reply(&reply[..reply.len() - 1]).is_none());
    assert!(decode_register_reply(&[0x24, 0x01]).is_none());
}
