use motorbridge::frame::CanFrame;
use motorbridge::slcan::{bitrate_code, close_command, encode_tx, hex_num, open_commands, parse_line, try_parse_rx};
use std::collections::VecDeque;

fn frame(arb: u32, data: &[u8], ext: bool) -> CanFrame {
    let mut d = [0u8; 8];
    let n = data.len().min(8);
    d[..n].copy_from_slice(&data[..n]);
    CanFrame {
        arbitration_id: arb,
        data: d,
        dlc: n as u8,
        is_extended: ext,
        is_rx: false,
    }
}

#[test]
fn encodes_extended_frame_as_uppercase_ascii() {
    let raw = encode_tx(frame(0x1234_5678, &[0xDE, 0xAD], true)).unwrap();
    assert_eq!(raw, b"T123456782DEAD\r".to_vec());
}

#[test]
fn encodes_standard_frame_with_three_hex_digits() {
    let raw = encode_tx(frame(0x123, &[0x01], false)).unwrap();
    assert_eq!(raw, b"t123101\r".to_vec());
}

#[test]
fn roundtrip_extended_variable_dlc() {
    for dlc in 0..=8usize {
        let data: Vec<u8> = (0..dlc)
            .map(|i| (i as u8).wrapping_mul(0x1F) ^ 0xA5)
            .collect();
        let raw = encode_tx(frame(0x1ABC_DE0F, &data, true)).unwrap();
        let mut buf = VecDeque::new();
        buf.extend(raw);
        let out = try_parse_rx(&mut buf).unwrap();
        assert_eq!(out.arbitration_id, 0x1ABC_DE0F);
        assert!(out.is_extended);
        assert_eq!(out.dlc, dlc as u8);
        assert_eq!(&out.data[..dlc], &data[..]);
        assert!(out.is_rx);
        assert!(buf.is_empty());
    }
}

#[test]
fn roundtrip_standard_id() {
    let raw = encode_tx(frame(0x7FF, &[0xAA, 0xBB, 0xCC], false)).unwrap();
    let mut buf = VecDeque::new();
    buf.extend(raw);
    let out = try_parse_rx(&mut buf).unwrap();
    assert_eq!(out.arbitration_id, 0x7FF);
    assert!(!out.is_extended);
    assert_eq!(out.dlc, 3);
    assert_eq!(&out.data[..3], &[0xAA, 0xBB, 0xCC]);
}

#[test]
fn skips_status_replies_and_returns_following_frame() {
    let mut buf = VecDeque::new();
    buf.extend(b"z\r".to_vec());
    buf.extend(vec![0x07]);
    buf.extend(b"\r".to_vec());
    buf.extend(b"V0120\r".to_vec());
    buf.extend(encode_tx(frame(0x18, &[0x11], true)).unwrap());
    let out = try_parse_rx(&mut buf).unwrap();
    assert_eq!(out.arbitration_id, 0x18);
    assert_eq!(out.dlc, 1);
}

#[test]
fn ignores_rtr_frames() {
    let mut buf = VecDeque::new();
    buf.extend(b"r1234\r".to_vec());
    buf.extend(b"R123456780\r".to_vec());
    assert!(try_parse_rx(&mut buf).is_none());
}

#[test]
fn rejects_oversized_dlc_and_out_of_range_ids() {
    let mut f = frame(0x1, &[], true);
    f.dlc = 9;
    assert!(encode_tx(f).is_err());
    assert!(encode_tx(frame(0x800, &[], false)).is_err());
    assert!(encode_tx(frame(0x2000_0000, &[], true)).is_err());
}

#[test]
fn maps_supported_bitrates_and_rejects_others() {
    assert_eq!(bitrate_code(1_000_000).unwrap(), b'8');
    assert_eq!(bitrate_code(500_000).unwrap(), b'6');
    assert_eq!(bitrate_code(125_000).unwrap(), b'4');
    assert!(bitrate_code(250_001).is_err());
}

#[test]
fn partial_line_is_buffered_until_terminator_arrives() {
    let mut buf = VecDeque::new();
    buf.extend(b"T1ABCDE0F2DE".to_vec());
    assert!(try_parse_rx(&mut buf).is_none());
    buf.extend(b"AD\r".to_vec());
    let out = try_parse_rx(&mut buf).unwrap();
    assert_eq!(out.arbitration_id, 0x1ABC_DE0F);
    assert_eq!(&out.data[..2], &[0xDE, 0xAD]);
}

#[test]
fn bitrate_error_names_the_rate() {
    let e = bitrate_code(250_001).unwrap_err();
    assert!(e.message().contains("250001"));
}

#[test]
fn open_and_close_commands() {
    let cmds = open_commands(b'8');
    assert_eq!(cmds, vec![b"C\r".to_vec(), b"S8\r".to_vec(), b"O\r".to_vec()]);
    assert_eq!(close_command(), b"C\r".to_vec());
}

#[test]
fn hex_numbers_and_lines() {
    assert_eq!(hex_num(b"1aF"), Some(0x1AF));
    assert_eq!(hex_num(b"G"), None);
    assert_eq!(hex_num(b"100000000"), None);
    let f = parse_line(b"t7FF3AABBCC").unwrap();
    assert_eq!(f.arbitration_id, 0x7FF);
    assert_eq!(f.dlc, 3);
    assert!(parse_line(b"t7FF9").is_none());
}
