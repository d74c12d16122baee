use motorbridge::frame::CanFrame;
use motorbridge::mcu_serial::{
    classify_rx, crc8, decode_status, encode_tx, try_parse_rx, RxDisposition, FLAG_BUS_OFF,
    FLAG_RX_DROPPED, HEADER, STATUS_ID, TAIL,
};
use std::collections::VecDeque;

fn frame(arb: u32, data: &[u8], ext: bool) -> CanFrame {
    let mut d = [0u8; 8];
    let n = data.len().min(8);
    d[..n].copy_from_slice(&data[..n]);
    CanFrame {
        arbitration_id: arb,
        data: d,
        dlc: n as u8,
        is_extended: ext,
        is_rx: false,
    }
}

#[test]
fn roundtrip_classic_std_8_bytes() {
    let f = frame(
        0x123,
        &[0x01, 0x02, 0x03, 0x04, 0x05, 0x06, 0x07, 0x08],
        false,
    );
    let raw = encode_tx(f).unwrap();
    assert_eq!(raw[0], HEADER);
    assert_eq!(raw[1], 8);
    assert_eq!(*raw.last().unwrap(), TAIL);
    let mut buf = VecDeque::new();
    buf.extend(raw);
    let out = try_parse_rx(&mut buf).unwrap();
    assert_eq!(out.arbitration_id, 0x123);
    assert!(!out.is_extended);
    assert_eq!(out.dlc, 8);
    assert_eq!(out.data, [0x01, 0x02, 0x03, 0x04, 0x05, 0x06, 0x07, 0x08]);
    assert!(buf.is_empty());
}

#[test]
fn roundtrip_extended_29bit_variable_dlc() {
    for dlc in 0..=8 {
        let data: Vec<u8> = (0..dlc)
            .map(|i| (i as u8).wrapping_mul(0x1F) ^ 0xA5)
            .collect();
        let raw = encode_tx(frame(0x1ABCDE0F, &data, true)).unwrap();
        assert_eq!(raw.len(), 8 + dlc);
        let mut buf = VecDeque::new();
        buf.extend(raw);
        let out = try_parse_rx(&mut buf).unwrap();
        assert_eq!(out.arbitration_id, 0x1ABCDE0F);
        assert!(out.is_extended);
        assert_eq!(out.dlc as usize, dlc);
        assert_eq!(&out.data[..dlc], &data[..]);
        assert!(buf.is_empty());
    }
}

#[test]
fn crc_covers_len_id_data() {
    let raw = encode_tx(frame(0x7F, &[0xDE, 0xAD, 0xBE, 0xEF], false)).unwrap();
    let dlc = 4;
    assert_eq!(raw[6 + dlc], crc8(&raw[1..6 + dlc]));
}

#[test]
fn resync_on_garbage_prefix() {
    let raw = encode_tx(frame(0x55, &[0x01, 0x02], false)).unwrap();
    let mut buf = VecDeque::new();
    buf.extend([0x00, 0xFF, 0x7F, 0x33]);
    buf.extend(raw);
    let out = try_parse_rx(&mut buf).unwrap();
    assert_eq!(out.arbitration_id, 0x55);
    assert_eq!(out.dlc, 2);
    assert!(buf.is_empty());
}

#[test]
fn corrupted_crc_resyncs_to_next_frame() {
    let mut bad = encode_tx(frame(0x10, &[0x01, 0x02, 0x03], false)).unwrap();
    bad[6] ^= 0x01;
    let good = encode_tx(frame(0x10, &[0x09, 0x08, 0x07], false)).unwrap();
    let mut buf = VecDeque::new();
    buf.extend(bad);
    buf.extend(good);
    let out = try_parse_rx(&mut buf).unwrap();
    assert_eq!(&out.data[..3], &[0x09, 0x08, 0x07]);
}

#[test]
fn corrupted_tail_rejected() {
    let mut raw = encode_tx(frame(0x20, &[0xAA], false)).unwrap();
    *raw.last_mut().unwrap() = 0x00;
    let mut buf = VecDeque::new();
    buf.extend(&raw);
    assert!(try_parse_rx(&mut buf).is_none());
}

#[test]
fn stray_delimiter_in_data_does_not_desync() {
    let raw = encode_tx(frame(0x99, &[0xA5, 0x5A, 0xA5], false)).unwrap();
    let mut buf = VecDeque::new();
    buf.extend(raw);
    let out = try_parse_rx(&mut buf).unwrap();
    assert_eq!(&out.data[..3], &[0xA5, 0x5A, 0xA5]);
}

#[test]
fn oversize_dlc_rejected() {
    let f = CanFrame {
        arbitration_id: 0x01,
        data: [0u8; 8],
        dlc: 9,
        is_extended: false,
        is_rx: false,
    };
    assert!(encode_tx(f).is_err());
}

#[test]
fn status_frame_roundtrips_as_extended_data() {
    let payload = [0x04u8, 0x07, 0xD0, 0xC0, 0x2C, 0x01, 0x07, 0x00];
    let f = CanFrame {
        arbitration_id: STATUS_ID,
        data: payload,
        dlc: 8,
        is_extended: true,
        is_rx: true,
    };
    let raw = encode_tx(f).unwrap();
    assert_eq!(raw[0], HEADER);
    assert_eq!(raw[1], 8);
    assert_eq!(*raw.last().unwrap(), TAIL);
    let mut buf = VecDeque::new();
    buf.extend(raw);
    let out = try_parse_rx(&mut buf).unwrap();
    assert!(out.is_extended);
    assert_eq!(out.arbitration_id, STATUS_ID);
    assert_eq!(out.dlc, 8);
    assert_eq!(out.data, payload);
    assert!(buf.is_empty());
}

#[test]
fn decode_status_maps_payload_fields() {
    let payload = [0x04u8, 0x7F, 0xD0, 0xC0, 0x2C, 0x01, 0x07, 0x00];
    let s = decode_status(&payload);
    assert_eq!(s.state, 4);
    assert_eq!(s.state_name(), "BUS_OFF");
    assert_eq!(s.flags, 0x7F);
    assert!(s.bus_off());
    assert!(s.tx_failed());
    assert!(s.rx_dropped());
    assert!(s.crc_bad());
    assert!(s.oversize());
    assert!(s.app_tx_dropped());
    assert!(s.bus_error());
    assert_eq!(s.tx_error_count, 0xD0);
    assert_eq!(s.rx_error_count, 0xC0);
    assert_eq!(s.tx_failed, 0x012C);
    assert_eq!(s.rx_dropped, 0x0007);
    let msg = s.describe();
    assert!(msg.contains("state=BUS_OFF"));
    assert!(msg.contains("TEC=208"));
    assert!(msg.contains("tx_failed=300"));
}

#[test]
fn decode_status_healthy_state_name() {
    let s = decode_status(&[1u8, 0x00, 0, 0, 0, 0, 0, 0]);
    assert_eq!(s.state_name(), "ERROR_ACTIVE");
    assert!(!s.bus_off());
    assert_eq!(s.flag_names(), "");
}

#[test]
fn is_hard_fault_classifies_by_controller_state() {
    let benign = decode_status(&[0x01u8, FLAG_RX_DROPPED, 0, 0, 0, 0, 0x01, 0x00]);
    assert_eq!(benign.state_name(), "ERROR_ACTIVE");
    assert!(benign.rx_dropped());
    assert!(!benign.is_hard_fault());

    let warn = decode_status(&[0x02u8, 0x00, 0, 0, 0, 0, 0, 0]);
    assert!(!warn.is_hard_fault());

    let soft_all = decode_status(&[0x01u8, 0x7E, 0, 0, 0, 0, 0, 0]);
    assert!(soft_all.bus_error());
    assert!(soft_all.crc_bad());
    assert!(soft_all.oversize());
    assert!(soft_all.rx_dropped());
    assert!(!soft_all.is_hard_fault());

    let passive = decode_status(&[0x03u8, 0x00, 0, 0, 0, 0, 0, 0]);
    assert!(passive.is_hard_fault());

    let busoff = decode_status(&[0x04u8, FLAG_BUS_OFF, 0, 0, 0, 0, 0, 0]);
    assert!(busoff.bus_off());
    assert!(busoff.is_hard_fault());
}

#[test]
fn describe_lists_every_field() {
    let s = decode_status(&[0x04u8, 0x03, 0xD0, 0xC0, 0x2C, 0x01, 0x07, 0x00]);
    assert_eq!(
        s.describe(),
        "state=BUS_OFF flags=bus_off,tx_failed TEC=208 REC=192 tx_failed=300 rx_dropped=7"
    );
}

#[test]
fn status_routing_drains_benign_and_reports_hard_faults() {
    let mut f = CanFrame {
        arbitration_id: STATUS_ID,
        data: [0x01, FLAG_RX_DROPPED, 0, 0, 0, 0, 1, 0],
        dlc: 8,
        is_extended: true,
        is_rx: true,
    };
    assert!(matches!(classify_rx(f), RxDisposition::Drain));
    f.data[0] = 0x04;
    match classify_rx(f) {
        RxDisposition::Fault(e) => {
            assert!(e.message().starts_with("mcu-serial link status: state=BUS_OFF"))
        }
        _ => panic!("a bus-off snapshot is a fault"),
    }
    let data = frame(0x123, &[1, 2], false);
    match classify_rx(data) {
        RxDisposition::Deliver(g) => assert_eq!(g.arbitration_id, 0x123),
        _ => panic!("an ordinary frame is delivered"),
    }
}

#[test]
fn partial_frame_stays_buffered() {
    let raw = encode_tx(frame(0x42, &[7, 8, 9], false)).unwrap();
    let mut buf: VecDeque<u8> = raw[..5].iter().copied().collect();
    assert!(try_parse_rx(&mut buf).is_none());
    assert_eq!(buf.len(), 5);
    buf.extend(&raw[5..]);
    let out = try_parse_rx(&mut buf).unwrap();
    assert_eq!(out.arbitration_id, 0x42);
}
