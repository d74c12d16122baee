use motorbridge::bus::{parse_slcan_spec, parse_u32, select_can_backend, CanBackend, Transport};

#[test]
fn transport_names_round_trip() {
    for t in [Transport::SocketCan, Transport::SocketCanFd, Transport::McuSerial, Transport::DmSerial] {
        assert_eq!(Transport::from_str(t.as_str()).unwrap(), t);
    }
    assert_eq!(Transport::from_str("MCU-Serial").unwrap(), Transport::McuSerial);
    assert_eq!(
        Transport::from_str("pcan").unwrap_err().message(),
        "unsupported transport: pcan (expected socketcan|socketcanfd|mcu-serial|dm-serial)"
    );
}

#[test]
fn slcan_channels_select_the_serial_adapter() {
    match select_can_backend("slcan:/dev/ttyACM0@500000").unwrap() {
        CanBackend::Slcan { port, bitrate } => {
            assert_eq!(port, "/dev/ttyACM0");
            assert_eq!(bitrate, 500_000);
        }
        other => panic!("expected slcan, got {other:?}"),
    }
    match select_can_backend("slcan: COM5 ").unwrap() {
        CanBackend::Slcan { port, bitrate } => {
            assert_eq!(port, "COM5");
            assert_eq!(bitrate, 1_000_000);
        }
        other => panic!("expected slcan, got {other:?}"),
    }
    match select_can_backend("can0").unwrap() {
        CanBackend::Platform { channel } => assert_eq!(channel, "can0"),
        other => panic!("expected platform, got {other:?}"),
    }
    assert_eq!(
        select_can_backend("slcan:COM5@fast").unwrap_err().message(),
        "invalid slcan bitrate 'fast', expected bit/s such as 1000000"
    );
    assert_eq!(
        select_can_backend("slcan:@1000").unwrap_err().message(),
        "empty slcan port, expected slcan:<port>[@<bitrate>]"
    );
}

#[test]
fn slcan_spec_uses_the_last_at() {
    let (port, rate) = parse_slcan_spec("a@b@250000").unwrap();
    assert_eq!(port, "a@b");
    assert_eq!(rate, 250_000);
}

#[test]
fn decimal_parsing() {
    assert_eq!(parse_u32("4294967295"), Some(u32::MAX));
    assert_eq!(parse_u32("4294967296"), None);
    assert_eq!(parse_u32("+12"), Some(12));
    assert_eq!(parse_u32(""), None);
    assert_eq!(parse_u32("1 2"), None);
}
