use motorbridge::bus::Transport;
use motorbridge::gateway::{
    hightorque_bus_transport, model_is_auto, parse_u16_text, robstride_position_mode_for_op,
    RobstridePositionMode, TargetTransport,
};

#[test]
fn routes_robstride_pp_and_csp_operation_aliases() {
    assert_eq!(robstride_position_mode_for_op("pos_vel_pp"), Some(RobstridePositionMode::Pp));
    assert_eq!(robstride_position_mode_for_op("pos-vel-pp"), Some(RobstridePositionMode::Pp));
    assert_eq!(robstride_position_mode_for_op("pos_vel_csp"), Some(RobstridePositionMode::Csp));
    assert_eq!(robstride_position_mode_for_op("pos-vel-csp"), Some(RobstridePositionMode::Csp));
    assert_eq!(robstride_position_mode_for_op("pos_vel"), None);
}

#[test]
fn auto_model_names() {
    assert!(model_is_auto(""));
    assert!(model_is_auto("  AUTO "));
    assert!(model_is_auto("All"));
    assert!(model_is_auto("*"));
    assert!(!model_is_auto("4310"));
}

#[test]
fn hightorque_transports() {
    assert_eq!(hightorque_bus_transport(TargetTransport::Auto), Ok(Transport::SocketCan));
    assert_eq!(hightorque_bus_transport(TargetTransport::McuSerial), Ok(Transport::McuSerial));
    assert_eq!(
        hightorque_bus_transport(TargetTransport::SocketCanFd),
        Err("hightorque currently uses standard CAN transport only")
    );
    assert_eq!(
        hightorque_bus_transport(TargetTransport::DmDevice),
        Err("transport dm-device is damiao-only")
    );
}

#[test]
fn ids_written_as_text() {
    assert_eq!(parse_u16_text(" 0x1A "), Some(0x1A));
    assert_eq!(parse_u16_text("0XfF"), Some(0xFF));
    assert_eq!(parse_u16_text("26"), Some(26));
    assert_eq!(parse_u16_text("+7"), Some(7));
    assert_eq!(parse_u16_text("0x+10"), Some(0x10));
    assert_eq!(parse_u16_text("65536"), None);
    assert_eq!(parse_u16_text("0x10000"), None);
    assert_eq!(parse_u16_text("0x"), None);
    assert_eq!(parse_u16_text("abc"), None);
    assert_eq!(parse_u16_text(""), None);
}
