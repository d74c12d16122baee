use motorbridge::robstride::{host_id_candidates, validate_device_id, validate_host_id, ControlMode};

#[test]
fn constructor_rejects_out_of_range_ids() {
    assert!(validate_device_id(0, "motor_id").is_err());
    assert!(validate_device_id(256, "motor_id").is_err());
    assert!(validate_host_id(0x100, "feedback_id").is_err());
    assert!(validate_device_id(1, "motor_id").is_ok());
    assert!(validate_host_id(0xFD, "feedback_id").is_ok());
}

#[test]
fn id_error_messages() {
    assert_eq!(
        validate_device_id(0, "motor_id").unwrap_err().message(),
        "RobStride motor_id must be in 1..255, got 0"
    );
    assert_eq!(
        validate_host_id(300, "feedback_id").unwrap_err().message(),
        "RobStride feedback_id/host_id must be in 0..255, got 300"
    );
}

#[test]
fn run_modes_from_raw_values() {
    assert_eq!(ControlMode::from_raw(0).unwrap(), ControlMode::Mit);
    assert_eq!(ControlMode::from_raw(1).unwrap(), ControlMode::Position);
    assert_eq!(ControlMode::from_raw(2).unwrap(), ControlMode::Velocity);
    assert_eq!(ControlMode::from_raw(5).unwrap(), ControlMode::PositionCsp);
    assert_eq!(
        ControlMode::from_raw(3).unwrap_err().message(),
        "unsupported RobStride run_mode value 3"
    );
    assert_eq!(
        ControlMode::from_raw(-128).unwrap_err().message(),
        "unsupported RobStride run_mode value -128"
    );
    for m in [ControlMode::Mit, ControlMode::Position, ControlMode::Velocity, ControlMode::PositionCsp] {
        assert_eq!(ControlMode::from_raw(m.value()).unwrap(), m);
    }
    assert_eq!(ControlMode::PositionCsp.as_str(), "csp");
    assert_eq!(ControlMode::Position.as_str(), "pp");
}

#[test]
fn host_candidates_do_not_repeat() {
    assert_eq!(host_id_candidates(0xFD), vec![0xFD, 0xFF, 0xFE]);
    assert_eq!(host_id_candidates(0x00), vec![0x00, 0xFD, 0xFF, 0xFE]);
}
