use motorbridge::abi::{bind_action, to_robstride_mode, transport_supports_vendor, BindAction, BindState, Vendor};
use motorbridge::bus::Transport;
use motorbridge::robstride::ControlMode;

#[test]
fn classic_can_transports_accept_all_classic_vendors_reject_hexfellow() {
    let classics = [Vendor::Damiao, Vendor::MyActuator, Vendor::Robstride, Vendor::Hightorque];
    for t in [Transport::McuSerial, Transport::SocketCan] {
        for v in classics {
            assert!(transport_supports_vendor(t, v), "{t:?} should accept {v:?}");
        }
        assert!(
            !transport_supports_vendor(t, Vendor::Hexfellow),
            "{t:?} must reject Hexfellow (CAN-FD)"
        );
    }
}

#[test]
fn socketcanfd_is_hexfellow_only() {
    assert!(transport_supports_vendor(Transport::SocketCanFd, Vendor::Hexfellow));
    for v in [Vendor::Damiao, Vendor::MyActuator, Vendor::Robstride, Vendor::Hightorque] {
        assert!(
            !transport_supports_vendor(Transport::SocketCanFd, v),
            "SocketCanFd must reject {v:?} (classic-CAN vendor)"
        );
    }
}

#[test]
fn dmserial_is_damiao_only() {
    assert!(transport_supports_vendor(Transport::DmSerial, Vendor::Damiao));
    for v in [Vendor::Hexfellow, Vendor::MyActuator, Vendor::Robstride, Vendor::Hightorque] {
        assert!(
            !transport_supports_vendor(Transport::DmSerial, v),
            "DmSerial (Damiao dongle) must reject {v:?}"
        );
    }
}

#[test]
fn socketcan_transport_picks_classic_for_all_but_hexfellow() {
    assert_eq!(Vendor::Hexfellow.socketcan_transport(), Transport::SocketCanFd);
    for v in [Vendor::Damiao, Vendor::MyActuator, Vendor::Robstride, Vendor::Hightorque] {
        assert_eq!(v.socketcan_transport(), Transport::SocketCan);
    }
}

#[test]
fn binding_opens_reuses_or_refuses() {
    assert!(matches!(
        bind_action(BindState::Unbound, Vendor::Hexfellow),
        BindAction::Open(Transport::SocketCanFd)
    ));
    assert!(matches!(
        bind_action(BindState::UnboundMcuSerial, Vendor::Hightorque),
        BindAction::Open(Transport::McuSerial)
    ));
    assert!(matches!(
        bind_action(BindState::Bound(Transport::SocketCan), Vendor::Damiao),
        BindAction::Reuse
    ));
    match bind_action(BindState::Bound(Transport::SocketCan), Vendor::Hexfellow) {
        BindAction::Reject(m) => assert_eq!(
            m,
            "controller bus already opened as SocketCan; Hexfellow is not supported on this transport — use a separate controller"
        ),
        other => panic!("expected a refusal, got {other:?}"),
    }
    assert!(matches!(
        bind_action(BindState::UnboundMcuSerial, Vendor::Hexfellow),
        BindAction::Reject(_)
    ));
    assert!(matches!(bind_action(BindState::Damiao, Vendor::Damiao), BindAction::Reject(_)));
}

#[test]
fn robstride_modes_of_the_c_interface() {
    assert_eq!(to_robstride_mode(1), Ok(ControlMode::Mit));
    assert_eq!(to_robstride_mode(5), Ok(ControlMode::PositionCsp));
    assert!(to_robstride_mode(4).is_err());
    assert_eq!(Vendor::Robstride.name(), "RobStride");
}
