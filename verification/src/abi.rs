//! Which vendors may share a bus, and how a controller binds its bus when
//! the first motor of a vendor is added.
use crate::bus::Transport;
use crate::robstride::ControlMode as RobstrideControlMode;
use vstd::prelude::*;

verus! {

/// The vendor a motor belongs to.
#[derive(Clone, Copy, Debug, PartialEq, Eq, Structural)]
pub enum Vendor {
    Damiao,
    Hexfellow,
    MyActuator,
    Robstride,
    Hightorque,
}

/// The display name of a vendor.
pub open spec fn vendor_name(v: Vendor) -> Seq<char> {
    match v {
        Vendor::Damiao => "Damiao"@,
        Vendor::Hexfellow => "Hexfellow"@,
        Vendor::MyActuator => "MyActuator"@,
        Vendor::Robstride => "RobStride"@,
        Vendor::Hightorque => "HighTorque"@,
    }
}

/// The SocketCAN-family transport a vendor uses: CAN-FD for Hexfellow,
/// classic CAN for the others.
pub open spec fn socketcan_transport_of(v: Vendor) -> Transport {
    match v {
        Vendor::Hexfellow => Transport::SocketCanFd,
        _ => Transport::SocketCan,
    }
}

/// Whether motors of `vendor` may be added to a bus opened as `transport`:
/// classic-CAN links take every vendor but Hexfellow, CAN-FD only
/// Hexfellow, the Damiao dongle only Damiao.
pub open spec fn supports(transport: Transport, vendor: Vendor) -> bool {
    match transport {
        Transport::McuSerial | Transport::SocketCan => vendor != Vendor::Hexfellow,
        Transport::SocketCanFd => vendor == Vendor::Hexfellow,
        Transport::DmSerial => vendor == Vendor::Damiao,
    }
}

impl Vendor {
    pub fn name(self) -> (r: &'static str)
        ensures
            r@ == vendor_name(self),
    {
        match self {
            Vendor::Damiao => "Damiao",
            Vendor::Hexfellow => "Hexfellow",
            Vendor::MyActuator => "MyActuator",
            Vendor::Robstride => "RobStride",
            Vendor::Hightorque => "HighTorque",
        }
    }

    /// The SocketCAN-family transport this vendor uses.
    pub fn socketcan_transport(self) -> (r: Transport)
        ensures
            r == socketcan_transport_of(self),
    {
        match self {
            Vendor::Hexfellow => Transport::SocketCanFd,
            _ => Transport::SocketCan,
        }
    }
}

/// Whether motors of `vendor` may be added to a bus opened as `transport`.
pub fn transport_supports_vendor(transport: Transport, vendor: Vendor) -> (r: bool)
    ensures
        r == supports(transport, vendor),
{
    match transport {
        Transport::McuSerial | Transport::SocketCan => vendor != Vendor::Hexfellow,
        Transport::SocketCanFd => vendor == Vendor::Hexfellow,
        Transport::DmSerial => vendor == Vendor::Damiao,
    }
}

/// The RobStride run mode chosen by a mode number of the C interface:
/// 1 MIT, 2 position (PP), 3 velocity, 5 position (CSP).
pub fn to_robstride_mode(mode: u32) -> (r: Result<RobstrideControlMode, &'static str>)
    ensures
        mode == 1 ==> r == Ok::<RobstrideControlMode, &'static str>(RobstrideControlMode::Mit),
        mode == 2 ==> r == Ok::<RobstrideControlMode, &'static str>(RobstrideControlMode::Position),
        mode == 3 ==> r == Ok::<RobstrideControlMode, &'static str>(RobstrideControlMode::Velocity),
        mode == 5 ==> r == Ok::<RobstrideControlMode, &'static str>(
            RobstrideControlMode::PositionCsp,
        ),
        !(mode == 1 || mode == 2 || mode == 3 || mode == 5) ==> (r matches Err(m) && m@
            == "RobStride mode must be 1(MIT) / 2(POSITION-PP) / 3(VELOCITY) / 5(POSITION-CSP)"@),
{
    match mode {
        1 => Ok(RobstrideControlMode::Mit),
        2 => Ok(RobstrideControlMode::Position),
        3 => Ok(RobstrideControlMode::Velocity),
        5 => Ok(RobstrideControlMode::PositionCsp),
        _ => Err("RobStride mode must be 1(MIT) / 2(POSITION-PP) / 3(VELOCITY) / 5(POSITION-CSP)"),
    }
}

/// How far a controller has got with its bus.
#[derive(Clone, Copy, Debug, PartialEq, Eq, Structural)]
pub enum BindState {
    /// A SocketCAN channel, not opened yet.
    Unbound,
    /// A UART bridge port, not opened yet.
    UnboundMcuSerial,
    /// A Damiao USB dongle, opened for Damiao motors only.
    Damiao,
    /// A shared bus, opened as the given transport.
    Bound(Transport),
}

/// What binding a controller for a vendor does.
#[derive(Debug)]
pub enum BindAction {
    /// Use the bus already opened.
    Reuse,
    /// Open the bus as this transport, then use it.
    Open(Transport),
    /// Refuse, with this message.
    Reject(String),
}

/// The name a transport is shown by in messages.
pub open spec fn transport_debug_name(t: Transport) -> Seq<char> {
    match t {
        Transport::SocketCan => "SocketCan"@,
        Transport::SocketCanFd => "SocketCanFd"@,
        Transport::McuSerial => "McuSerial"@,
        Transport::DmSerial => "DmSerial"@,
    }
}

fn transport_debug_str(t: Transport) -> (r: &'static str)
    ensures
        r@ == transport_debug_name(t),
{
    match t {
        Transport::SocketCan => "SocketCan",
        Transport::SocketCanFd => "SocketCanFd",
        Transport::McuSerial => "McuSerial",
        Transport::DmSerial => "DmSerial",
    }
}

/// The message of a vendor refused by a bus already opened.
pub open spec fn incompatible_bus_message(t: Transport, v: Vendor) -> Seq<char> {
    "controller bus already opened as "@ + transport_debug_name(t) + "; "@ + vendor_name(v)
        + " is not supported on this transport — use a separate controller"@
}

/// What binding a controller in `state` for a motor of `vendor` does: a
/// bound bus is reused when it supports the vendor; a Damiao dongle takes
/// nothing else; an unopened UART bridge is opened as mcu-serial for any
/// vendor but Hexfellow; an unopened SocketCAN channel is opened as the
/// vendor's own SocketCAN transport.
pub open spec fn bind_action_spec(state: BindState, vendor: Vendor) -> Result<Option<Transport>, Seq<char>> {
    match state {
        BindState::Bound(t) => if supports(t, vendor) {
            Ok(None)
        } else {
            Err(incompatible_bus_message(t, vendor))
        },
        BindState::Damiao => Err(
            "controller already bound to Damiao (dm-serial/dm-device is damiao-only) — use a separate controller"@,
        ),
        BindState::UnboundMcuSerial => if vendor == Vendor::Hexfellow {
            Err(
                "hexfellow requires CAN-FD; mcu-serial is classic CAN only — use a separate socketcanfd controller"@,
            )
        } else {
            Ok(Some(Transport::McuSerial))
        },
        BindState::Unbound => Ok(Some(socketcan_transport_of(vendor))),
    }
}

/// The meaning of an action: `Ok(None)` reuse, `Ok(Some(t))` open as `t`,
/// `Err(m)` refuse with `m`.
pub open spec fn bind_action_view(a: BindAction) -> Result<Option<Transport>, Seq<char>> {
    match a {
        BindAction::Reuse => Ok(None),
        BindAction::Open(t) => Ok(Some(t)),
        BindAction::Reject(m) => Err(m@),
    }
}

/// Decide how a controller binds its bus for a motor of `vendor`.
pub fn bind_action(state: BindState, vendor: Vendor) -> (r: BindAction)
    ensures
        bind_action_view(r) == bind_action_spec(state, vendor),
{
    match state {
        BindState::Bound(t) => {
            if transport_supports_vendor(t, vendor) {
                BindAction::Reuse
            } else {
                let mut m = String::from_str("controller bus already opened as ");
                m.append(transport_debug_str(t));
                m.append("; ");
                m.append(vendor.name());
                m.append(" is not supported on this transport — use a separate controller");
                BindAction::Reject(m)
            }
        },
        BindState::Damiao => BindAction::Reject(
            String::from_str(
                "controller already bound to Damiao (dm-serial/dm-device is damiao-only) — use a separate controller",
            ),
        ),
        BindState::UnboundMcuSerial => {
            if vendor == Vendor::Hexfellow {
                BindAction::Reject(
                    String::from_str(
                        "hexfellow requires CAN-FD; mcu-serial is classic CAN only — use a separate socketcanfd controller",
                    ),
                )
            } else {
                BindAction::Open(Transport::McuSerial)
            }
        },
        BindState::Unbound => BindAction::Open(vendor.socketcan_transport()),
    }
}

/// A controller only ever ends up on a bus that supports the vendor it
/// bound for: whatever it reuses or opens takes that vendor's motors.
pub proof fn law_bound_bus_supports_vendor(state: BindState, vendor: Vendor)
    ensures
        bind_action_spec(state, vendor) matches Ok(Some(t)) ==> supports(t, vendor),
        bind_action_spec(state, vendor) matches Ok(None) ==> (state matches BindState::Bound(t)
            && supports(t, vendor)),
{
}

/// Every vendor's own SocketCAN transport supports it.
pub proof fn law_socketcan_transport_supports_vendor(vendor: Vendor)
    ensures
        supports(socketcan_transport_of(vendor), vendor),
{
}

} // verus!
