//! CyberBeast CAN protocol: big-endian payloads, extended 29-bit CAN id with
//! a J1939-like layout.
//!
//! CAN id layout: `Priority[28:26] | MsgType[25:18] | Dest[17:10] | Source[9:2] | Seq[1:0]`.
//! Message types below 0x80 are point-to-point, those from 0x80 broadcast.
//!
//! The floating-point quantities of the protocol (MIT gains and limits,
//! IEEE-754 parameter values) are carried here as the integers and bit
//! patterns that travel on the wire.
use crate::frame::{CanFrame, FrameView};
use vstd::prelude::*;

verus! {

pub const PRIORITY_SHIFT: u32 = 26;

pub const MSGTYPE_SHIFT: u32 = 18;

pub const DEST_SHIFT: u32 = 10;

pub const SOURCE_SHIFT: u32 = 2;

pub const SEQ_SHIFT: u32 = 0;

pub const PRIORITY_MASK: u32 = 0x7;

pub const MSGTYPE_MASK: u32 = 0xFF;

pub const DEST_MASK: u32 = 0xFF;

pub const SOURCE_MASK: u32 = 0xFF;

pub const SEQ_MASK: u32 = 0x3;

/// Message types at or above this value are broadcast.
pub const MSGTYPE_BROADCAST_THRESHOLD: u8 = 0x80;

/// Destination value of a global broadcast.
pub const ADDR_BROADCAST: u8 = 0xFF;

/// Number of devices a multicast bitmap can address.
pub const MAX_BROADCAST_DEVICES: u8 = 8;

/// Default master (host) node address.
pub const DEFAULT_MASTER_ID: u8 = 0x01;

/// Lower 5 bits of heartbeat byte 0: subsystem error flags.
pub const HEARTBEAT_ERROR_AXIS: u8 = 0x01;

pub const HEARTBEAT_ERROR_MOTOR: u8 = 0x02;

pub const HEARTBEAT_ERROR_ENCODER: u8 = 0x04;

pub const HEARTBEAT_ERROR_CONTROLLER: u8 = 0x08;

pub const HEARTBEAT_ERROR_BOARD: u8 = 0x10;

// ---------------------------------------------------------------------------
// Priority (3 bits, 8 levels)
// ---------------------------------------------------------------------------

#[derive(Debug, Clone, Copy, PartialEq, Eq, Structural)]
pub enum Priority {
    Critical,
    Emergency,
    HighCtrl,
    Ctrl,
    Config,
    Query,
    Status,
    Low,
}

pub open spec fn priority_code(p: Priority) -> u8 {
    match p {
        Priority::Critical => 0,
        Priority::Emergency => 1,
        Priority::HighCtrl => 2,
        Priority::Ctrl => 3,
        Priority::Config => 4,
        Priority::Query => 5,
        Priority::Status => 6,
        Priority::Low => 7,
    }
}

impl Priority {
    /// The priority of the low 3 bits of `v`.
    pub fn from_u8(v: u8) -> (r: Priority)
        ensures
            priority_code(r) == v & 7,
    {
        let b = v & 7;
        assert(b < 8) by (bit_vector)
            requires
                b == v & 7,
        ;
        match b {
            0 => Priority::Critical,
            1 => Priority::Emergency,
            2 => Priority::HighCtrl,
            3 => Priority::Ctrl,
            4 => Priority::Config,
            5 => Priority::Query,
            6 => Priority::Status,
            _ => Priority::Low,
        }
    }

    /// The 3-bit code of the priority.
    pub fn code(self) -> (r: u8)
        ensures
            r == priority_code(self),
    {
        match self {
            Priority::Critical => 0,
            Priority::Emergency => 1,
            Priority::HighCtrl => 2,
            Priority::Ctrl => 3,
            Priority::Config => 4,
            Priority::Query => 5,
            Priority::Status => 6,
            Priority::Low => 7,
        }
    }
}

/// A priority's code reads back as that priority.
pub proof fn law_priority_round_trip(p: Priority)
    ensures
        priority_code(p) < 8,
        ({
            let c = priority_code(p);
            c & 7 == c
        }),
{
    let c = priority_code(p);
    assert(c < 8 ==> c & 7 == c) by (bit_vector);
}

// ---------------------------------------------------------------------------
// Message types
// ---------------------------------------------------------------------------

#[derive(Debug, Clone, Copy, PartialEq, Eq, Structural)]
pub enum MsgType {
    MitControl,
    PosControl,
    VelControl,
    TorqueControl,
    CurrentControl,
    ParamRead,
    ParamWrite,
    ConfigSave,
    ConfigReset,
    JsonDescRead,
    JsonDescData,
    QueryStatus,
    QueryPosVel,
    QueryCurrent,
    QueryTemperature,
    QueryBus,
    QueryError,
    QueryDeviceInfo,
    QueryPower,
    Heartbeat,
    StatusFeedback,
    SetNodeId,
    SetZero,
    StartMotor,
    StopMotor,
    ResetDevice,
    ClearErrors,
    MitControlBcast,
    PosControlBcast,
    VelControlBcast,
    TorqueControlBcast,
    Estop,
    FaultAlert,
}

/// The 8-bit code of a message type.
pub open spec fn msg_code(m: MsgType) -> u8 {
    match m {
        MsgType::MitControl => 0x00,
        MsgType::PosControl => 0x01,
        MsgType::VelControl => 0x02,
        MsgType::TorqueControl => 0x03,
        MsgType::CurrentControl => 0x04,
        MsgType::ParamRead => 0x20,
        MsgType::ParamWrite => 0x21,
        MsgType::ConfigSave => 0x22,
        MsgType::ConfigReset => 0x23,
        MsgType::JsonDescRead => 0x24,
        MsgType::JsonDescData => 0x25,
        MsgType::QueryStatus => 0x40,
        MsgType::QueryPosVel => 0x41,
        MsgType::QueryCurrent => 0x42,
        MsgType::QueryTemperature => 0x43,
        MsgType::QueryBus => 0x44,
        MsgType::QueryError => 0x45,
        MsgType::QueryDeviceInfo => 0x46,
        MsgType::QueryPower => 0x47,
        MsgType::Heartbeat => 0x48,
        MsgType::StatusFeedback => 0x49,
        MsgType::SetNodeId => 0x60,
        MsgType::SetZero => 0x61,
        MsgType::StartMotor => 0x62,
        MsgType::StopMotor => 0x63,
        MsgType::ResetDevice => 0x64,
        MsgType::ClearErrors => 0x65,
        MsgType::MitControlBcast => 0x80,
        MsgType::PosControlBcast => 0x81,
        MsgType::VelControlBcast => 0x82,
        MsgType::TorqueControlBcast => 0x83,
        MsgType::Estop => 0xC0,
        MsgType::FaultAlert => 0xC1,
    }
}

/// The message type of a code; unknown codes fall back to `MitControl`.
pub open spec fn msg_type_of(v: u8) -> MsgType {
    if v == 0x00 {
        MsgType::MitControl
    } else if v == 0x01 {
        MsgType::PosControl
    } else if v == 0x02 {
        MsgType::VelControl
    } else if v == 0x03 {
        MsgType::TorqueControl
    } else if v == 0x04 {
        MsgType::CurrentControl
    } else if v == 0x20 {
        MsgType::ParamRead
    } else if v == 0x21 {
        MsgType::ParamWrite
    } else if v == 0x22 {
        MsgType::ConfigSave
    } else if v == 0x23 {
        MsgType::ConfigReset
    } else if v == 0x24 {
        MsgType::JsonDescRead
    } else if v == 0x25 {
        MsgType::JsonDescData
    } else if v == 0x40 {
        MsgType::QueryStatus
    } else if v == 0x41 {
        MsgType::QueryPosVel
    } else if v == 0x42 {
        MsgType::QueryCurrent
    } else if v == 0x43 {
        MsgType::QueryTemperature
    } else if v == 0x44 {
        MsgType::QueryBus
    } else if v == 0x45 {
        MsgType::QueryError
    } else if v == 0x46 {
        MsgType::QueryDeviceInfo
    } else if v == 0x47 {
        MsgType::QueryPower
    } else if v == 0x48 {
        MsgType::Heartbeat
    } else if v == 0x49 {
        MsgType::StatusFeedback
    } else if v == 0x60 {
        MsgType::SetNodeId
    } else if v == 0x61 {
        MsgType::SetZero
    } else if v == 0x62 {
        MsgType::StartMotor
    } else if v == 0x63 {
        MsgType::StopMotor
    } else if v == 0x64 {
        MsgType::ResetDevice
    } else if v == 0x65 {
        MsgType::ClearErrors
    } else if v == 0x80 {
        MsgType::MitControlBcast
    } else if v == 0x81 {
        MsgType::PosControlBcast
    } else if v == 0x82 {
        MsgType::VelControlBcast
    } else if v == 0x83 {
        MsgType::TorqueControlBcast
    } else if v == 0xC0 {
        MsgType::Estop
    } else if v == 0xC1 {
        MsgType::FaultAlert
    } else {
        MsgType::MitControl
    }
}

impl MsgType {
    pub fn from_u8(v: u8) -> (r: MsgType)
        ensures
            r == msg_type_of(v),
    {
        match v {
            0x00 => MsgType::MitControl,
            0x01 => MsgType::PosControl,
            0x02 => MsgType::VelControl,
            0x03 => MsgType::TorqueControl,
            0x04 => MsgType::CurrentControl,
            0x20 => MsgType::ParamRead,
            0x21 => MsgType::ParamWrite,
            0x22 => MsgType::ConfigSave,
            0x23 => MsgType::ConfigReset,
            0x24 => MsgType::JsonDescRead,
            0x25 => MsgType::JsonDescData,
            0x40 => MsgType::QueryStatus,
            0x41 => MsgType::QueryPosVel,
            0x42 => MsgType::QueryCurrent,
            0x43 => MsgType::QueryTemperature,
            0x44 => MsgType::QueryBus,
            0x45 => MsgType::QueryError,
            0x46 => MsgType::QueryDeviceInfo,
            0x47 => MsgType::QueryPower,
            0x48 => MsgType::Heartbeat,
            0x49 => MsgType::StatusFeedback,
            0x60 => MsgType::SetNodeId,
            0x61 => MsgType::SetZero,
            0x62 => MsgType::StartMotor,
            0x63 => MsgType::StopMotor,
            0x64 => MsgType::ResetDevice,
            0x65 => MsgType::ClearErrors,
            0x80 => MsgType::MitControlBcast,
            0x81 => MsgType::PosControlBcast,
            0x82 => MsgType::VelControlBcast,
            0x83 => MsgType::TorqueControlBcast,
            0xC0 => MsgType::Estop,
            0xC1 => MsgType::FaultAlert,
            _ => MsgType::MitControl,
        }
    }

    /// The 8-bit code of the message type.
    pub fn code(self) -> (r: u8)
        ensures
            r == msg_code(self),
    {
        match self {
            MsgType::MitControl => 0x00,
            MsgType::PosControl => 0x01,
            MsgType::VelControl => 0x02,
            MsgType::TorqueControl => 0x03,
            MsgType::CurrentControl => 0x04,
            MsgType::ParamRead => 0x20,
            MsgType::ParamWrite => 0x21,
            MsgType::ConfigSave => 0x22,
            MsgType::ConfigReset => 0x23,
            MsgType::JsonDescRead => 0x24,
            MsgType::JsonDescData => 0x25,
            MsgType::QueryStatus => 0x40,
            MsgType::QueryPosVel => 0x41,
            MsgType::QueryCurrent => 0x42,
            MsgType::QueryTemperature => 0x43,
            MsgType::QueryBus => 0x44,
            MsgType::QueryError => 0x45,
            MsgType::QueryDeviceInfo => 0x46,
            MsgType::QueryPower => 0x47,
            MsgType::Heartbeat => 0x48,
            MsgType::StatusFeedback => 0x49,
            MsgType::SetNodeId => 0x60,
            MsgType::SetZero => 0x61,
            MsgType::StartMotor => 0x62,
            MsgType::StopMotor => 0x63,
            MsgType::ResetDevice => 0x64,
            MsgType::ClearErrors => 0x65,
            MsgType::MitControlBcast => 0x80,
            MsgType::PosControlBcast => 0x81,
            MsgType::VelControlBcast => 0x82,
            MsgType::TorqueControlBcast => 0x83,
            MsgType::Estop => 0xC0,
            MsgType::FaultAlert => 0xC1,
        }
    }

    /// Whether the type is a broadcast type (code at or above 0x80).
    pub fn is_broadcast(&self) -> (r: bool)
        ensures
            r == (msg_code(*self) >= MSGTYPE_BROADCAST_THRESHOLD),
    {
        self.code() >= MSGTYPE_BROADCAST_THRESHOLD
    }
}

/// Every message type's code reads back as that type.
pub proof fn law_msg_type_round_trip(m: MsgType)
    ensures
        msg_type_of(msg_code(m)) == m,
{
}

// ---------------------------------------------------------------------------
// Error codes and mode states of the MIT response
// ---------------------------------------------------------------------------

#[derive(Debug, Clone, Copy, PartialEq, Eq, Structural)]
pub enum ErrorCode {
    NoError,
    Motor,
    Encoder,
    Controller,
    UnderVoltage,
    OverTemp,
    OverCurrent,
    Stall,
    CanTimeout,
    Multiple,
}

pub open spec fn error_code_value(e: ErrorCode) -> u8 {
    match e {
        ErrorCode::NoError => 0x0,
        ErrorCode::Motor => 0x1,
        ErrorCode::Encoder => 0x2,
        ErrorCode::Controller => 0x3,
        ErrorCode::UnderVoltage => 0x4,
        ErrorCode::OverTemp => 0x5,
        ErrorCode::OverCurrent => 0x6,
        ErrorCode::Stall => 0x7,
        ErrorCode::CanTimeout => 0x8,
        ErrorCode::Multiple => 0xF,
    }
}

impl ErrorCode {
    /// The error of a code; codes 9 and up all read as `Multiple`.
    pub fn from_u8(v: u8) -> (r: ErrorCode)
        ensures
            v <= 8 ==> error_code_value(r) == v,
            v > 8 ==> r == ErrorCode::Multiple,
    {
        match v {
            0x0 => ErrorCode::NoError,
            0x1 => ErrorCode::Motor,
            0x2 => ErrorCode::Encoder,
            0x3 => ErrorCode::Controller,
            0x4 => ErrorCode::UnderVoltage,
            0x5 => ErrorCode::OverTemp,
            0x6 => ErrorCode::OverCurrent,
            0x7 => ErrorCode::Stall,
            0x8 => ErrorCode::CanTimeout,
            _ => ErrorCode::Multiple,
        }
    }

    pub fn code(self) -> (r: u8)
        ensures
            r == error_code_value(self),
    {
        match self {
            ErrorCode::NoError => 0x0,
            ErrorCode::Motor => 0x1,
            ErrorCode::Encoder => 0x2,
            ErrorCode::Controller => 0x3,
            ErrorCode::UnderVoltage => 0x4,
            ErrorCode::OverTemp => 0x5,
            ErrorCode::OverCurrent => 0x6,
            ErrorCode::Stall => 0x7,
            ErrorCode::CanTimeout => 0x8,
            ErrorCode::Multiple => 0xF,
        }
    }
}

#[derive(Debug, Clone, Copy, PartialEq, Eq, Structural)]
pub enum ModeState {
    Reset,
    Calibrating,
    Idle,
    ClosedLoop,
    Mit,
    Position,
    Velocity,
    Torque,
}

/// Name of the low nibble of a mode-state byte.
pub open spec fn mode_state_name(v: u8) -> Seq<char> {
    let n = v & 0x0F;
    if n == 0 {
        "reset"@
    } else if n == 1 {
        "calibrating"@
    } else if n == 2 {
        "idle"@
    } else if n == 3 {
        "closed_loop"@
    } else if n == 4 {
        "mit"@
    } else if n == 5 {
        "position"@
    } else if n == 6 {
        "velocity"@
    } else if n == 7 {
        "torque"@
    } else {
        "unknown"@
    }
}

impl ModeState {
    /// The raw mode value (low nibble); the caller interprets it.
    pub fn from_u8(v: u8) -> (r: u8)
        ensures
            r == v & 0x0F,
    {
        v & 0x0F
    }

    pub fn name(v: u8) -> (r: &'static str)
        ensures
            r@ == mode_state_name(v),
    {
        match v & 0x0F {
            0x0 => "reset",
            0x1 => "calibrating",
            0x2 => "idle",
            0x3 => "closed_loop",
            0x4 => "mit",
            0x5 => "position",
            0x6 => "velocity",
            0x7 => "torque",
            _ => "unknown",
        }
    }
}

// ---------------------------------------------------------------------------
// CAN id
// ---------------------------------------------------------------------------

/// Fields of a CyberBeast CAN id.
#[derive(Debug, Clone, Copy, PartialEq, Eq, Structural)]
pub struct CyberBeastCanId {
    pub priority: u8,
    pub msg_type: u8,
    pub dest: u8,
    pub source: u8,
    pub seq: u8,
    pub is_broadcast: bool,
}

/// The 29-bit id of the given fields (priority and sequence number masked
/// to their widths).
pub open spec fn can_id_spec(priority: u8, msg_type: u8, dest: u8, source: u8, seq: u8) -> u32 {
    ((priority & 7u8) as u32) << 26u32 | (msg_type as u32) << 18u32 | (dest as u32) << 10u32 | (
    source as u32) << 2u32 | ((seq & 3u8) as u32)
}

/// The fields of an id.
pub open spec fn parts_spec(can_id: u32) -> CyberBeastCanId {
    let msg_type = ((can_id >> 18u32) & 0xFFu32) as u8;
    CyberBeastCanId {
        priority: ((can_id >> 26u32) & 7u32) as u8,
        msg_type,
        dest: ((can_id >> 10u32) & 0xFFu32) as u8,
        source: ((can_id >> 2u32) & 0xFFu32) as u8,
        seq: (can_id & 3u32) as u8,
        is_broadcast: msg_type >= 0x80,
    }
}

/// Build a 29-bit extended CAN id from the protocol fields.
pub fn make_can_id(priority: u8, msg_type: u8, dest: u8, source: u8, seq: u8) -> (r: u32)
    ensures
        r == can_id_spec(priority, msg_type, dest, source, seq),
{
    ((priority & 7) as u32) << 26 | (msg_type as u32) << 18 | (dest as u32) << 10 | (source as u32)
        << 2 | ((seq & 3) as u32)
}

/// Split a 29-bit CAN id into its protocol fields.
pub fn can_id_parts(can_id: u32) -> (r: CyberBeastCanId)
    ensures
        r == parts_spec(can_id),
{
    let msg_type = ((can_id >> 18) & 0xFF) as u8;
    CyberBeastCanId {
        priority: ((can_id >> 26) & 7) as u8,
        msg_type,
        dest: ((can_id >> 10) & 0xFF) as u8,
        source: ((can_id >> 2) & 0xFF) as u8,
        seq: (can_id & 3) as u8,
        is_broadcast: msg_type >= MSGTYPE_BROADCAST_THRESHOLD,
    }
}

/// Splitting a built id gives back its fields, priority and sequence number
/// masked to their widths; the id fits in 29 bits.
pub proof fn law_can_id_round_trip(priority: u8, msg_type: u8, dest: u8, source: u8, seq: u8)
    ensures
        can_id_spec(priority, msg_type, dest, source, seq) < 0x2000_0000,
        parts_spec(can_id_spec(priority, msg_type, dest, source, seq)) == (CyberBeastCanId {
            priority: priority & 7,
            msg_type,
            dest,
            source,
            seq: seq & 3,
            is_broadcast: msg_type >= 0x80,
        }),
{
    assert((((priority & 7u8) as u32) << 26u32 | (msg_type as u32) << 18u32 | (dest as u32) << 10u32
        | (source as u32) << 2u32 | ((seq & 3u8) as u32)) < 0x2000_0000
        && ((((priority & 7u8) as u32) << 26u32 | (msg_type as u32) << 18u32 | (dest as u32) << 10u32
        | (source as u32) << 2u32 | ((seq & 3u8) as u32)) >> 26u32) & 7u32 == (priority & 7u8) as u32
        && ((((priority & 7u8) as u32) << 26u32 | (msg_type as u32) << 18u32 | (dest as u32) << 10u32
        | (source as u32) << 2u32 | ((seq & 3u8) as u32)) >> 18u32) & 0xFFu32 == msg_type as u32
        && ((((priority & 7u8) as u32) << 26u32 | (msg_type as u32) << 18u32 | (dest as u32) << 10u32
        | (source as u32) << 2u32 | ((seq & 3u8) as u32)) >> 10u32) & 0xFFu32 == dest as u32
        && ((((priority & 7u8) as u32) << 26u32 | (msg_type as u32) << 18u32 | (dest as u32) << 10u32
        | (source as u32) << 2u32 | ((seq & 3u8) as u32)) >> 2u32) & 0xFFu32 == source as u32
        && (((priority & 7u8) as u32) << 26u32 | (msg_type as u32) << 18u32 | (dest as u32) << 10u32
        | (source as u32) << 2u32 | ((seq & 3u8) as u32)) & 3u32 == (seq & 3u8) as u32) by (bit_vector);
}

/// Field positions of an id: the priority (three bits) at 2^26, the message
/// type at 2^18, the destination at 2^10, the source at 2^2 and the
/// sequence number (two bits) at 2^0.
pub proof fn law_can_id_layout(priority: u8, msg_type: u8, dest: u8, source: u8, seq: u8)
    ensures
        can_id_spec(priority, msg_type, dest, source, seq) as int == (priority % 8) as int * 0x400_0000
            + msg_type as int * 0x4_0000 + dest as int * 0x400 + source as int * 4 + (seq % 4) as int,
{
    assert((((priority & 7u8) as u32) << 26u32 | (msg_type as u32) << 18u32 | (dest as u32) << 10u32
        | (source as u32) << 2u32 | ((seq & 3u8) as u32)) == ((priority % 8u8) as u32) * 0x400_0000u32 + (msg_type as u32) * 0x4_0000u32
        + (dest as u32) * 0x400u32 + (source as u32) * 4u32 + (seq % 4u8) as u32) by (bit_vector);
}

/// Building an id from the fields of a 29-bit id gives that id back.
pub proof fn law_can_id_rebuild(can_id: u32)
    requires
        can_id < 0x2000_0000,
    ensures
        ({
            let p = parts_spec(can_id);
            can_id_spec(p.priority, p.msg_type, p.dest, p.source, p.seq) == can_id
        }),
{
    assert(can_id < 0x2000_0000 ==> (((((can_id >> 26u32) & 7u32) as u8) & 7u8) as u32) << 26u32
        | ((((can_id >> 18u32) & 0xFFu32) as u8) as u32) << 18u32 | ((((can_id >> 10u32)
        & 0xFFu32) as u8) as u32) << 10u32 | ((((can_id >> 2u32) & 0xFFu32) as u8) as u32) << 2u32
        | ((((can_id & 3u32) as u8) & 3u8) as u32) == can_id) by (bit_vector);
}

/// Next sequence number (mod 4).
pub fn seq_next(seq: u8) -> (r: u8)
    requires
        seq < 255,
    ensures
        r == (seq + 1) % 4,
{
    let s: u8 = seq + 1;
    assert(s & 3 == s % 4) by (bit_vector);
    s & 3
}

// ---------------------------------------------------------------------------
// Payloads
// ---------------------------------------------------------------------------

/// Big-endian u32 of four bytes.
pub open spec fn be_u32(b0: u8, b1: u8, b2: u8, b3: u8) -> u32 {
    (b0 as u32) << 24u32 | (b1 as u32) << 16u32 | (b2 as u32) << 8u32 | (b3 as u32)
}

/// Big-endian u32 at `offset`, or `None` when the buffer is too short.
pub fn be_u32_at(buf: &[u8], offset: usize) -> (r: Option<u32>)
    ensures
        offset + 4 <= buf@.len() ==> r == Some(
            be_u32(buf@[offset as int], buf@[offset + 1], buf@[offset + 2], buf@[offset + 3]),
        ),
        offset + 4 > buf@.len() ==> r is None,
{
    if offset > buf.len() || buf.len() - offset < 4 {
        return None;
    }
    Some(
        (buf[offset] as u32) << 24 | (buf[offset + 1] as u32) << 16 | (buf[offset + 2] as u32) << 8
            | (buf[offset + 3] as u32),
    )
}

/// Zero payload of the set-zero command.
pub fn encode_set_zero() -> (r: [u8; 8])
    ensures
        r@ == seq![0u8; 8],
{
    [0u8;8]
}

/// Zero payload of the clear-errors command.
pub fn encode_clear_errors() -> (r: [u8; 8])
    ensures
        r@ == seq![0u8; 8],
{
    [0u8;8]
}

/// Zero payload of the CONFIG_SAVE request.
pub fn encode_config_save() -> (r: [u8; 8])
    ensures
        r@ == seq![0u8; 8],
{
    [0u8;8]
}

/// Zero payload of the CONFIG_RESET request.
pub fn encode_config_reset() -> (r: [u8; 8])
    ensures
        r@ == seq![0u8; 8],
{
    [0u8;8]
}

/// PARAM_READ request: flags 0, endpoint id (BE), data_len 0, reserved 0.
pub fn encode_param_read(endpoint_id: u16) -> (r: [u8; 8])
    ensures
        r@ == seq![0u8, (endpoint_id >> 8u16) as u8, endpoint_id as u8, 0u8, 0u8, 0u8, 0u8, 0u8],
{
    let mut buf = [0u8;8];
    buf[1] = (endpoint_id >> 8) as u8;
    buf[2] = endpoint_id as u8;
    assert(buf@ =~= seq![0u8, (endpoint_id >> 8u16) as u8, endpoint_id as u8, 0u8, 0u8, 0u8, 0u8, 0u8]);
    buf
}

/// PARAM_WRITE request of a float32 parameter given by its IEEE-754 bits:
/// flags 0, endpoint id (BE), data_len 4, value (BE).
pub fn encode_param_write_bits(endpoint_id: u16, bits: u32) -> (r: [u8; 8])
    ensures
        r@ == seq![
            0u8,
            (endpoint_id >> 8u16) as u8,
            endpoint_id as u8,
            4u8,
            (bits >> 24u32) as u8,
            (bits >> 16u32) as u8,
            (bits >> 8u32) as u8,
            bits as u8,
        ],
{
    let mut buf = [0u8;8];
    buf[1] = (endpoint_id >> 8) as u8;
    buf[2] = endpoint_id as u8;
    buf[3] = 4;
    buf[4] = (bits >> 24) as u8;
    buf[5] = (bits >> 16) as u8;
    buf[6] = (bits >> 8) as u8;
    buf[7] = bits as u8;
    assert(buf@ =~= seq![
        0u8,
        (endpoint_id >> 8u16) as u8,
        endpoint_id as u8,
        4u8,
        (bits >> 24u32) as u8,
        (bits >> 16u32) as u8,
        (bits >> 8u32) as u8,
        bits as u8,
    ]);
    buf
}

/// Endpoint id (BE) carried in bytes 1-2.
pub open spec fn endpoint_of(data: Seq<u8>) -> u16 {
    ((data[1] as u16) << 8u16 | (data[2] as u16)) as u16
}

/// Value bits of a PARAM_READ response for `expected`: present when the
/// frame has 8 bytes, names that endpoint and carries 4 data bytes.
pub open spec fn param_read_response_spec(data: Seq<u8>, expected: u16) -> Option<u32> {
    if data.len() < 8 || endpoint_of(data) != expected || data[3] != 4 {
        None
    } else {
        Some(be_u32(data[4], data[5], data[6], data[7]))
    }
}

/// Decode a PARAM_READ response value as IEEE-754 bits; `None` when the
/// frame is not a read response for `expected_endpoint_id`.
pub fn decode_param_read_response_bits(data: &[u8], expected_endpoint_id: u16) -> (r: Option<u32>)
    ensures
        r == param_read_response_spec(data@, expected_endpoint_id),
{
    if data.len() < 8 {
        return None;
    }
    let endpoint_id = ((data[1] as u16) << 8) | (data[2] as u16);
    if endpoint_id != expected_endpoint_id {
        return None;
    }
    if data[3] != 4 {
        return None;
    }
    be_u32_at(data, 4)
}

/// Whether a frame is the silent PARAM_WRITE confirmation for
/// `expected_endpoint_id` (8 bytes, that endpoint, data_len 0).
pub fn is_param_write_ack(data: &[u8], expected_endpoint_id: u16) -> (r: bool)
    ensures
        r == (data@.len() >= 8 && endpoint_of(data@) == expected_endpoint_id && data@[3] == 0),
{
    if data.len() < 8 {
        return false;
    }
    let endpoint_id = ((data[1] as u16) << 8) | (data[2] as u16);
    endpoint_id == expected_endpoint_id && data[3] == 0
}

/// A write request and a read response share their layout: the value bits
/// written for an endpoint are what a read response for it yields.
pub proof fn law_param_value_round_trip(endpoint_id: u16, bits: u32)
    ensures
        param_read_response_spec(
            seq![
                0u8,
                (endpoint_id >> 8u16) as u8,
                endpoint_id as u8,
                4u8,
                (bits >> 24u32) as u8,
                (bits >> 16u32) as u8,
                (bits >> 8u32) as u8,
                bits as u8,
            ],
            endpoint_id,
        ) == Some(bits),
{
    assert((((endpoint_id >> 8u16) as u8) as u16) << 8u16 | ((endpoint_id as u8) as u16)
        == endpoint_id) by (bit_vector);
    assert(((((bits >> 24u32) as u8) as u32) << 24u32 | (((bits >> 16u32) as u8) as u32) << 16u32
        | (((bits >> 8u32) as u8) as u32) << 8u32 | ((bits as u8) as u32)) == bits) by (bit_vector);
}

// ---------------------------------------------------------------------------
// MIT command packing (8 bytes, big-endian bit-packed)
//
//   Byte 0-1: pos[15:0]
//   Byte 2-3: vel[11:0] | kp[11:8]
//   Byte 4:   kp[7:0]
//   Byte 5-6: kd[11:0] | torque[11:8]
//   Byte 7:   torque[7:0]
// ---------------------------------------------------------------------------

/// Quantized MIT command fields: pos on 16 bits, the others on 12.
#[derive(Debug, Clone, Copy, PartialEq, Eq, Structural)]
pub struct MitFields {
    pub pos: u16,
    pub vel: u16,
    pub kp: u16,
    pub kd: u16,
    pub torque: u16,
}

pub open spec fn pack_mit_spec(p: u32, v: u32, kp: u32, kd: u32, t: u32) -> Seq<u8> {
    seq![
        (p >> 8u32) as u8,
        p as u8,
        (v >> 4u32) as u8,
        ((((v & 0x0Fu32) << 4u32) as u8) | (((kp >> 8u32) & 0x0Fu32) as u8)) as u8,
        kp as u8,
        (kd >> 4u32) as u8,
        ((((kd & 0x0Fu32) << 4u32) as u8) | (((t >> 8u32) & 0x0Fu32) as u8)) as u8,
        t as u8,
    ]
}

/// Pack quantized MIT command fields (each already scaled to its width;
/// higher bits are cut off).
pub fn pack_mit_fields(p: u32, v: u32, kp: u32, kd: u32, t: u32) -> (r: [u8; 8])
    ensures
        r@ == pack_mit_spec(p, v, kp, kd, t),
{
    let mut buf = [0u8;8];
    buf[0] = (p >> 8) as u8;
    buf[1] = p as u8;
    buf[2] = (v >> 4) as u8;
    buf[3] = ((v & 0x0F) << 4) as u8 | ((kp >> 8) & 0x0F) as u8;
    buf[4] = kp as u8;
    buf[5] = (kd >> 4) as u8;
    buf[6] = ((kd & 0x0F) << 4) as u8 | ((t >> 8) & 0x0F) as u8;
    buf[7] = t as u8;
    assert(buf@ =~= pack_mit_spec(p, v, kp, kd, t));
    buf
}

pub open spec fn unpack_mit_spec(d: Seq<u8>) -> MitFields {
    MitFields {
        pos: ((d[0] as u16) << 8u16 | (d[1] as u16)) as u16,
        vel: ((d[2] as u16) << 4u16 | ((d[3] >> 4u8) as u16)) as u16,
        kp: (((d[3] & 0x0Fu8) as u16) << 8u16 | (d[4] as u16)) as u16,
        kd: ((d[5] as u16) << 4u16 | ((d[6] >> 4u8) as u16)) as u16,
        torque: (((d[6] & 0x0Fu8) as u16) << 8u16 | (d[7] as u16)) as u16,
    }
}

/// Unpack the quantized fields of an MIT command; `None` for fewer than 8
/// bytes.
pub fn unpack_mit_fields(data: &[u8]) -> (r: Option<MitFields>)
    ensures
        data@.len() < 8 ==> r is None,
        data@.len() >= 8 ==> r == Some(unpack_mit_spec(data@)),
{
    if data.len() < 8 {
        return None;
    }
    Some(
        MitFields {
            pos: ((data[0] as u16) << 8) | (data[1] as u16),
            vel: ((data[2] as u16) << 4) | ((data[3] >> 4) as u16),
            kp: (((data[3] & 0x0F) as u16) << 8) | (data[4] as u16),
            kd: ((data[5] as u16) << 4) | ((data[6] >> 4) as u16),
            torque: (((data[6] & 0x0F) as u16) << 8) | (data[7] as u16),
        },
    )
}

/// Unpacking a packed command gives back its fields, each cut to its
/// width (16 bits for pos, 12 for the others).
pub proof fn law_mit_pack_round_trip(p: u32, v: u32, kp: u32, kd: u32, t: u32)
    ensures
        unpack_mit_spec(pack_mit_spec(p, v, kp, kd, t)) == (MitFields {
            pos: (p & 0xFFFF) as u16,
            vel: (v & 0xFFF) as u16,
            kp: (kp & 0xFFF) as u16,
            kd: (kd & 0xFFF) as u16,
            torque: (t & 0xFFF) as u16,
        }),
{
    assert(((((p >> 8u32) as u8) as u16) << 8u16 | ((p as u8) as u16)) as u16 == (p & 0xFFFF)
        as u16) by (bit_vector);
    assert(((((v >> 4u32) as u8) as u16) << 4u16 | ((((((v & 0x0Fu32) << 4u32) as u8) | (((kp
        >> 8u32) & 0x0Fu32) as u8)) as u8 >> 4u8) as u16)) as u16 == (v & 0xFFF) as u16)
        by (bit_vector);
    assert((((((((v & 0x0Fu32) << 4u32) as u8) | (((kp >> 8u32) & 0x0Fu32) as u8)) as u8
        & 0x0Fu8) as u16) << 8u16 | ((kp as u8) as u16)) as u16 == (kp & 0xFFF) as u16)
        by (bit_vector);
    assert(((((kd >> 4u32) as u8) as u16) << 4u16 | ((((((kd & 0x0Fu32) << 4u32) as u8) | (((t
        >> 8u32) & 0x0Fu32) as u8)) as u8 >> 4u8) as u16)) as u16 == (kd & 0xFFF) as u16)
        by (bit_vector);
    assert((((((((kd & 0x0Fu32) << 4u32) as u8) | (((t >> 8u32) & 0x0Fu32) as u8)) as u8
        & 0x0Fu8) as u16) << 8u16 | ((t as u8) as u16)) as u16 == (t & 0xFFF) as u16)
        by (bit_vector);
}

// ---------------------------------------------------------------------------
// MIT response (8 bytes)
//
//   Byte 0-1: pos[15:0]
//   Byte 2-3: vel[11:0] | error[3:0]
//   Byte 4-5: current[11:0] | mode[3:0]
//   Byte 6:   motor_temp (raw - 50 = degrees C)
//   Byte 7:   mos_temp (raw - 50 = degrees C)
// ---------------------------------------------------------------------------

/// The integer fields of an MIT response.
#[derive(Debug, Clone, Copy, PartialEq, Eq, Structural)]
pub struct MitResponseRaw {
    pub pos: u16,
    pub vel: u16,
    pub current: u16,
    pub error_code: u8,
    pub mode_state: u8,
    pub motor_temp_raw: u8,
    pub mos_temp_raw: u8,
}

pub open spec fn mit_response_spec(d: Seq<u8>) -> MitResponseRaw {
    MitResponseRaw {
        pos: ((d[0] as u16) << 8u16 | (d[1] as u16)) as u16,
        vel: ((d[2] as u16) << 4u16 | ((d[3] >> 4u8) as u16)) as u16,
        current: ((d[4] as u16) << 4u16 | ((d[5] >> 4u8) as u16)) as u16,
        error_code: d[3] & 0x0Fu8,
        mode_state: d[5] & 0x0Fu8,
        motor_temp_raw: d[6],
        mos_temp_raw: d[7],
    }
}

/// Unpack the integer fields of an MIT response; `None` for fewer than 8
/// bytes.
pub fn unpack_mit_response_raw(data: &[u8]) -> (r: Option<MitResponseRaw>)
    ensures
        data@.len() < 8 ==> r is None,
        data@.len() >= 8 ==> r == Some(mit_response_spec(data@)),
{
    if data.len() < 8 {
        return None;
    }
    Some(
        MitResponseRaw {
            pos: ((data[0] as u16) << 8) | (data[1] as u16),
            vel: ((data[2] as u16) << 4) | ((data[3] >> 4) as u16),
            current: ((data[4] as u16) << 4) | ((data[5] >> 4) as u16),
            error_code: data[3] & 0x0F,
            mode_state: data[5] & 0x0F,
            motor_temp_raw: data[6],
            mos_temp_raw: data[7],
        },
    )
}

// ---------------------------------------------------------------------------
// Heartbeat (8 bytes)
//
//   Byte 0:   [Life:3][ErrorFlags:5]
//   Byte 1:   [State:4][Mode:4]
//   Byte 2:   motor temperature (raw - 50 = degrees C)
//   Byte 3-4: position, int16 BE, motor turns x 100
//   Byte 5-6: velocity, int16 BE, motor turns/s x 100
//   Byte 7:   Iq current, int8, 0.5 A/bit
// ---------------------------------------------------------------------------

/// The integer fields of a heartbeat frame.
#[derive(Debug, Clone, Copy, PartialEq, Eq, Structural)]
pub struct HeartbeatRaw {
    pub life_counter: u8,
    pub error_flags: u8,
    pub motor_state: u8,
    pub control_mode: u8,
    pub motor_temp_raw: u8,
    pub position_raw: i16,
    pub velocity_raw: i16,
    pub iq_raw: i8,
}

pub open spec fn heartbeat_spec(d: Seq<u8>) -> HeartbeatRaw {
    HeartbeatRaw {
        life_counter: (d[0] >> 5u8) & 0x07u8,
        error_flags: d[0] & 0x1Fu8,
        motor_state: (d[1] >> 4u8) & 0x0Fu8,
        control_mode: d[1] & 0x0Fu8,
        motor_temp_raw: d[2],
        position_raw: (((d[3] as u16) << 8u16 | (d[4] as u16)) as u16) as i16,
        velocity_raw: (((d[5] as u16) << 8u16 | (d[6] as u16)) as u16) as i16,
        iq_raw: d[7] as i8,
    }
}

/// Decode the integer fields of a heartbeat; `None` for fewer than 8 bytes.
pub fn decode_heartbeat_raw(data: &[u8]) -> (r: Option<HeartbeatRaw>)
    ensures
        data@.len() < 8 ==> r is None,
        data@.len() >= 8 ==> r == Some(heartbeat_spec(data@)),
{
    if data.len() < 8 {
        return None;
    }
    let pos: u16 = ((data[3] as u16) << 8) | (data[4] as u16);
    let vel: u16 = ((data[5] as u16) << 8) | (data[6] as u16);
    Some(
        HeartbeatRaw {
            life_counter: (data[0] >> 5) & 0x07,
            error_flags: data[0] & 0x1F,
            motor_state: (data[1] >> 4) & 0x0F,
            control_mode: data[1] & 0x0F,
            motor_temp_raw: data[2],
            position_raw: pos as i16,
            velocity_raw: vel as i16,
            iq_raw: data[7] as i8,
        },
    )
}

/// Error value (BE, bytes 4-7) of a QUERY_ERROR response; `None` for fewer
/// than 8 bytes.
pub fn decode_query_error_value(data: &[u8]) -> (r: Option<u32>)
    ensures
        data@.len() < 8 ==> r is None,
        data@.len() >= 8 ==> r == Some(be_u32(data@[4], data@[5], data@[6], data@[7])),
{
    if data.len() < 8 {
        return None;
    }
    be_u32_at(data, 4)
}

// ---------------------------------------------------------------------------
// Addressing of received frames
// ---------------------------------------------------------------------------

/// Whether a broadcast with destination `dest` addresses device `device_id`:
/// 0xFF reaches every device; otherwise `dest` is a bitmap of devices 0-7.
/// Device 0 is never addressed by a broadcast.
pub open spec fn broadcast_slot_spec(device_id: u8, dest: u8) -> bool {
    if device_id == 0 {
        false
    } else if dest == ADDR_BROADCAST {
        true
    } else if device_id >= MAX_BROADCAST_DEVICES {
        false
    } else {
        dest & (1u8 << device_id) != 0
    }
}

/// Whether a broadcast with destination `dest` addresses device `device_id`.
pub fn is_broadcast_slot_for(device_id: u8, dest: u8) -> (r: bool)
    ensures
        r == broadcast_slot_spec(device_id, dest),
{
    if device_id == 0 {
        return false;
    }
    if dest == ADDR_BROADCAST {
        return true;
    }
    if device_id >= MAX_BROADCAST_DEVICES {
        return false;
    }
    (dest & (1u8 << device_id)) != 0
}

/// Whether the motor with node id `motor_id` takes a frame: only received
/// frames; point-to-point ones whose source is the motor, broadcast ones
/// whose destination addresses it.
pub open spec fn accepts_spec(motor_id: u16, f: FrameView) -> bool {
    let parts = parts_spec(f.arbitration_id);
    &&& f.is_rx
    &&& if !parts.is_broadcast {
        parts.source == motor_id as u8
    } else {
        broadcast_slot_spec(motor_id as u8, parts.dest)
    }
}

/// Whether the motor with node id `motor_id` takes a frame as feedback.
pub fn accepts_frame(motor_id: u16, frame: &CanFrame) -> (r: bool)
    ensures
        r == accepts_spec(motor_id, frame@),
{
    if !frame.is_rx {
        return false;
    }
    let parts = can_id_parts(frame.arbitration_id);
    if !parts.is_broadcast {
        return parts.source == motor_id as u8;
    }
    is_broadcast_slot_for(motor_id as u8, parts.dest)
}

/// A command frame to a motor: extended id, 8 bytes, outgoing.
pub fn command_frame(arbitration_id: u32, data: [u8; 8]) -> (r: CanFrame)
    ensures
        r@ == (FrameView { arbitration_id, data: data@, dlc: 8, is_extended: true, is_rx: false }),
{
    CanFrame { arbitration_id, data, dlc: 8, is_extended: true, is_rx: false }
}

// ---------------------------------------------------------------------------
// Control modes and registers
// ---------------------------------------------------------------------------

#[derive(Debug, Clone, Copy, PartialEq, Eq, Structural)]
pub enum ControlMode {
    Mit,
    Position,
    Velocity,
    Torque,
    Current,
}

impl ControlMode {
    pub fn value(self) -> (r: u8)
        ensures
            r == match self {
                ControlMode::Mit => 0u8,
                ControlMode::Position => 1u8,
                ControlMode::Velocity => 2u8,
                ControlMode::Torque => 3u8,
                ControlMode::Current => 4u8,
            },
    {
        match self {
            ControlMode::Mit => 0,
            ControlMode::Position => 1,
            ControlMode::Velocity => 2,
            ControlMode::Torque => 3,
            ControlMode::Current => 4,
        }
    }
}

/// A commonly used ODrive endpoint.
#[derive(Debug, Clone, Copy)]
pub struct RegisterInfo {
    /// SDO endpoint id.
    pub endpoint_id: u16,
    /// Variable name.
    pub variable: &'static str,
    pub description: &'static str,
}

/// The table of commonly used endpoints: id, variable, description.
pub open spec fn register_table_spec() -> Seq<(u16, Seq<char>, Seq<char>)> {
    seq![
        (0x0001u16, "axis.requested_state"@, "Requested axis state (AXIS_STATE_*)"@),
        (0x0012u16, "axis.error"@, "Axis error flags"@),
        (0x0000u16, "axis.current_state"@, "Current axis state"@),
        (0x0019u16, "motor.config.torque_constant"@, "Motor torque constant (Nm/A)"@),
        (0x001Du16, "motor.error"@, "Motor error flags"@),
        (0x001Cu16, "motor.config.current_lim"@, "Motor current limit (A)"@),
        (0x002Cu16, "encoder.error"@, "Encoder error flags"@),
        (0x0030u16, "controller.config.control_mode"@, "Control mode (POSITION/VELOCITY/TORQUE)"@),
        (0x0031u16, "controller.config.input_mode"@, "Input mode (PASSTHROUGH/POS_FILTER/VEL_RAMP/TORQUE_RAMP/MIT)"@),
        (0x0035u16, "controller.config.pos_gain"@, "Position gain (turns/s per turn)"@),
        (0x0036u16, "controller.config.vel_gain"@, "Velocity gain (Nm per turn/s)"@),
        (0x0037u16, "controller.config.vel_integrator_gain"@, "Velocity integrator gain (Nm per turn)"@),
        (0x0039u16, "controller.config.vel_limit"@, "Velocity limit (turns/s)"@),
        (0x003Du16, "controller.error"@, "Controller error flags"@),
        (0x0300u16, "controller.config.mit_max_pos"@, "MIT max position (rad)"@),
        (0x0301u16, "controller.config.mit_max_vel"@, "MIT max velocity (rad/s)"@),
        (0x0302u16, "controller.config.mit_max_kp"@, "MIT max Kp"@),
        (0x0303u16, "controller.config.mit_max_kd"@, "MIT max Kd"@),
        (0x0304u16, "controller.config.mit_max_torque"@, "MIT max torque (Nm)"@),
        (0x0100u16, "can.config.node_id"@, "CAN node ID"@),
        (0x0101u16, "can.config.break_timeout"@, "CAN break timeout (ms, 0 = default 100ms)"@),
    ]
}

/// The table of commonly used endpoints. The full map (hundreds of
/// entries) is discovered at run time through the JSON descriptor.
pub fn register_table() -> (r: Vec<RegisterInfo>)
    ensures
        r@.len() == register_table_spec().len(),
        forall|i: int|
            0 <= i < r@.len() ==> (#[trigger] r@[i]).endpoint_id == register_table_spec()[i].0
                && r@[i].variable@ == register_table_spec()[i].1 && r@[i].description@
                == register_table_spec()[i].2,
{
    let mut t: Vec<RegisterInfo> = Vec::new();
    t.push(RegisterInfo { endpoint_id: 0x0001, variable: "axis.requested_state", description: "Requested axis state (AXIS_STATE_*)" });
    t.push(RegisterInfo { endpoint_id: 0x0012, variable: "axis.error", description: "Axis error flags" });
    t.push(RegisterInfo { endpoint_id: 0x0000, variable: "axis.current_state", description: "Current axis state" });
    t.push(RegisterInfo { endpoint_id: 0x0019, variable: "motor.config.torque_constant", description: "Motor torque constant (Nm/A)" });
    t.push(RegisterInfo { endpoint_id: 0x001D, variable: "motor.error", description: "Motor error flags" });
    t.push(RegisterInfo { endpoint_id: 0x001C, variable: "motor.config.current_lim", description: "Motor current limit (A)" });
    t.push(RegisterInfo { endpoint_id: 0x002C, variable: "encoder.error", description: "Encoder error flags" });
    t.push(RegisterInfo { endpoint_id: 0x0030, variable: "controller.config.control_mode", description: "Control mode (POSITION/VELOCITY/TORQUE)" });
    t.push(RegisterInfo { endpoint_id: 0x0031, variable: "controller.config.input_mode", description: "Input mode (PASSTHROUGH/POS_FILTER/VEL_RAMP/TORQUE_RAMP/MIT)" });
    t.push(RegisterInfo { endpoint_id: 0x0035, variable: "controller.config.pos_gain", description: "Position gain (turns/s per turn)" });
    t.push(RegisterInfo { endpoint_id: 0x0036, variable: "controller.config.vel_gain", description: "Velocity gain (Nm per turn/s)" });
    t.push(RegisterInfo { endpoint_id: 0x0037, variable: "controller.config.vel_integrator_gain", description: "Velocity integrator gain (Nm per turn)" });
    t.push(RegisterInfo { endpoint_id: 0x0039, variable: "controller.config.vel_limit", description: "Velocity limit (turns/s)" });
    t.push(RegisterInfo { endpoint_id: 0x003D, variable: "controller.error", description: "Controller error flags" });
    t.push(RegisterInfo { endpoint_id: 0x0300, variable: "controller.config.mit_max_pos", description: "MIT max position (rad)" });
    t.push(RegisterInfo { endpoint_id: 0x0301, variable: "controller.config.mit_max_vel", description: "MIT max velocity (rad/s)" });
    t.push(RegisterInfo { endpoint_id: 0x0302, variable: "controller.config.mit_max_kp", description: "MIT max Kp" });
    t.push(RegisterInfo { endpoint_id: 0x0303, variable: "controller.config.mit_max_kd", description: "MIT max Kd" });
    t.push(RegisterInfo { endpoint_id: 0x0304, variable: "controller.config.mit_max_torque", description: "MIT max torque (Nm)" });
    t.push(RegisterInfo { endpoint_id: 0x0100, variable: "can.config.node_id", description: "CAN node ID" });
    t.push(RegisterInfo { endpoint_id: 0x0101, variable: "can.config.break_timeout", description: "CAN break timeout (ms, 0 = default 100ms)" });
    assert(t@.len() == register_table_spec().len());
    t
}


// ---------------------------------------------------------------------------
// Feedback received from a motor
// ---------------------------------------------------------------------------

/// What a frame from a motor reports, by its message type. Floats travel
/// as their IEEE-754 bits, big-endian on the wire.
#[derive(Debug, Clone, Copy)]
pub enum Feedback {
    /// Nothing kept (unknown types, bus voltage/current, malformed
    /// parameter replies).
    Ignore,
    /// MIT response: position, velocity, current, error, mode, temperatures.
    Mit(MitResponseRaw),
    /// Heartbeat: position, velocity, current, temperature, error flags,
    /// life counter.
    Heartbeat(HeartbeatRaw),
    /// QUERY_POS_VEL response.
    PosVel { pos_bits: u32, vel_bits: u32 },
    /// QUERY_CURRENT response (Iq; Id is not kept).
    Current { iq_bits: u32 },
    /// QUERY_TEMPERATURE response: motor and MOSFET temperatures.
    Temperature { motor_bits: u32, mos_bits: u32 },
    /// QUERY_DEVICE_INFO response, as received (hardware and firmware
    /// versions).
    DeviceInfo { data: [u8; 8] },
    /// QUERY_ERROR response: the subsystem error value.
    ErrorValue(u32),
    /// PARAM_READ response: the value bits of an endpoint.
    ParamValue { endpoint_id: u16, bits: u32 },
    /// PARAM_WRITE acknowledgment of an endpoint.
    ParamWriteAck { endpoint_id: u16 },
}

/// What a received frame reports, by the message type of its id.
pub open spec fn feedback_spec(f: CanFrame) -> Feedback {
    let d = f.data@;
    let t = parts_spec(f.arbitration_id).msg_type;
    if t == msg_code(MsgType::MitControl) {
        Feedback::Mit(mit_response_spec(d))
    } else if t == msg_code(MsgType::Heartbeat) {
        Feedback::Heartbeat(heartbeat_spec(d))
    } else if t == msg_code(MsgType::QueryPosVel) {
        Feedback::PosVel { pos_bits: be_u32(d[0], d[1], d[2], d[3]), vel_bits: be_u32(d[4], d[5], d[6], d[7]) }
    } else if t == msg_code(MsgType::QueryCurrent) {
        Feedback::Current { iq_bits: be_u32(d[0], d[1], d[2], d[3]) }
    } else if t == msg_code(MsgType::QueryTemperature) {
        Feedback::Temperature {
            motor_bits: be_u32(d[0], d[1], d[2], d[3]),
            mos_bits: be_u32(d[4], d[5], d[6], d[7]),
        }
    } else if t == msg_code(MsgType::QueryDeviceInfo) {
        Feedback::DeviceInfo { data: f.data }
    } else if t == msg_code(MsgType::QueryError) {
        Feedback::ErrorValue(be_u32(d[4], d[5], d[6], d[7]))
    } else if t == msg_code(MsgType::ParamRead) {
        if d[3] == 4 {
            Feedback::ParamValue { endpoint_id: endpoint_of(d), bits: be_u32(d[4], d[5], d[6], d[7]) }
        } else {
            Feedback::Ignore
        }
    } else if t == msg_code(MsgType::ParamWrite) {
        if d[3] == 0 {
            Feedback::ParamWriteAck { endpoint_id: endpoint_of(d) }
        } else {
            Feedback::Ignore
        }
    } else {
        Feedback::Ignore
    }
}


/// Where each reply takes its values from, by message type: the two
/// big-endian 32-bit fields of QUERY_POS_VEL and QUERY_TEMPERATURE come
/// from bytes 0-3 then 4-7 (position then velocity, motor then MOSFET
/// temperature); QUERY_CURRENT's Iq from bytes 0-3; QUERY_ERROR's value
/// from bytes 4-7; a PARAM_READ reply's endpoint from bytes 1-2 and its
/// value from bytes 4-7; a PARAM_WRITE acknowledgment's endpoint from
/// bytes 1-2; an MIT response's error and mode from the low nibbles of
/// bytes 3 and 5 and its temperatures from bytes 6 and 7.
pub proof fn law_feedback_field_layout(f: CanFrame)
    ensures
        ({
            let d = f.data@;
            let t = ((f.arbitration_id >> 18u32) & 0xFFu32) as u8;
            let first = (d[0] as u32) << 24u32 | (d[1] as u32) << 16u32 | (d[2] as u32) << 8u32 | (
            d[3] as u32);
            let second = (d[4] as u32) << 24u32 | (d[5] as u32) << 16u32 | (d[6] as u32) << 8u32 | (
            d[7] as u32);
            let endpoint = ((d[1] as u16) << 8u16 | (d[2] as u16)) as u16;
            &&& t == 0x43 ==> (feedback_spec(f) matches Feedback::Temperature { motor_bits, mos_bits }
                && motor_bits == first && mos_bits == second)
            &&& t == 0x41 ==> (feedback_spec(f) matches Feedback::PosVel { pos_bits, vel_bits }
                && pos_bits == first && vel_bits == second)
            &&& t == 0x42 ==> (feedback_spec(f) matches Feedback::Current { iq_bits } && iq_bits
                == first)
            &&& t == 0x45 ==> (feedback_spec(f) matches Feedback::ErrorValue(v) && v == second)
            &&& t == 0x20 && d[3] == 4 ==> (feedback_spec(f) matches Feedback::ParamValue {
                endpoint_id,
                bits,
            } && endpoint_id == endpoint && bits == second)
            &&& t == 0x20 && d[3] != 4 ==> feedback_spec(f) is Ignore
            &&& t == 0x21 && d[3] == 0 ==> (feedback_spec(f) matches Feedback::ParamWriteAck {
                endpoint_id,
            } && endpoint_id == endpoint)
            &&& t == 0x00 ==> (feedback_spec(f) matches Feedback::Mit(m) && m.error_code == d[3]
                & 0x0Fu8 && m.mode_state == d[5] & 0x0Fu8 && m.motor_temp_raw == d[6]
                && m.mos_temp_raw == d[7])
            &&& t == 0x44 ==> feedback_spec(f) is Ignore
        }),
{
}

/// Classify a frame received from a motor.
pub fn decode_feedback(frame: &CanFrame) -> (r: Feedback)
    ensures
        r == feedback_spec(*frame),
{
    let parts = can_id_parts(frame.arbitration_id);
    let t = parts.msg_type;
    let d = &frame.data;
    if t == MsgType::MitControl.code() {
        match unpack_mit_response_raw(d) {
            Some(m) => Feedback::Mit(m),
            None => Feedback::Ignore,
        }
    } else if t == MsgType::Heartbeat.code() {
        match decode_heartbeat_raw(d) {
            Some(h) => Feedback::Heartbeat(h),
            None => Feedback::Ignore,
        }
    } else if t == MsgType::QueryPosVel.code() {
        Feedback::PosVel { pos_bits: be_u32_of(d[0], d[1], d[2], d[3]), vel_bits: be_u32_of(d[4], d[5], d[6], d[7]) }
    } else if t == MsgType::QueryCurrent.code() {
        Feedback::Current { iq_bits: be_u32_of(d[0], d[1], d[2], d[3]) }
    } else if t == MsgType::QueryTemperature.code() {
        Feedback::Temperature {
            motor_bits: be_u32_of(d[0], d[1], d[2], d[3]),
            mos_bits: be_u32_of(d[4], d[5], d[6], d[7]),
        }
    } else if t == MsgType::QueryDeviceInfo.code() {
        Feedback::DeviceInfo { data: frame.data }
    } else if t == MsgType::QueryError.code() {
        Feedback::ErrorValue(be_u32_of(d[4], d[5], d[6], d[7]))
    } else if t == MsgType::ParamRead.code() {
        let endpoint_id = ((d[1] as u16) << 8) | (d[2] as u16);
        if d[3] == 4 {
            Feedback::ParamValue { endpoint_id, bits: be_u32_of(d[4], d[5], d[6], d[7]) }
        } else {
            Feedback::Ignore
        }
    } else if t == MsgType::ParamWrite.code() {
        let endpoint_id = ((d[1] as u16) << 8) | (d[2] as u16);
        if d[3] == 0 {
            Feedback::ParamWriteAck { endpoint_id }
        } else {
            Feedback::Ignore
        }
    } else {
        Feedback::Ignore
    }
}

fn be_u32_of(b0: u8, b1: u8, b2: u8, b3: u8) -> (r: u32)
    ensures
        r == be_u32(b0, b1, b2, b3),
{
    (b0 as u32) << 24 | (b1 as u32) << 16 | (b2 as u32) << 8 | (b3 as u32)
}

} // verus!
