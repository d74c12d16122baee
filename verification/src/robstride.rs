//! RobStride: run modes and the ranges of device and host ids.
use crate::error::MotorError;
use crate::text::{decimal, push_decimal, string_push};
use vstd::prelude::*;

verus! {

/// A RobStride run mode (the `run_mode` parameter).
#[derive(Debug, Clone, Copy, PartialEq, Eq, Structural)]
pub enum ControlMode {
    Mit,
    Position,
    Velocity,
    PositionCsp,
}

/// The value of the `run_mode` parameter for a mode.
pub open spec fn control_mode_value(m: ControlMode) -> i8 {
    match m {
        ControlMode::Mit => 0,
        ControlMode::Position => 1,
        ControlMode::Velocity => 2,
        ControlMode::PositionCsp => 5,
    }
}

/// The short name of a mode.
pub open spec fn control_mode_name(m: ControlMode) -> Seq<char> {
    match m {
        ControlMode::Mit => "mit"@,
        ControlMode::Position => "pp"@,
        ControlMode::Velocity => "velocity"@,
        ControlMode::PositionCsp => "csp"@,
    }
}

/// Decimal rendering of a signed number.
pub open spec fn signed_decimal(v: int) -> Seq<char> {
    if v < 0 {
        seq!['-'] + decimal((-v) as nat)
    } else {
        decimal(v as nat)
    }
}

impl ControlMode {
    /// The value of the `run_mode` parameter for this mode.
    pub fn value(self) -> (r: i8)
        ensures
            r == control_mode_value(self),
    {
        match self {
            ControlMode::Mit => 0,
            ControlMode::Position => 1,
            ControlMode::Velocity => 2,
            ControlMode::PositionCsp => 5,
        }
    }

    /// The mode a `run_mode` value read from the motor stands for; other
    /// values are a protocol error.
    pub fn from_raw(value: i8) -> (r: Result<ControlMode, MotorError>)
        ensures
            r is Ok <==> (value == 0 || value == 1 || value == 2 || value == 5),
            r matches Ok(m) ==> control_mode_value(m) == value,
            r is Err ==> (r matches Err(MotorError::Protocol(msg)) && msg@
                == "unsupported RobStride run_mode value "@ + signed_decimal(value as int)),
    {
        match value {
            0 => Ok(ControlMode::Mit),
            1 => Ok(ControlMode::Position),
            2 => Ok(ControlMode::Velocity),
            5 => Ok(ControlMode::PositionCsp),
            _ => {
                let mut m = String::from_str("unsupported RobStride run_mode value ");
                if value < 0 {
                    string_push(&mut m, '-');
                    push_decimal(&mut m, (-(value as i16)) as u64);
                } else {
                    push_decimal(&mut m, value as u64);
                }
                proof {
                    if value < 0 {
                        assert(m@ =~= "unsupported RobStride run_mode value "@ + signed_decimal(
                            value as int,
                        ));
                    }
                }
                Err(MotorError::Protocol(m))
            },
        }
    }

    pub fn as_str(self) -> (r: &'static str)
        ensures
            r@ == control_mode_name(self),
    {
        match self {
            ControlMode::Mit => "mit",
            ControlMode::Position => "pp",
            ControlMode::Velocity => "velocity",
            ControlMode::PositionCsp => "csp",
        }
    }
}

/// Distinct modes have distinct `run_mode` values, so a value read back
/// names the mode that was written.
pub proof fn law_control_mode_value_injective(a: ControlMode, b: ControlMode)
    ensures
        control_mode_value(a) == control_mode_value(b) ==> a == b,
{
}

/// Check a device id: 1-255.
pub fn validate_device_id(id: u16, name: &str) -> (r: Result<(), MotorError>)
    ensures
        r is Ok <==> 1 <= id <= 255,
        r is Err ==> (r matches Err(MotorError::InvalidArgument(m)) && m@ == "RobStride "@ + name@
            + " must be in 1..255, got "@ + decimal(id as nat)),
{
    if 1 <= id && id <= 255 {
        Ok(())
    } else {
        let mut m = String::from_str("RobStride ");
        m.append(name);
        m.append(" must be in 1..255, got ");
        push_decimal(&mut m, id as u64);
        Err(MotorError::InvalidArgument(m))
    }
}

/// Check a host (feedback) id: 0-255.
pub fn validate_host_id(id: u16, name: &str) -> (r: Result<(), MotorError>)
    ensures
        r is Ok <==> id <= 255,
        r is Err ==> (r matches Err(MotorError::InvalidArgument(m)) && m@ == "RobStride "@ + name@
            + "/host_id must be in 0..255, got "@ + decimal(id as nat)),
{
    if id <= 255 {
        Ok(())
    } else {
        let mut m = String::from_str("RobStride ");
        m.append(name);
        m.append("/host_id must be in 0..255, got ");
        push_decimal(&mut m, id as u64);
        Err(MotorError::InvalidArgument(m))
    }
}

/// The host ids tried in turn when waiting for an answer: the configured
/// one, then `0xFD`, `0xFF`, `0xFE`; the configured one is not repeated when
/// it is `0xFD`.
pub open spec fn host_id_candidates_spec(feedback_id: u16) -> Seq<u16> {
    if feedback_id == 0xFD {
        seq![0xFDu16, 0xFFu16, 0xFEu16]
    } else {
        seq![feedback_id, 0xFDu16, 0xFFu16, 0xFEu16]
    }
}

pub fn host_id_candidates(feedback_id: u16) -> (r: Vec<u16>)
    ensures
        r@ == host_id_candidates_spec(feedback_id),
{
    let mut v: Vec<u16> = Vec::new();
    if feedback_id != 0xFD {
        v.push(feedback_id);
    }
    v.push(0xFD);
    v.push(0xFF);
    v.push(0xFE);
    proof {
        assert(v@ =~= host_id_candidates_spec(feedback_id));
    }
    v
}


/// Data type of a RobStride parameter.
#[derive(Debug, Clone, Copy, PartialEq, Eq, Structural)]
pub enum ParameterDataType {
    Int8,
    UInt8,
    UInt16,
    UInt32,
    Float32,
}

/// The short name of a parameter data type.
pub open spec fn parameter_type_name(t: ParameterDataType) -> Seq<char> {
    match t {
        ParameterDataType::Int8 => "i8"@,
        ParameterDataType::UInt8 => "u8"@,
        ParameterDataType::UInt16 => "u16"@,
        ParameterDataType::UInt32 => "u32"@,
        ParameterDataType::Float32 => "f32"@,
    }
}

/// The short name of a parameter data type (`i8`, `u8`, `u16`, `u32`,
/// `f32`).
pub fn param_type_name(t: ParameterDataType) -> (r: &'static str)
    ensures
        r@ == parameter_type_name(t),
{
    match t {
        ParameterDataType::Int8 => "i8",
        ParameterDataType::UInt8 => "u8",
        ParameterDataType::UInt16 => "u16",
        ParameterDataType::UInt32 => "u32",
        ParameterDataType::Float32 => "f32",
    }
}

/// A parameter value as read; a float as its IEEE-754 bits.
#[derive(Debug, Clone, Copy, PartialEq, Eq, Structural)]
pub enum ParameterValue {
    I8(i8),
    U8(u8),
    U16(u16),
    U32(u32),
    F32Bits(u32),
}

/// Little-endian `u32` of four bytes.
pub open spec fn le_u32(b: Seq<u8>) -> u32 {
    (b[3] as u32) << 24u32 | (b[2] as u32) << 16u32 | (b[1] as u32) << 8u32 | (b[0] as u32)
}

/// The value the 4 raw bytes of a parameter reply stand for: read by the
/// parameter's type when it is known, else kept whole as a `u32`.
pub open spec fn parameter_value_spec(ty: Option<ParameterDataType>, raw: Seq<u8>) -> ParameterValue {
    match ty {
        Some(ParameterDataType::Int8) => ParameterValue::I8(raw[0] as i8),
        Some(ParameterDataType::UInt8) => ParameterValue::U8(raw[0]),
        Some(ParameterDataType::UInt16) => ParameterValue::U16(
            ((raw[1] as u16) << 8u16 | (raw[0] as u16)) as u16,
        ),
        Some(ParameterDataType::UInt32) => ParameterValue::U32(le_u32(raw)),
        Some(ParameterDataType::Float32) => ParameterValue::F32Bits(le_u32(raw)),
        None => ParameterValue::U32(le_u32(raw)),
    }
}


/// Parameter replies are little-endian: with `w` the little-endian `u32` of
/// the 4 raw bytes, a float parameter carries exactly the bits `w`, the same
/// value a `u32` parameter or an unknown one gives; a `u16` parameter is
/// the little-endian value of bytes 0-1; 8-bit parameters are byte 0.
pub proof fn law_parameter_values_little_endian(raw: Seq<u8>)
    requires
        raw.len() == 4,
    ensures
        ({
            let w = (raw[0] as u32) | (raw[1] as u32) << 8u32 | (raw[2] as u32) << 16u32 | (
            raw[3] as u32) << 24u32;
            &&& parameter_value_spec(Some(ParameterDataType::Float32), raw)
                == ParameterValue::F32Bits(w)
            &&& parameter_value_spec(Some(ParameterDataType::UInt32), raw) == ParameterValue::U32(w)
            &&& parameter_value_spec(None, raw) == ParameterValue::U32(w)
            &&& parameter_value_spec(Some(ParameterDataType::UInt16), raw) == ParameterValue::U16(
                ((raw[0] as u16) | (raw[1] as u16) << 8u16) as u16,
            )
            &&& parameter_value_spec(Some(ParameterDataType::UInt8), raw) == ParameterValue::U8(
                raw[0],
            )
            &&& parameter_value_spec(Some(ParameterDataType::Int8), raw) == ParameterValue::I8(
                raw[0] as i8,
            )
        }),
{
    let (b0, b1, b2, b3) = (raw[0], raw[1], raw[2], raw[3]);
    assert((b3 as u32) << 24u32 | (b2 as u32) << 16u32 | (b1 as u32) << 8u32 | (b0 as u32) == (b0
        as u32) | (b1 as u32) << 8u32 | (b2 as u32) << 16u32 | (b3 as u32) << 24u32)
        by (bit_vector);
    assert(((b1 as u16) << 8u16 | (b0 as u16)) as u16 == ((b0 as u16) | (b1 as u16) << 8u16) as u16)
        by (bit_vector);
}

/// Read the 4 raw bytes of a parameter reply as a value of the
/// parameter's type; an unknown parameter keeps them as a `u32`.
pub fn parameter_value_from_raw(ty: Option<ParameterDataType>, raw: [u8; 4]) -> (r: ParameterValue)
    ensures
        r == parameter_value_spec(ty, raw@),
{
    let whole = (raw[3] as u32) << 24 | (raw[2] as u32) << 16 | (raw[1] as u32) << 8 | (raw[0] as u32);
    match ty {
        Some(ParameterDataType::Int8) => ParameterValue::I8(raw[0] as i8),
        Some(ParameterDataType::UInt8) => ParameterValue::U8(raw[0]),
        Some(ParameterDataType::UInt16) => ParameterValue::U16(((raw[1] as u16) << 8) | (raw[0] as u16)),
        Some(ParameterDataType::UInt32) => ParameterValue::U32(whole),
        Some(ParameterDataType::Float32) => ParameterValue::F32Bits(whole),
        None => ParameterValue::U32(whole),
    }
}

} // verus!
