//! HighTorque (高擎) CAN protocol: reply routing, status and register-read
//! replies, setting ACKs, firmware version replies, model hints, the generic
//! register-read command and the command frames of the motor driver.
//!
//! Physical quantities travel as little-endian `int16` raw values; the scale
//! to radians, rad/s and N·m is applied by the caller.
use crate::error::MotorError;
use crate::frame::{padded8, CanFrame, FrameView};
use crate::text::{
    ascii_lower, ascii_lower_seq, decimal, is_ws, push_decimal, trim_end, trim_start, has_prefix, starts_with, str_eq, string_push, to_ascii_lowercase, trim,
    trim_spec,
};
use vstd::prelude::*;

verus! {

// ---------------------------------------------------------------------------
// Run modes (表2) and fault codes (表3)
// ---------------------------------------------------------------------------

/// Run mode (表2); byte 0 of a status feedback frame.
#[derive(Debug, Clone, Copy, PartialEq, Eq, Structural)]
pub enum RunMode {
    Stop,
    Error,
    Ready2,
    Ready3,
    Ready4,
    Pwm,
    Voltage,
    FocVoltage,
    DqVoltage,
    DqCurrent,
    Position,
    Timeout,
    ZeroSpeed,
    Range,
    MeasureInductance,
    Brake,
    Reserved16,
    Reserved17,
}

/// The byte a run mode is coded as.
pub open spec fn run_mode_code(m: RunMode) -> u8 {
    match m {
        RunMode::Stop => 0u8,
        RunMode::Error => 1u8,
        RunMode::Ready2 => 2u8,
        RunMode::Ready3 => 3u8,
        RunMode::Ready4 => 4u8,
        RunMode::Pwm => 5u8,
        RunMode::Voltage => 6u8,
        RunMode::FocVoltage => 7u8,
        RunMode::DqVoltage => 8u8,
        RunMode::DqCurrent => 9u8,
        RunMode::Position => 10u8,
        RunMode::Timeout => 11u8,
        RunMode::ZeroSpeed => 12u8,
        RunMode::Range => 13u8,
        RunMode::MeasureInductance => 14u8,
        RunMode::Brake => 15u8,
        RunMode::Reserved16 => 16u8,
        RunMode::Reserved17 => 17u8,
    }
}

impl RunMode {
    /// The byte this run mode is coded as.
    pub fn code(self) -> (r: u8)
        ensures
            r == run_mode_code(self),
    {
        match self {
            RunMode::Stop => 0,
            RunMode::Error => 1,
            RunMode::Ready2 => 2,
            RunMode::Ready3 => 3,
            RunMode::Ready4 => 4,
            RunMode::Pwm => 5,
            RunMode::Voltage => 6,
            RunMode::FocVoltage => 7,
            RunMode::DqVoltage => 8,
            RunMode::DqCurrent => 9,
            RunMode::Position => 10,
            RunMode::Timeout => 11,
            RunMode::ZeroSpeed => 12,
            RunMode::Range => 13,
            RunMode::MeasureInductance => 14,
            RunMode::Brake => 15,
            RunMode::Reserved16 => 16,
            RunMode::Reserved17 => 17,
        }
    }

    /// The run mode coded by `code`; `None` outside 0-17.
    pub fn from_code(code: u8) -> (r: Option<RunMode>)
        ensures
            r is Some <==> code <= 17,
            r matches Some(m) ==> run_mode_code(m) == code,
    {
        match code {
            0 => Some(RunMode::Stop),
            1 => Some(RunMode::Error),
            2 => Some(RunMode::Ready2),
            3 => Some(RunMode::Ready3),
            4 => Some(RunMode::Ready4),
            5 => Some(RunMode::Pwm),
            6 => Some(RunMode::Voltage),
            7 => Some(RunMode::FocVoltage),
            8 => Some(RunMode::DqVoltage),
            9 => Some(RunMode::DqCurrent),
            10 => Some(RunMode::Position),
            11 => Some(RunMode::Timeout),
            12 => Some(RunMode::ZeroSpeed),
            13 => Some(RunMode::Range),
            14 => Some(RunMode::MeasureInductance),
            15 => Some(RunMode::Brake),
            16 => Some(RunMode::Reserved16),
            17 => Some(RunMode::Reserved17),
            _ => None,
        }
    }
}

/// Every run mode is coded within 0-17, by a byte no other mode shares:
/// decoding the code of a mode gives that mode back.
pub proof fn law_run_mode_code_round_trip(m: RunMode, n: RunMode)
    ensures
        run_mode_code(m) <= 17,
        run_mode_code(m) == run_mode_code(n) ==> m == n,
{
}

/// Human-readable description of a fault code (表3). Codes 1-7 are grouped
/// as UART/DMA errors; 8-31 and above 47 are undefined.
pub open spec fn fault_text(code: u8) -> Seq<char> {
    if code == 0 {
        "正常"@
    } else if 1 <= code <= 7 {
        "UART/DMA 错误"@
    } else if code == 32 {
        "校准错误"@
    } else if code == 33 {
        "驱动故障"@
    } else if code == 34 {
        "过压"@
    } else if code == 35 {
        "编码器错误"@
    } else if code == 36 {
        "未校准"@
    } else if code == 37 {
        "PWM 周期错误"@
    } else if code == 38 {
        "过温"@
    } else if code == 39 {
        "起始位置超范围"@
    } else if code == 40 {
        "欠压"@
    } else if code == 41 {
        "配置已变更"@
    } else if code == 42 {
        "无效角度"@
    } else if code == 43 {
        "无效位置"@
    } else if code == 44 {
        "驱动使能故障"@
    } else if code == 45 {
        "停止位置误用"@
    } else if code == 46 {
        "时序错误"@
    } else if code == 47 {
        "反电动势前馈错误"@
    } else {
        "未知故障码"@
    }
}

/// Description of a fault code (表3).
pub fn decode_fault(code: u8) -> (r: &'static str)
    ensures
        r@ == fault_text(code),
{
    if code == 0 {
        "正常"
    } else if 1 <= code && code <= 7 {
        "UART/DMA 错误"
    } else if code == 32 {
        "校准错误"
    } else if code == 33 {
        "驱动故障"
    } else if code == 34 {
        "过压"
    } else if code == 35 {
        "编码器错误"
    } else if code == 36 {
        "未校准"
    } else if code == 37 {
        "PWM 周期错误"
    } else if code == 38 {
        "过温"
    } else if code == 39 {
        "起始位置超范围"
    } else if code == 40 {
        "欠压"
    } else if code == 41 {
        "配置已变更"
    } else if code == 42 {
        "无效角度"
    } else if code == 43 {
        "无效位置"
    } else if code == 44 {
        "驱动使能故障"
    } else if code == 45 {
        "停止位置误用"
    } else if code == 46 {
        "时序错误"
    } else if code == 47 {
        "反电动势前馈错误"
    } else {
        "未知故障码"
    }
}
// ---------------------------------------------------------------------------
// Replies from the motor
// ---------------------------------------------------------------------------

/// The motor id of a reply addressed to host 0: bits 8-14 of the
/// identifier, for standard and extended frames alike. A reply whose low
/// byte (the destination) is not 0 is meant for another host: `None`.
pub open spec fn reply_motor_id_spec(arbitration_id: u32) -> Option<u8> {
    if arbitration_id & 0xFFu32 != 0 {
        None
    } else {
        Some(((arbitration_id >> 8u32) & 0x7Fu32) as u8)
    }
}

/// The motor id a reply frame comes from, when it is addressed to host 0.
pub fn reply_motor_id(frame: &CanFrame) -> (r: Option<u8>)
    ensures
        r == reply_motor_id_spec(frame.arbitration_id),
{
    if frame.arbitration_id & 0x00FF != 0 {
        return None;
    }
    Some(((frame.arbitration_id >> 8) & 0x7F) as u8)
}

/// Little-endian `int16` of two bytes.
pub open spec fn le_i16(lo: u8, hi: u8) -> i16 {
    (((hi as u16) << 8u16) | (lo as u16)) as i16
}

fn le_i16_of(lo: u8, hi: u8) -> (r: i16)
    ensures
        r == le_i16(lo, hi),
{
    (((hi as u16) << 8) | (lo as u16)) as i16
}

/// Raw feedback of one motor: position, velocity and torque as the
/// `int16` values the motor sent (position in 0.0001 turn, velocity in
/// 0.00025 turn/s, torque in 0.01 before the model's torque coefficient).
#[derive(Debug, Clone, Copy, PartialEq, Eq, Structural)]
pub struct FeedbackRaw {
    pub can_id: u8,
    pub arbitration_id: u32,
    /// Run mode (表2); 0 for a register-read reply.
    pub status_code: u8,
    /// Fault code (表3); 0 for a register-read reply.
    pub fault_code: u8,
    pub pos_raw: i16,
    pub vel_raw: i16,
    pub tqe_raw: i16,
}

/// The feedback carried by bytes 2-7 of a frame.
pub open spec fn feedback_fields(f: FrameView, can_id: u8, status: u8, fault: u8) -> FeedbackRaw {
    FeedbackRaw {
        can_id,
        arbitration_id: f.arbitration_id,
        status_code: status,
        fault_code: fault,
        pos_raw: le_i16(f.data[2], f.data[3]),
        vel_raw: le_i16(f.data[4], f.data[5]),
        tqe_raw: le_i16(f.data[6], f.data[7]),
    }
}

/// A register-read reply of position, velocity and torque (`0x27 0x01`, 8
/// bytes) from a motor to host 0.
pub open spec fn read_reply_spec(f: FrameView) -> Option<FeedbackRaw> {
    if f.dlc < 8 || f.data[0] != 0x27 || f.data[1] != 0x01 {
        None
    } else {
        match reply_motor_id_spec(f.arbitration_id) {
            Some(id) => Some(feedback_fields(f, id, 0, 0)),
            None => None,
        }
    }
}

/// The status feedback a control command is answered with: 8 bytes, byte 0
/// the run mode (never `0x27`), byte 1 the fault code.
pub open spec fn status_frame_spec(f: FrameView) -> Option<FeedbackRaw> {
    if f.dlc < 8 || f.data[0] == 0x27 {
        None
    } else {
        match reply_motor_id_spec(f.arbitration_id) {
            Some(id) => Some(feedback_fields(f, id, f.data[0], f.data[1])),
            None => None,
        }
    }
}

/// Passive feedback: a register-read reply, else a status frame.
pub open spec fn feedback_spec(f: FrameView) -> Option<FeedbackRaw> {
    match read_reply_spec(f) {
        Some(s) => Some(s),
        None => status_frame_spec(f),
    }
}

fn fields_of(frame: &CanFrame, can_id: u8, status: u8, fault: u8) -> (r: FeedbackRaw)
    ensures
        r == feedback_fields(frame@, can_id, status, fault),
{
    FeedbackRaw {
        can_id,
        arbitration_id: frame.arbitration_id,
        status_code: status,
        fault_code: fault,
        pos_raw: le_i16_of(frame.data[2], frame.data[3]),
        vel_raw: le_i16_of(frame.data[4], frame.data[5]),
        tqe_raw: le_i16_of(frame.data[6], frame.data[7]),
    }
}

/// Decode a register-read reply of position, velocity and torque.
pub fn decode_read_reply_raw(frame: &CanFrame) -> (r: Option<FeedbackRaw>)
    ensures
        r == read_reply_spec(frame@),
{
    if frame.dlc < 8 || frame.data[0] != 0x27 || frame.data[1] != 0x01 {
        return None;
    }
    match reply_motor_id(frame) {
        Some(id) => Some(fields_of(frame, id, 0, 0)),
        None => None,
    }
}

/// Decode the status feedback frame that answers a control command.
pub fn decode_status_frame_raw(frame: &CanFrame) -> (r: Option<FeedbackRaw>)
    ensures
        r == status_frame_spec(frame@),
{
    if frame.dlc < 8 || frame.data[0] == 0x27 {
        return None;
    }
    match reply_motor_id(frame) {
        Some(id) => Some(fields_of(frame, id, frame.data[0], frame.data[1])),
        None => None,
    }
}

/// Decode passive feedback: a register-read reply first, else a status
/// frame. Setting ACKs and version replies are not feedback.
pub fn decode_feedback_raw(frame: &CanFrame) -> (r: Option<FeedbackRaw>)
    ensures
        r == feedback_spec(frame@),
{
    match decode_read_reply_raw(frame) {
        Some(s) => Some(s),
        None => decode_status_frame_raw(frame),
    }
}

/// The 7-byte ACK of a setting command: `0x41 0x01 0x04` then `"OK\r\n"`.
pub const SETTING_ACK: [u8; 7] = [0x41, 0x01, 0x04, 0x4F, 0x4B, 0x0D, 0x0A];

pub open spec fn setting_ack_bytes() -> Seq<u8> {
    seq![0x41u8, 0x01u8, 0x04u8, 0x4Fu8, 0x4Bu8, 0x0Du8, 0x0Au8]
}

/// A setting ACK: 7 bytes, exactly those of [`SETTING_ACK`].
pub open spec fn is_setting_ack_spec(f: FrameView) -> bool {
    &&& f.dlc == 7
    &&& forall|i: int| 0 <= i < 7 ==> f.data[i] == setting_ack_bytes()[i]
}

/// Whether a frame is a setting ACK.
pub fn is_setting_ack(frame: &CanFrame) -> (r: bool)
    ensures
        r == is_setting_ack_spec(frame@),
{
    let d = &frame.data;
    let r = frame.dlc == 7 && d[0] == 0x41 && d[1] == 0x01 && d[2] == 0x04 && d[3] == 0x4F && d[4]
        == 0x4B && d[5] == 0x0D && d[6] == 0x0A;
    proof {
        if r != is_setting_ack_spec(frame@) {
            if frame.dlc == 7 && !r {
                assert(exists|i: int| 0 <= i < 7 && frame@.data[i] != setting_ack_bytes()[i]) by {
                    if d[0] != 0x41 {
                        assert(frame@.data[0] != setting_ack_bytes()[0]);
                    } else if d[1] != 0x01 {
                        assert(frame@.data[1] != setting_ack_bytes()[1]);
                    } else if d[2] != 0x04 {
                        assert(frame@.data[2] != setting_ack_bytes()[2]);
                    } else if d[3] != 0x4F {
                        assert(frame@.data[3] != setting_ack_bytes()[3]);
                    } else if d[4] != 0x4B {
                        assert(frame@.data[4] != setting_ack_bytes()[4]);
                    } else if d[5] != 0x0D {
                        assert(frame@.data[5] != setting_ack_bytes()[5]);
                    } else {
                        assert(frame@.data[6] != setting_ack_bytes()[6]);
                    }
                }
            }
        }
    }
    r
}

/// Motor firmware version, major.minor.patch.
#[derive(Debug, Clone, Copy, PartialEq, Eq, Structural)]
pub struct FirmwareVersion {
    pub major: u8,
    pub minor: u8,
    pub patch: u8,
}

impl FirmwareVersion {
    pub fn as_tuple(self) -> (r: (u8, u8, u8))
        ensures
            r == (self.major, self.minor, self.patch),
    {
        (self.major, self.minor, self.patch)
    }
}

/// A firmware version reply: exactly 5 bytes, `data[1] == 0xB5` and
/// `data[2] == 0x02`; the version packed in nibbles of bytes 3 and 4.
pub open spec fn version_reply_spec(f: FrameView) -> Option<FirmwareVersion> {
    if f.dlc != 5 || f.data[1] != 0xB5 || f.data[2] != 0x02 {
        None
    } else {
        Some(
            FirmwareVersion {
                major: f.data[4] >> 4u8,
                minor: (f.data[4] & 0x0Fu8) | (f.data[3] >> 4u8),
                patch: f.data[3] & 0x0Fu8,
            },
        )
    }
}

/// Decode a firmware version reply; any other length or signature is
/// `None` (no default version is made up).
pub fn decode_version_reply(frame: &CanFrame) -> (r: Option<FirmwareVersion>)
    ensures
        r == version_reply_spec(frame@),
{
    if frame.dlc != 5 || frame.data[1] != 0xB5 || frame.data[2] != 0x02 {
        return None;
    }
    Some(
        FirmwareVersion {
            major: frame.data[4] >> 4,
            minor: (frame.data[4] & 0x0F) | (frame.data[3] >> 4),
            patch: frame.data[3] & 0x0F,
        },
    )
}

/// Setting ACKs (7 bytes) and version replies (5 bytes) are transactional
/// replies, never passive feedback.
pub proof fn law_ack_and_version_are_not_feedback(f: FrameView)
    requires
        is_setting_ack_spec(f) || version_reply_spec(f) is Some,
    ensures
        feedback_spec(f) is None,
{
}

// ---------------------------------------------------------------------------
// Units and data types of raw values
// ---------------------------------------------------------------------------

/// Angle unit of a physical value (the firmware's `pos_vel_type_t`).
#[derive(Debug, Clone, Copy, PartialEq, Eq, Structural)]
pub enum AngleUnit {
    /// Radians (`RADIAN_2PI`).
    Rad,
    /// Degrees (`ANGLE_360`).
    Degree,
    /// Turns (`TURNS`, the firmware default).
    Turn,
}

/// Data type of a raw value (the firmware's `data_type_t`).
#[derive(Debug, Clone, Copy, PartialEq, Eq, Structural)]
pub enum DataType {
    Int8,
    Int16,
    Int32,
    Float,
}

// ---------------------------------------------------------------------------
// Motor models
// ---------------------------------------------------------------------------

/// Motor model (the firmware's `motor_type_t`); it selects the torque
/// coefficient between raw torque and N·m.
#[allow(non_camel_case_types)]
#[derive(Debug, Clone, Copy, PartialEq, Eq, Structural)]
pub enum MotorModel {
    Null,
    M3536_32,
    M4438_30,
    M4438_32,
    M4538_19,
    M5043_20,
    M5046_20,
    M5047_09,
    M5047_36,
    /// HTDW-5036-02-CNE (50 mm planetary joint, ratio 36).
    M5036_36,
    M6056_36,
    M7256_35,
    M60SG_35,
    M60BM_35,
    /// Generic model, used when the model is not known.
    General,
}

/// A model hint as compared: trimmed, ASCII-lowercased.
pub open spec fn hint_key(hint: Seq<char>) -> Seq<char> {
    ascii_lower_seq(trim_spec(hint))
}

/// The hints that stand for "no specific model".
pub open spec fn is_general_placeholder(s: Seq<char>) -> bool {
    s == ""@ || s == "hightorque"@ || s == "ht"@ || s == "auto"@ || s == "default"@ || s == "general"@
}

/// `s` with every `-` replaced by `_`.
pub open spec fn dashes_to_underscores(s: Seq<char>) -> Seq<char> {
    Seq::new(s.len(), |i: int| if s[i] == '-' { '_' } else { s[i] })
}

/// `t` without the first of the prefixes `hightorque_`, `ht_`, `m` that it
/// starts with.
pub open spec fn strip_model_prefix(t: Seq<char>) -> Seq<char> {
    if has_prefix(t, "hightorque_"@) {
        t.skip("hightorque_"@.len() as int)
    } else if has_prefix(t, "ht_"@) {
        t.skip("ht_"@.len() as int)
    } else if has_prefix(t, "m"@) {
        t.skip("m"@.len() as int)
    } else {
        t
    }
}

/// The model a normalized model code names.
pub open spec fn model_of_code(t: Seq<char>) -> Option<MotorModel> {
    if t == "3536_32"@ {
        Some(MotorModel::M3536_32)
    } else if t == "4438_30"@ {
        Some(MotorModel::M4438_30)
    } else if t == "4438_32"@ {
        Some(MotorModel::M4438_32)
    } else if t == "4538_19"@ {
        Some(MotorModel::M4538_19)
    } else if t == "5043_20"@ {
        Some(MotorModel::M5043_20)
    } else if t == "5046_20"@ {
        Some(MotorModel::M5046_20)
    } else if t == "5047_09"@ {
        Some(MotorModel::M5047_09)
    } else if t == "5047_36"@ {
        Some(MotorModel::M5047_36)
    } else if t == "5036"@ {
        Some(MotorModel::M5036_36)
    } else if t == "5036_36"@ {
        Some(MotorModel::M5036_36)
    } else if t == "5036_02"@ {
        Some(MotorModel::M5036_36)
    } else if t == "6056_36"@ {
        Some(MotorModel::M6056_36)
    } else if t == "7256_35"@ {
        Some(MotorModel::M7256_35)
    } else if t == "60sg_35"@ {
        Some(MotorModel::M60SG_35)
    } else if t == "60bm_35"@ {
        Some(MotorModel::M60BM_35)
    } else {
        None
    }
}

/// The model a hint names: placeholders give `General`, `null`/`none` give
/// `Null`, other hints are normalized (dashes to underscores, one known
/// prefix dropped) and looked up; `None` when nothing matches.
pub open spec fn from_hint_spec(hint: Seq<char>) -> Option<MotorModel> {
    let s = hint_key(hint);
    if is_general_placeholder(s) {
        Some(MotorModel::General)
    } else if s == "null"@ || s == "none"@ {
        Some(MotorModel::Null)
    } else {
        model_of_code(strip_model_prefix(dashes_to_underscores(s)))
    }
}

fn replace_dashes(s: &str) -> (r: String)
    ensures
        r@ == dashes_to_underscores(s@),
{
    let n = s.unicode_len();
    let mut out = String::new();
    let mut i: usize = 0;
    while i < n
        invariant
            i <= n == s@.len(),
            out@ =~= dashes_to_underscores(s@.take(i as int)),
        decreases n - i,
    {
        let c = s.get_char(i);
        string_push(&mut out, if c == '-' { '_' } else { c });
        i = i + 1;
    }
    assert(s@.take(n as int) =~= s@);
    out
}

fn without_prefix<'a>(t: &'a str, prefix: &str) -> (r: Option<&'a str>)
    ensures
        has_prefix(t@, prefix@) ==> (r matches Some(rest) && rest@ == t@.skip(prefix@.len() as int)),
        !has_prefix(t@, prefix@) ==> r is None,
{
    if starts_with(t, prefix) {
        let n = t.unicode_len();
        let p = prefix.unicode_len();
        let rest = t.substring_char(p, n);
        assert(rest@ =~= t@.skip(prefix@.len() as int));
        Some(rest)
    } else {
        None
    }
}

fn strip_prefix_of<'a>(t: &'a str) -> (r: &'a str)
    ensures
        r@ == strip_model_prefix(t@),
{
    match without_prefix(t, "hightorque_") {
        Some(rest) => rest,
        None => match without_prefix(t, "ht_") {
            Some(rest) => rest,
            None => match without_prefix(t, "m") {
                Some(rest) => rest,
                None => t,
            },
        },
    }
}

fn model_of(t: &str) -> (r: Option<MotorModel>)
    ensures
        r == model_of_code(t@),
{
    if str_eq(t, "3536_32") {
        Some(MotorModel::M3536_32)
    } else if str_eq(t, "4438_30") {
        Some(MotorModel::M4438_30)
    } else if str_eq(t, "4438_32") {
        Some(MotorModel::M4438_32)
    } else if str_eq(t, "4538_19") {
        Some(MotorModel::M4538_19)
    } else if str_eq(t, "5043_20") {
        Some(MotorModel::M5043_20)
    } else if str_eq(t, "5046_20") {
        Some(MotorModel::M5046_20)
    } else if str_eq(t, "5047_09") {
        Some(MotorModel::M5047_09)
    } else if str_eq(t, "5047_36") {
        Some(MotorModel::M5047_36)
    } else if str_eq(t, "5036") {
        Some(MotorModel::M5036_36)
    } else if str_eq(t, "5036_36") {
        Some(MotorModel::M5036_36)
    } else if str_eq(t, "5036_02") {
        Some(MotorModel::M5036_36)
    } else if str_eq(t, "6056_36") {
        Some(MotorModel::M6056_36)
    } else if str_eq(t, "7256_35") {
        Some(MotorModel::M7256_35)
    } else if str_eq(t, "60sg_35") {
        Some(MotorModel::M60SG_35)
    } else if str_eq(t, "60bm_35") {
        Some(MotorModel::M60BM_35)
    } else {
        None
    }
}

impl MotorModel {
    /// Parse a model hint. Case, surrounding whitespace, `-`/`_` and a
    /// `hightorque_`/`ht_`/`m` prefix do not matter (`5046-20`, `M5046_20`,
    /// `ht-5046-20` all name the same model); placeholders (`""`,
    /// `hightorque`, `ht`, `auto`, `default`, `general`) give `General`;
    /// unknown codes give `None`.
    pub fn from_hint(hint: &str) -> (r: Option<MotorModel>)
        ensures
            r == from_hint_spec(hint@),
    {
        let lower = to_ascii_lowercase(trim(hint));
        let s = lower.as_str();
        if str_eq(s, "") || str_eq(s, "hightorque") || str_eq(s, "ht") || str_eq(s, "auto") || str_eq(s, "default") || str_eq(s, "general") {
            return Some(MotorModel::General);
        }
        if str_eq(s, "null") || str_eq(s, "none") {
            return Some(MotorModel::Null);
        }
        let t = replace_dashes(s);
        model_of(strip_prefix_of(t.as_str()))
    }
}

/// The model a controller accepts for a hint: the parsed model, or
/// `InvalidArgument` naming the hint when it is not recognized.
pub fn model_for_hint(hint: &str) -> (r: Result<MotorModel, MotorError>)
    ensures
        match from_hint_spec(hint@) {
            Some(m) => r == Ok::<MotorModel, MotorError>(m),
            None => r matches Err(MotorError::InvalidArgument(msg)) && msg@
                == "unsupported HighTorque model hint: "@ + hint@,
        },
{
    match MotorModel::from_hint(hint) {
        Some(m) => Ok(m),
        None => {
            let mut msg = String::from_str("unsupported HighTorque model hint: ");
            msg.append(hint);
            Err(MotorError::InvalidArgument(msg))
        },
    }
}

/// The model code a specific model is written as (its name without the
/// leading `M`, lowercase).
pub open spec fn model_code(m: MotorModel) -> Seq<char> {
    match m {
        MotorModel::M3536_32 => "3536_32"@,
        MotorModel::M4438_30 => "4438_30"@,
        MotorModel::M4438_32 => "4438_32"@,
        MotorModel::M4538_19 => "4538_19"@,
        MotorModel::M5043_20 => "5043_20"@,
        MotorModel::M5046_20 => "5046_20"@,
        MotorModel::M5047_09 => "5047_09"@,
        MotorModel::M5047_36 => "5047_36"@,
        MotorModel::M5036_36 => "5036_36"@,
        MotorModel::M6056_36 => "6056_36"@,
        MotorModel::M7256_35 => "7256_35"@,
        MotorModel::M60SG_35 => "60sg_35"@,
        MotorModel::M60BM_35 => "60bm_35"@,
        MotorModel::Null => "null"@,
        MotorModel::General => "general"@,
    }
}

/// Every model code names the model of the same name: looking up the code
/// of a specific model gives that model back, so distinct models have
/// distinct codes and no code is read as another model.
pub proof fn law_model_codes_name_their_models(m: MotorModel)
    requires
        m != MotorModel::Null && m != MotorModel::General,
    ensures
        model_of_code(model_code(m)) == Some(m),
{
    reveal_strlit("3536_32");
    reveal_strlit("4438_30");
    reveal_strlit("4438_32");
    reveal_strlit("4538_19");
    reveal_strlit("5036");
    reveal_strlit("5036_02");
    reveal_strlit("5036_36");
    reveal_strlit("5043_20");
    reveal_strlit("5046_20");
    reveal_strlit("5047_09");
    reveal_strlit("5047_36");
    reveal_strlit("6056_36");
    reveal_strlit("60bm_35");
    reveal_strlit("60sg_35");
    reveal_strlit("7256_35");
    match m {
        MotorModel::M3536_32 => {
        },
        MotorModel::M4438_30 => {
            assert("4438_30"@[0] != "3536_32"@[0]);
        },
        MotorModel::M4438_32 => {
            assert("4438_32"@[0] != "3536_32"@[0]);
            assert("4438_32"@[6] != "4438_30"@[6]);
        },
        MotorModel::M4538_19 => {
            assert("4538_19"@[0] != "3536_32"@[0]);
            assert("4538_19"@[1] != "4438_30"@[1]);
            assert("4538_19"@[1] != "4438_32"@[1]);
        },
        MotorModel::M5043_20 => {
            assert("5043_20"@[0] != "3536_32"@[0]);
            assert("5043_20"@[0] != "4438_30"@[0]);
            assert("5043_20"@[0] != "4438_32"@[0]);
            assert("5043_20"@[0] != "4538_19"@[0]);
        },
        MotorModel::M5046_20 => {
            assert("5046_20"@[0] != "3536_32"@[0]);
            assert("5046_20"@[0] != "4438_30"@[0]);
            assert("5046_20"@[0] != "4438_32"@[0]);
            assert("5046_20"@[0] != "4538_19"@[0]);
            assert("5046_20"@[3] != "5043_20"@[3]);
        },
        MotorModel::M5047_09 => {
            assert("5047_09"@[0] != "3536_32"@[0]);
            assert("5047_09"@[0] != "4438_30"@[0]);
            assert("5047_09"@[0] != "4438_32"@[0]);
            assert("5047_09"@[0] != "4538_19"@[0]);
            assert("5047_09"@[3] != "5043_20"@[3]);
            assert("5047_09"@[3] != "5046_20"@[3]);
        },
        MotorModel::M5047_36 => {
            assert("5047_36"@[0] != "3536_32"@[0]);
            assert("5047_36"@[0] != "4438_30"@[0]);
            assert("5047_36"@[0] != "4438_32"@[0]);
            assert("5047_36"@[0] != "4538_19"@[0]);
            assert("5047_36"@[3] != "5043_20"@[3]);
            assert("5047_36"@[3] != "5046_20"@[3]);
            assert("5047_36"@[5] != "5047_09"@[5]);
        },
        MotorModel::M5036_36 => {
            assert("5036_36"@[0] != "3536_32"@[0]);
            assert("5036_36"@[0] != "4438_30"@[0]);
            assert("5036_36"@[0] != "4438_32"@[0]);
            assert("5036_36"@[0] != "4538_19"@[0]);
            assert("5036_36"@[2] != "5043_20"@[2]);
            assert("5036_36"@[2] != "5046_20"@[2]);
            assert("5036_36"@[2] != "5047_09"@[2]);
            assert("5036_36"@[2] != "5047_36"@[2]);
            assert("5036_36"@.len() != "5036"@.len());
        },
        MotorModel::M6056_36 => {
            assert("6056_36"@[0] != "3536_32"@[0]);
            assert("6056_36"@[0] != "4438_30"@[0]);
            assert("6056_36"@[0] != "4438_32"@[0]);
            assert("6056_36"@[0] != "4538_19"@[0]);
            assert("6056_36"@[0] != "5043_20"@[0]);
            assert("6056_36"@[0] != "5046_20"@[0]);
            assert("6056_36"@[0] != "5047_09"@[0]);
            assert("6056_36"@[0] != "5047_36"@[0]);
            assert("6056_36"@.len() != "5036"@.len());
            assert("6056_36"@[0] != "5036_36"@[0]);
            assert("6056_36"@[0] != "5036_02"@[0]);
        },
        MotorModel::M7256_35 => {
            assert("7256_35"@[0] != "3536_32"@[0]);
            assert("7256_35"@[0] != "4438_30"@[0]);
            assert("7256_35"@[0] != "4438_32"@[0]);
            assert("7256_35"@[0] != "4538_19"@[0]);
            assert("7256_35"@[0] != "5043_20"@[0]);
            assert("7256_35"@[0] != "5046_20"@[0]);
            assert("7256_35"@[0] != "5047_09"@[0]);
            assert("7256_35"@[0] != "5047_36"@[0]);
            assert("7256_35"@.len() != "5036"@.len());
            assert("7256_35"@[0] != "5036_36"@[0]);
            assert("7256_35"@[0] != "5036_02"@[0]);
            assert("7256_35"@[0] != "6056_36"@[0]);
        },
        MotorModel::M60SG_35 => {
            assert("60sg_35"@[0] != "3536_32"@[0]);
            assert("60sg_35"@[0] != "4438_30"@[0]);
            assert("60sg_35"@[0] != "4438_32"@[0]);
            assert("60sg_35"@[0] != "4538_19"@[0]);
            assert("60sg_35"@[0] != "5043_20"@[0]);
            assert("60sg_35"@[0] != "5046_20"@[0]);
            assert("60sg_35"@[0] != "5047_09"@[0]);
            assert("60sg_35"@[0] != "5047_36"@[0]);
            assert("60sg_35"@.len() != "5036"@.len());
            assert("60sg_35"@[0] != "5036_36"@[0]);
            assert("60sg_35"@[0] != "5036_02"@[0]);
            assert("60sg_35"@[2] != "6056_36"@[2]);
            assert("60sg_35"@[0] != "7256_35"@[0]);
        },
        MotorModel::M60BM_35 => {
            assert("60bm_35"@[0] != "3536_32"@[0]);
            assert("60bm_35"@[0] != "4438_30"@[0]);
            assert("60bm_35"@[0] != "4438_32"@[0]);
            assert("60bm_35"@[0] != "4538_19"@[0]);
            assert("60bm_35"@[0] != "5043_20"@[0]);
            assert("60bm_35"@[0] != "5046_20"@[0]);
            assert("60bm_35"@[0] != "5047_09"@[0]);
            assert("60bm_35"@[0] != "5047_36"@[0]);
            assert("60bm_35"@.len() != "5036"@.len());
            assert("60bm_35"@[0] != "5036_36"@[0]);
            assert("60bm_35"@[0] != "5036_02"@[0]);
            assert("60bm_35"@[2] != "6056_36"@[2]);
            assert("60bm_35"@[0] != "7256_35"@[0]);
            assert("60bm_35"@[2] != "60sg_35"@[2]);
        },
        _ => {},
    }
}

/// A character of a normalized model code: a digit, a lowercase ASCII
/// letter or `_`.
pub open spec fn plain_char(c: char) -> bool {
    ('0' <= c <= '9') || ('a' <= c <= 'z') || c == '_'
}

pub open spec fn plain(k: Seq<char>) -> bool {
    forall|i: int| 0 <= i < k.len() ==> plain_char(#[trigger] k[i])
}

proof fn lemma_plain_concat(a: Seq<char>, b: Seq<char>)
    requires
        plain(a),
        plain(b),
    ensures
        plain(a + b),
{
    assert forall|i: int| 0 <= i < (a + b).len() implies plain_char(#[trigger] (a + b)[i]) by {
        if i < a.len() {
            assert((a + b)[i] == a[i]);
        } else {
            assert((a + b)[i] == b[i - a.len()]);
        }
    }
}

/// A non-empty normalized code is its own hint key and has no dash.
proof fn lemma_plain_key(k: Seq<char>)
    requires
        plain(k),
        k.len() > 0,
    ensures
        hint_key(k) == k,
        dashes_to_underscores(k) == k,
{
    assert(plain_char(k[0]));
    assert(plain_char(k.last()));
    assert(trim_start(k) == k);
    assert(trim_end(k) == k);
    assert(ascii_lower_seq(k) =~= k);
    assert(dashes_to_underscores(k) =~= k);
}

proof fn lemma_spelling_literals()
    ensures
        plain("3536_32"@),
        plain("4438_30"@),
        plain("4438_32"@),
        plain("4538_19"@),
        plain("5043_20"@),
        plain("5046_20"@),
        plain("5047_09"@),
        plain("5047_36"@),
        plain("5036_36"@),
        plain("6056_36"@),
        plain("7256_35"@),
        plain("60sg_35"@),
        plain("60bm_35"@),
        plain("m"@),
        plain("ht_"@),
        plain("hightorque_"@),
        "3536_32"@.len() == 7 && '0' <= "3536_32"@[0] <= '9',
        "4438_30"@.len() == 7 && '0' <= "4438_30"@[0] <= '9',
        "4438_32"@.len() == 7 && '0' <= "4438_32"@[0] <= '9',
        "4538_19"@.len() == 7 && '0' <= "4538_19"@[0] <= '9',
        "5043_20"@.len() == 7 && '0' <= "5043_20"@[0] <= '9',
        "5046_20"@.len() == 7 && '0' <= "5046_20"@[0] <= '9',
        "5047_09"@.len() == 7 && '0' <= "5047_09"@[0] <= '9',
        "5047_36"@.len() == 7 && '0' <= "5047_36"@[0] <= '9',
        "5036_36"@.len() == 7 && '0' <= "5036_36"@[0] <= '9',
        "6056_36"@.len() == 7 && '0' <= "6056_36"@[0] <= '9',
        "7256_35"@.len() == 7 && '0' <= "7256_35"@[0] <= '9',
        "60sg_35"@.len() == 7 && '0' <= "60sg_35"@[0] <= '9',
        "60bm_35"@.len() == 7 && '0' <= "60bm_35"@[0] <= '9',
{
    reveal_strlit("3536_32");
    assert forall|i: int| 0 <= i < "3536_32"@.len() implies plain_char(#[trigger] "3536_32"@[i]) by {
        if i == 0 {
            assert("3536_32"@[0] == '3');
        } else if i == 1 {
            assert("3536_32"@[1] == '5');
        } else if i == 2 {
            assert("3536_32"@[2] == '3');
        } else if i == 3 {
            assert("3536_32"@[3] == '6');
        } else if i == 4 {
            assert("3536_32"@[4] == '_');
        } else if i == 5 {
            assert("3536_32"@[5] == '3');
        } else if i == 6 {
            assert("3536_32"@[6] == '2');
        }
    }
    reveal_strlit("4438_30");
    assert forall|i: int| 0 <= i < "4438_30"@.len() implies plain_char(#[trigger] "4438_30"@[i]) by {
        if i == 0 {
            assert("4438_30"@[0] == '4');
        } else if i == 1 {
            assert("4438_30"@[1] == '4');
        } else if i == 2 {
            assert("4438_30"@[2] == '3');
        } else if i == 3 {
            assert("4438_30"@[3] == '8');
        } else if i == 4 {
            assert("4438_30"@[4] == '_');
        } else if i == 5 {
            assert("4438_30"@[5] == '3');
        } else if i == 6 {
            assert("4438_30"@[6] == '0');
        }
    }
    reveal_strlit("4438_32");
    assert forall|i: int| 0 <= i < "4438_32"@.len() implies plain_char(#[trigger] "4438_32"@[i]) by {
        if i == 0 {
            assert("4438_32"@[0] == '4');
        } else if i == 1 {
            assert("4438_32"@[1] == '4');
        } else if i == 2 {
            assert("4438_32"@[2] == '3');
        } else if i == 3 {
            assert("4438_32"@[3] == '8');
        } else if i == 4 {
            assert("4438_32"@[4] == '_');
        } else if i == 5 {
            assert("4438_32"@[5] == '3');
        } else if i == 6 {
            assert("4438_32"@[6] == '2');
        }
    }
    reveal_strlit("4538_19");
    assert forall|i: int| 0 <= i < "4538_19"@.len() implies plain_char(#[trigger] "4538_19"@[i]) by {
        if i == 0 {
            assert("4538_19"@[0] == '4');
        } else if i == 1 {
            assert("4538_19"@[1] == '5');
        } else if i == 2 {
            assert("4538_19"@[2] == '3');
        } else if i == 3 {
            assert("4538_19"@[3] == '8');
        } else if i == 4 {
            assert("4538_19"@[4] == '_');
        } else if i == 5 {
            assert("4538_19"@[5] == '1');
        } else if i == 6 {
            assert("4538_19"@[6] == '9');
        }
    }
    reveal_strlit("5043_20");
    assert forall|i: int| 0 <= i < "5043_20"@.len() implies plain_char(#[trigger] "5043_20"@[i]) by {
        if i == 0 {
            assert("5043_20"@[0] == '5');
        } else if i == 1 {
            assert("5043_20"@[1] == '0');
        } else if i == 2 {
            assert("5043_20"@[2] == '4');
        } else if i == 3 {
            assert("5043_20"@[3] == '3');
        } else if i == 4 {
            assert("5043_20"@[4] == '_');
        } else if i == 5 {
            assert("5043_20"@[5] == '2');
        } else if i == 6 {
            assert("5043_20"@[6] == '0');
        }
    }
    reveal_strlit("5046_20");
    assert forall|i: int| 0 <= i < "5046_20"@.len() implies plain_char(#[trigger] "5046_20"@[i]) by {
        if i == 0 {
            assert("5046_20"@[0] == '5');
        } else if i == 1 {
            assert("5046_20"@[1] == '0');
        } else if i == 2 {
            assert("5046_20"@[2] == '4');
        } else if i == 3 {
            assert("5046_20"@[3] == '6');
        } else if i == 4 {
            assert("5046_20"@[4] == '_');
        } else if i == 5 {
            assert("5046_20"@[5] == '2');
        } else if i == 6 {
            assert("5046_20"@[6] == '0');
        }
    }
    reveal_strlit("5047_09");
    assert forall|i: int| 0 <= i < "5047_09"@.len() implies plain_char(#[trigger] "5047_09"@[i]) by {
        if i == 0 {
            assert("5047_09"@[0] == '5');
        } else if i == 1 {
            assert("5047_09"@[1] == '0');
        } else if i == 2 {
            assert("5047_09"@[2] == '4');
        } else if i == 3 {
            assert("5047_09"@[3] == '7');
        } else if i == 4 {
            assert("5047_09"@[4] == '_');
        } else if i == 5 {
            assert("5047_09"@[5] == '0');
        } else if i == 6 {
            assert("5047_09"@[6] == '9');
        }
    }
    reveal_strlit("5047_36");
    assert forall|i: int| 0 <= i < "5047_36"@.len() implies plain_char(#[trigger] "5047_36"@[i]) by {
        if i == 0 {
            assert("5047_36"@[0] == '5');
        } else if i == 1 {
            assert("5047_36"@[1] == '0');
        } else if i == 2 {
            assert("5047_36"@[2] == '4');
        } else if i == 3 {
            assert("5047_36"@[3] == '7');
        } else if i == 4 {
            assert("5047_36"@[4] == '_');
        } else if i == 5 {
            assert("5047_36"@[5] == '3');
        } else if i == 6 {
            assert("5047_36"@[6] == '6');
        }
    }
    reveal_strlit("5036_36");
    assert forall|i: int| 0 <= i < "5036_36"@.len() implies plain_char(#[trigger] "5036_36"@[i]) by {
        if i == 0 {
            assert("5036_36"@[0] == '5');
        } else if i == 1 {
            assert("5036_36"@[1] == '0');
        } else if i == 2 {
            assert("5036_36"@[2] == '3');
        } else if i == 3 {
            assert("5036_36"@[3] == '6');
        } else if i == 4 {
            assert("5036_36"@[4] == '_');
        } else if i == 5 {
            assert("5036_36"@[5] == '3');
        } else if i == 6 {
            assert("5036_36"@[6] == '6');
        }
    }
    reveal_strlit("6056_36");
    assert forall|i: int| 0 <= i < "6056_36"@.len() implies plain_char(#[trigger] "6056_36"@[i]) by {
        if i == 0 {
            assert("6056_36"@[0] == '6');
        } else if i == 1 {
            assert("6056_36"@[1] == '0');
        } else if i == 2 {
            assert("6056_36"@[2] == '5');
        } else if i == 3 {
            assert("6056_36"@[3] == '6');
        } else if i == 4 {
            assert("6056_36"@[4] == '_');
        } else if i == 5 {
            assert("6056_36"@[5] == '3');
        } else if i == 6 {
            assert("6056_36"@[6] == '6');
        }
    }
    reveal_strlit("7256_35");
    assert forall|i: int| 0 <= i < "7256_35"@.len() implies plain_char(#[trigger] "7256_35"@[i]) by {
        if i == 0 {
            assert("7256_35"@[0] == '7');
        } else if i == 1 {
            assert("7256_35"@[1] == '2');
        } else if i == 2 {
            assert("7256_35"@[2] == '5');
        } else if i == 3 {
            assert("7256_35"@[3] == '6');
        } else if i == 4 {
            assert("7256_35"@[4] == '_');
        } else if i == 5 {
            assert("7256_35"@[5] == '3');
        } else if i == 6 {
            assert("7256_35"@[6] == '5');
        }
    }
    reveal_strlit("60sg_35");
    assert forall|i: int| 0 <= i < "60sg_35"@.len() implies plain_char(#[trigger] "60sg_35"@[i]) by {
        if i == 0 {
            assert("60sg_35"@[0] == '6');
        } else if i == 1 {
            assert("60sg_35"@[1] == '0');
        } else if i == 2 {
            assert("60sg_35"@[2] == 's');
        } else if i == 3 {
            assert("60sg_35"@[3] == 'g');
        } else if i == 4 {
            assert("60sg_35"@[4] == '_');
        } else if i == 5 {
            assert("60sg_35"@[5] == '3');
        } else if i == 6 {
            assert("60sg_35"@[6] == '5');
        }
    }
    reveal_strlit("60bm_35");
    assert forall|i: int| 0 <= i < "60bm_35"@.len() implies plain_char(#[trigger] "60bm_35"@[i]) by {
        if i == 0 {
            assert("60bm_35"@[0] == '6');
        } else if i == 1 {
            assert("60bm_35"@[1] == '0');
        } else if i == 2 {
            assert("60bm_35"@[2] == 'b');
        } else if i == 3 {
            assert("60bm_35"@[3] == 'm');
        } else if i == 4 {
            assert("60bm_35"@[4] == '_');
        } else if i == 5 {
            assert("60bm_35"@[5] == '3');
        } else if i == 6 {
            assert("60bm_35"@[6] == '5');
        }
    }
    reveal_strlit("m");
    assert forall|i: int| 0 <= i < "m"@.len() implies plain_char(#[trigger] "m"@[i]) by {
        if i == 0 {
            assert("m"@[0] == 'm');
        }
    }
    reveal_strlit("ht_");
    assert forall|i: int| 0 <= i < "ht_"@.len() implies plain_char(#[trigger] "ht_"@[i]) by {
        if i == 0 {
            assert("ht_"@[0] == 'h');
        } else if i == 1 {
            assert("ht_"@[1] == 't');
        } else if i == 2 {
            assert("ht_"@[2] == '_');
        }
    }
    reveal_strlit("hightorque_");
    assert forall|i: int| 0 <= i < "hightorque_"@.len() implies plain_char(#[trigger] "hightorque_"@[i]) by {
        if i == 0 {
            assert("hightorque_"@[0] == 'h');
        } else if i == 1 {
            assert("hightorque_"@[1] == 'i');
        } else if i == 2 {
            assert("hightorque_"@[2] == 'g');
        } else if i == 3 {
            assert("hightorque_"@[3] == 'h');
        } else if i == 4 {
            assert("hightorque_"@[4] == 't');
        } else if i == 5 {
            assert("hightorque_"@[5] == 'o');
        } else if i == 6 {
            assert("hightorque_"@[6] == 'r');
        } else if i == 7 {
            assert("hightorque_"@[7] == 'q');
        } else if i == 8 {
            assert("hightorque_"@[8] == 'u');
        } else if i == 9 {
            assert("hightorque_"@[9] == 'e');
        } else if i == 10 {
            assert("hightorque_"@[10] == '_');
        }
    }
}

/// A model hint written as a model's code, alone or after one of the
/// prefixes `m`, `ht_`, `hightorque_`, names that model; with the laws on
/// case and separators, `M5046_20`, `ht-5046-20` and `HIGHTORQUE-5046-20`
/// all name `M5046_20`.
pub proof fn law_from_hint_names_each_model(m: MotorModel)
    requires
        m != MotorModel::Null && m != MotorModel::General,
    ensures
        from_hint_spec(model_code(m)) == Some(m),
        from_hint_spec("m"@ + model_code(m)) == Some(m),
        from_hint_spec("ht_"@ + model_code(m)) == Some(m),
        from_hint_spec("hightorque_"@ + model_code(m)) == Some(m),
{
    law_model_codes_name_their_models(m);
    lemma_spelling_literals();
    let c = model_code(m);
    reveal_strlit("hightorque");
    reveal_strlit("ht");
    reveal_strlit("auto");
    reveal_strlit("default");
    reveal_strlit("general");
    reveal_strlit("null");
    reveal_strlit("none");
    reveal_strlit("");
    reveal_strlit("m");
    reveal_strlit("ht_");
    reveal_strlit("hightorque_");
    assert(plain(c) && c.len() == 7 && '0' <= c[0] <= '9') by {
        match m {
            MotorModel::M3536_32 => {},
            MotorModel::M4438_30 => {},
            MotorModel::M4438_32 => {},
            MotorModel::M4538_19 => {},
            MotorModel::M5043_20 => {},
            MotorModel::M5046_20 => {},
            MotorModel::M5047_09 => {},
            MotorModel::M5047_36 => {},
            MotorModel::M5036_36 => {},
            MotorModel::M6056_36 => {},
            MotorModel::M7256_35 => {},
            MotorModel::M60SG_35 => {},
            MotorModel::M60BM_35 => {},
            _ => {},
        }
    }
    // The code alone.
    lemma_plain_key(c);
    assert(c.take(3)[0] == c[0]);
    assert(c.take(1)[0] == c[0]);
    assert(strip_model_prefix(c) == c);

    // After `m`.
    let k1 = "m"@ + c;
    lemma_plain_concat("m"@, c);
    lemma_plain_key(k1);
    assert(k1[0] == 'm');
    assert(k1.take(3)[0] == 'm');
    assert(k1.take(1) =~= "m"@);
    assert(k1.skip(1) =~= c);
    // After `ht_`.
    let k2 = "ht_"@ + c;
    lemma_plain_concat("ht_"@, c);
    lemma_plain_key(k2);
    assert(k2[0] == 'h' && k2[1] == 't');
    assert(k2.take(3) =~= "ht_"@);
    assert(k2.skip(3) =~= c);
    // After `hightorque_`.
    let k3 = "hightorque_"@ + c;
    lemma_plain_concat("hightorque_"@, c);
    lemma_plain_key(k3);
    assert(k3.take(11) =~= "hightorque_"@);
    assert(k3.skip(11) =~= c);

    assert(c != "hightorque"@) by {
        if c == "hightorque"@ {
            assert(c.len() == "hightorque"@.len());
            assert(c[0] == "hightorque"@[0]);
            assert(c[1] == "hightorque"@[1]);
        }
    }
    assert(c != "ht"@) by {
        if c == "ht"@ {
            assert(c.len() == "ht"@.len());
            assert(c[0] == "ht"@[0]);
            assert(c[1] == "ht"@[1]);
        }
    }
    assert(c != "auto"@) by {
        if c == "auto"@ {
            assert(c.len() == "auto"@.len());
            assert(c[0] == "auto"@[0]);
            assert(c[1] == "auto"@[1]);
        }
    }
    assert(c != "default"@) by {
        if c == "default"@ {
            assert(c.len() == "default"@.len());
            assert(c[0] == "default"@[0]);
            assert(c[1] == "default"@[1]);
        }
    }
    assert(c != "general"@) by {
        if c == "general"@ {
            assert(c.len() == "general"@.len());
            assert(c[0] == "general"@[0]);
            assert(c[1] == "general"@[1]);
        }
    }
    assert(c != "null"@) by {
        if c == "null"@ {
            assert(c.len() == "null"@.len());
            assert(c[0] == "null"@[0]);
            assert(c[1] == "null"@[1]);
        }
    }
    assert(c != "none"@) by {
        if c == "none"@ {
            assert(c.len() == "none"@.len());
            assert(c[0] == "none"@[0]);
            assert(c[1] == "none"@[1]);
        }
    }
    assert(c != ""@) by {
        if c == ""@ {
            assert(c.len() == 0);
        }
    }
    assert(k1 != "hightorque"@) by {
        if k1 == "hightorque"@ {
            assert(k1.len() == "hightorque"@.len());
            assert(k1[0] == "hightorque"@[0]);
            assert(k1[1] == "hightorque"@[1]);
        }
    }
    assert(k1 != "ht"@) by {
        if k1 == "ht"@ {
            assert(k1.len() == "ht"@.len());
            assert(k1[0] == "ht"@[0]);
            assert(k1[1] == "ht"@[1]);
        }
    }
    assert(k1 != "auto"@) by {
        if k1 == "auto"@ {
            assert(k1.len() == "auto"@.len());
            assert(k1[0] == "auto"@[0]);
            assert(k1[1] == "auto"@[1]);
        }
    }
    assert(k1 != "default"@) by {
        if k1 == "default"@ {
            assert(k1.len() == "default"@.len());
            assert(k1[0] == "default"@[0]);
            assert(k1[1] == "default"@[1]);
        }
    }
    assert(k1 != "general"@) by {
        if k1 == "general"@ {
            assert(k1.len() == "general"@.len());
            assert(k1[0] == "general"@[0]);
            assert(k1[1] == "general"@[1]);
        }
    }
    assert(k1 != "null"@) by {
        if k1 == "null"@ {
            assert(k1.len() == "null"@.len());
            assert(k1[0] == "null"@[0]);
            assert(k1[1] == "null"@[1]);
        }
    }
    assert(k1 != "none"@) by {
        if k1 == "none"@ {
            assert(k1.len() == "none"@.len());
            assert(k1[0] == "none"@[0]);
            assert(k1[1] == "none"@[1]);
        }
    }
    assert(k1 != ""@) by {
        if k1 == ""@ {
            assert(k1.len() == 0);
        }
    }
    assert(k2 != "hightorque"@) by {
        if k2 == "hightorque"@ {
            assert(k2.len() == "hightorque"@.len());
            assert(k2[0] == "hightorque"@[0]);
            assert(k2[1] == "hightorque"@[1]);
        }
    }
    assert(k2 != "ht"@) by {
        if k2 == "ht"@ {
            assert(k2.len() == "ht"@.len());
            assert(k2[0] == "ht"@[0]);
            assert(k2[1] == "ht"@[1]);
        }
    }
    assert(k2 != "auto"@) by {
        if k2 == "auto"@ {
            assert(k2.len() == "auto"@.len());
            assert(k2[0] == "auto"@[0]);
            assert(k2[1] == "auto"@[1]);
        }
    }
    assert(k2 != "default"@) by {
        if k2 == "default"@ {
            assert(k2.len() == "default"@.len());
            assert(k2[0] == "default"@[0]);
            assert(k2[1] == "default"@[1]);
        }
    }
    assert(k2 != "general"@) by {
        if k2 == "general"@ {
            assert(k2.len() == "general"@.len());
            assert(k2[0] == "general"@[0]);
            assert(k2[1] == "general"@[1]);
        }
    }
    assert(k2 != "null"@) by {
        if k2 == "null"@ {
            assert(k2.len() == "null"@.len());
            assert(k2[0] == "null"@[0]);
            assert(k2[1] == "null"@[1]);
        }
    }
    assert(k2 != "none"@) by {
        if k2 == "none"@ {
            assert(k2.len() == "none"@.len());
            assert(k2[0] == "none"@[0]);
            assert(k2[1] == "none"@[1]);
        }
    }
    assert(k2 != ""@) by {
        if k2 == ""@ {
            assert(k2.len() == 0);
        }
    }
    assert(k3 != "hightorque"@) by {
        if k3 == "hightorque"@ {
            assert(k3.len() == "hightorque"@.len());
            assert(k3[0] == "hightorque"@[0]);
            assert(k3[1] == "hightorque"@[1]);
        }
    }
    assert(k3 != "ht"@) by {
        if k3 == "ht"@ {
            assert(k3.len() == "ht"@.len());
            assert(k3[0] == "ht"@[0]);
            assert(k3[1] == "ht"@[1]);
        }
    }
    assert(k3 != "auto"@) by {
        if k3 == "auto"@ {
            assert(k3.len() == "auto"@.len());
            assert(k3[0] == "auto"@[0]);
            assert(k3[1] == "auto"@[1]);
        }
    }
    assert(k3 != "default"@) by {
        if k3 == "default"@ {
            assert(k3.len() == "default"@.len());
            assert(k3[0] == "default"@[0]);
            assert(k3[1] == "default"@[1]);
        }
    }
    assert(k3 != "general"@) by {
        if k3 == "general"@ {
            assert(k3.len() == "general"@.len());
            assert(k3[0] == "general"@[0]);
            assert(k3[1] == "general"@[1]);
        }
    }
    assert(k3 != "null"@) by {
        if k3 == "null"@ {
            assert(k3.len() == "null"@.len());
            assert(k3[0] == "null"@[0]);
            assert(k3[1] == "null"@[1]);
        }
    }
    assert(k3 != "none"@) by {
        if k3 == "none"@ {
            assert(k3.len() == "none"@.len());
            assert(k3[0] == "none"@[0]);
            assert(k3[1] == "none"@[1]);
        }
    }
    assert(k3 != ""@) by {
        if k3 == ""@ {
            assert(k3.len() == 0);
        }
    }
}

// ---------------------------------------------------------------------------
// Laws of model hints
// ---------------------------------------------------------------------------

/// `s` with `f` applied to each character.
pub open spec fn map_chars(s: Seq<char>, f: spec_fn(char) -> char) -> Seq<char> {
    Seq::new(s.len(), |i: int| f(s[i]))
}

proof fn lemma_trim_start_map(s: Seq<char>, f: spec_fn(char) -> char)
    requires
        forall|c: char| #[trigger] is_ws(f(c)) == is_ws(c),
    ensures
        trim_start(map_chars(s, f)) == map_chars(trim_start(s), f),
    decreases s.len(),
{
    if s.len() > 0 && is_ws(s[0]) {
        assert(map_chars(s, f).drop_first() =~= map_chars(s.drop_first(), f));
        lemma_trim_start_map(s.drop_first(), f);
    }
}

proof fn lemma_trim_end_map(s: Seq<char>, f: spec_fn(char) -> char)
    requires
        forall|c: char| #[trigger] is_ws(f(c)) == is_ws(c),
    ensures
        trim_end(map_chars(s, f)) == map_chars(trim_end(s), f),
    decreases s.len(),
{
    if s.len() > 0 && is_ws(s.last()) {
        assert(map_chars(s, f).drop_last() =~= map_chars(s.drop_last(), f));
        lemma_trim_end_map(s.drop_last(), f);
    }
}

/// Trimming commutes with a character map that keeps whitespace apart.
proof fn lemma_trim_map(s: Seq<char>, f: spec_fn(char) -> char)
    requires
        forall|c: char| #[trigger] is_ws(f(c)) == is_ws(c),
    ensures
        trim_spec(map_chars(s, f)) == map_chars(trim_spec(s), f),
{
    lemma_trim_start_map(s, f);
    lemma_trim_end_map(trim_start(s), f);
}

proof fn lemma_lower_is_map(s: Seq<char>)
    ensures
        ascii_lower_seq(s) == map_chars(s, |c: char| ascii_lower(c)),
{
    assert(ascii_lower_seq(s) =~= map_chars(s, |c: char| ascii_lower(c)));
}

proof fn lemma_dashes_is_map(s: Seq<char>)
    ensures
        dashes_to_underscores(s) == map_chars(s, |c: char| if c == '-' { '_' } else { c }),
{
    assert(dashes_to_underscores(s) =~= map_chars(s, |c: char| if c == '-' { '_' } else { c }));
}

/// Whether neither `-` nor `_` occurs in `s`.
pub open spec fn no_separator(s: Seq<char>) -> bool {
    forall|i: int| 0 <= i < s.len() ==> s[i] != '-' && s[i] != '_'
}

proof fn lemma_literals_have_no_separator()
    ensures
        no_separator("hightorque"@),
        no_separator("ht"@),
        no_separator("auto"@),
        no_separator("default"@),
        no_separator("general"@),
        no_separator("null"@),
        no_separator("none"@),
        no_separator(""@),
{
    reveal_strlit("hightorque");
    assert forall|i: int| 0 <= i < "hightorque"@.len() implies "hightorque"@[i] != '-' && "hightorque"@[i] != '_' by {
        if i == 0 {
            assert("hightorque"@[0] == 'h');
        } else if i == 1 {
            assert("hightorque"@[1] == 'i');
        } else if i == 2 {
            assert("hightorque"@[2] == 'g');
        } else if i == 3 {
            assert("hightorque"@[3] == 'h');
        } else if i == 4 {
            assert("hightorque"@[4] == 't');
        } else if i == 5 {
            assert("hightorque"@[5] == 'o');
        } else if i == 6 {
            assert("hightorque"@[6] == 'r');
        } else if i == 7 {
            assert("hightorque"@[7] == 'q');
        } else if i == 8 {
            assert("hightorque"@[8] == 'u');
        } else if i == 9 {
            assert("hightorque"@[9] == 'e');
        }
    }
    reveal_strlit("ht");
    assert forall|i: int| 0 <= i < "ht"@.len() implies "ht"@[i] != '-' && "ht"@[i] != '_' by {
        if i == 0 {
            assert("ht"@[0] == 'h');
        } else if i == 1 {
            assert("ht"@[1] == 't');
        }
    }
    reveal_strlit("auto");
    assert forall|i: int| 0 <= i < "auto"@.len() implies "auto"@[i] != '-' && "auto"@[i] != '_' by {
        if i == 0 {
            assert("auto"@[0] == 'a');
        } else if i == 1 {
            assert("auto"@[1] == 'u');
        } else if i == 2 {
            assert("auto"@[2] == 't');
        } else if i == 3 {
            assert("auto"@[3] == 'o');
        }
    }
    reveal_strlit("default");
    assert forall|i: int| 0 <= i < "default"@.len() implies "default"@[i] != '-' && "default"@[i] != '_' by {
        if i == 0 {
            assert("default"@[0] == 'd');
        } else if i == 1 {
            assert("default"@[1] == 'e');
        } else if i == 2 {
            assert("default"@[2] == 'f');
        } else if i == 3 {
            assert("default"@[3] == 'a');
        } else if i == 4 {
            assert("default"@[4] == 'u');
        } else if i == 5 {
            assert("default"@[5] == 'l');
        } else if i == 6 {
            assert("default"@[6] == 't');
        }
    }
    reveal_strlit("general");
    assert forall|i: int| 0 <= i < "general"@.len() implies "general"@[i] != '-' && "general"@[i] != '_' by {
        if i == 0 {
            assert("general"@[0] == 'g');
        } else if i == 1 {
            assert("general"@[1] == 'e');
        } else if i == 2 {
            assert("general"@[2] == 'n');
        } else if i == 3 {
            assert("general"@[3] == 'e');
        } else if i == 4 {
            assert("general"@[4] == 'r');
        } else if i == 5 {
            assert("general"@[5] == 'a');
        } else if i == 6 {
            assert("general"@[6] == 'l');
        }
    }
    reveal_strlit("null");
    assert forall|i: int| 0 <= i < "null"@.len() implies "null"@[i] != '-' && "null"@[i] != '_' by {
        if i == 0 {
            assert("null"@[0] == 'n');
        } else if i == 1 {
            assert("null"@[1] == 'u');
        } else if i == 2 {
            assert("null"@[2] == 'l');
        } else if i == 3 {
            assert("null"@[3] == 'l');
        }
    }
    reveal_strlit("none");
    assert forall|i: int| 0 <= i < "none"@.len() implies "none"@[i] != '-' && "none"@[i] != '_' by {
        if i == 0 {
            assert("none"@[0] == 'n');
        } else if i == 1 {
            assert("none"@[1] == 'o');
        } else if i == 2 {
            assert("none"@[2] == 'n');
        } else if i == 3 {
            assert("none"@[3] == 'e');
        }
    }
    reveal_strlit("");
}

/// For a literal without separators, a key equals it exactly when the key
/// with its dashes replaced does.
proof fn lemma_dash_literal_eq(k: Seq<char>, lit: Seq<char>)
    requires
        no_separator(lit),
    ensures
        (dashes_to_underscores(k) == lit) == (k == lit),
{
    if dashes_to_underscores(k) == lit {
        assert forall|i: int| 0 <= i < k.len() implies k[i] == lit[i] by {
            assert(dashes_to_underscores(k)[i] == lit[i]);
        }
        assert(k =~= lit);
    }
    if k == lit {
        assert(dashes_to_underscores(k) =~= lit);
    }
}

proof fn lemma_dashes_idempotent(k: Seq<char>)
    ensures
        dashes_to_underscores(dashes_to_underscores(k)) == dashes_to_underscores(k),
{
    assert(dashes_to_underscores(dashes_to_underscores(k)) =~= dashes_to_underscores(k));
}

proof fn lemma_lower_idempotent(k: Seq<char>)
    ensures
        ascii_lower_seq(ascii_lower_seq(k)) == ascii_lower_seq(k),
{
    assert(ascii_lower_seq(ascii_lower_seq(k)) =~= ascii_lower_seq(k));
}

/// The three spellings of the 5036 joint (the bare frame size, the ratio
/// form and the catalogue suffix `02`) all name the one model `M5036_36`;
/// the placeholder hints name `General`, and `null` and `none` name `Null`.
pub proof fn law_model_aliases()
    ensures
        from_hint_spec("5036"@) == Some(MotorModel::M5036_36),
        from_hint_spec("5036_36"@) == Some(MotorModel::M5036_36),
        from_hint_spec("5036_02"@) == Some(MotorModel::M5036_36),
        from_hint_spec(""@) == Some(MotorModel::General),
        from_hint_spec("hightorque"@) == Some(MotorModel::General),
        from_hint_spec("ht"@) == Some(MotorModel::General),
        from_hint_spec("auto"@) == Some(MotorModel::General),
        from_hint_spec("default"@) == Some(MotorModel::General),
        from_hint_spec("general"@) == Some(MotorModel::General),
        from_hint_spec("null"@) == Some(MotorModel::Null),
        from_hint_spec("none"@) == Some(MotorModel::Null),
{
    reveal_strlit("5036");
    reveal_strlit("5036_36");
    reveal_strlit("5036_02");
    reveal_strlit("");
    reveal_strlit("3536_32");
    reveal_strlit("4438_30");
    reveal_strlit("4438_32");
    reveal_strlit("4538_19");
    reveal_strlit("5043_20");
    reveal_strlit("5046_20");
    reveal_strlit("5047_09");
    reveal_strlit("5047_36");
    reveal_strlit("hightorque");
    reveal_strlit("hightorque_");
    reveal_strlit("ht");
    reveal_strlit("ht_");
    reveal_strlit("m");
    reveal_strlit("auto");
    reveal_strlit("default");
    reveal_strlit("general");
    reveal_strlit("null");
    reveal_strlit("none");
    assert(trim_spec(""@) =~= ""@) by {
        assert(trim_start(""@) =~= ""@);
        assert(trim_end(""@) =~= ""@);
    }
    assert(ascii_lower_seq(""@) =~= ""@);
    lemma_spelling_literals();
    let a = "5036"@;
    let b = "5036_02"@;
    let c = "5036_36"@;
    assert(plain(a));
    assert(plain(b));
    lemma_plain_key(a);
    lemma_plain_key(b);
    lemma_plain_key(c);
    assert(a.take(1)[0] == '5' && a.take(3)[0] == '5');
    assert(b.take(1)[0] == '5' && b.take(3)[0] == '5');
    assert(b[0] == '5' && b[1] == '0' && b[2] == '3' && b[5] == '0' && c[5] == '3');
    assert(c.take(1)[0] == '5' && c.take(3)[0] == '5');
    assert(strip_model_prefix(a) == a);
    assert(strip_model_prefix(b) == b);
    assert(strip_model_prefix(c) == c);
    assert(a != c && b != c && a != b);
    assert(model_of_code(a) == Some(MotorModel::M5036_36));
    assert(b != "3536_32"@) by {
        if b == "3536_32"@ {
            assert(b[0] == "3536_32"@[0]);
        }
    }
    assert(b != "4438_30"@) by {
        if b == "4438_30"@ {
            assert(b[0] == "4438_30"@[0]);
        }
    }
    assert(b != "4438_32"@) by {
        if b == "4438_32"@ {
            assert(b[0] == "4438_32"@[0]);
        }
    }
    assert(b != "4538_19"@) by {
        if b == "4538_19"@ {
            assert(b[0] == "4538_19"@[0]);
        }
    }
    assert(b != "5043_20"@) by {
        if b == "5043_20"@ {
            assert(b[2] == "5043_20"@[2]);
        }
    }
    assert(b != "5046_20"@) by {
        if b == "5046_20"@ {
            assert(b[2] == "5046_20"@[2]);
        }
    }
    assert(b != "5047_09"@) by {
        if b == "5047_09"@ {
            assert(b[2] == "5047_09"@[2]);
        }
    }
    assert(b != "5047_36"@) by {
        if b == "5047_36"@ {
            assert(b[2] == "5047_36"@[2]);
        }
    }
    assert(b != "5036"@);
    assert(c != "3536_32"@) by {
        if c == "3536_32"@ {
            assert(c[0] == "3536_32"@[0]);
        }
    }
    assert(c != "4438_30"@) by {
        if c == "4438_30"@ {
            assert(c[0] == "4438_30"@[0]);
        }
    }
    assert(c != "4438_32"@) by {
        if c == "4438_32"@ {
            assert(c[0] == "4438_32"@[0]);
        }
    }
    assert(c != "4538_19"@) by {
        if c == "4538_19"@ {
            assert(c[0] == "4538_19"@[0]);
        }
    }
    assert(c != "5043_20"@) by {
        if c == "5043_20"@ {
            assert(c[2] == "5043_20"@[2]);
        }
    }
    assert(c != "5046_20"@) by {
        if c == "5046_20"@ {
            assert(c[2] == "5046_20"@[2]);
        }
    }
    assert(c != "5047_09"@) by {
        if c == "5047_09"@ {
            assert(c[2] == "5047_09"@[2]);
        }
    }
    assert(c != "5047_36"@) by {
        if c == "5047_36"@ {
            assert(c[2] == "5047_36"@[2]);
        }
    }
    assert(c != "5036"@);
    assert(c != "5036_02"@) by {
        if c == "5036_02"@ {
            assert(c[5] == "5036_02"@[5]);
        }
    }
    assert(model_of_code(b) == Some(MotorModel::M5036_36));
    assert(model_of_code(c) == Some(MotorModel::M5036_36));
    assert(plain("hightorque"@) && plain("ht"@) && plain("auto"@) && plain("default"@));
    assert(plain("general"@) && plain("null"@) && plain("none"@));
    lemma_plain_key("hightorque"@);
    lemma_plain_key("ht"@);
    lemma_plain_key("auto"@);
    lemma_plain_key("default"@);
    lemma_plain_key("general"@);
    lemma_plain_key("null"@);
    lemma_plain_key("none"@);
    assert(!is_general_placeholder(a) && !is_general_placeholder(b) && !is_general_placeholder(c));
    assert(a != "null"@ && a != "none"@ && b != "null"@ && b != "none"@ && c != "null"@ && c != "none"@);
    assert(!is_general_placeholder("null"@) && !is_general_placeholder("none"@));
}

/// Parsing a hint does not depend on its ASCII case.
pub proof fn law_from_hint_ignores_case(hint: Seq<char>)
    ensures
        from_hint_spec(ascii_lower_seq(hint)) == from_hint_spec(hint),
{
    let f = |c: char| ascii_lower(c);
    assert forall|c: char| #[trigger] is_ws(f(c)) == is_ws(c) by {}
    lemma_lower_is_map(hint);
    lemma_trim_map(hint, f);
    lemma_lower_is_map(trim_spec(hint));
    lemma_lower_idempotent(trim_spec(hint));
}

/// Parsing a hint does not depend on whether it separates with `-` or `_`.
pub proof fn law_from_hint_ignores_separator(hint: Seq<char>)
    ensures
        from_hint_spec(dashes_to_underscores(hint)) == from_hint_spec(hint),
{
    let g = |c: char| if c == '-' { '_' } else { c };
    assert forall|c: char| #[trigger] is_ws(g(c)) == is_ws(c) by {}
    lemma_dashes_is_map(hint);
    lemma_trim_map(hint, g);
    let t = trim_spec(hint);
    lemma_dashes_is_map(t);
    let k = hint_key(hint);
    assert(hint_key(dashes_to_underscores(hint)) =~= dashes_to_underscores(k));
    lemma_literals_have_no_separator();
    lemma_dash_literal_eq(k, "hightorque"@);
    lemma_dash_literal_eq(k, "ht"@);
    lemma_dash_literal_eq(k, "auto"@);
    lemma_dash_literal_eq(k, "default"@);
    lemma_dash_literal_eq(k, "general"@);
    lemma_dash_literal_eq(k, "null"@);
    lemma_dash_literal_eq(k, "none"@);
    lemma_dash_literal_eq(k, ""@);
    lemma_dashes_idempotent(k);
}

// ---------------------------------------------------------------------------
// Generic register read (§1.3)
// ---------------------------------------------------------------------------
//
// A read command byte is `[7:4] = 0001` (read) or `0010` (reply), `[3:2]` the
// data type (00 int8, 01 int16, 10 int32, 11 float), `[1:0]` the count
// (1-3). Several `(cmd, addr)` pairs may share one frame of at most 8 bytes;
// a reply mirrors them as `(reply_cmd, start_addr, value0, value1, ...)`.

/// Data type of a register, as coded in bits `[3:2]` of a command byte.
#[derive(Debug, Clone, Copy, PartialEq, Eq, Structural)]
pub enum RegisterType {
    Int8,
    Int16,
    Int32,
    Float,
}

/// The two bits a register type is coded as.
pub open spec fn register_type_bits(t: RegisterType) -> u8 {
    match t {
        RegisterType::Int8 => 0,
        RegisterType::Int16 => 1,
        RegisterType::Int32 => 2,
        RegisterType::Float => 3,
    }
}

/// The register type coded by the low two bits of `bits`.
pub open spec fn register_type_of(bits: u8) -> RegisterType {
    let b = bits & 3u8;
    if b == 0 {
        RegisterType::Int8
    } else if b == 1 {
        RegisterType::Int16
    } else if b == 2 {
        RegisterType::Int32
    } else {
        RegisterType::Float
    }
}

/// Size in bytes of a value of a register type.
pub open spec fn register_type_size(t: RegisterType) -> nat {
    match t {
        RegisterType::Int8 => 1,
        RegisterType::Int16 => 2,
        RegisterType::Int32 => 4,
        RegisterType::Float => 4,
    }
}

impl RegisterType {
    /// The register type coded by bits `[1:0]` of `bits` (the caller shifts
    /// bits `[3:2]` of a command byte down). Every value names a type.
    pub fn from_cmd_bits(bits: u8) -> (r: Option<RegisterType>)
        ensures
            r == Some(register_type_of(bits)),
    {
        let b = bits & 0b11;
        if b == 0 {
            Some(RegisterType::Int8)
        } else if b == 1 {
            Some(RegisterType::Int16)
        } else if b == 2 {
            Some(RegisterType::Int32)
        } else {
            Some(RegisterType::Float)
        }
    }

    pub fn cmd_bits(self) -> (r: u8)
        ensures
            r == register_type_bits(self),
    {
        match self {
            RegisterType::Int8 => 0,
            RegisterType::Int16 => 1,
            RegisterType::Int32 => 2,
            RegisterType::Float => 3,
        }
    }

    pub fn size(self) -> (r: usize)
        ensures
            r == register_type_size(self),
    {
        match self {
            RegisterType::Int8 => 1,
            RegisterType::Int16 => 2,
            RegisterType::Int32 => 4,
            RegisterType::Float => 4,
        }
    }
}

/// Decoding the two bits of a type gives that type back.
pub proof fn law_register_type_bits_round_trip(t: RegisterType)
    ensures
        register_type_of(register_type_bits(t)) == t,
        register_type_bits(t) < 4,
{
    assert(0u8 & 3u8 == 0u8 && 1u8 & 3u8 == 1u8 && 2u8 & 3u8 == 2u8 && 3u8 & 3u8 == 3u8)
        by (bit_vector);
}

/// A register value as read: integers as signed values, floats as their
/// IEEE-754 bits.
#[derive(Debug, Clone, Copy, PartialEq, Eq, Structural)]
pub enum RegisterValue {
    I8(i8),
    I16(i16),
    I32(i32),
    F32Bits(u32),
}

/// One read request: `count` (1-3) consecutive values of type `ty` from
/// address `addr`.
#[derive(Debug, Clone, Copy)]
pub struct ReadCmd {
    pub addr: u8,
    pub ty: RegisterType,
    pub count: u8,
}

/// The command byte of a read request.
pub open spec fn read_cmd_byte(c: ReadCmd) -> u8 {
    0x10u8 | (register_type_bits(c.ty) << 2u8) | (c.count & 3u8)
}

impl ReadCmd {
    /// The command byte of this request; `None` when the count is not 1-3.
    pub fn cmd_byte(self) -> (r: Option<u8>)
        ensures
            r == (if 1 <= self.count <= 3 { Some(read_cmd_byte(self)) } else { None::<u8> }),
    {
        let count = self.count;
        if !(1 <= count && count <= 3) {
            return None;
        }
        Some(0b0001_0000 | (self.ty.cmd_bits() << 2) | (count & 0b11))
    }
}

/// The bytes of a sequence of read requests: command byte, address, ...
pub open spec fn read_bytes(cmds: Seq<ReadCmd>) -> Seq<u8> {
    Seq::new(
        2 * cmds.len(),
        |i: int| if i % 2 == 0 { read_cmd_byte(cmds[i / 2]) } else { cmds[i / 2].addr },
    )
}

/// Whether every request has a count of 1-3.
pub open spec fn read_counts_valid(cmds: Seq<ReadCmd>) -> bool {
    forall|i: int| 0 <= i < cmds.len() ==> 1 <= #[trigger] cmds[i].count <= 3
}

/// Build the data of one frame of read requests. `None` when a count is
/// not 1-3 or when the pairs take more than 8 bytes.
pub fn encode_read(cmds: &[ReadCmd]) -> (r: Option<Vec<u8>>)
    ensures
        r is Some <==> read_counts_valid(cmds@) && 2 * cmds@.len() <= 8,
        r matches Some(v) ==> v@ == read_bytes(cmds@),
{
    let mut out: Vec<u8> = Vec::new();
    let mut i: usize = 0;
    while i < cmds.len()
        invariant
            i <= cmds@.len(),
            read_counts_valid(cmds@.take(i as int)),
            out@ =~= read_bytes(cmds@.take(i as int)),
        decreases cmds@.len() - i,
    {
        let cmd = cmds[i];
        let cb = match cmd.cmd_byte() {
            Some(b) => b,
            None => {
                assert(!read_counts_valid(cmds@)) by {
                    assert(cmds@[i as int] == cmd);
                }
                return None;
            },
        };
        out.push(cb);
        out.push(cmd.addr);
        proof {
            let t = cmds@.take(i + 1);
            assert(t.take(i as int) =~= cmds@.take(i as int));
            assert forall|k: int| 0 <= k < t.len() implies 1 <= #[trigger] t[k].count <= 3 by {
                if k < i {
                    assert(cmds@.take(i as int)[k] == t[k]);
                }
            }
            assert(out@ =~= read_bytes(t));
        }
        i = i + 1;
    }
    assert(cmds@.take(cmds@.len() as int) =~= cmds@);
    if out.len() > 8 {
        return None;
    }
    Some(out)
}

/// Little-endian `u32` of four bytes.
pub open spec fn le_u32(b0: u8, b1: u8, b2: u8, b3: u8) -> u32 {
    (b3 as u32) << 24u32 | (b2 as u32) << 16u32 | (b1 as u32) << 8u32 | (b0 as u32)
}

/// The value of type `ty` stored little-endian at `start`.
pub open spec fn value_at(data: Seq<u8>, start: int, ty: RegisterType) -> RegisterValue {
    match ty {
        RegisterType::Int8 => RegisterValue::I8(data[start] as i8),
        RegisterType::Int16 => RegisterValue::I16(le_i16(data[start], data[start + 1])),
        RegisterType::Int32 => RegisterValue::I32(
            le_u32(data[start], data[start + 1], data[start + 2], data[start + 3]) as i32,
        ),
        RegisterType::Float => RegisterValue::F32Bits(
            le_u32(data[start], data[start + 1], data[start + 2], data[start + 3]),
        ),
    }
}

/// The `k`-th entry of a reply pair whose values start at `body`: address
/// `addr + k` (mod 256) and its value.
pub open spec fn reply_entry(data: Seq<u8>, body: int, addr: u8, ty: RegisterType, k: int) -> (
    u8,
    RegisterValue,
) {
    (((addr + k) % 256) as u8, value_at(data, body + k * register_type_size(ty), ty))
}

/// The entries of a register-read reply from byte `pos` on: each pair is a
/// reply command byte (high nibble `0010`), a start address and `count`
/// values; `None` for anything else or for a pair cut short.
pub open spec fn reply_entries(data: Seq<u8>, pos: int) -> Option<Seq<(u8, RegisterValue)>>
    decreases data.len() - pos,
{
    if pos < 0 || pos >= data.len() {
        Some(Seq::empty())
    } else {
        let cmd = data[pos];
        let ty = register_type_of(cmd >> 2u8);
        let count = (cmd & 3u8) as int;
        let body = pos + 2;
        let next = body + count * register_type_size(ty);
        if cmd & 0xF0u8 != 0x20u8 || pos + 1 >= data.len() || count == 0 || next > data.len() {
            None
        } else {
            match reply_entries(data, next) {
                Some(rest) => Some(
                    Seq::new(count as nat, |k: int| reply_entry(data, body, data[pos + 1], ty, k))
                        + rest,
                ),
                None => None,
            }
        }
    }
}

/// `prefix` put in front of an optional sequence.
pub open spec fn prepend<A>(prefix: Seq<A>, o: Option<Seq<A>>) -> Option<Seq<A>> {
    match o {
        Some(s) => Some(prefix + s),
        None => None,
    }
}

proof fn lemma_prepend_assoc<A>(a: Seq<A>, b: Seq<A>, o: Option<Seq<A>>)
    ensures
        prepend(a, prepend(b, o)) == prepend(a + b, o),
{
    if let Some(s) = o {
        assert((a + b) + s =~= a + (b + s));
    }
}

fn le_u32_of(b0: u8, b1: u8, b2: u8, b3: u8) -> (r: u32)
    ensures
        r == le_u32(b0, b1, b2, b3),
{
    (b3 as u32) << 24 | (b2 as u32) << 16 | (b1 as u32) << 8 | (b0 as u32)
}

fn read_value(data: &[u8], start: usize, ty: RegisterType) -> (r: RegisterValue)
    requires
        start + register_type_size(ty) <= data@.len(),
    ensures
        r == value_at(data@, start as int, ty),
{
    match ty {
        RegisterType::Int8 => RegisterValue::I8(data[start] as i8),
        RegisterType::Int16 => RegisterValue::I16(le_i16_of(data[start], data[start + 1])),
        RegisterType::Int32 => RegisterValue::I32(
            le_u32_of(data[start], data[start + 1], data[start + 2], data[start + 3]) as i32,
        ),
        RegisterType::Float => RegisterValue::F32Bits(
            le_u32_of(data[start], data[start + 1], data[start + 2], data[start + 3]),
        ),
    }
}

/// Decode a register-read reply into `(address, value)` entries, the
/// addresses of each pair counting up from its start address. `None` when
/// a pair does not start with a reply command byte, has a count of 0, or is
/// cut short.
pub fn decode_register_reply(data: &[u8]) -> (r: Option<Vec<(u8, RegisterValue)>>)
    ensures
        match r {
            Some(v) => reply_entries(data@, 0) == Some(v@),
            None => reply_entries(data@, 0) is None,
        },
{
    let mut out: Vec<(u8, RegisterValue)> = Vec::new();
    let mut pos: usize = 0;
    assert(out@ + Seq::<(u8, RegisterValue)>::empty() =~= out@);
    while pos < data.len()
        invariant
            pos <= data@.len(),
            reply_entries(data@, 0) == prepend(out@, reply_entries(data@, pos as int)),
        decreases data@.len() - pos,
    {
        let cmd = data[pos];
        if cmd & 0xF0 != 0x20 {
            return None;
        }
        if pos + 1 >= data.len() {
            return None;
        }
        let addr = data[pos + 1];
        let ty = match RegisterType::from_cmd_bits((cmd >> 2) & 0b11) {
            Some(t) => t,
            None => {
                return None;
            },
        };
        assert(register_type_of((cmd >> 2u8) & 3u8) == register_type_of(cmd >> 2u8)) by {
            assert(((cmd >> 2u8) & 3u8) & 3u8 == (cmd >> 2u8) & 3u8) by (bit_vector);
        }
        assert(cmd & 3u8 <= 3u8) by (bit_vector);
        let count = (cmd & 0b11) as usize;
        if count == 0 {
            return None;
        }
        let size = ty.size();
        assert(count * size <= 12) by (nonlinear_arith)
            requires
                count <= 3,
                size <= 4,
        ;
        let body = pos + 2;
        if data.len() - body < count * size {
            return None;
        }
        let ghost before = out@;
        let mut i: usize = 0;
        while i < count
            invariant
                i <= count <= 3,
                size == register_type_size(ty),
                count * size <= 12,
                data@.len() == data.len(),
                body + count * size <= data.len(),
                out@ =~= before + Seq::new(i as nat, |k: int| reply_entry(data@, body as int, addr, ty, k)),
            decreases count - i,
        {
            assert(i * size + size <= count * size) by (nonlinear_arith)
                requires
                    i < count,
            ;
            let off = i * size;
            assert(body + off + size <= data@.len());
            let start = body + off;
            let v = read_value(data, start, ty);
            let a = addr.wrapping_add(i as u8);
            assert(a == ((addr + i) % 256) as u8);
            out.push((a, v));
            i = i + 1;
        }
        proof {
            let chunk = Seq::new(count as nat, |k: int| reply_entry(data@, body as int, addr, ty, k));
            lemma_prepend_assoc(before, chunk, reply_entries(data@, body + count * size));
        }
        pos = body + count * size;
    }
    Some(out)
}

// ---------------------------------------------------------------------------
// A reply mirrors its request
// ---------------------------------------------------------------------------

/// The reply command byte of a request: its type and count under the reply
/// nibble `0010`.
pub open spec fn reply_cmd_byte(c: ReadCmd) -> u8 {
    0x20u8 | (register_type_bits(c.ty) << 2u8) | (c.count & 3u8)
}

/// The little-endian bytes of a `u32`.
pub open spec fn le_bytes_u32(w: u32) -> Seq<u8> {
    seq![
        (w & 0xFFu32) as u8,
        ((w >> 8u32) & 0xFFu32) as u8,
        ((w >> 16u32) & 0xFFu32) as u8,
        ((w >> 24u32) & 0xFFu32) as u8,
    ]
}

/// The little-endian bytes of a register value.
pub open spec fn value_bytes(v: RegisterValue) -> Seq<u8> {
    match v {
        RegisterValue::I8(x) => seq![x as u8],
        RegisterValue::I16(x) => le_bytes_i16(x),
        RegisterValue::I32(x) => le_bytes_u32(x as u32),
        RegisterValue::F32Bits(b) => le_bytes_u32(b),
    }
}

/// Whether a value is of a register type.
pub open spec fn value_has_type(v: RegisterValue, ty: RegisterType) -> bool {
    match v {
        RegisterValue::I8(_) => ty == RegisterType::Int8,
        RegisterValue::I16(_) => ty == RegisterType::Int16,
        RegisterValue::I32(_) => ty == RegisterType::Int32,
        RegisterValue::F32Bits(_) => ty == RegisterType::Float,
    }
}

/// The bytes of a run of values, one after the other.
pub open spec fn values_bytes(vs: Seq<RegisterValue>) -> Seq<u8>
    decreases vs.len(),
{
    if vs.len() == 0 {
        Seq::empty()
    } else {
        value_bytes(vs[0]) + values_bytes(vs.drop_first())
    }
}

/// The bytes of a reply to the requests `cmds`, `vals[k]` answering
/// `cmds[k]`.
pub open spec fn reply_bytes(cmds: Seq<ReadCmd>, vals: Seq<Seq<RegisterValue>>) -> Seq<u8>
    decreases cmds.len(),
{
    if cmds.len() == 0 || vals.len() == 0 {
        Seq::empty()
    } else {
        seq![reply_cmd_byte(cmds[0]), cmds[0].addr] + values_bytes(vals[0]) + reply_bytes(
            cmds.drop_first(),
            vals.drop_first(),
        )
    }
}

/// The entries such a reply stands for: for each request, its values at
/// consecutive addresses from its start address.
pub open spec fn requested_entries(cmds: Seq<ReadCmd>, vals: Seq<Seq<RegisterValue>>) -> Seq<(u8, RegisterValue)>
    decreases cmds.len(),
{
    if cmds.len() == 0 || vals.len() == 0 {
        Seq::empty()
    } else {
        Seq::new(
            cmds[0].count as nat,
            |i: int| (((cmds[0].addr + i) % 256) as u8, vals[0][i]),
        ) + requested_entries(cmds.drop_first(), vals.drop_first())
    }
}

/// Whether `vals` answers `cmds`: one run per request, as many values as it
/// asks for, each of its type.
pub open spec fn answers(cmds: Seq<ReadCmd>, vals: Seq<Seq<RegisterValue>>) -> bool {
    &&& cmds.len() == vals.len()
    &&& read_counts_valid(cmds)
    &&& forall|k: int| 0 <= k < cmds.len() ==> (#[trigger] vals[k]).len() == cmds[k].count
    &&& forall|k: int, i: int|
        0 <= k < cmds.len() && 0 <= i < vals[k].len() ==> value_has_type(
            #[trigger] vals[k][i],
            cmds[k].ty,
        )
}

proof fn lemma_value_bytes_len(v: RegisterValue, ty: RegisterType)
    requires
        value_has_type(v, ty),
    ensures
        value_bytes(v).len() == register_type_size(ty),
{
}

proof fn lemma_values_bytes(vs: Seq<RegisterValue>, ty: RegisterType)
    requires
        forall|i: int| 0 <= i < vs.len() ==> value_has_type(#[trigger] vs[i], ty),
    ensures
        values_bytes(vs).len() == vs.len() * register_type_size(ty),
        forall|k: int, t: int|
            0 <= k < vs.len() && 0 <= t < register_type_size(ty) ==> values_bytes(vs)[k
                * register_type_size(ty) + t] == #[trigger] value_bytes(#[trigger] vs[k])[t],
    decreases vs.len(),
{
    let size = register_type_size(ty) as int;
    if vs.len() > 0 {
        let rest = vs.drop_first();
        lemma_values_bytes(rest, ty);
        lemma_value_bytes_len(vs[0], ty);
        assert(vs.len() * size == size + rest.len() * size) by (nonlinear_arith)
            requires
                rest.len() == vs.len() - 1,
        ;
        assert forall|k: int, t: int|
            0 <= k < vs.len() && 0 <= t < size implies values_bytes(vs)[k * size + t]
                == #[trigger] value_bytes(#[trigger] vs[k])[t] by {
            if k > 0 {
                assert(k * size + t == size + ((k - 1) * size + t)) by (nonlinear_arith);
                assert(0 <= (k - 1) * size) by (nonlinear_arith)
                    requires
                        k >= 1,
                        size >= 1,
                ;
                assert(rest[k - 1] == vs[k]);
            }
        }
    }
}

/// Reading back the bytes of a value gives the value.
proof fn lemma_value_at_bytes(d: Seq<u8>, s: int, v: RegisterValue, ty: RegisterType)
    requires
        value_has_type(v, ty),
        0 <= s,
        s + register_type_size(ty) <= d.len(),
        forall|t: int| 0 <= t < register_type_size(ty) ==> d[s + t] == #[trigger] value_bytes(v)[t],
    ensures
        value_at(d, s, ty) == v,
{
    match v {
        RegisterValue::I8(x) => {
            assert(d[s + 0] == value_bytes(v)[0]);
            assert((x as u8) as i8 == x) by (bit_vector);
        },
        RegisterValue::I16(x) => {
            assert(d[s + 0] == value_bytes(v)[0]);
            assert(d[s + 1] == value_bytes(v)[1]);
            law_le_i16_round_trip(x);
        },
        RegisterValue::I32(x) => {
            assert(d[s + 0] == value_bytes(v)[0]);
            assert(d[s + 1] == value_bytes(v)[1]);
            assert(d[s + 2] == value_bytes(v)[2]);
            assert(d[s + 3] == value_bytes(v)[3]);
            let w = x as u32;
            assert((((((w >> 24u32) & 0xFFu32) as u8) as u32) << 24u32 | ((((w >> 16u32) & 0xFFu32)
                as u8) as u32) << 16u32 | ((((w >> 8u32) & 0xFFu32) as u8) as u32) << 8u32 | (((w
                & 0xFFu32) as u8) as u32)) == w) by (bit_vector);
            assert((x as u32) as i32 == x) by (bit_vector);
        },
        RegisterValue::F32Bits(w) => {
            assert(d[s + 0] == value_bytes(v)[0]);
            assert(d[s + 1] == value_bytes(v)[1]);
            assert(d[s + 2] == value_bytes(v)[2]);
            assert(d[s + 3] == value_bytes(v)[3]);
            assert((((((w >> 24u32) & 0xFFu32) as u8) as u32) << 24u32 | ((((w >> 16u32) & 0xFFu32)
                as u8) as u32) << 16u32 | ((((w >> 8u32) & 0xFFu32) as u8) as u32) << 8u32 | (((w
                & 0xFFu32) as u8) as u32)) == w) by (bit_vector);
        },
    }
}

/// Decoding does not look at what comes before the position it starts at.
proof fn lemma_reply_entries_shift(p: Seq<u8>, r: Seq<u8>, q: int)
    requires
        0 <= q,
    ensures
        reply_entries(p + r, p.len() + q) == reply_entries(r, q),
    decreases r.len() - q,
{
    let d = p + r;
    let pos = p.len() + q;
    if q < r.len() {
        assert(d[pos] == r[q]);
        let cmd = r[q];
        let ty = register_type_of(cmd >> 2u8);
        let count = (cmd & 3u8) as int;
        let next = q + 2 + count * register_type_size(ty);
        if !(cmd & 0xF0u8 != 0x20u8 || q + 1 >= r.len() || count == 0 || next > r.len()) {
            assert(d[pos + 1] == r[q + 1]);
            assert(p.len() + next == pos + 2 + count * register_type_size(ty));
            lemma_reply_entries_shift(p, r, next);
            let size = register_type_size(ty) as int;
            assert(count * size >= 0) by (nonlinear_arith)
                requires
                    count >= 0,
                    size >= 0,
            ;
            assert forall|k: int| 0 <= k < count implies #[trigger] reply_entry(
                d,
                pos + 2,
                d[pos + 1],
                ty,
                k,
            ) == reply_entry(r, q + 2, r[q + 1], ty, k) by {
                assert(k * size + size <= count * size) by (nonlinear_arith)
                    requires
                        0 <= k < count,
                        size >= 0,
                ;
                assert(0 <= k * size) by (nonlinear_arith)
                    requires
                        0 <= k,
                        size >= 0,
                ;
                let s = q + 2 + k * size;
                assert(d[p.len() + s] == r[s]);
                if size >= 2 {
                    assert(d[p.len() + s + 1] == r[s + 1]);
                }
                if size >= 4 {
                    assert(d[p.len() + s + 2] == r[s + 2]);
                    assert(d[p.len() + s + 3] == r[s + 3]);
                }
            }
            assert(Seq::new(count as nat, |k: int| reply_entry(d, pos + 2, d[pos + 1], ty, k))
                =~= Seq::new(count as nat, |k: int| reply_entry(r, q + 2, r[q + 1], ty, k)));
        } else if q + 1 < r.len() {
            assert(d[pos + 1] == r[q + 1]);
        }
    }
}

/// A reply to register read requests decodes to the values asked for, each
/// run at consecutive addresses from its request's start address: the
/// reply mirrors the request.
pub proof fn law_register_reply_mirrors_request(cmds: Seq<ReadCmd>, vals: Seq<Seq<RegisterValue>>)
    requires
        answers(cmds, vals),
    ensures
        reply_entries(reply_bytes(cmds, vals), 0) == Some(requested_entries(cmds, vals)),
    decreases cmds.len(),
{
    if cmds.len() > 0 {
        let c = cmds[0];
        let vs = vals[0];
        let ty = c.ty;
        let size = register_type_size(ty) as int;
        let rc = cmds.drop_first();
        let rv = vals.drop_first();
        assert(answers(rc, rv)) by {
            assert forall|k: int| 0 <= k < rc.len() implies (#[trigger] rv[k]).len() == rc[k].count by {
                assert(rv[k] == vals[k + 1] && rc[k] == cmds[k + 1]);
            }
            assert forall|k: int, i: int|
                0 <= k < rc.len() && 0 <= i < rv[k].len() implies value_has_type(
                #[trigger] rv[k][i],
                rc[k].ty,
            ) by {
                assert(rv[k] == vals[k + 1] && rc[k] == cmds[k + 1]);
            }
            assert forall|k: int| 0 <= k < rc.len() implies 1 <= #[trigger] rc[k].count <= 3 by {
                assert(rc[k] == cmds[k + 1]);
            }
        }
        law_register_reply_mirrors_request(rc, rv);
        assert(1 <= c.count <= 3);
        assert(vs.len() == c.count);
        assert forall|i: int| 0 <= i < vs.len() implies value_has_type(#[trigger] vs[i], ty) by {
            assert(value_has_type(vals[0][i], cmds[0].ty));
        }
        lemma_values_bytes(vs, ty);
        let head = seq![reply_cmd_byte(c), c.addr] + values_bytes(vs);
        let rest = reply_bytes(rc, rv);
        let d = reply_bytes(cmds, vals);
        assert(d == head + rest);
        let b = register_type_bits(ty);
        let cnt = c.count;
        law_register_type_bits_round_trip(ty);
        assert(b < 4 && 1 <= cnt <= 3 ==> ((0x20u8 | (b << 2u8) | (cnt & 3u8)) & 0xF0u8) == 0x20u8
            && (((0x20u8 | (b << 2u8) | (cnt & 3u8)) >> 2u8) & 3u8) == b && ((0x20u8 | (b << 2u8)
            | (cnt & 3u8)) & 3u8) == cnt) by (bit_vector);
        let cmd = reply_cmd_byte(c);
        assert(d[0] == cmd);
        assert(d[1] == c.addr);
        assert(register_type_of(cmd >> 2u8) == ty);
        assert(head.len() == 2 + cnt * size);
        lemma_reply_entries_shift(head, rest, 0);
        assert(head.len() + 0 == 2 + cnt * size);
        assert forall|k: int| 0 <= k < cnt implies #[trigger] reply_entry(d, 2, c.addr, ty, k) == (
        ((c.addr + k) % 256) as u8,
        vs[k],
        ) by {
            assert(k * size + size <= cnt * size) by (nonlinear_arith)
                requires
                    0 <= k < cnt,
                    size >= 0,
            ;
            assert(0 <= k * size) by (nonlinear_arith)
                requires
                    0 <= k,
                    size >= 0,
            ;
            assert forall|t: int| 0 <= t < size implies d[2 + k * size + t] == #[trigger] value_bytes(
                vs[k],
            )[t] by {
                assert(d[2 + k * size + t] == values_bytes(vs)[k * size + t]);
            }
            lemma_value_at_bytes(d, 2 + k * size, vs[k], ty);
        }
        assert(Seq::new(cnt as nat, |k: int| reply_entry(d, 2, d[1], ty, k)) =~= Seq::new(
            c.count as nat,
            |i: int| (((c.addr + i) % 256) as u8, vs[i]),
        ));
    }
}

// ---------------------------------------------------------------------------
// Register table
// ---------------------------------------------------------------------------

/// Register metadata: address (0x00-0x45), name, whether it is writable,
/// and its data type where the firmware confirms it (`None`: the reader
/// names the type).
#[derive(Debug, Clone, Copy)]
pub struct RegisterInfo {
    pub addr: u8,
    pub name: &'static str,
    pub writable: bool,
    pub ty: Option<RegisterType>,
}

/// A register entry as compared: address, name, writable, type.
pub open spec fn register_info_view(i: RegisterInfo) -> (u8, Seq<char>, bool, Option<RegisterType>) {
    (i.addr, i.name@, i.writable, i.ty)
}

/// The register table, by ascending address.
pub open spec fn parameter_table_spec() -> Seq<(u8, Seq<char>, bool, Option<RegisterType>)> {
    seq![
        (0x00u8, "模式"@, true, None),
        (0x01u8, "位置"@, false, Some(RegisterType::Int16)),
        (0x02u8, "速度"@, false, Some(RegisterType::Int16)),
        (0x03u8, "转矩"@, false, Some(RegisterType::Int16)),
        (0x04u8, "Q 相电流"@, false, None),
        (0x05u8, "D 相电流"@, false, None),
        (0x06u8, "保留"@, false, None),
        (0x0Du8, "电压"@, false, None),
        (0x0Eu8, "温度"@, false, None),
        (0x0Fu8, "错误代码"@, false, None),
        (0x10u8, "PWM 相位 A"@, true, None),
        (0x11u8, "PWM 相位 B"@, true, None),
        (0x12u8, "PWM 相位 C"@, true, None),
        (0x14u8, "电压相位 A"@, true, None),
        (0x15u8, "电压相位 B"@, true, None),
        (0x16u8, "电压相位 C"@, true, None),
        (0x18u8, "电压 FOC 角度"@, true, None),
        (0x19u8, "电压 FOC 电压"@, true, None),
        (0x1Au8, "D 电压"@, true, None),
        (0x1Bu8, "Q 电压"@, true, None),
        (0x1Cu8, "Q 电流"@, true, None),
        (0x1Du8, "D 电流"@, true, None),
        (0x20u8, "位置指令"@, true, None),
        (0x21u8, "速度命令"@, true, None),
        (0x22u8, "前馈扭矩"@, true, None),
        (0x23u8, "Kp 比例"@, true, None),
        (0x24u8, "Kd 比例"@, true, None),
        (0x25u8, "最大扭矩"@, true, None),
        (0x26u8, "停止位置"@, true, None),
        (0x27u8, "保留"@, false, None),
        (0x28u8, "速度限制"@, true, None),
        (0x29u8, "加速度限制"@, true, None),
        (0x2Bu8, "Kp"@, true, None),
        (0x2Cu8, "Kd"@, true, None),
        (0x2Du8, "Ki"@, true, None),
        (0x30u8, "比例扭矩"@, false, None),
        (0x31u8, "积分扭矩"@, false, None),
        (0x32u8, "微分扭矩"@, false, None),
        (0x33u8, "前馈扭矩"@, false, None),
        (0x34u8, "总控制扭矩"@, false, None),
        (0x40u8, "下限"@, true, None),
        (0x41u8, "上限"@, true, None),
        (0x42u8, "前馈扭矩(映射 0x22)"@, false, None),
        (0x43u8, "Kp 比例(映射 0x23)"@, false, None),
        (0x44u8, "Kd 比例(映射 0x24)"@, false, None),
        (0x45u8, "最大扭矩(映射 0x25)"@, false, None),
    ]
}

/// The register table, by ascending address.
pub fn parameter_table() -> (r: Vec<RegisterInfo>)
    ensures
        r@.len() == parameter_table_spec().len(),
        forall|i: int|
            0 <= i < r@.len() ==> register_info_view(#[trigger] r@[i]) == parameter_table_spec()[i],
{
    let mut t: Vec<RegisterInfo> = Vec::new();
    t.push(RegisterInfo { addr: 0x00, name: "模式", writable: true, ty: None });
    t.push(RegisterInfo { addr: 0x01, name: "位置", writable: false, ty: Some(RegisterType::Int16) });
    t.push(RegisterInfo { addr: 0x02, name: "速度", writable: false, ty: Some(RegisterType::Int16) });
    t.push(RegisterInfo { addr: 0x03, name: "转矩", writable: false, ty: Some(RegisterType::Int16) });
    t.push(RegisterInfo { addr: 0x04, name: "Q 相电流", writable: false, ty: None });
    t.push(RegisterInfo { addr: 0x05, name: "D 相电流", writable: false, ty: None });
    t.push(RegisterInfo { addr: 0x06, name: "保留", writable: false, ty: None });
    t.push(RegisterInfo { addr: 0x0D, name: "电压", writable: false, ty: None });
    t.push(RegisterInfo { addr: 0x0E, name: "温度", writable: false, ty: None });
    t.push(RegisterInfo { addr: 0x0F, name: "错误代码", writable: false, ty: None });
    t.push(RegisterInfo { addr: 0x10, name: "PWM 相位 A", writable: true, ty: None });
    t.push(RegisterInfo { addr: 0x11, name: "PWM 相位 B", writable: true, ty: None });
    t.push(RegisterInfo { addr: 0x12, name: "PWM 相位 C", writable: true, ty: None });
    t.push(RegisterInfo { addr: 0x14, name: "电压相位 A", writable: true, ty: None });
    t.push(RegisterInfo { addr: 0x15, name: "电压相位 B", writable: true, ty: None });
    t.push(RegisterInfo { addr: 0x16, name: "电压相位 C", writable: true, ty: None });
    t.push(RegisterInfo { addr: 0x18, name: "电压 FOC 角度", writable: true, ty: None });
    t.push(RegisterInfo { addr: 0x19, name: "电压 FOC 电压", writable: true, ty: None });
    t.push(RegisterInfo { addr: 0x1A, name: "D 电压", writable: true, ty: None });
    t.push(RegisterInfo { addr: 0x1B, name: "Q 电压", writable: true, ty: None });
    t.push(RegisterInfo { addr: 0x1C, name: "Q 电流", writable: true, ty: None });
    t.push(RegisterInfo { addr: 0x1D, name: "D 电流", writable: true, ty: None });
    t.push(RegisterInfo { addr: 0x20, name: "位置指令", writable: true, ty: None });
    t.push(RegisterInfo { addr: 0x21, name: "速度命令", writable: true, ty: None });
    t.push(RegisterInfo { addr: 0x22, name: "前馈扭矩", writable: true, ty: None });
    t.push(RegisterInfo { addr: 0x23, name: "Kp 比例", writable: true, ty: None });
    t.push(RegisterInfo { addr: 0x24, name: "Kd 比例", writable: true, ty: None });
    t.push(RegisterInfo { addr: 0x25, name: "最大扭矩", writable: true, ty: None });
    t.push(RegisterInfo { addr: 0x26, name: "停止位置", writable: true, ty: None });
    t.push(RegisterInfo { addr: 0x27, name: "保留", writable: false, ty: None });
    t.push(RegisterInfo { addr: 0x28, name: "速度限制", writable: true, ty: None });
    t.push(RegisterInfo { addr: 0x29, name: "加速度限制", writable: true, ty: None });
    t.push(RegisterInfo { addr: 0x2B, name: "Kp", writable: true, ty: None });
    t.push(RegisterInfo { addr: 0x2C, name: "Kd", writable: true, ty: None });
    t.push(RegisterInfo { addr: 0x2D, name: "Ki", writable: true, ty: None });
    t.push(RegisterInfo { addr: 0x30, name: "比例扭矩", writable: false, ty: None });
    t.push(RegisterInfo { addr: 0x31, name: "积分扭矩", writable: false, ty: None });
    t.push(RegisterInfo { addr: 0x32, name: "微分扭矩", writable: false, ty: None });
    t.push(RegisterInfo { addr: 0x33, name: "前馈扭矩", writable: false, ty: None });
    t.push(RegisterInfo { addr: 0x34, name: "总控制扭矩", writable: false, ty: None });
    t.push(RegisterInfo { addr: 0x40, name: "下限", writable: true, ty: None });
    t.push(RegisterInfo { addr: 0x41, name: "上限", writable: true, ty: None });
    t.push(RegisterInfo { addr: 0x42, name: "前馈扭矩(映射 0x22)", writable: false, ty: None });
    t.push(RegisterInfo { addr: 0x43, name: "Kp 比例(映射 0x23)", writable: false, ty: None });
    t.push(RegisterInfo { addr: 0x44, name: "Kd 比例(映射 0x24)", writable: false, ty: None });
    t.push(RegisterInfo { addr: 0x45, name: "最大扭矩(映射 0x25)", writable: false, ty: None });
    assert(t@.len() == parameter_table_spec().len());
    t
}

/// Look a register up by address.
pub fn parameter_info(addr: u8) -> (r: Option<RegisterInfo>)
    ensures
        r matches Some(info) ==> exists|i: int|
            0 <= i < parameter_table_spec().len() && parameter_table_spec()[i] == register_info_view(info)
                && info.addr == addr,
        r is None <==> forall|i: int|
            0 <= i < parameter_table_spec().len() ==> (#[trigger] parameter_table_spec()[i]).0 != addr,
{
    let t = parameter_table();
    let mut i: usize = 0;
    while i < t.len()
        invariant
            i <= t@.len() == parameter_table_spec().len(),
            forall|k: int|
                0 <= k < t@.len() ==> register_info_view(#[trigger] t@[k]) == parameter_table_spec()[k],
            forall|k: int| 0 <= k < i ==> (#[trigger] parameter_table_spec()[k]).0 != addr,
        decreases t@.len() - i,
    {
        let info = t[i];
        if info.addr == addr {
            assert(register_info_view(t@[i as int]) == parameter_table_spec()[i as int]);
            return Some(info);
        }
        assert(register_info_view(t@[i as int]) == parameter_table_spec()[i as int]);
        i = i + 1;
    }
    None
}

proof fn lemma_increasing(s: Seq<(u8, Seq<char>, bool, Option<RegisterType>)>, i: int, j: int)
    requires
        forall|k: int| 0 <= k < s.len() - 1 ==> (#[trigger] s[k]).0 < s[k + 1].0,
        0 <= i < j < s.len(),
    ensures
        s[i].0 < s[j].0,
    decreases j - i,
{
    if j > i + 1 {
        lemma_increasing(s, i, j - 1);
        assert(s[j - 1].0 < s[j].0);
    }
}

/// No two registers share an address: the table's addresses strictly
/// increase, so a lookup by address finds exactly one entry or none.
pub proof fn law_parameter_addresses_unique()
    ensures
        forall|i: int, j: int|
            0 <= i < j < parameter_table_spec().len() ==> #[trigger] parameter_table_spec()[i].0
                < #[trigger] parameter_table_spec()[j].0,
{
    let s = parameter_table_spec();
    assert(s[0].0 < s[1].0);
    assert(s[1].0 < s[2].0);
    assert(s[2].0 < s[3].0);
    assert(s[3].0 < s[4].0);
    assert(s[4].0 < s[5].0);
    assert(s[5].0 < s[6].0);
    assert(s[6].0 < s[7].0);
    assert(s[7].0 < s[8].0);
    assert(s[8].0 < s[9].0);
    assert(s[9].0 < s[10].0);
    assert(s[10].0 < s[11].0);
    assert(s[11].0 < s[12].0);
    assert(s[12].0 < s[13].0);
    assert(s[13].0 < s[14].0);
    assert(s[14].0 < s[15].0);
    assert(s[15].0 < s[16].0);
    assert(s[16].0 < s[17].0);
    assert(s[17].0 < s[18].0);
    assert(s[18].0 < s[19].0);
    assert(s[19].0 < s[20].0);
    assert(s[20].0 < s[21].0);
    assert(s[21].0 < s[22].0);
    assert(s[22].0 < s[23].0);
    assert(s[23].0 < s[24].0);
    assert(s[24].0 < s[25].0);
    assert(s[25].0 < s[26].0);
    assert(s[26].0 < s[27].0);
    assert(s[27].0 < s[28].0);
    assert(s[28].0 < s[29].0);
    assert(s[29].0 < s[30].0);
    assert(s[30].0 < s[31].0);
    assert(s[31].0 < s[32].0);
    assert(s[32].0 < s[33].0);
    assert(s[33].0 < s[34].0);
    assert(s[34].0 < s[35].0);
    assert(s[35].0 < s[36].0);
    assert(s[36].0 < s[37].0);
    assert(s[37].0 < s[38].0);
    assert(s[38].0 < s[39].0);
    assert(s[39].0 < s[40].0);
    assert(s[40].0 < s[41].0);
    assert(s[41].0 < s[42].0);
    assert(s[42].0 < s[43].0);
    assert(s[43].0 < s[44].0);
    assert(s[44].0 < s[45].0);
    assert forall|i: int, j: int| 0 <= i < j < s.len() implies #[trigger] s[i].0 < #[trigger] s[j].0 by {
        lemma_increasing(s, i, j);
    }
}

// ---------------------------------------------------------------------------
// Command frames
// ---------------------------------------------------------------------------

/// Identifier prefix of an MIT command frame (`0x18000 | motor_id`).
pub const MIT_ID_PREFIX: u32 = 0x18000;

/// The little-endian bytes of an `int16`.
pub open spec fn le_bytes_i16(v: i16) -> Seq<u8> {
    seq![((v as u16) & 0xFFu16) as u8, ((v as u16) >> 8u16) as u8]
}

/// Writing an `int16` little-endian and reading it back gives it unchanged.
pub proof fn law_le_i16_round_trip(v: i16)
    ensures
        le_i16(le_bytes_i16(v)[0], le_bytes_i16(v)[1]) == v,
{
    assert(((((((v as u16) >> 8u16) as u8) as u16) << 8u16) | ((((v as u16) & 0xFFu16) as u8)
        as u16)) as i16 == v) by (bit_vector);
}

fn le_bytes_of(v: i16) -> (r: (u8, u8))
    ensures
        seq![r.0, r.1] == le_bytes_i16(v),
{
    (((v as u16) & 0xFF) as u8, ((v as u16) >> 8) as u8)
}

/// A frame to send: the payload's first bytes (at most 8) padded with
/// zeros, the length code capped at 8.
pub open spec fn out_frame(arbitration_id: u32, payload: Seq<u8>, dlc: u8, is_extended: bool) -> FrameView {
    FrameView {
        arbitration_id,
        data: padded8(payload.take(if payload.len() < 8 { payload.len() as int } else { 8 })),
        dlc: if dlc < 8 { dlc } else { 8 },
        is_extended,
        is_rx: false,
    }
}

/// A frame to send (what the motor driver's `send_raw` builds).
pub fn raw_frame(arbitration_id: u32, payload: &[u8], dlc: u8, is_extended: bool) -> (r: CanFrame)
    ensures
        r@ == out_frame(arbitration_id, payload@, dlc, is_extended),
{
    let n = if payload.len() < 8 { payload.len() } else { 8 };
    let mut data = [0u8; 8];
    let mut i: usize = 0;
    while i < n
        invariant
            n <= 8,
            n <= payload@.len(),
            i <= n,
            forall|k: int| 0 <= k < i ==> data@[k] == payload@[k],
            forall|k: int| i <= k < 8 ==> data@[k] == 0u8,
        decreases n - i,
    {
        data[i] = payload[i];
        i = i + 1;
    }
    let ghost want = padded8(payload@.take(n as int));
    assert(data@ =~= want);
    CanFrame { arbitration_id, data, dlc: if dlc < 8 { dlc } else { 8 }, is_extended, is_rx: false }
}

/// Identifier of a query or configuration command: `0x8000 | motor_id`,
/// the reply bit set.
pub open spec fn query_id(motor_id: u16) -> u32 {
    (0x8000u16 | motor_id) as u32
}

/// A control command (velocity, position, stop, ...): standard 11-bit
/// frame, identifier the bare motor id.
pub fn control_frame(motor_id: u16, payload: &[u8], dlc: u8) -> (r: CanFrame)
    ensures
        r@ == out_frame(motor_id as u32, payload@, dlc, false),
{
    raw_frame(motor_id as u32, payload, dlc, false)
}

/// A query or configuration command (register read, rezero, store,
/// version): extended 29-bit frame, identifier `0x8000 | motor_id`.
pub fn query_frame(motor_id: u16, payload: &[u8], dlc: u8) -> (r: CanFrame)
    ensures
        r@ == out_frame(query_id(motor_id), payload@, dlc, true),
{
    raw_frame((0x8000u16 | motor_id) as u32, payload, dlc, true)
}

/// An MIT command: extended frame `0x18000 | motor_id`, 8 packed bytes.
pub fn mit_frame(motor_id: u16, data: [u8; 8]) -> (r: CanFrame)
    ensures
        r@ == out_frame(MIT_ID_PREFIX | (motor_id as u32), data@, 8, true),
{
    raw_frame(MIT_ID_PREFIX | (motor_id as u32), &data, 8, true)
}

/// Payload of the cooperative position-velocity-torque command
/// (`0x07 0x35`): velocity, torque, position, each `int16` little-endian.
pub open spec fn pos_vel_tqe_payload_spec(pos_raw: i16, vel_raw: i16, tqe_raw: i16) -> Seq<u8> {
    seq![0x07u8, 0x35u8] + le_bytes_i16(vel_raw) + le_bytes_i16(tqe_raw) + le_bytes_i16(pos_raw)
}

pub fn pos_vel_tqe_payload(pos_raw: i16, vel_raw: i16, tqe_raw: i16) -> (r: [u8; 8])
    ensures
        r@ == pos_vel_tqe_payload_spec(pos_raw, vel_raw, tqe_raw),
{
    let (v0, v1) = le_bytes_of(vel_raw);
    let (t0, t1) = le_bytes_of(tqe_raw);
    let (p0, p1) = le_bytes_of(pos_raw);
    let r = [0x07, 0x35, v0, v1, t0, t1, p0, p1];
    assert(r@ =~= pos_vel_tqe_payload_spec(pos_raw, vel_raw, tqe_raw));
    r
}

/// Payload of the trapezoidal command (`0x07 0x2d`): position, velocity,
/// acceleration, each `int16` little-endian; `0x8000` means no limit.
pub open spec fn pos_vel_acc_payload_spec(pos_raw: i16, vel_raw: i16, acc_raw: i16) -> Seq<u8> {
    seq![0x07u8, 0x2du8] + le_bytes_i16(pos_raw) + le_bytes_i16(vel_raw) + le_bytes_i16(acc_raw)
}

pub fn pos_vel_acc_payload(pos_raw: i16, vel_raw: i16, acc_raw: i16) -> (r: [u8; 8])
    ensures
        r@ == pos_vel_acc_payload_spec(pos_raw, vel_raw, acc_raw),
{
    let (p0, p1) = le_bytes_of(pos_raw);
    let (v0, v1) = le_bytes_of(vel_raw);
    let (a0, a1) = le_bytes_of(acc_raw);
    let r = [0x07, 0x2d, p0, p1, v0, v1, a0, a1];
    assert(r@ =~= pos_vel_acc_payload_spec(pos_raw, vel_raw, acc_raw));
    r
}

/// Payload of the plain position command (`0x07 0x07`): position, `0x0000`,
/// maximum torque; no torque limit is `0x8000`.
pub open spec fn pos_classic_payload_spec(pos_raw: i16, tqe_raw: Option<i16>) -> Seq<u8> {
    let t = match tqe_raw {
        Some(t) => t,
        None => i16::MIN,
    };
    seq![0x07u8, 0x07u8] + le_bytes_i16(pos_raw) + seq![0u8, 0u8] + le_bytes_i16(t)
}

pub fn pos_classic_payload(pos_raw: i16, tqe_raw: Option<i16>) -> (r: [u8; 8])
    ensures
        r@ == pos_classic_payload_spec(pos_raw, tqe_raw),
{
    let t = match tqe_raw {
        Some(t) => t,
        None => i16::MIN,
    };
    let (p0, p1) = le_bytes_of(pos_raw);
    let (t0, t1) = le_bytes_of(t);
    let r = [0x07, 0x07, p0, p1, 0, 0, t0, t1];
    assert(r@ =~= pos_classic_payload_spec(pos_raw, tqe_raw));
    r
}

/// Payload of the velocity command (`0x07 0x07`, position `0x8000` and the
/// mode word `0x20`): velocity at bytes 4-5, torque `0x8000` (no limit).
pub open spec fn vel_payload_spec(vel_raw: i16) -> Seq<u8> {
    seq![0x07u8, 0x07u8, 0x00u8, 0x80u8] + le_bytes_i16(vel_raw) + le_bytes_i16(i16::MIN)
}

pub fn vel_payload(vel_raw: i16) -> (r: [u8; 8])
    ensures
        r@ == vel_payload_spec(vel_raw),
{
    let (v0, v1) = le_bytes_of(vel_raw);
    let (m0, m1) = le_bytes_of(i16::MIN);
    let r = [0x07, 0x07, 0x00, 0x80, v0, v1, m0, m1];
    assert(r@ =~= vel_payload_spec(vel_raw));
    r
}

/// Stop: control frame `0x01 0x00 0x00`.
pub fn stop_frame(motor_id: u16) -> (r: CanFrame)
    ensures
        r@ == out_frame(motor_id as u32, seq![0x01u8, 0x00u8, 0x00u8], 3, false),
{
    let p = [0x01u8, 0x00, 0x00];
    assert(p@ =~= seq![0x01u8, 0x00u8, 0x00u8]);
    control_frame(motor_id, &p, 3)
}

/// Set the current position as zero (in RAM): query frame
/// `0x40 0x01 0x04 0x64 0x20 0x63 0x0A`.
pub fn rezero_frame(motor_id: u16) -> (r: CanFrame)
    ensures
        r@ == out_frame(
            query_id(motor_id),
            seq![0x40u8, 0x01u8, 0x04u8, 0x64u8, 0x20u8, 0x63u8, 0x0Au8],
            7,
            true,
        ),
{
    let p = [0x40u8, 0x01, 0x04, 0x64, 0x20, 0x63, 0x0A];
    assert(p@ =~= seq![0x40u8, 0x01u8, 0x04u8, 0x64u8, 0x20u8, 0x63u8, 0x0Au8]);
    query_frame(motor_id, &p, 7)
}

/// Store the configuration to flash: query frame `0x05 0xB3 0x02 0x00 0x00`.
pub fn store_frame(motor_id: u16) -> (r: CanFrame)
    ensures
        r@ == out_frame(query_id(motor_id), seq![0x05u8, 0xB3u8, 0x02u8, 0x00u8, 0x00u8], 5, true),
{
    let p = [0x05u8, 0xB3, 0x02, 0x00, 0x00];
    assert(p@ =~= seq![0x05u8, 0xB3u8, 0x02u8, 0x00u8, 0x00u8]);
    query_frame(motor_id, &p, 5)
}

/// Ask for the firmware version: query frame `0x15 0xB5 0x02`.
pub fn version_query_frame(motor_id: u16) -> (r: CanFrame)
    ensures
        r@ == out_frame(query_id(motor_id), seq![0x15u8, 0xB5u8, 0x02u8], 3, true),
{
    let p = [0x15u8, 0xB5, 0x02];
    assert(p@ =~= seq![0x15u8, 0xB5u8, 0x02u8]);
    query_frame(motor_id, &p, 3)
}

/// Ask for position, velocity and torque: query frame `0x17 0x01` and six
/// zero bytes.
pub fn feedback_query_frame(motor_id: u16) -> (r: CanFrame)
    ensures
        r@ == out_frame(
            query_id(motor_id),
            seq![0x17u8, 0x01u8, 0u8, 0u8, 0u8, 0u8, 0u8, 0u8],
            8,
            true,
        ),
{
    let p = [0x17u8, 0x01, 0, 0, 0, 0, 0, 0];
    assert(p@ =~= seq![0x17u8, 0x01u8, 0u8, 0u8, 0u8, 0u8, 0u8, 0u8]);
    query_frame(motor_id, &p, 8)
}

/// A register read request frame; `InvalidArgument` when the requests do
/// not fit one frame or a count is not 1-3.
pub fn read_registers_frame(motor_id: u16, cmds: &[ReadCmd]) -> (r: Result<CanFrame, MotorError>)
    ensures
        read_counts_valid(cmds@) && 2 * cmds@.len() <= 8 ==> (r matches Ok(f) && f@ == out_frame(
            query_id(motor_id),
            read_bytes(cmds@),
            (2 * cmds@.len()) as u8,
            true,
        )),
        !(read_counts_valid(cmds@) && 2 * cmds@.len() <= 8) ==> (r matches Err(
            MotorError::InvalidArgument(m),
        ) && m@ == "read_registers: cmd list too long or count out of range"@),
{
    match encode_read(cmds) {
        Some(payload) => {
            let n = payload.len() as u8;
            Ok(query_frame(motor_id, payload.as_slice(), n))
        },
        None => Err(
            MotorError::InvalidArgument(
                String::from_str("read_registers: cmd list too long or count out of range"),
            ),
        ),
    }
}

/// Check a run mode for `ensure_control_mode`: 0-15 are defined (表2),
/// 16 and 17 reserved; anything above is refused.
pub fn validate_run_mode(mode: u32) -> (r: Result<(), MotorError>)
    ensures
        mode <= 17 ==> r is Ok,
        mode > 17 ==> (r matches Err(MotorError::InvalidArgument(m)) && m@
            == "HighTorque run mode must be 0-17 (表2), got "@ + decimal(mode as nat)),
{
    if mode <= 17 {
        Ok(())
    } else {
        let mut m = String::from_str("HighTorque run mode must be 0-17 (表2), got ");
        push_decimal(&mut m, mode as u64);
        Err(MotorError::InvalidArgument(m))
    }
}

// ---------------------------------------------------------------------------
// MIT command bit packing
// ---------------------------------------------------------------------------

/// The 8 bytes of an MIT command from its quantized fields: position 16
/// bits (bytes 0-1), velocity 12 (byte 2, low nibble of byte 3), torque 12
/// (high nibble of byte 3, byte 4), kp 12 (byte 5, low nibble of byte 6),
/// kd 12 (high nibble of byte 6, byte 7).
pub open spec fn mit_packed(pos_u: u16, vel_u: u16, tqe_u: u16, kp_u: u16, kd_u: u16) -> Seq<u8> {
    seq![
        (pos_u & 0xFFu16) as u8,
        ((pos_u >> 8u16) & 0xFFu16) as u8,
        (vel_u & 0xFFu16) as u8,
        (((vel_u >> 8u16) & 0x0Fu16) as u8) | (((tqe_u & 0x0Fu16) as u8) << 4u8),
        ((tqe_u >> 4u16) & 0xFFu16) as u8,
        (kp_u & 0xFFu16) as u8,
        (((kp_u >> 8u16) & 0x0Fu16) as u8) | (((kd_u & 0x0Fu16) as u8) << 4u8),
        ((kd_u >> 4u16) & 0xFFu16) as u8,
    ]
}

/// Pack the quantized fields of an MIT command.
pub fn pack_mit_raw(pos_u: u16, vel_u: u16, tqe_u: u16, kp_u: u16, kd_u: u16) -> (r: [u8; 8])
    ensures
        r@ == mit_packed(pos_u, vel_u, tqe_u, kp_u, kd_u),
{
    let b0 = (pos_u & 0xff) as u8;
    let b1 = ((pos_u >> 8) & 0xff) as u8;
    let b2 = (vel_u & 0xff) as u8;
    let vel_hi = ((vel_u >> 8) & 0x0f) as u8;
    let tqe_lo = (tqe_u & 0x0f) as u8;
    let b3 = vel_hi | (tqe_lo << 4);
    let b4 = ((tqe_u >> 4) & 0xff) as u8;
    let b5 = (kp_u & 0xff) as u8;
    let kp_hi = ((kp_u >> 8) & 0x0f) as u8;
    let kd_lo = (kd_u & 0x0f) as u8;
    let b6 = kp_hi | (kd_lo << 4);
    let b7 = ((kd_u >> 4) & 0xff) as u8;
    let r = [b0, b1, b2, b3, b4, b5, b6, b7];
    assert(r@ =~= mit_packed(pos_u, vel_u, tqe_u, kp_u, kd_u));
    r
}

/// The packing loses nothing of 12-bit fields: each field is read back
/// from its bytes.
pub proof fn law_mit_packing_recoverable(pos_u: u16, vel_u: u16, tqe_u: u16, kp_u: u16, kd_u: u16)
    requires
        vel_u < 4096,
        tqe_u < 4096,
        kp_u < 4096,
        kd_u < 4096,
    ensures
        ({
            let d = mit_packed(pos_u, vel_u, tqe_u, kp_u, kd_u);
            &&& (d[0] as u16) | ((d[1] as u16) << 8u16) == pos_u
            &&& (d[2] as u16) | (((d[3] & 0x0Fu8) as u16) << 8u16) == vel_u
            &&& ((d[3] >> 4u8) as u16) | ((d[4] as u16) << 4u16) == tqe_u
            &&& (d[5] as u16) | (((d[6] & 0x0Fu8) as u16) << 8u16) == kp_u
            &&& ((d[6] >> 4u8) as u16) | ((d[7] as u16) << 4u16) == kd_u
        }),
{
    assert(((pos_u & 0xFFu16) as u8) as u16 | ((((pos_u >> 8u16) & 0xFFu16) as u8) as u16) << 8u16
        == pos_u) by (bit_vector);
    assert(vel_u < 4096 ==> ((vel_u & 0xFFu16) as u8) as u16 | (((((((vel_u >> 8u16) & 0x0Fu16)
        as u8) | (((tqe_u & 0x0Fu16) as u8) << 4u8)) & 0x0Fu8) as u16) << 8u16) == vel_u)
        by (bit_vector);
    assert(tqe_u < 4096 ==> ((((((vel_u >> 8u16) & 0x0Fu16) as u8) | (((tqe_u & 0x0Fu16) as u8)
        << 4u8)) >> 4u8) as u16) | ((((tqe_u >> 4u16) & 0xFFu16) as u8) as u16) << 4u16 == tqe_u)
        by (bit_vector);
    assert(kp_u < 4096 ==> ((kp_u & 0xFFu16) as u8) as u16 | (((((((kp_u >> 8u16) & 0x0Fu16)
        as u8) | (((kd_u & 0x0Fu16) as u8) << 4u8)) & 0x0Fu8) as u16) << 8u16) == kp_u)
        by (bit_vector);
    assert(kd_u < 4096 ==> ((((((kp_u >> 8u16) & 0x0Fu16) as u8) | (((kd_u & 0x0Fu16) as u8)
        << 4u8)) >> 4u8) as u16) | ((((kd_u >> 4u16) & 0xFFu16) as u8) as u16) << 4u16 == kd_u)
        by (bit_vector);
}

// ---------------------------------------------------------------------------
// Routing received frames to a motor
// ---------------------------------------------------------------------------

/// Whether the motor `motor_id` takes a received frame as its feedback: a
/// reply to host 0 from that motor, of 8 bytes (register reply or status),
/// 7 bytes that are a setting ACK, or 5 bytes that are a version reply.
pub open spec fn accepts_spec(motor_id: u16, f: FrameView) -> bool {
    &&& f.is_rx
    &&& reply_motor_id_spec(f.arbitration_id) == Some(motor_id as u8)
    &&& if f.dlc == 8 {
        true
    } else if f.dlc == 7 {
        is_setting_ack_spec(f)
    } else if f.dlc == 5 {
        version_reply_spec(f) is Some
    } else {
        false
    }
}

/// Whether the motor `motor_id` takes a received frame as feedback.
pub fn accepts_frame(motor_id: u16, frame: &CanFrame) -> (r: bool)
    ensures
        r == accepts_spec(motor_id, frame@),
{
    if !frame.is_rx {
        return false;
    }
    match reply_motor_id(frame) {
        Some(id) => {
            if id != motor_id as u8 {
                return false;
            }
        },
        None => {
            return false;
        },
    }
    if frame.dlc == 8 {
        true
    } else if frame.dlc == 7 {
        is_setting_ack(frame)
    } else if frame.dlc == 5 {
        decode_version_reply(frame).is_some()
    } else {
        false
    }
}

/// What a received frame means to the motor `motor_id`.
#[derive(Debug, Clone, Copy, PartialEq, Eq, Structural)]
pub enum FeedbackEvent {
    /// Not for this motor, or nothing it keeps.
    Ignore,
    /// A setting command was acknowledged.
    SettingAck,
    /// New feedback for the motor's state.
    State(FeedbackRaw),
}

/// The meaning of a received frame for the motor `motor_id`: a reply from
/// another motor is ignored; a setting ACK counts as one; feedback whose
/// motor id is this motor's replaces its state.
pub open spec fn feedback_event_spec(motor_id: u16, f: FrameView) -> FeedbackEvent {
    if reply_motor_id_spec(f.arbitration_id) != Some(motor_id as u8) {
        FeedbackEvent::Ignore
    } else if is_setting_ack_spec(f) {
        FeedbackEvent::SettingAck
    } else {
        match feedback_spec(f) {
            Some(s) => if s.can_id as u16 == motor_id {
                FeedbackEvent::State(s)
            } else {
                FeedbackEvent::Ignore
            },
            None => FeedbackEvent::Ignore,
        }
    }
}

/// Classify a received frame for the motor `motor_id`.
pub fn feedback_event(motor_id: u16, frame: &CanFrame) -> (r: FeedbackEvent)
    ensures
        r == feedback_event_spec(motor_id, frame@),
{
    match reply_motor_id(frame) {
        Some(id) => {
            if id != motor_id as u8 {
                return FeedbackEvent::Ignore;
            }
        },
        None => {
            return FeedbackEvent::Ignore;
        },
    }
    if is_setting_ack(frame) {
        return FeedbackEvent::SettingAck;
    }
    match decode_feedback_raw(frame) {
        Some(s) => if s.can_id as u16 == motor_id {
            FeedbackEvent::State(s)
        } else {
            FeedbackEvent::Ignore
        },
        None => FeedbackEvent::Ignore,
    }
}

/// The firmware version a received frame reports for the motor
/// `motor_id`; `None` for a frame from another motor or of another kind.
pub fn version_reply_for(motor_id: u16, frame: &CanFrame) -> (r: Option<FirmwareVersion>)
    ensures
        r == (if reply_motor_id_spec(frame.arbitration_id) == Some(motor_id as u8) {
            version_reply_spec(frame@)
        } else {
            None
        }),
{
    match reply_motor_id(frame) {
        Some(id) => if id == motor_id as u8 {
            decode_version_reply(frame)
        } else {
            None
        },
        None => None,
    }
}

/// The register values a received frame carries for the motor `motor_id`:
/// its first `dlc` bytes decoded as a register-read reply.
pub fn register_reply_for(motor_id: u16, frame: &CanFrame) -> (r: Option<Vec<(u8, RegisterValue)>>)
    requires
        frame.dlc <= 8,
    ensures
        reply_motor_id_spec(frame.arbitration_id) != Some(motor_id as u8) ==> r is None,
        reply_motor_id_spec(frame.arbitration_id) == Some(motor_id as u8) ==> match r {
            Some(v) => reply_entries(frame@.data.take(frame.dlc as int), 0) == Some(v@),
            None => reply_entries(frame@.data.take(frame.dlc as int), 0) is None,
        },
{
    match reply_motor_id(frame) {
        Some(id) => {
            if id != motor_id as u8 {
                return None;
            }
        },
        None => {
            return None;
        },
    }
    let n = frame.dlc as usize;
    let bytes = slice_prefix(&frame.data, n);
    decode_register_reply(bytes.as_slice())
}

fn slice_prefix(data: &[u8; 8], n: usize) -> (r: Vec<u8>)
    requires
        n <= 8,
    ensures
        r@ == data@.take(n as int),
{
    let mut v: Vec<u8> = Vec::new();
    let mut i: usize = 0;
    while i < n
        invariant
            i <= n <= 8,
            v@ =~= data@.take(i as int),
        decreases n - i,
    {
        v.push(data[i]);
        i = i + 1;
    }
    v
}

/// The position/velocity/torque a received frame reports for the motor
/// `motor_id` in answer to a feedback query: a register-read reply whose
/// motor id is this motor's.
pub fn read_reply_for(motor_id: u16, frame: &CanFrame) -> (r: Option<FeedbackRaw>)
    ensures
        r == (match read_reply_spec(frame@) {
            Some(s) => if s.can_id as u16 == motor_id {
                Some(s)
            } else {
                None
            },
            None => None,
        }),
{
    match decode_read_reply_raw(frame) {
        Some(s) => if s.can_id as u16 == motor_id {
            Some(s)
        } else {
            None
        },
        None => None,
    }
}

} // verus!
