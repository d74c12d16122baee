use vstd::prelude::*;

verus! {

/// Error kinds reported by the transports and the vendor drivers.
#[derive(Debug)]
pub enum MotorError {
    InvalidArgument(String),
    Io(String),
    Timeout(String),
    Protocol(String),
    Unsupported(String),
    /// MCU link-status snapshot pushed by the UART bridge: a decoded,
    /// human-readable description of a hard CAN-layer fault.
    BusStatus(String),
}

impl MotorError {
    /// The text carried by the error, whatever its kind.
    pub open spec fn spec_message(&self) -> Seq<char> {
        match self {
            MotorError::InvalidArgument(m) => m@,
            MotorError::Io(m) => m@,
            MotorError::Timeout(m) => m@,
            MotorError::Protocol(m) => m@,
            MotorError::Unsupported(m) => m@,
            MotorError::BusStatus(m) => m@,
        }
    }

    /// The human-readable message (what the error displays as).
    pub fn message(&self) -> (r: String)
        ensures
            r@ == self.spec_message(),
    {
        match self {
            MotorError::InvalidArgument(m) => m.clone(),
            MotorError::Io(m) => m.clone(),
            MotorError::Timeout(m) => m.clone(),
            MotorError::Protocol(m) => m.clone(),
            MotorError::Unsupported(m) => m.clone(),
            MotorError::BusStatus(m) => m.clone(),
        }
    }
}

} // verus!
