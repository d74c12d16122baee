//! Host-side protocol logic for CAN-attached motor drivers: frame codecs for
//! the UART bridge and slcan transports, and the vendor wire formats.

pub mod abi;
pub mod bus;
pub mod cli;
pub mod cyberbeast;
pub mod error;
pub mod frame;
pub mod gateway;
pub mod hightorque;
pub mod mcu_serial;
pub mod robstride;
pub mod scan;
pub mod slcan;
pub mod text;
