//! Diagnostic address-space scanner for a request/response field bus reached
//! over a serial line: given link parameters and a candidate address range,
//! probe every candidate with a bounded-time register read and report which
//! addresses answered with data.

pub mod configuration;
pub mod modbus_scanner;
pub mod sweep;
