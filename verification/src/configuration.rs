//! Link and scan parameters, and the checks that make a loaded
//! configuration fit to drive a sweep.

use vstd::prelude::*;

verus! {

/// Serial-link parameters: baud rate, data bits, parity letter
/// (`"N"`, `"E"` or `"O"`), stop bits and the per-request timeout.
pub struct ModbusConfig {
    pub baud_rate: u32,
    pub data_bits: u8,
    pub parity: String,
    pub stop_bits: u8,
    pub timeout_ms: u64,
}

/// Scan parameters: the candidate address range as a two-element
/// `[start, end]` pair, the register probed on every candidate, how many
/// registers one probe reads, and the settling delay between probes.
pub struct ScanConfig {
    pub scan_id: Vec<u8>,
    pub test_register: u16,
    pub register_count: u16,
    pub scan_delay_ms: u64,
}

/// The whole configuration: log directories, the serial device path,
/// the link parameters and the scan parameters.
pub struct Configuration {
    pub log_dir_dev: String,
    pub log_dir_prod: String,
    pub usb_device: String,
    pub modbus: ModbusConfig,
    pub scan: ScanConfig,
}

/// Why a configuration was rejected; one variant per check, in the order
/// the checks run.
#[derive(Clone, Copy, Debug, PartialEq, Eq, Structural)]
pub enum ConfigError {
    EmptyUsbDevice,
    InvalidDataBits,
    InvalidParity,
    InvalidStopBits,
    ScanIdNotPair,
    StartIdZero,
    EndIdTooLarge,
    StartAfterEnd,
}

/// The parity letter is one of `N` (none), `E` (even), `O` (odd).
pub open spec fn valid_parity(p: Seq<char>) -> bool {
    p == "N"@ || p == "E"@ || p == "O"@
}

/// Link parameters a sweep may run with.
pub open spec fn valid_modbus_config(c: ModbusConfig) -> bool {
    &&& c.data_bits == 7 || c.data_bits == 8
    &&& valid_parity(c.parity@)
    &&& c.stop_bits == 1 || c.stop_bits == 2
}

/// Scan parameters a sweep may run with: the range is a pair
/// `[start, end]` with `1 <= start <= end <= 247`.
pub open spec fn valid_scan_config(c: ScanConfig) -> bool {
    &&& c.scan_id@.len() == 2
    &&& 1 <= c.scan_id@[0]
    &&& c.scan_id@[0] <= c.scan_id@[1]
    &&& c.scan_id@[1] <= 247
}

/// A configuration fit to scan with: a named device, sound link
/// parameters and a sound address range.
pub open spec fn valid_configuration(c: Configuration) -> bool {
    &&& c.usb_device@.len() > 0
    &&& valid_modbus_config(c.modbus)
    &&& valid_scan_config(c.scan)
}

/// What `Configuration::validate` returns: the first failing check's
/// error, or `Ok` when every check passes.
pub open spec fn spec_validate(c: Configuration) -> Result<(), ConfigError> {
    if c.usb_device@.len() == 0 {
        Err(ConfigError::EmptyUsbDevice)
    } else if !(c.modbus.data_bits == 7 || c.modbus.data_bits == 8) {
        Err(ConfigError::InvalidDataBits)
    } else if !valid_parity(c.modbus.parity@) {
        Err(ConfigError::InvalidParity)
    } else if !(c.modbus.stop_bits == 1 || c.modbus.stop_bits == 2) {
        Err(ConfigError::InvalidStopBits)
    } else if c.scan.scan_id@.len() != 2 {
        Err(ConfigError::ScanIdNotPair)
    } else if c.scan.scan_id@[0] == 0 {
        Err(ConfigError::StartIdZero)
    } else if c.scan.scan_id@[1] > 247 {
        Err(ConfigError::EndIdTooLarge)
    } else if c.scan.scan_id@[0] > c.scan.scan_id@[1] {
        Err(ConfigError::StartAfterEnd)
    } else {
        Ok(())
    }
}

impl Configuration {
    /// Check every field against the rules the sweep relies on, reporting
    /// the first violation; `Ok` exactly on configurations the sweep
    /// accepts.
    pub fn validate(&self) -> (r: Result<(), ConfigError>)
        ensures
            r == spec_validate(*self),
            r is Ok <==> valid_configuration(*self),
    {
        if self.usb_device.as_str().is_empty() {
            return Err(ConfigError::EmptyUsbDevice);
        }

        if self.modbus.data_bits != 7 && self.modbus.data_bits != 8 {
            return Err(ConfigError::InvalidDataBits);
        }
        let even: String = "E".to_owned();
        let none: String = "N".to_owned();
        let odd: String = "O".to_owned();
        if !(self.modbus.parity == none || self.modbus.parity == even
            || self.modbus.parity == odd) {
            return Err(ConfigError::InvalidParity);
        }
        if self.modbus.stop_bits != 1 && self.modbus.stop_bits != 2 {
            return Err(ConfigError::InvalidStopBits);
        }

        if self.scan.scan_id.len() != 2 {
            return Err(ConfigError::ScanIdNotPair);
        }
        let start_id: u8 = self.scan.scan_id[0];
        let end_id: u8 = self.scan.scan_id[1];

        if start_id == 0 {
            return Err(ConfigError::StartIdZero);
        }
        if end_id > 247 {
            return Err(ConfigError::EndIdTooLarge);
        }
        if start_id > end_id {
            return Err(ConfigError::StartAfterEnd);
        }

        Ok(())
    }
}

} // verus!
