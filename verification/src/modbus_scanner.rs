//! Per-candidate probe machinery: the link settings one probe runs with,
//! the classification of a probe's outcome, and the scanner that owns the
//! device path and the configured parameters.

use vstd::prelude::*;

use crate::configuration::ModbusConfig as ConfigModbus;
use crate::configuration::ScanConfig;
use crate::configuration::valid_scan_config;
use crate::sweep::SweepController;

verus! {

/// Parity of the serial line, as the link layer understands it.
#[derive(Clone, Copy, Debug, PartialEq, Eq, Structural)]
pub enum Parity {
    NoParity,
    Even,
    Odd,
}

/// Stop bits of the serial line.
#[derive(Clone, Copy, Debug, PartialEq, Eq, Structural)]
pub enum StopBits {
    One,
    Two,
}

/// The link settings one probe runs with: the candidate unit address and
/// the serial parameters already parsed into their link-layer form.
#[derive(Clone, Copy, Debug, PartialEq, Eq, Structural)]
pub struct ModbusConfig {
    pub device_id: u8,
    pub baud_rate: u32,
    pub parity: Parity,
    pub stop_bits: StopBits,
}

/// What one probe came to: whether the read call came back at all, the
/// values it carried if it did, and how long the attempt took.
#[derive(Clone, Debug, PartialEq)]
pub struct ScanResult {
    pub success: bool,
    pub response_data: Option<Vec<u16>>,
    pub response_time_ms: u128,
}

/// Why a probe yielded no response: the port could not be opened, no
/// reply arrived within the bound, or the reply rejected the request.
/// All three count the same at the reporting layer.
#[derive(Clone, Copy, Debug, PartialEq, Eq, Structural)]
pub enum ProbeError {
    TransportOpen,
    Timeout,
    Protocol,
}

/// The values a probe carried back, for a probe whose response is present.
pub open spec fn spec_values(r: ScanResult) -> Seq<u16> {
    r.response_data->0@
}

/// A probe counts as a responder only when the call succeeded and the
/// response carries at least one value: an empty response is no evidence
/// of a device worth reporting.
pub open spec fn spec_is_responder(r: ScanResult) -> bool {
    r.success && r.response_data is Some && spec_values(r).len() > 0
}

/// Exec mirror of `spec_is_responder`.
pub fn is_responder(r: &ScanResult) -> (b: bool)
    ensures
        b == spec_is_responder(*r),
{
    if !r.success {
        return false;
    }
    match &r.response_data {
        Option::Some(values) => values.len() > 0,
        Option::None => false,
    }
}

/// Turn the raw outcome of one timed read into a `ScanResult`: a reply
/// with values succeeds, every failure mode collapses to a
/// non-succeeding result, and the measured time is kept either way.
pub fn classify_probe(outcome: Result<Vec<u16>, ProbeError>, elapsed_ms: u128) -> (r: ScanResult)
    ensures
        r.response_time_ms == elapsed_ms,
        r.success == (outcome is Ok),
        (outcome matches Ok(values) ==> r.response_data == Option::Some(values)),
        outcome is Err ==> r.response_data is None,
{
    match outcome {
        Ok(values) => ScanResult {
            success: true,
            response_data: Option::Some(values),
            response_time_ms: elapsed_ms,
        },
        Err(_) => ScanResult {
            success: false,
            response_data: Option::None,
            response_time_ms: elapsed_ms,
        },
    }
}

/// The parity a configuration letter stands for; anything but `E` or `O`
/// falls back to no parity.
pub open spec fn spec_parse_parity(s: Seq<char>) -> Parity {
    if s == "E"@ {
        Parity::Even
    } else if s == "O"@ {
        Parity::Odd
    } else {
        Parity::NoParity
    }
}

/// The stop-bit setting a configuration number stands for; anything but
/// `2` falls back to one stop bit.
pub open spec fn spec_parse_stop_bits(b: u8) -> StopBits {
    if b == 2 {
        StopBits::Two
    } else {
        StopBits::One
    }
}

/// The scanner: the serial device path plus the validated link and scan
/// parameters, fixed for the lifetime of a sweep.
pub struct ModbusScanner {
    usb_device: String,
    modbus_config: ConfigModbus,
    scan_config: ScanConfig,
}

impl ModbusScanner {
    /// The device path this scanner probes through.
    pub closed spec fn spec_usb_device(self) -> Seq<char> {
        self.usb_device@
    }

    /// The link parameters this scanner probes with.
    pub closed spec fn spec_modbus(self) -> ConfigModbus {
        self.modbus_config
    }

    /// The scan parameters this scanner sweeps over.
    pub closed spec fn spec_scan(self) -> ScanConfig {
        self.scan_config
    }

    pub fn new(usb_device: String, modbus_config: ConfigModbus, scan_config: ScanConfig) -> (s:
        Self)
        ensures
            s.spec_usb_device() == usb_device@,
            s.spec_modbus() == modbus_config,
            s.spec_scan() == scan_config,
    {
        Self { usb_device, modbus_config, scan_config }
    }

    /// Parity letter to link-layer parity, with the same fallback the
    /// sweep has always used: an unknown letter means no parity.
    pub fn parse_parity(parity_str: &str) -> (p: Parity)
        ensures
            p == spec_parse_parity(parity_str@),
    {
        let s: String = parity_str.to_owned();
        if s == "E".to_owned() {
            Parity::Even
        } else if s == "O".to_owned() {
            Parity::Odd
        } else {
            Parity::NoParity
        }
    }

    /// Stop-bit count to link-layer stop bits; an unknown count means one
    /// stop bit.
    pub fn parse_stop_bits(stop_bits: u8) -> (s: StopBits)
        ensures
            s == spec_parse_stop_bits(stop_bits),
    {
        if stop_bits == 2 {
            StopBits::Two
        } else {
            StopBits::One
        }
    }

    /// The per-probe link settings for one candidate address: the
    /// configured baud rate and the parsed parity and stop bits, bound to
    /// `device_id`.
    pub fn probe_config(&self, device_id: u8) -> (c: ModbusConfig)
        ensures
            c.device_id == device_id,
            c.baud_rate == self.spec_modbus().baud_rate,
            c.parity == spec_parse_parity(self.spec_modbus().parity@),
            c.stop_bits == spec_parse_stop_bits(self.spec_modbus().stop_bits),
    {
        ModbusConfig {
            device_id,
            baud_rate: self.modbus_config.baud_rate,
            parity: Self::parse_parity(self.modbus_config.parity.as_str()),
            stop_bits: Self::parse_stop_bits(self.modbus_config.stop_bits),
        }
    }

    /// The device path, for the caller that opens the port.
    pub fn device_path(&self) -> (p: &String)
        ensures
            p@ == self.spec_usb_device(),
    {
        &self.usb_device
    }

    /// The link parameters, for the caller that opens the port.
    pub fn modbus(&self) -> (c: &ConfigModbus)
        ensures
            *c == self.spec_modbus(),
    {
        &self.modbus_config
    }

    /// The scan parameters.
    pub fn scan(&self) -> (c: &ScanConfig)
        ensures
            *c == self.spec_scan(),
    {
        &self.scan_config
    }

    /// A sweep over this scanner's address range, not yet started.
    pub fn start_sweep(&self) -> (s: SweepController)
        requires
            valid_scan_config(self.spec_scan()),
        ensures
            s.wf(),
            s.start() == self.spec_scan().scan_id@[0],
            s.end() == self.spec_scan().scan_id@[1],
            s.register() == self.spec_scan().test_register,
            s.count() == self.spec_scan().register_count,
            s.delay_ms() == self.spec_scan().scan_delay_ms,
            s.outcomes() == Seq::<ScanResult>::empty(),
            s.trace() == Seq::<crate::sweep::ScanEvent>::empty(),
            !s.in_probe(),
            !s.is_finished(),
    {
        SweepController::new(&self.scan_config)
    }
}

} // verus!
