use modscan::configuration::{ConfigError, Configuration, ModbusConfig, ScanConfig};
use modscan::modbus_scanner::{ModbusScanner, Parity, StopBits};

fn base_config() -> Configuration {
    Configuration {
        log_dir_dev: String::from("logs/dev"),
        log_dir_prod: String::from("logs/prod"),
        usb_device: String::from("/dev/ttyUSB0"),
        modbus: ModbusConfig {
            baud_rate: 9600,
            data_bits: 8,
            parity: String::from("N"),
            stop_bits: 1,
            timeout_ms: 200,
        },
        scan: ScanConfig {
            scan_id: vec![1, 247],
            test_register: 100,
            register_count: 1,
            scan_delay_ms: 50,
        },
    }
}

#[test]
fn validate_accepts_sound_configuration() {
    assert_eq!(base_config().validate(), Ok(()));
}

#[test]
fn validate_rejects_empty_device() {
    let mut c = base_config();
    c.usb_device = String::new();
    assert_eq!(c.validate(), Err(ConfigError::EmptyUsbDevice));
}

#[test]
fn validate_rejects_bad_data_bits() {
    let mut c = base_config();
    c.modbus.data_bits = 9;
    assert_eq!(c.validate(), Err(ConfigError::InvalidDataBits));
}

#[test]
fn validate_rejects_bad_parity() {
    let mut c = base_config();
    c.modbus.parity = String::from("X");
    assert_eq!(c.validate(), Err(ConfigError::InvalidParity));
}

#[test]
fn validate_accepts_each_parity_letter() {
    for letter in ["N", "E", "O"] {
        let mut c = base_config();
        c.modbus.parity = String::from(letter);
        assert_eq!(c.validate(), Ok(()));
    }
}

#[test]
fn validate_rejects_bad_stop_bits() {
    let mut c = base_config();
    c.modbus.stop_bits = 3;
    assert_eq!(c.validate(), Err(ConfigError::InvalidStopBits));
}

#[test]
fn validate_rejects_scan_id_not_a_pair() {
    let mut c = base_config();
    c.scan.scan_id = vec![1, 10, 20];
    assert_eq!(c.validate(), Err(ConfigError::ScanIdNotPair));
    c.scan.scan_id = vec![1];
    assert_eq!(c.validate(), Err(ConfigError::ScanIdNotPair));
}

#[test]
fn validate_rejects_zero_start() {
    let mut c = base_config();
    c.scan.scan_id = vec![0, 10];
    assert_eq!(c.validate(), Err(ConfigError::StartIdZero));
}

#[test]
fn validate_rejects_end_beyond_247() {
    let mut c = base_config();
    c.scan.scan_id = vec![1, 248];
    assert_eq!(c.validate(), Err(ConfigError::EndIdTooLarge));
}

#[test]
fn validate_rejects_inverted_range() {
    let mut c = base_config();
    c.scan.scan_id = vec![20, 10];
    assert_eq!(c.validate(), Err(ConfigError::StartAfterEnd));
}

#[test]
fn validate_reports_first_failing_check() {
    let mut c = base_config();
    c.modbus.data_bits = 9;
    c.scan.scan_id = vec![0, 10];
    assert_eq!(c.validate(), Err(ConfigError::InvalidDataBits));
}

#[test]
fn parse_parity_maps_each_letter() {
    assert_eq!(ModbusScanner::parse_parity("N"), Parity::NoParity);
    assert_eq!(ModbusScanner::parse_parity("E"), Parity::Even);
    assert_eq!(ModbusScanner::parse_parity("O"), Parity::Odd);
    assert_eq!(ModbusScanner::parse_parity("X"), Parity::NoParity);
    assert_eq!(ModbusScanner::parse_parity(""), Parity::NoParity);
}

#[test]
fn parse_stop_bits_maps_each_count() {
    assert_eq!(ModbusScanner::parse_stop_bits(1), StopBits::One);
    assert_eq!(ModbusScanner::parse_stop_bits(2), StopBits::Two);
    assert_eq!(ModbusScanner::parse_stop_bits(7), StopBits::One);
}

#[test]
fn probe_config_binds_candidate_and_parses_link() {
    let c = base_config();
    let scanner = ModbusScanner::new(
        c.usb_device.clone(),
        ModbusConfig {
            baud_rate: 19200,
            data_bits: 8,
            parity: String::from("E"),
            stop_bits: 2,
            timeout_ms: 300,
        },
        c.scan,
    );
    let probe = scanner.probe_config(17);
    assert_eq!(probe.device_id, 17);
    assert_eq!(probe.baud_rate, 19200);
    assert_eq!(probe.parity, Parity::Even);
    assert_eq!(probe.stop_bits, StopBits::Two);
}

#[test]
fn scanner_getters_return_what_was_given() {
    let c = base_config();
    let scanner = ModbusScanner::new(c.usb_device.clone(), c.modbus, c.scan);
    assert_eq!(scanner.device_path().as_str(), "/dev/ttyUSB0");
    assert_eq!(scanner.modbus().baud_rate, 9600);
    assert_eq!(scanner.scan().test_register, 100);
    assert_eq!(scanner.scan().scan_id, vec![1, 247]);
}
