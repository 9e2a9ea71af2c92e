use modscan::configuration::{ModbusConfig, ScanConfig};
use modscan::modbus_scanner::ModbusScanner;
use modscan::modbus_scanner::{classify_probe, is_responder, ProbeError, ScanResult};
use modscan::sweep::{summary_entries, ScanEvent, ScanReport, SweepController};

fn scan_config(start: u8, end: u8, delay_ms: u64) -> ScanConfig {
    ScanConfig {
        scan_id: vec![start, end],
        test_register: 100,
        register_count: 1,
        scan_delay_ms: delay_ms,
    }
}

fn timeout_outcome() -> ScanResult {
    classify_probe(Err(ProbeError::Timeout), 200)
}

fn response_outcome(values: Vec<u16>, elapsed_ms: u128) -> ScanResult {
    classify_probe(Ok(values), elapsed_ms)
}

/// Drive a whole sweep, answering with `values` at the addresses listed
/// in `responders`, a timeout everywhere else.
fn run_sweep(spec: &ScanConfig, responders: &[(u8, Vec<u16>)]) -> (ScanReport, Vec<ScanEvent>) {
    let mut sweep = SweepController::new(spec);
    while let Some(addr) = sweep.begin_probe() {
        let outcome = match responders.iter().find(|(a, _)| *a == addr) {
            Some((_, values)) => response_outcome(values.clone(), 5),
            None => timeout_outcome(),
        };
        sweep.record_outcome(outcome);
    }
    let report = sweep.finish();
    (report, sweep.events().clone())
}

#[test]
fn classify_probe_keeps_values_and_time() {
    let r = classify_probe(Ok(vec![42, 7]), 12);
    assert!(r.success);
    assert_eq!(r.response_data, Some(vec![42, 7]));
    assert_eq!(r.response_time_ms, 12);
}

#[test]
fn classify_probe_collapses_every_failure() {
    for e in [ProbeError::TransportOpen, ProbeError::Timeout, ProbeError::Protocol] {
        let r = classify_probe(Err(e), 200);
        assert!(!r.success);
        assert_eq!(r.response_data, None);
        assert_eq!(r.response_time_ms, 200);
    }
}

#[test]
fn responder_needs_success_and_data() {
    assert!(is_responder(&response_outcome(vec![1], 3)));
    assert!(!is_responder(&response_outcome(vec![], 3)));
    assert!(!is_responder(&timeout_outcome()));
    let odd = ScanResult { success: false, response_data: Some(vec![9]), response_time_ms: 1 };
    assert!(!is_responder(&odd));
}

#[test]
fn scenario_range_one_to_five() {
    let spec = scan_config(1, 5, 0);
    let (report, events) = run_sweep(&spec, &[(2, vec![42]), (4, vec![7])]);

    assert_eq!(report.responding, vec![(2, vec![42]), (4, vec![7])]);
    assert_eq!(report.total_probed, 5);

    assert_eq!(events.len(), 8);
    assert_eq!(events[0], ScanEvent::ProbingAddress(1));
    assert_eq!(events[1], ScanEvent::ProbingAddress(2));
    assert_eq!(events[2], ScanEvent::Responded(2, 42, 5));
    assert_eq!(events[3], ScanEvent::ProbingAddress(3));
    assert_eq!(events[4], ScanEvent::ProbingAddress(4));
    assert_eq!(events[5], ScanEvent::Responded(4, 7, 5));
    assert_eq!(events[6], ScanEvent::ProbingAddress(5));
    match &events[7] {
        ScanEvent::Completed(r) => assert_eq!(*r, report),
        other => panic!("expected a completion event, got {:?}", other),
    }
}

#[test]
fn all_timeouts_give_empty_report() {
    let spec = scan_config(1, 20, 0);
    let (report, events) = run_sweep(&spec, &[]);
    assert!(report.responding.is_empty());
    assert_eq!(report.total_probed, 20);
    assert!(events.iter().all(|e| !matches!(e, ScanEvent::Responded(..))));
}

#[test]
fn empty_response_is_not_a_responder() {
    let spec = scan_config(1, 3, 0);
    let (report, events) = run_sweep(&spec, &[(2, vec![])]);
    assert!(report.responding.is_empty());
    assert_eq!(report.total_probed, 3);
    assert!(events.iter().all(|e| !matches!(e, ScanEvent::Responded(..))));
}

#[test]
fn probing_events_cover_range_ascending_exactly_once() {
    let spec = scan_config(5, 9, 0);
    let (_, events) = run_sweep(&spec, &[(7, vec![1])]);
    let probed: Vec<u8> = events
        .iter()
        .filter_map(|e| match e {
            ScanEvent::ProbingAddress(a) => Some(*a),
            _ => None,
        })
        .collect();
    assert_eq!(probed, vec![5, 6, 7, 8, 9]);
}

#[test]
fn responded_events_come_before_completion() {
    let spec = scan_config(1, 5, 0);
    let (_, events) = run_sweep(&spec, &[(3, vec![11])]);
    let responded_at = events
        .iter()
        .position(|e| matches!(e, ScanEvent::Responded(3, 11, _)))
        .expect("responder must be announced");
    let completed_at = events
        .iter()
        .position(|e| matches!(e, ScanEvent::Completed(_)))
        .expect("sweep must complete");
    assert!(responded_at < completed_at);
    assert_eq!(completed_at, events.len() - 1);
}

#[test]
fn record_outcome_prescribes_settling_delay() {
    let spec = scan_config(1, 2, 25);
    let mut sweep = SweepController::new(&spec);
    while let Some(_) = sweep.begin_probe() {
        let pause = sweep.record_outcome(timeout_outcome());
        assert_eq!(pause, 25);
    }
    sweep.finish();
}

#[test]
fn settling_delay_elapses_between_probing_events() {
    let spec = scan_config(1, 3, 30);
    let runtime = tokio::runtime::Builder::new_current_thread()
        .enable_time()
        .build()
        .expect("runtime");
    let mut probe_instants: Vec<std::time::Instant> = Vec::new();
    runtime.block_on(async {
        let mut sweep = SweepController::new(&spec);
        while let Some(_) = sweep.begin_probe() {
            probe_instants.push(std::time::Instant::now());
            let pause = sweep.record_outcome(timeout_outcome());
            tokio::time::sleep(std::time::Duration::from_millis(pause)).await;
        }
        sweep.finish();
    });
    assert_eq!(probe_instants.len(), 3);
    for pair in probe_instants.windows(2) {
        assert!(pair[1].duration_since(pair[0]) >= std::time::Duration::from_millis(30));
    }
}

#[test]
fn cancellation_keeps_partial_report_and_stops_events() {
    let spec = scan_config(1, 20, 0);
    let mut sweep = SweepController::new(&spec);
    for _ in 0..10 {
        let addr = sweep.begin_probe().expect("range not exhausted");
        let outcome = if addr == 3 || addr == 15 {
            response_outcome(vec![8], 4)
        } else {
            timeout_outcome()
        };
        sweep.record_outcome(outcome);
    }
    let report = sweep.finish();
    assert_eq!(report.total_probed, 10);
    assert_eq!(report.responding, vec![(3, vec![8])]);
    let probed: Vec<u8> = sweep
        .events()
        .iter()
        .filter_map(|e| match e {
            ScanEvent::ProbingAddress(a) => Some(*a),
            _ => None,
        })
        .collect();
    assert_eq!(probed, (1..=10).collect::<Vec<u8>>());
    assert!(matches!(sweep.events().last(), Some(ScanEvent::Completed(_))));
}

#[test]
fn summary_lists_address_and_first_value() {
    let spec = scan_config(1, 5, 0);
    let (report, _) = run_sweep(&spec, &[(2, vec![42, 9]), (4, vec![7])]);
    assert_eq!(summary_entries(&report), vec![(2, 42), (4, 7)]);
}

#[test]
fn sweep_from_scanner_uses_its_scan_parameters() {
    let scanner = ModbusScanner::new(
        String::from("/dev/ttyUSB0"),
        ModbusConfig {
            baud_rate: 9600,
            data_bits: 8,
            parity: String::from("N"),
            stop_bits: 1,
            timeout_ms: 200,
        },
        scan_config(2, 4, 10),
    );
    let mut sweep = scanner.start_sweep();
    let mut probed: Vec<u8> = Vec::new();
    while let Some(addr) = sweep.begin_probe() {
        probed.push(addr);
        let pause = sweep.record_outcome(timeout_outcome());
        assert_eq!(pause, 10);
    }
    let report = sweep.finish();
    assert_eq!(probed, vec![2, 3, 4]);
    assert_eq!(report.total_probed, 3);
}
