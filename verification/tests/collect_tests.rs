use port_sniffer::collect::collect_ports;
use port_sniffer::partition::plan;
use port_sniffer::target::IpAddress;
use port_sniffer::target::ScanTarget;

#[test]
fn two_open_ports_sorted_whatever_the_arrival_order() {
    // Loopback scenario: ports 8000 and 8001 are open and four workers
    // report them; whichever worker owned which port, the reports may
    // arrive in either order and the result is the same.
    let result = collect_ports(&vec![8001, 8000]);
    assert_eq!(result.open_ports, vec![8000, 8001]);
    let result = collect_ports(&vec![8000, 8001]);
    assert_eq!(result.open_ports, vec![8000, 8001]);
}

#[test]
fn no_reports_give_an_empty_result() {
    // Both the degenerate zero-worker run and a scan that finds nothing
    // hand the collector no reports at all.
    let target = ScanTarget::new(IpAddress::V4(127, 0, 0, 1), 0);
    assert!(plan(&target).is_empty());
    let result = collect_ports(&Vec::new());
    assert!(result.open_ports.is_empty());
}

#[test]
fn duplicates_and_disorder_are_absorbed() {
    let result = collect_ports(&vec![5, 3, 5, 1, 1, 65535, 3]);
    assert_eq!(result.open_ports, vec![1, 3, 5, 65535]);
}

#[test]
fn single_report_passes_through() {
    let result = collect_ports(&vec![443]);
    assert_eq!(result.open_ports, vec![443]);
}
