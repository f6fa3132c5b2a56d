use port_sniffer::partition::plan;
use port_sniffer::partition::WorkerAssignment;
use port_sniffer::target::IpAddress;
use port_sniffer::target::ScanTarget;

fn assert_strictly_increasing(v: &Vec<u16>) {
    for i in 1..v.len() {
        assert!(v[i - 1] < v[i]);
    }
}

#[test]
fn single_worker_owns_every_port() {
    let a = WorkerAssignment::new(0, 1);
    let ports = a.ports();
    assert_eq!(ports.len(), 65535);
    assert_eq!(ports[0], 1);
    assert_eq!(ports[65534], 65535);
    assert_strictly_increasing(&ports);
}

#[test]
fn stride_of_four_worker_two() {
    let a = WorkerAssignment::new(2, 4);
    assert_eq!(a.start_port, 3);
    assert_eq!(a.stride, 4);
    let ports = a.ports();
    assert_eq!(ports[0], 3);
    for (k, p) in ports.iter().enumerate() {
        assert_eq!(*p as usize, 3 + 4 * k);
    }
    // 65535 = 3 + 4 * 16383, so the top port belongs to this worker
    assert_eq!(*ports.last().unwrap(), 65535);
    assert_strictly_increasing(&ports);
}

#[test]
fn maximal_worker_count_gives_one_port_each() {
    let first = WorkerAssignment::new(0, 65535).ports();
    assert_eq!(first, vec![1]);
    let last = WorkerAssignment::new(65534, 65535).ports();
    assert_eq!(last, vec![65535]);
}

#[test]
fn near_maximal_worker_count_keeps_the_top_port() {
    // With 65534 workers, worker 0 owns both 1 and 1 + 65534 = 65535:
    // the top of the range must not fall through the boundary check.
    let first = WorkerAssignment::new(0, 65534).ports();
    assert_eq!(first, vec![1, 65535]);
    let second = WorkerAssignment::new(1, 65534).ports();
    assert_eq!(second, vec![2]);
}

#[test]
fn three_workers_cover_the_range_exactly_once() {
    let mut seen = vec![0u8; 65536];
    for i in 0..3 {
        let a = WorkerAssignment::new(i, 3);
        for p in a.ports() {
            seen[p as usize] += 1;
        }
    }
    assert_eq!(seen[0], 0);
    for p in 1..=65535usize {
        assert_eq!(seen[p], 1, "port {} not covered exactly once", p);
    }
}

#[test]
fn near_maximal_worker_counts_cover_the_range() {
    // The boundary arithmetic is most delicate when almost every worker
    // owns a single port.
    for w in [65534u32, 65535u32] {
        let mut seen = vec![0u8; 65536];
        for i in 0..w {
            let a = WorkerAssignment::new(i as u16, w as u16);
            for p in a.ports() {
                seen[p as usize] += 1;
            }
        }
        for p in 1..=65535usize {
            assert_eq!(seen[p], 1, "port {} not covered exactly once", p);
        }
    }
}

#[test]
fn plan_spawns_one_assignment_per_worker() {
    let target = ScanTarget::new(IpAddress::V4(127, 0, 0, 1), 4);
    let assignments = plan(&target);
    assert_eq!(assignments.len(), 4);
    for (k, a) in assignments.iter().enumerate() {
        assert_eq!(a.worker_index as usize, k);
        assert_eq!(a.stride, 4);
        assert_eq!(a.start_port as usize, k + 1);
    }
}

#[test]
fn zero_workers_plan_is_empty() {
    let target = ScanTarget::new(IpAddress::V4(127, 0, 0, 1), 0);
    assert!(plan(&target).is_empty());
}

#[test]
fn scan_target_holds_its_inputs() {
    let ip = IpAddress::V6(0, 0, 0, 0, 0, 0, 0, 1);
    let target = ScanTarget::new(ip, 8);
    assert_eq!(target.ip_address, ip);
    assert_eq!(target.worker_count, 8);
    assert_eq!(port_sniffer::target::CONNECT_TIMEOUT_SECS, 2);
}
