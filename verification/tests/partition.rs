use port_sniffer::partition::{assign, partition, Strategy, WorkAssignment, Workers};
use port_sniffer::target::{Address, ConfigError, ScanTarget};

fn target(start_port: u32, end_port: u32) -> ScanTarget {
    ScanTarget::new(Address::fallback(), start_port, end_port).unwrap()
}

fn times_probed(shares: &[WorkAssignment]) -> Vec<u32> {
    let mut times = vec![0u32; 65536];
    for share in shares {
        for port in share.ports() {
            times[port as usize] += 1;
        }
    }
    times
}

#[test]
fn no_workers_is_rejected() {
    assert_eq!(Workers::new(0), Err(ConfigError::NoWorkers));
    assert_eq!(Workers::new(1).unwrap().count(), 1);
    assert_eq!(Workers::new(65535).unwrap().count(), 65535);
}

#[test]
fn four_workers_by_default() {
    assert_eq!(Workers::fallback().count(), 4);
}

#[test]
fn worker_count_follows_the_strategy() {
    let target = target(10, 30);
    assert_eq!(Strategy::RangeSplit.worker_count(&target), 20);
    assert_eq!(Strategy::Stride(Workers::new(7).unwrap()).worker_count(&target), 7);
}

#[test]
fn stride_of_four_over_all_ports() {
    let target = target(1, 65535);
    let strategy = Strategy::Stride(Workers::new(4).unwrap());
    let shares = partition(&target, &strategy);
    assert_eq!(shares.len(), 4);
    for (index, share) in shares.iter().enumerate() {
        assert_eq!(share.worker_index() as usize, index);
    }
    let zero = shares[0].ports();
    assert_eq!(&zero[..4], &[1, 5, 9, 13]);
    assert_eq!(*zero.last().unwrap(), 65533);
    assert_eq!(zero.len(), 16384);
    let one = shares[1].ports();
    assert_eq!(&one[..4], &[2, 6, 10, 14]);
    assert_eq!(*one.last().unwrap(), 65534);
    let two = shares[2].ports();
    assert_eq!(&two[..3], &[3, 7, 11]);
    assert_eq!(*two.last().unwrap(), 65535);
    let three = shares[3].ports();
    assert_eq!(&three[..3], &[4, 8, 12]);
    assert_eq!(*three.last().unwrap(), 65532);
    assert_eq!(three.len(), 16383);
    let times = times_probed(&shares);
    assert_eq!(times[0], 0);
    assert!(times[1..].iter().all(|&t| t == 1));
}

#[test]
fn stride_covers_the_closed_range_once() {
    let target = target(100, 120);
    let strategy = Strategy::Stride(Workers::new(3).unwrap());
    let shares = partition(&target, &strategy);
    assert_eq!(shares[0].ports(), vec![100, 103, 106, 109, 112, 115, 118]);
    assert_eq!(shares[1].ports(), vec![101, 104, 107, 110, 113, 116, 119]);
    assert_eq!(shares[2].ports(), vec![102, 105, 108, 111, 114, 117, 120]);
    let times = times_probed(&shares);
    for port in 0..65536usize {
        let expected = if (100..=120).contains(&port) { 1 } else { 0 };
        assert_eq!(times[port], expected);
    }
}

#[test]
fn range_split_covers_the_half_open_range_once() {
    let target = target(10, 20);
    let shares = partition(&target, &Strategy::RangeSplit);
    assert_eq!(shares.len(), 10);
    for (index, share) in shares.iter().enumerate() {
        assert_eq!(share.worker_index() as usize, index);
        assert_eq!(share.ports(), vec![10 + index as u16]);
    }
    let times = times_probed(&shares);
    for port in 0..65536usize {
        let expected = if (10..20).contains(&port) { 1 } else { 0 };
        assert_eq!(times[port], expected);
    }
}

#[test]
fn range_split_over_all_ports() {
    let target = target(1, 65535);
    let shares = partition(&target, &Strategy::RangeSplit);
    assert_eq!(shares.len(), 65534);
    let times = times_probed(&shares);
    assert_eq!(times[0], 0);
    assert!(times[1..65535].iter().all(|&t| t == 1));
    assert_eq!(times[65535], 0);
}

#[test]
fn more_workers_than_ports_leaves_some_idle() {
    let target = target(65534, 65535);
    let strategy = Strategy::Stride(Workers::new(5).unwrap());
    let shares = partition(&target, &strategy);
    assert_eq!(shares.len(), 5);
    assert_eq!(shares[0].ports(), vec![65534]);
    assert_eq!(shares[1].ports(), vec![65535]);
    assert!(shares[2].ports().is_empty());
    assert!(shares[3].ports().is_empty());
    assert!(shares[4].ports().is_empty());
}

#[test]
fn a_share_is_known_from_the_index_alone() {
    let target = target(1, 1000);
    let strategy = Strategy::Stride(Workers::new(4).unwrap());
    let shares = partition(&target, &strategy);
    for index in 0..4u16 {
        assert_eq!(assign(&target, &strategy, index), Some(shares[index as usize]));
    }
    assert_eq!(assign(&target, &strategy, 4), None);
    assert_eq!(assign(&target, &Strategy::RangeSplit, 998).unwrap().ports(), vec![999]);
    assert_eq!(assign(&target, &Strategy::RangeSplit, 999), None);
}

#[test]
fn owns_agrees_with_ports() {
    let target = target(7, 300);
    let strategy = Strategy::Stride(Workers::new(6).unwrap());
    for share in partition(&target, &strategy) {
        let ports = share.ports();
        for port in 0..=400u16 {
            assert_eq!(share.owns(port), ports.contains(&port));
        }
    }
}

#[test]
fn ports_of_a_share_ascend() {
    let target = target(1, 65535);
    let strategy = Strategy::Stride(Workers::new(1000).unwrap());
    for share in partition(&target, &strategy) {
        let ports = share.ports();
        assert!(ports.windows(2).all(|pair| pair[0] < pair[1]));
    }
}
