use port_sniffer::partition::{partition, Strategy, Workers};
use port_sniffer::target::{
    end_port_guard, start_port_guard, Address, Arguments, ConfigError, ScanTarget, MAX_PORT,
};

#[test]
fn start_guard_refuses_only_zero() {
    assert!(!start_port_guard(&0));
    assert!(start_port_guard(&1));
    assert!(start_port_guard(&80));
    assert!(start_port_guard(&65535));
}

#[test]
fn end_guard_accepts_every_port() {
    assert!(end_port_guard(&0));
    assert!(end_port_guard(&1));
    assert!(end_port_guard(&65534));
    assert!(end_port_guard(&65535));
}

#[test]
fn max_port_is_the_highest_port() {
    assert_eq!(MAX_PORT, 65535);
    assert_eq!(MAX_PORT, u16::MAX);
}

#[test]
fn fallback_address_is_loopback() {
    assert_eq!(Address::fallback(), Address::V4(127, 0, 0, 1));
}

#[test]
fn fallback_arguments_cover_every_port_of_loopback() {
    let arguments = Arguments::fallback();
    assert_eq!(arguments.address, Address::V4(127, 0, 0, 1));
    assert_eq!(arguments.start_port, 1);
    assert_eq!(arguments.end_port, 65535);
    let target = arguments.target().unwrap();
    assert_eq!(target.address(), Address::V4(127, 0, 0, 1));
    assert_eq!(target.start_port(), 1);
    assert_eq!(target.end_port(), 65535);
}

#[test]
fn valid_bounds_are_kept() {
    let address = Address::V6(0, 0, 0, 0, 0, 0, 0, 1);
    let target = ScanTarget::new(address, 20, 1024).unwrap();
    assert_eq!(target.address(), address);
    assert_eq!(target.start_port(), 20);
    assert_eq!(target.end_port(), 1024);
}

#[test]
fn zero_start_port_is_rejected() {
    let address = Address::fallback();
    assert_eq!(ScanTarget::new(address, 0, 100), Err(ConfigError::StartPortZero));
    assert_eq!(ScanTarget::new(address, 0, 0), Err(ConfigError::StartPortZero));
}

#[test]
fn end_port_above_the_maximum_is_rejected() {
    let address = Address::fallback();
    assert_eq!(ScanTarget::new(address, 1, 65536), Err(ConfigError::EndPortTooLarge));
    assert_eq!(ScanTarget::new(address, 1, 70000), Err(ConfigError::EndPortTooLarge));
    assert!(ScanTarget::new(address, 1, 65535).is_ok());
}

#[test]
fn zero_start_is_reported_before_a_large_end() {
    let address = Address::fallback();
    assert_eq!(ScanTarget::new(address, 0, 70000), Err(ConfigError::StartPortZero));
}

#[test]
fn start_above_end_is_rejected() {
    let address = Address::fallback();
    assert_eq!(ScanTarget::new(address, 10, 5), Err(ConfigError::EmptyRange));
    assert_eq!(ScanTarget::new(address, 70000, 65535), Err(ConfigError::EmptyRange));
}

#[test]
fn arguments_with_zero_start_are_rejected() {
    let arguments = Arguments { address: Address::fallback(), start_port: 0, end_port: 10 };
    assert_eq!(arguments.target(), Err(ConfigError::StartPortZero));
}

#[test]
fn single_port_range_is_valid() {
    let target = ScanTarget::new(Address::fallback(), 443, 443).unwrap();
    assert_eq!(target.start_port(), 443);
    assert_eq!(target.end_port(), 443);
}

#[test]
fn single_port_range_under_stride_scans_one_port() {
    let target = ScanTarget::new(Address::fallback(), 443, 443).unwrap();
    let strategy = Strategy::Stride(Workers::new(4).unwrap());
    let mut scanned: Vec<u16> = Vec::new();
    for assignment in partition(&target, &strategy) {
        scanned.extend(assignment.ports());
    }
    assert_eq!(scanned, vec![443]);
}

#[test]
fn single_port_range_under_range_split_has_no_unit() {
    let target = ScanTarget::new(Address::fallback(), 443, 443).unwrap();
    assert!(partition(&target, &Strategy::RangeSplit).is_empty());
    let target = ScanTarget::new(Address::fallback(), 443, 444).unwrap();
    let shares = partition(&target, &Strategy::RangeSplit);
    assert_eq!(shares.len(), 1);
    assert_eq!(shares[0].ports(), vec![443]);
}

#[test]
fn every_error_has_its_message() {
    assert_eq!(ConfigError::StartPortZero.message(), "Must be greater than 0.");
    assert_eq!(ConfigError::EndPortTooLarge.message(), "Must be less than or equal to 65535.");
    assert_eq!(
        ConfigError::MalformedAddress.message(),
        "Must be a valid IPv4 or IPv6 address."
    );
    assert_eq!(
        ConfigError::EmptyRange.message(),
        "The start port must not be above the end port."
    );
    assert_eq!(ConfigError::NoWorkers.message(), "Must use at least one worker.");
}
