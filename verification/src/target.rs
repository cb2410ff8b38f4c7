//! What is to be scanned: an address and a validated range of ports.

use vstd::prelude::*;

verus! {

/// The highest port number there is.
pub const MAX_PORT: u16 = 65535;

/// Whether `port` may open a range: any port but zero.
pub open spec fn valid_start(port: int) -> bool {
    port > 0
}

/// Whether `port` may close a range: any port up to [`MAX_PORT`].
pub open spec fn valid_end(port: int) -> bool {
    port <= MAX_PORT
}

/// Accepts a start port that is greater than zero.
pub fn start_port_guard(input: &u16) -> (ok: bool)
    ensures
        ok == valid_start(*input as int),
{
    return *input > 0;
}

/// Accepts an end port that does not exceed [`MAX_PORT`].
pub fn end_port_guard(input: &u16) -> (ok: bool)
    ensures
        ok == valid_end(*input as int),
{
    return *input <= MAX_PORT;
}

/// An IP address as plain numbers: four octets, or eight groups of sixteen bits.
#[derive(Clone, Copy, Debug, PartialEq, Eq, Structural)]
pub enum Address {
    V4(u8, u8, u8, u8),
    V6(u16, u16, u16, u16, u16, u16, u16, u16),
}

impl Address {
    /// The address scanned when none is given: the IPv4 loopback, 127.0.0.1.
    pub fn fallback() -> (address: Address)
        ensures
            address == Address::V4(127, 0, 0, 1),
    {
        Address::V4(127, 0, 0, 1)
    }
}

/// Why a scan could not be configured.
#[derive(Clone, Copy, Debug, PartialEq, Eq, Structural)]
pub enum ConfigError {
    /// The address could not be read as an IPv4 or IPv6 address.
    MalformedAddress,
    /// The start port is zero.
    StartPortZero,
    /// The end port is above [`MAX_PORT`].
    EndPortTooLarge,
    /// The start port lies above the end port.
    EmptyRange,
    /// A stride scan was asked for with no workers.
    NoWorkers,
}

impl ConfigError {
    /// The one-line explanation shown to the user.
    pub fn message(&self) -> (text: &'static str)
        ensures
            text@ == match *self {
                ConfigError::MalformedAddress => "Must be a valid IPv4 or IPv6 address."@,
                ConfigError::StartPortZero => "Must be greater than 0."@,
                ConfigError::EndPortTooLarge => "Must be less than or equal to 65535."@,
                ConfigError::EmptyRange => "The start port must not be above the end port."@,
                ConfigError::NoWorkers => "Must use at least one worker."@,
            },
    {
        match self {
            ConfigError::MalformedAddress => "Must be a valid IPv4 or IPv6 address.",
            ConfigError::StartPortZero => "Must be greater than 0.",
            ConfigError::EndPortTooLarge => "Must be less than or equal to 65535.",
            ConfigError::EmptyRange => "The start port must not be above the end port.",
            ConfigError::NoWorkers => "Must use at least one worker.",
        }
    }
}

/// The command line's values before validation.
#[derive(Clone, Copy, Debug, PartialEq, Eq)]
pub struct Arguments {
    /// The address to scan.
    pub address: Address,
    /// The first port of the range.
    pub start_port: u16,
    /// The port that ends the range.
    pub end_port: u16,
}

impl Arguments {
    /// The arguments used when the command line gives none: the loopback
    /// address and every port.
    pub fn fallback() -> (arguments: Arguments)
        ensures
            arguments.address == Address::V4(127, 0, 0, 1),
            arguments.start_port == 1,
            arguments.end_port == MAX_PORT,
    {
        Arguments { address: Address::fallback(), start_port: 1, end_port: MAX_PORT }
    }

    /// Validates the arguments into a target.
    pub fn target(&self) -> (outcome: Result<ScanTarget, ConfigError>)
        ensures
            configured(self.address, self.start_port as int, self.end_port as int, outcome),
    {
        ScanTarget::new(self.address, self.start_port as u32, self.end_port as u32)
    }
}

/// A validated request: an address and the ports `start_port ..= end_port`,
/// with `1 <= start_port <= end_port <= 65535`. It never changes once made.
#[derive(Clone, Copy, Debug, PartialEq, Eq, Structural)]
pub struct ScanTarget {
    address: Address,
    start_port: u16,
    end_port: u16,
}

/// The first fault in the bounds `start_port ..= end_port`, if there is one:
/// a zero start, then an end above [`MAX_PORT`], then a start above the end.
pub open spec fn fault(start_port: int, end_port: int) -> Option<ConfigError> {
    if !valid_start(start_port) {
        Some(ConfigError::StartPortZero)
    } else if !valid_end(end_port) {
        Some(ConfigError::EndPortTooLarge)
    } else if start_port > end_port {
        Some(ConfigError::EmptyRange)
    } else {
        None
    }
}

/// What configuring a scan of `start_port ..= end_port` at `address` comes
/// to: the first fault, or else the target with exactly these values.
pub open spec fn configured(
    address: Address,
    start_port: int,
    end_port: int,
    outcome: Result<ScanTarget, ConfigError>,
) -> bool {
    match outcome {
        Ok(target) => {
            &&& fault(start_port, end_port) is None
            &&& target.wf()
            &&& target.spec_address() == address
            &&& target.spec_start_port() == start_port
            &&& target.spec_end_port() == end_port
        },
        Err(error) => fault(start_port, end_port) == Some(error),
    }
}

impl ScanTarget {
    /// The address, in specifications.
    pub closed spec fn spec_address(self) -> Address {
        self.address
    }

    /// The first port, in specifications.
    pub closed spec fn spec_start_port(self) -> int {
        self.start_port as int
    }

    /// The last port, in specifications.
    pub closed spec fn spec_end_port(self) -> int {
        self.end_port as int
    }

    /// The bounds are in order: `1 <= start_port <= end_port <= 65535`.
    pub open spec fn wf(self) -> bool {
        1 <= self.spec_start_port() <= self.spec_end_port() <= MAX_PORT
    }

    #[verifier::type_invariant]
    spec fn holds(self) -> bool {
        self.wf()
    }

    /// Validates the bounds and builds the target. Nothing is scanned when
    /// this fails.
    pub fn new(address: Address, start_port: u32, end_port: u32) -> (outcome: Result<
        ScanTarget,
        ConfigError,
    >)
        ensures
            configured(address, start_port as int, end_port as int, outcome),
    {
        if start_port == 0 {
            Err(ConfigError::StartPortZero)
        } else if end_port > MAX_PORT as u32 {
            Err(ConfigError::EndPortTooLarge)
        } else if start_port > end_port {
            Err(ConfigError::EmptyRange)
        } else {
            Ok(ScanTarget { address, start_port: start_port as u16, end_port: end_port as u16 })
        }
    }

    /// The address to connect to.
    pub fn address(&self) -> (address: Address)
        ensures
            address == self.spec_address(),
    {
        self.address
    }

    /// The first port of the range.
    pub fn start_port(&self) -> (port: u16)
        ensures
            port == self.spec_start_port(),
            self.wf(),
    {
        proof {
            use_type_invariant(self);
        }
        self.start_port
    }

    /// The last port of the range.
    pub fn end_port(&self) -> (port: u16)
        ensures
            port == self.spec_end_port(),
            self.wf(),
    {
        proof {
            use_type_invariant(self);
        }
        self.end_port
    }
}

/// A start port of zero and an end port above [`MAX_PORT`] are faults,
/// whatever the other bound is.
pub proof fn lemma_out_of_bounds_is_a_fault(start_port: int, end_port: int)
    requires
        start_port == 0 || end_port > MAX_PORT,
    ensures
        fault(start_port, end_port) is Some,
{
}

} // verus!
