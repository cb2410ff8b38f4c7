//! The course of one scan, as a state machine.
//!
//! The driver decides; its caller acts. Each call of [`step`] takes the state
//! and what has just happened, and gives the next state and what to do next:
//! start the workers, drain the channel, print the report, stop. A scan that
//! cannot be configured fails before any worker is started.

use vstd::prelude::*;
use crate::collect::{ordered, Collector, OpenPortSet};
use crate::partition::{partition, shares_of, Strategy, WorkAssignment};
use crate::target::{fault, Address, ConfigError, ScanTarget};

verus! {

/// Where a scan stands.
#[derive(Debug, PartialEq, Eq)]
pub enum DriverState {
    /// Nothing has been validated yet.
    Configuring,
    /// The target is valid and its workers are being started.
    Scanning(ScanTarget),
    /// The workers run, and their discoveries are being gathered.
    Collecting(Collector),
    /// Every worker has finished, and the report is being written.
    Reporting,
    /// The report has been written.
    Done,
    /// The scan could not be configured. Nothing was scanned.
    Failed(ConfigError),
}

impl DriverState {
    /// The exit code of the run, in specifications: zero for a finished
    /// scan, one for a failed one, none while the scan goes on.
    pub open spec fn spec_exit_code(self) -> Option<i32> {
        match self {
            DriverState::Done => Some(0i32),
            DriverState::Failed(_) => Some(1i32),
            _ => None,
        }
    }

    /// The code with which the run ends, once it has ended.
    pub fn exit_code(&self) -> (code: Option<i32>)
        ensures
            code == self.spec_exit_code(),
    {
        match self {
            DriverState::Done => Some(0),
            DriverState::Failed(_) => Some(1),
            _ => None,
        }
    }
}

/// What the caller tells the driver.
#[derive(Clone, Copy, Debug, PartialEq, Eq)]
pub enum Event {
    /// The arguments have been read. The address is absent where it could
    /// not be read as one.
    Configured { address: Option<Address>, start_port: u32, end_port: u32 },
    /// Every worker has been started.
    Spawned,
    /// A worker has sent an open port.
    Arrived(u16),
    /// The channel has closed: every worker has finished.
    Closed,
    /// The report has been written.
    Emitted,
}

/// What the driver tells the caller to do.
#[derive(Debug, PartialEq, Eq)]
pub enum Action {
    /// Start one worker for each assignment, each with a sender of its own.
    Spawn(Vec<WorkAssignment>),
    /// Drop the driver's own sender, then read the channel until it closes.
    Drain,
    /// Write the report.
    Emit(OpenPortSet),
    /// Tell the user why nothing was scanned.
    Reject(ConfigError),
    /// End the run.
    Stop,
    /// The event has no meaning in this state: do nothing.
    Ignore,
}

/// The first fault in what was configured, if there is one: an unreadable
/// address, then the faults of the bounds.
pub open spec fn refusal(address: Option<Address>, start_port: int, end_port: int) -> Option<
    ConfigError,
> {
    if address is None {
        Some(ConfigError::MalformedAddress)
    } else {
        fault(start_port, end_port)
    }
}

/// Whether `event` moves a scan under `strategy` from `before` to `after`
/// with `action` to be done.
pub open spec fn moves(
    strategy: Strategy,
    before: DriverState,
    event: Event,
    after: DriverState,
    action: Action,
) -> bool {
    match (before, event) {
        (DriverState::Configuring, Event::Configured { address, start_port, end_port }) => {
            match refusal(address, start_port as int, end_port as int) {
                Some(error) => after == DriverState::Failed(error) && action == Action::Reject(
                    error,
                ),
                None => {
                    &&& after matches DriverState::Scanning(target)
                    &&& target.wf()
                    &&& Some(target.spec_address()) == address
                    &&& target.spec_start_port() == start_port
                    &&& target.spec_end_port() == end_port
                    &&& action matches Action::Spawn(assignments)
                    &&& shares_of(strategy, target, assignments@)
                },
            }
        },
        (DriverState::Scanning(_), Event::Spawned) => {
            &&& after matches DriverState::Collecting(collector)
            &&& collector@ == Seq::<u16>::empty()
            &&& action is Drain
        },
        (DriverState::Collecting(collector), Event::Arrived(port)) => {
            &&& after matches DriverState::Collecting(grown)
            &&& grown@ == collector@.push(port)
            &&& action is Drain
        },
        (DriverState::Collecting(collector), Event::Closed) => {
            &&& after is Reporting
            &&& action matches Action::Emit(report)
            &&& report@ == ordered(collector@)
        },
        (DriverState::Reporting, Event::Emitted) => after is Done && action is Stop,
        _ => after == before && action is Ignore,
    }
}

/// The state in which every scan begins.
pub fn start() -> (state: DriverState)
    ensures
        state is Configuring,
{
    DriverState::Configuring
}

/// Takes one step: from the state and the event to the next state and the
/// action that the caller is to perform.
pub fn step(strategy: &Strategy, state: DriverState, event: Event) -> (next: (DriverState, Action))
    ensures
        moves(*strategy, state, event, next.0, next.1),
{
    match (state, event) {
        (DriverState::Configuring, Event::Configured { address, start_port, end_port }) => {
            match address {
                None => (
                    DriverState::Failed(ConfigError::MalformedAddress),
                    Action::Reject(ConfigError::MalformedAddress),
                ),
                Some(address) => match ScanTarget::new(address, start_port, end_port) {
                    Err(error) => (DriverState::Failed(error), Action::Reject(error)),
                    Ok(target) => {
                        let assignments = partition(&target, strategy);
                        (DriverState::Scanning(target), Action::Spawn(assignments))
                    },
                },
            }
        },
        (DriverState::Scanning(_), Event::Spawned) => (
            DriverState::Collecting(Collector::new()),
            Action::Drain,
        ),
        (DriverState::Collecting(collector), Event::Arrived(port)) => {
            let mut collector = collector;
            collector.receive(port);
            (DriverState::Collecting(collector), Action::Drain)
        },
        (DriverState::Collecting(collector), Event::Closed) => (
            DriverState::Reporting,
            Action::Emit(collector.finish()),
        ),
        (DriverState::Reporting, Event::Emitted) => (DriverState::Done, Action::Stop),
        (state, _) => (state, Action::Ignore),
    }
}

/// Workers are started only by a configuration that has no fault.
pub proof fn lemma_spawn_needs_valid_configuration(
    strategy: Strategy,
    before: DriverState,
    event: Event,
    after: DriverState,
    action: Action,
)
    requires
        moves(strategy, before, event, after, action),
        action is Spawn,
    ensures
        before is Configuring,
        after is Scanning,
        event matches Event::Configured { address, start_port, end_port } && refusal(
            address,
            start_port as int,
            end_port as int,
        ) is None,
{
}

/// A configuration with a fault ends the scan at once: the driver fails
/// with that fault and starts no worker.
pub proof fn lemma_fault_fails_the_scan(
    strategy: Strategy,
    address: Option<Address>,
    start_port: u32,
    end_port: u32,
    after: DriverState,
    action: Action,
)
    requires
        refusal(address, start_port as int, end_port as int) is Some,
        moves(
            strategy,
            DriverState::Configuring,
            Event::Configured { address, start_port, end_port },
            after,
            action,
        ),
    ensures
        after == DriverState::Failed(refusal(address, start_port as int, end_port as int)->Some_0),
        !(action is Spawn),
{
}

/// A failed scan and a finished one stay as they are, whatever happens, and
/// ask for nothing more.
pub proof fn lemma_end_states_are_final(
    strategy: Strategy,
    before: DriverState,
    event: Event,
    after: DriverState,
    action: Action,
)
    requires
        before is Failed || before is Done,
        moves(strategy, before, event, after, action),
    ensures
        after == before,
        action is Ignore,
{
}

} // verus!
