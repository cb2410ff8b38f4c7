//! Dividing the ports of a target among workers.
//!
//! Two strategies are offered. Range-split hands every port of
//! `start_port .. end_port` to a worker of its own. Stride hands the ports of
//! `start_port ..= end_port` to a fixed number of workers, worker `i` of `w`
//! taking `start_port + i`, `start_port + i + w`, `start_port + i + 2w` and so
//! on. Either way every port has exactly one worker, and a worker learns its
//! share from its index alone.

use vstd::prelude::*;
use vstd::arithmetic::div_mod::{
    lemma_fundamental_div_mod,
    lemma_fundamental_div_mod_converse,
    lemma_mod_multiples_basic,
};
use crate::target::{ConfigError, ScanTarget};

verus! {

/// How many workers share a stride scan: at least one.
#[derive(Clone, Copy, Debug, PartialEq, Eq, Structural)]
pub struct Workers {
    count: u16,
}

impl Workers {
    /// The number of workers, in specifications.
    pub closed spec fn spec_count(self) -> int {
        self.count as int
    }

    /// There is at least one worker.
    pub open spec fn wf(self) -> bool {
        1 <= self.spec_count() <= u16::MAX
    }

    #[verifier::type_invariant]
    spec fn holds(self) -> bool {
        self.wf()
    }

    /// Accepts any count but zero.
    pub fn new(count: u16) -> (outcome: Result<Workers, ConfigError>)
        ensures
            match outcome {
                Ok(workers) => count > 0 && workers.wf() && workers.spec_count() == count,
                Err(error) => count == 0 && error == ConfigError::NoWorkers,
            },
    {
        if count == 0 {
            Err(ConfigError::NoWorkers)
        } else {
            Ok(Workers { count })
        }
    }

    /// The number of workers used when none is asked for: four.
    pub fn fallback() -> (workers: Workers)
        ensures
            workers.wf(),
            workers.spec_count() == 4,
    {
        Workers { count: 4 }
    }

    /// The number of workers.
    pub fn count(&self) -> (count: u16)
        ensures
            count == self.spec_count(),
            self.wf(),
    {
        proof {
            use_type_invariant(self);
        }
        self.count
    }
}

/// How the ports are divided.
#[derive(Clone, Copy, Debug, PartialEq, Eq, Structural)]
pub enum Strategy {
    /// One worker for each port of `start_port .. end_port`.
    RangeSplit,
    /// A fixed number of workers, each taking every `w`-th port of
    /// `start_port ..= end_port`.
    Stride(Workers),
}

impl Strategy {
    pub open spec fn wf(self) -> bool {
        match self {
            Strategy::RangeSplit => true,
            Strategy::Stride(workers) => workers.wf(),
        }
    }

    /// The number of workers that scanning `target` takes.
    pub open spec fn units(self, target: ScanTarget) -> int {
        match self {
            Strategy::RangeSplit => target.spec_end_port() - target.spec_start_port(),
            Strategy::Stride(workers) => workers.spec_count(),
        }
    }

    /// The distance between two successive ports of one worker.
    pub open spec fn step(self) -> int {
        match self {
            Strategy::RangeSplit => 1,
            Strategy::Stride(workers) => workers.spec_count(),
        }
    }

    /// The port at which worker `index` stops looking.
    pub open spec fn last(self, target: ScanTarget, index: int) -> int {
        match self {
            Strategy::RangeSplit => target.spec_start_port() + index,
            Strategy::Stride(_) => target.spec_end_port(),
        }
    }

    /// Whether `port` is among those that a scan of `target` probes: the
    /// half-open range under range-split, the closed one under stride.
    pub open spec fn covers(self, target: ScanTarget, port: int) -> bool {
        match self {
            Strategy::RangeSplit => target.spec_start_port() <= port < target.spec_end_port(),
            Strategy::Stride(_) => target.spec_start_port() <= port <= target.spec_end_port(),
        }
    }

    /// Whether worker `index` is the one that probes `port`.
    pub open spec fn assigns(self, target: ScanTarget, index: int, port: int) -> bool {
        &&& 0 <= index < self.units(target)
        &&& target.spec_start_port() + index <= port <= self.last(target, index)
        &&& (port - target.spec_start_port() - index) % self.step() == 0
    }

    /// The worker that a covered port falls to.
    pub open spec fn owner(self, target: ScanTarget, port: int) -> int {
        match self {
            Strategy::RangeSplit => port - target.spec_start_port(),
            Strategy::Stride(workers) => (port - target.spec_start_port()) % workers.spec_count(),
        }
    }

    /// The number of workers that scanning `target` takes.
    pub fn worker_count(&self, target: &ScanTarget) -> (count: u16)
        ensures
            count == self.units(*target),
    {
        match self {
            Strategy::RangeSplit => target.end_port() - target.start_port(),
            Strategy::Stride(workers) => workers.count(),
        }
    }
}

/// One worker's share of a scan: the ports `first`, `first + step`,
/// `first + 2 * step` and so on, as far as `last`.
#[derive(Clone, Copy, Debug, PartialEq, Eq, Structural)]
pub struct WorkAssignment {
    worker_index: u16,
    first: u32,
    step: u16,
    last: u16,
}

impl WorkAssignment {
    /// The worker's index, in specifications.
    pub closed spec fn spec_worker_index(self) -> int {
        self.worker_index as int
    }

    /// The worker's first port, in specifications.
    pub closed spec fn spec_first(self) -> int {
        self.first as int
    }

    /// The distance between two successive ports, in specifications.
    pub closed spec fn spec_step(self) -> int {
        self.step as int
    }

    /// The port at which the worker stops looking, in specifications.
    pub closed spec fn spec_last(self) -> int {
        self.last as int
    }

    /// The step is at least one, and the first port is no port zero and
    /// less than one step beyond the last.
    pub open spec fn wf(self) -> bool {
        &&& 1 <= self.spec_first() <= self.spec_last() + self.spec_step()
        &&& 1 <= self.spec_step()
    }

    #[verifier::type_invariant]
    spec fn holds(self) -> bool {
        self.wf()
    }

    /// Whether `port` is one of the worker's ports.
    pub open spec fn contains(self, port: int) -> bool {
        &&& self.spec_first() <= port <= self.spec_last()
        &&& (port - self.spec_first()) % self.spec_step() == 0
    }

    /// Whether this is the share of worker `index` when `strategy` divides
    /// `target`.
    pub open spec fn serves(self, strategy: Strategy, target: ScanTarget, index: int) -> bool {
        &&& self.wf()
        &&& 0 <= index < strategy.units(target)
        &&& self.spec_worker_index() == index
        &&& self.spec_first() == target.spec_start_port() + index
        &&& self.spec_step() == strategy.step()
        &&& self.spec_last() == strategy.last(target, index)
    }

    /// The index of the worker that this share belongs to.
    pub fn worker_index(&self) -> (index: u16)
        ensures
            index == self.spec_worker_index(),
    {
        self.worker_index
    }

    /// Whether `port` is one of the worker's ports.
    pub fn owns(&self, port: u16) -> (owned: bool)
        ensures
            owned == self.contains(port as int),
    {
        proof {
            use_type_invariant(self);
        }
        let port: u32 = port as u32;
        self.first <= port && port <= self.last as u32 && (port - self.first) % (self.step as u32)
            == 0
    }

    /// The worker's ports, lowest first.
    pub fn ports(&self) -> (ports: Vec<u16>)
        ensures
            forall|i: int, j: int| 0 <= i < j < ports@.len() ==> ports@[i] < ports@[j],
            forall|port: u16| ports@.contains(port) <==> self.contains(port as int),
    {
        proof {
            use_type_invariant(self);
        }
        let mut ports: Vec<u16> = Vec::new();
        let mut next: u32 = self.first;
        proof {
            lemma_mod_multiples_basic(0, self.spec_step());
        }
        while next <= self.last as u32
            invariant
                self.wf(),
                self.spec_first() <= next <= self.spec_last() + self.spec_step(),
                (next - self.spec_first()) % self.spec_step() == 0,
                forall|i: int|
                    0 <= i < ports@.len() ==> self.contains(#[trigger] ports@[i] as int)
                        && ports@[i] < next,
                forall|i: int, j: int| 0 <= i < j < ports@.len() ==> ports@[i] < ports@[j],
                forall|port: int| #[trigger]
                    self.contains(port) && port < next ==> ports@.contains(port as u16),
            decreases self.spec_last() + self.spec_step() - next,
        {
            let ghost before = ports@;
            ports.push(next as u16);
            proof {
                let step = self.spec_step();
                let first = self.spec_first();
                assert(ports@[before.len() as int] == next);
                assert forall|port: int| #[trigger]
                    self.contains(port) && port < next + step implies ports@.contains(
                    port as u16,
                ) by {
                    if port < next {
                        let i = choose|i: int| 0 <= i < before.len() && before[i] == port as u16;
                        assert(ports@[i] == port as u16);
                    } else if port > next {
                        lemma_multiples_are_apart(next - first, port - first, step);
                    }
                }
                lemma_next_multiple(next - first, step);
            }
            next = next + self.step as u32;
        }
        ports
    }
}

/// Two distinct multiples of `step` lie at least `step` apart.
proof fn lemma_multiples_are_apart(low: int, high: int, step: int)
    requires
        step > 0,
        low % step == 0,
        high % step == 0,
        low < high,
    ensures
        low + step <= high,
{
    lemma_fundamental_div_mod(low, step);
    lemma_fundamental_div_mod(high, step);
    let a = low / step;
    let b = high / step;
    assert(low + step <= high) by (nonlinear_arith)
        requires
            step > 0,
            low == step * a,
            high == step * b,
            low < high,
    ;
}

/// The number after a multiple of `step` by `step` is a multiple again.
proof fn lemma_next_multiple(multiple: int, step: int)
    requires
        step > 0,
        multiple % step == 0,
    ensures
        (multiple + step) % step == 0,
{
    lemma_fundamental_div_mod(multiple, step);
    let q = multiple / step;
    assert(multiple + step == (q + 1) * step) by (nonlinear_arith)
        requires
            multiple == step * q,
    ;
    lemma_mod_multiples_basic(q + 1, step);
}

/// The share of worker `index` when `strategy` divides `target`, or nothing
/// where the scan has no such worker.
pub fn assign(target: &ScanTarget, strategy: &Strategy, index: u16) -> (slot: Option<
    WorkAssignment,
>)
    ensures
        match slot {
            Some(assignment) => assignment.serves(*strategy, *target, index as int),
            None => index >= strategy.units(*target),
        },
{
    let start: u16 = target.start_port();
    let end: u16 = target.end_port();
    match strategy {
        Strategy::RangeSplit => {
            if index < end - start {
                Some(
                    WorkAssignment {
                        worker_index: index,
                        first: start as u32 + index as u32,
                        step: 1,
                        last: start + index,
                    },
                )
            } else {
                None
            }
        },
        Strategy::Stride(workers) => {
            let count: u16 = workers.count();
            if index < count {
                Some(
                    WorkAssignment {
                        worker_index: index,
                        first: start as u32 + index as u32,
                        step: count,
                        last: end,
                    },
                )
            } else {
                None
            }
        },
    }
}

/// Whether `assignments` are the shares of all workers of a scan of `target`
/// under `strategy`, in the order of their indices.
pub open spec fn shares_of(
    strategy: Strategy,
    target: ScanTarget,
    assignments: Seq<WorkAssignment>,
) -> bool {
    &&& assignments.len() == strategy.units(target)
    &&& forall|index: int|
        0 <= index < assignments.len() ==> (#[trigger] assignments[index]).serves(
            strategy,
            target,
            index,
        )
}

/// Every worker's share, in the order of the workers' indices.
pub fn partition(target: &ScanTarget, strategy: &Strategy) -> (assignments: Vec<WorkAssignment>)
    ensures
        shares_of(*strategy, *target, assignments@),
{
    let count: u16 = strategy.worker_count(target);
    let mut assignments: Vec<WorkAssignment> = Vec::new();
    let mut index: u16 = 0;
    while index < count
        invariant
            count == strategy.units(*target),
            index <= count,
            assignments@.len() == index,
            forall|i: int|
                0 <= i < assignments@.len() ==> (#[trigger] assignments@[i]).serves(
                    *strategy,
                    *target,
                    i,
                ),
        decreases count - index,
    {
        match assign(target, strategy, index) {
            Some(assignment) => {
                assignments.push(assignment);
            },
            None => {},
        }
        index = index + 1;
    }
    assignments
}

/// A worker's share holds exactly the ports that the strategy assigns to it.
pub proof fn lemma_share_is_assignment(
    assignment: WorkAssignment,
    strategy: Strategy,
    target: ScanTarget,
    index: int,
    port: int,
)
    requires
        assignment.serves(strategy, target, index),
    ensures
        assignment.contains(port) <==> strategy.assigns(target, index, port),
{
}

/// Every port that a scan covers falls to exactly one worker, its owner, and
/// no worker is given a port that the scan does not cover: the shares are
/// pairwise disjoint and together make up the covered range.
pub proof fn lemma_exactly_one_owner(
    strategy: Strategy,
    target: ScanTarget,
    index: int,
    port: int,
)
    requires
        strategy.wf(),
        target.wf(),
    ensures
        strategy.assigns(target, index, port) <==> (strategy.covers(target, port) && index
            == strategy.owner(target, port)),
{
    let start = target.spec_start_port();
    let distance = port - start;
    match strategy {
        Strategy::RangeSplit => {
            assert(distance % 1 == 0);
            assert((distance - index) % 1 == 0);
        },
        Strategy::Stride(workers) => {
            let count = workers.spec_count();
            if strategy.assigns(target, index, port) {
                lemma_fundamental_div_mod(distance - index, count);
                let q = (distance - index) / count;
                assert(distance == q * count + index) by (nonlinear_arith)
                    requires
                        distance - index == count * q,
                ;
                lemma_fundamental_div_mod_converse(distance, count, q, index);
            }
            if strategy.covers(target, port) && index == strategy.owner(target, port) {
                lemma_fundamental_div_mod(distance, count);
                let q = distance / count;
                assert(distance - index == q * count) by (nonlinear_arith)
                    requires
                        distance == count * q + index,
                ;
                lemma_mod_multiples_basic(q, count);
                assert(0 <= q) by (nonlinear_arith)
                    requires
                        distance >= 0,
                        count > 0,
                        q == distance / count,
                ;
                assert(index <= distance) by (nonlinear_arith)
                    requires
                        distance == count * q + index,
                        0 <= q,
                        count > 0,
                ;
            }
        },
    }
}

/// The shares that [`partition`] gives divide the covered ports: a port
/// that the scan covers is in the share of its owner and in no other, and a
/// port that it does not cover is in none.
pub proof fn lemma_shares_divide_the_range(
    strategy: Strategy,
    target: ScanTarget,
    assignments: Seq<WorkAssignment>,
    index: int,
    port: int,
)
    requires
        strategy.wf(),
        target.wf(),
        shares_of(strategy, target, assignments),
        0 <= index < assignments.len(),
    ensures
        assignments[index].contains(port) <==> (strategy.covers(target, port) && index
            == strategy.owner(target, port)),
        strategy.covers(target, port) ==> 0 <= strategy.owner(target, port) < assignments.len(),
{
    lemma_share_is_assignment(assignments[index], strategy, target, index, port);
    lemma_exactly_one_owner(strategy, target, index, port);
    lemma_exactly_one_owner(strategy, target, strategy.owner(target, port), port);
}

/// Under stride, a range of one port is scanned as exactly that port.
pub proof fn lemma_single_port_range(strategy: Strategy, target: ScanTarget, port: int)
    requires
        target.wf(),
        strategy is Stride,
        target.spec_start_port() == target.spec_end_port(),
    ensures
        strategy.covers(target, port) <==> port == target.spec_start_port(),
{
}

} // verus!
