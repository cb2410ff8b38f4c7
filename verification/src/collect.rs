//! Gathering the open ports that the workers find, and putting them in order.

use vstd::prelude::*;
use vstd::relations::{sorted_by, total_ordering};
use vstd::seq_lib::lemma_sorted_unique;

verus! {

/// What one connection attempt found. Only an open port is passed on.
#[derive(Clone, Copy, Debug, PartialEq, Eq, Structural)]
pub struct ProbeResult {
    /// The port that was tried.
    pub port: u16,
    /// Whether the connection was made. Every failure counts as closed.
    pub open: bool,
}

impl ProbeResult {
    /// The port to send to the collector: the port itself if it is open, else
    /// nothing.
    pub fn forwarded(&self) -> (message: Option<u16>)
        ensures
            message == if self.open {
                Some(self.port)
            } else {
                None::<u16>
            },
    {
        if self.open {
            Some(self.port)
        } else {
            None
        }
    }
}

/// The order in which ports are reported: by number, lowest first.
pub open spec fn port_order() -> spec_fn(u16, u16) -> bool {
    |a: u16, b: u16| a <= b
}

/// The ports of `arrived`, each as often as it arrived, lowest first.
pub open spec fn ordered(arrived: Seq<u16>) -> Seq<u16> {
    arrived.sort_by(port_order())
}

/// Whether no port of `ports` is followed by a lower one.
pub open spec fn ascending(ports: Seq<u16>) -> bool {
    forall|i: int, j: int| 0 <= i < j < ports.len() ==> ports[i] <= ports[j]
}

/// Whether every port of `ports` is followed by higher ones only.
pub open spec fn strictly_ascending(ports: Seq<u16>) -> bool {
    forall|i: int, j: int| 0 <= i < j < ports.len() ==> ports[i] < ports[j]
}

/// Ordering keeps every arrival, adds none, and leaves the ports ascending.
pub proof fn lemma_ordered_keeps_all(arrived: Seq<u16>)
    ensures
        ordered(arrived).to_multiset() == arrived.to_multiset(),
        ordered(arrived).len() == arrived.len(),
        ascending(ordered(arrived)),
{
    arrived.lemma_sort_by_ensures(port_order());
    let sorted = ordered(arrived);
    arrived.to_multiset_ensures();
    sorted.to_multiset_ensures();
    assert forall|i: int, j: int| 0 <= i < j < sorted.len() implies sorted[i] <= sorted[j] by {
        assert(port_order()(sorted[i], sorted[j]));
    }
}

/// An ascending sequence with the same ports as `arrived`, each as often, is
/// the ordered one: there is no other.
pub proof fn lemma_ordered_is_unique(arrived: Seq<u16>, ports: Seq<u16>)
    requires
        ascending(ports),
        ports.to_multiset() == arrived.to_multiset(),
    ensures
        ports == ordered(arrived),
{
    arrived.lemma_sort_by_ensures(port_order());
    assert(sorted_by(ports, port_order()));
    lemma_sorted_unique(ports, ordered(arrived), port_order());
}

/// The order in which the ports arrive does not show in the result.
pub proof fn lemma_order_of_arrival_is_irrelevant(first: Seq<u16>, second: Seq<u16>)
    requires
        first.to_multiset() == second.to_multiset(),
    ensures
        ordered(first) == ordered(second),
{
    lemma_ordered_keeps_all(first);
    lemma_ordered_is_unique(second, ordered(first));
}

/// Where no port arrived twice, the ordered ports are strictly ascending.
pub proof fn lemma_ordered_is_strict(arrived: Seq<u16>)
    requires
        arrived.no_duplicates(),
    ensures
        strictly_ascending(ordered(arrived)),
{
    lemma_ordered_keeps_all(arrived);
    arrived.lemma_multiset_has_no_duplicates();
    ordered(arrived).lemma_multiset_has_no_duplicates_conv();
}

/// Sorts with `<[u16]>::sort` of std, which is documented to leave the slice
/// in ascending order. The contract claims that, and that the sorted vector
/// holds the same ports as before, each as often.
#[verifier::external_body]
fn sort_ports(ports: &mut Vec<u16>)
    ensures
        final(ports)@.to_multiset() == old(ports)@.to_multiset(),
        ascending(final(ports)@),
{
    ports.sort();
}

/// The open ports of a finished scan, lowest first.
#[derive(Debug, PartialEq, Eq)]
pub struct OpenPortSet {
    ports: Vec<u16>,
}

impl View for OpenPortSet {
    type V = Seq<u16>;

    closed spec fn view(&self) -> Seq<u16> {
        self.ports@
    }
}

impl OpenPortSet {
    #[verifier::type_invariant]
    spec fn holds(self) -> bool {
        ascending(self.ports@)
    }

    /// The number of open ports.
    pub fn len(&self) -> (count: usize)
        ensures
            count == self@.len(),
    {
        self.ports.len()
    }

    /// The open port at `index`, counting from the lowest, if there are so
    /// many.
    pub fn get(&self, index: usize) -> (port: Option<u16>)
        ensures
            port == if index < self@.len() {
                Some(self@[index as int])
            } else {
                None::<u16>
            },
    {
        if index < self.ports.len() {
            Some(self.ports[index])
        } else {
            None
        }
    }

    /// The open ports as a vector, lowest first.
    pub fn into_vec(self) -> (ports: Vec<u16>)
        ensures
            ports@ == self@,
            ascending(ports@),
    {
        proof {
            use_type_invariant(&self);
        }
        self.ports
    }
}

/// The receiving end's store: the ports in the order in which they arrived.
#[derive(Debug, PartialEq, Eq)]
pub struct Collector {
    arrived: Vec<u16>,
}

impl View for Collector {
    type V = Seq<u16>;

    closed spec fn view(&self) -> Seq<u16> {
        self.arrived@
    }
}

impl Collector {
    /// A collector to which nothing has arrived.
    pub fn new() -> (collector: Collector)
        ensures
            collector@ == Seq::<u16>::empty(),
    {
        Collector { arrived: Vec::new() }
    }

    /// Takes in one port.
    pub fn receive(&mut self, port: u16)
        ensures
            final(self)@ == old(self)@.push(port),
    {
        self.arrived.push(port);
    }

    /// The number of ports that have arrived.
    pub fn len(&self) -> (count: usize)
        ensures
            count == self@.len(),
    {
        self.arrived.len()
    }

    /// Closes the collection and puts what arrived in order. Where no port
    /// arrived twice, none stands twice in the report.
    pub fn finish(self) -> (report: OpenPortSet)
        ensures
            report@ == ordered(self@),
            self@.no_duplicates() ==> strictly_ascending(report@),
    {
        let ghost arrived = self.arrived@;
        let mut ports: Vec<u16> = self.arrived;
        sort_ports(&mut ports);
        proof {
            lemma_ordered_is_unique(arrived, ports@);
            if arrived.no_duplicates() {
                lemma_ordered_is_strict(arrived);
            }
        }
        OpenPortSet { ports }
    }
}

/// Puts the ports of `arrived` in order: the whole of collecting, for a
/// caller that has gathered the ports itself.
pub fn collect(arrived: Vec<u16>) -> (report: OpenPortSet)
    ensures
        report@ == ordered(arrived@),
        arrived@.no_duplicates() ==> strictly_ascending(report@),
{
    Collector { arrived }.finish()
}

} // verus!
