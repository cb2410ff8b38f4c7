//! What a whole scan reports, whatever the order in which its workers finish.
//!
//! A scan is described by the messages that its workers send: worker `i`
//! sends port `p` once if `p` is one of its ports and open, and not
//! otherwise. The collector sees the ports of these messages in some order
//! of arrival and reports them in order.

use vstd::prelude::*;
use crate::collect::{
    lemma_order_of_arrival_is_irrelevant,
    lemma_ordered_is_strict,
    lemma_ordered_keeps_all,
    ordered,
    strictly_ascending,
};
use crate::partition::{lemma_exactly_one_owner, Strategy};
use crate::target::ScanTarget;

verus! {

/// Whether `sent` are the messages of one scan of `target` under `strategy`
/// while exactly the ports of `open` accept a connection: each a worker's
/// index and a port, in the order of arrival.
pub open spec fn sent_by_scan(
    strategy: Strategy,
    target: ScanTarget,
    open: Set<int>,
    sent: Seq<(int, u16)>,
) -> bool {
    &&& sent.no_duplicates()
    &&& forall|message: (int, u16)| #[trigger]
        sent.contains(message) <==> strategy.assigns(target, message.0, message.1 as int)
            && open.contains(message.1 as int)
}

/// The ports of the messages, in the order of arrival.
pub open spec fn arrivals(sent: Seq<(int, u16)>) -> Seq<u16> {
    sent.map_values(|message: (int, u16)| message.1)
}

/// No port arrives twice: no worker sends a port twice, and no two workers
/// share a port.
pub proof fn lemma_no_port_arrives_twice(
    strategy: Strategy,
    target: ScanTarget,
    open: Set<int>,
    sent: Seq<(int, u16)>,
)
    requires
        strategy.wf(),
        target.wf(),
        sent_by_scan(strategy, target, open, sent),
    ensures
        arrivals(sent).no_duplicates(),
{
    let arrived = arrivals(sent);
    assert forall|i: int, j: int|
        0 <= i < arrived.len() && 0 <= j < arrived.len() && i != j implies arrived[i]
        != arrived[j] by {
        if arrived[i] == arrived[j] {
            let port = arrived[i] as int;
            assert(sent.contains(sent[i]));
            assert(sent.contains(sent[j]));
            lemma_exactly_one_owner(strategy, target, sent[i].0, port);
            lemma_exactly_one_owner(strategy, target, sent[j].0, port);
            assert(sent[i] == sent[j]);
        }
    }
}

/// The ports that arrive are the covered ports that are open, and no others.
pub proof fn lemma_arrivals_are_the_open_ports(
    strategy: Strategy,
    target: ScanTarget,
    open: Set<int>,
    sent: Seq<(int, u16)>,
    port: u16,
)
    requires
        strategy.wf(),
        target.wf(),
        sent_by_scan(strategy, target, open, sent),
    ensures
        arrivals(sent).contains(port) <==> strategy.covers(target, port as int) && open.contains(
            port as int,
        ),
{
    let arrived = arrivals(sent);
    let owner = strategy.owner(target, port as int);
    lemma_exactly_one_owner(strategy, target, owner, port as int);
    if arrived.contains(port) {
        let i = choose|i: int| 0 <= i < arrived.len() && arrived[i] == port;
        assert(sent.contains(sent[i]));
        lemma_exactly_one_owner(strategy, target, sent[i].0, port as int);
    }
    if strategy.covers(target, port as int) && open.contains(port as int) {
        assert(sent.contains((owner, port)));
        let i = choose|i: int| 0 <= i < sent.len() && sent[i] == (owner, port);
        assert(arrived[i] == port);
    }
}

/// The report of a scan is strictly ascending, so no port stands in it
/// twice, and it holds exactly the covered ports that are open.
pub proof fn lemma_report_is_strictly_ascending(
    strategy: Strategy,
    target: ScanTarget,
    open: Set<int>,
    sent: Seq<(int, u16)>,
)
    requires
        strategy.wf(),
        target.wf(),
        sent_by_scan(strategy, target, open, sent),
    ensures
        strictly_ascending(ordered(arrivals(sent))),
        forall|port: u16| #[trigger]
            ordered(arrivals(sent)).contains(port) <==> strategy.covers(target, port as int)
                && open.contains(port as int),
{
    let arrived = arrivals(sent);
    let report = ordered(arrived);
    lemma_no_port_arrives_twice(strategy, target, open, sent);
    lemma_ordered_is_strict(arrived);
    lemma_ordered_keeps_all(arrived);
    arrived.to_multiset_ensures();
    report.to_multiset_ensures();
    assert forall|port: u16| #[trigger]
        report.contains(port) <==> strategy.covers(target, port as int) && open.contains(
            port as int,
        ) by {
        lemma_arrivals_are_the_open_ports(strategy, target, open, sent, port);
        assert(report.contains(port) <==> report.to_multiset().count(port) > 0);
        assert(arrived.contains(port) <==> arrived.to_multiset().count(port) > 0);
    }
}

/// Two scans of one target while the same ports are open report the same,
/// however their messages were interleaved.
pub proof fn lemma_scan_is_repeatable(
    strategy: Strategy,
    target: ScanTarget,
    open: Set<int>,
    once: Seq<(int, u16)>,
    again: Seq<(int, u16)>,
)
    requires
        strategy.wf(),
        target.wf(),
        sent_by_scan(strategy, target, open, once),
        sent_by_scan(strategy, target, open, again),
    ensures
        ordered(arrivals(once)) == ordered(arrivals(again)),
{
    let first = arrivals(once);
    let second = arrivals(again);
    lemma_no_port_arrives_twice(strategy, target, open, once);
    lemma_no_port_arrives_twice(strategy, target, open, again);
    first.lemma_multiset_has_no_duplicates();
    second.lemma_multiset_has_no_duplicates();
    first.to_multiset_ensures();
    second.to_multiset_ensures();
    assert forall|port: u16|
        first.to_multiset().count(port) == second.to_multiset().count(port) by {
        lemma_arrivals_are_the_open_ports(strategy, target, open, once, port);
        lemma_arrivals_are_the_open_ports(strategy, target, open, again, port);
        assert(first.contains(port) <==> first.to_multiset().count(port) > 0);
        assert(second.contains(port) <==> second.to_multiset().count(port) > 0);
    }
    assert(first.to_multiset() =~= second.to_multiset());
    lemma_order_of_arrival_is_irrelevant(first, second);
}

} // verus!
