//! What a scan does over a whole list of results: which nodes it reads and
//! releases, in which order, and which access points it ends with.

use crate::scan::{
    begin, failed, step, IwError, ResultNode, ScanActionView, ScanEvent, ScanStateView,
};
use crate::text::{position, text_of};
use vstd::prelude::*;

verus! {

/// The state that a scan reaches from `state` on `events`, one after the
/// other, and the actions that it asks for on the way.
pub open spec fn run(state: ScanStateView, events: Seq<ScanEvent>) -> (
    ScanStateView,
    Seq<ScanActionView>,
)
    decreases events.len(),
{
    if events.len() == 0 {
        (state, Seq::empty())
    } else {
        let (next, action) = step(state, events[0]);
        let (last, actions) = run(next, events.drop_first());
        (
            last,
            match action {
                Some(action) => seq![action] + actions,
                None => actions,
            },
        )
    }
}

/// Whether `nodes` are the nodes of the list that begins at the address
/// `head`, in the list's order: the list is empty where `head` is zero,
/// and ends with the first node that has no successor.
pub open spec fn is_list(head: usize, nodes: Seq<ResultNode>) -> bool {
    &&& head == 0 <==> nodes.len() == 0
    &&& forall|i: int|
        0 <= i < nodes.len() ==> ((#[trigger] nodes[i]).next == 0 <==> i + 1 == nodes.len())
}

/// The address of the node `nodes[i]` of the list that begins at `head`.
pub open spec fn address(head: usize, nodes: Seq<ResultNode>, i: int) -> usize {
    if i == 0 {
        head
    } else {
        nodes[i - 1].next
    }
}

/// The identifiers that `nodes` report, in order.
pub open spec fn essids_in(nodes: Seq<ResultNode>) -> Seq<Option<Seq<char>>> {
    nodes.map_values(|node: ResultNode| node.essid_text())
}

/// What the library returns while a scan walks `nodes`: of each node what
/// it holds, then its release.
pub open spec fn walk_events(nodes: Seq<ResultNode>) -> Seq<ScanEvent>
    decreases nodes.len(),
{
    if nodes.len() == 0 {
        Seq::empty()
    } else {
        seq![ScanEvent::NodeRead { node: nodes[0] }, ScanEvent::NodeReleased] + walk_events(
            nodes.drop_first(),
        )
    }
}

/// What a scan asks for from the moment the list at `head` is returned:
/// node by node to read it and then to release it, and at last to finish
/// with the access points of all nodes.
pub open spec fn walk_actions(socket: i32, head: usize, nodes: Seq<ResultNode>) -> Seq<
    ScanActionView,
> {
    Seq::new(
        2 * nodes.len() + 1,
        |k: int|
            if k == 2 * nodes.len() {
                ScanActionView::Finish { close: Some(socket), outcome: Ok(essids_in(nodes)) }
            } else if k % 2 == 0 {
                ScanActionView::ReadNode { node: address(head, nodes, k / 2) }
            } else {
                ScanActionView::ReleaseNode { node: address(head, nodes, k / 2) }
            },
    )
}

/// From the state that awaits the first of `nodes`, with `found` already
/// listed, the scan releases and reads on to the end of the list.
proof fn lemma_walk_from(
    socket: i32,
    head: usize,
    nodes: Seq<ResultNode>,
    found: Seq<Option<Seq<char>>>,
)
    requires
        nodes.len() > 0,
        is_list(head, nodes),
    ensures
        run(ScanStateView::Reading { socket, node: head, found }, walk_events(nodes)).0
            == ScanStateView::Finished,
        run(ScanStateView::Reading { socket, node: head, found }, walk_events(nodes)).1
            == Seq::new(
            2 * nodes.len(),
            |k: int|
                if k + 1 == 2 * nodes.len() {
                    ScanActionView::Finish {
                        close: Some(socket),
                        outcome: Ok(found + essids_in(nodes)),
                    }
                } else if k % 2 == 0 {
                    ScanActionView::ReleaseNode { node: address(head, nodes, k / 2) }
                } else {
                    ScanActionView::ReadNode { node: address(head, nodes, (k + 1) / 2) }
                },
        ),
    decreases nodes.len(),
{
    let first = nodes[0];
    let rest = nodes.drop_first();
    let events = walk_events(nodes);
    let listed = found.push(first.essid_text());
    let start = ScanStateView::Reading { socket, node: head, found };
    let released = ScanStateView::Releasing { socket, next: first.next, found: listed };
    let release = ScanActionView::ReleaseNode { node: head };
    assert(events.drop_first().drop_first() =~= walk_events(rest));
    assert(run(start, events).1 == seq![release] + run(released, events.drop_first()).1);
    assert(found + essids_in(nodes) =~= listed + essids_in(rest));
    if rest.len() == 0 {
        assert(run(ScanStateView::Finished, walk_events(rest)).1 =~= Seq::empty());
    } else {
        let reading = ScanStateView::Reading { socket, node: first.next, found: listed };
        let read = ScanActionView::ReadNode { node: first.next };
        lemma_walk_from(socket, first.next, rest, listed);
        let tail = run(reading, walk_events(rest)).1;
        assert(run(start, events).1 =~= seq![release, read] + tail);
    }
}

/// A scan that is returned the list at `head`, and then what each node of
/// the list holds and each node's release, ends; on the way it asks to
/// read each node and then to release it, in the list's order, and at
/// last to finish with the identifiers of all nodes, in that order.
pub proof fn lemma_walk(socket: i32, status: i32, head: usize, nodes: Seq<ResultNode>)
    requires
        status >= 0,
        is_list(head, nodes),
    ensures
        run(
            ScanStateView::Scanning { socket },
            seq![ScanEvent::ScanReturned { status, head }] + walk_events(nodes),
        ) == (ScanStateView::Finished, walk_actions(socket, head, nodes)),
{
    let start = ScanStateView::Scanning { socket };
    let events = seq![ScanEvent::ScanReturned { status, head }] + walk_events(nodes);
    assert(events.drop_first() =~= walk_events(nodes));
    if nodes.len() == 0 {
        assert(essids_in(nodes) =~= Seq::empty());
        assert(run(ScanStateView::Finished, walk_events(nodes)).1 =~= Seq::empty());
    } else {
        let found = Seq::<Option<Seq<char>>>::empty();
        let reading = ScanStateView::Reading { socket, node: head, found };
        lemma_walk_from(socket, head, nodes, found);
        assert(found + essids_in(nodes) =~= essids_in(nodes));
        assert(run(start, events).1 =~= seq![ScanActionView::ReadNode { node: head }] + run(
            reading,
            walk_events(nodes),
        ).1);
    }
}

/// A scan that is returned no list ends at once, with no access point and
/// no failure.
pub proof fn lemma_empty_list(socket: i32, status: i32)
    requires
        status >= 0,
    ensures
        step(ScanStateView::Scanning { socket }, ScanEvent::ScanReturned { status, head: 0 }) == (
            ScanStateView::Finished,
            Some(ScanActionView::Finish { close: Some(socket), outcome: Ok(Seq::empty()) }),
        ),
{
}

/// Whether a buffer holds text before a terminator.
pub open spec fn holds_text(essid: Seq<u8>) -> bool {
    &&& position(essid, 0u8) < essid.len()
    &&& text_of(essid.take(position(essid, 0u8) as int)) is Some
}

/// The scan of a list ends with one access point for each node, in the
/// list's order, each with the identifier that its node reports. Where
/// the buffer of every node that reports an identifier holds text, an
/// access point has an identifier exactly where its node's flag is set.
pub proof fn lemma_walk_outcome(socket: i32, status: i32, head: usize, nodes: Seq<ResultNode>)
    requires
        status >= 0,
        is_list(head, nodes),
    ensures
        ({
            let actions = run(
                ScanStateView::Scanning { socket },
                seq![ScanEvent::ScanReturned { status, head }] + walk_events(nodes),
            ).1;
            &&& actions.len() > 0
            &&& actions.last() matches ScanActionView::Finish { outcome: Ok(found), .. }
            &&& found.len() == nodes.len()
            &&& forall|i: int| 0 <= i < nodes.len() ==> #[trigger] found[i] == nodes[i].essid_text()
            &&& (forall|i: int|
                0 <= i < nodes.len() && (#[trigger] nodes[i]).has_essid != 0 ==> holds_text(
                    nodes[i].essid@,
                )) ==> forall|i: int|
                0 <= i < nodes.len() ==> (#[trigger] found[i] is Some <==> nodes[i].has_essid != 0)
        }),
{
    lemma_walk(socket, status, head, nodes);
}

/// Walking a list, a scan asks to release each node once, right after it
/// asked to read that node and before it asks to read the next; it asks
/// for no other release.
pub proof fn lemma_walk_releases(socket: i32, status: i32, head: usize, nodes: Seq<ResultNode>)
    requires
        status >= 0,
        is_list(head, nodes),
    ensures
        ({
            let actions = run(
                ScanStateView::Scanning { socket },
                seq![ScanEvent::ScanReturned { status, head }] + walk_events(nodes),
            ).1;
            &&& actions.len() == 2 * nodes.len() + 1
            &&& forall|i: int|
                0 <= i < nodes.len() ==> #[trigger] actions[2 * i] == (ScanActionView::ReadNode {
                    node: address(head, nodes, i),
                })
            &&& forall|i: int|
                0 <= i < nodes.len() ==> #[trigger] actions[2 * i + 1]
                    == (ScanActionView::ReleaseNode { node: address(head, nodes, i) })
            &&& forall|k: int|
                0 <= k < actions.len() && #[trigger] actions[k] is ReleaseNode ==> k % 2 == 1
        }),
{
    lemma_walk(socket, status, head, nodes);
}

/// The socket that `state` holds open.
pub open spec fn open_socket(state: ScanStateView) -> Option<i32> {
    match state {
        ScanStateView::Ranging { socket, .. } => Some(socket),
        ScanStateView::Scanning { socket } => Some(socket),
        ScanStateView::Reading { socket, .. } => Some(socket),
        ScanStateView::Releasing { socket, .. } => Some(socket),
        _ => None,
    }
}

/// A scan ends with the action that finishes it and with no other, and
/// that action hands back the socket that the scan holds open, if it holds
/// one.
pub proof fn lemma_end_hands_back_socket(state: ScanStateView, event: ScanEvent)
    ensures
        ({
            let (next, action) = step(state, event);
            &&& (action is Some && action->0 is Finish) <==> (next is Finished && !(state
                is Finished))
            &&& action matches Some(ScanActionView::Finish { close, .. }) ==> close == open_socket(
                state,
            )
        }),
{
}

/// A scan holds the socket that was opened for it until it ends: a
/// socket that opens is held from then on, and a step that does not end
/// the scan keeps the socket that is held.
pub proof fn lemma_socket_is_kept(state: ScanStateView, event: ScanEvent)
    ensures
        ({
            let next = step(state, event).0;
            &&& state is Opening ==> open_socket(next) == match event {
                ScanEvent::SocketOpened { handle } if handle >= 0 => Some(handle),
                _ => None,
            }
            &&& open_socket(state) is Some && !(next is Finished) ==> open_socket(next)
                == open_socket(state)
        }),
{
}

/// A scan that has ended stays so, and asks for nothing more.
pub proof fn lemma_finished_is_final(events: Seq<ScanEvent>)
    ensures
        run(ScanStateView::Finished, events) == (
            ScanStateView::Finished,
            Seq::<ScanActionView>::empty(),
        ),
    decreases events.len(),
{
    if events.len() > 0 {
        lemma_finished_is_final(events.drop_first());
    }
}

/// A scan whose calls all succeed, on a name that has a terminated form,
/// asks for the socket, the range, the scan and then the list's nodes.
/// It hands the library the name in that form and the socket that was
/// opened, and the version it scans for is the one that the range holds.
pub proof fn lemma_scan(
    name: Seq<u8>,
    socket: i32,
    range_status: i32,
    version: u8,
    scan_status: i32,
    head: usize,
    nodes: Seq<ResultNode>,
)
    requires
        position(name, 0u8) == name.len(),
        socket >= 0,
        range_status >= 0,
        scan_status >= 0,
        is_list(head, nodes),
    ensures
        begin(name).1 == ScanActionView::OpenSocket,
        run(
            begin(name).0,
            seq![
                ScanEvent::SocketOpened { handle: socket },
                ScanEvent::RangeQueried { status: range_status, version },
                ScanEvent::ScanReturned { status: scan_status, head },
            ] + walk_events(nodes),
        ) == (
            ScanStateView::Finished,
            seq![
                ScanActionView::QueryRange { socket, name: name.push(0u8) },
                ScanActionView::Scan { socket, name: name.push(0u8), version: version as i32 },
            ] + walk_actions(socket, head, nodes),
        ),
{
    let events = seq![
        ScanEvent::SocketOpened { handle: socket },
        ScanEvent::RangeQueried { status: range_status, version },
        ScanEvent::ScanReturned { status: scan_status, head },
    ] + walk_events(nodes);
    let second = events.drop_first();
    let third = second.drop_first();
    assert(third =~= seq![ScanEvent::ScanReturned { status: scan_status, head }] + walk_events(
        nodes,
    ));
    lemma_walk(socket, scan_status, head, nodes);
    let form = name.push(0u8);
    let ranging = ScanStateView::Ranging { socket, name: form };
    let scanning = ScanStateView::Scanning { socket };
    assert(run(ranging, second).1 == seq![
        ScanActionView::Scan { socket, name: form, version: version as i32 },
    ] + run(scanning, third).1);
    assert(run(begin(name).0, events).1 =~= seq![
        ScanActionView::QueryRange { socket, name: form },
        ScanActionView::Scan { socket, name: form, version: version as i32 },
    ] + walk_actions(socket, head, nodes));
}

/// Whether `state` awaits what `action` returns.
pub open spec fn awaits(state: ScanStateView, action: ScanActionView) -> bool {
    match (state, action) {
        (ScanStateView::Opening { .. }, ScanActionView::OpenSocket) => true,
        (
            ScanStateView::Ranging { socket, name },
            ScanActionView::QueryRange { socket: asked, name: named },
        ) => asked == socket && named == name,
        (ScanStateView::Scanning { socket }, ScanActionView::Scan { socket: asked, .. }) => asked
            == socket,
        (ScanStateView::Reading { node, .. }, ScanActionView::ReadNode { node: asked }) => asked
            == node,
        (ScanStateView::Releasing { .. }, ScanActionView::ReleaseNode { .. }) => true,
        (ScanStateView::Finished, ScanActionView::Finish { .. }) => true,
        _ => false,
    }
}

/// Whether the actions `trace` treat every node in order: a node is
/// released only right after it was asked to be read, nothing but its
/// release follows the reading of a node, and nothing follows the end.
pub open spec fn orderly(trace: Seq<ScanActionView>) -> bool {
    forall|k: int|
        0 <= k < trace.len() ==> {
            &&& (#[trigger] trace[k]) matches ScanActionView::ReleaseNode { node } ==> k > 0
                && trace[k - 1] == (ScanActionView::ReadNode { node })
            &&& trace[k] matches ScanActionView::ReadNode { node } ==> k + 1 == trace.len()
                || trace[k + 1] == (ScanActionView::ReleaseNode { node })
            &&& trace[k] is Finish ==> k + 1 == trace.len()
        }
}

/// From a state that awaits what `last` returns, whatever the events, the
/// actions after `last` treat every node in order, and the state reached
/// awaits what the last action returns.
proof fn lemma_orderly_from(state: ScanStateView, last: ScanActionView, events: Seq<ScanEvent>)
    requires
        awaits(state, last),
    ensures
        ({
            let trace = seq![last] + run(state, events).1;
            &&& awaits(run(state, events).0, trace.last())
            &&& forall|k: int|
                1 <= k < trace.len() ==> ((
                #[trigger] trace[k]) matches ScanActionView::ReleaseNode { node } ==> trace[k - 1]
                    == (ScanActionView::ReadNode { node }))
            &&& forall|k: int|
                0 <= k < trace.len() ==> {
                    &&& (#[trigger] trace[k]) matches ScanActionView::ReadNode { node } ==> k + 1
                        == trace.len() || trace[k + 1] == (ScanActionView::ReleaseNode { node })
                    &&& trace[k] is Finish ==> k + 1 == trace.len()
                }
        }),
    decreases events.len(),
{
    if events.len() > 0 {
        let (next, action) = step(state, events[0]);
        let rest = events.drop_first();
        let tail = run(next, rest).1;
        match action {
            None => {
                lemma_orderly_from(state, last, rest);
            },
            Some(asked) => {
                lemma_orderly_from(next, asked, rest);
                let trace = seq![last] + run(state, events).1;
                assert(trace =~= seq![last] + (seq![asked] + tail));
            },
        }
    }
}

/// Whatever the library returns, and in whatever order, a scan treats
/// every node in order: it asks to release a node only right after it
/// asked to read that node, and once it has asked to read a node it asks
/// for nothing but that node's release. After the action that ends the
/// scan it asks for nothing.
pub proof fn lemma_scan_is_orderly(name: Seq<u8>, events: Seq<ScanEvent>)
    ensures
        orderly(seq![begin(name).1] + run(begin(name).0, events).1),
{
    lemma_orderly_from(begin(name).0, begin(name).1, events);
}

/// A name that holds a zero byte ends the scan before any call: the first
/// action is the last, it reports the name, and there is no socket to
/// close.
pub proof fn lemma_bad_name_ends_scan(name: Seq<u8>, events: Seq<ScanEvent>)
    requires
        position(name, 0u8) < name.len(),
    ensures
        begin(name).1 == failed(None, IwError::InvalidInterfaceName),
        run(begin(name).0, events) == (ScanStateView::Finished, Seq::<ScanActionView>::empty()),
{
    lemma_finished_is_final(events);
}

} // verus!
