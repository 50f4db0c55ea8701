//! The scan for access points.
//!
//! A scan is a run of calls into the wireless configuration library; what
//! each call returns decides the next. The calls are the caller's to make.
//! A `ScanState` tells the caller which call to make next, as a
//! `ScanAction`, and takes what the call returned, as a `ScanEvent`:
//!
//! 1. open a socket for the library;
//! 2. ask for the interface's range of capabilities, which holds the
//!    version of the wireless extensions;
//! 3. scan, which yields the head of a list of result nodes;
//! 4. read a node, then release it, and go on with the node it pointed to,
//!    until a node points to none.
//!
//! A name that the library cannot take ends the scan before any call is
//! made. A call that fails ends the scan with that failure. Whatever ends
//! the scan, the last action hands back the socket, if one was opened, to
//! be closed.

use crate::text::{
    decode_text, find_byte, lemma_position, lemma_position_is, lemma_text_encodes_back,
    lemma_text_of_encoding, position, text_of,
};
use vstd::prelude::*;
use vstd::utf8::encode_utf8;

verus! {

/// Why a scan failed. The numbers are the library's own status codes.
#[derive(Debug, Clone, Copy, PartialEq, Eq, Structural)]
pub enum IwError {
    /// No socket could be opened for the library.
    NoSocket(i32),
    /// The interface's range of capabilities could not be had.
    NoRange(i32),
    /// The scan itself failed.
    ScanFailed(i32),
    /// The interface's name holds a zero byte.
    InvalidInterfaceName,
}

/// An access point that a scan discovered.
#[derive(Debug)]
pub struct AccessPoint {
    essid: Option<String>,
}

impl View for AccessPoint {
    type V = Option<Seq<char>>;

    /// The identifier that the access point advertises, if it does and the
    /// identifier is text.
    closed spec fn view(&self) -> Option<Seq<char>> {
        match self.essid {
            Some(essid) => Some(essid@),
            None => None,
        }
    }
}

/// The identifier that a result node reports.
///
/// It reports one where its flag is not zero. The identifier then is the
/// bytes of the node's buffer up to the first zero, as text. A buffer
/// without a zero, or whose bytes up to it are not UTF-8, gives none.
pub open spec fn node_essid(has_essid: i32, essid: Seq<u8>) -> Option<Seq<char>> {
    let end = position(essid, 0u8);
    if has_essid == 0 || end >= essid.len() {
        None
    } else {
        text_of(essid.take(end as int))
    }
}

/// The identifier that a node reports is encoded by the bytes of the
/// node's buffer before its first zero.
pub proof fn lemma_node_essid_is_encoded(has_essid: i32, essid: Seq<u8>)
    ensures
        node_essid(has_essid, essid) matches Some(text) ==> {
            &&& has_essid != 0
            &&& position(essid, 0u8) < essid.len()
            &&& encode_utf8(text) == essid.take(position(essid, 0u8) as int)
        },
{
    lemma_position(essid, 0u8);
    if position(essid, 0u8) < essid.len() {
        lemma_text_encodes_back(essid.take(position(essid, 0u8) as int));
    }
}

/// A node whose flag is set, and whose buffer begins with the encoding of
/// `text`, which holds no zero, and a zero after it, reports `text`.
pub proof fn lemma_node_essid_of_text(has_essid: i32, text: Seq<char>, essid: Seq<u8>)
    requires
        has_essid != 0,
        encode_utf8(text).len() < essid.len(),
        essid.take(encode_utf8(text).len() as int) == encode_utf8(text),
        essid[encode_utf8(text).len() as int] == 0,
        position(encode_utf8(text), 0u8) == encode_utf8(text).len(),
    ensures
        node_essid(has_essid, essid) == Some(text),
{
    let bytes = encode_utf8(text);
    lemma_position(bytes, 0u8);
    assert forall|i: int| 0 <= i < bytes.len() implies essid[i] != 0 by {
        assert(essid.take(bytes.len() as int)[i] == essid[i]);
    }
    lemma_position_is(essid, 0u8, bytes.len() as int);
    lemma_text_of_encoding(text);
}

impl AccessPoint {
    /// The access point that a result node describes, from the node's flag
    /// and its buffer for the identifier.
    pub fn from_node(has_essid: i32, essid: &[u8]) -> (ap: AccessPoint)
        ensures
            ap@ == node_essid(has_essid, essid@),
    {
        if has_essid == 0 {
            return AccessPoint { essid: None };
        }
        let end = find_byte(essid, 0, essid.len(), 0);
        assert(essid@.subrange(0, essid.len() as int) =~= essid@);
        if end == essid.len() {
            return AccessPoint { essid: None };
        }
        AccessPoint { essid: decode_text(essid, end) }
    }

    /// The identifier that the access point advertises.
    pub fn essid(&self) -> (essid: Option<&str>)
        ensures
            match self@ {
                Some(text) => essid matches Some(s) && s@ == text,
                None => essid is None,
            },
    {
        match &self.essid {
            Some(essid) => Some(essid.as_str()),
            None => None,
        }
    }
}

/// The identifiers of `found`, in order.
pub open spec fn essids_of(found: Seq<AccessPoint>) -> Seq<Option<Seq<char>>> {
    found.map_values(|ap: AccessPoint| ap@)
}

/// The form in which the library takes a name: the name's bytes and a
/// zero after them. A name that holds a zero byte has no such form.
pub open spec fn terminated(name: Seq<u8>) -> Option<Seq<u8>> {
    if position(name, 0u8) < name.len() {
        None
    } else {
        Some(name.push(0u8))
    }
}

/// Puts a name into the form in which the library takes it.
pub fn terminated_name(name: &str) -> (form: Option<Vec<u8>>)
    ensures
        match terminated(encode_utf8(name@)) {
            Some(bytes) => form matches Some(v) && v@ == bytes,
            None => form is None,
        },
{
    let bytes = name.as_bytes();
    let end = find_byte(bytes, 0, bytes.len(), 0);
    assert(bytes@.subrange(0, bytes.len() as int) =~= bytes@);
    if end < bytes.len() {
        return None;
    }
    let mut form = vstd::slice::slice_to_vec(bytes);
    form.push(0);
    Some(form)
}

/// What a node of a list of results holds.
#[derive(Debug)]
pub struct ResultNode {
    /// Not zero where the node reports an identifier.
    pub has_essid: i32,
    /// The node's buffer for the identifier.
    pub essid: Vec<u8>,
    /// The address of the node's successor; zero where it has none.
    pub next: usize,
}

impl ResultNode {
    /// The identifier that the node reports.
    pub open spec fn essid_text(self) -> Option<Seq<char>> {
        node_essid(self.has_essid, self.essid@)
    }
}

/// What a call into the library returned.
#[derive(Debug)]
pub enum ScanEvent {
    /// Opening a socket returned `handle`.
    SocketOpened { handle: i32 },
    /// Asking for the range returned `status`, and the range, which was
    /// all zeros before the call, holds `version`.
    RangeQueried { status: i32, version: u8 },
    /// Scanning returned `status`, and the list's head, which was null
    /// before the call, holds the address `head`.
    ScanReturned { status: i32, head: usize },
    /// The node to be read holds `node`.
    NodeRead { node: ResultNode },
    /// The node to be released has been released.
    NodeReleased,
}

/// The call that the caller is to make next.
#[derive(Debug)]
pub enum ScanAction {
    /// Open a socket for the library.
    OpenSocket,
    /// Ask for the range of the interface called `name`.
    QueryRange { socket: i32, name: Vec<u8> },
    /// Scan on the interface called `name`, for this version of the
    /// wireless extensions.
    Scan { socket: i32, name: Vec<u8>, version: i32 },
    /// Read the node at the address `node`.
    ReadNode { node: usize },
    /// Release the node at the address `node`.
    ReleaseNode { node: usize },
    /// Close the socket `close`, if there is one. The scan has ended with
    /// `outcome`.
    Finish { close: Option<i32>, outcome: Result<Vec<AccessPoint>, IwError> },
}

/// A `ScanAction` as a mathematical value.
pub enum ScanActionView {
    OpenSocket,
    QueryRange { socket: i32, name: Seq<u8> },
    Scan { socket: i32, name: Seq<u8>, version: i32 },
    ReadNode { node: usize },
    ReleaseNode { node: usize },
    Finish { close: Option<i32>, outcome: Result<Seq<Option<Seq<char>>>, IwError> },
}

impl View for ScanAction {
    type V = ScanActionView;

    open spec fn view(&self) -> ScanActionView {
        match *self {
            ScanAction::OpenSocket => ScanActionView::OpenSocket,
            ScanAction::QueryRange { socket, name } => ScanActionView::QueryRange {
                socket,
                name: name@,
            },
            ScanAction::Scan { socket, name, version } => ScanActionView::Scan {
                socket,
                name: name@,
                version,
            },
            ScanAction::ReadNode { node } => ScanActionView::ReadNode { node },
            ScanAction::ReleaseNode { node } => ScanActionView::ReleaseNode { node },
            ScanAction::Finish { close, outcome } => ScanActionView::Finish {
                close,
                outcome: match outcome {
                    Ok(found) => Ok(essids_of(found@)),
                    Err(e) => Err(e),
                },
            },
        }
    }
}

/// How far a scan has come: the call whose result it awaits, and what it
/// keeps for the calls after that.
#[derive(Debug)]
pub enum ScanState {
    /// Awaits the socket. `name` is the interface's name in the library's
    /// form, as it is in the states that follow.
    Opening { name: Vec<u8> },
    /// Awaits the range.
    Ranging { socket: i32, name: Vec<u8> },
    /// Awaits the list of results.
    Scanning { socket: i32 },
    /// Awaits what the node at the address `node` holds.
    Reading { socket: i32, node: usize, found: Vec<AccessPoint> },
    /// Awaits the release of the node that was read last; `next` is the
    /// address of its successor.
    Releasing { socket: i32, next: usize, found: Vec<AccessPoint> },
    /// The scan has ended.
    Finished,
}

/// A `ScanState` as a mathematical value.
pub enum ScanStateView {
    Opening { name: Seq<u8> },
    Ranging { socket: i32, name: Seq<u8> },
    Scanning { socket: i32 },
    Reading { socket: i32, node: usize, found: Seq<Option<Seq<char>>> },
    Releasing { socket: i32, next: usize, found: Seq<Option<Seq<char>>> },
    Finished,
}

impl View for ScanState {
    type V = ScanStateView;

    open spec fn view(&self) -> ScanStateView {
        match *self {
            ScanState::Opening { name } => ScanStateView::Opening { name: name@ },
            ScanState::Ranging { socket, name } => ScanStateView::Ranging { socket, name: name@ },
            ScanState::Scanning { socket } => ScanStateView::Scanning { socket },
            ScanState::Reading { socket, node, found } => ScanStateView::Reading {
                socket,
                node,
                found: essids_of(found@),
            },
            ScanState::Releasing { socket, next, found } => ScanStateView::Releasing {
                socket,
                next,
                found: essids_of(found@),
            },
            ScanState::Finished => ScanStateView::Finished,
        }
    }
}

/// The action, if any, as a mathematical value.
pub open spec fn action_view(action: Option<ScanAction>) -> Option<ScanActionView> {
    match action {
        Some(action) => Some(action@),
        None => None,
    }
}

/// The last action of a scan that failed with `failure`.
pub open spec fn failed(socket: Option<i32>, failure: IwError) -> ScanActionView {
    ScanActionView::Finish { close: socket, outcome: Err(failure) }
}

/// The state in which a scan on the interface called `name` begins, and
/// its first action: to open a socket, where the name has a terminated
/// form. Where it has none the scan ends at once, and no call is made.
pub open spec fn begin(name: Seq<u8>) -> (ScanStateView, ScanActionView) {
    match terminated(name) {
        Some(form) => (ScanStateView::Opening { name: form }, ScanActionView::OpenSocket),
        None => (ScanStateView::Finished, failed(None, IwError::InvalidInterfaceName)),
    }
}

/// The state that follows `state` on `event`, and the action to take then.
///
/// A status below zero is a failure and ends the scan. A list without a
/// head ends the scan with no access point. A node that was read is
/// released before its successor is read, and the scan ends with the
/// access points of all nodes once a node without successor is released.
/// An event that the state does not await changes nothing and asks for no
/// action.
pub open spec fn step(state: ScanStateView, event: ScanEvent) -> (
    ScanStateView,
    Option<ScanActionView>,
) {
    match (state, event) {
        (ScanStateView::Opening { name }, ScanEvent::SocketOpened { handle }) => {
            if handle < 0 {
                (ScanStateView::Finished, Some(failed(None, IwError::NoSocket(handle))))
            } else {
                (
                    ScanStateView::Ranging { socket: handle, name },
                    Some(ScanActionView::QueryRange { socket: handle, name }),
                )
            }
        },
        (ScanStateView::Ranging { socket, name }, ScanEvent::RangeQueried { status, version }) => {
            if status < 0 {
                (ScanStateView::Finished, Some(failed(Some(socket), IwError::NoRange(status))))
            } else {
                (
                    ScanStateView::Scanning { socket },
                    Some(ScanActionView::Scan { socket, name, version: version as i32 }),
                )
            }
        },
        (ScanStateView::Scanning { socket }, ScanEvent::ScanReturned { status, head }) => {
            if status < 0 {
                (ScanStateView::Finished, Some(failed(Some(socket), IwError::ScanFailed(status))))
            } else if head == 0 {
                (
                    ScanStateView::Finished,
                    Some(ScanActionView::Finish { close: Some(socket), outcome: Ok(Seq::empty()) }),
                )
            } else {
                (
                    ScanStateView::Reading { socket, node: head, found: Seq::empty() },
                    Some(ScanActionView::ReadNode { node: head }),
                )
            }
        },
        (
            ScanStateView::Reading { socket, node, found },
            ScanEvent::NodeRead { node: read },
        ) => (
            ScanStateView::Releasing {
                socket,
                next: read.next,
                found: found.push(read.essid_text()),
            },
            Some(ScanActionView::ReleaseNode { node }),
        ),
        (ScanStateView::Releasing { socket, next, found }, ScanEvent::NodeReleased) => {
            if next == 0 {
                (
                    ScanStateView::Finished,
                    Some(ScanActionView::Finish { close: Some(socket), outcome: Ok(found) }),
                )
            } else {
                (
                    ScanStateView::Reading { socket, node: next, found },
                    Some(ScanActionView::ReadNode { node: next }),
                )
            }
        },
        _ => (state, None),
    }
}

/// Ends a scan with `failure`.
fn fail(socket: Option<i32>, failure: IwError) -> (end: (ScanState, Option<ScanAction>))
    ensures
        end.0@ == ScanStateView::Finished,
        action_view(end.1) == Some(failed(socket, failure)),
{
    (ScanState::Finished, Some(ScanAction::Finish { close: socket, outcome: Err(failure) }))
}

impl ScanState {
    /// Begins a scan on the interface called `interface`. The first action
    /// is to open a socket, unless the name holds a zero byte: then the
    /// scan has ended already, with that failure.
    pub fn start(interface: &str) -> (first: (ScanState, ScanAction))
        ensures
            (first.0@, first.1@) == begin(encode_utf8(interface@)),
    {
        match terminated_name(interface) {
            Some(name) => (ScanState::Opening { name }, ScanAction::OpenSocket),
            None => (
                ScanState::Finished,
                ScanAction::Finish { close: None, outcome: Err(IwError::InvalidInterfaceName) },
            ),
        }
    }

    /// Takes what the last call returned, and tells which call to make
    /// next. Where the state does not await `event`, it stays as it is and
    /// there is no action.
    pub fn step(self, event: ScanEvent) -> (next: (ScanState, Option<ScanAction>))
        ensures
            (next.0@, action_view(next.1)) == step(self@, event),
    {
        match self {
            ScanState::Opening { name } => match event {
                ScanEvent::SocketOpened { handle } => {
                    if handle < 0 {
                        fail(None, IwError::NoSocket(handle))
                    } else {
                        let copy = name.clone();
                        (
                            ScanState::Ranging { socket: handle, name },
                            Some(ScanAction::QueryRange { socket: handle, name: copy }),
                        )
                    }
                },
                _ => (ScanState::Opening { name }, None),
            },
            ScanState::Ranging { socket, name } => match event {
                ScanEvent::RangeQueried { status, version } => {
                    if status < 0 {
                        fail(Some(socket), IwError::NoRange(status))
                    } else {
                        (
                            ScanState::Scanning { socket },
                            Some(ScanAction::Scan { socket, name, version: version as i32 }),
                        )
                    }
                },
                _ => (ScanState::Ranging { socket, name }, None),
            },
            ScanState::Scanning { socket } => match event {
                ScanEvent::ScanReturned { status, head } => {
                    if status < 0 {
                        fail(Some(socket), IwError::ScanFailed(status))
                    } else if head == 0 {
                        let found: Vec<AccessPoint> = Vec::new();
                        assert(essids_of(found@) =~= Seq::empty());
                        (
                            ScanState::Finished,
                            Some(ScanAction::Finish { close: Some(socket), outcome: Ok(found) }),
                        )
                    } else {
                        let found: Vec<AccessPoint> = Vec::new();
                        assert(essids_of(found@) =~= Seq::empty());
                        (
                            ScanState::Reading { socket, node: head, found },
                            Some(ScanAction::ReadNode { node: head }),
                        )
                    }
                },
                _ => (ScanState::Scanning { socket }, None),
            },
            ScanState::Reading { socket, node, found } => match event {
                ScanEvent::NodeRead { node: read } => {
                    let mut found = found;
                    let ghost before = found@;
                    found.push(AccessPoint::from_node(read.has_essid, read.essid.as_slice()));
                    assert(essids_of(found@) =~= essids_of(before).push(read.essid_text()));
                    (
                        ScanState::Releasing { socket, next: read.next, found },
                        Some(ScanAction::ReleaseNode { node }),
                    )
                },
                _ => (ScanState::Reading { socket, node, found }, None),
            },
            ScanState::Releasing { socket, next, found } => match event {
                ScanEvent::NodeReleased => {
                    if next == 0 {
                        (
                            ScanState::Finished,
                            Some(ScanAction::Finish { close: Some(socket), outcome: Ok(found) }),
                        )
                    } else {
                        (
                            ScanState::Reading { socket, node: next, found },
                            Some(ScanAction::ReadNode { node: next }),
                        )
                    }
                },
                _ => (ScanState::Releasing { socket, next, found }, None),
            },
            ScanState::Finished => (ScanState::Finished, None),
        }
    }
}

} // verus!
