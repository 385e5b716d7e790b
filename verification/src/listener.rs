//! The diagnostic output of the device, followed live: a machine that waits
//! for the device's sign that it is ready, then hands on every piece of text as
//! it comes in, until the device or the operator ends it.

use crate::address::DeviceAddress;
use crate::bytes::{find, first_occurrence, occurs, occurs_at};
use crate::error::{ListenError, ListenFault};
use crate::text::{decode_text, lossy_text};
use vstd::prelude::*;
use vstd::string::*;

verus! {

/// The port on which the device offers its diagnostic output.
pub const DIAGNOSTICS_PORT: u16 = 6969;

/// Why a listening session is over.
#[derive(Clone, Copy, Debug, PartialEq, Eq, Structural)]
pub enum CloseReason {
    /// The device could not be reached.
    ConnectFailure,
    /// The device closed the connection, or the connection dropped.
    RemoteClosed,
    /// The operator ended the session.
    Cancelled,
}

/// Where a listening session stands.
#[derive(Clone, Copy, Debug, PartialEq, Eq, Structural)]
pub enum ListenState {
    Idle,
    Connecting,
    WaitingForHandshake,
    Streaming,
    Closed(CloseReason),
}

/// What the listener asks of whoever holds its connection.
#[derive(Debug)]
pub enum ListenTask {
    /// Open the connection.
    Connect { host: String, port: u16 },
    /// Read from the connection once.
    Read,
    /// Write the text to the operator's output at once, then read from the
    /// connection once.
    Show(String),
    /// Close the connection.
    HangUp,
    /// Nothing more: why the session is over, or the failure.
    Finish(Result<CloseReason, ListenError>),
}

/// How a task went.
#[derive(Debug)]
pub enum Heard {
    /// The connection is open.
    Connected,
    /// These bytes were read.
    Bytes(Vec<u8>),
    /// The device closed the connection.
    Ended,
    /// The operator asked for the end.
    Cancelled,
    /// The connection is closed.
    HungUp,
    /// The network failed; the text is the system's.
    Failed(String),
}

pub enum ListenTaskView {
    Connect { host: Seq<char>, port: u16 },
    Read,
    Show(Seq<char>),
    HangUp,
    Finish(Result<CloseReason, ListenFault>),
}

pub enum HeardView {
    Connected,
    Bytes(Seq<u8>),
    Ended,
    Cancelled,
    HungUp,
    Failed(Seq<char>),
}

impl View for ListenTask {
    type V = ListenTaskView;

    open spec fn view(&self) -> ListenTaskView {
        match self {
            ListenTask::Connect { host, port } => ListenTaskView::Connect {
                host: host@,
                port: *port,
            },
            ListenTask::Read => ListenTaskView::Read,
            ListenTask::Show(text) => ListenTaskView::Show(text@),
            ListenTask::HangUp => ListenTaskView::HangUp,
            ListenTask::Finish(Ok(reason)) => ListenTaskView::Finish(Ok(*reason)),
            ListenTask::Finish(Err(e)) => ListenTaskView::Finish(Err(e@)),
        }
    }
}

impl View for Heard {
    type V = HeardView;

    open spec fn view(&self) -> HeardView {
        match self {
            Heard::Connected => HeardView::Connected,
            Heard::Bytes(bytes) => HeardView::Bytes(bytes@),
            Heard::Ended => HeardView::Ended,
            Heard::Cancelled => HeardView::Cancelled,
            Heard::HungUp => HeardView::HungUp,
            Heard::Failed(text) => HeardView::Failed(text@),
        }
    }
}

/// A listening session as the contracts see it.
pub struct ListenerView {
    /// The host of the device.
    pub host: Seq<char>,
    /// The bytes by which the device says that it is ready.
    pub marker: Seq<u8>,
    pub state: ListenState,
    /// Whether the connection is open.
    pub open: bool,
    /// The end of what was read while waiting: what may be the start of the
    /// marker.
    pub held: Seq<u8>,
    /// What the system said when the device could not be reached.
    pub failure: Seq<char>,
}

/// What is reported when the attempt to connect is answered in a way that it
/// cannot be.
pub open spec fn no_connection() -> Seq<char> {
    "The connection was not opened"@
}

/// What of `joined` is kept while the marker has not been seen: its end, one
/// byte shorter than the marker, since no more of it can be the start of a
/// marker that is still to be completed.
pub open spec fn kept(joined: Seq<u8>, marker: Seq<u8>) -> Seq<u8> {
    if joined.len() < marker.len() {
        joined
    } else {
        joined.skip(joined.len() - marker.len() + 1)
    }
}

/// What follows the first marker in `joined`.
pub open spec fn after_marker(joined: Seq<u8>, marker: Seq<u8>) -> Seq<u8> {
    let at = choose|at: int| first_occurrence(joined, marker, at);
    joined.skip(at + marker.len())
}

/// How the session is finished in a state in which it is over.
pub open spec fn ending(l: ListenerView) -> Result<CloseReason, ListenFault> {
    match l.state {
        ListenState::Closed(CloseReason::ConnectFailure) => Err(
            ListenFault::ConnectFailure(l.failure),
        ),
        ListenState::Closed(reason) => Ok(reason),
        _ => Ok(CloseReason::RemoteClosed),
    }
}

/// The session over for `reason`: the connection is closed first if it is
/// open, and the session finished if it is not.
pub open spec fn closed(l: ListenerView, reason: CloseReason) -> (ListenerView, ListenTaskView) {
    let over = ListenerView { state: ListenState::Closed(reason), ..l };
    if l.open {
        (over, ListenTaskView::HangUp)
    } else {
        (over, ListenTaskView::Finish(ending(over)))
    }
}

/// The request to show what was read, or to read on where nothing was read.
pub open spec fn relay(bytes: Seq<u8>) -> ListenTaskView {
    if bytes.len() == 0 {
        ListenTaskView::Read
    } else {
        ListenTaskView::Show(lossy_text(bytes))
    }
}

/// The step of the machine.
///
/// From `Idle` the session connects, whatever is handed in. While connecting,
/// it waits for the connection, and is over without one as `ConnectFailure`,
/// or as `Cancelled` where the operator asked for the end. While it waits for
/// the handshake it reads, shows nothing, and starts streaming with what
/// follows the first marker. While streaming it shows what it reads, as it
/// reads it. In both it is over as `RemoteClosed` when the connection ends, in
/// whatever way, and as `Cancelled` when the operator asks for the end. Once
/// over it closes the connection if that is open, and then finishes.
pub open spec fn heard(l: ListenerView, h: HeardView) -> (ListenerView, ListenTaskView) {
    match l.state {
        ListenState::Idle => (
            ListenerView { state: ListenState::Connecting, ..l },
            ListenTaskView::Connect { host: l.host, port: DIAGNOSTICS_PORT },
        ),
        ListenState::Connecting => match h {
            HeardView::Connected => (
                ListenerView {
                    state: ListenState::WaitingForHandshake,
                    open: true,
                    held: Seq::empty(),
                    ..l
                },
                ListenTaskView::Read,
            ),
            HeardView::Cancelled => closed(l, CloseReason::Cancelled),
            HeardView::Failed(text) => closed(
                ListenerView { failure: text, ..l },
                CloseReason::ConnectFailure,
            ),
            _ => closed(ListenerView { failure: no_connection(), ..l }, CloseReason::ConnectFailure),
        },
        ListenState::WaitingForHandshake => match h {
            HeardView::Bytes(bytes) => {
                let joined = l.held + bytes;
                if occurs(joined, l.marker) {
                    (
                        ListenerView { state: ListenState::Streaming, held: Seq::empty(), ..l },
                        relay(after_marker(joined, l.marker)),
                    )
                } else {
                    (ListenerView { held: kept(joined, l.marker), ..l }, ListenTaskView::Read)
                }
            },
            HeardView::Cancelled => closed(l, CloseReason::Cancelled),
            _ => closed(l, CloseReason::RemoteClosed),
        },
        ListenState::Streaming => match h {
            HeardView::Bytes(bytes) => (l, relay(bytes)),
            HeardView::Cancelled => closed(l, CloseReason::Cancelled),
            _ => closed(l, CloseReason::RemoteClosed),
        },
        ListenState::Closed(_) => {
            let released = ListenerView { open: false, ..l };
            (released, ListenTaskView::Finish(ending(released)))
        },
    }
}

/// One session of listening to one device.
pub struct Listener {
    host: String,
    marker: Vec<u8>,
    state: ListenState,
    open: bool,
    held: Vec<u8>,
    failure: String,
}

impl View for Listener {
    type V = ListenerView;

    closed spec fn view(&self) -> ListenerView {
        ListenerView {
            host: self.host@,
            marker: self.marker@,
            state: self.state,
            open: self.open,
            held: self.held@,
            failure: self.failure@,
        }
    }
}

/// A session that has not begun.
pub open spec fn idle(host: Seq<char>, marker: Seq<u8>) -> ListenerView {
    ListenerView {
        host,
        marker,
        state: ListenState::Idle,
        open: false,
        held: Seq::empty(),
        failure: Seq::empty(),
    }
}

fn relay_bytes(bytes: &[u8]) -> (out: ListenTask)
    ensures
        out@ == relay(bytes@),
{
    if bytes.len() == 0 {
        ListenTask::Read
    } else {
        ListenTask::Show(decode_text(bytes))
    }
}

impl Listener {
    /// A session with the device at `address`, which says that it is ready by
    /// sending `marker`. With an empty marker the device is taken to be ready
    /// with the first bytes that it sends.
    pub fn new(address: &DeviceAddress, marker: &[u8]) -> (listener: Listener)
        ensures
            listener@ == idle(address@, marker@),
    {
        Listener {
            host: String::from_str(address.as_str()),
            marker: vstd::slice::slice_to_vec(marker),
            state: ListenState::Idle,
            open: false,
            held: Vec::new(),
            failure: String::new(),
        }
    }

    /// Where the session stands.
    pub fn state(&self) -> (state: ListenState)
        ensures
            state == self@.state,
    {
        self.state
    }

    fn finish(&self) -> (out: ListenTask)
        ensures
            out@ == ListenTaskView::Finish(ending(self@)),
    {
        match self.state {
            ListenState::Closed(CloseReason::ConnectFailure) => ListenTask::Finish(
                Err(ListenError::ConnectFailure(self.failure.clone())),
            ),
            ListenState::Closed(reason) => ListenTask::Finish(Ok(reason)),
            _ => ListenTask::Finish(Ok(CloseReason::RemoteClosed)),
        }
    }

    fn end(&mut self, reason: CloseReason) -> (out: ListenTask)
        ensures
            (final(self)@, out@) == closed(old(self)@, reason),
    {
        self.state = ListenState::Closed(reason);
        if self.open {
            ListenTask::HangUp
        } else {
            self.finish()
        }
    }

    /// Begins the session: asks for the connection.
    pub fn listen(&mut self) -> (out: ListenTask)
        ensures
            (final(self)@, out@) == heard(old(self)@, HeardView::Connected),
    {
        self.step(Heard::Connected)
    }

    /// Takes the result of the task that the listener asked for last, and says
    /// what is to be done next.
    pub fn step(&mut self, result: Heard) -> (out: ListenTask)
        ensures
            (final(self)@, out@) == heard(old(self)@, result@),
    {
        match self.state {
            ListenState::Idle => {
                self.state = ListenState::Connecting;
                ListenTask::Connect { host: self.host.clone(), port: DIAGNOSTICS_PORT }
            },
            ListenState::Connecting => {
                match result {
                    Heard::Connected => {
                        self.state = ListenState::WaitingForHandshake;
                        self.open = true;
                        self.held = Vec::new();
                        ListenTask::Read
                    },
                    Heard::Cancelled => self.end(CloseReason::Cancelled),
                    Heard::Failed(text) => {
                        self.failure = text;
                        self.end(CloseReason::ConnectFailure)
                    },
                    _ => {
                        self.failure = String::from_str("The connection was not opened");
                        self.end(CloseReason::ConnectFailure)
                    },
                }
            },
            ListenState::WaitingForHandshake => {
                match result {
                    Heard::Bytes(bytes) => {
                        let mut bytes = bytes;
                        let mut joined: Vec<u8> = Vec::new();
                        joined.append(&mut self.held);
                        joined.append(&mut bytes);
                        match find(joined.as_slice(), self.marker.as_slice()) {
                            Some(at) => {
                                let total = joined.len();
                                assert(occurs_at(joined@, self.marker@, at as int));
                                assert(at + self.marker.len() <= total);
                                self.state = ListenState::Streaming;
                                let rest = joined.split_off(at + self.marker.len());
                                assert(rest@ == after_marker(old(self)@.held + result@->Bytes_0, self.marker@));
                                relay_bytes(rest.as_slice())
                            },
                            None => {
                                assert(self.marker.len() > 0) by {
                                    if self.marker.len() == 0 {
                                        assert(joined@.subrange(0, 0) =~= self.marker@);
                                        assert(occurs_at(joined@, self.marker@, 0));
                                    }
                                }
                                if joined.len() >= self.marker.len() {
                                    let tail = joined.split_off(
                                        joined.len() - self.marker.len() + 1,
                                    );
                                    self.held = tail;
                                } else {
                                    self.held = joined;
                                }
                                ListenTask::Read
                            },
                        }
                    },
                    Heard::Cancelled => self.end(CloseReason::Cancelled),
                    _ => self.end(CloseReason::RemoteClosed),
                }
            },
            ListenState::Streaming => {
                match result {
                    Heard::Bytes(bytes) => relay_bytes(bytes.as_slice()),
                    Heard::Cancelled => self.end(CloseReason::Cancelled),
                    _ => self.end(CloseReason::RemoteClosed),
                }
            },
            ListenState::Closed(_) => {
                self.open = false;
                self.finish()
            },
        }
    }
}

/// Where the marker stands in what was read and in what was kept of it: the
/// same places, counted from the start of what was kept.
proof fn lemma_kept_holds_every_marker(stream: Seq<u8>, marker: Seq<u8>, chunk: Seq<u8>, at: int)
    requires
        !occurs(stream, marker),
    ensures
        occurs_at(stream + chunk, marker, at) <==> (at >= stream.len() - kept(stream, marker).len()
            && occurs_at(
            kept(stream, marker) + chunk,
            marker,
            at - (stream.len() - kept(stream, marker).len()),
        )),
{
    let tail = kept(stream, marker);
    let cut = stream.len() - tail.len();
    let whole = stream + chunk;
    let short = tail + chunk;
    let k = marker.len() as int;
    assert(k > 0) by {
        if k == 0 {
            assert(stream.subrange(0, 0) =~= marker);
            assert(occurs_at(stream, marker, 0));
        }
    }
    assert(0 <= cut && short.len() + cut == whole.len());
    if occurs_at(whole, marker, at) {
        if at < cut {
            assert(at + k <= stream.len());
            assert(stream.subrange(at, at + k) =~= whole.subrange(at, at + k));
            assert(occurs_at(stream, marker, at));
        }
        assert(short.subrange(at - cut, at - cut + k) =~= whole.subrange(at, at + k));
    }
    if at >= cut && occurs_at(short, marker, at - cut) {
        assert(short.subrange(at - cut, at - cut + k) =~= whole.subrange(at, at + k));
    }
}

/// What the session forgets while it waits changes nothing: with the end of
/// the stream that it keeps, it takes the next bytes as it would with all that
/// it has read. So the marker is seen wherever it lies in the stream, also
/// where it comes in pieces, and what is shown first is what follows it.
pub proof fn law_marker_across_reads(l: ListenerView, stream: Seq<u8>, chunk: Seq<u8>)
    requires
        l.state == ListenState::WaitingForHandshake,
        !occurs(stream, l.marker),
        l.held == kept(stream, l.marker),
    ensures
        heard(l, HeardView::Bytes(chunk)).1 == heard(
            ListenerView { held: stream, ..l },
            HeardView::Bytes(chunk),
        ).1,
        heard(l, HeardView::Bytes(chunk)).0.state == heard(
            ListenerView { held: stream, ..l },
            HeardView::Bytes(chunk),
        ).0.state,
        occurs(stream + chunk, l.marker) <==> heard(l, HeardView::Bytes(chunk)).0.state
            == ListenState::Streaming,
        !occurs(stream + chunk, l.marker) ==> heard(l, HeardView::Bytes(chunk)).0.held == kept(
            stream + chunk,
            l.marker,
        ),
{
    let marker = l.marker;
    let tail = kept(stream, marker);
    let cut = stream.len() - tail.len();
    let whole = stream + chunk;
    let short = tail + chunk;
    let k = marker.len() as int;
    assert(k > 0) by {
        if k == 0 {
            assert(stream.subrange(0, 0) =~= marker);
            assert(occurs_at(stream, marker, 0));
        }
    }
    assert(0 <= cut && short.len() + cut == whole.len());
    assert forall|at: int| occurs_at(whole, marker, at) <==> (at >= cut && occurs_at(
        short,
        marker,
        at - cut,
    )) by {
        lemma_kept_holds_every_marker(stream, marker, chunk, at);
    }
    if occurs(whole, marker) {
        let w = choose|at: int| occurs_at(whole, marker, at);
        assert(occurs_at(short, marker, w - cut));
    }
    if occurs(short, marker) {
        let s = choose|at: int| occurs_at(short, marker, at);
        assert(occurs_at(whole, marker, s + cut)) by {
            lemma_kept_holds_every_marker(stream, marker, chunk, s + cut);
        }
        lemma_first_occurrence_exists(whole, marker, s + cut);
        lemma_first_occurrence_exists(short, marker, s);
        let p = choose|at: int| first_occurrence(whole, marker, at);
        let q = choose|at: int| first_occurrence(short, marker, at);
        assert(occurs_at(short, marker, p - cut));
        assert(occurs_at(whole, marker, q + cut)) by {
            lemma_kept_holds_every_marker(stream, marker, chunk, q + cut);
        }
        assert(q == p - cut) by {
            if q < p - cut {
                assert(!occurs_at(whole, marker, q + cut));
            }
            if p - cut < q {
                assert(!occurs_at(short, marker, p - cut));
            }
        }
        assert(whole.skip(p + k) =~= short.skip(q + k));
    } else {
        assert(kept(short, marker) =~= kept(whole, marker));
    }
}

/// Where a byte string stands somewhere, it stands somewhere first.
proof fn lemma_first_occurrence_exists(hay: Seq<u8>, needle: Seq<u8>, at: int)
    requires
        occurs_at(hay, needle, at),
    ensures
        exists|first: int| first_occurrence(hay, needle, first),
    decreases at,
{
    if exists|k: int| 0 <= k < at && occurs_at(hay, needle, k) {
        let k = choose|k: int| 0 <= k < at && occurs_at(hay, needle, k);
        lemma_first_occurrence_exists(hay, needle, k);
    } else {
        assert(first_occurrence(hay, needle, at));
    }
}

/// A session is finished only with its connection closed: it never finishes
/// from a step that leaves the connection open, and a session that is over
/// with its connection open asks for it to be closed.
pub proof fn law_finishes_released(l: ListenerView, h: HeardView)
    ensures
        heard(l, h).1 is Finish ==> !heard(l, h).0.open,
        heard(l, h).0.state is Closed && heard(l, h).0.open ==> heard(l, h).1
            == ListenTaskView::HangUp,
{
}

/// That the device closed the connection, or that the operator ended the
/// session, is no failure: the session fails only where the device could not
/// be reached. And without the marker there is no streaming: a connection that
/// ends while the session waits for the handshake ends the session as
/// `RemoteClosed`.
pub proof fn law_endings(l: ListenerView, h: HeardView)
    ensures
        heard(l, h).1 matches ListenTaskView::Finish(Err(_)) ==> heard(l, h).0.state
            == ListenState::Closed(CloseReason::ConnectFailure),
        l.state == ListenState::WaitingForHandshake && h is Ended ==> heard(l, h).0.state
            == ListenState::Closed(CloseReason::RemoteClosed),
        (l.state == ListenState::WaitingForHandshake || l.state == ListenState::Streaming) && h
            is Cancelled ==> heard(l, h).0.state == ListenState::Closed(CloseReason::Cancelled),
{
}

} // verus!
