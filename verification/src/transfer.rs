//! One session with the file service of the device, as a machine that never
//! touches a socket: it says what is to be done on the connections, is told how
//! that went, and says what comes next, until the operation has ended.

use crate::address::DeviceAddress;
use crate::bytes::{CR, LF};
use crate::error::{TransferError, TransferFault};
use crate::reply::{
    check_sendable, class_of, classify, is_sendable_text, names, parse_passive, passive_port, scan,
    scan_reply, trimmed, without_line_end, Listing, ReplyClass, Scan,
};
use crate::text::{decode_text, lossy_text};
use vstd::prelude::*;
use vstd::string::*;
use vstd::utf8::*;

verus! {

/// The port on which the file service listens for control connections.
pub const CONTROL_PORT: u16 = 21;

/// Where a session stands.
#[derive(Clone, Copy, Debug, PartialEq, Eq, Structural)]
pub enum Stage {
    /// Nothing has been opened yet.
    Fresh,
    /// The control connection is being opened.
    Opening,
    /// The greeting of the service is awaited.
    Greeting,
    /// The reply to the user name is awaited.
    User,
    /// The reply to the password is awaited.
    Password,
    /// The reply to the request for binary transfers is awaited.
    Binary,
    /// Logged in; no operation is under way.
    Ready,
    /// The reply to the request to make a directory is awaited.
    Making,
    /// The directory could not be made; the reply to the attempt to enter it
    /// is awaited.
    Probing,
    /// The reply to the request to delete a file is awaited.
    Deleting,
    /// The path could not be deleted as a file; the reply to the request to
    /// remove it as a directory is awaited.
    Unlinking,
    /// The local file is being opened.
    LocalOpening,
    /// The reply to the request for a passive data connection is awaited.
    Passive,
    /// The data connection is being opened.
    DataOpening,
    /// The reply to the request to store or to list is awaited.
    Starting,
    /// The data is on its way.
    Moving,
    /// The reply that ends the transfer is awaited.
    Finishing,
    /// A transfer could not start; what was opened for it is being closed.
    Releasing,
    /// The reply to the farewell is awaited.
    Quitting,
    /// The connections are being closed.
    Closing,
    /// Everything is closed.
    Closed,
    /// The session failed in a way that leaves the control connection of no
    /// use; only closing is left.
    Broken,
}

/// Which way the data of a transfer goes.
#[derive(Clone, Copy, Debug, PartialEq, Eq, Structural)]
pub enum Kind {
    /// A local file goes to the device.
    Upload,
    /// The names in a directory come from the device.
    Listing,
}

/// What the session asks of whoever holds its connections.
#[derive(Debug)]
pub enum Request {
    /// Open the control connection.
    Open { host: String, port: u16 },
    /// Write the line on the control connection, then read from it once.
    Exchange { line: String },
    /// Read from the control connection once more.
    Receive,
    /// Open the local file for reading.
    OpenLocal { path: String },
    /// Open the data connection.
    OpenData { host: String, port: u16 },
    /// Copy the open local file into the data connection, then close both,
    /// however the copying went.
    SendFile,
    /// Read the data connection to its end, then close it.
    ReceiveData,
    /// Close the data connection and the local file, as far as they are open.
    Release,
    /// Close every connection and file of the session.
    Shutdown,
}

/// How a request went.
#[derive(Debug)]
pub enum Response {
    /// It was carried out.
    Done,
    /// It was carried out, and these bytes were read.
    Bytes(Vec<u8>),
    /// The device has closed the connection.
    Closed,
    /// The network failed; the text is the system's.
    Failed(String),
    /// The local file failed; the text is the system's.
    LocalFailed(String),
}

/// An operation of the session.
#[derive(Debug)]
pub enum Op {
    /// Open the control connection and log in.
    Connect,
    /// Make sure that a directory is there.
    EnsureDir(String),
    /// Delete a file or an empty directory.
    Remove(String),
    /// Store a local file under a path on the device.
    Upload { local: String, remote: String },
    /// List the names in a directory.
    ListDir(String),
    /// Say farewell and close the connections.
    Close,
}

impl Op {
    /// A second value for the same operation.
    pub fn duplicate(&self) -> (out: Op)
        ensures
            out@ == self@,
    {
        match self {
            Op::Connect => Op::Connect,
            Op::EnsureDir(path) => Op::EnsureDir(path.clone()),
            Op::Remove(path) => Op::Remove(path.clone()),
            Op::Upload { local, remote } => Op::Upload {
                local: local.clone(),
                remote: remote.clone(),
            },
            Op::ListDir(path) => Op::ListDir(path.clone()),
            Op::Close => Op::Close,
        }
    }
}

/// What an operation that succeeded hands back.
pub enum Outcome {
    Done,
    Listing(Listing),
}

/// Where an operation stands after a step.
pub enum Progress {
    /// This is to be done next, and its result handed to `advance`.
    Ask(Request),
    /// The operation has ended.
    Finished(Result<Outcome, TransferError>),
}

pub enum RequestView {
    Open { host: Seq<char>, port: u16 },
    Exchange { line: Seq<char> },
    Receive,
    OpenLocal { path: Seq<char> },
    OpenData { host: Seq<char>, port: u16 },
    SendFile,
    ReceiveData,
    Release,
    Shutdown,
}

pub enum ResponseView {
    Done,
    Bytes(Seq<u8>),
    Closed,
    Failed(Seq<char>),
    LocalFailed(Seq<char>),
}

pub enum OpView {
    Connect,
    EnsureDir(Seq<char>),
    Remove(Seq<char>),
    Upload { local: Seq<char>, remote: Seq<char> },
    ListDir(Seq<char>),
    Close,
}

pub enum OutcomeView {
    Done,
    Listing(Seq<Seq<u8>>),
}

pub enum ProgressView {
    Ask(RequestView),
    Finished(Result<OutcomeView, TransferFault>),
}

impl View for Request {
    type V = RequestView;

    open spec fn view(&self) -> RequestView {
        match self {
            Request::Open { host, port } => RequestView::Open { host: host@, port: *port },
            Request::Exchange { line } => RequestView::Exchange { line: line@ },
            Request::Receive => RequestView::Receive,
            Request::OpenLocal { path } => RequestView::OpenLocal { path: path@ },
            Request::OpenData { host, port } => RequestView::OpenData { host: host@, port: *port },
            Request::SendFile => RequestView::SendFile,
            Request::ReceiveData => RequestView::ReceiveData,
            Request::Release => RequestView::Release,
            Request::Shutdown => RequestView::Shutdown,
        }
    }
}

impl View for Response {
    type V = ResponseView;

    open spec fn view(&self) -> ResponseView {
        match self {
            Response::Done => ResponseView::Done,
            Response::Bytes(bytes) => ResponseView::Bytes(bytes@),
            Response::Closed => ResponseView::Closed,
            Response::Failed(text) => ResponseView::Failed(text@),
            Response::LocalFailed(text) => ResponseView::LocalFailed(text@),
        }
    }
}

impl View for Op {
    type V = OpView;

    open spec fn view(&self) -> OpView {
        match self {
            Op::Connect => OpView::Connect,
            Op::EnsureDir(path) => OpView::EnsureDir(path@),
            Op::Remove(path) => OpView::Remove(path@),
            Op::Upload { local, remote } => OpView::Upload { local: local@, remote: remote@ },
            Op::ListDir(path) => OpView::ListDir(path@),
            Op::Close => OpView::Close,
        }
    }
}

impl View for Outcome {
    type V = OutcomeView;

    open spec fn view(&self) -> OutcomeView {
        match self {
            Outcome::Done => OutcomeView::Done,
            Outcome::Listing(listing) => OutcomeView::Listing(listing@),
        }
    }
}

impl View for Progress {
    type V = ProgressView;

    open spec fn view(&self) -> ProgressView {
        match self {
            Progress::Ask(request) => ProgressView::Ask(request@),
            Progress::Finished(Ok(outcome)) => ProgressView::Finished(Ok(outcome@)),
            Progress::Finished(Err(e)) => ProgressView::Finished(Err(e@)),
        }
    }
}

/// A session as the contracts see it.
pub struct SessionView {
    /// The host of the device.
    pub host: Seq<char>,
    pub stage: Stage,
    /// Which way the data of the transfer under way goes.
    pub kind: Kind,
    /// The path on the device that the operation under way is about.
    pub path: Seq<char>,
    /// What is reported should the operation under way fail after all.
    pub refusal: Seq<char>,
    /// What was read from the control connection and not yet used.
    pub inbox: Seq<u8>,
    /// What was read from the data connection.
    pub data: Seq<u8>,
}

/// The line that carries a command with an argument.
pub open spec fn command(verb: Seq<char>, argument: Seq<char>) -> Seq<char> {
    verb + " "@ + argument + "\r\n"@
}

pub open spec fn user_line() -> Seq<char> {
    "USER anonymous\r\n"@
}

pub open spec fn password_line() -> Seq<char> {
    "PASS anonymous\r\n"@
}

pub open spec fn binary_line() -> Seq<char> {
    "TYPE I\r\n"@
}

pub open spec fn passive_line() -> Seq<char> {
    "PASV\r\n"@
}

pub open spec fn farewell_line() -> Seq<char> {
    "QUIT\r\n"@
}

/// The command that starts a transfer of the given kind.
pub open spec fn transfer_verb(kind: Kind) -> Seq<char> {
    match kind {
        Kind::Upload => "STOR"@,
        Kind::Listing => "NLST"@,
    }
}

/// What is reported when an operation is asked of a session that is not
/// logged in and idle.
pub open spec fn not_ready() -> Seq<char> {
    "The session is not ready for an operation"@
}

/// What is reported for a path that cannot stand in a command.
pub open spec fn unsendable() -> Seq<char> {
    "The path is empty or holds a line break"@
}

/// What is reported when the device closes the control connection.
pub open spec fn hung_up() -> Seq<char> {
    "The device closed the connection"@
}

/// What is reported when a request is answered in a way that it cannot be.
pub open spec fn out_of_turn() -> Seq<char> {
    "The connection answered out of turn"@
}

/// What is reported when a result is handed in that nothing asked for.
pub open spec fn unasked() -> Seq<char> {
    "No request is under way"@
}

/// An operation that ends with a failure of the transfer.
pub open spec fn refused(text: Seq<char>) -> ProgressView {
    ProgressView::Finished(Err(TransferFault::TransferFailure(text)))
}

/// An operation that ends well and hands nothing back.
pub open spec fn done() -> ProgressView {
    ProgressView::Finished(Ok(OutcomeView::Done))
}

/// The request to send a command and read the reply.
pub open spec fn say(line: Seq<char>) -> ProgressView {
    ProgressView::Ask(RequestView::Exchange { line })
}

/// The session at another stage.
pub open spec fn at(s: SessionView, stage: Stage) -> SessionView {
    SessionView { stage, ..s }
}

/// The session at another stage, with nothing left of what was read before: a
/// reply that is read from now on answers the command that is sent now.
pub open spec fn awaiting(s: SessionView, stage: Stage) -> SessionView {
    SessionView { stage, inbox: Seq::empty(), ..s }
}

/// The session while it closes what a transfer had opened, before it reports
/// `text`.
pub open spec fn releasing(s: SessionView, text: Seq<char>) -> SessionView {
    SessionView { stage: Stage::Releasing, refusal: text, ..s }
}

/// The stages at which the session reads replies and goes by them.
pub open spec fn awaits_reply(stage: Stage) -> bool {
    ||| stage == Stage::Greeting
    ||| stage == Stage::User
    ||| stage == Stage::Password
    ||| stage == Stage::Binary
    ||| stage == Stage::Making
    ||| stage == Stage::Probing
    ||| stage == Stage::Deleting
    ||| stage == Stage::Unlinking
    ||| stage == Stage::Passive
    ||| stage == Stage::Starting
    ||| stage == Stage::Finishing
}

/// What a whole reply of kind `class`, with the bytes `text`, leads to at the
/// stage of `s`: the session after it, and how the operation goes on; `None`
/// where the reply only says that another will follow.
pub open spec fn decided(s: SessionView, class: ReplyClass, text: Seq<u8>) -> (
    SessionView,
    Option<ProgressView>,
) {
    let positive = class == ReplyClass::Completion;
    let told = lossy_text(text);
    match s.stage {
        Stage::Greeting => if class == ReplyClass::Preliminary {
            (s, None)
        } else if positive {
            (awaiting(s, Stage::User), Some(say(user_line())))
        } else {
            (at(s, Stage::Broken), Some(refused(told)))
        },
        Stage::User => if positive {
            (awaiting(s, Stage::Binary), Some(say(binary_line())))
        } else if class == ReplyClass::Intermediate {
            (awaiting(s, Stage::Password), Some(say(password_line())))
        } else {
            (at(s, Stage::Broken), Some(refused(told)))
        },
        Stage::Password => if positive {
            (awaiting(s, Stage::Binary), Some(say(binary_line())))
        } else {
            (at(s, Stage::Broken), Some(refused(told)))
        },
        Stage::Binary => if positive {
            (at(s, Stage::Ready), Some(done()))
        } else {
            (at(s, Stage::Broken), Some(refused(told)))
        },
        Stage::Making => if positive {
            (at(s, Stage::Ready), Some(done()))
        } else {
            (
                SessionView { refusal: told, ..awaiting(s, Stage::Probing) },
                Some(say(command("CWD"@, s.path))),
            )
        },
        Stage::Probing => if positive {
            (at(s, Stage::Ready), Some(done()))
        } else {
            (at(s, Stage::Ready), Some(refused(s.refusal)))
        },
        Stage::Deleting => if positive {
            (at(s, Stage::Ready), Some(done()))
        } else {
            (
                SessionView { refusal: told, ..awaiting(s, Stage::Unlinking) },
                Some(say(command("RMD"@, s.path))),
            )
        },
        Stage::Unlinking => if positive {
            (at(s, Stage::Ready), Some(done()))
        } else {
            (at(s, Stage::Ready), Some(refused(s.refusal)))
        },
        Stage::Passive => match passive_port(text) {
            Some(port) => if positive {
                (
                    at(s, Stage::DataOpening),
                    Some(ProgressView::Ask(RequestView::OpenData { host: s.host, port })),
                )
            } else {
                (releasing(s, told), Some(ProgressView::Ask(RequestView::Release)))
            },
            None => (releasing(s, told), Some(ProgressView::Ask(RequestView::Release))),
        },
        Stage::Starting => if class == ReplyClass::Preliminary {
            (
                at(s, Stage::Moving),
                Some(
                    ProgressView::Ask(
                        match s.kind {
                            Kind::Upload => RequestView::SendFile,
                            Kind::Listing => RequestView::ReceiveData,
                        },
                    ),
                ),
            )
        } else {
            (releasing(s, told), Some(ProgressView::Ask(RequestView::Release)))
        },
        Stage::Finishing => if class == ReplyClass::Preliminary {
            (s, None)
        } else if positive {
            (
                at(s, Stage::Ready),
                Some(
                    ProgressView::Finished(
                        Ok(
                            match s.kind {
                                Kind::Upload => OutcomeView::Done,
                                Kind::Listing => OutcomeView::Listing(names(s.data)),
                            },
                        ),
                    ),
                ),
            )
        } else {
            (at(s, Stage::Ready), Some(refused(told)))
        },
        _ => (at(s, Stage::Broken), Some(refused(out_of_turn()))),
    }
}

/// How the operation goes on with what the session has read: it goes by each
/// whole reply in turn until one decides, and asks for more where none does.
/// A first line that opens no reply breaks the session.
pub open spec fn settled(s: SessionView) -> (SessionView, ProgressView)
    decreases s.inbox.len(),
{
    match scan(s.inbox) {
        Scan::Incomplete => (s, ProgressView::Ask(RequestView::Receive)),
        Scan::Malformed { used } => (
            SessionView { stage: Stage::Broken, inbox: s.inbox.skip(used as int), ..s },
            refused(lossy_text(without_line_end(s.inbox.take(used as int)))),
        ),
        Scan::Reply { code, used } => {
            let read = SessionView { inbox: s.inbox.skip(used as int), ..s };
            let (next, progress) = decided(
                read,
                class_of(code),
                without_line_end(s.inbox.take(used as int)),
            );
            match progress {
                Some(p) => (next, p),
                None => if 0 < used <= s.inbox.len() {
                    settled(next)
                } else {
                    (next, ProgressView::Ask(RequestView::Receive))
                },
            }
        },
    }
}

/// The step of the machine: the session after `r` was handed in, and how the
/// operation goes on.
pub open spec fn advanced(s: SessionView, r: ResponseView) -> (SessionView, ProgressView) {
    if s.stage == Stage::Opening {
        match r {
            ResponseView::Done => (
                awaiting(s, Stage::Greeting),
                ProgressView::Ask(RequestView::Receive),
            ),
            ResponseView::Failed(text) => (at(s, Stage::Closed), refused(text)),
            _ => (at(s, Stage::Broken), refused(out_of_turn())),
        }
    } else if awaits_reply(s.stage) {
        match r {
            ResponseView::Bytes(bytes) => settled(SessionView { inbox: s.inbox + bytes, ..s }),
            ResponseView::Closed => (at(s, Stage::Broken), refused(hung_up())),
            ResponseView::Failed(text) => (at(s, Stage::Broken), refused(text)),
            _ => (at(s, Stage::Broken), refused(out_of_turn())),
        }
    } else if s.stage == Stage::LocalOpening {
        match r {
            ResponseView::Done => (awaiting(s, Stage::Passive), say(passive_line())),
            ResponseView::LocalFailed(text) => (
                at(s, Stage::Ready),
                ProgressView::Finished(Err(TransferFault::LocalIoFailure(text))),
            ),
            _ => (at(s, Stage::Broken), refused(out_of_turn())),
        }
    } else if s.stage == Stage::DataOpening {
        match r {
            ResponseView::Done => (
                awaiting(s, Stage::Starting),
                say(command(transfer_verb(s.kind), s.path)),
            ),
            ResponseView::Failed(text) => (
                releasing(s, text),
                ProgressView::Ask(RequestView::Release),
            ),
            _ => (at(s, Stage::Broken), refused(out_of_turn())),
        }
    } else if s.stage == Stage::Moving {
        match r {
            ResponseView::Done => if s.kind == Kind::Upload {
                settled(at(s, Stage::Finishing))
            } else {
                (at(s, Stage::Broken), refused(out_of_turn()))
            },
            ResponseView::Bytes(data) => if s.kind == Kind::Listing {
                settled(SessionView { stage: Stage::Finishing, data, ..s })
            } else {
                (at(s, Stage::Broken), refused(out_of_turn()))
            },
            ResponseView::LocalFailed(text) => (
                at(s, Stage::Broken),
                ProgressView::Finished(Err(TransferFault::LocalIoFailure(text))),
            ),
            ResponseView::Failed(text) => (at(s, Stage::Broken), refused(text)),
            ResponseView::Closed => (at(s, Stage::Broken), refused(hung_up())),
        }
    } else if s.stage == Stage::Releasing {
        (at(s, Stage::Ready), refused(s.refusal))
    } else if s.stage == Stage::Quitting {
        (at(s, Stage::Closing), ProgressView::Ask(RequestView::Shutdown))
    } else if s.stage == Stage::Closing {
        (at(s, Stage::Closed), done())
    } else {
        (s, refused(unasked()))
    }
}

/// The session after an operation was begun, and how the operation starts. A
/// session that is not logged in and idle refuses every operation but these:
/// a fresh one connects, and any session closes. A path that cannot stand in a
/// command is refused before anything is sent.
pub open spec fn begun(s: SessionView, op: OpView) -> (SessionView, ProgressView) {
    match op {
        OpView::Connect => if s.stage == Stage::Fresh {
            (
                at(s, Stage::Opening),
                ProgressView::Ask(RequestView::Open { host: s.host, port: CONTROL_PORT }),
            )
        } else {
            (s, refused(not_ready()))
        },
        OpView::Close => if s.stage == Stage::Fresh || s.stage == Stage::Closed {
            (at(s, Stage::Closed), done())
        } else if s.stage == Stage::Ready {
            (awaiting(s, Stage::Quitting), say(farewell_line()))
        } else {
            (at(s, Stage::Closing), ProgressView::Ask(RequestView::Shutdown))
        },
        OpView::EnsureDir(path) => if s.stage != Stage::Ready {
            (s, refused(not_ready()))
        } else if !is_sendable_text(path) {
            (s, refused(unsendable()))
        } else {
            (SessionView { path, ..awaiting(s, Stage::Making) }, say(command("MKD"@, path)))
        },
        OpView::Remove(path) => if s.stage != Stage::Ready {
            (s, refused(not_ready()))
        } else if !is_sendable_text(path) {
            (s, refused(unsendable()))
        } else {
            (SessionView { path, ..awaiting(s, Stage::Deleting) }, say(command("DELE"@, path)))
        },
        OpView::Upload { local, remote } => if s.stage != Stage::Ready {
            (s, refused(not_ready()))
        } else if !is_sendable_text(remote) {
            (s, refused(unsendable()))
        } else {
            (
                SessionView { path: remote, kind: Kind::Upload, ..at(s, Stage::LocalOpening) },
                ProgressView::Ask(RequestView::OpenLocal { path: local }),
            )
        },
        OpView::ListDir(path) => if s.stage != Stage::Ready {
            (s, refused(not_ready()))
        } else if !is_sendable_text(path) {
            (s, refused(unsendable()))
        } else {
            (
                SessionView {
                    path,
                    kind: Kind::Listing,
                    data: Seq::empty(),
                    ..awaiting(s, Stage::Passive)
                },
                say(passive_line()),
            )
        },
    }
}

/// A session that has opened nothing yet.
pub open spec fn unopened(host: Seq<char>) -> SessionView {
    SessionView {
        host,
        stage: Stage::Fresh,
        kind: Kind::Upload,
        path: Seq::empty(),
        refusal: Seq::empty(),
        inbox: Seq::empty(),
        data: Seq::empty(),
    }
}

/// A session with the file service of one device. It owns no connection: it
/// is the memory of what was said on them.
pub struct TransferSession {
    host: String,
    stage: Stage,
    kind: Kind,
    path: String,
    refusal: String,
    inbox: Vec<u8>,
    data: Vec<u8>,
}

impl View for TransferSession {
    type V = SessionView;

    closed spec fn view(&self) -> SessionView {
        SessionView {
            host: self.host@,
            stage: self.stage,
            kind: self.kind,
            path: self.path@,
            refusal: self.refusal@,
            inbox: self.inbox@,
            data: self.data@,
        }
    }
}

fn command_line(verb: &str, argument: &str) -> (line: String)
    ensures
        line@ == command(verb@, argument@),
{
    String::from_str(verb).concat(" ").concat(argument).concat("\r\n")
}

impl TransferSession {
    /// A session with the device at `address`, with nothing opened yet.
    pub fn new(address: &DeviceAddress) -> (session: TransferSession)
        ensures
            session@ == unopened(address@),
    {
        TransferSession {
            host: String::from_str(address.as_str()),
            stage: Stage::Fresh,
            kind: Kind::Upload,
            path: String::new(),
            refusal: String::new(),
            inbox: Vec::new(),
            data: Vec::new(),
        }
    }

    /// Where the session stands.
    pub fn stage(&self) -> (stage: Stage)
        ensures
            stage == self@.stage,
    {
        self.stage
    }

    fn fail(&mut self, stage: Stage, text: String) -> (out: Progress)
        ensures
            final(self)@ == at(old(self)@, stage),
            out@ == refused(text@),
    {
        self.stage = stage;
        Progress::Finished(Err(TransferError::TransferFailure(text)))
    }

    fn finish(&mut self) -> (out: Progress)
        ensures
            final(self)@ == at(old(self)@, Stage::Ready),
            out@ == done(),
    {
        self.stage = Stage::Ready;
        Progress::Finished(Ok(Outcome::Done))
    }

    fn say(&mut self, stage: Stage, line: String) -> (out: Progress)
        ensures
            final(self)@ == awaiting(old(self)@, stage),
            out@ == say(line@),
    {
        self.stage = stage;
        self.inbox = Vec::new();
        Progress::Ask(Request::Exchange { line })
    }

    fn release(&mut self, text: String) -> (out: Progress)
        ensures
            final(self)@ == releasing(old(self)@, text@),
            out@ == ProgressView::Ask(RequestView::Release),
    {
        self.stage = Stage::Releasing;
        self.refusal = text;
        Progress::Ask(Request::Release)
    }

    fn decide(&mut self, class: ReplyClass, text: Vec<u8>) -> (out: Option<Progress>)
        ensures
            final(self)@ == decided(old(self)@, class, text@).0,
            match out {
                Some(p) => decided(old(self)@, class, text@).1 == Some(p@),
                None => decided(old(self)@, class, text@).1 is None,
            },
    {
        let positive = class == ReplyClass::Completion;
        match self.stage {
            Stage::Greeting => {
                if class == ReplyClass::Preliminary {
                    None
                } else if positive {
                    Some(self.say(Stage::User, String::from_str("USER anonymous\r\n")))
                } else {
                    Some(self.fail(Stage::Broken, decode_text(text.as_slice())))
                }
            },
            Stage::User => {
                if positive {
                    Some(self.say(Stage::Binary, String::from_str("TYPE I\r\n")))
                } else if class == ReplyClass::Intermediate {
                    Some(self.say(Stage::Password, String::from_str("PASS anonymous\r\n")))
                } else {
                    Some(self.fail(Stage::Broken, decode_text(text.as_slice())))
                }
            },
            Stage::Password => {
                if positive {
                    Some(self.say(Stage::Binary, String::from_str("TYPE I\r\n")))
                } else {
                    Some(self.fail(Stage::Broken, decode_text(text.as_slice())))
                }
            },
            Stage::Binary => {
                if positive {
                    Some(self.finish())
                } else {
                    Some(self.fail(Stage::Broken, decode_text(text.as_slice())))
                }
            },
            Stage::Making => {
                if positive {
                    Some(self.finish())
                } else {
                    self.refusal = decode_text(text.as_slice());
                    let line = command_line("CWD", self.path.as_str());
                    Some(self.say(Stage::Probing, line))
                }
            },
            Stage::Probing | Stage::Unlinking => {
                if positive {
                    Some(self.finish())
                } else {
                    let text = self.refusal.clone();
                    Some(self.fail(Stage::Ready, text))
                }
            },
            Stage::Deleting => {
                if positive {
                    Some(self.finish())
                } else {
                    self.refusal = decode_text(text.as_slice());
                    let line = command_line("RMD", self.path.as_str());
                    Some(self.say(Stage::Unlinking, line))
                }
            },
            Stage::Passive => {
                match parse_passive(text.as_slice()) {
                    Some(port) => {
                        if positive {
                            self.stage = Stage::DataOpening;
                            Some(Progress::Ask(Request::OpenData { host: self.host.clone(), port }))
                        } else {
                            Some(self.release(decode_text(text.as_slice())))
                        }
                    },
                    None => Some(self.release(decode_text(text.as_slice()))),
                }
            },
            Stage::Starting => {
                if class == ReplyClass::Preliminary {
                    self.stage = Stage::Moving;
                    match self.kind {
                        Kind::Upload => Some(Progress::Ask(Request::SendFile)),
                        Kind::Listing => Some(Progress::Ask(Request::ReceiveData)),
                    }
                } else {
                    Some(self.release(decode_text(text.as_slice())))
                }
            },
            Stage::Finishing => {
                if class == ReplyClass::Preliminary {
                    None
                } else if positive {
                    self.stage = Stage::Ready;
                    match self.kind {
                        Kind::Upload => Some(Progress::Finished(Ok(Outcome::Done))),
                        Kind::Listing => {
                            let mut data: Vec<u8> = Vec::new();
                            let ghost before = self.data@;
                            data.append(&mut self.data);
                            self.data = data.clone();
                            assert(self.data@ == before);
                            Some(Progress::Finished(Ok(Outcome::Listing(Listing::new(data)))))
                        },
                    }
                } else {
                    Some(self.fail(Stage::Ready, decode_text(text.as_slice())))
                }
            },
            _ => Some(self.fail(Stage::Broken, String::from_str("The connection answered out of turn"))),
        }
    }

    fn settle(&mut self) -> (out: Progress)
        ensures
            (final(self)@, out@) == settled(old(self)@),
    {
        loop
            invariant
                settled(self@) == settled(old(self)@),
            decreases self.inbox.len(),
        {
            let ghost s = self@;
            match scan_reply(self.inbox.as_slice()) {
                Scan::Incomplete => {
                    return Progress::Ask(Request::Receive);
                },
                Scan::Malformed { used } => {
                    let text = decode_text(trimmed(self.inbox.as_slice(), used).as_slice());
                    let rest = self.inbox.split_off(used);
                    self.inbox = rest;
                    assert(self.inbox@ == s.inbox.skip(used as int));
                    return self.fail(Stage::Broken, text);
                },
                Scan::Reply { code, used } => {
                    let text = trimmed(self.inbox.as_slice(), used);
                    let rest = self.inbox.split_off(used);
                    self.inbox = rest;
                    assert(self.inbox@ == s.inbox.skip(used as int));
                    let ghost read = self@;
                    match self.decide(classify(code), text) {
                        Some(progress) => {
                            return progress;
                        },
                        None => {
                            assert(self@ == read);
                            assert(settled(s) == settled(self@));
                        },
                    }
                },
            }
        }
    }

    /// Takes the result of the request that the session asked for last, and
    /// says how the operation goes on.
    pub fn advance(&mut self, response: Response) -> (out: Progress)
        ensures
            (final(self)@, out@) == advanced(old(self)@, response@),
    {
        match self.stage {
            Stage::Opening => {
                match response {
                    Response::Done => {
                        self.stage = Stage::Greeting;
                        self.inbox = Vec::new();
                        Progress::Ask(Request::Receive)
                    },
                    Response::Failed(text) => self.fail(Stage::Closed, text),
                    _ => self.fail(Stage::Broken, String::from_str("The connection answered out of turn")),
                }
            },
            Stage::Greeting | Stage::User | Stage::Password | Stage::Binary | Stage::Making
            | Stage::Probing | Stage::Deleting | Stage::Unlinking | Stage::Passive
            | Stage::Starting | Stage::Finishing => {
                match response {
                    Response::Bytes(bytes) => {
                        let mut bytes = bytes;
                        self.inbox.append(&mut bytes);
                        self.settle()
                    },
                    Response::Closed => self.fail(
                        Stage::Broken,
                        String::from_str("The device closed the connection"),
                    ),
                    Response::Failed(text) => self.fail(Stage::Broken, text),
                    _ => self.fail(Stage::Broken, String::from_str("The connection answered out of turn")),
                }
            },
            Stage::LocalOpening => {
                match response {
                    Response::Done => self.say(Stage::Passive, String::from_str("PASV\r\n")),
                    Response::LocalFailed(text) => {
                        self.stage = Stage::Ready;
                        Progress::Finished(Err(TransferError::LocalIoFailure(text)))
                    },
                    _ => self.fail(Stage::Broken, String::from_str("The connection answered out of turn")),
                }
            },
            Stage::DataOpening => {
                match response {
                    Response::Done => {
                        let line = match self.kind {
                            Kind::Upload => command_line("STOR", self.path.as_str()),
                            Kind::Listing => command_line("NLST", self.path.as_str()),
                        };
                        self.say(Stage::Starting, line)
                    },
                    Response::Failed(text) => self.release(text),
                    _ => self.fail(Stage::Broken, String::from_str("The connection answered out of turn")),
                }
            },
            Stage::Moving => {
                match response {
                    Response::Done => {
                        if self.kind == Kind::Upload {
                            self.stage = Stage::Finishing;
                            self.settle()
                        } else {
                            self.fail(Stage::Broken, String::from_str("The connection answered out of turn"))
                        }
                    },
                    Response::Bytes(data) => {
                        if self.kind == Kind::Listing {
                            self.stage = Stage::Finishing;
                            self.data = data;
                            self.settle()
                        } else {
                            self.fail(Stage::Broken, String::from_str("The connection answered out of turn"))
                        }
                    },
                    Response::LocalFailed(text) => {
                        self.stage = Stage::Broken;
                        Progress::Finished(Err(TransferError::LocalIoFailure(text)))
                    },
                    Response::Failed(text) => self.fail(Stage::Broken, text),
                    Response::Closed => self.fail(
                        Stage::Broken,
                        String::from_str("The device closed the connection"),
                    ),
                }
            },
            Stage::Releasing => {
                let text = self.refusal.clone();
                self.fail(Stage::Ready, text)
            },
            Stage::Quitting => {
                self.stage = Stage::Closing;
                Progress::Ask(Request::Shutdown)
            },
            Stage::Closing => {
                self.stage = Stage::Closed;
                Progress::Finished(Ok(Outcome::Done))
            },
            _ => {
                let stage = self.stage;
                self.fail(stage, String::from_str("No request is under way"))
            },
        }
    }

    fn refuse_unless_ready(&mut self, path: &str) -> (out: Option<Progress>)
        ensures
            final(self)@ == old(self)@,
            out is None <==> old(self)@.stage == Stage::Ready && is_sendable_text(path@),
            out is Some ==> out->0@ == (if old(self)@.stage != Stage::Ready {
                refused(not_ready())
            } else {
                refused(unsendable())
            }),
    {
        if self.stage != Stage::Ready {
            let stage = self.stage;
            Some(self.fail(stage, String::from_str("The session is not ready for an operation")))
        } else if !check_sendable(path) {
            let stage = self.stage;
            Some(self.fail(stage, String::from_str("The path is empty or holds a line break")))
        } else {
            None
        }
    }

    /// Opens the control connection and logs in, without a name of its own.
    pub fn connect(&mut self) -> (out: Progress)
        ensures
            (final(self)@, out@) == begun(old(self)@, OpView::Connect),
    {
        if self.stage == Stage::Fresh {
            self.stage = Stage::Opening;
            Progress::Ask(Request::Open { host: self.host.clone(), port: CONTROL_PORT })
        } else {
            let stage = self.stage;
            self.fail(stage, String::from_str("The session is not ready for an operation"))
        }
    }

    /// Makes sure that the directory `path` is there: asks for it to be made,
    /// and where that is refused, looks whether it can be entered. A directory
    /// that is there already is thus no failure; where it is not there and
    /// cannot be made, the failure carries what the device said to the attempt
    /// to make it.
    pub fn ensure_dir(&mut self, path: &str) -> (out: Progress)
        ensures
            (final(self)@, out@) == begun(old(self)@, OpView::EnsureDir(path@)),
    {
        match self.refuse_unless_ready(path) {
            Some(progress) => progress,
            None => {
                self.path = String::from_str(path);
                self.say(Stage::Making, command_line("MKD", path))
            },
        }
    }

    /// Deletes the file, or else the empty directory, at `path`. Where the
    /// device refuses both, the failure carries what it said to the first.
    pub fn remove(&mut self, path: &str) -> (out: Progress)
        ensures
            (final(self)@, out@) == begun(old(self)@, OpView::Remove(path@)),
    {
        match self.refuse_unless_ready(path) {
            Some(progress) => progress,
            None => {
                self.path = String::from_str(path);
                self.say(Stage::Deleting, command_line("DELE", path))
            },
        }
    }

    /// Stores the local file `local` under `remote` on the device, in place
    /// of what may be there.
    pub fn upload(&mut self, local: &str, remote: &str) -> (out: Progress)
        ensures
            (final(self)@, out@) == begun(
                old(self)@,
                OpView::Upload { local: local@, remote: remote@ },
            ),
    {
        match self.refuse_unless_ready(remote) {
            Some(progress) => progress,
            None => {
                self.path = String::from_str(remote);
                self.kind = Kind::Upload;
                self.stage = Stage::LocalOpening;
                Progress::Ask(Request::OpenLocal { path: String::from_str(local) })
            },
        }
    }

    /// Lists the names in the directory `path`.
    pub fn list_dir(&mut self, path: &str) -> (out: Progress)
        ensures
            (final(self)@, out@) == begun(old(self)@, OpView::ListDir(path@)),
    {
        match self.refuse_unless_ready(path) {
            Some(progress) => progress,
            None => {
                self.path = String::from_str(path);
                self.kind = Kind::Listing;
                self.data = Vec::new();
                self.say(Stage::Passive, String::from_str("PASV\r\n"))
            },
        }
    }

    /// Closes the session, wherever it stands: with a farewell where the
    /// device is waiting for a command, and at once where it is not.
    pub fn close(&mut self) -> (out: Progress)
        ensures
            (final(self)@, out@) == begun(old(self)@, OpView::Close),
    {
        if self.stage == Stage::Fresh || self.stage == Stage::Closed {
            self.stage = Stage::Closed;
            Progress::Finished(Ok(Outcome::Done))
        } else if self.stage == Stage::Ready {
            self.say(Stage::Quitting, String::from_str("QUIT\r\n"))
        } else {
            self.stage = Stage::Closing;
            Progress::Ask(Request::Shutdown)
        }
    }

    /// Begins an operation.
    pub fn begin(&mut self, op: &Op) -> (out: Progress)
        ensures
            (final(self)@, out@) == begun(old(self)@, op@),
    {
        match op {
            Op::Connect => self.connect(),
            Op::EnsureDir(path) => self.ensure_dir(path.as_str()),
            Op::Remove(path) => self.remove(path.as_str()),
            Op::Upload { local, remote } => self.upload(local.as_str(), remote.as_str()),
            Op::ListDir(path) => self.list_dir(path.as_str()),
            Op::Close => self.close(),
        }
    }
}

/// Bytes that are one whole reply and nothing more.
pub open spec fn is_whole_reply(bytes: Seq<u8>) -> bool {
    scan(bytes) matches Scan::Reply { used, .. } && used == bytes.len()
}

/// The kind of a whole reply.
pub open spec fn reply_class(bytes: Seq<u8>) -> ReplyClass {
    match scan(bytes) {
        Scan::Reply { code, .. } => class_of(code),
        _ => ReplyClass::Negative,
    }
}

/// How an operation that takes up to two exchanges ends when the device
/// answers the first command with `first` and the second, if it comes to
/// that, with `second`.
pub open spec fn after_two_replies(
    s: SessionView,
    op: OpView,
    first: Seq<u8>,
    second: Seq<u8>,
) -> (SessionView, ProgressView) {
    let (begun_at, start) = begun(s, op);
    if start is Ask {
        let (first_at, next) = advanced(begun_at, ResponseView::Bytes(first));
        if next is Ask {
            advanced(first_at, ResponseView::Bytes(second))
        } else {
            (first_at, next)
        }
    } else {
        (begun_at, start)
    }
}

proof fn lemma_one_reply(s: SessionView, bytes: Seq<u8>)
    requires
        is_whole_reply(bytes),
        awaits_reply(s.stage),
        s.inbox.len() == 0,
        s.stage != Stage::Greeting && s.stage != Stage::Finishing,
    ensures
        advanced(s, ResponseView::Bytes(bytes)) == ({
            let (next, progress) = decided(
                SessionView { inbox: Seq::empty(), ..s },
                reply_class(bytes),
                without_line_end(bytes),
            );
            (next, progress->0)
        }),
        decided(
            SessionView { inbox: Seq::empty(), ..s },
            reply_class(bytes),
            without_line_end(bytes),
        ).1 is Some,
{
    let read = SessionView { inbox: s.inbox + bytes, ..s };
    assert(s.inbox + bytes =~= bytes);
    assert(bytes.skip(bytes.len() as int) =~= Seq::<u8>::empty());
    assert(bytes.take(bytes.len() as int) =~= bytes);
}

/// `ensure_dir` succeeds exactly if the device makes the directory or lets
/// the client enter it, and fails otherwise with what the device said to the
/// request to make it. So it can be called again on a directory that is there,
/// be it from an earlier call: the device then lets the client enter it, and
/// the call succeeds whatever the device says to the request to make it.
pub proof fn law_ensure_dir(s: SessionView, path: Seq<char>, first: Seq<u8>, second: Seq<u8>)
    requires
        s.stage == Stage::Ready,
        is_sendable_text(path),
        is_whole_reply(first),
        is_whole_reply(second),
    ensures
        ({
            let (after, progress) = after_two_replies(s, OpView::EnsureDir(path), first, second);
            &&& after.stage == Stage::Ready
            &&& progress == if reply_class(first) == ReplyClass::Completion || reply_class(second)
                == ReplyClass::Completion {
                done()
            } else {
                refused(lossy_text(without_line_end(first)))
            }
        }),
{
    let (begun_at, start) = begun(s, OpView::EnsureDir(path));
    lemma_one_reply(begun_at, first);
    let (first_at, next) = advanced(begun_at, ResponseView::Bytes(first));
    if next is Ask {
        lemma_one_reply(first_at, second);
    }
}

/// Called twice in a row, `ensure_dir` succeeds both times: where the first
/// call succeeded the directory is there, and a device lets the client enter a
/// directory that is there; the second call then succeeds whatever the device
/// says to the renewed request to make the directory.
pub proof fn law_ensure_dir_twice(
    s: SessionView,
    path: Seq<char>,
    made: Seq<u8>,
    entered: Seq<u8>,
    made_again: Seq<u8>,
    entered_again: Seq<u8>,
)
    requires
        s.stage == Stage::Ready,
        is_sendable_text(path),
        is_whole_reply(made),
        is_whole_reply(entered),
        is_whole_reply(made_again),
        is_whole_reply(entered_again),
        after_two_replies(s, OpView::EnsureDir(path), made, entered).1 == done(),
        reply_class(entered_again) == ReplyClass::Completion,
    ensures
        after_two_replies(
            after_two_replies(s, OpView::EnsureDir(path), made, entered).0,
            OpView::EnsureDir(path),
            made_again,
            entered_again,
        ).1 == done(),
{
    law_ensure_dir(s, path, made, entered);
    law_ensure_dir(
        after_two_replies(s, OpView::EnsureDir(path), made, entered).0,
        path,
        made_again,
        entered_again,
    );
}

/// `remove` succeeds exactly if the device deletes the path as a file or
/// removes it as a directory, and fails otherwise with what the device said to
/// the request to delete the file.
pub proof fn law_remove(s: SessionView, path: Seq<char>, first: Seq<u8>, second: Seq<u8>)
    requires
        s.stage == Stage::Ready,
        is_sendable_text(path),
        is_whole_reply(first),
        is_whole_reply(second),
    ensures
        ({
            let (after, progress) = after_two_replies(s, OpView::Remove(path), first, second);
            &&& after.stage == Stage::Ready
            &&& progress == if reply_class(first) == ReplyClass::Completion || reply_class(second)
                == ReplyClass::Completion {
                done()
            } else {
                refused(lossy_text(without_line_end(first)))
            }
        }),
{
    let (begun_at, start) = begun(s, OpView::Remove(path));
    lemma_one_reply(begun_at, first);
    let (first_at, next) = advanced(begun_at, ResponseView::Bytes(first));
    if next is Ask {
        lemma_one_reply(first_at, second);
    }
}

/// Closing releases what is open, wherever the session stands and however
/// the requests go: a session with nothing open is closed at once; one that is
/// idle says farewell and then shuts its connections; any other shuts them at
/// once. In each case the session ends closed.
pub proof fn law_close_releases(s: SessionView, one: ResponseView, other: ResponseView)
    ensures
        ({
            let (begun_at, start) = begun(s, OpView::Close);
            let (first_at, next) = advanced(begun_at, one);
            let (second_at, last) = advanced(first_at, other);
            if s.stage == Stage::Fresh || s.stage == Stage::Closed {
                start == done() && begun_at.stage == Stage::Closed
            } else if s.stage == Stage::Ready {
                &&& start == say(farewell_line())
                &&& next == ProgressView::Ask(RequestView::Shutdown)
                &&& last == done()
                &&& second_at.stage == Stage::Closed
            } else {
                &&& start == ProgressView::Ask(RequestView::Shutdown)
                &&& next == done()
                &&& first_at.stage == Stage::Closed
            }
        }),
{
}

/// A session that is closed, or was never opened, asks for nothing: whatever
/// is handed to it, it stays as it is.
pub proof fn law_closed_stays_closed(s: SessionView, r: ResponseView)
    requires
        s.stage == Stage::Closed || s.stage == Stage::Fresh,
    ensures
        advanced(s, r) == (s, refused(unasked())),
{
}

/// Whether bytes are one line and no more: they end with a carriage return
/// and a line feed, and hold neither before that.
pub open spec fn is_one_line(bytes: Seq<u8>) -> bool {
    &&& bytes.len() >= 2
    &&& bytes[bytes.len() - 2] == CR
    &&& bytes[bytes.len() - 1] == LF
    &&& forall|i: int| 0 <= i < bytes.len() - 2 ==> #[trigger] bytes[i] != CR && bytes[i] != LF
}

/// Whether what is asked for, if it is the sending of a command, sends one
/// line and no more.
pub open spec fn sends_one_line(progress: ProgressView) -> bool {
    progress matches ProgressView::Ask(RequestView::Exchange { line }) ==> is_one_line(
        encode_utf8(line),
    )
}

/// Whether the path that the session holds can stand in a command, at the
/// stages from which a command with that path may still be sent.
pub open spec fn holds_sendable_path(s: SessionView) -> bool {
    (s.stage == Stage::Making || s.stage == Stage::Deleting || s.stage == Stage::LocalOpening
        || s.stage == Stage::Passive || s.stage == Stage::DataOpening) ==> is_sendable_text(
        s.path,
    )
}

/// The bytes of one text after another are the bytes of the first and then
/// those of the second.
pub proof fn lemma_bytes_of_concat(a: Seq<char>, b: Seq<char>)
    ensures
        encode_utf8(a + b) == encode_utf8(a) + encode_utf8(b),
    decreases a.len(),
{
    if a.len() == 0 {
        assert(a + b =~= b);
        assert(encode_utf8(a) + encode_utf8(b) =~= encode_utf8(b));
    } else {
        assert((a + b).drop_first() =~= a.drop_first() + b);
        lemma_bytes_of_concat(a.drop_first(), b);
        assert(encode_utf8(a + b) =~= encode_utf8(a) + encode_utf8(b));
    }
}

proof fn lemma_plain_line(text: Seq<char>)
    requires
        is_ascii_chars(text),
        text.len() >= 2,
        text[text.len() - 2] == '\r',
        text[text.len() - 1] == '\n',
        forall|i: int| 0 <= i < text.len() - 2 ==> #[trigger] text[i] != '\r' && text[i] != '\n',
    ensures
        is_one_line(encode_utf8(text)),
{
    is_ascii_chars_encode_utf8(text);
    let bytes = encode_utf8(text);
    assert forall|i: int| 0 <= i < bytes.len() - 2 implies #[trigger] bytes[i] != CR && bytes[i]
        != LF by {
        assert(text[i] as u8 == bytes[i]);
    }
    assert(text[text.len() - 2] as u8 == bytes[bytes.len() - 2]);
    assert(text[text.len() - 1] as u8 == bytes[bytes.len() - 1]);
}

proof fn lemma_command_is_one_line(verb: Seq<char>, argument: Seq<char>)
    requires
        is_ascii_chars(verb),
        forall|i: int| 0 <= i < verb.len() ==> #[trigger] verb[i] != '\r' && verb[i] != '\n',
        is_sendable_text(argument),
    ensures
        is_one_line(encode_utf8(command(verb, argument))),
{
    reveal_strlit(" ");
    reveal_strlit("\r\n");
    let head = verb + " "@;
    let end = "\r\n"@;
    assert(is_ascii_chars(head));
    assert(is_ascii_chars(end));
    is_ascii_chars_encode_utf8(head);
    is_ascii_chars_encode_utf8(end);
    lemma_bytes_of_concat(head, argument);
    lemma_bytes_of_concat(head + argument, end);
    let bytes = encode_utf8(command(verb, argument));
    let first = encode_utf8(head);
    let middle = encode_utf8(argument);
    let last = encode_utf8(end);
    assert(bytes == first + middle + last);
    assert(last.len() == 2 && last[0] == CR && last[1] == LF) by {
        assert(end[0] as u8 == last[0]);
        assert(end[1] as u8 == last[1]);
    }
    assert forall|i: int| 0 <= i < bytes.len() - 2 implies #[trigger] bytes[i] != CR && bytes[i]
        != LF by {
        if i < first.len() {
            assert(bytes[i] == first[i]);
            assert(head[i] as u8 == first[i]);
            if i < verb.len() {
                assert(head[i] == verb[i]);
            }
        } else {
            assert(bytes[i] == middle[i - first.len()]);
        }
    }
}

proof fn lemma_fixed_lines()
    ensures
        is_one_line(encode_utf8(user_line())),
        is_one_line(encode_utf8(password_line())),
        is_one_line(encode_utf8(binary_line())),
        is_one_line(encode_utf8(passive_line())),
        is_one_line(encode_utf8(farewell_line())),
{
    reveal_strlit("USER anonymous\r\n");
    reveal_strlit("PASS anonymous\r\n");
    reveal_strlit("TYPE I\r\n");
    reveal_strlit("PASV\r\n");
    reveal_strlit("QUIT\r\n");
    lemma_plain_line(user_line());
    lemma_plain_line(password_line());
    lemma_plain_line(binary_line());
    lemma_plain_line(passive_line());
    lemma_plain_line(farewell_line());
}

proof fn lemma_verb_line(verb: Seq<char>, argument: Seq<char>)
    requires
        verb == "MKD"@ || verb == "CWD"@ || verb == "DELE"@ || verb == "RMD"@ || verb == "STOR"@
            || verb == "NLST"@,
        is_sendable_text(argument),
    ensures
        is_one_line(encode_utf8(command(verb, argument))),
{
    reveal_strlit("MKD");
    reveal_strlit("CWD");
    reveal_strlit("DELE");
    reveal_strlit("RMD");
    reveal_strlit("STOR");
    reveal_strlit("NLST");
    assert(is_ascii_chars(verb));
    assert forall|i: int| 0 <= i < verb.len() implies #[trigger] verb[i] != '\r' && verb[i]
        != '\n' by {}
    lemma_command_is_one_line(verb, argument);
}

proof fn lemma_decided_sends_one_line(s: SessionView, class: ReplyClass, text: Seq<u8>)
    requires
        holds_sendable_path(s),
    ensures
        holds_sendable_path(decided(s, class, text).0),
        decided(s, class, text).1 is Some ==> sends_one_line(decided(s, class, text).1->0),
{
    lemma_fixed_lines();
    if s.stage == Stage::Making {
        lemma_verb_line("CWD"@, s.path);
    }
    if s.stage == Stage::Deleting {
        lemma_verb_line("RMD"@, s.path);
    }
}

proof fn lemma_settled_sends_one_line(s: SessionView)
    requires
        holds_sendable_path(s),
    ensures
        holds_sendable_path(settled(s).0),
        sends_one_line(settled(s).1),
    decreases s.inbox.len(),
{
    match scan(s.inbox) {
        Scan::Reply { code, used } => {
            let read = SessionView { inbox: s.inbox.skip(used as int), ..s };
            let text = without_line_end(s.inbox.take(used as int));
            lemma_decided_sends_one_line(read, class_of(code), text);
            let (next, progress) = decided(read, class_of(code), text);
            if progress is None && 0 < used <= s.inbox.len() {
                lemma_settled_sends_one_line(next);
            }
        },
        _ => {},
    }
}

/// No path can smuggle a second command onto the control connection:
/// whatever operation is begun and whatever is handed in, every command that
/// the session sends is one line and no more, the path in it included.
pub proof fn law_one_command_per_line(s: SessionView, op: OpView, r: ResponseView)
    requires
        holds_sendable_path(s),
    ensures
        holds_sendable_path(begun(s, op).0),
        sends_one_line(begun(s, op).1),
        holds_sendable_path(advanced(s, r).0),
        sends_one_line(advanced(s, r).1),
        holds_sendable_path(unopened(s.host)),
{
    lemma_fixed_lines();
    match op {
        OpView::EnsureDir(path) => {
            if is_sendable_text(path) {
                lemma_verb_line("MKD"@, path);
            }
        },
        OpView::Remove(path) => {
            if is_sendable_text(path) {
                lemma_verb_line("DELE"@, path);
            }
        },
        _ => {},
    }
    if awaits_reply(s.stage) {
        match r {
            ResponseView::Bytes(bytes) => {
                lemma_settled_sends_one_line(SessionView { inbox: s.inbox + bytes, ..s });
            },
            _ => {},
        }
    }
    if s.stage == Stage::DataOpening {
        lemma_verb_line(transfer_verb(s.kind), s.path);
    }
    if s.stage == Stage::Moving {
        match r {
            ResponseView::Done => {
                lemma_settled_sends_one_line(at(s, Stage::Finishing));
            },
            ResponseView::Bytes(data) => {
                lemma_settled_sends_one_line(SessionView { stage: Stage::Finishing, data, ..s });
            },
            _ => {},
        }
    }
}

} // verus!
