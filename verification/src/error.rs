//! What can go wrong, one type per component, and the one line that reports
//! each kind to the operator.

use colored::Colorize;
use vstd::prelude::*;
use vstd::string::*;

verus! {

/// The target could not be named: no address, a malformed one, or no
/// application identity.
#[derive(Clone, Copy, Debug, PartialEq, Eq, Structural)]
pub enum ResolveError {
    /// No address was given and none is stored.
    NoIpFound,
    /// The address is no well-formed address.
    BadIpAddr,
    /// No source yields an application identity.
    NoTitleId,
}

/// The stored address could not be written.
#[derive(Clone, Copy, Debug, PartialEq, Eq, Structural)]
pub enum PersistError {
    /// No home directory is known.
    NoHomeDir,
    /// The configuration directory could not be created.
    CreateSwitchDirDenied,
    /// The file that holds the address could not be written.
    WriteIpDenied,
}

/// A file transfer failed.
#[derive(Debug)]
pub enum TransferError {
    /// The file service refused or dropped something; the text is its own.
    TransferFailure(String),
    /// The local file could not be read; the text is the system's.
    LocalIoFailure(String),
    /// A sidecar file is declared and is not there.
    NoSidecarFound,
}

/// The diagnostic output could not be had.
#[derive(Debug)]
pub enum ListenError {
    /// The device could not be reached; the text is the system's.
    ConnectFailure(String),
}

/// Every failure of a command.
#[derive(Debug)]
pub enum Error {
    Resolve(ResolveError),
    Persist(PersistError),
    Transfer(TransferError),
    Listen(ListenError),
    /// A process that worked for the command ended with this status.
    ExitStatus(i32),
}

pub enum TransferFault {
    TransferFailure(Seq<char>),
    LocalIoFailure(Seq<char>),
    NoSidecarFound,
}

pub enum ListenFault {
    ConnectFailure(Seq<char>),
}

pub enum Fault {
    Resolve(ResolveError),
    Persist(PersistError),
    Transfer(TransferFault),
    Listen(ListenFault),
    ExitStatus(i32),
}

impl View for TransferError {
    type V = TransferFault;

    open spec fn view(&self) -> TransferFault {
        match self {
            TransferError::TransferFailure(text) => TransferFault::TransferFailure(text@),
            TransferError::LocalIoFailure(text) => TransferFault::LocalIoFailure(text@),
            TransferError::NoSidecarFound => TransferFault::NoSidecarFound,
        }
    }
}

impl View for ListenError {
    type V = ListenFault;

    open spec fn view(&self) -> ListenFault {
        match self {
            ListenError::ConnectFailure(text) => ListenFault::ConnectFailure(text@),
        }
    }
}

impl View for Error {
    type V = Fault;

    open spec fn view(&self) -> Fault {
        match self {
            Error::Resolve(e) => Fault::Resolve(*e),
            Error::Persist(e) => Fault::Persist(*e),
            Error::Transfer(e) => Fault::Transfer(e@),
            Error::Listen(e) => Fault::Listen(e@),
            Error::ExitStatus(code) => Fault::ExitStatus(*code),
        }
    }
}

/// The sentence that goes with a kind of failure that carries no text of
/// its own.
pub open spec fn sentence(fault: Fault) -> Seq<char> {
    match fault {
        Fault::Resolve(ResolveError::NoIpFound) =>
            ": No address is configured. Pass one with --ip, or store one with set-ip"@,
        Fault::Resolve(ResolveError::BadIpAddr) => ": The address is not a well-formed address"@,
        Fault::Resolve(ResolveError::NoTitleId) =>
            ": No title id is known. Pass one with --title-id, or declare one in Cargo.toml"@,
        Fault::Persist(PersistError::NoHomeDir) => ": No home directory could be found"@,
        Fault::Persist(PersistError::CreateSwitchDirDenied) => ": Could not create $HOME/.switch"@,
        Fault::Persist(PersistError::WriteIpDenied) => ": Could not write IP to file"@,
        Fault::Transfer(TransferFault::NoSidecarFound) =>
            ": Custom NPDM file specified in Cargo.toml not found at the specified path."@,
        _ => Seq::empty(),
    }
}

/// The part of a report that is printed in red.
pub open spec fn heading(fault: Fault) -> Seq<char> {
    match fault {
        Fault::Transfer(TransferFault::TransferFailure(_)) => "An FTP Error Occurred: "@,
        Fault::Transfer(TransferFault::LocalIoFailure(_)) => "IoError: "@,
        Fault::Listen(ListenFault::ConnectFailure(_)) => "Could not reach the device: "@,
        _ => "ERROR"@,
    }
}

/// The part of a report that follows the heading: the text that the failure
/// carries, or the sentence for its kind.
pub open spec fn detail(fault: Fault) -> Seq<char> {
    match fault {
        Fault::Transfer(TransferFault::TransferFailure(text)) => text,
        Fault::Transfer(TransferFault::LocalIoFailure(text)) => text,
        Fault::Listen(ListenFault::ConnectFailure(text)) => text,
        _ => sentence(fault),
    }
}

/// Whether a failure is reported at all: one that only hands on the status of
/// a process is not, since that process has spoken for itself.
pub open spec fn is_reported(fault: Fault) -> bool {
    !(fault is ExitStatus)
}

/// The report of a failure in plain text.
pub open spec fn plain_report(fault: Fault) -> Seq<char> {
    heading(fault) + detail(fault)
}

/// A text between the escape sequences that switch red on and all colours
/// off.
pub open spec fn in_red(text: Seq<char>) -> Seq<char> {
    "\x1B[31m"@ + text + "\x1B[0m"@
}

/// The report of a failure with its heading in red.
pub open spec fn red_report(fault: Fault) -> Seq<char> {
    in_red(heading(fault)) + detail(fault)
}

/// The status with which a command ends: 0 when it succeeded; the status of
/// the process that failed where one is known and is not 0; otherwise 1.
pub open spec fn status_of(outcome: Result<(), Fault>) -> i32 {
    match outcome {
        Ok(_) => 0,
        Err(Fault::ExitStatus(code)) => if code != 0 {
            code
        } else {
            1
        },
        Err(_) => 1,
    }
}

/// `colored`'s `Colorize::red` on a string slice, written out through the
/// `Display` of the `ColoredString` that it gives. The crate prints the text
/// as it is where colours are switched off (by the environment, or because the
/// output is no terminal), and between the escape sequences for red and for
/// reset where they are on. Which of the two it is depends on the process's
/// surroundings, so the contract leaves it open. A text that holds an escape
/// character is left out: the crate treats reset sequences inside a text in a
/// way of its own.
#[verifier::external_body]
fn paint_red(text: &str) -> (out: String)
    requires
        !text@.contains('\x1B'),
    ensures
        out@ == text@ || out@ == in_red(text@),
{
    text.red().to_string()
}

impl TransferError {
    /// A second value with the same kind and text.
    pub fn duplicate(&self) -> (out: TransferError)
        ensures
            out@ == self@,
    {
        match self {
            TransferError::TransferFailure(text) => TransferError::TransferFailure(text.clone()),
            TransferError::LocalIoFailure(text) => TransferError::LocalIoFailure(text.clone()),
            TransferError::NoSidecarFound => TransferError::NoSidecarFound,
        }
    }
}

impl ListenError {
    /// A second value with the same kind and text.
    pub fn duplicate(&self) -> (out: ListenError)
        ensures
            out@ == self@,
    {
        match self {
            ListenError::ConnectFailure(text) => ListenError::ConnectFailure(text.clone()),
        }
    }
}

impl Error {
    /// A second value with the same kind and text.
    pub fn duplicate(&self) -> (out: Error)
        ensures
            out@ == self@,
    {
        match self {
            Error::Resolve(e) => Error::Resolve(*e),
            Error::Persist(e) => Error::Persist(*e),
            Error::Transfer(e) => Error::Transfer(e.duplicate()),
            Error::Listen(e) => Error::Listen(e.duplicate()),
            Error::ExitStatus(code) => Error::ExitStatus(*code),
        }
    }

    fn heading(&self) -> (out: &'static str)
        ensures
            out@ == heading(self@),
            !out@.contains('\x1B'),
    {
        proof {
            reveal_strlit("An FTP Error Occurred: ");
            reveal_strlit("IoError: ");
            reveal_strlit("Could not reach the device: ");
            reveal_strlit("ERROR");
        }
        match self {
            Error::Transfer(TransferError::TransferFailure(_)) => "An FTP Error Occurred: ",
            Error::Transfer(TransferError::LocalIoFailure(_)) => "IoError: ",
            Error::Listen(ListenError::ConnectFailure(_)) => "Could not reach the device: ",
            _ => "ERROR",
        }
    }

    fn detail(&self) -> (out: String)
        ensures
            out@ == detail(self@),
    {
        match self {
            Error::Transfer(TransferError::TransferFailure(text)) => text.clone(),
            Error::Transfer(TransferError::LocalIoFailure(text)) => text.clone(),
            Error::Listen(ListenError::ConnectFailure(text)) => text.clone(),
            Error::Resolve(ResolveError::NoIpFound) => String::from_str(
                ": No address is configured. Pass one with --ip, or store one with set-ip",
            ),
            Error::Resolve(ResolveError::BadIpAddr) => String::from_str(
                ": The address is not a well-formed address",
            ),
            Error::Resolve(ResolveError::NoTitleId) => String::from_str(
                ": No title id is known. Pass one with --title-id, or declare one in Cargo.toml",
            ),
            Error::Persist(PersistError::NoHomeDir) => String::from_str(
                ": No home directory could be found",
            ),
            Error::Persist(PersistError::CreateSwitchDirDenied) => String::from_str(
                ": Could not create $HOME/.switch",
            ),
            Error::Persist(PersistError::WriteIpDenied) => String::from_str(
                ": Could not write IP to file",
            ),
            Error::Transfer(TransferError::NoSidecarFound) => String::from_str(
                ": Custom NPDM file specified in Cargo.toml not found at the specified path.",
            ),
            Error::ExitStatus(_) => String::new(),
        }
    }

    /// The line that tells the operator of this failure, in plain text; none
    /// for a failure that is not reported.
    pub fn message(&self) -> (out: Option<String>)
        ensures
            out is Some <==> is_reported(self@),
            out is Some ==> out->0@ == plain_report(self@),
    {
        match self {
            Error::ExitStatus(_) => None,
            _ => {
                let line = String::from_str(self.heading());
                Some(line.concat(self.detail().as_str()))
            },
        }
    }

    /// The line that tells the operator of this failure, its heading painted
    /// red where the terminal takes colours; none for a failure that is not
    /// reported.
    pub fn report(&self) -> (out: Option<String>)
        ensures
            out is Some <==> is_reported(self@),
            out is Some ==> out->0@ == plain_report(self@) || out->0@ == red_report(self@),
    {
        match self {
            Error::ExitStatus(_) => None,
            _ => {
                let line = paint_red(self.heading());
                Some(line.concat(self.detail().as_str()))
            },
        }
    }
}

/// The status with which the command ends.
pub fn exit_code(outcome: &Result<(), Error>) -> (status: i32)
    ensures
        status == status_of(
            match *outcome {
                Ok(_) => Ok(()),
                Err(e) => Err(e@),
            },
        ),
        status == 0 <==> outcome is Ok,
{
    match outcome {
        Ok(_) => 0,
        Err(Error::ExitStatus(code)) => if *code != 0 {
            *code
        } else {
            1
        },
        Err(_) => 1,
    }
}

} // verus!
