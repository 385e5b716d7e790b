//! The device's network address: what a well-formed one is, and the store
//! that keeps the last one used.

use crate::bytes::{
    all_digits, fields, is_digit, is_octet, lemma_fields_hold_no_separator, parse_octet, split, DOT,
    HYPHEN,
};
use crate::error::{Error, Fault, PersistError, ResolveError};
use vstd::prelude::*;
use vstd::string::*;
use vstd::utf8::*;

verus! {

/// Four numbers from 0 to 255 with dots between them.
pub open spec fn is_ipv4(s: Seq<u8>) -> bool {
    let parts = fields(s, DOT);
    &&& parts.len() == 4
    &&& forall|i: int| 0 <= i < parts.len() ==> is_octet(#[trigger] parts[i])
}

/// A letter, a digit or a hyphen.
pub open spec fn is_label_byte(b: u8) -> bool {
    ||| 0x61 <= b <= 0x7a
    ||| 0x41 <= b <= 0x5a
    ||| 0x30 <= b <= 0x39
    ||| b == HYPHEN
}

/// One part of a host name: 1 to 63 letters, digits and hyphens, no hyphen
/// first or last.
pub open spec fn is_label(s: Seq<u8>) -> bool {
    &&& 1 <= s.len() <= 63
    &&& forall|i: int| 0 <= i < s.len() ==> is_label_byte(#[trigger] s[i])
    &&& s[0] != HYPHEN
    &&& s.last() != HYPHEN
}

/// A host name: at most 253 bytes, labels with dots between them, the last
/// label not a number (what ends in a number is read as an address in
/// numbers, and must then be a whole one).
pub open spec fn is_hostname(s: Seq<u8>) -> bool {
    let parts = fields(s, DOT);
    &&& s.len() <= 253
    &&& forall|i: int| 0 <= i < parts.len() ==> is_label(#[trigger] parts[i])
    &&& !all_digits(parts.last())
}

/// A well-formed address, as bytes.
pub open spec fn well_formed(s: Seq<u8>) -> bool {
    is_ipv4(s) || is_hostname(s)
}

/// A well-formed address, as text: its UTF-8 bytes are one.
pub open spec fn well_formed_text(text: Seq<char>) -> bool {
    well_formed(encode_utf8(text))
}

fn check_digits(s: &[u8]) -> (ok: bool)
    ensures
        ok == all_digits(s@),
{
    let mut i: usize = 0;
    while i < s.len()
        invariant
            i <= s.len(),
            forall|j: int| 0 <= j < i ==> is_digit(#[trigger] s@[j]),
        decreases s.len() - i,
    {
        if s[i] < 0x30 || s[i] > 0x39 {
            return false;
        }
        i = i + 1;
    }
    true
}

fn check_label(s: &[u8]) -> (ok: bool)
    ensures
        ok == is_label(s@),
{
    if s.len() < 1 || s.len() > 63 {
        return false;
    }
    if s[0] == HYPHEN || s[s.len() - 1] == HYPHEN {
        return false;
    }
    let mut i: usize = 0;
    while i < s.len()
        invariant
            i <= s.len(),
            forall|j: int| 0 <= j < i ==> is_label_byte(#[trigger] s@[j]),
        decreases s.len() - i,
    {
        let b = s[i];
        let fits = (0x61 <= b && b <= 0x7a) || (0x41 <= b && b <= 0x5a) || (0x30 <= b && b
            <= 0x39) || b == HYPHEN;
        if !fits {
            return false;
        }
        i = i + 1;
    }
    true
}

fn check_ipv4(parts: &Vec<Vec<u8>>) -> (ok: bool)
    ensures
        ok == (parts.len() == 4 && forall|i: int|
            0 <= i < parts.len() ==> is_octet(#[trigger] parts[i]@)),
{
    if parts.len() != 4 {
        return false;
    }
    let mut i: usize = 0;
    while i < parts.len()
        invariant
            i <= parts.len(),
            forall|j: int| 0 <= j < i ==> is_octet(#[trigger] parts[j]@),
        decreases parts.len() - i,
    {
        if parse_octet(parts[i].as_slice()).is_none() {
            return false;
        }
        i = i + 1;
    }
    true
}

fn check_labels(parts: &Vec<Vec<u8>>) -> (ok: bool)
    requires
        parts.len() >= 1,
    ensures
        ok == ((forall|i: int| 0 <= i < parts.len() ==> is_label(#[trigger] parts[i]@))
            && !all_digits(parts[parts.len() - 1]@)),
{
    let mut i: usize = 0;
    while i < parts.len()
        invariant
            i <= parts.len(),
            forall|j: int| 0 <= j < i ==> is_label(#[trigger] parts[j]@),
        decreases parts.len() - i,
    {
        if !check_label(parts[i].as_slice()) {
            return false;
        }
        i = i + 1;
    }
    !check_digits(parts[parts.len() - 1].as_slice())
}

/// Whether the bytes are a well-formed address.
pub fn check_address_bytes(s: &[u8]) -> (ok: bool)
    ensures
        ok == well_formed(s@),
{
    let parts = split(s, DOT);
    proof {
        lemma_fields_hold_no_separator(s@, DOT);
        assert(parts.deep_view().len() == parts.len());
        assert forall|i: int| 0 <= i < parts.len() implies #[trigger] parts[i]@ == fields(s@, DOT)[i] by {
            assert(parts.deep_view()[i] =~= parts[i]@);
        }
    }
    if check_ipv4(&parts) {
        return true;
    }
    s.len() <= 253 && check_labels(&parts)
}

/// Whether the text is a well-formed address.
pub fn check_address(address: &str) -> (ok: bool)
    ensures
        ok == well_formed_text(address@),
{
    check_address_bytes(address.as_bytes())
}

/// A well-formed address of the device.
pub struct DeviceAddress {
    text: String,
}

impl View for DeviceAddress {
    type V = Seq<char>;

    closed spec fn view(&self) -> Seq<char> {
        self.text@
    }
}

impl DeviceAddress {
    #[verifier::type_invariant]
    spec fn well_formed(self) -> bool {
        well_formed_text(self.text@)
    }

    /// Takes a text for an address if it is a well-formed one.
    pub fn parse(text: &str) -> (out: Result<DeviceAddress, ResolveError>)
        ensures
            match out {
                Ok(address) => well_formed_text(text@) && address@ == text@,
                Err(e) => !well_formed_text(text@) && e == ResolveError::BadIpAddr,
            },
    {
        if check_address(text) {
            Ok(DeviceAddress { text: String::from_str(text) })
        } else {
            Err(ResolveError::BadIpAddr)
        }
    }

    /// The address as text; it is well-formed.
    pub fn as_str(&self) -> (text: &str)
        ensures
            text@ == self@,
            well_formed_text(text@),
    {
        proof {
            use_type_invariant(self);
        }
        self.text.as_str()
    }
}

/// What the store holds after `address` was handed to it: the address if it
/// is well formed, and what it held before if not.
pub open spec fn stored_after_set(before: Option<Seq<char>>, address: Seq<char>) -> Option<
    Seq<char>,
> {
    if well_formed_text(address) {
        Some(address)
    } else {
        before
    }
}

/// How handing `address` to the store ends.
pub open spec fn set_verdict(address: Seq<char>) -> Result<(), ResolveError> {
    if well_formed_text(address) {
        Ok(())
    } else {
        Err(ResolveError::BadIpAddr)
    }
}

/// What the store gives out.
pub open spec fn got(stored: Option<Seq<char>>) -> Result<Seq<char>, ResolveError> {
    match stored {
        Some(address) => Ok(address),
        None => Err(ResolveError::NoIpFound),
    }
}

/// The address that a command works on: the one given with it where there is
/// one, else the stored one; in both cases only if it is well formed.
pub open spec fn resolved_address(
    explicit: Option<Seq<char>>,
    stored: Option<Seq<char>>,
) -> Result<Seq<char>, ResolveError> {
    let chosen = match explicit {
        Some(address) => Some(address),
        None => stored,
    };
    match chosen {
        None => Err(ResolveError::NoIpFound),
        Some(address) => if well_formed_text(address) {
            Ok(address)
        } else {
            Err(ResolveError::BadIpAddr)
        },
    }
}

/// What the store holds after a command has resolved its address: an address
/// given with the command becomes the stored one.
pub open spec fn stored_after_resolve(
    explicit: Option<Seq<char>>,
    stored: Option<Seq<char>>,
) -> Option<Seq<char>> {
    match explicit {
        Some(address) => stored_after_set(stored, address),
        None => stored,
    }
}

/// Which failure of writing the stored address is which: the step at which
/// the write stopped.
#[derive(Clone, Copy, Debug, PartialEq, Eq, Structural)]
pub enum PersistStep {
    /// Finding the home directory.
    FindHome,
    /// Creating the configuration directory below it.
    CreateDirectory,
    /// Writing the file.
    WriteFile,
}

/// The failure to report when writing the stored address stopped at `step`.
pub open spec fn failure_at(step: PersistStep) -> PersistError {
    match step {
        PersistStep::FindHome => PersistError::NoHomeDir,
        PersistStep::CreateDirectory => PersistError::CreateSwitchDirDenied,
        PersistStep::WriteFile => PersistError::WriteIpDenied,
    }
}

/// The failure to report when writing the stored address stopped at `step`.
pub fn persist_failure(step: PersistStep) -> (e: Error)
    ensures
        e@ == Fault::Persist(failure_at(step)),
{
    match step {
        PersistStep::FindHome => Error::Persist(PersistError::NoHomeDir),
        PersistStep::CreateDirectory => Error::Persist(PersistError::CreateSwitchDirDenied),
        PersistStep::WriteFile => Error::Persist(PersistError::WriteIpDenied),
    }
}

/// The stored address as the process holds it: what the configuration file
/// held when it was read, and what it is to hold when it is next written.
/// That there is none is a state of its own, not an empty text.
pub struct AddressStore {
    stored: Option<String>,
}

impl View for AddressStore {
    type V = Option<Seq<char>>;

    closed spec fn view(&self) -> Option<Seq<char>> {
        match self.stored {
            Some(text) => Some(text@),
            None => None,
        }
    }
}

impl AddressStore {
    /// The store as read from its file: `None` where the file is not there.
    pub fn load(stored: Option<String>) -> (store: AddressStore)
        ensures
            store@ == stored.deep_view(),
    {
        AddressStore { stored }
    }

    /// What the file is to hold: `None` where nothing was ever stored.
    pub fn contents(&self) -> (stored: Option<&str>)
        ensures
            stored.deep_view() == self@,
    {
        match &self.stored {
            Some(text) => Some(text.as_str()),
            None => None,
        }
    }

    /// Stores `address` if it is well formed, and refuses it unchanged if not.
    pub fn set(&mut self, address: &str) -> (out: Result<(), ResolveError>)
        ensures
            out == set_verdict(address@),
            final(self)@ == stored_after_set(old(self)@, address@),
    {
        if check_address(address) {
            self.stored = Some(String::from_str(address));
            Ok(())
        } else {
            Err(ResolveError::BadIpAddr)
        }
    }

    /// The stored address.
    pub fn get(&self) -> (out: Result<String, ResolveError>)
        ensures
            match out {
                Ok(address) => got(self@) == Ok::<Seq<char>, ResolveError>(address@),
                Err(e) => got(self@) == Err::<Seq<char>, ResolveError>(e),
            },
    {
        match &self.stored {
            Some(text) => Ok(text.clone()),
            None => Err(ResolveError::NoIpFound),
        }
    }
}

/// Resolves the address that a command works on, and makes an address given
/// with the command the stored one.
pub fn resolve_address(explicit: Option<&str>, store: &mut AddressStore) -> (out: Result<
    DeviceAddress,
    ResolveError,
>)
    ensures
        match out {
            Ok(address) => resolved_address(explicit.deep_view(), old(store)@) == Ok::<
                Seq<char>,
                ResolveError,
            >(address@),
            Err(e) => resolved_address(explicit.deep_view(), old(store)@) == Err::<
                Seq<char>,
                ResolveError,
            >(e),
        },
        final(store)@ == stored_after_resolve(explicit.deep_view(), old(store)@),
{
    match explicit {
        Some(address) => {
            match store.set(address) {
                Ok(_) => DeviceAddress::parse(address),
                Err(e) => Err(e),
            }
        },
        None => {
            match store.get() {
                Ok(address) => DeviceAddress::parse(address.as_str()),
                Err(e) => Err(e),
            }
        },
    }
}

/// What is set is what is got: after a well-formed address was handed to the
/// store, whatever it held before, the store gives out that very address.
pub proof fn law_set_then_get(before: Option<Seq<char>>, address: Seq<char>)
    requires
        well_formed_text(address),
    ensures
        set_verdict(address) is Ok,
        got(stored_after_set(before, address)) == Ok::<Seq<char>, ResolveError>(address),
{
}

/// A malformed address is refused as `BadIpAddr` and never stored: the store
/// holds what it held before.
pub proof fn law_malformed_is_refused(before: Option<Seq<char>>, address: Seq<char>)
    requires
        !well_formed_text(address),
    ensures
        set_verdict(address) == Err::<(), ResolveError>(ResolveError::BadIpAddr),
        stored_after_set(before, address) == before,
{
}

/// Every address in numbers is well formed, so it comes back from the store.
pub proof fn law_ipv4_round_trip(before: Option<Seq<char>>, address: Seq<char>)
    requires
        is_ipv4(encode_utf8(address)),
    ensures
        set_verdict(address) is Ok,
        got(stored_after_set(before, address)) == Ok::<Seq<char>, ResolveError>(address),
{
}

} // verus!
