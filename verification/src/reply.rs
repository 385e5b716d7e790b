//! What the file service of the device says on its control connection: where
//! a reply ends in the bytes read so far, what kind of reply it is, which port
//! it offers for data, and which names a listing holds.

use crate::bytes::{
    all_digits, decimal, fields, find_byte, is_digit, is_octet, parse_octet, run_length, split, COMMA,
    CR, HYPHEN, LF, SLASH,
};
use crate::text::{decode_text, lossy_text};
use vstd::prelude::*;
use vstd::slice::*;
use vstd::string::*;
use vstd::utf8::*;

verus! {

pub const OPENING_BRACKET: u8 = 0x28;

pub const CLOSING_BRACKET: u8 = 0x29;

/// The four kinds of reply, told apart by the first digit of the code.
#[derive(Clone, Copy, Debug, PartialEq, Eq, Structural)]
pub enum ReplyClass {
    /// 1xx: the action has begun, another reply follows.
    Preliminary,
    /// 2xx: the action is done.
    Completion,
    /// 3xx: the service waits for the next command of a sequence.
    Intermediate,
    /// Everything else: the service refuses.
    Negative,
}

pub open spec fn class_of(code: u16) -> ReplyClass {
    if 100 <= code < 200 {
        ReplyClass::Preliminary
    } else if 200 <= code < 300 {
        ReplyClass::Completion
    } else if 300 <= code < 400 {
        ReplyClass::Intermediate
    } else {
        ReplyClass::Negative
    }
}

/// The kind of reply that a code stands for.
pub fn classify(code: u16) -> (class: ReplyClass)
    ensures
        class == class_of(code),
{
    if 100 <= code && code < 200 {
        ReplyClass::Preliminary
    } else if 200 <= code && code < 300 {
        ReplyClass::Completion
    } else if 300 <= code && code < 400 {
        ReplyClass::Intermediate
    } else {
        ReplyClass::Negative
    }
}

/// What the bytes read so far hold at their start.
#[derive(Clone, Copy, Debug, PartialEq, Eq, Structural)]
pub enum Scan {
    /// No whole reply yet.
    Incomplete,
    /// A first line, `used` bytes long with its line feed, that opens no reply.
    Malformed { used: usize },
    /// A whole reply with this code, `used` bytes long with its last line feed.
    Reply { code: u16, used: usize },
}

/// A line opens a reply if it starts with the three digits of a code.
pub open spec fn opens_reply(line: Seq<u8>) -> bool {
    line.len() >= 3 && all_digits(line.take(3))
}

/// A line says that the reply goes on if a hyphen follows its code.
pub open spec fn goes_on(line: Seq<u8>) -> bool {
    line.len() >= 4 && line[3] == HYPHEN
}

/// A line closes the reply with the code `code` if it starts with that code
/// and does not say that the reply goes on.
pub open spec fn closes_reply(line: Seq<u8>, code: Seq<u8>) -> bool {
    line.len() >= 3 && line.take(3) == code && !goes_on(line)
}

/// Where the reply with the code `code` ends, looking at the lines from
/// `from` on: behind the line feed of the first whole line that closes it.
pub open spec fn closing_end(buf: Seq<u8>, code: Seq<u8>, from: int) -> Option<int>
    decreases buf.len() - from,
{
    if from < 0 || from >= buf.len() {
        None
    } else {
        let n = run_length(buf.skip(from), LF) as int;
        if from + n >= buf.len() {
            None
        } else if closes_reply(buf.subrange(from, from + n), code) {
            Some(from + n + 1)
        } else {
            closing_end(buf, code, from + n + 1)
        }
    }
}

/// What `buf` holds at its start. Lines end with a line feed. A first line
/// that does not start with three digits is malformed. A first line with a
/// hyphen behind its code opens a reply of several lines, which ends with the
/// first line that starts with the same code and no hyphen behind it. Any
/// other first line is a whole reply.
pub open spec fn scan(buf: Seq<u8>) -> Scan {
    let n = run_length(buf, LF) as int;
    let first = buf.take(n);
    if n >= buf.len() {
        Scan::Incomplete
    } else if !opens_reply(first) {
        Scan::Malformed { used: (n + 1) as usize }
    } else if !goes_on(first) {
        Scan::Reply { code: decimal(first.take(3)) as u16, used: (n + 1) as usize }
    } else {
        match closing_end(buf, first.take(3), n + 1) {
            Some(end) => Scan::Reply { code: decimal(first.take(3)) as u16, used: end as usize },
            None => Scan::Incomplete,
        }
    }
}

/// What three digits write.
pub proof fn lemma_decimal_of_three(s: Seq<u8>)
    requires
        s.len() == 3,
        all_digits(s),
    ensures
        decimal(s) == (s[0] - 0x30) * 100 + (s[1] - 0x30) * 10 + (s[2] - 0x30),
{
    let two = s.drop_last();
    let one = two.drop_last();
    assert(is_digit(s[0]) && is_digit(s[1]) && is_digit(s[2]));
    assert(one.drop_last().len() == 0);
    assert(decimal(one) == 10 * decimal(one.drop_last()) + (one.last() - 0x30) as nat);
    assert(decimal(two) == 10 * decimal(one) + (two.last() - 0x30) as nat);
    assert(decimal(s) == 10 * decimal(two) + (s.last() - 0x30) as nat);
}

fn digit_at(buf: &[u8], at: usize) -> (ok: bool)
    requires
        at < buf.len(),
    ensures
        ok == is_digit(buf@[at as int]),
{
    0x30 <= buf[at] && buf[at] <= 0x39
}

/// Whether the line `buf[from..end]` closes the reply whose code stands at the
/// start of `buf`.
fn closes_at(buf: &[u8], from: usize, end: usize) -> (ok: bool)
    requires
        3 <= from <= end <= buf.len(),
    ensures
        ok == closes_reply(buf@.subrange(from as int, end as int), buf@.take(3)),
{
    let ghost line = buf@.subrange(from as int, end as int);
    if end - from < 3 {
        return false;
    }
    if buf[from] != buf[0] || buf[from + 1] != buf[1] || buf[from + 2] != buf[2] {
        assert(line.take(3)[0] == line[0] && line.take(3)[1] == line[1] && line.take(3)[2]
            == line[2]);
        assert(buf@.take(3)[0] == buf@[0] && buf@.take(3)[1] == buf@[1] && buf@.take(3)[2]
            == buf@[2]);
        return false;
    }
    assert(line.take(3) =~= buf@.take(3));
    !(end - from >= 4 && buf[from + 3] == HYPHEN)
}

/// Looks for a whole reply at the start of the bytes read so far.
#[verifier::loop_isolation(false)]
pub fn scan_reply(buf: &[u8]) -> (out: Scan)
    ensures
        out == scan(buf@),
        match out {
            Scan::Incomplete => true,
            Scan::Malformed { used } => 0 < used <= buf.len(),
            Scan::Reply { used, .. } => 0 < used <= buf.len(),
        },
{
    assert(buf@.skip(0) == buf@);
    let n = find_byte(buf, 0, LF);
    if n >= buf.len() {
        return Scan::Incomplete;
    }
    let ghost first = buf@.take(n as int);
    if n < 3 || !digit_at(buf, 0) || !digit_at(buf, 1) || !digit_at(buf, 2) {
        proof {
            if n >= 3 {
                assert(first.take(3)[0] == buf@[0] && first.take(3)[1] == buf@[1] && first.take(
                    3,
                )[2] == buf@[2]);
            }
        }
        return Scan::Malformed { used: n + 1 };
    }
    let code: u16 = (buf[0] - 0x30) as u16 * 100 + (buf[1] - 0x30) as u16 * 10 + (buf[2]
        - 0x30) as u16;
    proof {
        assert(first.take(3) =~= buf@.take(3));
        assert(all_digits(first.take(3)));
        lemma_decimal_of_three(buf@.take(3));
    }
    if !(n >= 4 && buf[3] == HYPHEN) {
        return Scan::Reply { code, used: n + 1 };
    }
    let mut from: usize = n + 1;
    loop
        invariant
            3 <= from <= buf.len(),
            closing_end(buf@, buf@.take(3), n + 1) == closing_end(buf@, buf@.take(3), from as int),
        decreases buf.len() - from,
    {
        if from >= buf.len() {
            return Scan::Incomplete;
        }
        let end = find_byte(buf, from, LF);
        if end >= buf.len() {
            return Scan::Incomplete;
        }
        if closes_at(buf, from, end) {
            return Scan::Reply { code, used: end + 1 };
        }
        from = end + 1;
    }
}

/// A stretch of bytes without the line feed, and the carriage return before
/// it, that may end it.
pub open spec fn without_line_end(s: Seq<u8>) -> Seq<u8> {
    let t = if s.len() > 0 && s.last() == LF {
        s.drop_last()
    } else {
        s
    };
    if t.len() > 0 && t.last() == CR {
        t.drop_last()
    } else {
        t
    }
}

/// The first `used` bytes of `buf` without their line end.
pub fn trimmed(buf: &[u8], used: usize) -> (out: Vec<u8>)
    requires
        used <= buf.len(),
    ensures
        out@ == without_line_end(buf@.take(used as int)),
{
    let mut end: usize = used;
    if end > 0 && buf[end - 1] == LF {
        end = end - 1;
    }
    if end > 0 && buf[end - 1] == CR {
        end = end - 1;
    }
    let out = slice_to_vec(slice_subrange(buf, 0, end));
    assert(out@ =~= without_line_end(buf@.take(used as int)));
    out
}

/// The port that a reply to the request for a passive data connection offers.
/// The reply names six numbers from 0 to 255 between round brackets, with
/// commas between them; the last two are the port's high and low byte. The
/// first four name a host, which is not used: the data goes to the host of the
/// control connection. A reply of another form offers no port, and neither does
/// one that names port 0.
pub open spec fn passive_port(line: Seq<u8>) -> Option<u16> {
    let open = run_length(line, OPENING_BRACKET) as int;
    let close = open + 1 + run_length(line.skip(open + 1), CLOSING_BRACKET);
    if open >= line.len() || close >= line.len() {
        None
    } else {
        let parts = fields(line.subrange(open + 1, close), COMMA);
        let port = decimal(parts[4]) * 256 + decimal(parts[5]);
        if parts.len() == 6 && (forall|i: int| 0 <= i < parts.len() ==> is_octet(#[trigger] parts[i]))
            && port != 0 {
            Some(port as u16)
        } else {
            None
        }
    }
}

/// Reads the port out of a reply to the request for a passive data connection.
#[verifier::loop_isolation(false)]
pub fn parse_passive(line: &[u8]) -> (port: Option<u16>)
    ensures
        port == passive_port(line@),
{
    assert(line@.skip(0) == line@);
    let open = find_byte(line, 0, OPENING_BRACKET);
    if open >= line.len() {
        return None;
    }
    let close = find_byte(line, open + 1, CLOSING_BRACKET);
    if close >= line.len() {
        return None;
    }
    let parts = split(slice_subrange(line, open + 1, close), COMMA);
    let ghost wanted = fields(line@.subrange(open + 1, close as int), COMMA);
    assert(parts.deep_view() == wanted);
    if parts.len() != 6 {
        return None;
    }
    let mut numbers: Vec<u8> = Vec::new();
    let mut i: usize = 0;
    while i < parts.len()
        invariant
            i <= parts.len() == 6,
            parts.deep_view() == wanted,
            numbers.len() == i,
            forall|j: int| 0 <= j < i ==> is_octet(#[trigger] wanted[j]),
            forall|j: int| 0 <= j < i ==> numbers[j] == decimal(#[trigger] wanted[j]),
        decreases parts.len() - i,
    {
        assert(parts.deep_view()[i as int] =~= parts[i as int]@);
        match parse_octet(parts[i].as_slice()) {
            Some(number) => {
                numbers.push(number);
            },
            None => {
                return None;
            },
        }
        i = i + 1;
    }
    let port: u16 = numbers[4] as u16 * 256 + numbers[5] as u16;
    if port == 0 {
        None
    } else {
        Some(port)
    }
}

/// Whether bytes can stand as the argument of a command: there is at least
/// one, and none is a carriage return or a line feed, which would end the
/// command early.
pub open spec fn is_sendable(s: Seq<u8>) -> bool {
    &&& s.len() > 0
    &&& forall|i: int| 0 <= i < s.len() ==> #[trigger] s[i] != CR && s[i] != LF
}

/// Whether a text can stand as the argument of a command.
pub open spec fn is_sendable_text(text: Seq<char>) -> bool {
    is_sendable(encode_utf8(text))
}

/// Whether a text can stand as the argument of a command.
pub fn check_sendable(text: &str) -> (ok: bool)
    ensures
        ok == is_sendable_text(text@),
{
    let s = text.as_bytes();
    if s.len() == 0 {
        return false;
    }
    let mut i: usize = 0;
    while i < s.len()
        invariant
            i <= s.len(),
            s@ == encode_utf8(text@),
            forall|j: int| 0 <= j < i ==> #[trigger] s@[j] != CR && s@[j] != LF,
        decreases s.len() - i,
    {
        if s[i] == CR || s[i] == LF {
            return false;
        }
        i = i + 1;
    }
    true
}

/// The name that one line of a listing holds: the line without a carriage
/// return at its end, and of that what follows the last slash.
pub open spec fn entry_name(line: Seq<u8>) -> Seq<u8> {
    let bare = if line.len() > 0 && line.last() == CR {
        line.drop_last()
    } else {
        line
    };
    fields(bare, SLASH).last()
}

/// The names that a listing holds: one for each line, in the order of the
/// lines, the lines without a name left out.
pub open spec fn names(raw: Seq<u8>) -> Seq<Seq<u8>>
    decreases raw.len(),
{
    let k = run_length(raw, LF) as int;
    let name = entry_name(raw.take(k));
    let first = if name.len() > 0 {
        seq![name]
    } else {
        Seq::empty()
    };
    if k >= raw.len() {
        first
    } else {
        first + names(raw.skip(k + 1))
    }
}

/// The last field of `fields(s, sep)` is what follows the last separator.
proof fn lemma_last_field(s: Seq<u8>, sep: u8, start: int)
    requires
        0 <= start <= s.len(),
        start == 0 || s[start - 1] == sep,
        forall|j: int| start <= j < s.len() ==> s[j] != sep,
    ensures
        fields(s, sep).last() == s.skip(start),
    decreases s.len(),
{
    let k = run_length(s, sep) as int;
    crate::bytes::lemma_run_length_bounds(s, sep);
    if k >= s.len() {
        assert(start == 0);
        assert(s.skip(0) == s);
    } else {
        let rest = s.skip(k + 1);
        assert(k < start);
        assert forall|j: int| start - k - 1 <= j < rest.len() implies rest[j] != sep by {
            assert(rest[j] == s[j + k + 1]);
        }
        lemma_last_field(rest, sep, start - k - 1);
        crate::bytes::lemma_fields_hold_no_separator(rest, sep);
        assert(rest.skip(start - k - 1) == s.skip(start));
    }
}

/// The name in the line `raw[from..end]`.
fn name_in(raw: &[u8], from: usize, end: usize) -> (name: Vec<u8>)
    requires
        from <= end <= raw.len(),
    ensures
        name@ == entry_name(raw@.subrange(from as int, end as int)),
{
    let ghost line = raw@.subrange(from as int, end as int);
    let mut stop: usize = end;
    if stop > from && raw[stop - 1] == CR {
        stop = stop - 1;
    }
    let ghost bare = raw@.subrange(from as int, stop as int);
    assert(bare =~= if line.len() > 0 && line.last() == CR {
        line.drop_last()
    } else {
        line
    });
    let mut start: usize = stop;
    while start > from && raw[start - 1] != SLASH
        invariant
            from <= start <= stop <= raw.len(),
            forall|j: int| start <= j < stop ==> raw@[j] != SLASH,
        decreases start,
    {
        start = start - 1;
    }
    proof {
        lemma_last_field(bare, SLASH, start - from);
    }
    let name = slice_to_vec(slice_subrange(raw, start, stop));
    assert(name@ =~= bare.skip(start - from));
    name
}

/// The name that a path ends with: the name that a listing would give the
/// entry at that path.
pub fn base_name(path: &[u8]) -> (name: Vec<u8>)
    ensures
        name@ == entry_name(path@),
{
    assert(path@.subrange(0, path.len() as int) == path@);
    name_in(path, 0, path.len())
}

/// Whether two byte strings are the same.
pub fn same_bytes(a: &[u8], b: &[u8]) -> (same: bool)
    ensures
        same == (a@ == b@),
{
    if a.len() != b.len() {
        return false;
    }
    let found = crate::bytes::matches_at(a, b, 0);
    assert(a@.subrange(0, a.len() as int) == a@);
    found
}

/// The names of a directory's entries as the device listed them, handed out
/// one by one. A name that was handed out is gone: the listing cannot be read a
/// second time.
pub struct Listing {
    raw: Vec<u8>,
    at: usize,
}

impl View for Listing {
    type V = Seq<Seq<u8>>;

    /// The names that are still to come.
    closed spec fn view(&self) -> Seq<Seq<u8>> {
        names(self.raw@.skip(self.at as int))
    }
}

impl Listing {
    #[verifier::type_invariant]
    spec fn well_formed(self) -> bool {
        self.at <= self.raw.len()
    }

    /// The listing that the device sent as `raw`.
    pub fn new(raw: Vec<u8>) -> (listing: Listing)
        ensures
            listing@ == names(raw@),
    {
        assert(raw@.skip(0) == raw@);
        Listing { raw, at: 0 }
    }

    /// Hands out the next name as bytes, or `None` when there is none left.
    pub fn next_bytes(&mut self) -> (out: Option<Vec<u8>>)
        ensures
            old(self)@.len() == 0 ==> out is None && final(self)@ == old(self)@,
            old(self)@.len() > 0 ==> out is Some && out->0@ == old(self)@[0] && final(self)@
                == old(self)@.drop_first(),
    {
        proof {
            use_type_invariant(&*self);
        }
        let mut at: usize = self.at;
        let mut found: Option<Vec<u8>> = None;
        while at < self.raw.len() && found.is_none()
            invariant
                at <= self.raw.len(),
                found is None ==> names(self.raw@.skip(at as int)) == old(self)@,
                found is Some ==> old(self)@.len() > 0 && found->0@ == old(self)@[0] && names(
                    self.raw@.skip(at as int),
                ) == old(self)@.drop_first(),
                *self == *old(self),
            decreases self.raw.len() - at + (if found is None { 1nat } else { 0nat }),
        {
            let ghost rest = self.raw@.skip(at as int);
            let end = find_byte(self.raw.as_slice(), at, LF);
            let name = name_in(self.raw.as_slice(), at, end);
            assert(self.raw@.subrange(at as int, end as int) == rest.take(end - at));
            let next: usize = if end < self.raw.len() {
                end + 1
            } else {
                end
            };
            proof {
                if end < self.raw.len() {
                    assert(rest.skip(end - at + 1) == self.raw@.skip(next as int));
                } else {
                    assert(names(self.raw@.skip(next as int)) =~= Seq::<Seq<u8>>::empty());
                }
            }
            if name.len() > 0 {
                assert(names(rest) =~= seq![name@] + names(self.raw@.skip(next as int)));
                assert(names(rest).drop_first() =~= names(self.raw@.skip(next as int)));
                found = Some(name);
            } else {
                assert(names(rest) =~= names(self.raw@.skip(next as int)));
            }
            at = next;
        }
        proof {
            if found is None {
                assert(names(self.raw@.skip(at as int)) =~= Seq::<Seq<u8>>::empty());
            }
        }
        self.at = at;
        found
    }

    /// Reads the rest of the listing, and says whether `name` is among the
    /// names that were still to come.
    pub fn holds(&mut self, name: &[u8]) -> (found: bool)
        ensures
            found == old(self)@.contains(name@),
    {
        let mut found = false;
        loop
            invariant
                found ==> old(self)@.contains(name@),
                !found ==> (old(self)@.contains(name@) <==> self@.contains(name@)),
            ensures
                found == old(self)@.contains(name@),
            decreases self@.len(),
        {
            let ghost before = self@;
            match self.next_bytes() {
                Some(entry) => {
                    assert(before[0] == entry@);
                    if same_bytes(entry.as_slice(), name) {
                        found = true;
                        assert(before.contains(name@));
                    } else {
                        assert forall|i: int| 0 <= i < before.len() && before[i] == name@ implies self@.contains(
                            name@,
                        ) by {
                            assert(self@[i - 1] == before[i]);
                        }
                        assert forall|i: int| 0 <= i < self@.len() && self@[i] == name@ implies before.contains(
                            name@,
                        ) by {
                            assert(before[i + 1] == self@[i]);
                        }
                    }
                },
                None => {
                    break ;
                },
            }
        }
        found
    }

    /// Hands out the next name as text, or `None` when there is none left.
    pub fn next_entry(&mut self) -> (out: Option<String>)
        ensures
            old(self)@.len() == 0 ==> out is None && final(self)@ == old(self)@,
            old(self)@.len() > 0 ==> out is Some && out->0@ == lossy_text(old(self)@[0])
                && final(self)@ == old(self)@.drop_first(),
    {
        match self.next_bytes() {
            Some(name) => Some(decode_text(name.as_slice())),
            None => None,
        }
    }
}

/// The first separator of a byte string stays the first when more bytes
/// follow.
proof fn lemma_run_length_of_longer(s: Seq<u8>, more: Seq<u8>, sep: u8)
    requires
        run_length(s, sep) < s.len(),
    ensures
        run_length(s + more, sep) == run_length(s, sep),
{
    crate::bytes::lemma_run_length_bounds(s, sep);
    let k = run_length(s, sep) as int;
    assert forall|j: int| 0 <= j < k implies (s + more)[j] != sep by {
        assert((s + more)[j] == s[j]);
    }
    assert((s + more)[k] == s[k]);
    crate::bytes::lemma_run_length(s + more, sep, k);
}

proof fn lemma_closing_end_of_longer(buf: Seq<u8>, more: Seq<u8>, code: Seq<u8>, from: int)
    requires
        closing_end(buf, code, from) is Some,
    ensures
        closing_end(buf + more, code, from) == closing_end(buf, code, from),
    decreases buf.len() - from,
{
    let n = run_length(buf.skip(from), LF) as int;
    assert((buf + more).skip(from) =~= buf.skip(from) + more);
    lemma_run_length_of_longer(buf.skip(from), more, LF);
    assert((buf + more).subrange(from, from + n) =~= buf.subrange(from, from + n));
    if !closes_reply(buf.subrange(from, from + n), code) {
        lemma_closing_end_of_longer(buf, more, code, from + n + 1);
    }
}

/// A reply that is whole stays what it is: what follows it in the bytes read
/// changes neither its code nor its length. So it makes no difference whether
/// the bytes of the control connection come in one piece or in many.
pub proof fn law_whole_reply_stays(buf: Seq<u8>, more: Seq<u8>)
    requires
        !(scan(buf) is Incomplete),
    ensures
        scan(buf + more) == scan(buf),
{
    let n = run_length(buf, LF) as int;
    lemma_run_length_of_longer(buf, more, LF);
    assert((buf + more).take(n) =~= buf.take(n));
    let first = buf.take(n);
    if opens_reply(first) && goes_on(first) {
        lemma_closing_end_of_longer(buf, more, first.take(3), n + 1);
    }
}

/// The last field of a byte string is its end from some place on.
proof fn lemma_last_field_is_an_end(s: Seq<u8>, sep: u8) -> (from: int)
    ensures
        0 <= from <= s.len(),
        fields(s, sep).last() == s.skip(from),
    decreases s.len(),
{
    let k = run_length(s, sep) as int;
    if k >= s.len() {
        assert(s.skip(0) == s);
        0
    } else {
        let rest = s.skip(k + 1);
        let inner = lemma_last_field_is_an_end(rest, sep);
        crate::bytes::lemma_fields_hold_no_separator(rest, sep);
        assert(rest.skip(inner) == s.skip(k + 1 + inner));
        k + 1 + inner
    }
}

/// The names of a listing are names: none is empty, and none holds a slash
/// or a line feed.
pub proof fn law_names_are_plain(raw: Seq<u8>, i: int)
    requires
        0 <= i < names(raw).len(),
    ensures
        names(raw)[i].len() > 0,
        forall|j: int|
            0 <= j < names(raw)[i].len() ==> #[trigger] names(raw)[i][j] != SLASH && names(
                raw,
            )[i][j] != LF,
    decreases raw.len(),
{
    let k = run_length(raw, LF) as int;
    crate::bytes::lemma_run_length_bounds(raw, LF);
    let line = raw.take(k);
    let bare = if line.len() > 0 && line.last() == CR {
        line.drop_last()
    } else {
        line
    };
    let name = entry_name(line);
    if name.len() > 0 && i == 0 {
        crate::bytes::lemma_fields_hold_no_separator(bare, SLASH);
        let from = lemma_last_field_is_an_end(bare, SLASH);
        assert forall|j: int| 0 <= j < name.len() implies #[trigger] name[j] != SLASH && name[j]
            != LF by {
            assert(name[j] == fields(bare, SLASH)[fields(bare, SLASH).len() - 1][j]);
            assert(name[j] == bare[from + j]);
            assert(bare[from + j] == raw[from + j]);
        }
    } else {
        let rest = raw.skip(k + 1);
        if name.len() > 0 {
            assert(names(raw)[i] == names(rest)[i - 1]);
            law_names_are_plain(rest, i - 1);
        } else {
            assert(names(raw) =~= names(rest));
            law_names_are_plain(rest, i);
        }
    }
}

} // verus!
