//! Byte strings: fields between separators, decimal numbers, and the search
//! for one byte string inside another.

use vstd::prelude::*;
use vstd::slice::*;

verus! {

pub const DOT: u8 = 0x2e;

pub const COMMA: u8 = 0x2c;

pub const HYPHEN: u8 = 0x2d;

pub const SLASH: u8 = 0x2f;

pub const CR: u8 = 0x0d;

pub const LF: u8 = 0x0a;

/// How many bytes stand before the first `sep` of `s`; the length of `s`
/// where it holds no `sep`.
pub open spec fn run_length(s: Seq<u8>, sep: u8) -> nat
    decreases s.len(),
{
    if s.len() == 0 || s[0] == sep {
        0
    } else {
        1 + run_length(s.drop_first(), sep)
    }
}

/// The fields of `s`: the stretches between one `sep` and the next. There is
/// always one field more than `s` holds separators, so the empty string has one
/// empty field.
pub open spec fn fields(s: Seq<u8>, sep: u8) -> Seq<Seq<u8>>
    decreases s.len(),
{
    let k = run_length(s, sep) as int;
    if k >= s.len() {
        seq![s]
    } else {
        seq![s.take(k)] + fields(s.skip(k + 1), sep)
    }
}

/// `run_length` is the one position that no separator precedes and that is
/// the end of the string or a separator.
pub proof fn lemma_run_length(s: Seq<u8>, sep: u8, k: int)
    requires
        0 <= k <= s.len(),
        forall|j: int| 0 <= j < k ==> s[j] != sep,
        k == s.len() || s[k] == sep,
    ensures
        run_length(s, sep) == k,
    decreases s.len(),
{
    if k > 0 {
        let rest = s.drop_first();
        assert forall|j: int| 0 <= j < k - 1 implies rest[j] != sep by {
            assert(rest[j] == s[j + 1]);
        }
        lemma_run_length(rest, sep, k - 1);
    }
}

/// What `lemma_run_length` asks holds of `run_length`.
pub proof fn lemma_run_length_bounds(s: Seq<u8>, sep: u8)
    ensures
        run_length(s, sep) <= s.len(),
        forall|j: int| 0 <= j < run_length(s, sep) ==> s[j] != sep,
        run_length(s, sep) < s.len() ==> s[run_length(s, sep) as int] == sep,
    decreases s.len(),
{
    if !(s.len() == 0 || s[0] == sep) {
        let rest = s.drop_first();
        lemma_run_length_bounds(rest, sep);
        assert forall|j: int| 0 <= j < run_length(s, sep) implies s[j] != sep by {
            if j > 0 {
                assert(rest[j - 1] == s[j]);
            }
        }
    }
}

/// No field holds the separator, and there is at least one field.
pub proof fn lemma_fields_hold_no_separator(s: Seq<u8>, sep: u8)
    ensures
        fields(s, sep).len() >= 1,
        forall|i: int, j: int|
            0 <= i < fields(s, sep).len() && 0 <= j < fields(s, sep)[i].len() ==> fields(
                s,
                sep,
            )[i][j] != sep,
    decreases s.len(),
{
    lemma_run_length_bounds(s, sep);
    let k = run_length(s, sep) as int;
    if k < s.len() {
        lemma_fields_hold_no_separator(s.skip(k + 1), sep);
    }
}

/// The position of the first `sep` at or after `from`, or the length of `s`.
pub fn find_byte(s: &[u8], from: usize, sep: u8) -> (at: usize)
    requires
        from <= s.len(),
    ensures
        from <= at <= s.len(),
        at - from == run_length(s@.skip(from as int), sep),
{
    let mut at: usize = from;
    while at < s.len() && s[at] != sep
        invariant
            from <= at <= s.len(),
            forall|j: int| from <= j < at ==> s@[j] != sep,
        decreases s.len() - at,
    {
        at = at + 1;
    }
    proof {
        lemma_run_length(s@.skip(from as int), sep, at - from);
    }
    at
}

/// Cuts `s` into its fields.
pub fn split(s: &[u8], sep: u8) -> (parts: Vec<Vec<u8>>)
    ensures
        parts.deep_view() == fields(s@, sep),
{
    let mut parts: Vec<Vec<u8>> = Vec::new();
    let mut start: usize = 0;
    assert(s@.skip(0) == s@);
    assert(parts.deep_view() + fields(s@, sep) =~= fields(s@, sep));
    loop
        invariant_except_break
            start <= s.len(),
            fields(s@, sep) == parts.deep_view() + fields(s@.skip(start as int), sep),
        ensures
            parts.deep_view() == fields(s@, sep),
        decreases s.len() - start,
    {
        let end = find_byte(s, start, sep);
        let part = slice_to_vec(slice_subrange(s, start, end));
        let ghost rest = s@.skip(start as int);
        let ghost before = parts.deep_view();
        parts.push(part);
        assert(part@ == rest.take(end - start));
        assert(part.deep_view() =~= part@);
        assert(parts.deep_view() =~= before + seq![part@]);
        if end >= s.len() {
            assert(rest.take(end - start) == rest);
            break ;
        }
        assert(rest.skip(end - start + 1) == s@.skip(end + 1));
        start = end + 1;
    }
    parts
}

pub open spec fn is_digit(b: u8) -> bool {
    0x30 <= b <= 0x39
}

pub open spec fn all_digits(s: Seq<u8>) -> bool {
    forall|i: int| 0 <= i < s.len() ==> is_digit(#[trigger] s[i])
}

/// The number that the decimal digits of `s` write.
pub open spec fn decimal(s: Seq<u8>) -> nat
    decreases s.len(),
{
    if s.len() == 0 {
        0
    } else {
        10 * decimal(s.drop_last()) + (s.last() - 0x30) as nat
    }
}

/// A number from 0 to 255 in its shortest decimal writing: one to three
/// digits, with a leading zero only for zero itself.
pub open spec fn is_octet(s: Seq<u8>) -> bool {
    &&& 1 <= s.len() <= 3
    &&& all_digits(s)
    &&& (s.len() > 1 ==> s[0] != 0x30)
    &&& decimal(s) <= 255
}

/// Reads a number from 0 to 255, written as `is_octet` says.
pub fn parse_octet(s: &[u8]) -> (value: Option<u8>)
    ensures
        value is Some <==> is_octet(s@),
        value is Some ==> value->0 == decimal(s@),
{
    if s.len() < 1 || s.len() > 3 {
        return None;
    }
    if s.len() > 1 && s[0] == 0x30 {
        return None;
    }
    let mut total: u16 = 0;
    let mut i: usize = 0;
    while i < s.len()
        invariant
            i <= s.len() <= 3,
            total == decimal(s@.take(i as int)),
            total <= 999,
            forall|j: int| 0 <= j < i ==> is_digit(#[trigger] s@[j]),
            i == 0 ==> total == 0,
            i == 1 ==> total <= 9,
            i == 2 ==> total <= 99,
        decreases s.len() - i,
    {
        let b = s[i];
        if b < 0x30 || b > 0x39 {
            return None;
        }
        assert(s@.take(i + 1).drop_last() == s@.take(i as int));
        total = total * 10 + (b - 0x30) as u16;
        i = i + 1;
    }
    assert(s@.take(i as int) == s@);
    if total > 255 {
        return None;
    }
    Some(total as u8)
}

/// Whether `needle` stands in `hay` at position `at`.
pub open spec fn occurs_at(hay: Seq<u8>, needle: Seq<u8>, at: int) -> bool {
    &&& 0 <= at
    &&& at + needle.len() <= hay.len()
    &&& hay.subrange(at, at + needle.len()) == needle
}

/// Whether `at` is the first position at which `needle` stands in `hay`.
pub open spec fn first_occurrence(hay: Seq<u8>, needle: Seq<u8>, at: int) -> bool {
    &&& occurs_at(hay, needle, at)
    &&& forall|k: int| 0 <= k < at ==> !occurs_at(hay, needle, k)
}

/// Whether `needle` stands anywhere in `hay`.
pub open spec fn occurs(hay: Seq<u8>, needle: Seq<u8>) -> bool {
    exists|k: int| occurs_at(hay, needle, k)
}

/// Whether `needle` stands in `hay` at `at`, byte by byte.
pub fn matches_at(hay: &[u8], needle: &[u8], at: usize) -> (found: bool)
    ensures
        found == occurs_at(hay@, needle@, at as int),
{
    if at > hay.len() || needle.len() > hay.len() - at {
        return false;
    }
    let mut i: usize = 0;
    while i < needle.len()
        invariant
            i <= needle.len(),
            at + needle.len() <= hay.len(),
            forall|j: int| 0 <= j < i ==> hay@[at + j] == needle@[j],
        decreases needle.len() - i,
    {
        if hay[at + i] != needle[i] {
            assert(hay@.subrange(at as int, at + needle.len())[i as int] != needle@[i as int]);
            return false;
        }
        i = i + 1;
    }
    assert(hay@.subrange(at as int, at + needle.len()) =~= needle@);
    true
}

/// The first position at which `needle` stands in `hay`, if it stands there
/// at all.
pub fn find(hay: &[u8], needle: &[u8]) -> (at: Option<usize>)
    ensures
        at is Some <==> occurs(hay@, needle@),
        at is Some ==> first_occurrence(hay@, needle@, at->0 as int),
{
    let mut k: usize = 0;
    while k < hay.len()
        invariant
            k <= hay.len(),
            forall|j: int| 0 <= j < k ==> !occurs_at(hay@, needle@, j),
        decreases hay.len() - k,
    {
        if matches_at(hay, needle, k) {
            return Some(k);
        }
        k = k + 1;
    }
    if matches_at(hay, needle, k) {
        return Some(k);
    }
    None
}

} // verus!
