//! Utility functions: identifiers, timestamps and string truncation.
use vstd::prelude::*;
use vstd::string::{StringExecFns, StringSliceAdditionalSpecFns};
use vstd::utf8::{decode_utf8, encode_utf8, is_ascii_chars, is_char_boundary, valid_utf8};

use crate::text::push_char;

verus! {

broadcast use vstd::utf8::group_utf8_lib;

/// The decimal digit `d` as a character.
pub open spec fn digit_char(d: nat) -> char {
    if d == 0 {
        '0'
    } else if d == 1 {
        '1'
    } else if d == 2 {
        '2'
    } else if d == 3 {
        '3'
    } else if d == 4 {
        '4'
    } else if d == 5 {
        '5'
    } else if d == 6 {
        '6'
    } else if d == 7 {
        '7'
    } else if d == 8 {
        '8'
    } else {
        '9'
    }
}

/// The decimal numeral of `n`, without leading zeros.
pub open spec fn decimal(n: nat) -> Seq<char>
    decreases n,
{
    if n < 10 {
        seq![digit_char(n)]
    } else {
        decimal(n / 10).push(digit_char(n % 10))
    }
}

fn digit(d: u128) -> (c: char)
    requires
        d < 10,
    ensures
        c == digit_char(d as nat),
{
    if d == 0 {
        '0'
    } else if d == 1 {
        '1'
    } else if d == 2 {
        '2'
    } else if d == 3 {
        '3'
    } else if d == 4 {
        '4'
    } else if d == 5 {
        '5'
    } else if d == 6 {
        '6'
    } else if d == 7 {
        '7'
    } else if d == 8 {
        '8'
    } else {
        '9'
    }
}

/// Appends the decimal numeral of `n` to `out`.
pub fn push_decimal(out: &mut String, n: u128)
    ensures
        final(out)@ == old(out)@ + decimal(n as nat),
    decreases n,
{
    if n >= 10 {
        push_decimal(out, n / 10);
    }
    push_char(out, digit(n % 10));
    proof {
        if n >= 10 {
            assert(decimal(n as nat) == decimal((n / 10) as nat).push(digit_char((n % 10) as nat)));
        }
    }
    assert(final(out)@ =~= old(out)@ + decimal(n as nat)) by {
    }
}

/// The identifier `oxid-{timestamp}-{counter}`.
pub open spec fn id_text(timestamp_ms: nat, counter: nat) -> Seq<char> {
    "oxid-"@ + decimal(timestamp_ms) + "-"@ + decimal(counter)
}

/// Declares `std::time::SystemTime`, an opaque clock reading.
#[verifier::external_type_specification]
#[verifier::external_body]
pub struct ExSystemTime(std::time::SystemTime);

/// `SystemTime::now`: the system clock's reading. Nothing is stated of it.
#[verifier::external_body]
fn system_now() -> std::time::SystemTime {
    std::time::SystemTime::now()
}

/// `SystemTime::duration_since(UNIX_EPOCH)`: the time elapsed since the
/// Unix epoch, `None` where `t` stands before it (the call's error). Nothing
/// is stated of the duration, which is opaque here.
#[verifier::external_body]
fn since_epoch(t: std::time::SystemTime) -> Option<std::time::Duration> {
    match t.duration_since(std::time::UNIX_EPOCH) {
        Ok(d) => Some(d),
        Err(_) => None,
    }
}

/// `Duration::as_nanos`: the whole nanoseconds in `d`. A `Duration` holds its
/// whole seconds in a `u64` and fewer than a billion more nanoseconds, so the
/// result's whole seconds fit in a `u64`; nothing more is stated, as
/// `Duration` is opaque here.
#[verifier::external_body]
pub(crate) fn duration_nanos(d: std::time::Duration) -> (r: u128)
    ensures
        r / 1_000_000_000 <= u64::MAX,
{
    d.as_nanos()
}

/// The clock's reading as nanoseconds since the Unix epoch, `None` where the
/// clock stands before the epoch.
fn epoch_nanos() -> (r: Option<u128>)
    ensures
        valid_reading(r),
{
    let t = system_now();
    match since_epoch(t) {
        Some(d) => Some(duration_nanos(d)),
        None => None,
    }
}

/// Nanoseconds since the Unix epoch that a clock reading stands for: a time
/// before the epoch counts as the epoch itself.
pub open spec fn reading_nanos(reading: Option<u128>) -> u128 {
    match reading {
        Some(n) => n,
        None => 0,
    }
}

/// A clock reading that a `Duration` since the epoch can give.
pub open spec fn valid_reading(reading: Option<u128>) -> bool {
    reading matches Some(n) ==> n / 1_000_000_000 <= u64::MAX
}

/// Nanoseconds since the Unix epoch for a clock reading (0 before it).
pub fn nanos_from_reading(reading: Option<u128>) -> (r: u128)
    ensures
        r == reading_nanos(reading),
{
    match reading {
        Some(n) => n,
        None => 0,
    }
}

/// The current time in nanoseconds since the Unix epoch (0 for a time
/// before it).
pub(crate) fn clock_nanos() -> (r: u128)
    ensures
        exists|reading: Option<u128>| valid_reading(reading) && r == #[trigger] reading_nanos(reading),
        r / 1_000_000_000 <= u64::MAX,
{
    let reading = epoch_nanos();
    nanos_from_reading(reading)
}

/// Whole milliseconds in `nanos` nanoseconds.
pub fn millis_from_nanos(nanos: u128) -> (r: u128)
    ensures
        r == nanos / 1_000_000,
{
    nanos / 1_000_000
}

/// Returns the current timestamp in milliseconds since the Unix epoch: the
/// whole milliseconds of the clock's reading, 0 where the clock stands
/// before the epoch.
pub fn current_timestamp_ms() -> (r: u128)
    ensures
        exists|reading: Option<u128>|
            valid_reading(reading) && r == #[trigger] reading_nanos(reading) / 1_000_000,
{
    let reading = epoch_nanos();
    let nanos = nanos_from_reading(reading);
    millis_from_nanos(nanos)
}

/// The counter after one more identifier: one more, wrapping to 0 after
/// `u64::MAX` as an atomic `fetch_add` does.
pub open spec fn next_count(counter: u64) -> u64 {
    if counter == u64::MAX {
        0
    } else {
        (counter + 1) as u64
    }
}

/// Generate a unique ID using the current timestamp and the id counter:
/// `oxid-{timestamp}-{counter}`, where `counter` is the counter's value
/// before the call, and the counter advances by one. The process keeps one
/// counter, starting at 0, for all its identifiers.
pub fn generate_id(counter: &mut u64) -> (r: String)
    ensures
        *final(counter) == next_count(*old(counter)),
        exists|reading: Option<u128>|
            valid_reading(reading) && r@ == #[trigger] id_text(
                (reading_nanos(reading) / 1_000_000) as nat,
                *old(counter) as nat,
            ),
{
    let ts = current_timestamp_ms();
    let n = *counter;
    *counter = if n == u64::MAX {
        0
    } else {
        n + 1
    };
    format_id(ts, n as u128)
}

proof fn lemma_decimal_digits(n: nat)
    ensures
        decimal(n).len() >= 1,
        n >= 10 ==> decimal(n).len() >= 2,
        forall|i: int| 0 <= i < decimal(n).len() ==> #[trigger] decimal(n)[i] != '-',
    decreases n,
{
    if n >= 10 {
        lemma_decimal_digits(n / 10);
        let d = decimal(n / 10);
        assert forall|i: int| 0 <= i < decimal(n).len() implies #[trigger] decimal(n)[i] != '-' by {
            if i < d.len() {
                assert(decimal(n)[i] == d[i]);
            }
        }
    }
}

proof fn lemma_digit_char_injective(x: nat, y: nat)
    requires
        x < 10,
        y < 10,
        digit_char(x) == digit_char(y),
    ensures
        x == y,
{
}

proof fn lemma_decimal_injective(a: nat, b: nat)
    requires
        decimal(a) == decimal(b),
    ensures
        a == b,
    decreases a,
{
    lemma_decimal_digits(a);
    lemma_decimal_digits(b);
    if a < 10 && b < 10 {
        assert(decimal(a)[0] == digit_char(a));
        assert(decimal(b)[0] == digit_char(b));
        lemma_digit_char_injective(a, b);
    } else if a >= 10 && b >= 10 {
        let da = decimal(a);
        assert(da.last() == digit_char(a % 10));
        assert(decimal(b).last() == digit_char(b % 10));
        assert(da.drop_last() =~= decimal(a / 10));
        assert(decimal(b).drop_last() =~= decimal(b / 10));
        lemma_decimal_injective(a / 10, b / 10);
        lemma_digit_char_injective(a % 10, b % 10);
        assert(a == 10 * (a / 10) + a % 10);
        assert(b == 10 * (b / 10) + b % 10);
    }
}

/// Identifiers made with different counter values differ, whatever their
/// timestamps: two identifiers taken in turn from one counter are distinct
/// until it wraps.
pub proof fn lemma_ids_differ(ts1: nat, n1: nat, ts2: nat, n2: nat)
    requires
        n1 != n2,
    ensures
        id_text(ts1, n1) != id_text(ts2, n2),
{
    let d1 = decimal(n1);
    let d2 = decimal(n2);
    let s1 = id_text(ts1, n1);
    let s2 = id_text(ts2, n2);
    lemma_decimal_digits(n1);
    lemma_decimal_digits(n2);
    reveal_strlit("oxid-");
    reveal_strlit("-");
    if s1 == s2 {
        let len = s1.len() as int;
        let p1 = len - d1.len() - 1;
        let p2 = len - d2.len() - 1;
        assert(s1[p1] == '-');
        assert(s2[p2] == '-');
        assert(forall|i: int| p1 < i < len ==> s1[i] == d1[i - p1 - 1]);
        assert(forall|i: int| p2 < i < len ==> s2[i] == d2[i - p2 - 1]);
        if p1 < p2 {
            assert(s1[p2] == d1[p2 - p1 - 1]);
        } else if p2 < p1 {
            assert(s2[p1] == d2[p1 - p2 - 1]);
        } else {
            assert(d1 =~= d2) by {
                assert forall|i: int| 0 <= i < d1.len() implies d1[i] == d2[i] by {
                    assert(s1[p1 + 1 + i] == d1[i]);
                    assert(s2[p2 + 1 + i] == d2[i]);
                }
            }
            lemma_decimal_injective(n1, n2);
        }
    }
}

/// The identifier made of a timestamp and a 128-bit number:
/// `oxid-{timestamp}-{n}`.
pub fn format_id(timestamp_ms: u128, n: u128) -> (r: String)
    ensures
        r@ == id_text(timestamp_ms as nat, n as nat),
{
    let mut r = "oxid-".to_owned();
    push_decimal(&mut r, timestamp_ms);
    r.append("-");
    push_decimal(&mut r, n);
    r
}

/// The byte position at which a string is cut: the last character boundary
/// at or before `m`.
pub open spec fn cut_point(bytes: Seq<u8>, m: nat) -> nat
    decreases m,
{
    if m == 0 || is_char_boundary(bytes, m as int) {
        m
    } else {
        cut_point(bytes, (m - 1) as nat)
    }
}

/// What `truncate_string` returns: the string itself if it is at most
/// `max_len` bytes long, else its longest prefix of at most `max_len - 3`
/// bytes that ends on a character boundary, followed by `...`.
pub open spec fn truncated(s: Seq<char>, max_len: nat) -> Seq<char> {
    let bytes = encode_utf8(s);
    if bytes.len() <= max_len {
        s
    } else {
        decode_utf8(bytes.subrange(0, cut_point(bytes, (max_len - 3) as nat) as int)) + "..."@
    }
}

proof fn lemma_cut_point(bytes: Seq<u8>, m: nat)
    requires
        valid_utf8(bytes),
        m <= bytes.len(),
    ensures
        cut_point(bytes, m) <= m,
        is_char_boundary(bytes, cut_point(bytes, m) as int),
    decreases m,
{
    if m != 0 && !is_char_boundary(bytes, m as int) {
        lemma_cut_point(bytes, (m - 1) as nat);
    }
}

proof fn lemma_encode_concat(a: Seq<char>, b: Seq<char>)
    ensures
        encode_utf8(a + b) == encode_utf8(a) + encode_utf8(b),
    decreases a.len(),
{
    if a.len() == 0 {
        assert(a + b =~= b);
        assert(encode_utf8(a) + encode_utf8(b) =~= encode_utf8(b));
    } else {
        lemma_encode_concat(a.drop_first(), b);
        assert((a + b).drop_first() =~= a.drop_first() + b);
        assert((a + b)[0] == a[0]);
        assert(encode_utf8(a + b) =~= encode_utf8(a) + encode_utf8(b));
    }
}

/// A truncated string fits its limit: where the string is at most `max_len`
/// bytes long it comes back whole; else the result is at most `max_len`
/// bytes long, ends with `...`, and what precedes the `...` is the start of
/// the string, with no character split.
pub proof fn lemma_truncated_fits(s: Seq<char>, max_len: nat)
    requires
        encode_utf8(s).len() <= max_len || max_len >= 3,
    ensures
        encode_utf8(truncated(s, max_len)).len() <= max_len,
        encode_utf8(s).len() <= max_len ==> truncated(s, max_len) == s,
        encode_utf8(s).len() > max_len ==> ({
            let r = truncated(s, max_len);
            &&& r.len() >= 3
            &&& r.subrange(r.len() - 3, r.len() as int) == "..."@
            &&& r.subrange(0, r.len() - 3) == s.subrange(0, r.len() - 3)
        }),
{
    let bytes = encode_utf8(s);
    if bytes.len() > max_len {
        let m = (max_len - 3) as nat;
        lemma_cut_point(bytes, m);
        let c = cut_point(bytes, m) as int;
        let b1 = bytes.subrange(0, c);
        let d1 = decode_utf8(b1);
        let dots = "..."@;
        reveal_strlit("...");
        assert(is_ascii_chars(dots));
        lemma_encode_concat(d1, dots);
        assert(encode_utf8(d1) == b1);
        let r = truncated(s, max_len);
        assert(r == d1 + dots);
        assert(s == decode_utf8(b1) + decode_utf8(bytes.subrange(c, bytes.len() as int)));
        assert(r.subrange(r.len() - 3, r.len() as int) =~= dots);
        assert(r.subrange(0, r.len() - 3) =~= d1);
        assert(s.subrange(0, r.len() - 3) =~= d1);
    }
}

/// Truncate a string to a maximum length, ending with ellipsis if truncated
///
/// Lengths are in bytes of UTF-8. A string that must be cut needs room for
/// the ellipsis (`max_len >= 3`).
pub fn truncate_string(s: &str, max_len: usize) -> (r: String)
    requires
        s.spec_bytes().len() <= max_len || max_len >= 3,
    ensures
        r@ == truncated(s@, max_len as nat),
        encode_utf8(r@).len() <= max_len,
{
    proof {
        lemma_truncated_fits(s@, max_len as nat);
    }
    let byte_count: usize = s.as_bytes().len();
    assert(byte_count == s.spec_bytes().len());
    if byte_count <= max_len {
        s.to_owned()
    } else {
        let ghost bytes = s.spec_bytes();
        let mut t: usize = max_len - 3;
        while t > 0 && !s.is_char_boundary(t)
            invariant
                bytes == s.spec_bytes(),
                cut_point(bytes, t as nat) == cut_point(bytes, (max_len - 3) as nat),
            decreases t,
        {
            t = t - 1;
        }
        assert(cut_point(bytes, t as nat) == t);
        let (head, _tail) = s.split_at(t);
        let mut result = head.to_owned();
        proof {
            assert(head@ == decode_utf8(head.spec_bytes()));
        }
        result.append("...");
        result
    }
}

} // verus!
