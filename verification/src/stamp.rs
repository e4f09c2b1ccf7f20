//! Identifiers and timestamps: random UUIDs from the `uuid` crate and the
//! current time from `chrono`.

use vstd::prelude::*;
use crate::text::{string_of, push_str_chars};

verus! {

/// A point in time: seconds since the Unix epoch and the nanoseconds since
/// the last whole second (as `chrono::DateTime<Utc>` splits it).
#[derive(Clone, Copy, Debug, PartialEq, Eq, Structural)]
pub struct Timestamp {
    pub secs: i64,
    pub nanos: u32,
}

/// `a` is not later than `b`.
pub open spec fn ts_le(a: Timestamp, b: Timestamp) -> bool {
    a.secs < b.secs || (a.secs == b.secs && a.nanos <= b.nanos)
}

/// Whether `a` is not later than `b`.
pub fn timestamp_le(a: &Timestamp, b: &Timestamp) -> (r: bool)
    ensures
        r == ts_le(*a, *b),
{
    a.secs < b.secs || (a.secs == b.secs && a.nanos <= b.nanos)
}

/// Whether `chrono::DateTime::from_timestamp` accepts `secs`/`nanos`.
pub uninterp spec fn utc_valid(secs: i64, nanos: u32) -> bool;

/// The text that `chrono` gives the UTC time `secs`/`nanos` formatted with
/// the strftime `pattern`.
pub uninterp spec fn utc_format(pattern: Seq<char>, secs: i64, nanos: u32) -> Seq<char>;

/// A strftime pattern whose only specifiers are `%Y`, `%m`, `%d`, `%H` and
/// `%M`; every other character stands for itself.
pub open spec fn simple_pattern(p: Seq<char>) -> bool {
    forall|i: int|
        0 <= i < p.len() && #[trigger] p[i] == '%' ==> i + 1 < p.len() && (p[i + 1] == 'Y' || p[i + 1] == 'm' || p[i + 1]
            == 'd' || p[i + 1] == 'H' || p[i + 1] == 'M')
}

/// Calls `chrono::Utc::now`. Its `DateTime::from_timestamp` is documented to
/// round-trip with `timestamp` and `timestamp_subsec_nanos`, so the result
/// is accepted there; nothing else is stated of the time itself.
#[verifier::external_body]
pub(crate) fn now_utc() -> (r: Timestamp)
    ensures
        utc_valid(r.secs, r.nanos),
{
    let now = chrono::Utc::now();
    Timestamp { secs: now.timestamp(), nanos: now.timestamp_subsec_nanos() }
}

/// Calls `chrono::DateTime::from_timestamp` and formats the result with
/// `pattern`; `None` where the time is rejected. A pattern of plain
/// characters and the five specifiers above formats without error.
#[verifier::external_body]
pub(crate) fn format_utc(t: &Timestamp, pattern: &str) -> (r: Option<String>)
    requires
        simple_pattern(pattern@),
    ensures
        match r {
            Some(s) => utc_valid(t.secs, t.nanos) && s@ == utc_format(pattern@, t.secs, t.nanos),
            None => !utc_valid(t.secs, t.nanos),
        },
{
    chrono::DateTime::from_timestamp(t.secs, t.nanos).map(|d| d.format(pattern).to_string())
}

/// Calls `uuid::Uuid::new_v4` and returns the identifier as a 128-bit
/// integer; the value is random, so nothing is stated of it.
#[verifier::external_body]
pub(crate) fn new_uuid() -> (r: u128) {
    uuid::Uuid::new_v4().as_u128()
}

/// The lower-case hexadecimal digit for `d` (below sixteen).
pub open spec fn hex_char(d: nat) -> char {
    if d < 10 {
        crate::text::digit_char(d)
    } else if d == 10 {
        'a'
    } else if d == 11 {
        'b'
    } else if d == 12 {
        'c'
    } else if d == 13 {
        'd'
    } else if d == 14 {
        'e'
    } else {
        'f'
    }
}

/// The `w` low-order hexadecimal digits of `v`, most significant first.
pub open spec fn hex_fixed(v: nat, w: nat) -> Seq<char>
    decreases w,
{
    if w == 0 {
        Seq::empty()
    } else {
        hex_fixed(v / 16, (w - 1) as nat).push(hex_char(v % 16))
    }
}

/// The hyphenated form of a UUID (`8-4-4-4-12` lower-case hexadecimal
/// digits), as `uuid::Uuid`'s `Display` writes it.
pub open spec fn uuid_text(id: u128) -> Seq<char> {
    let h = hex_fixed(id as nat, 32);
    h.subrange(0, 8) + seq!['-'] + h.subrange(8, 12) + seq!['-'] + h.subrange(12, 16) + seq!['-']
        + h.subrange(16, 20) + seq!['-'] + h.subrange(20, 32)
}

fn hex_exec(d: u128) -> (c: char)
    requires
        d < 16,
    ensures
        c == hex_char(d as nat),
{
    if d == 0 {
        '0'
    } else if d == 1 {
        '1'
    } else if d == 2 {
        '2'
    } else if d == 3 {
        '3'
    } else if d == 4 {
        '4'
    } else if d == 5 {
        '5'
    } else if d == 6 {
        '6'
    } else if d == 7 {
        '7'
    } else if d == 8 {
        '8'
    } else if d == 9 {
        '9'
    } else if d == 10 {
        'a'
    } else if d == 11 {
        'b'
    } else if d == 12 {
        'c'
    } else if d == 13 {
        'd'
    } else if d == 14 {
        'e'
    } else {
        'f'
    }
}

fn hex_digits(v: u128, w: u32) -> (r: Vec<char>)
    ensures
        r@ == hex_fixed(v as nat, w as nat),
    decreases w,
{
    if w == 0 {
        Vec::new()
    } else {
        let mut r = hex_digits(v / 16, w - 1);
        r.push(hex_exec(v % 16));
        r
    }
}

/// The hyphenated text of a UUID.
pub fn uuid_string(id: u128) -> (r: String)
    ensures
        r@ == uuid_text(id),
{
    let h = hex_digits(id, 32);
    assert(h@.len() == 32) by {
        lemma_hex_fixed_len(id as nat, 32);
    }
    let mut out: Vec<char> = Vec::new();
    let mut i: usize = 0;
    while i < 32
        invariant
            h@.len() == 32,
            i <= 32,
            out@ == (if i <= 8 {
                h@.subrange(0, i as int)
            } else if i <= 12 {
                h@.subrange(0, 8) + seq!['-'] + h@.subrange(8, i as int)
            } else if i <= 16 {
                h@.subrange(0, 8) + seq!['-'] + h@.subrange(8, 12) + seq!['-'] + h@.subrange(
                    12,
                    i as int,
                )
            } else if i <= 20 {
                h@.subrange(0, 8) + seq!['-'] + h@.subrange(8, 12) + seq!['-'] + h@.subrange(12, 16)
                    + seq!['-'] + h@.subrange(16, i as int)
            } else {
                h@.subrange(0, 8) + seq!['-'] + h@.subrange(8, 12) + seq!['-'] + h@.subrange(12, 16)
                    + seq!['-'] + h@.subrange(16, 20) + seq!['-'] + h@.subrange(20, i as int)
            }),
        decreases 32 - i,
    {
        if i == 8 || i == 12 || i == 16 || i == 20 {
            out.push('-');
        }
        out.push(h[i]);
        i = i + 1;
        proof {
            if i <= 8 {
                assert(h@.subrange(0, i as int) =~= h@.subrange(0, i - 1).push(h@[i - 1]));
            } else if i <= 12 {
                assert(h@.subrange(8, i as int) =~= h@.subrange(8, i - 1).push(h@[i - 1]));
            } else if i <= 16 {
                assert(h@.subrange(12, i as int) =~= h@.subrange(12, i - 1).push(h@[i - 1]));
            } else if i <= 20 {
                assert(h@.subrange(16, i as int) =~= h@.subrange(16, i - 1).push(h@[i - 1]));
            } else {
                assert(h@.subrange(20, i as int) =~= h@.subrange(20, i - 1).push(h@[i - 1]));
            }
        }
    }
    string_of(&out)
}

proof fn lemma_hex_fixed_len(v: nat, w: nat)
    ensures
        hex_fixed(v, w).len() == w,
    decreases w,
{
    if w > 0 {
        lemma_hex_fixed_len(v / 16, (w - 1) as nat);
    }
}

} // verus!
