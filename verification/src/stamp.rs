//! When and under which id a call is recorded: the RFC 3339 text of a clock
//! reading, and a version-4 UUID drawn from the operating system's random source.
use vstd::prelude::*;

use crate::config::opt_view;

verus! {

/// A decimal digit.
pub open spec fn is_digit(c: char) -> bool {
    48 <= (c as u32) <= 57
}

/// A lowercase hexadecimal digit.
pub open spec fn is_lower_hex(c: char) -> bool {
    is_digit(c) || 97 <= (c as u32) <= 102
}

/// The characters of `t` from `from` on, `n` of them, are decimal digits.
pub open spec fn digits_at(t: Seq<char>, from: int, n: int) -> bool {
    forall|i: int| from <= i < from + n ==> #[trigger] is_digit(t[i])
}

/// A version-4 UUID in lowercase hyphenated form: 36 characters, hyphens at 8, 13,
/// 18 and 23, lowercase hexadecimal digits elsewhere, the version digit `4` at 14,
/// and the RFC 4122 variant (`8`, `9`, `a` or `b`) at 19.
pub open spec fn uuid_v4_text(u: Seq<char>) -> bool {
    &&& u.len() == 36
    &&& forall|i: int|
        0 <= i < 36 ==> if i == 8 || i == 13 || i == 18 || i == 23 {
            #[trigger] u[i] == '-'
        } else {
            is_lower_hex(u[i])
        }
    &&& u[14] == '4'
    &&& (u[19] == '8' || u[19] == '9' || u[19] == 'a' || u[19] == 'b')
}

/// The year of an RFC 3339 timestamp as chrono writes it: four digits, or a sign
/// and at least four digits outside the years 0 to 9999.
pub open spec fn year_text(y: Seq<char>) -> bool {
    (y.len() == 4 && digits_at(y, 0, 4)) || (y.len() >= 5 && (y[0] == '+' || y[0] == '-')
        && digits_at(y, 1, y.len() - 1))
}

/// `t` is `YEAR-MM-DDTHH:MM:SS`, then `f` characters of fraction (a `.` and
/// `f - 1` digits, or nothing when `f` is 0), then the UTC offset `+00:00`.
pub open spec fn rfc3339_utc_with_fraction(t: Seq<char>, f: int) -> bool {
    let n = t.len() as int;
    let o = n - 6;
    let e = o - f;
    &&& n >= 25 + f
    &&& t.subrange(o, n) == seq!['+', '0', '0', ':', '0', '0']
    &&& (f > 0 ==> t[e] == '.' && digits_at(t, e + 1, f - 1))
    &&& digits_at(t, e - 8, 2) && t[e - 6] == ':' && digits_at(t, e - 5, 2) && t[e - 3] == ':'
        && digits_at(t, e - 2, 2)
    &&& t[e - 9] == 'T'
    &&& digits_at(t, e - 14, 2) && t[e - 12] == '-' && digits_at(t, e - 11, 2)
    &&& t[e - 15] == '-'
    &&& year_text(t.take(e - 15))
}

/// An RFC 3339 timestamp in UTC as `to_rfc3339` writes it: seconds with no
/// fraction, or with 3, 6 or 9 fractional digits, and the offset `+00:00`.
pub open spec fn rfc3339_utc(t: Seq<char>) -> bool {
    rfc3339_utc_with_fraction(t, 0) || rfc3339_utc_with_fraction(t, 4) || rfc3339_utc_with_fraction(
        t,
        7,
    ) || rfc3339_utc_with_fraction(t, 10)
}

/// A point in time as std's clock gives it (`std::time::SystemTime`), opaque here.
#[verifier::external_type_specification]
#[verifier::external_body]
pub struct ExSystemTime(std::time::SystemTime);

/// The current reading of the system clock (`std::time::SystemTime::now`); nothing
/// is stated of it.
#[verifier::external_body]
fn system_now() -> (r: std::time::SystemTime) {
    std::time::SystemTime::now()
}

/// How long after the Unix epoch `t` lies (`SystemTime::duration_since` with
/// `std::time::UNIX_EPOCH`); `None` when `t` is earlier than the epoch, which
/// depends on the clock and is not stated.
#[verifier::external_body]
fn since_unix_epoch(t: &std::time::SystemTime) -> (r: Option<std::time::Duration>) {
    match t.duration_since(std::time::UNIX_EPOCH) {
        Ok(d) => Some(d),
        Err(_) => None,
    }
}

/// The whole seconds of `d` (`Duration::as_secs`); `Duration` is opaque here, so
/// nothing is stated of the number.
#[verifier::external_body]
fn whole_seconds(d: &std::time::Duration) -> (r: u64) {
    d.as_secs()
}

/// The nanoseconds of `d` past its whole seconds (`Duration::subsec_nanos`), which
/// std documents as always under one billion.
#[verifier::external_body]
fn nanos_past_second(d: &std::time::Duration) -> (r: u32)
    ensures
        r < 1_000_000_000,
{
    d.subsec_nanos()
}

/// What chrono writes for the UTC time `secs` seconds and `nanos` nanoseconds after
/// the Unix epoch, or `None` where it has no such time.
pub uninterp spec fn utc_rfc3339(secs: i64, nanos: u32) -> Option<Seq<char>>;

/// chrono's `DateTime::<Utc>::from_timestamp(secs, nanos)`, written with
/// `to_rfc3339`; `None` where chrono finds the seconds out of its range or the
/// nanoseconds invalid. The text is a function of the two numbers, named
/// `utc_rfc3339`; it has the form that chrono's `write_rfc3339` gives a UTC time;
/// and every time from the epoch to the end of the year 9999 with nanoseconds under
/// one billion is in range. Which digits it holds is not stated beyond the name.
#[verifier::external_body]
fn rfc3339_at(secs: i64, nanos: u32) -> (r: Option<String>)
    ensures
        opt_view(r) == utc_rfc3339(secs, nanos),
        r matches Some(t) ==> rfc3339_utc(t@),
        0 <= secs < 253_402_300_800 && nanos < 1_000_000_000 ==> r is Some,
{
    match chrono::DateTime::from_timestamp(secs, nanos) {
        Some(t) => Some(t.to_rfc3339()),
        None => None,
    }
}

/// What chrono writes for a clock reading of whole seconds and nanoseconds after
/// the Unix epoch; `None` for no reading, or seconds past the range of `i64`.
pub open spec fn timestamp_of(since_epoch: Option<(u64, u32)>) -> Option<Seq<char>> {
    match since_epoch {
        None => None,
        Some((s, n)) => if s <= i64::MAX as u64 {
            utc_rfc3339(s as i64, n)
        } else {
            None
        },
    }
}

/// The RFC 3339 text of a clock reading given as whole seconds and nanoseconds
/// after the Unix epoch: `None` for no reading, or for one that chrono cannot
/// write; otherwise what chrono writes for it.
pub fn timestamp_text(since_epoch: Option<(u64, u32)>) -> (r: Option<String>)
    ensures
        opt_view(r) == timestamp_of(since_epoch),
        r matches Some(t) ==> rfc3339_utc(t@),
        since_epoch matches Some((s, n)) && s < 253_402_300_800 && n < 1_000_000_000 ==> r
            is Some,
{
    match since_epoch {
        None => None,
        Some((s, n)) => {
            if s <= i64::MAX as u64 {
                rfc3339_at(s as i64, n)
            } else {
                None
            }
        },
    }
}

/// The clock's reading as whole seconds and nanoseconds after the Unix epoch, or
/// `None` when it reads earlier.
pub(crate) fn clock_reading() -> (r: Option<(u64, u32)>)
    ensures
        r matches Some((_, n)) ==> n < 1_000_000_000,
{
    let now = system_now();
    match since_unix_epoch(&now) {
        Some(d) => Some((whole_seconds(&d), nanos_past_second(&d))),
        None => None,
    }
}

/// The lowercase hexadecimal digit of `n` (0 to 15).
pub open spec fn hex_char(n: u8) -> char {
    seq!['0', '1', '2', '3', '4', '5', '6', '7', '8', '9', 'a', 'b', 'c', 'd', 'e', 'f'][n as int]
}

/// Two lowercase hexadecimal digits per byte, high half first.
pub open spec fn hex_digits(b: Seq<u8>) -> Seq<char> {
    Seq::new(
        2 * b.len(),
        |d: int|
            if d % 2 == 0 {
                hex_char(b[d / 2] >> 4u8)
            } else {
                hex_char(b[d / 2] & 0x0fu8)
            },
    )
}

/// Sixteen bytes in the hyphenated form: hex digits in groups of 8, 4, 4, 4 and 12.
pub open spec fn hyphenated_hex(b: Seq<u8>) -> Seq<char> {
    let h = hex_digits(b);
    h.subrange(0, 8) + seq!['-'] + h.subrange(8, 12) + seq!['-'] + h.subrange(12, 16) + seq![
        '-',
    ] + h.subrange(16, 20) + seq!['-'] + h.subrange(20, 32)
}

/// Random bytes made a version-4 UUID: the high half of byte 6 set to 4 (the
/// version) and the two high bits of byte 8 to `10` (the RFC 4122 variant).
pub open spec fn v4_bytes(b: Seq<u8>) -> Seq<u8> {
    b.update(6, (b[6] & 0x0fu8) | 0x40u8).update(8, (b[8] & 0x3fu8) | 0x80u8)
}

/// Sixteen bytes from the operating system's random source (`getrandom::fill`);
/// `None` when the source fails. The bytes are random, so nothing is stated of them.
#[verifier::external_body]
pub(crate) fn random_bytes() -> (r: Option<[u8; 16]>) {
    let mut bytes = [0u8; 16];
    match getrandom::fill(&mut bytes) {
        Ok(()) => Some(bytes),
        Err(_) => None,
    }
}

/// `uuid::Builder::from_random_bytes(bytes)` written by the UUID's `Display`: the
/// version and variant bits set as `v4_bytes` says, then each byte as two
/// lowercase hex digits, hyphenated.
#[verifier::external_body]
fn uuid_from_random_bytes(bytes: [u8; 16]) -> (r: String)
    ensures
        r@ == hyphenated_hex(v4_bytes(bytes@)),
{
    uuid::Builder::from_random_bytes(bytes).into_uuid().to_string()
}

/// The hyphenated text of any sixteen bytes made a version-4 UUID is a
/// lowercase version-4 UUID.
pub proof fn lemma_v4_text(b: Seq<u8>)
    requires
        b.len() == 16,
    ensures
        uuid_v4_text(hyphenated_hex(v4_bytes(b))),
{
    let v = v4_bytes(b);
    let h = hex_digits(v);
    let u = hyphenated_hex(v);
    assert forall|k: u8| k < 16 implies is_lower_hex(#[trigger] hex_char(k)) by {
        assert(k == 0 || k == 1 || k == 2 || k == 3 || k == 4 || k == 5 || k == 6 || k == 7
            || k == 8 || k == 9 || k == 10 || k == 11 || k == 12 || k == 13 || k == 14 || k == 15);
    }
    assert(forall|x: u8| (#[trigger] (x >> 4u8)) < 16 && (x & 0x0fu8) < 16) by (bit_vector);
    assert forall|d: int| 0 <= d < 32 implies is_lower_hex(#[trigger] h[d]) by {
        let x = v[d / 2];
        assert((x >> 4u8) < 16 && (x & 0x0fu8) < 16);
    }
    let x6 = b[6];
    let x8 = b[8];
    assert((((x6 & 0x0fu8) | 0x40u8) >> 4u8) == 4u8) by (bit_vector);
    assert({
        let y = ((x8 & 0x3fu8) | 0x80u8) >> 4u8;
        8u8 <= y && y <= 11u8
    }) by (bit_vector);
    let y8 = ((x8 & 0x3fu8) | 0x80u8) >> 4u8;
    assert(h[12] == hex_char(4u8));
    assert(h[16] == hex_char(y8));
    assert(u.len() == 36);
    assert forall|i: int| 0 <= i < 36 implies if i == 8 || i == 13 || i == 18 || i == 23 {
        #[trigger] u[i] == '-'
    } else {
        is_lower_hex(u[i])
    } by {
        if i < 8 {
            assert(u[i] == h[i]);
        } else if i == 8 || i == 13 || i == 18 || i == 23 {
        } else if i < 13 {
            assert(u[i] == h[i - 1]);
        } else if i < 18 {
            assert(u[i] == h[i - 2]);
        } else if i < 23 {
            assert(u[i] == h[i - 3]);
        } else {
            assert(u[i] == h[i - 4]);
        }
    }
    assert(u[14] == h[12]);
    assert(u[19] == h[16]);
    assert(y8 == 8u8 || y8 == 9u8 || y8 == 10u8 || y8 == 11u8);
}

/// The hyphenated version-4 UUID made of sixteen random bytes.
pub open spec fn uuid_of(b: [u8; 16]) -> Seq<char> {
    hyphenated_hex(v4_bytes(b@))
}

/// The id part of a record drawn from `random`: `None` when no bytes came,
/// otherwise their hyphenated version-4 UUID.
pub fn uuid_text(random: Option<[u8; 16]>) -> (r: Option<String>)
    ensures
        match random {
            None => r is None,
            Some(b) => opt_view(r) == Some(uuid_of(b)),
        },
        r matches Some(u) ==> uuid_v4_text(u@),
{
    match random {
        None => None,
        Some(b) => {
            let u = uuid_from_random_bytes(b);
            proof {
                lemma_v4_text(b@);
            }
            Some(u)
        },
    }
}

} // verus!
