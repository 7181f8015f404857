//! Identity and time, both taken from outside the library.
use vstd::prelude::*;

use vstd::arithmetic::power::pow;

use crate::security::hex_digit;

verus! {

/// `id` is the value of a random (version 4) UUID: its version nibble is 4
/// and its variant bits are `10`.
pub open spec fn is_random_uuid(id: u128) -> bool {
    id & 0x0000_0000_0000_F000_C000_0000_0000_0000u128 == 0x0000_0000_0000_4000_8000_0000_0000_0000u128
}

/// Trusted: `uuid::Uuid::new_v4`, taken as its 128-bit value. The bits are
/// random but for the version and variant that `new_v4` sets.
#[verifier::external_body]
fn new_v4_value() -> (r: u128)
    ensures
        is_random_uuid(r),
{
    uuid::Uuid::new_v4().as_u128()
}

/// A fresh random session identifier: a version 4 UUID.
pub fn new_session_id() -> (r: u128)
    ensures
        is_random_uuid(r),
{
    new_v4_value()
}

/// The 32 lower-case hexadecimal digits of `id`, most significant first.
pub open spec fn hex_digits_128(id: u128) -> Seq<char> {
    Seq::new(32, |i: int| hex_digit(((id as int / pow(16, (31 - i) as nat)) % 16) as nat))
}

/// The hyphenated lower-case text of the UUID whose value is `id`: its hex
/// digits in groups of 8, 4, 4, 4 and 12, joined by `-`.
pub open spec fn uuid_text(id: u128) -> Seq<char> {
    let d = hex_digits_128(id);
    d.subrange(0, 8) + "-"@ + d.subrange(8, 12) + "-"@ + d.subrange(12, 16) + "-"@ + d.subrange(16, 20)
        + "-"@ + d.subrange(20, 32)
}

/// The value of the UUID written in `text`, or the display text of the
/// parse error when `text` is not a UUID.
pub uninterp spec fn uuid_from_text(text: Seq<char>) -> Result<u128, Seq<char>>;

/// `text` reads as the UUID whose value is `id`.
pub open spec fn uuid_reads_as(text: Seq<char>, id: u128) -> bool {
    uuid_from_text(text) matches Ok(v) && v == id
}

/// Trusted: `uuid::Uuid::from_u128` followed by its `to_string`, which
/// writes the hyphenated lower-case form; parsing it gives back the id.
#[verifier::external_body]
pub(crate) fn session_id_text(id: u128) -> (r: String)
    ensures
        r@ == uuid_text(id),
        uuid_reads_as(r@, id),
{
    uuid::Uuid::from_u128(id).to_string()
}

/// Trusted: `uuid::Uuid::parse_str`, taken as its 128-bit value; on failure
/// the error's display text. The outcome is named `uuid_from_text`.
#[verifier::external_body]
pub(crate) fn parse_session_id(text: &str) -> (r: Result<u128, String>)
    ensures
        match r {
            Ok(id) => uuid_reads_as(text@, id),
            Err(e) => (uuid_from_text(text@) matches Err(m) && m == e@),
        },
{
    match uuid::Uuid::parse_str(text) {
        Ok(u) => Ok(u.as_u128()),
        Err(e) => Err(e.to_string()),
    }
}

/// An instant: nanoseconds since the Unix epoch, UTC.
pub type Instant = i128;

/// The instant `secs` seconds and `nanos` nanoseconds after the Unix epoch.
pub open spec fn instant_of(secs: int, nanos: int) -> int {
    secs * 1_000_000_000 + nanos
}

/// The whole seconds of instant `t` since the epoch, rounded down.
pub open spec fn secs_of(t: int) -> int {
    t / 1_000_000_000
}

/// The nanoseconds of instant `t` past its whole second.
pub open spec fn subsec_of(t: int) -> int {
    t % 1_000_000_000
}

/// The instants from 0000-01-01T00:00:00Z up to, not including,
/// 10000-01-01T00:00:00Z: those whose UTC year is written with four digits.
pub open spec fn four_digit_year(t: int) -> bool {
    -62_167_219_200_000_000_000 <= t < 253_402_300_800_000_000_000
}

/// Trusted: `chrono::Utc::now`, taken as its `timestamp` and
/// `timestamp_subsec_nanos`. The value depends on the clock; the clock
/// never reports a leap second, so the nanoseconds stay below a second.
#[verifier::external_body]
fn utc_now() -> (r: (i64, u32))
    ensures
        r.1 < 1_000_000_000,
{
    let now = chrono::Utc::now();
    (now.timestamp(), now.timestamp_subsec_nanos())
}

/// The current instant.
pub fn now_instant() -> (r: Instant)
    ensures
        exists|secs: i64, nanos: u32| nanos < 1_000_000_000 && r == instant_of(secs as int, nanos as int),
{
    let (secs, nanos) = utc_now();
    assert(i128::MIN <= secs as int * 1_000_000_000 <= i128::MAX - 1_000_000_000) by (nonlinear_arith)
        requires
            i64::MIN <= secs <= i64::MAX,
    ;
    let r = (secs as i128) * 1_000_000_000 + (nanos as i128);
    assert(nanos < 1_000_000_000 && r == instant_of(secs as int, nanos as int));
    r
}

/// The RFC 3339 text of the instant `secs` seconds and `nanos` nanoseconds
/// after the Unix epoch, or `None` when it is out of chrono's range.
pub uninterp spec fn rfc3339_text(secs: i64, nanos: u32) -> Option<Seq<char>>;

/// The seconds since the Unix epoch and the nanoseconds past them of the
/// instant written in RFC 3339 `text`, or the display text of the parse
/// error when `text` is not such a date.
pub uninterp spec fn rfc3339_parts(text: Seq<char>) -> Result<(i64, u32), Seq<char>>;

/// Trusted: `chrono::DateTime::<chrono::Utc>::from_timestamp` followed by
/// `to_rfc3339`. The result is named `rfc3339_text`. An instant with a
/// four-digit year is within chrono's range, and its text parses back to
/// it. Of other years nothing more is said: chrono writes them with a sign
/// and more or fewer digits, which its RFC 3339 parser does not read.
#[verifier::external_body]
fn format_rfc3339(secs: i64, nanos: u32) -> (r: Option<String>)
    requires
        nanos < 1_000_000_000,
    ensures
        r.deep_view() == rfc3339_text(secs, nanos),
        r is None ==> !four_digit_year(instant_of(secs as int, nanos as int)),
        r matches Some(t) ==> (four_digit_year(instant_of(secs as int, nanos as int)) ==> rfc3339_parts(t@)
            == Ok::<(i64, u32), Seq<char>>((secs, nanos))),
{
    match chrono::DateTime::<chrono::Utc>::from_timestamp(secs, nanos) {
        Some(d) => Some(d.to_rfc3339()),
        None => None,
    }
}

/// Trusted: `chrono::DateTime::parse_from_rfc3339`, taken as its
/// `timestamp` and `timestamp_subsec_nanos`; on failure the error's display
/// text. The outcome is named `rfc3339_parts`.
#[verifier::external_body]
fn parse_rfc3339(text: &str) -> (r: Result<(i64, u32), String>)
    ensures
        match r {
            Ok(p) => rfc3339_parts(text@) == Ok::<(i64, u32), Seq<char>>(p),
            Err(e) => (rfc3339_parts(text@) matches Err(m) && m == e@),
        },
{
    match chrono::DateTime::parse_from_rfc3339(text) {
        Ok(d) => Ok((d.timestamp(), d.timestamp_subsec_nanos())),
        Err(e) => Err(e.to_string()),
    }
}

/// The instant written in RFC 3339 `text`, or the parse error's text.
pub open spec fn instant_from_text(text: Seq<char>) -> Result<int, Seq<char>> {
    match rfc3339_parts(text) {
        Ok((secs, nanos)) => Ok(instant_of(secs as int, nanos as int)),
        Err(m) => Err(m),
    }
}

/// `text` reads as the instant `t`.
pub open spec fn reads_as_instant(text: Seq<char>, t: int) -> bool {
    instant_from_text(text) == Ok::<int, Seq<char>>(t)
}

/// The RFC 3339 text of instant `t`, or `None` when it is out of range.
pub open spec fn instant_rfc3339(t: int) -> Option<Seq<char>> {
    if i64::MIN <= secs_of(t) <= i64::MAX {
        rfc3339_text(secs_of(t) as i64, subsec_of(t) as u32)
    } else {
        None
    }
}

proof fn lemma_split(t: int, q: int, r: int)
    requires
        0 <= r < 1_000_000_000,
        t == q * 1_000_000_000 + r,
    ensures
        secs_of(t) == q,
        subsec_of(t) == r,
{
    vstd::arithmetic::div_mod::lemma_fundamental_div_mod_converse(t, 1_000_000_000, q, r);
}

/// The whole seconds of `t`, rounded down, and the nanoseconds past them.
fn split_instant(t: Instant) -> (r: (i128, u32))
    ensures
        r.0 == secs_of(t as int),
        r.1 == subsec_of(t as int),
        r.1 < 1_000_000_000,
{
    if t >= 0 {
        let u = t as u128;
        let q = u / 1_000_000_000;
        let m = u % 1_000_000_000;
        proof {
            lemma_split(t as int, q as int, m as int);
        }
        (q as i128, m as u32)
    } else {
        let u = (-(t + 1)) as u128;
        let q = u / 1_000_000_000;
        let m = u % 1_000_000_000;
        proof {
            assert(u == q * 1_000_000_000 + m);
            lemma_split(t as int, -(q as int) - 1, 999_999_999 - m as int);
        }
        (-(q as i128) - 1, (999_999_999 - m) as u32)
    }
}

/// The RFC 3339 text of instant `t`, as chrono writes it; `None` when `t`
/// is beyond chrono's range. With a four-digit year it reads back as `t`.
pub fn instant_text(t: Instant) -> (r: Option<String>)
    ensures
        r.deep_view() == instant_rfc3339(t as int),
        four_digit_year(t as int) ==> (r matches Some(s) && reads_as_instant(s@, t as int)),
{
    let (secs, nanos) = split_instant(t);
    if secs < i64::MIN as i128 || secs > i64::MAX as i128 {
        return None;
    }
    proof {
        lemma_split(t as int, secs as int, nanos as int);
        assert(instant_of(secs as int, nanos as int) == t);
    }
    format_rfc3339(secs as i64, nanos)
}

/// The instant written in RFC 3339 `text`, or the parse error's text.
pub fn parse_instant(text: &str) -> (r: Result<Instant, String>)
    ensures
        match r {
            Ok(t) => instant_from_text(text@) == Ok::<int, Seq<char>>(t as int),
            Err(e) => instant_from_text(text@) == Err::<int, Seq<char>>(e@),
        },
{
    match parse_rfc3339(text) {
        Ok((secs, nanos)) => {
            assert(i128::MIN + 5_000_000_000 <= secs as int * 1_000_000_000 <= i128::MAX - 5_000_000_000)
                by (nonlinear_arith)
                requires
                    i64::MIN <= secs <= i64::MAX,
            ;
            Ok((secs as i128) * 1_000_000_000 + (nanos as i128))
        },
        Err(e) => Err(e),
    }
}

/// The whole seconds since the Unix epoch written as `YYYYmmdd-HHMMSS` in
/// UTC, or `None` when they are out of chrono's range.
pub uninterp spec fn compact_utc_text(secs: i64) -> Option<Seq<char>>;

/// Trusted: `chrono::DateTime::<chrono::Utc>::from_timestamp` (with no
/// nanoseconds) followed by `format("%Y%m%d-%H%M%S")` and `to_string`. The
/// result is named `compact_utc_text`.
#[verifier::external_body]
fn format_compact(secs: i64) -> (r: Option<String>)
    ensures
        r.deep_view() == compact_utc_text(secs),
{
    match chrono::DateTime::<chrono::Utc>::from_timestamp(secs, 0) {
        Some(d) => Some(d.format("%Y%m%d-%H%M%S").to_string()),
        None => None,
    }
}

/// The compact UTC text of instant `t`, to the second.
pub open spec fn compact_text(t: int) -> Option<Seq<char>> {
    if i64::MIN <= secs_of(t) <= i64::MAX {
        compact_utc_text(secs_of(t) as i64)
    } else {
        None
    }
}

/// Instant `t` written as `YYYYmmdd-HHMMSS` in UTC; `None` when `t` is out
/// of chrono's range.
pub fn compact_stamp(t: Instant) -> (r: Option<String>)
    ensures
        r.deep_view() == compact_text(t as int),
{
    let (secs, _nanos) = split_instant(t);
    if secs < i64::MIN as i128 || secs > i64::MAX as i128 {
        return None;
    }
    format_compact(secs as i64)
}

} // verus!
