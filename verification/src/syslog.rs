//! RFC 5424 record formatting: a pure mapping from (timestamp, hostname,
//! appname, captured line) to the wire-ready syslog record.
//!
//! The record has the shape
//! `<PRI>VERSION TIMESTAMP HOSTNAME APPNAME - - - MESSAGE`,
//! where the unsupported PROCID, MSGID and STRUCTURED-DATA fields are the
//! nil placeholder `-`, and MESSAGE is the captured line verbatim,
//! including its trailing newline.

use vstd::prelude::*;

verus! {

/// ASCII bytes the formatter emits.
pub const SPACE: u8 = 0x20;
pub const DASH: u8 = 0x2d;
pub const COLON: u8 = 0x3a;
pub const DOT: u8 = 0x2e;
pub const PLUS: u8 = 0x2b;
pub const LT: u8 = 0x3c;
pub const GT: u8 = 0x3e;
pub const LETTER_T: u8 = 0x54;
pub const DIGIT_ZERO: u8 = 0x30;
pub const DIGIT_ONE: u8 = 0x31;
pub const DIGIT_TWO: u8 = 0x32;

/// The fixed PRI value emitted on every record.
pub const SYSLOG_PRIORITY: u32 = 22;

/// The fixed syslog protocol version emitted on every record.
pub const SYSLOG_VERSION: u32 = 1;

/// The byte standing for a decimal digit value below ten.
pub open spec fn digit_byte(d: nat) -> u8 {
    (0x30 + (d % 10)) as u8
}

/// The decimal digits of `n`, zero-padded (or truncated) to exactly
/// `width` bytes, most significant digit first.
pub open spec fn spec_fixed_decimal(n: nat, width: nat) -> Seq<u8>
    decreases width,
{
    if width == 0 {
        Seq::<u8>::empty()
    } else {
        spec_fixed_decimal(n / 10, (width - 1) as nat).push(digit_byte(n % 10))
    }
}

/// A UTC wall-clock instant at microsecond precision, as the formatter
/// prints it. Values are plain calendar fields; `well_formed` gives their
/// ranges.
#[derive(Clone, Copy, Debug, PartialEq, Eq, Structural)]
pub struct Timestamp {
    pub year: u16,
    pub month: u8,
    pub day: u8,
    pub hour: u8,
    pub minute: u8,
    pub second: u8,
    pub micros: u32,
}

impl Timestamp {
    pub open spec fn well_formed(self) -> bool {
        &&& self.year <= 9999
        &&& 1 <= self.month <= 12
        &&& 1 <= self.day <= 31
        &&& self.hour <= 23
        &&& self.minute <= 59
        &&& self.second <= 59
        &&& self.micros <= 999_999
    }

    /// Build a timestamp from calendar fields, rejecting out-of-range values.
    pub fn new(
        year: u16,
        month: u8,
        day: u8,
        hour: u8,
        minute: u8,
        second: u8,
        micros: u32,
    ) -> (r: Option<Timestamp>)
        ensures
            ({
                let t = Timestamp { year, month, day, hour, minute, second, micros };
                if t.well_formed() {
                    r == Some(t)
                } else {
                    r is None
                }
            }),
    {
        if year <= 9999 && 1 <= month && month <= 12 && 1 <= day && day <= 31 && hour <= 23
            && minute <= 59 && second <= 59 && micros <= 999_999 {
            Some(Timestamp { year, month, day, hour, minute, second, micros })
        } else {
            None
        }
    }

    /// Validate raw clock fields, as a time source reports them (a free
    /// year, nanoseconds that may encode a leap second), into a timestamp.
    /// During a leap second the fractional part saturates at 999999.
    pub fn from_clock_parts(
        year: i32,
        month: u32,
        day: u32,
        hour: u32,
        minute: u32,
        second: u32,
        nanos: u32,
    ) -> (r: Option<Timestamp>)
        ensures
            ({
                let micros: u32 = if nanos / 1000 > 999_999 {
                    999_999u32
                } else {
                    (nanos / 1000) as u32
                };
                if 0 <= year <= 9999 && 1 <= month <= 12 && 1 <= day <= 31 && hour <= 23
                    && minute <= 59 && second <= 59 {
                    r == Some(
                        Timestamp {
                            year: year as u16,
                            month: month as u8,
                            day: day as u8,
                            hour: hour as u8,
                            minute: minute as u8,
                            second: second as u8,
                            micros,
                        },
                    )
                } else {
                    r is None
                }
            }),
            r matches Some(t) ==> t.well_formed(),
    {
        if year < 0 || year > 9999 || month < 1 || month > 12 || day < 1 || day > 31 || hour > 23
            || minute > 59 || second > 59 {
            return None;
        }
        let micros_raw = nanos / 1000;
        let micros: u32 = if micros_raw > 999_999 {
            999_999
        } else {
            micros_raw
        };
        Some(
            Timestamp {
                year: year as u16,
                month: month as u8,
                day: day as u8,
                hour: hour as u8,
                minute: minute as u8,
                second: second as u8,
                micros,
            },
        )
    }

    /// The current UTC time, at microsecond precision. `None` only when the
    /// system clock reports a year outside 0..=9999.
    pub fn now() -> (r: Option<Timestamp>)
        ensures
            r matches Some(t) ==> t.well_formed(),
    {
        let (year, month, day, hour, minute, second, nanos) = utc_now_parts();
        Timestamp::from_clock_parts(year, month, day, hour, minute, second, nanos)
    }
}

/// Relies on chrono's `Utc::now` for the current UTC time, read through the
/// `Datelike` and `Timelike` accessors. Their documentation promises:
/// month in 1..=12, day in 1..=31, hour in 0..=23, minute in 0..=59,
/// second in 0..=59, and nanoseconds in 0..=1_999_999_999 (values of
/// 1_000_000_000 and above encode a leap second). The year carries no
/// documented range. The result is (year, month, day, hour, minute,
/// second, nanoseconds).
#[verifier::external_body]
fn utc_now_parts() -> (r: (i32, u32, u32, u32, u32, u32, u32))
    ensures
        1 <= r.1 <= 12,
        1 <= r.2 <= 31,
        r.3 <= 23,
        r.4 <= 59,
        r.5 <= 59,
        r.6 <= 1_999_999_999,
{
    let now = chrono::Utc::now();
    (
        chrono::Datelike::year(&now),
        chrono::Datelike::month(&now),
        chrono::Datelike::day(&now),
        chrono::Timelike::hour(&now),
        chrono::Timelike::minute(&now),
        chrono::Timelike::second(&now),
        chrono::Timelike::nanosecond(&now),
    )
}

/// The timestamp as the record carries it:
/// `YYYY-MM-DDTHH:MM:SS.ffffff+00:00`.
pub open spec fn spec_timestamp_bytes(ts: Timestamp) -> Seq<u8> {
    spec_fixed_decimal(ts.year as nat, 4) + seq![DASH] + spec_fixed_decimal(ts.month as nat, 2)
        + seq![DASH] + spec_fixed_decimal(ts.day as nat, 2) + seq![LETTER_T] + spec_fixed_decimal(
        ts.hour as nat,
        2,
    ) + seq![COLON] + spec_fixed_decimal(ts.minute as nat, 2) + seq![COLON] + spec_fixed_decimal(
        ts.second as nat,
        2,
    ) + seq![DOT] + spec_fixed_decimal(ts.micros as nat, 6) + seq![PLUS, DIGIT_ZERO, DIGIT_ZERO, COLON, DIGIT_ZERO, DIGIT_ZERO]
}

/// The full wire record for one captured line:
/// `<22>1 TIMESTAMP HOSTNAME APPNAME - - - LINE`.
pub open spec fn spec_record(
    ts: Seq<u8>,
    hostname: Seq<u8>,
    appname: Seq<u8>,
    line: Seq<u8>,
) -> Seq<u8> {
    seq![LT] + spec_fixed_decimal(SYSLOG_PRIORITY as nat, 2) + seq![GT] + spec_fixed_decimal(
        SYSLOG_VERSION as nat,
        1,
    ) + seq![SPACE] + ts + seq![SPACE] + hostname + seq![SPACE] + appname + seq![
        SPACE,
        DASH,
        SPACE,
        DASH,
        SPACE,
        DASH,
        SPACE,
    ] + line
}

/// Append every byte of `src` to `out`.
fn push_bytes(out: &mut Vec<u8>, src: &[u8])
    ensures
        final(out)@ == old(out)@ + src@,
{
    let mut i: usize = 0;
    while i < src.len()
        invariant
            i <= src@.len(),
            out@ == old(out)@ + src@.take(i as int),
        decreases src@.len() - i,
    {
        let b = src[i];
        out.push(b);
        i = i + 1;
        assert(src@.take(i as int) == src@.take(i - 1).push(src@[i - 1]));
        assert(out@ == old(out)@ + src@.take(i as int));
    }
    assert(src@.take(src@.len() as int) == src@);
}

/// Append `n` in decimal, zero-padded to exactly `width` digits (the
/// digits above `width` are dropped; every caller passes values that fit).
fn push_fixed_decimal(out: &mut Vec<u8>, n: u32, width: usize)
    ensures
        final(out)@ == old(out)@ + spec_fixed_decimal(n as nat, width as nat),
    decreases width,
{
    if width > 0 {
        push_fixed_decimal(out, n / 10, width - 1);
        let d: u8 = (n % 10) as u8;
        out.push(0x30 + d);
        assert(old(out)@ + spec_fixed_decimal(n as nat, width as nat) == (old(out)@
            + spec_fixed_decimal((n / 10) as nat, (width - 1) as nat)).push(
            digit_byte((n % 10) as nat),
        ));
    } else {
        assert(old(out)@ + spec_fixed_decimal(n as nat, 0) == old(out)@);
    }
}

/// Format a timestamp as `YYYY-MM-DDTHH:MM:SS.ffffff+00:00`.
pub fn format_timestamp(ts: &Timestamp) -> (r: Vec<u8>)
    ensures
        r@ == spec_timestamp_bytes(*ts),
{
    let mut out: Vec<u8> = Vec::new();
    push_fixed_decimal(&mut out, ts.year as u32, 4);
    out.push(DASH);
    push_fixed_decimal(&mut out, ts.month as u32, 2);
    out.push(DASH);
    push_fixed_decimal(&mut out, ts.day as u32, 2);
    out.push(LETTER_T);
    push_fixed_decimal(&mut out, ts.hour as u32, 2);
    out.push(COLON);
    push_fixed_decimal(&mut out, ts.minute as u32, 2);
    out.push(COLON);
    push_fixed_decimal(&mut out, ts.second as u32, 2);
    out.push(DOT);
    push_fixed_decimal(&mut out, ts.micros, 6);
    out.push(PLUS);
    out.push(DIGIT_ZERO);
    out.push(DIGIT_ZERO);
    out.push(COLON);
    out.push(DIGIT_ZERO);
    out.push(DIGIT_ZERO);
    assert(out@ =~= spec_timestamp_bytes(*ts));
    out
}

/// Format one captured line as a complete RFC 5424 record. A pure function
/// of its arguments: the same line, timestamp, hostname and appname always
/// yield the same bytes.
pub fn format_record(ts: &Timestamp, hostname: &[u8], appname: &[u8], line: &[u8]) -> (r: Vec<u8>)
    ensures
        r@ == spec_record(spec_timestamp_bytes(*ts), hostname@, appname@, line@),
{
    let mut out: Vec<u8> = Vec::new();
    out.push(LT);
    out.push(DIGIT_TWO);
    out.push(DIGIT_TWO);
    out.push(GT);
    out.push(DIGIT_ONE);
    out.push(SPACE);
    let ts_bytes = format_timestamp(ts);
    push_bytes(&mut out, ts_bytes.as_slice());
    out.push(SPACE);
    push_bytes(&mut out, hostname);
    out.push(SPACE);
    push_bytes(&mut out, appname);
    out.push(SPACE);
    out.push(DASH);
    out.push(SPACE);
    out.push(DASH);
    out.push(SPACE);
    out.push(DASH);
    out.push(SPACE);
    push_bytes(&mut out, line);
    proof {
        reveal_with_fuel(spec_fixed_decimal, 3);
        assert(spec_fixed_decimal(SYSLOG_PRIORITY as nat, 2) =~= seq![DIGIT_TWO, DIGIT_TWO]);
        assert(spec_fixed_decimal(SYSLOG_VERSION as nat, 1) =~= seq![DIGIT_ONE]);
    }
    assert(out@ =~= spec_record(spec_timestamp_bytes(*ts), hostname@, appname@, line@));
    out
}

/// Law: the formatter is idempotent. Formatting the same (line, fixed
/// timestamp, hostname, appname) twice yields byte-identical records,
/// because the record is a function of those four values alone.
pub proof fn lemma_format_record_deterministic(
    ts: Timestamp,
    hostname: Seq<u8>,
    appname: Seq<u8>,
    line: Seq<u8>,
    r1: Seq<u8>,
    r2: Seq<u8>,
)
    requires
        r1 == spec_record(spec_timestamp_bytes(ts), hostname, appname, line),
        r2 == spec_record(spec_timestamp_bytes(ts), hostname, appname, line),
    ensures
        r1 == r2,
{
}

} // verus!
