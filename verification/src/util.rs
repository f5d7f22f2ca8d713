//! Helpers around the record core: lossy byte-to-string conversion, the
//! source-identifier codec and the time codec.
//!
//! Record start times are signed 64-bit nanosecond counts since the epoch.
//! The time codec converts between that count and a calendar timestamp
//! (year, day of year, time of day, nanoseconds) over the proleptic
//! Gregorian calendar.

use vstd::prelude::*;

verus! {

use crate::error::MS_GENERROR;
use crate::MSError;
use vstd::string::StringExecFns;
use crate::Result;

/// The characters that a sequence of bytes stands for when every byte is
/// plain ASCII: one character per byte.
pub open spec fn spec_ascii_chars(s: Seq<u8>) -> Seq<char> {
    Seq::new(s.len(), |i: int| s[i] as char)
}

/// True when every byte of the sequence is plain ASCII.
pub open spec fn spec_all_ascii(s: Seq<u8>) -> bool {
    forall|i: int| 0 <= i < s.len() ==> s[i] < 128
}

/// Relies on `String::from_utf8_lossy`: ASCII bytes decode to exactly one
/// character per byte; no input makes it fail.
#[verifier::external_body]
fn utf8_lossy(v: &Vec<u8>) -> (r: String)
    ensures
        spec_all_ascii(v@) ==> r@ == spec_ascii_chars(v@),
{
    String::from_utf8_lossy(v).into_owned()
}

/// The sequence with its trailing NUL padding removed: the longest prefix
/// whose last byte is not zero. Interior NUL bytes are data and stay.
pub open spec fn spec_trim_nul(s: Seq<u8>) -> Seq<u8>
    decreases s.len(),
{
    if s.len() == 0 {
        s
    } else if s.last() == 0 {
        spec_trim_nul(s.drop_last())
    } else {
        s
    }
}

/// The prefix of `buf` before its trailing NUL padding, owned.
pub(crate) fn trim_nul(buf: &[u8]) -> (v: Vec<u8>)
    ensures
        v@ == spec_trim_nul(buf@),
{
    proof {
        vstd::slice::axiom_spec_len(buf);
        assert(buf@.take(buf@.len() as int) == buf@);
    }
    let mut end: usize = buf.len();
    while end > 0 && buf[end - 1] == 0
        invariant
            0 <= end <= buf@.len(),
            spec_trim_nul(buf@) == spec_trim_nul(buf@.take(end as int)),
        decreases end,
    {
        proof {
            assert(buf@.take(end as int).last() == buf@[end - 1]);
            assert(buf@.take(end as int).drop_last() == buf@.take(end - 1));
        }
        end -= 1;
    }
    let v = copy_range(buf, 0, end);
    proof {
        if end > 0 {
            assert(buf@.take(end as int).last() == buf@[end - 1]);
        }
        assert(v@ =~= buf@.take(end as int));
    }
    v
}

/// Drop trailing NUL padding and decode the rest lossily.
pub(crate) fn lossy_trimmed_string(buf: &[u8]) -> (r: String)
    ensures
        spec_all_ascii(spec_trim_nul(buf@)) ==> r@ == spec_ascii_chars(spec_trim_nul(buf@)),
{
    let v = trim_nul(buf);
    utf8_lossy(&v)
}

/// Utility function safely converting a slice of `i8` values into a `String`.
///
/// Trailing NUL padding is trimmed; what remains is decoded lossily, so the
/// call never fails. When the remaining bytes are plain ASCII the result is
/// exactly one character per byte.
pub fn i8_to_string(buf: &[i8]) -> (r: String)
    ensures
        spec_all_ascii(spec_trim_nul(buf@.map_values(|b: i8| b as u8))) ==> r@
            == spec_ascii_chars(spec_trim_nul(buf@.map_values(|b: i8| b as u8))),
{
    let mut v: Vec<u8> = Vec::new();
    let ghost mapped: Seq<u8> = buf@.map_values(|b: i8| b as u8);
    let mut i: usize = 0;
    while i < buf.len()
        invariant
            0 <= i <= buf@.len(),
            mapped == buf@.map_values(|b: i8| b as u8),
            mapped.len() == buf@.len(),
            v@.len() == i,
            forall|j: int| 0 <= j < i ==> v@[j] == mapped[j],
        decreases buf@.len() - i,
    {
        v.push(buf[i] as u8);
        i += 1;
    }
    proof {
        assert(v@ =~= mapped);
    }
    lossy_trimmed_string(v.as_slice())
}

// --- the source-identifier (NSLC) codec ---

/// A structure representing network, station, location, and channel
/// identifiers.
#[derive(Debug)]
pub struct NSLC {
    pub net: String,
    pub sta: String,
    pub loc: String,
    pub cha: String,
}

/// The identifier body: everything after the first colon (which ends a
/// namespace prefix), or the whole sequence when there is no colon.
pub open spec fn spec_sid_body(s: Seq<u8>) -> Seq<u8>
    decreases s.len(),
{
    if s.len() == 0 {
        s
    } else if s[0] == 58 {
        s.subrange(1, s.len() as int)
    } else if s.contains(58) {
        spec_sid_body(s.subrange(1, s.len() as int))
    } else {
        s
    }
}

/// The positions of the underscore delimiters within the identifier body.
pub open spec fn spec_unders(s: Seq<u8>) -> Seq<int> {
    Seq::new(s.len(), |i: int| i).filter(|i: int| s[i] == 95)
}

proof fn lemma_sid_body_at(s: Seq<u8>, i: int)
    requires
        0 <= i < s.len(),
        s[i] == 58,
        forall|j: int| 0 <= j < i ==> s[j] != 58,
    ensures
        spec_sid_body(s) == s.subrange(i + 1, s.len() as int),
    decreases i,
{
    if i == 0 {
    } else {
        let t = s.subrange(1, s.len() as int);
        assert(s.contains(58)) by {
            assert(s[i] == 58);
        }
        lemma_sid_body_at(t, i - 1);
        assert(t.subrange(i, t.len() as int) =~= s.subrange(i + 1, s.len() as int));
    }
}

proof fn lemma_sid_body_none(s: Seq<u8>)
    requires
        forall|j: int| 0 <= j < s.len() ==> s[j] != 58,
    ensures
        spec_sid_body(s) == s,
    decreases s.len(),
{
    if s.len() > 0 {
        assert(!s.contains(58));
    }
}

/// Copy `s[from..to]` into an owned vector.
pub(crate) fn copy_range(s: &[u8], from: usize, to: usize) -> (v: Vec<u8>)
    requires
        from <= to <= s@.len(),
    ensures
        v@ == s@.subrange(from as int, to as int),
{
    let mut v: Vec<u8> = Vec::new();
    let mut i: usize = from;
    while i < to
        invariant
            from <= i <= to <= s@.len(),
            v@.len() == i - from,
            forall|j: int| 0 <= j < i - from ==> v@[j] == s@[from + j],
        decreases to - i,
    {
        v.push(s[i]);
        i += 1;
    }
    proof {
        assert(v@ =~= s@.subrange(from as int, to as int));
    }
    v
}

impl NSLC {
    /// Create a new `NSLC` structure from a stream identifier buffer slice.
    ///
    /// Trailing NUL padding is trimmed and a namespace prefix ending in a
    /// colon is skipped; the body must then hold exactly three underscores,
    /// splitting it into network, station, location and channel. Anything
    /// else is a generic error. When the body is plain ASCII the four fields
    /// are exactly the four delimited substrings.
    pub fn try_from_sid(sid: &[i8]) -> (r: Result<Self>)
        ensures
            ({
                let body = spec_sid_body(
                    spec_trim_nul(sid@.map_values(|b: i8| b as u8)),
                );
                let ps = spec_unders(body);
                match r {
                    Ok(nslc) => ps.len() == 3 && (spec_all_ascii(body) ==> nslc.net@
                        == spec_ascii_chars(body.subrange(0, ps[0])) && nslc.sta@
                        == spec_ascii_chars(body.subrange(ps[0] + 1, ps[1])) && nslc.loc@
                        == spec_ascii_chars(body.subrange(ps[1] + 1, ps[2])) && nslc.cha@
                        == spec_ascii_chars(body.subrange(ps[2] + 1, body.len() as int))),
                    Err(e) => ps.len() != 3 && e.spec_code() == MS_GENERROR,
                }
            }),
    {
        let mut bytes: Vec<u8> = Vec::new();
        let ghost mapped: Seq<u8> = sid@.map_values(|b: i8| b as u8);
        let mut i: usize = 0;
        while i < sid.len()
            invariant
                0 <= i <= sid@.len(),
                mapped == sid@.map_values(|b: i8| b as u8),
                mapped.len() == sid@.len(),
                bytes@.len() == i,
                forall|j: int| 0 <= j < i ==> bytes@[j] == mapped[j],
            decreases sid@.len() - i,
        {
            bytes.push(sid[i] as u8);
            i += 1;
        }
        proof {
            assert(bytes@ =~= mapped);
        }
        let raw = trim_nul(bytes.as_slice());
        Self::from_clean_bytes(raw.as_slice())
    }

    /// The canonical underscored form of the identifier:
    /// `network_station_location_channel`.
    pub fn sid_string(&self) -> (r: String)
        ensures
            r@ == self.net@ + "_"@ + self.sta@ + "_"@ + self.loc@ + "_"@ + self.cha@,
    {
        let mut s = self.net.clone();
        s.append("_");
        s.append(self.sta.as_str());
        s.append("_");
        s.append(self.loc.as_str());
        s.append("_");
        s.append(self.cha.as_str());
        s
    }

    /// The splitting itself, on bytes already trimmed of NUL padding.
    pub(crate) fn from_clean_bytes(raw: &[u8]) -> (r: Result<Self>)
        ensures
            ({
                let body = spec_sid_body(raw@);
                let ps = spec_unders(body);
                match r {
                    Ok(nslc) => ps.len() == 3 && (spec_all_ascii(body) ==> nslc.net@
                        == spec_ascii_chars(body.subrange(0, ps[0])) && nslc.sta@
                        == spec_ascii_chars(body.subrange(ps[0] + 1, ps[1])) && nslc.loc@
                        == spec_ascii_chars(body.subrange(ps[1] + 1, ps[2])) && nslc.cha@
                        == spec_ascii_chars(body.subrange(ps[2] + 1, body.len() as int))),
                    Err(e) => ps.len() != 3 && e.spec_code() == MS_GENERROR,
                }
            }),
    {
        proof {
            vstd::slice::axiom_spec_len(raw);
        }
        // Skip a namespace prefix ending in a colon, if any.
        let mut start: usize = 0;
        let mut i: usize = 0;
        let mut found: bool = false;
        while i < raw.len() && !found
            invariant
                0 <= i <= raw@.len(),
                !found ==> forall|j: int| 0 <= j < i ==> raw@[j] != 58,
                found ==> i > 0 && raw@[i - 1] == 58 && start == i && (forall|j: int|
                    0 <= j < i - 1 ==> raw@[j] != 58),
                !found ==> start == 0,
            decreases raw@.len() - i,
        {
            if raw[i] == 58 {
                found = true;
                start = i + 1;
            }
            i += 1;
        }
        let ghost body = spec_sid_body(raw@);
        proof {
            if found {
                lemma_sid_body_at(raw@, start - 1);
            } else {
                lemma_sid_body_none(raw@);
                assert(raw@.subrange(0, raw@.len() as int) =~= raw@);
            }
            assert(body == raw@.subrange(start as int, raw@.len() as int));
        }
        // Find the underscore delimiters of the body; positions are
        // body-relative.
        let mut pos: Vec<usize> = Vec::new();
        let mut k: usize = start;
        while k < raw.len()
            invariant
                start <= k <= raw@.len(),
                body == raw@.subrange(start as int, raw@.len() as int),
                pos@.map_values(|x: usize| x as int) == Seq::new(
                    (k - start) as nat,
                    |i: int| i,
                ).filter(|i: int| body[i] == 95),
                forall|j: int|
                    0 <= j < pos@.len() ==> (pos@[j] as int) < k - start && body[pos@[j] as int]
                        == 95,
                forall|j: int| 0 < j < pos@.len() ==> pos@[j - 1] < #[trigger] pos@[j],
            decreases raw@.len() - k,
        {
            let ghost prefix = Seq::new((k - start) as nat, |i: int| i);
            proof {
                assert(Seq::new((k + 1 - start) as nat, |i: int| i).drop_last() =~= prefix);
                reveal(Seq::filter);
            }
            if raw[k] == 95 {
                pos.push(k - start);
                proof {
                    assert(pos@.map_values(|x: usize| x as int) =~= Seq::new(
                        (k + 1 - start) as nat,
                        |i: int| i,
                    ).filter(|i: int| body[i] == 95));
                }
            }
            k += 1;
        }
        proof {
            assert(Seq::new(body.len(), |i: int| i) =~= Seq::new(
                (raw@.len() - start) as nat,
                |i: int| i,
            ));
            assert(pos@.map_values(|x: usize| x as int) == spec_unders(body));
        }
        if pos.len() != 3 {
            return Err(MSError::from_str("invalid source identifier"));
        }
        let p0 = pos[0];
        let p1 = pos[1];
        let p2 = pos[2];
        proof {
            assert(spec_unders(body)[0] == p0 as int);
            assert(spec_unders(body)[1] == p1 as int);
            assert(spec_unders(body)[2] == p2 as int);
            assert(raw@.subrange(start as int, start + p0) =~= body.subrange(0, p0 as int));
            assert(raw@.subrange(start + p0 + 1, start + p1) =~= body.subrange(
                p0 + 1,
                p1 as int,
            ));
            assert(raw@.subrange(start + p1 + 1, start + p2) =~= body.subrange(
                p1 + 1,
                p2 as int,
            ));
            assert(raw@.subrange(start + p2 + 1, raw@.len() as int) =~= body.subrange(
                p2 + 1,
                body.len() as int,
            ));
        }
        let net = utf8_lossy(&copy_range(raw, start, start + p0));
        let sta = utf8_lossy(&copy_range(raw, start + p0 + 1, start + p1));
        let loc = utf8_lossy(&copy_range(raw, start + p1 + 1, start + p2));
        let cha = utf8_lossy(&copy_range(raw, start + p2 + 1, raw.len()));
        Ok(Self { net, sta, loc, cha })
    }
}

// --- the time codec ---

/// A calendar timestamp: year, day of year, time of day and nanoseconds.
#[derive(Debug, Eq, PartialEq, Copy, Clone, Structural)]
pub struct DecodedTime {
    pub year: u16,
    pub yday: u16,
    pub hour: u8,
    pub min: u8,
    pub sec: u8,
    pub nsec: u32,
}

/// True when the year has a leap day under the proleptic Gregorian rules.
pub open spec fn spec_is_leap(y: int) -> bool {
    (y % 4 == 0 && y % 100 != 0) || y % 400 == 0
}

/// Days in the year.
pub open spec fn spec_days_in_year(y: int) -> int {
    if spec_is_leap(y) {
        366
    } else {
        365
    }
}

/// Days of the proleptic Gregorian calendar strictly before year `y`,
/// counted from year 1.
pub open spec fn spec_days_before_year(y: int) -> int {
    365 * (y - 1) + (y - 1) / 4 - (y - 1) / 100 + (y - 1) / 400
}

/// Days from the epoch (1970-001) to day `yday` of year `year`.
pub open spec fn spec_epoch_days(year: int, yday: int) -> int {
    spec_days_before_year(year) - 719162 + (yday - 1)
}

impl DecodedTime {
    /// Field ranges: a real day of the year, a real time of day. A leap
    /// second (second 60) is not a representable calendar value here.
    pub open spec fn valid(&self) -> bool {
        1 <= self.year && 1 <= self.yday <= spec_days_in_year(self.year as int) && self.hour <= 23
            && self.min <= 59 && self.sec <= 59 && self.nsec <= 999_999_999
    }

    /// The nanosecond count since the epoch that this timestamp stands for.
    pub open spec fn nanos(&self) -> int {
        spec_epoch_days(self.year as int, self.yday as int) * 86_400_000_000_000 + (
        self.hour as int) * 3_600_000_000_000 + (self.min as int) * 60_000_000_000 + (
        self.sec as int) * 1_000_000_000 + self.nsec as int
    }
}

/// Division advances by one exactly at the multiples of the divisor.
proof fn lemma_div_step(x: int, c: int)
    requires
        x >= 1,
        c >= 1,
    ensures
        x / c == (x - 1) / c + (if x % c == 0 {
            1int
        } else {
            0int
        }),
{
    let q = (x - 1) / c;
    let r = (x - 1) % c;
    vstd::arithmetic::div_mod::lemma_fundamental_div_mod(x - 1, c);
    if r + 1 < c {
        vstd::arithmetic::div_mod::lemma_fundamental_div_mod_converse(x, c, q, r + 1);
    } else {
        assert((q + 1) * c == q * c + c) by (nonlinear_arith);
        vstd::arithmetic::div_mod::lemma_fundamental_div_mod_converse(x, c, q + 1, 0);
    }
}

/// Stepping one year forward adds exactly that year's length in days.
proof fn lemma_days_before_year_step(y: int)
    requires
        y >= 1,
    ensures
        spec_days_before_year(y + 1) == spec_days_before_year(y) + spec_days_in_year(y),
{
    lemma_div_step(y, 4);
    lemma_div_step(y, 100);
    lemma_div_step(y, 400);
    vstd::arithmetic::div_mod::lemma_mod_mod(y, 4, 25);
    vstd::arithmetic::div_mod::lemma_mod_mod(y, 100, 4);
    assert(y % 100 == 0 ==> y % 4 == 0);
    assert(y % 400 == 0 ==> y % 100 == 0);
}

/// Days of the calendar strictly before year `y`; `y` must be at least 1.
fn days_before_year(y: u16) -> (r: u64)
    requires
        y >= 1,
    ensures
        r as int == spec_days_before_year(y as int),
{
    let m = (y - 1) as u64;
    365 * m + m / 4 - m / 100 + m / 400
}

/// Days in the year, under the proleptic Gregorian leap rules.
fn days_in_year(y: u64) -> (r: u64)
    ensures
        r as int == spec_days_in_year(y as int),
{
    if (y % 4 == 0 && y % 100 != 0) || y % 400 == 0 {
        366
    } else {
        365
    }
}

/// The nanosecond count that the calendar fields stand for, or `None` when
/// the fields are not a valid timestamp or the count does not fit in 64
/// signed bits.
pub(crate) fn nanos_from_fields(
    year: u16,
    yday: u16,
    hour: u8,
    min: u8,
    sec: u8,
    nsec: u32,
) -> (r: Option<i64>)
    ensures
        ({
            let t = DecodedTime { year, yday, hour, min, sec, nsec };
            match r {
                Some(ns) => t.valid() && ns == t.nanos() && i64::MIN <= t.nanos() <= i64::MAX,
                None => !t.valid() || t.nanos() > i64::MAX || t.nanos() < i64::MIN,
            }
        }),
{
    if year < 1 || yday < 1 || hour > 23 || min > 59 || sec > 59 || nsec > 999_999_999 {
        return None;
    }
    let diy = days_in_year(year as u64);
    if (yday as u64) > diy {
        return None;
    }
    let dby = days_before_year(year);
    let epoch_days: i64 = (dby as i64) - 719_162 + ((yday - 1) as i64);
    let secs: i64 = epoch_days * 86_400 + (hour as i64) * 3_600 + (min as i64) * 60 + (sec as i64);
    let total: i128 = (secs as i128) * 1_000_000_000 + (nsec as i128);
    if total > (i64::MAX as i128) || total < (i64::MIN as i128) {
        return None;
    }
    Some(total as i64)
}

/// Convert calendar fields into the nanosecond count since the epoch they
/// stand for: the inverse of `nstime_to_time`. `None` when the fields are
/// not a valid timestamp or the count does not fit in 64 signed bits.
pub fn time_to_nstime(t: &DecodedTime) -> (r: Option<i64>)
    ensures
        match r {
            Some(ns) => t.valid() && ns == t.nanos(),
            None => !t.valid() || t.nanos() > i64::MAX || t.nanos() < i64::MIN,
        },
{
    nanos_from_fields(t.year, t.yday, t.hour, t.min, t.sec, t.nsec)
}

/// Convert a nanosecond count since the epoch into calendar fields.
///
/// Every 64-bit count is a representable calendar instant, so the call
/// always succeeds; the `Result` shell is the library's uniform fallible
/// interface. The result is the one valid timestamp that stands for the
/// count.
#[verifier::loop_isolation(false)]
pub fn nstime_to_time(nst: i64) -> (r: Result<DecodedTime>)
    ensures
        r matches Ok(t) && t.valid() && t.nanos() == nst as int && 1600 <= t.year <= 2300,
{
    // Shift by 110 000 days so every 64-bit count becomes non-negative.
    let shifted: u128 = ((nst as i128) + 9_504_000_000_000_000_000i128) as u128;
    let days_shifted: u128 = shifted / 86_400_000_000_000;
    let rem: u128 = shifted % 86_400_000_000_000;
    proof {
        vstd::arithmetic::div_mod::lemma_fundamental_div_mod(
            shifted as int,
            86_400_000_000_000,
        );
    }
    let days: i64 = (days_shifted as i64) - 110_000;
    let hour: u8 = (rem / 3_600_000_000_000) as u8;
    let r1: u128 = rem % 3_600_000_000_000;
    let min: u8 = (r1 / 60_000_000_000) as u8;
    let r2: u128 = r1 % 60_000_000_000;
    let sec: u8 = (r2 / 1_000_000_000) as u8;
    let nsec: u32 = (r2 % 1_000_000_000) as u32;
    proof {
        vstd::arithmetic::div_mod::lemma_fundamental_div_mod(rem as int, 3_600_000_000_000);
        vstd::arithmetic::div_mod::lemma_fundamental_div_mod(r1 as int, 60_000_000_000);
        vstd::arithmetic::div_mod::lemma_fundamental_div_mod(r2 as int, 1_000_000_000);
    }
    // Find the year whose days contain `days`.
    let mut y: u64 = 1970;
    let mut d: i64 = days;
    while d < 0
        invariant
            1668 <= y <= 1970,
            days as int == spec_days_before_year(y as int) - 719_162 + d,
            365 * (1970 - y as int) <= d - days,
            d <= 106_756,
        decreases y,
    {
        let diy = days_in_year(y - 1);
        proof {
            lemma_days_before_year_step(y as int - 1);
        }
        y = y - 1;
        d = d + diy as i64;
    }
    let ghost y0 = y;
    let ghost d0 = d;
    let mut diy: u64 = days_in_year(y);
    while d >= diy as i64
        invariant
            y0 <= y,
            diy as int == spec_days_in_year(y as int),
            days as int == spec_days_before_year(y as int) - 719_162 + d,
            365 * (y as int - y0 as int) <= d0 - d,
            d >= 0,
        decreases d,
    {
        proof {
            lemma_days_before_year_step(y as int);
        }
        d = d - diy as i64;
        y = y + 1;
        diy = days_in_year(y);
    }
    let t = DecodedTime {
        year: y as u16,
        yday: (d + 1) as u16,
        hour,
        min,
        sec,
        nsec,
    };
    Ok(t)
}

/// Years never overlap: the days before a later year include all days of an
/// earlier one.
proof fn lemma_days_before_year_mono(y1: int, y2: int)
    requires
        1 <= y1 < y2,
    ensures
        spec_days_before_year(y1) + spec_days_in_year(y1) <= spec_days_before_year(y2),
    decreases y2 - y1,
{
    lemma_days_before_year_step(y2 - 1);
    if y1 < y2 - 1 {
        lemma_days_before_year_mono(y1, y2 - 1);
    }
}

/// A nanosecond count names at most one valid calendar timestamp: the time
/// codec is injective on valid timestamps.
pub proof fn lemma_calendar_unique(a: DecodedTime, b: DecodedTime)
    requires
        a.valid(),
        b.valid(),
        a.nanos() == b.nanos(),
    ensures
        a == b,
{
    let tod_a = (a.hour as int) * 3_600_000_000_000 + (a.min as int) * 60_000_000_000 + (
    a.sec as int) * 1_000_000_000 + a.nsec as int;
    let tod_b = (b.hour as int) * 3_600_000_000_000 + (b.min as int) * 60_000_000_000 + (
    b.sec as int) * 1_000_000_000 + b.nsec as int;
    let da = spec_epoch_days(a.year as int, a.yday as int);
    let db = spec_epoch_days(b.year as int, b.yday as int);
    vstd::arithmetic::div_mod::lemma_fundamental_div_mod_converse(
        a.nanos(),
        86_400_000_000_000,
        da,
        tod_a,
    );
    vstd::arithmetic::div_mod::lemma_fundamental_div_mod_converse(
        b.nanos(),
        86_400_000_000_000,
        db,
        tod_b,
    );
    assert(da == db && tod_a == tod_b);
    vstd::arithmetic::div_mod::lemma_fundamental_div_mod_converse(
        tod_a,
        3_600_000_000_000,
        a.hour as int,
        tod_a - (a.hour as int) * 3_600_000_000_000,
    );
    vstd::arithmetic::div_mod::lemma_fundamental_div_mod_converse(
        tod_b,
        3_600_000_000_000,
        b.hour as int,
        tod_b - (b.hour as int) * 3_600_000_000_000,
    );
    assert(a.hour == b.hour);
    let ra = tod_a - (a.hour as int) * 3_600_000_000_000;
    vstd::arithmetic::div_mod::lemma_fundamental_div_mod_converse(
        ra,
        60_000_000_000,
        a.min as int,
        ra - (a.min as int) * 60_000_000_000,
    );
    vstd::arithmetic::div_mod::lemma_fundamental_div_mod_converse(
        ra,
        60_000_000_000,
        b.min as int,
        ra - (b.min as int) * 60_000_000_000,
    );
    assert(a.min == b.min);
    let sa = ra - (a.min as int) * 60_000_000_000;
    vstd::arithmetic::div_mod::lemma_fundamental_div_mod_converse(
        sa,
        1_000_000_000,
        a.sec as int,
        a.nsec as int,
    );
    vstd::arithmetic::div_mod::lemma_fundamental_div_mod_converse(
        sa,
        1_000_000_000,
        b.sec as int,
        b.nsec as int,
    );
    assert(a.sec == b.sec && a.nsec == b.nsec);
    if a.year < b.year {
        lemma_days_before_year_mono(a.year as int, b.year as int);
    }
    if b.year < a.year {
        lemma_days_before_year_mono(b.year as int, a.year as int);
    }
    assert(a.year == b.year && a.yday == b.yday);
}

/// The byte of a decimal digit.
pub open spec fn spec_digit(d: int) -> u8 {
    (48 + d) as u8
}

/// The fixed-width decimal rendering of `n`: exactly `width` digit bytes,
/// most significant first, zero-padded on the left.
pub open spec fn spec_dec(n: int, width: nat) -> Seq<u8>
    decreases width,
{
    if width == 0 {
        Seq::empty()
    } else {
        spec_dec(n / 10, (width - 1) as nat).push(spec_digit(n % 10))
    }
}

/// Every byte of a decimal rendering is an ASCII digit.
proof fn lemma_dec_ascii(n: int, width: nat)
    requires
        n >= 0,
    ensures
        spec_dec(n, width).len() == width,
        forall|j: int| 0 <= j < width ==> 48 <= #[trigger] spec_dec(n, width)[j] <= 57,
    decreases width,
{
    if width > 0 {
        lemma_dec_ascii(n / 10, (width - 1) as nat);
    }
}

/// Append the fixed-width decimal rendering of `n`.
fn push_dec(v: &mut Vec<u8>, n: u64, width: usize)
    ensures
        final(v)@ == old(v)@ + spec_dec(n as int, width as nat),
    decreases width,
{
    if width == 0 {
        proof {
            assert(final(v)@ =~= old(v)@ + spec_dec(n as int, 0));
        }
    } else {
        push_dec(v, n / 10, width - 1);
        v.push(48 + (n % 10) as u8);
        proof {
            assert(final(v)@ =~= old(v)@ + spec_dec(n as int, width as nat));
        }
    }
}

/// The canonical fixed-width time string of a timestamp, as bytes:
/// `YYYY,DDD,HH:MM:SS.NNNNNNNNN`.
pub open spec fn spec_time_bytes(t: DecodedTime) -> Seq<u8> {
    spec_dec(t.year as int, 4) + seq![44u8] + spec_dec(t.yday as int, 3) + seq![44u8] + spec_dec(
        t.hour as int,
        2,
    ) + seq![58u8] + spec_dec(t.min as int, 2) + seq![58u8] + spec_dec(t.sec as int, 2)
        + seq![46u8] + spec_dec(t.nsec as int, 9)
}

/// Convert a nanosecond time into a time string of the canonical ordinal
/// form `YYYY,DDD,HH:MM:SS.NNNNNNNNN`.
pub fn nstime_to_string(nst: i64) -> (r: Result<String>)
    ensures
        r matches Ok(s) && (exists|t: DecodedTime|
            (#[trigger] t.valid()) && t.nanos() == nst as int && s@ == spec_ascii_chars(
                spec_time_bytes(t),
            )),
{
    let t = match nstime_to_time(nst) {
        Ok(t) => t,
        Err(e) => {
            return Err(e);
        },
    };
    let mut v: Vec<u8> = Vec::new();
    push_dec(&mut v, t.year as u64, 4);
    v.push(44);
    push_dec(&mut v, t.yday as u64, 3);
    v.push(44);
    push_dec(&mut v, t.hour as u64, 2);
    v.push(58);
    push_dec(&mut v, t.min as u64, 2);
    v.push(58);
    push_dec(&mut v, t.sec as u64, 2);
    v.push(46);
    push_dec(&mut v, t.nsec as u64, 9);
    proof {
        assert(v@ =~= spec_time_bytes(t));
        lemma_dec_ascii(t.year as int, 4);
        lemma_dec_ascii(t.yday as int, 3);
        lemma_dec_ascii(t.hour as int, 2);
        lemma_dec_ascii(t.min as int, 2);
        lemma_dec_ascii(t.sec as int, 2);
        lemma_dec_ascii(t.nsec as int, 9);
        assert(spec_all_ascii(v@));
    }
    let s = utf8_lossy(&v);
    proof {
        assert(t.valid());
    }
    Ok(s)
}

} // verus!
