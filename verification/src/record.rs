//! Finished-session records and their history-line format.
//!
//! A record carries the four milli-unit scores and a timestamp. A history
//! line is one small JSON object, written and read by this module's own
//! verified printer and parser; parsing a printed line gives back exactly
//! the record (the round-trip law).

use vstd::prelude::*;
use vstd::string::StrSliceExecFns;
use vstd::string::StringExecFns;
use chrono::Datelike;
use chrono::Timelike;
use chrono::Offset;
use crate::codec::MILLI_LIMIT;
use crate::codec::spec_fixed_digits;
use crate::codec::spec_milli_chars;
use crate::codec::spec_parse_fixed;
use crate::codec::spec_parse_milli;
use crate::codec::spec_match;
use crate::codec::pow10;
use crate::codec::lemma_concat_parts;
use crate::codec::lemma_fixed_digits;
use crate::codec::lemma_parse_milli_encode;
use crate::codec::push_milli;
use crate::codec::push_fixed;
use crate::codec::parse_milli;
use crate::codec::parse_fixed;
use crate::codec::expect_lit;
use crate::error::ErrorKind;

verus! {

/// A calendar timestamp with its local offset, as plain integers.
#[derive(Clone, Copy, Debug, PartialEq, Eq, Structural)]
pub struct DateTime {
    pub year: u64,
    pub month: u64,
    pub day: u64,
    pub hour: u64,
    pub minute: u64,
    pub second: u64,
    /// Minutes east of UTC; negative is west.
    pub offset_minutes: i64,
}

impl DateTime {
    pub open spec fn wf(&self) -> bool {
        &&& 1 <= self.year <= 9999
        &&& 1 <= self.month <= 12
        &&& 1 <= self.day <= 31
        &&& self.hour <= 23
        &&& self.minute <= 59
        &&& self.second <= 59
        &&& -1440 < self.offset_minutes < 1440
    }
}

/// What the wall clock reports, field by field.
pub struct ClockReading {
    pub year: i32,
    pub month: u32,
    pub day: u32,
    pub hour: u32,
    pub minute: u32,
    pub second: u32,
    /// Seconds east of UTC.
    pub offset_secs: i32,
}

/// Relies on chrono's `Local::now` with the `Datelike` and `Timelike`
/// accessors: `month` is 1 to 12, `day` 1 to 31, `hour` 0 to 23, `minute`
/// and `second` 0 to 59, and `Offset::local_minus_utc` lies strictly
/// between one day west and one day east.
#[verifier::external_body]
pub fn read_local_clock() -> (r: ClockReading)
    ensures
        1 <= r.month <= 12,
        1 <= r.day <= 31,
        r.hour <= 23,
        r.minute <= 59,
        r.second <= 59,
        -86400 < r.offset_secs < 86400,
{
    let t = chrono::Local::now();
    ClockReading {
        year: t.year(),
        month: t.month(),
        day: t.day(),
        hour: t.hour(),
        minute: t.minute(),
        second: t.second(),
        offset_secs: t.offset().fix().local_minus_utc(),
    }
}

impl DateTime {
    /// Builds a well-formed timestamp from a clock reading, clamping the
    /// year into the four-digit range the line format can hold and
    /// truncating the offset to whole minutes.
    pub fn from_clock(c: ClockReading) -> (r: DateTime)
        requires
            1 <= c.month <= 12,
            1 <= c.day <= 31,
            c.hour <= 23,
            c.minute <= 59,
            c.second <= 59,
            -86400 < c.offset_secs < 86400,
        ensures
            r.wf(),
            r.year == if c.year < 1 {
                1int
            } else if c.year > 9999 {
                9999int
            } else {
                c.year as int
            },
            r.month == c.month,
            r.day == c.day,
            r.hour == c.hour,
            r.minute == c.minute,
            r.second == c.second,
            r.offset_minutes == if c.offset_secs >= 0 {
                c.offset_secs as int / 60
            } else {
                -((-(c.offset_secs as int)) / 60)
            },
    {
        let year: u64 = if c.year < 1 {
            1
        } else if c.year > 9999 {
            9999
        } else {
            c.year as u64
        };
        let offset_minutes: i64 = if c.offset_secs >= 0 {
            (c.offset_secs as i64) / 60
        } else {
            -((-(c.offset_secs as i64)) / 60)
        };
        DateTime {
            year,
            month: c.month as u64,
            day: c.day as u64,
            hour: c.hour as u64,
            minute: c.minute as u64,
            second: c.second as u64,
            offset_minutes,
        }
    }
}

/// The magnitude of the offset, in minutes.
pub open spec fn spec_offset_abs(dt: DateTime) -> nat {
    if dt.offset_minutes >= 0 {
        dt.offset_minutes as nat
    } else {
        (-(dt.offset_minutes as int)) as nat
    }
}

pub open spec fn spec_offset_sign(dt: DateTime) -> char {
    if dt.offset_minutes >= 0 {
        '+'
    } else {
        '-'
    }
}

/// A timestamp as written in a history line:
/// year-month-day `T` hour:minute:second, then the signed offset.
pub open spec fn spec_datetime_chars(dt: DateTime) -> Seq<char> {
    spec_fixed_digits(dt.year as nat, 4) + seq!['-'] + spec_fixed_digits(dt.month as nat, 2)
        + seq!['-'] + spec_fixed_digits(dt.day as nat, 2) + seq!['T'] + spec_fixed_digits(
        dt.hour as nat,
        2,
    ) + seq![':'] + spec_fixed_digits(dt.minute as nat, 2) + seq![':'] + spec_fixed_digits(
        dt.second as nat,
        2,
    ) + seq![spec_offset_sign(dt)] + spec_fixed_digits(spec_offset_abs(dt) / 60, 2) + seq![':']
        + spec_fixed_digits(spec_offset_abs(dt) % 60, 2)
}

/// Timestamp parse at `i`: the fixed-width fields with their separators,
/// each field within its calendar range.
pub open spec fn spec_parse_datetime(s: Seq<char>, i: int) -> Option<(DateTime, int)> {
    if i < 0 || i + 25 > s.len() {
        Option::None
    } else {
        let year = spec_parse_fixed(s, i, 4);
        let month = spec_parse_fixed(s, i + 5, 2);
        let day = spec_parse_fixed(s, i + 8, 2);
        let hour = spec_parse_fixed(s, i + 11, 2);
        let minute = spec_parse_fixed(s, i + 14, 2);
        let second = spec_parse_fixed(s, i + 17, 2);
        let oh = spec_parse_fixed(s, i + 20, 2);
        let om = spec_parse_fixed(s, i + 23, 2);
        if year is Some && s[i + 4] == '-' && month is Some && s[i + 7] == '-' && day is Some
            && s[i + 10] == 'T' && hour is Some && s[i + 13] == ':' && minute is Some && s[i + 16]
            == ':' && second is Some && (s[i + 19] == '+' || s[i + 19] == '-') && oh is Some && s[i
            + 22] == ':' && om is Some {
            let dt = DateTime {
                year: year->0 as u64,
                month: month->0 as u64,
                day: day->0 as u64,
                hour: hour->0 as u64,
                minute: minute->0 as u64,
                second: second->0 as u64,
                offset_minutes: if s[i + 19] == '+' {
                    (oh->0 * 60 + om->0) as i64
                } else {
                    (-((oh->0 * 60 + om->0) as int)) as i64
                },
            };
            if dt.wf() && oh->0 <= 23 && om->0 <= 59 {
                Option::Some((dt, i + 25))
            } else {
                Option::None
            }
        } else {
            Option::None
        }
    }
}

/// Appends a timestamp in the line format.
pub fn push_datetime(out: &mut String, dt: &DateTime)
    requires
        dt.wf(),
    ensures
        final(out)@ == old(out)@ + spec_datetime_chars(*dt),
{
    proof {
        reveal_strlit("-");
        reveal_strlit("T");
        reveal_strlit(":");
        reveal_strlit("+");
        assert("-"@ =~= seq!['-']);
        assert("T"@ =~= seq!['T']);
        assert(":"@ =~= seq![':']);
        assert("+"@ =~= seq!['+']);
    }
    push_fixed(out, dt.year, 4);
    out.append("-");
    push_fixed(out, dt.month, 2);
    out.append("-");
    push_fixed(out, dt.day, 2);
    out.append("T");
    push_fixed(out, dt.hour, 2);
    out.append(":");
    push_fixed(out, dt.minute, 2);
    out.append(":");
    push_fixed(out, dt.second, 2);
    let abs: u64 = if dt.offset_minutes >= 0 {
        dt.offset_minutes as u64
    } else {
        (-dt.offset_minutes) as u64
    };
    if dt.offset_minutes >= 0 {
        out.append("+");
    } else {
        out.append("-");
    }
    push_fixed(out, abs / 60, 2);
    out.append(":");
    push_fixed(out, abs % 60, 2);
    proof {
        assert(final(out)@ =~= old(out)@ + spec_datetime_chars(*dt));
    }
}

/// Timestamp parse, the executable side of `spec_parse_datetime`.
pub fn parse_datetime(s: &str, i: usize) -> (r: Option<(DateTime, usize)>)
    ensures
        match r {
            Option::Some((dt, j)) => {
                &&& spec_parse_datetime(s@, i as int) == Option::Some((dt, j as int))
                &&& dt.wf()
                &&& i < j <= s@.len()
            },
            Option::None => spec_parse_datetime(s@, i as int) is None,
        },
{
    let n = s.unicode_len();
    if i > n || n - i < 25 {
        return None;
    }
    let year = match parse_fixed(s, i, 4) {
        None => { return None; },
        Some(v) => v,
    };
    if s.get_char(i + 4) != '-' {
        return None;
    }
    let month = match parse_fixed(s, i + 5, 2) {
        None => { return None; },
        Some(v) => v,
    };
    if s.get_char(i + 7) != '-' {
        return None;
    }
    let day = match parse_fixed(s, i + 8, 2) {
        None => { return None; },
        Some(v) => v,
    };
    if s.get_char(i + 10) != 'T' {
        return None;
    }
    let hour = match parse_fixed(s, i + 11, 2) {
        None => { return None; },
        Some(v) => v,
    };
    if s.get_char(i + 13) != ':' {
        return None;
    }
    let minute = match parse_fixed(s, i + 14, 2) {
        None => { return None; },
        Some(v) => v,
    };
    if s.get_char(i + 16) != ':' {
        return None;
    }
    let second = match parse_fixed(s, i + 17, 2) {
        None => { return None; },
        Some(v) => v,
    };
    let sign = s.get_char(i + 19);
    if sign != '+' && sign != '-' {
        return None;
    }
    let oh = match parse_fixed(s, i + 20, 2) {
        None => { return None; },
        Some(v) => v,
    };
    if s.get_char(i + 22) != ':' {
        return None;
    }
    let om = match parse_fixed(s, i + 23, 2) {
        None => { return None; },
        Some(v) => v,
    };
    proof {
        assert(pow10(0) == 1);
        assert(pow10(1) == 10);
        assert(pow10(2) == 100);
        assert(pow10(3) == 1000);
        assert(pow10(4) == 10000);
        lemma_parse_fixed_value_bound(s@, i as int, 4);
        lemma_parse_fixed_value_bound(s@, i + 5, 2);
        lemma_parse_fixed_value_bound(s@, i + 8, 2);
        lemma_parse_fixed_value_bound(s@, i + 11, 2);
        lemma_parse_fixed_value_bound(s@, i + 14, 2);
        lemma_parse_fixed_value_bound(s@, i + 17, 2);
        lemma_parse_fixed_value_bound(s@, i + 20, 2);
        lemma_parse_fixed_value_bound(s@, i + 23, 2);
    }
    let offset_minutes: i64 = if sign == '+' {
        (oh * 60 + om) as i64
    } else {
        -((oh * 60 + om) as i64)
    };
    let dt = DateTime {
        year,
        month,
        day,
        hour,
        minute,
        second,
        offset_minutes,
    };
    if year < 1 || month < 1 || month > 12 || day < 1 || day > 31 || hour > 23 || minute > 59
        || second > 59 || oh > 23 || om > 59 {
        return None;
    }
    Some((dt, i + 25))
}

/// A successful fixed-width parse yields a value below ten to the width.
pub proof fn lemma_parse_fixed_value_bound(s: Seq<char>, i: int, w: int)
    requires
        spec_parse_fixed(s, i, w) is Some,
        0 <= w <= 4,
    ensures
        spec_parse_fixed(s, i, w)->0 < pow10(w as nat),
{
    crate::codec::lemma_dec_val_bound(s.subrange(i, i + w));
}

/// Parsing a printed timestamp out of its context returns exactly the
/// timestamp.
pub proof fn lemma_parse_datetime_encode(s: Seq<char>, i: int, dt: DateTime)
    requires
        0 <= i,
        dt.wf(),
        i + 25 <= s.len(),
        s.subrange(i, i + 25) == spec_datetime_chars(dt),
    ensures
        spec_parse_datetime(s, i) == Option::Some((dt, i + 25)),
{
    let full = spec_datetime_chars(dt);
    assert(pow10(0) == 1);
    assert(pow10(1) == 10);
    assert(pow10(2) == 100);
    assert(pow10(3) == 1000);
    assert(pow10(4) == 10000);
    let abs = spec_offset_abs(dt);
    assert(abs < 1440);
    assert(abs / 60 <= 23) by (nonlinear_arith)
        requires
            abs < 1440,
    ;
    assert(abs % 60 <= 59);
    let y = spec_fixed_digits(dt.year as nat, 4);
    let mo = spec_fixed_digits(dt.month as nat, 2);
    let d = spec_fixed_digits(dt.day as nat, 2);
    let h = spec_fixed_digits(dt.hour as nat, 2);
    let mi = spec_fixed_digits(dt.minute as nat, 2);
    let sec = spec_fixed_digits(dt.second as nat, 2);
    let ohd = spec_fixed_digits(abs / 60, 2);
    let omd = spec_fixed_digits(abs % 60, 2);
    lemma_fixed_digits(dt.year as nat, 4);
    lemma_fixed_digits(dt.month as nat, 2);
    lemma_fixed_digits(dt.day as nat, 2);
    lemma_fixed_digits(dt.hour as nat, 2);
    lemma_fixed_digits(dt.minute as nat, 2);
    lemma_fixed_digits(dt.second as nat, 2);
    lemma_fixed_digits(abs / 60, 2);
    lemma_fixed_digits(abs % 60, 2);
    let c1 = y + seq!['-'];
    let c2 = c1 + mo;
    let c3 = c2 + seq!['-'];
    let c4 = c3 + d;
    let c5 = c4 + seq!['T'];
    let c6 = c5 + h;
    let c7 = c6 + seq![':'];
    let c8 = c7 + mi;
    let c9 = c8 + seq![':'];
    let c10 = c9 + sec;
    let c11 = c10 + seq![spec_offset_sign(dt)];
    let c12 = c11 + ohd;
    let c13 = c12 + seq![':'];
    assert(full == c13 + omd);
    assert(y.len() == 4);
    assert(c1.len() == 5);
    assert(c2.len() == 7);
    assert(c3.len() == 8);
    assert(c4.len() == 10);
    assert(c5.len() == 11);
    assert(c6.len() == 13);
    assert(c7.len() == 14);
    assert(c8.len() == 16);
    assert(c9.len() == 17);
    assert(c10.len() == 19);
    assert(c11.len() == 20);
    assert(c12.len() == 22);
    assert(c13.len() == 23);
    lemma_concat_parts(y, seq!['-']);
    lemma_concat_parts(c1, mo);
    lemma_concat_parts(c2, seq!['-']);
    lemma_concat_parts(c3, d);
    lemma_concat_parts(c4, seq!['T']);
    lemma_concat_parts(c5, h);
    lemma_concat_parts(c6, seq![':']);
    lemma_concat_parts(c7, mi);
    lemma_concat_parts(c8, seq![':']);
    lemma_concat_parts(c9, sec);
    lemma_concat_parts(c10, seq![spec_offset_sign(dt)]);
    lemma_concat_parts(c11, ohd);
    lemma_concat_parts(c12, seq![':']);
    lemma_concat_parts(c13, omd);
    assert(full.len() == 25);
    assert forall|p: int| i <= p < i + 25 implies s[p] == full[p - i] by {
        assert(s[p] == s.subrange(i, i + 25)[p - i]);
    }
    assert forall|k: int| 0 <= k < 4 implies full[k] == y[k - 0] by {
        assert(full[k] == c13[k]);
        assert(c13[k] == c12[k]);
        assert(c12[k] == c11[k]);
        assert(c11[k] == c10[k]);
        assert(c10[k] == c9[k]);
        assert(c9[k] == c8[k]);
        assert(c8[k] == c7[k]);
        assert(c7[k] == c6[k]);
        assert(c6[k] == c5[k]);
        assert(c5[k] == c4[k]);
        assert(c4[k] == c3[k]);
        assert(c3[k] == c2[k]);
        assert(c2[k] == c1[k]);
        assert(c1[k] == y[k]);
    }
    assert forall|k: int| 4 <= k < 5 implies full[k] == '-' by {
        assert(full[k] == c13[k]);
        assert(c13[k] == c12[k]);
        assert(c12[k] == c11[k]);
        assert(c11[k] == c10[k]);
        assert(c10[k] == c9[k]);
        assert(c9[k] == c8[k]);
        assert(c8[k] == c7[k]);
        assert(c7[k] == c6[k]);
        assert(c6[k] == c5[k]);
        assert(c5[k] == c4[k]);
        assert(c4[k] == c3[k]);
        assert(c3[k] == c2[k]);
        assert(c2[k] == c1[k]);
        assert(c1[k] == '-');
    }
    assert forall|k: int| 5 <= k < 7 implies full[k] == mo[k - 5] by {
        assert(full[k] == c13[k]);
        assert(c13[k] == c12[k]);
        assert(c12[k] == c11[k]);
        assert(c11[k] == c10[k]);
        assert(c10[k] == c9[k]);
        assert(c9[k] == c8[k]);
        assert(c8[k] == c7[k]);
        assert(c7[k] == c6[k]);
        assert(c6[k] == c5[k]);
        assert(c5[k] == c4[k]);
        assert(c4[k] == c3[k]);
        assert(c3[k] == c2[k]);
        assert(c2[k] == mo[k - 5]);
    }
    assert forall|k: int| 7 <= k < 8 implies full[k] == '-' by {
        assert(full[k] == c13[k]);
        assert(c13[k] == c12[k]);
        assert(c12[k] == c11[k]);
        assert(c11[k] == c10[k]);
        assert(c10[k] == c9[k]);
        assert(c9[k] == c8[k]);
        assert(c8[k] == c7[k]);
        assert(c7[k] == c6[k]);
        assert(c6[k] == c5[k]);
        assert(c5[k] == c4[k]);
        assert(c4[k] == c3[k]);
        assert(c3[k] == '-');
    }
    assert forall|k: int| 8 <= k < 10 implies full[k] == d[k - 8] by {
        assert(full[k] == c13[k]);
        assert(c13[k] == c12[k]);
        assert(c12[k] == c11[k]);
        assert(c11[k] == c10[k]);
        assert(c10[k] == c9[k]);
        assert(c9[k] == c8[k]);
        assert(c8[k] == c7[k]);
        assert(c7[k] == c6[k]);
        assert(c6[k] == c5[k]);
        assert(c5[k] == c4[k]);
        assert(c4[k] == d[k - 8]);
    }
    assert forall|k: int| 10 <= k < 11 implies full[k] == 'T' by {
        assert(full[k] == c13[k]);
        assert(c13[k] == c12[k]);
        assert(c12[k] == c11[k]);
        assert(c11[k] == c10[k]);
        assert(c10[k] == c9[k]);
        assert(c9[k] == c8[k]);
        assert(c8[k] == c7[k]);
        assert(c7[k] == c6[k]);
        assert(c6[k] == c5[k]);
        assert(c5[k] == 'T');
    }
    assert forall|k: int| 11 <= k < 13 implies full[k] == h[k - 11] by {
        assert(full[k] == c13[k]);
        assert(c13[k] == c12[k]);
        assert(c12[k] == c11[k]);
        assert(c11[k] == c10[k]);
        assert(c10[k] == c9[k]);
        assert(c9[k] == c8[k]);
        assert(c8[k] == c7[k]);
        assert(c7[k] == c6[k]);
        assert(c6[k] == h[k - 11]);
    }
    assert forall|k: int| 13 <= k < 14 implies full[k] == ':' by {
        assert(full[k] == c13[k]);
        assert(c13[k] == c12[k]);
        assert(c12[k] == c11[k]);
        assert(c11[k] == c10[k]);
        assert(c10[k] == c9[k]);
        assert(c9[k] == c8[k]);
        assert(c8[k] == c7[k]);
        assert(c7[k] == ':');
    }
    assert forall|k: int| 14 <= k < 16 implies full[k] == mi[k - 14] by {
        assert(full[k] == c13[k]);
        assert(c13[k] == c12[k]);
        assert(c12[k] == c11[k]);
        assert(c11[k] == c10[k]);
        assert(c10[k] == c9[k]);
        assert(c9[k] == c8[k]);
        assert(c8[k] == mi[k - 14]);
    }
    assert forall|k: int| 16 <= k < 17 implies full[k] == ':' by {
        assert(full[k] == c13[k]);
        assert(c13[k] == c12[k]);
        assert(c12[k] == c11[k]);
        assert(c11[k] == c10[k]);
        assert(c10[k] == c9[k]);
        assert(c9[k] == ':');
    }
    assert forall|k: int| 17 <= k < 19 implies full[k] == sec[k - 17] by {
        assert(full[k] == c13[k]);
        assert(c13[k] == c12[k]);
        assert(c12[k] == c11[k]);
        assert(c11[k] == c10[k]);
        assert(c10[k] == sec[k - 17]);
    }
    assert forall|k: int| 19 <= k < 20 implies full[k] == spec_offset_sign(dt) by {
        assert(full[k] == c13[k]);
        assert(c13[k] == c12[k]);
        assert(c12[k] == c11[k]);
        assert(c11[k] == spec_offset_sign(dt));
    }
    assert forall|k: int| 20 <= k < 22 implies full[k] == ohd[k - 20] by {
        assert(full[k] == c13[k]);
        assert(c13[k] == c12[k]);
        assert(c12[k] == ohd[k - 20]);
    }
    assert forall|k: int| 22 <= k < 23 implies full[k] == ':' by {
        assert(full[k] == c13[k]);
        assert(c13[k] == ':');
    }
    assert forall|k: int| 23 <= k < 25 implies full[k] == omd[k - 23] by {
        assert(full[k] == omd[k - 23]);
    }
    assert(s.subrange(i, i + 4) =~= spec_fixed_digits(dt.year as nat, 4));
    assert(s[i + 4] == '-');
    assert(s.subrange(i + 5, i + 7) =~= spec_fixed_digits(dt.month as nat, 2));
    assert(s[i + 7] == '-');
    assert(s.subrange(i + 8, i + 10) =~= spec_fixed_digits(dt.day as nat, 2));
    assert(s[i + 10] == 'T');
    assert(s.subrange(i + 11, i + 13) =~= spec_fixed_digits(dt.hour as nat, 2));
    assert(s[i + 13] == ':');
    assert(s.subrange(i + 14, i + 16) =~= spec_fixed_digits(dt.minute as nat, 2));
    assert(s[i + 16] == ':');
    assert(s.subrange(i + 17, i + 19) =~= spec_fixed_digits(dt.second as nat, 2));
    assert(s[i + 19] == spec_offset_sign(dt));
    assert(s.subrange(i + 20, i + 22) =~= spec_fixed_digits(abs / 60, 2));
    assert(s[i + 22] == ':');
    assert(s.subrange(i + 23, i + 25) =~= spec_fixed_digits(abs % 60, 2));
    assert(spec_parse_fixed(s, i, 4) == Option::Some(dt.year as nat));
    assert(spec_parse_fixed(s, i + 5, 2) == Option::Some(dt.month as nat));
    assert(spec_parse_fixed(s, i + 8, 2) == Option::Some(dt.day as nat));
    assert(spec_parse_fixed(s, i + 11, 2) == Option::Some(dt.hour as nat));
    assert(spec_parse_fixed(s, i + 14, 2) == Option::Some(dt.minute as nat));
    assert(spec_parse_fixed(s, i + 17, 2) == Option::Some(dt.second as nat));
    assert(spec_parse_fixed(s, i + 20, 2) == Option::Some(abs / 60));
    assert(spec_parse_fixed(s, i + 23, 2) == Option::Some(abs % 60));
    assert((abs / 60) * 60 + abs % 60 == abs) by (nonlinear_arith);
    if dt.offset_minutes >= 0 {
        assert(spec_offset_sign(dt) == '+');
    } else {
        assert(spec_offset_sign(dt) == '-');
    }
}


/// One finished session's scores, in milli-units, with its timestamp.
#[derive(Clone, Copy, Debug, PartialEq, Eq, Structural)]
pub struct WpmResult {
    pub wpm_milli: u64,
    pub accuracy_milli: u64,
    pub duration_milli: u64,
    pub awpm_milli: u64,
    pub date_time: DateTime,
}

pub open spec fn seg_head() -> Seq<char> {
    "{\"wpm\":"@
}

pub open spec fn seg_accuracy() -> Seq<char> {
    ",\"accuracy\":"@
}

pub open spec fn seg_duration() -> Seq<char> {
    ",\"duration\":"@
}

pub open spec fn seg_awpm() -> Seq<char> {
    ",\"awpm\":"@
}

pub open spec fn seg_datetime() -> Seq<char> {
    ",\"date_time\":\""@
}

pub open spec fn seg_tail() -> Seq<char> {
    "\"}"@
}

/// A record as one history line: a JSON object with the four milli-unit
/// scores and the quoted timestamp.
pub open spec fn spec_record_line(r: WpmResult) -> Seq<char> {
    seg_head() + spec_milli_chars(r.wpm_milli as nat) + seg_accuracy() + spec_milli_chars(
        r.accuracy_milli as nat,
    ) + seg_duration() + spec_milli_chars(r.duration_milli as nat) + seg_awpm()
        + spec_milli_chars(r.awpm_milli as nat) + seg_datetime() + spec_datetime_chars(
        r.date_time,
    ) + seg_tail()
}

/// Record parse: the entire string must be one well-formed history line.
pub open spec fn spec_parse_record(s: Seq<char>) -> Option<WpmResult> {
    if !spec_match(s, 0, seg_head()) {
        Option::None
    } else {
        match spec_parse_milli(s, seg_head().len() as int) {
            Option::None => Option::None,
            Option::Some((wpm, q1)) => if !spec_match(s, q1, seg_accuracy()) {
                Option::None
            } else {
                match spec_parse_milli(s, q1 + seg_accuracy().len()) {
                    Option::None => Option::None,
                    Option::Some((acc, q2)) => if !spec_match(s, q2, seg_duration()) {
                        Option::None
                    } else {
                        match spec_parse_milli(s, q2 + seg_duration().len()) {
                            Option::None => Option::None,
                            Option::Some((dur, q3)) => if !spec_match(s, q3, seg_awpm()) {
                                Option::None
                            } else {
                                match spec_parse_milli(s, q3 + seg_awpm().len()) {
                                    Option::None => Option::None,
                                    Option::Some((awpm, q4)) => if !spec_match(
                                        s,
                                        q4,
                                        seg_datetime(),
                                    ) {
                                        Option::None
                                    } else {
                                        match spec_parse_datetime(
                                            s,
                                            q4 + seg_datetime().len(),
                                        ) {
                                            Option::None => Option::None,
                                            Option::Some((dt, q5)) => if spec_match(
                                                s,
                                                q5,
                                                seg_tail(),
                                            ) && q5 + seg_tail().len() == s.len() && acc
                                                <= 1000 {
                                                Option::Some(
                                                    WpmResult {
                                                        wpm_milli: wpm as u64,
                                                        accuracy_milli: acc as u64,
                                                        duration_milli: dur as u64,
                                                        awpm_milli: awpm as u64,
                                                        date_time: dt,
                                                    },
                                                )
                                            } else {
                                                Option::None
                                            },
                                        }
                                    },
                                }
                            },
                        }
                    },
                }
            },
        }
    }
}

impl WpmResult {
    pub open spec fn wf(&self) -> bool {
        &&& self.wpm_milli < MILLI_LIMIT
        &&& self.accuracy_milli <= 1000
        &&& self.duration_milli < MILLI_LIMIT
        &&& self.awpm_milli < MILLI_LIMIT
        &&& self.date_time.wf()
    }

    /// Builds a record from the four scores with an explicit timestamp.
    pub fn from_parts(
        wpm_milli: u64,
        accuracy_milli: u64,
        duration_milli: u64,
        awpm_milli: u64,
        date_time: DateTime,
    ) -> (r: WpmResult)
        requires
            wpm_milli < MILLI_LIMIT,
            accuracy_milli <= 1000,
            duration_milli < MILLI_LIMIT,
            awpm_milli < MILLI_LIMIT,
            date_time.wf(),
        ensures
            r == (WpmResult { wpm_milli, accuracy_milli, duration_milli, awpm_milli, date_time }),
            r.wf(),
    {
        WpmResult { wpm_milli, accuracy_milli, duration_milli, awpm_milli, date_time }
    }

    /// Builds a record from the four scores, stamped with the current time.
    pub fn new(wpm_milli: u64, accuracy_milli: u64, duration_milli: u64, awpm_milli: u64) -> (r:
        WpmResult)
        requires
            wpm_milli < MILLI_LIMIT,
            accuracy_milli <= 1000,
            duration_milli < MILLI_LIMIT,
            awpm_milli < MILLI_LIMIT,
        ensures
            r.wf(),
            r.wpm_milli == wpm_milli,
            r.accuracy_milli == accuracy_milli,
            r.duration_milli == duration_milli,
            r.awpm_milli == awpm_milli,
    {
        let clock = read_local_clock();
        WpmResult {
            wpm_milli,
            accuracy_milli,
            duration_milli,
            awpm_milli,
            date_time: DateTime::from_clock(clock),
        }
    }

    /// Prints the record as its history line (without a line break).
    pub fn to_json(&self) -> (r: String)
        requires
            self.wf(),
        ensures
            r@ == spec_record_line(*self),
    {
        let mut out = String::new();
        out.append("{\"wpm\":");
        push_milli(&mut out, self.wpm_milli);
        out.append(",\"accuracy\":");
        push_milli(&mut out, self.accuracy_milli);
        out.append(",\"duration\":");
        push_milli(&mut out, self.duration_milli);
        out.append(",\"awpm\":");
        push_milli(&mut out, self.awpm_milli);
        out.append(",\"date_time\":\"");
        push_datetime(&mut out, &self.date_time);
        out.append("\"}");
        proof {
            assert(out@ =~= spec_record_line(*self));
        }
        out
    }

    /// Reads a record back from one history line; fails with a parse error
    /// on anything that is not exactly a printed record.
    pub fn from_json(json: &str) -> (r: Result<WpmResult, ErrorKind>)
        ensures
            match r {
                Ok(rec) => spec_parse_record(json@) == Option::Some(rec) && rec.wf(),
                Err(e) => spec_parse_record(json@) is None && e == ErrorKind::ParseError,
            },
    {
        let p1 = match expect_lit(json, 0, "{\"wpm\":") {
            None => { return Err(ErrorKind::ParseError); },
            Some(p) => p,
        };
        let (wpm, q1) = match parse_milli(json, p1) {
            None => { return Err(ErrorKind::ParseError); },
            Some(v) => v,
        };
        let p2 = match expect_lit(json, q1, ",\"accuracy\":") {
            None => { return Err(ErrorKind::ParseError); },
            Some(p) => p,
        };
        let (acc, q2) = match parse_milli(json, p2) {
            None => { return Err(ErrorKind::ParseError); },
            Some(v) => v,
        };
        let p3 = match expect_lit(json, q2, ",\"duration\":") {
            None => { return Err(ErrorKind::ParseError); },
            Some(p) => p,
        };
        let (dur, q3) = match parse_milli(json, p3) {
            None => { return Err(ErrorKind::ParseError); },
            Some(v) => v,
        };
        let p4 = match expect_lit(json, q3, ",\"awpm\":") {
            None => { return Err(ErrorKind::ParseError); },
            Some(p) => p,
        };
        let (awpm, q4) = match parse_milli(json, p4) {
            None => { return Err(ErrorKind::ParseError); },
            Some(v) => v,
        };
        let p5 = match expect_lit(json, q4, ",\"date_time\":\"") {
            None => { return Err(ErrorKind::ParseError); },
            Some(p) => p,
        };
        let (dt, q5) = match parse_datetime(json, p5) {
            None => { return Err(ErrorKind::ParseError); },
            Some(v) => v,
        };
        let p6 = match expect_lit(json, q5, "\"}") {
            None => { return Err(ErrorKind::ParseError); },
            Some(p) => p,
        };
        if p6 != json.unicode_len() {
            return Err(ErrorKind::ParseError);
        }
        if acc > 1000 {
            return Err(ErrorKind::ParseError);
        }
        Ok(
            WpmResult {
                wpm_milli: wpm,
                accuracy_milli: acc,
                duration_milli: dur,
                awpm_milli: awpm,
                date_time: dt,
            },
        )
    }

    /// The timestamp as the chart's label text.
    pub fn date_label(&self) -> (r: String)
        requires
            self.date_time.wf(),
        ensures
            r@ == spec_datetime_chars(self.date_time),
    {
        let mut out = String::new();
        push_datetime(&mut out, &self.date_time);
        proof {
            assert(out@ =~= spec_datetime_chars(self.date_time));
        }
        out
    }

    /// The adjusted speed in whole words per minute, rounded toward zero,
    /// as charted.
    pub fn awpm_whole(&self) -> (r: u64)
        ensures
            r == self.awpm_milli / 1000,
    {
        self.awpm_milli / 1000
    }
}

/// The round-trip law: parsing a printed record gives back the record,
/// equal in all fields.
#[verifier::rlimit(100)]
pub proof fn lemma_record_round_trip(r: WpmResult)
    requires
        r.wf(),
    ensures
        spec_parse_record(spec_record_line(r)) == Option::Some(r),
{
    reveal_strlit("{\"wpm\":");
    reveal_strlit(",\"accuracy\":");
    reveal_strlit(",\"duration\":");
    reveal_strlit(",\"awpm\":");
    reveal_strlit(",\"date_time\":\"");
    reveal_strlit("\"}");
    let line = spec_record_line(r);
    let m1 = spec_milli_chars(r.wpm_milli as nat);
    let m2 = spec_milli_chars(r.accuracy_milli as nat);
    let m3 = spec_milli_chars(r.duration_milli as nat);
    let m4 = spec_milli_chars(r.awpm_milli as nat);
    let dtc = spec_datetime_chars(r.date_time);
    assert(seg_head().len() == 7);
    assert(seg_accuracy().len() == 12);
    assert(seg_duration().len() == 12);
    assert(seg_awpm().len() == 8);
    assert(seg_datetime().len() == 14);
    assert(seg_tail().len() == 2);
    let c1 = seg_head() + m1;
    let c2 = c1 + seg_accuracy();
    let c3 = c2 + m2;
    let c4 = c3 + seg_duration();
    let c5 = c4 + m3;
    let c6 = c5 + seg_awpm();
    let c7 = c6 + m4;
    let c8 = c7 + seg_datetime();
    let c9 = c8 + dtc;
    assert(line == c9 + seg_tail());
    lemma_concat_parts(seg_head(), m1);
    lemma_concat_parts(c1, seg_accuracy());
    lemma_concat_parts(c2, m2);
    lemma_concat_parts(c3, seg_duration());
    lemma_concat_parts(c4, m3);
    lemma_concat_parts(c5, seg_awpm());
    lemma_concat_parts(c6, m4);
    lemma_concat_parts(c7, seg_datetime());
    lemma_concat_parts(c8, dtc);
    lemma_concat_parts(c9, seg_tail());
    let o1 = 7int;
    let o2 = o1 + m1.len() as int;
    let o3 = o2 + 12;
    let o4 = o3 + m2.len() as int;
    let o5 = o4 + 12;
    let o6 = o5 + m3.len() as int;
    let o7 = o6 + 8;
    let o8 = o7 + m4.len() as int;
    let o9 = o8 + 14;
    let o10 = o9 + 25;
    assert(dtc.len() == 25) by {
        lemma_fixed_digits_lens(r.date_time);
    }
    assert(line.len() == o10 + 2);
    assert forall|k: int| 0 <= k < 7 implies line[k] == seg_head()[k - (0)] by {
        assert(line[k] == c9[k]);
        assert(c9[k] == c8[k]);
        assert(c8[k] == c7[k]);
        assert(c7[k] == c6[k]);
        assert(c6[k] == c5[k]);
        assert(c5[k] == c4[k]);
        assert(c4[k] == c3[k]);
        assert(c3[k] == c2[k]);
        assert(c2[k] == c1[k]);
        assert(c1[k] == seg_head()[k - (0)]);
    }
    assert forall|k: int| o1 <= k < o2 implies line[k] == m1[k - (o1)] by {
        assert(line[k] == c9[k]);
        assert(c9[k] == c8[k]);
        assert(c8[k] == c7[k]);
        assert(c7[k] == c6[k]);
        assert(c6[k] == c5[k]);
        assert(c5[k] == c4[k]);
        assert(c4[k] == c3[k]);
        assert(c3[k] == c2[k]);
        assert(c2[k] == c1[k]);
        assert(c1[k] == m1[k - (o1)]);
    }
    assert forall|k: int| o2 <= k < o3 implies line[k] == seg_accuracy()[k - (o2)] by {
        assert(line[k] == c9[k]);
        assert(c9[k] == c8[k]);
        assert(c8[k] == c7[k]);
        assert(c7[k] == c6[k]);
        assert(c6[k] == c5[k]);
        assert(c5[k] == c4[k]);
        assert(c4[k] == c3[k]);
        assert(c3[k] == c2[k]);
        assert(c2[k] == seg_accuracy()[k - (o2)]);
    }
    assert forall|k: int| o3 <= k < o4 implies line[k] == m2[k - (o3)] by {
        assert(line[k] == c9[k]);
        assert(c9[k] == c8[k]);
        assert(c8[k] == c7[k]);
        assert(c7[k] == c6[k]);
        assert(c6[k] == c5[k]);
        assert(c5[k] == c4[k]);
        assert(c4[k] == c3[k]);
        assert(c3[k] == m2[k - (o3)]);
    }
    assert forall|k: int| o4 <= k < o5 implies line[k] == seg_duration()[k - (o4)] by {
        assert(line[k] == c9[k]);
        assert(c9[k] == c8[k]);
        assert(c8[k] == c7[k]);
        assert(c7[k] == c6[k]);
        assert(c6[k] == c5[k]);
        assert(c5[k] == c4[k]);
        assert(c4[k] == seg_duration()[k - (o4)]);
    }
    assert forall|k: int| o5 <= k < o6 implies line[k] == m3[k - (o5)] by {
        assert(line[k] == c9[k]);
        assert(c9[k] == c8[k]);
        assert(c8[k] == c7[k]);
        assert(c7[k] == c6[k]);
        assert(c6[k] == c5[k]);
        assert(c5[k] == m3[k - (o5)]);
    }
    assert forall|k: int| o6 <= k < o7 implies line[k] == seg_awpm()[k - (o6)] by {
        assert(line[k] == c9[k]);
        assert(c9[k] == c8[k]);
        assert(c8[k] == c7[k]);
        assert(c7[k] == c6[k]);
        assert(c6[k] == seg_awpm()[k - (o6)]);
    }
    assert forall|k: int| o7 <= k < o8 implies line[k] == m4[k - (o7)] by {
        assert(line[k] == c9[k]);
        assert(c9[k] == c8[k]);
        assert(c8[k] == c7[k]);
        assert(c7[k] == m4[k - (o7)]);
    }
    assert forall|k: int| o8 <= k < o9 implies line[k] == seg_datetime()[k - (o8)] by {
        assert(line[k] == c9[k]);
        assert(c9[k] == c8[k]);
        assert(c8[k] == seg_datetime()[k - (o8)]);
    }
    assert forall|k: int| o9 <= k < o10 implies line[k] == dtc[k - (o9)] by {
        assert(line[k] == c9[k]);
        assert(c9[k] == dtc[k - (o9)]);
    }
    assert forall|k: int| o10 <= k < o10 + 2 implies line[k] == seg_tail()[k - (o10)] by {
        assert(line[k] == seg_tail()[k - (o10)]);
    }
    assert(line.subrange(0, 7) =~= seg_head());
    assert(spec_match(line, 0, seg_head()));
    assert(line.subrange(o1, o2) =~= m1);
    lemma_parse_milli_encode(line, o1, r.wpm_milli as nat);
    assert(line.subrange(o2, o3) =~= seg_accuracy());
    assert(spec_match(line, o2, seg_accuracy()));
    assert(line.subrange(o3, o4) =~= m2);
    lemma_parse_milli_encode(line, o3, r.accuracy_milli as nat);
    assert(line.subrange(o4, o5) =~= seg_duration());
    assert(spec_match(line, o4, seg_duration()));
    assert(line.subrange(o5, o6) =~= m3);
    lemma_parse_milli_encode(line, o5, r.duration_milli as nat);
    assert(line.subrange(o6, o7) =~= seg_awpm());
    assert(spec_match(line, o6, seg_awpm()));
    assert(line.subrange(o7, o8) =~= m4);
    lemma_parse_milli_encode(line, o7, r.awpm_milli as nat);
    assert(line.subrange(o8, o9) =~= seg_datetime());
    assert(spec_match(line, o8, seg_datetime()));
    assert(line.subrange(o9, o10) =~= dtc);
    lemma_parse_datetime_encode(line, o9, r.date_time);
    assert(line.subrange(o10, o10 + 2) =~= seg_tail());
    assert(spec_match(line, o10, seg_tail()));
}

/// The printed timestamp has exactly the twenty-five characters of its
/// fixed layout.
pub proof fn lemma_fixed_digits_lens(dt: DateTime)
    requires
        dt.wf(),
    ensures
        spec_datetime_chars(dt).len() == 25,
{
    assert(pow10(0) == 1);
    assert(pow10(1) == 10);
    assert(pow10(2) == 100);
    assert(pow10(3) == 1000);
    assert(pow10(4) == 10000);
    let abs = spec_offset_abs(dt);
    assert(abs / 60 <= 23) by (nonlinear_arith)
        requires
            abs < 1440,
    ;
    lemma_fixed_digits(dt.year as nat, 4);
    lemma_fixed_digits(dt.month as nat, 2);
    lemma_fixed_digits(dt.day as nat, 2);
    lemma_fixed_digits(dt.hour as nat, 2);
    lemma_fixed_digits(dt.minute as nat, 2);
    lemma_fixed_digits(dt.second as nat, 2);
    lemma_fixed_digits(abs / 60, 2);
    lemma_fixed_digits(abs % 60, 2);
}



/// A printed timestamp holds no line break.
pub proof fn lemma_datetime_no_newline(dt: DateTime)
    ensures
        crate::codec::no_newline(spec_datetime_chars(dt)),
{
    let abs = spec_offset_abs(dt);
    let y = spec_fixed_digits(dt.year as nat, 4);
    let mo = spec_fixed_digits(dt.month as nat, 2);
    let d = spec_fixed_digits(dt.day as nat, 2);
    let h = spec_fixed_digits(dt.hour as nat, 2);
    let mi = spec_fixed_digits(dt.minute as nat, 2);
    let sec = spec_fixed_digits(dt.second as nat, 2);
    let ohd = spec_fixed_digits(abs / 60, 2);
    let omd = spec_fixed_digits(abs % 60, 2);
    crate::codec::lemma_fixed_all_digits(dt.year as nat, 4);
    crate::codec::lemma_fixed_all_digits(dt.month as nat, 2);
    crate::codec::lemma_fixed_all_digits(dt.day as nat, 2);
    crate::codec::lemma_fixed_all_digits(dt.hour as nat, 2);
    crate::codec::lemma_fixed_all_digits(dt.minute as nat, 2);
    crate::codec::lemma_fixed_all_digits(dt.second as nat, 2);
    crate::codec::lemma_fixed_all_digits(abs / 60, 2);
    crate::codec::lemma_fixed_all_digits(abs % 60, 2);
    crate::codec::lemma_digit_not_newline(y);
    crate::codec::lemma_digit_not_newline(mo);
    crate::codec::lemma_digit_not_newline(d);
    crate::codec::lemma_digit_not_newline(h);
    crate::codec::lemma_digit_not_newline(mi);
    crate::codec::lemma_digit_not_newline(sec);
    crate::codec::lemma_digit_not_newline(ohd);
    crate::codec::lemma_digit_not_newline(omd);
    assert(crate::codec::no_newline(seq!['-'])) by {
        assert(seq!['-'][0] == '-');
    }
    assert(crate::codec::no_newline(seq!['T'])) by {
        assert(seq!['T'][0] == 'T');
    }
    assert(crate::codec::no_newline(seq![':'])) by {
        assert(seq![':'][0] == ':');
    }
    assert(crate::codec::no_newline(seq![spec_offset_sign(dt)])) by {
        assert(seq![spec_offset_sign(dt)][0] == spec_offset_sign(dt));
    }
    crate::codec::lemma_concat_no_newline(y, seq!['-']);
    crate::codec::lemma_concat_no_newline(y + seq!['-'], mo);
    crate::codec::lemma_concat_no_newline(y + seq!['-'] + mo, seq!['-']);
    crate::codec::lemma_concat_no_newline(y + seq!['-'] + mo + seq!['-'], d);
    crate::codec::lemma_concat_no_newline(y + seq!['-'] + mo + seq!['-'] + d, seq!['T']);
    crate::codec::lemma_concat_no_newline(y + seq!['-'] + mo + seq!['-'] + d + seq!['T'], h);
    crate::codec::lemma_concat_no_newline(
        y + seq!['-'] + mo + seq!['-'] + d + seq!['T'] + h,
        seq![':'],
    );
    crate::codec::lemma_concat_no_newline(
        y + seq!['-'] + mo + seq!['-'] + d + seq!['T'] + h + seq![':'],
        mi,
    );
    crate::codec::lemma_concat_no_newline(
        y + seq!['-'] + mo + seq!['-'] + d + seq!['T'] + h + seq![':'] + mi,
        seq![':'],
    );
    crate::codec::lemma_concat_no_newline(
        y + seq!['-'] + mo + seq!['-'] + d + seq!['T'] + h + seq![':'] + mi + seq![':'],
        sec,
    );
    crate::codec::lemma_concat_no_newline(
        y + seq!['-'] + mo + seq!['-'] + d + seq!['T'] + h + seq![':'] + mi + seq![':'] + sec,
        seq![spec_offset_sign(dt)],
    );
    crate::codec::lemma_concat_no_newline(
        y + seq!['-'] + mo + seq!['-'] + d + seq!['T'] + h + seq![':'] + mi + seq![':'] + sec
            + seq![spec_offset_sign(dt)],
        ohd,
    );
    crate::codec::lemma_concat_no_newline(
        y + seq!['-'] + mo + seq!['-'] + d + seq!['T'] + h + seq![':'] + mi + seq![':'] + sec
            + seq![spec_offset_sign(dt)] + ohd,
        seq![':'],
    );
    crate::codec::lemma_concat_no_newline(
        y + seq!['-'] + mo + seq!['-'] + d + seq!['T'] + h + seq![':'] + mi + seq![':'] + sec
            + seq![spec_offset_sign(dt)] + ohd + seq![':'],
        omd,
    );
}

/// A printed record line holds no line break.
pub proof fn lemma_record_line_no_newline(r: WpmResult)
    ensures
        crate::codec::no_newline(spec_record_line(r)),
{
    reveal_strlit("{\"wpm\":");
    reveal_strlit(",\"accuracy\":");
    reveal_strlit(",\"duration\":");
    reveal_strlit(",\"awpm\":");
    reveal_strlit(",\"date_time\":\"");
    reveal_strlit("\"}");
    let m1 = spec_milli_chars(r.wpm_milli as nat);
    let m2 = spec_milli_chars(r.accuracy_milli as nat);
    let m3 = spec_milli_chars(r.duration_milli as nat);
    let m4 = spec_milli_chars(r.awpm_milli as nat);
    let dtc = spec_datetime_chars(r.date_time);
    crate::codec::lemma_milli_no_newline(r.wpm_milli as nat);
    crate::codec::lemma_milli_no_newline(r.accuracy_milli as nat);
    crate::codec::lemma_milli_no_newline(r.duration_milli as nat);
    crate::codec::lemma_milli_no_newline(r.awpm_milli as nat);
    lemma_datetime_no_newline(r.date_time);
    assert(crate::codec::no_newline(seg_head()));
    assert(crate::codec::no_newline(seg_accuracy()));
    assert(crate::codec::no_newline(seg_duration()));
    assert(crate::codec::no_newline(seg_awpm()));
    assert(crate::codec::no_newline(seg_datetime()));
    assert(crate::codec::no_newline(seg_tail()));
    crate::codec::lemma_concat_no_newline(seg_head(), m1);
    crate::codec::lemma_concat_no_newline(seg_head() + m1, seg_accuracy());
    crate::codec::lemma_concat_no_newline(seg_head() + m1 + seg_accuracy(), m2);
    crate::codec::lemma_concat_no_newline(seg_head() + m1 + seg_accuracy() + m2, seg_duration());
    crate::codec::lemma_concat_no_newline(
        seg_head() + m1 + seg_accuracy() + m2 + seg_duration(),
        m3,
    );
    crate::codec::lemma_concat_no_newline(
        seg_head() + m1 + seg_accuracy() + m2 + seg_duration() + m3,
        seg_awpm(),
    );
    crate::codec::lemma_concat_no_newline(
        seg_head() + m1 + seg_accuracy() + m2 + seg_duration() + m3 + seg_awpm(),
        m4,
    );
    crate::codec::lemma_concat_no_newline(
        seg_head() + m1 + seg_accuracy() + m2 + seg_duration() + m3 + seg_awpm() + m4,
        seg_datetime(),
    );
    crate::codec::lemma_concat_no_newline(
        seg_head() + m1 + seg_accuracy() + m2 + seg_duration() + m3 + seg_awpm() + m4
            + seg_datetime(),
        dtc,
    );
    crate::codec::lemma_concat_no_newline(
        seg_head() + m1 + seg_accuracy() + m2 + seg_duration() + m3 + seg_awpm() + m4
            + seg_datetime() + dtc,
        seg_tail(),
    );
}

/// A printed record line is never blank.
pub proof fn lemma_record_line_nonempty(r: WpmResult)
    ensures
        spec_record_line(r).len() > 0,
{
    reveal_strlit("{\"wpm\":");
    assert(seg_head().len() == 7);
}


} // verus!
