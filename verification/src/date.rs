//! Aggregation of dates and times: the earliest and latest seen, how many,
//! and the rate at which they come. Texts are read and shown by the `time`
//! crate; the rest is computed here on plain values.
use vstd::prelude::*;
use crate::error::LogriaError;
use crate::text::{push_str, push_with_commas, with_commas};

verus! {

#[verifier::external_type_specification]
#[verifier::external_body]
pub struct ExOwnedFormatItem(time::format_description::OwnedFormatItem);

/// The Julian day of the earliest date the `time` crate can hold, -9999-01-01.
pub const MIN_JULIAN_DAY: i32 = -1930999;

/// The Julian day of the latest date the `time` crate can hold, 9999-12-31.
pub const MAX_JULIAN_DAY: i32 = 5373484;

/// Nanoseconds in a second, a minute, an hour, a day and a week.
pub const NANOS_PER_SECOND: i128 = 1_000_000_000;
pub const NANOS_PER_MINUTE: i128 = 60_000_000_000;
pub const NANOS_PER_HOUR: i128 = 3_600_000_000_000;
pub const NANOS_PER_DAY: i128 = 86_400_000_000_000;
pub const NANOS_PER_WEEK: i128 = 604_800_000_000_000;

/// Whether `format` is a format description the `time` crate reads
/// (`format_description::parse_owned::<2>`).
pub uninterp spec fn date_format_valid(format: Seq<char>) -> bool;

/// What `time::Date::parse` gives for `message` in `format`: the Julian day
/// of the date, or the error's text.
pub uninterp spec fn date_parse(format: Seq<char>, message: Seq<char>) -> Result<i32, Seq<char>>;

/// What `time::Time::parse` gives for `message` in `format`: hour, minute,
/// second and nanosecond, or the error's text.
pub uninterp spec fn time_parse(format: Seq<char>, message: Seq<char>) -> Result<(u8, u8, u8, u32), Seq<char>>;

/// What `time::PrimitiveDateTime::parse` gives for `message` in `format`:
/// the Julian day, hour, minute, second and nanosecond, or the error's text.
pub uninterp spec fn datetime_parse(format: Seq<char>, message: Seq<char>) -> Result<(i32, u8, u8, u8, u32), Seq<char>>;

/// How `time::Date` shows the date of a Julian day.
pub uninterp spec fn date_display(julian_day: i32) -> Seq<char>;

/// How `time::Time` shows a time of day.
pub uninterp spec fn time_display(hour: u8, minute: u8, second: u8, nanosecond: u32) -> Seq<char>;

/// How `time::PrimitiveDateTime` shows a date and time of day.
pub uninterp spec fn datetime_display(julian_day: i32, hour: u8, minute: u8, second: u8, nanosecond: u32) -> Seq<char>;

/// Which part of a timestamp a message holds.
#[derive(Debug, Clone, Copy, PartialEq, Eq, Structural)]
pub enum DateParserType {
    Date,
    Time,
    DateTime,
}

/// A date and time of day: the Julian day of the date, then the clock.
#[derive(Debug, Clone, Copy, PartialEq, Eq, Structural)]
pub struct Stamp {
    pub julian_day: i32,
    pub hour: u8,
    pub minute: u8,
    pub second: u8,
    pub nanosecond: u32,
}

/// The stamp as nanoseconds from Julian day zero.
pub open spec fn stamp_nanos(s: Stamp) -> int {
    s.julian_day * NANOS_PER_DAY + s.hour * NANOS_PER_HOUR + s.minute * NANOS_PER_MINUTE + s.second * NANOS_PER_SECOND
        + s.nanosecond
}

/// The order of `time::PrimitiveDateTime`: by date, then by hour, minute,
/// second and nanosecond.
pub open spec fn stamp_key(s: Stamp) -> (int, int, int, int, int) {
    (s.julian_day as int, s.hour as int, s.minute as int, s.second as int, s.nanosecond as int)
}

/// Whether `a` comes before `b`.
pub open spec fn stamp_before(a: Stamp, b: Stamp) -> bool {
    let (a0, a1, a2, a3, a4) = stamp_key(a);
    let (b0, b1, b2, b3, b4) = stamp_key(b);
    a0 < b0 || (a0 == b0 && (a1 < b1 || (a1 == b1 && (a2 < b2 || (a2 == b2 && (a3 < b3 || (a3 == b3 && a4 < b4)))))))
}

/// The earlier of two stamps (`min`).
pub open spec fn stamp_min(a: Stamp, b: Stamp) -> Stamp {
    if stamp_before(b, a) { b } else { a }
}

/// The later of two stamps (`max`).
pub open spec fn stamp_max(a: Stamp, b: Stamp) -> Stamp {
    if stamp_before(b, a) { a } else { b }
}

/// Integer division rounded toward zero, as `i64` division does.
pub open spec fn div_toward_zero(a: int, b: int) -> int {
    if b == 0 {
        0
    } else if (a >= 0) == (b > 0) {
        if a >= 0 { a / b } else { (-a) / (-b) }
    } else {
        if a >= 0 { -(a / (-b)) } else { -((-a) / b) }
    }
}

/// Whole units of `unit` nanoseconds from `from` to `to` (`Duration::whole_*`).
pub open spec fn whole_units(from: Stamp, to: Stamp, unit: int) -> int {
    div_toward_zero(stamp_nanos(to) - stamp_nanos(from), unit)
}

/// The finest unit among week, day, hour, minute and second in which fewer
/// whole units than `count` passed from `from` to `to`, or weeks, with that
/// number of units.
pub open spec fn rate_unit(from: Stamp, to: Stamp, count: int) -> (int, Seq<char>) {
    let w = (whole_units(from, to, NANOS_PER_WEEK as int), "week"@);
    let d = if whole_units(from, to, NANOS_PER_DAY as int) < count { (whole_units(from, to, NANOS_PER_DAY as int), "day"@) } else { w };
    let h = if whole_units(from, to, NANOS_PER_HOUR as int) < count { (whole_units(from, to, NANOS_PER_HOUR as int), "hour"@) } else { d };
    let m = if whole_units(from, to, NANOS_PER_MINUTE as int) < count { (whole_units(from, to, NANOS_PER_MINUTE as int), "minute"@) } else { h };
    if whole_units(from, to, NANOS_PER_SECOND as int) < count { (whole_units(from, to, NANOS_PER_SECOND as int), "second"@) } else { m }
}

/// Entries per unit: the count over the number of units (the count when
/// there are none), at least one.
pub open spec fn rate_of(from: Stamp, to: Stamp, count: int) -> (int, Seq<char>) {
    let (units, name) = rate_unit(from, to, count);
    let q = if units == 0 { count } else { div_toward_zero(count, units) };
    (if q >= 1 { q } else { 1 }, "per "@ + name)
}

/// The stamps an aggregator starts from, before anything is seen: the
/// earliest at the latest possible value and the latest at the earliest, so
/// that the first stamp replaces both.
pub open spec fn initial_stamps(t: DateParserType) -> (Stamp, Stamp) {
    let midnight_min = Stamp { julian_day: MIN_JULIAN_DAY, hour: 0, minute: 0, second: 0, nanosecond: 0 };
    match t {
        DateParserType::Time => (Stamp { julian_day: MIN_JULIAN_DAY, hour: 23, minute: 59, second: 59, nanosecond: 0 }, midnight_min),
        _ => (Stamp { julian_day: MAX_JULIAN_DAY, hour: 0, minute: 0, second: 0, nanosecond: 0 }, midnight_min),
    }
}

/// What a message gives: the stamp it holds, or the error's text.
pub open spec fn stamp_of(t: DateParserType, format: Seq<char>, message: Seq<char>) -> Result<Stamp, Seq<char>> {
    match t {
        DateParserType::Date => match date_parse(format, message) {
            Ok(jd) => Ok(Stamp { julian_day: jd, hour: 0, minute: 0, second: 0, nanosecond: 0 }),
            Err(e) => Err(e),
        },
        DateParserType::Time => match time_parse(format, message) {
            Ok((h, m, s, n)) => Ok(Stamp { julian_day: MIN_JULIAN_DAY, hour: h, minute: m, second: s, nanosecond: n }),
            Err(e) => Err(e),
        },
        DateParserType::DateTime => match datetime_parse(format, message) {
            Ok((jd, h, m, s, n)) => Ok(Stamp { julian_day: jd, hour: h, minute: m, second: s, nanosecond: n }),
            Err(e) => Err(e),
        },
    }
}

/// How a stamp is shown for a kind of aggregator.
pub open spec fn stamp_display(t: DateParserType, s: Stamp) -> Seq<char> {
    match t {
        DateParserType::Date => date_display(s.julian_day),
        DateParserType::Time => time_display(s.hour, s.minute, s.second, s.nanosecond),
        DateParserType::DateTime => datetime_display(s.julian_day, s.hour, s.minute, s.second, s.nanosecond),
    }
}

/// Whether `s` lies between `lo` and `hi`, ends included.
pub open spec fn stamp_within(s: Stamp, lo: Stamp, hi: Stamp) -> bool {
    !stamp_before(s, lo) && !stamp_before(hi, s)
}

/// Taking a stamp brackets it, and keeps bracketed whatever the ends
/// bracketed before: every stamp an aggregator took lies between its
/// earliest and its latest.
pub proof fn law_ends_bracket_every_stamp(earliest: Stamp, latest: Stamp, s: Stamp, t: Stamp)
    ensures
        stamp_within(s, stamp_min(s, earliest), stamp_max(s, latest)),
        stamp_within(t, earliest, latest) ==> stamp_within(t, stamp_min(s, earliest), stamp_max(s, latest)),
{
}

/// A stamp whose clock is a real time of day.
pub open spec fn stamp_valid(s: Stamp) -> bool {
    s.hour < 24 && s.minute < 60 && s.second < 60 && s.nanosecond < NANOS_PER_SECOND
}

proof fn lemma_lex(x: int, y: int, u: int, v: int, unit: int)
    requires
        0 <= u < unit,
        0 <= v < unit,
    ensures
        (x * unit + u < y * unit + v) <==> (x < y || (x == y && u < v)),
        (x * unit + u == y * unit + v) <==> (x == y && u == v),
{
    if x < y {
        assert(x * unit + u < y * unit + v) by (nonlinear_arith)
            requires
                x < y,
                0 <= u < unit,
                0 <= v,
        ;
    } else if x > y {
        assert(y * unit + v < x * unit + u) by (nonlinear_arith)
            requires
                y < x,
                0 <= v < unit,
                0 <= u,
        ;
    }
}

proof fn lemma_below(d: int, unit: int, r: int, top: int)
    requires
        0 <= d < top,
        0 <= r < unit,
    ensures
        0 <= d * unit + r < top * unit,
{
    assert(0 <= d * unit + r < top * unit) by (nonlinear_arith)
        requires
            0 <= d < top,
            0 <= r < unit,
    ;
}

/// The order that keeps the earliest and latest stamps is chronological:
/// one valid stamp comes before another exactly when it lies fewer
/// nanoseconds from day zero, and two valid stamps are the same instant only
/// when they are equal. So the earlier of two stamps is the one with fewer
/// nanoseconds, and the later the one with more.
pub proof fn law_stamp_order_is_chronological(a: Stamp, b: Stamp)
    requires
        stamp_valid(a),
        stamp_valid(b),
    ensures
        stamp_before(a, b) <==> stamp_nanos(a) < stamp_nanos(b),
        stamp_nanos(a) == stamp_nanos(b) <==> a == b,
        stamp_nanos(stamp_min(a, b)) <= stamp_nanos(a),
        stamp_nanos(stamp_min(a, b)) <= stamp_nanos(b),
        stamp_min(a, b) == a || stamp_min(a, b) == b,
        stamp_nanos(stamp_max(a, b)) >= stamp_nanos(a),
        stamp_nanos(stamp_max(a, b)) >= stamp_nanos(b),
        stamp_max(a, b) == a || stamp_max(a, b) == b,
{
    let s_unit = NANOS_PER_SECOND as int;
    let m_unit = NANOS_PER_MINUTE as int;
    let h_unit = NANOS_PER_HOUR as int;
    let d_unit = NANOS_PER_DAY as int;
    let a3 = a.second * s_unit + a.nanosecond;
    let b3 = b.second * s_unit + b.nanosecond;
    lemma_below(a.second as int, s_unit, a.nanosecond as int, 60);
    lemma_below(b.second as int, s_unit, b.nanosecond as int, 60);
    lemma_lex(a.second as int, b.second as int, a.nanosecond as int, b.nanosecond as int, s_unit);
    let a2 = a.minute * m_unit + a3;
    let b2 = b.minute * m_unit + b3;
    lemma_below(a.minute as int, m_unit, a3, 60);
    lemma_below(b.minute as int, m_unit, b3, 60);
    lemma_lex(a.minute as int, b.minute as int, a3, b3, m_unit);
    let a1 = a.hour * h_unit + a2;
    let b1 = b.hour * h_unit + b2;
    lemma_below(a.hour as int, h_unit, a2, 24);
    lemma_below(b.hour as int, h_unit, b2, 24);
    lemma_lex(a.hour as int, b.hour as int, a2, b2, h_unit);
    lemma_lex(a.julian_day as int, b.julian_day as int, a1, b1, d_unit);
    assert(stamp_nanos(a) == a.julian_day * d_unit + a1);
    assert(stamp_nanos(b) == b.julian_day * d_unit + b1);
}

/// A format description as written, with its compiled form.
pub struct DateFormat {
    source: String,
    compiled: time::format_description::OwnedFormatItem,
}

impl View for DateFormat {
    type V = Seq<char>;

    closed spec fn view(&self) -> Seq<char> {
        self.source@
    }
}

/// Compiles `format` with `time::format_description::parse_owned::<2>`.
#[verifier::external_body]
fn compile_format(format: &str) -> (r: Option<time::format_description::OwnedFormatItem>)
    ensures
        r is Some <==> date_format_valid(format@),
{
    time::format_description::parse_owned::<2>(format).ok()
}

/// `time::Date::parse` of `message` with `format`, the date as its Julian day.
#[verifier::external_body]
fn parse_date(format: &DateFormat, message: &str) -> (r: Result<i32, String>)
    ensures
        match (r, date_parse(format@, message@)) {
            (Ok(a), Ok(b)) => a == b,
            (Err(a), Err(b)) => a@ == b,
            _ => false,
        },
{
    match time::Date::parse(message, &format.compiled) {
        Ok(date) => Ok(date.to_julian_day()),
        Err(why) => Err(why.to_string()),
    }
}

/// `time::Time::parse` of `message` with `format`, as hour, minute, second
/// and nanosecond.
#[verifier::external_body]
fn parse_time(format: &DateFormat, message: &str) -> (r: Result<(u8, u8, u8, u32), String>)
    ensures
        match (r, time_parse(format@, message@)) {
            (Ok(a), Ok(b)) => a == b,
            (Err(a), Err(b)) => a@ == b,
            _ => false,
        },
{
    match time::Time::parse(message, &format.compiled) {
        Ok(time) => Ok(time.as_hms_nano()),
        Err(why) => Err(why.to_string()),
    }
}

/// `time::PrimitiveDateTime::parse` of `message` with `format`, as Julian
/// day, hour, minute, second and nanosecond.
#[verifier::external_body]
fn parse_datetime(format: &DateFormat, message: &str) -> (r: Result<(i32, u8, u8, u8, u32), String>)
    ensures
        match (r, datetime_parse(format@, message@)) {
            (Ok(a), Ok(b)) => a == b,
            (Err(a), Err(b)) => a@ == b,
            _ => false,
        },
{
    match time::PrimitiveDateTime::parse(message, &format.compiled) {
        Ok(dt) => {
            let (h, m, s, n) = dt.time().as_hms_nano();
            Ok((dt.date().to_julian_day(), h, m, s, n))
        },
        Err(why) => Err(why.to_string()),
    }
}

/// `Display` of the `time::Date` with this Julian day (of the range error,
/// for a day out of the crate's range).
#[verifier::external_body]
fn show_date(julian_day: i32) -> (r: String)
    ensures
        r@ == date_display(julian_day),
{
    match time::Date::from_julian_day(julian_day) {
        Ok(date) => date.to_string(),
        Err(why) => why.to_string(),
    }
}

/// `Display` of the `time::Time` with these fields (of the range error,
/// for fields out of range).
#[verifier::external_body]
fn show_time(hour: u8, minute: u8, second: u8, nanosecond: u32) -> (r: String)
    ensures
        r@ == time_display(hour, minute, second, nanosecond),
{
    match time::Time::from_hms_nano(hour, minute, second, nanosecond) {
        Ok(time) => time.to_string(),
        Err(why) => why.to_string(),
    }
}

/// `Display` of the `time::PrimitiveDateTime` with these fields (of the
/// range error, for fields out of range).
#[verifier::external_body]
fn show_datetime(julian_day: i32, hour: u8, minute: u8, second: u8, nanosecond: u32) -> (r: String)
    ensures
        r@ == datetime_display(julian_day, hour, minute, second, nanosecond),
{
    match (time::Date::from_julian_day(julian_day), time::Time::from_hms_nano(hour, minute, second, nanosecond)) {
        (Ok(date), Ok(time)) => time::PrimitiveDateTime::new(date, time).to_string(),
        (Err(why), _) => why.to_string(),
        (_, Err(why)) => why.to_string(),
    }
}

/// The state of a date aggregator.
pub struct DateView {
    /// The format, when it is one the `time` crate reads.
    pub format: Option<Seq<char>>,
    pub earliest: Stamp,
    pub latest: Stamp,
    pub count: i64,
    pub parser_type: DateParserType,
}

/// Tracks the earliest and latest timestamps seen and how many there were.
pub struct Date {
    /// The format, when it is one the `time` crate reads.
    pub format: Option<DateFormat>,
    /// The earliest stamp seen.
    pub earliest: Stamp,
    /// The latest stamp seen.
    pub latest: Stamp,
    /// How many stamps were seen.
    pub count: i64,
    /// Which part of a timestamp the messages hold.
    pub parser_type: DateParserType,
}

impl View for Date {
    type V = DateView;

    open spec fn view(&self) -> DateView {
        DateView {
            format: match &self.format {
                Some(f) => Some(f@),
                None => None,
            },
            earliest: self.earliest,
            latest: self.latest,
            count: self.count,
            parser_type: self.parser_type,
        }
    }
}

/// `a` is before `b` (see `stamp_before`).
fn before(a: Stamp, b: Stamp) -> (r: bool)
    ensures
        r == stamp_before(a, b),
        stamp_valid(a) && stamp_valid(b) ==> r == (stamp_nanos(a) < stamp_nanos(b)),
{
    proof {
        if stamp_valid(a) && stamp_valid(b) {
            law_stamp_order_is_chronological(a, b);
        }
    }
    if a.julian_day != b.julian_day {
        a.julian_day < b.julian_day
    } else if a.hour != b.hour {
        a.hour < b.hour
    } else if a.minute != b.minute {
        a.minute < b.minute
    } else if a.second != b.second {
        a.second < b.second
    } else {
        a.nanosecond < b.nanosecond
    }
}

/// The stamp in nanoseconds (see `stamp_nanos`).
fn nanos_of(s: Stamp) -> (r: i128)
    ensures
        r == stamp_nanos(s),
        -0x1_0000_0000_0000_0000_0000 < r < 0x1_0000_0000_0000_0000_0000,
{
    assert(-2147483648 * NANOS_PER_DAY <= s.julian_day * NANOS_PER_DAY <= 2147483647 * NANOS_PER_DAY) by (nonlinear_arith)
        requires
            -2147483648 <= s.julian_day <= 2147483647,
    ;
    assert(s.hour * NANOS_PER_HOUR <= 255 * NANOS_PER_HOUR) by (nonlinear_arith)
        requires
            s.hour <= 255,
    ;
    assert(s.minute * NANOS_PER_MINUTE <= 255 * NANOS_PER_MINUTE) by (nonlinear_arith)
        requires
            s.minute <= 255,
    ;
    assert(s.second * NANOS_PER_SECOND <= 255 * NANOS_PER_SECOND) by (nonlinear_arith)
        requires
            s.second <= 255,
    ;
    (s.julian_day as i128) * NANOS_PER_DAY + (s.hour as i128) * NANOS_PER_HOUR + (s.minute as i128) * NANOS_PER_MINUTE
        + (s.second as i128) * NANOS_PER_SECOND + (s.nanosecond as i128)
}

/// `a / b` rounded toward zero, for `b` positive.
fn div_by_positive(a: i128, b: i128) -> (r: i128)
    requires
        b > 0,
        a > i128::MIN,
    ensures
        r == div_toward_zero(a as int, b as int),
        a >= 0 ==> 0 <= r <= a,
        a < 0 ==> a <= r <= 0,
{
    if a >= 0 {
        assert(a / b <= a) by (nonlinear_arith)
            requires
                a >= 0,
                b > 0,
        ;
        a / b
    } else {
        let q = (-a) / b;
        assert(q <= -a) by (nonlinear_arith)
            requires
                q as int == (-a) as int / b as int,
                b > 0,
                -a > 0,
        ;
        -q
    }
}

/// `a / b` rounded toward zero, or `None` when `b` is zero (`i64::checked_div`
/// on a count, which is never negative).
fn checked_div_count(a: i64, b: i128) -> (r: Option<i128>)
    requires
        a >= 0,
        b > i128::MIN,
    ensures
        b == 0 <==> r is None,
        r matches Some(q) ==> q == div_toward_zero(a as int, b as int) && -a <= q <= a,
{
    if b == 0 {
        None
    } else if b > 0 {
        assert((a as i128) / b <= a) by (nonlinear_arith)
            requires
                a >= 0,
                b > 0,
        ;
        Some((a as i128) / b)
    } else {
        let q = (a as i128) / (-b);
        assert(0 <= q <= a) by (nonlinear_arith)
            requires
                q as int == a as int / (-b) as int,
                -b > 0,
                a >= 0,
        ;
        Some(-q)
    }
}

impl Date {
    /// The count is never negative.
    pub open spec fn wf(&self) -> bool {
        self@.count >= 0
    }

    /// An aggregator for `format`, which reads the given part of a timestamp.
    pub fn new(format: &str, parser_type: DateParserType) -> (r: Date)
        ensures
            r.wf(),
            r@.format == (if date_format_valid(format@) { Some(format@) } else { None }),
            (r@.earliest, r@.latest) == initial_stamps(parser_type),
            r@.count == 0,
            r@.parser_type == parser_type,
    {
        let (earliest, latest) = Self::starting_stamps(parser_type);
        let compiled = match compile_format(format) {
            Some(c) => Some(DateFormat { source: format.to_owned(), compiled: c }),
            None => None,
        };
        Date { format: compiled, earliest, latest, count: 0, parser_type }
    }

    fn starting_stamps(parser_type: DateParserType) -> (r: (Stamp, Stamp))
        ensures
            r == initial_stamps(parser_type),
    {
        let midnight_min = Stamp { julian_day: MIN_JULIAN_DAY, hour: 0, minute: 0, second: 0, nanosecond: 0 };
        match parser_type {
            DateParserType::Time => (Stamp { julian_day: MIN_JULIAN_DAY, hour: 23, minute: 59, second: 59, nanosecond: 0 }, midnight_min),
            _ => (Stamp { julian_day: MAX_JULIAN_DAY, hour: 0, minute: 0, second: 0, nanosecond: 0 }, midnight_min),
        }
    }

    /// Forget what was seen; the format and the kind stay.
    pub fn reset(&mut self)
        ensures
            final(self).wf(),
            final(self)@.format == old(self)@.format,
            final(self)@.parser_type == old(self)@.parser_type,
            (final(self)@.earliest, final(self)@.latest) == initial_stamps(old(self)@.parser_type),
            final(self)@.count == 0,
    {
        let (earliest, latest) = Self::starting_stamps(self.parser_type);
        self.count = 0;
        self.earliest = earliest;
        self.latest = latest;
    }

    /// Take a stamp: it may move either end, and is counted.
    fn upsert(&mut self, new_date: Stamp)
        requires
            old(self).wf(),
            old(self)@.count < i64::MAX,
        ensures
            final(self).wf(),
            final(self)@ == (DateView {
                earliest: stamp_min(new_date, old(self)@.earliest),
                latest: stamp_max(new_date, old(self)@.latest),
                count: (old(self)@.count + 1) as i64,
                ..old(self)@
            }),
            stamp_valid(new_date) && stamp_valid(old(self)@.earliest) ==> stamp_nanos(final(self)@.earliest) == (if stamp_nanos(new_date)
                < stamp_nanos(old(self)@.earliest) { stamp_nanos(new_date) } else { stamp_nanos(old(self)@.earliest) }),
            stamp_valid(new_date) && stamp_valid(old(self)@.latest) ==> stamp_nanos(final(self)@.latest) == (if stamp_nanos(new_date)
                > stamp_nanos(old(self)@.latest) { stamp_nanos(new_date) } else { stamp_nanos(old(self)@.latest) }),
    {
        proof {
            if stamp_valid(new_date) && stamp_valid(self.earliest) {
                law_stamp_order_is_chronological(new_date, self.earliest);
            }
            if stamp_valid(new_date) && stamp_valid(self.latest) {
                law_stamp_order_is_chronological(new_date, self.latest);
            }
        }
        if before(self.earliest, new_date) {
        } else {
            self.earliest = new_date;
        }
        if before(new_date, self.latest) {
        } else {
            self.latest = new_date;
        }
        self.count = self.count + 1;
    }

    /// Read the timestamp in `message` and take it; the reason it cannot be
    /// read otherwise.
    pub fn update(&mut self, message: &str) -> (r: Result<(), LogriaError>)
        requires
            old(self).wf(),
            old(self)@.count < i64::MAX,
        ensures
            final(self).wf(),
            match old(self)@.format {
                None => {
                    &&& r matches Err(e) && e@ == crate::error::ErrorView::CannotParseDate("No date format string specified!"@)
                    &&& final(self)@ == old(self)@
                },
                Some(f) => match stamp_of(old(self)@.parser_type, f, message@) {
                    Ok(s) => {
                        &&& r is Ok
                        &&& final(self)@ == (DateView {
                            earliest: stamp_min(s, old(self)@.earliest),
                            latest: stamp_max(s, old(self)@.latest),
                            count: (old(self)@.count + 1) as i64,
                            ..old(self)@
                        })
                    },
                    Err(why) => {
                        &&& r matches Err(e) && e@ == crate::error::ErrorView::CannotParseDate(why)
                        &&& final(self)@ == old(self)@
                    },
                },
            },
    {
        let read: Result<Stamp, String> = match &self.format {
            None => {
                return Err(LogriaError::CannotParseDate("No date format string specified!".to_owned()));
            },
            Some(format) => match self.parser_type {
                DateParserType::Date => match parse_date(format, message) {
                    Ok(jd) => Ok(Stamp { julian_day: jd, hour: 0, minute: 0, second: 0, nanosecond: 0 }),
                    Err(why) => Err(why),
                },
                DateParserType::Time => match parse_time(format, message) {
                    Ok((h, m, s, n)) => Ok(Stamp { julian_day: MIN_JULIAN_DAY, hour: h, minute: m, second: s, nanosecond: n }),
                    Err(why) => Err(why),
                },
                DateParserType::DateTime => match parse_datetime(format, message) {
                    Ok((jd, h, m, s, n)) => Ok(Stamp { julian_day: jd, hour: h, minute: m, second: s, nanosecond: n }),
                    Err(why) => Err(why),
                },
            },
        };
        match read {
            Ok(stamp) => {
                self.upsert(stamp);
                Ok(())
            },
            Err(why) => Err(LogriaError::CannotParseDate(why)),
        }
    }

    /// Entries per unit of time between the earliest and latest stamps, with
    /// the unit's name (see `rate_of`).
    pub fn determine_rate(&self) -> (r: (i64, String))
        requires
            self.wf(),
        ensures
            r.0 == rate_of(self@.earliest, self@.latest, self@.count as int).0,
            r.1@ == rate_of(self@.earliest, self@.latest, self@.count as int).1,
    {
        let difference = nanos_of(self.latest) - nanos_of(self.earliest);
        let count = self.count;
        let mut denominator = div_by_positive(difference, NANOS_PER_WEEK);
        let mut unit = "week";
        let days = div_by_positive(difference, NANOS_PER_DAY);
        if days < count as i128 {
            denominator = days;
            unit = "day";
        }
        let hours = div_by_positive(difference, NANOS_PER_HOUR);
        if hours < count as i128 {
            denominator = hours;
            unit = "hour";
        }
        let minutes = div_by_positive(difference, NANOS_PER_MINUTE);
        if minutes < count as i128 {
            denominator = minutes;
            unit = "minute";
        }
        let seconds = div_by_positive(difference, NANOS_PER_SECOND);
        if seconds < count as i128 {
            denominator = seconds;
            unit = "second";
        }
        proof {
            reveal_strlit("week");
            reveal_strlit("day");
            reveal_strlit("hour");
            reveal_strlit("minute");
            reveal_strlit("second");
        }
        let q = match checked_div_count(count, denominator) {
            Some(q) => q,
            None => count as i128,
        };
        let rate: i64 = if q >= 1 {
            q as i64
        } else {
            1
        };
        let mut per_unit = "per ".to_owned();
        push_str(&mut per_unit, unit);
        (rate, per_unit)
    }

    /// The lines to show: the rate, the count, and the earliest and latest
    /// stamps.
    pub fn messages(&self, _n: usize) -> (r: Vec<String>)
        requires
            self.wf(),
        ensures
            ({
                let (rate, unit) = rate_of(self@.earliest, self@.latest, self@.count as int);
                r@.map_values(|s: String| s@) == seq![
                    "    Rate: "@ + with_commas(rate as nat) + " "@ + unit,
                    "    Count: "@ + with_commas(self@.count as nat),
                    "    Earliest: "@ + stamp_display(self@.parser_type, self@.earliest),
                    "    Latest: "@ + stamp_display(self@.parser_type, self@.latest),
                ]
            }),
    {
        let (rate, unit) = self.determine_rate();
        let mut rate_line = "    Rate: ".to_owned();
        push_with_commas(&mut rate_line, rate as u64);
        push_str(&mut rate_line, " ");
        push_str(&mut rate_line, unit.as_str());
        let mut count_line = "    Count: ".to_owned();
        push_with_commas(&mut count_line, self.count as u64);
        let mut earliest = "    Earliest: ".to_owned();
        push_str(&mut earliest, self.show(self.earliest).as_str());
        let mut latest = "    Latest: ".to_owned();
        push_str(&mut latest, self.show(self.latest).as_str());
        let out = vec![rate_line, count_line, earliest, latest];
        assert(out@.map_values(|s: String| s@) =~= seq![rate_line@, count_line@, earliest@, latest@]);
        out
    }

    /// A stamp as shown for this kind of aggregator.
    fn show(&self, s: Stamp) -> (r: String)
        ensures
            r@ == stamp_display(self@.parser_type, s),
    {
        match self.parser_type {
            DateParserType::Date => show_date(s.julian_day),
            DateParserType::Time => show_time(s.hour, s.minute, s.second, s.nanosecond),
            DateParserType::DateTime => show_datetime(s.julian_day, s.hour, s.minute, s.second, s.nanosecond),
        }
    }
}

} // verus!
