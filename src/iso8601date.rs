//! Timestamps of the shape `YYYY-MM-DDTHH:MM:SS<zone>`, decomposed into
//! numeric fields while the original text is kept for serialisation.
use vstd::prelude::*;

use crate::decimal::{
    append_decimal, append_decimal2, bounded_value, decimal, decimal2, parse_u16, parse_u8,
    remove_padding, unpadded,
};
use crate::text::{find_char, find_from, split_char, split_on};

verus! {

/// Why a text is not an accepted timestamp.
#[derive(Clone, Copy, Debug, PartialEq, Eq, Structural)]
pub enum TimestampFault {
    /// There is no `T` between the date and the time.
    MissingSeparator,
    /// The date does not have exactly three `-`-separated parts.
    DateSegments,
    /// A year, month or day is not a number that fits its field.
    DateField,
    /// Fewer than eight characters follow the `T`.
    TimeTooShort,
    /// An hour, minute or second is missing or not a number that fits its field.
    TimeField,
}

impl TimestampFault {
    /// A human-readable account of the fault.
    pub fn message(&self) -> (r: &'static str)
        ensures
            r@ == match self {
                TimestampFault::MissingSeparator => "missing date/time separator"@,
                TimestampFault::DateSegments => "date does not have three parts"@,
                TimestampFault::DateField => "invalid year, month or day"@,
                TimestampFault::TimeTooShort => "time is shorter than eight characters"@,
                TimestampFault::TimeField => "invalid hours, minutes or seconds"@,
            },
    {
        match self {
            TimestampFault::MissingSeparator => "missing date/time separator",
            TimestampFault::DateSegments => "date does not have three parts",
            TimestampFault::DateField => "invalid year, month or day",
            TimestampFault::TimeTooShort => "time is shorter than eight characters",
            TimestampFault::TimeField => "invalid hours, minutes or seconds",
        }
    }
}

/// A text that is not an accepted timestamp, and why.
#[derive(Clone, Debug)]
pub struct TimestampFormatError {
    pub raw: String,
    pub reason: TimestampFault,
}

/// A parsed timestamp: its numeric fields, its zone designator as written,
/// and the full text it was parsed from.
#[derive(Clone, Debug)]
pub struct ISO8601Date {
    pub year: u16,
    pub month: u8,
    pub day: u8,
    pub hours: u8,
    pub minutes: u8,
    pub seconds: u8,
    pub tz: String,
    pub raw: String,
}

/// The mathematical content of an `ISO8601Date`.
pub struct TimestampView {
    pub year: nat,
    pub month: nat,
    pub day: nat,
    pub hours: nat,
    pub minutes: nat,
    pub seconds: nat,
    pub tz: Seq<char>,
    pub raw: Seq<char>,
}

impl View for ISO8601Date {
    type V = TimestampView;

    open spec fn view(&self) -> TimestampView {
        TimestampView {
            year: self.year as nat,
            month: self.month as nat,
            day: self.day as nat,
            hours: self.hours as nat,
            minutes: self.minutes as nat,
            seconds: self.seconds as nat,
            tz: self.tz@,
            raw: self.raw@,
        }
    }
}

/// The value of a numeric field once its padding is removed, if it fits `max`.
pub open spec fn field_value(seg: Seq<char>, max: nat) -> Option<nat> {
    bounded_value(unpadded(seg), max)
}

/// The index of the `T` that ends the date.
pub open spec fn separator_of(s: Seq<char>) -> Option<int> {
    find_from(s, 'T', 0)
}

/// Year, month and day of `s`, or why they cannot be read.
pub open spec fn date_component(s: Seq<char>) -> Result<(nat, nat, nat), TimestampFault> {
    match separator_of(s) {
        None => Err(TimestampFault::MissingSeparator),
        Some(t) => {
            let parts = split_on(s.take(t), '-');
            if parts.len() != 3 {
                Err(TimestampFault::DateSegments)
            } else {
                match (
                    field_value(parts[0], 0xffff),
                    field_value(parts[1], 0xff),
                    field_value(parts[2], 0xff),
                ) {
                    (Some(y), Some(m), Some(d)) => Ok((y, m, d)),
                    _ => Err(TimestampFault::DateField),
                }
            }
        },
    }
}

/// Hours, minutes, seconds and zone designator of `s`, or why they cannot
/// be read. The clock is the first eight characters after the `T`; a fourth
/// `:`-separated part inside it is ignored.
pub open spec fn time_component(s: Seq<char>) -> Result<
    (nat, nat, nat, Seq<char>),
    TimestampFault,
> {
    match separator_of(s) {
        None => Err(TimestampFault::MissingSeparator),
        Some(t) => {
            let rest = s.skip(t + 1);
            if rest.len() < 8 {
                Err(TimestampFault::TimeTooShort)
            } else {
                let parts = split_on(rest.take(8), ':');
                if parts.len() < 3 {
                    Err(TimestampFault::TimeField)
                } else {
                    match (
                        field_value(parts[0], 0xff),
                        field_value(parts[1], 0xff),
                        field_value(parts[2], 0xff),
                    ) {
                        (Some(h), Some(m), Some(sec)) => Ok((h, m, sec, rest.skip(8))),
                        _ => Err(TimestampFault::TimeField),
                    }
                }
            }
        },
    }
}

/// The timestamp that `s` denotes, or the first rule that it breaks.
pub open spec fn timestamp_of(s: Seq<char>) -> Result<TimestampView, TimestampFault> {
    match date_component(s) {
        Err(e) => Err(e),
        Ok((y, mo, d)) => match time_component(s) {
            Err(e) => Err(e),
            Ok((h, mi, sec, tz)) => Ok(
                TimestampView {
                    year: y,
                    month: mo,
                    day: d,
                    hours: h,
                    minutes: mi,
                    seconds: sec,
                    tz: tz,
                    raw: s,
                },
            ),
        },
    }
}

/// The file-naming key of a timestamp: `year-MM-DD`.
pub open spec fn date_key(t: TimestampView) -> Seq<char> {
    decimal(t.year) + seq!['-'] + decimal2(t.month) + seq!['-'] + decimal2(t.day)
}

/// Serialising a parsed timestamp gives back exactly the text it was parsed
/// from, and parsing that text again gives the same timestamp.
pub proof fn lemma_round_trip(s: Seq<char>)
    requires
        timestamp_of(s) is Ok,
    ensures
        timestamp_of(s)->Ok_0.raw == s,
        timestamp_of(timestamp_of(s)->Ok_0.raw) == timestamp_of(s),
{
}

fn parse_field_u16(seg: &str) -> (r: Option<u16>)
    ensures
        match r {
            Some(v) => field_value(seg@, 0xffff) == Some(v as nat),
            None => field_value(seg@, 0xffff) is None,
        },
{
    parse_u16(remove_padding(seg))
}

fn parse_field_u8(seg: &str) -> (r: Option<u8>)
    ensures
        match r {
            Some(v) => field_value(seg@, 0xff) == Some(v as nat),
            None => field_value(seg@, 0xff) is None,
        },
{
    parse_u8(remove_padding(seg))
}

impl ISO8601Date {
    /// Reads the year, month and day before the `T` of `s`.
    pub fn parse_date_component(s: &str) -> (r: Result<(u16, u8, u8), TimestampFault>)
        ensures
            match r {
                Ok((y, m, d)) => date_component(s@) == Ok::<(nat, nat, nat), TimestampFault>(
                    (y as nat, m as nat, d as nat),
                ),
                Err(e) => date_component(s@) == Err::<(nat, nat, nat), TimestampFault>(e),
            },
    {
        let t = match find_char(s, 'T') {
            Some(t) => t,
            None => return Err(TimestampFault::MissingSeparator),
        };
        let date = s.substring_char(0, t);
        assert(date@ =~= s@.take(t as int));
        let parts = split_char(date, '-');
        if parts.len() != 3 {
            return Err(TimestampFault::DateSegments);
        }
        let year = parse_field_u16(parts[0]);
        let month = parse_field_u8(parts[1]);
        let day = parse_field_u8(parts[2]);
        match (year, month, day) {
            (Some(y), Some(m), Some(d)) => Ok((y, m, d)),
            _ => Err(TimestampFault::DateField),
        }
    }

    /// Reads the hours, minutes, seconds and zone designator after the `T`
    /// of `s`.
    pub fn parse_time_component(s: &str) -> (r: Result<(u8, u8, u8, String), TimestampFault>)
        ensures
            match r {
                Ok((h, m, sec, tz)) => time_component(s@) == Ok::<
                    (nat, nat, nat, Seq<char>),
                    TimestampFault,
                >((h as nat, m as nat, sec as nat, tz@)),
                Err(e) => time_component(s@) == Err::<(nat, nat, nat, Seq<char>), TimestampFault>(
                    e,
                ),
            },
    {
        let t = match find_char(s, 'T') {
            Some(t) => t,
            None => return Err(TimestampFault::MissingSeparator),
        };
        let n = s.unicode_len();
        let rest = s.substring_char(t + 1, n);
        assert(rest@ =~= s@.skip(t + 1));
        let len = rest.unicode_len();
        if len < 8 {
            return Err(TimestampFault::TimeTooShort);
        }
        let clock = rest.substring_char(0, 8);
        assert(clock@ =~= rest@.take(8));
        let parts = split_char(clock, ':');
        if parts.len() < 3 {
            return Err(TimestampFault::TimeField);
        }
        let hours = parse_field_u8(parts[0]);
        let minutes = parse_field_u8(parts[1]);
        let seconds = parse_field_u8(parts[2]);
        let zone = rest.substring_char(8, len);
        assert(zone@ =~= rest@.skip(8));
        match (hours, minutes, seconds) {
            (Some(h), Some(m), Some(sec)) => Ok((h, m, sec, String::from_str(zone))),
            _ => Err(TimestampFault::TimeField),
        }
    }

    /// Parses `s`, keeping `s` itself as the text to serialise.
    pub fn parse(s: &str) -> (r: Result<ISO8601Date, TimestampFormatError>)
        ensures
            match r {
                Ok(d) => timestamp_of(s@) == Ok::<TimestampView, TimestampFault>(d@),
                Err(e) => timestamp_of(s@) == Err::<TimestampView, TimestampFault>(e.reason)
                    && e.raw@ == s@,
            },
    {
        let (year, month, day) = match ISO8601Date::parse_date_component(s) {
            Ok(v) => v,
            Err(reason) => return Err(TimestampFormatError { raw: String::from_str(s), reason }),
        };
        let (hours, minutes, seconds, tz) = match ISO8601Date::parse_time_component(s) {
            Ok(v) => v,
            Err(reason) => return Err(TimestampFormatError { raw: String::from_str(s), reason }),
        };
        let raw = String::from_str(s);
        let d = ISO8601Date { year, month, day, hours, minutes, seconds, tz, raw };
        assert(d@ == timestamp_of(s@)->Ok_0);
        Ok(d)
    }

    /// The text this timestamp was parsed from, unchanged.
    pub fn serialize(&self) -> (r: String)
        ensures
            r@ == self.raw@,
    {
        self.raw.clone()
    }

    /// The date as `year-MM-DD`, month and day padded to two digits.
    pub fn as_date_str(&self) -> (r: String)
        ensures
            r@ == date_key(self@),
    {
        let mut out = String::new();
        append_decimal(&mut out, self.year);
        proof {
            reveal_strlit("-");
        }
        out.append("-");
        append_decimal2(&mut out, self.month);
        out.append("-");
        append_decimal2(&mut out, self.day);
        out
    }
}

} // verus!
