//! Dates and times of day, bound from the text of HTML date and time inputs.

use vstd::prelude::*;
use crate::error::{ConversionCause, ErrorView, Errors};
use crate::field::{DataField, ValueField};
use crate::from_form_field::{conversion, conversion_spec, unexpected, unexpected_spec, FromFormField};

verus! {

/// A calendar date.
#[derive(Clone, Copy, Debug, PartialEq, Eq, Structural)]
pub struct Date {
    pub year: i32,
    pub month: u8,
    pub day: u8,
}

/// A time of day.
#[derive(Clone, Copy, Debug, PartialEq, Eq, Structural)]
pub struct Time {
    pub hour: u8,
    pub minute: u8,
    pub second: u8,
}

/// A date and a time of day, without a time zone.
#[derive(Clone, Copy, Debug, PartialEq, Eq, Structural)]
pub struct DateTime {
    pub date: Date,
    pub time: Time,
}

/// The year, month and day that the time crate reads from `s` under the
/// format description `format`, if it reads a date.
pub uninterp spec fn parsed_date(s: Seq<char>, format: Seq<char>) -> Option<(i32, u8, u8)>;

/// The hour, minute and second that the time crate reads from `s` under the
/// format description `format`, if it reads a time.
pub uninterp spec fn parsed_time(s: Seq<char>, format: Seq<char>) -> Option<(u8, u8, u8)>;

/// The date and time fields that the time crate reads from `s` under the
/// format description `format`, if it reads a date and time.
pub uninterp spec fn parsed_date_time(s: Seq<char>, format: Seq<char>) -> Option<(i32, u8, u8, u8, u8, u8)>;

/// Relies on `time::Date::parse` (with the description read by
/// `time::format_description::parse_borrowed`): whether `s` is a date in
/// `format`, and which, depends on the two texts alone.
#[verifier::external_body]
fn parse_date_as(s: &str, format: &str) -> (r: Option<(i32, u8, u8)>)
    ensures
        r == parsed_date(s@, format@),
{
    let items = time::format_description::parse_borrowed::<2>(format).ok()?;
    let d = time::Date::parse(s, &items).ok()?;
    Some((d.year(), d.month() as u8, d.day()))
}

/// Relies on `time::Time::parse` (with the description read by
/// `time::format_description::parse_borrowed`): whether `s` is a time in
/// `format`, and which, depends on the two texts alone.
#[verifier::external_body]
fn parse_time_as(s: &str, format: &str) -> (r: Option<(u8, u8, u8)>)
    ensures
        r == parsed_time(s@, format@),
{
    let items = time::format_description::parse_borrowed::<2>(format).ok()?;
    let t = time::Time::parse(s, &items).ok()?;
    Some(t.as_hms())
}

/// Relies on `time::PrimitiveDateTime::parse` (with the description read by
/// `time::format_description::parse_borrowed`): whether `s` is a date and
/// time in `format`, and which, depends on the two texts alone.
#[verifier::external_body]
fn parse_date_time_as(s: &str, format: &str) -> (r: Option<(i32, u8, u8, u8, u8, u8)>)
    ensures
        r == parsed_date_time(s@, format@),
{
    let items = time::format_description::parse_borrowed::<2>(format).ok()?;
    let dt = time::PrimitiveDateTime::parse(s, &items).ok()?;
    let (h, mi, sec) = dt.as_hms();
    Some((dt.year(), dt.month() as u8, dt.day(), h, mi, sec))
}

/// What a date binds to: `YYYY-MM-DD`.
pub open spec fn date_spec(v: Seq<char>) -> Result<Date, Seq<ErrorView>> {
    match parsed_date(v, "[year]-[month]-[day]"@) {
        Some((year, month, day)) => Ok(Date { year, month, day }),
        None => conversion_spec(ConversionCause::Date),
    }
}

/// What a time binds to: `HH:MM:SS`, else `HH:MM`.
pub open spec fn time_spec(v: Seq<char>) -> Result<Time, Seq<ErrorView>> {
    match parsed_time(v, "[hour]:[minute]:[second]"@) {
        Some((hour, minute, second)) => Ok(Time { hour, minute, second }),
        None => match parsed_time(v, "[hour]:[minute]"@) {
            Some((hour, minute, second)) => Ok(Time { hour, minute, second }),
            None => conversion_spec(ConversionCause::Time),
        },
    }
}

pub open spec fn date_time_of(p: (i32, u8, u8, u8, u8, u8)) -> DateTime {
    DateTime {
        date: Date { year: p.0, month: p.1, day: p.2 },
        time: Time { hour: p.3, minute: p.4, second: p.5 },
    }
}

/// What a date and time binds to: `YYYY-MM-DDTHH:MM:SS`, else
/// `YYYY-MM-DDTHH:MM`.
pub open spec fn date_time_spec(v: Seq<char>) -> Result<DateTime, Seq<ErrorView>> {
    match parsed_date_time(v, "[year]-[month]-[day]T[hour]:[minute]:[second]"@) {
        Some(p) => Ok(date_time_of(p)),
        None => match parsed_date_time(v, "[year]-[month]-[day]T[hour]:[minute]"@) {
            Some(p) => Ok(date_time_of(p)),
            None => conversion_spec(ConversionCause::DateTime),
        },
    }
}

impl FromFormField for Date {
    open spec fn from_value_spec(field: ValueField) -> Result<Date, Seq<ErrorView>> {
        date_spec(field.value@)
    }

    open spec fn from_data_spec(field: DataField, r: Result<Date, Seq<ErrorView>>) -> bool {
        r == unexpected_spec::<Date>()
    }

    open spec fn default_spec() -> Option<Date> {
        None
    }

    fn from_value(field: &ValueField) -> (r: Result<Date, Errors>) {
        match parse_date_as(field.value.as_str(), "[year]-[month]-[day]") {
            Some((year, month, day)) => Ok(Date { year, month, day }),
            None => conversion(ConversionCause::Date),
        }
    }

    fn from_data(field: &DataField) -> (r: Result<Date, Errors>) {
        unexpected()
    }

    fn default() -> (r: Option<Date>) {
        None
    }
}

impl FromFormField for Time {
    open spec fn from_value_spec(field: ValueField) -> Result<Time, Seq<ErrorView>> {
        time_spec(field.value@)
    }

    open spec fn from_data_spec(field: DataField, r: Result<Time, Seq<ErrorView>>) -> bool {
        r == unexpected_spec::<Time>()
    }

    open spec fn default_spec() -> Option<Time> {
        None
    }

    fn from_value(field: &ValueField) -> (r: Result<Time, Errors>) {
        let v = field.value.as_str();
        match parse_time_as(v, "[hour]:[minute]:[second]") {
            Some((hour, minute, second)) => Ok(Time { hour, minute, second }),
            None => match parse_time_as(v, "[hour]:[minute]") {
                Some((hour, minute, second)) => Ok(Time { hour, minute, second }),
                None => conversion(ConversionCause::Time),
            },
        }
    }

    fn from_data(field: &DataField) -> (r: Result<Time, Errors>) {
        unexpected()
    }

    fn default() -> (r: Option<Time>) {
        None
    }
}

fn date_time_from(p: (i32, u8, u8, u8, u8, u8)) -> (r: DateTime)
    ensures
        r == date_time_of(p),
{
    DateTime {
        date: Date { year: p.0, month: p.1, day: p.2 },
        time: Time { hour: p.3, minute: p.4, second: p.5 },
    }
}

impl FromFormField for DateTime {
    open spec fn from_value_spec(field: ValueField) -> Result<DateTime, Seq<ErrorView>> {
        date_time_spec(field.value@)
    }

    open spec fn from_data_spec(field: DataField, r: Result<DateTime, Seq<ErrorView>>) -> bool {
        r == unexpected_spec::<DateTime>()
    }

    open spec fn default_spec() -> Option<DateTime> {
        None
    }

    fn from_value(field: &ValueField) -> (r: Result<DateTime, Errors>) {
        let v = field.value.as_str();
        match parse_date_time_as(v, "[year]-[month]-[day]T[hour]:[minute]:[second]") {
            Some(p) => Ok(date_time_from(p)),
            None => match parse_date_time_as(v, "[year]-[month]-[day]T[hour]:[minute]") {
                Some(p) => Ok(date_time_from(p)),
                None => conversion(ConversionCause::DateTime),
            },
        }
    }

    fn from_data(field: &DataField) -> (r: Result<DateTime, Errors>) {
        unexpected()
    }

    fn default() -> (r: Option<DateTime>) {
        None
    }
}

} // verus!
