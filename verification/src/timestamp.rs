//! Timestamps: from a raw date-time value and its parameters to an instant
//! in UTC, and back to text.
//!
//! A value is first read as local time: in the zone that its `TZID`
//! parameter names, where it names one that the time-zone database knows,
//! and in the default zone, UTC, where it names none. Failing that, it is
//! read as a UTC literal, which ends in `Z`.

use crate::text::{same_text, text_of};
use chrono::TimeZone;
use std::str::FromStr;
use vstd::prelude::*;

verus! {

/// `chrono_tz::Tz`, a zone of the time-zone database. Nothing inside it is
/// visible here.
#[verifier::external_type_specification]
#[verifier::external_body]
pub struct ExTz(chrono_tz::Tz);

/// `chrono::format::ParseError`, why a text could not be read as a time.
#[verifier::external_type_specification]
#[verifier::external_body]
pub struct ExParseError(chrono::format::ParseError);

/// The pattern of a local date-time, `YYYYMMDDTHHMMSS`.
pub const LOCAL_PATTERN: &'static str = "%Y%m%dT%H%M%S";

/// The pattern of a UTC literal, `YYYYMMDDTHHMMSSZ`. It is the fallback for
/// every value that is no local date-time in its zone.
pub const UTC_PATTERN: &'static str = "%Y%m%dT%H%M%SZ";

/// The name of the zone in which a value is read when its parameters name
/// no zone that the database knows.
pub const DEFAULT_ZONE: &'static str = "UTC";

/// The name of the parameter that names a zone.
pub const ZONE_PARAMETER: &'static str = "TZID";

/// An absolute point in time: whole seconds since 1970-01-01T00:00:00 UTC,
/// leap seconds not counted, and the nanoseconds past that second. During a
/// leap second the nanoseconds run from 1,000,000,000 up.
#[derive(Clone, Copy, Debug, PartialEq, Eq, Structural)]
pub struct Instant {
    pub secs: i64,
    pub nanos: u32,
}

/// The one way in which a timestamp fails to normalise.
#[derive(Clone, Copy, Debug, PartialEq, Eq, Structural)]
pub enum DateParseError {
    /// The value is neither a local date-time in a known zone nor a UTC
    /// literal.
    UnparsableTimestamp,
}

/// One parameter of a property: its name and its values.
#[derive(Debug)]
pub struct Param {
    pub name: String,
    pub values: Vec<String>,
}

/// The mathematical content of a [`Param`].
pub struct ParamModel {
    pub name: Seq<char>,
    pub values: Seq<Seq<char>>,
}

impl View for Param {
    type V = ParamModel;

    open spec fn view(&self) -> ParamModel {
        ParamModel { name: self.name@, values: self.values@.map_values(|value: String| value@) }
    }
}

/// A list of parameters by its content.
pub open spec fn params_view(params: Seq<Param>) -> Seq<ParamModel> {
    params.map_values(|param: Param| param@)
}

/// What `chrono_tz::Tz::from_str` knows under a name: the zone, or none.
pub uninterp spec fn zone_named(name: Seq<char>) -> Option<chrono_tz::Tz>;

/// What `TimeZone::datetime_from_str` returns on a zone of the database for
/// a text and a pattern: the instant that the text denotes as local time in
/// that zone, or why it denotes none.
pub uninterp spec fn read_in_zone(zone: chrono_tz::Tz, value: Seq<char>, pattern: Seq<char>) -> Result<
    Instant,
    chrono::format::ParseError,
>;

/// What `TimeZone::datetime_from_str` returns on `chrono::Utc` for a text
/// and a pattern: the instant that the text denotes as UTC, or why it denotes
/// none.
pub uninterp spec fn read_in_utc(value: Seq<char>, pattern: Seq<char>) -> Result<
    Instant,
    chrono::format::ParseError,
>;

/// What `chrono::DateTime::format` writes for an instant in UTC and a
/// pattern: the text, or none where the instant lies outside the calendar or
/// the pattern is malformed.
pub uninterp spec fn written(instant: Instant, pattern: Seq<char>) -> Option<Seq<char>>;

/// Calls `chrono_tz::Tz::from_str` and keeps the zone, if the name has one.
/// The answer depends on the name alone.
#[verifier::external_body]
pub(crate) fn lookup_zone(name: &str) -> (zone: Option<chrono_tz::Tz>)
    ensures
        zone == zone_named(name@),
{
    chrono_tz::Tz::from_str(name).ok()
}

/// Calls `TimeZone::datetime_from_str` on a zone of the database and takes
/// the date-time by its UNIX timestamp and nanoseconds. The outcome depends
/// on the zone, the text and the pattern alone.
#[verifier::external_body]
#[allow(deprecated)]
pub(crate) fn parse_in_zone(zone: &chrono_tz::Tz, value: &str, pattern: &str) -> (outcome: Result<
    Instant,
    chrono::format::ParseError,
>)
    ensures
        outcome == read_in_zone(*zone, value@, pattern@),
{
    let moment = zone.datetime_from_str(value, pattern)?;
    Ok(Instant { secs: moment.timestamp(), nanos: moment.timestamp_subsec_nanos() })
}

/// Calls `TimeZone::datetime_from_str` on `chrono::Utc` and takes the
/// date-time by its UNIX timestamp and nanoseconds. The outcome depends on
/// the text and the pattern alone.
#[verifier::external_body]
#[allow(deprecated)]
pub(crate) fn parse_in_utc(value: &str, pattern: &str) -> (outcome: Result<
    Instant,
    chrono::format::ParseError,
>)
    ensures
        outcome == read_in_utc(value@, pattern@),
{
    let moment = chrono::Utc.datetime_from_str(value, pattern)?;
    Ok(Instant { secs: moment.timestamp(), nanos: moment.timestamp_subsec_nanos() })
}

/// Makes the date-time of an instant with `chrono::DateTime::from_timestamp`
/// and writes it with `chrono::DateTime::format`. The outcome depends on the
/// instant and the pattern alone.
#[verifier::external_body]
pub(crate) fn write_in_utc(instant: &Instant, pattern: &str) -> (text: Option<String>)
    ensures
        text_of(text) == written(*instant, pattern@),
{
    let moment = chrono::DateTime::from_timestamp(instant.secs, instant.nanos)?;
    let mut text = String::new();
    moment.format(pattern).write_to(&mut text).ok()?;
    Some(text)
}

impl ParamModel {
    /// The zone name that this parameter puts forward: its one value, where
    /// its name is exactly `TZID` and it has exactly one value.
    pub open spec fn claimed_zone(self) -> Option<Seq<char>> {
        if self.name == ZONE_PARAMETER@ && self.values.len() == 1 {
            Some(self.values[0])
        } else {
            None
        }
    }
}

impl Param {
    /// The zone name that this parameter puts forward, if it does.
    pub fn zone_claim(&self) -> (claim: Option<&String>)
        ensures
            match claim {
                Some(name) => self@.claimed_zone() == Some(name@),
                None => self@.claimed_zone() is None,
            },
    {
        if same_text(self.name.as_str(), ZONE_PARAMETER) && self.values.len() == 1 {
            Some(&self.values[0])
        } else {
            None
        }
    }
}

/// The zone that a parameter names: the one that the database knows under
/// the name that the parameter puts forward.
pub open spec fn zone_from(param: ParamModel) -> Option<chrono_tz::Tz> {
    match param.claimed_zone() {
        Some(name) => zone_named(name),
        None => None,
    }
}

/// The zone that the parameters of a property name: that of the last
/// parameter that names one.
pub open spec fn zone_of(params: Seq<ParamModel>) -> Option<chrono_tz::Tz>
    decreases params.len(),
{
    if params.len() == 0 {
        None
    } else if zone_from(params.last()) is Some {
        zone_from(params.last())
    } else {
        zone_of(params.drop_last())
    }
}

/// A value read as a UTC literal.
pub open spec fn utc_literal(value: Seq<char>) -> Result<Instant, DateParseError> {
    match read_in_utc(value, UTC_PATTERN@) {
        Ok(instant) => Ok(instant),
        Err(_) => Err(DateParseError::UnparsableTimestamp),
    }
}

/// The zone in which a value with these parameters is read: the one they
/// name, else the default zone.
pub open spec fn zone_for(params: Seq<ParamModel>) -> Option<chrono_tz::Tz> {
    match zone_of(params) {
        Some(zone) => Some(zone),
        None => zone_named(DEFAULT_ZONE@),
    }
}

/// The instant of a value with its parameters. Where the value is a local
/// date-time in its zone, it is that time. Else the value is read as a UTC
/// literal.
pub open spec fn resolved(value: Seq<char>, params: Seq<ParamModel>) -> Result<
    Instant,
    DateParseError,
> {
    match zone_for(params) {
        Some(zone) => match read_in_zone(zone, value, LOCAL_PATTERN@) {
            Ok(instant) => Ok(instant),
            Err(_) => utc_literal(value),
        },
        None => utc_literal(value),
    }
}

/// Finds the zone that the parameters of a property name, if they name one.
pub fn find_zone(params: &Vec<Param>) -> (zone: Option<chrono_tz::Tz>)
    ensures
        zone == zone_of(params_view(params@)),
{
    let ghost all = params_view(params@);
    let mut zone: Option<chrono_tz::Tz> = None;
    let mut i: usize = 0;
    while i < params.len()
        invariant
            i <= params.len(),
            all == params_view(params@),
            zone == zone_of(all.take(i as int)),
        decreases params.len() - i,
    {
        proof {
            let seen = all.take(i + 1);
            assert(seen.last() == params@[i as int]@);
            assert(seen.drop_last() =~= all.take(i as int));
        }
        if let Some(name) = params[i].zone_claim() {
            if let Some(known) = lookup_zone(name.as_str()) {
                zone = Some(known);
            }
        }
        i += 1;
    }
    assert(all.take(i as int) =~= all);
    zone
}

/// Normalises a raw date-time value to an instant in UTC.
///
/// A zone that the database does not know is no error: the value is then
/// read as if no zone had been named, in the default zone. Only a value that
/// is neither a local date-time in its zone nor a UTC literal is rejected.
pub fn resolve(value: &str, params: &Vec<Param>) -> (outcome: Result<Instant, DateParseError>)
    ensures
        outcome == resolved(value@, params_view(params@)),
{
    let zone = match find_zone(params) {
        Some(zone) => Some(zone),
        None => lookup_zone(DEFAULT_ZONE),
    };
    if let Some(zone) = zone {
        if let Ok(instant) = parse_in_zone(&zone, value, LOCAL_PATTERN) {
            return Ok(instant);
        }
    }
    match parse_in_utc(value, UTC_PATTERN) {
        Ok(instant) => Ok(instant),
        Err(_) => Err(DateParseError::UnparsableTimestamp),
    }
}

impl Instant {
    /// The instant as a UTC literal, `YYYYMMDDTHHMMSSZ`. There is none for
    /// an instant outside the calendar's range.
    pub fn to_ical_string(&self) -> (text: Option<String>)
        ensures
            text_of(text) == written(*self, UTC_PATTERN@),
    {
        write_in_utc(self, UTC_PATTERN)
    }
}

/// Where no parameter names a zone that the database knows, the value is
/// read as if it had no parameters at all: in the default zone, and failing
/// that as a UTC literal.
pub proof fn law_unknown_zone_reads_utc(value: Seq<char>, params: Seq<ParamModel>)
    requires
        forall|i: int| 0 <= i < params.len() ==> zone_from(#[trigger] params[i]) is None,
    ensures
        zone_of(params) is None,
        zone_for(params) == zone_named(DEFAULT_ZONE@),
        resolved(value, params) == resolved(value, Seq::<ParamModel>::empty()),
    decreases params.len(),
{
    if params.len() > 0 {
        law_unknown_zone_reads_utc(value, params.drop_last());
    }
}

/// A value is rejected exactly when both readings fail: it is no local
/// date-time in its zone, and it is no UTC literal.
pub proof fn law_rejected_when_both_readings_fail(value: Seq<char>, params: Seq<ParamModel>)
    ensures
        resolved(value, params) is Err <==> read_in_utc(value, UTC_PATTERN@) is Err && match zone_for(
            params,
        ) {
            Some(zone) => read_in_zone(zone, value, LOCAL_PATTERN@) is Err,
            None => true,
        },
{
}

/// Among several parameters that name a zone, the last one decides.
pub proof fn law_last_zone_decides(params: Seq<ParamModel>, last: ParamModel)
    requires
        zone_from(last) is Some,
    ensures
        zone_of(params.push(last)) == zone_from(last),
{
    assert(params.push(last).last() == last);
}

/// A parameter that names no known zone changes nothing.
pub proof fn law_other_parameters_ignored(
    params: Seq<ParamModel>,
    other: ParamModel,
    value: Seq<char>,
)
    requires
        zone_from(other) is None,
    ensures
        zone_of(params.push(other)) == zone_of(params),
        resolved(value, params.push(other)) == resolved(value, params),
{
    assert(params.push(other).last() == other);
    assert(params.push(other).drop_last() =~= params);
}

} // verus!
