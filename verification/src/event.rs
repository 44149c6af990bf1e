//! Events: from the raw properties of one calendar event to a normalised
//! event, a silent drop, or an error.
//!
//! The properties are read once, in order. Of `UID`, `SUMMARY`, `DTSTAMP`,
//! `DTSTART`, `DTEND` and `CREATED` the last occurrence counts; every other
//! property is ignored. An event that lacks a `UID`, a `SUMMARY` or a
//! `DTSTAMP` is dropped. A `DTSTAMP` that does not normalise is an error,
//! whatever the filters say. An event whose summary the filters reject is
//! dropped. Of an accepted event the other timestamps must normalise too:
//! one that does not is an error.

use crate::error::{Error, ErrorModel};
use crate::filter::{all_accept, FilterList, FilterModel};
use crate::text::{same_text, text_of};
use crate::timestamp::{
    params_view, resolve, resolved, written, DateParseError, Instant, Param, ParamModel,
    UTC_PATTERN,
};
use vstd::prelude::*;

verus! {

/// One property of a raw event, as the feed gives it.
#[derive(Debug)]
pub struct RawProperty {
    pub name: String,
    pub value: Option<String>,
    pub params: Option<Vec<Param>>,
}

/// The mathematical content of a [`RawProperty`].
pub struct PropertyModel {
    pub name: Seq<char>,
    pub value: Option<Seq<char>>,
    pub params: Option<Seq<ParamModel>>,
}

impl PropertyModel {
    /// The parameters of the property, none where it has no list of them.
    pub open spec fn parameters(self) -> Seq<ParamModel> {
        match self.params {
            Some(params) => params,
            None => Seq::empty(),
        }
    }
}

impl View for RawProperty {
    type V = PropertyModel;

    open spec fn view(&self) -> PropertyModel {
        PropertyModel {
            name: self.name@,
            value: text_of(self.value),
            params: match self.params {
                Some(params) => Some(params_view(params@)),
                None => None,
            },
        }
    }
}

/// One event of a raw calendar: its properties in the feed's order.
#[derive(Debug)]
pub struct RawEvent {
    pub properties: Vec<RawProperty>,
}

/// The mathematical content of a [`RawEvent`]: its properties in order.
pub type EventSource = Seq<PropertyModel>;

impl View for RawEvent {
    type V = EventSource;

    open spec fn view(&self) -> EventSource {
        self.properties@.map_values(|property: RawProperty| property@)
    }
}

/// One calendar of a feed: its events in the feed's order.
#[derive(Debug)]
pub struct RawCalendar {
    pub events: Vec<RawEvent>,
}

/// The mathematical content of a [`RawCalendar`]: its events in order.
pub type CalendarModel = Seq<EventSource>;

impl View for RawCalendar {
    type V = CalendarModel;

    open spec fn view(&self) -> CalendarModel {
        self.events@.map_values(|event: RawEvent| event@)
    }
}

/// A normalised event.
#[derive(Debug)]
pub struct Event {
    pub uid: String,
    pub summary: String,
    pub stamp: Instant,
    pub created: Option<Instant>,
    pub start: Option<Instant>,
    pub end: Option<Instant>,
}

/// The mathematical content of an [`Event`].
pub struct EventModel {
    pub uid: Seq<char>,
    pub summary: Seq<char>,
    pub stamp: Instant,
    pub created: Option<Instant>,
    pub start: Option<Instant>,
    pub end: Option<Instant>,
}

impl View for Event {
    type V = EventModel;

    open spec fn view(&self) -> EventModel {
        EventModel {
            uid: self.uid@,
            summary: self.summary@,
            stamp: self.stamp,
            created: self.created,
            start: self.start,
            end: self.end,
        }
    }
}

/// A normalised event with its timestamps written as UTC literals, as a
/// calendar document takes them.
#[derive(Debug)]
pub struct EventText {
    pub uid: String,
    pub summary: String,
    pub stamp: String,
    pub created: Option<String>,
    pub start: Option<String>,
    pub end: Option<String>,
}

/// The mathematical content of an [`EventText`].
pub struct EventTextModel {
    pub uid: Seq<char>,
    pub summary: Seq<char>,
    pub stamp: Seq<char>,
    pub created: Option<Seq<char>>,
    pub start: Option<Seq<char>>,
    pub end: Option<Seq<char>>,
}

impl View for EventText {
    type V = EventTextModel;

    open spec fn view(&self) -> EventTextModel {
        EventTextModel {
            uid: self.uid@,
            summary: self.summary@,
            stamp: self.stamp@,
            created: text_of(self.created),
            start: text_of(self.start),
            end: text_of(self.end),
        }
    }
}

/// An optional timestamp as a UTC literal: absent stays absent; the outer
/// `None` says that the timestamp is there and cannot be written.
pub open spec fn literal_of(moment: Option<Instant>) -> Option<Option<Seq<char>>> {
    match moment {
        None => Some(None),
        Some(instant) => match written(instant, UTC_PATTERN@) {
            Some(text) => Some(Some(text)),
            None => None,
        },
    }
}

impl EventModel {
    /// The event with each of its timestamps as a UTC literal: the stamp
    /// from the stamp, the start from the start, the end from the end, the
    /// creation from the creation. There is none where one of them cannot be
    /// written.
    pub open spec fn as_text(self) -> Option<EventTextModel> {
        if written(self.stamp, UTC_PATTERN@) is Some && literal_of(self.created) is Some
            && literal_of(self.start) is Some && literal_of(self.end) is Some {
            Some(
                EventTextModel {
                    uid: self.uid,
                    summary: self.summary,
                    stamp: written(self.stamp, UTC_PATTERN@)->Some_0,
                    created: literal_of(self.created)->Some_0,
                    start: literal_of(self.start)->Some_0,
                    end: literal_of(self.end)->Some_0,
                },
            )
        } else {
            None
        }
    }
}

/// A written event by its content.
pub open spec fn text_outcome(outcome: Option<EventText>) -> Option<EventTextModel> {
    match outcome {
        Some(text) => Some(text@),
        None => None,
    }
}

/// Writes an optional timestamp as a UTC literal.
fn literal(moment: &Option<Instant>) -> (outcome: Option<Option<String>>)
    ensures
        match outcome {
            Some(text) => literal_of(*moment) == Some(text_of(text)),
            None => literal_of(*moment) is None,
        },
{
    match moment {
        None => Some(None),
        Some(instant) => match instant.to_ical_string() {
            Some(text) => Some(Some(text)),
            None => None,
        },
    }
}

impl Event {
    /// Writes the timestamps of the event as UTC literals.
    pub fn to_text(&self) -> (outcome: Option<EventText>)
        ensures
            text_outcome(outcome) == self@.as_text(),
    {
        let stamp = match self.stamp.to_ical_string() {
            Some(stamp) => stamp,
            None => {
                return None;
            },
        };
        let created = match literal(&self.created) {
            Some(created) => created,
            None => {
                return None;
            },
        };
        let start = match literal(&self.start) {
            Some(start) => start,
            None => {
                return None;
            },
        };
        let end = match literal(&self.end) {
            Some(end) => end,
            None => {
                return None;
            },
        };
        Some(
            EventText {
                uid: self.uid.clone(),
                summary: self.summary.clone(),
                stamp,
                created,
                start,
                end,
            },
        )
    }
}

/// The properties that an event is made from.
#[derive(Clone, Copy, Debug, PartialEq, Eq, Structural)]
pub enum Field {
    Uid,
    Summary,
    Stamp,
    Start,
    End,
    Created,
}

/// The field that a property name stands for. Names are upper case and
/// compared exactly.
pub open spec fn field_named(name: Seq<char>) -> Option<Field> {
    if name == "UID"@ {
        Some(Field::Uid)
    } else if name == "SUMMARY"@ {
        Some(Field::Summary)
    } else if name == "DTSTAMP"@ {
        Some(Field::Stamp)
    } else if name == "DTSTART"@ {
        Some(Field::Start)
    } else if name == "DTEND"@ {
        Some(Field::End)
    } else if name == "CREATED"@ {
        Some(Field::Created)
    } else {
        None
    }
}

/// Tells which field a property name stands for, if any.
pub fn classify(name: &str) -> (field: Option<Field>)
    ensures
        field == field_named(name@),
{
    if same_text(name, "UID") {
        Some(Field::Uid)
    } else if same_text(name, "SUMMARY") {
        Some(Field::Summary)
    } else if same_text(name, "DTSTAMP") {
        Some(Field::Stamp)
    } else if same_text(name, "DTSTART") {
        Some(Field::Start)
    } else if same_text(name, "DTEND") {
        Some(Field::End)
    } else if same_text(name, "CREATED") {
        Some(Field::Created)
    } else {
        None
    }
}

/// What has been seen of an event so far. A timestamp is kept as the outcome
/// of its normalisation.
#[derive(Debug)]
pub struct Candidate {
    pub uid: Option<String>,
    pub summary: Option<String>,
    pub stamp: Option<Result<Instant, DateParseError>>,
    pub start: Option<Result<Instant, DateParseError>>,
    pub end: Option<Result<Instant, DateParseError>>,
    pub created: Option<Result<Instant, DateParseError>>,
}

/// The mathematical content of a [`Candidate`].
pub struct CandidateModel {
    pub uid: Option<Seq<char>>,
    pub summary: Option<Seq<char>>,
    pub stamp: Option<Result<Instant, DateParseError>>,
    pub start: Option<Result<Instant, DateParseError>>,
    pub end: Option<Result<Instant, DateParseError>>,
    pub created: Option<Result<Instant, DateParseError>>,
}

impl View for Candidate {
    type V = CandidateModel;

    open spec fn view(&self) -> CandidateModel {
        CandidateModel {
            uid: text_of(self.uid),
            summary: text_of(self.summary),
            stamp: self.stamp,
            start: self.start,
            end: self.end,
            created: self.created,
        }
    }
}

/// The timestamp that a property carries: none without a value, else the
/// outcome of normalising the value with the property's own parameters.
pub open spec fn moment_of(property: PropertyModel) -> Option<Result<Instant, DateParseError>> {
    match property.value {
        Some(value) => Some(resolved(value, property.parameters())),
        None => None,
    }
}

/// An optional timestamp of an accepted event: absent, present, or the
/// failure that rejects the event.
pub open spec fn settled(moment: Option<Result<Instant, DateParseError>>) -> Result<
    Option<Instant>,
    ErrorModel,
> {
    match moment {
        None => Ok(None),
        Some(Ok(instant)) => Ok(Some(instant)),
        Some(Err(_)) => Err(ErrorModel::Inconsistency),
    }
}

impl CandidateModel {
    /// Nothing seen yet.
    pub open spec fn blank() -> CandidateModel {
        CandidateModel {
            uid: None,
            summary: None,
            stamp: None,
            start: None,
            end: None,
            created: None,
        }
    }

    /// The candidate after one more property. A property of a known name
    /// replaces what was there, also where it has no value.
    pub open spec fn observe(self, property: PropertyModel) -> CandidateModel {
        match field_named(property.name) {
            Some(Field::Uid) => CandidateModel { uid: property.value, ..self },
            Some(Field::Summary) => CandidateModel { summary: property.value, ..self },
            Some(Field::Stamp) => CandidateModel { stamp: moment_of(property), ..self },
            Some(Field::Start) => CandidateModel { start: moment_of(property), ..self },
            Some(Field::End) => CandidateModel { end: moment_of(property), ..self },
            Some(Field::Created) => CandidateModel { created: moment_of(property), ..self },
            None => self,
        }
    }

    /// The three mandatory fields have been seen.
    pub open spec fn is_complete(self) -> bool {
        self.uid is Some && self.summary is Some && self.stamp is Some
    }

    /// What becomes of the candidate, given the filters' verdict on its
    /// summary. An incomplete candidate is dropped. A stamp that did not
    /// normalise is an error before the verdict counts. A rejected candidate
    /// is dropped. The other timestamps count for an accepted candidate only.
    pub open spec fn decide(self, accepted: bool) -> Result<Option<EventModel>, ErrorModel> {
        if !self.is_complete() {
            Ok(None)
        } else if self.stamp->Some_0 is Err {
            Err(ErrorModel::Inconsistency)
        } else if !accepted {
            Ok(None)
        } else if settled(self.start) is Err || settled(self.end) is Err || settled(
            self.created,
        ) is Err {
            Err(ErrorModel::Inconsistency)
        } else {
            Ok(
                Some(
                    EventModel {
                        uid: self.uid->Some_0,
                        summary: self.summary->Some_0,
                        stamp: self.stamp->Some_0->Ok_0,
                        created: settled(self.created)->Ok_0,
                        start: settled(self.start)->Ok_0,
                        end: settled(self.end)->Ok_0,
                    },
                ),
            )
        }
    }
}

/// The candidate that a sequence of properties leaves, read in order.
pub open spec fn scanned(properties: EventSource) -> CandidateModel
    decreases properties.len(),
{
    if properties.len() == 0 {
        CandidateModel::blank()
    } else {
        scanned(properties.drop_last()).observe(properties.last())
    }
}

/// What an event comes to under a list of filters: a normalised event,
/// nothing, or an error. Only the summary is held against the filters.
pub open spec fn extracted(event: EventSource, filters: Seq<FilterModel>) -> Result<
    Option<EventModel>,
    ErrorModel,
> {
    let candidate = scanned(event);
    candidate.decide(candidate.summary is Some && all_accept(filters, candidate.summary->Some_0))
}

/// An extraction's outcome by its content.
pub open spec fn event_outcome(outcome: Result<Option<Event>, Error>) -> Result<
    Option<EventModel>,
    ErrorModel,
> {
    match outcome {
        Ok(Some(event)) => Ok(Some(event@)),
        Ok(None) => Ok(None),
        Err(error) => Err(error@),
    }
}

/// A copy of an optional text.
fn copy_of(text: &Option<String>) -> (copy: Option<String>)
    ensures
        text_of(copy) == text_of(*text),
{
    match text {
        Some(text) => Some(text.clone()),
        None => None,
    }
}

/// Normalises the value of a property, if it has one.
fn moment(property: &RawProperty) -> (outcome: Option<Result<Instant, DateParseError>>)
    ensures
        outcome == moment_of(property@),
{
    match (&property.value, &property.params) {
        (Some(value), Some(params)) => Some(resolve(value.as_str(), params)),
        (Some(value), None) => Some(resolve(value.as_str(), &Vec::new())),
        (None, _) => None,
    }
}

/// Takes one optional timestamp of an accepted event.
fn settle(moment: Option<Result<Instant, DateParseError>>) -> (outcome: Result<
    Option<Instant>,
    Error,
>)
    ensures
        match outcome {
            Ok(instant) => settled(moment) == Ok::<Option<Instant>, ErrorModel>(instant),
            Err(error) => settled(moment) == Err::<Option<Instant>, ErrorModel>(error@),
        },
{
    match moment {
        None => Ok(None),
        Some(Ok(instant)) => Ok(Some(instant)),
        Some(Err(error)) => Err(Error::from(error)),
    }
}

impl Candidate {
    /// A candidate of which nothing has been seen.
    pub fn new() -> (candidate: Candidate)
        ensures
            candidate@ == CandidateModel::blank(),
    {
        Candidate { uid: None, summary: None, stamp: None, start: None, end: None, created: None }
    }

    /// Takes one property into account.
    pub fn observe(&mut self, property: &RawProperty)
        ensures
            final(self)@ == old(self)@.observe(property@),
    {
        match classify(property.name.as_str()) {
            Some(Field::Uid) => {
                self.uid = copy_of(&property.value);
            },
            Some(Field::Summary) => {
                self.summary = copy_of(&property.value);
            },
            Some(Field::Stamp) => {
                self.stamp = moment(property);
            },
            Some(Field::Start) => {
                self.start = moment(property);
            },
            Some(Field::End) => {
                self.end = moment(property);
            },
            Some(Field::Created) => {
                self.created = moment(property);
            },
            None => {},
        }
    }

    /// Decides what becomes of the candidate, given the filters' verdict on
    /// its summary.
    pub fn finish(self, accepted: bool) -> (outcome: Result<Option<Event>, Error>)
        ensures
            event_outcome(outcome) == self@.decide(accepted),
    {
        let (uid, summary, stamp) = match (self.uid, self.summary, self.stamp) {
            (Some(uid), Some(summary), Some(stamp)) => (uid, summary, stamp),
            _ => {
                return Ok(None);
            },
        };
        let stamp = match stamp {
            Ok(instant) => instant,
            Err(error) => {
                return Err(Error::from(error));
            },
        };
        if !accepted {
            return Ok(None);
        }
        let start = match settle(self.start) {
            Ok(start) => start,
            Err(error) => {
                return Err(error);
            },
        };
        let end = match settle(self.end) {
            Ok(end) => end,
            Err(error) => {
                return Err(error);
            },
        };
        let created = match settle(self.created) {
            Ok(created) => created,
            Err(error) => {
                return Err(error);
            },
        };
        Ok(Some(Event { uid, summary, stamp, created, start, end }))
    }
}

/// Extracts one event: reads its properties, normalises its timestamps and
/// holds its summary against the filters.
pub fn extract(event: &RawEvent, filters: &FilterList) -> (outcome: Result<Option<Event>, Error>)
    ensures
        event_outcome(outcome) == extracted(event@, filters@),
{
    let mut candidate = Candidate::new();
    let mut i: usize = 0;
    while i < event.properties.len()
        invariant
            i <= event.properties.len(),
            candidate@ == scanned(event@.take(i as int)),
        decreases event.properties.len() - i,
    {
        proof {
            let seen = event@.take(i + 1);
            assert(seen.last() == event.properties@[i as int]@);
            assert(seen.drop_last() =~= event@.take(i as int));
        }
        candidate.observe(&event.properties[i]);
        i += 1;
    }
    assert(event@.take(i as int) =~= event@);
    let accepted = match &candidate.summary {
        Some(summary) => filters.accepts(summary.as_str()),
        None => false,
    };
    candidate.finish(accepted)
}

/// The last property of a sequence whose name stands for `field`.
pub open spec fn last_of(properties: EventSource, field: Field) -> Option<PropertyModel>
    decreases properties.len(),
{
    if properties.len() == 0 {
        None
    } else if field_named(properties.last().name) == Some(field) {
        Some(properties.last())
    } else {
        last_of(properties.drop_last(), field)
    }
}

/// The text that counts for a field: the value of the last property of that
/// name, if there is such a property and it has a value.
pub open spec fn text_for(properties: EventSource, field: Field) -> Option<Seq<char>> {
    match last_of(properties, field) {
        Some(property) => property.value,
        None => None,
    }
}

/// The timestamp that counts for a field: that of the last property of that
/// name, if there is such a property and it has a value.
pub open spec fn moment_for(properties: EventSource, field: Field) -> Option<
    Result<Instant, DateParseError>,
> {
    match last_of(properties, field) {
        Some(property) => moment_of(property),
        None => None,
    }
}

/// The last occurrence counts. Each field of the candidate that a sequence of
/// properties leaves comes from the last property of that field's name
/// alone; earlier ones, and properties of other names, leave no trace.
pub proof fn law_last_occurrence_counts(properties: EventSource)
    ensures
        scanned(properties).uid == text_for(properties, Field::Uid),
        scanned(properties).summary == text_for(properties, Field::Summary),
        scanned(properties).stamp == moment_for(properties, Field::Stamp),
        scanned(properties).start == moment_for(properties, Field::Start),
        scanned(properties).end == moment_for(properties, Field::End),
        scanned(properties).created == moment_for(properties, Field::Created),
    decreases properties.len(),
{
    if properties.len() > 0 {
        law_last_occurrence_counts(properties.drop_last());
    }
}

/// An event that lacks a UID, a summary or a stamp is dropped, and that is no
/// error: whatever else it holds, malformed timestamps included, and
/// whatever the filters are.
pub proof fn law_incomplete_event_dropped(event: EventSource, filters: Seq<FilterModel>)
    requires
        text_for(event, Field::Uid) is None || text_for(
            event,
            Field::Summary,
        ) is None || moment_for(event, Field::Stamp) is None,
    ensures
        extracted(event, filters) == Ok::<Option<EventModel>, ErrorModel>(None),
{
    law_last_occurrence_counts(event);
}

/// An event with a UID and a summary whose stamp does not normalise is an
/// error and not a drop, whatever the filters say of its summary.
pub proof fn law_malformed_stamp_is_error(event: EventSource, filters: Seq<FilterModel>)
    requires
        text_for(event, Field::Uid) is Some,
        text_for(event, Field::Summary) is Some,
        moment_for(event, Field::Stamp) matches Some(Err(_)),
    ensures
        extracted(event, filters) == Err::<Option<EventModel>, ErrorModel>(ErrorModel::Inconsistency),
{
    law_last_occurrence_counts(event);
}

/// An accepted event with a timestamp that does not normalise is an error:
/// where the event has a UID, a summary that the filters accept and a stamp
/// that normalises, and its start, end or creation does not normalise.
pub proof fn law_malformed_timestamp_is_error(event: EventSource, filters: Seq<FilterModel>)
    requires
        text_for(event, Field::Uid) is Some,
        text_for(event, Field::Summary) matches Some(summary) && all_accept(filters, summary),
        moment_for(event, Field::Stamp) matches Some(Ok(_)),
        moment_for(event, Field::Start) matches Some(Err(_)) || moment_for(
            event,
            Field::End,
        ) matches Some(Err(_)) || moment_for(event, Field::Created) matches Some(Err(_)),
    ensures
        extracted(event, filters) == Err::<Option<EventModel>, ErrorModel>(
            ErrorModel::Inconsistency,
        ),
{
    law_last_occurrence_counts(event);
}

/// Without filters every event is treated as accepted: nothing is dropped
/// but what is incomplete.
pub proof fn law_no_filters_reject_nothing(event: EventSource)
    ensures
        extracted(event, Seq::<FilterModel>::empty()) == scanned(event).decide(true),
{
}

/// What an event comes to, case by case, from the properties that count.
/// Without a UID, a summary or a stamp it is dropped. Else, with a stamp
/// that does not normalise, it is an error. Else, with a summary that a
/// filter rejects, it is dropped. Else, with a start, an end or a creation
/// that does not normalise, it is an error. Else it is kept.
pub proof fn law_extraction_cases(event: EventSource, filters: Seq<FilterModel>)
    ensures
        extracted(event, filters) == (if text_for(event, Field::Uid) is None || text_for(
            event,
            Field::Summary,
        ) is None || moment_for(event, Field::Stamp) is None {
            Ok::<Option<EventModel>, ErrorModel>(None)
        } else if moment_for(event, Field::Stamp)->Some_0 is Err {
            Err(ErrorModel::Inconsistency)
        } else if !all_accept(filters, text_for(event, Field::Summary)->Some_0) {
            Ok(None)
        } else if settled(moment_for(event, Field::Start)) is Err || settled(
            moment_for(event, Field::End),
        ) is Err || settled(moment_for(event, Field::Created)) is Err {
            Err(ErrorModel::Inconsistency)
        } else {
            Ok(
                Some(
                    EventModel {
                        uid: text_for(event, Field::Uid)->Some_0,
                        summary: text_for(event, Field::Summary)->Some_0,
                        stamp: moment_for(event, Field::Stamp)->Some_0->Ok_0,
                        created: settled(moment_for(event, Field::Created))->Ok_0,
                        start: settled(moment_for(event, Field::Start))->Ok_0,
                        end: settled(moment_for(event, Field::End))->Ok_0,
                    },
                ),
            )
        }),
{
    law_last_occurrence_counts(event);
}

/// Without filters no event is rejected: a complete event whose timestamps
/// normalise is kept with the fields that count.
pub proof fn law_no_filters_keep_every_event(event: EventSource)
    requires
        text_for(event, Field::Uid) is Some,
        text_for(event, Field::Summary) is Some,
        moment_for(event, Field::Stamp) matches Some(Ok(_)),
        settled(moment_for(event, Field::Start)) is Ok,
        settled(moment_for(event, Field::End)) is Ok,
        settled(moment_for(event, Field::Created)) is Ok,
    ensures
        extracted(event, Seq::<FilterModel>::empty()) == Ok::<Option<EventModel>, ErrorModel>(
            Some(
                EventModel {
                    uid: text_for(event, Field::Uid)->Some_0,
                    summary: text_for(event, Field::Summary)->Some_0,
                    stamp: moment_for(event, Field::Stamp)->Some_0->Ok_0,
                    created: settled(moment_for(event, Field::Created))->Ok_0,
                    start: settled(moment_for(event, Field::Start))->Ok_0,
                    end: settled(moment_for(event, Field::End))->Ok_0,
                },
            ),
        ),
{
    law_last_occurrence_counts(event);
}

/// Only the summary is held against the filters: an event whose summary a
/// filter rejects, and whose stamp is absent or normalises, is dropped,
/// whatever its other timestamps are.
pub proof fn law_rejected_summary_dropped(event: EventSource, filters: Seq<FilterModel>)
    requires
        text_for(event, Field::Summary) matches Some(summary) && !all_accept(
            filters,
            summary,
        ),
        !(moment_for(event, Field::Stamp) matches Some(Err(_))),
    ensures
        extracted(event, filters) == Ok::<Option<EventModel>, ErrorModel>(None),
{
    law_last_occurrence_counts(event);
}

} // verus!
