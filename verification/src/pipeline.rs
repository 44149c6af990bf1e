//! The pipeline: from a feed of calendars to one sequence of normalised
//! events and errors, in the feed's order.
//!
//! A feed item that is an error becomes one item of the output. A calendar
//! gives the outcomes of its events in order, the dropped ones left out. No
//! item ends the pipeline: to stop at the first error is the choice of
//! [`collect_events`], not of [`Pipeline`] or [`run`].
//!
//! A [`Pipeline`] is pulled item by item and does no work ahead of the item
//! asked for. It passes over the feed once; a new request makes a new one.

use crate::error::{Error, ErrorModel};
use crate::event::{
    event_outcome, extract, extracted, law_malformed_stamp_is_error, moment_for, text_for,
    CalendarModel, Event, EventModel, EventSource, Field, RawCalendar,
};
use crate::filter::{FilterList, FilterModel};
use vstd::prelude::*;

verus! {

/// One item of a feed: a calendar, or the error that stands in its place.
pub type FeedItem = Result<RawCalendar, Error>;

/// The mathematical content of one item of a feed.
pub type FeedItemModel = Result<CalendarModel, ErrorModel>;

/// One item of a feed by its content.
pub open spec fn item_view(item: FeedItem) -> FeedItemModel {
    match item {
        Ok(calendar) => Ok(calendar@),
        Err(error) => Err(error@),
    }
}

/// A feed by its content.
pub open spec fn feed_view(feed: Seq<FeedItem>) -> Seq<FeedItemModel> {
    feed.map_values(|item: FeedItem| item_view(item))
}

/// The mathematical content of one item of the output.
pub type Yield = Result<EventModel, ErrorModel>;

/// What one extraction adds to the output: nothing for a dropped event, else
/// the event or the error.
pub open spec fn yield_of(outcome: Result<Option<EventModel>, ErrorModel>) -> Seq<Yield> {
    match outcome {
        Ok(None) => Seq::empty(),
        Ok(Some(event)) => seq![Ok(event)],
        Err(error) => seq![Err(error)],
    }
}

/// What the events of one calendar add to the output.
pub open spec fn yields_of(events: CalendarModel, filters: Seq<FilterModel>) -> Seq<Yield>
    decreases events.len(),
{
    if events.len() == 0 {
        Seq::empty()
    } else {
        yields_of(events.drop_last(), filters) + yield_of(extracted(events.last(), filters))
    }
}

/// What one item of the feed adds to the output.
pub open spec fn item_yields(item: FeedItemModel, filters: Seq<FilterModel>) -> Seq<Yield> {
    match item {
        Ok(calendar) => yields_of(calendar, filters),
        Err(error) => seq![Err(error)],
    }
}

/// The output of the pipeline for a feed.
pub open spec fn piped(feed: Seq<FeedItemModel>, filters: Seq<FilterModel>) -> Seq<Yield>
    decreases feed.len(),
{
    if feed.len() == 0 {
        Seq::empty()
    } else {
        piped(feed.drop_last(), filters) + item_yields(feed.last(), filters)
    }
}

/// The events of an output up to its first error, or that error.
pub open spec fn collected(output: Seq<Yield>) -> Result<Seq<EventModel>, ErrorModel>
    decreases output.len(),
{
    if output.len() == 0 {
        Ok(Seq::empty())
    } else {
        match collected(output.drop_last()) {
            Err(error) => Err(error),
            Ok(events) => match output.last() {
                Ok(event) => Ok(events.push(event)),
                Err(error) => Err(error),
            },
        }
    }
}

/// One item of the output by its content.
pub open spec fn yield_view(item: Result<Event, Error>) -> Yield {
    match item {
        Ok(event) => Ok(event@),
        Err(error) => Err(error@),
    }
}

/// An output by its content.
pub open spec fn output_view(output: Seq<Result<Event, Error>>) -> Seq<Yield> {
    output.map_values(|item: Result<Event, Error>| yield_view(item))
}

/// A list of events by its content.
pub open spec fn events_view(events: Seq<Event>) -> Seq<EventModel> {
    events.map_values(|event: Event| event@)
}

/// A collection's outcome by its content.
pub open spec fn collection_view(outcome: Result<Vec<Event>, Error>) -> Result<
    Seq<EventModel>,
    ErrorModel,
> {
    match outcome {
        Ok(events) => Ok(events_view(events@)),
        Err(error) => Err(error@),
    }
}

/// What is still to come from a feed when the pipeline stands at the given
/// calendar and, within it, at the given event.
spec fn pending(
    feed: Seq<FeedItemModel>,
    filters: Seq<FilterModel>,
    calendar: int,
    event: int,
) -> Seq<Yield> {
    if 0 <= calendar < feed.len() {
        match feed[calendar] {
            Ok(current) => yields_of(current.skip(event), filters) + piped(
                feed.skip(calendar + 1),
                filters,
            ),
            Err(error) => seq![Err(error)] + piped(feed.skip(calendar + 1), filters),
        }
    } else {
        Seq::empty()
    }
}

/// The number of events left in the calendar at which the pipeline stands.
spec fn events_left(feed: Seq<FeedItemModel>, calendar: int, event: int) -> int {
    if 0 <= calendar < feed.len() {
        match feed[calendar] {
            Ok(current) => current.len() - event,
            Err(_) => 0,
        }
    } else {
        0
    }
}

/// A producer of the pipeline's output, one item at a time.
pub struct Pipeline<'a> {
    feed: &'a Vec<FeedItem>,
    filters: &'a FilterList,
    calendar: usize,
    event: usize,
}

impl<'a> Pipeline<'a> {
    /// The position lies within the feed, and within the calendar it points
    /// at.
    #[verifier::type_invariant]
    spec fn in_range(self) -> bool {
        &&& self.calendar <= self.feed@.len()
        &&& 0 <= events_left(feed_view(self.feed@), self.calendar as int, self.event as int)
        &&& self.event == 0 || (self.calendar < self.feed@.len()
            && self.feed@[self.calendar as int] is Ok)
    }

    /// What the pipeline has yet to give, in order.
    pub closed spec fn remaining(&self) -> Seq<Yield> {
        pending(feed_view(self.feed@), self.filters@, self.calendar as int, self.event as int)
    }

    /// A pipeline at the start of a feed: all of the feed's output is yet to
    /// come.
    pub fn new(feed: &'a Vec<FeedItem>, filters: &'a FilterList) -> (pipeline: Pipeline<'a>)
        ensures
            pipeline.remaining() == piped(feed_view(feed@), filters@),
    {
        proof {
            lemma_pending_at_calendar(feed_view(feed@), filters@, 0);
            assert(feed_view(feed@).skip(0) =~= feed_view(feed@));
        }
        Pipeline { feed, filters, calendar: 0, event: 0 }
    }

    /// Gives the next item of the output, or `None` when the feed is
    /// exhausted. Events that are dropped are passed over in silence.
    pub fn next(&mut self) -> (item: Option<Result<Event, Error>>)
        ensures
            match item {
                Some(item) => old(self).remaining() == seq![yield_view(item)]
                    + final(self).remaining(),
                None => old(self).remaining().len() == 0 && final(self).remaining().len() == 0,
            },
    {
        proof {
            use_type_invariant(&*self);
        }
        let feed = self.feed;
        let filters = self.filters;
        while self.calendar < feed.len()
            invariant
                self.feed == feed,
                self.filters == filters,
                self.in_range(),
                self.remaining() == old(self).remaining(),
            decreases
                    feed@.len() - self.calendar,
                    events_left(feed_view(feed@), self.calendar as int, self.event as int),
        {
            let ghost all = feed_view(feed@);
            let ghost before = self.remaining();
            let ghost later = piped(all.skip(self.calendar + 1), filters@);
            proof {
                lemma_pending_at_calendar(all, filters@, self.calendar + 1);
                assert(all[self.calendar as int] == item_view(feed@[self.calendar as int]));
            }
            match &feed[self.calendar] {
                Err(error) => {
                    let copy = error.duplicate();
                    self.calendar = self.calendar + 1;
                    return Some(Err(copy));
                },
                Ok(current) => {
                    if self.event < current.events.len() {
                        let ghost here = current@.skip(self.event as int);
                        proof {
                            lemma_yields_front(here, filters@);
                            assert(here[0] == current.events@[self.event as int]@);
                            assert(here.skip(1) =~= current@.skip(self.event + 1));
                        }
                        let outcome = extract(&current.events[self.event], filters);
                        let ghost added = yield_of(event_outcome(outcome));
                        self.event = self.event + 1;
                        proof {
                            assert(before =~= added + self.remaining());
                        }
                        match outcome {
                            Ok(None) => {
                                assert(added + self.remaining() =~= self.remaining());
                            },
                            Ok(Some(event)) => {
                                return Some(Ok(event));
                            },
                            Err(error) => {
                                return Some(Err(error));
                            },
                        }
                    } else {
                        proof {
                            assert(current@.skip(self.event as int) =~= Seq::<
                                EventSource,
                            >::empty());
                            assert(before =~= later);
                        }
                        self.event = 0;
                        self.calendar = self.calendar + 1;
                    }
                },
            }
        }
        None
    }
}

/// Where the pipeline stands at the start of a calendar, what is still to
/// come is the output for the feed from that calendar on.
proof fn lemma_pending_at_calendar(
    feed: Seq<FeedItemModel>,
    filters: Seq<FilterModel>,
    calendar: int,
)
    requires
        0 <= calendar <= feed.len(),
    ensures
        pending(feed, filters, calendar, 0) == piped(feed.skip(calendar), filters),
{
    let rest = feed.skip(calendar);
    if calendar < feed.len() {
        lemma_piped_front(rest, filters);
        assert(rest[0] == feed[calendar]);
        assert(rest.skip(1) =~= feed.skip(calendar + 1));
        if let Ok(current) = feed[calendar] {
            assert(current.skip(0) =~= current);
        }
    } else {
        assert(rest =~= Seq::<FeedItemModel>::empty());
    }
}

/// The output for a calendar starts with what its first event comes to.
pub proof fn lemma_yields_front(events: CalendarModel, filters: Seq<FilterModel>)
    requires
        events.len() > 0,
    ensures
        yields_of(events, filters) == yield_of(extracted(events[0], filters)) + yields_of(
            events.skip(1),
            filters,
        ),
{
    assert(events =~= seq![events[0]] + events.skip(1));
    lemma_yields_concat(seq![events[0]], events.skip(1), filters);
    lemma_yields_one(events[0], filters);
}

/// The output for a feed starts with what its first item adds.
pub proof fn lemma_piped_front(feed: Seq<FeedItemModel>, filters: Seq<FilterModel>)
    requires
        feed.len() > 0,
    ensures
        piped(feed, filters) == item_yields(feed[0], filters) + piped(feed.skip(1), filters),
{
    assert(feed =~= seq![feed[0]] + feed.skip(1));
    law_pipeline_concat(seq![feed[0]], feed.skip(1), filters);
    lemma_piped_one(feed[0], filters);
}

/// Runs a feed through the pipeline to its end: every calendar's events in
/// order, every error in its place.
pub fn run(feed: &Vec<FeedItem>, filters: &FilterList) -> (output: Vec<Result<Event, Error>>)
    ensures
        output_view(output@) == piped(feed_view(feed@), filters@),
{
    let mut pipeline = Pipeline::new(feed, filters);
    let mut output: Vec<Result<Event, Error>> = Vec::new();
    assert(output_view(output@) + pipeline.remaining() =~= piped(feed_view(feed@), filters@));
    loop
        invariant
            output_view(output@) + pipeline.remaining() == piped(feed_view(feed@), filters@),
        decreases pipeline.remaining().len(),
    {
        let ghost so_far = output_view(output@);
        let ghost ahead = pipeline.remaining();
        match pipeline.next() {
            Some(item) => {
                output.push(item);
                proof {
                    assert(output_view(output@) =~= so_far.push(yield_view(item)));
                    assert(so_far.push(yield_view(item)) + pipeline.remaining() =~= so_far
                        + ahead);
                }
            },
            None => {
                assert(so_far + ahead =~= so_far);
                return output;
            },
        }
    }
}

/// Pulls events from the pipeline up to the first error of its output: an
/// error in the feed, or an event that fails to normalise. What lies behind
/// that error is never looked at.
pub fn collect_events(feed: &Vec<FeedItem>, filters: &FilterList) -> (outcome: Result<
    Vec<Event>,
    Error,
>)
    ensures
        collection_view(outcome) == collected(piped(feed_view(feed@), filters@)),
{
    let mut pipeline = Pipeline::new(feed, filters);
    let mut events: Vec<Event> = Vec::new();
    let ghost mut taken: Seq<Yield> = Seq::empty();
    assert(taken + pipeline.remaining() =~= piped(feed_view(feed@), filters@));
    assert(events_view(events@) =~= Seq::<EventModel>::empty());
    loop
        invariant
            taken + pipeline.remaining() == piped(feed_view(feed@), filters@),
            collected(taken) == Ok::<Seq<EventModel>, ErrorModel>(events_view(events@)),
        decreases pipeline.remaining().len(),
    {
        let ghost ahead = pipeline.remaining();
        let ghost before = events_view(events@);
        match pipeline.next() {
            Some(Ok(event)) => {
                events.push(event);
                proof {
                    lemma_collected_one(Ok(event@));
                    lemma_collected_concat(taken, seq![Ok::<EventModel, ErrorModel>(event@)]);
                    assert(events_view(events@) =~= before + seq![event@]);
                    taken = taken + seq![Ok::<EventModel, ErrorModel>(event@)];
                    assert(taken + pipeline.remaining() =~= piped(feed_view(feed@), filters@));
                }
            },
            Some(Err(error)) => {
                proof {
                    lemma_collected_one(Err(error@));
                    lemma_collected_concat(taken, seq![Err::<EventModel, ErrorModel>(error@)]);
                    let upto = taken + seq![Err::<EventModel, ErrorModel>(error@)];
                    lemma_collected_concat(upto, pipeline.remaining());
                    assert(upto + pipeline.remaining() =~= piped(feed_view(feed@), filters@));
                }
                return Err(error);
            },
            None => {
                assert(taken + ahead =~= taken);
                return Ok(events);
            },
        }
    }
}

/// The events of one calendar add to the output in order: what two runs of
/// events add is what the first adds, then what the second adds.
pub proof fn lemma_yields_concat(
    first: CalendarModel,
    second: CalendarModel,
    filters: Seq<FilterModel>,
)
    ensures
        yields_of(first + second, filters) == yields_of(first, filters) + yields_of(
            second,
            filters,
        ),
    decreases second.len(),
{
    if second.len() == 0 {
        assert(first + second =~= first);
        assert(yields_of(first, filters) + yields_of(second, filters) =~= yields_of(
            first,
            filters,
        ));
    } else {
        let both = first + second;
        assert(both.drop_last() =~= first + second.drop_last());
        assert(both.last() == second.last());
        lemma_yields_concat(first, second.drop_last(), filters);
        let tail = yield_of(extracted(second.last(), filters));
        assert((yields_of(first, filters) + yields_of(second.drop_last(), filters)) + tail
            =~= yields_of(first, filters) + (yields_of(second.drop_last(), filters) + tail));
    }
}

/// The pipeline keeps the feed's order and is stopped by nothing: the output
/// for two feeds one after the other is the output for the first, then the
/// output for the second, whatever errors either holds.
pub proof fn law_pipeline_concat(
    first: Seq<FeedItemModel>,
    second: Seq<FeedItemModel>,
    filters: Seq<FilterModel>,
)
    ensures
        piped(first + second, filters) == piped(first, filters) + piped(second, filters),
    decreases second.len(),
{
    if second.len() == 0 {
        assert(first + second =~= first);
        assert(piped(first, filters) + piped(second, filters) =~= piped(first, filters));
    } else {
        let both = first + second;
        assert(both.drop_last() =~= first + second.drop_last());
        assert(both.last() == second.last());
        law_pipeline_concat(first, second.drop_last(), filters);
        let tail = item_yields(second.last(), filters);
        assert((piped(first, filters) + piped(second.drop_last(), filters)) + tail =~= piped(
            first,
            filters,
        ) + (piped(second.drop_last(), filters) + tail));
    }
}

/// Collecting stops at the first error: of two outputs one after the other
/// it gives the error of the first if it has one, else that of the second if
/// it has one, else the events of both.
pub proof fn lemma_collected_concat(first: Seq<Yield>, second: Seq<Yield>)
    ensures
        collected(first + second) == match collected(first) {
            Err(error) => Err::<Seq<EventModel>, ErrorModel>(error),
            Ok(events) => match collected(second) {
                Err(error) => Err(error),
                Ok(more) => Ok(events + more),
            },
        },
    decreases second.len(),
{
    if second.len() == 0 {
        assert(first + second =~= first);
        if let Ok(events) = collected(first) {
            assert(events + Seq::<EventModel>::empty() =~= events);
        }
    } else {
        let both = first + second;
        assert(both.drop_last() =~= first + second.drop_last());
        assert(both.last() == second.last());
        lemma_collected_concat(first, second.drop_last());
        if let Ok(events) = collected(first) {
            if let Ok(more) = collected(second.drop_last()) {
                if let Ok(event) = second.last() {
                    assert((events + more).push(event) =~= events + more.push(event));
                }
            }
        }
    }
}

/// Collecting an output of one item gives that item.
proof fn lemma_collected_one(item: Yield)
    ensures
        collected(seq![item]) == match item {
            Ok(event) => Ok::<Seq<EventModel>, ErrorModel>(seq![event]),
            Err(error) => Err(error),
        },
{
    let alone = seq![item];
    assert(alone.drop_last() =~= Seq::<Yield>::empty());
    assert(collected(alone.drop_last()) == Ok::<Seq<EventModel>, ErrorModel>(Seq::empty()));
    assert(alone.last() == item);
    if let Ok(event) = item {
        assert(Seq::<EventModel>::empty().push(event) =~= seq![event]);
    }
}

/// A calendar of one event adds what that event comes to.
pub proof fn lemma_yields_one(event: EventSource, filters: Seq<FilterModel>)
    ensures
        yields_of(seq![event], filters) == yield_of(extracted(event, filters)),
{
    let alone = seq![event];
    assert(alone.drop_last() =~= Seq::<EventSource>::empty());
    assert(yields_of(alone.drop_last(), filters) =~= Seq::<Yield>::empty());
    assert(alone.last() == event);
    assert(Seq::<Yield>::empty() + yield_of(extracted(event, filters)) =~= yield_of(
        extracted(event, filters),
    ));
}

/// A feed of one item gives what that item adds.
pub proof fn lemma_piped_one(item: FeedItemModel, filters: Seq<FilterModel>)
    ensures
        piped(seq![item], filters) == item_yields(item, filters),
{
    let alone = seq![item];
    assert(alone.drop_last() =~= Seq::<FeedItemModel>::empty());
    assert(piped(alone.drop_last(), filters) =~= Seq::<Yield>::empty());
    assert(alone.last() == item);
    assert(Seq::<Yield>::empty() + item_yields(item, filters) =~= item_yields(item, filters));
}

/// A dropped event leaves no trace and the pipeline goes on: the output for
/// a calendar is the same with and without it.
pub proof fn law_dropped_event_leaves_no_trace(
    before: CalendarModel,
    dropped: EventSource,
    after: CalendarModel,
    filters: Seq<FilterModel>,
)
    requires
        extracted(dropped, filters) == Ok::<Option<EventModel>, ErrorModel>(None),
    ensures
        yields_of(before + seq![dropped] + after, filters) == yields_of(before + after, filters),
{
    let alone = seq![dropped];
    lemma_yields_one(dropped, filters);
    lemma_yields_concat(before, alone, filters);
    lemma_yields_concat(before + alone, after, filters);
    lemma_yields_concat(before, after, filters);
    assert(yields_of(before, filters) + Seq::<Yield>::empty() =~= yields_of(before, filters));
}

/// An event that fails gives one error in its place and the pipeline goes
/// on: what comes before and after it in the calendar is in the output as it
/// would be without it.
pub proof fn law_failed_event_is_one_item(
    before: CalendarModel,
    failed: EventSource,
    after: CalendarModel,
    filters: Seq<FilterModel>,
)
    requires
        extracted(failed, filters) is Err,
    ensures
        yields_of(before + seq![failed] + after, filters) == yields_of(before, filters) + seq![
            Err::<EventModel, ErrorModel>(extracted(failed, filters)->Err_0),
        ] + yields_of(after, filters),
{
    let alone = seq![failed];
    lemma_yields_one(failed, filters);
    lemma_yields_concat(before, alone, filters);
    lemma_yields_concat(before + alone, after, filters);
}

/// A feed item that is an error is one item of the output, in its place.
pub proof fn law_feed_error_is_one_item(
    before: Seq<FeedItemModel>,
    error: ErrorModel,
    after: Seq<FeedItemModel>,
    filters: Seq<FilterModel>,
)
    ensures
        piped(before + seq![Err::<CalendarModel, ErrorModel>(error)] + after, filters) == piped(
            before,
            filters,
        ) + seq![Err::<EventModel, ErrorModel>(error)] + piped(after, filters),
{
    let alone = seq![Err::<CalendarModel, ErrorModel>(error)];
    lemma_piped_one(Err(error), filters);
    law_pipeline_concat(before, alone, filters);
    law_pipeline_concat(before + alone, after, filters);
}

/// A calendar of one event with a UID, a summary and a stamp that does not
/// normalise gives one inconsistency and nothing else, whatever the filters
/// say of the summary.
pub proof fn law_malformed_stamp_is_one_error_item(event: EventSource, filters: Seq<FilterModel>)
    requires
        text_for(event, Field::Uid) is Some,
        text_for(event, Field::Summary) is Some,
        moment_for(event, Field::Stamp) matches Some(Err(_)),
    ensures
        piped(seq![Ok::<CalendarModel, ErrorModel>(seq![event])], filters) == seq![
            Err::<EventModel, ErrorModel>(ErrorModel::Inconsistency),
        ],
{
    law_malformed_stamp_is_error(event, filters);
    lemma_yields_one(event, filters);
    lemma_piped_one(Ok(seq![event]), filters);
}

} // verus!
