//! Feeds: from the text of a calendar document to the calendars that the
//! pipeline works on.

use crate::error::{Error, ErrorModel};
use crate::event::{CalendarModel, RawCalendar, RawEvent, RawProperty};
use crate::pipeline::{feed_view, FeedItem, FeedItemModel};
use crate::timestamp::Param;
use vstd::prelude::*;

verus! {

/// `ical::parser::ParserError`, why a block of a document is no calendar.
#[verifier::external_type_specification]
#[verifier::external_body]
pub struct ExParserError(ical::parser::ParserError);

/// What `ical::IcalParser` yields for a document, block by block: the events
/// of each calendar with their properties, or why the block is no calendar.
pub uninterp spec fn blocks_of(document: Seq<char>) -> Seq<
    Result<CalendarModel, ical::parser::ParserError>,
>;

/// One block by its content.
pub open spec fn block_view(block: Result<RawCalendar, ical::parser::ParserError>) -> Result<
    CalendarModel,
    ical::parser::ParserError,
> {
    match block {
        Ok(calendar) => Ok(calendar@),
        Err(error) => Err(error),
    }
}

/// A document's blocks by their content.
pub open spec fn blocks_view(blocks: Seq<Result<RawCalendar, ical::parser::ParserError>>) -> Seq<
    Result<CalendarModel, ical::parser::ParserError>,
> {
    blocks.map_values(|block: Result<RawCalendar, ical::parser::ParserError>| block_view(block))
}

/// Runs `ical::IcalParser` over a document to its end and takes from each
/// calendar its events, from each event its properties, and from each
/// property its name, value and parameters, all unchanged. The outcome
/// depends on the document alone.
#[verifier::external_body]
pub(crate) fn parse_blocks(document: &str) -> (blocks: Vec<
    Result<RawCalendar, ical::parser::ParserError>,
>)
    ensures
        blocks_view(blocks@) == blocks_of(document@),
{
    let pair = |(name, values)| Param { name, values };
    let property = |p: ical::property::Property| RawProperty {
        name: p.name,
        value: p.value,
        params: p.params.map(|list| list.into_iter().map(pair).collect()),
    };
    let event = |e: ical::parser::ical::component::IcalEvent| RawEvent {
        properties: e.properties.into_iter().map(property).collect(),
    };
    ical::IcalParser::new(document.as_bytes())
        .map(|block| block.map(|c| RawCalendar { events: c.events.into_iter().map(event).collect() }))
        .collect()
}

/// A block that is no calendar makes the feed inconsistent.
impl From<ical::parser::ParserError> for Error {
    fn from(error: ical::parser::ParserError) -> (failure: Error) {
        Error::Inconsistency
    }
}

impl vstd::std_specs::convert::FromSpecImpl<ical::parser::ParserError> for Error {
    open spec fn obeys_from_spec() -> bool {
        true
    }

    open spec fn from_spec(error: ical::parser::ParserError) -> Error {
        Error::Inconsistency
    }
}

/// One block as an item of the feed.
pub open spec fn item_of(block: Result<CalendarModel, ical::parser::ParserError>) -> FeedItemModel {
    match block {
        Ok(calendar) => Ok(calendar),
        Err(_) => Err(ErrorModel::Inconsistency),
    }
}

/// The feed that a document stands for: its calendars in order, and an
/// inconsistency in the place of each block that is no calendar.
pub open spec fn feed_of(document: Seq<char>) -> Seq<FeedItemModel> {
    blocks_of(document).map_values(
        |block: Result<CalendarModel, ical::parser::ParserError>| item_of(block),
    )
}

/// Reads a calendar document into a feed.
pub fn read_feed(document: &str) -> (feed: Vec<FeedItem>)
    ensures
        feed_view(feed@) == feed_of(document@),
{
    let blocks = parse_blocks(document);
    let mut feed: Vec<FeedItem> = Vec::new();
    assert(feed_view(feed@) =~= feed_of(document@).take(0));
    for block in it: blocks.into_iter()
        invariant
            it.seq() == blocks@,
            blocks_view(blocks@) == blocks_of(document@),
            feed_view(feed@) == feed_of(document@).take(it.index() as int),
    {
        let ghost before = feed_view(feed@);
        let ghost next = item_of(block_view(block));
        assert(feed_of(document@)[it.index() as int] == next);
        match block {
            Ok(calendar) => {
                feed.push(Ok(calendar));
            },
            Err(error) => {
                feed.push(Err(Error::from(error)));
            },
        }
        assert(feed_view(feed@) =~= before.push(next));
        assert(before.push(next) =~= feed_of(document@).take(it.index() + 1));
    }
    assert(feed_of(document@).take(blocks@.len() as int) =~= feed_of(document@));
    feed
}

} // verus!
