//! Filters: what a query asks the relay for.

use crate::codec::PublicKey;
use crate::event::EventId;
use vstd::prelude::*;

verus! {

/// How many reactions of the author are asked for.
pub const REACTION_LIMIT: usize = 10;

/// How many events are asked for under one identifier.
pub const PARENT_LIMIT: usize = 1;

/// How long the relay has to answer one query, in seconds.
pub const QUERY_TIMEOUT_SECS: u64 = 10;

/// The category of an event, as far as a filter selects by it.
#[derive(Clone, Copy, Debug, PartialEq, Eq, Structural)]
pub enum Kind {
    /// A reaction to another event.
    Reaction,
}

/// A filter. An event matches it where it has each property that the filter
/// names; the relay hands out at most `limit` matches.
#[derive(Clone, Copy, Debug, PartialEq, Eq)]
pub struct Filter {
    pub kind: Option<Kind>,
    pub author: Option<PublicKey>,
    pub id: Option<EventId>,
    pub limit: Option<usize>,
}

/// A filter as contracts speak of it.
pub struct FilterView {
    pub kind: Option<Kind>,
    pub author: Option<Seq<u8>>,
    pub id: Option<Seq<u8>>,
    pub limit: Option<usize>,
}

impl View for Filter {
    type V = FilterView;

    open spec fn view(&self) -> FilterView {
        FilterView {
            kind: self.kind,
            author: match self.author {
                Some(author) => Some(author@),
                None => None,
            },
            id: match self.id {
                Some(id) => Some(id@),
                None => None,
            },
            limit: self.limit,
        }
    }
}

/// The filter for the reactions of `author`, `REACTION_LIMIT` of them at
/// most.
pub open spec fn reactions_filter(author: Seq<u8>) -> FilterView {
    FilterView {
        kind: Some(Kind::Reaction),
        author: Some(author),
        id: None,
        limit: Some(REACTION_LIMIT),
    }
}

/// The filter for the one event with the identifier `id`.
pub open spec fn parent_filter(id: Seq<u8>) -> FilterView {
    FilterView { kind: None, author: None, id: Some(id), limit: Some(PARENT_LIMIT) }
}

impl Filter {
    /// The filter that names no property and no limit.
    pub fn new() -> (filter: Filter)
        ensures
            filter@ == (FilterView { kind: None, author: None, id: None, limit: None }),
    {
        Filter { kind: None, author: None, id: None, limit: None }
    }

    /// This filter, selecting events of the category `kind`.
    pub fn kind(self, kind: Kind) -> (filter: Filter)
        ensures
            filter@ == (FilterView { kind: Some(kind), ..self@ }),
    {
        Filter { kind: Some(kind), ..self }
    }

    /// This filter, selecting events of `author`.
    pub fn author(self, author: PublicKey) -> (filter: Filter)
        ensures
            filter@ == (FilterView { author: Some(author@), ..self@ }),
    {
        Filter { author: Some(author), ..self }
    }

    /// This filter, selecting the event with the identifier `id`.
    pub fn id(self, id: EventId) -> (filter: Filter)
        ensures
            filter@ == (FilterView { id: Some(id@), ..self@ }),
    {
        Filter { id: Some(id), ..self }
    }

    /// This filter, with at most `limit` matches handed out.
    pub fn limit(self, limit: usize) -> (filter: Filter)
        ensures
            filter@ == (FilterView { limit: Some(limit), ..self@ }),
    {
        Filter { limit: Some(limit), ..self }
    }

    /// The filter for the reactions of `author`.
    pub fn reactions_of(author: PublicKey) -> (filter: Filter)
        ensures
            filter@ == reactions_filter(author@),
    {
        Filter::new().kind(Kind::Reaction).author(author).limit(REACTION_LIMIT)
    }

    /// The filter for the one event with the identifier `id`.
    pub fn parent(id: EventId) -> (filter: Filter)
        ensures
            filter@ == parent_filter(id@),
    {
        Filter::new().id(id).limit(PARENT_LIMIT)
    }
}

} // verus!
