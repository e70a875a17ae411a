//! The resolution workflow: for each reaction of the author, the event it
//! reacts to, taken from the cache where the cache holds it and asked of the
//! relay where not.
//!
//! The workflow makes the decisions and leaves the work to its caller. Each
//! call of [`Workflow::step`] takes the outcome of the action that the call
//! before asked for, and gives the next action.

use crate::cache::{
    as_map, distinct_keys, has_key, inserted, lemma_inserted, EntryView, EventCache,
};
use crate::codec::PublicKey;
use crate::error::ErrorKind;
use crate::event::{first_reference, Event, EventView};
use crate::filter::{parent_filter, reactions_filter, Filter, FilterView, QUERY_TIMEOUT_SECS};
use vstd::prelude::*;

verus! {

/// Where a workflow stands.
#[derive(Clone, Copy, Debug, PartialEq, Eq, Structural)]
pub enum Phase {
    /// Nothing was asked for yet.
    Start,
    /// The author's reactions were asked of the relay.
    AwaitingReactions,
    /// The reactions are being gone through.
    Resolving,
    /// The event that the current reaction reacts to was asked of the relay.
    AwaitingParent,
    /// Every reaction was gone through, and the cache was handed out to be
    /// stored.
    Storing,
    /// The run is over.
    Done,
    /// The run failed.
    Failed(ErrorKind),
}

/// The outcome of an action, as the caller reports it.
#[derive(Debug, PartialEq, Eq)]
pub enum Reply {
    /// The action was done and has nothing to report.
    Nothing,
    /// The relay answered the query with these events, in this order.
    Events(Vec<Event>),
    /// The action failed.
    Failed(ErrorKind),
}

/// A reply as contracts speak of it.
pub enum ReplyView {
    Nothing,
    Events(Seq<EventView>),
    Failed(ErrorKind),
}

impl View for Reply {
    type V = ReplyView;

    open spec fn view(&self) -> ReplyView {
        match self {
            Reply::Nothing => ReplyView::Nothing,
            Reply::Events(events) => ReplyView::Events(events@.map_values(|e: Event| e@)),
            Reply::Failed(kind) => ReplyView::Failed(*kind),
        }
    }
}

/// What the caller is to do next.
#[derive(Debug, PartialEq, Eq)]
pub enum Action {
    /// Ask the relay for the events that match `filter`, wait for
    /// `timeout_secs` seconds at most, and report what came.
    Query { filter: Filter, timeout_secs: u64 },
    /// Put out this event.
    Emit(Event),
    /// Store the cache.
    Store,
    /// Stop: the run is over.
    Finish,
    /// Stop: the run failed.
    Fail(ErrorKind),
}

/// An action as contracts speak of it.
pub enum ActionView {
    Query { filter: FilterView, timeout_secs: u64 },
    Emit(EventView),
    Store,
    Finish,
    Fail(ErrorKind),
}

impl View for Action {
    type V = ActionView;

    open spec fn view(&self) -> ActionView {
        match self {
            Action::Query { filter, timeout_secs } => ActionView::Query {
                filter: filter@,
                timeout_secs: *timeout_secs,
            },
            Action::Emit(event) => ActionView::Emit(event@),
            Action::Store => ActionView::Store,
            Action::Finish => ActionView::Finish,
            Action::Fail(kind) => ActionView::Fail(*kind),
        }
    }
}

/// A workflow as contracts speak of it.
pub struct WorkflowView {
    /// The key whose reactions are resolved.
    pub author: Seq<u8>,
    /// The entries of the cache.
    pub cache: Seq<EntryView>,
    /// The reactions, in the order in which the relay gave them.
    pub reactions: Seq<EventView>,
    /// How many reactions are dealt with.
    pub cursor: int,
    pub phase: Phase,
}

/// The identifier that the current reaction refers to, if it refers to one.
pub open spec fn wanted(state: WorkflowView) -> Option<Seq<u8>> {
    if 0 <= state.cursor < state.reactions.len() {
        first_reference(state.reactions[state.cursor].tags)
    } else {
        None
    }
}

/// What every workflow keeps to: no key occurs twice in its cache, and while
/// it waits for an event, that event is the one the current reaction refers
/// to, and the cache does not hold it.
pub open spec fn well_formed(state: WorkflowView) -> bool {
    &&& distinct_keys(state.cache)
    &&& 0 <= state.cursor <= state.reactions.len()
    &&& state.phase == Phase::AwaitingParent ==> wanted(state) is Some && !has_key(
        state.cache,
        wanted(state)->0,
    )
}

/// The query for the events that match `filter`.
pub open spec fn query(filter: FilterView) -> ActionView {
    ActionView::Query { filter, timeout_secs: QUERY_TIMEOUT_SECS }
}

/// `state` after a failure of the kind `kind`, and the action that reports
/// it.
pub open spec fn failed(state: WorkflowView, kind: ErrorKind) -> (WorkflowView, ActionView) {
    (WorkflowView { phase: Phase::Failed(kind), ..state }, ActionView::Fail(kind))
}

/// Going through the reactions from the current one on, up to the first
/// that needs an action:
/// - a reaction that refers to no event is passed over;
/// - a reaction whose event the cache holds has that event emitted;
/// - a reaction whose event the cache lacks has the event asked of the relay;
/// - with no reaction left, the cache is handed out to be stored.
pub open spec fn resolve(state: WorkflowView) -> (WorkflowView, ActionView)
    decreases state.reactions.len() - state.cursor,
{
    if !(0 <= state.cursor < state.reactions.len()) {
        (WorkflowView { phase: Phase::Storing, ..state }, ActionView::Store)
    } else {
        match wanted(state) {
            None => resolve(WorkflowView { cursor: state.cursor + 1, ..state }),
            Some(id) => if has_key(state.cache, id) {
                (
                    WorkflowView { cursor: state.cursor + 1, ..state },
                    ActionView::Emit(as_map(state.cache)[id]),
                )
            } else {
                (WorkflowView { phase: Phase::AwaitingParent, ..state }, query(parent_filter(id)))
            },
        }
    }
}

/// One step of the workflow: from where it stands and the outcome of the
/// action before, to where it stands next and the next action.
///
/// - A run that is over stays over, whatever is reported.
/// - Any failure that is reported ends the run with that failure.
/// - At the start, the author's reactions are asked of the relay.
/// - The relay's answer to that is the list of reactions, gone through in
///   the order given.
/// - The relay's answer to the query for one event: the first event of the
///   answer is emitted and put into the cache under its identifier; an
///   empty answer is passed over. Either way the next reaction follows.
/// - A query that is reported done without an answer counts as failed.
/// - Once the cache was handed out to be stored, the run is over.
pub open spec fn step(state: WorkflowView, reply: ReplyView) -> (WorkflowView, ActionView) {
    match state.phase {
        Phase::Done => (state, ActionView::Finish),
        Phase::Failed(kind) => (state, ActionView::Fail(kind)),
        _ => match reply {
            ReplyView::Failed(kind) => failed(state, kind),
            _ => match state.phase {
                Phase::Start => (
                    WorkflowView { phase: Phase::AwaitingReactions, ..state },
                    query(reactions_filter(state.author)),
                ),
                Phase::AwaitingReactions => match reply {
                    ReplyView::Events(events) => resolve(
                        WorkflowView {
                            reactions: events,
                            cursor: 0,
                            phase: Phase::Resolving,
                            ..state
                        },
                    ),
                    _ => failed(state, ErrorKind::RelayQueryFailure),
                },
                Phase::Resolving => resolve(state),
                Phase::AwaitingParent => match reply {
                    ReplyView::Events(events) => if events.len() > 0 {
                        (
                            WorkflowView {
                                cache: inserted(state.cache, events[0].id, events[0]),
                                cursor: state.cursor + 1,
                                phase: Phase::Resolving,
                                ..state
                            },
                            ActionView::Emit(events[0]),
                        )
                    } else {
                        resolve(
                            WorkflowView {
                                cursor: state.cursor + 1,
                                phase: Phase::Resolving,
                                ..state
                            },
                        )
                    },
                    _ => failed(state, ErrorKind::RelayQueryFailure),
                },
                _ => (WorkflowView { phase: Phase::Done, ..state }, ActionView::Finish),
            },
        },
    }
}

/// What going through the reactions comes to. It keeps the workflow well
/// formed, leaves the author, the reactions and the cache as they are, and
/// never fails. Every reaction that it passes over refers to no event. It
/// ends in one of three ways:
/// - with the cache handed out to be stored, every reaction being dealt with;
/// - with an event emitted: the one that the cache holds for the reaction
///   dealt with last;
/// - with a query for the event that the current reaction refers to, which
///   the cache does not hold.
pub proof fn lemma_resolve(state: WorkflowView)
    requires
        well_formed(state),
        state.phase == Phase::Resolving,
    ensures
        well_formed(resolve(state).0),
        resolve(state).0.author == state.author,
        resolve(state).0.reactions == state.reactions,
        resolve(state).0.cache == state.cache,
        state.cursor <= resolve(state).0.cursor,
        match resolve(state).1 {
            ActionView::Store => {
                &&& resolve(state).0.phase == Phase::Storing
                &&& resolve(state).0.cursor == state.reactions.len()
            },
            ActionView::Emit(event) => {
                let last = WorkflowView { cursor: resolve(state).0.cursor - 1, ..state };
                &&& resolve(state).0.phase == Phase::Resolving
                &&& state.cursor < resolve(state).0.cursor
                &&& wanted(last) is Some
                &&& has_key(state.cache, wanted(last)->0)
                &&& event == as_map(state.cache)[wanted(last)->0]
            },
            ActionView::Query { filter, timeout_secs } => {
                &&& resolve(state).0.phase == Phase::AwaitingParent
                &&& wanted(resolve(state).0) is Some
                &&& !has_key(state.cache, wanted(resolve(state).0)->0)
                &&& filter == parent_filter(wanted(resolve(state).0)->0)
                &&& timeout_secs == QUERY_TIMEOUT_SECS
            },
            ActionView::Finish => false,
            ActionView::Fail(_) => false,
        },
        forall|i: int|
            state.cursor <= i < resolve(state).0.cursor - (if resolve(state).1 is Emit {
                1int
            } else {
                0int
            }) ==> first_reference(#[trigger] state.reactions[i].tags) is None,
    decreases state.reactions.len() - state.cursor,
{
    if 0 <= state.cursor < state.reactions.len() {
        if wanted(state) is None {
            let next = WorkflowView { cursor: state.cursor + 1, ..state };
            lemma_resolve(next);
            assert(resolve(state) == resolve(next));
        }
    }
}

/// Whether the workflow is past the reactions: the cache was handed out to
/// be stored, or the run is over, well or not.
pub open spec fn winding_up(phase: Phase) -> bool {
    phase == Phase::Storing || phase == Phase::Done || phase is Failed
}

/// Each step keeps a workflow well formed, and keeps its author.
pub proof fn lemma_step_keeps_well_formed(state: WorkflowView, reply: ReplyView)
    requires
        well_formed(state),
    ensures
        well_formed(step(state, reply).0),
        step(state, reply).0.author == state.author,
{
    lemma_step(state, reply);
}

/// What one step comes to, case by case, with what `lemma_resolve` says of
/// each case that goes through the reactions.
proof fn lemma_step(state: WorkflowView, reply: ReplyView)
    requires
        well_formed(state),
    ensures
        well_formed(step(state, reply).0),
        step(state, reply).0.author == state.author,
        step(state, reply).0.cache == state.cache || (state.phase == Phase::AwaitingParent
            && reply is Events && reply->Events_0.len() > 0 && step(state, reply).0.cache
            == inserted(state.cache, reply->Events_0[0].id, reply->Events_0[0])),
        step(state, reply).1 matches ActionView::Query { filter, .. } ==> (filter.id matches Some(
            id,
        ) ==> !has_key(step(state, reply).0.cache, id)),
        step(state, reply).1 is Store ==> step(state, reply).0.phase == Phase::Storing && step(
            state,
            reply,
        ).0.cursor == step(state, reply).0.reactions.len(),
        state.phase == Phase::Storing || state.phase == Phase::Done || state.phase is Failed
            ==> !(step(state, reply).1 is Store),
        winding_up(state.phase) ==> winding_up(step(state, reply).0.phase) && step(
            state,
            reply,
        ).0.phase != Phase::Storing,
        !winding_up(state.phase) ==> step(state, reply).0.phase != Phase::Done && (step(
            state,
            reply,
        ).0.phase == Phase::Storing <==> step(state, reply).1 is Store),
{
    match state.phase {
        Phase::Done => {},
        Phase::Failed(_) => {},
        _ => match reply {
            ReplyView::Failed(_) => {},
            _ => match state.phase {
                Phase::Start => {},
                Phase::AwaitingReactions => match reply {
                    ReplyView::Events(events) => {
                        lemma_resolve(
                            WorkflowView {
                                reactions: events,
                                cursor: 0,
                                phase: Phase::Resolving,
                                ..state
                            },
                        );
                    },
                    _ => {},
                },
                Phase::Resolving => {
                    lemma_resolve(state);
                },
                Phase::AwaitingParent => match reply {
                    ReplyView::Events(events) => {
                        if events.len() > 0 {
                            lemma_inserted(state.cache, events[0].id, events[0]);
                        } else {
                            lemma_resolve(
                                WorkflowView {
                                    cursor: state.cursor + 1,
                                    phase: Phase::Resolving,
                                    ..state
                                },
                            );
                        }
                    },
                    _ => {},
                },
                _ => {},
            },
        },
    }
}

/// An event is asked of the relay only where the cache does not hold it.
pub proof fn lemma_query_only_for_missing(state: WorkflowView, reply: ReplyView, id: Seq<u8>)
    requires
        well_formed(state),
        step(state, reply).1 matches ActionView::Query { filter, .. } && filter.id == Some(id),
    ensures
        !has_key(step(state, reply).0.cache, id),
        !has_key(state.cache, id),
{
    lemma_step(state, reply);
    if state.phase == Phase::AwaitingParent {
        if let ReplyView::Events(events) = reply {
            if events.len() == 0 {
                lemma_resolve(
                    WorkflowView { cursor: state.cursor + 1, phase: Phase::Resolving, ..state },
                );
            }
        }
    }
}

/// Where the cache holds the event that the current reaction refers to,
/// that event is emitted as the cache holds it: the relay is not asked, and
/// the cache stays as it is.
pub proof fn lemma_cached_parent_is_emitted(state: WorkflowView, reply: ReplyView, id: Seq<u8>)
    requires
        well_formed(state),
        state.phase == Phase::Resolving,
        !(reply is Failed),
        wanted(state) == Some(id),
        has_key(state.cache, id),
    ensures
        step(state, reply).1 == ActionView::Emit(as_map(state.cache)[id]),
        step(state, reply).0.cache == state.cache,
        step(state, reply).0.phase == Phase::Resolving,
        step(state, reply).0.cursor == state.cursor + 1,
{
}

/// Where the relay answers the query for an event with events, the first of
/// them is emitted and the cache holds it from then on under its identifier.
/// No key leaves the cache. Where the event has the identifier that was asked
/// for, every entry that the cache held is as it was.
pub proof fn lemma_fetched_parent_is_cached(state: WorkflowView, events: Seq<EventView>)
    requires
        well_formed(state),
        state.phase == Phase::AwaitingParent,
        events.len() > 0,
    ensures
        step(state, ReplyView::Events(events)).1 == ActionView::Emit(events[0]),
        step(state, ReplyView::Events(events)).0.cache == inserted(
            state.cache,
            events[0].id,
            events[0],
        ),
        as_map(step(state, ReplyView::Events(events)).0.cache) == as_map(state.cache).insert(
            events[0].id,
            events[0],
        ),
        has_key(step(state, ReplyView::Events(events)).0.cache, events[0].id),
        as_map(step(state, ReplyView::Events(events)).0.cache)[events[0].id] == events[0],
        forall|key: Seq<u8>| #[trigger]
            has_key(state.cache, key) ==> has_key(
                step(state, ReplyView::Events(events)).0.cache,
                key,
            ),
        events[0].id == wanted(state)->0 ==> forall|key: Seq<u8>| #[trigger]
            has_key(state.cache, key) ==> as_map(
                step(state, ReplyView::Events(events)).0.cache,
            )[key] == as_map(state.cache)[key],
{
    lemma_inserted(state.cache, events[0].id, events[0]);
    let after = step(state, ReplyView::Events(events)).0.cache;
    assert(as_map(after).contains_key(events[0].id));
    assert forall|key: Seq<u8>| #[trigger] has_key(state.cache, key) implies has_key(after, key) by {
        assert(as_map(state.cache).contains_key(key));
        assert(as_map(after).contains_key(key));
    }
    if events[0].id == wanted(state)->0 {
        assert forall|key: Seq<u8>| #[trigger] has_key(state.cache, key) implies as_map(after)[key]
            == as_map(state.cache)[key] by {
            assert(key != events[0].id);
        }
    }
}

/// Where the relay answers the query for an event with no event, the
/// reaction is passed over: the workflow goes on with the reaction after it,
/// nothing is emitted for this one, the cache stays as it is and does not
/// hold the event, and the run does not fail.
pub proof fn lemma_missing_parent_is_passed_over(state: WorkflowView)
    requires
        well_formed(state),
        state.phase == Phase::AwaitingParent,
    ensures
        step(state, ReplyView::Events(Seq::empty())) == resolve(
            WorkflowView { cursor: state.cursor + 1, phase: Phase::Resolving, ..state },
        ),
        step(state, ReplyView::Events(Seq::empty())).0.cache == state.cache,
        !has_key(step(state, ReplyView::Events(Seq::empty())).0.cache, wanted(state)->0),
        !(step(state, ReplyView::Events(Seq::empty())).1 is Fail),
        !(step(state, ReplyView::Events(Seq::empty())).0.phase is Failed),
        step(state, ReplyView::Events(Seq::empty())).1 is Emit ==> step(
            state,
            ReplyView::Events(Seq::empty()),
        ).0.cursor > state.cursor + 1,
{
    lemma_resolve(WorkflowView { cursor: state.cursor + 1, phase: Phase::Resolving, ..state });
}

/// The cache is handed out to be stored once every reaction is dealt with,
/// and not again after that.
pub proof fn lemma_store_comes_last(state: WorkflowView, reply: ReplyView)
    requires
        well_formed(state),
    ensures
        step(state, reply).1 is Store ==> step(state, reply).0.phase == Phase::Storing && step(
            state,
            reply,
        ).0.cursor == step(state, reply).0.reactions.len(),
        state.phase == Phase::Storing || state.phase == Phase::Done || state.phase is Failed
            ==> !(step(state, reply).1 is Store),
        state.phase == Phase::Storing && !(reply is Failed) ==> step(state, reply).1
            == ActionView::Finish && step(state, reply).0.phase == Phase::Done,
{
    lemma_step(state, reply);
}

/// Whether `reply` answers what `state` asked: where an event was asked for
/// and events came, the first of them has the identifier asked for.
pub open spec fn answers(state: WorkflowView, reply: ReplyView) -> bool {
    state.phase == Phase::AwaitingParent ==> (reply matches ReplyView::Events(events) ==> (
    events.len() > 0 ==> Some(events[0].id) == wanted(state)))
}

/// The workflow after the steps that take `replies` in turn.
pub open spec fn after_replies(state: WorkflowView, replies: Seq<ReplyView>) -> WorkflowView
    decreases replies.len(),
{
    if replies.len() == 0 {
        state
    } else {
        after_replies(step(state, replies[0]).0, replies.drop_first())
    }
}

/// Whether each of `replies` answers what was asked when it came.
pub open spec fn all_answer(state: WorkflowView, replies: Seq<ReplyView>) -> bool
    decreases replies.len(),
{
    replies.len() == 0 || (answers(state, replies[0]) && all_answer(
        step(state, replies[0]).0,
        replies.drop_first(),
    ))
}

/// No key ever leaves the cache, whatever is reported. Where every reply
/// answers what was asked, no entry is changed either: what the cache holds
/// under a key, it holds for the rest of the run.
pub proof fn lemma_entries_stay(state: WorkflowView, replies: Seq<ReplyView>, key: Seq<u8>)
    requires
        well_formed(state),
        has_key(state.cache, key),
    ensures
        well_formed(after_replies(state, replies)),
        has_key(after_replies(state, replies).cache, key),
        all_answer(state, replies) ==> as_map(after_replies(state, replies).cache)[key] == as_map(
            state.cache,
        )[key],
    decreases replies.len(),
{
    if replies.len() > 0 {
        let next = step(state, replies[0]).0;
        lemma_step(state, replies[0]);
        if next.cache != state.cache {
            let events = replies[0]->Events_0;
            lemma_fetched_parent_is_cached(state, events);
        }
        lemma_entries_stay(next, replies.drop_first(), key);
    }
}

/// How often the cache is handed out to be stored in the steps that take
/// `replies` in turn.
pub open spec fn stores(state: WorkflowView, replies: Seq<ReplyView>) -> nat
    decreases replies.len(),
{
    if replies.len() == 0 {
        0
    } else {
        (if step(state, replies[0]).1 is Store {
            1nat
        } else {
            0nat
        }) + stores(step(state, replies[0]).0, replies.drop_first())
    }
}

/// A run that is over stays as it is, whatever is reported.
pub proof fn lemma_over_stays_over(state: WorkflowView, replies: Seq<ReplyView>)
    requires
        state.phase == Phase::Done || state.phase is Failed,
    ensures
        after_replies(state, replies) == state,
        stores(state, replies) == 0,
    decreases replies.len(),
{
    if replies.len() > 0 {
        lemma_over_stays_over(state, replies.drop_first());
    }
}

/// In a run the cache is handed out to be stored once at most, and never
/// before every reaction is dealt with. A run that ends well has had it
/// handed out exactly once.
pub proof fn lemma_stored_once(state: WorkflowView, replies: Seq<ReplyView>)
    requires
        well_formed(state),
    ensures
        stores(state, replies) <= 1,
        winding_up(state.phase) ==> stores(state, replies) == 0,
        !winding_up(state.phase) && after_replies(state, replies).phase == Phase::Done ==> stores(
            state,
            replies,
        ) == 1,
    decreases replies.len(),
{
    if replies.len() > 0 {
        let next = step(state, replies[0]).0;
        lemma_step(state, replies[0]);
        lemma_stored_once(next, replies.drop_first());
        if next.phase is Failed || next.phase == Phase::Done {
            lemma_over_stays_over(next, replies.drop_first());
        }
    }
}

/// A workflow: the author, the cache, the reactions and how far they are
/// dealt with.
#[derive(Debug)]
pub struct Workflow {
    author: PublicKey,
    cache: EventCache,
    reactions: Vec<Event>,
    cursor: usize,
    phase: Phase,
}

impl View for Workflow {
    type V = WorkflowView;

    closed spec fn view(&self) -> WorkflowView {
        WorkflowView {
            author: self.author@,
            cache: self.cache.entries(),
            reactions: self.reactions@.map_values(|e: Event| e@),
            cursor: self.cursor as int,
            phase: self.phase,
        }
    }
}

impl Workflow {
    #[verifier::type_invariant]
    spec fn keeps_well_formed(self) -> bool {
        well_formed(self@)
    }

    /// The workflow for the reactions of `author`, at its start, with `cache`
    /// as its cache.
    pub fn new(author: PublicKey, cache: EventCache) -> (workflow: Workflow)
        ensures
            workflow@ == (WorkflowView {
                author: author@,
                cache: cache.entries(),
                reactions: Seq::empty(),
                cursor: 0,
                phase: Phase::Start,
            }),
            well_formed(workflow@),
    {
        proof {
            use_type_invariant(&cache);
        }
        let workflow = Workflow { author, cache, reactions: Vec::new(), cursor: 0, phase: Phase::Start };
        proof {
            assert(workflow@.reactions =~= Seq::<EventView>::empty());
        }
        workflow
    }

    /// Where the workflow stands.
    pub fn phase(&self) -> (phase: Phase)
        ensures
            phase == self@.phase,
            well_formed(self@),
    {
        proof {
            use_type_invariant(self);
        }
        self.phase
    }

    /// The cache as it is now.
    pub fn cache(&self) -> (cache: &EventCache)
        ensures
            cache.entries() == self@.cache,
    {
        &self.cache
    }

    /// Ends the run with a failure of the kind `kind`.
    fn fail(&mut self, kind: ErrorKind) -> (action: Action)
        ensures
            (final(self)@, action@) == failed(old(self)@, kind),
    {
        proof {
            use_type_invariant(&*self);
        }
        self.phase = Phase::Failed(kind);
        Action::Fail(kind)
    }

    /// Goes through the reactions from the current one on, up to the first
    /// that needs an action.
    fn resolve(&mut self) -> (action: Action)
        requires
            old(self)@.phase == Phase::Resolving,
        ensures
            (final(self)@, action@) == resolve(old(self)@),
    {
        proof {
            use_type_invariant(&*self);
        }
        loop
            invariant
                resolve(self@) == resolve(old(self)@),
                well_formed(self@),
                self@.phase == Phase::Resolving,
            decreases self.reactions.len() - self.cursor,
        {
            if self.cursor >= self.reactions.len() {
                self.phase = Phase::Storing;
                return Action::Store;
            }
            let parent = self.reactions[self.cursor].parent();
            proof {
                assert(self@.reactions[self.cursor as int] == self.reactions@[self.cursor as int]@);
            }
            match parent {
                None => {
                    self.cursor = self.cursor + 1;
                },
                Some(id) => {
                    match self.cache.get(&id) {
                        Some(event) => {
                            let emitted = event.clone();
                            self.cursor = self.cursor + 1;
                            return Action::Emit(emitted);
                        },
                        None => {
                            self.phase = Phase::AwaitingParent;
                            return Action::Query {
                                filter: Filter::parent(id),
                                timeout_secs: QUERY_TIMEOUT_SECS,
                            };
                        },
                    }
                },
            }
        }
    }

    /// Takes the outcome of the action that the call before asked for, and
    /// gives the next action. The first call takes `Reply::Nothing`.
    pub fn step(&mut self, reply: Reply) -> (action: Action)
        ensures
            (final(self)@, action@) == step(old(self)@, reply@),
            well_formed(final(self)@),
    {
        proof {
            use_type_invariant(&*self);
        }
        match self.phase {
            Phase::Done => {
                return Action::Finish;
            },
            Phase::Failed(kind) => {
                return Action::Fail(kind);
            },
            _ => {},
        }
        let action = match reply {
            Reply::Failed(kind) => self.fail(kind),
            Reply::Nothing => match self.phase {
                Phase::Start => self.begin(),
                Phase::Resolving => self.resolve(),
                Phase::AwaitingReactions => self.fail(ErrorKind::RelayQueryFailure),
                Phase::AwaitingParent => self.fail(ErrorKind::RelayQueryFailure),
                _ => self.finish(),
            },
            Reply::Events(events) => match self.phase {
                Phase::Start => self.begin(),
                Phase::Resolving => self.resolve(),
                Phase::AwaitingReactions => {
                    self.cursor = 0;
                    self.reactions = events;
                    self.phase = Phase::Resolving;
                    self.resolve()
                },
                Phase::AwaitingParent => {
                    let mut events = events;
                    assert(self.cursor < self.reactions.len());
                    if events.len() > 0 {
                        let event = events.remove(0);
                        let copy = event.clone();
                        self.phase = Phase::Resolving;
                        self.cursor = self.cursor + 1;
                        let mut cache = EventCache::new();
                        core::mem::swap(&mut self.cache, &mut cache);
                        cache.insert(copy.id, copy);
                        self.cache = cache;
                        Action::Emit(event)
                    } else {
                        self.phase = Phase::Resolving;
                        self.cursor = self.cursor + 1;
                        self.resolve()
                    }
                },
                _ => self.finish(),
            },
        };
        proof {
            use_type_invariant(&*self);
        }
        action
    }

    /// Asks for the author's reactions.
    fn begin(&mut self) -> (action: Action)
        requires
            old(self)@.phase == Phase::Start,
        ensures
            final(self)@ == (WorkflowView { phase: Phase::AwaitingReactions, ..old(self)@ }),
            action@ == query(reactions_filter(old(self)@.author)),
    {
        proof {
            use_type_invariant(&*self);
        }
        self.phase = Phase::AwaitingReactions;
        Action::Query { filter: Filter::reactions_of(self.author), timeout_secs: QUERY_TIMEOUT_SECS }
    }

    /// Ends the run.
    fn finish(&mut self) -> (action: Action)
        ensures
            final(self)@ == (WorkflowView { phase: Phase::Done, ..old(self)@ }),
            action@ == ActionView::Finish,
    {
        proof {
            use_type_invariant(&*self);
        }
        self.phase = Phase::Done;
        Action::Finish
    }
}

} // verus!
