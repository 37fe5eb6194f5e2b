//! Search synchronisation: keeping a search index usable without ever
//! blocking on it for good.
//!
//! The index is filled from the primary store and lags behind it. A search
//! first opens the index; where that fails the whole collection is indexed
//! anew and the index is tried again, a bounded number of times. The
//! decisions are made here, one event at a time; the caller talks to the
//! index and to the store and reports what happened.

use vstd::prelude::*;

verus! {

/// How often a search tries to open the index before it gives up.
pub const MAX_OPEN_ATTEMPTS: u8 = 3;

/// Why a search did not deliver.
#[derive(Debug, Clone, Copy, PartialEq, Eq, Structural)]
pub enum SearchError {
    /// No index backend is configured.
    SearchNotConfigured,
    /// The index could not be opened within the bound.
    IndexUnavailable,
    /// Reading the collection from the primary store failed; the caller
    /// holds the store's error and passes it on.
    FetchFailed,
    /// The index was opened and then did not answer the query.
    QueryFailed,
    /// An event arrived that the step before did not ask for.
    OutOfTurn,
}

/// Where a run stands: what the caller was last asked to do.
#[derive(Debug, Clone, Copy, PartialEq, Eq, Structural)]
pub enum SyncState {
    /// The index is being opened, for the `attempt`-th time.
    Opening { attempt: u8 },
    /// The collection is being indexed after the `attempt`-th failure.
    Reindexing { attempt: u8 },
    /// The query is with the index.
    Querying,
    /// Nothing is outstanding.
    Finished,
}

/// What the caller reports back.
#[derive(Debug, Clone, Copy, PartialEq, Eq, Structural)]
pub enum SyncEvent {
    /// The index was opened.
    Opened,
    /// The index could not be opened.
    OpenFailed,
    /// The collection was read and handed to the index.
    Reindexed,
    /// The collection could not be read from the primary store.
    FetchFailed,
    /// The collection was read, but the index did not take it.
    UpsertFailed,
    /// The index answered the query.
    Hits,
    /// The index did not answer the query.
    QueryFailed,
}

/// What the caller is to do next.
#[derive(Debug, Clone, Copy, PartialEq, Eq, Structural)]
pub enum SyncAction {
    /// Try to open the index.
    OpenIndex,
    /// Read the whole collection, hand all of it to the index and wait
    /// until the index has taken it.
    Reindex,
    /// Put the query to the open index.
    Query,
    /// Hand out the open index.
    Ready,
    /// Hand out the hits.
    Return,
    /// Give up with this error.
    Fail(SearchError),
}

/// A run of the synchroniser: either a search, or only making sure that the
/// index can be opened.
#[derive(Debug, Clone, Copy, PartialEq, Eq, Structural)]
pub struct Synchronizer {
    pub state: SyncState,
    /// Whether a query follows once the index is open.
    pub searching: bool,
}

/// The first step of a run: without a backend it fails at once, otherwise
/// the index is opened for the first time.
pub open spec fn first_step(configured: bool) -> (SyncState, SyncAction) {
    if configured {
        (SyncState::Opening { attempt: 1 }, SyncAction::OpenIndex)
    } else {
        (SyncState::Finished, SyncAction::Fail(SearchError::SearchNotConfigured))
    }
}

/// The step that follows `event` in `state`.
///
/// A failed opening is always followed by indexing the collection anew.
/// After that the index is tried again, unless it has been tried
/// `MAX_OPEN_ATTEMPTS` times. That the index did not take the collection is
/// no reason to stop; that the store could not be read is. An event that
/// was not asked for ends the run.
pub open spec fn next_step(state: SyncState, searching: bool, event: SyncEvent) -> (
    SyncState,
    SyncAction,
) {
    match (state, event) {
        (SyncState::Opening { attempt }, SyncEvent::Opened) => if searching {
            (SyncState::Querying, SyncAction::Query)
        } else {
            (SyncState::Finished, SyncAction::Ready)
        },
        (SyncState::Opening { attempt }, SyncEvent::OpenFailed) => (
            SyncState::Reindexing { attempt },
            SyncAction::Reindex,
        ),
        (SyncState::Reindexing { attempt }, SyncEvent::Reindexed)
        | (SyncState::Reindexing { attempt }, SyncEvent::UpsertFailed) => if attempt
            < MAX_OPEN_ATTEMPTS {
            (SyncState::Opening { attempt: (attempt + 1) as u8 }, SyncAction::OpenIndex)
        } else {
            (SyncState::Finished, SyncAction::Fail(SearchError::IndexUnavailable))
        },
        (SyncState::Reindexing { attempt }, SyncEvent::FetchFailed) => (
            SyncState::Finished,
            SyncAction::Fail(SearchError::FetchFailed),
        ),
        (SyncState::Querying, SyncEvent::Hits) => (SyncState::Finished, SyncAction::Return),
        (SyncState::Querying, SyncEvent::QueryFailed) => (
            SyncState::Finished,
            SyncAction::Fail(SearchError::QueryFailed),
        ),
        _ => (SyncState::Finished, SyncAction::Fail(SearchError::OutOfTurn)),
    }
}

impl Synchronizer {
    /// Starts a search.
    pub fn search(configured: bool) -> (r: (Synchronizer, SyncAction))
        ensures
            r.0.searching,
            (r.0.state, r.1) == first_step(configured),
    {
        Synchronizer::start(configured, true)
    }

    /// Starts a run that ends when the index is open.
    pub fn ensure_fresh(configured: bool) -> (r: (Synchronizer, SyncAction))
        ensures
            !r.0.searching,
            (r.0.state, r.1) == first_step(configured),
    {
        Synchronizer::start(configured, false)
    }

    fn start(configured: bool, searching: bool) -> (r: (Synchronizer, SyncAction))
        ensures
            r.0.searching == searching,
            (r.0.state, r.1) == first_step(configured),
    {
        if configured {
            (
                Synchronizer { state: SyncState::Opening { attempt: 1 }, searching },
                SyncAction::OpenIndex,
            )
        } else {
            (
                Synchronizer { state: SyncState::Finished, searching },
                SyncAction::Fail(SearchError::SearchNotConfigured),
            )
        }
    }

    /// Whether the run is over.
    pub fn is_finished(&self) -> (r: bool)
        ensures
            r == (self.state == SyncState::Finished),
    {
        match self.state {
            SyncState::Finished => true,
            _ => false,
        }
    }

    /// Takes what the caller reports and says what to do next.
    pub fn step(&mut self, event: SyncEvent) -> (action: SyncAction)
        ensures
            final(self).searching == old(self).searching,
            (final(self).state, action) == next_step(old(self).state, old(self).searching, event),
    {
        let (state, action) = match (self.state, event) {
            (SyncState::Opening { attempt: _ }, SyncEvent::Opened) => if self.searching {
                (SyncState::Querying, SyncAction::Query)
            } else {
                (SyncState::Finished, SyncAction::Ready)
            },
            (SyncState::Opening { attempt }, SyncEvent::OpenFailed) => (
                SyncState::Reindexing { attempt },
                SyncAction::Reindex,
            ),
            (SyncState::Reindexing { attempt }, SyncEvent::Reindexed)
            | (SyncState::Reindexing { attempt }, SyncEvent::UpsertFailed) => if attempt
                < MAX_OPEN_ATTEMPTS {
                (SyncState::Opening { attempt: attempt + 1 }, SyncAction::OpenIndex)
            } else {
                (SyncState::Finished, SyncAction::Fail(SearchError::IndexUnavailable))
            },
            (SyncState::Reindexing { attempt: _ }, SyncEvent::FetchFailed) => (
                SyncState::Finished,
                SyncAction::Fail(SearchError::FetchFailed),
            ),
            (SyncState::Querying, SyncEvent::Hits) => (SyncState::Finished, SyncAction::Return),
            (SyncState::Querying, SyncEvent::QueryFailed) => (
                SyncState::Finished,
                SyncAction::Fail(SearchError::QueryFailed),
            ),
            _ => (SyncState::Finished, SyncAction::Fail(SearchError::OutOfTurn)),
        };
        self.state = state;
        action
    }
}

/// The actions that a run emits from `state` on, one for each event.
pub open spec fn actions_of(state: SyncState, searching: bool, events: Seq<SyncEvent>) -> Seq<
    SyncAction,
>
    decreases events.len(),
{
    if events.len() == 0 {
        Seq::empty()
    } else {
        let (next, action) = next_step(state, searching, events[0]);
        seq![action] + actions_of(next, searching, events.drop_first())
    }
}

/// The whole of a run: the first action, then one for each event.
pub open spec fn run_actions(configured: bool, searching: bool, events: Seq<SyncEvent>) -> Seq<
    SyncAction,
> {
    seq![first_step(configured).1] + actions_of(first_step(configured).0, searching, events)
}

/// How often `action` occurs among `actions`.
pub open spec fn count_of(actions: Seq<SyncAction>, action: SyncAction) -> nat
    decreases actions.len(),
{
    if actions.len() == 0 {
        0
    } else {
        (if actions[0] == action {
            1nat
        } else {
            0nat
        }) + count_of(actions.drop_first(), action)
    }
}

/// How many openings a run may still ask for from `state` on.
pub open spec fn openings_left(state: SyncState) -> nat {
    match state {
        SyncState::Opening { attempt } => if attempt <= MAX_OPEN_ATTEMPTS {
            (MAX_OPEN_ATTEMPTS - attempt) as nat
        } else {
            0
        },
        SyncState::Reindexing { attempt } => if attempt <= MAX_OPEN_ATTEMPTS {
            (MAX_OPEN_ATTEMPTS - attempt) as nat
        } else {
            0
        },
        _ => 0,
    }
}

/// How many times a run may still index the collection from `state` on.
pub open spec fn reindexings_left(state: SyncState) -> nat {
    match state {
        SyncState::Opening { attempt } => if attempt <= MAX_OPEN_ATTEMPTS {
            (MAX_OPEN_ATTEMPTS - attempt + 1) as nat
        } else {
            1
        },
        SyncState::Reindexing { attempt } => if attempt <= MAX_OPEN_ATTEMPTS {
            (MAX_OPEN_ATTEMPTS - attempt) as nat
        } else {
            0
        },
        _ => 0,
    }
}

/// Splitting the count at the first action.
proof fn lemma_count_cons(first: SyncAction, rest: Seq<SyncAction>, action: SyncAction)
    ensures
        count_of(seq![first] + rest, action) == (if first == action {
            1nat
        } else {
            0nat
        }) + count_of(rest, action),
{
    let all = seq![first] + rest;
    assert(all[0] == first);
    assert(all.drop_first() =~= rest);
}

/// From any state on, a run asks for no more openings and no more indexing
/// than the state leaves room for.
pub proof fn lemma_bounded_from(state: SyncState, searching: bool, events: Seq<SyncEvent>)
    ensures
        count_of(actions_of(state, searching, events), SyncAction::OpenIndex) <= openings_left(
            state,
        ),
        count_of(actions_of(state, searching, events), SyncAction::Reindex) <= reindexings_left(
            state,
        ),
    decreases events.len(),
{
    if events.len() > 0 {
        let (next, action) = next_step(state, searching, events[0]);
        let rest = actions_of(next, searching, events.drop_first());
        lemma_bounded_from(next, searching, events.drop_first());
        lemma_count_cons(action, rest, SyncAction::OpenIndex);
        lemma_count_cons(action, rest, SyncAction::Reindex);
    }
}

/// Bounded retry: whatever the index and the store do, a run opens the
/// index at most `MAX_OPEN_ATTEMPTS` times and indexes the collection at
/// most as often.
pub proof fn lemma_bounded_retry(configured: bool, searching: bool, events: Seq<SyncEvent>)
    ensures
        count_of(run_actions(configured, searching, events), SyncAction::OpenIndex)
            <= MAX_OPEN_ATTEMPTS,
        count_of(run_actions(configured, searching, events), SyncAction::Reindex)
            <= MAX_OPEN_ATTEMPTS,
{
    let (state, action) = first_step(configured);
    let rest = actions_of(state, searching, events);
    lemma_bounded_from(state, searching, events);
    lemma_count_cons(action, rest, SyncAction::OpenIndex);
    lemma_count_cons(action, rest, SyncAction::Reindex);
}

/// Without a backend a run fails at once and never touches the index or
/// the primary store, whatever is reported to it afterwards.
pub proof fn lemma_unconfigured_fails_fast(searching: bool, events: Seq<SyncEvent>)
    ensures
        first_step(false) == (SyncState::Finished, SyncAction::Fail(SearchError::SearchNotConfigured)),
        count_of(run_actions(false, searching, events), SyncAction::OpenIndex) == 0,
        count_of(run_actions(false, searching, events), SyncAction::Reindex) == 0,
        count_of(run_actions(false, searching, events), SyncAction::Query) == 0,
{
    let (state, action) = first_step(false);
    let rest = actions_of(state, searching, events);
    lemma_bounded_from(state, searching, events);
    lemma_finished_is_silent(searching, events, SyncAction::Query);
    lemma_count_cons(action, rest, SyncAction::OpenIndex);
    lemma_count_cons(action, rest, SyncAction::Reindex);
    lemma_count_cons(action, rest, SyncAction::Query);
}

/// Once a run is finished it asks for nothing more: whatever is reported
/// to it, it only answers that the event came out of turn.
pub proof fn lemma_finished_is_silent(
    searching: bool,
    events: Seq<SyncEvent>,
    action: SyncAction,
)
    requires
        action != SyncAction::Fail(SearchError::OutOfTurn),
    ensures
        count_of(actions_of(SyncState::Finished, searching, events), action) == 0,
    decreases events.len(),
{
    if events.len() > 0 {
        let (next, first) = next_step(SyncState::Finished, searching, events[0]);
        let rest = actions_of(next, searching, events.drop_first());
        lemma_finished_is_silent(searching, events.drop_first(), action);
        lemma_count_cons(first, rest, action);
    }
}

/// What is reported to a search whose index opens on the `attempt`-th try:
/// a failure and a cycle of indexing for each try before, then the opening
/// and the hits.
pub open spec fn events_until_open(attempt: nat) -> Seq<SyncEvent>
    decreases attempt,
{
    if attempt <= 1 {
        seq![SyncEvent::Opened, SyncEvent::Hits]
    } else {
        seq![SyncEvent::OpenFailed, SyncEvent::Reindexed] + events_until_open(
            (attempt - 1) as nat,
        )
    }
}

/// From the `tried`-th opening on, a search whose index opens after
/// `more` further failures indexes the collection `more` times, opens the
/// index `more` times again, puts its query once and ends by handing out
/// the hits.
proof fn lemma_opens_later(tried: u8, more: nat)
    requires
        1 <= tried,
        tried + more <= MAX_OPEN_ATTEMPTS,
    ensures
        ({
            let actions = actions_of(
                SyncState::Opening { attempt: tried },
                true,
                events_until_open(more + 1),
            );
            &&& count_of(actions, SyncAction::Reindex) == more
            &&& count_of(actions, SyncAction::OpenIndex) == more
            &&& count_of(actions, SyncAction::Query) == 1
            &&& actions.last() == SyncAction::Return
            &&& actions.len() == 2 * more + 2
        }),
    decreases more,
{
    let state = SyncState::Opening { attempt: tried };
    let events = events_until_open(more + 1);
    if more == 0 {
        reveal_with_fuel(actions_of, 3);
        reveal_with_fuel(count_of, 3);
        assert(events.drop_first() =~= seq![SyncEvent::Hits]);
        assert(events.drop_first().drop_first() =~= Seq::<SyncEvent>::empty());
        let actions = actions_of(state, true, events);
        assert(actions =~= seq![SyncAction::Query, SyncAction::Return]);
        assert(actions.drop_first() =~= seq![SyncAction::Return]);
        assert(actions.drop_first().drop_first() =~= Seq::<SyncAction>::empty());
    } else {
        let rest = events_until_open(more);
        assert(events == seq![SyncEvent::OpenFailed, SyncEvent::Reindexed] + rest);
        assert(events[0] == SyncEvent::OpenFailed);
        assert(events.drop_first()[0] == SyncEvent::Reindexed);
        assert(events.drop_first().drop_first() =~= rest);
        let next = SyncState::Opening { attempt: (tried + 1) as u8 };
        lemma_opens_later((tried + 1) as u8, (more - 1) as nat);
        let tail = actions_of(next, true, rest);
        let middle = actions_of(SyncState::Reindexing { attempt: tried }, true, events.drop_first());
        assert(middle == seq![SyncAction::OpenIndex] + tail);
        let actions = actions_of(state, true, events);
        assert(actions == seq![SyncAction::Reindex] + middle);
        lemma_count_cons(SyncAction::OpenIndex, tail, SyncAction::Reindex);
        lemma_count_cons(SyncAction::OpenIndex, tail, SyncAction::OpenIndex);
        lemma_count_cons(SyncAction::OpenIndex, tail, SyncAction::Query);
        lemma_count_cons(SyncAction::Reindex, middle, SyncAction::Reindex);
        lemma_count_cons(SyncAction::Reindex, middle, SyncAction::OpenIndex);
        lemma_count_cons(SyncAction::Reindex, middle, SyncAction::Query);
        assert(actions.last() == tail.last());
    }
}

/// A search whose index opens on the `attempt`-th try, within the bound,
/// succeeds: it opens the index `attempt` times, reads the collection from
/// the primary store once for each try that failed, and hands out the hits.
pub proof fn lemma_search_succeeds_within_bound(attempt: nat)
    requires
        1 <= attempt <= MAX_OPEN_ATTEMPTS,
    ensures
        ({
            let actions = run_actions(true, true, events_until_open(attempt));
            &&& count_of(actions, SyncAction::OpenIndex) == attempt
            &&& count_of(actions, SyncAction::Reindex) == attempt - 1
            &&& count_of(actions, SyncAction::Query) == 1
            &&& actions.last() == SyncAction::Return
        }),
{
    lemma_opens_later(1, (attempt - 1) as nat);
    let tail = actions_of(SyncState::Opening { attempt: 1 }, true, events_until_open(attempt));
    lemma_count_cons(SyncAction::OpenIndex, tail, SyncAction::OpenIndex);
    lemma_count_cons(SyncAction::OpenIndex, tail, SyncAction::Reindex);
    lemma_count_cons(SyncAction::OpenIndex, tail, SyncAction::Query);
    let actions = run_actions(true, true, events_until_open(attempt));
    assert(actions == seq![SyncAction::OpenIndex] + tail);
    assert(actions.last() == tail.last());
}

/// A search whose index does not open within the bound gives up: after
/// `MAX_OPEN_ATTEMPTS` failures, each followed by a cycle of indexing
/// whether or not the index took the collection, the search fails with
/// `IndexUnavailable` and puts no query.
pub proof fn lemma_index_unavailable_beyond_bound(first: bool, second: bool, third: bool)
    ensures
        ({
            let cycle = |taken: bool|
                if taken {
                    SyncEvent::Reindexed
                } else {
                    SyncEvent::UpsertFailed
                };
            let events = seq![
                SyncEvent::OpenFailed,
                cycle(first),
                SyncEvent::OpenFailed,
                cycle(second),
                SyncEvent::OpenFailed,
                cycle(third),
            ];
            let actions = run_actions(true, true, events);
            &&& actions.last() == SyncAction::Fail(SearchError::IndexUnavailable)
            &&& count_of(actions, SyncAction::Query) == 0
            &&& count_of(actions, SyncAction::OpenIndex) == 3
            &&& count_of(actions, SyncAction::Reindex) == 3
        }),
{
    let cycle = |taken: bool|
        if taken {
            SyncEvent::Reindexed
        } else {
            SyncEvent::UpsertFailed
        };
    let events = seq![
        SyncEvent::OpenFailed,
        cycle(first),
        SyncEvent::OpenFailed,
        cycle(second),
        SyncEvent::OpenFailed,
        cycle(third),
    ];
    let e1 = events.drop_first();
    let e2 = e1.drop_first();
    let e3 = e2.drop_first();
    let e4 = e3.drop_first();
    let e5 = e4.drop_first();
    assert(e5.drop_first() =~= Seq::<SyncEvent>::empty());
    reveal_with_fuel(actions_of, 8);
    let actions = run_actions(true, true, events);
    let expected = seq![
        SyncAction::OpenIndex,
        SyncAction::Reindex,
        SyncAction::OpenIndex,
        SyncAction::Reindex,
        SyncAction::OpenIndex,
        SyncAction::Reindex,
        SyncAction::Fail(SearchError::IndexUnavailable),
    ];
    assert(actions =~= expected);
    let a1 = expected.drop_first();
    let a2 = a1.drop_first();
    let a3 = a2.drop_first();
    let a4 = a3.drop_first();
    let a5 = a4.drop_first();
    let a6 = a5.drop_first();
    assert(a6.drop_first() =~= Seq::<SyncAction>::empty());
    reveal_with_fuel(count_of, 9);
}

/// A query is put to the index only after the index was opened: the action
/// that follows an event is `Query` only if the event is `Opened`.
pub proof fn lemma_query_follows_open(state: SyncState, searching: bool, event: SyncEvent)
    ensures
        next_step(state, searching, event).1 == SyncAction::Query ==> event == SyncEvent::Opened
            && state is Opening && searching,
        next_step(state, searching, event).1 == SyncAction::Reindex ==> event
            == SyncEvent::OpenFailed && state is Opening,
{
}

} // verus!
