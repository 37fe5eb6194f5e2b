use listings_api::search::{
    SearchError, SyncAction, SyncEvent, SyncState, Synchronizer, MAX_OPEN_ATTEMPTS,
};

/// An index that cannot be opened for a number of attempts, in front of a
/// store that counts how often it is read.
struct World {
    opens_that_fail: u32,
    opens: u32,
    fetches: u32,
    fetch_fails: bool,
    upsert_fails: bool,
    query_fails: bool,
}

impl World {
    fn new(opens_that_fail: u32) -> Self {
        World {
            opens_that_fail,
            opens: 0,
            fetches: 0,
            fetch_fails: false,
            upsert_fails: false,
            query_fails: false,
        }
    }
}

fn run(start: (Synchronizer, SyncAction), world: &mut World) -> SyncAction {
    let (mut sync, mut action) = start;
    loop {
        let event = match action {
            SyncAction::OpenIndex => {
                world.opens += 1;
                if world.opens > world.opens_that_fail {
                    SyncEvent::Opened
                } else {
                    SyncEvent::OpenFailed
                }
            }
            SyncAction::Reindex => {
                world.fetches += 1;
                if world.fetch_fails {
                    SyncEvent::FetchFailed
                } else if world.upsert_fails {
                    SyncEvent::UpsertFailed
                } else {
                    SyncEvent::Reindexed
                }
            }
            SyncAction::Query => {
                if world.query_fails {
                    SyncEvent::QueryFailed
                } else {
                    SyncEvent::Hits
                }
            }
            end => {
                assert!(sync.is_finished());
                return end;
            }
        };
        assert!(!sync.is_finished());
        action = sync.step(event);
    }
}

#[test]
fn search_without_backend_fails_fast() {
    let mut world = World::new(0);
    let end = run(Synchronizer::search(false), &mut world);
    assert_eq!(end, SyncAction::Fail(SearchError::SearchNotConfigured));
    assert_eq!(world.opens, 0);
    assert_eq!(world.fetches, 0);
}

#[test]
fn ensure_fresh_without_backend_fails_fast() {
    let mut world = World::new(0);
    let end = run(Synchronizer::ensure_fresh(false), &mut world);
    assert_eq!(end, SyncAction::Fail(SearchError::SearchNotConfigured));
    assert_eq!(world.opens, 0);
    assert_eq!(world.fetches, 0);
}

#[test]
fn index_opens_at_once() {
    let mut world = World::new(0);
    let end = run(Synchronizer::search(true), &mut world);
    assert_eq!(end, SyncAction::Return);
    assert_eq!(world.opens, 1);
    assert_eq!(world.fetches, 0);
}

#[test]
fn third_attempt_succeeds_after_two_reindex_cycles() {
    let mut world = World::new(2);
    let end = run(Synchronizer::search(true), &mut world);
    assert_eq!(end, SyncAction::Return);
    assert_eq!(world.opens, 3);
    assert_eq!(world.fetches, 2);
}

#[test]
fn index_unavailable_after_the_bound() {
    let mut world = World::new(u32::MAX);
    let end = run(Synchronizer::search(true), &mut world);
    assert_eq!(end, SyncAction::Fail(SearchError::IndexUnavailable));
    assert_eq!(world.opens, 3);
    assert_eq!(world.fetches, 3);
    assert_eq!(MAX_OPEN_ATTEMPTS, 3);
}

#[test]
fn store_failure_ends_the_search() {
    let mut world = World::new(2);
    world.fetch_fails = true;
    let end = run(Synchronizer::search(true), &mut world);
    assert_eq!(end, SyncAction::Fail(SearchError::FetchFailed));
    assert_eq!(world.opens, 1);
    assert_eq!(world.fetches, 1);
}

#[test]
fn index_refusing_documents_does_not_end_the_search() {
    let mut world = World::new(1);
    world.upsert_fails = true;
    let end = run(Synchronizer::search(true), &mut world);
    assert_eq!(end, SyncAction::Return);
    assert_eq!(world.opens, 2);
    assert_eq!(world.fetches, 1);
}

#[test]
fn query_failure_is_reported() {
    let mut world = World::new(0);
    world.query_fails = true;
    let end = run(Synchronizer::search(true), &mut world);
    assert_eq!(end, SyncAction::Fail(SearchError::QueryFailed));
}

#[test]
fn ensure_fresh_hands_out_the_index() {
    let mut world = World::new(1);
    let end = run(Synchronizer::ensure_fresh(true), &mut world);
    assert_eq!(end, SyncAction::Ready);
    assert_eq!(world.opens, 2);
    assert_eq!(world.fetches, 1);
}

#[test]
fn search_steps_in_order() {
    let (mut sync, action) = Synchronizer::search(true);
    assert_eq!(action, SyncAction::OpenIndex);
    assert_eq!(sync.state, SyncState::Opening { attempt: 1 });
    assert_eq!(sync.step(SyncEvent::OpenFailed), SyncAction::Reindex);
    assert_eq!(sync.state, SyncState::Reindexing { attempt: 1 });
    assert_eq!(sync.step(SyncEvent::Reindexed), SyncAction::OpenIndex);
    assert_eq!(sync.state, SyncState::Opening { attempt: 2 });
    assert_eq!(sync.step(SyncEvent::Opened), SyncAction::Query);
    assert_eq!(sync.state, SyncState::Querying);
    assert_eq!(sync.step(SyncEvent::Hits), SyncAction::Return);
    assert_eq!(sync.state, SyncState::Finished);
}

#[test]
fn search_event_out_of_turn_ends_the_run() {
    let (mut sync, _) = Synchronizer::search(true);
    assert_eq!(
        sync.step(SyncEvent::Hits),
        SyncAction::Fail(SearchError::OutOfTurn)
    );
    assert!(sync.is_finished());
    assert_eq!(
        sync.step(SyncEvent::Opened),
        SyncAction::Fail(SearchError::OutOfTurn)
    );
    let (mut sync, _) = Synchronizer::search(false);
    assert_eq!(
        sync.step(SyncEvent::OpenFailed),
        SyncAction::Fail(SearchError::OutOfTurn)
    );
}
