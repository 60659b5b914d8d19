use agent_activity::action::{ActionHash, ActionRecord, AgentPubKey};
use agent_activity::activity::{ChainHead, ChainItems, ChainStatus, GetActivityOptions};
use agent_activity::framework::Query;
use agent_activity::query::{hash_pairs, GetAgentActivityQuery};
use agent_activity::state::{Item, Judged, State, ValidationStatus};
use holochain_zome_types::prelude::{
    Action, ActionType, AgentValidationPkg, ChainQueryFilter, ChainQueryFilterRange,
    InitZomesComplete, Timestamp,
};

fn hash(n: u8) -> ActionHash {
    ActionHash([n; 36])
}

fn stored(n: u8) -> holo_hash::ActionHash {
    holo_hash::ActionHash::from_raw_36(vec![n; 36])
}

// The record at `seq`, stored under the hash of `n` bytes, following the
// record stored under the hash of `prev` bytes.
fn record(seq: u32, n: u8, prev: u8) -> ActionRecord {
    ActionRecord {
        action: Action::InitZomesComplete(InitZomesComplete {
            author: holo_hash::AgentPubKey::from_raw_36(vec![9; 36]),
            timestamp: Timestamp::from_micros(0),
            action_seq: seq,
            prev_action: stored(prev),
        }),
        hash: hash(n),
    }
}

fn package(seq: u32, n: u8, prev: u8) -> ActionRecord {
    ActionRecord {
        action: Action::AgentValidationPkg(AgentValidationPkg {
            author: holo_hash::AgentPubKey::from_raw_36(vec![9; 36]),
            timestamp: Timestamp::from_micros(0),
            action_seq: seq,
            prev_action: stored(prev),
            membrane_proof: None,
        }),
        hash: hash(n),
    }
}

fn valid(record: ActionRecord) -> Judged<Item> {
    Judged { data: Item::Integrated(record), status: Some(ValidationStatus::Valid) }
}

fn rejected(record: ActionRecord) -> Judged<Item> {
    Judged { data: Item::Integrated(record), status: Some(ValidationStatus::Rejected) }
}

fn query(filter: ChainQueryFilter) -> GetAgentActivityQuery {
    GetAgentActivityQuery::new(
        AgentPubKey([7; 36]),
        filter,
        GetActivityOptions { include_valid_activity: true, include_rejected_activity: true },
    )
}

fn fold_all(q: &GetAgentActivityQuery, items: Vec<Judged<Item>>) -> State {
    let mut state = q.init_fold().unwrap();
    for item in items {
        state = q.fold(state, item).unwrap();
    }
    state
}

fn chain() -> Vec<Judged<Item>> {
    vec![
        valid(package(1, 1, 0)),
        valid(record(2, 2, 1)),
        rejected(record(3, 3, 2)),
        valid(record(3, 4, 2)),
        valid(record(4, 5, 4)),
    ]
}

#[test]
fn sequence_range_restricts_both_lists() {
    let filter =
        ChainQueryFilter::new().sequence_range(ChainQueryFilterRange::ActionSeqRange(2, 3));
    let q = query(filter);
    let response = q.render(fold_all(&q, chain())).unwrap();
    assert_eq!(response.valid_activity, ChainItems::Hashes(vec![(2, hash(2)), (3, hash(4))]));
    assert_eq!(response.rejected_activity, ChainItems::Hashes(vec![(3, hash(3))]));
    // The filter touches the lists only.
    assert_eq!(response.status, ChainStatus::Invalid(ChainHead { action_seq: 3, hash: hash(3) }));
    assert_eq!(response.highest_observed.unwrap().action_seq, 4);
}

#[test]
fn sequence_range_that_matches_nothing_gives_empty_lists() {
    let filter =
        ChainQueryFilter::new().sequence_range(ChainQueryFilterRange::ActionSeqRange(9, 1));
    let q = query(filter);
    let response = q.render(fold_all(&q, chain())).unwrap();
    assert_eq!(response.valid_activity, ChainItems::Hashes(vec![]));
    assert_eq!(response.rejected_activity, ChainItems::Hashes(vec![]));
}

#[test]
fn action_type_restricts_the_lists() {
    let filter = ChainQueryFilter::new().action_type(ActionType::AgentValidationPkg);
    let q = query(filter);
    let response = q.render(fold_all(&q, chain())).unwrap();
    assert_eq!(response.valid_activity, ChainItems::Hashes(vec![(1, hash(1))]));
    assert_eq!(response.rejected_activity, ChainItems::Hashes(vec![]));
}

#[test]
fn unbounded_filter_keeps_partition_order() {
    let q = query(ChainQueryFilter::new());
    let response = q.render(fold_all(&q, chain())).unwrap();
    assert_eq!(
        response.valid_activity,
        ChainItems::Hashes(vec![(1, hash(1)), (2, hash(2)), (3, hash(4)), (4, hash(5))])
    );
}

#[test]
fn hash_bounded_range_walks_back_from_its_end() {
    let filter = ChainQueryFilter::new()
        .sequence_range(ChainQueryFilterRange::ActionHashRange(stored(2), stored(5)));
    let q = query(filter);
    let response = q.render(fold_all(&q, chain())).unwrap();
    assert_eq!(
        response.valid_activity,
        ChainItems::Hashes(vec![(4, hash(5)), (3, hash(4)), (2, hash(2))])
    );
    // The rejected record at 3 is not on the way back from the end.
    assert_eq!(response.rejected_activity, ChainItems::Hashes(vec![]));
}

#[test]
fn hash_terminated_range_takes_the_end_and_its_predecessors() {
    let filter = ChainQueryFilter::new()
        .sequence_range(ChainQueryFilterRange::ActionHashTerminated(stored(4), 1));
    let q = query(filter);
    let response = q.render(fold_all(&q, chain())).unwrap();
    assert_eq!(response.valid_activity, ChainItems::Hashes(vec![(3, hash(4)), (2, hash(2))]));
}

#[test]
fn pairs_of_records() {
    let records = vec![record(3, 1, 0), package(8, 2, 1), record(8, 3, 1)];
    assert_eq!(hash_pairs(&records), vec![(3, hash(1)), (8, hash(2)), (8, hash(3))]);
    assert_eq!(hash_pairs(&vec![]), vec![]);
}
