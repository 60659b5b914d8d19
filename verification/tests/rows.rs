use agent_activity::action::{ActionHash, ActionRecord, AgentPubKey};
use agent_activity::activity::{
    ChainHead, ChainItems, ChainStatus, GetActivityOptions, HighestObserved,
};
use agent_activity::framework::{run, Query, QueryError};
use agent_activity::query::{GetAgentActivityQuery, StoredRow};
use agent_activity::state::{Item, Judged, ValidationStatus};
use holochain_zome_types::prelude::{
    decode, encode, Action, ChainQueryFilter, InitZomesComplete, Signature, SignedAction,
    Timestamp,
};

fn hash(n: u8) -> ActionHash {
    ActionHash([n; 36])
}

fn action(seq: u32) -> Action {
    Action::InitZomesComplete(InitZomesComplete {
        author: holo_hash::AgentPubKey::from_raw_36(vec![9; 36]),
        timestamp: Timestamp::from_micros(1_000),
        action_seq: seq,
        prev_action: holo_hash::ActionHash::from_raw_36(vec![0; 36]),
    })
}

fn blob(seq: u32) -> Vec<u8> {
    encode(&SignedAction::new(action(seq), Signature([5; 64]))).unwrap()
}

// What the edge hands over for a stored blob.
fn decoded(blob: &Vec<u8>) -> Option<Action> {
    decode::<Vec<u8>, SignedAction>(blob).ok().map(|signed| signed.into_data())
}

fn row(seq: u32, n: u8, status: Option<ValidationStatus>, integrated: bool) -> StoredRow {
    StoredRow {
        hash: hash(n),
        validation_status: status,
        action: decoded(&blob(seq)),
        when_integrated: if integrated { Some(1_700_000_000_000_000) } else { None },
    }
}

fn query() -> GetAgentActivityQuery {
    GetAgentActivityQuery::new(
        AgentPubKey([7; 36]),
        ChainQueryFilter::new(),
        GetActivityOptions { include_valid_activity: true, include_rejected_activity: true },
    )
}

#[test]
fn row_with_integration_time_is_integrated() {
    let item = query().map_row(row(3, 1, Some(ValidationStatus::Valid), true)).unwrap();
    assert_eq!(
        item,
        Judged {
            data: Item::Integrated(ActionRecord { action: action(3), hash: hash(1) }),
            status: Some(ValidationStatus::Valid),
        }
    );
}

#[test]
fn row_without_integration_time_is_pending() {
    let item = query().map_row(row(4, 2, None, false)).unwrap();
    assert_eq!(
        item,
        Judged { data: Item::Pending(ActionRecord { action: action(4), hash: hash(2) }), status: None }
    );
    let item = query().map_row(row(4, 2, Some(ValidationStatus::Rejected), false)).unwrap();
    assert_eq!(
        item,
        Judged {
            data: Item::Pending(ActionRecord { action: action(4), hash: hash(2) }),
            status: Some(ValidationStatus::Rejected),
        }
    );
}

#[test]
fn item_of_row_parts() {
    let record = ActionRecord { action: action(6), hash: hash(6) };
    assert_eq!(
        Judged::<Item>::from_row(record.clone(), Some(ValidationStatus::Abandoned), Some(0)),
        Judged { data: Item::Integrated(record.clone()), status: Some(ValidationStatus::Abandoned) }
    );
    assert_eq!(
        Judged::<Item>::from_row(record.clone(), None, None),
        Judged { data: Item::Pending(record), status: None }
    );
}

#[test]
fn row_without_action_is_a_decode_error() {
    let bad = StoredRow {
        hash: hash(8),
        validation_status: Some(ValidationStatus::Valid),
        action: decoded(&vec![0xc1, 0x00, 0xff]),
        when_integrated: Some(1),
    };
    assert_eq!(bad.action, None);
    assert_eq!(query().map_row(bad), Err(QueryError::Decode(hash(8))));
}

#[test]
fn execute_answers_from_rows() {
    let rows = vec![
        row(1, 1, Some(ValidationStatus::Valid), true),
        row(2, 2, Some(ValidationStatus::Valid), true),
        row(3, 3, Some(ValidationStatus::Valid), true),
        row(4, 4, None, false),
    ];
    let response = query().execute(rows).unwrap();
    assert_eq!(response.agent, AgentPubKey([7; 36]));
    assert_eq!(response.status, ChainStatus::Valid(ChainHead { action_seq: 3, hash: hash(3) }));
    assert_eq!(
        response.valid_activity,
        ChainItems::Hashes(vec![(1, hash(1)), (2, hash(2)), (3, hash(3))])
    );
    assert_eq!(response.rejected_activity, ChainItems::Hashes(vec![]));
    assert_eq!(
        response.highest_observed,
        Some(HighestObserved { action_seq: 4, hash: vec![hash(4)] })
    );
}

#[test]
fn one_corrupt_row_fails_the_whole_query() {
    let mut rows = vec![
        row(1, 1, Some(ValidationStatus::Valid), true),
        row(2, 2, Some(ValidationStatus::Rejected), true),
        row(3, 3, Some(ValidationStatus::Valid), true),
        row(4, 4, Some(ValidationStatus::Valid), true),
    ];
    rows[1].action = None;
    rows[3].action = None;
    // The first row without an action names the error.
    assert_eq!(query().execute(rows.clone()), Err(QueryError::Decode(hash(2))));
    assert_eq!(run(&query(), rows), Err(QueryError::Decode(hash(2))));
}

#[test]
fn same_rows_give_the_same_response() {
    let rows = vec![
        row(1, 1, Some(ValidationStatus::Valid), true),
        row(2, 2, Some(ValidationStatus::Rejected), true),
        row(2, 3, Some(ValidationStatus::Valid), true),
        row(2, 4, Some(ValidationStatus::Valid), true),
        row(5, 5, None, false),
    ];
    let q = query();
    let first = q.execute(rows.clone()).unwrap();
    let second = q.execute(rows.clone()).unwrap();
    assert_eq!(first, second);
    let third = run(&q, rows).unwrap();
    assert_eq!(first, third);
    assert_eq!(first.status, ChainStatus::Invalid(ChainHead { action_seq: 2, hash: hash(2) }));
}

#[test]
fn run_without_rows_is_the_empty_response() {
    let response = run(&query(), vec![]).unwrap();
    assert_eq!(response.status, ChainStatus::Empty);
    assert_eq!(response.highest_observed, None);
    assert_eq!(response.valid_activity, ChainItems::Hashes(vec![]));
}
