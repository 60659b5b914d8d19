//! The fold over judged items: three partitions of records, and the chain
//! status that is decided the first time a fork or a rejected action shows.

use crate::action::{ActionHash, ActionRecord};
use crate::activity::{ChainFork, ChainHead, ChainStatus, HighestObserved, HighestObservedView};
use vstd::prelude::*;

verus! {

/// The outcome of validating a stored operation.
#[derive(Clone, Copy, Debug, PartialEq, Eq)]
pub enum ValidationStatus {
    Valid,
    Rejected,
    Abandoned,
}

/// A record, tagged by whether its operation has been integrated.
#[derive(Clone, Debug, PartialEq, Eq)]
pub enum Item {
    Integrated(ActionRecord),
    Pending(ActionRecord),
}

/// Data together with the validation status it was stored with, if any.
#[derive(Clone, Debug, PartialEq, Eq)]
pub struct Judged<T> {
    pub data: T,
    pub status: Option<ValidationStatus>,
}

impl Item {
    /// The record that the item carries.
    pub open spec fn record(self) -> ActionRecord {
        match self {
            Item::Integrated(record) => record,
            Item::Pending(record) => record,
        }
    }
}

impl Item {
    /// The record that the item carries.
    pub fn as_record(&self) -> (record: &ActionRecord)
        ensures
            *record == self.record(),
    {
        match self {
            Item::Integrated(record) => record,
            Item::Pending(record) => record,
        }
    }
}

impl Judged<Item> {
    /// An integrated record that validation accepted.
    pub open spec fn is_valid(self) -> bool {
        self.data is Integrated && self.status == Some(ValidationStatus::Valid)
    }

    /// An integrated record that validation rejected.
    pub open spec fn is_rejected(self) -> bool {
        self.data is Integrated && self.status == Some(ValidationStatus::Rejected)
    }

    /// A record that is not integrated yet, whatever its status says.
    pub open spec fn is_pending(self) -> bool {
        self.data is Pending
    }
}

impl ActionRecord {
    /// The record as the head of a chain.
    pub open spec fn head(self) -> ChainHead {
        ChainHead { action_seq: self.seq(), hash: self.hash }
    }
}

/// The fork that `incoming` makes with `previous`, the valid record held just
/// before it.
pub open spec fn fork_of(incoming: ActionRecord, previous: ActionRecord) -> ChainFork {
    ChainFork {
        fork_seq: incoming.seq(),
        first_action: incoming.hash,
        second_action: previous.hash,
    }
}

/// The records at `i` and `i + 1` share a sequence number.
pub open spec fn forks_at(records: Seq<ActionRecord>, i: int) -> bool {
    0 <= i && i + 1 < records.len() && records[i].seq() == records[i + 1].seq()
}

/// `i` is the first place where two neighbours share a sequence number.
pub open spec fn first_fork_at(records: Seq<ActionRecord>, i: int) -> bool {
    &&& forks_at(records, i)
    &&& forall|j: int| 0 <= j < i ==> !#[trigger] forks_at(records, j)
}

/// The hash of the last record, where that record sits at sequence number
/// `top`; nothing otherwise.
pub open spec fn tip_at(records: Seq<ActionRecord>, top: u32) -> Seq<ActionHash> {
    if records.len() > 0 && records.last().seq() == top {
        seq![records.last().hash]
    } else {
        Seq::empty()
    }
}

/// The greater of `top` and the sequence number of the last record.
pub open spec fn raise_to_tip(top: Option<u32>, records: Seq<ActionRecord>) -> Option<u32> {
    if records.len() == 0 {
        top
    } else {
        match top {
            Some(seq) if seq >= records.last().seq() => top,
            _ => Some(records.last().seq()),
        }
    }
}

/// The items arrive with sequence numbers that never go down.
pub open spec fn ascending(items: Seq<Judged<Item>>) -> bool {
    forall|i: int, j: int|
        0 <= i < j < items.len() ==> (#[trigger] items[i]).data.record().seq() <= (
        #[trigger] items[j]).data.record().seq()
}

/// Tells whether items arrive in ascending order, as a store must deliver
/// them for neighbours in the valid partition to show every fork.
pub fn arrive_in_order(items: &Vec<Judged<Item>>) -> (in_order: bool)
    ensures
        in_order == ascending(items@),
{
    if items.len() < 2 {
        return true;
    }
    let mut k: usize = 1;
    while k < items.len()
        invariant
            1 <= k <= items.len(),
            ascending(items@.take(k as int)),
        decreases items.len() - k,
    {
        if items[k - 1].data.as_record().action_seq() > items[k].data.as_record().action_seq() {
            return false;
        }
        proof {
            let seen = items@.take(k as int);
            let more = items@.take(k + 1);
            assert forall|i: int, j: int| 0 <= i < j < more.len() implies (
            #[trigger] more[i]).data.record().seq() <= (#[trigger] more[j]).data.record().seq() by {
                if j < k {
                    assert(seen[i] == more[i] && seen[j] == more[j]);
                } else if i < k - 1 {
                    assert(seen[i] == more[i] && seen[k - 1] == more[k - 1]);
                }
            }
        }
        k = k + 1;
    }
    proof {
        assert(items@.take(k as int) == items@);
    }
    true
}

/// What a fold has accumulated.
pub struct StateView {
    pub valid: Seq<ActionRecord>,
    pub rejected: Seq<ActionRecord>,
    pub pending: Seq<ActionRecord>,
    pub status: Option<ChainStatus>,
}

impl StateView {
    /// The state before any item.
    pub open spec fn empty() -> StateView {
        StateView {
            valid: Seq::empty(),
            rejected: Seq::empty(),
            pending: Seq::empty(),
            status: None,
        }
    }

    /// The state after one more item.
    pub open spec fn step(self, item: Judged<Item>) -> StateView {
        if item.is_pending() {
            StateView { pending: self.pending.push(item.data.record()), ..self }
        } else if item.is_valid() {
            let record = item.data.record();
            StateView {
                valid: self.valid.push(record),
                status: if self.status is None && self.valid.len() > 0 && self.valid.last().seq()
                    == record.seq() {
                    Some(ChainStatus::Forked(fork_of(record, self.valid.last())))
                } else {
                    self.status
                },
                ..self
            }
        } else if item.is_rejected() {
            let record = item.data.record();
            StateView {
                rejected: self.rejected.push(record),
                status: if self.status is None {
                    Some(ChainStatus::Invalid(record.head()))
                } else {
                    self.status
                },
                ..self
            }
        } else {
            self
        }
    }

    /// The state after `items`, taken in order.
    pub open spec fn run(self, items: Seq<Judged<Item>>) -> StateView
        decreases items.len(),
    {
        if items.len() == 0 {
            self
        } else {
            self.run(items.drop_last()).step(items.last())
        }
    }

    /// What holds of every state that a fold can reach: the status is decided
    /// exactly when a rejected record or a fork is held, an invalid status
    /// names the first rejected record, and a forked status names the first
    /// two valid neighbours that share a sequence number.
    pub open spec fn consistent(self) -> bool {
        match self.status {
            None => self.rejected.len() == 0 && forall|j: int| !#[trigger] forks_at(self.valid, j),
            Some(ChainStatus::Invalid(head)) => self.rejected.len() > 0 && head
                == self.rejected[0].head(),
            Some(ChainStatus::Forked(fork)) => exists|i: int| #[trigger]
                first_fork_at(self.valid, i) && fork == fork_of(self.valid[i + 1], self.valid[i]),
            _ => false,
        }
    }

    /// The status that the state renders to.
    pub open spec fn chain_status(self) -> ChainStatus {
        match self.status {
            Some(status) => status,
            None => if self.valid.len() == 0 && self.rejected.len() == 0 {
                ChainStatus::Empty
            } else {
                ChainStatus::Valid(self.valid.last().head())
            },
        }
    }

    /// The highest sequence number among the last records of the three
    /// partitions, if any partition holds a record.
    pub open spec fn highest_seq(self) -> Option<u32> {
        raise_to_tip(raise_to_tip(raise_to_tip(None, self.valid), self.rejected), self.pending)
    }

    /// The highest sequence number seen, with the hashes of the last records
    /// that sit at it: valid first, then rejected, then pending.
    pub open spec fn highest_observed(self) -> Option<HighestObservedView> {
        match self.highest_seq() {
            None => None,
            Some(top) => Some(
                HighestObservedView {
                    action_seq: top,
                    hash: tip_at(self.valid, top) + tip_at(self.rejected, top) + tip_at(
                        self.pending,
                        top,
                    ),
                },
            ),
        }
    }
}

/// The state after a fold of `items` from the empty state.
pub open spec fn folded(items: Seq<Judged<Item>>) -> StateView {
    StateView::empty().run(items)
}

/// A step keeps a state consistent.
pub proof fn lemma_step_consistent(state: StateView, item: Judged<Item>)
    requires
        state.consistent(),
    ensures
        state.step(item).consistent(),
{
    let next = state.step(item);
    if item.is_valid() {
        let held = state.valid.len() as int;
        match state.status {
            None => {
                // Whether or not the new record forks, no earlier neighbours do.
                assert forall|j: int| 0 <= j < held - 1 implies !#[trigger] forks_at(
                    next.valid,
                    j,
                ) by {
                    assert(!forks_at(state.valid, j));
                }
                if forks_at(next.valid, held - 1) {
                    assert(first_fork_at(next.valid, held - 1));
                }
            },
            Some(ChainStatus::Forked(fork)) => {
                // The first fork stays where it was.
                let i = choose|i: int| #[trigger]
                    first_fork_at(state.valid, i) && fork == fork_of(
                        state.valid[i + 1],
                        state.valid[i],
                    );
                assert(forks_at(next.valid, i));
                assert forall|j: int| 0 <= j < i implies !#[trigger] forks_at(next.valid, j) by {
                    assert(!forks_at(state.valid, j));
                }
                assert(first_fork_at(next.valid, i));
            },
            _ => {},
        }
    } else {
        assert(next.valid == state.valid);
    }
}

/// Takes the last record of one partition into the running maximum: a
/// greater sequence number replaces the hashes, an equal one adds its hash,
/// a lesser one changes nothing.
fn note_tip(top: &mut Option<u32>, hashes: &mut Vec<ActionHash>, seq: u32, hash: ActionHash)
    ensures
        match *old(top) {
            None => *final(top) == Some(seq) && final(hashes)@ == old(hashes)@.push(hash),
            Some(held) => if seq < held {
                *final(top) == *old(top) && final(hashes)@ == old(hashes)@
            } else if seq == held {
                *final(top) == *old(top) && final(hashes)@ == old(hashes)@.push(hash)
            } else {
                *final(top) == Some(seq) && final(hashes)@ == seq![hash]
            },
        },
{
    match *top {
        None => {
            *top = Some(seq);
            hashes.push(hash);
        },
        Some(held) => {
            if seq == held {
                hashes.push(hash);
            } else if seq > held {
                hashes.clear();
                hashes.push(hash);
                *top = Some(seq);
            }
        },
    }
}

/// The accumulated state of one query execution.
#[derive(Debug)]
pub struct State {
    valid: Vec<ActionRecord>,
    rejected: Vec<ActionRecord>,
    pending: Vec<ActionRecord>,
    status: Option<ChainStatus>,
}

impl View for State {
    type V = StateView;

    closed spec fn view(&self) -> StateView {
        StateView {
            valid: self.valid@,
            rejected: self.rejected@,
            pending: self.pending@,
            status: self.status,
        }
    }
}

impl State {
    #[verifier::type_invariant]
    spec fn reachable(&self) -> bool {
        self@.consistent()
    }

    /// Takes one more item into the state.
    pub fn push(self, item: Judged<Item>) -> (next: State)
        ensures
            next@ == self@.step(item),
            next@.consistent(),
    {
        proof {
            use_type_invariant(&self);
            lemma_step_consistent(self@, item);
        }
        let ghost before = self@;
        let State { mut valid, mut rejected, mut pending, mut status } = self;
        match (item.status, item.data) {
            (Some(ValidationStatus::Valid), Item::Integrated(record)) => {
                let seq = record.action_seq();
                if status.is_none() {
                    let held = valid.len();
                    if held > 0 && valid[held - 1].action_seq() == seq {
                        status = Some(
                            ChainStatus::Forked(
                                ChainFork {
                                    fork_seq: seq,
                                    first_action: record.hash,
                                    second_action: valid[held - 1].hash,
                                },
                            ),
                        );
                    }
                }
                valid.push(record);
            },
            (Some(ValidationStatus::Rejected), Item::Integrated(record)) => {
                if status.is_none() {
                    status = Some(
                        ChainStatus::Invalid(
                            ChainHead { action_seq: record.action_seq(), hash: record.hash },
                        ),
                    );
                }
                rejected.push(record);
            },
            (_, Item::Pending(record)) => {
                pending.push(record);
            },
            _ => {},
        }
        proof {
            let ghost after = StateView {
                valid: valid@,
                rejected: rejected@,
                pending: pending@,
                status,
            };
            assert(after == before.step(item));
        }
        State { valid, rejected, pending, status }
    }

    /// The valid records taken so far, in arrival order.
    pub fn valid(&self) -> (records: &Vec<ActionRecord>)
        ensures
            records@ == self@.valid,
    {
        &self.valid
    }

    /// The rejected records taken so far, in arrival order.
    pub fn rejected(&self) -> (records: &Vec<ActionRecord>)
        ensures
            records@ == self@.rejected,
    {
        &self.rejected
    }

    /// The pending records taken so far, in arrival order.
    pub fn pending(&self) -> (records: &Vec<ActionRecord>)
        ensures
            records@ == self@.pending,
    {
        &self.pending
    }

    /// The status that the fold has decided, if it has decided one.
    pub fn decided(&self) -> (status: Option<ChainStatus>)
        ensures
            status == self@.status,
    {
        self.status
    }

    /// Gives up the state for its three partitions: valid, rejected, pending.
    pub fn into_partitions(self) -> (parts: (
        Vec<ActionRecord>,
        Vec<ActionRecord>,
        Vec<ActionRecord>,
    ))
        ensures
            parts.0@ == self@.valid,
            parts.1@ == self@.rejected,
            parts.2@ == self@.pending,
    {
        let State { valid, rejected, pending, status: _ } = self;
        (valid, rejected, pending)
    }
}

impl Default for State {
    /// The state before any item.
    fn default() -> (state: State)
        ensures
            state@ == StateView::empty(),
            state@.consistent(),
    {
        State { valid: Vec::new(), rejected: Vec::new(), pending: Vec::new(), status: None }
    }
}

/// The status that a state renders to: the decided one where there is one,
/// else `Empty` where no integrated record is held, else `Valid` with the last
/// valid record as its head.
pub fn compute_chain_status(state: &State) -> (status: ChainStatus)
    ensures
        status == state@.chain_status(),
{
    proof {
        use_type_invariant(state);
    }
    match state.status {
        Some(status) => status,
        None => {
            if state.valid.len() == 0 && state.rejected.len() == 0 {
                ChainStatus::Empty
            } else {
                let last = &state.valid[state.valid.len() - 1];
                ChainStatus::Valid(ChainHead { action_seq: last.action_seq(), hash: last.hash })
            }
        },
    }
}

/// The highest sequence number among the last records of the three
/// partitions, with the hashes of those last records that sit at it, in the
/// order valid, rejected, pending; `None` where nothing is held.
pub fn compute_highest_observed(state: &State) -> (highest: Option<HighestObserved>)
    ensures
        highest is Some <==> state@.highest_observed() is Some,
        highest is Some ==> Some(highest->Some_0@) == state@.highest_observed(),
{
    let mut top: Option<u32> = None;
    let mut hashes: Vec<ActionHash> = Vec::new();
    if state.valid.len() > 0 {
        let last = &state.valid[state.valid.len() - 1];
        note_tip(&mut top, &mut hashes, last.action_seq(), last.hash);
    }
    if state.rejected.len() > 0 {
        let last = &state.rejected[state.rejected.len() - 1];
        note_tip(&mut top, &mut hashes, last.action_seq(), last.hash);
    }
    if state.pending.len() > 0 {
        let last = &state.pending[state.pending.len() - 1];
        note_tip(&mut top, &mut hashes, last.action_seq(), last.hash);
    }
    match top {
        Some(action_seq) => {
            proof {
                assert(hashes@ =~= tip_at(state@.valid, action_seq) + tip_at(
                    state@.rejected,
                    action_seq,
                ) + tip_at(state@.pending, action_seq));
            }
            Some(HighestObserved { action_seq, hash: hashes })
        },
        None => None,
    }
}

} // verus!
