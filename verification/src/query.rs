//! The agent-activity query: the activity of one agent's chain and the
//! chain's integrity status, from the records that this node holds.

use crate::action::{ActionHash, ActionRecord, AgentPubKey};
use crate::activity::{
    AgentActivityResponse, AgentActivityResponseView, ChainItems, ChainItemsView,
    GetActivityOptions,
};
use crate::filter::{filter_records, filtered_records};
use crate::framework::{fold_rows, meets, run, run_model, Query, QueryError};
use crate::state::{
    compute_chain_status, compute_highest_observed, folded, Item, Judged, State, StateView,
    ValidationStatus,
};
use holochain_zome_types::prelude::{Action, ChainQueryFilter};
use vstd::prelude::*;

verus! {

/// The selection that the store evaluates: the actions that the agent
/// authored and that are held as chain activity, lowest sequence number first.
pub const ACTIVITY_SQL: &'static str =
    "
            SELECT Action.hash, DhtOp.validation_status, Action.blob AS action_blob,
            DhtOp.when_integrated
            FROM Action
            JOIN DhtOp ON DhtOp.action_hash = Action.hash
            WHERE Action.author = :author
            AND DhtOp.type = :op_type
            ORDER BY Action.seq ASC
        ";

/// One row as the store delivers it, with its blob decoded.
#[derive(Clone, Debug, PartialEq, Eq)]
pub struct StoredRow {
    /// The hash that the action is stored under.
    pub hash: ActionHash,
    /// The outcome of validation, where there is one.
    pub validation_status: Option<ValidationStatus>,
    /// The action that the stored blob holds; `None` where the blob holds no
    /// well-formed action.
    pub action: Option<Action>,
    /// When the operation was integrated, in microseconds; `None` while it
    /// is pending.
    pub when_integrated: Option<i64>,
}

impl Judged<Item> {
    /// The item that a stored record makes: integrated where the store has
    /// an integration time for it, pending otherwise, with the status as
    /// stored.
    pub open spec fn of_row(
        record: ActionRecord,
        validation_status: Option<ValidationStatus>,
        when_integrated: Option<i64>,
    ) -> Judged<Item> {
        Judged {
            data: if when_integrated is Some {
                Item::Integrated(record)
            } else {
                Item::Pending(record)
            },
            status: validation_status,
        }
    }

    /// Tags a stored record as integrated or pending.
    pub fn from_row(
        record: ActionRecord,
        validation_status: Option<ValidationStatus>,
        when_integrated: Option<i64>,
    ) -> (item: Judged<Item>)
        ensures
            item == Self::of_row(record, validation_status, when_integrated),
    {
        let data = if when_integrated.is_some() {
            Item::Integrated(record)
        } else {
            Item::Pending(record)
        };
        Judged { data, status: validation_status }
    }
}

impl StoredRow {
    /// The item that the row projects to, or the error that says that its
    /// blob holds no action.
    pub open spec fn item(self) -> Result<Judged<Item>, QueryError> {
        match self.action {
            Some(action) => Ok(
                Judged::<Item>::of_row(
                    ActionRecord { action, hash: self.hash },
                    self.validation_status,
                    self.when_integrated,
                ),
            ),
            None => Err(QueryError::Decode(self.hash)),
        }
    }
}

/// The items that rows project to, in order, or the error of the first row
/// that projects to none.
pub open spec fn items_of(rows: Seq<StoredRow>) -> Result<Seq<Judged<Item>>, QueryError>
    decreases rows.len(),
{
    if rows.len() == 0 {
        Ok(Seq::empty())
    } else {
        match items_of(rows.drop_last()) {
            Ok(items) => match rows.last().item() {
                Ok(item) => Ok(items.push(item)),
                Err(error) => Err(error),
            },
            Err(error) => Err(error),
        }
    }
}

impl ActionRecord {
    /// The record as an activity list shows it.
    pub open spec fn pair(self) -> (u32, ActionHash) {
        (self.seq(), self.hash)
    }
}

/// The `(sequence number, hash)` pairs of records, in their order.
pub open spec fn activity_of(records: Seq<ActionRecord>) -> Seq<(u32, ActionHash)> {
    Seq::new(records.len(), |i: int| records[i].pair())
}

/// `pair` is the pair of one of the records.
pub open spec fn shows(records: Seq<ActionRecord>, pair: (u32, ActionHash)) -> bool {
    exists|i: int| 0 <= i < records.len() && (#[trigger] records[i]).pair() == pair
}

/// Every pair is the pair of one of the records.
pub open spec fn taken_from(pairs: Seq<(u32, ActionHash)>, records: Seq<ActionRecord>) -> bool {
    forall|k: int| 0 <= k < pairs.len() ==> shows(records, #[trigger] pairs[k])
}

/// Projects records to their `(sequence number, hash)` pairs.
pub fn hash_pairs(records: &Vec<ActionRecord>) -> (pairs: Vec<(u32, ActionHash)>)
    ensures
        pairs@ == activity_of(records@),
{
    let mut pairs: Vec<(u32, ActionHash)> = Vec::new();
    let mut i: usize = 0;
    while i < records.len()
        invariant
            i <= records.len(),
            pairs@ == activity_of(records@.take(i as int)),
        decreases records.len() - i,
    {
        let record = &records[i];
        pairs.push((record.action_seq(), record.hash));
        i = i + 1;
        proof {
            assert(pairs@ =~= activity_of(records@.take(i as int)));
        }
    }
    proof {
        assert(records@.take(i as int) == records@);
    }
    pairs
}

/// A query for the activity of one agent's chain.
#[derive(Clone, Debug)]
pub struct GetAgentActivityQuery {
    agent: AgentPubKey,
    filter: ChainQueryFilter,
    options: GetActivityOptions,
}

impl GetAgentActivityQuery {
    /// The agent whose chain is asked about.
    pub closed spec fn agent(&self) -> AgentPubKey {
        self.agent
    }

    /// The filter that the activity lists go through.
    pub closed spec fn filter(&self) -> ChainQueryFilter {
        self.filter
    }

    /// Which activity lists are asked for.
    pub closed spec fn options(&self) -> GetActivityOptions {
        self.options
    }

    /// A query for the activity of `agent`, with the lists that `options`
    /// asks for, each restricted by `filter`.
    pub fn new(agent: AgentPubKey, filter: ChainQueryFilter, options: GetActivityOptions) -> (query:
        Self)
        ensures
            query.agent() == agent,
            query.filter() == filter,
            query.options() == options,
    {
        Self { agent, filter, options }
    }

    /// One activity list: where it is asked for, the pairs of the records
    /// that the filter keeps, in the filter's order; else the mark that it was
    /// not asked for.
    pub open spec fn listed(&self, requested: bool, records: Seq<ActionRecord>) -> ChainItemsView {
        if requested {
            ChainItemsView::Hashes(activity_of(filtered_records(self.filter(), records)))
        } else {
            ChainItemsView::NotRequested
        }
    }

    /// The response that a final state renders to.
    pub open spec fn response(&self, state: StateView) -> AgentActivityResponseView {
        AgentActivityResponseView {
            agent: self.agent(),
            valid_activity: self.listed(self.options().include_valid_activity, state.valid),
            rejected_activity: self.listed(
                self.options().include_rejected_activity,
                state.rejected,
            ),
            status: state.chain_status(),
            highest_observed: state.highest_observed(),
        }
    }

    /// Renders one activity list from its partition.
    fn list(&self, requested: bool, records: Vec<ActionRecord>) -> (items: ChainItems)
        ensures
            items@ == self.listed(requested, records@),
            items is NotRequested <==> !requested,
            items matches ChainItems::Hashes(pairs) ==> taken_from(pairs@, records@),
    {
        if requested {
            let kept = filter_records(&self.filter, records);
            let pairs = hash_pairs(&kept);
            proof {
                assert forall|k: int| 0 <= k < pairs@.len() implies shows(
                    records@,
                    #[trigger] pairs@[k],
                ) by {
                    assert(records@.contains(kept@[k]));
                    let i = choose|i: int| 0 <= i < records@.len() && records@[i] == kept@[k];
                    assert(records@[i].pair() == pairs@[k]);
                }
            }
            ChainItems::Hashes(pairs)
        } else {
            ChainItems::NotRequested
        }
    }
}

impl GetAgentActivityQuery {
    /// Answers the query from the rows that the store delivered for it, in
    /// their order. A row whose blob does not decode fails the whole query;
    /// otherwise the response is that of the state after all rows.
    pub fn execute(&self, rows: Vec<StoredRow>) -> (r: Result<AgentActivityResponse, QueryError>)
        ensures
            meets(r, self.answer(rows@)),
    {
        proof {
            lemma_fold_rows_is_run(self, rows@);
        }
        run(self, rows)
    }

    /// The outcome that the query owes for `rows`: where every row holds an
    /// action, the response to the state after all of them; else the error
    /// of the first row that holds none.
    pub open spec fn answer(&self, rows: Seq<StoredRow>) -> Result<
        AgentActivityResponseView,
        QueryError,
    > {
        match items_of(rows) {
            Ok(items) => Ok(self.response(folded(items))),
            Err(error) => Err(error),
        }
    }
}

/// Folding rows is running the fold over the items they project to, and fails
/// where the first row projects to none.
pub proof fn lemma_fold_rows_is_run(query: &GetAgentActivityQuery, rows: Seq<StoredRow>)
    ensures
        fold_rows(query, rows) == match items_of(rows) {
            Ok(items) => Ok::<StateView, QueryError>(folded(items)),
            Err(error) => Err(error),
        },
        run_model(query, rows) == query.answer(rows),
    decreases rows.len(),
{
    if rows.len() > 0 {
        lemma_fold_rows_is_run(query, rows.drop_last());
        match (items_of(rows.drop_last()), rows.last().item()) {
            (Ok(items), Ok(item)) => {
                assert(items.push(item).drop_last() == items);
            },
            _ => {},
        }
    }
}

impl Query for GetAgentActivityQuery {
    type Row = StoredRow;

    type Item = Judged<Item>;

    type State = State;

    type Output = AgentActivityResponse;

    open spec fn init_model(&self) -> Result<StateView, QueryError> {
        Ok(StateView::empty())
    }

    open spec fn map_model(&self, row: StoredRow) -> Result<Judged<Item>, QueryError> {
        row.item()
    }

    open spec fn fold_model(&self, state: StateView, item: Judged<Item>) -> Result<
        StateView,
        QueryError,
    > {
        Ok(state.step(item))
    }

    open spec fn render_model(&self, state: StateView) -> Result<
        AgentActivityResponseView,
        QueryError,
    > {
        Ok(self.response(state))
    }

    /// The selection that the store evaluates for this query.
    fn query(&self) -> (sql: String)
        ensures
            sql@ == ACTIVITY_SQL@,
    {
        ACTIVITY_SQL.to_owned()
    }

    /// A fold starts from the state that holds nothing.
    fn init_fold(&self) -> (r: Result<State, QueryError>)
        ensures
            r is Ok,
            r->Ok_0@ == StateView::empty(),
    {
        Ok(State::default())
    }

    /// Projects a row to its item. A row that holds no action fails, and
    /// the error names the hash it is stored under.
    fn map_row(&self, row: StoredRow) -> (r: Result<Judged<Item>, QueryError>)
        ensures
            r == row.item(),
    {
        let StoredRow { hash, validation_status, action, when_integrated } = row;
        match action {
            Some(action) => Ok(
                Judged::<Item>::from_row(
                    ActionRecord { action, hash },
                    validation_status,
                    when_integrated,
                ),
            ),
            None => Err(QueryError::Decode(hash)),
        }
    }

    /// Takes one item into the state: a valid record into the valid
    /// partition, deciding a fork where the record before it there has the
    /// same sequence number; a rejected record into the rejected partition,
    /// deciding the chain invalid; a pending record into the pending
    /// partition. A status once decided stays, and any other item is passed
    /// over.
    fn fold(&self, state: State, item: Judged<Item>) -> (r: Result<State, QueryError>)
        ensures
            r is Ok,
            r->Ok_0@ == state@.step(item),
            state@.status is Some ==> r->Ok_0@.status == state@.status,
    {
        Ok(state.push(item))
    }

    /// Renders the response: the status, the watermark, and each activity
    /// list that was asked for, filtered. A list that was not asked for is
    /// marked so; one that was asked for is a list even where it is empty.
    fn render(&self, state: State) -> (r: Result<AgentActivityResponse, QueryError>)
        ensures
            r is Ok,
            r->Ok_0@ == self.response(state@),
            r->Ok_0.valid_activity is NotRequested <==> !self.options().include_valid_activity,
            r->Ok_0.rejected_activity is NotRequested
                <==> !self.options().include_rejected_activity,
            r->Ok_0.valid_activity matches ChainItems::Hashes(pairs) ==> taken_from(
                pairs@,
                state@.valid,
            ),
            r->Ok_0.rejected_activity matches ChainItems::Hashes(pairs) ==> taken_from(
                pairs@,
                state@.rejected,
            ),
    {
        let highest_observed = compute_highest_observed(&state);
        let status = compute_chain_status(&state);
        let (valid, rejected, _) = state.into_partitions();
        let valid_activity = self.list(self.options.include_valid_activity, valid);
        let rejected_activity = self.list(self.options.include_rejected_activity, rejected);
        Ok(
            AgentActivityResponse {
                agent: self.agent,
                valid_activity,
                rejected_activity,
                status,
                highest_observed,
            },
        )
    }
}

} // verus!
