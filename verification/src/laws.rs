//! What holds of every fold and every response, whatever the records are.

use crate::action::{ActionHash, ActionRecord};
use crate::activity::{AgentActivityResponse, ChainItemsView, ChainStatus};
use crate::filter::{filtered_records, keeps_order, stands_at};
use crate::framework::{meets, QueryError};
use crate::query::{activity_of, GetAgentActivityQuery, StoredRow};
use crate::state::{
    ascending, first_fork_at, folded, fork_of, forks_at, lemma_step_consistent, tip_at, Item,
    Judged, StateView,
};
use vstd::prelude::*;

verus! {

/// The records' sequence numbers never go down.
pub open spec fn records_ascend(records: Seq<ActionRecord>) -> bool {
    forall|a: int, b: int|
        0 <= a < b < records.len() ==> (#[trigger] records[a]).seq() <= (
        #[trigger] records[b]).seq()
}

/// The pairs' sequence numbers never go down.
pub open spec fn pairs_ascend(pairs: Seq<(u32, ActionHash)>) -> bool {
    forall|a: int, b: int|
        0 <= a < b < pairs.len() ==> (#[trigger] pairs[a]).0 <= (#[trigger] pairs[b]).0
}

/// Every record of `records` sits at a sequence number no higher than `top`.
pub open spec fn none_above(records: Seq<ActionRecord>, top: u32) -> bool {
    forall|k: int| 0 <= k < records.len() ==> (#[trigger] records[k]).seq() <= top
}

/// A fold that starts from a consistent state ends in one; the empty state is
/// consistent, so every fold from it is.
pub proof fn lemma_run_consistent(state: StateView, items: Seq<Judged<Item>>)
    requires
        state.consistent(),
    ensures
        state.run(items).consistent(),
        StateView::empty().consistent(),
    decreases items.len(),
{
    if items.len() > 0 {
        lemma_run_consistent(state, items.drop_last());
        lemma_step_consistent(state.run(items.drop_last()), items.last());
    }
}

/// The three partitions hold, in arrival order, the records of the items that
/// were valid, rejected and pending; items of no such kind leave no trace.
pub proof fn lemma_partitions(items: Seq<Judged<Item>>)
    ensures
        folded(items).valid == items.filter(|i: Judged<Item>| i.is_valid()).map_values(
            |i: Judged<Item>| i.data.record(),
        ),
        folded(items).rejected == items.filter(
            |i: Judged<Item>| i.is_rejected(),
        ).map_values(|i: Judged<Item>| i.data.record()),
        folded(items).pending == items.filter(
            |i: Judged<Item>| i.is_pending(),
        ).map_values(|i: Judged<Item>| i.data.record()),
    decreases items.len(),
{
    reveal(Seq::filter);
    let record = |i: Judged<Item>| i.data.record();
    let valid = |i: Judged<Item>| i.is_valid();
    let rejected = |i: Judged<Item>| i.is_rejected();
    let pending = |i: Judged<Item>| i.is_pending();
    let after = folded(items);
    if items.len() == 0 {
        assert(after.valid =~= items.filter(valid).map_values(record));
        assert(after.rejected =~= items.filter(rejected).map_values(record));
        assert(after.pending =~= items.filter(pending).map_values(record));
    } else {
        lemma_partitions(items.drop_last());
        assert(after.valid =~= items.filter(valid).map_values(record));
        assert(after.rejected =~= items.filter(rejected).map_values(record));
        assert(after.pending =~= items.filter(pending).map_values(record));
    }
}

/// Once the status is decided, no later item changes it, whatever its
/// sequence number; the later records are still taken into their partitions,
/// behind the records that were there.
pub proof fn lemma_status_frozen(state: StateView, later: Seq<Judged<Item>>)
    requires
        state.status is Some,
    ensures
        state.run(later).status == state.status,
        state.run(later).chain_status() == state.status->Some_0,
        state.valid.is_prefix_of(state.run(later).valid),
        state.rejected.is_prefix_of(state.run(later).rejected),
        state.pending.is_prefix_of(state.run(later).pending),
        forall|k: int|
            0 <= k < later.len() && (#[trigger] later[k]).is_valid() ==> state.run(
                later,
            ).valid.contains(later[k].data.record()),
        forall|k: int|
            0 <= k < later.len() && (#[trigger] later[k]).is_rejected() ==> state.run(
                later,
            ).rejected.contains(later[k].data.record()),
    decreases later.len(),
{
    if later.len() > 0 {
        let front = later.drop_last();
        lemma_status_frozen(state, front);
        let before = state.run(front);
        let after = state.run(later);
        assert forall|k: int|
            0 <= k < later.len() && (#[trigger] later[k]).is_valid()
            implies after.valid.contains(later[k].data.record()) by {
            let record = later[k].data.record();
            if k < front.len() {
                assert(front[k] == later[k]);
                let at = choose|at: int| 0 <= at < before.valid.len() && before.valid[at] == record;
                assert(after.valid[at] == record);
            } else {
                assert(after.valid[before.valid.len() as int] == record);
            }
        }
        assert forall|k: int|
            0 <= k < later.len() && (#[trigger] later[k]).is_rejected()
            implies after.rejected.contains(later[k].data.record()) by {
            let record = later[k].data.record();
            if k < front.len() {
                assert(front[k] == later[k]);
                let at = choose|at: int|
                    0 <= at < before.rejected.len() && before.rejected[at] == record;
                assert(after.rejected[at] == record);
            } else {
                assert(after.rejected[before.rejected.len() as int] == record);
            }
        }
    }
}

/// Where no record is integrated, however many are pending, the chain
/// renders as empty.
pub proof fn lemma_empty_chain(items: Seq<Judged<Item>>)
    requires
        forall|k: int| 0 <= k < items.len() ==> (#[trigger] items[k]).data is Pending,
    ensures
        folded(items).chain_status() == ChainStatus::Empty,
        folded(items).valid.len() == 0,
        folded(items).rejected.len() == 0,
        folded(items).pending.len() == items.len(),
    decreases items.len(),
{
    if items.len() > 0 {
        let front = items.drop_last();
        assert forall|k: int| 0 <= k < front.len() implies (#[trigger] front[k]).data
            is Pending by {
            assert(front[k] == items[k]);
        }
        lemma_empty_chain(front);
    }
}

/// Where the items arrive in ascending order, each partition is in ascending
/// order, and none of its records sits above the last item.
pub proof fn lemma_partitions_ascend(items: Seq<Judged<Item>>)
    requires
        ascending(items),
    ensures
        records_ascend(folded(items).valid),
        records_ascend(folded(items).rejected),
        records_ascend(folded(items).pending),
        items.len() > 0 ==> none_above(folded(items).valid, items.last().data.record().seq()),
        items.len() > 0 ==> none_above(
            folded(items).rejected,
            items.last().data.record().seq(),
        ),
        items.len() > 0 ==> none_above(
            folded(items).pending,
            items.last().data.record().seq(),
        ),
    decreases items.len(),
{
    if items.len() > 0 {
        let front = items.drop_last();
        assert(ascending(front)) by {
            assert forall|i: int, j: int| 0 <= i < j < front.len() implies (
            #[trigger] front[i]).data.record().seq() <= (
            #[trigger] front[j]).data.record().seq() by {
                assert(front[i] == items[i] && front[j] == items[j]);
            }
        }
        lemma_partitions_ascend(front);
        if front.len() > 0 {
            let before_last = items[front.len() - 1];
            assert(front.last() == before_last);
            assert(before_last.data.record().seq() <= items[items.len() - 1].data.record().seq());
        }
    }
}

/// Records that keep the order of ascending records ascend themselves, and
/// so do their pairs.
pub proof fn lemma_kept_order_ascends(kept: Seq<ActionRecord>, records: Seq<ActionRecord>)
    requires
        records_ascend(records),
        keeps_order(kept, records),
    ensures
        records_ascend(kept),
        pairs_ascend(activity_of(kept)),
{
    let places = choose|places: Seq<int>| stands_at(kept, records, places);
    assert forall|a: int, b: int| 0 <= a < b < kept.len() implies (#[trigger] kept[a]).seq() <= (
    #[trigger] kept[b]).seq() by {
        assert(places[a] < places[b]);
        assert(kept[a] == records[places[a]] && kept[b] == records[places[b]]);
    }
    let pairs = activity_of(kept);
    assert forall|a: int, b: int| 0 <= a < b < pairs.len() implies (#[trigger] pairs[a]).0 <= (
    #[trigger] pairs[b]).0 by {
        assert(kept[a].seq() <= kept[b].seq());
    }
}

/// Where the store delivers in ascending order and the filter keeps the
/// order of the valid partition, the valid activity of the response is in
/// ascending order: of two entries, the earlier has the lower or the same
/// sequence number.
pub proof fn lemma_valid_activity_ascends(query: &GetAgentActivityQuery, items: Seq<Judged<Item>>)
    requires
        ascending(items),
        query.options().include_valid_activity,
        keeps_order(
            filtered_records(query.filter(), folded(items).valid),
            folded(items).valid,
        ),
    ensures
        query.response(folded(items)).valid_activity is Hashes,
        pairs_ascend(query.response(folded(items)).valid_activity->Hashes_0),
{
    lemma_partitions_ascend(items);
    let valid = folded(items).valid;
    lemma_kept_order_ascends(filtered_records(query.filter(), valid), valid);
}

/// The same for the rejected activity.
pub proof fn lemma_rejected_activity_ascends(
    query: &GetAgentActivityQuery,
    items: Seq<Judged<Item>>,
)
    requires
        ascending(items),
        query.options().include_rejected_activity,
        keeps_order(
            filtered_records(query.filter(), folded(items).rejected),
            folded(items).rejected,
        ),
    ensures
        query.response(folded(items)).rejected_activity is Hashes,
        pairs_ascend(query.response(folded(items)).rejected_activity->Hashes_0),
{
    lemma_partitions_ascend(items);
    let rejected = folded(items).rejected;
    lemma_kept_order_ascends(filtered_records(query.filter(), rejected), rejected);
}

/// A list that was not asked for is marked so, whatever the partition holds,
/// and a list that was asked for is never marked so, even where it is empty.
pub proof fn lemma_gating(query: &GetAgentActivityQuery, state: StateView)
    ensures
        query.response(state).valid_activity is Hashes <==> query.options().include_valid_activity,
        query.response(state).valid_activity == ChainItemsView::NotRequested
            <==> !query.options().include_valid_activity,
        query.response(state).rejected_activity is Hashes
            <==> query.options().include_rejected_activity,
        query.response(state).rejected_activity == ChainItemsView::NotRequested
            <==> !query.options().include_rejected_activity,
{
}

/// Two runs of one query over the same rows end alike: both fail with the
/// same error, or both give responses that agree in every part.
pub proof fn lemma_same_rows_same_response(
    query: &GetAgentActivityQuery,
    rows: Seq<StoredRow>,
    first: Result<AgentActivityResponse, QueryError>,
    second: Result<AgentActivityResponse, QueryError>,
)
    requires
        meets(first, query.answer(rows)),
        meets(second, query.answer(rows)),
    ensures
        first is Ok <==> second is Ok,
        first is Ok ==> first->Ok_0@ == second->Ok_0@,
        first is Err ==> first->Err_0 == second->Err_0,
{
}

/// No two of the records share a sequence number.
pub open spec fn no_shared_seq(records: Seq<ActionRecord>) -> bool {
    forall|a: int, b: int|
        0 <= a < b < records.len() ==> (#[trigger] records[a]).seq() != (
        #[trigger] records[b]).seq()
}

/// With ascending arrival, looking at neighbours finds every fork: the status
/// stays undecided exactly as long as no rejected record is held and no two
/// valid records share a sequence number. The chain then renders as empty or
/// as valid.
pub proof fn lemma_undecided_iff_clean(items: Seq<Judged<Item>>)
    requires
        ascending(items),
    ensures
        folded(items).status is None <==> folded(items).rejected.len()
            == 0 && no_shared_seq(folded(items).valid),
        folded(items).status is None <==> folded(items).chain_status()
            is Empty || folded(items).chain_status() is Valid,
{
    let state = folded(items);
    lemma_run_consistent(StateView::empty(), items);
    lemma_partitions_ascend(items);
    let valid = state.valid;
    match state.status {
        Some(ChainStatus::Forked(fork)) => {
            let i = choose|i: int| #[trigger]
                first_fork_at(valid, i) && fork == fork_of(valid[i + 1], valid[i]);
            assert(forks_at(valid, i));
            assert(valid[i].seq() == valid[i + 1].seq());
        },
        Some(_) => {},
        None => {
            assert forall|a: int, b: int| 0 <= a < b < valid.len() implies (
            #[trigger] valid[a]).seq() != (#[trigger] valid[b]).seq() by {
                assert(!forks_at(valid, a));
                assert(valid[a].seq() <= valid[a + 1].seq());
                if a + 1 < b {
                    assert(valid[a + 1].seq() <= valid[b].seq());
                }
            }
        },
    }
}

/// What the status of a response names: an invalid status the first rejected
/// record, a forked status the first two valid neighbours at one sequence
/// number, the later of the two first, a valid status the last valid record.
/// A chain renders as empty or valid only where no rejected record is held.
pub proof fn lemma_status_names(items: Seq<Judged<Item>>)
    ensures
        match folded(items).chain_status() {
            ChainStatus::Empty => {
                &&& folded(items).valid.len() == 0
                &&& folded(items).rejected.len() == 0
            },
            ChainStatus::Valid(head) => {
                &&& folded(items).valid.len() > 0
                &&& folded(items).rejected.len() == 0
                &&& head == folded(items).valid.last().head()
            },
            ChainStatus::Invalid(head) => {
                &&& folded(items).rejected.len() > 0
                &&& head == folded(items).rejected[0].head()
            },
            ChainStatus::Forked(fork) => exists|i: int| #[trigger]
                first_fork_at(folded(items).valid, i) && fork == fork_of(
                    folded(items).valid[i + 1],
                    folded(items).valid[i],
                ),
        },
{
    lemma_run_consistent(StateView::empty(), items);
}

/// The watermark is absent exactly where no record is held at all. Where it
/// is there, no partition's last record sits above it, one of them sits at
/// it, and it lists one hash for each that does.
pub proof fn lemma_highest_observed(state: StateView)
    ensures
        state.highest_observed() is None <==> state.valid.len() == 0 && state.rejected.len() == 0
            && state.pending.len() == 0,
        state.highest_observed() matches Some(highest) ==> {
            &&& state.valid.len() > 0 ==> state.valid.last().seq() <= highest.action_seq
            &&& state.rejected.len() > 0 ==> state.rejected.last().seq() <= highest.action_seq
            &&& state.pending.len() > 0 ==> state.pending.last().seq() <= highest.action_seq
            &&& 1 <= highest.hash.len() <= 3
            &&& highest.hash.len() == tip_at(state.valid, highest.action_seq).len() + tip_at(
                state.rejected,
                highest.action_seq,
            ).len() + tip_at(state.pending, highest.action_seq).len()
        },
{
}

} // verus!
