//! The activity filter: which records of a partition a caller wants listed.

use crate::action::{ActionHash, ActionRecord};
use holo_hash::ActionHash as HoloActionHash;
use holochain_zome_types::prelude::{ActionHashed, ChainQueryFilter};
use vstd::prelude::*;

verus! {

/// The filter of a chain query, as `holochain_zome_types` defines it. It is
/// carried to the call that applies it and read nowhere else.
#[verifier::external_type_specification]
#[verifier::external_body]
pub struct ExChainQueryFilter(ChainQueryFilter);

/// `ChainQueryFilter` derives `Clone`: a clone is the filter itself.
pub assume_specification[ <ChainQueryFilter as Clone>::clone ](filter: &ChainQueryFilter) -> (copy:
    ChainQueryFilter)
    ensures
        copy == *filter,
;

/// The records that `filter` keeps of `records`, in the order in which it
/// hands them out.
pub uninterp spec fn filtered_records(filter: ChainQueryFilter, records: Seq<ActionRecord>) -> Seq<
    ActionRecord,
>;

/// Applies `ChainQueryFilter::filter_actions` to `records`. The filter decides
/// by its own fields and by the actions and hashes it is given, and by nothing
/// else, so what it keeps is named by `filtered_records`. It builds its result
/// out of the actions it is given: it keeps or drops, and may reorder, but
/// makes up none. Each record goes in as a hashed action with the same action
/// and the same 36 hash bytes, and comes back the same way.
#[verifier::external_body]
pub(crate) fn filter_records(filter: &ChainQueryFilter, records: Vec<ActionRecord>) -> (kept: Vec<
    ActionRecord,
>)
    ensures
        kept@ == filtered_records(*filter, records@),
        forall|k: int| 0 <= k < kept@.len() ==> records@.contains(#[trigger] kept@[k]),
{
    let hashed = records.into_iter().map(|r| {
        ActionHashed::with_pre_hashed(r.action, HoloActionHash::from_raw_36(r.hash.0.to_vec()))
    }).collect();
    filter.filter_actions::<ActionHashed>(hashed).into_iter().map(|h| {
        ActionRecord { hash: ActionHash(h.hash.get_raw_36().try_into().unwrap()), action: h.content }
    }).collect()
}

/// `kept` holds records of `records` without changing their order: there are
/// places in `records`, each after the one before, where its records stand.
pub open spec fn keeps_order(kept: Seq<ActionRecord>, records: Seq<ActionRecord>) -> bool {
    exists|places: Seq<int>| stands_at(kept, records, places)
}

/// `places` gives, for each record of `kept`, a place in `records` where it
/// stands, and the places go up.
pub open spec fn stands_at(
    kept: Seq<ActionRecord>,
    records: Seq<ActionRecord>,
    places: Seq<int>,
) -> bool {
    &&& places.len() == kept.len()
    &&& forall|k: int|
        0 <= k < kept.len() ==> 0 <= #[trigger] places[k] < records.len() && kept[k]
            == records[places[k]]
    &&& forall|k: int, l: int|
        0 <= k < l < kept.len() ==> #[trigger] places[k] < #[trigger] places[l]
}

} // verus!
