//! What an authority answers about an agent's chain: the chain's status, the
//! furthest point it has seen, and the activity lists that were asked for.

use crate::action::{ActionHash, AgentPubKey};
use vstd::prelude::*;

verus! {

/// The action at the head of a chain: its sequence number and its hash.
#[derive(Clone, Copy, Debug, PartialEq, Eq, Hash)]
pub struct ChainHead {
    pub action_seq: u32,
    pub hash: ActionHash,
}

/// Two valid actions that claim one sequence number.
#[derive(Clone, Copy, Debug, PartialEq, Eq, Hash)]
pub struct ChainFork {
    /// The sequence number that both actions claim.
    pub fork_seq: u32,
    /// The action that arrived later.
    pub first_action: ActionHash,
    /// The action that was already held when the later one arrived.
    pub second_action: ActionHash,
}

/// The integrity status of an agent's chain.
#[derive(Clone, Copy, Debug, PartialEq, Eq, Hash)]
pub enum ChainStatus {
    /// No integrated action is held.
    Empty,
    /// Nothing inconsistent was seen; the head is the last valid action.
    Valid(ChainHead),
    /// Two valid actions share a sequence number.
    Forked(ChainFork),
    /// An integrated action was rejected; the head is the first such action.
    Invalid(ChainHead),
}

/// The highest sequence number seen in any partition, with the hashes of the
/// actions seen at it.
#[derive(Clone, Debug, PartialEq, Eq, Hash)]
pub struct HighestObserved {
    pub action_seq: u32,
    pub hash: Vec<ActionHash>,
}

pub struct HighestObservedView {
    pub action_seq: u32,
    pub hash: Seq<ActionHash>,
}

impl View for HighestObserved {
    type V = HighestObservedView;

    open spec fn view(&self) -> HighestObservedView {
        HighestObservedView { action_seq: self.action_seq, hash: self.hash@ }
    }
}

/// One activity list of a response: the `(sequence, hash)` pairs that passed
/// the filter, or the mark that the list was not asked for.
#[derive(Clone, Debug, PartialEq, Eq, Hash)]
pub enum ChainItems {
    Hashes(Vec<(u32, ActionHash)>),
    NotRequested,
}

pub enum ChainItemsView {
    Hashes(Seq<(u32, ActionHash)>),
    NotRequested,
}

impl View for ChainItems {
    type V = ChainItemsView;

    open spec fn view(&self) -> ChainItemsView {
        match self {
            ChainItems::Hashes(pairs) => ChainItemsView::Hashes(pairs@),
            ChainItems::NotRequested => ChainItemsView::NotRequested,
        }
    }
}

/// Which activity lists a caller wants in the response.
#[derive(Clone, Copy, Debug, PartialEq, Eq)]
pub struct GetActivityOptions {
    pub include_valid_activity: bool,
    pub include_rejected_activity: bool,
}

/// The answer to an agent-activity query.
#[derive(Clone, Debug, PartialEq, Eq)]
pub struct AgentActivityResponse {
    pub agent: AgentPubKey,
    pub valid_activity: ChainItems,
    pub rejected_activity: ChainItems,
    pub status: ChainStatus,
    pub highest_observed: Option<HighestObserved>,
}

pub struct AgentActivityResponseView {
    pub agent: AgentPubKey,
    pub valid_activity: ChainItemsView,
    pub rejected_activity: ChainItemsView,
    pub status: ChainStatus,
    pub highest_observed: Option<HighestObservedView>,
}

impl View for AgentActivityResponse {
    type V = AgentActivityResponseView;

    open spec fn view(&self) -> AgentActivityResponseView {
        AgentActivityResponseView {
            agent: self.agent,
            valid_activity: self.valid_activity@,
            rejected_activity: self.rejected_activity@,
            status: self.status,
            highest_observed: match self.highest_observed {
                Some(highest) => Some(highest@),
                None => None,
            },
        }
    }
}

} // verus!
