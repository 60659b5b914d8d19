//! Actions of an agent's chain, as this library reads them: the sequence
//! number that an action carries and the hash it is stored under.

use holochain_zome_types::prelude::Action;
use vstd::prelude::*;

verus! {

/// An action of a chain, as `holochain_zome_types` defines it. Nothing of
/// its contents is read here but through the functions specified below.
#[verifier::external_type_specification]
#[verifier::external_body]
pub struct ExAction(Action);

/// The 36 bytes that identify an action: 32 bytes of digest and 4 of location.
#[derive(Clone, Copy, Debug, PartialEq, Eq, Hash)]
pub struct ActionHash(pub [u8; 36]);

/// The 36 bytes that identify an agent.
#[derive(Clone, Copy, Debug, PartialEq, Eq, Hash)]
pub struct AgentPubKey(pub [u8; 36]);

/// The chain sequence number that `action` carries.
pub uninterp spec fn action_seq_of(action: Action) -> u32;

/// `Action::action_seq` reads the sequence number out of an action; it is a
/// function of the action alone, which `action_seq_of` names.
pub assume_specification[ Action::action_seq ](action: &Action) -> (seq: u32)
    ensures
        seq == action_seq_of(*action),
;

/// `Action` derives `Clone`: a clone is the action itself.
pub assume_specification[ <Action as Clone>::clone ](action: &Action) -> (copy: Action)
    ensures
        copy == *action,
;

/// One action of a chain together with the hash it is stored under.
#[derive(Clone, Debug, PartialEq, Eq)]
pub struct ActionRecord {
    pub action: Action,
    pub hash: ActionHash,
}

impl ActionRecord {
    /// The record's chain sequence number.
    pub open spec fn seq(self) -> u32 {
        action_seq_of(self.action)
    }

    /// Reads the record's chain sequence number out of its action.
    pub fn action_seq(&self) -> (seq: u32)
        ensures
            seq == self.seq(),
    {
        self.action.action_seq()
    }
}

} // verus!
