//! Agent activity: what a node that holds part of an agent's chain can say
//! about it, computed in one pass over the stored records.

pub mod action;
pub mod activity;
pub mod filter;
pub mod framework;
pub mod laws;
pub mod query;
pub mod state;
