//! Core library of a governance workspace: staged discussions that prepare
//! proposals, with an append-only comment ledger, contributor invitations,
//! quality-gated stage transitions and a verification digest.

pub mod authorization;
pub mod discussion;
pub mod principal;
pub mod types;
