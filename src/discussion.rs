//! Staged discussions that prepare a governance proposal.

pub mod api;
pub mod error;
pub mod hash;
pub mod laws;
pub mod snapshot;
pub mod state;
pub mod types;
pub mod validation;
