//! Affiliation reconciliation engine.
//!
//! Reconciles a roster of external identities (source-control logins drawn
//! from a company's HR directory) against a dataset of identity records,
//! maintaining for each identity a chronological, comma-separated
//! affiliation-history string that says which organizations the identity has
//! been associated with and when.

pub mod dates;
pub mod directory;
pub mod history;
pub mod reconcile;
pub mod record;
pub mod roster;
pub mod split;
