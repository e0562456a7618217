//! Reconciliation of local billing records with a subscription-billing
//! provider's event feed.
pub mod status;
pub mod store;
pub mod provider;
pub mod reconcile;
pub mod laws;
pub mod schedule;
pub mod settings;
