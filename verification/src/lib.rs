//! Ingestion of network-node records.
//!
//! A listing of nodes is fetched once a minute, each raw item is brought into
//! canonical form, and each record is reconciled into a table keyed by node
//! identity, where the fresher record wins. The library holds the rules: the
//! normal form of a record, the reconciliation of a table with a record, and
//! the steps of the recurring job. Fetching, storing and waiting are left to
//! the program around it.

pub mod cycle;
pub mod job;
pub mod normalize;
pub mod present;
pub mod reconcile;
pub mod record;
pub mod schedule;
