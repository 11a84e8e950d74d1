//! Classification, aggregation and monitoring of value flow on a ledger.
//!
//! A transaction is classified against a registry of known addresses
//! ([`heuristics`], [`classification`]), the classified transactions of a block
//! are summed up by category ([`aggregator`]), and the summaries go through a
//! monitor that holds the last of them, says what each new one amounts to and
//! raises alerts ([`monitor`]). [`watch`] and [`scan`] put these steps together
//! for whoever follows the ledger; [`ingest`] and [`quantity`] read what a node
//! sends. Every function is verified against the contract that it states.

pub mod aggregator;
pub mod ascii;
pub mod category;
pub mod classification;
pub mod flow_summary;
pub mod heuristics;
pub mod ingest;
pub mod monitor;
pub mod quantity;
pub mod scan;
pub mod transaction;
pub mod watch;
