//! Settings resolution for an orderbook trading environment.
//!
//! A settings document names its networks, subgraphs, orderbooks, tokens,
//! deployers, orders, scenarios, charts and deployments, and lets every entry
//! refer to others by name. This crate turns such a document into a graph in
//! which every reference is a checked handle, nested scenarios are flattened
//! with their inherited attributes, and every defect of the document is
//! reported at once.
//!
//! - [`raw`] holds the document as written, [`config`] the resolved graph,
//!   [`error`] the defects.
//! - [`resolve`] resolves the references of each table, [`scenario`] flattens
//!   the scenarios, [`assemble`] runs both and hands out all or nothing.
//! - [`lookup`], [`collect`], [`bindings`] and [`literal`] are what they are
//!   built from: names, lists of defects, bindings, vault ids.
//! - [`laws`], [`validity`] and [`causes`] state what holds of every
//!   document: how a scenario inherits, which documents are valid, and that
//!   a defect is reported exactly when the document has its cause.
//! - [`transaction`] holds the parameters of a transaction.

pub mod assemble;
pub mod bindings;
pub mod causes;
pub mod collect;
pub mod config;
pub mod error;
pub mod laws;
pub mod literal;
pub mod lookup;
pub mod raw;
pub mod resolve;
pub mod scenario;
pub mod transaction;
pub mod validity;
