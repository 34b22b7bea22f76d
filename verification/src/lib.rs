//! Analytics core of a bonding-curve token indexer.
//!
//! The crate turns a stream of creation, trade and completion events into
//! per-asset bonding-curve progress and market capitalisation, buffers trade
//! records for batched persistence, and rebuilds holder-concentration and
//! volume figures from the persisted trade ledger. Every function is stated
//! with a contract and proved against it.
//!
//! - [`processor`] is the state machine over events. It works on the
//!   bonding state [`state`] and the cached price [`price`], computes with
//!   [`helpers`], and leaves one [`processor::Action`] to be carried out for
//!   each event.
//! - [`trade`] holds the trades that wait to be persisted and turns them
//!   into batches; [`token`] builds asset rows and the statement that writes
//!   the bonding state back.
//! - [`query`] rebuilds the read model from what [`ledger`] folds out of the
//!   trade ledger and [`ranking`] makes of the balances.
//! - [`laws`] states what holds across these.
//!
//! The library does no input or output and holds no lock. Identifiers and
//! the time of day come from outside crates, through [`ids`] and [`clock`],
//! and bytes are read as text by the standard library, through [`text`];
//! what is claimed of these is not proved.

pub mod clock;
pub mod config;
pub mod helpers;
pub mod ids;
pub mod laws;
pub mod ledger;
pub mod price;
pub mod processor;
pub mod query;
pub mod ranking;
pub mod state;
pub mod text;
pub mod token;
pub mod trade;
pub mod types;
