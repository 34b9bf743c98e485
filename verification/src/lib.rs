//! A workspace session registry for an editor plugin.
//!
//! Each project workspace is mapped to exactly one serialized session
//! artifact on disk.  Records live in a small relational store; a
//! reconciliation pass repairs drift between the record store and the
//! session-file directory in both directions.

pub mod comment;
pub mod db;
pub mod errors;
pub mod listing;
pub mod namer;
pub mod paths;
pub mod position;
pub mod reconcile;
pub mod record;
pub mod session;
pub mod store;
pub mod strutil;
pub mod tree;
