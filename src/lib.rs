//! A local, path-indexed cache of a remote drive tree, together with the
//! handle and builder types of the drive SDK binding that feeds it.
//!
//! The remote provider, the node encoding and the on-disk store are reached
//! by the surrounding program; this library holds the decisions: how entries
//! are classified, how paths and identities are derived, what the store keeps,
//! and in which order the indexer and the updater act.
use vstd::prelude::*;

// The cache and the engines that fill it.
pub mod cache;
pub mod error;
pub mod indexer;
pub mod node;
pub mod snapshot;
pub mod updater;

// The SDK binding's handles, builders and decisions.
pub mod cancellation;
pub mod drive;
pub mod handles;
pub mod observability;
pub mod protobuf;
pub mod sdk_library;
pub mod session;
pub mod transfer;

verus! {

} // verus!
