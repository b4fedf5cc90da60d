//! A local mirror of remotely hosted, xz-compressed SDK artifacts.
//!
//! The crate keeps a directory of decompressed artifact files consistent
//! with a remote object store.  Its core is the reconciliation algorithm:
//! diffing the persisted record of what is present locally against a fresh
//! enumeration of what is available remotely, and deriving the minimal set
//! of fetch and remove operations that converges the mirror to the remote
//! truth.  The surrounding I/O (listing, downloading, file writes, durable
//! state persistence) is left to the embedding program; this crate states
//! and proves what each step computes.

pub mod error;
pub mod sdk;
pub mod state;
pub mod reconcile;
pub mod stash;
pub mod xz;
