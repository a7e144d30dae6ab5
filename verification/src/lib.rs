//! Reconciliation-and-dispatch pipeline for a mailing service.
//!
//! Business events (purchases, renewal toggles) are recorded in a document
//! store by outside collaborators.  This library holds the verified core of
//! the job that acts on them exactly once: it joins each event with its
//! metadata side-records and sibling-group subscriptions, excludes events
//! already marked processed, groups the survivors into bounded-size batches
//! of outbound notification requests, and says which keys must be marked
//! processed afterwards.  The store and the HTTP transport themselves stay
//! outside; they hand plain values in and carry plain values out.

pub mod batching;
pub mod document;
pub mod endpoints;
pub mod interop;
pub mod processing;
pub mod request;
pub mod scheduler;
pub mod utils;
