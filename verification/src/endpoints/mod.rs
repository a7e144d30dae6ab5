//! The decision logic of the ingestion endpoints.
//!
//! The HTTP layer itself — routing, extraction, store writes — lives outside
//! the library; these modules hold what each endpoint decides and builds
//! from plain values.

pub mod add_metadata;
pub mod mail_subscribe;
pub mod newsletter_subscribe;
