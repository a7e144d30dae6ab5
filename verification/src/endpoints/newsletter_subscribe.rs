//! Accepting a newsletter subscription.
//!
//! A fresh address is subscribed with the managed group and recorded with
//! its source; an address already on record is rejected.

use vstd::prelude::*;
use vstd::string::StringExecFns;

verus! {

/// A newsletter subscription request.
pub struct AddNewsletterQuery {
    pub email: String,
    pub address: Option<String>,
}

/// The stored record of an accepted subscription.
pub struct AddNewsletterRecord {
    pub email: String,
    pub address: Option<String>,
    pub source: String,
}

/// The endpoint's reply body.
pub struct Output {
    pub success: bool,
}

/// Decides a subscription request: the record to store — tagged with its
/// source — when the address is new, or nothing when it is already on
/// record, in which case the request is rejected.
pub fn plan_subscription(query: AddNewsletterQuery, already_subscribed: bool) -> (r: Option<
    AddNewsletterRecord,
>)
    ensures
        match r {
            Some(rec) => !already_subscribed && rec.email == query.email && rec.address
                == query.address && rec.source@ == "newsletter_subscription"@,
            None => already_subscribed,
        },
{
    if already_subscribed {
        None
    } else {
        Some(
            AddNewsletterRecord {
                email: query.email,
                address: query.address,
                source: String::from_str("newsletter_subscription"),
            },
        )
    }
}

} // verus!
