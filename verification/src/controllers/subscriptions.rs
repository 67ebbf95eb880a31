//! Subscribing to books.

use crate::models::Id;
use vstd::prelude::*;

verus! {

/// A request to subscribe a user to a book, or to end the subscription.
#[derive(Debug)]
pub struct SubscriptionRequest {
    pub book_id: Id,
    pub user_id: String,
}

/// A request for the books a user is subscribed to.
#[derive(Debug)]
pub struct ListSubscriptionsRequest {
    pub user_id: String,
}

} // verus!
