//! What the API asks of the library.

pub mod books;
pub mod delivery_methods;
pub mod subscriptions;
