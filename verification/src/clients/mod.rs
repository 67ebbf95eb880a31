//! What is sent to the notification services.

pub mod mailgun;
pub mod pushover;
