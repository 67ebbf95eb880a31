//! The two periodic jobs: discovering new chapters and delivering them.

pub mod delivery;
pub mod grouping;
pub mod ingest;
pub mod messages;
