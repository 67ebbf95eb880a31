//! Chapter discovery, delivery scheduling and supervision for a serial-fiction
//! notification service, stated over plain values and verified.

pub mod aggregator;
pub mod calibre;
pub mod chapter;
pub mod clients;
pub mod configuration;
pub mod controllers;
pub mod handlers;
pub mod models;
pub mod providers;
pub mod storage;
pub mod store;
pub mod supervisor;
pub mod tagged;
pub mod tasks;
pub mod text;
pub mod util;
