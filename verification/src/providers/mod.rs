//! The sources of chapters: what each one lists and how a chapter's body is
//! taken from what it serves.

pub mod feed;
pub mod html;
pub mod mail;
pub mod pale;
pub mod practical_guide;
pub mod royalroad;
pub mod the_daily_grind_patreon;
pub mod wandering_inn;
pub mod wandering_inn_patreon;
pub mod registry;
