//! A terminal month calendar whose days carry a reproducible "mood".
//!
//! `cal::horo` holds the seeded generator that assigns moods; `cal` holds the
//! calendar arithmetic and the rendering of the current month.
pub mod cal;

pub use cal::horo::{Horo, Mood};
pub use cal::{Sign, Year};
