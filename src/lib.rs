//! Daily check-in tracking for a shared fishing pond: per-angler streaks and
//! lifetime totals, a once-per-day reset, and the read-only summaries derived
//! from the pond's state.

pub mod backup;
pub mod calendar;
pub mod table;
pub mod data;
pub mod game;
pub mod gate;
pub mod settings;
pub mod summary;
