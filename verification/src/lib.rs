//! A small dining recommender: a weekly-schedule data model with a
//! time-of-day viability predicate, a candidate engine that filters and
//! shuffles the catalog, and the suggestion-cycle state machine that
//! drives which restaurant is shown next.

pub mod cycle;
pub mod engine;
pub mod schedule;
pub mod time;

pub use cycle::Advance;
pub use cycle::State;
pub use cycle::SuggestionCycle;
pub use engine::get_viable;
pub use engine::shuffle;
pub use engine::tuplify;
pub use schedule::Day;
pub use schedule::Hours;
pub use schedule::HoursMap;
pub use schedule::Restaurant;
pub use time::FromStrError;
pub use time::Time;
