pub mod availability;
pub mod caldav;
pub mod error;
pub mod event;
pub mod format;
pub mod grid;
pub mod recurrence;
pub mod scheduling;
pub mod slots;
pub mod xml;
