pub mod calendar;
pub mod client;
pub mod principal;
pub mod util;
