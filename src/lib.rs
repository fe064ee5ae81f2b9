pub mod time;
pub mod calendar;
pub mod cache;
pub mod router;
pub mod config;
