//! Engines for supervising background commands and running cron-scheduled tasks.

pub mod calendar;
pub mod config;
pub mod cron;
pub mod display;
pub mod error;
pub mod instant;
pub mod keyed;
pub mod platform;
pub mod scheduler;
pub mod supervisor;
pub mod task;
pub mod text;
pub mod tunnel;
