//! A small container init/supervisor library: configuration discovery,
//! crontab parsing and matching, and the decision logic of the supervisor
//! tasks (service restart, cron scheduling, signal handling, child reaping,
//! and the TERM/KILL shutdown broadcast).

pub mod clock;
pub mod config;
pub mod cron;
pub mod daemon;
pub mod error;
pub mod scan;
