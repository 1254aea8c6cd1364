//! Task-tracker core: fixed-offset time zone resolution, calendar-day
//! overdue evaluation, task view classification, and staleness pruning
//! over an in-memory task store.

pub mod errors;
pub mod models;
pub mod prune;
pub mod seq_facts;
pub mod store;
pub mod time;
pub mod views;
