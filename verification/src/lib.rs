//! Verified core of a personal activity logger: the question planner, the
//! bounded-inquiry supervisor, the scheduler and the activity log they share.

pub mod clock;
pub mod config;
pub mod daemon;
pub mod database;
pub mod inquiry;
pub mod models;
pub mod settings;
pub mod supervisor;
pub mod text;
pub mod theme;
pub mod viewer;
