//! A backup scheduler for game save folders: timestamped recursive copies of a
//! source directory, run once or on a repeating interval, with the decisions
//! of each part stated and proved.
pub mod assets;
pub mod config;
pub mod notice;
pub mod replicator;
pub mod scheduler;
pub mod stamp;
pub mod state;
pub mod styling;
pub mod worker;
