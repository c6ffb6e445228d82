//! Statistics engine for a simulated boss encounter: a roster of players and a
//! set of auxiliary abilities fight one boss, and every tick updates per-player
//! and encounter-wide counters that are exported as consistent snapshots.

pub mod format;
pub mod sources;
pub mod models;
pub mod catalog;
pub mod combat;
pub mod simulator;
pub mod roster;
pub mod tick;
pub mod load;
