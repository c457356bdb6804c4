//! Tick-synchronised replication and prediction for a server-authoritative
//! multiplayer simulation: every rule is an executable function with a
//! machine-checked contract.

pub mod anomaly;
pub mod authority;
pub mod client;
pub mod config;
pub mod connection;
pub mod delta;
pub mod input;
pub mod interaction;
pub mod interest;
pub mod interpolation;
pub mod mux;
pub mod ordered;
pub mod player_map;
pub mod policy;
pub mod prediction;
pub mod predictor;
pub mod reliable;
pub mod replication;
pub mod screen;
pub mod snapshot_wire;
pub mod spawner;
pub mod tick;
pub mod wire;
