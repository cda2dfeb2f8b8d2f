//! A turn-based grid exploration engine: randomized room-and-tunnel map
//! generation, line-of-sight visibility with an explored-tile memory,
//! entities with combat capability, a message log, and a turn engine that
//! resolves one intended action per tick.
//!
//! Alongside the engine live the plain data records of the surrounding
//! block-explorer and mining-pool services.

pub mod color;
pub mod endpoints;
pub mod engine;
pub mod entity;
pub mod maze;
pub mod miner;
pub mod messages;
pub mod node_address;
pub mod node_status;
pub mod node_tx;
pub mod numtext;
pub mod rng;
pub mod util;
pub mod visibility;
pub mod wallet;
