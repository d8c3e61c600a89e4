//! Client-side synchronization engine for a real-time multiplayer arcade game.
//!
//! The crate is organised leaves-first:
//! - [`fixed`]: fixed-point scalars and 2D vectors, the numeric domain of the
//!   simulation (one unit is a thousandth of a game unit).
//! - [`codec`]: the binary wire protocol, with a proved encode/decode round trip.
//! - [`world`]: a sparse entity registry mapping stable integer handles to
//!   per-entity attribute records.
//! - [`components`]: the attribute types stored in the registry.
//! - [`systems`]: per-tick kinematics, follow/camera smoothing and countdown decay.
//! - [`game`]: the reconciliation engine that keeps the local entity set
//!   consistent with the inbound message stream and emits the heartbeat.
//! - [`states`]: the loading and lobby screens' decision logic.
pub mod codec;
pub mod components;
pub mod fixed;
pub mod game;
pub mod registry;
pub mod states;
pub mod systems;
pub mod world;
