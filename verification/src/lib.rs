//! Server-side chunk engine for a multiplayer voxel world.
//!
//! The crate owns chunk state, runs an ordered pipeline of generation
//! stages over requested chunks, meshes the resulting voxel content
//! against a block registry, and hands completed chunks plus their
//! geometry back to a per-tick world update loop — all without ever
//! blocking that loop.
//!
//! The worker pool that executes jobs lives outside this crate: the
//! scheduler here is the state machine the pool drives. Submitting a
//! job, finishing a job and draining the finished jobs are explicit
//! steps, so every scheduling decision is ordinary verified code.

pub mod block;
pub mod chunk;
pub mod client;
pub mod job;
pub mod manager;
pub mod mesher;
pub mod scheduler;
pub mod stage;
pub mod vec;
