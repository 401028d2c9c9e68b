//! Core of a progressively-sampled, tile-parallel path-tracing renderer:
//! the per-channel accumulation model, tiles, the film that merges them
//! under an epoch protocol, and the wavefront bounce loop that drives the
//! scene, camera, integrator and sample-sequence collaborators.

pub mod channel;
pub mod error;
pub mod export;
pub mod film;
pub mod geom;
pub mod render;
pub mod tile;
pub mod world;
