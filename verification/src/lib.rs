//! Deterministic generative-art engine: seeded procedural geometry
//! (spiral spinners and steering travelers), scene assembly into drawable
//! primitives, an offscreen render-and-capture pipeline modeled as a
//! verified state machine, and provenance signatures that tie every output
//! back to a code revision, a configuration hash and a seed.
//!
//! All geometry is carried in fixed-point integers so that a run is
//! bit-reproducible from its seed; the platform layer converts to the
//! display's native formats at the very edge.

pub mod bezier;
pub mod capture;
pub mod cli;
pub mod config;
pub mod fixed;
pub mod model;
pub mod rng;
pub mod scene;
pub mod signature;
pub mod spinner;
pub mod traveler;
pub mod trig;
