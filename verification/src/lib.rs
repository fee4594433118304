//! Window registry and spatial query engine for a compositing display server.
//!
//! The registry tracks every mapped client window and transient popup,
//! maintains their front-to-back stacking order, computes their on-screen
//! geometry from their drawable content, and answers "what is at this pixel"
//! and "who is currently focused" queries.
//!
//! The surface-tree backend and the protocol backend are external
//! collaborators: the registry only reads the per-surface state they cache
//! (buffer size, subsurface offset, input region, liveness). That state is
//! held here as plain values in [`backend::Backend`], so that every query and
//! every mutation of the registry itself is verified.

pub mod backend;
pub mod geometry;
pub mod gui;
pub mod handles;
pub mod layer_map;
pub mod seq_util;
pub mod surface;
pub mod window_map;
