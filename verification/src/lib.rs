//! Adaptive level-of-detail pipeline for parametric surfaces.
//!
//! Every frame, each model's root patches are refined by a fixed schedule of
//! ping-pong subdivision passes into five render bins, one per target patch
//! size, and the bin lengths are consolidated into indirect draw records.
//!
//! The crate holds the rules of that pipeline as plain values and functions
//! with proved contracts:
//!
//! - `patch`, `tiling`: the encoding of patches and why subdividing tiles the
//!   unit square;
//! - `kernel`, `surface`: what the subdivision kernel decides for one patch;
//! - `queue`, `indirect`, `buffer`, `mesh`: the records the GPU works on;
//! - `pass`, `schedule`, `model`: the passes of a frame and a model of the
//!   work they perform;
//! - `invariants`, `monotone`, `order`: what holds of every frame and pass;
//! - `context`, `cursor`, `frame`, `registry`, `scene`, `application`: the
//!   decisions the host takes around the GPU work.
//!
//! Screen extents and the threshold factor are fixed-point numbers; the host
//! converts at its boundary.

pub mod application;
pub mod buffer;
pub mod context;
pub mod cursor;
pub mod frame;
pub mod indirect;
pub mod invariants;
pub mod kernel;
pub mod limits;
pub mod mesh;
pub mod model;
pub mod monotone;
pub mod order;
pub mod pass;
pub mod patch;
pub mod queue;
pub mod registry;
pub mod scene;
pub mod schedule;
pub mod surface;
pub mod tiling;
