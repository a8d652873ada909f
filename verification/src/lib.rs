//! Reconstruction of a navigable 3D level from a binary level-data archive
//! ("WAD"): fixed-width record decoding, sector-boundary tracing, polygon and
//! hole classification, triangulation, wall-panel synthesis and patch-based
//! texture compositing over a shared 256-color palette.

pub mod archive;
pub mod assembler;
pub mod codec;
pub mod compositor;
pub mod defs;
pub mod geometry;
pub mod laws;
pub mod model;
pub mod nester;
pub mod palette;
pub mod picture;
pub mod tracer;
pub mod triangulate;
pub mod walls;

pub use defs::WadError;
