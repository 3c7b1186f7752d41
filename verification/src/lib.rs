//! # A verified planner for rendering with Bézier curves on the GPU
//!
//! This crate plans what a renderer of vector shapes draws on the GPU: the geometry
//! of shapes, the order and state of draw calls, masks, blends, transforms, filters
//! and cached bitmaps. It renders **quadratic Bézier curves directly** with the
//! Loop-Blinn technique, without tessellating them.
//!
//! ## The Loop-Blinn technique
//!
//! Every quadratic Bézier curve can be rendered with a single triangle.
//! The three vertices of the triangle correspond to the curve's three
//! control points (P0, P1, P2). Each vertex is assigned a 2D texture
//! coordinate:
//!
//! ```text
//!   P0 (start):   (u, v) = (0, 0)
//!   P1 (control): (u, v) = (0.5, 0)
//!   P2 (end):     (u, v) = (1, 1)
//! ```
//!
//! In the fragment shader, the implicit curve equation `f(u,v) = u² - v`
//! classifies each pixel:
//! - `f < 0`: inside the curve (filled)
//! - `f ≥ 0`: outside the curve (discarded)
//!
//! ## Numbers
//!
//! All numbers are exact. Coordinates are integers in units of 1/8192 twip, in
//! which every point that a path is flattened to can be written down; factors
//! are quotients ([`geometry::Ratio`]). What only floating point can tell, such as
//! the angle of a join, is measured outside and handed in, and offsets from a
//! path are named ([`vertex::Offset`]) and evaluated where vertices are uploaded.
//!
//! ## Modules
//!
//! - [`path`], [`rounding`], [`fill`], [`coverage`], [`segments`], [`stroke`], [`gradient`],
//!   [`mesh`]: from the paths of a shape to its draw calls.
//! - [`commands`], [`bitmaps`], [`transforms`], [`render`], [`frame`]: from a list of
//!   commands to the passes of a frame.
//! - [`filters`]: image filters.
//! - [`target`], [`pipelines`], [`shaders`], [`backend`]: what is set up and kept.
pub mod backend;
pub mod bitmaps;
pub mod blend;
pub mod commands;
pub mod coverage;
pub mod fill;
pub mod filters;
pub mod frame;
pub mod geometry;
pub mod gradient;
pub mod mesh;
pub mod path;
pub mod pipelines;
pub mod render;
pub mod rounding;
pub mod segments;
pub mod shaders;
pub mod stroke;
pub mod target;
pub mod transforms;
pub mod vertex;

pub use mesh::{BezierMesh, DrawType};
pub use target::{RenderTarget, SwapChainTarget, TextureTarget};
pub use vertex::MaskState;
