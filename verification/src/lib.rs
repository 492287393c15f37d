//! Procedural bicubic terrain with a terrain-following body, in fixed-point
//! arithmetic.
//!
//! The crate builds a continuous terrain out of parametric surface patches
//! and steps a single controlled body that walks, rolls and free-falls over
//! it.  All geometry and physics is carried out on 16.16 fixed-point
//! integers so that every formula can be stated and proved exactly.
//!
//! - [`bezier`]: the cubic Bernstein basis over exact fractions.
//! - [`vec3`]: fixed-point vectors and quaternions.
//! - [`patch`]: control planes and bicubic patches — evaluation, normals
//!   and tessellation.
//! - [`surface`]: the randomized lattice of control planes.
//! - [`chunk`]: per-patch terrain chunks — collision meshes and bounding
//!   boxes.
//! - [`raycast`]: vertical ray casting against collision meshes.
//! - [`physics`]: the per-frame terrain-follow step of the controlled body.

pub mod bezier;
pub mod chunk;
pub mod fixed;
pub mod patch;
pub mod physics;
pub mod raycast;
pub mod rng;
pub mod surface;
pub mod vec3;

pub use bezier::{fac, binomial3, bernstein3, Frac};
pub use fixed::{clamp, SCALE};
pub use patch::{BicubicPatch, ControlPlane, Dir8, VertexPNT};
pub use surface::ControlSurface;
pub use chunk::{Chunk, TriMeshFx, Aabb, CollisionVertex, build_chunks};
pub use physics::{BallSystem, BodyTransform, InputEvent, PadAxis, PadButton};
