//! A Monte Carlo path tracer: scenes are trees of geometric primitives
//! (spheres, rectangles, boxes, transforms, participating media) indexed by
//! a bounding-volume hierarchy; rays scatter off Lambertian, metal,
//! dielectric, isotropic and emissive materials, and a recursive integrator
//! averages many jittered samples per pixel into an 8-bit RGBA buffer.
//!
//! All geometry and radiometry is computed in Q47.16 fixed point (a raw
//! `i64` holding the value times 65536), so every routine carries an exact
//! integer contract instead of an approximate floating-point one.

pub mod aabb;
pub mod camera;
pub mod fx;
pub mod hittable;
pub mod material;
pub mod perlin;
pub mod ray;
pub mod renderer;
pub mod rng;
pub mod scene;
pub mod texture;
pub mod trig;
pub mod utils;
pub mod vec3;
