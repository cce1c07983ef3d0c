//! The frame of a small ray tracer.
//!
//! An image is made by sending rays from a camera through the pixels of a
//! grid, finding what each ray meets in a scene of spheres, and following the
//! light back along the ray as surfaces scatter it, until it comes from the
//! background or a budget of bounces is spent.
//!
//! This library holds everything of that which is decided rather than
//! computed: which crossing of a ray and a sphere counts as a hit, which of
//! many hits is the closest, whether a surface scatters light or swallows it,
//! how deep a path is followed, which samples make one pixel and in which
//! order they are averaged and developed, where a pixel stands in the grid,
//! and what a pass cost. The arithmetic on real numbers is not done here. It is
//! handed in as functions, and the numbers it yields are kept by their bits
//! (see [`scalar`]), on which the order of the numbers can be read off without
//! computing anything.

pub mod average;
pub mod color;
pub mod decimal;
pub mod grid;
pub mod hittable;
pub mod integrator;
pub mod material;
pub mod metrics;
pub mod ray;
pub mod render;
pub mod scalar;
pub mod vector;
