//! A Monte Carlo path tracer over fixed-point arithmetic.
//!
//! Every quantity is a [`scalar::Scalar`]: a signed count of millionths that
//! saturates at the ends of its range. Vectors, rays, spheres, materials, the
//! camera and the integrator are built on it, so that a rendering is a
//! function of the scene and of the random samples alone, and the arithmetic
//! is total: no operation panics and none overflows.
//!
//! Each type has a mathematical model, its view, over unbounded integers, and
//! each function states its result over those models. What a function draws
//! at random is named in its contract as a sample that exists; beside it
//! stands a function that takes the sample as an argument and is exact.
//!
//! - [`scalar`] and [`vec`]: numbers and vectors.
//! - [`ray`], [`sphere`] and [`hit`]: rays, the hit test, and the scene with
//!   its search for the nearest hit.
//! - [`material`]: diffuse, metal and clear surfaces.
//! - [`camera`], [`render`] and [`ppm`]: rays through pixels, the colour that
//!   a ray brings back, and the image as text.
//! - [`scene`]: a random scene to render.
//! - [`random`]: the source of randomness.
pub mod camera;
pub mod hit;
pub mod material;
pub mod ppm;
pub mod random;
pub mod ray;
pub mod render;
pub mod scalar;
pub mod scene;
pub mod sphere;
pub mod vec;
