//! A recursive Monte Carlo ray tracer over deterministic fixed-point
//! arithmetic.
//!
//! Every quantity — lengths, colours, ray parameters — is an `i64` holding a
//! multiple of `1 / fixed::SCALE`. All arithmetic saturates at the `i64`
//! range and is specified exactly, so the whole light-transport pipeline —
//! intersection, scattering, camera projection, tone mapping — carries
//! machine-checked contracts: the scene reports the nearest hit whatever the
//! member order, materials scatter from the hit point with the configured
//! attenuation, and a render under a fixed sampler is pinned pixel for pixel.
//!
//! Randomness is an injected capability ([`rng::Sampler`]): seeded for real
//! renders, fixed for deterministic ones.

pub mod fixed;
pub mod rng;
pub mod vec3;
pub mod interval;
pub mod ray;
pub mod hittable;
pub mod material;
pub mod sphere;
pub mod hittable_list;
pub mod color;
pub mod camera;
