//! A celestial-orientation guessing game's core library.
//!
//! A sky of stars — direction vectors, brightness values and names — is
//! rotated by a quaternion attitude and projected through a pinhole model
//! onto integer screen coordinates.  Star catalogs in a fixed-width
//! astronomical format, or in a compact comma-separated form, are parsed
//! into the same data model, and a converter rewrites the former as the
//! latter.
//!
//! All real-valued quantities (coordinates, field-of-view factors,
//! brightness) are carried as 64-bit integers counted in millionths of a
//! unit, so that every computation here is exact integer arithmetic with a
//! single explicit rounding step where a result leaves the scale.

pub mod catalog;
pub mod fixed;
pub mod fov;
pub mod options;
pub mod quat;
pub mod sky;
pub mod vec3;
