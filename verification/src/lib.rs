//! World-space browser screens: a verified core for a plugin that embeds
//! interactive web-browser surfaces as rectangular objects in a 3D world.
//!
//! The library owns the logic: an entity registry with identifier
//! allocation and nearest-entity queries, a fixed-point aim-ray
//! intersection engine, a texture streaming pipeline for partial bitmap
//! updates, command and time parsing, and a cooperative task scheduler.
//! Host-engine FFI, browser process management and floating-point
//! conversions live outside the library.

pub mod command;
pub mod entity;
pub mod entity_manager;
pub mod error;
pub mod fixed;
pub mod geometry;
pub mod parse;
pub mod scheduler;
pub mod texture;
pub mod vec3;
