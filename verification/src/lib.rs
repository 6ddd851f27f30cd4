//! Frame orchestration for a real-time rendering loop.
//!
//! The crate decides, once per poll cycle, which entities are updated, which
//! receive input, which are drawn and in what order, and how the set of
//! entities changes between frames. Everything that touches the window system
//! or the graphics device stays with the caller: the library hands out plain
//! values (routes, outcomes, render commands) and takes plain values back.

pub mod app;
pub mod app_config;
pub mod color;
pub mod dispatch;
pub mod engine_error;
pub mod entity;
pub mod entity_container;
pub mod input;
pub mod light;
pub mod model;
pub mod one_shot_entity;
pub mod render;
pub mod sequence;
pub mod tags;
pub mod timer;
pub mod world;
pub mod world_builder;
