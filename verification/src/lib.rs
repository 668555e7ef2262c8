//! A minimal entity-component simulation kernel for a 2D scene.
//!
//! Entities are untyped bags of tagged component values. The crate provides
//! the component storage and typed multi-component retrieval mechanism (the
//! picker and the locators), a fixed-tick Euler physics step, and the
//! fixed-timestep accumulator that drives it. Rendering and windowing are an
//! external collaborator and live outside this library.

pub mod components;
pub mod physics;
pub mod picker;
pub mod scene;
pub mod sprite;
pub mod timestep;
