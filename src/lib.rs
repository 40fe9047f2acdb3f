//! An entity-component scene: a registry of entities, each holding at most
//! one component of each kind; checked query masks; a model cache with
//! residency; and a fixed-order frame pipeline that turns the scene into
//! render commands.

pub mod math;
pub mod component;
pub mod scene;
pub mod cache;
pub mod pipeline;
pub mod laws;
