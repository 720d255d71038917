//! Plugin-override launcher for Unreal projects: engine discovery, per-user
//! plugin overrides keyed by EngineAssociation, and the launcher's state.

pub mod text;
pub mod sorting;
pub mod string_map;
pub mod paths;
pub mod config;
pub mod json;
pub mod engine;
pub mod plugins;
pub mod association;
pub mod launch;
pub mod gui;
