//! Model registry for a 3D engine: joins model descriptors with loaded mesh
//! bundles by naming convention and answers lookups once loading is done.

pub mod descriptor;
pub mod extract;
pub mod handle;
pub mod laws;
pub mod loader;
pub mod loading;
pub mod names;
pub mod registry;
