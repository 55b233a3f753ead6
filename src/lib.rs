//! A minimal container runtime core: image references, mount planning, and
//! the ordered startup pipeline, with the operating-system work left to callers.
pub mod text;
pub mod image;
pub mod mounts;
pub mod plan;
pub mod startup;
pub mod launch;
pub mod registry;
pub mod laws;
