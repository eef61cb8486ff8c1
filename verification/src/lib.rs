//! Resolution of resource patterns into ordered (source path, target path)
//! pairs for packaging.
//!
//! Paths are handled as text. A path is split into components by the
//! platform's own rules; everything after that split (the rewriting of
//! components, the joining of segments, the choice of a target, the order
//! of the patterns) is decided here and proved.

pub mod binaries;
pub mod error;
pub mod lookup;
pub mod machine;
pub mod paths;
pub mod resolver;
pub mod resource;

pub use binaries::external_binaries;
pub use error::ResourceError;
pub use machine::{Phase, Pull};
pub use paths::{normalize, resource_relpath, Component, Rewrite};
pub use resolver::{Entry, ResourcePaths, ResourcePathsIter};
pub use resource::Resource;
