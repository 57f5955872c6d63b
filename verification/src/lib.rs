//! Reverse dependency graph for source-level components of a
//! TypeScript/JavaScript project.
//!
//! A component is a default- or named-exported symbol of a source file. The
//! crate models the dependency graph (keyed by the depended-upon component,
//! holding the ordered, deduplicated list of its dependents), the module
//! resolution algorithm that maps import specifiers to on-disk files, the
//! per-file import extraction pass, and the project traversal that ties them
//! together. Parsing and file-system access are left to callers, which hand
//! the library plain values: parsed import declarations and a snapshot of the
//! existing paths.

pub mod dependency_graph;
pub mod imports;
pub mod paths;
pub mod resolver;
pub mod traversal;

pub use dependency_graph::ComponentIdentity;
pub use dependency_graph::DependencyGraph;
pub use resolver::AnalysisError;
pub use resolver::FileSystem;
pub use resolver::resolve;
