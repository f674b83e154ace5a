//! Resolve, from a versioned install-history document (a "swinstall stack"),
//! which installed file was current as of a given point in time.
//!
//! The history document is a small XML file whose root `stack_history`
//! element carries a schema identifier.  Each schema keeps its records in a
//! different shape and order, so resolution is dispatched through a registry
//! of per-schema resolvers.  The record scans, the append/update rewrites,
//! the record codecs and the path derivations are verified; XML event
//! acquisition and serialisation (quick_xml) and timestamp parsing (chrono)
//! are called through small trusted wrappers.

pub mod actions;
pub mod errors;
pub mod parser;
pub mod pybool;
pub mod schemas;
pub mod stamp;
pub mod text;
pub mod utils;
pub mod xml;

pub use crate::errors::SwInstallError;
