//! A declarative HTTP-API surface compiler.
//!
//! A specification names a set of endpoints (`"path": Type` entries grouped
//! in a dictionary, plus optional headers, a base URL and a global query
//! suffix).  The library parses that specification from a structured token
//! stream, builds a tree of named nodes out of the entry paths, and emits,
//! for every node, a container definition together with HTTP wiring for the
//! leaf nodes.

pub mod artifact;
pub mod builder;
pub mod casing;
pub mod common;
pub mod dict;
pub mod director;
pub mod headers;
pub mod input;
pub mod laws;
pub mod node;
pub mod tokens;
