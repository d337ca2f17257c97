//! Bindings core for a versioned, extensible graphics driver ABI.
//!
//! The library holds the parts of the binding layer that decide things:
//! command tables resolved by name, NUL-aware name sets, the tagged pointer
//! chains that the ABI uses in place of inheritance, and the dispatch
//! registry through which an interposing layer forwards calls.
//! Everything that touches foreign memory or the dynamic loader lives in the
//! application crate around it.

pub mod bits;
pub mod bytecode;
pub mod chain;
pub mod codes;
pub mod commands;
pub mod layer;
pub mod layer_info;
pub mod loader;
pub mod names;
pub mod objects;
pub mod registry;
pub mod strings;
pub mod surface;
pub mod version;

pub use objects::{CreateInfo, Device, Entry, Instance};
pub use version::Version;
