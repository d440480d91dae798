//! Sandboxed filesystem access for plugins.
//!
//! A plugin is named by an id and a category. Its data lives in a root
//! directory of its own, and every path that a plugin hands in is resolved
//! against that root: lexically first, then against what the filesystem
//! reports, and accepted only where both stay inside the root.
//!
//! The library decides; the caller performs the filesystem work that a
//! decision asks for and hands the outcome back.
pub mod error;
pub mod fs_api;
pub mod path;
pub mod plugin;
pub mod root;
pub mod sandbox;
pub mod storage;
