//! A verified codec for the binary package container format of a 3D game
//! engine: package headers, name tables, import/export tables, the typed
//! property value model, and the index-resolution and dependency graphs
//! built on top of the decoded tables.

pub mod text;
pub mod types;
pub mod versions;
pub mod error;
pub mod names;
pub mod property;
pub mod archive;
pub mod codec;
pub mod asset;
pub mod resolver;
pub mod graph;
pub mod provider;
pub mod support;
