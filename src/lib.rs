//! Core of a self-hosted media catalog: the plugin binary interface, plugin
//! version negotiation, catalog schema synchronisation and the indexing pass.
pub mod ffi;
pub mod index;
pub mod library;
pub mod loader;
pub mod media;
pub mod schema;
pub mod text;
pub mod version;
