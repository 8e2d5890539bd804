//! A version manager for the Go toolchain: the version store and the
//! activation engine. Versions are parsed, classified and ordered; the store
//! holds the installed versions, the aliases and the active version; each
//! command checks its preconditions against the store, updates it, and
//! returns the filesystem steps that carry the change out on disk.
pub mod actions;
pub mod text;
pub mod version;
pub mod listing;
pub mod paths;
pub mod environment;
pub mod store;
pub mod installer;
pub mod catalog;
pub mod disk;
pub mod shell;
pub mod commands;
