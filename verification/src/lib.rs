//! Editing a cargo configuration file's registry proxy settings.
//!
//! The library resolves a proxy alias or URL ([`resolve`]), and installs or
//! strips the registry redirection block of a TOML configuration document
//! while preserving everything else in it ([`document`]). What the edits do
//! is stated over a path-to-node model of the document ([`model`]), and the
//! laws the operations obey — clearing leaves no proxy-owned entry, setting
//! is idempotent, unrelated entries survive untouched — are proved in
//! [`laws`].

pub mod document;
pub mod laws;
pub mod model;
pub mod resolve;
