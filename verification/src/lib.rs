//! Render cache and render dispatch for a store of heterogeneous documents.
//!
//! A document is a folder of files. Its fingerprint summarises the modification
//! times below that folder; a cached artifact is valid exactly as long as the
//! fingerprint recorded with it matches the folder's current one. The modules
//! here decide when a render has to run, allow one run per document and
//! fingerprint at a time, plan the external tool invocations of each document
//! type and record the outcome, a failure included.

pub mod error;
pub mod text;
pub mod types;
pub mod settings;
pub mod store;
pub mod directories;
pub mod fingerprint;
pub mod order;
pub mod folder;
pub mod render;
pub mod pipeline;
pub mod document;
