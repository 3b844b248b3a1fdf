//! Index-driven materialisation of logical file trees from a content-addressed
//! blob store.
//!
//! Under a root folder, `indexes/` holds one manifest per package and
//! `objects/` holds blobs named by their hash. A run reconstructs, under
//! `files/`, one folder per package whose files are laid out as the
//! package's manifest says, each with the contents of the blob that the
//! manifest names for it.
//!
//! The library decides and never acts: it touches no file. Paths are plain
//! text whose components are separated by `/`. A run is an
//! [`engine::Extraction`]: it asks for one action at a time, and is told
//! what came of it.
//!
//! - [`path`]: joining paths, and the stem of a file name
//! - [`layout`]: where manifests, blobs and reconstructed files are
//! - [`data`]: the manifest of a package
//! - [`plan`]: the copies that a manifest asks for
//! - [`engine`]: the run
//! - [`error`]: what ends a run, and how it reads
//! - [`store`]: what copies do to files
//! - [`laws`]: what holds of every run

pub mod data;
pub mod engine;
pub mod error;
pub mod laws;
pub mod layout;
pub mod path;
pub mod plan;
pub mod store;
