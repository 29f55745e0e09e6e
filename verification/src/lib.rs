//! Incremental validation core for a WGSL language server.
//!
//! The crate discovers cross-file import dependencies declared in shader
//! source text, composes a requested file together with its transitive
//! dependencies through the `naga_oil` composer, caches the compiled module
//! per file, invalidates exactly the affected entries when a file changes,
//! and maps compiler errors (reported as offsets into the composer's
//! concatenated multi-file buffer) back to per-file line/column diagnostics.

pub mod assoc;
pub mod compose;
pub mod diagnostics;
pub mod document;
pub mod server;
pub mod text;
pub mod validate;
