//! A verified catalog engine for personal media items. Records classify
//! content, remember how it is packaged, and track whether it is currently
//! deployed to a live filesystem location. The engine's decisions — record
//! construction, patching, storage, deployment transitions, backup rotation
//! and the archiving tool's protocol — are verified; the surrounding process
//! performs the filesystem and subprocess work the decisions call for.
use vstd::prelude::*;

pub mod archive_info;
pub mod backup;
pub mod codec;
pub mod compress;
pub mod config;
pub mod content_info;
pub mod deploy_info;
pub mod dl_site;
pub mod error;
pub mod library;
pub mod metadata;
pub mod state;
pub mod text;

verus! {

/// An explicit either-type: `This` carries the primary outcome, `That` the
/// alternative. Path resolution uses it to hand back either a concrete path
/// or the reset state that the caller must persist.
pub enum Whether<A, B> {
    This(A),
    That(B),
}

/// The facts a caller gathered about one path on disk before asking the
/// engine for a decision.
#[derive(Debug, Clone, Copy, PartialEq, Eq, Structural)]
pub struct PathProbe {
    /// Whether the path exists at all.
    pub exists: bool,
    /// Whether the path names a directory.
    pub is_dir: bool,
}

} // verus!
