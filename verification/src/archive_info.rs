//! Archive state of a catalog record: whether its content is packaged, and
//! where. Resolution of the stored path against the filesystem follows the
//! catalog's soft-failure policy: a dangling path downgrades to a reset
//! instead of an error.
use vstd::prelude::*;

use crate::text::spec_join_path;
use crate::text::{join_path, opt_string_eq};
use crate::{PathProbe, Whether};

verus! {

/// Represents archive information for a data item, such as size and path.
///
/// `ArchiveFile` paths are always relative to the configured archive root;
/// `CommonFile` and `Directory` paths are absolute.
#[derive(Debug, Clone)]
pub enum ArchiveInfo {
    Absent,
    ArchiveFile { size: u64, path: String, password: Option<String> },
    CommonFile { size: u64, path: String },
    Directory { size: u64, path: String },
}

/// The ghost value of an `ArchiveInfo`.
pub ghost enum ArchiveInfoView {
    Absent,
    ArchiveFile { size: u64, path: Seq<char>, password: Option<Seq<char>> },
    CommonFile { size: u64, path: Seq<char> },
    Directory { size: u64, path: Seq<char> },
}

impl View for ArchiveInfo {
    type V = ArchiveInfoView;

    open spec fn view(&self) -> ArchiveInfoView {
        match self {
            ArchiveInfo::Absent => ArchiveInfoView::Absent,
            ArchiveInfo::ArchiveFile { size, path, password } => ArchiveInfoView::ArchiveFile {
                size: *size,
                path: path@,
                password: password.deep_view(),
            },
            ArchiveInfo::CommonFile { size, path } => ArchiveInfoView::CommonFile {
                size: *size,
                path: path@,
            },
            ArchiveInfo::Directory { size, path } => ArchiveInfoView::Directory {
                size: *size,
                path: path@,
            },
        }
    }
}

impl Default for ArchiveInfo {
    fn default() -> (r: Self)
        ensures
            r@ == ArchiveInfoView::Absent,
    {
        ArchiveInfo::Absent
    }
}

/// The concrete path an archive state refers to: the stored path joined
/// with the archive root for `ArchiveFile`, the stored path itself
/// otherwise, nothing for `Absent`.
pub open spec fn spec_archive_candidate(a: ArchiveInfoView, root: Seq<char>) -> Option<Seq<char>> {
    match a {
        ArchiveInfoView::Absent => None,
        ArchiveInfoView::ArchiveFile { path, .. } => Some(spec_join_path(root, path)),
        ArchiveInfoView::CommonFile { path, .. } => Some(path),
        ArchiveInfoView::Directory { path, .. } => Some(path),
    }
}

/// Whether the probed facts about the candidate path let this archive state
/// resolve: the path must exist, and for `Directory` it must be a directory.
pub open spec fn spec_archive_resolves(a: ArchiveInfoView, probe: PathProbe) -> bool {
    match a {
        ArchiveInfoView::Absent => false,
        ArchiveInfoView::ArchiveFile { .. } => probe.exists,
        ArchiveInfoView::CommonFile { .. } => probe.exists,
        ArchiveInfoView::Directory { .. } => probe.exists && probe.is_dir,
    }
}

impl ArchiveInfo {
    /// The path a caller must probe before resolving this archive state,
    /// or `None` when the state refers to nothing.
    pub fn candidate_path(&self, archive_root: &str) -> (r: Option<String>)
        ensures
            r.deep_view() == spec_archive_candidate(self@, archive_root@),
    {
        match self {
            ArchiveInfo::Absent => None,
            ArchiveInfo::ArchiveFile { path, .. } => Some(
                join_path(archive_root, path.as_str()),
            ),
            ArchiveInfo::CommonFile { path, .. } => Some(path.clone()),
            ArchiveInfo::Directory { path, .. } => Some(path.clone()),
        }
    }

    /// Resolves this archive state against the probed facts about its
    /// candidate path. A state whose path checks out yields the concrete
    /// path; any other state yields the reset value that the caller must
    /// persist in its place (the soft-failure policy).
    pub fn try_resolve(&self, archive_root: &str, probe: &PathProbe) -> (r: Whether<
        String,
        ArchiveInfo,
    >)
        ensures
            spec_archive_resolves(self@, *probe) ==> (r matches Whether::This(p) && Some(p@)
                == spec_archive_candidate(self@, archive_root@)),
            !spec_archive_resolves(self@, *probe) ==> (r matches Whether::That(a) && a@
                == ArchiveInfoView::Absent),
    {
        match self {
            ArchiveInfo::Absent => Whether::That(ArchiveInfo::Absent),
            ArchiveInfo::ArchiveFile { path, .. } => {
                if probe.exists {
                    Whether::This(join_path(archive_root, path.as_str()))
                } else {
                    Whether::That(ArchiveInfo::Absent)
                }
            },
            ArchiveInfo::CommonFile { path, .. } => {
                if probe.exists {
                    Whether::This(path.clone())
                } else {
                    Whether::That(ArchiveInfo::Absent)
                }
            },
            ArchiveInfo::Directory { path, .. } => {
                if probe.exists && probe.is_dir {
                    Whether::This(path.clone())
                } else {
                    Whether::That(ArchiveInfo::Absent)
                }
            },
        }
    }

    /// An archive state equal to `a` except for its size field; `Absent`
    /// has no size and stays itself.
    pub open spec fn spec_with_size(a: ArchiveInfoView, size: u64) -> ArchiveInfoView {
        match a {
            ArchiveInfoView::Absent => ArchiveInfoView::Absent,
            ArchiveInfoView::ArchiveFile { path, password, .. } => ArchiveInfoView::ArchiveFile {
                size,
                path,
                password,
            },
            ArchiveInfoView::CommonFile { path, .. } => ArchiveInfoView::CommonFile { size, path },
            ArchiveInfoView::Directory { path, .. } => ArchiveInfoView::Directory { size, path },
        }
    }

    /// Stores `measured` as this state's size when the probed facts let the
    /// state resolve; leaves the state alone otherwise. The caller measures
    /// the candidate path's size on disk beforehand.
    pub fn update_size(&mut self, probe: &PathProbe, measured: u64)
        ensures
            spec_archive_resolves(old(self)@, *probe) ==> final(self)@ == Self::spec_with_size(
                old(self)@,
                measured,
            ),
            !spec_archive_resolves(old(self)@, *probe) ==> final(self)@ == old(self)@,
    {
        let resolved = match self {
            ArchiveInfo::Absent => false,
            ArchiveInfo::ArchiveFile { .. } => probe.exists,
            ArchiveInfo::CommonFile { .. } => probe.exists,
            ArchiveInfo::Directory { .. } => probe.exists && probe.is_dir,
        };
        if resolved {
            match self {
                ArchiveInfo::Absent => {},
                ArchiveInfo::ArchiveFile { size, .. } => {
                    *size = measured;
                },
                ArchiveInfo::CommonFile { size, .. } => {
                    *size = measured;
                },
                ArchiveInfo::Directory { size, .. } => {
                    *size = measured;
                },
            }
        }
    }
}

impl ArchiveInfo {
    /// A field-by-field copy of this archive state, equal to it.
    pub fn duplicate(&self) -> (r: Self)
        ensures
            r@ == self@,
    {
        match self {
            Self::Absent => Self::Absent,
            Self::ArchiveFile { size, path, password } => Self::ArchiveFile {
                size: *size,
                path: path.clone(),
                password: crate::text::clone_opt_string(password),
            },
            Self::CommonFile { size, path } => Self::CommonFile {
                size: *size,
                path: path.clone(),
            },
            Self::Directory { size, path } => Self::Directory {
                size: *size,
                path: path.clone(),
            },
        }
    }
}

impl PartialEq for ArchiveInfo {
    fn eq(&self, other: &Self) -> (r: bool)
        ensures
            r == (self@ == other@),
    {
        match (self, other) {
            (ArchiveInfo::Absent, ArchiveInfo::Absent) => true,
            (
                ArchiveInfo::ArchiveFile { size: s1, path: p1, password: w1 },
                ArchiveInfo::ArchiveFile { size: s2, path: p2, password: w2 },
            ) => s1 == s2 && p1.eq(p2) && opt_string_eq(w1, w2),
            (
                ArchiveInfo::CommonFile { size: s1, path: p1 },
                ArchiveInfo::CommonFile { size: s2, path: p2 },
            ) => s1 == s2 && p1.eq(p2),
            (
                ArchiveInfo::Directory { size: s1, path: p1 },
                ArchiveInfo::Directory { size: s2, path: p2 },
            ) => s1 == s2 && p1.eq(p2),
            _ => false,
        }
    }
}

impl vstd::std_specs::cmp::PartialEqSpecImpl for ArchiveInfo {
    open spec fn obeys_eq_spec() -> bool {
        true
    }

    open spec fn eq_spec(&self, other: &Self) -> bool {
        self@ == other@
    }
}

} // verus!
