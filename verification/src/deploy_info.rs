//! Deployment state of a catalog record: whether its content is currently
//! extracted or copied to a live filesystem location. A record is
//! `Absent` unless a prior deploy succeeded and no later retraction or
//! filesystem loss has invalidated it.
use vstd::prelude::*;

use crate::{PathProbe, Whether};

verus! {

/// The deployment state machine's three states: not deployed, deployed as a
/// single file, deployed as a directory tree.
#[derive(Debug, Clone)]
pub enum DeployInfo {
    Absent,
    File { path: String },
    Directory { path: String },
}

/// The ghost value of a `DeployInfo`.
pub ghost enum DeployInfoView {
    Absent,
    File { path: Seq<char> },
    Directory { path: Seq<char> },
}

impl View for DeployInfo {
    type V = DeployInfoView;

    open spec fn view(&self) -> DeployInfoView {
        match self {
            DeployInfo::Absent => DeployInfoView::Absent,
            DeployInfo::File { path } => DeployInfoView::File { path: path@ },
            DeployInfo::Directory { path } => DeployInfoView::Directory { path: path@ },
        }
    }
}

impl Default for DeployInfo {
    fn default() -> (r: Self)
        ensures
            r@ == DeployInfoView::Absent,
    {
        DeployInfo::Absent
    }
}

/// The concrete path a deployment state refers to, if any.
pub open spec fn spec_deploy_candidate(d: DeployInfoView) -> Option<Seq<char>> {
    match d {
        DeployInfoView::Absent => None,
        DeployInfoView::File { path } => Some(path),
        DeployInfoView::Directory { path } => Some(path),
    }
}

/// Whether the probed facts let a deployment state resolve: the recorded
/// path must still exist on disk.
pub open spec fn spec_deploy_resolves(d: DeployInfoView, probe: PathProbe) -> bool {
    match d {
        DeployInfoView::Absent => false,
        DeployInfoView::File { .. } => probe.exists,
        DeployInfoView::Directory { .. } => probe.exists,
    }
}

impl DeployInfo {
    /// A deployment state recording a single copied file.
    pub fn new_file(path: String) -> (r: Self)
        ensures
            r@ == (DeployInfoView::File { path: path@ }),
    {
        DeployInfo::File { path }
    }

    /// A deployment state recording an extracted or copied directory.
    pub fn new_dir(path: String) -> (r: Self)
        ensures
            r@ == (DeployInfoView::Directory { path: path@ }),
    {
        DeployInfo::Directory { path }
    }

    /// The path a caller must probe before resolving this state, or `None`
    /// when nothing is deployed.
    pub fn candidate_path(&self) -> (r: Option<String>)
        ensures
            r.deep_view() == spec_deploy_candidate(self@),
    {
        match self {
            DeployInfo::Absent => None,
            DeployInfo::File { path } => Some(path.clone()),
            DeployInfo::Directory { path } => Some(path.clone()),
        }
    }

    /// Resolves this deployment state against the probed facts about its
    /// recorded path. A missing path downgrades to the reset value that the
    /// caller must persist (the soft-failure policy), never to an error.
    pub fn try_resolve(&self, probe: &PathProbe) -> (r: Whether<String, DeployInfo>)
        ensures
            spec_deploy_resolves(self@, *probe) ==> (r matches Whether::This(p) && Some(p@)
                == spec_deploy_candidate(self@)),
            !spec_deploy_resolves(self@, *probe) ==> (r matches Whether::That(d) && d@
                == DeployInfoView::Absent),
    {
        match self {
            DeployInfo::Absent => Whether::That(DeployInfo::Absent),
            DeployInfo::File { path } => {
                if probe.exists {
                    Whether::This(path.clone())
                } else {
                    Whether::That(DeployInfo::Absent)
                }
            },
            DeployInfo::Directory { path } => {
                if probe.exists {
                    Whether::This(path.clone())
                } else {
                    Whether::That(DeployInfo::Absent)
                }
            },
        }
    }
}

impl DeployInfo {
    /// A field-by-field copy of this deployment state, equal to it.
    pub fn duplicate(&self) -> (r: Self)
        ensures
            r@ == self@,
    {
        match self {
            Self::Absent => Self::Absent,
            Self::File { path } => Self::File { path: path.clone() },
            Self::Directory { path } => Self::Directory { path: path.clone() },
        }
    }
}

impl PartialEq for DeployInfo {
    fn eq(&self, other: &Self) -> (r: bool)
        ensures
            r == (self@ == other@),
    {
        match (self, other) {
            (DeployInfo::Absent, DeployInfo::Absent) => true,
            (DeployInfo::File { path: p1 }, DeployInfo::File { path: p2 }) => p1.eq(p2),
            (DeployInfo::Directory { path: p1 }, DeployInfo::Directory { path: p2 }) => p1.eq(p2),
            _ => false,
        }
    }
}

impl vstd::std_specs::cmp::PartialEqSpecImpl for DeployInfo {
    open spec fn obeys_eq_spec() -> bool {
        true
    }

    open spec fn eq_spec(&self, other: &Self) -> bool {
        self@ == other@
    }
}

} // verus!
