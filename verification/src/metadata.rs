//! The catalog record: identity, descriptive fields, content classification,
//! archive state and deployment state, with the record-level operations —
//! creation from a partial update, field-level patching, archive packaging
//! plans, and the deploy / retract state machine.
//!
//! Operations that depend on the filesystem are split in two: a *plan*
//! function decides, from probed facts, what the caller must do, and a
//! *commit* function records the outcome once the caller has done it. The
//! record itself never touches the disk.
use vstd::prelude::*;

use crate::archive_info::{
    spec_archive_candidate, spec_archive_resolves, ArchiveInfo, ArchiveInfoView,
};
use crate::content_info::{spec_content_file_name, spec_path_rel, ContentInfo, ContentInfoView};
use crate::deploy_info::{spec_deploy_resolves, DeployInfo, DeployInfoView};
use crate::error::{CatalogError, CatalogErrorView};
use crate::text::{join_path, opt_string_eq, spec_join_path, strings_eq};
use crate::{PathProbe, Whether};

verus! {

/// Basic metadata structure for a data item: the catalog's unit of storage.
#[derive(Debug, Clone)]
pub struct Metadata {
    /// Unique identifier for the data item; never changes after creation.
    pub id: String,
    /// The title of the data item.
    pub title: String,
    /// The other names of the data item.
    pub alias: Vec<String>,
    /// Tags associated with the data item.
    pub tags: Vec<String>,
    /// Collection name, if any; mirrored into the collection cache.
    pub collection: Option<String>,
    /// Description of the data item.
    pub description: Option<String>,
    /// Image hash referencing the external image store, if any.
    pub image: Option<String>,
    /// The content classification of the data item.
    pub content_info: ContentInfo,
    /// Archive information.
    pub archive_info: ArchiveInfo,
    /// Deployment information.
    pub deploy_info: DeployInfo,
    /// Creation instant, in milliseconds.
    pub create_time: u64,
    /// Instant of the last successful mutation, in milliseconds; never below
    /// `create_time`.
    pub update_time: u64,
}

/// The ghost value of a `Metadata`.
#[verifier::ext_equal]
pub ghost struct MetadataView {
    pub id: Seq<char>,
    pub title: Seq<char>,
    pub alias: Seq<Seq<char>>,
    pub tags: Seq<Seq<char>>,
    pub collection: Option<Seq<char>>,
    pub description: Option<Seq<char>>,
    pub image: Option<Seq<char>>,
    pub content_info: ContentInfoView,
    pub archive_info: ArchiveInfoView,
    pub deploy_info: DeployInfoView,
    pub create_time: u64,
    pub update_time: u64,
}

impl View for Metadata {
    type V = MetadataView;

    open spec fn view(&self) -> MetadataView {
        MetadataView {
            id: self.id@,
            title: self.title@,
            alias: self.alias.deep_view(),
            tags: self.tags.deep_view(),
            collection: self.collection.deep_view(),
            description: self.description.deep_view(),
            image: self.image.deep_view(),
            content_info: self.content_info@,
            archive_info: self.archive_info@,
            deploy_info: self.deploy_info@,
            create_time: self.create_time,
            update_time: self.update_time,
        }
    }
}

impl DeepView for Metadata {
    type V = MetadataView;

    open spec fn deep_view(&self) -> MetadataView {
        self.view()
    }
}

/// A record's timestamps are ordered: the last mutation is never before
/// creation.
pub open spec fn spec_well_formed(m: MetadataView) -> bool {
    m.update_time >= m.create_time
}

/// The later of a stored instant and the clock reading: mutation timestamps
/// never move backwards, even when the clock does.
pub open spec fn spec_bump(stored: u64, now: u64) -> u64 {
    if now > stored {
        now
    } else {
        stored
    }
}

/// Fields of `Metadata` made optional: the partial-update structure handed
/// in by callers. An update with an `id` patches that record; one without
/// creates a new record. `flag_create_archive` additionally asks the engine
/// to package the supplied `ArchiveFile` source directory immediately.
#[derive(Debug, Clone)]
pub struct MetadataOption {
    pub id: Option<String>,
    pub title: Option<String>,
    pub alias: Option<Vec<String>>,
    pub tags: Option<Vec<String>>,
    pub collection: Option<String>,
    pub description: Option<String>,
    pub image: Option<String>,
    pub content_info: Option<ContentInfo>,
    pub archive_info: Option<ArchiveInfo>,
    pub flag_create_archive: bool,
}

/// The ghost value of a `MetadataOption`.
#[verifier::ext_equal]
pub ghost struct MetadataOptionView {
    pub id: Option<Seq<char>>,
    pub title: Option<Seq<char>>,
    pub alias: Option<Seq<Seq<char>>>,
    pub tags: Option<Seq<Seq<char>>>,
    pub collection: Option<Seq<char>>,
    pub description: Option<Seq<char>>,
    pub image: Option<Seq<char>>,
    pub content_info: Option<ContentInfoView>,
    pub archive_info: Option<ArchiveInfoView>,
    pub flag_create_archive: bool,
}

impl View for MetadataOption {
    type V = MetadataOptionView;

    open spec fn view(&self) -> MetadataOptionView {
        MetadataOptionView {
            id: self.id.deep_view(),
            title: self.title.deep_view(),
            alias: match self.alias {
                Some(v) => Some(v.deep_view()),
                None => None,
            },
            tags: match self.tags {
                Some(v) => Some(v.deep_view()),
                None => None,
            },
            collection: self.collection.deep_view(),
            description: self.description.deep_view(),
            image: self.image.deep_view(),
            content_info: match self.content_info {
                Some(c) => Some(c@),
                None => None,
            },
            archive_info: match self.archive_info {
                Some(a) => Some(a@),
                None => None,
            },
            flag_create_archive: self.flag_create_archive,
        }
    }
}

/// Whether an optional string is absent or empty.
pub fn is_none_or_empty(s: &Option<String>) -> (r: bool)
    ensures
        r == match s.deep_view() {
            Some(t) => t.len() == 0,
            None => true,
        },
{
    match s {
        Some(value) => value.as_str().is_empty(),
        None => true,
    }
}

/// The placeholder title of a record created without one.
pub open spec fn spec_default_title(id: Seq<char>) -> Seq<char> {
    "Unnamed "@ + id
}

/// The record built from a partial update, a fresh id and the clock: unset
/// fields take their type defaults, both timestamps are the creation
/// instant, and nothing is deployed.
pub open spec fn spec_create(opt: MetadataOptionView, id: Seq<char>, now: u64) -> MetadataView {
    MetadataView {
        id: id,
        title: match opt.title {
            Some(t) => t,
            None => spec_default_title(id),
        },
        alias: match opt.alias {
            Some(a) => a,
            None => Seq::empty(),
        },
        tags: match opt.tags {
            Some(t) => t,
            None => Seq::empty(),
        },
        collection: opt.collection,
        description: opt.description,
        image: opt.image,
        content_info: match opt.content_info {
            Some(c) => c,
            None => ContentInfoView::Undefined,
        },
        archive_info: match opt.archive_info {
            Some(a) => a,
            None => ArchiveInfoView::Absent,
        },
        deploy_info: DeployInfoView::Absent,
        create_time: now,
        update_time: now,
    }
}

/// The record after a field-level patch: each present optional field of the
/// update replaces the record's field, absent fields are untouched, and the
/// mutation timestamp is refreshed.
pub open spec fn spec_patch(m: MetadataView, opt: MetadataOptionView, now: u64) -> MetadataView {
    MetadataView {
        id: m.id,
        title: match opt.title {
            Some(t) => t,
            None => m.title,
        },
        alias: match opt.alias {
            Some(a) => a,
            None => m.alias,
        },
        tags: match opt.tags {
            Some(t) => t,
            None => m.tags,
        },
        collection: match opt.collection {
            Some(c) => Some(c),
            None => m.collection,
        },
        description: match opt.description {
            Some(d) => Some(d),
            None => m.description,
        },
        image: match opt.image {
            Some(i) => Some(i),
            None => m.image,
        },
        content_info: match opt.content_info {
            Some(c) => c,
            None => m.content_info,
        },
        archive_info: match opt.archive_info {
            Some(a) => a,
            None => m.archive_info,
        },
        deploy_info: m.deploy_info,
        create_time: m.create_time,
        update_time: spec_bump(m.update_time, now),
    }
}

impl Metadata {
    /// Builds a new record from a partial update, under a caller-supplied
    /// fresh id and clock reading. Archive packaging requested by the
    /// update's flag is a separate step; see `archive_plan`.
    pub fn create(opt: MetadataOption, id: String, now: u64) -> (m: Metadata)
        ensures
            m@ == spec_create(opt@, id@, now),
            spec_well_formed(m@),
    {
        let title = match opt.title {
            Some(t) => t,
            None => {
                let mut t = String::from_str("Unnamed ");
                t.append(id.as_str());
                t
            },
        };
        let m = Metadata {
            title,
            alias: match opt.alias {
                Some(a) => a,
                None => Vec::new(),
            },
            tags: match opt.tags {
                Some(t) => t,
                None => Vec::new(),
            },
            collection: opt.collection,
            description: opt.description,
            image: opt.image,
            content_info: match opt.content_info {
                Some(c) => c,
                None => ContentInfo::Undefined,
            },
            archive_info: match opt.archive_info {
                Some(a) => a,
                None => ArchiveInfo::Absent,
            },
            deploy_info: DeployInfo::Absent,
            create_time: now,
            update_time: now,
            id,
        };
        proof {
            assert(m@ =~= spec_create(opt@, id@, now));
        }
        m
    }

    /// Applies the present fields of a partial update to this record and
    /// refreshes its mutation timestamp. The update's packaging flag is
    /// handled by the engine around this call, not here.
    pub fn patch(&mut self, opt: MetadataOption, now: u64)
        ensures
            final(self)@ == spec_patch(old(self)@, opt@, now),
            spec_well_formed(old(self)@) ==> spec_well_formed(final(self)@),
    {
        let ghost opt_v = opt@;
        if let Some(title) = opt.title {
            self.title = title;
        }
        if let Some(alias) = opt.alias {
            self.alias = alias;
        }
        if let Some(tags) = opt.tags {
            self.tags = tags;
        }
        if let Some(collection) = opt.collection {
            self.collection = Some(collection);
        }
        if let Some(description) = opt.description {
            self.description = Some(description);
        }
        if let Some(image) = opt.image {
            self.image = Some(image);
        }
        if let Some(content_info) = opt.content_info {
            self.content_info = content_info;
        }
        if let Some(archive_info) = opt.archive_info {
            self.archive_info = archive_info;
        }
        if now > self.update_time {
            self.update_time = now;
        }
        proof {
            assert(self@ =~= spec_patch(old(self)@, opt_v, now));
        }
    }

    /// Refreshes the mutation timestamp.
    pub fn mark_update(&mut self, now: u64)
        ensures
            final(self)@ == (MetadataView {
                update_time: spec_bump(old(self)@.update_time, now),
                ..old(self)@
            }),
            spec_well_formed(old(self)@) ==> spec_well_formed(final(self)@),
    {
        if now > self.update_time {
            self.update_time = now;
        }
        proof {
            assert(self@ =~= MetadataView {
                update_time: spec_bump(old(self)@.update_time, now),
                ..old(self)@
            });
        }
    }
}

/// What a deploy decision asks the caller to do. Action variants carry the
/// concrete source path the caller must copy or extract into the target.
#[derive(Debug, Clone)]
pub enum DeployPlan {
    /// The operation fails; nothing may be mutated.
    Reject { error: CatalogError },
    /// The archive source is a dangling reference: reset the record's
    /// archive state (see `deploy_soft_reset`), persist it, and report
    /// `false` — not an error.
    SoftReset,
    /// Copy the single file at `source` into the target directory.
    CopyFile { source: String },
    /// Extract the archive at `source` into the (empty) target directory.
    Extract { source: String, password: Option<String> },
    /// Recursively copy the tree at `source` into the (empty) target
    /// directory.
    CopyDir { source: String },
}

/// The ghost value of a `DeployPlan`.
#[verifier::ext_equal]
pub ghost enum DeployPlanView {
    Reject { error: CatalogErrorView },
    SoftReset,
    CopyFile { source: Seq<char> },
    Extract { source: Seq<char>, password: Option<Seq<char>> },
    CopyDir { source: Seq<char> },
}

impl View for DeployPlan {
    type V = DeployPlanView;

    open spec fn view(&self) -> DeployPlanView {
        match self {
            DeployPlan::Reject { error } => DeployPlanView::Reject { error: error@ },
            DeployPlan::SoftReset => DeployPlanView::SoftReset,
            DeployPlan::CopyFile { source } => DeployPlanView::CopyFile { source: source@ },
            DeployPlan::Extract { source, password } => DeployPlanView::Extract {
                source: source@,
                password: password.deep_view(),
            },
            DeployPlan::CopyDir { source } => DeployPlanView::CopyDir { source: source@ },
        }
    }
}

/// The deploy decision for a record, the probed target directory and the
/// probed archive source:
/// - a target that is missing or not a directory is rejected;
/// - an archive state whose path no longer checks out is a soft reset;
/// - a `CommonFile` is copied into the target;
/// - an `ArchiveFile` or `Directory` demands an empty target, else the
///   operation is rejected with no state change;
/// - an `Absent` archive state is a soft reset (there is nothing to deploy).
pub open spec fn spec_deploy_plan(
    m: MetadataView,
    target: Seq<char>,
    target_probe: PathProbe,
    target_empty: bool,
    source_probe: PathProbe,
    archive_root: Seq<char>,
) -> DeployPlanView {
    if !(target_probe.exists && target_probe.is_dir) {
        DeployPlanView::Reject { error: CatalogErrorView::FilesystemError { path: target } }
    } else if !spec_archive_resolves(m.archive_info, source_probe) {
        DeployPlanView::SoftReset
    } else {
        let source = spec_archive_candidate(m.archive_info, archive_root).unwrap();
        match m.archive_info {
            ArchiveInfoView::CommonFile { .. } => DeployPlanView::CopyFile { source },
            ArchiveInfoView::ArchiveFile { password, .. } => if target_empty {
                DeployPlanView::Extract { source, password }
            } else {
                DeployPlanView::Reject {
                    error: CatalogErrorView::FilesystemError { path: target },
                }
            },
            ArchiveInfoView::Directory { .. } => if target_empty {
                DeployPlanView::CopyDir { source }
            } else {
                DeployPlanView::Reject {
                    error: CatalogErrorView::FilesystemError { path: target },
                }
            },
            ArchiveInfoView::Absent => DeployPlanView::SoftReset,
        }
    }
}

/// What a retract decision asks the caller to do.
#[derive(Debug, Clone)]
pub enum DeployOffPlan {
    /// Nothing is deployed: report `false` and leave the record untouched.
    AlreadyOff,
    /// The recorded path is gone from disk: reset the deployment state (see
    /// `deploy_off_soft_reset`), persist it, and report `false`.
    SoftReset,
    /// Remove the deployed file at `path`, then commit.
    RemoveFile { path: String },
    /// Remove the contents of the deployed directory at `path`, keeping the
    /// directory itself, then commit.
    ClearDir { path: String },
}

/// The ghost value of a `DeployOffPlan`.
#[verifier::ext_equal]
pub ghost enum DeployOffPlanView {
    AlreadyOff,
    SoftReset,
    RemoveFile { path: Seq<char> },
    ClearDir { path: Seq<char> },
}

impl View for DeployOffPlan {
    type V = DeployOffPlanView;

    open spec fn view(&self) -> DeployOffPlanView {
        match self {
            DeployOffPlan::AlreadyOff => DeployOffPlanView::AlreadyOff,
            DeployOffPlan::SoftReset => DeployOffPlanView::SoftReset,
            DeployOffPlan::RemoveFile { path } => DeployOffPlanView::RemoveFile { path: path@ },
            DeployOffPlan::ClearDir { path } => DeployOffPlanView::ClearDir { path: path@ },
        }
    }
}

/// The retract decision for a record and its probed deployment path.
pub open spec fn spec_deploy_off_plan(m: MetadataView, probe: PathProbe) -> DeployOffPlanView {
    match m.deploy_info {
        DeployInfoView::Absent => DeployOffPlanView::AlreadyOff,
        DeployInfoView::File { path } => if spec_deploy_resolves(m.deploy_info, probe) {
            DeployOffPlanView::RemoveFile { path }
        } else {
            DeployOffPlanView::SoftReset
        },
        DeployInfoView::Directory { path } => if spec_deploy_resolves(m.deploy_info, probe) {
            DeployOffPlanView::ClearDir { path }
        } else {
            DeployOffPlanView::SoftReset
        },
    }
}

/// A packaging plan: where the archive source directory is, where the
/// produced archive belongs, and the password to protect it with.
#[derive(Debug, Clone)]
pub struct ArchivePlan {
    /// The directory to package, taken from the record's archive path field.
    pub source_dir: String,
    /// The produced file's path relative to the archive root; stored in the
    /// record once packaging succeeds.
    pub dest_rel: String,
    /// The produced file's full path: the archive root joined with
    /// `dest_rel`. The caller hands this to the archiving tool.
    pub dest_abs: String,
    /// The password to protect the archive with, if any.
    pub password: Option<String>,
}

/// The archive file name for a record: the content kind's natural name with
/// the catalog's archive suffix.
pub open spec fn spec_archive_file_name(c: ContentInfoView, stamp: Seq<char>) -> Seq<char> {
    spec_content_file_name(c, stamp) + ".a"@
}

/// The relative destination of a record's packaged archive.
pub open spec fn spec_archive_dest_rel(c: ContentInfoView, stamp: Seq<char>) -> Seq<char> {
    spec_join_path(spec_path_rel(c), spec_archive_file_name(c, stamp))
}

impl Metadata {
    /// Decides what a deploy of this record must do; see `spec_deploy_plan`
    /// for the decision table. `target_probe` and `target_empty` describe
    /// the target directory, `source_probe` the archive state's candidate
    /// path (see `ArchiveInfo::candidate_path`).
    pub fn deploy_plan(
        &self,
        target: &str,
        target_probe: &PathProbe,
        target_empty: bool,
        source_probe: &PathProbe,
        archive_root: &str,
    ) -> (r: DeployPlan)
        ensures
            r@ == spec_deploy_plan(
                self@,
                target@,
                *target_probe,
                target_empty,
                *source_probe,
                archive_root@,
            ),
    {
        if !(target_probe.exists && target_probe.is_dir) {
            return DeployPlan::Reject {
                error: CatalogError::FilesystemError { path: String::from_str(target) },
            };
        }
        match self.archive_info.try_resolve(archive_root, source_probe) {
            Whether::That(_) => DeployPlan::SoftReset,
            Whether::This(source) => match &self.archive_info {
                ArchiveInfo::CommonFile { .. } => DeployPlan::CopyFile { source },
                ArchiveInfo::ArchiveFile { password, .. } => {
                    if target_empty {
                        DeployPlan::Extract { source, password: password.clone() }
                    } else {
                        DeployPlan::Reject {
                            error: CatalogError::FilesystemError {
                                path: String::from_str(target),
                            },
                        }
                    }
                },
                ArchiveInfo::Directory { .. } => {
                    if target_empty {
                        DeployPlan::CopyDir { source }
                    } else {
                        DeployPlan::Reject {
                            error: CatalogError::FilesystemError {
                                path: String::from_str(target),
                            },
                        }
                    }
                },
                ArchiveInfo::Absent => DeployPlan::SoftReset,
            },
        }
    }

    /// Records the soft failure of a deploy whose archive source was a
    /// dangling reference: the archive state resets, nothing else changes.
    /// The caller persists the record and reports `false`.
    pub fn deploy_soft_reset(&mut self)
        ensures
            final(self)@ == (MetadataView { archive_info: ArchiveInfoView::Absent, ..old(self)@ }),
            spec_well_formed(old(self)@) ==> spec_well_formed(final(self)@),
    {
        self.archive_info = ArchiveInfo::Absent;
        proof {
            assert(self@ =~= MetadataView { archive_info: ArchiveInfoView::Absent, ..old(self)@ });
        }
    }

    /// Records a deploy that the caller carried out: the deployment state
    /// transitions to `File` (for a copied file, recorded as the target
    /// directory joined with the source's file name) or `Directory` (for an
    /// extraction or tree copy, recorded as the target itself), and the
    /// mutation timestamp is refreshed.
    pub fn deploy_commit(&mut self, plan: &DeployPlan, target: &str, now: u64)
        requires
            plan@ is CopyFile || plan@ is Extract || plan@ is CopyDir,
        ensures
            plan@ is CopyFile ==> final(self).deploy_info@ == (DeployInfoView::File {
                path: spec_join_path(target@, crate::text::spec_basename(plan@->CopyFile_source)),
            }),
            plan@ is Extract || plan@ is CopyDir ==> final(self).deploy_info@
                == (DeployInfoView::Directory { path: target@ }),
            final(self)@ == (MetadataView {
                deploy_info: final(self)@.deploy_info,
                update_time: spec_bump(old(self)@.update_time, now),
                ..old(self)@
            }),
            spec_well_formed(old(self)@) ==> spec_well_formed(final(self)@),
    {
        match plan {
            DeployPlan::CopyFile { source } => {
                let name = crate::text::path_file_name(source.as_str());
                let dest = join_path(target, name.as_str());
                self.deploy_info = DeployInfo::new_file(dest);
            },
            DeployPlan::Extract { .. } | DeployPlan::CopyDir { .. } => {
                self.deploy_info = DeployInfo::new_dir(String::from_str(target));
            },
            DeployPlan::Reject { .. } | DeployPlan::SoftReset => {
            },
        }
        self.mark_update(now);
        proof {
            assert(self@ =~= MetadataView {
                deploy_info: self@.deploy_info,
                update_time: spec_bump(old(self)@.update_time, now),
                ..old(self)@
            });
        }
    }

    /// Decides what a retract of this record must do; see
    /// `spec_deploy_off_plan`. `probe` describes the recorded deployment
    /// path (see `DeployInfo::candidate_path`).
    pub fn deploy_off_plan(&self, probe: &PathProbe) -> (r: DeployOffPlan)
        ensures
            r@ == spec_deploy_off_plan(self@, *probe),
    {
        match &self.deploy_info {
            DeployInfo::Absent => DeployOffPlan::AlreadyOff,
            DeployInfo::File { path } => {
                if probe.exists {
                    DeployOffPlan::RemoveFile { path: path.clone() }
                } else {
                    DeployOffPlan::SoftReset
                }
            },
            DeployInfo::Directory { path } => {
                if probe.exists {
                    DeployOffPlan::ClearDir { path: path.clone() }
                } else {
                    DeployOffPlan::SoftReset
                }
            },
        }
    }

    /// Records the soft failure of a retract whose recorded path was
    /// already gone: the deployment state resets, nothing else changes —
    /// the record was already in its consistent end state. The caller
    /// persists the record and reports `false`.
    pub fn deploy_off_soft_reset(&mut self)
        ensures
            final(self)@ == (MetadataView { deploy_info: DeployInfoView::Absent, ..old(self)@ }),
            spec_well_formed(old(self)@) ==> spec_well_formed(final(self)@),
    {
        self.deploy_info = DeployInfo::Absent;
        proof {
            assert(self@ =~= MetadataView { deploy_info: DeployInfoView::Absent, ..old(self)@ });
        }
    }

    /// Records a retract that the caller carried out: the deployment state
    /// returns to `Absent` and the mutation timestamp is refreshed.
    pub fn deploy_off_commit(&mut self, now: u64)
        ensures
            final(self)@ == (MetadataView {
                deploy_info: DeployInfoView::Absent,
                update_time: spec_bump(old(self)@.update_time, now),
                ..old(self)@
            }),
            spec_well_formed(old(self)@) ==> spec_well_formed(final(self)@),
    {
        self.deploy_info = DeployInfo::Absent;
        self.mark_update(now);
        proof {
            assert(self@ =~= MetadataView {
                deploy_info: DeployInfoView::Absent,
                update_time: spec_bump(old(self)@.update_time, now),
                ..old(self)@
            });
        }
    }

    /// Decides how to package this record's archive source directory. The
    /// record's archive state must be `ArchiveFile`; its path field names
    /// the source directory to package (the field is output-only otherwise,
    /// overwritten by `apply_archive_result`). A missing or non-directory
    /// source is a filesystem error. `stamp` is a caller-formatted
    /// timestamp used when the content kind has no natural file name.
    pub fn archive_plan(&self, archive_root: &str, source_probe: &PathProbe, stamp: &str) -> (r:
        Result<ArchivePlan, CatalogError>)
        requires
            self@.archive_info is ArchiveFile,
        ensures
            !(source_probe.exists && source_probe.is_dir) ==> (r matches Err(e) && e@
                == (CatalogErrorView::FilesystemError {
                path: self@.archive_info->ArchiveFile_path,
            })),
            source_probe.exists && source_probe.is_dir ==> (r matches Ok(plan) && {
                &&& plan.source_dir@ == self@.archive_info->ArchiveFile_path
                &&& plan.dest_rel@ == spec_archive_dest_rel(self@.content_info, stamp@)
                &&& plan.dest_abs@ == spec_join_path(archive_root@, plan.dest_rel@)
                &&& plan.password.deep_view() == self@.archive_info->ArchiveFile_password
            }),
    {
        let (source_dir, password) = match &self.archive_info {
            ArchiveInfo::ArchiveFile { path, password, .. } => (path.clone(), password.clone()),
            _ => {
                unreached()
            },
        };
        if !(source_probe.exists && source_probe.is_dir) {
            return Err(CatalogError::FilesystemError { path: source_dir });
        }
        let dir_rel = self.content_info.path_rel();
        let mut file_name = self.content_info.file_name(stamp);
        file_name.append(".a");
        let dest_rel = join_path(dir_rel.as_str(), file_name.as_str());
        let dest_abs = join_path(archive_root, dest_rel.as_str());
        Ok(ArchivePlan { source_dir, dest_rel, dest_abs, password })
    }

    /// Records a packaging run that the caller carried out: the archive
    /// state becomes an `ArchiveFile` holding the measured size of the
    /// produced file, its path relative to the archive root, and the
    /// password the plan carried.
    pub fn apply_archive_result(&mut self, plan: &ArchivePlan, measured: u64)
        ensures
            final(self)@ == (MetadataView {
                archive_info: ArchiveInfoView::ArchiveFile {
                    size: measured,
                    path: plan.dest_rel@,
                    password: plan.password.deep_view(),
                },
                ..old(self)@
            }),
            spec_well_formed(old(self)@) ==> spec_well_formed(final(self)@),
    {
        self.archive_info = ArchiveInfo::ArchiveFile {
            size: measured,
            path: plan.dest_rel.clone(),
            password: plan.password.clone(),
        };
        proof {
            assert(self@ =~= MetadataView {
                archive_info: ArchiveInfoView::ArchiveFile {
                    size: measured,
                    path: plan.dest_rel@,
                    password: plan.password.deep_view(),
                },
                ..old(self)@
            });
        }
    }
}

// Hand-written equality for records and updates.
impl PartialEq for Metadata {
    fn eq(&self, other: &Self) -> (r: bool)
        ensures
            r == (self@ == other@),
    {
        let r = self.id.eq(&other.id) && self.title.eq(&other.title) && strings_eq(
            &self.alias,
            &other.alias,
        ) && strings_eq(&self.tags, &other.tags) && opt_string_eq(
            &self.collection,
            &other.collection,
        ) && opt_string_eq(&self.description, &other.description) && opt_string_eq(
            &self.image,
            &other.image,
        ) && self.content_info == other.content_info && self.archive_info == other.archive_info
            && self.deploy_info == other.deploy_info && self.create_time == other.create_time
            && self.update_time == other.update_time;
        proof {
            if r {
                assert(self@ =~= other@);
            }
        }
        r
    }
}

impl vstd::std_specs::cmp::PartialEqSpecImpl for Metadata {
    open spec fn obeys_eq_spec() -> bool {
        true
    }

    open spec fn eq_spec(&self, other: &Self) -> bool {
        self@ == other@
    }
}

} // verus!
