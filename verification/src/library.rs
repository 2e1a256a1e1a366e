//! The lifecycle engine: record creation, patching, deletion, listing,
//! bulk import, and the persistence steps of the deploy / retract state
//! machine, all over the in-memory `DataState`. The caller performs the
//! filesystem and subprocess work between a record's *plan* and the
//! engine's *finish* step, and persists the byte encodings the store hands
//! back.
use vstd::prelude::*;

use crate::archive_info::{spec_archive_resolves, ArchiveInfo, ArchiveInfoView};
use crate::codec::{decode_metadata, spec_dec_record};
use crate::deploy_info::DeployInfoView;
use crate::dl_site::DeployArg;
use crate::error::{CatalogError, CatalogErrorView};
use crate::metadata::{
    spec_bump, spec_create, spec_deploy_off_plan, spec_deploy_plan, spec_patch, spec_well_formed,
    DeployPlan, DeployPlanView, Metadata, MetadataOption, MetadataOptionView, MetadataView,
};
use crate::state::{
    lemma_find_put, lemma_find_remove, lemma_put_len, spec_collection_of, spec_contains_str,
    spec_deployed_in, spec_find, spec_has, spec_put, spec_remove_id, DataState,
};
use crate::text::join_path;
use crate::PathProbe;

verus! {

/// Relies on `uuid::Uuid::new_v4` and its display form: a freshly drawn
/// random identifier, rendered as 36 hyphenated lower-case hex characters.
/// Nothing can be promised about which identifier comes back.
#[verifier::external_body]
fn fresh_id() -> (r: String)
    ensures
        r@.len() == 36,
{
    uuid::Uuid::new_v4().to_string()
}

/// Relies on `chrono::Utc::now` and `timestamp_millis`: the current instant
/// as milliseconds since the Unix epoch, negative before 1970. Nothing can
/// be promised about which instant comes back.
#[verifier::external_body]
fn utc_now_millis() -> (r: i64)
{
    chrono::Utc::now().timestamp_millis()
}

/// The clock reading the engine's operations take, clamped to the epoch.
pub fn now_millis() -> u64 {
    let t = utc_now_millis();
    if t < 0 {
        0
    } else {
        t as u64
    }
}

/// Decodes one stored value, surfacing a decode failure as the
/// serialization error for that record id.
pub fn decode_stored(id: &str, bytes: &Vec<u8>) -> (r: Result<Metadata, CatalogError>)
    ensures
        match r {
            Ok(m) => spec_dec_record(bytes@) matches Some((v, k)) && v == m@ && k == bytes@.len(),
            Err(e) => {
                &&& e@ == (CatalogErrorView::SerializationError { id: id@ })
                &&& match spec_dec_record(bytes@) {
                    Some((v, k)) => k != bytes@.len(),
                    None => true,
                }
            },
        },
{
    match decode_metadata(bytes) {
        Some(m) => Ok(m),
        None => Err(CatalogError::SerializationError { id: String::from_str(id) }),
    }
}

/// The record a patch leaves behind: the field-level patch, then — when the
/// patch changed the archive state and the new state's path checks out —
/// the archive size remeasured from disk.
pub open spec fn spec_patched(
    m0: MetadataView,
    opt: MetadataOptionView,
    now: u64,
    probe: PathProbe,
    measured: u64,
) -> MetadataView {
    let p = spec_patch(m0, opt, now);
    if p.archive_info != m0.archive_info && spec_archive_resolves(p.archive_info, probe) {
        MetadataView {
            archive_info: ArchiveInfo::spec_with_size(p.archive_info, measured),
            ..p
        }
    } else {
        p
    }
}

/// Creates or patches a record from a partial update, as the update's `id`
/// field directs, and mirrors the result into the index caches.
///
/// - An update without an id creates a record under a freshly drawn
///   identifier and returns it; the impossible case that the drawn
///   identifier is already a key is refused as a store error with nothing
///   changed.
/// - An update with an id patches that record and returns no identifier; an
///   id that is not a key fails with the not-found error and changes
///   nothing.
///
/// When the patch replaces the archive state, its recorded size is refreshed
/// from `archive_probe` and `measured`: the caller's probe of the new
/// state's candidate path and that path's measured size on disk. Packaging
/// requested by the update's flag is the caller's separate step, through
/// `Metadata::archive_plan` and `Metadata::apply_archive_result`.
pub fn metadata_update(
    state: &mut DataState,
    opt: MetadataOption,
    now: u64,
    archive_probe: &PathProbe,
    measured: u64,
) -> (r: Result<Option<String>, CatalogError>)
    requires
        old(state).inv(),
    ensures
        final(state).inv(),
        match r {
            Ok(Some(id)) => {
                &&& opt@.id is None
                &&& !spec_has(old(state).records_view(), id@)
                &&& final(state).records_view() == spec_put(
                    old(state).records_view(),
                    spec_create(opt@, id@, now),
                )
                &&& final(state).deployed_view() == old(state).deployed_view()
                &&& spec_find(final(state).records_view(), id@) == Some(
                    spec_create(opt@, id@, now),
                )
                &&& match spec_create(opt@, id@, now).collection {
                    Some(name) => spec_contains_str(final(state).collections_view(), name),
                    None => final(state).collections_view() == old(state).collections_view(),
                }
            },
            Ok(None) => opt@.id matches Some(key) && spec_find(old(state).records_view(), key)
                matches Some(m0) && {
                let patched = spec_patched(m0, opt@, now, *archive_probe, measured);
                &&& final(state).records_view() == spec_put(old(state).records_view(), patched)
                &&& spec_find(final(state).records_view(), key) == Some(patched)
                &&& patched.id == m0.id
                &&& patched.update_time >= m0.update_time
                &&& patched.deploy_info is Absent ==> final(state).deployed_view() == old(
                    state,
                ).deployed_view()
                &&& !(patched.deploy_info is Absent) ==> spec_contains_str(
                    final(state).deployed_view(),
                    key,
                ) && forall|q: Seq<char>| q != key ==> spec_contains_str(
                    final(state).deployed_view(),
                    q,
                ) == spec_contains_str(old(state).deployed_view(), q)
                &&& match patched.collection {
                    Some(name) => spec_contains_str(final(state).collections_view(), name),
                    None => final(state).collections_view() == old(state).collections_view(),
                }
            },
            Err(e) => {
                &&& final(state).records_view() == old(state).records_view()
                &&& final(state).collections_view() == old(state).collections_view()
                &&& final(state).deployed_view() == old(state).deployed_view()
                &&& match e@ {
                    CatalogErrorView::NotFoundError { id: k } => opt@.id == Some(k) && !spec_has(
                        old(state).records_view(),
                        k,
                    ),
                    CatalogErrorView::StoreError { .. } => opt@.id is None,
                    _ => false,
                }
            },
        },
{
    let has_id = opt.id.is_some();
    if has_id {
        let key = match &opt.id {
            Some(k) => k.clone(),
            None => unreached(),
        };
        let existing = match state.get(key.as_str()) {
            Some(m) => m.clone_record(),
            None => {
                return Err(CatalogError::NotFoundError { id: key });
            },
        };
        let ghost m0 = existing@;
        let mut record = existing;
        let old_archive = record.archive_info.duplicate();
        record.patch(opt, now);
        if !(old_archive == record.archive_info) {
            record.archive_info.update_size(archive_probe, measured);
        }
        proof {
            crate::state::lemma_find_id(state.records_view(), key@);
            assert(m0.id == key@);
            assert(record@ =~= spec_patched(m0, opt@, now, *archive_probe, measured));
            assert(record@.id == key@);
            lemma_find_put(state.records_view(), record@, key@);
        }
        sync_caches(state, &record);
        state.put(record);
        Ok(None)
    } else {
        let id = fresh_id();
        match state.get(id.as_str()) {
            Some(_) => Err(
                CatalogError::StoreError {
                    detail: String::from_str("generated identifier is already a key"),
                },
            ),
            None => {
                let record = Metadata::create(opt, id.clone(), now);
                proof {
                    assert(record@.deploy_info is Absent);
                    lemma_find_put(state.records_view(), record@, id@);
                }
                sync_caches(state, &record);
                state.put(record);
                Ok(Some(id))
            },
        }
    }
}

/// Mirrors a record into the index caches: its collection name, when set,
/// joins the collection cache; its id joins the deployment cache when the
/// record is deployed.
fn sync_caches(state: &mut DataState, m: &Metadata)
    requires
        old(state).inv(),
    ensures
        final(state).inv(),
        final(state).records_view() == old(state).records_view(),
        m@.collection matches Some(name) ==> spec_contains_str(
            final(state).collections_view(),
            name,
        ),
        m@.collection is None ==> final(state).collections_view() == old(
            state,
        ).collections_view(),
        m@.deploy_info is Absent ==> final(state).deployed_view() == old(state).deployed_view(),
        !(m@.deploy_info is Absent) ==> spec_contains_str(final(state).deployed_view(), m@.id)
            && forall|q: Seq<char>| q != m@.id ==> spec_contains_str(
            final(state).deployed_view(),
            q,
        ) == spec_contains_str(old(state).deployed_view(), q),
{
    match &m.collection {
        Some(name) => {
            state.collection_cache_insert(name.as_str());
        },
        None => {},
    }
    match &m.deploy_info {
        crate::deploy_info::DeployInfo::Absent => {},
        _ => {
            state.deployment_cache_insert(m.id.as_str());
        },
    }
}

/// The record carrying `key`, if any.
pub fn metadata_get(state: &DataState, key: &str) -> (r: Option<Metadata>)
    ensures
        match r {
            Some(m) => spec_find(state.records_view(), key@) == Some(m@),
            None => spec_find(state.records_view(), key@) is None,
        },
{
    match state.get(key) {
        Some(m) => Some(m.clone_record()),
        None => None,
    }
}

/// All records, in table order.
pub fn metadata_get_all(state: &DataState) -> (r: Vec<Metadata>)
    ensures
        r.deep_view() == state.records_view(),
{
    state.scan()
}

/// Removes the record carrying `key`, unmirroring the caches with the
/// fields of the record that was just deleted. A key that was never
/// present removes nothing. Afterwards the key is neither in the table nor
/// in the deployed-ids cache.
pub fn metadata_delete(state: &mut DataState, key: &str)
    requires
        old(state).inv(),
    ensures
        final(state).inv(),
        final(state).records_view() == spec_remove_id(old(state).records_view(), key@),
        spec_find(final(state).records_view(), key@) is None,
        !spec_contains_str(final(state).deployed_view(), key@),
        forall|q: Seq<char>| q != key@ ==> spec_contains_str(final(state).deployed_view(), q)
            == spec_contains_str(old(state).deployed_view(), q),
        match spec_find(old(state).records_view(), key@) {
            Some(removed) => match removed.collection {
                Some(name) => !spec_contains_str(final(state).collections_view(), name)
                    && forall|q: Seq<char>| q != name ==> spec_contains_str(
                    final(state).collections_view(),
                    q,
                ) == spec_contains_str(old(state).collections_view(), q),
                None => final(state).collections_view() == old(state).collections_view(),
            },
            None => final(state).collections_view() == old(state).collections_view(),
        },
{
    proof {
        crate::state::lemma_inv_unique(*state);
        lemma_find_remove(state.records_view(), key@, key@);
    }
    let removed = state.remove(key);
    match removed {
        Some(m) => {
            match &m.collection {
                Some(name) => {
                    state.collection_cache_delete(name.as_str());
                },
                None => {},
            }
        },
        None => {},
    }
    state.deployment_cache_delete(key);
}

/// A snapshot of the distinct collection names.
pub fn metadata_collection_list(state: &DataState) -> (r: Vec<String>)
    ensures
        r.deep_view() == state.collections_view(),
{
    state.collection_cache_list()
}

/// A snapshot of the currently-deployed record ids.
pub fn list_deployed(state: &DataState) -> (r: Vec<String>)
    ensures
        r.deep_view() == state.deployed_view(),
{
    state.deployment_cache_list()
}

/// The target directory a deploy request names: the configured deployment
/// root extended with the record's title, or the explicit target. A
/// request that names neither is refused.
pub fn deploy_target(arg: &DeployArg, path_deploy: Option<&String>, title: &str) -> (r: Result<
    String,
    CatalogError,
>)
    requires
        arg.use_config_dir ==> path_deploy is Some,
    ensures
        match r {
            Ok(t) => {
                &&& arg.use_config_dir ==> t@ == crate::text::spec_join_path(
                    path_deploy.unwrap()@,
                    title@,
                )
                &&& !arg.use_config_dir ==> arg.target_dir.deep_view() == Some(t@)
            },
            Err(e) => !arg.use_config_dir && arg.target_dir is None && e@ matches
                CatalogErrorView::ValidationError { .. },
        },
{
    if arg.use_config_dir {
        let root = match path_deploy {
            Some(p) => p,
            None => unreached(),
        };
        Ok(join_path(root.as_str(), title))
    } else {
        match &arg.target_dir {
            Some(t) => Ok(t.clone()),
            None => Err(CatalogError::ValidationError { field: String::from_str("target_dir") }),
        }
    }
}

/// Finishes a deploy that the caller carried out: the record's deployment
/// transition is committed, the record is upserted, and its id joins the
/// deployed-ids cache. Returns the committed record for persistence.
pub fn metadata_deploy_finish(
    state: &mut DataState,
    m: Metadata,
    plan: &DeployPlan,
    target: &str,
    now: u64,
) -> (r: Metadata)
    requires
        old(state).inv(),
        plan@ is CopyFile || plan@ is Extract || plan@ is CopyDir,
    ensures
        final(state).inv(),
        !(r@.deploy_info is Absent),
        r@.id == m@.id,
        r@.update_time == spec_bump(m@.update_time, now),
        final(state).records_view() == spec_put(old(state).records_view(), r@),
        spec_find(final(state).records_view(), m@.id) == Some(r@),
        spec_contains_str(final(state).deployed_view(), m@.id),
        spec_well_formed(m@) ==> spec_well_formed(r@),
{
    let mut record = m;
    record.deploy_commit(plan, target, now);
    proof {
        lemma_find_put(state.records_view(), record@, record@.id);
    }
    let out = record.clone_record();
    state.deployment_cache_insert(record.id.as_str());
    state.put(record);
    out
}

/// Records the soft failure of a deploy whose archive source was a
/// dangling reference: the record's archive state resets and the reset
/// record is upserted, so the catalog heals rather than erroring. Returns
/// the reset record for persistence.
pub fn metadata_deploy_soft_fail(state: &mut DataState, m: Metadata) -> (r: Metadata)
    requires
        old(state).inv(),
    ensures
        final(state).inv(),
        r@ == (MetadataView { archive_info: ArchiveInfoView::Absent, ..m@ }),
        final(state).records_view() == spec_put(old(state).records_view(), r@),
        final(state).deployed_view() == old(state).deployed_view(),
{
    let mut record = m;
    record.deploy_soft_reset();
    let out = record.clone_record();
    state.put(record);
    out
}

/// Finishes a retract that the caller carried out: the record returns to
/// the not-deployed state, is upserted, and its id leaves the deployed-ids
/// cache. Returns the committed record for persistence.
pub fn metadata_deploy_off_finish(state: &mut DataState, m: Metadata, now: u64) -> (r: Metadata)
    requires
        old(state).inv(),
    ensures
        final(state).inv(),
        r@ == (MetadataView {
            deploy_info: DeployInfoView::Absent,
            update_time: spec_bump(m@.update_time, now),
            ..m@
        }),
        final(state).records_view() == spec_put(old(state).records_view(), r@),
        spec_find(final(state).records_view(), m@.id) == Some(r@),
        !spec_contains_str(final(state).deployed_view(), m@.id),
        spec_well_formed(m@) ==> spec_well_formed(r@),
{
    let mut record = m;
    record.deploy_off_commit(now);
    proof {
        lemma_find_put(state.records_view(), record@, record@.id);
    }
    let out = record.clone_record();
    state.deployment_cache_delete(record.id.as_str());
    state.put(record);
    out
}

/// Records the soft failure of a retract whose recorded path was already
/// gone: the deployment state resets, the reset record is upserted, and
/// the id leaves the deployed-ids cache — the already-consistent end
/// state. Returns the reset record for persistence.
pub fn metadata_deploy_off_soft_fail(state: &mut DataState, m: Metadata) -> (r: Metadata)
    requires
        old(state).inv(),
    ensures
        final(state).inv(),
        r@ == (MetadataView { deploy_info: DeployInfoView::Absent, ..m@ }),
        final(state).records_view() == spec_put(old(state).records_view(), r@),
        !spec_contains_str(final(state).deployed_view(), m@.id),
{
    let mut record = m;
    record.deploy_off_soft_reset();
    let out = record.clone_record();
    state.deployment_cache_delete(record.id.as_str());
    state.put(record);
    out
}

/// The table after a bulk import: each entry upserted by id, in order, so
/// a later entry with the same id overwrites an earlier one.
pub open spec fn spec_import(s: Seq<MetadataView>, e: Seq<MetadataView>) -> Seq<MetadataView>
    decreases e.len(),
{
    if e.len() == 0 {
        s
    } else {
        spec_put(spec_import(s, e.drop_last()), e.last())
    }
}

/// The last entry of `e` carrying id `q`, if any: the one a bulk import
/// leaves in the table.
pub open spec fn spec_find_entry(e: Seq<MetadataView>, q: Seq<char>) -> Option<MetadataView>
    decreases e.len(),
{
    if e.len() == 0 {
        None
    } else if e.last().id == q {
        Some(e.last())
    } else {
        spec_find_entry(e.drop_last(), q)
    }
}

/// The upsert law of bulk import: after an import, an id maps to the last
/// imported entry that carried it, and to its old record otherwise.
pub proof fn lemma_import_find(s: Seq<MetadataView>, e: Seq<MetadataView>, q: Seq<char>)
    ensures
        spec_find(spec_import(s, e), q) == match spec_find_entry(e, q) {
            Some(m) => Some(m),
            None => spec_find(s, q),
        },
    decreases e.len(),
{
    if e.len() > 0 {
        lemma_import_find(s, e.drop_last(), q);
        lemma_find_put(spec_import(s, e.drop_last()), e.last(), q);
    }
}

/// Every id of `e` has a last entry in `e`.
proof fn lemma_find_entry_has(e: Seq<MetadataView>, i: int)
    requires
        0 <= i < e.len(),
    ensures
        spec_find_entry(e, e[i].id) is Some,
    decreases e.len(),
{
    if e.last().id == e[i].id {
    } else {
        assert(i < e.len() - 1);
        assert(e.drop_last()[i] == e[i]);
        lemma_find_entry_has(e.drop_last(), i);
    }
}

/// Importing entries whose ids are all already keys does not change the
/// table's size.
proof fn lemma_import_len_subsumed(t: Seq<MetadataView>, e: Seq<MetadataView>)
    requires
        forall|i: int| 0 <= i < e.len() ==> spec_has(t, #[trigger] e[i].id),
    ensures
        spec_import(t, e).len() == t.len(),
    decreases e.len(),
{
    if e.len() > 0 {
        assert(forall|i: int| 0 <= i < e.drop_last().len() ==> spec_has(
            t,
            #[trigger] e.drop_last()[i].id,
        ));
        lemma_import_len_subsumed(t, e.drop_last());
        lemma_import_find(t, e.drop_last(), e.last().id);
        assert(spec_has(t, e.last().id));
        assert(spec_has(spec_import(t, e.drop_last()), e.last().id));
        lemma_put_len(spec_import(t, e.drop_last()), e.last());
    }
}

/// The idempotence law of bulk import: importing the same entries twice
/// yields, for every id, the same record as importing them once, and the
/// same table size.
pub proof fn lemma_import_idempotent(s: Seq<MetadataView>, e: Seq<MetadataView>)
    ensures
        forall|q: Seq<char>|
            #[trigger] spec_find(spec_import(spec_import(s, e), e), q) == spec_find(
                spec_import(s, e),
                q,
            ),
        spec_import(spec_import(s, e), e).len() == spec_import(s, e).len(),
{
    let a = spec_import(s, e);
    assert forall|q: Seq<char>|
        #[trigger] spec_find(spec_import(a, e), q) == spec_find(a, q) by {
        lemma_import_find(a, e, q);
        lemma_import_find(s, e, q);
    }
    assert forall|i: int| 0 <= i < e.len() implies spec_has(a, #[trigger] e[i].id) by {
        lemma_find_entry_has(e, i);
        lemma_import_find(s, e, e[i].id);
    }
    lemma_import_len_subsumed(a, e);
}

/// Importing entries with pairwise distinct, fresh ids grows the table by
/// exactly their count; into an empty table, the count is theirs.
pub proof fn lemma_import_count_fresh(s: Seq<MetadataView>, e: Seq<MetadataView>)
    requires
        forall|i: int, j: int| 0 <= i < j < e.len() ==> e[i].id != e[j].id,
        forall|i: int| 0 <= i < e.len() ==> !spec_has(s, #[trigger] e[i].id),
    ensures
        spec_import(s, e).len() == s.len() + e.len(),
    decreases e.len(),
{
    if e.len() > 0 {
        assert(forall|i: int| 0 <= i < e.drop_last().len() ==> !spec_has(
            s,
            #[trigger] e.drop_last()[i].id,
        ));
        lemma_import_count_fresh(s, e.drop_last());
        lemma_import_find(s, e.drop_last(), e.last().id);
        assert(spec_find_entry(e.drop_last(), e.last().id) is None) by {
            if spec_find_entry(e.drop_last(), e.last().id) is Some {
                lemma_find_entry_id(e.drop_last(), e.last().id);
                let w = choose|w: int|
                    0 <= w < e.drop_last().len() && e.drop_last()[w].id == e.last().id;
                assert(e[w].id == e[e.len() - 1].id);
            }
        }
        assert(!spec_has(spec_import(s, e.drop_last()), e.last().id));
        lemma_put_len(spec_import(s, e.drop_last()), e.last());
    }
}

/// A present last entry means some index of `e` carries the id.
proof fn lemma_find_entry_id(e: Seq<MetadataView>, q: Seq<char>)
    requires
        spec_find_entry(e, q) is Some,
    ensures
        exists|i: int| 0 <= i < e.len() && e[i].id == q,
    decreases e.len(),
{
    if e.last().id == q {
        assert(e[e.len() - 1].id == q);
    } else {
        lemma_find_entry_id(e.drop_last(), q);
        let i = choose|i: int| 0 <= i < e.drop_last().len() && e.drop_last()[i].id == q;
        assert(e[i].id == q);
    }
}

/// Upserts each entry by id, in order, then rebuilds both index caches
/// from the resulting table, as a bulk import demands. Re-importing the
/// same entries is idempotent (see `lemma_import_idempotent`).
pub fn import_records(state: &mut DataState, entries: &Vec<Metadata>)
    requires
        old(state).inv(),
    ensures
        final(state).inv(),
        final(state).records_view() == spec_import(
            old(state).records_view(),
            entries.deep_view(),
        ),
        forall|q: Seq<char>| #[trigger] spec_contains_str(final(state).collections_view(), q)
            <==> spec_collection_of(final(state).records_view(), q),
        forall|q: Seq<char>| #[trigger] spec_contains_str(final(state).deployed_view(), q)
            <==> spec_deployed_in(final(state).records_view(), q),
{
    let ghost s0 = state.records_view();
    let n = entries.len();
    let mut i: usize = 0;
    while i < n
        invariant
            old(state).inv(),
            state.inv(),
            n == entries@.len(),
            i <= n,
            state.records_view() == spec_import(s0, entries.deep_view().take(i as int)),
        decreases n - i,
    {
        proof {
            assert(entries.deep_view()[i as int] == entries@[i as int]@);
            assert(entries.deep_view().take(i + 1).drop_last() =~= entries.deep_view().take(
                i as int,
            ));
            assert(entries.deep_view().take(i + 1).last() == entries.deep_view()[i as int]);
        }
        state.put(entries[i].clone_record());
        i += 1;
    }
    proof {
        assert(entries.deep_view().take(n as int) =~= entries.deep_view());
    }
    state.rebuild_caches();
}

/// Law: a record created from a partial update has equal creation and
/// mutation timestamps, carries the id it was created under, and starts
/// undeployed.
pub proof fn lemma_create_fresh(opt: MetadataOptionView, id: Seq<char>, now: u64)
    ensures
        spec_create(opt, id, now).create_time == spec_create(opt, id, now).update_time,
        spec_create(opt, id, now).id == id,
        spec_create(opt, id, now).deploy_info is Absent,
        spec_well_formed(spec_create(opt, id, now)),
{
}

/// Law: a patch never changes a record's id, and never moves its mutation
/// timestamp backwards.
pub proof fn lemma_patch_monotone(m: MetadataView, opt: MetadataOptionView, now: u64)
    ensures
        spec_patch(m, opt, now).id == m.id,
        spec_patch(m, opt, now).update_time >= m.update_time,
        spec_patch(m, opt, now).create_time == m.create_time,
{
}

/// Law: deploying an archive or directory source into a target directory
/// that is not empty is rejected with a filesystem error naming the
/// target; the caller mutates nothing on a rejection, so the record's
/// deployment state is unchanged.
pub proof fn lemma_deploy_nonempty_target_rejected(
    m: MetadataView,
    target: Seq<char>,
    target_probe: PathProbe,
    source_probe: PathProbe,
    archive_root: Seq<char>,
)
    requires
        target_probe.exists && target_probe.is_dir,
        m.archive_info is ArchiveFile || m.archive_info is Directory,
        spec_archive_resolves(m.archive_info, source_probe),
    ensures
        spec_deploy_plan(m, target, target_probe, false, source_probe, archive_root)
            == (DeployPlanView::Reject {
            error: CatalogErrorView::FilesystemError { path: target },
        }),
{
}

/// Law: retracting a record that is not deployed asks for nothing — the
/// caller reports `false` and leaves the record untouched.
pub proof fn lemma_deploy_off_absent(m: MetadataView, probe: PathProbe)
    requires
        m.deploy_info is Absent,
    ensures
        spec_deploy_off_plan(m, probe) is AlreadyOff,
{
}

} // verus!
