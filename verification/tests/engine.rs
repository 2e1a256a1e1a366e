use media_catalog::archive_info::ArchiveInfo;
use media_catalog::codec::encode_metadata;
use media_catalog::error::CatalogError;
use media_catalog::library::{
    import_records, list_deployed, metadata_collection_list, metadata_delete, metadata_get,
    metadata_get_all, metadata_update,
};
use media_catalog::metadata::{Metadata, MetadataOption};
use media_catalog::state::DataState;
use media_catalog::PathProbe;

fn empty_option() -> MetadataOption {
    MetadataOption {
        id: None,
        title: None,
        alias: None,
        tags: None,
        collection: None,
        description: None,
        image: None,
        content_info: None,
        archive_info: None,
        flag_create_archive: false,
    }
}

fn no_probe() -> PathProbe {
    PathProbe { exists: false, is_dir: false }
}

#[test]
fn create_assigns_fresh_id_and_equal_timestamps() {
    let mut state = DataState::new();
    let mut opt = empty_option();
    opt.title = Some("Demo".to_string());
    opt.collection = Some("favorites".to_string());
    let id = metadata_update(&mut state, opt, 1111, &no_probe(), 0)
        .expect("create must succeed")
        .expect("create must return the new id");
    assert_eq!(id.len(), 36);
    let m = metadata_get(&state, &id).expect("the new record must be stored");
    assert_eq!(m.id, id);
    assert_eq!(m.title, "Demo");
    assert_eq!(m.create_time, 1111);
    assert_eq!(m.update_time, 1111);
    assert!(matches!(m.archive_info, ArchiveInfo::Absent));
    let collections = metadata_collection_list(&state);
    assert_eq!(collections, vec!["favorites".to_string()]);
    // a second create draws a different id
    let id2 = metadata_update(&mut state, empty_option(), 1112, &no_probe(), 0)
        .unwrap()
        .unwrap();
    assert_ne!(id, id2);
    assert_eq!(metadata_get_all(&state).len(), 2);
}

#[test]
fn create_without_title_uses_placeholder() {
    let mut state = DataState::new();
    let id = metadata_update(&mut state, empty_option(), 5, &no_probe(), 0)
        .unwrap()
        .unwrap();
    let m = metadata_get(&state, &id).unwrap();
    assert_eq!(m.title, format!("Unnamed {}", id));
}

#[test]
fn patch_keeps_id_and_never_moves_update_time_backwards() {
    let mut state = DataState::new();
    let id = metadata_update(&mut state, empty_option(), 2000, &no_probe(), 0)
        .unwrap()
        .unwrap();
    let mut patch = empty_option();
    patch.id = Some(id.clone());
    patch.title = Some("Renamed".to_string());
    // the clock reads earlier than the creation instant: the timestamp holds
    let r = metadata_update(&mut state, patch, 1500, &no_probe(), 0).unwrap();
    assert!(r.is_none(), "a patch returns no new id");
    let m = metadata_get(&state, &id).unwrap();
    assert_eq!(m.title, "Renamed");
    assert_eq!(m.update_time, 2000);
    // a later clock moves it forward
    let mut patch2 = empty_option();
    patch2.id = Some(id.clone());
    let _ = metadata_update(&mut state, patch2, 3000, &no_probe(), 0).unwrap();
    let m2 = metadata_get(&state, &id).unwrap();
    assert_eq!(m2.update_time, 3000);
    assert_eq!(m2.create_time, 2000);
}

#[test]
fn patch_of_missing_id_fails_and_changes_nothing() {
    let mut state = DataState::new();
    let id = metadata_update(&mut state, empty_option(), 10, &no_probe(), 0)
        .unwrap()
        .unwrap();
    let before = metadata_get_all(&state);
    let mut patch = empty_option();
    patch.id = Some("no-such-id".to_string());
    patch.title = Some("nope".to_string());
    let err = metadata_update(&mut state, patch, 20, &no_probe(), 0).unwrap_err();
    assert!(matches!(err, CatalogError::NotFoundError { .. }));
    assert_eq!(err.message(), "not found: no-such-id");
    let after = metadata_get_all(&state);
    assert_eq!(after, before);
    assert!(metadata_get(&state, &id).is_some());
}

#[test]
fn patch_with_new_archive_info_remeasures_its_size() {
    let mut state = DataState::new();
    let id = metadata_update(&mut state, empty_option(), 10, &no_probe(), 0)
        .unwrap()
        .unwrap();
    let mut patch = empty_option();
    patch.id = Some(id.clone());
    patch.archive_info = Some(ArchiveInfo::CommonFile { size: 0, path: "/f.bin".to_string() });
    let probe = PathProbe { exists: true, is_dir: false };
    metadata_update(&mut state, patch, 20, &probe, 4321).unwrap();
    let m = metadata_get(&state, &id).unwrap();
    match m.archive_info {
        ArchiveInfo::CommonFile { size, ref path } => {
            assert_eq!(size, 4321);
            assert_eq!(path, "/f.bin");
        },
        _ => panic!("the archive state must be the patched one"),
    }
}

#[test]
fn delete_removes_record_and_deployed_entry() {
    let mut state = DataState::new();
    let mut opt = empty_option();
    opt.collection = Some("shelf".to_string());
    let id = metadata_update(&mut state, opt, 10, &no_probe(), 0)
        .unwrap()
        .unwrap();
    assert!(metadata_get(&state, &id).is_some());
    metadata_delete(&mut state, &id);
    assert!(metadata_get(&state, &id).is_none(), "after delete, get yields nothing");
    assert!(
        !list_deployed(&state).contains(&id),
        "after delete, the id is absent from the deployed list"
    );
    assert!(metadata_collection_list(&state).is_empty());
    // deleting a missing id removes nothing further
    metadata_delete(&mut state, &id);
    assert!(metadata_get_all(&state).is_empty());
}

#[test]
fn import_is_idempotent_upsert() {
    // build ten records through the engine, export them, then import into
    // an empty catalog
    let mut source = DataState::new();
    let mut ids = Vec::new();
    for k in 0..10u64 {
        let mut opt = empty_option();
        opt.title = Some(format!("Record {}", k));
        let id = metadata_update(&mut source, opt, 100 + k, &no_probe(), 0)
            .unwrap()
            .unwrap();
        ids.push(id);
    }
    let exported: Vec<Metadata> = metadata_get_all(&source);
    assert_eq!(exported.len(), 10);

    let mut fresh = DataState::new();
    import_records(&mut fresh, &exported);
    assert_eq!(metadata_get_all(&fresh).len(), 10);
    // re-importing the same entries leaves the count at ten
    import_records(&mut fresh, &exported);
    assert_eq!(metadata_get_all(&fresh).len(), 10);
    for id in &ids {
        let a = metadata_get(&source, id).unwrap();
        let b = metadata_get(&fresh, id).unwrap();
        assert_eq!(a, b);
        assert_eq!(encode_metadata(&a), encode_metadata(&b));
    }
}
