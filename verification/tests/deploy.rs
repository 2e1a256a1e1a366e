use media_catalog::archive_info::ArchiveInfo;
use media_catalog::deploy_info::DeployInfo;
use media_catalog::error::CatalogError;
use media_catalog::library::{
    deploy_target, list_deployed, metadata_deploy_finish, metadata_deploy_off_finish,
    metadata_deploy_off_soft_fail, metadata_deploy_soft_fail, metadata_get, metadata_update,
};
use media_catalog::metadata::{DeployOffPlan, DeployPlan, Metadata, MetadataOption};
use media_catalog::state::DataState;
use media_catalog::dl_site::DeployArg;
use media_catalog::PathProbe;

fn empty_option() -> MetadataOption {
    MetadataOption {
        id: None,
        title: None,
        alias: None,
        tags: None,
        collection: None,
        description: None,
        image: None,
        content_info: None,
        archive_info: None,
        flag_create_archive: false,
    }
}

fn no_probe() -> PathProbe {
    PathProbe { exists: false, is_dir: false }
}

fn dir_probe() -> PathProbe {
    PathProbe { exists: true, is_dir: true }
}

fn file_probe() -> PathProbe {
    PathProbe { exists: true, is_dir: false }
}

fn record_with_archive(archive: ArchiveInfo) -> Metadata {
    let mut state = DataState::new();
    let mut opt = empty_option();
    opt.archive_info = Some(archive);
    let id = metadata_update(&mut state, opt, 100, &no_probe(), 0)
        .unwrap()
        .unwrap();
    metadata_get(&state, &id).unwrap()
}

#[test]
fn deploy_into_nonempty_target_fails_without_state_change() {
    let archive = ArchiveInfo::ArchiveFile {
        size: 10,
        path: "undefined/Content-1.a".to_string(),
        password: None,
    };
    let m = record_with_archive(archive);
    let plan = m.deploy_plan("/out", &dir_probe(), false, &file_probe(), "/root/archive");
    match plan {
        DeployPlan::Reject { error } => {
            assert!(matches!(error, CatalogError::FilesystemError { .. }));
            assert_eq!(error.message(), "filesystem error at /out");
        },
        _ => panic!("a non-empty target must be rejected"),
    }
    // the caller mutates nothing on a rejection: deploy_info is untouched
    assert!(matches!(m.deploy_info, DeployInfo::Absent));

    let dir_archive = ArchiveInfo::Directory { size: 10, path: "/src/tree".to_string() };
    let m2 = record_with_archive(dir_archive);
    let plan2 = m2.deploy_plan("/out", &dir_probe(), false, &dir_probe(), "/root/archive");
    assert!(matches!(plan2, DeployPlan::Reject { .. }));
}

#[test]
fn deploy_missing_target_directory_is_rejected() {
    let m = record_with_archive(ArchiveInfo::CommonFile { size: 1, path: "/f".to_string() });
    let plan = m.deploy_plan("/missing", &no_probe(), true, &file_probe(), "/root/archive");
    assert!(matches!(plan, DeployPlan::Reject { .. }));
}

#[test]
fn deploy_with_dangling_source_soft_resets() {
    let m = record_with_archive(ArchiveInfo::CommonFile { size: 1, path: "/gone".to_string() });
    let plan = m.deploy_plan("/out", &dir_probe(), true, &no_probe(), "/root/archive");
    assert!(matches!(plan, DeployPlan::SoftReset));
    let mut state = DataState::new();
    let healed = metadata_deploy_soft_fail(&mut state, m);
    assert!(matches!(healed.archive_info, ArchiveInfo::Absent));
    assert!(matches!(healed.deploy_info, DeployInfo::Absent));
}

#[test]
fn deploy_archive_then_retract_round_trip() {
    // deploy an archive record into an empty /out, then retract it
    let archive = ArchiveInfo::ArchiveFile {
        size: 555,
        path: "undefined/Content-x.a".to_string(),
        password: Some("pw".to_string()),
    };
    let mut state = DataState::new();
    let mut opt = empty_option();
    opt.title = Some("Demo".to_string());
    opt.archive_info = Some(archive);
    let id = metadata_update(&mut state, opt, 100, &no_probe(), 0)
        .unwrap()
        .unwrap();
    let m = metadata_get(&state, &id).unwrap();

    let plan = m.deploy_plan("/out", &dir_probe(), true, &file_probe(), "/root/archive");
    match &plan {
        DeployPlan::Extract { source, password } => {
            assert_eq!(source, "/root/archive/undefined/Content-x.a");
            assert_eq!(password.as_deref(), Some("pw"));
        },
        _ => panic!("an archive deploy into an empty directory extracts"),
    }
    let committed = metadata_deploy_finish(&mut state, m, &plan, "/out", 200);
    match &committed.deploy_info {
        DeployInfo::Directory { path } => assert_eq!(path, "/out"),
        _ => panic!("an extraction deploys a directory"),
    }
    assert_eq!(committed.update_time, 200);
    assert!(list_deployed(&state).contains(&id));

    // retract: the deployed directory still exists on disk
    let plan_off = committed.deploy_off_plan(&dir_probe());
    match &plan_off {
        DeployOffPlan::ClearDir { path } => assert_eq!(path, "/out"),
        _ => panic!("a deployed directory is cleared on retract"),
    }
    let retracted = metadata_deploy_off_finish(&mut state, committed, 300);
    assert!(matches!(retracted.deploy_info, DeployInfo::Absent));
    assert_eq!(retracted.update_time, 300);
    assert!(!list_deployed(&state).contains(&id));
}

#[test]
fn deploy_common_file_records_copied_file_path() {
    let m = record_with_archive(ArchiveInfo::CommonFile {
        size: 3,
        path: "/files/demo.bin".to_string(),
    });
    let plan = m.deploy_plan("/out", &dir_probe(), false, &file_probe(), "/root/archive");
    match &plan {
        DeployPlan::CopyFile { source } => assert_eq!(source, "/files/demo.bin"),
        _ => panic!("a common file deploy copies; the target need not be empty"),
    }
    let mut state = DataState::new();
    let committed = metadata_deploy_finish(&mut state, m, &plan, "/out", 400);
    match &committed.deploy_info {
        DeployInfo::File { path } => assert_eq!(path, "/out/demo.bin"),
        _ => panic!("a copied file deploys as a file"),
    }
}

#[test]
fn deploy_off_when_not_deployed_returns_false_and_changes_nothing() {
    let m = record_with_archive(ArchiveInfo::Absent);
    let before_update_time = m.update_time;
    let plan = m.deploy_off_plan(&no_probe());
    assert!(matches!(plan, DeployOffPlan::AlreadyOff));
    // the caller reports false and leaves the record untouched
    assert!(matches!(m.deploy_info, DeployInfo::Absent));
    assert_eq!(m.update_time, before_update_time);
}

#[test]
fn deploy_off_with_missing_path_soft_resets() {
    let mut state = DataState::new();
    let mut m = record_with_archive(ArchiveInfo::Absent);
    m.deploy_info = DeployInfo::File { path: "/out/lost.bin".to_string() };
    let t0 = m.update_time;
    let plan = m.deploy_off_plan(&no_probe());
    assert!(matches!(plan, DeployOffPlan::SoftReset));
    let healed = metadata_deploy_off_soft_fail(&mut state, m);
    assert!(matches!(healed.deploy_info, DeployInfo::Absent));
    assert_eq!(healed.update_time, t0, "a soft reset does not refresh the timestamp");
}

#[test]
fn deploy_target_resolution() {
    let arg = DeployArg { use_config_dir: true, target_dir: None };
    let root = "/deploy/root".to_string();
    let t = deploy_target(&arg, Some(&root), "Demo").unwrap();
    assert_eq!(t, "/deploy/root/Demo");

    let arg2 = DeployArg { use_config_dir: false, target_dir: Some("/custom".to_string()) };
    let t2 = deploy_target(&arg2, None, "Demo").unwrap();
    assert_eq!(t2, "/custom");

    let arg3 = DeployArg { use_config_dir: false, target_dir: None };
    let err = deploy_target(&arg3, None, "Demo").unwrap_err();
    assert!(matches!(err, CatalogError::ValidationError { .. }));
}

#[test]
fn archive_packaging_records_measured_size_and_relative_path() {
    // create with an archive-file source directory and the packaging flag:
    // packaging is planned, carried out by the caller, then applied
    let mut state = DataState::new();
    let mut opt = empty_option();
    opt.title = Some("Demo".to_string());
    opt.archive_info = Some(ArchiveInfo::ArchiveFile {
        size: 0,
        path: "/src".to_string(),
        password: None,
    });
    opt.flag_create_archive = true;
    let id = metadata_update(&mut state, opt, 100, &no_probe(), 0)
        .unwrap()
        .unwrap();
    let mut m = metadata_get(&state, &id).unwrap();

    let plan = m
        .archive_plan("/root/archive", &dir_probe(), "20260101000000")
        .expect("an existing source directory can be packaged");
    assert_eq!(plan.source_dir, "/src");
    assert_eq!(plan.dest_rel, "undefined/Content-20260101000000.a");
    assert_eq!(plan.dest_abs, "/root/archive/undefined/Content-20260101000000.a");

    // the tool produced an archive of 987 bytes (the source held 1500)
    m.apply_archive_result(&plan, 987);
    match &m.archive_info {
        ArchiveInfo::ArchiveFile { size, path, password } => {
            assert_eq!(*size, 987, "the recorded size is the produced file's, not the source's");
            assert!(path.starts_with("undefined/"), "the stored path begins with the content kind");
            assert!(password.is_none());
        },
        _ => panic!("packaging leaves an archive-file state"),
    }

    let missing = m.archive_plan("/root/archive", &no_probe(), "20260101000000");
    assert!(matches!(missing, Err(CatalogError::FilesystemError { .. })));
    let not_dir = m.archive_plan("/root/archive", &file_probe(), "20260101000000");
    assert!(matches!(not_dir, Err(CatalogError::FilesystemError { .. })));
}
