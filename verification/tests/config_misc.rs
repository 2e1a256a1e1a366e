use media_catalog::config::{
    get_app_root_path, update_config_field, AppConfig, ConfigState, InternalConfig,
};
use media_catalog::dl_site::Language;
use media_catalog::error::CatalogError;
use media_catalog::metadata::is_none_or_empty;
use media_catalog::text::{i32_to_string, join_path, path_file_name, u64_to_string};

#[test]
fn internal_config_accessors() {
    let c = InternalConfig::new("/data".to_string(), Some("/deploy".to_string()));
    assert_eq!(c.root_data(), "/data");
    assert_eq!(c.root_deploy().map(|s| s.as_str()), Some("/deploy"));
    assert_eq!(c.dir_archive(), "/data/archive");
    assert_eq!(c.dir_image(), "/data/image");
}

#[test]
fn update_config_field_semantics() {
    let mut c = InternalConfig::new("/data".to_string(), None);
    update_config_field(&mut c, "root_data", Some("/other".to_string())).unwrap();
    assert_eq!(c.root_data(), "/other");

    // an empty data root is refused like an unknown field
    let err = update_config_field(&mut c, "root_data", Some(String::new())).unwrap_err();
    assert!(matches!(err, CatalogError::ValidationError { .. }));
    assert_eq!(c.root_data(), "/other");

    update_config_field(&mut c, "root_deploy", Some("/deploy".to_string())).unwrap();
    assert_eq!(c.root_deploy().map(|s| s.as_str()), Some("/deploy"));
    update_config_field(&mut c, "root_deploy", Some(String::new())).unwrap();
    assert!(c.root_deploy().is_none());
    update_config_field(&mut c, "root_deploy", None).unwrap();
    assert!(c.root_deploy().is_none());

    let err2 = update_config_field(&mut c, "no_such_field", None).unwrap_err();
    assert_eq!(err2.message(), "unknown settings field no_such_field");
}

#[test]
fn app_config_surface() {
    let c = AppConfig::new(Language::ZhCn, "/data".to_string(), None);
    assert_eq!(c.lang(), Language::ZhCn);
    assert_eq!(c.path_data(), "/data");
    assert!(c.path_deploy().is_none());
    assert_eq!(c.dir_archive(), "/data/archive");
    assert_eq!(c.dir_image(), "/data/image");
    let state = ConfigState::new(c);
    let snapshot = state.get();
    assert_eq!(snapshot.path_data(), "/data");
    let d = AppConfig::default();
    assert_eq!(d.path_data(), ".");
    assert_eq!(get_app_root_path(), ".");
}

#[test]
fn text_helpers() {
    assert_eq!(u64_to_string(0), "0");
    assert_eq!(u64_to_string(90210), "90210");
    assert_eq!(i32_to_string(-42), "-42");
    assert_eq!(join_path("/a", "b/c"), "/a/b/c");
    assert_eq!(path_file_name("/a/b/c.bin"), "c.bin");
    assert_eq!(path_file_name("plain"), "plain");
    assert_eq!(path_file_name("/a/b/"), "");
}

#[test]
fn none_or_empty_detection() {
    assert!(is_none_or_empty(&None));
    assert!(is_none_or_empty(&Some(String::new())));
    assert!(!is_none_or_empty(&Some("x".to_string())));
}

#[test]
fn store_error_message() {
    let e = CatalogError::StoreError { detail: "cannot open table".to_string() };
    assert_eq!(e.message(), "store error: cannot open table");
    assert!(!e.is_not_found());
    let f = CatalogError::NotFoundError { id: "abc".to_string() };
    assert!(f.is_not_found());
}
