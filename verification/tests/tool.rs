use media_catalog::compress::{
    alternate_output_path, compress_args, decompress_args, exit_outcome, parse_7z_output,
    ProgressTracker,
};
use media_catalog::error::CatalogError;

#[test]
fn progress_lines_parse() {
    let r = parse_7z_output(" 42% 17 + some/file name.txt", '+').unwrap();
    assert_eq!(r.0, 42);
    assert_eq!(r.1, 17);
    assert_eq!(r.2, "some/file name.txt");

    let r2 = parse_7z_output("7% 1 - x", '-').unwrap();
    assert_eq!(r2.0, 7);
    assert_eq!(r2.1, 1);
    assert_eq!(r2.2, "x");
}

#[test]
fn non_progress_lines_do_not_parse() {
    assert!(parse_7z_output("Scanning the drive:", '+').is_none());
    assert!(parse_7z_output("42% 17 - entry", '+').is_none(), "wrong separator");
    assert!(parse_7z_output("42%17 + entry", '+').is_none(), "missing blank space");
    assert!(parse_7z_output("% 17 + entry", '+').is_none(), "missing percent digits");
    assert!(parse_7z_output("42% 17 + ", '+').is_none(), "missing entry name");
    assert!(parse_7z_output("", '+').is_none());
    assert!(parse_7z_output("99999999999% 1 + entry", '+').is_none(), "percent overflow");
}

#[test]
fn progress_tracker_deduplicates_percent() {
    let mut t = ProgressTracker::new();
    assert!(t.observe(10), "the first report is published");
    assert!(!t.observe(10), "a repeated percent is not republished");
    assert!(t.observe(11));
    assert!(t.observe(10), "out-of-order lines are passed through");
    assert!(!t.observe(10));
}

#[test]
fn exit_code_decides_outcome() {
    assert!(exit_outcome(Some(0)).is_ok());
    let e = exit_outcome(Some(2)).unwrap_err();
    assert!(matches!(e, CatalogError::ExternalToolError { code: Some(2) }));
    assert_eq!(e.message(), "external tool failed with exit code 2");
    let e2 = exit_outcome(None).unwrap_err();
    assert_eq!(e2.message(), "external tool failed before it reported an exit code");
    let e3 = exit_outcome(Some(-1)).unwrap_err();
    assert_eq!(e3.message(), "external tool failed with exit code -1");
}

#[test]
fn compression_argument_lists() {
    let args = compress_args("/src", "/root/archive/undefined/a.a", &None);
    let expect: Vec<String> = vec![
        "a".to_string(),
        "/root/archive/undefined/a.a".to_string(),
        "/src/*".to_string(),
        "-t7z".to_string(),
        "-mx9".to_string(),
        "-ms4g".to_string(),
        "-md64m".to_string(),
        "-mmt".to_string(),
        "-r".to_string(),
        "-bsp1".to_string(),
    ];
    assert_eq!(args, expect);

    let args_pw = compress_args("/src", "/dest.a", &Some("pw".to_string()));
    assert_eq!(args_pw[args_pw.len() - 2], "-ppw");
    assert_eq!(args_pw[args_pw.len() - 1], "-mhe");

    let dargs = decompress_args("/root/archive/a.a", "/out", &Some("pw".to_string()));
    let dexpect: Vec<String> = vec![
        "x".to_string(),
        "/root/archive/a.a".to_string(),
        "-o/out".to_string(),
        "-aoa".to_string(),
        "-y".to_string(),
        "-bsp1".to_string(),
        "-ppw".to_string(),
    ];
    assert_eq!(dargs, dexpect);
}

#[test]
fn alternate_output_replaces_extension() {
    assert_eq!(alternate_output_path("/root/archive/undefined/demo.a"), "/root/archive/undefined/demo.7z");
    assert_eq!(alternate_output_path("/root/no_extension"), "/root/no_extension.7z");
    assert_eq!(alternate_output_path("a.b.c"), "a.b.7z");
}
