use appcast::adb::{lines_of, AndroidAdbTransporter};
use appcast::config::ResolvedConfig;
use appcast::error::AppError;
use appcast::strmap::map_from_pairs;

fn config(raw_args: &[&str], params: &[(&str, &str)]) -> ResolvedConfig {
    ResolvedConfig {
        transporter: "adb".into(),
        target: Some("10.0.0.8:5555".into()),
        app: Some("com.termux".into()),
        params: map_from_pairs(
            params
                .iter()
                .map(|(k, v)| (k.to_string(), v.to_string()))
                .collect(),
        ),
        raw_args: raw_args.iter().map(|s| s.to_string()).collect(),
    }
}

#[test]
fn defaults_apply_when_params_absent() {
    let cfg = config(&[], &[]);
    assert_eq!(AndroidAdbTransporter::resolution(&cfg).unwrap(), (1920, 1080));
    assert_eq!(AndroidAdbTransporter::fps(&cfg).unwrap(), 60);
    assert_eq!(AndroidAdbTransporter::bit_rate(&cfg).unwrap(), 8);
}

#[test]
fn param_values_override_defaults_or_fail_loudly() {
    let cfg = config(
        &[],
        &[("resolution", "1280x960"), ("fps", "90"), ("bit_rate", "12")],
    );
    assert_eq!(AndroidAdbTransporter::resolution(&cfg).unwrap(), (1280, 960));
    assert_eq!(AndroidAdbTransporter::fps(&cfg).unwrap(), 90);
    assert_eq!(AndroidAdbTransporter::bit_rate(&cfg).unwrap(), 12);

    let bad = config(&[], &[("resolution", "big")]);
    assert!(matches!(
        AndroidAdbTransporter::resolution(&bad),
        Err(AppError::InvalidResolutionFormat(_))
    ));
    let bad_fps = config(&[], &[("fps", "fast")]);
    assert!(matches!(
        AndroidAdbTransporter::fps(&bad_fps),
        Err(AppError::InvalidParamValue { key, .. }) if key == "fps"
    ));
}

#[test]
fn builds_scrcpy_pipeline_and_appends_passthrough() {
    let cfg = config(
        &["--no-vd-destroy-content", "--video-codec=h265", "-x"],
        &[],
    );
    assert_eq!(
        AndroidAdbTransporter::scrcpy_args(&cfg).unwrap(),
        vec![
            "-s",
            "10.0.0.8:5555",
            "--new-display=1920x1080",
            "--start-app=com.termux",
            "--max-fps",
            "60",
            "--video-bit-rate",
            "8M",
            // passthrough lands verbatim at the tail
            "--no-vd-destroy-content",
            "--video-codec=h265",
            "-x",
        ]
    );
}

#[test]
fn minimal_config_has_no_extra_flags() {
    let cfg = config(&[], &[]);
    let args = AndroidAdbTransporter::scrcpy_args(&cfg).unwrap();
    assert_eq!(args.last().map(String::as_str), Some("8M"));
    assert!(!args.contains(&"--no-vd-destroy-content".to_string()));
}

#[test]
fn adb_flags_unknown_params_only() {
    let cfg = config(&[], &[("adb_path", "/x"), ("scrcpy_pathh", "typo")]);
    assert_eq!(
        AndroidAdbTransporter::unknown_param_keys(&cfg.params),
        vec!["scrcpy_pathh"]
    );
    assert!(AndroidAdbTransporter::unknown_param_keys(
        &config(
            &[],
            &[
                ("adb_path", "/x"),
                ("scrcpy_path", "/y"),
                ("resolution", "1x1"),
                ("fps", "30"),
                ("bit_rate", "4"),
            ]
        )
        .params
    )
    .is_empty());
}

#[test]
fn rejects_pathlike_identifiers() {
    assert!(matches!(
        AndroidAdbTransporter::validate_package_name("/usr/bin/firefox"),
        Err(AppError::InvalidAppIdentifier(_))
    ));
    assert!(matches!(
        AndroidAdbTransporter::validate_package_name("com/a"),
        Err(AppError::InvalidAppIdentifier(_))
    ));
    assert!(matches!(
        AndroidAdbTransporter::validate_package_name(""),
        Err(AppError::InvalidAppIdentifier(_))
    ));
    assert!(matches!(
        AndroidAdbTransporter::validate_package_name("two words"),
        Err(AppError::InvalidAppIdentifier(_))
    ));
    assert!(
        AndroidAdbTransporter::validate_package_name("com.tencent.mm").is_ok(),
        "ordinary package names must pass"
    );
}

#[test]
fn package_name_edge_cases() {
    assert!(AndroidAdbTransporter::validate_package_name("  com.a.b\t").is_ok());
    assert!(AndroidAdbTransporter::validate_package_name("a..b").is_err());
    assert!(AndroidAdbTransporter::validate_package_name("a\\b").is_err());
    assert!(AndroidAdbTransporter::validate_package_name("   ").is_err());
}

#[test]
fn scrcpy_args_follow_params_and_require_both_slots() {
    let cfg = config(&[], &[("resolution", " 800 x 600 "), ("fps", " 30 "), ("bit_rate", "+4")]);
    assert_eq!(
        AndroidAdbTransporter::scrcpy_args(&cfg).unwrap(),
        vec![
            "-s",
            "10.0.0.8:5555",
            "--new-display=800x600",
            "--start-app=com.termux",
            "--max-fps",
            "30",
            "--video-bit-rate",
            "4M",
        ]
    );
    let mut no_app = config(&[], &[]);
    no_app.app = None;
    match AndroidAdbTransporter::scrcpy_args(&no_app) {
        Err(AppError::Usage(u)) => assert_eq!(u, "appcast run adb-scrcpy <target> <app>"),
        other => panic!("unexpected: {other:?}"),
    }
    let bad_rate = config(&[], &[("bit_rate", "-1")]);
    assert!(matches!(
        AndroidAdbTransporter::scrcpy_args(&bad_rate),
        Err(AppError::InvalidParamValue { key, value }) if key == "bit_rate" && value == "-1"
    ));
    let overflow = config(&[], &[("fps", "4294967296")]);
    assert!(AndroidAdbTransporter::fps(&overflow).is_err());
    let max = config(&[], &[("fps", "4294967295")]);
    assert_eq!(AndroidAdbTransporter::fps(&max).unwrap(), 4294967295);
}

#[test]
fn binaries_default_to_plain_names_with_suffix() {
    let cfg = config(&[], &[]);
    assert_eq!(AndroidAdbTransporter::adb_bin(&cfg, ".exe"), "adb.exe");
    assert_eq!(AndroidAdbTransporter::scrcpy_bin(&cfg, ""), "scrcpy");
    let custom = config(&[], &[("adb_path", "/opt/adb"), ("scrcpy_path", "/opt/scrcpy")]);
    assert_eq!(AndroidAdbTransporter::adb_bin(&custom, ".exe"), "/opt/adb");
    assert_eq!(AndroidAdbTransporter::scrcpy_bin(&custom, ""), "/opt/scrcpy");
}

#[test]
fn package_listing_is_filtered_and_sorted() {
    let out = "package:com.b\r\npackage:com.a\nnoise line\npackage:com.c\n";
    assert_eq!(
        AndroidAdbTransporter::packages_from_listing(out),
        vec!["com.a", "com.b", "com.c"]
    );
    assert!(AndroidAdbTransporter::packages_from_listing("").is_empty());
    assert_eq!(lines_of("a\r\nb\n\nc\r"), vec!["a", "b", "", "c\r"]);
}

#[test]
fn device_probe_requires_success_and_ok() {
    assert!(AndroidAdbTransporter::device_answered(true, "ok\n"));
    assert!(!AndroidAdbTransporter::device_answered(false, "ok\n"));
    assert!(!AndroidAdbTransporter::device_answered(true, "error: no devices"));
}

#[test]
fn session_needs_both_slots() {
    let cfg = config(&[], &[]);
    assert_eq!(
        AndroidAdbTransporter::session_slots(&cfg).unwrap(),
        ("10.0.0.8:5555".to_string(), "com.termux".to_string())
    );
    let mut no_app = config(&[], &[]);
    no_app.app = None;
    match AndroidAdbTransporter::session_slots(&no_app) {
        Err(AppError::Usage(u)) => assert_eq!(u, "appcast run adb-scrcpy <target> <app>"),
        _ => panic!("expected usage"),
    }
    let mut no_target = config(&[], &[]);
    no_target.target = None;
    assert!(matches!(
        AndroidAdbTransporter::session_slots(&no_target),
        Err(AppError::Usage(_))
    ));
}

#[test]
fn listing_binary_comes_from_params() {
    let none = map_from_pairs(vec![]);
    assert_eq!(AndroidAdbTransporter::listing_adb_bin(&none, ""), "adb");
    assert_eq!(AndroidAdbTransporter::listing_adb_bin(&none, ".exe"), "adb.exe");
    let custom = map_from_pairs(vec![("adb_path".into(), "/opt/adb".into())]);
    assert_eq!(AndroidAdbTransporter::listing_adb_bin(&custom, ".exe"), "/opt/adb");
}

#[test]
fn scrcpy_version_guard() {
    assert_eq!(
        AndroidAdbTransporter::check_scrcpy_version(
            "scrcpy 3.1 <https://github.com/Genymobile/scrcpy>\n\nDependencies (compiled / linked):\n"
        )
        .unwrap(),
        3
    );
    assert_eq!(
        AndroidAdbTransporter::check_scrcpy_version("  scrcpy 12.0\r\n").unwrap(),
        12
    );
    match AndroidAdbTransporter::check_scrcpy_version("scrcpy 2.4 <https://github.com/Genymobile/scrcpy>\n") {
        Err(AppError::ScrcpyTooOld { found, required }) => {
            assert_eq!((found, required), (2, 3));
        }
        _ => panic!("expected too old"),
    }
    match AndroidAdbTransporter::check_scrcpy_version("command not found\nmore") {
        Err(AppError::ScrcpyVersionUnknown(s)) => assert_eq!(s, "command not found"),
        _ => panic!("expected unknown"),
    }
    match AndroidAdbTransporter::check_scrcpy_version("") {
        Err(AppError::ScrcpyVersionUnknown(s)) => assert_eq!(s, ""),
        _ => panic!("expected unknown"),
    }
    assert!(matches!(
        AndroidAdbTransporter::check_scrcpy_version("scrcpy v3"),
        Err(AppError::ScrcpyVersionUnknown(_))
    ));
}

#[test]
fn session_argv_keeps_input_methods_local() {
    let cfg = config(&["-x"], &[("fps", "30")]);
    assert_eq!(
        AndroidAdbTransporter::session_args(&cfg).unwrap(),
        vec![
            "-s",
            "10.0.0.8:5555",
            "--new-display=1920x1080",
            "--start-app=com.termux",
            "--max-fps",
            "30",
            "--video-bit-rate",
            "8M",
            "--display-ime-policy=local",
            "-x",
        ]
    );
    let bad = config(&[], &[("bit_rate", "lots")]);
    assert!(matches!(
        AndroidAdbTransporter::session_args(&bad),
        Err(AppError::InvalidParamValue { key, .. }) if key == "bit_rate"
    ));
}
