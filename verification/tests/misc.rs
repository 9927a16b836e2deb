use appcast::config::{list_request, profile_to_save, ListArgs, Profile, ProfileAction};
use appcast::error::AppError;
use appcast::parse::parse_wxh;
use appcast::config::effective_directive;
use appcast::paths::{
    config_root_under, profile_editor, profile_file_name, profile_names, profile_path,
    profiles_dir_under,
};
use appcast::placeholders::{LinuxX11Transporter, WaylandTransporter};
use appcast::plugins::{check_abi_version, check_plugin_name, is_plugin_file, plugin_exit_outcome};
use appcast::registry::{Origin, TransporterRegistry};
use appcast::sdk::{ConfigSnapshot, ListedApp, WebViewTransporter};
use appcast::strmap::{map_from_pairs, StrMap};
use appcast::suggest::{closest_name, edit_distance, unknown_transporter_message};

#[test]
fn parses_and_rejects_display_sizes() {
    assert_eq!(parse_wxh("1920x1080").unwrap(), (1920, 1080));
    assert_eq!(parse_wxh(" 800 x 600 ").unwrap(), (800, 600));
    assert!(matches!(
        parse_wxh("big"),
        Err(AppError::InvalidResolutionFormat(_))
    ));
    assert!(matches!(
        parse_wxh("10x"),
        Err(AppError::InvalidResolutionFormat(_))
    ));
}

#[test]
fn size_parsing_edge_cases() {
    assert_eq!(parse_wxh("+1x+2").unwrap(), (1, 2));
    assert!(parse_wxh("1x2x3").is_err());
    assert!(parse_wxh("-1x2").is_err());
    assert!(parse_wxh("x").is_err());
    assert!(parse_wxh("4294967296x1").is_err());
}

#[test]
fn syntax_errors_trigger_help_menu() {
    let usage = AppError::Usage("run adb-scrcpy <t> <a>".into());
    let unknown = AppError::UnknownTransporter {
        name: "adb".into(),
        available: "adb-scrcpy".into(),
    };
    assert!(usage.is_syntax_error());
    assert!(unknown.is_syntax_error());
    // runtime failures must not dump the menu
    let runtime = AppError::DeviceNotFound("dev".into());
    assert!(!runtime.is_syntax_error());
}

#[test]
fn error_messages_render_fields() {
    assert_eq!(
        AppError::ScrcpyTooOld { found: 2, required: 3 }.message(),
        "scrcpy >= 3 required for virtual-display support (found 2); please upgrade scrcpy"
    );
    assert_eq!(
        AppError::InvalidParamValue { key: "fps".into(), value: "x".into() }.message(),
        "invalid value for param `fps`: `x`"
    );
    assert_eq!(
        AppError::UnknownTransporter { name: "adb".into(), available: "a, b".into() }.message(),
        "unknown transporter `adb` (built-in: a, b)"
    );
    assert_eq!(AppError::Usage("x".into()).message(), "usage: x");
}

#[test]
fn transporter_parser_rejects_unknown_and_suggests() {
    let names: Vec<String> =
        ["adb-scrcpy", "ssh-x11", "waypipe", "web-browser"].iter().map(|s| s.to_string()).collect();
    assert!(names.iter().any(|n| n == "adb-scrcpy"));

    // typo close to a real name -> suggestion attached
    let rendered = unknown_transporter_message("adb-scrcp", "<TRANSPORTER>", &names);
    assert!(rendered.contains("adb-scrcpy"), "{rendered}");
    assert!(rendered.contains("tip: a similar value exists"), "{rendered}");

    // prefix relationships also count as close ('adb' -> 'adb-scrcpy')
    let rendered = unknown_transporter_message("adb", "<TRANSPORTER>", &names);
    assert!(rendered.contains("tip: a similar value exists"));
}

#[test]
fn unknown_transporter_message_shape() {
    let names: Vec<String> = vec!["adb-scrcpy".into(), "waypipe".into()];
    assert_eq!(
        unknown_transporter_message("zzzzzzzz", "<T>", &names),
        "invalid value 'zzzzzzzz' for '<T>'\n  [possible values: adb-scrcpy, waypipe]"
    );
    assert_eq!(
        unknown_transporter_message("waypip", "<T>", &names),
        "invalid value 'waypip' for '<T>'\n  [possible values: adb-scrcpy, waypipe]\n\n  \
         tip: a similar value exists: 'waypipe'"
    );
}

#[test]
fn edit_distance_is_levenshtein() {
    assert_eq!(edit_distance("kitten", "sitting"), 3);
    assert_eq!(edit_distance("", "abc"), 3);
    assert_eq!(edit_distance("abc", ""), 3);
    assert_eq!(edit_distance("flaw", "lawn"), 2);
    assert_eq!(edit_distance("名字", "名"), 1);
    assert_eq!(edit_distance("same", "same"), 0);
}

#[test]
fn closest_name_prefers_smallest_distance_then_first() {
    let names: Vec<String> = vec!["abcd".into(), "abce".into(), "xyz".into()];
    assert_eq!(closest_name("abcf", &names).map(String::as_str), Some("abcd"));
    assert_eq!(closest_name("xy", &names).map(String::as_str), Some("xyz"));
    assert_eq!(closest_name("qqqqqqq", &names), None);
    // a long name with the input as prefix is close despite the distance
    let long: Vec<String> = vec!["adb-scrcpy".into()];
    assert_eq!(closest_name("adb", &long).map(String::as_str), Some("adb-scrcpy"));
}

#[test]
fn list_request_lets_flags_win() {
    let profile = Profile {
        transporter: "adb-scrcpy".into(),
        target: Some("dev".into()),
        app: None,
        params: map_from_pairs(vec![("adb_path".into(), "/x".into())]),
        raw_args: vec![],
    };
    let args = ListArgs {
        positional_transporter: None,
        positional_target: Some("other".into()),
        transporter: None,
        target: Some("flag".into()),
        profile: Some("p".into()),
        long: false,
        json: false,
    };
    let q = list_request(&args, Some(profile)).unwrap();
    assert_eq!(q.transporter, "adb-scrcpy");
    assert_eq!(q.target, "flag");
    assert_eq!(q.params.get("adb_path").map(String::as_str), Some("/x"));

    let bare = ListArgs {
        positional_transporter: Some("adb-scrcpy".into()),
        positional_target: None,
        transporter: None,
        target: None,
        profile: None,
        long: false,
        json: false,
    };
    match list_request(&bare, None) {
        Err(AppError::Usage(u)) => assert_eq!(u, "appcast list <TRANSPORTER> <TARGET>"),
        other => panic!("unexpected: {other:?}"),
    }
}

fn save_action(
    transporter: Option<&str>,
    transporter_flag: Option<&str>,
    params: &[&str],
) -> ProfileAction {
    ProfileAction::Save {
        name: "qq".into(),
        transporter: transporter.map(String::from),
        target: Some("t".into()),
        app: None,
        transporter_flag: transporter_flag.map(String::from),
        target_flag: Some("flag-target".into()),
        app_flag: None,
        extra_params: params.iter().map(|s| s.to_string()).collect(),
        raw_args: vec!["-x".into()],
        clear_raw: false,
        base_profile: None,
    }
}

#[test]
fn profile_save_flags_win_and_merge_over_base() {
    let base = Profile {
        transporter: "waypipe".into(),
        target: None,
        app: Some("base-app".into()),
        params: map_from_pairs(vec![("keep".into(), "1".into())]),
        raw_args: vec!["--base".into()],
    };
    let p = profile_to_save(&save_action(Some("adb-scrcpy"), Some("web-browser"), &["fps=30"]), Some(base))
        .unwrap();
    assert_eq!(p.transporter, "web-browser");
    assert_eq!(p.target.as_deref(), Some("flag-target"));
    assert_eq!(p.app.as_deref(), Some("base-app"));
    assert_eq!(p.params.get("keep").map(String::as_str), Some("1"));
    assert_eq!(p.params.get("fps").map(String::as_str), Some("30"));
    assert_eq!(p.raw_args, vec!["--base", "-x"]);

    match profile_to_save(&save_action(None, None, &[]), None) {
        Err(AppError::Usage(u)) => assert_eq!(
            u,
            "appcast profile save <NAME> [TRANSPORTER] [TARGET] [APP] [--profile BASE]"
        ),
        other => panic!("unexpected: {other:?}"),
    }
    assert!(matches!(
        profile_to_save(&save_action(Some("adb-scrcpy"), None, &["bad"]), None),
        Err(AppError::InvalidParamFormat(_))
    ));
}

#[test]
fn slashes_in_names_cannot_escape_dir() {
    // `../evil` becomes the literal file name `.._evil.yaml`.
    assert_eq!(profile_file_name("../evil"), ".._evil.yaml");
    assert_eq!(profile_file_name(r"a\b/c"), "a_b_c.yaml");
}

#[test]
fn filter_matches_both_artifact_spellings() {
    let dll = ".so";
    let bare = dll.trim_start_matches('.');
    let other_dll = if bare == "so" { "dylib" } else { "so" };
    // Unix cdylib artifacts carry the `lib` prefix...
    assert!(is_plugin_file(&format!("libappcast_tpt_echo.{dll}"), dll));
    // ...Windows ones do not; both must load on their own platform.
    assert!(is_plugin_file(&format!("appcast_tpt_echo.{dll}"), dll));
    // Foreign-platform artifacts are inert here.
    assert!(!is_plugin_file(
        &format!("libappcast_tpt_echo.{bare}{other_dll}"),
        dll
    ));
    // Everything else stays out of dlopen range.
    assert!(!is_plugin_file(&format!("random.{dll}"), dll));
    assert!(!is_plugin_file("libappcast.so", dll));
    assert!(!is_plugin_file("appcast_tpt_notes.txt", dll));
    assert!(!is_plugin_file(&format!("libappcast_tpt_echo.{dll}.bak"), dll));
}

#[test]
fn plugin_handshake_checks() {
    assert!(check_abi_version(1).is_ok());
    assert_eq!(
        check_abi_version(2).unwrap_err(),
        "ABI version 2 not supported (this appcast speaks 1)"
    );
    assert_eq!(check_plugin_name(Some("echo".into())).unwrap(), "echo");
    assert!(check_plugin_name(Some(String::new())).is_err());
    assert_eq!(check_plugin_name(None).unwrap_err(), "reported empty or null name");
}

#[test]
fn registry_lists_sorted_and_later_registration_wins() {
    let mut registry: TransporterRegistry<u32> = TransporterRegistry::new();
    registry.register("web-browser", 1);
    registry.register("adb-scrcpy", 2);
    registry.register("waypipe", 3);
    registry.register_plugin("adb-scrcpy", 4, std::path::PathBuf::from("/p/libappcast_tpt_adb.so"));
    assert_eq!(registry.names(), vec!["adb-scrcpy", "waypipe", "web-browser"]);
    assert_eq!(*registry.get("adb-scrcpy").unwrap(), 4);
    let entries = registry.entries();
    assert_eq!(entries.len(), 3);
    assert!(matches!(&entries[0].1, Origin::Plugin(p) if p.ends_with("libappcast_tpt_adb.so")));
    assert!(matches!(&entries[1].1, Origin::BuiltIn));
    match registry.get("adb") {
        Err(AppError::UnknownTransporter { name, available }) => {
            assert_eq!(name, "adb");
            assert_eq!(available, "adb-scrcpy, waypipe, web-browser");
        }
        Err(other) => panic!("unexpected: {other:?}"),
        Ok(_) => panic!("unexpected success"),
    }
}

#[test]
fn placeholders_are_not_implemented() {
    assert!(matches!(
        LinuxX11Transporter.unavailable(),
        AppError::NotImplemented(s) if s == "ssh-x11 backend"
    ));
    assert!(matches!(
        WaylandTransporter.unavailable(),
        AppError::NotImplemented(s) if s == "waypipe backend"
    ));
    assert_eq!(LinuxX11Transporter.name(), "ssh-x11");
    assert_eq!(WaylandTransporter.name(), "waypipe");
}

#[test]
fn sdk_snapshot_param_and_listed_app() {
    let snap = ConfigSnapshot {
        transporter: "web-webview".into(),
        target: Some("https://e.com".into()),
        app: None,
        params: map_from_pairs(vec![("title".into(), "Draw".into())]),
        raw_args: vec![],
    };
    assert_eq!(snap.param("title"), Some("Draw"));
    assert_eq!(snap.param("window_size"), None);
    let app = ListedApp::id_only("demo");
    assert_eq!(app.id, "demo");
    assert!(app.name.is_none());
    assert_eq!(app.meta.len(), 0);
}

#[test]
fn webview_accepts_only_http_s_urls() {
    assert!(WebViewTransporter::validate_url("HTTP://x").is_ok());
    assert_eq!(
        WebViewTransporter::validate_url("ftp://x").unwrap_err(),
        "invalid URL `ftp://x`: web-webview expects an http(s) URL such as `https://example.com`"
    );
}

#[test]
fn strmap_insert_overrides_and_keeps_keys_sorted() {
    let mut m = StrMap::new();
    m.insert("b".into(), "1".into());
    m.insert("a".into(), "2".into());
    m.insert("b".into(), "3".into());
    assert_eq!(m.len(), 2);
    assert_eq!(m.key_at(0), "a");
    assert_eq!(m.key_at(1), "b");
    assert_eq!(m.get("b").map(String::as_str), Some("3"));
    assert!(!m.contains_key("c"));
}

#[test]
fn plugin_exit_status_decides_the_outcome() {
    assert!(plugin_exit_outcome("echo", 0).is_ok());
    match plugin_exit_outcome("echo", 3) {
        Err(AppError::BackendError(m)) => {
            assert_eq!(m, "plugin `echo` exited with status 3 (details on stderr)")
        }
        _ => panic!("expected a backend error"),
    }
    match plugin_exit_outcome("echo", -17) {
        Err(AppError::BackendError(m)) => {
            assert_eq!(m, "plugin `echo` exited with status -17 (details on stderr)")
        }
        _ => panic!("expected a backend error"),
    }
    match plugin_exit_outcome("x", i32::MIN) {
        Err(AppError::BackendError(m)) => {
            assert_eq!(m, format!("plugin `x` exited with status {} (details on stderr)", i32::MIN))
        }
        _ => panic!("expected a backend error"),
    }
}

fn snapshot_with(target: Option<&str>, params: &[(&str, &str)]) -> ConfigSnapshot {
    ConfigSnapshot {
        transporter: "web-webview".into(),
        target: target.map(String::from),
        app: None,
        params: map_from_pairs(
            params
                .iter()
                .map(|(k, v)| (k.to_string(), v.to_string()))
                .collect(),
        ),
        raw_args: vec![],
    }
}

#[test]
fn webview_session_url_title_and_unknown_params() {
    let t = WebViewTransporter;
    assert_eq!(t.name(), "web-webview");
    assert_eq!(
        WebViewTransporter::session_url(&snapshot_with(None, &[])).unwrap_err(),
        "missing URL in the address slot; usage: appcast run web-webview <https-url>"
    );
    assert_eq!(
        WebViewTransporter::session_url(&snapshot_with(Some("HTTPS://x.org"), &[])).unwrap(),
        "HTTPS://x.org"
    );
    assert!(WebViewTransporter::session_url(&snapshot_with(Some("file:///etc"), &[]))
        .unwrap_err()
        .starts_with("invalid URL `file:///etc`"));

    let c = snapshot_with(
        Some("https://x.org"),
        &[("title", "Docs"), ("zoom", "2"), ("window_size", "800x600"), ("dark", "1")],
    );
    assert_eq!(WebViewTransporter::unknown_param_keys(&c), vec!["dark", "zoom"]);
    assert_eq!(WebViewTransporter::window_title(&c, "https://x.org"), "Docs");
    let bare = snapshot_with(Some("https://x.org"), &[]);
    assert_eq!(
        WebViewTransporter::window_title(&bare, "https://x.org"),
        "appcast — https://x.org"
    );
    assert!(t.list_apps("https://x.org", &StrMap::new()).unwrap().is_empty());
}

#[test]
fn profile_names_keep_yaml_stems_sorted() {
    let files: Vec<(String, String)> = [
        ("zeta", "yaml"),
        ("notes", "txt"),
        ("alpha", "yml"),
        ("mid.v2", "yaml"),
        ("backup", "yaml~"),
        ("Beta", "yaml"),
    ]
    .iter()
    .map(|(s, e)| (s.to_string(), e.to_string()))
    .collect();
    assert_eq!(profile_names(&files), vec!["Beta", "alpha", "mid.v2", "zeta"]);
    assert!(profile_names(&Vec::new()).is_empty());
}

#[test]
fn default_registry_value_is_empty() {
    let r: TransporterRegistry<u8> = TransporterRegistry::default();
    assert!(r.names().is_empty());
    assert!(r.entries().is_empty());
    assert!(matches!(
        r.get("adb-scrcpy"),
        Err(AppError::UnknownTransporter { available, .. }) if available.is_empty()
    ));
}

#[test]
fn list_positionals_fill_in_for_missing_flags() {
    let list = ListArgs {
        positional_transporter: Some("adb-scrcpy".into()),
        positional_target: Some("dev".into()),
        transporter: Some("web-browser".into()),
        target: None,
        profile: None,
        long: false,
        json: false,
    };
    let q = list_request(&list, None).unwrap();
    assert_eq!(q.transporter, "web-browser");
    assert_eq!(q.target, "dev");
}

#[test]
fn profile_editor_prefers_visual_then_editor() {
    assert_eq!(profile_editor(Some("code -w".into()), Some("nano".into()), false), "code -w");
    assert_eq!(profile_editor(None, Some("nano".into()), true), "nano");
    assert_eq!(profile_editor(None, None, false), "vi");
    assert_eq!(profile_editor(None, None, true), "notepad");
}

#[test]
fn appcast_directory_sits_under_the_config_home() {
    let home = std::path::PathBuf::from("/home/u/.config");
    assert_eq!(
        config_root_under(&home),
        std::path::PathBuf::from("/home/u/.config/appcast")
    );
}

#[test]
fn profiles_live_under_the_config_home() {
    let home = std::path::PathBuf::from("/home/u/.config");
    let dir = profiles_dir_under(&home);
    assert_eq!(dir, std::path::PathBuf::from("/home/u/.config/appcast/profiles"));
    assert_eq!(
        profile_path(&dir, "a/b"),
        std::path::PathBuf::from("/home/u/.config/appcast/profiles/a_b.yaml")
    );
}

#[test]
fn edit_distance_behaves_as_a_distance() {
    let words = ["", "adb", "adb-scrcpy", "waypipe", "kitten", "sitting"];
    for a in words {
        for b in words {
            let d = edit_distance(a, b);
            assert_eq!(d, edit_distance(b, a));
            assert_eq!(d == 0, a == b);
            let (la, lb) = (a.chars().count(), b.chars().count());
            assert!(la.abs_diff(lb) <= d && d <= la.max(lb));
        }
    }
    assert_eq!(edit_distance("kitten", "sitting"), 3);
}

#[test]
fn formatted_sizes_parse_back() {
    for (w, h) in [(0u32, 0u32), (1920, 1080), (7, 4294967295), (u32::MAX, 10)] {
        assert_eq!(parse_wxh(&format!("{w}x{h}")).unwrap(), (w, h));
    }
}

#[test]
fn unparsable_log_directive_falls_back_to_info() {
    assert_eq!(effective_directive("debug"), "debug");
    assert_eq!(effective_directive("appcast=trace,info"), "appcast=trace,info");
    assert_eq!(effective_directive("app=loud"), "info");
}
