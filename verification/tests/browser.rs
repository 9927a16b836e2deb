use appcast::browser::{Family, Platform, WebBrowserTransporter};
use appcast::config::ResolvedConfig;
use appcast::error::AppError;
use appcast::strmap::map_from_pairs;
use etcetera::app_strategy::{choose_app_strategy, AppStrategy, AppStrategyArgs};

fn config(raw_args: &[&str], params: &[(&str, &str)]) -> ResolvedConfig {
    ResolvedConfig {
        transporter: "web-browser".into(),
        target: Some("https://example.com".into()),
        app: None,
        params: map_from_pairs(
            params
                .iter()
                .map(|(k, v)| (k.to_string(), v.to_string()))
                .collect(),
        ),
        raw_args: raw_args.iter().map(|s| s.to_string()).collect(),
    }
}

/// The dedicated profile directory, located the way the CLI locates it.
fn default_profile() -> String {
    let args = AppStrategyArgs {
        top_level_domain: "io.github".into(),
        author: "AndroidAppsUsedByMyself".into(),
        app_name: "appcast".into(),
    };
    choose_app_strategy(args)
        .unwrap()
        .data_dir()
        .join("web-browser-profile")
        .display()
        .to_string()
}

fn plan(bin: &str, url: &str, cfg: &ResolvedConfig) -> Result<Vec<String>, AppError> {
    WebBrowserTransporter::launch_plan(
        bin,
        WebBrowserTransporter::family_of(bin),
        url,
        cfg,
        &default_profile(),
    )
}

#[test]
fn accepts_only_http_s_urls() {
    for good in ["http://a", "https://a/b?c=d", "HTTPS://UPPER.COM"] {
        assert!(WebBrowserTransporter::validate_url(good).is_ok(), "{good}");
    }
    for bad in ["", "example.com", "ftp://x", "file:///tmp/a", "https:/missing"] {
        assert!(matches!(
            WebBrowserTransporter::validate_url(bad),
            Err(AppError::InvalidUrl(_))
        ), "{bad}");
    }
}

#[test]
fn family_detection_by_base_name() {
    assert_eq!(
        WebBrowserTransporter::family_of("/usr/bin/firefox"),
        Family::Gecko
    );
    assert_eq!(
        WebBrowserTransporter::family_of(r"C:\Program Files\Mozilla Firefox\firefox.exe"),
        Family::Gecko
    );
    assert_eq!(
        WebBrowserTransporter::family_of("/usr/bin/librewolf"),
        Family::Gecko
    );
    assert_eq!(
        WebBrowserTransporter::family_of("/usr/bin/chromium"),
        Family::Chromium
    );
    assert_eq!(
        WebBrowserTransporter::family_of(r"C:\x\msedge.exe"),
        Family::Chromium
    );
    // Unknown binaries default to the dominant convention.
    assert_eq!(
        WebBrowserTransporter::family_of("/usr/bin/surf"),
        Family::Chromium
    );
}

#[test]
fn family_looks_at_file_name_only() {
    assert_eq!(WebBrowserTransporter::family_of("/opt/firefox/chrome"), Family::Chromium);
    assert_eq!(WebBrowserTransporter::family_of("/opt/FireFox/bin/"), Family::Chromium);
    assert_eq!(WebBrowserTransporter::family_of("/opt/x/FIREFOX/"), Family::Gecko);
    assert_eq!(WebBrowserTransporter::family_of("/firefox/.."), Family::Gecko);
}

#[test]
fn chromium_minimal_plan_isolates_profile_and_new_window() {
    let args = plan("/usr/bin/chromium", "https://e.com", &config(&[], &[])).unwrap();
    assert_eq!(args[0], "--app=https://e.com");
    let user_data = args
        .iter()
        .find(|a| a.starts_with("--user-data-dir="))
        .expect("dedicated profile dir is injected by default");
    assert!(user_data.contains("appcast"), "{user_data}");
    assert!(args.contains(&"--new-window".to_string()));
}

#[test]
fn profile_param_switches_isolation_modes() {
    // `default` = share the browser's own profile: no --user-data-dir.
    let shared = config(&[], &[("profile", "default")]);
    let args = plan("/usr/bin/chromium", "https://e.com", &shared).unwrap();
    assert!(!args.iter().any(|a| a.starts_with("--user-data-dir=")));
    assert!(args.contains(&"--new-window".to_string()));

    // Any other value = custom profile path, verbatim.
    let custom = config(&[], &[("profile", "/tmp/cast-profile")]);
    let args = plan("/usr/bin/chromium", "https://e.com", &custom).unwrap();
    assert!(args.contains(&"--user-data-dir=/tmp/cast-profile".to_string()));
}

#[test]
fn chromium_full_plan_orders_flags_then_passthrough() {
    let cfg = config(
        &["--force-dark-mode"],
        &[("profile", "default"), ("window_size", "1280x800"), ("kiosk", "true")],
    );
    let args = plan("chrome.exe", "https://e.com", &cfg).unwrap();
    assert_eq!(
        args,
        vec![
            "--app=https://e.com",
            "--window-size=1280,800",
            "--kiosk",
            "--new-window",
            "--force-dark-mode"
        ]
    );
}

#[test]
fn gecko_requires_kiosk_and_ignores_window_size() {
    // Without kiosk: refused with guidance, never a plain tab window.
    let err = plan("/usr/bin/firefox", "https://e.com", &config(&[], &[])).unwrap_err();
    assert!(err.message().contains("kiosk=true"), "{err:?}");

    // With kiosk: -kiosk + url + own-instance; window_size warned away.
    let cfg = config(&[], &[("kiosk", "true"), ("window_size", "1x1")]);
    let args = plan("firefox", "https://e.com", &cfg).unwrap();
    assert_eq!(args, vec!["-kiosk", "https://e.com", "--new-instance"]);
}

#[test]
fn invalid_params_fail_with_precise_errors() {
    let bad_size = config(&[], &[("window_size", "wide")]);
    assert!(matches!(
        plan("chromium", "https://e.com", &bad_size),
        Err(AppError::InvalidResolutionFormat(_))
    ));
    let bad_kiosk = config(&[], &[("kiosk", "maybe")]);
    assert!(matches!(
        plan("chromium", "https://e.com", &bad_kiosk),
        Err(AppError::InvalidParamValue { key, .. }) if key == "kiosk"
    ));
}

#[test]
fn browser_flags_unknown_params_only() {
    let cfg = config(&[], &[("browser_path", "/x"), ("window_siez", "1x1")]);
    assert_eq!(
        WebBrowserTransporter::unknown_param_keys(&cfg.params),
        vec!["window_siez"]
    );
}

#[test]
fn kiosk_values_are_read_after_trimming() {
    for (v, expected) in [(" yes ", true), ("1", true), ("no", false), ("", false), ("0", false)] {
        let cfg = config(&[], &[("kiosk", v)]);
        assert_eq!(WebBrowserTransporter::parse_kiosk(&cfg).unwrap(), expected, "{v}");
    }
    let cfg = config(&[], &[("kiosk", " maybe ")]);
    assert!(matches!(
        WebBrowserTransporter::parse_kiosk(&cfg),
        Err(AppError::InvalidParamValue { value, .. }) if value == "maybe"
    ));
}

#[test]
fn explicit_browser_path_wins_then_first_available_candidate() {
    let candidates = vec!["a".to_string(), "b".to_string(), "c".to_string()];
    let explicit = config(&[], &[("browser_path", "/my/browser")]);
    assert_eq!(
        WebBrowserTransporter::resolve_browser(&explicit, &candidates, |_| false).unwrap(),
        "/my/browser"
    );
    let cfg = config(&[], &[]);
    assert_eq!(
        WebBrowserTransporter::resolve_browser(&cfg, &candidates, |c| c != "a").unwrap(),
        "b"
    );
    match WebBrowserTransporter::resolve_browser(&cfg, &candidates, |_| false) {
        Err(AppError::NoBrowserFound { tried }) => assert_eq!(tried, "a, b, c"),
        other => panic!("unexpected: {other:?}"),
    }
}

#[test]
fn session_url_needs_an_http_target() {
    assert_eq!(
        WebBrowserTransporter::session_url(&config(&[], &[])).unwrap(),
        "https://example.com"
    );
    let mut none = config(&[], &[]);
    none.target = None;
    match WebBrowserTransporter::session_url(&none) {
        Err(AppError::Usage(u)) => assert_eq!(u, "appcast run web-browser <https-url>"),
        _ => panic!("expected usage"),
    }
    let mut bad = config(&[], &[]);
    bad.target = Some("example.com".into());
    assert!(matches!(
        WebBrowserTransporter::session_url(&bad),
        Err(AppError::InvalidUrl(u)) if u == "example.com"
    ));
}

#[test]
fn window_size_is_ignored_only_by_gecko() {
    let sized = config(&[], &[("window_size", "800x600")]);
    assert!(WebBrowserTransporter::ignores_window_size(Family::Gecko, &sized));
    assert!(!WebBrowserTransporter::ignores_window_size(Family::Chromium, &sized));
    assert!(!WebBrowserTransporter::ignores_window_size(Family::Gecko, &config(&[], &[])));
}

#[test]
fn probe_chain_per_platform() {
    let unix = WebBrowserTransporter::browser_candidates(Platform::OtherUnix, None, None, None, "");
    assert_eq!(
        unix,
        vec!["chromium", "chromium-browser", "google-chrome-stable", "google-chrome", "brave-browser", "brave"]
    );
    let mac = WebBrowserTransporter::browser_candidates(Platform::MacOs, None, None, None, "");
    assert_eq!(mac.len(), 4);
    assert_eq!(mac[0], "/Applications/Google Chrome.app/Contents/MacOS/Google Chrome");

    let pf = std::path::PathBuf::from("/pf");
    let win = WebBrowserTransporter::browser_candidates(
        Platform::Windows,
        None,
        Some(pf.clone()),
        Some(std::path::PathBuf::from("/local")),
        ".exe",
    );
    let under = |root: &std::path::PathBuf, parts: &[&str]| {
        let mut p = root.clone();
        for part in parts {
            p.push(part);
        }
        p.to_string_lossy().into_owned()
    };
    assert_eq!(
        win,
        vec![
            under(&pf, &["Microsoft", "Edge", "Application", "msedge.exe"]),
            under(&pf, &["Google", "Chrome", "Application", "chrome.exe"]),
            under(&std::path::PathBuf::from("/local"), &["Google", "Chrome", "Application", "chrome.exe"]),
            "msedge.exe".to_string(),
            "chrome.exe".to_string(),
        ]
    );
    assert_eq!(win[0], "/pf/Microsoft/Edge/Application/msedge.exe");
}

#[test]
fn family_follows_the_file_name() {
    let name = |s: &str| Some(s.to_string());
    assert_eq!(
        WebBrowserTransporter::family_from_name(r"C:\Mozilla Firefox\chrome.exe", &name("chrome.exe")),
        Family::Chromium
    );
    assert_eq!(
        WebBrowserTransporter::family_from_name("/opt/x/LibreWolf", &name("LibreWolf")),
        Family::Gecko
    );
    assert_eq!(WebBrowserTransporter::family_from_name("/firefox/..", &None), Family::Gecko);
    assert_eq!(WebBrowserTransporter::family_from_name("/opt/edge/..", &None), Family::Chromium);
}

#[test]
fn browser_profile_sits_in_the_data_dir() {
    let data = std::path::PathBuf::from("/home/u/.local/share/appcast");
    assert_eq!(
        appcast::paths::browser_profile_under(&data),
        std::path::PathBuf::from("/home/u/.local/share/appcast/web-browser-profile")
    );
    if let Some(p) = appcast::paths::browser_profile_dir() {
        assert_eq!(p.display().to_string(), default_profile());
    }
}

#[test]
fn plain_paths_take_their_last_component() {
    for (bin, family) in [
        ("/usr/bin/firefox", Family::Gecko),
        ("firefox", Family::Gecko),
        ("/opt/firefox/chrome", Family::Chromium),
        ("./bin/LibreWolf", Family::Gecko),
        ("chromium-browser", Family::Chromium),
    ] {
        assert_eq!(WebBrowserTransporter::family_of(bin), family, "{bin}");
    }
}
