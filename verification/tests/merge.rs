use appcast::config::{log_directive, merge_config, Profile, RunArgs};
use appcast::error::AppError;
use appcast::strmap::map_from_pairs;

fn positional(t: &str, target: &str, app: &str) -> RunArgs {
    RunArgs {
        positional_transporter: Some(t.into()),
        positional_target: Some(target.into()),
        positional_app: Some(app.into()),
        ..RunArgs::default()
    }
}

fn pairs(items: &[(&str, &str)]) -> Vec<(String, String)> {
    items.iter().map(|(k, v)| (k.to_string(), v.to_string())).collect()
}

fn sample_profile() -> Profile {
    Profile {
        transporter: "ssh-x11".into(),
        target: Some("old-host".into()),
        app: Some("/usr/bin/firefox".into()),
        params: map_from_pairs(pairs(&[("port", "22"), ("keep", "yes"), ("fps", "30")])),
        raw_args: vec!["--keep-active".to_string()],
    }
}

#[test]
fn positional_beats_option_beats_profile() {
    let mut args = positional("adb", "dev1", "com.a.b");
    args.transporter = Some("waypipe".into()); // must lose to positional

    let config = merge_config(&args, Some(sample_profile())).unwrap();
    assert_eq!(config.transporter, "adb");
    assert_eq!(config.target.as_deref(), Some("dev1"));
    assert_eq!(config.app.as_deref(), Some("com.a.b"));
    // Untouched fields still flow through from lower-priority layers:
    assert_eq!(config.param("port"), Some("22"));
    assert_eq!(config.raw_args, vec!["--keep-active"]);
}

#[test]
fn profile_fills_everything_when_cli_is_bare() {
    let args = RunArgs::default();

    let config = merge_config(&args, Some(sample_profile())).unwrap();
    assert_eq!(config.transporter, "ssh-x11"); // from profile
    assert_eq!(config.param("fps"), Some("30")); // backend knob via params
}

#[test]
fn slots_may_stay_absent_for_slotless_backends() {
    let args = RunArgs {
        positional_transporter: Some("web".into()),
        positional_target: Some("https://example.com".into()),
        ..RunArgs::default()
    };
    let config = merge_config(&args, None).unwrap();
    assert_eq!(config.target.as_deref(), Some("https://example.com"));
    assert!(config.app.is_none());
}

#[test]
fn missing_transporter_is_the_only_core_level_error() {
    assert!(matches!(
        merge_config(&RunArgs::default(), None),
        Err(AppError::MissingTransporter)
    ));
}

#[test]
fn param_overrides_profile_param_only() {
    let mut args = positional("adb", "d", "p");
    args.extra_params = vec!["port=2222".into()];
    let mut profile = sample_profile();
    profile.params.insert("port".into(), "22".into());

    let config = merge_config(&args, Some(profile)).unwrap();
    assert_eq!(config.param("port"), Some("2222")); // overridden
    assert_eq!(config.param("keep"), Some("yes")); // preserved
}

#[test]
fn invalid_param_format_is_rejected() {
    let mut args = positional("adb", "d", "p");
    args.extra_params = vec!["no-equals-sign".into()];
    assert!(matches!(
        merge_config(&args, None),
        Err(AppError::InvalidParamFormat(_))
    ));
}

#[test]
fn raw_args_append_and_clear_semantics() {
    // Bare run → profile's raw_args flow through.
    let args = positional("adb", "d", "p");
    let config = merge_config(&args, Some(sample_profile())).unwrap();
    assert_eq!(config.raw_args, vec!["--keep-active"]);

    // CLI additions append AFTER the profile base (last-wins friendly).
    let mut append_args = positional("adb", "d", "p");
    append_args.raw_args = vec!["-x".into()];
    let config = merge_config(&append_args, Some(sample_profile())).unwrap();
    assert_eq!(config.raw_args, vec!["--keep-active", "-x"]);

    // --clear-raw drops the profile base; additions may be empty.
    let mut clear_args = positional("adb", "d", "p");
    clear_args.clear_raw = true;
    let config = merge_config(&clear_args, Some(sample_profile())).unwrap();
    assert!(config.raw_args.is_empty());

    // Clear + fresh content.
    let mut rebuild_args = positional("adb", "d", "p");
    rebuild_args.clear_raw = true;
    rebuild_args.raw_args = vec!["--no-audio".into()];
    let config = merge_config(&rebuild_args, Some(sample_profile())).unwrap();
    assert_eq!(config.raw_args, vec!["--no-audio"]);
}

#[test]
fn dedicated_options_beat_profile_but_not_positionals() {
    let args = RunArgs {
        transporter: Some("waypipe".into()),
        target: Some("flag-host".into()),
        ..RunArgs::default()
    };
    let config = merge_config(&args, Some(sample_profile())).unwrap();
    assert_eq!(config.transporter, "waypipe");
    assert_eq!(config.target.as_deref(), Some("flag-host"));
    assert_eq!(config.app.as_deref(), Some("/usr/bin/firefox"));
}

#[test]
fn later_param_for_same_key_wins_and_splits_at_first_equals() {
    let mut args = positional("adb", "d", "p");
    args.extra_params = vec!["k=1".into(), "expr=a=b".into(), "k=2".into(), "empty=".into()];
    let config = merge_config(&args, None).unwrap();
    assert_eq!(config.param("k"), Some("2"));
    assert_eq!(config.param("expr"), Some("a=b"));
    assert_eq!(config.param("empty"), Some(""));
    assert_eq!(config.params.len(), 3);
}

#[test]
fn first_malformed_param_is_reported() {
    let mut args = positional("adb", "d", "p");
    args.extra_params = vec!["a=1".into(), "bad".into(), "worse".into()];
    match merge_config(&args, None) {
        Err(AppError::InvalidParamFormat(kv)) => assert_eq!(kv, "bad"),
        other => panic!("unexpected: {other:?}"),
    }
}

#[test]
fn missing_transporter_wins_over_malformed_param() {
    let args = RunArgs {
        extra_params: vec!["bad".into()],
        ..RunArgs::default()
    };
    assert!(matches!(merge_config(&args, None), Err(AppError::MissingTransporter)));
}

#[test]
fn bare_run_with_a_saved_profile_reproduces_it() {
    let mut args = positional("adb-scrcpy", "dev", "com.a.b");
    args.extra_params = vec!["fps=90".into()];
    args.raw_args = vec!["-x".into()];
    let frozen = merge_config(&args, Some(sample_profile())).unwrap();
    let saved = Profile::from_resolved(frozen);

    let again = merge_config(&RunArgs::default(), Some(saved)).unwrap();
    assert_eq!(again.transporter, "adb-scrcpy");
    assert_eq!(again.target.as_deref(), Some("dev"));
    assert_eq!(again.app.as_deref(), Some("com.a.b"));
    assert_eq!(again.param("fps"), Some("90"));
    assert_eq!(again.param("port"), Some("22"));
    assert_eq!(again.param("keep"), Some("yes"));
    assert_eq!(again.params.len(), 3);
    assert_eq!(again.raw_args, vec!["--keep-active", "-x"]);
}

#[test]
fn log_directive_priority() {
    assert_eq!(log_directive(Some("trace".into()), Some("error")), "trace");
    assert_eq!(log_directive(None, Some("debug")), "debug");
    assert_eq!(log_directive(None, None), "info");
}
