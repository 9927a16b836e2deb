use appcast::config::{merge_config, Profile, RunArgs};
use appcast::listing::{render_ids, render_long, AppEntry};
use appcast::render::{render_save_summary, render_snapshot, shell_quote};
use appcast::strmap::{map_from_pairs, StrMap};

fn positional(t: &str, target: &str, app: &str) -> RunArgs {
    RunArgs {
        positional_transporter: Some(t.into()),
        positional_target: Some(target.into()),
        positional_app: Some(app.into()),
        ..RunArgs::default()
    }
}

#[test]
fn snapshot_line_round_trips_through_clap() {
    let mut args = positional("adb", "emulator-5554", "com.tencent.mm");
    args.extra_params = vec!["b=2".into(), "a=1".into(), ("fps=90").into()];
    args.raw_args = vec!["-W".into()];

    let config = merge_config(&args, None).unwrap();
    let line = render_snapshot(&config);
    assert_eq!(
        line,
        "appcast run adb emulator-5554 com.tencent.mm \
         --param a=1 --param b=2 --param fps=90 -- -W"
    );
}

#[test]
fn snapshot_quotes_slots_and_raw_args() {
    let mut args = positional("web-browser", "https://x.org/a b", "it's");
    args.raw_args = vec!["--title=My App".into(), "-x".into()];
    let config = merge_config(&args, None).unwrap();
    assert_eq!(
        render_snapshot(&config),
        "appcast run web-browser 'https://x.org/a b' 'it'\\''s' -- '--title=My App' -x"
    );
}

#[test]
fn list_renderers_cover_all_shapes() {
    let entries = vec![
        AppEntry {
            id: "com.a.b".into(),
            name: Some("名字 B".into()),
            meta: Default::default(),
        },
        AppEntry::id_only("bare.id"),
    ];

    assert_eq!(render_ids(&entries), "com.a.b\nbare.id\n");
    assert_eq!(render_long(&entries), "名字 B\tcom.a.b\n-\tbare.id\n");
}

#[test]
fn save_summary_reflects_slots_and_extensions() {
    let p = Profile {
        transporter: "adb-scrcpy".into(),
        target: Some("localhost:45555".into()),
        app: Some("bin.mt.plus.canary".into()),
        params: map_from_pairs(vec![("fps".to_string(), "90".to_string())]),
        raw_args: vec!["--no-audio".into()],
    };
    assert_eq!(
        render_save_summary(&p),
        "  transporter=adb-scrcpy target=localhost:45555 app=bin.mt.plus.canary\n  \
         params{fps=90} raw[--no-audio]"
    );
    // Absent slots render as dashes instead of empty strings.
    let minimal = Profile {
        transporter: "web".into(),
        target: Some("https://x".into()),
        app: None,
        params: StrMap::new(),
        raw_args: vec![],
    };
    assert!(render_save_summary(&minimal).contains("app=-"));
}

#[test]
fn save_summary_lists_params_in_key_order() {
    let p = Profile {
        transporter: "t".into(),
        target: None,
        app: None,
        params: map_from_pairs(vec![
            ("z".to_string(), "1".to_string()),
            ("a".to_string(), "2".to_string()),
        ]),
        raw_args: vec!["-x".into(), "-y".into()],
    };
    assert_eq!(
        render_save_summary(&p),
        "  transporter=t target=- app=-\n  params{a=2 z=1} raw[-x -y]"
    );
}

#[test]
fn shell_quotes_unsafe_values() {
    assert_eq!(shell_quote("plain-value"), "plain-value");
    assert_eq!(shell_quote("with space"), "'with space'");
    assert_eq!(shell_quote("it's"), "'it'\\''s'");
}

#[test]
fn shell_quote_edge_cases() {
    assert_eq!(shell_quote(""), "''");
    assert_eq!(shell_quote("a/b.c_d-e:f@g+h=i,j%k"), "a/b.c_d-e:f@g+h=i,j%k");
    assert_eq!(shell_quote("'"), "''\\'''");
    assert_eq!(shell_quote("$HOME"), "'$HOME'");
}

/// Splits a line into words the way a POSIX shell does for the subset the
/// snapshot uses: blanks separate words, `'...'` quotes literally, and `\`
/// escapes the next character outside quotes.
fn shell_split(line: &str) -> Vec<String> {
    let mut words = Vec::new();
    let mut cur = String::new();
    let mut in_word = false;
    let mut quoted = false;
    let mut chars = line.chars();
    while let Some(c) = chars.next() {
        if quoted {
            if c == '\'' {
                quoted = false;
            } else {
                cur.push(c);
            }
        } else if c == '\'' {
            quoted = true;
            in_word = true;
        } else if c == '\\' {
            if let Some(n) = chars.next() {
                cur.push(n);
            }
            in_word = true;
        } else if c == ' ' {
            if in_word {
                words.push(std::mem::take(&mut cur));
                in_word = false;
            }
        } else {
            cur.push(c);
            in_word = true;
        }
    }
    if in_word {
        words.push(cur);
    }
    words
}

#[test]
fn snapshot_reads_back_word_for_word() {
    let mut args = positional("web-browser", "https://x.org/a b", "it's");
    args.extra_params = vec![
        "window_size=800x600".into(),
        "kiosk=true".into(),
        "title=Bob's app".into(),
    ];
    args.raw_args = vec!["--title=My 'App'".into(), "".into(), "-x".into()];
    let config = merge_config(&args, None).unwrap();
    let words = shell_split(&render_snapshot(&config));
    assert_eq!(
        words,
        vec![
            "appcast",
            "run",
            "web-browser",
            "https://x.org/a b",
            "it's",
            "--param",
            "kiosk=true",
            "--param",
            "title=Bob's app",
            "--param",
            "window_size=800x600",
            "--",
            "--title=My 'App'",
            "",
            "-x",
        ]
    );
}

#[test]
fn snapshot_quotes_param_words() {
    let mut args = positional("adb-scrcpy", "dev", "com.a.b");
    args.extra_params = vec!["k=a b".into(), "fps=90".into()];
    let config = merge_config(&args, None).unwrap();
    assert_eq!(
        render_snapshot(&config),
        "appcast run adb-scrcpy dev com.a.b --param fps=90 --param 'k=a b'"
    );
}
