//! The system-browser backend: URL validation, engine-family detection,
//! param interpretation and the browser command line. Spawning the browser
//! and probing the file system are the CLI's job.

use vstd::prelude::*;

use crate::adb::{collect_unknown, str_views, unknown_keys};
use crate::config::{opt_view, ResolvedConfig};
use crate::error::{
    is_backend_error, is_invalid_param_value, is_invalid_resolution, is_invalid_url, is_no_browser,
    is_usage, AppError,
};
use crate::parse::{parse_wxh, wxh};
use crate::paths::{join_path, joined, lossy_text, path_text};
use crate::strmap::StrMap;
use crate::text::{
    chars_of, contains_chars, contains_seq, decimal, has_char, join, join_strings, lower_chars,
    lower_seq, owned, push_decimal, starts_with, starts_with_chars, str_eq, string_of,
    string_views, trim, trim_chars,
};

verus! {

/// The shell-out browser backend (`--app` mode / Gecko kiosk).
#[derive(Debug)]
pub struct WebBrowserTransporter;

/// Browser engine families this backend knows how to drive.
#[derive(Debug, Clone, Copy, PartialEq, Eq, Structural)]
pub enum Family {
    /// Standalone-window mode: `--app=<url> [--window-size=W,H] [--kiosk]`.
    Chromium,
    /// No app mode: fullscreen `-kiosk <url>` or nothing.
    Gecko,
}

/// The operating-system family the browser probe chain depends on.
#[derive(Debug, Clone, Copy, PartialEq, Eq, Structural)]
pub enum Platform {
    Windows,
    MacOs,
    /// Linux and the other Unix systems.
    OtherUnix,
}

/// `<root>\Microsoft\Edge\Application\msedge.exe`.
pub open spec fn edge_under(root: std::path::PathBuf) -> std::path::PathBuf {
    joined(joined(joined(joined(root, "Microsoft"@), "Edge"@), "Application"@), "msedge.exe"@)
}

/// `<root>\Google\Chrome\Application\chrome.exe`.
pub open spec fn chrome_under(root: std::path::PathBuf) -> std::path::PathBuf {
    joined(joined(joined(joined(root, "Google"@), "Chrome"@), "Application"@), "chrome.exe"@)
}

/// Edge then Chrome under an install root, when the root is known.
pub open spec fn install_root_candidates(root: Option<std::path::PathBuf>) -> Seq<Seq<char>> {
    match root {
        Some(r) => seq![lossy_text(edge_under(r)), lossy_text(chrome_under(r))],
        None => Seq::empty(),
    }
}

/// The platform's default browser probe chain, best first. Windows: Edge
/// and Chrome under `ProgramFiles(x86)` then `ProgramFiles`, the per-user
/// Chrome under `LocalAppData`, then bare `msedge`/`chrome`; macOS: the
/// four app bundles; other Unix: six bare names. Chromium family only.
pub open spec fn browser_candidates_spec(
    platform: Platform,
    program_files_x86: Option<std::path::PathBuf>,
    program_files: Option<std::path::PathBuf>,
    local_app_data: Option<std::path::PathBuf>,
    exe_suffix: Seq<char>,
) -> Seq<Seq<char>> {
    match platform {
        Platform::Windows => install_root_candidates(program_files_x86) + install_root_candidates(
            program_files,
        ) + match local_app_data {
            Some(r) => seq![lossy_text(chrome_under(r))],
            None => Seq::empty(),
        } + seq!["msedge"@ + exe_suffix, "chrome"@ + exe_suffix],
        Platform::MacOs => seq![
            "/Applications/Google Chrome.app/Contents/MacOS/Google Chrome"@,
            "/Applications/Microsoft Edge.app/Contents/MacOS/Microsoft Edge"@,
            "/Applications/Chromium.app/Contents/MacOS/Chromium"@,
            "/Applications/Brave Browser.app/Contents/MacOS/Brave Browser"@,
        ],
        Platform::OtherUnix => seq![
            "chromium"@ + exe_suffix,
            "chromium-browser"@ + exe_suffix,
            "google-chrome-stable"@ + exe_suffix,
            "google-chrome"@ + exe_suffix,
            "brave-browser"@ + exe_suffix,
            "brave"@ + exe_suffix,
        ],
    }
}

/// The Windows probe chain, entry by entry: for each install root that is
/// set, `ProgramFiles(x86)` first and then `ProgramFiles`, its Edge
/// (`Microsoft\Edge\Application\msedge.exe`) and then its Chrome
/// (`Google\Chrome\Application\chrome.exe`); then the per-user Chrome
/// under `LocalAppData` when that is set; then bare `msedge` and `chrome`
/// with the executable suffix, last.
pub proof fn law_windows_probe_order(
    x86: Option<std::path::PathBuf>,
    pf: Option<std::path::PathBuf>,
    local: Option<std::path::PathBuf>,
    exe_suffix: Seq<char>,
)
    ensures
        ({
            let c = browser_candidates_spec(Platform::Windows, x86, pf, local, exe_suffix);
            let nx: int = if x86 is Some { 2 } else { 0 };
            let np: int = if pf is Some { 2 } else { 0 };
            let nl: int = if local is Some { 1 } else { 0 };
            &&& c.len() == nx + np + nl + 2
            &&& x86 matches Some(r) ==> c[0] == lossy_text(
                joined(joined(joined(joined(r, "Microsoft"@), "Edge"@), "Application"@), "msedge.exe"@),
            ) && c[1] == lossy_text(
                joined(joined(joined(joined(r, "Google"@), "Chrome"@), "Application"@), "chrome.exe"@),
            )
            &&& pf matches Some(r) ==> c[nx] == lossy_text(
                joined(joined(joined(joined(r, "Microsoft"@), "Edge"@), "Application"@), "msedge.exe"@),
            ) && c[nx + 1] == lossy_text(
                joined(joined(joined(joined(r, "Google"@), "Chrome"@), "Application"@), "chrome.exe"@),
            )
            &&& local matches Some(r) ==> c[nx + np] == lossy_text(
                joined(joined(joined(joined(r, "Google"@), "Chrome"@), "Application"@), "chrome.exe"@),
            )
            &&& c[nx + np + nl] == "msedge"@ + exe_suffix
            &&& c[nx + np + nl + 1] == "chrome"@ + exe_suffix
        }),
{
}

fn edge_path(root: &std::path::PathBuf) -> (r: String)
    ensures
        r@ == lossy_text(edge_under(*root)),
{
    path_text(
        &join_path(&join_path(&join_path(&join_path(root, "Microsoft"), "Edge"), "Application"), "msedge.exe"),
    )
}

fn chrome_path(root: &std::path::PathBuf) -> (r: String)
    ensures
        r@ == lossy_text(chrome_under(*root)),
{
    path_text(
        &join_path(&join_path(&join_path(&join_path(root, "Google"), "Chrome"), "Application"), "chrome.exe"),
    )
}

fn suffixed(name: &str, suffix: &str) -> (r: String)
    ensures
        r@ == name@ + suffix@,
{
    let mut r = owned(name);
    r.append(suffix);
    r
}

fn push_candidate(v: &mut Vec<String>, s: String)
    ensures
        string_views(final(v)@) == string_views(old(v)@).push(s@),
{
    v.push(s);
    assert(string_views(v@) =~= string_views(old(v)@).push(s@));
}

/// Param keys this backend interprets.
pub open spec fn browser_known_param(k: Seq<char>) -> bool {
    k == "browser_path"@ || k == "window_size"@ || k == "kiosk"@ || k == "profile"@
}

/// Whether `k` names a param this backend interprets.
pub fn is_browser_param(k: &str) -> (b: bool)
    ensures
        b == browser_known_param(k@),
{
    str_eq(k, "browser_path") || str_eq(k, "window_size") || str_eq(k, "kiosk") || str_eq(
        k,
        "profile",
    )
}

/// An http(s) URL, scheme compared case-insensitively.
pub open spec fn is_web_url(url: Seq<char>) -> bool {
    starts_with(lower_seq(url), "http://"@) || starts_with(lower_seq(url), "https://"@)
}

/// Engine family from a binary's file name, falling back to the whole
/// string when it has none: Gecko for names containing `firefox` or
/// `librewolf`, ASCII case-insensitively; Chromium for everything else.
pub open spec fn family_rule(bin: Seq<char>, file_name: Option<Seq<char>>) -> Family {
    let base = match file_name {
        Some(n) => n,
        None => bin,
    };
    if contains_seq(lower_seq(base), "firefox"@) || contains_seq(lower_seq(base), "librewolf"@) {
        Family::Gecko
    } else {
        Family::Chromium
    }
}

/// The file name, when there is one, is a piece of the path's own text.
pub open spec fn lies_within(bin: Seq<char>, file_name: Option<Seq<char>>) -> bool {
    match file_name {
        Some(n) => contains_seq(bin, n),
        None => true,
    }
}

/// The characters of `s` after its last `c` (all of `s` when it has none).
pub open spec fn after_last(s: Seq<char>, c: char) -> Seq<char>
    decreases s.len(),
{
    if s.len() == 0 || s.last() == c {
        Seq::empty()
    } else {
        after_last(s.drop_last(), c).push(s.last())
    }
}

/// A path that every platform reads the same way: no `\`, no `:` and no
/// leading `//` (so no Windows drive, UNC or verbatim prefix), ending in a
/// `/`-separated component that is neither empty, `.` nor `..`.
pub open spec fn plain_path(bin: Seq<char>) -> bool {
    let s = after_last(bin, '/');
    &&& !has_char(bin, '\\')
    &&& !has_char(bin, ':')
    &&& !starts_with(bin, "//"@)
    &&& s.len() > 0
    &&& s != "."@
    &&& s != ".."@
}

/// `Path::new(bin).file_name()` as a string (a `&str` path's components
/// are `&str` too). Which characters separate components, and which
/// prefixes a path may carry, is the platform's own rule (`/` on Unix;
/// `/`, `\` and drive, UNC and verbatim prefixes on Windows). Stated:
/// the name is always a piece of the path, and for a plain path (one that
/// every platform splits only at `/`) it is the last component.
#[verifier::external_body]
fn path_file_name(bin: &str) -> (r: Option<String>)
    ensures
        lies_within(bin@, opt_view(r)),
        plain_path(bin@) ==> opt_view(r) == Some(after_last(bin@, '/')),
{
    match std::path::Path::new(bin).file_name() {
        Some(n) => n.to_str().map(String::from),
        None => None,
    }
}

/// `kiosk`: absent means false; `true`/`1`/`yes` and `false`/`0`/`no`/empty
/// (after trimming) are read; anything else is `None`.
pub open spec fn kiosk_of(m: Map<Seq<char>, Seq<char>>) -> Option<bool> {
    if !m.contains_key("kiosk"@) {
        Some(false)
    } else {
        let v = trim(m["kiosk"@]);
        if v == "true"@ || v == "1"@ || v == "yes"@ {
            Some(true)
        } else if v == "false"@ || v == "0"@ || v == "no"@ || v.len() == 0 {
            Some(false)
        } else {
            None
        }
    }
}

/// How `kiosk` is read, spelling by spelling: absent, `false`, `0`, `no`
/// or blank (after trimming) mean false; `true`, `1` or `yes` mean true;
/// every other value is refused.
pub proof fn law_kiosk_spellings(m: Map<Seq<char>, Seq<char>>)
    ensures
        !m.contains_key("kiosk"@) ==> kiosk_of(m) == Some(false),
        m.contains_key("kiosk"@) && (trim(m["kiosk"@]) == "false"@ || trim(m["kiosk"@]) == "0"@
            || trim(m["kiosk"@]) == "no"@ || trim(m["kiosk"@]).len() == 0) ==> kiosk_of(m) == Some(
            false,
        ),
        m.contains_key("kiosk"@) && (trim(m["kiosk"@]) == "true"@ || trim(m["kiosk"@]) == "1"@
            || trim(m["kiosk"@]) == "yes"@) ==> kiosk_of(m) == Some(true),
        m.contains_key("kiosk"@) && trim(m["kiosk"@]) != "true"@ && trim(m["kiosk"@]) != "1"@
            && trim(m["kiosk"@]) != "yes"@ && trim(m["kiosk"@]) != "false"@ && trim(m["kiosk"@])
            != "0"@ && trim(m["kiosk"@]) != "no"@ && trim(m["kiosk"@]).len() != 0 ==> kiosk_of(m)
            is None,
{
    reveal_strlit("true");
    reveal_strlit("1");
    reveal_strlit("yes");
    reveal_strlit("false");
    reveal_strlit("0");
    reveal_strlit("no");
    assert("false"@.len() == 5 && "true"@.len() == 4 && "yes"@.len() == 3 && "no"@.len() == 2);
    assert("0"@.len() == 1 && "1"@.len() == 1 && "0"@[0] != "1"@[0]);
    assert("false"@ != "true"@ && "false"@ != "1"@ && "false"@ != "yes"@);
    assert("0"@ != "true"@ && "0"@ != "1"@ && "0"@ != "yes"@);
    assert("no"@ != "true"@ && "no"@ != "1"@ && "no"@ != "yes"@);
}

/// `window_size`: absent, or a parsed `<W>x<H>` (`None` when malformed).
pub open spec fn window_of(m: Map<Seq<char>, Seq<char>>) -> Option<Option<(nat, nat)>> {
    if !m.contains_key("window_size"@) {
        Some(None)
    } else {
        match wxh(m["window_size"@]) {
            Some(size) => Some(Some(size)),
            None => None,
        }
    }
}

/// The profile flag for Chromium: none for `default`, the given directory
/// otherwise, the dedicated default directory when absent.
pub open spec fn profile_words(m: Map<Seq<char>, Seq<char>>, default_dir: Seq<char>) -> Seq<Seq<char>> {
    if !m.contains_key("profile"@) {
        seq!["--user-data-dir="@ + default_dir]
    } else if m["profile"@] == "default"@ {
        Seq::empty()
    } else {
        seq!["--user-data-dir="@ + m["profile"@]]
    }
}

/// Chromium launch words before the passthrough.
pub open spec fn chromium_words(
    url: Seq<char>,
    window: Option<(nat, nat)>,
    kiosk: bool,
    profile: Seq<Seq<char>>,
) -> Seq<Seq<char>> {
    seq!["--app="@ + url] + match window {
        Some((w, h)) => seq!["--window-size="@ + decimal(w) + ","@ + decimal(h)],
        None => Seq::empty(),
    } + if kiosk {
        seq!["--kiosk"@]
    } else {
        Seq::empty()
    } + profile + seq!["--new-window"@]
}

/// The refusal for a Gecko browser without kiosk mode.
pub open spec fn gecko_needs_kiosk(bin: Seq<char>) -> Seq<char> {
    "`"@ + bin
        + "` looks like a Firefox-family browser (no app mode); add --param kiosk=true for fullscreen kiosk casting"@
}

impl WebBrowserTransporter {
    /// Registry name of this backend.
    pub fn name(&self) -> (r: &'static str)
        ensures
            r@ == "web-browser"@,
    {
        "web-browser"
    }

    /// One-line description for listings.
    pub fn description(&self) -> (r: &'static str)
        ensures
            r@ == "System browser in app mode — Chromium --app or Firefox kiosk"@,
    {
        "System browser in app mode — Chromium --app or Firefox kiosk"
    }

    /// The addressing schema of this backend: the target must be an
    /// http(s) URL.
    pub fn validate_url(url: &str) -> (r: Result<(), AppError>)
        ensures
            r is Ok <==> is_web_url(url@),
            r matches Err(e) ==> is_invalid_url(e, url@),
    {
        let lower = lower_chars(&chars_of(url));
        let http = chars_of("http://");
        let https = chars_of("https://");
        if starts_with_chars(&lower, &http) || starts_with_chars(&lower, &https) {
            Ok(())
        } else {
            Err(AppError::InvalidUrl(owned(url)))
        }
    }

    /// The URL to open: the address slot, which must be present and an
    /// http(s) URL.
    pub fn session_url(config: &ResolvedConfig) -> (r: Result<String, AppError>)
        ensures
            match config.target {
                None => r matches Err(e) && is_usage(e, "appcast run web-browser <https-url>"@),
                Some(t) => match r {
                    Ok(u) => is_web_url(t@) && u@ == t@,
                    Err(e) => !is_web_url(t@) && is_invalid_url(e, t@),
                },
            },
    {
        match &config.target {
            None => Err(AppError::Usage(owned("appcast run web-browser <https-url>"))),
            Some(t) => match Self::validate_url(t.as_str()) {
                Ok(()) => Ok(owned(t.as_str())),
                Err(e) => Err(e),
            },
        }
    }

    /// Whether a `window_size` param goes unused: Firefox-family kiosk
    /// windows take the whole screen.
    pub fn ignores_window_size(family: Family, config: &ResolvedConfig) -> (b: bool)
        ensures
            b == (family == Family::Gecko && config.params@.contains_key("window_size"@)),
    {
        let gecko = match family {
            Family::Gecko => true,
            Family::Chromium => false,
        };
        gecko && config.params.contains_key("window_size")
    }

    /// Engine family from the binary's file name as `Path::file_name`
    /// gives it (not its directory, which often carries vendor names like
    /// "Mozilla Firefox"). For a plain path the file name is its last
    /// `/`-separated component on every platform; otherwise it follows the
    /// platform's path rules, and `family_from_name` states the family for
    /// each file name.
    pub fn family_of(bin: &str) -> (f: Family)
        ensures
            exists|n: Option<Seq<char>>| lies_within(bin@, n) && f == family_rule(bin@, n),
            plain_path(bin@) ==> f == family_rule(bin@, Some(after_last(bin@, '/'))),
    {
        let name = path_file_name(bin);
        Self::family_from_name(bin, &name)
    }

    /// Engine family from the binary and its file name (`None` when the
    /// path has no final component).
    pub fn family_from_name(bin: &str, file_name: &Option<String>) -> (f: Family)
        ensures
            f == family_rule(bin@, opt_view(*file_name)),
    {
        let base = match file_name {
            Some(n) => chars_of(n.as_str()),
            None => chars_of(bin),
        };
        let lower = lower_chars(&base);
        let firefox = chars_of("firefox");
        let librewolf = chars_of("librewolf");
        if contains_chars(&lower, &firefox) || contains_chars(&lower, &librewolf) {
            Family::Gecko
        } else {
            Family::Chromium
        }
    }

    /// Truthy/falsy reading of `kiosk`; any other value is refused rather
    /// than silently meaning false.
    pub fn parse_kiosk(config: &ResolvedConfig) -> (r: Result<bool, AppError>)
        ensures
            match r {
                Ok(b) => kiosk_of(config.params@) == Some(b),
                Err(e) => kiosk_of(config.params@) is None && is_invalid_param_value(
                    e,
                    "kiosk"@,
                    trim(config.params@["kiosk"@]),
                ),
            },
    {
        match config.param("kiosk") {
            None => Ok(false),
            Some(value) => {
                let t = trim_chars(&chars_of(value));
                let ts = string_of(&t);
                let s = ts.as_str();
                if str_eq(s, "true") || str_eq(s, "1") || str_eq(s, "yes") {
                    Ok(true)
                } else if str_eq(s, "false") || str_eq(s, "0") || str_eq(s, "no") || t.len() == 0 {
                    Ok(false)
                } else {
                    Err(AppError::InvalidParamValue { key: owned("kiosk"), value: ts })
                }
            },
        }
    }

    /// Param keys this backend does not interpret.
    pub fn unknown_param_keys(params: &StrMap) -> (r: Vec<&str>)
        ensures
            str_views(r@) == unknown_keys(params.keys(), |k: Seq<char>| browser_known_param(k)),
    {
        collect_unknown(params, is_browser_param, Ghost(|k: Seq<char>| browser_known_param(k)))
    }

    /// The default probe chain for a platform, given the install roots read
    /// from the environment (`ProgramFiles(x86)`, `ProgramFiles`,
    /// `LocalAppData`; only Windows uses them) and the executable suffix.
    pub fn browser_candidates(
        platform: Platform,
        program_files_x86: Option<std::path::PathBuf>,
        program_files: Option<std::path::PathBuf>,
        local_app_data: Option<std::path::PathBuf>,
        exe_suffix: &str,
    ) -> (r: Vec<String>)
        ensures
            string_views(r@) == browser_candidates_spec(
                platform,
                program_files_x86,
                program_files,
                local_app_data,
                exe_suffix@,
            ),
    {
        let mut v: Vec<String> = Vec::new();
        match platform {
            Platform::Windows => {
                match &program_files_x86 {
                    Some(r) => {
                        push_candidate(&mut v, edge_path(r));
                        push_candidate(&mut v, chrome_path(r));
                    },
                    None => {},
                }
                assert(string_views(v@) =~= install_root_candidates(program_files_x86));
                let ghost a = string_views(v@);
                match &program_files {
                    Some(r) => {
                        push_candidate(&mut v, edge_path(r));
                        push_candidate(&mut v, chrome_path(r));
                    },
                    None => {},
                }
                assert(string_views(v@) =~= a + install_root_candidates(program_files));
                let ghost b = string_views(v@);
                match &local_app_data {
                    Some(r) => push_candidate(&mut v, chrome_path(r)),
                    None => {},
                }
                let ghost c = string_views(v@);
                assert(c =~= b + match local_app_data {
                    Some(r) => seq![lossy_text(chrome_under(r))],
                    None => Seq::<Seq<char>>::empty(),
                });
                push_candidate(&mut v, suffixed("msedge", exe_suffix));
                push_candidate(&mut v, suffixed("chrome", exe_suffix));
                assert(string_views(v@) =~= c + seq!["msedge"@ + exe_suffix@, "chrome"@
                    + exe_suffix@]);
            },
            Platform::MacOs => {
                push_candidate(&mut v, owned("/Applications/Google Chrome.app/Contents/MacOS/Google Chrome"));
                push_candidate(&mut v, owned("/Applications/Microsoft Edge.app/Contents/MacOS/Microsoft Edge"));
                push_candidate(&mut v, owned("/Applications/Chromium.app/Contents/MacOS/Chromium"));
                push_candidate(&mut v, owned("/Applications/Brave Browser.app/Contents/MacOS/Brave Browser"));
            },
            Platform::OtherUnix => {
                push_candidate(&mut v, suffixed("chromium", exe_suffix));
                push_candidate(&mut v, suffixed("chromium-browser", exe_suffix));
                push_candidate(&mut v, suffixed("google-chrome-stable", exe_suffix));
                push_candidate(&mut v, suffixed("google-chrome", exe_suffix));
                push_candidate(&mut v, suffixed("brave-browser", exe_suffix));
                push_candidate(&mut v, suffixed("brave", exe_suffix));
            },
        }
        v
    }

    /// The browser binary: an explicit `browser_path` wins; otherwise the
    /// first candidate for which `available` answers true. `available` is
    /// asked about the candidates in order and not past the first hit.
    pub fn resolve_browser(
        config: &ResolvedConfig,
        candidates: &Vec<String>,
        available: impl Fn(&String) -> bool,
    ) -> (r: Result<String, AppError>)
        requires
            forall|c: &String| #[trigger] call_requires(available, (c,)),
        ensures
            config.params@.contains_key("browser_path"@) ==> (r matches Ok(b) && b@
                == config.params@["browser_path"@]),
            !config.params@.contains_key("browser_path"@) ==> match r {
                Ok(b) => exists|i: int|
                    0 <= i < candidates@.len() && candidates@[i]@ == b@ && call_ensures(
                        available,
                        (&candidates@[i],),
                        true,
                    ) && forall|j: int|
                        0 <= j < i ==> call_ensures(available, (&candidates@[j],), false),
                Err(e) => is_no_browser(e, join(string_views(candidates@), ", "@)) && forall|j: int|
                    0 <= j < candidates@.len() ==> call_ensures(
                        available,
                        (&candidates@[j],),
                        false,
                    ),
            },
    {
        match config.param("browser_path") {
            Some(explicit) => {
                return Ok(owned(explicit));
            },
            None => {},
        }
        for i in 0..candidates.len()
            invariant
                forall|c: &String| #[trigger] call_requires(available, (c,)),
                !config.params@.contains_key("browser_path"@),
                forall|j: int| 0 <= j < i ==> call_ensures(available, (&candidates@[j],), false),
        {
            if available(&candidates[i]) {
                return Ok(owned(candidates[i].as_str()));
            }
        }
        Err(AppError::NoBrowserFound { tried: join_strings(candidates, ", ") })
    }

    /// The browser argument list (family-specific pipeline first, then the
    /// raw passthrough args). `family` is the engine family of `bin` (as
    /// `family_of` finds it); `default_profile` is the dedicated profile
    /// directory used when the `profile` param is absent.
    pub fn launch_plan(
        bin: &str,
        family: Family,
        url: &str,
        config: &ResolvedConfig,
        default_profile: &str,
    ) -> (r: Result<Vec<String>, AppError>)
        ensures
            match r {
                Ok(args) => {
                    &&& window_of(config.params@) is Some
                    &&& kiosk_of(config.params@) is Some
                    &&& family == Family::Gecko ==> kiosk_of(config.params@) == Some(true)
                        && string_views(args@) == seq!["-kiosk"@, url@, "--new-instance"@]
                        + string_views(config.raw_args@)
                    &&& family == Family::Chromium ==> string_views(args@) == chromium_words(
                        url@,
                        window_of(config.params@).unwrap(),
                        kiosk_of(config.params@).unwrap(),
                        profile_words(config.params@, default_profile@),
                    ) + string_views(config.raw_args@)
                },
                Err(e) => {
                    ||| window_of(config.params@) is None && is_invalid_resolution(
                        e,
                        config.params@["window_size"@],
                    )
                    ||| window_of(config.params@) is Some && kiosk_of(config.params@) is None
                        && is_invalid_param_value(e, "kiosk"@, trim(config.params@["kiosk"@]))
                    ||| window_of(config.params@) is Some && kiosk_of(config.params@) == Some(false)
                        && family == Family::Gecko && is_backend_error(
                        e,
                        gecko_needs_kiosk(bin@),
                    )
                },
            },
    {
        let window = match config.param("window_size") {
            None => None,
            Some(value) => match parse_wxh(value) {
                Ok(size) => Some(size),
                Err(e) => {
                    return Err(e);
                },
            },
        };
        let kiosk = match Self::parse_kiosk(config) {
            Ok(k) => k,
            Err(e) => {
                return Err(e);
            },
        };
        let mut args: Vec<String> = Vec::new();
        let ghost w = match window {
            Some((a, b)) => Some((a as nat, b as nat)),
            None => None,
        };
        assert(window_of(config.params@) == Some(w));
        match family {
            Family::Chromium => {
                let mut app = owned("--app=");
                app.append(url);
                args.push(app);
                match window {
                    Some((ww, hh)) => {
                        let mut ws = owned("--window-size=");
                        push_decimal(&mut ws, ww);
                        ws.append(",");
                        push_decimal(&mut ws, hh);
                        args.push(ws);
                    },
                    None => {},
                }
                if kiosk {
                    args.push(owned("--kiosk"));
                }
                match config.param("profile") {
                    Some(p) => {
                        if !str_eq(p, "default") {
                            let mut d = owned("--user-data-dir=");
                            d.append(p);
                            args.push(d);
                        }
                    },
                    None => {
                        let mut d = owned("--user-data-dir=");
                        d.append(default_profile);
                        args.push(d);
                    },
                }
                args.push(owned("--new-window"));
                assert(string_views(args@) =~= chromium_words(
                    url@,
                    w,
                    kiosk,
                    profile_words(config.params@, default_profile@),
                ));
            },
            Family::Gecko => {
                if !kiosk {
                    let mut m = owned("`");
                    m.append(bin);
                    m.append(
                        "` looks like a Firefox-family browser (no app mode); add --param kiosk=true for fullscreen kiosk casting",
                    );
                    return Err(AppError::BackendError(m));
                }
                args.push(owned("-kiosk"));
                args.push(owned(url));
                args.push(owned("--new-instance"));
                assert(string_views(args@) =~= seq!["-kiosk"@, url@, "--new-instance"@]);
            },
        }
        let ghost head = string_views(args@);
        for i in 0..config.raw_args.len()
            invariant
                string_views(args@) == head + string_views(config.raw_args@).take(i as int),
        {
            let a = owned(config.raw_args[i].as_str());
            let ghost prev = string_views(args@);
            args.push(a);
            assert(string_views(args@) =~= prev.push(a@));
            assert(string_views(config.raw_args@).take(i + 1) =~= string_views(config.raw_args@).take(
                i as int,
            ).push(config.raw_args@[i as int]@));
        }
        assert(string_views(config.raw_args@).take(config.raw_args.len() as int) =~= string_views(
            config.raw_args@,
        ));
        Ok(args)
    }
}

} // verus!
