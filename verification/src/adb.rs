//! The adb + scrcpy virtual-display backend: param interpretation with its
//! defaults, package-name validation, the scrcpy command line, and the
//! reading of `pm list packages` output. Spawning the processes is the
//! CLI's job.

use vstd::prelude::*;

use crate::config::{opt_view, ResolvedConfig};
use crate::error::{
    is_invalid_app, is_invalid_param_value, is_invalid_resolution, is_scrcpy_too_old,
    is_scrcpy_version_unknown, is_usage, AppError,
};
use crate::parse::{law_wxh_round_trip, parse_wxh, wxh};
use crate::strmap::StrMap;
use crate::text::{
    chars_of, contains_char, contains_chars, decimal, find_char, find_from, has_char,
    contains_seq, is_whitespace, is_ws, lemma_find_bounds, owned, parse_u32, parses_u32,
    push_decimal, slice_chars, sort_strings, sorted_asc, starts_with, starts_with_chars, str_eq,
    string_of, string_views, trim, trim_chars, u32_value,
};

verus! {

/// The adb + scrcpy virtual-display backend.
#[derive(Debug)]
pub struct AndroidAdbTransporter;

/// Width of the virtual display when `resolution` is absent.
pub const DEFAULT_WIDTH: u32 = 1920;

/// Height of the virtual display when `resolution` is absent.
pub const DEFAULT_HEIGHT: u32 = 1080;

/// Frame-rate cap when `fps` is absent.
pub const DEFAULT_FPS: u32 = 60;

/// Video bit rate in Mbps when `bit_rate` is absent.
pub const DEFAULT_BIT_RATE_MBPS: u32 = 8;

/// The oldest scrcpy major version with virtual-display support.
pub const MIN_SCRCPY_MAJOR: u32 = 3;

/// Param keys this backend interprets.
pub open spec fn adb_known_param(k: Seq<char>) -> bool {
    k == "adb_path"@ || k == "scrcpy_path"@ || k == "resolution"@ || k == "fps"@ || k
        == "bit_rate"@
}

/// The keys of `keys` (in order) that `known` rejects.
pub open spec fn unknown_keys(keys: Seq<Seq<char>>, known: spec_fn(Seq<char>) -> bool) -> Seq<
    Seq<char>,
>
    decreases keys.len(),
{
    if keys.len() == 0 {
        Seq::empty()
    } else if known(keys.last()) {
        unknown_keys(keys.drop_last(), known)
    } else {
        unknown_keys(keys.drop_last(), known).push(keys.last())
    }
}

/// Exactly the keys that `known` rejects are reported, each once, in
/// the order of `keys`: a key is listed iff it occurs in `keys` and is not
/// known.
pub proof fn law_unknown_keys_exact(
    keys: Seq<Seq<char>>,
    known: spec_fn(Seq<char>) -> bool,
    k: Seq<char>,
)
    ensures
        unknown_keys(keys, known).contains(k) <==> keys.contains(k) && !known(k),
        unknown_keys(keys, known).len() <= keys.len(),
    decreases keys.len(),
{
    if keys.len() > 0 {
        let init = keys.drop_last();
        let last = keys.last();
        law_unknown_keys_exact(init, known, k);
        let rest = unknown_keys(init, known);
        assert(keys == init.push(last));
        assert(keys.contains(k) <==> (init.contains(k) || last == k)) by {
            if keys.contains(k) {
                let i = choose|i: int| 0 <= i < keys.len() && keys[i] == k;
                if i < keys.len() - 1 {
                    assert(init[i] == k);
                }
            }
            if init.contains(k) {
                let i = choose|i: int| 0 <= i < init.len() && init[i] == k;
                assert(keys[i] == k);
            }
            if last == k {
                assert(keys[keys.len() - 1] == k);
            }
        }
        if !known(last) {
            let out = rest.push(last);
            assert(unknown_keys(keys, known) == out);
            assert(out.contains(k) <==> (rest.contains(k) || last == k)) by {
                if out.contains(k) {
                    let j = choose|j: int| 0 <= j < out.len() && out[j] == k;
                    if j < rest.len() {
                        assert(rest[j] == k);
                    }
                }
                if rest.contains(k) {
                    let j = choose|j: int| 0 <= j < rest.len() && rest[j] == k;
                    assert(out[j] == k);
                }
                if last == k {
                    assert(out[out.len() - 1] == k);
                }
            }
        } else {
            assert(unknown_keys(keys, known) == rest);
        }
    }
}

/// The characters of each `&str` of a list.
pub open spec fn str_views(v: Seq<&str>) -> Seq<Seq<char>> {
    Seq::new(v.len(), |i: int| v[i]@)
}

/// Collects, in ascending order, the keys of `params` that `is_known`
/// rejects.
pub(crate) fn collect_unknown<'a>(params: &'a StrMap, is_known: impl Fn(&str) -> bool, known: Ghost<
    spec_fn(Seq<char>) -> bool,
>) -> (r: Vec<&'a str>)
    requires
        forall|k: &str| #[trigger] call_requires(is_known, (k,)),
        forall|k: &str, b: bool| #[trigger] call_ensures(is_known, (k,), b) ==> b == known@(k@),
    ensures
        str_views(r@) == unknown_keys(params.keys(), known@),
{
    let mut r: Vec<&str> = Vec::new();
    let n = params.len();
    proof {
        use_type_invariant(params);
        params.lemma_enumeration();
    }
    for i in 0..n
        invariant
            n == params.size(),
            params.keys().len() == params.size(),
            forall|k: &str| #[trigger] call_requires(is_known, (k,)),
            forall|k: &str, b: bool| #[trigger] call_ensures(is_known, (k,), b) ==> b == known@(k@),
            str_views(r@) == unknown_keys(params.keys().take(i as int), known@),
    {
        let k = params.key_at(i).as_str();
        assert(params.keys().take(i + 1).drop_last() == params.keys().take(i as int));
        if !is_known(k) {
            r.push(k);
            assert(str_views(r@) =~= unknown_keys(params.keys().take(i as int), known@).push(k@));
        }
    }
    assert(params.keys().take(n as int) == params.keys());
    r
}

/// Whether `k` names a param this backend interprets.
pub fn is_adb_param(k: &str) -> (b: bool)
    ensures
        b == adb_known_param(k@),
{
    str_eq(k, "adb_path") || str_eq(k, "scrcpy_path") || str_eq(k, "resolution") || str_eq(k, "fps")
        || str_eq(k, "bit_rate")
}

/// The usage line of this backend.
pub open spec fn adb_usage() -> Seq<char> {
    "appcast run adb-scrcpy <target> <app>"@
}

/// A `u32` param read after trimming, or `default` when absent; `None`
/// when present but not a `u32`.
pub open spec fn numeric_param(m: Map<Seq<char>, Seq<char>>, key: Seq<char>, default: nat) -> Option<
    nat,
> {
    if !m.contains_key(key) {
        Some(default)
    } else if parses_u32(trim(m[key])) {
        Some(u32_value(trim(m[key])))
    } else {
        None
    }
}

/// The virtual display size: `resolution` read as `<W>x<H>`, or the default.
pub open spec fn resolution_of(m: Map<Seq<char>, Seq<char>>) -> Option<(nat, nat)> {
    if !m.contains_key("resolution"@) {
        Some((DEFAULT_WIDTH as nat, DEFAULT_HEIGHT as nat))
    } else {
        wxh(m["resolution"@])
    }
}

/// Runs of non-whitespace characters (`split_whitespace().count()`) that
/// start before index `i`.
pub open spec fn word_count(s: Seq<char>, i: int) -> nat
    decreases i,
{
    if i <= 0 || i > s.len() {
        0
    } else {
        word_count(s, i - 1) + if !is_ws(s[i - 1]) && (i - 1 == 0 || is_ws(s[i - 2])) {
            1nat
        } else {
            0nat
        }
    }
}

/// A plausible Android package name: non-empty, one whitespace-separated
/// word, and nothing path-like (`/`, `\`, `..`).
pub open spec fn valid_package_name(s: Seq<char>) -> bool {
    &&& s.len() > 0
    &&& !has_char(s, '/')
    &&& !has_char(s, '\\')
    &&& !contains_seq(s, ".."@)
    &&& word_count(s, s.len() as int) == 1
}

/// The scrcpy argument list for the given slots and settings: the fixed
/// pipeline first, then the raw passthrough args verbatim.
pub open spec fn scrcpy_plan(
    target: Seq<char>,
    app: Seq<char>,
    size: (nat, nat),
    fps: nat,
    bit_rate: nat,
    raw: Seq<Seq<char>>,
) -> Seq<Seq<char>> {
    seq![
        "-s"@,
        target,
        "--new-display="@ + decimal(size.0) + "x"@ + decimal(size.1),
        "--start-app="@ + app,
        "--max-fps"@,
        decimal(fps),
        "--video-bit-rate"@,
        decimal(bit_rate) + "M"@,
    ] + raw
}

/// The end of the run of ASCII digits of `s` that starts at `i`.
pub open spec fn digits_end(s: Seq<char>, i: int) -> int
    decreases s.len() - i,
{
    if i < 0 || i >= s.len() || !('0' <= s[i] && s[i] <= '9') {
        i
    } else {
        digits_end(s, i + 1)
    }
}

/// The first line of `scrcpy --version` output, trimmed.
pub open spec fn version_line(out: Seq<char>) -> Seq<char> {
    if lines(out).len() > 0 {
        trim(lines(out)[0])
    } else {
        Seq::empty()
    }
}

/// The major version `scrcpy --version` reports: its first line reads
/// `scrcpy <major>[.<minor>...] ...`.
pub open spec fn scrcpy_major(out: Seq<char>) -> Option<nat> {
    let w = version_line(out);
    if starts_with(w, "scrcpy "@) {
        let rest = w.skip(7);
        let d = rest.take(digits_end(rest, 0));
        if parses_u32(d) {
            Some(u32_value(d))
        } else {
            None
        }
    } else {
        None
    }
}

proof fn lemma_digits_end_bounds(s: Seq<char>, i: int)
    requires
        0 <= i <= s.len(),
    ensures
        i <= digits_end(s, i) <= s.len(),
    decreases s.len() - i,
{
    if i < s.len() && '0' <= s[i] && s[i] <= '9' {
        lemma_digits_end_bounds(s, i + 1);
    }
}

/// The virtual display is exactly the size asked for, width first: a
/// `resolution` param written `<w>x<h>` gives `--new-display=<w>x<h>` as
/// the third scrcpy word, and an absent one gives `1920x1080`.
pub proof fn law_display_size_as_given(
    m: Map<Seq<char>, Seq<char>>,
    w: u32,
    h: u32,
    target: Seq<char>,
    app: Seq<char>,
    fps: nat,
    bit_rate: nat,
    raw: Seq<Seq<char>>,
)
    ensures
        m.contains_key("resolution"@) && m["resolution"@] == decimal(w as nat) + "x"@ + decimal(
            h as nat,
        ) ==> resolution_of(m) == Some((w as nat, h as nat)) && scrcpy_plan(
            target,
            app,
            resolution_of(m).unwrap(),
            fps,
            bit_rate,
            raw,
        )[2] == "--new-display="@ + decimal(w as nat) + "x"@ + decimal(h as nat),
        !m.contains_key("resolution"@) ==> scrcpy_plan(
            target,
            app,
            resolution_of(m).unwrap(),
            fps,
            bit_rate,
            raw,
        )[2] == "--new-display="@ + decimal(1920) + "x"@ + decimal(1080),
{
    law_wxh_round_trip(w, h);
}

fn read_u32_param(config: &ResolvedConfig, key: &str, default: u32) -> (r: Result<u32, AppError>)
    ensures
        match r {
            Ok(n) => numeric_param(config.params@, key@, default as nat) == Some(n as nat),
            Err(e) => numeric_param(config.params@, key@, default as nat) is None
                && is_invalid_param_value(e, key@, config.params@[key@]),
        },
{
    match config.param(key) {
        None => Ok(default),
        Some(value) => {
            let v = chars_of(value);
            let t = trim_chars(&v);
            match parse_u32(&t) {
                Some(n) => Ok(n),
                None => Err(AppError::InvalidParamValue { key: owned(key), value: owned(value) }),
            }
        },
    }
}

fn param_or(config: &ResolvedConfig, key: &str, fallback: &str, suffix: &str) -> (r: String)
    ensures
        r@ == if config.params@.contains_key(key@) {
            config.params@[key@]
        } else {
            fallback@ + suffix@
        },
{
    match config.param(key) {
        Some(v) => owned(v),
        None => {
            let mut r = owned(fallback);
            r.append(suffix);
            r
        },
    }
}

impl AndroidAdbTransporter {
    /// Registry name of this backend.
    pub fn name(&self) -> (r: &'static str)
        ensures
            r@ == "adb-scrcpy"@,
    {
        "adb-scrcpy"
    }

    /// Param keys this backend does not interpret (warned about, ignored).
    pub fn unknown_param_keys(params: &StrMap) -> (r: Vec<&str>)
        ensures
            str_views(r@) == unknown_keys(params.keys(), |k: Seq<char>| adb_known_param(k)),
    {
        collect_unknown(params, is_adb_param, Ghost(|k: Seq<char>| adb_known_param(k)))
    }

    /// Virtual display size: `resolution` param or the built-in default.
    pub fn resolution(config: &ResolvedConfig) -> (r: Result<(u32, u32), AppError>)
        ensures
            match r {
                Ok((w, h)) => resolution_of(config.params@) == Some((w as nat, h as nat)),
                Err(e) => resolution_of(config.params@) is None && is_invalid_resolution(
                    e,
                    config.params@["resolution"@],
                ),
            },
    {
        match config.param("resolution") {
            None => Ok((DEFAULT_WIDTH, DEFAULT_HEIGHT)),
            Some(value) => parse_wxh(value),
        }
    }

    /// Frame rate: `fps` param or the built-in default.
    pub fn fps(config: &ResolvedConfig) -> (r: Result<u32, AppError>)
        ensures
            match r {
                Ok(n) => numeric_param(config.params@, "fps"@, DEFAULT_FPS as nat) == Some(n as nat),
                Err(e) => numeric_param(config.params@, "fps"@, DEFAULT_FPS as nat) is None
                    && is_invalid_param_value(e, "fps"@, config.params@["fps"@]),
            },
    {
        read_u32_param(config, "fps", DEFAULT_FPS)
    }

    /// Bit rate in Mbps: `bit_rate` param or the built-in default.
    pub fn bit_rate(config: &ResolvedConfig) -> (r: Result<u32, AppError>)
        ensures
            match r {
                Ok(n) => numeric_param(config.params@, "bit_rate"@, DEFAULT_BIT_RATE_MBPS as nat)
                    == Some(n as nat),
                Err(e) => numeric_param(config.params@, "bit_rate"@, DEFAULT_BIT_RATE_MBPS as nat)
                    is None && is_invalid_param_value(e, "bit_rate"@, config.params@["bit_rate"@]),
            },
    {
        read_u32_param(config, "bit_rate", DEFAULT_BIT_RATE_MBPS)
    }

    /// The adb binary: `adb_path` param, else `adb` plus the platform's
    /// executable suffix.
    pub fn adb_bin(config: &ResolvedConfig, exe_suffix: &str) -> (r: String)
        ensures
            r@ == if config.params@.contains_key("adb_path"@) {
                config.params@["adb_path"@]
            } else {
                "adb"@ + exe_suffix@
            },
    {
        param_or(config, "adb_path", "adb", exe_suffix)
    }

    /// The scrcpy binary: `scrcpy_path` param, else `scrcpy` plus the
    /// platform's executable suffix.
    pub fn scrcpy_bin(config: &ResolvedConfig, exe_suffix: &str) -> (r: String)
        ensures
            r@ == if config.params@.contains_key("scrcpy_path"@) {
                config.params@["scrcpy_path"@]
            } else {
                "scrcpy"@ + exe_suffix@
            },
    {
        param_or(config, "scrcpy_path", "scrcpy", exe_suffix)
    }

    /// Sanity check of the package name: rejects emptiness, path separators,
    /// `..`, and anything that is not exactly one whitespace-separated word.
    pub fn validate_package_name(app: &str) -> (r: Result<(), AppError>)
        ensures
            r is Ok <==> valid_package_name(app@),
            r matches Err(e) ==> is_invalid_app(e, app@),
    {
        let v = chars_of(app);
        let dots = chars_of("..");
        let looks_like_path = contains_char(&v, '/') || contains_char(&v, '\\') || contains_chars(
            &v,
            &dots,
        );
        let mut words: usize = 0;
        let mut i: usize = 0;
        while i < v.len()
            invariant
                i <= v.len(),
                words <= i,
                words == word_count(v@, i as int),
            decreases v.len() - i,
        {
            if !is_whitespace(v[i]) && (i == 0 || is_whitespace(v[i - 1])) {
                words = words + 1;
            }
            i = i + 1;
        }
        if v.len() == 0 || looks_like_path || words != 1 {
            return Err(AppError::InvalidAppIdentifier(owned(app)));
        }
        Ok(())
    }

    /// The scrcpy argument list: `-s <target> --new-display=<W>x<H>
    /// --start-app=<app> --max-fps <fps> --video-bit-rate <n>M`, then the raw
    /// passthrough args verbatim at the tail. Both slots are required.
    pub fn scrcpy_args(config: &ResolvedConfig) -> (r: Result<Vec<String>, AppError>)
        ensures
            match r {
                Ok(args) => {
                    &&& config.target is Some
                    &&& config.app is Some
                    &&& resolution_of(config.params@) is Some
                    &&& numeric_param(config.params@, "fps"@, DEFAULT_FPS as nat) is Some
                    &&& numeric_param(config.params@, "bit_rate"@, DEFAULT_BIT_RATE_MBPS as nat) is Some
                    &&& string_views(args@) == scrcpy_plan(
                        opt_view(config.target).unwrap(),
                        opt_view(config.app).unwrap(),
                        resolution_of(config.params@).unwrap(),
                        numeric_param(config.params@, "fps"@, DEFAULT_FPS as nat).unwrap(),
                        numeric_param(config.params@, "bit_rate"@, DEFAULT_BIT_RATE_MBPS as nat).unwrap(),
                        string_views(config.raw_args@),
                    )
                },
                Err(e) => {
                    ||| (config.target is None || config.app is None) && is_usage(e, adb_usage())
                    ||| config.target is Some && config.app is Some && resolution_of(config.params@) is None
                        && is_invalid_resolution(e, config.params@["resolution"@])
                    ||| config.target is Some && config.app is Some && resolution_of(config.params@) is Some
                        && numeric_param(config.params@, "fps"@, DEFAULT_FPS as nat) is None
                        && is_invalid_param_value(e, "fps"@, config.params@["fps"@])
                    ||| config.target is Some && config.app is Some && resolution_of(config.params@) is Some
                        && numeric_param(config.params@, "fps"@, DEFAULT_FPS as nat) is Some
                        && numeric_param(config.params@, "bit_rate"@, DEFAULT_BIT_RATE_MBPS as nat) is None
                        && is_invalid_param_value(e, "bit_rate"@, config.params@["bit_rate"@])
                },
            },
    {
        let (target, app) = match (&config.target, &config.app) {
            (Some(t), Some(a)) => (t, a),
            _ => {
                return Err(AppError::Usage(owned("appcast run adb-scrcpy <target> <app>")));
            },
        };
        let (width, height) = match Self::resolution(config) {
            Ok(size) => size,
            Err(e) => {
                return Err(e);
            },
        };
        let fps = match Self::fps(config) {
            Ok(n) => n,
            Err(e) => {
                return Err(e);
            },
        };
        let bit_rate = match Self::bit_rate(config) {
            Ok(n) => n,
            Err(e) => {
                return Err(e);
            },
        };
        let mut args: Vec<String> = Vec::new();
        args.push(owned("-s"));
        args.push(owned(target.as_str()));
        let mut display = owned("--new-display=");
        push_decimal(&mut display, width);
        display.append("x");
        push_decimal(&mut display, height);
        args.push(display);
        let mut start = owned("--start-app=");
        start.append(app.as_str());
        args.push(start);
        args.push(owned("--max-fps"));
        let mut f = String::new();
        push_decimal(&mut f, fps);
        args.push(f);
        args.push(owned("--video-bit-rate"));
        let mut b = String::new();
        push_decimal(&mut b, bit_rate);
        b.append("M");
        args.push(b);
        let ghost head = string_views(args@);
        assert(head =~= scrcpy_plan(
            target@,
            app@,
            (width as nat, height as nat),
            fps as nat,
            bit_rate as nat,
            Seq::empty(),
        ));
        for i in 0..config.raw_args.len()
            invariant
                string_views(args@) == head + string_views(config.raw_args@).take(i as int),
        {
            let a = owned(config.raw_args[i].as_str());
            let ghost prev = string_views(args@);
            args.push(a);
            assert(string_views(args@) =~= prev.push(a@));
            assert(string_views(config.raw_args@).take(i + 1) =~= string_views(config.raw_args@).take(
                i as int,
            ).push(config.raw_args@[i as int]@));
        }
        assert(string_views(config.raw_args@).take(config.raw_args.len() as int) =~= string_views(
            config.raw_args@,
        ));
        Ok(args)
    }

    /// The two addressing slots this backend needs: `<target> <app>`.
    pub fn session_slots(config: &ResolvedConfig) -> (r: Result<(String, String), AppError>)
        ensures
            match r {
                Ok((t, a)) => opt_view(config.target) == Some(t@) && opt_view(config.app) == Some(
                    a@,
                ),
                Err(e) => (config.target is None || config.app is None) && is_usage(e, adb_usage()),
            },
    {
        match (&config.target, &config.app) {
            (Some(t), Some(a)) => Ok((owned(t.as_str()), owned(a.as_str()))),
            _ => Err(AppError::Usage(owned("appcast run adb-scrcpy <target> <app>"))),
        }
    }

    /// The adb binary for listing, read from bare params: `adb_path`, else
    /// `adb` with the platform's executable suffix.
    pub fn listing_adb_bin(params: &StrMap, exe_suffix: &str) -> (r: String)
        ensures
            r@ == if params@.contains_key("adb_path"@) {
                params@["adb_path"@]
            } else {
                "adb"@ + exe_suffix@
            },
    {
        match params.get("adb_path") {
            Some(v) => owned(v.as_str()),
            None => {
                let mut r = owned("adb");
                r.append(exe_suffix);
                r
            },
        }
    }

    /// The version guard run at session start on `scrcpy --version`
    /// output: the reported major version, which must be at least
    /// `MIN_SCRCPY_MAJOR`.
    pub fn check_scrcpy_version(stdout: &str) -> (r: Result<u32, AppError>)
        ensures
            match scrcpy_major(stdout@) {
                None => r matches Err(e) && is_scrcpy_version_unknown(e, version_line(stdout@)),
                Some(m) => if m < MIN_SCRCPY_MAJOR {
                    r matches Err(e) && is_scrcpy_too_old(e, m, MIN_SCRCPY_MAJOR as nat)
                } else {
                    r matches Ok(n) && n == m
                },
            },
    {
        let ls = lines_of(stdout);
        let line: Vec<char> = if ls.len() > 0 {
            trim_chars(&chars_of(ls[0].as_str()))
        } else {
            Vec::new()
        };
        assert(line@ == version_line(stdout@));
        let prefix = chars_of("scrcpy ");
        if !starts_with_chars(&line, &prefix) {
            return Err(AppError::ScrcpyVersionUnknown(string_of(&line)));
        }
        proof {
            reveal_strlit("scrcpy ");
        }
        let rest = slice_chars(&line, prefix.len(), line.len());
        assert(rest@ == line@.skip(7));
        let mut end: usize = 0;
        proof {
            lemma_digits_end_bounds(rest@, 0);
        }
        while end < rest.len() && '0' <= rest[end] && rest[end] <= '9'
            invariant
                end <= rest.len(),
                digits_end(rest@, 0) == digits_end(rest@, end as int),
            decreases rest.len() - end,
        {
            end = end + 1;
        }
        let d = slice_chars(&rest, 0, end);
        assert(d@ == rest@.take(digits_end(rest@, 0)));
        match parse_u32(&d) {
            None => Err(AppError::ScrcpyVersionUnknown(string_of(&line))),
            Some(m) => {
                if m < MIN_SCRCPY_MAJOR {
                    Err(AppError::ScrcpyTooOld { found: m, required: MIN_SCRCPY_MAJOR })
                } else {
                    Ok(m)
                }
            },
        }
    }

    /// The argument list scrcpy is started with for a session: the
    /// `scrcpy_args` pipeline with `--display-ime-policy=local` added after
    /// the fixed flags and before the raw passthrough args, so that device
    /// input methods show inside the cast window (a later raw arg can still
    /// override it). Fails exactly as `scrcpy_args` does.
    pub fn session_args(config: &ResolvedConfig) -> (r: Result<Vec<String>, AppError>)
        ensures
            match r {
                Ok(args) => {
                    &&& config.target is Some
                    &&& config.app is Some
                    &&& resolution_of(config.params@) is Some
                    &&& numeric_param(config.params@, "fps"@, DEFAULT_FPS as nat) is Some
                    &&& numeric_param(config.params@, "bit_rate"@, DEFAULT_BIT_RATE_MBPS as nat) is Some
                    &&& string_views(args@) == scrcpy_plan(
                        opt_view(config.target).unwrap(),
                        opt_view(config.app).unwrap(),
                        resolution_of(config.params@).unwrap(),
                        numeric_param(config.params@, "fps"@, DEFAULT_FPS as nat).unwrap(),
                        numeric_param(config.params@, "bit_rate"@, DEFAULT_BIT_RATE_MBPS as nat).unwrap(),
                        seq!["--display-ime-policy=local"@] + string_views(config.raw_args@),
                    )
                },
                Err(e) => {
                    ||| (config.target is None || config.app is None) && is_usage(e, adb_usage())
                    ||| config.target is Some && config.app is Some && resolution_of(config.params@) is None
                        && is_invalid_resolution(e, config.params@["resolution"@])
                    ||| config.target is Some && config.app is Some && resolution_of(config.params@) is Some
                        && numeric_param(config.params@, "fps"@, DEFAULT_FPS as nat) is None
                        && is_invalid_param_value(e, "fps"@, config.params@["fps"@])
                    ||| config.target is Some && config.app is Some && resolution_of(config.params@) is Some
                        && numeric_param(config.params@, "fps"@, DEFAULT_FPS as nat) is Some
                        && numeric_param(config.params@, "bit_rate"@, DEFAULT_BIT_RATE_MBPS as nat) is None
                        && is_invalid_param_value(e, "bit_rate"@, config.params@["bit_rate"@])
                },
            },
    {
        let mut args = match Self::scrcpy_args(config) {
            Ok(a) => a,
            Err(e) => {
                return Err(e);
            },
        };
        let ghost before = string_views(args@);
        let ghost raw = string_views(config.raw_args@);
        assert(before.len() == 8 + raw.len());
        assert(args.len() >= 8);
        let ime = owned("--display-ime-policy=local");
        let ghost x = ime@;
        let ghost old_args = args@;
        args.insert(8, ime);
        assert(args@ == old_args.insert(8, ime));
        assert(string_views(args@) =~= before.take(8) + seq![x] + before.skip(8));
        assert(before.skip(8) =~= raw);
        Ok(args)
    }

    /// Whether the reachability probe (`adb -s <t> shell echo ok`) succeeded:
    /// a zero exit status and `ok` as the trimmed output.
    pub fn device_answered(success: bool, stdout: &str) -> (b: bool)
        ensures
            b == (success && trim(stdout@) == "ok"@),
    {
        if !success {
            return false;
        }
        let t = trim_chars(&chars_of(stdout));
        let ok = chars_of("ok");
        crate::text::chars_eq(&t, &ok)
    }

    /// The package ids listed by `pm list packages` output, sorted.
    pub fn packages_from_listing(stdout: &str) -> (r: Vec<String>)
        ensures
            sorted_asc(string_views(r@)),
            string_views(r@).to_multiset() == package_ids(lines(stdout@)).to_multiset(),
    {
        let ls = lines_of(stdout);
        let mut ids: Vec<String> = Vec::new();
        let prefix = chars_of("package:");
        for i in 0..ls.len()
            invariant
                prefix@ == "package:"@,
                string_views(ids@) == package_ids(string_views(ls@).take(i as int)),
        {
            let l = chars_of(ls[i].as_str());
            assert(string_views(ls@).take(i + 1).drop_last() == string_views(ls@).take(i as int));
            if starts_with_chars(&l, &prefix) {
                let rest = slice_chars(&l, prefix.len(), l.len());
                let id = string_of(&rest);
                ids.push(id);
                assert(string_views(ids@) =~= package_ids(string_views(ls@).take(i as int)).push(
                    l@.skip("package:"@.len() as int),
                ));
            }
        }
        assert(string_views(ls@).take(ls.len() as int) == string_views(ls@));
        sort_strings(&ids)
    }
}

/// Lines of `s` as `str::lines` yields them: split at `\n`, a `\r` before
/// the `\n` dropped, and no empty line after a final `\n`.
pub open spec fn lines(s: Seq<char>) -> Seq<Seq<char>>
    decreases s.len(),
{
    if s.len() == 0 {
        Seq::empty()
    } else {
        let i = find_from(s, '\n', 0);
        if i >= s.len() || i < 0 {
            seq![s]
        } else {
            let line = s.take(i);
            let line = if line.len() > 0 && line.last() == '\r' {
                line.drop_last()
            } else {
                line
            };
            seq![line] + lines(s.skip(i + 1))
        }
    }
}

/// The ids of the lines that start with `package:` (prefix removed).
pub open spec fn package_ids(ls: Seq<Seq<char>>) -> Seq<Seq<char>>
    decreases ls.len(),
{
    if ls.len() == 0 {
        Seq::empty()
    } else if starts_with(ls.last(), "package:"@) {
        package_ids(ls.drop_last()).push(ls.last().skip("package:"@.len() as int))
    } else {
        package_ids(ls.drop_last())
    }
}

/// Executable `lines`.
pub fn lines_of(s: &str) -> (r: Vec<String>)
    ensures
        string_views(r@) == lines(s@),
{
    let v = chars_of(s);
    let mut out: Vec<String> = Vec::new();
    let mut start: usize = 0;
    assert(v@.skip(0) =~= v@);
    assert(string_views(out@) + lines(v@) =~= lines(v@));
    while start < v.len()
        invariant
            start <= v.len(),
            lines(v@) == string_views(out@) + lines(v@.skip(start as int)),
        decreases v.len() - start,
    {
        let rest = slice_chars(&v, start, v.len());
        assert(rest@ == v@.skip(start as int));
        let i = find_char(&rest, '\n');
        proof {
            lemma_find_bounds(rest@, '\n', 0);
        }
        if i == rest.len() {
            let ghost prev = string_views(out@);
            out.push(string_of(&rest));
            assert(string_views(out@) =~= prev.push(rest@));
            assert(lines(rest@) == seq![rest@]);
            assert(prev + seq![rest@] =~= prev.push(rest@));
            start = v.len();
            assert(lines(v@.skip(start as int)) =~= Seq::<Seq<char>>::empty());
            assert(string_views(out@) + Seq::<Seq<char>>::empty() =~= string_views(out@));
            assert(v@.skip(start as int) =~= Seq::<char>::empty());
        } else {
            let mut end = i;
            if end > 0 && rest[end - 1] == '\r' {
                end = end - 1;
            }
            let line = slice_chars(&rest, 0, end);
            let ghost prev = string_views(out@);
            out.push(string_of(&line));
            assert(string_views(out@) =~= prev.push(line@));
            assert(rest@.skip(i + 1) =~= v@.skip(start + i + 1));
            assert(line@ == (if rest@.take(i as int).len() > 0 && rest@.take(i as int).last() == '\r' {
                rest@.take(i as int).drop_last()
            } else {
                rest@.take(i as int)
            }));
            assert(lines(rest@) == seq![line@] + lines(rest@.skip(i + 1)));
            assert(prev + (seq![line@] + lines(rest@.skip(i + 1))) =~= prev.push(line@) + lines(
                rest@.skip(i + 1),
            ));
            start = start + i + 1;
        }
    }
    assert(v@.skip(start as int) =~= Seq::<char>::empty());
    out
}

} // verus!
