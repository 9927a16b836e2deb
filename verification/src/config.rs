//! The resolved configuration, saved profiles, the CLI argument surface, and
//! the priority-stack merge that turns arguments plus a profile into one
//! `ResolvedConfig`.
//!
//! Priority (highest wins): positional slots > dedicated slot options
//! (`--transporter/--target/--app`) > `--param` (per key) > profile fields.

use vstd::prelude::*;

use crate::error::{is_invalid_param_format, is_usage, AppError};
use crate::strmap::{insert_all, StrMap};
use crate::text::{
    chars_of, copy_string, find_char, find_from, has_char, lemma_find_bounds, owned, slice_chars,
    string_of, string_views, lemma_string_views_push,
};

verus! {

// ---------------------------------------------------------------------------
// Views of plain values
// ---------------------------------------------------------------------------

/// The characters of an optional string.
pub open spec fn opt_view(o: Option<String>) -> Option<Seq<char>> {
    match o {
        Some(s) => Some(s@),
        None => None,
    }
}

/// The first present value among three layers, highest priority first.
pub open spec fn first_of(a: Option<Seq<char>>, b: Option<Seq<char>>, c: Option<Seq<char>>) -> Option<
    Seq<char>,
> {
    if a is Some {
        a
    } else if b is Some {
        b
    } else {
        c
    }
}

/// A fresh copy of an optional string.
pub fn copy_opt(o: &Option<String>) -> (r: Option<String>)
    ensures
        opt_view(r) == opt_view(*o),
{
    match o {
        Some(s) => Some(copy_string(s)),
        None => None,
    }
}

/// A fresh copy of a list of strings.
pub fn copy_strings(v: &Vec<String>) -> (r: Vec<String>)
    ensures
        string_views(r@) == string_views(v@),
{
    let mut r: Vec<String> = Vec::new();
    for i in 0..v.len()
        invariant
            string_views(r@) == string_views(v@).take(i as int),
    {
        let c = copy_string(&v[i]);
        proof {
            lemma_string_views_push(r@, c);
        }
        r.push(c);
        assert(string_views(v@).take(i + 1) =~= string_views(v@).take(i as int).push(v@[i as int]@));
    }
    assert(string_views(v@).take(v.len() as int) =~= string_views(v@));
    r
}

// ---------------------------------------------------------------------------
// Resolved configuration and profiles
// ---------------------------------------------------------------------------

/// The final, fully merged configuration: the only input shape the backends
/// accept. The addressing slots are optional because their arity is
/// backend-defined; each backend validates the slots it needs.
#[derive(Debug)]
pub struct ResolvedConfig {
    /// Registry name of the transporter, e.g. `"adb-scrcpy"`.
    pub transporter: String,
    /// Address slot ("where"): device serial, host, URL, ...
    pub target: Option<String>,
    /// Content slot ("what to open there"): package name, path, ...
    pub app: Option<String>,
    /// Free-form extension params; keys are backend-defined.
    pub params: StrMap,
    /// Raw args appended verbatim to the backend command (`-- ...`).
    pub raw_args: Vec<String>,
}

impl ResolvedConfig {
    /// Look up an extension param by key.
    pub fn param(&self, key: &str) -> (r: Option<&str>)
        ensures
            r is Some <==> self.params@.contains_key(key@),
            r matches Some(v) ==> v@ == self.params@[key@],
    {
        match self.params.get(key) {
            Some(v) => Some(v.as_str()),
            None => None,
        }
    }
}

/// A saved parameter bundle (stored as YAML by the CLI).
#[derive(Debug)]
pub struct Profile {
    /// Registry name of the transporter.
    pub transporter: String,
    /// Address slot.
    pub target: Option<String>,
    /// Content slot.
    pub app: Option<String>,
    /// Free-form extension params, overridable key by key via `--param`.
    pub params: StrMap,
    /// Passthrough args; CLI passthrough is appended after them.
    pub raw_args: Vec<String>,
}

impl Profile {
    /// A resolved configuration frozen as a profile: every field carries over.
    pub fn from_resolved(config: ResolvedConfig) -> (p: Profile)
        ensures
            p.transporter@ == config.transporter@,
            opt_view(p.target) == opt_view(config.target),
            opt_view(p.app) == opt_view(config.app),
            p.params@ == config.params@,
            string_views(p.raw_args@) == string_views(config.raw_args@),
    {
        Profile {
            transporter: config.transporter,
            target: config.target,
            app: config.app,
            params: config.params,
            raw_args: config.raw_args,
        }
    }
}

// ---------------------------------------------------------------------------
// Command-line surface (the CLI front end derives its parser on a copy)
// ---------------------------------------------------------------------------

/// Top-level `appcast` command.
#[derive(Debug)]
pub struct Cli {
    pub command: Command,
}

/// All subcommands.
#[derive(Debug)]
pub enum Command {
    /// Cast an app to this desktop now.
    Run(RunArgs),
    /// Manage saved profiles (save/list/edit/rm).
    Profile { action: ProfileAction },
    /// List apps available on a target.
    List(ListArgs),
    /// Print the fully merged command line without executing anything.
    Snapshot(RunArgs),
    /// List installed transporters.
    Transporters,
}

/// Shared argument surface of `run` and `snapshot`.
#[derive(Debug)]
pub struct RunArgs {
    /// Positional transporter (priority 1).
    pub positional_transporter: Option<String>,
    /// Positional target (priority 1).
    pub positional_target: Option<String>,
    /// Positional app (priority 1).
    pub positional_app: Option<String>,
    /// `--transporter` (priority 2).
    pub transporter: Option<String>,
    /// `--target` (priority 2).
    pub target: Option<String>,
    /// `--app` (priority 2).
    pub app: Option<String>,
    /// `--log-level`.
    pub log_level: Option<String>,
    /// `--param KEY=VALUE`, repeatable (priority 3).
    pub extra_params: Vec<String>,
    /// `--profile NAME` (priority 4/5 source).
    pub profile: Option<String>,
    /// Raw args after `--`, appended to the profile's `raw_args`.
    pub raw_args: Vec<String>,
    /// Ignore the profile's raw args.
    pub clear_raw: bool,
}

impl Default for RunArgs {
    fn default() -> (r: Self)
        ensures
            r.positional_transporter is None,
            r.positional_target is None,
            r.positional_app is None,
            r.transporter is None,
            r.target is None,
            r.app is None,
            r.log_level is None,
            r.extra_params@.len() == 0,
            r.profile is None,
            r.raw_args@.len() == 0,
            !r.clear_raw,
    {
        RunArgs {
            positional_transporter: None,
            positional_target: None,
            positional_app: None,
            transporter: None,
            target: None,
            app: None,
            log_level: None,
            extra_params: Vec::new(),
            profile: None,
            raw_args: Vec::new(),
            clear_raw: false,
        }
    }
}

/// Arguments of `appcast list`: `<TRANSPORTER> [<TARGET>]`.
#[derive(Debug)]
pub struct ListArgs {
    pub positional_transporter: Option<String>,
    pub positional_target: Option<String>,
    pub transporter: Option<String>,
    pub target: Option<String>,
    pub profile: Option<String>,
    pub long: bool,
    pub json: bool,
}

/// Subcommands of `appcast profile`.
#[derive(Debug)]
pub enum ProfileAction {
    /// Save arguments as a profile (overwrites an existing one).
    Save {
        name: String,
        transporter: Option<String>,
        target: Option<String>,
        app: Option<String>,
        transporter_flag: Option<String>,
        target_flag: Option<String>,
        app_flag: Option<String>,
        extra_params: Vec<String>,
        raw_args: Vec<String>,
        clear_raw: bool,
        base_profile: Option<String>,
    },
    /// List saved profiles.
    List { json: bool },
    /// Open the profile YAML in an editor.
    Edit { name: String },
    /// Delete a profile.
    Rm { name: String },
}

/// The log filter directive: `RUST_LOG` when set, else `--log-level`, else
/// `info`.
pub fn log_directive(rust_log: Option<String>, level_override: Option<&str>) -> (r: String)
    ensures
        r@ == match rust_log {
            Some(d) => d@,
            None => match level_override {
                Some(l) => l@,
                None => "info"@,
            },
        },
{
    match rust_log {
        Some(d) => d,
        None => match level_override {
            Some(l) => owned(l),
            None => owned("info"),
        },
    }
}

/// Whether `tracing_subscriber::EnvFilter::try_new` accepts a directive
/// string.
pub uninterp spec fn env_filter_accepts(directive: Seq<char>) -> bool;

/// `EnvFilter::try_new(directive).is_ok()`: whether the filter parses; a
/// function of the directive string alone.
#[verifier::external_body]
fn filter_parses(directive: &str) -> (b: bool)
    ensures
        b == env_filter_accepts(directive@),
{
    tracing_subscriber::EnvFilter::try_new(directive).is_ok()
}

/// The directive the log filters are built from: the requested one when it
/// parses, else `info`.
pub fn effective_directive(directive: &str) -> (r: String)
    ensures
        r@ == if env_filter_accepts(directive@) {
            directive@
        } else {
            "info"@
        },
{
    if filter_parses(directive) {
        owned(directive)
    } else {
        owned("info")
    }
}

// ---------------------------------------------------------------------------
// The priority-stack merge
// ---------------------------------------------------------------------------

/// `KEY=VALUE` split at the first `=`.
pub open spec fn kv_pair(kv: Seq<char>) -> (Seq<char>, Seq<char>) {
    let i = find_from(kv, '=', 0);
    (kv.take(i), kv.skip(i + 1))
}

/// Index of the first `--param` without `=`, at or after `i`
/// (the length when every one is well formed).
pub open spec fn first_malformed(kvs: Seq<Seq<char>>, i: int) -> int
    decreases kvs.len() - i,
{
    if i >= kvs.len() || i < 0 || !has_char(kvs[i], '=') {
        i
    } else {
        first_malformed(kvs, i + 1)
    }
}

/// The params after applying every `--param` over the profile's params.
pub open spec fn overridden_params(base: Map<Seq<char>, Seq<char>>, kvs: Seq<Seq<char>>) -> Map<
    Seq<char>,
    Seq<char>,
> {
    insert_all(base, kvs.map_values(|kv: Seq<char>| kv_pair(kv)))
}

/// The profile's transporter, if a profile is given.
pub open spec fn profile_transporter(p: Option<Profile>) -> Option<Seq<char>> {
    match p {
        Some(p) => Some(p.transporter@),
        None => None,
    }
}

/// The profile's target, if any.
pub open spec fn profile_target(p: Option<Profile>) -> Option<Seq<char>> {
    match p {
        Some(p) => opt_view(p.target),
        None => None,
    }
}

/// The profile's app, if any.
pub open spec fn profile_app(p: Option<Profile>) -> Option<Seq<char>> {
    match p {
        Some(p) => opt_view(p.app),
        None => None,
    }
}

/// The profile's params (empty without a profile).
pub open spec fn profile_params(p: Option<Profile>) -> Map<Seq<char>, Seq<char>> {
    match p {
        Some(p) => p.params@,
        None => Map::empty(),
    }
}

/// The profile's raw args (none without a profile).
pub open spec fn profile_raw(p: Option<Profile>) -> Seq<Seq<char>> {
    match p {
        Some(p) => string_views(p.raw_args@),
        None => Seq::empty(),
    }
}

/// The transporter chosen by the stack.
pub open spec fn chosen_transporter(args: RunArgs, p: Option<Profile>) -> Option<Seq<char>> {
    first_of(opt_view(args.positional_transporter), opt_view(args.transporter), profile_transporter(p))
}

/// The raw args of the merge: profile base (unless cleared), then the CLI's.
pub open spec fn merged_raw(args: RunArgs, p: Option<Profile>) -> Seq<Seq<char>> {
    (if args.clear_raw {
        Seq::empty()
    } else {
        profile_raw(p)
    }) + string_views(args.raw_args@)
}

/// Splits `KEY=VALUE` at the first `=`, or `None` when there is no `=`.
pub fn split_param(kv: &String) -> (r: Option<(String, String)>)
    ensures
        r is Some <==> has_char(kv@, '='),
        r matches Some(p) ==> (p.0@, p.1@) == kv_pair(kv@),
{
    let v = chars_of(kv.as_str());
    let i = find_char(&v, '=');
    proof {
        lemma_find_bounds(v@, '=', 0);
    }
    if i == v.len() {
        return None;
    }
    let key = slice_chars(&v, 0, i);
    let value = slice_chars(&v, i + 1, v.len());
    assert(key@ == v@.take(i as int));
    assert(value@ == v@.skip(i + 1));
    Some((string_of(&key), string_of(&value)))
}

/// Priority-stack merge (highest first): positional slots, dedicated slot
/// options, `--param` overrides (per key), profile fields. The addressing
/// slots are not arity-checked here; only a missing transporter and a
/// malformed `--param` are refused.
pub fn merge_config(args: &RunArgs, profile: Option<Profile>) -> (r: Result<ResolvedConfig, AppError>)
    ensures
        ({
            let kvs = string_views(args.extra_params@);
            let t = chosen_transporter(*args, profile);
            match r {
                Ok(c) => {
                    &&& t == Some(c.transporter@)
                    &&& first_malformed(kvs, 0) == kvs.len()
                    &&& opt_view(c.target) == first_of(
                        opt_view(args.positional_target),
                        opt_view(args.target),
                        profile_target(profile),
                    )
                    &&& opt_view(c.app) == first_of(
                        opt_view(args.positional_app),
                        opt_view(args.app),
                        profile_app(profile),
                    )
                    &&& c.params@ == overridden_params(profile_params(profile), kvs)
                    &&& string_views(c.raw_args@) == merged_raw(*args, profile)
                },
                Err(e) => {
                    ||| t is None && e is MissingTransporter
                    ||| t is Some && first_malformed(kvs, 0) < kvs.len()
                        && is_invalid_param_format(e, kvs[first_malformed(kvs, 0)])
                },
            }
        }),
{
    let ghost prof = profile;
    let (p_transporter, p_target, p_app, mut params, p_raw_args) = match profile {
        Some(p) => (Some(p.transporter), p.target, p.app, p.params, p.raw_args),
        None => (None, None, None, StrMap::new(), Vec::new()),
    };

    let transporter = match copy_opt(&args.positional_transporter) {
        Some(t) => t,
        None => match copy_opt(&args.transporter) {
            Some(t) => t,
            None => match p_transporter {
                Some(t) => t,
                None => {
                    return Err(AppError::MissingTransporter);
                },
            },
        },
    };

    let target = match copy_opt(&args.positional_target) {
        Some(t) => Some(t),
        None => match copy_opt(&args.target) {
            Some(t) => Some(t),
            None => p_target,
        },
    };

    let app = match copy_opt(&args.positional_app) {
        Some(a) => Some(a),
        None => match copy_opt(&args.app) {
            Some(a) => Some(a),
            None => p_app,
        },
    };

    let ghost kvs = string_views(args.extra_params@);
    let ghost pairs = kvs.map_values(|kv: Seq<char>| kv_pair(kv));
    let ghost base = params@;
    for i in 0..args.extra_params.len()
        invariant
            kvs == string_views(args.extra_params@),
            pairs == kvs.map_values(|kv: Seq<char>| kv_pair(kv)),
            params@ == insert_all(base, pairs.take(i as int)),
            first_malformed(kvs, 0) == first_malformed(kvs, i as int),
            chosen_transporter(*args, prof) is Some,
            prof == profile,
    {
        let kv = &args.extra_params[i];
        match split_param(kv) {
            Some((key, value)) => {
                params.insert(key, value);
                assert(pairs.take(i + 1).drop_last() == pairs.take(i as int));
            },
            None => {
                assert(kvs[i as int] == kv@);
                assert(first_malformed(kvs, i as int) == i);
                return Err(AppError::InvalidParamFormat(copy_string(kv)));
            },
        }
    }
    assert(pairs.take(args.extra_params.len() as int) == pairs);

    let mut raw_args: Vec<String> = Vec::new();
    if !args.clear_raw {
        let mut base_raw = p_raw_args;
        raw_args.append(&mut base_raw);
    }
    let ghost before = string_views(raw_args@);
    for i in 0..args.raw_args.len()
        invariant
            string_views(raw_args@) == before + string_views(args.raw_args@).take(i as int),
    {
        let c = copy_string(&args.raw_args[i]);
        proof {
            lemma_string_views_push(raw_args@, c);
        }
        raw_args.push(c);
        assert(string_views(args.raw_args@).take(i + 1) =~= string_views(args.raw_args@).take(i as int).push(
            args.raw_args@[i as int]@,
        ));
    }
    assert(string_views(args.raw_args@).take(args.raw_args.len() as int) =~= string_views(args.raw_args@));
    assert(string_views(raw_args@) =~= merged_raw(*args, prof));

    Ok(ResolvedConfig { transporter, target, app, params, raw_args })
}

// ---------------------------------------------------------------------------
// `list` and `profile save`: the same stack, other slot sources
// ---------------------------------------------------------------------------

/// What `appcast list` needs after slot resolution.
#[derive(Debug)]
pub struct ListRequest {
    pub transporter: String,
    pub target: String,
    pub params: StrMap,
}

/// Usage line of `appcast list`.
pub open spec fn list_usage() -> Seq<char> {
    "appcast list <TRANSPORTER> <TARGET>"@
}

/// Usage line of `appcast profile save`.
pub open spec fn save_usage() -> Seq<char> {
    "appcast profile save <NAME> [TRANSPORTER] [TARGET] [APP] [--profile BASE]"@
}

/// Slot resolution of `appcast list`: each flag (`--transporter`,
/// `--target`) wins over its positional twin, and the profile fills what
/// neither gives; both slots are required here.
pub fn list_request(args: &ListArgs, profile: Option<Profile>) -> (r: Result<ListRequest, AppError>)
    ensures
        ({
            let t = first_of(
                opt_view(args.transporter),
                opt_view(args.positional_transporter),
                profile_transporter(profile),
            );
            let g = first_of(
                opt_view(args.target),
                opt_view(args.positional_target),
                profile_target(profile),
            );
            match r {
                Ok(q) => t == Some(q.transporter@) && g == Some(q.target@) && q.params@
                    == profile_params(profile),
                Err(e) => (t is None || g is None) && is_usage(e, list_usage()),
            }
        }),
{
    let (p_transporter, p_target, params) = match profile {
        Some(p) => (Some(p.transporter), p.target, p.params),
        None => (None, None, StrMap::new()),
    };
    let transporter = match copy_opt(&args.transporter) {
        Some(t) => t,
        None => match copy_opt(&args.positional_transporter) {
            Some(t) => t,
            None => match p_transporter {
                Some(t) => t,
                None => {
                    return Err(AppError::Usage(owned("appcast list <TRANSPORTER> <TARGET>")));
                },
            },
        },
    };
    let target = match copy_opt(&args.target) {
        Some(t) => t,
        None => match copy_opt(&args.positional_target) {
            Some(t) => t,
            None => match p_target {
                Some(t) => t,
                None => {
                    return Err(AppError::Usage(owned("appcast list <TRANSPORTER> <TARGET>")));
                },
            },
        },
    };
    Ok(ListRequest { transporter, target, params })
}

/// The run-like arguments `profile save` merges with: each slot option
/// (`--transporter/--target/--app`) wins over its positional twin.
pub open spec fn save_args_spec(action: ProfileAction, args: RunArgs) -> bool {
    match action {
        ProfileAction::Save {
            transporter,
            target,
            app,
            transporter_flag,
            target_flag,
            app_flag,
            extra_params,
            raw_args,
            clear_raw,
            ..
        } => {
            &&& opt_view(args.positional_transporter) == first_of(
                opt_view(transporter_flag),
                opt_view(transporter),
                None,
            )
            &&& opt_view(args.positional_target) == first_of(
                opt_view(target_flag),
                opt_view(target),
                None,
            )
            &&& opt_view(args.positional_app) == first_of(opt_view(app_flag), opt_view(app), None)
            &&& args.transporter is None && args.target is None && args.app is None
            &&& string_views(args.extra_params@) == string_views(extra_params@)
            &&& string_views(args.raw_args@) == string_views(raw_args@)
            &&& args.clear_raw == clear_raw
        },
        _ => false,
    }
}

fn flag_or_positional(flag: &Option<String>, positional: &Option<String>) -> (r: Option<String>)
    ensures
        opt_view(r) == first_of(opt_view(*flag), opt_view(*positional), None),
{
    match copy_opt(flag) {
        Some(f) => Some(f),
        None => copy_opt(positional),
    }
}

/// The profile that `appcast profile save` writes: the save arguments
/// merged over the optional base profile by `merge_config`; a missing
/// transporter is reported with the save usage line.
pub fn profile_to_save(action: &ProfileAction, base: Option<Profile>) -> (r: Result<
    Profile,
    AppError,
>)
    requires
        action is Save,
    ensures
        exists|args: RunArgs|
            {
                &&& #[trigger] save_args_spec(*action, args)
                &&& {
                    let kvs = string_views(args.extra_params@);
                    let t = chosen_transporter(args, base);
                    match r {
                        Ok(p) => {
                            &&& t == Some(p.transporter@)
                            &&& first_malformed(kvs, 0) == kvs.len()
                            &&& opt_view(p.target) == first_of(
                                opt_view(args.positional_target),
                                None,
                                profile_target(base),
                            )
                            &&& opt_view(p.app) == first_of(
                                opt_view(args.positional_app),
                                None,
                                profile_app(base),
                            )
                            &&& p.params@ == overridden_params(profile_params(base), kvs)
                            &&& string_views(p.raw_args@) == merged_raw(args, base)
                        },
                        Err(e) => {
                            ||| t is None && is_usage(e, save_usage())
                            ||| t is Some && first_malformed(kvs, 0) < kvs.len()
                                && is_invalid_param_format(e, kvs[first_malformed(kvs, 0)])
                        },
                    }
                }
            },
{
    match action {
        ProfileAction::Save {
            transporter,
            target,
            app,
            transporter_flag,
            target_flag,
            app_flag,
            extra_params,
            raw_args,
            clear_raw,
            ..
        } => {
            let run_like = RunArgs {
                positional_transporter: flag_or_positional(transporter_flag, transporter),
                positional_target: flag_or_positional(target_flag, target),
                positional_app: flag_or_positional(app_flag, app),
                transporter: None,
                target: None,
                app: None,
                log_level: None,
                extra_params: copy_strings(extra_params),
                profile: None,
                raw_args: copy_strings(raw_args),
                clear_raw: *clear_raw,
            };
            assert(save_args_spec(*action, run_like));
            match merge_config(&run_like, base) {
                Ok(config) => Ok(Profile::from_resolved(config)),
                Err(AppError::MissingTransporter) => Err(
                    AppError::Usage(
                        owned(
                            "appcast profile save <NAME> [TRANSPORTER] [TARGET] [APP] [--profile BASE]",
                        ),
                    ),
                ),
                Err(other) => Err(other),
            }
        },
        _ => {
            proof {
                assert(false);
            }
            Err(AppError::MissingTransporter)
        },
    }
}

// ---------------------------------------------------------------------------
// Laws of the merge
// ---------------------------------------------------------------------------

/// Index of the last `--param` whose key is `k` (-1 when none sets `k`).
pub open spec fn last_setting(kvs: Seq<Seq<char>>, k: Seq<char>) -> int
    decreases kvs.len(),
{
    if kvs.len() == 0 {
        -1
    } else if kv_pair(kvs.last()).0 == k {
        kvs.len() - 1
    } else {
        last_setting(kvs.drop_last(), k)
    }
}

proof fn lemma_last_setting_bounds(kvs: Seq<Seq<char>>, k: Seq<char>)
    ensures
        -1 <= last_setting(kvs, k) < kvs.len(),
        last_setting(kvs, k) >= 0 ==> kv_pair(kvs[last_setting(kvs, k)]).0 == k,
    decreases kvs.len(),
{
    if kvs.len() > 0 && kv_pair(kvs.last()).0 != k {
        lemma_last_setting_bounds(kvs.drop_last(), k);
    }
}

/// Per-key override: a key named by some `--param` ends up with the value
/// of the last `--param` naming it; every other key keeps exactly what the
/// profile had (present with the same value, or absent).
pub proof fn law_param_override(base: Map<Seq<char>, Seq<char>>, kvs: Seq<Seq<char>>, k: Seq<char>)
    ensures
        last_setting(kvs, k) >= 0 ==> overridden_params(base, kvs).contains_key(k)
            && overridden_params(base, kvs)[k] == kv_pair(kvs[last_setting(kvs, k)]).1,
        last_setting(kvs, k) < 0 ==> (overridden_params(base, kvs).contains_key(k)
            <==> base.contains_key(k)),
        last_setting(kvs, k) < 0 && base.contains_key(k) ==> overridden_params(base, kvs)[k]
            == base[k],
    decreases kvs.len(),
{
    lemma_last_setting_bounds(kvs, k);
    let f = |kv: Seq<char>| kv_pair(kv);
    if kvs.len() > 0 {
        assert(kvs.map_values(f).drop_last() =~= kvs.drop_last().map_values(f));
        assert(kvs.map_values(f).last() == kv_pair(kvs.last()));
        law_param_override(base, kvs.drop_last(), k);
    }
}

/// Arguments that set nothing: no slot, no `--param`, no raw args, no
/// `--clear-raw` (what `run --profile NAME` alone passes).
pub open spec fn bare_args(args: RunArgs) -> bool {
    &&& args.positional_transporter is None
    &&& args.positional_target is None
    &&& args.positional_app is None
    &&& args.transporter is None
    &&& args.target is None
    &&& args.app is None
    &&& args.extra_params@.len() == 0
    &&& args.raw_args@.len() == 0
    &&& !args.clear_raw
}

/// A saved profile reproduces the configuration it froze: merged with
/// arguments that set nothing, every field of the result is the profile's
/// own (and no `--param` can be malformed).
pub proof fn law_bare_run_reproduces_profile(args: RunArgs, p: Profile)
    requires
        bare_args(args),
    ensures
        chosen_transporter(args, Some(p)) == Some(p.transporter@),
        first_malformed(string_views(args.extra_params@), 0) == string_views(
            args.extra_params@,
        ).len(),
        first_of(opt_view(args.positional_target), opt_view(args.target), profile_target(Some(p)))
            == opt_view(p.target),
        first_of(opt_view(args.positional_app), opt_view(args.app), profile_app(Some(p)))
            == opt_view(p.app),
        overridden_params(profile_params(Some(p)), string_views(args.extra_params@)) == p.params@,
        merged_raw(args, Some(p)) == string_views(p.raw_args@),
{
    let kvs = string_views(args.extra_params@);
    assert(kvs.len() == 0);
    assert(kvs.map_values(|kv: Seq<char>| kv_pair(kv)).len() == 0);
    assert(string_views(args.raw_args@) =~= Seq::<Seq<char>>::empty());
    assert(merged_raw(args, Some(p)) =~= string_views(p.raw_args@));
}

} // verus!
