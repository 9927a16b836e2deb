//! The application error type and its user-facing messages.

use vstd::prelude::*;

use crate::text::{owned, push_decimal, decimal};

verus! {

/// `std::io::Error`, carried opaquely.
#[verifier::external_type_specification]
#[verifier::external_body]
pub struct ExIoError(std::io::Error);

/// `serde_yaml::Error`, carried opaquely.
#[verifier::external_type_specification]
#[verifier::external_body]
pub struct ExYamlError(serde_yaml::Error);

/// Every recoverable failure the CLI can surface to the user.
#[derive(Debug)]
pub enum AppError {
    /// No transporter in any layer of the priority stack.
    MissingTransporter,
    /// Authored by the backend that misses an addressing slot.
    Usage(String),
    /// The installed scrcpy lacks virtual-display support.
    ScrcpyTooOld { found: u32, required: u32 },
    /// `scrcpy --version` gave nothing readable.
    ScrcpyVersionUnknown(String),
    /// A transporter name the registry does not know.
    UnknownTransporter { name: String, available: String },
    /// The adb target did not answer.
    DeviceNotFound(String),
    /// The app slot is not an Android package name.
    InvalidAppIdentifier(String),
    /// scrcpy could not be started.
    ScrcpySpawnFailed(String),
    /// The address slot of the web backend is not an http(s) URL.
    InvalidUrl(String),
    /// No candidate browser is installed.
    NoBrowserFound { tried: String },
    /// The browser binary could not be started.
    BrowserLaunchFailed(String),
    /// No saved profile with this name.
    ProfileNotFound(String),
    /// A size param is not `<W>x<H>`.
    InvalidResolutionFormat(String),
    /// A `--param` without `=`.
    InvalidParamFormat(String),
    /// A param value the backend cannot interpret.
    InvalidParamValue { key: String, value: String },
    /// Any other backend failure.
    BackendError(String),
    /// A placeholder backend.
    NotImplemented(String),
    /// File-system failure.
    Io(std::io::Error),
    /// Malformed profile YAML.
    Yaml(serde_yaml::Error),
}

/// Error kinds that signal a usage (syntax) problem rather than a runtime
/// failure; the CLI follows them with its help text.
pub open spec fn spec_is_syntax_error(e: AppError) -> bool {
    e is Usage || e is UnknownTransporter
}

/// `e` is `Usage` with the given usage line.
pub open spec fn is_usage(e: AppError, usage: Seq<char>) -> bool {
    match e {
        AppError::Usage(u) => u@ == usage,
        _ => false,
    }
}

/// `e` is `InvalidParamFormat` naming the given `--param`.
pub open spec fn is_invalid_param_format(e: AppError, kv: Seq<char>) -> bool {
    match e {
        AppError::InvalidParamFormat(s) => s@ == kv,
        _ => false,
    }
}

/// `e` is `InvalidResolutionFormat` quoting `value`.
pub open spec fn is_invalid_resolution(e: AppError, value: Seq<char>) -> bool {
    match e {
        AppError::InvalidResolutionFormat(s) => s@ == value,
        _ => false,
    }
}

/// `e` is `InvalidParamValue` for `key` with `value`.
pub open spec fn is_invalid_param_value(e: AppError, key: Seq<char>, value: Seq<char>) -> bool {
    match e {
        AppError::InvalidParamValue { key: k, value: v } => k@ == key && v@ == value,
        _ => false,
    }
}

/// `e` is `InvalidUrl` quoting `url`.
pub open spec fn is_invalid_url(e: AppError, url: Seq<char>) -> bool {
    match e {
        AppError::InvalidUrl(s) => s@ == url,
        _ => false,
    }
}

/// `e` is `InvalidAppIdentifier` quoting `app`.
pub open spec fn is_invalid_app(e: AppError, app: Seq<char>) -> bool {
    match e {
        AppError::InvalidAppIdentifier(s) => s@ == app,
        _ => false,
    }
}

/// `e` is `BackendError` with `message`.
pub open spec fn is_backend_error(e: AppError, message: Seq<char>) -> bool {
    match e {
        AppError::BackendError(s) => s@ == message,
        _ => false,
    }
}

/// `e` is `ScrcpyTooOld` with the found and required major versions.
pub open spec fn is_scrcpy_too_old(e: AppError, found: nat, required: nat) -> bool {
    match e {
        AppError::ScrcpyTooOld { found: f, required: r } => f == found && r == required,
        _ => false,
    }
}

/// `e` is `ScrcpyVersionUnknown` quoting `output`.
pub open spec fn is_scrcpy_version_unknown(e: AppError, output: Seq<char>) -> bool {
    match e {
        AppError::ScrcpyVersionUnknown(s) => s@ == output,
        _ => false,
    }
}

/// `e` is `UnknownTransporter` for `name`, listing `available`.
pub open spec fn is_unknown_transporter(e: AppError, name: Seq<char>, available: Seq<char>) -> bool {
    match e {
        AppError::UnknownTransporter { name: n, available: a } => n@ == name && a@ == available,
        _ => false,
    }
}

/// `e` is `NoBrowserFound` listing `tried`.
pub open spec fn is_no_browser(e: AppError, tried: Seq<char>) -> bool {
    match e {
        AppError::NoBrowserFound { tried: t } => t@ == tried,
        _ => false,
    }
}

/// `e` is `NotImplemented` naming `what`.
pub open spec fn is_not_implemented(e: AppError, what: Seq<char>) -> bool {
    match e {
        AppError::NotImplemented(s) => s@ == what,
        _ => false,
    }
}

/// The rendered message of every error that carries only plain values.
pub open spec fn spec_message(e: AppError) -> Seq<char> {
    match e {
        AppError::MissingTransporter => "missing transporter: pass it positionally (`appcast run adb-scrcpy <target> <app>`), or via --transporter / --profile"@,
        AppError::Usage(s) => "usage: "@ + s@,
        AppError::ScrcpyTooOld { found, required } => "scrcpy >= "@ + decimal(required as nat)
            + " required for virtual-display support (found "@ + decimal(found as nat)
            + "); please upgrade scrcpy"@,
        AppError::ScrcpyVersionUnknown(s) => "cannot determine scrcpy version: "@ + s@,
        AppError::UnknownTransporter { name, available } => "unknown transporter `"@ + name@
            + "` (built-in: "@ + available@ + ")"@,
        AppError::DeviceNotFound(s) => "device not found or unreachable: "@ + s@,
        AppError::InvalidAppIdentifier(s) => "invalid app identifier `"@ + s@
            + "`: for the adb-scrcpy backend this must be an Android package name such as `com.example.app`, not a path"@,
        AppError::ScrcpySpawnFailed(s) => "failed to spawn scrcpy: "@ + s@
            + " (is scrcpy installed and on PATH?)"@,
        AppError::InvalidUrl(s) => "invalid URL `"@ + s@
            + "`: the web-browser backend expects an http(s) URL such as `https://example.com`"@,
        AppError::NoBrowserFound { tried } => "no supported browser found (tried: "@ + tried@
            + "); install one, or point at yours via --param browser_path=<path>"@,
        AppError::BrowserLaunchFailed(s) => "failed to launch browser `"@ + s@
            + "` (is browser_path correct?)"@,
        AppError::ProfileNotFound(s) => "profile `"@ + s@
            + "` not found under ~/.config/appcast/profiles/"@,
        AppError::InvalidResolutionFormat(s) => "invalid resolution `"@ + s@
            + "`: expected `<W>x<H>`, e.g. `1920x1080`"@,
        AppError::InvalidParamFormat(s) => "invalid --param `"@ + s@ + "`: expected KEY=VALUE"@,
        AppError::InvalidParamValue { key, value } => "invalid value for param `"@ + key@
            + "`: `"@ + value@ + "`"@,
        AppError::BackendError(s) => "backend error: "@ + s@,
        AppError::NotImplemented(s) => "`"@ + s@ + "` is not implemented yet"@,
        AppError::Io(_) => Seq::empty(),
        AppError::Yaml(_) => Seq::empty(),
    }
}

/// `Display` of a `std::io::Error` (`to_string`).
#[verifier::external_body]
fn io_error_text(e: &std::io::Error) -> String {
    e.to_string()
}

/// `Display` of a `serde_yaml::Error` (`to_string`).
#[verifier::external_body]
fn yaml_error_text(e: &serde_yaml::Error) -> String {
    e.to_string()
}

/// `std::io::Error::other` with a message.
#[verifier::external_body]
pub(crate) fn io_error_other(message: String) -> std::io::Error {
    std::io::Error::other(message)
}

fn three(a: &str, b: &String, c: &str) -> (r: String)
    ensures
        r@ == a@ + b@ + c@,
{
    let mut r = owned(a);
    r.append(b.as_str());
    r.append(c);
    r
}

fn five(a: &str, b: &String, c: &str, d: &String, e: &str) -> (r: String)
    ensures
        r@ == a@ + b@ + c@ + d@ + e@,
{
    let mut r = three(a, b, c);
    r.append(d.as_str());
    r.append(e);
    r
}

impl AppError {
    /// Whether this error kind is a usage/syntax signal (unknown
    /// transporter, missing addressing slots) rather than a runtime failure.
    pub fn is_syntax_error(&self) -> (b: bool)
        ensures
            b == spec_is_syntax_error(*self),
    {
        match self {
            AppError::Usage(_) => true,
            AppError::UnknownTransporter { .. } => true,
            _ => false,
        }
    }

    /// The user-facing message (what `Display` prints). File-system and YAML
    /// errors render through their own `Display`.
    pub fn message(&self) -> (r: String)
        ensures
            !(self is Io || self is Yaml) ==> r@ == spec_message(*self),
    {
        match self {
            AppError::MissingTransporter => owned(
                "missing transporter: pass it positionally (`appcast run adb-scrcpy <target> <app>`), or via --transporter / --profile",
            ),
            AppError::Usage(s) => {
                let mut r = owned("usage: ");
                r.append(s.as_str());
                r
            },
            AppError::ScrcpyTooOld { found, required } => {
                let mut r = owned("scrcpy >= ");
                push_decimal(&mut r, *required);
                r.append(" required for virtual-display support (found ");
                push_decimal(&mut r, *found);
                r.append("); please upgrade scrcpy");
                r
            },
            AppError::ScrcpyVersionUnknown(s) => {
                let mut r = owned("cannot determine scrcpy version: ");
                r.append(s.as_str());
                r
            },
            AppError::UnknownTransporter { name, available } => five(
                "unknown transporter `",
                name,
                "` (built-in: ",
                available,
                ")",
            ),
            AppError::DeviceNotFound(s) => {
                let mut r = owned("device not found or unreachable: ");
                r.append(s.as_str());
                r
            },
            AppError::InvalidAppIdentifier(s) => three(
                "invalid app identifier `",
                s,
                "`: for the adb-scrcpy backend this must be an Android package name such as `com.example.app`, not a path",
            ),
            AppError::ScrcpySpawnFailed(s) => three(
                "failed to spawn scrcpy: ",
                s,
                " (is scrcpy installed and on PATH?)",
            ),
            AppError::InvalidUrl(s) => three(
                "invalid URL `",
                s,
                "`: the web-browser backend expects an http(s) URL such as `https://example.com`",
            ),
            AppError::NoBrowserFound { tried } => three(
                "no supported browser found (tried: ",
                tried,
                "); install one, or point at yours via --param browser_path=<path>",
            ),
            AppError::BrowserLaunchFailed(s) => three(
                "failed to launch browser `",
                s,
                "` (is browser_path correct?)",
            ),
            AppError::ProfileNotFound(s) => three(
                "profile `",
                s,
                "` not found under ~/.config/appcast/profiles/",
            ),
            AppError::InvalidResolutionFormat(s) => three(
                "invalid resolution `",
                s,
                "`: expected `<W>x<H>`, e.g. `1920x1080`",
            ),
            AppError::InvalidParamFormat(s) => three(
                "invalid --param `",
                s,
                "`: expected KEY=VALUE",
            ),
            AppError::InvalidParamValue { key, value } => five(
                "invalid value for param `",
                key,
                "`: `",
                value,
                "`",
            ),
            AppError::BackendError(s) => {
                let mut r = owned("backend error: ");
                r.append(s.as_str());
                r
            },
            AppError::NotImplemented(s) => three("`", s, "` is not implemented yet"),
            AppError::Io(e) => io_error_text(e),
            AppError::Yaml(e) => yaml_error_text(e),
        }
    }
}

} // verus!
