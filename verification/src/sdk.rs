//! Plugin authoring kit: the configuration a plugin receives, the entries
//! it lists, and the blocking trait a plugin implements. Plugins talk to
//! the host through a C ABI with JSON payloads; the export glue lives with
//! the CLI.

use vstd::prelude::*;

use crate::adb::{collect_unknown, str_views, unknown_keys};
use crate::browser::is_web_url;
use crate::strmap::StrMap;
use crate::text::{chars_of, copy_string, lower_chars, owned, starts_with_chars, str_eq};

verus! {

/// Wire protocol version; hosts refuse plugins reporting another one.
pub const APPCAST_TPT_ABI_VERSION: u32 = 1;

/// The fully merged configuration, as a plugin receives it.
#[derive(Debug)]
pub struct ConfigSnapshot {
    /// Registry name of the selected transporter (the plugin's own name).
    pub transporter: String,
    /// Address slot.
    pub target: Option<String>,
    /// Content slot.
    pub app: Option<String>,
    /// Free-form extension params.
    pub params: StrMap,
    /// Passthrough args.
    pub raw_args: Vec<String>,
}

impl ConfigSnapshot {
    /// Look up an extension param by key.
    pub fn param(&self, key: &str) -> (r: Option<&str>)
        ensures
            r is Some <==> self.params@.contains_key(key@),
            r matches Some(v) ==> v@ == self.params@[key@],
    {
        match self.params.get(key) {
            Some(v) => Some(v.as_str()),
            None => None,
        }
    }
}

/// One enumerable item on a target, as a plugin lists it.
#[derive(Debug)]
pub struct ListedApp {
    /// Canonical identifier to feed back into the `app` slot of `run`.
    pub id: String,
    /// Human-readable display name, when obtainable.
    pub name: Option<String>,
    /// Backend-specific extras.
    pub meta: StrMap,
}

impl ListedApp {
    /// Entry with no display name and no extras.
    pub fn id_only(id: &str) -> (e: ListedApp)
        ensures
            e.id@ == id@,
            e.name is None,
            e.meta@ == Map::<Seq<char>, Seq<char>>::empty(),
    {
        ListedApp { id: owned(id), name: None, meta: StrMap::new() }
    }
}

/// The blocking counterpart of the host's transporter interface, which a
/// plugin implements. Methods run on a blocking host thread and may be
/// called from several threads at once.
pub trait SimpleTransporter: Send + Sync {
    /// Registry name of this transporter (e.g. `"web-webview"`).
    fn name(&self) -> &'static str;

    /// Run one casting session; `Err` only for genuine failures.
    fn run(&self, config: ConfigSnapshot) -> Result<(), String>;

    /// Entries available on `target` (possibly none).
    fn list_apps(&self, target: &str, params: &StrMap) -> Result<Vec<ListedApp>, String>;
}

/// The embedded-WebView plugin (`web-webview`); its window runs in the
/// plugin library.
#[derive(Debug)]
pub struct WebViewTransporter;

/// The refusal of a non-http(s) address.
pub open spec fn webview_url_error(url: Seq<char>) -> Seq<char> {
    "invalid URL `"@ + url
        + "`: web-webview expects an http(s) URL such as `https://example.com`"@
}

/// The usage line of this plugin.
pub open spec fn webview_usage() -> Seq<char> {
    "appcast run web-webview <https-url>"@
}

/// Param keys this plugin interprets.
pub open spec fn webview_known_param(k: Seq<char>) -> bool {
    k == "window_size"@ || k == "title"@
}

/// The window title: the `title` param, else `appcast — <url>`.
pub open spec fn webview_title(params: Map<Seq<char>, Seq<char>>, url: Seq<char>) -> Seq<char> {
    if params.contains_key("title"@) {
        params["title"@]
    } else {
        "appcast — "@ + url
    }
}

/// Whether `k` names a param this plugin interprets.
pub fn is_webview_param(k: &str) -> (b: bool)
    ensures
        b == webview_known_param(k@),
{
    str_eq(k, "window_size") || str_eq(k, "title")
}

impl WebViewTransporter {
    /// Registry name of this plugin.
    pub fn name(&self) -> (r: &'static str)
        ensures
            r@ == "web-webview"@,
    {
        "web-webview"
    }

    /// The URL to open: the address slot, which must be present and an
    /// http(s) URL.
    pub fn session_url(config: &ConfigSnapshot) -> (r: Result<String, String>)
        ensures
            match config.target {
                None => r matches Err(m) && m@ == "missing URL in the address slot; usage: "@
                    + webview_usage(),
                Some(t) => match r {
                    Ok(u) => is_web_url(t@) && u@ == t@,
                    Err(m) => !is_web_url(t@) && m@ == webview_url_error(t@),
                },
            },
    {
        match &config.target {
            None => {
                let mut m = owned("missing URL in the address slot; usage: ");
                m.append("appcast run web-webview <https-url>");
                Err(m)
            },
            Some(t) => {
                match Self::validate_url(t.as_str()) {
                    Ok(()) => Ok(copy_string(t)),
                    Err(m) => Err(m),
                }
            },
        }
    }

    /// Param keys this plugin ignores (it warns about each).
    pub fn unknown_param_keys(config: &ConfigSnapshot) -> (r: Vec<&str>)
        ensures
            str_views(r@) == unknown_keys(
                config.params.keys(),
                |k: Seq<char>| webview_known_param(k),
            ),
    {
        collect_unknown(
            &config.params,
            is_webview_param,
            Ghost(|k: Seq<char>| webview_known_param(k)),
        )
    }

    /// The window title: the `title` param, else `appcast — <url>`.
    pub fn window_title(config: &ConfigSnapshot, url: &str) -> (r: String)
        ensures
            r@ == webview_title(config.params@, url@),
    {
        match config.param("title") {
            Some(t) => owned(t),
            None => {
                let mut r = owned("appcast — ");
                r.append(url);
                r
            },
        }
    }

    /// A URL has nothing enumerable: the listing is always empty.
    pub fn list_apps(&self, _target: &str, _params: &StrMap) -> (r: Result<Vec<ListedApp>, String>)
        ensures
            r matches Ok(v) && v@.len() == 0,
    {
        Ok(Vec::new())
    }

    /// The addressing schema of this plugin: exactly one slot, http(s) only.
    pub fn validate_url(url: &str) -> (r: Result<(), String>)
        ensures
            r is Ok <==> is_web_url(url@),
            r matches Err(m) ==> m@ == webview_url_error(url@),
    {
        let lower = lower_chars(&chars_of(url));
        let http = chars_of("http://");
        let https = chars_of("https://");
        if starts_with_chars(&lower, &http) || starts_with_chars(&lower, &https) {
            Ok(())
        } else {
            let mut m = owned("invalid URL `");
            m.append(url);
            m.append("`: web-webview expects an http(s) URL such as `https://example.com`");
            Err(m)
        }
    }
}

} // verus!
