//! Where profiles live: the `$XDG_CONFIG_HOME/appcast/profiles` directory
//! and the file name of each profile.

use vstd::prelude::*;

use etcetera::{AppStrategy, BaseStrategy};

use crate::error::{io_error_other, AppError};
use crate::strmap::pair_views;
use crate::text::{
    chars_of, contains_seq, has_char, lemma_string_views_push, owned, push_char, sort_strings,
    sorted_asc, str_eq, string_views,
};

verus! {

/// `etcetera::choose_base_strategy()` followed by `config_dir()`: the
/// user's configuration home, or the error's message when no home
/// directory can be found.
#[verifier::external_body]
fn config_home() -> (r: Result<std::path::PathBuf, String>)
    ensures
        r matches Err(m) ==> m@ == "could not locate home directory"@,
{
    match etcetera::choose_base_strategy() {
        Ok(strategy) => Ok(strategy.config_dir()),
        Err(e) => Err(e.to_string()),
    }
}

/// What `Path::join` gives for a base path and one relative component.
pub uninterp spec fn joined(base: std::path::PathBuf, part: Seq<char>) -> std::path::PathBuf;

/// `Path::join` of one component: a function of the base path and the
/// component alone.
#[verifier::external_body]
pub(crate) fn join_path(base: &std::path::PathBuf, part: &str) -> (r: std::path::PathBuf)
    ensures
        r == joined(*base, part@),
{
    base.join(part)
}

/// What `Path::to_string_lossy` gives for a path, as characters.
pub uninterp spec fn lossy_text(p: std::path::PathBuf) -> Seq<char>;

/// `Path::to_string_lossy` into an owned string: a function of the path
/// alone.
#[verifier::external_body]
pub(crate) fn path_text(p: &std::path::PathBuf) -> (r: String)
    ensures
        r@ == lossy_text(*p),
{
    p.to_string_lossy().into_owned()
}

/// The appcast directory under a configuration home: `<home>/appcast`.
pub fn config_root_under(home: &std::path::PathBuf) -> (r: std::path::PathBuf)
    ensures
        r == joined(*home, "appcast"@),
{
    join_path(home, "appcast")
}

/// The profiles directory under a configuration home:
/// `<home>/appcast/profiles`.
pub fn profiles_dir_under(home: &std::path::PathBuf) -> (r: std::path::PathBuf)
    ensures
        r == joined(joined(*home, "appcast"@), "profiles"@),
{
    join_path(&config_root_under(home), "profiles")
}

/// `$XDG_CONFIG_HOME/appcast` (platform equivalent elsewhere): the appcast
/// directory under the configuration home found at run time.
fn config_root() -> (r: Result<std::path::PathBuf, AppError>)
    ensures
        match r {
            Ok(p) => exists|home: std::path::PathBuf| p == joined(home, "appcast"@),
            Err(e) => e is Io,
        },
{
    match config_home() {
        Ok(dir) => Ok(config_root_under(&dir)),
        Err(message) => {
            let mut m = owned("cannot locate config home: ");
            m.append(message.as_str());
            Err(AppError::Io(io_error_other(m)))
        },
    }
}

/// `$XDG_CONFIG_HOME/appcast/profiles`: the `profiles` directory of the
/// appcast directory under the configuration home found at run time.
pub fn profiles_dir() -> (r: Result<std::path::PathBuf, AppError>)
    ensures
        match r {
            Ok(p) => exists|home: std::path::PathBuf|
                p == joined(joined(home, "appcast"@), "profiles"@),
            Err(e) => e is Io,
        },
{
    match config_root() {
        Ok(root) => {
            let ghost home = choose|home: std::path::PathBuf| root == joined(home, "appcast"@);
            let p = join_path(&root, "profiles");
            assert(p == joined(joined(home, "appcast"@), "profiles"@));
            Ok(p)
        },
        Err(e) => Err(e),
    }
}

/// An application name that etcetera's strategies use unchanged as a path
/// component: non-empty, made of lowercase ASCII letters, digits and `-`
/// (lower-casing and replacing spaces leave it as it is).
pub open spec fn plain_app_name(name: Seq<char>) -> bool {
    name.len() > 0 && forall|i: int|
        0 <= i < name.len() ==> ('a' <= #[trigger] name[i] <= 'z') || ('0' <= name[i] <= '9')
            || name[i] == '-'
}

/// `etcetera::choose_app_strategy` for the given application identity,
/// then `data_dir()`: the application's data directory, or none when no
/// home directory can be found. Where it lies depends on the environment;
/// stated is that the application name is part of it: the XDG strategy
/// (Linux, macOS) appends the lower-cased name with spaces made `-`, and
/// the Windows one appends `<author>\<app_name>\data`, so a plain name
/// appears in the path's text as it is.
#[verifier::external_body]
fn app_data_dir(top_level_domain: &str, author: &str, app_name: &str) -> (r: Option<
    std::path::PathBuf,
>)
    ensures
        plain_app_name(app_name@) ==> (r matches Some(d) ==> contains_seq(
            lossy_text(d),
            app_name@,
        )),
{
    let args = etcetera::app_strategy::AppStrategyArgs {
        top_level_domain: top_level_domain.to_string(),
        author: author.to_string(),
        app_name: app_name.to_string(),
    };
    match etcetera::choose_app_strategy(args) {
        Ok(strategy) => Some(strategy.data_dir()),
        Err(_) => None,
    }
}

/// The dedicated browser profile directory under an application data
/// directory: `<data>/web-browser-profile`.
pub fn browser_profile_under(data_dir: &std::path::PathBuf) -> (r: std::path::PathBuf)
    ensures
        r == joined(*data_dir, "web-browser-profile"@),
{
    join_path(data_dir, "web-browser-profile")
}

/// The dedicated browser profile directory of appcast
/// (`io.github` / `AndroidAppsUsedByMyself` / `appcast`): its data
/// directory found at run time, whose path holds `appcast`, joined with
/// `web-browser-profile`; none when no home directory can be found.
pub fn browser_profile_dir() -> (r: Option<std::path::PathBuf>)
    ensures
        r matches Some(p) ==> exists|data: std::path::PathBuf|
            p == joined(data, "web-browser-profile"@) && contains_seq(lossy_text(data), "appcast"@),
{
    proof {
        reveal_strlit("appcast");
        assert(plain_app_name("appcast"@));
    }
    match app_data_dir("io.github", "AndroidAppsUsedByMyself", "appcast") {
        Some(data) => {
            let p = browser_profile_under(&data);
            assert(p == joined(data, "web-browser-profile"@) && contains_seq(
                lossy_text(data),
                "appcast"@,
            ));
            Some(p)
        },
        None => None,
    }
}

/// `/` and `\` in a profile name become `_`.
pub open spec fn neutralize(c: char) -> char {
    if c == '/' || c == '\\' {
        '_'
    } else {
        c
    }
}

/// The file name of a profile: the name with separators neutralized, plus
/// `.yaml`.
pub open spec fn profile_file(name: Seq<char>) -> Seq<char> {
    Seq::new(name.len(), |i: int| neutralize(name[i])) + ".yaml"@
}

/// File name of a profile; `/` and `\` in names are neutralized so a name
/// can never escape the profiles directory.
pub fn profile_file_name(name: &str) -> (r: String)
    ensures
        r@ == profile_file(name@),
{
    let v = chars_of(name);
    let mut r = String::new();
    for i in 0..v.len()
        invariant
            r@ == Seq::new(i as nat, |j: int| neutralize(v@[j])),
    {
        let c = v[i];
        let d = if c == '/' || c == '\\' {
            '_'
        } else {
            c
        };
        push_char(&mut r, d);
        assert(r@ =~= Seq::new((i + 1) as nat, |j: int| neutralize(v@[j])));
    }
    assert(Seq::new(v.len() as nat, |j: int| neutralize(v@[j])) =~= Seq::new(
        name@.len(),
        |i: int| neutralize(name@[i]),
    ));
    r.append(".yaml");
    r
}

/// The file of the profile `name` in the directory `dir`.
pub fn profile_path(dir: &std::path::PathBuf, name: &str) -> (r: std::path::PathBuf)
    ensures
        r == joined(*dir, profile_file(name@)),
{
    let file = profile_file_name(name);
    join_path(dir, file.as_str())
}

/// A profile's file name never holds a path separator before its
/// `.yaml` suffix, so it always names a file directly inside the profiles
/// directory.
pub proof fn law_profile_name_stays_inside(name: Seq<char>)
    ensures
        !has_char(profile_file(name).take(name.len() as int), '/'),
        !has_char(profile_file(name).take(name.len() as int), '\\'),
        profile_file(name).skip(name.len() as int) == ".yaml"@,
{
    let p = profile_file(name);
    assert(p.take(name.len() as int) =~= Seq::new(name.len(), |i: int| neutralize(name[i])));
    assert(p.skip(name.len() as int) =~= ".yaml"@);
}

/// Profile files carry the extension `yaml` or `yml`.
pub open spec fn is_profile_ext(ext: Seq<char>) -> bool {
    ext == "yaml"@ || ext == "yml"@
}

/// The stems, in order, of the `(stem, extension)` pairs that name profile
/// files.
pub open spec fn profile_stems(files: Seq<(Seq<char>, Seq<char>)>) -> Seq<Seq<char>>
    decreases files.len(),
{
    if files.len() == 0 {
        Seq::empty()
    } else if is_profile_ext(files.last().1) {
        profile_stems(files.drop_last()).push(files.last().0)
    } else {
        profile_stems(files.drop_last())
    }
}

/// The profile names among the files of the profiles directory, each given
/// as its `(file stem, extension)`: the stems of the `.yaml`/`.yml` files,
/// sorted.
pub fn profile_names(files: &Vec<(String, String)>) -> (r: Vec<String>)
    ensures
        sorted_asc(string_views(r@)),
        string_views(r@).to_multiset() == profile_stems(pair_views(files@)).to_multiset(),
{
    let mut stems: Vec<String> = Vec::new();
    for i in 0..files.len()
        invariant
            string_views(stems@) == profile_stems(pair_views(files@).take(i as int)),
    {
        let (stem, ext) = &files[i];
        assert(pair_views(files@).take(i + 1).drop_last() == pair_views(files@).take(i as int));
        assert(pair_views(files@).take(i + 1).last() == (stem@, ext@));
        if str_eq(ext.as_str(), "yaml") || str_eq(ext.as_str(), "yml") {
            let c = owned(stem.as_str());
            proof {
                lemma_string_views_push(stems@, c);
            }
            stems.push(c);
        }
    }
    assert(pair_views(files@).take(files.len() as int) == pair_views(files@));
    sort_strings(&stems)
}

/// The editor `profile edit` opens: `$VISUAL`, else `$EDITOR`, else the
/// platform's fallback (`notepad` on Windows, `vi` elsewhere).
pub fn profile_editor(visual: Option<String>, editor: Option<String>, windows: bool) -> (r: String)
    ensures
        r@ == match visual {
            Some(v) => v@,
            None => match editor {
                Some(e) => e@,
                None => if windows {
                    "notepad"@
                } else {
                    "vi"@
                },
            },
        },
{
    match visual {
        Some(v) => v,
        None => match editor {
            Some(e) => e,
            None => if windows {
                owned("notepad")
            } else {
                owned("vi")
            },
        },
    }
}

} // verus!
