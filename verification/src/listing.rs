//! Enumerable items of a target (`appcast list`) and their text renderings.

use vstd::prelude::*;

use crate::config::opt_view;
use crate::render::dash;
use crate::strmap::StrMap;
use crate::text::owned;

verus! {

/// One enumerable item on a target.
#[derive(Debug)]
pub struct AppEntry {
    /// Canonical identifier to feed back into the `app` slot of `run`.
    pub id: String,
    /// Human-readable display name, when obtainable.
    pub name: Option<String>,
    /// Backend-specific extras.
    pub meta: StrMap,
}

impl AppEntry {
    /// Entry with no display name and no extras.
    pub fn id_only(id: &str) -> (e: AppEntry)
        ensures
            e.id@ == id@,
            e.name is None,
            e.meta@ == Map::<Seq<char>, Seq<char>>::empty(),
    {
        AppEntry { id: owned(id), name: None, meta: StrMap::new() }
    }
}

/// One id per line.
pub open spec fn ids_text(es: Seq<AppEntry>) -> Seq<char>
    decreases es.len(),
{
    if es.len() == 0 {
        Seq::empty()
    } else {
        ids_text(es.drop_last()) + es.last().id@ + "\n"@
    }
}

/// `NAME<TAB>ID` per line, `-` for a missing name.
pub open spec fn long_text(es: Seq<AppEntry>) -> Seq<char>
    decreases es.len(),
{
    if es.len() == 0 {
        Seq::empty()
    } else {
        long_text(es.drop_last()) + dash(opt_view(es.last().name)) + "\t"@ + es.last().id@ + "\n"@
    }
}

/// Default rendering: one bare id per line (script-friendly).
pub fn render_ids(entries: &[AppEntry]) -> (r: String)
    ensures
        r@ == ids_text(entries@),
{
    let mut out = String::new();
    for i in 0..entries.len()
        invariant
            out@ == ids_text(entries@.take(i as int)),
    {
        out.append(entries[i].id.as_str());
        out.append("\n");
        assert(entries@.take(i + 1).drop_last() == entries@.take(i as int));
    }
    assert(entries@.take(entries@.len() as int) == entries@);
    out
}

/// Long rendering: display name and id, tab-separated (`-` when the name
/// is absent).
pub fn render_long(entries: &[AppEntry]) -> (r: String)
    ensures
        r@ == long_text(entries@),
{
    let mut out = String::new();
    for i in 0..entries.len()
        invariant
            out@ == long_text(entries@.take(i as int)),
    {
        match &entries[i].name {
            Some(name) => out.append(name.as_str()),
            None => out.append("-"),
        }
        out.append("\t");
        out.append(entries[i].id.as_str());
        out.append("\n");
        assert(entries@.take(i + 1).drop_last() == entries@.take(i as int));
    }
    assert(entries@.take(entries@.len() as int) == entries@);
    out
}

} // verus!
