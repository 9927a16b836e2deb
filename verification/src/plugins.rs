//! Rules for out-of-tree transporter plugins: which files are attempted,
//! and the checks a loaded library must pass before it is registered.

use vstd::prelude::*;

use crate::error::{is_backend_error, AppError};
use crate::sdk::APPCAST_TPT_ABI_VERSION;
use crate::text::{
    chars_of, decimal, ends_with, ends_with_chars, owned, push_decimal, push_signed_decimal,
    signed_decimal, slice_chars, starts_with, starts_with_chars,
};

verus! {

/// A plugin artifact: the platform's shared-library suffix, and before it
/// the stem `appcast_tpt_`, optionally after the Unix `lib` prefix.
pub open spec fn plugin_file(name: Seq<char>, dll_suffix: Seq<char>) -> bool {
    ends_with(name, dll_suffix) && {
        let stem = name.take(name.len() - dll_suffix.len());
        starts_with(stem, "appcast_tpt_"@) || starts_with(stem, "libappcast_tpt_"@)
    }
}

/// Naming-convention filter for plugin files; `dll_suffix` is the
/// platform's shared-library suffix (`.so`, `.dylib`, `.dll`).
pub fn is_plugin_file(file_name: &str, dll_suffix: &str) -> (b: bool)
    ensures
        b == plugin_file(file_name@, dll_suffix@),
{
    let v = chars_of(file_name);
    let suffix = chars_of(dll_suffix);
    if !ends_with_chars(&v, &suffix) {
        return false;
    }
    let stem = slice_chars(&v, 0, v.len() - suffix.len());
    assert(stem@ == v@.take(v@.len() - suffix@.len()));
    let plain = chars_of("appcast_tpt_");
    let lib = chars_of("libappcast_tpt_");
    starts_with_chars(&stem, &plain) || starts_with_chars(&stem, &lib)
}

/// The refusal of a plugin speaking another ABI version.
pub open spec fn abi_mismatch(found: u32) -> Seq<char> {
    "ABI version "@ + decimal(found as nat) + " not supported (this appcast speaks "@ + decimal(
        APPCAST_TPT_ABI_VERSION as nat,
    ) + ")"@
}

/// The version handshake: only the ABI this build speaks is accepted.
pub fn check_abi_version(found: u32) -> (r: Result<(), String>)
    ensures
        r is Ok <==> found == APPCAST_TPT_ABI_VERSION,
        r matches Err(m) ==> m@ == abi_mismatch(found),
{
    if found != APPCAST_TPT_ABI_VERSION {
        let mut m = owned("ABI version ");
        push_decimal(&mut m, found);
        m.append(" not supported (this appcast speaks ");
        push_decimal(&mut m, APPCAST_TPT_ABI_VERSION);
        m.append(")");
        return Err(m);
    }
    Ok(())
}

/// The registry name a plugin reports must exist and be non-empty.
pub fn check_plugin_name(reported: Option<String>) -> (r: Result<String, String>)
    ensures
        match r {
            Ok(n) => reported matches Some(s) && s@ == n@ && n@.len() > 0,
            Err(m) => (reported is None || reported->0@.len() == 0) && m@
                == "reported empty or null name"@,
        },
{
    match reported {
        Some(name) => {
            if name.as_str().is_empty() {
                Err(owned("reported empty or null name"))
            } else {
                Ok(name)
            }
        },
        None => Err(owned("reported empty or null name")),
    }
}

/// The report of a plugin session that ended with a non-zero status.
pub open spec fn plugin_exit_message(plugin: Seq<char>, code: int) -> Seq<char> {
    "plugin `"@ + plugin + "` exited with status "@ + signed_decimal(code)
        + " (details on stderr)"@
}

/// The outcome of a plugin session from the status its `run` returned:
/// zero is success, anything else a backend error naming the status.
pub fn plugin_exit_outcome(plugin: &str, code: i32) -> (r: Result<(), AppError>)
    ensures
        r is Ok <==> code == 0,
        r matches Err(e) ==> is_backend_error(e, plugin_exit_message(plugin@, code as int)),
{
    if code == 0 {
        return Ok(());
    }
    let mut m = owned("plugin `");
    m.append(plugin);
    m.append("` exited with status ");
    push_signed_decimal(&mut m, code);
    m.append(" (details on stderr)");
    Err(AppError::BackendError(m))
}

} // verus!
