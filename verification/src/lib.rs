//! `appcast`: cast a single application's window to this desktop through
//! pluggable transporters. This library holds the configuration model and
//! its priority-stack merge, the backends' argument planning, the registry,
//! and the text renderings; the command-line front end drives it.

use vstd::prelude::*;

pub mod adb;
pub mod browser;
pub mod config;
pub mod error;
pub mod listing;
pub mod parse;
pub mod paths;
pub mod placeholders;
pub mod plugins;
pub mod registry;
pub mod render;
pub mod sdk;
pub mod strmap;
pub mod suggest;
pub mod text;

verus! {

} // verus!
