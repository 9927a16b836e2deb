//! Backends reserved for later: their sessions and listings are refused as
//! not implemented.

use vstd::prelude::*;

use crate::error::{is_not_implemented, AppError};
use crate::text::owned;

verus! {

/// Remote Linux X11 app forwarded over SSH (not implemented yet).
#[derive(Debug)]
pub struct LinuxX11Transporter;

impl LinuxX11Transporter {
    /// Registry name of this backend.
    pub fn name(&self) -> (r: &'static str)
        ensures
            r@ == "ssh-x11"@,
    {
        "ssh-x11"
    }

    /// One-line description for listings.
    pub fn description(&self) -> (r: &'static str)
        ensures
            r@ == "Remote Linux X11 app forwarded over SSH (not yet implemented)"@,
    {
        "Remote Linux X11 app forwarded over SSH (not yet implemented)"
    }

    /// What every session and listing of this backend answers.
    pub fn unavailable(&self) -> (e: AppError)
        ensures
            is_not_implemented(e, "ssh-x11 backend"@),
    {
        AppError::NotImplemented(owned("ssh-x11 backend"))
    }
}

/// Remote Wayland app forwarded via waypipe (not implemented yet).
#[derive(Debug)]
pub struct WaylandTransporter;

impl WaylandTransporter {
    /// Registry name of this backend.
    pub fn name(&self) -> (r: &'static str)
        ensures
            r@ == "waypipe"@,
    {
        "waypipe"
    }

    /// What every session and listing of this backend answers.
    pub fn unavailable(&self) -> (e: AppError)
        ensures
            is_not_implemented(e, "waypipe backend"@),
    {
        AppError::NotImplemented(owned("waypipe backend"))
    }
}

} // verus!
