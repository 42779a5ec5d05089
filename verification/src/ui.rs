//! Plain state the panels share: which view is shown and what the user
//! has typed but not yet submitted.

use vstd::prelude::*;

verus! {

/// Which view of the live data is shown; `Off` shows none.
#[derive(Debug, Clone, Copy, PartialEq, Eq, Structural)]
pub enum DataView {
    Off,
    Log,
    Plot,
    PlotFft,
}

/// The console fields the user fills before submitting: variable names,
/// the vertical range, the port, and the log file name.
#[derive(Debug, Clone)]
pub struct AppUserInput {
    pub vars: String,
    pub y_include: String,
    pub y_include_prev: String,
    pub port: String,
    pub vars_prev: String,
    pub log_name: String,
}

} // verus!
