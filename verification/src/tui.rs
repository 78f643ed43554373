//! Screen states for the alternative full-screen front-end. Only the state
//! enums live here; the terminal loop that drives them is not part of the
//! engine.

use vstd::prelude::*;

verus! {

/// Which screen the full-screen front-end shows.
#[derive(Clone, Copy, Debug, PartialEq, Eq, Structural)]
pub enum Screen {
    /// Loading screen.
    Load,
    /// Displays the active courses.
    Current,
    /// Displays the removed courses.
    Removed,
    /// Filter the active courses.
    SearchCurrent,
    /// Filter the removed courses.
    SearchRemoved,
    /// The tiered sublist.
    Tiered,
}

/// A modal popup shown over the current screen.
#[derive(Clone, Copy, Debug, PartialEq, Eq, Structural)]
pub enum Popup {
    /// Quit confirmation.
    Quit,
}

} // verus!
