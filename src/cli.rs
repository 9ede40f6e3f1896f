//! Which of the tool's modes an invocation runs.
use vstd::prelude::*;

verus! {

/// What one invocation does.
pub enum Mode {
    /// Print the catalog's names.
    List,
    /// Print the active theme's name.
    Current,
    /// Apply the named theme, or one the user picks where no name is given.
    Apply(Option<String>),
}

/// The mode of an invocation: listing wins over printing the current theme,
/// which wins over applying one.
pub fn select_mode(list: bool, current: bool, theme: Option<String>) -> (r: Mode)
    ensures
        list ==> r is List,
        !list && current ==> r is Current,
        !list && !current ==> (r matches Mode::Apply(t) && t == theme),
{
    if list {
        Mode::List
    } else if current {
        Mode::Current
    } else {
        Mode::Apply(theme)
    }
}

} // verus!
