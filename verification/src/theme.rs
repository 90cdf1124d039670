//! User interface preferences.
use vstd::prelude::*;

verus! {

/// User interface preferences.
#[derive(Clone, Copy, Debug)]
pub struct UiSettings {
    /// Whether the translucent glass theme is used.
    pub glass_enabled: bool,
}

impl Default for UiSettings {
    /// The glass theme is on by default.
    fn default() -> (r: Self)
        ensures
            r.glass_enabled,
    {
        UiSettings { glass_enabled: true }
    }
}

} // verus!
