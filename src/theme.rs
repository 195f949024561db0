use vstd::prelude::*;

verus! {

/// The toggles of the theme test page: whether its sample buttons are drawn
/// small and wide.
#[derive(Debug, Clone, Copy, PartialEq, Eq, Structural)]
pub struct ThemeTest {
    pub button_small: bool,
    pub button_wide: bool,
}

impl Default for ThemeTest {
    fn default() -> (r: ThemeTest)
        ensures
            !r.button_small,
            !r.button_wide,
    {
        ThemeTest { button_small: false, button_wide: false }
    }
}

} // verus!
