use vstd::prelude::*;

use crate::editor::is_line_safe;
use crate::preference::ThemePreference;

verus! {

/// The theme name to use for each preference. `NoPreference` and `Unknown`
/// both take `fallback`: the choice is made here, once, so that no target is
/// left on whatever an earlier run happened to set.
pub struct ThemeTable {
    pub dark: Vec<u8>,
    pub light: Vec<u8>,
    pub fallback: Vec<u8>,
}

impl ThemeTable {
    /// No name holds a newline, so each fits on one directive line.
    pub open spec fn names_line_safe(&self) -> bool {
        is_line_safe(self.dark@) && is_line_safe(self.light@) && is_line_safe(self.fallback@)
    }

    /// The name that `pick` selects for `pref`.
    pub open spec fn name_for(&self, pref: ThemePreference) -> Seq<u8> {
        match pref {
            ThemePreference::Dark => self.dark@,
            ThemePreference::Light => self.light@,
            _ => self.fallback@,
        }
    }

    pub fn new(dark: Vec<u8>, light: Vec<u8>, fallback: Vec<u8>) -> (r: ThemeTable)
        ensures
            r.dark@ == dark@,
            r.light@ == light@,
            r.fallback@ == fallback@,
    {
        ThemeTable { dark, light, fallback }
    }

    /// Selects the theme name for a preference.
    pub fn pick(&self, pref: ThemePreference) -> (r: &Vec<u8>)
        ensures
            r@ == self.name_for(pref),
    {
        match pref {
            ThemePreference::Dark => &self.dark,
            ThemePreference::Light => &self.light,
            _ => &self.fallback,
        }
    }
}

} // verus!
