use vstd::prelude::*;

use crate::preference::ThemePreference;
use crate::themes::ThemeTable;

verus! {

/// Why applying a preference to a target application failed.
#[derive(Clone, Copy, Debug, PartialEq, Eq, Structural)]
pub enum ApplyError {
    /// A file could not be read or written.
    IoFailure,
    /// The theme file for the chosen name does not exist.
    PathMissing,
    /// The running application could not be told to reload.
    SignalFailed,
}

/// What to do to the terminal's theme link: point it at `target` (a theme
/// file name), removing the link that is there first when there is one, then
/// ask running terminals to reload.
pub struct TerminalPlan {
    pub target: Vec<u8>,
    pub remove_existing: bool,
}

/// The theme file that applying `pref` links to, or why it cannot.
pub open spec fn planned_target(themes: ThemeTable, pref: ThemePreference, theme_exists: bool) -> Result<Seq<u8>, ApplyError> {
    if theme_exists {
        Ok(themes.name_for(pref))
    } else {
        Err(ApplyError::PathMissing)
    }
}

/// The link's target after applying `pref` to a link that pointed at
/// `before` (`None`: no link). A failed apply leaves the link alone.
pub open spec fn link_after_apply(
    themes: ThemeTable,
    pref: ThemePreference,
    theme_exists: bool,
    before: Option<Seq<u8>>,
) -> Option<Seq<u8>> {
    match planned_target(themes, pref, theme_exists) {
        Ok(target) => Some(target),
        Err(_) => before,
    }
}

/// Plans applying `pref` to the terminal. `theme_exists` says whether the
/// theme file that `themes` names for `pref` exists, `link_exists` whether
/// the theme link is there now. A missing theme file is an error; otherwise
/// the link is to be (re)made to point at it.
pub fn plan_terminal_apply(
    themes: &ThemeTable,
    pref: ThemePreference,
    theme_exists: bool,
    link_exists: bool,
) -> (r: Result<TerminalPlan, ApplyError>)
    ensures
        match r {
            Ok(plan) => planned_target(*themes, pref, theme_exists) == Ok::<Seq<u8>, ApplyError>(
                plan.target@,
            ) && plan.remove_existing == link_exists,
            Err(e) => planned_target(*themes, pref, theme_exists) == Err::<Seq<u8>, ApplyError>(e),
        },
{
    if !theme_exists {
        return Err(ApplyError::PathMissing);
    }
    let target = themes.pick(pref).clone();
    Ok(TerminalPlan { target, remove_existing: link_exists })
}

/// The terminal adapter's outcome from the outcome of relinking and of the
/// reload signal. A failed signal does not undo a link that was made, so it
/// is reported beside the result as a warning, not as the result.
pub fn settle_terminal_apply(link: Result<(), ApplyError>, signal_sent: bool) -> (r: (
    Result<(), ApplyError>,
    bool,
))
    ensures
        r.0 == link,
        r.1 == (link is Ok && !signal_sent),
{
    let warn = link.is_ok() && !signal_sent;
    (link, warn)
}

/// After the terminal adapter has applied `pref` with its theme file present,
/// the link points at the theme file for `pref`, whatever it pointed at
/// before; applying the same preference again leaves the same target.
pub proof fn lemma_terminal_link_target(
    themes: ThemeTable,
    pref: ThemePreference,
    before: Option<Seq<u8>>,
)
    ensures
        link_after_apply(themes, pref, true, before) == Some(themes.name_for(pref)),
        link_after_apply(themes, pref, true, link_after_apply(themes, pref, true, before))
            == link_after_apply(themes, pref, true, before),
{
}

} // verus!
