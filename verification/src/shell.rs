//! Which helper a shell gets for changing into a project.

use vstd::prelude::*;

verus! {

/// The helpers that a shell can be given: one that asks `fzf` to pick the
/// project, one that asks `skim`, and the plain one.
#[derive(Clone, Copy, Debug, PartialEq, Eq)]
pub enum Picker {
    Fzf,
    Skim,
    Basic,
}

/// The helper that goes with the shell's setup: `fzf` where it was asked
/// for, else `skim` where that was asked for, else the plain one.
pub fn picker(use_fzf: bool, use_skim: bool) -> (choice: Picker)
    ensures
        use_fzf ==> choice == Picker::Fzf,
        !use_fzf && use_skim ==> choice == Picker::Skim,
        !use_fzf && !use_skim ==> choice == Picker::Basic,
{
    if use_fzf {
        Picker::Fzf
    } else if use_skim {
        Picker::Skim
    } else {
        Picker::Basic
    }
}

} // verus!
