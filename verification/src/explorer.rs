//! The moves of the selection in the explorer. The explorer lists the
//! working directory first, then its parent if it has one, then what the
//! directory holds.

use crate::action::Action;
use crate::tree::NodeKind;
use vstd::prelude::*;

verus! {

/// What an action does to the explorer.
#[derive(Debug, Clone, Copy, PartialEq, Eq, Structural)]
pub enum Navigation {
    /// The entry with the given index is selected.
    Select(usize),
    /// The explorer goes to the parent of the working directory.
    Leave,
    /// The explorer goes into the entry with the given index.
    Enter(usize),
}

/// What `action` does when the entry `selected` of the entries with the
/// given kinds is selected. Moving up from the first entry selects the last
/// one, and moving down from the last selects the first. Going out needs a
/// parent; going in needs a directory other than the working directory,
/// which is the first entry. Every other action leaves the selection.
pub open spec fn navigation_of(
    selected: usize,
    kinds: Seq<NodeKind>,
    has_parent: bool,
    action: Action,
) -> Navigation {
    match action {
        Action::NavigateUp => if selected == 0 {
            Navigation::Select((kinds.len() - 1) as usize)
        } else {
            Navigation::Select((selected - 1) as usize)
        },
        Action::NavigateDown => if selected == kinds.len() - 1 {
            Navigation::Select(0)
        } else {
            Navigation::Select((selected + 1) as usize)
        },
        Action::NavigateOut => if has_parent {
            Navigation::Leave
        } else {
            Navigation::Select(selected)
        },
        Action::NavigateIn => if selected != 0 && kinds[selected as int] is Directory {
            Navigation::Enter(selected)
        } else {
            Navigation::Select(selected)
        },
        _ => Navigation::Select(selected),
    }
}

/// Tells what `action` does to the explorer.
pub fn navigate(selected: usize, kinds: &[NodeKind], has_parent: bool, action: &Action) -> (navigation:
    Navigation)
    requires
        selected < kinds@.len(),
    ensures
        navigation == navigation_of(selected, kinds@, has_parent, *action),
        navigation is Select ==> navigation->Select_0 < kinds@.len(),
        navigation is Enter ==> navigation->Enter_0 == selected,
{
    match action {
        Action::NavigateUp => {
            if selected == 0 {
                Navigation::Select(kinds.len() - 1)
            } else {
                Navigation::Select(selected - 1)
            }
        },
        Action::NavigateDown => {
            if selected == kinds.len() - 1 {
                Navigation::Select(0)
            } else {
                Navigation::Select(selected + 1)
            }
        },
        Action::NavigateOut => {
            if has_parent {
                Navigation::Leave
            } else {
                Navigation::Select(selected)
            }
        },
        Action::NavigateIn => {
            let enters = match kinds[selected] {
                NodeKind::Directory => selected != 0,
                NodeKind::File => false,
            };
            if enters {
                Navigation::Enter(selected)
            } else {
                Navigation::Select(selected)
            }
        },
        _ => Navigation::Select(selected),
    }
}

} // verus!
