//! The decisions of the selection menu: how a key moves the highlighted
//! option, and when the choice is made. Reading keys and drawing are left to
//! the caller.
use vstd::prelude::*;

verus! {

/// The keys the menu reacts to.
#[derive(Debug, Clone, Copy, PartialEq, Eq, Structural)]
pub enum MenuKey {
    Up,
    Down,
    Enter,
    /// Any other key, which changes nothing.
    Other,
}

/// What the menu does after a key.
#[derive(Debug, Clone, Copy, PartialEq, Eq, Structural)]
pub enum MenuAction {
    /// Draw the menu again with this option highlighted.
    Redraw(usize),
    /// The option at this index is chosen.
    Select(usize),
}

/// The option highlighted after `key`, where `selected` of `len` options is
/// highlighted: up and down move by one, wrapping around at either end.
pub open spec fn next_selection(selected: int, len: int, key: MenuKey) -> int {
    match key {
        MenuKey::Up => if selected == 0 {
            len - 1
        } else {
            selected - 1
        },
        MenuKey::Down => if selected + 1 == len {
            0
        } else {
            selected + 1
        },
        _ => selected,
    }
}

/// What the menu does on `key` while option `selected` of `len` is
/// highlighted: enter chooses it, any other key redraws.
pub fn menu_step(selected: usize, len: usize, key: MenuKey) -> (r: MenuAction)
    requires
        selected < len,
    ensures
        key == MenuKey::Enter ==> r == MenuAction::Select(selected),
        key != MenuKey::Enter ==> r == MenuAction::Redraw(
            next_selection(selected as int, len as int, key) as usize,
        ),
        r matches MenuAction::Redraw(s) ==> s < len,
{
    match key {
        MenuKey::Up => MenuAction::Redraw(if selected == 0 { len - 1 } else { selected - 1 }),
        MenuKey::Down => MenuAction::Redraw(if selected + 1 == len { 0 } else { selected + 1 }),
        MenuKey::Enter => MenuAction::Select(selected),
        MenuKey::Other => MenuAction::Redraw(selected),
    }
}

} // verus!
