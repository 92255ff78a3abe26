//! The dropdown: when its list is open, and how its underline is drawn.

use vstd::prelude::*;

verus! {

/// What happens around a dropdown.
#[derive(Debug, PartialEq, Eq, Clone, Copy, Structural)]
pub enum DropdownEvent {
    /// The dropdown itself is pressed.
    Press,
    /// The pointer is pressed anywhere.
    GlobalPress,
    Escape,
    /// Enter is pressed, with the dropdown focused or not.
    Enter { focused: bool },
    /// The focus moves outside the dropdown.
    FocusLeft,
}

/// Whether the list is open after `e`: a press on the dropdown, or Enter
/// while it is focused, opens or closes it; a press elsewhere, Escape and
/// the focus leaving close it; Enter elsewhere leaves it.
pub open spec fn spec_dropdown_open(open: bool, e: DropdownEvent) -> bool {
    match e {
        DropdownEvent::Press => !open,
        DropdownEvent::GlobalPress => false,
        DropdownEvent::Escape => false,
        DropdownEvent::Enter { focused } => if focused { !open } else { open },
        DropdownEvent::FocusLeft => false,
    }
}

/// Whether the list is open after `e`.
pub fn dropdown_open(open: bool, e: DropdownEvent) -> (r: bool)
    ensures
        r == spec_dropdown_open(open, e),
{
    match e {
        DropdownEvent::Press => !open,
        DropdownEvent::GlobalPress => false,
        DropdownEvent::Escape => false,
        DropdownEvent::Enter { focused } => if focused {
            !open
        } else {
            open
        },
        DropdownEvent::FocusLeft => false,
    }
}

/// The colour of the dropdown's underline.
#[derive(Debug, PartialEq, Eq, Clone, Copy, Structural)]
pub enum BorderTone {
    Primary,
    OnSurface,
    Outline,
}

/// The underline: the primary colour while open, the text colour while
/// hovered, the outline colour otherwise.
pub fn border_tone(open: bool, hovering: bool) -> (r: BorderTone)
    ensures
        r == (if open {
            BorderTone::Primary
        } else if hovering {
            BorderTone::OnSurface
        } else {
            BorderTone::Outline
        }),
{
    if open {
        BorderTone::Primary
    } else if hovering {
        BorderTone::OnSurface
    } else {
        BorderTone::Outline
    }
}

/// Pressing the dropdown twice leaves it as it was; Escape always closes
/// it.
pub proof fn law_press_twice_and_escape(open: bool)
    ensures
        spec_dropdown_open(spec_dropdown_open(open, DropdownEvent::Press), DropdownEvent::Press) == open,
        !spec_dropdown_open(open, DropdownEvent::Escape),
{
}

} // verus!
