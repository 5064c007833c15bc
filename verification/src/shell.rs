//! Decisions of the desktop shell around the picker window.
use vstd::prelude::*;

verus! {

/// What the global shortcut does to the picker window.
#[derive(Clone, Copy, Debug, PartialEq, Eq, Structural)]
pub enum PickerToggle {
    Show,
    Hide,
}

/// The global shortcut hides a visible picker and shows a hidden one; when
/// the visibility cannot be read, the picker counts as visible.
pub fn toggle_picker(visible: Option<bool>) -> (t: PickerToggle)
    ensures
        t == (if visible == Some(false) {
            PickerToggle::Show
        } else {
            PickerToggle::Hide
        }),
{
    match visible {
        Some(false) => PickerToggle::Show,
        _ => PickerToggle::Hide,
    }
}

/// The menu item that opens the picker.
pub const MENU_OPEN_PICKER: &'static str = "open-picker";

} // verus!
