//! The source editor's appearance.

use vstd::prelude::*;

verus! {

/// The style scheme matching the desktop's light or dark appearance.
pub open spec fn scheme_for(dark: bool) -> Seq<char> {
    if dark {
        "Adwaita-dark"@
    } else {
        "Adwaita"@
    }
}

/// The identifier of the style scheme that matches the desktop's light or
/// dark appearance.
pub fn style_scheme_id(dark: bool) -> (id: &'static str)
    ensures
        id@ == scheme_for(dark),
{
    if dark {
        "Adwaita-dark"
    } else {
        "Adwaita"
    }
}

} // verus!
