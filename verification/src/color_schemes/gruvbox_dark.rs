//! The Gruvbox Dark colour scheme.

use vstd::prelude::*;

use crate::color_schemes::{color, solid};
use crate::config::{ColorBundle, ColorSettings};

verus! {

/// The colours of the scheme.
pub open spec fn colors() -> ColorBundle {
    ColorBundle {
        foreground: Some("#ebdbb2"@),
        background: Some("#282828"@),
        background_opacity: Some("1"@),
        palette: seq![
            Some("#282828"@),
            Some("#cc241d"@),
            Some("#98971a"@),
            Some("#d79921"@),
            Some("#458588"@),
            Some("#b16286"@),
            Some("#689d6a"@),
            Some("#a89984"@),
            Some("#928374"@),
            Some("#fb4934"@),
            Some("#b8bb26"@),
            Some("#fabd2f"@),
            Some("#83a598"@),
            Some("#d3869b"@),
            Some("#8ec07c"@),
            Some("#ebdbb2"@),
        ],
        active_preset: Some("GruvboxDark"@),
    }
}

/// The colours of the scheme.
pub fn get_colors() -> (r: ColorSettings)
    ensures
        r@ == colors(),
{
    let r = ColorSettings {
        foreground: color("#ebdbb2"),
        background: color("#282828"),
        background_opacity: solid(),
        palette: vec![
            color("#282828"),
            color("#cc241d"),
            color("#98971a"),
            color("#d79921"),
            color("#458588"),
            color("#b16286"),
            color("#689d6a"),
            color("#a89984"),
            color("#928374"),
            color("#fb4934"),
            color("#b8bb26"),
            color("#fabd2f"),
            color("#83a598"),
            color("#d3869b"),
            color("#8ec07c"),
            color("#ebdbb2"),
        ],
        active_preset: color("GruvboxDark"),
    };
    assert(r@.palette =~= colors().palette);
    r
}

} // verus!
