//! The Nord colour scheme.

use vstd::prelude::*;

use crate::color_schemes::color;
use crate::config::{ColorBundle, ColorSettings};

verus! {

/// The colours of the scheme.
pub open spec fn colors() -> ColorBundle {
    ColorBundle {
        foreground: Some("rgba(216, 222, 233, 1.0)"@),
        background: Some("rgba(46, 52, 64, 1.0)"@),
        background_opacity: None,
        palette: seq![
            Some("rgba(59, 66, 82, 1.0)"@),
            Some("rgba(191, 97, 106, 1.0)"@),
            Some("rgba(163, 190, 140, 1.0)"@),
            Some("rgba(235, 203, 139, 1.0)"@),
            Some("rgba(129, 161, 193, 1.0)"@),
            Some("rgba(180, 142, 173, 1.0)"@),
            Some("rgba(136, 192, 208, 1.0)"@),
            Some("rgba(229, 233, 240, 1.0)"@),
            Some("rgba(76, 86, 106, 1.0)"@),
            Some("rgba(191, 97, 106, 1.0)"@),
            Some("rgba(163, 190, 140, 1.0)"@),
            Some("rgba(235, 203, 139, 1.0)"@),
            Some("rgba(129, 161, 193, 1.0)"@),
            Some("rgba(180, 142, 173, 1.0)"@),
            Some("rgba(143, 188, 187, 1.0)"@),
            Some("rgba(236, 239, 244, 1.0)"@),
        ],
        active_preset: None,
    }
}

/// The colours of the scheme.
pub fn get_colors() -> (r: ColorSettings)
    ensures
        r@ == colors(),
{
    let r = ColorSettings {
        foreground: color("rgba(216, 222, 233, 1.0)"),
        background: color("rgba(46, 52, 64, 1.0)"),
        background_opacity: None,
        palette: vec![
            color("rgba(59, 66, 82, 1.0)"),
            color("rgba(191, 97, 106, 1.0)"),
            color("rgba(163, 190, 140, 1.0)"),
            color("rgba(235, 203, 139, 1.0)"),
            color("rgba(129, 161, 193, 1.0)"),
            color("rgba(180, 142, 173, 1.0)"),
            color("rgba(136, 192, 208, 1.0)"),
            color("rgba(229, 233, 240, 1.0)"),
            color("rgba(76, 86, 106, 1.0)"),
            color("rgba(191, 97, 106, 1.0)"),
            color("rgba(163, 190, 140, 1.0)"),
            color("rgba(235, 203, 139, 1.0)"),
            color("rgba(129, 161, 193, 1.0)"),
            color("rgba(180, 142, 173, 1.0)"),
            color("rgba(143, 188, 187, 1.0)"),
            color("rgba(236, 239, 244, 1.0)"),
        ],
        active_preset: None,
    };
    assert(r@.palette =~= colors().palette);
    r
}

} // verus!
