//! The Catppuccin Mocha colour scheme.

use vstd::prelude::*;

use crate::color_schemes::color;
use crate::config::{ColorBundle, ColorSettings};

verus! {

/// The colours of the scheme.
pub open spec fn colors() -> ColorBundle {
    ColorBundle {
        foreground: Some("rgba(205, 214, 244, 1.0)"@),
        background: Some("rgba(30, 30, 46, 1.0)"@),
        background_opacity: None,
        palette: seq![
            Some("rgba(73, 77, 100, 1.0)"@),
            Some("rgba(243, 139, 168, 1.0)"@),
            Some("rgba(166, 227, 161, 1.0)"@),
            Some("rgba(249, 226, 175, 1.0)"@),
            Some("rgba(137, 180, 250, 1.0)"@),
            Some("rgba(245, 194, 231, 1.0)"@),
            Some("rgba(148, 226, 213, 1.0)"@),
            Some("rgba(186, 194, 222, 1.0)"@),
            Some("rgba(88, 91, 112, 1.0)"@),
            Some("rgba(243, 139, 168, 1.0)"@),
            Some("rgba(166, 227, 161, 1.0)"@),
            Some("rgba(249, 226, 175, 1.0)"@),
            Some("rgba(137, 180, 250, 1.0)"@),
            Some("rgba(245, 194, 231, 1.0)"@),
            Some("rgba(148, 226, 213, 1.0)"@),
            Some("rgba(166, 173, 200, 1.0)"@),
        ],
        active_preset: None,
    }
}

/// The colours of the scheme.
pub fn get_colors() -> (r: ColorSettings)
    ensures
        r@ == colors(),
{
    let r = ColorSettings {
        foreground: color("rgba(205, 214, 244, 1.0)"),
        background: color("rgba(30, 30, 46, 1.0)"),
        background_opacity: None,
        palette: vec![
            color("rgba(73, 77, 100, 1.0)"),
            color("rgba(243, 139, 168, 1.0)"),
            color("rgba(166, 227, 161, 1.0)"),
            color("rgba(249, 226, 175, 1.0)"),
            color("rgba(137, 180, 250, 1.0)"),
            color("rgba(245, 194, 231, 1.0)"),
            color("rgba(148, 226, 213, 1.0)"),
            color("rgba(186, 194, 222, 1.0)"),
            color("rgba(88, 91, 112, 1.0)"),
            color("rgba(243, 139, 168, 1.0)"),
            color("rgba(166, 227, 161, 1.0)"),
            color("rgba(249, 226, 175, 1.0)"),
            color("rgba(137, 180, 250, 1.0)"),
            color("rgba(245, 194, 231, 1.0)"),
            color("rgba(148, 226, 213, 1.0)"),
            color("rgba(166, 173, 200, 1.0)"),
        ],
        active_preset: None,
    };
    assert(r@.palette =~= colors().palette);
    r
}

} // verus!
