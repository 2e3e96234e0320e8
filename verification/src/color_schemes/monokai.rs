//! The Monokai colour scheme.

use vstd::prelude::*;

use crate::color_schemes::color;
use crate::config::{ColorBundle, ColorSettings};

verus! {

/// The colours of the scheme.
pub open spec fn colors() -> ColorBundle {
    ColorBundle {
        foreground: Some("rgba(248, 248, 242, 1.0)"@),
        background: Some("rgba(39, 40, 34, 1.0)"@),
        background_opacity: None,
        palette: seq![
            Some("rgba(39, 40, 34, 1.0)"@),
            Some("rgba(249, 38, 114, 1.0)"@),
            Some("rgba(166, 226, 46, 1.0)"@),
            Some("rgba(244, 191, 117, 1.0)"@),
            Some("rgba(102, 217, 239, 1.0)"@),
            Some("rgba(174, 129, 255, 1.0)"@),
            Some("rgba(161, 239, 228, 1.0)"@),
            Some("rgba(248, 248, 242, 1.0)"@),
            Some("rgba(117, 113, 94, 1.0)"@),
            Some("rgba(249, 38, 114, 1.0)"@),
            Some("rgba(166, 226, 46, 1.0)"@),
            Some("rgba(244, 191, 117, 1.0)"@),
            Some("rgba(102, 217, 239, 1.0)"@),
            Some("rgba(174, 129, 255, 1.0)"@),
            Some("rgba(161, 239, 228, 1.0)"@),
            Some("rgba(249, 248, 245, 1.0)"@),
        ],
        active_preset: None,
    }
}

/// The colours of the scheme.
pub fn get_colors() -> (r: ColorSettings)
    ensures
        r@ == colors(),
{
    let r = ColorSettings {
        foreground: color("rgba(248, 248, 242, 1.0)"),
        background: color("rgba(39, 40, 34, 1.0)"),
        background_opacity: None,
        palette: vec![
            color("rgba(39, 40, 34, 1.0)"),
            color("rgba(249, 38, 114, 1.0)"),
            color("rgba(166, 226, 46, 1.0)"),
            color("rgba(244, 191, 117, 1.0)"),
            color("rgba(102, 217, 239, 1.0)"),
            color("rgba(174, 129, 255, 1.0)"),
            color("rgba(161, 239, 228, 1.0)"),
            color("rgba(248, 248, 242, 1.0)"),
            color("rgba(117, 113, 94, 1.0)"),
            color("rgba(249, 38, 114, 1.0)"),
            color("rgba(166, 226, 46, 1.0)"),
            color("rgba(244, 191, 117, 1.0)"),
            color("rgba(102, 217, 239, 1.0)"),
            color("rgba(174, 129, 255, 1.0)"),
            color("rgba(161, 239, 228, 1.0)"),
            color("rgba(249, 248, 245, 1.0)"),
        ],
        active_preset: None,
    };
    assert(r@.palette =~= colors().palette);
    r
}

} // verus!
