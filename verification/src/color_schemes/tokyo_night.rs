//! The Tokyo Night colour scheme.

use vstd::prelude::*;

use crate::color_schemes::color;
use crate::config::{ColorBundle, ColorSettings};

verus! {

/// The colours of the scheme.
pub open spec fn colors() -> ColorBundle {
    ColorBundle {
        foreground: Some("rgba(169, 177, 214, 1.0)"@),
        background: Some("rgba(26, 27, 38, 1.0)"@),
        background_opacity: None,
        palette: seq![
            Some("rgba(31, 32, 46, 1.0)"@),
            Some("rgba(247, 118, 142, 1.0)"@),
            Some("rgba(158, 206, 106, 1.0)"@),
            Some("rgba(224, 175, 104, 1.0)"@),
            Some("rgba(122, 162, 247, 1.0)"@),
            Some("rgba(187, 154, 247, 1.0)"@),
            Some("rgba(130, 204, 227, 1.0)"@),
            Some("rgba(192, 198, 222, 1.0)"@),
            Some("rgba(68, 73, 92, 1.0)"@),
            Some("rgba(247, 118, 142, 1.0)"@),
            Some("rgba(158, 206, 106, 1.0)"@),
            Some("rgba(224, 175, 104, 1.0)"@),
            Some("rgba(122, 162, 247, 1.0)"@),
            Some("rgba(187, 154, 247, 1.0)"@),
            Some("rgba(130, 204, 227, 1.0)"@),
            Some("rgba(169, 177, 214, 1.0)"@),
        ],
        active_preset: None,
    }
}

/// The colours of the scheme.
pub fn get_colors() -> (r: ColorSettings)
    ensures
        r@ == colors(),
{
    let r = ColorSettings {
        foreground: color("rgba(169, 177, 214, 1.0)"),
        background: color("rgba(26, 27, 38, 1.0)"),
        background_opacity: None,
        palette: vec![
            color("rgba(31, 32, 46, 1.0)"),
            color("rgba(247, 118, 142, 1.0)"),
            color("rgba(158, 206, 106, 1.0)"),
            color("rgba(224, 175, 104, 1.0)"),
            color("rgba(122, 162, 247, 1.0)"),
            color("rgba(187, 154, 247, 1.0)"),
            color("rgba(130, 204, 227, 1.0)"),
            color("rgba(192, 198, 222, 1.0)"),
            color("rgba(68, 73, 92, 1.0)"),
            color("rgba(247, 118, 142, 1.0)"),
            color("rgba(158, 206, 106, 1.0)"),
            color("rgba(224, 175, 104, 1.0)"),
            color("rgba(122, 162, 247, 1.0)"),
            color("rgba(187, 154, 247, 1.0)"),
            color("rgba(130, 204, 227, 1.0)"),
            color("rgba(169, 177, 214, 1.0)"),
        ],
        active_preset: None,
    };
    assert(r@.palette =~= colors().palette);
    r
}

} // verus!
