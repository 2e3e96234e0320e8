//! The built-in colour schemes, one module each.

use vstd::prelude::*;
use vstd::string::*;

use crate::numeral::{is_numeral, Numeral};

pub mod catppuccin_mocha;
pub mod gruvbox_dark;
pub mod monokai;
pub mod nord;
pub mod tokyo_night;

verus! {

/// A colour, given by the text that names it.
pub fn color(name: &str) -> (r: Option<String>)
    ensures
        r matches Some(s) && s@ == name@,
{
    Some(String::from_str(name))
}

/// The text `1` is a numeral.
pub proof fn lemma_one_is_numeral()
    ensures
        is_numeral("1"@),
{
    reveal_strlit("1");
    let s = "1"@;
    assert(s.len() == 1 && s[0] == '1');
    reveal_with_fuel(crate::numeral::digits_end, 3);
}

/// Full opacity.
pub fn solid() -> (r: Option<Numeral>)
    ensures
        r matches Some(n) && n@ == "1"@,
{
    proof {
        lemma_one_is_numeral();
    }
    Numeral::parse("1")
}

} // verus!
