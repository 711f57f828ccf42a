//! The config picker: which `models.ini` to use, and how many of its
//! presets this machine cannot hold.

use vstd::prelude::*;
use vstd::string::*;
use crate::text::{decimal, push_decimal};

verus! {

/// The warning beside a config: nothing when everything fits, otherwise
/// how many presets exceed the machine.
pub open spec fn warning_view(too_large: nat) -> Seq<char> {
    if too_large == 0 {
        Seq::empty()
    } else {
        "⚠ "@ + decimal(too_large) + " exceed this machine"@
    }
}

/// The text of a config's warning.
pub fn warning_text(too_large: usize) -> (res: String)
    ensures
        res@ == warning_view(too_large as nat),
{
    if too_large == 0 {
        return String::new();
    }
    let mut text = String::from_str("⚠ ");
    push_decimal(&mut text, too_large as u64);
    text.append(" exceed this machine");
    text
}

} // verus!
