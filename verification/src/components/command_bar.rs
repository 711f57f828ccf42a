//! What the `:` bar says about itself, on its border.

use vstd::prelude::*;
use vstd::string::*;
use crate::commands::{all_view, find, find_view};
use crate::text::{chars_of, string_of, trim, trim_chars};

verus! {

/// The border text for a line being typed: a pointer at the listing while
/// the line is blank, the summary of the command it would run, or a word
/// that it would run nothing.
pub open spec fn hint_view(input: Seq<char>) -> Seq<char> {
    let typed = trim(input);
    if typed.len() == 0 {
        " :help lists the commands "@
    } else {
        match find_view(typed) {
            Some(i) => seq![' '] + all_view()[i].summary + seq![' '],
            None => " unknown — :help lists the commands "@,
        }
    }
}

/// What the border says, on the right. While a line is being typed it
/// names the command that would run, which is the moment a typo is
/// cheapest to notice; otherwise it points at the listing.
pub fn hint(input: &str) -> (res: String)
    ensures
        res@ == hint_view(input@),
{
    let chars = chars_of(input);
    let typed_chars = trim_chars(chars.as_slice());
    if typed_chars.len() == 0 {
        return String::from_str(" :help lists the commands ");
    }
    let typed = string_of(typed_chars.as_slice());
    match find(typed.as_str()) {
        Some(command) => {
            proof {
                reveal_strlit(" ");
            }
            let mut text = String::from_str(" ");
            text.append(command.summary);
            text.append(" ");
            assert(text@ =~= seq![' '] + command.summary@ + seq![' ']);
            text
        },
        None => String::from_str(" unknown — :help lists the commands "),
    }
}

} // verus!
