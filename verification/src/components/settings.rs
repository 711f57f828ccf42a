//! The Settings screen's checkbox, and the footer that says which of its
//! two behaviours Enter has on the row under the cursor.

use vstd::prelude::*;
use vstd::string::*;
use crate::app::{Screen, SettingRow};
use crate::components::sat_sub;
use crate::components::command_help::{cut_view, truncate};
use crate::components::hub::{pad_end, push_padded_end};
use crate::keys::{briefs, fit_hints, for_screen_view, screen_hint_within};
use crate::text::{chars_of, lower, lower_chars, push_char, same_chars, trim, trim_chars};

verus! {

/// Whether a value is a boolean and, if so, which way it is set — after
/// surrounding whitespace and letter case are set aside.
pub open spec fn toggle_state_view(value: Seq<char>) -> Option<bool> {
    let w = lower(trim(value));
    if w == "true"@ || w == "on"@ || w == "yes"@ {
        Some(true)
    } else if w == "false"@ || w == "off"@ || w == "no"@ {
        Some(false)
    } else {
        None
    }
}

/// Whether a value is a boolean and, if so, which way it is set.
///
/// `None` for everything else, so only the rows Enter actually flips get
/// a checkbox — a checkbox in front of a port number would promise
/// something pressing Enter does not do.
pub fn toggle_state(value: &str) -> (res: Option<bool>)
    ensures
        res == toggle_state_view(value@),
{
    let word = lower_chars(trim_chars(chars_of(value).as_slice()).as_slice());
    let w = word.as_slice();
    if same_chars(w, chars_of("true").as_slice()) || same_chars(w, chars_of("on").as_slice())
        || same_chars(w, chars_of("yes").as_slice()) {
        Some(true)
    } else if same_chars(w, chars_of("false").as_slice()) || same_chars(w, chars_of("off").as_slice())
        || same_chars(w, chars_of("no").as_slice()) {
        Some(false)
    } else {
        None
    }
}

/// Said after the hints when Enter flips the selected row.
pub const NOTE: &'static str = "   (enter flips this one)";

/// Whether Enter flips the selected row rather than editing it: it is an
/// entry, and the value in force (its override, else the ini value) is a
/// boolean.
pub open spec fn flips(selected: Option<SettingRow>) -> bool {
    match selected {
        Some(SettingRow::Entry { ini_value, override_value, .. }) => toggle_state_view(
            match override_value {
                Some(v) => v@,
                None => ini_value@,
            },
        ) is Some,
        _ => false,
    }
}

/// The Settings footer: the screen's hints, fitted to the pane, and the
/// note when Enter flips the selected row. The note is part of the line,
/// so the hints are fitted to what is left after it.
pub open spec fn footer_view(selected: Option<SettingRow>, width: int) -> Seq<char> {
    let hints = briefs(for_screen_view(Screen::Settings));
    if flips(selected) {
        fit_hints(hints, sat_sub(width, NOTE@.len() as int)) + NOTE@
    } else {
        fit_hints(hints, width)
    }
}

/// Names what Enter will do to the row under the cursor. The Settings
/// screen is the one place where that key has two behaviours, so it says
/// which one is armed rather than leaving the user to press it and see.
pub fn footer(selected: Option<&SettingRow>, width: usize) -> (res: String)
    ensures
        res@ == footer_view(
            match selected {
                Some(row) => Some(*row),
                None => None,
            },
            width as int,
        ),
        res@.len() <= if width < NOTE@.len() {
            NOTE@.len() as int
        } else {
            width as int
        },
{
    let toggles = match selected {
        Some(row) => match row.as_entry() {
            Some((_, _, _, ini_value, override_value)) => {
                let value = match override_value {
                    Some(v) => v,
                    None => ini_value,
                };
                toggle_state(value).is_some()
            },
            None => false,
        },
        None => false,
    };
    proof {
        reveal_strlit("   (enter flips this one)");
    }
    let taken = if toggles {
        NOTE.unicode_len()
    } else {
        0
    };
    let mut hint = screen_hint_within(Screen::Settings, width.saturating_sub(taken));
    if toggles {
        hint.append(NOTE);
    }
    hint
}

/// The checkbox in front of a value: ticked or not for a boolean, and
/// nothing at all for anything else.
pub open spec fn checkbox_view(value: Seq<char>) -> Seq<char> {
    match toggle_state_view(value) {
        Some(true) => "[x] "@,
        Some(false) => "[ ] "@,
        None => Seq::empty(),
    }
}

/// The two marks at the start of an entry: the cursor, and a star on a
/// row whose value was overridden in this session.
pub open spec fn marker_view(selected: bool, overridden: bool) -> Seq<char> {
    if selected && overridden {
        "▸*"@
    } else if selected {
        "▸ "@
    } else if overridden {
        " *"@
    } else {
        "  "@
    }
}

/// Width of the key column.
pub const KEY_WIDTH: usize = 26;

/// What an entry shows after its key: the edit buffer and a caret while it
/// is being edited; else the checkbox and the value in force, followed by
/// the ini value when an override diverges from it.
pub open spec fn entry_value_view(
    ini_value: Seq<char>,
    override_value: Option<Seq<char>>,
    selected: bool,
    editing: Option<Seq<char>>,
) -> Seq<char> {
    let effective = match override_value {
        Some(v) => v,
        None => ini_value,
    };
    if selected && editing is Some {
        editing->0 + seq!['▏']
    } else {
        match override_value {
            Some(v) => checkbox_view(effective) + v + "   (ini: "@ + ini_value + ")"@,
            None => checkbox_view(effective) + ini_value,
        }
    }
}

/// One line of the Settings list, cut to `width` with a mark where it was
/// cut. A section header is its title, indented (the list draws it under a
/// blank line); an entry is its marks, its key padded to the key column,
/// and its value. `editing` is the edit buffer when the editor is open; it
/// shows only on the selected row.
pub open spec fn setting_row_view(
    row: SettingRow,
    selected: bool,
    editing: Option<Seq<char>>,
    width: int,
) -> Seq<char> {
    match row {
        SettingRow::Header(text) => cut_view("  "@ + text@, width),
        SettingRow::Entry { key, ini_value, override_value, .. } => {
            let over = match override_value {
                Some(v) => Some(v@),
                None => None,
            };
            cut_view(
                marker_view(selected, override_value is Some) + pad_end(key@, KEY_WIDTH as int)
                    + seq![' '] + entry_value_view(ini_value@, over, selected, editing),
                width,
            )
        },
    }
}

/// Appends the checkbox for `value`.
fn push_checkbox(line: &mut String, value: &str)
    ensures
        final(line)@ == old(line)@ + checkbox_view(value@),
{
    match toggle_state(value) {
        Some(true) => line.append("[x] "),
        Some(false) => line.append("[ ] "),
        None => {},
    }
    assert(line@ =~= old(line)@ + checkbox_view(value@));
}

/// The text of one row of the Settings list.
pub fn setting_row(row: &SettingRow, selected: bool, editing: Option<&str>, width: usize) -> (res:
    String)
    ensures
        res@ == setting_row_view(
            *row,
            selected,
            match editing {
                Some(b) => Some(b@),
                None => None,
            },
            width as int,
        ),
{
    match row {
        SettingRow::Header(text) => {
            let mut line = String::from_str("  ");
            line.append(text.as_str());
            truncate(line.as_str(), width)
        },
        SettingRow::Entry { key, ini_value, override_value, .. } => {
            let mut line = String::new();
            let overridden = override_value.is_some();
            if selected && overridden {
                line.append("▸*");
            } else if selected {
                line.append("▸ ");
            } else if overridden {
                line.append(" *");
            } else {
                line.append("  ");
            }
            push_padded_end(&mut line, key.as_str(), KEY_WIDTH);
            push_char(&mut line, ' ');
            let ghost before = line@;
            match editing {
                Some(buffer) if selected => {
                    line.append(buffer);
                    push_char(&mut line, '▏');
                },
                _ => match override_value {
                    Some(v) => {
                        push_checkbox(&mut line, v.as_str());
                        line.append(v.as_str());
                        line.append("   (ini: ");
                        line.append(ini_value.as_str());
                        line.append(")");
                    },
                    None => {
                        push_checkbox(&mut line, ini_value.as_str());
                        line.append(ini_value.as_str());
                    },
                },
            }
            proof {
                let over = match override_value {
                    Some(v) => Some(v@),
                    None => None,
                };
                let ed = match editing {
                    Some(b) => Some(b@),
                    None => None,
                };
                assert(line@ =~= before + entry_value_view(ini_value@, over, selected, ed));
            }
            truncate(line.as_str(), width)
        },
    }
}

/// How many terminal rows a Settings row takes: a section header is drawn
/// as a blank line and its title, an entry as one line.
pub open spec fn row_height(row: SettingRow) -> nat {
    match row {
        SettingRow::Header(_) => 2,
        SettingRow::Entry { .. } => 1,
    }
}

/// The height of each row, in order — what the scrollbar counts in, so
/// that it does not sit a row out for every header above the cursor.
pub fn row_heights(rows: &[SettingRow]) -> (res: Vec<usize>)
    ensures
        res@.len() == rows@.len(),
        forall|i: int| 0 <= i < rows@.len() ==> res@[i] == row_height(#[trigger] rows@[i]),
{
    let mut heights: Vec<usize> = Vec::new();
    for i in 0..rows.len()
        invariant
            heights@.len() == i,
            forall|j: int| 0 <= j < i ==> heights@[j] == row_height(#[trigger] rows@[j]),
    {
        let h: usize = match &rows[i] {
            SettingRow::Header(_) => 2,
            SettingRow::Entry { .. } => 1,
        };
        heights.push(h);
    }
    heights
}

/// A row of the Settings list never runs past the pane: a value cut by the
/// terminal instead would read as a value that simply ends there.
pub proof fn lemma_a_setting_row_fits_the_pane(
    row: SettingRow,
    selected: bool,
    editing: Option<Seq<char>>,
    width: int,
)
    requires
        width >= 0,
    ensures
        setting_row_view(row, selected, editing, width).len() <= width,
{
}

} // verus!
