//! The Logs screen's scrollback. The scroll position counts lines hidden
//! *below* the viewport, which is why 0 means "follow the newest line" and
//! needs no separate follow flag.

use vstd::prelude::*;
use vstd::string::*;
use crate::app::Screen;
use crate::components::{hint_width, sat_sub, INDENT};
use crate::keys::{briefs, fit_hints, for_screen_view, screen_hint_within};
use crate::text::{decimal, lemma_u64_decimal_len, push_decimal};

verus! {

/// First buffer line to show, and whether the view is scrolled back.
pub open spec fn viewport_view(total: int, height: int, scroll: int) -> (int, bool) {
    let max_scroll = sat_sub(total, height);
    let scroll = if scroll < max_scroll {
        scroll
    } else {
        max_scroll
    };
    (max_scroll - scroll, scroll > 0)
}

/// First buffer line to show, and whether the view is scrolled back.
///
/// Anchored to the bottom: with nothing scrolled back the last line is
/// always the newest one, whatever the terminal height; scrolling past
/// the oldest line stops at it.
pub fn viewport(total: usize, height: usize, scroll: usize) -> (res: (usize, bool))
    ensures
        (res.0 as int, res.1) == viewport_view(total as int, height as int, scroll as int),
        scroll == 0 ==> res.0 + height >= total,
        total >= height ==> res.0 + height <= total,
        scroll == 0 ==> !res.1 && res.0 == sat_sub(total as int, height as int),
        res.1 <==> scroll > 0 && total > height,
{
    let max_scroll = total.saturating_sub(height);
    let scroll = if scroll < max_scroll {
        scroll
    } else {
        max_scroll
    };
    (max_scroll - scroll, scroll > 0)
}

/// Where the view is in the buffer: the lines on screen when scrolled
/// back, or only the length when following the newest line.
pub open spec fn footer_position(total: nat, top: nat, height: nat, pinned: bool) -> Seq<char> {
    let last = if top + height < total {
        top + height
    } else {
        total
    };
    if pinned {
        decimal(top + 1) + "–"@ + decimal(last) + " of "@ + decimal(total) + " · scrolled back"@
    } else {
        decimal(total) + " lines · newest"@
    }
}

/// The Logs footer: the position first, then as many key hints as fit in
/// what the pane has left.
pub open spec fn footer_view(total: nat, top: nat, height: nat, pinned: bool, width: nat) -> Seq<char> {
    let position = footer_position(total, top, height, pinned);
    "  "@ + position + "   "@ + fit_hints(
        briefs(for_screen_view(Screen::Logs)),
        sat_sub(width as int, INDENT + position.len() + 3),
    )
}

/// The Logs footer. The position is the load-bearing half of this line,
/// so it is what the hints have to fit around rather than the other way
/// about.
pub fn footer(total: usize, top: usize, height: usize, pinned: bool, width: u16) -> (res: String)
    requires
        top + height <= usize::MAX,
        pinned ==> top + 1 <= usize::MAX,
    ensures
        res@ == footer_view(total as nat, top as nat, height as nat, pinned, width as nat),
        ({
            let fixed = INDENT + footer_position(total as nat, top as nat, height as nat, pinned).len()
                + 3;
            res@.len() <= if width < fixed {
                fixed
            } else {
                width as int
            }
        }),
{
    let end = top + height;
    let last = if end < total {
        end
    } else {
        total
    };
    proof {
        reveal_strlit("–");
        reveal_strlit(" of ");
        reveal_strlit(" · scrolled back");
        reveal_strlit(" lines · newest");
        reveal_strlit("  ");
        reveal_strlit("   ");
        if pinned {
            lemma_u64_decimal_len((top + 1) as u64);
        }
        lemma_u64_decimal_len(last as u64);
        lemma_u64_decimal_len(total as u64);
    }
    let mut position = String::new();
    if pinned {
        push_decimal(&mut position, (top + 1) as u64);
        position.append("–");
        push_decimal(&mut position, last as u64);
        position.append(" of ");
        push_decimal(&mut position, total as u64);
        position.append(" · scrolled back");
    } else {
        push_decimal(&mut position, total as u64);
        position.append(" lines · newest");
    }
    assert(position@ =~= footer_position(total as nat, top as nat, height as nat, pinned));
    let taken = position.unicode_len() + 3;
    let hint = screen_hint_within(Screen::Logs, hint_width(width, false, taken));
    let mut line = String::from_str("  ");
    line.append(position.as_str());
    line.append("   ");
    line.append(hint.as_str());
    line
}

} // verus!
