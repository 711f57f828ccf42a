pub mod about;
pub mod command_bar;
pub mod command_help;
pub mod confirm;
pub mod help;
pub mod hub;
pub mod logs;
pub mod models;
pub mod opencode;
pub mod picker;
pub mod router;
pub mod server;
pub mod settings;
pub mod sidebar;
pub mod stats;
pub mod status;

use vstd::prelude::*;
use crate::text::{decimal, push_char, push_decimal};

verus! {

/// Every screen indents its footer by two spaces.
pub const INDENT: usize = 2;

/// `a - b`, or 0 when `b` is larger (`saturating_sub`).
pub open spec fn sat_sub(a: int, b: int) -> int {
    if a > b {
        a - b
    } else {
        0
    }
}

/// How much room a footer really has inside a pane `pane_width` wide,
/// once the pane's borders, the standard indent and anything already on
/// the line are taken.
///
/// Passed to `keys::screen_hint_within` so hints are dropped deliberately
/// — with a marker saying so — rather than sliding off the right edge.
pub fn hint_width(pane_width: u16, bordered: bool, taken: usize) -> (res: usize)
    requires
        (if bordered {
            2int
        } else {
            0int
        }) + INDENT + taken <= usize::MAX,
    ensures
        res == sat_sub(pane_width as int, (if bordered {
            2int
        } else {
            0int
        }) + INDENT + taken),
{
    let borders: usize = if bordered {
        2
    } else {
        0
    };
    (pane_width as usize).saturating_sub(borders + INDENT + taken)
}

/// A rectangle of terminal cells: its top-left corner and its size.
#[derive(Debug, Clone, Copy, PartialEq, Eq, Structural)]
pub struct Rect {
    pub x: u16,
    pub y: u16,
    pub width: u16,
    pub height: u16,
}

/// The smaller of two sizes.
pub open spec fn at_most(a: int, b: int) -> int {
    if a < b {
        a
    } else {
        b
    }
}

/// Centres a `width` x `height` box inside `area`, clamped so it always
/// fits even in a very small terminal. Shared by every modal.
///
/// The corner it lands on must itself be an addressable cell (a `u16`);
/// an area the terminal handed out always ends inside that range.
pub fn centered(area: Rect, width: u16, height: u16) -> (res: Rect)
    requires
        area.x + (area.width - at_most(width as int, area.width as int)) / 2 <= u16::MAX,
        area.y + (area.height - at_most(height as int, area.height as int)) / 2 <= u16::MAX,
    ensures
        res.width == at_most(width as int, area.width as int),
        res.height == at_most(height as int, area.height as int),
        res.x == area.x + (area.width - res.width) / 2,
        res.y == area.y + (area.height - res.height) / 2,
        area.x <= res.x,
        res.x + res.width <= area.x + area.width,
        area.y <= res.y,
        res.y + res.height <= area.y + area.height,
{
    let width = if width < area.width {
        width
    } else {
        area.width
    };
    let height = if height < area.height {
        height
    } else {
        area.height
    };
    Rect {
        x: area.x + (area.width - width) / 2,
        y: area.y + (area.height - height) / 2,
        width,
        height,
    }
}

/// `" 3/8 "` for a list cursor, one-based and clamped to the list.
pub open spec fn position_view(cursor: int, len: int) -> Seq<char> {
    if len <= 0 {
        Seq::empty()
    } else {
        seq![' '] + decimal((if cursor < len - 1 {
            cursor
        } else {
            len - 1
        } + 1) as nat) + seq!['/'] + decimal(len as nat) + seq![' ']
    }
}

/// "3/8" for a list cursor, or nothing when there is no list to be
/// anywhere in. Rendered one-based, because it is read by a person, not an
/// index; a cursor left past the end by a reload or a filter never prints
/// a number larger than the list.
pub fn position(cursor: usize, len: usize) -> (res: String)
    ensures
        res@ == position_view(cursor as int, len as int),
{
    let mut s = String::new();
    if len == 0 {
        return s;
    }
    let shown = if cursor < len - 1 {
        cursor
    } else {
        len - 1
    };
    push_char(&mut s, ' ');
    push_decimal(&mut s, (shown + 1) as u64);
    push_char(&mut s, '/');
    push_decimal(&mut s, len as u64);
    push_char(&mut s, ' ');
    assert(s@ =~= position_view(cursor as int, len as int));
    s
}

/// The first row a list shows, given where the cursor is: it starts at
/// the top and scrolls down only as far as it must to bring the selection
/// into view, never past the end of the list.
pub open spec fn viewport_top_view(total: int, height: int, cursor: int) -> int {
    let top = sat_sub(cursor, sat_sub(height, 1));
    let last = sat_sub(total, height);
    if top < last {
        top
    } else {
        last
    }
}

/// The first row a `List` will show, given where the cursor is.
///
/// Derived rather than read back: the list state is rebuilt from the
/// cursor every frame, so the list starts from the top and scrolls down
/// only as far as it must to bring the selection into view. A scrollbar
/// drawn from anything else would disagree with the rows next to it.
pub fn viewport_top(total: usize, height: usize, cursor: usize) -> (res: usize)
    ensures
        res == viewport_top_view(total as int, height as int, cursor as int),
        res <= cursor,
        res + height <= total || res == 0,
        cursor < total && height > 0 ==> res <= cursor < res + height,
{
    let top = cursor.saturating_sub(height.saturating_sub(1));
    let last = total.saturating_sub(height);
    if top < last {
        top
    } else {
        last
    }
}

} // verus!
