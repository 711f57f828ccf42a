//! The `?` overlay: every key that does something right now.
//!
//! Read entirely from the key tables, so a binding cannot appear here
//! without being documented, nor be documented without appearing here.

use vstd::prelude::*;
use vstd::string::*;
use crate::app::Screen;
use crate::components::hub::{pad_end, push_padded_end};
use crate::keys::{for_screen, for_screen_view, global, global_view, views, Binding, BindingView};
use crate::text::strings_view;

verus! {

/// The width of the key column.
pub const KEY_COLUMN: usize = 12;

/// A heading inside the box.
pub open spec fn section_view(title: Seq<char>) -> Seq<char> {
    "  "@ + title
}

/// One binding: its keys in a column, then what it does.
pub open spec fn row_view(b: BindingView) -> Seq<char> {
    "  "@ + pad_end(b.label, KEY_COLUMN as int) + b.action
}

/// The rows of a table of bindings.
pub open spec fn rows_view(bs: Seq<BindingView>) -> Seq<Seq<char>> {
    bs.map_values(|b: BindingView| row_view(b))
}

/// The whole overlay: the screen's own keys under its name, then the
/// keys that work anywhere, then how to close it.
pub open spec fn lines_view(screen: Screen) -> Seq<Seq<char>> {
    seq![section_view(screen.spec_label())] + rows_view(for_screen_view(screen)) + seq![
        Seq::empty(),
        section_view("anywhere"@),
    ] + rows_view(global_view()) + seq![Seq::empty(), "  esc close"@]
}

/// A heading inside the box.
fn section(title: &str) -> (res: String)
    ensures
        res@ == section_view(title@),
{
    let mut line = String::from_str("  ");
    line.append(title);
    line
}

/// One binding's row.
fn row(binding: &Binding) -> (res: String)
    ensures
        res@ == row_view(binding@),
{
    let mut line = String::from_str("  ");
    push_padded_end(&mut line, binding.label, KEY_COLUMN);
    line.append(binding.action);
    line
}

/// Appends a row for every binding in `bindings`.
fn push_rows(lines: &mut Vec<String>, bindings: &Vec<Binding>)
    ensures
        strings_view(final(lines)@) == strings_view(old(lines)@) + rows_view(views(bindings@)),
{
    let ghost start = strings_view(lines@);
    let ghost all = rows_view(views(bindings@));
    for i in 0..bindings.len()
        invariant
            all == rows_view(views(bindings@)),
            strings_view(lines@) == start + all.subrange(0, i as int),
    {
        let ghost before = strings_view(lines@);
        let line = row(&bindings[i]);
        lines.push(line);
        assert(strings_view(lines@) =~= before.push(line@));
        assert(all.subrange(0, i + 1) =~= all.subrange(0, i as int).push(all[i as int]));
    }
    assert(all.subrange(0, all.len() as int) =~= all);
}

/// Appends one line.
fn push_line(lines: &mut Vec<String>, line: String)
    ensures
        strings_view(final(lines)@) == strings_view(old(lines)@).push(line@),
{
    lines.push(line);
    assert(strings_view(lines@) =~= strings_view(old(lines)@).push(line@));
}

/// The overlay's lines for `screen`.
pub fn lines(screen: Screen) -> (res: Vec<String>)
    ensures
        strings_view(res@) == lines_view(screen),
{
    let mut lines: Vec<String> = Vec::new();
    push_line(&mut lines, section(screen.label()));
    push_rows(&mut lines, &for_screen(screen));
    push_line(&mut lines, String::new());
    push_line(&mut lines, section("anywhere"));
    push_rows(&mut lines, &global());
    push_line(&mut lines, String::new());
    push_line(&mut lines, String::from_str("  esc close"));
    assert(strings_view(lines@) =~= lines_view(screen));
    lines
}

} // verus!
