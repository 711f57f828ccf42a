//! The `o` overlay on the Models screen: the OpenCode provider block for
//! the highlighted preset, and where it goes.
//!
//! Read-only, like `?`, `:help` and `:about`: the editor's config file
//! belongs to another program and is never written. The block itself is
//! assembled elsewhere from the launch facts; this module lays out the
//! box around its text.

use vstd::prelude::*;
use vstd::string::*;
use crate::components::command_help::{indented, indented_view, INDENT};
use crate::text::{chars_of, lines, push_decimal, split_lines, string_of, strings_view, vecs_view, decimal};

verus! {

/// The overlay's own keys: they exist only while the box is open, in the
/// same way `[y] yes` on a confirm prompt does.
pub const FOOTER: &'static str = "y copy and close · any other key close";

/// Where the block goes, as the box says it.
pub open spec fn destination(config_path: Seq<char>) -> Seq<char> {
    "add to "@ + config_path
}

/// The rows of the box, cut to `width`: where the block goes, the block
/// line by line, and the keys.
pub open spec fn lines_view(json: Seq<char>, config_path: Seq<char>, width: int) -> Seq<Seq<char>> {
    seq![
        Seq::empty(),
        indented_view(destination(config_path), width),
        indented_view("— merge into an existing \"provider\" block"@, width),
        Seq::empty(),
    ] + lines(json).map_values(|line: Seq<char>| indented_view(line, width)) + seq![
        Seq::empty(),
        indented_view(FOOTER@, width),
    ]
}

/// Appends one line.
fn push_line(rows: &mut Vec<String>, line: String, width: usize)
    requires
        line@.len() <= width,
        forall|i: int| 0 <= i < old(rows)@.len() ==> (#[trigger] old(rows)@[i])@.len() <= width,
    ensures
        forall|i: int| 0 <= i < final(rows)@.len() ==> (#[trigger] final(rows)@[i])@.len() <= width,
        strings_view(final(rows)@) == strings_view(old(rows)@).push(line@),
{
    rows.push(line);
    assert(strings_view(rows@) =~= strings_view(old(rows)@).push(line@));
}

/// The rows of the box, cut to `width`.
///
/// Everything is elided rather than clipped, and marked when it is: a JSON
/// line cut at the border reads as a line that ends there, which for a
/// block someone is about to paste is the worst way to be wrong.
pub fn overlay_lines(json: &str, config_path: &str, width: usize) -> (res: Vec<String>)
    ensures
        strings_view(res@) == lines_view(json@, config_path@, width as int),
        forall|i: int| 0 <= i < res@.len() ==> (#[trigger] res@[i])@.len() <= width,
{
    let mut rows: Vec<String> = Vec::new();
    push_line(&mut rows, String::new(), width);
    let mut target = String::from_str("add to ");
    target.append(config_path);
    push_line(&mut rows, indented(target.as_str(), width), width);
    push_line(&mut rows, indented("— merge into an existing \"provider\" block", width), width);
    push_line(&mut rows, String::new(), width);
    let ghost head = strings_view(rows@);
    let parts = split_lines(chars_of(json).as_slice());
    let ghost block = vecs_view(parts@).map_values(|line: Seq<char>| indented_view(line, width as int));
    for i in 0..parts.len()
        invariant
            vecs_view(parts@) == lines(json@),
            block == vecs_view(parts@).map_values(|line: Seq<char>| indented_view(line, width as int)),
            strings_view(rows@) == head + block.subrange(0, i as int),
            forall|j: int| 0 <= j < rows@.len() ==> (#[trigger] rows@[j])@.len() <= width,
    {
        let text = string_of(parts[i].as_slice());
        assert(text@ == vecs_view(parts@)[i as int]);
        let line = indented(text.as_str(), width);
        push_line(&mut rows, line, width);
        assert(block.subrange(0, i + 1) =~= block.subrange(0, i as int).push(block[i as int]));
    }
    assert(block.subrange(0, block.len() as int) =~= block);
    push_line(&mut rows, String::new(), width);
    push_line(&mut rows, indented(FOOTER, width), width);
    assert(strings_view(rows@) =~= lines_view(json@, config_path@, width as int));
    rows
}

/// Whether the whole block, its two borders included, has room in a
/// terminal `height` rows tall. Height is the one dimension eliding cannot
/// save: a JSON block with a middle missing is not a block.
pub fn fits(json: &str, config_path: &str, width: usize, height: u16) -> (res: bool)
    ensures
        res == (lines_view(json@, config_path@, width as int).len() + 2 <= height),
{
    overlay_lines(json, config_path, width).len().saturating_add(2) <= height as usize
}

/// What the box says instead when it cannot show the block: how many rows
/// it would need, and that the text is one keystroke away regardless.
pub open spec fn too_short_view(json: Seq<char>, config_path: Seq<char>, width: int) -> Seq<Seq<char>> {
    let needed = lines_view(json, config_path, width).len() + 2;
    seq![
        Seq::empty(),
        indented_view("the provider block needs "@ + decimal(needed) + " rows to show whole"@, width),
        indented_view("a taller terminal shows it — or take it as it is:"@, width),
        Seq::empty(),
        indented_view(FOOTER@, width),
    ]
}

/// The box for a terminal too short to show the block whole.
pub fn too_short(json: &str, config_path: &str, width: usize) -> (res: Vec<String>)
    requires
        lines_view(json@, config_path@, width as int).len() + 2 <= usize::MAX,
    ensures
        strings_view(res@) == too_short_view(json@, config_path@, width as int),
        forall|i: int| 0 <= i < res@.len() ==> (#[trigger] res@[i])@.len() <= width,
{
    let needed = overlay_lines(json, config_path, width).len() + 2;
    let mut message = String::from_str("the provider block needs ");
    push_decimal(&mut message, needed as u64);
    message.append(" rows to show whole");
    let mut rows: Vec<String> = Vec::new();
    push_line(&mut rows, String::new(), width);
    push_line(&mut rows, indented(message.as_str(), width), width);
    push_line(&mut rows, indented("a taller terminal shows it — or take it as it is:", width), width);
    push_line(&mut rows, String::new(), width);
    push_line(&mut rows, indented(FOOTER, width), width);
    assert(strings_view(rows@) =~= too_short_view(json@, config_path@, width as int));
    rows
}

/// The longest of a list of lines, in characters.
pub open spec fn longest(ls: Seq<Seq<char>>) -> nat
    decreases ls.len(),
{
    if ls.len() == 0 {
        0
    } else {
        let rest = longest(ls.drop_last());
        if ls.last().len() > rest {
            ls.last().len()
        } else {
            rest
        }
    }
}

/// The width at which no line has to be cut: the longest one, indented,
/// plus the borders and a space before the right one, as a terminal
/// width (`as u16`). `centered` clamps it to the terminal.
pub open spec fn desired_width_view(json: Seq<char>, config_path: Seq<char>) -> int {
    INDENT + longest(lines(json) + seq![destination(config_path), FOOTER@]) + 3
}

/// How wide the box would like to be.
pub fn desired_width(json: &str, config_path: &str) -> (res: u16)
    requires
        desired_width_view(json@, config_path@) <= usize::MAX,
    ensures
        res == desired_width_view(json@, config_path@) as u16,
{
    let parts = split_lines(chars_of(json).as_slice());
    let mut target = String::from_str("add to ");
    target.append(config_path);
    let ghost all = vecs_view(parts@) + seq![target@, FOOTER@];
    let mut widest: usize = 0;
    for i in 0..parts.len()
        invariant
            vecs_view(parts@) == lines(json@),
            all == vecs_view(parts@) + seq![target@, FOOTER@],
            target@ == destination(config_path@),
            widest == longest(all.subrange(0, i as int)),
    {
        assert(all.subrange(0, i + 1).drop_last() =~= all.subrange(0, i as int));
        assert(all[i as int] == parts@[i as int]@);
        if parts[i].len() > widest {
            widest = parts[i].len();
        }
    }
    let n = parts.len();
    let ghost through_target = all.subrange(0, n + 1);
    let ghost through_footer = all.subrange(0, n + 2);
    assert(through_target.drop_last() =~= all.subrange(0, n as int));
    assert(through_target.last() == target@);
    let length = target.unicode_len();
    if length > widest {
        widest = length;
    }
    assert(widest == longest(through_target));
    assert(through_footer.drop_last() =~= through_target);
    assert(through_footer.last() == FOOTER@);
    let footer = FOOTER.unicode_len();
    if footer > widest {
        widest = footer;
    }
    assert(widest == longest(through_footer));
    assert(through_footer =~= all);
    let total = INDENT + widest + 3;
    (#[verifier::truncate] (total as u16))
}

} // verus!
