//! The `:help` overlay: every command the `:` bar accepts, read entirely
//! from the command table, so a command cannot appear here without being
//! dispatched, nor be dispatched without appearing here.

use vstd::prelude::*;
use vstd::string::*;
use crate::commands::{all, all_view, in_group, of_group, shown, views, Command, CommandView, Group};
use crate::components::hub::pad_end;
use crate::text::{chars_of, ellipsis, push_char, push_chars, push_repeat, repeat, string_of, strings_view};

verus! {

/// Two spaces of indent, as every other listing here uses.
pub const INDENT: usize = 2;
/// The gap between a usage and its summary.
pub const GAP: usize = 1;

/// The widest `:usage` among the listed commands of `cs`, colon included.
pub open spec fn max_usage(cs: Seq<CommandView>) -> int
    decreases cs.len(),
{
    if cs.len() == 0 {
        0
    } else {
        let rest = max_usage(cs.drop_last());
        let here = cs.last().usage.len() as int + 1;
        if !cs.last().hidden && here > rest {
            here
        } else {
            rest
        }
    }
}

/// The longest summary among the listed commands of `cs`.
pub open spec fn max_summary(cs: Seq<CommandView>) -> int
    decreases cs.len(),
{
    if cs.len() == 0 {
        0
    } else {
        let rest = max_summary(cs.drop_last());
        let here = cs.last().summary.len() as int;
        if !cs.last().hidden && here > rest {
            here
        } else {
            rest
        }
    }
}

/// The width of the usage column: the widest `:usage`.
pub open spec fn usage_width_view() -> int {
    max_usage(all_view())
}

/// The width at which no row has to be cut: the longest complete row.
pub open spec fn content_width_view() -> int {
    INDENT + usage_width_view() + GAP + max_summary(all_view())
}

/// Every usage and summary in the table is short.
proof fn lemma_table_lengths(i: int)
    requires
        0 <= i < all_view().len(),
    ensures
        all_view()[i].usage.len() < 100,
        all_view()[i].summary.len() < 100,
{
    reveal_strlit("launch <model> [-- args]");
    reveal_strlit("launch a preset, hot-swapping whatever is running");
    reveal_strlit("launch! <model>");
    reveal_strlit("the same, skipping the port-in-use check — emitted by the prompt, not typed");
    reveal_strlit("router [--max N] [--idle S]");
    reveal_strlit("start llama-server's own multi-model router");
    reveal_strlit("stop");
    reveal_strlit("stop the supervised process, even while something else is busy");
    reveal_strlit("status");
    reveal_strlit("is the server reachable, and what has it loaded");
    reveal_strlit("ping <model>");
    reveal_strlit("send one chat completion and print the reply");
    reveal_strlit("cache");
    reveal_strlit("ask llama.cpp again what it has locally");
    reveal_strlit("models");
    reveal_strlit("re-read models.ini and report what it holds");
    reveal_strlit("reload");
    reveal_strlit("the same thing, under the name that comes to mind first");
    reveal_strlit("help");
    reveal_strlit("this list");
    reveal_strlit("sh <command>");
    reveal_strlit("run a shell command and print its output");
    if i == 0 {
        assert(all_view()[0].usage == "launch <model> [-- args]"@);
        assert(all_view()[0].summary == "launch a preset, hot-swapping whatever is running"@);
    } else if i == 1 {
        assert(all_view()[1].usage == "launch! <model>"@);
        assert(all_view()[1].summary == "the same, skipping the port-in-use check — emitted by the prompt, not typed"@);
    } else if i == 2 {
        assert(all_view()[2].usage == "router [--max N] [--idle S]"@);
        assert(all_view()[2].summary == "start llama-server's own multi-model router"@);
    } else if i == 3 {
        assert(all_view()[3].usage == "stop"@);
        assert(all_view()[3].summary == "stop the supervised process, even while something else is busy"@);
    } else if i == 4 {
        assert(all_view()[4].usage == "status"@);
        assert(all_view()[4].summary == "is the server reachable, and what has it loaded"@);
    } else if i == 5 {
        assert(all_view()[5].usage == "ping <model>"@);
        assert(all_view()[5].summary == "send one chat completion and print the reply"@);
    } else if i == 6 {
        assert(all_view()[6].usage == "cache"@);
        assert(all_view()[6].summary == "ask llama.cpp again what it has locally"@);
    } else if i == 7 {
        assert(all_view()[7].usage == "models"@);
        assert(all_view()[7].summary == "re-read models.ini and report what it holds"@);
    } else if i == 8 {
        assert(all_view()[8].usage == "reload"@);
        assert(all_view()[8].summary == "the same thing, under the name that comes to mind first"@);
    } else if i == 9 {
        assert(all_view()[9].usage == "help"@);
        assert(all_view()[9].summary == "this list"@);
    } else if i == 10 {
        assert(all_view()[10].usage == "sh <command>"@);
        assert(all_view()[10].summary == "run a shell command and print its output"@);
    }
}

/// The widest usage (`usage`) or summary (not `usage`) of the listed
/// commands.
fn widest(usage: bool) -> (res: usize)
    ensures
        usage ==> res == max_usage(all_view()),
        !usage ==> res == max_summary(all_view()),
        res <= 100,
{
    let table = all();
    let ghost cs = views(table@);
    let mut best: usize = 0;
    for i in 0..table.len()
        invariant
            cs == views(table@),
            cs == all_view(),
            usage ==> best == max_usage(cs.subrange(0, i as int)),
            !usage ==> best == max_summary(cs.subrange(0, i as int)),
            best <= 100,
    {
        let c = table[i];
        proof {
            lemma_table_lengths(i as int);
        }
        assert(cs[i as int] == c@);
        assert(cs.subrange(0, i + 1).drop_last() =~= cs.subrange(0, i as int));
        let here = if usage {
            c.usage.unicode_len() + 1
        } else {
            c.summary.unicode_len()
        };
        if !c.hidden && here > best {
            best = here;
        }
    }
    assert(cs.subrange(0, cs.len() as int) =~= cs);
    best
}

/// The widest `:usage` in the table, so nothing collides with its own
/// description. Measured rather than guessed at, because the answer
/// changes the moment a command grows an argument.
pub fn usage_width() -> (res: usize)
    ensures
        res == usage_width_view(),
        res <= 100,
{
    widest(true)
}

/// The width at which no row has to be cut: the longest complete row.
pub fn content_width() -> (res: usize)
    ensures
        res == content_width_view(),
        res <= 203,
{
    INDENT + usage_width() + GAP + widest(false)
}

/// How wide the box would like to be: the content, its two borders, and
/// a space before the right one. Centring clamps it to the terminal, and
/// `lines` elides to whatever survives.
pub fn desired_width() -> (res: u16)
    ensures
        res == content_width_view() + 3,
{
    (content_width() + 3) as u16
}

/// A summary cut to `width`, the last kept character an ellipsis when it
/// was cut; nothing at all in no room.
pub open spec fn cut_view(text: Seq<char>, width: int) -> Seq<char> {
    if text.len() <= width {
        text
    } else if width <= 0 {
        Seq::empty()
    } else {
        text.subrange(0, width - 1) + seq![ellipsis()]
    }
}

/// Cuts a summary to the room there is, and says that it did.
///
/// Letting the terminal clip it would read as a summary that simply ends
/// there.
pub fn truncate(text: &str, width: usize) -> (res: String)
    ensures
        res@ == cut_view(text@, width as int),
        res@.len() <= width,
{
    let chars = chars_of(text);
    cut(chars.as_slice(), width)
}

/// `truncate`, on characters.
fn cut(chars: &[char], width: usize) -> (res: String)
    ensures
        res@ == cut_view(chars@, width as int),
        res@.len() <= width,
{
    if chars.len() <= width {
        return string_of(chars);
    }
    let mut out = String::new();
    if width == 0 {
        return out;
    }
    for i in 0..width - 1
        invariant
            width > 0,
            width - 1 < chars@.len(),
            out@ == chars@.subrange(0, i as int),
    {
        push_char(&mut out, chars[i]);
    }
    push_char(&mut out, '…');
    out
}

/// An indented line, cut to the box. The indent is cut too: at a width
/// below it, even two spaces overflow.
pub open spec fn indented_view(text: Seq<char>, width: int) -> Seq<char> {
    cut_view(repeat(' ', INDENT as nat) + text, width)
}

/// An indented line, cut to the box.
pub fn indented(text: &str, width: usize) -> (res: String)
    ensures
        res@ == indented_view(text@, width as int),
        res@.len() <= width,
{
    let mut line: Vec<char> = Vec::new();
    line.push(' ');
    line.push(' ');
    let body = chars_of(text);
    for i in 0..body.len()
        invariant
            line@ == repeat(' ', INDENT as nat) + body@.subrange(0, i as int),
    {
        line.push(body[i]);
        assert(body@.subrange(0, i + 1) =~= body@.subrange(0, i as int).push(body@[i as int]));
    }
    assert(body@.subrange(0, body@.len() as int) =~= body@);
    assert(repeat(' ', INDENT as nat) =~= seq![' ', ' ']);
    cut(line.as_slice(), width)
}

/// The usage column's width in a box `width` wide: on a terminal narrower
/// than the column itself, the usage is what survives.
pub open spec fn column_view(width: int) -> int {
    let room = if width > INDENT { width - INDENT } else { 0 };
    if usage_width_view() < room {
        usage_width_view()
    } else {
        room
    }
}

/// One command's row: its `:usage` in the usage column, then as much of
/// its summary as the box has room for.
pub open spec fn row_view(c: CommandView, width: int) -> Seq<char> {
    let column = column_view(width);
    let usage = cut_view(seq![':'] + c.usage, column);
    let head = cut_view(repeat(' ', INDENT as nat) + pad_end(usage, column), if width < INDENT + column {
        width
    } else {
        INDENT + column
    });
    let room = if width > head.len() + GAP { width - head.len() - GAP } else { 0 };
    if room == 0 {
        head
    } else {
        head + repeat(' ', GAP as nat) + cut_view(c.summary, room)
    }
}

/// One command's row of the listing.
pub fn row(command: &Command, width: usize) -> (res: String)
    ensures
        res@ == row_view(command@, width as int),
        res@.len() <= width,
{
    let room_for_column = width.saturating_sub(INDENT);
    let usage_column = usage_width();
    let column = if usage_column < room_for_column {
        usage_column
    } else {
        room_for_column
    };
    let mut spelled: Vec<char> = Vec::new();
    spelled.push(':');
    let usage = chars_of(command.usage);
    for i in 0..usage.len()
        invariant
            spelled@ == seq![':'] + usage@.subrange(0, i as int),
    {
        spelled.push(usage[i]);
        assert(usage@.subrange(0, i + 1) =~= usage@.subrange(0, i as int).push(usage@[i as int]));
    }
    assert(usage@.subrange(0, usage@.len() as int) =~= usage@);
    let usage_cell = chars_of(cut(spelled.as_slice(), column).as_str());
    let mut head_chars: Vec<char> = Vec::new();
    head_chars.push(' ');
    head_chars.push(' ');
    for i in 0..usage_cell.len()
        invariant
            head_chars@ == repeat(' ', INDENT as nat) + usage_cell@.subrange(0, i as int),
    {
        head_chars.push(usage_cell[i]);
        assert(usage_cell@.subrange(0, i + 1) =~= usage_cell@.subrange(0, i as int).push(
            usage_cell@[i as int],
        ));
    }
    assert(usage_cell@.subrange(0, usage_cell@.len() as int) =~= usage_cell@);
    let ghost unpadded = head_chars@;
    let mut k = usage_cell.len();
    while k < column
        invariant
            usage_cell@.len() <= k,
            k <= column || usage_cell@.len() >= column,
            k == usage_cell@.len() || k <= column,
            head_chars@ == unpadded + repeat(' ', (k - usage_cell@.len()) as nat),
        decreases column - k,
    {
        head_chars.push(' ');
        assert(repeat(' ', (k + 1 - usage_cell@.len()) as nat) =~= repeat(' ', (k - usage_cell@.len()) as nat).push(' '));
        k = k + 1;
    }
    assert(repeat(' ', INDENT as nat) =~= seq![' ', ' ']);
    if usage_cell.len() < column {
        assert(k == column);
        assert(pad_end(usage_cell@, column as int) == usage_cell@ + repeat(' ', (column - usage_cell@.len()) as nat));
        assert(head_chars@ =~= repeat(' ', INDENT as nat) + pad_end(usage_cell@, column as int));
    } else {
        assert(repeat(' ', (k - usage_cell@.len()) as nat) =~= Seq::<char>::empty());
        assert(head_chars@ =~= repeat(' ', INDENT as nat) + pad_end(usage_cell@, column as int));
    }
    let head_width = if width < INDENT + column {
        width
    } else {
        INDENT + column
    };
    let mut line = cut(head_chars.as_slice(), head_width);
    let head_len = line.unicode_len();
    let room = width.saturating_sub(head_len + GAP);
    if room > 0 {
        push_char(&mut line, ' ');
        let summary = truncate(command.summary, room);
        line.append(summary.as_str());
        assert(repeat(' ', GAP as nat) =~= seq![' ']);
    }
    line
}

/// The overlay's closing line.
pub const FOOTER: &'static str = "esc close · ? lists the keys instead";

/// One group's heading and rows.
pub open spec fn group_view(group: Group, width: int) -> Seq<Seq<char>> {
    seq![indented_view(group.spec_label(), width)] + of_group(shown(all_view()), group).map_values(
        |c: CommandView| row_view(c, width),
    )
}

/// Every line of the overlay: each group's heading and rows, a blank line
/// between groups, and the closing line.
pub open spec fn lines_view(width: int) -> Seq<Seq<char>> {
    group_view(Group::Server, width) + seq![Seq::empty()] + group_view(Group::Config, width) + seq![
        Seq::empty(),
    ] + group_view(Group::Other, width) + seq![Seq::empty(), indented_view(FOOTER@, width)]
}

/// Appends one group's heading and rows.
fn push_group(lines: &mut Vec<String>, group: Group, width: usize)
    requires
        forall|i: int| 0 <= i < old(lines)@.len() ==> (#[trigger] old(lines)@[i])@.len() <= width,
    ensures
        strings_view(final(lines)@) == strings_view(old(lines)@) + group_view(group, width as int),
        forall|i: int| 0 <= i < final(lines)@.len() ==> (#[trigger] final(lines)@[i])@.len() <= width,
{
    let ghost start = strings_view(lines@);
    let ghost start_len = lines@.len();
    lines.push(indented(group.label(), width));
    assert(strings_view(lines@) =~= start + seq![indented_view(group.spec_label(), width as int)]);
    let commands = in_group(group);
    let ghost rows = views(commands@).map_values(|c: CommandView| row_view(c, width as int));
    for i in 0..commands.len()
        invariant
            strings_view(lines@) == start + seq![indented_view(group.spec_label(), width as int)]
                + rows.subrange(0, i as int),
            rows == views(commands@).map_values(|c: CommandView| row_view(c, width as int)),
            lines@.len() == start_len + 1 + i,
            forall|j: int| 0 <= j < lines@.len() ==> (#[trigger] lines@[j])@.len() <= width,
    {
        let ghost before = lines@;
        let line = row(&commands[i], width);
        lines.push(line);
        assert(strings_view(lines@) =~= strings_view(before).push(line@));
        assert(rows.subrange(0, i + 1) =~= rows.subrange(0, i as int).push(rows[i as int]));
        assert(strings_view(lines@) =~= start + seq![indented_view(group.spec_label(), width as int)]
            + rows.subrange(0, i + 1));
    }
    assert(rows.subrange(0, rows.len() as int) =~= rows);
    assert(strings_view(lines@) =~= start + group_view(group, width as int));
}

/// Appends one line.
fn push_line(lines: &mut Vec<String>, line: String, width: usize)
    requires
        line@.len() <= width,
        forall|i: int| 0 <= i < old(lines)@.len() ==> (#[trigger] old(lines)@[i])@.len() <= width,
    ensures
        forall|i: int| 0 <= i < final(lines)@.len() ==> (#[trigger] final(lines)@[i])@.len() <= width,
        final(lines)@ == old(lines)@.push(line),
        strings_view(final(lines)@) == strings_view(old(lines)@).push(line@),
{
    lines.push(line);
    assert(strings_view(lines@) =~= strings_view(old(lines)@).push(line@));
}

/// The listing, cut to a box `width` characters wide. No line runs past
/// the box: a clipped summary reads as one that simply ends there.
pub fn lines(width: usize) -> (res: Vec<String>)
    ensures
        strings_view(res@) == lines_view(width as int),
        forall|i: int| 0 <= i < res@.len() ==> (#[trigger] res@[i])@.len() <= width,
{
    let mut lines: Vec<String> = Vec::new();
    push_group(&mut lines, Group::Server, width);
    push_line(&mut lines, String::new(), width);
    push_group(&mut lines, Group::Config, width);
    push_line(&mut lines, String::new(), width);
    push_group(&mut lines, Group::Other, width);
    push_line(&mut lines, String::new(), width);
    push_line(&mut lines, indented(FOOTER, width), width);
    assert(strings_view(lines@) =~= lines_view(width as int));
    lines
}

/// Each listed command's usage (with its colon) and summary fit the
/// widest of the table.
proof fn lemma_within_the_widest(cs: Seq<CommandView>, i: int)
    requires
        0 <= i < cs.len(),
        !cs[i].hidden,
    ensures
        cs[i].usage.len() + 1 <= max_usage(cs),
        cs[i].summary.len() <= max_summary(cs),
    decreases cs.len(),
{
    if i < cs.len() - 1 {
        assert(cs.drop_last()[i] == cs[i]);
        lemma_within_the_widest(cs.drop_last(), i);
    }
}

/// At the width it asks for, the overlay cuts nothing: every listed
/// command's row carries its whole `:usage`, padded to the usage column,
/// and its whole summary, and the group headings and the closing line are
/// whole too.
pub proof fn lemma_nothing_is_elided_at_the_width_asked_for(i: int, group: Group)
    requires
        0 <= i < all_view().len(),
        !all_view()[i].hidden,
    ensures
        row_view(all_view()[i], content_width_view()) == repeat(' ', INDENT as nat) + pad_end(
            seq![':'] + all_view()[i].usage,
            usage_width_view(),
        ) + seq![' '] + all_view()[i].summary,
        indented_view(group.spec_label(), content_width_view()) == repeat(' ', INDENT as nat)
            + group.spec_label(),
        indented_view(FOOTER@, content_width_view()) == repeat(' ', INDENT as nat) + FOOTER@,
{
    let cs = all_view();
    let c = cs[i];
    let w = content_width_view();
    let u = usage_width_view();
    lemma_within_the_widest(cs, i);
    // The first command is listed and has a summary, so the summary column
    // is not empty.
    reveal_strlit("launch a preset, hot-swapping whatever is running");
    assert(cs[0].summary.len() > 0);
    lemma_within_the_widest(cs, 0);
    let summary_width = max_summary(cs);
    assert(summary_width > 0);
    // The usage column is the widest usage, and every usage fits it.
    assert(column_view(w) == u);
    let usage = seq![':'] + c.usage;
    assert(cut_view(usage, u) == usage);
    let padded = repeat(' ', INDENT as nat) + pad_end(usage, u);
    assert(pad_end(usage, u).len() == u);
    assert(cut_view(padded, INDENT + u) == padded);
    // What is left for the summary is the widest summary, which it fits.
    assert(cut_view(c.summary, summary_width) == c.summary);
    assert(repeat(' ', GAP as nat) =~= seq![' ']);
    // Every heading and the closing line are narrower than the box.
    reveal_strlit("llama-server");
    reveal_strlit("models.ini");
    reveal_strlit("other");
    reveal_strlit("esc close · ? lists the keys instead");
    reveal_strlit("launch <model> [-- args]");
    lemma_within_the_widest(cs, 0);
    assert(u >= 25);
}

} // verus!
