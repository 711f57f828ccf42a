//! The Models screen's pieces that are text: the lifecycle marker on a
//! preset row, cells cut to their column, and the argv preview laid out
//! the way a shell user would write it.

use vstd::prelude::*;
use vstd::string::*;
use crate::app::{ModelRow, ServerState};
use crate::components::hub::{pad_end, pad_start, push_padded_end, push_padded_start};
use crate::text::{
    chars_of, ellipsis, is_space, lemma_blank_has_no_words, lemma_words_single, lemma_words_spaces_after,
    lemma_words_split, lemma_words_trim_end, push_char, push_chars, spaces_from, string_of, strings_view,
    trim, trim_bounds, trim_end_at, vecs_view, words,
};

verus! {

/// Marker shown against a preset row.
pub open spec fn glyph_view(state: ServerState, is_active: bool) -> char {
    if !is_active {
        ' '
    } else {
        match state {
            ServerState::Serving => '●',
            ServerState::Starting | ServerState::Stopping => '◐',
            ServerState::Error(_) => '✖',
            ServerState::Off => ' ',
        }
    }
}

/// Marker shown against a preset row.
///
/// Driven by the lifecycle, not merely by a name match: a model that has
/// been stopped or has died loses its marker at once, or the row would
/// keep looking like the active server long after it is gone.
pub fn lifecycle_glyph(state: &ServerState, is_active: bool) -> (res: char)
    ensures
        res == glyph_view(*state, is_active),
{
    if !is_active {
        return ' ';
    }
    match state {
        ServerState::Serving => '●',
        ServerState::Starting | ServerState::Stopping => '◐',
        ServerState::Error(_) => '✖',
        ServerState::Off => ' ',
    }
}

/// `text` cut to `width` characters, the last one an ellipsis when it
/// was cut.
pub open spec fn truncate_view(text: Seq<char>, width: int) -> Seq<char> {
    if text.len() <= width {
        text
    } else {
        text.subrange(0, if width > 1 { width - 1 } else { 0 }) + seq![ellipsis()]
    }
}

/// Cuts a cell to its column, and says that it did.
pub fn truncate(text: &str, width: usize) -> (res: String)
    ensures
        res@ == truncate_view(text@, width as int),
        width > 0 ==> res@.len() <= width,
{
    let chars = chars_of(text);
    if chars.len() <= width {
        return string_of(chars.as_slice());
    }
    let keep = if width > 1 {
        width - 1
    } else {
        0
    };
    let mut out = String::new();
    for i in 0..keep
        invariant
            keep < chars@.len(),
            out@ == chars@.subrange(0, i as int),
    {
        push_char(&mut out, chars[i]);
    }
    push_char(&mut out, '…');
    out
}

/// How many bytes a character takes in UTF-8.
pub open spec fn utf8_width(c: char) -> int {
    let n = c as u32;
    if n < 0x80 {
        1
    } else if n < 0x800 {
        2
    } else if n < 0x10000 {
        3
    } else {
        4
    }
}

/// How many bytes `s` takes in UTF-8 (`str::len`).
pub open spec fn utf8_len(s: Seq<char>) -> int
    decreases s.len(),
{
    if s.len() == 0 {
        0
    } else {
        utf8_len(s.drop_last()) + utf8_width(s.last())
    }
}

/// `str::trim_end`.
pub open spec fn trim_end(s: Seq<char>) -> Seq<char> {
    s.subrange(0, trim_end_at(s, s.len() as int))
}

/// Whether a token starts a new line of the preview: it is an option, and
/// the line being built already holds something and is past 40 bytes.
pub open spec fn breaks_before(current: Seq<char>, token: Seq<char>) -> bool {
    token.len() > 0 && token[0] == '-' && utf8_len(trim(current)) > 2 && utf8_len(current) > 40
}

/// The lines finished and the line being built after laying out `argv`
/// from token `i` on.
pub open spec fn wrap_from(argv: Seq<Seq<char>>, i: int, lines: Seq<Seq<char>>, current: Seq<char>) -> (
    Seq<Seq<char>>,
    Seq<char>,
)
    decreases argv.len() - i,
{
    if i < 0 || i >= argv.len() {
        (lines, current)
    } else if breaks_before(current, argv[i]) {
        wrap_from(argv, i + 1, lines.push(trim_end(current) + " \\"@), "  "@ + argv[i] + seq![' '])
    } else {
        wrap_from(argv, i + 1, lines, current + argv[i] + seq![' '])
    }
}

/// Lines joined by newlines.
pub open spec fn join_lines(lines: Seq<Seq<char>>) -> Seq<char>
    decreases lines.len(),
{
    if lines.len() == 0 {
        Seq::empty()
    } else if lines.len() == 1 {
        lines[0]
    } else {
        join_lines(lines.drop_last()) + seq!['\n'] + lines.last()
    }
}

/// The preview: the binary, then one logical option per line.
pub open spec fn wrap_argv_view(argv: Seq<Seq<char>>) -> Seq<char> {
    let (lines, current) = wrap_from(argv, 0, seq!["llama-server \\"@], "  "@);
    join_lines(
        if trim(current).len() > 0 {
            lines.push(trim_end(current))
        } else {
            lines
        },
    )
}

/// The UTF-8 length of `s[lo..hi]`.
fn byte_len(s: &[char], lo: usize, hi: usize) -> (res: u128)
    requires
        lo <= hi <= s@.len(),
    ensures
        res == utf8_len(s@.subrange(lo as int, hi as int)),
{
    let mut total: u128 = 0;
    for i in lo..hi
        invariant
            lo <= hi <= s@.len(),
            total == utf8_len(s@.subrange(lo as int, i as int)),
            total <= 4 * (i - lo),
    {
        let n = s[i] as u32;
        let w: u128 = if n < 0x80 {
            1
        } else if n < 0x800 {
            2
        } else if n < 0x10000 {
            3
        } else {
            4
        };
        assert(s@.subrange(lo as int, i + 1).drop_last() =~= s@.subrange(lo as int, i as int));
        total = total + w;
    }
    total
}

/// Characters without their trailing whitespace.
fn trim_end_chars(s: &[char]) -> (res: Vec<char>)
    ensures
        res@ == trim_end(s@),
{
    let mut end = s.len();
    while end > 0 && crate::text::is_whitespace(s[end - 1])
        invariant
            end <= s@.len(),
            trim_end_at(s@, s@.len() as int) == trim_end_at(s@, end as int),
        decreases end,
    {
        end = end - 1;
    }
    let mut v: Vec<char> = Vec::new();
    for i in 0..end
        invariant
            end <= s@.len(),
            v@ == s@.subrange(0, i as int),
    {
        v.push(s[i]);
    }
    v
}

/// Whether the next token starts a new preview line.
fn breaks(current: &[char], token: &[char]) -> (res: bool)
    ensures
        res == breaks_before(current@, token@),
{
    if token.len() == 0 || token[0] != '-' {
        return false;
    }
    let (lo, hi) = trim_bounds(current);
    byte_len(current, lo, hi) > 2 && byte_len(current, 0, current.len()) > 40 && {
        assert(current@.subrange(0, current@.len() as int) =~= current@);
        true
    }
}

/// Renders the argv the way a shell user would write it: one logical
/// option per line, so a 20-flag command stays readable.
pub fn wrap_argv(argv: &[String]) -> (res: String)
    ensures
        res@ == wrap_argv_view(strings_view(argv@)),
{
    let ghost a = strings_view(argv@);
    let mut lines: Vec<Vec<char>> = Vec::new();
    lines.push(chars_of("llama-server \\"));
    let mut current: Vec<char> = chars_of("  ");
    assert(vecs_view(lines@) =~= seq!["llama-server \\"@]);
    for i in 0..argv.len()
        invariant
            a == strings_view(argv@),
            wrap_from(a, 0, seq!["llama-server \\"@], "  "@) == wrap_from(
                a,
                i as int,
                vecs_view(lines@),
                current@,
            ),
    {
        let token = chars_of(argv[i].as_str());
        assert(token@ == a[i as int]);
        if breaks(current.as_slice(), token.as_slice()) {
            let ghost before = vecs_view(lines@);
            let mut line = trim_end_chars(current.as_slice());
            line.push(' ');
            line.push('\\');
            assert(line@ =~= trim_end(current@) + " \\"@) by {
                reveal_strlit(" \\");
            }
            lines.push(line);
            assert(vecs_view(lines@) =~= before.push(line@));
            current = chars_of("  ");
        }
        let ghost begun = current@;
        for j in 0..token.len()
            invariant
                current@ == begun + token@.subrange(0, j as int),
        {
            current.push(token[j]);
            assert(token@.subrange(0, j + 1) =~= token@.subrange(0, j as int).push(token@[j as int]));
        }
        current.push(' ');
        assert(current@ =~= begun + token@ + seq![' ']);
    }
    let ghost finished = vecs_view(lines@);
    let (lo, hi) = trim_bounds(current.as_slice());
    if hi > lo {
        let last = trim_end_chars(current.as_slice());
        lines.push(last);
        assert(vecs_view(lines@) =~= finished.push(trim_end(current@)));
    }
    assert(vecs_view(lines@) == (if trim(current@).len() > 0 {
        finished.push(trim_end(current@))
    } else {
        finished
    }));
    let mut out = String::new();
    for k in 0..lines.len()
        invariant
            out@ == join_lines(vecs_view(lines@).subrange(0, k as int)),
    {
        let ghost taken = vecs_view(lines@).subrange(0, k + 1);
        assert(taken.drop_last() =~= vecs_view(lines@).subrange(0, k as int));
        if k > 0 {
            push_char(&mut out, '\n');
        }
        push_chars(&mut out, lines[k].as_slice());
        assert(out@ =~= join_lines(taken));
    }
    assert(vecs_view(lines@).subrange(0, lines@.len() as int) =~= vecs_view(lines@));
    out
}

/// One line of the preset table: the marker, then the name, repo,
/// context size, memory size, whether it is local, and the speculative
/// head, each in its column.
pub open spec fn table_line(
    marker: Seq<char>,
    name: Seq<char>,
    repo: Seq<char>,
    ctx: Seq<char>,
    ram: Seq<char>,
    local: Seq<char>,
    spec: Seq<char>,
) -> Seq<char> {
    marker + pad_end(name, 22) + seq![' '] + pad_end(repo, 30) + seq![' '] + pad_start(ctx, 7) + seq![' ']
        + pad_start(ram, 6) + seq![' '] + pad_start(local, 10) + seq![' ', ' '] + spec
}

/// Lays out one table line.
fn push_table_line(
    line: &mut String,
    name: &str,
    repo: &str,
    ctx: &str,
    ram: &str,
    local: &str,
    spec: &str,
)
    ensures
        final(line)@ == table_line(old(line)@, name@, repo@, ctx@, ram@, local@, spec@),
{
    push_padded_end(line, name, 22);
    push_char(line, ' ');
    push_padded_end(line, repo, 30);
    push_char(line, ' ');
    push_padded_start(line, ctx, 7);
    push_char(line, ' ');
    push_padded_start(line, ram, 6);
    push_char(line, ' ');
    push_padded_start(line, local, 10);
    push_char(line, ' ');
    push_char(line, ' ');
    line.append(spec);
    assert(line@ =~= table_line(old(line)@, name@, repo@, ctx@, ram@, local@, spec@));
}

/// The table's column headings, over the cells they name.
pub fn table_header() -> (res: String)
    ensures
        res@ == table_line("  "@, "NAME"@, "REPO"@, "CTX"@, "RAM"@, "LOCAL"@, "SPEC"@),
{
    let mut line = String::from_str("  ");
    push_table_line(&mut line, "NAME", "REPO", "CTX", "RAM", "LOCAL", "SPEC");
    line
}

/// One preset's line: `▸` on the highlighted row, the lifecycle glyph,
/// then its cells; the repo is cut to its column and says so. `ram` is
/// the memory figure as the sizing renders it and `local` whether the
/// weights are on this machine.
pub fn table_row(selected: bool, glyph: char, row: &ModelRow, ram: &str, local: &str) -> (res: String)
    ensures
        res@ == table_line(
            seq![if selected { '▸' } else { ' ' }, glyph],
            row.name@,
            truncate_view(row.repo@, 30),
            row.ctx@,
            ram@,
            local@,
            row.spec@,
        ),
{
    let mut line = String::new();
    push_char(&mut line, if selected { '▸' } else { ' ' });
    push_char(&mut line, glyph);
    let repo = truncate(row.repo.as_str(), 30);
    push_table_line(&mut line, row.name.as_str(), repo.as_str(), row.ctx.as_str(), ram, local, row.spec.as_str());
    line
}

/// What the table says when it has no rows: an empty file, or a filter
/// that matches nothing.
pub open spec fn empty_message_view(filter: Seq<char>) -> Seq<char> {
    if filter.len() == 0 {
        "no presets in this file"@
    } else {
        "no preset matches '"@ + filter + "'"@
    }
}

/// The table's message when there is nothing to list.
pub fn empty_message(filter: &str) -> (res: String)
    ensures
        res@ == empty_message_view(filter@),
{
    if filter.unicode_len() == 0 {
        return String::from_str("no presets in this file");
    }
    let mut message = String::from_str("no preset matches '");
    message.append(filter);
    message.append("'");
    message
}

/// The words of each line, one line after another.
pub open spec fn words_of_lines(lines: Seq<Seq<char>>) -> Seq<Seq<char>>
    decreases lines.len(),
{
    if lines.len() == 0 {
        Seq::empty()
    } else {
        words_of_lines(lines.drop_last()) + words(lines.last())
    }
}

/// The words other than the continuation mark `\`.
pub open spec fn unmarked(ws: Seq<Seq<char>>) -> Seq<Seq<char>>
    decreases ws.len(),
{
    if ws.len() == 0 {
        Seq::empty()
    } else {
        unmarked(ws.drop_last()) + if ws.last() == "\\"@ {
            Seq::<Seq<char>>::empty()
        } else {
            seq![ws.last()]
        }
    }
}

/// An argument that reads as one word: not empty, no whitespace in it,
/// and not the continuation mark itself.
pub open spec fn plain_token(t: Seq<char>) -> bool {
    &&& t.len() > 0
    &&& forall|j: int| 0 <= j < t.len() ==> !is_space(#[trigger] t[j])
    &&& t != "\\"@
}

proof fn lemma_unmarked_add(a: Seq<Seq<char>>, b: Seq<Seq<char>>)
    ensures
        unmarked(a + b) == unmarked(a) + unmarked(b),
    decreases b.len(),
{
    if b.len() == 0 {
        assert(a + b =~= a);
        assert(unmarked(a) + unmarked(b) =~= unmarked(a));
    } else {
        lemma_unmarked_add(a, b.drop_last());
        assert((a + b).drop_last() =~= a + b.drop_last());
        assert((a + b).last() == b.last());
        let tail = if b.last() == "\\"@ {
            Seq::<Seq<char>>::empty()
        } else {
            seq![b.last()]
        };
        assert(unmarked(a) + unmarked(b.drop_last()) + tail =~= unmarked(a) + (unmarked(b.drop_last()) + tail));
    }
}

/// Lines joined by newlines hold the words of each line in turn.
proof fn lemma_join_words(lines: Seq<Seq<char>>)
    ensures
        words(join_lines(lines)) == words_of_lines(lines),
    decreases lines.len(),
{
    if lines.len() == 0 {
        assert(words(Seq::<char>::empty()) =~= Seq::<Seq<char>>::empty());
    } else if lines.len() == 1 {
        assert(lines.drop_last() =~= Seq::<Seq<char>>::empty());
        assert(Seq::<Seq<char>>::empty() + words(lines.last()) =~= words(lines.last()));
    } else {
        let front = join_lines(lines.drop_last());
        lemma_join_words(lines.drop_last());
        let nl = seq!['\n'];
        assert(spaces_from(nl, 0));
        lemma_words_spaces_after(front, nl);
        assert(is_space((front + nl).last()));
        lemma_words_split(front + nl, lines.last());
        assert(join_lines(lines) == front + nl + lines.last());
        assert(words_of_lines(lines) == words_of_lines(lines.drop_last()) + words(lines.last()));
    }
}

/// A token followed by a space is the one word.
proof fn lemma_token_word(t: Seq<char>)
    requires
        plain_token(t),
    ensures
        words(t + seq![' ']) == seq![t],
{
    assert(spaces_from(seq![' '], 0));
    lemma_words_spaces_after(t, seq![' ']);
    lemma_words_single(t);
}

/// Laying out `argv` from token `i` on adds its tokens, in order, to the
/// words of the lines and the line being built, besides the marks.
proof fn lemma_wrap_from_words(argv: Seq<Seq<char>>, i: int, lines: Seq<Seq<char>>, current: Seq<char>)
    requires
        0 <= i <= argv.len(),
        forall|k: int| 0 <= k < argv.len() ==> plain_token(#[trigger] argv[k]),
        current.len() > 0,
        is_space(current.last()),
    ensures
        ({
            let (l, c) = wrap_from(argv, i, lines, current);
            unmarked(words_of_lines(l) + words(c)) == unmarked(words_of_lines(lines) + words(current))
                + argv.subrange(i, argv.len() as int)
        }),
    decreases argv.len() - i,
{
    reveal_strlit(" \\");
    reveal_strlit("  ");
    reveal_strlit("\\");
    if i >= argv.len() {
        assert(argv.subrange(i, argv.len() as int) =~= Seq::<Seq<char>>::empty());
        let w = unmarked(words_of_lines(lines) + words(current));
        assert(w + Seq::<Seq<char>>::empty() =~= w);
    } else {
        let t = argv[i];
        lemma_token_word(t);
        let before = words_of_lines(lines) + words(current);
        let (nl, nc) = if breaks_before(current, t) {
            (lines.push(trim_end(current) + " \\"@), "  "@ + t + seq![' '])
        } else {
            (lines, current + t + seq![' '])
        };
        if breaks_before(current, t) {
            let x = trim_end(current) + " \\"@;
            let x1 = trim_end(current) + seq![' '];
            assert(x =~= x1 + seq!['\\']);
            assert(spaces_from(seq![' '], 0));
            lemma_words_spaces_after(trim_end(current), seq![' ']);
            lemma_words_trim_end(current);
            lemma_words_split(x1, seq!['\\']);
            lemma_words_single(seq!['\\']);
            assert(seq!['\\'] =~= "\\"@);
            assert(words(x) == words(current) + seq!["\\"@]);
            assert(nl.drop_last() =~= lines);
            assert(words_of_lines(nl) == words_of_lines(lines) + words(x));
            let sp = "  "@;
            assert(nc =~= sp + (t + seq![' ']));
            assert(spaces_from(sp, 0));
            lemma_words_spaces_after(Seq::empty(), sp);
            assert(Seq::<char>::empty() + sp =~= sp);
            assert(words(Seq::<char>::empty()) =~= Seq::<Seq<char>>::empty());
            lemma_words_split(sp, t + seq![' ']);
            assert(words(nc) =~= seq![t]);
            assert(words_of_lines(nl) + words(nc) =~= before + seq!["\\"@] + seq![t]);
            lemma_unmarked_add(before + seq!["\\"@], seq![t]);
            lemma_unmarked_add(before, seq!["\\"@]);
            assert(unmarked(seq!["\\"@]) =~= Seq::<Seq<char>>::empty()) by {
                assert(seq!["\\"@].last() == "\\"@);
                assert(seq!["\\"@].drop_last() =~= Seq::<Seq<char>>::empty());
                assert(unmarked(Seq::<Seq<char>>::empty()) =~= Seq::<Seq<char>>::empty());
            }
            assert(unmarked(seq![t]) =~= seq![t]) by {
                assert(seq![t].drop_last() =~= Seq::<Seq<char>>::empty());
                assert(unmarked(Seq::<Seq<char>>::empty()) =~= Seq::<Seq<char>>::empty());
            }
            assert(unmarked(words_of_lines(nl) + words(nc)) =~= unmarked(before) + seq![t]);
        } else {
            assert(nc =~= current + (t + seq![' ']));
            lemma_words_split(current, t + seq![' ']);
            assert(words_of_lines(nl) + words(nc) =~= before + seq![t]);
            lemma_unmarked_add(before, seq![t]);
            assert(unmarked(seq![t]) =~= seq![t]) by {
                assert(seq![t].drop_last() =~= Seq::<Seq<char>>::empty());
                assert(unmarked(Seq::<Seq<char>>::empty()) =~= Seq::<Seq<char>>::empty());
            }
        }
        assert(nc.last() == ' ');
        lemma_wrap_from_words(argv, i + 1, nl, nc);
        assert(wrap_from(argv, i, lines, current) == wrap_from(argv, i + 1, nl, nc));
        assert(seq![t] + argv.subrange(i + 1, argv.len() as int) =~= argv.subrange(i, argv.len() as int));
    }
}

/// The preview keeps the command whole: read word by word, with the `\`
/// that continue its lines set aside, it is the binary's name and then
/// every argument, in order, none lost, split or merged — whatever lines
/// it was broken into.
pub proof fn lemma_the_preview_carries_every_argument(argv: Seq<Seq<char>>)
    requires
        forall|k: int| 0 <= k < argv.len() ==> plain_token(#[trigger] argv[k]),
    ensures
        unmarked(words(wrap_argv_view(argv))) == seq!["llama-server"@] + argv,
{
    reveal_strlit("llama-server \\");
    reveal_strlit("llama-server");
    reveal_strlit("  ");
    reveal_strlit("\\");
    let first = "llama-server \\"@;
    let start = seq![first];
    let sp = "  "@;
    lemma_wrap_from_words(argv, 0, start, sp);
    let (l, c) = wrap_from(argv, 0, start, sp);
    // The first line: the binary's name and a mark.
    let name = "llama-server"@;
    assert(first =~= name + seq![' '] + seq!['\\']);
    assert(is_space((name + seq![' ']).last()));
    lemma_words_split(name + seq![' '], seq!['\\']);
    assert(spaces_from(seq![' '], 0));
    lemma_words_spaces_after(name, seq![' ']);
    assert forall|j: int| 0 <= j < name.len() implies !is_space(#[trigger] name[j]) by {}
    lemma_words_single(name);
    lemma_words_single(seq!['\\']);
    assert(seq!['\\'] =~= "\\"@);
    assert(words(first) == seq![name, "\\"@]);
    assert(start.drop_last() =~= Seq::<Seq<char>>::empty());
    assert(start.last() == first);
    assert(words_of_lines(Seq::<Seq<char>>::empty()) =~= Seq::<Seq<char>>::empty());
    assert(words_of_lines(start) == words_of_lines(start.drop_last()) + words(start.last()));
    assert(words_of_lines(start) =~= seq![name, "\\"@]);
    assert(spaces_from(sp, 0));
    lemma_words_spaces_after(Seq::empty(), sp);
    assert(Seq::<char>::empty() + sp =~= sp);
    assert(words(Seq::<char>::empty()) =~= Seq::<Seq<char>>::empty());
    assert(words_of_lines(start) + words(sp) =~= seq![name, "\\"@]);
    assert(name != "\\"@) by {
        assert(name.len() != ("\\"@).len());
    }
    assert(unmarked(seq![name]) =~= seq![name]) by {
        assert(seq![name].last() == name);
        assert(seq![name].drop_last() =~= Seq::<Seq<char>>::empty());
        assert(unmarked(Seq::<Seq<char>>::empty()) =~= Seq::<Seq<char>>::empty());
    }
    assert(unmarked(seq![name, "\\"@]) =~= seq![name]) by {
        assert(seq![name, "\\"@].drop_last() =~= seq![name]);
        assert(seq![name, "\\"@].last() == "\\"@);
    }
    assert(argv.subrange(0, argv.len() as int) =~= argv);
    // The last line, when there is one, holds the words of the line being
    // built; when there is none, that line has no words.
    let fin = if trim(c).len() > 0 {
        l.push(trim_end(c))
    } else {
        l
    };
    if trim(c).len() > 0 {
        lemma_words_trim_end(c);
        assert(fin.drop_last() =~= l);
        assert(words_of_lines(fin) == words_of_lines(l) + words(c));
    } else {
        lemma_blank_has_no_words(c);
        assert(words_of_lines(l) + words(c) =~= words_of_lines(l));
    }
    lemma_join_words(fin);
}

} // verus!
