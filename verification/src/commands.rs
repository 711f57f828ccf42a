//! The command bar's vocabulary, as data.
//!
//! This table is what `:help` renders and what dispatch matches on, so a
//! command that is listed here must be handled by something, and a
//! command nobody can find is a command that does not exist.

use vstd::prelude::*;
use crate::text::{chars_of, is_space, same_chars, split_words, vecs_view, words, words_from};

verus! {

/// Who actually runs a command.
#[derive(Debug, Clone, Copy, PartialEq, Eq, Structural)]
pub enum Handler {
    /// Answered by the application itself: local, synchronous, no process.
    App,
    /// Answered by the executor, because it needs the supervised process
    /// or an asynchronous call.
    Launcher,
    /// Falls through to the generic shell runner.
    Script,
}

/// What the overlay groups commands under. Ordered as the sections are
/// shown, most load-bearing first.
#[derive(Debug, Clone, Copy, PartialEq, Eq, Structural)]
pub enum Group {
    Server,
    Config,
    Other,
}

impl Group {
    pub const ALL: [Group; 3] = [Group::Server, Group::Config, Group::Other];

    /// The group's heading.
    pub open spec fn spec_label(self) -> Seq<char> {
        match self {
            Group::Server => "llama-server"@,
            Group::Config => "models.ini"@,
            Group::Other => "other"@,
        }
    }

    pub fn label(self) -> (res: &'static str)
        ensures
            res@ == self.spec_label(),
    {
        match self {
            Group::Server => "llama-server",
            Group::Config => "models.ini",
            Group::Other => "other",
        }
    }
}

#[derive(Debug, Clone, Copy)]
pub struct Command {
    /// The first token, which is what dispatch matches on.
    pub name: &'static str,
    /// How it is written with its arguments, for the listing.
    pub usage: &'static str,
    pub summary: &'static str,
    pub group: Group,
    pub handler: Handler,
    /// Not listed: `launch!` is emitted by the confirmation prompt and
    /// never typed, so putting it in front of the user would only invite
    /// skipping a check that exists for a reason.
    pub hidden: bool,
    /// A form of the command that can safely be driven against a config
    /// path that does not exist.
    pub probe: &'static str,
}

/// A command as plain values.
#[verifier::ext_equal]
pub struct CommandView {
    pub name: Seq<char>,
    pub usage: Seq<char>,
    pub summary: Seq<char>,
    pub group: Group,
    pub handler: Handler,
    pub hidden: bool,
    pub probe: Seq<char>,
}

impl View for Command {
    type V = CommandView;

    open spec fn view(&self) -> CommandView {
        CommandView {
            name: self.name@,
            usage: self.usage@,
            summary: self.summary@,
            group: self.group,
            handler: self.handler,
            hidden: self.hidden,
            probe: self.probe@,
        }
    }
}

/// The plain values of a list of commands.
pub open spec fn views(cs: Seq<Command>) -> Seq<CommandView> {
    cs.map_values(|c: Command| c@)
}

/// A listed command described by its parts.
pub open spec fn spec_command(
    name: &str,
    usage: &str,
    summary: &str,
    group: Group,
    handler: Handler,
    probe: &str,
) -> CommandView {
    CommandView {
        name: name@,
        usage: usage@,
        summary: summary@,
        group,
        handler,
        hidden: false,
        probe: probe@,
    }
}

/// A listed command.
fn command(
    name: &'static str,
    usage: &'static str,
    summary: &'static str,
    group: Group,
    handler: Handler,
    probe: &'static str,
) -> (res: Command)
    ensures
        res@ == spec_command(name, usage, summary, group, handler, probe),
{
    Command { name, usage, summary, group, handler, hidden: false, probe }
}

/// Every command, in table order.
pub open spec fn all_view() -> Seq<CommandView> {
    seq![
        spec_command("launch", "launch <model> [-- args]", "launch a preset, hot-swapping whatever is running", Group::Server, Handler::Launcher, "launch"),
        CommandView { hidden: true, ..spec_command("launch!", "launch! <model>", "the same, skipping the port-in-use check — emitted by the prompt, not typed", Group::Server, Handler::Launcher, "launch!") },
        spec_command("router", "router [--max N] [--idle S]", "start llama-server's own multi-model router", Group::Server, Handler::Launcher, "router"),
        spec_command("stop", "stop", "stop the supervised process, even while something else is busy", Group::Server, Handler::Launcher, "stop"),
        spec_command("status", "status", "is the server reachable, and what has it loaded", Group::Server, Handler::Launcher, "status"),
        spec_command("ping", "ping <model>", "send one chat completion and print the reply", Group::Server, Handler::Launcher, "ping"),
        spec_command("cache", "cache", "ask llama.cpp again what it has locally", Group::Config, Handler::Launcher, "cache"),
        spec_command("models", "models", "re-read models.ini and report what it holds", Group::Config, Handler::App, "models"),
        spec_command("reload", "reload", "the same thing, under the name that comes to mind first", Group::Config, Handler::App, "reload"),
        spec_command("help", "help", "this list", Group::Other, Handler::App, "help"),
        spec_command("sh", "sh <command>", "run a shell command and print its output", Group::Other, Handler::Script, "sh true"),    ]
}

/// Every command, in table order.
pub fn all() -> (res: Vec<Command>)
    ensures
        views(res@) == all_view(),
{
    let res = vec![
        command(
            "launch",
            "launch <model> [-- args]",
            "launch a preset, hot-swapping whatever is running",
            Group::Server,
            Handler::Launcher,
            "launch",
        ),
        Command {
            hidden: true,
            ..command(
                "launch!",
                "launch! <model>",
                "the same, skipping the port-in-use check — emitted by the prompt, not typed",
                Group::Server,
                Handler::Launcher,
                "launch!",
            )
        },
        command(
            "router",
            "router [--max N] [--idle S]",
            "start llama-server's own multi-model router",
            Group::Server,
            Handler::Launcher,
            "router",
        ),
        command(
            "stop",
            "stop",
            "stop the supervised process, even while something else is busy",
            Group::Server,
            Handler::Launcher,
            "stop",
        ),
        command(
            "status",
            "status",
            "is the server reachable, and what has it loaded",
            Group::Server,
            Handler::Launcher,
            "status",
        ),
        command(
            "ping",
            "ping <model>",
            "send one chat completion and print the reply",
            Group::Server,
            Handler::Launcher,
            "ping",
        ),
        command(
            "cache",
            "cache",
            "ask llama.cpp again what it has locally",
            Group::Config,
            Handler::Launcher,
            "cache",
        ),
        command(
            "models",
            "models",
            "re-read models.ini and report what it holds",
            Group::Config,
            Handler::App,
            "models",
        ),
        command(
            "reload",
            "reload",
            "the same thing, under the name that comes to mind first",
            Group::Config,
            Handler::App,
            "reload",
        ),
        command(
            "help",
            "help",
            "this list",
            Group::Other,
            Handler::App,
            "help",
        ),
        command(
            "sh",
            "sh <command>",
            "run a shell command and print its output",
            Group::Other,
            Handler::Script,
            "sh true",
        ),    ];
    assert(views(res@) =~~= all_view());
    res
}

/// The commands of `cs` that are shown to a user, in order.
pub open spec fn shown(cs: Seq<CommandView>) -> Seq<CommandView>
    decreases cs.len(),
{
    if cs.len() == 0 {
        Seq::empty()
    } else if !cs.last().hidden {
        shown(cs.drop_last()).push(cs.last())
    } else {
        shown(cs.drop_last())
    }
}

/// The commands of `cs` in `group`, in order.
pub open spec fn of_group(cs: Seq<CommandView>, group: Group) -> Seq<CommandView>
    decreases cs.len(),
{
    if cs.len() == 0 {
        Seq::empty()
    } else if cs.last().group == group {
        of_group(cs.drop_last(), group).push(cs.last())
    } else {
        of_group(cs.drop_last(), group)
    }
}

/// Everything worth showing a user, in table order.
pub fn visible() -> (res: Vec<Command>)
    ensures
        views(res@) == shown(all_view()),
{
    let table = all();
    let mut out: Vec<Command> = Vec::new();
    for i in 0..table.len()
        invariant
            views(out@) == shown(views(table@).subrange(0, i as int)),
    {
        let c = table[i];
        let ghost taken = views(table@).subrange(0, i + 1);
        assert(taken.drop_last() =~= views(table@).subrange(0, i as int));
        if !c.hidden {
            out.push(c);
            assert(views(out@) =~= shown(taken));
        }
    }
    assert(views(table@).subrange(0, table@.len() as int) =~= views(table@));
    out
}

/// The visible commands of one group.
pub fn in_group(group: Group) -> (res: Vec<Command>)
    ensures
        views(res@) == of_group(shown(all_view()), group),
{
    let listed = visible();
    let mut out: Vec<Command> = Vec::new();
    for i in 0..listed.len()
        invariant
            views(out@) == of_group(views(listed@).subrange(0, i as int), group),
    {
        let c = listed[i];
        let ghost taken = views(listed@).subrange(0, i + 1);
        assert(taken.drop_last() =~= views(listed@).subrange(0, i as int));
        if c.group == group {
            out.push(c);
            assert(views(out@) =~= of_group(taken, group));
        }
    }
    assert(views(listed@).subrange(0, listed@.len() as int) =~= views(listed@));
    out
}

/// The first command of `cs`, from `i` on, named `name`; -1 if none is.
pub open spec fn named_from(cs: Seq<CommandView>, name: Seq<char>, i: int) -> int
    decreases cs.len() - i,
{
    if i < 0 || i >= cs.len() {
        -1
    } else if cs[i].name == name {
        i
    } else {
        named_from(cs, name, i + 1)
    }
}

/// Which entry of the table a typed line invokes: the first whose name is
/// the line's first word.
pub open spec fn find_view(line: Seq<char>) -> Option<int> {
    let w = words(line);
    if w.len() == 0 {
        None
    } else {
        let i = named_from(all_view(), w[0], 0);
        if i >= 0 {
            Some(i)
        } else {
            None
        }
    }
}

/// The command a typed line invokes, matched on its first token. What the
/// command bar names while a line is being typed.
pub fn find(line: &str) -> (res: Option<Command>)
    ensures
        match res {
            Some(c) => find_view(line@) matches Some(i) && all_view()[i] == c@,
            None => find_view(line@) is None,
        },
{
    let chars = chars_of(line);
    let tokens = split_words(chars.as_slice());
    if tokens.len() == 0 {
        return None;
    }
    let name = &tokens[0];
    assert(vecs_view(tokens@)[0] == name@);
    assert(words(line@)[0] == name@);
    let table = all();
    let ghost cs = views(table@);
    let mut i: usize = 0;
    while i < table.len()
        invariant
            cs == views(table@),
            cs == all_view(),
            words(line@).len() > 0,
            words(line@)[0] == name@,
            i <= cs.len(),
            named_from(cs, name@, 0) == named_from(cs, name@, i as int),
        decreases table.len() - i,
    {
        let c = table[i];
        let candidate = chars_of(c.name);
        if same_chars(candidate.as_slice(), name.as_slice()) {
            assert(cs[i as int] == c@);
            assert(named_from(cs, name@, i as int) == i as int);
            assert(words(line@)[0] == name@);
            return Some(c);
        }
        i = i + 1;
    }
    None
}

/// A probe that is a single word is its own first word.
proof fn lemma_single_word(s: Seq<char>, i: int)
    requires
        0 <= i <= s.len(),
        s.len() > 0,
        forall|j: int| 0 <= j < s.len() ==> !is_space(#[trigger] s[j]),
    ensures
        words_from(s, i, s.subrange(0, i)) == seq![s],
    decreases s.len() - i,
{
    if i < s.len() {
        assert(s.subrange(0, i).push(s[i]) =~= s.subrange(0, i + 1));
        lemma_single_word(s, i + 1);
    } else {
        assert(s.subrange(0, i) =~= s);
    }
}

/// The first word of `s` is what stands before its first space.
proof fn lemma_first_word(s: Seq<char>, k: int, i: int)
    requires
        0 < k < s.len(),
        0 <= i <= k,
        forall|j: int| 0 <= j < k ==> !is_space(#[trigger] s[j]),
        is_space(s[k]),
    ensures
        words_from(s, i, s.subrange(0, i)) == seq![s.subrange(0, k)] + words_from(s, k + 1, Seq::empty()),
    decreases k - i,
{
    if i < k {
        assert(s.subrange(0, i).push(s[i]) =~= s.subrange(0, i + 1));
        lemma_first_word(s, k, i + 1);
    }
}

/// The names the table dispatches on are all different.
pub proof fn lemma_a_name_is_never_listed_twice(i: int, j: int)
    requires
        0 <= i < j < all_view().len(),
    ensures
        all_view()[i].name != all_view()[j].name,
{
    reveal_strlit("launch");
    reveal_strlit("launch!");
    reveal_strlit("router");
    reveal_strlit("stop");
    reveal_strlit("status");
    reveal_strlit("ping");
    reveal_strlit("cache");
    reveal_strlit("models");
    reveal_strlit("reload");
    reveal_strlit("help");
    reveal_strlit("sh");
    let a = all_view()[i].name;
    let b = all_view()[j].name;
    if a.len() == b.len() {
        assert(a[0] != b[0] || a[1] != b[1] || a[2] != b[2] || a[3] != b[3]);
    }
}

/// Every command is found from its own probe line: a command nobody can
/// reach by typing is a command that does not exist.
pub proof fn lemma_every_command_is_findable_by_its_probe(i: int)
    requires
        0 <= i < all_view().len(),
    ensures
        find_view(all_view()[i].probe) == Some(i),
{
    reveal_strlit("launch");
    reveal_strlit("launch!");
    reveal_strlit("router");
    reveal_strlit("stop");
    reveal_strlit("status");
    reveal_strlit("ping");
    reveal_strlit("cache");
    reveal_strlit("models");
    reveal_strlit("reload");
    reveal_strlit("help");
    reveal_strlit("sh");
    reveal_strlit("sh true");
    let c = all_view()[i];
    let probe = c.probe;
    if i == 10 {
        lemma_first_word(probe, 2, 0);
        assert(probe.subrange(0, 2) =~= c.name);
        assert(probe.subrange(0, 0) =~= Seq::<char>::empty());
    } else {
        assert(probe == c.name);
        assert forall|j: int| 0 <= j < probe.len() implies !is_space(#[trigger] probe[j]) by {
        }
        lemma_single_word(probe, 0);
        assert(probe.subrange(0, 0) =~= Seq::<char>::empty());
    }
    assert(words(probe)[0] == c.name);
    assert forall|j: int| 0 <= j < i implies all_view()[j].name != c.name by {
        lemma_a_name_is_never_listed_twice(j, i);
    }
    lemma_named_from_first(all_view(), c.name, 0, i);
}

/// `named_from` lands on the first entry carrying the name.
proof fn lemma_named_from_first(cs: Seq<CommandView>, name: Seq<char>, from: int, i: int)
    requires
        0 <= from <= i < cs.len(),
        cs[i].name == name,
        forall|j: int| from <= j < i ==> cs[j].name != name,
    ensures
        named_from(cs, name, from) == i,
    decreases i - from,
{
    if from < i {
        lemma_named_from_first(cs, name, from + 1, i);
    }
}

/// What `named_from` finds: -1 when no entry from `from` on carries the
/// name, else the first that does.
proof fn lemma_named_from_finds_the_first(cs: Seq<CommandView>, name: Seq<char>, from: int)
    requires
        0 <= from,
    ensures
        named_from(cs, name, from) == -1 ==> forall|j: int| from <= j < cs.len() ==> #[trigger] cs[j].name != name,
        named_from(cs, name, from) != -1 ==> {
            let r = named_from(cs, name, from);
            &&& from <= r < cs.len()
            &&& cs[r].name == name
            &&& forall|j: int| from <= j < r ==> #[trigger] cs[j].name != name
        },
    decreases cs.len() - from,
{
    if from < cs.len() && cs[from].name != name {
        lemma_named_from_finds_the_first(cs, name, from + 1);
    }
}

/// A line invokes the command named by its first whitespace-separated
/// word, and nothing else: `find_view` is `Some(i)` exactly when the line
/// has a first word and entry `i` is the (only) entry with that name, and
/// `None` when the line is blank or its first word names no command.
pub proof fn lemma_a_line_finds_the_command_its_first_word_names(line: Seq<char>)
    ensures
        match find_view(line) {
            Some(i) => words(line).len() > 0 && 0 <= i < all_view().len() && all_view()[i].name == words(
                line,
            )[0],
            None => words(line).len() == 0 || forall|j: int|
                0 <= j < all_view().len() ==> #[trigger] all_view()[j].name != words(line)[0],
        },
{
    let w = words(line);
    if w.len() > 0 {
        lemma_named_from_finds_the_first(all_view(), w[0], 0);
    }
}

/// The usage line starts with the name it is filed under, or the listing
/// would send the reader to type something that does not dispatch.
pub proof fn lemma_a_usage_line_begins_with_its_own_command(i: int)
    requires
        0 <= i < all_view().len(),
    ensures
        all_view()[i].name.len() <= all_view()[i].usage.len(),
        all_view()[i].usage.subrange(0, all_view()[i].name.len() as int) == all_view()[i].name,
{
    reveal_strlit("launch");
    reveal_strlit("launch!");
    reveal_strlit("router");
    reveal_strlit("stop");
    reveal_strlit("status");
    reveal_strlit("ping");
    reveal_strlit("cache");
    reveal_strlit("models");
    reveal_strlit("reload");
    reveal_strlit("help");
    reveal_strlit("sh");
    reveal_strlit("launch <model> [-- args]");
    reveal_strlit("launch! <model>");
    reveal_strlit("router [--max N] [--idle S]");
    reveal_strlit("stop");
    reveal_strlit("status");
    reveal_strlit("ping <model>");
    reveal_strlit("cache");
    reveal_strlit("models");
    reveal_strlit("reload");
    reveal_strlit("help");
    reveal_strlit("sh <command>");
    let c = all_view()[i];
    assert(c.usage.subrange(0, c.name.len() as int) =~= c.name);
}

/// Exactly one command (`launch!`) is kept out of the listing, and every
/// group still has something in it, so the overlay never draws an empty
/// heading.
pub proof fn lemma_every_group_lists_something(group: Group)
    ensures
        of_group(shown(all_view()), group).len() > 0,
        shown(all_view()).len() + 1 == all_view().len(),
{
    reveal_with_fuel(shown, 12);
    reveal_with_fuel(of_group, 11);
}

} // verus!
