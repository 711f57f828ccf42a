//! The `:about` overlay: which build this is, and what it is running
//! against — the facts a bug report is useless without, each on a line
//! of its own and cut to the box.

use vstd::prelude::*;
use crate::components::hub::{elide_start, elide_start_view, pad_end, push_padded_end};
use crate::text::{chars_of, push_decimal, push_repeat, decimal, repeat, strings_view};

verus! {

/// Box width, and the two indents inside it.
pub const WIDTH: usize = 66;
pub const INDENT: usize = 2;
pub const LABEL: usize = 8;

/// What a value has to fit in: the box, less its borders, the indent,
/// the label column and a space before the right border.
pub const VALUE: usize = 53;

/// Cuts an over-long value from the **left**, keeping the tail.
///
/// These values are mostly paths, and a path is identified by its end:
/// `…/data/32gb/models.ini` says which config is loaded, where
/// `/Users/somebody/Documents/dev…` says only whose machine it is. Same
/// reasoning as the Hub screen's repo column.
pub fn elide(text: &str, width: usize) -> (res: String)
    ensures
        res@ == elide_start_view(text@, width as int),
        res@.len() <= width,
{
    elide_start(text, width)
}

/// What the overlay reports, as plain values. `budget_gib` is the budget
/// for models as the sizing prints it (one decimal); `ram_gib` is `None`
/// when the installed memory could not be read.
pub struct AboutFacts {
    pub version: String,
    pub description: String,
    pub commit: String,
    pub commit_date: String,
    pub config_path: String,
    pub tier: Option<String>,
    pub ram_gib: Option<u64>,
    pub budget_gib: String,
    pub cache_dir: Option<String>,
    pub llama: String,
    pub hf: String,
}

/// A labelled line: the indent, the label padded to its column, and the
/// value cut from the left to what the box leaves it.
pub open spec fn field_view(label: Seq<char>, value: Seq<char>) -> Seq<char> {
    repeat(' ', INDENT as nat) + pad_end(label, LABEL as int) + elide_start_view(value, VALUE as int)
}

/// Whether a commit id names a build from a tree with uncommitted changes.
pub open spec fn is_dirty(commit: Seq<char>) -> bool {
    commit.len() >= 6 && commit.subrange(commit.len() - 6, commit.len() as int) == "-dirty"@
}

/// Said under the build line of a build nobody else can reproduce.
pub const DIRTY: &'static str = "                uncommitted changes — not reproducible";

/// The memory line's value: what is installed and what that leaves for
/// models; an unreadable figure is said to be unknown, never zero.
pub open spec fn memory_view(ram_gib: Option<u64>, budget: Seq<char>) -> Seq<char> {
    match ram_gib {
        Some(gib) => decimal(gib as nat) + " GiB installed · "@ + budget + " GiB for models"@,
        None => "unknown — presets are never flagged as too large"@,
    }
}

/// The text of an optional value, or what stands in for it.
pub open spec fn or_else(value: Option<String>, absent: Seq<char>) -> Seq<char> {
    match value {
        Some(v) => v@,
        None => absent,
    }
}

/// The overlay's lines, top to bottom.
pub open spec fn lines_view(f: AboutFacts) -> Seq<Seq<char>> {
    let head = seq![
        Seq::<char>::empty(),
        "  herd "@ + f.version@,
        "  "@ + f.description@,
        Seq::<char>::empty(),
        field_view("build"@, f.commit@ + " · "@ + f.commit_date@),
    ];
    let dirty = if is_dirty(f.commit@) {
        seq![DIRTY@]
    } else {
        Seq::<Seq<char>>::empty()
    };
    head + dirty + seq![
        Seq::<char>::empty(),
        field_view("config"@, f.config_path@),
        field_view("tier"@, or_else(f.tier, "-"@)),
        field_view("memory"@, memory_view(f.ram_gib, f.budget_gib@)),
        field_view("cache"@, or_else(f.cache_dir, "no HuggingFace cache on this machine"@)),
        field_view("llama"@, f.llama@),
        field_view("hf"@, f.hf@),
        Seq::<char>::empty(),
        "  esc close · ? keys · :help commands"@,
    ]
}

/// One labelled line.
fn field(label: &str, value: &str) -> (res: String)
    ensures
        res@ == field_view(label@, value@),
{
    let mut line = String::new();
    push_repeat(&mut line, ' ', INDENT);
    push_padded_end(&mut line, label, LABEL);
    let cut = elide(value, VALUE);
    line.append(cut.as_str());
    assert(line@ =~= field_view(label@, value@));
    line
}

/// Whether the commit id ends in `-dirty`.
fn dirty(commit: &str) -> (res: bool)
    ensures
        res == is_dirty(commit@),
{
    proof {
        reveal_strlit("-dirty");
    }
    let c = chars_of(commit);
    let d = chars_of("-dirty");
    if c.len() < d.len() {
        return false;
    }
    let off = c.len() - d.len();
    let mut i: usize = 0;
    while i < d.len()
        invariant
            c@ == commit@,
            d@ == "-dirty"@,
            off + d@.len() == c@.len(),
            c@.len() == c.len(),
            i <= d@.len(),
            forall|j: int| 0 <= j < i ==> c@[off + j] == d@[j],
        decreases d@.len() - i,
    {
        if c[off + i] != d[i] {
            assert(c@.subrange(off as int, c@.len() as int)[i as int] != d@[i as int]);
            return false;
        }
        i = i + 1;
    }
    assert(c@.subrange(off as int, c@.len() as int) =~= d@);
    true
}

/// The memory line's value.
fn memory(ram_gib: Option<u64>, budget: &str) -> (res: String)
    ensures
        res@ == memory_view(ram_gib, budget@),
{
    match ram_gib {
        Some(gib) => {
            let mut text = String::new();
            push_decimal(&mut text, gib);
            text.append(" GiB installed · ");
            text.append(budget);
            text.append(" GiB for models");
            assert(text@ =~= memory_view(ram_gib, budget@));
            text
        },
        None => String::from_str("unknown — presets are never flagged as too large"),
    }
}

/// The lines of the `:about` overlay. Everything `--version` prints is
/// here too, so a bug report quoting one matches the other.
pub fn lines(facts: &AboutFacts) -> (res: Vec<String>)
    ensures
        strings_view(res@) == lines_view(*facts),
{
    let mut out: Vec<String> = Vec::new();
    out.push(String::new());
    let mut title = String::from_str("  herd ");
    title.append(facts.version.as_str());
    out.push(title);
    let mut description = String::from_str("  ");
    description.append(facts.description.as_str());
    out.push(description);
    out.push(String::new());
    let mut build = facts.commit.clone();
    build.append(" · ");
    build.append(facts.commit_date.as_str());
    out.push(field("build", build.as_str()));
    let is_dirty = dirty(facts.commit.as_str());
    if is_dirty {
        out.push(String::from_str(DIRTY));
    }
    out.push(String::new());
    out.push(field("config", facts.config_path.as_str()));
    let tier = match &facts.tier {
        Some(t) => field("tier", t.as_str()),
        None => field("tier", "-"),
    };
    out.push(tier);
    let mem = memory(facts.ram_gib, facts.budget_gib.as_str());
    out.push(field("memory", mem.as_str()));
    let cache = match &facts.cache_dir {
        Some(dir) => field("cache", dir.as_str()),
        None => field("cache", "no HuggingFace cache on this machine"),
    };
    out.push(cache);
    out.push(field("llama", facts.llama.as_str()));
    out.push(field("hf", facts.hf.as_str()));
    out.push(String::new());
    out.push(String::from_str("  esc close · ? keys · :help commands"));
    assert(strings_view(out@) =~= lines_view(*facts));
    out
}

/// A labelled line never runs past the box: its value is cut to what the
/// label column leaves.
proof fn lemma_field_fits(label: Seq<char>, value: Seq<char>)
    requires
        label.len() <= LABEL,
    ensures
        field_view(label, value).len() <= WIDTH - 2,
{
    assert(elide_start_view(value, VALUE as int).len() <= VALUE);
}

/// No line of the overlay runs past the box — a path clipped at the
/// border would read as a path that ends there — as long as the version
/// and the description themselves fit on a line.
pub proof fn lemma_no_line_runs_past_the_box(f: AboutFacts)
    requires
        f.version@.len() + 7 <= WIDTH - 2,
        f.description@.len() + 2 <= WIDTH - 2,
    ensures
        forall|i: int| 0 <= i < lines_view(f).len() ==> #[trigger] lines_view(f)[i].len() <= WIDTH - 2,
{
    reveal_strlit("  herd ");
    reveal_strlit("  ");
    reveal_strlit("build");
    reveal_strlit("config");
    reveal_strlit("tier");
    reveal_strlit("memory");
    reveal_strlit("cache");
    reveal_strlit("llama");
    reveal_strlit("hf");
    reveal_strlit("                uncommitted changes — not reproducible");
    reveal_strlit("  esc close · ? keys · :help commands");
    lemma_field_fits("build"@, f.commit@ + " · "@ + f.commit_date@);
    lemma_field_fits("config"@, f.config_path@);
    lemma_field_fits("tier"@, or_else(f.tier, "-"@));
    lemma_field_fits("memory"@, memory_view(f.ram_gib, f.budget_gib@));
    lemma_field_fits("cache"@, or_else(f.cache_dir, "no HuggingFace cache on this machine"@));
    lemma_field_fits("llama"@, f.llama@);
    lemma_field_fits("hf"@, f.hf@);
}

} // verus!
