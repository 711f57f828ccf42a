//! The keymap, as data.
//!
//! This table is the single source the screen footers, the status bar and
//! the `?` overlay all read from, so a key that is handled but documented
//! nowhere cannot happen by accident: writing it down here is what makes
//! it appear anywhere.

use vstd::prelude::*;
use vstd::string::*;
use crate::app::{global_key_view, moved_view, Screen};
use crate::text::{chars_of, push_char, same_chars, string_of};

verus! {

/// One documented binding. Several keys per entry because `j` and `↓` are
/// one idea, not two.
#[derive(Debug, Clone, Copy)]
pub struct Binding {
    /// Canonical key tokens, as produced by [`token`].
    pub keys: &'static [&'static str],
    /// How the keys read on screen (`"j/↓"`).
    pub label: &'static str,
    /// Full description, for the `?` overlay.
    pub action: &'static str,
    /// Two or three words for the footer. A footer that runs past the
    /// edge of the pane is worse than a terse one: the last hint on the
    /// line simply disappears.
    pub short: &'static str,
    /// Whether it earns a place in that footer at all. Everything is
    /// listed in the overlay; only the load-bearing keys make the footer.
    pub brief: bool,
}

/// A binding as plain values.
#[verifier::ext_equal]
pub struct BindingView {
    pub keys: Seq<Seq<char>>,
    pub label: Seq<char>,
    pub action: Seq<char>,
    pub short: Seq<char>,
    pub brief: bool,
}

impl View for Binding {
    type V = BindingView;

    open spec fn view(&self) -> BindingView {
        BindingView {
            keys: self.keys@.map_values(|k: &str| k@),
            label: self.label@,
            action: self.action@,
            short: self.short@,
            brief: self.brief,
        }
    }
}

/// The plain values of a list of bindings.
pub open spec fn views(bs: Seq<Binding>) -> Seq<BindingView> {
    bs.map_values(|b: Binding| b@)
}

/// A binding described by its parts.
pub open spec fn spec_binding(
    keys: Seq<&str>,
    label: &str,
    short: &str,
    action: &str,
    brief: bool,
) -> BindingView {
    BindingView { keys: keys.map_values(|k: &str| k@), label: label@, action: action@, short: short@, brief }
}

/// A binding that earns a place in the footer.
pub open spec fn spec_brief(keys: Seq<&str>, label: &str, short: &str, action: &str) -> BindingView {
    spec_binding(keys, label, short, action, true)
}

/// A binding listed only in the overlay, whose footer form is its action.
pub open spec fn spec_full(keys: Seq<&str>, label: &str, action: &str) -> BindingView {
    spec_binding(keys, label, action, action, false)
}

/// A binding that earns a place in the footer.
fn brief(
    keys: &'static [&'static str],
    label: &'static str,
    short: &'static str,
    action: &'static str,
) -> (res: Binding)
    ensures
        res@ == spec_brief(keys@, label, short, action),
{
    Binding { keys, label, action, short, brief: true }
}

/// A binding listed only in the overlay.
fn full(keys: &'static [&'static str], label: &'static str, action: &'static str) -> (res: Binding)
    ensures
        res@ == spec_full(keys@, label, action),
{
    Binding { keys, label, action, short: action, brief: false }
}

/// Keys handled in `Browse` on every screen.
pub open spec fn global_view() -> Seq<BindingView> {
    seq![
        spec_brief(seq!["tab", "right"], "tab/→", "screen", "next screen"),
        spec_full(seq!["shift+tab", "left"], "⇧tab/←", "previous screen"),
        spec_full(seq!["1", "2", "3", "4", "5", "6", "7", "8"], "1–8", "jump straight to a screen"),
        spec_brief(seq!["c"], "c", "config", "choose which models.ini to use"),
        spec_brief(seq![":"], ":", "command", "command bar"),
        spec_brief(seq!["?"], "?", "help", "this help"),
        spec_brief(seq!["q"], "q", "quit", "quit — asks if a server is active"),
        spec_full(seq!["Q"], "Q", "quit at once, abandoning anything in flight"),
    ]
}

/// Movement shared by the lists: the Models table, the Hub, the Router rows and the Settings rows.
pub open spec fn moves_view() -> Seq<BindingView> {
    seq![
        spec_brief(seq!["j", "down"], "j/↓", "move", "move down"),
        spec_full(seq!["k", "up"], "k/↑", "move up"),
        spec_full(seq!["pgdn", "pgup"], "pgdn/pgup", "move by a page"),
        spec_full(seq!["g", "home"], "g/home", "first row"),
        spec_full(seq!["G", "end"], "G/end", "last row"),
    ]
}

/// The movement keys on the Logs screen, described the way a scrollback reads: the buffer grows
/// downwards and the resting position is the end of it, so "down" means "towards the newest line".
pub open spec fn logs_view() -> Seq<BindingView> {
    seq![
        spec_brief(seq!["k", "up"], "k/↑", "back", "scroll back"),
        spec_brief(seq!["j", "down"], "j/↓", "forward", "scroll towards the newest"),
        spec_full(seq!["pgdn", "pgup"], "pgdn/pgup", "scroll by a page"),
        spec_full(seq!["g", "home"], "g/home", "oldest line kept"),
        spec_brief(seq!["G", "end"], "G/end", "newest", "back to the newest line"),
    ]
}

/// The Models screen. A star is the last of the footer's keys: hints drop from the end, and its
/// absence from a narrow footer costs least. `y` and `J`/`K` are shown on the argv preview's own
/// border rather than in the footer.
pub open spec fn models_view() -> Seq<BindingView> {
    seq![
        spec_brief(seq!["enter"], "enter", "launch", "launch the highlighted preset"),
        spec_brief(seq!["s"], "s", "stop", "stop the server, or clear a failed launch"),
        spec_brief(seq!["d"], "d", "download", "download the highlighted preset without launching it"),
        spec_brief(seq!["/"], "/", "filter", "filter presets by name"),
        spec_brief(seq!["t", "T"], "t/T", "tier", "next/previous tier"),
        spec_brief(seq!["f"], "f", "star", "star this preset, or take the star off"),
        spec_binding(seq!["y"], "y", "copy", "copy the launch command to the clipboard", false),
        spec_binding(seq!["J", "K"], "J/K", "scroll", "scroll the argv preview", false),
        spec_full(seq!["r"], "r", "re-read models.ini from disk"),
    ]
}

/// The cache, as against the tier. `D` is uppercase because it is the one destructive key in the
/// program and `d` next door means *download*; it is the last footer hint, so a footer too narrow
/// to name it still names the others.
pub open spec fn hub_view() -> Seq<BindingView> {
    seq![
        spec_brief(seq!["y"], "y", "copy preset", "copy a models.ini stanza for this model"),
        spec_brief(seq!["enter"], "enter", "show", "show this model's preset on the Models screen"),
        spec_brief(seq!["r"], "r", "refresh", "ask llama.cpp again what it has"),
        spec_brief(seq!["D"], "D", "delete", "delete this model from the cache — asks first"),
    ]
}

/// The Server screen.
pub open spec fn server_view() -> Seq<BindingView> {
    seq![
        spec_brief(seq!["enter"], "enter", "launch", "launch the selected preset — refused when it is the one already serving"),
        spec_brief(seq!["s"], "s", "stop", "stop the server"),
        spec_brief(seq!["p"], "p", "ping", "ping the running model"),
    ]
}

/// The Router screen. `y` and `J`/`K` live on the argv preview's border.
pub open spec fn router_view() -> Seq<BindingView> {
    seq![
        spec_brief(seq!["+", "=", "-", "_"], "+/-", "adjust", "adjust the highlighted setting"),
        spec_brief(seq!["enter"], "enter", "start", "start the router with these settings"),
        spec_brief(seq!["s"], "s", "stop", "stop the router"),
        spec_brief(seq!["r"], "r", "reset", "reset the settings to the defaults"),
        spec_binding(seq!["y"], "y", "copy", "copy the router command to the clipboard", false),
        spec_binding(seq!["J", "K"], "J/K", "scroll", "scroll the argv preview", false),
    ]
}

/// The Test screen.
pub open spec fn test_view() -> Seq<BindingView> {
    seq![
        spec_brief(seq!["enter"], "enter", "send", "send the prompt"),
        spec_brief(seq!["e"], "e", "edit prompt", "edit the prompt"),
        spec_brief(seq!["r"], "r", "reset", "reset the prompt and the result"),
    ]
}

/// The Stats screen.
pub open spec fn stats_view() -> Seq<BindingView> {
    seq![
        spec_brief(seq!["+", "=", "-", "_"], "+/-", "adjust", "adjust the memory reservation"),
        spec_brief(seq!["r"], "r", "reset", "reset it to the default"),
    ]
}

/// The Settings screen.
pub open spec fn settings_view() -> Seq<BindingView> {
    seq![
        spec_brief(seq!["enter"], "enter", "edit/toggle", "edit the highlighted setting — or flip it, when it is true/false or on/off"),
        spec_brief(seq!["m"], "m", "mono-focus", "switch the [mono-focus] profile on or off for this preset"),
        spec_brief(seq!["x"], "x", "clear", "clear this override"),
        spec_brief(seq!["X"], "X", "clear all", "clear every override"),
    ]
}
/// Keys handled in `Browse` on every screen.
pub fn global() -> (res: Vec<Binding>)
    ensures
        views(res@) == global_view(),
{
    let res = vec![
        brief(&["tab", "right"], "tab/→", "screen", "next screen"),
        full(&["shift+tab", "left"], "⇧tab/←", "previous screen"),
        full(&["1", "2", "3", "4", "5", "6", "7", "8"], "1–8", "jump straight to a screen"),
        brief(&["c"], "c", "config", "choose which models.ini to use"),
        brief(&[":"], ":", "command", "command bar"),
        brief(&["?"], "?", "help", "this help"),
        brief(&["q"], "q", "quit", "quit — asks if a server is active"),
        full(&["Q"], "Q", "quit at once, abandoning anything in flight"),
    ];
    assert(views(res@) =~~= global_view());
    res
}

/// Movement shared by the lists: the Models table, the Hub, the Router rows and the Settings rows.
fn moves() -> (res: Vec<Binding>)
    ensures
        views(res@) == moves_view(),
{
    let res = vec![
        brief(&["j", "down"], "j/↓", "move", "move down"),
        full(&["k", "up"], "k/↑", "move up"),
        full(&["pgdn", "pgup"], "pgdn/pgup", "move by a page"),
        full(&["g", "home"], "g/home", "first row"),
        full(&["G", "end"], "G/end", "last row"),
    ];
    assert(views(res@) =~~= moves_view());
    res
}

/// The movement keys on the Logs screen, described the way a scrollback reads: the buffer grows
/// downwards and the resting position is the end of it, so "down" means "towards the newest line".
fn logs() -> (res: Vec<Binding>)
    ensures
        views(res@) == logs_view(),
{
    let res = vec![
        brief(&["k", "up"], "k/↑", "back", "scroll back"),
        brief(&["j", "down"], "j/↓", "forward", "scroll towards the newest"),
        full(&["pgdn", "pgup"], "pgdn/pgup", "scroll by a page"),
        full(&["g", "home"], "g/home", "oldest line kept"),
        brief(&["G", "end"], "G/end", "newest", "back to the newest line"),
    ];
    assert(views(res@) =~~= logs_view());
    res
}

/// The Models screen. A star is the last of the footer's keys: hints drop from the end, and its
/// absence from a narrow footer costs least. `y` and `J`/`K` are shown on the argv preview's own
/// border rather than in the footer.
fn models() -> (res: Vec<Binding>)
    ensures
        views(res@) == models_view(),
{
    let res = vec![
        brief(&["enter"], "enter", "launch", "launch the highlighted preset"),
        brief(&["s"], "s", "stop", "stop the server, or clear a failed launch"),
        brief(&["d"], "d", "download", "download the highlighted preset without launching it"),
        brief(&["/"], "/", "filter", "filter presets by name"),
        brief(&["t", "T"], "t/T", "tier", "next/previous tier"),
        brief(&["f"], "f", "star", "star this preset, or take the star off"),
        Binding {
            keys: &["y"],
            label: "y",
            action: "copy the launch command to the clipboard",
            short: "copy",
            brief: false,
        },
        Binding {
            keys: &["J", "K"],
            label: "J/K",
            action: "scroll the argv preview",
            short: "scroll",
            brief: false,
        },
        full(&["r"], "r", "re-read models.ini from disk"),
    ];
    assert(views(res@) =~~= models_view());
    res
}

/// The cache, as against the tier. `D` is uppercase because it is the one destructive key in the
/// program and `d` next door means *download*; it is the last footer hint, so a footer too narrow
/// to name it still names the others.
fn hub() -> (res: Vec<Binding>)
    ensures
        views(res@) == hub_view(),
{
    let res = vec![
        brief(&["y"], "y", "copy preset", "copy a models.ini stanza for this model"),
        brief(&["enter"], "enter", "show", "show this model's preset on the Models screen"),
        brief(&["r"], "r", "refresh", "ask llama.cpp again what it has"),
        brief(&["D"], "D", "delete", "delete this model from the cache — asks first"),
    ];
    assert(views(res@) =~~= hub_view());
    res
}

/// The Server screen.
fn server() -> (res: Vec<Binding>)
    ensures
        views(res@) == server_view(),
{
    let res = vec![
        brief(&["enter"], "enter", "launch", "launch the selected preset — refused when it is the one already serving"),
        brief(&["s"], "s", "stop", "stop the server"),
        brief(&["p"], "p", "ping", "ping the running model"),
    ];
    assert(views(res@) =~~= server_view());
    res
}

/// The Router screen. `y` and `J`/`K` live on the argv preview's border.
fn router() -> (res: Vec<Binding>)
    ensures
        views(res@) == router_view(),
{
    let res = vec![
        brief(&["+", "=", "-", "_"], "+/-", "adjust", "adjust the highlighted setting"),
        brief(&["enter"], "enter", "start", "start the router with these settings"),
        brief(&["s"], "s", "stop", "stop the router"),
        brief(&["r"], "r", "reset", "reset the settings to the defaults"),
        Binding {
            keys: &["y"],
            label: "y",
            action: "copy the router command to the clipboard",
            short: "copy",
            brief: false,
        },
        Binding {
            keys: &["J", "K"],
            label: "J/K",
            action: "scroll the argv preview",
            short: "scroll",
            brief: false,
        },
    ];
    assert(views(res@) =~~= router_view());
    res
}

/// The Test screen.
fn test() -> (res: Vec<Binding>)
    ensures
        views(res@) == test_view(),
{
    let res = vec![
        brief(&["enter"], "enter", "send", "send the prompt"),
        brief(&["e"], "e", "edit prompt", "edit the prompt"),
        brief(&["r"], "r", "reset", "reset the prompt and the result"),
    ];
    assert(views(res@) =~~= test_view());
    res
}

/// The Stats screen.
fn stats() -> (res: Vec<Binding>)
    ensures
        views(res@) == stats_view(),
{
    let res = vec![
        brief(&["+", "=", "-", "_"], "+/-", "adjust", "adjust the memory reservation"),
        brief(&["r"], "r", "reset", "reset it to the default"),
    ];
    assert(views(res@) =~~= stats_view());
    res
}

/// The Settings screen.
fn settings() -> (res: Vec<Binding>)
    ensures
        views(res@) == settings_view(),
{
    let res = vec![
        brief(&["enter"], "enter", "edit/toggle", "edit the highlighted setting — or flip it, when it is true/false or on/off"),
        brief(&["m"], "m", "mono-focus", "switch the [mono-focus] profile on or off for this preset"),
        brief(&["x"], "x", "clear", "clear this override"),
        brief(&["X"], "X", "clear all", "clear every override"),
    ];
    assert(views(res@) =~~= settings_view());
    res
}

/// Whether a screen has a list to move through, and so the shared
/// movement keys.
pub open spec fn screen_moves(screen: Screen) -> bool {
    match screen {
        Screen::Models | Screen::Hub | Screen::Router | Screen::Settings => true,
        _ => false,
    }
}

/// A screen's own bindings, before the movement keys are added.
pub open spec fn own_view(screen: Screen) -> Seq<BindingView> {
    match screen {
        Screen::Models => models_view(),
        Screen::Hub => hub_view(),
        Screen::Server => server_view(),
        Screen::Router => router_view(),
        Screen::Test => test_view(),
        Screen::Stats => stats_view(),
        Screen::Settings => settings_view(),
        Screen::Logs => logs_view(),
    }
}

/// Everything bound on `screen` besides the global keys, movement first.
pub open spec fn for_screen_view(screen: Screen) -> Seq<BindingView> {
    if screen_moves(screen) {
        moves_view() + own_view(screen)
    } else {
        own_view(screen)
    }
}

/// Bindings specific to `screen`, movement keys first where the screen
/// has a list to move through. The Router screen has only two rows, but
/// the movement keys all reach its cursor, so they are all documented.
pub fn for_screen(screen: Screen) -> (res: Vec<Binding>)
    ensures
        views(res@) == for_screen_view(screen),
        res@.len() > 0,
{
    let own = match screen {
        Screen::Models => models(),
        Screen::Hub => hub(),
        Screen::Server => server(),
        Screen::Router => router(),
        Screen::Test => test(),
        Screen::Stats => stats(),
        Screen::Settings => settings(),
        Screen::Logs => logs(),
    };
    let moves_first = match screen {
        Screen::Models | Screen::Hub | Screen::Router | Screen::Settings => true,
        _ => false,
    };
    let mut bindings: Vec<Binding> = Vec::new();
    if moves_first {
        bindings = moves();
    }
    let ghost head = bindings@;
    for i in 0..own.len()
        invariant
            bindings@ == head + own@.subrange(0, i as int),
    {
        bindings.push(own[i]);
        assert(bindings@ =~= head + own@.subrange(0, i + 1));
    }
    assert(own@.subrange(0, own@.len() as int) =~= own@);
    assert(views(bindings@) =~= views(head) + views(own@));
    bindings
}

/// Whether `token` names one of the keys of one of `bs`.
pub open spec fn names_key(bs: Seq<BindingView>, token: Seq<char>) -> bool {
    exists|i: int, j: int| 0 <= i < bs.len() && 0 <= j < bs[i].keys.len() && #[trigger] bs[i].keys[j] == token
}

/// Whether one binding lists `token` among its keys.
fn binding_has(binding: &Binding, token: &[char]) -> (res: bool)
    ensures
        res == exists|j: int| 0 <= j < binding@.keys.len() && #[trigger] binding@.keys[j] == token@,
{
    let keys = binding.keys;
    for j in 0..keys.len()
        invariant
            keys@ == binding.keys@,
            forall|l: int| 0 <= l < j ==> binding@.keys[l] != token@,
    {
        let key = chars_of(keys[j]);
        if same_chars(key.as_slice(), token) {
            assert(binding@.keys[j as int] == token@);
            return true;
        }
    }
    false
}

/// Whether some binding of `bindings` lists `token`.
fn lists_key(bindings: &Vec<Binding>, token: &[char]) -> (res: bool)
    ensures
        res == names_key(views(bindings@), token@),
{
    for i in 0..bindings.len()
        invariant
            forall|l: int, j: int|
                0 <= l < i && 0 <= j < views(bindings@)[l].keys.len() ==> #[trigger] views(
                    bindings@,
                )[l].keys[j] != token@,
    {
        if binding_has(&bindings[i], token) {
            let ghost j = choose|j: int| 0 <= j < bindings@[i as int]@.keys.len() && #[trigger] bindings@[i as int]@.keys[j] == token@;
            assert(views(bindings@)[i as int].keys[j] == token@);
            return true;
        }
    }
    false
}

/// True when `token` is documented for `screen`, globally or otherwise.
pub fn documents(screen: Screen, token: &str) -> (res: bool)
    ensures
        res == (names_key(global_view(), token@) || names_key(for_screen_view(screen), token@)),
{
    let t = chars_of(token);
    lists_key(&global(), t.as_slice()) || lists_key(&for_screen(screen), t.as_slice())
}

/// What separates two hints on a footer line.
pub const SEPARATOR: &'static str = " · ";

/// Says that hints were dropped. An ellipsis rather than "? more": the
/// marker comes out of the room the real hints get, and `?` is named in
/// the status bar on every screen anyway.
pub const MORE: &'static str = "…";

/// The footer form of one binding (`"y copy"`).
pub open spec fn hint_view(b: BindingView) -> Seq<char> {
    b.label + " "@ + b.short
}

/// Hints joined by the separator.
pub open spec fn join_view(bs: Seq<BindingView>) -> Seq<char>
    decreases bs.len(),
{
    if bs.len() == 0 {
        Seq::empty()
    } else if bs.len() == 1 {
        hint_view(bs[0])
    } else {
        join_view(bs.drop_last()) + SEPARATOR@ + hint_view(bs.last())
    }
}

/// The bindings that earn a place in a footer, in order.
pub open spec fn briefs(bs: Seq<BindingView>) -> Seq<BindingView>
    decreases bs.len(),
{
    if bs.len() == 0 {
        Seq::empty()
    } else if bs.last().brief {
        briefs(bs.drop_last()).push(bs.last())
    } else {
        briefs(bs.drop_last())
    }
}

/// How many leading hints fit in `width` together with the marker that
/// says more were dropped, counting from `k` on.
pub open spec fn kept_from(bs: Seq<BindingView>, width: int, k: int) -> int
    decreases bs.len() - k,
{
    if k < 0 || k >= bs.len() || join_view(bs.subrange(0, k + 1)).len() + SEPARATOR@.len()
        + MORE@.len() > width {
        k
    } else {
        kept_from(bs, width, k + 1)
    }
}

/// A footer of `bs` fitted to `width` characters: all of it when it fits,
/// otherwise as many leading hints as fit beside a marker saying there is
/// more, and the marker alone when not even one hint fits.
pub open spec fn fit_hints(bs: Seq<BindingView>, width: int) -> Seq<char> {
    let whole = join_view(bs);
    if whole.len() <= width {
        whole
    } else {
        let kept = kept_from(bs, width, 0);
        if kept <= 0 {
            MORE@.subrange(0, if width < MORE@.len() { width } else { MORE@.len() as int })
        } else {
            join_view(bs.subrange(0, kept)) + SEPARATOR@ + MORE@
        }
    }
}

/// Keeps only the bindings that earn a place in a footer.
fn brief_only(bindings: &Vec<Binding>) -> (res: Vec<Binding>)
    ensures
        views(res@) == briefs(views(bindings@)),
{
    let mut out: Vec<Binding> = Vec::new();
    for i in 0..bindings.len()
        invariant
            views(out@) == briefs(views(bindings@).subrange(0, i as int)),
    {
        let b = bindings[i];
        let ghost taken = views(bindings@).subrange(0, i + 1);
        assert(taken.drop_last() =~= views(bindings@).subrange(0, i as int));
        if b.brief {
            out.push(b);
            assert(views(out@) =~= briefs(taken));
        }
    }
    assert(views(bindings@).subrange(0, bindings@.len() as int) =~= views(bindings@));
    out
}

/// The footer form of the first `count` bindings, joined.
fn join(bindings: &Vec<Binding>, count: usize) -> (res: String)
    requires
        count <= bindings@.len(),
    ensures
        res@ == join_view(views(bindings@).subrange(0, count as int)),
{
    let mut line = String::new();
    assert(views(bindings@).subrange(0, 0) =~= Seq::<BindingView>::empty());
    for i in 0..count
        invariant
            count <= bindings@.len(),
            line@ == join_view(views(bindings@).subrange(0, i as int)),
    {
        let b = bindings[i];
        let ghost taken = views(bindings@).subrange(0, i + 1);
        assert(taken.drop_last() =~= views(bindings@).subrange(0, i as int));
        if i > 0 {
            line.append(SEPARATOR);
        }
        line.append(b.label);
        line.append(" ");
        line.append(b.short);
        assert(line@ =~= join_view(taken));
    }
    line
}

/// One-line footer for a screen: its own brief bindings only, since the
/// status bar already carries the global ones. This is the unfitted form;
/// every pane draws through [`screen_hint_within`].
pub fn screen_hint(screen: Screen) -> (res: String)
    ensures
        res@ == join_view(briefs(for_screen_view(screen))),
{
    let bindings = brief_only(&for_screen(screen));
    let res = join(&bindings, bindings.len());
    assert(views(bindings@).subrange(0, bindings@.len() as int) =~= views(bindings@));
    res
}

proof fn lemma_kept_fits(bs: Seq<BindingView>, width: int, k: int)
    requires
        0 <= k,
        kept_from(bs, width, k) > k,
    ensures
        kept_from(bs, width, k) <= bs.len(),
        join_view(bs.subrange(0, kept_from(bs, width, k))).len() + SEPARATOR@.len() + MORE@.len()
            <= width,
    decreases bs.len() - k,
{
    if kept_from(bs, width, k + 1) > k + 1 {
        lemma_kept_fits(bs, width, k + 1);
    }
}

/// The same footer, fitted to the width it will be drawn in.
///
/// A footer that is too long does not wrap — its last hints simply
/// disappear off the right edge. So hints are dropped from the end, least
/// load-bearing first (the tables are ordered that way), and the line
/// **says that it dropped some**: a hint that vanished silently would read
/// as a key that does not exist.
pub fn screen_hint_within(screen: Screen, width: usize) -> (res: String)
    ensures
        res@ == fit_hints(briefs(for_screen_view(screen)), width as int),
        res@.len() <= width,
        join_view(briefs(for_screen_view(screen))).len() <= width ==> res@ == join_view(
            briefs(for_screen_view(screen)),
        ),
        join_view(briefs(for_screen_view(screen))).len() > width && width > 0 ==> res@.len() > 0
            && res@.last() == '…',
{
    let bindings = brief_only(&for_screen(screen));
    let ghost bs = views(bindings@);
    let whole = join(&bindings, bindings.len());
    assert(bs.subrange(0, bs.len() as int) =~= bs);
    proof {
        reveal_strlit("…");
        reveal_strlit(" · ");
    }
    if whole.unicode_len() <= width {
        return whole;
    }
    // Counted in characters, not bytes: the separator's `·` and the
    // ellipsis are multi-byte.
    let marker = SEPARATOR.unicode_len() + MORE.unicode_len();
    let mut kept: usize = 0;
    while kept < bindings.len()
        invariant_except_break
            kept_from(bs, width as int, 0) == kept_from(bs, width as int, kept as int),
        invariant
            bs == views(bindings@),
            marker == SEPARATOR@.len() + MORE@.len(),
            kept <= bindings@.len(),
        ensures
            kept_from(bs, width as int, 0) == kept as int,
        decreases bindings.len() - kept,
    {
        let candidate = join(&bindings, kept + 1);
        let length = candidate.unicode_len();
        if width < marker || length > width - marker {
            assert(kept_from(bs, width as int, kept as int) == kept as int);
            break;
        }
        kept = kept + 1;
    }
    if kept == 0 {
        // Narrower than one hint plus the marker: say only where the rest
        // is, rather than half a word.
        let mut line = String::new();
        if width > 0 {
            line.append(MORE);
        }
        assert(line@ =~= MORE@.subrange(0, if width < MORE@.len() { width as int } else { MORE@.len() as int }));
        return line;
    }
    proof {
        lemma_kept_fits(bs, width as int, 0);
    }
    let mut line = join(&bindings, kept);
    line.append(SEPARATOR);
    line.append(MORE);
    line
}

/// The first binding of `bs` that lists `token`.
pub open spec fn first_listing(bs: Seq<BindingView>, token: Seq<char>, i: int) -> int
    decreases bs.len() - i,
{
    if i < 0 || i >= bs.len() {
        -1
    } else if exists|j: int| 0 <= j < bs[i].keys.len() && #[trigger] bs[i].keys[j] == token {
        i
    } else {
        first_listing(bs, token, i + 1)
    }
}

/// The footer form of the binding for `key` on `screen`, when there is one.
pub open spec fn hint_for_view(screen: Screen, key: Seq<char>) -> Option<Seq<char>> {
    let bs = for_screen_view(screen);
    let i = first_listing(bs, key, 0);
    if 0 <= i < bs.len() {
        Some(hint_view(bs[i]))
    } else {
        None
    }
}

/// The footer form of one binding (`"y copy"`), for a screen that shows a
/// hint somewhere other than in its footer. Looked up rather than written
/// out a second time, which is the drift this table exists to prevent.
pub fn hint_for(screen: Screen, key: &str) -> (res: Option<String>)
    ensures
        match res {
            Some(hint) => hint_for_view(screen, key@) == Some(hint@),
            None => hint_for_view(screen, key@) is None,
        },
{
    let bindings = for_screen(screen);
    let ghost bs = views(bindings@);
    let token = chars_of(key);
    let mut i: usize = 0;
    while i < bindings.len()
        invariant
            bs == views(bindings@),
            bs == for_screen_view(screen),
            token@ == key@,
            i <= bs.len(),
            first_listing(bs, key@, 0) == first_listing(bs, key@, i as int),
        decreases bindings.len() - i,
    {
        if binding_has(&bindings[i], token.as_slice()) {
            proof {
                let j = choose|j: int|
                    0 <= j < bindings@[i as int]@.keys.len() && #[trigger] bindings@[i as int]@.keys[j]
                        == token@;
                assert(bs[i as int] == bindings@[i as int]@);
                assert(bs[i as int].keys[j] == key@);
                assert(first_listing(bs, key@, i as int) == i as int);
            }
            let b = bindings[i];
            let mut hint = String::new();
            hint.append(b.label);
            hint.append(" ");
            hint.append(b.short);
            assert(hint@ =~= hint_view(bs[i as int]));
            return Some(hint);
        }
        i = i + 1;
    }
    None
}

/// The status bar's line: the global keys that earn a footer place.
pub fn global_hint() -> (res: String)
    ensures
        res@ == join_view(briefs(global_view())),
{
    let bindings = brief_only(&global());
    let res = join(&bindings, bindings.len());
    assert(views(bindings@).subrange(0, bindings@.len() as int) =~= views(bindings@));
    res
}

/// A key as the terminal reports it, reduced to what the keymap can name.
#[derive(Debug, Clone, Copy, PartialEq, Eq, Structural)]
pub enum Key {
    Char(char),
    Enter,
    Esc,
    Tab,
    /// Shift+Tab, which terminals report as a key of its own.
    BackTab,
    Up,
    Down,
    Left,
    Right,
    PageUp,
    PageDown,
    Home,
    End,
    Backspace,
    /// Any key no binding could name (function keys, Insert, ...).
    Other,
}

/// The canonical name of a key.
pub open spec fn token_view(key: Key) -> Option<Seq<char>> {
    match key {
        Key::Char(c) => Some(seq![c]),
        Key::Enter => Some("enter"@),
        Key::Esc => Some("esc"@),
        Key::Tab => Some("tab"@),
        Key::BackTab => Some("shift+tab"@),
        Key::Up => Some("up"@),
        Key::Down => Some("down"@),
        Key::Left => Some("left"@),
        Key::Right => Some("right"@),
        Key::PageUp => Some("pgup"@),
        Key::PageDown => Some("pgdn"@),
        Key::Home => Some("home"@),
        Key::End => Some("end"@),
        Key::Backspace => Some("backspace"@),
        Key::Other => None,
    }
}

/// Canonical name for a key, so a binding table entry and a key press can
/// be compared. `None` for keys no binding could name.
pub fn token(key: Key) -> (res: Option<String>)
    ensures
        match res {
            Some(name) => token_view(key) == Some(name@),
            None => token_view(key) is None,
        },
{
    let name: &str = match key {
        Key::Char(c) => {
            let mut s = String::new();
            push_char(&mut s, c);
            assert(s@ =~= seq![c]);
            return Some(s);
        },
        Key::Enter => "enter",
        Key::Esc => "esc",
        Key::Tab => "tab",
        Key::BackTab => "shift+tab",
        Key::Up => "up",
        Key::Down => "down",
        Key::Left => "left",
        Key::Right => "right",
        Key::PageUp => "pgup",
        Key::PageDown => "pgdn",
        Key::Home => "home",
        Key::End => "end",
        Key::Backspace => "backspace",
        Key::Other => {
            return None;
        },
    };
    Some(string_of(chars_of(name).as_slice()))
}

/// Reveals the spelling of every key token the tables use.
proof fn reveal_tokens()
    ensures
        "tab"@ == seq!['t', 'a', 'b'],
        "right"@ == seq!['r', 'i', 'g', 'h', 't'],
        "shift+tab"@ == seq!['s', 'h', 'i', 'f', 't', '+', 't', 'a', 'b'],
        "left"@ == seq!['l', 'e', 'f', 't'],
        "1"@ == seq!['1'],
        "2"@ == seq!['2'],
        "3"@ == seq!['3'],
        "4"@ == seq!['4'],
        "5"@ == seq!['5'],
        "6"@ == seq!['6'],
        "7"@ == seq!['7'],
        "8"@ == seq!['8'],
        "c"@ == seq!['c'],
        ":"@ == seq![':'],
        "?"@ == seq!['?'],
        "q"@ == seq!['q'],
        "Q"@ == seq!['Q'],
        "j"@ == seq!['j'],
        "down"@ == seq!['d', 'o', 'w', 'n'],
        "k"@ == seq!['k'],
        "up"@ == seq!['u', 'p'],
        "pgdn"@ == seq!['p', 'g', 'd', 'n'],
        "pgup"@ == seq!['p', 'g', 'u', 'p'],
        "g"@ == seq!['g'],
        "home"@ == seq!['h', 'o', 'm', 'e'],
        "G"@ == seq!['G'],
        "end"@ == seq!['e', 'n', 'd'],
        "enter"@ == seq!['e', 'n', 't', 'e', 'r'],
        "s"@ == seq!['s'],
        "d"@ == seq!['d'],
        "/"@ == seq!['/'],
        "t"@ == seq!['t'],
        "T"@ == seq!['T'],
        "f"@ == seq!['f'],
        "y"@ == seq!['y'],
        "J"@ == seq!['J'],
        "K"@ == seq!['K'],
        "r"@ == seq!['r'],
        "D"@ == seq!['D'],
        "p"@ == seq!['p'],
        "+"@ == seq!['+'],
        "="@ == seq!['='],
        "-"@ == seq!['-'],
        "_"@ == seq!['_'],
        "e"@ == seq!['e'],
        "m"@ == seq!['m'],
        "x"@ == seq!['x'],
        "X"@ == seq!['X'],
{
    reveal_strlit("tab");
    reveal_strlit("right");
    reveal_strlit("shift+tab");
    reveal_strlit("left");
    reveal_strlit("1");
    reveal_strlit("2");
    reveal_strlit("3");
    reveal_strlit("4");
    reveal_strlit("5");
    reveal_strlit("6");
    reveal_strlit("7");
    reveal_strlit("8");
    reveal_strlit("c");
    reveal_strlit(":");
    reveal_strlit("?");
    reveal_strlit("q");
    reveal_strlit("Q");
    reveal_strlit("j");
    reveal_strlit("down");
    reveal_strlit("k");
    reveal_strlit("up");
    reveal_strlit("pgdn");
    reveal_strlit("pgup");
    reveal_strlit("g");
    reveal_strlit("home");
    reveal_strlit("G");
    reveal_strlit("end");
    reveal_strlit("enter");
    reveal_strlit("s");
    reveal_strlit("d");
    reveal_strlit("/");
    reveal_strlit("t");
    reveal_strlit("T");
    reveal_strlit("f");
    reveal_strlit("y");
    reveal_strlit("J");
    reveal_strlit("K");
    reveal_strlit("r");
    reveal_strlit("D");
    reveal_strlit("p");
    reveal_strlit("+");
    reveal_strlit("=");
    reveal_strlit("-");
    reveal_strlit("_");
    reveal_strlit("e");
    reveal_strlit("m");
    reveal_strlit("x");
    reveal_strlit("X");
    assert("tab"@ =~= seq!['t', 'a', 'b']);
    assert("right"@ =~= seq!['r', 'i', 'g', 'h', 't']);
    assert("shift+tab"@ =~= seq!['s', 'h', 'i', 'f', 't', '+', 't', 'a', 'b']);
    assert("left"@ =~= seq!['l', 'e', 'f', 't']);
    assert("1"@ =~= seq!['1']);
    assert("2"@ =~= seq!['2']);
    assert("3"@ =~= seq!['3']);
    assert("4"@ =~= seq!['4']);
    assert("5"@ =~= seq!['5']);
    assert("6"@ =~= seq!['6']);
    assert("7"@ =~= seq!['7']);
    assert("8"@ =~= seq!['8']);
    assert("c"@ =~= seq!['c']);
    assert(":"@ =~= seq![':']);
    assert("?"@ =~= seq!['?']);
    assert("q"@ =~= seq!['q']);
    assert("Q"@ =~= seq!['Q']);
    assert("j"@ =~= seq!['j']);
    assert("down"@ =~= seq!['d', 'o', 'w', 'n']);
    assert("k"@ =~= seq!['k']);
    assert("up"@ =~= seq!['u', 'p']);
    assert("pgdn"@ =~= seq!['p', 'g', 'd', 'n']);
    assert("pgup"@ =~= seq!['p', 'g', 'u', 'p']);
    assert("g"@ =~= seq!['g']);
    assert("home"@ =~= seq!['h', 'o', 'm', 'e']);
    assert("G"@ =~= seq!['G']);
    assert("end"@ =~= seq!['e', 'n', 'd']);
    assert("enter"@ =~= seq!['e', 'n', 't', 'e', 'r']);
    assert("s"@ =~= seq!['s']);
    assert("d"@ =~= seq!['d']);
    assert("/"@ =~= seq!['/']);
    assert("t"@ =~= seq!['t']);
    assert("T"@ =~= seq!['T']);
    assert("f"@ =~= seq!['f']);
    assert("y"@ =~= seq!['y']);
    assert("J"@ =~= seq!['J']);
    assert("K"@ =~= seq!['K']);
    assert("r"@ =~= seq!['r']);
    assert("D"@ =~= seq!['D']);
    assert("p"@ =~= seq!['p']);
    assert("+"@ =~= seq!['+']);
    assert("="@ =~= seq!['=']);
    assert("-"@ =~= seq!['-']);
    assert("_"@ =~= seq!['_']);
    assert("e"@ =~= seq!['e']);
    assert("m"@ =~= seq!['m']);
    assert("x"@ =~= seq!['x']);
    assert("X"@ =~= seq!['X']);
}

/// A number that tells key tokens apart: the length and the first three
/// characters (all the tokens are ASCII).
pub open spec fn token_code(k: Seq<char>) -> int {
    k.len() * 2097152 + (if k.len() > 0 { k[0] as int } else { 0 }) * 16384 + (if k.len() > 1 {
        k[1] as int
    } else {
        0
    }) * 128 + (if k.len() > 2 {
        k[2] as int
    } else {
        0
    })
}

/// The codes of the global keys.
pub open spec fn is_global_code(c: int) -> bool {
    c == 2899968 || c == 2916352 || c == 2932736 || c == 2949120 || c == 2965504 || c == 2981888
        || c == 2998272 || c == 3014656 || c == 3047424 || c == 3129344 || c == 3424256
        || c == 3719168 || c == 3948544 || c == 8204514 || c == 10171110 || c == 12367079
        || c == 20771945
}

proof fn lemma_global_key_code(g: int, h: int)
    requires
        0 <= g < global_view().len(),
        0 <= h < global_view()[g].keys.len(),
    ensures
        is_global_code(token_code(global_view()[g].keys[h])),
{
    reveal_tokens();
    if g == 0 {
        if h == 0 {
            assert(global_view()[0].keys[0] == "tab"@);
        } else if h == 1 {
            assert(global_view()[0].keys[1] == "right"@);
        }
    } else if g == 1 {
        if h == 0 {
            assert(global_view()[1].keys[0] == "shift+tab"@);
        } else if h == 1 {
            assert(global_view()[1].keys[1] == "left"@);
        }
    } else if g == 2 {
        if h == 0 {
            assert(global_view()[2].keys[0] == "1"@);
        } else if h == 1 {
            assert(global_view()[2].keys[1] == "2"@);
        } else if h == 2 {
            assert(global_view()[2].keys[2] == "3"@);
        } else if h == 3 {
            assert(global_view()[2].keys[3] == "4"@);
        } else if h == 4 {
            assert(global_view()[2].keys[4] == "5"@);
        } else if h == 5 {
            assert(global_view()[2].keys[5] == "6"@);
        } else if h == 6 {
            assert(global_view()[2].keys[6] == "7"@);
        } else if h == 7 {
            assert(global_view()[2].keys[7] == "8"@);
        }
    } else if g == 3 {
        if h == 0 {
            assert(global_view()[3].keys[0] == "c"@);
        }
    } else if g == 4 {
        if h == 0 {
            assert(global_view()[4].keys[0] == ":"@);
        }
    } else if g == 5 {
        if h == 0 {
            assert(global_view()[5].keys[0] == "?"@);
        }
    } else if g == 6 {
        if h == 0 {
            assert(global_view()[6].keys[0] == "q"@);
        }
    } else if g == 7 {
        if h == 0 {
            assert(global_view()[7].keys[0] == "Q"@);
        }
    }
}

proof fn lemma_moves_key_code(i: int, j: int)
    requires
        0 <= i < moves_view().len(),
        0 <= j < moves_view()[i].keys.len(),
    ensures
        !is_global_code(token_code(moves_view()[i].keys[j])),
{
    reveal_tokens();
    if i == 0 {
        if j == 0 {
            assert(moves_view()[0].keys[0] == "j"@);
        } else if j == 1 {
            assert(moves_view()[0].keys[1] == "down"@);
        }
    } else if i == 1 {
        if j == 0 {
            assert(moves_view()[1].keys[0] == "k"@);
        } else if j == 1 {
            assert(moves_view()[1].keys[1] == "up"@);
        }
    } else if i == 2 {
        if j == 0 {
            assert(moves_view()[2].keys[0] == "pgdn"@);
        } else if j == 1 {
            assert(moves_view()[2].keys[1] == "pgup"@);
        }
    } else if i == 3 {
        if j == 0 {
            assert(moves_view()[3].keys[0] == "g"@);
        } else if j == 1 {
            assert(moves_view()[3].keys[1] == "home"@);
        }
    } else if i == 4 {
        if j == 0 {
            assert(moves_view()[4].keys[0] == "G"@);
        } else if j == 1 {
            assert(moves_view()[4].keys[1] == "end"@);
        }
    }
}

proof fn lemma_logs_key_code(i: int, j: int)
    requires
        0 <= i < logs_view().len(),
        0 <= j < logs_view()[i].keys.len(),
    ensures
        !is_global_code(token_code(logs_view()[i].keys[j])),
{
    reveal_tokens();
    if i == 0 {
        if j == 0 {
            assert(logs_view()[0].keys[0] == "k"@);
        } else if j == 1 {
            assert(logs_view()[0].keys[1] == "up"@);
        }
    } else if i == 1 {
        if j == 0 {
            assert(logs_view()[1].keys[0] == "j"@);
        } else if j == 1 {
            assert(logs_view()[1].keys[1] == "down"@);
        }
    } else if i == 2 {
        if j == 0 {
            assert(logs_view()[2].keys[0] == "pgdn"@);
        } else if j == 1 {
            assert(logs_view()[2].keys[1] == "pgup"@);
        }
    } else if i == 3 {
        if j == 0 {
            assert(logs_view()[3].keys[0] == "g"@);
        } else if j == 1 {
            assert(logs_view()[3].keys[1] == "home"@);
        }
    } else if i == 4 {
        if j == 0 {
            assert(logs_view()[4].keys[0] == "G"@);
        } else if j == 1 {
            assert(logs_view()[4].keys[1] == "end"@);
        }
    }
}

proof fn lemma_models_key_code(i: int, j: int)
    requires
        0 <= i < models_view().len(),
        0 <= j < models_view()[i].keys.len(),
    ensures
        !is_global_code(token_code(models_view()[i].keys[j])),
{
    reveal_tokens();
    if i == 0 {
        if j == 0 {
            assert(models_view()[0].keys[0] == "enter"@);
        }
    } else if i == 1 {
        if j == 0 {
            assert(models_view()[1].keys[0] == "s"@);
        }
    } else if i == 2 {
        if j == 0 {
            assert(models_view()[2].keys[0] == "d"@);
        }
    } else if i == 3 {
        if j == 0 {
            assert(models_view()[3].keys[0] == "/"@);
        }
    } else if i == 4 {
        if j == 0 {
            assert(models_view()[4].keys[0] == "t"@);
        } else if j == 1 {
            assert(models_view()[4].keys[1] == "T"@);
        }
    } else if i == 5 {
        if j == 0 {
            assert(models_view()[5].keys[0] == "f"@);
        }
    } else if i == 6 {
        if j == 0 {
            assert(models_view()[6].keys[0] == "y"@);
        }
    } else if i == 7 {
        if j == 0 {
            assert(models_view()[7].keys[0] == "J"@);
        } else if j == 1 {
            assert(models_view()[7].keys[1] == "K"@);
        }
    } else if i == 8 {
        if j == 0 {
            assert(models_view()[8].keys[0] == "r"@);
        }
    }
}

proof fn lemma_hub_key_code(i: int, j: int)
    requires
        0 <= i < hub_view().len(),
        0 <= j < hub_view()[i].keys.len(),
    ensures
        !is_global_code(token_code(hub_view()[i].keys[j])),
{
    reveal_tokens();
    if i == 0 {
        if j == 0 {
            assert(hub_view()[0].keys[0] == "y"@);
        }
    } else if i == 1 {
        if j == 0 {
            assert(hub_view()[1].keys[0] == "enter"@);
        }
    } else if i == 2 {
        if j == 0 {
            assert(hub_view()[2].keys[0] == "r"@);
        }
    } else if i == 3 {
        if j == 0 {
            assert(hub_view()[3].keys[0] == "D"@);
        }
    }
}

proof fn lemma_server_key_code(i: int, j: int)
    requires
        0 <= i < server_view().len(),
        0 <= j < server_view()[i].keys.len(),
    ensures
        !is_global_code(token_code(server_view()[i].keys[j])),
{
    reveal_tokens();
    if i == 0 {
        if j == 0 {
            assert(server_view()[0].keys[0] == "enter"@);
        }
    } else if i == 1 {
        if j == 0 {
            assert(server_view()[1].keys[0] == "s"@);
        }
    } else if i == 2 {
        if j == 0 {
            assert(server_view()[2].keys[0] == "p"@);
        }
    }
}

proof fn lemma_router_key_code(i: int, j: int)
    requires
        0 <= i < router_view().len(),
        0 <= j < router_view()[i].keys.len(),
    ensures
        !is_global_code(token_code(router_view()[i].keys[j])),
{
    reveal_tokens();
    if i == 0 {
        if j == 0 {
            assert(router_view()[0].keys[0] == "+"@);
        } else if j == 1 {
            assert(router_view()[0].keys[1] == "="@);
        } else if j == 2 {
            assert(router_view()[0].keys[2] == "-"@);
        } else if j == 3 {
            assert(router_view()[0].keys[3] == "_"@);
        }
    } else if i == 1 {
        if j == 0 {
            assert(router_view()[1].keys[0] == "enter"@);
        }
    } else if i == 2 {
        if j == 0 {
            assert(router_view()[2].keys[0] == "s"@);
        }
    } else if i == 3 {
        if j == 0 {
            assert(router_view()[3].keys[0] == "r"@);
        }
    } else if i == 4 {
        if j == 0 {
            assert(router_view()[4].keys[0] == "y"@);
        }
    } else if i == 5 {
        if j == 0 {
            assert(router_view()[5].keys[0] == "J"@);
        } else if j == 1 {
            assert(router_view()[5].keys[1] == "K"@);
        }
    }
}

proof fn lemma_test_key_code(i: int, j: int)
    requires
        0 <= i < test_view().len(),
        0 <= j < test_view()[i].keys.len(),
    ensures
        !is_global_code(token_code(test_view()[i].keys[j])),
{
    reveal_tokens();
    if i == 0 {
        if j == 0 {
            assert(test_view()[0].keys[0] == "enter"@);
        }
    } else if i == 1 {
        if j == 0 {
            assert(test_view()[1].keys[0] == "e"@);
        }
    } else if i == 2 {
        if j == 0 {
            assert(test_view()[2].keys[0] == "r"@);
        }
    }
}

proof fn lemma_stats_key_code(i: int, j: int)
    requires
        0 <= i < stats_view().len(),
        0 <= j < stats_view()[i].keys.len(),
    ensures
        !is_global_code(token_code(stats_view()[i].keys[j])),
{
    reveal_tokens();
    if i == 0 {
        if j == 0 {
            assert(stats_view()[0].keys[0] == "+"@);
        } else if j == 1 {
            assert(stats_view()[0].keys[1] == "="@);
        } else if j == 2 {
            assert(stats_view()[0].keys[2] == "-"@);
        } else if j == 3 {
            assert(stats_view()[0].keys[3] == "_"@);
        }
    } else if i == 1 {
        if j == 0 {
            assert(stats_view()[1].keys[0] == "r"@);
        }
    }
}

proof fn lemma_settings_key_code(i: int, j: int)
    requires
        0 <= i < settings_view().len(),
        0 <= j < settings_view()[i].keys.len(),
    ensures
        !is_global_code(token_code(settings_view()[i].keys[j])),
{
    reveal_tokens();
    if i == 0 {
        if j == 0 {
            assert(settings_view()[0].keys[0] == "enter"@);
        }
    } else if i == 1 {
        if j == 0 {
            assert(settings_view()[1].keys[0] == "m"@);
        }
    } else if i == 2 {
        if j == 0 {
            assert(settings_view()[2].keys[0] == "x"@);
        }
    } else if i == 3 {
        if j == 0 {
            assert(settings_view()[3].keys[0] == "X"@);
        }
    }
}

/// A screen-local key never reuses a global one: the global keys are
/// matched first, so such a binding would be listed and never fire.
pub proof fn lemma_no_screen_binding_shadows_a_global_one(screen: Screen, i: int, j: int)
    requires
        0 <= i < for_screen_view(screen).len(),
        0 <= j < for_screen_view(screen)[i].keys.len(),
    ensures
        !names_key(global_view(), for_screen_view(screen)[i].keys[j]),
{
    let bs = for_screen_view(screen);
    let k = bs[i].keys[j];
    let m = moves_view().len() as int;
    if screen_moves(screen) && i < m {
        assert(bs[i] == moves_view()[i]);
        lemma_moves_key_code(i, j);
    } else {
        let o = if screen_moves(screen) { i - m } else { i };
        assert(bs[i] == own_view(screen)[o]);
        match screen {
            Screen::Models => lemma_models_key_code(o, j),
            Screen::Hub => lemma_hub_key_code(o, j),
            Screen::Server => lemma_server_key_code(o, j),
            Screen::Router => lemma_router_key_code(o, j),
            Screen::Test => lemma_test_key_code(o, j),
            Screen::Stats => lemma_stats_key_code(o, j),
            Screen::Settings => lemma_settings_key_code(o, j),
            Screen::Logs => lemma_logs_key_code(o, j),
        }
    }
    if names_key(global_view(), k) {
        let (g, h) = choose|g: int, h: int|
            0 <= g < global_view().len() && 0 <= h < global_view()[g].keys.len()
                && #[trigger] global_view()[g].keys[h] == k;
        lemma_global_key_code(g, h);
    }
}

/// The token code of each key of the moves table, by position.
pub open spec fn moves_code(i: int, j: int) -> int {
    if i == 0 {
        if j == 0 {
            3833856
        } else {
            if j == 1 {
                10041335
            } else {
                0
            }
        }
    } else {
        if i == 1 {
            if j == 0 {
                3850240
            } else {
                if j == 1 {
                    6125568
                } else {
                    0
                }
            }
        } else {
            if i == 2 {
                if j == 0 {
                    10236900
                } else {
                    if j == 1 {
                        10236917
                    } else {
                        0
                    }
                }
            } else {
                if i == 3 {
                    if j == 0 {
                        3784704
                    } else {
                        if j == 1 {
                            10106861
                        } else {
                            0
                        }
                    }
                } else {
                    if i == 4 {
                        if j == 0 {
                            3260416
                        } else {
                            if j == 1 {
                                7960420
                            } else {
                                0
                            }
                        }
                    } else {
                        0
                    }
                }
            }
        }
    }
}

proof fn lemma_moves_code(i: int, j: int)
    requires
        0 <= i < moves_view().len(),
        0 <= j < moves_view()[i].keys.len(),
    ensures
        token_code(moves_view()[i].keys[j]) == moves_code(i, j),
{
    reveal_tokens();
    if i == 0 {
        if j == 0 {
            assert(moves_view()[0].keys[0] == "j"@);
        } else if j == 1 {
            assert(moves_view()[0].keys[1] == "down"@);
        }
    } else if i == 1 {
        if j == 0 {
            assert(moves_view()[1].keys[0] == "k"@);
        } else if j == 1 {
            assert(moves_view()[1].keys[1] == "up"@);
        }
    } else if i == 2 {
        if j == 0 {
            assert(moves_view()[2].keys[0] == "pgdn"@);
        } else if j == 1 {
            assert(moves_view()[2].keys[1] == "pgup"@);
        }
    } else if i == 3 {
        if j == 0 {
            assert(moves_view()[3].keys[0] == "g"@);
        } else if j == 1 {
            assert(moves_view()[3].keys[1] == "home"@);
        }
    } else if i == 4 {
        if j == 0 {
            assert(moves_view()[4].keys[0] == "G"@);
        } else if j == 1 {
            assert(moves_view()[4].keys[1] == "end"@);
        }
    }
}

/// The token code of each key of the logs table, by position.
pub open spec fn logs_code(i: int, j: int) -> int {
    if i == 0 {
        if j == 0 {
            3850240
        } else {
            if j == 1 {
                6125568
            } else {
                0
            }
        }
    } else {
        if i == 1 {
            if j == 0 {
                3833856
            } else {
                if j == 1 {
                    10041335
                } else {
                    0
                }
            }
        } else {
            if i == 2 {
                if j == 0 {
                    10236900
                } else {
                    if j == 1 {
                        10236917
                    } else {
                        0
                    }
                }
            } else {
                if i == 3 {
                    if j == 0 {
                        3784704
                    } else {
                        if j == 1 {
                            10106861
                        } else {
                            0
                        }
                    }
                } else {
                    if i == 4 {
                        if j == 0 {
                            3260416
                        } else {
                            if j == 1 {
                                7960420
                            } else {
                                0
                            }
                        }
                    } else {
                        0
                    }
                }
            }
        }
    }
}

proof fn lemma_logs_code(i: int, j: int)
    requires
        0 <= i < logs_view().len(),
        0 <= j < logs_view()[i].keys.len(),
    ensures
        token_code(logs_view()[i].keys[j]) == logs_code(i, j),
{
    reveal_tokens();
    if i == 0 {
        if j == 0 {
            assert(logs_view()[0].keys[0] == "k"@);
        } else if j == 1 {
            assert(logs_view()[0].keys[1] == "up"@);
        }
    } else if i == 1 {
        if j == 0 {
            assert(logs_view()[1].keys[0] == "j"@);
        } else if j == 1 {
            assert(logs_view()[1].keys[1] == "down"@);
        }
    } else if i == 2 {
        if j == 0 {
            assert(logs_view()[2].keys[0] == "pgdn"@);
        } else if j == 1 {
            assert(logs_view()[2].keys[1] == "pgup"@);
        }
    } else if i == 3 {
        if j == 0 {
            assert(logs_view()[3].keys[0] == "g"@);
        } else if j == 1 {
            assert(logs_view()[3].keys[1] == "home"@);
        }
    } else if i == 4 {
        if j == 0 {
            assert(logs_view()[4].keys[0] == "G"@);
        } else if j == 1 {
            assert(logs_view()[4].keys[1] == "end"@);
        }
    }
}

/// The token code of each key of the models table, by position.
pub open spec fn models_code(i: int, j: int) -> int {
    if i == 0 {
        if j == 0 {
            12154740
        } else {
            0
        }
    } else {
        if i == 1 {
            if j == 0 {
                3981312
            } else {
                0
            }
        } else {
            if i == 2 {
                if j == 0 {
                    3735552
                } else {
                    0
                }
            } else {
                if i == 3 {
                    if j == 0 {
                        2867200
                    } else {
                        0
                    }
                } else {
                    if i == 4 {
                        if j == 0 {
                            3997696
                        } else {
                            if j == 1 {
                                3473408
                            } else {
                                0
                            }
                        }
                    } else {
                        if i == 5 {
                            if j == 0 {
                                3768320
                            } else {
                                0
                            }
                        } else {
                            if i == 6 {
                                if j == 0 {
                                    4079616
                                } else {
                                    0
                                }
                            } else {
                                if i == 7 {
                                    if j == 0 {
                                        3309568
                                    } else {
                                        if j == 1 {
                                            3325952
                                        } else {
                                            0
                                        }
                                    }
                                } else {
                                    if i == 8 {
                                        if j == 0 {
                                            3964928
                                        } else {
                                            0
                                        }
                                    } else {
                                        0
                                    }
                                }
                            }
                        }
                    }
                }
            }
        }
    }
}

proof fn lemma_models_code(i: int, j: int)
    requires
        0 <= i < models_view().len(),
        0 <= j < models_view()[i].keys.len(),
    ensures
        token_code(models_view()[i].keys[j]) == models_code(i, j),
{
    reveal_tokens();
    if i == 0 {
        if j == 0 {
            assert(models_view()[0].keys[0] == "enter"@);
        }
    } else if i == 1 {
        if j == 0 {
            assert(models_view()[1].keys[0] == "s"@);
        }
    } else if i == 2 {
        if j == 0 {
            assert(models_view()[2].keys[0] == "d"@);
        }
    } else if i == 3 {
        if j == 0 {
            assert(models_view()[3].keys[0] == "/"@);
        }
    } else if i == 4 {
        if j == 0 {
            assert(models_view()[4].keys[0] == "t"@);
        } else if j == 1 {
            assert(models_view()[4].keys[1] == "T"@);
        }
    } else if i == 5 {
        if j == 0 {
            assert(models_view()[5].keys[0] == "f"@);
        }
    } else if i == 6 {
        if j == 0 {
            assert(models_view()[6].keys[0] == "y"@);
        }
    } else if i == 7 {
        if j == 0 {
            assert(models_view()[7].keys[0] == "J"@);
        } else if j == 1 {
            assert(models_view()[7].keys[1] == "K"@);
        }
    } else if i == 8 {
        if j == 0 {
            assert(models_view()[8].keys[0] == "r"@);
        }
    }
}

/// The token code of each key of the hub table, by position.
pub open spec fn hub_code(i: int, j: int) -> int {
    if i == 0 {
        if j == 0 {
            4079616
        } else {
            0
        }
    } else {
        if i == 1 {
            if j == 0 {
                12154740
            } else {
                0
            }
        } else {
            if i == 2 {
                if j == 0 {
                    3964928
                } else {
                    0
                }
            } else {
                if i == 3 {
                    if j == 0 {
                        3211264
                    } else {
                        0
                    }
                } else {
                    0
                }
            }
        }
    }
}

proof fn lemma_hub_code(i: int, j: int)
    requires
        0 <= i < hub_view().len(),
        0 <= j < hub_view()[i].keys.len(),
    ensures
        token_code(hub_view()[i].keys[j]) == hub_code(i, j),
{
    reveal_tokens();
    if i == 0 {
        if j == 0 {
            assert(hub_view()[0].keys[0] == "y"@);
        }
    } else if i == 1 {
        if j == 0 {
            assert(hub_view()[1].keys[0] == "enter"@);
        }
    } else if i == 2 {
        if j == 0 {
            assert(hub_view()[2].keys[0] == "r"@);
        }
    } else if i == 3 {
        if j == 0 {
            assert(hub_view()[3].keys[0] == "D"@);
        }
    }
}

/// The token code of each key of the server table, by position.
pub open spec fn server_code(i: int, j: int) -> int {
    if i == 0 {
        if j == 0 {
            12154740
        } else {
            0
        }
    } else {
        if i == 1 {
            if j == 0 {
                3981312
            } else {
                0
            }
        } else {
            if i == 2 {
                if j == 0 {
                    3932160
                } else {
                    0
                }
            } else {
                0
            }
        }
    }
}

proof fn lemma_server_code(i: int, j: int)
    requires
        0 <= i < server_view().len(),
        0 <= j < server_view()[i].keys.len(),
    ensures
        token_code(server_view()[i].keys[j]) == server_code(i, j),
{
    reveal_tokens();
    if i == 0 {
        if j == 0 {
            assert(server_view()[0].keys[0] == "enter"@);
        }
    } else if i == 1 {
        if j == 0 {
            assert(server_view()[1].keys[0] == "s"@);
        }
    } else if i == 2 {
        if j == 0 {
            assert(server_view()[2].keys[0] == "p"@);
        }
    }
}

/// The token code of each key of the router table, by position.
pub open spec fn router_code(i: int, j: int) -> int {
    if i == 0 {
        if j == 0 {
            2801664
        } else {
            if j == 1 {
                3096576
            } else {
                if j == 2 {
                    2834432
                } else {
                    if j == 3 {
                        3653632
                    } else {
                        0
                    }
                }
            }
        }
    } else {
        if i == 1 {
            if j == 0 {
                12154740
            } else {
                0
            }
        } else {
            if i == 2 {
                if j == 0 {
                    3981312
                } else {
                    0
                }
            } else {
                if i == 3 {
                    if j == 0 {
                        3964928
                    } else {
                        0
                    }
                } else {
                    if i == 4 {
                        if j == 0 {
                            4079616
                        } else {
                            0
                        }
                    } else {
                        if i == 5 {
                            if j == 0 {
                                3309568
                            } else {
                                if j == 1 {
                                    3325952
                                } else {
                                    0
                                }
                            }
                        } else {
                            0
                        }
                    }
                }
            }
        }
    }
}

proof fn lemma_router_code(i: int, j: int)
    requires
        0 <= i < router_view().len(),
        0 <= j < router_view()[i].keys.len(),
    ensures
        token_code(router_view()[i].keys[j]) == router_code(i, j),
{
    reveal_tokens();
    if i == 0 {
        if j == 0 {
            assert(router_view()[0].keys[0] == "+"@);
        } else if j == 1 {
            assert(router_view()[0].keys[1] == "="@);
        } else if j == 2 {
            assert(router_view()[0].keys[2] == "-"@);
        } else if j == 3 {
            assert(router_view()[0].keys[3] == "_"@);
        }
    } else if i == 1 {
        if j == 0 {
            assert(router_view()[1].keys[0] == "enter"@);
        }
    } else if i == 2 {
        if j == 0 {
            assert(router_view()[2].keys[0] == "s"@);
        }
    } else if i == 3 {
        if j == 0 {
            assert(router_view()[3].keys[0] == "r"@);
        }
    } else if i == 4 {
        if j == 0 {
            assert(router_view()[4].keys[0] == "y"@);
        }
    } else if i == 5 {
        if j == 0 {
            assert(router_view()[5].keys[0] == "J"@);
        } else if j == 1 {
            assert(router_view()[5].keys[1] == "K"@);
        }
    }
}

/// The token code of each key of the test table, by position.
pub open spec fn test_code(i: int, j: int) -> int {
    if i == 0 {
        if j == 0 {
            12154740
        } else {
            0
        }
    } else {
        if i == 1 {
            if j == 0 {
                3751936
            } else {
                0
            }
        } else {
            if i == 2 {
                if j == 0 {
                    3964928
                } else {
                    0
                }
            } else {
                0
            }
        }
    }
}

proof fn lemma_test_code(i: int, j: int)
    requires
        0 <= i < test_view().len(),
        0 <= j < test_view()[i].keys.len(),
    ensures
        token_code(test_view()[i].keys[j]) == test_code(i, j),
{
    reveal_tokens();
    if i == 0 {
        if j == 0 {
            assert(test_view()[0].keys[0] == "enter"@);
        }
    } else if i == 1 {
        if j == 0 {
            assert(test_view()[1].keys[0] == "e"@);
        }
    } else if i == 2 {
        if j == 0 {
            assert(test_view()[2].keys[0] == "r"@);
        }
    }
}

/// The token code of each key of the stats table, by position.
pub open spec fn stats_code(i: int, j: int) -> int {
    if i == 0 {
        if j == 0 {
            2801664
        } else {
            if j == 1 {
                3096576
            } else {
                if j == 2 {
                    2834432
                } else {
                    if j == 3 {
                        3653632
                    } else {
                        0
                    }
                }
            }
        }
    } else {
        if i == 1 {
            if j == 0 {
                3964928
            } else {
                0
            }
        } else {
            0
        }
    }
}

proof fn lemma_stats_code(i: int, j: int)
    requires
        0 <= i < stats_view().len(),
        0 <= j < stats_view()[i].keys.len(),
    ensures
        token_code(stats_view()[i].keys[j]) == stats_code(i, j),
{
    reveal_tokens();
    if i == 0 {
        if j == 0 {
            assert(stats_view()[0].keys[0] == "+"@);
        } else if j == 1 {
            assert(stats_view()[0].keys[1] == "="@);
        } else if j == 2 {
            assert(stats_view()[0].keys[2] == "-"@);
        } else if j == 3 {
            assert(stats_view()[0].keys[3] == "_"@);
        }
    } else if i == 1 {
        if j == 0 {
            assert(stats_view()[1].keys[0] == "r"@);
        }
    }
}

/// The token code of each key of the settings table, by position.
pub open spec fn settings_code(i: int, j: int) -> int {
    if i == 0 {
        if j == 0 {
            12154740
        } else {
            0
        }
    } else {
        if i == 1 {
            if j == 0 {
                3883008
            } else {
                0
            }
        } else {
            if i == 2 {
                if j == 0 {
                    4063232
                } else {
                    0
                }
            } else {
                if i == 3 {
                    if j == 0 {
                        3538944
                    } else {
                        0
                    }
                } else {
                    0
                }
            }
        }
    }
}

proof fn lemma_settings_code(i: int, j: int)
    requires
        0 <= i < settings_view().len(),
        0 <= j < settings_view()[i].keys.len(),
    ensures
        token_code(settings_view()[i].keys[j]) == settings_code(i, j),
{
    reveal_tokens();
    if i == 0 {
        if j == 0 {
            assert(settings_view()[0].keys[0] == "enter"@);
        }
    } else if i == 1 {
        if j == 0 {
            assert(settings_view()[1].keys[0] == "m"@);
        }
    } else if i == 2 {
        if j == 0 {
            assert(settings_view()[2].keys[0] == "x"@);
        }
    } else if i == 3 {
        if j == 0 {
            assert(settings_view()[3].keys[0] == "X"@);
        }
    }
}

/// The token code of a key of `screen`, by position.
pub open spec fn screen_code(screen: Screen, i: int, j: int) -> int {
    let m = moves_view().len() as int;
    if screen_moves(screen) && i < m {
        moves_code(i, j)
    } else {
        let o = if screen_moves(screen) { i - m } else { i };
        match screen {
            Screen::Models => models_code(o, j),
            Screen::Hub => hub_code(o, j),
            Screen::Server => server_code(o, j),
            Screen::Router => router_code(o, j),
            Screen::Test => test_code(o, j),
            Screen::Stats => stats_code(o, j),
            Screen::Settings => settings_code(o, j),
            Screen::Logs => logs_code(o, j),
        }
    }
}

proof fn lemma_screen_code(screen: Screen, i: int, j: int)
    requires
        0 <= i < for_screen_view(screen).len(),
        0 <= j < for_screen_view(screen)[i].keys.len(),
    ensures
        token_code(for_screen_view(screen)[i].keys[j]) == screen_code(screen, i, j),
{
    let bs = for_screen_view(screen);
    let m = moves_view().len() as int;
    if screen_moves(screen) && i < m {
        assert(bs[i] == moves_view()[i]);
        lemma_moves_code(i, j);
    } else {
        let o = if screen_moves(screen) { i - m } else { i };
        assert(bs[i] == own_view(screen)[o]);
        match screen {
            Screen::Models => lemma_models_code(o, j),
            Screen::Hub => lemma_hub_code(o, j),
            Screen::Server => lemma_server_code(o, j),
            Screen::Router => lemma_router_code(o, j),
            Screen::Test => lemma_test_code(o, j),
            Screen::Stats => lemma_stats_code(o, j),
            Screen::Settings => lemma_settings_code(o, j),
            Screen::Logs => lemma_logs_code(o, j),
        }
    }
}

/// A screen never binds the same key twice: one of the two bindings
/// would be listed and never fire.
pub proof fn lemma_a_screen_never_binds_the_same_key_twice(
    screen: Screen,
    i: int,
    j: int,
    i2: int,
    j2: int,
)
    requires
        0 <= i < for_screen_view(screen).len(),
        0 <= j < for_screen_view(screen)[i].keys.len(),
        0 <= i2 < for_screen_view(screen).len(),
        0 <= j2 < for_screen_view(screen)[i2].keys.len(),
        i != i2 || j != j2,
    ensures
        for_screen_view(screen)[i].keys[j] != for_screen_view(screen)[i2].keys[j2],
{
    lemma_screen_code(screen, i, j);
    lemma_screen_code(screen, i2, j2);
    let bs = for_screen_view(screen);
    let m = moves_view().len() as int;
    assert(forall|a: int| #![trigger bs[a]] 0 <= a < bs.len() ==> (if screen_moves(screen) && a < m {
        bs[a].keys.len() == moves_view()[a].keys.len()
    } else {
        bs[a].keys.len() == own_view(screen)[if screen_moves(screen) { a - m } else { a }].keys.len()
    }));
}

/// The global table documents exactly the keys that work on every
/// screen: a key does something before the screen's own keys are
/// consulted if and only if its name is listed there.
pub proof fn lemma_the_global_keys_are_the_documented_ones(screen: Screen, live: bool, key: Key)
    ensures
        global_key_view(screen, live, key) is Some ==> token_view(key) is Some && names_key(
            global_view(),
            token_view(key)->0,
        ),
        token_view(key) is Some && names_key(global_view(), token_view(key)->0) ==> global_key_view(
            screen,
            live,
            key,
        ) is Some,
{
    reveal_tokens();
    let g = global_view();
    // Whatever the table names has one of the global codes.
    if token_view(key) is Some && names_key(g, token_view(key)->0) {
        let t = token_view(key)->0;
        let (i, j) = choose|i: int, j: int|
            0 <= i < g.len() && 0 <= j < g[i].keys.len() && #[trigger] g[i].keys[j] == t;
        lemma_global_key_code(i, j);
        assert(is_global_code(token_code(t)));
    }
    match key {
        Key::Tab => {
            assert(g[0].keys[0] == "tab"@);
        },
        Key::Right => {
            assert(g[0].keys[1] == "right"@);
        },
        Key::BackTab => {
            assert(g[1].keys[0] == "shift+tab"@);
        },
        Key::Left => {
            assert(g[1].keys[1] == "left"@);
        },
        Key::Char(c) => {
            assert(token_view(key) == Some(seq![c]));
            assert(token_code(seq![c]) == 2097152 + (c as int) * 16384);
            if c == '1' {
                assert(g[2].keys[0] == seq!['1']);
            } else if c == '2' {
                assert(g[2].keys[1] == seq!['2']);
            } else if c == '3' {
                assert(g[2].keys[2] == seq!['3']);
            } else if c == '4' {
                assert(g[2].keys[3] == seq!['4']);
            } else if c == '5' {
                assert(g[2].keys[4] == seq!['5']);
            } else if c == '6' {
                assert(g[2].keys[5] == seq!['6']);
            } else if c == '7' {
                assert(g[2].keys[6] == seq!['7']);
            } else if c == '8' {
                assert(g[2].keys[7] == seq!['8']);
            } else if c == 'c' {
                assert(g[3].keys[0] == seq!['c']);
            } else if c == ':' {
                assert(g[4].keys[0] == seq![':']);
            } else if c == '?' {
                assert(g[5].keys[0] == seq!['?']);
            } else if c == 'q' {
                assert(g[6].keys[0] == seq!['q']);
            } else if c == 'Q' {
                assert(g[7].keys[0] == seq!['Q']);
            } else {
                assert(!is_global_code(2097152 + (c as int) * 16384));
            }
        },
        Key::Enter => assert(!is_global_code(token_code("enter"@))),
        Key::Esc => {
            reveal_strlit("esc");
            assert(!is_global_code(token_code("esc"@)));
        },
        Key::Up => assert(!is_global_code(token_code("up"@))),
        Key::Down => assert(!is_global_code(token_code("down"@))),
        Key::PageUp => assert(!is_global_code(token_code("pgup"@))),
        Key::PageDown => assert(!is_global_code(token_code("pgdn"@))),
        Key::Home => assert(!is_global_code(token_code("home"@))),
        Key::End => assert(!is_global_code(token_code("end"@))),
        Key::Backspace => {
            reveal_strlit("backspace");
            assert(!is_global_code(token_code("backspace"@)));
        },
        Key::Other => {},
    }
}

/// The keys a movement table lists, by their codes: `j`/down, `k`/up,
/// the page keys, `g`/home and `G`/end.
pub open spec fn is_movement_code(c: int) -> bool {
    c == 3833856 || c == 10041335 || c == 3850240 || c == 6125568 || c == 10236900 || c == 10236917
        || c == 3784704 || c == 10106861 || c == 3260416 || c == 7960420
}

/// Which keys move a cursor, told apart by their codes.
proof fn lemma_movement_keys(key: Key)
    ensures
        token_view(key) is Some ==> (moved_view(0, 1, key, 0) is Some <==> is_movement_code(
            token_code(token_view(key)->0),
        )),
{
    reveal_tokens();
    match key {
        Key::Char(c) => {
            assert(token_code(seq![c]) == 2097152 + (c as int) * 16384);
        },
        Key::Enter => {},
        Key::Esc => reveal_strlit("esc"),
        Key::Tab => {},
        Key::BackTab => {},
        Key::Up => {},
        Key::Down => {},
        Key::Left => {},
        Key::Right => {},
        Key::PageUp => {},
        Key::PageDown => {},
        Key::Home => {},
        Key::End => {},
        Key::Backspace => reveal_strlit("backspace"),
        Key::Other => {},
    }
}

/// The keys that move the cursor of every list are exactly the ones the
/// shared movement table documents: none is handled and unlisted, none
/// listed and dead.
pub proof fn lemma_the_movement_keys_are_the_documented_ones(cursor: int, len: int, key: Key, page: int)
    requires
        len > 0,
    ensures
        moved_view(cursor, len, key, page) is Some ==> token_view(key) is Some && names_key(
            moves_view(),
            token_view(key)->0,
        ),
        token_view(key) is Some && names_key(moves_view(), token_view(key)->0) ==> moved_view(
            cursor,
            len,
            key,
            page,
        ) is Some,
{
    reveal_tokens();
    lemma_movement_keys(key);
    let m = moves_view();
    assert(moved_view(cursor, len, key, page) is Some <==> moved_view(0, 1, key, 0) is Some);
    if token_view(key) is Some && names_key(m, token_view(key)->0) {
        let t = token_view(key)->0;
        let (i, j) = choose|i: int, j: int|
            0 <= i < m.len() && 0 <= j < m[i].keys.len() && #[trigger] m[i].keys[j] == t;
        lemma_moves_code(i, j);
        assert(m[i].keys.len() == 2);
    }
    if moved_view(0, 1, key, 0) is Some {
        match key {
            Key::Down => assert(m[0].keys[1] == "down"@),
            Key::Up => assert(m[1].keys[1] == "up"@),
            Key::PageDown => assert(m[2].keys[0] == "pgdn"@),
            Key::PageUp => assert(m[2].keys[1] == "pgup"@),
            Key::Home => assert(m[3].keys[1] == "home"@),
            Key::End => assert(m[4].keys[1] == "end"@),
            Key::Char(c) => {
                if c == 'j' {
                    assert(m[0].keys[0] == seq!['j']);
                } else if c == 'k' {
                    assert(m[1].keys[0] == seq!['k']);
                } else if c == 'g' {
                    assert(m[3].keys[0] == seq!['g']);
                } else {
                    assert(m[4].keys[0] == seq!['G']);
                }
            },
            _ => {},
        }
    }
}

/// The keys that move through the Logs scrollback are exactly the ones
/// the Logs screen documents.
pub proof fn lemma_the_scroll_keys_are_the_documented_ones(key: Key)
    ensures
        moved_view(0, 1, key, 0) is Some ==> token_view(key) is Some && names_key(
            for_screen_view(Screen::Logs),
            token_view(key)->0,
        ),
        token_view(key) is Some && names_key(for_screen_view(Screen::Logs), token_view(key)->0)
            ==> moved_view(0, 1, key, 0) is Some,
{
    reveal_tokens();
    lemma_movement_keys(key);
    let l = for_screen_view(Screen::Logs);
    assert(l == logs_view());
    if token_view(key) is Some && names_key(l, token_view(key)->0) {
        let t = token_view(key)->0;
        let (i, j) = choose|i: int, j: int|
            0 <= i < l.len() && 0 <= j < l[i].keys.len() && #[trigger] l[i].keys[j] == t;
        lemma_logs_code(i, j);
        assert(l[i].keys.len() == 2);
    }
    if moved_view(0, 1, key, 0) is Some {
        match key {
            Key::Up => assert(l[0].keys[1] == "up"@),
            Key::Down => assert(l[1].keys[1] == "down"@),
            Key::PageDown => assert(l[2].keys[0] == "pgdn"@),
            Key::PageUp => assert(l[2].keys[1] == "pgup"@),
            Key::Home => assert(l[3].keys[1] == "home"@),
            Key::End => assert(l[4].keys[1] == "end"@),
            Key::Char(c) => {
                if c == 'k' {
                    assert(l[0].keys[0] == seq!['k']);
                } else if c == 'j' {
                    assert(l[1].keys[0] == seq!['j']);
                } else if c == 'g' {
                    assert(l[3].keys[0] == seq!['g']);
                } else {
                    assert(l[4].keys[0] == seq!['G']);
                }
            },
            _ => {},
        }
    }
}

/// Joining one more hint never makes the line shorter.
proof fn lemma_join_grows(bs: Seq<BindingView>, m: int)
    requires
        1 <= m <= bs.len(),
    ensures
        join_view(bs.subrange(0, m - 1)).len() <= join_view(bs.subrange(0, m)).len(),
{
    if m >= 2 {
        assert(bs.subrange(0, m).drop_last() =~= bs.subrange(0, m - 1));
    }
}

/// Longer prefixes join to longer lines.
proof fn lemma_join_monotone(bs: Seq<BindingView>, a: int, b: int)
    requires
        0 <= a <= b <= bs.len(),
    ensures
        join_view(bs.subrange(0, a)).len() <= join_view(bs.subrange(0, b)).len(),
    decreases b - a,
{
    if a < b {
        lemma_join_grows(bs, b);
        lemma_join_monotone(bs, a, b - 1);
    }
}

/// Where the fitting stops, the next hint no longer fits.
proof fn lemma_kept_stops(bs: Seq<BindingView>, width: int, i: int)
    requires
        0 <= i,
    ensures
        kept_from(bs, width, i) >= i,
        kept_from(bs, width, i) < bs.len() ==> join_view(bs.subrange(0, kept_from(bs, width, i) + 1)).len()
            + SEPARATOR@.len() + MORE@.len() > width,
    decreases bs.len() - i,
{
    if i < bs.len() && join_view(bs.subrange(0, i + 1)).len() + SEPARATOR@.len() + MORE@.len() <= width {
        lemma_kept_stops(bs, width, i + 1);
    }
}

/// A shortened footer keeps as many hints as fit beside the marker, and
/// drops them from the end only: every longer run of the leading hints
/// would run past the width.
pub proof fn lemma_the_footer_keeps_as_many_hints_as_fit(screen: Screen, width: int, m: int)
    requires
        kept_from(briefs(for_screen_view(screen)), width, 0) < m <= briefs(for_screen_view(screen)).len(),
    ensures
        join_view(briefs(for_screen_view(screen)).subrange(0, m)).len() + SEPARATOR@.len() + MORE@.len()
            > width,
        forall|k: int|
            1 <= k <= kept_from(briefs(for_screen_view(screen)), width, 0) ==> #[trigger] join_view(
                briefs(for_screen_view(screen)).subrange(0, k),
            ).len() + SEPARATOR@.len() + MORE@.len() <= width,
{
    let bs = briefs(for_screen_view(screen));
    let k = kept_from(bs, width, 0);
    lemma_kept_stops(bs, width, 0);
    lemma_join_monotone(bs, k + 1, m);
    assert forall|j: int| 1 <= j <= k implies #[trigger] join_view(bs.subrange(0, j)).len()
        + SEPARATOR@.len() + MORE@.len() <= width by {
        lemma_kept_fits(bs, width, 0);
        lemma_join_monotone(bs, j, k);
    }
}

/// The four screens with a list share the movement table, first in their
/// own; the other four do not begin with it.
pub proof fn lemma_only_the_lists_share_the_movement_keys(screen: Screen)
    ensures
        (for_screen_view(screen).len() >= moves_view().len() && for_screen_view(screen).subrange(
            0,
            moves_view().len() as int,
        ) == moves_view()) <==> (screen is Models || screen is Hub || screen is Router
            || screen is Settings),
{
    reveal_tokens();
    let f = for_screen_view(screen);
    let m = moves_view();
    if screen_moves(screen) {
        assert(f.subrange(0, m.len() as int) =~= m);
    } else if screen is Logs {
        assert(f[0].keys[0] == "k"@);
        assert(m[0].keys[0] == "j"@);
        if f.len() >= m.len() && f.subrange(0, m.len() as int) == m {
            assert(f.subrange(0, m.len() as int)[0] == f[0]);
        }
    }
}

} // verus!
