//! What the command bar's `launch` and `router` lines mean, before any
//! process is touched.

use vstd::prelude::*;
use vstd::string::*;
use crate::app::{router_command_view, router_flags_line};
use crate::commands::{all_view, Handler};
use crate::components::hub::{human_bytes, human_bytes_view};
use crate::text::{all_digits, push_decimal};
use crate::text::{
    chars_of, decimal, is_space, is_whitespace, lemma_decimal_digits, lemma_parse_decimal, lemma_trim_between,
    lemma_trim_untouched, lemma_words_cons, lemma_words_single, parse_u32, parse_u32_chars,
    same_chars, split_words, starts_with, string_of, strings_view, trim, trim_chars, vecs_view,
    words,
};

verus! {

/// How many models the router keeps resident unless told otherwise — the
/// same default `start-router.sh` uses (`--models-max 2`).
pub const DEFAULT_MODELS_MAX: u32 = 2;

/// How long an idle model survives in the router unless told otherwise
/// (`--sleep-idle-seconds 300`).
pub const DEFAULT_SLEEP_IDLE_SECONDS: u32 = 300;

/// Whether a bare `--` token stands at `i`: two dashes with whitespace (or
/// an end of the text) on either side.
pub open spec fn bare_dashes_at(s: Seq<char>, i: int) -> bool {
    &&& 0 <= i
    &&& i + 1 < s.len()
    &&& s[i] == '-'
    &&& s[i + 1] == '-'
    &&& (i == 0 || is_space(s[i - 1]))
    &&& (i + 2 == s.len() || is_space(s[i + 2]))
}

/// Index of the first bare `--` token in `s[i..]`, or -1 when there is
/// none.
pub open spec fn dashes_from(s: Seq<char>, i: int) -> int
    decreases s.len() - i,
{
    if i < 0 || i + 1 >= s.len() {
        -1
    } else if bare_dashes_at(s, i) {
        i
    } else {
        dashes_from(s, i + 1)
    }
}

/// What `"<model> -- <extra args>"` splits into: the model name (the text
/// before the first bare `--` token, trimmed), and the whitespace-separated
/// words after it. Dashes inside a word are part of the word.
pub open spec fn extra_args_split(rest: Seq<char>) -> (Seq<char>, Seq<Seq<char>>) {
    let k = dashes_from(rest, 0);
    if k >= 0 {
        (trim(rest.subrange(0, k)), words(rest.subrange(k + 2, rest.len() as int)))
    } else {
        (trim(rest), Seq::empty())
    }
}

/// The `router` flags, read left to right from token `i`: `--max N` and
/// `--idle S` take a number when one follows, and anything else is kept
/// as an extra flag for llama-server.
pub open spec fn router_flags_from(
    t: Seq<Seq<char>>,
    i: int,
    models_max: u32,
    sleep_idle: u32,
    extra: Seq<Seq<char>>,
) -> (u32, u32, Seq<Seq<char>>)
    decreases t.len() - i,
{
    if i < 0 || i >= t.len() {
        (models_max, sleep_idle, extra)
    } else if t[i] == "--max"@ && i + 1 < t.len() && parse_u32(t[i + 1]) is Some {
        router_flags_from(t, i + 2, parse_u32(t[i + 1])->0, sleep_idle, extra)
    } else if t[i] == "--idle"@ && i + 1 < t.len() && parse_u32(t[i + 1]) is Some {
        router_flags_from(t, i + 2, models_max, parse_u32(t[i + 1])->0, extra)
    } else {
        router_flags_from(t, i + 1, models_max, sleep_idle, extra.push(t[i]))
    }
}

/// `router [--max N] [--idle S] [extra...]`, from the defaults.
pub open spec fn router_flags(rest: Seq<char>) -> (u32, u32, Seq<Seq<char>>) {
    router_flags_from(words(rest), 0, DEFAULT_MODELS_MAX, DEFAULT_SLEEP_IDLE_SECONDS, Seq::empty())
}

/// The first `--` in `s`, if any.
fn find_dashes(s: &[char]) -> (res: Option<usize>)
    ensures
        match res {
            Some(k) => k as int == dashes_from(s@, 0) && k + 2 <= s@.len(),
            None => dashes_from(s@, 0) == -1,
        },
{
    let mut i: usize = 0;
    while i < s.len() && i + 1 < s.len()
        invariant
            dashes_from(s@, 0) == dashes_from(s@, i as int),
        decreases s.len() - i,
    {
        if s[i] == '-' && s[i + 1] == '-' && (i == 0 || is_whitespace(s[i - 1])) && (i + 2
            == s.len() || is_whitespace(s[i + 2])) {
            return Some(i);
        }
        i = i + 1;
    }
    None
}

/// Copies `s[a..b]`.
fn slice_chars(s: &[char], a: usize, b: usize) -> (res: Vec<char>)
    requires
        a <= b <= s@.len(),
    ensures
        res@ == s@.subrange(a as int, b as int),
{
    let mut v: Vec<char> = Vec::new();
    for i in a..b
        invariant
            a <= b <= s@.len(),
            v@ == s@.subrange(a as int, i as int),
    {
        v.push(s[i]);
    }
    v
}

/// Owned strings for a list of character vectors.
fn strings_of(parts: &Vec<Vec<char>>) -> (res: Vec<String>)
    ensures
        strings_view(res@) == vecs_view(parts@),
{
    let mut out: Vec<String> = Vec::new();
    for i in 0..parts.len()
        invariant
            out@.len() == i,
            strings_view(out@) == vecs_view(parts@).subrange(0, i as int),
    {
        let ghost before = out@;
        let word = string_of(parts[i].as_slice());
        out.push(word);
        assert(strings_view(out@) =~= vecs_view(parts@).subrange(0, i + 1)) by {
            assert forall|j: int| 0 <= j < i + 1 implies strings_view(out@)[j] == vecs_view(
                parts@,
            ).subrange(0, i + 1)[j] by {
                if j < i {
                    assert(strings_view(before)[j] == vecs_view(parts@).subrange(0, i as int)[j]);
                }
            }
        }
    }
    assert(vecs_view(parts@).subrange(0, parts@.len() as int) =~= vecs_view(parts@));
    out
}

/// Splits `"<model> -- <extra llama-server args>"` the way a shell would,
/// without needing one: everything before a bare `--` token is the model
/// name, everything after it is passed straight through as CLI overrides.
/// A `--` inside a word (`my--model`) is part of that word.
pub fn split_extra_args(rest: &str) -> (res: (String, Vec<String>))
    ensures
        (res.0@, strings_view(res.1@)) == extra_args_split(rest@),
{
    let s = chars_of(rest);
    let found = find_dashes(s.as_slice());
    match found {
        Some(k) => {
            let end = s.len();
            assert(k + 2 <= end);
            let model = slice_chars(s.as_slice(), 0, k);
            let extra = slice_chars(s.as_slice(), k + 2, end);
            let name = trim_chars(model.as_slice());
            let words = split_words(extra.as_slice());
            (string_of(name.as_slice()), strings_of(&words))
        },
        None => {
            let name = trim_chars(s.as_slice());
            let out: Vec<String> = Vec::new();
            assert(strings_view(out@) =~= Seq::<Seq<char>>::empty());
            (string_of(name.as_slice()), out)
        },
    }
}

/// Parses `router [--max N] [--idle S]`, defaulting to the same values as
/// `start-router.sh` (`--models-max 2 --sleep-idle-seconds 300`). Anything
/// else on the line is forwarded as extra llama-server flags.
pub fn parse_router_flags(rest: &str) -> (res: (u32, u32, Vec<String>))
    ensures
        (res.0, res.1, strings_view(res.2@)) == router_flags(rest@),
{
    let s = chars_of(rest);
    let parts = split_words(s.as_slice());
    let tokens = strings_of(&parts);
    let ghost t = strings_view(tokens@);
    let max_flag = chars_of("--max");
    let idle_flag = chars_of("--idle");

    let mut models_max = DEFAULT_MODELS_MAX;
    let mut sleep_idle = DEFAULT_SLEEP_IDLE_SECONDS;
    let mut extra: Vec<String> = Vec::new();
    let mut i: usize = 0;
    assert(strings_view(extra@) =~= Seq::<Seq<char>>::empty());
    while i < tokens.len()
        invariant
            t == strings_view(tokens@),
            t == words(rest@),
            max_flag@ == "--max"@,
            idle_flag@ == "--idle"@,
            i <= tokens@.len(),
            router_flags(rest@) == router_flags_from(t, i as int, models_max, sleep_idle, strings_view(extra@)),
        decreases tokens.len() - i,
    {
        let token = chars_of(tokens[i].as_str());
        let is_max = same_chars(token.as_slice(), max_flag.as_slice());
        let is_idle = same_chars(token.as_slice(), idle_flag.as_slice());
        let value = if (is_max || is_idle) && i + 1 < tokens.len() {
            let next = chars_of(tokens[i + 1].as_str());
            parse_u32_chars(next.as_slice())
        } else {
            None
        };
        assert(t[i as int] == tokens@[i as int]@);
        if is_max && value.is_some() {
            models_max = value.unwrap();
            i = i + 2;
        } else if is_idle && value.is_some() {
            sleep_idle = value.unwrap();
            i = i + 2;
        } else {
            let ghost before = extra@;
            extra.push(tokens[i].clone());
            assert(strings_view(extra@) =~= strings_view(before).push(t[i as int]));
            i = i + 1;
        }
    }
    (models_max, sleep_idle, extra)
}

/// Where a command line goes once it reaches the executor.
#[derive(Debug, PartialEq, Eq)]
pub enum Route {
    /// `launch <model> [-- args]`, or `launch!` when the port-in-use check
    /// was already answered by the user.
    Launch { rest: String, force: bool },
    /// `router [--max N] [--idle S] [args]`.
    Router { rest: String },
    Stop,
    Ping { model: String },
    Status,
    /// Re-ask llama.cpp what it has locally.
    Cache,
    /// Anything else runs as a shell command, exactly as typed.
    Script { command: String },
}

/// A route as plain values.
pub enum RouteView {
    Launch { rest: Seq<char>, force: bool },
    Router { rest: Seq<char> },
    Stop,
    Ping { model: Seq<char> },
    Status,
    Cache,
    Script { command: Seq<char> },
}

impl View for Route {
    type V = RouteView;

    open spec fn view(&self) -> RouteView {
        match self {
            Route::Launch { rest, force } => RouteView::Launch { rest: rest@, force: *force },
            Route::Router { rest } => RouteView::Router { rest: rest@ },
            Route::Stop => RouteView::Stop,
            Route::Ping { model } => RouteView::Ping { model: model@ },
            Route::Status => RouteView::Status,
            Route::Cache => RouteView::Cache,
            Route::Script { command } => RouteView::Script { command: command@ },
        }
    }
}

/// Whether `t` begins with `prefix`.
pub open spec fn has_prefix(t: Seq<char>, prefix: Seq<char>) -> bool {
    prefix.len() <= t.len() && t.subrange(0, prefix.len() as int) == prefix
}

/// Whether `t` is the command `name`, alone or followed by arguments.
pub open spec fn invokes(t: Seq<char>, name: Seq<char>) -> bool {
    t == name || has_prefix(t, name + seq![' '])
}

/// What follows the command word `name` at the start of `t`, trimmed.
pub open spec fn after(t: Seq<char>, name: Seq<char>) -> Seq<char> {
    trim(t.subrange(name.len() as int, t.len() as int))
}

/// Where a command line goes: matched on the trimmed line, `launch!`
/// before `launch`; anything unrecognised runs as a shell command.
pub open spec fn route_view(command: Seq<char>) -> RouteView {
    let t = trim(command);
    if invokes(t, "launch!"@) {
        RouteView::Launch { rest: after(t, "launch!"@), force: true }
    } else if invokes(t, "launch"@) {
        RouteView::Launch { rest: after(t, "launch"@), force: false }
    } else if invokes(t, "router"@) {
        RouteView::Router { rest: after(t, "router"@) }
    } else if t == "stop"@ {
        RouteView::Stop
    } else if invokes(t, "ping"@) {
        RouteView::Ping { model: after(t, "ping"@) }
    } else if t == "status"@ {
        RouteView::Status
    } else if t == "cache"@ {
        RouteView::Cache
    } else {
        RouteView::Script { command }
    }
}

/// Whether the line is the command `name`, alone or with arguments.
fn is_invocation(t: &[char], name: &str) -> (res: bool)
    ensures
        res == invokes(t@, name@),
{
    let word = chars_of(name);
    let mut spaced = chars_of(name);
    spaced.push(' ');
    assert(spaced@ =~= name@ + seq![' ']);
    same_chars(t, word.as_slice()) || starts_with(t, spaced.as_slice())
}

/// What follows the command word, trimmed.
fn rest_after(t: &[char], name: &str) -> (res: String)
    requires
        name@.len() <= t@.len(),
    ensures
        res@ == after(t@, name@),
{
    let n = name.unicode_len();
    let mut tail: Vec<char> = Vec::new();
    for i in n..t.len()
        invariant
            n == name@.len(),
            n <= t@.len(),
            tail@ == t@.subrange(n as int, i as int),
    {
        tail.push(t[i]);
    }
    string_of(trim_chars(tail.as_slice()).as_slice())
}

/// Decides what the executor does with a command line. The launch and
/// router lines carry their arguments on, trimmed; a line no command
/// claims is run by the shell exactly as it was typed.
pub fn route(command: &str) -> (res: Route)
    ensures
        res@ == route_view(command@),
{
    let line = trim_chars(chars_of(command).as_slice());
    let t = line.as_slice();
    proof {
        reveal_strlit("launch!");
        reveal_strlit("launch");
        reveal_strlit("router");
        reveal_strlit("ping");
    }
    if is_invocation(t, "launch!") {
        return Route::Launch { rest: rest_after(t, "launch!"), force: true };
    }
    if is_invocation(t, "launch") {
        return Route::Launch { rest: rest_after(t, "launch"), force: false };
    }
    if is_invocation(t, "router") {
        return Route::Router { rest: rest_after(t, "router") };
    }
    if same_chars(t, chars_of("stop").as_slice()) {
        return Route::Stop;
    }
    if is_invocation(t, "ping") {
        return Route::Ping { model: rest_after(t, "ping") };
    }
    if same_chars(t, chars_of("status").as_slice()) {
        return Route::Status;
    }
    if same_chars(t, chars_of("cache").as_slice()) {
        return Route::Cache;
    }
    Route::Script { command: String::from_str(command) }
}

/// A run of decimal digits holds no whitespace.
proof fn lemma_digits_unspaced(n: u32)
    ensures
        decimal(n as nat).len() > 0,
        forall|j: int| 0 <= j < decimal(n as nat).len() ==> !is_space(#[trigger] decimal(n as nat)[j]),
{
    lemma_decimal_digits(n as nat);
    assert forall|j: int| 0 <= j < decimal(n as nat).len() implies !is_space(
        #[trigger] decimal(n as nat)[j],
    ) by {
        assert('0' <= decimal(n as nat)[j] <= '9');
    }
}

/// The router line is routed to the router, carrying its flags.
proof fn lemma_the_router_line_is_routed(models_max: u32, sleep_idle_seconds: u32)
    ensures
        route_view(router_command_view(models_max as nat, sleep_idle_seconds as nat)) == (RouteView::Router {
            rest: router_flags_line(models_max as nat, sleep_idle_seconds as nat),
        }),
{
    let r = router_flags_line(models_max as nat, sleep_idle_seconds as nat);
    let c = router_command_view(models_max as nat, sleep_idle_seconds as nat);
    let d2 = decimal(sleep_idle_seconds as nat);
    lemma_digits_unspaced(models_max);
    lemma_digits_unspaced(sleep_idle_seconds);
    reveal_strlit("router");
    reveal_strlit("launch!");
    reveal_strlit("launch");
    reveal_strlit("--max");
    // Already trimmed: it starts with a letter and ends with a digit.
    assert(c[0] == 'r');
    assert(r.last() == d2.last());
    assert(c.last() == r.last());
    lemma_trim_untouched(c);
    // Not a launch.
    assert(!invokes(c, "launch!"@)) by {
        assert(("launch!"@ + seq![' '])[0] == 'l');
    }
    assert(!invokes(c, "launch"@)) by {
        assert(("launch"@ + seq![' '])[0] == 'l');
    }
    // The router, handed its flags without the space before them.
    assert(c.subrange(0, 7) =~= "router"@ + seq![' ']);
    let tail = c.subrange(6, c.len() as int);
    assert(tail =~= seq![' '] + r);
    assert(r[0] == '-');
    lemma_trim_between(tail, 1, tail.len() as int);
    assert(tail.subrange(1, tail.len() as int) =~= r);
}

/// The router's flags read back as the two numbers, and nothing else.
proof fn lemma_the_router_flags_read_back(models_max: u32, sleep_idle_seconds: u32)
    ensures
        router_flags(router_flags_line(models_max as nat, sleep_idle_seconds as nat)) == (
            models_max,
            sleep_idle_seconds,
            Seq::<Seq<char>>::empty(),
        ),
{
    let d1 = decimal(models_max as nat);
    let d2 = decimal(sleep_idle_seconds as nat);
    let r = router_flags_line(models_max as nat, sleep_idle_seconds as nat);
    lemma_digits_unspaced(models_max);
    lemma_digits_unspaced(sleep_idle_seconds);
    reveal_strlit("--max");
    reveal_strlit("--idle");
    let idle_part = "--idle"@ + seq![' '] + d2;
    let d1_part = d1 + seq![' '] + idle_part;
    assert(r =~= "--max"@ + seq![' '] + d1_part);
    lemma_words_single(d2);
    lemma_words_cons("--idle"@, d2);
    lemma_words_cons(d1, idle_part);
    lemma_words_cons("--max"@, d1_part);
    let t = words(r);
    assert(t =~= seq!["--max"@, d1, "--idle"@, d2]);
    lemma_parse_decimal(models_max);
    lemma_parse_decimal(sleep_idle_seconds);
    assert(t[2] != "--max"@) by {
        assert(t[2][2] != t[0][2]);
    }
    let empty = Seq::<Seq<char>>::empty();
    assert(router_flags_from(t, 4, models_max, sleep_idle_seconds, empty) == (
        models_max,
        sleep_idle_seconds,
        empty,
    ));
    assert(router_flags_from(t, 2, models_max, DEFAULT_SLEEP_IDLE_SECONDS, empty)
        == router_flags_from(t, 4, models_max, sleep_idle_seconds, empty));
    assert(router_flags_from(t, 0, DEFAULT_MODELS_MAX, DEFAULT_SLEEP_IDLE_SECONDS, empty)
        == router_flags_from(t, 2, models_max, DEFAULT_SLEEP_IDLE_SECONDS, empty));
}

/// Enter on the Router screen starts the router with the numbers shown:
/// the line it sends is routed to the router, which reads back exactly
/// those two numbers and passes nothing else on to llama-server.
pub proof fn lemma_the_router_starts_with_the_numbers_shown(models_max: u32, sleep_idle_seconds: u32)
    ensures
        route_view(router_command_view(models_max as nat, sleep_idle_seconds as nat)) matches RouteView::Router { rest }
            && router_flags(rest) == (models_max, sleep_idle_seconds, Seq::<Seq<char>>::empty()),
{
    lemma_the_router_line_is_routed(models_max, sleep_idle_seconds);
    lemma_the_router_flags_read_back(models_max, sleep_idle_seconds);
}

/// How each probe in the command table is routed.
proof fn lemma_probe_routes(i: int)
    requires
        0 <= i < all_view().len(),
    ensures
        i == 0 ==> route_view(all_view()[0].probe) is Launch,
        i == 1 ==> route_view(all_view()[1].probe) is Launch,
        i == 2 ==> route_view(all_view()[2].probe) is Router,
        i == 3 ==> route_view(all_view()[3].probe) is Stop,
        i == 4 ==> route_view(all_view()[4].probe) is Status,
        i == 5 ==> route_view(all_view()[5].probe) is Ping,
        i == 6 ==> route_view(all_view()[6].probe) is Cache,
        i == 7 ==> route_view(all_view()[7].probe) is Script,
        i == 8 ==> route_view(all_view()[8].probe) is Script,
        i == 9 ==> route_view(all_view()[9].probe) is Script,
        i == 10 ==> route_view(all_view()[10].probe) is Script,
{
    reveal_strlit("launch");
    reveal_strlit("launch!");
    reveal_strlit("router");
    reveal_strlit("stop");
    reveal_strlit("status");
    reveal_strlit("ping");
    reveal_strlit("cache");
    reveal_strlit("models");
    reveal_strlit("reload");
    reveal_strlit("help");
    reveal_strlit("sh true");
    let p = all_view()[i].probe;
    if i == 0 {
        assert(p == seq!['l', 'a', 'u', 'n', 'c', 'h']);
        lemma_trim_untouched(p);
    } else if i == 1 {
        assert(p == seq!['l', 'a', 'u', 'n', 'c', 'h', '!']);
        lemma_trim_untouched(p);
    } else if i == 2 {
        assert(p == seq!['r', 'o', 'u', 't', 'e', 'r']);
        lemma_trim_untouched(p);
    } else if i == 3 {
        assert(p == seq!['s', 't', 'o', 'p']);
        lemma_trim_untouched(p);
    } else if i == 4 {
        assert(p == seq!['s', 't', 'a', 't', 'u', 's']);
        lemma_trim_untouched(p);
    } else if i == 5 {
        assert(p == seq!['p', 'i', 'n', 'g']);
        lemma_trim_untouched(p);
    } else if i == 6 {
        assert(p == seq!['c', 'a', 'c', 'h', 'e']);
        lemma_trim_untouched(p);
    } else if i == 7 {
        assert(p == seq!['m', 'o', 'd', 'e', 'l', 's']);
        lemma_trim_untouched(p);
    } else if i == 8 {
        assert(p == seq!['r', 'e', 'l', 'o', 'a', 'd']);
        lemma_trim_untouched(p);
    } else if i == 9 {
        assert(p == seq!['h', 'e', 'l', 'p']);
        lemma_trim_untouched(p);
    } else if i == 10 {
        assert(p == seq!['s', 'h', ' ', 't', 'r', 'u', 'e']);
        lemma_trim_untouched(p);
    }
}

/// Every command the table hands to the executor reaches one of the
/// executor's own handlers rather than falling through to the shell, and
/// the shell command is run by the shell: the listing is checked against
/// the dispatcher, not merely written alongside it. (The commands the
/// application answers itself never reach the executor.)
pub proof fn lemma_every_documented_command_reaches_a_handler(i: int)
    requires
        0 <= i < all_view().len(),
    ensures
        all_view()[i].handler == Handler::Launcher ==> !(route_view(all_view()[i].probe) is Script),
        all_view()[i].handler == Handler::Script ==> route_view(all_view()[i].probe) is Script,
{
    lemma_probe_routes(i);
}

/// What `launch` answers when no model was named.
pub const LAUNCH_USAGE: &'static str = "usage: launch <model> [-- extra llama-server args]";

/// The model and extra arguments of a `launch` line, or the usage line
/// when the line names no model.
pub open spec fn launch_target_view(rest: Seq<char>) -> Result<(Seq<char>, Seq<Seq<char>>), Seq<char>> {
    let (model, extra) = extra_args_split(rest);
    if model.len() == 0 {
        Err(LAUNCH_USAGE@)
    } else {
        Ok((model, extra))
    }
}

/// What a `launch` line asks to start: the model and the extra
/// llama-server arguments, or the usage line when no model was named.
pub fn launch_target(rest: &str) -> (res: Result<(String, Vec<String>), String>)
    ensures
        match res {
            Ok((model, extra)) => launch_target_view(rest@) == Ok::<
                (Seq<char>, Seq<Seq<char>>),
                Seq<char>,
            >((model@, strings_view(extra@))),
            Err(e) => launch_target_view(rest@) == Err::<(Seq<char>, Seq<Seq<char>>), Seq<char>>(e@),
        },
{
    let (model, extra) = split_extra_args(rest);
    if model.unicode_len() == 0 {
        Err(String::from_str(LAUNCH_USAGE))
    } else {
        Ok((model, extra))
    }
}

/// Whether a launch must stop and ask first: only when the user has not
/// already answered (`launch!`), herd's own server is not the one running
/// (that one is hot-swapped), and something else holds the port.
pub open spec fn must_confirm_view(force: bool, ours_running: bool, port_busy: bool) -> bool {
    !force && !ours_running && port_busy
}

/// Whether a launch must ask the user before going on.
pub fn must_confirm(force: bool, ours_running: bool, port_busy: bool) -> (res: bool)
    ensures
        res == must_confirm_view(force, ours_running, port_busy),
{
    !force && !ours_running && port_busy
}

/// What the launch reports while it waits for that answer.
pub open spec fn port_busy_view(port: u16) -> Seq<char> {
    "port "@ + decimal(port as nat) + " busy, waiting for confirmation"@
}

/// The launch's report while it waits for the user's answer.
pub fn port_busy_message(port: u16) -> (res: String)
    ensures
        res@ == port_busy_view(port),
{
    let mut text = String::from_str("port ");
    push_decimal(&mut text, port as u64);
    text.append(" busy, waiting for confirmation");
    assert(text@ =~= port_busy_view(port));
    text
}

/// What a launch reports once the supervisor has answered: that it is
/// spawning the server, or the supervisor's error as it stands.
pub open spec fn launch_outcome_view(model: Seq<char>, spawned: Result<(), Seq<char>>) -> Seq<char> {
    match spawned {
        Ok(()) => "spawning llama-server for '"@ + model + "'"@,
        Err(e) => e,
    }
}

/// A launch's closing report.
pub fn launch_outcome(model: &str, spawned: Result<(), String>) -> (res: String)
    ensures
        res@ == launch_outcome_view(
            model@,
            match spawned {
                Ok(()) => Ok(()),
                Err(e) => Err(e@),
            },
        ),
{
    match spawned {
        Ok(()) => {
            let mut text = String::from_str("spawning llama-server for '");
            text.append(model);
            text.append("'");
            text
        },
        Err(e) => e,
    }
}

/// What a download reports when the repo holds no file for the quant tag
/// the preset asks for.
pub open spec fn nothing_matches_view(repo: Seq<char>, reference: Seq<char>) -> Seq<char> {
    "nothing in "@ + repo + " matches the quant tag in '"@ + reference + "'"@
}

/// The report of a download that found nothing to fetch.
pub fn nothing_matches(repo: &str, reference: &str) -> (res: String)
    ensures
        res@ == nothing_matches_view(repo@, reference@),
{
    let mut text = String::from_str("nothing in ");
    text.append(repo);
    text.append(" matches the quant tag in '");
    text.append(reference);
    text.append("'");
    text
}

/// The sum of the sizes of the files a download fetches.
pub open spec fn total_of(sizes: Seq<u64>) -> nat
    decreases sizes.len(),
{
    if sizes.len() == 0 {
        0
    } else {
        total_of(sizes.drop_last()) + sizes.last() as nat
    }
}

/// How many bytes a download fetches in all.
pub fn total_bytes(sizes: &[u64]) -> (res: u64)
    requires
        total_of(sizes@) <= u64::MAX,
    ensures
        res == total_of(sizes@),
{
    let mut total: u64 = 0;
    let mut i: usize = 0;
    while i < sizes.len()
        invariant
            i <= sizes@.len(),
            total == total_of(sizes@.subrange(0, i as int)),
            total_of(sizes@) <= u64::MAX,
        decreases sizes@.len() - i,
    {
        proof {
            assert(sizes@.subrange(0, i + 1).drop_last() =~= sizes@.subrange(0, i as int));
            lemma_total_prefix(sizes@, i + 1);
        }
        total = total + sizes[i];
        i = i + 1;
    }
    assert(sizes@.subrange(0, sizes@.len() as int) =~= sizes@);
    total
}

/// A prefix never sums to more than the whole.
proof fn lemma_total_prefix(s: Seq<u64>, k: int)
    requires
        0 <= k <= s.len(),
    ensures
        total_of(s.subrange(0, k)) <= total_of(s),
    decreases s.len() - k,
{
    if k < s.len() {
        lemma_total_prefix(s, k + 1);
        assert(s.subrange(0, k + 1).drop_last() =~= s.subrange(0, k));
    } else {
        assert(s.subrange(0, k) =~= s);
    }
}

/// The verdict on a finished fetch. A failed fetch keeps its error. A
/// clean exit is not taken as proof: the download succeeded only when
/// llama.cpp now lists the preset's weights as local, and otherwise the
/// verdict says that the fetch stopped short or the repo moved on.
pub open spec fn download_verdict_view(
    model: Seq<char>,
    repo: Seq<char>,
    downloader: Seq<char>,
    fetched: Result<(), Seq<char>>,
    listed_local: bool,
    total: nat,
) -> Result<Seq<char>, Seq<char>> {
    match fetched {
        Err(e) => Err(e),
        Ok(()) => if listed_local {
            Ok(model + " downloaded ("@ + human_bytes_view(total) + ")"@)
        } else {
            Err(downloader + " finished, but llama.cpp still does not list "@ + repo
                + " — the fetch stopped short, or the repo has moved on to a revision this build has not got"@)
        },
    }
}

/// Decides what a finished download reports. `listed_local` is whether
/// llama.cpp lists the preset as local once the fetch is over, and
/// `downloader` the name of the tool that fetched.
pub fn download_verdict(
    model: &str,
    repo: &str,
    downloader: &str,
    fetched: Result<(), String>,
    listed_local: bool,
    total: u64,
) -> (res: Result<String, String>)
    ensures
        match res {
            Ok(s) => download_verdict_view(
                model@,
                repo@,
                downloader@,
                match fetched {
                    Ok(()) => Ok(()),
                    Err(e) => Err(e@),
                },
                listed_local,
                total as nat,
            ) == Ok::<Seq<char>, Seq<char>>(s@),
            Err(s) => download_verdict_view(
                model@,
                repo@,
                downloader@,
                match fetched {
                    Ok(()) => Ok(()),
                    Err(e) => Err(e@),
                },
                listed_local,
                total as nat,
            ) == Err::<Seq<char>, Seq<char>>(s@),
        },
{
    match fetched {
        Err(e) => Err(e),
        Ok(()) => {
            if listed_local {
                let mut text = String::from_str(model);
                text.append(" downloaded (");
                let size = human_bytes(total);
                text.append(size.as_str());
                text.append(")");
                Ok(text)
            } else {
                let mut text = String::from_str(downloader);
                text.append(" finished, but llama.cpp still does not list ");
                text.append(repo);
                text.append(
                    " — the fetch stopped short, or the repo has moved on to a revision this build has not got",
                );
                Err(text)
            }
        },
    }
}

/// What runs once a download is over: the preset's launch, when the
/// download was asked to launch it and it succeeded.
pub open spec fn after_download_view(model: Seq<char>, succeeded: bool, then_launch: bool) -> Option<Seq<char>> {
    if succeeded && then_launch {
        Some("launch "@ + model)
    } else {
        None
    }
}

/// The command to run after a download, if any.
pub fn after_download(model: &str, succeeded: bool, then_launch: bool) -> (res: Option<String>)
    ensures
        match res {
            Some(c) => after_download_view(model@, succeeded, then_launch) == Some(c@),
            None => after_download_view(model@, succeeded, then_launch) is None,
        },
{
    if succeeded && then_launch {
        let mut command = String::from_str("launch ");
        command.append(model);
        Some(command)
    } else {
        None
    }
}

/// The text of a result of strings.
pub open spec fn result_chars(r: Result<String, String>) -> Result<Seq<char>, Seq<char>> {
    match r {
        Ok(s) => Ok(s@),
        Err(e) => Err(e@),
    }
}

/// A download from start to end, as the decisions it takes in order: a
/// repo that cannot be listed fails with the listing's error; a listing
/// from which nothing was selected for the preset's quant tag fails with
/// `nothing_matches`; otherwise the fetch and what llama.cpp lists
/// afterwards decide the verdict (`download_verdict`), and the preset is
/// launched afterwards exactly when that succeeded and a launch was asked
/// for. `listing` is how many files were selected, or the listing's error.
pub open spec fn download_view(
    model: Seq<char>,
    repo: Seq<char>,
    reference: Seq<char>,
    downloader: Seq<char>,
    listing: Result<nat, Seq<char>>,
    fetched: Result<(), Seq<char>>,
    listed_local: bool,
    total: nat,
    then_launch: bool,
) -> (Result<Seq<char>, Seq<char>>, Option<Seq<char>>) {
    match listing {
        Err(e) => (Err(e), None),
        Ok(n) => if n == 0 {
            (Err(nothing_matches_view(repo, reference)), None)
        } else {
            let verdict = download_verdict_view(model, repo, downloader, fetched, listed_local, total);
            (verdict, after_download_view(model, verdict is Ok, then_launch))
        },
    }
}

/// What a download reports, and the command to run after it, if any.
pub fn download_outcome(
    model: &str,
    repo: &str,
    reference: &str,
    downloader: &str,
    listing: Result<usize, String>,
    fetched: Result<(), String>,
    listed_local: bool,
    total: u64,
    then_launch: bool,
) -> (res: (Result<String, String>, Option<String>))
    ensures
        (result_chars(res.0), match res.1 {
            Some(c) => Some(c@),
            None => None,
        }) == download_view(
            model@,
            repo@,
            reference@,
            downloader@,
            match listing {
                Ok(n) => Ok(n as nat),
                Err(e) => Err(e@),
            },
            match fetched {
                Ok(()) => Ok(()),
                Err(e) => Err(e@),
            },
            listed_local,
            total as nat,
            then_launch,
        ),
{
    match listing {
        Err(e) => (Err(e), None),
        Ok(n) => {
            if n == 0 {
                (Err(nothing_matches(repo, reference)), None)
            } else {
                let verdict = download_verdict(model, repo, downloader, fetched, listed_local, total);
                let succeeded = verdict.is_ok();
                let next = after_download(model, succeeded, then_launch);
                (verdict, next)
            }
        },
    }
}

/// Neither flag is a number, so neither is ever taken as the value of a
/// flag before it.
proof fn lemma_flags_are_no_numbers()
    ensures
        parse_u32("--max"@) is None,
        parse_u32("--idle"@) is None,
{
    reveal_strlit("--max");
    reveal_strlit("--idle");
    assert("--max"@[0] == '-');
    assert(!all_digits("--max"@));
    assert("--idle"@[0] == '-');
    assert(!all_digits("--idle"@));
}

/// Read from any token of `w` on, a `--max N` or `--idle S` after `w` is
/// always reached as a flag, and it decides its number.
proof fn lemma_a_trailing_flag_is_read(
    w: Seq<Seq<char>>,
    flag: Seq<char>,
    n: u32,
    i: int,
    models_max: u32,
    sleep_idle: u32,
    extra: Seq<Seq<char>>,
)
    requires
        0 <= i <= w.len(),
        flag == "--max"@ || flag == "--idle"@,
    ensures
        ({
            let r = router_flags_from(w + seq![flag, decimal(n as nat)], i, models_max, sleep_idle, extra);
            &&& flag == "--max"@ ==> r.0 == n
            &&& flag == "--idle"@ ==> r.1 == n
        }),
    decreases w.len() - i,
{
    reveal_strlit("--max");
    reveal_strlit("--idle");
    let t = w + seq![flag, decimal(n as nat)];
    lemma_flags_are_no_numbers();
    lemma_parse_decimal(n);
    assert("--max"@ != "--idle"@) by {
        assert("--max"@.len() != "--idle"@.len());
    }
    if i == w.len() {
        assert(t[i] == flag);
        assert(t[i + 1] == decimal(n as nat));
        if flag == "--max"@ {
            assert(router_flags_from(t, i, models_max, sleep_idle, extra) == router_flags_from(t, i + 2, n, sleep_idle, extra));
        } else {
            assert(router_flags_from(t, i, models_max, sleep_idle, extra) == router_flags_from(t, i + 2, models_max, n, extra));
        }
    } else if i + 1 == w.len() {
        assert(t[i + 1] == flag);
        assert(parse_u32(t[i + 1]) is None);
        assert(router_flags_from(t, i, models_max, sleep_idle, extra) == router_flags_from(t, i + 1, models_max, sleep_idle, extra.push(t[i])));
        lemma_a_trailing_flag_is_read(w, flag, n, i + 1, models_max, sleep_idle, extra.push(t[i]));
    } else {
        if t[i] == "--max"@ && i + 1 < t.len() && parse_u32(t[i + 1]) is Some {
            lemma_a_trailing_flag_is_read(w, flag, n, i + 2, parse_u32(t[i + 1])->0, sleep_idle, extra);
        } else if t[i] == "--idle"@ && i + 1 < t.len() && parse_u32(t[i + 1]) is Some {
            lemma_a_trailing_flag_is_read(w, flag, n, i + 2, models_max, parse_u32(t[i + 1])->0, extra);
        } else {
            lemma_a_trailing_flag_is_read(w, flag, n, i + 1, models_max, sleep_idle, extra.push(t[i]));
        }
    }
}

/// A `router` line that ends in `--max N` keeps `N` models resident,
/// whatever comes before it; `router --max N` alone keeps `N` models, the
/// default idle time, and forwards nothing to llama-server.
pub proof fn lemma_a_trailing_max_sets_the_resident_models(rest: Seq<char>, w: Seq<Seq<char>>, n: u32)
    requires
        words(rest) == w + seq!["--max"@, decimal(n as nat)],
    ensures
        router_flags(rest).0 == n,
        w.len() == 0 ==> router_flags(rest) == (n, DEFAULT_SLEEP_IDLE_SECONDS, Seq::<Seq<char>>::empty()),
{
    lemma_a_trailing_flag_is_read(w, "--max"@, n, 0, DEFAULT_MODELS_MAX, DEFAULT_SLEEP_IDLE_SECONDS, Seq::empty());
    if w.len() == 0 {
        let t = w + seq!["--max"@, decimal(n as nat)];
        lemma_parse_decimal(n);
        assert(t[0] == "--max"@);
        assert(t[1] == decimal(n as nat));
        assert(router_flags_from(t, 0, DEFAULT_MODELS_MAX, DEFAULT_SLEEP_IDLE_SECONDS, Seq::empty()) == router_flags_from(t, 2, n, DEFAULT_SLEEP_IDLE_SECONDS, Seq::empty()));
    }
}

/// Likewise a line that ends in `--idle S` unloads idle models after `S`
/// seconds, whatever comes before it; `router --idle S` alone keeps the
/// default number of models and forwards nothing.
pub proof fn lemma_a_trailing_idle_sets_the_idle_time(rest: Seq<char>, w: Seq<Seq<char>>, n: u32)
    requires
        words(rest) == w + seq!["--idle"@, decimal(n as nat)],
    ensures
        router_flags(rest).1 == n,
        w.len() == 0 ==> router_flags(rest) == (DEFAULT_MODELS_MAX, n, Seq::<Seq<char>>::empty()),
{
    lemma_a_trailing_flag_is_read(w, "--idle"@, n, 0, DEFAULT_MODELS_MAX, DEFAULT_SLEEP_IDLE_SECONDS, Seq::empty());
    if w.len() == 0 {
        reveal_strlit("--max");
        reveal_strlit("--idle");
        assert("--max"@ != "--idle"@) by {
            assert("--max"@.len() != "--idle"@.len());
        }
        let t = w + seq!["--idle"@, decimal(n as nat)];
        lemma_parse_decimal(n);
        assert(t[0] == "--idle"@);
        assert(t[1] == decimal(n as nat));
        assert(router_flags_from(t, 0, DEFAULT_MODELS_MAX, DEFAULT_SLEEP_IDLE_SECONDS, Seq::empty()) == router_flags_from(t, 2, DEFAULT_MODELS_MAX, n, Seq::empty()));
    }
}

} // verus!
