//! The application's screens and the state transitions that do not need a
//! terminal: where a key moves a cursor, and how the log buffer grows.

use std::collections::VecDeque;
use vstd::prelude::*;
use vstd::string::*;
use crate::keys::Key;
use crate::text::{chars_of, lines, lower, lower_chars, same_chars, split_lines, string_of, trim, trim_chars, vecs_view, decimal2, push_char, push_decimal2};

verus! {

/// One of the eight screens of the sidebar menu.
#[derive(Debug, Clone, Copy, PartialEq, Eq, Structural)]
pub enum Screen {
    Models,
    /// What is actually in llama.cpp's model cache, as against what the
    /// active tier names: Models lists what this tier can launch, Hub
    /// lists what this machine has. Last in the menu: it is where you go
    /// occasionally, not a step of a session.
    Hub,
    Server,
    /// llama-server's built-in multi-model mode, next to Server because it
    /// is the same lifecycle seen from the other end.
    Router,
    Test,
    Stats,
    Settings,
    Logs,
}

/// Where the supervised llama-server is in its lifecycle.
///
/// `Error` exists so a model that runs out of memory or a missing GGUF is
/// visibly distinct from a clean stop.
#[derive(Debug, PartialEq, Eq)]
pub enum ServerState {
    Off,
    Starting,
    Serving,
    Stopping,
    Error(String),
}

impl ServerState {
    /// Whether a supervised process is up or on its way up or down: the
    /// states quitting would interrupt. A failed launch and a clean stop
    /// leave nothing running.
    pub open spec fn spec_is_live(&self) -> bool {
        match self {
            ServerState::Starting | ServerState::Serving | ServerState::Stopping => true,
            _ => false,
        }
    }

    /// Whether a supervised process is live.
    pub fn is_live(&self) -> (res: bool)
        ensures
            res == self.spec_is_live(),
    {
        match self {
            ServerState::Starting | ServerState::Serving | ServerState::Stopping => true,
            _ => false,
        }
    }
}

/// What keystrokes currently mean. `Browse` is the default: letters are
/// shortcuts. Every other mode captures text until `Enter` or `Esc`.
#[derive(Debug, Clone, Copy, PartialEq, Eq, Structural)]
pub enum Mode {
    Browse,
    Command,
    Filter,
    EditSetting,
    /// Typing the message to send to the model on the Test screen.
    EditPrompt,
    /// Choosing which `models.ini` to use, from the ones on this machine.
    Picker,
    /// Something is already listening on the configured port and herd did
    /// not start it. Waiting for the user to confirm or cancel.
    ConfirmLaunch,
    /// A supervised server is live and normal quit waits for confirmation.
    ConfirmQuit,
    /// The `?` overlay: summoned from anywhere, dismissed back to where the
    /// user was.
    Help,
    /// The `:help` overlay — what can be typed, as against what a key does.
    Commands,
    /// The `:about` overlay: which build this is, and what it runs against.
    About,
    /// About to delete a cached model. Its own mode: every other prompt
    /// asks whether to *start* something, and this one costs the download.
    ConfirmDelete,
}

/// What the application asks its surroundings to do after an update.
#[derive(Debug, Clone, PartialEq, Eq)]
pub enum Action {
    /// Nothing to do.
    Nothing,
    Quit,
    RunCommand(String),
    /// The user switched tier, so the next launch resolves against the
    /// newly selected file.
    ConfigPathChanged(String),
    /// Send a chat probe to the running model. Structured, because the
    /// prompt is free text and must not be re-parsed.
    RunChat { model: String, prompt: String },
    /// Put a line of text on the system clipboard. `label` names what was
    /// copied, for the log line written once the clipboard has taken it.
    CopyToClipboard { label: String, text: String },
    /// Remove a cached model. Carries the repo rather than a path: the path
    /// is computed where the fence around it lives.
    DeleteModel { reference: String, repo: String },
    /// Fetch a preset's artifacts, optionally launching it afterwards.
    Download { model: String, repo: String, then_launch: bool },
}

/// One row of the Models table.
#[derive(Debug, Clone, PartialEq, Eq)]
pub struct ModelRow {
    pub name: String,
    pub repo: String,
    pub ctx: String,
    pub spec: String,
}

/// One row of the Hub screen: a model llama.cpp has in its cache, whether
/// the active tier has a preset for it, and what it costs on disk.
#[derive(Debug, Clone, PartialEq, Eq)]
pub struct HubRow {
    /// `repo:quant`, as `--cache-list` spells it.
    pub reference: String,
    /// The weights of this quantisation in the current revision.
    pub weights: Option<u64>,
    /// Everything the repo occupies, stale revisions and projectors
    /// included.
    pub disk: Option<u64>,
    /// The preset in the active tier that names this repo, if any.
    pub preset: Option<String>,
    /// Another cached entry shares this repo's directory, so `disk` is not
    /// this model's alone. Said rather than divided: the cache keeps no
    /// per-quantisation accounting.
    pub shares_disk: bool,
}

/// Which overrides a setting belongs to: every preset's, or one preset's.
#[derive(Debug, Clone, Copy, PartialEq, Eq, Structural)]
pub enum Scope {
    Global,
    Model,
}

/// One line of the Settings screen. Headers are rendered but not
/// selectable; the cursor only ever lands on `Entry` rows.
#[derive(Debug, Clone, PartialEq, Eq)]
pub enum SettingRow {
    Header(String),
    Entry {
        scope: Scope,
        /// Preset the entry belongs to, empty for global rows.
        model: String,
        key: String,
        ini_value: String,
        override_value: Option<String>,
    },
}

impl SettingRow {
    /// The parts of an `Entry` row; `None` for a header.
    pub fn as_entry(&self) -> (res: Option<(&Scope, &str, &str, &str, Option<&str>)>)
        ensures
            match *self {
                SettingRow::Header(_) => res is None,
                SettingRow::Entry { scope, model, key, ini_value, override_value } => res matches Some(
                    parts,
                ) && *parts.0 == scope && parts.1@ == model@ && parts.2@ == key@ && parts.3@
                    == ini_value@ && match override_value {
                    Some(v) => parts.4 matches Some(o) && o@ == v@,
                    None => parts.4 is None,
                },
            },
    {
        match self {
            SettingRow::Header(_) => None,
            SettingRow::Entry { scope, model, key, ini_value, override_value } => {
                let o: Option<&str> = match override_value {
                    Some(v) => Some(v.as_str()),
                    None => None,
                };
                Some((scope, model.as_str(), key.as_str(), ini_value.as_str(), o))
            },
        }
    }
}

/// One editable number on the Router screen: how many models stay loaded,
/// or how long an idle one survives.
#[derive(Debug, Clone, Copy, PartialEq, Eq)]
pub struct RouterSetting {
    pub key: &'static str,
    pub value: u32,
    pub unit: &'static str,
    pub describes: &'static str,
}

impl RouterSetting {
    /// The value with its unit: `300s`, `2`.
    pub fn value_label(&self) -> (res: String)
        ensures
            res@ == crate::text::decimal(self.value as nat) + self.unit@,
    {
        let mut s = String::new();
        crate::text::push_decimal(&mut s, self.value as u64);
        s.append(self.unit);
        assert(Seq::<char>::empty() + crate::text::decimal(self.value as nat) =~= crate::text::decimal(
            self.value as nat,
        ));
        s
    }
}

/// The two router numbers as editable rows, in the order the Router
/// screen shows them.
pub fn router_rows(models_max: u32, sleep_idle_seconds: u32) -> (res: [RouterSetting; 2])
    ensures
        res[0] == (RouterSetting {
            key: "models-max",
            value: models_max,
            unit: "",
            describes: "models kept resident before one is unloaded",
        }),
        res[1] == (RouterSetting {
            key: "sleep-idle-seconds",
            value: sleep_idle_seconds,
            unit: "s",
            describes: "idle time before a model is unloaded",
        }),
{
    [
        RouterSetting {
            key: "models-max",
            value: models_max,
            unit: "",
            describes: "models kept resident before one is unloaded",
        },
        RouterSetting {
            key: "sleep-idle-seconds",
            value: sleep_idle_seconds,
            unit: "s",
            describes: "idle time before a model is unloaded",
        },
    ]
}

/// The flags that carry the Router screen's two numbers.
pub open spec fn router_flags_line(models_max: nat, sleep_idle_seconds: nat) -> Seq<char> {
    "--max"@ + seq![' '] + crate::text::decimal(models_max) + seq![' '] + "--idle"@ + seq![' ']
        + crate::text::decimal(sleep_idle_seconds)
}

/// The line Enter on the Router screen runs: `router --max N --idle S`,
/// with the two numbers on screen.
pub open spec fn router_command_view(models_max: nat, sleep_idle_seconds: nat) -> Seq<char> {
    "router"@ + seq![' '] + router_flags_line(models_max, sleep_idle_seconds)
}

/// The command Enter on the Router screen runs. It is always allowed: the
/// numbers it starts with are the ones on screen, and having just changed
/// one is the reason to press it.
pub fn router_command(models_max: u32, sleep_idle_seconds: u32) -> (res: String)
    ensures
        res@ == router_command_view(models_max as nat, sleep_idle_seconds as nat),
{
    let mut line = String::from_str("router");
    push_char(&mut line, ' ');
    line.append("--max");
    push_char(&mut line, ' ');
    crate::text::push_decimal(&mut line, models_max as u64);
    push_char(&mut line, ' ');
    line.append("--idle");
    push_char(&mut line, ' ');
    crate::text::push_decimal(&mut line, sleep_idle_seconds as u64);
    assert(line@ =~= router_command_view(models_max as nat, sleep_idle_seconds as nat));
    line
}

/// Everything quitting right now would throw away, named: a download
/// (with its progress), a test request waiting for the model, a command
/// still running. A supervised llama-server is deliberately not in this
/// list: it is stopped on exit by design, every time.
pub open spec fn in_flight_view(
    download: Option<(Seq<char>, Seq<char>)>,
    chat_pending: bool,
    running: bool,
) -> Seq<Seq<char>> {
    (match download {
        Some((model, progress)) => seq!["downloading "@ + model + " ("@ + progress + ")"@],
        None => Seq::empty(),
    }) + (if chat_pending {
        seq!["a test request is waiting for the model"@]
    } else {
        Seq::empty()
    }) + (if running {
        seq!["a command is still running"@]
    } else {
        Seq::empty()
    })
}

/// The work quitting would abandon. `download` is the model being fetched
/// and its progress as the download bar labels it.
pub fn in_flight(download: Option<(&str, &str)>, chat_pending: bool, running: bool) -> (res: Vec<String>)
    ensures
        crate::text::strings_view(res@) == in_flight_view(
            match download {
                Some((model, progress)) => Some((model@, progress@)),
                None => None,
            },
            chat_pending,
            running,
        ),
{
    let mut work: Vec<String> = Vec::new();
    let ghost before = crate::text::strings_view(work@);
    if let Some((model, progress)) = download {
        let mut item = String::from_str("downloading ");
        item.append(model);
        item.append(" (");
        item.append(progress);
        item.append(")");
        work.push(item);
    }
    let ghost after_download = crate::text::strings_view(work@);
    if chat_pending {
        work.push(String::from_str("a test request is waiting for the model"));
    }
    let ghost after_chat = crate::text::strings_view(work@);
    if running {
        work.push(String::from_str("a command is still running"));
    }
    proof {
        let d = match download {
            Some((model, progress)) => Some((model@, progress@)),
            None => None,
        };
        let first = match d {
            Some((model, progress)) => seq!["downloading "@ + model + " ("@ + progress + ")"@],
            None => Seq::<Seq<char>>::empty(),
        };
        assert(after_download =~= first);
        let second = if chat_pending {
            seq!["a test request is waiting for the model"@]
        } else {
            Seq::<Seq<char>>::empty()
        };
        assert(after_chat =~= first + second);
        assert(crate::text::strings_view(work@) =~= in_flight_view(d, chat_pending, running));
    }
    work
}

/// One selectable `models.ini` on this machine.
#[derive(Debug, Clone, PartialEq, Eq)]
pub struct ConfigChoice {
    pub label: String,
    pub path: String,
    pub presets: usize,
    /// Presets in this file that the current budget cannot hold.
    pub too_large: usize,
}

/// A cached model the user has asked to delete, held while the prompt is
/// up: what goes, how much of it, and what goes with it.
#[derive(Debug, Clone, PartialEq, Eq)]
pub struct PendingDelete {
    pub reference: String,
    pub repo: String,
    pub bytes: Option<u64>,
    /// Other cached quantisations in the same repo directory.
    pub also_removes: Vec<String>,
}

/// A download in flight, in bytes rather than percent so the bar and the
/// "2.1G of 6.7G" beside it cannot disagree.
#[derive(Debug, Clone, PartialEq, Eq)]
pub struct Download {
    pub model: String,
    pub done: u64,
    pub total: u64,
}

/// What a key does on every screen while browsing, before the screen's
/// own keys are consulted.
#[derive(Debug, Clone, Copy, PartialEq, Eq, Structural)]
pub enum GlobalAction {
    /// Quit now.
    Quit,
    /// Ask first: a supervised server is live.
    AskToQuit,
    OpenCommandBar,
    /// Switch to this screen.
    Show(Screen),
    OpenPicker,
    OpenHelp,
}

/// The global keys: `q` quits (asking first while a server is live), `Q`
/// quits at once, `:` opens the command bar, Tab/→ and Shift-Tab/← cycle
/// the screens, `c` opens the config picker, `?` the key reference, and
/// the digits jump straight to the screen at that menu position.
pub open spec fn global_key_view(screen: Screen, live: bool, key: Key) -> Option<GlobalAction> {
    match key {
        Key::Tab | Key::Right => Some(GlobalAction::Show(next_view(screen))),
        Key::BackTab | Key::Left => Some(GlobalAction::Show(prev_view(screen))),
        Key::Char(c) => if c == 'q' {
            Some(if live { GlobalAction::AskToQuit } else { GlobalAction::Quit })
        } else if c == 'Q' {
            Some(GlobalAction::Quit)
        } else if c == ':' {
            Some(GlobalAction::OpenCommandBar)
        } else if c == 'c' {
            Some(GlobalAction::OpenPicker)
        } else if c == '?' {
            Some(GlobalAction::OpenHelp)
        } else if '1' <= c <= '8' {
            Some(GlobalAction::Show(menu_at((c as u32 - 49) as nat)))
        } else {
            None
        },
        _ => None,
    }
}

/// What a key does on every screen while browsing; `None` leaves it to
/// the active screen. `live` is whether a supervised server is live, the
/// one thing that makes `q` ask first.
pub fn global_key(screen: Screen, live: bool, key: Key) -> (res: Option<GlobalAction>)
    ensures
        res == global_key_view(screen, live, key),
{
    match key {
        Key::Tab | Key::Right => Some(GlobalAction::Show(screen.next())),
        Key::BackTab | Key::Left => Some(GlobalAction::Show(screen.prev())),
        Key::Char(c) => {
            if c == 'q' {
                Some(if live { GlobalAction::AskToQuit } else { GlobalAction::Quit })
            } else if c == 'Q' {
                Some(GlobalAction::Quit)
            } else if c == ':' {
                Some(GlobalAction::OpenCommandBar)
            } else if c == 'c' {
                Some(GlobalAction::OpenPicker)
            } else if c == '?' {
                Some(GlobalAction::OpenHelp)
            } else if '1' <= c && c <= '8' {
                let index = (c as u32 - 49) as usize;
                Some(GlobalAction::Show(Screen::ALL[index]))
            } else {
                None
            }
        },
        _ => None,
    }
}

/// Where a standard movement key takes a cursor over `len` rows; `None`
/// for keys that are not movement, and for an empty list.
pub open spec fn moved_view(cursor: int, len: int, key: Key, page: int) -> Option<int> {
    if len <= 0 {
        None
    } else {
        let last = len - 1;
        match key {
            Key::Down | Key::Char('j') => Some(if cursor + 1 < last { cursor + 1 } else { last }),
            Key::Up | Key::Char('k') => Some(if cursor > 0 { cursor - 1 } else { 0 }),
            Key::PageDown => Some(if cursor + page < last { cursor + page } else { last }),
            Key::PageUp => Some(if cursor > page { cursor - page } else { 0 }),
            Key::Home | Key::Char('g') => Some(0),
            Key::End | Key::Char('G') => Some(last),
            _ => None,
        }
    }
}

/// Where a standard movement key takes a cursor over `len` rows.
/// Returning `None` leaves non-navigation keys to the active screen.
pub fn moved(cursor: usize, len: usize, key: Key, page: usize) -> (res: Option<usize>)
    ensures
        match res {
            Some(next) => moved_view(cursor as int, len as int, key, page as int) == Some(next as int),
            None => moved_view(cursor as int, len as int, key, page as int) is None,
        },
        res matches Some(next) ==> next < len || next <= cursor,
{
    if len == 0 {
        return None;
    }
    let last = len - 1;
    let next = match key {
        Key::Down | Key::Char('j') => {
            let up = cursor.saturating_add(1);
            if up < last {
                up
            } else {
                last
            }
        },
        Key::Up | Key::Char('k') => cursor.saturating_sub(1),
        Key::PageDown => {
            let down = cursor.saturating_add(page);
            if down < last {
                down
            } else {
                last
            }
        },
        Key::PageUp => cursor.saturating_sub(page),
        Key::Home | Key::Char('g') => 0,
        Key::End | Key::Char('G') => last,
        _ => {
            return None;
        },
    };
    Some(next)
}

/// Is an ini value switched on? `no-mmproj = true` and a bare key both
/// count; anything else is off.
pub open spec fn is_on_view(value: Seq<char>) -> bool {
    let t = trim(value);
    t.len() == 0 || lower(t) == "true"@ || lower(t) == "on"@ || lower(t) == "yes"@ || lower(t)
        == "1"@
}

/// Is an ini value switched on?
pub fn is_on(value: &str) -> (res: bool)
    ensures
        res == is_on_view(value@),
{
    let t = trim_chars(chars_of(value).as_slice());
    if t.len() == 0 {
        return true;
    }
    let w = lower_chars(t.as_slice());
    let l = w.as_slice();
    same_chars(l, chars_of("true").as_slice()) || same_chars(l, chars_of("on").as_slice())
        || same_chars(l, chars_of("yes").as_slice()) || same_chars(l, chars_of("1").as_slice())
}

/// How many log lines are kept.
pub const MAX_LOGS: usize = 500;

/// The last `n` items of `s` (all of them when there are fewer).
pub open spec fn last_n<T>(s: Seq<T>, n: int) -> Seq<T> {
    if s.len() <= n {
        s
    } else {
        s.subrange(s.len() - n, s.len() as int)
    }
}

/// The buffer and scroll position after one more line: the oldest line
/// goes when the buffer is full, and a view scrolled back is pinned to
/// the line it shows by counting the new line too.
pub open spec fn push_line_view(logs: Seq<Seq<char>>, scroll: int, line: Seq<char>) -> (Seq<Seq<char>>, int) {
    let kept = if logs.len() >= MAX_LOGS {
        logs.drop_first()
    } else {
        logs
    };
    let after = kept.push(line);
    (after, if scroll > 0 {
        let pinned = scroll + 1;
        let oldest = after.len() - 1;
        if pinned < oldest {
            pinned
        } else {
            oldest
        }
    } else {
        scroll
    })
}

/// The buffer and scroll position after the lines `ls[i..]`.
pub open spec fn push_lines_view(logs: Seq<Seq<char>>, scroll: int, ls: Seq<Seq<char>>, i: int) -> (
    Seq<Seq<char>>,
    int,
)
    decreases ls.len() - i,
{
    if i < 0 || i >= ls.len() {
        (logs, scroll)
    } else {
        let (l, s) = push_line_view(logs, scroll, ls[i]);
        push_lines_view(l, s, ls, i + 1)
    }
}

/// The log lines the Logs screen shows, and how far it is scrolled back —
/// counted in lines hidden *below* the viewport, so 0 means "follow the
/// newest line".
pub struct LogBuffer {
    pub logs: VecDeque<String>,
    pub log_scroll: usize,
}

/// The text of a run of log lines.
pub open spec fn log_view(logs: Seq<String>) -> Seq<Seq<char>> {
    logs.map_values(|s: String| s@)
}

impl LogBuffer {
    /// An empty buffer, following the newest line.
    pub fn new() -> (res: LogBuffer)
        ensures
            res.logs@.len() == 0,
            res.log_scroll == 0,
    {
        LogBuffer { logs: VecDeque::new(), log_scroll: 0 }
    }

    /// Appends one line.
    fn push_line(&mut self, line: String)
        ensures
            (log_view(final(self).logs@), final(self).log_scroll as int) == push_line_view(
                log_view(old(self).logs@),
                old(self).log_scroll as int,
                line@,
            ),
    {
        let ghost before = log_view(self.logs@);
        if self.logs.len() >= MAX_LOGS {
            self.logs.pop_front();
        }
        self.logs.push_back(line);
        let ghost kept = if before.len() >= MAX_LOGS {
            before.drop_first()
        } else {
            before
        };
        assert(log_view(self.logs@) =~= kept.push(line@));
        if self.log_scroll > 0 {
            let oldest = self.logs.len() - 1;
            let pinned = if self.log_scroll < oldest {
                self.log_scroll + 1
            } else {
                oldest
            };
            self.log_scroll = if pinned < oldest {
                pinned
            } else {
                oldest
            };
        }
    }

    /// Appends an entry, one buffer line per line of it, dropping the
    /// oldest lines beyond `MAX_LOGS`. Multi-line output is split before
    /// the cap is applied, so one long message cannot overflow it.
    pub fn push_log(&mut self, entry: &str)
        ensures
            (log_view(final(self).logs@), final(self).log_scroll as int) == push_lines_view(
                log_view(old(self).logs@),
                old(self).log_scroll as int,
                lines(entry@),
                0,
            ),
    {
        let parts = split_lines(chars_of(entry).as_slice());
        let ghost ls = vecs_view(parts@);
        for i in 0..parts.len()
            invariant
                ls == vecs_view(parts@),
                push_lines_view(
                    log_view(old(self).logs@),
                    old(self).log_scroll as int,
                    lines(entry@),
                    0,
                ) == push_lines_view(log_view(self.logs@), self.log_scroll as int, ls, i as int),
        {
            let line = string_of(parts[i].as_slice());
            assert(line@ == ls[i as int]);
            self.push_line(line);
        }
    }

    /// Moves the view through the scrollback. The buffer grows downwards
    /// and the resting position is the newest line, so the scroll counts
    /// *backwards* from the tail and "down" walks towards it. Returns
    /// whether the key was a movement key at all.
    pub fn scroll_key(&mut self, key: Key, page: usize) -> (res: bool)
        ensures
            final(self).logs == old(self).logs,
            res == (moved_view(0, 1, key, 0) is Some),
            match moved_view(0, 1, key, 0) {
                Some(_) => final(self).log_scroll as int == logs_scroll_view(
                    old(self).log_scroll as int,
                    old(self).logs@.len() as int,
                    key,
                    page as int,
                ),
                None => final(self).log_scroll == old(self).log_scroll,
            },
    {
        let oldest = if self.logs.len() > 0 {
            self.logs.len() - 1
        } else {
            0
        };
        let scroll = self.log_scroll;
        let next = match key {
            Key::Up | Key::Char('k') => {
                if scroll < oldest {
                    scroll + 1
                } else {
                    oldest
                }
            },
            Key::Down | Key::Char('j') => scroll.saturating_sub(1),
            Key::PageUp => {
                if scroll < oldest && page < oldest - scroll {
                    scroll + page
                } else {
                    oldest
                }
            },
            Key::PageDown => scroll.saturating_sub(page),
            Key::Home | Key::Char('g') => oldest,
            Key::End | Key::Char('G') => 0,
            _ => {
                return false;
            },
        };
        self.log_scroll = next;
        true
    }
}

/// Where a movement key takes the log scroll: up and page-up move back
/// towards the oldest line (and stop there), down and page-down towards
/// the newest, home to the oldest, end back to following the tail.
pub open spec fn logs_scroll_view(scroll: int, len: int, key: Key, page: int) -> int {
    let oldest = if len > 0 { len - 1 } else { 0 };
    match key {
        Key::Up | Key::Char('k') => if scroll + 1 < oldest { scroll + 1 } else { oldest },
        Key::Down | Key::Char('j') => if scroll > 0 { scroll - 1 } else { 0 },
        Key::PageUp => if scroll + page < oldest { scroll + page } else { oldest },
        Key::PageDown => if scroll > page { scroll - page } else { 0 },
        Key::Home | Key::Char('g') => oldest,
        _ => 0,
    }
}

/// How the supervised process was started: nothing running, one preset
/// launched by hand, or llama-server's own multi-model router.
#[derive(Debug, Clone, Copy, PartialEq, Eq, Structural)]
pub enum LauncherMode {
    Idle,
    Manual,
    Router,
}

/// `std::time::Instant`, a point on the monotonic clock: carried through,
/// never looked into.
#[verifier::external_type_specification]
#[verifier::external_body]
pub struct ExInstant(std::time::Instant);

/// `Instant::elapsed`: how long ago `start` was. Read from the clock, so
/// nothing is claimed of the value.
#[verifier::external_body]
fn elapsed(start: &std::time::Instant) -> std::time::Duration {
    start.elapsed()
}

/// `Duration::as_secs`: the whole seconds of a duration. The duration is
/// opaque here (it came from the clock), so nothing is claimed of the
/// number either.
#[verifier::external_body]
fn whole_seconds(duration: &std::time::Duration) -> u64 {
    duration.as_secs()
}

/// `mm:ss`, zero-padded (`{:02}:{:02}`); the minutes keep growing past 99.
pub open spec fn clock_view(total: nat) -> Seq<char> {
    decimal2(total / 60) + seq![':'] + decimal2(total % 60)
}

/// How long something has been going on, as `mm:ss`.
pub fn clock_label(total: u64) -> (res: String)
    ensures
        res@ == clock_view(total as nat),
{
    let mut s = String::new();
    push_decimal2(&mut s, total / 60);
    push_char(&mut s, ':');
    push_decimal2(&mut s, total % 60);
    assert(s@ =~= clock_view(total as nat));
    s
}

/// Detail within a server's state, as the supervisor reports it: the
/// name of the part of startup it is in, if it has one, and whether a
/// serving process has gone quiet.
#[derive(Debug, Clone, PartialEq, Eq)]
pub struct Phase {
    pub label: Option<String>,
    pub degraded: bool,
}

impl Phase {
    /// No detail: nothing named, nothing wrong.
    pub fn none() -> (res: Phase)
        ensures
            res.label is None,
            !res.degraded,
    {
        Phase { label: None, degraded: false }
    }
}

/// Live view of the supervised process.
#[derive(Debug)]
pub struct ServerRuntime {
    pub state: ServerState,
    pub mode: LauncherMode,
    pub model: Option<String>,
    pub endpoint: Option<String>,
    /// Detail within the state: which part of startup, or that a serving
    /// process has gone quiet.
    pub phase: Phase,
    /// When the current state was entered, on the monotonic clock.
    pub started_at: Option<std::time::Instant>,
}

impl Default for ServerRuntime {
    fn default() -> (res: ServerRuntime)
        ensures
            res.state == ServerState::Off,
            res.mode == LauncherMode::Idle,
            res.model is None,
            res.endpoint is None,
            res.started_at is None,
            res.phase.label is None,
            !res.phase.degraded,
    {
        ServerRuntime {
            phase: Phase::none(),
            state: ServerState::Off,
            mode: LauncherMode::Idle,
            model: None,
            endpoint: None,
            started_at: None,
        }
    }
}

impl ServerRuntime {
    /// Whether the server is nominally up but not answering: shown as a
    /// warning rather than a healthy SERVING.
    pub fn is_degraded(&self) -> (res: bool)
        ensures
            res == self.phase.degraded,
    {
        self.phase.degraded
    }

    /// Seconds since the current state was entered; `None` when nothing is
    /// being timed.
    pub fn uptime_secs(&self) -> (res: Option<u64>)
        ensures
            res is Some <==> self.started_at is Some,
    {
        match &self.started_at {
            Some(start) => Some(whole_seconds(&elapsed(start))),
            None => None,
        }
    }

    /// `mm:ss` since the current state was entered, for the states where
    /// "how long has this been going on" is the user's actual question.
    pub fn elapsed_label(&self) -> (res: Option<String>)
        ensures
            res is Some <==> self.started_at is Some,
            res matches Some(label) ==> exists|total: nat| label@ == clock_view(total),
    {
        match self.uptime_secs() {
            Some(total) => Some(clock_label(total)),
            None => None,
        }
    }
}

/// The text of an optional string.
pub open spec fn opt_chars(o: Option<String>) -> Option<Seq<char>> {
    match o {
        Some(s) => Some(s@),
        None => None,
    }
}

/// What a status snapshot leaves of the model name. A snapshot without
/// one (stopping, off) carries no new identity and keeps the shown one;
/// `Off` means nothing is loaded any more, so the name goes.
pub open spec fn status_model(state: ServerState, old: Option<Seq<char>>, model: Option<Seq<char>>) -> Option<Seq<char>> {
    match state {
        ServerState::Off => None,
        _ => match model {
            Some(m) => Some(m),
            None => old,
        },
    }
}

/// When the runtime's clock started after a snapshot: `Starting` starts it
/// now, `Off` and `Error` stop it, the other states leave it running.
pub open spec fn status_started(state: ServerState, old: Option<std::time::Instant>, now: std::time::Instant) -> Option<std::time::Instant> {
    match state {
        ServerState::Starting => Some(now),
        ServerState::Off | ServerState::Error(_) => None,
        _ => old,
    }
}

/// Where the runtime says it answers after a snapshot: a starting server
/// answers where the loaded config says; one that is off or failed
/// answers nowhere.
pub open spec fn status_endpoint(state: ServerState, old: Option<Seq<char>>, endpoint: Option<Seq<char>>) -> Option<Seq<char>> {
    match state {
        ServerState::Starting => endpoint,
        ServerState::Off | ServerState::Error(_) => None,
        _ => old,
    }
}

impl ServerRuntime {
    /// Takes in a status snapshot from the supervisor: its state, how the
    /// process was started, the model, if it names one, and the phase. `now` is when
    /// the snapshot arrived and `endpoint` where a server started from the
    /// loaded config answers. An error keeps the model's name — "ERROR
    /// gemma4-12b" is the whole point — while its clock and endpoint go.
    pub fn apply_status(
        &mut self,
        state: ServerState,
        mode: LauncherMode,
        model: Option<String>,
        phase: Phase,
        now: std::time::Instant,
        endpoint: Option<String>,
    )
        ensures
            final(self).state == state,
            final(self).mode == mode,
            final(self).phase == phase,
            opt_chars(final(self).model) == status_model(state, opt_chars(old(self).model), opt_chars(model)),
            final(self).started_at == status_started(state, old(self).started_at, now),
            opt_chars(final(self).endpoint) == status_endpoint(
                state,
                opt_chars(old(self).endpoint),
                opt_chars(endpoint),
            ),
    {
        self.mode = mode;
        if model.is_some() {
            self.model = model;
        }
        match &state {
            ServerState::Starting => {
                self.started_at = Some(now);
                self.endpoint = endpoint;
            },
            ServerState::Off => {
                self.started_at = None;
                self.endpoint = None;
                self.model = None;
            },
            ServerState::Error(_) => {
                self.started_at = None;
                self.endpoint = None;
            },
            _ => {},
        }
        self.phase = phase;
        self.state = state;
    }
}

/// Where a screen sits in the sidebar menu, and so which digit jumps to
/// it (one more than this).
pub open spec fn menu_index(s: Screen) -> nat {
    match s {
        Screen::Models => 0,
        Screen::Server => 1,
        Screen::Router => 2,
        Screen::Test => 3,
        Screen::Stats => 4,
        Screen::Settings => 5,
        Screen::Logs => 6,
        Screen::Hub => 7,
    }
}

/// The screen at a menu position.
pub open spec fn menu_at(i: nat) -> Screen {
    if i == 0 {
        Screen::Models
    } else if i == 1 {
        Screen::Server
    } else if i == 2 {
        Screen::Router
    } else if i == 3 {
        Screen::Test
    } else if i == 4 {
        Screen::Stats
    } else if i == 5 {
        Screen::Settings
    } else if i == 6 {
        Screen::Logs
    } else {
        Screen::Hub
    }
}

/// How many screens the menu holds.
pub const SCREEN_COUNT: usize = 8;

impl Screen {
    /// The order of the sidebar menu, and so of the digit shortcuts.
    /// Independent of the enum's own order, which is why moving a screen
    /// here is a one-line change.
    pub const ALL: [Screen; 8] = [
        Screen::Models,
        Screen::Server,
        Screen::Router,
        Screen::Test,
        Screen::Stats,
        Screen::Settings,
        Screen::Logs,
        Screen::Hub,
    ];

    /// The screen's name in the menu.
    pub open spec fn spec_label(self) -> Seq<char> {
        match self {
            Screen::Models => "Models"@,
            Screen::Hub => "Hub"@,
            Screen::Server => "Server"@,
            Screen::Router => "Router"@,
            Screen::Test => "Test"@,
            Screen::Stats => "Stats"@,
            Screen::Settings => "Settings"@,
            Screen::Logs => "Logs"@,
        }
    }

    pub fn label(self) -> (res: &'static str)
        ensures
            res@ == self.spec_label(),
    {
        match self {
            Screen::Models => "Models",
            Screen::Hub => "Hub",
            Screen::Server => "Server",
            Screen::Router => "Router",
            Screen::Test => "Test",
            Screen::Stats => "Stats",
            Screen::Settings => "Settings",
            Screen::Logs => "Logs",
        }
    }

    /// Position in the menu.
    fn index(self) -> (res: usize)
        ensures
            res == menu_index(self),
            res < SCREEN_COUNT,
    {
        match self {
            Screen::Models => 0,
            Screen::Server => 1,
            Screen::Router => 2,
            Screen::Test => 3,
            Screen::Stats => 4,
            Screen::Settings => 5,
            Screen::Logs => 6,
            Screen::Hub => 7,
        }
    }

    /// The screen at a menu position (below the menu's length).
    fn at(i: usize) -> (res: Screen)
        requires
            i < SCREEN_COUNT,
        ensures
            res == menu_at(i as nat),
    {
        Self::ALL[i]
    }

    /// The next screen in the menu, wrapping from the last to the first.
    pub fn next(self) -> (res: Screen)
        ensures
            res == menu_at(((menu_index(self) + 1) % 8) as nat),
    {
        Self::at((self.index() + 1) % SCREEN_COUNT)
    }

    /// The previous screen in the menu, wrapping from the first to the last.
    pub fn prev(self) -> (res: Screen)
        ensures
            res == menu_at(((menu_index(self) + 7) % 8) as nat),
    {
        let len = SCREEN_COUNT;
        Self::at((self.index() + len - 1) % len)
    }
}

/// The screen after `s` in the menu.
pub open spec fn next_view(s: Screen) -> Screen {
    menu_at(((menu_index(s) + 1) % 8) as nat)
}

/// The screen before `s` in the menu.
pub open spec fn prev_view(s: Screen) -> Screen {
    menu_at(((menu_index(s) + 7) % 8) as nat)
}

/// The menu lists every screen once: positions and screens correspond.
pub proof fn lemma_menu_positions(s: Screen, i: nat)
    ensures
        menu_index(s) < 8,
        menu_at(menu_index(s)) == s,
        i < 8 ==> menu_index(menu_at(i)) == i,
{
}

/// Tab and Shift-Tab undo each other.
pub proof fn lemma_next_and_prev_undo_each_other(s: Screen)
    ensures
        prev_view(next_view(s)) == s,
        next_view(prev_view(s)) == s,
{
}

/// Where Tab goes from each screen.
proof fn lemma_next_table()
    ensures
        next_view(Screen::Models) == Screen::Server,
        next_view(Screen::Server) == Screen::Router,
        next_view(Screen::Router) == Screen::Test,
        next_view(Screen::Test) == Screen::Stats,
        next_view(Screen::Stats) == Screen::Settings,
        next_view(Screen::Settings) == Screen::Logs,
        next_view(Screen::Logs) == Screen::Hub,
        next_view(Screen::Hub) == Screen::Models,
{
}

/// Eight presses of Tab come back to the screen they started from.
pub proof fn lemma_eight_tabs_come_back(s: Screen)
    ensures
        next_view(next_view(next_view(next_view(next_view(next_view(next_view(next_view(s))))))))
            == s,
{
    lemma_next_table();
}

/// Every screen is some number of Tab presses (fewer than eight) away
/// from any other.
pub proof fn lemma_tab_reaches_every_screen(s: Screen, t: Screen)
    ensures
        exists|k: nat| k < 8 && #[trigger] menu_at(((menu_index(s) + k) % 8) as nat) == t,
{
    let k = ((menu_index(t) + 8 - menu_index(s)) % 8) as nat;
    assert(((menu_index(s) + k) % 8) as nat == menu_index(t));
    assert(menu_at(menu_index(t)) == t);
    assert(menu_at(((menu_index(s) + k) % 8) as nat) == t);
}

proof fn lemma_last_n_push<T>(a: Seq<T>, x: T)
    requires
        a.len() <= MAX_LOGS,
    ensures
        (if a.len() >= MAX_LOGS {
            a.drop_first()
        } else {
            a
        }).push(x) == last_n(a.push(x), MAX_LOGS as int),
{
    if a.len() >= MAX_LOGS {
        assert(a.drop_first().push(x) =~= a.push(x).subrange(1, a.len() as int + 1));
    }
}

proof fn lemma_last_n_absorb<T>(a: Seq<T>, b: Seq<T>, n: int)
    requires
        n >= 0,
    ensures
        last_n(last_n(a, n) + b, n) == last_n(a + b, n),
{
    if a.len() > n {
        let la = last_n(a, n);
        assert(last_n(la + b, n) =~= last_n(a + b, n));
    }
}

proof fn lemma_push_lines_keep_the_newest(logs: Seq<Seq<char>>, scroll: int, ls: Seq<Seq<char>>, i: int)
    requires
        0 <= i <= ls.len(),
        logs.len() <= MAX_LOGS,
    ensures
        push_lines_view(logs, scroll, ls, i).0 == last_n(logs + ls.subrange(i, ls.len() as int), MAX_LOGS as int),
    decreases ls.len() - i,
{
    if i < ls.len() {
        let (l, s) = push_line_view(logs, scroll, ls[i]);
        lemma_last_n_push(logs, ls[i]);
        assert(l.len() <= MAX_LOGS);
        lemma_push_lines_keep_the_newest(l, s, ls, i + 1);
        lemma_last_n_absorb(logs.push(ls[i]), ls.subrange(i + 1, ls.len() as int), MAX_LOGS as int);
        assert(logs.push(ls[i]) + ls.subrange(i + 1, ls.len() as int) =~= logs + ls.subrange(i, ls.len() as int));
    } else {
        assert(logs + ls.subrange(i, ls.len() as int) =~= logs);
    }
}

/// Logging keeps the newest `MAX_LOGS` lines of everything logged: an
/// entry is split into its lines first and the cap applied after, so the
/// buffer never grows past the cap and always ends with what was logged
/// last.
pub proof fn lemma_logs_keep_the_newest_lines(logs: Seq<Seq<char>>, scroll: int, entry: Seq<char>)
    requires
        logs.len() <= MAX_LOGS,
    ensures
        push_lines_view(logs, scroll, lines(entry), 0).0 == last_n(logs + lines(entry), MAX_LOGS as int),
        push_lines_view(logs, scroll, lines(entry), 0).0.len() <= MAX_LOGS,
{
    lemma_push_lines_keep_the_newest(logs, scroll, lines(entry), 0);
    assert(lines(entry).subrange(0, lines(entry).len() as int) =~= lines(entry));
}

proof fn lemma_push_lines_follow(logs: Seq<Seq<char>>, ls: Seq<Seq<char>>, i: int)
    requires
        0 <= i <= ls.len(),
    ensures
        push_lines_view(logs, 0, ls, i).1 == 0,
    decreases ls.len() - i,
{
    if i < ls.len() {
        let (l, s) = push_line_view(logs, 0, ls[i]);
        lemma_push_lines_follow(l, ls, i + 1);
    }
}

/// A view following the newest line keeps following it as lines arrive.
pub proof fn lemma_following_the_tail_stays_at_the_tail(logs: Seq<Seq<char>>, entry: Seq<char>)
    ensures
        push_lines_view(logs, 0, lines(entry), 0).1 == 0,
{
    lemma_push_lines_follow(logs, lines(entry), 0);
}


/// A view scrolled back stays on the lines it shows as a new line
/// arrives: the line it is anchored to — the last one on screen, counted
/// back from the newest — is the same line afterwards, whether or not the
/// oldest line had to go to make room. (A view already at the oldest line
/// stays at the oldest instead.)
pub proof fn lemma_a_scrolled_back_view_stays_on_its_lines(
    logs: Seq<Seq<char>>,
    scroll: int,
    line: Seq<char>,
)
    requires
        logs.len() <= MAX_LOGS,
        0 < scroll,
        scroll + 1 < logs.len(),
    ensures
        ({
            let (after, pinned) = push_line_view(logs, scroll, line);
            &&& pinned == scroll + 1
            &&& after[after.len() - 1 - pinned] == logs[logs.len() - 1 - scroll]
        }),
{
    let (after, pinned) = push_line_view(logs, scroll, line);
    if logs.len() >= MAX_LOGS {
        assert(after == logs.drop_first().push(line));
        assert(after[after.len() - 1 - pinned] == logs.drop_first()[logs.len() - 2 - scroll]);
    } else {
        assert(after == logs.push(line));
    }
}

/// Where `n` presses of `key` take a cursor over `len` rows.
pub open spec fn pressed(cursor: int, len: int, key: Key, page: int, n: nat) -> int
    decreases n,
{
    if n == 0 {
        cursor
    } else {
        let before = pressed(cursor, len, key, page, (n - 1) as nat);
        match moved_view(before, len, key, page) {
            Some(c) => c,
            None => before,
        }
    }
}

/// The movement keys on a list of `len` rows, from a row on it: `k`/Up
/// goes one row up and stops on the first, `j`/Down one row down and stops
/// on the last, Page Up and Page Down a page at a time with the same
/// stops, `g`/Home to the first row and `G`/End to the last. Wherever the
/// cursor was, it lands on a row of the list.
pub proof fn lemma_movement_keys_step_through_the_list(cursor: int, len: int, page: int)
    requires
        0 <= cursor < len,
        page >= 0,
    ensures
        0 < cursor ==> moved_view(cursor, len, Key::Up, page) == Some(cursor - 1),
        0 < cursor ==> moved_view(cursor, len, Key::Char('k'), page) == Some(cursor - 1),
        cursor == 0 ==> moved_view(cursor, len, Key::Up, page) == Some(0int),
        cursor == 0 ==> moved_view(cursor, len, Key::Char('k'), page) == Some(0int),
        cursor + 1 < len ==> moved_view(cursor, len, Key::Down, page) == Some(cursor + 1),
        cursor + 1 < len ==> moved_view(cursor, len, Key::Char('j'), page) == Some(cursor + 1),
        cursor + 1 == len ==> moved_view(cursor, len, Key::Down, page) == Some(cursor),
        cursor + 1 == len ==> moved_view(cursor, len, Key::Char('j'), page) == Some(cursor),
        cursor + page < len ==> moved_view(cursor, len, Key::PageDown, page) == Some(cursor + page),
        cursor + page >= len ==> moved_view(cursor, len, Key::PageDown, page) == Some(len - 1),
        cursor >= page ==> moved_view(cursor, len, Key::PageUp, page) == Some(cursor - page),
        cursor < page ==> moved_view(cursor, len, Key::PageUp, page) == Some(0int),
        moved_view(cursor, len, Key::Home, page) == Some(0int),
        moved_view(cursor, len, Key::Char('g'), page) == Some(0int),
        moved_view(cursor, len, Key::End, page) == Some(len - 1),
        moved_view(cursor, len, Key::Char('G'), page) == Some(len - 1),
        forall|key: Key| #[trigger] moved_view(cursor, len, key, page) matches Some(c) ==> 0 <= c < len,
{
}

/// `n` presses of Up from row `cursor`.
proof fn lemma_up_presses(cursor: int, len: int, page: int, n: nat)
    requires
        0 <= cursor < len,
    ensures
        pressed(cursor, len, Key::Up, page, n) == (if n >= cursor {
            0
        } else {
            cursor - n
        }),
    decreases n,
{
    if n > 0 {
        lemma_up_presses(cursor, len, page, (n - 1) as nat);
    }
}

/// `n` presses of `k`/Up from row `cursor` go up `n` rows, and stop on the
/// first: pressed `cursor` times, it always reaches the top.
pub proof fn lemma_up_reaches_the_first_row(cursor: int, len: int, page: int, n: nat)
    requires
        0 <= cursor < len,
    ensures
        pressed(cursor, len, Key::Up, page, n) == (if n >= cursor {
            0
        } else {
            cursor - n
        }),
        pressed(cursor, len, Key::Up, page, cursor as nat) == 0,
{
    lemma_up_presses(cursor, len, page, n);
    lemma_up_presses(cursor, len, page, cursor as nat);
}

/// The scroll keys on the Logs screen, from a position in the history of
/// `len` lines (counted back from the newest): Page Down goes `page` lines
/// towards the newest and stops there, Page Up `page` lines back and stops
/// at the oldest, `j`/Down and `k`/Up one line, `g`/Home to the oldest
/// line and `G`/End back to following the newest.
pub proof fn lemma_scroll_keys_move_through_the_history(scroll: int, len: int, page: int)
    requires
        0 < len,
        0 <= scroll < len,
        page >= 0,
    ensures
        scroll >= page ==> logs_scroll_view(scroll, len, Key::PageDown, page) == scroll - page,
        scroll < page ==> logs_scroll_view(scroll, len, Key::PageDown, page) == 0,
        scroll + page <= len - 1 ==> logs_scroll_view(scroll, len, Key::PageUp, page) == scroll + page,
        scroll + page > len - 1 ==> logs_scroll_view(scroll, len, Key::PageUp, page) == len - 1,
        scroll > 0 ==> logs_scroll_view(scroll, len, Key::Down, page) == scroll - 1,
        scroll > 0 ==> logs_scroll_view(scroll, len, Key::Char('j'), page) == scroll - 1,
        scroll + 1 < len ==> logs_scroll_view(scroll, len, Key::Up, page) == scroll + 1,
        scroll + 1 < len ==> logs_scroll_view(scroll, len, Key::Char('k'), page) == scroll + 1,
        logs_scroll_view(scroll, len, Key::Home, page) == len - 1,
        logs_scroll_view(scroll, len, Key::Char('g'), page) == len - 1,
        logs_scroll_view(scroll, len, Key::End, page) == 0,
        logs_scroll_view(scroll, len, Key::Char('G'), page) == 0,
        forall|key: Key| 0 <= #[trigger] logs_scroll_view(scroll, len, key, page) < len,
{
}

} // verus!
