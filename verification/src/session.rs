//! What the running application does with each event: the overlays, the
//! command bar, quitting, the Logs screen and the bookkeeping events the
//! executor sends back. The terminal loop performs the action an update
//! returns and hands the next event in.

use vstd::prelude::*;
use vstd::string::*;
use crate::app::{
    global_key, global_key_view, log_view, logs_scroll_view, moved, moved_view, push_lines_view,
    router_command, router_command_view, opt_chars, status_endpoint, status_model, status_started,
    Action, Download, GlobalAction, LauncherMode, LogBuffer, Mode, Phase, Screen, ServerRuntime,
    ServerState,
};
use crate::keys::Key;
use crate::engine::executor::{result_chars, DEFAULT_MODELS_MAX, DEFAULT_SLEEP_IDLE_SECONDS};
use crate::text::{chars_of, lines, same_chars, string_of, trim, trim_chars};

verus! {

/// The part of the application's state the session loop decides over.
pub struct Session {
    pub screen: Screen,
    pub mode: Mode,
    /// What has been typed into the command bar.
    pub command_input: String,
    /// The message the Test screen sends, and the editor's copy of it
    /// while it is being edited.
    pub prompt: String,
    pub edit_buffer: String,
    /// Whether a command sent to the executor has not finished yet.
    pub running: bool,
    /// The supervised server: its state, how it was started, its model
    /// (kept through a failure so the error can name it), its endpoint
    /// and its clock.
    pub runtime: ServerRuntime,
    /// The preset most recently seen starting.
    pub last_launched: Option<String>,
    /// Whether a Test probe is waiting for its answer, and how many
    /// probes have failed since the server last started.
    pub chat_pending: bool,
    pub probe_failures: u64,
    /// How many probes have answered since the server last started, the
    /// last answer (its summary, or why it failed), and when the probe
    /// in flight was sent.
    pub probes: u64,
    pub chat: Option<Result<String, String>>,
    pub chat_started: Option<std::time::Instant>,
    /// How far the argv preview is scrolled.
    pub preview_scroll: usize,
    pub log: LogBuffer,
    /// The highlighted row of the Router screen, and its two numbers.
    pub router_cursor: usize,
    pub models_max: u32,
    pub sleep_idle_seconds: u32,
    /// The terminal's size, as last reported.
    pub rows: u16,
    pub cols: u16,
    pub download: Option<Download>,
}

/// A session as plain values.
pub struct SessionView {
    pub screen: Screen,
    pub mode: Mode,
    pub command: Seq<char>,
    pub prompt: Seq<char>,
    pub edit: Seq<char>,
    pub running: bool,
    pub server: ServerState,
    pub model: Option<Seq<char>>,
    pub launcher: LauncherMode,
    pub endpoint: Option<Seq<char>>,
    pub started_at: Option<std::time::Instant>,
    pub last_launched: Option<Seq<char>>,
    pub chat_pending: bool,
    pub probe_failures: u64,
    pub probes: u64,
    pub chat: Option<Result<Seq<char>, Seq<char>>>,
    pub chat_started: Option<std::time::Instant>,
    pub phase: Phase,
    pub preview_scroll: int,
    pub logs: Seq<Seq<char>>,
    pub scroll: int,
    pub router_cursor: int,
    pub models_max: u32,
    pub sleep_idle_seconds: u32,
    pub rows: u16,
    pub cols: u16,
    pub download: Option<(Seq<char>, u64, u64)>,
}

impl View for Session {
    type V = SessionView;

    open spec fn view(&self) -> SessionView {
        SessionView {
            screen: self.screen,
            mode: self.mode,
            command: self.command_input@,
            prompt: self.prompt@,
            edit: self.edit_buffer@,
            running: self.running,
            server: self.runtime.state,
            model: opt_chars(self.runtime.model),
            launcher: self.runtime.mode,
            endpoint: opt_chars(self.runtime.endpoint),
            started_at: self.runtime.started_at,
            last_launched: opt_chars(self.last_launched),
            chat_pending: self.chat_pending,
            probe_failures: self.probe_failures,
            probes: self.probes,
            chat: match self.chat {
                Some(r) => Some(result_chars(r)),
                None => None,
            },
            chat_started: self.chat_started,
            phase: self.runtime.phase,
            preview_scroll: self.preview_scroll as int,
            logs: log_view(self.log.logs@),
            scroll: self.log.log_scroll as int,
            router_cursor: self.router_cursor as int,
            models_max: self.models_max,
            sleep_idle_seconds: self.sleep_idle_seconds,
            rows: self.rows,
            cols: self.cols,
            download: match self.download {
                Some(d) => Some((d.model@, d.done, d.total)),
                None => None,
            },
        }
    }
}

/// What reaches the session from the terminal and from the executor.
pub enum UiEvent {
    Key(Key),
    Tick,
    /// A command sent to the executor has finished, with what it printed.
    CommandFinished { command: String, output: String },
    Log(String),
    DownloadProgress { model: String, done: u64, total: u64 },
    /// A download is over: its summary, or why it failed.
    DownloadFinished { model: String, result: Result<String, String> },
    /// The terminal's new size, with how many lines the argv preview
    /// wraps into at that size and how many of them its pane shows (both
    /// zero on a screen without a preview).
    Resize { width: u16, height: u16, preview_lines: usize, preview_visible: usize },
    /// A snapshot of the supervised server: its state, how it was started,
    /// its model, if it names one, and the phase; `now` is when it arrived, and
    /// `endpoint` where a server started from the loaded config answers.
    /// The note on sizing a failed launch may add to the log weighs
    /// floating-point estimates, and is the caller's.
    LlamaStatus {
        state: ServerState,
        mode: LauncherMode,
        model: Option<String>,
        phase: Phase,
        now: std::time::Instant,
        endpoint: Option<String>,
    },
    /// A Test probe's answer: its summary, or why it failed. The timings
    /// and token counts an answer carries are durations and floating
    /// point, and recorded by the caller; the count of answers is kept here.
    ChatResult(Result<String, String>),
    Quit,
}

/// An event as plain values.
pub enum UiEventView {
    Key(Key),
    Tick,
    CommandFinished { command: Seq<char>, output: Seq<char> },
    Log(Seq<char>),
    DownloadProgress { model: Seq<char>, done: u64, total: u64 },
    DownloadFinished { model: Seq<char>, result: Result<Seq<char>, Seq<char>> },
    Resize { width: u16, height: u16, preview_lines: usize, preview_visible: usize },
    LlamaStatus {
        state: ServerState,
        mode: LauncherMode,
        model: Option<Seq<char>>,
        phase: Phase,
        now: std::time::Instant,
        endpoint: Option<Seq<char>>,
    },
    ChatResult(Result<Seq<char>, Seq<char>>),
    Quit,
}

impl View for UiEvent {
    type V = UiEventView;

    open spec fn view(&self) -> UiEventView {
        match self {
            UiEvent::Key(k) => UiEventView::Key(*k),
            UiEvent::Tick => UiEventView::Tick,
            UiEvent::CommandFinished { command, output } => UiEventView::CommandFinished {
                command: command@,
                output: output@,
            },
            UiEvent::Log(line) => UiEventView::Log(line@),
            UiEvent::DownloadProgress { model, done, total } => UiEventView::DownloadProgress {
                model: model@,
                done: *done,
                total: *total,
            },
            UiEvent::DownloadFinished { model, result } => UiEventView::DownloadFinished {
                model: model@,
                result: match result {
                    Ok(s) => Ok(s@),
                    Err(e) => Err(e@),
                },
            },
            UiEvent::Resize { width, height, preview_lines, preview_visible } => UiEventView::Resize {
                width: *width,
                height: *height,
                preview_lines: *preview_lines,
                preview_visible: *preview_visible,
            },
            UiEvent::LlamaStatus { state, mode, model, phase, now, endpoint } => UiEventView::LlamaStatus {
                state: *state,
                mode: *mode,
                model: opt_chars(*model),
                phase: *phase,
                now: *now,
                endpoint: opt_chars(*endpoint),
            },
            UiEvent::ChatResult(result) => UiEventView::ChatResult(
                match result {
                    Ok(summary) => Ok(summary@),
                    Err(error) => Err(error@),
                },
            ),
            UiEvent::Quit => UiEventView::Quit,
        }
    }
}

/// The actions a session update asks for, as plain values.
pub enum Asked {
    Nothing,
    Quit,
    Run(Seq<char>),
}

/// An action as an `Asked`, for the three kinds an update makes.
pub open spec fn asked(a: Action) -> Option<Asked> {
    match a {
        Action::Nothing => Some(Asked::Nothing),
        Action::Quit => Some(Asked::Quit),
        Action::RunCommand(c) => Some(Asked::Run(c@)),
        _ => None,
    }
}

/// The session with an entry appended to its log.
pub open spec fn logged(s: SessionView, entry: Seq<char>) -> SessionView {
    let (logs, scroll) = push_lines_view(s.logs, s.scroll, lines(entry), 0);
    SessionView { logs, scroll, ..s }
}

/// The session in another mode.
pub open spec fn in_mode(s: SessionView, mode: Mode) -> SessionView {
    SessionView { mode, ..s }
}

/// The session with the command bar emptied and another mode.
pub open spec fn cleared(s: SessionView, mode: Mode) -> SessionView {
    SessionView { command: Seq::empty(), mode, ..s }
}

/// What pressing Enter in the command bar does. `stop`, `help` and
/// `about` work even while a command is in flight — they are asked
/// *because* something is stuck; anything else waits until the one in
/// flight has finished. `models` and `reload` re-read the config file,
/// which the caller does (`None`). Everything else goes to the executor.
pub open spec fn submit_view(s: SessionView) -> Option<(SessionView, Asked)> {
    let c = trim(s.command);
    if c.len() == 0 {
        Some((s, Asked::Nothing))
    } else if c == "stop"@ {
        Some((logged(cleared(s, Mode::Browse), "queued :stop"@), Asked::Run("stop"@)))
    } else if c == "help"@ {
        Some((cleared(s, Mode::Commands), Asked::Nothing))
    } else if c == "about"@ {
        Some((cleared(s, Mode::About), Asked::Nothing))
    } else if s.running {
        Some((s, Asked::Nothing))
    } else if c == "models"@ || c == "reload"@ {
        None
    } else {
        Some((
            logged(SessionView { running: true, ..cleared(s, Mode::Browse) }, "queued :"@ + c),
            Asked::Run(c),
        ))
    }
}

/// A key while the command bar has focus: typed into it, Backspace takes
/// the last character back, Esc abandons it, Enter submits it.
pub open spec fn command_key_view(s: SessionView, k: Key) -> Option<(SessionView, Asked)> {
    match k {
        Key::Esc => Some((cleared(s, Mode::Browse), Asked::Nothing)),
        Key::Backspace => Some((
            SessionView {
                command: if s.command.len() > 0 {
                    s.command.drop_last()
                } else {
                    s.command
                },
                ..s
            },
            Asked::Nothing,
        )),
        Key::Enter => submit_view(s),
        Key::Char(c) => Some((SessionView { command: s.command.push(c), ..s }, Asked::Nothing)),
        _ => Some((s, Asked::Nothing)),
    }
}

/// A key on the Logs screen: movement keys move through the scrollback,
/// anything else does nothing.
pub open spec fn logs_key_view(s: SessionView, k: Key, page: int) -> SessionView {
    if moved_view(0, 1, k, 0) is Some {
        SessionView { scroll: logs_scroll_view(s.scroll, s.logs.len() as int, k, page), ..s }
    } else {
        s
    }
}

/// A command handed to the executor, unless one is already in flight —
/// then it is dropped, and the log says so rather than leaving the key
/// press to vanish.
pub open spec fn run_view(s: SessionView, c: Seq<char>) -> (SessionView, Asked) {
    if s.running {
        (logged(s, "busy, ignored :"@ + c), Asked::Nothing)
    } else {
        (logged(SessionView { running: true, ..s }, "queued :"@ + c), Asked::Run(c))
    }
}

/// What `s` does: a live server is stopped (past the busy gate, and
/// without claiming it); a failed launch's error is put away, locally;
/// otherwise there is nothing to stop.
pub open spec fn stop_server_view(s: SessionView) -> (SessionView, Asked) {
    if s.server.spec_is_live() {
        (logged(s, "queued :stop"@), Asked::Run("stop"@))
    } else {
        match s.server {
            ServerState::Error(reason) => (
                logged(
                    SessionView {
                        server: ServerState::Off,
                        model: None,
                        phase: Phase { label: None, degraded: false },
                        ..s
                    },
                    "cleared: "@ + reason@,
                ),
                Asked::Nothing,
            ),
            _ => (s, Asked::Nothing),
        }
    }
}

/// Said when `p` finds nothing to ping.
pub const NOTHING_TO_PING: &'static str =
    "nothing to ping — no llama-server is running (start one with enter, or :router)";

/// A key on the Router screen. The movement keys move between its two
/// rows; `r` puts both numbers back to their defaults; `s` stops the
/// server; Enter starts the router with the numbers on screen. `None` for
/// the keys that step a number, scroll the preview or copy the command:
/// those rest on the loaded config and its ranges.
pub open spec fn router_key_view(s: SessionView, k: Key, page: int) -> Option<(SessionView, Asked)> {
    match moved_view(s.router_cursor, 2, k, page) {
        Some(c) => Some((SessionView { router_cursor: c, ..s }, Asked::Nothing)),
        None => match k {
            Key::Char('s') => Some(stop_server_view(s)),
            Key::Char('r') => Some((
                logged(
                    SessionView {
                        models_max: DEFAULT_MODELS_MAX,
                        sleep_idle_seconds: DEFAULT_SLEEP_IDLE_SECONDS,
                        ..s
                    },
                    "router settings reset to the defaults"@,
                ),
                Asked::Nothing,
            )),
            Key::Enter => Some(run_view(s, router_command_view(s.models_max as nat, s.sleep_idle_seconds as nat))),
            Key::Char('+') | Key::Char('=') | Key::Char('-') | Key::Char('_') | Key::Char('J') | Key::Char(
                'K',
            ) | Key::Char('y') => None,
            _ => Some((s, Asked::Nothing)),
        },
    }
}

/// A screen's own key, where it does not rest on the preset list: the
/// Logs screen's scrolling; `s` (stop) on the Models, Server and Router
/// screens; `p` (ping) on the Server screen, whose other keys but Enter do
/// nothing; `/` (filter) on the Models screen; `r` (re-read the cache) on
/// the Hub screen. `None` for the rest.
pub open spec fn screen_key_view(s: SessionView, k: Key, page: int) -> Option<(SessionView, Asked)> {
    match s.screen {
        Screen::Logs => Some((logs_key_view(s, k, page), Asked::Nothing)),
        Screen::Server => match k {
            Key::Char('s') => Some(stop_server_view(s)),
            Key::Char('p') => Some(
                match s.model {
                    Some(m) => run_view(s, "ping "@ + m),
                    None => (logged(s, NOTHING_TO_PING@), Asked::Nothing),
                },
            ),
            Key::Enter => None,
            _ => Some((s, Asked::Nothing)),
        },
        Screen::Models => match k {
            Key::Char('s') => Some(stop_server_view(s)),
            Key::Char('/') => Some((in_mode(s, Mode::Filter), Asked::Nothing)),
            _ => None,
        },
        Screen::Router => router_key_view(s, k, page),
        Screen::Hub => match k {
            Key::Char('r') => Some(run_view(s, "cache"@)),
            _ => None,
        },
        Screen::Test => match k {
            Key::Char('e') => Some((SessionView { edit: s.prompt, mode: Mode::EditPrompt, ..s }, Asked::Nothing)),
            Key::Enter | Key::Char('r') => None,
            _ => Some((s, Asked::Nothing)),
        },
        _ => None,
    }
}

/// A key while the Test prompt is being edited: typed into the editor,
/// Backspace takes the last character back, Esc abandons the edit, Enter
/// keeps it — trimmed, and only when something is left, since an empty
/// prompt would make a meaningless probe.
pub open spec fn prompt_key_view(s: SessionView, k: Key) -> (SessionView, Asked) {
    match k {
        Key::Esc => (SessionView { edit: Seq::empty(), mode: Mode::Browse, ..s }, Asked::Nothing),
        Key::Backspace => (
            SessionView {
                edit: if s.edit.len() > 0 {
                    s.edit.drop_last()
                } else {
                    s.edit
                },
                ..s
            },
            Asked::Nothing,
        ),
        Key::Enter => (
            SessionView {
                prompt: if trim(s.edit).len() > 0 {
                    trim(s.edit)
                } else {
                    s.prompt
                },
                edit: Seq::empty(),
                mode: Mode::Browse,
                ..s
            },
            Asked::Nothing,
        ),
        Key::Char(c) => (SessionView { edit: s.edit.push(c), ..s }, Asked::Nothing),
        _ => (s, Asked::Nothing),
    }
}

/// A key. The three overlays close on any key; the quit prompt quits on
/// `y` and says it was cancelled otherwise; the command bar and the Test
/// prompt's editor take what is typed; while browsing, the global
/// keys come first and the screen's own keys after them. `None` where the
/// key's meaning rests on what the session does not hold: the config
/// picker, the keys that act on the preset list and its settings, the
/// Test screen's probe, and the filter and settings editors.
pub open spec fn key_view(s: SessionView, k: Key, page: int) -> Option<(SessionView, Asked)> {
    match s.mode {
        Mode::Help | Mode::Commands | Mode::About => Some((in_mode(s, Mode::Browse), Asked::Nothing)),
        Mode::Command => command_key_view(s, k),
        Mode::EditPrompt => Some(prompt_key_view(s, k)),
        Mode::ConfirmQuit => if k == Key::Char('y') || k == Key::Char('Y') {
            Some((in_mode(s, Mode::Browse), Asked::Quit))
        } else {
            Some((logged(in_mode(s, Mode::Browse), "quit cancelled"@), Asked::Nothing))
        },
        Mode::Browse => match global_key_view(s.screen, s.server.spec_is_live(), k) {
            Some(GlobalAction::Quit) => Some((s, Asked::Quit)),
            Some(GlobalAction::AskToQuit) => Some((in_mode(s, Mode::ConfirmQuit), Asked::Nothing)),
            Some(GlobalAction::OpenCommandBar) => Some((in_mode(s, Mode::Command), Asked::Nothing)),
            Some(GlobalAction::Show(t)) => Some((SessionView { screen: t, ..s }, Asked::Nothing)),
            Some(GlobalAction::OpenHelp) => Some((in_mode(s, Mode::Help), Asked::Nothing)),
            Some(GlobalAction::OpenPicker) => None,
            None => screen_key_view(s, k, page),
        },
        _ => None,
    }
}

/// How far the argv preview can be scrolled before its last line is on
/// screen: zero when it all fits.
pub open spec fn preview_max_view(lines: int, visible: int) -> int {
    if lines > visible {
        lines - visible
    } else {
        0
    }
}

/// A preview scroll offset pulled back into range, for when the preview
/// got shorter — a wider terminal wraps the same argv into fewer lines.
pub open spec fn clamp_preview_view(scroll: int, lines: int, visible: int) -> int {
    if scroll < preview_max_view(lines, visible) {
        scroll
    } else {
        preview_max_view(lines, visible)
    }
}

/// How far a preview of `lines` lines in a pane of `visible` rows can
/// scroll.
pub fn preview_max_scroll(lines: usize, visible: usize) -> (res: usize)
    ensures
        res == preview_max_view(lines as int, visible as int),
{
    lines.saturating_sub(visible)
}

/// A preview scroll offset pulled back into range.
pub fn clamp_preview_scroll(scroll: usize, lines: usize, visible: usize) -> (res: usize)
    ensures
        res == clamp_preview_view(scroll as int, lines as int, visible as int),
{
    let max = preview_max_scroll(lines, visible);
    if scroll < max {
        scroll
    } else {
        max
    }
}

/// The session after a status snapshot: the runtime takes it in (see
/// `ServerRuntime::apply_status`); a server starting with a model makes
/// it the last one launched, and a start begins a fresh count of probes
/// answered and failed.
pub open spec fn status_view(
    s: SessionView,
    state: ServerState,
    mode: LauncherMode,
    model: Option<Seq<char>>,
    phase: Phase,
    now: std::time::Instant,
    endpoint: Option<Seq<char>>,
) -> SessionView {
    let starting = state is Starting;
    SessionView {
        server: state,
        launcher: mode,
        phase,
        model: status_model(state, s.model, model),
        started_at: status_started(state, s.started_at, now),
        endpoint: status_endpoint(state, s.endpoint, endpoint),
        last_launched: if starting && model is Some {
            model
        } else {
            s.last_launched
        },
        probe_failures: if starting {
            0
        } else {
            s.probe_failures
        },
        probes: if starting {
            0
        } else {
            s.probes
        },
        ..s
    }
}

/// What one event does to the session, and what it asks for. `page` is
/// how many rows the active screen shows (what a page key moves by).
pub open spec fn update_view(s: SessionView, e: UiEventView, page: int) -> Option<(SessionView, Asked)> {
    match e {
        UiEventView::Key(k) => key_view(s, k, page),
        UiEventView::Tick => Some((s, Asked::Nothing)),
        UiEventView::CommandFinished { command, output } => Some((
            logged(SessionView { running: false, ..s }, ":"@ + command + " -> "@ + output),
            Asked::Nothing,
        )),
        UiEventView::Log(line) => Some((logged(s, line), Asked::Nothing)),
        UiEventView::DownloadProgress { model, done, total } => Some((
            SessionView { download: Some((model, done, total)), ..s },
            Asked::Nothing,
        )),
        UiEventView::DownloadFinished { model, result } => Some((
            logged(
                SessionView { download: None, ..s },
                match result {
                    Ok(summary) => summary,
                    Err(error) => "download "@ + model + " failed: "@ + error,
                },
            ),
            Asked::Nothing,
        )),
        UiEventView::Resize { width, height, preview_lines, preview_visible } => Some((
            SessionView {
                rows: height,
                cols: width,
                preview_scroll: clamp_preview_view(s.preview_scroll, preview_lines as int, preview_visible as int),
                ..s
            },
            Asked::Nothing,
        )),
        UiEventView::LlamaStatus { state, mode, model, phase, now, endpoint } => Some((
            status_view(s, state, mode, model, phase, now, endpoint),
            Asked::Nothing,
        )),
        UiEventView::ChatResult(result) => Some((
            match result {
                Ok(summary) => logged(
                    SessionView {
                        chat_pending: false,
                        chat_started: None,
                        chat: Some(result),
                        probes: (s.probes + 1) as u64,
                        ..s
                    },
                    "test -> "@ + summary,
                ),
                Err(error) => logged(
                    SessionView {
                        chat_pending: false,
                        chat_started: None,
                        chat: Some(result),
                        probe_failures: (s.probe_failures + 1) as u64,
                        ..s
                    },
                    "test -> error: "@ + error,
                ),
            },
            Asked::Nothing,
        )),
        UiEventView::Quit => Some((s, Asked::Quit)),
    }
}

impl Session {
    /// A session on the Models screen, browsing, with nothing typed,
    /// nothing running, no server and an empty log; `prompt` is the
    /// message the Test screen starts with.
    pub fn new(prompt: &str, rows: u16, cols: u16) -> (res: Session)
        ensures
            res@.screen == Screen::Models,
            res@.mode == Mode::Browse,
            res@.command.len() == 0,
            res@.prompt == prompt@,
            res@.edit.len() == 0,
            !res@.running,
            res@.server == ServerState::Off,
            res@.model is None,
            res@.launcher == LauncherMode::Idle,
            res@.endpoint is None,
            res@.started_at is None,
            res@.last_launched is None,
            !res@.chat_pending,
            res@.probe_failures == 0,
            res@.probes == 0,
            res@.chat is None,
            res@.chat_started is None,
            res@.phase.label is None,
            !res@.phase.degraded,
            res@.preview_scroll == 0,
            res@.logs.len() == 0,
            res@.scroll == 0,
            res@.router_cursor == 0,
            res@.models_max == DEFAULT_MODELS_MAX,
            res@.sleep_idle_seconds == DEFAULT_SLEEP_IDLE_SECONDS,
            res@.rows == rows,
            res@.cols == cols,
            res@.download is None,
    {
        let log = LogBuffer::new();
        let s = Session {
            screen: Screen::Models,
            mode: Mode::Browse,
            command_input: String::new(),
            prompt: String::from_str(prompt),
            edit_buffer: String::new(),
            running: false,
            runtime: ServerRuntime::default(),
            last_launched: None,
            chat_pending: false,
            probe_failures: 0,
            probes: 0,
            chat: None,
            chat_started: None,
            preview_scroll: 0,
            log,
            router_cursor: 0,
            models_max: DEFAULT_MODELS_MAX,
            sleep_idle_seconds: DEFAULT_SLEEP_IDLE_SECONDS,
            rows,
            cols,
            download: None,
        };
        assert(log_view(s.log.logs@) =~= Seq::<Seq<char>>::empty());
        s
    }

    /// Appends an entry to the log.
    pub fn push_log(&mut self, entry: &str)
        ensures
            final(self)@ == logged(old(self)@, entry@),
    {
        self.log.push_log(entry);
    }

    /// Empties the command bar and switches mode.
    fn clear_command(&mut self, mode: Mode)
        ensures
            final(self)@ == cleared(old(self)@, mode),
    {
        self.command_input = String::new();
        self.mode = mode;
    }

    /// Hands a command to the executor, unless one is in flight.
    fn run(&mut self, command: String) -> (res: Action)
        ensures
            (final(self)@, asked(res)->0) == run_view(old(self)@, command@),
            asked(res) is Some,
    {
        if self.running {
            let mut entry = String::from_str("busy, ignored :");
            entry.append(command.as_str());
            self.push_log(entry.as_str());
            return Action::Nothing;
        }
        self.running = true;
        let mut entry = String::from_str("queued :");
        entry.append(command.as_str());
        self.push_log(entry.as_str());
        Action::RunCommand(command)
    }

    /// The `s` key.
    fn stop_server(&mut self) -> (res: Action)
        ensures
            (final(self)@, asked(res)->0) == stop_server_view(old(self)@),
            asked(res) is Some,
    {
        if self.runtime.state.is_live() {
            self.push_log("queued :stop");
            return Action::RunCommand(String::from_str("stop"));
        }
        let cleared = match &self.runtime.state {
            ServerState::Error(reason) => {
                let mut entry = String::from_str("cleared: ");
                entry.append(reason.as_str());
                Some(entry)
            },
            _ => None,
        };
        match cleared {
            Some(entry) => {
                self.runtime.state = ServerState::Off;
                self.runtime.model = None;
                self.runtime.phase = Phase::none();
                self.push_log(entry.as_str());
            },
            None => {},
        }
        Action::Nothing
    }

    /// A key while the Test prompt is being edited.
    fn prompt_key(&mut self, k: Key)
        ensures
            final(self)@ == prompt_key_view(old(self)@, k).0,
    {
        match k {
            Key::Esc => {
                self.edit_buffer = String::new();
                self.mode = Mode::Browse;
            },
            Key::Backspace => {
                let mut typed = chars_of(self.edit_buffer.as_str());
                if typed.len() > 0 {
                    typed.pop();
                    let kept = string_of(typed.as_slice());
                    proof {
                        assert(kept@ =~= old(self)@.edit.drop_last());
                    }
                    self.edit_buffer = kept;
                }
            },
            Key::Enter => {
                let typed = chars_of(self.edit_buffer.as_str());
                let word = trim_chars(typed.as_slice());
                if word.len() > 0 {
                    self.prompt = string_of(word.as_slice());
                }
                self.edit_buffer = String::new();
                self.mode = Mode::Browse;
            },
            Key::Char(c) => {
                crate::text::push_char(&mut self.edit_buffer, c);
            },
            _ => {},
        }
    }

    /// A key on the Router screen.
    fn router_key(&mut self, k: Key, page: usize) -> (res: Option<Action>)
        ensures
            match router_key_view(old(self)@, k, page as int) {
                Some((s, a)) => res matches Some(act) && final(self)@ == s && asked(act) == Some(a),
                None => res is None && final(self)@ == old(self)@,
            },
    {
        match moved(self.router_cursor, 2, k, page) {
            Some(c) => {
                self.router_cursor = c;
                Some(Action::Nothing)
            },
            None => match k {
                Key::Char('s') => Some(self.stop_server()),
                Key::Char('r') => {
                    self.models_max = DEFAULT_MODELS_MAX;
                    self.sleep_idle_seconds = DEFAULT_SLEEP_IDLE_SECONDS;
                    self.push_log("router settings reset to the defaults");
                    Some(Action::Nothing)
                },
                Key::Enter => {
                    let command = router_command(self.models_max, self.sleep_idle_seconds);
                    Some(self.run(command))
                },
                Key::Char('+') | Key::Char('=') | Key::Char('-') | Key::Char('_') | Key::Char('J')
                | Key::Char('K') | Key::Char('y') => None,
                _ => Some(Action::Nothing),
            },
        }
    }

    /// A screen's own key.
    fn screen_key(&mut self, k: Key, page: usize) -> (res: Option<Action>)
        ensures
            match screen_key_view(old(self)@, k, page as int) {
                Some((s, a)) => res matches Some(act) && final(self)@ == s && asked(act) == Some(a),
                None => res is None && final(self)@ == old(self)@,
            },
    {
        match self.screen {
            Screen::Logs => {
                self.log.scroll_key(k, page);
                Some(Action::Nothing)
            },
            Screen::Server => match k {
                Key::Char('s') => Some(self.stop_server()),
                Key::Char('p') => {
                    let target = match &self.runtime.model {
                        Some(m) => {
                            let mut command = String::from_str("ping ");
                            command.append(m.as_str());
                            Some(command)
                        },
                        None => None,
                    };
                    match target {
                        Some(command) => Some(self.run(command)),
                        None => {
                            self.push_log(NOTHING_TO_PING);
                            Some(Action::Nothing)
                        },
                    }
                },
                Key::Enter => None,
                _ => Some(Action::Nothing),
            },
            Screen::Models => match k {
                Key::Char('s') => Some(self.stop_server()),
                Key::Char('/') => {
                    self.mode = Mode::Filter;
                    Some(Action::Nothing)
                },
                _ => None,
            },
            Screen::Router => self.router_key(k, page),
            Screen::Hub => match k {
                Key::Char('r') => Some(self.run(String::from_str("cache"))),
                _ => None,
            },
            Screen::Test => match k {
                Key::Char('e') => {
                    self.edit_buffer = self.prompt.clone();
                    self.mode = Mode::EditPrompt;
                    Some(Action::Nothing)
                },
                Key::Enter | Key::Char('r') => None,
                _ => Some(Action::Nothing),
            },
            _ => None,
        }
    }

    /// Enter in the command bar.
    fn submit_command(&mut self) -> (res: Option<Action>)
        ensures
            match submit_view(old(self)@) {
                Some((s, a)) => res matches Some(act) && final(self)@ == s && asked(act) == Some(a),
                None => res is None && final(self)@ == old(self)@,
            },
    {
        proof {
            reveal_strlit("stop");
            reveal_strlit("help");
            reveal_strlit("about");
            reveal_strlit("models");
            reveal_strlit("reload");
        }
        let typed = chars_of(self.command_input.as_str());
        let word = trim_chars(typed.as_slice());
        let c = word.as_slice();
        if c.len() == 0 {
            return Some(Action::Nothing);
        }
        if same_chars(c, chars_of("stop").as_slice()) {
            self.clear_command(Mode::Browse);
            self.push_log("queued :stop");
            return Some(Action::RunCommand(String::from_str("stop")));
        }
        if same_chars(c, chars_of("help").as_slice()) {
            self.clear_command(Mode::Commands);
            return Some(Action::Nothing);
        }
        if same_chars(c, chars_of("about").as_slice()) {
            self.clear_command(Mode::About);
            return Some(Action::Nothing);
        }
        if self.running {
            return Some(Action::Nothing);
        }
        if same_chars(c, chars_of("models").as_slice()) || same_chars(c, chars_of("reload").as_slice()) {
            return None;
        }
        let command = string_of(c);
        self.clear_command(Mode::Browse);
        Some(self.run(command))
    }

    /// A key while the command bar has focus.
    fn command_key(&mut self, k: Key) -> (res: Option<Action>)
        ensures
            match command_key_view(old(self)@, k) {
                Some((s, a)) => res matches Some(act) && final(self)@ == s && asked(act) == Some(a),
                None => res is None && final(self)@ == old(self)@,
            },
    {
        match k {
            Key::Esc => {
                self.clear_command(Mode::Browse);
                Some(Action::Nothing)
            },
            Key::Backspace => {
                let mut typed = chars_of(self.command_input.as_str());
                if typed.len() > 0 {
                    typed.pop();
                    let kept = string_of(typed.as_slice());
                    proof {
                        assert(kept@ =~= old(self)@.command.drop_last());
                    }
                    self.command_input = kept;
                }
                Some(Action::Nothing)
            },
            Key::Enter => self.submit_command(),
            Key::Char(c) => {
                crate::text::push_char(&mut self.command_input, c);
                Some(Action::Nothing)
            },
            _ => Some(Action::Nothing),
        }
    }

    /// What one event does; `None` when it is not this loop's to decide
    /// (see `key_view`), and then the session is left as it was. `page` is
    /// how many rows the active screen shows.
    pub fn update(&mut self, event: UiEvent, page: usize) -> (res: Option<Action>)
        requires
            event@ is ChatResult && event@->ChatResult_0 is Err ==> old(self).probe_failures < u64::MAX,
            event@ is ChatResult && event@->ChatResult_0 is Ok ==> old(self).probes < u64::MAX,
        ensures
            match update_view(old(self)@, event@, page as int) {
                Some((s, a)) => res matches Some(act) && final(self)@ == s && asked(act) == Some(a),
                None => res is None && final(self)@ == old(self)@,
            },
    {
        match event {
            UiEvent::Key(k) => self.key(k, page),
            UiEvent::Tick => Some(Action::Nothing),
            UiEvent::CommandFinished { command, output } => {
                self.running = false;
                let mut entry = String::from_str(":");
                entry.append(command.as_str());
                entry.append(" -> ");
                entry.append(output.as_str());
                self.push_log(entry.as_str());
                Some(Action::Nothing)
            },
            UiEvent::Log(line) => {
                self.push_log(line.as_str());
                Some(Action::Nothing)
            },
            UiEvent::DownloadProgress { model, done, total } => {
                self.download = Some(Download { model, done, total });
                Some(Action::Nothing)
            },
            UiEvent::DownloadFinished { model, result } => {
                self.download = None;
                match result {
                    Ok(summary) => self.push_log(summary.as_str()),
                    Err(error) => {
                        let mut entry = String::from_str("download ");
                        entry.append(model.as_str());
                        entry.append(" failed: ");
                        entry.append(error.as_str());
                        self.push_log(entry.as_str());
                    },
                }
                Some(Action::Nothing)
            },
            UiEvent::Resize { width, height, preview_lines, preview_visible } => {
                self.rows = height;
                self.cols = width;
                self.preview_scroll = clamp_preview_scroll(self.preview_scroll, preview_lines, preview_visible);
                Some(Action::Nothing)
            },
            UiEvent::LlamaStatus { state, mode, model, phase, now, endpoint } => {
                let starting = match &state {
                    ServerState::Starting => true,
                    _ => false,
                };
                if starting {
                    match &model {
                        Some(m) => {
                            self.last_launched = Some(m.clone());
                        },
                        None => {},
                    }
                    self.probe_failures = 0;
                    self.probes = 0;
                }
                self.runtime.apply_status(state, mode, model, phase, now, endpoint);
                Some(Action::Nothing)
            },
            UiEvent::ChatResult(result) => {
                self.chat_pending = false;
                self.chat_started = None;
                let entry = match &result {
                    Ok(summary) => {
                        self.probes = self.probes + 1;
                        let mut entry = String::from_str("test -> ");
                        entry.append(summary.as_str());
                        entry
                    },
                    Err(error) => {
                        self.probe_failures = self.probe_failures + 1;
                        let mut entry = String::from_str("test -> error: ");
                        entry.append(error.as_str());
                        entry
                    },
                };
                self.chat = Some(result);
                self.push_log(entry.as_str());
                Some(Action::Nothing)
            },
            UiEvent::Quit => Some(Action::Quit),
        }
    }

    /// A key.
    fn key(&mut self, k: Key, page: usize) -> (res: Option<Action>)
        ensures
            match key_view(old(self)@, k, page as int) {
                Some((s, a)) => res matches Some(act) && final(self)@ == s && asked(act) == Some(a),
                None => res is None && final(self)@ == old(self)@,
            },
    {
        match self.mode {
            Mode::Help | Mode::Commands | Mode::About => {
                self.mode = Mode::Browse;
                Some(Action::Nothing)
            },
            Mode::Command => self.command_key(k),
            Mode::EditPrompt => {
                self.prompt_key(k);
                Some(Action::Nothing)
            },
            Mode::ConfirmQuit => {
                self.mode = Mode::Browse;
                match k {
                    Key::Char('y') | Key::Char('Y') => Some(Action::Quit),
                    _ => {
                        self.push_log("quit cancelled");
                        Some(Action::Nothing)
                    },
                }
            },
            Mode::Browse => match global_key(self.screen, self.runtime.state.is_live(), k) {
                Some(GlobalAction::Quit) => Some(Action::Quit),
                Some(GlobalAction::AskToQuit) => {
                    self.mode = Mode::ConfirmQuit;
                    Some(Action::Nothing)
                },
                Some(GlobalAction::OpenCommandBar) => {
                    self.mode = Mode::Command;
                    Some(Action::Nothing)
                },
                Some(GlobalAction::Show(t)) => {
                    self.screen = t;
                    Some(Action::Nothing)
                },
                Some(GlobalAction::OpenHelp) => {
                    self.mode = Mode::Help;
                    Some(Action::Nothing)
                },
                Some(GlobalAction::OpenPicker) => None,
                None => self.screen_key(k, page),
            },
            _ => None,
        }
    }
}

/// The three reference overlays close on any key, `q` included, and
/// nothing else changes.
pub proof fn lemma_any_key_closes_an_overlay(s: SessionView, k: Key, page: int)
    requires
        s.mode == Mode::Help || s.mode == Mode::Commands || s.mode == Mode::About,
    ensures
        update_view(s, UiEventView::Key(k), page) == Some((in_mode(s, Mode::Browse), Asked::Nothing)),
{
}

/// `?` opens the key reference from every screen while browsing.
pub proof fn lemma_help_opens_from_every_screen(s: SessionView, page: int)
    requires
        s.mode == Mode::Browse,
    ensures
        update_view(s, UiEventView::Key(Key::Char('?')), page) == Some((in_mode(s, Mode::Help), Asked::Nothing)),
{
}

/// `q` quits at once when no server is live and asks first when one is;
/// `Q` always quits at once.
pub proof fn lemma_q_asks_only_while_a_server_is_live(s: SessionView, page: int)
    requires
        s.mode == Mode::Browse,
    ensures
        update_view(s, UiEventView::Key(Key::Char('q')), page) == (if s.server.spec_is_live() {
            Some((in_mode(s, Mode::ConfirmQuit), Asked::Nothing))
        } else {
            Some((s, Asked::Quit))
        }),
        update_view(s, UiEventView::Key(Key::Char('Q')), page) == Some((s, Asked::Quit)),
{
}

/// While the command bar has focus every character is typed into it —
/// `q` and `?` included.
pub proof fn lemma_the_command_bar_takes_every_character(s: SessionView, c: char, page: int)
    requires
        s.mode == Mode::Command,
    ensures
        update_view(s, UiEventView::Key(Key::Char(c)), page) == Some((
            SessionView { command: s.command.push(c), ..s },
            Asked::Nothing,
        )),
{
}

/// A typed `stop` is sent on even while another command is in flight, and
/// it does not claim the busy flag.
pub proof fn lemma_stop_is_never_held_back(s: SessionView, page: int)
    requires
        s.mode == Mode::Command,
        trim(s.command) == "stop"@,
    ensures
        update_view(s, UiEventView::Key(Key::Enter), page) matches Some((t, a)) && a == Asked::Run(
            "stop"@,
        ) && t.running == s.running && t.mode == Mode::Browse && t.command.len() == 0,
{
    reveal_strlit("stop");
    let t = logged(cleared(s, Mode::Browse), "queued :stop"@);
    assert(t.running == s.running && t.mode == Mode::Browse && t.command.len() == 0);
}

/// Only one command is in flight at a time: while one runs, any other
/// line stays in the bar untouched, and nothing is sent.
pub proof fn lemma_one_command_at_a_time(s: SessionView, page: int)
    requires
        s.mode == Mode::Command,
        s.running,
        trim(s.command).len() > 0,
        trim(s.command) != "stop"@,
        trim(s.command) != "help"@,
        trim(s.command) != "about"@,
    ensures
        update_view(s, UiEventView::Key(Key::Enter), page) == Some((s, Asked::Nothing)),
{
}

/// A finished command always releases the busy flag, and its output is
/// logged.
pub proof fn lemma_a_finished_command_frees_the_bar(
    s: SessionView,
    command: Seq<char>,
    output: Seq<char>,
    page: int,
)
    ensures
        update_view(s, UiEventView::CommandFinished { command, output }, page) == Some((
            logged(SessionView { running: false, ..s }, ":"@ + command + " -> "@ + output),
            Asked::Nothing,
        )),
        !logged(SessionView { running: false, ..s }, ":"@ + command + " -> "@ + output).running,
{
}

/// Once the supervisor reports a server starting, `q` asks before
/// quitting — and it goes on asking until a snapshot reports it off or
/// failed.
pub proof fn lemma_a_started_server_makes_q_ask(
    s: SessionView,
    mode: LauncherMode,
    model: Option<Seq<char>>,
    phase: Phase,
    now: std::time::Instant,
    endpoint: Option<Seq<char>>,
    page: int,
)
    requires
        s.mode == Mode::Browse,
    ensures
        ({
            let t = status_view(s, ServerState::Starting, mode, model, phase, now, endpoint);
            update_view(t, UiEventView::Key(Key::Char('q')), page) == Some((in_mode(t, Mode::ConfirmQuit), Asked::Nothing))
        }),
        status_view(s, ServerState::Off, mode, model, phase, now, endpoint).server.spec_is_live() == false,
{
}

/// A resize never leaves the preview scrolled past its end.
pub proof fn lemma_a_resize_keeps_the_preview_in_range(
    s: SessionView,
    width: u16,
    height: u16,
    lines: usize,
    visible: usize,
    page: int,
)
    requires
        s.preview_scroll >= 0,
    ensures
        update_view(s, UiEventView::Resize { width, height, preview_lines: lines, preview_visible: visible }, page)
            matches Some((t, a)) && a == Asked::Nothing && t.rows == height && t.cols == width
            && t.preview_scroll <= preview_max_view(lines as int, visible as int)
            && t.preview_scroll <= s.preview_scroll,
{
}

/// On the Test screen, `e` opens the editor on the prompt as it stands:
/// typing a character extends that prompt rather than starting a new one,
/// and Enter straight away leaves a prompt without stray whitespace as it
/// was.
pub proof fn lemma_e_edits_the_current_prompt(s: SessionView, c: char, page: int)
    requires
        s.mode == Mode::Browse,
        s.screen == Screen::Test,
    ensures
        update_view(s, UiEventView::Key(Key::Char('e')), page) matches Some((t, a)) && a == Asked::Nothing
            && t.mode == Mode::EditPrompt && t.edit == s.prompt && t.prompt == s.prompt,
        ({
            let t = (update_view(s, UiEventView::Key(Key::Char('e')), page)->0).0;
            update_view(t, UiEventView::Key(Key::Char(c)), page) matches Some((u, _)) && u.edit == s.prompt.push(c)
                && u.mode == Mode::EditPrompt
        }),
        s.prompt.len() > 0 && trim(s.prompt) == s.prompt ==> ({
            let t = (update_view(s, UiEventView::Key(Key::Char('e')), page)->0).0;
            update_view(t, UiEventView::Key(Key::Enter), page) matches Some((u, _)) && u.prompt == s.prompt
                && u.mode == Mode::Browse && u.edit.len() == 0
        }),
{
}

} // verus!
