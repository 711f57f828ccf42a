use herd::app::{Action, LauncherMode, Mode, Phase, Screen, ServerState};
use herd::keys::Key;
use herd::session::{Session, UiEvent};

fn session() -> Session {
    Session::new("Bonjour", 40, 120)
}

fn press(s: &mut Session, key: Key) -> Option<Action> {
    s.update(UiEvent::Key(key), 20)
}

fn ch(s: &mut Session, c: char) -> Option<Action> {
    press(s, Key::Char(c))
}

fn submit(s: &mut Session, line: &str) -> Option<Action> {
    ch(s, ':');
    for c in line.chars() {
        ch(s, c);
    }
    press(s, Key::Enter)
}

fn last_log(s: &Session) -> String {
    s.log.logs.back().cloned().unwrap_or_default()
}

#[test]
fn the_help_overlay_opens_and_any_key_closes_it() {
    let mut s = session();
    ch(&mut s, '?');
    assert_eq!(s.mode, Mode::Help);
    assert_eq!(ch(&mut s, 'q'), Some(Action::Nothing));
    assert_eq!(s.mode, Mode::Browse);
}

#[test]
fn q_is_typed_when_the_command_bar_has_focus() {
    let mut s = session();
    ch(&mut s, ':');
    ch(&mut s, 'q');
    assert_eq!(s.command_input, "q");
    assert_eq!(s.mode, Mode::Command);
}

#[test]
fn help_opens_the_command_listing_rather_than_running_anything() {
    let mut s = session();
    assert_eq!(submit(&mut s, "help"), Some(Action::Nothing));
    assert_eq!(s.mode, Mode::Commands);
    assert!(!s.running);
    assert!(s.command_input.is_empty());
    ch(&mut s, 'x');
    assert_eq!(s.mode, Mode::Browse);
}

#[test]
fn the_local_overlays_are_answered_while_a_command_is_in_flight() {
    for (typed, expected) in [("help", Mode::Commands), ("about", Mode::About)] {
        let mut s = session();
        s.running = true;
        assert_eq!(submit(&mut s, typed), Some(Action::Nothing), "{typed}");
        assert_eq!(s.mode, expected, "{typed}");
    }
}

#[test]
fn about_opens_the_build_details_rather_than_running_anything() {
    let mut s = session();
    assert_eq!(submit(&mut s, "about"), Some(Action::Nothing));
    assert_eq!(s.mode, Mode::About);
    assert!(!s.running);
    assert!(s.command_input.is_empty());
    ch(&mut s, 'x');
    assert_eq!(s.mode, Mode::Browse);
}

#[test]
fn a_typed_stop_is_dispatched_even_while_busy() {
    let mut s = session();
    s.running = true;
    assert_eq!(submit(&mut s, "stop"), Some(Action::RunCommand("stop".into())));
    assert_eq!(s.mode, Mode::Browse);
    assert!(s.command_input.is_empty());
    assert_eq!(last_log(&s), "queued :stop");
}

#[test]
fn quitting_with_nothing_running_does_not_ask() {
    let mut s = session();
    assert_eq!(ch(&mut s, 'q'), Some(Action::Quit));
    assert_eq!(s.mode, Mode::Browse);
}

#[test]
fn a_live_router_asks_before_quitting() {
    let mut s = session();
    s.runtime.state = ServerState::Starting;
    assert_eq!(ch(&mut s, 'q'), Some(Action::Nothing));
    assert_eq!(s.mode, Mode::ConfirmQuit);
}

#[test]
fn a_failed_server_does_not_trigger_quit_confirmation() {
    let mut s = session();
    s.runtime.state = ServerState::Error("failed".into());
    assert_eq!(ch(&mut s, 'q'), Some(Action::Quit));
    assert_eq!(s.mode, Mode::Browse);
}

#[test]
fn declining_the_quit_prompt_stays_put() {
    let mut s = session();
    s.runtime.state = ServerState::Serving;
    ch(&mut s, 'q');
    assert_eq!(s.mode, Mode::ConfirmQuit);
    assert_eq!(ch(&mut s, 'n'), Some(Action::Nothing));
    assert_eq!(s.mode, Mode::Browse);
    assert_eq!(last_log(&s), "quit cancelled");
}

#[test]
fn confirming_the_quit_prompt_quits() {
    let mut s = session();
    s.runtime.state = ServerState::Serving;
    ch(&mut s, 'q');
    assert_eq!(ch(&mut s, 'y'), Some(Action::Quit));
}

#[test]
fn shift_q_quits_without_asking() {
    let mut s = session();
    s.runtime.state = ServerState::Serving;
    s.running = true;
    assert_eq!(ch(&mut s, 'Q'), Some(Action::Quit));
    assert_eq!(s.mode, Mode::Browse);
}

#[test]
fn download_progress_and_completion_drive_the_bar() {
    let mut s = session();
    s.update(UiEvent::DownloadProgress { model: "gemma4-12b".into(), done: 2_000, total: 8_000 }, 20);
    let bar = s.download.clone().expect("a bar to draw");
    assert_eq!((bar.done, bar.total), (2_000, 8_000));
    s.update(UiEvent::DownloadFinished { model: "gemma4-12b".into(), result: Ok("done".into()) }, 20);
    assert!(s.download.is_none(), "the bar outlived the download");
    assert_eq!(last_log(&s), "done");
    s.update(UiEvent::DownloadFinished { model: "qwen3".into(), result: Err("disk full".into()) }, 20);
    assert_eq!(last_log(&s), "download qwen3 failed: disk full");
}

#[test]
fn a_command_is_dispatched_to_the_executor() {
    let mut s = session();
    assert_eq!(submit(&mut s, "status"), Some(Action::RunCommand("status".into())));
    assert!(s.running);
    assert_eq!(last_log(&s), "queued :status");
}

#[test]
fn a_second_command_waits_for_the_first() {
    let mut s = session();
    s.running = true;
    assert_eq!(submit(&mut s, "status"), Some(Action::Nothing));
    assert_eq!(s.mode, Mode::Command);
    assert_eq!(s.command_input, "status");
}

#[test]
fn reloading_the_config_is_left_to_the_caller() {
    let mut s = session();
    ch(&mut s, ':');
    for c in "models".chars() {
        ch(&mut s, c);
    }
    assert_eq!(press(&mut s, Key::Enter), None);
    assert_eq!(s.command_input, "models");
}

#[test]
fn command_finished_clears_the_running_flag() {
    let mut s = session();
    s.running = true;
    s.update(UiEvent::CommandFinished { command: "status".into(), output: "ok".into() }, 20);
    assert!(!s.running);
    assert_eq!(last_log(&s), ":status -> ok");
}

#[test]
fn quit_event_returns_quit_action() {
    let mut s = session();
    assert_eq!(s.update(UiEvent::Quit, 20), Some(Action::Quit));
}

#[test]
fn the_command_bar_edits_and_abandons_its_line() {
    let mut s = session();
    ch(&mut s, ':');
    ch(&mut s, 'a');
    ch(&mut s, 'b');
    press(&mut s, Key::Backspace);
    assert_eq!(s.command_input, "a");
    press(&mut s, Key::Esc);
    assert_eq!(s.mode, Mode::Browse);
    assert!(s.command_input.is_empty());
}

#[test]
fn the_session_scrolls_the_logs_screen() {
    let mut s = session();
    for i in 0..40 {
        s.push_log(&format!("line {i}"));
    }
    ch(&mut s, '7');
    assert_eq!(s.screen, Screen::Logs);
    ch(&mut s, 'k');
    assert_eq!(s.log.log_scroll, 1);
    press(&mut s, Key::PageUp);
    assert_eq!(s.log.log_scroll, 21);
    ch(&mut s, 'G');
    assert_eq!(s.log.log_scroll, 0);
    assert_eq!(ch(&mut s, 'x'), Some(Action::Nothing));
}

#[test]
fn another_screens_own_keys_are_left_to_it() {
    let mut s = session();
    assert_eq!(s.screen, Screen::Models);
    assert_eq!(press(&mut s, Key::Enter), None);
    assert_eq!(ch(&mut s, 'c'), None);
    assert_eq!(ch(&mut s, 'j'), None);
    assert_eq!(s.mode, Mode::Browse);
}

#[test]
fn stop_does_nothing_when_the_server_is_already_off() {
    let mut s = session();
    assert_eq!(ch(&mut s, 's'), Some(Action::Nothing));
    assert!(!s.running);
}

#[test]
fn stop_is_queued_while_the_server_is_live() {
    let mut s = session();
    s.runtime.state = ServerState::Serving;
    assert_eq!(ch(&mut s, 's'), Some(Action::RunCommand("stop".into())));
}

#[test]
fn stop_is_dispatched_even_while_another_command_is_in_flight() {
    let mut s = session();
    s.runtime.state = ServerState::Starting;
    s.running = true;
    assert_eq!(ch(&mut s, 's'), Some(Action::RunCommand("stop".into())));
}

#[test]
fn stop_does_not_claim_the_busy_flag() {
    let mut s = session();
    s.runtime.state = ServerState::Serving;
    ch(&mut s, 's');
    assert!(!s.running);
}

#[test]
fn stop_on_a_live_server_still_dispatches() {
    let mut s = session();
    s.runtime.state = ServerState::Serving;
    assert!(matches!(ch(&mut s, 's'), Some(Action::RunCommand(_))));
    assert_eq!(s.runtime.state, ServerState::Serving, "not local");
}

#[test]
fn stop_clears_a_stale_error() {
    let mut s = session();
    s.runtime.state = ServerState::Error("download stalled at 4.5G".into());
    s.runtime.model = Some("gemma4-31b".into());
    assert_eq!(ch(&mut s, 's'), Some(Action::Nothing));
    assert_eq!(s.runtime.state, ServerState::Off);
    assert_eq!(s.runtime.model, None);
    assert!(last_log(&s).contains("download stalled"));
}

#[test]
fn a_ping_needs_a_running_model() {
    let mut s = session();
    ch(&mut s, '2');
    assert_eq!(s.screen, Screen::Server);
    assert_eq!(ch(&mut s, 'p'), Some(Action::Nothing));
    assert!(last_log(&s).starts_with("nothing to ping"));
    s.runtime.model = Some("gemma4-12b".into());
    assert_eq!(ch(&mut s, 'p'), Some(Action::RunCommand("ping gemma4-12b".into())));
    assert!(s.running);
    assert_eq!(ch(&mut s, 'p'), Some(Action::Nothing));
    assert_eq!(last_log(&s), "busy, ignored :ping gemma4-12b");
}

#[test]
fn slash_opens_the_filter_and_r_rereads_the_cache() {
    let mut s = session();
    assert_eq!(ch(&mut s, '/'), Some(Action::Nothing));
    assert_eq!(s.mode, Mode::Filter);
    let mut s = session();
    ch(&mut s, '8');
    assert_eq!(s.screen, Screen::Hub);
    assert_eq!(ch(&mut s, 'r'), Some(Action::RunCommand("cache".into())));
}

#[test]
fn a_resize_is_remembered() {
    let mut s = session();
    assert_eq!(s.update(UiEvent::Resize { width: 80, height: 24, preview_lines: 0, preview_visible: 0 }, 20), Some(Action::Nothing));
    assert_eq!((s.cols, s.rows), (80, 24));
}

#[test]
fn the_router_screen_starts_the_router_with_its_numbers() {
    let mut s = session();
    ch(&mut s, '3');
    assert_eq!(s.screen, Screen::Router);
    assert_eq!(press(&mut s, Key::Enter), Some(Action::RunCommand("router --max 2 --idle 300".into())));
    assert!(s.running);
}

#[test]
fn the_router_screen_moves_between_its_rows_and_resets_its_numbers() {
    let mut s = session();
    ch(&mut s, '3');
    ch(&mut s, 'j');
    assert_eq!(s.router_cursor, 1);
    ch(&mut s, 'j');
    assert_eq!(s.router_cursor, 1);
    s.models_max = 5;
    s.sleep_idle_seconds = 60;
    assert_eq!(ch(&mut s, 'r'), Some(Action::Nothing));
    assert_eq!((s.models_max, s.sleep_idle_seconds), (2, 300));
    assert_eq!(last_log(&s), "router settings reset to the defaults");
    assert_eq!(ch(&mut s, '+'), None);
}

#[test]
fn esc_abandons_a_prompt_edit() {
    let mut s = session();
    ch(&mut s, '4');
    assert_eq!(s.screen, Screen::Test);
    ch(&mut s, 'e');
    assert_eq!(s.mode, Mode::EditPrompt);
    ch(&mut s, 'X');
    press(&mut s, Key::Esc);
    assert_eq!(s.mode, Mode::Browse);
    assert_eq!(s.prompt, "Bonjour");
}

#[test]
fn an_empty_prompt_is_rejected() {
    let mut s = session();
    ch(&mut s, '4');
    ch(&mut s, 'e');
    for _ in 0.."Bonjour".len() {
        press(&mut s, Key::Backspace);
    }
    press(&mut s, Key::Enter);
    assert_eq!(s.prompt, "Bonjour");
}

#[test]
fn an_edited_prompt_is_kept_trimmed() {
    let mut s = session();
    ch(&mut s, '4');
    ch(&mut s, 'e');
    for _ in 0.."Bonjour".len() {
        press(&mut s, Key::Backspace);
    }
    for c in " Explique la relativite ".chars() {
        ch(&mut s, c);
    }
    press(&mut s, Key::Enter);
    assert_eq!(s.mode, Mode::Browse);
    assert_eq!(s.prompt, "Explique la relativite");
    assert_eq!(press(&mut s, Key::Enter), None);
}

#[test]
fn widening_the_terminal_pulls_the_preview_back_into_range() {
    let mut s = session();
    s.preview_scroll = 12;
    s.update(UiEvent::Resize { width: 50, height: 40, preview_lines: 20, preview_visible: 6 }, 20);
    assert_eq!(s.preview_scroll, 12);
    s.update(UiEvent::Resize { width: 200, height: 40, preview_lines: 5, preview_visible: 6 }, 20);
    assert_eq!(herd::session::preview_max_scroll(5, 6), 0, "it all fits at 200 columns");
    assert_eq!(s.preview_scroll, 0, "left scrolled past the end");
}

#[test]
fn a_narrower_preview_keeps_the_offset_it_still_has_room_for() {
    assert_eq!(herd::session::clamp_preview_scroll(10, 14, 6), 8);
    assert_eq!(herd::session::clamp_preview_scroll(3, 14, 6), 3);
    assert_eq!(herd::session::preview_max_scroll(14, 6), 8);
}

fn status(s: &mut Session, state: ServerState, mode: LauncherMode, model: Option<&str>) {
    s.update(
        UiEvent::LlamaStatus {
            state,
            mode,
            model: model.map(|m| m.to_string()),
            phase: Phase::none(),
            now: std::time::Instant::now(),
            endpoint: Some("http://127.0.0.1:8080".into()),
        },
        20,
    );
}

#[test]
fn a_starting_server_starts_the_clock_and_is_remembered() {
    let mut s = session();
    s.probe_failures = 3;
    status(&mut s, ServerState::Starting, LauncherMode::Manual, Some("gemma4-12b"));
    assert!(s.runtime.started_at.is_some());
    assert_eq!(s.runtime.endpoint.as_deref(), Some("http://127.0.0.1:8080"));
    assert_eq!(s.runtime.model.as_deref(), Some("gemma4-12b"));
    assert_eq!(s.last_launched.as_deref(), Some("gemma4-12b"));
    assert_eq!(s.probe_failures, 0);
    assert_eq!(ch(&mut s, 'q'), Some(Action::Nothing));
    assert_eq!(s.mode, Mode::ConfirmQuit);
}

#[test]
fn a_snapshot_without_a_model_keeps_the_name_shown() {
    let mut s = session();
    status(&mut s, ServerState::Serving, LauncherMode::Manual, Some("gemma4-12b"));
    status(&mut s, ServerState::Stopping, LauncherMode::Manual, None);
    assert_eq!(s.runtime.model.as_deref(), Some("gemma4-12b"));
    assert_eq!(s.runtime.state, ServerState::Stopping);
}

#[test]
fn an_error_keeps_the_model_and_drops_the_clock() {
    let mut s = session();
    status(&mut s, ServerState::Starting, LauncherMode::Manual, Some("gemma4-31b"));
    status(&mut s, ServerState::Error("killed".into()), LauncherMode::Manual, None);
    assert_eq!(s.runtime.model.as_deref(), Some("gemma4-31b"));
    assert!(s.runtime.started_at.is_none());
    assert!(s.runtime.endpoint.is_none());
}

#[test]
fn off_drops_the_model_the_clock_and_the_endpoint() {
    let mut s = session();
    status(&mut s, ServerState::Starting, LauncherMode::Router, Some("router"));
    status(&mut s, ServerState::Off, LauncherMode::Idle, None);
    assert_eq!(s.runtime.model, None);
    assert!(s.runtime.started_at.is_none());
    assert!(s.runtime.endpoint.is_none());
    assert_eq!(s.runtime.mode, LauncherMode::Idle);
}

#[test]
fn a_failed_probe_is_counted_and_logged() {
    let mut s = session();
    s.chat_pending = true;
    s.update(UiEvent::ChatResult(Err("connection refused".into())), 20);
    assert!(!s.chat_pending);
    assert_eq!(s.probe_failures, 1);
    assert_eq!(last_log(&s), "test -> error: connection refused");
    s.chat_pending = true;
    s.update(UiEvent::ChatResult(Ok("42 tokens".into())), 20);
    assert!(!s.chat_pending);
    assert_eq!(s.probe_failures, 1);
    assert_eq!(last_log(&s), "test -> 42 tokens");
}

#[test]
fn a_failed_probe_is_reported_and_still_clears_the_flag() {
    let mut s = session();
    s.chat_pending = true;
    s.chat_started = Some(std::time::Instant::now());
    assert_eq!(s.update(UiEvent::ChatResult(Err("HTTP 503".into())), 20), Some(Action::Nothing));
    assert!(!s.chat_pending);
    assert!(s.chat_started.is_none());
    assert_eq!(s.chat, Some(Err("HTTP 503".to_string())));
    assert_eq!(s.probe_failures, 1);
    assert_eq!(s.probes, 0);
    assert_eq!(last_log(&s), "test -> error: HTTP 503");
}

#[test]
fn failures_are_counted_separately() {
    let mut s = session();
    s.update(UiEvent::ChatResult(Ok("12 tokens".into())), 20);
    s.update(UiEvent::ChatResult(Err("timeout".into())), 20);
    s.update(UiEvent::ChatResult(Ok("9 tokens".into())), 20);
    assert_eq!((s.probes, s.probe_failures), (2, 1));
    assert_eq!(s.chat, Some(Ok("9 tokens".to_string())));
    status(&mut s, ServerState::Starting, LauncherMode::Manual, Some("gemma4-12b"));
    assert_eq!((s.probes, s.probe_failures), (0, 0));
}

#[test]
fn state_transitions_track_the_lifecycle() {
    let mut s = session();
    s.update(
        UiEvent::LlamaStatus {
            state: ServerState::Starting,
            mode: LauncherMode::Manual,
            model: Some("gemma4-12b".into()),
            phase: Phase { label: Some("loading weights".into()), degraded: false },
            now: std::time::Instant::now(),
            endpoint: None,
        },
        20,
    );
    assert_eq!(s.runtime.phase.label.as_deref(), Some("loading weights"));
    assert!(s.runtime.uptime_secs().is_some());
    s.update(
        UiEvent::LlamaStatus {
            state: ServerState::Serving,
            mode: LauncherMode::Manual,
            model: None,
            phase: Phase { label: None, degraded: true },
            now: std::time::Instant::now(),
            endpoint: None,
        },
        20,
    );
    assert!(s.runtime.is_degraded());
    assert_eq!(s.runtime.model.as_deref(), Some("gemma4-12b"));
    assert!(s.runtime.uptime_secs().is_some());
    status(&mut s, ServerState::Off, LauncherMode::Idle, None);
    assert!(s.runtime.uptime_secs().is_none());
    assert!(!s.runtime.is_degraded());
}
