use herd::app::{
    global_key, GlobalAction, clock_label, is_on, moved, LauncherMode, LogBuffer, RouterSetting, Screen, ServerRuntime,
    ServerState, MAX_LOGS,
};
use herd::keys::Key;
use herd::components::sidebar::{menu_lines, system_lines};
use herd::components::Rect;
use herd::layout::page_rows;

#[test]
fn navigation_clamps_and_empty_lists_do_not_move() {
    assert_eq!(moved(0, 0, Key::Down, 10), None);
    assert_eq!(moved(2, 3, Key::Down, 10), Some(2));
    assert_eq!(moved(1, 3, Key::PageDown, 10), Some(2));
    assert_eq!(moved(1, 3, Key::PageUp, 10), Some(0));
}

#[test]
fn a_stale_cursor_is_pulled_back_into_the_list() {
    assert_eq!(moved(99, 3, Key::Down, 10), Some(2));
    assert_eq!(moved(usize::MAX, 3, Key::PageDown, usize::MAX), Some(2));
}

#[test]
fn screens_are_labelled_for_the_menu() {
    assert_eq!(Screen::ALL[0], Screen::Models);
    assert_eq!(Screen::Models.label(), "Models");
    let labels: Vec<&str> = Screen::ALL.iter().map(|s| s.label()).collect();
    for (i, a) in labels.iter().enumerate() {
        for b in labels.iter().skip(i + 1) {
            assert_ne!(a, b);
        }
    }
}

#[test]
fn a_multi_line_entry_is_split_before_the_cap() {
    let mut buffer = LogBuffer::new();
    buffer.push_log("a line\nanother line\r\na third line");
    assert_eq!(buffer.logs.len(), 3);
    assert_eq!(buffer.logs[1], "another line");

    let many: Vec<String> = (0..MAX_LOGS + 3).map(|i| format!("{i}")).collect();
    buffer.push_log(&many.join("\n"));
    assert_eq!(buffer.logs.len(), MAX_LOGS);
    assert_eq!(buffer.logs[0], "3");
}

#[test]
fn ini_switches_read_as_on_or_off() {
    assert!(is_on(""));
    assert!(is_on(" TRUE "));
    assert!(is_on("on"));
    assert!(is_on("Yes"));
    assert!(is_on("1"));
    assert!(!is_on("false"));
    assert!(!is_on("0"));
    assert!(!is_on("auto"));
}

#[test]
fn clocks_read_as_minutes_and_seconds() {
    assert_eq!(clock_label(0), "00:00");
    assert_eq!(clock_label(221), "03:41");
    assert_eq!(clock_label(6000), "100:00");
}

#[test]
fn a_fresh_runtime_is_idle_and_untimed() {
    let server = ServerRuntime::default();
    assert_eq!(server.state, ServerState::Off);
    assert_eq!(server.mode, LauncherMode::Idle);
    assert_eq!(server.uptime_secs(), None);
    assert_eq!(server.elapsed_label(), None);
}

#[test]
fn a_running_clock_reads_as_a_label() {
    let server = ServerRuntime {
        started_at: Some(std::time::Instant::now()),
        ..ServerRuntime::default()
    };
    assert!(server.uptime_secs().is_some());
    let label = server.elapsed_label().expect("a clock is running");
    assert!(label.starts_with("00:0"), "{label}");
}

#[test]
fn a_router_setting_carries_its_unit() {
    let idle = RouterSetting { key: "sleep-idle-seconds", value: 300, unit: "s", describes: "idle" };
    assert_eq!(idle.value_label(), "300s");
    let max = RouterSetting { key: "models-max", value: 2, unit: "", describes: "resident" };
    assert_eq!(max.value_label(), "2");
}

#[test]
fn digits_jump_straight_to_a_screen() {
    for (index, screen) in Screen::ALL.into_iter().enumerate() {
        let digit = char::from_digit(index as u32 + 1, 10).expect("a digit per screen");
        assert_eq!(
            global_key(Screen::Logs, false, Key::Char(digit)),
            Some(GlobalAction::Show(screen)),
            "{digit} went to the wrong screen"
        );
    }
    assert_eq!(global_key(Screen::Logs, false, Key::Char('9')), None);
    assert_eq!(global_key(Screen::Logs, false, Key::Char('0')), None);
}

#[test]
fn the_overlays_and_bars_open_from_anywhere() {
    for screen in Screen::ALL {
        assert_eq!(global_key(screen, false, Key::Char(':')), Some(GlobalAction::OpenCommandBar));
        assert_eq!(global_key(screen, false, Key::Char('?')), Some(GlobalAction::OpenHelp));
        assert_eq!(global_key(screen, false, Key::Char('c')), Some(GlobalAction::OpenPicker));
        assert_eq!(global_key(screen, false, Key::Enter), None, "enter is the screen's own");
        assert_eq!(global_key(screen, false, Key::Char('j')), None);
    }
}

#[test]
fn the_sidebar_shows_the_digit_that_jumps_to_each_screen() {
    let lines = menu_lines(Screen::Logs);
    assert_eq!(lines.len(), 8);
    assert_eq!(lines[0], "   1 Models");
    assert_eq!(lines[6], " ▸ 7 Logs");
    for (index, line) in lines.iter().enumerate() {
        let digit = line.chars().nth(3).unwrap();
        assert_eq!(global_key(Screen::Models, false, Key::Char(digit)), Some(GlobalAction::Show(Screen::ALL[index])));
    }
}

#[test]
fn a_full_scrolled_back_buffer_stays_on_the_same_lines() {
    let mut buffer = LogBuffer::new();
    for i in 0..MAX_LOGS {
        buffer.push_log(&format!("{i}"));
    }
    assert!(buffer.scroll_key(Key::PageUp, 10));
    let anchored = buffer.logs[buffer.logs.len() - 1 - buffer.log_scroll].clone();
    buffer.push_log("new");
    assert_eq!(buffer.logs.len(), MAX_LOGS);
    assert_eq!(buffer.log_scroll, 11);
    assert_eq!(buffer.logs[buffer.logs.len() - 1 - buffer.log_scroll], anchored);
}

fn terminal_of(width: u16, height: u16) -> Rect {
    Rect { x: 0, y: 0, width, height }
}

/// Where a key takes a cursor, or leaves it.
fn step(cursor: usize, len: usize, key: Key, page: usize) -> usize {
    moved(cursor, len, key, page).unwrap_or(cursor)
}

#[test]
fn page_and_edge_keys_move_further_than_one_row() {
    let page = page_rows(Screen::Models, terminal_of(120, 22));
    let len = 12;
    let last = len - 1;
    assert!(last > page, "fixture needs more presets than a page");

    let mut cursor = step(0, len, Key::PageDown, page);
    assert_eq!(cursor, page);
    cursor = step(cursor, len, Key::End, page);
    assert_eq!(cursor, last);
    cursor = step(cursor, len, Key::PageUp, page);
    assert_eq!(cursor, last - page);
    cursor = step(cursor, len, Key::Char('g'), page);
    assert_eq!(cursor, 0);
    cursor = step(cursor, len, Key::Char('G'), page);
    assert_eq!(cursor, last);
}

#[test]
fn paging_clamps_at_both_ends() {
    let page = page_rows(Screen::Models, terminal_of(120, 40));
    let len = 3;
    let cursor = step(0, len, Key::PageDown, page);
    assert_eq!(cursor, len - 1);
    assert_eq!(step(cursor, len, Key::PageUp, page), 0);
}

#[test]
fn an_empty_list_swallows_movement_without_panicking() {
    for key in [Key::Down, Key::PageDown, Key::End, Key::Home] {
        assert_eq!(step(0, 0, key, 10), 0);
    }
}

#[test]
fn tab_cycles_screens_and_wraps() {
    let mut screen = Screen::Models;
    for expected in Screen::ALL.into_iter().skip(1).chain([Screen::Models]) {
        screen = match global_key(screen, false, Key::Tab) {
            Some(GlobalAction::Show(next)) => next,
            other => panic!("tab did {other:?}"),
        };
        assert_eq!(screen, expected);
    }
}

#[test]
fn left_and_right_move_between_screens() {
    let first = Screen::Models;
    let show = |screen: Screen, key: Key| match global_key(screen, false, key) {
        Some(GlobalAction::Show(next)) => next,
        other => panic!("{key:?} did {other:?}"),
    };
    let right = show(first, Key::Right);
    assert_eq!(right, first.next());
    let back = show(right, Key::Left);
    assert_eq!(back, first, "left must undo right");
    assert_eq!(show(back, Key::Left), first.prev(), "and wrap the other way");
}

#[test]
fn q_quits_directly_when_no_server_is_live() {
    assert_eq!(global_key(Screen::Models, false, Key::Char('q')), Some(GlobalAction::Quit));
}

#[test]
fn a_running_server_asks_before_quitting() {
    assert_eq!(global_key(Screen::Models, true, Key::Char('q')), Some(GlobalAction::AskToQuit));
    assert_eq!(global_key(Screen::Models, true, Key::Char('Q')), Some(GlobalAction::Quit));
}

#[test]
fn help_can_be_opened_from_any_screen() {
    for screen in Screen::ALL {
        assert_eq!(global_key(screen, false, Key::Char('?')), Some(GlobalAction::OpenHelp), "{screen:?} would not open help");
    }
}

#[test]
fn logs_are_capped() {
    let mut buffer = LogBuffer::new();
    for i in 0..MAX_LOGS + 50 {
        buffer.push_log(&format!("line {i}"));
    }
    assert_eq!(buffer.logs.len(), MAX_LOGS);
}

#[test]
fn the_oldest_lines_go_first() {
    let mut buffer = LogBuffer::new();
    for i in 0..(MAX_LOGS + 25) {
        buffer.push_log(&format!("line {i}"));
    }
    assert_eq!(buffer.logs.front().map(String::as_str), Some("line 25"));
    assert_eq!(
        buffer.logs.back().map(String::as_str),
        Some(format!("line {}", MAX_LOGS + 24).as_str())
    );
}

fn forty_lines() -> LogBuffer {
    let mut buffer = LogBuffer::new();
    for i in 0..40 {
        buffer.push_log(&format!("line {i}"));
    }
    buffer
}

#[test]
fn the_logs_screen_scrolls_back_and_returns_to_the_tail() {
    let mut buffer = forty_lines();
    let page = page_rows(Screen::Logs, terminal_of(120, 24));

    assert!(buffer.scroll_key(Key::Char('k'), page));
    assert_eq!(buffer.log_scroll, 1);

    assert!(buffer.scroll_key(Key::PageUp, page));
    assert_eq!(buffer.log_scroll, 1 + page);

    assert!(buffer.scroll_key(Key::Char('j'), page));
    assert_eq!(buffer.log_scroll, page);

    assert!(buffer.scroll_key(Key::Char('G'), page));
    assert_eq!(buffer.log_scroll, 0, "G returns to the newest line");

    assert!(buffer.scroll_key(Key::Char('g'), page));
    assert_eq!(buffer.log_scroll, buffer.logs.len() - 1, "g reaches the oldest");
}

#[test]
fn a_scrolled_back_log_view_stays_on_the_same_lines() {
    let mut buffer = forty_lines();
    let page = page_rows(Screen::Logs, terminal_of(120, 24));

    assert!(buffer.scroll_key(Key::PageUp, page));
    let pinned = buffer.log_scroll;

    buffer.push_log("a line the server just emitted");
    assert_eq!(buffer.log_scroll, pinned + 1, "the view drifted off the pinned line");
}

#[test]
fn following_the_tail_is_not_disturbed_by_new_lines() {
    let mut buffer = LogBuffer::new();
    buffer.push_log("something happened");
    assert_eq!(buffer.log_scroll, 0);
}

#[test]
fn scrolling_stops_at_both_ends_of_the_buffer() {
    let mut buffer = forty_lines();
    for _ in 0..100 {
        buffer.scroll_key(Key::Up, 10);
    }
    assert_eq!(buffer.log_scroll, 39);
    assert!(buffer.scroll_key(Key::End, 10));
    assert!(buffer.scroll_key(Key::Down, 10));
    assert_eq!(buffer.log_scroll, 0);
    assert!(!buffer.scroll_key(Key::Enter, 10));
}

#[test]
fn the_sidebar_lists_the_machine_facts() {
    let lines = system_lines(Some("32gb"), "aarch64", Some("Apple M2 Max (38-core GPU)"), Some("21.4"), Some(32));
    assert_eq!(
        lines,
        vec!["", " tier  32gb", " arch  aarch64", " GPU   Apple M2 Max (…", " free  21.4 GiB", " RAM   32 GiB"]
    );
}

#[test]
fn an_unread_figure_in_the_sidebar_is_a_question_mark() {
    let lines = system_lines(None, "x86_64", None, None, None);
    assert_eq!(lines, vec!["", " tier  -", " arch  x86_64", " GPU   ?", " free  ?", " RAM   ?"]);
}
