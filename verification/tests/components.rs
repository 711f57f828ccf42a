use herd::app::{Screen, HubRow, LauncherMode, Mode, ServerRuntime, ServerState, SettingRow, Scope};
use herd::commands::{self, Group};
use herd::components::about;
use herd::components::command_bar;
use herd::components::command_help::{content_width, desired_width, lines};
use herd::components::confirm::{delete_lines, model_count, quit_lines, serving_summary};
use herd::components::hub::{
    summary, disk, elide_start, human_bytes, size, Columns, REF_COMFORT, REF_MAX, REF_MIN, W_DISK,
    W_MARKER, W_PRESET, W_SIZE,
};
use herd::components::logs::{footer as logs_footer, viewport};
use herd::components::models::{empty_message, lifecycle_glyph, table_header, table_row, truncate, wrap_argv};
use herd::components::server::{state_glyph, uptime};
use herd::components::settings::{footer as settings_footer, row_heights, setting_row, toggle_state, NOTE};
use herd::components::stats::format_duration;
use herd::components::status;
use herd::keys::{for_screen, screen_hint, screen_hint_within};
use herd::components::{help, picker, router};
use herd::app::{in_flight, router_rows, ModelRow, PendingDelete, RouterSetting};
use herd::components::{centered, hint_width, position, viewport_top, Rect};

const WIDE: usize = 120 - 24 - 2;
const NARROW: usize = 100 - 24 - 2;

fn row(preset: Option<&str>, shares: bool) -> HubRow {
    HubRow {
        reference: "unsloth/gemma-4-12B-it-qat-GGUF:Q4_K_XL".into(),
        weights: Some(7_193_575_424),
        disk: Some(22_106_570_752),
        preset: preset.map(str::to_string),
        shares_disk: shares,
    }
}

#[test]
fn no_width_produces_a_row_that_overflows() {
    for width in 0..=200 {
        let columns = Columns::for_width(width);
        let line = columns.row("▸ ", "vendor/some-model-GGUF:Q4_K_XL", "6.7G", "20.6G*", "p");

        assert_eq!(
            line.chars().count(),
            columns.width(),
            "the row is not the width it claims at {width}"
        );
        if width >= columns.width() {
            continue;
        }
        assert!(
            columns.width() <= REF_MIN + W_MARKER + 1 + W_SIZE,
            "width {width} produced a {}-column row",
            columns.width()
        );
    }
}

#[test]
fn a_wide_pane_keeps_every_column() {
    let columns = Columns::for_width(WIDE);

    assert!(columns.disk && columns.preset);
    assert!(columns.width() <= WIDE);
}

#[test]
fn a_narrow_pane_gives_up_disk_before_the_preset_name() {
    let mut columns = Columns::for_width(NARROW);
    while columns.disk {
        columns = Columns::for_width(columns.width() - 1);
    }
    assert!(columns.preset, "the preset name went before the disk usage");
}

#[test]
fn a_narrow_pane_spends_its_last_columns_on_the_reference() {
    let columns = Columns::for_width(NARROW);

    assert!(!columns.disk, "disk survived at the reference's expense");
    assert!(
        columns.reference >= REF_COMFORT,
        "the reference was cut to {} at {NARROW} columns",
        columns.reference
    );
    assert!(columns.reference >= "unsloth/gemma-4-12B-it-qat-GGUF:Q4_K_XL".len());
}

#[test]
fn no_width_wastes_room_a_dropped_column_would_have_fitted_in() {
    for width in 0..=200 {
        let columns = Columns::for_width(width);
        let slack = width.saturating_sub(columns.width());

        if !columns.disk {
            assert!(
                slack < W_DISK + 1 || columns.reference == REF_MAX,
                "at {width}, disk was dropped with {slack} columns to spare"
            );
        }
        if !columns.preset {
            assert!(
                slack < W_PRESET + 1 || columns.reference == REF_MAX,
                "at {width}, the preset name was dropped with {slack} to spare"
            );
        }
    }
}

#[test]
fn the_header_and_a_row_line_up() {
    let columns = Columns::for_width(WIDE);
    assert_eq!(
        columns.header().chars().count(),
        columns
            .row("▸ ", "unsloth/x:Q4", "6.7G", "20.6G*", "gemma4-12b")
            .chars()
            .count()
    );
}

#[test]
fn a_long_reference_keeps_its_quantisation() {
    let elided = elide_start("unsloth/gemma-4-12B-it-qat-GGUF:Q4_K_XL", 20);

    assert_eq!(elided.chars().count(), 20);
    assert!(elided.ends_with("Q4_K_XL"), "{elided}");
    assert!(elided.starts_with('…'), "{elided}");
}

#[test]
fn a_shared_repo_says_its_size_is_shared() {
    assert!(disk(&row(None, true)).ends_with('*'));
    assert!(!disk(&row(None, false)).ends_with('*'));
}

#[test]
fn an_unmeasured_size_renders_as_nothing_rather_than_zero() {
    assert_eq!(size(None), "-");
    assert_eq!(disk(&HubRow { disk: None, ..row(None, false) }), "-");
}

#[test]
fn every_width_up_to_the_widest_row_is_met_exactly() {
    for width in 0..=200 {
        let columns = Columns::for_width(width);
        if columns.width() <= width {
            assert!(columns.reference >= REF_MIN && columns.reference <= REF_MAX);
        }
        if !columns.preset {
            assert!(!columns.disk, "disk outlived the preset name at {width}");
        }
    }
    let widest = Columns::for_width(1000);
    assert!(widest.disk && widest.preset);
    assert_eq!(widest.reference, REF_MAX);
}

#[test]
fn sizes_are_given_in_binary_units() {
    assert_eq!(human_bytes(512), "512B");
    assert_eq!(human_bytes(1536), "1.5K");
    assert_eq!(human_bytes(7_193_575_424), "6.7G");
    assert_eq!(size(Some(22_106_570_752)), "20.6G");
    assert_eq!(disk(&row(None, true)), "20.6G*");
}

#[test]
fn elision_keeps_short_text_and_never_overflows() {
    assert_eq!(elide_start("short", 10), "short");
    assert_eq!(elide_start("abcdef", 1), "…");
    assert_eq!(elide_start("abcdef", 0), "");
    assert_eq!(elide_start("abcdef", 4), "…def");
    for width in 0..10 {
        assert!(elide_start("0123456789abc", width).chars().count() <= width);
    }
}

#[test]
fn a_long_path_keeps_its_tail_in_the_about_box() {
    let deep = "/Users/somebody/Documents/development/herd/data/32gb/models.ini";
    let value = about::elide(deep, about::VALUE);
    assert!(value.chars().count() <= about::VALUE);
    assert!(value.ends_with("32gb/models.ini"), "{value}");
    assert!(value.starts_with('…'), "{value}");
    assert_eq!(about::elide("/x.ini", about::VALUE), "/x.ini");
}

#[test]
fn a_buffer_shorter_than_the_screen_starts_at_the_first_line() {
    assert_eq!(viewport(4, 20, 0), (0, false));
}

#[test]
fn following_the_tail_shows_the_end_of_the_buffer() {
    let (top, pinned) = viewport(100, 20, 0);

    assert_eq!(top, 80);
    assert!(!pinned);
    assert_eq!(top + 20, 100, "the newest line is the last one drawn");
}

#[test]
fn scrolling_back_moves_the_window_towards_the_oldest_line() {
    assert_eq!(viewport(100, 20, 30), (50, true));
}

#[test]
fn scrollback_clamps_at_the_oldest_line() {
    assert_eq!(viewport(100, 20, 9_999), (0, true));
}

#[test]
fn the_scroll_position_spans_the_whole_buffer() {
    let (total, height) = (100usize, 20usize);
    let range = total - height;

    let (following, _) = viewport(total, height, 0);
    assert_eq!(following, range, "following the tail is the far end");

    let (oldest, _) = viewport(total, height, range);
    assert_eq!(oldest, 0, "the oldest line is the near end");
}

#[test]
fn a_cursor_near_the_top_leaves_the_list_where_it_is() {
    assert_eq!(viewport_top(50, 10, 0), 0);
    assert_eq!(viewport_top(50, 10, 9), 0);
}

#[test]
fn a_cursor_past_the_first_screen_scrolls_by_the_difference() {
    assert_eq!(viewport_top(50, 10, 10), 1);
    assert_eq!(viewport_top(50, 10, 20), 11);
}

#[test]
fn the_window_stops_at_the_end_of_the_list() {
    assert_eq!(viewport_top(50, 10, 49), 40);
    assert_eq!(viewport_top(3, 10, 2), 0, "a list that fits never scrolls");
}

#[test]
fn a_position_is_one_based() {
    assert_eq!(position(0, 8), " 1/8 ");
    assert_eq!(position(7, 8), " 8/8 ");
}

#[test]
fn an_empty_list_has_no_position() {
    assert_eq!(position(0, 0), "");
}

#[test]
fn a_stale_cursor_is_clamped_to_the_list() {
    assert_eq!(position(99, 3), " 3/3 ");
}

#[test]
fn centred_box_sits_inside_its_area() {
    let area = Rect { x: 0, y: 0, width: 100, height: 40 };
    let popup = centered(area, 64, 8);

    assert_eq!((popup.width, popup.height), (64, 8));
    assert!(popup.x + popup.width <= area.width);
    assert!(popup.y + popup.height <= area.height);
}

#[test]
fn a_tiny_terminal_clamps_instead_of_underflowing() {
    let area = Rect { x: 0, y: 0, width: 20, height: 4 };
    let popup = centered(area, 64, 8);

    assert_eq!((popup.width, popup.height), (20, 4));
    assert!(popup.x + popup.width <= area.width);
}

#[test]
fn a_modal_fits_a_small_terminal() {
    let area = Rect { x: 0, y: 0, width: 30, height: 8 };
    let popup = centered(area, 78, 20);

    assert_eq!((popup.width, popup.height), (30, 8));
    assert!(popup.x + popup.width <= area.width);
    assert!(popup.y + popup.height <= area.height);
}

#[test]
fn a_centred_box_is_offset_by_half_the_slack() {
    let area = Rect { x: 10, y: 5, width: 100, height: 40 };
    assert_eq!(centered(area, 64, 8), Rect { x: 28, y: 21, width: 64, height: 8 });
}

#[test]
fn a_footer_loses_the_borders_the_indent_and_what_is_already_there() {
    assert_eq!(hint_width(100, true, 0), 96);
    assert_eq!(hint_width(100, false, 10), 88);
    assert_eq!(hint_width(3, true, 0), 0);
}

#[test]
fn an_inactive_row_never_carries_a_marker() {
    for state in [
        ServerState::Off,
        ServerState::Starting,
        ServerState::Serving,
        ServerState::Stopping,
        ServerState::Error("oom".into()),
    ] {
        assert_eq!(lifecycle_glyph(&state, false), ' ', "{state:?}");
    }
}

#[test]
fn a_stopped_model_loses_its_marker() {
    assert_eq!(lifecycle_glyph(&ServerState::Off, true), ' ');
}

#[test]
fn each_live_state_has_its_own_marker() {
    assert_eq!(lifecycle_glyph(&ServerState::Serving, true), '●');
    assert_eq!(lifecycle_glyph(&ServerState::Starting, true), '◐');
    assert_eq!(lifecycle_glyph(&ServerState::Stopping, true), '◐');
    assert_eq!(lifecycle_glyph(&ServerState::Error("x".into()), true), '✖');
}

#[test]
fn truncate_keeps_short_text_intact() {
    assert_eq!(truncate("short", 10), "short");
}

#[test]
fn truncate_marks_elided_text() {
    assert_eq!(truncate("abcdefghij", 5), "abcd…");
}

#[test]
fn wrap_argv_starts_with_the_binary_and_keeps_every_token() {
    let argv = vec![
        "--host".to_string(),
        "0.0.0.0".to_string(),
        "--port".to_string(),
        "1234".to_string(),
    ];
    let wrapped = wrap_argv(&argv);

    assert!(wrapped.starts_with("llama-server \\"));
    for token in &argv {
        assert!(wrapped.contains(token), "{token} missing from preview");
    }
}

#[test]
fn a_long_argv_breaks_before_each_option() {
    let argv: Vec<String> = [
        "--host", "0.0.0.0", "--port", "8080", "--models-preset", "/data/32gb/models.ini",
        "--ctx-size", "65536",
    ]
    .iter()
    .map(|s| s.to_string())
    .collect();
    let wrapped = wrap_argv(&argv);
    let lines: Vec<&str> = wrapped.lines().collect();
    assert!(lines.len() > 1, "{wrapped}");
    assert_eq!(lines[0], "llama-server \\");
    for line in &lines[..lines.len() - 1] {
        assert!(line.ends_with(" \\"), "{line:?}");
    }
}

#[test]
fn uptime_reads_as_a_dash_when_nothing_runs() {
    assert_eq!(uptime(&ServerRuntime::default()), "-");
}

#[test]
fn every_state_has_a_distinct_glyph() {
    let glyphs = [
        state_glyph(&ServerState::Off),
        state_glyph(&ServerState::Starting),
        state_glyph(&ServerState::Serving),
        state_glyph(&ServerState::Error("x".into())),
    ];
    for (i, a) in glyphs.iter().enumerate() {
        for b in glyphs.iter().skip(i + 1) {
            assert_ne!(a, b);
        }
    }
    assert_eq!(state_glyph(&ServerState::Starting), state_glyph(&ServerState::Stopping));
}

#[test]
fn only_booleans_get_a_checkbox() {
    assert_eq!(toggle_state("true"), Some(true));
    assert_eq!(toggle_state("on"), Some(true));
    assert_eq!(toggle_state("yes"), Some(true));
    assert_eq!(toggle_state("false"), Some(false));
    assert_eq!(toggle_state("off"), Some(false));

    for value in ["1234", "0", "1", "auto", "unsloth/x:Q4"] {
        assert_eq!(toggle_state(value), None, "{value:?} got a checkbox");
    }
}

#[test]
fn the_checkbox_ignores_case_and_padding() {
    assert_eq!(toggle_state("  TRUE "), Some(true));
    assert_eq!(toggle_state("Off"), Some(false));
}

#[test]
fn durations_read_naturally() {
    assert_eq!(format_duration(9), "9s");
    assert_eq!(format_duration(70), "1m10s");
    assert_eq!(format_duration(3725), "1h02m05s");
}

#[test]
fn durations_at_the_unit_boundaries() {
    assert_eq!(format_duration(0), "0s");
    assert_eq!(format_duration(60), "1m00s");
    assert_eq!(format_duration(3600), "1h00m00s");
    assert_eq!(format_duration(36_000 + 59), "10h00m59s");
}

#[test]
fn router_model_count_uses_singular_and_plural_grammar() {
    assert_eq!(model_count(1), "up to 1 model");
    assert_eq!(model_count(2), "up to 2 models");
}

fn runtime(state: ServerState, mode: LauncherMode, model: Option<&str>) -> ServerRuntime {
    ServerRuntime {
        state,
        mode,
        model: model.map(str::to_string),
        ..ServerRuntime::default()
    }
}

#[test]
fn quit_summary_distinguishes_idle_manual_and_router_modes() {
    let idle = runtime(ServerState::Off, LauncherMode::Idle, None);
    assert_eq!(serving_summary(&idle, 2), "No model is currently being served.");

    let manual = runtime(ServerState::Serving, LauncherMode::Manual, Some("gemma4-12b"));
    assert_eq!(
        serving_summary(&manual, 2),
        "Model 'gemma4-12b' is currently being served."
    );

    let router = runtime(ServerState::Serving, LauncherMode::Router, None);
    assert_eq!(
        serving_summary(&router, 3),
        "Router mode is active; it can keep up to 3 models loaded."
    );
}

#[test]
fn the_quit_summary_covers_every_transition() {
    let starting = runtime(ServerState::Starting, LauncherMode::Manual, Some("gemma4-12b"));
    assert_eq!(serving_summary(&starting, 2), "Model 'gemma4-12b' is currently starting.");
    let stopping = runtime(ServerState::Stopping, LauncherMode::Router, None);
    assert_eq!(
        serving_summary(&stopping, 1),
        "Router mode is stopping; up to 1 model may still be loaded."
    );
    let failed = runtime(ServerState::Error("oom".into()), LauncherMode::Manual, None);
    assert_eq!(
        serving_summary(&failed, 2),
        "No model is currently served; the last launch of 'unknown model' failed."
    );
    let router_failed = runtime(ServerState::Error("x".into()), LauncherMode::Router, None);
    assert_eq!(
        serving_summary(&router_failed, 2),
        "No models are currently served; router mode failed."
    );
    let long = runtime(
        ServerState::Serving,
        LauncherMode::Manual,
        Some("a-very-long-preset-name-indeed"),
    );
    assert_eq!(
        serving_summary(&long, 2),
        "Model 'a-very-long-prese…' is currently being served."
    );
}

#[test]
fn an_idle_server_reports_no_elapsed_time() {
    assert_eq!(status::elapsed(&ServerRuntime::default()), None);
    let serving = runtime(ServerState::Serving, LauncherMode::Manual, Some("m"));
    assert_eq!(status::elapsed(&serving), None, "no clock is running");
}

#[test]
fn starting_and_serving_label_their_elapsed_time_differently() {
    let mut server = runtime(ServerState::Starting, LauncherMode::Manual, Some("gemma4-12b"));
    server.started_at = Some(std::time::Instant::now());
    let starting = status::elapsed(&server).expect("starting has an elapsed time");
    assert!(starting.starts_with("waiting 00:0"), "got {starting}");

    server.state = ServerState::Serving;
    let serving = status::elapsed(&server).expect("serving has an uptime");
    assert!(serving.starts_with("up 00:0"), "got {serving}");

    server.state = ServerState::Stopping;
    assert_eq!(status::elapsed(&server), None);
}

#[test]
fn each_mode_has_its_own_hint() {
    let mut seen = Vec::new();
    for mode in [
        Mode::Browse,
        Mode::Command,
        Mode::Filter,
        Mode::EditSetting,
        Mode::EditPrompt,
        Mode::Picker,
        Mode::ConfirmLaunch,
        Mode::ConfirmQuit,
        Mode::Help,
    ] {
        let text = status::hint(mode);
        assert!(!seen.contains(&text), "duplicate hint for {mode:?}");
        seen.push(text);
    }
    assert!(status::hint(Mode::Browse).contains("q quit"));
}

#[test]
fn an_empty_bar_points_at_the_listing() {
    assert!(command_bar::hint("").contains(":help"));
    assert_eq!(command_bar::hint("   "), " :help lists the commands ");
}

#[test]
fn a_known_command_is_described_while_it_is_typed() {
    let hint = command_bar::hint("launch gemma4-12b");
    assert!(hint.contains("hot-swapping"), "{hint}");
    assert_eq!(command_bar::hint(" stop "), " stop the supervised process, even while something else is busy ");
}

#[test]
fn a_typo_says_so_before_it_is_submitted() {
    let hint = command_bar::hint("lauch");
    assert!(hint.starts_with(" unknown"), "{hint}");
}

fn listing() -> String {
    lines(content_width()).join("\n")
}

#[test]
fn every_visible_command_is_listed_with_its_usage() {
    let text = listing();
    for command in commands::visible() {
        assert!(text.contains(command.usage), "{} is not in the listing", command.name);
        assert!(text.contains(command.summary), "{} has no summary", command.name);
    }
}

#[test]
fn the_forced_launch_is_not_advertised() {
    assert!(!listing().contains("launch!"));
}

#[test]
fn every_group_gets_a_heading() {
    let text = listing();
    for group in Group::ALL {
        assert!(text.contains(group.label()), "{:?} heading", group.label());
    }
}

#[test]
fn nothing_is_elided_when_the_box_gets_the_width_it_asked_for() {
    assert!(!listing().contains('…'));
}

#[test]
fn command_help_a_narrow_box_elides_visibly_and_never_overflows() {
    for width in 0..=content_width() {
        let mut shortened = false;
        for text in lines(width) {
            assert!(
                text.chars().count() <= width,
                "a {}-character row in a {width}-wide box: {text}",
                text.chars().count()
            );
            shortened |= text.contains('…');
        }
        assert!(
            shortened || width == content_width() || width == 0,
            "nothing was elided at {width} and nothing said so"
        );
    }
}

#[test]
fn the_help_box_asks_for_its_content_and_its_borders() {
    assert_eq!(desired_width() as usize, content_width() + 3);
}

#[test]
fn setting_rows_expose_their_parts() {
    let entry = SettingRow::Entry {
        scope: Scope::Model,
        model: "gemma4-12b".into(),
        key: "no-mmproj".into(),
        ini_value: "true".into(),
        override_value: Some("off".into()),
    };
    let (scope, model, key, ini, over) = entry.as_entry().expect("entry");
    assert_eq!((*scope, model, key, ini, over), (Scope::Model, "gemma4-12b", "no-mmproj", "true", Some("off")));
    assert_eq!(toggle_state(over.unwrap_or(ini)), Some(false));
    assert!(SettingRow::Header("Server".into()).as_entry().is_none());
}

#[test]
fn the_logs_footer_leads_with_the_position() {

    let following = logs_footer(100, 80, 20, false, 200);
    assert_eq!(following, format!("  100 lines · newest   {}", screen_hint(Screen::Logs)));

    let back = logs_footer(100, 50, 20, true, 200);
    assert!(back.starts_with("  51–70 of 100 · scrolled back   "), "{back}");

    let cramped = logs_footer(100, 50, 20, true, 10);
    assert_eq!(cramped, "  51–70 of 100 · scrolled back   ");

    let short = logs_footer(4, 0, 20, true, 200);
    assert!(short.starts_with("  1–4 of 4 · scrolled back"), "{short}");
}

#[test]
fn the_settings_footer_says_when_enter_flips_the_row() {

    let boolean = SettingRow::Entry {
        scope: Scope::Global,
        model: String::new(),
        key: "jinja".into(),
        ini_value: "true".into(),
        override_value: None,
    };
    let number = SettingRow::Entry {
        scope: Scope::Global,
        model: String::new(),
        key: "port".into(),
        ini_value: "on".into(),
        override_value: Some("1234".into()),
    };

    assert_eq!(settings_footer(Some(&boolean), 200), format!("{}{NOTE}", screen_hint(Screen::Settings)));
    assert_eq!(settings_footer(Some(&number), 200), screen_hint(Screen::Settings), "the override decides");
    assert_eq!(settings_footer(None, 40), screen_hint_within(Screen::Settings, 40));
    assert_eq!(settings_footer(Some(&SettingRow::Header("Server".into())), 40), screen_hint_within(Screen::Settings, 40));

    for width in 0..=120 {
        let line = settings_footer(Some(&boolean), width);
        assert!(line.ends_with(NOTE));
        assert!(
            line.chars().count() <= width.max(NOTE.len()),
            "{width}: {line}"
        );
    }
}

#[test]
fn the_hub_summary_counts_what_no_preset_names() {

    assert_eq!(summary(&[], 0), "");
    let rows = vec![row(None, false), row(Some("gemma4-12b"), false)];
    assert_eq!(
        summary(&rows, 22_106_570_752),
        "2 model(s) · 20.6G on disk · 1 not named by this tier (in cyan)"
    );
    let named = vec![row(Some("a"), true), row(Some("b"), true)];
    assert_eq!(
        summary(&named, 512),
        "2 model(s) · 512B on disk · every model has a preset in this tier"
    );
}

#[test]
fn every_screen_lists_its_own_keys_and_the_global_ones() {
    for screen in Screen::ALL {
        let text = help::lines(screen).join("\n");
        assert!(text.contains(screen.label()), "{screen:?} section missing");
        assert!(text.contains("quit"), "{screen:?} lost the global keys");
        for binding in for_screen(screen) {
            assert!(text.contains(binding.action), "{screen:?} omits {:?}", binding.action);
        }
    }
}

#[test]
fn the_help_overlay_lays_out_a_key_column() {
    let lines = help::lines(Screen::Logs);
    assert_eq!(lines[0], "  Logs");
    assert!(lines.contains(&"  anywhere".to_string()));
    assert_eq!(lines.last().map(String::as_str), Some("  esc close"));
    assert!(lines.iter().any(|l| l.starts_with("  q           quit")), "{lines:?}");
}

#[test]
fn a_config_within_budget_carries_no_warning() {
    assert_eq!(picker::warning_text(0), "");
}

#[test]
fn an_oversized_config_is_called_out() {
    assert_eq!(picker::warning_text(6), "⚠ 6 exceed this machine");
}

#[test]
fn the_router_rows_are_its_two_numbers() {
    let rows = router_rows(3, 60);
    assert_eq!(rows[0].key, "models-max");
    assert_eq!(rows[0].value_label(), "3");
    assert_eq!(rows[1].key, "sleep-idle-seconds");
    assert_eq!(rows[1].value_label(), "60s");
    let _: &RouterSetting = &rows[1];
}

#[test]
fn a_router_row_lines_up_its_columns() {
    let rows = router_rows(2, 300);
    assert_eq!(
        router::setting_line(&rows[1], true),
        "▸ sleep-idle-seconds     300s   idle time before a model is unloaded"
    );
    assert_eq!(
        router::setting_line(&rows[0], false),
        "  models-max                2   models kept resident before one is unloaded"
    );
}

fn quit_text(server: &ServerRuntime, work: &[&str], downloading: bool) -> String {
    let work: Vec<String> = work.iter().map(|w| w.to_string()).collect();
    quit_lines(server, 2, &work, downloading).join("\n")
}

#[test]
fn a_download_is_listed_and_said_to_be_resumable() {
    let idle = runtime(ServerState::Off, LauncherMode::Idle, None);
    let work = in_flight(Some(("gemma4-12b", "1.9G of 6.0G · 31%")), false, false);
    let work: Vec<&str> = work.iter().map(String::as_str).collect();
    let text = quit_text(&idle, &work, true);

    assert!(text.contains("gemma4-12b"), "{text}");
    assert!(text.contains("resumes"), "{text}");
    assert!(text.contains("No supervised server"), "nothing is serving, and the prompt should say so: {text}");
}

#[test]
fn a_prompt_with_no_download_says_nothing_about_resuming() {
    let serving = runtime(ServerState::Serving, LauncherMode::Manual, Some("gemma4-12b"));
    let text = quit_text(&serving, &[], false);
    assert!(!text.contains("resumes"), "{text}");
    assert!(!text.contains("abandon"), "{text}");
    assert!(text.contains("will be stopped on exit"), "{text}");
    assert!(text.contains("Model 'gemma4-12b' is currently being served."), "{text}");
}

#[test]
fn in_flight_names_every_kind_of_work() {
    let work = in_flight(Some(("qwen3-14b", "1B of 2B · 50%")), true, true);
    assert_eq!(work.len(), 3, "{work:?}");
    assert_eq!(work[0], "downloading qwen3-14b (1B of 2B · 50%)");
    assert!(work.iter().any(|w| w.contains("test")));
    assert!(work.iter().any(|w| w.contains("command")));
    assert!(in_flight(None, false, false).is_empty());
}

#[test]
fn only_a_running_process_is_live() {
    assert!(ServerState::Starting.is_live());
    assert!(ServerState::Serving.is_live());
    assert!(ServerState::Stopping.is_live());
    assert!(!ServerState::Off.is_live());
    assert!(!ServerState::Error("failed".into()).is_live());
}

#[test]
fn the_delete_prompt_names_what_goes_with_it() {
    let pending = PendingDelete {
        reference: "unsloth/gemma-4-12B-it-qat-GGUF:Q4_K_XL".into(),
        repo: "unsloth/gemma-4-12B-it-qat-GGUF".into(),
        bytes: Some(22_106_570_752),
        also_removes: vec!["unsloth/gemma-4-12B-it-qat-GGUF:Q8_0".into()],
    };
    let lines = delete_lines(&pending);
    assert_eq!(lines[1], "  Delete unsloth/gemma-4-12B-it-qat-GGUF from the model cache?");
    assert_eq!(lines[2], "  This frees 20.6G and cannot be undone.");
    assert_eq!(lines[3], "  It also removes unsloth/gemma-4-12B-it-qat-GGUF:Q8_0");
    assert_eq!(lines.len(), 7);

    let unmeasured = PendingDelete { bytes: None, also_removes: Vec::new(), ..pending };
    let lines = delete_lines(&unmeasured);
    assert_eq!(lines[2], "  This frees an unknown amount and cannot be undone.");
    assert_eq!(lines.len(), 6);
}

#[test]
fn the_preset_table_lines_up_under_its_header() {
    let row = ModelRow {
        name: "gemma4-12b".into(),
        repo: "unsloth/gemma-4-12B-it-qat-GGUF:Q4_K_XL".into(),
        ctx: "32768".into(),
        spec: "mtp".into(),
    };
    let line = table_row(true, '●', &row, "7.3G", "");
    assert_eq!(
        line,
        "▸●gemma4-12b             unsloth/gemma-4-12B-it-qat-GG…   32768   7.3G             mtp"
    );
    assert_eq!(table_header().chars().count() - "SPEC".len(), line.chars().count() - "mtp".len());
    assert!(table_header().starts_with("  NAME "));
    assert_eq!(empty_message(""), "no presets in this file");
    assert_eq!(empty_message("qwen"), "no preset matches 'qwen'");
}

fn entry(key: &str, ini: &str, over: Option<&str>) -> SettingRow {
    SettingRow::Entry {
        scope: Scope::Global,
        model: String::new(),
        key: key.into(),
        ini_value: ini.into(),
        override_value: over.map(|v| v.to_string()),
    }
}

#[test]
fn a_setting_row_pads_the_key_and_shows_the_ini_value() {
    let row = entry("port", "8080", None);
    assert_eq!(setting_row(&row, false, None, 80), format!("  {:<26} 8080", "port"));
    assert_eq!(setting_row(&row, true, None, 80), format!("▸ {:<26} 8080", "port"));
}

#[test]
fn an_overridden_setting_shows_its_star_checkbox_and_the_ini_value() {
    let row = entry("flash-attn", "off", Some("on"));
    assert_eq!(
        setting_row(&row, false, None, 80),
        format!(" *{:<26} [x] on   (ini: off)", "flash-attn")
    );
    assert_eq!(
        setting_row(&row, true, None, 80),
        format!("▸*{:<26} [x] on   (ini: off)", "flash-attn")
    );
    let plain = entry("no-mmproj", "false", None);
    assert_eq!(setting_row(&plain, false, None, 80), format!("  {:<26} [ ] false", "no-mmproj"));
}

#[test]
fn the_edit_buffer_shows_only_on_the_selected_row() {
    let row = entry("ctx-size", "8192", None);
    assert_eq!(setting_row(&row, true, Some("163"), 80), format!("▸ {:<26} 163▏", "ctx-size"));
    assert_eq!(setting_row(&row, false, Some("163"), 80), format!("  {:<26} 8192", "ctx-size"));
}

#[test]
fn a_setting_row_is_cut_to_the_pane_with_a_mark() {
    let row = entry("model", "unsloth/gemma-4-12B-it-qat-GGUF:UD-Q4_K_XL", None);
    let line = setting_row(&row, false, None, 40);
    assert_eq!(line.chars().count(), 40);
    assert!(line.ends_with('…'));
    assert_eq!(setting_row(&SettingRow::Header("Server".into()), false, None, 80), "  Server");
    assert_eq!(setting_row(&SettingRow::Header("Server".into()), false, None, 5), "  Se…");
    assert_eq!(setting_row(&SettingRow::Header("Server".into()), false, None, 0), "");
}

fn about_facts(config_path: &str) -> about::AboutFacts {
    about::AboutFacts {
        version: "0.9.2".into(),
        description: "A terminal launcher for llama.cpp presets".into(),
        commit: "3f2a91c".into(),
        commit_date: "2025-06-01".into(),
        config_path: config_path.into(),
        tier: Some("32gb".into()),
        ram_gib: Some(32),
        budget_gib: "24.0".into(),
        cache_dir: None,
        llama: "llama-server b5600".into(),
        hf: "hf 0.33".into(),
    }
}

fn about_text(facts: &about::AboutFacts) -> String {
    about::lines(facts).join("\n")
}

#[test]
fn the_dialog_carries_what_a_bug_report_needs() {
    let facts = about_facts("/models/32gb/models.ini");
    let text = about_text(&facts);
    assert!(text.contains("0.9.2"), "{text}");
    assert!(text.contains("3f2a91c"), "{text}");
    assert!(text.contains("2025-06-01"), "{text}");
    assert!(text.contains("/models/32gb/models.ini"), "{text}");
    assert!(text.contains("llama"), "{text}");
    assert!(text.contains("hf"), "{text}");
    let lines = about::lines(&facts);
    assert_eq!(lines[1], "  herd 0.9.2");
    assert_eq!(lines[4], "  build   3f2a91c · 2025-06-01");
    assert_eq!(lines[7], "  tier    32gb");
    assert_eq!(lines[8], "  memory  32 GiB installed · 24.0 GiB for models");
    assert_eq!(lines[9], "  cache   no HuggingFace cache on this machine");
    assert_eq!(lines.len(), 14);
}

#[test]
fn the_description_is_the_packages_own() {
    let facts = about_facts("/x.ini");
    assert!(!facts.description.is_empty());
    assert!(about_text(&facts).contains(&facts.description));
}

#[test]
fn an_unreadable_memory_figure_is_not_reported_as_a_budget() {
    let mut facts = about_facts("/x.ini");
    facts.ram_gib = None;
    let text = about_text(&facts);
    assert!(text.contains("unknown"), "{text}");
    assert!(!text.contains("GiB for models"), "{text}");
}

#[test]
fn a_long_path_is_elided_from_the_left_and_never_overflows() {
    let facts = about_facts("/Users/somebody/Documents/development/herd/data/32gb/models.ini");
    for line in about::lines(&facts) {
        let width = line.chars().count();
        assert!(width <= about::WIDTH - 2, "a {width}-column line: {line:?}");
    }
    let text = about_text(&facts);
    assert!(text.contains("32gb/models.ini"), "the tail was cut: {text}");
    assert!(text.contains('…'), "the cut was not marked: {text}");
}

#[test]
fn a_dirty_build_says_it_cannot_be_reproduced() {
    let mut facts = about_facts("/x.ini");
    assert!(!about_text(&facts).contains("not reproducible"));
    facts.commit = "3f2a91c-dirty".into();
    let lines = about::lines(&facts);
    assert_eq!(lines.len(), 15);
    assert_eq!(lines[5], about::DIRTY);
}

#[test]
fn a_settings_header_counts_two_rows_for_the_scrollbar() {
    let rows = vec![
        SettingRow::Header("Server".into()),
        entry("port", "8080", None),
        entry("host", "127.0.0.1", None),
        SettingRow::Header("gemma4-12b".into()),
        entry("ctx-size", "8192", Some("16384")),
    ];
    assert_eq!(row_heights(&rows), vec![2, 1, 1, 2, 1]);
}

#[test]
fn the_router_screen_reports_only_the_router() {
    let mut runtime = ServerRuntime::default();
    runtime.state = ServerState::Serving;
    runtime.mode = LauncherMode::Manual;
    runtime.model = Some("gemma4-12b".into());
    runtime.endpoint = Some("http://127.0.0.1:8080".into());
    let lines = router::router_status(&runtime, "SERVING", Some("01:10"), "/models/32gb/models.ini");
    assert_eq!(lines[0], "  state     not running — gemma4-12b is serving a single preset");
    assert_eq!(lines[1], "  presets     /models/32gb/models.ini");
    assert_eq!(lines[2], "  endpoint    -");
    assert_eq!(lines[3], "");

    runtime.mode = LauncherMode::Router;
    runtime.phase.label = Some("loading".into());
    let lines = router::router_status(&runtime, "SERVING", Some("01:10"), "/x.ini");
    assert_eq!(lines[0], "  state     SERVING  loading  01:10");
    assert_eq!(lines[2], "  endpoint    http://127.0.0.1:8080");

    let idle = ServerRuntime::default();
    let lines = router::router_status(&idle, "OFF", None, "/x.ini");
    assert_eq!(lines[0], "  state     not running");
}

#[test]
fn the_hub_claims_nothing_before_llama_cpp_answers() {
    assert_eq!(herd::components::hub::empty_message(false), "asking llama-server what it has…");
    assert_eq!(herd::components::hub::empty_message(true), "llama.cpp reports no models in its cache");
}
