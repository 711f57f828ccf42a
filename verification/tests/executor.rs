use herd::app::router_command;
use herd::commands::{all, Handler};
use herd::engine::executor::{route, Route};
use herd::engine::executor::{
    after_download, download_outcome, download_verdict, launch_outcome, launch_target, must_confirm, nothing_matches,
    port_busy_message, total_bytes, LAUNCH_USAGE,
};
use herd::engine::executor::{
    parse_router_flags, split_extra_args, DEFAULT_MODELS_MAX, DEFAULT_SLEEP_IDLE_SECONDS,
};

#[test]
fn split_extra_args_separates_model_and_overrides() {
    let (model, extra) = split_extra_args("gemma4-12b -- --ctx-size 65536");
    assert_eq!(model, "gemma4-12b");
    assert_eq!(extra, vec!["--ctx-size", "65536"]);
}

#[test]
fn split_extra_args_without_double_dash() {
    let (model, extra) = split_extra_args("gemma4-12b");
    assert_eq!(model, "gemma4-12b");
    assert!(extra.is_empty());
}

#[test]
fn parse_router_flags_defaults_match_startrouter_sh() {
    let (models_max, sleep_idle, extra) = parse_router_flags("");
    assert_eq!(models_max, 2);
    assert_eq!(sleep_idle, 300);
    assert!(extra.is_empty());
}

#[test]
fn parse_router_flags_overrides() {
    let (models_max, sleep_idle, extra) = parse_router_flags("--max 3 --idle 120 --port 5555");
    assert_eq!(models_max, 3);
    assert_eq!(sleep_idle, 120);
    assert_eq!(extra, vec!["--port", "5555"]);
}

#[test]
fn the_model_is_everything_before_the_separator_trimmed() {
    let (model, extra) = split_extra_args("  gemma4-12b   --  ");
    assert_eq!(model, "gemma4-12b");
    assert!(extra.is_empty());
    let (model, extra) = split_extra_args("");
    assert_eq!(model, "");
    assert!(extra.is_empty());
}

#[test]
fn a_flag_without_a_usable_value_is_passed_through() {
    let (models_max, sleep_idle, extra) = parse_router_flags("--max lots --idle");
    assert_eq!(models_max, DEFAULT_MODELS_MAX);
    assert_eq!(sleep_idle, DEFAULT_SLEEP_IDLE_SECONDS);
    assert_eq!(extra, vec!["--max", "lots", "--idle"]);
}


#[test]
fn every_command_word_reaches_its_handler() {
    assert_eq!(
        route("launch gemma4-12b -- --ctx-size 4096"),
        Route::Launch { rest: "gemma4-12b -- --ctx-size 4096".into(), force: false }
    );
    assert_eq!(route("  launch!  gemma4-12b "), Route::Launch { rest: "gemma4-12b".into(), force: true });
    assert_eq!(route("launch"), Route::Launch { rest: String::new(), force: false });
    assert_eq!(route("launch!"), Route::Launch { rest: String::new(), force: true });
    assert_eq!(route("router --max 3"), Route::Router { rest: "--max 3".into() });
    assert_eq!(route("router"), Route::Router { rest: String::new() });
    assert_eq!(route(" stop "), Route::Stop);
    assert_eq!(route("ping gemma4-12b"), Route::Ping { model: "gemma4-12b".into() });
    assert_eq!(route("ping"), Route::Ping { model: String::new() });
    assert_eq!(route("status"), Route::Status);
    assert_eq!(route("cache"), Route::Cache);
}

#[test]
fn anything_else_runs_in_the_shell_as_typed() {
    assert_eq!(route(" sh ls -la "), Route::Script { command: " sh ls -la ".into() });
    assert_eq!(route("launcher"), Route::Script { command: "launcher".into() });
    assert_eq!(route("stop now"), Route::Script { command: "stop now".into() });
    assert_eq!(route("routers"), Route::Script { command: "routers".into() });
}

#[test]
fn enter_on_the_router_screen_starts_it_with_the_settings_shown() {
    let command = router_command(4, 120);
    assert_eq!(command, "router --max 4 --idle 120");
    match route(&command) {
        Route::Router { rest } => {
            let (models_max, sleep_idle, extra) = parse_router_flags(&rest);
            assert_eq!((models_max, sleep_idle), (4, 120));
            assert!(extra.is_empty());
        }
        other => panic!("expected the router, got {other:?}"),
    }
}

#[test]
fn the_largest_router_numbers_survive_the_round_trip() {
    let command = router_command(u32::MAX, 0);
    match route(&command) {
        Route::Router { rest } => assert_eq!(parse_router_flags(&rest), (u32::MAX, 0, Vec::<String>::new())),
        other => panic!("expected the router, got {other:?}"),
    }
}

#[test]
fn every_documented_command_reaches_a_handler() {
    for command in all() {
        let routed = route(command.probe);
        match command.handler {
            Handler::Launcher => assert!(
                !matches!(routed, Route::Script { .. }),
                "`:{}` is in the listing but nothing handles it",
                command.usage
            ),
            Handler::Script => assert!(matches!(routed, Route::Script { .. })),
            Handler::App => {}
        }
    }
}

#[test]
fn dashes_inside_a_word_do_not_split_it() {
    let (model, extra) = split_extra_args("my--model -- --ctx-size 1");
    assert_eq!(model, "my--model");
    assert_eq!(extra, vec!["--ctx-size", "1"]);
    let (model, extra) = split_extra_args("gemma --ctx-size 1");
    assert_eq!(model, "gemma --ctx-size 1");
    assert!(extra.is_empty());
    let (model, extra) = split_extra_args("--");
    assert_eq!(model, "");
    assert!(extra.is_empty());
}

fn usage_of(line: &str) -> String {
    match route(line) {
        Route::Launch { rest, .. } => match launch_target(&rest) {
            Err(output) => output,
            Ok(target) => panic!("expected usage, got {target:?}"),
        },
        other => panic!("expected a launch, got {other:?}"),
    }
}

#[test]
fn forced_launch_without_a_model_reports_usage() {
    let output = usage_of("launch!");
    assert!(output.starts_with("usage:"), "got: {output}");
}

#[test]
fn launch_without_model_reports_usage() {
    let output = usage_of("launch");
    assert!(output.starts_with("usage:"));
    assert_eq!(output, LAUNCH_USAGE);
    assert_eq!(usage_of("launch -- --ctx-size 1"), LAUNCH_USAGE);
}

#[test]
fn a_launch_target_carries_the_model_and_its_extra_args() {
    let (model, extra) = launch_target("gemma4-12b -- --ctx-size 4096").unwrap();
    assert_eq!(model, "gemma4-12b");
    assert_eq!(extra, vec!["--ctx-size", "4096"]);
}

#[test]
fn only_a_foreign_process_on_the_port_makes_a_launch_ask() {
    assert!(must_confirm(false, false, true));
    assert!(!must_confirm(true, false, true));
    assert!(!must_confirm(false, true, true));
    assert!(!must_confirm(false, false, false));
    assert_eq!(port_busy_message(8080), "port 8080 busy, waiting for confirmation");
}

#[test]
fn a_launch_reports_the_spawn_or_the_supervisors_error() {
    assert_eq!(launch_outcome("gemma4-12b", Ok(())), "spawning llama-server for 'gemma4-12b'");
    assert_eq!(launch_outcome("gemma4-12b", Err("no such preset".into())), "no such preset");
}

#[test]
fn a_download_is_only_reported_done_once_llama_cpp_lists_it() {
    assert_eq!(
        download_verdict("qwen3", "unsloth/Qwen3-GGUF", "hf", Ok(()), true, 7194070221),
        Ok("qwen3 downloaded (6.7G)".to_string())
    );
    let stopped = download_verdict("qwen3", "unsloth/Qwen3-GGUF", "hf", Ok(()), false, 10).unwrap_err();
    assert!(stopped.starts_with("hf finished, but llama.cpp still does not list unsloth/Qwen3-GGUF"), "{stopped}");
    assert_eq!(
        download_verdict("qwen3", "r", "hf", Err("network down".into()), true, 10),
        Err("network down".to_string())
    );
}

#[test]
fn a_download_with_nothing_to_fetch_names_the_tag() {
    assert_eq!(
        nothing_matches("unsloth/Qwen3-GGUF", "unsloth/Qwen3-GGUF:Q9"),
        "nothing in unsloth/Qwen3-GGUF matches the quant tag in 'unsloth/Qwen3-GGUF:Q9'"
    );
    assert_eq!(total_bytes(&[1, 2, 3]), 6);
    assert_eq!(total_bytes(&[]), 0);
}

#[test]
fn only_a_successful_download_goes_on_to_launch() {
    assert_eq!(after_download("qwen3", true, true), Some("launch qwen3".to_string()));
    assert_eq!(after_download("qwen3", false, true), None);
    assert_eq!(after_download("qwen3", true, false), None);
}

#[test]
fn a_download_decides_in_order() {
    let listing_failed = download_outcome("qwen3", "unsloth/Qwen3-GGUF", "unsloth/Qwen3-GGUF:Q4", "hf",
        Err("404 from the hub".into()), Ok(()), true, 10, true);
    assert_eq!(listing_failed, (Err("404 from the hub".to_string()), None));

    let nothing = download_outcome("qwen3", "unsloth/Qwen3-GGUF", "unsloth/Qwen3-GGUF:Q9", "hf",
        Ok(0), Ok(()), true, 10, true);
    assert_eq!(nothing.0, Err("nothing in unsloth/Qwen3-GGUF matches the quant tag in 'unsloth/Qwen3-GGUF:Q9'".to_string()));
    assert_eq!(nothing.1, None);

    let done = download_outcome("qwen3", "unsloth/Qwen3-GGUF", "unsloth/Qwen3-GGUF:Q4", "hf",
        Ok(2), Ok(()), true, 7194070221, true);
    assert_eq!(done, (Ok("qwen3 downloaded (6.7G)".to_string()), Some("launch qwen3".to_string())));

    let short = download_outcome("qwen3", "unsloth/Qwen3-GGUF", "unsloth/Qwen3-GGUF:Q4", "hf",
        Ok(2), Ok(()), false, 10, true);
    assert!(short.0.is_err());
    assert_eq!(short.1, None);
}
