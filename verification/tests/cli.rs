use herd::cli::{parse_args, Cli};

fn parse(args: &[&str]) -> Result<Cli, String> {
    parse_args(&args.iter().map(|a| a.to_string()).collect())
}

#[test]
fn no_arguments_leaves_resolution_to_env_and_ram_tier() {
    assert_eq!(parse(&[]), Ok(Cli::Run { config: None }));
}

#[test]
fn config_accepts_every_spelling() {
    let expected = Ok(Cli::Run { config: Some("/tmp/models.ini".to_string()) });
    assert_eq!(parse(&["--config", "/tmp/models.ini"]), expected);
    assert_eq!(parse(&["-c", "/tmp/models.ini"]), expected);
    assert_eq!(parse(&["--config=/tmp/models.ini"]), expected);
}

#[test]
fn help_short_circuits_before_the_tui_starts() {
    assert_eq!(parse(&["--help"]), Ok(Cli::Help));
    assert_eq!(parse(&["-h"]), Ok(Cli::Help));
}

#[test]
fn missing_or_unknown_arguments_are_rejected() {
    assert!(parse(&["--config"]).is_err());
    assert!(parse(&["--config="]).is_err());
    assert!(parse(&["--nope"]).is_err());
    assert!(parse(&["/tmp/models.ini"]).is_err());
}

#[test]
fn help_wins_over_a_preceding_config() {
    assert_eq!(parse(&["--config", "/tmp/a.ini", "--help"]), Ok(Cli::Help));
}

#[test]
fn each_refusal_says_what_was_wrong() {
    assert_eq!(parse(&["-c"]), Err("-c requires a path".to_string()));
    assert_eq!(parse(&["--config="]), Err("--config requires a path".to_string()));
    assert_eq!(parse(&["--nope"]), Err("unknown argument '--nope'".to_string()));
}

#[test]
fn the_last_config_wins() {
    assert_eq!(
        parse(&["-c", "/a.ini", "--config=/b.ini"]),
        Ok(Cli::Run { config: Some("/b.ini".to_string()) })
    );
}

#[test]
fn help_wins_even_after_an_error() {
    assert_eq!(parse(&["--nope", "--help"]), Ok(Cli::Help));
    assert_eq!(parse(&["--config=", "-h"]), Ok(Cli::Help));
}

#[test]
fn a_help_flag_taken_as_the_config_path_is_a_path() {
    assert_eq!(parse(&["--config", "--help"]), Ok(Cli::Run { config: Some("--help".to_string()) }));
    assert_eq!(parse(&["-c", "-h", "--help"]), Ok(Cli::Help));
}
