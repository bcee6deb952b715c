use mira::cli::{parse_args, status_changed, Cli, CliEnv, CliError, Commands, Flag, Required};
use mira::models::{StreamInfo, StreamStatus};

fn args(list: &[&str]) -> Vec<String> {
    list.iter().map(|s| s.to_string()).collect()
}

fn no_env() -> CliEnv {
    CliEnv { url: None, auth_token: None }
}

fn parse_from(list: &[&str]) -> Cli {
    parse_args(&args(list), no_env()).unwrap()
}

#[test]
fn thumbnail_subcommand_parses_all_args() {
    let cli = parse_from(&[
        "mira",
        "thumbnail",
        "my-key",
        "--url",
        "https://b.siobud.com",
        "--output",
        "/tmp/thumb.jpg",
    ]);
    match cli.command {
        Commands::Thumbnail { key, url, output } => {
            assert_eq!(key, "my-key");
            assert_eq!(url, "https://b.siobud.com");
            assert_eq!(std::path::PathBuf::from(output), std::path::PathBuf::from("/tmp/thumb.jpg"));
        }
        _ => panic!("wrong variant"),
    }
}

#[test]
fn status_takes_url_and_token_from_the_environment() {
    let env = CliEnv { url: Some("https://env.host".to_string()), auth_token: Some("secret".to_string()) };
    let cli = parse_args(&args(&["mira", "status", "k1"]), env).unwrap();
    assert_eq!(
        cli.command,
        Commands::Status { key: "k1".to_string(), url: "https://env.host".to_string(), auth_token: Some("secret".to_string()) }
    );
}

#[test]
fn options_given_override_the_environment() {
    let env = CliEnv { url: Some("https://env.host".to_string()), auth_token: None };
    let cli = parse_args(&args(&["mira", "status", "--url=https://given.host", "k1", "--auth-token", "t"]), env).unwrap();
    assert_eq!(
        cli.command,
        Commands::Status { key: "k1".to_string(), url: "https://given.host".to_string(), auth_token: Some("t".to_string()) }
    );
}

#[test]
fn watch_reads_the_polling_interval() {
    let cli = parse_from(&["mira", "watch", "k", "--url", "u", "--polling-interval", "15"]);
    assert_eq!(
        cli.command,
        Commands::Watch { key: "k".to_string(), url: "u".to_string(), auth_token: None, polling_interval: Some(15) }
    );
}

#[test]
fn refusals_name_what_is_wrong() {
    let e = |l: &[&str]| parse_args(&args(l), no_env()).unwrap_err();
    assert_eq!(e(&["mira"]), CliError::MissingSubcommand);
    assert_eq!(e(&["mira", "--help"]), CliError::HelpRequested);
    assert_eq!(e(&["mira", "help"]), CliError::HelpRequested);
    assert_eq!(e(&["mira", "status", "-h"]), CliError::HelpRequested);
    assert_eq!(e(&["mira", "launch"]), CliError::UnknownSubcommand("launch".to_string()));
    assert_eq!(e(&["mira", "status", "k", "--output", "x"]), CliError::UnknownArgument("--output".to_string()));
    assert_eq!(e(&["mira", "status", "k", "-x"]), CliError::UnknownArgument("-x".to_string()));
    assert_eq!(e(&["mira", "status", "k", "--url"]), CliError::MissingValue(Flag::Url));
    assert_eq!(e(&["mira", "status", "k", "--url", "--auth-token", "t"]), CliError::MissingValue(Flag::Url));
    assert_eq!(e(&["mira", "status", "k", "--url", "a", "--url", "b"]), CliError::DuplicateArgument(Flag::Url));
    assert_eq!(
        e(&["mira", "watch", "k", "--url", "u", "--polling-interval", "soon"]),
        CliError::InvalidValue(Flag::PollingInterval, "soon".to_string())
    );
    assert_eq!(e(&["mira", "status", "k", "j", "--url", "u"]), CliError::UnexpectedArgument("j".to_string()));
    assert_eq!(e(&["mira", "status", "--url", "u"]), CliError::MissingRequired(Required::Key));
    assert_eq!(e(&["mira", "status", "k"]), CliError::MissingRequired(Required::Url));
    assert_eq!(e(&["mira", "thumbnail", "k", "--url", "u"]), CliError::MissingRequired(Required::Output));
}

#[test]
fn watch_prints_unless_the_stream_stays_offline() {
    let online = StreamStatus::Online(StreamInfo { started: 0, started_nanos: 0, viewers: 1 });
    let offline = StreamStatus::Offline;
    assert!(status_changed(None, &offline));
    assert!(status_changed(None, &online));
    assert!(status_changed(Some(&online), &online));
    assert!(status_changed(Some(&online), &offline));
    assert!(status_changed(Some(&offline), &online));
    assert!(!status_changed(Some(&offline), &offline));
}
