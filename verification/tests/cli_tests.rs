use sentinel_agent::cli::{parse, Args, CliError, Command};

fn args(items: &[&str]) -> Vec<String> {
    items.iter().map(|s| s.to_string()).collect()
}

#[test]
fn config_and_legacy_mode() {
    assert_eq!(
        parse(&args(&["--config", "/etc/sentinel/config.yml", "--legacy-mode"])),
        Command::Run(Args { config_path: "/etc/sentinel/config.yml".into(), legacy_mode: true })
    );
    assert_eq!(
        parse(&args(&["-c", "a.yml", "-c", "b.yml"])),
        Command::Run(Args { config_path: "b.yml".into(), legacy_mode: false })
    );
    assert_eq!(
        parse(&args(&["--legacy", "-c", "x"])),
        Command::Run(Args { config_path: "x".into(), legacy_mode: true })
    );
}

#[test]
fn version_and_help_stop_reading() {
    assert_eq!(parse(&args(&["-V", "--bogus"])), Command::PrintVersion);
    assert_eq!(parse(&args(&["--help"])), Command::PrintHelp);
    assert_eq!(parse(&args(&["-c", "x", "-h"])), Command::PrintHelp);
}

#[test]
fn refused_command_lines() {
    assert_eq!(parse(&args(&[])), Command::Fail(CliError::MissingConfig));
    assert_eq!(parse(&args(&["--legacy"])), Command::Fail(CliError::MissingConfig));
    assert_eq!(parse(&args(&["--config"])), Command::Fail(CliError::MissingConfigValue));
    assert_eq!(parse(&args(&["--verbose"])), Command::Fail(CliError::UnknownArgument("--verbose".into())));
}
