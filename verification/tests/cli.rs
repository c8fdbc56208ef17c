use rs_histver::cli::Channel;
use rs_histver::constants::CHANNEL_STABLE;
use rs_histver::{Cli, Commands};

fn fetch_command(channel: &str) -> Result<Cli, String> {
    let channel = channel.parse::<Channel>()?;
    Ok(Cli { command: Commands::Fetch { channel, full: false, days: 30, timeout: 15 } })
}

#[test]
fn test_channel_parsing() {
    let cli = fetch_command("stable").unwrap();
    match cli.command {
        Commands::Fetch { channel, .. } => assert_eq!(channel.as_str(), "stable"),
    }
}

#[test]
fn test_channel_case_insensitive() {
    let cli = fetch_command("NIGHTLY").unwrap();
    match cli.command {
        Commands::Fetch { channel, .. } => assert_eq!(channel.as_str(), "nightly"),
    }
}

#[test]
fn test_invalid_channel() {
    let result = fetch_command("invalid");
    assert!(result.is_err());
}

#[test]
fn test_default_channel() {
    let cli = fetch_command(CHANNEL_STABLE).unwrap();
    match cli.command {
        Commands::Fetch { channel, .. } => assert_eq!(channel.as_str(), "stable"),
    }
}

#[test]
fn channel_parse_mixed_case_and_message() {
    assert_eq!(Channel::parse("BeTa"), Ok(Channel::Beta));
    assert_eq!(Channel::parse("Stable"), Ok(Channel::Stable));
    assert_eq!(
        Channel::parse("weekly"),
        Err("unknown channel 'weekly'. Valid values: stable, beta, nightly".to_string())
    );
}

#[test]
fn channel_names_round_trip() {
    for c in [Channel::Stable, Channel::Beta, Channel::Nightly] {
        assert_eq!(Channel::parse(c.as_str()), Ok(c));
        assert_eq!(Channel::parse(&c.as_str().to_uppercase()), Ok(c));
    }
}

#[test]
fn channel_parse_lowercases_beyond_ascii() {
    assert_eq!(Channel::parse("NİGHTLY").is_err(), true);
    assert_eq!(Channel::parse("STABLE"), Ok(Channel::Stable));
}
