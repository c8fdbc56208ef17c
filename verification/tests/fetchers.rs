use std::time::Duration;

use rs_histver::fetcher::require_releases;
use rs_histver::{
    create_fetcher, default_user_agent, BetaFetcher, FetchError, FetchOptions, Fetcher,
    NetworkConfig, NightlyFetcher, ReleaseFetcher, RustRelease, StableFetcher,
};

#[test]
fn create_fetcher_picks_channel() {
    let f = create_fetcher("stable", true, 30).unwrap();
    assert_eq!(f, Fetcher::Stable(StableFetcher::new(true)));
    assert_eq!(f.channel_name(), "stable");
    assert_eq!(f.source_description(), "RELEASES.md (full history)");
    let f = create_fetcher("stable", false, 30).unwrap();
    assert_eq!(f.source_description(), "GitHub Releases API");
    let f = create_fetcher("beta", false, 14).unwrap();
    assert_eq!(f, Fetcher::Beta(BetaFetcher::new(14)));
    assert_eq!(f.channel_name(), "beta");
    assert_eq!(f.source_description(), "Channel TOML date probing");
    let f = create_fetcher("nightly", false, 7).unwrap();
    assert_eq!(f, Fetcher::Nightly(NightlyFetcher::new(7)));
    assert_eq!(f.channel_name(), "nightly");
}

#[test]
fn create_fetcher_refuses_unknown_channel() {
    match create_fetcher("Stable", false, 30) {
        Err(e @ FetchError::UnknownChannel(_)) => assert_eq!(
            e.message(),
            "Unknown channel: 'Stable'. Must be one of: stable, beta, nightly"
        ),
        other => panic!("unexpected: {:?}", other),
    }
}

#[test]
fn empty_probe_is_an_error() {
    match require_releases("beta", Vec::new()) {
        Err(e) => assert_eq!(e.message(), "No beta release data found"),
        Ok(_) => panic!("expected an error"),
    }
    let one = vec![RustRelease { version: "v".into(), date: "d".into(), channel: "beta".into() }];
    assert_eq!(require_releases("beta", one).unwrap().len(), 1);
}

#[test]
fn fetch_options_defaults_and_setters() {
    let o = FetchOptions::new();
    assert!(!o.full_history);
    assert_eq!(o.probe_days, 30);
    assert_eq!(o.timeout, Duration::from_secs(15));
    assert_eq!(o.max_concurrency, 10);
    assert_eq!(o.user_agent, default_user_agent());
    let o = FetchOptions::new()
        .full_history(true)
        .probe_days(7)
        .timeout(Duration::from_secs(30))
        .max_concurrency(5)
        .user_agent("my-app/1.0");
    assert!(o.full_history);
    assert_eq!(o.probe_days, 7);
    assert_eq!(o.timeout, Duration::from_secs(30));
    assert_eq!(o.max_concurrency, 5);
    assert_eq!(o.user_agent, "my-app/1.0");
}

#[test]
fn network_config_from_options() {
    let o = FetchOptions::new().timeout(Duration::from_millis(30_900)).max_concurrency(3).user_agent("ua");
    let n = NetworkConfig::from(&o);
    assert_eq!(n.timeout, 30);
    assert_eq!(n.max_concurrency, 3);
    assert_eq!(n.user_agent, "ua");
    let d = NetworkConfig::new();
    assert_eq!(d.timeout, 15);
    assert_eq!(d.max_concurrency, 10);
    let n = NetworkConfig::new().timeout_secs(30).max_concurrency(5).user_agent("my-app/1.0");
    assert_eq!((n.timeout, n.max_concurrency, n.user_agent.as_str()), (30, 5, "my-app/1.0"));
}

#[test]
fn default_user_agent_names_package_and_version() {
    assert_eq!(default_user_agent(), "rs-histver/0.4.0");
}
