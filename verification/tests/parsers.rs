use rs_histver::probe::{
    channel_toml_url, collect_probe_results, format_date, parse_channel_toml_version, probe_dates,
};
use rs_histver::stable::{
    github_page_url, next_github_page, parse_releases_md, releases_from_github_page, GhRelease,
};
use rs_histver::RustRelease;

#[test]
fn manifest_version_with_date() {
    let text = "manifest-version = \"2\"\n[pkg.cargo]\nversion = \"0.1\"\n[pkg.rust]\nversion = \"1.77.0-nightly (abcdef 2024-01-03)\"\n";
    let r = parse_channel_toml_version(text, "nightly", "2024-01-04").unwrap();
    assert_eq!(r.version, "1.77.0-nightly (abcdef 2024-01-03)");
    assert_eq!(r.date, "2024-01-03");
    assert_eq!(r.channel, "nightly");
}

#[test]
fn manifest_version_without_date_uses_probe_date() {
    let text = "[pkg.rust]\nversion = \"1.76.0-beta.1\"\n";
    let r = parse_channel_toml_version(text, "beta", "2024-01-04").unwrap();
    assert_eq!(r.version, "1.76.0-beta.1");
    assert_eq!(r.date, "2024-01-04");
    assert_eq!(r.channel, "beta");
}

#[test]
fn manifest_without_rust_package_gives_nothing() {
    assert!(parse_channel_toml_version("[pkg.cargo]\nversion = \"1\"\n", "beta", "d").is_none());
    assert!(parse_channel_toml_version("[pkg.rust]\nname = \"x\"\n", "beta", "d").is_none());
    assert!(parse_channel_toml_version("[pkg.rust]\nversion = \"unterminated", "beta", "d").is_none());
}

#[test]
fn manifest_takes_first_date_in_version() {
    let text = "[pkg.rust]\nversion = \"x 2024-1-02 2024-02-03 2025-05-05\"";
    let r = parse_channel_toml_version(text, "nightly", "fallback").unwrap();
    assert_eq!(r.date, "2024-02-03");
}

#[test]
fn channel_toml_address() {
    assert_eq!(
        channel_toml_url("2024-01-03", "nightly"),
        "https://static.rust-lang.org/dist/2024-01-03/channel-rust-nightly.toml"
    );
}

#[test]
fn probe_dates_walk_back_across_month_ends() {
    assert_eq!(probe_dates(2024, 3, 2, 3), vec!["2024-03-02", "2024-03-01", "2024-02-29"]);
    assert!(probe_dates(2024, 3, 2, 0).is_empty());
    assert!(probe_dates(2024, 2, 30, 2).is_empty());
}

#[test]
fn probe_results_are_flattened_and_sorted() {
    let found = vec![
        Some(RustRelease { version: "n1".into(), date: "2024-01-01".into(), channel: "nightly".into() }),
        None,
        Some(RustRelease { version: "n2".into(), date: "2024-01-03".into(), channel: "nightly".into() }),
    ];
    let rs = collect_probe_results(found);
    let vs: Vec<&str> = rs.iter().map(|r| r.version.as_str()).collect();
    assert_eq!(vs, vec!["n2", "n1"]);
}

fn gh(tag: &str, published: &str, prerelease: bool, draft: bool) -> GhRelease {
    GhRelease { tag_name: tag.to_string(), published_at: published.to_string(), prerelease, draft }
}

#[test]
fn github_page_drops_drafts_and_prereleases() {
    let page = vec![
        gh("1.75.0", "2023-12-28T15:00:00Z", false, false),
        gh("v1.74.1", "2023-12-07T10:00:00Z", false, false),
        gh("1.76.0-beta", "2024-01-01T00:00:00Z", true, false),
        gh("1.77.0", "2024-03-21T00:00:00Z", false, true),
        gh("1.0.0", "2015", false, false),
        gh("vv2", "2015-05-15é", false, false),
    ];
    let rs = releases_from_github_page(&page);
    let got: Vec<(&str, &str, &str)> =
        rs.iter().map(|r| (r.version.as_str(), r.date.as_str(), r.channel.as_str())).collect();
    assert_eq!(
        got,
        vec![
            ("1.75.0", "2023-12-28", "stable"),
            ("1.74.1", "2023-12-07", "stable"),
            ("1.0.0", "2015", "stable"),
            ("v2", "2015-05-15", "stable"),
        ]
    );
}

#[test]
fn github_page_cut_inside_character_keeps_whole_text() {
    let rs = releases_from_github_page(&vec![gh("1", "2015-05-1é", false, false)]);
    assert_eq!(rs[0].date, "2015-05-1é");
}

#[test]
fn github_paging() {
    assert_eq!(
        github_page_url(3),
        "https://api.github.com/repos/rust-lang/rust/releases?per_page=100&page=3"
    );
    assert_eq!(
        github_page_url(12),
        "https://api.github.com/repos/rust-lang/rust/releases?per_page=100&page=12"
    );
    assert_eq!(next_github_page(1, 100), Some(2));
    assert_eq!(next_github_page(14, 3), Some(15));
    assert_eq!(next_github_page(15, 100), None);
    assert_eq!(next_github_page(4, 0), None);
}

#[test]
fn releases_md_versions_in_file_order() {
    let text = "Version 1.75.0 (2023-12-28)\n==========\n\nstuff\n\nVersion 1.74.1 (2023-12-07)\n===\nVersion 1.x (2020-01-01)\nVersion  1.0.0   (2015-05-15)\n";
    let rs = parse_releases_md(text);
    let got: Vec<(&str, &str, &str)> =
        rs.iter().map(|r| (r.version.as_str(), r.date.as_str(), r.channel.as_str())).collect();
    assert_eq!(
        got,
        vec![
            ("1.75.0", "2023-12-28", "stable"),
            ("1.74.1", "2023-12-07", "stable"),
            ("1.0.0", "2015-05-15", "stable"),
        ]
    );
}

#[test]
fn date_format_is_year_month_day() {
    assert_eq!(format_date(2024, 3, 2), "2024-03-02");
    assert_eq!(format_date(999, 12, 31), "0999-12-31");
    assert_eq!(format_date(10000, 1, 1), "+10000-01-01");
    assert_eq!(format_date(-5, 7, 9), "-0005-07-09");
    for (y, m, d) in [(2024, 3, 2), (999, 12, 31), (10000, 1, 1), (-5, 7, 9), (-12345, 2, 28), (0, 1, 1)] {
        let chrono_text = chrono::NaiveDate::from_ymd_opt(y, m, d).unwrap().format("%Y-%m-%d").to_string();
        assert_eq!(format_date(y, m, d), chrono_text);
    }
}

#[test]
fn releases_md_heading_needs_every_part() {
    let text = "Version 1.2 (2020-01-01)\nVersion 1.2.3.4 (2020-01-01)\nVersion 1.2.3(2020-01-01)\nversion 1.2.3 (2020-01-01)\nVersion\t2.0.0\n(2021-02-03) tail Version 3.1.0 (2022-13-45)";
    let rs = parse_releases_md(text);
    let got: Vec<(&str, &str)> = rs.iter().map(|r| (r.version.as_str(), r.date.as_str())).collect();
    assert_eq!(got, vec![("2.0.0", "2021-02-03"), ("3.1.0", "2022-13-45")]);
}
