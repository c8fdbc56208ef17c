use rs_histver::release::sort_releases_by_date_desc;
use rs_histver::store::{
    channels_for, plan_upserts, releases_from_entries, releases_from_tables, search_releases,
    total_count,
};
use rs_histver::RustRelease;

fn rel(version: &str, date: &str, channel: &str) -> RustRelease {
    RustRelease { version: version.to_string(), date: date.to_string(), channel: channel.to_string() }
}

fn versions(rs: &[RustRelease]) -> Vec<&str> {
    rs.iter().map(|r| r.version.as_str()).collect()
}

#[test]
fn db_key_joins_channel_version_date() {
    assert_eq!(rel("1.75.0", "2023-12-28", "stable").db_key(), "stable:1.75.0:2023-12-28");
}

#[test]
fn listing_is_newest_first_and_stable_on_ties() {
    let input = vec![
        rel("a", "2024-01-01", "stable"),
        rel("b", "2024-03-01", "stable"),
        rel("c", "2024-01-01", "beta"),
        rel("d", "2023-12-31", "stable"),
        rel("e", "2024-03-01", "nightly"),
    ];
    let sorted = sort_releases_by_date_desc(input);
    assert_eq!(versions(&sorted), vec!["b", "e", "a", "c", "d"]);
    let again = sort_releases_by_date_desc(sorted.clone());
    assert_eq!(versions(&again), versions(&sorted));
}

#[test]
fn listing_of_nothing_is_empty() {
    assert!(sort_releases_by_date_desc(Vec::new()).is_empty());
}

#[test]
fn upsert_plan_groups_by_channel_and_counts() {
    let input = vec![
        rel("1.77.0-nightly", "2024-01-03", "nightly"),
        rel("1.75.0", "2023-12-28", "stable"),
        rel("x", "2024-01-01", "weekly"),
        rel("1.74.1", "2023-12-07", "stable"),
    ];
    let plan = plan_upserts("rs_histver", &input);
    assert_eq!(plan.count, 3);
    assert_eq!(plan.batches.len(), 2);
    assert_eq!(plan.batches[0].table, "rs_histver_stable");
    assert_eq!(
        plan.batches[0].entries,
        vec![
            ("2023-12-28".to_string(), "1.75.0".to_string()),
            ("2023-12-07".to_string(), "1.74.1".to_string())
        ]
    );
    assert_eq!(plan.batches[1].table, "rs_histver_nightly");
    assert_eq!(
        plan.batches[1].entries,
        vec![("2024-01-03".to_string(), "1.77.0-nightly".to_string())]
    );
}

#[test]
fn upsert_plan_of_nothing_writes_nothing() {
    let plan = plan_upserts("p", &Vec::new());
    assert_eq!(plan.count, 0);
    assert!(plan.batches.is_empty());
}

#[test]
fn written_entries_read_back_as_records() {
    let input = vec![rel("1.75.0", "2023-12-28", "stable"), rel("1.74.1", "2023-12-07", "stable")];
    let plan = plan_upserts("hv", &input);
    let entries = plan.batches[0].entries.clone();
    let back = releases_from_entries("stable", entries);
    assert_eq!(back.len(), 2);
    for (a, b) in back.iter().zip(input.iter()) {
        assert_eq!(a.version, b.version);
        assert_eq!(a.date, b.date);
        assert_eq!(a.channel, b.channel);
    }
}

#[test]
fn read_channels_for_filter() {
    assert_eq!(channels_for(Some("beta")), vec!["beta"]);
    assert_eq!(channels_for(None), vec!["stable", "beta", "nightly"]);
}

#[test]
fn total_count_sums_or_overflows() {
    assert_eq!(total_count(&vec![3, 0, 4]), Some(7));
    assert_eq!(total_count(&vec![]), Some(0));
    assert_eq!(total_count(&vec![u64::MAX, 1]), None);
}

#[test]
fn search_matches_version_ignoring_case_or_date() {
    let input = vec![
        rel("1.76.0-BETA.1", "2024-01-02", "beta"),
        rel("1.75.0", "2023-12-28", "stable"),
        rel("1.76.0", "2024-02-08", "stable"),
    ];
    let found = search_releases(input.clone(), "Beta");
    assert_eq!(versions(&found), vec!["1.76.0-BETA.1"]);
    let found = search_releases(input.clone(), "1.76");
    assert_eq!(versions(&found), vec!["1.76.0", "1.76.0-BETA.1"]);
    let found = search_releases(input.clone(), "2023-12");
    assert_eq!(versions(&found), vec!["1.75.0"]);
    let found = search_releases(input.clone(), "zzz");
    assert!(found.is_empty());
}

#[test]
fn empty_search_lists_everything() {
    let input = vec![rel("a", "2023-01-01", "stable"), rel("b", "2024-01-01", "stable")];
    let found = search_releases(input.clone(), "");
    let listed = sort_releases_by_date_desc(input);
    assert_eq!(versions(&found), versions(&listed));
}

#[test]
fn upsert_of_known_channels_writes_all() {
    let input = vec![
        rel("1.75.0", "2023-12-28", "stable"),
        rel("1.76.0-beta.1", "2023-12-29", "beta"),
        rel("1.77.0-nightly", "2024-01-03", "nightly"),
    ];
    let plan = plan_upserts("x", &input);
    assert_eq!(plan.count, 3);
    let tables: Vec<&str> = plan.batches.iter().map(|b| b.table.as_str()).collect();
    assert_eq!(tables, vec!["x_stable", "x_beta", "x_nightly"]);
}

#[test]
fn search_equals_filtered_listing() {
    let input = vec![
        rel("1.76.0-beta.2", "2024-01-09", "beta"),
        rel("1.75.0", "2023-12-28", "stable"),
        rel("1.76.0-beta.1", "2024-01-02", "beta"),
        rel("1.76.0", "2024-02-08", "stable"),
    ];
    let listing = sort_releases_by_date_desc(input.clone());
    let filtered: Vec<&str> = listing
        .iter()
        .filter(|r| r.version.to_lowercase().contains("beta") || r.date.contains("beta"))
        .map(|r| r.version.as_str())
        .collect();
    let found = search_releases(input, "BETA");
    assert_eq!(versions(&found), filtered);
    assert_eq!(versions(&found), vec!["1.76.0-beta.2", "1.76.0-beta.1"]);
}

#[test]
fn tables_read_in_order_and_count_matches() {
    let tables = vec![
        ("stable".to_string(), vec![("2023-12-28".to_string(), "1.75.0".to_string())]),
        ("beta".to_string(), vec![]),
        (
            "nightly".to_string(),
            vec![
                ("2024-01-02".to_string(), "1.77.0-nightly".to_string()),
                ("2024-01-03".to_string(), "1.77.0-nightly".to_string()),
            ],
        ),
    ];
    let counts: Vec<u64> = tables.iter().map(|t| t.1.len() as u64).collect();
    let rs = releases_from_tables(tables);
    let got: Vec<(&str, &str, &str)> =
        rs.iter().map(|r| (r.version.as_str(), r.date.as_str(), r.channel.as_str())).collect();
    assert_eq!(
        got,
        vec![
            ("1.75.0", "2023-12-28", "stable"),
            ("1.77.0-nightly", "2024-01-02", "nightly"),
            ("1.77.0-nightly", "2024-01-03", "nightly"),
        ]
    );
    assert_eq!(total_count(&counts), Some(sort_releases_by_date_desc(rs).len() as u64));
}
