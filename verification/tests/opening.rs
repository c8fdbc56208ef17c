use std::collections::BTreeMap;

use rs_histver::opening::{
    shared_open_failed, shared_open_step, standalone_create_failed, OpenFailure, OpenStep,
};
use rs_histver::store::{plan_upserts, releases_from_entries};
use rs_histver::RustRelease;

#[test]
fn shared_file_is_opened_or_created() {
    match shared_open_step("/d/host.redb", true) {
        OpenStep::Open(p) => assert_eq!(p, "/d/host.redb"),
        other => panic!("unexpected: {:?}", other),
    }
    match shared_open_step("/d/host.redb", false) {
        OpenStep::CreateThenOpen(p) => assert_eq!(p, "/d/host.redb"),
        other => panic!("unexpected: {:?}", other),
    }
}

#[test]
fn failed_shared_file_falls_back_beside_it() {
    match shared_open_failed("/d/host.redb", OpenFailure::NotRedb) {
        OpenStep::Fallback { path, not_redb } => {
            assert_eq!(path, "/d/rs-histver.redb");
            assert!(not_redb);
        }
        other => panic!("unexpected: {:?}", other),
    }
    match shared_open_failed("/d/host.redb", OpenFailure::Other) {
        OpenStep::Fallback { path, not_redb } => {
            assert_eq!(path, "/d/rs-histver.redb");
            assert!(!not_redb);
        }
        other => panic!("unexpected: {:?}", other),
    }
}

#[test]
fn incompatible_standalone_file_is_recreated() {
    match standalone_create_failed("/d/rs-histver.redb", true) {
        OpenStep::Recreate(p) => assert_eq!(p, "/d/rs-histver.redb"),
        other => panic!("unexpected: {:?}", other),
    }
    match standalone_create_failed("/d/rs-histver.redb", false) {
        OpenStep::Fail(m) => assert_eq!(m, "Failed to open database: /d/rs-histver.redb"),
        other => panic!("unexpected: {:?}", other),
    }
}

#[test]
fn table_keeps_last_version_per_date() {
    let rel = |v: &str, d: &str| RustRelease {
        version: v.to_string(),
        date: d.to_string(),
        channel: "nightly".to_string(),
    };
    let input = vec![rel("a", "2024-01-02"), rel("b", "2024-01-01"), rel("c", "2024-01-02")];
    let plan = plan_upserts("p", &input);
    let mut table = BTreeMap::new();
    for (k, v) in &plan.batches[0].entries {
        table.insert(k.clone(), v.clone());
    }
    let read: Vec<(String, String)> = table.into_iter().collect();
    let back = releases_from_entries("nightly", read);
    let got: Vec<(&str, &str)> = back.iter().map(|r| (r.version.as_str(), r.date.as_str())).collect();
    assert_eq!(got, vec![("b", "2024-01-01"), ("c", "2024-01-02")]);
}

#[test]
fn upsert_into_filled_table_keeps_unwritten_rows() {
    let rel = |v: &str, d: &str| RustRelease {
        version: v.to_string(),
        date: d.to_string(),
        channel: "beta".to_string(),
    };
    let mut table = BTreeMap::new();
    table.insert("2023-12-01".to_string(), "old-1".to_string());
    table.insert("2024-01-02".to_string(), "old-2".to_string());
    let input = vec![rel("new-2", "2024-01-02"), rel("new-3", "2024-01-05")];
    let plan = plan_upserts("p", &input);
    for (k, v) in &plan.batches[0].entries {
        table.insert(k.clone(), v.clone());
    }
    let read: Vec<(String, String)> = table.into_iter().collect();
    let back = releases_from_entries("beta", read);
    let got: Vec<(&str, &str)> = back.iter().map(|r| (r.version.as_str(), r.date.as_str())).collect();
    assert_eq!(got, vec![("old-1", "2023-12-01"), ("new-2", "2024-01-02"), ("new-3", "2024-01-05")]);
}
