use rs_histver::config::{default_db_path, DEFAULT_TABLE_PREFIX};
use rs_histver::{Config, ConfigBuilder};

#[test]
fn test_default_config() {
    let config = Config::new(".");
    assert_eq!(config.database.table_prefix, "rs_histver");
    assert!(!config.database.shared);
    assert_eq!(config.network.timeout, 15);
    assert_eq!(config.network.max_concurrency, 10);
    assert!(config.database.path.contains("data"));
    assert!(config.database.path.contains("rs-histver.redb"));
}

#[test]
fn test_with_db_path() {
    let config = Config::with_db_path("/tmp/custom.redb");
    assert_eq!(config.database.path, "/tmp/custom.redb");
    assert_eq!(config.database.table_prefix, "rs_histver");
    assert!(!config.database.shared);
}

#[test]
fn test_db_path_returns_configured_path() {
    let config = Config::with_db_path("/tmp/test.redb");
    let path = config.db_path();
    assert_eq!(path, "/tmp/test.redb");
}

#[test]
fn test_table_name_for() {
    let config = Config::new(".");
    assert_eq!(config.database.table_name_for("stable"), "rs_histver_stable");
    assert_eq!(config.database.table_name_for("beta"), "rs_histver_beta");
    assert_eq!(config.database.table_name_for("nightly"), "rs_histver_nightly");
}

#[test]
fn test_all_table_names() {
    let config = Config::new(".");
    let names = config.database.all_table_names();
    assert_eq!(names, vec!["rs_histver_stable", "rs_histver_beta", "rs_histver_nightly"]);
}

#[test]
fn test_builder_db_path_overrides_data_dir() {
    let config = ConfigBuilder::new()
        .data_dir("/tmp/mydata")
        .db_path("/tmp/custom.redb")
        .build(".");
    assert_eq!(config.database.path, "/tmp/custom.redb");
    assert!(!config.database.shared);
}

#[test]
fn test_builder_data_dir_appends_filename() {
    let config = ConfigBuilder::new().data_dir("/tmp/mydata").build(".");
    assert_eq!(config.database.path, "/tmp/mydata/rs-histver.redb");
    assert!(!config.database.shared);
}

#[test]
fn test_builder_default_fallback() {
    let config = ConfigBuilder::new().build(".");
    assert_eq!(config.database.table_prefix, "rs_histver");
    assert!(!config.database.shared);
    assert_eq!(config.network.timeout, 15);
    assert_eq!(config.network.max_concurrency, 10);
}

#[test]
fn test_builder_programmatic_overrides() {
    let config = ConfigBuilder::new()
        .table_prefix("myapp")
        .timeout(30)
        .max_concurrency(5)
        .build(".");
    assert_eq!(config.database.table_prefix, "myapp");
    assert!(!config.database.shared);
    assert_eq!(config.network.timeout, 30);
    assert_eq!(config.network.max_concurrency, 5);
}

#[test]
fn test_builder_db_file_shared_mode() {
    let config = ConfigBuilder::new()
        .data_dir("/tmp/mydata")
        .db_file("myapp.redb")
        .table_prefix("myapp_histver")
        .build(".");
    assert_eq!(config.database.path, "/tmp/mydata/myapp.redb");
    assert_eq!(config.database.table_prefix, "myapp_histver");
    assert!(config.database.shared);
}

#[test]
fn test_builder_db_path_overrides_db_file() {
    let config = ConfigBuilder::new()
        .data_dir("/tmp/mydata")
        .db_file("myapp.redb")
        .db_path("/tmp/custom.redb")
        .build(".");
    assert_eq!(config.database.path, "/tmp/custom.redb");
    assert!(!config.database.shared);
}

#[test]
fn test_builder_data_dir_without_db_file_standalone() {
    let config = ConfigBuilder::new().data_dir("/tmp/mydata").build(".");
    assert_eq!(config.database.path, "/tmp/mydata/rs-histver.redb");
    assert!(!config.database.shared);
}

#[test]
fn builder_without_data_dir_uses_exe_dir_data() {
    let config = ConfigBuilder::new().build("/opt/app");
    assert_eq!(config.database.path, "/opt/app/data/rs-histver.redb");
    let shared = ConfigBuilder::new().db_file("host.redb").build("/opt/app");
    assert_eq!(shared.database.path, "/opt/app/data/host.redb");
    assert!(shared.database.shared);
    assert_eq!(shared.database.table_prefix, DEFAULT_TABLE_PREFIX);
}

#[test]
fn default_db_path_is_under_data() {
    assert_eq!(default_db_path("/opt/app"), "/opt/app/data/rs-histver.redb");
    assert_eq!(Config::new("/opt/app").database.path, "/opt/app/data/rs-histver.redb");
}

#[test]
fn shared_mode_with_default_prefix_may_collide() {
    let shared_default = ConfigBuilder::new().data_dir("/d").db_file("host.redb").build(".");
    assert!(shared_default.database.prefix_may_collide());
    let shared_custom = ConfigBuilder::new()
        .data_dir("/d")
        .db_file("host.redb")
        .table_prefix("host_hv")
        .build(".");
    assert!(!shared_custom.database.prefix_may_collide());
    let standalone = ConfigBuilder::new().data_dir("/d").build(".");
    assert!(!standalone.database.prefix_may_collide());
}

#[test]
fn builder_keeps_default_user_agent() {
    let config = Config::builder().timeout(3).build(".");
    assert_eq!(config.network.user_agent, "rs-histver/0.4.0");
    assert_eq!(config.network.timeout, 3);
    assert_eq!(config.network.max_concurrency, 10);
}
