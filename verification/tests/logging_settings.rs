use explorer::logging::{
    file_size, log_dir, log_level, rolling_type, LogLevel, LogPlan, LogSize, RollingType,
};
use explorer::settings::{Chain, ExplorerLog, MeiliSearch, Redis, Settings};

fn settings_with(temp_size: &str, rolling: &str, max_size: &str) -> Settings {
    Settings {
        log: ExplorerLog {
            log_dir: "target/logs".to_string(),
            log_cup: 1000,
            temp_size: temp_size.to_string(),
            zip_compress: false,
            rolling_type: rolling.to_string(),
            level: "warn".to_string(),
            debug: true,
            max_size: max_size.to_string(),
            file_name: "explorer.log".to_string(),
        },
        meilisearch: MeiliSearch {
            host: "http://127.0.0.1:7700".to_string(),
            apikey: "SECRET-REDACTED".to_string(),
        },
        chain: Chain { rpc_url: "ws://127.0.0.1:9944".to_string() },
        redis: Redis { url: "redis://127.0.0.1:6379/".to_string() },
    }
}

#[test]
fn level_names() {
    assert_eq!(log_level("error"), LogLevel::Error);
    assert_eq!(log_level("warn"), LogLevel::Warn);
    assert_eq!(log_level("trace"), LogLevel::Trace);
    assert_eq!(log_level("debug"), LogLevel::Debug);
    assert_eq!(log_level("info"), LogLevel::Info);
}

#[test]
fn unknown_level_names_mean_info() {
    assert_eq!(log_level(""), LogLevel::Info);
    assert_eq!(log_level("ERROR"), LogLevel::Info);
    assert_eq!(log_level("warning"), LogLevel::Info);
    assert_eq!(log_level(" error"), LogLevel::Info);
    assert_eq!(log_level("errors"), LogLevel::Info);
    assert_eq!(log_level("err"), LogLevel::Info);
}

#[test]
fn directory_gets_a_slash_at_its_end() {
    assert_eq!(log_dir("target/logs"), "target/logs/");
    assert_eq!(log_dir("target/logs/"), "target/logs/");
    assert_eq!(log_dir(""), "/");
    assert_eq!(log_dir("/"), "/");
    assert_eq!(log_dir("日志"), "日志/");
    assert_eq!(log_dir("a//"), "a//");
}

#[test]
fn sizes_with_a_unit() {
    assert_eq!(file_size("100MB"), Some(LogSize::MB(100)));
    assert_eq!(file_size("1KB"), Some(LogSize::KB(1)));
    assert_eq!(file_size("7GB"), Some(LogSize::GB(7)));
    assert_eq!(file_size("0MB"), Some(LogSize::MB(0)));
    assert_eq!(file_size("007KB"), Some(LogSize::KB(7)));
    assert_eq!(file_size("+5KB"), Some(LogSize::KB(5)));
}

#[test]
fn sizes_without_a_known_unit_are_the_default() {
    assert_eq!(file_size(""), Some(LogSize::MB(100)));
    assert_eq!(file_size("100"), Some(LogSize::MB(100)));
    assert_eq!(file_size("10TB"), Some(LogSize::MB(100)));
    assert_eq!(file_size("10mb"), Some(LogSize::MB(100)));
    assert_eq!(file_size("10MB "), Some(LogSize::MB(100)));
    assert_eq!(file_size("B"), Some(LogSize::MB(100)));
}

#[test]
fn the_number_is_what_stands_before_the_first_unit() {
    assert_eq!(file_size("1MB2MB"), Some(LogSize::MB(1)));
    assert_eq!(file_size("3KBxKB"), Some(LogSize::KB(3)));
    assert_eq!(file_size("2MBKB"), None);
    assert_eq!(file_size("2KBMB"), None);
}

#[test]
fn sizes_with_a_unit_and_no_number_are_none() {
    assert_eq!(file_size("MB"), None);
    assert_eq!(file_size("KB"), None);
    assert_eq!(file_size("GB"), None);
    assert_eq!(file_size("tenMB"), None);
    assert_eq!(file_size("5 MB"), None);
    assert_eq!(file_size(" 5MB"), None);
    assert_eq!(file_size("-5MB"), None);
    assert_eq!(file_size("1.5GB"), None);
    assert_eq!(file_size("+MB"), None);
    assert_eq!(file_size("５MB"), None);
    assert_eq!(file_size("99999999999999999999999999MB"), None);
}

#[test]
fn the_largest_size_is_read() {
    let text = format!("{}KB", usize::MAX);
    assert_eq!(file_size(&text), Some(LogSize::KB(usize::MAX)));
}

#[test]
fn ways_of_keeping_old_files() {
    assert_eq!(rolling_type("All"), Some(RollingType::All));
    assert_eq!(rolling_type(""), Some(RollingType::All));
    assert_eq!(rolling_type("KeepNum(5)"), Some(RollingType::KeepNum(5)));
    assert_eq!(rolling_type("KeepNum(-1)"), Some(RollingType::KeepNum(-1)));
    assert_eq!(rolling_type("KeepNum(+12)"), Some(RollingType::KeepNum(12)));
    assert_eq!(rolling_type("KeepTime(3600)"), Some(RollingType::KeepTime(3600)));
    assert_eq!(rolling_type("KeepTime(0)"), Some(RollingType::KeepTime(0)));
    assert_eq!(rolling_type("keepnum(5)"), Some(RollingType::All));
    assert_eq!(rolling_type("KeepNum"), Some(RollingType::All));
    assert_eq!(rolling_type(" KeepNum(5)"), Some(RollingType::All));
}

#[test]
fn the_number_is_what_stands_before_the_first_closing_bracket() {
    assert_eq!(rolling_type("KeepNum(5)x)"), Some(RollingType::KeepNum(5)));
    assert_eq!(rolling_type("KeepTime(9))"), Some(RollingType::KeepTime(9)));
    assert_eq!(rolling_type("KeepNum(5) and more"), Some(RollingType::KeepNum(5)));
}

#[test]
fn ways_of_keeping_that_cannot_be_read_are_none() {
    assert_eq!(rolling_type("KeepNum(5"), None);
    assert_eq!(rolling_type("KeepNum()"), None);
    assert_eq!(rolling_type("KeepNum(five)"), None);
    assert_eq!(rolling_type("KeepNum( 5)"), None);
    assert_eq!(rolling_type("KeepNum(-)"), None);
    assert_eq!(rolling_type("KeepNum(9223372036854775808)"), None);
    assert_eq!(rolling_type("KeepTime(-1)"), None);
    assert_eq!(rolling_type("KeepTime("), None);
    assert_eq!(rolling_type("KeepTime(1.5)"), None);
    assert_eq!(rolling_type("KeepTime(18446744073709551616)"), None);
}

#[test]
fn the_limits_of_the_numbers_are_read() {
    assert_eq!(
        rolling_type("KeepNum(9223372036854775807)"),
        Some(RollingType::KeepNum(i64::MAX))
    );
    assert_eq!(
        rolling_type("KeepNum(-9223372036854775808)"),
        Some(RollingType::KeepNum(i64::MIN))
    );
    assert_eq!(
        rolling_type("KeepTime(18446744073709551615)"),
        Some(RollingType::KeepTime(u64::MAX))
    );
}

#[test]
fn a_plan_holds_what_the_settings_decide() {
    let settings = settings_with("1MB", "KeepNum(20)", "2GB");
    assert_eq!(
        ExplorerLog::plan(&settings),
        Some(LogPlan {
            dir: "target/logs/".to_string(),
            temp_size: LogSize::MB(1),
            rolling: RollingType::KeepNum(20),
            level: LogLevel::Warn,
            max_size: LogSize::GB(2),
        })
    );
}

#[test]
fn there_is_no_plan_where_a_setting_cannot_be_read() {
    assert_eq!(ExplorerLog::plan(&settings_with("MB", "All", "1MB")), None);
    assert_eq!(ExplorerLog::plan(&settings_with("1MB", "KeepNum(x)", "1MB")), None);
    assert_eq!(ExplorerLog::plan(&settings_with("1MB", "All", "xKB")), None);
    assert!(ExplorerLog::plan(&settings_with("x", "y", "z")).is_some());
}
