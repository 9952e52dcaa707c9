use goose::config::{APP_NAME, AUTHOR, LOG_DIR, TOP_LEVEL_DOMAIN};
use goose::logging::{
    log_day, log_file_name, log_timestamp, logging_plan, LocalTime, LogFormat, LogLevel,
};

fn at(year: i32, month: u32, day: u32, hour: u32, minute: u32, second: u32) -> LocalTime {
    LocalTime { year, month, day, hour, minute, second }
}

#[test]
fn days_name_the_log_directories() {
    assert_eq!(log_day(at(2025, 1, 9, 0, 0, 0)), "2025-01-09");
    assert_eq!(log_day(at(7, 12, 31, 0, 0, 0)), "0007-12-31");
    assert_eq!(log_day(at(2024, 2, 29, 0, 0, 0)), "2024-02-29");
    assert_eq!(log_day(at(-1, 1, 1, 0, 0, 0)), "-0001-01-01");
    assert_eq!(log_day(at(9999, 1, 1, 0, 0, 0)), "9999-01-01");
    assert_eq!(log_day(at(10_000, 1, 1, 0, 0, 0)), "+10000-01-01");
    assert_eq!(log_day(at(262_142, 12, 31, 0, 0, 0)), "+262142-12-31");
    assert_eq!(log_day(at(-262_143, 1, 1, 0, 0, 0)), "-262143-01-01");
}

#[test]
fn timestamps_have_their_shape() {
    let s = log_timestamp(at(2025, 1, 9, 8, 7, 6));
    assert_eq!(s, "20250109_080706");
    assert_eq!(s.len(), 15);
    assert_eq!(&s[8..9], "_");
    assert!(s.chars().all(|c| c.is_ascii_digit() || c == '_'));
    assert_eq!(log_timestamp(at(0, 11, 30, 23, 59, 59)), "00001130_235959");
}

#[test]
fn log_files_are_named_by_time_and_name() {
    assert_eq!(log_file_name("20250109_080706", None), "20250109_080706.log");
    assert_eq!(
        log_file_name("20250109_080706", Some("test_session")),
        "20250109_080706-test_session.log"
    );
}

#[test]
fn logs_have_their_levels() {
    let plan = logging_plan();
    assert_eq!(plan.file_format, LogFormat::Json);
    assert_eq!(
        plan.file_directives,
        vec!["mcp_server=debug", "mcp_client=debug", "goose=debug", "goose_cli=info", "warn"]
    );
    assert_eq!(plan.console_format, LogFormat::Pretty);
    assert_eq!(plan.console_level, LogLevel::Info);
    assert_eq!(plan.observer_level, LogLevel::Debug);
}

#[test]
fn files_are_kept_under_the_application() {
    assert_eq!((TOP_LEVEL_DOMAIN, AUTHOR, APP_NAME), ("Block", "Block", "goose"));
    assert_eq!(LOG_DIR, "logs/cli");
}
