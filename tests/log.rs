use static_httpd::error::HttpError;
use static_httpd::log::{Log, LogLevel};
use static_httpd::time::{now, Date};

#[test]
fn log_info_test() {
    let line = Log::info("hello world".to_string(), 0, 0);
    assert_eq!(line.to_string(), "1970-01-01 00:00:00 INFO: hello world");
    let line = Log::info(format!("hello world{}", "!"), 86399, 0);
    assert_eq!(line.level, LogLevel::Info);
    assert_eq!(line.to_string(), "1970-01-01 23:59:59 INFO: hello world!");
}

#[test]
fn error_lines_carry_their_level() {
    let line = Log::error("boom".to_string(), 3600, 8);
    assert_eq!(line.to_string(), "1970-01-01 09:00:00 ERROR: boom");
}

#[test]
fn dates_follow_the_calendar() {
    assert_eq!(now(951782400, 0), "2000-02-29 00:00:00");
    assert_eq!(now(1700000000, 0), "2023-11-14 22:13:20");
    assert_eq!(now(1700000000, 8), "2023-11-15 06:13:20");
    assert_eq!(now(4107542399, 0), "2100-02-28 23:59:59");
    assert_eq!(now(4107542400, 0), "2100-03-01 00:00:00");
    assert_eq!(now(100, -1), "1970-01-01 00:00:00");
}

#[test]
fn date_update_splits_seconds_into_fields() {
    let mut d = Date::epoch();
    d.update(1234567890);
    assert_eq!((d.year, d.month, d.day, d.hour, d.minute, d.second), (2009, 2, 13, 23, 31, 30));
    assert_eq!(d.to_string(), "2009-02-13 23:31:30");
}

#[test]
fn http_errors_render_as_text() {
    let e = HttpError::new("io", "broken pipe");
    assert_eq!(e.to_string(), "HttpError{kind:io,message:broken pipe}");
}
