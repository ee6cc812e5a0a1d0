use updater::logfmt::log_line;

#[test]
fn log_line_formats_timestamp_and_message() {
    assert_eq!(log_line(1700000000, "updater started"), "[1700000000] updater started");
}

#[test]
fn log_line_zero_timestamp() {
    assert_eq!(log_line(0, "fallback"), "[0] fallback");
}

#[test]
fn log_line_empty_message() {
    assert_eq!(log_line(42, ""), "[42] ");
}

#[test]
fn log_line_largest_timestamp() {
    assert_eq!(log_line(u64::MAX, "x"), "[18446744073709551615] x");
}

#[test]
fn log_line_keeps_message_verbatim() {
    assert_eq!(
        log_line(7, "copy failed, retry 1/3: locked"),
        "[7] copy failed, retry 1/3: locked"
    );
}
