use usm_core::monitor::{
    parse_pid, pid_capture_command, pid_from_first_line, pid_from_socket_listing,
    resolve_started_pid, PID_FILE_WAIT_MS, START_VERIFY_WAIT_MS,
};
use usm_core::text::name_matches;
use usm_core::UsmError;

#[test]
fn test_parse_pid_accepts_trimmed_digits() {
    assert_eq!(parse_pid("1234"), 1234);
    assert_eq!(parse_pid("  1234\n"), 1234);
    assert_eq!(parse_pid("\t0007\r\n"), 7);
}

#[test]
fn test_parse_pid_malformed_is_zero() {
    assert_eq!(parse_pid(""), 0);
    assert_eq!(parse_pid("   "), 0);
    assert_eq!(parse_pid("12a4"), 0);
    assert_eq!(parse_pid("-5"), 0);
    assert_eq!(parse_pid("12 34"), 0);
    assert_eq!(parse_pid("99999999999999999999"), 0);
}

#[test]
fn test_pid_capture_command_shape() {
    let wrapped = pid_capture_command("npm run dev", "/tmp/svc.pid");
    assert_eq!(
        wrapped,
        "{ npm run dev } & echo $! > \"/tmp/svc.pid\" && wait"
    );
}

#[test]
fn test_resolve_started_pid_prefers_capture() {
    assert_eq!(resolve_started_pid(42, true, Some(99), true), Ok(42));
}

#[test]
fn test_resolve_started_pid_falls_back_to_port() {
    assert_eq!(resolve_started_pid(0, false, Some(99), true), Ok(99));
    assert_eq!(resolve_started_pid(42, false, Some(99), true), Ok(99));
}

#[test]
fn test_resolve_started_pid_failure() {
    assert_eq!(
        resolve_started_pid(0, false, None, false),
        Err(UsmError::ProcessFailure)
    );
    assert_eq!(
        resolve_started_pid(7, false, Some(99), false),
        Err(UsmError::ProcessFailure)
    );
}

#[test]
fn test_pid_from_socket_listing() {
    let output = "State  Recv-Q Send-Q Local Address:Port\n\
                  LISTEN 0      128    0.0.0.0:8080  users:((\"node\",pid=4321,fd=23))\n";
    assert_eq!(pid_from_socket_listing(output), Some(4321));
}

#[test]
fn test_pid_from_socket_listing_skips_header_and_bad_lines() {
    let header_only = "State  Recv-Q Send-Q pid=1111\n";
    assert_eq!(pid_from_socket_listing(header_only), None);

    let malformed_then_good = "header\nno marker here\nusers:((\"x\",pid=77,fd=3))\n";
    assert_eq!(pid_from_socket_listing(malformed_then_good), Some(77));
}

#[test]
fn test_pid_from_first_line() {
    assert_eq!(pid_from_first_line("123\n456\n"), Some(123));
    assert_eq!(pid_from_first_line(" 88 \n"), Some(88));
    assert_eq!(pid_from_first_line("none\n"), None);
    assert_eq!(pid_from_first_line(""), None);
}

#[test]
fn test_name_matches_case_insensitive() {
    // Lower-casing really happens: an identity mapping would fail these.
    assert!(name_matches("KERNEL_task", "kernel"));
    assert!(name_matches("postgres", "GRES"));
    assert!(name_matches("Redis-Server", "redis-server"));
    assert!(!name_matches("nginx", "apache"));
}

#[test]
fn test_capture_windows_are_bounded() {
    assert!(PID_FILE_WAIT_MS >= 100 && PID_FILE_WAIT_MS <= 1000);
    assert!(START_VERIFY_WAIT_MS >= 1000 && START_VERIFY_WAIT_MS <= 10000);
}
