use simple_web_server::config::{
    check_required, is_usable_value, missing_or_empty, required_vars, violation_message,
};
use simple_web_server::fatal::Fatal;

fn some(s: &str) -> Option<String> {
    Some(s.to_string())
}

#[test]
fn required_names_in_order() {
    assert_eq!(required_vars(), vec!["RUST_LOG".to_string(), "RUST_BACKTRACE".to_string()]);
}

#[test]
fn both_set_lets_service_start() {
    let names = required_vars();
    assert!(check_required(&names, &vec![some("info"), some("1")]).is_ok());
    assert!(check_required(&names, &vec![some("  debug "), some("full")]).is_ok());
}

#[test]
fn one_missing_is_named() {
    let names = required_vars();
    match check_required(&names, &vec![None, some("1")]) {
        Err(Fatal::MissingVars(v)) => assert_eq!(v, vec!["RUST_LOG".to_string()]),
        _ => panic!("expected the missing variable to be reported"),
    }
}

#[test]
fn all_violations_are_named() {
    let names = required_vars();
    let values = vec![some("   "), None];
    let missing = missing_or_empty(&names, &values);
    assert_eq!(missing, vec!["RUST_LOG".to_string(), "RUST_BACKTRACE".to_string()]);
    match check_required(&names, &values) {
        Err(f) => {
            assert_eq!(f.exit_code(), 1);
            assert_eq!(
                f.message(),
                "Exiting due to missing or empty environment variables: [\"RUST_LOG\", \"RUST_BACKTRACE\"]"
            );
        }
        Ok(()) => panic!("expected the startup check to fail"),
    }
}

#[test]
fn empty_and_whitespace_values_are_blank() {
    assert!(!is_usable_value(&some("")));
    assert!(!is_usable_value(&some(" \t\n ")));
    assert!(!is_usable_value(&None));
    assert!(is_usable_value(&some(" x ")));
}

#[test]
fn second_only_blank_is_named() {
    let names = required_vars();
    let missing = missing_or_empty(&names, &vec![some("warn"), some("")]);
    assert_eq!(missing, vec!["RUST_BACKTRACE".to_string()]);
}

#[test]
fn violation_line_names_variable() {
    assert_eq!(
        violation_message("RUST_LOG"),
        "Missing or empty required environment variable: RUST_LOG"
    );
}

#[test]
fn bind_failure_is_fatal_with_status_one() {
    let f = Fatal::Bind("address in use".to_string());
    assert_eq!(f.exit_code(), 1);
    assert_eq!(f.message(), "Failed to bind listener: address in use");
}

#[test]
fn serve_and_logger_failures_are_fatal() {
    let s = Fatal::Serve("closed".to_string());
    assert_eq!(s.exit_code(), 1);
    assert_eq!(s.message(), "Server error: closed");
    let l = Fatal::LoggerInit("already set".to_string());
    assert_eq!(l.exit_code(), 1);
    assert_eq!(l.message(), "Failed to initialize logger: already set");
}
