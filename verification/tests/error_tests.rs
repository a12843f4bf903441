use rlox::error::{io_diagnostic, source_diagnostic, RLoxError};

#[test]
fn source_builds_a_source_error() {
    let error = RLoxError::source(3, "at end".to_string(), "expected expression".to_string());
    assert_eq!(
        error,
        RLoxError::Source {
            line: 3,
            location: "at end".to_string(),
            message: "expected expression".to_string()
        }
    );
}

#[test]
fn source_error_renders_line_location_and_message() {
    let error = RLoxError::source(12, "at ')'".to_string(), "unexpected token".to_string());
    assert_eq!(error.to_string(), "[12] Error at ')': unexpected token");
}

#[test]
fn source_error_with_empty_location() {
    let error = RLoxError::source(1, String::new(), "unterminated string".to_string());
    assert_eq!(error.to_string(), "[1] Error : unterminated string");
}

#[test]
fn source_error_on_line_zero_and_on_a_long_line_number() {
    assert_eq!(RLoxError::source(0, String::new(), "m".to_string()).to_string(), "[0] Error : m");
    assert_eq!(
        RLoxError::source(1234567890, String::new(), "m".to_string()).to_string(),
        "[1234567890] Error : m"
    );
    assert_eq!(
        RLoxError::source(usize::MAX, String::new(), "m".to_string()).to_string(),
        format!("[{}] Error : m", usize::MAX)
    );
}

#[test]
fn io_error_renders_its_kind() {
    let error = RLoxError::IO { kind: std::io::ErrorKind::NotFound };
    assert_eq!(error.to_string(), "IO error: NotFound");
    let error = RLoxError::IO { kind: std::io::ErrorKind::PermissionDenied };
    assert_eq!(error.to_string(), "IO error: PermissionDenied");
}

#[test]
fn io_diagnostic_puts_the_kind_behind_the_prefix() {
    assert_eq!(io_diagnostic("NotFound"), "IO error: NotFound");
    assert_eq!(io_diagnostic(""), "IO error: ");
}

#[test]
fn source_diagnostic_renders_its_parts() {
    assert_eq!(source_diagnostic(7, "at end", "expected expression"), "[7] Error at end: expected expression");
    assert_eq!(source_diagnostic(10, "", ""), "[10] Error : ");
}
