//! The call channel: every outcome reported with the right status and
//! payload.

use uniffi::codec::{lift, Value};
use uniffi::status::{settle_call, CallOutcome, CallStatus, CallStatusCode};

#[test]
fn default_status_is_success() {
    let status = CallStatus::default();
    assert_eq!(status.code, CallStatusCode::Success);
    assert!(status.error_buf.is_empty());
}

#[test]
fn success_serializes_the_return_value() {
    let mut status = CallStatus::default();
    let buf = settle_call(
        CallOutcome::Success(Value::U32(42)),
        &mut status,
    );
    assert_eq!(status.code, CallStatusCode::Success);
    assert!(status.error_buf.is_empty());
    assert_eq!(lift(&buf), Ok(Value::U32(42)));
}

#[test]
fn domain_error_reports_expected_error() {
    let mut status = CallStatus::default();
    let buf = settle_call(
        CallOutcome::DomainError(Value::Text("too many holes".to_string())),
        &mut status,
    );
    assert_eq!(status.code, CallStatusCode::ExpectedError);
    assert!(buf.is_empty());
    assert_eq!(
        lift(&status.error_buf),
        Ok(Value::Text("too many holes".to_string()))
    );
}

// The diagnostic names the failing argument and carries the cause.
#[test]
fn conversion_failure_names_the_argument() {
    let mut status = CallStatus::default();
    let buf = settle_call(
        CallOutcome::ConversionFailed {
            arg_name: "arg0".to_string(),
            cause: "Invalid handle".to_string(),
        },
        &mut status,
    );
    assert_eq!(status.code, CallStatusCode::UnexpectedError);
    assert!(buf.is_empty());
    let diagnostic = match lift(&status.error_buf) {
        Ok(Value::Text(s)) => s,
        other => panic!("expected a text diagnostic, got {other:?}"),
    };
    assert_eq!(diagnostic, "Failed to convert arg 'arg0':\nInvalid handle");
    assert!(diagnostic.contains("arg0"));
    assert!(diagnostic.contains("Invalid handle"));
}

#[test]
fn contained_fault_reports_unexpected_error() {
    let mut status = CallStatus::default();
    let buf = settle_call(
        CallOutcome::Fault("index out of bounds".to_string()),
        &mut status,
    );
    assert_eq!(status.code, CallStatusCode::UnexpectedError);
    assert!(buf.is_empty());
    assert_eq!(
        lift(&status.error_buf),
        Ok(Value::Text("index out of bounds".to_string()))
    );
}
