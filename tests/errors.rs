use radb::errors::AdbError;

#[test]
fn test_error_creation() {
    let err = AdbError::connection_failed("Test connection failed");
    assert_eq!(err.error_code(), "CONNECTION_FAILED");
    assert!(err.is_retryable());
    assert!(!err.is_fatal());
}

#[test]
fn test_device_not_found() {
    let err = AdbError::device_not_found("emulator-5554");
    assert_eq!(err.error_code(), "DEVICE_NOT_FOUND");
    assert!(!err.is_retryable());
    assert!(err.is_fatal());
}

#[test]
fn test_command_failed() {
    let err = AdbError::command_failed("shell ls", "permission denied");
    assert_eq!(err.error_code(), "COMMAND_FAILED");
    assert!(!err.is_retryable());
}

#[test]
fn test_timeout_error() {
    let err = AdbError::timeout(30);
    assert_eq!(err.error_code(), "TIMEOUT");
    assert!(err.is_retryable());
    assert!(!err.is_fatal());
}
