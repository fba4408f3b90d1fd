//! The error kinds of the library.
use vstd::prelude::*;
use vstd::string::*;

verus! {

/// The single error type of the library.
#[derive(Debug)]
pub enum AdbError {
    /// The TCP connection to the server could not be established.
    ConnectionFailed { message: String },
    /// No device matches the requested serial.
    DeviceNotFound { serial: String },
    /// The server answered a command with `FAIL` and this reason.
    CommandFailed { command: String, reason: String },
    /// The peer sent bytes that do not follow the protocol.
    ProtocolError { message: String },
    /// Text sent by the server could not be parsed.
    ParseError { message: String },
    /// A local file operation failed.
    FileOperationFailed { operation: String, path: String },
    /// Generic I/O failure of the underlying connection.
    NetworkError { message: String },
    /// A read did not complete within the given number of seconds.
    Timeout { seconds: u64 },
    /// The operating system denied an operation.
    PermissionDenied { message: String },
    /// Installing, removing or inspecting an application failed.
    ApplicationError { package_name: String, message: String },
    /// Anything else.
    Unknown { message: String },
}

/// Result type used throughout the library.
pub type AdbResult<T> = Result<T, AdbError>;

/// Whether an error kind is worth retrying.
pub open spec fn retryable(e: AdbError) -> bool {
    e is ConnectionFailed || e is NetworkError || e is Timeout
}

/// Whether an error kind is fatal.
pub open spec fn fatal(e: AdbError) -> bool {
    e is DeviceNotFound || e is PermissionDenied || e is ParseError
}

impl AdbError {
    pub fn connection_failed(message: &str) -> (r: AdbError)
        ensures
            r matches AdbError::ConnectionFailed { message: m } && m@ == message@,
    {
        AdbError::ConnectionFailed { message: String::from_str(message) }
    }

    pub fn device_not_found(serial: &str) -> (r: AdbError)
        ensures
            r matches AdbError::DeviceNotFound { serial: s } && s@ == serial@,
    {
        AdbError::DeviceNotFound { serial: String::from_str(serial) }
    }

    pub fn command_failed(command: &str, reason: &str) -> (r: AdbError)
        ensures
            r matches AdbError::CommandFailed { command: c, reason: m } && c@ == command@
                && m@ == reason@,
    {
        AdbError::CommandFailed {
            command: String::from_str(command),
            reason: String::from_str(reason),
        }
    }

    pub fn protocol_error(message: &str) -> (r: AdbError)
        ensures
            r matches AdbError::ProtocolError { message: m } && m@ == message@,
    {
        AdbError::ProtocolError { message: String::from_str(message) }
    }

    pub fn parse_error(message: &str) -> (r: AdbError)
        ensures
            r matches AdbError::ParseError { message: m } && m@ == message@,
    {
        AdbError::ParseError { message: String::from_str(message) }
    }

    pub fn file_operation_failed(operation: &str, path: &str) -> (r: AdbError)
        ensures
            r matches AdbError::FileOperationFailed { operation: o, path: p } && o@ == operation@
                && p@ == path@,
    {
        AdbError::FileOperationFailed {
            operation: String::from_str(operation),
            path: String::from_str(path),
        }
    }

    pub fn network_error(message: &str) -> (r: AdbError)
        ensures
            r matches AdbError::NetworkError { message: m } && m@ == message@,
    {
        AdbError::NetworkError { message: String::from_str(message) }
    }

    pub fn timeout(seconds: u64) -> (r: AdbError)
        ensures
            r == (AdbError::Timeout { seconds }),
    {
        AdbError::Timeout { seconds }
    }

    pub fn permission_denied(message: &str) -> (r: AdbError)
        ensures
            r matches AdbError::PermissionDenied { message: m } && m@ == message@,
    {
        AdbError::PermissionDenied { message: String::from_str(message) }
    }

    pub fn application_error(package_name: &str, message: &str) -> (r: AdbError)
        ensures
            r matches AdbError::ApplicationError { package_name: p, message: m } && p@
                == package_name@ && m@ == message@,
    {
        AdbError::ApplicationError {
            package_name: String::from_str(package_name),
            message: String::from_str(message),
        }
    }

    pub fn unknown(message: &str) -> (r: AdbError)
        ensures
            r matches AdbError::Unknown { message: m } && m@ == message@,
    {
        AdbError::Unknown { message: String::from_str(message) }
    }

    /// Connection, network and timeout errors may succeed on a retry.
    pub fn is_retryable(&self) -> (r: bool)
        ensures
            r == retryable(*self),
    {
        match self {
            AdbError::ConnectionFailed { .. } => true,
            AdbError::NetworkError { .. } => true,
            AdbError::Timeout { .. } => true,
            _ => false,
        }
    }

    /// A missing device, a denied permission or unparsable text will not go
    /// away on a retry.
    pub fn is_fatal(&self) -> (r: bool)
        ensures
            r == fatal(*self),
    {
        match self {
            AdbError::DeviceNotFound { .. } => true,
            AdbError::PermissionDenied { .. } => true,
            AdbError::ParseError { .. } => true,
            _ => false,
        }
    }

    /// A short upper-case code naming the error kind.
    pub fn error_code(&self) -> (r: &'static str)
        ensures
            r@ == error_code_of(*self)@,
    {
        match self {
            AdbError::ConnectionFailed { .. } => "CONNECTION_FAILED",
            AdbError::DeviceNotFound { .. } => "DEVICE_NOT_FOUND",
            AdbError::CommandFailed { .. } => "COMMAND_FAILED",
            AdbError::ProtocolError { .. } => "PROTOCOL_ERROR",
            AdbError::ParseError { .. } => "PARSE_ERROR",
            AdbError::FileOperationFailed { .. } => "FILE_OPERATION_FAILED",
            AdbError::NetworkError { .. } => "NETWORK_ERROR",
            AdbError::Timeout { .. } => "TIMEOUT",
            AdbError::PermissionDenied { .. } => "PERMISSION_DENIED",
            AdbError::ApplicationError { .. } => "APPLICATION_ERROR",
            AdbError::Unknown { .. } => "UNKNOWN_ERROR",
        }
    }
}

/// The code that `error_code` gives for each kind.
pub open spec fn error_code_of(e: AdbError) -> &'static str {
    match e {
        AdbError::ConnectionFailed { .. } => "CONNECTION_FAILED",
        AdbError::DeviceNotFound { .. } => "DEVICE_NOT_FOUND",
        AdbError::CommandFailed { .. } => "COMMAND_FAILED",
        AdbError::ProtocolError { .. } => "PROTOCOL_ERROR",
        AdbError::ParseError { .. } => "PARSE_ERROR",
        AdbError::FileOperationFailed { .. } => "FILE_OPERATION_FAILED",
        AdbError::NetworkError { .. } => "NETWORK_ERROR",
        AdbError::Timeout { .. } => "TIMEOUT",
        AdbError::PermissionDenied { .. } => "PERMISSION_DENIED",
        AdbError::ApplicationError { .. } => "APPLICATION_ERROR",
        AdbError::Unknown { .. } => "UNKNOWN_ERROR",
    }
}

} // verus!
