use radb::beans::{extract_forward_item_from_output, extract_port_from_tcp_spec, parse_device_list_lines};
use radb::client::{connect_device, disconnect_device, parse_server_version, server_version, AdbClientBuilder};
use radb::errors::AdbError;
use radb::outputs::{collect_content, content_text, gpu_line, install_destination, install_succeeded, is_remote_url, screen_is_on, trim_output};

#[test]
fn trimming_and_text() {
    assert_eq!(trim_output(b"  34\r\n"), "34");
    assert_eq!(trim_output(b"\xffA"), "\u{fffd}A");
}

#[test]
fn judging_outputs() {
    assert!(install_succeeded("Performing Streamed Install\nSuccess\n"));
    assert!(!install_succeeded("Failure [INSTALL_FAILED]"));
    assert!(screen_is_on("x mHoldingDisplaySuspendBlocker=true y"));
    assert!(!screen_is_on("mHoldingDisplaySuspendBlocker=false"));
    assert_eq!(gpu_line("a\nGLES: Qualcomm, Adreno\nGLES: other").unwrap(), "GLES: Qualcomm, Adreno");
    assert_eq!(gpu_line("x\nGLES: last").unwrap(), "GLES: last");
    assert!(matches!(gpu_line("none here\n"), Err(AdbError::Unknown { .. })));
}

#[test]
fn content_joining() {
    let items = vec![Ok(b"ab".to_vec()), Ok(b"c".to_vec())];
    assert_eq!(content_text(&items), "abc");
    let failed = vec![Ok(b"ab".to_vec()), Err(AdbError::protocol_error("x"))];
    assert_eq!(content_text(&failed), "ab");
    assert!(matches!(collect_content(failed), Err(AdbError::ProtocolError { .. })));
}

#[test]
fn install_helpers() {
    assert_eq!(install_destination(1700000000123), "/data/local/tmp/tmp-1700000000123.apk");
    assert!(is_remote_url("https://x/a.apk"));
    assert!(is_remote_url("http://x/a.apk"));
    assert!(!is_remote_url("/tmp/a.apk"));
}

#[test]
fn forward_list_parsing() {
    let items = extract_forward_item_from_output("S tcp:1 tcp:2\n\nbad line\nT  tcp:3\ttcp:4 extra\n");
    assert_eq!(items.len(), 2);
    assert_eq!(items[0].serial, "S");
    assert_eq!(items[0].local, "tcp:1");
    assert_eq!(items[1].serial, "T");
    assert_eq!(items[1].remote, "tcp:4");
}

#[test]
fn device_list_parsing() {
    assert!(parse_device_list_lines("").is_empty());
    let d = parse_device_list_lines("abc\tdevice");
    assert_eq!(d.len(), 1);
    assert_eq!(d[0].state, "device");
    assert!(d[0].properties.is_empty());
}

#[test]
fn tcp_ports() {
    assert_eq!(extract_port_from_tcp_spec("tcp:41000"), Some(41000));
    assert_eq!(extract_port_from_tcp_spec("tcp:65536"), None);
    assert_eq!(extract_port_from_tcp_spec("tcp:"), None);
    assert_eq!(extract_port_from_tcp_spec("local:41000"), None);
    assert_eq!(extract_port_from_tcp_spec("tcp:4a"), None);
}

#[test]
fn host_commands() {
    assert_eq!(server_version().commands, vec!["host:version".to_string()]);
    assert_eq!(connect_device("10.0.0.2:5555").commands[0], "host:connect:10.0.0.2:5555");
    assert_eq!(disconnect_device("10.0.0.2:5555").unwrap().commands[0], "host:disconnect:10.0.0.2:5555");
    assert!(matches!(disconnect_device(""), Err(AdbError::Unknown { .. })));
}

#[test]
fn server_version_is_hex() {
    assert_eq!(parse_server_version("0029").unwrap(), "41");
    assert_eq!(parse_server_version("FF").unwrap(), "255");
    assert!(matches!(parse_server_version("zz"), Err(AdbError::ParseError { .. })));
    assert!(matches!(parse_server_version(""), Err(AdbError::ParseError { .. })));
    assert!(matches!(parse_server_version("10000000000000000"), Err(AdbError::ParseError { .. })));
}

#[test]
fn builder_defaults_and_address() {
    let c = AdbClientBuilder::new().build().unwrap();
    assert_eq!(c.host, "127.0.0.1");
    assert_eq!(c.port, 5037);
    assert_eq!(c.socket_timeout, 3);
    let c = AdbClientBuilder::new().addr("10.1.2.3:6000").timeout(9).build().unwrap();
    assert_eq!(c.host, "10.1.2.3");
    assert_eq!(c.port, 6000);
    assert_eq!(c.socket_timeout, 9);
    assert!(AdbClientBuilder::new().addr("nohost").build().is_err());
}

#[test]
fn error_kinds() {
    let e = AdbError::connection_failed("x");
    assert_eq!(e.error_code(), "CONNECTION_FAILED");
    assert!(e.is_retryable());
    assert!(!e.is_fatal());
    let e = AdbError::device_not_found("emulator-5554");
    assert_eq!(e.error_code(), "DEVICE_NOT_FOUND");
    assert!(e.is_fatal());
    assert_eq!(AdbError::timeout(30).error_code(), "TIMEOUT");
    assert!(AdbError::timeout(30).is_retryable());
    assert_eq!(AdbError::command_failed("shell ls", "permission denied").error_code(), "COMMAND_FAILED");
    assert_eq!(AdbError::application_error("com.a", "crash").error_code(), "APPLICATION_ERROR");
}

#[test]
fn every_error_kind_has_its_code() {
    let cases = vec![
        (AdbError::connection_failed("a"), "CONNECTION_FAILED", true, false),
        (AdbError::device_not_found("a"), "DEVICE_NOT_FOUND", false, true),
        (AdbError::command_failed("a", "b"), "COMMAND_FAILED", false, false),
        (AdbError::protocol_error("a"), "PROTOCOL_ERROR", false, false),
        (AdbError::parse_error("a"), "PARSE_ERROR", false, true),
        (AdbError::file_operation_failed("a", "b"), "FILE_OPERATION_FAILED", false, false),
        (AdbError::network_error("a"), "NETWORK_ERROR", true, false),
        (AdbError::timeout(3), "TIMEOUT", true, false),
        (AdbError::permission_denied("a"), "PERMISSION_DENIED", false, true),
        (AdbError::application_error("a", "b"), "APPLICATION_ERROR", false, false),
        (AdbError::unknown("a"), "UNKNOWN_ERROR", false, false),
    ];
    for (e, code, retry, fatal) in cases {
        assert_eq!(e.error_code(), code);
        assert_eq!(e.is_retryable(), retry);
        assert_eq!(e.is_fatal(), fatal);
    }
    match AdbError::command_failed("shell ls", "permission denied") {
        AdbError::CommandFailed { command, reason } => {
            assert_eq!(command, "shell ls");
            assert_eq!(reason, "permission denied");
        }
        _ => panic!("wrong kind"),
    }
}
