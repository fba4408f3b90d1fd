use radb::device::{BaseClient, BaseDevice};
use radb::request::Reply;
use radb::sync::{read_sync_status, send_body};
use radb::errors::AdbError;
use radb::sync::{content_stream, data_chunk, done_chunk, parse_file_info, read_chunk, read_dent, read_listing, read_stat, send_request, sync_request};
use radb::wire::{build_command_packet, is_fail_response, is_okay_response, parse_length_prefix, read_block, read_status};

#[test]
fn frame_has_four_hex_digits() {
    assert_eq!(build_command_packet("host:version"), b"000chost:version".to_vec());
    assert_eq!(build_command_packet(""), b"0000".to_vec());
    let long = "x".repeat(0x1ab);
    let packet = build_command_packet(&long);
    assert_eq!(&packet[..4], b"01ab");
    assert_eq!(packet.len(), 4 + 0x1ab);
}

#[test]
fn frame_reads_back() {
    let packet = build_command_packet("shell:echo hi");
    match read_block(&packet, 0) {
        Some(Ok((payload, next))) => {
            assert_eq!(payload, b"shell:echo hi".to_vec());
            assert_eq!(next, packet.len());
        }
        _ => panic!("expected a block"),
    }
}

#[test]
fn length_prefix_accepts_hex_of_either_case() {
    assert_eq!(parse_length_prefix(b"001f").unwrap(), 31);
    assert_eq!(parse_length_prefix(b"FFFF").unwrap(), 65535);
    assert!(matches!(parse_length_prefix(b"00g1"), Err(AdbError::ProtocolError { .. })));
    assert!(matches!(parse_length_prefix(b"01"), Err(AdbError::ProtocolError { .. })));
}

#[test]
fn status_words() {
    assert!(is_okay_response(b"OKAY"));
    assert!(!is_okay_response(b"OKAYX"));
    assert!(is_fail_response(b"FAIL"));
    assert_eq!(read_status(b"OKAY", 0, "host:kill").unwrap().unwrap(), 4);
    assert!(read_status(b"OKA", 0, "host:kill").is_none());
    match read_status(b"FAIL0006no dev", 0, "host:devices") {
        Some(Err(AdbError::CommandFailed { command, reason })) => {
            assert_eq!(command, "host:devices");
            assert_eq!(reason, "no dev");
        }
        _ => panic!("expected a failure"),
    }
    assert!(read_status(b"FAIL0006no", 0, "x").is_none());
    assert!(matches!(read_status(b"WHAT", 0, "x"), Some(Err(AdbError::ProtocolError { .. }))));
}

#[test]
fn sync_request_layout() {
    let mut expected = b"LIST".to_vec();
    expected.extend_from_slice(&[7, 0, 0, 0]);
    expected.extend_from_slice(b"/sdcard");
    assert_eq!(sync_request("LIST", "/sdcard"), expected);
}

#[test]
fn file_info_little_endian() {
    let mut data = vec![0xedu8, 0x41, 0, 0];
    data.extend_from_slice(&300u32.to_le_bytes());
    data.extend_from_slice(&1710556393u32.to_le_bytes());
    let f = parse_file_info(&data, "/a").unwrap();
    assert_eq!(f.mode, 0o40755);
    assert_eq!(f.size, 300);
    assert_eq!(f.mtime, 1710556393);
    assert_eq!(f.path, "/a");
    assert!(parse_file_info(&data[..11], "/a").is_err());
}

#[test]
fn list_decode_one_entry() {
    let mut data = b"DENT".to_vec();
    data.extend_from_slice(&0o755u32.to_le_bytes());
    data.extend_from_slice(&0u32.to_le_bytes());
    data.extend_from_slice(&1710556393u32.to_le_bytes());
    data.extend_from_slice(&7u32.to_le_bytes());
    data.extend_from_slice(b".studio");
    data.extend_from_slice(b"DONE");
    data.extend_from_slice(&[0u8; 16]);
    let entries = read_listing(&data).unwrap().unwrap();
    assert_eq!(entries.len(), 1);
    assert_eq!(entries[0].mode, 0o755);
    assert_eq!(entries[0].size, 0);
    assert_eq!(entries[0].mtime, 1710556393);
    assert_eq!(entries[0].path, ".studio");
    assert!(read_listing(&data[..30]).is_none());
}

#[test]
fn list_rejects_unknown_tag() {
    let mut data = b"DENX".to_vec();
    data.extend_from_slice(&[0u8; 16]);
    assert!(matches!(read_dent(&data, 0), Some(Err(AdbError::ProtocolError { .. }))));
}

#[test]
fn stat_decode_present() {
    let mut data = b"STAT".to_vec();
    data.extend_from_slice(&[0u8; 8]);
    data.extend_from_slice(&1u32.to_le_bytes());
    let (f, next) = read_stat(&data, 0, "/x").unwrap().unwrap();
    assert!(f.is_present());
    assert_eq!(next, 16);
    let mut zero = b"STAT".to_vec();
    zero.extend_from_slice(&[0u8; 12]);
    assert!(!read_stat(&zero, 0, "/x").unwrap().unwrap().0.is_present());
    assert!(matches!(read_stat(b"STAX000000000000", 0, "/x"), Some(Err(AdbError::ProtocolError { .. }))));
}

#[test]
fn chunks_and_stream_end() {
    let mut data = data_chunk(b"xyz");
    assert_eq!(&data[..8], &[68, 65, 84, 65, 3, 0, 0, 0]);
    data.extend(done_chunk(0));
    match read_chunk(&data, 0) {
        Some(Ok((Some(b), next))) => {
            assert_eq!(b, b"xyz".to_vec());
            assert_eq!(next, 11);
        }
        _ => panic!("expected data"),
    }
    assert!(matches!(read_chunk(&data, 11), Some(Ok((None, 15)))));
    let items = content_stream(&data[..11]);
    assert_eq!(items.len(), 2);
    assert!(matches!(items[1], Err(AdbError::ProtocolError { .. })));
    let bad = content_stream(b"JUNK");
    assert_eq!(bad.len(), 1);
}

#[test]
fn send_request_carries_mode() {
    let mut expected = b"SEND".to_vec();
    expected.extend_from_slice(&12u32.to_le_bytes());
    expected.extend_from_slice(b"/sdcard/a,33");
    assert_eq!(send_request("/sdcard/a", 33), expected);
}

#[test]
fn push_body_is_chunked() {
    let content = vec![7u8; 65536 + 10];
    let body = send_body(&content, 5);
    assert_eq!(&body[..8], &[68, 65, 84, 65, 0, 0, 1, 0]);
    let second = 8 + 65536;
    assert_eq!(&body[second..second + 8], &[68, 65, 84, 65, 10, 0, 0, 0]);
    assert_eq!(&body[body.len() - 8..], &[68, 79, 78, 69, 5, 0, 0, 0]);
    assert_eq!(send_body(&[], 0), b"DONE\0\0\0\0".to_vec());
    assert_eq!(read_sync_status(b"OKAY\0\0\0\0", 0).unwrap().unwrap(), 8);
    match read_sync_status(b"FAIL\x04\0\0\0full", 0) {
        Some(Err(AdbError::CommandFailed { reason, .. })) => assert_eq!(reason, "full"),
        _ => panic!("expected a refusal"),
    }
}

#[test]
fn push_sync_request_and_answer() {
    let d = BaseDevice::new(BaseClient::default(), Some("S".to_string()), None);
    let req = d.push_sync("/sdcard/a", 33, b"hi", 9).unwrap();
    assert_eq!(req.commands[1], "sync:");
    assert_eq!(&req.sync[..4], b"SEND");
    assert!(matches!(req.decode(b"OKAYOKAYOKAY\0\0\0\0"), Ok(Reply::Done)));
    assert!(matches!(req.decode(b"OKAYOKAYFAIL\x02\0\0\0no"), Err(AdbError::CommandFailed { .. })));
    assert!(matches!(req.decode(b"OKAYFAIL0004nope"), Err(AdbError::CommandFailed { .. })));
}
