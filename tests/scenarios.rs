use radb::beans::{extract_forward_item_from_output, parse_device_list_lines};
use radb::client::list_devices;
use radb::device::{BaseClient, BaseDevice};
use radb::errors::AdbError;
use radb::outputs::{collect_content, output_text};
use radb::request::Reply;
use radb::wire::build_command_packet;

fn device(serial: &str) -> BaseDevice {
    BaseDevice::new(BaseClient::default(), Some(serial.to_string()), None)
}

fn chunk(tag: &[u8], body: &[u8]) -> Vec<u8> {
    let mut v = tag.to_vec();
    v.extend_from_slice(&(body.len() as u32).to_le_bytes());
    v.extend_from_slice(body);
    v
}

#[test]
fn list_devices_gives_two_records() {
    let req = list_devices();
    assert_eq!(build_command_packet(&req.commands[0]), b"000chost:devices".to_vec());
    let body = "emulator-5554\tdevice\nemulator-5556\toffline\n";
    let mut reply = b"OKAY".to_vec();
    reply.extend_from_slice(format!("{:04x}", body.len()).as_bytes());
    reply.extend_from_slice(body.as_bytes());
    let text = match req.decode(&reply) {
        Ok(Reply::Text(t)) => t,
        _ => panic!("expected a block"),
    };
    let devices = parse_device_list_lines(&text);
    assert_eq!(devices.len(), 2);
    assert_eq!(devices[0].serial, "emulator-5554");
    assert_eq!(devices[0].state, "device");
    assert_eq!(devices[1].serial, "emulator-5556");
    assert_eq!(devices[1].state, "offline");
}

#[test]
fn shell_echo_returns_output() {
    let req = device("emulator-5554").shell(&["echo", "hi"]).unwrap();
    assert_eq!(req.commands, vec!["host:transport:emulator-5554".to_string(), "shell:echo hi".to_string()]);
    assert_eq!(build_command_packet(&req.commands[1]), b"000dshell:echo hi".to_vec());
    match req.decode(b"OKAYOKAYhi\n") {
        Ok(Reply::Bytes(b)) => assert_eq!(output_text(&b), "hi\n"),
        _ => panic!("expected the output"),
    }
}

#[test]
fn stat_missing_path_does_not_exist() {
    let req = device("emulator-5554").path_exists("/nope").unwrap();
    let mut expected = b"STAT".to_vec();
    expected.extend_from_slice(&[5, 0, 0, 0]);
    expected.extend_from_slice(b"/nope");
    assert_eq!(req.sync, expected);
    let mut reply = b"OKAYOKAYSTAT".to_vec();
    reply.extend_from_slice(&[0u8; 12]);
    match req.decode(&reply) {
        Ok(Reply::Stat(f)) => {
            assert!(!f.is_present());
            assert_eq!(f.path, "/nope");
        }
        _ => panic!("expected a stat"),
    }
}

#[test]
fn pull_three_chunks() {
    let req = device("emulator-5554").pull("/sdcard/a.txt").unwrap();
    let mut reply = b"OKAYOKAY".to_vec();
    reply.extend(chunk(b"DATA", b"abc"));
    reply.extend(chunk(b"DATA", b"de"));
    reply.extend_from_slice(b"DONE");
    let items = match req.decode(&reply) {
        Ok(Reply::Content(items)) => items,
        _ => panic!("expected content"),
    };
    let content = collect_content(items).unwrap();
    assert_eq!(content, b"abcde".to_vec());
    assert_eq!(content.len(), 5);
}

#[test]
fn fail_mid_stream() {
    let req = device("emulator-5554").iter_content("/data/x").unwrap();
    let mut reply = b"OKAYOKAY".to_vec();
    reply.extend(chunk(b"DATA", b"ok"));
    reply.extend(chunk(b"FAIL", b"not allowed"));
    let items = match req.decode(&reply) {
        Ok(Reply::Content(items)) => items,
        _ => panic!("expected content"),
    };
    assert_eq!(items.len(), 2);
    assert_eq!(items[0].as_ref().unwrap(), &b"ok".to_vec());
    match &items[1] {
        Err(AdbError::CommandFailed { reason, .. }) => assert_eq!(reason, "not allowed"),
        _ => panic!("expected a command failure"),
    }
}

#[test]
fn forward_remote_port_reuses_existing() {
    let dev = device("S");
    let req = dev.forward_list().unwrap();
    assert_eq!(req.commands, vec!["host-serial:S:list-forward".to_string()]);
    let body = "S tcp:41000 tcp:9000\n";
    let mut reply = b"OKAY".to_vec();
    reply.extend_from_slice(format!("{:04x}", body.len()).as_bytes());
    reply.extend_from_slice(body.as_bytes());
    let text = match req.decode(&reply) {
        Ok(Reply::Text(t)) => t,
        _ => panic!("expected a block"),
    };
    let items = extract_forward_item_from_output(&text);
    assert_eq!(dev.forward_remote_port(9000, &items), Some(41000));
    assert_eq!(dev.forward_remote_port(9001, &items), None);
    assert_eq!(device("T").forward_remote_port(9000, &items), None);
}

#[test]
fn reply_completeness_decides_when_to_stop_reading() {
    let req = device("S").pull("/a").unwrap();
    let mut data = b"OKAYOKAY".to_vec();
    data.extend(chunk(b"DATA", b"abc"));
    assert!(!req.is_complete(&data, 8));
    data.extend_from_slice(b"DONE");
    assert!(req.is_complete(&data, 8));
    let shell = device("S").shell(&["ls"]).unwrap();
    assert!(!shell.is_complete(b"OKAYOKAYfile\n", 8));
    let state = device("S").get_state().unwrap();
    assert!(!state.is_complete(b"OKAY0006dev", 4));
    assert!(state.is_complete(b"OKAY0006device", 4));
}
