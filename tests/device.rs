use radb::command::AdbCommand;
use radb::device::{BaseClient, BaseDevice};
use radb::errors::AdbError;
use radb::net_info::NetworkType;
use radb::request::ReplyKind;

fn by_serial(s: &str) -> BaseDevice {
    BaseDevice::new(BaseClient::default(), Some(s.to_string()), None)
}

fn by_id(t: u8) -> BaseDevice {
    BaseDevice::new(BaseClient::default(), None, Some(t))
}

#[test]
fn transport_prefix_selection() {
    assert_eq!(by_serial("S").get_open_transport_prefix(Some("get-state")).unwrap(), "host-serial:S:get-state");
    assert_eq!(by_id(7).get_open_transport_prefix(Some("get-state")).unwrap(), "host-transport-id:7:get-state");
    assert_eq!(by_serial("S").get_open_transport_prefix(None).unwrap(), "host:transport:S");
    assert_eq!(by_id(255).get_open_transport_prefix(None).unwrap(), "host-transport-id:255");
    let mut d = by_serial("S");
    d.serial = None;
    assert!(matches!(d.get_open_transport_prefix(None), Err(AdbError::DeviceNotFound { .. })));
}

#[test]
fn sub_commands_read_a_block() {
    let r = by_serial("S").get_state().unwrap();
    assert_eq!(r.commands, vec!["host-serial:S:get-state".to_string()]);
    assert_eq!(r.reply, ReplyKind::Block);
    let (a, b, c) = by_serial("S").get_info().unwrap();
    assert_eq!(a.commands[0], "host-serial:S:get-serialno");
    assert_eq!(b.commands[0], "host-serial:S:get-devpath");
    assert_eq!(c.commands[0], "host-serial:S:get-state");
}

#[test]
fn shell_wrappers() {
    let d = by_serial("S");
    assert_eq!(d.keyevent("3").unwrap().commands[1], "shell:input keyevent 3");
    assert_eq!(d.switch_screen(true).unwrap().commands[1], "shell:input keyevent 224");
    assert_eq!(d.switch_screen(false).unwrap().commands[1], "shell:input keyevent 223");
    assert_eq!(d.click(10, -5).unwrap().commands[1], "shell:input tap 10 -5");
    assert_eq!(d.swipe(1, 2, 3, 4, 500).unwrap().commands[1], "shell:input swipe 1 2 3 4 500");
    assert_eq!(d.send_keys("hello world").unwrap().commands[1], "shell:input text \"hello world\"");
    assert_eq!(d.switch_wifi(false).unwrap().commands[1], "shell:svc wifi disable");
    assert_eq!(d.uninstall("com.a").unwrap().commands[1], "shell:am uninstall com.a");
    assert_eq!(d.app_start("com.a/.Main").unwrap().commands[1], "shell:am start -n com.a/.Main");
    assert_eq!(d.app_stop("com.a").unwrap().commands[1], "shell:am force-stop com.a");
    assert_eq!(d.app_clear_data("com.a").unwrap().commands[1], "shell:pm clear com.a");
    assert_eq!(d.install_remote("/data/local/tmp/a.apk").unwrap().commands[1], "shell:pm install -r -t /data/local/tmp/a.apk");
    assert_eq!(d.if_screen_on().unwrap().commands[1], "shell:dumpsys power");
    assert_eq!(d.remove("/sdcard/x").unwrap().commands[1], "shell:rm /sdcard/x");
    assert_eq!(d.get_sdk_version().unwrap().commands[1], "shell:getprop ro.build.version.sdk");
    assert_eq!(d.get_device_abi().unwrap().commands[1], "shell:getprop ro.product.cpu.abi");
    assert_eq!(d.get_device_gpu().unwrap().commands[1], "shell:dumpsys SurfaceFlinger");
    let (a, b) = d.switch_airplane_mode(true).unwrap();
    assert_eq!(a.commands[1], "shell:settings put global airplane_mode_on 1");
    assert_eq!(b.commands[1], "shell:am broadcast -a android.intent.action.AIRPLANE_MODE --ez state true");
}

#[test]
fn forward_and_reverse_commands() {
    let d = by_serial("S");
    assert_eq!(d.forward("tcp:1", "tcp:2", false).unwrap().commands, vec!["host-serial:S:forward:tcp:1;tcp:2".to_string()]);
    assert_eq!(d.forward("tcp:1", "tcp:2", true).unwrap().commands[0], "host-serial:S:forward:norebind:tcp:1;tcp:2");
    assert_eq!(d.forward_new_port(5000, 9000).unwrap().commands[0], "host-serial:S:forward:tcp:5000;tcp:9000");
    let r = d.reverse("tcp:2", "tcp:1", true).unwrap();
    assert_eq!(r.commands, vec!["host:transport:S".to_string(), "reverse:forward:norebind:tcp:2;tcp:1".to_string()]);
    assert_eq!(d.tcpip(5555).unwrap().commands[1], "tcpip:5555");
    let c = d.create_connection(NetworkType::Unix, "scrcpy").unwrap();
    assert_eq!(c.commands[1], "localabstract:scrcpy");
    assert_eq!(c.reply, ReplyKind::Stream);
}

#[test]
fn sync_requests_enter_sync_mode() {
    let d = by_serial("S");
    let r = d.iter_directory("/sdcard").unwrap();
    assert_eq!(r.commands, vec!["host:transport:S".to_string(), "sync:".to_string()]);
    assert_eq!(&r.sync[..4], b"LIST");
    assert_eq!(r.reply, ReplyKind::SyncList);
    assert_eq!(&d.read_text("/a").unwrap().sync[..4], b"RECV");
    let (cap, pull, rm) = d.screenshot();
    assert_eq!(cap.unwrap().commands[1], "shell:screencap -p /sdcard/screen.png");
    assert_eq!(&pull.unwrap().sync[8..], b"/sdcard/screen.png");
    assert_eq!(rm.unwrap().commands[1], "shell:rm /sdcard/screen.png");
}

#[test]
fn push_arguments_need_a_serial() {
    assert_eq!(by_serial("S").push("a.txt", "/sdcard/a.txt").unwrap(), vec!["-s", "S", "push", "a.txt", "/sdcard/a.txt"]);
    assert!(matches!(by_id(1).push("a", "b"), Err(AdbError::DeviceNotFound { .. })));
}

#[test]
fn logcat_requests() {
    let d = by_serial("S");
    let (clear, stream) = d.logcat(true, None).unwrap();
    assert_eq!(clear.unwrap().commands[1], "shell:logcat -c");
    assert_eq!(stream.commands[1], "shell:logcat -v time");
    assert_eq!(stream.reply, ReplyKind::Stream);
    let extra = AdbCommand::single("logcat -s Tag");
    let (clear, stream) = d.logcat(false, Some(&extra)).unwrap();
    assert!(clear.is_none());
    assert_eq!(stream.commands[1], "shell:logcat -s Tag");
}

#[test]
fn wlan_probes() {
    let probes = by_serial("S").wlan_ip().unwrap();
    assert_eq!(probes.len(), 5);
    assert_eq!(probes[0].commands[1], "shell:ip addr show dev wlan0");
    assert_eq!(probes[4].commands[1], "shell:ip route get 1.1.1.1");
}

#[test]
fn list2cmdline_quotes_when_needed() {
    assert_eq!(BaseDevice::list2cmdline(&["ls", "-l", "my dir"]), "ls -l \"my dir\"");
}

#[test]
fn test_device_creation() {
    let device = BaseDevice::new(BaseClient::new("127.0.0.1", 5037, 3), Some("3508719615000K5".to_string()), None);
    assert_eq!(device.serial, Some("3508719615000K5".to_string()));
}

#[test]
fn test_list2cmdline() {
    let args = ["echo", "hello world", "test"];
    let cmdline = BaseDevice::list2cmdline(&args);
    assert!(cmdline.contains("\"hello world\""));
}
