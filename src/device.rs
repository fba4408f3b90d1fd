//! Requests addressed to one device: the selector that pins a connection,
//! device sub-commands, second-stage commands and shell commands.
use vstd::prelude::*;
use vstd::string::*;
use crate::beans::{extract_port_from_tcp_spec, forward_view, forwards_of, tcp_port, ForwardItem};
use crate::command::{escape_args, list2cmdline, strs_of, texts_of, AdbCommand};
use crate::errors::AdbError;
use crate::request::{plain_request, ReplyKind, Request, RequestView};
use crate::net_info::NetworkType;
use crate::bytes::{append_bytes, le_bytes};
use crate::sync::{data_chunks, done_word, send_body, send_request, send_target, sync_request, sync_request_bytes};
use crate::wire::word;
use crate::text::{text_eq, concat, decimal, push_decimal, signed_decimal, signed_decimal_string};

verus! {

/// Where the ADB server listens, and the read timeout in seconds.
#[derive(Debug)]
pub struct BaseClient {
    pub host: String,
    pub port: u16,
    pub socket_timeout: u32,
}

impl BaseClient {
    pub fn new(host: &str, port: u16, socket_timeout: u32) -> (r: BaseClient)
        ensures
            r.host@ == host@,
            r.port == port,
            r.socket_timeout == socket_timeout,
    {
        BaseClient { host: String::from_str(host), port, socket_timeout }
    }
}

impl Default for BaseClient {
    /// `127.0.0.1:5037` with a read timeout of three seconds.
    fn default() -> (r: BaseClient)
        ensures
            r.host@ == "127.0.0.1"@,
            r.port == 5037,
            r.socket_timeout == 3,
    {
        BaseClient::new("127.0.0.1", 5037, 3)
    }
}

/// The selector that pins a connection to a device, with an optional device
/// sub-command; the transport id wins over the serial.
pub open spec fn transport_prefix(
    serial: Option<Seq<char>>,
    transport_id: Option<u8>,
    command: Option<Seq<char>>,
) -> Option<Seq<char>> {
    match (command, transport_id, serial) {
        (Some(c), Some(t), _) => Some("host-transport-id:"@ + decimal(t as nat) + ":"@ + c),
        (Some(c), None, Some(s)) => Some("host-serial:"@ + s + ":"@ + c),
        (None, Some(t), _) => Some("host-transport-id:"@ + decimal(t as nat)),
        (None, None, Some(s)) => Some("host:transport:"@ + s),
        (_, None, None) => None,
    }
}

/// One device of an ADB server, named by serial or by transport id.
#[derive(Debug)]
pub struct BaseDevice {
    pub client: BaseClient,
    pub serial: Option<String>,
    pub transport_id: Option<u8>,
    /// Properties read so far, by key.
    pub properties: Vec<(String, String)>,
}

/// The serial as text.
pub open spec fn serial_of(d: BaseDevice) -> Option<Seq<char>> {
    match d.serial {
        Some(s) => Some(s@),
        None => None,
    }
}

/// The selector of a device for an optional sub-command.
pub open spec fn prefix_of(d: BaseDevice, command: Option<Seq<char>>) -> Option<Seq<char>> {
    transport_prefix(serial_of(d), d.transport_id, command)
}

/// A device sub-command answered on the selector's own connection.
pub open spec fn transport_view(d: BaseDevice, command: Seq<char>, reply: ReplyKind) -> Option<RequestView> {
    match prefix_of(d, Some(command)) {
        Some(p) => Some(plain_request(seq![p], reply)),
        None => None,
    }
}

/// A second-stage command after the selector.
pub open spec fn stage2_view(d: BaseDevice, second: Seq<char>, reply: ReplyKind) -> Option<RequestView> {
    match prefix_of(d, None) {
        Some(p) => Some(plain_request(seq![p, second], reply)),
        None => None,
    }
}

/// A shell command line run on the device.
pub open spec fn shell_line_view(d: BaseDevice, line: Seq<char>) -> Option<RequestView> {
    stage2_view(d, "shell:"@ + line, ReplyKind::UntilClose)
}

/// Shell arguments run on the device.
pub open spec fn shell_view(d: BaseDevice, args: Seq<Seq<char>>) -> Option<RequestView> {
    shell_line_view(d, escape_args(args))
}

/// A SYNC request after `sync:`.
pub open spec fn sync_view(d: BaseDevice, tag: Seq<u8>, path: &str, reply: ReplyKind) -> Option<RequestView> {
    match stage2_view(d, "sync:"@, ReplyKind::Nothing) {
        Some(q) => Some(RequestView {
            commands: q.commands,
            sync: sync_request_bytes(tag, path.spec_bytes()),
            path: path@,
            reply,
        }),
        None => None,
    }
}

/// Whether a built SYNC request is the described one; a path whose length
/// does not fit in 32 bits cannot be sent.
pub open spec fn built_sync(r: Result<Request, AdbError>, d: BaseDevice, tag: Seq<u8>, path: &str, reply: ReplyKind) -> bool {
    if path.spec_bytes().len() > u32::MAX {
        r matches Err(e) && e is ProtocolError
    } else {
        built(r, sync_view(d, tag, path, reply))
    }
}

/// The device sub-command that forwards `local` to `remote`.
pub open spec fn forward_command(local: Seq<char>, remote: Seq<char>, norebind: bool) -> Seq<char> {
    "forward:"@ + (if norebind { "norebind:"@ } else { ""@ }) + local + ";"@ + remote
}

/// The local port of the first forwarding in `items` from the device with
/// `serial` to `remote` whose local end is `tcp:<port>`.
pub open spec fn first_forward(
    serial: Option<Seq<char>>,
    remote: Seq<char>,
    items: Seq<(Seq<char>, Seq<char>, Seq<char>)>,
) -> Option<u16>
    decreases items.len(),
{
    if items.len() == 0 {
        None
    } else if serial == Some(items[0].0) && items[0].2 == remote && tcp_port(items[0].1) is Some {
        tcp_port(items[0].1)
    } else {
        first_forward(serial, remote, items.subrange(1, items.len() as int))
    }
}

/// The cached properties, as texts.
pub open spec fn props_of(v: Seq<(String, String)>) -> Seq<(Seq<char>, Seq<char>)> {
    Seq::new(v.len(), |i: int| (v[i].0@, v[i].1@))
}

/// The latest value remembered for `key`.
pub open spec fn cached_value(props: Seq<(Seq<char>, Seq<char>)>, key: Seq<char>) -> Option<Seq<char>>
    decreases props.len(),
{
    if props.len() == 0 {
        None
    } else if props.last().0 == key {
        Some(props.last().1)
    } else {
        cached_value(props.drop_last(), key)
    }
}

/// Whether a built request is the described one; a device with neither
/// serial nor transport id cannot be addressed.
pub open spec fn built(r: Result<Request, AdbError>, v: Option<RequestView>) -> bool {
    match v {
        Some(q) => r matches Ok(req) && req@ == q,
        None => r matches Err(e) && e is DeviceNotFound,
    }
}

fn unaddressable() -> (e: AdbError)
    ensures
        e is DeviceNotFound,
{
    AdbError::device_not_found("serial or transport_id must be set")
}

impl BaseDevice {
    pub fn new(client: BaseClient, serial: Option<String>, transport_id: Option<u8>) -> (r: BaseDevice)
        requires
            serial is Some || transport_id is Some,
        ensures
            r.client == client,
            r.serial == serial,
            r.transport_id == transport_id,
            r.properties@.len() == 0,
    {
        BaseDevice { client, serial, transport_id, properties: Vec::new() }
    }

    /// The selector for this device and an optional sub-command.
    pub fn get_open_transport_prefix(&self, command: Option<&str>) -> (r: Result<String, AdbError>)
        ensures
            match prefix_of(*self, match command { Some(c) => Some(c@), None => None }) {
                Some(p) => r matches Ok(s) && s@ == p,
                None => r matches Err(e) && e is DeviceNotFound,
            },
    {
        match (command, self.transport_id, &self.serial) {
            (Some(c), Some(t), _) => {
                let mut s = String::from_str("host-transport-id:");
                push_decimal(&mut s, t as u64);
                s.append(":");
                s.append(c);
                Ok(s)
            },
            (Some(c), None, Some(serial)) => {
                let mut s = String::from_str("host-serial:");
                s.append(serial.as_str());
                s.append(":");
                s.append(c);
                Ok(s)
            },
            (None, Some(t), _) => {
                let mut s = String::from_str("host-transport-id:");
                push_decimal(&mut s, t as u64);
                Ok(s)
            },
            (None, None, Some(serial)) => {
                let mut s = String::from_str("host:transport:");
                s.append(serial.as_str());
                Ok(s)
            },
            (_, None, None) => Err(unaddressable()),
        }
    }

    fn transport_request(&self, command: &str, reply: ReplyKind) -> (r: Result<Request, AdbError>)
        ensures
            built(r, transport_view(*self, command@, reply)),
    {
        match self.get_open_transport_prefix(Some(command)) {
            Err(e) => Err(e),
            Ok(p) => {
                let ghost pv = p@;
                let mut commands: Vec<String> = Vec::new();
                commands.push(p);
                assert(texts_of(commands@) =~= seq![pv]);
                Ok(Request { commands, sync: Vec::new(), path: String::new(), reply })
            },
        }
    }

    fn stage2_request(&self, second: String, reply: ReplyKind) -> (r: Result<Request, AdbError>)
        ensures
            built(r, stage2_view(*self, second@, reply)),
    {
        match self.get_open_transport_prefix(None) {
            Err(e) => Err(e),
            Ok(p) => {
                let ghost pv = p@;
                let ghost sv = second@;
                let mut commands: Vec<String> = Vec::new();
                commands.push(p);
                commands.push(second);
                assert(texts_of(commands@) =~= seq![pv, sv]);
                Ok(Request { commands, sync: Vec::new(), path: String::new(), reply })
            },
        }
    }

    /// Reads one block of text answering a device sub-command.
    pub fn get_with_command(&self, command: &str) -> (r: Result<Request, AdbError>)
        ensures
            built(r, transport_view(*self, command@, ReplyKind::Block)),
    {
        self.transport_request(command, ReplyKind::Block)
    }

    /// `get-state`: the device's state, such as `device`.
    pub fn get_state(&self) -> (r: Result<Request, AdbError>)
        ensures
            built(r, transport_view(*self, "get-state"@, ReplyKind::Block)),
    {
        self.get_with_command("get-state")
    }

    /// `get-serialno`
    pub fn get_serialno(&self) -> (r: Result<Request, AdbError>)
        ensures
            built(r, transport_view(*self, "get-serialno"@, ReplyKind::Block)),
    {
        self.get_with_command("get-serialno")
    }

    /// `get-devpath`
    pub fn get_devpath(&self) -> (r: Result<Request, AdbError>)
        ensures
            built(r, transport_view(*self, "get-devpath"@, ReplyKind::Block)),
    {
        self.get_with_command("get-devpath")
    }

    /// `get-features`
    pub fn get_features(&self) -> (r: Result<Request, AdbError>)
        ensures
            built(r, transport_view(*self, "get-features"@, ReplyKind::Block)),
    {
        self.get_with_command("get-features")
    }

    /// Escapes each argument and joins them with single spaces.
    pub fn list2cmdline(args: &[&str]) -> (r: String)
        ensures
            r@ == escape_args(strs_of(args@)),
    {
        list2cmdline(args)
    }

    /// Runs a shell command line; the reply is its output until the device
    /// closes the stream.
    pub fn shell_line(&self, line: &str) -> (r: Result<Request, AdbError>)
        ensures
            built(r, shell_line_view(*self, line@)),
    {
        self.stage2_request(concat("shell:", line), ReplyKind::UntilClose)
    }

    /// Runs shell arguments, each escaped.
    pub fn shell(&self, command: &[&str]) -> (r: Result<Request, AdbError>)
        ensures
            built(r, shell_view(*self, strs_of(command@))),
    {
        let line = list2cmdline(command);
        self.shell_line(line.as_str())
    }

    /// Runs a command given as an `AdbCommand`.
    pub fn shell_command(&self, command: &AdbCommand) -> (r: Result<Request, AdbError>)
        ensures
            built(r, shell_line_view(*self, command.line())),
    {
        let line = command.get_command();
        self.shell_line(line.as_str())
    }

    /// `input keyevent <keycode>`
    pub fn keyevent(&self, keycode: &str) -> (r: Result<Request, AdbError>)
        ensures
            built(r, shell_view(*self, seq!["input"@, "keyevent"@, keycode@])),
    {
        let args = vec!["input", "keyevent", keycode];
        assert(strs_of(args@) =~= seq!["input"@, "keyevent"@, keycode@]);
        self.shell(args.as_slice())
    }

    /// Runs shell arguments and hands the output stream to the caller.
    pub fn shell_stream(&self, command: &[&str]) -> (r: Result<Request, AdbError>)
        ensures
            built(r, stage2_view(*self, "shell:"@ + escape_args(strs_of(command@)), ReplyKind::Stream)),
    {
        let line = list2cmdline(command);
        self.stage2_request(concat("shell:", line.as_str()), ReplyKind::Stream)
    }

    /// Runs shell arguments; the output is to be trimmed with `trim_output`.
    pub fn shell_trim(&self, command: &[&str]) -> (r: Result<Request, AdbError>)
        ensures
            built(r, shell_view(*self, strs_of(command@))),
    {
        self.shell(command)
    }

    /// `keyevent 224` wakes the screen, `keyevent 223` puts it to sleep.
    pub fn switch_screen(&self, status: bool) -> (r: Result<Request, AdbError>)
        ensures
            built(r, shell_view(*self, seq!["input"@, "keyevent"@, if status { "224"@ } else { "223"@ }])),
    {
        if status {
            self.keyevent("224")
        } else {
            self.keyevent("223")
        }
    }

    /// The setting write and the broadcast that switch airplane mode.
    pub fn switch_airplane_mode(&self, status: bool) -> (r: Result<(Request, Request), AdbError>)
        ensures
            match (
                shell_view(*self, seq!["settings"@, "put"@, "global"@, "airplane_mode_on"@, if status { "1"@ } else { "0"@ }]),
                shell_view(*self, seq!["am"@, "broadcast"@, "-a"@, "android.intent.action.AIRPLANE_MODE"@, "--ez"@, "state"@, if status { "true"@ } else { "false"@ }]),
            ) {
                (Some(a), Some(b)) => r matches Ok((x, y)) && x@ == a && y@ == b,
                _ => r matches Err(e) && e is DeviceNotFound,
            },
    {
        let flag = if status { "1" } else { "0" };
        let word = if status { "true" } else { "false" };
        let setting = vec!["settings", "put", "global", "airplane_mode_on", flag];
        let broadcast = vec!["am", "broadcast", "-a", "android.intent.action.AIRPLANE_MODE", "--ez", "state", word];
        assert(strs_of(setting@) =~= seq!["settings"@, "put"@, "global"@, "airplane_mode_on"@, flag@]);
        assert(strs_of(broadcast@) =~= seq!["am"@, "broadcast"@, "-a"@, "android.intent.action.AIRPLANE_MODE"@, "--ez"@, "state"@, word@]);
        match (self.shell(setting.as_slice()), self.shell(broadcast.as_slice())) {
            (Ok(a), Ok(b)) => Ok((a, b)),
            (Err(e), _) => Err(e),
            (_, Err(e)) => Err(e),
        }
    }

    /// `svc wifi enable` or `svc wifi disable`.
    pub fn switch_wifi(&self, status: bool) -> (r: Result<Request, AdbError>)
        ensures
            built(r, shell_view(*self, seq!["svc"@, "wifi"@, if status { "enable"@ } else { "disable"@ }])),
    {
        let action = if status { "enable" } else { "disable" };
        let args = vec!["svc", "wifi", action];
        assert(strs_of(args@) =~= seq!["svc"@, "wifi"@, action@]);
        self.shell(args.as_slice())
    }

    /// `input tap <x> <y>`
    pub fn click(&self, x: i32, y: i32) -> (r: Result<Request, AdbError>)
        ensures
            built(r, shell_view(*self, seq!["input"@, "tap"@, signed_decimal(x as int), signed_decimal(y as int)])),
    {
        let xs = signed_decimal_string(x);
        let ys = signed_decimal_string(y);
        let args = vec!["input", "tap", xs.as_str(), ys.as_str()];
        assert(strs_of(args@) =~= seq!["input"@, "tap"@, xs@, ys@]);
        self.shell(args.as_slice())
    }

    /// `input swipe <x1> <y1> <x2> <y2> <duration>`
    pub fn swipe(&self, x1: i32, y1: i32, x2: i32, y2: i32, duration: i32) -> (r: Result<Request, AdbError>)
        ensures
            built(r, shell_view(*self, seq!["input"@, "swipe"@, signed_decimal(x1 as int), signed_decimal(y1 as int),
                signed_decimal(x2 as int), signed_decimal(y2 as int), signed_decimal(duration as int)])),
    {
        let a = signed_decimal_string(x1);
        let b = signed_decimal_string(y1);
        let c = signed_decimal_string(x2);
        let d = signed_decimal_string(y2);
        let e = signed_decimal_string(duration);
        let args = vec!["input", "swipe", a.as_str(), b.as_str(), c.as_str(), d.as_str(), e.as_str()];
        assert(strs_of(args@) =~= seq!["input"@, "swipe"@, a@, b@, c@, d@, e@]);
        self.shell(args.as_slice())
    }

    /// `input text <keys>`
    pub fn send_keys(&self, keys: &str) -> (r: Result<Request, AdbError>)
        ensures
            built(r, shell_view(*self, seq!["input"@, "text"@, keys@])),
    {
        let args = vec!["input", "text", keys];
        assert(strs_of(args@) =~= seq!["input"@, "text"@, keys@]);
        self.shell(args.as_slice())
    }

    /// `am uninstall <package>`
    pub fn uninstall(&self, package_name: &str) -> (r: Result<Request, AdbError>)
        ensures
            built(r, shell_view(*self, seq!["am"@, "uninstall"@, package_name@])),
    {
        let args = vec!["am", "uninstall", package_name];
        assert(strs_of(args@) =~= seq!["am"@, "uninstall"@, package_name@]);
        self.shell(args.as_slice())
    }

    /// `am force-stop <package>`
    pub fn app_stop(&self, package_name: &str) -> (r: Result<Request, AdbError>)
        ensures
            built(r, shell_view(*self, seq!["am"@, "force-stop"@, package_name@])),
    {
        let args = vec!["am", "force-stop", package_name];
        assert(strs_of(args@) =~= seq!["am"@, "force-stop"@, package_name@]);
        self.shell(args.as_slice())
    }

    /// `pm clear <package>`
    pub fn app_clear_data(&self, package_name: &str) -> (r: Result<Request, AdbError>)
        ensures
            built(r, shell_view(*self, seq!["pm"@, "clear"@, package_name@])),
    {
        let args = vec!["pm", "clear", package_name];
        assert(strs_of(args@) =~= seq!["pm"@, "clear"@, package_name@]);
        self.shell(args.as_slice())
    }

    /// `rm <path>`
    pub fn remove(&self, path: &str) -> (r: Result<Request, AdbError>)
        ensures
            built(r, shell_view(*self, seq!["rm"@, path@])),
    {
        let args = vec!["rm", path];
        assert(strs_of(args@) =~= seq!["rm"@, path@]);
        self.shell(args.as_slice())
    }

    /// `getprop <key>`; the output is to be trimmed
    pub fn get_prop(&self, property_key: &str) -> (r: Result<Request, AdbError>)
        ensures
            built(r, shell_view(*self, seq!["getprop"@, property_key@])),
    {
        let args = vec!["getprop", property_key];
        assert(strs_of(args@) =~= seq!["getprop"@, property_key@]);
        self.shell(args.as_slice())
    }

    /// `am start -n <package>`
    pub fn app_start(&self, package_name: &str) -> (r: Result<Request, AdbError>)
        ensures
            built(r, shell_view(*self, seq!["am"@, "start"@, "-n"@, package_name@])),
    {
        let args = vec!["am", "start", "-n", package_name];
        assert(strs_of(args@) =~= seq!["am"@, "start"@, "-n"@, package_name@]);
        self.shell(args.as_slice())
    }

    /// `pm install -r -t <path>`; `install_succeeded` judges the output.
    pub fn install_remote(&self, path: &str) -> (r: Result<Request, AdbError>)
        ensures
            built(r, shell_view(*self, seq!["pm"@, "install"@, "-r"@, "-t"@, path@])),
    {
        let args = vec!["pm", "install", "-r", "-t", path];
        assert(strs_of(args@) =~= seq!["pm"@, "install"@, "-r"@, "-t"@, path@]);
        self.shell(args.as_slice())
    }

    /// `dumpsys power`; `screen_is_on` judges the output.
    pub fn if_screen_on(&self) -> (r: Result<Request, AdbError>)
        ensures
            built(r, shell_view(*self, seq!["dumpsys"@, "power"@])),
    {
        let args = vec!["dumpsys", "power"];
        assert(strs_of(args@) =~= seq!["dumpsys"@, "power"@]);
        self.shell(args.as_slice())
    }

    /// `dumpsys SurfaceFlinger`; `gpu_line` picks the answer from the output.
    pub fn get_device_gpu(&self) -> (r: Result<Request, AdbError>)
        ensures
            built(r, shell_view(*self, seq!["dumpsys"@, "SurfaceFlinger"@])),
    {
        let args = vec!["dumpsys", "SurfaceFlinger"];
        assert(strs_of(args@) =~= seq!["dumpsys"@, "SurfaceFlinger"@]);
        self.shell(args.as_slice())
    }

    /// `getprop ro.build.version.sdk`; the output is to be trimmed.
    pub fn get_sdk_version(&self) -> (r: Result<Request, AdbError>)
        ensures
            built(r, shell_view(*self, seq!["getprop"@, "ro.build.version.sdk"@])),
    {
        self.get_prop("ro.build.version.sdk")
    }

    /// `getprop ro.build.version.release`; the output is to be trimmed.
    pub fn get_android_version(&self) -> (r: Result<Request, AdbError>)
        ensures
            built(r, shell_view(*self, seq!["getprop"@, "ro.build.version.release"@])),
    {
        self.get_prop("ro.build.version.release")
    }

    /// `getprop ro.product.model`; the output is to be trimmed.
    pub fn get_device_model(&self) -> (r: Result<Request, AdbError>)
        ensures
            built(r, shell_view(*self, seq!["getprop"@, "ro.product.model"@])),
    {
        self.get_prop("ro.product.model")
    }

    /// `getprop ro.product.brand`; the output is to be trimmed.
    pub fn get_device_brand(&self) -> (r: Result<Request, AdbError>)
        ensures
            built(r, shell_view(*self, seq!["getprop"@, "ro.product.brand"@])),
    {
        self.get_prop("ro.product.brand")
    }

    /// `getprop ro.product.manufacturer`; the output is to be trimmed.
    pub fn get_device_manufacturer(&self) -> (r: Result<Request, AdbError>)
        ensures
            built(r, shell_view(*self, seq!["getprop"@, "ro.product.manufacturer"@])),
    {
        self.get_prop("ro.product.manufacturer")
    }

    /// `getprop ro.product.product`; the output is to be trimmed.
    pub fn get_device_product(&self) -> (r: Result<Request, AdbError>)
        ensures
            built(r, shell_view(*self, seq!["getprop"@, "ro.product.product"@])),
    {
        self.get_prop("ro.product.product")
    }

    /// `getprop ro.product.cpu.abi`; the output is to be trimmed.
    pub fn get_device_abi(&self) -> (r: Result<Request, AdbError>)
        ensures
            built(r, shell_view(*self, seq!["getprop"@, "ro.product.cpu.abi"@])),
    {
        self.get_prop("ro.product.cpu.abi")
    }

    /// Enters SYNC mode and writes the request `command` for `path`.
    pub fn prepare_sync(&self, path: &str, command: &str, reply: ReplyKind) -> (r: Result<Request, AdbError>)
        ensures
            built_sync(r, *self, command.spec_bytes(), path, reply),
    {
        if path.as_bytes().len() > 0xFFFF_FFFFusize {
            return Err(AdbError::protocol_error("path too long"));
        }
        match self.stage2_request(String::from_str("sync:"), ReplyKind::Nothing) {
            Err(e) => Err(e),
            Ok(q) => Ok(Request {
                commands: q.commands,
                sync: sync_request(command, path),
                path: String::from_str(path),
                reply,
            }),
        }
    }

    /// `STAT` of a remote path.
    pub fn stat(&self, path: &str) -> (r: Result<Request, AdbError>)
        ensures
            built_sync(r, *self, "STAT".spec_bytes(), path, ReplyKind::SyncStat),
    {
        self.prepare_sync(path, "STAT", ReplyKind::SyncStat)
    }

    /// Whether a remote path exists: its `STAT`, judged by
    /// `FileInfo::is_present`.
    pub fn path_exists(&self, path: &str) -> (r: Result<Request, AdbError>)
        ensures
            built_sync(r, *self, "STAT".spec_bytes(), path, ReplyKind::SyncStat),
    {
        self.stat(path)
    }

    /// `LIST` of a remote directory.
    pub fn iter_directory(&self, path: &str) -> (r: Result<Request, AdbError>)
        ensures
            built_sync(r, *self, "LIST".spec_bytes(), path, ReplyKind::SyncList),
    {
        self.prepare_sync(path, "LIST", ReplyKind::SyncList)
    }

    /// `LIST` of a remote directory, collected.
    pub fn list(&self, path: &str) -> (r: Result<Request, AdbError>)
        ensures
            built_sync(r, *self, "LIST".spec_bytes(), path, ReplyKind::SyncList),
    {
        self.iter_directory(path)
    }

    /// `RECV` of a remote file, chunk by chunk.
    pub fn iter_content(&self, path: &str) -> (r: Result<Request, AdbError>)
        ensures
            built_sync(r, *self, "RECV".spec_bytes(), path, ReplyKind::SyncRecv),
    {
        self.prepare_sync(path, "RECV", ReplyKind::SyncRecv)
    }

    /// `RECV` of a remote file, to be joined into text by `content_text`.
    pub fn read_text(&self, path: &str) -> (r: Result<Request, AdbError>)
        ensures
            built_sync(r, *self, "RECV".spec_bytes(), path, ReplyKind::SyncRecv),
    {
        self.iter_content(path)
    }

    /// `RECV` of a remote file, to be written locally; `collect_content`
    /// gives the bytes.
    pub fn pull(&self, src: &str) -> (r: Result<Request, AdbError>)
        ensures
            built_sync(r, *self, "RECV".spec_bytes(), src, ReplyKind::SyncRecv),
    {
        self.iter_content(src)
    }

    /// `forward[:norebind]:<local>;<remote>` on the device's selector.
    pub fn forward(&self, local: &str, remote: &str, norebind: bool) -> (r: Result<Request, AdbError>)
        ensures
            built(r, transport_view(*self, forward_command(local@, remote@, norebind), ReplyKind::Nothing)),
    {
        let mut cmd = String::from_str("forward:");
        if norebind {
            cmd.append("norebind:");
        }
        cmd.append(local);
        cmd.append(";");
        cmd.append(remote);
        assert(cmd@ =~= forward_command(local@, remote@, norebind)) by {
            reveal_strlit("");
        }
        self.transport_request(cmd.as_str(), ReplyKind::Nothing)
    }

    /// `list-forward`: one block, parsed by `extract_forward_item_from_output`.
    pub fn forward_list(&self) -> (r: Result<Request, AdbError>)
        ensures
            built(r, transport_view(*self, "list-forward"@, ReplyKind::Block)),
    {
        self.transport_request("list-forward", ReplyKind::Block)
    }

    /// `reverse:forward[:norebind]:<remote>;<local>` after the selector.
    pub fn reverse(&self, remote: &str, local: &str, norebind: bool) -> (r: Result<Request, AdbError>)
        ensures
            built(r, stage2_view(*self, "reverse:"@ + forward_command(remote@, local@, norebind), ReplyKind::Nothing)),
    {
        let mut cmd = String::from_str("reverse:forward:");
        if norebind {
            cmd.append("norebind:");
        }
        cmd.append(remote);
        cmd.append(";");
        cmd.append(local);
        assert(cmd@ =~= "reverse:"@ + forward_command(remote@, local@, norebind)) by {
            reveal_strlit("reverse:forward:");
            reveal_strlit("reverse:");
            reveal_strlit("forward:");
            reveal_strlit("");
            reveal_strlit("norebind:");
            reveal_strlit(";");
        }
        self.stage2_request(cmd, ReplyKind::Nothing)
    }

    /// `tcpip:<port>`: restarts the device's daemon listening on TCP.
    pub fn tcpip(&self, port: u16) -> (r: Result<Request, AdbError>)
        ensures
            built(r, stage2_view(*self, "tcpip:"@ + decimal(port as nat), ReplyKind::UntilClose)),
    {
        let mut cmd = String::from_str("tcpip:");
        push_decimal(&mut cmd, port as u64);
        self.stage2_request(cmd, ReplyKind::UntilClose)
    }

    /// Dials a device-side socket; the reply is the raw stream.
    pub fn create_connection(&self, network_type: NetworkType, address: &str) -> (r: Result<Request, AdbError>)
        ensures
            built(r, stage2_view(*self, network_type.prefix() + address@, ReplyKind::Stream)),
    {
        self.stage2_request(concat(network_type.as_str(), address), ReplyKind::Stream)
    }

    /// The arguments of the `adb` program that pushes `local` to `remote`.
    pub fn push(&self, local: &str, remote: &str) -> (r: Result<Vec<String>, AdbError>)
        ensures
            match serial_of(*self) {
                Some(s) => r matches Ok(v) && texts_of(v@) == seq!["-s"@, s, "push"@, local@, remote@],
                None => r matches Err(e) && e is DeviceNotFound,
            },
    {
        match &self.serial {
            None => Err(unaddressable()),
            Some(serial) => {
                let v = vec![
                    String::from_str("-s"),
                    serial.clone(),
                    String::from_str("push"),
                    String::from_str(local),
                    String::from_str(remote),
                ];
                assert(texts_of(v@) =~= seq!["-s"@, serial@, "push"@, local@, remote@]);
                Ok(v)
            },
        }
    }

    /// The serial number, device path and state requests, in that order.
    pub fn get_info(&self) -> (r: Result<(Request, Request, Request), AdbError>)
        ensures
            match (
                transport_view(*self, "get-serialno"@, ReplyKind::Block),
                transport_view(*self, "get-devpath"@, ReplyKind::Block),
                transport_view(*self, "get-state"@, ReplyKind::Block),
            ) {
                (Some(a), Some(b), Some(c)) => r matches Ok((x, y, z)) && x@ == a && y@ == b && z@ == c,
                _ => r matches Err(e) && e is DeviceNotFound,
            },
    {
        match (self.get_serialno(), self.get_devpath(), self.get_state()) {
            (Ok(a), Ok(b), Ok(c)) => Ok((a, b, c)),
            (Err(e), _, _) => Err(e),
            (_, Err(e), _) => Err(e),
            (_, _, Err(e)) => Err(e),
        }
    }

    /// The local port of an existing forwarding of this device to
    /// `tcp:<remote>` whose local end is a TCP port, the first in `existing`.
    pub fn forward_remote_port(&self, remote: u16, existing: &[ForwardItem]) -> (r: Option<u16>)
        ensures
            r == first_forward(serial_of(*self), "tcp:"@ + decimal(remote as nat), forwards_of(existing@)),
    {
        let mut target = String::from_str("tcp:");
        push_decimal(&mut target, remote as u64);
        let ghost want = target@;
        let n = existing.len();
        let mut i: usize = 0;
        assert(forwards_of(existing@).subrange(0, n as int) =~= forwards_of(existing@));
        while i < n
            invariant
                n == existing@.len(),
                i <= n,
                target@ == want,
                want == "tcp:"@ + decimal(remote as nat),
                first_forward(serial_of(*self), want, forwards_of(existing@)) == first_forward(
                    serial_of(*self),
                    want,
                    forwards_of(existing@).subrange(i as int, n as int),
                ),
            decreases n - i,
        {
            let item = &existing[i];
            let ghost rest = forwards_of(existing@).subrange(i as int, n as int);
            assert(rest[0] == forwards_of(existing@)[i as int]);
            assert(rest.subrange(1, rest.len() as int) =~= forwards_of(existing@).subrange(i + 1, n as int));
            let mine = match &self.serial {
                Some(s) => text_eq(item.serial.as_str(), s.as_str()),
                None => false,
            };
            let same_remote = text_eq(item.remote.as_str(), target.as_str());
            let port = extract_port_from_tcp_spec(item.local.as_str());
            assert(rest[0] == forward_view(existing@[i as int]));
            assert(mine <==> serial_of(*self) == Some(rest[0].0));
            if mine && same_remote && port.is_some() {
                assert(first_forward(serial_of(*self), want, rest) == port);
                return port;
            }
            i = i + 1;
        }
        None
    }

    /// Forwards a fresh local port to `tcp:<remote>`.
    pub fn forward_new_port(&self, local_port: u16, remote: u16) -> (r: Result<Request, AdbError>)
        ensures
            built(r, transport_view(*self, forward_command("tcp:"@ + decimal(local_port as nat), "tcp:"@ + decimal(remote as nat), false), ReplyKind::Nothing)),
    {
        let mut local = String::from_str("tcp:");
        push_decimal(&mut local, local_port as u64);
        let mut remote_spec = String::from_str("tcp:");
        push_decimal(&mut remote_spec, remote as u64);
        self.forward(local.as_str(), remote_spec.as_str(), false)
    }

    /// The five probes of the device's address, in the order they are tried.
    pub fn wlan_ip(&self) -> (r: Result<Vec<Request>, AdbError>)
        ensures
            r matches Ok(v) ==> v@.len() == 5
                && Some(v@[0]@) == shell_view(*self, seq!["ip"@, "addr"@, "show"@, "dev"@, "wlan0"@])
                && Some(v@[1]@) == shell_view(*self, seq!["ifconfig"@, "wlan0"@])
                && Some(v@[2]@) == shell_view(*self, seq!["ip"@, "addr"@, "show"@, "dev"@, "eth0"@])
                && Some(v@[3]@) == shell_view(*self, seq!["ifconfig"@, "eth0"@])
                && Some(v@[4]@) == shell_view(*self, seq!["ip"@, "route"@, "get"@, "1.1.1.1"@]),
            r is Err <==> prefix_of(*self, None) is None,
    {
        let a = vec!["ip", "addr", "show", "dev", "wlan0"];
        let b = vec!["ifconfig", "wlan0"];
        let c = vec!["ip", "addr", "show", "dev", "eth0"];
        let d = vec!["ifconfig", "eth0"];
        let e = vec!["ip", "route", "get", "1.1.1.1"];
        assert(strs_of(a@) =~= seq!["ip"@, "addr"@, "show"@, "dev"@, "wlan0"@]);
        assert(strs_of(b@) =~= seq!["ifconfig"@, "wlan0"@]);
        assert(strs_of(c@) =~= seq!["ip"@, "addr"@, "show"@, "dev"@, "eth0"@]);
        assert(strs_of(d@) =~= seq!["ifconfig"@, "eth0"@]);
        assert(strs_of(e@) =~= seq!["ip"@, "route"@, "get"@, "1.1.1.1"@]);
        match (self.shell(a.as_slice()), self.shell(b.as_slice()), self.shell(c.as_slice()), self.shell(d.as_slice()), self.shell(e.as_slice())) {
            (Ok(a), Ok(b), Ok(c), Ok(d), Ok(e)) => Ok(vec![a, b, c, d, e]),
            (Err(x), _, _, _, _) => Err(x),
            (_, Err(x), _, _, _) => Err(x),
            (_, _, Err(x), _, _) => Err(x),
            (_, _, _, Err(x), _) => Err(x),
            (_, _, _, _, Err(x)) => Err(x),
        }
    }

    /// The optional `logcat -c` that clears the log first, and the log stream
    /// of `extra_command`, by default `logcat -v time`.
    pub fn logcat(&self, flush_exist: bool, extra_command: Option<&AdbCommand>) -> (r: Result<(Option<Request>, Request), AdbError>)
        ensures
            match prefix_of(*self, None) {
                None => r matches Err(e) && e is DeviceNotFound,
                Some(_) => r matches Ok((clear, stream))
                    && (flush_exist <==> clear is Some)
                    && (clear matches Some(c) ==> Some(c@) == shell_view(*self, seq!["logcat"@, "-c"@]))
                    && Some(stream@) == stage2_view(*self, "shell:"@ + match extra_command {
                        Some(c) => c.line(),
                        None => escape_args(seq!["logcat"@, "-v"@, "time"@]),
                    }, ReplyKind::Stream),
            },
    {
        let line = match extra_command {
            Some(c) => c.get_command(),
            None => {
                let args = vec!["logcat", "-v", "time"];
                assert(strs_of(args@) =~= seq!["logcat"@, "-v"@, "time"@]);
                list2cmdline(args.as_slice())
            },
        };
        let stream = match self.stage2_request(concat("shell:", line.as_str()), ReplyKind::Stream) {
            Err(e) => {
                return Err(e);
            },
            Ok(q) => q,
        };
        if flush_exist {
            let args = vec!["logcat", "-c"];
            assert(strs_of(args@) =~= seq!["logcat"@, "-c"@]);
            match self.shell(args.as_slice()) {
                Err(e) => Err(e),
                Ok(c) => Ok((Some(c), stream)),
            }
        } else {
            Ok((None, stream))
        }
    }

    /// The capture, the pull of the image and its removal, in that order.
    pub fn screenshot(&self) -> (r: (Result<Request, AdbError>, Result<Request, AdbError>, Result<Request, AdbError>))
        ensures
            built(r.0, shell_view(*self, seq!["screencap"@, "-p"@, "/sdcard/screen.png"@])),
            built_sync(r.1, *self, "RECV".spec_bytes(), "/sdcard/screen.png", ReplyKind::SyncRecv),
            built(r.2, shell_view(*self, seq!["rm"@, "/sdcard/screen.png"@])),
    {
        let src = "/sdcard/screen.png";
        let capture = vec!["screencap", "-p", src];
        assert(strs_of(capture@) =~= seq!["screencap"@, "-p"@, src@]);
        (self.shell(capture.as_slice()), self.pull(src), self.remove(src))
    }

    /// The value cached for a property key, the latest one remembered.
    pub fn cached_prop(&self, key: &str) -> (r: Option<String>)
        ensures
            match cached_value(props_of(self.properties@), key@) {
                Some(v) => r matches Some(s) && s@ == v,
                None => r is None,
            },
    {
        let ghost all = props_of(self.properties@);
        let mut k: usize = self.properties.len();
        assert(all.subrange(0, k as int) =~= all);
        while k > 0
            invariant
                k <= all.len(),
                all == props_of(self.properties@),
                cached_value(all, key@) == cached_value(all.subrange(0, k as int), key@),
            decreases k,
        {
            let ghost pre = all.subrange(0, k as int);
            assert(pre.drop_last() =~= all.subrange(0, k - 1));
            let (name, value) = &self.properties[k - 1];
            if text_eq(name.as_str(), key) {
                return Some(value.clone());
            }
            k = k - 1;
        }
        None
    }

    /// Remembers the value read for a property key.
    pub fn remember_prop(&mut self, key: &str, value: &str)
        ensures
            props_of(final(self).properties@) == props_of(old(self).properties@).push((key@, value@)),
            final(self).serial == old(self).serial,
            final(self).transport_id == old(self).transport_id,
            final(self).client == old(self).client,
    {
        let ghost before = props_of(self.properties@);
        self.properties.push((String::from_str(key), String::from_str(value)));
        assert(props_of(self.properties@) =~= before.push((key@, value@)));
    }

    /// Pushes `content` to `remote` through the SYNC session: `SEND` with the
    /// path and mode, the content in chunks, `DONE` with the modification
    /// time; the server answers once the file is written.
    pub fn push_sync(&self, remote: &str, mode: u32, content: &[u8], mtime: u32) -> (r: Result<Request, AdbError>)
        ensures
            remote.spec_bytes().len() + 11 > u32::MAX ==> (r matches Err(e) && e is ProtocolError),
            remote.spec_bytes().len() + 11 <= u32::MAX ==> built(r, match stage2_view(*self, "sync:"@, ReplyKind::Nothing) {
                Some(q) => Some(RequestView {
                    commands: q.commands,
                    sync: sync_request_bytes(word(83, 69, 78, 68), send_target(remote.spec_bytes(), mode as nat))
                        + data_chunks(content@) + done_word() + le_bytes(mtime as nat),
                    path: remote@,
                    reply: ReplyKind::SyncDone,
                }),
                None => None,
            }),
    {
        if remote.as_bytes().len() > 0xFFFF_FFF4usize {
            return Err(AdbError::protocol_error("path too long"));
        }
        match self.stage2_request(String::from_str("sync:"), ReplyKind::Nothing) {
            Err(e) => Err(e),
            Ok(q) => {
                let mut sync = send_request(remote, mode);
                let body = send_body(content, mtime);
                append_bytes(&mut sync, body.as_slice());
                assert(sync@ =~= sync_request_bytes(word(83, 69, 78, 68), send_target(remote.spec_bytes(), mode as nat))
                    + data_chunks(content@) + done_word() + le_bytes(mtime as nat));
                Ok(Request { commands: q.commands, sync, path: String::from_str(remote), reply: ReplyKind::SyncDone })
            },
        }
    }
}

} // verus!
