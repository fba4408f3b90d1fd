//! Host-scope requests to the server, and client settings.
use vstd::prelude::*;
use vstd::string::*;
use crate::beans::{parse_u16_from, u16_value, AdbDeviceInfo};
use crate::command::texts_of;
use crate::device::BaseClient;
use crate::errors::AdbError;
use crate::request::{plain_request, ReplyKind, Request, RequestView};
use crate::text::{concat, decimal, push_decimal};

verus! {

/// A host command on a fresh connection.
pub fn host_request(command: &str, reply: ReplyKind) -> (r: Request)
    ensures
        r@ == plain_request(seq![command@], reply),
{
    let mut commands: Vec<String> = Vec::new();
    commands.push(String::from_str(command));
    assert(texts_of(commands@) =~= seq![command@]);
    Request { commands, sync: Vec::new(), path: String::new(), reply }
}

/// `host:version`: the server's version as a block of hex digits, read by
/// `parse_server_version`.
pub fn server_version() -> (r: Request)
    ensures
        r@ == plain_request(seq!["host:version"@], ReplyKind::Block),
{
    host_request("host:version", ReplyKind::Block)
}

/// The version request of the server at the default address.
pub fn get_adb_server_version() -> (r: Request)
    ensures
        r@ == plain_request(seq!["host:version"@], ReplyKind::Block),
{
    server_version()
}

/// `host:kill`: the server answers `OKAY` and exits.
pub fn server_kill() -> (r: Request)
    ensures
        r@ == plain_request(seq!["host:kill"@], ReplyKind::Nothing),
{
    host_request("host:kill", ReplyKind::Nothing)
}

/// `host:devices`: a block with one `<serial>\t<state>` line per device,
/// read by `parse_device_list_lines`.
pub fn list_devices() -> (r: Request)
    ensures
        r@ == plain_request(seq!["host:devices"@], ReplyKind::Block),
{
    host_request("host:devices", ReplyKind::Block)
}

/// `host:connect:<addr>`: the server's answer as a block of text.
pub fn connect_device(addr: &str) -> (r: Request)
    ensures
        r@ == plain_request(seq!["host:connect:"@ + addr@], ReplyKind::Block),
{
    let cmd = concat("host:connect:", addr);
    host_request(cmd.as_str(), ReplyKind::Block)
}

/// `host:disconnect:<addr>`; an empty address is refused.
pub fn disconnect_device(addr: &str) -> (r: Result<Request, AdbError>)
    ensures
        addr@.len() == 0 ==> (r matches Err(e) && e is Unknown),
        addr@.len() > 0 ==> (r matches Ok(q) && q@ == plain_request(
            seq!["host:disconnect:"@ + addr@],
            ReplyKind::Block,
        )),
{
    if addr.unicode_len() == 0 {
        return Err(AdbError::unknown("serial is empty"));
    }
    let cmd = concat("host:disconnect:", addr);
    Ok(host_request(cmd.as_str(), ReplyKind::Block))
}

/// The serial of the only device listed; none or several is an error.
pub fn the_only_device(devices: &[AdbDeviceInfo]) -> (r: Result<String, AdbError>)
    ensures
        devices@.len() == 1 ==> (r matches Ok(s) && s@ == devices@[0].serial@),
        devices@.len() != 1 ==> (r matches Err(e) && e is DeviceNotFound),
{
    if devices.len() != 1 {
        return Err(AdbError::device_not_found("there is not exactly one device; pass a serial or a transport id"));
    }
    Ok(devices[0].serial.clone())
}

/// Value of a hex digit character of either case.
pub open spec fn hex_char_value(c: char) -> Option<nat> {
    if '0' <= c && c <= '9' {
        Some((c as nat - '0' as nat) as nat)
    } else if 'a' <= c && c <= 'f' {
        Some((c as nat - 'a' as nat + 10) as nat)
    } else if 'A' <= c && c <= 'F' {
        Some((c as nat - 'A' as nat + 10) as nat)
    } else {
        None
    }
}

/// The value of a text made only of hex digits, or `None`.
pub open spec fn hex_text_value(s: Seq<char>) -> Option<nat>
    decreases s.len(),
{
    if s.len() == 0 {
        None
    } else {
        match hex_char_value(s.last()) {
            None => None,
            Some(d) => if s.len() == 1 {
                Some(d)
            } else {
                match hex_text_value(s.drop_last()) {
                    Some(v) => Some(16 * v + d),
                    None => None,
                }
            },
        }
    }
}

proof fn lemma_hex_none_extends(s: Seq<char>, k: int)
    requires
        0 < k <= s.len(),
        hex_text_value(s.subrange(0, k)) is None,
    ensures
        hex_text_value(s) is None,
    decreases s.len() - k,
{
    if k < s.len() {
        assert(s.drop_last().subrange(0, k) =~= s.subrange(0, k));
        lemma_hex_none_extends(s.drop_last(), k);
    } else {
        assert(s.subrange(0, k) =~= s);
    }
}

fn hex_char(c: char) -> (r: Option<u64>)
    ensures
        r matches Some(v) ==> hex_char_value(c) == Some(v as nat) && v < 16,
        r is None ==> hex_char_value(c) is None,
{
    if '0' <= c && c <= '9' {
        Some((c as u32 - '0' as u32) as u64)
    } else if 'a' <= c && c <= 'f' {
        Some((c as u32 - 'a' as u32 + 10) as u64)
    } else if 'A' <= c && c <= 'F' {
        Some((c as u32 - 'A' as u32 + 10) as u64)
    } else {
        None
    }
}

/// The server's version: the hex digits of the `host:version` reply, given
/// in decimal.
pub fn parse_server_version(text: &str) -> (r: Result<String, AdbError>)
    ensures
        match hex_text_value(text@) {
            Some(v) => if v <= u64::MAX {
                r matches Ok(s) && s@ == decimal(v)
            } else {
                r matches Err(e) && e is ParseError
            },
            None => r matches Err(e) && e is ParseError,
        },
{
    let n = text.unicode_len();
    if n == 0 {
        return Err(AdbError::parse_error("empty version"));
    }
    let mut acc: u64 = 0;
    let mut big = false;
    let mut i: usize = 0;
    while i < n
        invariant
            n == text@.len(),
            0 < n,
            i <= n,
            i > 0 ==> hex_text_value(text@.subrange(0, i as int)) is Some,
            i > 0 && !big ==> hex_text_value(text@.subrange(0, i as int)) == Some(acc as nat),
            i > 0 && big ==> hex_text_value(text@.subrange(0, i as int))->0 > u64::MAX,
            i == 0 ==> !big && acc == 0,
        decreases n - i,
    {
        let c = text.get_char(i);
        let ghost cur = text@.subrange(0, i + 1);
        assert(cur.drop_last() =~= text@.subrange(0, i as int));
        let d = match hex_char(c) {
            None => {
                proof {
                    lemma_hex_none_extends(text@, i + 1);
                }
                return Err(AdbError::parse_error("version is not hex"));
            },
            Some(d) => d,
        };
        if !big {
            if acc > (u64::MAX - d) / 16 {
                big = true;
            } else {
                acc = acc * 16 + d;
            }
        }
        i = i + 1;
    }
    assert(text@.subrange(0, n as int) =~= text@);
    if big {
        Err(AdbError::parse_error("version out of range"))
    } else {
        let mut s = String::new();
        push_decimal(&mut s, acc);
        assert(s@ =~= decimal(acc as nat));
        Ok(s)
    }
}

/// Settings of a client: the server's address and a read timeout in
/// seconds, each with a default.
pub struct AdbClientBuilder {
    pub addr: Option<String>,
    pub timeout: Option<u32>,
}

/// The offset of the last `:` in `s`, if any.
pub open spec fn last_colon(s: Seq<char>) -> Option<int>
    decreases s.len(),
{
    if s.len() == 0 {
        None
    } else if s.last() == ':' {
        Some(s.len() - 1)
    } else {
        last_colon(s.drop_last())
    }
}

proof fn lemma_last_colon(s: Seq<char>)
    ensures
        last_colon(s) matches Some(k) ==> 0 <= k < s.len() && s[k] == ':',
    decreases s.len(),
{
    if s.len() > 0 && s.last() != ':' {
        lemma_last_colon(s.drop_last());
    }
}

/// The offset just after the last `:` of `s`.
fn find_last_colon(s: &str) -> (r: Option<usize>)
    ensures
        match last_colon(s@) {
            Some(k) => r == Some((k + 1) as usize),
            None => r is None,
        },
        r matches Some(p) ==> 1 <= p <= s@.len() && last_colon(s@) == Some(p - 1),
{
    let n = s.unicode_len();
    let mut k: usize = n;
    assert(s@.subrange(0, n as int) =~= s@);
    while k > 0
        invariant
            n == s@.len(),
            k <= n,
            last_colon(s@) == last_colon(s@.subrange(0, k as int)),
        decreases k,
    {
        let ghost pre = s@.subrange(0, k as int);
        assert(pre.drop_last() =~= s@.subrange(0, k - 1));
        if s.get_char(k - 1) == ':' {
            return Some(k);
        }
        k = k - 1;
    }
    None
}

impl AdbClientBuilder {
    pub fn new() -> (r: AdbClientBuilder)
        ensures
            r.addr is None,
            r.timeout is None,
    {
        AdbClientBuilder { addr: None, timeout: None }
    }

    /// Sets the server's address, `<host>:<port>`.
    pub fn addr(self, addr: &str) -> (r: AdbClientBuilder)
        ensures
            r.addr matches Some(a) && a@ == addr@,
            r.timeout == self.timeout,
    {
        AdbClientBuilder { addr: Some(String::from_str(addr)), timeout: self.timeout }
    }

    /// Sets the read timeout in seconds.
    pub fn timeout(self, timeout: u32) -> (r: AdbClientBuilder)
        ensures
            r.addr == self.addr,
            r.timeout == Some(timeout),
    {
        AdbClientBuilder { addr: self.addr, timeout: Some(timeout) }
    }

    /// The client: `127.0.0.1:5037` and three seconds unless set; an address
    /// without a `:` and a 16-bit port after its last one is refused.
    pub fn build(self) -> (r: Result<BaseClient, AdbError>)
        ensures
            self.addr is None ==> (r matches Ok(c) && c.host@ == "127.0.0.1"@ && c.port == 5037
                && c.socket_timeout == (match self.timeout {
                Some(t) => t,
                None => 3,
            })),
            self.addr matches Some(a) ==> match last_colon(a@) {
                Some(k) => match u16_value(a@.subrange(k + 1, a@.len() as int)) {
                    Some(p) => r matches Ok(c) && c.host@ == a@.subrange(0, k) && c.port == p
                        && c.socket_timeout == (match self.timeout {
                        Some(t) => t,
                        None => 3,
                    }),
                    None => r matches Err(e) && e is ParseError,
                },
                None => r matches Err(e) && e is ParseError,
            },
    {
        proof {
            if self.addr is Some {
                lemma_last_colon(self.addr->0@);
            }
        }
        let timeout = match self.timeout {
            Some(t) => t,
            None => 3,
        };
        match &self.addr {
            None => Ok(BaseClient::new("127.0.0.1", 5037, timeout)),
            Some(a) => {
                let k = match find_last_colon(a.as_str()) {
                    None => {
                        return Err(AdbError::parse_error("address has no port"));
                    },
                    Some(k) => k,
                };
                match parse_u16_from(a.as_str(), k) {
                    None => Err(AdbError::parse_error("invalid port")),
                    Some(p) => {
                        let host = a.as_str().substring_char(0, k - 1);
                        Ok(BaseClient::new(host, p, timeout))
                    },
                }
            },
        }
    }
}

/// The version of this library.
pub fn version() -> (r: &'static str)
    ensures
        r@ == "0.1.0"@,
{
    "0.1.0"
}

/// What this library is.
pub fn description() -> (r: &'static str)
    ensures
        r@ == "A client for the Android Debug Bridge host protocol"@,
{
    "A client for the Android Debug Bridge host protocol"
}

/// Who wrote this library.
pub fn authors() -> (r: &'static str)
    ensures
        r@ == ""@,
{
    ""
}

} // verus!
