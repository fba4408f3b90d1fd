//! Records the server reports, and the parsers of its text replies.
use std::collections::HashMap;
use vstd::prelude::*;
use vstd::string::*;
use crate::text::{decimal_value, push_char};

verus! {

/// One port forwarding as `list-forward` reports it.
#[derive(Debug)]
pub struct ForwardItem {
    pub serial: String,
    pub local: String,
    pub remote: String,
}

impl ForwardItem {
    pub fn new(serial: &str, local: &str, remote: &str) -> (r: ForwardItem)
        ensures
            r.serial@ == serial@,
            r.local@ == local@,
            r.remote@ == remote@,
    {
        ForwardItem {
            serial: String::from_str(serial),
            local: String::from_str(local),
            remote: String::from_str(remote),
        }
    }
}

/// A device as `host:devices` lists it.
#[derive(Debug)]
pub struct AdbDeviceInfo {
    pub serial: String,
    pub state: String,
    pub properties: HashMap<String, String>,
}

impl AdbDeviceInfo {
    pub fn new(serial: String, state: String) -> (r: AdbDeviceInfo)
        ensures
            r.serial == serial,
            r.state == state,
            r.properties@ == Map::<String, String>::empty(),
    {
        AdbDeviceInfo { serial, state, properties: HashMap::new() }
    }
}

/// Serial number, device path and state of one device.
#[derive(Debug)]
pub struct DeviceInfo {
    pub serialno: String,
    pub devpath: String,
    pub state: String,
}

impl DeviceInfo {
    pub fn new(serialno: String, devpath: String, state: String) -> (r: DeviceInfo)
        ensures
            r.serialno == serialno,
            r.devpath == devpath,
            r.state == state,
    {
        DeviceInfo { serialno, devpath, state }
    }
}

/// Characters that separate the fields of a `list-forward` line.
pub open spec fn is_blank(c: char) -> bool {
    c == ' ' || c == '\t' || c == '\r' || c == '\x0B' || c == '\x0C'
}

/// Progress of reading a `list-forward` reply: the items found, the words of
/// the current line, and the current word.
pub struct ForwardScan {
    pub items: Seq<(Seq<char>, Seq<char>, Seq<char>)>,
    pub words: Seq<Seq<char>>,
    pub word: Seq<char>,
}

/// The words of the line with the current word closed.
pub open spec fn close_word(words: Seq<Seq<char>>, word: Seq<char>) -> Seq<Seq<char>> {
    if word.len() == 0 { words } else { words.push(word) }
}

/// The items with the current line closed: a line of at least three words
/// gives an item of its first three; other lines are skipped.
pub open spec fn close_line(st: ForwardScan) -> Seq<(Seq<char>, Seq<char>, Seq<char>)> {
    let w = close_word(st.words, st.word);
    if w.len() >= 3 { st.items.push((w[0], w[1], w[2])) } else { st.items }
}

/// The state after reading `s`.
pub open spec fn forward_scan(s: Seq<char>) -> ForwardScan
    decreases s.len(),
{
    if s.len() == 0 {
        ForwardScan { items: Seq::empty(), words: Seq::empty(), word: Seq::empty() }
    } else {
        let st = forward_scan(s.drop_last());
        let c = s.last();
        if c == '\n' {
            ForwardScan { items: close_line(st), words: Seq::empty(), word: Seq::empty() }
        } else if is_blank(c) {
            ForwardScan { items: st.items, words: close_word(st.words, st.word), word: Seq::empty() }
        } else {
            ForwardScan { items: st.items, words: st.words, word: st.word.push(c) }
        }
    }
}

/// The forwardings listed in `s`: one per line of at least three
/// whitespace-separated words.
pub open spec fn forward_items(s: Seq<char>) -> Seq<(Seq<char>, Seq<char>, Seq<char>)> {
    close_line(forward_scan(s))
}

/// The content of a forwarding.
pub open spec fn forward_view(f: ForwardItem) -> (Seq<char>, Seq<char>, Seq<char>) {
    (f.serial@, f.local@, f.remote@)
}

/// The contents of a list of forwardings.
pub open spec fn forwards_of(v: Seq<ForwardItem>) -> Seq<(Seq<char>, Seq<char>, Seq<char>)> {
    Seq::new(v.len(), |i: int| forward_view(v[i]))
}

/// The texts of a list of strings.
pub open spec fn strings_of(v: Seq<String>) -> Seq<Seq<char>> {
    Seq::new(v.len(), |i: int| v[i]@)
}

fn is_blank_char(c: char) -> (r: bool)
    ensures
        r == is_blank(c),
{
    c == ' ' || c == '\t' || c == '\r' || c == '\x0B' || c == '\x0C'
}

fn close_word_exec(words: &mut Vec<String>, word: String)
    ensures
        strings_of(final(words)@) == close_word(strings_of(old(words)@), word@),
{
    if word.unicode_len() > 0 {
        let ghost before = words@;
        words.push(word);
        assert(strings_of(final(words)@) =~= strings_of(before).push(word@));
    }
}

fn close_line_exec(items: &mut Vec<ForwardItem>, words: Vec<String>)
    ensures
        forwards_of(final(items)@) == if strings_of(words@).len() >= 3 {
            forwards_of(old(items)@).push((words@[0]@, words@[1]@, words@[2]@))
        } else {
            forwards_of(old(items)@)
        },
{
    if words.len() >= 3 {
        let ghost before = items@;
        let item = ForwardItem::new(words[0].as_str(), words[1].as_str(), words[2].as_str());
        items.push(item);
        assert(forwards_of(final(items)@) =~= forwards_of(before).push(
            (words@[0]@, words@[1]@, words@[2]@),
        ));
    }
}

/// Parses a `list-forward` reply: each line with at least three
/// whitespace-separated words gives a forwarding of its first three; other
/// lines are skipped.
pub fn extract_forward_item_from_output(output: &str) -> (r: Vec<ForwardItem>)
    ensures
        forwards_of(r@) == forward_items(output@),
{
    let n = output.unicode_len();
    let mut items: Vec<ForwardItem> = Vec::new();
    let mut words: Vec<String> = Vec::new();
    let mut word = String::new();
    let mut i: usize = 0;
    while i < n
        invariant
            n == output@.len(),
            i <= n,
            forwards_of(items@) == forward_scan(output@.subrange(0, i as int)).items,
            strings_of(words@) == forward_scan(output@.subrange(0, i as int)).words,
            word@ == forward_scan(output@.subrange(0, i as int)).word,
        decreases n - i,
    {
        let c = output.get_char(i);
        let ghost prefix = output@.subrange(0, i + 1);
        assert(prefix.drop_last() =~= output@.subrange(0, i as int));
        if c == '\n' {
            let mut line = words;
            close_word_exec(&mut line, word);
            close_line_exec(&mut items, line);
            words = Vec::new();
            word = String::new();
            assert(strings_of(words@) =~= Seq::<Seq<char>>::empty());
        } else if is_blank_char(c) {
            close_word_exec(&mut words, word);
            word = String::new();
        } else {
            push_char(&mut word, c);
        }
        i = i + 1;
    }
    assert(output@.subrange(0, n as int) =~= output@);
    close_word_exec(&mut words, word);
    close_line_exec(&mut items, words);
    items
}

/// Progress of reading a `host:devices` reply: the devices found, and the
/// serial, the state and the field of the current line.
pub struct DeviceScan {
    pub devices: Seq<(Seq<char>, Seq<char>)>,
    pub serial: Seq<char>,
    pub state: Seq<char>,
    pub field: nat,
    pub started: bool,
}

/// The devices with the current line closed; an empty line gives none.
pub open spec fn close_device(st: DeviceScan) -> Seq<(Seq<char>, Seq<char>)> {
    if st.started { st.devices.push((st.serial, st.state)) } else { st.devices }
}

/// The state after reading `s`.
pub open spec fn device_scan(s: Seq<char>) -> DeviceScan
    decreases s.len(),
{
    if s.len() == 0 {
        DeviceScan { devices: Seq::empty(), serial: Seq::empty(), state: Seq::empty(), field: 0, started: false }
    } else {
        let st = device_scan(s.drop_last());
        let c = s.last();
        if c == '\n' {
            DeviceScan { devices: close_device(st), serial: Seq::empty(), state: Seq::empty(), field: 0, started: false }
        } else if c == '\r' {
            st
        } else if c == '\t' {
            DeviceScan { field: st.field + 1, started: true, ..st }
        } else if st.field == 0 {
            DeviceScan { serial: st.serial.push(c), started: true, ..st }
        } else if st.field == 1 {
            DeviceScan { state: st.state.push(c), started: true, ..st }
        } else {
            DeviceScan { started: true, ..st }
        }
    }
}

/// The devices listed in `s`: for each non-empty line `<serial>\t<state>`,
/// the text before the first tab and the text after it up to the next tab;
/// carriage returns are dropped.
pub open spec fn device_entries(s: Seq<char>) -> Seq<(Seq<char>, Seq<char>)> {
    close_device(device_scan(s))
}

/// The serials and states of a list of devices.
pub open spec fn devices_of(v: Seq<AdbDeviceInfo>) -> Seq<(Seq<char>, Seq<char>)> {
    Seq::new(v.len(), |i: int| (v[i].serial@, v[i].state@))
}

fn close_device_exec(devices: &mut Vec<AdbDeviceInfo>, serial: String, state: String, started: bool)
    requires
        forall|j: int| 0 <= j < old(devices)@.len() ==> (#[trigger] old(devices)@[j]).properties@ == Map::<String, String>::empty(),
    ensures
        forall|j: int| 0 <= j < final(devices)@.len() ==> (#[trigger] final(devices)@[j]).properties@ == Map::<String, String>::empty(),
        devices_of(final(devices)@) == if started {
            devices_of(old(devices)@).push((serial@, state@))
        } else {
            devices_of(old(devices)@)
        },
{
    if started {
        let ghost before = devices@;
        let ghost pair = (serial@, state@);
        devices.push(AdbDeviceInfo::new(serial, state));
        assert(devices_of(final(devices)@) =~= devices_of(before).push(pair));
    }
}

/// Parses a `host:devices` reply into device records.
pub fn parse_device_list_lines(lines: &str) -> (r: Vec<AdbDeviceInfo>)
    ensures
        devices_of(r@) == device_entries(lines@),
        forall|i: int| 0 <= i < r@.len() ==> (#[trigger] r@[i]).properties@ == Map::<String, String>::empty(),
{
    let n = lines.unicode_len();
    let mut devices: Vec<AdbDeviceInfo> = Vec::new();
    let mut serial = String::new();
    let mut state = String::new();
    let mut field: usize = 0;
    let mut started = false;
    let mut i: usize = 0;
    while i < n
        invariant
            n == lines@.len(),
            i <= n,
            field <= i,
            devices_of(devices@) == device_scan(lines@.subrange(0, i as int)).devices,
            serial@ == device_scan(lines@.subrange(0, i as int)).serial,
            state@ == device_scan(lines@.subrange(0, i as int)).state,
            field == device_scan(lines@.subrange(0, i as int)).field,
            started == device_scan(lines@.subrange(0, i as int)).started,
            forall|j: int| 0 <= j < devices@.len() ==> (#[trigger] devices@[j]).properties@ == Map::<String, String>::empty(),
        decreases n - i,
    {
        let c = lines.get_char(i);
        let ghost prefix = lines@.subrange(0, i + 1);
        assert(prefix.drop_last() =~= lines@.subrange(0, i as int));
        if c == '\n' {
            close_device_exec(&mut devices, serial, state, started);
            serial = String::new();
            state = String::new();
            field = 0;
            started = false;
        } else if c == '\r' {
        } else if c == '\t' {
            field = field + 1;
            started = true;
        } else {
            if field == 0 {
                push_char(&mut serial, c);
            } else if field == 1 {
                push_char(&mut state, c);
            }
            started = true;
        }
        i = i + 1;
    }
    assert(lines@.subrange(0, n as int) =~= lines@);
    close_device_exec(&mut devices, serial, state, started);
    devices
}

/// The port of a `tcp:<port>` forwarding end, when the rest is a decimal
/// number that fits in 16 bits.
pub open spec fn tcp_port(s: Seq<char>) -> Option<u16> {
    if s.len() >= 4 && s.subrange(0, 4) == "tcp:"@ {
        match decimal_value(s.subrange(4, s.len() as int)) {
            Some(v) => if v <= 65535 { Some(v as u16) } else { None },
            None => None,
        }
    } else {
        None
    }
}

/// A decimal number that fits in 16 bits.
pub open spec fn u16_value(s: Seq<char>) -> Option<u16> {
    match decimal_value(s) {
        Some(v) => if v <= 65535 { Some(v as u16) } else { None },
        None => None,
    }
}

pub proof fn lemma_decimal_none_extends(s: Seq<char>, k: int)
    requires
        0 < k <= s.len(),
        decimal_value(s.subrange(0, k)) is None,
    ensures
        decimal_value(s) is None,
    decreases s.len() - k,
{
    if k < s.len() {
        assert(s.drop_last().subrange(0, k) =~= s.subrange(0, k));
        lemma_decimal_none_extends(s.drop_last(), k);
    } else {
        assert(s.subrange(0, k) =~= s);
    }
}

/// Parses the decimal digits of `s[from..]` as a 16-bit number.
pub fn parse_u16_from(s: &str, from: usize) -> (r: Option<u16>)
    requires
        from <= s@.len(),
    ensures
        r == u16_value(s@.subrange(from as int, s@.len() as int)),
{
    let n = s.unicode_len();
    if from == n {
        return None;
    }
    let mut acc: u64 = 0;
    let mut big = false;
    let mut i: usize = from;
    while i < n
        invariant
            n == s@.len(),
            from < n,
            from <= i <= n,
            acc <= 65535,
            i > from ==> decimal_value(s@.subrange(from as int, i as int)) is Some,
            i > from && !big ==> decimal_value(s@.subrange(from as int, i as int)) == Some(acc as nat),
            i > from && big ==> decimal_value(s@.subrange(from as int, i as int))->0 > 65535,
            i == from ==> !big && acc == 0,
        decreases n - i,
    {
        let c = s.get_char(i);
        let ghost pre = s@.subrange(from as int, i as int);
        let ghost cur = s@.subrange(from as int, i + 1);
        assert(cur.drop_last() =~= pre);
        assert(cur.last() == c);
        if !('0' <= c && c <= '9') {
            proof {
                let whole = s@.subrange(from as int, n as int);
                assert(whole.subrange(0, i + 1 - from) =~= cur);
                lemma_decimal_none_extends(whole, i + 1 - from);
            }
            return None;
        }
        let d = (c as u32 - '0' as u32) as u64;
        if !big {
            let next = acc * 10 + d;
            if next > 65535 {
                big = true;
            } else {
                acc = next;
            }
        }
        i = i + 1;
    }
    assert(s@.subrange(from as int, n as int) == s@.subrange(from as int, s@.len() as int));
    if big {
        None
    } else {
        Some(acc as u16)
    }
}

/// The local port of a `tcp:<port>` forwarding end.
pub fn extract_port_from_tcp_spec(tcp_spec: &str) -> (r: Option<u16>)
    ensures
        r == tcp_port(tcp_spec@),
{
    if !crate::text::starts_with(tcp_spec, "tcp:") {
        proof {
            reveal_strlit("tcp:");
        }
        return None;
    }
    proof {
        reveal_strlit("tcp:");
    }
    parse_u16_from(tcp_spec, 4)
}

} // verus!
