//! The SYNC file transfer sub-protocol: requests, and replies read from bytes.
use vstd::prelude::*;
use vstd::string::*;
use crate::bytes::{append_bytes, copy_range, has_at, le_bytes, le_u32_at, push_le_u32, read_le_u32};
use crate::errors::AdbError;
use crate::text::{decimal, push_decimal, text_of, utf8_lossy};
use crate::wire::{word, word_at, Parse};

verus! {

/// `STAT`
pub open spec fn stat_word() -> Seq<u8> {
    word(83, 84, 65, 84)
}

/// `DENT`
pub open spec fn dent_word() -> Seq<u8> {
    word(68, 69, 78, 84)
}

/// `DONE`
pub open spec fn done_word() -> Seq<u8> {
    word(68, 79, 78, 69)
}

/// `DATA`
pub open spec fn data_word() -> Seq<u8> {
    word(68, 65, 84, 65)
}

/// `FAIL`
pub open spec fn sync_fail_word() -> Seq<u8> {
    word(70, 65, 73, 76)
}

/// Largest payload of one `DATA` chunk.
pub const MAX_CHUNK: usize = 65536;

/// A file's metadata as the SYNC protocol reports it.
#[derive(Debug, PartialEq, Eq)]
pub struct FileInfo {
    pub mode: u32,
    pub size: u32,
    /// Modification time in Unix seconds; zero when the path does not exist.
    pub mtime: u32,
    pub path: String,
}

/// The content of a `FileInfo`.
pub struct FileStat {
    pub mode: u32,
    pub size: u32,
    pub mtime: u32,
    pub path: Seq<char>,
}

impl View for FileInfo {
    type V = FileStat;

    open spec fn view(&self) -> FileStat {
        FileStat { mode: self.mode, size: self.size, mtime: self.mtime, path: self.path@ }
    }
}

/// The metadata held in the twelve bytes at `pos`: mode, size and mtime, each
/// a little-endian `u32`.
pub open spec fn stat_at(data: Seq<u8>, pos: int, path: Seq<char>) -> FileStat {
    FileStat {
        mode: le_u32_at(data, pos) as u32,
        size: le_u32_at(data, pos + 4) as u32,
        mtime: le_u32_at(data, pos + 8) as u32,
        path,
    }
}

impl FileInfo {
    /// A path exists when its mtime is not zero.
    pub fn is_present(&self) -> (r: bool)
        ensures
            r == (self.mtime != 0),
    {
        self.mtime != 0
    }
}

/// Reads mode, size and mtime from the first twelve bytes of `data`.
pub fn parse_file_info(data: &[u8], path: &str) -> (r: Result<FileInfo, AdbError>)
    ensures
        data@.len() >= 12 <==> r is Ok,
        r matches Ok(f) ==> f@ == stat_at(data@, 0, path@),
        r matches Err(e) ==> e is ProtocolError,
{
    if data.len() < 12 {
        return Err(AdbError::protocol_error("short file record"));
    }
    Ok(file_info_at(data, 0, String::from_str(path)))
}

fn file_info_at(data: &[u8], pos: usize, path: String) -> (r: FileInfo)
    requires
        pos + 12 <= data@.len(),
    ensures
        r@ == stat_at(data@, pos as int, path@),
{
    let total = data.len();
    assert(pos + 12 <= total);
    let mode = read_le_u32(data, pos);
    let size = read_le_u32(data, pos + 4);
    let mtime = read_le_u32(data, pos + 8);
    FileInfo { mode, size, mtime, path }
}

/// A SYNC request: the four-byte tag, the path's length as a little-endian
/// `u32`, then the path.
pub open spec fn sync_request_bytes(tag: Seq<u8>, path: Seq<u8>) -> Seq<u8> {
    tag + le_bytes(path.len()) + path
}

/// Encodes a SYNC request such as `STAT`, `LIST` or `RECV` for `path`.
pub fn sync_request(command: &str, path: &str) -> (r: Vec<u8>)
    requires
        path.spec_bytes().len() <= u32::MAX,
    ensures
        r@ == sync_request_bytes(command.spec_bytes(), path.spec_bytes()),
{
    let mut r: Vec<u8> = Vec::new();
    append_bytes(&mut r, command.as_bytes());
    let p = path.as_bytes();
    push_le_u32(&mut r, p.len() as u32);
    append_bytes(&mut r, p);
    r
}

/// The reply to `STAT` at `pos`: the word `STAT` and twelve bytes.
pub open spec fn parse_stat(data: Seq<u8>, pos: int, path: Seq<char>) -> Parse<FileStat> {
    if data.len() < pos + 16 {
        Parse::Incomplete
    } else if has_at(data, pos, stat_word()) {
        Parse::Parsed(stat_at(data, pos + 4, path), pos + 16)
    } else {
        Parse::Malformed
    }
}

/// Reads the reply to a `STAT` request for `path`; `None` while more bytes
/// are needed.
pub fn read_stat(data: &[u8], pos: usize, path: &str) -> (r: Option<Result<(FileInfo, usize), AdbError>>)
    ensures
        match parse_stat(data@, pos as int, path@) {
            Parse::Incomplete => r is None,
            Parse::Malformed => r matches Some(Err(e)) && e is ProtocolError,
            Parse::Parsed(f, next) => r matches Some(Ok((v, n))) && v@ == f && n == next,
        },
{
    if pos > data.len() || data.len() - pos < 16 {
        return None;
    }
    if !word_at(data, pos, 83, 84, 65, 84) {
        return Some(Err(AdbError::protocol_error("stat error")));
    }
    Some(Ok((file_info_at(data, pos + 4, String::from_str(path)), pos + 16)))
}

/// One entry of a `LIST` reply at `pos`: `DENT` with sixteen bytes and a
/// name gives the entry; `DONE` with sixteen bytes ends the listing.
pub open spec fn parse_dent(data: Seq<u8>, pos: int) -> Parse<Option<FileStat>> {
    if data.len() < pos + 20 {
        Parse::Incomplete
    } else if has_at(data, pos, dent_word()) {
        let n = le_u32_at(data, pos + 16);
        if data.len() < pos + 20 + n {
            Parse::Incomplete
        } else {
            Parse::Parsed(
                Some(stat_at(data, pos + 4, utf8_lossy(data.subrange(pos + 20, pos + 20 + n)))),
                pos + 20 + n,
            )
        }
    } else if has_at(data, pos, done_word()) {
        Parse::Parsed(None, pos + 20)
    } else {
        Parse::Malformed
    }
}

/// Reads one entry of a `LIST` reply: `Some(Ok((Some(entry), next)))` for
/// an entry, `Some(Ok((None, next)))` at the end, `None` while more bytes are
/// needed.
pub fn read_dent(data: &[u8], pos: usize) -> (r: Option<Result<(Option<FileInfo>, usize), AdbError>>)
    ensures
        match parse_dent(data@, pos as int) {
            Parse::Incomplete => r is None,
            Parse::Malformed => r matches Some(Err(e)) && e is ProtocolError,
            Parse::Parsed(None, next) => r matches Some(Ok((None, n))) && n == next,
            Parse::Parsed(Some(f), next) => r matches Some(Ok((Some(v), n))) && v@ == f && n
                == next,
        },
{
    if pos > data.len() || data.len() - pos < 20 {
        return None;
    }
    if word_at(data, pos, 68, 69, 78, 84) {
        let n = read_le_u32(data, pos + 16) as usize;
        if data.len() - pos - 20 < n {
            return None;
        }
        let name = copy_range(data, pos + 20, pos + 20 + n);
        let path = text_of(name.as_slice());
        return Some(Ok((Some(file_info_at(data, pos + 4, path)), pos + 20 + n)));
    }
    if word_at(data, pos, 68, 79, 78, 69) {
        return Some(Ok((None, pos + 20)));
    }
    Some(Err(AdbError::protocol_error("unexpected tag in directory listing")))
}

/// All entries of a `LIST` reply from `pos` up to its `DONE`.
pub open spec fn parse_listing(data: Seq<u8>, pos: int) -> Parse<Seq<FileStat>>
    decreases data.len() - pos,
{
    match parse_dent(data, pos) {
        Parse::Incomplete => Parse::Incomplete,
        Parse::Malformed => Parse::Malformed,
        Parse::Parsed(None, next) => Parse::Parsed(Seq::empty(), next),
        Parse::Parsed(Some(f), next) => if next <= pos {
            Parse::Malformed
        } else {
            match parse_listing(data, next) {
                Parse::Parsed(rest, end) => Parse::Parsed(seq![f] + rest, end),
                other => other,
            }
        },
    }
}

/// The listing with `acc` placed before the entries parsed from `pos`.
pub open spec fn listing_after(acc: Seq<FileStat>, rest: Parse<Seq<FileStat>>) -> Parse<Seq<FileStat>> {
    match rest {
        Parse::Parsed(es, end) => Parse::Parsed(acc + es, end),
        other => other,
    }
}

/// The views of a sequence of entries.
pub open spec fn stats_of(v: Seq<FileInfo>) -> Seq<FileStat> {
    Seq::new(v.len(), |i: int| v[i]@)
}

/// Reads a whole `LIST` reply: `None` while more bytes are needed.
pub fn read_listing(data: &[u8]) -> (r: Option<Result<Vec<FileInfo>, AdbError>>)
    ensures
        match parse_listing(data@, 0) {
            Parse::Incomplete => r is None,
            Parse::Malformed => r matches Some(Err(e)) && e is ProtocolError,
            Parse::Parsed(es, _) => r matches Some(Ok(v)) && stats_of(v@) == es,
        },
{
    let mut out: Vec<FileInfo> = Vec::new();
    let mut pos: usize = 0;
    while pos <= data.len()
        invariant
            pos <= data@.len() + 20,
            parse_listing(data@, 0) == listing_after(stats_of(out@), parse_listing(data@, pos as int)),
        decreases data@.len() + 21 - pos,
    {
        match read_dent(data, pos) {
            None => {
                return None;
            },
            Some(Err(e)) => {
                return Some(Err(e));
            },
            Some(Ok((None, _next))) => {
                assert(stats_of(out@) + Seq::<FileStat>::empty() =~= stats_of(out@));
                return Some(Ok(out));
            },
            Some(Ok((Some(f), next))) => {
                let ghost before = stats_of(out@);
                proof {
                    assert(next > pos);
                }
                out.push(f);
                assert(stats_of(out@) =~= before + seq![f@]);
                proof {
                    match parse_listing(data@, next as int) {
                        Parse::Parsed(rest, end) => {
                            assert(before + (seq![f@] + rest) =~= stats_of(out@) + rest);
                        },
                        _ => {},
                    }
                }
                pos = next;
            },
        }
    }
    None
}

/// One chunk of a `RECV` reply at `pos`.
pub enum ChunkSpec {
    /// `DATA`, a little-endian length and that many bytes.
    Data(Seq<u8>),
    /// `DONE`: the content is complete.
    Done,
    /// `FAIL`, a little-endian length and a message.
    Fail(Seq<u8>),
}

/// One chunk of a `RECV` reply at `pos`.
pub open spec fn parse_chunk(data: Seq<u8>, pos: int) -> Parse<ChunkSpec> {
    if data.len() < pos + 4 {
        Parse::Incomplete
    } else if has_at(data, pos, done_word()) {
        Parse::Parsed(ChunkSpec::Done, pos + 4)
    } else if has_at(data, pos, data_word()) || has_at(data, pos, sync_fail_word()) {
        if data.len() < pos + 8 {
            Parse::Incomplete
        } else {
            let n = le_u32_at(data, pos + 4);
            if data.len() < pos + 8 + n {
                Parse::Incomplete
            } else if has_at(data, pos, data_word()) {
                Parse::Parsed(ChunkSpec::Data(data.subrange(pos + 8, pos + 8 + n)), pos + 8 + n)
            } else {
                Parse::Parsed(ChunkSpec::Fail(data.subrange(pos + 8, pos + 8 + n)), pos + 8 + n)
            }
        }
    } else {
        Parse::Malformed
    }
}

/// Reads one chunk of a `RECV` reply. `DATA` gives its bytes, `DONE` gives
/// `None`, `FAIL` gives a command-failed error with the message, any other tag
/// a protocol error; `None` while more bytes are needed.
pub fn read_chunk(data: &[u8], pos: usize) -> (r: Option<Result<(Option<Vec<u8>>, usize), AdbError>>)
    ensures
        match parse_chunk(data@, pos as int) {
            Parse::Incomplete => r is None,
            Parse::Malformed => r matches Some(Err(e)) && e is ProtocolError,
            Parse::Parsed(ChunkSpec::Done, next) => r matches Some(Ok((None, n))) && n == next,
            Parse::Parsed(ChunkSpec::Data(b), next) => r matches Some(Ok((Some(v), n))) && v@
                == b && n == next,
            Parse::Parsed(ChunkSpec::Fail(m), _) => r matches Some(Err(
                AdbError::CommandFailed { reason, .. },
            )) && reason@ == utf8_lossy(m),
        },
{
    if pos > data.len() || data.len() - pos < 4 {
        return None;
    }
    if word_at(data, pos, 68, 79, 78, 69) {
        return Some(Ok((None, pos + 4)));
    }
    let is_data = word_at(data, pos, 68, 65, 84, 65);
    let is_fail = word_at(data, pos, 70, 65, 73, 76);
    if !is_data && !is_fail {
        return Some(Err(AdbError::protocol_error("unexpected tag in file content")));
    }
    if data.len() - pos < 8 {
        return None;
    }
    let n = read_le_u32(data, pos + 4) as usize;
    if data.len() - pos - 8 < n {
        return None;
    }
    let body = copy_range(data, pos + 8, pos + 8 + n);
    if is_data {
        Some(Ok((Some(body), pos + 8 + n)))
    } else {
        let reason = text_of(body.as_slice());
        Some(Err(AdbError::CommandFailed { command: String::from_str("RECV"), reason }))
    }
}

/// What a content stream yields.
pub enum ItemSpec {
    Bytes(Seq<u8>),
    Failed(Seq<char>),
    Broken,
}

/// The items that the content stream yields for the bytes from `pos` on, when
/// the server has closed the connection after them: the data chunks in order,
/// then at most one error; `DONE` ends the stream without one.
pub open spec fn content_items(data: Seq<u8>, pos: int) -> Seq<ItemSpec>
    decreases data.len() - pos,
{
    match parse_chunk(data, pos) {
        Parse::Incomplete => seq![ItemSpec::Broken],
        Parse::Malformed => seq![ItemSpec::Broken],
        Parse::Parsed(ChunkSpec::Done, _) => Seq::empty(),
        Parse::Parsed(ChunkSpec::Fail(m), _) => seq![ItemSpec::Failed(utf8_lossy(m))],
        Parse::Parsed(ChunkSpec::Data(b), next) => if next <= pos {
            seq![ItemSpec::Broken]
        } else {
            seq![ItemSpec::Bytes(b)] + content_items(data, next)
        },
    }
}

/// Whether the bytes from `pos` on hold a whole content stream: data chunks
/// up to a `DONE`, a `FAIL` or a broken tag.
pub open spec fn content_complete(data: Seq<u8>, pos: int) -> bool
    decreases data.len() - pos,
{
    match parse_chunk(data, pos) {
        Parse::Incomplete => false,
        Parse::Parsed(ChunkSpec::Data(_), next) => if next <= pos {
            true
        } else {
            content_complete(data, next)
        },
        _ => true,
    }
}

/// Whether `data` holds a whole content stream.
pub fn content_is_complete(data: &[u8]) -> (r: bool)
    ensures
        r == content_complete(data@, 0),
{
    let mut pos: usize = 0;
    loop
        invariant
            pos <= data@.len(),
            content_complete(data@, 0) == content_complete(data@, pos as int),
        decreases data@.len() - pos,
    {
        match read_chunk(data, pos) {
            None => {
                return false;
            },
            Some(Ok((Some(_), next))) => {
                pos = next;
            },
            Some(_) => {
                return true;
            },
        }
    }
}

/// A content stream yields only data chunks, but for its last item, which may
/// be the one error that ends it.
pub proof fn lemma_content_error_is_last(data: Seq<u8>, pos: int)
    ensures
        forall|i: int|
            0 <= i < content_items(data, pos).len() - 1 ==> #[trigger] content_items(data, pos)[i] is Bytes,
    decreases data.len() - pos,
{
    match parse_chunk(data, pos) {
        Parse::Parsed(ChunkSpec::Data(b), next) => {
            if next > pos {
                lemma_content_error_is_last(data, next);
                let rest = content_items(data, next);
                let all = content_items(data, pos);
                assert(all == seq![ItemSpec::Bytes(b)] + rest);
                assert forall|i: int| 0 <= i < all.len() - 1 implies #[trigger] all[i] is Bytes by {
                    if i > 0 {
                        assert(all[i] == rest[i - 1]);
                    }
                }
            }
        },
        _ => {},
    }
}

/// Whether an item of the stream is the one described.
pub open spec fn item_matches(r: Result<Vec<u8>, AdbError>, s: ItemSpec) -> bool {
    match s {
        ItemSpec::Bytes(b) => r matches Ok(v) && v@ == b,
        ItemSpec::Failed(m) => r matches Err(AdbError::CommandFailed { reason, .. }) && reason@ == m,
        ItemSpec::Broken => r matches Err(e) && e is ProtocolError,
    }
}

/// The whole content stream of a `RECV` reply that ends where `data` ends.
pub fn content_stream(data: &[u8]) -> (r: Vec<Result<Vec<u8>, AdbError>>)
    ensures
        r@.len() == content_items(data@, 0).len(),
        forall|i: int| 0 <= i < r@.len() ==> item_matches(#[trigger] r@[i], content_items(data@, 0)[i]),
{
    let mut out: Vec<Result<Vec<u8>, AdbError>> = Vec::new();
    let mut pos: usize = 0;
    loop
        invariant
            pos <= data@.len(),
            content_items(data@, 0).len() == out@.len() + content_items(data@, pos as int).len(),
            forall|i: int| 0 <= i < out@.len() ==> item_matches(#[trigger] out@[i], content_items(data@, 0)[i]),
            forall|i: int|
                out@.len() <= i < content_items(data@, 0).len() ==> #[trigger] content_items(data@, 0)[i]
                    == content_items(data@, pos as int)[i - out@.len()],
        decreases data@.len() - pos,
    {
        let ghost before = out@;
        let ghost rest = content_items(data@, pos as int);
        match read_chunk(data, pos) {
            None => {
                out.push(Err(AdbError::protocol_error("connection closed inside a chunk")));
                assert(content_items(data@, 0)[before.len() as int] == rest[0]);
                assert(item_matches(out@[before.len() as int], rest[0]));
                return out;
            },
            Some(Err(e)) => {
                out.push(Err(e));
                assert(content_items(data@, 0)[before.len() as int] == rest[0]);
                assert(item_matches(out@[before.len() as int], rest[0]));
                return out;
            },
            Some(Ok((None, _))) => {
                return out;
            },
            Some(Ok((Some(b), next))) => {
                out.push(Ok(b));
                assert(content_items(data@, 0)[before.len() as int] == rest[0]);
                assert(item_matches(out@[before.len() as int], rest[0]));
                assert forall|i: int|
                    out@.len() <= i < content_items(data@, 0).len() implies #[trigger] content_items(
                    data@,
                    0,
                )[i] == content_items(data@, next as int)[i - out@.len()] by {
                    assert(rest[i - before.len()] == content_items(data@, next as int)[i - out@.len()]);
                }
                pos = next;
            },
        }
    }
}

/// The path and mode of a `SEND` request: `<path>,<mode>`.
pub open spec fn send_target(path: Seq<u8>, mode: nat) -> Seq<u8> {
    path + seq![44u8] + encode_ascii(decimal(mode))
}

/// ASCII bytes of ASCII characters.
pub open spec fn encode_ascii(s: Seq<char>) -> Seq<u8> {
    Seq::new(s.len(), |i: int| s[i] as u8)
}

/// Encodes the `SEND` request that starts a push of `path` with `mode`.
pub fn send_request(path: &str, mode: u32) -> (r: Vec<u8>)
    requires
        path.spec_bytes().len() + 11 <= u32::MAX,
    ensures
        r@ == sync_request_bytes(word(83, 69, 78, 68), send_target(path.spec_bytes(), mode as nat)),
{
    let mut target: Vec<u8> = Vec::new();
    append_bytes(&mut target, path.as_bytes());
    target.push(44);
    let mut digits = String::new();
    push_decimal(&mut digits, mode as u64);
    proof {
        lemma_decimal_len(mode as nat);
    }
    let dl = digits.unicode_len();
    let mut i: usize = 0;
    let ghost head = target@;
    while i < dl
        invariant
            dl == digits@.len(),
            digits@ == decimal(mode as nat),
            i <= dl,
            target@ == head + encode_ascii(digits@.subrange(0, i as int)),
        decreases dl - i,
    {
        let c = digits.get_char(i);
        target.push(c as u8);
        i = i + 1;
        assert(target@ =~= head + encode_ascii(digits@.subrange(0, i as int)));
    }
    assert(digits@.subrange(0, dl as int) =~= digits@);
    assert(target@ =~= send_target(path.spec_bytes(), mode as nat));
    let mut r: Vec<u8> = Vec::new();
    r.push(83);
    r.push(69);
    r.push(78);
    r.push(68);
    push_le_u32(&mut r, target.len() as u32);
    append_bytes(&mut r, target.as_slice());
    assert(r@ =~= sync_request_bytes(word(83, 69, 78, 68), target@));
    r
}

/// A `u32` has at most ten decimal digits.
pub proof fn lemma_decimal_len(n: nat)
    requires
        n <= u32::MAX,
    ensures
        decimal(n).len() <= 10,
{
    reveal_with_fuel(pow10, 11);
    assert(pow10(10) == 10000000000);
    lemma_decimal_len_bound(n, 10);
}

proof fn lemma_decimal_len_bound(n: nat, k: nat)
    requires
        n < pow10(k),
        k >= 1,
    ensures
        decimal(n).len() <= k,
    decreases k,
{
    if n >= 10 {
        assert(k >= 2) by {
            if k == 1 {
                assert(pow10(1) == 10) by {
                    assert(pow10(0) == 1);
                }
            }
        }
        assert(n / 10 < pow10((k - 1) as nat)) by {
            assert(pow10(k) == 10 * pow10((k - 1) as nat));
        }
        lemma_decimal_len_bound(n / 10, (k - 1) as nat);
    }
}

/// Ten to the power `k`.
pub open spec fn pow10(k: nat) -> nat
    decreases k,
{
    if k == 0 { 1 } else { 10 * pow10((k - 1) as nat) }
}

/// A `DATA` chunk of a push: the tag, the length and the bytes.
pub fn data_chunk(data: &[u8]) -> (r: Vec<u8>)
    requires
        data@.len() <= MAX_CHUNK,
    ensures
        r@ == data_word() + le_bytes(data@.len()) + data@,
{
    let mut r: Vec<u8> = Vec::new();
    r.push(68);
    r.push(65);
    r.push(84);
    r.push(65);
    push_le_u32(&mut r, data.len() as u32);
    append_bytes(&mut r, data);
    assert(r@ =~= data_word() + le_bytes(data@.len()) + data@);
    r
}

/// The `DONE` that ends a push, with the file's modification time.
pub fn done_chunk(mtime: u32) -> (r: Vec<u8>)
    ensures
        r@ == done_word() + le_bytes(mtime as nat),
{
    let mut r: Vec<u8> = Vec::new();
    r.push(68);
    r.push(79);
    r.push(78);
    r.push(69);
    push_le_u32(&mut r, mtime);
    assert(r@ =~= done_word() + le_bytes(mtime as nat));
    r
}

/// The `DATA` chunks that carry `c`, each at most `MAX_CHUNK` bytes long.
pub open spec fn data_chunks(c: Seq<u8>) -> Seq<u8>
    decreases c.len(),
{
    if c.len() == 0 {
        Seq::empty()
    } else if c.len() <= MAX_CHUNK {
        data_word() + le_bytes(c.len()) + c
    } else {
        data_word() + le_bytes(MAX_CHUNK as nat) + c.subrange(0, MAX_CHUNK as int) + data_chunks(
            c.subrange(MAX_CHUNK as int, c.len() as int),
        )
    }
}

/// The body of a push: the content in `DATA` chunks, then `DONE` with the
/// modification time.
pub fn send_body(content: &[u8], mtime: u32) -> (r: Vec<u8>)
    ensures
        r@ == data_chunks(content@) + done_word() + le_bytes(mtime as nat),
{
    let mut out: Vec<u8> = Vec::new();
    let mut pos: usize = 0;
    let n = content.len();
    assert(content@.subrange(0, n as int) =~= content@);
    while pos < n
        invariant
            n == content@.len(),
            pos <= n,
            data_chunks(content@) == out@ + data_chunks(content@.subrange(pos as int, n as int)),
        decreases n - pos,
    {
        let ghost rest = content@.subrange(pos as int, n as int);
        let size = if n - pos > MAX_CHUNK { MAX_CHUNK } else { n - pos };
        let piece = copy_range(content, pos, pos + size);
        let chunk = data_chunk(piece.as_slice());
        let ghost before = out@;
        append_bytes(&mut out, chunk.as_slice());
        assert(piece@ =~= rest.subrange(0, size as int));
        assert(rest.subrange(size as int, rest.len() as int) =~= content@.subrange(pos + size, n as int));
        if size == n - pos {
            assert(rest.subrange(0, size as int) =~= rest);
            assert(content@.subrange(pos + size, n as int) =~= Seq::<u8>::empty());
        }
        assert(out@ == before + (data_word() + le_bytes(size as nat) + rest.subrange(0, size as int)));
        pos = pos + size;
    }
    assert(content@.subrange(n as int, n as int) =~= Seq::<u8>::empty());
    let done = done_chunk(mtime);
    append_bytes(&mut out, done.as_slice());
    assert(out@ =~= data_chunks(content@) + done_word() + le_bytes(mtime as nat));
    out
}

/// The answer to a finished push at `pos`: `OKAY` and four bytes, or `FAIL`,
/// a little-endian length and a message.
pub open spec fn parse_sync_status(data: Seq<u8>, pos: int) -> Parse<Option<Seq<u8>>> {
    if data.len() < pos + 8 {
        Parse::Incomplete
    } else if has_at(data, pos, word(79, 75, 65, 89)) {
        Parse::Parsed(None, pos + 8)
    } else if has_at(data, pos, sync_fail_word()) {
        let n = le_u32_at(data, pos + 4);
        if data.len() < pos + 8 + n {
            Parse::Incomplete
        } else {
            Parse::Parsed(Some(data.subrange(pos + 8, pos + 8 + n)), pos + 8 + n)
        }
    } else {
        Parse::Malformed
    }
}

/// Reads the answer to a finished push; `None` while more bytes are needed.
pub fn read_sync_status(data: &[u8], pos: usize) -> (r: Option<Result<usize, AdbError>>)
    ensures
        match parse_sync_status(data@, pos as int) {
            Parse::Incomplete => r is None,
            Parse::Malformed => r matches Some(Err(e)) && e is ProtocolError,
            Parse::Parsed(None, next) => r matches Some(Ok(n)) && n == next,
            Parse::Parsed(Some(m), _) => r matches Some(Err(AdbError::CommandFailed { reason, .. }))
                && reason@ == utf8_lossy(m),
        },
{
    if pos > data.len() || data.len() - pos < 8 {
        return None;
    }
    if word_at(data, pos, 79, 75, 65, 89) {
        return Some(Ok(pos + 8));
    }
    if !word_at(data, pos, 70, 65, 73, 76) {
        return Some(Err(AdbError::protocol_error("unexpected answer to a push")));
    }
    let n = read_le_u32(data, pos + 4) as usize;
    if data.len() - pos - 8 < n {
        return None;
    }
    let body = copy_range(data, pos + 8, pos + 8 + n);
    let reason = text_of(body.as_slice());
    Some(Err(AdbError::CommandFailed { command: String::from_str("SEND"), reason }))
}

} // verus!
