//! One operation on a connection: what is sent, and the decoding of every
//! byte the server sends back.
use vstd::prelude::*;
use vstd::string::*;
use crate::command::texts_of;
use crate::errors::AdbError;
use crate::sync::{content_complete, content_is_complete, parse_sync_status, read_sync_status, content_items, content_stream, item_matches, parse_listing, parse_stat, read_listing, read_stat, stats_of, FileInfo, FileStat, ItemSpec};
use crate::text::{text_of, utf8_lossy};
use crate::bytes::has_at;
use crate::wire::{okay_word, parse_block, parse_status, read_block, read_status, Parse};

verus! {

/// What follows the status words of a request.
#[derive(Debug, Clone, Copy, PartialEq, Eq, Structural)]
pub enum ReplyKind {
    /// Nothing: the last `OKAY` completes the operation.
    Nothing,
    /// One length-prefixed block of text.
    Block,
    /// Raw bytes until the server closes the connection.
    UntilClose,
    /// A raw stream handed to the caller.
    Stream,
    /// The reply to a SYNC `STAT`.
    SyncStat,
    /// The entries of a SYNC `LIST`.
    SyncList,
    /// The chunks of a SYNC `RECV`.
    SyncRecv,
    /// The answer to a finished SYNC `SEND`.
    SyncDone,
}

/// One operation on a fresh connection: each command is framed and answered
/// by a status word; after the last `OKAY`, `sync` (a raw SYNC request, maybe
/// empty) is written, and the reply has the given kind.
#[derive(Debug)]
pub struct Request {
    pub commands: Vec<String>,
    pub sync: Vec<u8>,
    /// The remote path of a SYNC request; empty otherwise.
    pub path: String,
    pub reply: ReplyKind,
}

/// The content of a `Request`.
pub struct RequestView {
    pub commands: Seq<Seq<char>>,
    pub sync: Seq<u8>,
    pub path: Seq<char>,
    pub reply: ReplyKind,
}

impl View for Request {
    type V = RequestView;

    open spec fn view(&self) -> RequestView {
        RequestView {
            commands: texts_of(self.commands@),
            sync: self.sync@,
            path: self.path@,
            reply: self.reply,
        }
    }
}

/// A request of commands only.
pub open spec fn plain_request(commands: Seq<Seq<char>>, reply: ReplyKind) -> RequestView {
    RequestView { commands, sync: Seq::empty(), path: Seq::empty(), reply }
}

/// The status words of commands `k..n` from `pos`: all `OKAY` gives `None`
/// and the offset after them; the first `FAIL` gives the index of its
/// command and its message.
pub open spec fn parse_statuses(data: Seq<u8>, pos: int, k: nat, n: nat) -> Parse<Option<(nat, Seq<u8>)>>
    decreases n - k,
{
    if k >= n {
        Parse::Parsed(None, pos)
    } else {
        match parse_status(data, pos) {
            Parse::Incomplete => Parse::Incomplete,
            Parse::Malformed => Parse::Malformed,
            Parse::Parsed(Some(msg), next) => Parse::Parsed(Some((k, msg)), next),
            Parse::Parsed(None, next) => parse_statuses(data, next, k + 1, n),
        }
    }
}

/// What the server's bytes amount to.
pub enum ReplySpec {
    /// The connection closed before the reply was complete, or the bytes
    /// broke the protocol.
    Broken,
    /// The command with this index was refused with this message.
    Refused(nat, Seq<u8>),
    Done,
    Text(Seq<char>),
    Bytes(Seq<u8>),
    Stat(FileStat),
    Listing(Seq<FileStat>),
    Content(Seq<ItemSpec>),
    /// The SYNC session refused the request with this message.
    Rejected(Seq<u8>),
}

/// The reply held in `rest`, the bytes after the status words.
pub open spec fn body_reply(r: RequestView, rest: Seq<u8>) -> ReplySpec {
    match r.reply {
        ReplyKind::Nothing => ReplySpec::Done,
        ReplyKind::Block => match parse_block(rest, 0) {
            Parse::Parsed(b, _) => ReplySpec::Text(utf8_lossy(b)),
            _ => ReplySpec::Broken,
        },
        ReplyKind::UntilClose => ReplySpec::Bytes(rest),
        ReplyKind::Stream => ReplySpec::Bytes(rest),
        ReplyKind::SyncStat => match parse_stat(rest, 0, r.path) {
            Parse::Parsed(f, _) => ReplySpec::Stat(f),
            _ => ReplySpec::Broken,
        },
        ReplyKind::SyncList => match parse_listing(rest, 0) {
            Parse::Parsed(es, _) => ReplySpec::Listing(es),
            _ => ReplySpec::Broken,
        },
        ReplyKind::SyncRecv => ReplySpec::Content(content_items(rest, 0)),
        ReplyKind::SyncDone => match parse_sync_status(rest, 0) {
            Parse::Parsed(None, _) => ReplySpec::Done,
            Parse::Parsed(Some(m), _) => ReplySpec::Rejected(m),
            _ => ReplySpec::Broken,
        },
    }
}

/// The reply that `data`, everything the server sent before closing the
/// connection, gives for the request.
pub open spec fn reply_of(r: RequestView, data: Seq<u8>) -> ReplySpec {
    match parse_statuses(data, 0, 0, r.commands.len()) {
        Parse::Incomplete => ReplySpec::Broken,
        Parse::Malformed => ReplySpec::Broken,
        Parse::Parsed(Some((k, msg)), _) => ReplySpec::Refused(k, msg),
        Parse::Parsed(None, pos) => body_reply(r, data.subrange(pos, data.len() as int)),
    }
}

/// `n` status words `OKAY`.
pub open spec fn okays(n: nat) -> Seq<u8>
    decreases n,
{
    if n == 0 {
        Seq::empty()
    } else {
        okays((n - 1) as nat) + okay_word()
    }
}

proof fn lemma_okays_len(n: nat)
    ensures
        okays(n).len() == 4 * n,
    decreases n,
{
    if n > 0 {
        lemma_okays_len((n - 1) as nat);
    }
}

proof fn lemma_okay_at(n: nat, k: nat, body: Seq<u8>)
    requires
        k < n,
    ensures
        has_at(okays(n) + body, (4 * k) as int, okay_word()),
    decreases n,
{
    lemma_okays_len(n);
    lemma_okays_len((n - 1) as nat);
    let d = okays(n) + body;
    if k == n - 1 {
        assert(d.subrange((4 * k) as int, (4 * k + 4) as int) =~= okay_word());
    } else {
        lemma_okay_at((n - 1) as nat, k, okay_word() + body);
        assert(okays((n - 1) as nat) + (okay_word() + body) =~= d);
    }
}

proof fn lemma_statuses_accepted(n: nat, k: nat, body: Seq<u8>)
    requires
        k <= n,
    ensures
        parse_statuses(okays(n) + body, (4 * k) as int, k, n) == Parse::Parsed(
            None::<(nat, Seq<u8>)>,
            (4 * n) as int,
        ),
    decreases n - k,
{
    lemma_okays_len(n);
    if k < n {
        lemma_okay_at(n, k, body);
        lemma_statuses_accepted(n, k + 1, body);
        assert(4 * k + 4 == 4 * (k + 1));
    }
}

/// When the server accepts every command, the reply is read from exactly the
/// bytes that follow the status words.
pub proof fn lemma_accepted_request_reply(r: RequestView, body: Seq<u8>)
    ensures
        reply_of(r, okays(r.commands.len()) + body) == body_reply(r, body),
{
    let n = r.commands.len();
    lemma_statuses_accepted(n, 0, body);
    lemma_okays_len(n);
    let d = okays(n) + body;
    assert(d.subrange((4 * n) as int, d.len() as int) =~= body);
}

/// A decoded reply.
pub enum Reply {
    Done,
    Text(String),
    Bytes(Vec<u8>),
    Stat(FileInfo),
    Listing(Vec<FileInfo>),
    Content(Vec<Result<Vec<u8>, AdbError>>),
}

/// Whether a decoded reply is what the spec reply describes, for a request
/// whose commands are `commands`.
pub open spec fn reply_matches(
    r: Result<Reply, AdbError>,
    s: ReplySpec,
    commands: Seq<Seq<char>>,
) -> bool {
    match s {
        ReplySpec::Broken => r matches Err(e) && e is ProtocolError,
        ReplySpec::Refused(k, msg) => r matches Err(AdbError::CommandFailed { command, reason })
            && k < commands.len() && command@ == commands[k as int] && reason@ == utf8_lossy(msg),
        ReplySpec::Done => r matches Ok(Reply::Done),
        ReplySpec::Text(t) => r matches Ok(Reply::Text(v)) && v@ == t,
        ReplySpec::Bytes(b) => r matches Ok(Reply::Bytes(v)) && v@ == b,
        ReplySpec::Stat(f) => r matches Ok(Reply::Stat(v)) && v@ == f,
        ReplySpec::Listing(es) => r matches Ok(Reply::Listing(v)) && stats_of(v@) == es,
        ReplySpec::Rejected(m) => r matches Err(AdbError::CommandFailed { reason, .. }) && reason@
            == utf8_lossy(m),
        ReplySpec::Content(items) => r matches Ok(Reply::Content(v)) && v@.len() == items.len()
            && forall|i: int| 0 <= i < items.len() ==> item_matches(#[trigger] v@[i], items[i]),
    }
}

fn closed_early() -> (e: AdbError)
    ensures
        e is ProtocolError,
{
    AdbError::protocol_error("connection closed before the reply was complete")
}

fn tail(data: &[u8], pos: usize) -> (r: Vec<u8>)
    requires
        pos <= data@.len(),
    ensures
        r@ == data@.subrange(pos as int, data@.len() as int),
{
    crate::bytes::copy_range(data, pos, data.len())
}

/// Whether the bytes after the status words hold the whole reply, so that
/// reading can stop; a reply read to the end of the stream is never whole
/// before that.
pub open spec fn reply_complete(kind: ReplyKind, rest: Seq<u8>, path: Seq<char>) -> bool {
    match kind {
        ReplyKind::Nothing => true,
        ReplyKind::Block => !(parse_block(rest, 0) is Incomplete),
        ReplyKind::UntilClose => false,
        ReplyKind::Stream => false,
        ReplyKind::SyncStat => !(parse_stat(rest, 0, path) is Incomplete),
        ReplyKind::SyncList => !(parse_listing(rest, 0) is Incomplete),
        ReplyKind::SyncRecv => content_complete(rest, 0),
        ReplyKind::SyncDone => !(parse_sync_status(rest, 0) is Incomplete),
    }
}

impl Request {
    /// Whether the bytes from `start` on, after the status words, hold the
    /// whole reply.
    pub fn is_complete(&self, data: &[u8], start: usize) -> (r: bool)
        requires
            start <= data@.len(),
        ensures
            r == reply_complete(self.reply, data@.subrange(start as int, data@.len() as int), self.path@),
    {
        let rest = tail(data, start);
        let rest = rest.as_slice();
        match self.reply {
            ReplyKind::Nothing => true,
            ReplyKind::Block => read_block(rest, 0).is_some(),
            ReplyKind::UntilClose => false,
            ReplyKind::Stream => false,
            ReplyKind::SyncStat => read_stat(rest, 0, self.path.as_str()).is_some(),
            ReplyKind::SyncList => read_listing(rest).is_some(),
            ReplyKind::SyncRecv => content_is_complete(rest),
            ReplyKind::SyncDone => read_sync_status(rest, 0).is_some(),
        }
    }

    /// Reads the status words of the commands; `None` while more bytes are
    /// needed, else the offset where the reply starts.
    pub fn read_statuses(&self, data: &[u8]) -> (r: Option<Result<usize, AdbError>>)
        ensures
            r matches Some(Ok(p)) ==> p <= data@.len() && parse_statuses(data@, 0, 0, self@.commands.len())
                == Parse::Parsed(None::<(nat, Seq<u8>)>, p as int),
            match parse_statuses(data@, 0, 0, self@.commands.len()) {
                Parse::Incomplete => r is None,
                Parse::Malformed => r matches Some(Err(e)) && e is ProtocolError,
                Parse::Parsed(None, end) => r == Some(Ok::<usize, AdbError>(end as usize)),
                Parse::Parsed(Some((k, msg)), _) => r matches Some(Err(
                    AdbError::CommandFailed { command, reason },
                )) && k < self@.commands.len() && command@ == self@.commands[k as int] && reason@
                    == utf8_lossy(msg),
            },
    {
        let n = self.commands.len();
        let mut k: usize = 0;
        let mut pos: usize = 0;
        while k < n
            invariant
                n == self@.commands.len(),
                k <= n,
                pos <= data@.len(),
                parse_statuses(data@, 0, 0, n as nat) == parse_statuses(data@, pos as int, k as nat, n as nat),
            decreases n - k,
        {
            match read_status(data, pos, self.commands[k].as_str()) {
                None => {
                    return None;
                },
                Some(Err(e)) => {
                    return Some(Err(e));
                },
                Some(Ok(next)) => {
                    assert(parse_statuses(data@, pos as int, k as nat, n as nat) == parse_statuses(
                        data@,
                        next as int,
                        (k + 1) as nat,
                        n as nat,
                    ));
                    pos = next;
                    k = k + 1;
                },
            }
        }
        Some(Ok(pos))
    }

    /// Decodes everything the server sent before it closed the connection.
    pub fn decode(&self, data: &[u8]) -> (r: Result<Reply, AdbError>)
        ensures
            reply_matches(r, reply_of(self@, data@), self@.commands),
    {
        let pos = match self.read_statuses(data) {
            None => {
                return Err(closed_early());
            },
            Some(Err(e)) => {
                return Err(e);
            },
            Some(Ok(pos)) => pos,
        };
        match self.reply {
            ReplyKind::Nothing => Ok(Reply::Done),
            ReplyKind::Block => {
                let rest = tail(data, pos);
                match read_block(rest.as_slice(), 0) {
                    None => Err(closed_early()),
                    Some(Err(e)) => Err(e),
                    Some(Ok((b, _))) => Ok(Reply::Text(text_of(b.as_slice()))),
                }
            },
            ReplyKind::UntilClose => Ok(Reply::Bytes(tail(data, pos))),
            ReplyKind::Stream => Ok(Reply::Bytes(tail(data, pos))),
            ReplyKind::SyncStat => {
                let rest = tail(data, pos);
                match read_stat(rest.as_slice(), 0, self.path.as_str()) {
                    None => Err(closed_early()),
                    Some(Err(e)) => Err(e),
                    Some(Ok((f, _))) => Ok(Reply::Stat(f)),
                }
            },
            ReplyKind::SyncList => {
                let rest = tail(data, pos);
                match read_listing(rest.as_slice()) {
                    None => Err(closed_early()),
                    Some(Err(e)) => Err(e),
                    Some(Ok(v)) => Ok(Reply::Listing(v)),
                }
            },
            ReplyKind::SyncRecv => {
                let rest = tail(data, pos);
                Ok(Reply::Content(content_stream(rest.as_slice())))
            },
            ReplyKind::SyncDone => {
                let rest = tail(data, pos);
                match read_sync_status(rest.as_slice(), 0) {
                    None => Err(closed_early()),
                    Some(Err(e)) => Err(e),
                    Some(Ok(_)) => Ok(Reply::Done),
                }
            },
        }
    }
}

} // verus!
