//! Request framing and the status words of the host protocol.
use vstd::prelude::*;
use vstd::string::*;
use crate::bytes::{append_bytes, copy_range, has_at};
use crate::errors::AdbError;
use crate::text::{text_of, utf8_lossy};

verus! {

/// Outcome of reading one protocol element out of a byte stream at some
/// offset: more bytes are needed, the bytes break the protocol, or the
/// element was read and the next one starts at the given offset.
pub enum Parse<T> {
    Incomplete,
    Malformed,
    Parsed(T, int),
}

/// The four bytes of a status word or tag.
pub open spec fn word(a: u8, b: u8, c: u8, d: u8) -> Seq<u8> {
    seq![a, b, c, d]
}

/// `OKAY`
pub open spec fn okay_word() -> Seq<u8> {
    word(79, 75, 65, 89)
}

/// `FAIL`
pub open spec fn fail_word() -> Seq<u8> {
    word(70, 65, 73, 76)
}

/// Lower-case ASCII hex digit of a value below 16.
pub open spec fn hex_digit(v: nat) -> u8 {
    if v < 10 {
        (v + 48) as u8
    } else {
        (v + 87) as u8
    }
}

/// Four lower-case hex digits of `n`, most significant first.
pub open spec fn hex4(n: nat) -> Seq<u8> {
    seq![hex_digit(n / 4096 % 16), hex_digit(n / 256 % 16), hex_digit(n / 16 % 16), hex_digit(n % 16)]
}

/// A request frame: the payload's length as four hex digits, then the payload.
pub open spec fn frame(payload: Seq<u8>) -> Seq<u8> {
    hex4(payload.len()) + payload
}

/// Value of an ASCII hex digit of either case.
pub open spec fn hex_value(b: u8) -> Option<nat> {
    if 48 <= b <= 57 {
        Some((b - 48) as nat)
    } else if 97 <= b <= 102 {
        Some((b - 87) as nat)
    } else if 65 <= b <= 70 {
        Some((b - 55) as nat)
    } else {
        None
    }
}

/// Value of the four hex digits of `data` at `pos`.
pub open spec fn hex4_value(data: Seq<u8>, pos: int) -> Option<nat> {
    match (hex_value(data[pos]), hex_value(data[pos + 1]), hex_value(data[pos + 2]), hex_value(data[pos + 3])) {
        (Some(a), Some(b), Some(c), Some(d)) => Some(4096 * a + 256 * b + 16 * c + d),
        _ => None,
    }
}

/// A length-prefixed block at `pos`: four hex digits, then that many bytes.
pub open spec fn parse_block(data: Seq<u8>, pos: int) -> Parse<Seq<u8>> {
    if data.len() < pos + 4 {
        Parse::Incomplete
    } else {
        match hex4_value(data, pos) {
            None => Parse::Malformed,
            Some(n) => if data.len() < pos + 4 + n {
                Parse::Incomplete
            } else {
                Parse::Parsed(data.subrange(pos + 4, pos + 4 + n), pos + 4 + n)
            },
        }
    }
}

/// A status word at `pos`: `OKAY` gives `None`, `FAIL` and a block give the
/// block's bytes, anything else breaks the protocol.
pub open spec fn parse_status(data: Seq<u8>, pos: int) -> Parse<Option<Seq<u8>>> {
    if data.len() < pos + 4 {
        Parse::Incomplete
    } else if has_at(data, pos, okay_word()) {
        Parse::Parsed(None, pos + 4)
    } else if has_at(data, pos, fail_word()) {
        match parse_block(data, pos + 4) {
            Parse::Incomplete => Parse::Incomplete,
            Parse::Malformed => Parse::Malformed,
            Parse::Parsed(msg, next) => Parse::Parsed(Some(msg), next),
        }
    } else {
        Parse::Malformed
    }
}

fn hex_digit_byte(v: u64) -> (r: u8)
    requires
        v < 16,
    ensures
        r == hex_digit(v as nat),
{
    if v < 10 {
        (v + 48) as u8
    } else {
        (v + 87) as u8
    }
}

/// Frames a command: four lower-case hex digits giving the payload length,
/// then the payload bytes.
pub fn build_command_packet(command: &str) -> (r: Vec<u8>)
    requires
        command.spec_bytes().len() <= 0xFFFF,
    ensures
        r@ == frame(command.spec_bytes()),
{
    let payload = command.as_bytes();
    let n = payload.len() as u64;
    let mut packet: Vec<u8> = Vec::new();
    packet.push(hex_digit_byte(n / 4096 % 16));
    packet.push(hex_digit_byte(n / 256 % 16));
    packet.push(hex_digit_byte(n / 16 % 16));
    packet.push(hex_digit_byte(n % 16));
    assert(packet@ =~= hex4(payload@.len()));
    append_bytes(&mut packet, payload);
    packet
}

/// Whether `data` is exactly `OKAY`.
pub fn is_okay_response(data: &[u8]) -> (r: bool)
    ensures
        r == (data@ == okay_word()),
{
    let r = data.len() == 4 && data[0] == 79 && data[1] == 75 && data[2] == 65 && data[3] == 89;
    assert(r ==> data@ =~= okay_word());
    r
}

/// Whether `data` is exactly `FAIL`.
pub fn is_fail_response(data: &[u8]) -> (r: bool)
    ensures
        r == (data@ == fail_word()),
{
    let r = data.len() == 4 && data[0] == 70 && data[1] == 65 && data[2] == 73 && data[3] == 76;
    assert(r ==> data@ =~= fail_word());
    r
}

fn hex_byte_value(b: u8) -> (r: Option<u64>)
    ensures
        r matches Some(v) ==> hex_value(b) == Some(v as nat),
        r is None ==> hex_value(b) is None,
{
    if 48 <= b && b <= 57 {
        Some((b - 48) as u64)
    } else if 97 <= b && b <= 102 {
        Some((b - 87) as u64)
    } else if 65 <= b && b <= 70 {
        Some((b - 55) as u64)
    } else {
        None
    }
}

fn hex4_at(data: &[u8], pos: usize) -> (r: Option<usize>)
    requires
        pos + 4 <= data@.len(),
    ensures
        r matches Some(v) ==> hex4_value(data@, pos as int) == Some(v as nat),
        r is None ==> hex4_value(data@, pos as int) is None,
{
    let a = hex_byte_value(data[pos]);
    let b = hex_byte_value(data[pos + 1]);
    let c = hex_byte_value(data[pos + 2]);
    let d = hex_byte_value(data[pos + 3]);
    match (a, b, c, d) {
        (Some(a), Some(b), Some(c), Some(d)) => Some((4096 * a + 256 * b + 16 * c + d) as usize),
        _ => None,
    }
}

/// Reads the four hex digits that prefix a block.
pub fn parse_length_prefix(data: &[u8]) -> (r: Result<usize, AdbError>)
    ensures
        data@.len() >= 4 && hex4_value(data@, 0) is Some <==> r is Ok,
        r matches Ok(n) ==> hex4_value(data@, 0) == Some(n as nat),
        r matches Err(e) ==> e is ProtocolError,
{
    if data.len() < 4 {
        return Err(AdbError::protocol_error("Invalid length prefix"));
    }
    match hex4_at(data, 0) {
        Some(n) => Ok(n),
        None => Err(AdbError::protocol_error("Invalid length")),
    }
}

/// Reads the length-prefixed block at `pos`: `None` while more bytes are
/// needed, else the block's bytes and the offset after it.
pub fn read_block(data: &[u8], pos: usize) -> (r: Option<Result<(Vec<u8>, usize), AdbError>>)
    ensures
        match parse_block(data@, pos as int) {
            Parse::Incomplete => r is None,
            Parse::Malformed => r matches Some(Err(e)) && e is ProtocolError,
            Parse::Parsed(b, next) => r matches Some(Ok((v, n))) && v@ == b && n == next,
        },
{
    if pos > data.len() || data.len() - pos < 4 {
        return None;
    }
    match hex4_at(data, pos) {
        None => Some(Err(AdbError::protocol_error("Invalid length"))),
        Some(n) => {
            if data.len() - pos - 4 < n {
                None
            } else {
                let v = copy_range(data, pos + 4, pos + 4 + n);
                Some(Ok((v, pos + 4 + n)))
            }
        },
    }
}

/// Reads the status word at `pos`. `None` while more bytes are needed;
/// `OKAY` gives the offset after it; `FAIL` gives a command-failed error
/// carrying `command` and the server's message; any other word gives a
/// protocol error.
pub fn read_status(data: &[u8], pos: usize, command: &str) -> (r: Option<Result<usize, AdbError>>)
    ensures
        r matches Some(Ok(n)) ==> parse_status(data@, pos as int) == Parse::Parsed(
            None::<Seq<u8>>,
            n as int,
        ),
        match parse_status(data@, pos as int) {
            Parse::Incomplete => r is None,
            Parse::Malformed => r matches Some(Err(e)) && e is ProtocolError,
            Parse::Parsed(None, next) => r == Some(Ok::<usize, AdbError>(next as usize)),
            Parse::Parsed(Some(msg), _) => r matches Some(Err(
                AdbError::CommandFailed { command: c, reason },
            )) && c@ == command@ && reason@ == utf8_lossy(msg),
        },
{
    if pos > data.len() || data.len() - pos < 4 {
        return None;
    }
    if data[pos] == 79 && data[pos + 1] == 75 && data[pos + 2] == 65 && data[pos + 3] == 89 {
        assert(data@.subrange(pos as int, pos + 4) =~= okay_word());
        return Some(Ok(pos + 4));
    }
    assert(!has_at(data@, pos as int, okay_word())) by {
        if has_at(data@, pos as int, okay_word()) {
            assert(data@.subrange(pos as int, pos + 4)[0] == data@[pos as int]);
            assert(data@.subrange(pos as int, pos + 4)[1] == data@[pos + 1]);
            assert(data@.subrange(pos as int, pos + 4)[2] == data@[pos + 2]);
            assert(data@.subrange(pos as int, pos + 4)[3] == data@[pos + 3]);
        }
    }
    if data[pos] == 70 && data[pos + 1] == 65 && data[pos + 2] == 73 && data[pos + 3] == 76 {
        assert(data@.subrange(pos as int, pos + 4) =~= fail_word());
        return match read_block(data, pos + 4) {
            None => None,
            Some(Err(e)) => Some(Err(e)),
            Some(Ok((msg, _next))) => {
                let reason = text_of(msg.as_slice());
                Some(Err(AdbError::CommandFailed { command: String::from_str(command), reason }))
            },
        };
    }
    assert(!has_at(data@, pos as int, fail_word())) by {
        if has_at(data@, pos as int, fail_word()) {
            assert(data@.subrange(pos as int, pos + 4)[0] == data@[pos as int]);
            assert(data@.subrange(pos as int, pos + 4)[1] == data@[pos + 1]);
            assert(data@.subrange(pos as int, pos + 4)[2] == data@[pos + 2]);
            assert(data@.subrange(pos as int, pos + 4)[3] == data@[pos + 3]);
        }
    }
    Some(Err(AdbError::protocol_error("Unexpected response")))
}

/// Whether the four bytes of `data` at `pos` are the word `a b c d`.
pub fn word_at(data: &[u8], pos: usize, a: u8, b: u8, c: u8, d: u8) -> (r: bool)
    ensures
        r == has_at(data@, pos as int, word(a, b, c, d)),
{
    if pos > data.len() || data.len() - pos < 4 {
        return false;
    }
    let r = data[pos] == a && data[pos + 1] == b && data[pos + 2] == c && data[pos + 3] == d;
    let ghost w = data@.subrange(pos as int, pos + 4);
    assert(w[0] == data@[pos as int] && w[1] == data@[pos + 1] && w[2] == data@[pos + 2] && w[3]
        == data@[pos + 3]);
    if r {
        assert(w =~= word(a, b, c, d));
    }
    r
}

/// Reading the block at the start of a frame gives back its payload and ends
/// where the frame ends.
pub proof fn lemma_frame_round_trip(payload: Seq<u8>)
    requires
        payload.len() <= 0xFFFF,
    ensures
        parse_block(frame(payload), 0) == Parse::Parsed(payload, frame(payload).len() as int),
{
    let n = payload.len();
    let f = frame(payload);
    assert(hex4_value(f, 0) == Some(n)) by {
        assert(f[0] == hex_digit(n / 4096 % 16));
        assert(f[1] == hex_digit(n / 256 % 16));
        assert(f[2] == hex_digit(n / 16 % 16));
        assert(f[3] == hex_digit(n % 16));
        assert(4096 * (n / 4096 % 16) + 256 * (n / 256 % 16) + 16 * (n / 16 % 16) + n % 16 == n)
            by (nonlinear_arith)
            requires
                n <= 0xFFFF,
        {
        }
    }
    assert(f.subrange(4, 4 + n as int) =~= payload);
}

} // verus!
