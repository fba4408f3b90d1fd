//! Judging and joining what operations return.
use vstd::prelude::*;
use vstd::string::*;
use crate::errors::AdbError;
use crate::text::{
    contains, contains_text, decimal, has_text_at, push_char, push_decimal, starts_with, text_of,
    trim_text, trimmed, utf8_lossy,
};

verus! {

/// Shell output as text.
pub fn output_text(output: &[u8]) -> (r: String)
    ensures
        r@ == utf8_lossy(output@),
{
    text_of(output)
}

/// Shell output as text without leading and trailing white space.
pub fn trim_output(output: &[u8]) -> (r: String)
    ensures
        r@ == trimmed(utf8_lossy(output@)),
{
    let t = text_of(output);
    trim_text(t.as_str())
}

/// `pm install` succeeded when its output mentions `Success`.
pub fn install_succeeded(output: &str) -> (r: bool)
    ensures
        r == contains_text(output@, "Success"@),
{
    contains(output, "Success")
}

/// The screen is on when `dumpsys power` reports a held display suspend
/// blocker.
pub fn screen_is_on(output: &str) -> (r: bool)
    ensures
        r == contains_text(output@, "mHoldingDisplaySuspendBlocker=true"@),
{
    contains(output, "mHoldingDisplaySuspendBlocker=true")
}

/// Progress of looking for the `GLES:` line: the line found, if any, and the
/// current line.
pub open spec fn gpu_scan(s: Seq<char>) -> (Option<Seq<char>>, Seq<char>)
    decreases s.len(),
{
    if s.len() == 0 {
        (None, Seq::empty())
    } else {
        let (found, cur) = gpu_scan(s.drop_last());
        let c = s.last();
        if found is Some {
            (found, cur)
        } else if c == '\n' {
            if has_text_at(cur, 0, "GLES:"@) {
                (Some(cur), Seq::empty())
            } else {
                (None, Seq::empty())
            }
        } else {
            (None, cur.push(c))
        }
    }
}

/// The first line of `s` that starts with `GLES:`.
pub open spec fn gpu_of(s: Seq<char>) -> Option<Seq<char>> {
    let (found, cur) = gpu_scan(s);
    if found is Some {
        found
    } else if has_text_at(cur, 0, "GLES:"@) {
        Some(cur)
    } else {
        None
    }
}

/// The first line of `dumpsys SurfaceFlinger` output that starts with
/// `GLES:`.
pub fn gpu_line(output: &str) -> (r: Result<String, AdbError>)
    ensures
        match gpu_of(output@) {
            Some(l) => r matches Ok(v) && v@ == l,
            None => r matches Err(e) && e is Unknown,
        },
{
    let n = output.unicode_len();
    let mut cur = String::new();
    let mut i: usize = 0;
    while i < n
        invariant
            n == output@.len(),
            i <= n,
            gpu_scan(output@.subrange(0, i as int)) == (None::<Seq<char>>, cur@),
        decreases n - i,
    {
        let c = output.get_char(i);
        let ghost prefix = output@.subrange(0, i + 1);
        assert(prefix.drop_last() =~= output@.subrange(0, i as int));
        if c == '\n' {
            if starts_with(cur.as_str(), "GLES:") {
                proof {
                    lemma_gpu_found_stays(output@, i + 1, cur@);
                }
                return Ok(cur);
            }
            cur = String::new();
        } else {
            push_char(&mut cur, c);
        }
        i = i + 1;
    }
    assert(output@.subrange(0, n as int) =~= output@);
    if starts_with(cur.as_str(), "GLES:") {
        Ok(cur)
    } else {
        Err(AdbError::unknown("fail to get gpu"))
    }
}

proof fn lemma_gpu_found_stays(s: Seq<char>, k: int, line: Seq<char>)
    requires
        0 <= k <= s.len(),
        gpu_scan(s.subrange(0, k)).0 == Some(line),
    ensures
        gpu_of(s) == Some(line),
    decreases s.len() - k,
{
    if k < s.len() {
        assert(s.subrange(0, k + 1).drop_last() =~= s.subrange(0, k));
        lemma_gpu_found_stays(s, k + 1, line);
    } else {
        assert(s.subrange(0, k) =~= s);
    }
}

/// The bytes of the data items of a content stream, in order.
pub open spec fn ok_bytes(items: Seq<Result<Vec<u8>, AdbError>>) -> Seq<u8>
    decreases items.len(),
{
    if items.len() == 0 {
        Seq::empty()
    } else {
        ok_bytes(items.drop_last()) + match items.last() {
            Ok(v) => v@,
            Err(_) => Seq::empty(),
        }
    }
}

/// The text of a file read by `RECV`: its data chunks joined, errors skipped.
pub fn content_text(items: &[Result<Vec<u8>, AdbError>]) -> (r: String)
    ensures
        r@ == utf8_lossy(ok_bytes(items@)),
{
    let mut all: Vec<u8> = Vec::new();
    let mut i: usize = 0;
    while i < items.len()
        invariant
            i <= items@.len(),
            all@ == ok_bytes(items@.subrange(0, i as int)),
        decreases items@.len() - i,
    {
        assert(items@.subrange(0, i + 1).drop_last() =~= items@.subrange(0, i as int));
        match &items[i] {
            Ok(v) => crate::bytes::append_bytes(&mut all, v.as_slice()),
            Err(_) => {
                assert(all@ + Seq::<u8>::empty() =~= all@);
            },
        }
        i = i + 1;
    }
    assert(items@.subrange(0, items@.len() as int) =~= items@);
    text_of(all.as_slice())
}

fn take_error(items: Vec<Result<Vec<u8>, AdbError>>, i: usize) -> (e: AdbError)
    requires
        i < items@.len(),
        items@[i as int] is Err,
    ensures
        items@[i as int] == Err::<Vec<u8>, AdbError>(e),
{
    let mut items = items;
    match items.swap_remove(i) {
        Ok(_) => {
            proof {
                assert(false);
            }
            AdbError::unknown("")
        },
        Err(e) => e,
    }
}

/// The content of a pulled file: the data chunks joined, or the stream's
/// error if it ended with one.
pub fn collect_content(items: Vec<Result<Vec<u8>, AdbError>>) -> (r: Result<Vec<u8>, AdbError>)
    ensures
        (forall|i: int| 0 <= i < items@.len() ==> (#[trigger] items@[i]) is Ok) ==> (r matches Ok(v)
            && v@ == ok_bytes(items@)),
        (exists|i: int| 0 <= i < items@.len() && (#[trigger] items@[i]) is Err) ==> (r matches Err(e)
            && exists|i: int| 0 <= i < items@.len() && items@[i] == Err::<Vec<u8>, AdbError>(e)),
{
    let ghost orig = items@;
    let mut all: Vec<u8> = Vec::new();
    let mut i: usize = 0;
    while i < items.len()
        invariant
            items@ == orig,
            i <= orig.len(),
            all@ == ok_bytes(orig.subrange(0, i as int)),
            forall|j: int| 0 <= j < i ==> (#[trigger] orig[j]) is Ok,
        decreases orig.len() - i,
    {
        assert(orig.subrange(0, i + 1).drop_last() =~= orig.subrange(0, i as int));
        let failed = match &items[i] {
            Ok(v) => {
                crate::bytes::append_bytes(&mut all, v.as_slice());
                false
            },
            Err(_) => true,
        };
        if failed {
            let ghost at = i as int;
            let e = take_error(items, i);
            assert(items@[at] == Err::<Vec<u8>, AdbError>(e));
            return Err(e);
        }
        i = i + 1;
    }
    assert(orig.subrange(0, orig.len() as int) =~= orig);
    Ok(all)
}

/// The remote file an uploaded package is written to before installing.
pub fn install_destination(millis: u64) -> (r: String)
    ensures
        r@ == "/data/local/tmp/tmp-"@ + decimal(millis as nat) + ".apk"@,
{
    let mut s = String::from_str("/data/local/tmp/tmp-");
    push_decimal(&mut s, millis);
    s.append(".apk");
    s
}

/// Whether a package location is a remote URL to download first.
pub fn is_remote_url(path_or_url: &str) -> (r: bool)
    ensures
        r == (has_text_at(path_or_url@, 0, "http://"@) || has_text_at(path_or_url@, 0, "https://"@)),
{
    starts_with(path_or_url, "http://") || starts_with(path_or_url, "https://")
}

} // verus!
