//! Reading what `dumpsys package` reports of an installed package.
use vstd::prelude::*;
use vstd::string::*;
use crate::beans::{close_word, is_blank, lemma_decimal_none_extends};
use crate::command::strs_of;
use crate::device::{built, shell_view, BaseDevice};
use crate::errors::AdbError;
use crate::ip::{option_view, regex_group};
use crate::request::Request;
use crate::text::{concat, contains, contains_text, decimal_value, push_char};

verus! {

/// What is known of an installed package.
#[derive(Debug)]
pub struct AppInfo {
    pub package_name: String,
    pub version_name: Option<String>,
    pub version_code: Option<u32>,
    pub flags: Vec<String>,
    /// Unix seconds, reading the device's clock as UTC.
    pub first_install_time: Option<i64>,
    /// Unix seconds, reading the device's clock as UTC.
    pub last_update_time: Option<i64>,
    pub signature: Option<String>,
    pub path: String,
    pub sub_apk_paths: Vec<String>,
}

impl AppInfo {
    /// A record that knows only the package's name.
    pub fn new(package_name: &str) -> (r: AppInfo)
        ensures
            r.package_name@ == package_name@,
            r.version_name is None,
            r.version_code is None,
            r.flags@.len() == 0,
            r.first_install_time is None,
            r.last_update_time is None,
            r.signature is None,
            r.path@.len() == 0,
            r.sub_apk_paths@.len() == 0,
    {
        AppInfo {
            package_name: String::from_str(package_name),
            version_name: None,
            version_code: None,
            flags: Vec::new(),
            first_install_time: None,
            last_update_time: None,
            signature: None,
            path: String::new(),
            sub_apk_paths: Vec::new(),
        }
    }
}

/// The Unix time that `chrono` reads from a `YYYY-MM-DD HH:MM:SS` text
/// taken as UTC.
pub uninterp spec fn utc_seconds(s: Seq<char>) -> Option<int>;

/// Relies on `NaiveDateTime::parse_from_str` with `%Y-%m-%d %H:%M:%S`, and on
/// `NaiveDateTime::and_utc` and `DateTime::timestamp`: the instant named by
/// the text, in Unix seconds; `None` when it does not parse.
#[verifier::external_body]
fn parse_utc_seconds(s: &str) -> (r: Option<i64>)
    ensures
        r matches Some(t) ==> utc_seconds(s@) == Some(t as int),
        r is None ==> utc_seconds(s@) is None,
{
    match chrono::NaiveDateTime::parse_from_str(s, "%Y-%m-%d %H:%M:%S") {
        Ok(d) => Some(d.and_utc().timestamp()),
        Err(_) => None,
    }
}

impl BaseDevice {
    /// `pm list packages <package>`, the first step of reading a package's
    /// information; `package_listed` judges the output.
    pub fn app_info(&self, package_name: &str) -> (r: Result<Request, AdbError>)
        ensures
            built(r, shell_view(*self, seq!["pm"@, "list"@, "packages"@, package_name@])),
    {
        let args = vec!["pm", "list", "packages", package_name];
        assert(strs_of(args@) =~= seq!["pm"@, "list"@, "packages"@, package_name@]);
        self.shell(args.as_slice())
    }

    /// `dumpsys package <package>`, the second step; `app_info_from_dump`
    /// reads the output.
    pub fn app_dump(&self, package_name: &str) -> (r: Result<Request, AdbError>)
        ensures
            built(r, shell_view(*self, seq!["dumpsys"@, "package"@, package_name@])),
    {
        let args = vec!["dumpsys", "package", package_name];
        assert(strs_of(args@) =~= seq!["dumpsys"@, "package"@, package_name@]);
        self.shell(args.as_slice())
    }
}

/// Whether `pm list packages` output names the package.
pub fn package_listed(output: &str, package_name: &str) -> (r: bool)
    ensures
        r == contains_text(output@, "package:"@ + package_name@),
{
    let needle = concat("package:", package_name);
    contains(output, needle.as_str())
}

/// The words of `s`, separated by white space.
pub open spec fn words_scan(s: Seq<char>) -> (Seq<Seq<char>>, Seq<char>)
    decreases s.len(),
{
    if s.len() == 0 {
        (Seq::empty(), Seq::empty())
    } else {
        let (words, word) = words_scan(s.drop_last());
        let c = s.last();
        if is_blank(c) || c == '\n' {
            (close_word(words, word), Seq::empty())
        } else {
            (words, word.push(c))
        }
    }
}

/// The words of `s`, separated by white space.
pub open spec fn words_of(s: Seq<char>) -> Seq<Seq<char>> {
    close_word(words_scan(s).0, words_scan(s).1)
}

/// The texts of a list of strings.
pub open spec fn texts(v: Seq<String>) -> Seq<Seq<char>> {
    Seq::new(v.len(), |i: int| v[i]@)
}

fn push_word(words: &mut Vec<String>, word: String)
    ensures
        texts(final(words)@) == close_word(texts(old(words)@), word@),
{
    if word.unicode_len() > 0 {
        let ghost before = words@;
        words.push(word);
        assert(texts(final(words)@) =~= texts(before).push(word@));
    }
}

/// Splits a text at white space.
pub fn split_words(s: &str) -> (r: Vec<String>)
    ensures
        texts(r@) == words_of(s@),
{
    let n = s.unicode_len();
    let mut words: Vec<String> = Vec::new();
    let mut word = String::new();
    let mut i: usize = 0;
    while i < n
        invariant
            n == s@.len(),
            i <= n,
            texts(words@) == words_scan(s@.subrange(0, i as int)).0,
            word@ == words_scan(s@.subrange(0, i as int)).1,
        decreases n - i,
    {
        let c = s.get_char(i);
        assert(s@.subrange(0, i + 1).drop_last() =~= s@.subrange(0, i as int));
        if c == ' ' || c == '\t' || c == '\r' || c == '\x0B' || c == '\x0C' || c == '\n' {
            push_word(&mut words, word);
            word = String::new();
        } else {
            push_char(&mut word, c);
        }
        i = i + 1;
    }
    assert(s@.subrange(0, n as int) =~= s@);
    push_word(&mut words, word);
    words
}

/// A decimal number that fits in 32 bits.
pub open spec fn u32_value(s: Seq<char>) -> Option<u32> {
    match decimal_value(s) {
        Some(v) => if v <= u32::MAX { Some(v as u32) } else { None },
        None => None,
    }
}

/// Parses a decimal number that fits in 32 bits.
pub fn parse_u32(s: &str) -> (r: Option<u32>)
    ensures
        r == u32_value(s@),
{
    let n = s.unicode_len();
    if n == 0 {
        return None;
    }
    let mut acc: u64 = 0;
    let mut big = false;
    let mut i: usize = 0;
    while i < n
        invariant
            n == s@.len(),
            0 < n,
            i <= n,
            acc <= u32::MAX,
            i > 0 ==> decimal_value(s@.subrange(0, i as int)) is Some,
            i > 0 && !big ==> decimal_value(s@.subrange(0, i as int)) == Some(acc as nat),
            i > 0 && big ==> decimal_value(s@.subrange(0, i as int))->0 > u32::MAX,
            i == 0 ==> !big && acc == 0,
        decreases n - i,
    {
        let c = s.get_char(i);
        let ghost cur = s@.subrange(0, i + 1);
        assert(cur.drop_last() =~= s@.subrange(0, i as int));
        if !('0' <= c && c <= '9') {
            proof {
                lemma_decimal_none_extends(s@, i + 1);
            }
            return None;
        }
        let d = (c as u32 - '0' as u32) as u64;
        if !big {
            let next = acc * 10 + d;
            if next > 0xFFFF_FFFF {
                big = true;
            } else {
                acc = next;
            }
        }
        i = i + 1;
    }
    assert(s@.subrange(0, n as int) =~= s@);
    if big {
        None
    } else {
        Some(acc as u32)
    }
}

/// The patterns that `app_info_from_dump` looks for.
pub open spec fn version_name_pattern() -> Seq<char> {
    "versionName=(\\S+)"@
}

pub open spec fn version_code_pattern() -> Seq<char> {
    "versionCode=(\\d+)"@
}

pub open spec fn signature_pattern() -> Seq<char> {
    "PackageSignatures\\{[^}]*\\[([^]]+)]"@
}

pub open spec fn flags_pattern() -> Seq<char> {
    "pkgFlags=\\[\\s*([^]]+)\\s*]"@
}

pub open spec fn first_install_pattern() -> Seq<char> {
    "firstInstallTime=([\\d-]+\\s+[:\\d]+)"@
}

pub open spec fn last_update_pattern() -> Seq<char> {
    "lastUpdateTime=([\\d-]+\\s+[:\\d]+)"@
}

/// A time found by a pattern, in Unix seconds.
pub open spec fn found_time(g: Option<Seq<char>>) -> Option<i64> {
    match g {
        Some(t) => match utc_seconds(t) {
            Some(v) => Some(v as i64),
            None => None,
        },
        None => None,
    }
}

fn time_of(group: Option<String>) -> (r: Option<i64>)
    ensures
        group matches Some(t) ==> match utc_seconds(t@) {
            Some(v) => r == Some(v as i64),
            None => r is None,
        },
        group is None ==> r is None,
{
    match group {
        Some(t) => parse_utc_seconds(t.as_str()),
        None => None,
    }
}

/// Reads the `dumpsys package` output of a package: version name and code,
/// signature, flags, and install and update times, each where its pattern
/// matches.
pub fn app_info_from_dump(package_name: &str, dump: &str) -> (r: AppInfo)
    ensures
        r.package_name@ == package_name@,
        option_view(r.version_name) == regex_group(version_name_pattern(), dump@),
        r.version_code == match regex_group(version_code_pattern(), dump@) {
            Some(c) => u32_value(c),
            None => None,
        },
        option_view(r.signature) == regex_group(signature_pattern(), dump@),
        texts(r.flags@) == match regex_group(flags_pattern(), dump@) {
            Some(f) => words_of(f),
            None => Seq::empty(),
        },
        r.first_install_time == found_time(regex_group(first_install_pattern(), dump@)),
        r.last_update_time == found_time(regex_group(last_update_pattern(), dump@)),
        r.path@.len() == 0,
        r.sub_apk_paths@.len() == 0,
{
    let mut info = AppInfo::new(package_name);
    info.version_name = capture(version_name_regex(), dump);
    info.version_code = match capture(version_code_regex(), dump) {
        Some(c) => parse_u32(c.as_str()),
        None => None,
    };
    info.signature = capture(signature_regex(), dump);
    info.flags = match capture(flags_regex(), dump) {
        Some(f) => split_words(f.as_str()),
        None => {
            let v: Vec<String> = Vec::new();
            assert(texts(v@) =~= Seq::<Seq<char>>::empty());
            v
        },
    };
    info.first_install_time = time_of(capture(first_install_regex(), dump));
    info.last_update_time = time_of(capture(last_update_regex(), dump));
    info
}

fn capture(pattern: &str, text: &str) -> (r: Option<String>)
    ensures
        option_view(r) == regex_group(pattern@, text@),
{
    crate::ip::capture_group(pattern, text)
}

fn version_name_regex() -> (r: &'static str)
    ensures
        r@ == version_name_pattern(),
{
    "versionName=(\\S+)"
}

fn version_code_regex() -> (r: &'static str)
    ensures
        r@ == version_code_pattern(),
{
    "versionCode=(\\d+)"
}

fn signature_regex() -> (r: &'static str)
    ensures
        r@ == signature_pattern(),
{
    "PackageSignatures\\{[^}]*\\[([^]]+)]"
}

fn flags_regex() -> (r: &'static str)
    ensures
        r@ == flags_pattern(),
{
    "pkgFlags=\\[\\s*([^]]+)\\s*]"
}

fn first_install_regex() -> (r: &'static str)
    ensures
        r@ == first_install_pattern(),
{
    "firstInstallTime=([\\d-]+\\s+[:\\d]+)"
}

fn last_update_regex() -> (r: &'static str)
    ensures
        r@ == last_update_pattern(),
{
    "lastUpdateTime=([\\d-]+\\s+[:\\d]+)"
}

} // verus!
