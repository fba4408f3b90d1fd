//! Finding the device's IPv4 address in interface listings.
use vstd::prelude::*;
use vstd::string::*;
use crate::beans::{parse_u16_from, u16_value};
use crate::text::{contains_text, decimal_value, push_char};

verus! {

/// What group 1 of the leftmost match of `pattern` in `text` is, as the
/// `regex` crate finds it; `None` when the pattern does not compile, nothing
/// matches, or the group takes no part in the match.
pub uninterp spec fn regex_group(pattern: Seq<char>, text: Seq<char>) -> Option<Seq<char>>;

/// Relies on `regex::Regex::new`, `Regex::captures`, `Captures::get` and
/// `Match::as_str`: group 1 of the leftmost match, a piece of the text.
#[verifier::external_body]
pub(crate) fn capture_group(pattern: &str, text: &str) -> (r: Option<String>)
    ensures
        r matches Some(g) ==> regex_group(pattern@, text@) == Some(g@) && contains_text(text@, g@),
        r is None ==> regex_group(pattern@, text@) is None,
{
    let re = match regex::Regex::new(pattern) {
        Ok(re) => re,
        Err(_) => return None,
    };
    let caps = match re.captures(text) {
        Some(caps) => caps,
        None => return None,
    };
    match caps.get(1) {
        Some(m) => Some(m.as_str().to_string()),
        None => None,
    }
}

/// Whether a text is a decimal number from 0 to 255.
pub open spec fn octet(p: Seq<char>) -> bool {
    match decimal_value(p) {
        Some(v) => v <= 255,
        None => false,
    }
}

/// Progress of reading a dotted quad: dots seen, whether every part before
/// the last dot was an octet, and the current part.
pub struct Ipv4Scan {
    pub dots: nat,
    pub ok: bool,
    pub part: Seq<char>,
}

/// The state after reading `s`.
pub open spec fn ipv4_scan(s: Seq<char>) -> Ipv4Scan
    decreases s.len(),
{
    if s.len() == 0 {
        Ipv4Scan { dots: 0, ok: true, part: Seq::empty() }
    } else {
        let st = ipv4_scan(s.drop_last());
        let c = s.last();
        if c == '.' {
            Ipv4Scan { dots: st.dots + 1, ok: st.ok && octet(st.part), part: Seq::empty() }
        } else {
            Ipv4Scan { dots: st.dots, ok: st.ok, part: st.part.push(c) }
        }
    }
}

/// Four octets separated by dots.
pub open spec fn valid_ipv4(s: Seq<char>) -> bool {
    let st = ipv4_scan(s);
    st.ok && st.dots == 3 && octet(st.part)
}

fn is_octet(p: &str) -> (r: bool)
    ensures
        r == octet(p@),
{
    match parse_u16_from(p, 0) {
        Some(v) => {
            assert(p@.subrange(0, p@.len() as int) =~= p@);
            v <= 255
        },
        None => {
            assert(p@.subrange(0, p@.len() as int) =~= p@);
            false
        },
    }
}

/// Whether `ip` is a dotted quad of four decimal octets.
pub fn is_valid_ipv4(ip: &str) -> (r: bool)
    ensures
        r == valid_ipv4(ip@),
{
    let n = ip.unicode_len();
    let mut dots: usize = 0;
    let mut ok = true;
    let mut part = String::new();
    let mut i: usize = 0;
    while i < n
        invariant
            n == ip@.len(),
            i <= n,
            dots <= i,
            dots == ipv4_scan(ip@.subrange(0, i as int)).dots,
            ok == ipv4_scan(ip@.subrange(0, i as int)).ok,
            part@ == ipv4_scan(ip@.subrange(0, i as int)).part,
        decreases n - i,
    {
        let c = ip.get_char(i);
        assert(ip@.subrange(0, i + 1).drop_last() =~= ip@.subrange(0, i as int));
        if c == '.' {
            ok = ok && is_octet(part.as_str());
            dots = dots + 1;
            part = String::new();
        } else {
            push_char(&mut part, c);
        }
        i = i + 1;
    }
    assert(ip@.subrange(0, n as int) =~= ip@);
    ok && dots == 3 && is_octet(part.as_str())
}

/// The first candidate that is a valid dotted quad.
pub open spec fn first_valid_ip(candidates: Seq<Option<Seq<char>>>) -> Option<Seq<char>>
    decreases candidates.len(),
{
    if candidates.len() == 0 {
        None
    } else {
        match candidates[0] {
            Some(g) => if valid_ipv4(g) {
                Some(g)
            } else {
                first_valid_ip(candidates.subrange(1, candidates.len() as int))
            },
            None => first_valid_ip(candidates.subrange(1, candidates.len() as int)),
        }
    }
}

/// Optional texts, as optional texts.
pub open spec fn options_of(v: Seq<Option<String>>) -> Seq<Option<Seq<char>>> {
    Seq::new(v.len(), |i: int| match v[i] {
        Some(s) => Some(s@),
        None => None,
    })
}

/// An optional text, as text.
pub open spec fn option_view(o: Option<String>) -> Option<Seq<char>> {
    match o {
        Some(s) => Some(s@),
        None => None,
    }
}

/// The first candidate address that is a valid dotted quad.
pub fn pick_ip(candidates: &[Option<String>]) -> (r: Option<String>)
    ensures
        option_view(r) == first_valid_ip(options_of(candidates@)),
{
    let ghost all = options_of(candidates@);
    let n = candidates.len();
    let mut i: usize = 0;
    assert(all.subrange(0, n as int) =~= all);
    while i < n
        invariant
            n == all.len(),
            all == options_of(candidates@),
            i <= n,
            first_valid_ip(all) == first_valid_ip(all.subrange(i as int, n as int)),
        decreases n - i,
    {
        let ghost tail = all.subrange(i as int, n as int);
        assert(tail.subrange(1, tail.len() as int) =~= all.subrange(i + 1, n as int));
        assert(tail[0] == all[i as int]);
        match &candidates[i] {
            Some(g) => {
                if is_valid_ipv4(g.as_str()) {
                    return Some(g.clone());
                }
            },
            None => {},
        }
        i = i + 1;
    }
    None
}

/// The patterns tried on interface listings, in order.
pub open spec fn ip_patterns() -> Seq<Seq<char>> {
    seq![
        "inet\\s+addr:([\\d.]+)"@,
        "inet\\s+([\\d.]+)/\\d+"@,
        "inet\\s+([\\d.]+)\\s+netmask"@,
    ]
}

/// The device's address in the output of `ip addr` or `ifconfig`: group 1
/// of the first pattern that matches with a valid dotted quad.
pub fn extract_ip_from_output(output: &str) -> (r: Option<String>)
    ensures
        option_view(r) == first_valid_ip(
            seq![
                regex_group(ip_patterns()[0], output@),
                regex_group(ip_patterns()[1], output@),
                regex_group(ip_patterns()[2], output@),
            ],
        ),
{
    let a = capture_group("inet\\s+addr:([\\d.]+)", output);
    let b = capture_group("inet\\s+([\\d.]+)/\\d+", output);
    let c = capture_group("inet\\s+([\\d.]+)\\s+netmask", output);
    let ghost views = seq![option_view(a), option_view(b), option_view(c)];
    let v = vec![a, b, c];
    assert(options_of(v@) =~= views);
    pick_ip(v.as_slice())
}

} // verus!
