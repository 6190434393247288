use vstd::prelude::*;
use vstd::string::*;
use crate::codec::{chars_of, is_base64_char};

verus! {

/// How long a probe waits for each of open, write and read.
pub const PROBE_TIMEOUT_MS: u64 = 1000;

/// How many scans auto-detection makes before it gives up.
pub const AUTO_DETECT_MAX_ATTEMPTS: u32 = 10;

/// The pause between two scans.
pub const AUTO_DETECT_RETRY_DELAY_MS: u64 = 10000;

/// The pause after a successful probe before the port is opened again.
pub const PORT_RELEASE_GRACE_MS: u64 = 1000;

/// A Unicode white-space character (the `White_Space` property).
pub open spec fn is_space(c: char) -> bool {
    ('\t' <= c && c <= '\r') || c == ' ' || c == '\u{85}' || c == '\u{a0}' || c == '\u{1680}'
        || ('\u{2000}' <= c && c <= '\u{200a}') || c == '\u{2028}' || c == '\u{2029}'
        || c == '\u{202f}' || c == '\u{205f}' || c == '\u{3000}'
}

/// The marker between the id and the payload of a device-info reply.
pub open spec fn device_info_marker() -> Seq<char> {
    ":DEVICE_INFO:"@
}

/// `s` reads: an id of `a_len` characters without line feeds, the marker,
/// `b_len` base64 characters, then white space to the end.
pub open spec fn reply_split(s: Seq<char>, a_len: int, b_len: int) -> bool {
    let m = a_len + 13;
    let e = m + b_len;
    &&& 0 < a_len
    &&& 0 < b_len
    &&& e <= s.len()
    &&& forall|i: int| 0 <= i < a_len ==> s[i] != '\n'
    &&& s.subrange(a_len, m) == device_info_marker()
    &&& forall|i: int| m <= i < e ==> is_base64_char(#[trigger] s[i])
    &&& forall|i: int| e <= i < s.len() ==> is_space(#[trigger] s[i])
}

/// A line that answers the handshake: `<id>:DEVICE_INFO:<base64>` with only
/// white space after it. The payload itself is not decoded.
pub open spec fn is_device_info_reply(s: Seq<char>) -> bool {
    exists|a_len: int, b_len: int| reply_split(s, a_len, b_len)
}

fn space_char(c: char) -> (r: bool)
    ensures
        r == is_space(c),
{
    ('\t' <= c && c <= '\r') || c == ' ' || c == '\u{85}' || c == '\u{a0}' || c == '\u{1680}'
        || ('\u{2000}' <= c && c <= '\u{200a}') || c == '\u{2028}' || c == '\u{2029}'
        || c == '\u{202f}' || c == '\u{205f}' || c == '\u{3000}'
}

fn base64_char(c: char) -> (r: bool)
    ensures
        r == is_base64_char(c),
{
    ('A' <= c && c <= 'Z') || ('a' <= c && c <= 'z') || ('0' <= c && c <= '9') || c == '+'
        || c == '/' || c == '='
}

/// Whether a line read from a candidate port answers the handshake.
pub fn is_handshake_reply(line: &str) -> (r: bool)
    ensures
        r == is_device_info_reply(line@),
{
    let cs = chars_of(line);
    let n = cs.len();
    let mut w: usize = n;
    while w > 0 && space_char(cs[w - 1])
        invariant
            cs@ == line@,
            n == cs.len(),
            w <= n,
            forall|i: int| w <= i < n ==> is_space(#[trigger] cs@[i]),
        decreases w,
    {
        w = w - 1;
    }
    let mut b: usize = w;
    while b > 0 && base64_char(cs[b - 1])
        invariant
            cs@ == line@,
            n == cs.len(),
            b <= w <= n,
            forall|i: int| w <= i < n ==> is_space(#[trigger] cs@[i]),
            w > 0 ==> !is_space(cs@[w - 1]),
            forall|i: int| b <= i < w ==> is_base64_char(#[trigger] cs@[i]),
        decreases b,
    {
        b = b - 1;
    }
    let marker = chars_of(":DEVICE_INFO:");
    proof {
        reveal_strlit(":DEVICE_INFO:");
        assert forall|al: int, bl: int| reply_split(line@, al, bl) implies al + 13 == b && al
            + 13 + bl == w by {
            let m = al + 13;
            let e = m + bl;
            if e < w {
                assert(is_space(cs@[w - 1]));
            }
            if e > w {
                assert(is_base64_char(cs@[e - 1]));
            }
            assert(line@.subrange(al, m)[12] == ':');
            assert(cs@[m - 1] == ':');
            if b < m {
                assert(is_base64_char(cs@[m - 1]));
            }
            if b > m {
                assert(is_base64_char(cs@[b - 1]));
            }
        }
    }
    if b == w || b < 14 {
        return false;
    }
    let start = b - 13;
    let mut k: usize = 0;
    while k < 13
        invariant
            cs@ == line@,
            n == cs.len(),
            14 <= b <= n,
            start == b - 13,
            marker@ == device_info_marker(),
            marker@.len() == 13,
            k <= 13,
            forall|i: int| 0 <= i < k ==> cs@[start + i] == marker@[i],
            forall|al: int, bl: int| reply_split(line@, al, bl) ==> al + 13 == b,
        decreases 13 - k,
    {
        if cs[start + k] != marker[k] {
            proof {
                assert forall|al: int, bl: int| !reply_split(line@, al, bl) by {
                    if reply_split(line@, al, bl) {
                        assert(line@.subrange(al, al + 13)[k as int] == cs@[start + k]);
                    }
                }
            }
            return false;
        }
        k = k + 1;
    }
    let mut j: usize = 0;
    while j < start
        invariant
            cs@ == line@,
            n == cs.len(),
            start < b <= n,
            start == b - 13,
            j <= start,
            forall|i: int| 0 <= i < j ==> cs@[i] != '\n',
            forall|al: int, bl: int| reply_split(line@, al, bl) ==> al + 13 == b,
        decreases start - j,
    {
        if cs[j] == '\n' {
            assert forall|al: int, bl: int| !reply_split(line@, al, bl) by {
                if reply_split(line@, al, bl) {
                    assert(line@[j as int] != '\n');
                }
            }
            return false;
        }
        j = j + 1;
    }
    proof {
        assert(line@.subrange(start as int, b as int) =~= marker@);
        assert(reply_split(line@, start as int, (w - b) as int));
    }
    true
}


/// What auto-detection does after one scan of the candidate ports.
#[derive(Clone, Debug, PartialEq, Eq)]
pub enum ScanStep {
    /// A candidate answered the handshake: use it.
    Use(String),
    /// None did: scan again after this many milliseconds.
    RetryAfter(u64),
    /// None did, and this was the last scan.
    GiveUp,
}

/// `i` is the first successful result of a scan.
pub open spec fn first_found_at(results: Seq<Option<String>>, i: int) -> bool {
    &&& 0 <= i < results.len()
    &&& results[i] is Some
    &&& forall|j: int| 0 <= j < i ==> results[j] is None
}

/// Decides after scan number `attempt` (counted from 1), given the probe
/// results in the order they arrived: the first validated port wins;
/// otherwise scan again unless `attempt` was the last allowed scan.
pub fn scan_step(attempt: u32, results: &Vec<Option<String>>) -> (r: ScanStep)
    ensures
        match r {
            ScanStep::Use(name) => exists|i: int|
                first_found_at(results@, i) && name@ == (#[trigger] results@[i])->0@,
            ScanStep::RetryAfter(ms) => {
                &&& ms == AUTO_DETECT_RETRY_DELAY_MS
                &&& attempt < AUTO_DETECT_MAX_ATTEMPTS
                &&& forall|i: int| 0 <= i < results@.len() ==> results@[i] is None
            },
            ScanStep::GiveUp => {
                &&& attempt >= AUTO_DETECT_MAX_ATTEMPTS
                &&& forall|i: int| 0 <= i < results@.len() ==> results@[i] is None
            },
        },
{
    let mut i: usize = 0;
    while i < results.len()
        invariant
            i <= results@.len(),
            forall|j: int| 0 <= j < i ==> results@[j] is None,
        decreases results@.len() - i,
    {
        match &results[i] {
            Some(name) => {
                let r = name.clone();
                assert(first_found_at(results@, i as int));
                return ScanStep::Use(r);
            },
            None => {},
        }
        i = i + 1;
    }
    if attempt < AUTO_DETECT_MAX_ATTEMPTS {
        ScanStep::RetryAfter(AUTO_DETECT_RETRY_DELAY_MS)
    } else {
        ScanStep::GiveUp
    }
}

} // verus!
