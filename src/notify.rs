use vstd::prelude::*;
use vstd::string::*;
use vstd::utf8::*;
use crate::codec::chars_of;

verus! {

/// A byte that percent-encoding leaves as it is: an ASCII letter or digit,
/// or one of `-`, `_`, `.`, `~`.
pub open spec fn is_unreserved(b: u8) -> bool {
    (48 <= b <= 57) || (65 <= b <= 90) || (97 <= b <= 122) || b == 45 || b == 95 || b == 46
        || b == 126
}

/// The upper-case hexadecimal digit for a value below 16.
pub open spec fn hex_digit(d: u8) -> char {
    if d < 10 {
        (48 + d) as char
    } else {
        (55 + d) as char
    }
}

/// Percent-encoding of a byte string: unreserved bytes stay, every other
/// byte becomes `%` and two upper-case hexadecimal digits.
pub open spec fn percent_encoded(b: Seq<u8>) -> Seq<char>
    decreases b.len(),
{
    if b.len() == 0 {
        Seq::empty()
    } else {
        let head = if is_unreserved(b[0]) {
            seq![b[0] as char]
        } else {
            seq!['%', hex_digit(b[0] / 16), hex_digit(b[0] % 16)]
        };
        head + percent_encoded(b.drop_first())
    }
}

/// Relies on `urlencoding::encode`: it percent-encodes every byte of the
/// UTF-8 text except alphanumerics and `-`, `_`, `.`, `~`.
#[verifier::external_body]
fn url_encode(s: &str) -> (r: String)
    ensures
        r@ == percent_encoded(encode_utf8(s@)),
{
    urlencoding::encode(s).into_owned()
}

/// `s` without its trailing slashes.
pub open spec fn trim_slashes(s: Seq<char>) -> Seq<char>
    decreases s.len(),
{
    if s.len() > 0 && s.last() == '/' {
        trim_slashes(s.drop_last())
    } else {
        s
    }
}

/// The push URL: `{server}/{key}/{title}/{body}`, the server without
/// trailing slashes, title and body percent-encoded.
pub open spec fn bark_url_text(server: Seq<char>, key: Seq<char>, title: Seq<char>, body: Seq<char>) -> Seq<char> {
    trim_slashes(server) + seq!['/'] + key + seq!['/'] + percent_encoded(encode_utf8(title))
        + seq!['/'] + percent_encoded(encode_utf8(body))
}

proof fn lemma_trim_prefix(s: Seq<char>, end: int)
    requires
        0 <= end <= s.len(),
        forall|i: int| end <= i < s.len() ==> s[i] == '/',
        end == 0 || s[end - 1] != '/',
    ensures
        trim_slashes(s) == s.subrange(0, end),
    decreases s.len(),
{
    if end < s.len() {
        lemma_trim_prefix(s.drop_last(), end);
        assert(s.drop_last().subrange(0, end) =~= s.subrange(0, end));
    } else {
        assert(s.subrange(0, end) =~= s);
    }
}

/// `server` without its trailing slashes.
pub fn trim_trailing_slashes(server: &str) -> (r: &str)
    ensures
        r@ == trim_slashes(server@),
{
    let cs = chars_of(server);
    let mut end: usize = cs.len();
    while end > 0 && cs[end - 1] == '/'
        invariant
            cs@ == server@,
            end <= cs.len(),
            forall|i: int| end <= i < cs.len() ==> cs@[i] == '/',
        decreases end,
    {
        end = end - 1;
    }
    proof {
        lemma_trim_prefix(server@, end as int);
    }
    server.substring_char(0, end)
}

/// Builds the push URL for a notification.
pub fn bark_url(server: &str, key: &str, title: &str, body: &str) -> (r: String)
    ensures
        r@ == bark_url_text(server@, key@, title@, body@),
{
    let t = url_encode(title);
    let b = url_encode(body);
    let mut r = trim_trailing_slashes(server).to_owned();
    r.append("/");
    r.append(key);
    r.append("/");
    r.append(t.as_str());
    r.append("/");
    r.append(b.as_str());
    proof {
        reveal_strlit("/");
        assert(r@ =~= bark_url_text(server@, key@, title@, body@));
    }
    r
}

/// A status code in the 2xx range, which the push service uses for success.
pub fn is_success_status(code: u16) -> (r: bool)
    ensures
        r == (200 <= code <= 299),
{
    200 <= code && code <= 299
}

} // verus!
