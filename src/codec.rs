use vstd::prelude::*;
use vstd::string::*;
use vstd::utf8::*;
use base64::Engine;

verus! {

/// The base64 text (standard alphabet, padded) of a byte string.
pub uninterp spec fn base64_text(b: Seq<u8>) -> Seq<char>;

/// A character of the standard base64 alphabet, or the pad `=`.
pub open spec fn is_base64_char(c: char) -> bool {
    ('A' <= c && c <= 'Z') || ('a' <= c && c <= 'z') || ('0' <= c && c <= '9') || c == '+'
        || c == '/' || c == '='
}

/// Relies on base64's `STANDARD` engine `encode`: padded output over the
/// standard alphabet, four characters for each started group of three bytes.
#[verifier::external_body]
fn encode_base64(b: &[u8]) -> (r: String)
    ensures
        r@ == base64_text(b@),
        r@.len() == 4 * ((b@.len() + 2) / 3),
        forall|i: int| 0 <= i < r@.len() ==> is_base64_char(#[trigger] r@[i]),
{
    base64::engine::general_purpose::STANDARD.encode(b)
}

/// Relies on base64's `STANDARD` engine `decode`: it requires canonical
/// padding and zero trailing bits, so it succeeds exactly on the texts that
/// `encode` produces, and gives back the bytes that were encoded.
#[verifier::external_body]
fn decode_base64(s: &str) -> (r: Option<Vec<u8>>)
    ensures
        match r {
            Some(v) => forall|b: Seq<u8>| #[trigger] base64_text(b) == s@ <==> b == v@,
            None => forall|b: Seq<u8>| #[trigger] base64_text(b) != s@,
        },
{
    base64::engine::general_purpose::STANDARD.decode(s).ok()
}

/// Relies on `String::from_utf8`: it fails exactly on bytes that are not
/// UTF-8, and otherwise holds the text that they encode.
#[verifier::external_body]
fn utf8_text(b: Vec<u8>) -> (r: Option<String>)
    ensures
        r is Some <==> valid_utf8(b@),
        r matches Some(s) ==> s@ == decode_utf8(b@),
{
    String::from_utf8(b).ok()
}

/// The kind of a frame, named by its type token.
#[derive(Clone, Debug, PartialEq, Eq)]
pub enum FrameKind {
    DeviceInfo,
    SmsReceived,
    SystemInit,
    HeartBeat,
    Unknown(String),
}

/// The payload of a `DEVICE_INFO` frame.
#[derive(Clone, Debug, PartialEq, Eq)]
pub struct DeviceInfoPayload {
    pub imei: String,
    pub number: String,
    pub status: i32,
    pub rssi: i32,
    pub iccid: String,
    pub timestamp: i64,
}

/// A frame split into its id, its kind and the text of its JSON payload.
#[derive(Clone, Debug, PartialEq, Eq)]
pub struct Frame {
    pub id: String,
    pub kind: FrameKind,
    pub json: String,
}

/// The type token that names a kind on the wire.
pub open spec fn kind_tag(k: FrameKind) -> Seq<char> {
    match k {
        FrameKind::DeviceInfo => "DEVICE_INFO"@,
        FrameKind::SmsReceived => "SMS_RECEIVED"@,
        FrameKind::SystemInit => "SYSTEM_INIT"@,
        FrameKind::HeartBeat => "HEART_BEAT"@,
        FrameKind::Unknown(t) => t@,
    }
}

/// One of the four type tokens that the protocol defines.
pub open spec fn is_known_tag(t: Seq<char>) -> bool {
    t == "DEVICE_INFO"@ || t == "SMS_RECEIVED"@ || t == "SYSTEM_INIT"@ || t == "HEART_BEAT"@
}

pub open spec fn no_colon(s: Seq<char>) -> bool {
    forall|i: int| 0 <= i < s.len() ==> s[i] != ':'
}

pub open spec fn is_line_end(c: char) -> bool {
    c == '\r' || c == '\n'
}

pub open spec fn all_line_end(s: Seq<char>) -> bool {
    forall|i: int| 0 <= i < s.len() ==> is_line_end(#[trigger] s[i])
}

/// `id:tag:payload`, without the line end.
pub open spec fn frame_body(id: Seq<char>, tag: Seq<char>, payload: Seq<char>) -> Seq<char> {
    id + seq![':'] + tag + seq![':'] + payload
}

/// `line` reads `id:tag:payload` followed by line-end characters only: the
/// first colon ends the id, the second ends the tag, and the payload is the
/// rest up to the trailing carriage returns and line feeds. All three are
/// non-empty.
pub open spec fn frame_split(line: Seq<char>, id: Seq<char>, tag: Seq<char>, payload: Seq<char>) -> bool {
    let n = (id.len() + tag.len() + payload.len() + 2) as int;
    &&& id.len() > 0
    &&& tag.len() > 0
    &&& payload.len() > 0
    &&& no_colon(id)
    &&& no_colon(tag)
    &&& !is_line_end(payload.last())
    &&& n <= line.len()
    &&& line.take(n) == frame_body(id, tag, payload)
    &&& all_line_end(line.skip(n))
}

/// The payload that carries `json`: base64 of its UTF-8 bytes.
pub open spec fn payload_of(json: Seq<char>) -> Seq<char> {
    base64_text(encode_utf8(json))
}

/// The payload decodes to UTF-8 text.
pub open spec fn payload_decodes(payload: Seq<char>) -> bool {
    exists|b: Seq<u8>| base64_text(b) == payload && valid_utf8(b)
}

/// The complete frame line for a message, with its CRLF.
pub open spec fn frame_text(id: Seq<char>, tag: Seq<char>, json: Seq<char>) -> Seq<char> {
    frame_body(id, tag, payload_of(json)) + seq!['\r', '\n']
}

/// `ACK:<id>` followed by CRLF.
pub open spec fn ack_text(id: Seq<char>) -> Seq<char> {
    seq!['A', 'C', 'K', ':'] + id + seq!['\r', '\n']
}


/// The characters of `s`, in order.
pub(crate) fn chars_of(s: &str) -> (r: Vec<char>)
    ensures
        r@ == s@,
{
    let mut r: Vec<char> = Vec::new();
    for c in iter: s.chars()
        invariant
            r@ == iter.seq().take(iter.index() as int),
    {
        r.push(c);
    }
    r
}

/// Whether two strings hold the same characters.
pub(crate) fn same_text(a: &str, b: &str) -> (r: bool)
    ensures
        r == (a@ == b@),
{
    let x = chars_of(a);
    let y = chars_of(b);
    if x.len() != y.len() {
        return false;
    }
    let mut i: usize = 0;
    while i < x.len()
        invariant
            x@ == a@,
            y@ == b@,
            x.len() == y.len(),
            i <= x.len(),
            forall|k: int| 0 <= k < i ==> x@[k] == y@[k],
        decreases x.len() - i,
    {
        if x[i] != y[i] {
            return false;
        }
        i = i + 1;
    }
    assert(x@ =~= y@);
    true
}

/// Classifies a type token.
pub fn kind_of_tag(tag: &str) -> (r: FrameKind)
    ensures
        kind_tag(r) == tag@,
        r is Unknown <==> !is_known_tag(tag@),
{
    if same_text(tag, "DEVICE_INFO") {
        FrameKind::DeviceInfo
    } else if same_text(tag, "SMS_RECEIVED") {
        FrameKind::SmsReceived
    } else if same_text(tag, "SYSTEM_INIT") {
        FrameKind::SystemInit
    } else if same_text(tag, "HEART_BEAT") {
        FrameKind::HeartBeat
    } else {
        FrameKind::Unknown(tag.to_owned())
    }
}

/// Whether a frame of this kind is delivered (stored, notified and
/// acknowledged). Only received SMS are; every other kind, unknown ones
/// included, is only logged: no store write and no acknowledgement.
pub fn starts_delivery(kind: &FrameKind) -> (r: bool)
    ensures
        r <==> kind is SmsReceived,
{
    match kind {
        FrameKind::SmsReceived => true,
        _ => false,
    }
}

/// The type token of a kind.
pub fn tag_text(k: &FrameKind) -> (r: String)
    ensures
        r@ == kind_tag(*k),
{
    match k {
        FrameKind::DeviceInfo => "DEVICE_INFO".to_owned(),
        FrameKind::SmsReceived => "SMS_RECEIVED".to_owned(),
        FrameKind::SystemInit => "SYSTEM_INIT".to_owned(),
        FrameKind::HeartBeat => "HEART_BEAT".to_owned(),
        FrameKind::Unknown(t) => t.clone(),
    }
}


/// Where the parts of a split frame stand in its line.
proof fn lemma_split_positions(line: Seq<char>, id: Seq<char>, tag: Seq<char>, payload: Seq<char>)
    requires
        frame_split(line, id, tag, payload),
    ensures
        line[id.len() as int] == ':',
        line[(id.len() + tag.len() + 1) as int] == ':',
        forall|i: int| 0 <= i < id.len() ==> line[i] == id[i],
        forall|i: int| 0 <= i < tag.len() ==> line[id.len() + 1 + i] == tag[i],
        forall|i: int|
            0 <= i < payload.len() ==> line[id.len() + tag.len() + 2 + i] == payload[i],
        forall|i: int|
            id.len() + tag.len() + payload.len() + 2 <= i < line.len() ==> is_line_end(
                line[i],
            ),
{
    let n = (id.len() + tag.len() + payload.len() + 2) as int;
    let body = frame_body(id, tag, payload);
    assert forall|i: int| 0 <= i < n implies line[i] == body[i] by {
        assert(line.take(n)[i] == line[i]);
    }
    assert forall|i: int| n <= i < line.len() implies is_line_end(line[i]) by {
        assert(line.skip(n)[i - n] == line[i]);
    }
    assert(body[id.len() as int] == ':');
    assert(body[(id.len() + tag.len() + 1) as int] == ':');
    assert forall|i: int| 0 <= i < id.len() implies line[i] == id[i] by {
        assert(body[i] == id[i]);
    }
    assert forall|i: int| 0 <= i < tag.len() implies line[id.len() + 1 + i] == tag[i] by {
        assert(body[id.len() + 1 + i] == tag[i]);
    }
    assert forall|i: int| 0 <= i < payload.len() implies line[id.len() + tag.len() + 2 + i]
        == payload[i] by {
        assert(body[id.len() + tag.len() + 2 + i] == payload[i]);
    }
}

/// Splits a received line into a frame: the id before the first colon, the
/// type token before the second, and the base64 payload after it, decoded to
/// UTF-8 text. Trailing carriage returns and line feeds are ignored. Yields
/// `None` when the line has no such split or the payload is not the base64
/// of UTF-8 text; an unrecognised type token still yields a frame.
pub fn decode_frame(line: &str) -> (r: Option<Frame>)
    ensures
        match r {
            Some(f) => frame_split(line@, f.id@, kind_tag(f.kind), payload_of(f.json@)),
            None => forall|id: Seq<char>, tag: Seq<char>, payload: Seq<char>|
                frame_split(line@, id, tag, payload) ==> !payload_decodes(payload),
        },
        r matches Some(f) ==> (f.kind is Unknown <==> !is_known_tag(kind_tag(f.kind))),
        r matches Some(f) ==> forall|j: Seq<char>|
            #[trigger] payload_of(j) == payload_of(f.json@) ==> j == f.json@,
{
    let cs = chars_of(line);
    let n = cs.len();
    let mut p1: usize = 0;
    while p1 < n && cs[p1] != ':'
        invariant
            cs@ == line@,
            n == cs.len(),
            p1 <= n,
            forall|i: int| 0 <= i < p1 ==> cs@[i] != ':',
        decreases n - p1,
    {
        p1 = p1 + 1;
    }
    if p1 == n {
        assert forall|id: Seq<char>, tag: Seq<char>, payload: Seq<char>|
            frame_split(line@, id, tag, payload) implies !payload_decodes(payload) by {
            lemma_split_positions(line@, id, tag, payload);
        }
        return None;
    }
    let mut p2: usize = p1 + 1;
    while p2 < n && cs[p2] != ':'
        invariant
            cs@ == line@,
            n == cs.len(),
            p1 < p2 <= n,
            cs@[p1 as int] == ':',
            forall|i: int| 0 <= i < p1 ==> cs@[i] != ':',
            forall|i: int| p1 < i < p2 ==> cs@[i] != ':',
        decreases n - p2,
    {
        p2 = p2 + 1;
    }
    if p2 == n {
        assert forall|id: Seq<char>, tag: Seq<char>, payload: Seq<char>|
            frame_split(line@, id, tag, payload) implies !payload_decodes(payload) by {
            lemma_split_positions(line@, id, tag, payload);
            assert(id.len() == p1);
        }
        return None;
    }
    let mut end: usize = n;
    while end > p2 + 1 && (cs[end - 1] == '\r' || cs[end - 1] == '\n')
        invariant
            cs@ == line@,
            n == cs.len(),
            p2 < end <= n,
            forall|i: int| end <= i < n ==> is_line_end(cs@[i]),
        decreases end,
    {
        end = end - 1;
    }
    if p1 == 0 || p2 == p1 + 1 || end == p2 + 1 {
        assert forall|id: Seq<char>, tag: Seq<char>, payload: Seq<char>|
            frame_split(line@, id, tag, payload) implies !payload_decodes(payload) by {
            lemma_split_positions(line@, id, tag, payload);
            assert(id.len() == p1);
            assert(cs@[p2 as int] == ':');
            if (p2 as int) < id.len() + tag.len() + 1 {
                assert(line@[id.len() + 1 + (p2 - p1 - 1)] == tag[p2 - p1 - 1]);
            }
            assert(id.len() + tag.len() + 1 == p2);
            let m = id.len() + tag.len() + payload.len() + 2;
            assert(line@[m - 1] == payload.last());
        }
        return None;
    }
    proof {
        assert forall|id: Seq<char>, tag: Seq<char>, payload: Seq<char>|
            frame_split(line@, id, tag, payload) implies (id == line@.subrange(0, p1 as int)
            && tag == line@.subrange(p1 + 1, p2 as int) && payload == line@.subrange(
            p2 + 1,
            end as int,
        )) by {
            lemma_split_positions(line@, id, tag, payload);
            assert(id.len() == p1);
            assert(cs@[p2 as int] == ':');
            if (p2 as int) < id.len() + tag.len() + 1 {
                assert(line@[id.len() + 1 + (p2 - p1 - 1)] == tag[p2 - p1 - 1]);
            }
            assert(id.len() + tag.len() + 1 == p2);
            let m = id.len() + tag.len() + payload.len() + 2;
            assert(line@[m - 1] == payload.last());
            assert(m == end);
            assert(id =~= line@.subrange(0, p1 as int));
            assert(tag =~= line@.subrange(p1 + 1, p2 as int));
            assert(payload =~= line@.subrange(p2 + 1, end as int));
        }
    }
    let id_part = line.substring_char(0, p1);
    let tag_part = line.substring_char(p1 + 1, p2);
    let payload = line.substring_char(p2 + 1, end);
    let bytes = match decode_base64(payload) {
        Some(b) => b,
        None => {
            return None;
        },
    };
    let ghost raw = bytes@;
    let json = match utf8_text(bytes) {
        Some(s) => s,
        None => {
            assert forall|b: Seq<u8>| base64_text(b) == payload@ implies !valid_utf8(b) by {}
            return None;
        },
    };
    proof {
        decode_utf8_encode_utf8(raw);
        assert(encode_utf8(json@) == raw);
        assert forall|j: Seq<char>| #[trigger] payload_of(j) == payload_of(json@) implies j
            == json@ by {
            assert(base64_text(encode_utf8(j)) == payload@);
            assert(encode_utf8(j) == raw);
            encode_utf8_decode_utf8(j);
        }
        let n2 = (id_part@.len() + tag_part@.len() + payload@.len() + 2) as int;
        assert(n2 == end);
        assert(line@.take(n2) =~= frame_body(id_part@, tag_part@, payload@));
        assert forall|i: int| 0 <= i < line@.skip(n2).len() implies is_line_end(
            #[trigger] line@.skip(n2)[i],
        ) by {
            assert(line@.skip(n2)[i] == cs@[n2 + i]);
        }
    }
    let kind = kind_of_tag(tag_part);
    Some(Frame { id: id_part.to_owned(), kind, json })
}


/// The UTF-8 text of a non-empty string takes at least one byte.
proof fn lemma_encoding_non_empty(s: Seq<char>)
    requires
        s.len() > 0,
    ensures
        encode_utf8(s).len() > 0,
{
    encode_utf8_decode_utf8(s);
    if encode_utf8(s).len() == 0 {
        assert(encode_utf8(s) =~= Seq::<u8>::empty());
        assert(decode_utf8(Seq::<u8>::empty()) =~= Seq::<char>::empty());
    }
}

/// Writes a frame line: `id:TYPE:payload` and CRLF, where the payload is the
/// base64 of the JSON text's UTF-8 bytes. When the id and the type token are
/// non-empty and free of colons and the JSON text is not empty, the line
/// splits back into exactly these parts.
pub fn encode_frame(frame: &Frame) -> (r: String)
    ensures
        r@ == frame_text(frame.id@, kind_tag(frame.kind), frame.json@),
        frame.id@.len() > 0 && no_colon(frame.id@) && kind_tag(frame.kind).len() > 0 && no_colon(
            kind_tag(frame.kind),
        ) && frame.json@.len() > 0 ==> frame_split(
            r@,
            frame.id@,
            kind_tag(frame.kind),
            payload_of(frame.json@),
        ),
{
    let payload = encode_base64(frame.json.as_str().as_bytes());
    let tag = tag_text(&frame.kind);
    let mut r = frame.id.clone();
    r.append(":");
    r.append(tag.as_str());
    r.append(":");
    r.append(payload.as_str());
    r.append("\r\n");
    proof {
        reveal_strlit(":");
        reveal_strlit("\r\n");
        let id = frame.id@;
        let t = kind_tag(frame.kind);
        let p = payload_of(frame.json@);
        assert(r@ =~= frame_text(id, t, frame.json@));
        if id.len() > 0 && no_colon(id) && t.len() > 0 && no_colon(t) && frame.json@.len() > 0 {
            lemma_encoding_non_empty(frame.json@);
            assert(is_base64_char(p[p.len() - 1]));
            let n = (id.len() + t.len() + p.len() + 2) as int;
            assert(r@.take(n) =~= frame_body(id, t, p));
            assert(r@.skip(n) =~= seq!['\r', '\n']);
        }
    }
    r
}

/// The acknowledgement line for a stored message.
pub fn ack_line(id: &str) -> (r: String)
    ensures
        r@ == ack_text(id@),
{
    let mut r = "ACK:".to_owned();
    r.append(id);
    r.append("\r\n");
    proof {
        reveal_strlit("ACK:");
        reveal_strlit("\r\n");
        assert(r@ =~= ack_text(id@));
    }
    r
}

/// The handshake request, `CMD:GET_DEVICE_INFO` and CRLF.
pub open spec fn handshake_text() -> Seq<char> {
    "CMD:GET_DEVICE_INFO\r\n"@
}

/// The handshake request that a probe and a fresh connection send.
pub fn handshake_command() -> (r: String)
    ensures
        r@ == handshake_text(),
{
    "CMD:GET_DEVICE_INFO\r\n".to_owned()
}

/// Decoding then encoding a frame gives back the line: a line that splits
/// into an id, a type token and the payload of some JSON text, and that ends
/// in a single CRLF, is exactly the frame line of those three parts.
pub proof fn lemma_frame_round_trip(line: Seq<char>, id: Seq<char>, tag: Seq<char>, json: Seq<char>)
    requires
        frame_split(line, id, tag, payload_of(json)),
        line.skip(frame_body(id, tag, payload_of(json)).len() as int) == seq!['\r', '\n'],
    ensures
        line == frame_text(id, tag, json),
{
    let b = frame_body(id, tag, payload_of(json));
    assert(line =~= line.take(b.len() as int) + line.skip(b.len() as int));
}

} // verus!
