//! Small parsers and encoders of the proxy's wire formats: ports, CONNECT
//! targets, WebSocket frames and handshakes.
use vstd::prelude::*;
use vstd::string::StringSliceAdditionalSpecFns;

use crate::codec::{base64_encode, base64_standard, sha1, sha1_digest};
use crate::error::ProxyError;
use crate::model::{HeaderModel, HeaderPair};
use crate::text::{
    chars_of, eq_ignore_ascii_case, eq_ignore_case, string_from_chars, string_from_range, trim,
    trim_seq,
};

verus! {

// ---------------------------------------------------------------------------
// Decimal ports
// ---------------------------------------------------------------------------

/// Whether `c` is an ASCII decimal digit.
pub open spec fn is_digit(c: char) -> bool {
    '0' <= c && c <= '9'
}

/// The value of a run of decimal digits.
pub open spec fn digits_value(d: Seq<char>) -> nat
    decreases d.len(),
{
    if d.len() == 0 {
        0
    } else {
        digits_value(d.drop_last()) * 10 + ((d.last() as u32) - ('0' as u32)) as nat
    }
}

/// The text after an optional leading `+`.
pub open spec fn unsigned_digits(s: Seq<char>) -> Seq<char> {
    if s.len() > 0 && s[0] == '+' {
        s.skip(1)
    } else {
        s
    }
}

/// What `str::parse::<u16>` gives: an optional `+`, then at least one
/// decimal digit and nothing else, of value at most 65535.
pub open spec fn parse_u16_text(s: Seq<char>) -> Option<u16> {
    let d = unsigned_digits(s);
    if d.len() > 0 && (forall|i: int| 0 <= i < d.len() ==> is_digit(#[trigger] d[i]))
        && digits_value(d) <= 65535 {
        Some(digits_value(d) as u16)
    } else {
        None
    }
}

proof fn lemma_digits_value_grows(d: Seq<char>, k: int)
    requires
        0 <= k <= d.len(),
        forall|i: int| 0 <= i < d.len() ==> is_digit(#[trigger] d[i]),
    ensures
        digits_value(d.take(k)) <= digits_value(d),
    decreases d.len() - k,
{
    if k < d.len() {
        lemma_digits_value_grows(d, k + 1);
        assert(d.take(k + 1).drop_last() =~= d.take(k));
    } else {
        assert(d.take(k) =~= d);
    }
}

/// `str::parse::<u16>` on the characters `cs[from..]`.
fn parse_u16_chars(cs: &Vec<char>, from: usize) -> (r: Option<u16>)
    requires
        from <= cs.len(),
    ensures
        r == parse_u16_text(cs@.skip(from as int)),
{
    let ghost s = cs@.skip(from as int);
    let mut start = from;
    if start < cs.len() && cs[start] == '+' {
        start = start + 1;
    }
    let ghost d = cs@.skip(start as int);
    assert(d =~= unsigned_digits(s));
    if start == cs.len() {
        return None;
    }
    let mut value: u32 = 0;
    let mut i = start;
    while i < cs.len()
        invariant
            start <= i <= cs.len(),
            d == cs@.skip(start as int),
            d == unsigned_digits(s),
            s == cs@.skip(from as int),
            value == digits_value(d.take(i - start)),
            value <= 65535,
            forall|k: int| 0 <= k < i - start ==> is_digit(#[trigger] d[k]),
        decreases cs.len() - i,
    {
        let c = cs[i];
        assert(d.take(i - start + 1).drop_last() =~= d.take(i - start));
        assert(d[i - start] == c);
        if !('0' <= c && c <= '9') {
            assert(!is_digit(d[i - start]));
            assert(parse_u16_text(s) is None);
            return None;
        }
        let next: u32 = value * 10 + ((c as u32) - 48);
        if next > 65535 {
            proof {
                assert forall|k: int| 0 <= k < i - start + 1 implies is_digit(#[trigger] d[k]) by {}
                assert(d.take(i - start + 1).last() == c);
                assert(digits_value(d.take(i - start + 1)) > 65535);
                if forall|k: int| 0 <= k < d.len() ==> is_digit(#[trigger] d[k]) {
                    lemma_digits_value_grows(d, i - start + 1);
                }
                assert(parse_u16_text(s) is None);
            }
            return None;
        }
        value = next;
        i += 1;
    }
    assert(d.take(i - start) =~= d);
    Some(value as u16)
}

/// `str::parse::<u16>`.
pub fn parse_u16(s: &str) -> (r: Option<u16>)
    ensures
        r == parse_u16_text(s@),
{
    let cs = chars_of(s);
    assert(cs@.skip(0) =~= cs@);
    parse_u16_chars(&cs, 0)
}

// ---------------------------------------------------------------------------
// Hosts and ports
// ---------------------------------------------------------------------------

/// Whether `c` occurs in `s`.
pub open spec fn has_char(s: Seq<char>, c: char) -> bool {
    exists|i: int| 0 <= i < s.len() && s[i] == c
}

/// The index of the first `c` in `s`, assuming there is one.
pub open spec fn first_index(s: Seq<char>, c: char) -> int {
    choose|i: int| 0 <= i < s.len() && s[i] == c && forall|j: int| 0 <= j < i ==> s[j] != c
}

/// The index of the last `c` in `s`, assuming there is one.
pub open spec fn last_index(s: Seq<char>, c: char) -> int {
    choose|i: int| 0 <= i < s.len() && s[i] == c && forall|j: int| i < j < s.len() ==> s[j] != c
}

/// The host and port of a CONNECT target `host:port`: the host is the text
/// before the first `:`, the port the text after it when it parses, and 443
/// otherwise.
pub open spec fn connect_target(target: Seq<char>) -> (Seq<char>, u16) {
    if has_char(target, ':') {
        let i = first_index(target, ':');
        (target.take(i), match parse_u16_text(target.skip(i + 1)) {
            Some(p) => p,
            None => 443,
        })
    } else {
        (target, 443)
    }
}

/// A CONNECT target splits at its first `:`: for a host with no `:` in
/// it, `host:port` gives that host and the port when it parses, 443 when
/// it does not; the host alone gives the host and 443.
pub proof fn law_connect_target_split(host: Seq<char>, port: Seq<char>)
    requires
        !has_char(host, ':'),
    ensures
        connect_target(host + seq![':'] + port) == (host, match parse_u16_text(port) {
            Some(p) => p,
            None => 443u16,
        }),
        connect_target(host) == (host, 443u16),
{
    let t = host + seq![':'] + port;
    let k = host.len() as int;
    assert(t[k] == ':');
    assert(has_char(t, ':'));
    assert forall|j: int| 0 <= j < k implies t[j] != ':' by {
        assert(t[j] == host[j]);
    }
    let i = first_index(t, ':');
    if i < k {
        assert(t[i] == host[i]);
    } else if i > k {
        assert(t[k] == ':');
    }
    assert(t.take(k) =~= host);
    assert(t.skip(k + 1) =~= port);
}

/// The port written after the last `:` of a Host header (the whole header
/// when it has none), when it parses.
pub open spec fn host_header_port(host: Option<Seq<char>>) -> Option<u16> {
    match host {
        None => None,
        Some(h) => if has_char(h, ':') {
            parse_u16_text(h.skip(last_index(h, ':') + 1))
        } else {
            parse_u16_text(h)
        },
    }
}

/// The host and port of a CONNECT target. It never fails: a target with no
/// `:` is all host, and a port that does not parse falls back to 443.
pub fn parse_connect_target(target: &str) -> (r: Result<(String, u16), ProxyError>)
    ensures
        r matches Ok(v) && v.0@ == connect_target(target@).0 && v.1 == connect_target(target@).1,
{
    let cs = chars_of(target);
    let mut i: usize = 0;
    while i < cs.len() && cs[i] != ':'
        invariant
            i <= cs.len(),
            cs@ == target@,
            forall|j: int| 0 <= j < i ==> cs@[j] != ':',
        decreases cs.len() - i,
    {
        i += 1;
    }
    if i == cs.len() {
        let host = string_from_range(&cs, 0, cs.len());
        assert(cs@.subrange(0, cs.len() as int) =~= cs@);
        assert(!has_char(target@, ':'));
        Ok((host, 443))
    } else {
        proof {
            let k = first_index(target@, ':');
            assert(has_char(target@, ':'));
            if k < i {
                assert(cs@[k] != ':');
            } else if k > i {
                assert(target@[i as int] == ':');
            }
        }
        let host = string_from_range(&cs, 0, i);
        let port = match parse_u16_chars(&cs, i + 1) {
            Some(p) => p,
            None => 443,
        };
        assert(cs@.subrange(0, i as int) =~= target@.take(i as int));
        Ok((host, port))
    }
}

/// The port written at the end of a Host header.
pub fn parse_host_port(host: Option<&str>) -> (r: Option<u16>)
    ensures
        r == host_header_port(host.deep_view()),
{
    let h = match host {
        Some(h) => h,
        None => {
            return None;
        },
    };
    let cs = chars_of(h);
    let mut i: usize = cs.len();
    while i > 0 && cs[i - 1] != ':'
        invariant
            i <= cs.len(),
            cs@ == h@,
            forall|j: int| i <= j < cs.len() ==> cs@[j] != ':',
        decreases i,
    {
        i -= 1;
    }
    if i == 0 {
        assert(!has_char(h@, ':'));
        assert(cs@.skip(0) =~= cs@);
        parse_u16_chars(&cs, 0)
    } else {
        proof {
            let k = last_index(h@, ':');
            assert(has_char(h@, ':'));
            if k < i - 1 {
                assert(h@[i - 1] == ':');
            } else if k > i - 1 {
                assert(cs@[k] != ':');
            }
        }
        parse_u16_chars(&cs, i)
    }
}

// ---------------------------------------------------------------------------
// WebSocket frames
// ---------------------------------------------------------------------------

/// The name of a WebSocket opcode.
pub open spec fn opcode_text(opcode: u8) -> Seq<char> {
    if opcode == 0x1 {
        "text"@
    } else if opcode == 0x2 {
        "binary"@
    } else if opcode == 0x8 {
        "close"@
    } else if opcode == 0x9 {
        "ping"@
    } else if opcode == 0xA {
        "pong"@
    } else {
        "frame"@
    }
}

/// A WebSocket frame as it was read: its opcode, its payload (unmasked) and
/// the bytes it came in.
#[derive(Debug)]
pub struct WebSocketFrame {
    pub opcode: u8,
    pub payload: Vec<u8>,
    pub raw: Vec<u8>,
}

impl WebSocketFrame {
    /// The name of the frame's opcode.
    pub fn opcode_name(&self) -> (r: &'static str)
        ensures
            r@ == opcode_text(self.opcode),
    {
        match self.opcode {
            0x1 => "text",
            0x2 => "binary",
            0x8 => "close",
            0x9 => "ping",
            0xA => "pong",
            _ => "frame",
        }
    }
}

/// The two first bytes of a frame, decoded.
#[derive(Debug)]
pub struct FrameStart {
    pub fin: bool,
    pub opcode: u8,
    pub masked: bool,
    /// The 7-bit length field: the length itself below 126, or a marker for
    /// a 16-bit (126) or 64-bit (127) length that follows.
    pub short_len: u8,
}

/// Decodes the first two bytes of a frame.
pub fn decode_frame_start(b0: u8, b1: u8) -> (r: FrameStart)
    ensures
        r.fin == (b0 & 0x80 != 0),
        r.opcode == b0 & 0x0F,
        r.masked == (b1 & 0x80 != 0),
        r.short_len == b1 & 0x7F,
        r.opcode < 16,
        r.short_len < 128,
{
    assert(b0 & 0x0F < 16) by (bit_vector);
    assert(b1 & 0x7F < 128) by (bit_vector);
    FrameStart {
        fin: b0 & 0x80 != 0,
        opcode: b0 & 0x0F,
        masked: b1 & 0x80 != 0,
        short_len: b1 & 0x7F,
    }
}

/// How many bytes of extended length follow the first two bytes.
pub open spec fn extended_len_size(short_len: u8) -> nat {
    if short_len == 126 {
        2
    } else if short_len == 127 {
        8
    } else {
        0
    }
}

/// The big-endian value of bytes.
pub open spec fn be_value(b: Seq<u8>) -> nat
    decreases b.len(),
{
    if b.len() == 0 {
        0
    } else {
        be_value(b.drop_last()) * 256 + b.last() as nat
    }
}

/// How many bytes of extended length follow the first two bytes.
pub fn extended_length_size(short_len: u8) -> (r: usize)
    ensures
        r == extended_len_size(short_len),
{
    if short_len == 126 {
        2
    } else if short_len == 127 {
        8
    } else {
        0
    }
}

/// The largest value that `n` big-endian bytes can hold.
pub open spec fn be_limit(n: nat) -> nat
    decreases n,
{
    if n == 0 {
        0
    } else {
        be_limit((n - 1) as nat) * 256 + 255
    }
}

proof fn lemma_be_value_bound(b: Seq<u8>)
    ensures
        be_value(b) <= be_limit(b.len()),
    decreases b.len(),
{
    if b.len() > 0 {
        lemma_be_value_bound(b.drop_last());
    }
}

/// The payload length of a frame: the 7-bit field, or the big-endian value
/// of the extended length bytes that it announces.
pub open spec fn payload_len(short_len: u8, extended: Seq<u8>) -> nat {
    if short_len == 126 || short_len == 127 {
        be_value(extended)
    } else {
        short_len as nat
    }
}

/// The payload length of a frame.
pub fn payload_length(short_len: u8, extended: &[u8]) -> (r: u64)
    requires
        extended@.len() == extended_len_size(short_len),
    ensures
        r == payload_len(short_len, extended@),
{
    if short_len == 126 || short_len == 127 {
        proof {
            lemma_be_value_bound(extended@);
            reveal_with_fuel(be_limit, 9);
            assert(be_limit(2) == 0xffff);
            assert(be_limit(8) == 0xffff_ffff_ffff_ffff);
        }
        let mut value: u64 = 0;
        let mut i: usize = 0;
        while i < extended.len()
            invariant
                i <= extended.len(),
                extended@.len() <= 8,
                be_value(extended@) <= u64::MAX,
                value == be_value(extended@.take(i as int)),
            decreases extended.len() - i,
        {
            proof {
                assert(extended@.take(i + 1).drop_last() =~= extended@.take(i as int));
                lemma_be_value_prefix(extended@, i + 1);
            }
            value = value * 256 + extended[i] as u64;
            i += 1;
        }
        assert(extended@.take(extended.len() as int) =~= extended@);
        value
    } else {
        short_len as u64
    }
}

proof fn lemma_be_value_prefix(b: Seq<u8>, k: int)
    requires
        0 <= k <= b.len(),
    ensures
        be_value(b.take(k)) <= be_value(b),
    decreases b.len() - k,
{
    if k < b.len() {
        lemma_be_value_prefix(b, k + 1);
        assert(b.take(k + 1).drop_last() =~= b.take(k));
        assert(be_value(b.take(k)) <= be_value(b.take(k)) * 256) by (nonlinear_arith);
    } else {
        assert(b.take(k) =~= b);
    }
}

/// The payload with the mask key applied: byte `i` is XORed with key byte
/// `i % 4`.
pub open spec fn masked_with(payload: Seq<u8>, key: Seq<u8>) -> Seq<u8> {
    Seq::new(payload.len(), |i: int| payload[i] ^ key[i % 4])
}

/// Applies a 4-byte mask key to a payload.
pub fn apply_mask(payload: &[u8], key: &[u8]) -> (r: Vec<u8>)
    requires
        key@.len() == 4,
    ensures
        r@ == masked_with(payload@, key@),
{
    let mut out: Vec<u8> = Vec::new();
    let mut i: usize = 0;
    while i < payload.len()
        invariant
            i <= payload.len(),
            key@.len() == 4,
            out@ =~= masked_with(payload@, key@).take(i as int),
        decreases payload.len() - i,
    {
        out.push(payload[i] ^ key[i % 4]);
        i += 1;
    }
    out
}

/// Masking twice with the same key gives back the payload.
pub proof fn law_masking_twice_restores(payload: Seq<u8>, key: Seq<u8>)
    requires
        key.len() == 4,
    ensures
        masked_with(masked_with(payload, key), key) == payload,
{
    assert forall|i: int| 0 <= i < payload.len() implies #[trigger] masked_with(
        masked_with(payload, key),
        key,
    )[i] == payload[i] by {
        let a = payload[i];
        let k = key[i % 4];
        assert((a ^ k) ^ k == a) by (bit_vector);
    }
    assert(masked_with(masked_with(payload, key), key) =~= payload);
}

/// The frame read from its parts: the two first bytes, the extended length
/// bytes, the mask key when the frame is masked, and the payload as it came.
/// The raw bytes are all of them in order; the payload is unmasked.
pub fn assemble_frame(
    header: &[u8],
    extended: &[u8],
    mask_key: Option<&[u8]>,
    payload: Vec<u8>,
) -> (r: WebSocketFrame)
    requires
        header@.len() == 2,
        mask_key matches Some(k) ==> k@.len() == 4,
    ensures
        r.opcode == header@[0] & 0x0F,
        r.raw@ == header@ + extended@ + (match mask_key {
            Some(k) => k@,
            None => Seq::empty(),
        }) + payload@,
        r.payload@ == (match mask_key {
            Some(k) => masked_with(payload@, k@),
            None => payload@,
        }),
{
    let mut raw: Vec<u8> = Vec::new();
    raw.extend_from_slice(header);
    raw.extend_from_slice(extended);
    match mask_key {
        Some(k) => raw.extend_from_slice(k),
        None => {},
    }
    raw.extend_from_slice(payload.as_slice());
    let unmasked = match mask_key {
        Some(k) => apply_mask(payload.as_slice(), k),
        None => payload,
    };
    assert(raw@ =~= header@ + extended@ + (match mask_key {
        Some(k) => k@,
        None => Seq::<u8>::empty(),
    }) + payload@);
    WebSocketFrame { opcode: header[0] & 0x0F, payload: unmasked, raw }
}

// ---------------------------------------------------------------------------
// WebSocket handshakes
// ---------------------------------------------------------------------------

/// The GUID that RFC 6455 appends to the client key.
pub open spec fn websocket_guid() -> Seq<char> {
    "258EAFA5-E914-47DA-95CA-C5AB0DC85B11"@
}

/// The `Sec-WebSocket-Accept` value for a client key: the base64 of the
/// SHA-1 of the key's bytes followed by the GUID's bytes.
pub fn websocket_accept(key: &str) -> (r: String)
    requires
        key.spec_bytes().len() < 0x1000_0000_0000_0000,
    ensures
        r@ == base64_standard(
            sha1_digest(key.spec_bytes() + "258EAFA5-E914-47DA-95CA-C5AB0DC85B11".spec_bytes()),
        ),
{
    let mut seed: Vec<u8> = Vec::new();
    seed.extend_from_slice(key.as_bytes());
    seed.extend_from_slice("258EAFA5-E914-47DA-95CA-C5AB0DC85B11".as_bytes());
    assert(seed@ =~= key.spec_bytes() + "258EAFA5-E914-47DA-95CA-C5AB0DC85B11".spec_bytes());
    proof {
        lemma_utf8_len_bound("258EAFA5-E914-47DA-95CA-C5AB0DC85B11"@);
        reveal_strlit("258EAFA5-E914-47DA-95CA-C5AB0DC85B11");
    }
    let digest = sha1(seed.as_slice());
    base64_encode(digest.as_slice())
}

proof fn lemma_utf8_len_bound(chars: Seq<char>)
    ensures
        vstd::utf8::encode_utf8(chars).len() <= 4 * chars.len(),
    decreases chars.len(),
{
    if chars.len() > 0 {
        lemma_utf8_len_bound(chars.drop_first());
    }
}

/// The comma-separated parts of a header value, in order: what
/// `str::split(',')` yields.
pub open spec fn comma_parts(s: Seq<char>) -> Seq<Seq<char>>
    decreases s.len(),
{
    if s.len() == 0 {
        seq![Seq::empty()]
    } else {
        let p = comma_parts(s.drop_last());
        if s.last() == ',' {
            p.push(Seq::empty())
        } else {
            p.update(p.len() - 1, p.last().push(s.last()))
        }
    }
}

/// Some comma-separated part of the header value, trimmed, equals `token`
/// up to ASCII case.
pub open spec fn lists_token(s: Seq<char>, token: Seq<char>) -> bool {
    exists|i: int| 0 <= i < comma_parts(s).len() && eq_ignore_case(
        trim_seq(#[trigger] comma_parts(s)[i]),
        token,
    )
}

/// Whether some comma-separated part of `value`, trimmed, equals `token` up
/// to ASCII case (`value.split(',').any(|p| p.trim().eq_ignore_ascii_case(token))`).
pub fn header_lists_token(value: &str, token: &str) -> (r: bool)
    ensures
        r == lists_token(value@, token@),
{
    let cs = chars_of(value);
    let mut cur: Vec<char> = Vec::new();
    let ghost mut done: Seq<Seq<char>> = Seq::empty();
    let mut found = false;
    let mut i: usize = 0;
    assert(cs@.take(0) =~= Seq::<char>::empty());
    assert(done.push(cur@) =~= seq![Seq::<char>::empty()]);
    while i < cs.len()
        invariant
            i <= cs.len(),
            cs@ == value@,
            comma_parts(cs@.take(i as int)) == done.push(cur@),
            found == exists|j: int|
                0 <= j < done.len() && eq_ignore_case(trim_seq(#[trigger] done[j]), token@),
        decreases cs.len() - i,
    {
        let c = cs[i];
        let ghost before = cs@.take(i as int);
        assert(cs@.take(i + 1).drop_last() =~= before);
        assert(cs@.take(i + 1).last() == c);
        if c == ',' {
            let part = string_from_chars(&cur);
            let t = trim(part.as_str());
            let hit = eq_ignore_ascii_case(t.as_str(), token);
            proof {
                let old_done = done;
                done = done.push(cur@);
                assert(comma_parts(cs@.take(i + 1)) =~= done.push(Seq::<char>::empty()));
                if hit {
                    assert(done[old_done.len() as int] == cur@);
                } else {
                    assert forall|j: int|
                        0 <= j < done.len() && eq_ignore_case(
                            trim_seq(#[trigger] done[j]),
                            token@,
                        ) implies 0 <= j < old_done.len() && eq_ignore_case(
                        trim_seq(old_done[j]),
                        token@,
                    ) by {
                        if j == old_done.len() {
                            assert(done[j] == cur@);
                        } else {
                            assert(done[j] == old_done[j]);
                        }
                    }
                }
                if found {
                    let w = choose|j: int|
                        0 <= j < old_done.len() && eq_ignore_case(
                            trim_seq(#[trigger] old_done[j]),
                            token@,
                        );
                    assert(done[w] == old_done[w]);
                }
            }
            found = found || hit;
            cur = Vec::new();
        } else {
            let ghost old_cur = cur@;
            cur.push(c);
            proof {
                let p = done.push(old_cur);
                assert(p.update(p.len() - 1, p.last().push(c)) =~= done.push(cur@));
            }
        }
        i += 1;
    }
    assert(cs@.take(cs.len() as int) =~= cs@);
    let part = string_from_chars(&cur);
    let t = trim(part.as_str());
    let last_hit = eq_ignore_ascii_case(t.as_str(), token);
    proof {
        let parts = comma_parts(value@);
        assert(parts == done.push(cur@));
        if found {
            let w = choose|j: int|
                0 <= j < done.len() && eq_ignore_case(trim_seq(#[trigger] done[j]), token@);
            assert(parts[w] == done[w]);
        }
        if last_hit {
            assert(parts[done.len() as int] == cur@);
        }
        if lists_token(value@, token@) {
            let w = choose|j: int|
                0 <= j < parts.len() && eq_ignore_case(trim_seq(#[trigger] parts[j]), token@);
            if w < done.len() {
                assert(parts[w] == done[w]);
            } else {
                assert(parts[w] == cur@);
            }
        }
    }
    found || last_hit
}

// ---------------------------------------------------------------------------
// Header names, values and methods as the `http` crate accepts them
// ---------------------------------------------------------------------------

/// An HTTP token character: a letter, a digit or one of ``!#$%&'*+-.^_`|~``.
pub open spec fn is_token_char(c: char) -> bool {
    ||| ('a' <= c && c <= 'z')
    ||| ('A' <= c && c <= 'Z')
    ||| ('0' <= c && c <= '9')
    ||| c == '!' || c == '#' || c == '$' || c == '%' || c == '&' || c == '\''
    ||| c == '*' || c == '+' || c == '-' || c == '.' || c == '^' || c == '_'
    ||| c == '`' || c == '|' || c == '~'
}

/// What `http::Method::from_bytes` accepts: a non-empty token.
pub open spec fn valid_method(m: Seq<char>) -> bool {
    m.len() > 0 && forall|i: int| 0 <= i < m.len() ==> is_token_char(#[trigger] m[i])
}

/// What `http::HeaderName::from_bytes` accepts: a token of 1 to 65535
/// characters (upper case letters are accepted and lower-cased).
pub open spec fn valid_header_name(n: Seq<char>) -> bool {
    0 < n.len() <= 65535 && forall|i: int| 0 <= i < n.len() ==> is_token_char(#[trigger] n[i])
}

/// A character that `http::HeaderValue::from_str` accepts: a tab, or any
/// character from the space on except DEL.
pub open spec fn is_value_char(c: char) -> bool {
    c == '\t' || ((c as u32) >= 32 && (c as u32) != 127)
}

/// What `http::HeaderValue::from_str` accepts.
pub open spec fn valid_header_value(v: Seq<char>) -> bool {
    forall|i: int| 0 <= i < v.len() ==> is_value_char(#[trigger] v[i])
}

fn token_char(c: char) -> (r: bool)
    ensures
        r == is_token_char(c),
{
    ('a' <= c && c <= 'z') || ('A' <= c && c <= 'Z') || ('0' <= c && c <= '9') || c == '!' || c
        == '#' || c == '$' || c == '%' || c == '&' || c == '\'' || c == '*' || c == '+' || c == '-'
        || c == '.' || c == '^' || c == '_' || c == '`' || c == '|' || c == '~'
}

fn all_token_chars(cs: &Vec<char>) -> (r: bool)
    ensures
        r == forall|i: int| 0 <= i < cs@.len() ==> is_token_char(#[trigger] cs@[i]),
{
    let mut i: usize = 0;
    while i < cs.len()
        invariant
            i <= cs.len(),
            forall|k: int| 0 <= k < i ==> is_token_char(#[trigger] cs@[k]),
        decreases cs.len() - i,
    {
        if !token_char(cs[i]) {
            assert(!is_token_char(cs@[i as int]));
            return false;
        }
        i += 1;
    }
    true
}

/// Whether the `http` crate accepts `m` as a method.
pub fn is_valid_method(m: &str) -> (r: bool)
    ensures
        r == valid_method(m@),
{
    let cs = chars_of(m);
    cs.len() > 0 && all_token_chars(&cs)
}

/// Whether the `http` crate accepts `n` as a header name.
pub fn is_valid_header_name(n: &str) -> (r: bool)
    ensures
        r == valid_header_name(n@),
{
    let cs = chars_of(n);
    cs.len() > 0 && cs.len() <= 65535 && all_token_chars(&cs)
}

/// Whether the `http` crate accepts `v` as a header value.
pub fn is_valid_header_value(v: &str) -> (r: bool)
    ensures
        r == valid_header_value(v@),
{
    let cs = chars_of(v);
    let mut i: usize = 0;
    while i < cs.len()
        invariant
            i <= cs.len(),
            cs@ == v@,
            forall|k: int| 0 <= k < i ==> is_value_char(#[trigger] cs@[k]),
        decreases cs.len() - i,
    {
        let c = cs[i];
        if !(c == '\t' || ((c as u32) >= 32 && (c as u32) != 127)) {
            assert(!is_value_char(cs@[i as int]));
            return false;
        }
        i += 1;
    }
    true
}

/// A header that the `http` crate accepts, name and value.
pub open spec fn is_sendable(h: HeaderModel) -> bool {
    valid_header_name(h.name) && valid_header_value(h.value)
}

/// The headers that can be sent, in order: those that the `http` crate
/// accepts; the others are left out.
pub open spec fn sendable(hs: Seq<HeaderModel>) -> Seq<HeaderModel>
    decreases hs.len(),
{
    if hs.len() == 0 {
        hs
    } else if is_sendable(hs.last()) {
        sendable(hs.drop_last()).push(hs.last())
    } else {
        sendable(hs.drop_last())
    }
}

/// The headers that can be sent, in order.
pub fn sendable_headers(headers: &[HeaderPair]) -> (r: Vec<HeaderPair>)
    ensures
        r.deep_view() == sendable(headers.deep_view()),
{
    let ghost hs = headers.deep_view();
    let mut out: Vec<HeaderPair> = Vec::new();
    let mut i: usize = 0;
    assert(hs.take(0) =~= Seq::<HeaderModel>::empty());
    while i < headers.len()
        invariant
            i <= headers.len(),
            hs == headers.deep_view(),
            out.deep_view() == sendable(hs.take(i as int)),
        decreases headers.len() - i,
    {
        let h = &headers[i];
        assert(hs.take(i + 1).drop_last() =~= hs.take(i as int));
        assert(hs.take(i + 1).last() == h@);
        if is_valid_header_name(h.name.as_str()) && is_valid_header_value(h.value.as_str()) {
            let ghost before = out.deep_view();
            out.push(h.clone());
            assert(out.deep_view() =~= before.push(h@));
        }
        i += 1;
    }
    assert(hs.take(headers.len() as int) =~= hs);
    out
}

} // verus!
