//! What is kept of captured headers and bodies: sensitive header values are
//! redacted, bodies are cut to a limit and shown as text, pretty text or
//! base64.
use vstd::prelude::*;
use vstd::utf8::{decode_utf8, encode_utf8, valid_utf8};

use crate::codec::{
    base64_encode, base64_standard, base64_standard_decoded, json_pretty, serde_json_pretty,
    utf8_str,
};
use crate::model::{BodyModel, BodyPreview, FrameModel, HeaderModel, HeaderPair, WebSocketFramePreview};
use crate::text::{
    chars_of, eq_ignore_ascii_case, eq_ignore_case, is_space, leading_space, lower_chars,
    lower_contains, lower_seq, push_char, seq_contains, seq_starts_with, skip_space, trim,
    trim_seq, trim_start_seq,
};

verus! {

/// The body limit of request previews, in bytes.
pub const DEFAULT_REQUEST_LIMIT: usize = 1048576;

/// The body limit of response previews, in bytes.
pub const DEFAULT_RESPONSE_LIMIT: usize = 2097152;

// ---------------------------------------------------------------------------
// Redaction
// ---------------------------------------------------------------------------

/// Whether a header of this name carries credentials: its ASCII lower-cased
/// name is one of the credential headers, or contains `api-key` or `token`.
pub open spec fn is_sensitive_name(name: Seq<char>) -> bool {
    let lower = lower_seq(name);
    ||| lower == "authorization"@
    ||| lower == "cookie"@
    ||| lower == "set-cookie"@
    ||| lower == "proxy-authorization"@
    ||| seq_contains(lower, "api-key"@)
    ||| seq_contains(lower, "token"@)
}

/// The value that is kept of a header.
pub open spec fn redacted_value(name: Seq<char>, value: Seq<char>) -> Seq<char> {
    if is_sensitive_name(name) {
        "<redacted>"@
    } else {
        value
    }
}

/// The header that is kept: same name, redacted value.
pub open spec fn redacted_header(h: HeaderModel) -> HeaderModel {
    HeaderModel { name: h.name, value: redacted_value(h.name, h.value) }
}

fn chars_equal_str(cs: &Vec<char>, lit: &str) -> (r: bool)
    ensures
        r == (cs@ == lit@),
{
    let other = chars_of(lit);
    if cs.len() != other.len() {
        return false;
    }
    let mut i: usize = 0;
    while i < cs.len()
        invariant
            other@ == lit@,
            cs.len() == other.len(),
            i <= cs.len(),
            forall|k: int| 0 <= k < i ==> cs@[k] == other@[k],
        decreases cs.len() - i,
    {
        if cs[i] != other[i] {
            assert(cs@[i as int] != other@[i as int]);
            return false;
        }
        i += 1;
    }
    assert(cs@ =~= other@);
    true
}

/// Whether a header of this name carries credentials.
pub fn is_sensitive_header(name: &str) -> (r: bool)
    ensures
        r == is_sensitive_name(name@),
{
    let lower = lower_chars(name);
    chars_equal_str(&lower, "authorization") || chars_equal_str(&lower, "cookie")
        || chars_equal_str(&lower, "set-cookie") || chars_equal_str(&lower, "proxy-authorization")
        || lower_contains(name, "api-key") || lower_contains(name, "token")
}

/// The value kept of header `name: value`: `<redacted>` for credentials.
pub fn redact_header(name: &str, value: &str) -> (r: String)
    ensures
        r@ == redacted_value(name@, value@),
{
    if is_sensitive_header(name) {
        "<redacted>".to_owned()
    } else {
        value.to_owned()
    }
}

/// The headers as kept, one for one.
pub open spec fn redacted_headers(hs: Seq<HeaderModel>) -> Seq<HeaderModel> {
    Seq::new(hs.len(), |i: int| redacted_header(hs[i]))
}

/// Redaction is idempotent: redacting kept headers again changes nothing,
/// and it keeps every header's name and place.
pub proof fn law_redaction_idempotent(hs: Seq<HeaderModel>)
    ensures
        redacted_headers(redacted_headers(hs)) == redacted_headers(hs),
        redacted_headers(hs).len() == hs.len(),
        forall|i: int| 0 <= i < hs.len() ==> (#[trigger] redacted_headers(hs)[i]).name == hs[i].name,
{
    assert(redacted_headers(redacted_headers(hs)) =~= redacted_headers(hs));
}

/// Kept headers never show a credential: every header whose name marks a
/// credential carries `<redacted>` in place of its value.
pub proof fn law_redaction_hides_credentials(hs: Seq<HeaderModel>)
    ensures
        forall|i: int|
            0 <= i < hs.len() && is_sensitive_name(#[trigger] redacted_headers(hs)[i].name)
                ==> redacted_headers(hs)[i].value == "<redacted>"@,
{
}

/// The headers as kept: same names in the same order, credentials redacted.
pub fn redact_headers(headers: &[HeaderPair]) -> (r: Vec<HeaderPair>)
    ensures
        r.deep_view() == redacted_headers(headers.deep_view()),
{
    let mut out: Vec<HeaderPair> = Vec::new();
    let mut i: usize = 0;
    while i < headers.len()
        invariant
            i <= headers.len(),
            out.deep_view().len() == i,
            forall|k: int| 0 <= k < i ==> #[trigger] out.deep_view()[k] == redacted_header(headers.deep_view()[k]),
        decreases headers.len() - i,
    {
        let h = &headers[i];
        let kept = HeaderPair { name: h.name.clone(), value: redact_header(h.name.as_str(), h.value.as_str()) };
        assert(kept@ == redacted_header(headers.deep_view()[i as int]));
        let ghost before = out.deep_view();
        out.push(kept);
        assert forall|k: int| 0 <= k < i + 1 implies #[trigger] out.deep_view()[k] == redacted_header(headers.deep_view()[k]) by {
            if k < i {
                assert(out.deep_view()[k] == before[k]);
            }
        }
        i += 1;
    }
    assert(out.deep_view() =~= redacted_headers(headers.deep_view()));
    out
}

// ---------------------------------------------------------------------------
// Classification of bodies
// ---------------------------------------------------------------------------

/// A content type that names a textual format.
pub open spec fn is_text_like_type(content_type: Seq<char>) -> bool {
    let lower = lower_seq(content_type);
    ||| seq_starts_with(lower, "text/"@)
    ||| seq_contains(lower, "json"@)
    ||| seq_contains(lower, "xml"@)
    ||| seq_contains(lower, "html"@)
    ||| seq_contains(lower, "javascript"@)
    ||| seq_contains(lower, "x-www-form-urlencoded"@)
    ||| seq_contains(lower, "svg"@)
}

/// The textual formats: a content type is text-like when its ASCII
/// lower-cased text begins with `text/` or has, at any position, `json`,
/// `xml`, `html`, `javascript`, `x-www-form-urlencoded` or `svg`.
pub proof fn law_textual_content_types(content_type: Seq<char>, before: Seq<char>, word: Seq<char>, after: Seq<char>)
    requires
        lower_seq(content_type) == before + word + after,
        (word == "text/"@ && before.len() == 0) || word == "json"@ || word == "xml"@ || word == "html"@
            || word == "javascript"@ || word == "x-www-form-urlencoded"@ || word == "svg"@,
    ensures
        is_text_like_type(content_type),
{
    let lower = lower_seq(content_type);
    assert(lower.subrange(before.len() as int, before.len() + word.len() as int) =~= word);
    assert(crate::text::occurs_at(lower, word, before.len() as int));
}

/// A body of a text-like content type previews as text: when its visible
/// part is valid UTF-8, the preview carries that text, decoded, and no
/// base64; its pretty form is present too.
pub proof fn law_text_like_bodies_preview_as_text(
    content_type: Seq<char>,
    content_encoding: Option<Seq<char>>,
    bytes: Seq<u8>,
    max_bytes: usize,
    pretty_json: Option<Seq<char>>,
    encoded: Seq<char>,
)
    requires
        is_text_like_type(content_type),
        valid_utf8(visible_part(bytes, max_bytes)),
    ensures
        ({
            let m = body_preview_model(Some(content_type), content_encoding, bytes, max_bytes, pretty_json, encoded);
            &&& m.text == Some(decode_utf8(visible_part(bytes, max_bytes)))
            &&& m.base64 is None
            &&& m.pretty is Some
        }),
{
}

/// A preview is cut to its limit: it records the full size, is marked
/// truncated exactly when the body is longer than the limit, and shows the
/// first bytes of the body, as many as the limit allows. A preview that
/// has no text shows its (non-empty) bytes as base64; one with text has no
/// base64.
pub proof fn law_preview_cut_to_limit(
    content_type: Option<Seq<char>>,
    content_encoding: Option<Seq<char>>,
    bytes: Seq<u8>,
    max_bytes: usize,
    pretty_json: Option<Seq<char>>,
    encoded: Seq<char>,
)
    ensures
        ({
            let m = body_preview_model(content_type, content_encoding, bytes, max_bytes, pretty_json, encoded);
            let v = visible_part(bytes, max_bytes);
            &&& m.size == bytes.len() as u64
            &&& m.truncated <==> bytes.len() > max_bytes
            &&& m.content_type == content_type
            &&& v.len() == if bytes.len() > max_bytes { max_bytes as int } else { bytes.len() as int }
            &&& forall|i: int| 0 <= i < v.len() ==> #[trigger] v[i] == bytes[i]
            &&& (m.text is Some ==> m.base64 is None)
            &&& (m.text is None && v.len() > 0 ==> m.base64 == Some(encoded))
        }),
{
}

/// Credentials are recognised by name, whatever the ASCII case: the
/// `Authorization`, `Cookie`, `Set-Cookie` and `Proxy-Authorization`
/// headers, and any header whose name has `token` or `api-key` in it.
pub proof fn law_credential_header_names(name: Seq<char>, before: Seq<char>, word: Seq<char>, after: Seq<char>)
    requires
        (lower_seq(name) == before + word + after && (word == "token"@ || word == "api-key"@))
            || lower_seq(name) == "authorization"@ || lower_seq(name) == "cookie"@
            || lower_seq(name) == "set-cookie"@ || lower_seq(name) == "proxy-authorization"@,
    ensures
        is_sensitive_name(name),
        redacted_value(name, "secret"@) == "<redacted>"@,
{
    let lower = lower_seq(name);
    if lower == before + word + after && (word == "token"@ || word == "api-key"@) {
        assert(lower.subrange(before.len() as int, before.len() + word.len() as int) =~= word);
        assert(crate::text::occurs_at(lower, word, before.len() as int));
    }
}

/// The body looks like JSON: its content type says so, or it is UTF-8 whose
/// first non-whitespace character opens an object or an array.
pub open spec fn is_json_like_body(content_type: Option<Seq<char>>, bytes: Seq<u8>) -> bool {
    ||| (content_type matches Some(c) && seq_contains(lower_seq(c), "json"@))
    ||| (valid_utf8(bytes) && {
        let t = trim_start_seq(decode_utf8(bytes));
        t.len() > 0 && (t[0] == '{' || t[0] == '[')
    })
}

/// The body is shown as text: its content type is textual or JSON-like, or,
/// without a content type, it is valid UTF-8.
pub open spec fn is_textual_body(content_type: Option<Seq<char>>, bytes: Seq<u8>) -> bool {
    match content_type {
        Some(c) => is_text_like_type(c) || is_json_like_body(content_type, bytes),
        None => valid_utf8(bytes),
    }
}

/// The content type names HTML.
pub open spec fn is_html_type(content_type: Option<Seq<char>>) -> bool {
    content_type matches Some(c) && seq_contains(lower_seq(c), "html"@)
}

/// `t` with a line break put between every `>` and the `<` right after it.
pub open spec fn html_breaks(t: Seq<char>) -> Seq<char>
    decreases t.len(),
{
    if t.len() == 0 {
        t
    } else if t.len() >= 2 && t[0] == '>' && t[1] == '<' {
        seq!['>', '\n', '<'] + html_breaks(t.skip(2))
    } else {
        seq![t[0]] + html_breaks(t.skip(1))
    }
}

fn opt_lower_contains(content_type: Option<&str>, needle: &str) -> (r: bool)
    ensures
        r == (content_type.deep_view() matches Some(c) && seq_contains(lower_seq(c), needle@)),
{
    match content_type {
        Some(c) => lower_contains(c, needle),
        None => false,
    }
}

/// Whether the content type names a textual format.
pub fn is_text_like(content_type: Option<&str>) -> (r: bool)
    ensures
        r == (content_type.deep_view() matches Some(c) && is_text_like_type(c)),
{
    let Some(c) = content_type else {
        return false;
    };
    let lower = lower_chars(c);
    let prefix = chars_of("text/");
    crate::text::chars_occur_at(&lower, &prefix, 0) || lower_contains(c, "json")
        || lower_contains(c, "xml") || lower_contains(c, "html") || lower_contains(
        c,
        "javascript",
    ) || lower_contains(c, "x-www-form-urlencoded") || lower_contains(c, "svg")
}

/// Whether the content type names HTML.
pub fn is_html_like(content_type: Option<&str>) -> (r: bool)
    ensures
        r == is_html_type(content_type.deep_view()),
{
    opt_lower_contains(content_type, "html")
}

/// Whether the body looks like JSON.
pub fn is_json_like(content_type: Option<&str>, bytes: &[u8]) -> (r: bool)
    ensures
        r == is_json_like_body(content_type.deep_view(), bytes@),
{
    if opt_lower_contains(content_type, "json") {
        return true;
    }
    match utf8_str(bytes) {
        None => false,
        Some(s) => {
            let cs = chars_of(s);
            let k = skip_space(&cs);
            proof {
                crate::text::lemma_leading_space_bound(cs@);
            }
            assert(trim_start_seq(decode_utf8(bytes@)) == cs@.skip(k as int));
            k < cs.len() && (cs[k] == '{' || cs[k] == '[')
        },
    }
}

/// Whether the body is shown as text.
pub fn is_textual(content_type: Option<&str>, bytes: &[u8]) -> (r: bool)
    ensures
        r == is_textual_body(content_type.deep_view(), bytes@),
{
    match content_type {
        Some(_) => is_text_like(content_type) || is_json_like(content_type, bytes),
        None => utf8_str(bytes).is_some(),
    }
}

/// `text` with a line break between every `>` and the `<` right after it
/// (`str::replace("><", ">\n<")`).
pub fn pretty_html(text: &str) -> (r: String)
    ensures
        r@ == html_breaks(text@),
{
    let cs = chars_of(text);
    let mut out = String::new();
    let mut i: usize = 0;
    assert(cs@.skip(0) =~= cs@);
    assert(out@ + html_breaks(cs@) =~= html_breaks(cs@));
    while i < cs.len()
        invariant
            cs@ == text@,
            i <= cs.len(),
            out@ + html_breaks(cs@.skip(i as int)) == html_breaks(cs@),
        decreases cs.len() - i,
    {
        let ghost rest = cs@.skip(i as int);
        if i + 1 < cs.len() && cs[i] == '>' && cs[i + 1] == '<' {
            push_char(&mut out, '>');
            push_char(&mut out, '\n');
            push_char(&mut out, '<');
            assert(rest.skip(2) =~= cs@.skip(i + 2));
            assert(out@ + html_breaks(cs@.skip(i + 2)) =~= html_breaks(cs@));
            i += 2;
        } else {
            push_char(&mut out, cs[i]);
            assert(rest.skip(1) =~= cs@.skip(i + 1));
            assert(out@ + html_breaks(cs@.skip(i + 1)) =~= html_breaks(cs@));
            i += 1;
        }
    }
    assert(cs@.skip(cs.len() as int) =~= Seq::<char>::empty());
    assert(out@ + Seq::<char>::empty() =~= out@);
    out
}

// ---------------------------------------------------------------------------
// Previews
// ---------------------------------------------------------------------------

/// The part of a body that is shown: the first `max_bytes` bytes.
pub open spec fn visible_part(bytes: Seq<u8>, max_bytes: usize) -> Seq<u8> {
    if bytes.len() > max_bytes {
        bytes.take(max_bytes as int)
    } else {
        bytes
    }
}

/// The text of the visible part, when it is textual and valid UTF-8.
pub open spec fn preview_text(content_type: Option<Seq<char>>, visible: Seq<u8>) -> Option<Seq<char>> {
    if is_textual_body(content_type, visible) && valid_utf8(visible) {
        Some(decode_utf8(visible))
    } else {
        None
    }
}

/// The pretty form of the text, given `pretty_json`, the re-indented JSON
/// of the text when it parses as JSON: that form for JSON-like bodies that
/// parse, HTML with line breaks, or else the text itself.
pub open spec fn preview_pretty(
    content_type: Option<Seq<char>>,
    text: Option<Seq<char>>,
    visible: Seq<u8>,
    pretty_json: Option<Seq<char>>,
) -> Option<Seq<char>> {
    match text {
        None => None,
        Some(t) => if is_json_like_body(content_type, visible) && pretty_json is Some {
            pretty_json
        } else if is_html_type(content_type) {
            Some(html_breaks(t))
        } else {
            Some(t)
        },
    }
}

/// The content encoding as kept: trimmed, and absent when blank.
pub open spec fn kept_encoding(encoding: Option<Seq<char>>) -> Option<Seq<char>> {
    match encoding {
        Some(e) => if trim_seq(e).len() > 0 {
            Some(trim_seq(e))
        } else {
            None
        },
        None => None,
    }
}

/// The preview of a body, given `pretty_json`, the re-indented JSON of the
/// visible text, and `encoded`, the base64 of the visible bytes.
pub open spec fn body_preview_model(
    content_type: Option<Seq<char>>,
    content_encoding: Option<Seq<char>>,
    bytes: Seq<u8>,
    max_bytes: usize,
    pretty_json: Option<Seq<char>>,
    encoded: Seq<char>,
) -> BodyModel {
    let visible = visible_part(bytes, max_bytes);
    let text = preview_text(content_type, visible);
    BodyModel {
        content_type,
        truncated: bytes.len() > max_bytes,
        size: bytes.len() as u64,
        encoding: kept_encoding(content_encoding),
        pretty: preview_pretty(content_type, text, visible, pretty_json),
        text,
        base64: if text is None && visible.len() > 0 {
            Some(encoded)
        } else {
            None
        },
    }
}

/// The re-indented JSON of a text, when the text parses as JSON.
pub open spec fn json_pretty_of(text: Option<Seq<char>>) -> Option<Seq<char>> {
    match text {
        Some(t) => serde_json_pretty(t),
        None => None,
    }
}

fn opt_to_string(s: Option<&str>) -> (r: Option<String>)
    ensures
        r.deep_view() == s.deep_view(),
{
    match s {
        Some(v) => Some(v.to_owned()),
        None => None,
    }
}

fn keep_encoding(encoding: Option<&str>) -> (r: Option<String>)
    ensures
        r.deep_view() == kept_encoding(encoding.deep_view()),
{
    match encoding {
        Some(e) => {
            let t = trim(e);
            if t.as_str().is_empty() {
                None
            } else {
                Some(t)
            }
        },
        None => None,
    }
}

fn visible_slice(bytes: &[u8], max_bytes: usize) -> (r: &[u8])
    ensures
        r@ == visible_part(bytes@, max_bytes),
{
    if bytes.len() > max_bytes {
        vstd::slice::slice_subrange(bytes, 0, max_bytes)
    } else {
        bytes
    }
}

fn text_of(content_type: Option<&str>, visible: &[u8]) -> (r: Option<String>)
    ensures
        r.deep_view() == preview_text(content_type.deep_view(), visible@),
{
    if is_textual(content_type, visible) {
        match utf8_str(visible) {
            Some(s) => Some(s.to_owned()),
            None => None,
        }
    } else {
        None
    }
}

/// Builds the preview of a body from `pretty_json`, the re-indented JSON of
/// the visible text (if it parsed), and `encoded`, the base64 of the visible
/// bytes; each is used only where the preview shows it.
pub fn build_body_preview(
    content_type: Option<&str>,
    content_encoding: Option<&str>,
    bytes: &[u8],
    max_bytes: usize,
    pretty_json: Option<String>,
    encoded: String,
) -> (r: BodyPreview)
    ensures
        r@ == body_preview_model(
            content_type.deep_view(),
            content_encoding.deep_view(),
            bytes@,
            max_bytes,
            pretty_json.deep_view(),
            encoded@,
        ),
{
    let truncated = bytes.len() > max_bytes;
    let visible = visible_slice(bytes, max_bytes);
    let text = text_of(content_type, visible);
    let pretty = match &text {
        None => None,
        Some(t) => {
            if is_json_like(content_type, visible) && pretty_json.is_some() {
                pretty_json
            } else if is_html_like(content_type) {
                Some(pretty_html(t.as_str()))
            } else {
                Some(t.clone())
            }
        },
    };
    let base64 = if text.is_none() && visible.len() > 0 {
        Some(encoded)
    } else {
        None
    };
    BodyPreview {
        content_type: opt_to_string(content_type),
        truncated,
        size: bytes.len() as u64,
        encoding: keep_encoding(content_encoding),
        pretty,
        text,
        base64,
    }
}

/// The bytes that a preview shows: those of its text, or else those its
/// base64 decodes to (or the decode error's message), or else none.
pub open spec fn shown_bytes(b: BodyModel) -> Result<Seq<u8>, Seq<char>> {
    match b.text {
        Some(t) => Ok(encode_utf8(t)),
        None => match b.base64 {
            Some(e) => base64_standard_decoded(e),
            None => Ok(Seq::empty()),
        },
    }
}

/// A preview shows exactly `bytes`.
pub open spec fn shows(b: BodyModel, bytes: Seq<u8>) -> bool {
    shown_bytes(b) matches Ok(s) && s == bytes
}

/// The preview of a body cut to `max_bytes`. It shows exactly the visible
/// bytes: as text, or as base64 that decodes back to them.
pub fn preview_body_with_encoding(
    content_type: Option<&str>,
    content_encoding: Option<&str>,
    bytes: &[u8],
    max_bytes: usize,
) -> (r: BodyPreview)
    requires
        bytes@.len() <= isize::MAX,
    ensures
        r@ == body_preview_model(
            content_type.deep_view(),
            content_encoding.deep_view(),
            bytes@,
            max_bytes,
            json_pretty_of(preview_text(content_type.deep_view(), visible_part(bytes@, max_bytes))),
            base64_standard(visible_part(bytes@, max_bytes)),
        ),
        shows(r@, visible_part(bytes@, max_bytes)),
{
    let visible = visible_slice(bytes, max_bytes);
    let text = text_of(content_type, visible);
    proof {
        if valid_utf8(visible@) {
            vstd::utf8::decode_utf8_encode_utf8(visible@);
        }
    }
    let pretty_json = match &text {
        Some(t) => if is_json_like(content_type, visible) {
            json_pretty(t.as_str())
        } else {
            None
        },
        None => None,
    };
    let encoded = if text.is_none() && visible.len() > 0 {
        base64_encode(visible)
    } else {
        String::new()
    };
    build_body_preview(content_type, content_encoding, bytes, max_bytes, pretty_json, encoded)
}

/// The preview of a body cut to `max_bytes`, with no content encoding.
pub fn preview_body(content_type: Option<&str>, bytes: &[u8], max_bytes: usize) -> (r: BodyPreview)
    requires
        bytes@.len() <= isize::MAX,
    ensures
        r@ == body_preview_model(
            content_type.deep_view(),
            None,
            bytes@,
            max_bytes,
            json_pretty_of(preview_text(content_type.deep_view(), visible_part(bytes@, max_bytes))),
            base64_standard(visible_part(bytes@, max_bytes)),
        ),
        shows(r@, visible_part(bytes@, max_bytes)),
{
    preview_body_with_encoding(content_type, None, bytes, max_bytes)
}

/// The preview of a request body, cut to 1 MiB.
pub fn preview_request_body(
    content_type: Option<&str>,
    content_encoding: Option<&str>,
    bytes: &[u8],
) -> (r: BodyPreview)
    requires
        bytes@.len() <= isize::MAX,
    ensures
        r@ == body_preview_model(
            content_type.deep_view(),
            content_encoding.deep_view(),
            bytes@,
            DEFAULT_REQUEST_LIMIT,
            json_pretty_of(
                preview_text(content_type.deep_view(), visible_part(bytes@, DEFAULT_REQUEST_LIMIT)),
            ),
            base64_standard(visible_part(bytes@, DEFAULT_REQUEST_LIMIT)),
        ),
        shows(r@, visible_part(bytes@, DEFAULT_REQUEST_LIMIT)),
{
    preview_body_with_encoding(content_type, content_encoding, bytes, DEFAULT_REQUEST_LIMIT)
}

/// The preview of a response body, cut to 2 MiB.
pub fn preview_response_body(
    content_type: Option<&str>,
    content_encoding: Option<&str>,
    bytes: &[u8],
) -> (r: BodyPreview)
    requires
        bytes@.len() <= isize::MAX,
    ensures
        r@ == body_preview_model(
            content_type.deep_view(),
            content_encoding.deep_view(),
            bytes@,
            DEFAULT_RESPONSE_LIMIT,
            json_pretty_of(
                preview_text(content_type.deep_view(), visible_part(bytes@, DEFAULT_RESPONSE_LIMIT)),
            ),
            base64_standard(visible_part(bytes@, DEFAULT_RESPONSE_LIMIT)),
        ),
        shows(r@, visible_part(bytes@, DEFAULT_RESPONSE_LIMIT)),
{
    preview_body_with_encoding(content_type, content_encoding, bytes, DEFAULT_RESPONSE_LIMIT)
}

/// The preview of a WebSocket frame, given `encoded`, the base64 of the
/// visible payload: text frames that are UTF-8 are shown as text, the
/// others as base64.
pub open spec fn frame_preview_model(
    direction: Seq<char>,
    opcode: Seq<char>,
    bytes: Seq<u8>,
    max_bytes: usize,
    encoded: Seq<char>,
) -> FrameModel {
    let visible = visible_part(bytes, max_bytes);
    let text = if eq_ignore_case(opcode, "text"@) && valid_utf8(visible) {
        Some(decode_utf8(visible))
    } else {
        None
    };
    FrameModel {
        direction,
        opcode,
        size: bytes.len() as u64,
        text,
        base64: if text is None && visible.len() > 0 {
            Some(encoded)
        } else {
            None
        },
        truncated: bytes.len() > max_bytes,
    }
}

/// Builds the preview of a WebSocket frame from `encoded`, the base64 of
/// the visible payload, used only where the preview shows it.
pub fn build_frame_preview(
    direction: &str,
    opcode: &str,
    bytes: &[u8],
    max_bytes: usize,
    encoded: String,
) -> (r: WebSocketFramePreview)
    ensures
        r@ == frame_preview_model(direction@, opcode@, bytes@, max_bytes, encoded@),
{
    let truncated = bytes.len() > max_bytes;
    let visible = visible_slice(bytes, max_bytes);
    let text = if eq_ignore_ascii_case(opcode, "text") {
        match utf8_str(visible) {
            Some(s) => Some(s.to_owned()),
            None => None,
        }
    } else {
        None
    };
    let base64 = if text.is_none() && visible.len() > 0 {
        Some(encoded)
    } else {
        None
    };
    WebSocketFramePreview {
        direction: direction.to_owned(),
        opcode: opcode.to_owned(),
        size: bytes.len() as u64,
        text,
        base64,
        truncated,
    }
}

/// The preview of a WebSocket frame payload cut to `max_bytes`.
pub fn preview_websocket_frame(
    direction: &str,
    opcode: &str,
    bytes: &[u8],
    max_bytes: usize,
) -> (r: WebSocketFramePreview)
    requires
        bytes@.len() <= isize::MAX,
    ensures
        r@ == frame_preview_model(
            direction@,
            opcode@,
            bytes@,
            max_bytes,
            base64_standard(visible_part(bytes@, max_bytes)),
        ),
{
    let visible = visible_slice(bytes, max_bytes);
    let encoded = base64_encode(visible);
    build_frame_preview(direction, opcode, bytes, max_bytes, encoded)
}

} // verus!
