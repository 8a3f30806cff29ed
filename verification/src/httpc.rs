//! Minimal HTTP/1.1 client, without its socket: URLs, request heads,
//! response heads and body framing. `http://` only; production deployments
//! terminate TLS at a fronting proxy.

use vstd::prelude::*;
use vstd::utf8::*;

use crate::text;
use crate::text::{ascii_lower, chars_of, decimal_text, eq_fold, find_chars, join3, join5, nth_word_1, parse_number, rsplit_once, slice_text, split_once, trim};

verus! {

// ---------------------------------------------------------------------------
// URLs
// ---------------------------------------------------------------------------

/// Parsed `http://` request URL.
#[derive(Debug, Clone, PartialEq, Eq)]
pub struct Url {
    pub host: String,
    pub port: u16,
    /// Path plus query string, always starting with `/`.
    pub path_and_query: String,
}

/// The authority and the path of what follows the scheme.
pub open spec fn authority_and_path(rest: Seq<char>) -> (Seq<char>, Seq<char>) {
    match text::find(rest, "/"@) {
        Some(i) => (rest.take(i), rest.skip(i)),
        None => (rest, "/"@),
    }
}

/// The host and the port of an authority; port 80 where none is given.
pub open spec fn host_and_port(authority: Seq<char>) -> Option<(Seq<char>, nat)> {
    match text::split_at_last(authority, ':') {
        Some((h, p)) => match text::number_of(p, 10, 65_535) {
            Some(n) => Some((h, n)),
            None => None,
        },
        None => Some((authority, 80)),
    }
}

/// Host, port and path of a URL, or why it is refused.
pub open spec fn url_of(s: Seq<char>) -> Result<(Seq<char>, nat, Seq<char>), Seq<char>> {
    match text::split_at_first(s, "://"@) {
        None => Err("URL must be absolute: `"@ + s + "`"@),
        Some((scheme, rest)) => if text::same_fold(scheme, "https"@) {
            Err("https is not supported by this client: `"@ + s + "`"@)
        } else if !text::same_fold(scheme, "http"@) {
            Err("unsupported URL scheme `"@ + scheme + "`"@)
        } else {
            let (authority, path) = authority_and_path(rest);
            match host_and_port(authority) {
                None => Err("bad port in `"@ + s + "`"@),
                Some((host, port)) => if host.len() == 0 {
                    Err("URL has no host: `"@ + s + "`"@)
                } else {
                    Ok((host, port, path))
                },
            }
        },
    }
}

/// Bytes that stand for themselves in a query component.
pub open spec fn unreserved(b: u8) -> bool {
    65 <= b <= 90 || 97 <= b <= 122 || 48 <= b <= 57 || b == 45 || b == 46 || b == 95 || b == 126
}

/// The upper-case hex digit of `n`.
pub open spec fn upper_hex_digit(n: int) -> char {
    if n < 10 {
        (48 + n) as char
    } else {
        (55 + n) as char
    }
}

/// A byte of a query component: itself, or `%` and two hex digits.
pub open spec fn encoded_byte(b: u8) -> Seq<char> {
    if unreserved(b) {
        seq![b as char]
    } else {
        seq!['%', upper_hex_digit(b as int / 16), upper_hex_digit(b as int % 16)]
    }
}

/// The bytes of a query component, each encoded.
pub open spec fn encoded(b: Seq<u8>) -> Seq<char>
    decreases b.len(),
{
    if b.len() == 0 {
        Seq::empty()
    } else {
        encoded(b.drop_last()) + encoded_byte(b.last())
    }
}

fn hex_upper(n: u8) -> (c: char)
    requires
        n < 16,
    ensures
        c == upper_hex_digit(n as int),
{
    if n < 10 {
        (48 + n) as char
    } else {
        (55 + n) as char
    }
}

impl Url {
    /// Parse an absolute `http://` URL.
    pub fn parse(s: &str) -> (r: Result<Url, String>)
        ensures
            match r {
                Ok(u) => url_of(s@) == Ok::<(Seq<char>, nat, Seq<char>), Seq<char>>(
                    (u.host@, u.port as nat, u.path_and_query@),
                ),
                Err(e) => url_of(s@) == Err::<(Seq<char>, nat, Seq<char>), Seq<char>>(e@),
            },
    {
        let (scheme, rest) = match split_once(s, "://") {
            Some(parts) => parts,
            None => return Err(join3("URL must be absolute: `", s, "`")),
        };
        if eq_fold(scheme.as_str(), "https") {
            return Err(join3("https is not supported by this client: `", s, "`"));
        }
        if !eq_fold(scheme.as_str(), "http") {
            return Err(join3("unsupported URL scheme `", scheme.as_str(), "`"));
        }
        let v = chars_of(rest.as_str());
        let slash = chars_of("/");
        let (authority, path) = match find_chars(&v, &slash) {
            Some(i) => {
                assert(v@.subrange(0, i as int) =~= v@.take(i as int));
                assert(v@.subrange(i as int, v@.len() as int) =~= v@.skip(i as int));
                (slice_text(&v, 0, i), slice_text(&v, i, v.len()))
            },
            None => (rest, "/".to_owned()),
        };
        let (host, port): (String, u16) = match rsplit_once(authority.as_str(), ':') {
            Some((h, p)) => match parse_number(p.as_str(), 10, 65_535) {
                Some(n) => (h, n as u16),
                None => return Err(join3("bad port in `", s, "`")),
            },
            None => (authority, 80),
        };
        if host.as_str().is_empty() {
            return Err(join3("URL has no host: `", s, "`"));
        }
        Ok(Url { host, port, path_and_query: path })
    }

    /// Percent-encode a query-parameter value (everything outside
    /// unreserved gets escaped).
    pub fn encode_query_component(s: &str) -> (r: String)
        ensures
            r@ == encoded(encode_utf8(s@)),
    {
        let b = s.as_bytes();
        let mut out = String::new();
        for k in 0..b.len()
            invariant
                b@ == encode_utf8(s@),
                out@ == encoded(b@.take(k as int)),
        {
            let c: u8 = b[k];
            assert(b@.take(k + 1).drop_last() =~= b@.take(k as int));
            let ghost before = out@;
            if (65 <= c && c <= 90) || (97 <= c && c <= 122) || (48 <= c && c <= 57) || c == 45 || c
                == 46 || c == 95 || c == 126 {
                out.push(c as char);
                assert(out@ =~= before + encoded_byte(c));
            } else {
                out.push('%');
                out.push(hex_upper(c / 16));
                out.push(hex_upper(c % 16));
                assert(out@ =~= before + encoded_byte(c));
            }
        }
        assert(b@.take(b@.len() as int) =~= b@);
        out
    }
}

/// A parsed URL has a path that starts with `/`.
pub proof fn law_path_starts_with_slash(s: Seq<char>)
    requires
        url_of(s) is Ok,
    ensures
        (url_of(s)->Ok_0).2.len() > 0,
        (url_of(s)->Ok_0).2[0] == '/',
{
    reveal_strlit("/");
    let rest = (text::split_at_first(s, "://"@)->0).1;
    text::lemma_first_from(rest, "/"@, 0);
    if let Some(i) = text::find(rest, "/"@) {
        assert(rest.subrange(i, i + 1)[0] == rest[i]);
    }
}

/// An encoded query component holds only unreserved characters and `%`.
pub proof fn law_encoded_is_safe(b: Seq<u8>)
    ensures
        forall|i: int|
            0 <= i < encoded(b).len() ==> {
                let c = #[trigger] encoded(b)[i];
                c == '%' || (c as int <= 255 && unreserved(c as u8))
            },
    decreases b.len(),
{
    if b.len() > 0 {
        law_encoded_is_safe(b.drop_last());
        let x = b.last();
        let e = encoded_byte(x);
        assert(0 <= x as int / 16 < 16 && 0 <= x as int % 16 < 16);
        assert forall|i: int| 0 <= i < e.len() implies {
            let c = #[trigger] e[i];
            c == '%' || (c as int <= 255 && unreserved(c as u8))
        } by {}
        assert forall|i: int| 0 <= i < encoded(b).len() implies {
            let c = #[trigger] encoded(b)[i];
            c == '%' || (c as int <= 255 && unreserved(c as u8))
        } by {
            let n = encoded(b.drop_last()).len();
            if i < n {
                assert(encoded(b)[i] == encoded(b.drop_last())[i]);
            } else {
                assert(encoded(b)[i] == e[i - n]);
            }
        }
    }
}

/// Encoding goes byte by byte: two components in a row are encoded as the one
/// and then the other.
pub proof fn law_encoding_distributes(a: Seq<u8>, b: Seq<u8>)
    ensures
        encoded(a + b) == encoded(a) + encoded(b),
    decreases b.len(),
{
    if b.len() == 0 {
        assert(a + b =~= a);
        assert(encoded(a) + encoded(b) =~= encoded(a));
    } else {
        law_encoding_distributes(a, b.drop_last());
        assert((a + b).drop_last() =~= a + b.drop_last());
        assert(encoded(a + b) =~= encoded(a) + encoded(b));
    }
}

/// The texts of two components in a row are encoded as the one and then the
/// other.
pub proof fn law_component_encoding_distributes(s: Seq<char>, t: Seq<char>)
    ensures
        encoded(encode_utf8(s + t)) == encoded(encode_utf8(s)) + encoded(encode_utf8(t)),
{
    text::lemma_bytes_concat(s, t);
    law_encoding_distributes(encode_utf8(s), encode_utf8(t));
}

/// The value of an upper-case hex digit.
pub open spec fn upper_hex_value(c: char) -> Option<int> {
    if '0' <= c <= '9' {
        Some(c as int - 48)
    } else if 'A' <= c <= 'F' {
        Some(c as int - 55)
    } else {
        None
    }
}

/// The bytes that a percent-encoded text stands for: an unreserved character
/// for itself, `%` and two upper-case hex digits for their value.
pub open spec fn percent_decoded(s: Seq<char>) -> Option<Seq<u8>>
    decreases s.len(),
{
    if s.len() == 0 {
        Some(Seq::empty())
    } else if s[0] == '%' {
        if s.len() < 3 {
            None
        } else {
            match (upper_hex_value(s[1]), upper_hex_value(s[2]), percent_decoded(s.skip(3))) {
                (Some(hi), Some(lo), Some(rest)) => Some(seq![(16 * hi + lo) as u8] + rest),
                _ => None,
            }
        }
    } else if s[0] as int <= 255 && unreserved(s[0] as u8) {
        match percent_decoded(s.skip(1)) {
            Some(rest) => Some(seq![s[0] as u8] + rest),
            None => None,
        }
    } else {
        None
    }
}

/// Percent-decoding what was encoded gives the bytes back. As decoding takes
/// characters other than the unreserved ones in triplets alone, an encoded
/// text holds nothing else.
pub proof fn law_encoding_decodes_back(b: Seq<u8>)
    ensures
        percent_decoded(encoded(b)) == Some(b),
    decreases b.len(),
{
    if b.len() > 0 {
        let x = b[0];
        let rest = b.drop_first();
        law_encoding_decodes_back(rest);
        let one = seq![x];
        assert(one.drop_last() =~= Seq::<u8>::empty());
        assert(one.last() == x);
        assert(encoded(one.drop_last()) =~= Seq::<char>::empty());
        assert(encoded(one) =~= encoded_byte(x));
        assert(b =~= one + rest);
        law_encoding_distributes(one, rest);
        let s = encoded(b);
        assert(s == encoded_byte(x) + encoded(rest));
        if unreserved(x) {
            assert(s.skip(1) =~= encoded(rest));
            assert(s[0] == x as char);
        } else {
            assert(s.skip(3) =~= encoded(rest));
            assert(s[0] == '%');
            let hi = x as int / 16;
            let lo = x as int % 16;
            assert(0 <= hi < 16 && 0 <= lo < 16);
            assert(s[1] == upper_hex_digit(hi) && s[2] == upper_hex_digit(lo));
            assert(upper_hex_value(s[1]) == Some(hi) && upper_hex_value(s[2]) == Some(lo));
            assert(16 * hi + lo == x);
        }
        assert(seq![x] + rest =~= b);
    } else {
        assert(b =~= Seq::<u8>::empty());
    }
}

proof fn lemma_encoded_ascii(b: Seq<u8>, i: int)
    requires
        0 <= i < encoded(b).len(),
    ensures
        '\0' <= encoded(b)[i] <= '\u{7f}',
    decreases b.len(),
{
    let t = encoded(b.drop_last());
    let x = b.last();
    if i < t.len() {
        lemma_encoded_ascii(b.drop_last(), i);
    } else {
        assert(0 <= x as int / 16 < 16 && 0 <= x as int % 16 < 16);
        assert(encoded(b)[i] == encoded_byte(x)[i - t.len()]);
    }
}

/// Every byte stands for itself.
pub open spec fn all_unreserved(b: Seq<u8>) -> bool {
    forall|i: int| 0 <= i < b.len() ==> unreserved(#[trigger] b[i])
}

proof fn lemma_encoded_len(b: Seq<u8>)
    ensures
        encoded(b).len() >= b.len(),
        encoded(b).len() == b.len() ==> all_unreserved(b),
    decreases b.len(),
{
    if b.len() > 0 {
        let t = b.drop_last();
        lemma_encoded_len(t);
        if encoded(b).len() == b.len() {
            assert forall|i: int| 0 <= i < b.len() implies unreserved(#[trigger] b[i]) by {
                if i < t.len() {
                    assert(t[i] == b[i]);
                }
            }
        }
    }
}

proof fn lemma_unreserved_kept(b: Seq<u8>)
    requires
        all_unreserved(b),
    ensures
        encoded(b) == Seq::new(b.len(), |i: int| b[i] as char),
    decreases b.len(),
{
    if b.len() > 0 {
        let t = b.drop_last();
        assert forall|i: int| 0 <= i < t.len() implies unreserved(#[trigger] t[i]) by {
            assert(t[i] == b[i]);
        }
        lemma_unreserved_kept(t);
        assert(unreserved(b[b.len() - 1]));
    }
    assert(encoded(b) =~= Seq::new(b.len(), |i: int| b[i] as char));
}

/// A component is encoded as itself exactly when all its bytes are
/// unreserved.
pub proof fn law_unreserved_text_is_kept(s: Seq<char>)
    ensures
        encoded(encode_utf8(s)) == s <==> all_unreserved(encode_utf8(s)),
{
    let b = encode_utf8(s);
    if all_unreserved(b) {
        assert forall|i: int| 0 <= i < b.len() implies #[trigger] b[i] < 128 by {
            assert(unreserved(b[i]));
        }
        text::lemma_ascii_bytes(s);
        lemma_unreserved_kept(b);
        assert(encoded(b) =~= s) by {
            assert forall|i: int| 0 <= i < s.len() implies encoded(b)[i] == #[trigger] s[i] by {
                assert(s[i] as u8 == b[i]);
            }
        }
    }
    if encoded(b) == s {
        assert forall|i: int| 0 <= i < s.len() implies '\0' <= #[trigger] s[i] <= '\u{7f}' by {
            lemma_encoded_ascii(b, i);
        }
        is_ascii_chars_encode_utf8(s);
        lemma_encoded_len(b);
    }
}

// ---------------------------------------------------------------------------
// Responses
// ---------------------------------------------------------------------------

/// A raw HTTP response.
#[derive(Debug, Clone)]
pub struct HttpResponse {
    pub status: u16,
    pub headers: Vec<(String, String)>,
    pub body: Vec<u8>,
}

/// The value of the first header of that name, in any case.
pub open spec fn header_value(headers: Seq<(Seq<char>, Seq<char>)>, name: Seq<char>) -> Option<
    Seq<char>,
>
    decreases headers.len(),
{
    if headers.len() == 0 {
        None
    } else if text::same_fold(headers[0].0, name) {
        Some(headers[0].1)
    } else {
        header_value(headers.drop_first(), name)
    }
}

/// `String::from_utf8_lossy` on given bytes.
pub uninterp spec fn lossy_text(bytes: Seq<u8>) -> Seq<char>;

/// `String::from_utf8_lossy` turns bytes into text: valid UTF-8 into the
/// text that it encodes; what it makes of other bytes is only named.
#[verifier::external_body]
fn from_utf8_lossy(bytes: &[u8]) -> (r: String)
    ensures
        r@ == lossy_text(bytes@),
        valid_utf8(bytes@) ==> r@ == decode_utf8(bytes@),
{
    String::from_utf8_lossy(bytes).into_owned()
}

fn find_header<'a>(headers: &'a Vec<(String, String)>, name: &str) -> (r: Option<&'a str>)
    ensures
        match r {
            Some(v) => header_value(headers.deep_view(), name@) == Some(v@),
            None => header_value(headers.deep_view(), name@) is None,
        },
{
    let ghost h = headers.deep_view();
    assert(h.skip(0) =~= h);
    let mut k: usize = 0;
    while k < headers.len()
        invariant
            h == headers.deep_view(),
            k <= headers@.len(),
            header_value(h, name@) == header_value(h.skip(k as int), name@),
        decreases headers@.len() - k,
    {
        assert(h.skip(k as int)[0] == (headers@[k as int].0@, headers@[k as int].1@));
        if eq_fold(headers[k].0.as_str(), name) {
            return Some(headers[k].1.as_str());
        }
        assert(h.skip(k as int).drop_first() =~= h.skip(k + 1));
        k = k + 1;
    }
    None
}

impl HttpResponse {
    /// The value of the first header of that name, in any case.
    pub fn header(&self, name: &str) -> (r: Option<&str>)
        ensures
            match r {
                Some(v) => header_value(self.headers.deep_view(), name@) == Some(v@),
                None => header_value(self.headers.deep_view(), name@) is None,
            },
    {
        find_header(&self.headers, name)
    }

    /// The body as text.
    pub fn body_string(&self) -> (r: String)
        ensures
            r@ == lossy_text(self.body@),
            valid_utf8(self.body@) ==> r@ == decode_utf8(self.body@),
    {
        from_utf8_lossy(self.body.as_slice())
    }
}

// ---------------------------------------------------------------------------
// Requests
// ---------------------------------------------------------------------------

/// Header lines, each ended by a line break.
pub open spec fn header_lines(headers: Seq<(Seq<char>, Seq<char>)>) -> Seq<char>
    decreases headers.len(),
{
    if headers.len() == 0 {
        Seq::empty()
    } else {
        header_lines(headers.drop_last()) + headers.last().0 + ": "@ + headers.last().1 + "\r\n"@
    }
}

/// The head of a request. The connection is closed after the response.
pub open spec fn head_text(
    method: Seq<char>,
    path: Seq<char>,
    host: Seq<char>,
    headers: Seq<(Seq<char>, Seq<char>)>,
    body_len: Option<usize>,
) -> Seq<char> {
    method + " "@ + path + " HTTP/1.1\r\nHost: "@ + host + "\r\nConnection: close\r\n"@
        + header_lines(headers) + (match body_len {
        Some(n) => "Content-Length: "@ + text::decimal(n as nat) + "\r\n"@,
        None => Seq::empty(),
    }) + "\r\n"@
}

/// The head of a request to `url`, for a body of `body_len` bytes.
pub fn request_head(
    method: &str,
    url: &Url,
    headers: &Vec<(String, String)>,
    body_len: Option<usize>,
) -> (r: String)
    ensures
        r@ == head_text(
            method@,
            url.path_and_query@,
            url.host@,
            headers.deep_view(),
            body_len,
        ),
{
    let mut out = join5(
        method,
        " ",
        url.path_and_query.as_str(),
        " HTTP/1.1\r\nHost: ",
        url.host.as_str(),
    );
    out.append("\r\nConnection: close\r\n");
    let ghost start = out@;
    let ghost h = headers.deep_view();
    assert(out@ =~= start + header_lines(h.take(0)));
    for k in 0..headers.len()
        invariant
            h == headers.deep_view(),
            out@ == start + header_lines(h.take(k as int)),
    {
        assert(h.take(k + 1).drop_last() =~= h.take(k as int));
        assert(h.take(k + 1).last() == (headers@[k as int].0@, headers@[k as int].1@));
        let ghost before = out@;
        out.append(headers[k].0.as_str());
        out.append(": ");
        out.append(headers[k].1.as_str());
        out.append("\r\n");
        assert(out@ =~= start + header_lines(h.take(k + 1)));
    }
    assert(h.take(h.len() as int) =~= h);
    let ghost framed = out@;
    match body_len {
        Some(n) => {
            let line = join3("Content-Length: ", decimal_text(n as u64).as_str(), "\r\n");
            out.append(line.as_str());
        },
        None => {
            assert(framed =~= framed + Seq::<char>::empty());
        },
    }
    out.append("\r\n");
    out
}

// ---------------------------------------------------------------------------
// Response heads
// ---------------------------------------------------------------------------

/// The status and the headers of a response.
#[derive(Debug, PartialEq, Eq)]
pub struct ResponseHead {
    pub status: u16,
    pub headers: Vec<(String, String)>,
}

/// The pieces of a text between line breaks.
pub open spec fn lines(s: Seq<char>) -> Seq<Seq<char>>
    decreases s.len(),
{
    match text::find(s, "\r\n"@) {
        Some(i) => {
            proof {
                reveal_strlit("\r\n");
                text::lemma_first_from(s, "\r\n"@, 0);
            }
            seq![s.take(i)] + lines(s.skip(i + 2))
        },
        None => seq![s],
    }
}

/// The header of one line: what stands before and after the first colon,
/// trimmed.
pub open spec fn header_of(line: Seq<char>) -> Option<(Seq<char>, Seq<char>)> {
    if line.len() == 0 {
        None
    } else {
        match text::split_at_first(line, ":"@) {
            Some((k, v)) => Some((text::trimmed(k), text::trimmed(v))),
            None => None,
        }
    }
}

/// The headers of the lines that hold one.
pub open spec fn headers_of(s: Seq<Seq<char>>) -> Seq<(Seq<char>, Seq<char>)>
    decreases s.len(),
{
    if s.len() == 0 {
        Seq::empty()
    } else {
        match header_of(s.last()) {
            Some(h) => headers_of(s.drop_last()).push(h),
            None => headers_of(s.drop_last()),
        }
    }
}

/// The status of a status line: its second word as a number.
pub open spec fn status_of(line: Seq<char>) -> Option<nat> {
    match text::second_word(line) {
        Some(w) => text::number_of(w, 10, 65_535),
        None => None,
    }
}

fn split_lines(s: &str) -> (r: Vec<String>)
    ensures
        r.deep_view() == lines(s@),
        r@.len() > 0,
{
    let v = chars_of(s);
    let pat = chars_of("\r\n");
    proof {
        reveal_strlit("\r\n");
    }
    let mut out: Vec<String> = Vec::new();
    let mut rest: Vec<char> = v;
    assert(out.deep_view() =~= Seq::<Seq<char>>::empty());
    assert(out.deep_view() + lines(rest@) =~= lines(s@));
    loop
        invariant
            pat@ == "\r\n"@,
            pat@.len() == 2,
            out.deep_view() + lines(rest@) == lines(s@),
        decreases rest@.len(),
    {
        let ghost before = out.deep_view();
        match find_chars(&rest, &pat) {
            Some(i) => {
                let n: usize = rest.len();
                let piece = slice_text(&rest, 0, i);
                assert(rest@.subrange(0, i as int) =~= rest@.take(i as int));
                let tail = vstd::slice::slice_subrange(rest.as_slice(), i + 2, n);
                assert(tail@ =~= rest@.skip(i + 2));
                let ghost r0 = rest@;
                rest = vstd::slice::slice_to_vec(tail);
                out.push(piece);
                assert(out.deep_view() =~= before.push(piece@));
                assert(before + lines(r0) =~= out.deep_view() + lines(rest@));
            },
            None => {
                let piece = slice_text(&rest, 0, rest.len());
                assert(rest@.subrange(0, rest@.len() as int) =~= rest@);
                out.push(piece);
                assert(out.deep_view() =~= before.push(piece@));
                assert(before + lines(rest@) =~= out.deep_view());
                return out;
            },
        }
    }
}

/// Read the head of a response: the status line and the header lines.
pub fn parse_head(head: &str) -> (r: Result<ResponseHead, String>)
    ensures
        match r {
            Ok(h) => status_of(lines(head@)[0]) == Some(h.status as nat) && h.headers.deep_view()
                == headers_of(lines(head@).drop_first()),
            Err(e) => status_of(lines(head@)[0]) is None && e@ == "bad status line `"@ + lines(
                head@,
            )[0] + "`"@,
        },
{
    let all = split_lines(head);
    let ghost l = all.deep_view();
    let status: u16 = match nth_word_1(all[0].as_str()) {
        Some(w) => match parse_number(w.as_str(), 10, 65_535) {
            Some(n) => n as u16,
            None => return Err(join3("bad status line `", all[0].as_str(), "`")),
        },
        None => return Err(join3("bad status line `", all[0].as_str(), "`")),
    };
    let mut headers: Vec<(String, String)> = Vec::new();
    let ghost t = l.drop_first();
    assert(headers.deep_view() =~= headers_of(t.take(0)));
    for k in 1..all.len()
        invariant
            l == all.deep_view(),
            t == l.drop_first(),
            headers.deep_view() == headers_of(t.take(k - 1)),
    {
        assert(t.take(k as int).drop_last() =~= t.take(k - 1));
        assert(t.take(k as int).last() == all@[k as int]@);
        let line: &str = all[k].as_str();
        if !line.is_empty() {
            if let Some((name, value)) = split_once(line, ":") {
                let ghost before = headers.deep_view();
                let pair = (trim(name.as_str()), trim(value.as_str()));
                let ghost shown = (pair.0@, pair.1@);
                headers.push(pair);
                assert(headers.deep_view() =~= before.push(shown));
            }
        }
    }
    assert(t.take(t.len() as int) =~= t);
    Ok(ResponseHead { status, headers })
}

// ---------------------------------------------------------------------------
// Body framing
// ---------------------------------------------------------------------------

/// How the end of a body is told.
#[derive(Debug, Clone, Copy, PartialEq, Eq, Structural)]
pub enum Framing {
    /// Chunked transfer coding.
    Chunked,
    /// A stated length.
    Length(usize),
    /// The peer closes the connection.
    UntilClose,
}

/// Some header names a chunked transfer coding.
pub open spec fn says_chunked(headers: Seq<(Seq<char>, Seq<char>)>) -> bool {
    exists|i: int|
        0 <= i < headers.len() && text::same_fold(
            (#[trigger] headers[i]).0,
            "transfer-encoding"@,
        ) && text::find(text::lower(headers[i].1), "chunked"@) is Some
}

/// The framing that the headers of a response declare.
pub open spec fn framing_of(headers: Seq<(Seq<char>, Seq<char>)>) -> Framing {
    if says_chunked(headers) {
        Framing::Chunked
    } else {
        match header_value(headers, "content-length"@) {
            Some(v) => match text::number_of(v, 10, usize::MAX as nat) {
                Some(n) => Framing::Length(n as usize),
                None => Framing::UntilClose,
            },
            None => Framing::UntilClose,
        }
    }
}

/// The framing that the headers of a response declare.
pub fn framing(headers: &Vec<(String, String)>) -> (r: Framing)
    ensures
        r == framing_of(headers.deep_view()),
{
    let ghost h = headers.deep_view();
    let pat = chars_of("chunked");
    let mut k: usize = 0;
    while k < headers.len()
        invariant
            h == headers.deep_view(),
            pat@ == "chunked"@,
            k <= headers@.len(),
            forall|i: int|
                0 <= i < k ==> !(text::same_fold((#[trigger] h[i]).0, "transfer-encoding"@)
                    && text::find(text::lower(h[i].1), "chunked"@) is Some),
        decreases headers@.len() - k,
    {
        assert(h[k as int] == (headers@[k as int].0@, headers@[k as int].1@));
        if eq_fold(headers[k].0.as_str(), "transfer-encoding") {
            let value = chars_of(ascii_lower(headers[k].1.as_str()).as_str());
            if find_chars(&value, &pat).is_some() {
                return Framing::Chunked;
            }
        }
        k = k + 1;
    }
    match find_header(headers, "content-length") {
        Some(v) => match parse_number(v, 10, usize::MAX as u64) {
            Some(n) => Framing::Length(n as usize),
            None => Framing::UntilClose,
        },
        None => Framing::UntilClose,
    }
}

fn bytes_stand(s: &[u8], pat: &[u8], i: usize) -> (r: bool)
    requires
        i + pat@.len() <= s@.len(),
    ensures
        r == (s@.subrange(i as int, i + pat@.len()) == pat@),
{
    let n: usize = s.len();
    let mut k: usize = 0;
    while k < pat.len()
        invariant
            k <= pat@.len(),
            i + pat@.len() <= s@.len(),
            n == s@.len(),
            forall|m: int| 0 <= m < k ==> s@[i + m] == pat@[m],
        decreases pat@.len() - k,
    {
        if s[i + k] != pat[k] {
            assert(s@.subrange(i as int, i + pat@.len())[k as int] != pat@[k as int]);
            return false;
        }
        k = k + 1;
    }
    assert(s@.subrange(i as int, i + pat@.len()) =~= pat@);
    true
}

/// The first position of `needle` in `haystack`.
pub fn find_subslice(haystack: &[u8], needle: &[u8]) -> (r: Option<usize>)
    requires
        needle@.len() > 0,
    ensures
        r is Some <==> text::find(haystack@, needle@) is Some,
        r is Some ==> r->0 == text::find(haystack@, needle@)->0 && r->0 + needle@.len()
            <= haystack@.len() <= usize::MAX,
{
    find_from(haystack, needle, 0)
}

fn find_from(s: &[u8], pat: &[u8], from: usize) -> (r: Option<usize>)
    requires
        from <= s@.len(),
    ensures
        r is Some <==> text::first_from(s@, pat@, from as int) is Some,
        r is Some ==> r->0 == text::first_from(s@, pat@, from as int)->0 && from <= r->0 && r->0
            + pat@.len() <= s@.len() <= usize::MAX,
{
    if pat.len() > s.len() - from {
        return None;
    }
    let last: usize = s.len() - pat.len();
    let mut i: usize = from;
    while i < last
        invariant
            from <= i <= last == s@.len() - pat@.len(),
            s@.len() <= usize::MAX,
            text::first_from(s@, pat@, from as int) == text::first_from(s@, pat@, i as int),
        decreases last - i,
    {
        if bytes_stand(s, pat, i) {
            return Some(i);
        }
        i = i + 1;
    }
    if bytes_stand(s, pat, last) {
        Some(last)
    } else {
        assert(text::first_from(s@, pat@, last + 1) is None);
        None
    }
}

/// A line break.
pub open spec fn crlf() -> Seq<u8> {
    seq![13u8, 10u8]
}

/// The text of a chunk size: what stands before `;`, trimmed.
pub open spec fn size_text(line: Seq<char>) -> Seq<char> {
    text::trimmed(
        match text::split_at_first(line, ";"@) {
            Some((a, _)) => a,
            None => line,
        },
    )
}

/// The body that the chunks of `raw` from `pos` on carry, or what is
/// missing or bad.
pub open spec fn chunks(raw: Seq<u8>, pos: int) -> Result<Seq<u8>, Seq<char>>
    decreases raw.len() - pos,
{
    match text::first_from(raw, crlf(), pos) {
        None => Err("incomplete chunk header"@),
        Some(end) => {
            let line = raw.subrange(pos, end);
            if !valid_utf8(line) {
                Err("bad chunk header"@)
            } else {
                let size_hex = size_text(decode_utf8(line));
                match text::number_of(size_hex, 16, usize::MAX as nat) {
                    None => Err("bad chunk size `"@ + size_hex + "`"@),
                    Some(size) => {
                        let start = end + 2;
                        if size == 0 {
                            Ok(Seq::empty())
                        } else if start + size > raw.len() {
                            Err("incomplete chunk data"@)
                        } else if start + size + 2 > raw.len() {
                            Err("incomplete chunk trailer"@)
                        } else {
                            proof {
                                text::lemma_first_from(raw, crlf(), pos);
                            }
                            match chunks(raw, start + size + 2) {
                                Ok(rest) => Ok(raw.subrange(start, start + size) + rest),
                                Err(e) => Err(e),
                            }
                        }
                    },
                }
            }
        },
    }
}

#[verifier::external_type_specification]
#[verifier::external_body]
pub struct ExUtf8Error(core::str::Utf8Error);

/// `core::str::from_utf8` succeeds exactly on valid UTF-8, with the text
/// that the bytes encode.
pub assume_specification<'a>[ core::str::from_utf8 ](v: &'a [u8]) -> (r: Result<
    &'a str,
    core::str::Utf8Error,
>)
    ensures
        r is Ok <==> valid_utf8(v@),
        r is Ok ==> (r->Ok_0)@ == decode_utf8(v@),
;

/// Decode a complete chunked body; an error while more data is still
/// expected (the caller reads more and retries).
pub fn decode_chunked_body(raw: &[u8]) -> (r: Result<Vec<u8>, String>)
    ensures
        match r {
            Ok(v) => chunks(raw@, 0) == Ok::<Seq<u8>, Seq<char>>(v@),
            Err(e) => chunks(raw@, 0) == Err::<Seq<u8>, Seq<char>>(e@),
        },
{
    let mut out: Vec<u8> = Vec::new();
    let mut pos: usize = 0;
    let n: usize = raw.len();
    let mut pat: Vec<u8> = Vec::new();
    pat.push(13);
    pat.push(10);
    assert(pat@ =~= crlf());
    proof {
        assert(chunked_so_far(raw@, 0, out@));
    }
    loop
        invariant
            n == raw@.len(),
            pos <= n,
            pat@ == crlf(),
            chunked_so_far(raw@, pos as int, out@),
        decreases n - pos,
    {
        let line_end: usize = match find_from(raw, pat.as_slice(), pos) {
            Some(i) => i,
            None => return Err("incomplete chunk header".to_owned()),
        };
        let line = vstd::slice::slice_subrange(raw, pos, line_end);
        let size_str = match core::str::from_utf8(line) {
            Ok(s) => s,
            Err(_) => return Err("bad chunk header".to_owned()),
        };
        let size_hex = match split_once(size_str, ";") {
            Some((a, _)) => trim(a.as_str()),
            None => trim(size_str),
        };
        let size: usize = match parse_number(size_hex.as_str(), 16, usize::MAX as u64) {
            Some(v) => v as usize,
            None => return Err(join3("bad chunk size `", size_hex.as_str(), "`")),
        };
        let start: usize = line_end + 2;
        if size == 0 {
            assert(out@ + Seq::<u8>::empty() =~= out@);
            return Ok(out);
        }
        if size > n - start {
            return Err("incomplete chunk data".to_owned());
        }
        if n - start - size < 2 {
            return Err("incomplete chunk trailer".to_owned());
        }
        let data = vstd::slice::slice_subrange(raw, start, start + size);
        let ghost before = out@;
        let mut piece: Vec<u8> = vstd::slice::slice_to_vec(data);
        out.append(&mut piece);
        proof {
            assert(out@ =~= before + raw@.subrange(start as int, start + size));
            match chunks(raw@, start + size + 2) {
                Ok(rest) => {
                    assert(before + (raw@.subrange(start as int, start + size) + rest) =~= out@
                        + rest);
                },
                Err(_) => {},
            }
        }
        pos = start + size + 2;
    }
}

/// `out` holds the chunks before `pos`.
spec fn chunked_so_far(raw: Seq<u8>, pos: int, out: Seq<u8>) -> bool {
    chunks(raw, 0) == match chunks(raw, pos) {
        Ok(rest) => Ok::<Seq<u8>, Seq<char>>(out + rest),
        Err(e) => Err::<Seq<u8>, Seq<char>>(e),
    }
}

/// What to do after a read.
#[derive(Debug, PartialEq, Eq)]
pub enum BodyStep {
    /// The body is complete.
    Done(Vec<u8>),
    /// Read on.
    More,
    /// The connection closed too early.
    Broken,
}

/// What a step says.
pub enum BodyStepView {
    Done(Seq<u8>),
    More,
    Broken,
}

impl View for BodyStep {
    type V = BodyStepView;

    open spec fn view(&self) -> BodyStepView {
        match self {
            BodyStep::Done(b) => BodyStepView::Done(b@),
            BodyStep::More => BodyStepView::More,
            BodyStep::Broken => BodyStepView::Broken,
        }
    }
}

/// What follows once `body` has been read so far; `closed` says that the
/// peer has closed the connection.
pub open spec fn step_of(framing: Framing, body: Seq<u8>, closed: bool) -> BodyStepView {
    match framing {
        Framing::Chunked => match chunks(body, 0) {
            Ok(d) => BodyStepView::Done(d),
            Err(_) => if closed {
                BodyStepView::Broken
            } else {
                BodyStepView::More
            },
        },
        Framing::Length(len) => if body.len() >= len {
            BodyStepView::Done(body.take(len as int))
        } else if closed {
            BodyStepView::Done(body)
        } else {
            BodyStepView::More
        },
        Framing::UntilClose => if closed {
            BodyStepView::Done(body)
        } else {
            BodyStepView::More
        },
    }
}

/// Decide what follows once `body` has been read so far; `closed` says that
/// the peer has closed the connection.
pub fn body_step(framing: Framing, body: &Vec<u8>, closed: bool) -> (r: BodyStep)
    ensures
        r@ == step_of(framing, body@, closed),
{
    match framing {
        Framing::Chunked => match decode_chunked_body(body.as_slice()) {
            Ok(d) => BodyStep::Done(d),
            Err(_) => if closed {
                BodyStep::Broken
            } else {
                BodyStep::More
            },
        },
        Framing::Length(len) => if body.len() >= len {
            let taken = vstd::slice::slice_subrange(body.as_slice(), 0, len);
            assert(taken@ =~= body@.take(len as int));
            BodyStep::Done(vstd::slice::slice_to_vec(taken))
        } else if closed {
            BodyStep::Done(vstd::slice::slice_to_vec(body.as_slice()))
        } else {
            BodyStep::More
        },
        Framing::UntilClose => if closed {
            BodyStep::Done(vstd::slice::slice_to_vec(body.as_slice()))
        } else {
            BodyStep::More
        },
    }
}

/// The end of the head in what has been read so far: behind the first
/// empty line.
pub open spec fn head_end_of(raw: Seq<u8>) -> Option<int> {
    match text::find(raw, crlf() + crlf()) {
        Some(i) => Some(i + 4),
        None => None,
    }
}

/// The end of the head in what has been read so far.
pub fn head_end(raw: &Vec<u8>) -> (r: Option<usize>)
    ensures
        r is Some <==> head_end_of(raw@) is Some,
        r is Some ==> r->0 == head_end_of(raw@)->0 && r->0 <= raw@.len(),
{
    let mut pat: Vec<u8> = Vec::new();
    pat.push(13);
    pat.push(10);
    pat.push(13);
    pat.push(10);
    assert(pat@ =~= crlf() + crlf());
    match find_subslice(raw.as_slice(), pat.as_slice()) {
        Some(i) => Some(i + 4),
        None => None,
    }
}

/// Why an exchange fails.
#[derive(Debug, PartialEq, Eq)]
pub enum ExchangeError {
    /// The connection closed before the head was complete.
    ClosedBeforeHeaders,
    /// The status line is none.
    BadHead(String),
    /// The connection closed within a chunk.
    ClosedMidChunk,
}

/// Which failure it is.
pub enum ExchangeErrorView {
    ClosedBeforeHeaders,
    BadHead(Seq<char>),
    ClosedMidChunk,
}

impl View for ExchangeError {
    type V = ExchangeErrorView;

    open spec fn view(&self) -> ExchangeErrorView {
        match self {
            ExchangeError::ClosedBeforeHeaders => ExchangeErrorView::ClosedBeforeHeaders,
            ExchangeError::BadHead(e) => ExchangeErrorView::BadHead(e@),
            ExchangeError::ClosedMidChunk => ExchangeErrorView::ClosedMidChunk,
        }
    }
}

impl ExchangeErrorView {
    /// The text of the error.
    pub open spec fn shown(self) -> Seq<char> {
        match self {
            ExchangeErrorView::ClosedBeforeHeaders => "connection closed before headers"@,
            ExchangeErrorView::BadHead(e) => e,
            ExchangeErrorView::ClosedMidChunk => "connection closed mid-chunk"@,
        }
    }
}

impl ExchangeError {
    /// The text of the error.
    pub fn to_string(&self) -> (r: String)
        ensures
            r@ == self@.shown(),
    {
        match self {
            ExchangeError::ClosedBeforeHeaders => "connection closed before headers".to_owned(),
            ExchangeError::BadHead(e) => e.clone(),
            ExchangeError::ClosedMidChunk => "connection closed mid-chunk".to_owned(),
        }
    }
}

/// What to do after a read.
#[derive(Debug)]
pub enum Exchange {
    /// The response is complete.
    Done(HttpResponse),
    /// Read on.
    More,
    /// There will be no response.
    Failed(ExchangeError),
}

/// What is known of a response.
pub enum ExchangeView {
    Done { status: nat, headers: Seq<(Seq<char>, Seq<char>)>, body: Seq<u8> },
    More,
    Failed(ExchangeErrorView),
}

impl View for Exchange {
    type V = ExchangeView;

    open spec fn view(&self) -> ExchangeView {
        match self {
            Exchange::Done(r) => ExchangeView::Done {
                status: r.status as nat,
                headers: r.headers.deep_view(),
                body: r.body@,
            },
            Exchange::More => ExchangeView::More,
            Exchange::Failed(e) => ExchangeView::Failed(e@),
        }
    }
}

/// What follows once the head, and `body` after it, were read.
pub open spec fn answered(head: Seq<Seq<char>>, body: Seq<u8>, closed: bool) -> ExchangeView {
    match status_of(head[0]) {
        None => ExchangeView::Failed(
            ExchangeErrorView::BadHead("bad status line `"@ + head[0] + "`"@),
        ),
        Some(status) => {
            let headers = headers_of(head.drop_first());
            match step_of(framing_of(headers), body, closed) {
                BodyStepView::Done(body) => ExchangeView::Done { status, headers, body },
                BodyStepView::More => ExchangeView::More,
                BodyStepView::Broken => ExchangeView::Failed(
                    ExchangeErrorView::ClosedMidChunk,
                ),
            }
        },
    }
}

/// What follows once `raw` has been received; `closed` says that the peer
/// has closed the connection.
pub open spec fn received_so_far(raw: Seq<u8>, closed: bool) -> ExchangeView {
    match head_end_of(raw) {
        None => if closed {
            ExchangeView::Failed(ExchangeErrorView::ClosedBeforeHeaders)
        } else {
            ExchangeView::More
        },
        Some(end) => answered(lines(lossy_text(raw.take(end))), raw.skip(end), closed),
    }
}

/// Decide what follows once `raw` has been received of a response; `closed`
/// says that the peer has closed the connection.
pub fn received(raw: &Vec<u8>, closed: bool) -> (r: Exchange)
    ensures
        r@ == received_so_far(raw@, closed),
{
    let end: usize = match head_end(raw) {
        Some(end) => end,
        None => return if closed {
            Exchange::Failed(ExchangeError::ClosedBeforeHeaders)
        } else {
            Exchange::More
        },
    };
    let first = vstd::slice::slice_subrange(raw.as_slice(), 0, end);
    assert(first@ =~= raw@.take(end as int));
    let head = match parse_head(from_utf8_lossy(first).as_str()) {
        Ok(head) => head,
        Err(e) => return Exchange::Failed(ExchangeError::BadHead(e)),
    };
    let rest = vstd::slice::slice_subrange(raw.as_slice(), end, raw.len());
    assert(rest@ =~= raw@.skip(end as int));
    let body = vstd::slice::slice_to_vec(rest);
    match body_step(framing(&head.headers), &body, closed) {
        BodyStep::Done(body) => Exchange::Done(
            HttpResponse { status: head.status, headers: head.headers, body },
        ),
        BodyStep::More => Exchange::More,
        BodyStep::Broken => Exchange::Failed(ExchangeError::ClosedMidChunk),
    }
}

// ---------------------------------------------------------------------------
// Laws
// ---------------------------------------------------------------------------

proof fn lemma_find_extends(s: Seq<u8>, more: Seq<u8>, pat: Seq<u8>, from: int)
    requires
        0 <= from,
        text::first_from(s, pat, from) is Some,
    ensures
        text::first_from(s + more, pat, from) == text::first_from(s, pat, from),
    decreases s.len() - from + 1,
{
    assert((s + more).subrange(from, from + pat.len()) =~= s.subrange(from, from + pat.len()));
    if s.subrange(from, from + pat.len()) != pat {
        lemma_find_extends(s, more, pat, from + 1);
    }
}

proof fn lemma_chunks_extend(raw: Seq<u8>, more: Seq<u8>, pos: int)
    requires
        0 <= pos <= raw.len(),
        chunks(raw, pos) is Ok,
    ensures
        chunks(raw + more, pos) == chunks(raw, pos),
    decreases raw.len() - pos,
{
    lemma_find_extends(raw, more, crlf(), pos);
    text::lemma_first_from(raw, crlf(), pos);
    let end = text::first_from(raw, crlf(), pos)->0;
    assert((raw + more).subrange(pos, end) =~= raw.subrange(pos, end));
    let size = text::number_of(
        size_text(decode_utf8(raw.subrange(pos, end))),
        16,
        usize::MAX as nat,
    )->0;
    if size != 0 {
        let start = end + 2;
        assert((raw + more).subrange(start, start + size) =~= raw.subrange(start, start + size));
        lemma_chunks_extend(raw, more, start + size + 2);
    }
}

/// What follows the last chunk does not change the decoded body, so a
/// reader may retry as bytes arrive and stop at the first success.
pub proof fn law_complete_body_is_final(raw: Seq<u8>, more: Seq<u8>)
    requires
        chunks(raw, 0) is Ok,
    ensures
        chunks(raw + more, 0) == chunks(raw, 0),
{
    lemma_chunks_extend(raw, more, 0);
}

/// Which failure it is: the head is complete and its status line is none;
/// the peer closed before the head ended; or it closed within a chunk.
pub proof fn law_failures_are_told_apart(raw: Seq<u8>, closed: bool, e: ExchangeErrorView)
    requires
        received_so_far(raw, closed) == ExchangeView::Failed(e),
    ensures
        e is BadHead <==> head_end_of(raw) is Some && status_of(
            lines(lossy_text(raw.take(head_end_of(raw)->0)))[0],
        ) is None,
        e is ClosedBeforeHeaders <==> closed && head_end_of(raw) is None,
        e is ClosedMidChunk ==> closed,
{
}

/// A response that is complete before the connection closes is final: what
/// the peer sends after it changes nothing.
pub proof fn law_complete_response_is_final(raw: Seq<u8>, more: Seq<u8>, closed: bool)
    requires
        received_so_far(raw, false) is Done,
    ensures
        received_so_far(raw + more, closed) == received_so_far(raw, false),
{
    lemma_find_extends(raw, more, crlf() + crlf(), 0);
    text::lemma_first_from(raw, crlf() + crlf(), 0);
    let end = head_end_of(raw)->0;
    assert((raw + more).take(end) =~= raw.take(end));
    let body = raw.skip(end);
    assert((raw + more).skip(end) =~= body + more);
    let headers = headers_of(lines(lossy_text(raw.take(end))).drop_first());
    match framing_of(headers) {
        Framing::Chunked => {
            law_complete_body_is_final(body, more);
        },
        Framing::Length(len) => {
            assert((body + more).take(len as int) =~= body.take(len as int));
        },
        Framing::UntilClose => {},
    }
}

// ---------------------------------------------------------------------------
// Runs of chunks
// ---------------------------------------------------------------------------

proof fn lemma_find_shift(s: Seq<u8>, pat: Seq<u8>, pos: int, from: int)
    requires
        0 <= pos <= s.len(),
        0 <= from,
    ensures
        text::first_from(s, pat, pos + from) == match text::first_from(s.skip(pos), pat, from) {
            Some(i) => Some(pos + i),
            None => None,
        },
    decreases s.len() - pos - from + 1,
{
    let t = s.skip(pos);
    if from + pat.len() <= t.len() {
        assert(t.subrange(from, from + pat.len()) =~= s.subrange(
            pos + from,
            pos + from + pat.len(),
        ));
        if t.subrange(from, from + pat.len()) != pat {
            lemma_find_shift(s, pat, pos, from + 1);
        }
    }
}

/// What the chunks from a position on carry depends on what stands there
/// alone.
proof fn lemma_chunks_shift(raw: Seq<u8>, pos: int)
    requires
        0 <= pos <= raw.len(),
    ensures
        chunks(raw, pos) == chunks(raw.skip(pos), 0),
    decreases raw.len() - pos,
{
    let t = raw.skip(pos);
    lemma_find_shift(raw, crlf(), pos, 0);
    text::lemma_first_from(t, crlf(), 0);
    match text::first_from(t, crlf(), 0) {
        None => {},
        Some(end) => {
            assert(raw.subrange(pos, pos + end) =~= t.subrange(0, end));
            let line = t.subrange(0, end);
            match text::number_of(size_text(decode_utf8(line)), 16, usize::MAX as nat) {
                None => {},
                Some(size) => {
                    let next = end + 2 + size + 2;
                    if size != 0 && next <= t.len() {
                        assert(raw.subrange(pos + end + 2, pos + end + 2 + size) =~= t.subrange(
                            end + 2,
                            end + 2 + size,
                        ));
                        lemma_chunks_shift(raw, pos + next);
                        lemma_chunks_shift(t, next);
                        assert(raw.skip(pos + next) =~= t.skip(next));
                    }
                },
            }
        },
    }
}

/// The bytes are a line that states a chunk of `n` bytes.
pub open spec fn states_size(line: Seq<u8>, n: nat) -> bool {
    &&& text::find(line + crlf(), crlf()) == Some(line.len() as int)
    &&& valid_utf8(line)
    &&& text::number_of(size_text(decode_utf8(line)), 16, usize::MAX as nat) == Some(n)
}

/// Each chunk states the length of its data, and has some.
pub open spec fn chunks_stated(run: Seq<(Seq<u8>, Seq<u8>)>) -> bool {
    forall|i: int|
        0 <= i < run.len() ==> (#[trigger] run[i]).1.len() > 0 && states_size(
            run[i].0,
            run[i].1.len(),
        )
}

/// The bytes of a run of chunks, each with its size line and its data, and
/// of the last line.
pub open spec fn run_bytes(run: Seq<(Seq<u8>, Seq<u8>)>, last: Seq<u8>) -> Seq<u8>
    decreases run.len(),
{
    if run.len() == 0 {
        last + crlf()
    } else {
        run[0].0 + crlf() + run[0].1 + crlf() + run_bytes(run.drop_first(), last)
    }
}

/// The data of a run of chunks.
pub open spec fn run_data(run: Seq<(Seq<u8>, Seq<u8>)>) -> Seq<u8>
    decreases run.len(),
{
    if run.len() == 0 {
        Seq::empty()
    } else {
        run[0].1 + run_data(run.drop_first())
    }
}

/// The size line at the start is found where it ends.
proof fn lemma_size_line(line: Seq<u8>, rest: Seq<u8>, n: nat)
    requires
        states_size(line, n),
    ensures
        ({
            let raw = line + crlf() + rest;
            &&& text::first_from(raw, crlf(), 0) == Some(line.len() as int)
            &&& raw.subrange(0, line.len() as int) == line
        }),
{
    lemma_find_extends(line + crlf(), rest, crlf(), 0);
    assert((line + crlf() + rest).subrange(0, line.len() as int) =~= line);
}

/// A run of chunks decodes to its data, whatever follows it.
pub proof fn law_run_decodes(run: Seq<(Seq<u8>, Seq<u8>)>, last: Seq<u8>, more: Seq<u8>)
    requires
        chunks_stated(run),
        states_size(last, 0),
    ensures
        chunks(run_bytes(run, last) + more, 0) == Ok::<Seq<u8>, Seq<char>>(run_data(run)),
    decreases run.len(),
{
    let raw = run_bytes(run, last) + more;
    if run.len() == 0 {
        lemma_size_line(last, more, 0);
    } else {
        let (line, data) = run[0];
        let tail = run.drop_first();
        assert(chunks_stated(tail)) by {
            assert forall|i: int| 0 <= i < tail.len() implies (#[trigger] tail[i]).1.len() > 0
                && states_size(tail[i].0, tail[i].1.len()) by {
                assert(tail[i] == run[i + 1]);
            }
        }
        assert(states_size(line, data.len()));
        law_run_decodes(tail, last, more);
        let rest = data + crlf() + run_bytes(tail, last) + more;
        assert(raw =~= line + crlf() + rest);
        lemma_size_line(line, rest, data.len());
        let start = line.len() + 2;
        assert(raw.subrange(start as int, (start + data.len()) as int) =~= data);
        let next = (start + data.len() + 2) as int;
        assert(raw.skip(next) =~= run_bytes(tail, last) + more);
        lemma_chunks_shift(raw, next);
    }
}

/// Every strict prefix of a run of chunks is refused: more data is still
/// expected.
pub proof fn law_unfinished_run_is_refused(
    run: Seq<(Seq<u8>, Seq<u8>)>,
    last: Seq<u8>,
    k: int,
)
    requires
        chunks_stated(run),
        states_size(last, 0),
        0 <= k < run_bytes(run, last).len(),
    ensures
        chunks(run_bytes(run, last).take(k), 0) is Err,
    decreases run.len(),
{
    let all = run_bytes(run, last);
    let p = all.take(k);
    let gone = all.skip(k);
    assert(p + gone =~= all);
    if run.len() == 0 {
        lemma_size_line(last, Seq::empty(), 0);
        assert(last + crlf() + Seq::<u8>::empty() =~= all);
        if text::first_from(p, crlf(), 0) is Some {
            lemma_find_extends(p, gone, crlf(), 0);
            text::lemma_first_from(p, crlf(), 0);
        }
    } else {
        let (line, data) = run[0];
        let tail = run.drop_first();
        assert(chunks_stated(tail)) by {
            assert forall|i: int| 0 <= i < tail.len() implies (#[trigger] tail[i]).1.len() > 0
                && states_size(tail[i].0, tail[i].1.len()) by {
                assert(tail[i] == run[i + 1]);
            }
        }
        assert(states_size(line, data.len()));
        let rest = data + crlf() + run_bytes(tail, last);
        assert(all =~= line + crlf() + rest);
        lemma_size_line(line, rest, data.len());
        if k < line.len() + 2 {
            if text::first_from(p, crlf(), 0) is Some {
                lemma_find_extends(p, gone, crlf(), 0);
                text::lemma_first_from(p, crlf(), 0);
            }
        } else {
            let head = rest.take(k - line.len() - 2);
            assert(p =~= line + crlf() + head);
            lemma_size_line(line, head, data.len());
            let next = (line.len() + 2 + data.len() + 2) as int;
            if k >= next {
                assert(p.skip(next) =~= run_bytes(tail, last).take(k - next));
                lemma_chunks_shift(p, next);
                law_unfinished_run_is_refused(tail, last, k - next);
            }
        }
    }
}

/// Hex digits alone are a size line that states their value.
pub proof fn law_hex_digits_state_a_size(digits: Seq<char>, n: nat)
    requires
        forall|i: int|
            0 <= i < digits.len() ==> {
                let c = #[trigger] digits[i];
                '0' <= c <= '9' || 'a' <= c <= 'f' || 'A' <= c <= 'F'
            },
        text::number_of(digits, 16, usize::MAX as nat) == Some(n),
    ensures
        states_size(encode_utf8(digits), n),
{
    let b = encode_utf8(digits);
    assert(is_ascii_chars(digits));
    is_ascii_chars_encode_utf8(digits);
    encode_utf8_valid_utf8(digits);
    encode_utf8_decode_utf8(digits);
    reveal_strlit(";");
    text::lemma_first_nowhere(digits, ";"@, 0);
    assert(text::find(digits, ";"@) is None);
    assert(text::trimmed(digits) == digits) by {
        assert(digits.len() > 0);
        assert(!text::white_space(digits[0]));
        assert(!text::white_space(digits[digits.len() - 1]));
    }
    let w = b + crlf();
    assert forall|i: int| 0 <= i < b.len() implies #[trigger] w[i] != 13 by {
        assert(digits[i] as u8 == b[i]);
    }
    assert(w.subrange(b.len() as int, b.len() as int + 2) =~= crlf());
    text::lemma_first_at(w, crlf(), b.len() as int, 0);
}

} // verus!
