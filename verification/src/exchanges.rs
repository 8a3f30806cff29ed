//! What goes over the wire of the client: URLs, request heads, response
//! heads and the end of a body.

use vstd::prelude::*;

use crate::httpc;
use crate::httpc::{BodyStepView, ExchangeView, Framing};
use crate::text;

verus! {

/// The character stands nowhere in the text.
pub open spec fn free_of(s: Seq<char>, c: char) -> bool {
    forall|i: int| 0 <= i < s.len() ==> #[trigger] s[i] != c
}

// ---------------------------------------------------------------------------
// URLs
// ---------------------------------------------------------------------------

proof fn lemma_scheme(scheme: Seq<char>, rest: Seq<char>)
    requires
        free_of(scheme, ':'),
    ensures
        text::split_at_first(scheme + "://"@ + rest, "://"@) == Some((scheme, rest)),
{
    reveal_strlit("://");
    let s = scheme + "://"@ + rest;
    let n = scheme.len() as int;
    assert("://"@.len() == 3 && "://"@[0] == ':');
    assert(s.subrange(n, n + 3) =~= "://"@);
    assert forall|i: int| 0 <= i < n implies #[trigger] s[i] != "://"@[0] by {
        assert(s[i] == scheme[i]);
    }
    text::lemma_first_at(s, "://"@, n, 0);
    assert(s.take(n) =~= scheme);
    assert(s.skip(n + 3) =~= rest);
}

proof fn lemma_authority(authority: Seq<char>, path: Seq<char>)
    requires
        free_of(authority, '/'),
        path.len() > 0 ==> path[0] == '/',
    ensures
        httpc::authority_and_path(authority + path) == (authority, if path.len() == 0 {
            "/"@
        } else {
            path
        }),
{
    reveal_strlit("/");
    let rest = authority + path;
    let n = authority.len() as int;
    assert("/"@.len() == 1 && "/"@[0] == '/');
    assert forall|i: int| 0 <= i < n implies #[trigger] rest[i] != "/"@[0] by {
        assert(rest[i] == authority[i]);
    }
    if path.len() > 0 {
        assert(rest.subrange(n, n + 1) =~= "/"@);
        text::lemma_first_at(rest, "/"@, n, 0);
        assert(rest.take(n) =~= authority);
        assert(rest.skip(n) =~= path);
    } else {
        assert(rest =~= authority);
        text::lemma_first_nowhere(rest, "/"@, 0);
    }
}

proof fn lemma_port(host: Seq<char>, port: Seq<char>)
    requires
        free_of(port, ':'),
    ensures
        text::split_at_last(host.push(':') + port, ':') == Some((host, port)),
        free_of(host, ':') ==> text::split_at_last(host, ':') is None,
{
    let s = host.push(':') + port;
    let n = host.len() as int;
    text::lemma_last_index(s, ':');
    assert(s[n] == ':');
    let i = text::last_index(s, ':')->0;
    if i > n {
        assert(s[i] == port[i - n - 1]);
    }
    assert(s.take(n) =~= host);
    assert(s.skip(n + 1) =~= port);
    text::lemma_last_index(host, ':');
}

/// A URL is read as its host, its port and its path: the scheme is `http` in
/// any case, the port is 80 where none is given and at most 65535, the path
/// is `/` where none is given. Another scheme, a host that is missing and a
/// port that is none are refused.
pub proof fn law_urls_are_read(
    scheme: Seq<char>,
    host: Seq<char>,
    port: Seq<char>,
    path: Seq<char>,
)
    requires
        free_of(scheme, ':'),
        free_of(host, '/') && free_of(host, ':'),
        free_of(port, '/') && free_of(port, ':'),
        path.len() > 0 ==> path[0] == '/',
    ensures
        ({
            let end = if path.len() == 0 {
                "/"@
            } else {
                path
            };
            let plain = httpc::url_of(scheme + "://"@ + (host + path));
            let numbered = httpc::url_of(scheme + "://"@ + (host.push(':') + port + path));
            let good = text::lower(scheme) == "http"@ && host.len() > 0;
            &&& good ==> plain == Ok::<(Seq<char>, nat, Seq<char>), Seq<char>>((host, 80, end))
            &&& !good ==> plain is Err && numbered is Err
            &&& good ==> match text::number_of(port, 10, 65_535) {
                Some(n) => numbered == Ok::<(Seq<char>, nat, Seq<char>), Seq<char>>((host, n, end)),
                None => numbered is Err,
            }
        }),
{
    reveal_strlit("http");
    reveal_strlit("https");
    assert(text::lower("http"@) =~= "http"@);
    assert("http"@.len() == 4 && "https"@.len() == 5);
    assert(text::lower("https"@) =~= "https"@);
    lemma_scheme(scheme, host + path);
    lemma_authority(host, path);
    lemma_port(host, port);
    let authority = host.push(':') + port;
    assert(free_of(authority, '/')) by {
        assert forall|i: int| 0 <= i < authority.len() implies #[trigger] authority[i] != '/' by {
            if i < host.len() {
                assert(authority[i] == host[i]);
            } else if i > host.len() {
                assert(authority[i] == port[i - host.len() - 1]);
            }
        }
    }
    lemma_scheme(scheme, authority + path);
    lemma_authority(authority, path);
}

/// A text without `://` is no URL.
pub proof fn law_urls_are_absolute(s: Seq<char>)
    requires
        free_of(s, ':'),
    ensures
        httpc::url_of(s) is Err,
{
    reveal_strlit("://");
    assert("://"@.len() == 3 && "://"@[0] == ':');
    text::lemma_first_nowhere(s, "://"@, 0);
}

// ---------------------------------------------------------------------------
// Headers
// ---------------------------------------------------------------------------

/// A header is looked up by its name in any case: the first one of that name
/// counts, and there is none exactly when no header has it.
pub proof fn law_first_header_counts(h: Seq<(Seq<char>, Seq<char>)>, name: Seq<char>)
    ensures
        match httpc::header_value(h, name) {
            Some(v) => exists|i: int|
                0 <= i < h.len() && text::same_fold((#[trigger] h[i]).0, name) && h[i].1 == v
                    && forall|j: int| 0 <= j < i ==> !text::same_fold((#[trigger] h[j]).0, name),
            None => forall|j: int| 0 <= j < h.len() ==> !text::same_fold((#[trigger] h[j]).0, name),
        },
    decreases h.len(),
{
    if h.len() > 0 {
        let rest = h.drop_first();
        law_first_header_counts(rest, name);
        assert(forall|j: int| 0 <= j < rest.len() ==> rest[j] == h[j + 1]);
        if text::same_fold(h[0].0, name) {
            assert(h[0].1 == httpc::header_value(h, name)->0);
        } else {
            match httpc::header_value(h, name) {
                Some(v) => {
                    let i = choose|i: int|
                        0 <= i < rest.len() && text::same_fold((#[trigger] rest[i]).0, name)
                            && rest[i].1 == v && forall|j: int|
                            0 <= j < i ==> !text::same_fold((#[trigger] rest[j]).0, name);
                    assert(h[i + 1].1 == v);
                    assert forall|j: int| 0 <= j < i + 1 implies !text::same_fold(
                        (#[trigger] h[j]).0,
                        name,
                    ) by {
                        if j > 0 {
                            assert(!text::same_fold(rest[j - 1].0, name));
                        }
                    }
                },
                None => {
                    assert forall|j: int| 0 <= j < h.len() implies !text::same_fold(
                        (#[trigger] h[j]).0,
                        name,
                    ) by {
                        if j > 0 {
                            assert(!text::same_fold(rest[j - 1].0, name));
                        }
                    }
                },
            }
        }
    }
}

/// A line and what follows its break are the first line and the other lines;
/// a text without a break is one line.
pub proof fn law_lines(line: Seq<char>, rest: Seq<char>)
    requires
        free_of(line, '\r'),
    ensures
        httpc::lines(line + "\r\n"@ + rest) == seq![line] + httpc::lines(rest),
        httpc::lines(line) == seq![line],
{
    reveal_strlit("\r\n");
    let pat = "\r\n"@;
    assert(pat.len() == 2 && pat[0] == '\r');
    let s = line + pat + rest;
    let n = line.len() as int;
    assert(s.subrange(n, n + 2) =~= pat);
    assert forall|i: int| 0 <= i < n implies #[trigger] s[i] != pat[0] by {
        assert(s[i] == line[i]);
    }
    text::lemma_first_at(s, pat, n, 0);
    assert(s.take(n) =~= line);
    assert(s.skip(n + 2) =~= rest);
    text::lemma_first_nowhere(line, pat, 0);
}

/// A header line is a name and a value around its first colon, white space
/// aside; a line without a colon holds none.
pub proof fn law_header_line(name: Seq<char>, value: Seq<char>)
    requires
        free_of(name, ':'),
    ensures
        httpc::header_of(name + ":"@ + value) == Some((text::trimmed(name), text::trimmed(value))),
        httpc::header_of(name) is None,
{
    reveal_strlit(":");
    let pat = ":"@;
    assert(pat.len() == 1 && pat[0] == ':');
    let s = name + pat + value;
    let n = name.len() as int;
    assert(s.subrange(n, n + 1) =~= pat);
    assert forall|i: int| 0 <= i < n implies #[trigger] s[i] != pat[0] by {
        assert(s[i] == name[i]);
    }
    text::lemma_first_at(s, pat, n, 0);
    assert(s.take(n) =~= name);
    assert(s.skip(n + 1) =~= value);
    text::lemma_first_nowhere(name, pat, 0);
}

/// The headers of lines are those of the lines that hold one, in their order.
pub proof fn law_headers_of_lines(s: Seq<Seq<char>>, line: Seq<char>, t: Seq<Seq<char>>)
    ensures
        httpc::headers_of(s + t) == httpc::headers_of(s) + httpc::headers_of(t),
        httpc::headers_of(seq![line]) == (match httpc::header_of(line) {
            Some(h) => seq![h],
            None => Seq::empty(),
        }),
    decreases t.len(),
{
    assert(seq![line].drop_last() =~= Seq::<Seq<char>>::empty());
    assert(seq![line].last() == line);
    assert(httpc::headers_of(Seq::<Seq<char>>::empty()) =~= Seq::empty());
    assert(httpc::headers_of(seq![line]) =~= (match httpc::header_of(line) {
        Some(h) => seq![h],
        None => Seq::empty(),
    }));
    if t.len() > 0 {
        law_headers_of_lines(s, line, t.drop_last());
        assert((s + t).drop_last() =~= s + t.drop_last());
        assert(httpc::headers_of(s + t) =~= httpc::headers_of(s) + httpc::headers_of(t));
    } else {
        assert(s + t =~= s);
        assert(httpc::headers_of(t) =~= Seq::empty());
        assert(httpc::headers_of(s) + httpc::headers_of(t) =~= httpc::headers_of(s));
    }
}

/// The status of a response is the number behind the first word of its first
/// line; what follows that number is a remark.
pub proof fn law_status_line(version: Seq<char>, n: nat, remark: Seq<char>)
    requires
        version.len() > 0,
        forall|i: int| 0 <= i < version.len() ==> !text::white_space(#[trigger] version[i]),
        n <= 65_535,
    ensures
        httpc::status_of(version + (seq![' '] + (text::decimal(n) + (seq![' '] + remark)))) == Some(n),
        httpc::status_of(version + (seq![' '] + text::decimal(n))) == Some(n),
        httpc::status_of(version) is None,
{
    let none = Seq::<char>::empty();
    let d = text::decimal(n);
    lemma_decimal_solid(n);
    text::law_decimal_reads_back(n, 65_535);
    let gap = seq![' '];
    let rest = seq![' '] + remark;
    let tail = version + (gap + (d + rest));
    text::law_second_word(none, version, gap, d, rest);
    assert(none + tail =~= tail);
    text::law_second_word(none, version, gap, d, none);
    assert(none + (version + (gap + (d + none))) =~= version + (gap + d));
    lemma_one_word(version);
}

proof fn lemma_one_word(s: Seq<char>)
    requires
        s.len() > 0,
        forall|i: int| 0 <= i < s.len() ==> !text::white_space(#[trigger] s[i]),
    ensures
        text::second_word(s) is None,
{
    lemma_solid_word(s);
    assert(text::trim_start(s) == s);
    assert(s.skip(s.len() as int) =~= Seq::<char>::empty());
}

proof fn lemma_solid_word(s: Seq<char>)
    requires
        forall|i: int| 0 <= i < s.len() ==> !text::white_space(#[trigger] s[i]),
    ensures
        text::word_len(s) == s.len(),
    decreases s.len(),
{
    if s.len() > 0 {
        let rest = s.drop_first();
        assert(forall|i: int| 0 <= i < rest.len() ==> rest[i] == s[i + 1]);
        lemma_solid_word(rest);
    }
}

proof fn lemma_decimal_solid(n: nat)
    ensures
        text::decimal(n).len() > 0,
        forall|i: int|
            0 <= i < text::decimal(n).len() ==> !text::white_space(#[trigger] text::decimal(n)[i])
                && text::decimal(n)[i] != '\r',
    decreases n,
{
    if n >= 10 {
        lemma_decimal_solid(n / 10);
        let d = text::decimal(n);
        let e = text::decimal(n / 10);
        assert forall|i: int| 0 <= i < d.len() implies !text::white_space(#[trigger] d[i]) && d[i]
            != '\r' by {
            if i < e.len() {
                assert(d[i] == e[i]);
            }
        }
    }
}

// ---------------------------------------------------------------------------
// Requests
// ---------------------------------------------------------------------------

/// One line per header.
pub open spec fn header_texts(h: Seq<(Seq<char>, Seq<char>)>) -> Seq<Seq<char>> {
    Seq::new(h.len(), |i: int| h[i].0 + ": "@ + h[i].1)
}

proof fn lemma_header_lines(h: Seq<(Seq<char>, Seq<char>)>, rest: Seq<char>)
    requires
        forall|i: int|
            0 <= i < h.len() ==> free_of((#[trigger] h[i]).0, '\r') && free_of(h[i].1, '\r'),
    ensures
        httpc::lines(httpc::header_lines(h) + rest) == header_texts(h) + httpc::lines(rest),
    decreases h.len(),
{
    if h.len() == 0 {
        assert(httpc::header_lines(h) + rest =~= rest);
        assert(header_texts(h) + httpc::lines(rest) =~= httpc::lines(rest));
    } else {
        let before = h.drop_last();
        let x = h.last();
        assert(forall|i: int| 0 <= i < before.len() ==> before[i] == h[i]);
        let line = x.0 + ": "@ + x.1;
        let more = line + "\r\n"@ + rest;
        lemma_header_lines(before, more);
        assert(httpc::header_lines(h) + rest =~= httpc::header_lines(before) + more);
        assert(h[h.len() - 1] == x);
        assert(free_of(x.0, '\r') && free_of(x.1, '\r'));
        reveal_strlit(": ");
        assert(": "@.len() == 2 && ": "@[0] == ':' && ": "@[1] == ' ');
        assert(free_of(line, '\r')) by {
            assert forall|i: int| 0 <= i < line.len() implies #[trigger] line[i] != '\r' by {
                if i < x.0.len() {
                    assert(line[i] == x.0[i]);
                } else if i < x.0.len() + 2 {
                    assert(line[i] == ": "@[i - x.0.len()]);
                } else {
                    assert(line[i] == x.1[i - x.0.len() - 2]);
                }
            }
        }
        law_lines(line, rest);
        assert(header_texts(h) =~= header_texts(before).push(line));
        assert(header_texts(h) + httpc::lines(rest) =~= header_texts(before) + (seq![line]
            + httpc::lines(rest)));
    }
}

/// The head of a request is its request line, the host, the close of the
/// connection, each header on a line of its own, the length of the body where
/// there is one, and an empty line.
pub proof fn law_request_head(
    method: Seq<char>,
    path: Seq<char>,
    host: Seq<char>,
    headers: Seq<(Seq<char>, Seq<char>)>,
    body_len: Option<usize>,
)
    requires
        free_of(method, '\r') && free_of(path, '\r') && free_of(host, '\r'),
        forall|i: int|
            0 <= i < headers.len() ==> free_of((#[trigger] headers[i]).0, '\r') && free_of(
                headers[i].1,
                '\r',
            ),
    ensures
        httpc::lines(httpc::head_text(method, path, host, headers, body_len)) == seq![
            method + " "@ + path + " HTTP/1.1"@,
            "Host: "@ + host,
            "Connection: close"@,
        ] + header_texts(headers) + (match body_len {
            Some(n) => seq!["Content-Length: "@ + text::decimal(n as nat)],
            None => Seq::empty(),
        }) + seq![Seq::<char>::empty(), Seq::<char>::empty()],
{
    reveal_strlit("\r\n");
    reveal_strlit(" ");
    reveal_strlit(" HTTP/1.1");
    reveal_strlit(" HTTP/1.1\r\nHost: ");
    reveal_strlit("Host: ");
    reveal_strlit("\r\nConnection: close\r\n");
    reveal_strlit("Connection: close");
    reveal_strlit("Content-Length: ");
    let none = Seq::<char>::empty();
    let br = "\r\n"@;
    let first = method + " "@ + path + " HTTP/1.1"@;
    let second = "Host: "@ + host;
    let third = "Connection: close"@;
    let length = match body_len {
        Some(n) => "Content-Length: "@ + text::decimal(n as nat) + br,
        None => none,
    };
    let close = length + br;
    let tail = httpc::header_lines(headers) + close;
    assert(" HTTP/1.1\r\nHost: "@ =~= " HTTP/1.1"@ + br + "Host: "@);
    assert("\r\nConnection: close\r\n"@ =~= br + third + br);
    let all = httpc::head_text(method, path, host, headers, body_len);
    assert(all =~= first + br + (second + br + (third + br + tail)));
    lemma_plain(method, " "@);
    lemma_plain(method + " "@, path);
    lemma_plain(method + " "@ + path, " HTTP/1.1"@);
    lemma_plain("Host: "@, host);
    law_lines(first, second + br + (third + br + tail));
    law_lines(second, third + br + tail);
    law_lines(third, tail);
    lemma_header_lines(headers, close);
    law_lines(none, none);
    assert(none + br + none =~= br);
    assert(httpc::lines(br) =~= seq![none, none]);
    match body_len {
        Some(n) => {
            let line = "Content-Length: "@ + text::decimal(n as nat);
            lemma_decimal_solid(n as nat);
            lemma_plain("Content-Length: "@, text::decimal(n as nat));
            law_lines(line, br);
            assert(close =~= line + br + br);
        },
        None => {
            assert(close =~= br);
        },
    }
    assert(httpc::lines(all) =~= seq![first, second, third] + header_texts(headers) + (match body_len {
        Some(n) => seq!["Content-Length: "@ + text::decimal(n as nat)],
        None => Seq::empty(),
    }) + seq![none, none]);
}

proof fn lemma_plain(a: Seq<char>, b: Seq<char>)
    requires
        free_of(a, '\r'),
        free_of(b, '\r'),
    ensures
        free_of(a + b, '\r'),
{
    assert forall|i: int| 0 <= i < (a + b).len() implies #[trigger] (a + b)[i] != '\r' by {
        if i < a.len() {
            assert((a + b)[i] == a[i]);
        } else {
            assert((a + b)[i] == b[i - a.len()]);
        }
    }
}

// ---------------------------------------------------------------------------
// The end of a body
// ---------------------------------------------------------------------------

/// A body is chunked exactly when a transfer coding names that, anywhere and
/// in any case, whatever length is stated beside it; else its length is the
/// number that the first `content-length` states; else it ends with the
/// connection.
pub proof fn law_framing(h: Seq<(Seq<char>, Seq<char>)>)
    ensures
        ({
            let chunked = exists|i: int, k: int|
                0 <= i < h.len() && text::same_fold((#[trigger] h[i]).0, "transfer-encoding"@)
                    && #[trigger] text::stands_at(text::lower(h[i].1), "chunked"@, k);
            let length = match httpc::header_value(h, "content-length"@) {
                Some(v) => text::number_of(v, 10, usize::MAX as nat),
                None => None,
            };
            &&& chunked <==> httpc::framing_of(h) == Framing::Chunked
            &&& !chunked && length is Some ==> httpc::framing_of(h) == Framing::Length(
                length->0 as usize,
            )
            &&& !chunked && length is None ==> httpc::framing_of(h) == Framing::UntilClose
        }),
{
    if httpc::says_chunked(h) {
        let i = choose|i: int|
            0 <= i < h.len() && text::same_fold((#[trigger] h[i]).0, "transfer-encoding"@)
                && text::find(text::lower(h[i].1), "chunked"@) is Some;
        text::lemma_first_from(text::lower(h[i].1), "chunked"@, 0);
        let k = text::find(text::lower(h[i].1), "chunked"@)->0;
        assert(text::stands_at(text::lower(h[i].1), "chunked"@, k));
    }
    if exists|i: int, k: int|
        0 <= i < h.len() && text::same_fold((#[trigger] h[i]).0, "transfer-encoding"@)
            && #[trigger] text::stands_at(text::lower(h[i].1), "chunked"@, k) {
        let (i, k) = choose|i: int, k: int|
            0 <= i < h.len() && text::same_fold((#[trigger] h[i]).0, "transfer-encoding"@)
                && #[trigger] text::stands_at(text::lower(h[i].1), "chunked"@, k);
        text::lemma_first_from(text::lower(h[i].1), "chunked"@, 0);
        assert(text::find(text::lower(h[i].1), "chunked"@) is Some);
    }
}

/// A body of a stated length is what comes first, that long, or what came
/// before the peer closed; one that ends with the connection is all that
/// came. A chunked body that the peer cut off is broken, and of none is there
/// more to read once the peer has closed.
pub proof fn law_body_steps(len: usize, body: Seq<u8>, more: Seq<u8>, closed: bool)
    ensures
        body.len() == len ==> httpc::step_of(Framing::Length(len), body + more, closed)
            == BodyStepView::Done(body),
        body.len() < len ==> httpc::step_of(Framing::Length(len), body, true)
            == BodyStepView::Done(body),
        body.len() < len ==> httpc::step_of(Framing::Length(len), body, false)
            == BodyStepView::More,
        httpc::step_of(Framing::UntilClose, body, true) == BodyStepView::Done(body),
        httpc::step_of(Framing::UntilClose, body, false) == BodyStepView::More,
        httpc::chunks(body, 0) is Err ==> httpc::step_of(Framing::Chunked, body, true)
            == BodyStepView::Broken,
        httpc::chunks(body, 0) is Err ==> httpc::step_of(Framing::Chunked, body, false)
            == BodyStepView::More,
        httpc::chunks(body, 0) matches Ok(d) ==> httpc::step_of(Framing::Chunked, body, closed)
            == BodyStepView::Done(d),
{
    assert((body + more).take(body.len() as int) =~= body);
}

/// The head ends behind the first empty line.
pub proof fn law_head_ends_at_the_empty_line(head: Seq<u8>, rest: Seq<u8>)
    requires
        forall|i: int| 0 <= i < head.len() ==> #[trigger] head[i] != 13,
    ensures
        httpc::head_end_of(head + seq![13u8, 10, 13, 10] + rest) == Some(head.len() as int + 4),
        httpc::head_end_of(head) is None,
{
    let pat = httpc::crlf() + httpc::crlf();
    assert(pat =~= seq![13u8, 10, 13, 10]);
    let s = head + seq![13u8, 10, 13, 10] + rest;
    let n = head.len() as int;
    assert(s.subrange(n, n + 4) =~= pat);
    assert forall|i: int| 0 <= i < n implies #[trigger] s[i] != pat[0] by {
        assert(s[i] == head[i]);
    }
    text::lemma_first_at(s, pat, n, 0);
    text::lemma_first_nowhere(head, pat, 0);
}

/// A character of an encoded component is a letter, a digit, one of `-._~`,
/// or the `%` of an escape: none that a query gives a meaning to.
pub proof fn law_encoded_characters(b: Seq<u8>, i: int)
    requires
        0 <= i < httpc::encoded(b).len(),
    ensures
        ({
            let c = httpc::encoded(b)[i];
            'A' <= c <= 'Z' || 'a' <= c <= 'z' || '0' <= c <= '9' || c == '-' || c == '.' || c == '_'
                || c == '~' || c == '%'
        }),
    decreases b.len(),
{
    let t = httpc::encoded(b.drop_last());
    let x = b.last();
    if i < t.len() {
        law_encoded_characters(b.drop_last(), i);
    } else {
        assert(0 <= x as int / 16 < 16 && 0 <= x as int % 16 < 16);
        assert(httpc::encoded(b)[i] == httpc::encoded_byte(x)[i - t.len()]);
    }
}

/// A letter, a digit and each of `-._~` stand for themselves; any other byte
/// is written with three characters.
pub proof fn law_encoded_byte(x: u8)
    ensures
        65 <= x <= 90 || 97 <= x <= 122 || 48 <= x <= 57 || x == 45 || x == 46 || x == 95 || x
            == 126 <==> httpc::encoded_byte(x) == seq![x as char],
        httpc::encoded_byte(x).len() == 1 || (httpc::encoded_byte(x).len() == 3
            && httpc::encoded_byte(x)[0] == '%'),
{
    let e = httpc::encoded_byte(x);
    if e == seq![x as char] {
        assert(e.len() == 1);
    }
}

/// A response that is complete is made of what came: the status of its first
/// line, the headers of the other lines of its head, and the body behind it,
/// as its headers frame it.
pub proof fn law_response_is_what_came(raw: Seq<u8>, closed: bool)
    ensures
        httpc::received_so_far(raw, closed) matches ExchangeView::Done { status, headers, body } ==> {
            &&& httpc::head_end_of(raw) matches Some(end)
            &&& {
                let head = httpc::lines(httpc::lossy_text(raw.take(end)));
                let rest = raw.skip(end);
                &&& httpc::status_of(head[0]) == Some(status)
                &&& headers == httpc::headers_of(head.drop_first())
                &&& match httpc::framing_of(headers) {
                    Framing::Chunked => httpc::chunks(rest, 0) == Ok::<Seq<u8>, Seq<char>>(body),
                    Framing::Length(n) => body == rest.take(
                        if rest.len() < n {
                            rest.len() as int
                        } else {
                            n as int
                        },
                    ) && (rest.len() >= n || closed),
                    Framing::UntilClose => body == rest && closed,
                }
            }
        },
        httpc::received_so_far(raw, true) != ExchangeView::More,
{
    if let Some(end) = httpc::head_end_of(raw) {
        let rest = raw.skip(end);
        assert(rest.take(rest.len() as int) =~= rest);
    }
}

/// What follows a semicolon on a chunk's size line is no part of its size,
/// and neither is the white space around it.
pub proof fn law_chunk_extensions_are_dropped(size: Seq<char>, ext: Seq<char>)
    requires
        !size.contains(';'),
    ensures
        httpc::size_text(size) == text::trimmed(size),
        httpc::size_text(size + ";"@ + ext) == text::trimmed(size),
{
    reveal_strlit(";");
    let s = size + ";"@ + ext;
    let n = size.len() as int;
    assert(s.subrange(n, n + 1) =~= ";"@);
    assert forall|k: int| 0 <= k < n implies #[trigger] s[k] != ";"@[0] by {
        assert(s[k] == size[k]);
        assert(size.contains(size[k]));
    }
    text::lemma_first_at(s, ";"@, n, 0);
    assert(s.take(n) =~= size);
    assert forall|k: int| 0 <= k < size.len() implies #[trigger] size[k] != ";"@[0] by {
        assert(size.contains(size[k]));
    }
    text::lemma_first_nowhere(size, ";"@, 0);
}

} // verus!
