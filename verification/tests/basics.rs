//! Hex, instants, texts and the HTTP client's framing.

use unidpp_trust::api::paths;
use unidpp_trust::data::{insert_keyed, place};
use unidpp_trust::hex::{hex_decode, hex_encode};
use unidpp_trust::httpc::{
    body_step, decode_chunked_body, find_subslice, framing, head_end, parse_head, received,
    request_head, BodyStep, Exchange, ExchangeError, Framing, HttpResponse, Url,
};
use unidpp_trust::text::{decimal_text, is_white_space, parse_number, trim};
use unidpp_trust::time::{civil_from_days, Timestamp};

#[test]
fn round_trip() {
    for bytes in [
        &b""[..],
        &b"\x00"[..],
        &b"\x01\x23\x45\x67\x89\xab\xcd\xef"[..],
    ] {
        assert_eq!(hex_decode(&hex_encode(bytes)).unwrap(), bytes);
    }
}

#[test]
fn accepts_prefix_and_case() {
    assert_eq!(
        hex_decode("0xdeadBEEF").unwrap(),
        vec![0xde, 0xad, 0xbe, 0xef]
    );
    assert_eq!(
        hex_decode("DEADbeef").unwrap(),
        vec![0xde, 0xad, 0xbe, 0xef]
    );
}

#[test]
fn rejects_bad_input() {
    assert!(hex_decode("abc").is_err());
    assert!(hex_decode("zz").is_err());
}

#[test]
fn hex_is_lower_case_two_digits_a_byte() {
    assert_eq!(hex_encode(&[0x00, 0x0f, 0xa0, 0xff]), "000fa0ff");
    assert_eq!(hex_decode(" 0XFF ").unwrap(), vec![0xff]);
    assert!(hex_decode("zz").unwrap_err().contains("not a hex digit `z`"));
}

#[test]
fn url_parsing() {
    let u = Url::parse("http://127.0.0.1:8080/trust-lists?x=1").unwrap();
    assert_eq!(u.host, "127.0.0.1");
    assert_eq!(u.port, 8080);
    assert_eq!(u.path_and_query, "/trust-lists?x=1");
    let d = Url::parse("http://example.org").unwrap();
    assert_eq!(d.port, 80);
    assert_eq!(d.path_and_query, "/");
    assert!(Url::parse("https://example.org").is_err());
    assert!(Url::parse("example.org").is_err());
}

#[test]
fn query_encoding() {
    assert_eq!(
        Url::encode_query_component("2026-01-01T00:00:00Z..2026-02-01T00:00:00Z"),
        "2026-01-01T00%3A00%3A00Z..2026-02-01T00%3A00%3A00Z"
    );
    assert_eq!(Url::encode_query_component("safe-._~"), "safe-._~");
}

#[test]
fn query_encoding_escapes_every_byte_of_a_character() {
    assert_eq!(Url::encode_query_component("é &"), "%C3%A9%20%26");
}

#[test]
fn chunked_decoding() {
    let body = b"4\r\nWiki\r\n5\r\npedia\r\n0\r\n\r\n";
    assert_eq!(decode_chunked_body(body).unwrap(), b"Wikipedia");
}

#[test]
fn chunked_decoding_refuses_torn_bodies() {
    assert!(decode_chunked_body(b"4\r\nWi").is_err());
    assert!(decode_chunked_body(b"zz\r\nWiki\r\n0\r\n\r\n").is_err());
}

#[test]
fn request_head_names_host_and_length() {
    let url = Url::parse("http://h:81/p?q=1").unwrap();
    let head = request_head("POST", &url, &vec![("a".to_string(), "b".to_string())], Some(3));
    assert!(head.starts_with("POST /p?q=1 HTTP/1.1\r\n"));
    assert!(head.contains("\r\na: b\r\n"));
    assert!(head.to_ascii_lowercase().contains("content-length: 3\r\n"));
    assert!(head.ends_with("\r\n\r\n"));
}

#[test]
fn response_framing_follows_the_headers() {
    let raw = b"HTTP/1.1 200 OK\r\nContent-Length: 2\r\nX-A: 1\r\n\r\nok".to_vec();
    let end = head_end(&raw).unwrap();
    assert_eq!(&raw[end..], b"ok");
    let head = parse_head(std::str::from_utf8(&raw[..end]).unwrap()).unwrap();
    assert_eq!(head.status, 200);
    assert_eq!(head.headers[1], ("X-A".to_string(), "1".to_string()));
    assert_eq!(framing(&head.headers), Framing::Length(2));
    let head = parse_head("HTTP/1.1 404 Not Found\r\nTransfer-Encoding: Chunked\r\n\r\n").unwrap();
    assert_eq!(head.status, 404);
    assert_eq!(framing(&head.headers), Framing::Chunked);
    assert_eq!(framing(&Vec::new()), Framing::UntilClose);
    assert_eq!(
        parse_head("nonsense\r\n\r\n").unwrap_err(),
        "bad status line `nonsense`"
    );
    assert_eq!(head_end(&b"HTTP/1.1 200 OK\r\n".to_vec()), None);
}

#[test]
fn bodies_are_read_until_they_are_complete() {
    let step = |f: Framing, b: &[u8], closed: bool| body_step(f, &b.to_vec(), closed);
    assert_eq!(step(Framing::Length(2), b"o", false), BodyStep::More);
    assert_eq!(step(Framing::Length(2), b"okay", false), BodyStep::Done(b"ok".to_vec()));
    assert_eq!(step(Framing::Length(2), b"o", true), BodyStep::Done(b"o".to_vec()));
    assert_eq!(step(Framing::UntilClose, b"o", false), BodyStep::More);
    assert_eq!(step(Framing::UntilClose, b"o", true), BodyStep::Done(b"o".to_vec()));
    assert_eq!(step(Framing::Chunked, b"1\r\n", false), BodyStep::More);
    assert_eq!(step(Framing::Chunked, b"1\r\n", true), BodyStep::Broken);
    assert_eq!(
        step(Framing::Chunked, b"1\r\no\r\n0\r\n\r\nrest", false),
        BodyStep::Done(b"o".to_vec())
    );
}

#[test]
fn responses_are_read_until_they_are_complete() {
    let after = |raw: &[u8], closed: bool| received(&raw.to_vec(), closed);
    assert!(matches!(after(b"HTTP/1.1 200 OK\r\n", false), Exchange::More));
    let Exchange::Failed(e) = after(b"HTTP/1.1 200 OK\r\n", true) else {
        panic!("closed early");
    };
    assert_eq!(e, ExchangeError::ClosedBeforeHeaders);
    assert_eq!(e.to_string(), "connection closed before headers");
    let Exchange::Failed(e) = after(b"non\xffsense\r\n\r\n", false) else {
        panic!("a bad head");
    };
    assert_eq!(e.to_string(), "bad status line `non\u{fffd}sense`");
    let chunked = b"HTTP/1.1 200 OK\r\nTransfer-Encoding: chunked\r\n\r\n2\r\nok\r\n0\r\n\r\n";
    assert!(matches!(after(&chunked[..50], false), Exchange::More));
    let Exchange::Failed(e) = after(&chunked[..50], true) else {
        panic!("closed within a chunk");
    };
    assert_eq!(e.to_string(), "connection closed mid-chunk");
    let raw = b"HTTP/1.1 404 Not Found\r\nX-A:  1 \r\nContent-Length: 2\r\n\r\nok";
    let longer = [&raw[..], b"and more"].concat();
    let cases: [(&[u8], u16); 3] = [(chunked, 200), (raw, 404), (&longer, 404)];
    for (raw, status) in cases {
        let Exchange::Done(r) = after(raw, false) else {
            panic!("complete");
        };
        assert_eq!(r.status, status);
        assert_eq!(r.body, b"ok");
        assert_eq!(r.header("x-a").is_some(), status == 404);
    }
}

#[test]
fn subslices_are_found_first() {
    assert_eq!(find_subslice(b"abcabc", b"ca"), Some(2));
    assert_eq!(find_subslice(b"abc", b"zz"), None);
}

#[test]
fn body_text_replaces_what_is_no_utf8() {
    let r = HttpResponse {
        status: 200,
        headers: vec![("X-A".to_string(), "1".to_string())],
        body: vec![b'o', b'k', 0xff],
    };
    assert_eq!(r.body_string(), "ok\u{fffd}");
    assert_eq!(r.header("x-a"), Some("1"));
    assert_eq!(r.header("x-b"), None);
}

#[test]
fn epoch_round_trip() {
    let t = Timestamp::unix_epoch();
    assert_eq!(t.to_string(), "1970-01-01T00:00:00Z");
    assert_eq!(Timestamp::parse("1970-01-01T00:00:00Z").unwrap(), t);
}

#[test]
fn date_time_and_offset_forms() {
    assert_eq!(
        Timestamp::parse("2026-09-07").unwrap().to_string(),
        "2026-09-07T00:00:00Z"
    );
    let t = Timestamp::parse("2026-09-07T13:45:09").unwrap();
    assert_eq!(t.to_string(), "2026-09-07T13:45:09Z");
    assert_eq!(Timestamp::parse("2026-09-07 13:45:09Z").unwrap(), t);
    assert_eq!(Timestamp::parse("2026-09-07T13:45:09.250Z").unwrap(), t);
    let off = Timestamp::parse("2026-09-07T13:45:09+02:00").unwrap();
    assert_eq!(off.secs, t.secs - 7_200);
    let neg = Timestamp::parse("2026-09-07T13:45:09-0530").unwrap();
    assert_eq!(neg.secs, t.secs + 19_800);
}

#[test]
fn rejects_bad_dates() {
    assert!(Timestamp::parse("2023-02-29").is_err());
    assert!(Timestamp::parse("2026-13-01").is_err());
    assert!(Timestamp::parse("2026-04-31").is_err());
    assert!(Timestamp::parse("not-a-date").is_err());
    assert!(Timestamp::parse("2026-09-07T25:00:00Z").is_err());
    assert!(Timestamp::parse("2026-09-07T10:00:00+99:00").is_err());
}

#[test]
fn stamps_read_back_over_leap_days() {
    for secs in [
        -86_400i64,
        0,
        951_782_400,
        951_868_800,
        1_709_164_800,
        4_107_542_399,
        1_000_000,
    ] {
        let t = Timestamp::from_secs(secs);
        assert_eq!(Timestamp::parse(&t.to_string()).unwrap(), t);
    }
    assert_eq!(Timestamp::from_secs(1_000_000).to_string(), "1970-01-12T13:46:40Z");
    assert_eq!(Timestamp::from_secs(951_782_400).to_string(), "2000-02-29T00:00:00Z");
    assert!("2026-02-30".parse::<Timestamp>().is_err());
}

#[test]
fn the_clock_is_past_the_release() {
    assert!(Timestamp::now().secs > 1_600_000_000);
}

#[test]
fn white_space_is_that_of_characters() {
    for n in 0..=0x10ffffu32 {
        if let Some(c) = char::from_u32(n) {
            assert_eq!(is_white_space(c), c.is_whitespace());
        }
    }
    assert_eq!(trim(" \u{3000}a b\n"), "a b");
}

#[test]
fn numbers_read_as_digits() {
    assert_eq!(decimal_text(0), "0");
    assert_eq!(decimal_text(18_446_744_073_709_551_615), "18446744073709551615");
    assert_eq!(parse_number("+12", 10, 100), Some(12));
    assert_eq!(parse_number("fF", 16, 255), Some(255));
    assert_eq!(parse_number("256", 10, 255), None);
    assert_eq!(parse_number("", 10, 255), None);
    assert_eq!(parse_number("1a", 10, 255), None);
}

#[test]
fn filing_keeps_order_and_replaces() {
    let mut v: Vec<String> = Vec::new();
    for s in ["b", "a", "c", "a"] {
        insert_keyed(&mut v, s.to_string());
    }
    assert_eq!(v, vec!["a", "b", "c"]);
    let mut w: Vec<String> = Vec::new();
    for s in ["b", "a", "a"] {
        place(&mut w, s.to_string());
    }
    assert_eq!(w, vec!["a", "a", "b"]);
}

fn routed() -> Vec<&'static str> {
    vec![
        paths::ROOT,
        paths::HEALTHZ,
        paths::KEYRING,
        paths::GRAPH,
        paths::ANCHOR_BUNDLE,
        paths::TRUST_LISTS,
        paths::TRUST_LIST_ONE,
        paths::TRUST_LIST_ENTRIES,
        paths::MASTER_LIST,
        paths::MASTER_LIST_WITNESSES,
        paths::MASTER_LIST_ENTRIES,
        paths::REVOCATIONS,
        paths::OPERATOR,
        paths::EVIDENCE,
        paths::EVIDENCE_ONE,
        paths::ADMIN_LOG,
        paths::ADMIN_EVIDENCE,
        paths::NODES,
        paths::EDGES,
        paths::CONTRACT_YAML,
    ]
}

#[test]
fn routes_are_declared_by_constant_not_literal() {
    let routes = routed();
    for (i, a) in routes.iter().enumerate() {
        assert!(a.starts_with('/'));
        assert!(!routes[..i].contains(a));
    }
}

#[test]
fn days_have_dates_in_order() {
    assert_eq!(civil_from_days(0), (1970, 1, 1));
    assert_eq!(civil_from_days(-1), (1969, 12, 31));
    assert_eq!(civil_from_days(11_016), (2000, 2, 29));
    assert_eq!(civil_from_days(-719_468), (0, 3, 1));
    assert!((-800_000..800_000).all(|z| civil_from_days(z) < civil_from_days(z + 1)));
    for z in [i64::MIN / 86_400 - 1, i64::MAX / 86_400 - 1] {
        assert!(civil_from_days(z) < civil_from_days(z + 1));
    }
}

#[test]
fn the_forms_of_one_instant_agree() {
    let parse = |t: &str| Timestamp::parse(t).unwrap().secs;
    let d = "2026-09-07T10:20:30";
    let secs = parse(d);
    assert_eq!(parse("2026-09-07T10:20:30+05:30"), secs - 19_800);
    assert_eq!(parse("2026-09-07T10:20:30+0530"), secs - 19_800);
    assert_eq!(parse("2026-09-07T10:20:30-05:30"), secs + 19_800);
    assert_eq!(parse("2026-09-07T10:20:30-0530"), secs + 19_800);
    for same in [
        "2026-09-07T10:20:30Z",
        "2026-09-07T10:20:30z",
        "2026-09-07t10:20:30",
        "2026-09-07 10:20:30",
    ] {
        assert_eq!(parse(same), secs, "{same}");
    }
}

#[test]
fn canonical_texts_sort_as_instants() {
    let instants = [
        -62_167_219_200,
        -62_135_596_800,
        -1,
        0,
        59,
        60,
        86_399,
        86_400,
        951_782_399,
        951_782_400,
        253_402_300_799,
    ];
    for pair in instants.windows(2) {
        let (a, b) = (Timestamp::from_secs(pair[0]), Timestamp::from_secs(pair[1]));
        assert!(a.to_string() < b.to_string(), "{} {}", a.to_string(), b.to_string());
    }
    assert_eq!(Timestamp::from_secs(253_402_300_799).to_string(), "9999-12-31T23:59:59Z");
    assert_eq!(Timestamp::from_secs(-62_167_219_200).to_string(), "0000-01-01T00:00:00Z");
}

#[test]
fn hex_is_written_back_in_lower_case() {
    for (text, back) in [("  0xABcd ", "abcd"), ("0X00fF", "00ff"), ("12", "12"), ("0x", "")] {
        assert_eq!(hex_encode(&hex_decode(text).unwrap()), back);
    }
}

#[test]
fn query_encoding_goes_byte_by_byte() {
    let enc = Url::encode_query_component;
    assert_eq!(enc("a b"), enc("a") + &enc(" ") + &enc("b"));
    assert_eq!(enc("a b"), "a%20b");
    assert_eq!(enc("/\u{ff}"), "%2F%C3%BF");
    assert_eq!(enc("AZaz09-._~"), "AZaz09-._~");
}

#[test]
fn every_unfinished_run_of_chunks_is_refused() {
    let run = b"2\r\nok\r\nA;x=1\r\n0123456789\r\n0\r\n";
    for k in 0..run.len() {
        assert!(decode_chunked_body(&run[..k]).is_err(), "{k}");
    }
    assert_eq!(decode_chunked_body(run).unwrap(), b"ok0123456789");
    let more = [&run[..], b"\r\nand more"].concat();
    assert_eq!(decode_chunked_body(&more).unwrap(), b"ok0123456789");
}
