//! Hex codec for keys and signatures: lower-case output, either case and
//! an optional `0x` prefix on input.

use vstd::prelude::*;
use vstd::utf8::*;

use crate::text;
use crate::text::{decimal_text, join3, strip_prefix, trim};

verus! {

/// The lower-case hex digit of `n`.
pub open spec fn hex_digit(n: int) -> char {
    if n < 10 {
        (48 + n) as char
    } else {
        (87 + n) as char
    }
}

/// Two lower-case digits per byte, the high one first.
pub open spec fn hex_text(bytes: Seq<u8>) -> Seq<char> {
    Seq::new(
        2 * bytes.len(),
        |i: int|
            if i % 2 == 0 {
                hex_digit(bytes[i / 2] as int / 16)
            } else {
                hex_digit(bytes[i / 2] as int % 16)
            },
    )
}

/// The value of a byte read as a hex digit of either case.
pub open spec fn nibble(b: u8) -> Option<u8> {
    if 48 <= b <= 57 {
        Some((b - 48) as u8)
    } else if 97 <= b <= 102 {
        Some((b - 87) as u8)
    } else if 65 <= b <= 70 {
        Some((b - 55) as u8)
    } else {
        None
    }
}

/// The text that is decoded: trimmed, without a `0x` or `0X` prefix.
pub open spec fn hex_body(s: Seq<char>) -> Seq<char> {
    let t = text::trimmed(s);
    if text::has_prefix(t, "0x"@) || text::has_prefix(t, "0X"@) {
        t.skip(2)
    } else {
        t
    }
}

/// `i` is the position of the first byte that is no hex digit.
pub open spec fn first_bad(b: Seq<u8>, i: int) -> bool {
    &&& 0 <= i < b.len()
    &&& nibble(b[i]) is None
    &&& forall|j: int| 0 <= j < i ==> nibble(#[trigger] b[j]) is Some
}

/// Every byte is a hex digit.
pub open spec fn all_digits(b: Seq<u8>) -> bool {
    forall|j: int| 0 <= j < b.len() ==> nibble(#[trigger] b[j]) is Some
}

/// The bytes that pairs of digits denote.
pub open spec fn paired(b: Seq<u8>) -> Seq<u8> {
    Seq::new(
        b.len() / 2,
        |i: int| (16 * nibble(b[2 * i])->0 + nibble(b[2 * i + 1])->0) as u8,
    )
}

/// What decoding answers: the bytes, or the reason for the refusal.
pub open spec fn hex_value(s: Seq<char>) -> Result<Seq<u8>, Seq<char>> {
    let b = encode_utf8(hex_body(s));
    if b.len() % 2 != 0 {
        Err("hex string of odd length `"@ + text::decimal(b.len()) + "`"@)
    } else if all_digits(b) {
        Ok(paired(b))
    } else {
        let i = choose|i: int| first_bad(b, i);
        Err("not a hex digit `"@ + seq![b[i] as char] + "`"@)
    }
}

/// Hex-encode bytes (lower-case).
pub fn hex_encode(bytes: &[u8]) -> (r: String)
    ensures
        r@ == hex_text(bytes@),
{
    let mut out = String::new();
    for k in 0..bytes.len()
        invariant
            out@ == hex_text(bytes@.take(k as int)),
    {
        let ghost before = out@;
        out.push(digit_char(bytes[k] / 16));
        out.push(digit_char(bytes[k] % 16));
        proof {
            let s = bytes@.take(k + 1);
            assert(out@.len() == hex_text(s).len());
            assert forall|i: int| 0 <= i < out@.len() implies out@[i] == hex_text(s)[i] by {
                if i < 2 * k {
                    assert(out@[i] == before[i]);
                    assert(s[i / 2] == bytes@.take(k as int)[i / 2]);
                } else {
                    assert(i / 2 == k);
                }
            }
            assert(out@ =~= hex_text(s));
        }
    }
    assert(bytes@.take(bytes@.len() as int) =~= bytes@);
    out
}

fn digit_char(n: u8) -> (c: char)
    requires
        n < 16,
    ensures
        c == hex_digit(n as int),
{
    if n < 10 {
        (48 + n) as char
    } else {
        (87 + n) as char
    }
}

fn hex_nibble(b: u8) -> (r: Option<u8>)
    ensures
        r == nibble(b),
        r is Some ==> r->0 < 16,
{
    if 48 <= b && b <= 57 {
        Some(b - 48)
    } else if 97 <= b && b <= 102 {
        Some(b - 87)
    } else if 65 <= b && b <= 70 {
        Some(b - 55)
    } else {
        None
    }
}

fn bad_digit(b: u8) -> (r: String)
    ensures
        r@ == "not a hex digit `"@ + seq![b as char] + "`"@,
{
    let mut c = String::new();
    c.push(b as char);
    assert(c@ =~= seq![b as char]);
    join3("not a hex digit `", c.as_str(), "`")
}

proof fn lemma_first_bad_unique(b: Seq<u8>, i: int)
    requires
        first_bad(b, i),
    ensures
        !all_digits(b),
        (choose|k: int| first_bad(b, k)) == i,
{
    let k = choose|k: int| first_bad(b, k);
    if k < i {
        assert(nibble(b[k]) is Some);
    }
    if i < k {
        assert(nibble(b[i]) is Some);
    }
}

/// Decode hex bytes; accepts lower- or upper-case, ignores `0x`/`0X`
/// prefixes.
pub fn hex_decode(s: &str) -> (r: Result<Vec<u8>, String>)
    ensures
        match r {
            Ok(v) => hex_value(s@) == Ok::<Seq<u8>, Seq<char>>(v@),
            Err(e) => hex_value(s@) == Err::<Seq<u8>, Seq<char>>(e@),
        },
{
    let t = trim(s);
    proof {
        reveal_strlit("0x");
        reveal_strlit("0X");
    }
    let body = match strip_prefix(t.as_str(), "0x") {
        Some(rest) => rest,
        None => match strip_prefix(t.as_str(), "0X") {
            Some(rest) => rest,
            None => t,
        },
    };
    assert(body@ == hex_body(s@));
    let b = body.as_str().as_bytes();
    if b.len() % 2 != 0 {
        return Err(
            join3(
                "hex string of odd length `",
                decimal_text(b.len() as u64).as_str(),
                "`",
            ),
        );
    }
    let mut out: Vec<u8> = Vec::new();
    let mut i: usize = 0;
    while i < b.len()
        invariant
            b@ == encode_utf8(hex_body(s@)),
            b@.len() % 2 == 0,
            i % 2 == 0,
            i <= b@.len(),
            forall|j: int| 0 <= j < i ==> nibble(#[trigger] b@[j]) is Some,
            out@ == paired(b@.take(i as int)),
        decreases b@.len() - i,
    {
        match hex_nibble(b[i]) {
            None => {
                proof {
                    lemma_first_bad_unique(b@, i as int);
                }
                return Err(bad_digit(b[i]));
            },
            Some(hi) => match hex_nibble(b[i + 1]) {
                None => {
                    proof {
                        lemma_first_bad_unique(b@, i + 1);
                    }
                    return Err(bad_digit(b[i + 1]));
                },
                Some(lo) => {
                    let ghost before = out@;
                    out.push(hi * 16 + lo);
                    proof {
                        let p = b@.take(i + 2);
                        assert(out@.len() == paired(p).len());
                        assert forall|k: int| 0 <= k < out@.len() implies out@[k] == paired(
                            p,
                        )[k] by {
                            if k < before.len() {
                                assert(p[2 * k] == b@.take(i as int)[2 * k]);
                                assert(p[2 * k + 1] == b@.take(i as int)[2 * k + 1]);
                            } else {
                                assert(2 * k == i);
                            }
                        }
                        assert(out@ =~= paired(p));
                    }
                },
            },
        }
        i = i + 2;
    }
    assert(b@.take(b@.len() as int) =~= b@);
    Ok(out)
}

proof fn lemma_hex_text_chars(bytes: Seq<u8>)
    ensures
        forall|i: int|
            0 <= i < hex_text(bytes).len() ==> {
                let c = #[trigger] hex_text(bytes)[i];
                ('0' <= c <= '9' || 'a' <= c <= 'f') && !text::white_space(c)
            },
{
    let t = hex_text(bytes);
    assert forall|i: int| 0 <= i < t.len() implies {
        let c = #[trigger] t[i];
        ('0' <= c <= '9' || 'a' <= c <= 'f') && !text::white_space(c)
    } by {
        let b = bytes[i / 2] as int;
        assert(0 <= b / 16 < 16 && 0 <= b % 16 < 16);
    }
}

/// Decoding what encoding wrote gives the bytes back.
pub proof fn law_hex_round_trip(bytes: Seq<u8>)
    ensures
        hex_value(hex_text(bytes)) == Ok::<Seq<u8>, Seq<char>>(bytes),
{
    let t = hex_text(bytes);
    lemma_hex_text_chars(bytes);
    reveal_strlit("0x");
    reveal_strlit("0X");
    assert(text::trimmed(t) == t);
    assert(hex_body(t) == t) by {
        if text::has_prefix(t, "0x"@) {
            assert(t.take(2)[1] == 'x');
            assert(t[1] == 'x');
        }
        if text::has_prefix(t, "0X"@) {
            assert(t.take(2)[1] == 'X');
            assert(t[1] == 'X');
        }
    }
    let b = encode_utf8(t);
    assert(is_ascii_chars(t));
    is_ascii_chars_encode_utf8(t);
    assert(b.len() == t.len());
    assert forall|i: int| 0 <= i < b.len() implies nibble(#[trigger] b[i]) == Some(
        (if i % 2 == 0 {
            bytes[i / 2] / 16
        } else {
            bytes[i / 2] % 16
        }) as u8,
    ) by {
        assert(b[i] == t[i] as u8);
        let x = bytes[i / 2] as int;
        assert(0 <= x / 16 < 16 && 0 <= x % 16 < 16);
    }
    assert(paired(b) =~= bytes) by {
        assert forall|k: int| 0 <= k < bytes.len() implies #[trigger] paired(b)[k] == bytes[k] by {
            assert((2 * k) / 2 == k && (2 * k + 1) / 2 == k);
            assert(nibble(b[2 * k]) == Some((bytes[k] / 16) as u8));
            assert(nibble(b[2 * k + 1]) == Some((bytes[k] % 16) as u8));
        }
    }
}

/// Encoding what decoding read gives the text back, trimmed, without its
/// prefix and in lower case: two digits per byte.
pub proof fn law_hex_text_round_trip(s: Seq<char>)
    requires
        hex_value(s) is Ok,
    ensures
        hex_text(hex_value(s)->Ok_0) == text::lower(hex_body(s)),
        hex_body(s).len() == 2 * (hex_value(s)->Ok_0).len(),
        forall|i: int|
            0 <= i < hex_body(s).len() ==> {
                let c = #[trigger] text::lower(hex_body(s))[i];
                '0' <= c <= '9' || 'a' <= c <= 'f'
            },
{
    let t = hex_body(s);
    let b = encode_utf8(t);
    let v = hex_value(s)->Ok_0;
    assert(all_digits(b));
    text::lemma_ascii_bytes(t);
    assert(v == paired(b));
    lemma_hex_text_chars(v);
    assert(hex_text(v) =~= text::lower(t)) by {
        assert forall|i: int| 0 <= i < t.len() implies #[trigger] hex_text(v)[i] == text::lower(
            t,
        )[i] by {
            assert(t[i] as u8 == b[i]);
            assert(nibble(b[i]) is Some);
            let k = i / 2;
            assert(nibble(b[2 * k]) is Some && nibble(b[2 * k + 1]) is Some);
            let hi = nibble(b[2 * k])->0 as int;
            let lo = nibble(b[2 * k + 1])->0 as int;
            assert(v[k] == 16 * hi + lo);
            assert(v[k] as int / 16 == hi && v[k] as int % 16 == lo);
        }
    }
}

/// Hex is read exactly when, white space and a leading `0x` aside, it is an
/// even number of hex digits; each pair of digits is one byte, the first
/// digit its high half.
pub proof fn law_hex_is_read(s: Seq<char>)
    ensures
        hex_value(s) is Ok <==> encode_utf8(hex_body(s)).len() % 2 == 0 && forall|i: int|
            0 <= i < encode_utf8(hex_body(s)).len() ==> {
                let b = #[trigger] encode_utf8(hex_body(s))[i];
                '0' as int <= b <= '9' as int || 'a' as int <= b <= 'f' as int || 'A' as int <= b
                    <= 'F' as int
            },
        text::trimmed(s).len() >= 2 && text::trimmed(s)[0] == '0' && (text::trimmed(s)[1] == 'x'
            || text::trimmed(s)[1] == 'X') ==> hex_body(s) == text::trimmed(s).skip(2),
        !(text::trimmed(s).len() >= 2 && text::trimmed(s)[0] == '0' && (text::trimmed(s)[1] == 'x'
            || text::trimmed(s)[1] == 'X')) ==> hex_body(s) == text::trimmed(s),
        hex_value(s) matches Ok(v) ==> 2 * v.len() == encode_utf8(hex_body(s)).len(),
{
    reveal_strlit("0x");
    reveal_strlit("0X");
    assert("0x"@.len() == 2 && "0x"@[0] == '0' && "0x"@[1] == 'x');
    assert("0X"@.len() == 2 && "0X"@[0] == '0' && "0X"@[1] == 'X');
    let t = text::trimmed(s);
    if t.len() >= 2 {
        if t[0] == '0' && t[1] == 'x' {
            assert(t.take(2) =~= "0x"@);
        }
        if t[0] == '0' && t[1] == 'X' {
            assert(t.take(2) =~= "0X"@);
        }
        if t.take(2) == "0x"@ || t.take(2) == "0X"@ {
            assert(t.take(2)[0] == t[0] && t.take(2)[1] == t[1]);
        }
    }
    let b = encode_utf8(hex_body(s));
    if b.len() % 2 == 0 && (forall|i: int|
        0 <= i < b.len() ==> {
            let c = #[trigger] b[i];
            '0' as int <= c <= '9' as int || 'a' as int <= c <= 'f' as int || 'A' as int <= c
                <= 'F' as int
        }) {
        assert(all_digits(b));
    }
    if hex_value(s) is Ok {
        assert forall|i: int| 0 <= i < b.len() implies ({
            let c = #[trigger] b[i];
            '0' as int <= c <= '9' as int || 'a' as int <= c <= 'f' as int || 'A' as int <= c
                <= 'F' as int
        }) by {
            assert(nibble(b[i]) is Some);
        }
    }
}

} // verus!
