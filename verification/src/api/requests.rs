//! What the parameters and headers of a request say, and what the headers of
//! a reply and the variables of a deployment stand for.

use vstd::prelude::*;
use vstd::utf8::*;

use crate::api;
use crate::api::{BodySignatures, CachePolicy};
use crate::hex;
use crate::json::JsonView;
use crate::store::StoreErrorView;
use crate::text;
use crate::time;
use crate::time::Timestamp;

verus! {

// ---------------------------------------------------------------------------
// Parameters
// ---------------------------------------------------------------------------

/// A parameter says what is left of it between white space at its ends; one
/// that is missing, or of which nothing is left, says nothing.
pub proof fn law_parameters_are_trimmed(
    p: Map<Seq<char>, Seq<char>>,
    name: Seq<char>,
    left: Seq<char>,
    t: Seq<char>,
    right: Seq<char>,
)
    requires
        forall|i: int| 0 <= i < left.len() ==> text::white_space(#[trigger] left[i]),
        forall|i: int| 0 <= i < right.len() ==> text::white_space(#[trigger] right[i]),
        t.len() > 0 ==> !text::white_space(t[0]) && !text::white_space(t.last()),
    ensures
        p.dom().contains(name) && p[name] == left + t + right ==> api::query(p, name) == (if t.len()
            == 0 {
            None
        } else {
            Some(t)
        }),
        !p.dom().contains(name) ==> api::query(p, name) is None,
        api::query(p, name) matches Some(v) ==> v.len() > 0 && p.dom().contains(name),
{
    text::law_trimmed_core(left, t, right);
}

/// Of two parameters of one name the later one counts, and parameters of
/// other names stay.
pub proof fn law_later_parameter_counts(
    s: Seq<(String, String)>,
    name: String,
    value: String,
    other: Seq<char>,
)
    ensures
        api::param(api::pairs_view(s.push((name, value))), name@) == Some(value@),
        other != name@ ==> api::param(api::pairs_view(s.push((name, value))), other) == api::param(
            api::pairs_view(s),
            other,
        ),
        api::param(api::pairs_view(Seq::<(String, String)>::empty()), other) is None,
{
    assert(s.push((name, value)).drop_last() =~= s);
}

/// The instant asked about is the one that `at` states; `asof` states it
/// where there is no `at`. Without either, or with an empty text, none is
/// asked about, and a text that states none is refused.
pub proof fn law_instant_asked(p: Map<Seq<char>, Seq<char>>)
    ensures
        ({
            let raw = if p.dom().contains("at"@) {
                Some(p["at"@])
            } else if p.dom().contains("asof"@) {
                Some(p["asof"@])
            } else {
                None
            };
            match api::asked_instant(p) {
                Ok(None) => raw is None || (raw->0).len() == 0,
                Ok(Some(t)) => raw is Some && (raw->0).len() > 0 && time::parsed(raw->0) == Some(
                    t.secs as int,
                ),
                Err(_) => raw is Some && (raw->0).len() > 0 && time::parsed(raw->0) is None,
            }
        }),
{
    if p.dom().contains("at"@) {
        time::law_stated_instants_are_counted(p["at"@]);
    } else if p.dom().contains("asof"@) {
        time::law_stated_instants_are_counted(p["asof"@]);
    }
}

/// A reading speaks of the instant asked about, else of now; only a reading
/// at a stated instant may be kept for good.
pub proof fn law_reading_instant(at: Option<Timestamp>, now: Timestamp)
    ensures
        at is None ==> api::reading_instant(at, now) == now,
        at matches Some(t) ==> api::reading_instant(at, now) == t,
        api::policy_for(at).spec_header_value() == if at is Some {
            "public, max-age=86400, immutable"@
        } else {
            "public, max-age=30, must-revalidate"@
        },
        CachePolicy::NoStore.spec_header_value() == "no-store"@,
        api::policy_for(at) == CachePolicy::PointInTime <==> at is Some,
        api::policy_for(at) == CachePolicy::Current <==> at is None,
{
}

/// A window that is asked about is stated around `..`, or else around a
/// comma, white space aside; its end may be left out, and a text that is no
/// such window, or whose instants are none, is refused.
pub proof fn law_window_asked(p: Map<Seq<char>, Seq<char>>, raw: Seq<char>, a: Seq<char>, b: Seq<char>)
    requires
        api::query(p, "window"@) == Some(raw),
        text::split_at_first(raw, ".."@) == Some((a, b)) || (text::split_at_first(raw, ".."@) is None
            && text::split_at_first(raw, ","@) == Some((a, b))),
    ensures
        api::asked_window(p) is Ok <==> time::parsed(text::trimmed(a)) is Some && (text::trimmed(
            b,
        ).len() == 0 || time::parsed(text::trimmed(b)) is Some),
        api::asked_window(p) matches Ok(w) ==> (w matches Some((start, end)) && time::parsed(
            text::trimmed(a),
        ) == Some(start.secs as int) && match end {
            None => text::trimmed(b).len() == 0,
            Some(e) => text::trimmed(b).len() > 0 && time::parsed(text::trimmed(b)) == Some(
                e.secs as int,
            ),
        }),
{
    time::law_stated_instants_are_counted(text::trimmed(a));
    time::law_stated_instants_are_counted(text::trimmed(b));
}

/// Without the parameter no window is asked about; a text with neither `..`
/// nor a comma is refused.
pub proof fn law_no_window_asked(p: Map<Seq<char>, Seq<char>>)
    ensures
        api::query(p, "window"@) is None ==> api::asked_window(p) == Ok::<
            Option<(Timestamp, Option<Timestamp>)>,
            Seq<char>,
        >(None),
        api::query(p, "window"@) matches Some(raw) ==> text::split_at_first(raw, ".."@) is None
            && text::split_at_first(raw, ","@) is None ==> api::asked_window(p) is Err,
{
}

/// A required member is a text that is not blank, and is taken as it stands;
/// an optional one is trimmed, and a blank one counts as missing.
pub proof fn law_members_of_a_body(d: JsonView, name: Seq<char>)
    ensures
        api::required_text(d, name) is Ok <==> (d.get(name) matches Some(JsonView::Str(s))
            && text::trimmed(s).len() > 0),
        api::required_text(d, name) matches Ok(t) ==> d.get(name) == Some(JsonView::Str(t)),
        api::optional_text(d, name) is Some <==> api::required_text(d, name) is Ok,
        api::optional_text(d, name) matches Some(t) ==> (d.get(name) matches Some(JsonView::Str(s))
            && t == text::trimmed(s)),
{
}

/// A token is 1 to 256 bytes long and holds neither `/` nor white space: it
/// stays one when such characters are looked for anywhere in it.
pub proof fn law_tokens(s: Seq<char>, i: int)
    ensures
        api::is_token(s) ==> 1 <= encode_utf8(s).len() <= 256 && s.len() > 0,
        api::is_token(s) && 0 <= i < s.len() ==> s[i] != '/' && s[i] != ' ' && s[i] != '\t' && s[i]
            != '\n' && !text::white_space(s[i]),
        s.len() > 0 && encode_utf8(s).len() <= 256 && (forall|k: int|
            0 <= k < s.len() ==> #[trigger] s[k] != '/' && !text::white_space(s[k]))
            ==> api::is_token(s),
{
    if s.len() > 0 {
        let one = seq![s[0]];
        assert(s =~= one + s.skip(1));
        text::lemma_bytes_concat(one, s.skip(1));
        text::lemma_some_bytes(one);
    }
}

// ---------------------------------------------------------------------------
// Tokens
// ---------------------------------------------------------------------------

/// Where no token is configured every request is admitted. Where one is, a
/// request is admitted exactly when its header is the word `Bearer`, one
/// space and that token; a request admitted under one token is not admitted
/// under another.
pub proof fn law_bearer_token(t: Seq<char>, u: Seq<char>, header: Option<Seq<char>>)
    ensures
        api::authorised(None, header),
        !api::authorised(Some(t), None),
        header matches Some(h) ==> (api::authorised(Some(t), header) <==> h.len() == t.len() + 7
            && h[0] == 'B' && h[1] == 'e' && h[2] == 'a' && h[3] == 'r' && h[4] == 'e' && h[5] == 'r'
            && h[6] == ' ' && forall|i: int| 0 <= i < t.len() ==> h[i + 7] == #[trigger] t[i]),
        api::authorised(Some(t), header) && api::authorised(Some(u), header) ==> t == u,
{
    reveal_strlit("Bearer ");
    let word = "Bearer "@;
    assert(word.len() == 7);
    if let Some(h) = header {
        if api::authorised(Some(t), header) {
            assert forall|i: int| 0 <= i < t.len() implies h[i + 7] == #[trigger] t[i] by {}
        }
        if h.len() == t.len() + 7 && h[0] == 'B' && h[1] == 'e' && h[2] == 'a' && h[3] == 'r' && h[4]
            == 'e' && h[5] == 'r' && h[6] == ' ' && (forall|i: int|
            0 <= i < t.len() ==> h[i + 7] == #[trigger] t[i]) {
            assert(h =~= word + t) by {
                assert forall|i: int| 0 <= i < h.len() implies h[i] == (word + t)[i] by {
                    if i >= 7 {
                        assert(t[i - 7] == h[i - 7 + 7]);
                    }
                }
            }
        }
        if api::authorised(Some(t), header) && api::authorised(Some(u), header) {
            assert(t =~= h.skip(7));
            assert(u =~= h.skip(7));
        }
    }
}

// ---------------------------------------------------------------------------
// Replies
// ---------------------------------------------------------------------------

/// An error is answered with its message and the instant, under its status,
/// and is never kept.
pub proof fn law_errors_are_stated(status: u16, message: Seq<char>, now: Timestamp, e: StoreErrorView)
    ensures
        ({
            let r = api::error_of(status, message, now);
            &&& r.status == status
            &&& r.doc.get("error"@) == Some(JsonView::Str(message))
            &&& r.doc.get("as_of"@) == Some(JsonView::Str(time::stamp(now.secs as int)))
            &&& r.as_of == now
            &&& r.cache == CachePolicy::NoStore
        }),
        ({
            let r = api::failure_of(e, now);
            match e {
                StoreErrorView::Conflict(m) => r.status == 409 && r.doc.get("error"@) == Some(
                    JsonView::Str(m),
                ),
                StoreErrorView::Invalid(m) => r.status == 400 && r.doc.get("error"@) == Some(
                    JsonView::Str(m),
                ),
                StoreErrorView::NotFound(m) => r.status == 404 && r.doc.get("error"@) == Some(
                    JsonView::Str(m),
                ),
            }
        }),
        api::denial(now).status == 401,
{
    reveal_strlit("error");
    reveal_strlit("as_of");
    assert("error"@.len() == 5 && "error"@[0] == 'e');
    assert("as_of"@.len() == 5 && "as_of"@[0] == 'a');
}

/// The value of a header in a list of headers, where its name stands once.
pub open spec fn carried(
    h: Seq<(Seq<char>, Seq<char>)>,
    name: Seq<char>,
    value: Seq<char>,
) -> bool {
    &&& exists|i: int| 0 <= i < h.len() && #[trigger] h[i] == (name, value)
    &&& forall|i: int, j: int|
        0 <= i < h.len() && 0 <= j < h.len() && (#[trigger] h[i]).0 == name && (
        #[trigger] h[j]).0 == name ==> i == j
}

/// A signed reply carries its type, its instant, both signatures in hex
/// beside their key ids, a tag of the first sixteen bytes of the Ed25519
/// signature, and the cache policy, each once and nothing else.
#[verifier::spinoff_prover]
pub proof fn law_signed_reply_headers(as_of: Timestamp, cache: CachePolicy, s: BodySignatures)
    requires
        s.ed25519@.len() >= 16,
    ensures
        ({
            let h = api::reply_headers(as_of, cache, s);
            &&& h.len() == 9
            &&& carried(h, "content-type"@, "application/json"@)
            &&& carried(h, "x-as-of"@, time::stamp(as_of.secs as int))
            &&& carried(h, "x-sig-domain"@, "tree-head"@)
            &&& carried(h, "x-sig-ed25519"@, hex::hex_text(s.ed25519@))
            &&& carried(h, "x-sig-key-id-ed25519"@, s.ed25519_key_id@)
            &&& carried(h, "x-sig-ecdsa-p256"@, hex::hex_text(s.p256@))
            &&& carried(h, "x-sig-key-id-ecdsa-p256"@, s.p256_key_id@)
            &&& carried(
                h,
                "etag"@,
                "\"sig-"@ + hex::hex_text(s.ed25519@.take(16)) + "\""@,
            )
            &&& carried(h, "cache-control"@, cache.spec_header_value())
        }),
{
    let h = api::reply_headers(as_of, cache, s);
    reveal_strlit("content-type");
    reveal_strlit("x-as-of");
    reveal_strlit("x-sig-domain");
    reveal_strlit("x-sig-ed25519");
    reveal_strlit("x-sig-key-id-ed25519");
    reveal_strlit("x-sig-ecdsa-p256");
    reveal_strlit("x-sig-key-id-ecdsa-p256");
    reveal_strlit("etag");
    reveal_strlit("cache-control");
    assert("content-type"@.len() == 12 && "content-type"@[0] == 'c');
    assert("x-sig-domain"@.len() == 12 && "x-sig-domain"@[0] == 'x');
    assert("x-as-of"@.len() == 7);
    assert("x-sig-ed25519"@.len() == 13 && "x-sig-ed25519"@[0] == 'x');
    assert("cache-control"@.len() == 13 && "cache-control"@[0] == 'c');
    assert("x-sig-key-id-ed25519"@.len() == 20);
    assert("x-sig-ecdsa-p256"@.len() == 16);
    assert("x-sig-key-id-ecdsa-p256"@.len() == 23);
    assert("etag"@.len() == 4);
    assert(hex::hex_text(s.ed25519@).take(32) =~= hex::hex_text(s.ed25519@.take(16)));
    assert(h[0].0 == "content-type"@ && h[1].0 == "x-as-of"@ && h[2].0 == "x-sig-domain"@);
    assert(h[3].0 == "x-sig-ed25519"@ && h[4].0 == "x-sig-key-id-ed25519"@ && h[5].0
        == "x-sig-ecdsa-p256"@);
    assert(h[6].0 == "x-sig-key-id-ecdsa-p256"@ && h[7].0 == "etag"@ && h[8].0
        == "cache-control"@);
}

// ---------------------------------------------------------------------------
// Deployment
// ---------------------------------------------------------------------------

/// A variable sets its own part of the configuration and no other. A token,
/// a journal file and a seed are taken where they are not empty, an address
/// where it is one, and the fixtures are seeded unless that is switched off
/// with `1` or `true` in any case.
pub proof fn law_configuration(vars: Map<Seq<char>, Seq<char>>, parses: bool, v: Seq<char>)
    ensures
        ({
            let c = api::config_of(vars, parses);
            &&& c.bind == (if parses && vars.dom().contains("UNIDPP_TRUST_BIND"@) {
                vars["UNIDPP_TRUST_BIND"@]
            } else {
                "127.0.0.1:8092"@
            })
            &&& vars.dom().contains("UNIDPP_TRUST_ADMIN_TOKEN"@)
                && vars["UNIDPP_TRUST_ADMIN_TOKEN"@].len() > 0 <==> c.admin_token is Some
            &&& c.admin_token matches Some(t) ==> t == vars["UNIDPP_TRUST_ADMIN_TOKEN"@]
            &&& vars.dom().contains("UNIDPP_TRUST_STATE_FILE"@)
                && vars["UNIDPP_TRUST_STATE_FILE"@].len() > 0 <==> c.state_file is Some
            &&& c.state_file matches Some(t) ==> t == vars["UNIDPP_TRUST_STATE_FILE"@]
            &&& vars.dom().contains("UNIDPP_TRUST_DEV_SEED"@)
                && vars["UNIDPP_TRUST_DEV_SEED"@].len() > 0 <==> c.dev_seed is Some
            &&& c.dev_seed matches Some(t) ==> t == vars["UNIDPP_TRUST_DEV_SEED"@]
            &&& !c.seed_fixtures <==> vars.dom().contains("UNIDPP_TRUST_NO_SEED_FIXTURES"@) && (
            vars["UNIDPP_TRUST_NO_SEED_FIXTURES"@] == "1"@ || text::lower(
                vars["UNIDPP_TRUST_NO_SEED_FIXTURES"@],
            ) == "true"@)
        }),
{
    reveal_strlit("true");
    assert(text::lower("true"@) =~= "true"@);
}

} // verus!
