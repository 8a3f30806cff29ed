//! The HTTP surface without its sockets: configuration, request parameters,
//! replies and the headers of a signed response. Reads are in
//! [`reads`], mutations in [`writes`]; the router and the signing keyring
//! stand outside.
//!
//! Every reply is stamped with the instant it speaks of. Mutations and the
//! audit log require a bearer token where one is configured.

pub mod announcements;
pub mod answers;
pub mod mutations;
pub mod paths;
pub mod discovery;
pub mod evidence;
pub mod reads;
pub mod rebuild;
pub mod references;
pub mod releases;
pub mod requests;
pub mod writes;

use vstd::prelude::*;
use vstd::utf8::*;

use crate::codec;
use crate::data;
use crate::hex;
use crate::hex::hex_encode;
use crate::json::{Json, JsonView};
use crate::store::{StoreError, StoreErrorView};
use crate::text;
use crate::text::{eq_fold, has_char, has_white_space, is_blank, join2, join3, same_text, split_once, strip_prefix, trim};
use crate::time;
use crate::time::Timestamp;

verus! {

broadcast use {data::lemma_deep_push, data::lemma_deep_bytes, data::lemma_deep_len};

// ---------------------------------------------------------------------------
// Caching
// ---------------------------------------------------------------------------

/// Cache strategy for a response.
#[derive(Debug, Clone, Copy, PartialEq, Eq, Structural)]
pub enum CachePolicy {
    /// Current-state response (default): short cache with revalidation.
    Current,
    /// Point-in-time response (`?at=...`): the body is fixed for a given
    /// input.
    PointInTime,
    /// Mutation response: never store.
    NoStore,
}

impl CachePolicy {
    /// The `cache-control` header value of a policy.
    pub open spec fn spec_header_value(self) -> Seq<char> {
        match self {
            CachePolicy::Current => "public, max-age=30, must-revalidate"@,
            CachePolicy::PointInTime => "public, max-age=86400, immutable"@,
            CachePolicy::NoStore => "no-store"@,
        }
    }

    /// The `cache-control` header value for this policy.
    pub fn header_value(self) -> (r: &'static str)
        ensures
            r@ == self.spec_header_value(),
    {
        match self {
            CachePolicy::Current => "public, max-age=30, must-revalidate",
            CachePolicy::PointInTime => "public, max-age=86400, immutable",
            CachePolicy::NoStore => "no-store",
        }
    }
}

/// A reading at a stated instant is fixed; any other is current state.
pub open spec fn policy_for(at: Option<Timestamp>) -> CachePolicy {
    match at {
        Some(_) => CachePolicy::PointInTime,
        None => CachePolicy::Current,
    }
}

/// The cache policy of a reading at `at`.
pub fn cache_for(at: Option<Timestamp>) -> (r: CachePolicy)
    ensures
        r == policy_for(at),
{
    match at {
        Some(_) => CachePolicy::PointInTime,
        None => CachePolicy::Current,
    }
}

// ---------------------------------------------------------------------------
// Parameters
// ---------------------------------------------------------------------------

/// Named texts: query parameters or environment variables. Of two of one
/// name the later counts.
#[derive(Debug)]
pub struct Params {
    pub pairs: Vec<(String, String)>,
}

pub open spec fn pairs_view(s: Seq<(String, String)>) -> Map<Seq<char>, Seq<char>>
    decreases s.len(),
{
    if s.len() == 0 {
        Map::empty()
    } else {
        pairs_view(s.drop_last()).insert(s.last().0@, s.last().1@)
    }
}

impl View for Params {
    type V = Map<Seq<char>, Seq<char>>;

    open spec fn view(&self) -> Map<Seq<char>, Seq<char>> {
        pairs_view(self.pairs@)
    }
}

/// The text of that name, if there is one.
pub open spec fn param(p: Map<Seq<char>, Seq<char>>, name: Seq<char>) -> Option<Seq<char>> {
    if p.dom().contains(name) {
        Some(p[name])
    } else {
        None
    }
}

impl Params {
    /// No parameters.
    pub fn new() -> (r: Params)
        ensures
            r@ == Map::<Seq<char>, Seq<char>>::empty(),
    {
        Params { pairs: Vec::new() }
    }

    /// Set one parameter.
    pub fn with(self, name: &str, value: &str) -> (r: Params)
        ensures
            r@ == self@.insert(name@, value@),
    {
        let mut pairs = self.pairs;
        let ghost before = pairs@;
        pairs.push((name.to_owned(), value.to_owned()));
        assert(pairs@.drop_last() =~= before);
        Params { pairs }
    }

    /// The parameter of that name.
    pub fn get(&self, name: &str) -> (r: Option<&str>)
        ensures
            match r {
                Some(v) => param(self@, name@) == Some(v@),
                None => param(self@, name@) is None,
            },
    {
        let v: &Vec<(String, String)> = &self.pairs;
        let mut k: usize = v.len();
        assert(v@.take(k as int) =~= v@);
        while k > 0
            invariant
                *v == self.pairs,
                k <= v@.len(),
                param(self@, name@) == param(pairs_view(v@.take(k as int)), name@),
            decreases k,
        {
            assert(v@.take(k as int).drop_last() =~= v@.take(k - 1));
            if same_text(v[k - 1].0.as_str(), name) {
                return Some(v[k - 1].1.as_str());
            }
            k = k - 1;
        }
        None
    }
}

/// A trimmed query parameter, none where nothing is left of it.
pub open spec fn query(p: Map<Seq<char>, Seq<char>>, name: Seq<char>) -> Option<Seq<char>> {
    match param(p, name) {
        Some(v) => if text::trimmed(v).len() == 0 {
            None
        } else {
            Some(text::trimmed(v))
        },
        None => None,
    }
}

/// A trimmed query parameter, none where nothing is left of it.
pub fn opt_query(params: &Params, key: &str) -> (r: Option<String>)
    ensures
        r.deep_view() == query(params@, key@),
{
    match params.get(key) {
        Some(v) => {
            let t = trim(v);
            if t.as_str().is_empty() {
                None
            } else {
                Some(t)
            }
        },
        None => None,
    }
}

/// The instant that a request asks about: `at`, or its alias `asof`.
pub open spec fn asked_instant(p: Map<Seq<char>, Seq<char>>) -> Result<
    Option<Timestamp>,
    Seq<char>,
> {
    let raw = match param(p, "at"@) {
        Some(v) => Some(v),
        None => param(p, "asof"@),
    };
    match raw {
        None => Ok(None),
        Some(s) => if s.len() == 0 {
            Ok(None)
        } else {
            match time::parsed(s) {
                Some(n) => Ok(Some(Timestamp { secs: n as i64 })),
                None => Err("invalid `at` parameter: "@ + time::refusal(s)),
            }
        },
    }
}

/// The instant that a request asks about.
pub fn parse_at(params: &Params) -> (r: Result<Option<Timestamp>, String>)
    ensures
        data::shows(r, asked_instant(params@)),
{
    let raw = match params.get("at") {
        Some(v) => Some(v),
        None => params.get("asof"),
    };
    match raw {
        None => Ok(None),
        Some(s) => if s.is_empty() {
            Ok(None)
        } else {
            match Timestamp::parse(s) {
                Ok(t) => Ok(Some(t)),
                Err(e) => Err(join2("invalid `at` parameter: ", e.to_string().as_str())),
            }
        },
    }
}

/// The instant to read at: the one asked about, else now.
pub open spec fn reading_instant(at: Option<Timestamp>, now: Timestamp) -> Timestamp {
    match at {
        Some(t) => t,
        None => now,
    }
}

/// The distrust window that a request asks about.
pub open spec fn asked_window(p: Map<Seq<char>, Seq<char>>) -> Result<
    Option<(Timestamp, Option<Timestamp>)>,
    Seq<char>,
> {
    match query(p, "window"@) {
        None => Ok(None),
        Some(raw) => match window_parts(raw) {
            None => Err("`window` must be `START..END` or `START,END`: `"@ + raw + "`"@),
            Some((a, b)) => match time::parsed(a) {
                None => Err("window start: "@ + time::refusal(a)),
                Some(start) => if b.len() == 0 {
                    Ok(Some((Timestamp { secs: start as i64 }, None)))
                } else {
                    match time::parsed(b) {
                        None => Err("window end: "@ + time::refusal(b)),
                        Some(end) => Ok(
                            Some(
                                (
                                    Timestamp { secs: start as i64 },
                                    Some(Timestamp { secs: end as i64 }),
                                ),
                            ),
                        ),
                    }
                },
            },
        },
    }
}

/// The two texts of a window, around `..` or else around a comma.
pub open spec fn window_parts(raw: Seq<char>) -> Option<(Seq<char>, Seq<char>)> {
    match text::split_at_first(raw, ".."@) {
        Some((a, b)) => Some((text::trimmed(a), text::trimmed(b))),
        None => match text::split_at_first(raw, ","@) {
            Some((a, b)) => Some((text::trimmed(a), text::trimmed(b))),
            None => None,
        },
    }
}

/// A window outcome as a value and as what it shows.
pub open spec fn window_shows(
    r: Result<Option<(Timestamp, Option<Timestamp>)>, String>,
    s: Result<Option<(Timestamp, Option<Timestamp>)>, Seq<char>>,
) -> bool {
    match (r, s) {
        (Ok(a), Ok(b)) => a == b,
        (Err(e), Err(f)) => e@ == f,
        _ => false,
    }
}

/// The distrust window that a request asks about: `START..END`, or
/// `START,END`; the end may be left out.
pub fn parse_window_filter(params: &Params) -> (r: Result<
    Option<(Timestamp, Option<Timestamp>)>,
    String,
>)
    ensures
        window_shows(r, asked_window(params@)),
{
    let raw = match opt_query(params, "window") {
        Some(s) => s,
        None => return Ok(None),
    };
    let (start, end) = match split_once(raw.as_str(), "..") {
        Some((a, b)) => (trim(a.as_str()), trim(b.as_str())),
        None => match split_once(raw.as_str(), ",") {
            Some((a, b)) => (trim(a.as_str()), trim(b.as_str())),
            None => return Err(
                join3("`window` must be `START..END` or `START,END`: `", raw.as_str(), "`"),
            ),
        },
    };
    let start_ts = match Timestamp::parse(start.as_str()) {
        Ok(t) => t,
        Err(e) => return Err(join2("window start: ", e.to_string().as_str())),
    };
    if end.as_str().is_empty() {
        return Ok(Some((start_ts, None)));
    }
    match Timestamp::parse(end.as_str()) {
        Ok(t) => Ok(Some((start_ts, Some(t)))),
        Err(e) => Err(join2("window end: ", e.to_string().as_str())),
    }
}

/// The canonical texts of a start and an end, around `..` or a comma, ask for
/// the window from the one to the other; with the end left out it is open.
pub proof fn law_window_forms(
    p: Map<Seq<char>, Seq<char>>,
    start: Timestamp,
    end: Option<Timestamp>,
    sep: Seq<char>,
)
    requires
        time::four_digit_year(start.secs as int),
        end matches Some(t) ==> time::four_digit_year(t.secs as int),
        sep == ".."@ || sep == ","@,
        param(p, "window"@) == Some(
            time::stamp(start.secs as int) + sep + (match end {
                Some(t) => time::stamp(t.secs as int),
                None => Seq::empty(),
            }),
        ),
    ensures
        asked_window(p) == Ok::<Option<(Timestamp, Option<Timestamp>)>, Seq<char>>(
            Some((start, end)),
        ),
{
    reveal_strlit("..");
    reveal_strlit(",");
    let a = time::stamp(start.secs as int);
    let b = match end {
        Some(t) => time::stamp(t.secs as int),
        None => Seq::empty(),
    };
    let raw = a + sep + b;
    time::lemma_stamp_chars(start.secs as int);
    time::law_stamp_round_trip(start.secs as int);
    lemma_untrimmed(a);
    if let Some(t) = end {
        time::lemma_stamp_chars(t.secs as int);
        time::law_stamp_round_trip(t.secs as int);
        lemma_untrimmed(b);
        assert(raw.last() == b.last());
    } else {
        assert(raw.last() == sep.last());
        assert(text::trimmed(b) =~= b);
    }
    assert(raw[0] == a[0]);
    lemma_untrimmed(raw);
    assert forall|i: int| 0 <= i < 20 implies #[trigger] raw[i] != sep[0] by {
        assert(raw[i] == a[i]);
    }
    assert(raw.subrange(20, 20 + sep.len() as int) =~= sep);
    text::lemma_first_at(raw, sep, 20, 0);
    assert(raw.take(20) =~= a);
    assert(raw.skip((20 + sep.len()) as int) =~= b);
    if sep == ","@ {
        assert forall|i: int| 0 <= i < raw.len() implies #[trigger] raw[i] != '.' by {
            if i < 20 {
                assert(raw[i] == a[i]);
            } else if i == 20 {
                assert(raw[i] == sep[0]);
            } else {
                assert(raw[i] == b[i - 21]);
            }
        }
        text::lemma_first_nowhere(raw, ".."@, 0);
    }
}

/// A text with no white space at its ends is trimmed.
proof fn lemma_untrimmed(s: Seq<char>)
    requires
        s.len() > 0,
        !text::white_space(s[0]),
        !text::white_space(s.last()),
    ensures
        text::trimmed(s) == s,
{
}

// ---------------------------------------------------------------------------
// Bodies
// ---------------------------------------------------------------------------

/// The document of a request body, or why it is none, from what its text
/// states.
pub open spec fn body_of(parsed: Result<JsonView, Seq<char>>) -> Result<JsonView, Seq<char>> {
    match parsed {
        Ok(d) => Ok(d),
        Err(e) => Err("invalid JSON body: "@ + e),
    }
}

/// The document of a request body.
pub fn parse_body(body: &str) -> (r: Result<Json, String>)
    ensures
        data::shows(r, body_of(codec::text_doc(body@))),
{
    match codec::read_text(body) {
        Ok(d) => Ok(d),
        Err(e) => Err(join2("invalid JSON body: ", e.as_str())),
    }
}

/// A required string member: not blank.
pub open spec fn required_text(d: JsonView, name: Seq<char>) -> Result<Seq<char>, Seq<char>> {
    match d.str_at(name) {
        Some(s) => if text::trimmed(s).len() == 0 {
            Err("`"@ + name + "` is required"@)
        } else {
            Ok(s)
        },
        None => Err("`"@ + name + "` is required"@),
    }
}

/// A required string member: not blank.
pub fn req_str(v: &Json, key: &str) -> (r: Result<String, String>)
    ensures
        data::shows(r, required_text(v@, key@)),
{
    match v.str_at(key) {
        Some(s) => if is_blank(s) {
            Err(join3("`", key, "` is required"))
        } else {
            Ok(s.to_owned())
        },
        None => Err(join3("`", key, "` is required")),
    }
}

/// An optional string member, trimmed; none where it is blank.
pub open spec fn optional_text(d: JsonView, name: Seq<char>) -> Option<Seq<char>> {
    match d.str_at(name) {
        Some(s) => if text::trimmed(s).len() == 0 {
            None
        } else {
            Some(text::trimmed(s))
        },
        None => None,
    }
}

/// An optional string member, trimmed; none where it is blank.
pub fn opt_str(v: &Json, key: &str) -> (r: Option<String>)
    ensures
        r.deep_view() == optional_text(v@, key@),
{
    match v.str_at(key) {
        Some(s) => {
            let t = trim(s);
            if t.as_str().is_empty() {
                None
            } else {
                Some(t)
            }
        },
        None => None,
    }
}

/// A token: 1 to 256 bytes without `/` or white space.
pub open spec fn is_token(s: Seq<char>) -> bool {
    0 < s.len() && encode_utf8(s).len() <= 256 && !s.contains('/') && !text::holds_white_space(s)
}

/// Refuse what is no token.
pub fn validate_token(s: &str, field: &str) -> (r: Result<(), String>)
    ensures
        r is Ok <==> is_token(s@),
        r is Err ==> (r->Err_0)@ == "`"@ + field@
            + "` must be 1-256 characters without `/` or whitespace"@,
{
    if s.is_empty() || has_char(s, '/') || has_white_space(s) || s.as_bytes().len() > 256 {
        return Err(join3("`", field, "` must be 1-256 characters without `/` or whitespace"));
    }
    Ok(())
}

// ---------------------------------------------------------------------------
// Replies
// ---------------------------------------------------------------------------

/// What a request is answered with, before it is signed.
#[derive(Debug)]
pub struct Reply {
    pub status: u16,
    pub doc: Json,
    /// The instant that the reply speaks of.
    pub as_of: Timestamp,
    pub cache: CachePolicy,
}

/// What a reply says.
#[verifier::ext_equal]
pub struct ReplyView {
    pub status: u16,
    pub doc: JsonView,
    pub as_of: Timestamp,
    pub cache: CachePolicy,
}

impl DeepView for Reply {
    type V = ReplyView;

    open spec fn deep_view(&self) -> ReplyView {
        ReplyView { status: self.status, doc: self.doc@, as_of: self.as_of, cache: self.cache }
    }
}

impl View for Reply {
    type V = ReplyView;

    open spec fn view(&self) -> ReplyView {
        self.deep_view()
    }
}

/// The text of an instant as a document.
pub open spec fn stamped(t: Timestamp) -> JsonView {
    JsonView::Str(time::stamp(t.secs as int))
}

/// The text of an instant as a document.
pub fn stamp_json(t: Timestamp) -> (r: Json)
    ensures
        r@ == stamped(t),
{
    Json::Str(t.to_string())
}

/// The reply is stamped in its body with the instant it speaks of.
pub open spec fn is_stamped(r: ReplyView) -> bool {
    r.doc.get("as_of"@) == Some(stamped(r.as_of))
}

/// The reply that states an error.
pub open spec fn error_of(status: u16, message: Seq<char>, now: Timestamp) -> ReplyView {
    ReplyView {
        status,
        doc: JsonView::object().put("error"@, JsonView::Str(message)).put("as_of"@, stamped(now)),
        as_of: now,
        cache: CachePolicy::NoStore,
    }
}

/// State an error.
pub fn error_response(status: u16, message: &str, now: Timestamp) -> (r: Reply)
    ensures
        r@ == error_of(status, message@, now),
{
    Reply {
        status,
        doc: Json::object().with("error", Json::text(message)).with("as_of", stamp_json(now)),
        as_of: now,
        cache: CachePolicy::NoStore,
    }
}

/// The status of a store failure.
pub open spec fn failure_status(e: StoreErrorView) -> u16 {
    match e {
        StoreErrorView::Conflict(_) => 409,
        StoreErrorView::Invalid(_) => 400,
        StoreErrorView::NotFound(_) => 404,
    }
}

/// The reply to a store failure.
pub open spec fn failure_of(e: StoreErrorView, now: Timestamp) -> ReplyView {
    error_of(failure_status(e), e.message(), now)
}

/// Answer a store failure.
pub fn store_error(e: StoreError, now: Timestamp) -> (r: Reply)
    ensures
        r@ == failure_of(e@, now),
{
    match e {
        StoreError::Conflict(m) => error_response(409, m.as_str(), now),
        StoreError::Invalid(m) => error_response(400, m.as_str(), now),
        StoreError::NotFound(m) => error_response(404, m.as_str(), now),
    }
}

/// The request carries the bearer token, or none is configured.
pub open spec fn authorised(token: Option<Seq<char>>, authorization: Option<Seq<char>>) -> bool {
    match token {
        None => true,
        Some(t) => authorization == Some("Bearer "@ + t),
    }
}

/// The reply to a request without the configured token.
pub open spec fn denial(now: Timestamp) -> ReplyView {
    error_of(401, "unauthorized"@, now)
}

/// Deny a request that does not carry the configured bearer token.
pub fn require_admin(
    token: &Option<String>,
    authorization: &Option<String>,
    now: Timestamp,
) -> (r: Option<Reply>)
    ensures
        r is None <==> authorised(token.deep_view(), authorization.deep_view()),
        r is Some ==> (r->0)@ == denial(now),
{
    let token = match token {
        Some(t) => t,
        None => return None,
    };
    if let Some(header) = authorization {
        if let Some(got) = strip_prefix(header.as_str(), "Bearer ") {
            if got == *token {
                assert(header@ =~= "Bearer "@ + token@);
                return None;
            }
            proof {
                let h = "Bearer "@ + token@;
                assert(h.skip("Bearer "@.len() as int) =~= token@);
            }
        } else {
            proof {
                let h = "Bearer "@ + token@;
                assert(h.take("Bearer "@.len() as int) =~= "Bearer "@);
            }
        }
    }
    Some(error_response(401, "unauthorized", now))
}

// ---------------------------------------------------------------------------
// Signed responses
// ---------------------------------------------------------------------------

/// The signatures of a response body in both suites.
#[derive(Debug)]
pub struct BodySignatures {
    pub ed25519: Vec<u8>,
    pub ed25519_key_id: String,
    pub p256: Vec<u8>,
    pub p256_key_id: String,
}

/// The headers that carry the signatures of a body. The entity tag is
/// taken from the Ed25519 signature: the same body gives the same tag.
pub open spec fn signature_headers(s: BodySignatures) -> Seq<(Seq<char>, Seq<char>)> {
    seq![
        ("x-sig-domain"@, "tree-head"@),
        ("x-sig-ed25519"@, hex::hex_text(s.ed25519@)),
        ("x-sig-key-id-ed25519"@, s.ed25519_key_id@),
        ("x-sig-ecdsa-p256"@, hex::hex_text(s.p256@)),
        ("x-sig-key-id-ecdsa-p256"@, s.p256_key_id@),
        ("etag"@, "\"sig-"@ + hex::hex_text(s.ed25519@).take(32) + "\""@),
    ]
}

/// The headers of a signed JSON response.
pub open spec fn reply_headers(
    as_of: Timestamp,
    cache: CachePolicy,
    s: BodySignatures,
) -> Seq<(Seq<char>, Seq<char>)> {
    seq![("content-type"@, "application/json"@), ("x-as-of"@, time::stamp(as_of.secs as int))]
        + signature_headers(s) + seq![("cache-control"@, cache.spec_header_value())]
}

fn header(name: &str, value: &str) -> (r: (String, String))
    ensures
        r.deep_view() == (name@, value@),
{
    (name.to_owned(), value.to_owned())
}

/// The headers that carry the signatures of a body.
pub fn sign_headers(s: &BodySignatures) -> (r: Vec<(String, String)>)
    requires
        s.ed25519@.len() >= 16,
    ensures
        r.deep_view() == signature_headers(*s),
{
    let ed = hex_encode(s.ed25519.as_slice());
    let chars = crate::text::chars_of(ed.as_str());
    let tag = crate::text::slice_text(&chars, 0, 32);
    assert(tag@ =~= ed@.take(32));
    let mut out: Vec<(String, String)> = Vec::new();
    out.push(header("x-sig-domain", "tree-head"));
    out.push(header("x-sig-ed25519", ed.as_str()));
    out.push(header("x-sig-key-id-ed25519", s.ed25519_key_id.as_str()));
    out.push(header("x-sig-ecdsa-p256", hex_encode(s.p256.as_slice()).as_str()));
    out.push(header("x-sig-key-id-ecdsa-p256", s.p256_key_id.as_str()));
    out.push(header("etag", join3("\"sig-", tag.as_str(), "\"").as_str()));
    assert(out.deep_view() =~= signature_headers(*s));
    out
}

/// The headers of a signed JSON response.
pub fn signed_headers(as_of: Timestamp, cache: CachePolicy, s: &BodySignatures) -> (r: Vec<
    (String, String),
>)
    requires
        s.ed25519@.len() >= 16,
    ensures
        r.deep_view() == reply_headers(as_of, cache, *s),
{
    let mut out: Vec<(String, String)> = Vec::new();
    out.push(header("content-type", "application/json"));
    out.push(header("x-as-of", as_of.to_string().as_str()));
    let ghost head = out.deep_view();
    let mut signatures = sign_headers(s);
    let ghost tail = signatures.deep_view();
    out.append(&mut signatures);
    assert(out.deep_view() =~= head + tail);
    out.push(header("cache-control", cache.header_value()));
    assert(out.deep_view() =~= reply_headers(as_of, cache, *s));
    out
}

/// Two bodies with the same signatures get the same headers for the same
/// instant and policy; in particular the same entity tag.
pub proof fn law_same_signatures_same_headers(
    as_of: Timestamp,
    cache: CachePolicy,
    a: BodySignatures,
    b: BodySignatures,
)
    requires
        a.ed25519@ == b.ed25519@,
        a.p256@ == b.p256@,
        a.ed25519_key_id@ == b.ed25519_key_id@,
        a.p256_key_id@ == b.p256_key_id@,
    ensures
        reply_headers(as_of, cache, a) == reply_headers(as_of, cache, b),
{
}

// ---------------------------------------------------------------------------
// Configuration
// ---------------------------------------------------------------------------

/// Deployment configuration.
#[derive(Debug)]
pub struct Config {
    /// Listen address (`UNIDPP_TRUST_BIND`).
    pub bind: String,
    /// Bearer token guarding mutations and `/admin/*`; `None` = open.
    pub admin_token: Option<String>,
    /// Optional JSONL journal file.
    pub state_file: Option<String>,
    /// Whether to seed the fixture trust graph on first start.
    pub seed_fixtures: bool,
    /// The deterministic dev seed of the keyring.
    pub dev_seed: Option<String>,
}

/// What a configuration says.
#[verifier::ext_equal]
pub struct ConfigView {
    pub bind: Seq<char>,
    pub admin_token: Option<Seq<char>>,
    pub state_file: Option<Seq<char>>,
    pub seed_fixtures: bool,
    pub dev_seed: Option<Seq<char>>,
}

impl View for Config {
    type V = ConfigView;

    open spec fn view(&self) -> ConfigView {
        ConfigView {
            bind: self.bind@,
            admin_token: self.admin_token.deep_view(),
            state_file: self.state_file.deep_view(),
            seed_fixtures: self.seed_fixtures,
            dev_seed: self.dev_seed.deep_view(),
        }
    }
}

/// A variable that is set and not empty.
pub open spec fn set_variable(vars: Map<Seq<char>, Seq<char>>, name: Seq<char>) -> Option<
    Seq<char>,
> {
    match param(vars, name) {
        Some(v) => if v.len() == 0 {
            None
        } else {
            Some(v)
        },
        None => None,
    }
}

/// The configuration without any variable.
pub open spec fn default_config() -> ConfigView {
    ConfigView {
        bind: "127.0.0.1:8092"@,
        admin_token: None,
        state_file: None,
        seed_fixtures: true,
        dev_seed: None,
    }
}

/// The configuration that environment variables give. The listen address
/// is taken where it parses as one.
pub open spec fn config_of(vars: Map<Seq<char>, Seq<char>>, bind_parses: bool) -> ConfigView {
    ConfigView {
        bind: match param(vars, "UNIDPP_TRUST_BIND"@) {
            Some(b) => if bind_parses {
                b
            } else {
                default_config().bind
            },
            None => default_config().bind,
        },
        admin_token: set_variable(vars, "UNIDPP_TRUST_ADMIN_TOKEN"@),
        state_file: set_variable(vars, "UNIDPP_TRUST_STATE_FILE"@),
        seed_fixtures: match param(vars, "UNIDPP_TRUST_NO_SEED_FIXTURES"@) {
            Some(v) => !(v == "1"@ || text::same_fold(v, "true"@)),
            None => true,
        },
        dev_seed: set_variable(vars, "UNIDPP_TRUST_DEV_SEED"@),
    }
}

fn non_empty(vars: &Params, name: &str) -> (r: Option<String>)
    ensures
        r.deep_view() == set_variable(vars@, name@),
{
    match vars.get(name) {
        Some(v) => if v.is_empty() {
            None
        } else {
            Some(v.to_owned())
        },
        None => None,
    }
}

/// The names of the environment variables that the service consumes.
pub open spec fn env_key_names() -> Seq<Seq<char>> {
    seq![
        "UNIDPP_TRUST_BIND"@,
        "UNIDPP_TRUST_ADMIN_TOKEN"@,
        "UNIDPP_TRUST_STATE_FILE"@,
        "UNIDPP_TRUST_NO_SEED_FIXTURES"@,
        "UNIDPP_TRUST_DEV_SEED"@,
        "UNIDPP_TRUST_SIGN_SEED"@,
        "UNIDPP_TRUST_SIGN_SEED_P256"@,
    ]
}

impl Default for Config {
    fn default() -> (r: Config)
        ensures
            r@ == default_config(),
    {
        Config {
            bind: "127.0.0.1:8092".to_owned(),
            admin_token: None,
            state_file: None,
            seed_fixtures: true,
            dev_seed: None,
        }
    }
}

impl Config {
    /// The environment variables this service consumes: the deployment
    /// contract.
    pub fn env_keys() -> (r: Vec<String>)
        ensures
            r.deep_view() == env_key_names(),
    {
        let mut out: Vec<String> = Vec::new();
        out.push("UNIDPP_TRUST_BIND".to_owned());
        out.push("UNIDPP_TRUST_ADMIN_TOKEN".to_owned());
        out.push("UNIDPP_TRUST_STATE_FILE".to_owned());
        out.push("UNIDPP_TRUST_NO_SEED_FIXTURES".to_owned());
        out.push("UNIDPP_TRUST_DEV_SEED".to_owned());
        out.push("UNIDPP_TRUST_SIGN_SEED".to_owned());
        out.push("UNIDPP_TRUST_SIGN_SEED_P256".to_owned());
        assert(out.deep_view() =~= env_key_names());
        out
    }

    /// Resolve the configuration from environment variables; `bind_parses`
    /// says whether the listen address is one.
    pub fn from_env(vars: &Params, bind_parses: bool) -> (r: Config)
        ensures
            r@ == config_of(vars@, bind_parses),
    {
        let mut c = Config::default();
        if let Some(bind) = vars.get("UNIDPP_TRUST_BIND") {
            if bind_parses {
                c.bind = bind.to_owned();
            }
        }
        c.admin_token = non_empty(vars, "UNIDPP_TRUST_ADMIN_TOKEN");
        c.state_file = non_empty(vars, "UNIDPP_TRUST_STATE_FILE");
        if let Some(v) = vars.get("UNIDPP_TRUST_NO_SEED_FIXTURES") {
            if same_text(v, "1") || eq_fold(v, "true") {
                c.seed_fixtures = false;
            }
        }
        c.dev_seed = non_empty(vars, "UNIDPP_TRUST_DEV_SEED");
        c
    }
}

/// A window that was read shows the one asked for exactly when both are the
/// same window, or none, or the same refusal.
pub proof fn law_shown_windows(
    r: Result<Option<(Timestamp, Option<Timestamp>)>, String>,
    s: Result<Option<(Timestamp, Option<Timestamp>)>, Seq<char>>,
)
    ensures
        window_shows(r, s) <==> {
            &&& r is Ok <==> s is Ok
            &&& r is Ok ==> r->Ok_0 == s->Ok_0
            &&& r is Err ==> (r->Err_0)@ == s->Err_0
        },
{
}

} // verus!
