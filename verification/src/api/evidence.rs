//! Gated evidence over the wire: registration, the public catalogue, and
//! release under the required scope.

use vstd::prelude::*;

use crate::api;
use crate::api::writes;
use crate::api::writes::{read_body, Request, RequestView};
use crate::api::{error_response, sign_headers, stamp_json, store_error, BodySignatures, CachePolicy, Params, Reply, ReplyView};
use crate::data;
use crate::evidence;
use crate::evidence::{evidence_from_value, Evidence, EvidenceView};
use crate::json::{Json, JsonView};
use crate::store;
use crate::store::{OpView, Store, StoreError, StoreErrorView, StoreView};
use crate::time;
use crate::time::Timestamp;

verus! {

broadcast use {data::lemma_deep_push, data::lemma_deep_bytes, data::lemma_deep_len};

// ---------------------------------------------------------------------------
// Registration
// ---------------------------------------------------------------------------

/// The reply to a registration, and the store after it: the catalogue
/// metadata and the audit sequence number are stated.
pub open spec fn registration_outcome(s: StoreView, q: RequestView) -> (ReplyView, StoreView) {
    match writes::admitted(q) {
        Err(r) => (r, s),
        Ok(d) => match evidence::evidence_of(d) {
            Err(e) => (api::error_of(400, e, q.now), s),
            Ok(evidence) => match writes::performed(
                s,
                OpView::RegisterEvidence { evidence },
                q.now,
                store::unruled(),
            ) {
                Err(e) => (api::failure_of(e, q.now), s),
                Ok(after) => (
                    writes::created(
                        evidence::meta_of(evidence).put("audit_seq"@, writes::next_seq(s)).put(
                            "as_of"@,
                            api::stamped(q.now),
                        ),
                        q.now,
                    ),
                    after,
                ),
            },
        },
    }
}

/// Register a gated evidence document.
pub fn register_evidence(store: &mut Store, request: Request) -> (r: Reply)
    requires
        old(store)@.log.len() < u64::MAX,
    ensures
        (r@, final(store)@) == registration_outcome(old(store)@, request@),
{
    let now = request.now;
    let ghost s = store@;
    let v = match read_body(&request.token, &request.authorization, request.body.as_str(), now) {
        Ok(v) => v,
        Err(r) => return r,
    };
    let evidence = match evidence_from_value(&v) {
        Ok(e) => e,
        Err(e) => return error_response(400, e.as_str(), now),
    };
    let id = evidence.id.clone();
    let ghost posted = evidence@;
    let rec = match store.register_evidence(evidence, now) {
        Ok(rec) => rec,
        Err(e) => return store_error(e, now),
    };
    proof {
        data::lemma_filed_lookup::<Evidence>(s.evidence, posted, posted.id);
    }
    let doc = match store.evidence_meta(id.as_str()) {
        Some(m) => m,
        None => Json::object(),
    };
    Reply {
        status: 201,
        doc: doc.with("audit_seq", Json::Uint(rec.seq)).with("as_of", stamp_json(now)),
        as_of: now,
        cache: CachePolicy::NoStore,
    }
}

// ---------------------------------------------------------------------------
// Catalogue and release
// ---------------------------------------------------------------------------

/// Serve the catalogue: metadata only.
pub fn evidence_catalogue(store: &Store, now: Timestamp) -> (r: Reply)
    ensures
        r@ == (ReplyView {
            status: 200,
            doc: evidence::catalogue_of(store@.evidence).put("as_of"@, api::stamped(now)),
            as_of: now,
            cache: CachePolicy::Current,
        }),
        api::is_stamped(r@),
{
    Reply {
        status: 200,
        doc: store.evidence_list_json().with("as_of", stamp_json(now)),
        as_of: now,
        cache: CachePolicy::Current,
    }
}

/// A value that a parameter states, or else a header.
pub open spec fn param_or_header(
    p: Map<Seq<char>, Seq<char>>,
    name: Seq<char>,
    header: Option<Seq<char>>,
) -> Option<Seq<char>> {
    match api::param(p, name) {
        Some(v) => Some(v),
        None => header,
    }
}

/// The scope that a release is asked under; the parameter outranks the
/// header, and without either it is empty.
pub open spec fn presented_scope(
    p: Map<Seq<char>, Seq<char>>,
    header: Option<Seq<char>>,
) -> Seq<char> {
    match param_or_header(p, "scope"@, header) {
        Some(s) => s,
        None => ""@,
    }
}

fn pick(params: &Params, name: &str, header: &Option<String>) -> (r: Option<String>)
    ensures
        r.deep_view() == param_or_header(params@, name@, header.deep_view()),
{
    match params.get(name) {
        Some(v) => Some(v.to_owned()),
        None => match header {
            Some(h) => Some(h.clone()),
            None => None,
        },
    }
}

/// The scope that a release is asked under.
pub fn release_scope(params: &Params, header: &Option<String>) -> (r: String)
    ensures
        r@ == presented_scope(params@, header.deep_view()),
{
    match pick(params, "scope", header) {
        Some(s) => s,
        None => "".to_owned(),
    }
}

/// Who asks for a release, if it is stated.
pub fn release_requester(params: &Params, header: &Option<String>) -> (r: Option<String>)
    ensures
        r.deep_view() == param_or_header(params@, "requester"@, header.deep_view()),
{
    pick(params, "requester", header)
}

/// The headers of a released document; the signatures cover the exact
/// bytes returned.
pub open spec fn released_headers(
    e: EvidenceView,
    now: Timestamp,
    s: BodySignatures,
) -> Seq<(Seq<char>, Seq<char>)> {
    seq![
        ("content-type"@, e.content_type),
        ("x-as-of"@, time::stamp(now.secs as int)),
        ("x-unidpp-scope"@, e.required_scope),
    ] + api::signature_headers(s)
}

/// The headers of a released document.
pub fn release_headers(evidence: &Evidence, now: Timestamp, s: &BodySignatures) -> (r: Vec<
    (String, String),
>)
    requires
        s.ed25519@.len() >= 16,
    ensures
        r.deep_view() == released_headers(evidence@, now, *s),
{
    let mut out: Vec<(String, String)> = Vec::new();
    out.push(("content-type".to_owned(), evidence.content_type.clone()));
    out.push(("x-as-of".to_owned(), now.to_string()));
    out.push(("x-unidpp-scope".to_owned(), evidence.required_scope.clone()));
    let ghost head = out.deep_view();
    let mut signatures = sign_headers(s);
    let ghost tail = signatures.deep_view();
    out.append(&mut signatures);
    assert(out.deep_view() =~= head + tail);
    assert(out.deep_view() =~= released_headers(evidence@, now, *s));
    out
}

/// The reply to a release that is refused: an unsatisfying scope is an
/// access denial, not a missing document.
pub open spec fn release_refusal(e: StoreErrorView, now: Timestamp) -> ReplyView {
    match e {
        StoreErrorView::Invalid(m) => api::error_of(403, m, now),
        StoreErrorView::NotFound(m) => api::error_of(404, m, now),
        StoreErrorView::Conflict(m) => api::error_of(409, m, now),
    }
}

fn release_refused(e: StoreError, now: Timestamp) -> (r: Reply)
    ensures
        r@ == release_refusal(e@, now),
{
    match e {
        StoreError::Invalid(m) => error_response(403, m.as_str(), now),
        StoreError::NotFound(m) => error_response(404, m.as_str(), now),
        StoreError::Conflict(m) => error_response(409, m.as_str(), now),
    }
}

/// The document that is released or the reply that refuses it, and the store
/// after it.
pub open spec fn release_outcome(
    s: StoreView,
    id: Seq<char>,
    requester: Option<Seq<char>>,
    scope: Seq<char>,
    now: Timestamp,
) -> (Result<EvidenceView, ReplyView>, StoreView) {
    match store::release_error(s.evidence, id, scope) {
        Some(e) => (Err(release_refusal(e, now)), s),
        None => (
            Ok(data::lookup::<Evidence>(s.evidence, id)->0),
            store::logged(
                s,
                store::next_record(s, OpView::ReleaseEvidence { id, requester, scope }, now),
                store::unruled(),
            ),
        ),
    }
}

/// Release a gated evidence document under its scope. The parameters and the
/// headers of the request state the scope and who asks.
pub fn evidence_release(
    store: &mut Store,
    id: &str,
    params: &Params,
    scope_header: &Option<String>,
    requester_header: &Option<String>,
    now: Timestamp,
) -> (r: Result<Evidence, Reply>)
    requires
        old(store)@.log.len() < u64::MAX,
    ensures
        ({
            let (answer, after) = release_outcome(
                old(store)@,
                id@,
                param_or_header(params@, "requester"@, requester_header.deep_view()),
                presented_scope(params@, scope_header.deep_view()),
                now,
            );
            writes::gives(r, answer) && final(store)@ == after
        }),
{
    let scope = release_scope(params, scope_header);
    let requester = release_requester(params, requester_header);
    match store.release_evidence(id, requester, scope.as_str(), now) {
        Ok(e) => Ok(e),
        Err(e) => Err(release_refused(e, now)),
    }
}

// ---------------------------------------------------------------------------
// Laws
// ---------------------------------------------------------------------------

/// Without the configured token no document is registered.
pub proof fn law_no_registration_without_the_token(s: StoreView, q: RequestView)
    requires
        !api::authorised(q.token, q.authorization),
    ensures
        registration_outcome(s, q) == (api::denial(q.now), s),
{
}

/// The reply to a registration is stamped in its body, and so is a refused
/// release.
pub proof fn law_evidence_replies_are_stamped(
    s: StoreView,
    q: RequestView,
    e: StoreErrorView,
    now: Timestamp,
)
    ensures
        api::is_stamped(registration_outcome(s, q).0),
        api::is_stamped(release_refusal(e, now)),
{
}

/// A registration that is not answered with success leaves the store as it
/// was; one that is adds one record to the log.
pub proof fn law_registration_is_all_or_nothing(s: StoreView, q: RequestView)
    ensures
        registration_outcome(s, q).0.status != 201 ==> registration_outcome(s, q).1 == s,
        registration_outcome(s, q).0.status == 201 ==> registration_outcome(s, q).1.log.len()
            == s.log.len() + 1,
{
}

/// No document is registered without an id and a scope that gates it.
pub proof fn law_registered_evidence_is_gated(d: JsonView)
    ensures
        evidence::evidence_of(d) matches Ok(e) ==> crate::roundtrip::evidence_gated(e),
{
}

/// A registered document is never answered as missing: under another scope
/// it is an access denial that names the required one, and nothing is
/// recorded of it.
pub proof fn law_wrong_scope_is_a_stated_denial(
    s: StoreView,
    id: Seq<char>,
    requester: Option<Seq<char>>,
    scope: Seq<char>,
    now: Timestamp,
    e: EvidenceView,
)
    requires
        data::lookup::<Evidence>(s.evidence, id) == Some(e),
        scope != e.required_scope,
    ensures
        release_outcome(s, id, requester, scope, now) == (
            Err::<EvidenceView, ReplyView>(
                api::error_of(
                    403,
                    "evidence `"@ + id + "` requires scope `"@ + e.required_scope + "`"@,
                    now,
                ),
            ),
            s,
        ),
{
}

/// Content never appears in the catalogue: documents that differ in their
/// content alone, and not in its size, are catalogued alike.
pub proof fn law_catalogue_hides_content(a: EvidenceView, b: EvidenceView)
    requires
        a.id == b.id,
        a.content_type == b.content_type,
        a.description == b.description,
        a.required_scope == b.required_scope,
        a.content.len() == b.content.len(),
    ensures
        evidence::meta_of(a) == evidence::meta_of(b),
{
}

} // verus!
