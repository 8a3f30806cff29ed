//! What is registered, catalogued and released of gated evidence.

use vstd::prelude::*;

use crate::api::evidence as documents;
use crate::api::mutations;
use crate::api::requests;
use crate::api::writes::RequestView;
use crate::api::BodySignatures;
use crate::data;
use crate::data::Keyed;
use crate::evidence;
use crate::evidence::{Evidence, EvidenceView};
use crate::hex;
use crate::json::JsonView;
use crate::store;
use crate::store::{OpView, StoreView};
use crate::text;
use crate::time;
use crate::time::Timestamp;

verus! {

/// The member is a text that is not blank.
pub open spec fn named(d: JsonView, name: Seq<char>) -> bool {
    d.get(name) matches Some(JsonView::Str(t)) && text::trimmed(t).len() > 0
}

/// A body registers a document exactly when it states an id, the scope that
/// gates it and its bytes in hex. What it states is what is registered; the
/// type is `application/octet-stream` and the description empty where they
/// are not stated.
pub proof fn law_registrations_state_documents(d: JsonView)
    ensures
        evidence::evidence_of(d) is Ok <==> named(d, "id"@) && named(d, "requiredScope"@) && (d.get(
            "contentHex"@,
        ) matches Some(JsonView::Str(h)) && hex::hex_value(h) is Ok),
        evidence::evidence_of(d) matches Ok(e) ==> {
            &&& d.get("id"@) == Some(JsonView::Str(e.id))
            &&& d.get("requiredScope"@) == Some(JsonView::Str(e.required_scope))
            &&& d.get("contentHex"@) matches Some(JsonView::Str(h)) && hex::hex_value(h) == Ok::<
                Seq<u8>,
                Seq<char>,
            >(e.content)
            &&& e.content_type == (match d.get("contentType"@) {
                Some(JsonView::Str(t)) => t,
                _ => "application/octet-stream"@,
            })
            &&& e.description == (match d.get("description"@) {
                Some(JsonView::Str(t)) => t,
                _ => Seq::<char>::empty(),
            })
        },
{
    reveal_strlit("");
    assert(""@ =~= Seq::<char>::empty());
}

/// The document of the catalogue states the id, the type, the description,
/// the scope and the size of the evidence, and has no other member.
pub open spec fn catalogues(d: JsonView, e: EvidenceView) -> bool {
    &&& d.get("id"@) == Some(JsonView::Str(e.id))
    &&& d.get("contentType"@) == Some(JsonView::Str(e.content_type))
    &&& d.get("description"@) == Some(JsonView::Str(e.description))
    &&& d.get("requiredScope"@) == Some(JsonView::Str(e.required_scope))
    &&& d.get("size"@) == Some(JsonView::Num(e.content.len() as int))
}

/// The catalogue states every document that is registered, each in its
/// place, and never what it holds.
pub proof fn law_catalogue(s: Seq<EvidenceView>, name: Seq<char>)
    ensures
        ({
            let d = evidence::catalogue_of(s);
            &&& d.get("count"@) == Some(JsonView::Num(s.len() as int))
            &&& d.get("evidence"@) matches Some(JsonView::Arr(items))
            &&& items.len() == s.len()
            &&& forall|i: int|
                0 <= i < s.len() ==> catalogues(#[trigger] items[i], s[i]) && (items[i].get(
                    name,
                ) is Some ==> name == "id"@ || name == "contentType"@ || name == "description"@
                    || name == "requiredScope"@ || name == "size"@)
        }),
{
    let d = evidence::catalogue_of(s);
    reveal_strlit("count");
    reveal_strlit("evidence");
    assert("count"@.len() == 5);
    assert("evidence"@.len() == 8);
    let items = Seq::new(s.len(), |i: int| evidence::meta_of(s[i]));
    assert(d.get("evidence"@) == Some(JsonView::Arr(items)));
    assert forall|i: int| 0 <= i < s.len() implies catalogues(#[trigger] items[i], s[i]) && (
    items[i].get(name) is Some ==> name == "id"@ || name == "contentType"@ || name
        == "description"@ || name == "requiredScope"@ || name == "size"@) by {
        reveal_strlit("id");
        reveal_strlit("contentType");
        reveal_strlit("description");
        reveal_strlit("requiredScope");
        reveal_strlit("size");
        assert("id"@.len() == 2);
        assert("contentType"@.len() == 11 && "contentType"@[0] == 'c');
        assert("description"@.len() == 11 && "description"@[0] == 'd');
        assert("requiredScope"@.len() == 13);
        assert("size"@.len() == 4);
    }
}

/// A document is registered under the id.
pub open spec fn has_document(s: StoreView, id: Seq<char>) -> bool {
    exists|i: int| 0 <= i < s.evidence.len() && (#[trigger] s.evidence[i]).id == id
}

proof fn lemma_has_document(s: StoreView, id: Seq<char>)
    ensures
        has_document(s, id) <==> data::lookup::<Evidence>(s.evidence, id) is Some,
        data::lookup::<Evidence>(s.evidence, id) matches Some(e) ==> e.id == id
            && s.evidence.contains(e),
{
    data::law_lookup::<Evidence>(s.evidence, id);
    match data::lookup::<Evidence>(s.evidence, id) {
        Some(e) => {
            let i = choose|i: int|
                0 <= i < s.evidence.len() && #[trigger] s.evidence[i] == e && Evidence::key_of(e)
                    == id && forall|j: int|
                    0 <= j < i ==> Evidence::key_of(#[trigger] s.evidence[j]) != id;
            assert(s.evidence[i].id == id);
        },
        None => {
            assert forall|i: int| 0 <= i < s.evidence.len() implies (#[trigger] s.evidence[i]).id
                != id by {
                assert(Evidence::key_of(s.evidence[i]) != id);
            }
        },
    }
}

/// A registration that can be read is taken exactly when its id is new: the
/// reply catalogues it and the store holds it beside the others. A second
/// one under the id is answered 409.
pub proof fn law_registration_answer(s: StoreView, q: RequestView, d: JsonView, other: Seq<char>)
    requires
        mutations::carries(q, d),
        evidence::evidence_of(d) is Ok,
        s.log.len() < u64::MAX,
    ensures
        ({
            let (r, after) = documents::registration_outcome(s, q);
            let e = evidence::evidence_of(d)->Ok_0;
            if has_document(s, e.id) {
                mutations::refused(
                    (r, after),
                    s,
                    409,
                    "evidence `"@ + e.id + "` is already registered"@,
                )
            } else {
                &&& r.status == 201
                &&& catalogues(r.doc, e)
                &&& r.doc.get("contentHex"@) is None
                &&& r.doc.get("audit_seq"@) == Some(JsonView::Num(s.log.len() as int + 1))
                &&& data::lookup::<Evidence>(after.evidence, other) == if other == e.id {
                    Some(e)
                } else {
                    data::lookup::<Evidence>(s.evidence, other)
                }
                &&& mutations::recorded(s, after, OpView::RegisterEvidence { evidence: e }, q.now)
                &&& after.graph == s.graph && after.trust_lists == s.trust_lists && after.master
                    == s.master && after.ledger == s.ledger
            }
        }),
{
    let e = evidence::evidence_of(d)->Ok_0;
    lemma_has_document(s, e.id);
    data::lemma_filed_lookup::<Evidence>(s.evidence, e, other);
    reveal_strlit("id");
    reveal_strlit("contentType");
    reveal_strlit("description");
    reveal_strlit("requiredScope");
    reveal_strlit("size");
    reveal_strlit("audit_seq");
    reveal_strlit("as_of");
    reveal_strlit("error");
    reveal_strlit("contentHex");
    assert("id"@.len() == 2);
    assert("contentType"@.len() == 11 && "contentType"@[0] == 'c');
    assert("description"@.len() == 11 && "description"@[0] == 'd');
    assert("requiredScope"@.len() == 13);
    assert("size"@.len() == 4);
    assert("audit_seq"@.len() == 9);
    assert("as_of"@.len() == 5 && "as_of"@[0] == 'a');
    assert("error"@.len() == 5 && "error"@[0] == 'e');
    assert("contentHex"@.len() == 10);
}

/// The scope and the requester of a release are what the parameter states,
/// else what the header states; without a scope the empty one is asked
/// under.
pub proof fn law_scope_presented(
    p: Map<Seq<char>, Seq<char>>,
    header: Option<Seq<char>>,
)
    ensures
        p.dom().contains("scope"@) ==> documents::presented_scope(p, header) == p["scope"@],
        !p.dom().contains("scope"@) && header is Some ==> documents::presented_scope(p, header)
            == header->0,
        !p.dom().contains("scope"@) && header is None ==> documents::presented_scope(
            p,
            header,
        ).len() == 0,
        p.dom().contains("requester"@) ==> documents::param_or_header(p, "requester"@, header)
            == Some(p["requester"@]),
        !p.dom().contains("requester"@) ==> documents::param_or_header(p, "requester"@, header)
            == header,
{
    reveal_strlit("");
}

/// A document is released exactly under the scope that gates it, as it was
/// registered, and each release is recorded with who asked and under which
/// scope. Under another scope the answer is 403, of an unknown id 404, and
/// neither leaves a trace.
pub proof fn law_release_answer(
    s: StoreView,
    id: Seq<char>,
    requester: Option<Seq<char>>,
    scope: Seq<char>,
    now: Timestamp,
)
    requires
        s.log.len() < u64::MAX,
    ensures
        ({
            let (r, after) = documents::release_outcome(s, id, requester, scope, now);
            match r {
                Ok(e) => {
                    &&& e.id == id
                    &&& e.required_scope == scope
                    &&& s.evidence.contains(e)
                    &&& mutations::recorded(
                        s,
                        after,
                        OpView::ReleaseEvidence { id, requester, scope },
                        now,
                    )
                    &&& after.evidence == s.evidence && after.graph == s.graph && after.trust_lists
                        == s.trust_lists && after.master == s.master && after.ledger == s.ledger
                },
                Err(reply) => {
                    &&& after == s
                    &&& reply.status == 404 || reply.status == 403
                    &&& reply.status == 404 <==> !has_document(s, id)
                    &&& reply.status == 403 ==> (data::lookup::<Evidence>(
                        s.evidence,
                        id,
                    ) matches Some(e) && e.required_scope != scope && reply.doc.get("error"@)
                        == Some(
                        JsonView::Str(
                            "evidence `"@ + id + "` requires scope `"@ + e.required_scope + "`"@,
                        ),
                    ))
                },
            }
        }),
{
    lemma_has_document(s, id);
    reveal_strlit("error");
    reveal_strlit("as_of");
    assert("error"@.len() == 5 && "error"@[0] == 'e');
    assert("as_of"@.len() == 5 && "as_of"@[0] == 'a');
}

/// A released document carries its own type, the instant, the scope it was
/// released under and both signatures, each once.
#[verifier::spinoff_prover]
pub proof fn law_released_headers(e: EvidenceView, now: Timestamp, s: BodySignatures)
    requires
        s.ed25519@.len() >= 16,
    ensures
        ({
            let h = documents::released_headers(e, now, s);
            &&& h.len() == 9
            &&& requests::carried(h, "content-type"@, e.content_type)
            &&& requests::carried(h, "x-as-of"@, time::stamp(now.secs as int))
            &&& requests::carried(h, "x-unidpp-scope"@, e.required_scope)
            &&& requests::carried(h, "x-sig-domain"@, "tree-head"@)
            &&& requests::carried(h, "x-sig-ed25519"@, hex::hex_text(s.ed25519@))
            &&& requests::carried(h, "x-sig-key-id-ed25519"@, s.ed25519_key_id@)
            &&& requests::carried(h, "x-sig-ecdsa-p256"@, hex::hex_text(s.p256@))
            &&& requests::carried(h, "x-sig-key-id-ecdsa-p256"@, s.p256_key_id@)
        }),
{
    let h = documents::released_headers(e, now, s);
    reveal_strlit("content-type");
    reveal_strlit("x-as-of");
    reveal_strlit("x-unidpp-scope");
    reveal_strlit("x-sig-domain");
    reveal_strlit("x-sig-ed25519");
    reveal_strlit("x-sig-key-id-ed25519");
    reveal_strlit("x-sig-ecdsa-p256");
    reveal_strlit("x-sig-key-id-ecdsa-p256");
    reveal_strlit("etag");
    assert("content-type"@.len() == 12 && "content-type"@[0] == 'c');
    assert("x-sig-domain"@.len() == 12 && "x-sig-domain"@[0] == 'x');
    assert("x-as-of"@.len() == 7);
    assert("x-unidpp-scope"@.len() == 14);
    assert("x-sig-ed25519"@.len() == 13);
    assert("x-sig-key-id-ed25519"@.len() == 20);
    assert("x-sig-ecdsa-p256"@.len() == 16);
    assert("x-sig-key-id-ecdsa-p256"@.len() == 23);
    assert("etag"@.len() == 4);
    assert(h[0].0 == "content-type"@ && h[1].0 == "x-as-of"@ && h[2].0 == "x-unidpp-scope"@);
    assert(h[3].0 == "x-sig-domain"@ && h[4].0 == "x-sig-ed25519"@ && h[5].0
        == "x-sig-key-id-ed25519"@);
    assert(h[6].0 == "x-sig-ecdsa-p256"@ && h[7].0 == "x-sig-key-id-ecdsa-p256"@ && h[8].0
        == "etag"@);
}

} // verus!
