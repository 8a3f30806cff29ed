//! What the service says of itself is what it does: the endpoints, the
//! headers, the cache policies and the variables that it announces.

use vstd::prelude::*;

use crate::api;
use crate::api::discovery;
use crate::api::paths;
use crate::api::{BodySignatures, CachePolicy};
use crate::hex;
use crate::json::JsonView;
use crate::refusals;
use crate::text;
use crate::time;
use crate::time::Timestamp;

verus! {

/// A text names an endpoint: the method, a space and the path, and after them
/// nothing, a query or a remark.
pub open spec fn names_endpoint(v: Seq<char>, method: Seq<char>, path: Seq<char>) -> bool {
    let n = (method + " "@ + path).len() as int;
    &&& n <= v.len()
    &&& v.take(n) == method + " "@ + path
    &&& n == v.len() || v[n] == '?' || v[n] == ' '
}

/// The discovery document announces an endpoint under a name.
pub open spec fn announces(name: Seq<char>, method: Seq<char>, path: Seq<char>) -> bool {
    discovery::endpoints_doc().get(name) matches Some(JsonView::Str(v)) && names_endpoint(
        v,
        method,
        path,
    )
}

proof fn lemma_discovery()
    ensures
        names_endpoint("GET /"@, "GET"@, paths::ROOT@),
{
    reveal_strlit("GET /");
    reveal_strlit("GET");
    reveal_strlit(" ");
    reveal_strlit("/");
    assert("GET /"@.take(5) =~= "GET"@ + " "@ + paths::ROOT@);
}

proof fn lemma_health()
    ensures
        names_endpoint("GET /healthz"@, "GET"@, paths::HEALTHZ@),
{
    reveal_strlit("GET /healthz");
    reveal_strlit("GET");
    reveal_strlit(" ");
    reveal_strlit("/healthz");
    assert("GET /healthz"@.take(12) =~= "GET"@ + " "@ + paths::HEALTHZ@);
}

proof fn lemma_keyring()
    ensures
        names_endpoint("GET /keyring"@, "GET"@, paths::KEYRING@),
{
    reveal_strlit("GET /keyring");
    reveal_strlit("GET");
    reveal_strlit(" ");
    reveal_strlit("/keyring");
    assert("GET /keyring"@.take(12) =~= "GET"@ + " "@ + paths::KEYRING@);
}

proof fn lemma_trust_lists()
    ensures
        names_endpoint("GET /trust-lists?at=&jurisdiction=&framework="@, "GET"@, paths::TRUST_LISTS@),
{
    reveal_strlit("GET /trust-lists?at=&jurisdiction=&framework=");
    reveal_strlit("GET");
    reveal_strlit(" ");
    reveal_strlit("/trust-lists");
    assert("GET /trust-lists?at=&jurisdiction=&framework="@.take(16) =~= "GET"@ + " "@ + paths::TRUST_LISTS@);
}

proof fn lemma_trust_list_one()
    ensures
        names_endpoint("GET /trust-lists/{jur}?at="@, "GET"@, paths::TRUST_LIST_ONE@),
{
    reveal_strlit("GET /trust-lists/{jur}?at=");
    reveal_strlit("GET");
    reveal_strlit(" ");
    reveal_strlit("/trust-lists/{jur}");
    assert("GET /trust-lists/{jur}?at="@.take(22) =~= "GET"@ + " "@ + paths::TRUST_LIST_ONE@);
}

proof fn lemma_master_list()
    ensures
        names_endpoint("GET /master-list"@, "GET"@, paths::MASTER_LIST@),
{
    reveal_strlit("GET /master-list");
    reveal_strlit("GET");
    reveal_strlit(" ");
    reveal_strlit("/master-list");
    assert("GET /master-list"@.take(16) =~= "GET"@ + " "@ + paths::MASTER_LIST@);
}

proof fn lemma_revocations()
    ensures
        names_endpoint("GET /revocations?at=&known_by=&window=&subject=&retroactive="@, "GET"@, paths::REVOCATIONS@),
{
    reveal_strlit("GET /revocations?at=&known_by=&window=&subject=&retroactive=");
    reveal_strlit("GET");
    reveal_strlit(" ");
    reveal_strlit("/revocations");
    assert("GET /revocations?at=&known_by=&window=&subject=&retroactive="@.take(16) =~= "GET"@ + " "@ + paths::REVOCATIONS@);
}

proof fn lemma_operators()
    ensures
        names_endpoint("GET /operators/{node}?at= — the operator surface: identity (kind, keys), delegation position (edges with scopes), trust-list memberships with validity windows (not_before/superseded_at), master-list attestations, revocation standing"@, "GET"@, paths::OPERATOR@),
{
    reveal_strlit("GET /operators/{node}?at= — the operator surface: identity (kind, keys), delegation position (edges with scopes), trust-list memberships with validity windows (not_before/superseded_at), master-list attestations, revocation standing");
    reveal_strlit("GET");
    reveal_strlit(" ");
    reveal_strlit("/operators/{node}");
    assert("GET /operators/{node}?at= — the operator surface: identity (kind, keys), delegation position (edges with scopes), trust-list memberships with validity windows (not_before/superseded_at), master-list attestations, revocation standing"@.take(21) =~= "GET"@ + " "@ + paths::OPERATOR@);
}

proof fn lemma_evidence_catalogue()
    ensures
        names_endpoint("GET /evidence — metadata only (ids, content types, required scopes, sizes); content never listed"@, "GET"@, paths::EVIDENCE@),
{
    reveal_strlit("GET /evidence — metadata only (ids, content types, required scopes, sizes); content never listed");
    reveal_strlit("GET");
    reveal_strlit(" ");
    reveal_strlit("/evidence");
    assert("GET /evidence — metadata only (ids, content types, required scopes, sizes); content never listed"@.take(13) =~= "GET"@ + " "@ + paths::EVIDENCE@);
}

proof fn lemma_evidence_release()
    ensures
        names_endpoint("GET /evidence/{id}?scope= (or X-UniDPP-Scope; requester via ?requester= / X-UniDPP-Requester) — released bytes signed over; an unsatisfying scope is a stated 403 naming the required scope; every release journaled"@, "GET"@, paths::EVIDENCE_ONE@),
{
    reveal_strlit("GET /evidence/{id}?scope= (or X-UniDPP-Scope; requester via ?requester= / X-UniDPP-Requester) — released bytes signed over; an unsatisfying scope is a stated 403 naming the required scope; every release journaled");
    reveal_strlit("GET");
    reveal_strlit(" ");
    reveal_strlit("/evidence/{id}");
    assert("GET /evidence/{id}?scope= (or X-UniDPP-Scope; requester via ?requester= / X-UniDPP-Requester) — released bytes signed over; an unsatisfying scope is a stated 403 naming the required scope; every release journaled"@.take(18) =~= "GET"@ + " "@ + paths::EVIDENCE_ONE@);
}

proof fn lemma_graph()
    ensures
        names_endpoint("GET /graph"@, "GET"@, paths::GRAPH@),
{
    reveal_strlit("GET /graph");
    reveal_strlit("GET");
    reveal_strlit(" ");
    reveal_strlit("/graph");
    assert("GET /graph"@.take(10) =~= "GET"@ + " "@ + paths::GRAPH@);
}

proof fn lemma_anchor_bundle()
    ensures
        names_endpoint("GET /anchor-bundle?jurisdiction="@, "GET"@, paths::ANCHOR_BUNDLE@),
{
    reveal_strlit("GET /anchor-bundle?jurisdiction=");
    reveal_strlit("GET");
    reveal_strlit(" ");
    reveal_strlit("/anchor-bundle");
    assert("GET /anchor-bundle?jurisdiction="@.take(18) =~= "GET"@ + " "@ + paths::ANCHOR_BUNDLE@);
}

proof fn lemma_admin_log()
    ensures
        names_endpoint("GET /admin/log?limit=&offset="@, "GET"@, paths::ADMIN_LOG@),
{
    reveal_strlit("GET /admin/log?limit=&offset=");
    reveal_strlit("GET");
    reveal_strlit(" ");
    reveal_strlit("/admin/log");
    assert("GET /admin/log?limit=&offset="@.take(14) =~= "GET"@ + " "@ + paths::ADMIN_LOG@);
}

proof fn lemma_register_node()
    ensures
        names_endpoint("POST /nodes"@, "POST"@, paths::NODES@),
{
    reveal_strlit("POST /nodes");
    reveal_strlit("POST");
    reveal_strlit(" ");
    reveal_strlit("/nodes");
    assert("POST /nodes"@.take(11) =~= "POST"@ + " "@ + paths::NODES@);
}

proof fn lemma_add_edge()
    ensures
        names_endpoint("POST /edges"@, "POST"@, paths::EDGES@),
{
    reveal_strlit("POST /edges");
    reveal_strlit("POST");
    reveal_strlit(" ");
    reveal_strlit("/edges");
    assert("POST /edges"@.take(11) =~= "POST"@ + " "@ + paths::EDGES@);
}

proof fn lemma_register_trust_list()
    ensures
        names_endpoint("POST /trust-lists"@, "POST"@, paths::TRUST_LISTS@),
{
    reveal_strlit("POST /trust-lists");
    reveal_strlit("POST");
    reveal_strlit(" ");
    reveal_strlit("/trust-lists");
    assert("POST /trust-lists"@.take(17) =~= "POST"@ + " "@ + paths::TRUST_LISTS@);
}

proof fn lemma_upsert_trust_entry()
    ensures
        names_endpoint("POST /trust-lists/{jur}/entries"@, "POST"@, paths::TRUST_LIST_ENTRIES@),
{
    reveal_strlit("POST /trust-lists/{jur}/entries");
    reveal_strlit("POST");
    reveal_strlit(" ");
    reveal_strlit("/trust-lists/{jur}/entries");
    assert("POST /trust-lists/{jur}/entries"@.take(31) =~= "POST"@ + " "@ + paths::TRUST_LIST_ENTRIES@);
}

proof fn lemma_set_witnesses()
    ensures
        names_endpoint("POST /master-list/witnesses"@, "POST"@, paths::MASTER_LIST_WITNESSES@),
{
    reveal_strlit("POST /master-list/witnesses");
    reveal_strlit("POST");
    reveal_strlit(" ");
    reveal_strlit("/master-list/witnesses");
    assert("POST /master-list/witnesses"@.take(27) =~= "POST"@ + " "@ + paths::MASTER_LIST_WITNESSES@);
}

proof fn lemma_upsert_master_entry()
    ensures
        names_endpoint("POST /master-list/entries"@, "POST"@, paths::MASTER_LIST_ENTRIES@),
{
    reveal_strlit("POST /master-list/entries");
    reveal_strlit("POST");
    reveal_strlit(" ");
    reveal_strlit("/master-list/entries");
    assert("POST /master-list/entries"@.take(25) =~= "POST"@ + " "@ + paths::MASTER_LIST_ENTRIES@);
}

proof fn lemma_declare_revocation()
    ensures
        names_endpoint("POST /revocations"@, "POST"@, paths::REVOCATIONS@),
{
    reveal_strlit("POST /revocations");
    reveal_strlit("POST");
    reveal_strlit(" ");
    reveal_strlit("/revocations");
    assert("POST /revocations"@.take(17) =~= "POST"@ + " "@ + paths::REVOCATIONS@);
}

/// Each endpoint is announced under its name with the method and the path
/// that it is routed by: what reads is asked for with GET, and what changes
/// the store is sent with POST.
#[verifier::spinoff_prover]
pub proof fn law_announced_endpoints()
    ensures
        announces("discovery"@, "GET"@, paths::ROOT@),
        announces("health"@, "GET"@, paths::HEALTHZ@),
        announces("keyring"@, "GET"@, paths::KEYRING@),
        announces("trust_lists"@, "GET"@, paths::TRUST_LISTS@),
        announces("trust_list_one"@, "GET"@, paths::TRUST_LIST_ONE@),
        announces("master_list"@, "GET"@, paths::MASTER_LIST@),
        announces("revocations"@, "GET"@, paths::REVOCATIONS@),
        announces("operators"@, "GET"@, paths::OPERATOR@),
        announces("evidence_catalogue"@, "GET"@, paths::EVIDENCE@),
        announces("evidence_release"@, "GET"@, paths::EVIDENCE_ONE@),
        announces("graph"@, "GET"@, paths::GRAPH@),
        announces("anchor_bundle"@, "GET"@, paths::ANCHOR_BUNDLE@),
        announces("admin_log"@, "GET"@, paths::ADMIN_LOG@),
        announces("register_node"@, "POST"@, paths::NODES@),
        announces("add_edge"@, "POST"@, paths::EDGES@),
        announces("register_trust_list"@, "POST"@, paths::TRUST_LISTS@),
        announces("upsert_trust_entry"@, "POST"@, paths::TRUST_LIST_ENTRIES@),
        announces("set_witnesses"@, "POST"@, paths::MASTER_LIST_WITNESSES@),
        announces("upsert_master_entry"@, "POST"@, paths::MASTER_LIST_ENTRIES@),
        announces("declare_revocation"@, "POST"@, paths::REVOCATIONS@),
{
    reveal_strlit("discovery");
    reveal_strlit("health");
    reveal_strlit("keyring");
    reveal_strlit("trust_lists");
    reveal_strlit("trust_list_one");
    reveal_strlit("master_list");
    reveal_strlit("revocations");
    reveal_strlit("operators");
    reveal_strlit("evidence_catalogue");
    reveal_strlit("evidence_release");
    reveal_strlit("graph");
    reveal_strlit("anchor_bundle");
    reveal_strlit("admin_log");
    reveal_strlit("register_node");
    reveal_strlit("add_edge");
    reveal_strlit("register_trust_list");
    reveal_strlit("upsert_trust_entry");
    reveal_strlit("set_witnesses");
    reveal_strlit("upsert_master_entry");
    reveal_strlit("declare_revocation");
    assert("discovery"@.len() == 9 && "discovery"@[0] == 'd');
    assert("operators"@.len() == 9 && "operators"@[0] == 'o');
    assert("admin_log"@.len() == 9 && "admin_log"@[0] == 'a');
    assert("health"@.len() == 6);
    assert("keyring"@.len() == 7);
    assert("trust_lists"@.len() == 11 && "trust_lists"@[0] == 't');
    assert("master_list"@.len() == 11 && "master_list"@[0] == 'm');
    assert("revocations"@.len() == 11 && "revocations"@[0] == 'r');
    assert("trust_list_one"@.len() == 14);
    assert("evidence_catalogue"@.len() == 18 && "evidence_catalogue"@[0] == 'e');
    assert("upsert_trust_entry"@.len() == 18 && "upsert_trust_entry"@[0] == 'u');
    assert("declare_revocation"@.len() == 18 && "declare_revocation"@[0] == 'd');
    assert("evidence_release"@.len() == 16);
    assert("graph"@.len() == 5);
    assert("anchor_bundle"@.len() == 13 && "anchor_bundle"@[0] == 'a');
    assert("register_node"@.len() == 13 && "register_node"@[0] == 'r');
    assert("set_witnesses"@.len() == 13 && "set_witnesses"@[0] == 's');
    assert("add_edge"@.len() == 8);
    assert("register_trust_list"@.len() == 19 && "register_trust_list"@[0] == 'r');
    assert("upsert_master_entry"@.len() == 19 && "upsert_master_entry"@[0] == 'u');
    lemma_discovery();
    lemma_health();
    lemma_keyring();
    lemma_trust_lists();
    lemma_trust_list_one();
    lemma_master_list();
    lemma_revocations();
    lemma_operators();
    lemma_evidence_catalogue();
    lemma_evidence_release();
    lemma_graph();
    lemma_anchor_bundle();
    lemma_admin_log();
    lemma_register_node();
    lemma_add_edge();
    lemma_register_trust_list();
    lemma_upsert_trust_entry();
    lemma_set_witnesses();
    lemma_upsert_master_entry();
    lemma_declare_revocation();
}

/// The headers that the discovery document names are those that a signed
/// reply carries its signatures in.
#[verifier::spinoff_prover]
pub proof fn law_announced_headers(as_of: Timestamp, cache: CachePolicy, s: BodySignatures)
    ensures
        ({
            let h = api::reply_headers(as_of, cache, s);
            let d = discovery::signature_header_names_doc();
            &&& d.get("as_of"@) matches Some(JsonView::Str(n)) && h.contains(
                (n, time::stamp(as_of.secs as int)),
            )
            &&& d.get("domain"@) matches Some(JsonView::Str(n)) && h.contains((n, "tree-head"@))
            &&& d.get("ed25519_signature"@) matches Some(JsonView::Str(n)) && h.contains(
                (n, hex::hex_text(s.ed25519@)),
            )
            &&& d.get("ed25519_key_id"@) matches Some(JsonView::Str(n)) && h.contains(
                (n, s.ed25519_key_id@),
            )
            &&& d.get("ecdsa_p256_signature"@) matches Some(JsonView::Str(n)) && h.contains(
                (n, hex::hex_text(s.p256@)),
            )
            &&& d.get("ecdsa_p256_key_id"@) matches Some(JsonView::Str(n)) && h.contains(
                (n, s.p256_key_id@),
            )
            &&& d.get("cache_control"@) matches Some(JsonView::Str(n)) && h.contains(
                (n, cache.spec_header_value()),
            )
            &&& discovery::signing_doc().get("headers"@) == Some(d)
            &&& discovery::signing_doc().get("keyring_endpoint"@) == Some(
                JsonView::Str(paths::KEYRING@),
            )
        }),
{
    reveal_strlit("as_of");
    reveal_strlit("domain");
    reveal_strlit("ed25519_signature");
    reveal_strlit("ed25519_key_id");
    reveal_strlit("ecdsa_p256_signature");
    reveal_strlit("ecdsa_p256_key_id");
    reveal_strlit("etag");
    reveal_strlit("cache_control");
    reveal_strlit("adapter_note");
    reveal_strlit("suites");
    reveal_strlit("headers");
    reveal_strlit("keyring_endpoint");
    assert("as_of"@.len() == 5);
    assert("domain"@.len() == 6 && "domain"@[0] == 'd');
    assert("suites"@.len() == 6 && "suites"@[0] == 's');
    assert("ed25519_signature"@.len() == 17 && "ed25519_signature"@[1] == 'd');
    assert("ecdsa_p256_key_id"@.len() == 17 && "ecdsa_p256_key_id"@[1] == 'c');
    assert("ed25519_key_id"@.len() == 14);
    assert("ecdsa_p256_signature"@.len() == 20);
    assert("etag"@.len() == 4);
    assert("cache_control"@.len() == 13);
    assert("adapter_note"@.len() == 12);
    assert("headers"@.len() == 7);
    assert("keyring_endpoint"@.len() == 16);
    let h = api::reply_headers(as_of, cache, s);
    assert(h[1] == ("x-as-of"@, time::stamp(as_of.secs as int)));
    assert(h[2] == ("x-sig-domain"@, "tree-head"@));
    assert(h[3] == ("x-sig-ed25519"@, hex::hex_text(s.ed25519@)));
    assert(h[4] == ("x-sig-key-id-ed25519"@, s.ed25519_key_id@));
    assert(h[5] == ("x-sig-ecdsa-p256"@, hex::hex_text(s.p256@)));
    assert(h[6] == ("x-sig-key-id-ecdsa-p256"@, s.p256_key_id@));
    assert(h[8] == ("cache-control"@, cache.spec_header_value()));
}

/// What is read at a named instant may be kept for good, what is read now
/// only for a while, and what is not to be kept says so; the policy of a
/// named instant is the one that the discovery document announces.
pub proof fn law_announced_cache_policies()
    ensures
        refusals::holds(CachePolicy::PointInTime.spec_header_value(), "immutable"@),
        refusals::holds(CachePolicy::Current.spec_header_value(), "must-revalidate"@),
        CachePolicy::NoStore.spec_header_value() == "no-store"@,
        discovery::as_of_conventions_doc().get("point_in_time_cache"@) matches Some(JsonView::Str(t))
            && refusals::holds(t, CachePolicy::PointInTime.spec_header_value()),
{
    reveal_strlit("query_parameter");
    reveal_strlit("response_header");
    reveal_strlit("point_in_time_cache");
    assert("query_parameter"@.len() == 15 && "query_parameter"@[0] == 'q');
    assert("response_header"@.len() == 15 && "response_header"@[0] == 'r');
    assert("point_in_time_cache"@.len() == 19);
    reveal_strlit("immutable");
    reveal_strlit("public, max-age=86400, immutable");
    reveal_strlit("must-revalidate");
    reveal_strlit("public, max-age=30, must-revalidate");
    reveal_strlit("responses to ?at=... carry cache-control: public, max-age=86400, immutable");
    assert("public, max-age=86400, immutable"@.subrange(23, 32) =~= "immutable"@);
    assert(text::stands_at("public, max-age=86400, immutable"@, "immutable"@, 23));
    assert("public, max-age=30, must-revalidate"@.subrange(20, 35) =~= "must-revalidate"@);
    assert(text::stands_at("public, max-age=30, must-revalidate"@, "must-revalidate"@, 20));
    let t = "responses to ?at=... carry cache-control: public, max-age=86400, immutable"@;
    assert(t.subrange(42, 74) =~= "public, max-age=86400, immutable"@);
    assert(text::stands_at(t, "public, max-age=86400, immutable"@, 42));
}

/// The variables that the service is configured by are told, each once, and
/// the one that the discovery document gives to switch the fixtures off does
/// so.
pub proof fn law_announced_variables(vars: Map<Seq<char>, Seq<char>>)
    ensures
        ({
            let k = api::env_key_names();
            &&& k.len() == 7
            &&& k.contains("UNIDPP_TRUST_BIND"@) && k.contains("UNIDPP_TRUST_ADMIN_TOKEN"@)
            &&& k.contains("UNIDPP_TRUST_STATE_FILE"@) && k.contains(
                "UNIDPP_TRUST_NO_SEED_FIXTURES"@,
            )
            &&& k.contains("UNIDPP_TRUST_DEV_SEED"@) && k.contains("UNIDPP_TRUST_SIGN_SEED"@)
            &&& k.contains("UNIDPP_TRUST_SIGN_SEED_P256"@)
        }),
        forall|seeded: bool|
            #[trigger] discovery::seed_fixtures_doc(seeded).get("disable_via"@) == Some(
                JsonView::Str("UNIDPP_TRUST_NO_SEED_FIXTURES"@ + "="@ + "1"@),
            ),
        vars.dom().contains("UNIDPP_TRUST_NO_SEED_FIXTURES"@)
            && vars["UNIDPP_TRUST_NO_SEED_FIXTURES"@] == "1"@ ==> !api::config_of(
            vars,
            true,
        ).seed_fixtures && !api::config_of(vars, false).seed_fixtures,
{
    let k = api::env_key_names();
    assert(k[0] == "UNIDPP_TRUST_BIND"@ && k[1] == "UNIDPP_TRUST_ADMIN_TOKEN"@);
    assert(k[2] == "UNIDPP_TRUST_STATE_FILE"@ && k[3] == "UNIDPP_TRUST_NO_SEED_FIXTURES"@);
    assert(k[4] == "UNIDPP_TRUST_DEV_SEED"@ && k[5] == "UNIDPP_TRUST_SIGN_SEED"@);
    assert(k[6] == "UNIDPP_TRUST_SIGN_SEED_P256"@);
    reveal_strlit("UNIDPP_TRUST_NO_SEED_FIXTURES=1");
    reveal_strlit("UNIDPP_TRUST_NO_SEED_FIXTURES");
    reveal_strlit("=");
    reveal_strlit("1");
    assert("UNIDPP_TRUST_NO_SEED_FIXTURES=1"@ =~= "UNIDPP_TRUST_NO_SEED_FIXTURES"@ + "="@ + "1"@);
    reveal_strlit("source");
    reveal_strlit("enabled_by_default");
    reveal_strlit("disable_via");
    assert("source"@.len() == 6);
    assert("enabled_by_default"@.len() == 18);
    assert("disable_via"@.len() == 11);
}

} // verus!
