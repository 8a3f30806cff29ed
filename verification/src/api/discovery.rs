//! Discovery, health and the public keyring.

use vstd::prelude::*;

use crate::api::paths;
use crate::api::reads;
use crate::api::reads::{prospective_reason_list, retroactive_reason_list};
use crate::api::references;
use crate::api::references::names_only_routes;
use crate::api::{CachePolicy, Reply, ReplyView};
use crate::data;
use crate::json::{Json, JsonView};
use crate::seed::FIXTURE_SOURCE;
use crate::time::Timestamp;
use crate::wire;
use crate::wire::{render_strings, ts_string};

verus! {

broadcast use {data::lemma_deep_push, data::lemma_deep_bytes, data::lemma_deep_len};

/// The suites that every response is signed in.
pub open spec fn suites() -> Seq<Seq<char>> {
    seq!["ed25519"@, "ecdsa-p256"@]
}

fn render_suites() -> (r: Json)
    ensures
        r@ == JsonView::Arr(wire::strings(suites())),
{
    let mut v: Vec<String> = Vec::new();
    v.push("ed25519".to_owned());
    v.push("ecdsa-p256".to_owned());
    assert(v.deep_view() =~= suites());
    render_strings(&v)
}

/// The headers that carry the signatures.
pub open spec fn signature_header_names_doc() -> JsonView {
    JsonView::object().put(
        "as_of"@,
        JsonView::Str("x-as-of"@),
    ).put(
        "domain"@,
        JsonView::Str("x-sig-domain"@),
    ).put(
        "ed25519_signature"@,
        JsonView::Str("x-sig-ed25519"@),
    ).put(
        "ed25519_key_id"@,
        JsonView::Str("x-sig-key-id-ed25519"@),
    ).put(
        "ecdsa_p256_signature"@,
        JsonView::Str("x-sig-ecdsa-p256"@),
    ).put(
        "ecdsa_p256_key_id"@,
        JsonView::Str("x-sig-key-id-ecdsa-p256"@),
    ).put(
        "etag"@,
        JsonView::Str("etag"@),
    ).put(
        "cache_control"@,
        JsonView::Str("cache-control"@),
    )
}

fn render_signature_header_names() -> (r: Json)
    ensures
        r@ == signature_header_names_doc(),
{
    Json::object().with(
        "as_of",
        Json::text("x-as-of"),
    ).with(
        "domain",
        Json::text("x-sig-domain"),
    ).with(
        "ed25519_signature",
        Json::text("x-sig-ed25519"),
    ).with(
        "ed25519_key_id",
        Json::text("x-sig-key-id-ed25519"),
    ).with(
        "ecdsa_p256_signature",
        Json::text("x-sig-ecdsa-p256"),
    ).with(
        "ecdsa_p256_key_id",
        Json::text("x-sig-key-id-ecdsa-p256"),
    ).with(
        "etag",
        Json::text("etag"),
    ).with(
        "cache_control",
        Json::text("cache-control"),
    )
}

/// The signing posture.
pub open spec fn signing_doc() -> JsonView {
    JsonView::object().put(
        "domain"@,
        JsonView::Str("tree-head"@),
    ).put(
        "adapter_note"@,
        JsonView::Str("SIGNATIF has no service-response domain; tree-head (operator's signed statement of state, used for transparency-log signed tree heads) is the closest documented adaptation. Signatures cover the exact body bytes."@),
    ).put(
        "suites"@,
        JsonView::Arr(wire::strings(suites())),
    ).put(
        "headers"@,
        signature_header_names_doc(),
    ).put(
        "keyring_endpoint"@,
        JsonView::Str("/keyring"@),
    )
}

fn render_signing() -> (r: Json)
    ensures
        r@ == signing_doc(),
{
    Json::object().with(
        "domain",
        Json::text("tree-head"),
    ).with(
        "adapter_note",
        Json::text("SIGNATIF has no service-response domain; tree-head (operator's signed statement of state, used for transparency-log signed tree heads) is the closest documented adaptation. Signatures cover the exact body bytes."),
    ).with(
        "suites",
        render_suites(),
    ).with(
        "headers",
        render_signature_header_names(),
    ).with(
        "keyring_endpoint",
        Json::text("/keyring"),
    )
}

/// The endpoint table.
pub open spec fn endpoints_doc() -> JsonView {
    JsonView::object().put(
        "discovery"@,
        JsonView::Str("GET /"@),
    ).put(
        "health"@,
        JsonView::Str("GET /healthz"@),
    ).put(
        "keyring"@,
        JsonView::Str("GET /keyring"@),
    ).put(
        "trust_lists"@,
        JsonView::Str("GET /trust-lists?at=&jurisdiction=&framework="@),
    ).put(
        "trust_list_one"@,
        JsonView::Str("GET /trust-lists/{jur}?at="@),
    ).put(
        "master_list"@,
        JsonView::Str("GET /master-list"@),
    ).put(
        "revocations"@,
        JsonView::Str("GET /revocations?at=&known_by=&window=&subject=&retroactive="@),
    ).put(
        "operators"@,
        JsonView::Str("GET /operators/{node}?at= — the operator surface: identity (kind, keys), delegation position (edges with scopes), trust-list memberships with validity windows (not_before/superseded_at), master-list attestations, revocation standing"@),
    ).put(
        "evidence_catalogue"@,
        JsonView::Str("GET /evidence — metadata only (ids, content types, required scopes, sizes); content never listed"@),
    ).put(
        "evidence_release"@,
        JsonView::Str("GET /evidence/{id}?scope= (or X-UniDPP-Scope; requester via ?requester= / X-UniDPP-Requester) — released bytes signed over; an unsatisfying scope is a stated 403 naming the required scope; every release journaled"@),
    ).put(
        "graph"@,
        JsonView::Str("GET /graph"@),
    ).put(
        "anchor_bundle"@,
        JsonView::Str("GET /anchor-bundle?jurisdiction="@),
    ).put(
        "admin_log"@,
        JsonView::Str("GET /admin/log?limit=&offset="@),
    ).put(
        "register_node"@,
        JsonView::Str("POST /nodes"@),
    ).put(
        "add_edge"@,
        JsonView::Str("POST /edges"@),
    ).put(
        "register_trust_list"@,
        JsonView::Str("POST /trust-lists"@),
    ).put(
        "upsert_trust_entry"@,
        JsonView::Str("POST /trust-lists/{jur}/entries"@),
    ).put(
        "set_witnesses"@,
        JsonView::Str("POST /master-list/witnesses"@),
    ).put(
        "upsert_master_entry"@,
        JsonView::Str("POST /master-list/entries"@),
    ).put(
        "declare_revocation"@,
        JsonView::Str("POST /revocations"@),
    )
}

fn render_endpoints() -> (r: Json)
    ensures
        r@ == endpoints_doc(),
{
    Json::object().with(
        "discovery",
        Json::text("GET /"),
    ).with(
        "health",
        Json::text("GET /healthz"),
    ).with(
        "keyring",
        Json::text("GET /keyring"),
    ).with(
        "trust_lists",
        Json::text("GET /trust-lists?at=&jurisdiction=&framework="),
    ).with(
        "trust_list_one",
        Json::text("GET /trust-lists/{jur}?at="),
    ).with(
        "master_list",
        Json::text("GET /master-list"),
    ).with(
        "revocations",
        Json::text("GET /revocations?at=&known_by=&window=&subject=&retroactive="),
    ).with(
        "operators",
        Json::text("GET /operators/{node}?at= — the operator surface: identity (kind, keys), delegation position (edges with scopes), trust-list memberships with validity windows (not_before/superseded_at), master-list attestations, revocation standing"),
    ).with(
        "evidence_catalogue",
        Json::text("GET /evidence — metadata only (ids, content types, required scopes, sizes); content never listed"),
    ).with(
        "evidence_release",
        Json::text("GET /evidence/{id}?scope= (or X-UniDPP-Scope; requester via ?requester= / X-UniDPP-Requester) — released bytes signed over; an unsatisfying scope is a stated 403 naming the required scope; every release journaled"),
    ).with(
        "graph",
        Json::text("GET /graph"),
    ).with(
        "anchor_bundle",
        Json::text("GET /anchor-bundle?jurisdiction="),
    ).with(
        "admin_log",
        Json::text("GET /admin/log?limit=&offset="),
    ).with(
        "register_node",
        Json::text("POST /nodes"),
    ).with(
        "add_edge",
        Json::text("POST /edges"),
    ).with(
        "register_trust_list",
        Json::text("POST /trust-lists"),
    ).with(
        "upsert_trust_entry",
        Json::text("POST /trust-lists/{jur}/entries"),
    ).with(
        "set_witnesses",
        Json::text("POST /master-list/witnesses"),
    ).with(
        "upsert_master_entry",
        Json::text("POST /master-list/entries"),
    ).with(
        "declare_revocation",
        Json::text("POST /revocations"),
    )
}

/// The revocation semantics.
pub open spec fn semantics_doc() -> JsonView {
    JsonView::object().put(
        "prospective_reasons"@,
        JsonView::Arr(wire::strings(reads::prospective_reasons())),
    ).put(
        "retroactive_reasons"@,
        JsonView::Arr(wire::strings(reads::retroactive_reasons())),
    ).put(
        "rule"@,
        JsonView::Str("Prospective reasons keep prior as-of verifications valid (timestamping protects, like code signing). Retroactive reasons (misissuance, fraud, authority-compromised) void ab initio within the explicit distrust window [start, end] and re-validate outside it. Both readings are visible per-declaration in the response via `known_at_cutoff` and `voids_at_as_of`."@),
    )
}

fn render_semantics() -> (r: Json)
    ensures
        r@ == semantics_doc(),
{
    Json::object().with(
        "prospective_reasons",
        prospective_reason_list(),
    ).with(
        "retroactive_reasons",
        retroactive_reason_list(),
    ).with(
        "rule",
        Json::text("Prospective reasons keep prior as-of verifications valid (timestamping protects, like code signing). Retroactive reasons (misissuance, fraud, authority-compromised) void ab initio within the explicit distrust window [start, end] and re-validate outside it. Both readings are visible per-declaration in the response via `known_at_cutoff` and `voids_at_as_of`."),
    )
}

/// The as-of conventions.
pub open spec fn as_of_conventions_doc() -> JsonView {
    JsonView::object().put(
        "query_parameter"@,
        JsonView::Str("at (alias: asof)"@),
    ).put(
        "response_header"@,
        JsonView::Str("x-as-of"@),
    ).put(
        "point_in_time_cache"@,
        JsonView::Str("responses to ?at=... carry cache-control: public, max-age=86400, immutable"@),
    )
}

fn render_as_of_conventions() -> (r: Json)
    ensures
        r@ == as_of_conventions_doc(),
{
    Json::object().with(
        "query_parameter",
        Json::text("at (alias: asof)"),
    ).with(
        "response_header",
        Json::text("x-as-of"),
    ).with(
        "point_in_time_cache",
        Json::text("responses to ?at=... carry cache-control: public, max-age=86400, immutable"),
    )
}

/// The provenance of the seed fixtures.
pub open spec fn seed_fixtures_doc(seeded: bool) -> JsonView {
    JsonView::object().put("source"@, JsonView::Str(FIXTURE_SOURCE@)).put(
        "enabled_by_default"@,
        JsonView::Bool(seeded),
    ).put("disable_via"@, JsonView::Str("UNIDPP_TRUST_NO_SEED_FIXTURES=1"@))
}

fn render_seed_fixtures(seeded: bool) -> (r: Json)
    ensures
        r@ == seed_fixtures_doc(seeded),
{
    Json::object().with("source", Json::text(FIXTURE_SOURCE)).with(
        "enabled_by_default",
        Json::Bool(seeded),
    ).with("disable_via", Json::text("UNIDPP_TRUST_NO_SEED_FIXTURES=1"))
}

/// The discovery document: the service identity, the signing posture, the
/// endpoint table, the revocation semantics, the as-of conventions, the
/// provenance of the seed fixtures and the authentication rule.
pub open spec fn discovery_doc(version: Seq<char>, build_id: Seq<char>, seeded: bool) -> JsonView {
    JsonView::object().put(
        "service"@,
        JsonView::Str("unidpp-trust"@),
    ).put(
        "version"@,
        JsonView::Str(version),
    ).put(
        "build_id"@,
        JsonView::Str(build_id),
    ).put(
        "description"@,
        JsonView::Str("UniDPP trust-list service: jurisdiction trust lists per framework, M-of-K multi-witness master list, live reason-to-retroactivity revocations. All responses signed in the tree-head domain."@),
    ).put(
        "signing"@,
        signing_doc(),
    ).put(
        "endpoints"@,
        endpoints_doc(),
    ).put(
        "revocation_semantics"@,
        semantics_doc(),
    ).put(
        "as_of"@,
        as_of_conventions_doc(),
    ).put(
        "seed_fixtures"@,
        seed_fixtures_doc(seeded),
    ).put(
        "auth"@,
        JsonView::Str("mutations and /admin/log require a Bearer token when UNIDPP_TRUST_ADMIN_TOKEN is set"@),
    )
}

/// Serve the discovery document; `seeded` says whether fixtures are seeded
/// into an empty store.
pub fn discovery(version: &str, build_id: &str, seeded: bool, now: Timestamp) -> (r: Reply)
    ensures
        r@ == (ReplyView {
            status: 200,
            doc: discovery_doc(version@, build_id@, seeded),
            as_of: now,
            cache: CachePolicy::Current,
        }),
{
    let doc = Json::object().with(
        "service",
        Json::text("unidpp-trust"),
    ).with(
        "version",
        Json::text(version),
    ).with(
        "build_id",
        Json::text(build_id),
    ).with(
        "description",
        Json::text("UniDPP trust-list service: jurisdiction trust lists per framework, M-of-K multi-witness master list, live reason-to-retroactivity revocations. All responses signed in the tree-head domain."),
    ).with(
        "signing",
        render_signing(),
    ).with(
        "endpoints",
        render_endpoints(),
    ).with(
        "revocation_semantics",
        render_semantics(),
    ).with(
        "as_of",
        render_as_of_conventions(),
    ).with(
        "seed_fixtures",
        render_seed_fixtures(seeded),
    ).with(
        "auth",
        Json::text("mutations and /admin/log require a Bearer token when UNIDPP_TRUST_ADMIN_TOKEN is set"),
    );
    Reply { status: 200, doc, as_of: now, cache: CachePolicy::Current }
}

/// The status of a service that is serving.
pub open spec fn health_doc(now: Timestamp) -> JsonView {
    JsonView::object().put("status"@, JsonView::Str("ok"@)).put(
        "service"@,
        JsonView::Str("unidpp-trust"@),
    ).put("as_of"@, JsonView::Str(wire::ts_text(now)))
}

/// Liveness probe.
pub fn healthz(now: Timestamp) -> (r: Reply)
    ensures
        r@ == (ReplyView {
            status: 200,
            doc: health_doc(now),
            as_of: now,
            cache: CachePolicy::Current,
        }),
{
    let doc = Json::object().with("status", Json::text("ok")).with(
        "service",
        Json::text("unidpp-trust"),
    ).with("as_of", Json::Str(ts_string(&now)));
    Reply { status: 200, doc, as_of: now, cache: CachePolicy::Current }
}

/// Serve the public keyring: its document, stamped where it is an object.
pub fn keyring(doc: Json, now: Timestamp) -> (r: Reply)
    ensures
        r@ == (ReplyView {
            status: 200,
            doc: doc@.put("as_of"@, JsonView::Str(wire::ts_text(now))),
            as_of: now,
            cache: CachePolicy::PointInTime,
        }),
{
    let doc = doc.with("as_of", Json::Str(ts_string(&now)));
    Reply { status: 200, doc, as_of: now, cache: CachePolicy::PointInTime }
}

// ---------------------------------------------------------------------------
// Laws
// ---------------------------------------------------------------------------

/// The text names a method and a routed path; what may follow is a query or
/// a remark.
pub open spec fn names_route(v: Seq<char>) -> bool {
    exists|method: Seq<char>, path: Seq<char>, rest: Seq<char>|
        #![trigger method + " "@ + path + rest]
        {
            &&& v == method + " "@ + path + rest
            &&& method == "GET"@ || method == "POST"@
            &&& paths::is_routed(path)
            &&& rest.len() == 0 || rest[0] == '?' || rest[0] == ' '
        }
}

proof fn lemma_route(v: Seq<char>, method: Seq<char>, path: Seq<char>)
    requires
        method == "GET"@ || method == "POST"@,
        paths::is_routed(path),
        ({
            let n = (method + " "@ + path).len() as int;
            &&& n <= v.len()
            &&& v.take(n) == method + " "@ + path
            &&& n == v.len() || v[n] == '?' || v[n] == ' '
        }),
    ensures
        names_route(v),
{
    let n = (method + " "@ + path).len() as int;
    let rest = v.skip(n);
    assert(v =~= method + " "@ + path + rest);
}

/// Every endpoint that the discovery document names is routed.
pub proof fn law_named_endpoints_are_routed(name: Seq<char>)
    ensures
        endpoints_doc().get(name) matches Some(d) ==> (d matches JsonView::Str(v) && names_route(v)),
{
    lemma_route_1();
    lemma_route_2();
    lemma_route_3();
    lemma_route_4();
    lemma_route_5();
    lemma_route_6();
    lemma_route_7();
    lemma_route_8();
    lemma_route_9();
    lemma_route_10();
    lemma_route_11();
    lemma_route_12();
    lemma_route_13();
    lemma_route_14();
    lemma_route_15();
    lemma_route_16();
    lemma_route_17();
    lemma_route_18();
    lemma_route_19();
    lemma_route_20();
}

/// Every reference to an endpoint anywhere in the discovery document, in the
/// names of its members too, names a routed path. (The version and the build
/// id are stated from outside; they have to name no other.)
pub proof fn law_discovery_names_only_routes(version: Seq<char>, build_id: Seq<char>, seeded: bool)
    requires
        names_only_routes(version),
        names_only_routes(build_id),
    ensures
        references::only_routes(discovery_doc(version, build_id, seeded), 3),
{
    broadcast use references::lemma_put;

    lemma_short_texts();
    lemma_remarks();
    lemma_signing_refers();
    lemma_endpoints_refer();
    lemma_semantics_refer();
    assert(references::only_routes(as_of_conventions_doc(), 2));
    assert(references::only_routes(seed_fixtures_doc(seeded), 2));
}

proof fn lemma_signing_refers()
    ensures
        references::only_routes(signing_doc(), 2),
{
    broadcast use references::lemma_put;

    lemma_short_texts();
    lemma_remarks();
    assert(references::only_routes(signature_header_names_doc(), 1));
    references::lemma_strings(suites());
}

proof fn lemma_endpoints_refer()
    ensures
        references::only_routes(endpoints_doc(), 2),
{
    broadcast use references::lemma_put;

    lemma_short_texts();
    lemma_route_1();
    lemma_route_2();
    lemma_route_3();
    lemma_route_4();
    lemma_route_5();
    lemma_route_6();
    lemma_route_7();
    lemma_route_8();
    lemma_route_9();
    lemma_route_10();
    lemma_route_11();
    lemma_route_12();
    lemma_route_13();
    lemma_route_14();
    lemma_route_15();
    lemma_route_16();
    lemma_route_17();
    lemma_route_18();
    lemma_route_19();
    lemma_route_20();
}

proof fn lemma_semantics_refer()
    ensures
        references::only_routes(semantics_doc(), 2),
{
    broadcast use references::lemma_put;

    lemma_short_texts();
    lemma_remarks();
    references::lemma_strings(reads::prospective_reasons());
    references::lemma_strings(reads::retroactive_reasons());
}

proof fn lemma_route_1()
    ensures
        names_route("GET /"@),
        names_only_routes("GET /"@),
{
    reveal_strlit("GET /");
    reveal_strlit("GET");
    reveal_strlit(" ");
    reveal_strlit("/");
    let v = "GET /"@;
    assert(v.take(5) =~= "GET"@ + " "@ + paths::ROOT@);
    lemma_route(v, "GET"@, paths::ROOT@);
    reveal_with_fuel(references::path_end, 3);
    reveal_with_fuel(references::quiet, 2);
    assert(v.subrange(4, 5) =~= paths::ROOT@);
    references::lemma_refers_once(v, 3, paths::ROOT@);
}

proof fn lemma_route_2()
    ensures
        names_route("GET /healthz"@),
        names_only_routes("GET /healthz"@),
{
    reveal_strlit("GET /healthz");
    reveal_strlit("GET");
    reveal_strlit(" ");
    reveal_strlit("/healthz");
    let v = "GET /healthz"@;
    assert(v.take(12) =~= "GET"@ + " "@ + paths::HEALTHZ@);
    lemma_route(v, "GET"@, paths::HEALTHZ@);
    reveal_with_fuel(references::path_end, 10);
    reveal_with_fuel(references::quiet, 9);
    assert(v.subrange(4, 12) =~= paths::HEALTHZ@);
    references::lemma_refers_once(v, 3, paths::HEALTHZ@);
}

proof fn lemma_route_3()
    ensures
        names_route("GET /keyring"@),
        names_only_routes("GET /keyring"@),
{
    reveal_strlit("GET /keyring");
    reveal_strlit("GET");
    reveal_strlit(" ");
    reveal_strlit("/keyring");
    let v = "GET /keyring"@;
    assert(v.take(12) =~= "GET"@ + " "@ + paths::KEYRING@);
    lemma_route(v, "GET"@, paths::KEYRING@);
    reveal_with_fuel(references::path_end, 10);
    reveal_with_fuel(references::quiet, 9);
    assert(v.subrange(4, 12) =~= paths::KEYRING@);
    references::lemma_refers_once(v, 3, paths::KEYRING@);
}

proof fn lemma_route_4()
    ensures
        names_route("GET /trust-lists?at=&jurisdiction=&framework="@),
        names_only_routes("GET /trust-lists?at=&jurisdiction=&framework="@),
{
    reveal_strlit("GET /trust-lists?at=&jurisdiction=&framework=");
    reveal_strlit("GET");
    reveal_strlit(" ");
    reveal_strlit("/trust-lists");
    let v = "GET /trust-lists?at=&jurisdiction=&framework="@;
    assert(v.take(16) =~= "GET"@ + " "@ + paths::TRUST_LISTS@);
    lemma_route(v, "GET"@, paths::TRUST_LISTS@);
    reveal_with_fuel(references::path_end, 14);
    reveal_with_fuel(references::quiet, 42);
    assert(v.subrange(4, 16) =~= paths::TRUST_LISTS@);
    references::lemma_refers_once(v, 3, paths::TRUST_LISTS@);
}

proof fn lemma_route_5()
    ensures
        names_route("GET /trust-lists/{jur}?at="@),
        names_only_routes("GET /trust-lists/{jur}?at="@),
{
    reveal_strlit("GET /trust-lists/{jur}?at=");
    reveal_strlit("GET");
    reveal_strlit(" ");
    reveal_strlit("/trust-lists/{jur}");
    let v = "GET /trust-lists/{jur}?at="@;
    assert(v.take(22) =~= "GET"@ + " "@ + paths::TRUST_LIST_ONE@);
    lemma_route(v, "GET"@, paths::TRUST_LIST_ONE@);
    reveal_with_fuel(references::path_end, 20);
    reveal_with_fuel(references::quiet, 23);
    assert(v.subrange(4, 22) =~= paths::TRUST_LIST_ONE@);
    references::lemma_refers_once(v, 3, paths::TRUST_LIST_ONE@);
}

proof fn lemma_route_6()
    ensures
        names_route("GET /master-list"@),
        names_only_routes("GET /master-list"@),
{
    reveal_strlit("GET /master-list");
    reveal_strlit("GET");
    reveal_strlit(" ");
    reveal_strlit("/master-list");
    let v = "GET /master-list"@;
    assert(v.take(16) =~= "GET"@ + " "@ + paths::MASTER_LIST@);
    lemma_route(v, "GET"@, paths::MASTER_LIST@);
    reveal_with_fuel(references::path_end, 14);
    reveal_with_fuel(references::quiet, 13);
    assert(v.subrange(4, 16) =~= paths::MASTER_LIST@);
    references::lemma_refers_once(v, 3, paths::MASTER_LIST@);
}

proof fn lemma_route_7()
    ensures
        names_route("GET /revocations?at=&known_by=&window=&subject=&retroactive="@),
        names_only_routes("GET /revocations?at=&known_by=&window=&subject=&retroactive="@),
{
    reveal_strlit("GET /revocations?at=&known_by=&window=&subject=&retroactive=");
    reveal_strlit("GET");
    reveal_strlit(" ");
    reveal_strlit("/revocations");
    let v = "GET /revocations?at=&known_by=&window=&subject=&retroactive="@;
    assert(v.take(16) =~= "GET"@ + " "@ + paths::REVOCATIONS@);
    lemma_route(v, "GET"@, paths::REVOCATIONS@);
    reveal_with_fuel(references::path_end, 14);
    reveal_with_fuel(references::quiet, 57);
    assert(v.subrange(4, 16) =~= paths::REVOCATIONS@);
    references::lemma_refers_once(v, 3, paths::REVOCATIONS@);
}

proof fn lemma_route_8()
    ensures
        names_route("GET /operators/{node}?at= — the operator surface: identity (kind, keys), delegation position (edges with scopes), trust-list memberships with validity windows (not_before/superseded_at), master-list attestations, revocation standing"@),
        names_only_routes("GET /operators/{node}?at= — the operator surface: identity (kind, keys), delegation position (edges with scopes), trust-list memberships with validity windows (not_before/superseded_at), master-list attestations, revocation standing"@),
{
    reveal_strlit("GET /operators/{node}?at= — the operator surface: identity (kind, keys), delegation position (edges with scopes), trust-list memberships with validity windows (not_before/superseded_at), master-list attestations, revocation standing");
    reveal_strlit("GET");
    reveal_strlit(" ");
    reveal_strlit("/operators/{node}");
    let v = "GET /operators/{node}?at= — the operator surface: identity (kind, keys), delegation position (edges with scopes), trust-list memberships with validity windows (not_before/superseded_at), master-list attestations, revocation standing"@;
    assert(v.take(21) =~= "GET"@ + " "@ + paths::OPERATOR@);
    lemma_route(v, "GET"@, paths::OPERATOR@);
    reveal_with_fuel(references::path_end, 19);
    reveal_with_fuel(references::quiet, 61);
    assert(references::quiet(v, 180));
    assert(references::quiet(v, 120));
    assert(references::quiet(v, 60));
    assert(v.subrange(4, 21) =~= paths::OPERATOR@);
    references::lemma_refers_once(v, 3, paths::OPERATOR@);
}

proof fn lemma_route_9()
    ensures
        names_route("GET /evidence — metadata only (ids, content types, required scopes, sizes); content never listed"@),
        names_only_routes("GET /evidence — metadata only (ids, content types, required scopes, sizes); content never listed"@),
{
    reveal_strlit("GET /evidence — metadata only (ids, content types, required scopes, sizes); content never listed");
    reveal_strlit("GET");
    reveal_strlit(" ");
    reveal_strlit("/evidence");
    let v = "GET /evidence — metadata only (ids, content types, required scopes, sizes); content never listed"@;
    assert(v.take(13) =~= "GET"@ + " "@ + paths::EVIDENCE@);
    lemma_route(v, "GET"@, paths::EVIDENCE@);
    reveal_with_fuel(references::path_end, 11);
    reveal_with_fuel(references::quiet, 61);
    assert(references::quiet(v, 60));
    assert(v.subrange(4, 13) =~= paths::EVIDENCE@);
    references::lemma_refers_once(v, 3, paths::EVIDENCE@);
}

proof fn lemma_route_10()
    ensures
        names_route("GET /evidence/{id}?scope= (or X-UniDPP-Scope; requester via ?requester= / X-UniDPP-Requester) — released bytes signed over; an unsatisfying scope is a stated 403 naming the required scope; every release journaled"@),
        names_only_routes("GET /evidence/{id}?scope= (or X-UniDPP-Scope; requester via ?requester= / X-UniDPP-Requester) — released bytes signed over; an unsatisfying scope is a stated 403 naming the required scope; every release journaled"@),
{
    reveal_strlit("GET /evidence/{id}?scope= (or X-UniDPP-Scope; requester via ?requester= / X-UniDPP-Requester) — released bytes signed over; an unsatisfying scope is a stated 403 naming the required scope; every release journaled");
    reveal_strlit("GET");
    reveal_strlit(" ");
    reveal_strlit("/evidence/{id}");
    let v = "GET /evidence/{id}?scope= (or X-UniDPP-Scope; requester via ?requester= / X-UniDPP-Requester) — released bytes signed over; an unsatisfying scope is a stated 403 naming the required scope; every release journaled"@;
    assert(v.take(18) =~= "GET"@ + " "@ + paths::EVIDENCE_ONE@);
    lemma_route(v, "GET"@, paths::EVIDENCE_ONE@);
    reveal_with_fuel(references::path_end, 16);
    reveal_with_fuel(references::quiet, 61);
    assert(references::quiet(v, 180));
    assert(references::quiet(v, 120));
    assert(references::quiet(v, 60));
    assert(v.subrange(4, 18) =~= paths::EVIDENCE_ONE@);
    references::lemma_refers_once(v, 3, paths::EVIDENCE_ONE@);
}

proof fn lemma_route_11()
    ensures
        names_route("GET /graph"@),
        names_only_routes("GET /graph"@),
{
    reveal_strlit("GET /graph");
    reveal_strlit("GET");
    reveal_strlit(" ");
    reveal_strlit("/graph");
    let v = "GET /graph"@;
    assert(v.take(10) =~= "GET"@ + " "@ + paths::GRAPH@);
    lemma_route(v, "GET"@, paths::GRAPH@);
    reveal_with_fuel(references::path_end, 8);
    reveal_with_fuel(references::quiet, 7);
    assert(v.subrange(4, 10) =~= paths::GRAPH@);
    references::lemma_refers_once(v, 3, paths::GRAPH@);
}

proof fn lemma_route_12()
    ensures
        names_route("GET /anchor-bundle?jurisdiction="@),
        names_only_routes("GET /anchor-bundle?jurisdiction="@),
{
    reveal_strlit("GET /anchor-bundle?jurisdiction=");
    reveal_strlit("GET");
    reveal_strlit(" ");
    reveal_strlit("/anchor-bundle");
    let v = "GET /anchor-bundle?jurisdiction="@;
    assert(v.take(18) =~= "GET"@ + " "@ + paths::ANCHOR_BUNDLE@);
    lemma_route(v, "GET"@, paths::ANCHOR_BUNDLE@);
    reveal_with_fuel(references::path_end, 16);
    reveal_with_fuel(references::quiet, 29);
    assert(v.subrange(4, 18) =~= paths::ANCHOR_BUNDLE@);
    references::lemma_refers_once(v, 3, paths::ANCHOR_BUNDLE@);
}

proof fn lemma_route_13()
    ensures
        names_route("GET /admin/log?limit=&offset="@),
        names_only_routes("GET /admin/log?limit=&offset="@),
{
    reveal_strlit("GET /admin/log?limit=&offset=");
    reveal_strlit("GET");
    reveal_strlit(" ");
    reveal_strlit("/admin/log");
    let v = "GET /admin/log?limit=&offset="@;
    assert(v.take(14) =~= "GET"@ + " "@ + paths::ADMIN_LOG@);
    lemma_route(v, "GET"@, paths::ADMIN_LOG@);
    reveal_with_fuel(references::path_end, 12);
    reveal_with_fuel(references::quiet, 26);
    assert(v.subrange(4, 14) =~= paths::ADMIN_LOG@);
    references::lemma_refers_once(v, 3, paths::ADMIN_LOG@);
}

proof fn lemma_route_14()
    ensures
        names_route("POST /nodes"@),
        names_only_routes("POST /nodes"@),
{
    reveal_strlit("POST /nodes");
    reveal_strlit("POST");
    reveal_strlit(" ");
    reveal_strlit("/nodes");
    let v = "POST /nodes"@;
    assert(v.take(11) =~= "POST"@ + " "@ + paths::NODES@);
    lemma_route(v, "POST"@, paths::NODES@);
    reveal_with_fuel(references::path_end, 8);
    reveal_with_fuel(references::quiet, 7);
    assert(v.subrange(5, 11) =~= paths::NODES@);
    references::lemma_refers_once(v, 4, paths::NODES@);
}

proof fn lemma_route_15()
    ensures
        names_route("POST /edges"@),
        names_only_routes("POST /edges"@),
{
    reveal_strlit("POST /edges");
    reveal_strlit("POST");
    reveal_strlit(" ");
    reveal_strlit("/edges");
    let v = "POST /edges"@;
    assert(v.take(11) =~= "POST"@ + " "@ + paths::EDGES@);
    lemma_route(v, "POST"@, paths::EDGES@);
    reveal_with_fuel(references::path_end, 8);
    reveal_with_fuel(references::quiet, 7);
    assert(v.subrange(5, 11) =~= paths::EDGES@);
    references::lemma_refers_once(v, 4, paths::EDGES@);
}

proof fn lemma_route_16()
    ensures
        names_route("POST /trust-lists"@),
        names_only_routes("POST /trust-lists"@),
{
    reveal_strlit("POST /trust-lists");
    reveal_strlit("POST");
    reveal_strlit(" ");
    reveal_strlit("/trust-lists");
    let v = "POST /trust-lists"@;
    assert(v.take(17) =~= "POST"@ + " "@ + paths::TRUST_LISTS@);
    lemma_route(v, "POST"@, paths::TRUST_LISTS@);
    reveal_with_fuel(references::path_end, 14);
    reveal_with_fuel(references::quiet, 13);
    assert(v.subrange(5, 17) =~= paths::TRUST_LISTS@);
    references::lemma_refers_once(v, 4, paths::TRUST_LISTS@);
}

proof fn lemma_route_17()
    ensures
        names_route("POST /trust-lists/{jur}/entries"@),
        names_only_routes("POST /trust-lists/{jur}/entries"@),
{
    reveal_strlit("POST /trust-lists/{jur}/entries");
    reveal_strlit("POST");
    reveal_strlit(" ");
    reveal_strlit("/trust-lists/{jur}/entries");
    let v = "POST /trust-lists/{jur}/entries"@;
    assert(v.take(31) =~= "POST"@ + " "@ + paths::TRUST_LIST_ENTRIES@);
    lemma_route(v, "POST"@, paths::TRUST_LIST_ENTRIES@);
    reveal_with_fuel(references::path_end, 28);
    reveal_with_fuel(references::quiet, 27);
    assert(v.subrange(5, 31) =~= paths::TRUST_LIST_ENTRIES@);
    references::lemma_refers_once(v, 4, paths::TRUST_LIST_ENTRIES@);
}

proof fn lemma_route_18()
    ensures
        names_route("POST /master-list/witnesses"@),
        names_only_routes("POST /master-list/witnesses"@),
{
    reveal_strlit("POST /master-list/witnesses");
    reveal_strlit("POST");
    reveal_strlit(" ");
    reveal_strlit("/master-list/witnesses");
    let v = "POST /master-list/witnesses"@;
    assert(v.take(27) =~= "POST"@ + " "@ + paths::MASTER_LIST_WITNESSES@);
    lemma_route(v, "POST"@, paths::MASTER_LIST_WITNESSES@);
    reveal_with_fuel(references::path_end, 24);
    reveal_with_fuel(references::quiet, 23);
    assert(v.subrange(5, 27) =~= paths::MASTER_LIST_WITNESSES@);
    references::lemma_refers_once(v, 4, paths::MASTER_LIST_WITNESSES@);
}

proof fn lemma_route_19()
    ensures
        names_route("POST /master-list/entries"@),
        names_only_routes("POST /master-list/entries"@),
{
    reveal_strlit("POST /master-list/entries");
    reveal_strlit("POST");
    reveal_strlit(" ");
    reveal_strlit("/master-list/entries");
    let v = "POST /master-list/entries"@;
    assert(v.take(25) =~= "POST"@ + " "@ + paths::MASTER_LIST_ENTRIES@);
    lemma_route(v, "POST"@, paths::MASTER_LIST_ENTRIES@);
    reveal_with_fuel(references::path_end, 22);
    reveal_with_fuel(references::quiet, 21);
    assert(v.subrange(5, 25) =~= paths::MASTER_LIST_ENTRIES@);
    references::lemma_refers_once(v, 4, paths::MASTER_LIST_ENTRIES@);
}

proof fn lemma_route_20()
    ensures
        names_route("POST /revocations"@),
        names_only_routes("POST /revocations"@),
{
    reveal_strlit("POST /revocations");
    reveal_strlit("POST");
    reveal_strlit(" ");
    reveal_strlit("/revocations");
    let v = "POST /revocations"@;
    assert(v.take(17) =~= "POST"@ + " "@ + paths::REVOCATIONS@);
    lemma_route(v, "POST"@, paths::REVOCATIONS@);
    reveal_with_fuel(references::path_end, 14);
    reveal_with_fuel(references::quiet, 13);
    assert(v.subrange(5, 17) =~= paths::REVOCATIONS@);
    references::lemma_refers_once(v, 4, paths::REVOCATIONS@);
}

/// The short texts of the document refer to nothing.
proof fn lemma_short_texts()
    ensures
        names_only_routes("ed25519"@),
        names_only_routes("ecdsa-p256"@),
        names_only_routes("as_of"@),
        names_only_routes("x-as-of"@),
        names_only_routes("domain"@),
        names_only_routes("x-sig-domain"@),
        names_only_routes("ed25519_signature"@),
        names_only_routes("x-sig-ed25519"@),
        names_only_routes("ed25519_key_id"@),
        names_only_routes("x-sig-key-id-ed25519"@),
        names_only_routes("ecdsa_p256_signature"@),
        names_only_routes("x-sig-ecdsa-p256"@),
        names_only_routes("ecdsa_p256_key_id"@),
        names_only_routes("x-sig-key-id-ecdsa-p256"@),
        names_only_routes("etag"@),
        names_only_routes("cache_control"@),
        names_only_routes("cache-control"@),
        names_only_routes("tree-head"@),
        names_only_routes("adapter_note"@),
        names_only_routes("suites"@),
        names_only_routes("headers"@),
        names_only_routes("keyring_endpoint"@),
        names_only_routes("/keyring"@),
        names_only_routes("discovery"@),
        names_only_routes("health"@),
        names_only_routes("keyring"@),
        names_only_routes("trust_lists"@),
        names_only_routes("trust_list_one"@),
        names_only_routes("master_list"@),
        names_only_routes("revocations"@),
        names_only_routes("operators"@),
        names_only_routes("evidence_catalogue"@),
        names_only_routes("evidence_release"@),
        names_only_routes("graph"@),
        names_only_routes("anchor_bundle"@),
        names_only_routes("admin_log"@),
        names_only_routes("register_node"@),
        names_only_routes("add_edge"@),
        names_only_routes("register_trust_list"@),
        names_only_routes("upsert_trust_entry"@),
        names_only_routes("set_witnesses"@),
        names_only_routes("upsert_master_entry"@),
        names_only_routes("declare_revocation"@),
        names_only_routes("prospective_reasons"@),
        names_only_routes("retroactive_reasons"@),
        names_only_routes("rule"@),
        names_only_routes("query_parameter"@),
        names_only_routes("at (alias: asof)"@),
        names_only_routes("response_header"@),
        names_only_routes("point_in_time_cache"@),
        names_only_routes("source"@),
        names_only_routes("enabled_by_default"@),
        names_only_routes("disable_via"@),
        names_only_routes("UNIDPP_TRUST_NO_SEED_FIXTURES=1"@),
        names_only_routes("service"@),
        names_only_routes("unidpp-trust"@),
        names_only_routes("version"@),
        names_only_routes("build_id"@),
        names_only_routes("description"@),
        names_only_routes("signing"@),
        names_only_routes("endpoints"@),
        names_only_routes("revocation_semantics"@),
        names_only_routes("seed_fixtures"@),
        names_only_routes("auth"@),
        names_only_routes("status"@),
        names_only_routes("ok"@),
        names_only_routes("key-compromise"@),
        names_only_routes("cessation"@),
        names_only_routes("supersession"@),
        names_only_routes("affiliation-change"@),
        names_only_routes("misissuance"@),
        names_only_routes("fraudulent-issuance"@),
        names_only_routes("authority-compromised"@),
{
    lemma_names_1();
    lemma_names_2();
    lemma_names_3();
    lemma_names_4();
    lemma_names_5();
    lemma_names_6();
    lemma_names_7();
    lemma_names_8();
}

/// The long texts of the document refer to nothing, the endpoint table aside.
proof fn lemma_remarks()
    ensures
        names_only_routes("SIGNATIF has no service-response domain; tree-head (operator's signed statement of state, used for transparency-log signed tree heads) is the closest documented adaptation. Signatures cover the exact body bytes."@),
        names_only_routes("Prospective reasons keep prior as-of verifications valid (timestamping protects, like code signing). Retroactive reasons (misissuance, fraud, authority-compromised) void ab initio within the explicit distrust window [start, end] and re-validate outside it. Both readings are visible per-declaration in the response via `known_at_cutoff` and `voids_at_as_of`."@),
        names_only_routes("responses to ?at=... carry cache-control: public, max-age=86400, immutable"@),
        names_only_routes("UniDPP trust-list service: jurisdiction trust lists per framework, M-of-K multi-witness master list, live reason-to-retroactivity revocations. All responses signed in the tree-head domain."@),
        names_only_routes("mutations and /admin/log require a Bearer token when UNIDPP_TRUST_ADMIN_TOKEN is set"@),
        names_only_routes(FIXTURE_SOURCE@),
{
    lemma_remark_1();
    lemma_remark_2();
    lemma_remark_3();
    lemma_remark_4();
    lemma_remark_5();
    lemma_remark_6();
}

proof fn lemma_names_1()
    ensures
        names_only_routes("ed25519"@),
        names_only_routes("ecdsa-p256"@),
        names_only_routes("as_of"@),
        names_only_routes("x-as-of"@),
        names_only_routes("domain"@),
        names_only_routes("x-sig-domain"@),
        names_only_routes("ed25519_signature"@),
        names_only_routes("x-sig-ed25519"@),
        names_only_routes("ed25519_key_id"@),
        names_only_routes("x-sig-key-id-ed25519"@),
{
    reveal_with_fuel(references::quiet, 21);
    reveal_strlit("ed25519");
    references::lemma_refers_to_nothing("ed25519"@);
    reveal_strlit("ecdsa-p256");
    references::lemma_refers_to_nothing("ecdsa-p256"@);
    reveal_strlit("as_of");
    references::lemma_refers_to_nothing("as_of"@);
    reveal_strlit("x-as-of");
    references::lemma_refers_to_nothing("x-as-of"@);
    reveal_strlit("domain");
    references::lemma_refers_to_nothing("domain"@);
    reveal_strlit("x-sig-domain");
    references::lemma_refers_to_nothing("x-sig-domain"@);
    reveal_strlit("ed25519_signature");
    references::lemma_refers_to_nothing("ed25519_signature"@);
    reveal_strlit("x-sig-ed25519");
    references::lemma_refers_to_nothing("x-sig-ed25519"@);
    reveal_strlit("ed25519_key_id");
    references::lemma_refers_to_nothing("ed25519_key_id"@);
    reveal_strlit("x-sig-key-id-ed25519");
    references::lemma_refers_to_nothing("x-sig-key-id-ed25519"@);
}

proof fn lemma_names_2()
    ensures
        names_only_routes("ecdsa_p256_signature"@),
        names_only_routes("x-sig-ecdsa-p256"@),
        names_only_routes("ecdsa_p256_key_id"@),
        names_only_routes("x-sig-key-id-ecdsa-p256"@),
        names_only_routes("etag"@),
        names_only_routes("cache_control"@),
        names_only_routes("cache-control"@),
        names_only_routes("tree-head"@),
        names_only_routes("adapter_note"@),
        names_only_routes("suites"@),
{
    reveal_with_fuel(references::quiet, 24);
    reveal_strlit("ecdsa_p256_signature");
    references::lemma_refers_to_nothing("ecdsa_p256_signature"@);
    reveal_strlit("x-sig-ecdsa-p256");
    references::lemma_refers_to_nothing("x-sig-ecdsa-p256"@);
    reveal_strlit("ecdsa_p256_key_id");
    references::lemma_refers_to_nothing("ecdsa_p256_key_id"@);
    reveal_strlit("x-sig-key-id-ecdsa-p256");
    references::lemma_refers_to_nothing("x-sig-key-id-ecdsa-p256"@);
    reveal_strlit("etag");
    references::lemma_refers_to_nothing("etag"@);
    reveal_strlit("cache_control");
    references::lemma_refers_to_nothing("cache_control"@);
    reveal_strlit("cache-control");
    references::lemma_refers_to_nothing("cache-control"@);
    reveal_strlit("tree-head");
    references::lemma_refers_to_nothing("tree-head"@);
    reveal_strlit("adapter_note");
    references::lemma_refers_to_nothing("adapter_note"@);
    reveal_strlit("suites");
    references::lemma_refers_to_nothing("suites"@);
}

proof fn lemma_names_3()
    ensures
        names_only_routes("headers"@),
        names_only_routes("keyring_endpoint"@),
        names_only_routes("/keyring"@),
        names_only_routes("discovery"@),
        names_only_routes("health"@),
        names_only_routes("keyring"@),
        names_only_routes("trust_lists"@),
        names_only_routes("trust_list_one"@),
        names_only_routes("master_list"@),
        names_only_routes("revocations"@),
{
    reveal_with_fuel(references::quiet, 17);
    reveal_strlit("headers");
    references::lemma_refers_to_nothing("headers"@);
    reveal_strlit("keyring_endpoint");
    references::lemma_refers_to_nothing("keyring_endpoint"@);
    reveal_strlit("/keyring");
    references::lemma_refers_to_nothing("/keyring"@);
    reveal_strlit("discovery");
    references::lemma_refers_to_nothing("discovery"@);
    reveal_strlit("health");
    references::lemma_refers_to_nothing("health"@);
    reveal_strlit("keyring");
    references::lemma_refers_to_nothing("keyring"@);
    reveal_strlit("trust_lists");
    references::lemma_refers_to_nothing("trust_lists"@);
    reveal_strlit("trust_list_one");
    references::lemma_refers_to_nothing("trust_list_one"@);
    reveal_strlit("master_list");
    references::lemma_refers_to_nothing("master_list"@);
    reveal_strlit("revocations");
    references::lemma_refers_to_nothing("revocations"@);
}

proof fn lemma_names_4()
    ensures
        names_only_routes("operators"@),
        names_only_routes("evidence_catalogue"@),
        names_only_routes("evidence_release"@),
        names_only_routes("graph"@),
        names_only_routes("anchor_bundle"@),
        names_only_routes("admin_log"@),
        names_only_routes("register_node"@),
        names_only_routes("add_edge"@),
        names_only_routes("register_trust_list"@),
        names_only_routes("upsert_trust_entry"@),
{
    reveal_with_fuel(references::quiet, 20);
    reveal_strlit("operators");
    references::lemma_refers_to_nothing("operators"@);
    reveal_strlit("evidence_catalogue");
    references::lemma_refers_to_nothing("evidence_catalogue"@);
    reveal_strlit("evidence_release");
    references::lemma_refers_to_nothing("evidence_release"@);
    reveal_strlit("graph");
    references::lemma_refers_to_nothing("graph"@);
    reveal_strlit("anchor_bundle");
    references::lemma_refers_to_nothing("anchor_bundle"@);
    reveal_strlit("admin_log");
    references::lemma_refers_to_nothing("admin_log"@);
    reveal_strlit("register_node");
    references::lemma_refers_to_nothing("register_node"@);
    reveal_strlit("add_edge");
    references::lemma_refers_to_nothing("add_edge"@);
    reveal_strlit("register_trust_list");
    references::lemma_refers_to_nothing("register_trust_list"@);
    reveal_strlit("upsert_trust_entry");
    references::lemma_refers_to_nothing("upsert_trust_entry"@);
}

proof fn lemma_names_5()
    ensures
        names_only_routes("set_witnesses"@),
        names_only_routes("upsert_master_entry"@),
        names_only_routes("declare_revocation"@),
        names_only_routes("prospective_reasons"@),
        names_only_routes("retroactive_reasons"@),
        names_only_routes("rule"@),
        names_only_routes("query_parameter"@),
        names_only_routes("at (alias: asof)"@),
        names_only_routes("response_header"@),
        names_only_routes("point_in_time_cache"@),
{
    reveal_with_fuel(references::quiet, 20);
    reveal_strlit("set_witnesses");
    references::lemma_refers_to_nothing("set_witnesses"@);
    reveal_strlit("upsert_master_entry");
    references::lemma_refers_to_nothing("upsert_master_entry"@);
    reveal_strlit("declare_revocation");
    references::lemma_refers_to_nothing("declare_revocation"@);
    reveal_strlit("prospective_reasons");
    references::lemma_refers_to_nothing("prospective_reasons"@);
    reveal_strlit("retroactive_reasons");
    references::lemma_refers_to_nothing("retroactive_reasons"@);
    reveal_strlit("rule");
    references::lemma_refers_to_nothing("rule"@);
    reveal_strlit("query_parameter");
    references::lemma_refers_to_nothing("query_parameter"@);
    reveal_strlit("at (alias: asof)");
    references::lemma_refers_to_nothing("at (alias: asof)"@);
    reveal_strlit("response_header");
    references::lemma_refers_to_nothing("response_header"@);
    reveal_strlit("point_in_time_cache");
    references::lemma_refers_to_nothing("point_in_time_cache"@);
}

proof fn lemma_names_6()
    ensures
        names_only_routes("source"@),
        names_only_routes("enabled_by_default"@),
        names_only_routes("disable_via"@),
        names_only_routes("UNIDPP_TRUST_NO_SEED_FIXTURES=1"@),
        names_only_routes("service"@),
        names_only_routes("unidpp-trust"@),
        names_only_routes("version"@),
        names_only_routes("build_id"@),
        names_only_routes("description"@),
        names_only_routes("signing"@),
{
    reveal_with_fuel(references::quiet, 32);
    reveal_strlit("source");
    references::lemma_refers_to_nothing("source"@);
    reveal_strlit("enabled_by_default");
    references::lemma_refers_to_nothing("enabled_by_default"@);
    reveal_strlit("disable_via");
    references::lemma_refers_to_nothing("disable_via"@);
    reveal_strlit("UNIDPP_TRUST_NO_SEED_FIXTURES=1");
    references::lemma_refers_to_nothing("UNIDPP_TRUST_NO_SEED_FIXTURES=1"@);
    reveal_strlit("service");
    references::lemma_refers_to_nothing("service"@);
    reveal_strlit("unidpp-trust");
    references::lemma_refers_to_nothing("unidpp-trust"@);
    reveal_strlit("version");
    references::lemma_refers_to_nothing("version"@);
    reveal_strlit("build_id");
    references::lemma_refers_to_nothing("build_id"@);
    reveal_strlit("description");
    references::lemma_refers_to_nothing("description"@);
    reveal_strlit("signing");
    references::lemma_refers_to_nothing("signing"@);
}

proof fn lemma_names_7()
    ensures
        names_only_routes("endpoints"@),
        names_only_routes("revocation_semantics"@),
        names_only_routes("seed_fixtures"@),
        names_only_routes("auth"@),
        names_only_routes("status"@),
        names_only_routes("ok"@),
        names_only_routes("key-compromise"@),
        names_only_routes("cessation"@),
        names_only_routes("supersession"@),
        names_only_routes("affiliation-change"@),
{
    reveal_with_fuel(references::quiet, 21);
    reveal_strlit("endpoints");
    references::lemma_refers_to_nothing("endpoints"@);
    reveal_strlit("revocation_semantics");
    references::lemma_refers_to_nothing("revocation_semantics"@);
    reveal_strlit("seed_fixtures");
    references::lemma_refers_to_nothing("seed_fixtures"@);
    reveal_strlit("auth");
    references::lemma_refers_to_nothing("auth"@);
    reveal_strlit("status");
    references::lemma_refers_to_nothing("status"@);
    reveal_strlit("ok");
    references::lemma_refers_to_nothing("ok"@);
    reveal_strlit("key-compromise");
    references::lemma_refers_to_nothing("key-compromise"@);
    reveal_strlit("cessation");
    references::lemma_refers_to_nothing("cessation"@);
    reveal_strlit("supersession");
    references::lemma_refers_to_nothing("supersession"@);
    reveal_strlit("affiliation-change");
    references::lemma_refers_to_nothing("affiliation-change"@);
}

proof fn lemma_names_8()
    ensures
        names_only_routes("misissuance"@),
        names_only_routes("fraudulent-issuance"@),
        names_only_routes("authority-compromised"@),
{
    reveal_with_fuel(references::quiet, 22);
    reveal_strlit("misissuance");
    references::lemma_refers_to_nothing("misissuance"@);
    reveal_strlit("fraudulent-issuance");
    references::lemma_refers_to_nothing("fraudulent-issuance"@);
    reveal_strlit("authority-compromised");
    references::lemma_refers_to_nothing("authority-compromised"@);
}

proof fn lemma_remark_1()
    ensures
        names_only_routes("SIGNATIF has no service-response domain; tree-head (operator's signed statement of state, used for transparency-log signed tree heads) is the closest documented adaptation. Signatures cover the exact body bytes."@),
{
    reveal_with_fuel(references::quiet, 61);
    reveal_strlit("SIGNATIF has no service-response domain; tree-head (operator's signed statement of state, used for transparency-log signed tree heads) is the closest documented adaptation. Signatures cover the exact body bytes.");
    let v = "SIGNATIF has no service-response domain; tree-head (operator's signed statement of state, used for transparency-log signed tree heads) is the closest documented adaptation. Signatures cover the exact body bytes."@;
    assert(references::quiet(v, 180));
    assert(references::quiet(v, 120));
    assert(references::quiet(v, 60));
    references::lemma_refers_to_nothing(v);
}

proof fn lemma_remark_2()
    ensures
        names_only_routes("Prospective reasons keep prior as-of verifications valid (timestamping protects, like code signing). Retroactive reasons (misissuance, fraud, authority-compromised) void ab initio within the explicit distrust window [start, end] and re-validate outside it. Both readings are visible per-declaration in the response via `known_at_cutoff` and `voids_at_as_of`."@),
{
    reveal_with_fuel(references::quiet, 61);
    reveal_strlit("Prospective reasons keep prior as-of verifications valid (timestamping protects, like code signing). Retroactive reasons (misissuance, fraud, authority-compromised) void ab initio within the explicit distrust window [start, end] and re-validate outside it. Both readings are visible per-declaration in the response via `known_at_cutoff` and `voids_at_as_of`.");
    let v = "Prospective reasons keep prior as-of verifications valid (timestamping protects, like code signing). Retroactive reasons (misissuance, fraud, authority-compromised) void ab initio within the explicit distrust window [start, end] and re-validate outside it. Both readings are visible per-declaration in the response via `known_at_cutoff` and `voids_at_as_of`."@;
    assert(references::quiet(v, 300));
    assert(references::quiet(v, 240));
    assert(references::quiet(v, 180));
    assert(references::quiet(v, 120));
    assert(references::quiet(v, 60));
    references::lemma_refers_to_nothing(v);
}

proof fn lemma_remark_3()
    ensures
        names_only_routes("responses to ?at=... carry cache-control: public, max-age=86400, immutable"@),
{
    reveal_with_fuel(references::quiet, 61);
    reveal_strlit("responses to ?at=... carry cache-control: public, max-age=86400, immutable");
    let v = "responses to ?at=... carry cache-control: public, max-age=86400, immutable"@;
    assert(references::quiet(v, 60));
    references::lemma_refers_to_nothing(v);
}

proof fn lemma_remark_4()
    ensures
        names_only_routes("UniDPP trust-list service: jurisdiction trust lists per framework, M-of-K multi-witness master list, live reason-to-retroactivity revocations. All responses signed in the tree-head domain."@),
{
    reveal_with_fuel(references::quiet, 61);
    reveal_strlit("UniDPP trust-list service: jurisdiction trust lists per framework, M-of-K multi-witness master list, live reason-to-retroactivity revocations. All responses signed in the tree-head domain.");
    let v = "UniDPP trust-list service: jurisdiction trust lists per framework, M-of-K multi-witness master list, live reason-to-retroactivity revocations. All responses signed in the tree-head domain."@;
    assert(references::quiet(v, 180));
    assert(references::quiet(v, 120));
    assert(references::quiet(v, 60));
    references::lemma_refers_to_nothing(v);
}

proof fn lemma_remark_5()
    ensures
        names_only_routes("mutations and /admin/log require a Bearer token when UNIDPP_TRUST_ADMIN_TOKEN is set"@),
{
    reveal_with_fuel(references::quiet, 61);
    reveal_strlit("mutations and /admin/log require a Bearer token when UNIDPP_TRUST_ADMIN_TOKEN is set");
    let v = "mutations and /admin/log require a Bearer token when UNIDPP_TRUST_ADMIN_TOKEN is set"@;
    assert(references::quiet(v, 60));
    references::lemma_refers_to_nothing(v);
}

proof fn lemma_remark_6()
    ensures
        names_only_routes(FIXTURE_SOURCE@),
{
    reveal_with_fuel(references::quiet, 61);
    reveal_strlit("unidpp-signatif tests/common topology + scenario_misissuance (T0-anchored; see README)");
    let v = FIXTURE_SOURCE@;
    assert(references::quiet(v, 60));
    references::lemma_refers_to_nothing(v);
}

} // verus!
