//! The public reads: graph, anchor bundle, trust lists, master list,
//! revocations and operators, and the audit log.

use vstd::prelude::*;

use crate::api;
use crate::api::{cache_for, error_response, opt_query, parse_at, parse_window_filter, require_admin, stamp_json, CachePolicy, Params, Reply, ReplyView};
use crate::data;
use crate::data::{find_by_key, place, Dup, Keyed};
use crate::json;
use crate::json::{Json, JsonView};
use crate::judge::{SlotCheck, SlotCheckView};
use crate::laws;
use crate::model;
use crate::model::{DelegationCredential, DelegationCredentialView, DelegationNode, DelegationNodeView, Interval, MasterListEntry, MasterListEntryView, MasterListView, QuorumAttestation, QuorumAttestationView, RegisteredKey, RegisteredKeyView, Revocation, RevocationView, RevokedSubject, RevokedSubjectView, SignatureSlot, TrustListEntryRecord, TrustListEntryRecordView, Witness, WitnessAttestation, WitnessAttestationView};
use crate::quorum;
use crate::quorum::{verdict, QuorumVerdict};
use crate::seed;
use crate::store;
use crate::store::{JurisdictionList, JurisdictionListView, Store, StoreView};
use crate::text;
use crate::text::{ascii_lower, ascii_upper, join2, join3, parse_number, same_text, starts_with};
use crate::time;
use crate::time::Timestamp;
use crate::wire;
use crate::wire::{attestations_verified, bare_entry_to_value, bare_witness_to_value, edge_to_value, interval_to_value, master_entry_quorate, reason_to_value, render_all, render_strings, revocation_to_value, revoked_subject_to_value, trust_entry_to_value, ts_json, witnesses_to_value, witnesses_vouching};

verus! {

broadcast use {data::lemma_deep_push, data::lemma_deep_bytes, data::lemma_deep_len};

/// Which attestations of one master-list entry verify under which keys.
#[derive(Debug, PartialEq, Eq)]
pub struct EntryChecks {
    pub node: String,
    pub checks: Vec<SlotCheck>,
}

#[verifier::ext_equal]
pub struct EntryChecksView {
    pub node: Seq<char>,
    pub checks: Seq<SlotCheckView>,
}

impl DeepView for EntryChecks {
    type V = EntryChecksView;

    open spec fn deep_view(&self) -> EntryChecksView {
        EntryChecksView {
            node: self.node.deep_view(),
            checks: self.checks.deep_view(),
        }
    }
}

impl View for EntryChecks {
    type V = EntryChecksView;

    open spec fn view(&self) -> EntryChecksView {
        self.deep_view()
    }
}

impl Keyed for EntryChecks {
    open spec fn key_of(v: EntryChecksView) -> Seq<char> {
        v.node
    }

    fn key(&self) -> (r: &String) {
        &self.node
    }
}

/// The reading of one declaration at the instant asked about: whether it
/// voids acts of that instant, and which slots of its attestation verify
/// under which keys.
#[derive(Debug, PartialEq, Eq)]
pub struct Reading {
    pub voids: bool,
    pub checks: Vec<SlotCheck>,
}

#[verifier::ext_equal]
pub struct ReadingView {
    pub voids: bool,
    pub checks: Seq<SlotCheckView>,
}

impl DeepView for Reading {
    type V = ReadingView;

    open spec fn deep_view(&self) -> ReadingView {
        ReadingView {
            voids: self.voids.deep_view(),
            checks: self.checks.deep_view(),
        }
    }
}

impl View for Reading {
    type V = ReadingView;

    open spec fn view(&self) -> ReadingView {
        self.deep_view()
    }
}

/// A trust list as it is listed.
#[derive(Debug, PartialEq, Eq)]
pub struct Listing {
    pub jurisdiction: String,
    pub doc: Json,
}

#[verifier::ext_equal]
pub struct ListingView {
    pub jurisdiction: Seq<char>,
    pub doc: JsonView,
}

impl DeepView for Listing {
    type V = ListingView;

    open spec fn deep_view(&self) -> ListingView {
        ListingView {
            jurisdiction: self.jurisdiction.deep_view(),
            doc: self.doc.deep_view(),
        }
    }
}

impl View for Listing {
    type V = ListingView;

    open spec fn view(&self) -> ListingView {
        self.deep_view()
    }
}

impl Keyed for Listing {
    open spec fn key_of(v: ListingView) -> Seq<char> {
        v.jurisdiction
    }

    fn key(&self) -> (r: &String) {
        &self.jurisdiction
    }
}

/// A successful reading.
pub open spec fn reading(doc: JsonView, as_of: Timestamp, cache: CachePolicy) -> ReplyView {
    ReplyView { status: 200, doc, as_of, cache }
}

/// The store that a reading speaks of: as it was at the instant asked about,
/// or as it is.
pub open spec fn store_read(s: StoreView, at: Option<Timestamp>) -> StoreView {
    match at {
        Some(t) => store::as_of(s, t),
        None => s,
    }
}

// ---------------------------------------------------------------------------
// Graph
// ---------------------------------------------------------------------------

/// The document of the trust graph.
pub open spec fn graph_doc(s: StoreView, as_of: Timestamp) -> JsonView {
    JsonView::object().put("as_of"@, api::stamped(as_of)).put(
        "node_count"@,
        JsonView::Num(s.graph.nodes.len() as int),
    ).put("edge_count"@, JsonView::Num(s.graph.edges.len() as int)).put(
        "nodes"@,
        JsonView::Arr(wire::docs::<DelegationNode>(s.graph.nodes)),
    ).put("edges"@, JsonView::Arr(wire::docs::<DelegationCredential>(s.graph.edges)))
}

/// The reply to a request for the trust graph.
pub open spec fn graph_reply(s: StoreView, p: Map<Seq<char>, Seq<char>>, now: Timestamp) -> ReplyView {
    match api::asked_instant(p) {
        Err(e) => api::error_of(400, e, now),
        Ok(at) => {
            let as_of = api::reading_instant(at, now);
            reading(graph_doc(store_read(s, at), as_of), as_of, api::policy_for(at))
        },
    }
}

fn render_graph(store: &Store, as_of: Timestamp) -> (r: Json)
    ensures
        r@ == graph_doc(store@, as_of),
{
    Json::object().with("as_of", stamp_json(as_of)).with(
        "node_count",
        Json::Uint(store.graph.nodes.len() as u64),
    ).with("edge_count", Json::Uint(store.graph.edges.len() as u64)).with(
        "nodes",
        render_all(&store.graph.nodes),
    ).with("edges", render_all(&store.graph.edges))
}

/// Serve the full trust graph, as of the instant asked about.
pub fn graph(store: &Store, params: &Params, now: Timestamp) -> (r: Reply)
    ensures
        r@ == graph_reply(store@, params@, now),
{
    let at = match parse_at(params) {
        Ok(v) => v,
        Err(e) => return error_response(400, e.as_str(), now),
    };
    let (doc, as_of) = match at {
        Some(t) => (render_graph(&store.as_of(t), t), t),
        None => (render_graph(store, now), now),
    };
    Reply { status: 200, doc, as_of, cache: cache_for(at) }
}

// ---------------------------------------------------------------------------
// Anchor bundle
// ---------------------------------------------------------------------------

/// Entries without a reading.
pub open spec fn bare_entries(s: Seq<TrustListEntryRecordView>) -> Seq<JsonView> {
    Seq::new(s.len(), |i: int| wire::bare_entry_value(s[i]))
}

/// Entries read at an instant.
pub open spec fn read_entries(s: Seq<TrustListEntryRecordView>, at: Timestamp) -> Seq<JsonView> {
    Seq::new(s.len(), |i: int| wire::entry_value(s[i], at))
}

fn render_bare_entries(v: &Vec<TrustListEntryRecord>) -> (r: Json)
    ensures
        r@ == JsonView::Arr(bare_entries(v.deep_view())),
{
    let mut out: Vec<Json> = Vec::new();
    for k in 0..v.len()
        invariant
            out.deep_view() == bare_entries(v.deep_view().take(k as int)),
    {
        out.push(bare_entry_to_value(&v[k]));
        assert(bare_entries(v.deep_view().take(k + 1)) =~= bare_entries(
            v.deep_view().take(k as int),
        ).push(wire::bare_entry_value(v@[k as int].deep_view())));
    }
    assert(v.deep_view().take(v@.len() as int) =~= v.deep_view());
    Json::list(out)
}

fn render_entries(v: &Vec<TrustListEntryRecord>, at: Timestamp) -> (r: Json)
    ensures
        r@ == JsonView::Arr(read_entries(v.deep_view(), at)),
{
    let mut out: Vec<Json> = Vec::new();
    for k in 0..v.len()
        invariant
            out.deep_view() == read_entries(v.deep_view().take(k as int), at),
    {
        out.push(trust_entry_to_value(&v[k], at));
        assert(read_entries(v.deep_view().take(k + 1), at) =~= read_entries(
            v.deep_view().take(k as int),
            at,
        ).push(wire::entry_value(v@[k as int].deep_view(), at)));
    }
    assert(v.deep_view().take(v@.len() as int) =~= v.deep_view());
    Json::list(out)
}

fn render_bare_witnesses(v: &Vec<Witness>) -> (r: Json)
    ensures
        r@ == JsonView::Arr(store::bare_witnesses(v.deep_view())),
{
    let mut out: Vec<Json> = Vec::new();
    for k in 0..v.len()
        invariant
            out.deep_view() == store::bare_witnesses(v.deep_view().take(k as int)),
    {
        out.push(bare_witness_to_value(&v[k]));
        assert(store::bare_witnesses(v.deep_view().take(k + 1)) =~= store::bare_witnesses(
            v.deep_view().take(k as int),
        ).push(wire::bare_witness_value(v@[k as int].deep_view())));
    }
    assert(v.deep_view().take(v@.len() as int) =~= v.deep_view());
    Json::list(out)
}

/// The master list as a bundle carries it.
pub open spec fn bundled_master(m: MasterListView) -> JsonView {
    JsonView::object().put("m"@, JsonView::Num(m.m as int)).put("k"@, JsonView::Num(m.k as int)).put(
        "witnesses"@,
        JsonView::Arr(store::bare_witnesses(m.witnesses)),
    ).put("entries"@, JsonView::Arr(wire::docs::<MasterListEntry>(m.entries)))
}

/// The bundle for one jurisdiction.
pub open spec fn bundle_doc(
    s: StoreView,
    jur: Seq<char>,
    l: JurisdictionListView,
    as_of: Timestamp,
) -> JsonView {
    JsonView::object().put("as_of"@, api::stamped(as_of)).put("jurisdiction"@, JsonView::Str(jur)).put(
        "trust_lists"@,
        JsonView::Arr(
            seq![
                JsonView::object().put("jurisdiction"@, JsonView::Str(l.list.jurisdiction)).put(
                    "entries"@,
                    JsonView::Arr(bare_entries(l.list.entries)),
                ),
            ],
        ),
    ).put("master"@, bundled_master(s.master))
}

/// The bundle that a store gives, if it has a trust list for the
/// jurisdiction.
pub open spec fn bundle_from(
    s: StoreView,
    jur: Seq<char>,
    as_of: Timestamp,
    cache: CachePolicy,
    now: Timestamp,
) -> ReplyView {
    match data::lookup::<JurisdictionList>(s.trust_lists, text::upper(jur)) {
        None => api::error_of(404, "no trust list `"@ + jur + "`"@, now),
        Some(l) => reading(bundle_doc(s, jur, l, as_of), as_of, cache),
    }
}

/// The reply to a request for an anchor bundle.
pub open spec fn bundle_reply(s: StoreView, p: Map<Seq<char>, Seq<char>>, now: Timestamp) -> ReplyView {
    match api::asked_instant(p) {
        Err(e) => api::error_of(400, e, now),
        Ok(at) => match api::query(p, "jurisdiction"@) {
            None => api::error_of(400, "`jurisdiction` query parameter is required"@, now),
            Some(jur) => bundle_from(
                store_read(s, at),
                jur,
                api::reading_instant(at, now),
                api::policy_for(at),
                now,
            ),
        },
    }
}

fn render_bundle(store: &Store, jur: &str, as_of: Timestamp, cache: CachePolicy, now: Timestamp) -> (r:
    Reply)
    ensures
        r@ == bundle_from(store@, jur@, as_of, cache, now),
{
    let list = match find_by_key(&store.trust_lists, ascii_upper(jur).as_str()) {
        Some(l) => l,
        None => return error_response(
            404,
            join3("no trust list `", jur, "`").as_str(),
            now,
        ),
    };
    let list_doc = Json::object().with(
        "jurisdiction",
        Json::text(list.list.jurisdiction.as_str()),
    ).with("entries", render_bare_entries(&list.list.entries));
    let ghost shown = list_doc@;
    let mut lists: Vec<Json> = Vec::new();
    lists.push(list_doc);
    assert(lists.deep_view() =~= seq![shown]);
    let master = Json::object().with("m", Json::Uint(store.master.m as u64)).with(
        "k",
        Json::Uint(store.master.k as u64),
    ).with("witnesses", render_bare_witnesses(&store.master.witnesses)).with(
        "entries",
        render_all(&store.master.entries),
    );
    let doc = Json::object().with("as_of", stamp_json(as_of)).with(
        "jurisdiction",
        Json::text(jur),
    ).with("trust_lists", Json::list(lists)).with("master", master);
    Reply { status: 200, doc, as_of, cache }
}

/// Serve the verifier artifact for one jurisdiction: its trust list and
/// the master list, as of the instant asked about.
pub fn anchor_bundle(store: &Store, params: &Params, now: Timestamp) -> (r: Reply)
    ensures
        r@ == bundle_reply(store@, params@, now),
{
    let at = match parse_at(params) {
        Ok(v) => v,
        Err(e) => return error_response(400, e.as_str(), now),
    };
    let jur = match opt_query(params, "jurisdiction") {
        Some(s) => s,
        None => return error_response(400, "`jurisdiction` query parameter is required", now),
    };
    match at {
        Some(t) => render_bundle(&store.as_of(t), jur.as_str(), t, cache_for(at), now),
        None => render_bundle(store, jur.as_str(), now, cache_for(at), now),
    }
}

// ---------------------------------------------------------------------------
// Trust lists
// ---------------------------------------------------------------------------

/// A trust list with its entries read at an instant.
pub open spec fn list_doc(l: JurisdictionListView, at: Timestamp) -> JsonView {
    JsonView::object().put("jurisdiction"@, JsonView::Str(l.list.jurisdiction)).put(
        "framework"@,
        json::text_or_null(l.framework),
    ).put("entries"@, JsonView::Arr(read_entries(l.list.entries, at)))
}

/// The list passes the filters: the jurisdiction in any case, the framework
/// as it is.
pub open spec fn list_kept(
    l: JurisdictionListView,
    jur: Option<Seq<char>>,
    framework: Option<Seq<char>>,
) -> bool {
    &&& jur is Some ==> l.key == text::upper(jur->0)
    &&& framework is Some ==> l.framework == framework
}

/// The lists that pass the filters.
pub open spec fn listings(
    s: Seq<JurisdictionListView>,
    jur: Option<Seq<char>>,
    framework: Option<Seq<char>>,
    at: Timestamp,
) -> Seq<ListingView>
    decreases s.len(),
{
    if s.len() == 0 {
        Seq::empty()
    } else {
        let before = listings(s.drop_last(), jur, framework, at);
        if list_kept(s.last(), jur, framework) {
            before.push(
                ListingView {
                    jurisdiction: s.last().list.jurisdiction,
                    doc: list_doc(s.last(), at),
                },
            )
        } else {
            before
        }
    }
}

/// The documents of listings.
pub open spec fn listing_docs(s: Seq<ListingView>) -> Seq<JsonView> {
    Seq::new(s.len(), |i: int| s[i].doc)
}

/// The listed trust lists, sorted by jurisdiction.
pub open spec fn listed(s: StoreView, p: Map<Seq<char>, Seq<char>>, at: Timestamp) -> Seq<JsonView> {
    listing_docs(
        data::sorted::<Listing>(
            listings(
                s.trust_lists,
                api::query(p, "jurisdiction"@),
                api::query(p, "framework"@),
                at,
            ),
        ),
    )
}

/// The reply to a request for the trust lists.
pub open spec fn lists_reply(s: StoreView, p: Map<Seq<char>, Seq<char>>, now: Timestamp) -> ReplyView {
    match api::asked_instant(p) {
        Err(e) => api::error_of(400, e, now),
        Ok(at) => {
            let as_of = api::reading_instant(at, now);
            let out = listed(s, p, as_of);
            reading(
                JsonView::object().put("as_of"@, api::stamped(as_of)).put(
                    "count"@,
                    JsonView::Num(out.len() as int),
                ).put("trust_lists"@, JsonView::Arr(out)),
                as_of,
                api::policy_for(at),
            )
        },
    }
}

fn keeps_list(l: &JurisdictionList, jur: &Option<String>, framework: &Option<String>) -> (r: bool)
    ensures
        r == list_kept(l@, jur.deep_view(), framework.deep_view()),
{
    if let Some(j) = jur {
        if l.key != ascii_upper(j.as_str()) {
            return false;
        }
    }
    if let Some(f) = framework {
        match &l.framework {
            Some(own) => {
                if *own != *f {
                    return false;
                }
            },
            None => return false,
        }
    }
    true
}

fn render_list(l: &JurisdictionList, at: Timestamp) -> (r: Json)
    ensures
        r@ == list_doc(l@, at),
{
    Json::object().with("jurisdiction", Json::text(l.list.jurisdiction.as_str())).with(
        "framework",
        Json::opt_text(&l.framework),
    ).with("entries", render_entries(&l.list.entries, at))
}

fn docs_of(v: &Vec<Listing>) -> (r: Vec<Json>)
    ensures
        r.deep_view() == listing_docs(v.deep_view()),
{
    let mut out: Vec<Json> = Vec::new();
    for k in 0..v.len()
        invariant
            out.deep_view() == listing_docs(v.deep_view().take(k as int)),
    {
        out.push(v[k].doc.dup());
        assert(listing_docs(v.deep_view().take(k + 1)) =~= listing_docs(
            v.deep_view().take(k as int),
        ).push(v@[k as int].doc@));
    }
    assert(v.deep_view().take(v@.len() as int) =~= v.deep_view());
    out
}

/// Serve the jurisdiction trust lists, sorted by jurisdiction.
pub fn trust_lists(store: &Store, params: &Params, now: Timestamp) -> (r: Reply)
    ensures
        r@ == lists_reply(store@, params@, now),
{
    let at = match parse_at(params) {
        Ok(v) => v,
        Err(e) => return error_response(400, e.as_str(), now),
    };
    let as_of = match at {
        Some(t) => t,
        None => now,
    };
    let framework = opt_query(params, "framework");
    let jur = opt_query(params, "jurisdiction");
    let ghost s = store@.trust_lists;
    let mut rows: Vec<Listing> = Vec::new();
    assert(rows.deep_view() =~= Seq::<ListingView>::empty());
    assert(s.take(0) =~= Seq::<JurisdictionListView>::empty());
    for k in 0..store.trust_lists.len()
        invariant
            s == store.trust_lists.deep_view(),
            rows.deep_view() == data::sorted::<Listing>(
                listings(s.take(k as int), jur.deep_view(), framework.deep_view(), as_of),
            ),
    {
        let l: &JurisdictionList = &store.trust_lists[k];
        assert(s.take(k + 1).drop_last() =~= s.take(k as int));
        assert(s.take(k + 1).last() == l@);
        if keeps_list(l, &jur, &framework) {
            let ghost before = listings(
                s.take(k as int),
                jur.deep_view(),
                framework.deep_view(),
                as_of,
            );
            let row = Listing {
                jurisdiction: l.list.jurisdiction.clone(),
                doc: render_list(l, as_of),
            };
            assert(before.push(row@).drop_last() =~= before);
            place(&mut rows, row);
        }
    }
    assert(s.take(s.len() as int) =~= s);
    let out = docs_of(&rows);
    let doc = Json::object().with("as_of", stamp_json(as_of)).with(
        "count",
        Json::Uint(out.len() as u64),
    ).with("trust_lists", Json::list(out));
    Reply { status: 200, doc, as_of, cache: cache_for(at) }
}

/// The reply to a request for one trust list.
pub open spec fn list_reply(
    s: StoreView,
    jur: Seq<char>,
    p: Map<Seq<char>, Seq<char>>,
    now: Timestamp,
) -> ReplyView {
    match api::asked_instant(p) {
        Err(e) => api::error_of(400, e, now),
        Ok(at) => match data::lookup::<JurisdictionList>(s.trust_lists, text::upper(jur)) {
            None => api::error_of(404, "no trust list `"@ + jur + "`"@, now),
            Some(l) => {
                let as_of = api::reading_instant(at, now);
                reading(
                    list_doc(l, as_of).put("as_of"@, api::stamped(as_of)),
                    as_of,
                    api::policy_for(at),
                )
            },
        },
    }
}

/// Serve one jurisdiction's trust list.
pub fn trust_list_one(store: &Store, jur: &str, params: &Params, now: Timestamp) -> (r: Reply)
    ensures
        r@ == list_reply(store@, jur@, params@, now),
{
    let at = match parse_at(params) {
        Ok(v) => v,
        Err(e) => return error_response(400, e.as_str(), now),
    };
    let as_of = match at {
        Some(t) => t,
        None => now,
    };
    match find_by_key(&store.trust_lists, ascii_upper(jur).as_str()) {
        None => error_response(404, join3("no trust list `", jur, "`").as_str(), now),
        Some(l) => Reply {
            status: 200,
            doc: render_list(l, as_of).with("as_of", stamp_json(as_of)),
            as_of,
            cache: cache_for(at),
        },
    }
}

// ---------------------------------------------------------------------------
// Master list
// ---------------------------------------------------------------------------

/// The checks of one entry; none where no row is for it.
pub open spec fn checks_for(rows: Seq<EntryChecksView>, node: Seq<char>) -> Seq<SlotCheckView> {
    match data::lookup::<EntryChecks>(rows, node) {
        Some(c) => c.checks,
        None => Seq::empty(),
    }
}

/// Attestations with the live verdict on each.
pub open spec fn judged_attestations(a: Seq<WitnessAttestationView>, flags: Seq<bool>) -> Seq<
    JsonView,
> {
    Seq::new(
        a.len(),
        |i: int| wire::attestation_value(a[i]).put("verified"@, JsonView::Bool(flags[i])),
    )
}

/// How many different witnesses vouch for an entry.
pub open spec fn verified_witnesses(
    e: MasterListEntryView,
    m: MasterListView,
    checks: Seq<SlotCheckView>,
) -> nat {
    wire::vouchers(e, m.witnesses, checks, e.attestations.len()).len()
}

/// A master-list entry with the live verdicts.
pub open spec fn judged_entry(
    e: MasterListEntryView,
    m: MasterListView,
    checks: Seq<SlotCheckView>,
) -> JsonView {
    let flags = wire::verified_flags(e, m.witnesses, checks);
    JsonView::object().put("node"@, JsonView::Str(e.node)).put(
        "attestations"@,
        JsonView::Arr(judged_attestations(e.attestations, flags)),
    ).put("verified_witnesses"@, JsonView::Num(verified_witnesses(e, m, checks) as int)).put(
        "quorate"@,
        JsonView::Bool(wire::entry_quorate(e, m.witnesses, m.m, checks)),
    ).put("threshold_required"@, JsonView::Num(m.m as int))
}

/// The entries of the master list with the live verdicts.
pub open spec fn judged_entries(m: MasterListView, rows: Seq<EntryChecksView>) -> Seq<JsonView> {
    Seq::new(
        m.entries.len(),
        |i: int| judged_entry(m.entries[i], m, checks_for(rows, m.entries[i].node)),
    )
}

/// The master list with the live verdicts.
pub open spec fn master_doc(m: MasterListView, rows: Seq<EntryChecksView>, as_of: Timestamp) -> JsonView {
    JsonView::object().put("as_of"@, api::stamped(as_of)).put(
        "m_of_k"@,
        JsonView::object().put("m"@, JsonView::Num(m.m as int)).put(
            "k"@,
            JsonView::Num(m.k as int),
        ),
    ).put("witnesses"@, JsonView::Arr(wire::docs::<Witness>(m.witnesses))).put(
        "entries"@,
        JsonView::Arr(judged_entries(m, rows)),
    )
}

/// The master list that a reading speaks of: its entries, and the witness set
/// of the instant asked about.
pub open spec fn master_read(s: StoreView, at: Option<Timestamp>) -> MasterListView {
    match at {
        Some(t) => store::master_as_of(s, t),
        None => s.master,
    }
}

/// The reply to a request for the master list; `rows` are the checks of its
/// entries against the witness set of the instant asked about.
pub open spec fn master_reply(
    s: StoreView,
    rows: Seq<EntryChecksView>,
    p: Map<Seq<char>, Seq<char>>,
    now: Timestamp,
) -> ReplyView {
    match api::asked_instant(p) {
        Err(e) => api::error_of(400, e, now),
        Ok(at) => {
            let as_of = api::reading_instant(at, now);
            reading(
                master_doc(master_read(s, at), rows, as_of),
                as_of,
                api::policy_for(at),
            )
        },
    }
}

fn render_judged(e: &MasterListEntry, m: &model::MasterList, checks: &Vec<SlotCheck>) -> (r: Json)
    ensures
        r@ == judged_entry(e@, m@, checks.deep_view()),
{
    let flags = attestations_verified(e, &m.witnesses, checks);
    let ghost f = flags@;
    let ghost a = e@.attestations;
    let mut out: Vec<Json> = Vec::new();
    for k in 0..e.attestations.len()
        invariant
            f == flags@,
            a == e.attestations.deep_view(),
            f.len() == a.len(),
            out.deep_view() == judged_attestations(a.take(k as int), f),
    {
        let att: &WitnessAttestation = &e.attestations[k];
        out.push(
            crate::wire::witness_attestation_to_value(att).with("verified", Json::Bool(flags[k])),
        );
        assert(judged_attestations(a.take(k + 1), f) =~= judged_attestations(
            a.take(k as int),
            f,
        ).push(
            wire::attestation_value(a[k as int]).put("verified"@, JsonView::Bool(f[k as int])),
        ));
    }
    assert(a.take(a.len() as int) =~= a);
    let count: usize = witnesses_vouching(e, &m.witnesses, checks);
    Json::object().with("node", Json::text(e.node.as_str())).with(
        "attestations",
        Json::list(out),
    ).with("verified_witnesses", Json::Uint(count as u64)).with(
        "quorate",
        Json::Bool(master_entry_quorate(e, &m.witnesses, m.m, checks)),
    ).with("threshold_required", Json::Uint(m.m as u64))
}

fn render_master(list: &model::MasterList, rows: &Vec<EntryChecks>, as_of: Timestamp) -> (r: Json)
    ensures
        r@ == master_doc(list@, rows.deep_view(), as_of),
{
    let ghost m = list@;
    let ghost c = rows.deep_view();
    let unchecked: Vec<SlotCheck> = Vec::new();
    assert(unchecked.deep_view() =~= Seq::<SlotCheckView>::empty());
    let mut entries: Vec<Json> = Vec::new();
    for k in 0..list.entries.len()
        invariant
            m == list@,
            c == rows.deep_view(),
            unchecked.deep_view() == Seq::<SlotCheckView>::empty(),
            entries@.len() == k,
            forall|i: int|
                0 <= i < k ==> (#[trigger] entries@[i])@ == judged_entry(
                    m.entries[i],
                    m,
                    checks_for(c, m.entries[i].node),
                ),
    {
        let e: &MasterListEntry = &list.entries[k];
        assert(m.entries[k as int] == e@);
        let checks: &Vec<SlotCheck> = match find_by_key(rows, e.node.as_str()) {
            Some(row) => &row.checks,
            None => &unchecked,
        };
        entries.push(render_judged(e, list, checks));
    }
    assert(entries.deep_view() =~= judged_entries(m, c));
    let shape = Json::object().with("m", Json::Uint(list.m as u64)).with(
        "k",
        Json::Uint(list.k as u64),
    );
    Json::object().with("as_of", stamp_json(as_of)).with("m_of_k", shape).with(
        "witnesses",
        witnesses_to_value(list),
    ).with("entries", Json::list(entries))
}

/// Serve the M-of-K master list with the live verdicts on its entries: the
/// attestations are held against the witness set as of the instant asked
/// about; `rows` are the checks against that set.
pub fn master_list(store: &Store, rows: &Vec<EntryChecks>, params: &Params, now: Timestamp) -> (r:
    Reply)
    ensures
        r@ == master_reply(store@, rows.deep_view(), params@, now),
{
    let at = match parse_at(params) {
        Ok(v) => v,
        Err(e) => return error_response(400, e.as_str(), now),
    };
    let (doc, as_of) = match at {
        Some(t) => (render_master(&store.master_as_of(t), rows, t), t),
        None => (render_master(&store.master, rows, now), now),
    };
    Reply { status: 200, doc, as_of, cache: cache_for(at) }
}

/// An entry is quorate exactly when at least as many different witnesses
/// vouch for it as the threshold asks for, and the reply states both numbers.
pub proof fn law_quorate_counts_witnesses(
    e: MasterListEntryView,
    m: MasterListView,
    checks: Seq<SlotCheckView>,
)
    ensures
        ({
            let d = judged_entry(e, m, checks);
            let count = verified_witnesses(e, m, checks) as int;
            &&& d.get("verified_witnesses"@) == Some(JsonView::Num(count))
            &&& d.get("threshold_required"@) == Some(JsonView::Num(m.m as int))
            &&& d.get("quorate"@) == Some(JsonView::Bool(count >= m.m))
        }),
{
    reveal_strlit("verified_witnesses");
    reveal_strlit("threshold_required");
    reveal_strlit("quorate");
    assert("verified_witnesses"@.len() == 18 && "verified_witnesses"@[0] == 'v');
    assert("threshold_required"@.len() == 18 && "threshold_required"@[0] == 't');
    assert("quorate"@.len() == 7);
}

// ---------------------------------------------------------------------------
// Revocations (live retroactivity)
// ---------------------------------------------------------------------------

/// What a request for the revocations asks about.
#[derive(Debug)]
pub struct RevocationQuery {
    pub at: Option<Timestamp>,
    pub known_by: Option<Timestamp>,
    pub subject: Option<String>,
    pub retroactive: Option<bool>,
    pub window: Option<(Timestamp, Option<Timestamp>)>,
}

/// What a query asks.
#[verifier::ext_equal]
pub struct RevocationQueryView {
    pub at: Option<Timestamp>,
    pub known_by: Option<Timestamp>,
    pub subject: Option<Seq<char>>,
    pub retroactive: Option<bool>,
    pub window: Option<(Timestamp, Option<Timestamp>)>,
}

impl DeepView for RevocationQuery {
    type V = RevocationQueryView;

    open spec fn deep_view(&self) -> RevocationQueryView {
        RevocationQueryView {
            at: self.at,
            known_by: self.known_by,
            subject: self.subject.deep_view(),
            retroactive: self.retroactive,
            window: self.window,
        }
    }
}

impl View for RevocationQuery {
    type V = RevocationQueryView;

    open spec fn view(&self) -> RevocationQueryView {
        self.deep_view()
    }
}

/// The evidentiary cutoff that a request states.
pub open spec fn asked_cutoff(p: Map<Seq<char>, Seq<char>>) -> Result<
    Option<Timestamp>,
    Seq<char>,
> {
    match api::query(p, "known_by"@) {
        None => Ok(None),
        Some(raw) => match time::parsed(raw) {
            Some(n) => Ok(Some(Timestamp { secs: n as i64 })),
            None => Err("`known_by`: "@ + time::refusal(raw)),
        },
    }
}

/// Whether a request asks for retroactive or for prospective reasons.
pub open spec fn asked_retroactivity(p: Map<Seq<char>, Seq<char>>) -> Result<
    Option<bool>,
    Seq<char>,
> {
    match api::query(p, "retroactive"@) {
        None => Ok(None),
        Some(raw) => {
            let v = text::lower(raw);
            if v == "true"@ || v == "1"@ || v == "yes"@ {
                Ok(Some(true))
            } else if v == "false"@ || v == "0"@ || v == "no"@ {
                Ok(Some(false))
            } else {
                Err("`retroactive` must be true/false: `"@ + v + "`"@)
            }
        },
    }
}

/// The query that the parameters of a request state.
pub open spec fn query_of(p: Map<Seq<char>, Seq<char>>) -> Result<RevocationQueryView, Seq<char>> {
    match api::asked_instant(p) {
        Err(e) => Err(e),
        Ok(at) => match asked_cutoff(p) {
            Err(e) => Err(e),
            Ok(known_by) => match asked_retroactivity(p) {
                Err(e) => Err(e),
                Ok(retroactive) => match api::asked_window(p) {
                    Err(e) => Err(e),
                    Ok(window) => Ok(
                        RevocationQueryView {
                            at,
                            known_by,
                            subject: api::query(p, "subject"@),
                            retroactive,
                            window,
                        },
                    ),
                },
            },
        },
    }
}

/// Two spans of time have an instant in common.
pub open spec fn overlaps(w: Interval, start: Timestamp, end: Option<Timestamp>) -> bool {
    &&& match w.to {
        Some(to) => start.secs <= to.secs,
        None => true,
    }
    &&& match end {
        Some(e) => w.from.secs <= e.secs,
        None => true,
    }
}

/// The declaration passes the filters of a query.
pub open spec fn declaration_kept(r: RevocationView, q: RevocationQueryView) -> bool {
    &&& q.retroactive is Some ==> r.reason.is_retroactive() == q.retroactive->0
    &&& q.subject is Some ==> text::has_prefix(r.subject.label(), q.subject->0)
    &&& q.window is Some ==> overlaps(r.window, (q.window->0).0, (q.window->0).1)
}

/// The declaration was made by the cutoff, if there is one.
pub open spec fn known(r: RevocationView, cutoff: Option<Timestamp>) -> bool {
    match cutoff {
        Some(c) => r.declared_at.secs <= c.secs,
        None => true,
    }
}

/// The declaration voids acts of the instant read: it is known, and it
/// reaches that instant.
pub open spec fn voided(r: RevocationView, cutoff: Option<Timestamp>, voids: bool) -> bool {
    known(r, cutoff) && voids
}

/// How acts of the instant read stand.
pub open spec fn standing(r: RevocationView, cutoff: Option<Timestamp>, voids: bool) -> Seq<char> {
    if !voided(r, cutoff, voids) {
        "valid"@
    } else if r.reason.is_retroactive() {
        "void-ab-initio"@
    } else {
        "suspended-from"@
    }
}

/// The rule that governs a declaration.
pub open spec fn governing_rule(retroactive: bool) -> Seq<char> {
    if retroactive {
        "retroactive: artifacts dated inside the window are void ab initio; outside re-validated"@
    } else {
        "prospective: acts dated before the window/open-end stand; from the effect moment onward, suspended"@
    }
}

/// The verdict on the attestation of a retroactive declaration.
pub open spec fn live_verdict(s: StoreView, r: RevocationView, checks: Seq<SlotCheckView>) -> Option<
    QuorumVerdict,
> {
    match r.quorum {
        Some(q) => if r.reason.is_retroactive() {
            Some(quorum::verdict_of(s.graph, q, checks))
        } else {
            None
        },
        None => None,
    }
}

/// An attestation with the verdict on it.
pub open spec fn judged_quorum(q: QuorumAttestationView, v: Option<QuorumVerdict>) -> JsonView {
    JsonView::object().put("quorum"@, JsonView::Str(q.quorum)).put(
        "threshold"@,
        JsonView::Num(q.threshold as int),
    ).put(
        "form"@,
        match v {
            Some(v) => JsonView::Str(v.form.spec_token()),
            None => JsonView::Null,
        },
    ).put(
        "verified_count"@,
        match v {
            Some(v) => JsonView::Num(v.member_verified as int),
            None => JsonView::Null,
        },
    ).put(
        "group_verified"@,
        match v {
            Some(v) => JsonView::Bool(v.group_verified),
            None => JsonView::Null,
        },
    ).put(
        "quorate"@,
        JsonView::Bool(
            match v {
                Some(v) => v.quorate,
                None => false,
            },
        ),
    ).put("signatures"@, JsonView::Arr(wire::docs::<SignatureSlot>(q.signatures)))
}

/// One declaration with its live reading.
pub open spec fn declaration_row(
    s: StoreView,
    i: int,
    cutoff: Option<Timestamp>,
    reading: ReadingView,
) -> JsonView {
    let r = s.ledger[i];
    JsonView::object().put("seq"@, JsonView::Num(i + 1)).put(
        "subject"@,
        wire::subject_value(r.subject),
    ).put("reason"@, wire::reason_value(r.reason)).put("declared_at"@, api::stamped(r.declared_at)).put(
        "declared_by"@,
        JsonView::Str(r.declared_by),
    ).put("window"@, wire::interval_value(r.window)).put(
        "quorum"@,
        match r.quorum {
            Some(q) => judged_quorum(q, live_verdict(s, r, reading.checks)),
            None => JsonView::Null,
        },
    ).put("known_at_cutoff"@, JsonView::Bool(known(r, cutoff))).put(
        "voids_at_as_of"@,
        JsonView::Bool(voided(r, cutoff, reading.voids)),
    ).put("standing_at_as_of"@, JsonView::Str(standing(r, cutoff, reading.voids))).put(
        "verifications_at_stand"@,
        JsonView::Bool(!voided(r, cutoff, reading.voids)),
    ).put("rule"@, JsonView::Str(governing_rule(r.reason.is_retroactive())))
}

/// The first `k` declarations of the ledger that pass the filters.
pub open spec fn declaration_rows(
    s: StoreView,
    q: RevocationQueryView,
    readings: Seq<ReadingView>,
    k: nat,
) -> Seq<JsonView>
    decreases k,
{
    if k == 0 {
        Seq::empty()
    } else {
        let before = declaration_rows(s, q, readings, (k - 1) as nat);
        if declaration_kept(s.ledger[k - 1], q) {
            before.push(declaration_row(s, k - 1, q.known_by, readings[k - 1]))
        } else {
            before
        }
    }
}

/// The reasons that leave what was done before them valid.
pub open spec fn prospective_reasons() -> Seq<Seq<char>> {
    seq!["key-compromise"@, "cessation"@, "supersession"@, "affiliation-change"@]
}

/// The reasons that void what was done before them.
pub open spec fn retroactive_reasons() -> Seq<Seq<char>> {
    seq!["misissuance"@, "fraudulent-issuance"@, "authority-compromised"@]
}

/// The semantics that a revocations reply states.
pub open spec fn semantics_doc() -> JsonView {
    JsonView::object().put(
        "prospective_reasons"@,
        JsonView::Arr(wire::strings(prospective_reasons())),
    ).put("retroactive_reasons"@, JsonView::Arr(wire::strings(retroactive_reasons()))).put(
        "rule"@,
        JsonView::Str(
            "Prospective reasons keep prior as-of verifications valid. Retroactive reasons (misissuance/fraud) void ab initio within the explicit window and re-validate outside it."@,
        ),
    )
}

/// The query as a reply repeats it.
pub open spec fn query_doc(q: RevocationQueryView) -> JsonView {
    JsonView::object().put("at"@, wire::ts_or_null(q.at)).put(
        "known_by"@,
        wire::ts_or_null(q.known_by),
    ).put("subject"@, json::text_or_null(q.subject)).put(
        "retroactive"@,
        match q.retroactive {
            Some(b) => JsonView::Bool(b),
            None => JsonView::Null,
        },
    ).put(
        "window"@,
        match q.window {
            Some((a, b)) => JsonView::object().put("start"@, api::stamped(a)).put(
                "end"@,
                wire::ts_or_null(b),
            ),
            None => JsonView::Null,
        },
    )
}

/// The reply to a request for the revocations.
pub open spec fn revocations_reply(
    s: StoreView,
    readings: Seq<ReadingView>,
    p: Map<Seq<char>, Seq<char>>,
    now: Timestamp,
) -> ReplyView {
    match query_of(p) {
        Err(e) => api::error_of(400, e, now),
        Ok(q) => {
            let as_of = api::reading_instant(q.at, now);
            let rows = declaration_rows(s, q, readings, s.ledger.len());
            reading(
                JsonView::object().put("as_of"@, api::stamped(as_of)).put(
                    "known_by"@,
                    wire::ts_or_null(q.known_by),
                ).put("query"@, query_doc(q)).put("semantics"@, semantics_doc()).put(
                    "count"@,
                    JsonView::Num(rows.len() as int),
                ).put("revocations"@, JsonView::Arr(rows)),
                as_of,
                api::policy_for(q.at),
            )
        },
    }
}

/// Read the query of a request for the revocations.
pub fn parse_query(params: &Params) -> (r: Result<RevocationQuery, String>)
    ensures
        data::shows(r, query_of(params@)),
{
    let at = match parse_at(params) {
        Ok(v) => v,
        Err(e) => return Err(e),
    };
    let known_by: Option<Timestamp> = match opt_query(params, "known_by") {
        None => None,
        Some(raw) => match Timestamp::parse(raw.as_str()) {
            Ok(t) => Some(t),
            Err(e) => return Err(join2("`known_by`: ", e.to_string().as_str())),
        },
    };
    let subject = opt_query(params, "subject");
    let retroactive: Option<bool> = match opt_query(params, "retroactive") {
        None => None,
        Some(raw) => {
            let v = ascii_lower(raw.as_str());
            if same_text(v.as_str(), "true") || same_text(v.as_str(), "1") || same_text(
                v.as_str(),
                "yes",
            ) {
                Some(true)
            } else if same_text(v.as_str(), "false") || same_text(v.as_str(), "0") || same_text(
                v.as_str(),
                "no",
            ) {
                Some(false)
            } else {
                return Err(
                    join3("`retroactive` must be true/false: `", v.as_str(), "`"),
                );
            }
        },
    };
    match parse_window_filter(params) {
        Err(e) => Err(e),
        Ok(window) => Ok(RevocationQuery { at, known_by, subject, retroactive, window }),
    }
}

fn keeps_declaration(r: &Revocation, q: &RevocationQuery) -> (b: bool)
    ensures
        b == declaration_kept(r@, q@),
{
    if let Some(retro) = q.retroactive {
        if r.reason.is_retroactive() != retro {
            return false;
        }
    }
    if let Some(subject) = &q.subject {
        if !starts_with(r.subject.label().as_str(), subject.as_str()) {
            return false;
        }
    }
    if let Some((start, end)) = q.window {
        if let Some(to) = r.window.to {
            if start.secs > to.secs {
                return false;
            }
        }
        if let Some(e) = end {
            if r.window.from.secs > e.secs {
                return false;
            }
        }
    }
    true
}

fn render_quorum(q: &QuorumAttestation, v: &Option<QuorumVerdict>) -> (r: Json)
    ensures
        r@ == judged_quorum(q@, *v),
{
    let (form, count, group, quorate) = match v {
        Some(v) => (
            Json::text(v.form.token()),
            Json::Uint(v.member_verified as u64),
            Json::Bool(v.group_verified),
            v.quorate,
        ),
        None => (Json::Null, Json::Null, Json::Null, false),
    };
    Json::object().with("quorum", Json::text(q.quorum.as_str())).with(
        "threshold",
        Json::Uint(q.threshold as u64),
    ).with("form", form).with("verified_count", count).with("group_verified", group).with(
        "quorate",
        Json::Bool(quorate),
    ).with("signatures", render_all(&q.signatures))
}

fn render_declaration(
    store: &Store,
    i: usize,
    cutoff: Option<Timestamp>,
    reading: &Reading,
) -> (d: Json)
    requires
        i < store@.ledger.len(),
        i < u64::MAX,
    ensures
        d@ == declaration_row(store@, i as int, cutoff, reading@),
{
    let r: &Revocation = &store.ledger[i];
    assert(store@.ledger[i as int] == r@);
    let retroactive = r.reason.is_retroactive();
    let known_at_cutoff = match cutoff {
        Some(c) => r.declared_at.secs <= c.secs,
        None => true,
    };
    let voids_at_as_of = known_at_cutoff && reading.voids;
    let standing_at_as_of: &str = if !voids_at_as_of {
        "valid"
    } else if retroactive {
        "void-ab-initio"
    } else {
        "suspended-from"
    };
    let quorum_doc = match &r.quorum {
        None => Json::Null,
        Some(q) => {
            let v: Option<QuorumVerdict> = if retroactive {
                Some(verdict(&store.graph, q, &reading.checks))
            } else {
                None
            };
            render_quorum(q, &v)
        },
    };
    let rule: &str = if retroactive {
        "retroactive: artifacts dated inside the window are void ab initio; outside re-validated"
    } else {
        "prospective: acts dated before the window/open-end stand; from the effect moment onward, suspended"
    };
    Json::object().with("seq", Json::Uint(i as u64 + 1)).with(
        "subject",
        revoked_subject_to_value(&r.subject),
    ).with("reason", reason_to_value(&r.reason)).with(
        "declared_at",
        stamp_json(r.declared_at),
    ).with("declared_by", Json::text(r.declared_by.as_str())).with(
        "window",
        interval_to_value(&r.window),
    ).with("quorum", quorum_doc).with("known_at_cutoff", Json::Bool(known_at_cutoff)).with(
        "voids_at_as_of",
        Json::Bool(voids_at_as_of),
    ).with("standing_at_as_of", Json::text(standing_at_as_of)).with(
        "verifications_at_stand",
        Json::Bool(!voids_at_as_of),
    ).with("rule", Json::text(rule))
}

/// The reasons that leave what was done before them valid.
pub fn prospective_reason_list() -> (r: Json)
    ensures
        r@ == JsonView::Arr(wire::strings(prospective_reasons())),
{
    let mut v: Vec<String> = Vec::new();
    v.push("key-compromise".to_owned());
    v.push("cessation".to_owned());
    v.push("supersession".to_owned());
    v.push("affiliation-change".to_owned());
    assert(v.deep_view() =~= prospective_reasons());
    render_strings(&v)
}

/// The reasons that void what was done before them.
pub fn retroactive_reason_list() -> (r: Json)
    ensures
        r@ == JsonView::Arr(wire::strings(retroactive_reasons())),
{
    let mut v: Vec<String> = Vec::new();
    v.push("misissuance".to_owned());
    v.push("fraudulent-issuance".to_owned());
    v.push("authority-compromised".to_owned());
    assert(v.deep_view() =~= retroactive_reasons());
    render_strings(&v)
}

fn render_query(q: &RevocationQuery) -> (r: Json)
    ensures
        r@ == query_doc(q@),
{
    let retroactive = match q.retroactive {
        Some(b) => Json::Bool(b),
        None => Json::Null,
    };
    let window = match q.window {
        Some((a, b)) => Json::object().with("start", stamp_json(a)).with("end", ts_json(&b)),
        None => Json::Null,
    };
    Json::object().with("at", ts_json(&q.at)).with("known_by", ts_json(&q.known_by)).with(
        "subject",
        Json::opt_text(&q.subject),
    ).with("retroactive", retroactive).with("window", window)
}

/// Serve the revocation ledger with the live retroactivity reading;
/// `readings` holds one reading per declaration of the ledger.
pub fn revocations(store: &Store, readings: &Vec<Reading>, params: &Params, now: Timestamp) -> (r:
    Reply)
    requires
        readings@.len() == store@.ledger.len(),
    ensures
        r@ == revocations_reply(store@, readings.deep_view(), params@, now),
{
    let q = match parse_query(params) {
        Ok(q) => q,
        Err(e) => return error_response(400, e.as_str(), now),
    };
    let as_of = match q.at {
        Some(t) => t,
        None => now,
    };
    let ghost s = store@;
    let ghost rd = readings.deep_view();
    let mut rows: Vec<Json> = Vec::new();
    assert(rows.deep_view() =~= Seq::<JsonView>::empty());
    let n: usize = store.ledger.len();
    for k in 0..n
        invariant
            s == store@,
            rd == readings.deep_view(),
            n == store.ledger@.len(),
            n == readings@.len(),
            rows.deep_view() == declaration_rows(s, q@, rd, k as nat),
    {
        assert(s.ledger[k as int] == store.ledger@[k as int].deep_view());
        assert(rd[k as int] == readings@[k as int].deep_view());
        if keeps_declaration(&store.ledger[k], &q) {
            rows.push(render_declaration(store, k, q.known_by, &readings[k]));
        }
    }
    let semantics = Json::object().with("prospective_reasons", prospective_reason_list()).with(
        "retroactive_reasons",
        retroactive_reason_list(),
    ).with(
        "rule",
        Json::text(
            "Prospective reasons keep prior as-of verifications valid. Retroactive reasons (misissuance/fraud) void ab initio within the explicit window and re-validate outside it.",
        ),
    );
    let doc = Json::object().with("as_of", stamp_json(as_of)).with(
        "known_by",
        ts_json(&q.known_by),
    ).with("query", render_query(&q)).with("semantics", semantics).with(
        "count",
        Json::Uint(rows.len() as u64),
    ).with("revocations", Json::list(rows));
    Reply { status: 200, doc, as_of, cache: cache_for(q.at) }
}

/// Where the model voids acts exactly inside the distrust window, a known
/// retroactive declaration leaves them void from the start to the end of
/// the window, both counted, and valid outside it.
pub proof fn law_retroactive_window(
    r: RevocationView,
    cutoff: Option<Timestamp>,
    t: Timestamp,
    voids: bool,
)
    requires
        r.reason.is_retroactive(),
        known(r, cutoff),
        voids == model::within(r.window, t.secs as int),
    ensures
        model::within(r.window, t.secs as int) ==> standing(r, cutoff, voids)
            == "void-ab-initio"@,
        !model::within(r.window, t.secs as int) ==> standing(r, cutoff, voids) == "valid"@,
{
}

/// A declaration made after the evidentiary cutoff leaves every
/// verification standing.
pub proof fn law_cutoff_protects(
    r: RevocationView,
    cutoff: Timestamp,
    voids: bool,
)
    requires
        r.declared_at.secs > cutoff.secs,
    ensures
        standing(r, Some(cutoff), voids) == "valid"@,
        !voided(r, Some(cutoff), voids),
{
}

/// A prospective declaration never voids from the start: what it reaches
/// is suspended, the rest is valid.
pub proof fn law_prospective_only_suspends(
    r: RevocationView,
    cutoff: Option<Timestamp>,
    voids: bool,
)
    requires
        !r.reason.is_retroactive(),
    ensures
        standing(r, cutoff, voids) == if known(r, cutoff) && voids {
            "suspended-from"@
        } else {
            "valid"@
        },
{
}

/// Without a filter every declaration of the ledger is served, in order.
pub proof fn law_unfiltered_rows_are_the_ledger(
    s: StoreView,
    q: RevocationQueryView,
    readings: Seq<ReadingView>,
    k: nat,
)
    requires
        q.retroactive is None,
        q.subject is None,
        q.window is None,
    ensures
        declaration_rows(s, q, readings, k).len() == k,
        forall|i: int|
            0 <= i < k ==> #[trigger] declaration_rows(s, q, readings, k)[i] == declaration_row(
                s,
                i,
                q.known_by,
                readings[i],
            ),
    decreases k,
{
    if k > 0 {
        law_unfiltered_rows_are_the_ledger(s, q, readings, (k - 1) as nat);
    }
}

/// Overlap is what it says: some instant lies in both spans.
pub proof fn law_overlap_has_a_witness(w: Interval, start: Timestamp, end: Option<Timestamp>)
    requires
        w.to is Some ==> w.from.secs <= w.to->0.secs,
        end is Some ==> start.secs <= end->0.secs,
    ensures
        overlaps(w, start, end) <==> exists|t: int|
            #[trigger] model::within(w, t) && model::within(Interval { from: start, to: end }, t),
{
    let other = Interval { from: start, to: end };
    if overlaps(w, start, end) {
        let t = if w.from.secs >= start.secs {
            w.from.secs as int
        } else {
            start.secs as int
        };
        assert(model::within(w, t) && model::within(other, t));
    }
}

// ---------------------------------------------------------------------------
// Operators
// ---------------------------------------------------------------------------

/// The keys of an operator, without their bytes.
pub open spec fn operator_keys(s: Seq<RegisteredKeyView>) -> Seq<JsonView> {
    Seq::new(
        s.len(),
        |i: int|
            JsonView::object().put("key_id"@, JsonView::Str(s[i].key_id)).put(
                "suite"@,
                JsonView::Str(s[i].public.suite),
            ),
    )
}

/// The edges into a node.
pub open spec fn edges_into(s: Seq<DelegationCredentialView>, node: Seq<char>) -> Seq<JsonView>
    decreases s.len(),
{
    if s.len() == 0 {
        Seq::empty()
    } else if s.last().child == node {
        edges_into(s.drop_last(), node).push(wire::edge_value(s.last()))
    } else {
        edges_into(s.drop_last(), node)
    }
}

/// The edges out of a node that do not lead back into it.
pub open spec fn edges_out_of(s: Seq<DelegationCredentialView>, node: Seq<char>) -> Seq<JsonView>
    decreases s.len(),
{
    if s.len() == 0 {
        Seq::empty()
    } else if s.last().child != node && s.last().parent == node {
        edges_out_of(s.drop_last(), node).push(wire::edge_value(s.last()))
    } else {
        edges_out_of(s.drop_last(), node)
    }
}

/// A membership in one trust list, read at an instant.
pub open spec fn membership(
    key: Seq<char>,
    e: TrustListEntryRecordView,
    at: Timestamp,
) -> JsonView {
    JsonView::object().put("jurisdiction"@, JsonView::Str(key)).put(
        "not_before"@,
        api::stamped(e.not_before),
    ).put("superseded_at"@, wire::ts_or_null(e.superseded_at)).put(
        "in_force_at_as_of"@,
        JsonView::Bool(e.in_force_at(at)),
    )
}

/// The memberships of a node, in the order of the trust lists.
pub open spec fn memberships(s: Seq<JurisdictionListView>, node: Seq<char>, at: Timestamp) -> Seq<
    JsonView,
>
    decreases s.len(),
{
    if s.len() == 0 {
        Seq::empty()
    } else {
        let before = memberships(s.drop_last(), node, at);
        match data::lookup::<TrustListEntryRecord>(s.last().list.entries, node) {
            Some(e) => before.push(membership(s.last().key, e, at)),
            None => before,
        }
    }
}

/// The witnesses of attestations.
pub open spec fn attesting(a: Seq<WitnessAttestationView>) -> Seq<Seq<char>> {
    Seq::new(a.len(), |i: int| a[i].witness)
}

/// The master-list standing of a node.
pub open spec fn master_standing(m: MasterListView, node: Seq<char>) -> JsonView {
    match data::lookup::<MasterListEntry>(m.entries, node) {
        Some(e) => JsonView::object().put(
            "attested_by"@,
            JsonView::Num(e.attestations.len() as int),
        ).put("witnesses"@, JsonView::Arr(wire::strings(attesting(e.attestations)))),
        None => JsonView::Null,
    }
}

/// The declarations that name a node.
pub open spec fn declarations_on(s: Seq<RevocationView>, node: Seq<char>) -> Seq<JsonView>
    decreases s.len(),
{
    if s.len() == 0 {
        Seq::empty()
    } else if s.last().subject == RevokedSubjectView::Node(node) {
        declarations_on(s.drop_last(), node).push(wire::revocation_value(s.last()))
    } else {
        declarations_on(s.drop_last(), node)
    }
}

/// The credential directory of one operator.
pub open spec fn operator_doc(
    s: StoreView,
    n: DelegationNodeView,
    kind: Seq<char>,
    as_of: Timestamp,
) -> JsonView {
    JsonView::object().put("operator"@, JsonView::Str(n.id)).put("kind"@, JsonView::Str(kind)).put(
        "keys"@,
        JsonView::Arr(operator_keys(n.keys)),
    ).put("delegated_by"@, JsonView::Arr(edges_into(s.graph.edges, n.id))).put(
        "delegates"@,
        JsonView::Arr(edges_out_of(s.graph.edges, n.id)),
    ).put("trust_list_memberships"@, JsonView::Arr(memberships(s.trust_lists, n.id, as_of))).put(
        "master_list"@,
        master_standing(s.master, n.id),
    ).put("revocations"@, JsonView::Arr(declarations_on(s.ledger, n.id))).put(
        "as_of"@,
        api::stamped(as_of),
    )
}

/// The reply to a request for an operator.
pub open spec fn operator_reply(
    s: StoreView,
    raw: Seq<char>,
    id: Option<Seq<char>>,
    kind: Seq<char>,
    p: Map<Seq<char>, Seq<char>>,
    now: Timestamp,
) -> ReplyView {
    match api::asked_instant(p) {
        Err(e) => api::error_of(400, e, now),
        Ok(at) => match id {
            None => api::error_of(400, "`"@ + raw + "` is not a valid operator node id"@, now),
            Some(id) => match data::lookup::<DelegationNode>(s.graph.nodes, id) {
                None => api::error_of(404, "no operator `"@ + raw + "`"@, now),
                Some(n) => {
                    let as_of = api::reading_instant(at, now);
                    reading(operator_doc(s, n, kind, as_of), as_of, api::policy_for(at))
                },
            },
        },
    }
}

fn render_operator_keys(v: &Vec<RegisteredKey>) -> (r: Json)
    ensures
        r@ == JsonView::Arr(operator_keys(v.deep_view())),
{
    let mut out: Vec<Json> = Vec::new();
    for k in 0..v.len()
        invariant
            out@.len() == k,
            forall|i: int|
                0 <= i < k ==> (#[trigger] out@[i])@ == operator_keys(v.deep_view())[i],
    {
        let key: &RegisteredKey = &v[k];
        assert(v.deep_view()[k as int] == key@);
        out.push(
            Json::object().with("key_id", Json::text(key.key_id.as_str())).with(
                "suite",
                Json::text(key.public.suite.as_str()),
            ),
        );
    }
    assert(out.deep_view() =~= operator_keys(v.deep_view()));
    Json::list(out)
}

fn render_edges(v: &Vec<DelegationCredential>, node: &str) -> (r: (Json, Json))
    ensures
        r.0@ == JsonView::Arr(edges_into(v.deep_view(), node@)),
        r.1@ == JsonView::Arr(edges_out_of(v.deep_view(), node@)),
{
    let ghost s = v.deep_view();
    let mut into: Vec<Json> = Vec::new();
    let mut out: Vec<Json> = Vec::new();
    assert(into.deep_view() =~= edges_into(s.take(0), node@));
    assert(out.deep_view() =~= edges_out_of(s.take(0), node@));
    for k in 0..v.len()
        invariant
            s == v.deep_view(),
            into.deep_view() == edges_into(s.take(k as int), node@),
            out.deep_view() == edges_out_of(s.take(k as int), node@),
    {
        let e: &DelegationCredential = &v[k];
        assert(s.take(k + 1).drop_last() =~= s.take(k as int));
        assert(s.take(k + 1).last() == e@);
        if same_text(e.child.as_str(), node) {
            into.push(edge_to_value(e));
        } else if same_text(e.parent.as_str(), node) {
            out.push(edge_to_value(e));
        }
    }
    assert(s.take(s.len() as int) =~= s);
    (Json::list(into), Json::list(out))
}

fn render_memberships(v: &Vec<JurisdictionList>, node: &str, at: Timestamp) -> (r: Json)
    ensures
        r@ == JsonView::Arr(memberships(v.deep_view(), node@, at)),
{
    let ghost s = v.deep_view();
    let mut out: Vec<Json> = Vec::new();
    assert(out.deep_view() =~= memberships(s.take(0), node@, at));
    for k in 0..v.len()
        invariant
            s == v.deep_view(),
            out.deep_view() == memberships(s.take(k as int), node@, at),
    {
        let l: &JurisdictionList = &v[k];
        assert(s.take(k + 1).drop_last() =~= s.take(k as int));
        assert(s.take(k + 1).last() == l@);
        if let Some(e) = find_by_key(&l.list.entries, node) {
            out.push(
                Json::object().with("jurisdiction", Json::text(l.key.as_str())).with(
                    "not_before",
                    stamp_json(e.not_before),
                ).with("superseded_at", ts_json(&e.superseded_at)).with(
                    "in_force_at_as_of",
                    Json::Bool(e.in_force_at(at)),
                ),
            );
        }
    }
    assert(s.take(s.len() as int) =~= s);
    Json::list(out)
}

fn render_master_standing(m: &model::MasterList, node: &str) -> (r: Json)
    ensures
        r@ == master_standing(m@, node@),
{
    match find_by_key(&m.entries, node) {
        None => Json::Null,
        Some(e) => {
            let mut names: Vec<String> = Vec::new();
            for k in 0..e.attestations.len()
                invariant
                    names@.len() == k,
                    forall|i: int|
                        0 <= i < k ==> (#[trigger] names@[i])@ == attesting(e@.attestations)[i],
            {
                assert(e@.attestations[k as int] == e.attestations@[k as int].deep_view());
                names.push(e.attestations[k].witness.clone());
            }
            assert(names.deep_view() =~= attesting(e@.attestations));
            Json::object().with("attested_by", Json::Uint(e.attestations.len() as u64)).with(
                "witnesses",
                render_strings(&names),
            )
        },
    }
}

fn render_declarations_on(v: &Vec<Revocation>, node: &str) -> (r: Json)
    ensures
        r@ == JsonView::Arr(declarations_on(v.deep_view(), node@)),
{
    let ghost s = v.deep_view();
    let mut out: Vec<Json> = Vec::new();
    assert(out.deep_view() =~= declarations_on(s.take(0), node@));
    for k in 0..v.len()
        invariant
            s == v.deep_view(),
            out.deep_view() == declarations_on(s.take(k as int), node@),
    {
        let r: &Revocation = &v[k];
        assert(s.take(k + 1).drop_last() =~= s.take(k as int));
        assert(s.take(k + 1).last() == r@);
        if let RevokedSubject::Node(id) = &r.subject {
            if same_text(id.as_str(), node) {
                out.push(revocation_to_value(r));
            }
        }
    }
    assert(s.take(s.len() as int) =~= s);
    Json::list(out)
}

/// Serve the operator surface for one node. `id` is the node id that the
/// path names, if it is one; `kind` is the text of the node's kind.
pub fn operator_view(
    store: &Store,
    raw: &str,
    id: &Option<String>,
    kind: &str,
    params: &Params,
    now: Timestamp,
) -> (r: Reply)
    ensures
        r@ == operator_reply(store@, raw@, id.deep_view(), kind@, params@, now),
{
    let at = match parse_at(params) {
        Ok(v) => v,
        Err(e) => return error_response(400, e.as_str(), now),
    };
    let as_of = match at {
        Some(t) => t,
        None => now,
    };
    let id = match id {
        Some(id) => id,
        None => return error_response(
            400,
            join3("`", raw, "` is not a valid operator node id").as_str(),
            now,
        ),
    };
    let n = match find_by_key(&store.graph.nodes, id.as_str()) {
        Some(n) => n,
        None => return error_response(404, join3("no operator `", raw, "`").as_str(), now),
    };
    proof {
        lemma_lookup_key(store@.graph.nodes, id@);
    }
    let (delegated_by, delegates) = render_edges(&store.graph.edges, n.id.as_str());
    let doc = Json::object().with("operator", Json::text(n.id.as_str())).with(
        "kind",
        Json::text(kind),
    ).with("keys", render_operator_keys(&n.keys)).with("delegated_by", delegated_by).with(
        "delegates",
        delegates,
    ).with(
        "trust_list_memberships",
        render_memberships(&store.trust_lists, n.id.as_str(), as_of),
    ).with("master_list", render_master_standing(&store.master, n.id.as_str())).with(
        "revocations",
        render_declarations_on(&store.ledger, n.id.as_str()),
    ).with("as_of", stamp_json(as_of));
    Reply { status: 200, doc, as_of, cache: cache_for(at) }
}

proof fn lemma_lookup_key(s: Seq<DelegationNodeView>, id: Seq<char>)
    ensures
        data::lookup::<DelegationNode>(s, id) matches Some(n) ==> n.id == id,
    decreases s.len(),
{
    if s.len() > 0 && s[0].id != id {
        lemma_lookup_key(s.drop_first(), id);
    }
}

// ---------------------------------------------------------------------------
// Audit log
// ---------------------------------------------------------------------------

/// A number parameter, with a default where it is missing or no number.
pub open spec fn number_param(p: Map<Seq<char>, Seq<char>>, name: Seq<char>, default: nat) -> nat {
    match api::param(p, name) {
        Some(v) => match text::number_of(v, 10, usize::MAX as nat) {
            Some(n) => n,
            None => default,
        },
        None => default,
    }
}

/// The number of records to return: 100 unless stated, at most 10 000.
pub open spec fn asked_limit(p: Map<Seq<char>, Seq<char>>) -> nat {
    let n = number_param(p, "limit"@, 100);
    if n < 10_000 {
        n
    } else {
        10_000
    }
}

/// The reply to a request for the audit log.
pub open spec fn log_reply(
    s: StoreView,
    token: Option<Seq<char>>,
    authorization: Option<Seq<char>>,
    p: Map<Seq<char>, Seq<char>>,
    now: Timestamp,
) -> ReplyView {
    if !api::authorised(token, authorization) {
        api::denial(now)
    } else {
        reading(
            store::log_value(
                s.log,
                asked_limit(p) as usize,
                number_param(p, "offset"@, 0) as usize,
            ).put("as_of"@, api::stamped(now)),
            now,
            CachePolicy::Current,
        )
    }
}

fn usize_param(params: &Params, name: &str, default: usize) -> (r: usize)
    ensures
        r == number_param(params@, name@, default as nat),
{
    match params.get(name) {
        Some(v) => match parse_number(v, 10, usize::MAX as u64) {
            Some(n) => n as usize,
            None => default,
        },
        None => default,
    }
}

/// Serve the append-only audit log.
pub fn admin_log(
    store: &Store,
    token: &Option<String>,
    authorization: &Option<String>,
    params: &Params,
    now: Timestamp,
) -> (r: Reply)
    ensures
        r@ == log_reply(store@, token.deep_view(), authorization.deep_view(), params@, now),
{
    if let Some(deny) = require_admin(token, authorization, now) {
        return deny;
    }
    let asked: usize = usize_param(params, "limit", 100);
    let limit: usize = if asked < 10_000 {
        asked
    } else {
        10_000
    };
    let offset: usize = usize_param(params, "offset", 0);
    Reply {
        status: 200,
        doc: store.log_json(limit, offset).with("as_of", stamp_json(now)),
        as_of: now,
        cache: CachePolicy::Current,
    }
}

// ---------------------------------------------------------------------------
// Instants and caching
// ---------------------------------------------------------------------------

/// The reply speaks of that instant under that policy, unless it states an
/// error.
pub open spec fn speaks_of(r: ReplyView, t: Timestamp, cache: CachePolicy) -> bool {
    r.status == 200 ==> r.as_of == t && r.cache == cache
}

/// A reading that names an instant speaks of that instant and is cached as
/// fixed; one that names none speaks of now and is revalidated.
pub proof fn law_named_instants_are_fixed(
    s: StoreView,
    rows: Seq<EntryChecksView>,
    readings: Seq<ReadingView>,
    name: Seq<char>,
    id: Option<Seq<char>>,
    kind: Seq<char>,
    p: Map<Seq<char>, Seq<char>>,
    now: Timestamp,
)
    requires
        api::asked_instant(p) is Ok,
    ensures
        ({
            let at = api::asked_instant(p)->Ok_0;
            let t = api::reading_instant(at, now);
            let cache = if at is Some {
                CachePolicy::PointInTime
            } else {
                CachePolicy::Current
            };
            &&& speaks_of(graph_reply(s, p, now), t, cache)
            &&& speaks_of(bundle_reply(s, p, now), t, cache)
            &&& speaks_of(lists_reply(s, p, now), t, cache)
            &&& speaks_of(list_reply(s, name, p, now), t, cache)
            &&& speaks_of(master_reply(s, rows, p, now), t, cache)
            &&& speaks_of(revocations_reply(s, readings, p, now), t, cache)
            &&& speaks_of(operator_reply(s, name, id, kind, p, now), t, cache)
        }),
{
}

/// A freshly seeded service answers for every instant from the minting of the
/// fixture graph on with the fixture state: the graph, the bundle and the
/// master list of the scenario are the live ones, stamped with the instant.
pub proof fn law_scenario_instants_are_served(
    k: seed::SeedKeysView,
    m: seed::MintedView,
    fixtures: Seq<(store::OpView, store::RulingView)>,
    seeded_at: Timestamp,
    rows: Seq<EntryChecksView>,
    p: Map<Seq<char>, Seq<char>>,
    now: Timestamp,
    t: Timestamp,
)
    requires
        seed::admitted(k, m, fixtures),
        api::asked_instant(p) == Ok::<Option<Timestamp>, Seq<char>>(Some(t)),
        t.secs >= seed::T0,
    ensures
        ({
            let s = store::opened(Seq::empty(), true, fixtures, seeded_at);
            let cache = CachePolicy::PointInTime;
            &&& graph_reply(s, p, now) == reading(graph_doc(s, t), t, cache)
            &&& master_reply(s, rows, p, now) == reading(master_doc(s.master, rows, t), t, cache)
            &&& api::query(p, "jurisdiction"@) matches Some(jur) ==> bundle_reply(s, p, now)
                == bundle_from(s, jur, t, cache, now)
        }),
{
    seed::law_fixtures_stand_from_their_instants(k, m, fixtures, seeded_at, t);
    let s = store::opened(Seq::empty(), true, fixtures, seeded_at);
    assert(store::master_as_of(s, t) == s.master);
}

/// What is recorded after a named instant does not change the graph and the
/// bundle of that instant, nor the witness set that the master list is held
/// against; the master list changes by its entries alone.
pub proof fn law_named_instants_stay(
    s: StoreView,
    record: store::AuditRecordView,
    ruling: store::RulingView,
    rows: Seq<EntryChecksView>,
    p: Map<Seq<char>, Seq<char>>,
    now: Timestamp,
    t: Timestamp,
)
    requires
        s.rulings.len() == s.log.len(),
        s.fixtures <= s.log.len(),
        api::asked_instant(p) == Ok::<Option<Timestamp>, Seq<char>>(Some(t)),
        record.recorded_at.secs > t.secs,
    ensures
        ({
            let later = store::logged(s, record, ruling);
            &&& graph_reply(later, p, now) == graph_reply(s, p, now)
            &&& bundle_reply(later, p, now) == bundle_reply(s, p, now)
            &&& !(record.op is UpsertMasterEntry) ==> master_reply(later, rows, p, now)
                == master_reply(s, rows, p, now)
            &&& master_reply(later, rows, p, now).doc.get("witnesses"@) == master_reply(
                s,
                rows,
                p,
                now,
            ).doc.get("witnesses"@)
            &&& master_reply(later, rows, p, now).doc.get("m_of_k"@) == master_reply(
                s,
                rows,
                p,
                now,
            ).doc.get("m_of_k"@)
        }),
{
    laws::law_the_past_is_fixed(s, record, ruling, t);
    reveal_strlit("witnesses");
    reveal_strlit("m_of_k");
    reveal_strlit("entries");
    assert("witnesses"@.len() == 9 && "m_of_k"@.len() == 6 && "entries"@.len() == 7);
}

/// Every reading, an error too, is stamped in its body with the instant it
/// speaks of.
pub proof fn law_every_reading_is_stamped(
    s: StoreView,
    rows: Seq<EntryChecksView>,
    readings: Seq<ReadingView>,
    name: Seq<char>,
    id: Option<Seq<char>>,
    kind: Seq<char>,
    token: Option<Seq<char>>,
    authorization: Option<Seq<char>>,
    p: Map<Seq<char>, Seq<char>>,
    now: Timestamp,
)
    ensures
        api::is_stamped(graph_reply(s, p, now)),
        api::is_stamped(bundle_reply(s, p, now)),
        api::is_stamped(lists_reply(s, p, now)),
        api::is_stamped(list_reply(s, name, p, now)),
        api::is_stamped(master_reply(s, rows, p, now)),
        api::is_stamped(revocations_reply(s, readings, p, now)),
        api::is_stamped(operator_reply(s, name, id, kind, p, now)),
        api::is_stamped(log_reply(s, token, authorization, p, now)),
{
    lemma_as_of_apart();
}

/// `as_of` is told apart from the other members of the replies.
proof fn lemma_as_of_apart()
    ensures
        "as_of"@.len() == 5,
        "as_of"@[0] == 'a',
        "node_count"@.len() == 10,
        "edge_count"@.len() == 10,
        "nodes"@.len() == 5 && "nodes"@[0] == 'n',
        "edges"@.len() == 5 && "edges"@[0] == 'e',
        "jurisdiction"@.len() == 12,
        "trust_lists"@.len() == 11,
        "master"@.len() == 6,
        "count"@.len() == 5 && "count"@[0] == 'c',
        "m_of_k"@.len() == 6,
        "witnesses"@.len() == 9,
        "entries"@.len() == 7,
        "known_by"@.len() == 8,
        "query"@.len() == 5 && "query"@[0] == 'q',
        "semantics"@.len() == 9,
        "revocations"@.len() == 11,
{
    reveal_strlit("as_of");
    reveal_strlit("node_count");
    reveal_strlit("edge_count");
    reveal_strlit("nodes");
    reveal_strlit("edges");
    reveal_strlit("jurisdiction");
    reveal_strlit("trust_lists");
    reveal_strlit("master");
    reveal_strlit("count");
    reveal_strlit("m_of_k");
    reveal_strlit("witnesses");
    reveal_strlit("entries");
    reveal_strlit("known_by");
    reveal_strlit("query");
    reveal_strlit("semantics");
    reveal_strlit("revocations");
}

} // verus!
