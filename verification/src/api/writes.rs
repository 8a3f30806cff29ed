//! The mutations: nodes, edges, trust lists and their entries, witnesses,
//! master-list entries and revocations.
//!
//! Every mutation is admitted by the bearer token, read from a JSON body and
//! submitted to the store; it is answered with the audit sequence number, or
//! with an error that leaves the store as it was.

use vstd::prelude::*;

use crate::api;
use crate::api::{error_response, opt_str, parse_body, req_str, require_admin, stamp_json, store_error, validate_token, CachePolicy, Reply, ReplyView};
use crate::codec;
use crate::data;
use crate::data::{find_by_key, Dup};
use crate::json;
use crate::json::{Json, JsonView};
use crate::judge::{Judgements, JudgementsView};
use crate::model::{DelegationNode, MasterList, TrustListEntryRecordView, Witness, WitnessAttestation};
use crate::store;
use crate::store::{witness_map, OpView, Ruling, RulingView, Store, StoreError, StoreErrorView, StoreView};
use crate::text;
use crate::text::{ascii_upper, trim};
use crate::time::Timestamp;
use crate::wire;
use crate::wire::{edge_from_value, edge_to_value, interval_to_value, master_entry_from_value, node_from_value, node_to_value, reason_to_value, render_all, revocation_from_value, revoked_subject_to_value, trust_entry_from_value, ts_json, witnesses_from_value, witnesses_to_value};

verus! {

broadcast use {data::lemma_deep_push, data::lemma_deep_bytes, data::lemma_deep_len};

/// What a mutation request carries besides its path.
pub struct Request {
    /// The configured bearer token, if there is one.
    pub token: Option<String>,
    /// The `authorization` header, if it is there and is text.
    pub authorization: Option<String>,
    /// The text of the body.
    pub body: String,
    /// What the trust model makes of the names and keys in the body.
    pub judgements: Judgements,
    /// What the trust model rules on the mutation.
    pub ruling: Ruling,
    /// The instant of the request.
    pub now: Timestamp,
}

/// What a request says.
pub struct RequestView {
    pub token: Option<Seq<char>>,
    pub authorization: Option<Seq<char>>,
    pub body: Seq<char>,
    pub judgements: JudgementsView,
    pub ruling: RulingView,
    pub now: Timestamp,
}

impl View for Request {
    type V = RequestView;

    open spec fn view(&self) -> RequestView {
        RequestView {
            token: self.token.deep_view(),
            authorization: self.authorization.deep_view(),
            body: self.body@,
            judgements: self.judgements@,
            ruling: self.ruling@,
            now: self.now,
        }
    }
}

/// The body of a request that is admitted, or the reply that turns it away.
pub open spec fn admission(
    token: Option<Seq<char>>,
    authorization: Option<Seq<char>>,
    body: Seq<char>,
    now: Timestamp,
) -> Result<JsonView, ReplyView> {
    if !api::authorised(token, authorization) {
        Err(api::denial(now))
    } else {
        match api::body_of(codec::text_doc(body)) {
            Ok(d) => Ok(d),
            Err(e) => Err(api::error_of(400, e, now)),
        }
    }
}

/// The body of a request that is admitted, or the reply that turns it away.
pub open spec fn admitted(q: RequestView) -> Result<JsonView, ReplyView> {
    admission(q.token, q.authorization, q.body, q.now)
}

/// The result is that value, or that reply.
pub open spec fn gives<T: DeepView>(r: Result<T, Reply>, v: Result<T::V, ReplyView>) -> bool {
    match v {
        Ok(x) => r is Ok && (r->Ok_0).deep_view() == x,
        Err(e) => r is Err && (r->Err_0)@ == e,
    }
}

/// The store after a mutation was submitted, or why it is refused.
pub open spec fn performed(s: StoreView, op: OpView, at: Timestamp, ruling: RulingView) -> Result<
    StoreView,
    StoreErrorView,
> {
    match store::applied(s, op, ruling) {
        Ok(_) => Ok(store::logged(s, store::next_record(s, op, at), ruling)),
        Err(e) => Err(e),
    }
}

/// The audit sequence number that the next mutation gets.
pub open spec fn next_seq(s: StoreView) -> JsonView {
    JsonView::Num((s.log.len() + 1) as u64 as int)
}

/// The reply to a mutation that was taken.
pub open spec fn created(doc: JsonView, now: Timestamp) -> ReplyView {
    ReplyView { status: 201, doc, as_of: now, cache: CachePolicy::NoStore }
}

/// Read the body of a request that is admitted.
pub fn read_body(
    token: &Option<String>,
    authorization: &Option<String>,
    body: &str,
    now: Timestamp,
) -> (r: Result<Json, Reply>)
    ensures
        gives(r, admission(token.deep_view(), authorization.deep_view(), body@, now)),
{
    if let Some(deny) = require_admin(token, authorization, now) {
        return Err(deny);
    }
    match parse_body(body) {
        Ok(d) => Ok(d),
        Err(e) => Err(error_response(400, e.as_str(), now)),
    }
}

fn answer(doc: Json, now: Timestamp) -> (r: Reply)
    ensures
        r@ == created(doc@, now),
{
    Reply { status: 201, doc, as_of: now, cache: CachePolicy::NoStore }
}

// ---------------------------------------------------------------------------
// Nodes and edges
// ---------------------------------------------------------------------------

/// The reply to a node registration, and the store after it. The stored
/// node is stated: its keys are those posted merged into those known.
pub open spec fn node_outcome(s: StoreView, q: RequestView) -> (ReplyView, StoreView) {
    match admitted(q) {
        Err(r) => (r, s),
        Ok(d) => match wire::node_of(d, q.judgements) {
            Err(e) => (api::error_of(400, e, q.now), s),
            Ok(node) => match performed(s, OpView::RegisterNode { node }, q.now, q.ruling) {
                Err(e) => (api::failure_of(e, q.now), s),
                Ok(after) => (
                    created(
                        wire::node_value(store::registered(s.graph.nodes, node)).put(
                            "audit_seq"@,
                            next_seq(s),
                        ).put("as_of"@, api::stamped(q.now)),
                        q.now,
                    ),
                    after,
                ),
            },
        },
    }
}

/// Register a trust-graph node.
pub fn register_node(store: &mut Store, request: Request) -> (r: Reply)
    requires
        old(store)@.log.len() < u64::MAX,
    ensures
        (r@, final(store)@) == node_outcome(old(store)@, request@),
{
    let now = request.now;
    let ghost s = store@;
    let v = match read_body(&request.token, &request.authorization, request.body.as_str(), now) {
        Ok(v) => v,
        Err(r) => return r,
    };
    let node = match node_from_value(&v, &request.judgements) {
        Ok(n) => n,
        Err(e) => return error_response(400, e.as_str(), now),
    };
    let id = node.id.clone();
    let ghost posted = node@;
    let rec = match store.register_node(node, now, &request.ruling) {
        Ok(rec) => rec,
        Err(e) => return store_error(e, now),
    };
    proof {
        let kept = store::registered(s.graph.nodes, posted);
        lemma_registered_id(s.graph.nodes, posted);
        data::lemma_filed_lookup::<DelegationNode>(s.graph.nodes, kept, posted.id);
    }
    match find_by_key(&store.graph.nodes, id.as_str()) {
        Some(stored) => answer(
            node_to_value(stored).with("audit_seq", Json::Uint(rec.seq)).with(
                "as_of",
                stamp_json(now),
            ),
            now,
        ),
        None => {
            assert(false);
            answer(Json::object(), now)
        },
    }
}

proof fn lemma_registered_id(
    nodes: Seq<crate::model::DelegationNodeView>,
    node: crate::model::DelegationNodeView,
)
    ensures
        store::registered(nodes, node).id == node.id,
{
}

/// The reply to a delegation credential, and the store after it.
pub open spec fn edge_outcome(s: StoreView, q: RequestView) -> (ReplyView, StoreView) {
    match admitted(q) {
        Err(r) => (r, s),
        Ok(d) => match wire::edge_of(d, q.judgements) {
            Err(e) => (api::error_of(400, e, q.now), s),
            Ok(credential) => match performed(s, OpView::AddEdge { credential }, q.now, q.ruling) {
                Err(e) => (api::failure_of(e, q.now), s),
                Ok(after) => (
                    created(
                        wire::edge_value(credential).put("audit_seq"@, next_seq(s)).put(
                            "as_of"@,
                            api::stamped(q.now),
                        ),
                        q.now,
                    ),
                    after,
                ),
            },
        },
    }
}

/// Add a delegation credential to the trust graph.
pub fn add_edge(store: &mut Store, request: Request) -> (r: Reply)
    requires
        old(store)@.log.len() < u64::MAX,
    ensures
        (r@, final(store)@) == edge_outcome(old(store)@, request@),
{
    let now = request.now;
    let v = match read_body(&request.token, &request.authorization, request.body.as_str(), now) {
        Ok(v) => v,
        Err(r) => return r,
    };
    let cred = match edge_from_value(&v, &request.judgements) {
        Ok(c) => c,
        Err(e) => return error_response(400, e.as_str(), now),
    };
    let doc = edge_to_value(&cred);
    match store.add_edge(cred, now, &request.ruling) {
        Ok(rec) => answer(
            doc.with("audit_seq", Json::Uint(rec.seq)).with("as_of", stamp_json(now)),
            now,
        ),
        Err(e) => store_error(e, now),
    }
}

// ---------------------------------------------------------------------------
// Trust lists
// ---------------------------------------------------------------------------

/// The upsert of one entry.
pub open spec fn entry_op(jurisdiction: Seq<char>, e: TrustListEntryRecordView) -> OpView {
    OpView::UpsertTrustEntry {
        jurisdiction,
        node: e.node,
        not_before: e.not_before,
        superseded_at: e.superseded_at,
    }
}

/// The store after one entry of a body was upserted, or the reply that
/// refuses it and the store as it was.
#[verifier::opaque]
pub open spec fn entry_outcome(
    s: StoreView,
    jurisdiction: Seq<char>,
    entry: JsonView,
    q: RequestView,
) -> (Option<ReplyView>, StoreView) {
    match wire::entry_of(entry, q.judgements) {
        Err(e) => (Some(api::error_of(400, e, q.now)), s),
        Ok(e) => match performed(s, entry_op(jurisdiction, e), q.now, q.ruling) {
            Err(f) => (Some(api::failure_of(f, q.now)), s),
            Ok(after) => (None, after),
        },
    }
}

/// The store after the entries of a body were upserted one by one, and the
/// reply that stopped it, if one did: the entries before it stay.
pub open spec fn entries_outcome(
    s: StoreView,
    jurisdiction: Seq<char>,
    entries: Seq<JsonView>,
    q: RequestView,
) -> (Option<ReplyView>, StoreView)
    decreases entries.len(),
{
    if entries.len() == 0 {
        (None, s)
    } else {
        let (stopped, before) = entries_outcome(s, jurisdiction, entries.drop_last(), q);
        match stopped {
            Some(r) => (Some(r), before),
            None => entry_outcome(before, jurisdiction, entries.last(), q),
        }
    }
}

/// The initial entries of a trust-list body.
pub open spec fn initial_entries(d: JsonView) -> Seq<JsonView> {
    match d.array_at("entries"@) {
        Some(s) => s,
        None => Seq::empty(),
    }
}

/// What a trust-list registration states.
pub open spec fn trust_list_doc(
    jurisdiction: Seq<char>,
    framework: Option<Seq<char>>,
    seq: JsonView,
    now: Timestamp,
) -> JsonView {
    JsonView::object().put("jurisdiction"@, JsonView::Str(text::upper(jurisdiction))).put(
        "framework"@,
        json::text_or_null(framework),
    ).put("audit_seq"@, seq).put("as_of"@, api::stamped(now))
}

/// The reply to a trust-list registration, and the store after it.
pub open spec fn trust_list_outcome(s: StoreView, q: RequestView) -> (ReplyView, StoreView) {
    match admitted(q) {
        Err(r) => (r, s),
        Ok(d) => match api::required_text(d, "jurisdiction"@) {
            Err(e) => (api::error_of(400, e, q.now), s),
            Ok(raw) => {
                let jurisdiction = text::trimmed(raw);
                let framework = api::optional_text(d, "framework"@);
                if !api::is_token(jurisdiction) {
                    (
                        api::error_of(
                            400,
                            "`"@ + "jurisdiction"@
                                + "` must be 1-256 characters without `/` or whitespace"@,
                            q.now,
                        ),
                        s,
                    )
                } else {
                    match performed(
                        s,
                        OpView::RegisterTrustList { jurisdiction, framework },
                        q.now,
                        q.ruling,
                    ) {
                        Err(e) => (api::failure_of(e, q.now), s),
                        Ok(listed) => {
                            let (stopped, after) = entries_outcome(
                                listed,
                                jurisdiction,
                                initial_entries(d),
                                q,
                            );
                            match stopped {
                                Some(r) => (r, after),
                                None => (
                                    created(
                                        trust_list_doc(jurisdiction, framework, next_seq(s), q.now),
                                        q.now,
                                    ),
                                    after,
                                ),
                            }
                        },
                    }
                }
            },
        },
    }
}

/// How many mutations a trust-list registration records at most.
pub open spec fn records_at_most(q: RequestView) -> nat {
    match admitted(q) {
        Err(_) => 0,
        Ok(d) => 1 + initial_entries(d).len(),
    }
}

/// What an optional reply says.
pub open spec fn reply_view(r: Option<Reply>) -> Option<ReplyView> {
    match r {
        Some(r) => Some(r@),
        None => None,
    }
}

fn upsert_entry(store: &mut Store, jurisdiction: &str, entry: &Json, request: &Request) -> (r:
    Option<Reply>)
    requires
        old(store)@.log.len() < u64::MAX,
    ensures
        (reply_view(r), final(store)@) == entry_outcome(
            old(store)@,
            jurisdiction@,
            entry@,
            request@,
        ),
        r is None ==> final(store)@.log.len() == old(store)@.log.len() + 1,
{
    proof {
        reveal(entry_outcome);
    }
    let entry = match trust_entry_from_value(entry, &request.judgements) {
        Ok(e) => e,
        Err(e) => return Some(error_response(400, e.as_str(), request.now)),
    };
    match store.upsert_trust_entry(jurisdiction.to_owned(), entry, request.now, &request.ruling) {
        Ok(_) => None,
        Err(e) => Some(store_error(e, request.now)),
    }
}

fn upsert_entries(
    store: &mut Store,
    jurisdiction: &str,
    entries: &Vec<Json>,
    request: &Request,
) -> (r: Option<Reply>)
    requires
        old(store)@.log.len() + entries@.len() <= u64::MAX,
    ensures
        (reply_view(r), final(store)@) == entries_outcome(
            old(store)@,
            jurisdiction@,
            entries.deep_view(),
            request@,
        ),
{
    let ghost s = store@;
    let ghost all = entries.deep_view();
    let ghost q = request@;
    let n: usize = entries.len();
    assert(all.take(0) =~= Seq::<JsonView>::empty());
    for k in 0..n
        invariant
            n == entries@.len(),
            all == entries.deep_view(),
            q == request@,
            s == old(store)@,
            s.log.len() + n <= u64::MAX,
            store@.log.len() == s.log.len() + k,
            entries_outcome(s, jurisdiction@, all.take(k as int), q) == (
                None::<ReplyView>,
                store@,
            ),
    {
        assert(all.take(k + 1).drop_last() =~= all.take(k as int));
        assert(all.take(k + 1).last() == entries@[k as int]@);
        let stopped = upsert_entry(store, jurisdiction, &entries[k], request);
        if stopped.is_some() {
            proof {
                lemma_stopped_early(s, jurisdiction@, all, k + 1, q);
            }
            return stopped;
        }
    }
    assert(all.take(n as int) =~= all);
    None
}

/// Where the first entries stop the registration, later ones change nothing.
proof fn lemma_stopped_early(
    s: StoreView,
    jurisdiction: Seq<char>,
    entries: Seq<JsonView>,
    k: int,
    q: RequestView,
)
    requires
        0 <= k <= entries.len(),
        entries_outcome(s, jurisdiction, entries.take(k), q).0 is Some,
    ensures
        entries_outcome(s, jurisdiction, entries, q) == entries_outcome(
            s,
            jurisdiction,
            entries.take(k),
            q,
        ),
    decreases entries.len(),
{
    if k < entries.len() {
        assert(entries.drop_last().take(k) =~= entries.take(k));
        lemma_stopped_early(s, jurisdiction, entries.drop_last(), k, q);
    } else {
        assert(entries.take(k) =~= entries);
    }
}

/// Register a jurisdiction trust list, with its initial entries.
pub fn register_trust_list(store: &mut Store, request: Request) -> (r: Reply)
    requires
        old(store)@.log.len() + records_at_most(request@) <= u64::MAX,
    ensures
        (r@, final(store)@) == trust_list_outcome(old(store)@, request@),
{
    let now = request.now;
    let v = match read_body(&request.token, &request.authorization, request.body.as_str(), now) {
        Ok(v) => v,
        Err(r) => return r,
    };
    let jurisdiction = match req_str(&v, "jurisdiction") {
        Ok(s) => trim(s.as_str()),
        Err(e) => return error_response(400, e.as_str(), now),
    };
    if let Err(e) = validate_token(jurisdiction.as_str(), "jurisdiction") {
        return error_response(400, e.as_str(), now);
    }
    let framework = opt_str(&v, "framework");
    let rec = match store.register_trust_list(
        jurisdiction.clone(),
        framework.dup(),
        now,
        &request.ruling,
    ) {
        Ok(rec) => rec,
        Err(e) => return store_error(e, now),
    };
    if let Some(entries) = v.array_at("entries") {
        let stopped = upsert_entries(store, jurisdiction.as_str(), entries, &request);
        if let Some(r) = stopped {
            return r;
        }
    }
    answer(
        Json::object().with(
            "jurisdiction",
            Json::Str(ascii_upper(jurisdiction.as_str())),
        ).with("framework", Json::opt_text(&framework)).with(
            "audit_seq",
            Json::Uint(rec.seq),
        ).with("as_of", stamp_json(now)),
        now,
    )
}

/// Register a jurisdiction trust list where the log has room for it and for
/// its initial entries; where it has not, nothing is done.
pub fn register_trust_list_in_room(store: &mut Store, request: Request) -> (r: Option<Reply>)
    ensures
        match r {
            Some(r) => {
                &&& old(store)@.log.len() + records_at_most(request@) <= u64::MAX
                &&& (r@, final(store)@) == trust_list_outcome(old(store)@, request@)
            },
            None => {
                &&& old(store)@.log.len() + records_at_most(request@) > u64::MAX
                &&& final(store)@ == old(store)@
            },
        },
{
    let records: u64 = match read_body(
        &request.token,
        &request.authorization,
        request.body.as_str(),
        request.now,
    ) {
        Ok(v) => match v.array_at("entries") {
            Some(entries) => if entries.len() as u64 == u64::MAX {
                return None;
            } else {
                1 + entries.len() as u64
            },
            None => 1,
        },
        Err(_) => 0,
    };
    if u64::MAX - (store.log.len() as u64) < records {
        return None;
    }
    Some(register_trust_list(store, request))
}

/// What an entry upsert states.
pub open spec fn trust_entry_doc(
    jurisdiction: Seq<char>,
    e: TrustListEntryRecordView,
    seq: JsonView,
    now: Timestamp,
) -> JsonView {
    JsonView::object().put("jurisdiction"@, JsonView::Str(jurisdiction)).put(
        "node"@,
        JsonView::Str(e.node),
    ).put("not_before"@, api::stamped(e.not_before)).put(
        "superseded_at"@,
        wire::ts_or_null(e.superseded_at),
    ).put("audit_seq"@, seq).put("as_of"@, api::stamped(now))
}

/// The reply to an entry upsert, and the store after it.
pub open spec fn trust_entry_outcome(s: StoreView, jurisdiction: Seq<char>, q: RequestView) -> (
    ReplyView,
    StoreView,
) {
    match admitted(q) {
        Err(r) => (r, s),
        Ok(d) => match wire::entry_of(d, q.judgements) {
            Err(e) => (api::error_of(400, e, q.now), s),
            Ok(entry) => match performed(s, entry_op(jurisdiction, entry), q.now, q.ruling) {
                Err(e) => (api::failure_of(e, q.now), s),
                Ok(after) => (
                    created(trust_entry_doc(jurisdiction, entry, next_seq(s), q.now), q.now),
                    after,
                ),
            },
        },
    }
}

/// Upsert one entry of a jurisdiction trust list.
pub fn upsert_trust_entry(store: &mut Store, jurisdiction: &str, request: Request) -> (r: Reply)
    requires
        old(store)@.log.len() < u64::MAX,
    ensures
        (r@, final(store)@) == trust_entry_outcome(old(store)@, jurisdiction@, request@),
{
    let now = request.now;
    let v = match read_body(&request.token, &request.authorization, request.body.as_str(), now) {
        Ok(v) => v,
        Err(r) => return r,
    };
    let entry = match trust_entry_from_value(&v, &request.judgements) {
        Ok(e) => e,
        Err(e) => return error_response(400, e.as_str(), now),
    };
    let doc = Json::object().with("jurisdiction", Json::text(jurisdiction)).with(
        "node",
        Json::text(entry.node.as_str()),
    ).with("not_before", stamp_json(entry.not_before)).with(
        "superseded_at",
        ts_json(&entry.superseded_at),
    );
    match store.upsert_trust_entry(jurisdiction.to_owned(), entry, now, &request.ruling) {
        Ok(rec) => answer(
            doc.with("audit_seq", Json::Uint(rec.seq)).with("as_of", stamp_json(now)),
            now,
        ),
        Err(e) => store_error(e, now),
    }
}

// ---------------------------------------------------------------------------
// Master list
// ---------------------------------------------------------------------------

/// What a new witness set states.
pub open spec fn witnesses_doc(
    m: usize,
    witnesses: Seq<crate::model::WitnessView>,
    seq: JsonView,
    now: Timestamp,
) -> JsonView {
    JsonView::object().put("m"@, JsonView::Num(m as int)).put(
        "k"@,
        JsonView::Num(witnesses.len() as int),
    ).put(
        "witnesses"@,
        JsonView::Arr(wire::docs::<Witness>(store::witness_set(witnesses))),
    ).put("audit_seq"@, seq).put("as_of"@, api::stamped(now))
}

/// The reply to a new witness set, and the store after it.
pub open spec fn witnesses_outcome(s: StoreView, q: RequestView) -> (ReplyView, StoreView) {
    match admitted(q) {
        Err(r) => (r, s),
        Ok(d) => match (d.u64_at("m"@), d.array_at("witnesses"@)) {
            (None, _) => (api::error_of(400, "`m` (number >= 1) is required"@, q.now), s),
            (Some(_), None) => (api::error_of(400, "`witnesses` array is required"@, q.now), s),
            (Some(n), Some(items)) => match wire::read_all::<Witness>(items, q.judgements) {
                Err(e) => (api::error_of(400, e, q.now), s),
                Ok(witnesses) => match performed(
                    s,
                    OpView::SetWitnesses { m: n as usize, witnesses },
                    q.now,
                    q.ruling,
                ) {
                    Err(e) => (api::failure_of(e, q.now), s),
                    Ok(after) => (
                        created(witnesses_doc(n as usize, witnesses, next_seq(s), q.now), q.now),
                        after,
                    ),
                },
            },
        },
    }
}

/// Replace the witness set of the master list.
pub fn set_witnesses(store: &mut Store, request: Request) -> (r: Reply)
    requires
        old(store)@.log.len() < u64::MAX,
    ensures
        (r@, final(store)@) == witnesses_outcome(old(store)@, request@),
{
    let now = request.now;
    let v = match read_body(&request.token, &request.authorization, request.body.as_str(), now) {
        Ok(v) => v,
        Err(r) => return r,
    };
    let m: usize = match v.u64_at("m") {
        Some(n) => n as usize,
        None => return error_response(400, "`m` (number >= 1) is required", now),
    };
    let items = match v.get("witnesses") {
        Some(a) => a,
        None => return error_response(400, "`witnesses` array is required", now),
    };
    if items.as_array().is_none() {
        return error_response(400, "`witnesses` array is required", now);
    }
    let witnesses = match witnesses_from_value(items, &request.judgements) {
        Ok(w) => w,
        Err(e) => return error_response(400, e.as_str(), now),
    };
    let k: usize = witnesses.len();
    let set = witness_map(&witnesses);
    let listed = MasterList { m, k: set.len(), witnesses: set, entries: Vec::new() };
    let shown = witnesses_to_value(&listed);
    match store.set_witnesses(m, witnesses, now, &request.ruling) {
        Ok(rec) => answer(
            Json::object().with("m", Json::Uint(m as u64)).with("k", Json::Uint(k as u64)).with(
                "witnesses",
                shown,
            ).with("audit_seq", Json::Uint(rec.seq)).with("as_of", stamp_json(now)),
            now,
        ),
        Err(e) => store_error(e, now),
    }
}

/// What a master-list upsert states.
pub open spec fn master_entry_doc(
    e: crate::model::MasterListEntryView,
    seq: JsonView,
    now: Timestamp,
) -> JsonView {
    JsonView::object().put("node"@, JsonView::Str(e.node)).put(
        "attestations"@,
        JsonView::Arr(wire::docs::<WitnessAttestation>(e.attestations)),
    ).put("audit_seq"@, seq).put("as_of"@, api::stamped(now))
}

/// The reply to a master-list upsert, and the store after it.
pub open spec fn master_entry_outcome(s: StoreView, q: RequestView) -> (ReplyView, StoreView) {
    match admitted(q) {
        Err(r) => (r, s),
        Ok(d) => match wire::master_entry_of(d, q.judgements) {
            Err(e) => (api::error_of(400, e, q.now), s),
            Ok(entry) => match performed(
                s,
                OpView::UpsertMasterEntry { entry },
                q.now,
                q.ruling,
            ) {
                Err(e) => (api::failure_of(e, q.now), s),
                Ok(after) => (
                    created(master_entry_doc(entry, next_seq(s), q.now), q.now),
                    after,
                ),
            },
        },
    }
}

/// Upsert one master-list entry.
pub fn upsert_master_entry(store: &mut Store, request: Request) -> (r: Reply)
    requires
        old(store)@.log.len() < u64::MAX,
    ensures
        (r@, final(store)@) == master_entry_outcome(old(store)@, request@),
{
    let now = request.now;
    let v = match read_body(&request.token, &request.authorization, request.body.as_str(), now) {
        Ok(v) => v,
        Err(r) => return r,
    };
    let entry = match master_entry_from_value(&v, &request.judgements) {
        Ok(e) => e,
        Err(e) => return error_response(400, e.as_str(), now),
    };
    let doc = Json::object().with("node", Json::text(entry.node.as_str())).with(
        "attestations",
        render_all(&entry.attestations),
    );
    match store.upsert_master_entry(entry, now, &request.ruling) {
        Ok(rec) => answer(
            doc.with("audit_seq", Json::Uint(rec.seq)).with("as_of", stamp_json(now)),
            now,
        ),
        Err(e) => store_error(e, now),
    }
}

// ---------------------------------------------------------------------------
// Revocations
// ---------------------------------------------------------------------------

/// What a declaration states.
pub open spec fn declaration_doc(
    r: crate::model::RevocationView,
    seq: JsonView,
    now: Timestamp,
) -> JsonView {
    JsonView::object().put("subject"@, wire::subject_value(r.subject)).put(
        "reason"@,
        wire::reason_value(r.reason),
    ).put("declared_at"@, api::stamped(r.declared_at)).put(
        "declared_by"@,
        JsonView::Str(r.declared_by),
    ).put("window"@, wire::interval_value(r.window)).put("audit_seq"@, seq).put(
        "as_of"@,
        api::stamped(now),
    )
}

/// The reply to a declaration that the store refuses: on the merits it is
/// unprocessable.
pub open spec fn declaration_refusal(e: StoreErrorView, now: Timestamp) -> ReplyView {
    match e {
        StoreErrorView::Invalid(m) => api::error_of(422, m, now),
        StoreErrorView::Conflict(m) => api::error_of(409, m, now),
        StoreErrorView::NotFound(m) => api::error_of(404, m, now),
    }
}

/// The reply to a declaration, and the store after it.
pub open spec fn declaration_outcome(s: StoreView, q: RequestView) -> (ReplyView, StoreView) {
    match admitted(q) {
        Err(r) => (r, s),
        Ok(d) => match wire::revocation_of(d, q.judgements) {
            Err(e) => (api::error_of(400, e, q.now), s),
            Ok(revocation) => match performed(
                s,
                OpView::DeclareRevocation { revocation },
                q.now,
                q.ruling,
            ) {
                Err(e) => (declaration_refusal(e, q.now), s),
                Ok(after) => (
                    created(declaration_doc(revocation, next_seq(s), q.now), q.now),
                    after,
                ),
            },
        },
    }
}

/// Declare a revocation.
pub fn declare_revocation(store: &mut Store, request: Request) -> (r: Reply)
    requires
        old(store)@.log.len() < u64::MAX,
    ensures
        (r@, final(store)@) == declaration_outcome(old(store)@, request@),
{
    let now = request.now;
    let v = match read_body(&request.token, &request.authorization, request.body.as_str(), now) {
        Ok(v) => v,
        Err(r) => return r,
    };
    let revocation = match revocation_from_value(&v, &request.judgements) {
        Ok(d) => d,
        Err(e) => return error_response(400, e.as_str(), now),
    };
    let doc = Json::object().with(
        "subject",
        revoked_subject_to_value(&revocation.subject),
    ).with("reason", reason_to_value(&revocation.reason)).with(
        "declared_at",
        stamp_json(revocation.declared_at),
    ).with("declared_by", Json::text(revocation.declared_by.as_str())).with(
        "window",
        interval_to_value(&revocation.window),
    );
    match store.declare_revocation(revocation, now, &request.ruling) {
        Ok(rec) => answer(
            doc.with("audit_seq", Json::Uint(rec.seq)).with("as_of", stamp_json(now)),
            now,
        ),
        Err(StoreError::Invalid(m)) => error_response(422, m.as_str(), now),
        Err(StoreError::Conflict(m)) => error_response(409, m.as_str(), now),
        Err(StoreError::NotFound(m)) => error_response(404, m.as_str(), now),
    }
}

// ---------------------------------------------------------------------------
// Laws
// ---------------------------------------------------------------------------

/// Without the configured token every mutation is answered with a denial,
/// and the store stays as it was.
pub proof fn law_no_mutation_without_the_token(s: StoreView, jurisdiction: Seq<char>, q: RequestView)
    requires
        !api::authorised(q.token, q.authorization),
    ensures
        node_outcome(s, q) == (api::denial(q.now), s),
        edge_outcome(s, q) == (api::denial(q.now), s),
        trust_list_outcome(s, q) == (api::denial(q.now), s),
        trust_entry_outcome(s, jurisdiction, q) == (api::denial(q.now), s),
        witnesses_outcome(s, q) == (api::denial(q.now), s),
        master_entry_outcome(s, q) == (api::denial(q.now), s),
        declaration_outcome(s, q) == (api::denial(q.now), s),
{
}

/// A mutation that is not answered with success leaves the store as it was.
/// (A trust list whose initial entries fail is registered all the same,
/// so it is not among these.)
pub proof fn law_refused_mutation_changes_nothing(
    s: StoreView,
    jurisdiction: Seq<char>,
    q: RequestView,
)
    ensures
        node_outcome(s, q).0.status != 201 ==> node_outcome(s, q).1 == s,
        edge_outcome(s, q).0.status != 201 ==> edge_outcome(s, q).1 == s,
        trust_entry_outcome(s, jurisdiction, q).0.status != 201 ==> trust_entry_outcome(
            s,
            jurisdiction,
            q,
        ).1 == s,
        witnesses_outcome(s, q).0.status != 201 ==> witnesses_outcome(s, q).1 == s,
        master_entry_outcome(s, q).0.status != 201 ==> master_entry_outcome(s, q).1 == s,
        declaration_outcome(s, q).0.status != 201 ==> declaration_outcome(s, q).1 == s,
{
}

/// Every mutation that is answered with success adds one record to the log,
/// and states its sequence number.
pub proof fn law_success_states_the_record(s: StoreView, jurisdiction: Seq<char>, q: RequestView)
    ensures
        ({
            let (r, after) = edge_outcome(s, q);
            r.status == 201 ==> after.log.len() == s.log.len() + 1 && r.doc.get("audit_seq"@)
                == Some(next_seq(s))
        }),
        ({
            let (r, after) = trust_entry_outcome(s, jurisdiction, q);
            r.status == 201 ==> after.log.len() == s.log.len() + 1 && r.doc.get("audit_seq"@)
                == Some(next_seq(s))
        }),
        ({
            let (r, after) = witnesses_outcome(s, q);
            r.status == 201 ==> after.log.len() == s.log.len() + 1 && r.doc.get("audit_seq"@)
                == Some(next_seq(s))
        }),
        ({
            let (r, after) = master_entry_outcome(s, q);
            r.status == 201 ==> after.log.len() == s.log.len() + 1 && r.doc.get("audit_seq"@)
                == Some(next_seq(s))
        }),
        ({
            let (r, after) = declaration_outcome(s, q);
            r.status == 201 ==> after.log.len() == s.log.len() + 1 && r.doc.get("audit_seq"@)
                == Some(next_seq(s))
        }),
        ({
            let (r, after) = node_outcome(s, q);
            r.status == 201 ==> after.log.len() == s.log.len() + 1 && r.doc.get("audit_seq"@)
                == Some(next_seq(s))
        }),
{
    lemma_seq_name();
}

proof fn lemma_entries_logged(
    s: StoreView,
    jurisdiction: Seq<char>,
    entries: Seq<JsonView>,
    q: RequestView,
)
    requires
        entries_outcome(s, jurisdiction, entries, q).0 is None,
    ensures
        entries_outcome(s, jurisdiction, entries, q).1.log.len() == s.log.len() + entries.len(),
    decreases entries.len(),
{
    reveal(entry_outcome);
    if entries.len() > 0 {
        lemma_entries_logged(s, jurisdiction, entries.drop_last(), q);
    }
}

/// A trust list that is registered with success adds one record to the log
/// for itself and one for each initial entry, and states the number of the
/// first.
pub proof fn law_trust_list_states_its_record(s: StoreView, q: RequestView)
    ensures
        ({
            let (r, after) = trust_list_outcome(s, q);
            r.status == 201 ==> {
                &&& admitted(q) is Ok
                &&& after.log.len() == s.log.len() + 1 + initial_entries(admitted(q)->Ok_0).len()
                &&& r.doc.get("audit_seq"@) == Some(next_seq(s))
            }
        }),
{
    lemma_seq_name();
    if trust_list_outcome(s, q).0.status == 201 {
        let d = admitted(q)->Ok_0;
        let jurisdiction = text::trimmed(api::required_text(d, "jurisdiction"@)->Ok_0);
        let framework = api::optional_text(d, "framework"@);
        let op = OpView::RegisterTrustList { jurisdiction, framework };
        let listed = performed(s, op, q.now, q.ruling)->Ok_0;
        lemma_entry_replies(listed, jurisdiction, initial_entries(d), q);
        lemma_entries_logged(listed, jurisdiction, initial_entries(d), q);
    }
}

/// An entry that stops a registration is never answered with success, and
/// the answer is stamped.
proof fn lemma_entry_replies(
    s: StoreView,
    jurisdiction: Seq<char>,
    entries: Seq<JsonView>,
    q: RequestView,
)
    ensures
        entries_outcome(s, jurisdiction, entries, q).0 matches Some(r) ==> r.status != 201
            && api::is_stamped(r),
    decreases entries.len(),
{
    reveal(entry_outcome);
    if entries.len() > 0 {
        lemma_entry_replies(s, jurisdiction, entries.drop_last(), q);
    }
}

/// A declaration that is answered with success is the newest of the ledger,
/// and those before it are untouched.
pub proof fn law_accepted_declaration_joins_the_ledger(s: StoreView, q: RequestView)
    ensures
        declaration_outcome(s, q).0.status == 201 ==> {
            &&& admitted(q) is Ok
            &&& wire::revocation_of(admitted(q)->Ok_0, q.judgements) is Ok
            &&& declaration_outcome(s, q).1.ledger == s.ledger.push(
                wire::revocation_of(admitted(q)->Ok_0, q.judgements)->Ok_0,
            )
        },
{
}

/// `as_of` and `audit_seq` are two names.
proof fn lemma_seq_name()
    ensures
        "as_of"@ != "audit_seq"@,
{
    reveal_strlit("as_of");
    reveal_strlit("audit_seq");
    assert("as_of"@.len() != "audit_seq"@.len());
}

/// Every reply to a mutation, an error too, is stamped in its body with the
/// instant it speaks of.
pub proof fn law_every_mutation_is_stamped(s: StoreView, jurisdiction: Seq<char>, q: RequestView)
    ensures
        api::is_stamped(node_outcome(s, q).0),
        api::is_stamped(edge_outcome(s, q).0),
        api::is_stamped(trust_list_outcome(s, q).0),
        api::is_stamped(trust_entry_outcome(s, jurisdiction, q).0),
        api::is_stamped(witnesses_outcome(s, q).0),
        api::is_stamped(master_entry_outcome(s, q).0),
        api::is_stamped(declaration_outcome(s, q).0),
{
    if let Ok(d) = admitted(q) {
        if let Ok(raw) = api::required_text(d, "jurisdiction"@) {
            let jurisdiction = text::trimmed(raw);
            let op = OpView::RegisterTrustList {
                jurisdiction,
                framework: api::optional_text(d, "framework"@),
            };
            if let Ok(listed) = performed(s, op, q.now, q.ruling) {
                lemma_entry_replies(listed, jurisdiction, initial_entries(d), q);
            }
        }
    }
}

/// A result gives another exactly when both are the same value or the same
/// reply.
pub proof fn law_given_results<T: DeepView>(r: Result<T, Reply>, v: Result<T::V, ReplyView>)
    ensures
        gives(r, v) <==> {
            &&& r is Ok <==> v is Ok
            &&& r is Ok ==> (r->Ok_0).deep_view() == v->Ok_0
            &&& r is Err ==> (r->Err_0)@ == v->Err_0
        },
{
}

} // verus!
