//! What the mutations answer and what they leave: which status each request
//! gets, what its reply states, and which part of the store it changes.

use vstd::prelude::*;

use crate::api;
use crate::api::answers;
use crate::api::evidence as documents;
use crate::api::writes;
use crate::api::writes::RequestView;
use crate::codec;
use crate::data;
use crate::data::Keyed;
use crate::evidence;
use crate::json::JsonView;
use crate::laws;
use crate::model::{
    DelegationNode, MasterListEntry, TrustListEntryRecord, TrustListView, Witness, WitnessView,
};
use crate::quorum;
use crate::statements;
use crate::store;
use crate::store::{JurisdictionList, JurisdictionListView, OpView, StoreView};
use crate::text;
use crate::time;
use crate::time::Timestamp;
use crate::wire;

verus! {

/// The request carries the configured token, or none is configured, and its
/// body states `d`.
pub open spec fn carries(q: RequestView, d: JsonView) -> bool {
    &&& q.token matches Some(t) ==> (q.authorization matches Some(h) && h == "Bearer "@ + t)
    &&& codec::text_doc(q.body) == Ok::<JsonView, Seq<char>>(d)
}

/// The log has one record more, of the mutation, at the instant of the
/// request, under the next number.
pub open spec fn recorded(s: StoreView, after: StoreView, op: OpView, now: Timestamp) -> bool {
    &&& after.log.len() == s.log.len() + 1
    &&& forall|i: int| 0 <= i < s.log.len() ==> #[trigger] after.log[i] == s.log[i]
    &&& after.log[s.log.len() as int].op == op
    &&& after.log[s.log.len() as int].recorded_at == now
    &&& after.log[s.log.len() as int].seq == s.log.len() + 1
}

/// The reply states an error, and the store is as it was.
pub open spec fn refused(
    r: (api::ReplyView, StoreView),
    s: StoreView,
    status: u16,
    message: Seq<char>,
) -> bool {
    &&& r.0.status == status
    &&& r.0.doc.get("error"@) == Some(JsonView::Str(message))
    &&& r.1 == s
}

proof fn lemma_error_name()
    ensures
        "error"@ != "as_of"@,
        "audit_seq"@ != "as_of"@,
{
    reveal_strlit("error");
    reveal_strlit("as_of");
    reveal_strlit("audit_seq");
    assert("error"@.len() == 5 && "error"@[0] == 'e');
    assert("as_of"@.len() == 5 && "as_of"@[0] == 'a');
    assert("audit_seq"@.len() == 9);
}

/// Every mutation is closed to a request that does not carry the token: it
/// is answered 401, whatever it asks for, and nothing changes.
pub proof fn law_mutations_are_closed(
    s: StoreView,
    jurisdiction: Seq<char>,
    q: RequestView,
    t: Seq<char>,
)
    requires
        q.token == Some(t),
        q.authorization != Some("Bearer "@ + t),
    ensures
        refused(writes::node_outcome(s, q), s, 401, "unauthorized"@),
        refused(writes::edge_outcome(s, q), s, 401, "unauthorized"@),
        refused(writes::trust_list_outcome(s, q), s, 401, "unauthorized"@),
        refused(writes::trust_entry_outcome(s, jurisdiction, q), s, 401, "unauthorized"@),
        refused(writes::witnesses_outcome(s, q), s, 401, "unauthorized"@),
        refused(writes::master_entry_outcome(s, q), s, 401, "unauthorized"@),
        refused(writes::declaration_outcome(s, q), s, 401, "unauthorized"@),
        refused(documents::registration_outcome(s, q), s, 401, "unauthorized"@),
{
    lemma_error_name();
}

/// A body that states no document is answered 400 with the reason.
pub proof fn law_bodies_are_documents(
    s: StoreView,
    jurisdiction: Seq<char>,
    q: RequestView,
    e: Seq<char>,
)
    requires
        q.token is None,
        codec::text_doc(q.body) == Err::<JsonView, Seq<char>>(e),
    ensures
        refused(writes::node_outcome(s, q), s, 400, "invalid JSON body: "@ + e),
        refused(writes::edge_outcome(s, q), s, 400, "invalid JSON body: "@ + e),
        refused(writes::trust_list_outcome(s, q), s, 400, "invalid JSON body: "@ + e),
        refused(writes::trust_entry_outcome(s, jurisdiction, q), s, 400, "invalid JSON body: "@ + e),
        refused(writes::witnesses_outcome(s, q), s, 400, "invalid JSON body: "@ + e),
        refused(writes::master_entry_outcome(s, q), s, 400, "invalid JSON body: "@ + e),
        refused(writes::declaration_outcome(s, q), s, 400, "invalid JSON body: "@ + e),
        refused(documents::registration_outcome(s, q), s, 400, "invalid JSON body: "@ + e),
{
    lemma_error_name();
}

// ---------------------------------------------------------------------------
// Declarations
// ---------------------------------------------------------------------------

/// Misissuance, fraudulent issuance and a compromised authority are never
/// declared without a quorum: such a declaration is refused in every state
/// of the store, which stays as it was.
pub proof fn law_voiding_needs_a_quorum(s: StoreView, q: RequestView, d: JsonView, x: JsonView)
    requires
        codec::text_doc(q.body) == Ok::<JsonView, Seq<char>>(d),
        d.get("reason"@) == Some(x),
        x.get("token"@) == Some(JsonView::Str("misissuance"@)) || x.get("token"@) == Some(
            JsonView::Str("fraudulent-issuance"@),
        ) || x.get("token"@) == Some(JsonView::Str("authority-compromised"@)),
        d.get("quorum"@) is None || d.get("quorum"@) == Some(JsonView::Null),
    ensures
        writes::declaration_outcome(s, q).0.status != 201,
        writes::declaration_outcome(s, q).1 == s,
        carries(q, d) && wire::revocation_of(d, q.judgements) is Ok ==> writes::declaration_outcome(
            s,
            q,
        ).0.status == 422,
{
    reveal_strlit("misissuance");
    reveal_strlit("fraudulent-issuance");
    reveal_strlit("authority-compromised");
    reveal_strlit("key-compromise");
    reveal_strlit("cessation");
    reveal_strlit("supersession");
    reveal_strlit("affiliation-change");
    reveal_strlit("condition-withdrawal");
    assert("misissuance"@.len() == 11);
    assert("fraudulent-issuance"@.len() == 19);
    assert("authority-compromised"@.len() == 21);
    assert("key-compromise"@.len() == 14);
    assert("cessation"@.len() == 9);
    assert("supersession"@.len() == 12);
    assert("affiliation-change"@.len() == 18);
    assert("condition-withdrawal"@.len() == 20);
    assert(d.get("quorum"@) is None || d.get("quorum"@)->0 is Null);
}

/// A reason that only ends needs no quorum: a declaration of it that can be
/// read, and that the ledger takes, is accepted in every state of the store.
pub proof fn law_ending_needs_no_quorum(s: StoreView, q: RequestView, d: JsonView, x: JsonView)
    requires
        carries(q, d),
        wire::revocation_of(d, q.judgements) is Ok,
        d.get("reason"@) == Some(x),
        x.get("token"@) matches Some(JsonView::Str(t)) && statements::ending_token(t),
        q.ruling.ledger is None,
    ensures
        writes::declaration_outcome(s, q).0.status == 201,
        writes::declaration_outcome(s, q).1.ledger.len() == s.ledger.len() + 1,
{
    reveal_strlit("misissuance");
    reveal_strlit("fraudulent-issuance");
    reveal_strlit("authority-compromised");
    reveal_strlit("key-compromise");
    reveal_strlit("cessation");
    reveal_strlit("supersession");
    reveal_strlit("affiliation-change");
    reveal_strlit("condition-withdrawal");
    assert("misissuance"@.len() == 11);
    assert("fraudulent-issuance"@.len() == 19);
    assert("authority-compromised"@.len() == 21);
    assert("key-compromise"@.len() == 14);
    assert("cessation"@.len() == 9);
    assert("supersession"@.len() == 12);
    assert("affiliation-change"@.len() == 18);
    assert("condition-withdrawal"@.len() == 20);
}

/// A declaration that can be read is accepted exactly when its reason only
/// ends or a quorate attestation stands behind it, and the ledger takes it.
/// The reply states it, and it is the last of the ledger; nothing else but
/// the log changes. Otherwise the answer is 422.
pub proof fn law_declaration_answer(s: StoreView, q: RequestView, d: JsonView)
    requires
        carries(q, d),
        wire::revocation_of(d, q.judgements) is Ok,
        s.log.len() < u64::MAX,
    ensures
        ({
            let (r, after) = writes::declaration_outcome(s, q);
            let x = wire::revocation_of(d, q.judgements)->Ok_0;
            &&& r.status == 201 || r.status == 422
            &&& r.status == 201 <==> (statements::ending_token(x.reason.token()) || (
            x.quorum matches Some(a) && quorum::is_quorate(s.graph, a, q.ruling.checks)))
                && q.ruling.ledger is None
            &&& r.status == 201 ==> {
                &&& statements::states_declaration(r.doc, x)
                &&& r.doc.get("audit_seq"@) == Some(JsonView::Num(s.log.len() as int + 1))
                &&& after.ledger == s.ledger.push(x)
                &&& recorded(s, after, OpView::DeclareRevocation { revocation: x }, q.now)
                &&& after.graph == s.graph && after.trust_lists == s.trust_lists && after.master
                    == s.master && after.evidence == s.evidence
            }
            &&& r.status == 422 ==> after == s
        }),
{
    let x = wire::revocation_of(d, q.judgements)->Ok_0;
    statements::law_retroactive_reasons(x.reason);
    statements::law_parts_are_stated(x.reason, x.subject, x.window);
    reveal_strlit("subject");
    reveal_strlit("reason");
    reveal_strlit("declared_at");
    reveal_strlit("declared_by");
    reveal_strlit("window");
    reveal_strlit("audit_seq");
    reveal_strlit("as_of");
    assert("subject"@.len() == 7);
    assert("reason"@.len() == 6 && "reason"@[0] == 'r');
    assert("window"@.len() == 6 && "window"@[0] == 'w');
    assert("declared_at"@.len() == 11 && "declared_at"@[9] == 'a');
    assert("declared_by"@.len() == 11 && "declared_by"@[9] == 'b');
    assert("audit_seq"@.len() == 9);
    assert("as_of"@.len() == 5);
}

// ---------------------------------------------------------------------------
// Nodes and edges
// ---------------------------------------------------------------------------

/// A node that can be read is registered: the reply shows it as it now
/// stands, and nothing but the graph and the log changes.
pub proof fn law_node_answer(s: StoreView, q: RequestView, d: JsonView, other: Seq<char>)
    requires
        carries(q, d),
        wire::node_of(d, q.judgements) is Ok,
        s.log.len() < u64::MAX,
    ensures
        ({
            let (r, after) = writes::node_outcome(s, q);
            let n = wire::node_of(d, q.judgements)->Ok_0;
            let now = data::lookup::<DelegationNode>(after.graph.nodes, n.id);
            &&& r.status == 201
            &&& r.doc.get("id"@) == Some(JsonView::Str(n.id))
            &&& r.doc.get("audit_seq"@) == Some(JsonView::Num(s.log.len() as int + 1))
            &&& now matches Some(k) && k.id == n.id && k.kind == n.kind && r.doc.get("kind"@)
                == Some(wire::node_kind_value(k.kind)) && (r.doc.get("keys"@) matches Some(
                JsonView::Arr(a),
            ) && a.len() == k.keys.len())
            &&& other != n.id ==> data::lookup::<DelegationNode>(after.graph.nodes, other)
                == data::lookup::<DelegationNode>(s.graph.nodes, other)
            &&& after.graph.edges == s.graph.edges
            &&& recorded(s, after, OpView::RegisterNode { node: n }, q.now)
            &&& after.trust_lists == s.trust_lists && after.master == s.master && after.ledger
                == s.ledger && after.evidence == s.evidence
        }),
{
    let n = wire::node_of(d, q.judgements)->Ok_0;
    let kept = store::registered(s.graph.nodes, n);
    data::lemma_filed_lookup::<DelegationNode>(s.graph.nodes, kept, n.id);
    data::lemma_filed_lookup::<DelegationNode>(s.graph.nodes, kept, other);
    reveal_strlit("id");
    reveal_strlit("kind");
    reveal_strlit("keys");
    reveal_strlit("audit_seq");
    reveal_strlit("as_of");
    assert("id"@.len() == 2);
    assert("kind"@.len() == 4 && "kind"@[1] == 'i');
    assert("keys"@.len() == 4 && "keys"@[1] == 'e');
    assert("audit_seq"@.len() == 9);
    assert("as_of"@.len() == 5);
}

/// An edge that can be read is added at the end of the edges exactly when
/// the trust model takes it; otherwise the answer is 400 with its reason.
pub proof fn law_edge_answer(s: StoreView, q: RequestView, d: JsonView)
    requires
        carries(q, d),
        wire::edge_of(d, q.judgements) is Ok,
        s.log.len() < u64::MAX,
    ensures
        ({
            let (r, after) = writes::edge_outcome(s, q);
            let c = wire::edge_of(d, q.judgements)->Ok_0;
            match q.ruling.edge {
                Some(e) => refused((r, after), s, 400, e),
                None => {
                    &&& r.status == 201
                    &&& answers::states_edge(r.doc, c)
                    &&& r.doc.get("audit_seq"@) == Some(JsonView::Num(s.log.len() as int + 1))
                    &&& after.graph.edges == s.graph.edges.push(c)
                    &&& after.graph.nodes == s.graph.nodes
                    &&& recorded(s, after, OpView::AddEdge { credential: c }, q.now)
                    &&& after.trust_lists == s.trust_lists && after.master == s.master
                        && after.ledger == s.ledger && after.evidence == s.evidence
                },
            }
        }),
{
    let c = wire::edge_of(d, q.judgements)->Ok_0;
    answers::law_edges_are_stated(c);
    reveal_strlit("parent");
    reveal_strlit("child");
    reveal_strlit("scope");
    reveal_strlit("signatures");
    reveal_strlit("audit_seq");
    reveal_strlit("as_of");
    reveal_strlit("error");
    assert("parent"@.len() == 6);
    assert("child"@.len() == 5 && "child"@[0] == 'c');
    assert("scope"@.len() == 5 && "scope"@[0] == 's');
    assert("as_of"@.len() == 5 && "as_of"@[0] == 'a');
    assert("error"@.len() == 5 && "error"@[0] == 'e');
    assert("signatures"@.len() == 10);
    assert("audit_seq"@.len() == 9);
}

// ---------------------------------------------------------------------------
// Trust lists
// ---------------------------------------------------------------------------

/// A list of the jurisdiction is registered, in whatever case it is written.
pub open spec fn has_list(s: StoreView, jurisdiction: Seq<char>) -> bool {
    exists|i: int|
        0 <= i < s.trust_lists.len() && (#[trigger] s.trust_lists[i]).key == text::upper(
            jurisdiction,
        )
}

proof fn lemma_has_list(s: StoreView, jurisdiction: Seq<char>)
    ensures
        has_list(s, jurisdiction) <==> data::lookup::<JurisdictionList>(
            s.trust_lists,
            text::upper(jurisdiction),
        ) is Some,
{
    let key = text::upper(jurisdiction);
    data::law_lookup::<JurisdictionList>(s.trust_lists, key);
    if data::lookup::<JurisdictionList>(s.trust_lists, key) is Some {
        let x = data::lookup::<JurisdictionList>(s.trust_lists, key)->0;
        let i = choose|i: int|
            0 <= i < s.trust_lists.len() && #[trigger] s.trust_lists[i] == x
                && JurisdictionList::key_of(x) == key && forall|j: int|
                0 <= j < i ==> JurisdictionList::key_of(#[trigger] s.trust_lists[j]) != key;
        assert(s.trust_lists[i].key == key);
    } else if has_list(s, jurisdiction) {
        let i = choose|i: int|
            0 <= i < s.trust_lists.len() && (#[trigger] s.trust_lists[i]).key == key;
        assert(JurisdictionList::key_of(s.trust_lists[i]) != key);
    }
}

/// A list without initial entries is registered under its jurisdiction in
/// upper case exactly when there is none yet, empty and with the framework
/// stated; a second one is answered 409.
pub proof fn law_trust_list_answer(s: StoreView, q: RequestView, d: JsonView, raw: Seq<char>)
    requires
        carries(q, d),
        d.get("jurisdiction"@) == Some(JsonView::Str(raw)),
        raw.len() > 0 && text::trimmed(raw).len() > 0 && api::is_token(text::trimmed(raw)),
        d.get("entries"@) is None,
        s.log.len() < u64::MAX,
    ensures
        ({
            let (r, after) = writes::trust_list_outcome(s, q);
            let jur = text::trimmed(raw);
            let now = data::lookup::<JurisdictionList>(after.trust_lists, text::upper(jur));
            if has_list(s, jur) {
                refused((r, after), s, 409, "trust list `"@ + jur + "` is already registered"@)
            } else {
                &&& r.status == 201
                &&& r.doc.get("jurisdiction"@) == Some(JsonView::Str(text::upper(jur)))
                &&& r.doc.get("audit_seq"@) == Some(JsonView::Num(s.log.len() as int + 1))
                &&& now matches Some(l) && l.list.jurisdiction == jur && l.list.entries.len() == 0
                    && l.framework == (match d.get("framework"@) {
                    Some(JsonView::Str(f)) => if text::trimmed(f).len() == 0 {
                        None
                    } else {
                        Some(text::trimmed(f))
                    },
                    _ => None,
                })
                &&& after.log.len() == s.log.len() + 1
                &&& after.graph == s.graph && after.master == s.master && after.ledger == s.ledger
                    && after.evidence == s.evidence
            }
        }),
{
    let jur = text::trimmed(raw);
    lemma_has_list(s, jur);
    let x = JurisdictionListView {
        key: text::upper(jur),
        framework: api::optional_text(d, "framework"@),
        list: TrustListView { jurisdiction: jur, entries: Seq::empty() },
    };
    data::lemma_filed_lookup::<JurisdictionList>(s.trust_lists, x, text::upper(jur));
    reveal_strlit("jurisdiction");
    reveal_strlit("framework");
    reveal_strlit("audit_seq");
    reveal_strlit("as_of");
    reveal_strlit("error");
    assert("jurisdiction"@.len() == 12);
    assert("framework"@.len() == 9 && "framework"@[0] == 'f');
    assert("audit_seq"@.len() == 9 && "audit_seq"@[0] == 'a');
    assert("as_of"@.len() == 5 && "as_of"@[0] == 'a');
    assert("error"@.len() == 5 && "error"@[0] == 'e');
}

/// An entry that can be read goes to the list of its jurisdiction exactly
/// when there is one, in the place of an entry of the same node and beside
/// those of others; otherwise the answer is 404.
pub proof fn law_trust_entry_answer(
    s: StoreView,
    jur: Seq<char>,
    q: RequestView,
    d: JsonView,
    node: Seq<char>,
)
    requires
        carries(q, d),
        wire::entry_of(d, q.judgements) is Ok,
        s.log.len() < u64::MAX,
    ensures
        ({
            let (r, after) = writes::trust_entry_outcome(s, jur, q);
            let e = wire::entry_of(d, q.judgements)->Ok_0;
            let was = data::lookup::<JurisdictionList>(s.trust_lists, text::upper(jur));
            let now = data::lookup::<JurisdictionList>(after.trust_lists, text::upper(jur));
            if !has_list(s, jur) {
                refused((r, after), s, 404, "no trust list `"@ + jur + "`"@)
            } else {
                &&& r.status == 201
                &&& r.doc.get("jurisdiction"@) == Some(JsonView::Str(jur))
                &&& r.doc.get("node"@) == Some(JsonView::Str(e.node))
                &&& r.doc.get("not_before"@) == Some(
                    JsonView::Str(time::stamp(e.not_before.secs as int)),
                )
                &&& r.doc.get("superseded_at"@) == Some(
                    match e.superseded_at {
                        Some(u) => JsonView::Str(time::stamp(u.secs as int)),
                        None => JsonView::Null,
                    },
                )
                &&& r.doc.get("audit_seq"@) == Some(JsonView::Num(s.log.len() as int + 1))
                &&& now matches Some(l) && l.framework == was->0.framework && l.list.jurisdiction
                    == was->0.list.jurisdiction && data::lookup::<TrustListEntryRecord>(
                    l.list.entries,
                    node,
                ) == if node == e.node {
                    Some(e)
                } else {
                    data::lookup::<TrustListEntryRecord>(was->0.list.entries, node)
                }
                &&& after.log.len() == s.log.len() + 1
                &&& after.graph == s.graph && after.master == s.master && after.ledger == s.ledger
                    && after.evidence == s.evidence
            }
        }),
{
    lemma_has_list(s, jur);
    let e = wire::entry_of(d, q.judgements)->Ok_0;
    if has_list(s, jur) {
        let before = data::lookup::<JurisdictionList>(s.trust_lists, text::upper(jur))->0;
        laws::law_upserted_entry_is_read(s, jur, e, q.ruling, before, node);
    }
    reveal_strlit("jurisdiction");
    reveal_strlit("node");
    reveal_strlit("not_before");
    reveal_strlit("superseded_at");
    reveal_strlit("audit_seq");
    reveal_strlit("as_of");
    reveal_strlit("error");
    assert("jurisdiction"@.len() == 12);
    assert("node"@.len() == 4);
    assert("not_before"@.len() == 10);
    assert("superseded_at"@.len() == 13);
    assert("audit_seq"@.len() == 9);
    assert("as_of"@.len() == 5 && "as_of"@[0] == 'a');
    assert("error"@.len() == 5 && "error"@[0] == 'e');
}

// ---------------------------------------------------------------------------
// The master list
// ---------------------------------------------------------------------------

/// Of the witnesses of one node the last one stated counts.
pub proof fn law_last_witness_counts(s: Seq<WitnessView>, node: Seq<char>)
    ensures
        match data::lookup::<Witness>(store::witness_set(s), node) {
            Some(w) => exists|i: int|
                0 <= i < s.len() && #[trigger] s[i] == w && w.node == node && forall|j: int|
                    i < j < s.len() ==> (#[trigger] s[j]).node != node,
            None => forall|j: int| 0 <= j < s.len() ==> (#[trigger] s[j]).node != node,
        },
    decreases s.len(),
{
    if s.len() > 0 {
        let rest = s.drop_last();
        law_last_witness_counts(rest, node);
        data::lemma_filed_lookup::<Witness>(store::witness_set(rest), s.last(), node);
        assert(forall|j: int| 0 <= j < rest.len() ==> rest[j] == s[j]);
        if s.last().node == node {
            assert(s[s.len() - 1] == s.last());
        } else {
            match data::lookup::<Witness>(store::witness_set(rest), node) {
                Some(w) => {
                    let i = choose|i: int|
                        0 <= i < rest.len() && #[trigger] rest[i] == w && w.node == node
                            && forall|j: int|
                            i < j < rest.len() ==> (#[trigger] rest[j]).node != node;
                    assert(s[i] == w);
                    assert forall|j: int| i < j < s.len() implies (#[trigger] s[j]).node
                        != node by {
                        if j < rest.len() {
                            assert(rest[j].node != node);
                        }
                    }
                },
                None => {
                    assert forall|j: int| 0 <= j < s.len() implies (#[trigger] s[j]).node
                        != node by {
                        if j < rest.len() {
                            assert(rest[j].node != node);
                        }
                    }
                },
            }
        }
    }
}

/// A witness set that can be read is taken exactly when its threshold is at
/// least one and at most the number of witnesses stated; the entries of the
/// master list stay. Otherwise the answer is 400.
pub proof fn law_witnesses_answer(
    s: StoreView,
    q: RequestView,
    d: JsonView,
    m: u64,
    items: Seq<JsonView>,
)
    requires
        carries(q, d),
        d.get("m"@) == Some(JsonView::Num(m as int)),
        m <= usize::MAX,
        d.get("witnesses"@) == Some(JsonView::Arr(items)),
        wire::read_all::<Witness>(items, q.judgements) is Ok,
        s.log.len() < u64::MAX,
    ensures
        ({
            let (r, after) = writes::witnesses_outcome(s, q);
            let w = wire::read_all::<Witness>(items, q.judgements)->Ok_0;
            if 1 <= m <= w.len() {
                &&& r.status == 201
                &&& r.doc.get("m"@) == Some(JsonView::Num(m as int))
                &&& r.doc.get("k"@) == Some(JsonView::Num(w.len() as int))
                &&& r.doc.get("audit_seq"@) == Some(JsonView::Num(s.log.len() as int + 1))
                &&& after.master.m == m
                &&& after.master.witnesses == store::witness_set(w)
                &&& after.master.entries == s.master.entries
                &&& after.log.len() == s.log.len() + 1
                &&& after.graph == s.graph && after.trust_lists == s.trust_lists && after.ledger
                    == s.ledger && after.evidence == s.evidence
            } else {
                r.status == 400 && after == s
            }
        }),
{
    reveal_strlit("m");
    reveal_strlit("k");
    reveal_strlit("witnesses");
    reveal_strlit("audit_seq");
    reveal_strlit("as_of");
    assert("m"@.len() == 1 && "m"@[0] == 'm');
    assert("k"@.len() == 1 && "k"@[0] == 'k');
    assert("witnesses"@.len() == 9 && "witnesses"@[0] == 'w');
    assert("audit_seq"@.len() == 9 && "audit_seq"@[0] == 'a');
    assert("as_of"@.len() == 5);
}

/// An entry of the master list that can be read is taken exactly when each
/// of its attestations names a witness; it takes the place of the entry of
/// the same node, and those of others stay. Otherwise the answer is 400.
pub proof fn law_master_entry_answer(s: StoreView, q: RequestView, d: JsonView, node: Seq<char>)
    requires
        carries(q, d),
        wire::master_entry_of(d, q.judgements) is Ok,
        s.log.len() < u64::MAX,
    ensures
        ({
            let (r, after) = writes::master_entry_outcome(s, q);
            let e = wire::master_entry_of(d, q.judgements)->Ok_0;
            let known = forall|i: int|
                0 <= i < e.attestations.len() ==> exists|k: int|
                    0 <= k < s.master.witnesses.len() && (#[trigger] s.master.witnesses[k]).node
                        == (#[trigger] e.attestations[i]).witness;
            if known {
                &&& r.status == 201
                &&& r.doc.get("node"@) == Some(JsonView::Str(e.node))
                &&& r.doc.get("attestations"@) matches Some(JsonView::Arr(a)) && a.len()
                    == e.attestations.len()
                &&& r.doc.get("audit_seq"@) == Some(JsonView::Num(s.log.len() as int + 1))
                &&& data::lookup::<MasterListEntry>(after.master.entries, node) == if node
                    == e.node {
                    Some(e)
                } else {
                    data::lookup::<MasterListEntry>(s.master.entries, node)
                }
                &&& after.master.m == s.master.m && after.master.k == s.master.k
                    && after.master.witnesses == s.master.witnesses
                &&& after.log.len() == s.log.len() + 1
                &&& after.graph == s.graph && after.trust_lists == s.trust_lists && after.ledger
                    == s.ledger && after.evidence == s.evidence
            } else {
                r.status == 400 && after == s
            }
        }),
{
    let e = wire::master_entry_of(d, q.judgements)->Ok_0;
    let known = forall|i: int|
        0 <= i < e.attestations.len() ==> exists|k: int|
            0 <= k < s.master.witnesses.len() && (#[trigger] s.master.witnesses[k]).node == (
            #[trigger] e.attestations[i]).witness;
    laws::law_attestations_name_witnesses(s, e, q.ruling);
    data::lemma_filed_lookup::<MasterListEntry>(s.master.entries, e, node);
    reveal_strlit("node");
    reveal_strlit("attestations");
    reveal_strlit("audit_seq");
    reveal_strlit("as_of");
    assert("node"@.len() == 4);
    assert("attestations"@.len() == 12);
    assert("audit_seq"@.len() == 9);
    assert("as_of"@.len() == 5);
    assert forall|i: int| 0 <= i < e.attestations.len() implies (store::names_witness(
        s.master.witnesses,
        (#[trigger] e.attestations[i]).witness,
    ) <==> exists|k: int|
        0 <= k < s.master.witnesses.len() && (#[trigger] s.master.witnesses[k]).node
            == e.attestations[i].witness) by {
        lemma_names_witness(s.master.witnesses, e.attestations[i].witness);
    }
    if !known {
        let i = choose|i: int|
            0 <= i < e.attestations.len() && !(exists|k: int|
                0 <= k < s.master.witnesses.len() && (#[trigger] s.master.witnesses[k]).node == (
                #[trigger] e.attestations[i]).witness);
        assert(!store::names_witness(s.master.witnesses, e.attestations[i].witness));
    }
}

proof fn lemma_names_witness(s: Seq<WitnessView>, node: Seq<char>)
    ensures
        store::names_witness(s, node) <==> exists|k: int|
            0 <= k < s.len() && (#[trigger] s[k]).node == node,
{
    data::law_lookup::<Witness>(s, node);
    match data::lookup::<Witness>(s, node) {
        Some(w) => {
            let i = choose|i: int|
                0 <= i < s.len() && #[trigger] s[i] == w && Witness::key_of(w) == node && forall|
                    j: int,
                |
                    0 <= j < i ==> Witness::key_of(#[trigger] s[j]) != node;
            assert(s[i].node == node);
        },
        None => {
            assert forall|k: int| 0 <= k < s.len() implies (#[trigger] s[k]).node != node by {
                assert(Witness::key_of(s[k]) != node);
            }
        },
    }
}

/// A list is refused with 400 where its jurisdiction is missing, blank or no
/// token.
pub proof fn law_list_names_are_tokens(s: StoreView, q: RequestView, d: JsonView)
    requires
        carries(q, d),
        match d.get("jurisdiction"@) {
            Some(JsonView::Str(raw)) => text::trimmed(raw).len() == 0 || !api::is_token(
                text::trimmed(raw),
            ),
            _ => true,
        },
    ensures
        writes::trust_list_outcome(s, q).0.status == 400,
        writes::trust_list_outcome(s, q).1 == s,
{
}

/// A list with initial entries is registered first and its entries are
/// upserted behind it, in their order; it is answered with success exactly
/// when every entry is taken, and an entry that is refused leaves those
/// before it.
pub proof fn law_trust_list_with_entries(
    s: StoreView,
    q: RequestView,
    d: JsonView,
    raw: Seq<char>,
    entries: Seq<JsonView>,
)
    requires
        carries(q, d),
        d.get("jurisdiction"@) == Some(JsonView::Str(raw)),
        text::trimmed(raw).len() > 0 && api::is_token(text::trimmed(raw)),
        d.get("entries"@) == Some(JsonView::Arr(entries)),
        !has_list(s, text::trimmed(raw)),
    ensures
        ({
            let jur = text::trimmed(raw);
            let op = OpView::RegisterTrustList {
                jurisdiction: jur,
                framework: api::optional_text(d, "framework"@),
            };
            let listed = store::logged(s, store::next_record(s, op, q.now), q.ruling);
            let (stopped, left) = writes::entries_outcome(listed, jur, entries, q);
            let (r, after) = writes::trust_list_outcome(s, q);
            &&& after == left
            &&& stopped is None ==> r.status == 201 && r.doc.get("jurisdiction"@) == Some(
                JsonView::Str(text::upper(jur)),
            )
            &&& stopped matches Some(e) ==> r == e
        }),
{
    lemma_has_list(s, text::trimmed(raw));
    reveal_strlit("jurisdiction");
    reveal_strlit("framework");
    reveal_strlit("audit_seq");
    reveal_strlit("as_of");
    assert("jurisdiction"@.len() == 12);
    assert("framework"@.len() == 9 && "framework"@[0] == 'f');
    assert("audit_seq"@.len() == 9 && "audit_seq"@[0] == 'a');
    assert("as_of"@.len() == 5);
}

} // verus!
