//! Store: the state of the service and its append-only audit log.
//!
//! Every mutation becomes an [`AuditRecord`] that carries its full payload.
//! Mutations are validated before they are recorded and applied; applying
//! the records of the log again, in order, rebuilds the state. Nothing is
//! edited in place: superseding an entry appends a record that asserts the
//! new state.

use vstd::prelude::*;

use crate::codec;
use crate::data;
use crate::data::{insert_keyed, find_by_key, Dup, Keyed};
use crate::evidence;
use crate::evidence::{evidence_from_value, evidence_to_value, render_catalogue, render_meta, Evidence, EvidenceView};
use crate::json;
use crate::json::{Json, JsonView};
use crate::judge::{Judgements, JudgementsView, SlotCheck, SlotCheckView};
use crate::laws;
use crate::model::{DelegationCredential, DelegationCredentialView, DelegationNode, DelegationNodeView, MasterList, MasterListEntry, MasterListEntryView, MasterListView, RegisteredKey, RegisteredKeyView, Revocation, RevocationView, TrustGraph, TrustGraphView, TrustList, TrustListEntryRecord, TrustListEntryRecordView, TrustListView, Witness, WitnessView};
use crate::quorum;
use crate::quorum::{find_key, verdict};
use crate::seed;
use crate::seed::date_of_fixture;
use crate::text;
use crate::text::{ascii_upper, decimal_text, is_blank, join2, join3, join5, same_text};
use crate::time::Timestamp;
use crate::wire;
use crate::wire::{apply_entry, bare_witness_to_value, edge_from_value, edge_to_value, master_entry_from_value, master_entry_to_value, node_from_value, node_to_value, public_from_value, revocation_from_value, revocation_to_value, ts_json, ts_parse, ts_string};

verus! {

broadcast use {data::lemma_deep_push, data::lemma_deep_bytes, data::lemma_deep_len};

impl Dup for u64 {
    fn dup(&self) -> (r: u64) {
        *self
    }
}

/// Store-level validation failures (`Conflict` is answered with 409,
/// `Invalid` with 400, `NotFound` with 404).
#[derive(Debug, PartialEq, Eq)]
pub enum StoreError {
    Conflict(String),
    Invalid(String),
    NotFound(String),
}

#[verifier::ext_equal]
pub enum StoreErrorView {
    Conflict(Seq<char>),
    Invalid(Seq<char>),
    NotFound(Seq<char>),
}

impl DeepView for StoreError {
    type V = StoreErrorView;

    open spec fn deep_view(&self) -> StoreErrorView {
        match self {
            StoreError::Conflict(x) => StoreErrorView::Conflict(x.deep_view()),
            StoreError::Invalid(x) => StoreErrorView::Invalid(x.deep_view()),
            StoreError::NotFound(x) => StoreErrorView::NotFound(x.deep_view()),
        }
    }
}

impl View for StoreError {
    type V = StoreErrorView;

    open spec fn view(&self) -> StoreErrorView {
        self.deep_view()
    }
}

impl StoreErrorView {
    /// The message of a failure, without its class.
    pub open spec fn message(self) -> Seq<char> {
        match self {
            StoreErrorView::Conflict(m) => m,
            StoreErrorView::Invalid(m) => m,
            StoreErrorView::NotFound(m) => m,
        }
    }

    /// The message of a failure.
    pub open spec fn shown(self) -> Seq<char> {
        match self {
            StoreErrorView::Conflict(m) => "conflict: "@ + m,
            StoreErrorView::Invalid(m) => "invalid: "@ + m,
            StoreErrorView::NotFound(m) => "not found: "@ + m,
        }
    }
}

impl StoreError {
    /// The message for people.
    pub fn to_string(&self) -> (r: String)
        ensures
            r@ == self@.shown(),
    {
        match self {
            StoreError::Conflict(m) => join2("conflict: ", m.as_str()),
            StoreError::Invalid(m) => join2("invalid: ", m.as_str()),
            StoreError::NotFound(m) => join2("not found: ", m.as_str()),
        }
    }
}

/// An append-only store mutation.
#[derive(Debug, PartialEq, Eq)]
pub enum Op {
    /// Insert or merge a trust-graph node: keys merge into an existing node.
    RegisterNode { node: DelegationNode },
    /// Add a delegation credential.
    AddEdge { credential: DelegationCredential },
    /// Register a new trust list for a jurisdiction.
    RegisterTrustList { jurisdiction: String, framework: Option<String> },
    /// Insert a trust-list entry, or replace its window. The list must exist.
    UpsertTrustEntry { jurisdiction: String, node: String, not_before: Timestamp, superseded_at: Option<Timestamp> },
    /// Set or replace the witness set of the master list;
    /// `1 <= m <= witnesses.len()`.
    SetWitnesses { m: usize, witnesses: Vec<Witness> },
    /// Insert or replace a master-list entry. All attestations must name
    /// registered witnesses.
    UpsertMasterEntry { entry: MasterListEntry },
    /// Declare a revocation. A retroactive reason requires a quorate
    /// attestation.
    DeclareRevocation { revocation: Revocation },
    /// Register a gated evidence document under a new id.
    RegisterEvidence { evidence: Evidence },
    /// Release a gated evidence document: the access decision.
    ReleaseEvidence { id: String, requester: Option<String>, scope: String },
}

#[verifier::ext_equal]
pub enum OpView {
    RegisterNode { node: DelegationNodeView },
    AddEdge { credential: DelegationCredentialView },
    RegisterTrustList { jurisdiction: Seq<char>, framework: Option<Seq<char>> },
    UpsertTrustEntry { jurisdiction: Seq<char>, node: Seq<char>, not_before: Timestamp, superseded_at: Option<Timestamp> },
    SetWitnesses { m: usize, witnesses: Seq<WitnessView> },
    UpsertMasterEntry { entry: MasterListEntryView },
    DeclareRevocation { revocation: RevocationView },
    RegisterEvidence { evidence: EvidenceView },
    ReleaseEvidence { id: Seq<char>, requester: Option<Seq<char>>, scope: Seq<char> },
}

impl DeepView for Op {
    type V = OpView;

    open spec fn deep_view(&self) -> OpView {
        match self {
            Op::RegisterNode { node } => OpView::RegisterNode {
                node: node.deep_view(),
            },
            Op::AddEdge { credential } => OpView::AddEdge {
                credential: credential.deep_view(),
            },
            Op::RegisterTrustList { jurisdiction, framework } => OpView::RegisterTrustList {
                jurisdiction: jurisdiction.deep_view(),
                framework: framework.deep_view(),
            },
            Op::UpsertTrustEntry { jurisdiction, node, not_before, superseded_at } => OpView::UpsertTrustEntry {
                jurisdiction: jurisdiction.deep_view(),
                node: node.deep_view(),
                not_before: not_before.deep_view(),
                superseded_at: superseded_at.deep_view(),
            },
            Op::SetWitnesses { m, witnesses } => OpView::SetWitnesses {
                m: m.deep_view(),
                witnesses: witnesses.deep_view(),
            },
            Op::UpsertMasterEntry { entry } => OpView::UpsertMasterEntry {
                entry: entry.deep_view(),
            },
            Op::DeclareRevocation { revocation } => OpView::DeclareRevocation {
                revocation: revocation.deep_view(),
            },
            Op::RegisterEvidence { evidence } => OpView::RegisterEvidence {
                evidence: evidence.deep_view(),
            },
            Op::ReleaseEvidence { id, requester, scope } => OpView::ReleaseEvidence {
                id: id.deep_view(),
                requester: requester.deep_view(),
                scope: scope.deep_view(),
            },
        }
    }
}

impl View for Op {
    type V = OpView;

    open spec fn view(&self) -> OpView {
        self.deep_view()
    }
}

impl Dup for Op {
    fn dup(&self) -> (r: Op) {
        match self {
            Op::RegisterNode { node } => Op::RegisterNode {
                node: node.dup(),
            },
            Op::AddEdge { credential } => Op::AddEdge {
                credential: credential.dup(),
            },
            Op::RegisterTrustList { jurisdiction, framework } => Op::RegisterTrustList {
                jurisdiction: jurisdiction.dup(),
                framework: framework.dup(),
            },
            Op::UpsertTrustEntry { jurisdiction, node, not_before, superseded_at } => Op::UpsertTrustEntry {
                jurisdiction: jurisdiction.dup(),
                node: node.dup(),
                not_before: not_before.dup(),
                superseded_at: superseded_at.dup(),
            },
            Op::SetWitnesses { m, witnesses } => Op::SetWitnesses {
                m: m.dup(),
                witnesses: witnesses.dup(),
            },
            Op::UpsertMasterEntry { entry } => Op::UpsertMasterEntry {
                entry: entry.dup(),
            },
            Op::DeclareRevocation { revocation } => Op::DeclareRevocation {
                revocation: revocation.dup(),
            },
            Op::RegisterEvidence { evidence } => Op::RegisterEvidence {
                evidence: evidence.dup(),
            },
            Op::ReleaseEvidence { id, requester, scope } => Op::ReleaseEvidence {
                id: id.dup(),
                requester: requester.dup(),
                scope: scope.dup(),
            },
        }
    }
}

/// One audit record of the journal.
#[derive(Debug, PartialEq, Eq)]
pub struct AuditRecord {
    pub seq: u64,
    pub recorded_at: Timestamp,
    pub op: Op,
}

#[verifier::ext_equal]
pub struct AuditRecordView {
    pub seq: u64,
    pub recorded_at: Timestamp,
    pub op: OpView,
}

impl DeepView for AuditRecord {
    type V = AuditRecordView;

    open spec fn deep_view(&self) -> AuditRecordView {
        AuditRecordView {
            seq: self.seq.deep_view(),
            recorded_at: self.recorded_at.deep_view(),
            op: self.op.deep_view(),
        }
    }
}

impl View for AuditRecord {
    type V = AuditRecordView;

    open spec fn view(&self) -> AuditRecordView {
        self.deep_view()
    }
}

impl Dup for AuditRecord {
    fn dup(&self) -> (r: AuditRecord) {
        AuditRecord {
            seq: self.seq.dup(),
            recorded_at: self.recorded_at.dup(),
            op: self.op.dup(),
        }
    }
}

/// What the trust model rules on one mutation: whether it admits the edge,
/// whether the ledger takes the declaration, and which signature slots of
/// the attestation verify under which keys.
#[derive(Debug, PartialEq, Eq)]
pub struct Ruling {
    /// Why the credential is refused; none when it is admitted.
    pub edge: Option<String>,
    /// Why the declaration is refused; none when it is taken.
    pub ledger: Option<String>,
    pub checks: Vec<SlotCheck>,
}

#[verifier::ext_equal]
pub struct RulingView {
    pub edge: Option<Seq<char>>,
    pub ledger: Option<Seq<char>>,
    pub checks: Seq<SlotCheckView>,
}

impl DeepView for Ruling {
    type V = RulingView;

    open spec fn deep_view(&self) -> RulingView {
        RulingView {
            edge: self.edge.deep_view(),
            ledger: self.ledger.deep_view(),
            checks: self.checks.deep_view(),
        }
    }
}

impl View for Ruling {
    type V = RulingView;

    open spec fn view(&self) -> RulingView {
        self.deep_view()
    }
}

impl Dup for Ruling {
    fn dup(&self) -> (r: Ruling) {
        Ruling {
            edge: self.edge.dup(),
            ledger: self.ledger.dup(),
            checks: self.checks.dup(),
        }
    }
}

/// The ruling on a mutation that the trust model has no say in.
pub open spec fn unruled() -> RulingView {
    RulingView { edge: None, ledger: None, checks: Seq::empty() }
}

fn no_ruling() -> (r: Ruling)
    ensures
        r@ == unruled(),
{
    let r = Ruling { edge: None, ledger: None, checks: Vec::new() };
    assert(r@ =~~= unruled());
    r
}

/// A trust list under its key (the jurisdiction in upper case), with the
/// framework it belongs to.
#[derive(Debug, PartialEq, Eq)]
pub struct JurisdictionList {
    pub key: String,
    pub framework: Option<String>,
    pub list: TrustList,
}

#[verifier::ext_equal]
pub struct JurisdictionListView {
    pub key: Seq<char>,
    pub framework: Option<Seq<char>>,
    pub list: TrustListView,
}

impl DeepView for JurisdictionList {
    type V = JurisdictionListView;

    open spec fn deep_view(&self) -> JurisdictionListView {
        JurisdictionListView {
            key: self.key.deep_view(),
            framework: self.framework.deep_view(),
            list: self.list.deep_view(),
        }
    }
}

impl View for JurisdictionList {
    type V = JurisdictionListView;

    open spec fn view(&self) -> JurisdictionListView {
        self.deep_view()
    }
}

impl Keyed for JurisdictionList {
    open spec fn key_of(v: JurisdictionListView) -> Seq<char> {
        v.key
    }

    fn key(&self) -> (r: &String) {
        &self.key
    }
}

/// The trust store: graph, trust lists, master list, revocation ledger,
/// evidence documents and audit log, with the ruling on each record of it.
/// The first `fixtures` records of the log are the seed fixtures.
#[derive(Debug)]
pub struct Store {
    pub graph: TrustGraph,
    pub trust_lists: Vec<JurisdictionList>,
    pub master: MasterList,
    pub ledger: Vec<Revocation>,
    pub evidence: Vec<Evidence>,
    pub log: Vec<AuditRecord>,
    pub rulings: Vec<Ruling>,
    pub fixtures: usize,
}

#[verifier::ext_equal]
pub struct StoreView {
    pub graph: TrustGraphView,
    pub trust_lists: Seq<JurisdictionListView>,
    pub master: MasterListView,
    pub ledger: Seq<RevocationView>,
    pub evidence: Seq<EvidenceView>,
    pub log: Seq<AuditRecordView>,
    pub rulings: Seq<RulingView>,
    pub fixtures: nat,
}

impl DeepView for Store {
    type V = StoreView;

    open spec fn deep_view(&self) -> StoreView {
        StoreView {
            graph: self.graph.deep_view(),
            trust_lists: self.trust_lists.deep_view(),
            master: self.master.deep_view(),
            ledger: self.ledger.deep_view(),
            evidence: self.evidence.deep_view(),
            log: self.log.deep_view(),
            rulings: self.rulings.deep_view(),
            fixtures: self.fixtures as nat,
        }
    }
}

impl View for Store {
    type V = StoreView;

    open spec fn view(&self) -> StoreView {
        self.deep_view()
    }
}

// ---------------------------------------------------------------------------
// What a mutation does
// ---------------------------------------------------------------------------

/// Keys with the keys of `more` added whose ids they lack.
pub open spec fn merged_keys(keys: Seq<RegisteredKeyView>, more: Seq<RegisteredKeyView>) -> Seq<
    RegisteredKeyView,
>
    decreases more.len(),
{
    if more.len() == 0 {
        keys
    } else {
        let before = merged_keys(keys, more.drop_last());
        if quorum::key_among(before, more.last().key_id) is Some {
            before
        } else {
            before.push(more.last())
        }
    }
}

/// The node that a registration leaves: the incoming assertion, with the
/// keys that were registered before kept in front.
pub open spec fn registered(nodes: Seq<DelegationNodeView>, node: DelegationNodeView) -> DelegationNodeView {
    match data::lookup::<DelegationNode>(nodes, node.id) {
        None => node,
        Some(old_node) => DelegationNodeView {
            id: node.id,
            kind: node.kind,
            keys: merged_keys(old_node.keys, node.keys),
        },
    }
}

/// Witnesses by node, the later of two for one node counting.
pub open spec fn witness_set(s: Seq<WitnessView>) -> Seq<WitnessView>
    decreases s.len(),
{
    if s.len() == 0 {
        Seq::empty()
    } else {
        data::filed::<Witness>(witness_set(s.drop_last()), s.last())
    }
}

/// Why a witness set is refused, if it is.
pub open spec fn witness_set_error(m: usize, n: nat) -> Option<Seq<char>> {
    if m == 0 {
        Some("`m` must be >= 1"@)
    } else if n == 0 {
        Some("`witnesses` must be non-empty"@)
    } else if m > n {
        Some(
            "`m` ("@ + text::decimal(m as nat) + ") cannot exceed `witnesses.len()` ("@
                + text::decimal(n) + ")"@,
        )
    } else {
        None
    }
}

/// The attestation names a witness that is registered.
pub open spec fn names_witness(witnesses: Seq<WitnessView>, node: Seq<char>) -> bool {
    data::lookup::<Witness>(witnesses, node) is Some
}

/// Why a master-list entry is refused, if it is: the first attestation by
/// an unregistered witness.
pub open spec fn entry_error(
    witnesses: Seq<WitnessView>,
    attestations: Seq<crate::model::WitnessAttestationView>,
) -> Option<Seq<char>>
    decreases attestations.len(),
{
    if attestations.len() == 0 {
        None
    } else if !names_witness(witnesses, attestations[0].witness) {
        Some("witness `"@ + attestations[0].witness + "` is not registered"@)
    } else {
        entry_error(witnesses, attestations.drop_first())
    }
}

/// Why a revocation is refused on the merits, if it is: a retroactive
/// reason without a quorate attestation.
pub open spec fn revocation_error(
    g: TrustGraphView,
    r: RevocationView,
    checks: Seq<SlotCheckView>,
) -> Option<Seq<char>> {
    if !r.reason.is_retroactive() {
        None
    } else {
        match r.quorum {
            None => Some(
                "retroactive distrust of `"@ + r.subject.label()
                    + "` requires a quorum attestation"@,
            ),
            Some(q) => {
                let v = quorum::verdict_of(g, q, checks);
                if v.quorate {
                    None
                } else {
                    Some(
                        "quorum attestation for `"@ + r.subject.label()
                            + "` does not reach the threshold ("@ + v.spec_summary() + ")"@,
                    )
                }
            },
        }
    }
}

/// Why a release is refused, if it is: no such document, or a scope that
/// does not satisfy the registration; then the required one is stated.
pub open spec fn release_error(documents: Seq<EvidenceView>, id: Seq<char>, scope: Seq<char>) -> Option<
    StoreErrorView,
> {
    match data::lookup::<Evidence>(documents, id) {
        None => Some(StoreErrorView::NotFound("no evidence `"@ + id + "`"@)),
        Some(e) => if scope == e.required_scope {
            None
        } else {
            Some(
                StoreErrorView::Invalid(
                    "evidence `"@ + id + "` requires scope `"@ + e.required_scope + "`"@,
                ),
            )
        },
    }
}

/// The state that a mutation leads to, or why it is refused. The log is
/// left alone.
pub open spec fn applied(s: StoreView, op: OpView, ruling: RulingView) -> Result<
    StoreView,
    StoreErrorView,
> {
    match op {
        OpView::RegisterNode { node } => Ok(
            StoreView {
                graph: TrustGraphView {
                    nodes: data::filed::<DelegationNode>(
                        s.graph.nodes,
                        registered(s.graph.nodes, node),
                    ),
                    edges: s.graph.edges,
                },
                ..s
            },
        ),
        OpView::AddEdge { credential } => match ruling.edge {
            Some(e) => Err(StoreErrorView::Invalid(e)),
            None => Ok(
                StoreView {
                    graph: TrustGraphView {
                        nodes: s.graph.nodes,
                        edges: s.graph.edges.push(credential),
                    },
                    ..s
                },
            ),
        },
        OpView::RegisterTrustList { jurisdiction, framework } => {
            let key = text::upper(jurisdiction);
            if data::lookup::<JurisdictionList>(s.trust_lists, key) is Some {
                Err(
                    StoreErrorView::Conflict(
                        "trust list `"@ + jurisdiction + "` is already registered"@,
                    ),
                )
            } else {
                Ok(
                    StoreView {
                        trust_lists: data::filed::<JurisdictionList>(
                            s.trust_lists,
                            JurisdictionListView {
                                key,
                                framework,
                                list: TrustListView { jurisdiction, entries: Seq::empty() },
                            },
                        ),
                        ..s
                    },
                )
            }
        },
        OpView::UpsertTrustEntry { jurisdiction, node, not_before, superseded_at } => {
            let key = text::upper(jurisdiction);
            match data::lookup::<JurisdictionList>(s.trust_lists, key) {
                None => Err(StoreErrorView::NotFound("no trust list `"@ + jurisdiction + "`"@)),
                Some(l) => Ok(
                    StoreView {
                        trust_lists: data::filed::<JurisdictionList>(
                            s.trust_lists,
                            JurisdictionListView {
                                key,
                                framework: l.framework,
                                list: TrustListView {
                                    jurisdiction: l.list.jurisdiction,
                                    entries: data::filed::<TrustListEntryRecord>(
                                        l.list.entries,
                                        TrustListEntryRecordView {
                                            node,
                                            not_before,
                                            superseded_at,
                                        },
                                    ),
                                },
                            },
                        ),
                        ..s
                    },
                ),
            }
        },
        OpView::SetWitnesses { m, witnesses } => match witness_set_error(m, witnesses.len()) {
            Some(e) => Err(StoreErrorView::Invalid(e)),
            None => Ok(
                StoreView {
                    master: MasterListView {
                        m,
                        k: witness_set(witnesses).len() as usize,
                        witnesses: witness_set(witnesses),
                        entries: s.master.entries,
                    },
                    ..s
                },
            ),
        },
        OpView::UpsertMasterEntry { entry } => match entry_error(
            s.master.witnesses,
            entry.attestations,
        ) {
            Some(e) => Err(StoreErrorView::Invalid(e)),
            None => Ok(
                StoreView {
                    master: MasterListView {
                        entries: data::filed::<MasterListEntry>(s.master.entries, entry),
                        ..s.master
                    },
                    ..s
                },
            ),
        },
        OpView::DeclareRevocation { revocation } => match revocation_error(
            s.graph,
            revocation,
            ruling.checks,
        ) {
            Some(e) => Err(StoreErrorView::Invalid(e)),
            None => match ruling.ledger {
                Some(e) => Err(StoreErrorView::Invalid(e)),
                None => Ok(StoreView { ledger: s.ledger.push(revocation), ..s }),
            },
        },
        OpView::RegisterEvidence { evidence } => if data::lookup::<Evidence>(
            s.evidence,
            evidence.id,
        ) is Some {
            Err(
                StoreErrorView::Conflict("evidence `"@ + evidence.id + "` is already registered"@),
            )
        } else {
            Ok(StoreView { evidence: data::filed::<Evidence>(s.evidence, evidence), ..s })
        },
        OpView::ReleaseEvidence { id, requester: _, scope } => match release_error(
            s.evidence,
            id,
            scope,
        ) {
            Some(e) => Err(e),
            None => Ok(s),
        },
    }
}

/// The state after a mutation that may be refused.
pub open spec fn after(s: StoreView, op: OpView, ruling: RulingView) -> StoreView {
    match applied(s, op, ruling) {
        Ok(t) => t,
        Err(_) => s,
    }
}

/// The store after a record: the mutation applied if it can be, the record
/// and the ruling on it logged in any case.
pub open spec fn logged(s: StoreView, record: AuditRecordView, ruling: RulingView) -> StoreView {
    StoreView {
        log: s.log.push(record),
        rulings: s.rulings.push(ruling),
        ..after(s, record.op, ruling)
    }
}

/// The ruling on a record of the log.
pub open spec fn ruling_on(s: StoreView, i: int) -> RulingView {
    if i < s.rulings.len() {
        s.rulings[i]
    } else {
        unruled()
    }
}

/// The instant from which a record of the log stands: a fixture from the
/// instant that it is dated, any other from its recording.
pub open spec fn stands_from(s: StoreView, i: int) -> Timestamp {
    if i < s.fixtures {
        seed::dated(s.log[i].op)
    } else {
        s.log[i].recorded_at
    }
}

/// The store that those of the first `k` records of the log rebuild that
/// stand at `t`.
pub open spec fn rebuilt_by(s: StoreView, t: Timestamp, k: nat) -> StoreView
    decreases k,
{
    if k == 0 {
        empty_store()
    } else {
        let before = rebuilt_by(s, t, (k - 1) as nat);
        if stands_from(s, k - 1).secs <= t.secs {
            let now = logged(before, s.log[k - 1], ruling_on(s, k - 1));
            if k - 1 < s.fixtures {
                StoreView { fixtures: now.fixtures + 1, ..now }
            } else {
                now
            }
        } else {
            before
        }
    }
}

/// The store as it was at an instant.
pub open spec fn as_of(s: StoreView, t: Timestamp) -> StoreView {
    rebuilt_by(s, t, s.log.len())
}

/// The master list with the witness set, and the number of witnesses that it
/// asked for, as they were at an instant. Its entries stand as they are.
pub open spec fn master_as_of(s: StoreView, t: Timestamp) -> MasterListView {
    MasterListView { entries: s.master.entries, ..as_of(s, t).master }
}

/// The record that the next mutation gets.
pub open spec fn next_record(s: StoreView, op: OpView, at: Timestamp) -> AuditRecordView {
    AuditRecordView { seq: (s.log.len() + 1) as u64, recorded_at: at, op }
}

/// The store before any record.
pub open spec fn empty_store() -> StoreView {
    StoreView {
        graph: TrustGraphView { nodes: Seq::empty(), edges: Seq::empty() },
        trust_lists: Seq::empty(),
        master: MasterListView {
            m: 1,
            k: 0,
            witnesses: Seq::empty(),
            entries: Seq::empty(),
        },
        ledger: Seq::empty(),
        evidence: Seq::empty(),
        log: Seq::empty(),
        rulings: Seq::empty(),
        fixtures: 0,
    }
}

/// The store that the first `k` records of a journal rebuild.
pub open spec fn replayed(journal: Seq<(AuditRecordView, RulingView)>, k: nat) -> StoreView
    decreases k,
{
    if k == 0 {
        empty_store()
    } else {
        logged(
            replayed(journal, (k - 1) as nat),
            journal[k - 1].0,
            journal[k - 1].1,
        )
    }
}

/// The store after the first `k` fixtures are recorded at `at`.
pub open spec fn seeded(
    s: StoreView,
    fixtures: Seq<(OpView, RulingView)>,
    at: Timestamp,
    k: nat,
) -> StoreView
    decreases k,
{
    if k == 0 {
        s
    } else {
        let t = seeded(s, fixtures, at, (k - 1) as nat);
        let (op, ruling) = fixtures[k - 1];
        let now = logged(t, next_record(t, op, at), ruling);
        StoreView { fixtures: now.fixtures + 1, ..now }
    }
}

/// A journal writes the two mutations alike.
pub open spec fn written_alike(a: OpView, b: OpView) -> bool {
    codec::line_text(codec::settled(op_doc(a))) == codec::line_text(codec::settled(op_doc(b)))
}

/// The journal starts with the fixtures.
pub open spec fn starts_seeded(
    journal: Seq<(AuditRecordView, RulingView)>,
    fixtures: Seq<(OpView, RulingView)>,
) -> bool {
    &&& fixtures.len() <= journal.len()
    &&& forall|i: int|
        0 <= i < fixtures.len() ==> written_alike((#[trigger] journal[i]).0.op, fixtures[i].0)
}

/// The store that a start leads to: the journal replayed, the fixtures that
/// it starts with known for what they are, and the fixtures recorded where it
/// held no record and seeding is wanted.
pub open spec fn opened(
    journal: Seq<(AuditRecordView, RulingView)>,
    seed_when_empty: bool,
    fixtures: Seq<(OpView, RulingView)>,
    at: Timestamp,
) -> StoreView {
    let s = replayed(journal, journal.len());
    if seed_when_empty && s.log.len() == 0 {
        seeded(s, fixtures, at, fixtures.len())
    } else if starts_seeded(journal, fixtures) {
        StoreView { fixtures: fixtures.len(), ..s }
    } else {
        s
    }
}

fn merge_keys(existing: &mut Vec<RegisteredKey>, more: &Vec<RegisteredKey>)
    ensures
        final(existing).deep_view() == merged_keys(old(existing).deep_view(), more.deep_view()),
{
    let ghost start = existing.deep_view();
    let ghost m = more.deep_view();
    assert(m.take(0) =~= Seq::<RegisteredKeyView>::empty());
    for k in 0..more.len()
        invariant
            m == more.deep_view(),
            existing.deep_view() == merged_keys(start, m.take(k as int)),
    {
        assert(m.take(k + 1).drop_last() =~= m.take(k as int));
        assert(m.take(k + 1).last() == more@[k as int].deep_view());
        if find_key(existing, more[k].key_id.as_str()).is_none() {
            existing.push(more[k].dup());
        }
    }
    assert(m.take(m.len() as int) =~= m);
}

pub fn witness_map(witnesses: &Vec<Witness>) -> (r: Vec<Witness>)
    ensures
        r.deep_view() == witness_set(witnesses.deep_view()),
{
    let ghost w = witnesses.deep_view();
    let mut out: Vec<Witness> = Vec::new();
    assert(out.deep_view() =~= Seq::<WitnessView>::empty());
    assert(w.take(0) =~= Seq::<WitnessView>::empty());
    for k in 0..witnesses.len()
        invariant
            w == witnesses.deep_view(),
            out.deep_view() == witness_set(w.take(k as int)),
    {
        assert(w.take(k + 1).drop_last() =~= w.take(k as int));
        assert(w.take(k + 1).last() == witnesses@[k as int].deep_view());
        insert_keyed(&mut out, witnesses[k].dup());
    }
    assert(w.take(w.len() as int) =~= w);
    out
}

fn check_entry(witnesses: &Vec<Witness>, entry: &MasterListEntry) -> (r: Option<String>)
    ensures
        r.deep_view() == entry_error(witnesses.deep_view(), entry@.attestations),
{
    let ghost a = entry@.attestations;
    assert(a.skip(0) =~= a);
    let mut k: usize = 0;
    while k < entry.attestations.len()
        invariant
            a == entry.attestations.deep_view(),
            k <= entry.attestations@.len(),
            entry_error(witnesses.deep_view(), a) == entry_error(
                witnesses.deep_view(),
                a.skip(k as int),
            ),
        decreases entry.attestations@.len() - k,
    {
        assert(a.skip(k as int)[0] == entry.attestations@[k as int].deep_view());
        let witness: &str = entry.attestations[k].witness.as_str();
        if find_by_key(witnesses, witness).is_none() {
            return Some(join3("witness `", witness, "` is not registered"));
        }
        assert(a.skip(k as int).drop_first() =~= a.skip(k + 1));
        k = k + 1;
    }
    None
}

fn check_revocation(graph: &TrustGraph, r: &Revocation, checks: &Vec<SlotCheck>) -> (e: Option<
    String,
>)
    ensures
        e.deep_view() == revocation_error(graph@, r@, checks.deep_view()),
{
    if !r.reason.is_retroactive() {
        return None;
    }
    match &r.quorum {
        None => Some(
            join3(
                "retroactive distrust of `",
                r.subject.label().as_str(),
                "` requires a quorum attestation",
            ),
        ),
        Some(q) => {
            let v = verdict(graph, q, checks);
            if v.quorate {
                None
            } else {
                Some(
                    join5(
                        "quorum attestation for `",
                        r.subject.label().as_str(),
                        "` does not reach the threshold (",
                        v.summary().as_str(),
                        ")",
                    ),
                )
            }
        },
    }
}

fn check_release(documents: &Vec<Evidence>, id: &str, scope: &str) -> (r: Option<StoreError>)
    ensures
        r.deep_view() == release_error(documents.deep_view(), id@, scope@),
{
    match find_by_key(documents, id) {
        None => Some(StoreError::NotFound(join3("no evidence `", id, "`"))),
        Some(e) => if same_text(scope, e.required_scope.as_str()) {
            None
        } else {
            Some(
                StoreError::Invalid(
                    join5(
                        "evidence `",
                        id,
                        "` requires scope `",
                        e.required_scope.as_str(),
                        "`",
                    ),
                ),
            )
        },
    }
}

fn check_witness_set(m: usize, n: usize) -> (r: Option<String>)
    ensures
        r.deep_view() == witness_set_error(m, n as nat),
{
    if m == 0 {
        Some("`m` must be >= 1".to_owned())
    } else if n == 0 {
        Some("`witnesses` must be non-empty".to_owned())
    } else if m > n {
        Some(
            join5(
                "`m` (",
                decimal_text(m as u64).as_str(),
                ") cannot exceed `witnesses.len()` (",
                decimal_text(n as u64).as_str(),
                ")",
            ),
        )
    } else {
        None
    }
}

/// What a validated mutation answers: the record and the store with the
/// mutation applied and logged; or the failure, and the store unchanged.
pub open spec fn submitted(
    before: StoreView,
    op: OpView,
    at: Timestamp,
    ruling: RulingView,
    r: Result<AuditRecord, StoreError>,
    now: StoreView,
) -> bool {
    match applied(before, op, ruling) {
        Ok(_) => r is Ok && (r->Ok_0)@ == next_record(before, op, at) && now == logged(
            before,
            next_record(before, op, at),
            ruling,
        ),
        Err(e) => r is Err && (r->Err_0)@ == e && now == before,
    }
}

/// The keys of the trust lists.
pub open spec fn list_keys(s: Seq<JurisdictionListView>) -> Seq<Seq<char>> {
    Seq::new(s.len(), |i: int| s[i].key)
}

/// A record of the journal with the ruling on it.
pub struct JournalEntry {
    pub record: AuditRecord,
    pub ruling: Ruling,
}

impl DeepView for JournalEntry {
    type V = (AuditRecordView, RulingView);

    open spec fn deep_view(&self) -> (AuditRecordView, RulingView) {
        (self.record.deep_view(), self.ruling.deep_view())
    }
}

/// A mutation of the seed fixtures with the ruling on it.
pub struct Fixture {
    pub op: Op,
    pub ruling: Ruling,
}

impl DeepView for Fixture {
    type V = (OpView, RulingView);

    open spec fn deep_view(&self) -> (OpView, RulingView) {
        (self.op.deep_view(), self.ruling.deep_view())
    }
}

// ---------------------------------------------------------------------------
// Audit records as documents
// ---------------------------------------------------------------------------

/// The documents of witnesses as a record keeps them.
pub open spec fn bare_witnesses(s: Seq<WitnessView>) -> Seq<JsonView> {
    Seq::new(s.len(), |i: int| wire::bare_witness_value(s[i]))
}

/// The wire name of a mutation.
pub open spec fn op_name(op: OpView) -> Seq<char> {
    match op {
        OpView::RegisterNode { .. } => "register-node"@,
        OpView::AddEdge { .. } => "add-edge"@,
        OpView::RegisterTrustList { .. } => "register-trust-list"@,
        OpView::UpsertTrustEntry { .. } => "upsert-trust-entry"@,
        OpView::SetWitnesses { .. } => "set-witnesses"@,
        OpView::UpsertMasterEntry { .. } => "upsert-master-entry"@,
        OpView::DeclareRevocation { .. } => "declare-revocation"@,
        OpView::RegisterEvidence { .. } => "register-evidence"@,
        OpView::ReleaseEvidence { .. } => "release-evidence"@,
    }
}

/// The document of a mutation.
pub open spec fn op_value(op: OpView) -> JsonView {
    match op {
        OpView::RegisterNode { node } => wire::node_value(node),
        OpView::AddEdge { credential } => wire::edge_value(credential),
        OpView::RegisterTrustList { jurisdiction, framework } => JsonView::object().put(
            "jurisdiction"@,
            JsonView::Str(jurisdiction),
        ).put("framework"@, json::text_or_null(framework)),
        OpView::UpsertTrustEntry { jurisdiction, node, not_before, superseded_at } =>
            JsonView::object().put("jurisdiction"@, JsonView::Str(jurisdiction)).put(
            "node"@,
            JsonView::Str(node),
        ).put("not_before"@, JsonView::Str(wire::ts_text(not_before))).put(
            "superseded_at"@,
            wire::ts_or_null(superseded_at),
        ),
        OpView::SetWitnesses { m, witnesses } => JsonView::object().put(
            "m"@,
            JsonView::Num(m as int),
        ).put("witnesses"@, JsonView::Arr(bare_witnesses(witnesses))),
        OpView::UpsertMasterEntry { entry } => wire::master_entry_value(entry),
        OpView::DeclareRevocation { revocation } => wire::revocation_value(revocation),
        OpView::RegisterEvidence { evidence } => evidence::evidence_value(evidence),
        OpView::ReleaseEvidence { id, requester, scope } => JsonView::object().put(
            "id"@,
            JsonView::Str(id),
        ).put("requester"@, json::text_or_null(requester)).put("scope"@, JsonView::Str(scope)),
    }
}

/// The document of a mutation with its wire name.
pub open spec fn op_doc(op: OpView) -> JsonView {
    JsonView::object().put("op"@, JsonView::Str(op_name(op))).put("body"@, op_value(op))
}

/// The document of an audit record.
pub open spec fn record_value(r: AuditRecordView) -> JsonView {
    op_doc(r.op).put("seq"@, JsonView::Num(r.seq as int)).put(
        "recorded_at"@,
        JsonView::Str(wire::ts_text(r.recorded_at)),
    )
}

/// The documents of audit records.
pub open spec fn record_values(s: Seq<AuditRecordView>) -> Seq<JsonView> {
    Seq::new(s.len(), |i: int| record_value(s[i]))
}

/// The records of a log from `offset` on, at most `limit` of them.
pub open spec fn log_window(log: Seq<AuditRecordView>, limit: usize, offset: usize) -> Seq<
    AuditRecordView,
> {
    let start = if offset < log.len() {
        offset as int
    } else {
        log.len() as int
    };
    let end = if limit < log.len() - start {
        start + limit
    } else {
        log.len() as int
    };
    log.subrange(start, end)
}

/// The document of a window of the log.
pub open spec fn log_value(log: Seq<AuditRecordView>, limit: usize, offset: usize) -> JsonView {
    JsonView::object().put("total"@, JsonView::Num(log.len() as int)).put(
        "offset"@,
        JsonView::Num(offset as int),
    ).put("records"@, JsonView::Arr(record_values(log_window(log, limit, offset))))
}

/// The trust-list registration that a record body declares.
pub open spec fn register_list_of(d: JsonView) -> Result<OpView, Seq<char>> {
    if !(d is Obj) {
        Err("`body` not an object"@)
    } else {
        match d.str_at("jurisdiction"@) {
            None => Err(wire::is_required("jurisdiction"@)),
            Some(jurisdiction) => Ok(
                OpView::RegisterTrustList { jurisdiction, framework: d.str_at("framework"@) },
            ),
        }
    }
}

/// The trust-list entry that a record body declares.
pub open spec fn upsert_entry_of(d: JsonView, j: JudgementsView) -> Result<OpView, Seq<char>> {
    if !(d is Obj) {
        Err("`body` not an object"@)
    } else {
        match d.str_at("jurisdiction"@) {
            None => Err(wire::is_required("jurisdiction"@)),
            Some(jurisdiction) => match d.str_at("node"@) {
                None => Err(wire::is_required("node"@)),
                Some(raw) => match j.node(raw) {
                    Err(e) => Err(e),
                    Ok(node) => match d.str_at("not_before"@) {
                        None => Err(wire::is_required("not_before"@)),
                        Some(t) => match wire::ts_of(t) {
                            Err(e) => Err(e),
                            Ok(not_before) => match d.str_at("superseded_at"@) {
                                None => Ok(
                                    OpView::UpsertTrustEntry {
                                        jurisdiction,
                                        node,
                                        not_before,
                                        superseded_at: None,
                                    },
                                ),
                                Some(u) => match wire::ts_of(u) {
                                    Err(e) => Err(e),
                                    Ok(t) => Ok(
                                        OpView::UpsertTrustEntry {
                                            jurisdiction,
                                            node,
                                            not_before,
                                            superseded_at: Some(t),
                                        },
                                    ),
                                },
                            },
                        },
                    },
                },
            },
        }
    }
}

/// The release that a record body declares.
pub open spec fn release_of(d: JsonView) -> Result<OpView, Seq<char>> {
    if !(d is Obj) {
        Err("`body` not an object"@)
    } else {
        match (d.str_at("id"@), d.str_at("scope"@)) {
            (None, _) => Err(wire::is_required("id"@)),
            (Some(_), None) => Err(wire::is_required("scope"@)),
            (Some(id), Some(scope)) => Ok(
                OpView::ReleaseEvidence { id, requester: d.str_at("requester"@), scope },
            ),
        }
    }
}

/// The text of the node that a kept witness names; empty where it names
/// none.
pub open spec fn kept_node(d: JsonView) -> Seq<char> {
    match d.str_at("node"@) {
        Some(raw) => raw,
        None => ""@,
    }
}

/// The witnesses that a record body declares, or why the first bad key or
/// node is refused.
pub open spec fn kept_witnesses(s: Seq<JsonView>, j: JudgementsView) -> Result<
    Seq<WitnessView>,
    Seq<char>,
>
    decreases s.len(),
{
    if s.len() == 0 {
        Ok(Seq::empty())
    } else {
        match kept_witnesses(s.drop_last(), j) {
            Err(e) => Err(e),
            Ok(v) => match wire::public_of(s.last(), j) {
                Err(e) => Err(e),
                Ok(public) => match j.node(kept_node(s.last())) {
                    Err(e) => Err(e),
                    Ok(node) => Ok(v.push(WitnessView { node, public })),
                },
            },
        }
    }
}

/// The witness set that a record body declares.
pub open spec fn set_witnesses_of(d: JsonView, j: JudgementsView) -> Result<OpView, Seq<char>> {
    if !(d is Obj) {
        Err("`body` not an object"@)
    } else {
        match d.u64_at("m"@) {
            None => Err(wire::is_required("m"@)),
            Some(m) => match d.array_at("witnesses"@) {
                None => Err(wire::is_required("witnesses"@)),
                Some(items) => match kept_witnesses(items, j) {
                    Err(e) => Err(e),
                    Ok(witnesses) => Ok(OpView::SetWitnesses { m: m as usize, witnesses }),
                },
            },
        }
    }
}

/// The mutation that a name and a body declare.
pub open spec fn op_of(name: Seq<char>, body: JsonView, j: JudgementsView) -> Result<
    OpView,
    Seq<char>,
> {
    if name == "register-node"@ {
        match wire::node_of(body, j) {
            Ok(node) => Ok(OpView::RegisterNode { node }),
            Err(e) => Err(e),
        }
    } else if name == "add-edge"@ {
        match wire::edge_of(body, j) {
            Ok(credential) => Ok(OpView::AddEdge { credential }),
            Err(e) => Err(e),
        }
    } else if name == "register-trust-list"@ {
        register_list_of(body)
    } else if name == "upsert-trust-entry"@ {
        upsert_entry_of(body, j)
    } else if name == "set-witnesses"@ {
        set_witnesses_of(body, j)
    } else if name == "upsert-master-entry"@ {
        match wire::master_entry_of(body, j) {
            Ok(entry) => Ok(OpView::UpsertMasterEntry { entry }),
            Err(e) => Err(e),
        }
    } else if name == "declare-revocation"@ {
        match wire::revocation_of(body, j) {
            Ok(revocation) => Ok(OpView::DeclareRevocation { revocation }),
            Err(e) => Err(e),
        }
    } else if name == "register-evidence"@ {
        match evidence::evidence_of(body) {
            Ok(evidence) => Ok(OpView::RegisterEvidence { evidence }),
            Err(e) => Err(e),
        }
    } else if name == "release-evidence"@ {
        release_of(body)
    } else {
        Err("unknown `op` `"@ + name + "`"@)
    }
}

/// The audit record that a document declares.
pub open spec fn record_of(d: JsonView, j: JudgementsView) -> Result<AuditRecordView, Seq<char>> {
    if !(d is Obj) {
        Err("audit record must be an object"@)
    } else {
        match d.u64_at("seq"@) {
            None => Err("missing `seq`"@),
            Some(seq) => match d.str_at("recorded_at"@) {
                None => Err("missing `recorded_at`"@),
                Some(raw) => match wire::ts_of(raw) {
                    Err(e) => Err(wire::about("recorded_at"@, e)),
                    Ok(recorded_at) => match d.str_at("op"@) {
                        None => Err("missing `op`"@),
                        Some(name) => match d.get("body"@) {
                            None => Err("missing `body`"@),
                            Some(body) => match op_of(name, body, j) {
                                Err(e) => Err(e),
                                Ok(op) => Ok(AuditRecordView { seq, recorded_at, op }),
                            },
                        },
                    },
                },
            },
        }
    }
}

proof fn lemma_witnesses_stop(s: Seq<JsonView>, j: JudgementsView, k: int)
    requires
        0 <= k <= s.len(),
    ensures
        kept_witnesses(s.take(k), j) is Err ==> kept_witnesses(s, j) == kept_witnesses(
            s.take(k),
            j,
        ),
    decreases s.len() - k,
{
    if k < s.len() {
        assert(s.take(k + 1).drop_last() =~= s.take(k));
        lemma_witnesses_stop(s, j, k + 1);
    } else {
        assert(s.take(k) =~= s);
    }
}

fn kept_node_text(v: &Json) -> (r: &str)
    ensures
        r@ == kept_node(v@),
{
    match v.str_at("node") {
        Some(raw) => raw,
        None => "",
    }
}

fn read_kept_witnesses(s: &Vec<Json>, j: &Judgements) -> (r: Result<Vec<Witness>, String>)
    ensures
        data::shows(r, kept_witnesses(s.deep_view(), j@)),
{
    let ghost d = s.deep_view();
    let mut out: Vec<Witness> = Vec::new();
    assert(out.deep_view() =~= Seq::<WitnessView>::empty());
    for k in 0..s.len()
        invariant
            d == s.deep_view(),
            kept_witnesses(d.take(k as int), j@) == Ok::<Seq<WitnessView>, Seq<char>>(
                out.deep_view(),
            ),
    {
        assert(d.take(k + 1).drop_last() =~= d.take(k as int));
        assert(d.take(k + 1).last() == s@[k as int]@);
        proof {
            lemma_witnesses_stop(d, j@, k + 1);
        }
        match public_from_value(&s[k], j) {
            Err(e) => {
                return Err(e);
            },
            Ok(public) => match j.node(kept_node_text(&s[k])) {
                Ok(node) => {
                    out.push(Witness { node, public });
                },
                Err(e) => {
                    return Err(e);
                },
            },
        }
    }
    assert(d.take(d.len() as int) =~= d);
    Ok(out)
}

fn op_from(name: &str, body: &Json, j: &Judgements) -> (r: Result<Op, String>)
    ensures
        data::shows(r, op_of(name@, body@, j@)),
{
    if same_text(name, "register-node") {
        match node_from_value(body, j) {
            Ok(node) => Ok(Op::RegisterNode { node }),
            Err(e) => Err(e),
        }
    } else if same_text(name, "add-edge") {
        match edge_from_value(body, j) {
            Ok(credential) => Ok(Op::AddEdge { credential }),
            Err(e) => Err(e),
        }
    } else if same_text(name, "register-trust-list") {
        if !body.is_object() {
            return Err("`body` not an object".to_owned());
        }
        let jurisdiction = match body.str_at("jurisdiction") {
            Some(s) => s.to_owned(),
            None => return Err(join3("`", "jurisdiction", "` is required")),
        };
        let framework: Option<String> = match body.str_at("framework") {
            Some(s) => Some(s.to_owned()),
            None => None,
        };
        Ok(Op::RegisterTrustList { jurisdiction, framework })
    } else if same_text(name, "upsert-trust-entry") {
        if !body.is_object() {
            return Err("`body` not an object".to_owned());
        }
        let jurisdiction = match body.str_at("jurisdiction") {
            Some(s) => s.to_owned(),
            None => return Err(join3("`", "jurisdiction", "` is required")),
        };
        let node = match body.str_at("node") {
            None => return Err(join3("`", "node", "` is required")),
            Some(raw) => match j.node(raw) {
                Ok(n) => n,
                Err(e) => return Err(e),
            },
        };
        let not_before = match body.str_at("not_before") {
            None => return Err(join3("`", "not_before", "` is required")),
            Some(raw) => match ts_parse(raw) {
                Ok(t) => t,
                Err(e) => return Err(e),
            },
        };
        let superseded_at: Option<Timestamp> = match body.str_at("superseded_at") {
            None => None,
            Some(raw) => match ts_parse(raw) {
                Ok(t) => Some(t),
                Err(e) => return Err(e),
            },
        };
        Ok(Op::UpsertTrustEntry { jurisdiction, node, not_before, superseded_at })
    } else if same_text(name, "set-witnesses") {
        if !body.is_object() {
            return Err("`body` not an object".to_owned());
        }
        let m: u64 = match body.u64_at("m") {
            Some(m) => m,
            None => return Err(join3("`", "m", "` is required")),
        };
        let items = match body.array_at("witnesses") {
            Some(a) => a,
            None => return Err(join3("`", "witnesses", "` is required")),
        };
        match read_kept_witnesses(items, j) {
            Ok(witnesses) => Ok(Op::SetWitnesses { m: m as usize, witnesses }),
            Err(e) => Err(e),
        }
    } else if same_text(name, "upsert-master-entry") {
        match master_entry_from_value(body, j) {
            Ok(entry) => Ok(Op::UpsertMasterEntry { entry }),
            Err(e) => Err(e),
        }
    } else if same_text(name, "declare-revocation") {
        match revocation_from_value(body, j) {
            Ok(revocation) => Ok(Op::DeclareRevocation { revocation }),
            Err(e) => Err(e),
        }
    } else if same_text(name, "register-evidence") {
        match evidence_from_value(body) {
            Ok(evidence) => Ok(Op::RegisterEvidence { evidence }),
            Err(e) => Err(e),
        }
    } else if same_text(name, "release-evidence") {
        if !body.is_object() {
            return Err("`body` not an object".to_owned());
        }
        let id = match body.str_at("id") {
            Some(s) => s.to_owned(),
            None => return Err(join3("`", "id", "` is required")),
        };
        let scope = match body.str_at("scope") {
            Some(s) => s.to_owned(),
            None => return Err(join3("`", "scope", "` is required")),
        };
        let requester: Option<String> = match body.str_at("requester") {
            Some(s) => Some(s.to_owned()),
            None => None,
        };
        Ok(Op::ReleaseEvidence { id, requester, scope })
    } else {
        Err(join3("unknown `op` `", name, "`"))
    }
}

impl Op {
    /// Render with the wire name.
    pub fn to_json(&self) -> (r: Json)
        ensures
            r@ == op_doc(self@),
    {
        let (name, body): (&str, Json) = match self {
            Op::RegisterNode { node } => ("register-node", node_to_value(node)),
            Op::AddEdge { credential } => ("add-edge", edge_to_value(credential)),
            Op::RegisterTrustList { jurisdiction, framework } => (
                "register-trust-list",
                Json::object().with("jurisdiction", Json::text(jurisdiction.as_str())).with(
                    "framework",
                    Json::opt_text(framework),
                ),
            ),
            Op::UpsertTrustEntry { jurisdiction, node, not_before, superseded_at } => (
                "upsert-trust-entry",
                Json::object().with("jurisdiction", Json::text(jurisdiction.as_str())).with(
                    "node",
                    Json::text(node.as_str()),
                ).with("not_before", Json::text(ts_string(not_before).as_str())).with(
                    "superseded_at",
                    ts_json(superseded_at),
                ),
            ),
            Op::SetWitnesses { m, witnesses } => (
                "set-witnesses",
                Json::object().with("m", Json::Uint(*m as u64)).with(
                    "witnesses",
                    kept_witness_docs(witnesses),
                ),
            ),
            Op::UpsertMasterEntry { entry } => (
                "upsert-master-entry",
                master_entry_to_value(entry),
            ),
            Op::DeclareRevocation { revocation } => (
                "declare-revocation",
                revocation_to_value(revocation),
            ),
            Op::RegisterEvidence { evidence } => (
                "register-evidence",
                evidence_to_value(evidence),
            ),
            Op::ReleaseEvidence { id, requester, scope } => (
                "release-evidence",
                Json::object().with("id", Json::text(id.as_str())).with(
                    "requester",
                    Json::opt_text(requester),
                ).with("scope", Json::text(scope.as_str())),
            ),
        };
        Json::object().with("op", Json::text(name)).with("body", body)
    }
}

impl AuditRecord {
    /// Render for the journal and the audit-log endpoint.
    pub fn to_json(&self) -> (r: Json)
        ensures
            r@ == record_value(self@),
    {
        self.op.to_json().with("seq", Json::Uint(self.seq)).with(
            "recorded_at",
            Json::text(ts_string(&self.recorded_at).as_str()),
        )
    }

    /// Read a record of the journal back.
    pub fn from_json(v: &Json, j: &Judgements) -> (r: Result<AuditRecord, String>)
        ensures
            data::shows(r, record_of(v@, j@)),
    {
        if !v.is_object() {
            return Err("audit record must be an object".to_owned());
        }
        let seq: u64 = match v.u64_at("seq") {
            Some(n) => n,
            None => return Err("missing `seq`".to_owned()),
        };
        let recorded_at = match v.str_at("recorded_at") {
            None => return Err("missing `recorded_at`".to_owned()),
            Some(raw) => match ts_parse(raw) {
                Ok(t) => t,
                Err(e) => return Err(
                    crate::text::join4("`", "recorded_at", "`: ", e.as_str()),
                ),
            },
        };
        let name = match v.str_at("op") {
            Some(s) => s,
            None => return Err("missing `op`".to_owned()),
        };
        let body = match v.get("body") {
            Some(b) => b,
            None => return Err("missing `body`".to_owned()),
        };
        match op_from(name, body, j) {
            Ok(op) => Ok(AuditRecord { seq, recorded_at, op }),
            Err(e) => Err(e),
        }
    }
}

fn kept_witness_docs(witnesses: &Vec<Witness>) -> (r: Json)
    ensures
        r@ == JsonView::Arr(bare_witnesses(witnesses.deep_view())),
{
    let mut out: Vec<Json> = Vec::new();
    for k in 0..witnesses.len()
        invariant
            out.deep_view() == bare_witnesses(witnesses.deep_view().take(k as int)),
    {
        out.push(bare_witness_to_value(&witnesses[k]));
        assert(bare_witnesses(witnesses.deep_view().take(k + 1)) =~= bare_witnesses(
            witnesses.deep_view().take(k as int),
        ).push(wire::bare_witness_value(witnesses@[k as int].deep_view())));
    }
    assert(witnesses.deep_view().take(witnesses@.len() as int) =~= witnesses.deep_view());
    Json::list(out)
}

/// The record that a line of the journal holds; none where it is blank.
pub open spec fn line_record(
    line: Seq<char>,
    parsed: Result<JsonView, Seq<char>>,
    j: JudgementsView,
) -> Option<Result<AuditRecordView, Seq<char>>> {
    if text::trimmed(line).len() == 0 {
        None
    } else {
        match parsed {
            Ok(d) => Some(record_of(d, j)),
            Err(e) => Some(Err(e)),
        }
    }
}

/// Read a line of the journal, from the outcome of parsing it. A blank line
/// is passed over; a torn or corrupted one is an error to report.
pub fn read_line(line: &str, parsed: &Result<Json, String>, j: &Judgements) -> (r: Option<
    Result<AuditRecord, String>,
>)
    ensures
        match line_record(line@, codec::outcome(*parsed), j@) {
            None => r is None,
            Some(v) => r is Some && data::shows(r->0, v),
        },
{
    if is_blank(line) {
        return None;
    }
    match parsed {
        Ok(d) => Some(AuditRecord::from_json(d, j)),
        Err(e) => Some(Err(e.clone())),
    }
}

/// What a line of the journal is.
#[derive(Debug)]
pub enum Line {
    /// It holds nothing.
    Blank,
    /// It holds a record.
    Record(AuditRecord),
    /// It is torn or corrupted.
    Corrupt(String),
}

/// The line is what its text states.
pub open spec fn line_is(r: Line, line: Seq<char>, j: JudgementsView) -> bool {
    match line_record(line, codec::text_doc(line), j) {
        None => r is Blank,
        Some(Ok(rec)) => r matches Line::Record(x) && x@ == rec,
        Some(Err(e)) => r matches Line::Corrupt(m) && m@ == e,
    }
}

/// Read the text of a line of the journal. A blank line is passed over; a
/// torn or corrupted one is an error to report, and replay goes on.
pub fn scan_line(line: &str, j: &Judgements) -> (r: Line)
    ensures
        line_is(r, line@, j@),
{
    match read_line(line, &codec::read_text(line), j) {
        None => Line::Blank,
        Some(Ok(rec)) => Line::Record(rec),
        Some(Err(e)) => Line::Corrupt(e),
    }
}

/// The line of the journal that holds a record.
pub fn journal_line(rec: &AuditRecord) -> (r: String)
    ensures
        r@ == codec::line_text(codec::settled(record_value(rec@))),
        !r@.contains('\n'),
        r@.len() > 0 && r@[0] == '{',
        codec::portable(record_value(rec@)) ==> codec::text_doc(r@) == Ok::<JsonView, Seq<char>>(
            record_value(rec@),
        ),
{
    codec::one_line(&rec.to_json())
}

fn render_records(log: &Vec<AuditRecord>, start: usize, end: usize) -> (r: Json)
    requires
        start <= end <= log@.len(),
    ensures
        r@ == JsonView::Arr(record_values(log.deep_view().subrange(start as int, end as int))),
{
    let ghost all = log.deep_view();
    let mut records: Vec<Json> = Vec::new();
    assert(records.deep_view() =~= record_values(all.subrange(start as int, start as int)));
    for k in start..end
        invariant
            all == log.deep_view(),
            start <= end <= log@.len(),
            records.deep_view() == record_values(all.subrange(start as int, k as int)),
    {
        assert(all[k as int] == log@[k as int].deep_view());
        records.push(log[k].to_json());
        assert(record_values(all.subrange(start as int, k + 1)) =~= record_values(
            all.subrange(start as int, k as int),
        ).push(record_value(all[k as int])));
    }
    Json::list(records)
}

fn begins_with_fixtures(journal: &Vec<JournalEntry>, fixtures: &Vec<Fixture>) -> (r: bool)
    ensures
        r == starts_seeded(journal.deep_view(), fixtures.deep_view()),
{
    let ghost j = journal.deep_view();
    let ghost f = fixtures.deep_view();
    if fixtures.len() > journal.len() {
        return false;
    }
    for k in 0..fixtures.len()
        invariant
            j == journal.deep_view(),
            f == fixtures.deep_view(),
            fixtures@.len() <= journal@.len(),
            forall|i: int| 0 <= i < k ==> written_alike((#[trigger] j[i]).0.op, f[i].0),
    {
        assert(j[k as int] == journal@[k as int].deep_view());
        assert(f[k as int] == fixtures@[k as int].deep_view());
        let kept = codec::one_line(&journal[k].record.op.to_json());
        let fresh = codec::one_line(&fixtures[k].op.to_json());
        if !same_text(kept.as_str(), fresh.as_str()) {
            return false;
        }
    }
    true
}

impl Store {
    /// The store before any record.
    pub fn new() -> (r: Store)
        ensures
            r@ == empty_store(),
    {
        let s = Store {
            graph: TrustGraph { nodes: Vec::new(), edges: Vec::new() },
            trust_lists: Vec::new(),
            master: MasterList { m: 1, k: 0, witnesses: Vec::new(), entries: Vec::new() },
            ledger: Vec::new(),
            evidence: Vec::new(),
            log: Vec::new(),
            rulings: Vec::new(),
            fixtures: 0,
        };
        assert(s@ =~~= empty_store());
        s
    }

    /// Apply one mutation to the state; a refused one changes nothing. The
    /// log is left alone.
    pub fn apply_op(&mut self, op: &Op, ruling: &Ruling) -> (r: Result<(), StoreError>)
        ensures
            match applied(old(self)@, op@, ruling@) {
                Ok(s) => r is Ok && final(self)@ == s,
                Err(e) => r is Err && (r->Err_0)@ == e && final(self)@ == old(self)@,
            },
    {
        match op {
            Op::RegisterNode { node } => {
                let merged: DelegationNode = match find_by_key(&self.graph.nodes, node.id.as_str()) {
                    None => node.dup(),
                    Some(existing) => {
                        let mut keys: Vec<RegisteredKey> = existing.keys.dup();
                        merge_keys(&mut keys, &node.keys);
                        DelegationNode { id: node.id.clone(), kind: node.kind.dup(), keys }
                    },
                };
                insert_keyed(&mut self.graph.nodes, merged);
                Ok(())
            },
            Op::AddEdge { credential } => match &ruling.edge {
                Some(e) => Err(StoreError::Invalid(e.clone())),
                None => {
                    self.graph.edges.push(credential.dup());
                    Ok(())
                },
            },
            Op::RegisterTrustList { jurisdiction, framework } => {
                let key = ascii_upper(jurisdiction.as_str());
                if find_by_key(&self.trust_lists, key.as_str()).is_some() {
                    return Err(
                        StoreError::Conflict(
                            join3(
                                "trust list `",
                                jurisdiction.as_str(),
                                "` is already registered",
                            ),
                        ),
                    );
                }
                let entries: Vec<TrustListEntryRecord> = Vec::new();
                assert(entries.deep_view() =~= Seq::<TrustListEntryRecordView>::empty());
                let list = TrustList { jurisdiction: jurisdiction.clone(), entries };
                insert_keyed(
                    &mut self.trust_lists,
                    JurisdictionList { key, framework: framework.dup(), list },
                );
                Ok(())
            },
            Op::UpsertTrustEntry { jurisdiction, node, not_before, superseded_at } => {
                let key = ascii_upper(jurisdiction.as_str());
                let (framework, mut list) = match find_by_key(&self.trust_lists, key.as_str()) {
                    None => return Err(
                        StoreError::NotFound(join3("no trust list `", jurisdiction.as_str(), "`")),
                    ),
                    Some(l) => (l.framework.dup(), l.list.dup()),
                };
                let entry = TrustListEntryRecord {
                    node: node.clone(),
                    not_before: *not_before,
                    superseded_at: *superseded_at,
                };
                apply_entry(&mut list, &entry);
                insert_keyed(&mut self.trust_lists, JurisdictionList { key, framework, list });
                Ok(())
            },
            Op::SetWitnesses { m, witnesses } => {
                if let Some(e) = check_witness_set(*m, witnesses.len()) {
                    return Err(StoreError::Invalid(e));
                }
                let map = witness_map(witnesses);
                self.master.m = *m;
                self.master.k = map.len();
                self.master.witnesses = map;
                Ok(())
            },
            Op::UpsertMasterEntry { entry } => {
                if let Some(e) = check_entry(&self.master.witnesses, entry) {
                    return Err(StoreError::Invalid(e));
                }
                insert_keyed(&mut self.master.entries, entry.dup());
                Ok(())
            },
            Op::DeclareRevocation { revocation } => {
                if let Some(e) = check_revocation(&self.graph, revocation, &ruling.checks) {
                    return Err(StoreError::Invalid(e));
                }
                if let Some(e) = &ruling.ledger {
                    return Err(StoreError::Invalid(e.clone()));
                }
                self.ledger.push(revocation.dup());
                Ok(())
            },
            Op::RegisterEvidence { evidence } => {
                if find_by_key(&self.evidence, evidence.id.as_str()).is_some() {
                    return Err(
                        StoreError::Conflict(
                            join3(
                                "evidence `",
                                evidence.id.as_str(),
                                "` is already registered",
                            ),
                        ),
                    );
                }
                insert_keyed(&mut self.evidence, evidence.dup());
                Ok(())
            },
            Op::ReleaseEvidence { id, requester: _, scope } => match check_release(
                &self.evidence,
                id.as_str(),
                scope.as_str(),
            ) {
                Some(e) => Err(e),
                None => Ok(()),
            },
        }
    }

    /// Take one record of the journal back: apply its mutation where it can
    /// be applied, and log it. A mutation that no longer applies is
    /// reported.
    pub fn replay(&mut self, record: AuditRecord, ruling: &Ruling) -> (r: Option<StoreError>)
        ensures
            final(self)@ == logged(old(self)@, record@, ruling@),
            match applied(old(self)@, record@.op, ruling@) {
                Ok(_) => r is None,
                Err(e) => r.deep_view() == Some(e),
            },
    {
        let outcome = self.apply_op(&record.op, ruling);
        self.log.push(record);
        self.rulings.push(ruling.dup());
        match outcome {
            Ok(()) => None,
            Err(e) => Some(e),
        }
    }

    /// Append a record to the audit log, and apply its mutation where it
    /// can be applied.
    pub fn record(&mut self, op: Op, at: Timestamp, ruling: &Ruling) -> (r: AuditRecord)
        requires
            old(self)@.log.len() < u64::MAX,
        ensures
            r@ == next_record(old(self)@, op@, at),
            final(self)@ == logged(old(self)@, r@, ruling@),
    {
        let rec = AuditRecord { seq: self.log.len() as u64 + 1, recorded_at: at, op };
        let copy = rec.dup();
        let _ = self.apply_op(&rec.op, ruling);
        self.log.push(rec);
        self.rulings.push(ruling.dup());
        copy
    }

    /// Validate a mutation and record it; a refused one leaves no trace.
    fn submit(&mut self, op: Op, at: Timestamp, ruling: &Ruling) -> (r: Result<
        AuditRecord,
        StoreError,
    >)
        requires
            old(self)@.log.len() < u64::MAX,
        ensures
            submitted(old(self)@, op@, at, ruling@, r, final(self)@),
    {
        let rec = AuditRecord { seq: self.log.len() as u64 + 1, recorded_at: at, op };
        match self.apply_op(&rec.op, ruling) {
            Err(e) => Err(e),
            Ok(()) => {
                let copy = rec.dup();
                self.log.push(rec);
                self.rulings.push(ruling.dup());
                Ok(copy)
            },
        }
    }

    // -- typed mutation entry points (validated) -------------------------

    pub fn register_node(&mut self, node: DelegationNode, at: Timestamp, ruling: &Ruling) -> (r:
        Result<AuditRecord, StoreError>)
        requires
            old(self)@.log.len() < u64::MAX,
        ensures
            r is Ok,
            submitted(
                old(self)@,
                OpView::RegisterNode { node: node@ },
                at,
                ruling@,
                r,
                final(self)@,
            ),
    {
        self.submit(Op::RegisterNode { node }, at, ruling)
    }

    pub fn add_edge(
        &mut self,
        credential: DelegationCredential,
        at: Timestamp,
        ruling: &Ruling,
    ) -> (r: Result<AuditRecord, StoreError>)
        requires
            old(self)@.log.len() < u64::MAX,
        ensures
            submitted(
                old(self)@,
                OpView::AddEdge { credential: credential@ },
                at,
                ruling@,
                r,
                final(self)@,
            ),
    {
        self.submit(Op::AddEdge { credential }, at, ruling)
    }

    pub fn register_trust_list(
        &mut self,
        jurisdiction: String,
        framework: Option<String>,
        at: Timestamp,
        ruling: &Ruling,
    ) -> (r: Result<AuditRecord, StoreError>)
        requires
            old(self)@.log.len() < u64::MAX,
        ensures
            submitted(
                old(self)@,
                OpView::RegisterTrustList {
                    jurisdiction: jurisdiction@,
                    framework: framework.deep_view(),
                },
                at,
                ruling@,
                r,
                final(self)@,
            ),
    {
        self.submit(Op::RegisterTrustList { jurisdiction, framework }, at, ruling)
    }

    pub fn upsert_trust_entry(
        &mut self,
        jurisdiction: String,
        entry: TrustListEntryRecord,
        at: Timestamp,
        ruling: &Ruling,
    ) -> (r: Result<AuditRecord, StoreError>)
        requires
            old(self)@.log.len() < u64::MAX,
        ensures
            submitted(
                old(self)@,
                OpView::UpsertTrustEntry {
                    jurisdiction: jurisdiction@,
                    node: entry@.node,
                    not_before: entry@.not_before,
                    superseded_at: entry@.superseded_at,
                },
                at,
                ruling@,
                r,
                final(self)@,
            ),
    {
        assert(entry.superseded_at.deep_view() == entry@.superseded_at);
        self.submit(
            Op::UpsertTrustEntry {
                jurisdiction,
                node: entry.node,
                not_before: entry.not_before,
                superseded_at: entry.superseded_at,
            },
            at,
            ruling,
        )
    }

    pub fn set_witnesses(
        &mut self,
        m: usize,
        witnesses: Vec<Witness>,
        at: Timestamp,
        ruling: &Ruling,
    ) -> (r: Result<AuditRecord, StoreError>)
        requires
            old(self)@.log.len() < u64::MAX,
        ensures
            submitted(
                old(self)@,
                OpView::SetWitnesses { m, witnesses: witnesses.deep_view() },
                at,
                ruling@,
                r,
                final(self)@,
            ),
    {
        self.submit(Op::SetWitnesses { m, witnesses }, at, ruling)
    }

    pub fn upsert_master_entry(
        &mut self,
        entry: MasterListEntry,
        at: Timestamp,
        ruling: &Ruling,
    ) -> (r: Result<AuditRecord, StoreError>)
        requires
            old(self)@.log.len() < u64::MAX,
        ensures
            submitted(
                old(self)@,
                OpView::UpsertMasterEntry { entry: entry@ },
                at,
                ruling@,
                r,
                final(self)@,
            ),
    {
        self.submit(Op::UpsertMasterEntry { entry }, at, ruling)
    }

    pub fn declare_revocation(&mut self, revocation: Revocation, at: Timestamp, ruling: &Ruling) -> (r:
        Result<AuditRecord, StoreError>)
        requires
            old(self)@.log.len() < u64::MAX,
        ensures
            submitted(
                old(self)@,
                OpView::DeclareRevocation { revocation: revocation@ },
                at,
                ruling@,
                r,
                final(self)@,
            ),
    {
        self.submit(Op::DeclareRevocation { revocation }, at, ruling)
    }

    pub fn register_evidence(&mut self, evidence: Evidence, at: Timestamp) -> (r: Result<
        AuditRecord,
        StoreError,
    >)
        requires
            old(self)@.log.len() < u64::MAX,
        ensures
            submitted(
                old(self)@,
                OpView::RegisterEvidence { evidence: evidence@ },
                at,
                unruled(),
                r,
                final(self)@,
            ),
    {
        self.submit(Op::RegisterEvidence { evidence }, at, &no_ruling())
    }

    /// Release a document under a scope; the access decision is recorded.
    pub fn release_evidence(
        &mut self,
        id: &str,
        requester: Option<String>,
        scope: &str,
        at: Timestamp,
    ) -> (r: Result<Evidence, StoreError>)
        requires
            old(self)@.log.len() < u64::MAX,
        ensures
            ({
                let op = OpView::ReleaseEvidence {
                    id: id@,
                    requester: requester.deep_view(),
                    scope: scope@,
                };
                match release_error(old(self)@.evidence, id@, scope@) {
                    None => {
                        &&& r is Ok
                        &&& Some((r->Ok_0)@) == data::lookup::<Evidence>(old(self)@.evidence, id@)
                        &&& final(self)@ == logged(
                            old(self)@,
                            next_record(old(self)@, op, at),
                            unruled(),
                        )
                    },
                    Some(e) => r is Err && (r->Err_0)@ == e && final(self)@ == old(self)@,
                }
            }),
    {
        let document = match find_by_key(&self.evidence, id) {
            Some(e) => Some(e.dup()),
            None => None,
        };
        let op = Op::ReleaseEvidence { id: id.to_owned(), requester, scope: scope.to_owned() };
        match (self.submit(op, at, &no_ruling()), document) {
            (Ok(_), Some(e)) => Ok(e),
            (Ok(_), None) => {
                assert(false);
                Err(StoreError::NotFound(join3("no evidence `", id, "`")))
            },
            (Err(e), _) => Err(e),
        }
    }

    /// Open a store: replay the journal and, where it held no record and
    /// seeding is wanted, record the fixtures. A journal that starts with the
    /// fixtures is known by them.
    pub fn open(
        journal: Vec<JournalEntry>,
        seed_when_empty: bool,
        fixtures: Vec<Fixture>,
        at: Timestamp,
    ) -> (r: Store)
        ensures
            r@ == opened(journal.deep_view(), seed_when_empty, fixtures.deep_view(), at),
    {
        let mut store = Store::new();
        for k in 0..journal.len()
            invariant
                store@ == replayed(journal.deep_view(), k as nat),
        {
            let entry: &JournalEntry = &journal[k];
            assert(journal.deep_view()[k as int] == entry.deep_view());
            let _ = store.replay(entry.record.dup(), &entry.ruling);
        }
        let ghost start = store@;
        if seed_when_empty && store.log.len() == 0 {
            for k in 0..fixtures.len()
                invariant
                    start.log.len() == 0,
                    store@.log.len() == k,
                    store.fixtures == k,
                    store@ == seeded(start, fixtures.deep_view(), at, k as nat),
            {
                let fixture: &Fixture = &fixtures[k];
                assert(fixtures.deep_view()[k as int] == fixture.deep_view());
                let _ = store.record(fixture.op.dup(), at, &fixture.ruling);
                store.fixtures = k + 1;
            }
        } else if begins_with_fixtures(&journal, &fixtures) {
            store.fixtures = fixtures.len();
        }
        store
    }

    // -- reads ----------------------------------------------------------

    /// The store as it was at an instant: what the records that stood then
    /// rebuild.
    pub fn as_of(&self, t: Timestamp) -> (r: Store)
        ensures
            r@ == as_of(self@, t),
    {
        let mut store = Store::new();
        let none = no_ruling();
        for k in 0..self.log.len()
            invariant
                none@ == unruled(),
                store.fixtures <= k,
                store@ == rebuilt_by(self@, t, k as nat),
        {
            let record: &AuditRecord = &self.log[k];
            assert(self@.log[k as int] == record@);
            let since: Timestamp = if k < self.fixtures {
                date_of_fixture(&record.op)
            } else {
                record.recorded_at
            };
            if since.secs <= t.secs {
                let ruling: &Ruling = if k < self.rulings.len() {
                    assert(self@.rulings[k as int] == self.rulings@[k as int].deep_view());
                    &self.rulings[k]
                } else {
                    &none
                };
                let _ = store.replay(record.dup(), ruling);
                if k < self.fixtures {
                    store.fixtures = store.fixtures + 1;
                }
            }
        }
        store
    }

    /// The master list with the witness set as it was at an instant.
    pub fn master_as_of(&self, t: Timestamp) -> (r: MasterList)
        ensures
            r@ == master_as_of(self@, t),
    {
        let past = self.as_of(t).master;
        MasterList {
            m: past.m,
            k: past.k,
            witnesses: past.witnesses,
            entries: self.master.entries.dup(),
        }
    }

    /// The trust list of a jurisdiction, matched without regard to case.
    pub fn trust_list(&self, jurisdiction: &str) -> (r: Option<&TrustList>)
        ensures
            match (r, data::lookup::<JurisdictionList>(self@.trust_lists, text::upper(jurisdiction@))) {
                (Some(l), Some(j)) => l@ == j.list,
                (None, None) => true,
                _ => false,
            },
    {
        match find_by_key(&self.trust_lists, ascii_upper(jurisdiction).as_str()) {
            Some(l) => Some(&l.list),
            None => None,
        }
    }

    /// The jurisdictions with a trust list, in ascending order.
    pub fn jurisdictions(&self) -> (r: Vec<String>)
        ensures
            r.deep_view() == list_keys(self@.trust_lists),
            laws::well_formed(self@) ==> text::ascending(r.deep_view()),
    {
        let mut out: Vec<String> = Vec::new();
        for k in 0..self.trust_lists.len()
            invariant
                out.deep_view() == list_keys(self@.trust_lists.take(k as int)),
        {
            out.push(self.trust_lists[k].key.clone());
            assert(list_keys(self@.trust_lists.take(k + 1)) =~= list_keys(
                self@.trust_lists.take(k as int),
            ).push(self.trust_lists@[k as int].key@));
        }
        assert(self@.trust_lists.take(self.trust_lists@.len() as int) =~= self@.trust_lists);
        proof {
            if laws::well_formed(self@) {
                laws::lemma_keys_ascend(self@.trust_lists);
            }
        }
        out
    }

    /// The catalogue metadata of a document.
    pub fn evidence_meta(&self, id: &str) -> (r: Option<Json>)
        ensures
            r.deep_view() == match data::lookup::<Evidence>(self@.evidence, id@) {
                Some(e) => Some(evidence::meta_of(e)),
                None => None,
            },
    {
        match find_by_key(&self.evidence, id) {
            Some(e) => Some(render_meta(e)),
            None => None,
        }
    }

    /// The catalogue of the documents: metadata only.
    pub fn evidence_list_json(&self) -> (r: Json)
        ensures
            r@ == evidence::catalogue_of(self@.evidence),
    {
        render_catalogue(&self.evidence)
    }

    /// A window of the audit log: `limit` records from `offset` on.
    pub fn log_json(&self, limit: usize, offset: usize) -> (r: Json)
        ensures
            r@ == log_value(self@.log, limit, offset),
    {
        let total: usize = self.log.len();
        let start: usize = if offset < total {
            offset
        } else {
            total
        };
        let end: usize = if limit < total - start {
            start + limit
        } else {
            total
        };
        Json::object().with("total", Json::Uint(total as u64)).with(
            "offset",
            Json::Uint(offset as u64),
        ).with("records", render_records(&self.log, start, end))
    }
}

/// A submitted mutation that is taken hands out the record that it adds: the
/// next number, the instant of the call and the mutation; one that is refused
/// leaves the store as it was.
pub proof fn law_submissions(
    before: StoreView,
    op: OpView,
    at: Timestamp,
    ruling: RulingView,
    r: Result<AuditRecord, StoreError>,
    now: StoreView,
)
    requires
        submitted(before, op, at, ruling, r, now),
        before.log.len() < u64::MAX,
    ensures
        r is Ok <==> applied(before, op, ruling) is Ok,
        r is Ok ==> {
            &&& now.log == before.log.push((r->Ok_0)@)
            &&& (r->Ok_0)@.seq == before.log.len() + 1
            &&& (r->Ok_0)@.recorded_at == at
            &&& (r->Ok_0)@.op == op
            &&& now.rulings == before.rulings.push(ruling)
            &&& applied(before, op, ruling) matches Ok(t) ==> now.graph == t.graph && now.ledger
                == t.ledger && now.trust_lists == t.trust_lists && now.master == t.master
                && now.evidence == t.evidence && now.fixtures == t.fixtures
        },
        r is Err ==> now == before,
{
}

} // verus!
