//! The trust model as plain values: keys and signature slots, the
//! delegation graph, trust lists, the master list and revocations.

use vstd::prelude::*;

use crate::data::{Dup, Keyed};
use crate::json::{Json, JsonView};
use crate::text::{join3, join4};
use crate::time::Timestamp;

verus! {

impl Dup for Timestamp {
    fn dup(&self) -> (r: Timestamp) {
        *self
    }
}

impl Dup for usize {
    fn dup(&self) -> (r: usize) {
        *self
    }
}

impl Keyed for String {
    open spec fn key_of(v: Seq<char>) -> Seq<char> {
        v
    }

    fn key(&self) -> (r: &String) {
        self
    }
}

// ---------------------------------------------------------------------------
// Keys and signatures
// ---------------------------------------------------------------------------

/// A signature suite: its name and the length of its signatures in bytes.
#[derive(Debug, PartialEq, Eq)]
pub struct Suite {
    pub name: String,
    pub signature_len: usize,
}

#[verifier::ext_equal]
pub struct SuiteView {
    pub name: Seq<char>,
    pub signature_len: usize,
}

impl DeepView for Suite {
    type V = SuiteView;

    open spec fn deep_view(&self) -> SuiteView {
        SuiteView {
            name: self.name.deep_view(),
            signature_len: self.signature_len.deep_view(),
        }
    }
}

impl View for Suite {
    type V = SuiteView;

    open spec fn view(&self) -> SuiteView {
        self.deep_view()
    }
}

impl Dup for Suite {
    fn dup(&self) -> (r: Suite) {
        Suite {
            name: self.name.dup(),
            signature_len: self.signature_len.dup(),
        }
    }
}

/// A public key: the name of its suite, its raw bytes and the key id that
/// the bytes hash to.
#[derive(Debug, PartialEq, Eq)]
pub struct PublicKey {
    pub suite: String,
    pub bytes: Vec<u8>,
    pub key_id: String,
}

#[verifier::ext_equal]
pub struct PublicKeyView {
    pub suite: Seq<char>,
    pub bytes: Seq<u8>,
    pub key_id: Seq<char>,
}

impl DeepView for PublicKey {
    type V = PublicKeyView;

    open spec fn deep_view(&self) -> PublicKeyView {
        PublicKeyView {
            suite: self.suite.deep_view(),
            bytes: self.bytes.deep_view(),
            key_id: self.key_id.deep_view(),
        }
    }
}

impl View for PublicKey {
    type V = PublicKeyView;

    open spec fn view(&self) -> PublicKeyView {
        self.deep_view()
    }
}

impl Dup for PublicKey {
    fn dup(&self) -> (r: PublicKey) {
        PublicKey {
            suite: self.suite.dup(),
            bytes: self.bytes.dup(),
            key_id: self.key_id.dup(),
        }
    }
}

/// A place for one signature by one key; unsigned while it holds none.
#[derive(Debug, PartialEq, Eq)]
pub struct SignatureSlot {
    pub suite: Suite,
    pub key_id: String,
    pub signature: Option<Vec<u8>>,
}

#[verifier::ext_equal]
pub struct SignatureSlotView {
    pub suite: SuiteView,
    pub key_id: Seq<char>,
    pub signature: Option<Seq<u8>>,
}

impl DeepView for SignatureSlot {
    type V = SignatureSlotView;

    open spec fn deep_view(&self) -> SignatureSlotView {
        SignatureSlotView {
            suite: self.suite.deep_view(),
            key_id: self.key_id.deep_view(),
            signature: self.signature.deep_view(),
        }
    }
}

impl View for SignatureSlot {
    type V = SignatureSlotView;

    open spec fn view(&self) -> SignatureSlotView {
        self.deep_view()
    }
}

impl Dup for SignatureSlot {
    fn dup(&self) -> (r: SignatureSlot) {
        SignatureSlot {
            suite: self.suite.dup(),
            key_id: self.key_id.dup(),
            signature: self.signature.dup(),
        }
    }
}

// ---------------------------------------------------------------------------
// The delegation graph
// ---------------------------------------------------------------------------

/// A key registered on a node.
#[derive(Debug, PartialEq, Eq)]
pub struct RegisteredKey {
    pub key_id: String,
    pub public: PublicKey,
}

#[verifier::ext_equal]
pub struct RegisteredKeyView {
    pub key_id: Seq<char>,
    pub public: PublicKeyView,
}

impl DeepView for RegisteredKey {
    type V = RegisteredKeyView;

    open spec fn deep_view(&self) -> RegisteredKeyView {
        RegisteredKeyView {
            key_id: self.key_id.deep_view(),
            public: self.public.deep_view(),
        }
    }
}

impl View for RegisteredKey {
    type V = RegisteredKeyView;

    open spec fn view(&self) -> RegisteredKeyView {
        self.deep_view()
    }
}

impl Dup for RegisteredKey {
    fn dup(&self) -> (r: RegisteredKey) {
        RegisteredKey {
            key_id: self.key_id.dup(),
            public: self.public.dup(),
        }
    }
}

/// The role of a node in the delegation graph.
#[derive(Debug, PartialEq, Eq)]
pub enum NodeKind {
    Root,
    Delegated,
    End,
    /// A group that acts when `threshold` of its members act; the members
    /// stand in ascending order.
    ThresholdGroup { threshold: usize, members: Vec<String> },
}

#[verifier::ext_equal]
pub enum NodeKindView {
    Root,
    Delegated,
    End,
    ThresholdGroup { threshold: usize, members: Seq<Seq<char>> },
}

impl DeepView for NodeKind {
    type V = NodeKindView;

    open spec fn deep_view(&self) -> NodeKindView {
        match self {
            NodeKind::Root => NodeKindView::Root,
            NodeKind::Delegated => NodeKindView::Delegated,
            NodeKind::End => NodeKindView::End,
            NodeKind::ThresholdGroup { threshold, members } => NodeKindView::ThresholdGroup {
                threshold: threshold.deep_view(),
                members: members.deep_view(),
            },
        }
    }
}

impl View for NodeKind {
    type V = NodeKindView;

    open spec fn view(&self) -> NodeKindView {
        self.deep_view()
    }
}

impl Dup for NodeKind {
    fn dup(&self) -> (r: NodeKind) {
        match self {
            NodeKind::Root => NodeKind::Root,
            NodeKind::Delegated => NodeKind::Delegated,
            NodeKind::End => NodeKind::End,
            NodeKind::ThresholdGroup { threshold, members } => NodeKind::ThresholdGroup {
                threshold: threshold.dup(),
                members: members.dup(),
            },
        }
    }
}

/// A node of the delegation graph.
#[derive(Debug, PartialEq, Eq)]
pub struct DelegationNode {
    pub id: String,
    pub kind: NodeKind,
    pub keys: Vec<RegisteredKey>,
}

#[verifier::ext_equal]
pub struct DelegationNodeView {
    pub id: Seq<char>,
    pub kind: NodeKindView,
    pub keys: Seq<RegisteredKeyView>,
}

impl DeepView for DelegationNode {
    type V = DelegationNodeView;

    open spec fn deep_view(&self) -> DelegationNodeView {
        DelegationNodeView {
            id: self.id.deep_view(),
            kind: self.kind.deep_view(),
            keys: self.keys.deep_view(),
        }
    }
}

impl View for DelegationNode {
    type V = DelegationNodeView;

    open spec fn view(&self) -> DelegationNodeView {
        self.deep_view()
    }
}

impl Dup for DelegationNode {
    fn dup(&self) -> (r: DelegationNode) {
        DelegationNode {
            id: self.id.dup(),
            kind: self.kind.dup(),
            keys: self.keys.dup(),
        }
    }
}

impl Keyed for DelegationNode {
    open spec fn key_of(v: DelegationNodeView) -> Seq<char> {
        v.id
    }

    fn key(&self) -> (r: &String) {
        &self.id
    }
}

/// A parent-signed delegation: an edge of the graph. The scope is the
/// document that the scope rules read.
#[derive(Debug, PartialEq, Eq)]
pub struct DelegationCredential {
    pub parent: String,
    pub child: String,
    pub scope: Json,
    pub signatures: Vec<SignatureSlot>,
}

#[verifier::ext_equal]
pub struct DelegationCredentialView {
    pub parent: Seq<char>,
    pub child: Seq<char>,
    pub scope: JsonView,
    pub signatures: Seq<SignatureSlotView>,
}

impl DeepView for DelegationCredential {
    type V = DelegationCredentialView;

    open spec fn deep_view(&self) -> DelegationCredentialView {
        DelegationCredentialView {
            parent: self.parent.deep_view(),
            child: self.child.deep_view(),
            scope: self.scope.deep_view(),
            signatures: self.signatures.deep_view(),
        }
    }
}

impl View for DelegationCredential {
    type V = DelegationCredentialView;

    open spec fn view(&self) -> DelegationCredentialView {
        self.deep_view()
    }
}

impl Dup for DelegationCredential {
    fn dup(&self) -> (r: DelegationCredential) {
        DelegationCredential {
            parent: self.parent.dup(),
            child: self.child.dup(),
            scope: self.scope.dup(),
            signatures: self.signatures.dup(),
        }
    }
}

/// The delegation graph: nodes in ascending order of their ids, edges in
/// the order of their admission.
#[derive(Debug, PartialEq, Eq)]
pub struct TrustGraph {
    pub nodes: Vec<DelegationNode>,
    pub edges: Vec<DelegationCredential>,
}

#[verifier::ext_equal]
pub struct TrustGraphView {
    pub nodes: Seq<DelegationNodeView>,
    pub edges: Seq<DelegationCredentialView>,
}

impl DeepView for TrustGraph {
    type V = TrustGraphView;

    open spec fn deep_view(&self) -> TrustGraphView {
        TrustGraphView {
            nodes: self.nodes.deep_view(),
            edges: self.edges.deep_view(),
        }
    }
}

impl View for TrustGraph {
    type V = TrustGraphView;

    open spec fn view(&self) -> TrustGraphView {
        self.deep_view()
    }
}

impl Dup for TrustGraph {
    fn dup(&self) -> (r: TrustGraph) {
        TrustGraph {
            nodes: self.nodes.dup(),
            edges: self.edges.dup(),
        }
    }
}

// ---------------------------------------------------------------------------
// Trust lists and the master list
// ---------------------------------------------------------------------------

/// One entry of a trust list: a node trusted from `not_before` until it is
/// superseded.
#[derive(Debug, PartialEq, Eq)]
pub struct TrustListEntryRecord {
    pub node: String,
    pub not_before: Timestamp,
    pub superseded_at: Option<Timestamp>,
}

#[verifier::ext_equal]
pub struct TrustListEntryRecordView {
    pub node: Seq<char>,
    pub not_before: Timestamp,
    pub superseded_at: Option<Timestamp>,
}

impl DeepView for TrustListEntryRecord {
    type V = TrustListEntryRecordView;

    open spec fn deep_view(&self) -> TrustListEntryRecordView {
        TrustListEntryRecordView {
            node: self.node.deep_view(),
            not_before: self.not_before.deep_view(),
            superseded_at: self.superseded_at.deep_view(),
        }
    }
}

impl View for TrustListEntryRecord {
    type V = TrustListEntryRecordView;

    open spec fn view(&self) -> TrustListEntryRecordView {
        self.deep_view()
    }
}

impl Dup for TrustListEntryRecord {
    fn dup(&self) -> (r: TrustListEntryRecord) {
        TrustListEntryRecord {
            node: self.node.dup(),
            not_before: self.not_before.dup(),
            superseded_at: self.superseded_at.dup(),
        }
    }
}

impl Keyed for TrustListEntryRecord {
    open spec fn key_of(v: TrustListEntryRecordView) -> Seq<char> {
        v.node
    }

    fn key(&self) -> (r: &String) {
        &self.node
    }
}

/// The trust list of a jurisdiction, its entries in ascending order of
/// their nodes.
#[derive(Debug, PartialEq, Eq)]
pub struct TrustList {
    pub jurisdiction: String,
    pub entries: Vec<TrustListEntryRecord>,
}

#[verifier::ext_equal]
pub struct TrustListView {
    pub jurisdiction: Seq<char>,
    pub entries: Seq<TrustListEntryRecordView>,
}

impl DeepView for TrustList {
    type V = TrustListView;

    open spec fn deep_view(&self) -> TrustListView {
        TrustListView {
            jurisdiction: self.jurisdiction.deep_view(),
            entries: self.entries.deep_view(),
        }
    }
}

impl View for TrustList {
    type V = TrustListView;

    open spec fn view(&self) -> TrustListView {
        self.deep_view()
    }
}

impl Dup for TrustList {
    fn dup(&self) -> (r: TrustList) {
        TrustList {
            jurisdiction: self.jurisdiction.dup(),
            entries: self.entries.dup(),
        }
    }
}

/// A witness's signed statement that it saw a node at an instant.
#[derive(Debug, PartialEq, Eq)]
pub struct WitnessAttestation {
    pub witness: String,
    pub at: Timestamp,
    pub slot: SignatureSlot,
}

#[verifier::ext_equal]
pub struct WitnessAttestationView {
    pub witness: Seq<char>,
    pub at: Timestamp,
    pub slot: SignatureSlotView,
}

impl DeepView for WitnessAttestation {
    type V = WitnessAttestationView;

    open spec fn deep_view(&self) -> WitnessAttestationView {
        WitnessAttestationView {
            witness: self.witness.deep_view(),
            at: self.at.deep_view(),
            slot: self.slot.deep_view(),
        }
    }
}

impl View for WitnessAttestation {
    type V = WitnessAttestationView;

    open spec fn view(&self) -> WitnessAttestationView {
        self.deep_view()
    }
}

impl Dup for WitnessAttestation {
    fn dup(&self) -> (r: WitnessAttestation) {
        WitnessAttestation {
            witness: self.witness.dup(),
            at: self.at.dup(),
            slot: self.slot.dup(),
        }
    }
}

/// A node of the master list with the attestations for it.
#[derive(Debug, PartialEq, Eq)]
pub struct MasterListEntry {
    pub node: String,
    pub attestations: Vec<WitnessAttestation>,
}

#[verifier::ext_equal]
pub struct MasterListEntryView {
    pub node: Seq<char>,
    pub attestations: Seq<WitnessAttestationView>,
}

impl DeepView for MasterListEntry {
    type V = MasterListEntryView;

    open spec fn deep_view(&self) -> MasterListEntryView {
        MasterListEntryView {
            node: self.node.deep_view(),
            attestations: self.attestations.deep_view(),
        }
    }
}

impl View for MasterListEntry {
    type V = MasterListEntryView;

    open spec fn view(&self) -> MasterListEntryView {
        self.deep_view()
    }
}

impl Dup for MasterListEntry {
    fn dup(&self) -> (r: MasterListEntry) {
        MasterListEntry {
            node: self.node.dup(),
            attestations: self.attestations.dup(),
        }
    }
}

impl Keyed for MasterListEntry {
    open spec fn key_of(v: MasterListEntryView) -> Seq<char> {
        v.node
    }

    fn key(&self) -> (r: &String) {
        &self.node
    }
}

/// A witness of the master list and the key it signs with.
#[derive(Debug, PartialEq, Eq)]
pub struct Witness {
    pub node: String,
    pub public: PublicKey,
}

#[verifier::ext_equal]
pub struct WitnessView {
    pub node: Seq<char>,
    pub public: PublicKeyView,
}

impl DeepView for Witness {
    type V = WitnessView;

    open spec fn deep_view(&self) -> WitnessView {
        WitnessView {
            node: self.node.deep_view(),
            public: self.public.deep_view(),
        }
    }
}

impl View for Witness {
    type V = WitnessView;

    open spec fn view(&self) -> WitnessView {
        self.deep_view()
    }
}

impl Dup for Witness {
    fn dup(&self) -> (r: Witness) {
        Witness {
            node: self.node.dup(),
            public: self.public.dup(),
        }
    }
}

impl Keyed for Witness {
    open spec fn key_of(v: WitnessView) -> Seq<char> {
        v.node
    }

    fn key(&self) -> (r: &String) {
        &self.node
    }
}

/// The M-of-K master list: an entry stands when `m` of the `k` witnesses
/// attest it. Witnesses and entries stand in ascending order of their nodes.
#[derive(Debug, PartialEq, Eq)]
pub struct MasterList {
    pub m: usize,
    pub k: usize,
    pub witnesses: Vec<Witness>,
    pub entries: Vec<MasterListEntry>,
}

#[verifier::ext_equal]
pub struct MasterListView {
    pub m: usize,
    pub k: usize,
    pub witnesses: Seq<WitnessView>,
    pub entries: Seq<MasterListEntryView>,
}

impl DeepView for MasterList {
    type V = MasterListView;

    open spec fn deep_view(&self) -> MasterListView {
        MasterListView {
            m: self.m.deep_view(),
            k: self.k.deep_view(),
            witnesses: self.witnesses.deep_view(),
            entries: self.entries.deep_view(),
        }
    }
}

impl View for MasterList {
    type V = MasterListView;

    open spec fn view(&self) -> MasterListView {
        self.deep_view()
    }
}

impl Dup for MasterList {
    fn dup(&self) -> (r: MasterList) {
        MasterList {
            m: self.m.dup(),
            k: self.k.dup(),
            witnesses: self.witnesses.dup(),
            entries: self.entries.dup(),
        }
    }
}

// ---------------------------------------------------------------------------
// Revocations
// ---------------------------------------------------------------------------

/// A span of time, closed at both ends, or open without an end.
#[derive(Debug, Clone, Copy, PartialEq, Eq)]
pub struct Interval {
    pub from: Timestamp,
    pub to: Option<Timestamp>,
}

impl DeepView for Interval {
    type V = Interval;

    open spec fn deep_view(&self) -> Interval {
        *self
    }
}

impl Dup for Interval {
    fn dup(&self) -> (r: Interval) {
        *self
    }
}

/// A condition of a delegation scope: how it reads, and its document.
#[derive(Debug, PartialEq, Eq)]
pub struct Condition {
    pub text: String,
    pub doc: Json,
}

#[verifier::ext_equal]
pub struct ConditionView {
    pub text: Seq<char>,
    pub doc: JsonView,
}

impl DeepView for Condition {
    type V = ConditionView;

    open spec fn deep_view(&self) -> ConditionView {
        ConditionView {
            text: self.text.deep_view(),
            doc: self.doc.deep_view(),
        }
    }
}

impl View for Condition {
    type V = ConditionView;

    open spec fn view(&self) -> ConditionView {
        self.deep_view()
    }
}

impl Dup for Condition {
    fn dup(&self) -> (r: Condition) {
        Condition {
            text: self.text.dup(),
            doc: self.doc.dup(),
        }
    }
}

/// What a revocation is about.
#[derive(Debug, PartialEq, Eq)]
pub enum RevokedSubject {
    Key(String),
    Node(String),
    Passport(String),
    Condition { node: String, condition: Condition },
}

#[verifier::ext_equal]
pub enum RevokedSubjectView {
    Key(Seq<char>),
    Node(Seq<char>),
    Passport(Seq<char>),
    Condition { node: Seq<char>, condition: ConditionView },
}

impl DeepView for RevokedSubject {
    type V = RevokedSubjectView;

    open spec fn deep_view(&self) -> RevokedSubjectView {
        match self {
            RevokedSubject::Key(x) => RevokedSubjectView::Key(x.deep_view()),
            RevokedSubject::Node(x) => RevokedSubjectView::Node(x.deep_view()),
            RevokedSubject::Passport(x) => RevokedSubjectView::Passport(x.deep_view()),
            RevokedSubject::Condition { node, condition } => RevokedSubjectView::Condition {
                node: node.deep_view(),
                condition: condition.deep_view(),
            },
        }
    }
}

impl View for RevokedSubject {
    type V = RevokedSubjectView;

    open spec fn view(&self) -> RevokedSubjectView {
        self.deep_view()
    }
}

impl Dup for RevokedSubject {
    fn dup(&self) -> (r: RevokedSubject) {
        match self {
            RevokedSubject::Key(x) => RevokedSubject::Key(x.dup()),
            RevokedSubject::Node(x) => RevokedSubject::Node(x.dup()),
            RevokedSubject::Passport(x) => RevokedSubject::Passport(x.dup()),
            RevokedSubject::Condition { node, condition } => RevokedSubject::Condition {
                node: node.dup(),
                condition: condition.dup(),
            },
        }
    }
}

/// Why a revocation is declared.
#[derive(Debug, PartialEq, Eq)]
pub enum RevocationReason {
    KeyCompromise { after: Timestamp },
    Cessation,
    Supersession { by: String },
    AffiliationChange,
    Misissuance,
    FraudulentIssuance,
    AuthorityCompromised { detected_at: Timestamp },
    ConditionWithdrawal,
}

#[verifier::ext_equal]
pub enum RevocationReasonView {
    KeyCompromise { after: Timestamp },
    Cessation,
    Supersession { by: Seq<char> },
    AffiliationChange,
    Misissuance,
    FraudulentIssuance,
    AuthorityCompromised { detected_at: Timestamp },
    ConditionWithdrawal,
}

impl DeepView for RevocationReason {
    type V = RevocationReasonView;

    open spec fn deep_view(&self) -> RevocationReasonView {
        match self {
            RevocationReason::KeyCompromise { after } => RevocationReasonView::KeyCompromise {
                after: after.deep_view(),
            },
            RevocationReason::Cessation => RevocationReasonView::Cessation,
            RevocationReason::Supersession { by } => RevocationReasonView::Supersession {
                by: by.deep_view(),
            },
            RevocationReason::AffiliationChange => RevocationReasonView::AffiliationChange,
            RevocationReason::Misissuance => RevocationReasonView::Misissuance,
            RevocationReason::FraudulentIssuance => RevocationReasonView::FraudulentIssuance,
            RevocationReason::AuthorityCompromised { detected_at } => RevocationReasonView::AuthorityCompromised {
                detected_at: detected_at.deep_view(),
            },
            RevocationReason::ConditionWithdrawal => RevocationReasonView::ConditionWithdrawal,
        }
    }
}

impl View for RevocationReason {
    type V = RevocationReasonView;

    open spec fn view(&self) -> RevocationReasonView {
        self.deep_view()
    }
}

impl Dup for RevocationReason {
    fn dup(&self) -> (r: RevocationReason) {
        match self {
            RevocationReason::KeyCompromise { after } => RevocationReason::KeyCompromise {
                after: after.dup(),
            },
            RevocationReason::Cessation => RevocationReason::Cessation,
            RevocationReason::Supersession { by } => RevocationReason::Supersession {
                by: by.dup(),
            },
            RevocationReason::AffiliationChange => RevocationReason::AffiliationChange,
            RevocationReason::Misissuance => RevocationReason::Misissuance,
            RevocationReason::FraudulentIssuance => RevocationReason::FraudulentIssuance,
            RevocationReason::AuthorityCompromised { detected_at } => RevocationReason::AuthorityCompromised {
                detected_at: detected_at.dup(),
            },
            RevocationReason::ConditionWithdrawal => RevocationReason::ConditionWithdrawal,
        }
    }
}

/// The signatures of a quorum over one statement.
#[derive(Debug, PartialEq, Eq)]
pub struct QuorumAttestation {
    pub quorum: String,
    pub threshold: usize,
    pub signatures: Vec<SignatureSlot>,
}

#[verifier::ext_equal]
pub struct QuorumAttestationView {
    pub quorum: Seq<char>,
    pub threshold: usize,
    pub signatures: Seq<SignatureSlotView>,
}

impl DeepView for QuorumAttestation {
    type V = QuorumAttestationView;

    open spec fn deep_view(&self) -> QuorumAttestationView {
        QuorumAttestationView {
            quorum: self.quorum.deep_view(),
            threshold: self.threshold.deep_view(),
            signatures: self.signatures.deep_view(),
        }
    }
}

impl View for QuorumAttestation {
    type V = QuorumAttestationView;

    open spec fn view(&self) -> QuorumAttestationView {
        self.deep_view()
    }
}

impl Dup for QuorumAttestation {
    fn dup(&self) -> (r: QuorumAttestation) {
        QuorumAttestation {
            quorum: self.quorum.dup(),
            threshold: self.threshold.dup(),
            signatures: self.signatures.dup(),
        }
    }
}

/// A declared revocation.
#[derive(Debug, PartialEq, Eq)]
pub struct Revocation {
    pub subject: RevokedSubject,
    pub reason: RevocationReason,
    pub declared_at: Timestamp,
    pub window: Interval,
    pub declared_by: String,
    pub quorum: Option<QuorumAttestation>,
}

#[verifier::ext_equal]
pub struct RevocationView {
    pub subject: RevokedSubjectView,
    pub reason: RevocationReasonView,
    pub declared_at: Timestamp,
    pub window: Interval,
    pub declared_by: Seq<char>,
    pub quorum: Option<QuorumAttestationView>,
}

impl DeepView for Revocation {
    type V = RevocationView;

    open spec fn deep_view(&self) -> RevocationView {
        RevocationView {
            subject: self.subject.deep_view(),
            reason: self.reason.deep_view(),
            declared_at: self.declared_at.deep_view(),
            window: self.window.deep_view(),
            declared_by: self.declared_by.deep_view(),
            quorum: self.quorum.deep_view(),
        }
    }
}

impl View for Revocation {
    type V = RevocationView;

    open spec fn view(&self) -> RevocationView {
        self.deep_view()
    }
}

impl Dup for Revocation {
    fn dup(&self) -> (r: Revocation) {
        Revocation {
            subject: self.subject.dup(),
            reason: self.reason.dup(),
            declared_at: self.declared_at.dup(),
            window: self.window.dup(),
            declared_by: self.declared_by.dup(),
            quorum: self.quorum.dup(),
        }
    }
}

impl RevocationReasonView {
    /// The wire token of the reason.
    pub open spec fn token(self) -> Seq<char> {
        match self {
            RevocationReasonView::KeyCompromise { .. } => "key-compromise"@,
            RevocationReasonView::Cessation => "cessation"@,
            RevocationReasonView::Supersession { .. } => "supersession"@,
            RevocationReasonView::AffiliationChange => "affiliation-change"@,
            RevocationReasonView::Misissuance => "misissuance"@,
            RevocationReasonView::FraudulentIssuance => "fraudulent-issuance"@,
            RevocationReasonView::AuthorityCompromised { .. } => "authority-compromised"@,
            RevocationReasonView::ConditionWithdrawal => "condition-withdrawal"@,
        }
    }

    /// Whether the reason voids what was done before it was declared.
    pub open spec fn is_retroactive(self) -> bool {
        self is Misissuance || self is FraudulentIssuance || self is AuthorityCompromised
    }
}

impl RevocationReason {
    /// The wire token of the reason.
    pub fn token(&self) -> (r: &'static str)
        ensures
            r@ == self@.token(),
    {
        match self {
            RevocationReason::KeyCompromise { .. } => "key-compromise",
            RevocationReason::Cessation => "cessation",
            RevocationReason::Supersession { .. } => "supersession",
            RevocationReason::AffiliationChange => "affiliation-change",
            RevocationReason::Misissuance => "misissuance",
            RevocationReason::FraudulentIssuance => "fraudulent-issuance",
            RevocationReason::AuthorityCompromised { .. } => "authority-compromised",
            RevocationReason::ConditionWithdrawal => "condition-withdrawal",
        }
    }

    /// Whether the reason voids what was done before it was declared:
    /// misissuance, fraud and a compromised authority do.
    pub fn is_retroactive(&self) -> (r: bool)
        ensures
            r == self@.is_retroactive(),
    {
        match self {
            RevocationReason::Misissuance
            | RevocationReason::FraudulentIssuance
            | RevocationReason::AuthorityCompromised { .. } => true,
            _ => false,
        }
    }
}

impl RevokedSubjectView {
    /// The id of the subject among those of its kind.
    pub open spec fn id(self) -> Seq<char> {
        match self {
            RevokedSubjectView::Key(k) => k,
            RevokedSubjectView::Node(n) => n,
            RevokedSubjectView::Passport(p) => p,
            RevokedSubjectView::Condition { node, condition } => node + ":`"@ + condition.text
                + "`"@,
        }
    }

    /// The name of the kind of subject.
    pub open spec fn kind(self) -> Seq<char> {
        match self {
            RevokedSubjectView::Key(_) => "key"@,
            RevokedSubjectView::Node(_) => "node"@,
            RevokedSubjectView::Passport(_) => "passport"@,
            RevokedSubjectView::Condition { .. } => "condition"@,
        }
    }

    /// Kind and id in one text.
    pub open spec fn label(self) -> Seq<char> {
        self.kind() + ":"@ + self.id()
    }
}

impl RevokedSubject {
    /// The id of the subject among those of its kind.
    pub fn id(&self) -> (r: String)
        ensures
            r@ == self@.id(),
    {
        match self {
            RevokedSubject::Key(k) => k.clone(),
            RevokedSubject::Node(n) => n.clone(),
            RevokedSubject::Passport(p) => p.clone(),
            RevokedSubject::Condition { node, condition } => {
                join4(node.as_str(), ":`", condition.text.as_str(), "`")
            },
        }
    }

    /// The name of the kind of subject.
    pub fn kind(&self) -> (r: &'static str)
        ensures
            r@ == self@.kind(),
    {
        match self {
            RevokedSubject::Key(_) => "key",
            RevokedSubject::Node(_) => "node",
            RevokedSubject::Passport(_) => "passport",
            RevokedSubject::Condition { .. } => "condition",
        }
    }

    /// Kind and id in one text: `key:k-..`, `node:x`, `passport:urn:..`.
    pub fn label(&self) -> (r: String)
        ensures
            r@ == self@.label(),
    {
        join3(self.kind(), ":", self.id().as_str())
    }
}

/// `t` lies in the window: from the start to the end, both counted.
pub open spec fn within(window: Interval, t: int) -> bool {
    window.from.secs <= t && match window.to {
        Some(end) => t <= end.secs,
        None => true,
    }
}

} // verus!
