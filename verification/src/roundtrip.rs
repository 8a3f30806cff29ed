//! Round trips of the wire layer: reading the document of a value gives
//! the value back, wherever the trust model vouches for the ids, suites and
//! keys that the value is made of.

use vstd::prelude::*;

use crate::codec;
use crate::data;
use crate::evidence;
use crate::evidence::EvidenceView;
use crate::hex;
use crate::json::JsonView;
use crate::judge::JudgementsView;
use crate::laws;
use crate::laws::Event;
use crate::model::{DelegationCredentialView, DelegationNodeView, Interval, MasterListEntryView, NodeKindView, PublicKeyView, QuorumAttestationView, RegisteredKey, RegisteredKeyView, RevocationReasonView, RevocationView, RevokedSubjectView, SignatureSlot, SignatureSlotView, TrustListEntryRecordView, Witness, WitnessAttestation, WitnessAttestationView, WitnessView};
use crate::store;
use crate::store::{AuditRecordView, Line, OpView};
use crate::text;
use crate::time;
use crate::time::Timestamp;
use crate::wire;

verus! {

// ---------------------------------------------------------------------------
// What the trust model must vouch for
// ---------------------------------------------------------------------------

/// The instant has a year of four digits.
pub open spec fn datable(t: Timestamp) -> bool {
    time::four_digit_year(t.secs as int)
}

pub open spec fn opt_datable(t: Option<Timestamp>) -> bool {
    match t {
        Some(t) => datable(t),
        None => true,
    }
}

/// `id` is a node id, and the one that it denotes.
pub open spec fn node_vouched(id: Seq<char>, j: JudgementsView) -> bool {
    j.node(id) == Ok::<Seq<char>, Seq<char>>(id)
}

/// The key is the one that its bytes denote.
pub open spec fn public_vouched(p: PublicKeyView, j: JudgementsView) -> bool {
    j.public(p.bytes) == Ok::<PublicKeyView, Seq<char>>(p)
}

/// Suite and key id are the ones they denote, and the signature has the
/// length of the suite.
pub open spec fn slot_vouched(s: SignatureSlotView, j: JudgementsView) -> bool {
    &&& j.suite(s.suite.name) == Ok::<crate::model::SuiteView, Seq<char>>(s.suite)
    &&& j.key(s.key_id) == Ok::<Seq<char>, Seq<char>>(s.key_id)
    &&& s.signature is Some ==> s.signature->0.len() == s.suite.signature_len
}

pub open spec fn slots_vouched(s: Seq<SignatureSlotView>, j: JudgementsView) -> bool {
    forall|i: int| 0 <= i < s.len() ==> slot_vouched(#[trigger] s[i], j)
}

pub open spec fn registered_vouched(k: RegisteredKeyView, j: JudgementsView) -> bool {
    &&& j.key(k.key_id) == Ok::<Seq<char>, Seq<char>>(k.key_id)
    &&& public_vouched(k.public, j)
    &&& k.key_id == k.public.key_id
}

pub open spec fn kind_vouched(k: NodeKindView, j: JudgementsView) -> bool {
    match k {
        NodeKindView::ThresholdGroup { members, .. } => data::ascending::<String>(members) && (
        forall|i: int| 0 <= i < members.len() ==> node_vouched(#[trigger] members[i], j)),
        _ => true,
    }
}

pub open spec fn delegation_node_vouched(n: DelegationNodeView, j: JudgementsView) -> bool {
    &&& node_vouched(n.id, j)
    &&& kind_vouched(n.kind, j)
    &&& forall|i: int| 0 <= i < n.keys.len() ==> registered_vouched(#[trigger] n.keys[i], j)
}

pub open spec fn edge_vouched(c: DelegationCredentialView, j: JudgementsView) -> bool {
    &&& node_vouched(c.parent, j)
    &&& node_vouched(c.child, j)
    &&& j.scope_verdict() == Ok::<JsonView, Seq<char>>(c.scope)
    &&& slots_vouched(c.signatures, j)
}

pub open spec fn subject_vouched(s: RevokedSubjectView, j: JudgementsView) -> bool {
    match s {
        RevokedSubjectView::Key(k) => j.key(k) == Ok::<Seq<char>, Seq<char>>(k),
        RevokedSubjectView::Node(n) => node_vouched(n, j),
        RevokedSubjectView::Passport(p) => j.passport(p) == Ok::<Seq<char>, Seq<char>>(p),
        RevokedSubjectView::Condition { node, condition } => node_vouched(node, j)
            && j.condition_verdict() == Ok::<crate::model::ConditionView, Seq<char>>(condition),
    }
}

pub open spec fn reason_vouched(r: RevocationReasonView, j: JudgementsView) -> bool {
    match r {
        RevocationReasonView::KeyCompromise { after } => datable(after),
        RevocationReasonView::AuthorityCompromised { detected_at } => datable(detected_at),
        RevocationReasonView::Supersession { by } => node_vouched(by, j),
        _ => true,
    }
}

/// A window whose end does not come before its start.
pub open spec fn window_vouched(w: Interval) -> bool {
    &&& datable(w.from)
    &&& opt_datable(w.to)
    &&& w.to is Some ==> w.from.secs <= w.to->0.secs
}

pub open spec fn quorum_vouched(q: QuorumAttestationView, j: JudgementsView) -> bool {
    node_vouched(q.quorum, j) && slots_vouched(q.signatures, j)
}

pub open spec fn revocation_vouched(r: RevocationView, j: JudgementsView) -> bool {
    &&& subject_vouched(r.subject, j)
    &&& reason_vouched(r.reason, j)
    &&& datable(r.declared_at)
    &&& node_vouched(r.declared_by, j)
    &&& window_vouched(r.window)
    &&& r.quorum is Some ==> quorum_vouched(r.quorum->0, j)
}

pub open spec fn entry_vouched(e: TrustListEntryRecordView, j: JudgementsView) -> bool {
    node_vouched(e.node, j) && datable(e.not_before) && opt_datable(e.superseded_at)
}

pub open spec fn attestation_vouched(w: WitnessAttestationView, j: JudgementsView) -> bool {
    node_vouched(w.witness, j) && datable(w.at) && slot_vouched(w.slot, j)
}

pub open spec fn master_entry_vouched(e: MasterListEntryView, j: JudgementsView) -> bool {
    node_vouched(e.node, j) && forall|i: int|
        0 <= i < e.attestations.len() ==> attestation_vouched(#[trigger] e.attestations[i], j)
}

pub open spec fn witness_vouched(w: WitnessView, j: JudgementsView) -> bool {
    node_vouched(w.node, j) && public_vouched(w.public, j)
}

pub open spec fn witnesses_vouched(s: Seq<WitnessView>, j: JudgementsView) -> bool {
    forall|i: int| 0 <= i < s.len() ==> witness_vouched(#[trigger] s[i], j)
}

pub open spec fn op_vouched(op: OpView, j: JudgementsView) -> bool {
    match op {
        OpView::RegisterNode { node } => delegation_node_vouched(node, j),
        OpView::AddEdge { credential } => edge_vouched(credential, j),
        OpView::RegisterTrustList { .. } => true,
        OpView::UpsertTrustEntry { node, not_before, superseded_at, .. } => node_vouched(node, j)
            && datable(not_before) && opt_datable(superseded_at),
        OpView::SetWitnesses { witnesses, .. } => witnesses_vouched(witnesses, j),
        OpView::UpsertMasterEntry { entry } => master_entry_vouched(entry, j),
        OpView::DeclareRevocation { revocation } => revocation_vouched(revocation, j),
        OpView::RegisterEvidence { evidence } => evidence_gated(evidence),
        OpView::ReleaseEvidence { .. } => true,
    }
}

/// The document has an id, and a scope that gates it.
pub open spec fn evidence_gated(e: EvidenceView) -> bool {
    text::trimmed(e.id).len() > 0 && text::trimmed(e.required_scope).len() > 0
}

// ---------------------------------------------------------------------------
// Names: lengths, and letters where lengths agree
// ---------------------------------------------------------------------------

/// The member names are told apart by their lengths and letters.
proof fn lemma_member_names()
    ensures
        "after"@.len() == 5,
        "after"@[0] == 'a',
        "at"@.len() == 2,
        "at"@[0] == 'a',
        "attestations"@.len() == 12,
        "attestations"@[0] == 'a',
        "body"@.len() == 4,
        "body"@[0] == 'b',
        "by"@.len() == 2,
        "by"@[0] == 'b',
        "child"@.len() == 5,
        "child"@[0] == 'c',
        "condition"@.len() == 9,
        "condition"@[0] == 'c',
        "declared_at"@.len() == 11,
        "declared_at"@[0] == 'd',
        "declared_at"@[2] == 'c',
        "declared_at"@[9] == 'a',
        "declared_by"@.len() == 11,
        "declared_by"@[0] == 'd',
        "declared_by"@[2] == 'c',
        "declared_by"@[9] == 'b',
        "detected_at"@.len() == 11,
        "detected_at"@[0] == 'd',
        "detected_at"@[2] == 't',
        "end"@.len() == 3,
        "end"@[0] == 'e',
        "framework"@.len() == 9,
        "framework"@[0] == 'f',
        "id"@.len() == 2,
        "id"@[0] == 'i',
        "in_force_at_as_of"@.len() == 17,
        "jurisdiction"@.len() == 12,
        "jurisdiction"@[0] == 'j',
        "key_id"@.len() == 6,
        "key_id"@[0] == 'k',
        "keys"@.len() == 4,
        "keys"@[0] == 'k',
        "keys"@[1] == 'e',
        "kind"@.len() == 4,
        "kind"@[0] == 'k',
        "kind"@[1] == 'i',
        "label"@.len() == 5,
        "label"@[0] == 'l',
        "m"@.len() == 1,
        "members"@.len() == 7,
        "members"@[0] == 'm',
        "node"@.len() == 4,
        "node"@[0] == 'n',
        "not_before"@.len() == 10,
        "not_before"@[0] == 'n',
        "op"@.len() == 2,
        "op"@[0] == 'o',
        "open"@.len() == 4,
        "open"@[0] == 'o',
        "parent"@.len() == 6,
        "parent"@[0] == 'p',
        "parent"@[1] == 'a',
        "public"@.len() == 6,
        "public"@[0] == 'p',
        "public"@[1] == 'u',
        "public_len"@.len() == 10,
        "public_len"@[0] == 'p',
        "quorum"@.len() == 6,
        "quorum"@[0] == 'q',
        "reason"@.len() == 6,
        "reason"@[0] == 'r',
        "recorded_at"@.len() == 11,
        "recorded_at"@[0] == 'r',
        "recorded_at"@[2] == 'c',
        "retroactive"@.len() == 11,
        "retroactive"@[0] == 'r',
        "retroactive"@[2] == 't',
        "scope"@.len() == 5,
        "scope"@[0] == 's',
        "scope"@[1] == 'c',
        "seq"@.len() == 3,
        "seq"@[0] == 's',
        "signature"@.len() == 9,
        "signature"@[0] == 's',
        "signatures"@.len() == 10,
        "signatures"@[0] == 's',
        "slot"@.len() == 4,
        "slot"@[0] == 's',
        "start"@.len() == 5,
        "start"@[0] == 's',
        "start"@[1] == 't',
        "subject"@.len() == 7,
        "subject"@[0] == 's',
        "suite"@.len() == 5,
        "suite"@[0] == 's',
        "suite"@[1] == 'u',
        "superseded_at"@.len() == 13,
        "threshold"@.len() == 9,
        "threshold"@[0] == 't',
        "threshold_group"@.len() == 15,
        "token"@.len() == 5,
        "token"@[0] == 't',
        "window"@.len() == 6,
        "window"@[0] == 'w',
        "witness"@.len() == 7,
        "witness"@[0] == 'w',
        "witnesses"@.len() == 9,
        "witnesses"@[0] == 'w',
{
    reveal_strlit("after");
    reveal_strlit("at");
    reveal_strlit("attestations");
    reveal_strlit("body");
    reveal_strlit("by");
    reveal_strlit("child");
    reveal_strlit("condition");
    reveal_strlit("declared_at");
    reveal_strlit("declared_by");
    reveal_strlit("detected_at");
    reveal_strlit("end");
    reveal_strlit("framework");
    reveal_strlit("id");
    reveal_strlit("in_force_at_as_of");
    reveal_strlit("jurisdiction");
    reveal_strlit("key_id");
    reveal_strlit("keys");
    reveal_strlit("kind");
    reveal_strlit("label");
    reveal_strlit("m");
    reveal_strlit("members");
    reveal_strlit("node");
    reveal_strlit("not_before");
    reveal_strlit("op");
    reveal_strlit("open");
    reveal_strlit("parent");
    reveal_strlit("public");
    reveal_strlit("public_len");
    reveal_strlit("quorum");
    reveal_strlit("reason");
    reveal_strlit("recorded_at");
    reveal_strlit("retroactive");
    reveal_strlit("scope");
    reveal_strlit("seq");
    reveal_strlit("signature");
    reveal_strlit("signatures");
    reveal_strlit("slot");
    reveal_strlit("start");
    reveal_strlit("subject");
    reveal_strlit("suite");
    reveal_strlit("superseded_at");
    reveal_strlit("threshold");
    reveal_strlit("threshold_group");
    reveal_strlit("token");
    reveal_strlit("window");
    reveal_strlit("witness");
    reveal_strlit("witnesses");
}

/// The kinds of subjects and nodes are told apart by their lengths and
/// letters.
proof fn lemma_kind_names()
    ensures
        "key"@.len() == 3,
        "key"@[0] == 'k',
        "node"@.len() == 4,
        "node"@[0] == 'n',
        "passport"@.len() == 8,
        "condition"@.len() == 9,
        "condition"@[0] == 'c',
        "root"@.len() == 4,
        "root"@[0] == 'r',
        "delegated"@.len() == 9,
        "delegated"@[0] == 'd',
        "end"@.len() == 3,
        "end"@[0] == 'e',
{
    reveal_strlit("key");
    reveal_strlit("node");
    reveal_strlit("passport");
    reveal_strlit("condition");
    reveal_strlit("root");
    reveal_strlit("delegated");
    reveal_strlit("end");
}

/// The reason tokens are told apart by their lengths and letters.
proof fn lemma_reason_tokens()
    ensures
        "key-compromise"@.len() == 14,
        "cessation"@.len() == 9,
        "supersession"@.len() == 12,
        "affiliation-change"@.len() == 18,
        "misissuance"@.len() == 11,
        "fraudulent-issuance"@.len() == 19,
        "authority-compromised"@.len() == 21,
        "condition-withdrawal"@.len() == 20,
{
    reveal_strlit("key-compromise");
    reveal_strlit("cessation");
    reveal_strlit("supersession");
    reveal_strlit("affiliation-change");
    reveal_strlit("misissuance");
    reveal_strlit("fraudulent-issuance");
    reveal_strlit("authority-compromised");
    reveal_strlit("condition-withdrawal");
}

/// The names of the mutations are told apart by their lengths and letters.
proof fn lemma_op_names()
    ensures
        "register-node"@.len() == 13,
        "register-node"@[0] == 'r',
        "add-edge"@.len() == 8,
        "register-trust-list"@.len() == 19,
        "register-trust-list"@[0] == 'r',
        "upsert-trust-entry"@.len() == 18,
        "upsert-trust-entry"@[0] == 'u',
        "set-witnesses"@.len() == 13,
        "set-witnesses"@[0] == 's',
        "upsert-master-entry"@.len() == 19,
        "upsert-master-entry"@[0] == 'u',
        "declare-revocation"@.len() == 18,
        "declare-revocation"@[0] == 'd',
        "register-evidence"@.len() == 17,
        "release-evidence"@.len() == 16,
{
    reveal_strlit("register-node");
    reveal_strlit("add-edge");
    reveal_strlit("register-trust-list");
    reveal_strlit("upsert-trust-entry");
    reveal_strlit("set-witnesses");
    reveal_strlit("upsert-master-entry");
    reveal_strlit("declare-revocation");
    reveal_strlit("register-evidence");
    reveal_strlit("release-evidence");
}

/// The member names of evidence documents are told apart by their lengths
/// and letters.
proof fn lemma_evidence_names()
    ensures
        "id"@.len() == 2,
        "contentType"@.len() == 11,
        "contentType"@[0] == 'c',
        "description"@.len() == 11,
        "description"@[0] == 'd',
        "requiredScope"@.len() == 13,
        "contentHex"@.len() == 10,
        "requester"@.len() == 9,
        "scope"@.len() == 5,
{
    reveal_strlit("id");
    reveal_strlit("contentType");
    reveal_strlit("description");
    reveal_strlit("requiredScope");
    reveal_strlit("contentHex");
    reveal_strlit("requester");
    reveal_strlit("scope");
}

// ---------------------------------------------------------------------------
// Instants
// ---------------------------------------------------------------------------

/// The text of an instant denotes it.
pub proof fn law_ts_round_trip(t: Timestamp)
    requires
        datable(t),
    ensures
        wire::ts_of(wire::ts_text(t)) == Ok::<Timestamp, Seq<char>>(t),
        wire::ts_text(t).len() > 0,
{
    time::law_stamp_round_trip(t.secs as int);
}

proof fn lemma_opt_ts(d: JsonView, name: Seq<char>, t: Option<Timestamp>)
    requires
        opt_datable(t),
        d.get(name) == Some(wire::ts_or_null(t)),
    ensures
        wire::opt_ts_at(d, name) == Ok::<Option<Timestamp>, Seq<char>>(t),
{
    if t is Some {
        law_ts_round_trip(t->0);
    }
}

// ---------------------------------------------------------------------------
// Keys and slots
// ---------------------------------------------------------------------------

/// A document with the members of a key is read as that key.
proof fn lemma_public_members(d: JsonView, p: PublicKeyView, j: JudgementsView)
    requires
        public_vouched(p, j),
        d is Obj,
        d.str_at("suite"@) == Some(p.suite),
        d.str_at("public"@) == Some(hex::hex_text(p.bytes)),
    ensures
        wire::public_of(d, j) == Ok::<PublicKeyView, Seq<char>>(p),
{
    hex::law_hex_round_trip(p.bytes);
}

/// The document of a public key is read as that key.
pub proof fn law_public_round_trip(p: PublicKeyView, j: JudgementsView)
    requires
        public_vouched(p, j),
    ensures
        wire::public_of(wire::public_value(p), j) == Ok::<PublicKeyView, Seq<char>>(p),
{
    lemma_member_names();
    lemma_public_members(wire::public_value(p), p, j);
}

/// The hex form of a public key is read as that key under its own suite.
pub proof fn law_public_hex_round_trip(p: PublicKeyView, j: JudgementsView)
    requires
        public_vouched(p, j),
    ensures
        wire::public_of_hex(p.suite, hex::hex_text(p.bytes), j) == Ok::<
            PublicKeyView,
            Seq<char>,
        >(p),
{
    hex::law_hex_round_trip(p.bytes);
}

/// The document of a signature slot is read as that slot.
pub proof fn law_slot_round_trip(s: SignatureSlotView, j: JudgementsView)
    requires
        slot_vouched(s, j),
    ensures
        wire::slot_of(wire::slot_value(s), j) == Ok::<SignatureSlotView, Seq<char>>(s),
{
    lemma_member_names();
    if s.signature is Some {
        hex::law_hex_round_trip(s.signature->0);
    }
    assert(wire::signature_of(wire::slot_value(s)) == Ok::<Option<Seq<u8>>, Seq<char>>(
        s.signature,
    ));
}

proof fn lemma_slots(s: Seq<SignatureSlotView>, j: JudgementsView)
    requires
        slots_vouched(s, j),
    ensures
        wire::read_all::<SignatureSlot>(wire::docs::<SignatureSlot>(s), j) == Ok::<
            Seq<SignatureSlotView>,
            Seq<char>,
        >(s),
{
    let d = wire::docs::<SignatureSlot>(s);
    assert forall|i: int| 0 <= i < d.len() implies #[trigger] <SignatureSlot as wire::Wire>::read(
        d[i],
        j,
    ) == Ok::<SignatureSlotView, Seq<char>>(s[i]) by {
        law_slot_round_trip(s[i], j);
    }
    wire::lemma_read_all::<SignatureSlot>(d, j, s);
}

// ---------------------------------------------------------------------------
// Revocations
// ---------------------------------------------------------------------------

/// The document of a revoked subject is read as that subject.
pub proof fn law_subject_round_trip(s: RevokedSubjectView, j: JudgementsView)
    requires
        subject_vouched(s, j),
    ensures
        wire::subject_of(wire::subject_value(s), j) == Ok::<RevokedSubjectView, Seq<char>>(s),
{
    lemma_member_names();
    lemma_kind_names();
}

/// The label of a key, a node or a passport is read as that subject.
pub proof fn law_label_round_trip(s: RevokedSubjectView, j: JudgementsView)
    requires
        subject_vouched(s, j),
        !(s is Condition),
    ensures
        wire::subject_of_label(s.label(), j) == Ok::<RevokedSubjectView, Seq<char>>(s),
{
    lemma_kind_names();
    reveal_strlit("key");
    reveal_strlit("node");
    reveal_strlit("passport");
    reveal_strlit(":");
    let kind = s.kind();
    let n = kind.len() as int;
    let l = s.label();
    assert(l.subrange(n, n + 1) =~= ":"@);
    assert forall|i: int| 0 <= i < n implies !#[trigger] text::stands_at(l, ":"@, i) by {
        assert(l.subrange(i, i + 1)[0] == kind[i]);
    }
    text::lemma_first_from(l, ":"@, 0);
    assert(text::stands_at(l, ":"@, n));
    assert(text::find(l, ":"@) == Some(n));
    assert(l.take(n) =~= kind);
    assert(l.skip(n + 1) =~= s.id());
    assert(text::trimmed(kind) == kind);
}

/// The document of a reason is read as that reason.
pub proof fn law_reason_round_trip(r: RevocationReasonView, j: JudgementsView)
    requires
        reason_vouched(r, j),
    ensures
        wire::reason_of(wire::reason_value(r), j) == Ok::<RevocationReasonView, Seq<char>>(r),
{
    lemma_member_names();
    lemma_reason_tokens();
    match r {
        RevocationReasonView::KeyCompromise { after } => {
            law_ts_round_trip(after);
        },
        RevocationReasonView::AuthorityCompromised { detected_at } => {
            law_ts_round_trip(detected_at);
        },
        _ => {},
    }
}

/// The document of a window is read as that window.
pub proof fn law_interval_round_trip(w: Interval)
    requires
        window_vouched(w),
    ensures
        wire::interval_of(wire::interval_value(w)) == Ok::<Interval, Seq<char>>(w),
{
    lemma_member_names();
    let d = wire::interval_value(w);
    law_ts_round_trip(w.from);
    lemma_opt_ts(d, "end"@, w.to);
}

/// The document of a quorum attestation is read as that attestation.
pub proof fn law_quorum_round_trip(q: QuorumAttestationView, j: JudgementsView)
    requires
        quorum_vouched(q, j),
    ensures
        wire::quorum_of(wire::quorum_value(q), j) == Ok::<QuorumAttestationView, Seq<char>>(q),
{
    lemma_member_names();
    lemma_slots(q.signatures, j);
}

/// The document of a revocation is read as that revocation.
pub proof fn law_revocation_round_trip(r: RevocationView, j: JudgementsView)
    requires
        revocation_vouched(r, j),
    ensures
        wire::revocation_of(wire::revocation_value(r), j) == Ok::<RevocationView, Seq<char>>(r),
{
    lemma_member_names();
    law_subject_round_trip(r.subject, j);
    law_reason_round_trip(r.reason, j);
    law_ts_round_trip(r.declared_at);
    law_interval_round_trip(r.window);
    if r.quorum is Some {
        law_quorum_round_trip(r.quorum->0, j);
    }
    let d = wire::revocation_value(r);
    assert(d.get("subject"@) == Some(wire::subject_value(r.subject)));
    assert(d.get("reason"@) == Some(wire::reason_value(r.reason)));
    assert(wire::declaration_of(d, j) == Ok::<(Timestamp, Seq<char>, Interval), Seq<char>>(
        (r.declared_at, r.declared_by, r.window),
    ));
    assert(wire::opt_quorum_of(d, j) == Ok::<Option<QuorumAttestationView>, Seq<char>>(r.quorum));
}

// ---------------------------------------------------------------------------
// Nodes and edges
// ---------------------------------------------------------------------------

/// Filing a text behind all others appends it.
proof fn lemma_filed_last(s: Seq<Seq<char>>, x: Seq<char>)
    requires
        forall|i: int| 0 <= i < s.len() ==> text::text_lt(#[trigger] s[i], x),
    ensures
        data::filed::<String>(s, x) == s.push(x),
    decreases s.len(),
{
    if s.len() > 0 {
        let rest = s.drop_first();
        assert(text::text_lt(s[0], x));
        text::lemma_text_lt_irreflexive(x);
        if text::text_lt(x, s[0]) {
            text::lemma_text_lt_transitive(x, s[0], x);
        }
        assert forall|i: int| 0 <= i < rest.len() implies text::text_lt(#[trigger] rest[i], x) by {
            assert(text::text_lt(s[i + 1], x));
        }
        lemma_filed_last(rest, x);
        assert(seq![s[0]] + rest.push(x) =~= s.push(x));
    } else {
        assert(seq![x] =~= s.push(x));
    }
}

proof fn lemma_members(m: Seq<Seq<char>>, j: JudgementsView)
    requires
        data::ascending::<String>(m),
        forall|i: int| 0 <= i < m.len() ==> node_vouched(#[trigger] m[i], j),
    ensures
        wire::members_of(wire::strings(m), j) == Ok::<Seq<Seq<char>>, Seq<char>>(m),
    decreases m.len(),
{
    let d = wire::strings(m);
    if m.len() > 0 {
        let t = m.drop_last();
        assert(data::ascending::<String>(t)) by {
            assert forall|i: int, k: int| 0 <= i < k < t.len() implies text::text_lt(
                #[trigger] <String as data::Keyed>::key_of(t[i]),
                #[trigger] <String as data::Keyed>::key_of(t[k]),
            ) by {
                assert(text::text_lt(
                    <String as data::Keyed>::key_of(m[i]),
                    <String as data::Keyed>::key_of(m[k]),
                ));
            }
        }
        assert forall|i: int| 0 <= i < t.len() implies node_vouched(#[trigger] t[i], j) by {
            assert(node_vouched(m[i], j));
        }
        lemma_members(t, j);
        assert(d.drop_last() =~= wire::strings(t));
        assert(node_vouched(m[m.len() - 1], j));
        assert forall|i: int| 0 <= i < t.len() implies text::text_lt(
            #[trigger] t[i],
            m.last(),
        ) by {
            assert(text::text_lt(
                <String as data::Keyed>::key_of(m[i]),
                <String as data::Keyed>::key_of(m[m.len() - 1]),
            ));
        }
        lemma_filed_last(t, m.last());
        assert(t.push(m.last()) =~= m);
    } else {
        assert(m =~= Seq::empty());
    }
}

/// The document of a node kind is read as that kind.
pub proof fn law_node_kind_round_trip(k: NodeKindView, j: JudgementsView)
    requires
        kind_vouched(k, j),
    ensures
        wire::node_kind_of(wire::node_kind_value(k), j) == Ok::<NodeKindView, Seq<char>>(k),
{
    lemma_member_names();
    lemma_kind_names();
    if let NodeKindView::ThresholdGroup { threshold, members } = k {
        lemma_members(members, j);
        let inner = JsonView::object().put("threshold"@, JsonView::Num(threshold as int)).put(
            "members"@,
            JsonView::Arr(wire::strings(members)),
        );
        assert(wire::node_kind_value(k).get("threshold_group"@) == Some(inner));
        assert(inner.u64_at("threshold"@) == Some(threshold as u64));
        assert(inner.array_at("members"@) == Some(wire::strings(members)));
    }
}

proof fn lemma_registered(k: RegisteredKeyView, j: JudgementsView)
    requires
        registered_vouched(k, j),
    ensures
        wire::registered_of(wire::registered_value(k), j) == Ok::<RegisteredKeyView, Seq<char>>(
            k,
        ),
{
    lemma_member_names();
    lemma_public_members(wire::registered_value(k), k.public, j);
}

/// The document of a node is read as that node.
pub proof fn law_node_round_trip(n: DelegationNodeView, j: JudgementsView)
    requires
        delegation_node_vouched(n, j),
    ensures
        wire::node_of(wire::node_value(n), j) == Ok::<DelegationNodeView, Seq<char>>(n),
{
    lemma_member_names();
    law_node_kind_round_trip(n.kind, j);
    let d = wire::docs::<RegisteredKey>(n.keys);
    assert forall|i: int| 0 <= i < d.len() implies #[trigger] <RegisteredKey as wire::Wire>::read(
        d[i],
        j,
    ) == Ok::<RegisteredKeyView, Seq<char>>(n.keys[i]) by {
        lemma_registered(n.keys[i], j);
    }
    wire::lemma_read_all::<RegisteredKey>(d, j, n.keys);
}

/// The document of a delegation credential is read as that credential.
pub proof fn law_edge_round_trip(c: DelegationCredentialView, j: JudgementsView)
    requires
        edge_vouched(c, j),
    ensures
        wire::edge_of(wire::edge_value(c), j) == Ok::<DelegationCredentialView, Seq<char>>(c),
{
    lemma_member_names();
    lemma_slots(c.signatures, j);
}

// ---------------------------------------------------------------------------
// Trust lists and the master list
// ---------------------------------------------------------------------------

/// The document of a trust-list entry is read as that entry, whatever
/// instant it was rendered for.
pub proof fn law_entry_round_trip(e: TrustListEntryRecordView, at: Timestamp, j: JudgementsView)
    requires
        entry_vouched(e, j),
    ensures
        wire::entry_of(wire::entry_value(e, at), j) == Ok::<TrustListEntryRecordView, Seq<char>>(
            e,
        ),
{
    lemma_member_names();
    law_ts_round_trip(e.not_before);
    lemma_opt_ts(wire::entry_value(e, at), "superseded_at"@, e.superseded_at);
}

/// The document of a trust-list entry without a reading is read as that
/// entry.
pub proof fn law_bare_entry_round_trip(e: TrustListEntryRecordView, j: JudgementsView)
    requires
        entry_vouched(e, j),
    ensures
        wire::entry_of(wire::bare_entry_value(e), j) == Ok::<TrustListEntryRecordView, Seq<char>>(
            e,
        ),
{
    lemma_member_names();
    law_ts_round_trip(e.not_before);
    lemma_opt_ts(wire::bare_entry_value(e), "superseded_at"@, e.superseded_at);
}

/// The document of a witness attestation is read as that attestation.
pub proof fn law_attestation_round_trip(w: WitnessAttestationView, j: JudgementsView)
    requires
        attestation_vouched(w, j),
    ensures
        wire::attestation_of(wire::attestation_value(w), j) == Ok::<
            WitnessAttestationView,
            Seq<char>,
        >(w),
{
    lemma_member_names();
    law_ts_round_trip(w.at);
    law_slot_round_trip(w.slot, j);
}

/// The document of a master-list entry is read as that entry.
pub proof fn law_master_entry_round_trip(e: MasterListEntryView, j: JudgementsView)
    requires
        master_entry_vouched(e, j),
    ensures
        wire::master_entry_of(wire::master_entry_value(e), j) == Ok::<
            MasterListEntryView,
            Seq<char>,
        >(e),
{
    lemma_member_names();
    let d = wire::docs::<WitnessAttestation>(e.attestations);
    assert forall|i: int|
        0 <= i < d.len() implies #[trigger] <WitnessAttestation as wire::Wire>::read(d[i], j)
        == Ok::<WitnessAttestationView, Seq<char>>(e.attestations[i]) by {
        law_attestation_round_trip(e.attestations[i], j);
    }
    wire::lemma_read_all::<WitnessAttestation>(d, j, e.attestations);
}

/// The document of a witness list is read as those witnesses.
pub proof fn law_witnesses_round_trip(s: Seq<WitnessView>, j: JudgementsView)
    requires
        witnesses_vouched(s, j),
    ensures
        wire::witnesses_of(JsonView::Arr(wire::docs::<Witness>(s)), j) == Ok::<
            Seq<WitnessView>,
            Seq<char>,
        >(s),
{
    lemma_member_names();
    let d = wire::docs::<Witness>(s);
    assert forall|i: int| 0 <= i < d.len() implies #[trigger] <Witness as wire::Wire>::read(
        d[i],
        j,
    ) == Ok::<WitnessView, Seq<char>>(s[i]) by {
        lemma_public_members(wire::witness_value(s[i]), s[i].public, j);
    }
    wire::lemma_read_all::<Witness>(d, j, s);
}

// ---------------------------------------------------------------------------
// Audit records
// ---------------------------------------------------------------------------

/// Witnesses that are kept without their key ids are read as those witnesses.
pub proof fn law_kept_witnesses_round_trip(s: Seq<WitnessView>, j: JudgementsView)
    requires
        witnesses_vouched(s, j),
    ensures
        store::kept_witnesses(store::bare_witnesses(s), j) == Ok::<Seq<WitnessView>, Seq<char>>(s),
    decreases s.len(),
{
    if s.len() > 0 {
        lemma_member_names();
        let t = s.drop_last();
        assert forall|i: int| 0 <= i < t.len() implies witness_vouched(#[trigger] t[i], j) by {
            assert(witness_vouched(s[i], j));
        }
        law_kept_witnesses_round_trip(t, j);
        assert(store::bare_witnesses(s).drop_last() =~= store::bare_witnesses(t));
        assert(witness_vouched(s[s.len() - 1], j));
        lemma_public_members(wire::bare_witness_value(s.last()), s.last().public, j);
        assert(t.push(s.last()) =~= s);
    } else {
        assert(s =~= Seq::empty());
    }
}

/// A registered document is read back with the same bytes.
pub proof fn law_evidence_round_trip(e: EvidenceView)
    requires
        evidence_gated(e),
    ensures
        evidence::evidence_of(evidence::evidence_value(e)) == Ok::<EvidenceView, Seq<char>>(e),
{
    lemma_evidence_names();
    hex::law_hex_round_trip(e.content);
}

/// The name and the document of a mutation are read as that mutation.
pub proof fn law_op_round_trip(op: OpView, j: JudgementsView)
    requires
        op_vouched(op, j),
    ensures
        store::op_of(store::op_name(op), store::op_value(op), j) == Ok::<OpView, Seq<char>>(op),
{
    lemma_op_names();
    match op {
        OpView::RegisterNode { node } => {
            law_node_round_trip(node, j);
        },
        OpView::AddEdge { credential } => {
            law_edge_round_trip(credential, j);
        },
        OpView::RegisterTrustList { jurisdiction, framework } => {
            lemma_member_names();
        },
        OpView::UpsertTrustEntry { jurisdiction, node, not_before, superseded_at } => {
            lemma_member_names();
            law_ts_round_trip(not_before);
            if superseded_at is Some {
                law_ts_round_trip(superseded_at->0);
            }
        },
        OpView::SetWitnesses { m, witnesses } => {
            lemma_member_names();
            law_kept_witnesses_round_trip(witnesses, j);
        },
        OpView::UpsertMasterEntry { entry } => {
            law_master_entry_round_trip(entry, j);
        },
        OpView::DeclareRevocation { revocation } => {
            law_revocation_round_trip(revocation, j);
        },
        OpView::RegisterEvidence { evidence } => {
            law_evidence_round_trip(evidence);
        },
        OpView::ReleaseEvidence { id, requester, scope } => {
            lemma_evidence_names();
        },
    }
}

/// A journaled record is read back as the record that was written.
pub proof fn law_record_round_trip(r: AuditRecordView, j: JudgementsView)
    requires
        datable(r.recorded_at),
        op_vouched(r.op, j),
    ensures
        store::record_of(store::record_value(r), j) == Ok::<AuditRecordView, Seq<char>>(r),
{
    lemma_member_names();
    law_ts_round_trip(r.recorded_at);
    law_op_round_trip(r.op, j);
    lemma_op_names();
    let d = store::record_value(r);
    assert(d.get("body"@) == Some(store::op_value(r.op)));
}

/// The line that is written for a record is read as that record: what a
/// restart finds in the journal is what was recorded.
pub proof fn law_journal_line_round_trip(
    r: AuditRecordView,
    line: Seq<char>,
    j: JudgementsView,
)
    requires
        datable(r.recorded_at),
        op_vouched(r.op, j),
        written_for(line, r),
    ensures
        forall|x: Line| store::line_is(x, line, j) ==> (x matches Line::Record(rec)
            && rec@ == r),
{
    law_record_round_trip(r, j);
    text::lemma_not_blank(line);
}

/// The line is one that is written for the record.
pub open spec fn written_for(line: Seq<char>, r: AuditRecordView) -> bool {
    &&& line.len() > 0 && line[0] == '{'
    &&& codec::text_doc(line) == Ok::<JsonView, Seq<char>>(store::record_value(r))
}

/// The record that a line was read as.
pub open spec fn record_in(x: Line) -> AuditRecordView {
    match x {
        Line::Record(rec) => rec@,
        _ => arbitrary(),
    }
}

/// A restart gives the same store: every line that a run wrote is read as its
/// record, and replaying what was read rebuilds the store that the run left.
pub proof fn law_restart_from_the_lines(
    events: Seq<Event>,
    lines: Seq<Seq<char>>,
    js: Seq<JudgementsView>,
    read: Seq<Line>,
)
    requires
        lines.len() == events.len(),
        js.len() == events.len(),
        read.len() == events.len(),
        forall|i: int|
            0 <= i < events.len() ==> {
                let r = laws::journal_of(events)[i].0;
                &&& written_for(#[trigger] lines[i], r)
                &&& datable(r.recorded_at)
                &&& op_vouched(r.op, js[i])
                &&& store::line_is(read[i], lines[i], js[i])
            },
    ensures
        forall|i: int| 0 <= i < read.len() ==> #[trigger] read[i] is Record,
        store::replayed(
            Seq::new(read.len(), |i: int| (record_in(read[i]), events[i].2)),
            events.len(),
        ) == laws::live(events, events.len()),
{
    let back = Seq::new(read.len(), |i: int| (record_in(read[i]), events[i].2));
    assert forall|i: int| 0 <= i < read.len() implies #[trigger] read[i] is Record && record_in(
        read[i],
    ) == laws::journal_of(events)[i].0 by {
        let line = lines[i];
        law_journal_line_round_trip(laws::journal_of(events)[i].0, line, js[i]);
        assert(store::line_is(read[i], line, js[i]));
    }
    assert(back =~= laws::journal_of(events));
    laws::law_replay_rebuilds_the_store(events);
}

} // verus!
