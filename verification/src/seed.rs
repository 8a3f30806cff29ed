//! Seed fixtures: a small trust graph with a trust list, a master list and
//! two revocations, so that a verifier finds a working state on first
//! start. The fixtures are deterministic: the same keys and signatures give
//! the same mutations. Each stands from its own instant, whenever it was
//! recorded, so that the service answers a question about an instant of the
//! scenario with the state of that instant.
//!
//! Timeline, counted in seconds from [`T0`]:
//!
//! | instant | event |
//! |---|---|
//! | 0 | graph minted; the EU trust list trusts `eu-root` |
//! | 3 000 | distrust window start (misissuance) |
//! | 8 000 | distrust window end (misissuance) |
//! | 9 500 | prospective key-compromise effect moment |
//! | 10 000 | misissuance declaration (quorate) |
//! | 10 500 | prospective key-compromise declaration |

use vstd::prelude::*;

use crate::data;
use crate::data::{insert_keyed, Dup};
use crate::json::{Json, JsonView};
use crate::laws;
use crate::model::{DelegationCredential, DelegationCredentialView, DelegationNode, DelegationNodeView, Interval, MasterList, MasterListEntry, MasterListEntryView, MasterListView, NodeKind, NodeKindView, PublicKey, PublicKeyView, QuorumAttestation, QuorumAttestationView, RegisteredKey, RegisteredKeyView, Revocation, RevocationReason, RevocationReasonView, RevocationView, RevokedSubject, RevokedSubjectView, SignatureSlot, SignatureSlotView, TrustGraph, TrustGraphView, TrustList, TrustListEntryRecord, TrustListEntryRecordView, TrustListView, Witness, WitnessAttestation, WitnessAttestationView, WitnessView};
use crate::store;
use crate::store::{Op, OpView};
use crate::time::Timestamp;

verus! {

broadcast use {data::lemma_deep_push, data::lemma_deep_bytes, data::lemma_deep_len};

/// The fixture epoch instant.
pub const T0: i64 = 1_000_000;

/// The fixture source, as the discovery document states it.
pub const FIXTURE_SOURCE: &'static str =
    "unidpp-signatif tests/common topology + scenario_misissuance (T0-anchored; see README)";

/// How one fixture key is derived: its suite and the seed text.
#[derive(Debug, PartialEq, Eq)]
pub struct SeedKey {
    pub suite: String,
    pub seed: String,
}

#[verifier::ext_equal]
pub struct SeedKeyView {
    pub suite: Seq<char>,
    pub seed: Seq<char>,
}

impl DeepView for SeedKey {
    type V = SeedKeyView;

    open spec fn deep_view(&self) -> SeedKeyView {
        SeedKeyView {
            suite: self.suite.deep_view(),
            seed: self.seed.deep_view(),
        }
    }
}

impl View for SeedKey {
    type V = SeedKeyView;

    open spec fn view(&self) -> SeedKeyView {
        self.deep_view()
    }
}

/// The fixture keys by name.
#[derive(Debug, PartialEq, Eq)]
pub struct SeedKeys {
    pub root: PublicKey,
    pub notified: PublicKey,
    pub issuer: PublicKey,
    pub issuer_alt: PublicKey,
    pub witnesses: Vec<Witness>,
    pub quorum_members: Vec<PublicKey>,
}

#[verifier::ext_equal]
pub struct SeedKeysView {
    pub root: PublicKeyView,
    pub notified: PublicKeyView,
    pub issuer: PublicKeyView,
    pub issuer_alt: PublicKeyView,
    pub witnesses: Seq<WitnessView>,
    pub quorum_members: Seq<PublicKeyView>,
}

impl DeepView for SeedKeys {
    type V = SeedKeysView;

    open spec fn deep_view(&self) -> SeedKeysView {
        SeedKeysView {
            root: self.root.deep_view(),
            notified: self.notified.deep_view(),
            issuer: self.issuer.deep_view(),
            issuer_alt: self.issuer_alt.deep_view(),
            witnesses: self.witnesses.deep_view(),
            quorum_members: self.quorum_members.deep_view(),
        }
    }
}

impl View for SeedKeys {
    type V = SeedKeysView;

    open spec fn view(&self) -> SeedKeysView {
        self.deep_view()
    }
}

/// The terms of a fixture delegation scope: what it is limited to, and from
/// when on it holds.
#[derive(Debug, PartialEq, Eq)]
pub struct ScopeTerms {
    pub authority: Vec<String>,
    pub profile_version: Vec<String>,
    pub product_group: Vec<String>,
    pub since: Timestamp,
}

#[verifier::ext_equal]
pub struct ScopeTermsView {
    pub authority: Seq<Seq<char>>,
    pub profile_version: Seq<Seq<char>>,
    pub product_group: Seq<Seq<char>>,
    pub since: Timestamp,
}

impl DeepView for ScopeTerms {
    type V = ScopeTermsView;

    open spec fn deep_view(&self) -> ScopeTermsView {
        ScopeTermsView {
            authority: self.authority.deep_view(),
            profile_version: self.profile_version.deep_view(),
            product_group: self.product_group.deep_view(),
            since: self.since.deep_view(),
        }
    }
}

impl View for ScopeTerms {
    type V = ScopeTermsView;

    open spec fn view(&self) -> ScopeTermsView {
        self.deep_view()
    }
}

/// The signatures over the fixtures, and the scope documents they cover.
#[derive(Debug, PartialEq, Eq)]
pub struct Minted {
    /// The document of [`wide_scope`].
    pub wide: Json,
    /// The document of [`narrow_scope`].
    pub narrow: Json,
    /// Signatures of the delegation from the root, twice by the root key.
    pub hop1: Vec<SignatureSlot>,
    /// Signatures of the delegation to the issuer.
    pub hop2: Vec<SignatureSlot>,
    /// One witness signature per witness, in the order of the witnesses.
    pub attestations: Vec<SignatureSlot>,
    /// Signatures of the quorum members over the misissuance declaration.
    pub quorum: Vec<SignatureSlot>,
}

#[verifier::ext_equal]
pub struct MintedView {
    pub wide: JsonView,
    pub narrow: JsonView,
    pub hop1: Seq<SignatureSlotView>,
    pub hop2: Seq<SignatureSlotView>,
    pub attestations: Seq<SignatureSlotView>,
    pub quorum: Seq<SignatureSlotView>,
}

impl DeepView for Minted {
    type V = MintedView;

    open spec fn deep_view(&self) -> MintedView {
        MintedView {
            wide: self.wide.deep_view(),
            narrow: self.narrow.deep_view(),
            hop1: self.hop1.deep_view(),
            hop2: self.hop2.deep_view(),
            attestations: self.attestations.deep_view(),
            quorum: self.quorum.deep_view(),
        }
    }
}

impl View for Minted {
    type V = MintedView;

    open spec fn view(&self) -> MintedView {
        self.deep_view()
    }
}

/// One seeded trust list with its jurisdiction and framework.
#[derive(Debug, PartialEq, Eq)]
pub struct SeededTrustList {
    pub jurisdiction: String,
    pub framework: Option<String>,
    pub list: TrustList,
}

#[verifier::ext_equal]
pub struct SeededTrustListView {
    pub jurisdiction: Seq<char>,
    pub framework: Option<Seq<char>>,
    pub list: TrustListView,
}

impl DeepView for SeededTrustList {
    type V = SeededTrustListView;

    open spec fn deep_view(&self) -> SeededTrustListView {
        SeededTrustListView {
            jurisdiction: self.jurisdiction.deep_view(),
            framework: self.framework.deep_view(),
            list: self.list.deep_view(),
        }
    }
}

impl View for SeededTrustList {
    type V = SeededTrustListView;

    open spec fn view(&self) -> SeededTrustListView {
        self.deep_view()
    }
}

// ---------------------------------------------------------------------------
// The fixtures as values
// ---------------------------------------------------------------------------

/// The fixture instant at an offset from the epoch instant.
pub open spec fn instant(offset: int) -> Timestamp {
    Timestamp { secs: (T0 + offset) as i64 }
}

/// The fixture instant `offset` seconds after [`T0`].
pub fn ts(offset: i64) -> (r: Timestamp)
    requires
        T0 + offset <= i64::MAX,
    ensures
        r == instant(offset as int),
{
    Timestamp::from_secs(T0 + offset)
}

/// A key plan entry.
pub open spec fn planned(suite: Seq<char>, seed: Seq<char>) -> SeedKeyView {
    SeedKeyView { suite, seed }
}

/// How the fixture keys are derived, in the order that
/// [`SeedKeys::load`] takes them.
pub open spec fn key_plan_of() -> Seq<SeedKeyView> {
    seq![
        planned("ed25519"@, "scenario/eu-root"@),
        planned("ecdsa-p256"@, "scenario/eu-notified"@),
        planned("ed25519"@, "scenario/issuer-a"@),
        planned("ecdsa-p256"@, "scenario/issuer-a-alt"@),
        planned("ed25519"@, "scenario/w1"@),
        planned("ed25519"@, "scenario/w2"@),
        planned("ed25519"@, "scenario/w3"@),
        planned("ed25519"@, "scenario/quorum-1"@),
        planned("ed25519"@, "scenario/quorum-2"@),
        planned("ecdsa-p256"@, "scenario/quorum-3"@),
    ]
}

fn plan_entry(suite: &str, seed: &str) -> (r: SeedKey)
    ensures
        r@ == planned(suite@, seed@),
{
    SeedKey { suite: suite.to_owned(), seed: seed.to_owned() }
}

/// How the fixture keys are derived.
pub fn key_plan() -> (r: Vec<SeedKey>)
    ensures
        r.deep_view() == key_plan_of(),
{
    let mut out: Vec<SeedKey> = Vec::new();
    out.push(plan_entry("ed25519", "scenario/eu-root"));
    out.push(plan_entry("ecdsa-p256", "scenario/eu-notified"));
    out.push(plan_entry("ed25519", "scenario/issuer-a"));
    out.push(plan_entry("ecdsa-p256", "scenario/issuer-a-alt"));
    out.push(plan_entry("ed25519", "scenario/w1"));
    out.push(plan_entry("ed25519", "scenario/w2"));
    out.push(plan_entry("ed25519", "scenario/w3"));
    out.push(plan_entry("ed25519", "scenario/quorum-1"));
    out.push(plan_entry("ed25519", "scenario/quorum-2"));
    out.push(plan_entry("ecdsa-p256", "scenario/quorum-3"));
    assert(out.deep_view() =~= key_plan_of());
    out
}

/// The fixture keys that the derived keys make up.
pub open spec fn keys_of(derived: Seq<PublicKeyView>) -> SeedKeysView {
    SeedKeysView {
        root: derived[0],
        notified: derived[1],
        issuer: derived[2],
        issuer_alt: derived[3],
        witnesses: seq![
            WitnessView { node: "witness-1"@, public: derived[4] },
            WitnessView { node: "witness-2"@, public: derived[5] },
            WitnessView { node: "witness-3"@, public: derived[6] },
        ],
        quorum_members: seq![derived[7], derived[8], derived[9]],
    }
}

impl SeedKeys {
    /// Name the keys that were derived after [`key_plan`].
    pub fn load(derived: &Vec<PublicKey>) -> (r: SeedKeys)
        requires
            derived@.len() == 10,
        ensures
            r@ == keys_of(derived.deep_view()),
    {
        let mut witnesses: Vec<Witness> = Vec::new();
        witnesses.push(Witness { node: "witness-1".to_owned(), public: derived[4].dup() });
        witnesses.push(Witness { node: "witness-2".to_owned(), public: derived[5].dup() });
        witnesses.push(Witness { node: "witness-3".to_owned(), public: derived[6].dup() });
        let mut quorum_members: Vec<PublicKey> = Vec::new();
        quorum_members.push(derived[7].dup());
        quorum_members.push(derived[8].dup());
        quorum_members.push(derived[9].dup());
        let keys = SeedKeys {
            root: derived[0].dup(),
            notified: derived[1].dup(),
            issuer: derived[2].dup(),
            issuer_alt: derived[3].dup(),
            witnesses,
            quorum_members,
        };
        assert(keys@.witnesses =~= keys_of(derived.deep_view()).witnesses);
        assert(keys@.quorum_members =~= keys_of(derived.deep_view()).quorum_members);
        keys
    }
}

/// The scope that the root delegates.
pub open spec fn wide_terms() -> ScopeTermsView {
    ScopeTermsView {
        authority: seq!["eu"@],
        profile_version: seq!["urn:unidpp:profile:eu-batt@3"@, "urn:unidpp:profile:eu-espr@2"@],
        product_group: seq!["batteries"@, "electronics"@],
        since: instant(0),
    }
}

/// The narrower scope that is delegated on to the issuer.
pub open spec fn narrow_terms() -> ScopeTermsView {
    ScopeTermsView {
        authority: seq!["eu"@],
        profile_version: seq!["urn:unidpp:profile:eu-batt@3"@],
        product_group: seq!["batteries"@],
        since: instant(0),
    }
}

fn one(a: &str) -> (r: Vec<String>)
    ensures
        r.deep_view() == seq![a@],
{
    let mut out: Vec<String> = Vec::new();
    out.push(a.to_owned());
    assert(out.deep_view() =~= seq![a@]);
    out
}

fn two(a: &str, b: &str) -> (r: Vec<String>)
    ensures
        r.deep_view() == seq![a@, b@],
{
    let mut out: Vec<String> = Vec::new();
    out.push(a.to_owned());
    out.push(b.to_owned());
    assert(out.deep_view() =~= seq![a@, b@]);
    out
}

/// The scope that the root delegates.
pub fn wide_scope() -> (r: ScopeTerms)
    ensures
        r@ == wide_terms(),
{
    ScopeTerms {
        authority: one("eu"),
        profile_version: two("urn:unidpp:profile:eu-batt@3", "urn:unidpp:profile:eu-espr@2"),
        product_group: two("batteries", "electronics"),
        since: ts(0),
    }
}

/// The narrower scope that is delegated on to the issuer.
pub fn narrow_scope() -> (r: ScopeTerms)
    ensures
        r@ == narrow_terms(),
{
    ScopeTerms {
        authority: one("eu"),
        profile_version: one("urn:unidpp:profile:eu-batt@3"),
        product_group: one("batteries"),
        since: ts(0),
    }
}

// ---------------------------------------------------------------------------
// Nodes and edges
// ---------------------------------------------------------------------------

/// A key registered under its own id.
pub open spec fn registered_key(p: PublicKeyView) -> RegisteredKeyView {
    RegisteredKeyView { key_id: p.key_id, public: p }
}

/// A node with one key.
pub open spec fn keyed_node(id: Seq<char>, kind: NodeKindView, p: PublicKeyView) -> DelegationNodeView {
    DelegationNodeView { id, kind, keys: seq![registered_key(p)] }
}

/// The ids of the quorum members.
pub open spec fn quorum_ids() -> Seq<Seq<char>> {
    seq!["quorum-1"@, "quorum-2"@, "quorum-3"@]
}

/// The end nodes of the witnesses.
pub open spec fn witness_nodes(w: Seq<WitnessView>) -> Seq<DelegationNodeView> {
    Seq::new(w.len(), |i: int| keyed_node(w[i].node, NodeKindView::End, w[i].public))
}

/// The end nodes of the quorum members, as many as there are keys for.
pub open spec fn member_nodes(k: Seq<PublicKeyView>) -> Seq<DelegationNodeView> {
    Seq::new(
        if k.len() < 3 {
            k.len()
        } else {
            3
        },
        |i: int| keyed_node(quorum_ids()[i], NodeKindView::End, k[i]),
    )
}

/// The quorum: any two of its three members, without a key of its own.
pub open spec fn quorum_node() -> DelegationNodeView {
    DelegationNodeView {
        id: "eu-super-quorum"@,
        kind: NodeKindView::ThresholdGroup { threshold: 2, members: quorum_ids() },
        keys: Seq::empty(),
    }
}

/// Root, notified body and issuer.
pub open spec fn chain_nodes(k: SeedKeysView) -> Seq<DelegationNodeView> {
    seq![
        keyed_node("eu-root"@, NodeKindView::Root, k.root),
        keyed_node("eu-notified"@, NodeKindView::Delegated, k.notified),
        DelegationNodeView {
            id: "issuer-key-a"@,
            kind: NodeKindView::End,
            keys: seq![registered_key(k.issuer), registered_key(k.issuer_alt)],
        },
    ]
}

/// All nodes, in the order of their registration.
pub open spec fn seed_nodes(k: SeedKeysView) -> Seq<DelegationNodeView> {
    witness_nodes(k.witnesses) + member_nodes(k.quorum_members) + seq![quorum_node()]
        + chain_nodes(k)
}

/// The two delegations: root to notified body, notified body to issuer.
pub open spec fn seed_edges(m: MintedView) -> Seq<DelegationCredentialView> {
    seq![
        DelegationCredentialView {
            parent: "eu-root"@,
            child: "eu-notified"@,
            scope: m.wide,
            signatures: m.hop1,
        },
        DelegationCredentialView {
            parent: "eu-notified"@,
            child: "issuer-key-a"@,
            scope: m.narrow,
            signatures: m.hop2,
        },
    ]
}

/// Nodes filed one after the other.
pub open spec fn filed_nodes(s: Seq<DelegationNodeView>) -> Seq<DelegationNodeView>
    decreases s.len(),
{
    if s.len() == 0 {
        Seq::empty()
    } else {
        data::filed::<DelegationNode>(filed_nodes(s.drop_last()), s.last())
    }
}

fn key_entry(p: &PublicKey) -> (r: RegisteredKey)
    ensures
        r@ == registered_key(p@),
{
    RegisteredKey { key_id: p.key_id.clone(), public: p.dup() }
}

fn node_with_key(id: &str, kind: NodeKind, p: &PublicKey) -> (r: DelegationNode)
    ensures
        r@ == keyed_node(id@, kind@, p@),
{
    let mut keys: Vec<RegisteredKey> = Vec::new();
    keys.push(key_entry(p));
    assert(keys.deep_view() =~= seq![registered_key(p@)]);
    DelegationNode { id: id.to_owned(), kind, keys }
}

fn quorum_id_list() -> (r: Vec<String>)
    ensures
        r.deep_view() == quorum_ids(),
{
    let mut out: Vec<String> = Vec::new();
    out.push("quorum-1".to_owned());
    out.push("quorum-2".to_owned());
    out.push("quorum-3".to_owned());
    assert(out.deep_view() =~= quorum_ids());
    out
}

fn all_nodes(keys: &SeedKeys) -> (r: Vec<DelegationNode>)
    ensures
        r.deep_view() == seed_nodes(keys@),
{
    let ghost w = keys@.witnesses;
    let ghost q = keys@.quorum_members;
    let mut out: Vec<DelegationNode> = Vec::new();
    assert(out.deep_view() =~= witness_nodes(w.take(0)));
    for k in 0..keys.witnesses.len()
        invariant
            w == keys.witnesses.deep_view(),
            out.deep_view() == witness_nodes(w.take(k as int)),
    {
        out.push(
            node_with_key(
                keys.witnesses[k].node.as_str(),
                NodeKind::End,
                &keys.witnesses[k].public,
            ),
        );
        assert(witness_nodes(w.take(k + 1)) =~= witness_nodes(w.take(k as int)).push(
            keyed_node(w[k as int].node, NodeKindView::End, w[k as int].public),
        ));
    }
    assert(w.take(w.len() as int) =~= w);
    let ids = quorum_id_list();
    let n: usize = if keys.quorum_members.len() < 3 {
        keys.quorum_members.len()
    } else {
        3
    };
    assert(out.deep_view() =~= witness_nodes(w) + member_nodes(q).take(0));
    for k in 0..n
        invariant
            q == keys.quorum_members.deep_view(),
            ids.deep_view() == quorum_ids(),
            ids@.len() == 3,
            n <= 3,
            n == member_nodes(q).len(),
            n <= keys.quorum_members@.len(),
            out.deep_view() == witness_nodes(w) + member_nodes(q).take(k as int),
    {
        assert(quorum_ids()[k as int] == ids@[k as int]@);
        out.push(node_with_key(ids[k].as_str(), NodeKind::End, &keys.quorum_members[k]));
        assert(member_nodes(q).take(k + 1) =~= member_nodes(q).take(k as int).push(
            member_nodes(q)[k as int],
        ));
        assert(out.deep_view() =~= witness_nodes(w) + member_nodes(q).take(k + 1));
    }
    assert(member_nodes(q).take(n as int) =~= member_nodes(q));
    let no_keys: Vec<RegisteredKey> = Vec::new();
    assert(no_keys.deep_view() =~= Seq::<RegisteredKeyView>::empty());
    out.push(
        DelegationNode {
            id: "eu-super-quorum".to_owned(),
            kind: NodeKind::ThresholdGroup { threshold: 2, members: ids },
            keys: no_keys,
        },
    );
    out.push(node_with_key("eu-root", NodeKind::Root, &keys.root));
    out.push(node_with_key("eu-notified", NodeKind::Delegated, &keys.notified));
    let mut issuer_keys: Vec<RegisteredKey> = Vec::new();
    issuer_keys.push(key_entry(&keys.issuer));
    issuer_keys.push(key_entry(&keys.issuer_alt));
    assert(issuer_keys.deep_view() =~= seq![
        registered_key(keys@.issuer),
        registered_key(keys@.issuer_alt),
    ]);
    out.push(
        DelegationNode {
            id: "issuer-key-a".to_owned(),
            kind: NodeKind::End,
            keys: issuer_keys,
        },
    );
    assert(out.deep_view() =~= seed_nodes(keys@));
    out
}

fn all_edges(minted: &Minted) -> (r: Vec<DelegationCredential>)
    ensures
        r.deep_view() == seed_edges(minted@),
{
    let mut out: Vec<DelegationCredential> = Vec::new();
    out.push(
        DelegationCredential {
            parent: "eu-root".to_owned(),
            child: "eu-notified".to_owned(),
            scope: minted.wide.dup(),
            signatures: minted.hop1.dup(),
        },
    );
    out.push(
        DelegationCredential {
            parent: "eu-notified".to_owned(),
            child: "issuer-key-a".to_owned(),
            scope: minted.narrow.dup(),
            signatures: minted.hop2.dup(),
        },
    );
    assert(out.deep_view() =~= seed_edges(minted@));
    out
}

/// The delegation from the root is signed twice, both times by the root key.
pub open spec fn root_signed_twice(k: SeedKeysView, m: MintedView) -> bool {
    &&& m.hop1.len() == 2
    &&& m.hop1[0].key_id == k.root.key_id
    &&& m.hop1[1].key_id == k.root.key_id
}

/// The complete fixture graph.
pub fn build_graph(keys: &SeedKeys, minted: &Minted) -> (r: TrustGraph)
    requires
        root_signed_twice(keys@, minted@),
    ensures
        r@ == (TrustGraphView {
            nodes: filed_nodes(seed_nodes(keys@)),
            edges: seed_edges(minted@),
        }),
{
    let nodes = all_nodes(keys);
    let ghost s = seed_nodes(keys@);
    let mut out: Vec<DelegationNode> = Vec::new();
    assert(out.deep_view() =~= filed_nodes(s.take(0)));
    for k in 0..nodes.len()
        invariant
            s == nodes.deep_view(),
            out.deep_view() == filed_nodes(s.take(k as int)),
    {
        assert(s.take(k + 1).drop_last() =~= s.take(k as int));
        assert(s.take(k + 1).last() == nodes@[k as int].deep_view());
        insert_keyed(&mut out, nodes[k].dup());
    }
    assert(s.take(s.len() as int) =~= s);
    TrustGraph { nodes: out, edges: all_edges(minted) }
}

// ---------------------------------------------------------------------------
// Trust list, master list, ledger
// ---------------------------------------------------------------------------

/// The entry that trusts the root from the start.
pub open spec fn root_entry() -> TrustListEntryRecordView {
    TrustListEntryRecordView {
        node: "eu-root"@,
        not_before: instant(0),
        superseded_at: None,
    }
}

/// The EU trust list of the framework `espr`.
pub open spec fn eu_list() -> SeededTrustListView {
    SeededTrustListView {
        jurisdiction: "EU"@,
        framework: Some("espr"@),
        list: TrustListView { jurisdiction: "EU"@, entries: seq![root_entry()] },
    }
}

/// The seeded trust lists: the EU list, trusting `eu-root` from the start.
pub fn build_trust_lists() -> (r: Vec<SeededTrustList>)
    ensures
        r.deep_view() == seq![eu_list()],
{
    let mut entries: Vec<TrustListEntryRecord> = Vec::new();
    entries.push(
        TrustListEntryRecord {
            node: "eu-root".to_owned(),
            not_before: ts(0),
            superseded_at: None,
        },
    );
    assert(entries.deep_view() =~= seq![root_entry()]);
    let list = TrustList { jurisdiction: "EU".to_owned(), entries };
    let mut out: Vec<SeededTrustList> = Vec::new();
    out.push(
        SeededTrustList {
            jurisdiction: "EU".to_owned(),
            framework: Some("espr".to_owned()),
            list,
        },
    );
    assert(out.deep_view() =~= seq![eu_list()]);
    out
}

/// The attestation of each witness for the root.
pub open spec fn root_attestations(w: Seq<WitnessView>, slots: Seq<SignatureSlotView>) -> Seq<
    WitnessAttestationView,
> {
    Seq::new(
        w.len(),
        |i: int| WitnessAttestationView { witness: w[i].node, at: instant(0), slot: slots[i] },
    )
}

/// The master-list entry for the root.
pub open spec fn root_master_entry(k: SeedKeysView, m: MintedView) -> MasterListEntryView {
    MasterListEntryView {
        node: "eu-root"@,
        attestations: root_attestations(k.witnesses, m.attestations),
    }
}

fn master_entry(keys: &SeedKeys, minted: &Minted) -> (r: MasterListEntry)
    requires
        minted@.attestations.len() == keys@.witnesses.len(),
    ensures
        r@ == root_master_entry(keys@, minted@),
{
    let ghost w = keys@.witnesses;
    let ghost s = minted@.attestations;
    let mut attestations: Vec<WitnessAttestation> = Vec::new();
    assert(attestations.deep_view() =~= root_attestations(w.take(0), s));
    for k in 0..keys.witnesses.len()
        invariant
            w == keys.witnesses.deep_view(),
            s == minted.attestations.deep_view(),
            s.len() == w.len(),
            attestations.deep_view() == root_attestations(w.take(k as int), s),
    {
        attestations.push(
            WitnessAttestation {
                witness: keys.witnesses[k].node.clone(),
                at: ts(0),
                slot: minted.attestations[k].dup(),
            },
        );
        assert(root_attestations(w.take(k + 1), s) =~= root_attestations(
            w.take(k as int),
            s,
        ).push(
            WitnessAttestationView { witness: w[k as int].node, at: instant(0), slot: s[k as int] },
        ));
    }
    assert(w.take(w.len() as int) =~= w);
    MasterListEntry { node: "eu-root".to_owned(), attestations }
}

/// The master list: two of the witnesses, attesting `eu-root`.
pub fn build_master_list(keys: &SeedKeys, minted: &Minted) -> (r: MasterList)
    requires
        minted@.attestations.len() == keys@.witnesses.len(),
    ensures
        r@ == (MasterListView {
            m: 2,
            k: store::witness_set(keys@.witnesses).len() as usize,
            witnesses: store::witness_set(keys@.witnesses),
            entries: seq![root_master_entry(keys@, minted@)],
        }),
{
    let witnesses = crate::store::witness_map(&keys.witnesses);
    let mut entries: Vec<MasterListEntry> = Vec::new();
    entries.push(master_entry(keys, minted));
    assert(entries.deep_view() =~= seq![root_master_entry(keys@, minted@)]);
    MasterList { m: 2, k: witnesses.len(), witnesses, entries }
}

/// The retroactive declaration: everything that the issuer key signed in
/// the window is void.
pub open spec fn misissuance_of(k: SeedKeysView, quorum: Option<QuorumAttestationView>) -> RevocationView {
    RevocationView {
        subject: RevokedSubjectView::Key(k.issuer.key_id),
        reason: RevocationReasonView::Misissuance,
        declared_at: instant(10_000),
        window: Interval { from: instant(3_000), to: Some(instant(8_000)) },
        declared_by: "eu-super-quorum"@,
        quorum,
    }
}

/// The attestation of the quorum for the retroactive declaration.
pub open spec fn quorum_attestation(m: MintedView) -> QuorumAttestationView {
    QuorumAttestationView {
        quorum: "eu-super-quorum"@,
        threshold: 2,
        signatures: m.quorum,
    }
}

/// The prospective declaration: the issuer key is compromised from the
/// effect moment on.
pub open spec fn compromise_of(k: SeedKeysView) -> RevocationView {
    RevocationView {
        subject: RevokedSubjectView::Key(k.issuer.key_id),
        reason: RevocationReasonView::KeyCompromise { after: instant(9_500) },
        declared_at: instant(10_500),
        window: Interval { from: instant(9_500), to: None },
        declared_by: "eu-root"@,
        quorum: None,
    }
}

/// The retroactive declaration, with the attestation where it is signed.
pub fn misissuance(keys: &SeedKeys, quorum: Option<QuorumAttestation>) -> (r: Revocation)
    ensures
        r@ == misissuance_of(keys@, quorum.deep_view()),
{
    Revocation {
        subject: RevokedSubject::Key(keys.issuer.key_id.clone()),
        reason: RevocationReason::Misissuance,
        declared_at: ts(10_000),
        window: Interval { from: ts(3_000), to: Some(ts(8_000)) },
        declared_by: "eu-super-quorum".to_owned(),
        quorum,
    }
}

fn signed_misissuance(keys: &SeedKeys, minted: &Minted) -> (r: Revocation)
    ensures
        r@ == misissuance_of(keys@, Some(quorum_attestation(minted@))),
{
    misissuance(
        keys,
        Some(
            QuorumAttestation {
                quorum: "eu-super-quorum".to_owned(),
                threshold: 2,
                signatures: minted.quorum.dup(),
            },
        ),
    )
}

fn compromise(keys: &SeedKeys) -> (r: Revocation)
    ensures
        r@ == compromise_of(keys@),
{
    Revocation {
        subject: RevokedSubject::Key(keys.issuer.key_id.clone()),
        reason: RevocationReason::KeyCompromise { after: ts(9_500) },
        declared_at: ts(10_500),
        window: Interval { from: ts(9_500), to: None },
        declared_by: "eu-root".to_owned(),
        quorum: None,
    }
}

/// The seed ledger: the retroactive and the prospective declaration.
pub fn build_ledger(keys: &SeedKeys, minted: &Minted) -> (r: Vec<Revocation>)
    ensures
        r.deep_view() == seq![
            misissuance_of(keys@, Some(quorum_attestation(minted@))),
            compromise_of(keys@),
        ],
{
    let mut out: Vec<Revocation> = Vec::new();
    out.push(signed_misissuance(keys, minted));
    out.push(compromise(keys));
    assert(out.deep_view() =~= seq![
        misissuance_of(keys@, Some(quorum_attestation(minted@))),
        compromise_of(keys@),
    ]);
    out
}

// ---------------------------------------------------------------------------
// The mutations
// ---------------------------------------------------------------------------

/// The registrations of nodes.
pub open spec fn registrations(s: Seq<DelegationNodeView>) -> Seq<OpView> {
    Seq::new(s.len(), |i: int| OpView::RegisterNode { node: s[i] })
}

/// The mutations that create the seed state: nodes before edges, lists
/// before entries, witnesses before attestations.
pub open spec fn seed_ops_of(k: SeedKeysView, m: MintedView) -> Seq<OpView> {
    registrations(seed_nodes(k)) + seq![
        OpView::AddEdge { credential: seed_edges(m)[0] },
        OpView::AddEdge { credential: seed_edges(m)[1] },
        OpView::RegisterTrustList { jurisdiction: "EU"@, framework: Some("espr"@) },
        OpView::UpsertTrustEntry {
            jurisdiction: "EU"@,
            node: "eu-root"@,
            not_before: instant(0),
            superseded_at: None,
        },
        OpView::SetWitnesses { m: 2, witnesses: k.witnesses },
        OpView::UpsertMasterEntry { entry: root_master_entry(k, m) },
        OpView::DeclareRevocation {
            revocation: misissuance_of(k, Some(quorum_attestation(m))),
        },
        OpView::DeclareRevocation { revocation: compromise_of(k) },
    ]
}

/// The instant that a fixture is dated: a declaration when it was declared,
/// everything else when the graph was minted.
pub open spec fn dated(op: OpView) -> Timestamp {
    match op {
        OpView::DeclareRevocation { revocation } => revocation.declared_at,
        _ => instant(0),
    }
}

/// The instant that a fixture is dated.
pub fn date_of_fixture(op: &Op) -> (r: Timestamp)
    ensures
        r == dated(op@),
{
    match op {
        Op::DeclareRevocation { revocation } => revocation.declared_at,
        _ => ts(0),
    }
}

/// The mutations that, recorded in order, create the seed state.
pub fn seed_ops(keys: &SeedKeys, minted: &Minted) -> (r: Vec<Op>)
    requires
        minted@.attestations.len() == keys@.witnesses.len(),
        root_signed_twice(keys@, minted@),
    ensures
        r.deep_view() == seed_ops_of(keys@, minted@),
{
    let nodes = all_nodes(keys);
    let ghost s = seed_nodes(keys@);
    let mut ops: Vec<Op> = Vec::new();
    assert(ops.deep_view() =~= registrations(s.take(0)));
    for k in 0..nodes.len()
        invariant
            s == nodes.deep_view(),
            ops.deep_view() == registrations(s.take(k as int)),
    {
        ops.push(Op::RegisterNode { node: nodes[k].dup() });
        assert(registrations(s.take(k + 1)) =~= registrations(s.take(k as int)).push(
            OpView::RegisterNode { node: s[k as int] },
        ));
    }
    assert(s.take(s.len() as int) =~= s);
    let edges = all_edges(minted);
    assert(edges@[0].deep_view() == seed_edges(minted@)[0]) by {
        assert(edges.deep_view()[0] == seed_edges(minted@)[0]);
    }
    assert(edges@[1].deep_view() == seed_edges(minted@)[1]) by {
        assert(edges.deep_view()[1] == seed_edges(minted@)[1]);
    }
    assert(edges@.len() == 2) by {
        assert(edges.deep_view().len() == 2);
    }
    ops.push(Op::AddEdge { credential: edges[0].dup() });
    ops.push(Op::AddEdge { credential: edges[1].dup() });
    ops.push(
        Op::RegisterTrustList {
            jurisdiction: "EU".to_owned(),
            framework: Some("espr".to_owned()),
        },
    );
    ops.push(
        Op::UpsertTrustEntry {
            jurisdiction: "EU".to_owned(),
            node: "eu-root".to_owned(),
            not_before: ts(0),
            superseded_at: None,
        },
    );
    ops.push(Op::SetWitnesses { m: 2, witnesses: keys.witnesses.dup() });
    ops.push(Op::UpsertMasterEntry { entry: master_entry(keys, minted) });
    ops.push(Op::DeclareRevocation { revocation: signed_misissuance(keys, minted) });
    ops.push(Op::DeclareRevocation { revocation: compromise(keys) });
    assert(ops.deep_view() =~= seed_ops_of(keys@, minted@));
    ops
}

// ---------------------------------------------------------------------------
// What the mutations create
// ---------------------------------------------------------------------------

/// No two fixture nodes share an id.
pub open spec fn distinct_ids(s: Seq<DelegationNodeView>) -> bool {
    forall|i: int, j: int| 0 <= i < j < s.len() ==> (#[trigger] s[i]).id != (#[trigger] s[j]).id
}

proof fn lemma_filed_nodes_have(s: Seq<DelegationNodeView>, id: Seq<char>)
    ensures
        data::lookup::<DelegationNode>(filed_nodes(s), id) is Some ==> exists|i: int|
            0 <= i < s.len() && (#[trigger] s[i]).id == id,
    decreases s.len(),
{
    if s.len() > 0 {
        let t = s.drop_last();
        lemma_filed_nodes_have(t, id);
        data::lemma_filed_lookup::<DelegationNode>(filed_nodes(t), s.last(), id);
        if data::lookup::<DelegationNode>(filed_nodes(s), id) is Some {
            if id == s.last().id {
                assert(s[s.len() - 1].id == id);
            } else {
                let i = choose|i: int| 0 <= i < t.len() && (#[trigger] t[i]).id == id;
                assert(s[i].id == id);
            }
        }
    }
}

proof fn lemma_witness_set_has(w: Seq<WitnessView>, i: int)
    requires
        0 <= i < w.len(),
    ensures
        data::lookup::<Witness>(store::witness_set(w), w[i].node) is Some,
    decreases w.len(),
{
    let t = w.drop_last();
    data::lemma_filed_lookup::<Witness>(store::witness_set(t), w.last(), w[i].node);
    if i < t.len() {
        lemma_witness_set_has(t, i);
        assert(t[i] == w[i]);
    }
}

proof fn lemma_attestations_named(a: Seq<WitnessAttestationView>, known: Seq<WitnessView>)
    requires
        forall|i: int|
            0 <= i < a.len() ==> data::lookup::<Witness>(
                known,
                (#[trigger] a[i]).witness,
            ) is Some,
    ensures
        store::entry_error(known, a) is None,
    decreases a.len(),
{
    if a.len() > 0 {
        let rest = a.drop_first();
        assert(data::lookup::<Witness>(known, a[0].witness) is Some);
        assert forall|i: int| 0 <= i < rest.len() implies data::lookup::<Witness>(
            known,
            (#[trigger] rest[i]).witness,
        ) is Some by {
            assert(rest[i] == a[i + 1]);
        }
        lemma_attestations_named(rest, known);
    }
}

/// The state while the nodes are being registered.
spec fn nodes_only(s: Seq<DelegationNodeView>, r: store::StoreView) -> bool {
    &&& r.graph == (TrustGraphView { nodes: filed_nodes(s), edges: Seq::empty() })
    &&& r.trust_lists == store::empty_store().trust_lists
    &&& r.master == store::empty_store().master
    &&& r.ledger == store::empty_store().ledger
}

proof fn lemma_registrations(
    k: SeedKeysView,
    m: MintedView,
    fixtures: Seq<(OpView, store::RulingView)>,
    at: Timestamp,
    n: nat,
)
    requires
        distinct_ids(seed_nodes(k)),
        n <= seed_nodes(k).len(),
        fixtures.len() == seed_ops_of(k, m).len(),
        forall|i: int| 0 <= i < fixtures.len() ==> (#[trigger] fixtures[i]).0 == seed_ops_of(k, m)[i],
    ensures
        nodes_only(
            seed_nodes(k).take(n as int),
            store::seeded(store::empty_store(), fixtures, at, n),
        ),
    decreases n,
{
    let s = seed_nodes(k);
    if n == 0 {
        assert(s.take(0) =~= Seq::<DelegationNodeView>::empty());
    } else {
        lemma_registrations(k, m, fixtures, at, (n - 1) as nat);
        let t = s.take(n - 1);
        assert(s.take(n as int).drop_last() =~= t);
        assert(fixtures[n - 1].0 == seed_ops_of(k, m)[n - 1]);
        assert(fixtures[n - 1].0 == OpView::RegisterNode { node: s[n - 1] });
        lemma_filed_nodes_have(t, s[n - 1].id);
        if data::lookup::<DelegationNode>(filed_nodes(t), s[n - 1].id) is Some {
            let i = choose|i: int| 0 <= i < t.len() && (#[trigger] t[i]).id == s[n - 1].id;
            assert(s[i].id != s[n - 1].id);
        }
    }
}

/// The fixtures are the seed mutations, and the trust model takes them all:
/// the edges and the declarations are admitted, and the quorum's attestation
/// is quorate over the fixture graph.
pub open spec fn admitted(
    k: SeedKeysView,
    m: MintedView,
    fixtures: Seq<(OpView, store::RulingView)>,
) -> bool {
    &&& distinct_ids(seed_nodes(k))
    &&& k.witnesses.len() >= 2
    &&& m.attestations.len() == k.witnesses.len()
    &&& root_signed_twice(k, m)
    &&& fixtures.len() == seed_ops_of(k, m).len()
    &&& forall|i: int|
        0 <= i < fixtures.len() ==> {
            &&& (#[trigger] fixtures[i]).0 == seed_ops_of(k, m)[i]
            &&& fixtures[i].1.edge is None
            &&& fixtures[i].1.ledger is None
        }
    &&& crate::quorum::is_quorate(
        TrustGraphView { nodes: filed_nodes(seed_nodes(k)), edges: seed_edges(m) },
        quorum_attestation(m),
        fixtures[seed_nodes(k).len() as int + 6].1.checks,
    )
}

/// Recording the seed mutations on an empty store creates the fixtures:
/// the graph, the trust list, the master list and the ledger that the
/// builders give. The delegation from the root carries two signature slots,
/// both of the root key.
#[verifier::rlimit(50)]
pub proof fn law_seed_ops_create_the_fixtures(
    k: SeedKeysView,
    m: MintedView,
    fixtures: Seq<(OpView, store::RulingView)>,
    at: Timestamp,
)
    requires
        admitted(k, m, fixtures),
    ensures
        ({
            let r = store::seeded(store::empty_store(), fixtures, at, fixtures.len());
            &&& r.graph == (TrustGraphView {
                nodes: filed_nodes(seed_nodes(k)),
                edges: seed_edges(m),
            })
            &&& r.graph.edges[0].parent == "eu-root"@
            &&& r.graph.edges[0].signatures.len() == 2
            &&& forall|i: int|
                0 <= i < 2 ==> (#[trigger] r.graph.edges[0].signatures[i]).key_id == k.root.key_id
            &&& r.trust_lists == seq![
                store::JurisdictionListView {
                    key: "EU"@,
                    framework: Some("espr"@),
                    list: eu_list().list,
                },
            ]
            &&& r.master == (MasterListView {
                m: 2,
                k: store::witness_set(k.witnesses).len() as usize,
                witnesses: store::witness_set(k.witnesses),
                entries: seq![root_master_entry(k, m)],
            })
            &&& r.ledger == seq![
                misissuance_of(k, Some(quorum_attestation(m))),
                compromise_of(k),
            ]
        }),
{
    let s = seed_nodes(k);
    let n = s.len();
    let ops = seed_ops_of(k, m);
    lemma_registrations(k, m, fixtures, at, n);
    assert(s.take(n as int) =~= s);
    assert(fixtures.len() == n + 8);
    let s0 = store::seeded(store::empty_store(), fixtures, at, n);
    assert(nodes_only(s, s0));
    let b = n as int;
    assert(fixtures[b].0 == ops[b]);
    assert(fixtures[b + 1].0 == ops[b + 1]);
    assert(fixtures[b + 2].0 == ops[b + 2]);
    assert(fixtures[b + 3].0 == ops[b + 3]);
    assert(fixtures[b + 4].0 == ops[b + 4]);
    assert(fixtures[b + 5].0 == ops[b + 5]);
    assert(fixtures[b + 6].0 == ops[b + 6]);
    assert(fixtures[b + 7].0 == ops[b + 7]);
    let s1 = store::seeded(store::empty_store(), fixtures, at, n + 1);
    assert(s1.graph.edges =~= seq![seed_edges(m)[0]]);
    let s2 = store::seeded(store::empty_store(), fixtures, at, n + 2);
    assert(s2.graph.edges =~= seed_edges(m));
    let s3 = store::seeded(store::empty_store(), fixtures, at, n + 3);
    reveal_strlit("EU");
    assert(crate::text::upper("EU"@) =~= "EU"@);
    let listed = store::JurisdictionListView {
        key: "EU"@,
        framework: Some("espr"@),
        list: TrustListView { jurisdiction: "EU"@, entries: Seq::empty() },
    };
    assert(s3.trust_lists =~= seq![listed]);
    let s4 = store::seeded(store::empty_store(), fixtures, at, n + 4);
    assert(data::lookup::<store::JurisdictionList>(s3.trust_lists, "EU"@) == Some(listed));
    assert(data::filed::<TrustListEntryRecord>(Seq::empty(), root_entry()) =~= seq![root_entry()]);
    let trusted = store::JurisdictionListView {
        key: "EU"@,
        framework: Some("espr"@),
        list: eu_list().list,
    };
    assert(s4.trust_lists =~= seq![trusted]);
    let s5 = store::seeded(store::empty_store(), fixtures, at, n + 5);
    assert(store::witness_set_error(2, k.witnesses.len()) is None);
    assert(s5.master.witnesses == store::witness_set(k.witnesses));
    let s6 = store::seeded(store::empty_store(), fixtures, at, n + 6);
    let entry = root_master_entry(k, m);
    assert forall|i: int| 0 <= i < entry.attestations.len() implies data::lookup::<Witness>(
        s5.master.witnesses,
        (#[trigger] entry.attestations[i]).witness,
    ) is Some by {
        lemma_witness_set_has(k.witnesses, i);
    }
    lemma_attestations_named(entry.attestations, s5.master.witnesses);
    assert(data::filed::<MasterListEntry>(Seq::empty(), entry) =~= seq![entry]);
    assert(s6.master.entries =~= seq![entry]);
    let s7 = store::seeded(store::empty_store(), fixtures, at, n + 7);
    assert(s7.ledger =~= seq![misissuance_of(k, Some(quorum_attestation(m)))]);
    let s8 = store::seeded(store::empty_store(), fixtures, at, n + 8);
    assert(s8.ledger =~= seq![
        misissuance_of(k, Some(quorum_attestation(m))),
        compromise_of(k),
    ]);
}

proof fn lemma_no_declaration_yet(
    k: SeedKeysView,
    m: MintedView,
    fixtures: Seq<(OpView, store::RulingView)>,
    at: Timestamp,
    n: nat,
)
    requires
        admitted(k, m, fixtures),
        n <= seed_nodes(k).len() + 6,
    ensures
        store::seeded(store::empty_store(), fixtures, at, n).ledger.len() == 0,
    decreases n,
{
    if n > 0 {
        lemma_no_declaration_yet(k, m, fixtures, at, (n - 1) as nat);
        assert(fixtures[n - 1].0 == seed_ops_of(k, m)[n - 1]);
    }
}

/// A freshly seeded service answers for the instants of the scenario, whenever
/// it was seeded: before the graph is minted the store is empty; from then on it has the graph, the
/// trust list and the master list of the fixtures; each declaration stands
/// from the instant that it is declared.
pub proof fn law_fixtures_stand_from_their_instants(
    k: SeedKeysView,
    m: MintedView,
    fixtures: Seq<(OpView, store::RulingView)>,
    at: Timestamp,
    t: Timestamp,
)
    requires
        admitted(k, m, fixtures),
    ensures
        ({
            let r = store::opened(Seq::empty(), true, fixtures, at);
            let past = store::as_of(r, t);
            &&& t.secs < T0 ==> past == store::empty_store()
            &&& t.secs >= T0 ==> {
                &&& past.graph == r.graph
                &&& past.trust_lists == r.trust_lists
                &&& past.master == r.master
            }
            &&& T0 <= t.secs < T0 + 10_000 ==> past.ledger == r.ledger.take(0)
            &&& T0 + 10_000 <= t.secs < T0 + 10_500 ==> past.ledger == r.ledger.take(1)
            &&& t.secs >= T0 + 10_500 ==> past == r
        }),
{
    let n = seed_nodes(k).len();
    let ops = seed_ops_of(k, m);
    let events = laws::seeding_of(fixtures, at);
    let count: nat = if t.secs < T0 {
        0
    } else if t.secs < T0 + 10_000 {
        n + 6
    } else if t.secs < T0 + 10_500 {
        n + 7
    } else {
        n + 8
    };
    assert(fixtures.len() == n + 8);
    assert forall|i: int| 0 <= i < events.len() implies (#[trigger] laws::event_stands_from(
        events,
        fixtures.len(),
        i,
    )) == instant(
        if i < n + 6 {
            0
        } else if i == n + 6 {
            10_000
        } else {
            10_500
        },
    ) by {
        assert(fixtures[i].0 == ops[i]);
    }
    laws::law_store_as_of_an_instant(events, fixtures.len(), t, count);
    laws::lemma_seeding(fixtures, at, fixtures.len());
    laws::lemma_seeding(fixtures, at, count);
    law_seed_ops_create_the_fixtures(k, m, fixtures, at);
    lemma_no_declaration_yet(k, m, fixtures, at, n + 6);
    let s6 = store::seeded(store::empty_store(), fixtures, at, n + 6);
    let s7 = store::seeded(store::empty_store(), fixtures, at, n + 7);
    let s8 = store::seeded(store::empty_store(), fixtures, at, n + 8);
    let b = n as int;
    assert(fixtures[b + 6].0 == ops[b + 6]);
    assert(fixtures[b + 7].0 == ops[b + 7]);
    assert(s7.graph == s6.graph && s7.trust_lists == s6.trust_lists && s7.master == s6.master);
    assert(s8.graph == s7.graph && s8.trust_lists == s7.trust_lists && s8.master == s7.master);
    assert(s6.ledger =~= s8.ledger.take(0));
    assert(s7.ledger =~= s8.ledger.take(1));
}

} // verus!
