//! Quorum verdicts: how the service decides that an attestation is
//! quorate.
//!
//! An attestation comes in one of two forms, told apart by where the
//! verifying key is registered:
//!
//! | Form | Verifying key registered | Quorate when |
//! |---|---|---|
//! | member keys | on the members' own nodes | `threshold` different member keys verify |
//! | threshold group | on the quorum node itself, a `ThresholdGroup` with the same threshold | one slot verifies under it |
//!
//! A key registered on the quorum node is the key of the group. It counts
//! towards the group form only, so an attestation is quorate through one
//! form or the other, never through a mix.

use vstd::prelude::*;

use crate::data;
use crate::data::{insert_keyed, find_by_key};
use crate::judge;
use crate::judge::{slot_verifies, SlotCheck, SlotCheckView};
use crate::model::{DelegationNode, DelegationNodeView, NodeKind, NodeKindView, PublicKey, PublicKeyView, QuorumAttestation, QuorumAttestationView, RegisteredKey, RegisteredKeyView, SignatureSlot, TrustGraph, TrustGraphView};
use crate::text;
use crate::text::{decimal_text, join4, same_text};

verus! {

broadcast use {data::lemma_deep_bytes, data::lemma_deep_len, data::lemma_deep_push};

/// Which attestation form reached (or failed to reach) the threshold.
#[derive(Debug, Clone, Copy, PartialEq, Eq, Structural)]
pub enum QuorumForm {
    /// Distinct member-key slots.
    MemberKeys,
    /// A threshold-ceremony group signature under the group key registered
    /// on the quorum node.
    ThresholdGroup,
}

impl QuorumForm {
    /// The wire token of a form.
    pub open spec fn spec_token(self) -> Seq<char> {
        match self {
            QuorumForm::MemberKeys => "member-keys"@,
            QuorumForm::ThresholdGroup => "threshold-group"@,
        }
    }

    /// Stable wire token.
    pub fn token(self) -> (r: &'static str)
        ensures
            r@ == self.spec_token(),
    {
        match self {
            QuorumForm::MemberKeys => "member-keys",
            QuorumForm::ThresholdGroup => "threshold-group",
        }
    }
}

/// The live verdict over one attestation, against one statement.
#[derive(Debug, Clone, Copy, PartialEq, Eq, Structural)]
pub struct QuorumVerdict {
    /// The form the conclusion rests on (`MemberKeys` when no verifying
    /// group slot certifies).
    pub form: QuorumForm,
    /// Distinct verifying member keys: resolvable through the whole graph
    /// and not registered on the quorum node.
    pub member_verified: usize,
    /// Whether a slot verified under a key registered on the quorum node.
    pub group_verified: bool,
    /// The attestation's claimed threshold.
    pub threshold: usize,
    /// Whether the attestation is quorate.
    pub quorate: bool,
}

impl QuorumVerdict {
    /// The summary of a verdict.
    pub open spec fn spec_summary(self) -> Seq<char> {
        match self.form {
            QuorumForm::MemberKeys => text::decimal(self.member_verified as nat)
                + " member key(s) verified, threshold "@ + text::decimal(self.threshold as nat),
            QuorumForm::ThresholdGroup => "threshold-group signature verified ("@ + text::decimal(
                self.threshold as nat,
            ) + " of the group's members acted), threshold "@ + text::decimal(
                self.threshold as nat,
            ),
        }
    }

    /// Human summary for store errors and logs.
    pub fn summary(&self) -> (r: String)
        ensures
            r@ == self.spec_summary(),
    {
        let threshold = decimal_text(self.threshold as u64);
        match self.form {
            QuorumForm::MemberKeys => {
                let head = decimal_text(self.member_verified as u64);
                crate::text::join3(
                    head.as_str(),
                    " member key(s) verified, threshold ",
                    threshold.as_str(),
                )
            },
            QuorumForm::ThresholdGroup => join4(
                "threshold-group signature verified (",
                threshold.as_str(),
                " of the group's members acted), threshold ",
                threshold.as_str(),
            ),
        }
    }
}

// ---------------------------------------------------------------------------
// Keys of the graph
// ---------------------------------------------------------------------------

/// The public key registered under `key_id` in a list of keys.
pub open spec fn key_among(keys: Seq<RegisteredKeyView>, key_id: Seq<char>) -> Option<
    PublicKeyView,
>
    decreases keys.len(),
{
    if keys.len() == 0 {
        None
    } else if keys[0].key_id == key_id {
        Some(keys[0].public)
    } else {
        key_among(keys.drop_first(), key_id)
    }
}

/// The public key registered under `key_id` anywhere in the graph: on the
/// first node that has it.
pub open spec fn resolved(nodes: Seq<DelegationNodeView>, key_id: Seq<char>) -> Option<
    PublicKeyView,
>
    decreases nodes.len(),
{
    if nodes.len() == 0 {
        None
    } else {
        match key_among(nodes[0].keys, key_id) {
            Some(p) => Some(p),
            None => resolved(nodes.drop_first(), key_id),
        }
    }
}

/// The keys registered on a node of the graph.
pub open spec fn keys_on(g: TrustGraphView, id: Seq<char>) -> Seq<RegisteredKeyView> {
    match data::lookup::<DelegationNode>(g.nodes, id) {
        Some(n) => n.keys,
        None => Seq::empty(),
    }
}

/// The threshold that the graph asserts of a group.
pub open spec fn group_threshold(g: TrustGraphView, id: Seq<char>) -> Option<usize> {
    match data::lookup::<DelegationNode>(g.nodes, id) {
        Some(n) => match n.kind {
            NodeKindView::ThresholdGroup { threshold, .. } => Some(threshold),
            _ => None,
        },
        None => None,
    }
}

pub fn find_key<'a>(keys: &'a Vec<RegisteredKey>, key_id: &str) -> (r: Option<&'a PublicKey>)
    ensures
        match r {
            Some(p) => key_among(keys.deep_view(), key_id@) == Some(p@),
            None => key_among(keys.deep_view(), key_id@) is None,
        },
{
    let ghost s = keys.deep_view();
    assert(s.skip(0) =~= s);
    let mut k: usize = 0;
    while k < keys.len()
        invariant
            s == keys.deep_view(),
            k <= keys@.len(),
            key_among(s, key_id@) == key_among(s.skip(k as int), key_id@),
        decreases keys@.len() - k,
    {
        assert(s.skip(k as int)[0] == keys@[k as int].deep_view());
        if same_text(keys[k].key_id.as_str(), key_id) {
            return Some(&keys[k].public);
        }
        assert(s.skip(k as int).drop_first() =~= s.skip(k + 1));
        k = k + 1;
    }
    None
}

fn resolve<'a>(nodes: &'a Vec<DelegationNode>, key_id: &str) -> (r: Option<&'a PublicKey>)
    ensures
        match r {
            Some(p) => resolved(nodes.deep_view(), key_id@) == Some(p@),
            None => resolved(nodes.deep_view(), key_id@) is None,
        },
{
    let ghost s = nodes.deep_view();
    assert(s.skip(0) =~= s);
    let mut k: usize = 0;
    while k < nodes.len()
        invariant
            s == nodes.deep_view(),
            k <= nodes@.len(),
            resolved(s, key_id@) == resolved(s.skip(k as int), key_id@),
        decreases nodes@.len() - k,
    {
        assert(s.skip(k as int)[0] == nodes@[k as int].deep_view());
        assert(s.skip(k as int).drop_first() =~= s.skip(k + 1));
        if let Some(p) = find_key(&nodes[k].keys, key_id) {
            return Some(p);
        }
        k = k + 1;
    }
    None
}

// ---------------------------------------------------------------------------
// The verdict
// ---------------------------------------------------------------------------

/// Slot `i` verifies under a key registered on the quorum node.
pub open spec fn signed_by_group(
    g: TrustGraphView,
    q: QuorumAttestationView,
    checks: Seq<SlotCheckView>,
    i: int,
) -> bool {
    match key_among(keys_on(g, q.quorum), q.signatures[i].key_id) {
        Some(p) => judge::verifies(checks, i, p.bytes),
        None => false,
    }
}

/// Slot `i` verifies under a key of the graph that is not registered on
/// the quorum node.
pub open spec fn signed_by_member(
    g: TrustGraphView,
    q: QuorumAttestationView,
    checks: Seq<SlotCheckView>,
    i: int,
) -> bool {
    let key_id = q.signatures[i].key_id;
    key_among(keys_on(g, q.quorum), key_id) is None && match resolved(g.nodes, key_id) {
        Some(p) => judge::verifies(checks, i, p.bytes),
        None => false,
    }
}

/// Some slot verifies under a key registered on the quorum node.
pub open spec fn group_signed(
    g: TrustGraphView,
    q: QuorumAttestationView,
    checks: Seq<SlotCheckView>,
) -> bool {
    exists|i: int| 0 <= i < q.signatures.len() && #[trigger] signed_by_group(g, q, checks, i)
}

/// The group form certifies: a group signature, and the graph asserts the
/// threshold that the attestation claims.
pub open spec fn group_certifies(
    g: TrustGraphView,
    q: QuorumAttestationView,
    checks: Seq<SlotCheckView>,
) -> bool {
    group_signed(g, q, checks) && group_threshold(g, q.quorum) == Some(q.threshold)
}

/// The ids of the member keys that verify among the first `k` slots.
pub open spec fn signers(
    g: TrustGraphView,
    q: QuorumAttestationView,
    checks: Seq<SlotCheckView>,
    k: nat,
) -> Set<Seq<char>>
    decreases k,
{
    if k == 0 {
        Set::empty()
    } else {
        let before = signers(g, q, checks, (k - 1) as nat);
        if signed_by_member(g, q, checks, k - 1) {
            before.insert(q.signatures[k - 1].key_id)
        } else {
            before
        }
    }
}

/// The number of different member keys that verify.
pub open spec fn member_count(
    g: TrustGraphView,
    q: QuorumAttestationView,
    checks: Seq<SlotCheckView>,
) -> nat {
    signers(g, q, checks, q.signatures.len()).len()
}

/// The attestation is quorate, through one of the two forms.
pub open spec fn is_quorate(
    g: TrustGraphView,
    q: QuorumAttestationView,
    checks: Seq<SlotCheckView>,
) -> bool {
    group_certifies(g, q, checks) || member_count(g, q, checks) >= q.threshold
}

/// The verdict over one attestation.
pub open spec fn verdict_of(
    g: TrustGraphView,
    q: QuorumAttestationView,
    checks: Seq<SlotCheckView>,
) -> QuorumVerdict {
    QuorumVerdict {
        form: if group_certifies(g, q, checks) {
            QuorumForm::ThresholdGroup
        } else {
            QuorumForm::MemberKeys
        },
        member_verified: member_count(g, q, checks) as usize,
        group_verified: group_signed(g, q, checks),
        threshold: q.threshold,
        quorate: is_quorate(g, q, checks),
    }
}

proof fn lemma_signers_bound(
    g: TrustGraphView,
    q: QuorumAttestationView,
    checks: Seq<SlotCheckView>,
    k: nat,
)
    ensures
        signers(g, q, checks, k).finite(),
        signers(g, q, checks, k).len() <= k,
    decreases k,
{
    if k > 0 {
        lemma_signers_bound(g, q, checks, (k - 1) as nat);
    }
}

/// Judge `quorum` over the live graph. `checks` tells which slots verify
/// under which keys; which keys count for which slot is decided here.
pub fn verdict(graph: &TrustGraph, quorum: &QuorumAttestation, checks: &Vec<SlotCheck>) -> (r:
    QuorumVerdict)
    ensures
        r == verdict_of(graph@, quorum@, checks.deep_view()),
        r.member_verified == member_count(graph@, quorum@, checks.deep_view()),
{
    let ghost g = graph@;
    let ghost q = quorum@;
    let ghost c = checks.deep_view();
    let no_keys: Vec<RegisteredKey> = Vec::new();
    assert(no_keys.deep_view() =~= Seq::<RegisteredKeyView>::empty());
    let node = find_by_key(&graph.nodes, quorum.quorum.as_str());
    let node_keys: &Vec<RegisteredKey> = match node {
        Some(n) => &n.keys,
        None => &no_keys,
    };
    let node_threshold: Option<usize> = match node {
        Some(n) => match &n.kind {
            NodeKind::ThresholdGroup { threshold, .. } => Some(*threshold),
            _ => None,
        },
        None => None,
    };
    let mut group_verified = false;
    let mut members: Vec<String> = Vec::new();
    assert(members.deep_view() =~= Seq::<Seq<char>>::empty());
    assert(members.deep_view().to_set() =~= Set::<Seq<char>>::empty());
    for k in 0..quorum.signatures.len()
        invariant
            g == graph@,
            q == quorum@,
            c == checks.deep_view(),
            node_keys.deep_view() == keys_on(g, q.quorum),
            data::ascending::<String>(members.deep_view()),
            members.deep_view().to_set() == signers(g, q, c, k as nat),
            group_verified == (exists|i: int|
                0 <= i < k && #[trigger] signed_by_group(g, q, c, i)),
    {
        let slot: &SignatureSlot = &quorum.signatures[k];
        assert(q.signatures[k as int] == slot@);
        let ghost before = group_verified;
        match find_key(node_keys, slot.key_id.as_str()) {
            Some(public) => {
                if slot_verifies(checks, k, &public.bytes) {
                    group_verified = true;
                }
                assert(!signed_by_member(g, q, c, k as int));
            },
            None => {
                assert(!signed_by_group(g, q, c, k as int));
                if let Some(public) = resolve(&graph.nodes, slot.key_id.as_str()) {
                    if slot_verifies(checks, k, &public.bytes) {
                        proof {
                            data::lemma_filed_ascending::<String>(
                                members.deep_view(),
                                slot.key_id@,
                            );
                            data::lemma_filed_set::<String>(members.deep_view(), slot.key_id@);
                        }
                        insert_keyed(&mut members, slot.key_id.clone());
                    }
                }
            },
        }
        proof {
            if group_verified {
                if before {
                    let i = choose|i: int| 0 <= i < k && #[trigger] signed_by_group(g, q, c, i);
                    assert(0 <= i < k + 1 && signed_by_group(g, q, c, i));
                } else {
                    assert(signed_by_group(g, q, c, k as int));
                }
            }
        }
    }
    proof {
        data::lemma_ascending_count::<String>(members.deep_view());
    }
    let member_verified: usize = members.len();
    let group_certifies = group_verified && match node_threshold {
        Some(t) => t == quorum.threshold,
        None => false,
    };
    let (form, quorate) = if group_certifies {
        (QuorumForm::ThresholdGroup, true)
    } else {
        (QuorumForm::MemberKeys, member_verified >= quorum.threshold)
    };
    QuorumVerdict { form, member_verified, group_verified, threshold: quorum.threshold, quorate }
}

/// The key that a slot is tried under: the one registered on the quorum
/// node, or else the one registered anywhere in the graph.
pub open spec fn key_tried(g: TrustGraphView, quorum: Seq<char>, key_id: Seq<char>) -> Option<
    PublicKeyView,
> {
    match key_among(keys_on(g, quorum), key_id) {
        Some(p) => Some(p),
        None => resolved(g.nodes, key_id),
    }
}

/// The key that a slot is tried under.
pub fn tried_key<'a>(graph: &'a TrustGraph, quorum: &str, key_id: &str) -> (r: Option<
    &'a PublicKey,
>)
    ensures
        match r {
            Some(p) => key_tried(graph@, quorum@, key_id@) == Some(p@),
            None => key_tried(graph@, quorum@, key_id@) is None,
        },
{
    if let Some(n) = find_by_key(&graph.nodes, quorum) {
        if let Some(p) = find_key(&n.keys, key_id) {
            return Some(p);
        }
    }
    resolve(&graph.nodes, key_id)
}

// ---------------------------------------------------------------------------
// Laws
// ---------------------------------------------------------------------------

/// Two tables agree on the slots of an attestation, each tried under the
/// key that counts for it.
pub open spec fn same_trials(
    g: TrustGraphView,
    q: QuorumAttestationView,
    a: Seq<SlotCheckView>,
    b: Seq<SlotCheckView>,
) -> bool {
    forall|i: int|
        0 <= i < q.signatures.len() ==> (key_tried(
            g,
            q.quorum,
            (#[trigger] q.signatures[i]).key_id,
        ) matches Some(p) ==> judge::verifies(a, i, p.bytes) == judge::verifies(b, i, p.bytes))
}

proof fn lemma_same_signers(
    g: TrustGraphView,
    q: QuorumAttestationView,
    a: Seq<SlotCheckView>,
    b: Seq<SlotCheckView>,
    k: nat,
)
    requires
        same_trials(g, q, a, b),
        k <= q.signatures.len(),
    ensures
        signers(g, q, a, k) == signers(g, q, b, k),
    decreases k,
{
    if k > 0 {
        lemma_same_signers(g, q, a, b, (k - 1) as nat);
        let key_id = q.signatures[k - 1].key_id;
        assert(signed_by_member(g, q, a, k - 1) == signed_by_member(g, q, b, k - 1));
    }
}

/// The verdict rests on nothing but the trial of each slot under its own
/// key: two tables that agree on these give the same verdict.
pub proof fn law_verdict_rests_on_tried_keys(
    g: TrustGraphView,
    q: QuorumAttestationView,
    a: Seq<SlotCheckView>,
    b: Seq<SlotCheckView>,
)
    requires
        same_trials(g, q, a, b),
    ensures
        verdict_of(g, q, a) == verdict_of(g, q, b),
{
    lemma_same_signers(g, q, a, b, q.signatures.len());
    assert forall|i: int| 0 <= i < q.signatures.len() implies signed_by_group(g, q, a, i)
        == signed_by_group(g, q, b, i) by {
        let slot = q.signatures[i];
    }
    if group_signed(g, q, a) {
        let i = choose|i: int|
            0 <= i < q.signatures.len() && #[trigger] signed_by_group(g, q, a, i);
        assert(signed_by_group(g, q, b, i));
    }
    if group_signed(g, q, b) {
        let i = choose|i: int|
            0 <= i < q.signatures.len() && #[trigger] signed_by_group(g, q, b, i);
        assert(signed_by_group(g, q, a, i));
    }
}

/// A key registered on the quorum node is never counted as a member key.
pub proof fn law_group_key_is_no_member(
    g: TrustGraphView,
    q: QuorumAttestationView,
    checks: Seq<SlotCheckView>,
    k: nat,
    key_id: Seq<char>,
)
    requires
        key_among(keys_on(g, q.quorum), key_id) is Some,
    ensures
        !signers(g, q, checks, k).contains(key_id),
    decreases k,
{
    if k > 0 {
        law_group_key_is_no_member(g, q, checks, (k - 1) as nat, key_id);
    }
}

/// No slot counts towards both forms.
pub proof fn law_forms_exclude_each_other(
    g: TrustGraphView,
    q: QuorumAttestationView,
    checks: Seq<SlotCheckView>,
    i: int,
)
    ensures
        !(signed_by_group(g, q, checks, i) && signed_by_member(g, q, checks, i)),
{
}

/// The group form certifies only where the graph registers a key on the
/// quorum node and asserts the claimed threshold of it.
pub proof fn law_group_form_is_pinned(
    g: TrustGraphView,
    q: QuorumAttestationView,
    checks: Seq<SlotCheckView>,
)
    requires
        verdict_of(g, q, checks).form == QuorumForm::ThresholdGroup,
    ensures
        keys_on(g, q.quorum).len() > 0,
        group_threshold(g, q.quorum) == Some(q.threshold),
        verdict_of(g, q, checks).quorate,
{
}

/// Over a quorum node without keys an attestation is quorate exactly when
/// enough different member keys verify.
pub proof fn law_keyless_quorum_counts_members(
    g: TrustGraphView,
    q: QuorumAttestationView,
    checks: Seq<SlotCheckView>,
)
    requires
        keys_on(g, q.quorum).len() == 0,
    ensures
        verdict_of(g, q, checks).form == QuorumForm::MemberKeys,
        verdict_of(g, q, checks).quorate <==> member_count(g, q, checks) >= q.threshold,
{
}

/// A group signature under a threshold that the graph does not assert
/// leaves the verdict to the member keys.
pub proof fn law_threshold_disagreement_never_certifies(
    g: TrustGraphView,
    q: QuorumAttestationView,
    checks: Seq<SlotCheckView>,
)
    requires
        group_threshold(g, q.quorum) != Some(q.threshold),
    ensures
        verdict_of(g, q, checks).form == QuorumForm::MemberKeys,
        verdict_of(g, q, checks).quorate <==> member_count(g, q, checks) >= q.threshold,
{
}

/// Different member keys cannot outnumber the slots.
pub proof fn law_members_within_slots(
    g: TrustGraphView,
    q: QuorumAttestationView,
    checks: Seq<SlotCheckView>,
)
    ensures
        member_count(g, q, checks) <= q.signatures.len(),
{
    lemma_signers_bound(g, q, checks, q.signatures.len());
}

/// The member keys that are counted are the different ids of the slots that
/// verify under a key of the graph not registered on the quorum node.
pub proof fn law_members_are_the_verifying_ids(
    g: TrustGraphView,
    q: QuorumAttestationView,
    checks: Seq<SlotCheckView>,
    k: nat,
    id: Seq<char>,
)
    ensures
        signers(g, q, checks, k).contains(id) <==> exists|i: int|
            0 <= i < k && q.signatures[i].key_id == id && #[trigger] signed_by_member(
                g,
                q,
                checks,
                i,
            ),
    decreases k,
{
    if k > 0 {
        law_members_are_the_verifying_ids(g, q, checks, (k - 1) as nat, id);
        if signers(g, q, checks, k).contains(id) {
            if signers(g, q, checks, (k - 1) as nat).contains(id) {
                let i = choose|i: int|
                    0 <= i < k - 1 && q.signatures[i].key_id == id && #[trigger] signed_by_member(
                        g,
                        q,
                        checks,
                        i,
                    );
                assert(signed_by_member(g, q, checks, i));
            } else {
                assert(signed_by_member(g, q, checks, k - 1));
            }
        }
        if exists|i: int|
            0 <= i < k && q.signatures[i].key_id == id && #[trigger] signed_by_member(
                g,
                q,
                checks,
                i,
            ) {
            let i = choose|i: int|
                0 <= i < k && q.signatures[i].key_id == id && #[trigger] signed_by_member(
                    g,
                    q,
                    checks,
                    i,
                );
            if i < k - 1 {
                assert(signed_by_member(g, q, checks, i));
            }
        }
    }
}

/// Slot `i` verifies under the key that it is tried under.
pub open spec fn slot_proven(
    g: TrustGraphView,
    q: QuorumAttestationView,
    checks: Seq<SlotCheckView>,
    i: int,
) -> bool {
    match key_tried(g, q.quorum, q.signatures[i].key_id) {
        Some(p) => judge::verifies(checks, i, p.bytes),
        None => false,
    }
}

/// Every slot of `q` that verifies stands among the verifying slots of `r`
/// too, in whatever place.
pub open spec fn proven_within(
    g: TrustGraphView,
    q: QuorumAttestationView,
    a: Seq<SlotCheckView>,
    r: QuorumAttestationView,
    b: Seq<SlotCheckView>,
) -> bool {
    forall|i: int|
        0 <= i < q.signatures.len() && #[trigger] slot_proven(g, q, a, i) ==> exists|j: int|
            0 <= j < r.signatures.len() && r.signatures[j] == q.signatures[i]
                && #[trigger] slot_proven(g, r, b, j)
}

proof fn lemma_proven_within(
    g: TrustGraphView,
    q: QuorumAttestationView,
    a: Seq<SlotCheckView>,
    r: QuorumAttestationView,
    b: Seq<SlotCheckView>,
)
    requires
        q.quorum == r.quorum,
        proven_within(g, q, a, r, b),
    ensures
        group_signed(g, q, a) ==> group_signed(g, r, b),
        forall|id: Seq<char>| #[trigger]
            signers(g, q, a, q.signatures.len()).contains(id) ==> signers(
                g,
                r,
                b,
                r.signatures.len(),
            ).contains(id),
{
    if group_signed(g, q, a) {
        let i = choose|i: int|
            0 <= i < q.signatures.len() && #[trigger] signed_by_group(g, q, a, i);
        assert(slot_proven(g, q, a, i));
        let j = choose|j: int|
            0 <= j < r.signatures.len() && r.signatures[j] == q.signatures[i]
                && #[trigger] slot_proven(g, r, b, j);
        assert(signed_by_group(g, r, b, j));
    }
    assert forall|id: Seq<char>| #[trigger]
        signers(g, q, a, q.signatures.len()).contains(id) implies signers(
        g,
        r,
        b,
        r.signatures.len(),
    ).contains(id) by {
        law_members_are_the_verifying_ids(g, q, a, q.signatures.len(), id);
        law_members_are_the_verifying_ids(g, r, b, r.signatures.len(), id);
        let i = choose|i: int|
            0 <= i < q.signatures.len() && q.signatures[i].key_id == id
                && #[trigger] signed_by_member(g, q, a, i);
        assert(slot_proven(g, q, a, i));
        let j = choose|j: int|
            0 <= j < r.signatures.len() && r.signatures[j] == q.signatures[i]
                && #[trigger] slot_proven(g, r, b, j);
        assert(signed_by_member(g, r, b, j));
    }
}

/// The order of the slots, copies of them, and slots that do not verify leave
/// the verdict as it is: two attestations of one quorum and threshold whose
/// verifying slots are the same, each in whatever place and number, have the
/// same verdict.
pub proof fn law_verdict_ignores_order_and_copies(
    g: TrustGraphView,
    q: QuorumAttestationView,
    a: Seq<SlotCheckView>,
    r: QuorumAttestationView,
    b: Seq<SlotCheckView>,
)
    requires
        q.quorum == r.quorum,
        q.threshold == r.threshold,
        proven_within(g, q, a, r, b),
        proven_within(g, r, b, q, a),
    ensures
        verdict_of(g, q, a) == verdict_of(g, r, b),
{
    lemma_proven_within(g, q, a, r, b);
    lemma_proven_within(g, r, b, q, a);
    assert(signers(g, q, a, q.signatures.len()) =~= signers(g, r, b, r.signatures.len()));
}

/// A key id stands for the first key that is registered under it, and for
/// none exactly when none is.
pub proof fn law_key_among(keys: Seq<RegisteredKeyView>, id: Seq<char>)
    ensures
        match key_among(keys, id) {
            Some(p) => exists|i: int|
                0 <= i < keys.len() && (#[trigger] keys[i]).key_id == id && keys[i].public == p
                    && forall|j: int| 0 <= j < i ==> (#[trigger] keys[j]).key_id != id,
            None => forall|j: int| 0 <= j < keys.len() ==> (#[trigger] keys[j]).key_id != id,
        },
    decreases keys.len(),
{
    if keys.len() > 0 {
        let rest = keys.drop_first();
        law_key_among(rest, id);
        assert(forall|j: int| 0 <= j < rest.len() ==> rest[j] == keys[j + 1]);
        if keys[0].key_id == id {
            assert(keys[0].key_id == id);
        } else {
            match key_among(keys, id) {
                Some(p) => {
                    let i = choose|i: int|
                        0 <= i < rest.len() && (#[trigger] rest[i]).key_id == id && rest[i].public
                            == p && forall|j: int|
                            0 <= j < i ==> (#[trigger] rest[j]).key_id != id;
                    assert(keys[i + 1].key_id == id);
                    assert forall|j: int| 0 <= j < i + 1 implies (#[trigger] keys[j]).key_id
                        != id by {
                        if j > 0 {
                            assert(rest[j - 1].key_id != id);
                        }
                    }
                },
                None => {
                    assert forall|j: int| 0 <= j < keys.len() implies (#[trigger] keys[j]).key_id
                        != id by {
                        if j > 0 {
                            assert(rest[j - 1].key_id != id);
                        }
                    }
                },
            }
        }
    }
}

/// A node has a key registered under the id.
pub open spec fn has_key(n: DelegationNodeView, id: Seq<char>) -> bool {
    exists|k: int| 0 <= k < n.keys.len() && (#[trigger] n.keys[k]).key_id == id
}

proof fn lemma_has_key(n: DelegationNodeView, id: Seq<char>)
    ensures
        has_key(n, id) <==> key_among(n.keys, id) is Some,
{
    law_key_among(n.keys, id);
    if key_among(n.keys, id) is Some {
        let p = key_among(n.keys, id)->0;
        let i = choose|i: int|
            0 <= i < n.keys.len() && (#[trigger] n.keys[i]).key_id == id && n.keys[i].public == p
                && forall|j: int| 0 <= j < i ==> (#[trigger] n.keys[j]).key_id != id;
        assert(n.keys[i].key_id == id);
    }
}

/// In the graph a key id stands for the key of the first node that has one
/// under it, and for none exactly when no node has.
pub proof fn law_resolved(nodes: Seq<DelegationNodeView>, id: Seq<char>)
    ensures
        match resolved(nodes, id) {
            Some(p) => exists|i: int|
                0 <= i < nodes.len() && has_key(#[trigger] nodes[i], id) && key_among(
                    nodes[i].keys,
                    id,
                ) == Some(p) && forall|j: int| 0 <= j < i ==> !has_key(#[trigger] nodes[j], id),
            None => forall|j: int| 0 <= j < nodes.len() ==> !has_key(#[trigger] nodes[j], id),
        },
    decreases nodes.len(),
{
    if nodes.len() > 0 {
        let rest = nodes.drop_first();
        law_resolved(rest, id);
        lemma_has_key(nodes[0], id);
        assert(forall|j: int| 0 <= j < rest.len() ==> rest[j] == nodes[j + 1]);
        if has_key(nodes[0], id) {
            assert(has_key(nodes[0], id));
        } else {
            match resolved(nodes, id) {
                Some(p) => {
                    let i = choose|i: int|
                        0 <= i < rest.len() && has_key(#[trigger] rest[i], id) && key_among(
                            rest[i].keys,
                            id,
                        ) == Some(p) && forall|j: int|
                            0 <= j < i ==> !has_key(#[trigger] rest[j], id);
                    assert(has_key(nodes[i + 1], id));
                    assert forall|j: int| 0 <= j < i + 1 implies !has_key(
                        #[trigger] nodes[j],
                        id,
                    ) by {
                        if j > 0 {
                            assert(!has_key(rest[j - 1], id));
                        }
                    }
                },
                None => {
                    assert forall|j: int| 0 <= j < nodes.len() implies !has_key(
                        #[trigger] nodes[j],
                        id,
                    ) by {
                        if j > 0 {
                            assert(!has_key(rest[j - 1], id));
                        }
                    }
                },
            }
        }
    }
}

/// A key of a quorum node is one that stands on that node of the graph, and
/// the graph asserts a threshold of it exactly when it is a threshold group.
pub proof fn law_quorum_node(g: TrustGraphView, id: Seq<char>)
    ensures
        match data::lookup::<DelegationNode>(g.nodes, id) {
            Some(n) => {
                &&& keys_on(g, id) == n.keys
                &&& group_threshold(g, id) is Some <==> n.kind is ThresholdGroup
                &&& n.kind matches NodeKindView::ThresholdGroup { threshold, .. }
                    ==> group_threshold(g, id) == Some(threshold)
            },
            None => keys_on(g, id).len() == 0 && group_threshold(g, id) is None,
        },
{
}

/// The slot is signed under the key that the quorum node has registered for
/// its id.
pub open spec fn group_slot(
    g: TrustGraphView,
    q: QuorumAttestationView,
    checks: Seq<SlotCheckView>,
    i: int,
) -> bool {
    &&& 0 <= i < q.signatures.len()
    &&& exists|n: DelegationNodeView, p: PublicKeyView|
        #![trigger key_among(n.keys, q.signatures[i].key_id), judge::verifies(checks, i, p.bytes)]
        data::lookup::<DelegationNode>(g.nodes, q.quorum) == Some(n) && key_among(
            n.keys,
            q.signatures[i].key_id,
        ) == Some(p) && judge::verifies(checks, i, p.bytes)
}

/// The slot is signed under a key of the graph whose id the quorum node has
/// not registered.
pub open spec fn member_slot(
    g: TrustGraphView,
    q: QuorumAttestationView,
    checks: Seq<SlotCheckView>,
    i: int,
) -> bool {
    &&& 0 <= i < q.signatures.len()
    &&& !(data::lookup::<DelegationNode>(g.nodes, q.quorum) matches Some(n) && has_key(
        n,
        q.signatures[i].key_id,
    ))
    &&& resolved(g.nodes, q.signatures[i].key_id) matches Some(p) && judge::verifies(
        checks,
        i,
        p.bytes,
    )
}

/// The ids of the slots that members signed.
pub open spec fn member_ids(
    g: TrustGraphView,
    q: QuorumAttestationView,
    checks: Seq<SlotCheckView>,
) -> Set<Seq<char>> {
    Set::new(
        |id: Seq<char>|
            exists|i: int| #[trigger] member_slot(g, q, checks, i) && q.signatures[i].key_id == id,
    )
}

proof fn lemma_slots(g: TrustGraphView, q: QuorumAttestationView, checks: Seq<SlotCheckView>, i: int)
    requires
        0 <= i < q.signatures.len(),
    ensures
        signed_by_group(g, q, checks, i) <==> group_slot(g, q, checks, i),
        signed_by_member(g, q, checks, i) <==> member_slot(g, q, checks, i),
{
    let id = q.signatures[i].key_id;
    match data::lookup::<DelegationNode>(g.nodes, q.quorum) {
        Some(n) => {
            lemma_has_key(n, id);
            if signed_by_group(g, q, checks, i) {
                let p = key_among(n.keys, id)->0;
                assert(judge::verifies(checks, i, p.bytes));
            }
        },
        None => {},
    }
}

/// What a verdict says, slot by slot: how many different ids members signed
/// under, whether the group signed, and that the attestation is quorate
/// exactly when the group signed and the graph asserts of it the threshold
/// that the attestation claims, or when at least so many members signed.
pub proof fn law_verdict_counts_slots(
    g: TrustGraphView,
    q: QuorumAttestationView,
    checks: Seq<SlotCheckView>,
)
    requires
        q.signatures.len() <= usize::MAX,
    ensures
        ({
            let v = verdict_of(g, q, checks);
            let group = exists|i: int| #[trigger] group_slot(g, q, checks, i);
            let certified = group && (data::lookup::<DelegationNode>(
                g.nodes,
                q.quorum,
            ) matches Some(n) && n.kind matches NodeKindView::ThresholdGroup { threshold, .. }
                && threshold == q.threshold);
            &&& member_ids(g, q, checks).finite()
            &&& v.member_verified == member_ids(g, q, checks).len()
            &&& v.group_verified == group
            &&& v.threshold == q.threshold
            &&& v.quorate == (certified || member_ids(g, q, checks).len() >= q.threshold)
            &&& v.form.spec_token() == if certified {
                "threshold-group"@
            } else {
                "member-keys"@
            }
        }),
{
    let n = q.signatures.len();
    lemma_signers_bound(g, q, checks, n);
    assert forall|id: Seq<char>| signers(g, q, checks, n).contains(id) <==> #[trigger] member_ids(
        g,
        q,
        checks,
    ).contains(id) by {
        law_members_are_the_verifying_ids(g, q, checks, n, id);
        if signers(g, q, checks, n).contains(id) {
            let i = choose|i: int|
                0 <= i < n && q.signatures[i].key_id == id && #[trigger] signed_by_member(
                    g,
                    q,
                    checks,
                    i,
                );
            lemma_slots(g, q, checks, i);
        }
        if member_ids(g, q, checks).contains(id) {
            let i = choose|i: int| #[trigger]
                member_slot(g, q, checks, i) && q.signatures[i].key_id == id;
            lemma_slots(g, q, checks, i);
        }
    }
    assert(signers(g, q, checks, n) =~= member_ids(g, q, checks));
    if group_signed(g, q, checks) {
        let i = choose|i: int|
            0 <= i < q.signatures.len() && #[trigger] signed_by_group(g, q, checks, i);
        lemma_slots(g, q, checks, i);
    }
    if exists|i: int| #[trigger] group_slot(g, q, checks, i) {
        let i = choose|i: int| #[trigger] group_slot(g, q, checks, i);
        lemma_slots(g, q, checks, i);
        assert(signed_by_group(g, q, checks, i));
    }
}

/// Nothing counts that does not verify: where every check fails, no member
/// and no group has signed.
pub proof fn law_failed_checks_count_for_nothing(
    g: TrustGraphView,
    q: QuorumAttestationView,
    checks: Seq<SlotCheckView>,
)
    requires
        q.signatures.len() <= usize::MAX,
        forall|i: int| 0 <= i < checks.len() ==> !(#[trigger] checks[i]).valid,
    ensures
        verdict_of(g, q, checks).member_verified == 0,
        !verdict_of(g, q, checks).group_verified,
        verdict_of(g, q, checks).quorate <==> q.threshold == 0,
{
    law_verdict_counts_slots(g, q, checks);
    assert forall|i: int, b: Seq<u8>| !#[trigger] judge::verifies(checks, i, b) by {
        judge::law_first_check_decides(checks, i, b);
    }
    assert(member_ids(g, q, checks) =~= Set::<Seq<char>>::empty());
    if exists|i: int| #[trigger] group_slot(g, q, checks, i) {
        let i = choose|i: int| #[trigger] group_slot(g, q, checks, i);
    }
}

} // verus!
