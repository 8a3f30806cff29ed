//! Quorum verdicts over both attestation forms.

use unidpp_trust::data::{insert_keyed, Dup};
use unidpp_trust::judge::SlotCheck;
use unidpp_trust::model::{
    DelegationNode, NodeKind, PublicKey, QuorumAttestation, RegisteredKey, SignatureSlot, Suite,
    TrustGraph,
};
use unidpp_trust::quorum::{tried_key, verdict, QuorumForm, QuorumVerdict};

/// A key of the suite, told apart by its bytes.
fn key(suite: &str, n: u8) -> PublicKey {
    let len = if suite == "ed25519" { 32 } else { 65 };
    PublicKey {
        suite: suite.to_string(),
        bytes: vec![n; len],
        key_id: format!("k-{:016x}", n),
    }
}

/// A slot that verifies under the key and under no other.
fn signed(k: &PublicKey) -> SignatureSlot {
    SignatureSlot {
        suite: Suite {
            name: k.suite.clone(),
            signature_len: 64,
        },
        key_id: k.key_id.clone(),
        signature: Some(vec![k.bytes[0]; 64]),
    }
}

/// Which slots verify under which keys.
fn trials(slots: &[SignatureSlot], keys: &[PublicKey]) -> Vec<SlotCheck> {
    let mut out = Vec::new();
    for (slot, s) in slots.iter().enumerate() {
        for k in keys {
            out.push(SlotCheck {
                slot,
                public: k.bytes.clone(),
                valid: s.signature == Some(vec![k.bytes[0]; 64]),
            });
        }
    }
    out
}

fn members(n: u8) -> Vec<PublicKey> {
    (0..n).map(|i| key("ed25519", i + 1)).collect()
}

fn registered(k: &PublicKey) -> RegisteredKey {
    RegisteredKey {
        key_id: k.key_id.clone(),
        public: k.dup(),
    }
}

fn quorum_graph(
    quorum_id: &str,
    threshold: usize,
    member_keys: &[PublicKey],
    group_key: Option<&PublicKey>,
) -> TrustGraph {
    let mut nodes = Vec::new();
    let ids: Vec<String> = (0..member_keys.len()).map(|i| format!("m{i}")).collect();
    for (id, k) in ids.iter().zip(member_keys) {
        insert_keyed(
            &mut nodes,
            DelegationNode {
                id: id.clone(),
                kind: NodeKind::End,
                keys: vec![registered(k)],
            },
        );
    }
    insert_keyed(
        &mut nodes,
        DelegationNode {
            id: quorum_id.to_string(),
            kind: NodeKind::ThresholdGroup {
                threshold,
                members: ids,
            },
            keys: group_key.iter().map(|k| registered(k)).collect(),
        },
    );
    TrustGraph {
        nodes,
        edges: Vec::new(),
    }
}

fn attestation(quorum: &str, threshold: usize, signers: &[&PublicKey]) -> QuorumAttestation {
    QuorumAttestation {
        quorum: quorum.to_string(),
        threshold,
        signatures: signers.iter().map(|k| signed(k)).collect(),
    }
}

fn judged(graph: &TrustGraph, att: &QuorumAttestation) -> QuorumVerdict {
    let mut keys: Vec<PublicKey> = Vec::new();
    for n in &graph.nodes {
        keys.extend(n.keys.iter().map(|k| k.public.dup()));
    }
    verdict(graph, att, &trials(&att.signatures, &keys))
}

#[test]
fn member_key_form_matches_is_quorate_on_keyless_quorum_nodes() {
    let members = members(3);
    let graph = quorum_graph("q", 2, &members, None);
    let v = judged(&graph, &attestation("q", 2, &[&members[0], &members[1]]));
    assert_eq!(v.form, QuorumForm::MemberKeys);
    assert_eq!(v.member_verified, 2);
    assert!(v.quorate);
    // Below threshold: one member alone.
    let v = judged(&graph, &attestation("q", 2, &[&members[0]]));
    assert_eq!(v.member_verified, 1);
    assert!(!v.quorate);
}

#[test]
fn group_key_form_certifies_one_slot_when_thresholds_agree() {
    let group = key("ed25519", 99);
    let graph = quorum_graph("ceremony-q", 2, &members(3), Some(&group));
    let v = judged(&graph, &attestation("ceremony-q", 2, &[&group]));
    assert_eq!(v.form, QuorumForm::ThresholdGroup);
    assert!(v.group_verified);
    assert_eq!(v.member_verified, 0, "the group key is not a member");
    assert!(v.quorate);
}

#[test]
fn group_form_requires_graph_registration_and_matching_threshold() {
    let group = key("ed25519", 99);
    let att = attestation("reg-q", 2, &[&group]);

    // Unregistered group key: nothing certifies.
    let graph = quorum_graph("reg-q", 2, &members(3), None);
    let v = judged(&graph, &att);
    assert!(!v.quorate, "the pinned group key is load-bearing");
    assert_eq!(v.member_verified, 0);

    // Threshold disagreement between the graph's quorum node and the
    // attestation: refused.
    let graph = quorum_graph("reg-q", 3, &members(3), Some(&group));
    let v = judged(&graph, &att);
    assert!(v.group_verified, "the signature itself verifies");
    assert!(!v.quorate, "claimed 2, graph asserts 3");
    assert_eq!(v.form, QuorumForm::MemberKeys);

    // A quorum node that is not a threshold group cannot certify the
    // group form either.
    let graph = TrustGraph {
        nodes: vec![DelegationNode {
            id: "reg-q".to_string(),
            kind: NodeKind::Root,
            keys: vec![registered(&group)],
        }],
        edges: Vec::new(),
    };
    assert!(!judged(&graph, &att).quorate);
}

#[test]
fn one_member_signing_twice_counts_once() {
    let members = members(2);
    let graph = quorum_graph("q", 2, &members, None);
    let v = judged(&graph, &attestation("q", 2, &[&members[0], &members[0]]));
    assert_eq!(v.member_verified, 1);
    assert!(!v.quorate);
    assert_eq!(v.summary(), "1 member key(s) verified, threshold 2");
}

#[test]
fn forged_slots_do_not_count() {
    let members = members(2);
    let graph = quorum_graph("q", 1, &members, None);
    let mut att = attestation("q", 1, &[&members[0]]);
    att.signatures[0].signature = Some(vec![7; 64]);
    assert!(!judged(&graph, &att).quorate);
    att.signatures[0].signature = None;
    assert!(!judged(&graph, &att).quorate);
}

#[test]
fn the_group_form_is_summarised_and_tokenised() {
    let group = key("ed25519", 99);
    let graph = quorum_graph("q", 2, &members(3), Some(&group));
    let v = judged(&graph, &attestation("q", 2, &[&group]));
    assert_eq!(
        v.summary(),
        "threshold-group signature verified (2 of the group's members acted), threshold 2"
    );
    assert_eq!(QuorumForm::ThresholdGroup.token(), "threshold-group");
    assert_eq!(QuorumForm::MemberKeys.token(), "member-keys");
}

#[test]
fn slots_are_tried_under_the_quorum_node_first() {
    let group = key("ed25519", 99);
    let members = members(2);
    let graph = quorum_graph("q", 2, &members, Some(&group));
    assert_eq!(tried_key(&graph, "q", &group.key_id), Some(&group));
    assert_eq!(tried_key(&graph, "q", &members[1].key_id), Some(&members[1]));
    assert_eq!(tried_key(&graph, "q", "k-none"), None);
}

#[test]
fn order_copies_and_forged_slots_leave_the_verdict() {
    let members = members(3);
    let graph = quorum_graph("q", 2, &members, None);
    let plain = judged(&graph, &attestation("q", 2, &[&members[0], &members[2]]));
    assert!(plain.quorate);
    let swapped = attestation("q", 2, &[&members[2], &members[0]]);
    assert_eq!(judged(&graph, &swapped), plain);
    let mut more = attestation("q", 2, &[&members[1], &members[2], &members[0], &members[2]]);
    more.signatures[0].signature = Some(vec![7; 64]);
    assert_eq!(judged(&graph, &more), plain);
}
