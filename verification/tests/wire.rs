//! The wire forms of the trust model.

use serde_json::Value;
use unidpp_trust::data::Dup;
use unidpp_trust::json::Json;
use unidpp_trust::judge::{Judgements, PublicVerdict, SlotCheck, SuiteVerdict, TextVerdict};
use unidpp_trust::model::{
    Condition, DelegationCredential, DelegationNode, Interval, MasterList, MasterListEntry,
    NodeKind, PublicKey, RevocationReason, RevokedSubject, SignatureSlot, Suite,
    TrustListEntryRecord, Witness, WitnessAttestation,
};
use unidpp_trust::time::Timestamp;
use unidpp_trust::wire::{
    attestations_verified, edge_from_value, edge_to_value, interval_from_value, interval_to_value,
    keypair_public_hex, map_signatif_error, master_entry_from_value, master_entry_quorate,
    master_entry_to_value, node_from_value, node_to_value, public_from_hex, public_from_value,
    public_to_value, quorum_from_value, reason_from_value, reason_to_value, revocation_from_value,
    revoked_subject_from_label, revoked_subject_from_value, revoked_subject_to_value,
    slot_from_value, slot_to_value, trust_entry_from_value, trust_entry_to_value, ts_parse,
    witnesses_from_value, witnesses_to_value, SignatifError,
};

/// A key of the suite, told apart by its bytes.
fn key(suite: &str, n: u8) -> PublicKey {
    let len = if suite == "ed25519" { 32 } else { 65 };
    PublicKey {
        suite: suite.to_string(),
        bytes: vec![n; len],
        key_id: format!("k-{:016x}", n),
    }
}

/// A slot that verifies under the key and under no other.
fn signed(k: &PublicKey) -> SignatureSlot {
    SignatureSlot {
        suite: Suite {
            name: k.suite.clone(),
            signature_len: 64,
        },
        key_id: k.key_id.clone(),
        signature: Some(vec![k.bytes[0]; 64]),
    }
}

/// Which slots verify under which keys.
fn trials(slots: &[SignatureSlot], keys: &[PublicKey]) -> Vec<SlotCheck> {
    let mut out = Vec::new();
    for (slot, s) in slots.iter().enumerate() {
        for k in keys {
            out.push(SlotCheck {
                slot,
                public: k.bytes.clone(),
                valid: s.signature == Some(vec![k.bytes[0]; 64]),
            });
        }
    }
    out
}
fn plain(v: &Value) -> Json {
    match v {
        Value::Null => Json::Null,
        Value::Bool(b) => Json::Bool(*b),
        Value::Number(n) => match (n.as_u64(), n.as_i64()) {
            (Some(u), _) => Json::Uint(u),
            (_, Some(i)) => Json::Int(i),
            _ => Json::Other(n.to_string()),
        },
        Value::String(s) => Json::Str(s.clone()),
        Value::Array(a) => Json::Arr(a.iter().map(plain).collect()),
        Value::Object(m) => Json::Obj(m.iter().map(|(k, x)| (k.clone(), plain(x))).collect()),
    }
}

/// The document of a JSON text.
fn doc(text: &str) -> Json {
    plain(&serde_json::from_str(text).unwrap())
}

fn strings(d: &Json, out: &mut Vec<String>) {
    match d {
        Json::Str(s) => out.push(s.clone()),
        Json::Arr(v) => v.iter().for_each(|x| strings(x, out)),
        Json::Obj(v) => v.iter().for_each(|(_, x)| strings(x, out)),
        _ => {}
    }
}

/// Verdicts that take every text without white space for an id, both
/// suites, and the given keys.
fn vouch(d: &Json, keys: &[PublicKey]) -> Judgements {
    let mut texts = Vec::new();
    strings(d, &mut texts);
    let mut more = Vec::new();
    for t in &texts {
        more.extend(t.split_once(':').map(|(_, id)| id.to_string()));
    }
    texts.extend(more);
    let ids = || -> Vec<TextVerdict> {
        texts
            .iter()
            .map(|t| {
                let accepted = !t.is_empty() && !t.contains(' ');
                TextVerdict {
                    raw: t.clone(),
                    accepted,
                    text: if accepted { t.clone() } else { format!("bad id `{t}`") },
                }
            })
            .collect()
    };
    let suite = |name: &str| SuiteVerdict {
        token: name.to_string(),
        suite: Some(Suite {
            name: name.to_string(),
            signature_len: 64,
        }),
        error: String::new(),
    };
    Judgements {
        nodes: ids(),
        keys: ids(),
        passports: ids(),
        suites: vec![suite("ed25519"), suite("ecdsa-p256")],
        publics: keys
            .iter()
            .map(|k| PublicVerdict {
                bytes: k.bytes.clone(),
                public: Some(k.dup()),
                error: String::new(),
            })
            .collect(),
        scope: d.get("scope").map(|s| s.dup()),
        scope_error: String::new(),
        condition: d
            .get("subject")
            .unwrap_or(d)
            .get("condition")
            .map(|c| Condition {
                text: "condition".to_string(),
                doc: c.dup(),
            }),
        condition_error: "no condition".to_string(),
    }
}

fn ts(s: &str) -> Timestamp {
    ts_parse(s).unwrap()
}

#[test]
fn public_key_round_trip_uses_from_bytes_path() {
    let k = key("ed25519", 1);
    let v = public_to_value(&k);
    assert_eq!(v.str_at("suite"), Some("ed25519"));
    assert_eq!(v.u64_at("public_len"), Some(32));
    let back = public_from_value(&v, &vouch(&v, &[k.dup()])).unwrap();
    assert_eq!(back, k);
}

#[test]
fn public_key_suite_mismatch_rejected() {
    let k = key("ed25519", 2);
    let bad = public_to_value(&k).with("suite", Json::text("ecdsa-p256"));
    let e = public_from_value(&bad, &vouch(&bad, &[k])).unwrap_err();
    assert_eq!(
        e,
        "public key suite mismatch: declared `ecdsa-p256`, bytes are `ed25519`"
    );
}

#[test]
fn slot_to_from_value_round_trip() {
    let s = signed(&key("ed25519", 3));
    let v = slot_to_value(&s);
    assert!(!v.str_at("signature").unwrap().is_empty());
    let back = slot_from_value(&v, &vouch(&v, &[])).unwrap();
    assert_eq!(back, s);
}

#[test]
fn revoked_subject_kind_round_trip() {
    let s = RevokedSubject::Key("k-abcdef0123456789".to_string());
    let v = revoked_subject_to_value(&s);
    assert_eq!(v.str_at("kind"), Some("key"));
    let j = vouch(&v, &[]);
    assert_eq!(revoked_subject_from_value(&v, &j).unwrap(), s);
    assert_eq!(
        revoked_subject_from_label("key:k-abcdef0123456789", &j).unwrap(),
        s
    );
}

#[test]
fn revoked_subject_label_passport() {
    let s = RevokedSubject::Passport("urn:unidpp:passport:b0".to_string());
    let label = "passport:urn:unidpp:passport:b0";
    let j = vouch(&Json::text(label), &[]);
    assert_eq!(revoked_subject_from_label(label, &j).unwrap(), s);
}

#[test]
fn reason_round_trip_all_variants() {
    let cases = vec![
        RevocationReason::KeyCompromise {
            after: ts("2026-01-01T00:00:00Z"),
        },
        RevocationReason::Cessation,
        RevocationReason::Supersession {
            by: "next".to_string(),
        },
        RevocationReason::AffiliationChange,
        RevocationReason::Misissuance,
        RevocationReason::FraudulentIssuance,
        RevocationReason::AuthorityCompromised {
            detected_at: ts("2026-02-01T00:00:00Z"),
        },
    ];
    for r in &cases {
        let v = reason_to_value(r);
        assert_eq!(v.str_at("token").unwrap(), r.token());
        assert_eq!(v.get("retroactive"), Some(&Json::Bool(r.is_retroactive())));
        let back = reason_from_value(&v, &vouch(&v, &[])).unwrap();
        assert_eq!(&back, r);
    }
}

#[test]
fn interval_value_bounded_and_open() {
    let bounded = interval_to_value(&Interval {
        from: ts("2026-01-01T00:00:00Z"),
        to: Some(ts("2026-02-01T00:00:00Z")),
    });
    assert_eq!(bounded.get("open"), Some(&Json::Bool(false)));
    let back = interval_from_value(&bounded).unwrap();
    assert_eq!(back.from, ts("2026-01-01T00:00:00Z"));
    assert_eq!(back.to, Some(ts("2026-02-01T00:00:00Z")));

    let open = interval_to_value(&Interval {
        from: ts("2026-01-01T00:00:00Z"),
        to: None,
    });
    assert_eq!(open.get("open"), Some(&Json::Bool(true)));
    let back = interval_from_value(&open).unwrap();
    assert_eq!(back.from, ts("2026-01-01T00:00:00Z"));
    assert_eq!(back.to, None);
}

#[test]
fn interval_inverted_window_rejected() {
    let bad = doc(r#"{"start": "2026-02-01T00:00:00Z", "end": "2026-01-01T00:00:00Z"}"#);
    assert!(interval_from_value(&bad).is_err());
}

#[test]
fn node_round_trip_root_and_threshold_group() {
    let root = DelegationNode {
        id: "r".to_string(),
        kind: NodeKind::Root,
        keys: Vec::new(),
    };
    let v = node_to_value(&root);
    assert_eq!(v.str_at("kind"), Some("root"));
    let back = node_from_value(&v, &vouch(&v, &[])).unwrap();
    assert_eq!(back.id, root.id);
    assert_eq!(back.kind, root.kind);

    let tg = DelegationNode {
        id: "g".to_string(),
        kind: NodeKind::ThresholdGroup {
            threshold: 2,
            members: vec!["m1".to_string(), "m2".to_string()],
        },
        keys: Vec::new(),
    };
    let v = node_to_value(&tg);
    let back = node_from_value(&v, &vouch(&v, &[])).unwrap();
    assert_eq!(back.kind, tg.kind);
}

#[test]
fn edge_round_trip_via_wire_value() {
    let cred = DelegationCredential {
        parent: "p".to_string(),
        child: "c".to_string(),
        scope: doc(r#"{"authority": ["eu"], "product_group": ["batteries"]}"#),
        signatures: vec![signed(&key("ed25519", 4))],
    };
    let v = edge_to_value(&cred);
    let back = edge_from_value(&v, &vouch(&v, &[])).unwrap();
    assert_eq!(back, cred);
}

#[test]
fn master_witnesses_and_entries_round_trip() {
    let (k1, k2) = (key("ed25519", 5), key("ecdsa-p256", 6));
    let m = MasterList {
        m: 2,
        k: 2,
        witnesses: vec![
            Witness {
                node: "w1".to_string(),
                public: k1.dup(),
            },
            Witness {
                node: "w2".to_string(),
                public: k2.dup(),
            },
        ],
        entries: Vec::new(),
    };
    let v = witnesses_to_value(&m);
    assert_eq!(v.as_array().unwrap().len(), 2);
    let back = witnesses_from_value(&v, &vouch(&v, &[k1, k2])).unwrap();
    assert_eq!(back.len(), 2);
    assert_eq!(back, m.witnesses);
}

#[test]
fn hex_round_trip_through_public() {
    let k = key("ecdsa-p256", 7);
    let hex = keypair_public_hex(&k);
    assert_eq!(hex.len(), 130); // 65 bytes
    let back = public_from_hex("ecdsa-p256", &hex, &vouch(&Json::Null, &[k.dup()])).unwrap();
    assert_eq!(back, k);
}

#[test]
fn trust_entries_carry_their_window() {
    let e = TrustListEntryRecord {
        node: "n".to_string(),
        not_before: ts("2026-01-01"),
        superseded_at: Some(ts("2026-02-01")),
    };
    let v = trust_entry_to_value(&e, ts("2026-01-15"));
    assert_eq!(v.get("in_force_at_as_of"), Some(&Json::Bool(true)));
    assert_eq!(trust_entry_from_value(&v, &vouch(&v, &[])).unwrap(), e);
    assert!(!e.in_force_at(ts("2025-12-31")));
    assert!(!e.in_force_at(ts("2026-02-01")));
    let bad = doc(r#"{"node": "n"}"#);
    assert!(trust_entry_from_value(&bad, &vouch(&bad, &[])).is_err());
}

#[test]
fn master_entries_count_distinct_witnesses() {
    let (k1, k2) = (key("ed25519", 1), key("ed25519", 2));
    let at = ts("2026-01-01");
    let by = |w: &str, k: &PublicKey| WitnessAttestation {
        witness: w.to_string(),
        at,
        slot: signed(k),
    };
    let e = MasterListEntry {
        node: "n".to_string(),
        attestations: vec![by("w1", &k1), by("w1", &k1), by("w2", &k1)],
    };
    let m = MasterList {
        m: 2,
        k: 2,
        witnesses: vec![
            Witness {
                node: "w1".to_string(),
                public: k1.dup(),
            },
            Witness {
                node: "w2".to_string(),
                public: k2.dup(),
            },
        ],
        entries: Vec::new(),
    };
    let slots: Vec<SignatureSlot> = e.attestations.iter().map(|a| a.slot.dup()).collect();
    let checks = trials(&slots, &[k1.dup(), k2.dup()]);
    assert_eq!(
        attestations_verified(&e, &m.witnesses, &checks),
        vec![true, true, false]
    );
    assert!(!master_entry_quorate(&e, &m.witnesses, m.m, &checks));
    assert!(master_entry_quorate(&e, &m.witnesses, 1, &checks));
    let v = master_entry_to_value(&e);
    assert_eq!(master_entry_from_value(&v, &vouch(&v, &[])).unwrap(), e);
}

#[test]
fn documents_are_refused_by_name() {
    let j = vouch(&doc(r#"["n", "k"]"#), &[]);
    let refused = |r: Result<(), String>, part: &str| {
        let e = r.unwrap_err();
        assert!(e.contains(part), "{e}");
    };
    refused(
        public_from_value(&doc("{}"), &j).map(|_| ()),
        "public key `suite` is required",
    );
    refused(
        revoked_subject_from_value(&doc(r#"{"kind": "wat", "id": "x"}"#), &j).map(|_| ()),
        "wat",
    );
    refused(
        reason_from_value(&doc(r#"{"token": "made-up"}"#), &j).map(|_| ()),
        "made-up",
    );
    refused(
        reason_from_value(&doc(r#"{"token": "key-compromise"}"#), &j).map(|_| ()),
        "after",
    );
    refused(quorum_from_value(&doc("{}"), &j).map(|_| ()), "quorum");
    refused(node_from_value(&doc("{}"), &j).map(|_| ()), "id");
    refused(edge_from_value(&doc("{}"), &j).map(|_| ()), "parent");
    refused(revocation_from_value(&doc("{}"), &j).map(|_| ()), "subject");
    refused(
        witnesses_from_value(&doc("{}"), &j).map(|_| ()),
        "`witnesses` must be an array",
    );
    refused(interval_from_value(&doc("{}")).map(|_| ()), "start");
}

#[test]
fn model_errors_map_to_statuses() {
    assert_eq!(
        map_signatif_error(SignatifError::Validation("x".to_string())),
        (400, "validation: x".to_string())
    );
    assert_eq!(
        map_signatif_error(SignatifError::NoTrustPath {
            key_id: "k".to_string()
        }),
        (404, "no trust path to `k`".to_string())
    );
    let (status, _) = map_signatif_error(SignatifError::QuorumRequired {
        subject: "s".to_string(),
    });
    assert_eq!(status, 422);
}
