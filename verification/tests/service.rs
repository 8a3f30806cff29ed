//! The seeded store and the replies of the service.

use serde_json::Value;
use unidpp_trust::api::discovery::{discovery, healthz, keyring};
use unidpp_trust::api::evidence::{
    evidence_catalogue, evidence_release, register_evidence, release_headers, release_requester,
    release_scope,
};
use unidpp_trust::api::paths;
use unidpp_trust::api::reads::{
    admin_log, anchor_bundle, graph, master_list, operator_view, revocations, trust_list_one,
    trust_lists, EntryChecks, Reading,
};
use unidpp_trust::api::writes::{
    add_edge, declare_revocation, register_node, register_trust_list, register_trust_list_in_room,
    set_witnesses, upsert_master_entry, upsert_trust_entry, Request,
};
use unidpp_trust::api::{
    parse_window_filter, sign_headers, signed_headers, validate_token, BodySignatures, CachePolicy,
    Config, Params, Reply,
};
use unidpp_trust::codec::{one_line, read_text};
use unidpp_trust::data::{find_by_key, Dup};
use unidpp_trust::json::Json;
use unidpp_trust::judge::{Judgements, PublicVerdict, SlotCheck, SuiteVerdict, TextVerdict};
use unidpp_trust::model::{
    Condition, DelegationCredential, DelegationNode, Interval, MasterList, MasterListEntry,
    NodeKind, PublicKey, QuorumAttestation, RegisteredKey, Revocation, RevocationReason,
    RevokedSubject, SignatureSlot, Suite, TrustGraph, TrustListEntryRecord, Witness,
    WitnessAttestation,
};
use unidpp_trust::seed::{
    build_graph, build_ledger, build_master_list, build_trust_lists, key_plan, seed_ops, ts,
    Minted, SeedKeys, FIXTURE_SOURCE,
};
use unidpp_trust::store::{
    journal_line, read_line, scan_line, AuditRecord, Fixture, JournalEntry,
    Line, Op, Ruling, Store, StoreError,
};
use unidpp_trust::time::Timestamp;
use unidpp_trust::wire::{
    master_entry_quorate, master_entry_to_value, node_to_value, public_to_value, revocation_to_value,
};

/// A key of the suite, told apart by its bytes.
fn key(suite: &str, n: u8) -> PublicKey {
    let len = if suite == "ed25519" { 32 } else { 65 };
    PublicKey {
        suite: suite.to_string(),
        bytes: vec![n; len],
        key_id: format!("k-{:016x}", n),
    }
}

/// A slot that verifies under the key and under no other.
fn signed(k: &PublicKey) -> SignatureSlot {
    SignatureSlot {
        suite: Suite {
            name: k.suite.clone(),
            signature_len: 64,
        },
        key_id: k.key_id.clone(),
        signature: Some(vec![k.bytes[0]; 64]),
    }
}

/// Which slots verify under which keys.
fn trials(slots: &[SignatureSlot], keys: &[PublicKey]) -> Vec<SlotCheck> {
    let mut out = Vec::new();
    for (slot, s) in slots.iter().enumerate() {
        for k in keys {
            out.push(SlotCheck {
                slot,
                public: k.bytes.clone(),
                valid: s.signature == Some(vec![k.bytes[0]; 64]),
            });
        }
    }
    out
}
fn plain(v: &Value) -> Json {
    match v {
        Value::Null => Json::Null,
        Value::Bool(b) => Json::Bool(*b),
        Value::Number(n) => match (n.as_u64(), n.as_i64()) {
            (Some(u), _) => Json::Uint(u),
            (_, Some(i)) => Json::Int(i),
            _ => Json::Other(n.to_string()),
        },
        Value::String(s) => Json::Str(s.clone()),
        Value::Array(a) => Json::Arr(a.iter().map(plain).collect()),
        Value::Object(m) => Json::Obj(m.iter().map(|(k, x)| (k.clone(), plain(x))).collect()),
    }
}

/// The document of a JSON text.
fn doc(text: &str) -> Json {
    plain(&serde_json::from_str(text).unwrap())
}

fn strings(d: &Json, out: &mut Vec<String>) {
    match d {
        Json::Str(s) => out.push(s.clone()),
        Json::Arr(v) => v.iter().for_each(|x| strings(x, out)),
        Json::Obj(v) => v.iter().for_each(|(_, x)| strings(x, out)),
        _ => {}
    }
}

/// Verdicts that take every text without white space for an id, both
/// suites, and the given keys.
fn vouch(d: &Json, keys: &[PublicKey]) -> Judgements {
    let mut texts = Vec::new();
    strings(d, &mut texts);
    let mut more = Vec::new();
    for t in &texts {
        more.extend(t.split_once(':').map(|(_, id)| id.to_string()));
    }
    texts.extend(more);
    let ids = || -> Vec<TextVerdict> {
        texts
            .iter()
            .map(|t| {
                let accepted = !t.is_empty() && !t.contains(' ');
                TextVerdict {
                    raw: t.clone(),
                    accepted,
                    text: if accepted { t.clone() } else { format!("bad id `{t}`") },
                }
            })
            .collect()
    };
    let suite = |name: &str| SuiteVerdict {
        token: name.to_string(),
        suite: Some(Suite {
            name: name.to_string(),
            signature_len: 64,
        }),
        error: String::new(),
    };
    Judgements {
        nodes: ids(),
        keys: ids(),
        passports: ids(),
        suites: vec![suite("ed25519"), suite("ecdsa-p256")],
        publics: keys
            .iter()
            .map(|k| PublicVerdict {
                bytes: k.bytes.clone(),
                public: Some(k.dup()),
                error: String::new(),
            })
            .collect(),
        scope: d.get("scope").map(|s| s.dup()),
        scope_error: String::new(),
        condition: d
            .get("subject")
            .unwrap_or(d)
            .get("condition")
            .map(|c| Condition {
                text: "condition".to_string(),
                doc: c.dup(),
            }),
        condition_error: "no condition".to_string(),
    }
}

// ---------------------------------------------------------------------------
// Fixtures
// ---------------------------------------------------------------------------

fn seed_keys() -> SeedKeys {
    let derived: Vec<PublicKey> = key_plan()
        .iter()
        .enumerate()
        .map(|(i, k)| key(&k.suite, i as u8 + 1))
        .collect();
    SeedKeys::load(&derived)
}

fn minted(keys: &SeedKeys) -> Minted {
    Minted {
        wide: doc(r#"{"authority": ["eu"], "product_group": ["batteries", "electronics"]}"#),
        narrow: doc(r#"{"authority": ["eu"], "product_group": ["batteries"]}"#),
        hop1: vec![signed(&keys.root), signed(&keys.root)],
        hop2: vec![signed(&keys.notified)],
        attestations: keys.witnesses.iter().map(|w| signed(&w.public)).collect(),
        quorum: keys.quorum_members.iter().map(signed).collect(),
    }
}

/// Every key of the fixtures, and one that is registered nowhere.
fn all_keys() -> Vec<PublicKey> {
    let k = seed_keys();
    let mut out = vec![k.root, k.notified, k.issuer, k.issuer_alt];
    out.extend(k.witnesses.into_iter().map(|w| w.public));
    out.extend(k.quorum_members);
    out.push(key("ed25519", 99));
    out
}

/// The ruling of a model that admits what is between known nodes.
fn ruling_on(op: &Op, known: &[DelegationNode]) -> Ruling {
    let missing = |id: &str| !known.iter().any(|n| n.id == id);
    let edge = match op {
        Op::AddEdge { credential } if missing(&credential.parent) => {
            Some(format!("unknown node `{}`", credential.parent))
        }
        _ => None,
    };
    let checks = match op {
        Op::DeclareRevocation { revocation } => match &revocation.quorum {
            Some(q) => trials(&q.signatures, &all_keys()),
            None => Vec::new(),
        },
        _ => Vec::new(),
    };
    Ruling {
        edge,
        ledger: None,
        checks,
    }
}

fn no_ruling() -> Ruling {
    Ruling {
        edge: None,
        ledger: None,
        checks: Vec::new(),
    }
}

fn fixtures() -> Vec<Fixture> {
    let keys = seed_keys();
    let known = build_graph(&keys, &minted(&keys)).nodes;
    seed_ops(&keys, &minted(&keys))
        .into_iter()
        .map(|op| {
            let ruling = ruling_on(&op, &known);
            Fixture { op, ruling }
        })
        .collect()
}

fn now() -> Timestamp {
    at("2026-09-07T00:00:00Z")
}

fn at(s: &str) -> Timestamp {
    Timestamp::parse(s).unwrap()
}

fn t(offset: i64) -> String {
    ts(offset).to_string()
}

fn empty() -> Store {
    Store::open(Vec::new(), false, Vec::new(), now())
}

fn seeded() -> Store {
    Store::open(Vec::new(), true, fixtures(), now())
}

/// The journal of a store: every record through its document.
fn journal(store: &Store) -> Vec<JournalEntry> {
    store
        .log
        .iter()
        .map(|rec| {
            let d = rec.to_json();
            let j = vouch(&d.get("body").unwrap().dup(), &all_keys());
            assert_eq!(&AuditRecord::from_json(&d, &j).unwrap(), rec);
            let Line::Record(record) = scan_line(&journal_line(rec), &j) else {
                panic!("the line is read");
            };
            assert_eq!(&record, rec);
            let ruling = ruling_on(&record.op, &store.graph.nodes);
            JournalEntry { record, ruling }
        })
        .collect()
}

fn request(text: &str) -> Request {
    let (judgements, checks) = match &read_text(text) {
        Ok(d) => {
            let quorum = d.get("quorum").and_then(|q| q.array_at("signatures"));
            let slots = quorum.map_or(Vec::new(), |v| {
                v.iter()
                    .map(|s| SignatureSlot {
                        suite: Suite {
                            name: s.str_at("suite").unwrap().to_string(),
                            signature_len: 64,
                        },
                        key_id: s.str_at("key_id").unwrap().to_string(),
                        signature: unidpp_trust::hex::hex_decode(s.str_at("signature").unwrap())
                            .ok(),
                    })
                    .collect()
            });
            (vouch(d, &all_keys()), trials(&slots, &all_keys()))
        }
        Err(_) => (vouch(&Json::Null, &[]), Vec::new()),
    };
    Request {
        token: None,
        authorization: None,
        body: text.to_string(),
        judgements,
        ruling: Ruling {
            edge: None,
            ledger: None,
            checks,
        },
        now: now(),
    }
}

fn text_of(d: &Json) -> String {
    match d {
        Json::Null => "null".to_string(),
        Json::Bool(b) => b.to_string(),
        Json::Uint(n) => n.to_string(),
        Json::Int(n) => n.to_string(),
        Json::Other(t) => t.clone(),
        Json::Str(s) => Value::String(s.clone()).to_string(),
        Json::Arr(v) => {
            let parts: Vec<String> = v.iter().map(text_of).collect();
            format!("[{}]", parts.join(","))
        }
        Json::Obj(v) => {
            let parts: Vec<String> = v
                .iter()
                .map(|(k, x)| format!("{}:{}", Value::String(k.clone()), text_of(x)))
                .collect();
            format!("{{{}}}", parts.join(","))
        }
    }
}

fn params(pairs: &[(&str, &str)]) -> Params {
    pairs.iter().fold(Params::new(), |p, (k, v)| p.with(k, v))
}

/// The value at a path of member names and indices.
fn pick<'a>(d: &'a Json, path: &str) -> &'a Json {
    path.split('.').fold(d, |d, step| match step.parse::<usize>() {
        Ok(i) => &d.as_array().unwrap()[i],
        Err(_) => d.get(step).unwrap(),
    })
}

fn is_text(d: &Json, path: &str, want: &str) {
    assert_eq!(pick(d, path), &Json::text(want), "{path}");
}

fn is_true(d: &Json, path: &str, want: bool) {
    assert_eq!(pick(d, path), &Json::Bool(want), "{path}");
}

fn is_num(d: &Json, path: &str, want: u64) {
    assert_eq!(pick(d, path).as_u64(), Some(want), "{path}");
}

fn error_text(r: &Reply) -> String {
    r.doc.str_at("error").unwrap().to_string()
}

/// The model's reading of a declaration at an instant.
fn voids(r: &Revocation, t: Timestamp) -> bool {
    let inside = r.window.from.secs <= t.secs && r.window.to.map_or(true, |to| t.secs <= to.secs);
    match r.reason {
        RevocationReason::KeyCompromise { after } => t.secs >= after.secs,
        _ => inside,
    }
}

fn readings(store: &Store, t: Timestamp) -> Vec<Reading> {
    store
        .ledger
        .iter()
        .map(|r| Reading {
            voids: voids(r, t),
            checks: r
                .quorum
                .as_ref()
                .map_or(Vec::new(), |q| trials(&q.signatures, &all_keys())),
        })
        .collect()
}

fn revocations_with(store: &Store, pairs: &[(&str, &str)]) -> Reply {
    let t = pairs
        .iter()
        .find(|(k, _)| *k == "at")
        .and_then(|(_, v)| Timestamp::parse(v).ok())
        .unwrap_or_else(now);
    revocations(store, &readings(store, t), &params(pairs), now())
}

/// The row of a reason token.
fn row<'a>(r: &'a Reply, token: &str) -> &'a Json {
    r.doc
        .array_at("revocations")
        .unwrap()
        .iter()
        .find(|v| v.get("reason").unwrap().str_at("token") == Some(token))
        .unwrap()
}

fn entry_checks(master: &MasterList) -> Vec<EntryChecks> {
    master
        .entries
        .iter()
        .map(|e| {
            let slots: Vec<SignatureSlot> = e.attestations.iter().map(|a| a.slot.dup()).collect();
            EntryChecks {
                node: e.node.clone(),
                checks: trials(&slots, &all_keys()),
            }
        })
        .collect()
}

// ---------------------------------------------------------------------------
// Seed fixtures
// ---------------------------------------------------------------------------

#[test]
fn seed_ops_replay_into_a_complete_graph() {
    let keys = seed_keys();
    let ref_graph = build_graph(&keys, &minted(&keys));
    let replayed = seeded().graph;
    assert_eq!(replayed.nodes.len(), ref_graph.nodes.len());
    assert_eq!(replayed.edges.len(), ref_graph.edges.len());
    let hop1 = replayed
        .edges
        .iter()
        .find(|e| e.parent == "eu-root")
        .expect("root → notified edge");
    assert_eq!(hop1.signatures.len(), 2);
    assert!(hop1.signatures.iter().all(|s| s.key_id == keys.root.key_id));
    assert_eq!(replayed, ref_graph);
}

#[test]
fn ledger_mirrors_misissuance_scenario() {
    let keys = seed_keys();
    let ledger = build_ledger(&keys, &minted(&keys));
    assert_eq!(ledger.len(), 2);
    let retro = ledger.iter().find(|r| r.reason.is_retroactive()).unwrap();
    assert_eq!(retro.reason.token(), "misissuance");
    // The retroactive declaration voids at T0+5000 (in window).
    assert!(voids(retro, ts(5_000)));
    // And re-validates before/after.
    assert!(!voids(retro, ts(2_500)));
    assert!(!voids(retro, ts(9_000)));
    // The prospective declaration is a KeyCompromise after T0+9500.
    let pros = ledger.iter().find(|r| !r.reason.is_retroactive()).unwrap();
    assert_eq!(pros.reason.token(), "key-compromise");
    assert!(!voids(pros, ts(9_000)));
    assert!(voids(pros, ts(9_600)));
}

/// The master list has a quorate entry for the node.
fn accepts(master: &MasterList, node: &str) -> bool {
    find_by_key(&master.entries, node).is_some_and(|entry| {
        let slots: Vec<SignatureSlot> = entry.attestations.iter().map(|a| a.slot.dup()).collect();
        master_entry_quorate(entry, &master.witnesses, master.m, &trials(&slots, &all_keys()))
    })
}

#[test]
fn master_list_is_quorate_for_seeded_root() {
    let keys = seed_keys();
    let master = build_master_list(&keys, &minted(&keys));
    assert!(accepts(&master, "eu-root"));
    assert_eq!(master.m, 2);
    assert_eq!(master.k, 3);
}

#[test]
fn trust_lists_trust_seeded_root() {
    let lists = build_trust_lists();
    assert_eq!(lists.len(), 1);
    let l = &lists[0];
    assert_eq!(l.jurisdiction, "EU");
    assert_eq!(l.framework.as_deref(), Some("espr"));
    assert!(find_by_key(&l.list.entries, "eu-root")
        .unwrap()
        .in_force_at(ts(0)));
}

// ---------------------------------------------------------------------------
// Store
// ---------------------------------------------------------------------------

#[test]
fn seed_replays_into_full_graph_and_lists() {
    let store = seeded();
    assert!(store.trust_list("EU").is_some());
    assert!(accepts(&store.master, "eu-root"));
    assert_eq!(store.ledger.len(), 2);
    assert_eq!(store.log.len(), 18);
    assert!(!store.graph.nodes.is_empty());
    assert_eq!(store.jurisdictions(), vec!["EU"]);
}

#[test]
fn seed_is_skipped_when_journal_replayed_content() {
    let first = seeded();
    let second = Store::open(journal(&first), true, fixtures(), now());
    assert_eq!(second.log, first.log);
    assert!(second.trust_list("EU").is_some());
    assert!(accepts(&second.master, "eu-root"));
}

#[test]
fn register_node_is_idempotent_and_merges_keys() {
    let mut store = empty();
    let node = |k: &PublicKey| DelegationNode {
        id: "n".to_string(),
        kind: NodeKind::Root,
        keys: vec![RegisteredKey {
            key_id: k.key_id.clone(),
            public: k.dup(),
        }],
    };
    let (k1, k2) = (key("ed25519", 1), key("ecdsa-p256", 2));
    store.register_node(node(&k1), now(), &no_ruling()).unwrap();
    store.register_node(node(&k2), now(), &no_ruling()).unwrap();
    assert_eq!(find_by_key(&store.graph.nodes, "n").unwrap().keys.len(), 2);
    store.register_node(node(&k2), now(), &no_ruling()).unwrap();
    assert_eq!(find_by_key(&store.graph.nodes, "n").unwrap().keys.len(), 2);
}

#[test]
fn add_edge_rejects_unknown_node_and_unsiged() {
    let mut store = empty();
    let credential = DelegationCredential {
        parent: "ghost".to_string(),
        child: "child".to_string(),
        scope: Json::object(),
        signatures: vec![signed(&key("ed25519", 1))],
    };
    let op = Op::AddEdge {
        credential: credential.dup(),
    };
    let ruling = ruling_on(&op, &store.graph.nodes);
    assert!(matches!(
        store.add_edge(credential, now(), &ruling),
        Err(StoreError::Invalid(_))
    ));
    assert!(store.log.is_empty());
}

#[test]
fn upsert_trust_entry_requires_list_first() {
    let mut store = empty();
    let entry = TrustListEntryRecord {
        node: "x".to_string(),
        not_before: at("2026-01-01T00:00:00Z"),
        superseded_at: None,
    };
    let err = store
        .upsert_trust_entry("EU".to_string(), entry, now(), &no_ruling())
        .unwrap_err();
    assert!(matches!(err, StoreError::NotFound(_)));
    assert_eq!(err.to_string(), "not found: no trust list `EU`");
}

#[test]
fn master_witness_set_rejects_bad_m() {
    let mut store = empty();
    let one = || {
        vec![Witness {
            node: "w".to_string(),
            public: key("ed25519", 1),
        }]
    };
    assert!(store.set_witnesses(0, one(), now(), &no_ruling()).is_err());
    assert!(store.set_witnesses(2, one(), now(), &no_ruling()).is_err());
    assert!(store.set_witnesses(1, one(), now(), &no_ruling()).is_ok());
}

fn misissuance(subject: &str, window: Interval, quorum: Option<QuorumAttestation>) -> Revocation {
    Revocation {
        subject: RevokedSubject::Key(subject.to_string()),
        reason: RevocationReason::Misissuance,
        declared_at: at("1970-01-12T16:53:20Z"),
        window,
        declared_by: "eu-super-quorum".to_string(),
        quorum,
    }
}

#[test]
fn declare_retroactive_without_quorum_is_rejected() {
    let mut store = seeded();
    let rev = misissuance(
        "k-missing",
        Interval {
            from: at("1970-01-12T14:36:40Z"),
            to: Some(at("1970-01-12T15:50:00Z")),
        },
        None,
    );
    let err = store
        .declare_revocation(rev, now(), &no_ruling())
        .unwrap_err();
    assert!(matches!(err, StoreError::Invalid(_)));
    assert_eq!(store.ledger.len(), 2);
}

#[test]
fn declare_retroactive_with_below_threshold_quorum_is_rejected() {
    let mut store = seeded();
    let keys = seed_keys();
    let att = QuorumAttestation {
        quorum: "eu-super-quorum".to_string(),
        threshold: 2,
        signatures: vec![signed(&keys.quorum_members[0])],
    };
    let mut rev = misissuance(
        "k-below",
        Interval {
            from: Timestamp::from_secs(0),
            to: None,
        },
        Some(att),
    );
    rev.declared_at = Timestamp::from_secs(1);
    let ruling = ruling_on(
        &Op::DeclareRevocation {
            revocation: rev.dup(),
        },
        &store.graph.nodes,
    );
    let err = store.declare_revocation(rev, now(), &ruling).unwrap_err();
    assert!(matches!(err, StoreError::Invalid(_)));
}

#[test]
fn journal_round_trip_includes_seed_and_mutation() {
    let mut store = seeded();
    let entry = TrustListEntryRecord {
        node: "more".to_string(),
        not_before: at("2026-09-07T00:00:00Z"),
        superseded_at: None,
    };
    store
        .upsert_trust_entry("EU".to_string(), entry, now(), &no_ruling())
        .unwrap();
    let last = store.log.last().unwrap().seq;
    let back = Store::open(journal(&store), true, fixtures(), now());
    assert!(back.log.last().unwrap().seq >= last);
    let list = back.trust_list("EU").unwrap();
    assert!(find_by_key(&list.entries, "more").is_some());
    assert_eq!(back.graph, store.graph);
    assert_eq!(back.master, store.master);
    assert_eq!(back.ledger, store.ledger);
    assert_eq!(back.log, store.log);
}

#[test]
fn journal_lines_are_read_or_reported() {
    let store = seeded();
    let d = store.log[0].to_json();
    let j = vouch(&d, &all_keys());
    assert!(read_line("  ", &Err("eof".to_string()), &j).is_none());
    let torn = read_line("{\"seq\":", &Err("eof".to_string()), &j).unwrap();
    assert_eq!(torn.unwrap_err(), "eof");
    let missing = read_line("{}", &Ok(Json::object()), &j).unwrap();
    assert_eq!(missing.unwrap_err(), "missing `seq`");
    let rec = read_line("x", &Ok(d), &j).unwrap().unwrap();
    assert_eq!(rec, store.log[0]);

    assert!(matches!(scan_line(" \t", &j), Line::Blank));
    let Line::Corrupt(torn) = scan_line("{\"seq\":", &j) else {
        panic!("a torn line");
    };
    assert_eq!(torn, "EOF while parsing a value at line 1 column 7");
    assert!(matches!(scan_line("{}", &j), Line::Corrupt(e) if e == "missing `seq`"));
    let line = journal_line(&store.log[0]);
    assert!(line.starts_with("{\"body\":{") && !line.contains('\n'));
    assert!(matches!(scan_line(&line, &j), Line::Record(r) if r == store.log[0]));
    let key = one_line(&public_to_value(&all_keys()[0]));
    let set = |seq: &str| {
        format!(
            r#"{{{seq}"recorded_at":"2026-09-07T00:00:00Z","op":"set-witnesses",
            "body":{{"m":1,"witnesses":[{key}]}}}}"#
        )
    };
    let mut j = vouch(&read_text(&set("")).unwrap(), &all_keys());
    j.nodes.push(TextVerdict {
        raw: String::new(),
        accepted: false,
        text: "node id is empty".to_string(),
    });
    let Line::Corrupt(nameless) = scan_line(&set("\"seq\":1,"), &j) else {
        panic!("a witness without a node");
    };
    assert_eq!(nameless, "node id is empty");
    assert!(matches!(scan_line(&set(""), &j), Line::Corrupt(e) if e == "missing `seq`"));
}

#[test]
fn registered_keys_are_the_union() {
    let mut store = empty();
    let node = |keys: &[u8]| DelegationNode {
        id: "n".to_string(),
        kind: NodeKind::Root,
        keys: keys
            .iter()
            .map(|n| {
                let public = key("ed25519", *n);
                RegisteredKey {
                    key_id: public.key_id.clone(),
                    public,
                }
            })
            .collect(),
    };
    store.register_node(node(&[1, 2]), now(), &no_ruling()).unwrap();
    store.register_node(node(&[3, 2, 3]), now(), &no_ruling()).unwrap();
    let ids: Vec<String> = store.graph.nodes[0].keys.iter().map(|k| k.key_id.clone()).collect();
    let want: Vec<String> = [1, 2, 3].iter().map(|n| key("ed25519", *n).key_id).collect();
    assert_eq!(ids, want);
}

#[test]
fn applying_a_registration_again_changes_nothing() {
    let mut store = seeded();
    let public = key("ed25519", 99);
    let op = Op::RegisterNode {
        node: DelegationNode {
            id: "eu-root".to_string(),
            kind: NodeKind::Delegated,
            keys: vec![RegisteredKey {
                key_id: public.key_id.clone(),
                public,
            }],
        },
    };
    let others = (store.graph.edges.dup(), store.master.dup(), store.ledger.dup());
    store.apply_op(&op, &no_ruling()).unwrap();
    let once = store.graph.dup();
    let root = find_by_key(&once.nodes, "eu-root").unwrap();
    assert_eq!((root.keys.len(), &root.kind), (2, &NodeKind::Delegated));
    store.apply_op(&op, &no_ruling()).unwrap();
    assert_eq!(store.graph, once);
    assert_eq!((store.graph.edges.dup(), store.master.dup(), store.ledger.dup()), others);
    assert_eq!(store.log.len(), 18);
}

#[test]
fn windows_are_read_in_every_form() {
    let (a, b) = (at("2026-01-01T00:00:00Z"), at("2026-02-01T00:00:00Z"));
    for (text, want) in [
        ("2026-01-01T00:00:00Z..2026-02-01T00:00:00Z", Some((a, Some(b)))),
        ("2026-01-01T00:00:00Z,2026-02-01T00:00:00Z", Some((a, Some(b)))),
        ("2026-01-01T00:00:00Z..", Some((a, None))),
        ("2026-01-01T00:00:00Z,", Some((a, None))),
        (" ", None),
    ] {
        assert_eq!(parse_window_filter(&params(&[("window", text)])).unwrap(), want, "{text}");
    }
}

#[test]
fn jurisdictions_are_matched_in_any_case() {
    let mut store = seeded();
    assert!(store.trust_list("eu").is_some());
    let err = store
        .register_trust_list("eu".to_string(), None, now(), &no_ruling())
        .unwrap_err();
    assert_eq!(
        err.to_string(),
        "conflict: trust list `eu` is already registered"
    );
}

// ---------------------------------------------------------------------------
// Reads
// ---------------------------------------------------------------------------

#[test]
fn discovery_names_only_contracted_endpoints() {
    let contracted = [
        paths::ROOT,
        paths::HEALTHZ,
        paths::KEYRING,
        paths::GRAPH,
        paths::ANCHOR_BUNDLE,
        paths::TRUST_LISTS,
        paths::TRUST_LIST_ONE,
        paths::TRUST_LIST_ENTRIES,
        paths::MASTER_LIST,
        paths::MASTER_LIST_WITNESSES,
        paths::MASTER_LIST_ENTRIES,
        paths::REVOCATIONS,
        paths::OPERATOR,
        paths::EVIDENCE,
        paths::EVIDENCE_ONE,
        paths::ADMIN_LOG,
        paths::ADMIN_EVIDENCE,
        paths::NODES,
        paths::EDGES,
    ];
    let text = text_of(&discovery("0.0.0", "dev", true, now()).doc);
    let mut seen = 0;
    for verb in ["GET", "POST", "PUT", "DELETE", "PATCH"] {
        let mut rest = text.as_str();
        while let Some(pos) = rest.find(verb) {
            let after = &rest[pos + verb.len()..];
            rest = after;
            let Some(path) = after.strip_prefix(" /") else {
                continue;
            };
            let taken: String = path
                .chars()
                .take_while(|c| !matches!(c, ' ' | '"' | '<'))
                .collect();
            let path = taken.split('?').next().unwrap_or("").to_string();
            if path.is_empty() {
                continue;
            }
            seen += 1;
            let full = format!("/{path}");
            assert!(
                contracted.contains(&full.as_str()),
                "discovery names `{verb} {full}` — no such operation in the contract"
            );
        }
    }
    assert!(seen > 15);
}

#[test]
fn discovery_health_and_keyring_are_stamped() {
    let d = discovery("1.2.3", "dev", false, now());
    assert_eq!(d.status, 200);
    is_text(&d.doc, "service", "unidpp-trust");
    is_text(&d.doc, "version", "1.2.3");
    is_text(&d.doc, "signing.domain", "tree-head");
    is_text(&d.doc, "revocation_semantics.retroactive_reasons.0", "misissuance");
    is_text(&d.doc, "seed_fixtures.source", FIXTURE_SOURCE);
    is_true(&d.doc, "seed_fixtures.enabled_by_default", false);
    let h = healthz(now());
    is_text(&h.doc, "status", "ok");
    is_text(&h.doc, "as_of", "2026-09-07T00:00:00Z");
    let k = keyring(doc(r#"{"mode": "seeded-dev"}"#), now());
    assert_eq!(k.cache, CachePolicy::PointInTime);
    is_text(&k.doc, "as_of", "2026-09-07T00:00:00Z");
    assert_eq!(keyring(Json::Null, now()).doc, Json::Null);
}

#[test]
fn the_graph_and_the_bundle_render_the_store() {
    let store = seeded();
    let g = graph(&store, &params(&[]), now());
    is_num(&g.doc, "node_count", 10);
    is_num(&g.doc, "edge_count", 2);
    let b = anchor_bundle(&store, &params(&[("jurisdiction", "eu")]), now());
    assert_eq!(b.status, 200);
    let e = anchor_bundle(&store, &params(&[]), now());
    assert_eq!(e.status, 400);
    assert_eq!(error_text(&e), "`jurisdiction` query parameter is required");
    is_text(&e.doc, "as_of", "2026-09-07T00:00:00Z");
    assert_eq!(
        anchor_bundle(&store, &params(&[("jurisdiction", "XX")]), now()).status,
        404
    );
}

#[test]
fn the_past_is_rendered_as_it_was() {
    let mut store = seeded();
    let later = at("2026-09-08T00:00:00Z");
    let mut q = request(r#"{"id": "late-node", "kind": "root", "keys": []}"#);
    q.now = later;
    let r = register_node(&mut store, q);
    assert_eq!(r.status, 201, "{}", text_of(&r.doc));
    is_text(&r.doc, "as_of", "2026-09-08T00:00:00Z");
    let list = master_list(&store, &entry_checks(&store.master), &params(&[]), later).doc;
    let witnesses = text_of(list.get("witnesses").unwrap());
    let mut q = request(&format!(r#"{{"m": 1, "witnesses": {witnesses}}}"#));
    q.now = later;
    assert_eq!(set_witnesses(&mut store, q).status, 201);
    let nodes = |when: &[(&str, &str)]| graph(&store, &params(when), later).doc.u64_at("node_count");
    assert_eq!(nodes(&[]), Some(11));
    assert_eq!(nodes(&[("at", "2026-09-08T00:00:00Z")]), Some(11));
    assert_eq!(nodes(&[("at", "2026-09-07T12:00:00Z")]), Some(10));
    assert_eq!(nodes(&[("at", &t(0))]), Some(10));
    assert_eq!(nodes(&[("at", &t(-1))]), Some(0));
    let before = at("2026-09-07T00:00:00Z");
    let past = store.as_of(before);
    assert_eq!(past.log.len(), 18);
    assert_eq!(past.rulings.len(), 18);
    let p = params(&[("at", "2026-09-07T00:00:00Z")]);
    let r = master_list(&store, &entry_checks(&store.master_as_of(before)), &p, later);
    is_num(&r.doc, "m_of_k.m", 2);
    let r = master_list(&store, &entry_checks(&store.master), &params(&[]), later);
    is_num(&r.doc, "m_of_k.m", 1);
    let bundle = |when: &str| {
        anchor_bundle(&store, &params(&[("jurisdiction", "EU"), ("at", when)]), later)
    };
    is_num(&bundle("2026-09-07T00:00:00Z").doc, "master.m", 2);
    is_num(&bundle("2026-09-08T00:00:00Z").doc, "master.m", 1);
    assert_eq!(bundle(&t(0)).status, 200);
    let none = bundle(&t(-1));
    assert_eq!(none.status, 404);
    is_text(&none.doc, "as_of", "2026-09-08T00:00:00Z");
}

#[test]
fn the_scenario_is_served_at_its_instants() {
    let store = seeded();
    assert_eq!(store.fixtures, 18);
    assert!(store.log.iter().all(|rec| rec.recorded_at == now()));
    for offset in [0, 5_000, 10_000, 20_000] {
        let when = t(offset);
        let g = graph(&store, &params(&[("at", &when)]), now());
        is_num(&g.doc, "node_count", 10);
        is_num(&g.doc, "edge_count", 2);
        is_text(&g.doc, "as_of", &when);
        let p = params(&[("jurisdiction", "EU"), ("at", &when)]);
        let b = anchor_bundle(&store, &p, now());
        assert_eq!(b.status, 200);
        is_text(&b.doc, "trust_lists.0.entries.0.node", "eu-root");
        is_num(&b.doc, "master.m", 2);
    }
    for (offset, declared) in [(0, 0), (9_999, 0), (10_000, 1), (10_499, 1), (10_500, 2)] {
        assert_eq!(store.as_of(ts(offset)).ledger.len(), declared, "{offset}");
    }
    assert_eq!(store.as_of(ts(-1)).log.len(), 0);
    // After a restart the fixtures are still known, seeding wanted or not.
    for seed in [true, false] {
        let back = Store::open(journal(&store), seed, fixtures(), now());
        assert_eq!(back.fixtures, 18);
        assert_eq!(back.as_of(ts(0)).graph, store.graph);
    }
    // A journal that starts otherwise has none.
    let mut other = empty();
    let node = DelegationNode {
        id: "witness-1".to_string(),
        kind: NodeKind::Root,
        keys: Vec::new(),
    };
    other.register_node(node, now(), &no_ruling()).unwrap();
    let mut entries = journal(&other);
    entries.extend(journal(&store));
    let back = Store::open(entries, true, fixtures(), now());
    assert_eq!((back.fixtures, back.log.len()), (0, 19));
    assert_eq!(back.as_of(ts(0)).log.len(), 0);
    assert_eq!(back.as_of(now()).log.len(), 19);
}

#[test]
fn the_master_list_is_held_against_the_witnesses_of_the_instant() {
    let mut store = seeded();
    let later = at("2026-09-08T00:00:00Z");
    let one = |n: u8| Witness {
        node: "witness-9".to_string(),
        public: key("ed25519", n),
    };
    store.set_witnesses(1, vec![one(99)], later, &no_ruling()).unwrap();
    let entry = MasterListEntry {
        node: "eu-notified".to_string(),
        attestations: vec![WitnessAttestation {
            witness: "witness-9".to_string(),
            at: later,
            slot: signed(&key("ed25519", 99)),
        }],
    };
    store.upsert_master_entry(entry, later, &no_ruling()).unwrap();
    let read = |when: &str| {
        let checks = entry_checks(&store.master_as_of(at(when)));
        master_list(&store, &checks, &params(&[("at", when)]), later).doc
    };
    // Then the witnesses of the fixtures: the later entry is listed, and none
    // of them vouches for it.
    let d = read(&t(6_000));
    is_num(&d, "m_of_k.m", 2);
    is_num(&d, "m_of_k.k", 3);
    is_text(&d, "entries.0.node", "eu-notified");
    is_num(&d, "entries.0.verified_witnesses", 0);
    is_true(&d, "entries.0.quorate", false);
    is_text(&d, "entries.1.node", "eu-root");
    is_num(&d, "entries.1.verified_witnesses", 3);
    is_true(&d, "entries.1.quorate", true);
    // Now the one witness that replaced them.
    let d = read("2026-09-08T00:00:00Z");
    is_num(&d, "m_of_k.k", 1);
    is_true(&d, "entries.0.quorate", true);
    is_true(&d, "entries.1.quorate", false);
    // Before any witness was named.
    let d = read(&t(-1));
    is_num(&d, "m_of_k.k", 0);
    is_true(&d, "entries.1.quorate", false);
}

#[test]
fn jurisdictions_are_sorted() {
    let mut store = seeded();
    for name in ["us", "DE", "jp"] {
        store.register_trust_list(name.to_string(), None, now(), &no_ruling()).unwrap();
    }
    assert_eq!(store.jurisdictions(), vec!["DE", "EU", "JP", "US"]);
}

#[test]
fn lists_are_read_at_an_instant_and_withdrawn() {
    let mut store = seeded();
    let r = trust_lists(&store, &params(&[]), now());
    assert_eq!(r.cache.header_value(), "public, max-age=30, must-revalidate");
    is_num(&r.doc, "count", 1);
    is_text(&r.doc, "trust_lists.0.jurisdiction", "EU");
    is_text(&r.doc, "trust_lists.0.framework", "espr");
    is_text(&r.doc, "trust_lists.0.entries.0.node", "eu-root");
    is_text(&r.doc, "trust_lists.0.entries.0.not_before", &t(0));
    is_true(&r.doc, "trust_lists.0.entries.0.in_force_at_as_of", true);
    let count = |store: &Store, p: &[(&str, &str)]| -> u64 {
        trust_lists(store, &params(p), now())
            .doc
            .u64_at("count")
            .unwrap()
    };
    assert_eq!(count(&store, &[("framework", "espr")]), 1);
    assert_eq!(count(&store, &[("framework", "batt")]), 0);
    assert_eq!(count(&store, &[("jurisdiction", "eu")]), 1);

    let in_force = |store: &Store, when: &str| -> bool {
        let r = trust_list_one(store, "eu", &params(&[("at", when)]), now());
        assert_eq!(r.status, 200);
        assert_eq!(r.cache, CachePolicy::PointInTime);
        pick(&r.doc, "entries.0.in_force_at_as_of") == &Json::Bool(true)
    };
    assert!(!in_force(&store, &t(-1)));
    assert!(in_force(&store, &t(0)));
    assert_eq!(trust_list_one(&store, "XX", &params(&[]), now()).status, 404);

    let body = format!(
        r#"{{"node": "eu-root", "not_before": "{}", "superseded_at": "{}"}}"#,
        t(0),
        t(20_000)
    );
    let r = upsert_trust_entry(&mut store, "EU", request(&body));
    assert_eq!(r.status, 201);
    is_num(&r.doc, "audit_seq", 19);
    assert!(!in_force(&store, &t(25_000)));
    assert!(in_force(&store, &t(19_999)));
    let bad = trust_lists(&store, &params(&[("at", "nonsense")]), now());
    assert_eq!(bad.status, 400);
    assert_eq!(bad.cache.header_value(), "no-store");
}

#[test]
fn the_master_list_is_judged_live() {
    let mut store = seeded();
    let r = master_list(&store, &entry_checks(&store.master), &params(&[]), now());
    is_num(&r.doc, "m_of_k.m", 2);
    is_num(&r.doc, "m_of_k.k", 3);
    assert_eq!(r.doc.array_at("witnesses").unwrap().len(), 3);
    is_text(&r.doc, "entries.0.node", "eu-root");
    is_num(&r.doc, "entries.0.verified_witnesses", 3);
    is_true(&r.doc, "entries.0.quorate", true);
    is_num(&r.doc, "entries.0.threshold_required", 2);
    is_true(&r.doc, "entries.0.attestations.0.verified", true);

    let witnesses = text_of(r.doc.get("witnesses").unwrap());
    let set = |store: &mut Store, m: u64| {
        set_witnesses(
            store,
            request(&format!(r#"{{"m": {m}, "witnesses": {witnesses}}}"#)),
        )
    };
    assert_eq!(set(&mut store, 4).status, 400);
    assert_eq!(set(&mut store, 0).status, 400);
    let r = set(&mut store, 3);
    assert_eq!(r.status, 201);
    is_num(&r.doc, "m", 3);
    is_num(&r.doc, "k", 3);

    let keys = seed_keys();
    let mut entry = find_by_key(&store.master.entries, "eu-root").unwrap().dup();
    entry.attestations.truncate(2);
    let body = text_of(&master_entry_to_value(&entry));
    let r = upsert_master_entry(&mut store, request(&body));
    assert_eq!(r.status, 201, "{}", text_of(&r.doc));
    let r = master_list(&store, &entry_checks(&store.master), &params(&[]), now());
    is_num(&r.doc, "entries.0.verified_witnesses", 2);
    is_true(&r.doc, "entries.0.quorate", false);

    let mut twice = find_by_key(&store.master.entries, "eu-root").unwrap().dup();
    twice.attestations.truncate(1);
    twice.attestations.push(twice.attestations[0].dup());
    assert_eq!(set(&mut store, 2).status, 201);
    let body = text_of(&master_entry_to_value(&twice));
    assert_eq!(upsert_master_entry(&mut store, request(&body)).status, 201);
    let r = master_list(&store, &entry_checks(&store.master), &params(&[]), now());
    is_true(&r.doc, "entries.0.attestations.1.verified", true);
    is_num(&r.doc, "entries.0.verified_witnesses", 1);
    is_true(&r.doc, "entries.0.quorate", false);

    entry.attestations.push(WitnessAttestation {
        witness: "ghost".to_string(),
        at: ts(0),
        slot: signed(&keys.root),
    });
    let body = text_of(&master_entry_to_value(&entry));
    assert_eq!(upsert_master_entry(&mut store, request(&body)).status, 400);
    let e = set_witnesses(&mut store, request(r#"{"witnesses": []}"#));
    assert_eq!(error_text(&e), "`m` (number >= 1) is required");
    let e = set_witnesses(&mut store, request(r#"{"m": 1}"#));
    assert_eq!(error_text(&e), "`witnesses` array is required");
}

#[test]
fn retroactive_windows_void_inside_and_revalidate_outside() {
    let store = seeded();
    let r = revocations_with(&store, &[("at", &t(5_000))]);
    assert_eq!(r.status, 200);
    let mis = row(&r, "misissuance");
    is_text(mis, "window.start", &t(3_000));
    is_text(mis, "window.end", &t(8_000));
    is_text(mis, "declared_at", &t(10_000));
    is_true(mis, "voids_at_as_of", true);
    is_text(mis, "standing_at_as_of", "void-ab-initio");
    is_true(mis, "verifications_at_stand", false);
    is_true(mis, "quorum.quorate", true);
    is_text(mis, "quorum.form", "member-keys");
    is_num(mis, "quorum.verified_count", 3);
    for (offset, standing) in [
        (2_500, "valid"),
        (3_000, "void-ab-initio"),
        (8_000, "void-ab-initio"),
        (8_001, "valid"),
        (9_000, "valid"),
    ] {
        let r = revocations_with(&store, &[("at", &t(offset))]);
        is_text(row(&r, "misissuance"), "standing_at_as_of", standing);
    }
}

#[test]
fn the_cutoff_keeps_earlier_verifications_valid() {
    let store = seeded();
    let r = revocations_with(&store, &[("at", &t(5_000)), ("known_by", &t(9_999))]);
    let mis = row(&r, "misissuance");
    is_true(mis, "known_at_cutoff", false);
    is_true(mis, "voids_at_as_of", false);
    is_true(mis, "verifications_at_stand", true);
    let r = revocations_with(&store, &[("at", &t(5_000)), ("known_by", &t(10_000))]);
    is_text(row(&r, "misissuance"), "standing_at_as_of", "void-ab-initio");
}

#[test]
fn prospective_reasons_suspend_and_never_void() {
    let store = seeded();
    let r = revocations_with(&store, &[("at", &t(9_000))]);
    let kc = row(&r, "key-compromise");
    is_text(kc, "reason.after", &t(9_500));
    is_true(kc, "window.open", true);
    is_true(kc, "voids_at_as_of", false);
    assert_eq!(kc.get("quorum"), Some(&Json::Null));
    let r = revocations_with(&store, &[("at", &t(9_900))]);
    is_text(row(&r, "key-compromise"), "standing_at_as_of", "suspended-from");
    let r = revocations_with(&store, &[("at", &t(9_000)), ("known_by", &t(11_000))]);
    let kc = row(&r, "key-compromise");
    is_true(kc, "known_at_cutoff", true);
    is_true(kc, "voids_at_as_of", false);
}

#[test]
fn revocations_are_filtered_and_parameters_checked() {
    let store = seeded();
    let label = format!("key:{}", seed_keys().issuer.key_id);
    let count = |p: &[(&str, &str)]| {
        let r = revocations_with(&store, p);
        assert_eq!(r.status, 200, "{}", text_of(&r.doc));
        r.doc.u64_at("count").unwrap()
    };
    assert_eq!(count(&[("subject", &label)]), 2);
    assert_eq!(count(&[("subject", "key:")]), 2);
    assert_eq!(count(&[("subject", "node:")]), 0);
    assert_eq!(count(&[("retroactive", "TRUE")]), 1);
    assert_eq!(count(&[("retroactive", "no")]), 1);
    let window = |a: i64, b: i64| format!("{}..{}", t(a), t(b));
    assert_eq!(count(&[("window", &window(3_500, 4_000))]), 1);
    // A query that encloses the distrust window overlaps it, and an open
    // distrust window reaches every later query.
    assert_eq!(count(&[("window", &window(1_000, 9_000))]), 1);
    assert_eq!(count(&[("window", &window(20_000, 30_000))]), 1);
    assert_eq!(count(&[("window", &window(8_000, 9_500))]), 2);
    assert_eq!(count(&[("window", &format!("{},", t(9_000)))]), 1);
    for (p, part) in [
        (("window", "abc"), "`window` must be"),
        (("at", "nonsense"), "`at`"),
        (("known_by", "zzz"), "`known_by`: "),
        (("retroactive", "Maybe"), "`retroactive` must be true/false: `maybe`"),
    ] {
        let r = revocations_with(&store, &[p]);
        assert_eq!(r.status, 400);
        assert!(error_text(&r).contains(part), "{}", error_text(&r));
    }
    let w = parse_window_filter(&params(&[("window", "2026-01-01..")])).unwrap();
    assert_eq!(w, Some((at("2026-01-01"), None)));
}

#[test]
fn operators_show_their_directory() {
    let store = seeded();
    let id = Some("eu-notified".to_string());
    let p = params(&[("at", &t(5_000))]);
    let r = operator_view(&store, "eu-notified", &id, "Delegated", &p, now());
    assert_eq!(r.status, 200);
    assert_eq!(r.cache, CachePolicy::PointInTime);
    is_text(&r.doc, "operator", "eu-notified");
    is_text(&r.doc, "kind", "Delegated");
    is_text(&r.doc, "keys.0.suite", "ecdsa-p256");
    is_text(&r.doc, "delegated_by.0.parent", "eu-root");
    is_text(&r.doc, "delegates.0.child", "issuer-key-a");
    assert_eq!(r.doc.get("master_list"), Some(&Json::Null));
    let root = operator_view(
        &store,
        "eu-root",
        &Some("eu-root".to_string()),
        "Root",
        &params(&[]),
        now(),
    );
    is_text(&root.doc, "trust_list_memberships.0.jurisdiction", "EU");
    is_num(&root.doc, "master_list.attested_by", 3);
    is_text(&root.doc, "master_list.witnesses.0", "witness-1");
    let e = operator_view(&store, "a b", &None, "", &params(&[]), now());
    assert_eq!(error_text(&e), "`a b` is not a valid operator node id");
    let e = operator_view(
        &store,
        "ghost",
        &Some("ghost".to_string()),
        "",
        &params(&[]),
        now(),
    );
    assert_eq!((e.status, error_text(&e)), (404, "no operator `ghost`".to_string()));
}

// ---------------------------------------------------------------------------
// Writes
// ---------------------------------------------------------------------------

#[test]
fn mutations_and_the_log_need_the_token() {
    let mut store = seeded();
    let token = Some("s3cret".to_string());
    let with = |authorization: Option<&str>| {
        let mut r = request(r#"{"jurisdiction": "DE"}"#);
        r.token = token.clone();
        r.authorization = authorization.map(str::to_string);
        r
    };
    assert_eq!(register_trust_list(&mut store, with(None)).status, 401);
    let r = register_trust_list(&mut store, with(Some("Bearer wrong")));
    assert_eq!((r.status, error_text(&r)), (401, "unauthorized".to_string()));
    let r = register_trust_list(&mut store, with(Some("Bearer s3cret")));
    assert_eq!(r.status, 201);
    is_text(&r.doc, "jurisdiction", "DE");

    assert_eq!(
        admin_log(&store, &token, &None, &params(&[]), now()).status,
        401
    );
    let bearer = Some("Bearer s3cret".to_string());
    let r = admin_log(&store, &token, &bearer, &params(&[]), now());
    is_num(&r.doc, "total", 19);
    let records = r.doc.array_at("records").unwrap();
    let last = records.last().unwrap();
    is_text(last, "op", "register-trust-list");
    is_text(last, "body.jurisdiction", "DE");
    let r = admin_log(
        &store,
        &None,
        &None,
        &params(&[("limit", "2"), ("offset", "17")]),
        now(),
    );
    assert_eq!(r.doc.array_at("records").unwrap().len(), 2);
    let r = admin_log(&store, &None, &None, &params(&[("limit", "x")]), now());
    assert_eq!(r.doc.array_at("records").unwrap().len(), 19);
}

#[test]
fn nodes_are_answered_as_they_are_stored() {
    let mut store = empty();
    let (k1, k2) = (key("ed25519", 1), key("ecdsa-p256", 2));
    let body = |k: &PublicKey| {
        text_of(&node_to_value(&DelegationNode {
            id: "n".to_string(),
            kind: NodeKind::Root,
            keys: vec![RegisteredKey {
                key_id: k.key_id.clone(),
                public: k.dup(),
            }],
        }))
    };
    let r = register_node(&mut store, request(&body(&k1)));
    assert_eq!(r.status, 201, "{}", text_of(&r.doc));
    is_num(&r.doc, "audit_seq", 1);
    let r = register_node(&mut store, request(&body(&k2)));
    is_num(&r.doc, "audit_seq", 2);
    assert_eq!(r.doc.array_at("keys").unwrap().len(), 2);
    assert_eq!(r.cache, CachePolicy::NoStore);
    let e = register_node(&mut store, request("{"));
    assert!(error_text(&e).starts_with("invalid JSON body: "));
    assert_eq!(store.log.len(), 2);
}

#[test]
fn edges_are_refused_as_the_model_rules() {
    let mut store = seeded();
    let body = r#"{"parent": "eu-root", "child": "issuer-key-a", "scope": {}, "signatures": []}"#;
    let mut r = request(body);
    r.ruling.edge = Some("scope violation".to_string());
    let e = add_edge(&mut store, r);
    assert_eq!((e.status, error_text(&e)), (400, "scope violation".to_string()));
    let r = add_edge(&mut store, request(body));
    assert_eq!(r.status, 201, "{}", text_of(&r.doc));
    assert_eq!(store.graph.edges.len(), 3);
}

#[test]
fn lists_register_with_their_entries() {
    let mut store = seeded();
    let conflict = register_trust_list(&mut store, request(r#"{"jurisdiction": "EU"}"#));
    assert_eq!(conflict.status, 409);
    let e = register_trust_list(&mut store, request(r#"{"framework": "x"}"#));
    assert_eq!(error_text(&e), "`jurisdiction` is required");
    let e = register_trust_list(&mut store, request(r#"{"jurisdiction": "a/b"}"#));
    assert_eq!(
        error_text(&e),
        "`jurisdiction` must be 1-256 characters without `/` or whitespace"
    );
    let body = format!(
        r#"{{"jurisdiction": " jp ", "framework": "meti",
            "entries": [{{"node": "jp-root", "not_before": "{}"}}]}}"#,
        t(0)
    );
    let r = register_trust_list(&mut store, request(&body));
    assert_eq!(r.status, 201, "{}", text_of(&r.doc));
    is_text(&r.doc, "jurisdiction", "JP");
    is_num(&r.doc, "audit_seq", 19);
    assert_eq!(store.log.len(), 20);
    // The entries before a bad one stay, and so does the list.
    let body = format!(
        r#"{{"jurisdiction": "KR", "entries": [{{"node": "a", "not_before": "{}"}}, {{}}]}}"#,
        t(0)
    );
    assert_eq!(register_trust_list(&mut store, request(&body)).status, 400);
    let list = store.trust_list("KR").unwrap();
    assert_eq!(list.entries.len(), 1);
    let r = register_trust_list_in_room(&mut store, request(r#"{"jurisdiction": "FR"}"#));
    assert_eq!(r.unwrap().status, 201);
    assert!(store.trust_list("fr").is_some());
    assert!(validate_token("", "x").is_err());
}

#[test]
fn declarations_are_judged_on_the_merits() {
    let mut store = seeded();
    let keys = seed_keys();
    let issuer = keys.issuer.key_id.clone();
    let body = format!(
        r#"{{"subject": {{"kind": "key", "id": "{issuer}"}},
            "reason": {{"token": "fraudulent-issuance"}}, "declared_at": "{}",
            "window": {{"start": "{}", "end": "{}"}}, "declared_by": "eu-super-quorum"}}"#,
        t(12_000),
        t(11_000),
        t(12_000)
    );
    let e = declare_revocation(&mut store, request(&body));
    assert_eq!(e.status, 422);
    assert!(error_text(&e).contains("requires a quorum attestation"));

    let att = |signers: &[PublicKey]| QuorumAttestation {
        quorum: "eu-super-quorum".to_string(),
        threshold: 2,
        signatures: signers.iter().map(signed).collect(),
    };
    let window = Interval {
        from: ts(6_000),
        to: Some(ts(7_000)),
    };
    let below = misissuance(&issuer, window, Some(att(&keys.quorum_members[..1])));
    let e = declare_revocation(&mut store, request(&text_of(&revocation_to_value(&below))));
    assert_eq!(e.status, 422);
    assert!(error_text(&e).contains("does not reach the threshold"));

    let mut fraud = misissuance(&issuer, window, Some(att(&keys.quorum_members)));
    fraud.reason = RevocationReason::FraudulentIssuance;
    let r = declare_revocation(&mut store, request(&text_of(&revocation_to_value(&fraud))));
    assert_eq!(r.status, 201, "{}", text_of(&r.doc));
    is_true(&r.doc, "reason.retroactive", true);
    let r = revocations_with(&store, &[("at", &t(6_500))]);
    is_text(
        row(&r, "fraudulent-issuance"),
        "standing_at_as_of",
        "void-ab-initio",
    );

    let pros = |subject: &str, reason: &str, window: &str| {
        format!(
            r#"{{"subject": {subject}, "reason": {reason}, "declared_at": "{}",
                "window": {window}, "declared_by": "eu-root"}}"#,
            t(13_000)
        )
    };
    let subject = r#"{"kind": "node", "id": "eu-notified"}"#;
    let open = format!(r#"{{"start": "{}"}}"#, t(13_000));
    let cessation = r#"{"token": "cessation"}"#;
    let r = declare_revocation(&mut store, request(&pros(subject, cessation, &open)));
    assert_eq!(r.status, 201);
    let inverted = format!(r#"{{"start": "{}", "end": "{}"}}"#, t(14_000), t(13_000));
    for bad in [
        pros(subject, r#"{"token": "made-up"}"#, &open),
        pros(subject, r#"{"token": "key-compromise"}"#, &open),
        pros(subject, cessation, &inverted),
        pros(r#"{"kind": "wat", "id": "x"}"#, cessation, &open),
    ] {
        assert_eq!(declare_revocation(&mut store, request(&bad)).status, 400);
    }
}

#[test]
fn a_pinned_group_key_certifies_and_survives_replay() {
    let mut store = empty();
    let group = key("ed25519", 99);
    let rev = Revocation {
        subject: RevokedSubject::Node("haichuan-cn".to_string()),
        reason: RevocationReason::Misissuance,
        declared_at: Timestamp::from_secs(1_872_499_200),
        window: Interval {
            from: Timestamp::from_secs(1_792_876_800),
            to: Some(Timestamp::from_secs(1_871_596_800)),
        },
        declared_by: "e8-retro-quorum".to_string(),
        quorum: Some(QuorumAttestation {
            quorum: "e8-retro-quorum".to_string(),
            threshold: 2,
            signatures: vec![signed(&group)],
        }),
    };
    let body = text_of(&revocation_to_value(&rev));
    let e = declare_revocation(&mut store, request(&body));
    assert_eq!(e.status, 422);
    assert!(error_text(&e).contains("does not reach the threshold"));
    let node = DelegationNode {
        id: "e8-retro-quorum".to_string(),
        kind: NodeKind::ThresholdGroup {
            threshold: 2,
            members: vec![
                "reg-cn-samr".to_string(),
                "reg-eu-espr".to_string(),
                "reg-jp-meti".to_string(),
            ],
        },
        keys: vec![RegisteredKey {
            key_id: group.key_id.clone(),
            public: group.dup(),
        }],
    };
    let r = register_node(&mut store, request(&text_of(&node_to_value(&node))));
    assert_eq!(r.status, 201);
    assert_eq!(declare_revocation(&mut store, request(&body)).status, 201);
    let back = Store::open(journal(&store), false, Vec::new(), now());
    assert_eq!(back.ledger, store.ledger);
    let when = Timestamp::from_secs(1_838_464_000).to_string();
    let r = revocations_with(&back, &[("at", &when)]);
    let v = row(&r, "misissuance");
    is_text(v, "standing_at_as_of", "void-ab-initio");
    is_text(v, "quorum.form", "threshold-group");
    is_true(v, "quorum.group_verified", true);
    is_num(v, "quorum.verified_count", 0);
    is_true(v, "quorum.quorate", true);
}

// ---------------------------------------------------------------------------
// Evidence
// ---------------------------------------------------------------------------

const REPORT: &str = r#"{"id": "e1", "requiredScope": "auditor", "contentHex": "00ff",
    "description": "d", "contentType": "text/plain"}"#;

#[test]
fn evidence_is_registered_under_a_scope() {
    let mut store = empty();
    let r = register_evidence(
        &mut store,
        request(r#"{"id": "e0", "requiredScope": "auditor", "contentHex": "00ff"}"#),
    );
    assert_eq!(r.status, 201);
    is_num(&r.doc, "audit_seq", 1);
    is_text(&r.doc, "id", "e0");
    is_text(&r.doc, "contentType", "application/octet-stream");
    is_text(&r.doc, "description", "");
    is_text(&r.doc, "requiredScope", "auditor");
    is_num(&r.doc, "size", 2);
    assert!(r.doc.get("contentHex").is_none());
    assert_eq!(store.evidence[0].content, vec![0, 255]);
    for (body, part) in [
        ("[]", "body must be a JSON object"),
        (r#"{"id": " "}"#, "`id` is required"),
        (r#"{"id": "e"}"#, "`requiredScope` is required — ungated evidence"),
        (r#"{"id": "e", "requiredScope": "s"}"#, "`contentHex` is required"),
        (
            r#"{"id": "e", "requiredScope": "s", "contentHex": "zz"}"#,
            "`contentHex`: ",
        ),
    ] {
        let r = register_evidence(&mut store, request(body));
        assert_eq!(r.status, 400);
        assert!(error_text(&r).starts_with(part), "{}", error_text(&r));
    }
    assert_eq!(store.log.len(), 1);
    let r = register_evidence(
        &mut store,
        request(r#"{"id": "e0", "requiredScope": "other", "contentHex": ""}"#),
    );
    assert_eq!((r.status, store.log.len()), (409, 1));
    assert_eq!(error_text(&r), "evidence `e0` is already registered");
    let mut q = request(REPORT);
    q.token = Some("secret".to_string());
    assert_eq!(register_evidence(&mut store, q).status, 401);
    assert_eq!(register_evidence(&mut store, request(REPORT)).status, 201);
    let r = evidence_catalogue(&store, now());
    assert_eq!((r.status, r.cache), (200, CachePolicy::Current));
    is_num(&r.doc, "count", 2);
    assert!(!one_line(&r.doc).contains("00ff"));
}

#[test]
fn releases_are_gated_and_journaled() {
    let mut store = empty();
    register_evidence(&mut store, request(REPORT));
    let header = |s: &str| Some(s.to_string());
    let p = params(&[("scope", "a"), ("requester", "r")]);
    assert_eq!(release_scope(&p, &header("b")), "a");
    assert_eq!(release_scope(&params(&[]), &header("b")), "b");
    assert_eq!(release_scope(&params(&[]), &None), "");
    assert_eq!(release_requester(&p, &None), header("r"));
    assert_eq!(release_requester(&params(&[]), &header("b")), header("b"));

    let denied = evidence_release(&mut store, "e1", &p, &header("auditor"), &None, now());
    let denied = denied.unwrap_err();
    assert_eq!(denied.status, 403);
    assert_eq!(error_text(&denied), "evidence `e1` requires scope `auditor`");
    let missing = evidence_release(&mut store, "e2", &p, &None, &None, now()).unwrap_err();
    assert_eq!(missing.status, 404);
    assert_eq!(error_text(&missing), "no evidence `e2`");
    assert_eq!(store.log.len(), 1);

    let e = evidence_release(&mut store, "e1", &params(&[]), &header("auditor"), &header("q"), now())
        .unwrap();
    assert_eq!(e.content, vec![0, 255]);
    assert_eq!(
        store.log[1].op,
        Op::ReleaseEvidence {
            id: "e1".to_string(),
            requester: header("q"),
            scope: "auditor".to_string(),
        }
    );
    let headers = release_headers(&e, now(), &signatures(1));
    assert_eq!(headers[0].1, "text/plain");
    assert_eq!(headers[2], ("x-unidpp-scope".to_string(), "auditor".to_string()));
    assert_eq!(headers.len(), 9);

    let back = Store::open(journal(&store), true, fixtures(), now());
    assert_eq!(back.evidence, store.evidence);
    assert_eq!(back.log, store.log);
    is_text(&store.log[0].to_json(), "body.contentHex", "00ff");
    is_text(&store.log[1].to_json(), "body.requester", "q");
}

// ---------------------------------------------------------------------------
// Signed responses and configuration
// ---------------------------------------------------------------------------

fn signatures(n: u8) -> BodySignatures {
    BodySignatures {
        ed25519: vec![n; 64],
        ed25519_key_id: "k-1".to_string(),
        p256: vec![n + 1; 64],
        p256_key_id: "k-2".to_string(),
    }
}

#[test]
fn signatures_are_carried_in_headers() {
    let h = sign_headers(&signatures(0xab));
    assert_eq!(h[0], ("x-sig-domain".to_string(), "tree-head".to_string()));
    assert_eq!(h[1].1, "ab".repeat(64));
    assert_eq!(h[5].0, "etag");
    assert_eq!(h[5].1, format!("\"sig-{}\"", "ab".repeat(16)));
    let all = signed_headers(now(), CachePolicy::Current, &signatures(1));
    assert_eq!(all[0].1, "application/json");
    assert_eq!(all[1], ("x-as-of".to_string(), "2026-09-07T00:00:00Z".to_string()));
    assert_eq!(all.last().unwrap().0, "cache-control");
}

#[test]
fn configuration_comes_from_the_environment() {
    let c = Config::default();
    assert!(c.seed_fixtures);
    assert!(c.admin_token.is_none());
    for name in Config::env_keys() {
        assert!(name.starts_with("UNIDPP_"), "{name}");
    }
    let c = Config::from_env(
        &params(&[
            ("UNIDPP_TRUST_ADMIN_TOKEN", "s"),
            ("UNIDPP_TRUST_NO_SEED_FIXTURES", "1"),
        ]),
        true,
    );
    assert_eq!(c.admin_token.as_deref(), Some("s"));
    assert!(!c.seed_fixtures);
}

#[test]
fn an_empty_graph_is_a_graph() {
    assert_eq!(
        empty().graph,
        TrustGraph {
            nodes: Vec::new(),
            edges: Vec::new()
        }
    );
}
