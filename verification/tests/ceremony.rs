//! The command line of the quorum ceremony and the documents it leaves.

use serde_json::Value;
use unidpp_trust::ceremony::{
    declare, documents, failure_text, parse, qualifying_set, report, round_error, run,
    second_round_held, AggregateError, Ceremony, USAGE,
};
use unidpp_trust::data::Dup;
use unidpp_trust::json::Json;
use unidpp_trust::judge::{Judgements, PublicVerdict, SuiteVerdict, TextVerdict};
use unidpp_trust::model::{Condition, PublicKey, SignatureSlot, Suite};

/// A key of the suite, told apart by its bytes.
fn key(suite: &str, n: u8) -> PublicKey {
    let len = if suite == "ed25519" { 32 } else { 65 };
    PublicKey {
        suite: suite.to_string(),
        bytes: vec![n; len],
        key_id: format!("k-{:016x}", n),
    }
}

/// A slot that verifies under the key and under no other.
fn signed(k: &PublicKey) -> SignatureSlot {
    SignatureSlot {
        suite: Suite {
            name: k.suite.clone(),
            signature_len: 64,
        },
        key_id: k.key_id.clone(),
        signature: Some(vec![k.bytes[0]; 64]),
    }
}

fn plain(v: &Value) -> Json {
    match v {
        Value::Null => Json::Null,
        Value::Bool(b) => Json::Bool(*b),
        Value::Number(n) => match (n.as_u64(), n.as_i64()) {
            (Some(u), _) => Json::Uint(u),
            (_, Some(i)) => Json::Int(i),
            _ => Json::Other(n.to_string()),
        },
        Value::String(s) => Json::Str(s.clone()),
        Value::Array(a) => Json::Arr(a.iter().map(plain).collect()),
        Value::Object(m) => Json::Obj(m.iter().map(|(k, x)| (k.clone(), plain(x))).collect()),
    }
}

/// The document of a JSON text.
fn doc(text: &str) -> Json {
    plain(&serde_json::from_str(text).unwrap())
}

fn strings(d: &Json, out: &mut Vec<String>) {
    match d {
        Json::Str(s) => out.push(s.clone()),
        Json::Arr(v) => v.iter().for_each(|x| strings(x, out)),
        Json::Obj(v) => v.iter().for_each(|(_, x)| strings(x, out)),
        _ => {}
    }
}

/// Verdicts that take every text without white space for an id, both
/// suites, and the given keys.
fn vouch(d: &Json, keys: &[PublicKey]) -> Judgements {
    let mut texts = Vec::new();
    strings(d, &mut texts);
    let mut more = Vec::new();
    for t in &texts {
        more.extend(t.split_once(':').map(|(_, id)| id.to_string()));
    }
    texts.extend(more);
    let ids = || -> Vec<TextVerdict> {
        texts
            .iter()
            .map(|t| {
                let accepted = !t.is_empty() && !t.contains(' ');
                TextVerdict {
                    raw: t.clone(),
                    accepted,
                    text: if accepted { t.clone() } else { format!("bad id `{t}`") },
                }
            })
            .collect()
    };
    let suite = |name: &str| SuiteVerdict {
        token: name.to_string(),
        suite: Some(Suite {
            name: name.to_string(),
            signature_len: 64,
        }),
        error: String::new(),
    };
    Judgements {
        nodes: ids(),
        keys: ids(),
        passports: ids(),
        suites: vec![suite("ed25519"), suite("ecdsa-p256")],
        publics: keys
            .iter()
            .map(|k| PublicVerdict {
                bytes: k.bytes.clone(),
                public: Some(k.dup()),
                error: String::new(),
            })
            .collect(),
        scope: d.get("scope").map(|s| s.dup()),
        scope_error: String::new(),
        condition: d
            .get("subject")
            .unwrap_or(d)
            .get("condition")
            .map(|c| Condition {
                text: "condition".to_string(),
                doc: c.dup(),
            }),
        condition_error: "no condition".to_string(),
    }
}

const LINE: &str = "declare --quorum e8-retro-quorum --threshold 2 --member reg-cn-samr \
    --member reg-jp-meti --member reg-eu-espr --signer reg-cn-samr --signer reg-jp-meti \
    --subject-kind node --subject-id haichuan-cn --reason misissuance \
    --window-start 2027-01-01T00:00:00Z --window-end 2030-06-01T00:00:00Z \
    --declared-at 2030-06-15T00:00:00Z --out-dir ceremony";

fn words(line: &str) -> Vec<String> {
    line.split_whitespace().map(str::to_string).collect()
}

fn judgements(args: &[String]) -> Judgements {
    vouch(
        &Json::Arr(args.iter().map(|a| Json::text(a)).collect()),
        &[],
    )
}

fn planned(line: &str) -> Result<unidpp_trust::ceremony::Plan, String> {
    let args = words(line);
    let o = run(&args)?;
    declare(&o, &judgements(&args))
}

#[test]
fn the_command_line_states_a_declaration() {
    let p = planned(LINE).unwrap();
    assert_eq!(p.quorum, "e8-retro-quorum");
    assert_eq!(p.threshold, 2);
    assert_eq!(p.members, vec!["reg-cn-samr", "reg-jp-meti", "reg-eu-espr"]);
    assert_eq!(p.revocation.declared_by, "e8-retro-quorum");
    assert_eq!(p.revocation.window.from.to_string(), "2027-01-01T00:00:00Z");
    assert!(p.revocation.reason.is_retroactive());
    let args = words(LINE);
    let o = run(&args).unwrap();
    let signers = qualifying_set(&o, &p.members, &judgements(&args)).unwrap();
    assert_eq!(signers, vec!["reg-cn-samr", "reg-jp-meti"]);
    assert!(second_round_held(signers.len(), p.threshold));
    assert!(!second_round_held(1, p.threshold));
}

#[test]
fn bad_command_lines_are_refused_by_name() {
    let refusal = |line: &str| planned(line).unwrap_err();
    assert_eq!(refusal("wat"), "unknown command `wat`");
    assert_eq!(refusal("declare --nope"), "unknown argument `--nope`");
    assert_eq!(refusal("declare --quorum"), "--quorum needs a value");
    assert_eq!(refusal("declare --threshold x"), "bad --threshold");
    assert_eq!(refusal("declare --help"), "");
    assert_eq!(refusal("declare"), "declare needs --quorum");
    assert_eq!(refusal("declare --quorum q"), "declare needs --threshold");
    let without = |from: &str, to: &str| refusal(&LINE.replace(from, to));
    assert_eq!(
        refusal("declare --quorum q --threshold 1 --member m"),
        "declare needs at least two --member ids"
    );
    assert_eq!(
        without("--signer reg-cn-samr --signer reg-jp-meti", ""),
        "declare needs the qualifying set as --signer ids"
    );
    assert_eq!(
        without("--threshold 2", "--threshold 1"),
        "a qualifying set is exactly 1 signer(s) (2 given): fewer cannot sign, more are redundant"
    );
    assert_eq!(without("--out-dir ceremony", ""), "declare needs --out-dir");
    assert_eq!(
        without("--subject-kind node", "--subject-kind cow"),
        "unknown --subject-kind `cow`"
    );
    assert!(without("misissuance", "made-up").starts_with("--reason: "));
    assert_eq!(
        without("misissuance", "cessation"),
        "reason `cessation` is prospective — it needs no quorum; declare it directly through POST /revocations"
    );
    assert!(without("2030-06-15T00:00:00Z", "soon").starts_with("--declared-at: `soon`: "));
    assert!(without("2030-06-01", "2020-06-01").starts_with("--window-*: "));
    assert!(run(&vec![String::new()]).unwrap_err().is_empty());
    assert_eq!(parse(&Vec::new(), 0).unwrap().threshold, 0);
    assert!(failure_text("m").starts_with("quorum-ceremony: m\n\nunidpp-trust"));
    assert!(failure_text("m").ends_with(USAGE));
}

#[test]
fn strangers_do_not_sign() {
    let args = words(&LINE.replace("--signer reg-jp-meti", "--signer stranger"));
    let o = run(&args).unwrap();
    let j = judgements(&args);
    let p = declare(&o, &j).unwrap();
    assert_eq!(
        qualifying_set(&o, &p.members, &j).unwrap_err(),
        "signer stranger is not a member of the quorum"
    );
}

#[test]
fn refusals_of_the_rounds_are_worded() {
    assert!(AggregateError::ThresholdNotMet { have: 1, need: 2 }
        .to_string()
        .starts_with("quorum not met: have 1 of 2 — "));
    assert_eq!(
        AggregateError::Other("x".to_string()).to_string(),
        "aggregation: x"
    );
    assert_eq!(round_error(2, "m", "late"), "round 2 (m): late");
}

#[test]
fn the_documents_pin_the_group_key_and_carry_its_signature() {
    let p = planned(LINE).unwrap();
    let group = key("ed25519", 0x5a);
    let c = Ceremony {
        algorithm: Json::text("ed25519"),
        threshold: 2,
        members: 3,
        group_public: "5a".repeat(32),
        commitments: doc(r#"["aa"]"#),
        public: group.dup(),
        slot: signed(&group),
        statement_digest: "s".to_string(),
        payload_digest: "p".to_string(),
    };
    let signers = vec!["reg-cn-samr".to_string(), "reg-\"jp".to_string()];
    let d = documents(&p, &signers, &c);
    let keys = d.node.array_at("keys").unwrap();
    assert_eq!(keys[0].str_at("public"), Some("5a".repeat(32).as_str()));
    let kind = d.node.get("kind").unwrap().get("threshold_group").unwrap();
    assert_eq!(kind.u64_at("threshold"), Some(2));
    assert_eq!(
        kind.array_at("members").unwrap(),
        &vec![
            Json::text("reg-cn-samr"),
            Json::text("reg-eu-espr"),
            Json::text("reg-jp-meti")
        ]
    );
    let q = d.revocation.get("quorum").unwrap();
    assert_eq!(q.array_at("signatures").unwrap().len(), 1);
    assert_eq!(d.ceremony.u64_at("members"), Some(3));
    let statement = d.ceremony.get("statement").unwrap();
    assert_eq!(
        statement.get("sha256").unwrap().str_at("statement_bytes"),
        Some("s")
    );
    assert_eq!(
        report(&p, &signers, &c),
        format!(
            "2-of-3 ceremony complete — qualifying set {signers:?} (no member key can sign alone; \
             the group key matches no member)\n\
             group public key: {}\n\
             wrote ceremony/quorum-node.json (POST /nodes — pinning is load-bearing),\n\
             ceremony/revocation.json (POST /revocations), ceremony/ceremony.json",
            "5a".repeat(32)
        )
    );
}
