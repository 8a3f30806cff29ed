//! What the journal holds: which mutation a line stands for, and which lines
//! stand for none.

use vstd::prelude::*;

use crate::api::writes;
use crate::api::writes::RequestView;
use crate::evidence;
use crate::evidence::EvidenceView;
use crate::json::JsonView;
use crate::judge::JudgementsView;
use crate::model::{
    DelegationCredentialView, DelegationNodeView, MasterListEntryView, RevocationView,
};
use crate::statements;
use crate::store;
use crate::store::{AuditRecordView, OpView, StoreView};
use crate::text;
use crate::time;
use crate::wire;

verus! {

/// The names of the mutations.
pub open spec fn mutation_name(t: Seq<char>) -> bool {
    t == "register-node"@ || t == "add-edge"@ || t == "register-trust-list"@ || t
        == "upsert-trust-entry"@ || t == "set-witnesses"@ || t == "upsert-master-entry"@ || t
        == "declare-revocation"@ || t == "register-evidence"@ || t == "release-evidence"@
}

/// A record is read under the name of its mutation, and what its body states
/// is what the mutation says; any other name is refused.
pub proof fn law_mutations_are_read(name: Seq<char>, d: JsonView, j: JudgementsView)
    ensures
        store::op_of(name, d, j) matches Ok(op) ==> name == store::op_name(op) && match op {
            OpView::RegisterNode { node } => name == "register-node"@ && wire::node_of(d, j) == Ok::<
                DelegationNodeView,
                Seq<char>,
            >(node),
            OpView::AddEdge { credential } => name == "add-edge"@ && wire::edge_of(d, j) == Ok::<
                DelegationCredentialView,
                Seq<char>,
            >(credential),
            OpView::RegisterTrustList { jurisdiction, framework } => name
                == "register-trust-list"@ && d.get("jurisdiction"@) == Some(
                JsonView::Str(jurisdiction),
            ) && match framework {
                Some(f) => d.get("framework"@) == Some(JsonView::Str(f)),
                None => !(d.get("framework"@) matches Some(JsonView::Str(_))),
            },
            OpView::UpsertTrustEntry { jurisdiction, node, not_before, superseded_at } => name
                == "upsert-trust-entry"@ && d.get("jurisdiction"@) == Some(
                JsonView::Str(jurisdiction),
            ) && (d.get("node"@) matches Some(JsonView::Str(t)) && j.node(t) == Ok::<
                Seq<char>,
                Seq<char>,
            >(node)) && (d.get("not_before"@) matches Some(JsonView::Str(t)) && time::parsed(t)
                == Some(not_before.secs as int)) && match superseded_at {
                Some(u) => d.get("superseded_at"@) matches Some(JsonView::Str(t)) && time::parsed(t)
                    == Some(u.secs as int),
                None => !(d.get("superseded_at"@) matches Some(JsonView::Str(_))),
            },
            OpView::SetWitnesses { m, witnesses } => name == "set-witnesses"@ && (d.get(
                "m"@,
            ) matches Some(JsonView::Num(n)) && m == n as u64 as usize) && (d.get(
                "witnesses"@,
            ) matches Some(JsonView::Arr(a)) && witnesses.len() == a.len()),
            OpView::UpsertMasterEntry { entry } => name == "upsert-master-entry"@
                && wire::master_entry_of(d, j) == Ok::<MasterListEntryView, Seq<char>>(entry),
            OpView::DeclareRevocation { revocation } => name == "declare-revocation"@
                && wire::revocation_of(d, j) == Ok::<RevocationView, Seq<char>>(revocation),
            OpView::RegisterEvidence { evidence } => name == "register-evidence"@
                && evidence::evidence_of(d) == Ok::<EvidenceView, Seq<char>>(evidence),
            OpView::ReleaseEvidence { id, requester, scope } => name == "release-evidence"@
                && d.get("id"@) == Some(JsonView::Str(id)) && d.get("scope"@) == Some(
                JsonView::Str(scope),
            ) && match requester {
                Some(t) => d.get("requester"@) == Some(JsonView::Str(t)),
                None => !(d.get("requester"@) matches Some(JsonView::Str(_))),
            },
        },
        !mutation_name(name) ==> store::op_of(name, d, j) is Err,
{
    if let Some(JsonView::Str(t)) = d.get("not_before"@) {
        time::law_stated_instants_are_counted(t);
    }
    if let Some(JsonView::Str(t)) = d.get("superseded_at"@) {
        time::law_stated_instants_are_counted(t);
    }
    if let Some(JsonView::Arr(a)) = d.get("witnesses"@) {
        law_kept_witnesses_are_read(a, j);
    }
    reveal_strlit("register-node");
    reveal_strlit("add-edge");
    reveal_strlit("register-trust-list");
    reveal_strlit("upsert-trust-entry");
    reveal_strlit("set-witnesses");
    reveal_strlit("upsert-master-entry");
    reveal_strlit("declare-revocation");
    reveal_strlit("register-evidence");
    reveal_strlit("release-evidence");
    assert("register-node"@.len() == 13 && "register-node"@[0] == 'r');
    assert("set-witnesses"@.len() == 13 && "set-witnesses"@[0] == 's');
    assert("add-edge"@.len() == 8);
    assert("register-trust-list"@.len() == 19 && "register-trust-list"@[0] == 'r');
    assert("upsert-master-entry"@.len() == 19 && "upsert-master-entry"@[0] == 'u');
    assert("upsert-trust-entry"@.len() == 18 && "upsert-trust-entry"@[0] == 'u');
    assert("declare-revocation"@.len() == 18 && "declare-revocation"@[0] == 'd');
    assert("register-evidence"@.len() == 17);
    assert("release-evidence"@.len() == 16);
}

/// The bodies of the plain mutations are taken exactly when their members
/// are there.
pub proof fn law_plain_bodies_are_taken(d: JsonView, j: JudgementsView)
    ensures
        store::op_of("register-trust-list"@, d, j) is Ok <==> d.get("jurisdiction"@) matches Some(
            JsonView::Str(_),
        ),
        store::op_of("release-evidence"@, d, j) is Ok <==> (d.get("id"@) matches Some(
            JsonView::Str(_),
        )) && (d.get("scope"@) matches Some(JsonView::Str(_))),
        store::op_of("upsert-trust-entry"@, d, j) is Ok <==> (d.get("jurisdiction"@) matches Some(
            JsonView::Str(_),
        )) && (d.get("node"@) matches Some(JsonView::Str(t)) && j.node(t) is Ok) && (d.get(
            "not_before"@,
        ) matches Some(JsonView::Str(t)) && time::parsed(t) is Some) && (d.get(
            "superseded_at"@,
        ) matches Some(JsonView::Str(t)) ==> time::parsed(t) is Some),
{
    reveal_strlit("register-node");
    reveal_strlit("add-edge");
    reveal_strlit("register-trust-list");
    reveal_strlit("upsert-trust-entry");
    reveal_strlit("set-witnesses");
    reveal_strlit("upsert-master-entry");
    reveal_strlit("declare-revocation");
    reveal_strlit("register-evidence");
    reveal_strlit("release-evidence");
    assert("register-node"@.len() == 13 && "register-node"@[0] == 'r');
    assert("set-witnesses"@.len() == 13 && "set-witnesses"@[0] == 's');
    assert("add-edge"@.len() == 8);
    assert("register-trust-list"@.len() == 19 && "register-trust-list"@[0] == 'r');
    assert("upsert-master-entry"@.len() == 19 && "upsert-master-entry"@[0] == 'u');
    assert("upsert-trust-entry"@.len() == 18 && "upsert-trust-entry"@[0] == 'u');
    assert("declare-revocation"@.len() == 18 && "declare-revocation"@[0] == 'd');
    assert("register-evidence"@.len() == 17);
    assert("release-evidence"@.len() == 16);
}

/// The witnesses of a record are read one by one, each with the key that its
/// document states.
pub proof fn law_kept_witnesses_are_read(s: Seq<JsonView>, j: JudgementsView)
    ensures
        store::kept_witnesses(s, j) matches Ok(v) ==> v.len() == s.len() && forall|i: int|
            0 <= i < s.len() ==> wire::public_of(#[trigger] s[i], j) is Ok && wire::public_of(
                s[i],
                j,
            )->Ok_0 == v[i].public && (s[i].get("node"@) matches Some(JsonView::Str(t)) ==> j.node(
                t,
            ) == Ok::<Seq<char>, Seq<char>>(v[i].node)),
    decreases s.len(),
{
    if s.len() > 0 {
        let rest = s.drop_last();
        law_kept_witnesses_are_read(rest, j);
        if let Ok(v) = store::kept_witnesses(s, j) {
            assert forall|i: int| 0 <= i < s.len() implies wire::public_of(
                #[trigger] s[i],
                j,
            ) is Ok && wire::public_of(s[i], j)->Ok_0 == v[i].public && (s[i].get(
                "node"@,
            ) matches Some(JsonView::Str(t)) ==> j.node(t) == Ok::<Seq<char>, Seq<char>>(
                v[i].node,
            )) by {
                if i < rest.len() {
                    assert(rest[i] == s[i]);
                }
            }
        }
    }
}

/// A record is its number, its instant and its mutation, each from the
/// member of its name; without one of them there is no record.
pub proof fn law_records_are_read(d: JsonView, j: JudgementsView)
    ensures
        store::record_of(d, j) matches Ok(r) ==> {
            &&& d.get("seq"@) == Some(JsonView::Num(r.seq as int))
            &&& d.get("recorded_at"@) matches Some(JsonView::Str(t)) && time::parsed(t) == Some(
                r.recorded_at.secs as int,
            )
            &&& d.get("op"@) == Some(JsonView::Str(store::op_name(r.op)))
            &&& d.get("body"@) matches Some(b) && store::op_of(store::op_name(r.op), b, j) == Ok::<
                OpView,
                Seq<char>,
            >(r.op)
        },
        store::record_of(d, j) is Ok <==> (d.get("seq"@) matches Some(JsonView::Num(n)) && 0 <= n
            <= u64::MAX) && statements::instant_at(d, "recorded_at"@) && (d.get(
            "op"@,
        ) matches Some(JsonView::Str(name)) && d.get("body"@) matches Some(b) && store::op_of(
            name,
            b,
            j,
        ) is Ok),
{
    if let Some(JsonView::Str(t)) = d.get("recorded_at"@) {
        time::law_stated_instants_are_counted(t);
    }
    if let Some(JsonView::Str(name)) = d.get("op"@) {
        if let Some(b) = d.get("body"@) {
            law_mutations_are_read(name, b, j);
        }
    }
}

/// A blank line stands for nothing; another stands for the record that its
/// text states, or is corrupt.
pub proof fn law_lines_of_the_journal(
    line: Seq<char>,
    parsed: Result<JsonView, Seq<char>>,
    j: JudgementsView,
)
    ensures
        store::line_record(line, parsed, j) is None <==> text::trimmed(line).len() == 0,
        store::line_record(line, parsed, j) matches Some(Ok(r)) ==> (parsed matches Ok(d)
            && store::record_of(d, j) == Ok::<AuditRecordView, Seq<char>>(r)),
        text::trimmed(line).len() > 0 && parsed is Err ==> store::line_record(
            line,
            parsed,
            j,
        ) matches Some(Err(_)),
{
}

/// The mutations have different names, each the one that the journal knows.
pub proof fn law_mutation_names(a: OpView, b: OpView)
    ensures
        mutation_name(store::op_name(a)),
        store::op_name(a) == store::op_name(b) <==> {
            ||| a is RegisterNode && b is RegisterNode
            ||| a is AddEdge && b is AddEdge
            ||| a is RegisterTrustList && b is RegisterTrustList
            ||| a is UpsertTrustEntry && b is UpsertTrustEntry
            ||| a is SetWitnesses && b is SetWitnesses
            ||| a is UpsertMasterEntry && b is UpsertMasterEntry
            ||| a is DeclareRevocation && b is DeclareRevocation
            ||| a is RegisterEvidence && b is RegisterEvidence
            ||| a is ReleaseEvidence && b is ReleaseEvidence
        },
{
    reveal_strlit("register-node");
    reveal_strlit("add-edge");
    reveal_strlit("register-trust-list");
    reveal_strlit("upsert-trust-entry");
    reveal_strlit("set-witnesses");
    reveal_strlit("upsert-master-entry");
    reveal_strlit("declare-revocation");
    reveal_strlit("register-evidence");
    reveal_strlit("release-evidence");
    assert("register-node"@.len() == 13 && "register-node"@[0] == 'r');
    assert("set-witnesses"@.len() == 13 && "set-witnesses"@[0] == 's');
    assert("add-edge"@.len() == 8);
    assert("register-trust-list"@.len() == 19 && "register-trust-list"@[0] == 'r');
    assert("upsert-master-entry"@.len() == 19 && "upsert-master-entry"@[0] == 'u');
    assert("upsert-trust-entry"@.len() == 18 && "upsert-trust-entry"@[0] == 'u');
    assert("declare-revocation"@.len() == 18 && "declare-revocation"@[0] == 'd');
    assert("register-evidence"@.len() == 17);
    assert("release-evidence"@.len() == 16);
}

// ---------------------------------------------------------------------------
// Initial entries
// ---------------------------------------------------------------------------

/// The initial entries of a list are upserted one behind the other: those
/// that follow start from what those before left, and the first that is
/// refused ends it with its answer.
pub proof fn law_initial_entries_follow_each_other(
    s: StoreView,
    jurisdiction: Seq<char>,
    a: Seq<JsonView>,
    b: Seq<JsonView>,
    q: RequestView,
)
    ensures
        ({
            let first = writes::entries_outcome(s, jurisdiction, a, q);
            writes::entries_outcome(s, jurisdiction, a + b, q) == if first.0 is Some {
                first
            } else {
                writes::entries_outcome(first.1, jurisdiction, b, q)
            }
        }),
    decreases b.len(),
{
    if b.len() > 0 {
        law_initial_entries_follow_each_other(s, jurisdiction, a, b.drop_last(), q);
        assert((a + b).drop_last() =~= a + b.drop_last());
    } else {
        assert(a + b =~= a);
    }
}

/// One initial entry does what an upsert of it does.
pub proof fn law_initial_entry_is_an_upsert(
    s: StoreView,
    jurisdiction: Seq<char>,
    d: JsonView,
    q: RequestView,
)
    ensures
        ({
            let (stopped, after) = writes::entries_outcome(s, jurisdiction, seq![d], q);
            match wire::entry_of(d, q.judgements) {
                Err(e) => after == s && (stopped matches Some(r) && r.status == 400),
                Ok(e) => {
                    let op = OpView::UpsertTrustEntry {
                        jurisdiction,
                        node: e.node,
                        not_before: e.not_before,
                        superseded_at: e.superseded_at,
                    };
                    match store::applied(s, op, q.ruling) {
                        Ok(_) => stopped is None && after == store::logged(
                            s,
                            store::next_record(s, op, q.now),
                            q.ruling,
                        ),
                        Err(_) => after == s && (stopped matches Some(r) && r.status == 404),
                    }
                },
            }
        }),
{
    let one = seq![d];
    let none = Seq::<JsonView>::empty();
    assert(one.drop_last() =~= none);
    assert(one.last() == d);
    let (stopped, before) = writes::entries_outcome(s, jurisdiction, none, q);
    assert(stopped is None && before == s);
    let out = writes::entries_outcome(s, jurisdiction, one, q);
    let alone = writes::entry_outcome(s, jurisdiction, d, q);
    assert(out.0 == alone.0);
    assert(out.1 == alone.1);
    reveal(writes::entry_outcome);
}

} // verus!
