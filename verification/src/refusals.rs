//! What a refusal says: it is of the kind that the fault is, and its message
//! names what was refused.

use vstd::prelude::*;

use crate::api;
use crate::api::reads;
use crate::ceremony;
use crate::ceremony::{AggregateError, CeremonyView, OptionsView, PlanView};
use crate::data;
use crate::evidence;
use crate::evidence::{Evidence, EvidenceView};
use crate::hex;
use crate::httpc;
use crate::httpc::ExchangeView;
use crate::json::JsonView;
use crate::judge;
use crate::judge::{JudgementsView, SuiteVerdictView, TextVerdictView};
use crate::model::{
    MasterListEntryView, PublicKeyView, RevocationView, SuiteView, WitnessAttestationView,
    WitnessView,
};
use crate::quorum;
use crate::quorum::QuorumVerdict;
use crate::records;
use crate::store;
use crate::store::{OpView, RulingView, StoreErrorView, StoreView};
use crate::text;
use crate::time;
use crate::wire;
use crate::wire::SignatifError;

verus! {

/// A text holds another, somewhere in it.
pub open spec fn holds(m: Seq<char>, part: Seq<char>) -> bool {
    exists|i: int| #[trigger] text::stands_at(m, part, i)
}

proof fn lemma_holds(a: Seq<char>, b: Seq<char>, c: Seq<char>)
    ensures
        holds(a + b + c, b),
        holds(a + b, b),
        holds(b + c, b),
{
    let i = a.len() as int;
    assert((a + b + c).subrange(i, i + b.len()) =~= b);
    assert(text::stands_at(a + b + c, b, i));
    assert((a + b).subrange(i, i + b.len()) =~= b);
    assert(text::stands_at(a + b, b, i));
    assert((b + c).subrange(0, b.len() as int) =~= b);
    assert(text::stands_at(b + c, b, 0));
}

proof fn lemma_still_holds(a: Seq<char>, m: Seq<char>, c: Seq<char>, part: Seq<char>)
    requires
        holds(m, part),
    ensures
        holds(a + m, part),
        holds(m + c, part),
        holds(a + m + c, part),
{
    let i = choose|i: int| text::stands_at(m, part, i);
    let k = a.len() + i;
    assert((a + m).subrange(k, k + part.len()) =~= m.subrange(i, i + part.len()));
    assert(text::stands_at(a + m, part, k));
    assert((m + c).subrange(i, i + part.len()) =~= m.subrange(i, i + part.len()));
    assert(text::stands_at(m + c, part, i));
    assert((a + m + c).subrange(k, k + part.len()) =~= m.subrange(i, i + part.len()));
    assert(text::stands_at(a + m + c, part, k));
}

/// A list that stands is a conflict and a list that is missing is not found,
/// each under its name; a node is always registered.
pub proof fn law_list_refusals(s: StoreView, op: OpView, ruling: RulingView)
    ensures
        match op {
            OpView::RegisterNode { .. } => store::applied(s, op, ruling) is Ok,
            OpView::AddEdge { .. } => store::applied(s, op, ruling) matches Err(e) ==> ruling.edge
                == Some(e.message()) && e is Invalid,
            OpView::RegisterTrustList { jurisdiction, .. } => store::applied(
                s,
                op,
                ruling,
            ) matches Err(e) ==> e is Conflict && holds(e.message(), jurisdiction),
            OpView::UpsertTrustEntry { jurisdiction, .. } => store::applied(
                s,
                op,
                ruling,
            ) matches Err(e) ==> e is NotFound && holds(e.message(), jurisdiction),
            _ => true,
        },
{
    match op {
        OpView::RegisterTrustList { jurisdiction, .. } => {
            lemma_holds("trust list `"@, jurisdiction, "` is already registered"@);
        },
        OpView::UpsertTrustEntry { jurisdiction, .. } => {
            lemma_holds("no trust list `"@, jurisdiction, "`"@);
        },
        _ => {},
    }
}

/// Evidence that stands is a conflict, evidence that is missing is not found,
/// and a wrong scope is told the right one.
pub proof fn law_evidence_refusals(s: StoreView, op: OpView, ruling: RulingView)
    ensures
        match op {
            OpView::RegisterEvidence { evidence } => store::applied(
                s,
                op,
                ruling,
            ) matches Err(e) ==> e is Conflict && holds(e.message(), evidence.id),
            OpView::ReleaseEvidence { id, scope, .. } => match data::lookup::<Evidence>(
                s.evidence,
                id,
            ) {
                None => store::applied(s, op, ruling) matches Err(e) && e is NotFound && holds(
                    e.message(),
                    id,
                ),
                Some(d) => scope != d.required_scope ==> (store::applied(
                    s,
                    op,
                    ruling,
                ) matches Err(e) && e is Invalid && holds(e.message(), id) && holds(
                    e.message(),
                    d.required_scope,
                )),
            },
            _ => true,
        },
{
    match op {
        OpView::RegisterEvidence { evidence } => {
            lemma_holds("evidence `"@, evidence.id, "` is already registered"@);
        },
        OpView::ReleaseEvidence { id, scope, .. } => {
            lemma_holds("no evidence `"@, id, "`"@);
            if let Some(d) = data::lookup::<Evidence>(s.evidence, id) {
                let head = "evidence `"@ + id + "` requires scope `"@;
                lemma_holds("evidence `"@, id, "` requires scope `"@);
                lemma_still_holds(Seq::empty(), head, d.required_scope, id);
                lemma_still_holds(Seq::empty(), head + d.required_scope, "`"@, id);
                lemma_holds(head, d.required_scope, "`"@);
            }
        },
        _ => {},
    }
}

/// A witness set that asks for more than it has says both numbers.
pub proof fn law_witness_set_refusals(
    s: StoreView,
    m: usize,
    witnesses: Seq<WitnessView>,
    ruling: RulingView,
)
    ensures
        ({
            let r = store::applied(s, OpView::SetWitnesses { m, witnesses }, ruling);
            &&& r is Err <==> m == 0 || witnesses.len() == 0 || m > witnesses.len()
            &&& r matches Err(e) ==> e is Invalid
            &&& 0 < witnesses.len() < m ==> (r matches Err(e) && holds(
                e.message(),
                text::decimal(m as nat),
            ) && holds(e.message(), text::decimal(witnesses.len())))
        }),
{
    let a = text::decimal(m as nat);
    let b = text::decimal(witnesses.len());
    let mid = ") cannot exceed `witnesses.len()` ("@;
    lemma_holds("`m` ("@, a, mid);
    lemma_still_holds(Seq::empty(), "`m` ("@ + a + mid, b, a);
    lemma_still_holds(Seq::empty(), "`m` ("@ + a + mid + b, ")"@, a);
    lemma_holds("`m` ("@ + a + mid, b, ")"@);
}

proof fn lemma_first_unnamed(
    witnesses: Seq<WitnessView>,
    a: Seq<WitnessAttestationView>,
)
    ensures
        store::entry_error(witnesses, a) matches Some(m) ==> exists|i: int|
            0 <= i < a.len() && !store::names_witness(witnesses, (#[trigger] a[i]).witness)
                && holds(m, a[i].witness),
        store::entry_error(witnesses, a) is None ==> forall|i: int|
            0 <= i < a.len() ==> store::names_witness(witnesses, (#[trigger] a[i]).witness),
    decreases a.len(),
{
    if a.len() > 0 {
        let t = a.drop_first();
        lemma_first_unnamed(witnesses, t);
        if !store::names_witness(witnesses, a[0].witness) {
            lemma_holds("witness `"@, a[0].witness, "` is not registered"@);
        } else {
            assert(forall|i: int| 0 <= i < t.len() ==> #[trigger] t[i] == a[i + 1]);
            assert forall|i: int| 0 <= i < a.len() && store::entry_error(witnesses, a) is None implies
                store::names_witness(witnesses, (#[trigger] a[i]).witness) by {
                if i > 0 {
                    assert(t[i - 1] == a[i]);
                }
            }
            if let Some(m) = store::entry_error(witnesses, t) {
                let i = choose|i: int|
                    0 <= i < t.len() && !store::names_witness(witnesses, (#[trigger] t[i]).witness)
                        && holds(m, t[i].witness);
                assert(a[i + 1] == t[i]);
            }
        }
    }
}

/// A master-list entry is refused exactly when one of its attestations is by
/// no witness of the list, and the refusal names such a witness.
pub proof fn law_master_entry_refusals(
    s: StoreView,
    entry: MasterListEntryView,
    ruling: RulingView,
)
    ensures
        ({
            let r = store::applied(s, OpView::UpsertMasterEntry { entry }, ruling);
            let a = entry.attestations;
            &&& r is Ok <==> forall|i: int|
                0 <= i < a.len() ==> store::names_witness(
                    s.master.witnesses,
                    (#[trigger] a[i]).witness,
                )
            &&& r matches Err(e) ==> e is Invalid && exists|i: int|
                0 <= i < a.len() && !store::names_witness(
                    s.master.witnesses,
                    (#[trigger] a[i]).witness,
                ) && holds(e.message(), a[i].witness)
        }),
{
    lemma_first_unnamed(s.master.witnesses, entry.attestations);
}

/// A declaration that lacks its quorum is refused under its subject's label;
/// any other is refused for what the ledger says.
pub proof fn law_declaration_refusals(
    s: StoreView,
    revocation: RevocationView,
    ruling: RulingView,
)
    ensures
        ({
            let r = store::applied(s, OpView::DeclareRevocation { revocation }, ruling);
            let lacking = revocation.reason.is_retroactive() && match revocation.quorum {
                Some(q) => !quorum::is_quorate(s.graph, q, ruling.checks),
                None => true,
            };
            &&& r matches Err(e) ==> e is Invalid
            &&& lacking ==> (r matches Err(e) && holds(e.message(), revocation.subject.label()))
            &&& !lacking ==> (r matches Err(e) ==> ruling.ledger == Some(e.message()))
            &&& !lacking && ruling.ledger is Some ==> r is Err
        }),
{
    let l = revocation.subject.label();
    lemma_holds("retroactive distrust of `"@, l, "` requires a quorum attestation"@);
    let head = "quorum attestation for `"@ + l + "` does not reach the threshold ("@;
    lemma_holds("quorum attestation for `"@, l, "` does not reach the threshold ("@);
    if let Some(q) = revocation.quorum {
        let sum = quorum::verdict_of(s.graph, q, ruling.checks).spec_summary();
        lemma_still_holds(Seq::empty(), head, sum, l);
        lemma_still_holds(Seq::empty(), head + sum, ")"@, l);
    }
}

/// A verdict's summary says the threshold, and how many members verified
/// where it is members that count.
pub proof fn law_summary_says_the_counts(v: QuorumVerdict)
    ensures
        holds(v.spec_summary(), text::decimal(v.threshold as nat)),
        v.form is MemberKeys ==> holds(v.spec_summary(), text::decimal(v.member_verified as nat)),
{
    let t = text::decimal(v.threshold as nat);
    let n = text::decimal(v.member_verified as nat);
    lemma_holds(n + " member key(s) verified, threshold "@, t, Seq::empty());
    lemma_holds(Seq::empty(), n, " member key(s) verified, threshold "@);
    lemma_still_holds(Seq::empty(), n + " member key(s) verified, threshold "@, t, n);
    lemma_holds(
        "threshold-group signature verified ("@ + t + " of the group's members acted), threshold "@,
        t,
        Seq::empty(),
    );
}

/// A store error shows its message and its kind.
pub proof fn law_store_errors_are_shown(m: Seq<char>)
    ensures
        StoreErrorView::Conflict(m).message() == m && StoreErrorView::Invalid(m).message() == m
            && StoreErrorView::NotFound(m).message() == m,
        holds(StoreErrorView::Conflict(m).shown(), m) && holds(
            StoreErrorView::Conflict(m).shown(),
            "conflict"@,
        ),
        holds(StoreErrorView::Invalid(m).shown(), m) && holds(
            StoreErrorView::Invalid(m).shown(),
            "invalid"@,
        ),
        holds(StoreErrorView::NotFound(m).shown(), m) && holds(
            StoreErrorView::NotFound(m).shown(),
            "not found"@,
        ),
{
    reveal_strlit("conflict");
    reveal_strlit("conflict: ");
    reveal_strlit("invalid");
    reveal_strlit("invalid: ");
    reveal_strlit("not found");
    reveal_strlit("not found: ");
    assert("conflict: "@.subrange(0, 8) =~= "conflict"@);
    assert(text::stands_at("conflict: "@, "conflict"@, 0));
    assert("invalid: "@.subrange(0, 7) =~= "invalid"@);
    assert(text::stands_at("invalid: "@, "invalid"@, 0));
    assert("not found: "@.subrange(0, 9) =~= "not found"@);
    assert(text::stands_at("not found: "@, "not found"@, 0));
    lemma_still_holds(Seq::empty(), "conflict: "@, m, "conflict"@);
    lemma_still_holds(Seq::empty(), "invalid: "@, m, "invalid"@);
    lemma_still_holds(Seq::empty(), "not found: "@, m, "not found"@);
    lemma_holds("conflict: "@, m, Seq::empty());
    lemma_holds("invalid: "@, m, Seq::empty());
    lemma_holds("not found: "@, m, Seq::empty());
}

/// A text that states no instant is named in the refusal, whichever
/// parameter it came in.
pub proof fn law_instant_refusals(p: Map<Seq<char>, Seq<char>>, raw: Seq<char>)
    ensures
        holds(time::refusal(raw), raw),
        wire::ts_of(raw) matches Err(m) ==> holds(m, raw),
        api::asked_instant(p) matches Err(m) ==> (p.dom().contains("at"@) && holds(m, p["at"@]))
            || (!p.dom().contains("at"@) && p.dom().contains("asof"@) && holds(m, p["asof"@])),
        reads::asked_cutoff(p) matches Err(m) ==> p.dom().contains("known_by"@) && holds(
            m,
            text::trimmed(p["known_by"@]),
        ),
{
    lemma_holds("invalid timestamp `"@, raw, "` (expected RFC 3339 UTC)"@);
    if p.dom().contains("at"@) {
        let v = p["at"@];
        lemma_holds("invalid timestamp `"@, v, "` (expected RFC 3339 UTC)"@);
        lemma_still_holds("invalid `at` parameter: "@, time::refusal(v), Seq::empty(), v);
    } else if p.dom().contains("asof"@) {
        let v = p["asof"@];
        lemma_holds("invalid timestamp `"@, v, "` (expected RFC 3339 UTC)"@);
        lemma_still_holds("invalid `at` parameter: "@, time::refusal(v), Seq::empty(), v);
    }
    if p.dom().contains("known_by"@) {
        let v = text::trimmed(p["known_by"@]);
        lemma_holds("invalid timestamp `"@, v, "` (expected RFC 3339 UTC)"@);
        lemma_still_holds("`known_by`: "@, time::refusal(v), Seq::empty(), v);
    }
}

proof fn lemma_required(name: Seq<char>)
    ensures
        holds(wire::is_required(name), name),
{
    lemma_holds("`"@, name, "` is required"@);
}

/// A node, an edge, a witness or an entry that lacks a member is refused
/// under the member's name.
pub proof fn law_missing_members_are_named(d: JsonView, j: JudgementsView)
    requires
        d is Obj,
    ensures
        d.str_at("id"@) is None ==> (wire::node_of(d, j) matches Err(m) && holds(m, "id"@)),
        d.str_at("parent"@) is None ==> (wire::edge_of(d, j) matches Err(m) && holds(
            m,
            "parent"@,
        )),
        d.str_at("node"@) is None ==> (wire::witness_of(d, j) matches Err(m) && holds(m, "node"@))
            && (wire::entry_of(d, j) matches Err(m) && holds(m, "node"@)) && (wire::master_entry_of(
            d,
            j,
        ) matches Err(m) && holds(m, "node"@)),
        d.str_at("witness"@) is None ==> (wire::attestation_of(d, j) matches Err(m) && holds(
            m,
            "witness"@,
        )),
        d.str_at("suite"@) is None ==> (wire::slot_of(d, j) matches Err(m) && holds(m, "suite"@)),
        d.str_at("suite"@) is Some && d.str_at("key_id"@) is None ==> (wire::slot_of(
            d,
            j,
        ) matches Err(m) && holds(m, "key_id"@)),
        d.str_at("key_id"@) is None ==> (wire::registered_of(d, j) matches Err(m) && holds(
            m,
            "key_id"@,
        )),
        d.str_at("kind"@) is None ==> (wire::subject_of(d, j) matches Err(m) && holds(m, "kind"@)),
        d.str_at("kind"@) is Some && d.str_at("id"@) is None ==> (wire::subject_of(
            d,
            j,
        ) matches Err(m) && holds(m, "id"@)),
        d.str_at("token"@) is None ==> (wire::reason_of(d, j) matches Err(m) && holds(
            m,
            "token"@,
        )),
        d.str_at("quorum"@) is None ==> (wire::quorum_of(d, j) matches Err(m) && holds(
            m,
            "quorum"@,
        )),
        d.str_at("start"@) is None ==> (wire::interval_of(d) matches Err(m) && holds(m, "start"@)),
        d.get("subject"@) is None ==> (wire::revocation_of(d, j) matches Err(m) && holds(
            m,
            "subject"@,
        )),
{
    lemma_required("id"@);
    lemma_required("parent"@);
    lemma_required("node"@);
    lemma_required("witness"@);
    lemma_required("suite"@);
    lemma_required("key_id"@);
    lemma_required("kind"@);
    lemma_required("token"@);
    lemma_required("quorum"@);
    lemma_required("start"@);
    lemma_required("subject"@);
}

/// A body that lacks a text is refused under the text's name; a blank text
/// counts as none.
pub proof fn law_required_texts_are_named(d: JsonView, name: Seq<char>)
    ensures
        api::required_text(d, name) matches Err(m) ==> holds(m, name),
        api::required_text(d, name) is Ok <==> (d.str_at(name) matches Some(s) && text::trimmed(
            s,
        ).len() > 0),
        api::required_text(d, name) matches Ok(s) ==> d.str_at(name) == Some(s),
{
    lemma_holds("`"@, name, "` is required"@);
}

/// A name that stands for nothing is said in the refusal: a subject's kind, a
/// reason's token, a node's kind, a mutation.
pub proof fn law_unknown_names_are_said(d: JsonView, t: Seq<char>, j: JudgementsView)
    requires
        d is Obj,
    ensures
        d.str_at("kind"@) == Some(t) && d.str_at("id"@) is Some && t != "key"@ && t != "node"@ && t
            != "passport"@ && t != "condition"@ ==> (wire::subject_of(d, j) matches Err(m) && holds(
            m,
            t,
        )),
        d.str_at("token"@) == Some(t) && t != "key-compromise"@ && t != "cessation"@ && t
            != "supersession"@ && t != "affiliation-change"@ && t != "misissuance"@ && t
            != "fraudulent-issuance"@ && t != "authority-compromised"@ && t
            != "condition-withdrawal"@ ==> (wire::reason_of(d, j) matches Err(m) && holds(m, t)),
        t != "root"@ && t != "delegated"@ && t != "end"@ ==> (wire::node_kind_of(
            JsonView::Str(t),
            j,
        ) matches Err(m) && holds(m, t)),
        !records::mutation_name(t) ==> (store::op_of(t, d, j) matches Err(m) && holds(m, t)),
{
    lemma_holds("unknown `op` `"@, t, "`"@);
    lemma_holds("unknown subject kind `"@, t, "` (expected key|node|passport|condition)"@);
    lemma_holds("unknown reason token `"@, t, "`"@);
    lemma_holds("unknown node kind `"@, t, "`"@);
}

/// A window that ends before it starts is refused with both instants.
pub proof fn law_backward_windows_are_told(d: JsonView, a: Seq<char>, b: Seq<char>, s: int, e: int)
    requires
        d is Obj,
        d.get("start"@) == Some(JsonView::Str(a)),
        d.get("end"@) == Some(JsonView::Str(b)),
        b.len() > 0,
        time::parsed(a) == Some(s),
        time::parsed(b) == Some(e),
        i64::MIN <= e < s <= i64::MAX,
    ensures
        wire::interval_of(d) matches Err(m) && holds(m, time::stamp(s)) && holds(
            m,
            time::stamp(e),
        ),
{
    let x = time::stamp(e);
    let y = time::stamp(s);
    lemma_holds("window end "@, x, " is before start "@);
    lemma_still_holds(Seq::empty(), "window end "@ + x + " is before start "@, y, x);
    lemma_holds("window end "@ + x + " is before start "@, y, Seq::empty());
}

/// A key whose bytes are of another suite than the one declared is refused
/// with the names of both.
pub proof fn law_suite_mismatch_is_told(
    d: JsonView,
    suite: Seq<char>,
    h: Seq<char>,
    bytes: Seq<u8>,
    j: JudgementsView,
)
    requires
        d is Obj,
        d.get("suite"@) == Some(JsonView::Str(suite)),
        d.get("public"@) == Some(JsonView::Str(h)),
        hex::hex_value(h) == Ok::<Seq<u8>, Seq<char>>(bytes),
    ensures
        j.public(bytes) matches Ok(p) ==> wire::folded(p.suite) != wire::folded(suite) ==> (
        wire::public_of(d, j) matches Err(m) && holds(m, suite) && holds(m, p.suite)),
        j.public(bytes) matches Err(e) ==> wire::public_of(d, j) == Err::<
            PublicKeyView,
            Seq<char>,
        >(e),
{
    if let Ok(p) = j.public(bytes) {
        let head = "public key suite mismatch: declared `"@ + suite + "`, bytes are `"@;
        lemma_holds("public key suite mismatch: declared `"@, suite, "`, bytes are `"@);
        lemma_still_holds(Seq::empty(), head, p.suite, suite);
        lemma_still_holds(Seq::empty(), head + p.suite, "`"@, suite);
        lemma_holds(head, p.suite, "`"@);
    }
}

/// A signature of the wrong length is refused with its length and the one
/// that its suite asks for.
pub proof fn law_signature_length_is_told(
    d: JsonView,
    token: Seq<char>,
    id: Seq<char>,
    h: Seq<char>,
    bytes: Seq<u8>,
    j: JudgementsView,
)
    requires
        d is Obj,
        d.get("suite"@) == Some(JsonView::Str(token)),
        d.get("key_id"@) == Some(JsonView::Str(id)),
        d.get("signature"@) == Some(JsonView::Str(h)),
        hex::hex_value(h) == Ok::<Seq<u8>, Seq<char>>(bytes),
        j.key(id) is Ok,
    ensures
        j.suite(token) matches Ok(u) ==> bytes.len() != u.signature_len ==> (wire::slot_of(
            d,
            j,
        ) matches Err(m) && holds(m, text::decimal(bytes.len())) && holds(
            m,
            text::decimal(u.signature_len as nat),
        ) && holds(m, u.name)),
{
    if let Ok(u) = j.suite(token) {
        let a = text::decimal(bytes.len());
        let b = text::decimal(u.signature_len as nat);
        let one = "signature length "@ + a + " does not match the "@;
        let two = one + u.name + " framing budget "@;
        lemma_holds("signature length "@, a, " does not match the "@);
        lemma_still_holds(Seq::empty(), one, u.name, a);
        lemma_still_holds(Seq::empty(), one + u.name, " framing budget "@, a);
        lemma_still_holds(Seq::empty(), two, b, a);
        lemma_holds(one, u.name, " framing budget "@);
        lemma_still_holds(Seq::empty(), two, b, u.name);
        lemma_holds(two, b, Seq::empty());
    }
}

/// A URL that cannot be asked is named in the refusal, or its scheme is.
pub proof fn law_url_refusals(s: Seq<char>)
    ensures
        httpc::url_of(s) matches Err(m) ==> holds(m, s) || (text::split_at_first(
            s,
            "://"@,
        ) matches Some((scheme, _)) && holds(m, scheme) && !text::same_fold(scheme, "http"@)),
{
    lemma_holds("URL must be absolute: `"@, s, "`"@);
    lemma_holds("https is not supported by this client: `"@, s, "`"@);
    lemma_holds("bad port in `"@, s, "`"@);
    lemma_holds("URL has no host: `"@, s, "`"@);
    if let Some((scheme, _)) = text::split_at_first(s, "://"@) {
        lemma_holds("unsupported URL scheme `"@, scheme, "`"@);
    }
}

/// A command line that lacks a part is refused under the flag that states
/// it; one that names more signers than the threshold is told both numbers.
pub proof fn law_command_refusals(o: OptionsView, j: JudgementsView)
    ensures
        o.quorum.len() == 0 ==> (ceremony::plan_of(o, j) matches Err(m) && holds(m, "--quorum"@)),
        o.quorum.len() > 0 && o.threshold == 0 ==> (ceremony::plan_of(o, j) matches Err(m)
            && holds(m, "--threshold"@)),
        o.quorum.len() > 0 && o.threshold > 0 && o.members.len() < 2 ==> (ceremony::plan_of(
            o,
            j,
        ) matches Err(m) && holds(m, "--member"@)),
        o.quorum.len() > 0 && o.threshold > 0 && o.members.len() >= 2 && o.signers.len() == 0 ==> (
        ceremony::plan_of(o, j) matches Err(m) && holds(m, "--signer"@)),
        o.quorum.len() > 0 && o.threshold > 0 && o.members.len() >= 2 && o.signers.len()
            > o.threshold ==> (ceremony::plan_of(o, j) matches Err(m) && holds(
            m,
            text::decimal(o.threshold as nat),
        ) && holds(m, text::decimal(o.signers.len()))),
        o.quorum.len() > 0 && o.threshold > 0 && o.members.len() >= 2 && 0 < o.signers.len()
            <= o.threshold && o.out_dir is None ==> (ceremony::plan_of(o, j) matches Err(m)
            && holds(m, "--out-dir"@)),
{
    reveal_strlit("--quorum");
    reveal_strlit("declare needs --quorum");
    assert("declare needs --quorum"@.subrange(14, 22) =~= "--quorum"@);
    assert(text::stands_at("declare needs --quorum"@, "--quorum"@, 14));
    reveal_strlit("--threshold");
    reveal_strlit("declare needs --threshold");
    assert("declare needs --threshold"@.subrange(14, 25) =~= "--threshold"@);
    assert(text::stands_at("declare needs --threshold"@, "--threshold"@, 14));
    reveal_strlit("--member");
    reveal_strlit("declare needs at least two --member ids");
    assert("declare needs at least two --member ids"@.subrange(27, 35) =~= "--member"@);
    assert(text::stands_at("declare needs at least two --member ids"@, "--member"@, 27));
    reveal_strlit("--signer");
    reveal_strlit("declare needs the qualifying set as --signer ids");
    assert("declare needs the qualifying set as --signer ids"@.subrange(36, 44) =~= "--signer"@);
    assert(text::stands_at("declare needs the qualifying set as --signer ids"@, "--signer"@, 36));
    reveal_strlit("--out-dir");
    reveal_strlit("declare needs --out-dir");
    assert("declare needs --out-dir"@.subrange(14, 23) =~= "--out-dir"@);
    assert(text::stands_at("declare needs --out-dir"@, "--out-dir"@, 14));
    let a = text::decimal(o.threshold as nat);
    let b = text::decimal(o.signers.len());
    let head = "a qualifying set is exactly "@ + a + " signer(s) ("@;
    let tail = " given): fewer cannot sign, more are redundant"@;
    lemma_holds("a qualifying set is exactly "@, a, " signer(s) ("@);
    lemma_still_holds(Seq::empty(), head, b, a);
    lemma_still_holds(Seq::empty(), head + b, tail, a);
    lemma_holds(head, b, tail);
}

/// Evidence that lacks its id, its scope or its content is refused under the
/// name of what is missing, in that order.
pub proof fn law_evidence_needs_its_parts(d: JsonView)
    requires
        d is Obj,
    ensures
        ({
            let id = d.str_at("id"@) matches Some(s) && text::trimmed(s).len() > 0;
            let scope = d.str_at("requiredScope"@) matches Some(s) && text::trimmed(s).len() > 0;
            let r = evidence::evidence_of(d);
            &&& !id ==> r == Err::<EvidenceView, Seq<char>>("`id` is required"@)
            &&& id && !scope ==> (r matches Err(m) && text::has_prefix(m, "`requiredScope`"@))
            &&& id && scope && d.str_at("contentHex"@) is None ==> r == Err::<
                EvidenceView,
                Seq<char>,
            >("`contentHex` is required"@)
        }),
{
    reveal_strlit("`requiredScope`");
    reveal_strlit("`requiredScope` is required — ungated evidence is a public link, not evidence");
    assert("`requiredScope` is required — ungated evidence is a public link, not evidence"@.take(15)
        =~= "`requiredScope`"@);
}

/// An argument that is no flag, a flag without its value and a word that is
/// no command are each named in the refusal.
pub proof fn law_argument_refusals(args: Seq<Seq<char>>, i: int, o: OptionsView)
    requires
        0 <= i < args.len(),
        args[i] != "-h"@ && args[i] != "--help"@,
    ensures
        !ceremony::takes_value(args[i]) || i + 1 == args.len() ==> (ceremony::options_from(
            args,
            i,
            o,
        ) matches Err(m) && holds(m, args[i])),
{
    lemma_holds("unknown argument `"@, args[i], "`"@);
    lemma_holds(Seq::empty(), args[i], " needs a value"@);
}

/// A word that is no command is named in the refusal; no word at all asks for
/// the usage, which an empty refusal stands for.
pub proof fn law_unknown_commands_are_named(word: Seq<char>)
    requires
        word != "declare"@,
    ensures
        ceremony::command_of(seq![word]) matches Err(m) && if word.len() == 0 {
            m.len() == 0
        } else {
            holds(m, word)
        },
{
    let args = seq![word];
    assert(args[0] == word);
    reveal_strlit("");
    lemma_holds("unknown command `"@, word, "`"@);
}

/// A part of a statement that cannot be read is refused under its flag, and a
/// subject's kind or a reason that a ceremony does not take under its name.
pub proof fn law_statement_refusals(o: OptionsView, j: JudgementsView)
    ensures
        ceremony::subject_named(o, j) matches Err(m) ==> holds(m, o.subject_kind)
            || text::has_prefix(m, "--subject-id: "@),
        ceremony::reason_named(o, j) matches Err(m) ==> text::has_prefix(m, "--reason: "@) || (
        wire::reason_of(
            ceremony::with_text(
                JsonView::object().put("token"@, JsonView::Str(o.reason)),
                "detected_at"@,
                o.detected_at,
            ),
            j,
        ) matches Ok(r) && holds(m, r.token())),
        ceremony::instant_named(o) matches Err(m) ==> text::has_prefix(m, "--declared-at: "@)
            && holds(m, o.declared_at),
        ceremony::window_named(o) matches Err(m) ==> text::has_prefix(m, "--window-*: "@),
{
    lemma_holds("unknown --subject-kind `"@, o.subject_kind, "`"@);
    if let Err(m) = ceremony::subject_named(o, j) {
        assert(m.len() >= "--subject-id: "@.len() && m.take("--subject-id: "@.len() as int)
            =~= "--subject-id: "@ || holds(m, o.subject_kind));
    }
    if let Err(m) = ceremony::reason_named(o, j) {
        let r = wire::reason_of(
            ceremony::with_text(
                JsonView::object().put("token"@, JsonView::Str(o.reason)),
                "detected_at"@,
                o.detected_at,
            ),
            j,
        );
        match r {
            Ok(r) => {
                lemma_holds(
                    "reason `"@,
                    r.token(),
                    "` is prospective — it needs no quorum; declare it directly through POST /revocations"@,
                );
            },
            Err(e) => {
                assert(m.take("--reason: "@.len() as int) =~= "--reason: "@);
            },
        }
    }
    if let Err(m) = ceremony::instant_named(o) {
        assert(m.take("--declared-at: "@.len() as int) =~= "--declared-at: "@);
        let t = "`"@ + o.declared_at + "`: "@;
        lemma_holds("`"@, o.declared_at, "`: "@);
        lemma_still_holds(Seq::empty(), t, time::refusal(o.declared_at), o.declared_at);
        lemma_still_holds(
            "--declared-at: "@,
            t + time::refusal(o.declared_at),
            Seq::empty(),
            o.declared_at,
        );
    }
    if let Err(m) = ceremony::window_named(o) {
        assert(m.take("--window-*: "@.len() as int) =~= "--window-*: "@);
    }
}

/// What the signing library refuses is told with what it names.
pub proof fn law_outside_refusals(e: SignatifError)
    ensures
        ({
            let m = wire::error_reply(e).1;
            match e {
                SignatifError::Validation(t) => holds(m, t@),
                SignatifError::ScopeViolation(t) => holds(m, t@),
                SignatifError::Crypto(t) => holds(m, t@),
                SignatifError::SuiteDeferred { suite, detail } => holds(m, suite@) && holds(
                    m,
                    detail@,
                ),
                SignatifError::NoTrustPath { key_id } => holds(m, key_id@),
                SignatifError::ScopeExcluded { key_id, detail } => holds(m, key_id@) && holds(
                    m,
                    detail@,
                ),
                SignatifError::CredentialSignatureInvalid { parent, child } => holds(m, parent@)
                    && holds(m, child@),
                SignatifError::Unknown { kind, id } => holds(m, kind@) && holds(m, id@),
                SignatifError::Trust(t) => holds(m, t@),
                SignatifError::Transparency(t) => holds(m, t@),
                SignatifError::QuorumRequired { subject } => holds(m, subject@),
                SignatifError::ScopeConditionFailed { condition } => holds(m, condition@),
                SignatifError::Unsupported { suite, detail } => holds(m, suite@) && holds(
                    m,
                    detail@,
                ),
            }
        }),
{
    match e {
        SignatifError::Validation(t) => {
            lemma_holds("validation: "@, t@, Seq::empty());
        },
        SignatifError::ScopeViolation(t) => {
            lemma_holds("scope violation: "@, t@, Seq::empty());
        },
        SignatifError::Crypto(t) => {
            lemma_holds("cryptographic: "@, t@, Seq::empty());
        },
        SignatifError::SuiteDeferred { suite, detail } => {
            lemma_two("suite `"@, suite@, "` is deferred: "@, detail@, Seq::empty());
        },
        SignatifError::NoTrustPath { key_id } => {
            lemma_holds("no trust path to `"@, key_id@, "`"@);
        },
        SignatifError::ScopeExcluded { key_id, detail } => {
            lemma_two("path to `"@, key_id@, "` excludes the request: "@, detail@, Seq::empty());
        },
        SignatifError::CredentialSignatureInvalid { parent, child } => {
            lemma_two(
                "delegation credential "@,
                parent@,
                " → "@,
                child@,
                " failed signature verification"@,
            );
        },
        SignatifError::Unknown { kind, id } => {
            lemma_two("unknown "@, kind@, " `"@, id@, "`"@);
        },
        SignatifError::Trust(t) => {
            lemma_holds("trust anchoring: "@, t@, Seq::empty());
        },
        SignatifError::Transparency(t) => {
            lemma_holds("transparency: "@, t@, Seq::empty());
        },
        SignatifError::QuorumRequired { subject } => {
            lemma_holds("retroactive distrust of `"@, subject@, "` requires a quorate attestation"@);
        },
        SignatifError::ScopeConditionFailed { condition } => {
            lemma_holds("scope condition failed: `"@, condition@, "`"@);
        },
        SignatifError::Unsupported { suite, detail } => {
            lemma_two(
                "suite `"@,
                suite@,
                "` is unsupported in this build: "@,
                detail@,
                Seq::empty(),
            );
        },
    }
}

proof fn lemma_two(a: Seq<char>, x: Seq<char>, b: Seq<char>, y: Seq<char>, c: Seq<char>)
    ensures
        holds(a + x + b + y + c, x),
        holds(a + x + b + y + c, y),
        holds(a + x + b + y, x),
        holds(a + x + b + y, y),
{
    lemma_holds(a, x, b);
    lemma_still_holds(Seq::empty(), a + x + b, y, x);
    lemma_still_holds(Seq::empty(), a + x + b + y, c, x);
    lemma_holds(a + x + b, y, c);
}

/// A ceremony below its threshold says how many signed and how many had to;
/// any other failure is told as it came.
pub proof fn law_ceremony_failures(have: usize, need: usize, t: String)
    ensures
        holds(
            AggregateError::ThresholdNotMet { have, need }.shown(),
            text::decimal(have as nat),
        ),
        holds(
            AggregateError::ThresholdNotMet { have, need }.shown(),
            text::decimal(need as nat),
        ),
        holds(AggregateError::Other(t).shown(), t@),
{
    lemma_two(
        "quorum not met: have "@,
        text::decimal(have as nat),
        " of "@,
        text::decimal(need as nat),
        " — the ceremony cannot produce a group signature below the threshold (this is the refusal, not a retry hint)"@,
    );
    lemma_holds("aggregation: "@, t@, Seq::empty());
}

/// A signer that is no member is named in the refusal of the qualifying set.
pub proof fn law_strangers_are_named(
    o: OptionsView,
    members: Seq<Seq<char>>,
    ids: Seq<Seq<char>>,
    j: JudgementsView,
)
    requires
        ceremony::ids_named("--signer"@, o.signers, j) == Ok::<Seq<Seq<char>>, Seq<char>>(ids),
    ensures
        ceremony::qualifying_of(o, members, j) matches Err(m) ==> exists|i: int|
            0 <= i < ids.len() && !members.contains(#[trigger] ids[i]) && holds(m, ids[i]),
{
    if let Some(s) = ceremony::first_stranger(ids, members) {
        lemma_stranger(ids, members);
        lemma_holds("signer "@, s, " is not a member of the quorum"@);
    }
}

proof fn lemma_stranger(ids: Seq<Seq<char>>, members: Seq<Seq<char>>)
    ensures
        ceremony::first_stranger(ids, members) matches Some(s) ==> exists|i: int|
            0 <= i < ids.len() && !members.contains(#[trigger] ids[i]) && ids[i] == s,
    decreases ids.len(),
{
    if ids.len() > 0 {
        let t = ids.drop_last();
        lemma_stranger(t, members);
        if let Some(s) = ceremony::first_stranger(t, members) {
            let i = choose|i: int|
                0 <= i < t.len() && !members.contains(#[trigger] t[i]) && t[i] == s;
            assert(ids[i] == t[i]);
        }
    }
}

/// Every signer is quoted in a list of the signers.
pub proof fn law_signers_are_quoted(s: Seq<Seq<char>>, i: int)
    requires
        0 <= i < s.len(),
    ensures
        holds(ceremony::quoted_list(s), ceremony::quoted_text(s[i])),
    decreases s.len(),
{
    if s.len() == 1 {
        lemma_holds(Seq::empty(), ceremony::quoted_text(s[0]), Seq::empty());
        assert(Seq::empty() + ceremony::quoted_text(s[0]) =~= ceremony::quoted_text(s[0]));
    } else if i == s.len() - 1 {
        lemma_holds(
            ceremony::quoted_list(s.drop_last()) + ", "@,
            ceremony::quoted_text(s.last()),
            Seq::empty(),
        );
    } else {
        let t = s.drop_last();
        law_signers_are_quoted(t, i);
        let q = ceremony::quoted_text(s[i]);
        lemma_still_holds(Seq::empty(), ceremony::quoted_list(t), ", "@, q);
        lemma_still_holds(
            Seq::empty(),
            ceremony::quoted_list(t) + ", "@,
            ceremony::quoted_text(s.last()),
            q,
        );
    }
}

/// The report of a ceremony says the threshold and the number of members, the
/// signers, the group's public key and where the documents are.
pub proof fn law_report_says_what_was_done(p: PlanView, signers: Seq<Seq<char>>, c: CeremonyView)
    ensures
        ({
            let m = ceremony::report_of(p, signers, c);
            &&& text::has_prefix(
                m,
                text::decimal(c.threshold as nat) + "-of-"@ + text::decimal(c.members as nat),
            )
            &&& holds(m, ceremony::quoted_list(signers))
            &&& holds(m, hex::hex_text(c.public.bytes))
            &&& holds(m, p.out_dir)
        }),
{
    let n = text::decimal(c.threshold as nat) + "-of-"@ + text::decimal(c.members as nat);
    let w = " ceremony complete — qualifying set ["@;
    let q = ceremony::quoted_list(signers);
    let a = n + w + q;
    let x =
        "] (no member key can sign alone; the group key matches no member)\ngroup public key: "@;
    let k = hex::hex_text(c.public.bytes);
    let b = x + k + "\nwrote "@ + p.out_dir
        + "/quorum-node.json (POST /nodes — pinning is load-bearing),\n"@;
    let d = p.out_dir + "/revocation.json (POST /revocations), "@ + p.out_dir + "/ceremony.json"@;
    assert(ceremony::report_of(p, signers, c) == a + b + d);
    assert((a + b + d).take(n.len() as int) =~= n);
    lemma_holds(n + w, q, Seq::empty());
    lemma_still_holds(Seq::empty(), a, b, q);
    lemma_still_holds(Seq::empty(), a + b, d, q);
    lemma_two(
        x,
        k,
        "\nwrote "@,
        p.out_dir,
        "/quorum-node.json (POST /nodes — pinning is load-bearing),\n"@,
    );
    lemma_still_holds(a, b, d, k);
    lemma_still_holds(a, b, d, p.out_dir);
}

/// A failed exchange tells a head that cannot be read by its first line.
pub proof fn law_bad_heads_are_shown(head: Seq<Seq<char>>, body: Seq<u8>, closed: bool)
    requires
        httpc::status_of(head[0]) is None,
    ensures
        httpc::answered(head, body, closed) matches ExchangeView::Failed(e) && e is BadHead
            && holds(e.shown(), head[0]),
{
    lemma_holds("bad status line `"@, head[0], "`"@);
}

/// A text or a suite on which there is no verdict is refused by its name.
pub proof fn law_unjudged_names_are_said(j: JudgementsView, raw: Seq<char>)
    ensures
        (forall|i: int| 0 <= i < j.nodes.len() ==> (#[trigger] j.nodes[i]).raw != raw) ==> (j.node(
            raw,
        ) matches Err(m) && holds(m, raw)),
        (forall|i: int| 0 <= i < j.suites.len() ==> (#[trigger] j.suites[i]).token != raw) ==> (
        j.suite(raw) matches Err(m) && holds(m, raw)),
{
    lemma_holds("no verdict on `"@, raw, "`"@);
    lemma_no_row(j.nodes, raw);
    lemma_no_suite(j.suites, raw);
}

proof fn lemma_no_row(rows: Seq<TextVerdictView>, raw: Seq<char>)
    ensures
        (forall|i: int| 0 <= i < rows.len() ==> (#[trigger] rows[i]).raw != raw)
            ==> judge::text_verdict(rows, raw) == Err::<Seq<char>, Seq<char>>(judge::unjudged(raw)),
    decreases rows.len(),
{
    if rows.len() > 0 {
        let t = rows.drop_first();
        assert(forall|i: int| 0 <= i < t.len() ==> #[trigger] t[i] == rows[i + 1]);
        lemma_no_row(t, raw);
    }
}

proof fn lemma_no_suite(rows: Seq<SuiteVerdictView>, raw: Seq<char>)
    ensures
        (forall|i: int| 0 <= i < rows.len() ==> (#[trigger] rows[i]).token != raw)
            ==> judge::suite_verdict(rows, raw) == Err::<SuiteView, Seq<char>>(
            judge::unjudged(raw),
        ),
    decreases rows.len(),
{
    if rows.len() > 0 {
        let t = rows.drop_first();
        assert(forall|i: int| 0 <= i < t.len() ==> #[trigger] t[i] == rows[i + 1]);
        lemma_no_suite(t, raw);
    }
}

} // verus!
