//! What documents state: each member of a document that is written, and
//! where each part of a value that is read comes from.

use vstd::prelude::*;

use crate::data;
use crate::hex;
use crate::json::JsonView;
use crate::judge::JudgementsView;
use crate::model::{
    Interval, NodeKindView, PublicKeyView, QuorumAttestationView, RegisteredKey,
    RegisteredKeyView, RevocationReasonView, RevocationView, RevokedSubjectView, SignatureSlot,
    SignatureSlotView, SuiteView, WitnessAttestation, WitnessAttestationView,
};
use crate::text;
use crate::time;
use crate::time::Timestamp;
use crate::wire;
use crate::wire::Wire;

verus! {

// ---------------------------------------------------------------------------
// Written
// ---------------------------------------------------------------------------

/// The tokens of the reasons that void what was done under them.
pub open spec fn voiding_token(t: Seq<char>) -> bool {
    t == "misissuance"@ || t == "fraudulent-issuance"@ || t == "authority-compromised"@
}

/// The tokens of the reasons that only end what they are declared of.
pub open spec fn ending_token(t: Seq<char>) -> bool {
    t == "key-compromise"@ || t == "cessation"@ || t == "supersession"@ || t
        == "affiliation-change"@ || t == "condition-withdrawal"@
}

/// The tokens of the reasons are told apart.
pub proof fn lemma_tokens_apart()
    ensures
        forall|t: Seq<char>| !(#[trigger] voiding_token(t) && ending_token(t)),
        "misissuance"@ != "fraudulent-issuance"@,
        "misissuance"@ != "authority-compromised"@,
        "fraudulent-issuance"@ != "authority-compromised"@,
        "key-compromise"@ != "cessation"@,
        "key-compromise"@ != "supersession"@,
        "cessation"@ != "supersession"@,
{
    reveal_strlit("misissuance");
    reveal_strlit("fraudulent-issuance");
    reveal_strlit("authority-compromised");
    reveal_strlit("key-compromise");
    reveal_strlit("cessation");
    reveal_strlit("supersession");
    reveal_strlit("affiliation-change");
    reveal_strlit("condition-withdrawal");
    assert("misissuance"@.len() == 11);
    assert("fraudulent-issuance"@.len() == 19);
    assert("authority-compromised"@.len() == 21);
    assert("key-compromise"@.len() == 14);
    assert("cessation"@.len() == 9);
    assert("supersession"@.len() == 12);
    assert("affiliation-change"@.len() == 18);
    assert("condition-withdrawal"@.len() == 20);
}

/// A reason is retroactive exactly when its token is one of the three that
/// void, and prospective exactly when it is one of the five that only end.
pub proof fn law_retroactive_reasons(r: RevocationReasonView)
    ensures
        r.is_retroactive() <==> voiding_token(r.token()),
        !r.is_retroactive() <==> ending_token(r.token()),
        r is Misissuance <==> r.token() == "misissuance"@,
        r is FraudulentIssuance <==> r.token() == "fraudulent-issuance"@,
        r is AuthorityCompromised <==> r.token() == "authority-compromised"@,
        r is KeyCompromise <==> r.token() == "key-compromise"@,
        r is Cessation <==> r.token() == "cessation"@,
        r is Supersession <==> r.token() == "supersession"@,
        r is AffiliationChange <==> r.token() == "affiliation-change"@,
        r is ConditionWithdrawal <==> r.token() == "condition-withdrawal"@,
{
    reveal_strlit("misissuance");
    reveal_strlit("fraudulent-issuance");
    reveal_strlit("authority-compromised");
    reveal_strlit("key-compromise");
    reveal_strlit("cessation");
    reveal_strlit("supersession");
    reveal_strlit("affiliation-change");
    reveal_strlit("condition-withdrawal");
    assert("misissuance"@.len() == 11);
    assert("fraudulent-issuance"@.len() == 19);
    assert("authority-compromised"@.len() == 21);
    assert("key-compromise"@.len() == 14);
    assert("cessation"@.len() == 9);
    assert("supersession"@.len() == 12);
    assert("affiliation-change"@.len() == 18);
    assert("condition-withdrawal"@.len() == 20);
}

/// The document states the reason: its token, whether it voids, and its
/// parameter.
pub open spec fn states_reason(d: JsonView, r: RevocationReasonView) -> bool {
    &&& d.get("token"@) == Some(JsonView::Str(r.token()))
    &&& d.get("retroactive"@) == Some(JsonView::Bool(voiding_token(r.token())))
    &&& match r {
        RevocationReasonView::KeyCompromise { after } => d.get("after"@) == Some(
            JsonView::Str(time::stamp(after.secs as int)),
        ),
        RevocationReasonView::AuthorityCompromised { detected_at } => d.get("detected_at"@) == Some(
            JsonView::Str(time::stamp(detected_at.secs as int)),
        ),
        RevocationReasonView::Supersession { by } => d.get("by"@) == Some(JsonView::Str(by)),
        _ => true,
    }
}

/// The document states the subject: what kind it is of, and which it is.
pub open spec fn states_subject(d: JsonView, s: RevokedSubjectView) -> bool {
    match s {
        RevokedSubjectView::Key(k) => d.get("kind"@) == Some(JsonView::Str("key"@)) && d.get("id"@)
            == Some(JsonView::Str(k)) && d.get("label"@) == Some(JsonView::Str("key"@ + ":"@ + k)),
        RevokedSubjectView::Node(n) => d.get("kind"@) == Some(JsonView::Str("node"@)) && d.get(
            "id"@,
        ) == Some(JsonView::Str(n)) && d.get("label"@) == Some(
            JsonView::Str("node"@ + ":"@ + n),
        ),
        RevokedSubjectView::Passport(p) => d.get("kind"@) == Some(JsonView::Str("passport"@))
            && d.get("id"@) == Some(JsonView::Str(p)) && d.get("label"@) == Some(
            JsonView::Str("passport"@ + ":"@ + p),
        ),
        RevokedSubjectView::Condition { node, condition } => d.get("kind"@) == Some(
            JsonView::Str("condition"@),
        ) && d.get("node"@) == Some(JsonView::Str(node)) && d.get("condition"@) == Some(
            condition.doc,
        ) && d.get("id"@) == Some(JsonView::Str(node + ":`"@ + condition.text + "`"@)),
    }
}

/// The document states the window: where it starts, where it ends, and that
/// it is open exactly when it has no end.
pub open spec fn states_window(d: JsonView, w: Interval) -> bool {
    &&& d.get("start"@) == Some(JsonView::Str(time::stamp(w.from.secs as int)))
    &&& match w.to {
        Some(t) => d.get("end"@) == Some(JsonView::Str(time::stamp(t.secs as int))) && d.get(
            "open"@,
        ) == Some(JsonView::Bool(false)),
        None => d.get("end"@) == Some(JsonView::Null) && d.get("open"@) == Some(
            JsonView::Bool(true),
        ),
    }
}

/// Each part of a declaration is stated by a document of its own.
pub proof fn law_parts_are_stated(
    r: RevocationReasonView,
    s: RevokedSubjectView,
    w: Interval,
)
    ensures
        states_reason(wire::reason_value(r), r),
        states_subject(wire::subject_value(s), s),
        states_window(wire::interval_value(w), w),
{
    law_retroactive_reasons(r);
    reveal_strlit("token");
    reveal_strlit("retroactive");
    reveal_strlit("after");
    reveal_strlit("detected_at");
    reveal_strlit("by");
    reveal_strlit("kind");
    reveal_strlit("id");
    reveal_strlit("label");
    reveal_strlit("node");
    reveal_strlit("condition");
    reveal_strlit("start");
    reveal_strlit("end");
    reveal_strlit("open");
    assert("token"@.len() == 5 && "token"@[0] == 't');
    assert("after"@.len() == 5 && "after"@[0] == 'a');
    assert("label"@.len() == 5 && "label"@[0] == 'l');
    assert("start"@.len() == 5 && "start"@[0] == 's');
    assert("retroactive"@.len() == 11 && "retroactive"@[0] == 'r');
    assert("detected_at"@.len() == 11 && "detected_at"@[0] == 'd');
    assert("by"@.len() == 2 && "by"@[0] == 'b');
    assert("id"@.len() == 2 && "id"@[0] == 'i');
    assert("kind"@.len() == 4 && "kind"@[0] == 'k');
    assert("node"@.len() == 4 && "node"@[0] == 'n');
    assert("open"@.len() == 4 && "open"@[0] == 'o');
    assert("condition"@.len() == 9);
    assert("end"@.len() == 3);
}

/// The document states the attestation of a quorum.
pub open spec fn states_quorum(d: JsonView, q: QuorumAttestationView) -> bool {
    &&& d.get("quorum"@) == Some(JsonView::Str(q.quorum))
    &&& d.get("threshold"@) == Some(JsonView::Num(q.threshold as int))
    &&& d.get("signatures"@) matches Some(JsonView::Arr(slots)) && slots.len()
        == q.signatures.len() && forall|i: int|
        0 <= i < q.signatures.len() ==> states_slot(#[trigger] slots[i], q.signatures[i])
}

/// The document states the signature slot.
pub open spec fn states_slot(d: JsonView, s: SignatureSlotView) -> bool {
    &&& d.get("suite"@) == Some(JsonView::Str(s.suite.name))
    &&& d.get("key_id"@) == Some(JsonView::Str(s.key_id))
    &&& match s.signature {
        Some(b) => d.get("signature"@) == Some(JsonView::Str(hex::hex_text(b))),
        None => d.get("signature"@) == Some(JsonView::Null),
    }
}

/// The document states the declaration: who declared what of whom, when, for
/// which window and by which quorum.
pub open spec fn states_declaration(d: JsonView, r: RevocationView) -> bool {
    &&& d.get("subject"@) matches Some(x) && states_subject(x, r.subject)
    &&& d.get("reason"@) matches Some(x) && states_reason(x, r.reason)
    &&& d.get("declared_at"@) == Some(JsonView::Str(time::stamp(r.declared_at.secs as int)))
    &&& d.get("declared_by"@) == Some(JsonView::Str(r.declared_by))
    &&& d.get("window"@) matches Some(x) && states_window(x, r.window)
}

/// A slot and an attestation are stated by their documents.
pub proof fn law_attestations_are_stated(q: QuorumAttestationView, s: SignatureSlotView)
    ensures
        states_slot(wire::slot_value(s), s),
        states_quorum(wire::quorum_value(q), q),
{
    reveal_strlit("suite");
    reveal_strlit("key_id");
    reveal_strlit("signature");
    reveal_strlit("quorum");
    reveal_strlit("threshold");
    reveal_strlit("signatures");
    assert("suite"@.len() == 5);
    assert("key_id"@.len() == 6 && "key_id"@[0] == 'k');
    assert("quorum"@.len() == 6 && "quorum"@[0] == 'q');
    assert("signature"@.len() == 9 && "signature"@[0] == 's');
    assert("threshold"@.len() == 9 && "threshold"@[0] == 't');
    assert("signatures"@.len() == 10);
    assert forall|i: int| 0 <= i < q.signatures.len() implies states_slot(
        #[trigger] wire::docs::<SignatureSlot>(q.signatures)[i],
        q.signatures[i],
    ) by {}
}

/// A declaration is stated by its document, its quorum included.
pub proof fn law_declarations_are_stated(r: RevocationView)
    ensures
        states_declaration(wire::revocation_value(r), r),
        match r.quorum {
            Some(q) => wire::revocation_value(r).get("quorum"@) matches Some(x) && states_quorum(
                x,
                q,
            ),
            None => wire::revocation_value(r).get("quorum"@) == Some(JsonView::Null),
        },
{
    law_parts_are_stated(r.reason, r.subject, r.window);
    if let Some(q) = r.quorum {
        law_attestations_are_stated(q, q.signatures[0]);
    }
    reveal_strlit("subject");
    reveal_strlit("reason");
    reveal_strlit("declared_at");
    reveal_strlit("declared_by");
    reveal_strlit("window");
    reveal_strlit("quorum");
    assert("subject"@.len() == 7);
    assert("reason"@.len() == 6 && "reason"@[0] == 'r');
    assert("window"@.len() == 6 && "window"@[0] == 'w');
    assert("quorum"@.len() == 6 && "quorum"@[0] == 'q');
    assert("declared_at"@.len() == 11 && "declared_at"@[9] == 'a');
    assert("declared_by"@.len() == 11 && "declared_by"@[9] == 'b');
}

// ---------------------------------------------------------------------------
// Read
// ---------------------------------------------------------------------------

/// The member states an instant, or none: it is missing, null or empty.
pub open spec fn instant_or_none(d: JsonView, name: Seq<char>) -> bool {
    match d.get(name) {
        None => true,
        Some(JsonView::Null) => true,
        Some(JsonView::Str(t)) => t.len() == 0 || time::parsed(t) is Some,
        Some(_) => false,
    }
}

/// What the member states is the instant, if it states one.
pub open spec fn instant_is(d: JsonView, name: Seq<char>, t: Option<Timestamp>) -> bool {
    match t {
        Some(t) => d.get(name) matches Some(JsonView::Str(s)) && s.len() > 0 && time::parsed(s)
            == Some(t.secs as int),
        None => d.get(name) is None || d.get(name) == Some(JsonView::Null) || (d.get(
            name,
        ) matches Some(JsonView::Str(s)) && s.len() == 0),
    }
}

/// The member is a text that states an instant.
pub open spec fn instant_at(d: JsonView, name: Seq<char>) -> bool {
    d.get(name) matches Some(JsonView::Str(t)) && time::parsed(t) is Some
}

proof fn lemma_instants(d: JsonView, name: Seq<char>)
    ensures
        wire::opt_ts_at(d, name) is Ok <==> instant_or_none(d, name),
        wire::opt_ts_at(d, name) matches Ok(t) ==> instant_is(d, name, t),
        d.get(name) matches Some(JsonView::Str(s)) ==> (wire::ts_of(s) is Ok <==> time::parsed(
            s,
        ) is Some) && (wire::ts_of(s) matches Ok(t) ==> time::parsed(s) == Some(t.secs as int)),
{
    if let Some(JsonView::Str(s)) = d.get(name) {
        time::law_stated_instants_are_counted(s);
    }
}

/// A window is read from the instants that `start` and `end` state, the end
/// not before the start; it is open where no end is stated.
pub proof fn law_windows_are_read(d: JsonView)
    ensures
        wire::interval_of(d) is Ok <==> instant_at(d, "start"@) && instant_or_none(d, "end"@) && (
        d.get("end"@) matches Some(JsonView::Str(e)) ==> e.len() == 0 || time::parsed(
            (d.get("start"@)->0)->Str_0,
        )->0 <= time::parsed(e)->0),
        wire::interval_of(d) matches Ok(w) ==> {
            &&& d.get("start"@) matches Some(JsonView::Str(s)) && time::parsed(s) == Some(
                w.from.secs as int,
            )
            &&& instant_is(d, "end"@, w.to)
            &&& w.to matches Some(t) ==> w.from.secs <= t.secs
        },
{
    lemma_instants(d, "start"@);
    lemma_instants(d, "end"@);
}

/// A reason is read under the token that states it, with its parameter; any
/// other token is refused.
pub proof fn law_reasons_are_read(d: JsonView, j: JudgementsView)
    ensures
        wire::reason_of(d, j) is Ok <==> (d.get("token"@) matches Some(JsonView::Str(t)) && (
        voiding_token(t) || ending_token(t)) && (t == "key-compromise"@ ==> instant_at(d, "after"@))
            && (t == "authority-compromised"@ ==> instant_at(d, "detected_at"@)) && (t
            == "supersession"@ ==> (d.get("by"@) matches Some(JsonView::Str(n)) && j.node(n) is Ok))),
        wire::reason_of(d, j) matches Ok(r) ==> {
            &&& d.get("token"@) == Some(JsonView::Str(r.token()))
            &&& r.is_retroactive() <==> voiding_token(r.token())
            &&& r matches RevocationReasonView::KeyCompromise { after } ==> (d.get(
                "after"@,
            ) matches Some(JsonView::Str(s)) && time::parsed(s) == Some(after.secs as int))
            &&& r matches RevocationReasonView::AuthorityCompromised { detected_at } ==> (d.get(
                "detected_at"@,
            ) matches Some(JsonView::Str(s)) && time::parsed(s) == Some(detected_at.secs as int))
            &&& r matches RevocationReasonView::Supersession { by } ==> (d.get("by"@) matches Some(
                JsonView::Str(s),
            ) && j.node(s) == Ok::<Seq<char>, Seq<char>>(by))
        },
{
    lemma_instants(d, "after"@);
    lemma_instants(d, "detected_at"@);
    reveal_strlit("misissuance");
    reveal_strlit("fraudulent-issuance");
    reveal_strlit("authority-compromised");
    reveal_strlit("key-compromise");
    reveal_strlit("cessation");
    reveal_strlit("supersession");
    reveal_strlit("affiliation-change");
    reveal_strlit("condition-withdrawal");
    assert("misissuance"@.len() == 11);
    assert("fraudulent-issuance"@.len() == 19);
    assert("authority-compromised"@.len() == 21);
    assert("key-compromise"@.len() == 14);
    assert("cessation"@.len() == 9);
    assert("supersession"@.len() == 12);
    assert("affiliation-change"@.len() == 18);
    assert("condition-withdrawal"@.len() == 20);
}

/// A subject is read as the kind that it states, under the id that the trust
/// model accepts of that kind; any other kind is refused.
pub proof fn law_subjects_are_read(d: JsonView, j: JudgementsView)
    ensures
        wire::subject_of(d, j) matches Ok(s) ==> (d.get("kind"@) matches Some(JsonView::Str(k))
            && d.get("id"@) matches Some(JsonView::Str(id)) && match s {
            RevokedSubjectView::Key(x) => k == "key"@ && j.key(id) == Ok::<Seq<char>, Seq<char>>(x),
            RevokedSubjectView::Node(x) => k == "node"@ && j.node(id) == Ok::<Seq<char>, Seq<char>>(
                x,
            ),
            RevokedSubjectView::Passport(x) => k == "passport"@ && j.passport(id) == Ok::<
                Seq<char>,
                Seq<char>,
            >(x),
            RevokedSubjectView::Condition { node, condition } => k == "condition"@ && (d.get(
                "node"@,
            ) matches Some(JsonView::Str(n)) && j.node(n) == Ok::<Seq<char>, Seq<char>>(node))
                && d.get("condition"@) is Some && j.condition == Some(condition),
        }),
        wire::subject_of(d, j) is Ok <==> (d.get("kind"@) matches Some(JsonView::Str(k)) && d.get(
            "id"@,
        ) matches Some(JsonView::Str(id)) && ((k == "key"@ && j.key(id) is Ok) || (k == "node"@
            && j.node(id) is Ok) || (k == "passport"@ && j.passport(id) is Ok) || (k
            == "condition"@ && (d.get("node"@) matches Some(JsonView::Str(n)) && j.node(n) is Ok)
            && d.get("condition"@) is Some && j.condition is Some))),
{
    reveal_strlit("key");
    reveal_strlit("node");
    reveal_strlit("passport");
    reveal_strlit("condition");
    assert("key"@.len() == 3);
    assert("node"@.len() == 4);
    assert("passport"@.len() == 8);
    assert("condition"@.len() == 9);
}

/// A label is a kind and an id around its first colon, and is read as they
/// are; a condition has no label form.
pub proof fn law_labels_are_read(s: Seq<char>, j: JudgementsView)
    ensures
        wire::subject_of_label(s, j) matches Ok(x) ==> (text::split_at_first(s, ":"@) matches Some(
            (kind, id),
        ) && match x {
            RevokedSubjectView::Key(v) => text::trimmed(kind) == "key"@ && j.key(id) == Ok::<
                Seq<char>,
                Seq<char>,
            >(v),
            RevokedSubjectView::Node(v) => text::trimmed(kind) == "node"@ && j.node(id) == Ok::<
                Seq<char>,
                Seq<char>,
            >(v),
            RevokedSubjectView::Passport(v) => text::trimmed(kind) == "passport"@ && j.passport(id)
                == Ok::<Seq<char>, Seq<char>>(v),
            RevokedSubjectView::Condition { .. } => false,
        }),
        wire::subject_of_label(s, j) is Ok <==> (text::split_at_first(s, ":"@) matches Some(
            (kind, id),
        ) && ((text::trimmed(kind) == "key"@ && j.key(id) is Ok) || (text::trimmed(kind)
            == "node"@ && j.node(id) is Ok) || (text::trimmed(kind) == "passport"@ && j.passport(
            id,
        ) is Ok))),
{
    reveal_strlit("key");
    reveal_strlit("node");
    reveal_strlit("passport");
    reveal_strlit("condition");
    assert("key"@.len() == 3);
    assert("node"@.len() == 4);
    assert("passport"@.len() == 8);
    assert("condition"@.len() == 9);
}

/// A list is read element by element: it is refused exactly when one of its
/// elements is, and what is read of each stands in its place.
pub proof fn law_lists_are_read<T: wire::Wire>(s: Seq<JsonView>, j: JudgementsView)
    ensures
        wire::read_all::<T>(s, j) is Ok <==> forall|i: int|
            0 <= i < s.len() ==> T::read(#[trigger] s[i], j) is Ok,
        wire::read_all::<T>(s, j) matches Ok(v) ==> v.len() == s.len() && forall|i: int|
            0 <= i < s.len() ==> T::read(#[trigger] s[i], j) == Ok::<T::V, Seq<char>>(v[i]),
    decreases s.len(),
{
    if s.len() > 0 {
        let rest = s.drop_last();
        law_lists_are_read::<T>(rest, j);
        assert(forall|i: int| 0 <= i < rest.len() ==> rest[i] == s[i]);
        let all = forall|i: int| 0 <= i < s.len() ==> T::read(#[trigger] s[i], j) is Ok;
        if all {
            assert forall|i: int| 0 <= i < rest.len() implies T::read(
                #[trigger] rest[i],
                j,
            ) is Ok by {
                assert(T::read(s[i], j) is Ok);
            }
            assert(T::read(s[s.len() - 1], j) is Ok);
        }
        if let Ok(v) = wire::read_all::<T>(s, j) {
            assert forall|i: int| 0 <= i < s.len() implies T::read(#[trigger] s[i], j) == Ok::<
                T::V,
                Seq<char>,
            >(v[i]) by {
                if i < rest.len() {
                    assert(T::read(rest[i], j) is Ok);
                }
            }
        }
    }
}

/// The slot that a document states: a suite and a key id that the trust model
/// accepts, and a signature in hex of the length of the suite, or none.
pub proof fn law_slots_are_read(d: JsonView, j: JudgementsView)
    ensures
        wire::slot_of(d, j) matches Ok(s) ==> {
            &&& d.get("suite"@) matches Some(JsonView::Str(t)) && j.suite(t) == Ok::<
                SuiteView,
                Seq<char>,
            >(s.suite)
            &&& d.get("key_id"@) matches Some(JsonView::Str(t)) && j.key(t) == Ok::<
                Seq<char>,
                Seq<char>,
            >(s.key_id)
            &&& match s.signature {
                Some(b) => b.len() == s.suite.signature_len && (d.get("signature"@) matches Some(
                    JsonView::Str(h),
                ) && hex::hex_value(h) == Ok::<Seq<u8>, Seq<char>>(b)),
                None => d.get("signature"@) is None || d.get("signature"@) == Some(JsonView::Null),
            }
        },
        wire::slot_of(d, j) is Ok <==> (d.get("suite"@) matches Some(JsonView::Str(t)) && d.get(
            "key_id"@,
        ) matches Some(JsonView::Str(k)) && j.suite(t) matches Ok(suite) && j.key(k) is Ok && (
        match d.get("signature"@) {
            None => true,
            Some(JsonView::Null) => true,
            Some(JsonView::Str(h)) => hex::hex_value(h) matches Ok(b) && b.len()
                == suite.signature_len,
            Some(_) => false,
        })),
{
}

/// The attestation that a document states: the quorum, the threshold and
/// each slot, none of them missing.
pub proof fn law_quorums_are_read(d: JsonView, j: JudgementsView)
    ensures
        wire::quorum_of(d, j) matches Ok(q) ==> {
            &&& d.get("quorum"@) matches Some(JsonView::Str(t)) && j.node(t) == Ok::<
                Seq<char>,
                Seq<char>,
            >(q.quorum)
            &&& d.get("threshold"@) matches Some(JsonView::Num(n)) && 0 <= n <= u64::MAX
                && q.threshold == n as u64 as usize
            &&& d.get("signatures"@) matches Some(JsonView::Arr(a)) && q.signatures.len() == a.len()
                && forall|i: int|
                0 <= i < a.len() ==> wire::slot_of(#[trigger] a[i], j) == Ok::<
                    SignatureSlotView,
                    Seq<char>,
                >(q.signatures[i])
        },
        wire::quorum_of(d, j) is Ok <==> (d.get("quorum"@) matches Some(JsonView::Str(t)) && j.node(
            t,
        ) is Ok) && (d.get("threshold"@) matches Some(JsonView::Num(n)) && 0 <= n <= u64::MAX) && (
        d.get("signatures"@) matches Some(JsonView::Arr(a)) && forall|i: int|
            0 <= i < a.len() ==> wire::slot_of(#[trigger] a[i], j) is Ok),
{
    if let Some(JsonView::Arr(a)) = d.get("signatures"@) {
        law_lists_are_read::<SignatureSlot>(a, j);
        assert forall|i: int| 0 <= i < a.len() implies SignatureSlot::read(a[i], j)
            == wire::slot_of(#[trigger] a[i], j) by {}
        if wire::quorum_of(d, j) is Ok {
            let q = wire::quorum_of(d, j)->Ok_0;
            assert forall|i: int| 0 <= i < a.len() implies wire::slot_of(#[trigger] a[i], j)
                == Ok::<SignatureSlotView, Seq<char>>(q.signatures[i]) by {
                assert(SignatureSlot::read(a[i], j) is Ok);
            }
        } else if forall|i: int| 0 <= i < a.len() ==> wire::slot_of(#[trigger] a[i], j) is Ok {
            assert forall|i: int| 0 <= i < a.len() implies SignatureSlot::read(
                #[trigger] a[i],
                j,
            ) is Ok by {
                assert(wire::slot_of(a[i], j) is Ok);
            }
        }
    }
}

/// The declaration that a document states, each part from the member of its
/// name; it is refused exactly when one of the parts is.
pub proof fn law_declarations_are_read(d: JsonView, j: JudgementsView)
    ensures
        wire::revocation_of(d, j) matches Ok(r) ==> {
            &&& d.get("subject"@) matches Some(x) && wire::subject_of(x, j) == Ok::<
                RevokedSubjectView,
                Seq<char>,
            >(r.subject)
            &&& d.get("reason"@) matches Some(x) && wire::reason_of(x, j) == Ok::<
                RevocationReasonView,
                Seq<char>,
            >(r.reason)
            &&& d.get("declared_at"@) matches Some(JsonView::Str(t)) && time::parsed(t) == Some(
                r.declared_at.secs as int,
            )
            &&& d.get("declared_by"@) matches Some(JsonView::Str(t)) && j.node(t) == Ok::<
                Seq<char>,
                Seq<char>,
            >(r.declared_by)
            &&& d.get("window"@) matches Some(x) && wire::interval_of(x) == Ok::<
                Interval,
                Seq<char>,
            >(r.window)
            &&& match r.quorum {
                Some(q) => d.get("quorum"@) matches Some(x) && x != JsonView::Null
                    && wire::quorum_of(x, j) == Ok::<QuorumAttestationView, Seq<char>>(q),
                None => d.get("quorum"@) is None || d.get("quorum"@) == Some(JsonView::Null),
            }
        },
        wire::revocation_of(d, j) is Ok <==> (d.get("subject"@) matches Some(x) && wire::subject_of(
            x,
            j,
        ) is Ok) && (d.get("reason"@) matches Some(x) && wire::reason_of(x, j) is Ok) && instant_at(
            d,
            "declared_at"@,
        ) && (d.get("declared_by"@) matches Some(JsonView::Str(t)) && j.node(t) is Ok) && (d.get(
            "window"@,
        ) matches Some(x) && wire::interval_of(x) is Ok) && (d.get("quorum"@) is None || d.get(
            "quorum"@,
        ) == Some(JsonView::Null) || wire::quorum_of(d.get("quorum"@)->0, j) is Ok),
{
    lemma_instants(d, "declared_at"@);
    if let Some(x) = d.get("quorum"@) {
        assert(x is Null <==> x == JsonView::Null);
    }
}

/// The key that a document states: bytes that the trust model accepts as a
/// key, under the suite that is declared, case and hyphens aside.
pub proof fn law_keys_are_read(d: JsonView, j: JudgementsView)
    ensures
        wire::public_of(d, j) matches Ok(p) ==> (d.get("suite"@) matches Some(JsonView::Str(s))
            && d.get("public"@) matches Some(JsonView::Str(h)) && hex::hex_value(h) matches Ok(b)
            && j.public(b) == Ok::<PublicKeyView, Seq<char>>(p) && wire::folded(p.suite)
            == wire::folded(s)),
        wire::public_of(d, j) is Ok <==> (d.get("suite"@) matches Some(JsonView::Str(s)) && d.get(
            "public"@,
        ) matches Some(JsonView::Str(h)) && hex::hex_value(h) matches Ok(b) && j.public(
            b,
        ) matches Ok(p) && wire::folded(p.suite) == wire::folded(s)),
        wire::registered_of(d, j) matches Ok(k) ==> wire::public_of(d, j) == Ok::<
            PublicKeyView,
            Seq<char>,
        >(k.public) && k.key_id == k.public.key_id && (d.get("key_id"@) matches Some(
            JsonView::Str(t),
        ) && j.key(t) == Ok::<Seq<char>, Seq<char>>(k.key_id)),
        wire::registered_of(d, j) is Ok <==> (d.get("key_id"@) matches Some(JsonView::Str(t))
            && j.key(t) matches Ok(id) && wire::public_of(d, j) matches Ok(p) && p.key_id == id),
        wire::witness_of(d, j) matches Ok(w) ==> wire::public_of(d, j) == Ok::<
            PublicKeyView,
            Seq<char>,
        >(w.public) && (d.get("node"@) matches Some(JsonView::Str(t)) && j.node(t) == Ok::<
            Seq<char>,
            Seq<char>,
        >(w.node)),
        wire::witness_of(d, j) is Ok <==> wire::public_of(d, j) is Ok && (d.get("node"@) matches Some(
            JsonView::Str(t),
        ) && j.node(t) is Ok),
{
}

/// A key given in hex is read as one in a document is.
pub proof fn law_hex_keys_are_read(suite: Seq<char>, h: Seq<char>, j: JudgementsView)
    ensures
        wire::public_of_hex(suite, h, j) is Ok <==> (hex::hex_value(h) matches Ok(b) && j.public(
            b,
        ) matches Ok(p) && wire::folded(p.suite) == wire::folded(suite)),
        wire::public_of_hex(suite, h, j) matches Ok(p) ==> (hex::hex_value(h) matches Ok(b)
            && j.public(b) == Ok::<PublicKeyView, Seq<char>>(p)),
{
}

/// Suites are told apart by their names without hyphens and in lower case.
pub proof fn law_folded(s: Seq<char>)
    ensures
        forall|i: int|
            0 <= i < wire::folded(s).len() ==> #[trigger] wire::folded(s)[i] != '-' && !('A'
                <= wire::folded(s)[i] <= 'Z'),
        (forall|i: int| 0 <= i < s.len() ==> #[trigger] s[i] != '-' && !('A' <= s[i] <= 'Z'))
            ==> wire::folded(s) == s,
        wire::folded(text::upper(s)) == wire::folded(s),
        wire::folded(s.push('-')) == wire::folded(s),
{
    let l = text::lower(s);
    text::law_without(l, '-');
    assert forall|i: int| 0 <= i < wire::folded(s).len() implies #[trigger] wire::folded(s)[i]
        != '-' && !('A' <= wire::folded(s)[i] <= 'Z') by {
        let w = text::without(l, '-');
        assert(w.contains(w[i]));
        assert(l.contains(w[i]));
    }
    if forall|i: int| 0 <= i < s.len() ==> #[trigger] s[i] != '-' && !('A' <= s[i] <= 'Z') {
        assert(l =~= s);
    }
    assert(text::lower(text::upper(s)) =~= l);
    let more = text::lower(s.push('-'));
    assert(more =~= l.push('-'));
    text::law_without(more, '-');
    assert(more.drop_last() =~= l);
}

/// The kind of node that a document states.
pub proof fn law_node_kinds_are_read(d: JsonView, j: JudgementsView)
    ensures
        wire::node_kind_of(d, j) matches Ok(k) ==> match k {
            NodeKindView::Root => d == JsonView::Str("root"@),
            NodeKindView::Delegated => d == JsonView::Str("delegated"@),
            NodeKindView::End => d == JsonView::Str("end"@),
            NodeKindView::ThresholdGroup { threshold, members } => d.get(
                "threshold_group"@,
            ) matches Some(g) && (g.get("threshold"@) matches Some(JsonView::Num(n)) && threshold
                == n as u64 as usize) && (g.get("members"@) matches Some(JsonView::Arr(a))
                && wire::members_of(a, j) == Ok::<Seq<Seq<char>>, Seq<char>>(members)),
        },
        wire::node_kind_of(JsonView::Str("root"@), j) is Ok,
        wire::node_kind_of(JsonView::Str("delegated"@), j) is Ok,
        wire::node_kind_of(JsonView::Str("end"@), j) is Ok,
        d is Str && d != JsonView::Str("root"@) && d != JsonView::Str("delegated"@) && d
            != JsonView::Str("end"@) ==> wire::node_kind_of(d, j) is Err,
{
}

/// The members of a group are the ids that are stated and accepted, each
/// once and in ascending order.
pub proof fn law_members_are_read(s: Seq<JsonView>, j: JudgementsView)
    ensures
        wire::members_of(s, j) is Ok <==> forall|i: int|
            0 <= i < s.len() ==> (#[trigger] s[i] matches JsonView::Str(t) && j.node(t) is Ok),
        wire::members_of(s, j) matches Ok(v) ==> data::ascending::<String>(v) && forall|id: Seq<char>|
            #[trigger] v.contains(id) <==> exists|i: int|
                0 <= i < s.len() && (#[trigger] s[i] matches JsonView::Str(t) && j.node(t) == Ok::<
                    Seq<char>,
                    Seq<char>,
                >(id)),
    decreases s.len(),
{
    if s.len() > 0 {
        let rest = s.drop_last();
        law_members_are_read(rest, j);
        assert(forall|i: int| 0 <= i < rest.len() ==> rest[i] == s[i]);
        let all = forall|i: int|
            0 <= i < s.len() ==> (#[trigger] s[i] matches JsonView::Str(t) && j.node(t) is Ok);
        if all {
            assert forall|i: int| 0 <= i < rest.len() implies (
            #[trigger] rest[i] matches JsonView::Str(t) && j.node(t) is Ok) by {
                assert(s[i] matches JsonView::Str(t) && j.node(t) is Ok);
            }
            assert(s[s.len() - 1] matches JsonView::Str(t) && j.node(t) is Ok);
        }
        if let Ok(v) = wire::members_of(s, j) {
            let before = wire::members_of(rest, j)->Ok_0;
            let last = wire::member_of(s.last(), j)->Ok_0;
            data::lemma_filed_ascending::<String>(before, last);
            data::lemma_filed_set::<String>(before, last);
            assert forall|i: int| 0 <= i < s.len() implies (
            #[trigger] s[i] matches JsonView::Str(t) && j.node(t) is Ok) by {
                if i < rest.len() {
                    assert(rest[i] matches JsonView::Str(t) && j.node(t) is Ok);
                }
            }
            assert forall|id: Seq<char>| #[trigger] v.contains(id) <==> exists|i: int|
                0 <= i < s.len() && (#[trigger] s[i] matches JsonView::Str(t) && j.node(t) == Ok::<
                    Seq<char>,
                    Seq<char>,
                >(id)) by {
                assert(v.contains(id) == v.to_set().contains(id));
                assert(before.contains(id) == before.to_set().contains(id));
                if v.contains(id) {
                    if id == last {
                        assert(s[s.len() - 1] matches JsonView::Str(t) && j.node(t) == Ok::<
                            Seq<char>,
                            Seq<char>,
                        >(id));
                    } else {
                        assert(before.contains(id));
                        let i = choose|i: int|
                            0 <= i < rest.len() && (#[trigger] rest[i] matches JsonView::Str(t)
                                && j.node(t) == Ok::<Seq<char>, Seq<char>>(id));
                        assert(s[i] matches JsonView::Str(t) && j.node(t) == Ok::<
                            Seq<char>,
                            Seq<char>,
                        >(id));
                    }
                }
                if exists|i: int|
                    0 <= i < s.len() && (#[trigger] s[i] matches JsonView::Str(t) && j.node(t)
                        == Ok::<Seq<char>, Seq<char>>(id)) {
                    let i = choose|i: int|
                        0 <= i < s.len() && (#[trigger] s[i] matches JsonView::Str(t) && j.node(t)
                            == Ok::<Seq<char>, Seq<char>>(id));
                    if i < rest.len() {
                        assert(rest[i] matches JsonView::Str(t) && j.node(t) == Ok::<
                            Seq<char>,
                            Seq<char>,
                        >(id));
                        assert(before.contains(id));
                    }
                }
            }
        }
    }
}

/// The node that a document states: its id, its kind and each of its keys; a
/// node without `keys` has none.
pub proof fn law_nodes_are_read(d: JsonView, j: JudgementsView)
    ensures
        wire::node_of(d, j) matches Ok(n) ==> {
            &&& d.get("id"@) matches Some(JsonView::Str(t)) && j.node(t) == Ok::<
                Seq<char>,
                Seq<char>,
            >(n.id)
            &&& d.get("kind"@) matches Some(k) && wire::node_kind_of(k, j) == Ok::<
                NodeKindView,
                Seq<char>,
            >(n.kind)
            &&& match d.get("keys"@) {
                Some(JsonView::Arr(a)) => n.keys.len() == a.len() && forall|i: int|
                    0 <= i < a.len() ==> wire::registered_of(#[trigger] a[i], j) == Ok::<
                        RegisteredKeyView,
                        Seq<char>,
                    >(n.keys[i]),
                _ => n.keys.len() == 0,
            }
        },
        wire::node_of(d, j) is Ok <==> (d.get("id"@) matches Some(JsonView::Str(t)) && j.node(
            t,
        ) is Ok) && (d.get("kind"@) matches Some(k) && wire::node_kind_of(k, j) is Ok) && (d.get(
            "keys"@,
        ) matches Some(JsonView::Arr(a)) ==> forall|i: int|
            0 <= i < a.len() ==> wire::registered_of(#[trigger] a[i], j) is Ok),
{
    if let Some(JsonView::Arr(a)) = d.get("keys"@) {
        law_lists_are_read::<RegisteredKey>(a, j);
        assert forall|i: int| 0 <= i < a.len() implies RegisteredKey::read(a[i], j)
            == wire::registered_of(#[trigger] a[i], j) by {}
        if let Ok(n) = wire::node_of(d, j) {
            assert forall|i: int| 0 <= i < a.len() implies wire::registered_of(#[trigger] a[i], j)
                == Ok::<RegisteredKeyView, Seq<char>>(n.keys[i]) by {
                assert(RegisteredKey::read(a[i], j) is Ok);
            }
        } else if forall|i: int| 0 <= i < a.len() ==> wire::registered_of(#[trigger] a[i], j) is Ok {
            assert forall|i: int| 0 <= i < a.len() implies RegisteredKey::read(
                #[trigger] a[i],
                j,
            ) is Ok by {
                assert(wire::registered_of(a[i], j) is Ok);
            }
        }
    }
}

/// The edge that a document states: from its parent to its child, within the
/// scope that the trust model accepts, with each of its slots.
pub proof fn law_edges_are_read(d: JsonView, j: JudgementsView)
    ensures
        wire::edge_of(d, j) matches Ok(c) ==> {
            &&& d.get("parent"@) matches Some(JsonView::Str(t)) && j.node(t) == Ok::<
                Seq<char>,
                Seq<char>,
            >(c.parent)
            &&& d.get("child"@) matches Some(JsonView::Str(t)) && j.node(t) == Ok::<
                Seq<char>,
                Seq<char>,
            >(c.child)
            &&& d.get("scope"@) is Some && j.scope == Some(c.scope)
            &&& d.get("signatures"@) matches Some(JsonView::Arr(a)) && c.signatures.len() == a.len()
                && forall|i: int|
                0 <= i < a.len() ==> wire::slot_of(#[trigger] a[i], j) == Ok::<
                    SignatureSlotView,
                    Seq<char>,
                >(c.signatures[i])
        },
{
    if let Some(JsonView::Arr(a)) = d.get("signatures"@) {
        law_lists_are_read::<SignatureSlot>(a, j);
        if let Ok(c) = wire::edge_of(d, j) {
            assert forall|i: int| 0 <= i < a.len() implies wire::slot_of(#[trigger] a[i], j)
                == Ok::<SignatureSlotView, Seq<char>>(c.signatures[i]) by {
                assert(SignatureSlot::read(a[i], j) is Ok);
            }
        }
    }
}

/// The entry of a trust list that a document states: whose it is, from when
/// it is in force, and until when, if it says so.
pub proof fn law_entries_are_read(d: JsonView, j: JudgementsView)
    ensures
        wire::entry_of(d, j) matches Ok(e) ==> {
            &&& d.get("node"@) matches Some(JsonView::Str(t)) && j.node(t) == Ok::<
                Seq<char>,
                Seq<char>,
            >(e.node)
            &&& d.get("not_before"@) matches Some(JsonView::Str(t)) && time::parsed(t) == Some(
                e.not_before.secs as int,
            )
            &&& instant_is(d, "superseded_at"@, e.superseded_at)
        },
        wire::entry_of(d, j) is Ok <==> (d.get("node"@) matches Some(JsonView::Str(t)) && j.node(
            t,
        ) is Ok) && instant_at(d, "not_before"@) && instant_or_none(d, "superseded_at"@),
{
    lemma_instants(d, "not_before"@);
    lemma_instants(d, "superseded_at"@);
}

/// The attestation of a witness that a document states, and the entry of the
/// master list that holds such attestations.
pub proof fn law_master_entries_are_read(d: JsonView, j: JudgementsView)
    ensures
        wire::attestation_of(d, j) matches Ok(w) ==> {
            &&& d.get("witness"@) matches Some(JsonView::Str(t)) && j.node(t) == Ok::<
                Seq<char>,
                Seq<char>,
            >(w.witness)
            &&& d.get("at"@) matches Some(JsonView::Str(t)) && time::parsed(t) == Some(
                w.at.secs as int,
            )
            &&& d.get("slot"@) matches Some(x) && wire::slot_of(x, j) == Ok::<
                SignatureSlotView,
                Seq<char>,
            >(w.slot)
        },
        wire::attestation_of(d, j) is Ok <==> (d.get("witness"@) matches Some(JsonView::Str(t))
            && j.node(t) is Ok) && instant_at(d, "at"@) && (d.get("slot"@) matches Some(x)
            && wire::slot_of(x, j) is Ok),
        wire::master_entry_of(d, j) matches Ok(e) ==> {
            &&& d.get("node"@) matches Some(JsonView::Str(t)) && j.node(t) == Ok::<
                Seq<char>,
                Seq<char>,
            >(e.node)
            &&& d.get("attestations"@) matches Some(JsonView::Arr(a)) && e.attestations.len()
                == a.len() && forall|i: int|
                0 <= i < a.len() ==> wire::attestation_of(#[trigger] a[i], j) == Ok::<
                    WitnessAttestationView,
                    Seq<char>,
                >(e.attestations[i])
        },
{
    lemma_instants(d, "at"@);
    if let Some(JsonView::Arr(a)) = d.get("attestations"@) {
        law_lists_are_read::<WitnessAttestation>(a, j);
        if let Ok(e) = wire::master_entry_of(d, j) {
            assert forall|i: int| 0 <= i < a.len() implies wire::attestation_of(#[trigger] a[i], j)
                == Ok::<WitnessAttestationView, Seq<char>>(e.attestations[i]) by {
                assert(WitnessAttestation::read(a[i], j) is Ok);
            }
        }
    }
}

} // verus!
