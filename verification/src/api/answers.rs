//! What the public reads answer, stated over the documents that are served:
//! which declarations, lists and edges a reply holds, and which it leaves
//! out.

use vstd::prelude::*;

use crate::api;
use crate::api::reads;
use crate::api::reads::{
    EntryChecks, EntryChecksView, Listing, ListingView, ReadingView, RevocationQueryView,
};
use crate::data;
use crate::data::Keyed;
use crate::hex;
use crate::json::JsonView;
use crate::judge;
use crate::judge::SlotCheckView;
use crate::laws;
use crate::model::{
    DelegationCredential, DelegationCredentialView, DelegationNode, DelegationNodeView,
    MasterListEntry, MasterListEntryView, MasterListView, NodeKindView, QuorumAttestationView,
    RegisteredKey, RegisteredKeyView, RevocationView, RevokedSubjectView, SignatureSlot,
    TrustListEntryRecord, TrustListEntryRecordView, Witness, WitnessView,
};
use crate::quorum;
use crate::statements;
use crate::store;
use crate::store::{AuditRecordView, JurisdictionList, JurisdictionListView, StoreView};
use crate::text;
use crate::time;
use crate::time::Timestamp;
use crate::wire;

verus! {

// ---------------------------------------------------------------------------
// Revocations
// ---------------------------------------------------------------------------

/// The texts that ask for retroactive reasons.
pub open spec fn yes(t: Seq<char>) -> bool {
    text::lower(t) == "true"@ || text::lower(t) == "1"@ || text::lower(t) == "yes"@
}

/// The texts that ask for prospective reasons.
pub open spec fn no(t: Seq<char>) -> bool {
    text::lower(t) == "false"@ || text::lower(t) == "0"@ || text::lower(t) == "no"@
}

/// The request asks for the declaration: its reason voids if `retroactive`
/// says so and does not if it says not, its label starts with `subject`, and
/// neither its window nor the one asked about is over before the other
/// starts.
pub open spec fn asks_for(p: Map<Seq<char>, Seq<char>>, r: RevocationView) -> bool {
    &&& api::query(p, "retroactive"@) matches Some(t) ==> (yes(t) <==> statements::voiding_token(
        r.reason.token(),
    ))
    &&& api::query(p, "subject"@) matches Some(t) ==> exists|rest: Seq<char>|
        r.subject.label() == #[trigger] (t + rest)
    &&& api::asked_window(p) matches Ok(Some((start, end))) ==> {
        &&& r.window.to matches Some(to) ==> !(to.secs < start.secs)
        &&& end matches Some(e) ==> !(e.secs < r.window.from.secs)
    }
}

/// The positions, among the first `k` declarations, of those that a query
/// keeps.
spec fn picked(s: Seq<RevocationView>, q: RevocationQueryView, k: nat) -> Seq<int>
    decreases k,
{
    if k == 0 {
        Seq::empty()
    } else if reads::declaration_kept(s[k - 1], q) {
        picked(s, q, (k - 1) as nat).push(k - 1)
    } else {
        picked(s, q, (k - 1) as nat)
    }
}

proof fn lemma_picked(s: StoreView, q: RevocationQueryView, readings: Seq<ReadingView>, k: nat)
    ensures
        ({
            let at = picked(s.ledger, q, k);
            let rows = reads::declaration_rows(s, q, readings, k);
            &&& rows.len() == at.len()
            &&& forall|m: int|
                0 <= m < rows.len() ==> 0 <= #[trigger] at[m] < k && reads::declaration_kept(
                    s.ledger[at[m]],
                    q,
                )
            &&& forall|m: int|
                0 <= m < rows.len() ==> #[trigger] rows[m] == reads::declaration_row(
                    s,
                    at[m],
                    q.known_by,
                    readings[at[m]],
                )
            &&& forall|m: int, n: int| 0 <= m < n < at.len() ==> #[trigger] at[m] < #[trigger] at[n]
            &&& forall|i: int|
                0 <= i < k && reads::declaration_kept(#[trigger] s.ledger[i], q) ==> at.contains(i)
        }),
    decreases k,
{
    if k > 0 {
        lemma_picked(s, q, readings, (k - 1) as nat);
        let before = picked(s.ledger, q, (k - 1) as nat);
        let at = picked(s.ledger, q, k);
        assert forall|i: int|
            0 <= i < k && reads::declaration_kept(#[trigger] s.ledger[i], q) implies at.contains(
            i,
        ) by {
            if i < k - 1 {
                let m = choose|m: int| 0 <= m < before.len() && before[m] == i;
                assert(at[m] == i);
            } else {
                assert(at[at.len() - 1] == i);
            }
        }
    }
}

/// A row states its declaration and where it stands in the ledger.
pub proof fn law_row_states_its_declaration(
    s: StoreView,
    i: int,
    cutoff: Option<Timestamp>,
    reading: ReadingView,
)
    ensures
        ({
            let d = reads::declaration_row(s, i, cutoff, reading);
            let r = s.ledger[i];
            let known = cutoff matches Some(c) ==> r.declared_at.secs <= c.secs;
            &&& d.get("seq"@) == Some(JsonView::Num(i + 1))
            &&& statements::states_declaration(d, r)
            &&& d.get("quorum"@) == Some(JsonView::Null) <==> r.quorum is None
            &&& r.quorum matches Some(q) ==> (d.get("quorum"@) matches Some(x)
                && statements::states_quorum(x, q))
            &&& d.get("known_at_cutoff"@) == Some(JsonView::Bool(known))
            &&& d.get("voids_at_as_of"@) == Some(JsonView::Bool(known && reading.voids))
            &&& d.get("verifications_at_stand"@) == Some(JsonView::Bool(!(known && reading.voids)))
            &&& d.get("standing_at_as_of"@) == Some(
                JsonView::Str(
                    if !(known && reading.voids) {
                        "valid"@
                    } else if statements::voiding_token(r.reason.token()) {
                        "void-ab-initio"@
                    } else {
                        "suspended-from"@
                    },
                ),
            )
            &&& d.get("rule"@) == Some(
                JsonView::Str(
                    if statements::voiding_token(r.reason.token()) {
                        "retroactive: artifacts dated inside the window are void ab initio; outside re-validated"@
                    } else {
                        "prospective: acts dated before the window/open-end stand; from the effect moment onward, suspended"@
                    },
                ),
            )
        }),
{
    let r = s.ledger[i];
    statements::law_parts_are_stated(r.reason, r.subject, r.window);
    statements::law_retroactive_reasons(r.reason);
    reveal_strlit("seq");
    reveal_strlit("subject");
    reveal_strlit("reason");
    reveal_strlit("declared_at");
    reveal_strlit("declared_by");
    reveal_strlit("window");
    reveal_strlit("quorum");
    reveal_strlit("known_at_cutoff");
    reveal_strlit("voids_at_as_of");
    reveal_strlit("standing_at_as_of");
    reveal_strlit("verifications_at_stand");
    reveal_strlit("rule");
    assert("seq"@.len() == 3);
    assert("subject"@.len() == 7);
    assert("reason"@.len() == 6 && "reason"@[0] == 'r');
    assert("window"@.len() == 6 && "window"@[0] == 'w');
    assert("quorum"@.len() == 6 && "quorum"@[0] == 'q');
    assert("declared_at"@.len() == 11 && "declared_at"@[9] == 'a');
    assert("declared_by"@.len() == 11 && "declared_by"@[9] == 'b');
    assert("known_at_cutoff"@.len() == 15);
    assert("voids_at_as_of"@.len() == 14);
    assert("standing_at_as_of"@.len() == 17);
    assert("verifications_at_stand"@.len() == 22);
    assert("rule"@.len() == 4);
    if let Some(q) = r.quorum {
        statements::law_attestations_are_stated(q, q.signatures[0]);
        let x = reads::judged_quorum(q, reads::live_verdict(s, r, reading.checks));
        assert(statements::states_quorum(x, q)) by {
            reveal_strlit("quorum");
            reveal_strlit("threshold");
            reveal_strlit("form");
            reveal_strlit("verified_count");
            reveal_strlit("group_verified");
            reveal_strlit("quorate");
            reveal_strlit("signatures");
            assert("quorum"@.len() == 6);
            assert("threshold"@.len() == 9);
            assert("form"@.len() == 4);
            assert("verified_count"@.len() == 14 && "verified_count"@[0] == 'v');
            assert("group_verified"@.len() == 14 && "group_verified"@[0] == 'g');
            assert("quorate"@.len() == 7);
            assert("signatures"@.len() == 10);
        }
    }
}

/// The parameter `retroactive` is read as what it says.
pub proof fn law_retroactivity_asked(p: Map<Seq<char>, Seq<char>>)
    ensures
        match api::query(p, "retroactive"@) {
            None => reads::asked_retroactivity(p) == Ok::<Option<bool>, Seq<char>>(None),
            Some(t) => {
                &&& yes(t) <==> reads::asked_retroactivity(p) == Ok::<Option<bool>, Seq<char>>(
                    Some(true),
                )
                &&& no(t) <==> reads::asked_retroactivity(p) == Ok::<Option<bool>, Seq<char>>(
                    Some(false),
                )
                &&& !yes(t) && !no(t) <==> reads::asked_retroactivity(p) is Err
            },
        },
{
    reveal_strlit("true");
    reveal_strlit("1");
    reveal_strlit("yes");
    reveal_strlit("false");
    reveal_strlit("0");
    reveal_strlit("no");
    assert("true"@.len() == 4);
    assert("1"@.len() == 1 && "1"@[0] == '1');
    assert("0"@.len() == 1 && "0"@[0] == '0');
    assert("yes"@.len() == 3);
    assert("false"@.len() == 5);
    assert("no"@.len() == 2);
}

proof fn lemma_kept_is_asked(p: Map<Seq<char>, Seq<char>>, r: RevocationView)
    requires
        reads::query_of(p) is Ok,
    ensures
        reads::declaration_kept(r, reads::query_of(p)->Ok_0) <==> asks_for(p, r),
{
    law_retroactivity_asked(p);
    statements::law_retroactive_reasons(r.reason);
    let q = reads::query_of(p)->Ok_0;
    if let Some(t) = api::query(p, "subject"@) {
        text::law_prefix(r.subject.label(), t);
    }
}

/// Every row states a declaration of the ledger that the request asks for,
/// and its number.
pub open spec fn rows_asked(
    rows: Seq<JsonView>,
    ledger: Seq<RevocationView>,
    p: Map<Seq<char>, Seq<char>>,
) -> bool {
    forall|k: int|
        0 <= k < rows.len() ==> exists|i: int|
            0 <= i < ledger.len() && (#[trigger] rows[k]).get("seq"@) == Some(
                JsonView::Num(i + 1),
            ) && statements::states_declaration(rows[k], #[trigger] ledger[i]) && asks_for(
                p,
                ledger[i],
            )
}

/// Every declaration of the ledger that the request asks for has a row.
pub open spec fn rows_served(
    rows: Seq<JsonView>,
    ledger: Seq<RevocationView>,
    p: Map<Seq<char>, Seq<char>>,
) -> bool {
    forall|i: int|
        0 <= i < ledger.len() && asks_for(p, #[trigger] ledger[i]) ==> exists|k: int|
            0 <= k < rows.len() && (#[trigger] rows[k]).get("seq"@) == Some(JsonView::Num(i + 1))
}

/// The numbers of the rows ascend.
pub open spec fn rows_in_order(rows: Seq<JsonView>) -> bool {
    forall|k: int, m: int|
        0 <= k < m < rows.len() ==> ((#[trigger] rows[k]).get("seq"@)->0)->Num_0 < ((
        #[trigger] rows[m]).get("seq"@)->0)->Num_0
}

proof fn lemma_rows(
    s: StoreView,
    readings: Seq<ReadingView>,
    p: Map<Seq<char>, Seq<char>>,
    q: RevocationQueryView,
)
    requires
        reads::query_of(p) == Ok::<RevocationQueryView, Seq<char>>(q),
    ensures
        ({
            let rows = reads::declaration_rows(s, q, readings, s.ledger.len());
            &&& rows_asked(rows, s.ledger, p)
            &&& rows_served(rows, s.ledger, p)
            &&& rows_in_order(rows)
        }),
{
    let rows = reads::declaration_rows(s, q, readings, s.ledger.len());
    let at = picked(s.ledger, q, s.ledger.len());
    lemma_picked(s, q, readings, s.ledger.len());
    assert forall|k: int| 0 <= k < rows.len() implies (#[trigger] rows[k]).get("seq"@) == Some(
        JsonView::Num(at[k] + 1),
    ) by {
        law_row_states_its_declaration(s, at[k], q.known_by, readings[at[k]]);
    }
    assert forall|k: int| 0 <= k < rows.len() implies exists|i: int|
        0 <= i < s.ledger.len() && (#[trigger] rows[k]).get("seq"@) == Some(JsonView::Num(i + 1))
            && statements::states_declaration(rows[k], #[trigger] s.ledger[i]) && asks_for(
            p,
            s.ledger[i],
        ) by {
        law_row_states_its_declaration(s, at[k], q.known_by, readings[at[k]]);
        lemma_kept_is_asked(p, s.ledger[at[k]]);
    }
    assert forall|i: int|
        0 <= i < s.ledger.len() && asks_for(p, #[trigger] s.ledger[i]) implies exists|k: int|
        0 <= k < rows.len() && (#[trigger] rows[k]).get("seq"@) == Some(JsonView::Num(i + 1)) by {
        lemma_kept_is_asked(p, s.ledger[i]);
        assert(at.contains(i));
        let k = choose|k: int| 0 <= k < at.len() && at[k] == i;
        assert(rows[k].get("seq"@) == Some(JsonView::Num(i + 1)));
    }
}

/// The reply to a request for the revocations holds, in the order of the
/// ledger, a row for every declaration that the request asks for, and no
/// other row.
pub proof fn law_rows_are_the_declarations_asked_for(
    s: StoreView,
    readings: Seq<ReadingView>,
    p: Map<Seq<char>, Seq<char>>,
    now: Timestamp,
)
    ensures
        ({
            let r = reads::revocations_reply(s, readings, p, now);
            r.status == 200 ==> {
                &&& r.doc.get("revocations"@) matches Some(JsonView::Arr(rows))
                &&& r.doc.get("count"@) == Some(JsonView::Num(rows.len() as int))
                &&& rows_asked(rows, s.ledger, p)
                &&& rows_served(rows, s.ledger, p)
                &&& rows_in_order(rows)
            }
        }),
{
    let r = reads::revocations_reply(s, readings, p, now);
    if r.status == 200 {
        lemma_rows(s, readings, p, reads::query_of(p)->Ok_0);
        reveal_strlit("as_of");
        reveal_strlit("known_by");
        reveal_strlit("query");
        reveal_strlit("semantics");
        reveal_strlit("count");
        reveal_strlit("revocations");
        assert("as_of"@.len() == 5 && "as_of"@[0] == 'a');
        assert("query"@.len() == 5 && "query"@[0] == 'q');
        assert("count"@.len() == 5 && "count"@[0] == 'c');
        assert("known_by"@.len() == 8);
        assert("semantics"@.len() == 9);
        assert("revocations"@.len() == 11);
    }
}

/// A query that states `retroactive` is answered with the reasons it names:
/// every row says of its reason what the query says, and every declaration
/// whose reason is of that sort, and that the other filters let pass, has a
/// row.
pub proof fn law_retroactive_filter(
    s: StoreView,
    readings: Seq<ReadingView>,
    p: Map<Seq<char>, Seq<char>>,
    now: Timestamp,
    t: Seq<char>,
    b: bool,
)
    requires
        api::query(p, "retroactive"@) == Some(t),
        b ==> text::lower(t) == "true"@,
        !b ==> text::lower(t) == "false"@,
    ensures
        ({
            let r = reads::revocations_reply(s, readings, p, now);
            r.status == 200 ==> {
                &&& r.doc.get("revocations"@) matches Some(JsonView::Arr(rows))
                &&& forall|k: int|
                    0 <= k < rows.len() ==> ((#[trigger] rows[k]).get("reason"@) matches Some(x)
                        && x.get("retroactive"@) == Some(JsonView::Bool(b)))
                &&& api::query(p, "subject"@) is None && api::query(p, "window"@) is None
                    ==> forall|i: int|
                    0 <= i < s.ledger.len() && statements::voiding_token(
                        (#[trigger] s.ledger[i]).reason.token(),
                    ) == b ==> exists|k: int|
                        0 <= k < rows.len() && (#[trigger] rows[k]).get("seq"@) == Some(
                            JsonView::Num(i + 1),
                        )
            }
        }),
{
    law_rows_are_the_declarations_asked_for(s, readings, p, now);
    law_retroactivity_asked(p);
    reveal_strlit("true");
    reveal_strlit("1");
    reveal_strlit("yes");
    reveal_strlit("false");
    reveal_strlit("0");
    reveal_strlit("no");
    assert("true"@.len() == 4);
    assert("1"@.len() == 1 && "1"@[0] == '1');
    assert("0"@.len() == 1 && "0"@[0] == '0');
    assert("yes"@.len() == 3);
    assert("false"@.len() == 5);
    assert("no"@.len() == 2);
    let r = reads::revocations_reply(s, readings, p, now);
    if r.status == 200 {
        let rows = (r.doc.get("revocations"@)->0)->Arr_0;
        assert forall|i: int|
            0 <= i < s.ledger.len() && api::query(p, "subject"@) is None && api::query(
                p,
                "window"@,
            ) is None && statements::voiding_token((#[trigger] s.ledger[i]).reason.token())
                == b implies asks_for(p, s.ledger[i]) by {}
        assert forall|k: int| 0 <= k < rows.len() implies ((#[trigger] rows[k]).get("reason"@) matches Some(x)
            && x.get("retroactive"@) == Some(JsonView::Bool(b))) by {
            let i = choose|i: int|
                0 <= i < s.ledger.len() && rows[k].get("seq"@) == Some(JsonView::Num(i + 1))
                    && statements::states_declaration(rows[k], #[trigger] s.ledger[i]) && asks_for(
                    p,
                    s.ledger[i],
                );
            assert(statements::states_declaration(rows[k], s.ledger[i]));
        }
    }
}

// ---------------------------------------------------------------------------
// Trust lists
// ---------------------------------------------------------------------------

/// The positions ascend.
pub open spec fn ascends(at: Seq<int>) -> bool {
    forall|m: int, n: int| 0 <= m < n < at.len() ==> #[trigger] at[m] < #[trigger] at[n]
}

/// The request asks for the list: it is registered under the jurisdiction
/// named, in upper case, and for the framework named.
pub open spec fn asks_for_list(p: Map<Seq<char>, Seq<char>>, l: JurisdictionListView) -> bool {
    &&& api::query(p, "jurisdiction"@) matches Some(j) ==> text::upper(l.list.jurisdiction)
        == text::upper(j)
    &&& api::query(p, "framework"@) matches Some(f) ==> l.framework == Some(f)
}

/// The document states the entry as it stands at `t`: it is in force from
/// its first instant until it is superseded.
pub open spec fn states_entry(d: JsonView, e: TrustListEntryRecordView, t: Timestamp) -> bool {
    &&& d.get("node"@) == Some(JsonView::Str(e.node))
    &&& d.get("not_before"@) == Some(JsonView::Str(time::stamp(e.not_before.secs as int)))
    &&& match e.superseded_at {
        Some(u) => d.get("superseded_at"@) == Some(JsonView::Str(time::stamp(u.secs as int)))
            && d.get("in_force_at_as_of"@) == Some(
            JsonView::Bool(e.not_before.secs <= t.secs < u.secs),
        ),
        None => d.get("superseded_at"@) == Some(JsonView::Null) && d.get("in_force_at_as_of"@)
            == Some(JsonView::Bool(e.not_before.secs <= t.secs)),
    }
}

/// The document states the list as it stands at `t`, with every entry of it.
pub open spec fn states_list(d: JsonView, l: JurisdictionListView, t: Timestamp) -> bool {
    &&& d.get("jurisdiction"@) == Some(JsonView::Str(l.list.jurisdiction))
    &&& match l.framework {
        Some(f) => d.get("framework"@) == Some(JsonView::Str(f)),
        None => d.get("framework"@) == Some(JsonView::Null),
    }
    &&& d.get("entries"@) matches Some(JsonView::Arr(entries))
    &&& entries.len() == l.list.entries.len()
    &&& forall|i: int|
        0 <= i < entries.len() ==> states_entry(#[trigger] entries[i], l.list.entries[i], t)
}

/// A list is stated by its document.
pub proof fn law_lists_are_stated(l: JurisdictionListView, t: Timestamp)
    ensures
        states_list(reads::list_doc(l, t), l, t),
{
    reveal_strlit("jurisdiction");
    reveal_strlit("framework");
    reveal_strlit("entries");
    assert("jurisdiction"@.len() == 12);
    assert("framework"@.len() == 9);
    assert("entries"@.len() == 7);
    let entries = reads::read_entries(l.list.entries, t);
    assert forall|i: int| 0 <= i < entries.len() implies states_entry(
        #[trigger] entries[i],
        l.list.entries[i],
        t,
    ) by {
        reveal_strlit("node");
        reveal_strlit("not_before");
        reveal_strlit("superseded_at");
        reveal_strlit("in_force_at_as_of");
        assert("node"@.len() == 4);
        assert("not_before"@.len() == 10);
        assert("superseded_at"@.len() == 13);
        assert("in_force_at_as_of"@.len() == 17);
    }
}

/// The positions of the lists that pass the filters.
spec fn picked_lists(
    s: Seq<JurisdictionListView>,
    jur: Option<Seq<char>>,
    framework: Option<Seq<char>>,
) -> Seq<int>
    decreases s.len(),
{
    if s.len() == 0 {
        Seq::empty()
    } else if reads::list_kept(s.last(), jur, framework) {
        picked_lists(s.drop_last(), jur, framework).push(s.len() - 1)
    } else {
        picked_lists(s.drop_last(), jur, framework)
    }
}

proof fn lemma_picked_lists(
    s: Seq<JurisdictionListView>,
    jur: Option<Seq<char>>,
    framework: Option<Seq<char>>,
    t: Timestamp,
)
    ensures
        ({
            let at = picked_lists(s, jur, framework);
            let out = reads::listings(s, jur, framework, t);
            &&& ascends(at)
            &&& out.len() == at.len()
            &&& forall|m: int|
                0 <= m < at.len() ==> 0 <= #[trigger] at[m] < s.len() && reads::list_kept(
                    s[at[m]],
                    jur,
                    framework,
                )
            &&& forall|m: int|
                0 <= m < at.len() ==> (#[trigger] out[m]).doc == reads::list_doc(s[at[m]], t)
                    && out[m].jurisdiction == s[at[m]].list.jurisdiction
            &&& forall|i: int|
                0 <= i < s.len() && reads::list_kept(#[trigger] s[i], jur, framework)
                    ==> at.contains(i)
        }),
    decreases s.len(),
{
    if s.len() > 0 {
        let rest = s.drop_last();
        lemma_picked_lists(rest, jur, framework, t);
        let before = picked_lists(rest, jur, framework);
        let at = picked_lists(s, jur, framework);
        assert forall|i: int|
            0 <= i < s.len() && reads::list_kept(
                #[trigger] s[i],
                jur,
                framework,
            ) implies at.contains(i) by {
            if i < s.len() - 1 {
                assert(rest[i] == s[i]);
                let m = choose|m: int| 0 <= m < before.len() && before[m] == i;
                assert(at[m] == i);
            } else {
                assert(at[at.len() - 1] == i);
            }
        }
    }
}

/// Every document states a registered list that the request asks for.
pub open spec fn lists_asked(
    out: Seq<JsonView>,
    s: Seq<JurisdictionListView>,
    p: Map<Seq<char>, Seq<char>>,
    t: Timestamp,
) -> bool {
    forall|k: int|
        0 <= k < out.len() ==> exists|i: int|
            0 <= i < s.len() && states_list(#[trigger] out[k], #[trigger] s[i], t)
                && asks_for_list(p, s[i])
}

/// Every registered list that the request asks for is stated by a document.
pub open spec fn lists_served(
    out: Seq<JsonView>,
    s: Seq<JurisdictionListView>,
    p: Map<Seq<char>, Seq<char>>,
    t: Timestamp,
) -> bool {
    forall|i: int|
        0 <= i < s.len() && asks_for_list(p, #[trigger] s[i]) ==> exists|k: int|
            0 <= k < out.len() && states_list(#[trigger] out[k], s[i], t)
}

/// There are as many documents as lists that the request asks for.
pub open spec fn lists_counted(
    n: nat,
    s: Seq<JurisdictionListView>,
    p: Map<Seq<char>, Seq<char>>,
) -> bool {
    exists|at: Seq<int>| #[trigger]
        ascends(at) && at.len() == n && forall|i: int|
            #[trigger] at.contains(i) <==> 0 <= i < s.len() && asks_for_list(p, s[i])
}

/// The documents stand in the order of their jurisdictions.
pub open spec fn lists_in_order(out: Seq<JsonView>) -> bool {
    forall|k: int, m: int|
        0 <= k < m < out.len() ==> !text::text_lt(
            ((#[trigger] out[m]).get("jurisdiction"@)->0)->Str_0,
            ((#[trigger] out[k]).get("jurisdiction"@)->0)->Str_0,
        )
}

proof fn lemma_list_kept(s: Seq<JurisdictionListView>, p: Map<Seq<char>, Seq<char>>)
    requires
        forall|i: int| 0 <= i < s.len() ==> laws::list_well_formed(#[trigger] s[i]),
    ensures
        forall|i: int|
            0 <= i < s.len() ==> (reads::list_kept(
                #[trigger] s[i],
                api::query(p, "jurisdiction"@),
                api::query(p, "framework"@),
            ) <==> asks_for_list(p, s[i])),
{
    assert forall|i: int| 0 <= i < s.len() implies (reads::list_kept(
        #[trigger] s[i],
        api::query(p, "jurisdiction"@),
        api::query(p, "framework"@),
    ) <==> asks_for_list(p, s[i])) by {
        assert(laws::list_well_formed(s[i]));
    }
}

/// Sorting leaves the same listings.
proof fn lemma_sorted_listings(found: Seq<ListingView>)
    ensures
        ({
            let order = data::sorted::<Listing>(found);
            &&& order.len() == found.len()
            &&& forall|k: int| 0 <= k < order.len() ==> found.contains(#[trigger] order[k])
            &&& forall|m: int| 0 <= m < found.len() ==> order.contains(#[trigger] found[m])
            &&& forall|k: int, m: int|
                0 <= k < m < order.len() ==> !text::text_lt(
                    (#[trigger] order[m]).jurisdiction,
                    (#[trigger] order[k]).jurisdiction,
                )
        }),
{
    broadcast use vstd::seq_lib::group_to_multiset_ensures;

    let order = data::sorted::<Listing>(found);
    data::law_sorted::<Listing>(found);
    assert forall|k: int| 0 <= k < order.len() implies found.contains(#[trigger] order[k]) by {
        assert(order.contains(order[k]));
        assert(order.to_multiset().count(order[k]) > 0);
    }
    assert forall|m: int| 0 <= m < found.len() implies order.contains(#[trigger] found[m]) by {
        assert(found.contains(found[m]));
        assert(found.to_multiset().count(found[m]) > 0);
    }
    assert forall|k: int, m: int| 0 <= k < m < order.len() implies !text::text_lt(
        (#[trigger] order[m]).jurisdiction,
        (#[trigger] order[k]).jurisdiction,
    ) by {
        assert(!text::text_lt(Listing::key_of(order[m]), Listing::key_of(order[k])));
    }
}

proof fn lemma_lists_asked(s: StoreView, p: Map<Seq<char>, Seq<char>>, t: Timestamp)
    requires
        laws::well_formed(s),
    ensures
        lists_asked(reads::listed(s, p, t), s.trust_lists, p, t),
        lists_in_order(reads::listed(s, p, t)),
{
    let lists = s.trust_lists;
    let jur = api::query(p, "jurisdiction"@);
    let framework = api::query(p, "framework"@);
    lemma_picked_lists(lists, jur, framework, t);
    lemma_list_kept(lists, p);
    let at = picked_lists(lists, jur, framework);
    let found = reads::listings(lists, jur, framework, t);
    lemma_sorted_listings(found);
    let order = data::sorted::<Listing>(found);
    let out = reads::listed(s, p, t);
    assert forall|k: int| 0 <= k < out.len() implies exists|i: int|
        0 <= i < lists.len() && states_list(#[trigger] out[k], #[trigger] lists[i], t)
            && asks_for_list(p, lists[i]) by {
        assert(found.contains(order[k]));
        let m = choose|m: int| 0 <= m < found.len() && found[m] == order[k];
        law_lists_are_stated(lists[at[m]], t);
        assert(out[k] == found[m].doc);
        assert(states_list(out[k], lists[at[m]], t));
    }
    assert forall|k: int| 0 <= k < out.len() implies (#[trigger] out[k]).get("jurisdiction"@)
        == Some(JsonView::Str(order[k].jurisdiction)) by {
        assert(found.contains(order[k]));
        let m = choose|m: int| 0 <= m < found.len() && found[m] == order[k];
        law_lists_are_stated(lists[at[m]], t);
        assert(out[k] == found[m].doc);
    }
    assert forall|k: int, m: int| 0 <= k < m < out.len() implies !text::text_lt(
        ((#[trigger] out[m]).get("jurisdiction"@)->0)->Str_0,
        ((#[trigger] out[k]).get("jurisdiction"@)->0)->Str_0,
    ) by {
        assert(!text::text_lt(order[m].jurisdiction, order[k].jurisdiction));
    }
}

proof fn lemma_lists_served(s: StoreView, p: Map<Seq<char>, Seq<char>>, t: Timestamp)
    requires
        laws::well_formed(s),
    ensures
        lists_served(reads::listed(s, p, t), s.trust_lists, p, t),
        lists_counted(reads::listed(s, p, t).len(), s.trust_lists, p),
{
    let lists = s.trust_lists;
    let jur = api::query(p, "jurisdiction"@);
    let framework = api::query(p, "framework"@);
    lemma_picked_lists(lists, jur, framework, t);
    lemma_list_kept(lists, p);
    let at = picked_lists(lists, jur, framework);
    let found = reads::listings(lists, jur, framework, t);
    lemma_sorted_listings(found);
    let order = data::sorted::<Listing>(found);
    let out = reads::listed(s, p, t);
    assert forall|i: int|
        0 <= i < lists.len() && asks_for_list(p, #[trigger] lists[i]) implies exists|k: int|
        0 <= k < out.len() && states_list(#[trigger] out[k], lists[i], t) by {
        assert(at.contains(i));
        let m = choose|m: int| 0 <= m < at.len() && at[m] == i;
        assert(order.contains(found[m]));
        let k = choose|k: int| 0 <= k < order.len() && order[k] == found[m];
        law_lists_are_stated(lists[i], t);
        assert(out[k] == found[m].doc);
    }
    assert forall|i: int| #[trigger] at.contains(i) <==> 0 <= i < lists.len() && asks_for_list(
        p,
        lists[i],
    ) by {
        if at.contains(i) {
            let m = choose|m: int| 0 <= m < at.len() && at[m] == i;
            assert(0 <= at[m] < lists.len());
        }
    }
    assert(ascends(at));
}

/// The reply to a request for the trust lists holds every registered list
/// that the request asks for, once, and no other, in the order of their
/// jurisdictions.
pub proof fn law_lists_are_those_asked_for(
    s: StoreView,
    p: Map<Seq<char>, Seq<char>>,
    now: Timestamp,
)
    requires
        laws::well_formed(s),
    ensures
        ({
            let r = reads::lists_reply(s, p, now);
            r.status == 200 ==> {
                &&& r.doc.get("trust_lists"@) matches Some(JsonView::Arr(out))
                &&& r.doc.get("count"@) == Some(JsonView::Num(out.len() as int))
                &&& lists_asked(out, s.trust_lists, p, r.as_of)
                &&& lists_served(out, s.trust_lists, p, r.as_of)
                &&& lists_counted(out.len(), s.trust_lists, p)
                &&& lists_in_order(out)
            }
        }),
{
    let r = reads::lists_reply(s, p, now);
    if r.status == 200 {
        lemma_lists_asked(s, p, r.as_of);
        lemma_lists_served(s, p, r.as_of);
        reveal_strlit("as_of");
        reveal_strlit("count");
        reveal_strlit("trust_lists");
        assert("as_of"@.len() == 5 && "as_of"@[0] == 'a');
        assert("count"@.len() == 5 && "count"@[0] == 'c');
        assert("trust_lists"@.len() == 11);
    }
}

/// Where a request names a jurisdiction, every list that is served has it, in
/// whatever case; at most one is served, and none where none is registered
/// under it.
pub proof fn law_named_jurisdiction(
    s: StoreView,
    p: Map<Seq<char>, Seq<char>>,
    now: Timestamp,
    jur: Seq<char>,
)
    requires
        laws::well_formed(s),
        api::query(p, "jurisdiction"@) == Some(jur),
    ensures
        ({
            let r = reads::lists_reply(s, p, now);
            r.status == 200 ==> {
                &&& r.doc.get("trust_lists"@) matches Some(JsonView::Arr(out))
                &&& out.len() <= 1
                &&& forall|k: int|
                    0 <= k < out.len() ==> ((#[trigger] out[k]).get("jurisdiction"@) matches Some(
                        JsonView::Str(x),
                    ) && text::upper(x) == text::upper(jur))
                &&& (forall|i: int|
                    0 <= i < s.trust_lists.len() ==> (#[trigger] s.trust_lists[i]).key
                        != text::upper(jur)) ==> out.len() == 0 && r.doc.get("count"@) == Some(
                    JsonView::Num(0),
                )
                &&& forall|i: int|
                    0 <= i < s.trust_lists.len() && (#[trigger] s.trust_lists[i]).key
                        == text::upper(jur) && api::query(p, "framework"@) is None ==> out.len() == 1
                        && states_list(out[0], s.trust_lists[i], r.as_of)
            }
        }),
{
    law_lists_are_those_asked_for(s, p, now);
    let r = reads::lists_reply(s, p, now);
    if r.status == 200 {
        let lists = s.trust_lists;
        let out = (r.doc.get("trust_lists"@)->0)->Arr_0;
        let at = choose|at: Seq<int>| #[trigger]
            ascends(at) && at.len() == out.len() && forall|i: int|
                #[trigger] at.contains(i) <==> 0 <= i < lists.len() && asks_for_list(
                    p,
                    lists[i],
                );
        if out.len() >= 2 {
            assert(at.contains(at[0]) && at.contains(at[1]));
            let (i, j) = (at[0], at[1]);
            assert(laws::list_well_formed(lists[i]) && laws::list_well_formed(lists[j]));
            assert(text::text_lt(
                JurisdictionList::key_of(lists[i]),
                JurisdictionList::key_of(lists[j]),
            ));
            text::lemma_text_lt_irreflexive(lists[i].key);
        }
        assert forall|k: int| 0 <= k < out.len() implies ((#[trigger] out[k]).get(
            "jurisdiction"@,
        ) matches Some(JsonView::Str(x)) && text::upper(x) == text::upper(jur)) by {
            let i = choose|i: int|
                0 <= i < lists.len() && states_list(out[k], #[trigger] lists[i], r.as_of)
                    && asks_for_list(p, lists[i]);
            assert(states_list(out[k], lists[i], r.as_of));
        }
        if out.len() > 0 {
            assert(at.contains(at[0]));
            assert(laws::list_well_formed(lists[at[0]]));
        }
        assert forall|i: int|
            0 <= i < lists.len() && (#[trigger] lists[i]).key == text::upper(jur) && api::query(
                p,
                "framework"@,
            ) is None implies out.len() == 1 && states_list(out[0], lists[i], r.as_of) by {
            assert(laws::list_well_formed(lists[i]));
            assert(asks_for_list(p, lists[i]));
            let k = choose|k: int|
                0 <= k < out.len() && states_list(#[trigger] out[k], lists[i], r.as_of);
            assert(out.len() <= 1);
        }
    }
}

/// One list is served by its jurisdiction, in whatever case, and only one
/// that is registered under it; no other is an error.
pub proof fn law_one_list(
    s: StoreView,
    jur: Seq<char>,
    p: Map<Seq<char>, Seq<char>>,
    now: Timestamp,
)
    requires
        laws::well_formed(s),
        api::asked_instant(p) is Ok,
    ensures
        ({
            let r = reads::list_reply(s, jur, p, now);
            &&& r.status == 200 || r.status == 404
            &&& r.status == 404 <==> forall|i: int|
                0 <= i < s.trust_lists.len() ==> text::upper(
                    (#[trigger] s.trust_lists[i]).list.jurisdiction,
                ) != text::upper(jur)
            &&& r.status == 200 ==> exists|i: int|
                0 <= i < s.trust_lists.len() && text::upper(
                    (#[trigger] s.trust_lists[i]).list.jurisdiction,
                ) == text::upper(jur) && states_list(r.doc, s.trust_lists[i], r.as_of)
        }),
{
    let lists = s.trust_lists;
    let key = text::upper(jur);
    data::law_lookup::<JurisdictionList>(lists, key);
    assert forall|i: int| 0 <= i < lists.len() implies (#[trigger] lists[i]).key == text::upper(
        lists[i].list.jurisdiction,
    ) by {
        assert(laws::list_well_formed(lists[i]));
    }
    let r = reads::list_reply(s, jur, p, now);
    if r.status == 200 {
        let l = data::lookup::<JurisdictionList>(lists, key)->0;
        let i = choose|i: int|
            0 <= i < lists.len() && #[trigger] lists[i] == l && l.key == key && forall|j: int|
                0 <= j < i ==> (#[trigger] lists[j]).key != key;
        law_lists_are_stated(l, r.as_of);
        reveal_strlit("jurisdiction");
        reveal_strlit("framework");
        reveal_strlit("entries");
        reveal_strlit("as_of");
        assert("jurisdiction"@.len() == 12);
        assert("framework"@.len() == 9);
        assert("entries"@.len() == 7);
        assert("as_of"@.len() == 5);
        assert(states_list(r.doc, lists[i], r.as_of));
    } else {
        assert forall|i: int| 0 <= i < lists.len() implies text::upper(
            (#[trigger] lists[i]).list.jurisdiction,
        ) != key by {
            assert(JurisdictionList::key_of(lists[i]) != key);
        }
    }
}

// ---------------------------------------------------------------------------
// Operators
// ---------------------------------------------------------------------------

/// The positions of the declarations on a node.
spec fn picked_on(s: Seq<RevocationView>, node: Seq<char>) -> Seq<int>
    decreases s.len(),
{
    if s.len() == 0 {
        Seq::empty()
    } else if s.last().subject == RevokedSubjectView::Node(node) {
        picked_on(s.drop_last(), node).push(s.len() - 1)
    } else {
        picked_on(s.drop_last(), node)
    }
}

proof fn lemma_picked_on(s: Seq<RevocationView>, node: Seq<char>)
    ensures
        ({
            let at = picked_on(s, node);
            let out = reads::declarations_on(s, node);
            &&& ascends(at)
            &&& out.len() == at.len()
            &&& forall|m: int|
                0 <= m < at.len() ==> 0 <= #[trigger] at[m] < s.len() && s[at[m]].subject
                    == RevokedSubjectView::Node(node)
            &&& forall|m: int|
                0 <= m < at.len() ==> #[trigger] out[m] == wire::revocation_value(s[at[m]])
            &&& forall|i: int|
                0 <= i < s.len() && (#[trigger] s[i]).subject == RevokedSubjectView::Node(node)
                    ==> at.contains(i)
        }),
    decreases s.len(),
{
    if s.len() > 0 {
        let rest = s.drop_last();
        lemma_picked_on(rest, node);
        let before = picked_on(rest, node);
        let at = picked_on(s, node);
        assert forall|i: int|
            0 <= i < s.len() && (#[trigger] s[i]).subject == RevokedSubjectView::Node(
                node,
            ) implies at.contains(i) by {
            if i < s.len() - 1 {
                assert(rest[i] == s[i]);
                let m = choose|m: int| 0 <= m < before.len() && before[m] == i;
                assert(at[m] == i);
            } else {
                assert(at[at.len() - 1] == i);
            }
        }
    }
}

/// The edge goes into the node, or else goes out of it to another.
pub open spec fn touches(c: DelegationCredentialView, node: Seq<char>, into: bool) -> bool {
    if into {
        c.child == node
    } else {
        c.parent == node && c.child != node
    }
}

/// The edges of a node that are served, in one of the two directions.
spec fn edges_served(s: Seq<DelegationCredentialView>, node: Seq<char>, into: bool) -> Seq<JsonView> {
    if into {
        reads::edges_into(s, node)
    } else {
        reads::edges_out_of(s, node)
    }
}

/// The positions of the edges that go into a node, or of those that go out
/// of it to another.
spec fn picked_edges(s: Seq<DelegationCredentialView>, node: Seq<char>, into: bool) -> Seq<int>
    decreases s.len(),
{
    if s.len() == 0 {
        Seq::empty()
    } else if touches(s.last(), node, into) {
        picked_edges(s.drop_last(), node, into).push(s.len() - 1)
    } else {
        picked_edges(s.drop_last(), node, into)
    }
}

proof fn lemma_picked_edges(s: Seq<DelegationCredentialView>, node: Seq<char>, into: bool)
    ensures
        ({
            let at = picked_edges(s, node, into);
            let out = edges_served(s, node, into);
            &&& ascends(at)
            &&& out.len() == at.len()
            &&& forall|m: int|
                0 <= m < at.len() ==> 0 <= #[trigger] at[m] < s.len() && touches(
                    s[at[m]],
                    node,
                    into,
                )
            &&& forall|m: int|
                0 <= m < at.len() ==> #[trigger] out[m] == wire::edge_value(s[at[m]])
            &&& forall|i: int|
                0 <= i < s.len() && touches(#[trigger] s[i], node, into) ==> at.contains(i)
        }),
    decreases s.len(),
{
    if s.len() > 0 {
        let rest = s.drop_last();
        lemma_picked_edges(rest, node, into);
        let before = picked_edges(rest, node, into);
        let at = picked_edges(s, node, into);
        assert forall|i: int|
            0 <= i < s.len() && touches(#[trigger] s[i], node, into) implies at.contains(i) by {
            if i < s.len() - 1 {
                assert(rest[i] == s[i]);
                let m = choose|m: int| 0 <= m < before.len() && before[m] == i;
                assert(at[m] == i);
            } else {
                assert(at[at.len() - 1] == i);
            }
        }
    }
}

/// The documents state the declarations on a node, every one of them and no
/// other, in the order of the ledger.
pub open spec fn states_declarations_on(
    out: Seq<JsonView>,
    s: Seq<RevocationView>,
    node: Seq<char>,
) -> bool {
    exists|at: Seq<int>| #[trigger]
        ascends(at) && at.len() == out.len() && (forall|m: int|
            0 <= m < at.len() ==> 0 <= #[trigger] at[m] < s.len()
                && statements::states_declaration(out[m], s[at[m]])) && (forall|i: int|
            #[trigger] at.contains(i) <==> 0 <= i < s.len() && s[i].subject is Node
                && s[i].subject->Node_0 == node)
}

/// The document states the edge.
pub open spec fn states_edge(d: JsonView, c: DelegationCredentialView) -> bool {
    &&& d.get("parent"@) == Some(JsonView::Str(c.parent))
    &&& d.get("child"@) == Some(JsonView::Str(c.child))
    &&& d.get("scope"@) == Some(c.scope)
    &&& d.get("signatures"@) matches Some(JsonView::Arr(slots)) && slots.len()
        == c.signatures.len() && forall|i: int|
        0 <= i < slots.len() ==> statements::states_slot(#[trigger] slots[i], c.signatures[i])
}

/// An edge is stated by its document.
pub proof fn law_edges_are_stated(c: DelegationCredentialView)
    ensures
        states_edge(wire::edge_value(c), c),
{
    reveal_strlit("parent");
    reveal_strlit("child");
    reveal_strlit("scope");
    reveal_strlit("signatures");
    assert("parent"@.len() == 6);
    assert("child"@.len() == 5 && "child"@[0] == 'c');
    assert("scope"@.len() == 5 && "scope"@[0] == 's');
    assert("signatures"@.len() == 10);
    let slots = wire::docs::<SignatureSlot>(c.signatures);
    assert forall|i: int| 0 <= i < slots.len() implies statements::states_slot(
        #[trigger] slots[i],
        c.signatures[i],
    ) by {
        statements::law_attestations_are_stated(
            QuorumAttestationView { quorum: c.parent, threshold: 0, signatures: c.signatures },
            c.signatures[i],
        );
    }
}

/// The documents state those edges that hold of `node`, in the order of the
/// graph: those into it, or those out of it to another node.
pub open spec fn states_edges(
    out: Seq<JsonView>,
    s: Seq<DelegationCredentialView>,
    node: Seq<char>,
    into: bool,
) -> bool {
    exists|at: Seq<int>| #[trigger]
        ascends(at) && at.len() == out.len() && (forall|m: int|
            0 <= m < at.len() ==> 0 <= #[trigger] at[m] < s.len() && states_edge(
                out[m],
                s[at[m]],
            )) && (forall|i: int|
            #[trigger] at.contains(i) <==> 0 <= i < s.len() && touches(s[i], node, into))
}

proof fn lemma_edges_stated(s: Seq<DelegationCredentialView>, node: Seq<char>, into: bool)
    ensures
        states_edges(edges_served(s, node, into), s, node, into),
{
    lemma_picked_edges(s, node, into);
    let at = picked_edges(s, node, into);
    let out = edges_served(s, node, into);
    assert forall|m: int| 0 <= m < at.len() implies 0 <= #[trigger] at[m] < s.len() && states_edge(
        out[m],
        s[at[m]],
    ) by {
        law_edges_are_stated(s[at[m]]);
        assert(out[m] == wire::edge_value(s[at[m]]));
    }
    assert forall|i: int| #[trigger] at.contains(i) <==> 0 <= i < s.len() && touches(
        s[i],
        node,
        into,
    ) by {
        if at.contains(i) {
            let m = choose|m: int| 0 <= m < at.len() && at[m] == i;
            assert(0 <= at[m] < s.len());
        }
    }
    assert(ascends(at));
}

proof fn lemma_declarations_stated(s: Seq<RevocationView>, node: Seq<char>)
    ensures
        states_declarations_on(reads::declarations_on(s, node), s, node),
{
    lemma_picked_on(s, node);
    let at = picked_on(s, node);
    let out = reads::declarations_on(s, node);
    assert forall|m: int| 0 <= m < at.len() implies 0 <= #[trigger] at[m] < s.len()
        && statements::states_declaration(out[m], s[at[m]]) by {
        statements::law_declarations_are_stated(s[at[m]]);
        assert(out[m] == wire::revocation_value(s[at[m]]));
    }
    assert forall|i: int| #[trigger] at.contains(i) <==> 0 <= i < s.len() && s[i].subject is Node
        && s[i].subject->Node_0 == node by {
        if at.contains(i) {
            let m = choose|m: int| 0 <= m < at.len() && at[m] == i;
            assert(0 <= at[m] < s.len());
        }
    }
    assert(ascends(at));
}

/// The positions of the lists that have an entry of a node.
spec fn picked_memberships(s: Seq<JurisdictionListView>, node: Seq<char>) -> Seq<int>
    decreases s.len(),
{
    if s.len() == 0 {
        Seq::empty()
    } else if data::lookup::<TrustListEntryRecord>(s.last().list.entries, node) is Some {
        picked_memberships(s.drop_last(), node).push(s.len() - 1)
    } else {
        picked_memberships(s.drop_last(), node)
    }
}

/// The document states the membership that an entry of a list gives, as it
/// stands at `t`.
pub open spec fn states_membership(
    d: JsonView,
    l: JurisdictionListView,
    e: TrustListEntryRecordView,
    t: Timestamp,
) -> bool {
    &&& d.get("jurisdiction"@) == Some(JsonView::Str(l.key))
    &&& d.get("not_before"@) == Some(JsonView::Str(time::stamp(e.not_before.secs as int)))
    &&& match e.superseded_at {
        Some(u) => d.get("superseded_at"@) == Some(JsonView::Str(time::stamp(u.secs as int)))
            && d.get("in_force_at_as_of"@) == Some(
            JsonView::Bool(e.not_before.secs <= t.secs < u.secs),
        ),
        None => d.get("superseded_at"@) == Some(JsonView::Null) && d.get("in_force_at_as_of"@)
            == Some(JsonView::Bool(e.not_before.secs <= t.secs)),
    }
}

/// A list has an entry of the node.
pub open spec fn lists_node(l: JurisdictionListView, node: Seq<char>) -> bool {
    exists|k: int| 0 <= k < l.list.entries.len() && (#[trigger] l.list.entries[k]).node == node
}

/// The documents state the memberships of a node: one for every list that
/// has an entry of it, and no other, in the order of the lists.
pub open spec fn states_memberships(
    out: Seq<JsonView>,
    s: Seq<JurisdictionListView>,
    node: Seq<char>,
    t: Timestamp,
) -> bool {
    exists|at: Seq<int>| #[trigger]
        ascends(at) && at.len() == out.len() && (forall|m: int|
            0 <= m < at.len() ==> 0 <= #[trigger] at[m] < s.len() && exists|k: int|
                0 <= k < s[at[m]].list.entries.len() && (#[trigger] s[at[m]].list.entries[k]).node
                    == node && states_membership(out[m], s[at[m]], s[at[m]].list.entries[k], t))
            && (forall|i: int|
            #[trigger] at.contains(i) <==> 0 <= i < s.len() && lists_node(s[i], node))
}

proof fn lemma_entry_found(l: JurisdictionListView, node: Seq<char>)
    ensures
        lists_node(l, node) <==> data::lookup::<TrustListEntryRecord>(l.list.entries, node) is Some,
        data::lookup::<TrustListEntryRecord>(l.list.entries, node) matches Some(e) ==> exists|k: int|

            0 <= k < l.list.entries.len() && #[trigger] l.list.entries[k] == e && e.node == node,
{
    data::law_lookup::<TrustListEntryRecord>(l.list.entries, node);
    if lists_node(l, node) {
        let k = choose|k: int|
            0 <= k < l.list.entries.len() && (#[trigger] l.list.entries[k]).node == node;
        assert(TrustListEntryRecord::key_of(l.list.entries[k]) == node);
    }
}

proof fn lemma_memberships(s: Seq<JurisdictionListView>, node: Seq<char>, t: Timestamp)
    ensures
        ({
            let at = picked_memberships(s, node);
            let out = reads::memberships(s, node, t);
            &&& ascends(at)
            &&& out.len() == at.len()
            &&& forall|m: int|
                0 <= m < at.len() ==> 0 <= #[trigger] at[m] < s.len() && (data::lookup::<
                    TrustListEntryRecord,
                >(s[at[m]].list.entries, node) matches Some(e) && out[m] == reads::membership(
                    s[at[m]].key,
                    e,
                    t,
                ))
            &&& forall|i: int|
                0 <= i < s.len() && data::lookup::<TrustListEntryRecord>(
                    (#[trigger] s[i]).list.entries,
                    node,
                ) is Some ==> at.contains(i)
        }),
    decreases s.len(),
{
    if s.len() > 0 {
        let rest = s.drop_last();
        lemma_memberships(rest, node, t);
        let before = picked_memberships(rest, node);
        let at = picked_memberships(s, node);
        assert forall|i: int|
            0 <= i < s.len() && data::lookup::<TrustListEntryRecord>(
                (#[trigger] s[i]).list.entries,
                node,
            ) is Some implies at.contains(i) by {
            if i < s.len() - 1 {
                assert(rest[i] == s[i]);
                let m = choose|m: int| 0 <= m < before.len() && before[m] == i;
                assert(at[m] == i);
            } else {
                assert(at[at.len() - 1] == i);
            }
        }
        assert forall|m: int| 0 <= m < at.len() implies 0 <= #[trigger] at[m] < s.len() && (
        data::lookup::<TrustListEntryRecord>(s[at[m]].list.entries, node) matches Some(e)
            && reads::memberships(s, node, t)[m] == reads::membership(s[at[m]].key, e, t)) by {
            if m < before.len() {
                assert(at[m] == before[m]);
                assert(rest[at[m]] == s[at[m]]);
            }
        }
    }
}

proof fn lemma_memberships_stated(s: Seq<JurisdictionListView>, node: Seq<char>, t: Timestamp)
    ensures
        states_memberships(reads::memberships(s, node, t), s, node, t),
{
    lemma_memberships(s, node, t);
    let at = picked_memberships(s, node);
    let out = reads::memberships(s, node, t);
    assert forall|m: int| 0 <= m < at.len() implies 0 <= #[trigger] at[m] < s.len()
        && exists|k: int|
        0 <= k < s[at[m]].list.entries.len() && (#[trigger] s[at[m]].list.entries[k]).node == node
            && states_membership(out[m], s[at[m]], s[at[m]].list.entries[k], t) by {
        lemma_entry_found(s[at[m]], node);
        let e = data::lookup::<TrustListEntryRecord>(s[at[m]].list.entries, node)->0;
        let k = choose|k: int|
            0 <= k < s[at[m]].list.entries.len() && #[trigger] s[at[m]].list.entries[k] == e
                && e.node == node;
        reveal_strlit("jurisdiction");
        reveal_strlit("not_before");
        reveal_strlit("superseded_at");
        reveal_strlit("in_force_at_as_of");
        assert("jurisdiction"@.len() == 12);
        assert("not_before"@.len() == 10);
        assert("superseded_at"@.len() == 13);
        assert("in_force_at_as_of"@.len() == 17);
        assert(states_membership(out[m], s[at[m]], s[at[m]].list.entries[k], t));
    }
    assert forall|i: int| #[trigger] at.contains(i) <==> 0 <= i < s.len() && lists_node(
        s[i],
        node,
    ) by {
        if at.contains(i) {
            let m = choose|m: int| 0 <= m < at.len() && at[m] == i;
            assert(0 <= at[m] < s.len());
            lemma_entry_found(s[i], node);
        }
        if 0 <= i < s.len() && lists_node(s[i], node) {
            lemma_entry_found(s[i], node);
        }
    }
    assert(ascends(at));
}

/// The document states where a node stands on the master list: by how many
/// attestations and by which witnesses, or that it is not on it.
pub open spec fn states_standing(d: JsonView, m: MasterListView, node: Seq<char>) -> bool {
    &&& d == JsonView::Null <==> forall|i: int|
        0 <= i < m.entries.len() ==> (#[trigger] m.entries[i]).node != node
    &&& d != JsonView::Null ==> exists|i: int|
        0 <= i < m.entries.len() && (#[trigger] m.entries[i]).node == node && d.get("attested_by"@)
            == Some(JsonView::Num(m.entries[i].attestations.len() as int)) && (d.get(
            "witnesses"@,
        ) matches Some(JsonView::Arr(w)) && w.len() == m.entries[i].attestations.len() && forall|
            k: int,
        |
            0 <= k < w.len() ==> #[trigger] w[k] == JsonView::Str(
                m.entries[i].attestations[k].witness,
            ))
}

proof fn lemma_standing(m: MasterListView, node: Seq<char>)
    ensures
        states_standing(reads::master_standing(m, node), m, node),
{
    data::law_lookup::<MasterListEntry>(m.entries, node);
    reveal_strlit("attested_by");
    reveal_strlit("witnesses");
    assert("attested_by"@.len() == 11);
    assert("witnesses"@.len() == 9);
    let d = reads::master_standing(m, node);
    match data::lookup::<MasterListEntry>(m.entries, node) {
        Some(e) => {
            let i = choose|i: int|
                0 <= i < m.entries.len() && #[trigger] m.entries[i] == e
                    && MasterListEntry::key_of(e) == node && forall|j: int|
                    0 <= j < i ==> MasterListEntry::key_of(#[trigger] m.entries[j]) != node;
            assert(m.entries[i].node == node);
            let w = wire::strings(reads::attesting(e.attestations));
            assert(d.get("witnesses"@) == Some(JsonView::Arr(w)));
            assert forall|k: int| 0 <= k < w.len() implies #[trigger] w[k] == JsonView::Str(
                m.entries[i].attestations[k].witness,
            ) by {}
        },
        None => {
            assert forall|i: int| 0 <= i < m.entries.len() implies (#[trigger] m.entries[i]).node
                != node by {
                assert(MasterListEntry::key_of(m.entries[i]) != node);
            }
        },
    }
}

/// The keys of an operator are stated by id and suite, each in its place.
pub open spec fn states_keys(out: Seq<JsonView>, keys: Seq<RegisteredKeyView>) -> bool {
    out.len() == keys.len() && forall|i: int|
        0 <= i < keys.len() ==> (#[trigger] out[i]).get("key_id"@) == Some(
            JsonView::Str(keys[i].key_id),
        ) && out[i].get("suite"@) == Some(JsonView::Str(keys[i].public.suite))
}

/// An operator is answered with what the store has of that node and of no
/// other: its keys, the edges into it and out of it, its memberships, its
/// standing on the master list, and the declarations on it.
pub proof fn law_operator_is_shown(
    s: StoreView,
    raw: Seq<char>,
    id: Seq<char>,
    kind: Seq<char>,
    p: Map<Seq<char>, Seq<char>>,
    now: Timestamp,
)
    requires
        api::asked_instant(p) is Ok,
    ensures
        ({
            let r = reads::operator_reply(s, raw, Some(id), kind, p, now);
            &&& r.status == 200 || r.status == 404
            &&& r.status == 404 <==> forall|i: int|
                0 <= i < s.graph.nodes.len() ==> (#[trigger] s.graph.nodes[i]).id != id
            &&& r.status == 200 ==> {
                &&& r.doc.get("operator"@) == Some(JsonView::Str(id))
                &&& r.doc.get("kind"@) == Some(JsonView::Str(kind))
                &&& exists|i: int|
                    0 <= i < s.graph.nodes.len() && (#[trigger] s.graph.nodes[i]).id == id && (
                    r.doc.get("keys"@) matches Some(JsonView::Arr(k)) && states_keys(
                        k,
                        s.graph.nodes[i].keys,
                    ))
                &&& r.doc.get("delegated_by"@) matches Some(JsonView::Arr(e)) && states_edges(
                    e,
                    s.graph.edges,
                    id,
                    true,
                )
                &&& r.doc.get("delegates"@) matches Some(JsonView::Arr(e)) && states_edges(
                    e,
                    s.graph.edges,
                    id,
                    false,
                )
                &&& r.doc.get("trust_list_memberships"@) matches Some(JsonView::Arr(m))
                    && states_memberships(m, s.trust_lists, id, r.as_of)
                &&& r.doc.get("master_list"@) matches Some(m) && states_standing(m, s.master, id)
                &&& r.doc.get("revocations"@) matches Some(JsonView::Arr(d))
                    && states_declarations_on(d, s.ledger, id)
            }
        }),
{
    data::law_lookup::<DelegationNode>(s.graph.nodes, id);
    let r = reads::operator_reply(s, raw, Some(id), kind, p, now);
    match data::lookup::<DelegationNode>(s.graph.nodes, id) {
        Some(n) => {
            let i = choose|i: int|
                0 <= i < s.graph.nodes.len() && #[trigger] s.graph.nodes[i] == n
                    && DelegationNode::key_of(n) == id && forall|j: int|
                    0 <= j < i ==> DelegationNode::key_of(#[trigger] s.graph.nodes[j]) != id;
            assert(s.graph.nodes[i].id == id);
            lemma_edges_stated(s.graph.edges, id, true);
            lemma_edges_stated(s.graph.edges, id, false);
            lemma_declarations_stated(s.ledger, id);
            lemma_memberships_stated(s.trust_lists, id, r.as_of);
            lemma_standing(s.master, id);
            let k = reads::operator_keys(n.keys);
            assert(states_keys(k, n.keys)) by {
                reveal_strlit("key_id");
                reveal_strlit("suite");
                assert("key_id"@.len() == 6);
                assert("suite"@.len() == 5);
            }
            reveal_strlit("operator");
            reveal_strlit("kind");
            reveal_strlit("keys");
            reveal_strlit("delegated_by");
            reveal_strlit("delegates");
            reveal_strlit("trust_list_memberships");
            reveal_strlit("master_list");
            reveal_strlit("revocations");
            reveal_strlit("as_of");
            assert("operator"@.len() == 8);
            assert("kind"@.len() == 4 && "kind"@[1] == 'i');
            assert("keys"@.len() == 4 && "keys"@[1] == 'e');
            assert("delegated_by"@.len() == 12);
            assert("delegates"@.len() == 9);
            assert("trust_list_memberships"@.len() == 22);
            assert("master_list"@.len() == 11 && "master_list"@[0] == 'm');
            assert("revocations"@.len() == 11 && "revocations"@[0] == 'r');
            assert("as_of"@.len() == 5);
            assert(r.doc.get("keys"@) == Some(JsonView::Arr(k)));
        },
        None => {
            assert forall|i: int| 0 <= i < s.graph.nodes.len() implies (
            #[trigger] s.graph.nodes[i]).id != id by {
                assert(DelegationNode::key_of(s.graph.nodes[i]) != id);
            }
        },
    }
}

/// Every declaration that an operator is shown with names that operator's
/// node, and every declaration on the node is among them.
pub proof fn law_operator_declarations(
    s: StoreView,
    raw: Seq<char>,
    id: Seq<char>,
    kind: Seq<char>,
    p: Map<Seq<char>, Seq<char>>,
    now: Timestamp,
)
    requires
        reads::operator_reply(s, raw, Some(id), kind, p, now).status == 200,
    ensures
        ({
            let r = reads::operator_reply(s, raw, Some(id), kind, p, now);
            &&& r.doc.get("revocations"@) matches Some(JsonView::Arr(d))
            &&& forall|k: int|
                0 <= k < d.len() ==> ((#[trigger] d[k]).get("subject"@) matches Some(x) && x.get(
                    "kind"@,
                ) == Some(JsonView::Str("node"@)) && x.get("id"@) == Some(JsonView::Str(id)))
            &&& forall|i: int|
                0 <= i < s.ledger.len() && (#[trigger] s.ledger[i]).subject
                    == RevokedSubjectView::Node(id) ==> exists|k: int|
                    0 <= k < d.len() && statements::states_declaration(
                        #[trigger] d[k],
                        s.ledger[i],
                    )
        }),
{
    law_operator_is_shown(s, raw, id, kind, p, now);
    let r = reads::operator_reply(s, raw, Some(id), kind, p, now);
    let d = (r.doc.get("revocations"@)->0)->Arr_0;
    assert(states_declarations_on(d, s.ledger, id));
    let at = choose|at: Seq<int>| #[trigger]
        ascends(at) && at.len() == d.len() && (forall|m: int|
            0 <= m < at.len() ==> 0 <= #[trigger] at[m] < s.ledger.len()
                && statements::states_declaration(d[m], s.ledger[at[m]])) && (forall|i: int|
            #[trigger] at.contains(i) <==> 0 <= i < s.ledger.len() && s.ledger[i].subject is Node
                && s.ledger[i].subject->Node_0 == id);
    assert forall|k: int| 0 <= k < d.len() implies ((#[trigger] d[k]).get("subject"@) matches Some(
        x,
    ) && x.get("kind"@) == Some(JsonView::Str("node"@)) && x.get("id"@) == Some(
        JsonView::Str(id),
    )) by {
        assert(at.contains(at[k]));
        assert(statements::states_declaration(d[k], s.ledger[at[k]]));
    }
    assert forall|i: int|
        0 <= i < s.ledger.len() && (#[trigger] s.ledger[i]).subject == RevokedSubjectView::Node(
            id,
        ) implies exists|k: int|
        0 <= k < d.len() && statements::states_declaration(#[trigger] d[k], s.ledger[i]) by {
        assert(at.contains(i));
        let m = choose|m: int| 0 <= m < at.len() && at[m] == i;
        assert(statements::states_declaration(d[m], s.ledger[i]));
    }
}

// ---------------------------------------------------------------------------
// The graph and the bundle
// ---------------------------------------------------------------------------

/// The document states the node.
pub open spec fn states_node(d: JsonView, n: DelegationNodeView) -> bool {
    &&& d.get("id"@) == Some(JsonView::Str(n.id))
    &&& match n.kind {
        NodeKindView::Root => d.get("kind"@) == Some(JsonView::Str("root"@)),
        NodeKindView::Delegated => d.get("kind"@) == Some(JsonView::Str("delegated"@)),
        NodeKindView::End => d.get("kind"@) == Some(JsonView::Str("end"@)),
        NodeKindView::ThresholdGroup { threshold, members } => d.get("kind"@) matches Some(k)
            && k.get("threshold_group"@) matches Some(g) && g.get("threshold"@) == Some(
            JsonView::Num(threshold as int),
        ) && (g.get("members"@) matches Some(JsonView::Arr(m)) && m.len() == members.len()
            && forall|i: int| 0 <= i < m.len() ==> #[trigger] m[i] == JsonView::Str(members[i])),
    }
    &&& d.get("keys"@) matches Some(JsonView::Arr(k)) && k.len() == n.keys.len() && forall|i: int|
        0 <= i < k.len() ==> states_key(#[trigger] k[i], n.keys[i])
}

/// The document states the registered key: raw bytes in hex, never a
/// fingerprint.
pub open spec fn states_key(d: JsonView, k: RegisteredKeyView) -> bool {
    &&& d.get("key_id"@) == Some(JsonView::Str(k.key_id))
    &&& d.get("suite"@) == Some(JsonView::Str(k.public.suite))
    &&& d.get("public"@) == Some(JsonView::Str(hex::hex_text(k.public.bytes)))
    &&& d.get("public_len"@) == Some(JsonView::Num(k.public.bytes.len() as int))
}

/// A node is stated by its document.
pub proof fn law_nodes_are_stated(n: DelegationNodeView)
    ensures
        states_node(wire::node_value(n), n),
{
    let d = wire::node_value(n);
    reveal_strlit("id");
    reveal_strlit("kind");
    reveal_strlit("keys");
    reveal_strlit("threshold_group");
    reveal_strlit("threshold");
    reveal_strlit("members");
    assert("id"@.len() == 2);
    assert("kind"@.len() == 4 && "kind"@[1] == 'i');
    assert("keys"@.len() == 4 && "keys"@[1] == 'e');
    assert("threshold_group"@.len() == 15);
    assert("threshold"@.len() == 9);
    assert("members"@.len() == 7);
    let k = wire::docs::<RegisteredKey>(n.keys);
    assert(d.get("keys"@) == Some(JsonView::Arr(k)));
    assert forall|i: int| 0 <= i < k.len() implies states_key(#[trigger] k[i], n.keys[i]) by {
        reveal_strlit("key_id");
        reveal_strlit("suite");
        reveal_strlit("public");
        reveal_strlit("public_len");
        assert("key_id"@.len() == 6 && "key_id"@[0] == 'k');
        assert("public"@.len() == 6 && "public"@[0] == 'p');
        assert("suite"@.len() == 5);
        assert("public_len"@.len() == 10);
    }
    if let NodeKindView::ThresholdGroup { threshold, members } = n.kind {
        let g = (d.get("kind"@)->0).get("threshold_group"@)->0;
        assert(g.get("members"@) == Some(JsonView::Arr(wire::strings(members))));
    }
}

/// The store that a reading is made of: as it stood at the instant asked
/// about, else as it stands.
pub open spec fn store_shown(s: StoreView, p: Map<Seq<char>, Seq<char>>) -> StoreView {
    match api::asked_instant(p) {
        Ok(Some(t)) => store::as_of(s, t),
        _ => s,
    }
}

/// The graph is served whole: every node and every edge, each in its place,
/// and the number of either.
pub proof fn law_graph_is_served_whole(s: StoreView, p: Map<Seq<char>, Seq<char>>, now: Timestamp)
    ensures
        ({
            let r = reads::graph_reply(s, p, now);
            let g = store_shown(s, p).graph;
            &&& r.status == 200 <==> api::asked_instant(p) is Ok
            &&& r.status != 200 ==> r.status == 400
            &&& r.status == 200 ==> {
                &&& r.doc.get("node_count"@) == Some(JsonView::Num(g.nodes.len() as int))
                &&& r.doc.get("edge_count"@) == Some(JsonView::Num(g.edges.len() as int))
                &&& r.doc.get("nodes"@) matches Some(JsonView::Arr(n)) && n.len() == g.nodes.len()
                    && forall|i: int| 0 <= i < n.len() ==> states_node(#[trigger] n[i], g.nodes[i])
                &&& r.doc.get("edges"@) matches Some(JsonView::Arr(e)) && e.len() == g.edges.len()
                    && forall|i: int| 0 <= i < e.len() ==> states_edge(#[trigger] e[i], g.edges[i])
            }
        }),
{
    let r = reads::graph_reply(s, p, now);
    if r.status == 200 {
        let g = store_shown(s, p).graph;
        reveal_strlit("as_of");
        reveal_strlit("node_count");
        reveal_strlit("edge_count");
        reveal_strlit("nodes");
        reveal_strlit("edges");
        assert("as_of"@.len() == 5 && "as_of"@[0] == 'a');
        assert("nodes"@.len() == 5 && "nodes"@[0] == 'n');
        assert("edges"@.len() == 5 && "edges"@[0] == 'e');
        assert("node_count"@.len() == 10 && "node_count"@[0] == 'n');
        assert("edge_count"@.len() == 10 && "edge_count"@[0] == 'e');
        let n = wire::docs::<DelegationNode>(g.nodes);
        let e = wire::docs::<DelegationCredential>(g.edges);
        assert(r.doc.get("nodes"@) == Some(JsonView::Arr(n)));
        assert(r.doc.get("edges"@) == Some(JsonView::Arr(e)));
        assert forall|i: int| 0 <= i < n.len() implies states_node(#[trigger] n[i], g.nodes[i]) by {
            law_nodes_are_stated(g.nodes[i]);
        }
        assert forall|i: int| 0 <= i < e.len() implies states_edge(#[trigger] e[i], g.edges[i]) by {
            law_edges_are_stated(g.edges[i]);
        }
    }
}

/// The bundle of a jurisdiction holds its one list and the master list, as
/// they stood at the instant asked about; without a jurisdiction the answer
/// is 400, and 404 where no list of it is registered.
pub proof fn law_bundle_is_of_its_jurisdiction(
    s: StoreView,
    p: Map<Seq<char>, Seq<char>>,
    now: Timestamp,
)
    requires
        api::asked_instant(p) is Ok,
    ensures
        ({
            let r = reads::bundle_reply(s, p, now);
            let t = store_shown(s, p);
            match api::query(p, "jurisdiction"@) {
                None => r.status == 400,
                Some(jur) => match data::lookup::<JurisdictionList>(
                    t.trust_lists,
                    text::upper(jur),
                ) {
                    None => r.status == 404,
                    Some(l) => {
                        &&& r.status == 200
                        &&& r.doc.get("jurisdiction"@) == Some(JsonView::Str(jur))
                        &&& r.doc.get("trust_lists"@) matches Some(JsonView::Arr(a)) && a.len() == 1
                            && a[0].get("jurisdiction"@) == Some(
                            JsonView::Str(l.list.jurisdiction),
                        ) && (a[0].get("entries"@) matches Some(JsonView::Arr(e)) && e.len()
                            == l.list.entries.len() && forall|i: int|
                            0 <= i < e.len() ==> states_bare_entry(
                                #[trigger] e[i],
                                l.list.entries[i],
                            ))
                        &&& r.doc.get("master"@) matches Some(m)
                        &&& m.get("m"@) == Some(JsonView::Num(t.master.m as int))
                        &&& m.get("k"@) == Some(JsonView::Num(t.master.k as int))
                        &&& m.get("witnesses"@) matches Some(JsonView::Arr(w)) && w.len()
                            == t.master.witnesses.len() && forall|i: int|
                            0 <= i < w.len() ==> states_witness(
                                #[trigger] w[i],
                                t.master.witnesses[i],
                            )
                        &&& m.get("entries"@) matches Some(JsonView::Arr(e)) && e.len()
                            == t.master.entries.len()
                    },
                },
            }
        }),
{
    let r = reads::bundle_reply(s, p, now);
    let t = store_shown(s, p);
    if r.status == 200 {
        let jur = api::query(p, "jurisdiction"@)->0;
        let l = data::lookup::<JurisdictionList>(t.trust_lists, text::upper(jur))->0;
        reveal_strlit("as_of");
        reveal_strlit("jurisdiction");
        reveal_strlit("trust_lists");
        reveal_strlit("master");
        reveal_strlit("m");
        reveal_strlit("k");
        reveal_strlit("witnesses");
        reveal_strlit("entries");
        assert("as_of"@.len() == 5);
        assert("jurisdiction"@.len() == 12);
        assert("trust_lists"@.len() == 11);
        assert("master"@.len() == 6);
        assert("m"@.len() == 1 && "m"@[0] == 'm');
        assert("k"@.len() == 1 && "k"@[0] == 'k');
        assert("witnesses"@.len() == 9);
        assert("entries"@.len() == 7);
        let a = (r.doc.get("trust_lists"@)->0)->Arr_0;
        let e = reads::bare_entries(l.list.entries);
        assert(a[0].get("entries"@) == Some(JsonView::Arr(e)));
        assert forall|i: int| 0 <= i < e.len() implies states_bare_entry(
            #[trigger] e[i],
            l.list.entries[i],
        ) by {
            reveal_strlit("node");
            reveal_strlit("not_before");
            reveal_strlit("superseded_at");
            assert("node"@.len() == 4);
            assert("not_before"@.len() == 10);
            assert("superseded_at"@.len() == 13);
        }
        let w = store::bare_witnesses(t.master.witnesses);
        assert forall|i: int| 0 <= i < w.len() implies states_witness(
            #[trigger] w[i],
            t.master.witnesses[i],
        ) by {
            reveal_strlit("node");
            reveal_strlit("suite");
            reveal_strlit("public");
            reveal_strlit("public_len");
            assert("node"@.len() == 4);
            assert("suite"@.len() == 5);
            assert("public"@.len() == 6);
            assert("public_len"@.len() == 10);
        }
    }
}

/// The document states the entry, without a verdict on whether it is in
/// force.
pub open spec fn states_bare_entry(d: JsonView, e: TrustListEntryRecordView) -> bool {
    &&& d.get("node"@) == Some(JsonView::Str(e.node))
    &&& d.get("not_before"@) == Some(JsonView::Str(time::stamp(e.not_before.secs as int)))
    &&& d.get("superseded_at"@) == Some(
        match e.superseded_at {
            Some(u) => JsonView::Str(time::stamp(u.secs as int)),
            None => JsonView::Null,
        },
    )
}

/// The document states the witness with its key as raw bytes in hex.
pub open spec fn states_witness(d: JsonView, w: WitnessView) -> bool {
    &&& d.get("node"@) == Some(JsonView::Str(w.node))
    &&& d.get("suite"@) == Some(JsonView::Str(w.public.suite))
    &&& d.get("public"@) == Some(JsonView::Str(hex::hex_text(w.public.bytes)))
    &&& d.get("public_len"@) == Some(JsonView::Num(w.public.bytes.len() as int))
}

// ---------------------------------------------------------------------------
// The master list
// ---------------------------------------------------------------------------

/// The attestation is verified: it names a witness, and its slot verifies
/// under that witness's key.
pub open spec fn attestation_holds(
    e: MasterListEntryView,
    m: MasterListView,
    checks: Seq<SlotCheckView>,
    i: int,
) -> bool {
    data::lookup::<Witness>(m.witnesses, e.attestations[i].witness) matches Some(w)
        && judge::verifies(checks, i, w.public.bytes)
}

/// The witnesses with an attestation that holds.
pub open spec fn witnesses_holding(
    e: MasterListEntryView,
    m: MasterListView,
    checks: Seq<SlotCheckView>,
) -> Set<Seq<char>> {
    Set::new(
        |w: Seq<char>|
            exists|i: int|
                0 <= i < e.attestations.len() && #[trigger] attestation_holds(e, m, checks, i)
                    && e.attestations[i].witness == w,
    )
}

proof fn lemma_vouchers(
    e: MasterListEntryView,
    m: MasterListView,
    checks: Seq<SlotCheckView>,
    k: nat,
    w: Seq<char>,
)
    requires
        k <= e.attestations.len(),
    ensures
        wire::vouchers(e, m.witnesses, checks, k).finite(),
        wire::vouchers(e, m.witnesses, checks, k).contains(w) <==> exists|i: int|
            0 <= i < k && #[trigger] attestation_holds(e, m, checks, i)
                && e.attestations[i].witness == w,
    decreases k,
{
    if k > 0 {
        lemma_vouchers(e, m, checks, (k - 1) as nat, w);
        assert(wire::attestation_verified(e, m.witnesses, checks, k - 1) == attestation_holds(
            e,
            m,
            checks,
            k - 1,
        ));
        let before = wire::vouchers(e, m.witnesses, checks, (k - 1) as nat);
        if wire::vouchers(e, m.witnesses, checks, k).contains(w) {
            if before.contains(w) {
                let i = choose|i: int|
                    0 <= i < k - 1 && #[trigger] attestation_holds(e, m, checks, i)
                        && e.attestations[i].witness == w;
                assert(attestation_holds(e, m, checks, i));
            } else {
                assert(attestation_holds(e, m, checks, k - 1));
            }
        }
        if exists|i: int|
            0 <= i < k && #[trigger] attestation_holds(e, m, checks, i)
                && e.attestations[i].witness == w {
            let i = choose|i: int|
                0 <= i < k && #[trigger] attestation_holds(e, m, checks, i)
                    && e.attestations[i].witness == w;
            if i < k - 1 {
                assert(attestation_holds(e, m, checks, i));
            }
        }
    }
}

/// An entry of the master list is shown with a verdict on each attestation,
/// with the number of different witnesses whose attestations hold, and as
/// quorate exactly when there are as many of those as the threshold asks.
pub proof fn law_master_entry_is_judged(
    e: MasterListEntryView,
    m: MasterListView,
    checks: Seq<SlotCheckView>,
)
    ensures
        ({
            let d = reads::judged_entry(e, m, checks);
            &&& d.get("node"@) == Some(JsonView::Str(e.node))
            &&& d.get("attestations"@) matches Some(JsonView::Arr(a)) && a.len()
                == e.attestations.len() && forall|i: int|
                0 <= i < a.len() ==> (#[trigger] a[i]).get("witness"@) == Some(
                    JsonView::Str(e.attestations[i].witness),
                ) && a[i].get("at"@) == Some(
                    JsonView::Str(time::stamp(e.attestations[i].at.secs as int)),
                ) && a[i].get("verified"@) == Some(
                    JsonView::Bool(attestation_holds(e, m, checks, i)),
                ) && (a[i].get("slot"@) matches Some(x) && statements::states_slot(
                    x,
                    e.attestations[i].slot,
                ))
            &&& d.get("verified_witnesses"@) == Some(
                JsonView::Num(witnesses_holding(e, m, checks).len() as int),
            )
            &&& d.get("quorate"@) == Some(
                JsonView::Bool(witnesses_holding(e, m, checks).len() >= m.m),
            )
            &&& d.get("threshold_required"@) == Some(JsonView::Num(m.m as int))
        }),
{
    let d = reads::judged_entry(e, m, checks);
    let n = e.attestations.len();
    assert forall|w: Seq<char>| wire::vouchers(e, m.witnesses, checks, n).contains(w)
        <==> #[trigger] witnesses_holding(e, m, checks).contains(w) by {
        lemma_vouchers(e, m, checks, n, w);
    }
    assert(wire::vouchers(e, m.witnesses, checks, n) =~= witnesses_holding(e, m, checks));
    reveal_strlit("node");
    reveal_strlit("attestations");
    reveal_strlit("verified_witnesses");
    reveal_strlit("quorate");
    reveal_strlit("threshold_required");
    assert("node"@.len() == 4);
    assert("attestations"@.len() == 12);
    assert("verified_witnesses"@.len() == 18 && "verified_witnesses"@[0] == 'v');
    assert("threshold_required"@.len() == 18 && "threshold_required"@[0] == 't');
    assert("quorate"@.len() == 7);
    let a = (d.get("attestations"@)->0)->Arr_0;
    assert forall|i: int| 0 <= i < a.len() implies (#[trigger] a[i]).get("witness"@) == Some(
        JsonView::Str(e.attestations[i].witness),
    ) && a[i].get("at"@) == Some(
        JsonView::Str(time::stamp(e.attestations[i].at.secs as int)),
    ) && a[i].get("verified"@) == Some(JsonView::Bool(attestation_holds(e, m, checks, i))) && (
    a[i].get("slot"@) matches Some(x) && statements::states_slot(x, e.attestations[i].slot)) by {
        let slot = e.attestations[i].slot;
        statements::law_attestations_are_stated(
            QuorumAttestationView { quorum: e.node, threshold: 0, signatures: seq![slot] },
            slot,
        );
        reveal_strlit("witness");
        reveal_strlit("at");
        reveal_strlit("slot");
        reveal_strlit("verified");
        assert("witness"@.len() == 7);
        assert("at"@.len() == 2);
        assert("slot"@.len() == 4);
        assert("verified"@.len() == 8);
    }
}

/// The master list is served with its threshold, every witness and every
/// entry, each entry judged by the checks of its own node.
pub proof fn law_master_list_is_served_whole(
    s: StoreView,
    rows: Seq<EntryChecksView>,
    p: Map<Seq<char>, Seq<char>>,
    now: Timestamp,
)
    ensures
        ({
            let r = reads::master_reply(s, rows, p, now);
            let m = match api::asked_instant(p) {
                Ok(Some(t)) => MasterListView {
                    entries: s.master.entries,
                    ..store::as_of(s, t).master
                },
                _ => s.master,
            };
            &&& r.status == 200 <==> api::asked_instant(p) is Ok
            &&& r.status == 200 ==> {
                &&& r.doc.get("m_of_k"@) matches Some(x) && x.get("m"@) == Some(
                    JsonView::Num(m.m as int),
                ) && x.get("k"@) == Some(JsonView::Num(m.k as int))
                &&& r.doc.get("witnesses"@) matches Some(JsonView::Arr(w)) && w.len()
                    == m.witnesses.len() && forall|i: int|
                    0 <= i < w.len() ==> states_witness(#[trigger] w[i], m.witnesses[i])
                        && w[i].get("key_id"@) == Some(
                        JsonView::Str(m.witnesses[i].public.key_id),
                    )
                &&& r.doc.get("entries"@) matches Some(JsonView::Arr(e)) && e.len()
                    == m.entries.len() && forall|i: int|
                    0 <= i < e.len() ==> #[trigger] e[i] == reads::judged_entry(
                        m.entries[i],
                        m,
                        match data::lookup::<EntryChecks>(rows, m.entries[i].node) {
                            Some(c) => c.checks,
                            None => Seq::empty(),
                        },
                    )
            }
        }),
{
    let r = reads::master_reply(s, rows, p, now);
    if r.status == 200 {
        reveal_strlit("as_of");
        reveal_strlit("m_of_k");
        reveal_strlit("witnesses");
        reveal_strlit("entries");
        reveal_strlit("m");
        reveal_strlit("k");
        assert("as_of"@.len() == 5);
        assert("m_of_k"@.len() == 6);
        assert("witnesses"@.len() == 9);
        assert("entries"@.len() == 7);
        assert("m"@.len() == 1 && "m"@[0] == 'm');
        assert("k"@.len() == 1 && "k"@[0] == 'k');
        let m = reads::master_read(s, api::asked_instant(p)->Ok_0);
        let w = wire::docs::<Witness>(m.witnesses);
        assert(r.doc.get("witnesses"@) == Some(JsonView::Arr(w)));
        assert forall|i: int| 0 <= i < w.len() implies states_witness(
            #[trigger] w[i],
            m.witnesses[i],
        ) && w[i].get("key_id"@) == Some(JsonView::Str(m.witnesses[i].public.key_id)) by {
            reveal_strlit("node");
            reveal_strlit("suite");
            reveal_strlit("key_id");
            reveal_strlit("public");
            reveal_strlit("public_len");
            assert("node"@.len() == 4);
            assert("suite"@.len() == 5);
            assert("key_id"@.len() == 6 && "key_id"@[0] == 'k');
            assert("public"@.len() == 6 && "public"@[0] == 'p');
            assert("public_len"@.len() == 10);
        }
        let e = reads::judged_entries(m, rows);
        assert(r.doc.get("entries"@) == Some(JsonView::Arr(e)));
    }
}

// ---------------------------------------------------------------------------
// The cutoff and the verdict of a declaration
// ---------------------------------------------------------------------------

/// The cutoff of a query is the instant that `known_by` states; without it
/// there is none, and a text that states none is refused.
pub proof fn law_cutoff_asked(p: Map<Seq<char>, Seq<char>>)
    ensures
        match api::query(p, "known_by"@) {
            None => reads::asked_cutoff(p) == Ok::<Option<Timestamp>, Seq<char>>(None),
            Some(raw) => {
                &&& reads::asked_cutoff(p) is Ok <==> time::parsed(raw) is Some
                &&& reads::asked_cutoff(p) matches Ok(c) ==> (c matches Some(t) && time::parsed(raw)
                    == Some(t.secs as int))
            },
        },
{
    if let Some(raw) = api::query(p, "known_by"@) {
        time::law_stated_instants_are_counted(raw);
    }
}

/// A query is refused exactly when one of its parameters is; it is echoed as
/// it was read, and each row is read against its cutoff.
pub proof fn law_query_is_echoed(
    s: StoreView,
    readings: Seq<ReadingView>,
    p: Map<Seq<char>, Seq<char>>,
    now: Timestamp,
)
    ensures
        ({
            let r = reads::revocations_reply(s, readings, p, now);
            &&& r.status == 200 <==> api::asked_instant(p) is Ok && reads::asked_cutoff(p) is Ok
                && reads::asked_retroactivity(p) is Ok && api::asked_window(p) is Ok
            &&& r.status != 200 ==> r.status == 400
            &&& r.status == 200 ==> {
                let cutoff = match reads::asked_cutoff(p)->Ok_0 {
                    Some(t) => JsonView::Str(time::stamp(t.secs as int)),
                    None => JsonView::Null,
                };
                &&& r.doc.get("known_by"@) == Some(cutoff)
                &&& r.doc.get("query"@) matches Some(d)
                &&& d.get("known_by"@) == Some(cutoff)
                &&& d.get("at"@) == Some(
                    match api::asked_instant(p)->Ok_0 {
                        Some(t) => JsonView::Str(time::stamp(t.secs as int)),
                        None => JsonView::Null,
                    },
                )
                &&& d.get("subject"@) == Some(
                    match api::query(p, "subject"@) {
                        Some(t) => JsonView::Str(t),
                        None => JsonView::Null,
                    },
                )
                &&& d.get("retroactive"@) == Some(
                    match reads::asked_retroactivity(p)->Ok_0 {
                        Some(b) => JsonView::Bool(b),
                        None => JsonView::Null,
                    },
                )
                &&& match api::asked_window(p)->Ok_0 {
                    None => d.get("window"@) == Some(JsonView::Null),
                    Some((a, b)) => d.get("window"@) matches Some(w) && w.get("start"@) == Some(
                        JsonView::Str(time::stamp(a.secs as int)),
                    ) && w.get("end"@) == Some(
                        match b {
                            Some(e) => JsonView::Str(time::stamp(e.secs as int)),
                            None => JsonView::Null,
                        },
                    ),
                }
            }
        }),
{
    reveal_strlit("as_of");
    reveal_strlit("known_by");
    reveal_strlit("query");
    reveal_strlit("semantics");
    reveal_strlit("count");
    reveal_strlit("revocations");
    assert("as_of"@.len() == 5 && "as_of"@[0] == 'a');
    assert("query"@.len() == 5 && "query"@[0] == 'q');
    assert("count"@.len() == 5 && "count"@[0] == 'c');
    assert("known_by"@.len() == 8);
    assert("semantics"@.len() == 9);
    assert("revocations"@.len() == 11);
    reveal_strlit("at");
    reveal_strlit("subject");
    reveal_strlit("retroactive");
    reveal_strlit("window");
    reveal_strlit("start");
    reveal_strlit("end");
    assert("at"@.len() == 2);
    assert("subject"@.len() == 7);
    assert("retroactive"@.len() == 11);
    assert("window"@.len() == 6);
    assert("start"@.len() == 5);
    assert("end"@.len() == 3);
}

/// A row shows how its quorum stands in the graph as it is: a voiding
/// declaration with the verdict on its attestation, another without one.
pub proof fn law_row_shows_the_verdict(
    s: StoreView,
    i: int,
    cutoff: Option<Timestamp>,
    reading: ReadingView,
    q: QuorumAttestationView,
)
    requires
        s.ledger[i].quorum == Some(q),
    ensures
        ({
            let v = quorum::verdict_of(s.graph, q, reading.checks);
            let voiding = statements::voiding_token(s.ledger[i].reason.token());
            &&& reads::declaration_row(s, i, cutoff, reading).get("quorum"@) matches Some(d)
            &&& voiding ==> {
                &&& d.get("form"@) == Some(JsonView::Str(v.form.spec_token()))
                &&& d.get("verified_count"@) == Some(JsonView::Num(v.member_verified as int))
                &&& d.get("group_verified"@) == Some(JsonView::Bool(v.group_verified))
                &&& d.get("quorate"@) == Some(JsonView::Bool(v.quorate))
            }
            &&& !voiding ==> {
                &&& d.get("form"@) == Some(JsonView::Null)
                &&& d.get("verified_count"@) == Some(JsonView::Null)
                &&& d.get("group_verified"@) == Some(JsonView::Null)
                &&& d.get("quorate"@) == Some(JsonView::Bool(false))
            }
        }),
{
    statements::law_retroactive_reasons(s.ledger[i].reason);
    reveal_strlit("seq");
    reveal_strlit("subject");
    reveal_strlit("reason");
    reveal_strlit("declared_at");
    reveal_strlit("declared_by");
    reveal_strlit("window");
    reveal_strlit("quorum");
    reveal_strlit("known_at_cutoff");
    reveal_strlit("voids_at_as_of");
    reveal_strlit("standing_at_as_of");
    reveal_strlit("verifications_at_stand");
    reveal_strlit("rule");
    assert("seq"@.len() == 3);
    assert("subject"@.len() == 7);
    assert("reason"@.len() == 6 && "reason"@[0] == 'r');
    assert("window"@.len() == 6 && "window"@[0] == 'w');
    assert("quorum"@.len() == 6 && "quorum"@[0] == 'q');
    assert("declared_at"@.len() == 11 && "declared_at"@[9] == 'a');
    assert("declared_by"@.len() == 11 && "declared_by"@[9] == 'b');
    assert("known_at_cutoff"@.len() == 15);
    assert("voids_at_as_of"@.len() == 14);
    assert("standing_at_as_of"@.len() == 17);
    assert("verifications_at_stand"@.len() == 22);
    assert("rule"@.len() == 4);
    let d = reads::judged_quorum(q, reads::live_verdict(s, s.ledger[i], reading.checks));
    assert(reads::declaration_row(s, i, cutoff, reading).get("quorum"@) == Some(d));
    reveal_strlit("threshold");
    reveal_strlit("form");
    reveal_strlit("verified_count");
    reveal_strlit("group_verified");
    reveal_strlit("quorate");
    reveal_strlit("signatures");
    assert("threshold"@.len() == 9);
    assert("form"@.len() == 4);
    assert("verified_count"@.len() == 14 && "verified_count"@[0] == 'v');
    assert("group_verified"@.len() == 14 && "group_verified"@[0] == 'g');
    assert("quorate"@.len() == 7);
    assert("signatures"@.len() == 10);
}

/// The reasons that the service calls retroactive are the three that void,
/// and those that it calls prospective only end.
pub proof fn law_semantics_name_the_reasons(t: Seq<char>)
    ensures
        reads::retroactive_reasons().contains(t) <==> statements::voiding_token(t),
        reads::prospective_reasons().contains(t) <==> statements::ending_token(t) && t
            != "condition-withdrawal"@,
        ({
            let d = reads::semantics_doc();
            &&& d.get("retroactive_reasons"@) matches Some(JsonView::Arr(a)) && (a.contains(
                JsonView::Str(t),
            ) <==> statements::voiding_token(t))
            &&& d.get("prospective_reasons"@) matches Some(JsonView::Arr(a)) && (a.contains(
                JsonView::Str(t),
            ) <==> statements::ending_token(t) && t != "condition-withdrawal"@)
        }),
{
    reveal_strlit("key-compromise");
    reveal_strlit("cessation");
    reveal_strlit("supersession");
    reveal_strlit("affiliation-change");
    reveal_strlit("condition-withdrawal");
    assert("key-compromise"@.len() == 14);
    assert("cessation"@.len() == 9);
    assert("supersession"@.len() == 12);
    assert("affiliation-change"@.len() == 18);
    assert("condition-withdrawal"@.len() == 20);
    reveal_strlit("retroactive_reasons");
    reveal_strlit("prospective_reasons");
    reveal_strlit("rule");
    assert("retroactive_reasons"@.len() == 19 && "retroactive_reasons"@[0] == 'r');
    assert("prospective_reasons"@.len() == 19 && "prospective_reasons"@[0] == 'p');
    assert("rule"@.len() == 4);
    let a = reads::retroactive_reasons();
    let b = reads::prospective_reasons();
    assert(a[0] == "misissuance"@ && a[1] == "fraudulent-issuance"@ && a[2]
        == "authority-compromised"@);
    assert(b[0] == "key-compromise"@ && b[1] == "cessation"@ && b[2] == "supersession"@ && b[3]
        == "affiliation-change"@);
    lemma_strings_contain(a, t);
    lemma_strings_contain(b, t);
}

proof fn lemma_strings_contain(s: Seq<Seq<char>>, t: Seq<char>)
    ensures
        wire::strings(s).contains(JsonView::Str(t)) <==> s.contains(t),
{
    if s.contains(t) {
        let i = choose|i: int| 0 <= i < s.len() && s[i] == t;
        assert(wire::strings(s)[i] == JsonView::Str(t));
    }
    if wire::strings(s).contains(JsonView::Str(t)) {
        let i = choose|i: int|
            0 <= i < wire::strings(s).len() && wire::strings(s)[i] == JsonView::Str(t);
        assert(s[i] == t);
    }
}

// ---------------------------------------------------------------------------
// The audit log
// ---------------------------------------------------------------------------

/// How many records are asked for: the number that `limit` states, at most
/// ten thousand, and a hundred where it states none.
pub open spec fn limit_asked(p: Map<Seq<char>, Seq<char>>) -> int {
    let n: int = if p.dom().contains("limit"@) && text::number_of(
        p["limit"@],
        10,
        usize::MAX as nat,
    ) is Some {
        text::number_of(p["limit"@], 10, usize::MAX as nat)->0 as int
    } else {
        100
    };
    if n > 10_000 {
        10_000
    } else {
        n
    }
}

/// How many records are skipped: the number that `offset` states, and none
/// where it states none.
pub open spec fn offset_asked(p: Map<Seq<char>, Seq<char>>) -> int {
    if p.dom().contains("offset"@) && text::number_of(p["offset"@], 10, usize::MAX as nat) is Some {
        text::number_of(p["offset"@], 10, usize::MAX as nat)->0 as int
    } else {
        0
    }
}

/// The document states the record: its number, its instant, and the name and
/// the body of its mutation.
pub open spec fn states_record(d: JsonView, r: AuditRecordView) -> bool {
    &&& d.get("seq"@) == Some(JsonView::Num(r.seq as int))
    &&& d.get("recorded_at"@) == Some(JsonView::Str(time::stamp(r.recorded_at.secs as int)))
    &&& d.get("op"@) == Some(JsonView::Str(store::op_name(r.op)))
    &&& d.get("body"@) == Some(store::op_value(r.op))
}

/// A record is stated by its document.
pub proof fn law_records_are_stated(r: AuditRecordView)
    ensures
        states_record(store::record_value(r), r),
{
    reveal_strlit("op");
    reveal_strlit("body");
    reveal_strlit("seq");
    reveal_strlit("recorded_at");
    assert("op"@.len() == 2);
    assert("body"@.len() == 4);
    assert("seq"@.len() == 3);
    assert("recorded_at"@.len() == 11);
}

proof fn lemma_log_window(log: Seq<AuditRecordView>, limit: usize, offset: usize)
    ensures
        ({
            let w = store::log_window(log, limit, offset);
            let n = log.len() as int;
            &&& w.len() == if offset >= n {
                0
            } else if n - offset < limit {
                n - offset
            } else {
                limit as int
            }
            &&& forall|i: int| 0 <= i < w.len() ==> #[trigger] w[i] == log[offset + i]
        }),
{
}

proof fn lemma_records(w: Seq<AuditRecordView>, i: int)
    requires
        0 <= i < w.len(),
    ensures
        states_record(store::record_values(w)[i], w[i]),
{
    law_records_are_stated(w[i]);
}

proof fn lemma_log_doc(log: Seq<AuditRecordView>, limit: usize, offset: usize, now: Timestamp)
    ensures
        ({
            let d = store::log_value(log, limit, offset).put("as_of"@, api::stamped(now));
            &&& d.get("total"@) == Some(JsonView::Num(log.len() as int))
            &&& d.get("offset"@) == Some(JsonView::Num(offset as int))
            &&& d.get("records"@) == Some(
                JsonView::Arr(store::record_values(store::log_window(log, limit, offset))),
            )
        }),
{
    reveal_strlit("total");
    reveal_strlit("offset");
    reveal_strlit("records");
    reveal_strlit("as_of");
    assert("total"@.len() == 5 && "total"@[0] == 't');
    assert("as_of"@.len() == 5 && "as_of"@[0] == 'a');
    assert("offset"@.len() == 6);
    assert("records"@.len() == 7);
}

/// The log is served from the record behind those that are skipped, in its
/// order and without a gap, as far as it goes and at most as many records as
/// are asked for; the reply states how many there are in all.
pub proof fn law_log_is_served_in_order(
    s: StoreView,
    token: Option<Seq<char>>,
    authorization: Option<Seq<char>>,
    p: Map<Seq<char>, Seq<char>>,
    now: Timestamp,
)
    ensures
        ({
            let r = reads::log_reply(s, token, authorization, p, now);
            let n = s.log.len() as int;
            let from = offset_asked(p);
            &&& r.status == 200 || r.status == 401
            &&& r.status == 401 <==> token is Some && authorization != Some("Bearer "@ + token->0)
            &&& r.status == 200 ==> {
                &&& r.doc.get("total"@) == Some(JsonView::Num(n))
                &&& r.doc.get("offset"@) == Some(JsonView::Num(from))
                &&& r.doc.get("records"@) matches Some(JsonView::Arr(a))
                &&& a.len() == if from >= n {
                    0
                } else if n - from < limit_asked(p) {
                    n - from
                } else {
                    limit_asked(p)
                }
                &&& forall|i: int|
                    0 <= i < a.len() ==> states_record(#[trigger] a[i], s.log[from + i])
            }
        }),
{
    let r = reads::log_reply(s, token, authorization, p, now);
    if r.status == 200 {
        let from = offset_asked(p);
        let limit = limit_asked(p);
        if p.dom().contains("limit"@) {
            text::law_numbers_are_bounded(p["limit"@], 10, usize::MAX as nat);
        }
        if p.dom().contains("offset"@) {
            text::law_numbers_are_bounded(p["offset"@], 10, usize::MAX as nat);
        }
        assert(reads::asked_limit(p) == limit);
        assert(reads::number_param(p, "offset"@, 0) == from);
        lemma_log_window(s.log, limit as usize, from as usize);
        lemma_log_doc(s.log, limit as usize, from as usize, now);
        let w = store::log_window(s.log, limit as usize, from as usize);
        let a = store::record_values(w);
        assert forall|i: int| 0 <= i < a.len() implies states_record(
            #[trigger] a[i],
            s.log[from + i],
        ) by {
            lemma_records(w, i);
            assert(w[i] == s.log[from + i]);
        }
    }
}

} // verus!
