//! Laws of the store: what every mutation keeps, and what replaying the
//! log gives back.

use vstd::prelude::*;

use crate::codec;
use crate::data;
use crate::evidence::{Evidence, EvidenceView};
use crate::model::{DelegationNode, DelegationNodeView, MasterListEntry, RegisteredKeyView, RevocationView, TrustListEntryRecord, TrustListEntryRecordView, TrustListView, Witness, WitnessView};
use crate::quorum;
use crate::seed;
use crate::store;
use crate::store::{AuditRecordView, JurisdictionList, JurisdictionListView, OpView, RulingView, StoreErrorView, StoreView};
use crate::text;
use crate::time::Timestamp;

verus! {

// ---------------------------------------------------------------------------
// Replay
// ---------------------------------------------------------------------------

/// A mutation, the instant it is recorded at, and the ruling on it.
pub type Event = (OpView, Timestamp, RulingView);

/// The store after the first `k` events were recorded, from the start.
pub open spec fn live(events: Seq<Event>, k: nat) -> StoreView
    decreases k,
{
    if k == 0 {
        store::empty_store()
    } else {
        let s = live(events, (k - 1) as nat);
        let (op, at, ruling) = events[k - 1];
        store::logged(s, store::next_record(s, op, at), ruling)
    }
}

/// The records that the events left, each with the ruling on it.
pub open spec fn journal_of(events: Seq<Event>) -> Seq<(AuditRecordView, RulingView)> {
    Seq::new(
        events.len(),
        |i: int|
            (
                store::next_record(live(events, i as nat), events[i].0, events[i].1),
                events[i].2,
            ),
    )
}

proof fn lemma_replay(events: Seq<Event>, k: nat)
    requires
        k <= events.len(),
    ensures
        store::replayed(journal_of(events), k) == live(events, k),
    decreases k,
{
    if k > 0 {
        lemma_replay(events, (k - 1) as nat);
    }
}

/// Replaying the journal of a run rebuilds the store that the run left.
pub proof fn law_replay_rebuilds_the_store(events: Seq<Event>)
    ensures
        store::replayed(journal_of(events), events.len()) == live(events, events.len()),
{
    lemma_replay(events, events.len());
}

/// The log of a run is its journal: one record per event, in order,
/// numbered from one.
pub proof fn law_log_is_the_journal(events: Seq<Event>, k: nat)
    requires
        k <= events.len(),
        events.len() < u64::MAX,
    ensures
        live(events, k).log.len() == k,
        forall|i: int|
            0 <= i < k ==> #[trigger] live(events, k).log[i] == journal_of(events)[i].0 && live(
                events,
                k,
            ).log[i].seq == i + 1,
    decreases k,
{
    if k > 0 {
        law_log_is_the_journal(events, (k - 1) as nat);
        let s = live(events, (k - 1) as nat);
        let (op, at, ruling) = events[k - 1];
        assert(store::after(s, op, ruling).log == s.log);
    }
}

proof fn lemma_rulings_kept(events: Seq<Event>, k: nat)
    requires
        k <= events.len(),
    ensures
        live(events, k).log.len() == k,
        live(events, k).rulings.len() == k,
        forall|i: int|
            0 <= i < k ==> (#[trigger] live(events, k).log[i]) == journal_of(events)[i].0,
        forall|i: int| 0 <= i < k ==> (#[trigger] live(events, k).rulings[i]) == events[i].2,
    decreases k,
{
    if k > 0 {
        lemma_rulings_kept(events, (k - 1) as nat);
        let s = live(events, (k - 1) as nat);
        let (op, at, ruling) = events[k - 1];
        assert(store::after(s, op, ruling).log == s.log);
        assert(store::after(s, op, ruling).rulings == s.rulings);
    }
}

/// The store after the first `k` events of a run whose first `f` events
/// record the fixtures.
pub open spec fn run_of(events: Seq<Event>, f: nat, k: nat) -> StoreView {
    StoreView {
        fixtures: if f < k {
            f
        } else {
            k
        },
        ..live(events, k)
    }
}

/// The instant from which an event of such a run stands.
pub open spec fn event_stands_from(events: Seq<Event>, f: nat, i: int) -> Timestamp {
    if i < f {
        seed::dated(events[i].0)
    } else {
        events[i].1
    }
}

/// The log of a run and the rulings on it are its journal, and no record of
/// it is known for a fixture.
pub proof fn lemma_run(events: Seq<Event>, f: nat, k: nat)
    requires
        k <= events.len(),
    ensures
        live(events, k).fixtures == 0,
        run_of(events, f, k).log.len() == k,
        run_of(events, f, k).rulings.len() == k,
        forall|i: int|
            0 <= i < k ==> (#[trigger] run_of(events, f, k).log[i]) == journal_of(events)[i].0,
        forall|i: int| 0 <= i < k ==> (#[trigger] run_of(events, f, k).rulings[i]) == events[i].2,
    decreases k,
{
    lemma_rulings_kept(events, k);
    if k > 0 {
        lemma_run(events, f, (k - 1) as nat);
    }
}

proof fn lemma_logged_apart(s: StoreView, f: nat, record: AuditRecordView, ruling: RulingView)
    ensures
        store::logged(StoreView { fixtures: f, ..s }, record, ruling) == (StoreView {
            fixtures: f,
            ..store::logged(s, record, ruling)
        }),
{
    let a = StoreView { fixtures: f, ..s };
    assert(store::after(a, record.op, ruling) == (StoreView {
        fixtures: f,
        ..store::after(s, record.op, ruling)
    }));
}

proof fn lemma_rebuilt(events: Seq<Event>, f: nat, t: Timestamp, k: nat, n: nat)
    requires
        k <= n <= events.len(),
        f <= events.len(),
        forall|i: int| 0 <= i < k ==> (#[trigger] event_stands_from(events, f, i)).secs <= t.secs,
        forall|i: int|
            k <= i < events.len() ==> (#[trigger] event_stands_from(events, f, i)).secs > t.secs,
    ensures
        store::rebuilt_by(run_of(events, f, events.len()), t, n) == run_of(events, f, k),
    decreases n,
{
    let s = run_of(events, f, events.len());
    lemma_run(events, f, events.len());
    if n > k {
        lemma_rebuilt(events, f, t, k, (n - 1) as nat);
        assert(s.log[n - 1] == journal_of(events)[n - 1].0);
        assert(store::stands_from(s, n - 1) == event_stands_from(events, f, n - 1));
    } else {
        lemma_rebuilt_to(events, f, t, k);
    }
}

proof fn lemma_rebuilt_to(events: Seq<Event>, f: nat, t: Timestamp, k: nat)
    requires
        k <= events.len(),
        f <= events.len(),
        forall|i: int| 0 <= i < k ==> (#[trigger] event_stands_from(events, f, i)).secs <= t.secs,
    ensures
        store::rebuilt_by(run_of(events, f, events.len()), t, k) == run_of(events, f, k),
    decreases k,
{
    let s = run_of(events, f, events.len());
    lemma_run(events, f, events.len());
    if k > 0 {
        lemma_rebuilt_to(events, f, t, (k - 1) as nat);
        lemma_run(events, f, (k - 1) as nat);
        let before = run_of(events, f, (k - 1) as nat);
        let record = journal_of(events)[k - 1].0;
        assert(s.log[k - 1] == record);
        assert(s.rulings[k - 1] == events[k - 1].2);
        assert(store::stands_from(s, k - 1) == event_stands_from(events, f, k - 1));
        lemma_logged_apart(
            live(events, (k - 1) as nat),
            before.fixtures,
            record,
            events[k - 1].2,
        );
    } else {
        assert(run_of(events, f, 0) =~= store::empty_store());
    }
}

/// At an instant the store was what the events that stood then left: the
/// fixtures from the instants that they are dated, everything else from its
/// recording.
pub proof fn law_store_as_of_an_instant(events: Seq<Event>, f: nat, t: Timestamp, k: nat)
    requires
        k <= events.len(),
        f <= events.len(),
        forall|i: int| 0 <= i < k ==> (#[trigger] event_stands_from(events, f, i)).secs <= t.secs,
        forall|i: int|
            k <= i < events.len() ==> (#[trigger] event_stands_from(events, f, i)).secs > t.secs,
    ensures
        store::as_of(run_of(events, f, events.len()), t) == run_of(events, f, k),
{
    lemma_run(events, f, events.len());
    lemma_rebuilt(events, f, t, k, events.len());
}

/// At an instant that no record comes after, the store was what it is.
pub proof fn law_latest_instant_shows_the_store(events: Seq<Event>, f: nat, t: Timestamp)
    requires
        f <= events.len(),
        forall|i: int|
            0 <= i < events.len() ==> (#[trigger] event_stands_from(events, f, i)).secs <= t.secs,
    ensures
        store::as_of(run_of(events, f, events.len()), t) == run_of(events, f, events.len()),
{
    law_store_as_of_an_instant(events, f, t, events.len());
}

/// What is recorded after an instant does not change how the store was at
/// it.
pub proof fn law_the_past_is_fixed(
    s: StoreView,
    record: AuditRecordView,
    ruling: RulingView,
    t: Timestamp,
)
    requires
        s.rulings.len() == s.log.len(),
        s.fixtures <= s.log.len(),
        record.recorded_at.secs > t.secs,
    ensures
        store::as_of(store::logged(s, record, ruling), t) == store::as_of(s, t),
{
    lemma_rebuilt_same(s, record, ruling, t, s.log.len());
}

proof fn lemma_rebuilt_same(
    s: StoreView,
    record: AuditRecordView,
    ruling: RulingView,
    t: Timestamp,
    k: nat,
)
    requires
        s.rulings.len() == s.log.len(),
        s.fixtures <= s.log.len(),
        k <= s.log.len(),
    ensures
        store::rebuilt_by(store::logged(s, record, ruling), t, k) == store::rebuilt_by(s, t, k),
    decreases k,
{
    if k > 0 {
        lemma_rebuilt_same(s, record, ruling, t, (k - 1) as nat);
    }
}

/// A journal that held a record is not seeded again: a start replays it, and
/// does no more than to know the fixtures that it starts with.
pub proof fn law_seed_only_when_empty(
    journal: Seq<(AuditRecordView, RulingView)>,
    fixtures: Seq<(OpView, RulingView)>,
    at: Timestamp,
)
    requires
        journal.len() > 0,
    ensures
        ({
            let s = store::opened(journal, true, fixtures, at);
            s == StoreView { fixtures: s.fixtures, ..store::replayed(journal, journal.len()) }
        }),
{
    assert(store::replayed(journal, journal.len()).log.len() > 0);
}

/// A start that is not to seed adds nothing to the journal's store, and one
/// on a journal leaves the journal's store as it is, whether it may seed or
/// not; only a journal that begins with the fixtures, as they are written,
/// keeps them known for what they are.
pub proof fn law_start_takes_the_journal(
    journal: Seq<(AuditRecordView, RulingView)>,
    seed: bool,
    fixtures: Seq<(OpView, RulingView)>,
    at: Timestamp,
    i: int,
)
    requires
        !seed || journal.len() > 0,
    ensures
        ({
            let s = store::opened(journal, seed, fixtures, at);
            &&& s == StoreView { fixtures: s.fixtures, ..store::replayed(journal, journal.len()) }
            &&& s.log.len() == journal.len()
            &&& s.fixtures == 0 || s.fixtures == fixtures.len()
            &&& journal.len() < fixtures.len() ==> s.fixtures == 0
            &&& 0 <= i < fixtures.len() <= journal.len() && codec::line_text(
                codec::settled(store::op_doc(journal[i].0.op)),
            ) != codec::line_text(codec::settled(store::op_doc(fixtures[i].0))) ==> s.fixtures == 0
        }),
{
    lemma_replayed_log(journal, journal.len());
}

proof fn lemma_replayed_log(journal: Seq<(AuditRecordView, RulingView)>, k: nat)
    requires
        k <= journal.len(),
    ensures
        store::replayed(journal, k).log.len() == k,
        store::replayed(journal, k).fixtures == 0,
        forall|i: int| 0 <= i < k ==> #[trigger] store::replayed(journal, k).log[i] == journal[i].0,
    decreases k,
{
    if k > 0 {
        lemma_replayed_log(journal, (k - 1) as nat);
    }
}

/// The events that seeding is.
pub open spec fn seeding_of(fixtures: Seq<(OpView, RulingView)>, at: Timestamp) -> Seq<Event> {
    Seq::new(fixtures.len(), |i: int| (fixtures[i].0, at, fixtures[i].1))
}

/// Starting again from the journal that a seeding start and what came after
/// it left gives the same store; the fixtures are still known for what they
/// are.
pub proof fn law_restart_after_seeding(
    fixtures: Seq<(OpView, RulingView)>,
    at: Timestamp,
    more: Seq<Event>,
    again: Timestamp,
)
    requires
        fixtures.len() > 0,
    ensures
        store::opened(Seq::empty(), true, fixtures, at) == run_of(
            seeding_of(fixtures, at),
            fixtures.len(),
            fixtures.len(),
        ),
        ({
            let events = seeding_of(fixtures, at) + more;
            store::opened(journal_of(events), true, fixtures, again) == run_of(
                events,
                fixtures.len(),
                events.len(),
            )
        }),
{
    let events = seeding_of(fixtures, at) + more;
    law_replay_rebuilds_the_store(events);
    law_seed_only_when_empty(journal_of(events), fixtures, again);
    lemma_seeding(fixtures, at, fixtures.len());
    assert forall|i: int| 0 <= i < fixtures.len() implies store::written_alike(
        (#[trigger] journal_of(events)[i]).0.op,
        fixtures[i].0,
    ) by {
        assert(events[i] == seeding_of(fixtures, at)[i]);
    }
    assert(store::starts_seeded(journal_of(events), fixtures));
}

/// Seeding is recording the fixtures one after the other.
pub proof fn lemma_seeding(fixtures: Seq<(OpView, RulingView)>, at: Timestamp, k: nat)
    requires
        k <= fixtures.len(),
    ensures
        store::seeded(store::empty_store(), fixtures, at, k) == run_of(
            seeding_of(fixtures, at),
            fixtures.len(),
            k,
        ),
    decreases k,
{
    let events = seeding_of(fixtures, at);
    if k > 0 {
        lemma_seeding(fixtures, at, (k - 1) as nat);
        lemma_run(events, fixtures.len(), (k - 1) as nat);
        let s = live(events, (k - 1) as nat);
        lemma_logged_apart(
            s,
            (k - 1) as nat,
            store::next_record(s, fixtures[k - 1].0, at),
            fixtures[k - 1].1,
        );
    } else {
        assert(run_of(events, fixtures.len(), 0) =~= store::empty_store());
    }
}

// ---------------------------------------------------------------------------
// Invariant
// ---------------------------------------------------------------------------

/// The list stands under its jurisdiction in upper case, its entries in
/// ascending order.
pub open spec fn list_well_formed(l: JurisdictionListView) -> bool {
    &&& l.key == text::upper(l.list.jurisdiction)
    &&& data::ascending::<TrustListEntryRecord>(l.list.entries)
}

/// The invariant of the store: everything keyed stands in ascending order,
/// each key once; a trust list stands under its own jurisdiction; the
/// master list counts its witnesses and asks for at least one; every record
/// of the log has its ruling, and the fixtures are records of it.
pub open spec fn well_formed(s: StoreView) -> bool {
    &&& data::ascending::<DelegationNode>(s.graph.nodes)
    &&& data::ascending::<JurisdictionList>(s.trust_lists)
    &&& forall|i: int| 0 <= i < s.trust_lists.len() ==> list_well_formed(#[trigger] s.trust_lists[i])
    &&& data::ascending::<Witness>(s.master.witnesses)
    &&& data::ascending::<MasterListEntry>(s.master.entries)
    &&& s.master.k == s.master.witnesses.len()
    &&& s.master.m >= 1
    &&& data::ascending::<Evidence>(s.evidence)
    &&& s.rulings.len() == s.log.len()
    &&& s.fixtures <= s.log.len()
}

/// The keys of lists in ascending order ascend.
pub proof fn lemma_keys_ascend(s: Seq<JurisdictionListView>)
    requires
        data::ascending::<JurisdictionList>(s),
    ensures
        text::ascending(store::list_keys(s)),
{
    let keys = store::list_keys(s);
    assert forall|i: int, j: int| 0 <= i < j < keys.len() implies text::text_lt(
        #[trigger] keys[i],
        #[trigger] keys[j],
    ) by {
        assert(keys[i] == <JurisdictionList as data::Keyed>::key_of(s[i]));
        assert(keys[j] == <JurisdictionList as data::Keyed>::key_of(s[j]));
    }
}

/// The store before any record has the invariant.
pub proof fn law_empty_store_is_well_formed()
    ensures
        well_formed(store::empty_store()),
{
}

proof fn lemma_witness_set(s: Seq<WitnessView>)
    ensures
        data::ascending::<Witness>(store::witness_set(s)),
        store::witness_set(s).len() <= s.len(),
    decreases s.len(),
{
    if s.len() > 0 {
        lemma_witness_set(s.drop_last());
        data::lemma_filed_ascending::<Witness>(store::witness_set(s.drop_last()), s.last());
        lemma_filed_len::<Witness>(store::witness_set(s.drop_last()), s.last());
    }
}

proof fn lemma_filed_len<T: data::Keyed>(s: Seq<T::V>, x: T::V)
    ensures
        data::filed::<T>(s, x).len() <= s.len() + 1,
    decreases s.len(),
{
    if s.len() > 0 {
        lemma_filed_len::<T>(s.drop_first(), x);
    }
}

proof fn lemma_lists_filed(s: Seq<JurisdictionListView>, x: JurisdictionListView)
    requires
        forall|i: int| 0 <= i < s.len() ==> list_well_formed(#[trigger] s[i]),
        list_well_formed(x),
    ensures
        forall|i: int|
            0 <= i < data::filed::<JurisdictionList>(s, x).len() ==> list_well_formed(
                #[trigger] data::filed::<JurisdictionList>(s, x)[i],
            ),
    decreases s.len(),
{
    let f = data::filed::<JurisdictionList>(s, x);
    if s.len() > 0 {
        let rest = s.drop_first();
        assert forall|i: int| 0 <= i < rest.len() implies list_well_formed(#[trigger] rest[i]) by {
            assert(list_well_formed(s[i + 1]));
        }
        lemma_lists_filed(rest, x);
        let g = data::filed::<JurisdictionList>(rest, x);
        assert forall|i: int| 0 <= i < f.len() implies list_well_formed(#[trigger] f[i]) by {
            if x.key == s[0].key {
                if i > 0 {
                    assert(f[i] == s[i]);
                }
            } else if text::text_lt(x.key, s[0].key) {
                if i > 0 {
                    assert(f[i] == s[i - 1]);
                }
            } else {
                if i > 0 {
                    assert(f[i] == g[i - 1]);
                } else {
                    assert(f[0] == s[0]);
                }
            }
        }
    }
}

proof fn lemma_lookup_member(s: Seq<JurisdictionListView>, k: Seq<char>)
    requires
        data::lookup::<JurisdictionList>(s, k) is Some,
    ensures
        exists|i: int|
            0 <= i < s.len() && #[trigger] s[i] == data::lookup::<JurisdictionList>(s, k)->0
                && s[i].key == k,
    decreases s.len(),
{
    if s[0].key == k {
        assert(s[0] == data::lookup::<JurisdictionList>(s, k)->0);
    } else {
        let rest = s.drop_first();
        lemma_lookup_member(rest, k);
        let i = choose|i: int|
            0 <= i < rest.len() && #[trigger] rest[i] == data::lookup::<JurisdictionList>(rest, k)->0
                && rest[i].key == k;
        assert(s[i + 1] == rest[i]);
    }
}

/// Every mutation keeps the invariant, whatever is ruled on it, and so does
/// recording it.
pub proof fn law_mutations_keep_the_invariant(s: StoreView, op: OpView, ruling: RulingView)
    requires
        well_formed(s),
        op matches OpView::SetWitnesses { witnesses, .. } ==> witnesses.len() <= usize::MAX,
    ensures
        well_formed(store::after(s, op, ruling)),
        forall|record: AuditRecordView|
            record.op == op ==> well_formed(#[trigger] store::logged(s, record, ruling)),
{
    match op {
        OpView::RegisterNode { node } => {
            data::lemma_filed_ascending::<DelegationNode>(
                s.graph.nodes,
                store::registered(s.graph.nodes, node),
            );
        },
        OpView::AddEdge { credential } => {},
        OpView::RegisterTrustList { jurisdiction, framework } => {
            let x = JurisdictionListView {
                key: text::upper(jurisdiction),
                framework,
                list: TrustListView { jurisdiction, entries: Seq::empty() },
            };
            data::lemma_filed_ascending::<JurisdictionList>(s.trust_lists, x);
            lemma_lists_filed(s.trust_lists, x);
        },
        OpView::UpsertTrustEntry { jurisdiction, node, not_before, superseded_at } => {
            let key = text::upper(jurisdiction);
            if let Some(l) = data::lookup::<JurisdictionList>(s.trust_lists, key) {
                lemma_lookup_member(s.trust_lists, key);
                let i = choose|i: int|
                    0 <= i < s.trust_lists.len() && #[trigger] s.trust_lists[i] == l
                        && s.trust_lists[i].key == key;
                assert(list_well_formed(s.trust_lists[i]));
                let e = TrustListEntryRecordView { node, not_before, superseded_at };
                data::lemma_filed_ascending::<TrustListEntryRecord>(l.list.entries, e);
                let x = JurisdictionListView {
                    key,
                    framework: l.framework,
                    list: TrustListView {
                        jurisdiction: l.list.jurisdiction,
                        entries: data::filed::<TrustListEntryRecord>(l.list.entries, e),
                    },
                };
                data::lemma_filed_ascending::<JurisdictionList>(s.trust_lists, x);
                lemma_lists_filed(s.trust_lists, x);
            }
        },
        OpView::SetWitnesses { m, witnesses } => {
            lemma_witness_set(witnesses);
        },
        OpView::UpsertMasterEntry { entry } => {
            data::lemma_filed_ascending::<MasterListEntry>(s.master.entries, entry);
        },
        OpView::DeclareRevocation { revocation } => {},
        OpView::RegisterEvidence { evidence } => {
            data::lemma_filed_ascending::<Evidence>(s.evidence, evidence);
        },
        OpView::ReleaseEvidence { id, requester, scope } => {},
    }
}

// ---------------------------------------------------------------------------
// Append-only
// ---------------------------------------------------------------------------

/// Edges, declared revocations and the log only grow, whatever mutation
/// comes.
pub proof fn law_history_only_grows(s: StoreView, record: AuditRecordView, ruling: RulingView)
    ensures
        s.graph.edges.is_prefix_of(store::logged(s, record, ruling).graph.edges),
        s.ledger.is_prefix_of(store::logged(s, record, ruling).ledger),
        store::logged(s, record, ruling).log == s.log.push(record),
{
    let t = store::logged(s, record, ruling);
    assert(s.graph.edges =~= t.graph.edges.subrange(0, s.graph.edges.len() as int));
    assert(s.ledger =~= t.ledger.subrange(0, s.ledger.len() as int));
}

proof fn lemma_merged_prefix(keys: Seq<RegisteredKeyView>, more: Seq<RegisteredKeyView>)
    ensures
        keys.is_prefix_of(store::merged_keys(keys, more)),
    decreases more.len(),
{
    if more.len() > 0 {
        lemma_merged_prefix(keys, more.drop_last());
        let before = store::merged_keys(keys, more.drop_last());
        assert(keys =~= store::merged_keys(keys, more).subrange(0, keys.len() as int));
    } else {
        assert(keys =~= keys.subrange(0, keys.len() as int));
    }
}

/// A key once registered on a node stays registered: a later registration
/// takes the incoming kind and adds the keys that are new.
pub proof fn law_registration_keeps_keys(
    s: StoreView,
    node: DelegationNodeView,
    ruling: RulingView,
    before: DelegationNodeView,
)
    requires
        data::lookup::<DelegationNode>(s.graph.nodes, node.id) == Some(before),
    ensures
        ({
            let now = data::lookup::<DelegationNode>(
                store::after(s, OpView::RegisterNode { node }, ruling).graph.nodes,
                node.id,
            );
            &&& now is Some
            &&& now->0.kind == node.kind
            &&& before.keys.is_prefix_of(now->0.keys)
        }),
{
    data::lemma_filed_lookup::<DelegationNode>(
        s.graph.nodes,
        store::registered(s.graph.nodes, node),
        node.id,
    );
    lemma_merged_prefix(before.keys, node.keys);
}

/// Each key id stands once.
pub open spec fn ids_once(keys: Seq<RegisteredKeyView>) -> bool {
    forall|i: int, j: int|
        0 <= i < j < keys.len() ==> (#[trigger] keys[i]).key_id != (#[trigger] keys[j]).key_id
}

proof fn lemma_merged_union(keys: Seq<RegisteredKeyView>, more: Seq<RegisteredKeyView>, id: Seq<char>)
    ensures
        quorum::key_among(store::merged_keys(keys, more), id) is Some <==> quorum::key_among(
            keys,
            id,
        ) is Some || quorum::key_among(more, id) is Some,
        ids_once(keys) ==> ids_once(store::merged_keys(keys, more)),
    decreases more.len(),
{
    if more.len() > 0 {
        let t = more.drop_last();
        let before = store::merged_keys(keys, t);
        let last = more.last();
        lemma_merged_union(keys, t, id);
        lemma_merged_union(keys, t, last.key_id);
        lemma_key_among_push(t, last, id);
        assert(t.push(last) =~= more);
        lemma_key_among_push(before, last, id);
        if ids_once(keys) && quorum::key_among(before, last.key_id) is None {
            let now = before.push(last);
            assert forall|i: int, j: int| 0 <= i < j < now.len() implies (
            #[trigger] now[i]).key_id != (#[trigger] now[j]).key_id by {
                if j == before.len() {
                    lemma_own_keys_known(before, i);
                } else {
                    assert(before[i].key_id != before[j].key_id);
                }
            }
        }
    }
}

/// A registration is taken. After it the node has the posted kind, and its
/// key ids are those that it had and those that are posted; each stands once,
/// if it did so on the node before. (A node that is new is taken as it is
/// posted, so there its posted ids have to stand once each.) Every other node
/// and every other part of the store stays, and registering the node again
/// changes nothing.
pub proof fn law_registered_keys_are_the_union(
    s: StoreView,
    node: DelegationNodeView,
    ruling: RulingView,
    again: RulingView,
    id: Seq<char>,
    other: Seq<char>,
)
    ensures
        ({
            let op = OpView::RegisterNode { node };
            let now = store::after(s, op, ruling);
            let kept = data::lookup::<DelegationNode>(now.graph.nodes, node.id);
            &&& store::applied(s, op, ruling) is Ok
            &&& kept is Some && kept->0.kind == node.kind
            &&& quorum::key_among(kept->0.keys, id) is Some <==> quorum::key_among(
                node.keys,
                id,
            ) is Some || quorum::key_among(quorum::keys_on(s.graph, node.id), id) is Some
            &&& match data::lookup::<DelegationNode>(s.graph.nodes, node.id) {
                Some(before) => ids_once(before.keys),
                None => ids_once(node.keys),
            } ==> ids_once(kept->0.keys)
            &&& other != node.id ==> data::lookup::<DelegationNode>(now.graph.nodes, other)
                == data::lookup::<DelegationNode>(s.graph.nodes, other)
            &&& now == (StoreView { graph: now.graph, ..s })
            &&& now.graph.edges == s.graph.edges
            &&& store::after(now, op, again) == now
        }),
{
    data::lemma_filed_lookup::<DelegationNode>(
        s.graph.nodes,
        store::registered(s.graph.nodes, node),
        node.id,
    );
    if let Some(before) = data::lookup::<DelegationNode>(s.graph.nodes, node.id) {
        lemma_merged_union(before.keys, node.keys, id);
    }
    if other != node.id {
        law_registration_leaves_others(s, node, ruling, other);
    }
    law_registration_is_idempotent(s, node, ruling, again);
}

/// A registration leaves the other nodes alone.
pub proof fn law_registration_leaves_others(
    s: StoreView,
    node: DelegationNodeView,
    ruling: RulingView,
    other: Seq<char>,
)
    requires
        other != node.id,
    ensures
        data::lookup::<DelegationNode>(
            store::after(s, OpView::RegisterNode { node }, ruling).graph.nodes,
            other,
        ) == data::lookup::<DelegationNode>(s.graph.nodes, other),
{
    data::lemma_filed_lookup::<DelegationNode>(
        s.graph.nodes,
        store::registered(s.graph.nodes, node),
        other,
    );
}

proof fn lemma_key_among_push(keys: Seq<RegisteredKeyView>, k: RegisteredKeyView, id: Seq<char>)
    ensures
        quorum::key_among(keys.push(k), id) is Some <==> quorum::key_among(keys, id) is Some
            || k.key_id == id,
    decreases keys.len(),
{
    if keys.len() > 0 {
        lemma_key_among_push(keys.drop_first(), k, id);
        assert(keys.push(k).drop_first() =~= keys.drop_first().push(k));
    } else {
        assert(keys.push(k).drop_first() =~= keys);
    }
}

proof fn lemma_merged_has(keys: Seq<RegisteredKeyView>, more: Seq<RegisteredKeyView>)
    ensures
        forall|id: Seq<char>| #[trigger]
            quorum::key_among(keys, id) is Some ==> quorum::key_among(
                store::merged_keys(keys, more),
                id,
            ) is Some,
        forall|i: int|
            0 <= i < more.len() ==> quorum::key_among(
                store::merged_keys(keys, more),
                (#[trigger] more[i]).key_id,
            ) is Some,
    decreases more.len(),
{
    if more.len() > 0 {
        let t = more.drop_last();
        lemma_merged_has(keys, t);
        let before = store::merged_keys(keys, t);
        let now = store::merged_keys(keys, more);
        assert forall|id: Seq<char>| quorum::key_among(before, id)
            is Some implies #[trigger] quorum::key_among(now, id) is Some by {
            lemma_key_among_push(before, more.last(), id);
        }
        lemma_key_among_push(before, more.last(), more.last().key_id);
        assert forall|i: int| 0 <= i < more.len() implies quorum::key_among(
            now,
            (#[trigger] more[i]).key_id,
        ) is Some by {
            if i < t.len() {
                assert(t[i] == more[i]);
                assert(quorum::key_among(before, t[i].key_id) is Some);
            }
        }
    }
}

proof fn lemma_merged_known(keys: Seq<RegisteredKeyView>, more: Seq<RegisteredKeyView>)
    requires
        forall|i: int|
            0 <= i < more.len() ==> quorum::key_among(keys, (#[trigger] more[i]).key_id) is Some,
    ensures
        store::merged_keys(keys, more) == keys,
    decreases more.len(),
{
    if more.len() > 0 {
        let t = more.drop_last();
        assert forall|i: int| 0 <= i < t.len() implies quorum::key_among(
            keys,
            (#[trigger] t[i]).key_id,
        ) is Some by {
            assert(t[i] == more[i]);
        }
        lemma_merged_known(keys, t);
        assert(quorum::key_among(keys, more[more.len() - 1].key_id) is Some);
    }
}

proof fn lemma_own_keys_known(keys: Seq<RegisteredKeyView>, i: int)
    requires
        0 <= i < keys.len(),
    ensures
        quorum::key_among(keys, keys[i].key_id) is Some,
    decreases keys.len(),
{
    if i > 0 {
        lemma_own_keys_known(keys.drop_first(), i - 1);
    }
}

proof fn lemma_filed_again<T: data::Keyed>(s: Seq<T::V>, x: T::V)
    ensures
        data::filed::<T>(data::filed::<T>(s, x), x) == data::filed::<T>(s, x),
    decreases s.len(),
{
    let f = data::filed::<T>(s, x);
    if s.len() == 0 {
        assert(seq![x] + f.drop_first() =~= f);
    } else if T::key_of(s[0]) == T::key_of(x) {
        assert(seq![x] + f.drop_first() =~= f);
    } else if text::text_lt(T::key_of(x), T::key_of(s[0])) {
        assert(f[0] == x);
        assert(seq![x] + f.drop_first() =~= f);
    } else {
        lemma_filed_again::<T>(s.drop_first(), x);
        assert(f[0] == s[0]);
        assert(f.drop_first() =~= data::filed::<T>(s.drop_first(), x));
    }
}

/// Registering the same node again changes nothing but the log.
pub proof fn law_registration_is_idempotent(
    s: StoreView,
    node: DelegationNodeView,
    first: RulingView,
    second: RulingView,
)
    ensures
        ({
            let op = OpView::RegisterNode { node };
            let once = store::after(s, op, first);
            store::after(once, op, second) == once
        }),
{
    let nodes = s.graph.nodes;
    let merged = store::registered(nodes, node);
    let filed = data::filed::<DelegationNode>(nodes, merged);
    data::lemma_filed_lookup::<DelegationNode>(nodes, merged, node.id);
    assert(data::lookup::<DelegationNode>(filed, node.id) == Some(merged));
    match data::lookup::<DelegationNode>(nodes, node.id) {
        None => {
            assert forall|i: int| 0 <= i < node.keys.len() implies quorum::key_among(
                merged.keys,
                (#[trigger] node.keys[i]).key_id,
            ) is Some by {
                lemma_own_keys_known(node.keys, i);
            }
        },
        Some(before) => {
            lemma_merged_has(before.keys, node.keys);
        },
    }
    lemma_merged_known(merged.keys, node.keys);
    assert(store::registered(filed, node) == merged);
    lemma_filed_again::<DelegationNode>(nodes, merged);
}

// ---------------------------------------------------------------------------
// Trust lists
// ---------------------------------------------------------------------------

/// A jurisdiction has one trust list: registering it again is a conflict,
/// in whatever case it is written.
pub proof fn law_one_list_per_jurisdiction(
    s: StoreView,
    a: Seq<char>,
    b: Seq<char>,
    framework: Option<Seq<char>>,
    again: Option<Seq<char>>,
    first: RulingView,
    second: RulingView,
)
    requires
        text::upper(a) == text::upper(b),
        store::applied(
            s,
            OpView::RegisterTrustList { jurisdiction: a, framework },
            first,
        ) is Ok,
    ensures
        store::applied(
            store::after(s, OpView::RegisterTrustList { jurisdiction: a, framework }, first),
            OpView::RegisterTrustList { jurisdiction: b, framework: again },
            second,
        ) == Err::<StoreView, StoreErrorView>(
            StoreErrorView::Conflict("trust list `"@ + b + "` is already registered"@),
        ),
{
    let key = text::upper(a);
    let x = JurisdictionListView {
        key,
        framework,
        list: TrustListView { jurisdiction: a, entries: Seq::empty() },
    };
    data::lemma_filed_lookup::<JurisdictionList>(s.trust_lists, x, key);
}

/// An upserted entry is the one that is read, the entries for other nodes
/// stay, and the list keeps its name and framework.
pub proof fn law_upserted_entry_is_read(
    s: StoreView,
    jurisdiction: Seq<char>,
    e: TrustListEntryRecordView,
    ruling: RulingView,
    before: JurisdictionListView,
    node: Seq<char>,
)
    requires
        data::lookup::<JurisdictionList>(s.trust_lists, text::upper(jurisdiction)) == Some(before),
    ensures
        ({
            let op = OpView::UpsertTrustEntry {
                jurisdiction,
                node: e.node,
                not_before: e.not_before,
                superseded_at: e.superseded_at,
            };
            let now = data::lookup::<JurisdictionList>(
                store::after(s, op, ruling).trust_lists,
                text::upper(jurisdiction),
            );
            &&& now is Some
            &&& now->0.framework == before.framework
            &&& now->0.list.jurisdiction == before.list.jurisdiction
            &&& data::lookup::<TrustListEntryRecord>(now->0.list.entries, node) == if node
                == e.node {
                Some(e)
            } else {
                data::lookup::<TrustListEntryRecord>(before.list.entries, node)
            }
        }),
{
    let key = text::upper(jurisdiction);
    let entries = data::filed::<TrustListEntryRecord>(before.list.entries, e);
    let x = JurisdictionListView {
        key,
        framework: before.framework,
        list: TrustListView { jurisdiction: before.list.jurisdiction, entries },
    };
    data::lemma_filed_lookup::<JurisdictionList>(s.trust_lists, x, key);
    data::lemma_filed_lookup::<TrustListEntryRecord>(before.list.entries, e, node);
}

/// A withdrawn entry is not in force from the withdrawal on, and is in
/// force from its start until then.
pub proof fn law_withdrawal_ends_force(e: TrustListEntryRecordView, t: Timestamp)
    requires
        e.superseded_at is Some,
    ensures
        t.secs >= e.superseded_at->0.secs ==> !e.in_force_at(t),
        e.not_before.secs <= t.secs < e.superseded_at->0.secs ==> e.in_force_at(t),
{
}

// ---------------------------------------------------------------------------
// Master list and revocations
// ---------------------------------------------------------------------------

/// Replacing the witness set keeps the entries with their attestations.
pub proof fn law_entries_survive_witness_change(
    s: StoreView,
    m: usize,
    witnesses: Seq<WitnessView>,
    ruling: RulingView,
)
    ensures
        store::after(s, OpView::SetWitnesses { m, witnesses }, ruling).master.entries
            == s.master.entries,
{
}

/// A witness set is taken exactly when `1 <= m <= witnesses.len()`.
pub proof fn law_witness_set_bounds(
    s: StoreView,
    m: usize,
    witnesses: Seq<WitnessView>,
    ruling: RulingView,
)
    ensures
        store::applied(s, OpView::SetWitnesses { m, witnesses }, ruling) is Ok <==> 1 <= m
            <= witnesses.len(),
{
}

/// A master-list entry is taken exactly when every attestation names a
/// registered witness.
pub proof fn law_attestations_name_witnesses(
    s: StoreView,
    entry: crate::model::MasterListEntryView,
    ruling: RulingView,
)
    ensures
        store::applied(s, OpView::UpsertMasterEntry { entry }, ruling) is Ok <==> forall|i: int|
            0 <= i < entry.attestations.len() ==> store::names_witness(
                s.master.witnesses,
                (#[trigger] entry.attestations[i]).witness,
            ),
{
    lemma_entry_error(s.master.witnesses, entry.attestations);
}

proof fn lemma_entry_error(
    witnesses: Seq<WitnessView>,
    a: Seq<crate::model::WitnessAttestationView>,
)
    ensures
        store::entry_error(witnesses, a) is None <==> forall|i: int|
            0 <= i < a.len() ==> store::names_witness(witnesses, (#[trigger] a[i]).witness),
    decreases a.len(),
{
    if a.len() > 0 {
        let rest = a.drop_first();
        lemma_entry_error(witnesses, rest);
        if store::entry_error(witnesses, a) is None {
            assert forall|i: int| 0 <= i < a.len() implies store::names_witness(
                witnesses,
                (#[trigger] a[i]).witness,
            ) by {
                if i > 0 {
                    assert(a[i] == rest[i - 1]);
                }
            }
        }
        if forall|i: int|
            0 <= i < a.len() ==> store::names_witness(witnesses, (#[trigger] a[i]).witness) {
            assert(store::names_witness(witnesses, a[0].witness));
            assert forall|i: int| 0 <= i < rest.len() implies store::names_witness(
                witnesses,
                (#[trigger] rest[i]).witness,
            ) by {
                assert(a[i + 1] == rest[i]);
            }
        }
    }
}

/// Retroactive distrust enters the ledger only with an attestation that is
/// quorate over the graph at that moment; without one the ledger stays as
/// it is.
pub proof fn law_retroactive_needs_a_quorum(s: StoreView, r: RevocationView, ruling: RulingView)
    requires
        r.reason.is_retroactive(),
    ensures
        store::applied(s, OpView::DeclareRevocation { revocation: r }, ruling) is Ok ==> r.quorum
            is Some && quorum::is_quorate(s.graph, r.quorum->0, ruling.checks),
        r.quorum is None ==> store::after(s, OpView::DeclareRevocation { revocation: r }, ruling)
            == s,
        r.quorum is Some && !quorum::is_quorate(s.graph, r.quorum->0, ruling.checks)
            ==> store::after(s, OpView::DeclareRevocation { revocation: r }, ruling) == s,
{
}

/// A prospective revocation needs no attestation: it enters whenever the
/// ledger takes it.
pub proof fn law_prospective_needs_no_quorum(s: StoreView, r: RevocationView, ruling: RulingView)
    requires
        !r.reason.is_retroactive(),
        ruling.ledger is None,
    ensures
        store::after(s, OpView::DeclareRevocation { revocation: r }, ruling).ledger
            == s.ledger.push(r),
{
}

// ---------------------------------------------------------------------------
// Evidence
// ---------------------------------------------------------------------------

/// What is registered is what a release under its scope gives back.
pub proof fn law_release_gives_back_what_was_registered(
    s: StoreView,
    e: EvidenceView,
    ruling: RulingView,
)
    requires
        store::applied(s, OpView::RegisterEvidence { evidence: e }, ruling) is Ok,
    ensures
        ({
            let now = store::after(s, OpView::RegisterEvidence { evidence: e }, ruling).evidence;
            &&& data::lookup::<Evidence>(now, e.id) == Some(e)
            &&& store::release_error(now, e.id, e.required_scope) is None
        }),
{
    data::lemma_filed_lookup::<Evidence>(s.evidence, e, e.id);
}

/// A document is never edited or withdrawn, whatever mutation comes.
pub proof fn law_evidence_is_never_edited(
    s: StoreView,
    op: OpView,
    ruling: RulingView,
    id: Seq<char>,
)
    requires
        data::lookup::<Evidence>(s.evidence, id) is Some,
    ensures
        data::lookup::<Evidence>(store::after(s, op, ruling).evidence, id) == data::lookup::<
            Evidence,
        >(s.evidence, id),
{
    if let OpView::RegisterEvidence { evidence } = op {
        data::lemma_filed_lookup::<Evidence>(s.evidence, evidence, id);
    }
}

/// An id is registered once: a second registration is a conflict.
pub proof fn law_evidence_is_registered_once(s: StoreView, e: EvidenceView, ruling: RulingView)
    ensures
        data::lookup::<Evidence>(s.evidence, e.id) is Some <==> store::applied(
            s,
            OpView::RegisterEvidence { evidence: e },
            ruling,
        ) is Err,
        data::lookup::<Evidence>(s.evidence, e.id) is Some ==> store::applied(
            s,
            OpView::RegisterEvidence { evidence: e },
            ruling,
        )->Err_0 is Conflict,
{
}

/// A release is recorded and changes nothing but the log.
pub proof fn law_every_release_is_recorded(
    s: StoreView,
    id: Seq<char>,
    requester: Option<Seq<char>>,
    scope: Seq<char>,
    at: Timestamp,
    ruling: RulingView,
)
    ensures
        ({
            let op = OpView::ReleaseEvidence { id, requester, scope };
            let record = store::next_record(s, op, at);
            store::logged(s, record, ruling) == (StoreView {
                log: s.log.push(record),
                rulings: s.rulings.push(ruling),
                ..s
            })
        }),
{
}

} // verus!
