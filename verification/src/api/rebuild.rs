//! What a verifier rebuilds from the served documents: the trust graph from
//! the graph document, and the trust list and master list from an anchor
//! bundle.

use vstd::prelude::*;

use crate::api::reads;
use crate::json::JsonView;
use crate::judge::JudgementsView;
use crate::model::{DelegationCredentialView, DelegationNode, DelegationNodeView, MasterListEntry, MasterListEntryView, TrustListEntryRecordView, WitnessView};
use crate::roundtrip;
use crate::store;
use crate::store::{JurisdictionListView, StoreView};
use crate::time::Timestamp;
use crate::wire;

verus! {

/// The member names of the graph document are told apart by their lengths
/// and letters.
proof fn lemma_graph_names()
    ensures
        "as_of"@.len() == 5,
        "as_of"@[0] == 'a',
        "node_count"@.len() == 10,
        "node_count"@[0] == 'n',
        "edge_count"@.len() == 10,
        "edge_count"@[0] == 'e',
        "nodes"@.len() == 5,
        "nodes"@[0] == 'n',
        "edges"@.len() == 5,
        "edges"@[0] == 'e',
{
    reveal_strlit("as_of");
    reveal_strlit("node_count");
    reveal_strlit("edge_count");
    reveal_strlit("nodes");
    reveal_strlit("edges");
}

/// The member names of a bundle are told apart by their lengths and letters.
proof fn lemma_bundle_names()
    ensures
        "as_of"@.len() == 5,
        "jurisdiction"@.len() == 12,
        "trust_lists"@.len() == 11,
        "master"@.len() == 6,
        "m"@.len() == 1,
        "m"@[0] == 'm',
        "k"@.len() == 1,
        "k"@[0] == 'k',
        "witnesses"@.len() == 9,
        "entries"@.len() == 7,
{
    reveal_strlit("as_of");
    reveal_strlit("jurisdiction");
    reveal_strlit("trust_lists");
    reveal_strlit("master");
    reveal_strlit("m");
    reveal_strlit("k");
    reveal_strlit("witnesses");
    reveal_strlit("entries");
}

/// The nodes of the graph document are read as the nodes of the graph, all
/// of them and in order, wherever the trust model vouches for them.
pub proof fn law_graph_nodes_are_rebuilt(s: StoreView, as_of: Timestamp, j: JudgementsView)
    requires
        forall|i: int|
            0 <= i < s.graph.nodes.len() ==> roundtrip::delegation_node_vouched(
                #[trigger] s.graph.nodes[i],
                j,
            ),
    ensures
        ({
            let d = reads::graph_doc(s, as_of);
            &&& d.get("node_count"@) == Some(JsonView::Num(s.graph.nodes.len() as int))
            &&& d.array_at("nodes"@) matches Some(items) && wire::read_all::<DelegationNode>(
                items,
                j,
            ) == Ok::<Seq<DelegationNodeView>, Seq<char>>(s.graph.nodes)
        }),
{
    lemma_graph_names();
    let items = wire::docs::<DelegationNode>(s.graph.nodes);
    assert forall|i: int| 0 <= i < items.len() implies #[trigger] <DelegationNode as wire::Wire>::read(
        items[i],
        j,
    ) == Ok::<DelegationNodeView, Seq<char>>(s.graph.nodes[i]) by {
        roundtrip::law_node_round_trip(s.graph.nodes[i], j);
    }
    wire::lemma_read_all::<DelegationNode>(items, j, s.graph.nodes);
}

/// Every edge of the graph document is read as that edge of the graph,
/// wherever the trust model vouches for it.
pub proof fn law_graph_edges_are_rebuilt(s: StoreView, as_of: Timestamp, i: int, j: JudgementsView)
    requires
        0 <= i < s.graph.edges.len(),
        roundtrip::edge_vouched(s.graph.edges[i], j),
    ensures
        ({
            let d = reads::graph_doc(s, as_of);
            &&& d.get("edge_count"@) == Some(JsonView::Num(s.graph.edges.len() as int))
            &&& d.array_at("edges"@) matches Some(items) && items.len() == s.graph.edges.len()
                && wire::edge_of(items[i], j) == Ok::<DelegationCredentialView, Seq<char>>(
                s.graph.edges[i],
            )
        }),
{
    lemma_graph_names();
    roundtrip::law_edge_round_trip(s.graph.edges[i], j);
}

/// What the documents of a bundle hold.
pub open spec fn bundled_list(d: JsonView) -> Option<JsonView> {
    match d.array_at("trust_lists"@) {
        Some(lists) => if lists.len() == 1 {
            Some(lists[0])
        } else {
            None
        },
        None => None,
    }
}

/// The entries of the bundled trust list are read as the entries of the
/// jurisdiction's list.
pub proof fn law_bundle_entries_are_rebuilt(
    s: StoreView,
    jur: Seq<char>,
    l: JurisdictionListView,
    as_of: Timestamp,
    i: int,
    j: JudgementsView,
)
    requires
        0 <= i < l.list.entries.len(),
        roundtrip::entry_vouched(l.list.entries[i], j),
    ensures
        ({
            let d = bundled_list(reads::bundle_doc(s, jur, l, as_of));
            &&& d is Some
            &&& d->0.str_at("jurisdiction"@) == Some(l.list.jurisdiction)
            &&& d->0.array_at("entries"@) matches Some(items) && items.len()
                == l.list.entries.len() && wire::entry_of(items[i], j) == Ok::<
                TrustListEntryRecordView,
                Seq<char>,
            >(l.list.entries[i])
        }),
{
    lemma_bundle_names();
    roundtrip::law_bare_entry_round_trip(l.list.entries[i], j);
    let items = reads::bare_entries(l.list.entries);
    let inner = JsonView::object().put("jurisdiction"@, JsonView::Str(l.list.jurisdiction)).put(
        "entries"@,
        JsonView::Arr(items),
    );
    assert(bundled_list(reads::bundle_doc(s, jur, l, as_of)) == Some(inner));
    assert(inner.array_at("entries"@) == Some(items));
}

/// The bundled master list is read as the master list: its threshold, its
/// witnesses with their keys, and its entries with their attestations.
pub proof fn law_bundle_master_is_rebuilt(
    s: StoreView,
    jur: Seq<char>,
    l: JurisdictionListView,
    as_of: Timestamp,
    j: JudgementsView,
)
    requires
        roundtrip::witnesses_vouched(s.master.witnesses, j),
        forall|i: int|
            0 <= i < s.master.entries.len() ==> roundtrip::master_entry_vouched(
                #[trigger] s.master.entries[i],
                j,
            ),
    ensures
        ({
            let m = reads::bundle_doc(s, jur, l, as_of).get("master"@);
            &&& m is Some
            &&& m->0.u64_at("m"@) == Some(s.master.m as u64)
            &&& m->0.u64_at("k"@) == Some(s.master.k as u64)
            &&& m->0.array_at("witnesses"@) matches Some(items) && store::kept_witnesses(items, j)
                == Ok::<Seq<WitnessView>, Seq<char>>(s.master.witnesses)
            &&& m->0.array_at("entries"@) matches Some(items) && wire::read_all::<
                MasterListEntry,
            >(items, j) == Ok::<Seq<MasterListEntryView>, Seq<char>>(s.master.entries)
        }),
{
    lemma_bundle_names();
    let m = reads::bundled_master(s.master);
    assert(reads::bundle_doc(s, jur, l, as_of).get("master"@) == Some(m));
    roundtrip::law_kept_witnesses_round_trip(s.master.witnesses, j);
    let items = wire::docs::<MasterListEntry>(s.master.entries);
    assert forall|i: int| 0 <= i < items.len() implies #[trigger] <MasterListEntry as wire::Wire>::read(
        items[i],
        j,
    ) == Ok::<MasterListEntryView, Seq<char>>(s.master.entries[i]) by {
        roundtrip::law_master_entry_round_trip(s.master.entries[i], j);
    }
    wire::lemma_read_all::<MasterListEntry>(items, j, s.master.entries);
    assert(m.array_at("entries"@) == Some(items));
    assert(m.array_at("witnesses"@) == Some(store::bare_witnesses(s.master.witnesses)));
}

} // verus!
