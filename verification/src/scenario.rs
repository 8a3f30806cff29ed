//! What the fixtures are: the instants of the scenario, who declares what of
//! whom, and how it reads over time.

use vstd::prelude::*;

use crate::api::discovery;
use crate::api::reads;
use crate::json::JsonView;
use crate::model;
use crate::model::{NodeKindView, PublicKeyView, QuorumAttestationView, RevokedSubjectView};
use crate::seed;
use crate::seed::{MintedView, SeedKeysView};
use crate::store::OpView;
use crate::time;
use crate::time::Timestamp;
use crate::wire;
use crate::wire::SignatifError;

verus! {

/// The scenario starts at its first instant, and every instant of it is
/// counted from there.
pub proof fn law_scenario_instants(offset: int)
    requires
        0 <= offset <= 1_000_000,
    ensures
        seed::instant(offset).secs == 1_000_000 + offset,
{
}

/// The misissuance voids the issuer's key from 3000 to 8000 seconds into the
/// scenario, both included, whoever reads it once it is declared at 10000;
/// a reader who cannot know of it yet, or who reads another instant, finds
/// the key valid.
pub proof fn law_misissuance_reading(
    k: SeedKeysView,
    quorum: Option<QuorumAttestationView>,
    cutoff: Option<Timestamp>,
    t: Timestamp,
)
    ensures
        ({
            let r = seed::misissuance_of(k, quorum);
            let voids = model::within(r.window, t.secs as int);
            let known = cutoff matches Some(c) ==> c.secs >= 1_010_000;
            &&& r.subject == RevokedSubjectView::Key(k.issuer.key_id)
            &&& r.reason.token() == "misissuance"@
            &&& r.declared_at.secs == 1_010_000
            &&& r.declared_by == "eu-super-quorum"@
            &&& r.quorum == quorum
            &&& voids <==> 1_003_000 <= t.secs <= 1_008_000
            &&& reads::standing(r, cutoff, voids) == if known && 1_003_000 <= t.secs <= 1_008_000 {
                "void-ab-initio"@
            } else {
                "valid"@
            }
        }),
{
}

/// The compromise suspends the issuer's key from 9500 seconds into the
/// scenario on, without an end, once it is declared at 10500; it needs no
/// quorum.
pub proof fn law_compromise_reading(k: SeedKeysView, cutoff: Option<Timestamp>, t: Timestamp)
    ensures
        ({
            let r = seed::compromise_of(k);
            let voids = model::within(r.window, t.secs as int);
            let known = cutoff matches Some(c) ==> c.secs >= 1_010_500;
            &&& r.subject == RevokedSubjectView::Key(k.issuer.key_id)
            &&& r.reason.token() == "key-compromise"@
            &&& r.declared_at.secs == 1_010_500
            &&& r.declared_by == "eu-root"@
            &&& r.quorum is None
            &&& voids <==> t.secs >= 1_009_500
            &&& reads::standing(r, cutoff, voids) == if known && t.secs >= 1_009_500 {
                "suspended-from"@
            } else {
                "valid"@
            }
        }),
{
}

/// A fixture stands from the start of the scenario, a declaration from the
/// instant it is declared at.
pub proof fn law_fixture_dates(op: OpView)
    ensures
        op matches OpView::DeclareRevocation { revocation } ==> seed::dated(op)
            == revocation.declared_at,
        !(op is DeclareRevocation) ==> seed::dated(op).secs == 1_000_000,
{
}

/// Authority comes down from the root through the notified body to the
/// issuer, each with the keys of its own; the quorum is two of its three
/// members and has no key.
pub proof fn law_chain_of_the_scenario(k: SeedKeysView, m: MintedView)
    ensures
        ({
            let n = seed::chain_nodes(k);
            let e = seed::seed_edges(m);
            let q = seed::quorum_node();
            &&& n.len() == 3
            &&& n[0].id == "eu-root"@ && n[0].kind is Root && n[0].keys.len() == 1
                && n[0].keys[0].public == k.root && n[0].keys[0].key_id == k.root.key_id
            &&& n[1].id == "eu-notified"@ && n[1].kind is Delegated && n[1].keys.len() == 1
                && n[1].keys[0].public == k.notified && n[1].keys[0].key_id == k.notified.key_id
            &&& n[2].id == "issuer-key-a"@ && n[2].kind is End && n[2].keys.len() == 2
                && n[2].keys[0].public == k.issuer && n[2].keys[1].public == k.issuer_alt
            &&& e.len() == 2
            &&& e[0].parent == n[0].id && e[0].child == n[1].id && e[0].scope == m.wide
                && e[0].signatures == m.hop1
            &&& e[1].parent == n[1].id && e[1].child == n[2].id && e[1].scope == m.narrow
                && e[1].signatures == m.hop2
            &&& q.id == "eu-super-quorum"@ && q.keys.len() == 0
            &&& q.kind matches NodeKindView::ThresholdGroup { threshold, members } && threshold == 2
                && members.len() == 3
            &&& seed::eu_list().list.entries.len() == 1 && seed::eu_list().list.entries[0].node
                == n[0].id
            &&& seed::eu_list().list.entries[0].not_before.secs == 1_000_000
                && seed::eu_list().list.entries[0].superseded_at is None
            &&& seed::eu_list().jurisdiction == "EU"@ && seed::eu_list().list.jurisdiction == "EU"@
                && seed::eu_list().framework == Some("espr"@)
        }),
{
}

// ---------------------------------------------------------------------------
// Discovery and errors
// ---------------------------------------------------------------------------

/// The service says what it is, which build, and whether it seeds its
/// fixtures.
pub proof fn law_discovery_states_the_build(version: Seq<char>, build: Seq<char>, seeded: bool)
    ensures
        ({
            let d = discovery::discovery_doc(version, build, seeded);
            &&& d.get("service"@) == Some(JsonView::Str("unidpp-trust"@))
            &&& d.get("version"@) == Some(JsonView::Str(version))
            &&& d.get("build_id"@) == Some(JsonView::Str(build))
            &&& d.get("seed_fixtures"@) matches Some(x) && x.get("enabled_by_default"@) == Some(
                JsonView::Bool(seeded),
            )
            &&& d.get("endpoints"@) == Some(discovery::endpoints_doc())
            &&& d.get("signing"@) matches Some(x) && x.get("domain"@) == Some(
                JsonView::Str("tree-head"@),
            )
        }),
{
    reveal_strlit("service");
    reveal_strlit("version");
    reveal_strlit("build_id");
    reveal_strlit("description");
    reveal_strlit("signing");
    reveal_strlit("endpoints");
    reveal_strlit("revocation_semantics");
    reveal_strlit("as_of");
    reveal_strlit("seed_fixtures");
    reveal_strlit("auth");
    assert("service"@.len() == 7 && "service"@[3] == 'v');
    assert("version"@.len() == 7 && "version"@[3] == 's');
    assert("signing"@.len() == 7 && "signing"@[3] == 'n');
    assert("build_id"@.len() == 8);
    assert("description"@.len() == 11);
    assert("endpoints"@.len() == 9);
    assert("revocation_semantics"@.len() == 20);
    assert("as_of"@.len() == 5);
    assert("seed_fixtures"@.len() == 13);
    assert("auth"@.len() == 4);
    reveal_strlit("source");
    reveal_strlit("enabled_by_default");
    reveal_strlit("disable_via");
    assert("source"@.len() == 6);
    assert("enabled_by_default"@.len() == 18);
    assert("disable_via"@.len() == 11);
    reveal_strlit("domain");
    reveal_strlit("adapter_note");
    reveal_strlit("suites");
    reveal_strlit("headers");
    reveal_strlit("keyring_endpoint");
    assert("domain"@.len() == 6 && "domain"@[0] == 'd');
    assert("suites"@.len() == 6 && "suites"@[0] == 's');
    assert("adapter_note"@.len() == 12);
    assert("headers"@.len() == 7);
    assert("keyring_endpoint"@.len() == 16);
}

/// The service reports its health at the instant it is asked.
pub proof fn law_health(now: Timestamp)
    ensures
        ({
            let d = discovery::health_doc(now);
            &&& d.get("status"@) == Some(JsonView::Str("ok"@))
            &&& d.get("service"@) == Some(JsonView::Str("unidpp-trust"@))
            &&& d.get("as_of"@) == Some(JsonView::Str(time::stamp(now.secs as int)))
        }),
{
    reveal_strlit("status");
    reveal_strlit("service");
    reveal_strlit("as_of");
    assert("status"@.len() == 6);
    assert("service"@.len() == 7);
    assert("as_of"@.len() == 5);
}

/// What is not found is answered 404, a quorum that is missing 422, and
/// every other refusal of the trust model 400.
pub proof fn law_error_statuses(e: SignatifError)
    ensures
        wire::error_reply(e).0 == 404 <==> e is NoTrustPath || e is Unknown,
        wire::error_reply(e).0 == 422 <==> e is QuorumRequired,
        wire::error_reply(e).0 == 400 <==> !(e is NoTrustPath || e is Unknown
            || e is QuorumRequired),
{
}

/// Each key of the scenario is the one that is derived from its own seed.
pub proof fn law_keys_follow_their_plan(derived: Seq<PublicKeyView>)
    requires
        derived.len() == 10,
    ensures
        ({
            let p = seed::key_plan_of();
            let k = seed::keys_of(derived);
            &&& p.len() == 10
            &&& forall|i: int|
                0 <= i < 10 ==> {
                    &&& (#[trigger] p[i]).seed == "scenario/eu-root"@ ==> k.root == derived[i]
                    &&& p[i].seed == "scenario/eu-notified"@ ==> k.notified == derived[i]
                    &&& p[i].seed == "scenario/issuer-a"@ ==> k.issuer == derived[i]
                    &&& p[i].seed == "scenario/issuer-a-alt"@ ==> k.issuer_alt == derived[i]
                    &&& p[i].seed == "scenario/w1"@ ==> k.witnesses[0].public == derived[i]
                    &&& p[i].seed == "scenario/w2"@ ==> k.witnesses[1].public == derived[i]
                    &&& p[i].seed == "scenario/w3"@ ==> k.witnesses[2].public == derived[i]
                    &&& p[i].seed == "scenario/quorum-1"@ ==> k.quorum_members[0] == derived[i]
                    &&& p[i].seed == "scenario/quorum-2"@ ==> k.quorum_members[1] == derived[i]
                    &&& p[i].seed == "scenario/quorum-3"@ ==> k.quorum_members[2] == derived[i]
                    &&& p[i].suite == "ecdsa-p256"@ <==> p[i].seed == "scenario/eu-notified"@
                        || p[i].seed == "scenario/issuer-a-alt"@ || p[i].seed
                        == "scenario/quorum-3"@
                    &&& p[i].suite == "ed25519"@ || p[i].suite == "ecdsa-p256"@
                }
            &&& k.witnesses.len() == 3 && k.quorum_members.len() == 3
            &&& k.witnesses[0].node == "witness-1"@ && k.witnesses[1].node == "witness-2"@
                && k.witnesses[2].node == "witness-3"@
        }),
{
    reveal_strlit("scenario/eu-root");
    reveal_strlit("scenario/eu-notified");
    reveal_strlit("scenario/issuer-a");
    reveal_strlit("scenario/issuer-a-alt");
    reveal_strlit("scenario/w1");
    reveal_strlit("scenario/w2");
    reveal_strlit("scenario/w3");
    reveal_strlit("scenario/quorum-1");
    reveal_strlit("scenario/quorum-2");
    reveal_strlit("scenario/quorum-3");
    reveal_strlit("ed25519");
    reveal_strlit("ecdsa-p256");
    assert("scenario/eu-root"@.len() == 16);
    assert("scenario/eu-notified"@.len() == 20);
    assert("scenario/issuer-a"@.len() == 17 && "scenario/issuer-a"@[16] == 'a');
    assert("scenario/quorum-1"@.len() == 17 && "scenario/quorum-1"@[16] == '1');
    assert("scenario/quorum-2"@.len() == 17 && "scenario/quorum-2"@[16] == '2');
    assert("scenario/quorum-3"@.len() == 17 && "scenario/quorum-3"@[16] == '3');
    assert("scenario/issuer-a-alt"@.len() == 21);
    assert("scenario/w1"@.len() == 11 && "scenario/w1"@[10] == '1');
    assert("scenario/w2"@.len() == 11 && "scenario/w2"@[10] == '2');
    assert("scenario/w3"@.len() == 11 && "scenario/w3"@[10] == '3');
    assert("ed25519"@.len() == 7);
    assert("ecdsa-p256"@.len() == 10);
    let p = seed::key_plan_of();
    assert(p[0].seed == "scenario/eu-root"@ && p[1].seed == "scenario/eu-notified"@);
    assert(p[2].seed == "scenario/issuer-a"@ && p[3].seed == "scenario/issuer-a-alt"@);
    assert(p[4].seed == "scenario/w1"@ && p[5].seed == "scenario/w2"@ && p[6].seed
        == "scenario/w3"@);
    assert(p[7].seed == "scenario/quorum-1"@ && p[8].seed == "scenario/quorum-2"@ && p[9].seed
        == "scenario/quorum-3"@);
}

/// What is delegated narrows: every authority, profile and product group of
/// the issuer's scope is one of the notified body's, and the issuer's scope
/// leaves some out.
pub proof fn law_scopes_narrow(t: Seq<char>)
    ensures
        ({
            let w = seed::wide_terms();
            let n = seed::narrow_terms();
            &&& n.authority.contains(t) ==> w.authority.contains(t)
            &&& n.profile_version.contains(t) ==> w.profile_version.contains(t)
            &&& n.product_group.contains(t) ==> w.product_group.contains(t)
            &&& n.product_group.len() < w.product_group.len()
            &&& n.profile_version.len() < w.profile_version.len()
            &&& n.since.secs == 1_000_000 && w.since.secs == 1_000_000
        }),
{
    let w = seed::wide_terms();
    let n = seed::narrow_terms();
    assert(w.authority[0] == n.authority[0]);
    assert(w.profile_version[0] == n.profile_version[0]);
    assert(w.product_group[0] == n.product_group[0]);
}

/// Every witness attests the root at the start of the scenario, in its own
/// name and with its own slot; every witness and member has a node with its
/// own key.
pub proof fn law_attestations_of_the_scenario(k: SeedKeysView, m: MintedView, i: int)
    requires
        m.attestations.len() == k.witnesses.len(),
    ensures
        ({
            let e = seed::root_master_entry(k, m);
            &&& e.node == "eu-root"@
            &&& e.attestations.len() == k.witnesses.len()
            &&& 0 <= i < k.witnesses.len() ==> e.attestations[i].witness == k.witnesses[i].node
                && e.attestations[i].at.secs == 1_000_000 && e.attestations[i].slot
                == m.attestations[i]
            &&& 0 <= i < k.witnesses.len() ==> seed::witness_nodes(k.witnesses)[i].id
                == k.witnesses[i].node && seed::witness_nodes(k.witnesses)[i].keys.len() == 1
                && seed::witness_nodes(k.witnesses)[i].keys[0].public == k.witnesses[i].public
            &&& k.quorum_members.len() == 3 && 0 <= i < 3 ==> seed::member_nodes(
                k.quorum_members,
            )[i].keys.len() == 1 && seed::member_nodes(k.quorum_members)[i].keys[0].public
                == k.quorum_members[i]
            &&& k.quorum_members.len() == 3 && 0 <= i < 3 ==> (
            seed::quorum_node().kind matches NodeKindView::ThresholdGroup { threshold, members }
                && members.len() == 3 && threshold == 2 && members[i] == seed::member_nodes(
                k.quorum_members,
            )[i].id)
            &&& seed::quorum_attestation(m).threshold == 2 && seed::quorum_attestation(m).quorum
                == seed::quorum_node().id && seed::quorum_attestation(m).signatures == m.quorum
        }),
{
}

} // verus!
