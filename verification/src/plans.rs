//! What a command states and what its plan and documents make of it: each
//! option goes to one part of the declaration, and nothing else does.

use vstd::prelude::*;

use crate::ceremony;
use crate::ceremony::{CeremonyView, OptionsView, PlanView};
use crate::data;
use crate::hex;
use crate::json::JsonView;
use crate::judge::JudgementsView;
use crate::model::{RegisteredKey, RevocationReasonView, RevokedSubjectView};
use crate::statements;
use crate::text;
use crate::time;
use crate::wire;

verus! {

// ---------------------------------------------------------------------------
// Options
// ---------------------------------------------------------------------------

/// Reading goes on behind arguments that were read.
proof fn lemma_options_resume(args: Seq<Seq<char>>, more: Seq<Seq<char>>, i: int, o: OptionsView)
    requires
        0 <= i <= args.len(),
        (args.len() - i) % 2 == 0,
    ensures
        ceremony::options_from(args + more, i, o) == match ceremony::options_from(args, i, o) {
            Ok(next) => ceremony::options_from(args + more, args.len() as int, next),
            Err(e) => Err(e),
        },
    decreases args.len() - i,
{
    let all = args + more;
    if i < args.len() {
        assert(all[i] == args[i]);
        assert(all[i + 1] == args[i + 1]);
        if let Ok(next) = ceremony::set_option(o, args[i], args[i + 1]) {
            lemma_options_resume(args, more, i + 2, next);
        }
    }
}

/// The part of the options that a flag names holds the value behind it, a
/// repeated `--member` or `--signer` adds to those before it, and no other
/// part changes.
pub open spec fn option_set(
    o: OptionsView,
    flag: Seq<char>,
    value: Seq<char>,
    n: OptionsView,
) -> bool {
    &&& n.quorum == if flag == "--quorum"@ {
        value
    } else {
        o.quorum
    }
    &&& flag == "--threshold"@ ==> text::number_of(value, 10, usize::MAX as nat) == Some(
        n.threshold as nat,
    )
    &&& flag != "--threshold"@ ==> n.threshold == o.threshold
    &&& n.members == if flag == "--member"@ {
        o.members.push(value)
    } else {
        o.members
    }
    &&& n.signers == if flag == "--signer"@ {
        o.signers.push(value)
    } else {
        o.signers
    }
    &&& n.subject_kind == if flag == "--subject-kind"@ {
        value
    } else {
        o.subject_kind
    }
    &&& n.subject_id == if flag == "--subject-id"@ {
        value
    } else {
        o.subject_id
    }
    &&& n.reason == if flag == "--reason"@ {
        value
    } else {
        o.reason
    }
    &&& n.detected_at == if flag == "--detected-at"@ {
        Some(value)
    } else {
        o.detected_at
    }
    &&& n.window_start == if flag == "--window-start"@ {
        value
    } else {
        o.window_start
    }
    &&& n.window_end == if flag == "--window-end"@ {
        Some(value)
    } else {
        o.window_end
    }
    &&& n.declared_at == if flag == "--declared-at"@ {
        value
    } else {
        o.declared_at
    }
    &&& n.out_dir == if flag == "--out-dir"@ {
        Some(value)
    } else {
        o.out_dir
    }
}

/// A flag and a value at the end of a command set the part of the options
/// that the flag names, whatever stood before; a flag that is none, and a
/// threshold that is no number, are refused.
pub proof fn law_flags_set_their_options(
    args: Seq<Seq<char>>,
    o: OptionsView,
    flag: Seq<char>,
    value: Seq<char>,
)
    requires
        args.len() % 2 == 1,
        ceremony::command_of(args) == Ok::<OptionsView, Seq<char>>(o),
    ensures
        match ceremony::command_of(args + seq![flag, value]) {
            Ok(n) => option_set(o, flag, value, n) && (flag == "--quorum"@ || flag
                == "--threshold"@ || flag == "--member"@ || flag == "--signer"@ || flag
                == "--subject-kind"@ || flag == "--subject-id"@ || flag == "--reason"@ || flag
                == "--detected-at"@ || flag == "--window-start"@ || flag == "--window-end"@ || flag
                == "--declared-at"@ || flag == "--out-dir"@),
            Err(_) => flag == "--threshold"@ && text::number_of(value, 10, usize::MAX as nat) is None
                || !(flag == "--quorum"@ || flag == "--threshold"@ || flag == "--member"@ || flag
                == "--signer"@ || flag == "--subject-kind"@ || flag == "--subject-id"@ || flag
                == "--reason"@ || flag == "--detected-at"@ || flag == "--window-start"@ || flag
                == "--window-end"@ || flag == "--declared-at"@ || flag == "--out-dir"@),
        },
{
    let more = seq![flag, value];
    let all = args + more;
    lemma_options_resume(args, more, 1, ceremony::no_options());
    let n = args.len() as int;
    assert(all[n] == flag && all[n + 1] == value);
    assert(all[0] == args[0]);
    reveal_with_fuel(ceremony::options_from, 2);
    reveal_strlit("--quorum");
    reveal_strlit("--threshold");
    reveal_strlit("--member");
    reveal_strlit("--signer");
    reveal_strlit("--subject-kind");
    reveal_strlit("--subject-id");
    reveal_strlit("--reason");
    reveal_strlit("--detected-at");
    reveal_strlit("--window-start");
    reveal_strlit("--window-end");
    reveal_strlit("--declared-at");
    reveal_strlit("--out-dir");
    reveal_strlit("-h");
    reveal_strlit("--help");
    reveal_strlit("declare");
    assert("--quorum"@.len() == 8 && "--quorum"@[2] == 'q');
    assert("--member"@.len() == 8 && "--member"@[2] == 'm');
    assert("--signer"@.len() == 8 && "--signer"@[2] == 's');
    assert("--reason"@.len() == 8 && "--reason"@[2] == 'r');
    assert("--threshold"@.len() == 11);
    assert("--subject-kind"@.len() == 14 && "--subject-kind"@[2] == 's');
    assert("--window-start"@.len() == 14 && "--window-start"@[2] == 'w');
    assert("--subject-id"@.len() == 12 && "--subject-id"@[2] == 's');
    assert("--window-end"@.len() == 12 && "--window-end"@[2] == 'w');
    assert("--detected-at"@.len() == 13 && "--detected-at"@[4] == 't');
    assert("--declared-at"@.len() == 13 && "--declared-at"@[4] == 'c');
    assert("--out-dir"@.len() == 9);
    assert("-h"@.len() == 2);
    assert("--help"@.len() == 6);
    assert("declare"@.len() == 7);
    if let Ok(next) = ceremony::set_option(o, flag, value) {
        assert(ceremony::options_from(all, n + 2, next) == Ok::<OptionsView, Seq<char>>(next));
    }
}

/// Without a flag there is nothing but `declare`; another command, or none,
/// is refused, and so is a flag without a value.
pub proof fn law_bare_commands(word: Seq<char>, flag: Seq<char>)
    ensures
        ceremony::command_of(seq!["declare"@]) == Ok::<OptionsView, Seq<char>>(
            OptionsView {
                quorum: Seq::empty(),
                threshold: 0,
                members: Seq::empty(),
                signers: Seq::empty(),
                subject_kind: Seq::empty(),
                subject_id: Seq::empty(),
                reason: Seq::empty(),
                detected_at: None,
                window_start: Seq::empty(),
                window_end: None,
                declared_at: Seq::empty(),
                out_dir: None,
            },
        ),
        word != "declare"@ ==> ceremony::command_of(seq![word]) is Err,
        ceremony::command_of(seq![word, flag]) is Err,
{
    reveal_with_fuel(ceremony::options_from, 2);
    assert(seq!["declare"@][0] == "declare"@);
    assert(seq![word][0] == word);
    assert(seq![word, flag][1] == flag);
}

/// Asking for help, in either spelling and behind any options that were
/// read, ends the reading with an empty refusal, which stands for the usage.
pub proof fn law_help_asks_for_the_usage(
    word: Seq<char>,
    args: Seq<Seq<char>>,
    ask: Seq<char>,
    more: Seq<Seq<char>>,
)
    requires
        args.len() % 2 == 0,
        ask == "-h"@ || ask == "--help"@,
        ceremony::command_of(seq!["declare"@] + args) is Ok,
    ensures
        ceremony::command_of(seq![word] + args + seq![ask] + more) matches Err(m) && m.len() == 0,
{
    reveal_strlit("");
    let head = seq!["declare"@] + args;
    let mine = seq![word] + args;
    let all = mine + (seq![ask] + more);
    assert(seq![word] + args + seq![ask] + more =~= all);
    lemma_same_options(head, mine, 1, ceremony::no_options());
    lemma_options_resume(mine, seq![ask] + more, 1, ceremony::no_options());
    assert(all[mine.len() as int] == ask);
}

proof fn lemma_same_options(a: Seq<Seq<char>>, b: Seq<Seq<char>>, i: int, o: OptionsView)
    requires
        a.len() == b.len(),
        0 <= i,
        forall|k: int| i <= k < a.len() ==> a[k] == #[trigger] b[k],
    ensures
        ceremony::options_from(a, i, o) == ceremony::options_from(b, i, o),
    decreases a.len() - i,
{
    if i < a.len() {
        assert(a[i] == b[i]);
        if i + 1 < a.len() {
            assert(a[i + 1] == b[i + 1]);
            if let Ok(next) = ceremony::set_option(o, a[i], a[i + 1]) {
                lemma_same_options(a, b, i + 2, next);
            }
        }
    }
}

// ---------------------------------------------------------------------------
// Plans
// ---------------------------------------------------------------------------

/// Names are accepted one by one, each as what it stands for.
proof fn lemma_ids_named(flag: Seq<char>, raw: Seq<Seq<char>>, j: JudgementsView)
    ensures
        ceremony::ids_named(flag, raw, j) is Ok <==> forall|i: int|
            0 <= i < raw.len() ==> j.node(#[trigger] raw[i]) is Ok,
        ceremony::ids_named(flag, raw, j) matches Ok(v) ==> v.len() == raw.len() && forall|i: int|
            0 <= i < raw.len() ==> #[trigger] j.node(raw[i]) == Ok::<Seq<char>, Seq<char>>(v[i]),
    decreases raw.len(),
{
    if raw.len() > 0 {
        let rest = raw.drop_last();
        lemma_ids_named(flag, rest, j);
        assert(forall|i: int| 0 <= i < rest.len() ==> rest[i] == raw[i]);
        let all = forall|i: int| 0 <= i < raw.len() ==> j.node(#[trigger] raw[i]) is Ok;
        if all {
            assert forall|i: int| 0 <= i < rest.len() implies j.node(#[trigger] rest[i]) is Ok by {
                assert(j.node(raw[i]) is Ok);
            }
            assert(j.node(raw[raw.len() - 1]) is Ok);
        }
        if let Ok(v) = ceremony::ids_named(flag, raw, j) {
            assert forall|i: int| 0 <= i < raw.len() implies #[trigger] j.node(raw[i]) == Ok::<
                Seq<char>,
                Seq<char>,
            >(v[i]) by {
                if i < rest.len() {
                    assert(j.node(rest[i]) is Ok);
                }
            }
        }
    }
}

/// The window that the options state: from `--window-start` to
/// `--window-end`, and open where that is not given or empty.
pub open spec fn window_stated(o: OptionsView) -> bool {
    &&& time::parsed(o.window_start) is Some
    &&& o.window_end matches Some(e) ==> e.len() == 0 || (time::parsed(e) matches Some(n) && n
        >= time::parsed(o.window_start)->0)
}

/// The options state a declaration that a quorum can be asked for.
pub open spec fn declaration_stated(o: OptionsView, j: JudgementsView) -> bool {
    &&& o.quorum.len() > 0 && j.node(o.quorum) is Ok
    &&& 1 <= o.signers.len() <= o.threshold
    &&& o.members.len() >= 2
    &&& forall|i: int| 0 <= i < o.members.len() ==> j.node(#[trigger] o.members[i]) is Ok
    &&& o.out_dir is Some
    &&& {
        ||| o.subject_kind == "key"@ && j.key(o.subject_id) is Ok
        ||| o.subject_kind == "node"@ && j.node(o.subject_id) is Ok
        ||| o.subject_kind == "passport"@ && j.passport(o.subject_id) is Ok
    }
    &&& statements::voiding_token(o.reason)
    &&& o.reason == "authority-compromised"@ ==> (o.detected_at matches Some(t) && time::parsed(
        t,
    ) is Some)
    &&& time::parsed(o.declared_at) is Some
    &&& window_stated(o)
}

/// The plan is what the options state, part by part.
pub open spec fn plan_stated(o: OptionsView, j: JudgementsView, p: PlanView) -> bool {
    &&& o.out_dir == Some(p.out_dir)
    &&& j.node(o.quorum) == Ok::<Seq<char>, Seq<char>>(p.quorum)
    &&& p.threshold == o.threshold
    &&& p.members.len() == o.members.len()
    &&& forall|i: int|
        0 <= i < o.members.len() ==> #[trigger] j.node(o.members[i]) == Ok::<Seq<char>, Seq<char>>(
            p.members[i],
        )
    &&& match p.revocation.subject {
        RevokedSubjectView::Key(k) => o.subject_kind == "key"@ && j.key(o.subject_id) == Ok::<
            Seq<char>,
            Seq<char>,
        >(k),
        RevokedSubjectView::Node(n) => o.subject_kind == "node"@ && j.node(o.subject_id) == Ok::<
            Seq<char>,
            Seq<char>,
        >(n),
        RevokedSubjectView::Passport(k) => o.subject_kind == "passport"@ && j.passport(
            o.subject_id,
        ) == Ok::<Seq<char>, Seq<char>>(k),
        RevokedSubjectView::Condition { .. } => false,
    }
    &&& p.revocation.reason.token() == o.reason
    &&& p.revocation.reason matches RevocationReasonView::AuthorityCompromised { detected_at }
        ==> (o.detected_at matches Some(t) && time::parsed(t) == Some(detected_at.secs as int))
    &&& time::parsed(o.declared_at) == Some(p.revocation.declared_at.secs as int)
    &&& p.revocation.declared_by == p.quorum
    &&& p.revocation.quorum is None
}

/// The window of a plan starts at the instant that `--window-start` states
/// and ends at the one that `--window-end` states, not before its start; it
/// is open exactly when no end is given.
pub proof fn law_plan_window(o: OptionsView, j: JudgementsView)
    ensures
        ceremony::plan_of(o, j) matches Ok(p) ==> {
            let w = p.revocation.window;
            &&& time::parsed(o.window_start) == Some(w.from.secs as int)
            &&& match o.window_end {
                None => w.to is None,
                Some(e) => {
                    &&& w.to is None <==> e.len() == 0
                    &&& w.to matches Some(t) ==> time::parsed(e) == Some(t.secs as int)
                        && w.from.secs <= t.secs
                },
            }
        },
{
    time::law_stated_instants_are_counted(o.window_start);
    if let Some(e) = o.window_end {
        time::law_stated_instants_are_counted(e);
    }
    reveal_strlit("start");
    reveal_strlit("end");
    assert("start"@.len() == 5);
    assert("end"@.len() == 3);
}

/// A plan is made exactly when the options state a declaration, and it is
/// the declaration that they state.
pub proof fn law_plan_is_what_the_options_state(o: OptionsView, j: JudgementsView)
    ensures
        ceremony::plan_of(o, j) is Ok <==> declaration_stated(o, j),
        ceremony::plan_of(o, j) matches Ok(p) ==> plan_stated(o, j, p),
{
    lemma_ids_named("--member"@, o.members, j);
    time::law_stated_instants_are_counted(o.window_start);
    time::law_stated_instants_are_counted(o.declared_at);
    if let Some(e) = o.window_end {
        time::law_stated_instants_are_counted(e);
    }
    if let Some(t) = o.detected_at {
        time::law_stated_instants_are_counted(t);
    }
    reveal_strlit("misissuance");
    reveal_strlit("fraudulent-issuance");
    reveal_strlit("authority-compromised");
    reveal_strlit("key-compromise");
    reveal_strlit("cessation");
    reveal_strlit("supersession");
    reveal_strlit("affiliation-change");
    reveal_strlit("condition-withdrawal");
    assert("misissuance"@.len() == 11);
    assert("fraudulent-issuance"@.len() == 19);
    assert("authority-compromised"@.len() == 21);
    assert("key-compromise"@.len() == 14);
    assert("cessation"@.len() == 9);
    assert("supersession"@.len() == 12);
    assert("affiliation-change"@.len() == 18);
    assert("condition-withdrawal"@.len() == 20);
    reveal_strlit("start");
    reveal_strlit("end");
    reveal_strlit("kind");
    reveal_strlit("id");
    reveal_strlit("token");
    reveal_strlit("detected_at");
    reveal_strlit("key");
    reveal_strlit("node");
    reveal_strlit("passport");
    reveal_strlit("condition");
    reveal_strlit("by");
    reveal_strlit("after");
    assert("start"@.len() == 5 && "start"@[0] == 's');
    assert("token"@.len() == 5 && "token"@[0] == 't');
    assert("after"@.len() == 5 && "after"@[0] == 'a');
    assert("end"@.len() == 3 && "end"@[0] == 'e');
    assert("key"@.len() == 3 && "key"@[0] == 'k');
    assert("kind"@.len() == 4 && "kind"@[0] == 'k');
    assert("node"@.len() == 4 && "node"@[0] == 'n');
    assert("id"@.len() == 2 && "id"@[0] == 'i');
    assert("by"@.len() == 2 && "by"@[0] == 'b');
    assert("detected_at"@.len() == 11);
    assert("passport"@.len() == 8);
    assert("condition"@.len() == 9);
}

// ---------------------------------------------------------------------------
// Signers
// ---------------------------------------------------------------------------

proof fn lemma_stranger(ids: Seq<Seq<char>>, members: Seq<Seq<char>>)
    ensures
        ceremony::first_stranger(ids, members) is None <==> forall|i: int|
            0 <= i < ids.len() ==> members.contains(#[trigger] ids[i]),
    decreases ids.len(),
{
    if ids.len() > 0 {
        let rest = ids.drop_last();
        lemma_stranger(rest, members);
        assert(forall|i: int| 0 <= i < rest.len() ==> rest[i] == ids[i]);
        let all = forall|i: int| 0 <= i < ids.len() ==> members.contains(#[trigger] ids[i]);
        if all {
            assert forall|i: int| 0 <= i < rest.len() implies members.contains(
                #[trigger] rest[i],
            ) by {
                assert(members.contains(ids[i]));
            }
            assert(members.contains(ids[ids.len() - 1]));
        }
        if ceremony::first_stranger(ids, members) is None {
            assert forall|i: int| 0 <= i < ids.len() implies members.contains(
                #[trigger] ids[i],
            ) by {
                if i < rest.len() {
                    assert(members.contains(rest[i]));
                }
            }
        }
    }
}

/// The qualifying set is the signers named, in their order, exactly when each
/// of them is accepted and is a member.
pub proof fn law_qualifying_set_is_the_signers(
    o: OptionsView,
    members: Seq<Seq<char>>,
    j: JudgementsView,
)
    ensures
        ceremony::qualifying_of(o, members, j) is Ok <==> forall|i: int|
            0 <= i < o.signers.len() ==> (j.node(#[trigger] o.signers[i]) matches Ok(id)
                && members.contains(id)),
        ceremony::qualifying_of(o, members, j) matches Ok(ids) ==> ids.len() == o.signers.len()
            && forall|i: int|
            0 <= i < ids.len() ==> #[trigger] j.node(o.signers[i]) == Ok::<Seq<char>, Seq<char>>(
                ids[i],
            ),
{
    lemma_ids_named("--signer"@, o.signers, j);
    if let Ok(ids) = ceremony::ids_named("--signer"@, o.signers, j) {
        lemma_stranger(ids, members);
        if ceremony::qualifying_of(o, members, j) is Ok {
            assert forall|i: int| 0 <= i < o.signers.len() implies (j.node(
                #[trigger] o.signers[i],
            ) matches Ok(id) && members.contains(id)) by {
                assert(members.contains(ids[i]));
            }
        } else {
            let i = choose|i: int| 0 <= i < ids.len() && !members.contains(#[trigger] ids[i]);
            assert(j.node(o.signers[i]) == Ok::<Seq<char>, Seq<char>>(ids[i]));
        }
    } else {
        let i = choose|i: int| 0 <= i < o.signers.len() && !(j.node(#[trigger] o.signers[i]) is Ok);
        assert(!(j.node(o.signers[i]) is Ok));
    }
}

// ---------------------------------------------------------------------------
// Documents
// ---------------------------------------------------------------------------

proof fn lemma_id_set(ids: Seq<Seq<char>>)
    ensures
        data::ascending::<String>(ceremony::id_set(ids)),
        ceremony::id_set(ids).to_set() == ids.to_set(),
    decreases ids.len(),
{
    if ids.len() > 0 {
        lemma_id_set(ids.drop_last());
        let before = ceremony::id_set(ids.drop_last());
        data::lemma_filed_ascending::<String>(before, ids.last());
        data::lemma_filed_set::<String>(before, ids.last());
        assert(ids.to_set() =~= ids.drop_last().to_set().insert(ids.last())) by {
            assert(ids =~= ids.drop_last().push(ids.last()));
            assert forall|x: Seq<char>| ids.contains(x) <==> #[trigger] ids.drop_last().contains(x)
                || x == ids.last() by {
                if ids.contains(x) {
                    let k = choose|k: int| 0 <= k < ids.len() && ids[k] == x;
                    if k < ids.len() - 1 {
                        assert(ids.drop_last()[k] == x);
                    }
                }
                if ids.drop_last().contains(x) {
                    let k = choose|k: int|
                        0 <= k < ids.drop_last().len() && ids.drop_last()[k] == x;
                    assert(ids[k] == x);
                }
                if x == ids.last() {
                    assert(ids[ids.len() - 1] == x);
                }
            }
        }
    } else {
        assert(ceremony::id_set(ids).to_set() =~= ids.to_set());
    }
}

/// The node document pins the group key, and no other, on the quorum, with
/// the threshold of the plan and its members, each once.
pub proof fn law_node_document(p: PlanView, signers: Seq<Seq<char>>, c: CeremonyView)
    ensures
        ({
            let d = ceremony::documents_of(p, signers, c).node;
            &&& d.get("id"@) == Some(JsonView::Str(p.quorum))
            &&& d.get("kind"@) matches Some(k) && k.get("threshold_group"@) matches Some(g)
                && g.get("threshold"@) == Some(JsonView::Num(p.threshold as int)) && (g.get(
                "members"@,
            ) matches Some(JsonView::Arr(m)) && exists|ids: Seq<Seq<char>>|
                #[trigger] data::ascending::<String>(ids) && ids.to_set() == p.members.to_set()
                    && m.len() == ids.len() && forall|i: int|
                    0 <= i < m.len() ==> #[trigger] m[i] == JsonView::Str(ids[i]))
            &&& d.get("keys"@) matches Some(JsonView::Arr(k)) && k.len() == 1 && k[0].get(
                "key_id"@,
            ) == Some(JsonView::Str(c.public.key_id)) && k[0].get("public"@) == Some(
                JsonView::Str(hex::hex_text(c.public.bytes)),
            ) && k[0].get("suite"@) == Some(JsonView::Str(c.public.suite))
        }),
{
    lemma_id_set(p.members);
    let ids = ceremony::id_set(p.members);
    let d = ceremony::documents_of(p, signers, c).node;
    reveal_strlit("id");
    reveal_strlit("kind");
    reveal_strlit("keys");
    reveal_strlit("threshold_group");
    reveal_strlit("threshold");
    reveal_strlit("members");
    reveal_strlit("key_id");
    reveal_strlit("suite");
    reveal_strlit("public");
    reveal_strlit("public_len");
    assert("id"@.len() == 2);
    assert("kind"@.len() == 4 && "kind"@[1] == 'i');
    assert("keys"@.len() == 4 && "keys"@[1] == 'e');
    assert("threshold_group"@.len() == 15);
    assert("threshold"@.len() == 9);
    assert("members"@.len() == 7);
    assert("key_id"@.len() == 6 && "key_id"@[0] == 'k');
    assert("public"@.len() == 6 && "public"@[0] == 'p');
    assert("suite"@.len() == 5);
    assert("public_len"@.len() == 10);
    let g = (d.get("kind"@)->0).get("threshold_group"@)->0;
    let m = wire::strings(ids);
    assert(g.get("members"@) == Some(JsonView::Arr(m)));
    assert(data::ascending::<String>(ids));
    let k = wire::docs::<RegisteredKey>(ceremony::quorum_node(p, c.public).keys);
    assert(d.get("keys"@) == Some(JsonView::Arr(k)));
    assert(k[0] == wire::registered_value(ceremony::quorum_node(p, c.public).keys[0]));
}

/// The declaration document states the declaration of the plan, attested by
/// the group slot alone under the threshold of the plan.
pub proof fn law_declaration_document(p: PlanView, signers: Seq<Seq<char>>, c: CeremonyView)
    ensures
        ({
            let d = ceremony::documents_of(p, signers, c).revocation;
            &&& statements::states_declaration(d, p.revocation)
            &&& d.get("quorum"@) matches Some(q)
            &&& q.get("quorum"@) == Some(JsonView::Str(p.quorum))
            &&& q.get("threshold"@) == Some(JsonView::Num(p.threshold as int))
            &&& q.get("signatures"@) matches Some(JsonView::Arr(s)) && s.len() == 1
                && statements::states_slot(s[0], c.slot)
        }),
{
    let r = ceremony::attested(p, c.slot);
    statements::law_declarations_are_stated(r);
    let q = r.quorum->0;
    assert(q.signatures[0] == c.slot);
}

/// The ceremony document states what was signed, by whom and under which
/// key.
pub proof fn law_ceremony_document(p: PlanView, signers: Seq<Seq<char>>, c: CeremonyView)
    ensures
        ({
            let d = ceremony::documents_of(p, signers, c).ceremony;
            &&& d.get("algorithm"@) == Some(c.algorithm)
            &&& d.get("threshold"@) == Some(JsonView::Num(c.threshold as int))
            &&& d.get("members"@) == Some(JsonView::Num(c.members as int))
            &&& d.get("group_public"@) == Some(JsonView::Str(c.group_public))
            &&& d.get("feldman_commitments"@) == Some(c.commitments)
            &&& d.get("signers"@) matches Some(JsonView::Arr(s)) && s.len() == signers.len()
                && forall|i: int|
                0 <= i < s.len() ==> #[trigger] s[i] == JsonView::Str(signers[i])
            &&& d.get("statement"@) matches Some(t)
            &&& t.get("subject"@) matches Some(x) && statements::states_subject(
                x,
                p.revocation.subject,
            )
            &&& t.get("reason"@) matches Some(x) && statements::states_reason(
                x,
                p.revocation.reason,
            )
            &&& t.get("window"@) matches Some(x) && statements::states_window(
                x,
                p.revocation.window,
            )
            &&& t.get("declared_by"@) == Some(JsonView::Str(p.revocation.declared_by))
            &&& t.get("sha256"@) matches Some(x) && x.get("statement_bytes"@) == Some(
                JsonView::Str(c.statement_digest),
            ) && x.get("canonical_payload"@) == Some(JsonView::Str(c.payload_digest))
        }),
{
    statements::law_parts_are_stated(
        p.revocation.reason,
        p.revocation.subject,
        p.revocation.window,
    );
    reveal_strlit("algorithm");
    reveal_strlit("threshold");
    reveal_strlit("members");
    reveal_strlit("group_public");
    reveal_strlit("feldman_commitments");
    reveal_strlit("signers");
    reveal_strlit("statement");
    reveal_strlit("seed_note");
    assert("algorithm"@.len() == 9 && "algorithm"@[1] == 'l');
    assert("threshold"@.len() == 9 && "threshold"@[1] == 'h');
    assert("statement"@.len() == 9 && "statement"@[1] == 't');
    assert("seed_note"@.len() == 9 && "seed_note"@[1] == 'e');
    assert("members"@.len() == 7 && "members"@[0] == 'm');
    assert("signers"@.len() == 7 && "signers"@[0] == 's');
    assert("group_public"@.len() == 12);
    assert("feldman_commitments"@.len() == 19);
    reveal_strlit("subject");
    reveal_strlit("reason");
    reveal_strlit("window");
    reveal_strlit("declared_by");
    reveal_strlit("sha256");
    reveal_strlit("statement_bytes");
    reveal_strlit("canonical_payload");
    assert("subject"@.len() == 7);
    assert("reason"@.len() == 6 && "reason"@[0] == 'r');
    assert("window"@.len() == 6 && "window"@[0] == 'w');
    assert("sha256"@.len() == 6 && "sha256"@[0] == 's');
    assert("declared_by"@.len() == 11);
    assert("statement_bytes"@.len() == 15);
    assert("canonical_payload"@.len() == 17);
    let d = ceremony::documents_of(p, signers, c).ceremony;
    assert(d.get("signers"@) == Some(JsonView::Arr(wire::strings(signers))));
}

} // verus!
