//! Threshold-ceremony quorum attestations from the command line: the
//! arguments of `quorum-ceremony`, the declaration they state, and the
//! documents that a completed ceremony leaves.
//!
//! A retroactive revocation is an act of authority over authority. The
//! ceremony signs its statement with the key of a group; the documents pin
//! that key on the quorum node and carry the group signature as the single
//! slot of the attestation. The rounds of the ceremony are cryptography and
//! stand outside.

use vstd::prelude::*;

use crate::data;
use crate::data::{insert_keyed, Dup};
use crate::hex;
use crate::hex::hex_encode;
use crate::json::{Json, JsonView};
use crate::judge;
use crate::judge::{Judgements, JudgementsView, SlotCheckView};
use crate::model::{DelegationNode, DelegationNodeView, Interval, NodeKind, NodeKindView, PublicKey, PublicKeyView, QuorumAttestation, QuorumAttestationView, RegisteredKey, RegisteredKeyView, Revocation, RevocationReason, RevocationReasonView, RevocationView, RevokedSubject, RevokedSubjectView, SignatureSlot, SignatureSlotView};
use crate::quorum;
use crate::quorum::QuorumForm;
use crate::store;
use crate::store::{OpView, RulingView, StoreView};
use crate::text;
use crate::text::{decimal_text, join2, join3, join4, join5, parse_number, same_text};
use crate::time;
use crate::time::Timestamp;
use crate::wire;
use crate::wire::{interval_from_value, interval_to_value, node_to_value, reason_from_value, reason_to_value, render_strings, revocation_to_value, revoked_subject_from_value, revoked_subject_to_value};

verus! {

broadcast use {data::lemma_deep_push, data::lemma_deep_bytes, data::lemma_deep_len};

/// How the command is called.
pub const USAGE: &'static str = "\
unidpp-trust quorum-ceremony — threshold-ceremony quorum attestations

USAGE:
  quorum-ceremony declare --quorum <ID> --threshold <M> --member <ID>...
                          --signer <ID>... --subject-kind <key|node|passport>
                          --subject-id <ID> --reason <TOKEN> --window-start <TS>
                          [--window-end <TS>] --declared-at <TS> --out-dir <DIR>

  --reason tokens: misissuance | fraudulent-issuance | authority-compromised
    (authority-compromised also needs --detected-at <TS>;
     key-compromise/cessation/... are prospective — no quorum, use the API)

The ceremony runs over the revocation's canonical statement bytes in
the SIGNATIF Quorum signing domain. The group signature verifies as
standard Ed25519 under the group key; the service accepts it once the
quorum node (POST /nodes body in quorum-node.json) pins that key.";

/// The arguments of a declaration.
#[derive(Debug, PartialEq, Eq)]
pub struct Options {
    pub quorum: String,
    pub threshold: usize,
    pub members: Vec<String>,
    pub signers: Vec<String>,
    pub subject_kind: String,
    pub subject_id: String,
    pub reason: String,
    pub detected_at: Option<String>,
    pub window_start: String,
    pub window_end: Option<String>,
    pub declared_at: String,
    pub out_dir: Option<String>,
}

#[verifier::ext_equal]
pub struct OptionsView {
    pub quorum: Seq<char>,
    pub threshold: usize,
    pub members: Seq<Seq<char>>,
    pub signers: Seq<Seq<char>>,
    pub subject_kind: Seq<char>,
    pub subject_id: Seq<char>,
    pub reason: Seq<char>,
    pub detected_at: Option<Seq<char>>,
    pub window_start: Seq<char>,
    pub window_end: Option<Seq<char>>,
    pub declared_at: Seq<char>,
    pub out_dir: Option<Seq<char>>,
}

impl DeepView for Options {
    type V = OptionsView;

    open spec fn deep_view(&self) -> OptionsView {
        OptionsView {
            quorum: self.quorum.deep_view(),
            threshold: self.threshold.deep_view(),
            members: self.members.deep_view(),
            signers: self.signers.deep_view(),
            subject_kind: self.subject_kind.deep_view(),
            subject_id: self.subject_id.deep_view(),
            reason: self.reason.deep_view(),
            detected_at: self.detected_at.deep_view(),
            window_start: self.window_start.deep_view(),
            window_end: self.window_end.deep_view(),
            declared_at: self.declared_at.deep_view(),
            out_dir: self.out_dir.deep_view(),
        }
    }
}

impl View for Options {
    type V = OptionsView;

    open spec fn view(&self) -> OptionsView {
        self.deep_view()
    }
}

/// A declaration that a quorum is asked to authorise.
#[derive(Debug, PartialEq, Eq)]
pub struct Plan {
    pub out_dir: String,
    pub quorum: String,
    pub threshold: usize,
    /// The members, in the order they were named.
    pub members: Vec<String>,
    /// The declaration, not yet attested.
    pub revocation: Revocation,
}

#[verifier::ext_equal]
pub struct PlanView {
    pub out_dir: Seq<char>,
    pub quorum: Seq<char>,
    pub threshold: usize,
    pub members: Seq<Seq<char>>,
    pub revocation: RevocationView,
}

impl DeepView for Plan {
    type V = PlanView;

    open spec fn deep_view(&self) -> PlanView {
        PlanView {
            out_dir: self.out_dir.deep_view(),
            quorum: self.quorum.deep_view(),
            threshold: self.threshold.deep_view(),
            members: self.members.deep_view(),
            revocation: self.revocation.deep_view(),
        }
    }
}

impl View for Plan {
    type V = PlanView;

    open spec fn view(&self) -> PlanView {
        self.deep_view()
    }
}

/// What a completed ceremony gives.
#[derive(Debug, PartialEq, Eq)]
pub struct Ceremony {
    pub algorithm: Json,
    pub threshold: usize,
    pub members: usize,
    /// The key of the group in hex, as the ceremony states it.
    pub group_public: String,
    pub commitments: Json,
    /// The key of the group.
    pub public: PublicKey,
    /// The group signature.
    pub slot: SignatureSlot,
    pub statement_digest: String,
    pub payload_digest: String,
}

#[verifier::ext_equal]
pub struct CeremonyView {
    pub algorithm: JsonView,
    pub threshold: usize,
    pub members: usize,
    pub group_public: Seq<char>,
    pub commitments: JsonView,
    pub public: PublicKeyView,
    pub slot: SignatureSlotView,
    pub statement_digest: Seq<char>,
    pub payload_digest: Seq<char>,
}

impl DeepView for Ceremony {
    type V = CeremonyView;

    open spec fn deep_view(&self) -> CeremonyView {
        CeremonyView {
            algorithm: self.algorithm.deep_view(),
            threshold: self.threshold.deep_view(),
            members: self.members.deep_view(),
            group_public: self.group_public.deep_view(),
            commitments: self.commitments.deep_view(),
            public: self.public.deep_view(),
            slot: self.slot.deep_view(),
            statement_digest: self.statement_digest.deep_view(),
            payload_digest: self.payload_digest.deep_view(),
        }
    }
}

impl View for Ceremony {
    type V = CeremonyView;

    open spec fn view(&self) -> CeremonyView {
        self.deep_view()
    }
}

/// The documents that a ceremony leaves.
#[derive(Debug, PartialEq, Eq)]
pub struct Documents {
    pub node: Json,
    pub revocation: Json,
    pub ceremony: Json,
}

#[verifier::ext_equal]
pub struct DocumentsView {
    pub node: JsonView,
    pub revocation: JsonView,
    pub ceremony: JsonView,
}

impl DeepView for Documents {
    type V = DocumentsView;

    open spec fn deep_view(&self) -> DocumentsView {
        DocumentsView {
            node: self.node.deep_view(),
            revocation: self.revocation.deep_view(),
            ceremony: self.ceremony.deep_view(),
        }
    }
}

impl View for Documents {
    type V = DocumentsView;

    open spec fn view(&self) -> DocumentsView {
        self.deep_view()
    }
}

// ---------------------------------------------------------------------------
// Arguments
// ---------------------------------------------------------------------------

/// No argument given.
pub open spec fn no_options() -> OptionsView {
    OptionsView {
        quorum: Seq::empty(),
        threshold: 0,
        members: Seq::empty(),
        signers: Seq::empty(),
        subject_kind: Seq::empty(),
        subject_id: Seq::empty(),
        reason: Seq::empty(),
        detected_at: None,
        window_start: Seq::empty(),
        window_end: None,
        declared_at: Seq::empty(),
        out_dir: None,
    }
}

/// The flag takes a value.
pub open spec fn takes_value(flag: Seq<char>) -> bool {
    ||| flag == "--quorum"@
    ||| flag == "--threshold"@
    ||| flag == "--member"@
    ||| flag == "--signer"@
    ||| flag == "--subject-kind"@
    ||| flag == "--subject-id"@
    ||| flag == "--reason"@
    ||| flag == "--detected-at"@
    ||| flag == "--window-start"@
    ||| flag == "--window-end"@
    ||| flag == "--declared-at"@
    ||| flag == "--out-dir"@
}

/// The arguments with one flag set; a member or signer is added to those
/// before it.
pub open spec fn set_option(o: OptionsView, flag: Seq<char>, value: Seq<char>) -> Result<
    OptionsView,
    Seq<char>,
> {
    if flag == "--quorum"@ {
        Ok(OptionsView { quorum: value, ..o })
    } else if flag == "--threshold"@ {
        match text::number_of(value, 10, usize::MAX as nat) {
            Some(n) => Ok(OptionsView { threshold: n as usize, ..o }),
            None => Err("bad --threshold"@),
        }
    } else if flag == "--member"@ {
        Ok(OptionsView { members: o.members.push(value), ..o })
    } else if flag == "--signer"@ {
        Ok(OptionsView { signers: o.signers.push(value), ..o })
    } else if flag == "--subject-kind"@ {
        Ok(OptionsView { subject_kind: value, ..o })
    } else if flag == "--subject-id"@ {
        Ok(OptionsView { subject_id: value, ..o })
    } else if flag == "--reason"@ {
        Ok(OptionsView { reason: value, ..o })
    } else if flag == "--detected-at"@ {
        Ok(OptionsView { detected_at: Some(value), ..o })
    } else if flag == "--window-start"@ {
        Ok(OptionsView { window_start: value, ..o })
    } else if flag == "--window-end"@ {
        Ok(OptionsView { window_end: Some(value), ..o })
    } else if flag == "--declared-at"@ {
        Ok(OptionsView { declared_at: value, ..o })
    } else {
        Ok(OptionsView { out_dir: Some(value), ..o })
    }
}

/// The arguments from the `i`-th on, set over those before. A request for
/// help is an error without a message.
pub open spec fn options_from(args: Seq<Seq<char>>, i: int, o: OptionsView) -> Result<
    OptionsView,
    Seq<char>,
>
    decreases args.len() - i,
{
    if i < 0 || i >= args.len() {
        Ok(o)
    } else if args[i] == "-h"@ || args[i] == "--help"@ {
        Err(""@)
    } else if !takes_value(args[i]) {
        Err("unknown argument `"@ + args[i] + "`"@)
    } else if i + 1 >= args.len() {
        Err(args[i] + " needs a value"@)
    } else {
        match set_option(o, args[i], args[i + 1]) {
            Err(e) => Err(e),
            Ok(next) => options_from(args, i + 2, next),
        }
    }
}

/// The declaration that a command line asks for; its first word names the
/// command.
pub open spec fn command_of(args: Seq<Seq<char>>) -> Result<OptionsView, Seq<char>> {
    match options_from(args, 1, no_options()) {
        Err(e) => Err(e),
        Ok(o) => if args[0] == "declare"@ {
            Ok(o)
        } else if args[0].len() == 0 {
            Err(""@)
        } else {
            Err("unknown command `"@ + args[0] + "`"@)
        },
    }
}

fn is_value_flag(flag: &str) -> (r: bool)
    ensures
        r == takes_value(flag@),
{
    same_text(flag, "--quorum") || same_text(flag, "--threshold") || same_text(flag, "--member")
        || same_text(flag, "--signer") || same_text(flag, "--subject-kind") || same_text(
        flag,
        "--subject-id",
    ) || same_text(flag, "--reason") || same_text(flag, "--detected-at") || same_text(
        flag,
        "--window-start",
    ) || same_text(flag, "--window-end") || same_text(flag, "--declared-at") || same_text(
        flag,
        "--out-dir",
    )
}

fn set_flag(o: Options, flag: &str, value: &str) -> (r: Result<Options, String>)
    ensures
        data::shows(r, set_option(o@, flag@, value@)),
{
    let mut o = o;
    let ghost before = o@;
    if same_text(flag, "--quorum") {
        o.quorum = value.to_owned();
    } else if same_text(flag, "--threshold") {
        match parse_number(value, 10, usize::MAX as u64) {
            Some(n) => {
                o.threshold = n as usize;
            },
            None => return Err("bad --threshold".to_owned()),
        }
    } else if same_text(flag, "--member") {
        o.members.push(value.to_owned());
        assert(o@.members =~= before.members.push(value@));
    } else if same_text(flag, "--signer") {
        o.signers.push(value.to_owned());
        assert(o@.signers =~= before.signers.push(value@));
    } else if same_text(flag, "--subject-kind") {
        o.subject_kind = value.to_owned();
    } else if same_text(flag, "--subject-id") {
        o.subject_id = value.to_owned();
    } else if same_text(flag, "--reason") {
        o.reason = value.to_owned();
    } else if same_text(flag, "--detected-at") {
        o.detected_at = Some(value.to_owned());
    } else if same_text(flag, "--window-start") {
        o.window_start = value.to_owned();
    } else if same_text(flag, "--window-end") {
        o.window_end = Some(value.to_owned());
    } else if same_text(flag, "--declared-at") {
        o.declared_at = value.to_owned();
    } else {
        o.out_dir = Some(value.to_owned());
    }
    Ok(o)
}

/// Read the arguments from the `start`-th on.
pub fn parse(args: &Vec<String>, start: usize) -> (r: Result<Options, String>)
    ensures
        data::shows(r, options_from(args.deep_view(), start as int, no_options())),
{
    let ghost a = args.deep_view();
    let empty = "";
    proof {
        reveal_strlit("");
        assert(""@ =~= Seq::<char>::empty());
    }
    let mut o = Options {
        quorum: empty.to_owned(),
        threshold: 0,
        members: Vec::new(),
        signers: Vec::new(),
        subject_kind: empty.to_owned(),
        subject_id: empty.to_owned(),
        reason: empty.to_owned(),
        detected_at: None,
        window_start: empty.to_owned(),
        window_end: None,
        declared_at: empty.to_owned(),
        out_dir: None,
    };
    assert(o@ =~= no_options());
    let n: usize = args.len();
    let mut i: usize = start;
    while i < n
        invariant
            n == args@.len(),
            a == args.deep_view(),
            options_from(a, start as int, no_options()) == options_from(a, i as int, o@),
        decreases n - i,
    {
        assert(a[i as int] == args@[i as int]@);
        let flag: &str = args[i].as_str();
        if same_text(flag, "-h") || same_text(flag, "--help") {
            return Err("".to_owned());
        }
        if !is_value_flag(flag) {
            return Err(join3("unknown argument `", flag, "`"));
        }
        if n - i < 2 {
            return Err(join2(flag, " needs a value"));
        }
        assert(a[i + 1] == args@[i + 1]@);
        match set_flag(o, flag, args[i + 1].as_str()) {
            Ok(next) => {
                o = next;
            },
            Err(e) => return Err(e),
        }
        if n - i == 2 {
            assert(options_from(a, i + 2, o@) == Ok::<OptionsView, Seq<char>>(o@));
            return Ok(o);
        }
        i = i + 2;
    }
    Ok(o)
}

/// Read a command line, program name excluded.
pub fn run(args: &Vec<String>) -> (r: Result<Options, String>)
    requires
        args@.len() > 0,
    ensures
        data::shows(r, command_of(args.deep_view())),
{
    let options = match parse(args, 1) {
        Ok(o) => o,
        Err(e) => return Err(e),
    };
    assert(args.deep_view()[0] == args@[0]@);
    let command: &str = args[0].as_str();
    proof {
        reveal_strlit("declare");
        assert("declare"@.len() > 0);
    }
    if same_text(command, "declare") {
        Ok(options)
    } else if command.is_empty() {
        Err("".to_owned())
    } else {
        Err(join3("unknown command `", command, "`"))
    }
}

/// The message of a failed command, with the usage.
pub fn failure_text(message: &str) -> (r: String)
    ensures
        r@ == "quorum-ceremony: "@ + message@ + "\n\n"@ + USAGE@,
{
    join4("quorum-ceremony: ", message, "\n\n", USAGE)
}

// ---------------------------------------------------------------------------
// The declaration
// ---------------------------------------------------------------------------

/// Why the arguments are no declaration, if they are none: the quorum, the
/// threshold, the members or the qualifying set.
pub open spec fn shape_error(o: OptionsView) -> Option<Seq<char>> {
    if o.quorum.len() == 0 {
        Some("declare needs --quorum"@)
    } else if o.threshold == 0 {
        Some("declare needs --threshold"@)
    } else if o.members.len() < 2 {
        Some("declare needs at least two --member ids"@)
    } else if o.signers.len() == 0 {
        Some("declare needs the qualifying set as --signer ids"@)
    } else if o.signers.len() > o.threshold {
        Some(
            "a qualifying set is exactly "@ + text::decimal(o.threshold as nat) + " signer(s) ("@
                + text::decimal(o.signers.len())
                + " given): fewer cannot sign, more are redundant"@,
        )
    } else if o.out_dir is None {
        Some("declare needs --out-dir"@)
    } else {
        None
    }
}

/// The subject that the arguments name.
pub open spec fn subject_named(o: OptionsView, j: JudgementsView) -> Result<
    RevokedSubjectView,
    Seq<char>,
> {
    if o.subject_kind == "key"@ || o.subject_kind == "node"@ || o.subject_kind == "passport"@ {
        match wire::subject_of(
            JsonView::object().put("kind"@, JsonView::Str(o.subject_kind)).put(
                "id"@,
                JsonView::Str(o.subject_id),
            ),
            j,
        ) {
            Ok(s) => Ok(s),
            Err(e) => Err("--subject-id: "@ + e),
        }
    } else {
        Err("unknown --subject-kind `"@ + o.subject_kind + "`"@)
    }
}

/// The document with a string member set, where there is a string.
pub open spec fn with_text(d: JsonView, name: Seq<char>, t: Option<Seq<char>>) -> JsonView {
    match t {
        Some(t) => d.put(name, JsonView::Str(t)),
        None => d,
    }
}

/// The reason that the arguments name: a retroactive one.
pub open spec fn reason_named(o: OptionsView, j: JudgementsView) -> Result<
    RevocationReasonView,
    Seq<char>,
> {
    match wire::reason_of(
        with_text(
            JsonView::object().put("token"@, JsonView::Str(o.reason)),
            "detected_at"@,
            o.detected_at,
        ),
        j,
    ) {
        Err(e) => Err("--reason: "@ + e),
        Ok(r) => if r.is_retroactive() {
            Ok(r)
        } else {
            Err(
                "reason `"@ + r.token()
                    + "` is prospective — it needs no quorum; declare it directly through POST /revocations"@,
            )
        },
    }
}

/// The instant of the declaration.
pub open spec fn instant_named(o: OptionsView) -> Result<Timestamp, Seq<char>> {
    match time::parsed(o.declared_at) {
        Some(n) => Ok(Timestamp { secs: n as i64 }),
        None => Err(
            "--declared-at: "@ + ("`"@ + o.declared_at + "`: "@ + time::refusal(o.declared_at)),
        ),
    }
}

/// The distrust window.
pub open spec fn window_named(o: OptionsView) -> Result<Interval, Seq<char>> {
    match wire::interval_of(
        with_text(
            JsonView::object().put("start"@, JsonView::Str(o.window_start)),
            "end"@,
            o.window_end,
        ),
    ) {
        Ok(w) => Ok(w),
        Err(e) => Err("--window-*: "@ + e),
    }
}

/// The node ids that a repeated flag names.
pub open spec fn ids_named(flag: Seq<char>, raw: Seq<Seq<char>>, j: JudgementsView) -> Result<
    Seq<Seq<char>>,
    Seq<char>,
>
    decreases raw.len(),
{
    if raw.len() == 0 {
        Ok(Seq::empty())
    } else {
        match ids_named(flag, raw.drop_last(), j) {
            Err(e) => Err(e),
            Ok(v) => match j.node(raw.last()) {
                Err(e) => Err(flag + " "@ + raw.last() + ": "@ + e),
                Ok(id) => Ok(v.push(id)),
            },
        }
    }
}

/// What the arguments declare: subject, reason, instant and window, in
/// this order.
pub open spec fn statement_named(o: OptionsView, j: JudgementsView) -> Result<
    (RevokedSubjectView, RevocationReasonView, Timestamp, Interval),
    Seq<char>,
> {
    match subject_named(o, j) {
        Err(e) => Err(e),
        Ok(subject) => match reason_named(o, j) {
            Err(e) => Err(e),
            Ok(reason) => match instant_named(o) {
                Err(e) => Err(e),
                Ok(declared_at) => match window_named(o) {
                    Err(e) => Err(e),
                    Ok(window) => Ok((subject, reason, declared_at, window)),
                },
            },
        },
    }
}

/// The declaration that the arguments state. The declaring body is the
/// quorum itself.
pub open spec fn plan_of(o: OptionsView, j: JudgementsView) -> Result<PlanView, Seq<char>> {
    match shape_error(o) {
        Some(e) => Err(e),
        None => match statement_named(o, j) {
            Err(e) => Err(e),
            Ok((subject, reason, declared_at, window)) => match j.node(o.quorum) {
                Err(e) => Err("--quorum: "@ + e),
                Ok(quorum) => match ids_named("--member"@, o.members, j) {
                    Err(e) => Err(e),
                    Ok(members) => Ok(
                        PlanView {
                            out_dir: o.out_dir->0,
                            quorum,
                            threshold: o.threshold,
                            members,
                            revocation: RevocationView {
                                subject,
                                reason,
                                declared_at,
                                window,
                                declared_by: quorum,
                                quorum: None,
                            },
                        },
                    ),
                },
            },
        },
    }
}

/// The first of the ids that is no member.
pub open spec fn first_stranger(ids: Seq<Seq<char>>, members: Seq<Seq<char>>) -> Option<Seq<char>>
    decreases ids.len(),
{
    if ids.len() == 0 {
        None
    } else {
        match first_stranger(ids.drop_last(), members) {
            Some(s) => Some(s),
            None => if members.contains(ids.last()) {
                None
            } else {
                Some(ids.last())
            },
        }
    }
}

/// The qualifying set that the arguments name: members of the quorum.
pub open spec fn qualifying_of(o: OptionsView, members: Seq<Seq<char>>, j: JudgementsView) -> Result<
    Seq<Seq<char>>,
    Seq<char>,
> {
    match ids_named("--signer"@, o.signers, j) {
        Err(e) => Err(e),
        Ok(ids) => match first_stranger(ids, members) {
            Some(s) => Err("signer "@ + s + " is not a member of the quorum"@),
            None => Ok(ids),
        },
    }
}

proof fn lemma_ids_stop(flag: Seq<char>, raw: Seq<Seq<char>>, j: JudgementsView, k: int)
    requires
        0 <= k <= raw.len(),
        ids_named(flag, raw.take(k), j) is Err,
    ensures
        ids_named(flag, raw, j) == ids_named(flag, raw.take(k), j),
    decreases raw.len() - k,
{
    if k < raw.len() {
        assert(raw.take(k + 1).drop_last() =~= raw.take(k));
        lemma_ids_stop(flag, raw, j, k + 1);
    } else {
        assert(raw.take(k) =~= raw);
    }
}

proof fn lemma_stranger_stop(ids: Seq<Seq<char>>, members: Seq<Seq<char>>, k: int)
    requires
        0 <= k <= ids.len(),
        first_stranger(ids.take(k), members) is Some,
    ensures
        first_stranger(ids, members) == first_stranger(ids.take(k), members),
    decreases ids.len() - k,
{
    if k < ids.len() {
        assert(ids.take(k + 1).drop_last() =~= ids.take(k));
        lemma_stranger_stop(ids, members, k + 1);
    } else {
        assert(ids.take(k) =~= ids);
    }
}

fn read_ids(flag: &str, raw: &Vec<String>, j: &Judgements) -> (r: Result<Vec<String>, String>)
    ensures
        data::shows(r, ids_named(flag@, raw.deep_view(), j@)),
{
    let ghost d = raw.deep_view();
    let mut out: Vec<String> = Vec::new();
    assert(out.deep_view() =~= Seq::<Seq<char>>::empty());
    for k in 0..raw.len()
        invariant
            d == raw.deep_view(),
            ids_named(flag@, d.take(k as int), j@) == Ok::<Seq<Seq<char>>, Seq<char>>(
                out.deep_view(),
            ),
    {
        assert(d.take(k + 1).drop_last() =~= d.take(k as int));
        assert(d.take(k + 1).last() == raw@[k as int]@);
        match j.node(raw[k].as_str()) {
            Ok(id) => {
                out.push(id);
            },
            Err(e) => {
                proof {
                    lemma_ids_stop(flag@, d, j@, k + 1);
                }
                return Err(join5(flag, " ", raw[k].as_str(), ": ", e.as_str()));
            },
        }
    }
    assert(d.take(d.len() as int) =~= d);
    Ok(out)
}

fn holds_id(ids: &Vec<String>, id: &str) -> (r: bool)
    ensures
        r == ids.deep_view().contains(id@),
{
    for k in 0..ids.len()
        invariant
            forall|i: int| 0 <= i < k ==> ids.deep_view()[i] != id@,
    {
        if same_text(ids[k].as_str(), id) {
            assert(ids.deep_view()[k as int] == id@);
            return true;
        }
    }
    false
}

fn read_subject(o: &Options, j: &Judgements) -> (r: Result<RevokedSubject, String>)
    ensures
        data::shows(r, subject_named(o@, j@)),
{
    let kind: &str = o.subject_kind.as_str();
    if !same_text(kind, "key") && !same_text(kind, "node") && !same_text(kind, "passport") {
        return Err(join3("unknown --subject-kind `", kind, "`"));
    }
    let doc = Json::object().with("kind", Json::text(kind)).with(
        "id",
        Json::text(o.subject_id.as_str()),
    );
    match revoked_subject_from_value(&doc, j) {
        Ok(s) => Ok(s),
        Err(e) => Err(join2("--subject-id: ", e.as_str())),
    }
}

fn put_text(doc: Json, name: &str, t: &Option<String>) -> (r: Json)
    ensures
        r@ == with_text(doc@, name@, t.deep_view()),
{
    match t {
        Some(t) => doc.with(name, Json::text(t.as_str())),
        None => doc,
    }
}

fn read_reason(o: &Options, j: &Judgements) -> (r: Result<RevocationReason, String>)
    ensures
        data::shows(r, reason_named(o@, j@)),
{
    let doc = put_text(
        Json::object().with("token", Json::text(o.reason.as_str())),
        "detected_at",
        &o.detected_at,
    );
    let reason = match reason_from_value(&doc, j) {
        Ok(r) => r,
        Err(e) => return Err(join2("--reason: ", e.as_str())),
    };
    if !reason.is_retroactive() {
        return Err(
            join3(
                "reason `",
                reason.token(),
                "` is prospective — it needs no quorum; declare it directly through POST /revocations",
            ),
        );
    }
    Ok(reason)
}

fn read_instant(o: &Options) -> (r: Result<Timestamp, String>)
    ensures
        data::shows(r, instant_named(o@)),
{
    match Timestamp::parse(o.declared_at.as_str()) {
        Ok(t) => Ok(t),
        Err(e) => {
            let what = join4("`", o.declared_at.as_str(), "`: ", e.to_string().as_str());
            Err(join2("--declared-at: ", what.as_str()))
        },
    }
}

fn read_window(o: &Options) -> (r: Result<Interval, String>)
    ensures
        data::shows(r, window_named(o@)),
{
    let doc = put_text(
        Json::object().with("start", Json::text(o.window_start.as_str())),
        "end",
        &o.window_end,
    );
    match interval_from_value(&doc) {
        Ok(w) => Ok(w),
        Err(e) => Err(join2("--window-*: ", e.as_str())),
    }
}

/// The declaration that the arguments state.
pub fn declare(o: &Options, j: &Judgements) -> (r: Result<Plan, String>)
    ensures
        data::shows(r, plan_of(o@, j@)),
{
    if o.quorum.as_str().is_empty() {
        return Err("declare needs --quorum".to_owned());
    }
    if o.threshold == 0 {
        return Err("declare needs --threshold".to_owned());
    }
    if o.members.len() < 2 {
        return Err("declare needs at least two --member ids".to_owned());
    }
    if o.signers.len() == 0 {
        return Err("declare needs the qualifying set as --signer ids".to_owned());
    }
    if o.signers.len() > o.threshold {
        return Err(
            join5(
                "a qualifying set is exactly ",
                decimal_text(o.threshold as u64).as_str(),
                " signer(s) (",
                decimal_text(o.signers.len() as u64).as_str(),
                " given): fewer cannot sign, more are redundant",
            ),
        );
    }
    let out_dir = match &o.out_dir {
        Some(d) => d.clone(),
        None => return Err("declare needs --out-dir".to_owned()),
    };
    let subject = match read_subject(o, j) {
        Ok(s) => s,
        Err(e) => return Err(e),
    };
    let reason = match read_reason(o, j) {
        Ok(r) => r,
        Err(e) => return Err(e),
    };
    let declared_at = match read_instant(o) {
        Ok(t) => t,
        Err(e) => return Err(e),
    };
    let window = match read_window(o) {
        Ok(w) => w,
        Err(e) => return Err(e),
    };
    let quorum = match j.node(o.quorum.as_str()) {
        Ok(q) => q,
        Err(e) => return Err(join2("--quorum: ", e.as_str())),
    };
    let members = match read_ids("--member", &o.members, j) {
        Ok(m) => m,
        Err(e) => return Err(e),
    };
    let revocation = Revocation {
        subject,
        reason,
        declared_at,
        window,
        declared_by: quorum.clone(),
        quorum: None,
    };
    Ok(Plan { out_dir, quorum, threshold: o.threshold, members, revocation })
}

/// The qualifying set that the arguments name.
pub fn qualifying_set(o: &Options, members: &Vec<String>, j: &Judgements) -> (r: Result<
    Vec<String>,
    String,
>)
    ensures
        data::shows(r, qualifying_of(o@, members.deep_view(), j@)),
{
    let ids = match read_ids("--signer", &o.signers, j) {
        Ok(v) => v,
        Err(e) => return Err(e),
    };
    let ghost d = ids.deep_view();
    for k in 0..ids.len()
        invariant
            d == ids.deep_view(),
            ids_named("--signer"@, o.signers.deep_view(), j@) == Ok::<Seq<Seq<char>>, Seq<char>>(d),
            first_stranger(d.take(k as int), members.deep_view()) is None,
    {
        assert(d.take(k + 1).drop_last() =~= d.take(k as int));
        assert(d.take(k + 1).last() == ids@[k as int]@);
        if !holds_id(members, ids[k].as_str()) {
            proof {
                lemma_stranger_stop(d, members.deep_view(), k + 1);
            }
            return Err(join3("signer ", ids[k].as_str(), " is not a member of the quorum"));
        }
    }
    assert(d.take(d.len() as int) =~= d);
    Ok(ids)
}

// ---------------------------------------------------------------------------
// Rounds
// ---------------------------------------------------------------------------

/// Whether the second round is held: below the threshold the first never
/// closes, and the aggregation refuses.
pub fn second_round_held(signers: usize, threshold: usize) -> (r: bool)
    ensures
        r <==> signers >= threshold,
{
    signers >= threshold
}

/// Why the aggregation refused.
#[derive(Debug, PartialEq, Eq)]
pub enum AggregateError {
    ThresholdNotMet { have: usize, need: usize },
    Other(String),
}

impl AggregateError {
    /// The message of a refusal.
    pub open spec fn shown(self) -> Seq<char> {
        match self {
            AggregateError::ThresholdNotMet { have, need } => "quorum not met: have "@
                + text::decimal(have as nat) + " of "@ + text::decimal(need as nat)
                + " — the ceremony cannot produce a group signature below the threshold (this is the refusal, not a retry hint)"@,
            AggregateError::Other(e) => "aggregation: "@ + e@,
        }
    }

    /// The message of the refusal.
    pub fn to_string(&self) -> (r: String)
        ensures
            r@ == self.shown(),
    {
        match self {
            AggregateError::ThresholdNotMet { have, need } => join5(
                "quorum not met: have ",
                decimal_text(*have as u64).as_str(),
                " of ",
                decimal_text(*need as u64).as_str(),
                " — the ceremony cannot produce a group signature below the threshold (this is the refusal, not a retry hint)",
            ),
            AggregateError::Other(e) => join2("aggregation: ", e.as_str()),
        }
    }
}

/// The message of a round that failed.
pub fn round_error(round: u64, signer: &str, e: &str) -> (r: String)
    ensures
        r@ == "round "@ + text::decimal(round as nat) + " ("@ + (signer@ + "): "@ + e@),
{
    let tail = join3(signer, "): ", e);
    join4("round ", decimal_text(round).as_str(), " (", tail.as_str())
}

// ---------------------------------------------------------------------------
// Documents
// ---------------------------------------------------------------------------

/// The ids in ascending order, each once.
pub open spec fn id_set(ids: Seq<Seq<char>>) -> Seq<Seq<char>>
    decreases ids.len(),
{
    if ids.len() == 0 {
        Seq::empty()
    } else {
        data::filed::<String>(id_set(ids.drop_last()), ids.last())
    }
}

/// The quorum node: a group of the members, with the group key pinned.
pub open spec fn quorum_node(p: PlanView, public: PublicKeyView) -> DelegationNodeView {
    DelegationNodeView {
        id: p.quorum,
        kind: NodeKindView::ThresholdGroup { threshold: p.threshold, members: id_set(p.members) },
        keys: seq![RegisteredKeyView { key_id: public.key_id, public }],
    }
}

/// The declaration with the group signature as the single slot of its
/// attestation.
pub open spec fn attested(p: PlanView, slot: SignatureSlotView) -> RevocationView {
    RevocationView {
        quorum: Some(
            QuorumAttestationView {
                quorum: p.quorum,
                threshold: p.threshold,
                signatures: seq![slot],
            },
        ),
        ..p.revocation
    }
}

/// The statement that was signed, as the audit trail keeps it.
pub open spec fn statement_doc(p: PlanView, c: CeremonyView) -> JsonView {
    JsonView::object().put("subject"@, wire::subject_value(p.revocation.subject)).put(
        "reason"@,
        wire::reason_value(p.revocation.reason),
    ).put("window"@, wire::interval_value(p.revocation.window)).put(
        "declared_by"@,
        JsonView::Str(p.revocation.declared_by),
    ).put(
        "sha256"@,
        JsonView::object().put("statement_bytes"@, JsonView::Str(c.statement_digest)).put(
            "canonical_payload"@,
            JsonView::Str(c.payload_digest),
        ),
    )
}

/// The audit trail of a ceremony.
pub open spec fn trail_doc(p: PlanView, signers: Seq<Seq<char>>, c: CeremonyView) -> JsonView {
    JsonView::object().put("algorithm"@, c.algorithm).put(
        "threshold"@,
        JsonView::Num(c.threshold as int),
    ).put("members"@, JsonView::Num(c.members as int)).put(
        "group_public"@,
        JsonView::Str(c.group_public),
    ).put("feldman_commitments"@, c.commitments).put(
        "signers"@,
        JsonView::Arr(wire::strings(signers)),
    ).put("statement"@, statement_doc(p, c)).put(
        "seed_note"@,
        JsonView::Str(
            "RealCeremony derives the ceremony seed from the public quorum spec — reproducible for rehearsals and demos, not a production root ceremony (see signatif's confium::real module docs)"@,
        ),
    )
}

/// The documents that a ceremony leaves.
pub open spec fn documents_of(p: PlanView, signers: Seq<Seq<char>>, c: CeremonyView) -> DocumentsView {
    DocumentsView {
        node: wire::node_value(quorum_node(p, c.public)),
        revocation: wire::revocation_value(attested(p, c.slot)),
        ceremony: trail_doc(p, signers, c),
    }
}

fn collect_set(ids: &Vec<String>) -> (r: Vec<String>)
    ensures
        r.deep_view() == id_set(ids.deep_view()),
{
    let ghost d = ids.deep_view();
    let mut out: Vec<String> = Vec::new();
    assert(out.deep_view() =~= id_set(d.take(0)));
    for k in 0..ids.len()
        invariant
            d == ids.deep_view(),
            out.deep_view() == id_set(d.take(k as int)),
    {
        assert(d.take(k + 1).drop_last() =~= d.take(k as int));
        assert(d.take(k + 1).last() == ids@[k as int]@);
        insert_keyed(&mut out, ids[k].clone());
    }
    assert(d.take(d.len() as int) =~= d);
    out
}

fn pin_group_key(p: &Plan, public: &PublicKey) -> (r: DelegationNode)
    ensures
        r@ == quorum_node(p@, public@),
{
    let mut keys: Vec<RegisteredKey> = Vec::new();
    keys.push(RegisteredKey { key_id: public.key_id.clone(), public: public.dup() });
    let node = DelegationNode {
        id: p.quorum.clone(),
        kind: NodeKind::ThresholdGroup {
            threshold: p.threshold,
            members: collect_set(&p.members),
        },
        keys,
    };
    assert(node@.keys =~= quorum_node(p@, public@).keys);
    node
}

fn attest(p: &Plan, slot: &SignatureSlot) -> (r: Revocation)
    ensures
        r@ == attested(p@, slot@),
{
    let mut signatures: Vec<SignatureSlot> = Vec::new();
    signatures.push(slot.dup());
    assert(signatures.deep_view() =~= seq![slot@]);
    let mut revocation = p.revocation.dup();
    revocation.quorum = Some(
        QuorumAttestation { quorum: p.quorum.clone(), threshold: p.threshold, signatures },
    );
    revocation
}

/// The documents that a ceremony leaves: the node registration, the
/// declaration and the audit trail.
pub fn documents(p: &Plan, signers: &Vec<String>, c: &Ceremony) -> (r: Documents)
    ensures
        r@ == documents_of(p@, signers.deep_view(), c@),
{
    let node = node_to_value(&pin_group_key(p, &c.public));
    let revocation = revocation_to_value(&attest(p, &c.slot));
    let statement = Json::object().with(
        "subject",
        revoked_subject_to_value(&p.revocation.subject),
    ).with("reason", reason_to_value(&p.revocation.reason)).with(
        "window",
        interval_to_value(&p.revocation.window),
    ).with("declared_by", Json::text(p.revocation.declared_by.as_str())).with(
        "sha256",
        Json::object().with("statement_bytes", Json::text(c.statement_digest.as_str())).with(
            "canonical_payload",
            Json::text(c.payload_digest.as_str()),
        ),
    );
    let ceremony = Json::object().with("algorithm", c.algorithm.dup()).with(
        "threshold",
        Json::Uint(c.threshold as u64),
    ).with("members", Json::Uint(c.members as u64)).with(
        "group_public",
        Json::text(c.group_public.as_str()),
    ).with("feldman_commitments", c.commitments.dup()).with(
        "signers",
        render_strings(signers),
    ).with("statement", statement).with(
        "seed_note",
        Json::text(
            "RealCeremony derives the ceremony seed from the public quorum spec — reproducible for rehearsals and demos, not a production root ceremony (see signatif's confium::real module docs)",
        ),
    );
    Documents { node, revocation, ceremony }
}

/// How a text is written as a literal.
pub uninterp spec fn quoted_text(s: Seq<char>) -> Seq<char>;

/// Trusted: `format!` with `{:?}` of a `str` gives the text as a literal,
/// which depends on the text alone.
#[verifier::external_body]
fn quoted(s: &str) -> (r: String)
    ensures
        r@ == quoted_text(s@),
{
    format!("{:?}", s)
}

/// The texts as literals with commas between them.
pub open spec fn quoted_list(s: Seq<Seq<char>>) -> Seq<char>
    decreases s.len(),
{
    if s.len() == 0 {
        Seq::empty()
    } else if s.len() == 1 {
        quoted_text(s[0])
    } else {
        quoted_list(s.drop_last()) + ", "@ + quoted_text(s.last())
    }
}

fn quote_all(v: &Vec<String>) -> (r: String)
    ensures
        r@ == quoted_list(v.deep_view()),
{
    let ghost d = v.deep_view();
    let mut out: String = "".to_owned();
    proof {
        reveal_strlit("");
        assert(""@ =~= Seq::<char>::empty());
    }
    assert(d.take(0) =~= Seq::<Seq<char>>::empty());
    for k in 0..v.len()
        invariant
            d == v.deep_view(),
            out@ == quoted_list(d.take(k as int)),
    {
        assert(d.take(k + 1).drop_last() =~= d.take(k as int));
        assert(d.take(k + 1).last() == v@[k as int]@);
        let item = quoted(v[k].as_str());
        out = if k == 0 {
            item
        } else {
            join3(out.as_str(), ", ", item.as_str())
        };
    }
    assert(d.take(d.len() as int) =~= d);
    out
}

/// The report of a completed ceremony.
pub open spec fn report_of(p: PlanView, signers: Seq<Seq<char>>, c: CeremonyView) -> Seq<char> {
    (text::decimal(c.threshold as nat) + "-of-"@ + text::decimal(c.members as nat)
        + " ceremony complete — qualifying set ["@ + quoted_list(signers)) + (
    "] (no member key can sign alone; the group key matches no member)\ngroup public key: "@
        + hex::hex_text(c.public.bytes) + "\nwrote "@ + p.out_dir
        + "/quorum-node.json (POST /nodes — pinning is load-bearing),\n"@) + (p.out_dir
        + "/revocation.json (POST /revocations), "@ + p.out_dir + "/ceremony.json"@)
}

/// The report of a completed ceremony.
pub fn report(p: &Plan, signers: &Vec<String>, c: &Ceremony) -> (r: String)
    ensures
        r@ == report_of(p@, signers.deep_view(), c@),
{
    let head = join5(
        decimal_text(c.threshold as u64).as_str(),
        "-of-",
        decimal_text(c.members as u64).as_str(),
        " ceremony complete — qualifying set [",
        quote_all(signers).as_str(),
    );
    let middle = join5(
        "] (no member key can sign alone; the group key matches no member)\ngroup public key: ",
        hex_encode(c.public.bytes.as_slice()).as_str(),
        "\nwrote ",
        p.out_dir.as_str(),
        "/quorum-node.json (POST /nodes — pinning is load-bearing),\n",
    );
    let tail = join4(
        p.out_dir.as_str(),
        "/revocation.json (POST /revocations), ",
        p.out_dir.as_str(),
        "/ceremony.json",
    );
    join3(head.as_str(), middle.as_str(), tail.as_str())
}

// ---------------------------------------------------------------------------
// Laws
// ---------------------------------------------------------------------------

/// A plan declares a retroactive revocation in the name of the quorum, over
/// at least two members, with no more signers than its threshold.
pub proof fn law_plans_are_retroactive(o: OptionsView, j: JudgementsView)
    ensures
        plan_of(o, j) matches Ok(p) ==> {
            &&& p.revocation.reason.is_retroactive()
            &&& p.revocation.declared_by == p.quorum
            &&& p.revocation.quorum is None
            &&& p.threshold >= 1
            &&& p.members.len() >= 2
            &&& 1 <= o.signers.len() <= p.threshold
        },
{
    lemma_ids_len("--member"@, o.members, j);
}

proof fn lemma_ids_len(flag: Seq<char>, raw: Seq<Seq<char>>, j: JudgementsView)
    ensures
        ids_named(flag, raw, j) matches Ok(v) ==> v.len() == raw.len(),
    decreases raw.len(),
{
    if raw.len() > 0 {
        lemma_ids_len(flag, raw.drop_last(), j);
    }
}

/// Every signer of a qualifying set is a member of the quorum.
pub proof fn law_signers_are_members(o: OptionsView, members: Seq<Seq<char>>, j: JudgementsView)
    ensures
        qualifying_of(o, members, j) matches Ok(ids) ==> forall|i: int|
            0 <= i < ids.len() ==> members.contains(#[trigger] ids[i]),
{
    if let Ok(ids) = qualifying_of(o, members, j) {
        lemma_no_stranger(ids, members);
    }
}

proof fn lemma_no_stranger(ids: Seq<Seq<char>>, members: Seq<Seq<char>>)
    requires
        first_stranger(ids, members) is None,
    ensures
        forall|i: int| 0 <= i < ids.len() ==> members.contains(#[trigger] ids[i]),
    decreases ids.len(),
{
    if ids.len() > 0 {
        lemma_no_stranger(ids.drop_last(), members);
        assert forall|i: int| 0 <= i < ids.len() implies members.contains(#[trigger] ids[i]) by {
            if i < ids.len() - 1 {
                assert(ids[i] == ids.drop_last()[i]);
            }
        }
    }
}

proof fn lemma_key_pushed(keys: Seq<RegisteredKeyView>, k: RegisteredKeyView)
    requires
        quorum::key_among(keys, k.key_id) is None,
    ensures
        quorum::key_among(keys.push(k), k.key_id) == Some(k.public),
    decreases keys.len(),
{
    let all = keys.push(k);
    if keys.len() > 0 {
        assert(all.drop_first() =~= keys.drop_first().push(k));
        lemma_key_pushed(keys.drop_first(), k);
    } else {
        assert(all[0] == k);
    }
}

/// Pinning is what makes a ceremony count: after the node registration is
/// applied, the declaration is quorate in the group form wherever the slot
/// verifies under the group key. (The id of that key must not stand for
/// another key of the quorum node.)
pub proof fn law_documents_certify_each_other(
    s: StoreView,
    p: PlanView,
    c: CeremonyView,
    ruling: RulingView,
    checks: Seq<SlotCheckView>,
)
    requires
        c.slot.key_id == c.public.key_id,
        judge::verifies(checks, 0, c.public.bytes),
        quorum::key_among(quorum::keys_on(s.graph, p.quorum), c.public.key_id) matches Some(k)
            ==> k == c.public,
    ensures
        ({
            let op = OpView::RegisterNode { node: quorum_node(p, c.public) };
            let v = quorum::verdict_of(
                store::after(s, op, ruling).graph,
                attested(p, c.slot).quorum->0,
                checks,
            );
            v.quorate && v.form == QuorumForm::ThresholdGroup
        }),
{
    let node = quorum_node(p, c.public);
    let op = OpView::RegisterNode { node };
    let key = RegisteredKeyView { key_id: c.public.key_id, public: c.public };
    let kept = store::registered(s.graph.nodes, node);
    let g = store::after(s, op, ruling).graph;
    let q = attested(p, c.slot).quorum->0;
    data::lemma_filed_lookup::<DelegationNode>(s.graph.nodes, kept, p.quorum);
    assert(node.keys.drop_last() =~= Seq::<RegisteredKeyView>::empty());
    assert(node.keys.last() == key);
    match data::lookup::<DelegationNode>(s.graph.nodes, p.quorum) {
        None => {
            assert(kept.keys[0] == key);
        },
        Some(old_node) => {
            assert(store::merged_keys(old_node.keys, node.keys.drop_last()) == old_node.keys);
            if quorum::key_among(old_node.keys, key.key_id) is None {
                lemma_key_pushed(old_node.keys, key);
            }
        },
    }
    assert(quorum::keys_on(g, p.quorum) == kept.keys);
    assert(quorum::key_among(kept.keys, c.public.key_id) == Some(c.public));
    assert(quorum::signed_by_group(g, q, checks, 0));
}

} // verus!
