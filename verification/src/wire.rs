//! Wire layer: conversions between the trust model and JSON documents.
//!
//! Public keys always travel as raw bytes in hex (32 bytes for Ed25519,
//! 65 bytes for uncompressed P-256), never as fingerprints, so a verifier
//! pins a key with the same codec that the service reads it with.

use vstd::prelude::*;

use crate::data;
use crate::data::{insert_keyed, find_by_key, Dup};
use crate::hex;
use crate::hex::{hex_decode, hex_encode};
use crate::json::{Json, JsonView};
use crate::judge;
use crate::judge::{slot_verifies, Judgements, JudgementsView, SlotCheck, SlotCheckView};
use crate::model::{Condition, DelegationCredential, DelegationCredentialView, DelegationNode, DelegationNodeView, Interval, MasterList, MasterListEntry, MasterListEntryView, NodeKind, NodeKindView, PublicKey, PublicKeyView, QuorumAttestation, QuorumAttestationView, RegisteredKey, RegisteredKeyView, Revocation, RevocationReason, RevocationReasonView, RevocationView, RevokedSubject, RevokedSubjectView, SignatureSlot, SignatureSlotView, TrustList, TrustListEntryRecord, TrustListEntryRecordView, TrustListView, Witness, WitnessAttestation, WitnessAttestationView, WitnessView};
use crate::text;
use crate::text::{ascii_lower, decimal_text, join2, join3, join4, join5, remove_char, same_text, split_once, trim};
use crate::time;
use crate::time::Timestamp;

verus! {

broadcast use {data::lemma_deep_push, data::lemma_deep_bytes, data::lemma_deep_len};

// ---------------------------------------------------------------------------
// Documents of one kind of value
// ---------------------------------------------------------------------------

/// A value with a wire form.
pub trait Wire: DeepView + Sized {
    /// The document of a value.
    spec fn doc(v: Self::V) -> JsonView;

    /// What a document says, or why it is refused.
    spec fn read(d: JsonView, j: JudgementsView) -> Result<Self::V, Seq<char>>;

    fn to_doc(&self) -> (r: Json)
        ensures
            r@ == Self::doc(self.deep_view()),
    ;

    fn from_doc(d: &Json, j: &Judgements) -> (r: Result<Self, String>)
        ensures
            data::shows(r, Self::read(d@, j@)),
    ;
}

/// The documents of a sequence of values.
pub open spec fn docs<T: Wire>(s: Seq<T::V>) -> Seq<JsonView> {
    Seq::new(s.len(), |i: int| T::doc(s[i]))
}

/// What a sequence of documents says, or why the first bad one is refused.
pub open spec fn read_all<T: Wire>(s: Seq<JsonView>, j: JudgementsView) -> Result<
    Seq<T::V>,
    Seq<char>,
>
    decreases s.len(),
{
    if s.len() == 0 {
        Ok(Seq::empty())
    } else {
        match read_all::<T>(s.drop_last(), j) {
            Err(e) => Err(e),
            Ok(v) => match T::read(s.last(), j) {
                Err(e) => Err(e),
                Ok(x) => Ok(v.push(x)),
            },
        }
    }
}

proof fn lemma_read_all_stops<T: Wire>(s: Seq<JsonView>, j: JudgementsView, k: int)
    requires
        0 <= k <= s.len(),
        read_all::<T>(s.take(k), j) is Err,
    ensures
        read_all::<T>(s, j) == read_all::<T>(s.take(k), j),
    decreases s.len() - k,
{
    if k < s.len() {
        assert(s.take(k + 1).drop_last() =~= s.take(k));
        lemma_read_all_stops::<T>(s, j, k + 1);
    } else {
        assert(s.take(k) =~= s);
    }
}

/// Documents that are each read as a value are read as the values.
pub proof fn lemma_read_all<T: Wire>(s: Seq<JsonView>, j: JudgementsView, v: Seq<T::V>)
    requires
        s.len() == v.len(),
        forall|i: int|
            0 <= i < s.len() ==> #[trigger] T::read(s[i], j) == Ok::<T::V, Seq<char>>(v[i]),
    ensures
        read_all::<T>(s, j) == Ok::<Seq<T::V>, Seq<char>>(v),
    decreases s.len(),
{
    if s.len() > 0 {
        let t = s.drop_last();
        assert forall|i: int| 0 <= i < t.len() implies #[trigger] T::read(t[i], j) == Ok::<
            T::V,
            Seq<char>,
        >(v.drop_last()[i]) by {
            assert(T::read(s[i], j) == Ok::<T::V, Seq<char>>(v[i]));
        }
        lemma_read_all::<T>(t, j, v.drop_last());
        assert(T::read(s[s.len() - 1], j) == Ok::<T::V, Seq<char>>(v[s.len() - 1]));
        assert(v.drop_last().push(v.last()) =~= v);
    } else {
        assert(v =~= Seq::empty());
    }
}

/// Render a sequence of values.
pub fn render_all<T: Wire>(v: &Vec<T>) -> (r: Json)
    ensures
        r@ == JsonView::Arr(docs::<T>(v.deep_view())),
{
    let mut out: Vec<Json> = Vec::new();
    for k in 0..v.len()
        invariant
            out.deep_view() == docs::<T>(v.deep_view().take(k as int)),
    {
        out.push(v[k].to_doc());
        assert(docs::<T>(v.deep_view().take(k + 1)) =~= docs::<T>(
            v.deep_view().take(k as int),
        ).push(T::doc(v@[k as int].deep_view())));
    }
    assert(v.deep_view().take(v@.len() as int) =~= v.deep_view());
    Json::list(out)
}

/// Read a sequence of documents.
pub fn collect<T: Wire>(s: &Vec<Json>, j: &Judgements) -> (r: Result<Vec<T>, String>)
    ensures
        data::shows(r, read_all::<T>(s.deep_view(), j@)),
{
    let ghost d = s.deep_view();
    let mut out: Vec<T> = Vec::new();
    assert(out.deep_view() =~= Seq::<T::V>::empty());
    for k in 0..s.len()
        invariant
            d == s.deep_view(),
            read_all::<T>(d.take(k as int), j@) == Ok::<Seq<T::V>, Seq<char>>(out.deep_view()),
    {
        assert(d.take(k + 1).drop_last() =~= d.take(k as int));
        assert(d.take(k + 1).last() == s@[k as int]@);
        match T::from_doc(&s[k], j) {
            Ok(x) => {
                out.push(x);
            },
            Err(e) => {
                proof {
                    lemma_read_all_stops::<T>(d, j@, k + 1);
                }
                return Err(e);
            },
        }
    }
    assert(d.take(d.len() as int) =~= d);
    Ok(out)
}

/// The reason that a member is missing.
pub open spec fn is_required(name: Seq<char>) -> Seq<char> {
    "`"@ + name + "` is required"@
}

/// A reason, with the member that it is about.
pub open spec fn about(name: Seq<char>, e: Seq<char>) -> Seq<char> {
    "`"@ + name + "`: "@ + e
}

fn missing(name: &str) -> (r: String)
    ensures
        r@ == is_required(name@),
{
    join3("`", name, "` is required")
}

fn blame(name: &str, e: &str) -> (r: String)
    ensures
        r@ == about(name@, e@),
{
    join4("`", name, "`: ", e)
}

// ---------------------------------------------------------------------------
// Public keys and signature slots
// ---------------------------------------------------------------------------

/// A suite name as it is compared: lower case, without hyphens.
pub open spec fn folded(name: Seq<char>) -> Seq<char> {
    text::without(text::lower(name), '-')
}

fn fold(name: &str) -> (r: String)
    ensures
        r@ == folded(name@),
{
    remove_char(ascii_lower(name).as_str(), '-')
}

/// The document of a public key: its suite and its raw bytes in hex.
pub open spec fn public_value(p: PublicKeyView) -> JsonView {
    JsonView::object().put("suite"@, JsonView::Str(p.suite)).put(
        "public"@,
        JsonView::Str(hex::hex_text(p.bytes)),
    ).put("public_len"@, JsonView::Num(p.bytes.len() as int))
}

/// The key that the bytes denote, where the declared suite is theirs.
pub open spec fn key_of_suite(
    suite: Seq<char>,
    bytes: Seq<u8>,
    j: JudgementsView,
    prefix: Seq<char>,
) -> Result<PublicKeyView, Seq<char>> {
    match j.public(bytes) {
        Err(e) => Err(e),
        Ok(p) => if folded(p.suite) == folded(suite) {
            Ok(p)
        } else {
            Err(prefix + suite + "`, bytes are `"@ + p.suite + "`"@)
        },
    }
}

/// The public key that a document declares.
pub open spec fn public_of(d: JsonView, j: JudgementsView) -> Result<PublicKeyView, Seq<char>> {
    if !(d is Obj) {
        Err("public key must be an object"@)
    } else {
        match d.str_at("suite"@) {
            None => Err("public key `suite` is required"@),
            Some(suite) => match d.str_at("public"@) {
                None => Err("public key `public` (hex) is required"@),
                Some(h) => match hex::hex_value(h) {
                    Err(e) => Err(e),
                    Ok(bytes) => key_of_suite(
                        suite,
                        bytes,
                        j,
                        "public key suite mismatch: declared `"@,
                    ),
                },
            },
        }
    }
}

/// Render a public key as `{suite, public, public_len}`.
pub fn public_to_value(public: &PublicKey) -> (r: Json)
    ensures
        r@ == public_value(public@),
{
    Json::object().with("suite", Json::text(public.suite.as_str())).with(
        "public",
        Json::text(hex_encode(public.bytes.as_slice()).as_str()),
    ).with("public_len", Json::Uint(public.bytes.len() as u64))
}

fn key_for_suite(suite: &str, bytes: &Vec<u8>, j: &Judgements, prefix: &str) -> (r: Result<
    PublicKey,
    String,
>)
    ensures
        data::shows(r, key_of_suite(suite@, bytes@, j@, prefix@)),
{
    match j.public(bytes) {
        Err(e) => Err(e),
        Ok(p) => if fold(p.suite.as_str()) == fold(suite) {
            Ok(p)
        } else {
            Err(join5(prefix, suite, "`, bytes are `", p.suite.as_str(), "`"))
        },
    }
}

/// Read a public key; the declared suite must be the one of the bytes.
pub fn public_from_value(v: &Json, j: &Judgements) -> (r: Result<PublicKey, String>)
    ensures
        data::shows(r, public_of(v@, j@)),
{
    if !v.is_object() {
        return Err("public key must be an object".to_owned());
    }
    let suite = match v.str_at("suite") {
        Some(s) => s,
        None => return Err("public key `suite` is required".to_owned()),
    };
    let h = match v.str_at("public") {
        Some(s) => s,
        None => return Err("public key `public` (hex) is required".to_owned()),
    };
    match hex_decode(h) {
        Err(e) => Err(e),
        Ok(bytes) => key_for_suite(
            suite,
            &bytes,
            j,
            "public key suite mismatch: declared `",
        ),
    }
}

/// The public key of raw bytes in hex under a suite token.
pub open spec fn public_of_hex(suite: Seq<char>, h: Seq<char>, j: JudgementsView) -> Result<
    PublicKeyView,
    Seq<char>,
> {
    match hex::hex_value(h) {
        Err(e) => Err(e),
        Ok(bytes) => key_of_suite(suite, bytes, j, "suite mismatch: declared `"@),
    }
}

/// Read raw key bytes in hex under a suite token.
pub fn public_from_hex(suite_token: &str, hex: &str, j: &Judgements) -> (r: Result<
    PublicKey,
    String,
>)
    ensures
        data::shows(r, public_of_hex(suite_token@, hex@, j@)),
{
    match hex_decode(hex) {
        Err(e) => Err(e),
        Ok(bytes) => key_for_suite(suite_token, &bytes, j, "suite mismatch: declared `"),
    }
}

/// The raw bytes of a public key in hex.
pub fn keypair_public_hex(public: &PublicKey) -> (r: String)
    ensures
        r@ == hex::hex_text(public@.bytes),
{
    hex_encode(public.bytes.as_slice())
}

/// The document of a signature slot.
pub open spec fn slot_value(s: SignatureSlotView) -> JsonView {
    JsonView::object().put("suite"@, JsonView::Str(s.suite.name)).put(
        "key_id"@,
        JsonView::Str(s.key_id),
    ).put(
        "signature"@,
        match s.signature {
            Some(b) => JsonView::Str(hex::hex_text(b)),
            None => JsonView::Null,
        },
    )
}

/// The signature that a slot document holds: none, or bytes in hex.
pub open spec fn signature_of(d: JsonView) -> Result<Option<Seq<u8>>, Seq<char>> {
    match d.get("signature"@) {
        None => Ok(None),
        Some(JsonView::Null) => Ok(None),
        Some(JsonView::Str(h)) => match hex::hex_value(h) {
            Ok(b) => Ok(Some(b)),
            Err(e) => Err(about("signature"@, e)),
        },
        Some(_) => Err("`signature` must be a hex string or null"@),
    }
}

/// The signature slot that a document declares.
pub open spec fn slot_of(d: JsonView, j: JudgementsView) -> Result<SignatureSlotView, Seq<char>> {
    if !(d is Obj) {
        Err("signature slot must be an object"@)
    } else {
        match d.str_at("suite"@) {
            None => Err(is_required("suite"@)),
            Some(token) => match d.str_at("key_id"@) {
                None => Err(is_required("key_id"@)),
                Some(raw) => match j.suite(token) {
                    Err(e) => Err(e),
                    Ok(suite) => match j.key(raw) {
                        Err(e) => Err(e),
                        Ok(key_id) => match signature_of(d) {
                            Err(e) => Err(e),
                            Ok(signature) => if signature is Some && signature->0.len()
                                != suite.signature_len {
                                Err(
                                    "signature length "@ + text::decimal(signature->0.len())
                                        + " does not match the "@ + suite.name
                                        + " framing budget "@ + text::decimal(
                                        suite.signature_len as nat,
                                    ),
                                )
                            } else {
                                Ok(SignatureSlotView { suite, key_id, signature })
                            },
                        },
                    },
                },
            },
        }
    }
}

/// Render a signature slot as `{suite, key_id, signature}` with the
/// signature in hex.
pub fn slot_to_value(slot: &SignatureSlot) -> (r: Json)
    ensures
        r@ == slot_value(slot@),
{
    let signature = match &slot.signature {
        Some(s) => Json::text(hex_encode(s.as_slice()).as_str()),
        None => Json::Null,
    };
    Json::object().with("suite", Json::text(slot.suite.name.as_str())).with(
        "key_id",
        Json::text(slot.key_id.as_str()),
    ).with("signature", signature)
}

fn signature_from(v: &Json) -> (r: Result<Option<Vec<u8>>, String>)
    ensures
        data::shows(r, signature_of(v@)),
{
    match v.get("signature") {
        None => Ok(None),
        Some(Json::Null) => Ok(None),
        Some(Json::Str(h)) => match hex_decode(h.as_str()) {
            Ok(b) => Ok(Some(b)),
            Err(e) => Err(blame("signature", e.as_str())),
        },
        Some(_) => Err("`signature` must be a hex string or null".to_owned()),
    }
}

/// Read a signature slot; a signature must have the length of its suite.
pub fn slot_from_value(v: &Json, j: &Judgements) -> (r: Result<SignatureSlot, String>)
    ensures
        data::shows(r, slot_of(v@, j@)),
{
    if !v.is_object() {
        return Err("signature slot must be an object".to_owned());
    }
    let token = match v.str_at("suite") {
        Some(s) => s,
        None => return Err(missing("suite")),
    };
    let raw = match v.str_at("key_id") {
        Some(s) => s,
        None => return Err(missing("key_id")),
    };
    let suite = match j.suite(token) {
        Ok(s) => s,
        Err(e) => return Err(e),
    };
    let key_id = match j.key(raw) {
        Ok(k) => k,
        Err(e) => return Err(e),
    };
    let signature = match signature_from(v) {
        Ok(s) => s,
        Err(e) => return Err(e),
    };
    if let Some(sig) = &signature {
        if sig.len() != suite.signature_len {
            let head = join4(
                "signature length ",
                decimal_text(sig.len() as u64).as_str(),
                " does not match the ",
                suite.name.as_str(),
            );
            return Err(
                join3(
                    head.as_str(),
                    " framing budget ",
                    decimal_text(suite.signature_len as u64).as_str(),
                ),
            );
        }
    }
    Ok(SignatureSlot { suite, key_id, signature })
}

impl Wire for SignatureSlot {
    open spec fn doc(v: SignatureSlotView) -> JsonView {
        slot_value(v)
    }

    open spec fn read(d: JsonView, j: JudgementsView) -> Result<SignatureSlotView, Seq<char>> {
        slot_of(d, j)
    }

    fn to_doc(&self) -> (r: Json) {
        slot_to_value(self)
    }

    fn from_doc(d: &Json, j: &Judgements) -> (r: Result<SignatureSlot, String>) {
        slot_from_value(d, j)
    }
}

// ---------------------------------------------------------------------------
// Revoked subjects (key:k-.. | node:x | passport:urn:..)
// ---------------------------------------------------------------------------

/// The document of a revoked subject.
pub open spec fn subject_value(s: RevokedSubjectView) -> JsonView {
    let base = JsonView::object().put("kind"@, JsonView::Str(s.kind())).put(
        "id"@,
        JsonView::Str(s.id()),
    ).put("label"@, JsonView::Str(s.label()));
    match s {
        RevokedSubjectView::Condition { node, condition } => base.put(
            "node"@,
            JsonView::Str(node),
        ).put("condition"@, condition.doc),
        _ => base,
    }
}

/// The subject of kind `condition` that a document declares.
pub open spec fn condition_subject_of(d: JsonView, j: JudgementsView) -> Result<
    RevokedSubjectView,
    Seq<char>,
> {
    match d.str_at("node"@) {
        None => Err("`node` is required for `condition`"@),
        Some(raw) => match j.node(raw) {
            Err(e) => Err(about("node"@, e)),
            Ok(node) => match d.get("condition"@) {
                None => Err("`condition` (the scope-condition object) is required"@),
                Some(_) => match j.condition_verdict() {
                    Err(e) => Err(about("condition"@, e)),
                    Ok(condition) => Ok(RevokedSubjectView::Condition { node, condition }),
                },
            },
        },
    }
}

/// The key, node or passport that an id denotes.
pub open spec fn simple_subject_of(kind: Seq<char>, id: Seq<char>, j: JudgementsView) -> Option<
    Result<RevokedSubjectView, Seq<char>>,
> {
    if kind == "key"@ {
        Some(
            match j.key(id) {
                Ok(k) => Ok(RevokedSubjectView::Key(k)),
                Err(e) => Err(e),
            },
        )
    } else if kind == "node"@ {
        Some(
            match j.node(id) {
                Ok(n) => Ok(RevokedSubjectView::Node(n)),
                Err(e) => Err(e),
            },
        )
    } else if kind == "passport"@ {
        Some(
            match j.passport(id) {
                Ok(p) => Ok(RevokedSubjectView::Passport(p)),
                Err(e) => Err(about("id"@, e)),
            },
        )
    } else {
        None
    }
}

/// The revoked subject that a document declares.
pub open spec fn subject_of(d: JsonView, j: JudgementsView) -> Result<
    RevokedSubjectView,
    Seq<char>,
> {
    if !(d is Obj) {
        Err("subject must be an object"@)
    } else {
        match d.str_at("kind"@) {
            None => Err(is_required("kind"@)),
            Some(kind) => match d.str_at("id"@) {
                None => Err(is_required("id"@)),
                Some(id) => match simple_subject_of(kind, id, j) {
                    Some(r) => r,
                    None => if kind == "condition"@ {
                        condition_subject_of(d, j)
                    } else {
                        Err(
                            "unknown subject kind `"@ + kind
                                + "` (expected key|node|passport|condition)"@,
                        )
                    },
                },
            },
        }
    }
}

/// The subject that a label denotes; a condition has no label form.
pub open spec fn subject_of_label(s: Seq<char>, j: JudgementsView) -> Result<
    RevokedSubjectView,
    Seq<char>,
> {
    match text::split_at_first(s, ":"@) {
        None => Err("subject `"@ + s + "` must be `kind:id`"@),
        Some((kind, id)) => match simple_subject_of(text::trimmed(kind), id, j) {
            Some(r) => r,
            None => if text::trimmed(kind) == "condition"@ {
                Err(
                    "condition subjects use the structured form (kind: \"condition\", node, condition), not the label form"@,
                )
            } else {
                Err(
                    "unknown subject kind `"@ + text::trimmed(kind)
                        + "` (expected key|node|passport)"@,
                )
            },
        },
    }
}

/// Render a subject as `{kind, id, label}`; a condition also carries its
/// structured form, so reading it never parses the display text.
pub fn revoked_subject_to_value(subject: &RevokedSubject) -> (r: Json)
    ensures
        r@ == subject_value(subject@),
{
    let base = Json::object().with("kind", Json::text(subject.kind())).with(
        "id",
        Json::text(subject.id().as_str()),
    ).with("label", Json::text(subject.label().as_str()));
    match subject {
        RevokedSubject::Condition { node, condition } => base.with(
            "node",
            Json::text(node.as_str()),
        ).with("condition", condition.doc.dup()),
        _ => base,
    }
}

fn simple_subject(kind: &str, id: &str, j: &Judgements) -> (r: Option<
    Result<RevokedSubject, String>,
>)
    ensures
        match (r, simple_subject_of(kind@, id@, j@)) {
            (Some(a), Some(b)) => data::shows(a, b),
            (None, None) => true,
            _ => false,
        },
{
    if same_text(kind, "key") {
        Some(
            match j.key(id) {
                Ok(k) => Ok(RevokedSubject::Key(k)),
                Err(e) => Err(e),
            },
        )
    } else if same_text(kind, "node") {
        Some(
            match j.node(id) {
                Ok(n) => Ok(RevokedSubject::Node(n)),
                Err(e) => Err(e),
            },
        )
    } else if same_text(kind, "passport") {
        Some(
            match j.passport(id) {
                Ok(p) => Ok(RevokedSubject::Passport(p)),
                Err(e) => Err(blame("id", e.as_str())),
            },
        )
    } else {
        None
    }
}

/// Read the canonical `{kind, id}` form of a subject.
pub fn revoked_subject_from_value(v: &Json, j: &Judgements) -> (r: Result<RevokedSubject, String>)
    ensures
        data::shows(r, subject_of(v@, j@)),
{
    if !v.is_object() {
        return Err("subject must be an object".to_owned());
    }
    let kind = match v.str_at("kind") {
        Some(s) => s,
        None => return Err(missing("kind")),
    };
    let id = match v.str_at("id") {
        Some(s) => s,
        None => return Err(missing("id")),
    };
    if let Some(r) = simple_subject(kind, id, j) {
        return r;
    }
    if !same_text(kind, "condition") {
        return Err(
            join3(
                "unknown subject kind `",
                kind,
                "` (expected key|node|passport|condition)",
            ),
        );
    }
    let node = match v.str_at("node") {
        None => return Err("`node` is required for `condition`".to_owned()),
        Some(raw) => match j.node(raw) {
            Ok(n) => n,
            Err(e) => return Err(blame("node", e.as_str())),
        },
    };
    if v.get("condition").is_none() {
        return Err("`condition` (the scope-condition object) is required".to_owned());
    }
    match j.condition_verdict() {
        Ok(condition) => Ok(RevokedSubject::Condition { node, condition }),
        Err(e) => Err(blame("condition", e.as_str())),
    }
}

/// Read the label form `key:k-..` | `node:x` | `passport:urn:..`.
pub fn revoked_subject_from_label(s: &str, j: &Judgements) -> (r: Result<RevokedSubject, String>)
    ensures
        data::shows(r, subject_of_label(s@, j@)),
{
    let (kind_raw, id) = match split_once(s, ":") {
        Some(parts) => parts,
        None => return Err(join3("subject `", s, "` must be `kind:id`")),
    };
    let kind = trim(kind_raw.as_str());
    if let Some(r) = simple_subject(kind.as_str(), id.as_str(), j) {
        return r;
    }
    if same_text(kind.as_str(), "condition") {
        Err(
            "condition subjects use the structured form (kind: \"condition\", node, condition), not the label form".to_owned(),
        )
    } else {
        Err(join3("unknown subject kind `", kind.as_str(), "` (expected key|node|passport)"))
    }
}

// ---------------------------------------------------------------------------
// Instants and windows
// ---------------------------------------------------------------------------

/// The instant that a text denotes, or why it is refused.
pub open spec fn ts_of(raw: Seq<char>) -> Result<Timestamp, Seq<char>> {
    match time::parsed(raw) {
        Some(n) => Ok(Timestamp { secs: n as i64 }),
        None => Err(time::refusal(raw)),
    }
}

/// The canonical text of an instant.
pub open spec fn ts_text(t: Timestamp) -> Seq<char> {
    time::stamp(t.secs as int)
}

/// The canonical text of an instant, or null.
pub open spec fn ts_or_null(t: Option<Timestamp>) -> JsonView {
    match t {
        Some(t) => JsonView::Str(ts_text(t)),
        None => JsonView::Null,
    }
}

pub fn ts_string(t: &Timestamp) -> (r: String)
    ensures
        r@ == ts_text(*t),
{
    t.to_string()
}

pub fn ts_parse(s: &str) -> (r: Result<Timestamp, String>)
    ensures
        data::shows(r, ts_of(s@)),
{
    match Timestamp::parse(s) {
        Ok(t) => Ok(t),
        Err(e) => Err(e.to_string()),
    }
}

/// The canonical text of an instant, or null.
pub fn ts_json(t: &Option<Timestamp>) -> (r: Json)
    ensures
        r@ == ts_or_null(*t),
{
    match t {
        Some(t) => Json::text(ts_string(t).as_str()),
        None => Json::Null,
    }
}

/// The instant of an optional member: absent, null and the empty string
/// are none.
pub open spec fn opt_ts_at(d: JsonView, name: Seq<char>) -> Result<Option<Timestamp>, Seq<char>> {
    match d.get(name) {
        None => Ok(None),
        Some(JsonView::Null) => Ok(None),
        Some(JsonView::Str(s)) => if s.len() == 0 {
            Ok(None)
        } else {
            match ts_of(s) {
                Ok(t) => Ok(Some(t)),
                Err(e) => Err(e),
            }
        },
        Some(_) => Err("`"@ + name + "` must be an RFC 3339 string or null"@),
    }
}

fn opt_ts(v: &Json, name: &str) -> (r: Result<Option<Timestamp>, String>)
    ensures
        data::shows(r, opt_ts_at(v@, name@)),
{
    match v.get(name) {
        None => Ok(None),
        Some(Json::Null) => Ok(None),
        Some(Json::Str(s)) => if s.as_str().is_empty() {
            Ok(None)
        } else {
            match ts_parse(s.as_str()) {
                Ok(t) => Ok(Some(t)),
                Err(e) => Err(e),
            }
        },
        Some(_) => Err(join3("`", name, "` must be an RFC 3339 string or null")),
    }
}

/// The document of a window.
pub open spec fn interval_value(i: Interval) -> JsonView {
    JsonView::object().put("start"@, JsonView::Str(ts_text(i.from))).put(
        "end"@,
        ts_or_null(i.to),
    ).put("open"@, JsonView::Bool(i.to is None))
}

/// The window that a document declares: an end must not come before the
/// start.
pub open spec fn interval_of(d: JsonView) -> Result<Interval, Seq<char>> {
    if !(d is Obj) {
        Err("interval must be an object"@)
    } else {
        match d.str_at("start"@) {
            None => Err(is_required("start"@)),
            Some(raw) => match ts_of(raw) {
                Err(e) => Err(e),
                Ok(from) => match opt_ts_at(d, "end"@) {
                    Err(e) => Err(e),
                    Ok(to) => if to is Some && to->0.secs < from.secs {
                        Err(
                            "window end "@ + ts_text(to->0) + " is before start "@ + ts_text(from),
                        )
                    } else {
                        Ok(Interval { from, to })
                    },
                },
            },
        }
    }
}

/// Render a window as `{start, end, open}`.
pub fn interval_to_value(i: &Interval) -> (r: Json)
    ensures
        r@ == interval_value(*i),
{
    Json::object().with("start", Json::text(ts_string(&i.from).as_str())).with(
        "end",
        ts_json(&i.to),
    ).with("open", Json::Bool(i.to.is_none()))
}

/// Read a window.
pub fn interval_from_value(v: &Json) -> (r: Result<Interval, String>)
    ensures
        data::shows(r, interval_of(v@)),
{
    if !v.is_object() {
        return Err("interval must be an object".to_owned());
    }
    let from = match v.str_at("start") {
        None => return Err(missing("start")),
        Some(raw) => match ts_parse(raw) {
            Ok(t) => t,
            Err(e) => return Err(e),
        },
    };
    let to = match opt_ts(v, "end") {
        Ok(t) => t,
        Err(e) => return Err(e),
    };
    if let Some(t) = to {
        if t.secs < from.secs {
            return Err(
                join4(
                    "window end ",
                    ts_string(&t).as_str(),
                    " is before start ",
                    ts_string(&from).as_str(),
                ),
            );
        }
    }
    Ok(Interval { from, to })
}

// ---------------------------------------------------------------------------
// Revocation reasons
// ---------------------------------------------------------------------------

/// The document of a reason: its token, whether it is retroactive, and
/// its parameter.
pub open spec fn reason_value(r: RevocationReasonView) -> JsonView {
    let base = JsonView::object().put("token"@, JsonView::Str(r.token())).put(
        "retroactive"@,
        JsonView::Bool(r.is_retroactive()),
    );
    match r {
        RevocationReasonView::KeyCompromise { after } => base.put(
            "after"@,
            JsonView::Str(ts_text(after)),
        ),
        RevocationReasonView::AuthorityCompromised { detected_at } => base.put(
            "detected_at"@,
            JsonView::Str(ts_text(detected_at)),
        ),
        RevocationReasonView::Supersession { by } => base.put("by"@, JsonView::Str(by)),
        _ => base,
    }
}

/// The instant that a reason of that token must carry.
pub open spec fn reason_ts(d: JsonView, name: Seq<char>, token: Seq<char>) -> Result<
    Timestamp,
    Seq<char>,
> {
    match d.str_at(name) {
        None => Err("`"@ + name + "` is required for `"@ + token + "`"@),
        Some(raw) => match ts_of(raw) {
            Ok(t) => Ok(t),
            Err(e) => Err(about(name, e)),
        },
    }
}

/// The reason that a document declares.
pub open spec fn reason_of(d: JsonView, j: JudgementsView) -> Result<
    RevocationReasonView,
    Seq<char>,
> {
    if !(d is Obj) {
        Err("reason must be an object"@)
    } else {
        match d.str_at("token"@) {
            None => Err(is_required("token"@)),
            Some(token) => if token == "key-compromise"@ {
                match reason_ts(d, "after"@, token) {
                    Ok(after) => Ok(RevocationReasonView::KeyCompromise { after }),
                    Err(e) => Err(e),
                }
            } else if token == "cessation"@ {
                Ok(RevocationReasonView::Cessation)
            } else if token == "supersession"@ {
                match d.str_at("by"@) {
                    None => Err("`by` is required for `supersession`"@),
                    Some(raw) => match j.node(raw) {
                        Ok(by) => Ok(RevocationReasonView::Supersession { by }),
                        Err(e) => Err(about("by"@, e)),
                    },
                }
            } else if token == "affiliation-change"@ {
                Ok(RevocationReasonView::AffiliationChange)
            } else if token == "misissuance"@ {
                Ok(RevocationReasonView::Misissuance)
            } else if token == "fraudulent-issuance"@ {
                Ok(RevocationReasonView::FraudulentIssuance)
            } else if token == "authority-compromised"@ {
                match reason_ts(d, "detected_at"@, token) {
                    Ok(detected_at) => Ok(
                        RevocationReasonView::AuthorityCompromised { detected_at },
                    ),
                    Err(e) => Err(e),
                }
            } else if token == "condition-withdrawal"@ {
                Ok(RevocationReasonView::ConditionWithdrawal)
            } else {
                Err("unknown reason token `"@ + token + "`"@)
            },
        }
    }
}

/// Render a reason as `{token, retroactive, ..}`.
pub fn reason_to_value(reason: &RevocationReason) -> (r: Json)
    ensures
        r@ == reason_value(reason@),
{
    let base = Json::object().with("token", Json::text(reason.token())).with(
        "retroactive",
        Json::Bool(reason.is_retroactive()),
    );
    match reason {
        RevocationReason::KeyCompromise { after } => base.with(
            "after",
            Json::text(ts_string(after).as_str()),
        ),
        RevocationReason::AuthorityCompromised { detected_at } => base.with(
            "detected_at",
            Json::text(ts_string(detected_at).as_str()),
        ),
        RevocationReason::Supersession { by } => base.with("by", Json::text(by.as_str())),
        _ => base,
    }
}

fn reason_instant(v: &Json, name: &str, token: &str) -> (r: Result<Timestamp, String>)
    ensures
        data::shows(r, reason_ts(v@, name@, token@)),
{
    match v.str_at(name) {
        None => Err(join5("`", name, "` is required for `", token, "`")),
        Some(raw) => match ts_parse(raw) {
            Ok(t) => Ok(t),
            Err(e) => Err(blame(name, e.as_str())),
        },
    }
}

/// Read a `{token, after/detected_at/by}` document.
pub fn reason_from_value(v: &Json, j: &Judgements) -> (r: Result<RevocationReason, String>)
    ensures
        data::shows(r, reason_of(v@, j@)),
{
    if !v.is_object() {
        return Err("reason must be an object".to_owned());
    }
    let token = match v.str_at("token") {
        Some(t) => t,
        None => return Err(missing("token")),
    };
    if same_text(token, "key-compromise") {
        match reason_instant(v, "after", token) {
            Ok(after) => Ok(RevocationReason::KeyCompromise { after }),
            Err(e) => Err(e),
        }
    } else if same_text(token, "cessation") {
        Ok(RevocationReason::Cessation)
    } else if same_text(token, "supersession") {
        match v.str_at("by") {
            None => Err("`by` is required for `supersession`".to_owned()),
            Some(raw) => match j.node(raw) {
                Ok(by) => Ok(RevocationReason::Supersession { by }),
                Err(e) => Err(blame("by", e.as_str())),
            },
        }
    } else if same_text(token, "affiliation-change") {
        Ok(RevocationReason::AffiliationChange)
    } else if same_text(token, "misissuance") {
        Ok(RevocationReason::Misissuance)
    } else if same_text(token, "fraudulent-issuance") {
        Ok(RevocationReason::FraudulentIssuance)
    } else if same_text(token, "authority-compromised") {
        match reason_instant(v, "detected_at", token) {
            Ok(detected_at) => Ok(RevocationReason::AuthorityCompromised { detected_at }),
            Err(e) => Err(e),
        }
    } else if same_text(token, "condition-withdrawal") {
        Ok(RevocationReason::ConditionWithdrawal)
    } else {
        Err(join3("unknown reason token `", token, "`"))
    }
}

// ---------------------------------------------------------------------------
// Quorum attestations and revocations
// ---------------------------------------------------------------------------

/// The document of a quorum attestation.
pub open spec fn quorum_value(q: QuorumAttestationView) -> JsonView {
    JsonView::object().put("quorum"@, JsonView::Str(q.quorum)).put(
        "threshold"@,
        JsonView::Num(q.threshold as int),
    ).put("signatures"@, JsonView::Arr(docs::<SignatureSlot>(q.signatures)))
}

/// The quorum attestation that a document declares.
pub open spec fn quorum_of(d: JsonView, j: JudgementsView) -> Result<
    QuorumAttestationView,
    Seq<char>,
> {
    if !(d is Obj) {
        Err("quorum attestation must be an object"@)
    } else {
        match d.str_at("quorum"@) {
            None => Err(is_required("quorum"@)),
            Some(raw) => match j.node(raw) {
                Err(e) => Err(about("quorum"@, e)),
                Ok(quorum) => match d.u64_at("threshold"@) {
                    None => Err("`threshold` (number) is required"@),
                    Some(n) => match d.array_at("signatures"@) {
                        None => Err("`signatures` array is required"@),
                        Some(s) => match read_all::<SignatureSlot>(s, j) {
                            Err(e) => Err(e),
                            Ok(signatures) => Ok(
                                QuorumAttestationView {
                                    quorum,
                                    threshold: n as usize,
                                    signatures,
                                },
                            ),
                        },
                    },
                },
            },
        }
    }
}

pub fn quorum_to_value(q: &QuorumAttestation) -> (r: Json)
    ensures
        r@ == quorum_value(q@),
{
    Json::object().with("quorum", Json::text(q.quorum.as_str())).with(
        "threshold",
        Json::Uint(q.threshold as u64),
    ).with("signatures", render_all(&q.signatures))
}

pub fn quorum_from_value(v: &Json, j: &Judgements) -> (r: Result<QuorumAttestation, String>)
    ensures
        data::shows(r, quorum_of(v@, j@)),
{
    if !v.is_object() {
        return Err("quorum attestation must be an object".to_owned());
    }
    let quorum = match v.str_at("quorum") {
        None => return Err(missing("quorum")),
        Some(raw) => match j.node(raw) {
            Ok(n) => n,
            Err(e) => return Err(blame("quorum", e.as_str())),
        },
    };
    let threshold: u64 = match v.u64_at("threshold") {
        Some(n) => n,
        None => return Err("`threshold` (number) is required".to_owned()),
    };
    let items = match v.array_at("signatures") {
        Some(a) => a,
        None => return Err("`signatures` array is required".to_owned()),
    };
    match collect::<SignatureSlot>(items, j) {
        Ok(signatures) => Ok(
            QuorumAttestation { quorum, threshold: threshold as usize, signatures },
        ),
        Err(e) => Err(e),
    }
}

/// The document of a revocation.
pub open spec fn revocation_value(r: RevocationView) -> JsonView {
    JsonView::object().put("subject"@, subject_value(r.subject)).put(
        "reason"@,
        reason_value(r.reason),
    ).put("declared_at"@, JsonView::Str(ts_text(r.declared_at))).put(
        "declared_by"@,
        JsonView::Str(r.declared_by),
    ).put("window"@, interval_value(r.window)).put(
        "quorum"@,
        match r.quorum {
            Some(q) => quorum_value(q),
            None => JsonView::Null,
        },
    )
}

/// The attestation that a revocation document carries, if any.
pub open spec fn opt_quorum_of(d: JsonView, j: JudgementsView) -> Result<
    Option<QuorumAttestationView>,
    Seq<char>,
> {
    match d.get("quorum"@) {
        None => Ok(None),
        Some(JsonView::Null) => Ok(None),
        Some(q) => match quorum_of(q, j) {
            Ok(q) => Ok(Some(q)),
            Err(e) => Err(e),
        },
    }
}

/// The declaring node and the window of a revocation document.
pub open spec fn declaration_of(d: JsonView, j: JudgementsView) -> Result<
    (Timestamp, Seq<char>, Interval),
    Seq<char>,
> {
    match d.str_at("declared_at"@) {
        None => Err("`declared_at` (RFC 3339) is required"@),
        Some(raw) => match ts_of(raw) {
            Err(e) => Err(e),
            Ok(declared_at) => match d.str_at("declared_by"@) {
                None => Err(is_required("declared_by"@)),
                Some(by) => match j.node(by) {
                    Err(e) => Err(about("declared_by"@, e)),
                    Ok(declared_by) => match d.get("window"@) {
                        None => Err(is_required("window"@)),
                        Some(w) => match interval_of(w) {
                            Err(e) => Err(e),
                            Ok(window) => Ok((declared_at, declared_by, window)),
                        },
                    },
                },
            },
        },
    }
}

/// The revocation that a document declares.
pub open spec fn revocation_of(d: JsonView, j: JudgementsView) -> Result<
    RevocationView,
    Seq<char>,
> {
    if !(d is Obj) {
        Err("revocation must be an object"@)
    } else {
        match d.get("subject"@) {
            None => Err(is_required("subject"@)),
            Some(s) => match subject_of(s, j) {
                Err(e) => Err(e),
                Ok(subject) => match d.get("reason"@) {
                    None => Err(is_required("reason"@)),
                    Some(r) => match reason_of(r, j) {
                        Err(e) => Err(e),
                        Ok(reason) => match declaration_of(d, j) {
                            Err(e) => Err(e),
                            Ok((declared_at, declared_by, window)) => match opt_quorum_of(d, j) {
                                Err(e) => Err(e),
                                Ok(quorum) => Ok(
                                    RevocationView {
                                        subject,
                                        reason,
                                        declared_at,
                                        window,
                                        declared_by,
                                        quorum,
                                    },
                                ),
                            },
                        },
                    },
                },
            },
        }
    }
}

pub fn revocation_to_value(r: &Revocation) -> (d: Json)
    ensures
        d@ == revocation_value(r@),
{
    let quorum = match &r.quorum {
        Some(q) => quorum_to_value(q),
        None => Json::Null,
    };
    Json::object().with("subject", revoked_subject_to_value(&r.subject)).with(
        "reason",
        reason_to_value(&r.reason),
    ).with("declared_at", Json::text(ts_string(&r.declared_at).as_str())).with(
        "declared_by",
        Json::text(r.declared_by.as_str()),
    ).with("window", interval_to_value(&r.window)).with("quorum", quorum)
}

pub fn revocation_from_value(v: &Json, j: &Judgements) -> (r: Result<Revocation, String>)
    ensures
        data::shows(r, revocation_of(v@, j@)),
{
    if !v.is_object() {
        return Err("revocation must be an object".to_owned());
    }
    let subject = match v.get("subject") {
        None => return Err(missing("subject")),
        Some(s) => match revoked_subject_from_value(s, j) {
            Ok(s) => s,
            Err(e) => return Err(e),
        },
    };
    let reason = match v.get("reason") {
        None => return Err(missing("reason")),
        Some(s) => match reason_from_value(s, j) {
            Ok(s) => s,
            Err(e) => return Err(e),
        },
    };
    let declared_at = match v.str_at("declared_at") {
        None => return Err("`declared_at` (RFC 3339) is required".to_owned()),
        Some(raw) => match ts_parse(raw) {
            Ok(t) => t,
            Err(e) => return Err(e),
        },
    };
    let declared_by = match v.str_at("declared_by") {
        None => return Err(missing("declared_by")),
        Some(raw) => match j.node(raw) {
            Ok(n) => n,
            Err(e) => return Err(blame("declared_by", e.as_str())),
        },
    };
    let window = match v.get("window") {
        None => return Err(missing("window")),
        Some(w) => match interval_from_value(w) {
            Ok(w) => w,
            Err(e) => return Err(e),
        },
    };
    let quorum = match v.get("quorum") {
        None => None,
        Some(q) => if q.is_null() {
            None
        } else {
            match quorum_from_value(q, j) {
                Ok(q) => Some(q),
                Err(e) => return Err(e),
            }
        },
    };
    Ok(Revocation { subject, reason, declared_at, window, declared_by, quorum })
}

// ---------------------------------------------------------------------------
// The delegation graph: nodes and edges
// ---------------------------------------------------------------------------

/// Strings as documents.
pub open spec fn strings(s: Seq<Seq<char>>) -> Seq<JsonView> {
    Seq::new(s.len(), |i: int| JsonView::Str(s[i]))
}

/// Render strings.
pub fn render_strings(v: &Vec<String>) -> (r: Json)
    ensures
        r@ == JsonView::Arr(strings(v.deep_view())),
{
    let mut out: Vec<Json> = Vec::new();
    for k in 0..v.len()
        invariant
            out.deep_view() == strings(v.deep_view().take(k as int)),
    {
        out.push(Json::text(v[k].as_str()));
        assert(strings(v.deep_view().take(k + 1)) =~= strings(v.deep_view().take(k as int)).push(
            JsonView::Str(v@[k as int]@),
        ));
    }
    assert(v.deep_view().take(v@.len() as int) =~= v.deep_view());
    Json::list(out)
}

/// The document of a node kind.
pub open spec fn node_kind_value(k: NodeKindView) -> JsonView {
    match k {
        NodeKindView::Root => JsonView::Str("root"@),
        NodeKindView::Delegated => JsonView::Str("delegated"@),
        NodeKindView::End => JsonView::Str("end"@),
        NodeKindView::ThresholdGroup { threshold, members } => JsonView::object().put(
            "threshold_group"@,
            JsonView::object().put("threshold"@, JsonView::Num(threshold as int)).put(
                "members"@,
                JsonView::Arr(strings(members)),
            ),
        ),
    }
}

/// The node id that a member of a group names.
pub open spec fn member_of(d: JsonView, j: JudgementsView) -> Result<Seq<char>, Seq<char>> {
    match d.as_str() {
        None => Err("members must be node-id strings"@),
        Some(raw) => j.node(raw),
    }
}

/// The members that a list names, in ascending order and each once.
pub open spec fn members_of(s: Seq<JsonView>, j: JudgementsView) -> Result<
    Seq<Seq<char>>,
    Seq<char>,
>
    decreases s.len(),
{
    if s.len() == 0 {
        Ok(Seq::empty())
    } else {
        match members_of(s.drop_last(), j) {
            Err(e) => Err(e),
            Ok(v) => match member_of(s.last(), j) {
                Err(e) => Err(e),
                Ok(id) => Ok(data::filed::<String>(v, id)),
            },
        }
    }
}

/// The node kind that a document declares.
pub open spec fn node_kind_of(d: JsonView, j: JudgementsView) -> Result<NodeKindView, Seq<char>> {
    match d {
        JsonView::Str(s) => if s == "root"@ {
            Ok(NodeKindView::Root)
        } else if s == "delegated"@ {
            Ok(NodeKindView::Delegated)
        } else if s == "end"@ {
            Ok(NodeKindView::End)
        } else {
            Err("unknown node kind `"@ + s + "`"@)
        },
        JsonView::Obj(_) => match d.get("threshold_group"@) {
            Some(JsonView::Obj(m)) => match JsonView::Obj(m).u64_at("threshold"@) {
                None => Err(is_required("threshold_group.threshold"@)),
                Some(n) => match JsonView::Obj(m).array_at("members"@) {
                    None => Err("`threshold_group.members` array is required"@),
                    Some(items) => match members_of(items, j) {
                        Err(e) => Err(e),
                        Ok(members) => Ok(
                            NodeKindView::ThresholdGroup { threshold: n as usize, members },
                        ),
                    },
                },
            },
            _ => Err("`threshold_group` object is required"@),
        },
        _ => Err("node kind must be a string or object"@),
    }
}

pub fn node_kind_to_value(kind: &NodeKind) -> (r: Json)
    ensures
        r@ == node_kind_value(kind@),
{
    match kind {
        NodeKind::Root => Json::text("root"),
        NodeKind::Delegated => Json::text("delegated"),
        NodeKind::End => Json::text("end"),
        NodeKind::ThresholdGroup { threshold, members } => Json::object().with(
            "threshold_group",
            Json::object().with("threshold", Json::Uint(*threshold as u64)).with(
                "members",
                render_strings(members),
            ),
        ),
    }
}

proof fn lemma_members_stop(s: Seq<JsonView>, j: JudgementsView, k: int)
    requires
        0 <= k <= s.len(),
        members_of(s.take(k), j) is Err,
    ensures
        members_of(s, j) == members_of(s.take(k), j),
    decreases s.len() - k,
{
    if k < s.len() {
        assert(s.take(k + 1).drop_last() =~= s.take(k));
        lemma_members_stop(s, j, k + 1);
    } else {
        assert(s.take(k) =~= s);
    }
}

fn members_from(s: &Vec<Json>, j: &Judgements) -> (r: Result<Vec<String>, String>)
    ensures
        data::shows(r, members_of(s.deep_view(), j@)),
{
    let ghost d = s.deep_view();
    let mut out: Vec<String> = Vec::new();
    assert(out.deep_view() =~= Seq::<Seq<char>>::empty());
    for k in 0..s.len()
        invariant
            d == s.deep_view(),
            members_of(d.take(k as int), j@) == Ok::<Seq<Seq<char>>, Seq<char>>(out.deep_view()),
    {
        assert(d.take(k + 1).drop_last() =~= d.take(k as int));
        assert(d.take(k + 1).last() == s@[k as int]@);
        let member = match s[k].as_str() {
            None => Err("members must be node-id strings".to_owned()),
            Some(raw) => j.node(raw),
        };
        match member {
            Ok(id) => {
                insert_keyed(&mut out, id);
            },
            Err(e) => {
                proof {
                    lemma_members_stop(d, j@, k + 1);
                }
                return Err(e);
            },
        }
    }
    assert(d.take(d.len() as int) =~= d);
    Ok(out)
}

pub fn node_kind_from_value(v: &Json, j: &Judgements) -> (r: Result<NodeKind, String>)
    ensures
        data::shows(r, node_kind_of(v@, j@)),
{
    match v {
        Json::Str(s) => if same_text(s.as_str(), "root") {
            Ok(NodeKind::Root)
        } else if same_text(s.as_str(), "delegated") {
            Ok(NodeKind::Delegated)
        } else if same_text(s.as_str(), "end") {
            Ok(NodeKind::End)
        } else {
            Err(join3("unknown node kind `", s.as_str(), "`"))
        },
        Json::Obj(_) => {
            let g = match v.get("threshold_group") {
                Some(g) => if g.is_object() {
                    g
                } else {
                    return Err("`threshold_group` object is required".to_owned());
                },
                None => return Err("`threshold_group` object is required".to_owned()),
            };
            let threshold: u64 = match g.u64_at("threshold") {
                Some(n) => n,
                None => return Err(missing("threshold_group.threshold")),
            };
            let items = match g.array_at("members") {
                Some(a) => a,
                None => return Err("`threshold_group.members` array is required".to_owned()),
            };
            match members_from(items, j) {
                Ok(members) => Ok(
                    NodeKind::ThresholdGroup { threshold: threshold as usize, members },
                ),
                Err(e) => Err(e),
            }
        },
        _ => Err("node kind must be a string or object".to_owned()),
    }
}

/// The document of a registered key.
pub open spec fn registered_value(k: RegisteredKeyView) -> JsonView {
    JsonView::object().put("key_id"@, JsonView::Str(k.key_id)).put(
        "suite"@,
        JsonView::Str(k.public.suite),
    ).put("public"@, JsonView::Str(hex::hex_text(k.public.bytes))).put(
        "public_len"@,
        JsonView::Num(k.public.bytes.len() as int),
    )
}

/// The registered key that a document declares; its id must be the one of
/// the key.
pub open spec fn registered_of(d: JsonView, j: JudgementsView) -> Result<
    RegisteredKeyView,
    Seq<char>,
> {
    if !(d is Obj) {
        Err("`keys[].key_id` must be an object"@)
    } else {
        match d.str_at("key_id"@) {
            None => Err(is_required("key_id"@)),
            Some(raw) => match j.key(raw) {
                Err(e) => Err(about("key_id"@, e)),
                Ok(key_id) => match public_of(d, j) {
                    Err(e) => Err(e),
                    Ok(public) => if key_id == public.key_id {
                        Ok(RegisteredKeyView { key_id, public })
                    } else {
                        Err(
                            "`key_id` `"@ + key_id
                                + "` does not match the declared public key"@,
                        )
                    },
                },
            },
        }
    }
}

impl Wire for RegisteredKey {
    open spec fn doc(v: RegisteredKeyView) -> JsonView {
        registered_value(v)
    }

    open spec fn read(d: JsonView, j: JudgementsView) -> Result<RegisteredKeyView, Seq<char>> {
        registered_of(d, j)
    }

    fn to_doc(&self) -> (r: Json) {
        Json::object().with("key_id", Json::text(self.key_id.as_str())).with(
            "suite",
            Json::text(self.public.suite.as_str()),
        ).with(
            "public",
            Json::text(hex_encode(self.public.bytes.as_slice()).as_str()),
        ).with("public_len", Json::Uint(self.public.bytes.len() as u64))
    }

    fn from_doc(d: &Json, j: &Judgements) -> (r: Result<RegisteredKey, String>) {
        if !d.is_object() {
            return Err("`keys[].key_id` must be an object".to_owned());
        }
        let key_id = match d.str_at("key_id") {
            None => return Err(missing("key_id")),
            Some(raw) => match j.key(raw) {
                Ok(k) => k,
                Err(e) => return Err(blame("key_id", e.as_str())),
            },
        };
        let public = match public_from_value(d, j) {
            Ok(p) => p,
            Err(e) => return Err(e),
        };
        if key_id != public.key_id {
            return Err(
                join3(
                    "`key_id` `",
                    key_id.as_str(),
                    "` does not match the declared public key",
                ),
            );
        }
        Ok(RegisteredKey { key_id, public })
    }
}

/// The document of a node.
pub open spec fn node_value(n: DelegationNodeView) -> JsonView {
    JsonView::object().put("id"@, JsonView::Str(n.id)).put("kind"@, node_kind_value(n.kind)).put(
        "keys"@,
        JsonView::Arr(docs::<RegisteredKey>(n.keys)),
    )
}

/// The node that a document declares; the keys may be left out.
pub open spec fn node_of(d: JsonView, j: JudgementsView) -> Result<
    DelegationNodeView,
    Seq<char>,
> {
    if !(d is Obj) {
        Err("node must be an object"@)
    } else {
        match d.str_at("id"@) {
            None => Err(is_required("id"@)),
            Some(raw) => match j.node(raw) {
                Err(e) => Err(about("id"@, e)),
                Ok(id) => match d.get("kind"@) {
                    None => Err(is_required("kind"@)),
                    Some(k) => match node_kind_of(k, j) {
                        Err(e) => Err(e),
                        Ok(kind) => match d.array_at("keys"@) {
                            None => Ok(DelegationNodeView { id, kind, keys: Seq::empty() }),
                            Some(items) => match read_all::<RegisteredKey>(items, j) {
                                Err(e) => Err(e),
                                Ok(keys) => Ok(DelegationNodeView { id, kind, keys }),
                            },
                        },
                    },
                },
            },
        }
    }
}

pub fn node_to_value(node: &DelegationNode) -> (r: Json)
    ensures
        r@ == node_value(node@),
{
    Json::object().with("id", Json::text(node.id.as_str())).with(
        "kind",
        node_kind_to_value(&node.kind),
    ).with("keys", render_all(&node.keys))
}

pub fn node_from_value(v: &Json, j: &Judgements) -> (r: Result<DelegationNode, String>)
    ensures
        data::shows(r, node_of(v@, j@)),
{
    if !v.is_object() {
        return Err("node must be an object".to_owned());
    }
    let id = match v.str_at("id") {
        None => return Err(missing("id")),
        Some(raw) => match j.node(raw) {
            Ok(n) => n,
            Err(e) => return Err(blame("id", e.as_str())),
        },
    };
    let kind = match v.get("kind") {
        None => return Err(missing("kind")),
        Some(k) => match node_kind_from_value(k, j) {
            Ok(k) => k,
            Err(e) => return Err(e),
        },
    };
    match v.array_at("keys") {
        None => {
            let keys: Vec<RegisteredKey> = Vec::new();
            assert(keys.deep_view() =~= Seq::<RegisteredKeyView>::empty());
            Ok(DelegationNode { id, kind, keys })
        },
        Some(items) => match collect::<RegisteredKey>(items, j) {
            Ok(keys) => Ok(DelegationNode { id, kind, keys }),
            Err(e) => Err(e),
        },
    }
}

impl Wire for DelegationNode {
    open spec fn doc(v: DelegationNodeView) -> JsonView {
        node_value(v)
    }

    open spec fn read(d: JsonView, j: JudgementsView) -> Result<DelegationNodeView, Seq<char>> {
        node_of(d, j)
    }

    fn to_doc(&self) -> (r: Json) {
        node_to_value(self)
    }

    fn from_doc(d: &Json, j: &Judgements) -> (r: Result<DelegationNode, String>) {
        node_from_value(d, j)
    }
}

/// The document of a delegation credential.
pub open spec fn edge_value(c: DelegationCredentialView) -> JsonView {
    JsonView::object().put("parent"@, JsonView::Str(c.parent)).put(
        "child"@,
        JsonView::Str(c.child),
    ).put("scope"@, c.scope).put("signatures"@, JsonView::Arr(docs::<SignatureSlot>(c.signatures)))
}

/// The node id of a required member.
pub open spec fn node_at(d: JsonView, name: Seq<char>, j: JudgementsView) -> Result<
    Seq<char>,
    Seq<char>,
> {
    match d.str_at(name) {
        None => Err(is_required(name)),
        Some(raw) => match j.node(raw) {
            Ok(n) => Ok(n),
            Err(e) => Err(about(name, e)),
        },
    }
}

fn node_member(v: &Json, name: &str, j: &Judgements) -> (r: Result<String, String>)
    ensures
        data::shows(r, node_at(v@, name@, j@)),
{
    match v.str_at(name) {
        None => Err(missing(name)),
        Some(raw) => match j.node(raw) {
            Ok(n) => Ok(n),
            Err(e) => Err(blame(name, e.as_str())),
        },
    }
}

/// The delegation credential that a document declares.
pub open spec fn edge_of(d: JsonView, j: JudgementsView) -> Result<
    DelegationCredentialView,
    Seq<char>,
> {
    if !(d is Obj) {
        Err("edge must be an object"@)
    } else {
        match node_at(d, "parent"@, j) {
            Err(e) => Err(e),
            Ok(parent) => match node_at(d, "child"@, j) {
                Err(e) => Err(e),
                Ok(child) => if d.get("scope"@) is None {
                    Err(is_required("scope"@))
                } else {
                    match j.scope_verdict() {
                        Err(e) => Err(about("scope"@, e)),
                        Ok(scope) => match d.array_at("signatures"@) {
                            None => Err("`signatures` array is required"@),
                            Some(items) => match read_all::<SignatureSlot>(items, j) {
                                Err(e) => Err(e),
                                Ok(signatures) => Ok(
                                    DelegationCredentialView { parent, child, scope, signatures },
                                ),
                            },
                        },
                    }
                },
            },
        }
    }
}

pub fn edge_to_value(c: &DelegationCredential) -> (r: Json)
    ensures
        r@ == edge_value(c@),
{
    Json::object().with("parent", Json::text(c.parent.as_str())).with(
        "child",
        Json::text(c.child.as_str()),
    ).with("scope", c.scope.dup()).with("signatures", render_all(&c.signatures))
}

pub fn edge_from_value(v: &Json, j: &Judgements) -> (r: Result<DelegationCredential, String>)
    ensures
        data::shows(r, edge_of(v@, j@)),
{
    if !v.is_object() {
        return Err("edge must be an object".to_owned());
    }
    let parent = match node_member(v, "parent", j) {
        Ok(n) => n,
        Err(e) => return Err(e),
    };
    let child = match node_member(v, "child", j) {
        Ok(n) => n,
        Err(e) => return Err(e),
    };
    if v.get("scope").is_none() {
        return Err(missing("scope"));
    }
    let scope = match j.scope_verdict() {
        Ok(s) => s,
        Err(e) => return Err(blame("scope", e.as_str())),
    };
    let items = match v.array_at("signatures") {
        Some(a) => a,
        None => return Err("`signatures` array is required".to_owned()),
    };
    match collect::<SignatureSlot>(items, j) {
        Ok(signatures) => Ok(DelegationCredential { parent, child, scope, signatures }),
        Err(e) => Err(e),
    }
}

impl Wire for DelegationCredential {
    open spec fn doc(v: DelegationCredentialView) -> JsonView {
        edge_value(v)
    }

    open spec fn read(d: JsonView, j: JudgementsView) -> Result<
        DelegationCredentialView,
        Seq<char>,
    > {
        edge_of(d, j)
    }

    fn to_doc(&self) -> (r: Json) {
        edge_to_value(self)
    }

    fn from_doc(d: &Json, j: &Judgements) -> (r: Result<DelegationCredential, String>) {
        edge_from_value(d, j)
    }
}

// ---------------------------------------------------------------------------
// Trust-list entries
// ---------------------------------------------------------------------------

impl TrustListEntryRecordView {
    /// The entry is in force at `t`: not before its start, and before it is
    /// superseded.
    pub open spec fn in_force_at(self, t: Timestamp) -> bool {
        self.not_before.secs <= t.secs && match self.superseded_at {
            Some(s) => t.secs < s.secs,
            None => true,
        }
    }
}

impl TrustListEntryRecord {
    /// Whether the entry is in force at `t`.
    pub fn in_force_at(&self, t: Timestamp) -> (r: bool)
        ensures
            r == self@.in_force_at(t),
    {
        self.not_before.secs <= t.secs && match self.superseded_at {
            Some(s) => t.secs < s.secs,
            None => true,
        }
    }
}

/// The document of an entry without a reading.
pub open spec fn bare_entry_value(e: TrustListEntryRecordView) -> JsonView {
    JsonView::object().put("node"@, JsonView::Str(e.node)).put(
        "not_before"@,
        JsonView::Str(ts_text(e.not_before)),
    ).put("superseded_at"@, ts_or_null(e.superseded_at))
}

/// The document of an entry, read at an instant.
pub open spec fn entry_value(e: TrustListEntryRecordView, at: Timestamp) -> JsonView {
    bare_entry_value(e).put("in_force_at_as_of"@, JsonView::Bool(e.in_force_at(at)))
}

/// The trust-list entry that a document declares.
pub open spec fn entry_of(d: JsonView, j: JudgementsView) -> Result<
    TrustListEntryRecordView,
    Seq<char>,
> {
    if !(d is Obj) {
        Err("trust-list entry must be an object"@)
    } else {
        match node_at(d, "node"@, j) {
            Err(e) => Err(e),
            Ok(node) => match d.str_at("not_before"@) {
                None => Err("`not_before` (RFC 3339) is required"@),
                Some(raw) => match ts_of(raw) {
                    Err(e) => Err(e),
                    Ok(not_before) => match opt_ts_at(d, "superseded_at"@) {
                        Err(e) => Err(e),
                        Ok(superseded_at) => Ok(
                            TrustListEntryRecordView { node, not_before, superseded_at },
                        ),
                    },
                },
            },
        }
    }
}

/// Render an entry without a reading.
pub fn bare_entry_to_value(e: &TrustListEntryRecord) -> (r: Json)
    ensures
        r@ == bare_entry_value(e@),
{
    Json::object().with("node", Json::text(e.node.as_str())).with(
        "not_before",
        Json::text(ts_string(&e.not_before).as_str()),
    ).with("superseded_at", ts_json(&e.superseded_at))
}

pub fn trust_entry_to_value(e: &TrustListEntryRecord, at: Timestamp) -> (r: Json)
    ensures
        r@ == entry_value(e@, at),
{
    bare_entry_to_value(e).with("in_force_at_as_of", Json::Bool(e.in_force_at(at)))
}

pub fn trust_entry_from_value(v: &Json, j: &Judgements) -> (r: Result<
    TrustListEntryRecord,
    String,
>)
    ensures
        data::shows(r, entry_of(v@, j@)),
{
    if !v.is_object() {
        return Err("trust-list entry must be an object".to_owned());
    }
    let node = match node_member(v, "node", j) {
        Ok(n) => n,
        Err(e) => return Err(e),
    };
    let not_before = match v.str_at("not_before") {
        None => return Err("`not_before` (RFC 3339) is required".to_owned()),
        Some(raw) => match ts_parse(raw) {
            Ok(t) => t,
            Err(e) => return Err(e),
        },
    };
    match opt_ts(v, "superseded_at") {
        Ok(superseded_at) => Ok(TrustListEntryRecord { node, not_before, superseded_at }),
        Err(e) => Err(e),
    }
}

/// Apply `entry` to a trust list: insert it, or replace the window of the
/// entry for the same node.
pub fn apply_entry(list: &mut TrustList, entry: &TrustListEntryRecord)
    ensures
        final(list)@ == (TrustListView {
            jurisdiction: old(list)@.jurisdiction,
            entries: data::filed::<TrustListEntryRecord>(old(list)@.entries, entry@),
        }),
{
    insert_keyed(&mut list.entries, entry.dup());
}

// ---------------------------------------------------------------------------
// The master list: witnesses, attestations, entries
// ---------------------------------------------------------------------------

/// The document of a witness attestation.
pub open spec fn attestation_value(w: WitnessAttestationView) -> JsonView {
    JsonView::object().put("witness"@, JsonView::Str(w.witness)).put(
        "at"@,
        JsonView::Str(ts_text(w.at)),
    ).put("slot"@, slot_value(w.slot))
}

/// The witness attestation that a document declares.
pub open spec fn attestation_of(d: JsonView, j: JudgementsView) -> Result<
    WitnessAttestationView,
    Seq<char>,
> {
    if !(d is Obj) {
        Err("witness attestation must be an object"@)
    } else {
        match node_at(d, "witness"@, j) {
            Err(e) => Err(e),
            Ok(witness) => match d.str_at("at"@) {
                None => Err("`at` (RFC 3339) is required"@),
                Some(raw) => match ts_of(raw) {
                    Err(e) => Err(e),
                    Ok(at) => match d.get("slot"@) {
                        None => Err(is_required("slot"@)),
                        Some(s) => match slot_of(s, j) {
                            Err(e) => Err(e),
                            Ok(slot) => Ok(WitnessAttestationView { witness, at, slot }),
                        },
                    },
                },
            },
        }
    }
}

pub fn witness_attestation_to_value(w: &WitnessAttestation) -> (r: Json)
    ensures
        r@ == attestation_value(w@),
{
    Json::object().with("witness", Json::text(w.witness.as_str())).with(
        "at",
        Json::text(ts_string(&w.at).as_str()),
    ).with("slot", slot_to_value(&w.slot))
}

pub fn witness_attestation_from_value(v: &Json, j: &Judgements) -> (r: Result<
    WitnessAttestation,
    String,
>)
    ensures
        data::shows(r, attestation_of(v@, j@)),
{
    if !v.is_object() {
        return Err("witness attestation must be an object".to_owned());
    }
    let witness = match node_member(v, "witness", j) {
        Ok(n) => n,
        Err(e) => return Err(e),
    };
    let at = match v.str_at("at") {
        None => return Err("`at` (RFC 3339) is required".to_owned()),
        Some(raw) => match ts_parse(raw) {
            Ok(t) => t,
            Err(e) => return Err(e),
        },
    };
    match v.get("slot") {
        None => Err(missing("slot")),
        Some(s) => match slot_from_value(s, j) {
            Ok(slot) => Ok(WitnessAttestation { witness, at, slot }),
            Err(e) => Err(e),
        },
    }
}

impl Wire for WitnessAttestation {
    open spec fn doc(v: WitnessAttestationView) -> JsonView {
        attestation_value(v)
    }

    open spec fn read(d: JsonView, j: JudgementsView) -> Result<
        WitnessAttestationView,
        Seq<char>,
    > {
        attestation_of(d, j)
    }

    fn to_doc(&self) -> (r: Json) {
        witness_attestation_to_value(self)
    }

    fn from_doc(d: &Json, j: &Judgements) -> (r: Result<WitnessAttestation, String>) {
        witness_attestation_from_value(d, j)
    }
}

/// The document of a master-list entry.
pub open spec fn master_entry_value(e: MasterListEntryView) -> JsonView {
    JsonView::object().put("node"@, JsonView::Str(e.node)).put(
        "attestations"@,
        JsonView::Arr(docs::<WitnessAttestation>(e.attestations)),
    )
}

/// The master-list entry that a document declares.
pub open spec fn master_entry_of(d: JsonView, j: JudgementsView) -> Result<
    MasterListEntryView,
    Seq<char>,
> {
    if !(d is Obj) {
        Err("master-list entry must be an object"@)
    } else {
        match node_at(d, "node"@, j) {
            Err(e) => Err(e),
            Ok(node) => match d.array_at("attestations"@) {
                None => Err("`attestations` array is required"@),
                Some(items) => match read_all::<WitnessAttestation>(items, j) {
                    Err(e) => Err(e),
                    Ok(attestations) => Ok(MasterListEntryView { node, attestations }),
                },
            },
        }
    }
}

pub fn master_entry_to_value(e: &MasterListEntry) -> (r: Json)
    ensures
        r@ == master_entry_value(e@),
{
    Json::object().with("node", Json::text(e.node.as_str())).with(
        "attestations",
        render_all(&e.attestations),
    )
}

pub fn master_entry_from_value(v: &Json, j: &Judgements) -> (r: Result<MasterListEntry, String>)
    ensures
        data::shows(r, master_entry_of(v@, j@)),
{
    if !v.is_object() {
        return Err("master-list entry must be an object".to_owned());
    }
    let node = match node_member(v, "node", j) {
        Ok(n) => n,
        Err(e) => return Err(e),
    };
    let items = match v.array_at("attestations") {
        Some(a) => a,
        None => return Err("`attestations` array is required".to_owned()),
    };
    match collect::<WitnessAttestation>(items, j) {
        Ok(attestations) => Ok(MasterListEntry { node, attestations }),
        Err(e) => Err(e),
    }
}

impl Wire for MasterListEntry {
    open spec fn doc(v: MasterListEntryView) -> JsonView {
        master_entry_value(v)
    }

    open spec fn read(d: JsonView, j: JudgementsView) -> Result<MasterListEntryView, Seq<char>> {
        master_entry_of(d, j)
    }

    fn to_doc(&self) -> (r: Json) {
        master_entry_to_value(self)
    }

    fn from_doc(d: &Json, j: &Judgements) -> (r: Result<MasterListEntry, String>) {
        master_entry_from_value(d, j)
    }
}

/// The document of a witness with its key id.
pub open spec fn witness_value(w: WitnessView) -> JsonView {
    JsonView::object().put("node"@, JsonView::Str(w.node)).put(
        "suite"@,
        JsonView::Str(w.public.suite),
    ).put("key_id"@, JsonView::Str(w.public.key_id)).put(
        "public"@,
        JsonView::Str(hex::hex_text(w.public.bytes)),
    ).put("public_len"@, JsonView::Num(w.public.bytes.len() as int))
}

/// The document of a witness as it is kept: without the key id, which the
/// bytes determine.
pub open spec fn bare_witness_value(w: WitnessView) -> JsonView {
    JsonView::object().put("node"@, JsonView::Str(w.node)).put(
        "suite"@,
        JsonView::Str(w.public.suite),
    ).put("public"@, JsonView::Str(hex::hex_text(w.public.bytes))).put(
        "public_len"@,
        JsonView::Num(w.public.bytes.len() as int),
    )
}

/// The witness that a document declares.
pub open spec fn witness_of(d: JsonView, j: JudgementsView) -> Result<WitnessView, Seq<char>> {
    if !(d is Obj) {
        Err("witness must be an object"@)
    } else {
        match node_at(d, "node"@, j) {
            Err(e) => Err(e),
            Ok(node) => match public_of(d, j) {
                Err(e) => Err(e),
                Ok(public) => Ok(WitnessView { node, public }),
            },
        }
    }
}

/// Render a witness as it is kept.
pub fn bare_witness_to_value(w: &Witness) -> (r: Json)
    ensures
        r@ == bare_witness_value(w@),
{
    Json::object().with("node", Json::text(w.node.as_str())).with(
        "suite",
        Json::text(w.public.suite.as_str()),
    ).with("public", Json::text(hex_encode(w.public.bytes.as_slice()).as_str())).with(
        "public_len",
        Json::Uint(w.public.bytes.len() as u64),
    )
}

impl Wire for Witness {
    open spec fn doc(v: WitnessView) -> JsonView {
        witness_value(v)
    }

    open spec fn read(d: JsonView, j: JudgementsView) -> Result<WitnessView, Seq<char>> {
        witness_of(d, j)
    }

    fn to_doc(&self) -> (r: Json) {
        Json::object().with("node", Json::text(self.node.as_str())).with(
            "suite",
            Json::text(self.public.suite.as_str()),
        ).with("key_id", Json::text(self.public.key_id.as_str())).with(
            "public",
            Json::text(hex_encode(self.public.bytes.as_slice()).as_str()),
        ).with("public_len", Json::Uint(self.public.bytes.len() as u64))
    }

    fn from_doc(d: &Json, j: &Judgements) -> (r: Result<Witness, String>) {
        if !d.is_object() {
            return Err("witness must be an object".to_owned());
        }
        let node = match node_member(d, "node", j) {
            Ok(n) => n,
            Err(e) => return Err(e),
        };
        match public_from_value(d, j) {
            Ok(public) => Ok(Witness { node, public }),
            Err(e) => Err(e),
        }
    }
}

/// The witnesses that a document declares.
pub open spec fn witnesses_of(d: JsonView, j: JudgementsView) -> Result<
    Seq<WitnessView>,
    Seq<char>,
> {
    match d.as_array() {
        None => Err("`witnesses` must be an array"@),
        Some(items) => read_all::<Witness>(items, j),
    }
}

/// Render the witnesses of a master list.
pub fn witnesses_to_value(master: &MasterList) -> (r: Json)
    ensures
        r@ == JsonView::Arr(docs::<Witness>(master@.witnesses)),
{
    render_all(&master.witnesses)
}

pub fn witnesses_from_value(v: &Json, j: &Judgements) -> (r: Result<Vec<Witness>, String>)
    ensures
        data::shows(r, witnesses_of(v@, j@)),
{
    match v.as_array() {
        None => Err("`witnesses` must be an array".to_owned()),
        Some(items) => collect::<Witness>(items, j),
    }
}

/// Whether attestation `i` of an entry verifies under the key of the
/// witness that it names.
pub open spec fn attestation_verified(
    entry: MasterListEntryView,
    witnesses: Seq<WitnessView>,
    checks: Seq<SlotCheckView>,
    i: int,
) -> bool {
    match data::lookup::<Witness>(witnesses, entry.attestations[i].witness) {
        Some(w) => judge::verifies(checks, i, w.public.bytes),
        None => false,
    }
}

/// The verdicts on the attestations of an entry.
pub open spec fn verified_flags(
    entry: MasterListEntryView,
    witnesses: Seq<WitnessView>,
    checks: Seq<SlotCheckView>,
) -> Seq<bool> {
    Seq::new(
        entry.attestations.len(),
        |i: int| attestation_verified(entry, witnesses, checks, i),
    )
}

/// The witnesses with a verified attestation among the first `k`.
pub open spec fn vouchers(
    entry: MasterListEntryView,
    witnesses: Seq<WitnessView>,
    checks: Seq<SlotCheckView>,
    k: nat,
) -> Set<Seq<char>>
    decreases k,
{
    if k == 0 {
        Set::empty()
    } else {
        let before = vouchers(entry, witnesses, checks, (k - 1) as nat);
        if attestation_verified(entry, witnesses, checks, k - 1) {
            before.insert(entry.attestations[k - 1].witness)
        } else {
            before
        }
    }
}

/// Whether `m` different witnesses vouch for an entry.
pub open spec fn entry_quorate(
    entry: MasterListEntryView,
    witnesses: Seq<WitnessView>,
    m: usize,
    checks: Seq<SlotCheckView>,
) -> bool {
    vouchers(entry, witnesses, checks, entry.attestations.len()).len() >= m
}

/// The live verdict on each attestation of a master-list entry. `checks`
/// tells which slots verify under which keys; an attestation counts only
/// under the registered key of its witness.
pub fn attestations_verified(
    entry: &MasterListEntry,
    witnesses: &Vec<Witness>,
    checks: &Vec<SlotCheck>,
) -> (r: Vec<bool>)
    ensures
        r@ == verified_flags(entry@, witnesses.deep_view(), checks.deep_view()),
{
    let mut out: Vec<bool> = Vec::new();
    for k in 0..entry.attestations.len()
        invariant
            out@.len() == k,
            forall|i: int|
                0 <= i < k ==> out@[i] == attestation_verified(
                    entry@,
                    witnesses.deep_view(),
                    checks.deep_view(),
                    i,
                ),
    {
        assert(entry@.attestations[k as int] == entry.attestations@[k as int].deep_view());
        let verified = match find_by_key(witnesses, entry.attestations[k].witness.as_str()) {
            Some(w) => slot_verifies(checks, k, &w.public.bytes),
            None => false,
        };
        out.push(verified);
    }
    assert(out@ =~= verified_flags(entry@, witnesses.deep_view(), checks.deep_view()));
    out
}

/// How many different witnesses vouch for an entry.
pub fn witnesses_vouching(
    entry: &MasterListEntry,
    witnesses: &Vec<Witness>,
    checks: &Vec<SlotCheck>,
) -> (r: usize)
    ensures
        r == vouchers(
            entry@,
            witnesses.deep_view(),
            checks.deep_view(),
            entry@.attestations.len(),
        ).len(),
{
    let verified = attestations_verified(entry, witnesses, checks);
    let mut distinct: Vec<String> = Vec::new();
    assert(distinct.deep_view() =~= Seq::<Seq<char>>::empty());
    assert(distinct.deep_view().to_set() =~= Set::<Seq<char>>::empty());
    for k in 0..entry.attestations.len()
        invariant
            verified@ == verified_flags(entry@, witnesses.deep_view(), checks.deep_view()),
            data::ascending::<String>(distinct.deep_view()),
            distinct.deep_view().to_set() == vouchers(
                entry@,
                witnesses.deep_view(),
                checks.deep_view(),
                k as nat,
            ),
    {
        assert(entry@.attestations[k as int] == entry.attestations@[k as int].deep_view());
        if verified[k] {
            proof {
                data::lemma_filed_ascending::<String>(
                    distinct.deep_view(),
                    entry@.attestations[k as int].witness,
                );
                data::lemma_filed_set::<String>(
                    distinct.deep_view(),
                    entry@.attestations[k as int].witness,
                );
            }
            insert_keyed(&mut distinct, entry.attestations[k].witness.clone());
        }
    }
    proof {
        data::lemma_ascending_count::<String>(distinct.deep_view());
    }
    distinct.len()
}

/// Live quorate check: at least `m` different witnesses vouch for the
/// entry.
pub fn master_entry_quorate(
    entry: &MasterListEntry,
    witnesses: &Vec<Witness>,
    m: usize,
    checks: &Vec<SlotCheck>,
) -> (r: bool)
    ensures
        r == entry_quorate(entry@, witnesses.deep_view(), m, checks.deep_view()),
{
    witnesses_vouching(entry, witnesses, checks) >= m
}

// ---------------------------------------------------------------------------
// Errors of the trust model
// ---------------------------------------------------------------------------

/// What the trust model refuses, and why.
#[derive(Debug, PartialEq, Eq)]
pub enum SignatifError {
    Validation(String),
    ScopeViolation(String),
    Crypto(String),
    SuiteDeferred { suite: String, detail: String },
    NoTrustPath { key_id: String },
    ScopeExcluded { key_id: String, detail: String },
    CredentialSignatureInvalid { parent: String, child: String },
    Unknown { kind: String, id: String },
    Trust(String),
    Transparency(String),
    QuorumRequired { subject: String },
    ScopeConditionFailed { condition: String },
    Unsupported { suite: String, detail: String },
}

/// The status and the message that a refusal is answered with.
pub open spec fn error_reply(e: SignatifError) -> (u16, Seq<char>) {
    match e {
        SignatifError::Validation(m) => (400, "validation: "@ + m@),
        SignatifError::ScopeViolation(m) => (400, "scope violation: "@ + m@),
        SignatifError::Crypto(m) => (400, "cryptographic: "@ + m@),
        SignatifError::SuiteDeferred { suite, detail } => (
            400,
            "suite `"@ + suite@ + "` is deferred: "@ + detail@,
        ),
        SignatifError::NoTrustPath { key_id } => (404, "no trust path to `"@ + key_id@ + "`"@),
        SignatifError::ScopeExcluded { key_id, detail } => (
            400,
            "path to `"@ + key_id@ + "` excludes the request: "@ + detail@,
        ),
        SignatifError::CredentialSignatureInvalid { parent, child } => (
            400,
            "delegation credential "@ + parent@ + " → "@ + child@
                + " failed signature verification"@,
        ),
        SignatifError::Unknown { kind, id } => (404, "unknown "@ + kind@ + " `"@ + id@ + "`"@),
        SignatifError::Trust(m) => (400, "trust anchoring: "@ + m@),
        SignatifError::Transparency(m) => (400, "transparency: "@ + m@),
        SignatifError::QuorumRequired { subject } => (
            422,
            "retroactive distrust of `"@ + subject@ + "` requires a quorate attestation"@,
        ),
        SignatifError::ScopeConditionFailed { condition } => (
            400,
            "scope condition failed: `"@ + condition@ + "`"@,
        ),
        SignatifError::Unsupported { suite, detail } => (
            400,
            "suite `"@ + suite@ + "` is unsupported in this build: "@ + detail@,
        ),
    }
}

/// Map a refusal of the trust model to a status and a message.
pub fn map_signatif_error(e: SignatifError) -> (r: (u16, String))
    ensures
        (r.0, r.1@) == error_reply(e),
{
    match e {
        SignatifError::Validation(m) => (400, join2("validation: ", m.as_str())),
        SignatifError::ScopeViolation(m) => (400, join2("scope violation: ", m.as_str())),
        SignatifError::Crypto(m) => (400, join2("cryptographic: ", m.as_str())),
        SignatifError::SuiteDeferred { suite, detail } => (
            400,
            join4("suite `", suite.as_str(), "` is deferred: ", detail.as_str()),
        ),
        SignatifError::NoTrustPath { key_id } => (
            404,
            join3("no trust path to `", key_id.as_str(), "`"),
        ),
        SignatifError::ScopeExcluded { key_id, detail } => (
            400,
            join4("path to `", key_id.as_str(), "` excludes the request: ", detail.as_str()),
        ),
        SignatifError::CredentialSignatureInvalid { parent, child } => (
            400,
            join5(
                "delegation credential ",
                parent.as_str(),
                " → ",
                child.as_str(),
                " failed signature verification",
            ),
        ),
        SignatifError::Unknown { kind, id } => (
            404,
            join5("unknown ", kind.as_str(), " `", id.as_str(), "`"),
        ),
        SignatifError::Trust(m) => (400, join2("trust anchoring: ", m.as_str())),
        SignatifError::Transparency(m) => (400, join2("transparency: ", m.as_str())),
        SignatifError::QuorumRequired { subject } => (
            422,
            join3(
                "retroactive distrust of `",
                subject.as_str(),
                "` requires a quorate attestation",
            ),
        ),
        SignatifError::ScopeConditionFailed { condition } => (
            400,
            join3("scope condition failed: `", condition.as_str(), "`"),
        ),
        SignatifError::Unsupported { suite, detail } => (
            400,
            join4(
                "suite `",
                suite.as_str(),
                "` is unsupported in this build: ",
                detail.as_str(),
            ),
        ),
    }
}

} // verus!
