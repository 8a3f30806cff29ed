//! Verdicts of the trust model on the texts and bytes of one document:
//! which ids, suites and keys it accepts, and what it makes of them. The
//! wire layer reads documents against these tables.

use vstd::prelude::*;

use crate::data;
use crate::data::Dup;
use crate::json::{Json, JsonView};
use crate::model::{Condition, ConditionView, PublicKey, PublicKeyView, Suite, SuiteView};
use crate::text::{join3, same_text};

verus! {

/// The verdict on one text: accepted as the id `text`, or refused for the
/// reason `text`.
#[derive(Debug, PartialEq, Eq)]
pub struct TextVerdict {
    pub raw: String,
    pub accepted: bool,
    pub text: String,
}

#[verifier::ext_equal]
pub struct TextVerdictView {
    pub raw: Seq<char>,
    pub accepted: bool,
    pub text: Seq<char>,
}

impl DeepView for TextVerdict {
    type V = TextVerdictView;

    open spec fn deep_view(&self) -> TextVerdictView {
        TextVerdictView {
            raw: self.raw.deep_view(),
            accepted: self.accepted.deep_view(),
            text: self.text.deep_view(),
        }
    }
}

impl View for TextVerdict {
    type V = TextVerdictView;

    open spec fn view(&self) -> TextVerdictView {
        self.deep_view()
    }
}

/// The verdict on one suite token: the suite, or the reason of the refusal.
#[derive(Debug, PartialEq, Eq)]
pub struct SuiteVerdict {
    pub token: String,
    pub suite: Option<Suite>,
    pub error: String,
}

#[verifier::ext_equal]
pub struct SuiteVerdictView {
    pub token: Seq<char>,
    pub suite: Option<SuiteView>,
    pub error: Seq<char>,
}

impl DeepView for SuiteVerdict {
    type V = SuiteVerdictView;

    open spec fn deep_view(&self) -> SuiteVerdictView {
        SuiteVerdictView {
            token: self.token.deep_view(),
            suite: self.suite.deep_view(),
            error: self.error.deep_view(),
        }
    }
}

impl View for SuiteVerdict {
    type V = SuiteVerdictView;

    open spec fn view(&self) -> SuiteVerdictView {
        self.deep_view()
    }
}

/// The verdict on the raw bytes of a public key: the key, or the reason of
/// the refusal.
#[derive(Debug, PartialEq, Eq)]
pub struct PublicVerdict {
    pub bytes: Vec<u8>,
    pub public: Option<PublicKey>,
    pub error: String,
}

#[verifier::ext_equal]
pub struct PublicVerdictView {
    pub bytes: Seq<u8>,
    pub public: Option<PublicKeyView>,
    pub error: Seq<char>,
}

impl DeepView for PublicVerdict {
    type V = PublicVerdictView;

    open spec fn deep_view(&self) -> PublicVerdictView {
        PublicVerdictView {
            bytes: self.bytes.deep_view(),
            public: self.public.deep_view(),
            error: self.error.deep_view(),
        }
    }
}

impl View for PublicVerdict {
    type V = PublicVerdictView;

    open spec fn view(&self) -> PublicVerdictView {
        self.deep_view()
    }
}

/// The verdicts on one document.
#[derive(Debug, PartialEq, Eq)]
pub struct Judgements {
    /// Texts read as node ids.
    pub nodes: Vec<TextVerdict>,
    /// Texts read as key ids.
    pub keys: Vec<TextVerdict>,
    /// Texts read as passport ids.
    pub passports: Vec<TextVerdict>,
    /// Texts read as suite tokens.
    pub suites: Vec<SuiteVerdict>,
    /// Bytes read as public keys.
    pub publics: Vec<PublicVerdict>,
    /// The `scope` member read as a delegation scope, in canonical form.
    pub scope: Option<Json>,
    /// Why the `scope` member is refused, if it is.
    pub scope_error: String,
    /// The `condition` member of the subject read as a scope condition.
    pub condition: Option<Condition>,
    /// Why the `condition` member is refused, if it is.
    pub condition_error: String,
}

#[verifier::ext_equal]
pub struct JudgementsView {
    pub nodes: Seq<TextVerdictView>,
    pub keys: Seq<TextVerdictView>,
    pub passports: Seq<TextVerdictView>,
    pub suites: Seq<SuiteVerdictView>,
    pub publics: Seq<PublicVerdictView>,
    pub scope: Option<JsonView>,
    pub scope_error: Seq<char>,
    pub condition: Option<ConditionView>,
    pub condition_error: Seq<char>,
}

impl DeepView for Judgements {
    type V = JudgementsView;

    open spec fn deep_view(&self) -> JudgementsView {
        JudgementsView {
            nodes: self.nodes.deep_view(),
            keys: self.keys.deep_view(),
            passports: self.passports.deep_view(),
            suites: self.suites.deep_view(),
            publics: self.publics.deep_view(),
            scope: self.scope.deep_view(),
            scope_error: self.scope_error.deep_view(),
            condition: self.condition.deep_view(),
            condition_error: self.condition_error.deep_view(),
        }
    }
}

impl View for Judgements {
    type V = JudgementsView;

    open spec fn view(&self) -> JudgementsView {
        self.deep_view()
    }
}

/// Whether the signature of one slot of a list verifies under one key.
#[derive(Debug, PartialEq, Eq)]
pub struct SlotCheck {
    pub slot: usize,
    pub public: Vec<u8>,
    pub valid: bool,
}

#[verifier::ext_equal]
pub struct SlotCheckView {
    pub slot: usize,
    pub public: Seq<u8>,
    pub valid: bool,
}

impl Dup for SlotCheck {
    fn dup(&self) -> (r: SlotCheck) {
        SlotCheck { slot: self.slot, public: self.public.dup(), valid: self.valid }
    }
}

impl DeepView for SlotCheck {
    type V = SlotCheckView;

    open spec fn deep_view(&self) -> SlotCheckView {
        SlotCheckView {
            slot: self.slot.deep_view(),
            public: self.public.deep_view(),
            valid: self.valid.deep_view(),
        }
    }
}

impl View for SlotCheck {
    type V = SlotCheckView;

    open spec fn view(&self) -> SlotCheckView {
        self.deep_view()
    }
}

/// Whether the signature of slot `slot` verifies under the key `public`:
/// the first row for the two; without one it does not.
pub open spec fn verifies(rows: Seq<SlotCheckView>, slot: int, public: Seq<u8>) -> bool
    decreases rows.len(),
{
    if rows.len() == 0 {
        false
    } else if rows[0].slot == slot && rows[0].public == public {
        rows[0].valid
    } else {
        verifies(rows.drop_first(), slot, public)
    }
}

/// Whether the signature of slot `slot` verifies under the key `public`.
pub fn slot_verifies(rows: &Vec<SlotCheck>, slot: usize, public: &Vec<u8>) -> (r: bool)
    ensures
        r == verifies(rows.deep_view(), slot as int, public@),
{
    let ghost s = rows.deep_view();
    assert(s.skip(0) =~= s);
    let mut k: usize = 0;
    while k < rows.len()
        invariant
            s == rows.deep_view(),
            k <= rows@.len(),
            verifies(s, slot as int, public@) == verifies(s.skip(k as int), slot as int, public@),
        decreases rows@.len() - k,
    {
        assert(s.skip(k as int)[0] == rows@[k as int].deep_view());
        assert(rows@[k as int].public.deep_view() =~= rows@[k as int].public@);
        if rows[k].slot == slot && same_bytes(&rows[k].public, public) {
            return rows[k].valid;
        }
        assert(s.skip(k as int).drop_first() =~= s.skip(k + 1));
        k = k + 1;
    }
    false
}

/// The reason given where no verdict on `raw` was asked for.
pub open spec fn unjudged(raw: Seq<char>) -> Seq<char> {
    "no verdict on `"@ + raw + "`"@
}

/// The verdict on `raw`: the first row for it.
pub open spec fn text_verdict(rows: Seq<TextVerdictView>, raw: Seq<char>) -> Result<
    Seq<char>,
    Seq<char>,
>
    decreases rows.len(),
{
    if rows.len() == 0 {
        Err(unjudged(raw))
    } else if rows[0].raw == raw {
        if rows[0].accepted {
            Ok(rows[0].text)
        } else {
            Err(rows[0].text)
        }
    } else {
        text_verdict(rows.drop_first(), raw)
    }
}

/// The verdict on the suite token `raw`: the first row for it.
pub open spec fn suite_verdict(rows: Seq<SuiteVerdictView>, raw: Seq<char>) -> Result<
    SuiteView,
    Seq<char>,
>
    decreases rows.len(),
{
    if rows.len() == 0 {
        Err(unjudged(raw))
    } else if rows[0].token == raw {
        match rows[0].suite {
            Some(s) => Ok(s),
            None => Err(rows[0].error),
        }
    } else {
        suite_verdict(rows.drop_first(), raw)
    }
}

/// The verdict on the key bytes `raw`: the first row for them.
pub open spec fn public_verdict(rows: Seq<PublicVerdictView>, raw: Seq<u8>) -> Result<
    PublicKeyView,
    Seq<char>,
>
    decreases rows.len(),
{
    if rows.len() == 0 {
        Err("no verdict on the key bytes"@)
    } else if rows[0].bytes == raw {
        match rows[0].public {
            Some(p) => Ok(p),
            None => Err(rows[0].error),
        }
    } else {
        public_verdict(rows.drop_first(), raw)
    }
}

impl JudgementsView {
    /// The node id that `raw` denotes.
    pub open spec fn node(self, raw: Seq<char>) -> Result<Seq<char>, Seq<char>> {
        text_verdict(self.nodes, raw)
    }

    /// The key id that `raw` denotes.
    pub open spec fn key(self, raw: Seq<char>) -> Result<Seq<char>, Seq<char>> {
        text_verdict(self.keys, raw)
    }

    /// The passport id that `raw` denotes.
    pub open spec fn passport(self, raw: Seq<char>) -> Result<Seq<char>, Seq<char>> {
        text_verdict(self.passports, raw)
    }

    /// The suite that `raw` denotes.
    pub open spec fn suite(self, raw: Seq<char>) -> Result<SuiteView, Seq<char>> {
        suite_verdict(self.suites, raw)
    }

    /// The public key that `raw` denotes.
    pub open spec fn public(self, raw: Seq<u8>) -> Result<PublicKeyView, Seq<char>> {
        public_verdict(self.publics, raw)
    }

    /// The delegation scope of the document.
    pub open spec fn scope_verdict(self) -> Result<JsonView, Seq<char>> {
        match self.scope {
            Some(s) => Ok(s),
            None => Err(self.scope_error),
        }
    }

    /// The scope condition of the document.
    pub open spec fn condition_verdict(self) -> Result<ConditionView, Seq<char>> {
        match self.condition {
            Some(c) => Ok(c),
            None => Err(self.condition_error),
        }
    }
}

/// Whether two byte strings are equal.
pub fn same_bytes(a: &Vec<u8>, b: &Vec<u8>) -> (r: bool)
    ensures
        r == (a@ == b@),
{
    if a.len() != b.len() {
        return false;
    }
    let mut k: usize = 0;
    while k < a.len()
        invariant
            k <= a@.len() == b@.len(),
            forall|i: int| 0 <= i < k ==> a@[i] == b@[i],
        decreases a@.len() - k,
    {
        if a[k] != b[k] {
            assert(a@[k as int] != b@[k as int]);
            return false;
        }
        k = k + 1;
    }
    assert(a@ =~= b@);
    true
}

fn read_text(rows: &Vec<TextVerdict>, raw: &str) -> (r: Result<String, String>)
    ensures
        data::shows(r, text_verdict(rows.deep_view(), raw@)),
{
    let ghost s = rows.deep_view();
    assert(s.skip(0) =~= s);
    let mut k: usize = 0;
    while k < rows.len()
        invariant
            s == rows.deep_view(),
            k <= rows@.len(),
            text_verdict(s, raw@) == text_verdict(s.skip(k as int), raw@),
        decreases rows@.len() - k,
    {
        assert(s.skip(k as int)[0] == rows@[k as int].deep_view());
        if same_text(rows[k].raw.as_str(), raw) {
            return if rows[k].accepted {
                Ok(rows[k].text.clone())
            } else {
                Err(rows[k].text.clone())
            };
        }
        assert(s.skip(k as int).drop_first() =~= s.skip(k + 1));
        k = k + 1;
    }
    Err(join3("no verdict on `", raw, "`"))
}

impl Judgements {
    /// The node id that `raw` denotes.
    pub fn node(&self, raw: &str) -> (r: Result<String, String>)
        ensures
            data::shows(r, self@.node(raw@)),
    {
        read_text(&self.nodes, raw)
    }

    /// The key id that `raw` denotes.
    pub fn key(&self, raw: &str) -> (r: Result<String, String>)
        ensures
            data::shows(r, self@.key(raw@)),
    {
        read_text(&self.keys, raw)
    }

    /// The passport id that `raw` denotes.
    pub fn passport(&self, raw: &str) -> (r: Result<String, String>)
        ensures
            data::shows(r, self@.passport(raw@)),
    {
        read_text(&self.passports, raw)
    }

    /// The suite that `raw` denotes.
    pub fn suite(&self, raw: &str) -> (r: Result<Suite, String>)
        ensures
            data::shows(r, self@.suite(raw@)),
    {
        let rows: &Vec<SuiteVerdict> = &self.suites;
        let ghost s = rows.deep_view();
        assert(s.skip(0) =~= s);
        let mut k: usize = 0;
        while k < rows.len()
            invariant
                *rows == self.suites,
                s == rows.deep_view(),
                k <= rows@.len(),
                suite_verdict(s, raw@) == suite_verdict(s.skip(k as int), raw@),
            decreases rows@.len() - k,
        {
            assert(s.skip(k as int)[0] == rows@[k as int].deep_view());
            if same_text(rows[k].token.as_str(), raw) {
                return match &rows[k].suite {
                    Some(suite) => Ok(suite.dup()),
                    None => Err(rows[k].error.clone()),
                };
            }
            assert(s.skip(k as int).drop_first() =~= s.skip(k + 1));
            k = k + 1;
        }
        Err(join3("no verdict on `", raw, "`"))
    }

    /// The public key that `raw` denotes.
    pub fn public(&self, raw: &Vec<u8>) -> (r: Result<PublicKey, String>)
        ensures
            data::shows(r, self@.public(raw@)),
    {
        let rows: &Vec<PublicVerdict> = &self.publics;
        let ghost s = rows.deep_view();
        assert(s.skip(0) =~= s);
        let mut k: usize = 0;
        while k < rows.len()
            invariant
                *rows == self.publics,
                s == rows.deep_view(),
                k <= rows@.len(),
                public_verdict(s, raw@) == public_verdict(s.skip(k as int), raw@),
            decreases rows@.len() - k,
        {
            assert(s.skip(k as int)[0] == rows@[k as int].deep_view());
            assert(rows@[k as int].bytes.deep_view() =~= rows@[k as int].bytes@);
            if same_bytes(&rows[k].bytes, raw) {
                return match &rows[k].public {
                    Some(public) => Ok(public.dup()),
                    None => Err(rows[k].error.clone()),
                };
            }
            assert(s.skip(k as int).drop_first() =~= s.skip(k + 1));
            k = k + 1;
        }
        Err("no verdict on the key bytes".to_owned())
    }

    /// The delegation scope of the document.
    pub fn scope_verdict(&self) -> (r: Result<Json, String>)
        ensures
            data::shows(r, self@.scope_verdict()),
    {
        match &self.scope {
            Some(s) => Ok(s.dup()),
            None => Err(self.scope_error.clone()),
        }
    }

    /// The scope condition of the document.
    pub fn condition_verdict(&self) -> (r: Result<Condition, String>)
        ensures
            data::shows(r, self@.condition_verdict()),
    {
        match &self.condition {
            Some(c) => Ok(c.dup()),
            None => Err(self.condition_error.clone()),
        }
    }
}

// ---------------------------------------------------------------------------
// Laws
// ---------------------------------------------------------------------------

/// A row of a table speaks of the slot and the key.
pub open spec fn speaks_of(row: SlotCheckView, slot: int, public: Seq<u8>) -> bool {
    row.slot == slot && row.public == public
}

/// A slot verifies under a key exactly when the first row that speaks of
/// both says so; without such a row it does not.
pub proof fn law_first_check_decides(rows: Seq<SlotCheckView>, slot: int, public: Seq<u8>)
    ensures
        verifies(rows, slot, public) <==> exists|i: int|
            0 <= i < rows.len() && speaks_of(#[trigger] rows[i], slot, public) && rows[i].valid
                && forall|j: int| 0 <= j < i ==> !speaks_of(#[trigger] rows[j], slot, public),
    decreases rows.len(),
{
    if rows.len() > 0 {
        let rest = rows.drop_first();
        law_first_check_decides(rest, slot, public);
        assert(forall|j: int| 0 <= j < rest.len() ==> rest[j] == rows[j + 1]);
        if !speaks_of(rows[0], slot, public) {
            if verifies(rows, slot, public) {
                let i = choose|i: int|
                    0 <= i < rest.len() && speaks_of(#[trigger] rest[i], slot, public)
                        && rest[i].valid && forall|j: int|
                        0 <= j < i ==> !speaks_of(#[trigger] rest[j], slot, public);
                assert(speaks_of(rows[i + 1], slot, public) && rows[i + 1].valid);
                assert forall|j: int| 0 <= j < i + 1 implies !speaks_of(
                    #[trigger] rows[j],
                    slot,
                    public,
                ) by {
                    if j > 0 {
                        assert(!speaks_of(rest[j - 1], slot, public));
                    }
                }
            }
            if exists|i: int|
                0 <= i < rows.len() && speaks_of(#[trigger] rows[i], slot, public) && rows[i].valid
                    && forall|j: int| 0 <= j < i ==> !speaks_of(#[trigger] rows[j], slot, public) {
                let i = choose|i: int|
                    0 <= i < rows.len() && speaks_of(#[trigger] rows[i], slot, public)
                        && rows[i].valid && forall|j: int|
                        0 <= j < i ==> !speaks_of(#[trigger] rows[j], slot, public);
                assert(rest[i - 1] == rows[i]);
                assert forall|j: int| 0 <= j < i - 1 implies !speaks_of(
                    #[trigger] rest[j],
                    slot,
                    public,
                ) by {
                    assert(!speaks_of(rows[j + 1], slot, public));
                }
            }
        } else {
            assert(speaks_of(rows[0], slot, public));
        }
    }
}

/// A name is judged as the first row of it says: accepted as its text, or
/// refused for the reason in its text; a name without a row is refused.
pub proof fn law_first_verdict_on_a_name(rows: Seq<TextVerdictView>, raw: Seq<char>)
    ensures
        match text_verdict(rows, raw) {
            Ok(t) => exists|i: int|
                0 <= i < rows.len() && (#[trigger] rows[i]).raw == raw && rows[i].accepted
                    && rows[i].text == t && forall|j: int|
                    0 <= j < i ==> (#[trigger] rows[j]).raw != raw,
            Err(e) => {
                ||| exists|i: int|
                    0 <= i < rows.len() && (#[trigger] rows[i]).raw == raw && !rows[i].accepted
                        && rows[i].text == e && forall|j: int|
                        0 <= j < i ==> (#[trigger] rows[j]).raw != raw
                ||| e == "no verdict on `"@ + raw + "`"@ && forall|j: int|
                    0 <= j < rows.len() ==> (#[trigger] rows[j]).raw != raw
            },
        },
    decreases rows.len(),
{
    if rows.len() > 0 {
        let rest = rows.drop_first();
        law_first_verdict_on_a_name(rest, raw);
        assert(forall|j: int| 0 <= j < rest.len() ==> rest[j] == rows[j + 1]);
        if rows[0].raw == raw {
            assert(rows[0].raw == raw);
        } else {
            if exists|j: int| 0 <= j < rest.len() && (#[trigger] rest[j]).raw == raw {
                let i = choose|i: int|
                    0 <= i < rest.len() && (#[trigger] rest[i]).raw == raw && (match text_verdict(
                        rest,
                        raw,
                    ) {
                        Ok(t) => rest[i].accepted && rest[i].text == t,
                        Err(e) => !rest[i].accepted && rest[i].text == e,
                    }) && forall|j: int| 0 <= j < i ==> (#[trigger] rest[j]).raw != raw;
                assert(rows[i + 1].raw == raw);
                assert forall|j: int| 0 <= j < i + 1 implies (#[trigger] rows[j]).raw != raw by {
                    if j > 0 {
                        assert(rest[j - 1].raw != raw);
                    }
                }
            } else {
                assert forall|j: int| 0 <= j < rows.len() implies (#[trigger] rows[j]).raw != raw by {
                    if j > 0 {
                        assert(rest[j - 1].raw != raw);
                    }
                }
            }
        }
    }
}

/// A suite is the one that the first row of its token names, if it names
/// one.
pub proof fn law_first_verdict_on_a_suite(rows: Seq<SuiteVerdictView>, raw: Seq<char>)
    ensures
        suite_verdict(rows, raw) matches Ok(s) ==> exists|i: int|
            0 <= i < rows.len() && (#[trigger] rows[i]).token == raw && rows[i].suite == Some(s)
                && forall|j: int| 0 <= j < i ==> (#[trigger] rows[j]).token != raw,
        suite_verdict(rows, raw) is Err ==> forall|i: int|
            0 <= i < rows.len() && (#[trigger] rows[i]).token == raw && rows[i].suite is Some
                ==> exists|j: int| 0 <= j < i && (#[trigger] rows[j]).token == raw,
    decreases rows.len(),
{
    if rows.len() > 0 {
        let rest = rows.drop_first();
        law_first_verdict_on_a_suite(rest, raw);
        assert(forall|j: int| 0 <= j < rest.len() ==> rest[j] == rows[j + 1]);
        if rows[0].token == raw {
            assert forall|i: int|
                0 <= i < rows.len() && (#[trigger] rows[i]).token == raw && rows[i].suite is Some
                    && suite_verdict(rows, raw) is Err implies exists|j: int|
                0 <= j < i && (#[trigger] rows[j]).token == raw by {
                assert(rows[0].token == raw);
            }
        } else if let Ok(s) = suite_verdict(rows, raw) {
            let i = choose|i: int|
                0 <= i < rest.len() && (#[trigger] rest[i]).token == raw && rest[i].suite == Some(s)
                    && forall|j: int| 0 <= j < i ==> (#[trigger] rest[j]).token != raw;
            assert(rows[i + 1].token == raw);
            assert forall|j: int| 0 <= j < i + 1 implies (#[trigger] rows[j]).token != raw by {
                if j > 0 {
                    assert(rest[j - 1].token != raw);
                }
            }
        } else {
            assert forall|i: int|
                0 <= i < rows.len() && (#[trigger] rows[i]).token == raw
                    && rows[i].suite is Some implies exists|j: int|
                0 <= j < i && (#[trigger] rows[j]).token == raw by {
                assert(rest[i - 1].token == raw);
                let j = choose|j: int| 0 <= j < i - 1 && (#[trigger] rest[j]).token == raw;
                assert(rows[j + 1].token == raw);
            }
        }
    }
}

/// Key bytes are the key that the first row of them names, if it names one.
pub proof fn law_first_verdict_on_key_bytes(rows: Seq<PublicVerdictView>, raw: Seq<u8>)
    ensures
        public_verdict(rows, raw) matches Ok(p) ==> exists|i: int|
            0 <= i < rows.len() && (#[trigger] rows[i]).bytes == raw && rows[i].public == Some(p)
                && forall|j: int| 0 <= j < i ==> (#[trigger] rows[j]).bytes != raw,
        public_verdict(rows, raw) is Err ==> forall|i: int|
            0 <= i < rows.len() && (#[trigger] rows[i]).bytes == raw && rows[i].public is Some
                ==> exists|j: int| 0 <= j < i && (#[trigger] rows[j]).bytes == raw,
    decreases rows.len(),
{
    if rows.len() > 0 {
        let rest = rows.drop_first();
        law_first_verdict_on_key_bytes(rest, raw);
        assert(forall|j: int| 0 <= j < rest.len() ==> rest[j] == rows[j + 1]);
        if rows[0].bytes == raw {
            assert forall|i: int|
                0 <= i < rows.len() && (#[trigger] rows[i]).bytes == raw && rows[i].public is Some
                    && public_verdict(rows, raw) is Err implies exists|j: int|
                0 <= j < i && (#[trigger] rows[j]).bytes == raw by {
                assert(rows[0].bytes == raw);
            }
        } else if let Ok(p) = public_verdict(rows, raw) {
            let i = choose|i: int|
                0 <= i < rest.len() && (#[trigger] rest[i]).bytes == raw && rest[i].public == Some(
                    p,
                ) && forall|j: int| 0 <= j < i ==> (#[trigger] rest[j]).bytes != raw;
            assert(rows[i + 1].bytes == raw);
            assert forall|j: int| 0 <= j < i + 1 implies (#[trigger] rows[j]).bytes != raw by {
                if j > 0 {
                    assert(rest[j - 1].bytes != raw);
                }
            }
        } else {
            assert forall|i: int|
                0 <= i < rows.len() && (#[trigger] rows[i]).bytes == raw
                    && rows[i].public is Some implies exists|j: int|
                0 <= j < i && (#[trigger] rows[j]).bytes == raw by {
                assert(rest[i - 1].bytes == raw);
                let j = choose|j: int| 0 <= j < i - 1 && (#[trigger] rest[j]).bytes == raw;
                assert(rows[j + 1].bytes == raw);
            }
        }
    }
}

/// Names of nodes, of keys and of passports are judged apart, each by its own
/// table.
pub proof fn law_tables_are_apart(a: JudgementsView, b: JudgementsView, raw: Seq<char>)
    ensures
        a.nodes == b.nodes ==> a.node(raw) == b.node(raw),
        a.keys == b.keys ==> a.key(raw) == b.key(raw),
        a.passports == b.passports ==> a.passport(raw) == b.passport(raw),
        a.suites == b.suites ==> a.suite(raw) == b.suite(raw),
        a.nodes.len() == 0 ==> a.node(raw) is Err,
        a.keys.len() == 0 ==> a.key(raw) is Err,
        a.passports.len() == 0 ==> a.passport(raw) is Err,
        a.suites.len() == 0 ==> a.suite(raw) is Err,
        a.scope is None ==> a.scope_verdict() is Err,
        a.scope matches Some(d) ==> a.scope_verdict() == Ok::<JsonView, Seq<char>>(d),
        a.condition is None ==> a.condition_verdict() is Err,
        a.condition matches Some(c) ==> a.condition_verdict() == Ok::<ConditionView, Seq<char>>(c),
{
}

} // verus!
