//! JSON text: documents read from request bodies and journal lines, and
//! written to response bodies and journal lines.
//!
//! Texts are read and written by `serde_json`. What it makes of a text, and
//! how it lays a document out, is named here and not defined; what is known
//! of the names is that a text written for a document is read as that
//! document.

use serde_json::Value;
use vstd::prelude::*;

use crate::json::{Json, JsonView};

verus! {

#[verifier::external_type_specification]
#[verifier::external_body]
pub struct ExValue(Value);

/// The document that a `serde_json` value holds.
pub uninterp spec fn held(v: Value) -> JsonView;

/// The document that a text states, or why it states none.
pub uninterp spec fn text_doc(s: Seq<char>) -> Result<JsonView, Seq<char>>;

/// The indented text of a document.
pub uninterp spec fn pretty_text(d: JsonView) -> Seq<char>;

/// The text of a document on one line.
pub uninterp spec fn line_text(d: JsonView) -> Seq<char>;

/// A member name that `serde_json` keeps for itself: a text in which an
/// object starts with it is read as something else than that object.
pub const RESERVED_NAME: &'static str = "$serde_json::private::RawValue";

/// The document is nested at most `n` deep, all its numbers are integers,
/// and no member of it has the reserved name.
pub open spec fn plain(d: JsonView, n: nat) -> bool
    decreases n,
{
    match d {
        JsonView::Arr(s) => n > 0 && forall|i: int|
            0 <= i < s.len() ==> plain(#[trigger] s[i], (n - 1) as nat),
        JsonView::Obj(m) => n > 0 && !m.dom().contains(RESERVED_NAME@) && forall|k: Seq<char>|
            #[trigger] m.dom().contains(k) ==> plain(m[k], (n - 1) as nat),
        JsonView::Other(_) => false,
        _ => true,
    }
}

/// How deep a text may nest arrays and objects and still be read.
pub const DEPTH_LIMIT: u64 = 127;

/// The document is read back from the text that is written for it.
pub open spec fn portable(d: JsonView) -> bool {
    plain(d, DEPTH_LIMIT as nat)
}

/// The document that is written for a document: each number that is no
/// integer is read from its text first, and null stands for a text that is
/// none.
pub open spec fn settled(d: JsonView) -> JsonView
    decreases d,
{
    match d {
        JsonView::Other(t) => match text_doc(t) {
            Ok(n) => n,
            Err(_) => JsonView::Null,
        },
        JsonView::Arr(s) => JsonView::Arr(
            Seq::new(
                s.len(),
                |i: int|
                    if 0 <= i < s.len() {
                        settled(s[i])
                    } else {
                        JsonView::Null
                    },
            ),
        ),
        JsonView::Obj(m) => if m.dom().finite() {
            JsonView::Obj(
                Map::new(
                    |k: Seq<char>| m.dom().contains(k),
                    |k: Seq<char>|
                        if m.dom().contains(k) {
                            settled(m[k])
                        } else {
                            JsonView::Null
                        },
                ),
            )
        } else {
            d
        },
        _ => d,
    }
}

/// A document without other numbers than integers is written as it is.
pub proof fn lemma_settled(d: JsonView, n: nat)
    requires
        plain(d, n),
    ensures
        settled(d) == d,
    decreases n,
{
    match d {
        JsonView::Arr(s) => {
            assert forall|i: int| 0 <= i < s.len() implies settled(#[trigger] s[i]) == s[i] by {
                lemma_settled(s[i], (n - 1) as nat);
            }
            assert(settled(d)->Arr_0 =~= s);
        },
        JsonView::Obj(m) => {
            assert forall|k: Seq<char>| #[trigger] m.dom().contains(k) implies settled(m[k])
                == m[k] by {
                lemma_settled(m[k], (n - 1) as nat);
            }
            assert(settled(d)->Obj_0 =~= m);
        },
        _ => {},
    }
}

/// Trusted: `serde_json::from_str` reads a text into a value, or says why
/// it cannot; either depends on the text alone.
#[verifier::external_body]
fn read_value(s: &str) -> (r: Result<Value, String>)
    ensures
        match r {
            Ok(v) => text_doc(s@) == Ok::<JsonView, Seq<char>>(held(v)),
            Err(e) => text_doc(s@) == Err::<JsonView, Seq<char>>(e@),
        },
{
    serde_json::from_str(s).map_err(|e: serde_json::Error| e.to_string())
}

/// Trusted: a `serde_json::Value` is taken over variant by variant. An
/// integer of 64 bits keeps its value, any other number its text.
#[verifier::external_body]
fn taken(v: &Value) -> (r: Json)
    ensures
        r@ == held(*v),
{
    match v {
        Value::Null => Json::Null,
        Value::Bool(b) => Json::Bool(*b),
        Value::Number(n) => match (n.as_u64(), n.as_i64()) {
            (Some(u), _) => Json::Uint(u),
            (None, Some(i)) => Json::Int(i),
            (None, None) => Json::Other(n.to_string()),
        },
        Value::String(t) => Json::Str(t.clone()),
        Value::Array(a) => Json::Arr(a.iter().map(taken).collect()),
        Value::Object(m) => Json::Obj(m.iter().map(|(k, x)| (k.clone(), taken(x))).collect()),
    }
}

/// Trusted: a document is handed over to `serde_json::Value` variant by
/// variant, later members of one name in place of earlier ones, so that the
/// value holds the document. A number that is no integer is read from its
/// text by `serde_json::from_str`; a text that it refuses becomes null.
#[verifier::external_body]
fn given(d: &Json) -> (r: Value)
    ensures
        held(r) == settled(d@),
{
    match d {
        Json::Null => Value::Null,
        Json::Bool(b) => Value::from(*b),
        Json::Uint(n) => Value::from(*n),
        Json::Int(n) => Value::from(*n),
        Json::Other(t) => serde_json::from_str(t).unwrap_or(Value::Null),
        Json::Str(t) => Value::from(t.as_str()),
        Json::Arr(a) => Value::Array(a.iter().map(given).collect()),
        Json::Obj(m) => Value::Object(m.iter().map(|(k, x)| (k.clone(), given(x))).collect()),
    }
}

/// Trusted: `serde_json::to_string_pretty` writes a value with indentation.
/// Where the numbers of the value are integers, no member has the reserved
/// name and it is not nested too deep, the text is read back as that value.
#[verifier::external_body]
fn write_pretty(v: &Value) -> (r: String)
    ensures
        r@ == pretty_text(held(*v)),
        portable(held(*v)) ==> text_doc(r@) is Ok && text_doc(r@)->Ok_0 == held(*v),
{
    serde_json::to_string_pretty(v).unwrap_or_default()
}

/// Trusted: `serde_json::Value::to_string` writes a value on one line, the
/// control characters of its strings escaped; that of an object starts with
/// a brace. Where the numbers of the value are integers, no member has the
/// reserved name and it is not nested too deep, the text is read back as
/// that value.
#[verifier::external_body]
fn write_line(v: &Value) -> (r: String)
    ensures
        r@ == line_text(held(*v)),
        !r@.contains('\n'),
        held(*v) is Obj ==> r@.len() > 0 && r@[0] == '{',
        portable(held(*v)) ==> text_doc(r@) is Ok && text_doc(r@)->Ok_0 == held(*v),
{
    v.to_string()
}

/// What the outcome of reading a text shows.
pub open spec fn outcome(r: Result<Json, String>) -> Result<JsonView, Seq<char>> {
    match r {
        Ok(d) => Ok(d@),
        Err(e) => Err(e@),
    }
}

/// Read a document from a text.
pub fn read_text(s: &str) -> (r: Result<Json, String>)
    ensures
        outcome(r) == text_doc(s@),
{
    match read_value(s) {
        Ok(v) => Ok(taken(&v)),
        Err(e) => Err(e),
    }
}

/// The text of a response body. Where the numbers of the document are
/// integers, no member has the reserved name and it is not nested too deep,
/// the text is read back as the document.
pub fn body_text(d: &Json) -> (r: String)
    ensures
        r@ == pretty_text(settled(d@)),
        portable(d@) ==> settled(d@) == d@ && text_doc(r@) == Ok::<JsonView, Seq<char>>(d@),
{
    proof {
        if portable(d@) {
            lemma_settled(d@, DEPTH_LIMIT as nat);
        }
    }
    write_pretty(&given(d))
}

/// The text of a document on one line, without a line break in it; that of
/// an object starts with a brace. Where the numbers of the document are
/// integers, no member has the reserved name and it is not nested too deep,
/// the text is read back as the document.
pub fn one_line(d: &Json) -> (r: String)
    ensures
        r@ == line_text(settled(d@)),
        !r@.contains('\n'),
        d@ is Obj ==> r@.len() > 0 && r@[0] == '{',
        portable(d@) ==> settled(d@) == d@ && text_doc(r@) == Ok::<JsonView, Seq<char>>(d@),
{
    proof {
        if portable(d@) {
            lemma_settled(d@, DEPTH_LIMIT as nat);
        }
    }
    write_line(&given(d))
}

/// Settling a document keeps its members and its items; only a number that
/// is no integer is read again from its text.
pub proof fn law_settling_keeps_the_rest(d: JsonView, name: Seq<char>, i: int)
    ensures
        !(d is Other) && !(d is Arr) && !(d is Obj) ==> settled(d) == d,
        d matches JsonView::Obj(m) ==> m.dom().finite() ==> match d.get(name) {
            Some(x) => settled(d).get(name) == Some(settled(x)),
            None => settled(d).get(name) is None,
        },
        d matches JsonView::Arr(s) ==> (settled(d) matches JsonView::Arr(t) && t.len() == s.len()
            && (0 <= i < s.len() ==> t[i] == settled(s[i]))),
        d matches JsonView::Other(t) ==> match text_doc(t) {
            Ok(n) => settled(d) == n,
            Err(_) => settled(d) is Null,
        },
{
}

} // verus!
