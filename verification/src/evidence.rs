//! Gated evidence documents: what a registration states, what the journal
//! keeps of it, and what the catalogue shows.

use vstd::prelude::*;

use crate::data;
use crate::data::{Dup, Keyed};
use crate::hex;
use crate::hex::{hex_decode, hex_encode};
use crate::json::{Json, JsonView};
use crate::text;
use crate::text::{is_blank, join2};

verus! {

broadcast use {data::lemma_deep_push, data::lemma_deep_bytes, data::lemma_deep_len};

/// A gated evidence document.
#[derive(Debug, PartialEq, Eq)]
pub struct Evidence {
    pub id: String,
    pub content_type: String,
    pub description: String,
    /// The scope under which the document is released.
    pub required_scope: String,
    pub content: Vec<u8>,
}

/// What a document says.
#[verifier::ext_equal]
pub struct EvidenceView {
    pub id: Seq<char>,
    pub content_type: Seq<char>,
    pub description: Seq<char>,
    pub required_scope: Seq<char>,
    pub content: Seq<u8>,
}

impl DeepView for Evidence {
    type V = EvidenceView;

    open spec fn deep_view(&self) -> EvidenceView {
        EvidenceView {
            id: self.id@,
            content_type: self.content_type@,
            description: self.description@,
            required_scope: self.required_scope@,
            content: self.content@,
        }
    }
}

impl View for Evidence {
    type V = EvidenceView;

    open spec fn view(&self) -> EvidenceView {
        self.deep_view()
    }
}

impl Dup for Evidence {
    fn dup(&self) -> (r: Evidence) {
        Evidence {
            id: self.id.dup(),
            content_type: self.content_type.dup(),
            description: self.description.dup(),
            required_scope: self.required_scope.dup(),
            content: self.content.dup(),
        }
    }
}

impl Keyed for Evidence {
    open spec fn key_of(v: EvidenceView) -> Seq<char> {
        v.id
    }

    fn key(&self) -> (r: &String) {
        &self.id
    }
}

// ---------------------------------------------------------------------------
// Registrations as documents
// ---------------------------------------------------------------------------

/// A string member that is not blank.
pub open spec fn stated(d: JsonView, name: Seq<char>) -> Option<Seq<char>> {
    match d.str_at(name) {
        Some(s) => if text::trimmed(s).len() == 0 {
            None
        } else {
            Some(s)
        },
        None => None,
    }
}

/// A string member, or the default.
pub open spec fn text_or(d: JsonView, name: Seq<char>, default: Seq<char>) -> Seq<char> {
    match d.str_at(name) {
        Some(s) => s,
        None => default,
    }
}

/// The document that a body registers, or why it registers none.
pub open spec fn evidence_of(d: JsonView) -> Result<EvidenceView, Seq<char>> {
    if !(d is Obj) {
        Err("body must be a JSON object"@)
    } else {
        match (stated(d, "id"@), stated(d, "requiredScope"@), d.str_at("contentHex"@)) {
            (None, _, _) => Err("`id` is required"@),
            (Some(_), None, _) => Err(
                "`requiredScope` is required — ungated evidence is a public link, not evidence"@,
            ),
            (Some(_), Some(_), None) => Err("`contentHex` is required"@),
            (Some(id), Some(required_scope), Some(h)) => match hex::hex_value(h) {
                Err(e) => Err("`contentHex`: "@ + e),
                Ok(content) => Ok(
                    EvidenceView {
                        id,
                        content_type: text_or(d, "contentType"@, "application/octet-stream"@),
                        description: text_or(d, "description"@, ""@),
                        required_scope,
                        content,
                    },
                ),
            },
        }
    }
}

fn read_stated(d: &Json, name: &str) -> (r: Option<String>)
    ensures
        r.deep_view() == stated(d@, name@),
{
    match d.str_at(name) {
        Some(s) => if is_blank(s) {
            None
        } else {
            Some(s.to_owned())
        },
        None => None,
    }
}

fn read_text_or(d: &Json, name: &str, default: &str) -> (r: String)
    ensures
        r@ == text_or(d@, name@, default@),
{
    match d.str_at(name) {
        Some(s) => s.to_owned(),
        None => default.to_owned(),
    }
}

/// Read the document that a body registers.
pub fn evidence_from_value(d: &Json) -> (r: Result<Evidence, String>)
    ensures
        data::shows(r, evidence_of(d@)),
{
    if !d.is_object() {
        return Err("body must be a JSON object".to_owned());
    }
    let id = match read_stated(d, "id") {
        Some(id) => id,
        None => return Err("`id` is required".to_owned()),
    };
    let required_scope = match read_stated(d, "requiredScope") {
        Some(s) => s,
        None => return Err(
            "`requiredScope` is required — ungated evidence is a public link, not evidence".to_owned(),
        ),
    };
    let content = match d.str_at("contentHex") {
        Some(h) => match hex_decode(h) {
            Ok(b) => b,
            Err(e) => return Err(join2("`contentHex`: ", e.as_str())),
        },
        None => return Err("`contentHex` is required".to_owned()),
    };
    Ok(
        Evidence {
            id,
            content_type: read_text_or(d, "contentType", "application/octet-stream"),
            description: read_text_or(d, "description", ""),
            required_scope,
            content,
        },
    )
}

/// What a registration states: the bytes in hex, so that they are read back
/// exactly.
pub open spec fn evidence_value(e: EvidenceView) -> JsonView {
    JsonView::object().put("id"@, JsonView::Str(e.id)).put(
        "contentType"@,
        JsonView::Str(e.content_type),
    ).put("description"@, JsonView::Str(e.description)).put(
        "requiredScope"@,
        JsonView::Str(e.required_scope),
    ).put("contentHex"@, JsonView::Str(hex::hex_text(e.content)))
}

/// State a registration.
pub fn evidence_to_value(e: &Evidence) -> (r: Json)
    ensures
        r@ == evidence_value(e@),
{
    Json::object().with("id", Json::text(e.id.as_str())).with(
        "contentType",
        Json::text(e.content_type.as_str()),
    ).with("description", Json::text(e.description.as_str())).with(
        "requiredScope",
        Json::text(e.required_scope.as_str()),
    ).with("contentHex", Json::Str(hex_encode(e.content.as_slice())))
}

// ---------------------------------------------------------------------------
// The catalogue
// ---------------------------------------------------------------------------

/// The catalogue metadata of a document: its size, never its content.
pub open spec fn meta_of(e: EvidenceView) -> JsonView {
    JsonView::object().put("id"@, JsonView::Str(e.id)).put(
        "contentType"@,
        JsonView::Str(e.content_type),
    ).put("description"@, JsonView::Str(e.description)).put(
        "requiredScope"@,
        JsonView::Str(e.required_scope),
    ).put("size"@, JsonView::Num(e.content.len() as int))
}

/// The catalogue of the documents.
pub open spec fn catalogue_of(s: Seq<EvidenceView>) -> JsonView {
    JsonView::object().put("count"@, JsonView::Num(s.len() as int)).put(
        "evidence"@,
        JsonView::Arr(Seq::new(s.len(), |i: int| meta_of(s[i]))),
    )
}

/// Show the catalogue metadata of a document.
pub fn render_meta(e: &Evidence) -> (r: Json)
    ensures
        r@ == meta_of(e@),
{
    Json::object().with("id", Json::text(e.id.as_str())).with(
        "contentType",
        Json::text(e.content_type.as_str()),
    ).with("description", Json::text(e.description.as_str())).with(
        "requiredScope",
        Json::text(e.required_scope.as_str()),
    ).with("size", Json::Uint(e.content.len() as u64))
}

/// Show the catalogue of the documents.
pub fn render_catalogue(documents: &Vec<Evidence>) -> (r: Json)
    ensures
        r@ == catalogue_of(documents.deep_view()),
{
    let ghost s = documents.deep_view();
    let mut items: Vec<Json> = Vec::new();
    for k in 0..documents.len()
        invariant
            s == documents.deep_view(),
            items@.len() == k,
            forall|i: int| 0 <= i < k ==> (#[trigger] items@[i])@ == meta_of(s[i]),
    {
        assert(s[k as int] == documents@[k as int].deep_view());
        items.push(render_meta(&documents[k]));
    }
    let n: usize = documents.len();
    assert(items.deep_view() =~= Seq::new(s.len(), |i: int| meta_of(s[i])));
    Json::object().with("count", Json::Uint(n as u64)).with("evidence", Json::list(items))
}

} // verus!
