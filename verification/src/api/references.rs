//! References to endpoints inside texts: a method, a space and a path.

use vstd::prelude::*;

use crate::api::paths;
use crate::json::JsonView;
use crate::wire;

verus! {

/// The methods that a reference may name.
pub open spec fn is_verb(w: Seq<char>) -> bool {
    ||| w == "GET"@
    ||| w == "POST"@
    ||| w == "PUT"@
    ||| w == "DELETE"@
    ||| w == "PATCH"@
}

/// The character ends the path of a reference.
pub open spec fn ends_path(c: char) -> bool {
    c == ' ' || c == '"' || c == '<' || c == '?'
}

/// Where the path that starts at `from` ends.
pub open spec fn path_end(v: Seq<char>, from: int) -> int
    decreases v.len() - from,
{
    if from < v.len() && !ends_path(v[from]) {
        path_end(v, from + 1)
    } else {
        from
    }
}

/// The text refers to an endpoint at `i`: the method, a space and a path.
pub open spec fn refers(v: Seq<char>, i: int, verb: Seq<char>) -> bool {
    let n = verb.len() as int;
    &&& is_verb(verb)
    &&& 0 <= i
    &&& i + n + 1 < v.len()
    &&& v.subrange(i, i + n) == verb
    &&& v[i + n] == ' '
    &&& v[i + n + 1] == '/'
}

/// The path that a reference names, without a query.
pub open spec fn path_named(v: Seq<char>, i: int, verb: Seq<char>) -> Seq<char> {
    let from = i + verb.len() + 1;
    v.subrange(from, path_end(v, from))
}

/// Every reference in the text names a routed path.
pub open spec fn names_only_routes(v: Seq<char>) -> bool {
    forall|i: int, verb: Seq<char>| #[trigger]
        refers(v, i, verb) ==> paths::is_routed(path_named(v, i, verb))
}

/// Every text of a document that is nested at most `n` deep, the names of
/// members too, names routed paths only.
pub open spec fn only_routes(d: JsonView, n: nat) -> bool
    decreases n,
{
    match d {
        JsonView::Str(t) => names_only_routes(t),
        JsonView::Arr(s) => n > 0 && forall|i: int|
            0 <= i < s.len() ==> only_routes(#[trigger] s[i], (n - 1) as nat),
        JsonView::Obj(m) => n > 0 && forall|k: Seq<char>| #[trigger]
            m.dom().contains(k) ==> names_only_routes(k) && only_routes(m[k], (n - 1) as nat),
        _ => true,
    }
}

// ---------------------------------------------------------------------------
// Reading a text from left to right
// ---------------------------------------------------------------------------

/// The last character of a method.
pub open spec fn ends_verb(c: char) -> bool {
    c == 'T' || c == 'E' || c == 'H'
}

/// From `j` on no space stands between the end of a method and a path.
pub open spec fn quiet(v: Seq<char>, j: int) -> bool
    decreases v.len() - j,
{
    j + 1 >= v.len() || (!(ends_verb(v[j - 1]) && v[j] == ' ' && v[j + 1] == '/') && quiet(
        v,
        j + 1,
    ))
}

proof fn lemma_quiet(v: Seq<char>, j: int, i: int)
    requires
        quiet(v, j),
        j <= i < v.len() - 1,
    ensures
        !(ends_verb(v[i - 1]) && v[i] == ' ' && v[i + 1] == '/'),
    decreases i - j,
{
    if j < i {
        lemma_quiet(v, j + 1, i);
    }
}

proof fn lemma_verb(v: Seq<char>, i: int, verb: Seq<char>)
    requires
        refers(v, i, verb),
    ensures
        verb.len() >= 3,
        ends_verb(v[i + verb.len() - 1]),
{
    reveal_strlit("GET");
    reveal_strlit("POST");
    reveal_strlit("PUT");
    reveal_strlit("DELETE");
    reveal_strlit("PATCH");
    let n = verb.len() as int;
    assert(v[i + n - 1] == v.subrange(i, i + n)[n - 1]);
}

/// A text that is quiet throughout refers to nothing.
pub proof fn lemma_refers_to_nothing(v: Seq<char>)
    requires
        quiet(v, 1),
    ensures
        names_only_routes(v),
{
    assert forall|i: int, verb: Seq<char>| #[trigger] refers(v, i, verb) implies paths::is_routed(
        path_named(v, i, verb),
    ) by {
        lemma_verb(v, i, verb);
        lemma_quiet(v, 1, i + verb.len());
    }
}

/// A text that starts with a method of `n` letters and a routed path, and is
/// quiet after it, refers to that path alone.
pub proof fn lemma_refers_once(v: Seq<char>, n: int, path: Seq<char>)
    requires
        forall|j: int| 0 <= j < n ==> (#[trigger] v[j]) != ' ',
        0 <= n < path_end(v, n + 1) <= v.len(),
        v.subrange(n + 1, path_end(v, n + 1)) == path,
        paths::is_routed(path),
        quiet(v, n + 1),
    ensures
        names_only_routes(v),
{
    assert forall|i: int, verb: Seq<char>| #[trigger] refers(v, i, verb) implies paths::is_routed(
        path_named(v, i, verb),
    ) by {
        lemma_verb(v, i, verb);
        let q = i + verb.len();
        if q > n {
            lemma_quiet(v, n + 1, q);
        } else if q < n {
            assert(v[q] == ' ');
        }
    }
}

/// A list of texts that name routed paths only.
pub proof fn lemma_strings(s: Seq<Seq<char>>)
    requires
        forall|i: int| 0 <= i < s.len() ==> names_only_routes(#[trigger] s[i]),
    ensures
        only_routes(JsonView::Arr(wire::strings(s)), 1),
{
    let docs = wire::strings(s);
    assert forall|i: int| 0 <= i < docs.len() implies only_routes(#[trigger] docs[i], 0) by {
        assert(names_only_routes(s[i]));
    }
}

/// A member that names routed paths only leaves the document so.
pub broadcast proof fn lemma_put(d: JsonView, name: Seq<char>, value: JsonView, n: nat)
    requires
        only_routes(d, n),
        names_only_routes(name),
        n > 0,
        only_routes(value, (n - 1) as nat),
    ensures
        #[trigger] only_routes(d.put(name, value), n),
{
    if let JsonView::Obj(m) = d {
        let now = m.insert(name, value);
        assert forall|k: Seq<char>| #[trigger] now.dom().contains(k) implies names_only_routes(k)
            && only_routes(now[k], (n - 1) as nat) by {
            if k != name {
                assert(m.dom().contains(k));
            }
        }
    }
}

} // verus!
