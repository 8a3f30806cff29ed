//! Containers: element-wise copies, and vectors kept in ascending key
//! order.

use vstd::prelude::*;

use crate::text;
use crate::text::{same_text, text_before};

verus! {

/// A value that can be copied, the copy showing the same contents.
pub trait Dup: DeepView + Sized {
    fn dup(&self) -> (r: Self)
        ensures
            r.deep_view() == self.deep_view(),
    ;
}

impl Dup for u8 {
    fn dup(&self) -> (r: u8) {
        *self
    }
}

impl Dup for String {
    fn dup(&self) -> (r: String) {
        self.clone()
    }
}

impl<T: Dup> Dup for Option<T> {
    fn dup(&self) -> (r: Option<T>) {
        match self {
            Some(x) => Some(x.dup()),
            None => None,
        }
    }
}

impl<T: Dup> Dup for Vec<T> {
    fn dup(&self) -> (r: Vec<T>) {
        let mut out: Vec<T> = Vec::new();
        for k in 0..self.len()
            invariant
                out@.len() == k,
                forall|i: int| 0 <= i < k ==> out@[i].deep_view() == self@[i].deep_view(),
        {
            out.push(self[k].dup());
        }
        assert(out.deep_view() =~= self.deep_view());
        out
    }
}

/// The outcome `r` shows the outcome `s`: the same value, or the same
/// reason.
pub open spec fn shows<T: DeepView>(r: Result<T, String>, s: Result<T::V, Seq<char>>) -> bool {
    match (r, s) {
        (Ok(x), Ok(y)) => x.deep_view() == y,
        (Err(e), Err(f)) => e@ == f,
        _ => false,
    }
}

/// Pushing onto a vector pushes onto what it shows.
pub broadcast proof fn lemma_deep_push<T: DeepView>(v: Vec<T>, w: Vec<T>, x: T)
    requires
        w@ == #[trigger] v@.push(x),
    ensures
        #[trigger] w.deep_view() == v.deep_view().push(x.deep_view()),
{
    assert(w.deep_view() =~= v.deep_view().push(x.deep_view()));
}

/// A vector of bytes shows its bytes.
pub broadcast proof fn lemma_deep_bytes(v: Vec<u8>)
    ensures
        #[trigger] v.deep_view() == v@,
{
    assert(v.deep_view() =~= v@);
}

/// A vector shows as many elements as it has.
pub broadcast proof fn lemma_deep_len<T: DeepView>(v: Vec<T>)
    ensures
        (#[trigger] v.deep_view()).len() == v@.len(),
{
}

// ---------------------------------------------------------------------------
// Ascending vectors
// ---------------------------------------------------------------------------

/// A value filed under a text key.
pub trait Keyed: DeepView + Sized {
    spec fn key_of(v: Self::V) -> Seq<char>;

    fn key(&self) -> (r: &String)
        ensures
            r@ == Self::key_of(self.deep_view()),
    ;
}

/// The first element filed under `k`.
pub open spec fn lookup<T: Keyed>(s: Seq<T::V>, k: Seq<char>) -> Option<T::V>
    decreases s.len(),
{
    if s.len() == 0 {
        None
    } else if T::key_of(s[0]) == k {
        Some(s[0])
    } else {
        lookup::<T>(s.drop_first(), k)
    }
}

/// `s` with `x` filed under its key: in place of the element of that key,
/// else before the first element of a greater key.
pub open spec fn filed<T: Keyed>(s: Seq<T::V>, x: T::V) -> Seq<T::V>
    decreases s.len(),
{
    if s.len() == 0 {
        seq![x]
    } else if T::key_of(s[0]) == T::key_of(x) {
        seq![x] + s.drop_first()
    } else if text::text_lt(T::key_of(x), T::key_of(s[0])) {
        seq![x] + s
    } else {
        seq![s[0]] + filed::<T>(s.drop_first(), x)
    }
}

/// The elements stand in ascending key order, each key once.
pub open spec fn ascending<T: Keyed>(s: Seq<T::V>) -> bool {
    forall|i: int, j: int|
        0 <= i < j < s.len() ==> text::text_lt(#[trigger] T::key_of(s[i]), #[trigger] T::key_of(s[j]))
}

/// What `filed` leaves under each key: `x` under its own, the rest as before.
pub proof fn lemma_filed_lookup<T: Keyed>(s: Seq<T::V>, x: T::V, k: Seq<char>)
    ensures
        lookup::<T>(filed::<T>(s, x), k) == (if k == T::key_of(x) {
            Some(x)
        } else {
            lookup::<T>(s, k)
        }),
    decreases s.len(),
{
    let f = filed::<T>(s, x);
    if s.len() == 0 {
        assert(f.drop_first() =~= s);
    } else if T::key_of(s[0]) == T::key_of(x) {
        assert(f.drop_first() =~= s.drop_first());
    } else if text::text_lt(T::key_of(x), T::key_of(s[0])) {
        assert(f.drop_first() =~= s);
    } else {
        assert(f.drop_first() =~= filed::<T>(s.drop_first(), x));
        lemma_filed_lookup::<T>(s.drop_first(), x, k);
    }
}

/// Every element of `filed(s, x)` is `x` or an element of `s`.
proof fn lemma_filed_from<T: Keyed>(s: Seq<T::V>, x: T::V)
    ensures
        forall|i: int|
            0 <= i < filed::<T>(s, x).len() ==> filed::<T>(s, x)[i] == x || s.contains(
                #[trigger] filed::<T>(s, x)[i],
            ),
    decreases s.len(),
{
    let f = filed::<T>(s, x);
    if s.len() > 0 {
        let rest = s.drop_first();
        assert forall|e: T::V| rest.contains(e) implies s.contains(e) by {
            let i = choose|i: int| 0 <= i < rest.len() && rest[i] == e;
            assert(s[i + 1] == e);
        }
        if T::key_of(s[0]) == T::key_of(x) {
            assert forall|i: int| 0 <= i < f.len() implies f[i] == x || s.contains(
                #[trigger] f[i],
            ) by {
                if i > 0 {
                    assert(f[i] == s[i]);
                }
            }
        } else if text::text_lt(T::key_of(x), T::key_of(s[0])) {
            assert forall|i: int| 0 <= i < f.len() implies f[i] == x || s.contains(
                #[trigger] f[i],
            ) by {
                if i > 0 {
                    assert(f[i] == s[i - 1]);
                }
            }
        } else {
            lemma_filed_from::<T>(rest, x);
            let g = filed::<T>(rest, x);
            assert forall|i: int| 0 <= i < f.len() implies f[i] == x || s.contains(
                #[trigger] f[i],
            ) by {
                if i > 0 {
                    assert(f[i] == g[i - 1]);
                } else {
                    assert(f[0] == s[0]);
                }
            }
        }
    }
}

/// Filing keeps the elements in ascending order.
pub proof fn lemma_filed_ascending<T: Keyed>(s: Seq<T::V>, x: T::V)
    requires
        ascending::<T>(s),
    ensures
        ascending::<T>(filed::<T>(s, x)),
    decreases s.len(),
{
    let f = filed::<T>(s, x);
    if s.len() > 0 {
        let rest = s.drop_first();
        assert(ascending::<T>(rest));
        if T::key_of(s[0]) == T::key_of(x) {
            assert forall|i: int, j: int| 0 <= i < j < f.len() implies text::text_lt(
                #[trigger] T::key_of(f[i]),
                #[trigger] T::key_of(f[j]),
            ) by {
                assert(f[j] == s[j]);
                assert(T::key_of(f[i]) == T::key_of(s[i]));
            }
        } else if text::text_lt(T::key_of(x), T::key_of(s[0])) {
            assert forall|i: int, j: int| 0 <= i < j < f.len() implies text::text_lt(
                #[trigger] T::key_of(f[i]),
                #[trigger] T::key_of(f[j]),
            ) by {
                assert(f[j] == s[j - 1]);
                if i == 0 {
                    if j > 1 {
                        assert(text::text_lt(T::key_of(s[0]), T::key_of(s[j - 1])));
                        text::lemma_text_lt_transitive(
                            T::key_of(x),
                            T::key_of(s[0]),
                            T::key_of(s[j - 1]),
                        );
                    }
                } else {
                    assert(f[i] == s[i - 1]);
                }
            }
        } else {
            lemma_filed_ascending::<T>(rest, x);
            lemma_filed_from::<T>(rest, x);
            text::lemma_text_lt_total(T::key_of(s[0]), T::key_of(x));
            let g = filed::<T>(rest, x);
            assert forall|i: int, j: int| 0 <= i < j < f.len() implies text::text_lt(
                #[trigger] T::key_of(f[i]),
                #[trigger] T::key_of(f[j]),
            ) by {
                assert(f[j] == g[j - 1]);
                if i == 0 {
                    assert(f[0] == s[0]);
                    if g[j - 1] != x {
                        let m = choose|m: int| 0 <= m < rest.len() && rest[m] == g[j - 1];
                        assert(s[m + 1] == g[j - 1]);
                        assert(text::text_lt(T::key_of(s[0]), T::key_of(s[m + 1])));
                    }
                } else {
                    assert(f[i] == g[i - 1]);
                }
            }
        }
    }
}

/// Find the element filed under `k`.
pub fn position<T: Keyed>(v: &Vec<T>, k: &str) -> (r: Option<usize>)
    ensures
        match r {
            Some(i) => i < v@.len() && lookup::<T>(v.deep_view(), k@) == Some(v@[i as int].deep_view())
                && T::key_of(v@[i as int].deep_view()) == k@ && (forall|j: int|
                0 <= j < i ==> T::key_of(#[trigger] v.deep_view()[j]) != k@),
            None => lookup::<T>(v.deep_view(), k@) is None,
        },
{
    let ghost s = v.deep_view();
    let mut i: usize = 0;
    assert(s.skip(0) =~= s);
    while i < v.len()
        invariant
            s == v.deep_view(),
            i <= v@.len(),
            lookup::<T>(s, k@) == lookup::<T>(s.skip(i as int), k@),
            forall|j: int| 0 <= j < i ==> T::key_of(#[trigger] s[j]) != k@,
        decreases v@.len() - i,
    {
        assert(s.skip(i as int)[0] == v@[i as int].deep_view());
        if same_text(v[i].key().as_str(), k) {
            return Some(i);
        }
        assert(s.skip(i as int).drop_first() =~= s.skip(i + 1));
        i = i + 1;
    }
    None
}

/// The element filed under `k`.
pub fn find_by_key<'a, T: Keyed>(v: &'a Vec<T>, k: &str) -> (r: Option<&'a T>)
    ensures
        match r {
            Some(x) => lookup::<T>(v.deep_view(), k@) == Some(x.deep_view()),
            None => lookup::<T>(v.deep_view(), k@) is None,
        },
{
    match position(v, k) {
        Some(i) => Some(&v[i]),
        None => None,
    }
}

/// File `x` under its key.
pub fn insert_keyed<T: Keyed>(v: &mut Vec<T>, x: T)
    ensures
        final(v).deep_view() == filed::<T>(old(v).deep_view(), x.deep_view()),
{
    let ghost s = v.deep_view();
    let ghost y = x.deep_view();
    let mut i: usize = 0;
    assert(s.skip(0) =~= s);
    assert(s.take(0) + filed::<T>(s.skip(0), y) =~= filed::<T>(s, y));
    while i < v.len()
        invariant
            *v == *old(v),
            s == v.deep_view(),
            y == x.deep_view(),
            i <= v@.len(),
            filed::<T>(s, y) == s.take(i as int) + filed::<T>(s.skip(i as int), y),
        decreases v@.len() - i,
    {
        let ghost t = s.skip(i as int);
        assert(t[0] == v@[i as int].deep_view());
        assert(t.drop_first() =~= s.skip(i + 1));
        if same_text(v[i].key().as_str(), x.key().as_str()) {
            v.set(i, x);
            assert(v.deep_view() =~= filed::<T>(s, y));
            return;
        }
        if text_before(x.key().as_str(), v[i].key().as_str()) {
            v.insert(i, x);
            assert(v.deep_view() =~= filed::<T>(s, y));
            return;
        }
        assert(s.take(i + 1) + filed::<T>(s.skip(i + 1), y) =~= s.take(i as int) + filed::<T>(
            t,
            y,
        ));
        i = i + 1;
    }
    v.push(x);
    assert(v.deep_view() =~= filed::<T>(s, y));
}

/// Filing a text adds it to the set of the texts.
pub proof fn lemma_filed_set<T: Keyed<V = Seq<char>>>(s: Seq<Seq<char>>, x: Seq<char>)
    requires
        forall|v: Seq<char>| #[trigger] T::key_of(v) == v,
    ensures
        filed::<T>(s, x).to_set() == s.to_set().insert(x),
    decreases s.len(),
{
    broadcast use vstd::seq_lib::group_seq_properties;

    let f = filed::<T>(s, x);
    if s.len() == 0 {
        assert(f[0] == x);
        assert(f.to_set() =~= s.to_set().insert(x));
    } else {
        let rest = s.drop_first();
        assert(s =~= seq![s[0]] + rest);
        if T::key_of(s[0]) == T::key_of(x) {
            assert(s[0] == x);
            assert(f =~= s);
            assert(s.contains(x));
        } else if text::text_lt(T::key_of(x), T::key_of(s[0])) {
            assert forall|y: Seq<char>| f.contains(y) <==> s.contains(y) || y == x by {
                if f.contains(y) {
                    let i = choose|i: int| 0 <= i < f.len() && f[i] == y;
                    if i > 0 {
                        assert(s[i - 1] == y);
                    }
                }
                if s.contains(y) {
                    let i = choose|i: int| 0 <= i < s.len() && s[i] == y;
                    assert(f[i + 1] == y);
                }
                assert(f[0] == x);
            }
        } else {
            lemma_filed_set::<T>(rest, x);
            let g = filed::<T>(rest, x);
            assert forall|y: Seq<char>| f.contains(y) <==> s.contains(y) || y == x by {
                assert(g.to_set().contains(y) <==> rest.to_set().insert(x).contains(y));
                if f.contains(y) {
                    let i = choose|i: int| 0 <= i < f.len() && f[i] == y;
                    if i > 0 {
                        assert(g[i - 1] == y);
                        assert(g.contains(y));
                        if rest.contains(y) {
                            let k = choose|k: int| 0 <= k < rest.len() && rest[k] == y;
                            assert(s[k + 1] == y);
                        }
                    } else {
                        assert(s[0] == y);
                    }
                }
                if s.contains(y) || y == x {
                    if y == s[0] {
                        assert(f[0] == y);
                    } else {
                        if s.contains(y) {
                            let k = choose|k: int| 0 <= k < s.len() && s[k] == y;
                            assert(rest[k - 1] == y);
                        }
                        assert(g.contains(y));
                        let i = choose|i: int| 0 <= i < g.len() && g[i] == y;
                        assert(f[i + 1] == y);
                    }
                }
            }
        }
        assert(f.to_set() =~= s.to_set().insert(x));
    }
}

/// Ascending texts are as many as their set.
pub proof fn lemma_ascending_count<T: Keyed<V = Seq<char>>>(s: Seq<Seq<char>>)
    requires
        forall|v: Seq<char>| #[trigger] T::key_of(v) == v,
        ascending::<T>(s),
    ensures
        s.to_set().finite(),
        s.to_set().len() == s.len(),
{
    assert(s.no_duplicates()) by {
        assert forall|i: int, j: int| 0 <= i < j < s.len() implies s[i] != s[j] by {
            assert(text::text_lt(T::key_of(s[i]), T::key_of(s[j])));
            text::lemma_text_lt_irreflexive(s[i]);
        }
    }
    s.unique_seq_to_set();
}

// ---------------------------------------------------------------------------
// Sorting by key
// ---------------------------------------------------------------------------

/// `s` with `x` placed before the first element of a greater key.
pub open spec fn placed<T: Keyed>(s: Seq<T::V>, x: T::V) -> Seq<T::V>
    decreases s.len(),
{
    if s.len() == 0 {
        seq![x]
    } else if text::text_lt(T::key_of(x), T::key_of(s[0])) {
        seq![x] + s
    } else {
        seq![s[0]] + placed::<T>(s.drop_first(), x)
    }
}

/// The elements of `s`, sorted by key; elements of one key keep their order.
pub open spec fn sorted<T: Keyed>(s: Seq<T::V>) -> Seq<T::V>
    decreases s.len(),
{
    if s.len() == 0 {
        Seq::empty()
    } else {
        placed::<T>(sorted::<T>(s.drop_last()), s.last())
    }
}

/// No element stands behind one of a greater key.
pub open spec fn in_order<T: Keyed>(s: Seq<T::V>) -> bool {
    forall|i: int, j: int|
        0 <= i < j < s.len() ==> !text::text_lt(
            #[trigger] T::key_of(s[j]),
            #[trigger] T::key_of(s[i]),
        )
}

proof fn lemma_placed<T: Keyed>(s: Seq<T::V>, x: T::V)
    requires
        in_order::<T>(s),
    ensures
        in_order::<T>(placed::<T>(s, x)),
        placed::<T>(s, x).to_multiset() =~= s.to_multiset().insert(x),
        placed::<T>(s, x).len() == s.len() + 1,
    decreases s.len(),
{
    broadcast use vstd::seq_lib::group_to_multiset_ensures;

    let p = placed::<T>(s, x);
    if s.len() == 0 {
        assert(p =~= s.push(x));
    } else if text::text_lt(T::key_of(x), T::key_of(s[0])) {
        assert(p =~= s.insert(0, x));
        assert forall|i: int, j: int| 0 <= i < j < p.len() implies !text::text_lt(
            #[trigger] T::key_of(p[j]),
            #[trigger] T::key_of(p[i]),
        ) by {
            assert(p[j] == s[j - 1]);
            if i == 0 {
                if text::text_lt(T::key_of(s[j - 1]), T::key_of(x)) {
                    text::lemma_text_lt_transitive(
                        T::key_of(s[j - 1]),
                        T::key_of(x),
                        T::key_of(s[0]),
                    );
                    if j > 1 {
                        assert(!text::text_lt(T::key_of(s[j - 1]), T::key_of(s[0])));
                    } else {
                        text::lemma_text_lt_irreflexive(T::key_of(s[0]));
                    }
                }
            } else {
                assert(p[i] == s[i - 1]);
                assert(!text::text_lt(T::key_of(s[j - 1]), T::key_of(s[i - 1])));
            }
        }
    } else {
        let rest = s.drop_first();
        assert(in_order::<T>(rest)) by {
            assert forall|i: int, j: int| 0 <= i < j < rest.len() implies !text::text_lt(
                #[trigger] T::key_of(rest[j]),
                #[trigger] T::key_of(rest[i]),
            ) by {
                assert(!text::text_lt(T::key_of(s[j + 1]), T::key_of(s[i + 1])));
            }
        }
        lemma_placed::<T>(rest, x);
        let q = placed::<T>(rest, x);
        assert(s =~= rest.insert(0, s[0]));
        assert(p =~= q.insert(0, s[0]));
        assert forall|i: int, j: int| 0 <= i < j < p.len() implies !text::text_lt(
            #[trigger] T::key_of(p[j]),
            #[trigger] T::key_of(p[i]),
        ) by {
            assert(p[j] == q[j - 1]);
            if i == 0 {
                assert(q.to_multiset().contains(q[j - 1]));
                if q[j - 1] != x {
                    assert(rest.to_multiset().contains(q[j - 1]));
                    let m = choose|m: int| 0 <= m < rest.len() && rest[m] == q[j - 1];
                    assert(!text::text_lt(T::key_of(s[m + 1]), T::key_of(s[0])));
                }
            } else {
                assert(p[i] == q[i - 1]);
                assert(!text::text_lt(T::key_of(q[j - 1]), T::key_of(q[i - 1])));
            }
        }
    }
}

/// Sorting gives the same elements, in the order of their keys.
pub proof fn law_sorted<T: Keyed>(s: Seq<T::V>)
    ensures
        in_order::<T>(sorted::<T>(s)),
        sorted::<T>(s).to_multiset() == s.to_multiset(),
        sorted::<T>(s).len() == s.len(),
    decreases s.len(),
{
    broadcast use vstd::seq_lib::group_to_multiset_ensures;

    if s.len() > 0 {
        law_sorted::<T>(s.drop_last());
        lemma_placed::<T>(sorted::<T>(s.drop_last()), s.last());
        assert(s =~= s.drop_last().push(s.last()));
    }
}

/// Place `x` before the first element of a greater key.
pub fn place<T: Keyed>(v: &mut Vec<T>, x: T)
    ensures
        final(v).deep_view() == placed::<T>(old(v).deep_view(), x.deep_view()),
{
    let ghost s = v.deep_view();
    let ghost y = x.deep_view();
    let mut i: usize = 0;
    assert(s.skip(0) =~= s);
    assert(s.take(0) + placed::<T>(s.skip(0), y) =~= placed::<T>(s, y));
    while i < v.len()
        invariant
            *v == *old(v),
            s == v.deep_view(),
            y == x.deep_view(),
            i <= v@.len(),
            placed::<T>(s, y) == s.take(i as int) + placed::<T>(s.skip(i as int), y),
        decreases v@.len() - i,
    {
        let ghost t = s.skip(i as int);
        assert(t[0] == v@[i as int].deep_view());
        assert(t.drop_first() =~= s.skip(i + 1));
        if text_before(x.key().as_str(), v[i].key().as_str()) {
            v.insert(i, x);
            assert(v.deep_view() =~= placed::<T>(s, y));
            return;
        }
        assert(s.take(i + 1) + placed::<T>(s.skip(i + 1), y) =~= s.take(i as int) + placed::<T>(
            t,
            y,
        ));
        i = i + 1;
    }
    v.push(x);
    assert(v.deep_view() =~= placed::<T>(s, y));
}

/// Looking a key up gives the first element that has it, and nothing exactly
/// when no element has it.
pub proof fn law_lookup<T: Keyed>(s: Seq<T::V>, k: Seq<char>)
    ensures
        match lookup::<T>(s, k) {
            Some(x) => exists|i: int|
                0 <= i < s.len() && #[trigger] s[i] == x && T::key_of(x) == k && forall|j: int|
                    0 <= j < i ==> T::key_of(#[trigger] s[j]) != k,
            None => forall|j: int| 0 <= j < s.len() ==> T::key_of(#[trigger] s[j]) != k,
        },
    decreases s.len(),
{
    if s.len() > 0 {
        let rest = s.drop_first();
        if T::key_of(s[0]) == k {
            assert(s[0] == lookup::<T>(s, k)->0);
        } else {
            law_lookup::<T>(rest, k);
            match lookup::<T>(s, k) {
                Some(x) => {
                    let i = choose|i: int|
                        0 <= i < rest.len() && #[trigger] rest[i] == x && T::key_of(x) == k
                            && forall|j: int| 0 <= j < i ==> T::key_of(#[trigger] rest[j]) != k;
                    assert(s[i + 1] == x);
                    assert forall|j: int| 0 <= j < i + 1 implies T::key_of(#[trigger] s[j]) != k by {
                        if j > 0 {
                            assert(rest[j - 1] == s[j]);
                        }
                    }
                },
                None => {
                    assert forall|j: int| 0 <= j < s.len() implies T::key_of(#[trigger] s[j]) != k by {
                        if j > 0 {
                            assert(rest[j - 1] == s[j]);
                        }
                    }
                },
            }
        }
    }
}

/// Filing an element keeps every element of another key, in its order, and
/// puts the new one in the place of the one that had its key, or among the
/// others.
pub proof fn law_filed_keeps_the_others<T: Keyed>(s: Seq<T::V>, x: T::V)
    requires
        ascending::<T>(s),
    ensures
        filed::<T>(s, x).contains(x),
        forall|i: int|
            0 <= i < s.len() && T::key_of(#[trigger] s[i]) != T::key_of(x) ==> filed::<T>(
                s,
                x,
            ).contains(s[i]),
        forall|i: int|
            0 <= i < filed::<T>(s, x).len() ==> (#[trigger] filed::<T>(s, x)[i] == x || (s.contains(
                filed::<T>(s, x)[i],
            ) && T::key_of(filed::<T>(s, x)[i]) != T::key_of(x))),
        filed::<T>(s, x).len() == s.len() + (if lookup::<T>(s, T::key_of(x)) is Some {
            0int
        } else {
            1
        }),
    decreases s.len(),
{
    let f = filed::<T>(s, x);
    if s.len() == 0 {
        assert(f[0] == x);
    } else {
        let rest = s.drop_first();
        assert(forall|i: int| 0 <= i < rest.len() ==> #[trigger] rest[i] == s[i + 1]);
        if T::key_of(s[0]) == T::key_of(x) {
            assert(f[0] == x);
            assert forall|i: int|
                0 <= i < s.len() && T::key_of(#[trigger] s[i]) != T::key_of(x) implies f.contains(
                s[i],
            ) by {
                assert(f[i] == s[i]);
            }
            assert forall|i: int| 0 <= i < f.len() implies (#[trigger] f[i] == x || (s.contains(
                f[i],
            ) && T::key_of(f[i]) != T::key_of(x))) by {
                if i > 0 {
                    assert(f[i] == s[i]);
                    text::lemma_text_lt_irreflexive(T::key_of(x));
                    assert(text::text_lt(T::key_of(s[0]), T::key_of(s[i])));
                }
            }
        } else if text::text_lt(T::key_of(x), T::key_of(s[0])) {
            assert(f[0] == x);
            assert forall|i: int| 0 <= i < s.len() implies T::key_of(#[trigger] s[i]) != T::key_of(
                x,
            ) && f.contains(s[i]) by {
                assert(f[i + 1] == s[i]);
                text::lemma_text_lt_irreflexive(T::key_of(x));
                if i > 0 {
                    assert(text::text_lt(T::key_of(s[0]), T::key_of(s[i])));
                    text::lemma_text_lt_transitive(
                        T::key_of(x),
                        T::key_of(s[0]),
                        T::key_of(s[i]),
                    );
                }
            }
            assert forall|i: int| 0 <= i < f.len() implies (#[trigger] f[i] == x || (s.contains(
                f[i],
            ) && T::key_of(f[i]) != T::key_of(x))) by {
                if i > 0 {
                    assert(f[i] == s[i - 1]);
                }
            }
            law_lookup::<T>(s, T::key_of(x));
        } else {
            assert forall|i: int, j: int| 0 <= i < j < rest.len() implies text::text_lt(
                #[trigger] T::key_of(rest[i]),
                #[trigger] T::key_of(rest[j]),
            ) by {
                assert(text::text_lt(T::key_of(s[i + 1]), T::key_of(s[j + 1])));
            }
            law_filed_keeps_the_others::<T>(rest, x);
            let g = filed::<T>(rest, x);
            assert(f =~= seq![s[0]] + g);
            let n = choose|n: int| 0 <= n < g.len() && g[n] == x;
            assert(f[n + 1] == x);
            assert forall|i: int|
                0 <= i < s.len() && T::key_of(#[trigger] s[i]) != T::key_of(x) implies f.contains(
                s[i],
            ) by {
                if i == 0 {
                    assert(f[0] == s[0]);
                } else {
                    assert(rest[i - 1] == s[i]);
                    let m = choose|m: int| 0 <= m < g.len() && g[m] == rest[i - 1];
                    assert(f[m + 1] == s[i]);
                }
            }
            assert forall|i: int| 0 <= i < f.len() implies (#[trigger] f[i] == x || (s.contains(
                f[i],
            ) && T::key_of(f[i]) != T::key_of(x))) by {
                if i == 0 {
                    assert(f[0] == s[0]);
                } else {
                    assert(f[i] == g[i - 1]);
                    if g[i - 1] != x {
                        let m = choose|m: int| 0 <= m < rest.len() && rest[m] == g[i - 1];
                        assert(s[m + 1] == f[i]);
                    }
                }
            }
        }
    }
}

/// A result shows another exactly when both are the same success or the same
/// refusal.
pub proof fn law_shown_results<T: DeepView>(r: Result<T, String>, s: Result<T::V, Seq<char>>)
    ensures
        shows(r, s) <==> {
            &&& r is Ok <==> s is Ok
            &&& r is Ok ==> (r->Ok_0).deep_view() == s->Ok_0
            &&& r is Err ==> (r->Err_0)@ == s->Err_0
        },
{
}

} // verus!
