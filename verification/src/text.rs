//! Text as a sequence of characters: trimming, splitting, case folding,
//! ordering and the decimal codec that the rest of the library is
//! written with.

use vstd::prelude::*;
use vstd::utf8::*;

verus! {

/// `String::push` appends one character at the end of the string.
pub assume_specification[ String::push ](s: &mut String, c: char)
    ensures
        final(s)@ == old(s)@.push(c),
;

/// The Unicode `White_Space` property.
pub open spec fn white_space(c: char) -> bool {
    ||| '\u{9}' <= c <= '\u{d}'
    ||| c == ' '
    ||| c == '\u{85}'
    ||| c == '\u{a0}'
    ||| c == '\u{1680}'
    ||| '\u{2000}' <= c <= '\u{200a}'
    ||| c == '\u{2028}'
    ||| c == '\u{2029}'
    ||| c == '\u{202f}'
    ||| c == '\u{205f}'
    ||| c == '\u{3000}'
}

/// Whether `c` has the Unicode `White_Space` property.
pub fn is_white_space(c: char) -> (r: bool)
    ensures
        r == white_space(c),
{
    ('\u{9}' <= c && c <= '\u{d}') || c == ' ' || c == '\u{85}' || c == '\u{a0}' || c
        == '\u{1680}' || ('\u{2000}' <= c && c <= '\u{200a}') || c == '\u{2028}' || c == '\u{2029}'
        || c == '\u{202f}' || c == '\u{205f}' || c == '\u{3000}'
}

/// The characters of `s`, indexable.
pub fn chars_of(s: &str) -> (v: Vec<char>)
    ensures
        v@ == s@,
{
    let mut v: Vec<char> = Vec::new();
    for c in it: s.chars()
        invariant
            v@ == s@.take(it.index() as int),
            it.seq() == s@,
    {
        v.push(c);
    }
    v
}

/// The characters of `v` from `i` up to `j`, as a string.
pub fn slice_text(v: &Vec<char>, i: usize, j: usize) -> (r: String)
    requires
        i <= j <= v@.len(),
    ensures
        r@ == v@.subrange(i as int, j as int),
{
    let mut out = String::new();
    let mut k: usize = i;
    while k < j
        invariant
            i <= k <= j <= v@.len(),
            out@ == v@.subrange(i as int, k as int),
        decreases j - k,
    {
        out.push(v[k]);
        k = k + 1;
        assert(v@.subrange(i as int, k as int) =~= v@.subrange(i as int, k - 1).push(v@[k - 1]));
    }
    out
}

/// Whether two strings hold the same characters.
pub fn same_text(a: &str, b: &str) -> (r: bool)
    ensures
        r == (a@ == b@),
{
    let x: String = a.to_owned();
    let y: String = b.to_owned();
    x == y
}

// ---------------------------------------------------------------------------
// Trimming
// ---------------------------------------------------------------------------

/// `s` without its leading white space.
pub open spec fn trim_start(s: Seq<char>) -> Seq<char>
    decreases s.len(),
{
    if s.len() > 0 && white_space(s[0]) {
        trim_start(s.drop_first())
    } else {
        s
    }
}

/// `s` without its trailing white space.
pub open spec fn trim_end(s: Seq<char>) -> Seq<char>
    decreases s.len(),
{
    if s.len() > 0 && white_space(s.last()) {
        trim_end(s.drop_last())
    } else {
        s
    }
}

/// `s` without white space at either end.
pub open spec fn trimmed(s: Seq<char>) -> Seq<char> {
    trim_end(trim_start(s))
}

/// A text that starts with another character than white space is not blank.
pub proof fn lemma_not_blank(s: Seq<char>)
    requires
        s.len() > 0,
        !white_space(s[0]),
    ensures
        trimmed(s).len() > 0,
{
    assert(trim_start(s) == s);
    lemma_trim_end_keeps(s);
}

proof fn lemma_trim_end_keeps(s: Seq<char>)
    requires
        s.len() > 0,
        !white_space(s[0]),
    ensures
        trim_end(s).len() > 0,
    decreases s.len(),
{
    if white_space(s.last()) {
        lemma_trim_end_keeps(s.drop_last());
    }
}

/// How many leading white-space characters follow position `i`.
fn start_of_text(v: &Vec<char>, i: usize) -> (k: usize)
    requires
        i <= v@.len(),
    ensures
        i <= k <= v@.len(),
        v@.skip(k as int) == trim_start(v@.skip(i as int)),
{
    let mut k: usize = i;
    while k < v.len() && is_white_space(v[k])
        invariant
            i <= k <= v@.len(),
            trim_start(v@.skip(k as int)) == trim_start(v@.skip(i as int)),
        decreases v@.len() - k,
    {
        assert(v@.skip(k as int).drop_first() =~= v@.skip(k + 1));
        k = k + 1;
    }
    k
}

/// Remove white space at both ends.
pub fn trim(s: &str) -> (r: String)
    ensures
        r@ == trimmed(s@),
{
    let v = chars_of(s);
    assert(v@.skip(0) =~= s@);
    let i: usize = start_of_text(&v, 0);
    let mut j: usize = v.len();
    assert(v@.subrange(i as int, j as int) =~= v@.skip(i as int));
    while j > i && is_white_space(v[j - 1])
        invariant
            i <= j <= v@.len(),
            trim_end(v@.subrange(i as int, j as int)) == trim_end(trim_start(s@)),
        decreases j,
    {
        assert(v@.subrange(i as int, j as int).drop_last() =~= v@.subrange(i as int, j - 1));
        j = j - 1;
    }
    slice_text(&v, i, j)
}

/// Whether nothing but white space is left of `s`.
pub fn is_blank(s: &str) -> (r: bool)
    ensures
        r == (trimmed(s@).len() == 0),
{
    trim(s).as_str().is_empty()
}

// ---------------------------------------------------------------------------
// Words
// ---------------------------------------------------------------------------

/// The length of the run of non-white-space characters that `s` starts with.
pub open spec fn word_len(s: Seq<char>) -> nat
    decreases s.len(),
{
    if s.len() > 0 && !white_space(s[0]) {
        1 + word_len(s.drop_first())
    } else {
        0
    }
}

/// The second white-space-separated word of `s`.
pub open spec fn second_word(s: Seq<char>) -> Option<Seq<char>> {
    let first = trim_start(s);
    let second = trim_start(first.skip(word_len(first) as int));
    if second.len() == 0 {
        None
    } else {
        Some(second.take(word_len(second) as int))
    }
}

fn end_of_word(v: &Vec<char>, i: usize) -> (k: usize)
    requires
        i <= v@.len(),
    ensures
        i <= k <= v@.len(),
        k - i == word_len(v@.skip(i as int)),
{
    let mut k: usize = i;
    while k < v.len() && !is_white_space(v[k])
        invariant
            i <= k <= v@.len(),
            word_len(v@.skip(i as int)) == (k - i) + word_len(v@.skip(k as int)),
        decreases v@.len() - k,
    {
        assert(v@.skip(k as int).drop_first() =~= v@.skip(k + 1));
        k = k + 1;
    }
    k
}

/// The second word of `s`, if it has two.
pub fn nth_word_1(s: &str) -> (r: Option<String>)
    ensures
        r is Some <==> second_word(s@) is Some,
        r is Some ==> r->0@ == second_word(s@)->0,
{
    let v = chars_of(s);
    assert(v@.skip(0) =~= s@);
    let a: usize = start_of_text(&v, 0);
    let b: usize = end_of_word(&v, a);
    assert(v@.skip(a as int).skip(b - a) =~= v@.skip(b as int));
    let c: usize = start_of_text(&v, b);
    if c == v.len() {
        return None;
    }
    let d: usize = end_of_word(&v, c);
    assert(v@.subrange(c as int, d as int) =~= v@.skip(c as int).take(d - c));
    Some(slice_text(&v, c, d))
}

// ---------------------------------------------------------------------------
// ASCII case
// ---------------------------------------------------------------------------

pub open spec fn upper_char(c: char) -> char {
    if 'a' <= c <= 'z' {
        ((c as int) - 32) as char
    } else {
        c
    }
}

pub open spec fn lower_char(c: char) -> char {
    if 'A' <= c <= 'Z' {
        ((c as int) + 32) as char
    } else {
        c
    }
}

/// `s` with ASCII letters in upper case.
pub open spec fn upper(s: Seq<char>) -> Seq<char> {
    s.map_values(|c: char| upper_char(c))
}

/// `s` with ASCII letters in lower case.
pub open spec fn lower(s: Seq<char>) -> Seq<char> {
    s.map_values(|c: char| lower_char(c))
}

/// Equality that does not distinguish ASCII letters by case.
pub open spec fn same_fold(a: Seq<char>, b: Seq<char>) -> bool {
    lower(a) == lower(b)
}

fn char_up(c: char) -> (r: char)
    ensures
        r == upper_char(c),
{
    if 'a' <= c && c <= 'z' {
        ((c as u8) - 32) as char
    } else {
        c
    }
}

fn char_down(c: char) -> (r: char)
    ensures
        r == lower_char(c),
{
    if 'A' <= c && c <= 'Z' {
        ((c as u8) + 32) as char
    } else {
        c
    }
}

/// ASCII letters to upper case.
pub fn ascii_upper(s: &str) -> (r: String)
    ensures
        r@ == upper(s@),
{
    let v = chars_of(s);
    let mut out = String::new();
    for k in 0..v.len()
        invariant
            v@ == s@,
            out@ == upper(s@.take(k as int)),
    {
        out.push(char_up(v[k]));
        assert(upper(s@.take(k + 1)) =~= upper(s@.take(k as int)).push(upper_char(s@[k as int])));
    }
    assert(s@.take(v@.len() as int) =~= s@);
    out
}

/// ASCII letters to lower case.
pub fn ascii_lower(s: &str) -> (r: String)
    ensures
        r@ == lower(s@),
{
    let v = chars_of(s);
    let mut out = String::new();
    for k in 0..v.len()
        invariant
            v@ == s@,
            out@ == lower(s@.take(k as int)),
    {
        out.push(char_down(v[k]));
        assert(lower(s@.take(k + 1)) =~= lower(s@.take(k as int)).push(lower_char(s@[k as int])));
    }
    assert(s@.take(v@.len() as int) =~= s@);
    out
}

/// Whether two strings are equal up to the case of ASCII letters.
pub fn eq_fold(a: &str, b: &str) -> (r: bool)
    ensures
        r == same_fold(a@, b@),
{
    ascii_lower(a) == ascii_lower(b)
}

// ---------------------------------------------------------------------------
// Searching and splitting
// ---------------------------------------------------------------------------

/// `pat` stands in `s` at position `i`.
pub open spec fn stands_at<T>(s: Seq<T>, pat: Seq<T>, i: int) -> bool {
    0 <= i && i + pat.len() <= s.len() && s.subrange(i, i + pat.len()) == pat
}

/// The first position at or after `from` where `pat` stands in `s`.
pub open spec fn first_from<T>(s: Seq<T>, pat: Seq<T>, from: int) -> Option<int>
    decreases s.len() - from + 1,
{
    if from < 0 || from + pat.len() > s.len() {
        None
    } else if s.subrange(from, from + pat.len()) == pat {
        Some(from)
    } else {
        first_from(s, pat, from + 1)
    }
}

/// The first position where `pat` stands in `s`.
pub open spec fn find<T>(s: Seq<T>, pat: Seq<T>) -> Option<int> {
    first_from(s, pat, 0)
}

/// What stands before and after the first occurrence of `pat`.
pub open spec fn split_at_first(s: Seq<char>, pat: Seq<char>) -> Option<(Seq<char>, Seq<char>)> {
    match find(s, pat) {
        None => None,
        Some(i) => Some((s.take(i), s.skip(i + pat.len()))),
    }
}

/// The last position of `c` in `s`.
pub open spec fn last_index(s: Seq<char>, c: char) -> Option<int>
    decreases s.len(),
{
    if s.len() == 0 {
        None
    } else if s.last() == c {
        Some(s.len() - 1)
    } else {
        last_index(s.drop_last(), c)
    }
}

/// What stands before and after the last occurrence of `c`.
pub open spec fn split_at_last(s: Seq<char>, c: char) -> Option<(Seq<char>, Seq<char>)> {
    match last_index(s, c) {
        None => None,
        Some(i) => Some((s.take(i), s.skip(i + 1))),
    }
}

/// A found position is one where the pattern stands, and no earlier one is.
pub proof fn lemma_first_from<T>(s: Seq<T>, pat: Seq<T>, from: int)
    requires
        0 <= from,
    ensures
        match first_from(s, pat, from) {
            Some(i) => from <= i && stands_at(s, pat, i) && (forall|j: int|
                from <= j < i ==> !#[trigger] stands_at(s, pat, j)),
            None => forall|j: int| from <= j ==> !#[trigger] stands_at(s, pat, j),
        },
    decreases s.len() - from + 1,
{
    if from + pat.len() <= s.len() && s.subrange(from, from + pat.len()) != pat {
        lemma_first_from(s, pat, from + 1);
    }
}

fn char_stands(v: &Vec<char>, pat: &Vec<char>, i: usize) -> (r: bool)
    requires
        i + pat@.len() <= v@.len(),
    ensures
        r == (v@.subrange(i as int, i + pat@.len()) == pat@),
{
    let n: usize = v.len();
    let mut k: usize = 0;
    while k < pat.len()
        invariant
            k <= pat@.len(),
            i + pat@.len() <= v@.len(),
            n == v@.len(),
            forall|m: int| 0 <= m < k ==> v@[i + m] == pat@[m],
        decreases pat@.len() - k,
    {
        if v[i + k] != pat[k] {
            assert(v@.subrange(i as int, i + pat@.len())[k as int] != pat@[k as int]);
            return false;
        }
        k = k + 1;
    }
    assert(v@.subrange(i as int, i + pat@.len()) =~= pat@);
    true
}

/// The first position at which `pat` stands.
pub fn find_chars(v: &Vec<char>, pat: &Vec<char>) -> (r: Option<usize>)
    ensures
        r is Some <==> find(v@, pat@) is Some,
        r is Some ==> r->0 == find(v@, pat@)->0 && stands_at(v@, pat@, r->0 as int),
{
    if pat.len() > v.len() {
        return None;
    }
    let last: usize = v.len() - pat.len();
    let mut i: usize = 0;
    while i < last
        invariant
            i <= last == v@.len() - pat@.len(),
            find(v@, pat@) == first_from(v@, pat@, i as int),
        decreases last - i,
    {
        if char_stands(v, pat, i) {
            return Some(i);
        }
        i = i + 1;
    }
    if char_stands(v, pat, last) {
        Some(last)
    } else {
        assert(first_from(v@, pat@, last + 1) is None);
        None
    }
}

/// Split at the first occurrence of `pat`.
pub fn split_once(s: &str, pat: &str) -> (r: Option<(String, String)>)
    ensures
        r is Some <==> split_at_first(s@, pat@) is Some,
        r is Some ==> ((r->0).0@, (r->0).1@) == split_at_first(s@, pat@)->0,
{
    let v = chars_of(s);
    let p = chars_of(pat);
    match find_chars(&v, &p) {
        None => None,
        Some(i) => {
            let n: usize = v.len();
            assert(v@.subrange(0, i as int) =~= v@.take(i as int));
            assert(v@.subrange(i + p@.len(), v@.len() as int) =~= v@.skip(i + p@.len()));
            Some((slice_text(&v, 0, i), slice_text(&v, i + p.len(), n)))
        },
    }
}

/// Split at the last occurrence of `c`.
pub fn rsplit_once(s: &str, c: char) -> (r: Option<(String, String)>)
    ensures
        r is Some <==> split_at_last(s@, c) is Some,
        r is Some ==> ((r->0).0@, (r->0).1@) == split_at_last(s@, c)->0,
{
    let v = chars_of(s);
    let mut j: usize = v.len();
    assert(v@.take(j as int) =~= s@);
    while j > 0
        invariant
            j <= v@.len(),
            v@ == s@,
            last_index(s@, c) == last_index(v@.take(j as int), c),
        decreases j,
    {
        if v[j - 1] == c {
            assert(v@.take(j as int).last() == c);
            assert(v@.subrange(0, j - 1) =~= v@.take(j - 1));
            assert(v@.subrange(j as int, v@.len() as int) =~= v@.skip(j as int));
            return Some((slice_text(&v, 0, j - 1), slice_text(&v, j, v.len())));
        }
        assert(v@.take(j as int).drop_last() =~= v@.take(j - 1));
        j = j - 1;
    }
    None
}

/// `s` starts with `p`.
pub open spec fn has_prefix(s: Seq<char>, p: Seq<char>) -> bool {
    p.len() <= s.len() && s.take(p.len() as int) == p
}

/// Whether `s` starts with `p`.
pub fn starts_with(s: &str, p: &str) -> (r: bool)
    ensures
        r == has_prefix(s@, p@),
{
    let v = chars_of(s);
    let q = chars_of(p);
    if q.len() > v.len() {
        return false;
    }
    assert(v@.subrange(0, q@.len() as int) =~= v@.take(q@.len() as int));
    char_stands(&v, &q, 0)
}

/// What follows the prefix `p`.
pub fn strip_prefix(s: &str, p: &str) -> (r: Option<String>)
    ensures
        r is Some <==> has_prefix(s@, p@),
        r is Some ==> r->0@ == s@.skip(p@.len() as int),
{
    if starts_with(s, p) {
        let v = chars_of(s);
        let q = chars_of(p);
        assert(v@.subrange(q@.len() as int, v@.len() as int) =~= v@.skip(q@.len() as int));
        Some(slice_text(&v, q.len(), v.len()))
    } else {
        None
    }
}

/// `s` holds the character `c`.
pub fn has_char(s: &str, c: char) -> (r: bool)
    ensures
        r == s@.contains(c),
{
    let v = chars_of(s);
    let mut k: usize = 0;
    while k < v.len()
        invariant
            v@ == s@,
            k <= v@.len(),
            forall|m: int| 0 <= m < k ==> v@[m] != c,
        decreases v@.len() - k,
    {
        if v[k] == c {
            assert(s@[k as int] == c);
            return true;
        }
        k = k + 1;
    }
    false
}

/// Some character of `s` is white space.
pub open spec fn holds_white_space(s: Seq<char>) -> bool {
    exists|i: int| 0 <= i < s.len() && white_space(#[trigger] s[i])
}

/// Whether some character of `s` is white space.
pub fn has_white_space(s: &str) -> (r: bool)
    ensures
        r == holds_white_space(s@),
{
    let v = chars_of(s);
    let mut k: usize = 0;
    while k < v.len()
        invariant
            v@ == s@,
            k <= v@.len(),
            forall|m: int| 0 <= m < k ==> !white_space(#[trigger] v@[m]),
        decreases v@.len() - k,
    {
        if is_white_space(v[k]) {
            assert(white_space(s@[k as int]));
            return true;
        }
        k = k + 1;
    }
    false
}

/// `s` without the character `c`.
pub open spec fn without(s: Seq<char>, c: char) -> Seq<char> {
    s.filter(|x: char| x != c)
}

/// Remove every occurrence of `c`.
pub fn remove_char(s: &str, c: char) -> (r: String)
    ensures
        r@ == without(s@, c),
{
    let v = chars_of(s);
    let mut out = String::new();
    for k in 0..v.len()
        invariant
            v@ == s@,
            out@ == without(s@.take(k as int), c),
    {
        proof {
            reveal(Seq::filter);
            assert(s@.take(k + 1).drop_last() =~= s@.take(k as int));
        }
        if v[k] != c {
            out.push(v[k]);
        }
    }
    assert(s@.take(v@.len() as int) =~= s@);
    out
}

// ---------------------------------------------------------------------------
// Order
// ---------------------------------------------------------------------------

/// The lexicographic order of texts by code point.
pub open spec fn text_lt(a: Seq<char>, b: Seq<char>) -> bool
    decreases a.len(),
{
    if b.len() == 0 {
        false
    } else if a.len() == 0 {
        true
    } else if a[0] == b[0] {
        text_lt(a.drop_first(), b.drop_first())
    } else {
        a[0] < b[0]
    }
}

/// The texts stand in ascending order, each once.
pub open spec fn ascending(s: Seq<Seq<char>>) -> bool {
    forall|i: int, j: int| 0 <= i < j < s.len() ==> text_lt(#[trigger] s[i], #[trigger] s[j])
}

/// No text comes before itself.
pub proof fn lemma_text_lt_irreflexive(a: Seq<char>)
    ensures
        !text_lt(a, a),
    decreases a.len(),
{
    if a.len() > 0 {
        lemma_text_lt_irreflexive(a.drop_first());
    }
}

/// The order of texts is transitive.
pub proof fn lemma_text_lt_transitive(a: Seq<char>, b: Seq<char>, c: Seq<char>)
    requires
        text_lt(a, b),
        text_lt(b, c),
    ensures
        text_lt(a, c),
    decreases a.len(),
{
    if a.len() > 0 && a[0] == b[0] && b[0] == c[0] {
        lemma_text_lt_transitive(a.drop_first(), b.drop_first(), c.drop_first());
    }
}

/// Of two different texts one comes before the other.
pub proof fn lemma_text_lt_total(a: Seq<char>, b: Seq<char>)
    ensures
        a == b || text_lt(a, b) || text_lt(b, a),
    decreases a.len(),
{
    if a.len() == 0 || b.len() == 0 {
        assert(a.len() == 0 && b.len() == 0 ==> a =~= b);
    } else if a[0] == b[0] {
        lemma_text_lt_total(a.drop_first(), b.drop_first());
        if a.drop_first() == b.drop_first() {
            assert(a =~= seq![a[0]] + a.drop_first());
            assert(b =~= seq![b[0]] + b.drop_first());
        }
    }
}

/// Whether `a` comes before `b`.
pub fn text_before(a: &str, b: &str) -> (r: bool)
    ensures
        r == text_lt(a@, b@),
{
    let x = chars_of(a);
    let y = chars_of(b);
    let mut k: usize = 0;
    assert(x@.skip(0) =~= a@);
    assert(y@.skip(0) =~= b@);
    while k < x.len() && k < y.len() && x[k] == y[k]
        invariant
            k <= x@.len(),
            k <= y@.len(),
            text_lt(a@, b@) == text_lt(x@.skip(k as int), y@.skip(k as int)),
        decreases x@.len() - k,
    {
        assert(x@.skip(k as int).drop_first() =~= x@.skip(k + 1));
        assert(y@.skip(k as int).drop_first() =~= y@.skip(k + 1));
        k = k + 1;
    }
    if k >= y.len() {
        false
    } else if k >= x.len() {
        true
    } else {
        x[k] < y[k]
    }
}

// ---------------------------------------------------------------------------
// Joining
// ---------------------------------------------------------------------------

/// `a` followed by `b`.
pub fn join2(a: &str, b: &str) -> (r: String)
    ensures
        r@ == a@ + b@,
{
    let mut out: String = a.to_owned();
    out.append(b);
    out
}

/// `a`, `b` and `c` in sequence.
pub fn join3(a: &str, b: &str, c: &str) -> (r: String)
    ensures
        r@ == a@ + b@ + c@,
{
    let mut out: String = join2(a, b);
    out.append(c);
    out
}

/// `a` to `d` in sequence.
pub fn join4(a: &str, b: &str, c: &str, d: &str) -> (r: String)
    ensures
        r@ == a@ + b@ + c@ + d@,
{
    let mut out: String = join3(a, b, c);
    out.append(d);
    out
}

/// `a` to `e` in sequence.
pub fn join5(a: &str, b: &str, c: &str, d: &str, e: &str) -> (r: String)
    ensures
        r@ == a@ + b@ + c@ + d@ + e@,
{
    let mut out: String = join4(a, b, c, d);
    out.append(e);
    out
}

// ---------------------------------------------------------------------------
// Numbers
// ---------------------------------------------------------------------------

/// The digit `d` as a character.
pub open spec fn digit_char(d: int) -> char {
    (48 + d) as char
}

/// The decimal text of `n`, without leading zeros.
pub open spec fn decimal(n: nat) -> Seq<char>
    decreases n,
{
    if n < 10 {
        seq![digit_char(n as int)]
    } else {
        decimal(n / 10).push(digit_char((n % 10) as int))
    }
}

/// `s` filled with zeros on the left up to `width` characters.
pub open spec fn zero_filled(s: Seq<char>, width: nat) -> Seq<char>
    decreases width - s.len(),
{
    if s.len() >= width {
        s
    } else {
        zero_filled(seq!['0'] + s, width)
    }
}

/// Fill `s` with zeros on the left up to `width` characters.
pub fn zero_fill(s: &str, width: usize) -> (r: String)
    ensures
        r@ == zero_filled(s@, width as nat),
{
    let mut count: usize = chars_of(s).len();
    let mut out: String = s.to_owned();
    while count < width
        invariant
            count == out@.len(),
            zero_filled(out@, width as nat) == zero_filled(s@, width as nat),
        decreases width - count,
    {
        let mut longer = String::new();
        longer.push('0');
        assert(longer@ =~= seq!['0']);
        longer.append(out.as_str());
        out = longer;
        count = count + 1;
    }
    out
}

/// The decimal text of `n`.
pub fn decimal_text(n: u64) -> (r: String)
    ensures
        r@ == decimal(n as nat),
    decreases n,
{
    if n < 10 {
        let mut out = String::new();
        out.push((48 + n as u8) as char);
        assert(out@ =~= decimal(n as nat));
        out
    } else {
        let mut out = decimal_text(n / 10);
        out.push((48 + (n % 10) as u8) as char);
        out
    }
}

/// The value of a decimal digit.
pub open spec fn digit_of(c: char) -> Option<nat> {
    if '0' <= c <= '9' {
        Some((c as int - 48) as nat)
    } else {
        None
    }
}

/// The value of a hexadecimal digit, in either case.
pub open spec fn hex_digit_of(c: char) -> Option<nat> {
    if '0' <= c <= '9' {
        Some((c as int - 48) as nat)
    } else if 'a' <= c <= 'f' {
        Some((c as int - 87) as nat)
    } else if 'A' <= c <= 'F' {
        Some((c as int - 55) as nat)
    } else {
        None
    }
}

/// The value of a run of digits in the given radix (10 or 16), if every
/// character is one; the empty run has the value 0.
pub open spec fn run_value(s: Seq<char>, radix: nat) -> Option<nat>
    decreases s.len(),
{
    if s.len() == 0 {
        Some(0)
    } else {
        let d = if radix == 16 {
            hex_digit_of(s.last())
        } else {
            digit_of(s.last())
        };
        match (run_value(s.drop_last(), radix), d) {
            (Some(v), Some(d)) => Some(v * radix + d),
            _ => None,
        }
    }
}

/// The number a text denotes: an optional `+`, then at least one digit,
/// the value at most `max`.
pub open spec fn number_of(s: Seq<char>, radix: nat, max: nat) -> Option<nat> {
    let digits = if s.len() > 0 && s[0] == '+' {
        s.skip(1)
    } else {
        s
    };
    if digits.len() == 0 {
        None
    } else {
        match run_value(digits, radix) {
            Some(v) => if v <= max {
                Some(v)
            } else {
                None
            },
            None => None,
        }
    }
}

fn digit_value(c: char, radix: u64) -> (r: Option<u64>)
    requires
        radix == 10 || radix == 16,
    ensures
        r is Some <==> (if radix == 16 {
            hex_digit_of(c)
        } else {
            digit_of(c)
        }) is Some,
        r is Some ==> r->0 < radix && r->0 == (if radix == 16 {
            hex_digit_of(c)
        } else {
            digit_of(c)
        })->0,
{
    if '0' <= c && c <= '9' {
        Some((c as u8 - 48) as u64)
    } else if radix == 16 && 'a' <= c && c <= 'f' {
        Some((c as u8 - 87) as u64)
    } else if radix == 16 && 'A' <= c && c <= 'F' {
        Some((c as u8 - 55) as u64)
    } else {
        None
    }
}

proof fn lemma_run_value_grows(s: Seq<char>, radix: nat, k: int, max: nat)
    requires
        0 <= k <= s.len(),
        radix == 10 || radix == 16,
        run_value(s.take(k), radix) matches Some(v) ==> v > max,
    ensures
        run_value(s, radix) matches Some(v) ==> v > max,
    decreases s.len() - k,
{
    if k < s.len() {
        assert(s.take(k + 1).drop_last() =~= s.take(k));
        lemma_run_value_grows(s, radix, k + 1, max);
    } else {
        assert(s.take(k) =~= s);
    }
}

/// Parse an unsigned number no greater than `max`.
pub fn parse_number(s: &str, radix: u64, max: u64) -> (r: Option<u64>)
    requires
        radix == 10 || radix == 16,
    ensures
        r is Some <==> number_of(s@, radix as nat, max as nat) is Some,
        r is Some ==> r->0 == number_of(s@, radix as nat, max as nat)->0,
{
    let v = chars_of(s);
    let start: usize = if v.len() > 0 && v[0] == '+' {
        1
    } else {
        0
    };
    let ghost digits = v@.skip(start as int);
    proof {
        if start == 0 {
            assert(digits =~= s@);
        }
    }
    if start == v.len() {
        return None;
    }
    let mut acc: u64 = 0;
    let mut k: usize = start;
    assert(digits.take(0) =~= Seq::<char>::empty());
    while k < v.len()
        invariant
            start <= k <= v@.len(),
            radix == 10 || radix == 16,
            digits == v@.skip(start as int),
            digits == (if s@.len() > 0 && s@[0] == '+' {
                s@.skip(1)
            } else {
                s@
            }),
            digits.len() > 0,
            acc <= max,
            run_value(digits.take(k - start), radix as nat) == Some(acc as nat),
        decreases v@.len() - k,
    {
        assert(digits.take(k + 1 - start).drop_last() =~= digits.take(k - start));
        assert(digits.take(k + 1 - start).last() == v@[k as int]);
        match digit_value(v[k], radix) {
            None => {
                proof {
                    lemma_run_value_grows(digits, radix as nat, k + 1 - start, max as nat);
                }
                return None;
            },
            Some(d) => {
                let wide: u128 = (acc as u128) * (radix as u128) + (d as u128);
                if wide > max as u128 {
                    proof {
                        lemma_run_value_grows(digits, radix as nat, k + 1 - start, max as nat);
                    }
                    return None;
                }
                acc = wide as u64;
            },
        }
        k = k + 1;
    }
    assert(digits.take(v@.len() - start) =~= digits);
    Some(acc)
}

// ---------------------------------------------------------------------------
// Texts as bytes
// ---------------------------------------------------------------------------

/// A text whose bytes are ASCII is ASCII, one byte for each character.
pub proof fn lemma_ascii_bytes(s: Seq<char>)
    requires
        forall|i: int| 0 <= i < encode_utf8(s).len() ==> #[trigger] encode_utf8(s)[i] < 128,
    ensures
        is_ascii_chars(s),
        s.len() == encode_utf8(s).len(),
        forall|i: int| 0 <= i < s.len() ==> #[trigger] s[i] as u8 == encode_utf8(s)[i],
{
    let b = encode_utf8(s);
    let c = Seq::new(b.len(), |i: int| b[i] as char);
    assert(is_ascii_chars(c));
    is_ascii_chars_encode_utf8(c);
    assert(encode_utf8(c) =~= b) by {
        assert forall|i: int| 0 <= i < b.len() implies encode_utf8(c)[i] == b[i] by {
            assert(c[i] as u8 == encode_utf8(c)[i]);
            assert(b[i] < 128);
        }
    }
    encode_utf8_decode_utf8(c);
    encode_utf8_decode_utf8(s);
    is_ascii_chars_encode_utf8(s);
}

/// The bytes of two texts in a row are the bytes of the one and then of the
/// other.
pub proof fn lemma_bytes_concat(a: Seq<char>, b: Seq<char>)
    ensures
        encode_utf8(a + b) == encode_utf8(a) + encode_utf8(b),
    decreases a.len(),
{
    if a.len() == 0 {
        assert(a + b =~= b);
        assert(encode_utf8(a) + encode_utf8(b) =~= encode_utf8(b));
    } else {
        lemma_bytes_concat(a.drop_first(), b);
        assert((a + b).drop_first() =~= a.drop_first() + b);
        assert(encode_utf8(a + b) =~= encode_utf8(a) + encode_utf8(b));
    }
}

/// The first difference decides the order of two texts.
pub proof fn lemma_text_lt_at(a: Seq<char>, b: Seq<char>, k: int)
    requires
        0 <= k < a.len(),
        k < b.len(),
        forall|i: int| 0 <= i < k ==> a[i] == b[i],
        a[k] < b[k],
    ensures
        text_lt(a, b),
    decreases k,
{
    if k > 0 {
        lemma_text_lt_at(a.drop_first(), b.drop_first(), k - 1);
    }
}

/// Of two texts at most one comes before the other.
pub proof fn lemma_text_lt_asymmetric(a: Seq<char>, b: Seq<char>)
    requires
        text_lt(a, b),
    ensures
        !text_lt(b, a),
{
    if text_lt(b, a) {
        lemma_text_lt_transitive(a, b, a);
        lemma_text_lt_irreflexive(a);
    }
}

/// A pattern stands first where its first item first stands, if it stands
/// there.
pub proof fn lemma_first_at<T>(s: Seq<T>, pat: Seq<T>, n: int, from: int)
    requires
        pat.len() > 0,
        0 <= from <= n,
        n + pat.len() <= s.len(),
        s.subrange(n, n + pat.len()) == pat,
        forall|i: int| 0 <= i < n ==> #[trigger] s[i] != pat[0],
    ensures
        first_from(s, pat, from) == Some(n),
    decreases n - from,
{
    if from < n {
        assert(s.subrange(from, from + pat.len())[0] == s[from]);
        lemma_first_at(s, pat, n, from + 1);
    }
}

/// A pattern stands nowhere where its first item does not.
pub proof fn lemma_first_nowhere<T>(s: Seq<T>, pat: Seq<T>, from: int)
    requires
        pat.len() > 0,
        0 <= from,
        forall|i: int| 0 <= i < s.len() ==> #[trigger] s[i] != pat[0],
    ensures
        first_from(s, pat, from) is None,
    decreases s.len() - from + 1,
{
    if from + pat.len() <= s.len() {
        assert(s.subrange(from, from + pat.len())[0] == s[from]);
        lemma_first_nowhere(s, pat, from + 1);
    }
}

// ---------------------------------------------------------------------------
// Laws
// ---------------------------------------------------------------------------

/// A text has a prefix exactly when something follows the prefix in it, be
/// it nothing.
pub proof fn law_prefix(s: Seq<char>, p: Seq<char>)
    ensures
        has_prefix(s, p) <==> exists|rest: Seq<char>| s == #[trigger] (p + rest),
{
    if has_prefix(s, p) {
        assert(s =~= p + s.skip(p.len() as int));
    }
    if exists|rest: Seq<char>| s == #[trigger] (p + rest) {
        let rest = choose|rest: Seq<char>| s == #[trigger] (p + rest);
        assert(s.take(p.len() as int) =~= p);
    }
}

/// A text has bytes.
pub proof fn lemma_some_bytes(s: Seq<char>)
    requires
        s.len() > 0,
    ensures
        encode_utf8(s).len() > 0,
{
    if encode_utf8(s).len() == 0 {
        lemma_ascii_bytes(s);
    }
}

proof fn lemma_trim_start_skips(left: Seq<char>, t: Seq<char>)
    requires
        forall|i: int| 0 <= i < left.len() ==> white_space(#[trigger] left[i]),
        t.len() > 0 ==> !white_space(t[0]),
    ensures
        trim_start(left + t) == t,
    decreases left.len(),
{
    let s = left + t;
    if left.len() > 0 {
        assert(white_space(left[0]));
        assert(s[0] == left[0]);
        let rest = left.drop_first();
        assert(forall|i: int| 0 <= i < rest.len() ==> rest[i] == left[i + 1]);
        assert(s.drop_first() =~= rest + t);
        lemma_trim_start_skips(rest, t);
    } else {
        assert(s =~= t);
    }
}

proof fn lemma_trim_end_skips(t: Seq<char>, right: Seq<char>)
    requires
        forall|i: int| 0 <= i < right.len() ==> white_space(#[trigger] right[i]),
        t.len() > 0 ==> !white_space(t.last()),
    ensures
        trim_end(t + right) == t,
    decreases right.len(),
{
    let s = t + right;
    if right.len() > 0 {
        assert(white_space(right[right.len() - 1]));
        assert(s.last() == right.last());
        let rest = right.drop_last();
        assert(s.drop_last() =~= t + rest);
        lemma_trim_end_skips(t, rest);
    } else {
        assert(s =~= t);
    }
}

/// Trimming takes white space from both ends and nothing else.
pub proof fn law_trimmed_core(left: Seq<char>, t: Seq<char>, right: Seq<char>)
    requires
        forall|i: int| 0 <= i < left.len() ==> white_space(#[trigger] left[i]),
        forall|i: int| 0 <= i < right.len() ==> white_space(#[trigger] right[i]),
        t.len() > 0 ==> !white_space(t[0]) && !white_space(t.last()),
    ensures
        trimmed(left + t + right) == t,
{
    if t.len() > 0 {
        assert(left + t + right =~= left + (t + right));
        lemma_trim_start_skips(left, t + right);
        lemma_trim_end_skips(t, right);
    } else {
        let all = left + right;
        assert(left + t + right =~= all);
        assert(all =~= all + t);
        assert forall|i: int| 0 <= i < all.len() implies white_space(#[trigger] all[i]) by {
            if i < left.len() {
                assert(white_space(left[i]));
            } else {
                assert(white_space(right[i - left.len()]));
            }
        }
        lemma_trim_start_skips(all, t);
        assert(trim_end(t) == t);
    }
}

proof fn lemma_trim_start_parts(s: Seq<char>)
    ensures
        exists|k: int|
            0 <= k <= s.len() && #[trigger] s.skip(k) == trim_start(s) && forall|i: int|
                0 <= i < k ==> white_space(#[trigger] s[i]),
        trim_start(s).len() > 0 ==> !white_space(trim_start(s)[0]),
    decreases s.len(),
{
    if s.len() > 0 && white_space(s[0]) {
        let rest = s.drop_first();
        lemma_trim_start_parts(rest);
        let k = choose|k: int|
            0 <= k <= rest.len() && #[trigger] rest.skip(k) == trim_start(rest) && forall|i: int|
                0 <= i < k ==> white_space(#[trigger] rest[i]);
        assert(s.skip(k + 1) =~= rest.skip(k));
        assert forall|i: int| 0 <= i < k + 1 implies white_space(#[trigger] s[i]) by {
            if i > 0 {
                assert(rest[i - 1] == s[i]);
            }
        }
    } else {
        assert(s.skip(0) =~= s);
    }
}

proof fn lemma_trim_end_parts(s: Seq<char>)
    ensures
        exists|k: int|
            0 <= k <= s.len() && #[trigger] s.take(k) == trim_end(s) && forall|i: int|
                k <= i < s.len() ==> white_space(#[trigger] s[i]),
        trim_end(s).len() > 0 ==> !white_space(trim_end(s).last()),
    decreases s.len(),
{
    if s.len() > 0 && white_space(s.last()) {
        let rest = s.drop_last();
        lemma_trim_end_parts(rest);
        let k = choose|k: int|
            0 <= k <= rest.len() && #[trigger] rest.take(k) == trim_end(rest) && forall|i: int|
                k <= i < rest.len() ==> white_space(#[trigger] rest[i]);
        assert(s.take(k) =~= rest.take(k));
        assert forall|i: int| k <= i < s.len() implies white_space(#[trigger] s[i]) by {
            if i < rest.len() {
                assert(rest[i] == s[i]);
            }
        }
    } else {
        assert(s.take(s.len() as int) =~= s);
    }
}

/// What is left of a text stands in it between white space, and neither
/// starts nor ends with any.
pub proof fn law_trimmed(s: Seq<char>)
    ensures
        exists|a: int, b: int|
            0 <= a <= b <= s.len() && #[trigger] s.subrange(a, b) == trimmed(s) && (forall|i: int|
                0 <= i < a || b <= i < s.len() ==> white_space(#[trigger] s[i])),
        trimmed(s).len() > 0 ==> !white_space(trimmed(s)[0]) && !white_space(trimmed(s).last()),
        trimmed(trimmed(s)) == trimmed(s),
{
    lemma_trim_start_parts(s);
    let a = choose|k: int|
        0 <= k <= s.len() && #[trigger] s.skip(k) == trim_start(s) && forall|i: int|
            0 <= i < k ==> white_space(#[trigger] s[i]);
    let m = trim_start(s);
    lemma_trim_end_parts(m);
    let k = choose|k: int|
        0 <= k <= m.len() && #[trigger] m.take(k) == trim_end(m) && forall|i: int|
            k <= i < m.len() ==> white_space(#[trigger] m[i]);
    let b = a + k;
    assert(s.subrange(a, b) =~= m.take(k));
    assert forall|i: int| 0 <= i < a || b <= i < s.len() implies white_space(#[trigger] s[i]) by {
        if i >= b {
            assert(m[i - a] == s[i]);
        }
    }
    let t = trimmed(s);
    if t.len() > 0 {
        assert(t[0] == m[0]);
    }
    let none = Seq::<char>::empty();
    law_trimmed_core(none, t, none);
    assert(none + t + none =~= t);
}

/// Upper case differs from a text in its small letters alone, each by the
/// same distance, and lower case in its capital letters; neither depends on
/// the case that the text was in.
pub proof fn law_case(s: Seq<char>, i: int)
    requires
        0 <= i < s.len(),
    ensures
        upper(s).len() == s.len() && lower(s).len() == s.len(),
        'a' <= s[i] <= 'z' ==> upper(s)[i] as int == s[i] as int - 32 && lower(s)[i] == s[i],
        'A' <= s[i] <= 'Z' ==> lower(s)[i] as int == s[i] as int + 32 && upper(s)[i] == s[i],
        !('a' <= s[i] <= 'z') && !('A' <= s[i] <= 'Z') ==> upper(s)[i] == s[i] && lower(s)[i]
            == s[i],
        upper(lower(s)) == upper(s),
        lower(upper(s)) == lower(s),
        upper(upper(s)) == upper(s),
        lower(lower(s)) == lower(s),
{
    assert(upper(lower(s)) =~= upper(s));
    assert(lower(upper(s)) =~= lower(s));
    assert(upper(upper(s)) =~= upper(s));
    assert(lower(lower(s)) =~= lower(s));
}

/// Two texts are the same but for their case exactly when they are the same
/// in upper case, and so, place by place, when each pair of characters is.
pub proof fn law_same_fold(a: Seq<char>, b: Seq<char>)
    ensures
        same_fold(a, b) <==> upper(a) == upper(b),
        same_fold(a, b) <==> a.len() == b.len() && forall|i: int|
            0 <= i < a.len() ==> (#[trigger] a[i] == b[i] || ('a' <= a[i] <= 'z' && b[i] as int
                == a[i] as int - 32) || ('A' <= a[i] <= 'Z' && b[i] as int == a[i] as int + 32)),
{
    if same_fold(a, b) {
        assert(a.len() == lower(a).len() && b.len() == lower(b).len());
        assert forall|i: int| 0 <= i < a.len() implies upper(a)[i] == upper(b)[i] && (#[trigger] a[i]
            == b[i] || ('a' <= a[i] <= 'z' && b[i] as int == a[i] as int - 32) || ('A' <= a[i]
            <= 'Z' && b[i] as int == a[i] as int + 32)) by {
            assert(lower(a)[i] == lower(b)[i]);
        }
        assert(upper(a) =~= upper(b));
    }
    if upper(a) == upper(b) {
        assert(a.len() == upper(a).len() && b.len() == upper(b).len());
        assert forall|i: int| 0 <= i < a.len() implies lower(a)[i] == lower(b)[i] by {
            assert(upper(a)[i] == upper(b)[i]);
        }
        assert(lower(a) =~= lower(b));
    }
    if a.len() == b.len() && (forall|i: int|
        0 <= i < a.len() ==> (#[trigger] a[i] == b[i] || ('a' <= a[i] <= 'z' && b[i] as int == a[i] as int
            - 32) || ('A' <= a[i] <= 'Z' && b[i] as int == a[i] as int + 32))) {
        assert(lower(a) =~= lower(b));
    }
}

/// A text is split where the pattern stands first: the two parts around the
/// pattern make up the text, and the pattern stands nowhere before; it is not
/// split exactly when the pattern stands nowhere.
pub proof fn law_split_at_first(s: Seq<char>, pat: Seq<char>)
    ensures
        match split_at_first(s, pat) {
            Some((a, b)) => s == a + pat + b && forall|k: int|
                0 <= k < a.len() ==> !#[trigger] stands_at(s, pat, k),
            None => forall|k: int| !#[trigger] stands_at(s, pat, k),
        },
{
    lemma_first_from(s, pat, 0);
    if let Some(i) = find(s, pat) {
        assert(stands_at(s, pat, i));
        let (a, b) = split_at_first(s, pat)->0;
        assert(s =~= a + pat + b) by {
            assert forall|k: int| 0 <= k < s.len() implies s[k] == (a + pat + b)[k] by {
                if i <= k < i + pat.len() {
                    assert(s.subrange(i, i + pat.len())[k - i] == pat[k - i]);
                }
            }
        }
    }
}

pub proof fn lemma_last_index(s: Seq<char>, c: char)
    ensures
        match last_index(s, c) {
            Some(i) => 0 <= i < s.len() && s[i] == c && forall|k: int|
                i < k < s.len() ==> #[trigger] s[k] != c,
            None => forall|k: int| 0 <= k < s.len() ==> #[trigger] s[k] != c,
        },
    decreases s.len(),
{
    if s.len() > 0 && s.last() != c {
        let rest = s.drop_last();
        lemma_last_index(rest, c);
        assert(forall|k: int| 0 <= k < rest.len() ==> rest[k] == s[k]);
        match last_index(s, c) {
            Some(i) => {
                assert forall|k: int| i < k < s.len() implies #[trigger] s[k] != c by {
                    if k < rest.len() {
                        assert(rest[k] != c);
                    }
                }
            },
            None => {
                assert forall|k: int| 0 <= k < s.len() implies #[trigger] s[k] != c by {
                    if k < rest.len() {
                        assert(rest[k] != c);
                    }
                }
            },
        }
    }
}

/// A text is split where a character stands last.
pub proof fn law_split_at_last(s: Seq<char>, c: char)
    ensures
        match split_at_last(s, c) {
            Some((a, b)) => s == a.push(c) + b && !b.contains(c),
            None => !s.contains(c),
        },
{
    lemma_last_index(s, c);
    if let Some(i) = last_index(s, c) {
        assert(s =~= s.take(i).push(c) + s.skip(i + 1));
        let b = s.skip(i + 1);
        if b.contains(c) {
            let k = choose|k: int| 0 <= k < b.len() && b[k] == c;
            assert(s[i + 1 + k] == c);
        }
    }
}

/// A text comes before every longer text that starts with it.
pub proof fn law_prefixes_come_first(a: Seq<char>, rest: Seq<char>)
    ensures
        rest.len() > 0 ==> text_lt(a, a + rest),
        !text_lt(a + rest, a),
    decreases a.len(),
{
    let b = a + rest;
    if a.len() > 0 {
        law_prefixes_come_first(a.drop_first(), rest);
        assert(b.drop_first() =~= a.drop_first() + rest);
    } else {
        assert(b =~= rest);
    }
}

/// A text that is filled up with zeros ends as it was, starts with zeros and
/// is as long as asked; one that is long enough stays as it is.
pub proof fn law_zero_filled(s: Seq<char>, width: nat)
    ensures
        zero_filled(s, width).len() == if s.len() >= width {
            s.len()
        } else {
            width
        },
        zero_filled(s, width).skip(zero_filled(s, width).len() - s.len()) == s,
        forall|i: int|
            0 <= i < zero_filled(s, width).len() - s.len() ==> #[trigger] zero_filled(s, width)[i]
                == '0',
    decreases width - s.len(),
{
    if s.len() < width {
        let t = seq!['0'] + s;
        law_zero_filled(t, width);
        let z = zero_filled(s, width);
        assert(z == zero_filled(t, width));
        assert(z.skip(z.len() - t.len()) == t);
        let n = z.len() - s.len();
        assert(z.skip(n) =~= t.skip(1)) by {
            assert forall|i: int| 0 <= i < s.len() implies z.skip(n)[i] == t.skip(1)[i] by {
                assert(z.skip(z.len() - t.len())[i + 1] == t[i + 1]);
            }
        }
        assert(t.skip(1) =~= s);
        assert forall|i: int| 0 <= i < n implies #[trigger] z[i] == '0' by {
            if i == n - 1 {
                assert(z.skip(z.len() - t.len())[0] == t[0]);
            }
        }
    } else {
        assert(s.skip(0) =~= s);
    }
}

proof fn lemma_decimal_run(n: nat)
    ensures
        run_value(decimal(n), 10) == Some(n),
        decimal(n).len() > 0,
        '0' <= decimal(n)[0] <= '9',
    decreases n,
{
    let s = decimal(n);
    if n < 10 {
        assert(s.drop_last() =~= Seq::<char>::empty());
        assert(run_value(s.drop_last(), 10) == Some(0nat));
        assert(s.last() == digit_char(n as int));
        assert(s.last() as int == 48 + n);
    } else {
        lemma_decimal_run(n / 10);
        assert(s.drop_last() =~= decimal(n / 10));
        assert(s.last() == digit_char((n % 10) as int));
        assert(s.last() as int == 48 + n % 10);
        assert(s[0] == decimal(n / 10)[0]);
    }
}

/// A number is read back from its decimal text, also behind a plus sign,
/// exactly when it is at most the greatest allowed.
pub proof fn law_decimal_reads_back(n: nat, max: nat)
    ensures
        number_of(decimal(n), 10, max) == (if n <= max {
            Some(n)
        } else {
            None
        }),
        number_of(seq!['+'] + decimal(n), 10, max) == (if n <= max {
            Some(n)
        } else {
            None
        }),
{
    lemma_decimal_run(n);
    let s = seq!['+'] + decimal(n);
    assert(s[0] == '+');
    assert(s.skip(1) =~= decimal(n));
}

/// A further digit multiplies a number by ten, or by sixteen, and adds the
/// digit; another character makes it none.
pub proof fn law_digits_add_up(s: Seq<char>, c: char, n: nat, m: nat)
    requires
        run_value(s, 10) == Some(n),
        run_value(s, 16) == Some(m),
    ensures
        '0' <= c <= '9' ==> run_value(s.push(c), 10) == Some((10 * n + (c as int - '0' as int)) as nat),
        !('0' <= c <= '9') ==> run_value(s.push(c), 10) is None,
        '0' <= c <= '9' ==> run_value(s.push(c), 16) == Some((16 * m + (c as int - '0' as int)) as nat),
        'a' <= c <= 'f' ==> run_value(s.push(c), 16) == Some(
            (16 * m + (c as int - 'a' as int + 10)) as nat,
        ),
        'A' <= c <= 'F' ==> run_value(s.push(c), 16) == Some(
            (16 * m + (c as int - 'A' as int + 10)) as nat,
        ),
        !('0' <= c <= '9') && !('a' <= c <= 'f') && !('A' <= c <= 'F') ==> run_value(
            s.push(c),
            16,
        ) is None,
{
    assert(s.push(c).drop_last() =~= s);
    assert(s.push(c).last() == c);
}

/// Nothing is no number, and a number is never greater than allowed.
pub proof fn law_numbers_are_bounded(s: Seq<char>, radix: nat, max: nat)
    ensures
        number_of(s, radix, max) matches Some(n) ==> n <= max && s.len() > 0,
        s == seq!['+'] ==> number_of(s, radix, max) is None,
{
    assert(seq!['+'].skip(1) =~= Seq::<char>::empty());
}

/// The second word of a text is what stands between the white space behind
/// the first word and the next.
pub proof fn law_second_word(left: Seq<char>, a: Seq<char>, gap: Seq<char>, b: Seq<char>, rest: Seq<char>)
    requires
        forall|i: int| 0 <= i < left.len() ==> white_space(#[trigger] left[i]),
        forall|i: int| 0 <= i < gap.len() ==> white_space(#[trigger] gap[i]),
        forall|i: int| 0 <= i < a.len() ==> !white_space(#[trigger] a[i]),
        forall|i: int| 0 <= i < b.len() ==> !white_space(#[trigger] b[i]),
        a.len() > 0 && gap.len() > 0 && b.len() > 0,
        rest.len() > 0 ==> white_space(rest[0]),
    ensures
        second_word(left + (a + (gap + (b + rest)))) == Some(b),
{
    let tail = gap + (b + rest);
    lemma_trim_start_skips(left, a + tail);
    lemma_word_len(a, tail);
    assert((a + tail).skip(a.len() as int) =~= tail);
    lemma_trim_start_skips(gap, b + rest);
    lemma_word_len(b, rest);
    assert((b + rest).take(b.len() as int) =~= b);
}

proof fn lemma_word_len(a: Seq<char>, rest: Seq<char>)
    requires
        forall|i: int| 0 <= i < a.len() ==> !white_space(#[trigger] a[i]),
        rest.len() > 0 ==> white_space(rest[0]),
    ensures
        word_len(a + rest) == a.len(),
    decreases a.len(),
{
    let s = a + rest;
    if a.len() > 0 {
        assert(s[0] == a[0]);
        let t = a.drop_first();
        assert(forall|i: int| 0 <= i < t.len() ==> t[i] == a[i + 1]);
        lemma_word_len(t, rest);
        assert(s.drop_first() =~= t + rest);
    } else {
        assert(s =~= rest);
    }
}

/// A text without a character holds the other characters of the text, in
/// their order, and that one no more.
pub proof fn law_without(s: Seq<char>, c: char)
    ensures
        !without(s, c).contains(c),
        forall|i: int| 0 <= i < without(s, c).len() ==> s.contains(#[trigger] without(s, c)[i]),
        !s.contains(c) ==> without(s, c) == s,
        s.len() > 0 ==> without(s, c) == if s.last() == c {
            without(s.drop_last(), c)
        } else {
            without(s.drop_last(), c).push(s.last())
        },
        without(Seq::<char>::empty(), c).len() == 0,
    decreases s.len(),
{
    reveal(Seq::filter);
    if s.len() > 0 {
        let rest = s.drop_last();
        law_without(rest, c);
        let w = without(s, c);
        let v = without(rest, c);
        assert forall|i: int| 0 <= i < w.len() implies s.contains(#[trigger] w[i]) by {
            if i < v.len() {
                assert(rest.contains(v[i]));
                let k = choose|k: int| 0 <= k < rest.len() && rest[k] == v[i];
                assert(s[k] == w[i]);
            } else {
                assert(s[s.len() - 1] == w[i]);
            }
        }
        if w.contains(c) {
            let k = choose|k: int| 0 <= k < w.len() && w[k] == c;
            if k < v.len() {
                assert(v[k] == c);
            }
        }
        if !s.contains(c) {
            if rest.contains(c) {
                let k = choose|k: int| 0 <= k < rest.len() && rest[k] == c;
                assert(s[k] == c);
            }
            assert(s[s.len() - 1] != c);
            assert(rest.push(s.last()) =~= s);
        }
    } else {
        assert(s =~= Seq::<char>::empty());
    }
}

/// The code points of white space: the five controls from tab to carriage
/// return, the space, and those of the other scripts.
pub open spec fn white_space_points() -> Seq<int> {
    seq![
        0x09, 0x0a, 0x0b, 0x0c, 0x0d, 0x20, 0x85, 0xa0, 0x1680, 0x2000, 0x2001, 0x2002, 0x2003,
        0x2004, 0x2005, 0x2006, 0x2007, 0x2008, 0x2009, 0x200a, 0x2028, 0x2029, 0x202f, 0x205f,
        0x3000,
    ]
}

/// A character is white space exactly when its code point is one of those;
/// among the ASCII characters none that is printed is.
pub proof fn law_white_space(c: char)
    ensures
        white_space(c) <==> white_space_points().contains(c as int),
        '!' <= c <= '~' ==> !white_space(c),
{
    let p = white_space_points();
    assert(p.len() == 25);
    assert(p[0] == 0x09 && p[1] == 0x0a && p[2] == 0x0b && p[3] == 0x0c && p[4] == 0x0d && p[5]
        == 0x20 && p[6] == 0x85 && p[7] == 0xa0 && p[8] == 0x1680);
    assert(p[9] == 0x2000 && p[10] == 0x2001 && p[11] == 0x2002 && p[12] == 0x2003 && p[13]
        == 0x2004 && p[14] == 0x2005 && p[15] == 0x2006 && p[16] == 0x2007);
    assert(p[17] == 0x2008 && p[18] == 0x2009 && p[19] == 0x200a && p[20] == 0x2028 && p[21]
        == 0x2029 && p[22] == 0x202f && p[23] == 0x205f && p[24] == 0x3000);
}

} // verus!
