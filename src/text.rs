//! Character-level text utilities shared by the parser and the rules.
//!
//! All scanning works on `Vec<char>`; the views are `Seq<char>`, so every
//! textual test used by the parser and the rules has a plain spec meaning.
use vstd::prelude::*;

verus! {

/// Whitespace as the parser understands it.
pub open spec fn is_ws(c: char) -> bool {
    c == ' ' || c == '\t' || c == '\r' || c == '\n'
}

/// A character that may occur inside an identifier.
pub open spec fn is_ident(c: char) -> bool {
    ('a' <= c && c <= 'z') || ('A' <= c && c <= 'Z') || ('0' <= c && c <= '9') || c == '_'
}

pub open spec fn trim_start(s: Seq<char>) -> Seq<char>
    decreases s.len(),
{
    if s.len() > 0 && is_ws(s[0]) {
        trim_start(s.drop_first())
    } else {
        s
    }
}

pub open spec fn trim_end(s: Seq<char>) -> Seq<char>
    decreases s.len(),
{
    if s.len() > 0 && is_ws(s.last()) {
        trim_end(s.drop_last())
    } else {
        s
    }
}

/// `s` without leading and trailing whitespace.
pub open spec fn trim(s: Seq<char>) -> Seq<char> {
    trim_end(trim_start(s))
}

/// `p` occurs in `t` starting at index `i`.
pub open spec fn matches_at(t: Seq<char>, i: int, p: Seq<char>) -> bool {
    0 <= i && i + p.len() <= t.len() && t.subrange(i, i + p.len()) == p
}

pub open spec fn starts_with(t: Seq<char>, p: Seq<char>) -> bool {
    matches_at(t, 0, p)
}

pub open spec fn contains(t: Seq<char>, p: Seq<char>) -> bool {
    exists|i: int| matches_at(t, i, p)
}

/// `k` is the first index where `p` occurs in `t`.
pub open spec fn first_match(t: Seq<char>, p: Seq<char>, k: int) -> bool {
    matches_at(t, k, p) && forall|j: int| 0 <= j < k ==> !matches_at(t, j, p)
}

/// `w` occurs at `i` and is not continued by an identifier character.
pub open spec fn word_at(t: Seq<char>, i: int, w: Seq<char>) -> bool {
    matches_at(t, i, w) && (i + w.len() == t.len() || !is_ident(t[i + w.len()]))
}

/// Every character of `s` is an identifier character.
pub open spec fn all_ident(s: Seq<char>) -> bool {
    forall|k: int| 0 <= k < s.len() ==> is_ident(#[trigger] s[k])
}

/// The longest prefix of `s` made of identifier characters.
pub open spec fn ident_prefix(s: Seq<char>) -> Seq<char>
    decreases s.len(),
{
    if s.len() > 0 && is_ident(s[0]) {
        seq![s[0]] + ident_prefix(s.drop_first())
    } else {
        Seq::empty()
    }
}

/// The character sequences held by a sequence of vectors.
pub open spec fn views_of(v: Seq<Vec<char>>) -> Seq<Seq<char>> {
    v.map_values(|x: Vec<char>| x@)
}

/// Relies on `str::chars`: yields the characters of the string in order.
#[verifier::external_body]
pub(crate) fn chars_of(s: &str) -> (r: Vec<char>)
    ensures
        r@ == s@,
{
    s.chars().collect()
}

/// Relies on `String: FromIterator<&char>`: the string holds the characters in order.
#[verifier::external_body]
pub(crate) fn string_of(v: &Vec<char>) -> (r: String)
    ensures
        r@ == v@,
{
    v.iter().collect()
}

pub fn is_ws_char(c: char) -> (r: bool)
    ensures
        r == is_ws(c),
{
    c == ' ' || c == '\t' || c == '\r' || c == '\n'
}

pub fn is_ident_char(c: char) -> (r: bool)
    ensures
        r == is_ident(c),
{
    ('a' <= c && c <= 'z') || ('A' <= c && c <= 'Z') || ('0' <= c && c <= '9') || c == '_'
}

/// The characters of `s` from `a` up to (not including) `b`.
pub fn slice(s: &Vec<char>, a: usize, b: usize) -> (r: Vec<char>)
    requires
        a <= b <= s@.len(),
    ensures
        r@ == s@.subrange(a as int, b as int),
{
    let mut r: Vec<char> = Vec::new();
    let mut i: usize = a;
    while i < b
        invariant
            a <= i <= b <= s@.len(),
            r@ == s@.subrange(a as int, i as int),
        decreases b - i,
    {
        r.push(s[i]);
        assert(r@ =~= s@.subrange(a as int, i + 1));
        i += 1;
    }
    r
}

/// `s` with leading and trailing whitespace removed.
pub fn trim_chars(s: &Vec<char>) -> (r: Vec<char>)
    ensures
        r@ == trim(s@),
{
    let n = s.len();
    let mut i: usize = 0;
    assert(s@.subrange(0, n as int) =~= s@);
    while i < n && is_ws_char(s[i])
        invariant
            i <= n == s@.len(),
            trim_start(s@) == trim_start(s@.subrange(i as int, n as int)),
        decreases n - i,
    {
        assert(s@.subrange(i as int, n as int).drop_first() =~= s@.subrange(i + 1, n as int));
        i += 1;
    }
    let mut j: usize = n;
    assert(trim_start(s@) == s@.subrange(i as int, n as int));
    while j > i && is_ws_char(s[j - 1])
        invariant
            i <= j <= n == s@.len(),
            trim(s@) == trim_end(s@.subrange(i as int, j as int)),
        decreases j,
    {
        assert(s@.subrange(i as int, j as int).drop_last() =~= s@.subrange(i as int, j - 1));
        j -= 1;
    }
    slice(s, i, j)
}

/// Whether `p` occurs in `t` at index `i`.
pub fn matches_at_exec(t: &Vec<char>, i: usize, p: &Vec<char>) -> (r: bool)
    ensures
        r == matches_at(t@, i as int, p@),
{
    if i > t.len() || p.len() > t.len() - i {
        return false;
    }
    let mut k: usize = 0;
    while k < p.len()
        invariant
            i + p@.len() <= t@.len() <= usize::MAX,
            k <= p@.len(),
            forall|m: int| 0 <= m < k ==> t@[i + m] == p@[m],
        decreases p.len() - k,
    {
        if t[i + k] != p[k] {
            assert(t@.subrange(i as int, i + p@.len())[k as int] != p@[k as int]);
            return false;
        }
        k += 1;
    }
    assert(t@.subrange(i as int, i + p@.len()) =~= p@);
    true
}

/// The first index at or after `from` where `p` occurs in `t`.
pub fn find_from(t: &Vec<char>, p: &Vec<char>, from: usize) -> (r: Option<usize>)
    ensures
        match r {
            Some(k) => from <= k && matches_at(t@, k as int, p@) && forall|j: int|
                from <= j < k ==> !matches_at(t@, j, p@),
            None => forall|j: int| from <= j ==> !matches_at(t@, j, p@),
        },
{
    let mut i: usize = from;
    while i < t.len()
        invariant
            from <= i,
            forall|j: int| from <= j < i ==> !matches_at(t@, j, p@),
        decreases t.len() - i,
    {
        if matches_at_exec(t, i, p) {
            return Some(i);
        }
        i += 1;
    }
    if i == t.len() && matches_at_exec(t, i, p) {
        return Some(i);
    }
    None
}

/// Whether `p` occurs anywhere in `t`.
pub fn contains_exec(t: &Vec<char>, p: &Vec<char>) -> (r: bool)
    ensures
        r == contains(t@, p@),
{
    match find_from(t, p, 0) {
        Some(_) => true,
        None => false,
    }
}

/// Whether the literal `p` occurs anywhere in `t`.
pub fn contains_str(t: &Vec<char>, p: &str) -> (r: bool)
    ensures
        r == contains(t@, p@),
{
    let pv = chars_of(p);
    contains_exec(t, &pv)
}

/// Whether `t` begins with the literal `p`.
pub fn starts_with_str(t: &Vec<char>, p: &str) -> (r: bool)
    ensures
        r == starts_with(t@, p@),
{
    let pv = chars_of(p);
    matches_at_exec(t, 0, &pv)
}

/// Whether `t` equals the literal `p`.
pub fn equals_str(t: &Vec<char>, p: &str) -> (r: bool)
    ensures
        r == (t@ == p@),
{
    let pv = chars_of(p);
    let m = matches_at_exec(t, 0, &pv);
    assert(t@.len() == p@.len() ==> t@.subrange(0, t@.len() as int) =~= t@);
    if m && t.len() == pv.len() {
        assert(t@.subrange(0, t@.len() as int) =~= t@);
        true
    } else {
        false
    }
}

/// The first index of `c` in `t` at or after `from`.
pub fn find_char(t: &Vec<char>, c: char, from: usize) -> (r: Option<usize>)
    ensures
        match r {
            Some(k) => from <= k < t@.len() && t@[k as int] == c && forall|j: int|
                from <= j < k ==> t@[j] != c,
            None => forall|j: int| from <= j < t@.len() ==> t@[j] != c,
        },
{
    let mut i: usize = from;
    while i < t.len()
        invariant
            from <= i,
            forall|j: int| from <= j < i ==> t@[j] != c,
        decreases t.len() - i,
    {
        if t[i] == c {
            return Some(i);
        }
        i += 1;
    }
    None
}

/// The longest prefix of `s` made of identifier characters.
pub fn ident_prefix_exec(s: &Vec<char>) -> (r: Vec<char>)
    ensures
        r@ == ident_prefix(s@),
{
    let n = s.len();
    let mut i: usize = 0;
    while i < n && is_ident_char(s[i])
        invariant
            i <= n == s@.len(),
            forall|k: int| 0 <= k < i ==> is_ident(s@[k]),
        decreases n - i,
    {
        i += 1;
    }
    proof {
        lemma_ident_prefix(s@, i as int);
    }
    slice(s, 0, i)
}

/// `ident_prefix` stops at the first non-identifier character.
pub proof fn lemma_ident_prefix(s: Seq<char>, i: int)
    requires
        0 <= i <= s.len(),
        forall|k: int| 0 <= k < i ==> is_ident(s[k]),
        i == s.len() || !is_ident(s[i]),
    ensures
        ident_prefix(s) == s.subrange(0, i),
    decreases i,
{
    if i == 0 {
        assert(s.subrange(0, 0) =~= Seq::<char>::empty());
    } else {
        let t = s.drop_first();
        assert forall|k: int| 0 <= k < i - 1 implies is_ident(t[k]) by {
            assert(t[k] == s[k + 1]);
        }
        if i < s.len() {
            assert(t[i - 1] == s[i]);
        }
        lemma_ident_prefix(t, i - 1);
        assert(seq![s[0]] + t.subrange(0, i - 1) =~= s.subrange(0, i));
    }
}

/// Whether every character of `s` is an identifier character.
pub fn all_ident_exec(s: &Vec<char>) -> (r: bool)
    ensures
        r == all_ident(s@),
{
    let mut i: usize = 0;
    while i < s.len()
        invariant
            forall|k: int| 0 <= k < i ==> is_ident(s@[k]),
        decreases s.len() - i,
    {
        if !is_ident_char(s[i]) {
            return false;
        }
        i += 1;
    }
    true
}

/// `a + b + c` as characters.
pub fn concat3(a: &str, b: &Vec<char>, c: &str) -> (r: Vec<char>)
    ensures
        r@ == a@ + b@ + c@,
{
    let mut r = chars_of(a);
    let mut i: usize = 0;
    let ghost start = r@;
    while i < b.len()
        invariant
            i <= b@.len(),
            r@ == start + b@.subrange(0, i as int),
        decreases b.len() - i,
    {
        r.push(b[i]);
        assert(r@ =~= start + b@.subrange(0, i + 1));
        i += 1;
    }
    assert(b@.subrange(0, b@.len() as int) =~= b@);
    let cv = chars_of(c);
    let ghost mid = r@;
    let mut j: usize = 0;
    while j < cv.len()
        invariant
            j <= cv@.len(),
            r@ == mid + cv@.subrange(0, j as int),
        decreases cv.len() - j,
    {
        r.push(cv[j]);
        assert(r@ =~= mid + cv@.subrange(0, j + 1));
        j += 1;
    }
    assert(cv@.subrange(0, cv@.len() as int) =~= cv@);
    r
}

} // verus!
