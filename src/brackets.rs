//! Bracket-depth aware splitting and group extraction.
//!
//! Parentheses, square brackets, angle brackets and braces are tracked
//! together, so nested generic or tuple syntax is never cut apart.
use vstd::prelude::*;
use crate::text::{find_char, trim, trim_chars, views_of};

verus! {

pub open spec fn is_opener(c: char) -> bool {
    c == '(' || c == '[' || c == '<' || c == '{'
}

pub open spec fn is_closer(c: char) -> bool {
    c == ')' || c == ']' || c == '>' || c == '}'
}

/// Depth after reading `c` at depth `d`; a stray closer leaves depth 0.
pub open spec fn step(d: nat, c: char) -> nat {
    if is_opener(c) {
        d + 1
    } else if is_closer(c) {
        if d > 0 {
            (d - 1) as nat
        } else {
            0
        }
    } else {
        d
    }
}

/// Bracket depth after reading `t[p..i]`, starting from depth 0.
pub open spec fn depth_from(t: Seq<char>, p: int, i: int) -> nat
    decreases i - p,
{
    if i <= p {
        0
    } else {
        step(depth_from(t, p, i - 1), t[i - 1])
    }
}

/// Bracket depth in front of index `i`.
pub open spec fn depth_at(t: Seq<char>, i: int) -> nat {
    depth_from(t, 0, i)
}

/// The pieces of `t[..n]` cut at each `d` found at depth 0 (untrimmed).
pub open spec fn raw_segments(t: Seq<char>, d: char, n: int) -> Seq<Seq<char>>
    decreases n,
{
    if n <= 0 {
        seq![Seq::empty()]
    } else {
        let prev = raw_segments(t, d, n - 1);
        let c = t[n - 1];
        if c == d && depth_at(t, n - 1) == 0 {
            prev.push(Seq::empty())
        } else {
            prev.update(prev.len() - 1, prev.last().push(c))
        }
    }
}

/// The trimmed pieces, with empty ones dropped.
pub open spec fn clean(s: Seq<Seq<char>>) -> Seq<Seq<char>>
    decreases s.len(),
{
    if s.len() == 0 {
        Seq::empty()
    } else if trim(s.last()).len() > 0 {
        clean(s.drop_last()).push(trim(s.last()))
    } else {
        clean(s.drop_last())
    }
}

/// What splitting `t` at top-level `d` yields.
pub open spec fn split_top_level(t: Seq<char>, d: char) -> Seq<Seq<char>> {
    clean(raw_segments(t, d, t.len() as int))
}

/// Index of the first `(` in `t`, when there is one.
pub open spec fn first_open(t: Seq<char>, p: int) -> bool {
    0 <= p < t.len() && t[p] == '(' && forall|j: int| 0 <= j < p ==> t[j] != '('
}

/// `q` is where the group opened at `p` closes: the first index whose
/// character brings the depth counted from `p` back to 0.
pub open spec fn group_close(t: Seq<char>, p: int, q: int) -> bool {
    p < q < t.len() && depth_from(t, p, q + 1) == 0 && forall|j: int|
        p < j < q ==> #[trigger] depth_from(t, p, j + 1) > 0
}

/// The text between the first `(` and the bracket that balances it.
pub open spec fn between_parens(t: Seq<char>) -> Option<Seq<char>> {
    if exists|p: int, q: int| first_open(t, p) && group_close(t, p, q) {
        let (p, q) = choose|p: int, q: int| first_open(t, p) && group_close(t, p, q);
        Some(t.subrange(p + 1, q))
    } else {
        None
    }
}

pub fn step_exec(d: usize, c: char) -> (r: usize)
    requires
        d < usize::MAX,
    ensures
        r == step(d as nat, c),
{
    if c == '(' || c == '[' || c == '<' || c == '{' {
        d + 1
    } else if c == ')' || c == ']' || c == '>' || c == '}' {
        if d > 0 {
            d - 1
        } else {
            0
        }
    } else {
        d
    }
}

pub proof fn lemma_depth_bound(t: Seq<char>, p: int, i: int)
    requires
        p <= i,
    ensures
        depth_from(t, p, i) <= i - p,
    decreases i - p,
{
    if i > p {
        lemma_depth_bound(t, p, i - 1);
    }
}

/// Splits `t` at each `d` at bracket depth 0, trims the pieces and drops empty ones.
pub fn split_top_level_exec(t: &Vec<char>, d: char) -> (r: Vec<Vec<char>>)
    ensures
        views_of(r@) == split_top_level(t@, d),
{
    let mut out: Vec<Vec<char>> = Vec::new();
    let mut cur: Vec<char> = Vec::new();
    let mut depth: usize = 0;
    let mut i: usize = 0;
    while i < t.len()
        invariant
            i <= t@.len(),
            depth == depth_at(t@, i as int),
            raw_segments(t@, d, i as int).last() == cur@,
            raw_segments(t@, d, i as int).len() >= 1,
            clean(raw_segments(t@, d, i as int).drop_last()) == views_of(out@),
        decreases t.len() - i,
    {
        let c = t[i];
        let ghost prev = raw_segments(t@, d, i as int);
        proof {
            lemma_depth_bound(t@, 0, i as int);
        }
        if c == d && depth == 0 {
            let piece = trim_chars(&cur);
            let ghost old_out = out@;
            if piece.len() > 0 {
                out.push(piece);
                assert(views_of(out@) =~= views_of(old_out).push(piece@));
            }
            cur = Vec::new();
            proof {
                let now = raw_segments(t@, d, i + 1);
                assert(now == prev.push(Seq::empty()));
                assert(now.drop_last() =~= prev);
                assert(prev.drop_last() =~= prev.subrange(0, prev.len() - 1));
                assert(views_of(out@) =~= clean(prev));
            }
        } else {
            cur.push(c);
            proof {
                let now = raw_segments(t@, d, i + 1);
                assert(now.drop_last() =~= prev.drop_last());
            }
        }
        depth = step_exec(depth, c);
        i += 1;
    }
    let piece = trim_chars(&cur);
    let ghost old_out = out@;
    if piece.len() > 0 {
        out.push(piece);
        assert(views_of(out@) =~= views_of(old_out).push(piece@));
    }
    let ghost all = raw_segments(t@, d, t@.len() as int);
    assert(views_of(out@) =~= clean(all));
    out
}

/// Locates the first `(` and the index that closes its group.
pub fn find_group(t: &Vec<char>) -> (r: Option<(usize, usize)>)
    ensures
        match r {
            Some((p, q)) => first_open(t@, p as int) && group_close(t@, p as int, q as int),
            None => forall|p: int, q: int| !(first_open(t@, p) && group_close(t@, p, q)),
        },
{
    let p = match find_char(t, '(', 0) {
        Some(p) => p,
        None => {
            return None;
        },
    };
    let mut depth: usize = 0;
    let mut i: usize = p;
    while i < t.len()
        invariant
            p <= i <= t@.len(),
            first_open(t@, p as int),
            depth == depth_from(t@, p as int, i as int),
            i > p ==> depth > 0,
            forall|j: int| p < j < i ==> #[trigger] depth_from(t@, p as int, j + 1) > 0,
        decreases t.len() - i,
    {
        proof {
            lemma_depth_bound(t@, p as int, i as int);
        }
        depth = step_exec(depth, t[i]);
        if depth == 0 && i > p {
            return Some((p, i));
        }
        if i == p {
            assert(depth_from(t@, p as int, p + 1) == step(0, '('));
        }
        i += 1;
    }
    proof {
        assert forall|p_alt: int, q: int| !(first_open(t@, p_alt) && group_close(t@, p_alt, q)) by {
            if first_open(t@, p_alt) {
                assert(p_alt == p);
            }
        }
    }
    None
}

/// The group found by `find_group` is the one `between_parens` speaks of.
pub proof fn lemma_between_parens(t: Seq<char>, p: int, q: int)
    requires
        first_open(t, p),
        group_close(t, p, q),
    ensures
        between_parens(t) == Some(t.subrange(p + 1, q)),
{
    assert(exists|p_alt: int, q_alt: int| first_open(t, p_alt) && group_close(t, p_alt, q_alt)) by {
        assert(first_open(t, p) && group_close(t, p, q));
    }
    let (p_alt, q_alt) = choose|p_alt: int, q_alt: int| first_open(t, p_alt) && group_close(t, p_alt, q_alt);
    if p_alt < p {
        assert(t[p_alt] != '(');
    }
    if p < p_alt {
        assert(t[p] != '(');
    }
    assert(p_alt == p);
    if q_alt < q {
        assert(depth_from(t, p, q_alt + 1) > 0);
    }
    if q < q_alt {
        assert(depth_from(t, p, q + 1) > 0);
    }
    assert(q_alt == q);
}

} // verus!
