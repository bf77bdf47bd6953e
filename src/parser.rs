//! The structural parser: recovers types, fields, implementation blocks,
//! functions and parameters from annotated contract source, line by line,
//! without a grammar.
use vstd::prelude::*;
use crate::brackets::{
    depth_from, lemma_between_parens, between_parens, find_group, first_open, group_close, split_top_level, split_top_level_exec,
};
use crate::model::{
    FieldVisibility, FunctionVisibility, SorobanContract, SorobanField, SorobanFunction,
    SorobanImpl, SorobanParam, SorobanParseError, SorobanResult, SorobanStruct,
};
use crate::text::{
    all_ident, all_ident_exec, chars_of, contains, contains_str, equals_str, find_char,
    find_from, first_match, ident_prefix, ident_prefix_exec, slice, starts_with,
    starts_with_str, string_of, trim, trim_chars, views_of,
};

verus! {

// ---------------------------------------------------------------------------
// Lines
// ---------------------------------------------------------------------------

/// The lines of `s[..n]`, cut at each newline.
pub open spec fn lines_upto(s: Seq<char>, n: int) -> Seq<Seq<char>>
    decreases n,
{
    if n <= 0 {
        seq![Seq::empty()]
    } else {
        let prev = lines_upto(s, n - 1);
        if s[n - 1] == '\n' {
            prev.push(Seq::empty())
        } else {
            prev.update(prev.len() - 1, prev.last().push(s[n - 1]))
        }
    }
}

/// The lines of `s`.
pub open spec fn lines_of(s: Seq<char>) -> Seq<Seq<char>> {
    lines_upto(s, s.len() as int)
}

pub proof fn lemma_lines_len(s: Seq<char>, n: int)
    requires
        0 <= n <= s.len(),
    ensures
        1 <= lines_upto(s, n).len() <= n + 1,
    decreases n,
{
    if n > 0 {
        lemma_lines_len(s, n - 1);
    }
}

/// The character sequences of a sequence of string slices.
pub open spec fn str_views(v: Seq<&str>) -> Seq<Seq<char>> {
    v.map_values(|x: &str| x@)
}

/// The character sequences of a sequence of strings.
pub open spec fn string_views(v: Seq<String>) -> Seq<Seq<char>> {
    v.map_values(|x: String| x@)
}

/// `h` is the first line that is not blank, a comment or an attribute.
pub open spec fn first_significant(ls: Seq<Seq<char>>, h: int) -> bool {
    0 <= h < ls.len() && !is_skippable(ls[h]) && forall|j: int| 0 <= j < h ==> is_skippable(ls[j])
}

fn lines_to_vecs(lines: &[&str]) -> (r: Vec<Vec<char>>)
    ensures
        views_of(r@) == str_views(lines@),
{
    let mut out: Vec<Vec<char>> = Vec::new();
    let mut i: usize = 0;
    while i < lines.len()
        invariant
            i <= lines@.len(),
            views_of(out@) == str_views(lines@).subrange(0, i as int),
        decreases lines.len() - i,
    {
        let v = chars_of(lines[i]);
        let ghost old = out@;
        out.push(v);
        assert(views_of(out@) =~= views_of(old).push(v@));
        assert(str_views(lines@)[i as int] == lines@[i as int]@);
        assert(views_of(out@) =~= str_views(lines@).subrange(0, i + 1));
        i += 1;
    }
    assert(str_views(lines@).subrange(0, lines@.len() as int) =~= str_views(lines@));
    out
}

/// Cuts `s` into lines at each newline.
pub fn split_lines(s: &Vec<char>) -> (r: Vec<Vec<char>>)
    ensures
        views_of(r@) == lines_of(s@),
        1 <= r@.len() <= s@.len() + 1,
{
    let mut out: Vec<Vec<char>> = Vec::new();
    let mut cur: Vec<char> = Vec::new();
    let mut i: usize = 0;
    while i < s.len()
        invariant
            i <= s@.len(),
            views_of(out@).push(cur@) == lines_upto(s@, i as int),
        decreases s.len() - i,
    {
        let c = s[i];
        let ghost prev = lines_upto(s@, i as int);
        if c == '\n' {
            let ghost old_out = out@;
            out.push(cur);
            cur = Vec::new();
            assert(views_of(out@) =~= views_of(old_out).push(prev.last()));
            assert(views_of(out@) =~= prev);
            assert(views_of(out@).push(cur@) =~= lines_upto(s@, i + 1));
        } else {
            cur.push(c);
            assert(views_of(out@).push(cur@) =~= lines_upto(s@, i + 1));
        }
        i += 1;
    }
    let ghost old_out = out@;
    out.push(cur);
    assert(views_of(out@) =~= views_of(old_out).push(cur@));
    proof {
        lemma_lines_len(s@, s@.len() as int);
    }
    out
}

// ---------------------------------------------------------------------------
// Line shapes
// ---------------------------------------------------------------------------

/// A marker that announces a type declaration.
pub open spec fn is_type_marker(l: Seq<char>) -> bool {
    trim(l) == "#[contracttype]"@ || trim(l) == "#[contract]"@
}

/// The marker that announces an implementation block.
pub open spec fn is_impl_marker(l: Seq<char>) -> bool {
    trim(l) == "#[contractimpl]"@
}

/// A blank line, a comment or an attribute: passed over between a marker
/// and its declaration, and inside declarations.
pub open spec fn is_skippable(l: Seq<char>) -> bool {
    trim(l).len() == 0 || starts_with(trim(l), "//"@) || starts_with(trim(l), "#"@)
}

/// `t` without a leading `pub ` keyword.
pub open spec fn after_pub(t: Seq<char>) -> Seq<char> {
    if starts_with(t, "pub "@) {
        trim(t.subrange(4, t.len() as int))
    } else {
        t
    }
}

/// The name declared by a `struct` header line (empty if it is none).
pub open spec fn struct_name(l: Seq<char>) -> Seq<char> {
    let t = after_pub(trim(l));
    if starts_with(t, "struct "@) {
        ident_prefix(trim(t.subrange(7, t.len() as int)))
    } else {
        Seq::empty()
    }
}

/// The name declared by a `fn` header line (empty if it is none).
pub open spec fn fn_name(l: Seq<char>) -> Seq<char> {
    let t = after_pub(trim(l));
    if starts_with(t, "fn "@) {
        ident_prefix(trim(t.subrange(3, t.len() as int)))
    } else {
        Seq::empty()
    }
}

/// The type an `impl` header line implements (empty if it is none); for
/// `impl Trait for Type` it is `Type`.
pub open spec fn impl_target(l: Seq<char>) -> Seq<char> {
    let t = trim(l);
    if starts_with(t, "impl "@) {
        let rest = t.subrange(5, t.len() as int);
        if contains(rest, " for "@) {
            let k = choose|k: int| first_match(rest, " for "@, k);
            ident_prefix(trim(rest.subrange(k + 5, rest.len() as int)))
        } else {
            ident_prefix(trim(rest))
        }
    } else {
        Seq::empty()
    }
}

/// Line `k` or a line above it, across skippable lines only, is a marker
/// of the wanted kind.
pub open spec fn marked_before(ls: Seq<Seq<char>>, k: int, want_impl: bool) -> bool
    decreases k + 1,
{
    if k < 0 || k >= ls.len() {
        false
    } else if (want_impl && is_impl_marker(ls[k])) || (!want_impl && is_type_marker(ls[k])) {
        true
    } else if is_skippable(ls[k]) {
        marked_before(ls, k - 1, want_impl)
    } else {
        false
    }
}

/// Line `h` declares an annotated type.
pub open spec fn marked_type_at(ls: Seq<Seq<char>>, h: int) -> bool {
    0 <= h < ls.len() && struct_name(ls[h]).len() > 0 && marked_before(ls, h - 1, false)
}

/// Line `h` opens an annotated implementation block.
pub open spec fn marked_impl_at(ls: Seq<Seq<char>>, h: int) -> bool {
    0 <= h < ls.len() && impl_target(ls[h]).len() > 0 && marked_before(ls, h - 1, true)
}

/// The source declares at least one annotated type.
pub open spec fn has_marked_type(ls: Seq<Seq<char>>) -> bool {
    exists|h: int| marked_type_at(ls, h)
}

/// `h` is the first line that declares an annotated type.
pub open spec fn first_marked_type(ls: Seq<Seq<char>>, h: int) -> bool {
    marked_type_at(ls, h) && forall|j: int| 0 <= j < h ==> !marked_type_at(ls, j)
}

// ---------------------------------------------------------------------------
// Fields and parameters
// ---------------------------------------------------------------------------

/// `s` without one trailing comma.
pub open spec fn strip_comma(s: Seq<char>) -> Seq<char> {
    if s.len() > 0 && s.last() == ',' {
        s.drop_last()
    } else {
        s
    }
}

/// `c` is the first colon of `s`.
pub open spec fn first_colon(s: Seq<char>, c: int) -> bool {
    0 <= c < s.len() && s[c] == ':' && forall|j: int| 0 <= j < c ==> s[j] != ':'
}

/// Name, raw type and visibility of the field a line declares, if any.
pub open spec fn field_of(line: Seq<char>) -> Option<(Seq<char>, Seq<char>, FieldVisibility)> {
    let t = trim(line);
    let vis = if starts_with(t, "pub "@) {
        FieldVisibility::Public
    } else {
        FieldVisibility::Private
    };
    let rest = after_pub(t);
    if is_skippable(line) || !(exists|c: int| first_colon(rest, c)) {
        None
    } else {
        let c = choose|c: int| first_colon(rest, c);
        let name = trim(rest.subrange(0, c));
        let ty = trim(strip_comma(trim(rest.subrange(c + 1, rest.len() as int))));
        if name.len() > 0 && all_ident(name) {
            Some((name, ty, vis))
        } else {
            None
        }
    }
}

/// Name and raw type of a parameter entry, if it has a colon.
pub open spec fn param_of(piece: Seq<char>) -> Option<(Seq<char>, Seq<char>)> {
    if exists|c: int| first_colon(piece, c) {
        let c = choose|c: int| first_colon(piece, c);
        Some((trim(piece.subrange(0, c)), trim(piece.subrange(c + 1, piece.len() as int))))
    } else {
        None
    }
}

/// The constructor heuristic: a conventional name, or a return type that
/// mentions `Self`.
pub open spec fn is_ctor(name: Seq<char>, ret: Option<Seq<char>>) -> bool {
    name == "new"@ || name == "init"@ || name == "initialize"@ || (ret is Some && contains(
        ret->Some_0,
        "Self"@,
    ))
}

// ---------------------------------------------------------------------------
// Executable line tests
// ---------------------------------------------------------------------------

fn after_pub_exec(t: &Vec<char>) -> (r: Vec<char>)
    ensures
        r@ == after_pub(t@),
{
    if starts_with_str(t, "pub ") {
        proof {
            reveal_strlit("pub ");
        }
        let rest = slice(t, 4, t.len());
        trim_chars(&rest)
    } else {
        t.clone()
    }
}

fn is_skippable_exec(l: &Vec<char>) -> (r: bool)
    ensures
        r == is_skippable(l@),
{
    let t = trim_chars(l);
    t.len() == 0 || starts_with_str(&t, "//") || starts_with_str(&t, "#")
}

fn struct_name_exec(l: &Vec<char>) -> (r: Vec<char>)
    ensures
        r@ == struct_name(l@),
{
    let t0 = trim_chars(l);
    let t = after_pub_exec(&t0);
    if starts_with_str(&t, "struct ") {
        proof {
            reveal_strlit("struct ");
        }
        let rest = slice(&t, 7, t.len());
        let rest = trim_chars(&rest);
        ident_prefix_exec(&rest)
    } else {
        Vec::new()
    }
}

fn fn_name_exec(l: &Vec<char>) -> (r: Vec<char>)
    ensures
        r@ == fn_name(l@),
{
    let t0 = trim_chars(l);
    let t = after_pub_exec(&t0);
    if starts_with_str(&t, "fn ") {
        proof {
            reveal_strlit("fn ");
        }
        let rest = slice(&t, 3, t.len());
        let rest = trim_chars(&rest);
        ident_prefix_exec(&rest)
    } else {
        Vec::new()
    }
}

fn impl_target_exec(l: &Vec<char>) -> (r: Vec<char>)
    ensures
        r@ == impl_target(l@),
{
    let t = trim_chars(l);
    if !starts_with_str(&t, "impl ") {
        return Vec::new();
    }
    proof {
        reveal_strlit("impl ");
        reveal_strlit(" for ");
    }
    let rest = slice(&t, 5, t.len());
    let pat = chars_of(" for ");
    match find_from(&rest, &pat, 0) {
        Some(k) => {
            assert(first_match(rest@, " for "@, k as int));
            assert(contains(rest@, " for "@));
            let tail = slice(&rest, k + 5, rest.len());
            let tail = trim_chars(&tail);
            ident_prefix_exec(&tail)
        },
        None => {
            assert(!contains(rest@, " for "@));
            let tail = trim_chars(&rest);
            ident_prefix_exec(&tail)
        },
    }
}

/// Whether a marker of the wanted kind stands above line `h`, across
/// skippable lines only.
fn marker_above(ls: &Vec<Vec<char>>, h: usize, want_impl: bool) -> (r: bool)
    requires
        h <= ls@.len(),
    ensures
        r == marked_before(views_of(ls@), h - 1, want_impl),
{
    let ghost lv = views_of(ls@);
    let mut k: usize = h;
    while k > 0
        invariant
            k <= h <= ls@.len(),
            lv == views_of(ls@),
            marked_before(lv, h - 1, want_impl) == marked_before(lv, k - 1, want_impl),
        decreases k,
    {
        let t = trim_chars(&ls[k - 1]);
        assert(lv[k - 1] == ls@[k - 1]@);
        let marker = if want_impl {
            equals_str(&t, "#[contractimpl]")
        } else {
            equals_str(&t, "#[contracttype]") || equals_str(&t, "#[contract]")
        };
        if marker {
            return true;
        }
        if !is_skippable_exec(&ls[k - 1]) {
            return false;
        }
        k -= 1;
    }
    false
}

/// The first line that declares an annotated type.
fn find_first_marked_type(ls: &Vec<Vec<char>>) -> (r: Option<usize>)
    ensures
        match r {
            Some(h) => first_marked_type(views_of(ls@), h as int),
            None => !has_marked_type(views_of(ls@)),
        },
{
    let ghost lv = views_of(ls@);
    let mut h: usize = 0;
    while h < ls.len()
        invariant
            h <= ls@.len(),
            lv == views_of(ls@),
            forall|j: int| 0 <= j < h ==> !marked_type_at(lv, j),
        decreases ls.len() - h,
    {
        let name = struct_name_exec(&ls[h]);
        assert(lv[h as int] == ls@[h as int]@);
        if name.len() > 0 && marker_above(ls, h, false) {
            return Some(h);
        }
        h += 1;
    }
    None
}

/// The field a trimmed-or-not line declares, if any.
fn field_from_line(line: &Vec<char>, line_number: usize) -> (r: Option<SorobanField>)
    ensures
        match r {
            Some(f) => field_of(line@) == Some((f.name@, f.type_text@, f.visibility))
                && f.line_number == line_number,
            None => field_of(line@) is None,
        },
{
    proof {
        reveal_strlit("pub ");
    }
    if is_skippable_exec(line) {
        return None;
    }
    let t = trim_chars(line);
    let vis = if starts_with_str(&t, "pub ") {
        FieldVisibility::Public
    } else {
        FieldVisibility::Private
    };
    let rest = after_pub_exec(&t);
    let c = match find_char(&rest, ':', 0) {
        Some(c) => c,
        None => {
            assert(!(exists|c: int| first_colon(rest@, c)));
            return None;
        },
    };
    assert(first_colon(rest@, c as int));
    assert(forall|c2: int| first_colon(rest@, c2) ==> c2 == c);
    let name_raw = slice(&rest, 0, c);
    let name = trim_chars(&name_raw);
    let rn = rest.len();
    let ty_raw = slice(&rest, c + 1, rn);
    let ty_raw = trim_chars(&ty_raw);
    let ty_cut = if ty_raw.len() > 0 && ty_raw[ty_raw.len() - 1] == ',' {
        slice(&ty_raw, 0, ty_raw.len() - 1)
    } else {
        ty_raw
    };
    proof {
        if ty_raw@.len() > 0 && ty_raw@.last() == ',' {
            assert(ty_raw@.drop_last() =~= ty_raw@.subrange(0, ty_raw@.len() - 1));
        }
    }
    let ty = trim_chars(&ty_cut);
    if name.len() > 0 && all_ident_exec(&name) {
        Some(
            SorobanField {
                name: string_of(&name),
                type_text: string_of(&ty),
                visibility: vis,
                line_number,
            },
        )
    } else {
        None
    }
}

/// The parameter an entry of a parameter list declares, if it has a colon.
fn param_from_piece(piece: &Vec<char>) -> (r: Option<SorobanParam>)
    ensures
        match r {
            Some(p) => param_of(piece@) == Some((p.name@, p.type_text@)),
            None => param_of(piece@) is None,
        },
{
    let c = match find_char(piece, ':', 0) {
        Some(c) => c,
        None => {
            assert(!(exists|c: int| first_colon(piece@, c)));
            return None;
        },
    };
    assert(first_colon(piece@, c as int));
    assert(forall|c2: int| first_colon(piece@, c2) ==> c2 == c);
    let n = slice(piece, 0, c);
    let n = trim_chars(&n);
    let pn = piece.len();
    let ty = slice(piece, c + 1, pn);
    let ty = trim_chars(&ty);
    Some(SorobanParam { name: string_of(&n), type_text: string_of(&ty) })
}


// ---------------------------------------------------------------------------
// Blocks
// ---------------------------------------------------------------------------

/// Lines `a..b` of `ls` joined by newlines.
pub open spec fn joined(ls: Seq<Seq<char>>, a: int, b: int) -> Seq<char>
    decreases b - a,
{
    if b <= a + 1 {
        if a < ls.len() && b == a + 1 {
            ls[a]
        } else {
            Seq::empty()
        }
    } else {
        joined(ls, a, b - 1) + seq!['\n'] + ls[b - 1]
    }
}

pub open spec fn opt_view(o: Option<String>) -> Option<Seq<char>> {
    match o {
        Some(s) => Some(s@),
        None => None,
    }
}

/// `b` is the first `{` or `;` after index `q`: where a signature ends.
pub open spec fn sig_end(t: Seq<char>, q: int, b: int) -> bool {
    q < b < t.len() && (t[b] == '{' || t[b] == ';') && forall|j: int|
        q < j < b ==> t[j] != '{' && t[j] != ';'
}

/// The return type written between the parameter list closing at `q` and
/// the signature end `b`.
pub open spec fn ret_between(t: Seq<char>, q: int, b: int) -> Option<Seq<char>> {
    let seg = trim(t.subrange(q + 1, b));
    if starts_with(seg, "->"@) {
        Some(trim(seg.subrange(2, seg.len() as int)))
    } else {
        None
    }
}

/// The parameters declared by a sequence of parameter-list entries; entries
/// without a colon (receivers) declare none.
pub open spec fn params_of(pieces: Seq<Seq<char>>) -> Seq<(Seq<char>, Seq<char>)>
    decreases pieces.len(),
{
    if pieces.len() == 0 {
        Seq::empty()
    } else {
        match param_of(pieces.last()) {
            Some(pr) => params_of(pieces.drop_last()).push(pr),
            None => params_of(pieces.drop_last()),
        }
    }
}

pub open spec fn param_views(ps: Seq<SorobanParam>) -> Seq<(Seq<char>, Seq<char>)> {
    ps.map_values(|p: SorobanParam| (p.name@, p.type_text@))
}

/// The brace block opened at `b` closes at `k`: `k` holds `}` and brings the
/// brace depth counted from `b` back to 0.
pub open spec fn closes_at(t: Seq<char>, b: int, k: int) -> bool {
    b <= k < t.len() && t[k] == '}' && line_depth(t.subrange(b, k + 1), 0) == 0
}

/// `e` is the first index that closes the brace block opened at `b`.
pub open spec fn block_close(t: Seq<char>, b: int, e: int) -> bool {
    closes_at(t, b, e) && forall|k: int| b <= k < e ==> !#[trigger] closes_at(t, b, k)
}

/// A signature ending at `b` has its body end at `e`: at the `;` itself, or
/// at the brace that balances the `{`.
pub open spec fn body_end(t: Seq<char>, b: int, e: int) -> bool {
    (t[b] == ';' && e == b) || (t[b] == '{' && block_close(t, b, e))
}

/// The first `(` at `p`, its group closing at `q`, the signature ending at
/// `b` and the body ending at `e`.
pub open spec fn fn_shape(t: Seq<char>, p: int, q: int, b: int, e: int) -> bool {
    first_open(t, p) && group_close(t, p, q) && sig_end(t, q, b) && body_end(t, b, e)
}

/// The function text starting at line `start` has a balanced parameter
/// list, a signature end and a balanced body.
pub open spec fn fn_balanced(ls: Seq<Seq<char>>, start: int) -> bool {
    exists|p: int, q: int, b: int, e: int| fn_shape(joined(ls, start, ls.len() as int), p, q, b, e)
}

/// `f` is what the function whose signature starts on line `start` declares.
pub open spec fn parsed_function(ls: Seq<Seq<char>>, start: int, f: SorobanFunction) -> bool {
    let text = joined(ls, start, ls.len() as int);
    &&& 0 <= start < ls.len()
    &&& f.name@ == fn_name(ls[start])
    &&& f.name@.len() > 0
    &&& f.line_number == start + 1
    &&& f.visibility == (if starts_with(trim(ls[start]), "pub "@) {
        FunctionVisibility::Public
    } else {
        FunctionVisibility::Private
    })
    &&& f.is_constructor == is_ctor(f.name@, opt_view(f.return_type))
    &&& between_parens(text) is Some
    &&& param_views(f.params@) == params_of(split_top_level(between_parens(text)->Some_0, ','))
    &&& exists|p: int, q: int, b: int, e: int|
        #[trigger] fn_shape(text, p, q, b, e) && opt_view(f.return_type) == ret_between(text, q, b)
            && f.raw_definition@ == text.subrange(0, e + 1)
}

/// There is at most one shape for a function text.
pub proof fn lemma_fn_shape_unique(
    t: Seq<char>,
    p: int,
    q: int,
    b: int,
    e: int,
    p_alt: int,
    q_alt: int,
    b_alt: int,
    e_alt: int,
)
    requires
        fn_shape(t, p, q, b, e),
        fn_shape(t, p_alt, q_alt, b_alt, e_alt),
    ensures
        p == p_alt && q == q_alt && b == b_alt && e == e_alt,
{
    lemma_between_parens(t, p, q);
    lemma_between_parens(t, p_alt, q_alt);
    if p < p_alt {
        assert(t[p] != '(');
    }
    if p_alt < p {
        assert(t[p_alt] != '(');
    }
    if q < q_alt {
        assert(depth_from(t, p, q + 1) > 0);
    }
    if q_alt < q {
        assert(depth_from(t, p, q_alt + 1) > 0);
    }
    if b < b_alt {
        assert(t[b] != '{' && t[b] != ';');
    }
    if b_alt < b {
        assert(t[b_alt] != '{' && t[b_alt] != ';');
    }
    if t[b] == '{' {
        if e < e_alt {
            assert(!closes_at(t, b, e));
        }
        if e_alt < e {
            assert(!closes_at(t, b, e_alt));
        }
    }
}

/// `f` is the field declared on line `j`, numbered from `first_line`.
pub open spec fn parsed_field(ls: Seq<Seq<char>>, j: int, first_line: int, f: SorobanField) -> bool {
    0 <= j < ls.len() && field_of(ls[j]) == Some((f.name@, f.type_text@, f.visibility))
        && f.line_number == first_line + j
}

/// Brace depth after reading `c` at depth `d`; only braces count.
pub open spec fn brace_step(d: nat, c: char) -> nat {
    if c == '{' {
        if d < usize::MAX {
            d + 1
        } else {
            d
        }
    } else if c == '}' {
        if d > 0 {
            (d - 1) as nat
        } else {
            0
        }
    } else {
        d
    }
}

/// Brace depth after reading line `l` from depth `d`.
pub open spec fn line_depth(l: Seq<char>, d: nat) -> nat
    decreases l.len(),
{
    if l.len() == 0 {
        d
    } else {
        brace_step(line_depth(l.drop_last(), d), l.last())
    }
}

pub open spec fn has_open_brace(l: Seq<char>) -> bool {
    exists|k: int| 0 <= k < l.len() && l[k] == '{'
}

/// Brace depth in front of line `j` of a block that starts on line `h`.
pub open spec fn depth_before(ls: Seq<Seq<char>>, h: int, j: int) -> nat
    decreases j - h,
{
    if j <= h || j > ls.len() {
        0
    } else {
        line_depth(ls[j - 1], depth_before(ls, h, j - 1))
    }
}

/// A brace was opened in lines `h..j`.
pub open spec fn opened_before(ls: Seq<Seq<char>>, h: int, j: int) -> bool
    decreases j - h,
{
    if j <= h || j > ls.len() {
        false
    } else {
        opened_before(ls, h, j - 1) || has_open_brace(ls[j - 1])
    }
}

/// A declaration without a body, such as `pub struct Unit;`.
pub open spec fn is_unit_line(l: Seq<char>) -> bool {
    trim(l).len() > 0 && trim(l).last() == ';'
}

/// The type declaration that starts on line `h` ends on line `j`.
pub open spec fn struct_ends_at(ls: Seq<Seq<char>>, h: int, j: int) -> bool {
    (opened_before(ls, h, j + 1) && depth_before(ls, h, j + 1) == 0) || (!opened_before(
        ls,
        h,
        j + 1,
    ) && is_unit_line(ls[j]))
}

/// Line `e` is the first line on which the declaration starting at `h` ends.
pub open spec fn struct_end(ls: Seq<Seq<char>>, h: int, e: int) -> bool {
    h <= e < ls.len() && struct_ends_at(ls, h, e) && forall|j: int|
        h <= j < e ==> !#[trigger] struct_ends_at(ls, h, j)
}

pub open spec fn field_view(f: SorobanField) -> ((Seq<char>, Seq<char>, FieldVisibility), int) {
    ((f.name@, f.type_text@, f.visibility), f.line_number as int)
}

/// The fields declared in lines `h..j` of the declaration starting at `h`:
/// field lines at brace depth 1, numbered from `first_line`.
pub open spec fn fields_upto(ls: Seq<Seq<char>>, h: int, j: int, first_line: int) -> Seq<
    ((Seq<char>, Seq<char>, FieldVisibility), int),
>
    decreases j - h,
{
    if j <= h || j > ls.len() {
        Seq::empty()
    } else {
        let prev = fields_upto(ls, h, j - 1, first_line);
        let line = j - 1;
        if line > h && opened_before(ls, h, line) && depth_before(ls, h, line) == 1 && field_of(
            ls[line],
        ) is Some {
            prev.push((field_of(ls[line])->Some_0, first_line + line))
        } else {
            prev
        }
    }
}

/// The declaration starting on line `h`, ending on line `e`, holds exactly
/// the fields `fs`.
pub open spec fn struct_fields_exact(
    ls: Seq<Seq<char>>,
    h: int,
    e: int,
    first_line: int,
    fs: Seq<SorobanField>,
) -> bool {
    struct_end(ls, h, e) && fs.map_values(|f: SorobanField| field_view(f)) == fields_upto(
        ls,
        h,
        e + 1,
        first_line,
    )
}

/// Each field stands on a line in `(h, end]`, numbered from `first_line`.
pub open spec fn fields_within(
    ls: Seq<Seq<char>>,
    h: int,
    end: int,
    first_line: int,
    fs: Seq<SorobanField>,
) -> bool {
    forall|k: int|
        0 <= k < fs.len() ==> h < #[trigger] fs[k].line_number - first_line <= end
            && parsed_field(ls, fs[k].line_number - first_line, first_line, fs[k])
}

/// The number of newlines in `s`.
pub open spec fn nl_count(s: Seq<char>) -> nat
    decreases s.len(),
{
    if s.len() == 0 {
        0
    } else {
        nl_count(s.drop_last()) + if s.last() == '\n' {
            1nat
        } else {
            0nat
        }
    }
}

/// The last line of function `f`, found from the newlines in its text.
pub open spec fn fn_last_line(ls: Seq<Seq<char>>, f: SorobanFunction) -> int {
    if f.line_number - 1 + nl_count(f.raw_definition@) < ls.len() {
        f.line_number - 1 + nl_count(f.raw_definition@)
    } else {
        ls.len() - 1
    }
}

/// Line `h` lies in the declaration `t`: at or after its header, and the
/// declaration has not ended before it.
pub open spec fn covers(ls: Seq<Seq<char>>, t: SorobanStruct, h: int) -> bool {
    t.line_number - 1 <= h && forall|j: int|
        t.line_number - 1 <= j < h ==> !#[trigger] struct_ends_at(ls, t.line_number - 1, j)
}

/// Every annotated type declaration is parsed, or lies inside one that is.
pub open spec fn types_complete(ls: Seq<Seq<char>>, ts: Seq<SorobanStruct>, upto: int) -> bool {
    forall|h: int|
        0 <= h < upto && #[trigger] marked_type_at(ls, h) ==> exists|k: int|
            0 <= k < ts.len() && #[trigger] covers(ls, ts[k], h)
}

/// Every annotated implementation block is parsed, or lies inside a parsed
/// type declaration.
pub open spec fn impls_complete(
    ls: Seq<Seq<char>>,
    ts: Seq<SorobanStruct>,
    is: Seq<SorobanImpl>,
    upto: int,
) -> bool {
    forall|h: int|
        0 <= h < upto && #[trigger] marked_impl_at(ls, h) ==> (exists|k: int|
            0 <= k < is.len() && (#[trigger] is[k]).line_number == h + 1) || (exists|k: int|
            0 <= k < ts.len() && #[trigger] covers(ls, ts[k], h))
}

/// What a successful parse of the lines `ls` of `source`, labelled `label`, yields.
pub open spec fn contract_shape(
    ls: Seq<Seq<char>>,
    c: SorobanContract,
    source: Seq<char>,
    label: Seq<char>,
) -> bool {
    &&& has_marked_type(ls)
    &&& forall|h: int| first_marked_type(ls, h) ==> c.name@ == struct_name(ls[h])
    &&& c.contract_types@.len() >= 1
    &&& first_marked_type(ls, c.contract_types@[0].line_number - 1)
    &&& c.name@ == c.contract_types@[0].name@
    &&& type_lines(c.contract_types@) == scan_types(ls, 0)
    &&& impl_lines(c.implementations@) == scan_impls(ls, 0)
    &&& types_complete(ls, c.contract_types@, ls.len() as int)
    &&& impls_complete(ls, c.contract_types@, c.implementations@, ls.len() as int)
    &&& forall|a: int, b: int|
        0 <= a < b < c.contract_types@.len() ==> (#[trigger] c.contract_types@[a]).line_number
            < (#[trigger] c.contract_types@[b]).line_number
    &&& c.source@ == source
    &&& c.file_path@ == label
    &&& forall|k: int|
        0 <= k < c.contract_types@.len() ==> {
            let t = #[trigger] c.contract_types@[k];
            &&& marked_type_at(ls, t.line_number - 1)
            &&& t.name@ == struct_name(ls[t.line_number - 1])
            &&& fields_within(ls, t.line_number - 1, ls.len() - 1, 1, t.fields@)
            &&& exists|e: int| #[trigger] struct_fields_exact(ls, t.line_number - 1, e, 1, t.fields@)
                && t.raw_definition@ == joined(ls, t.line_number - 1, e + 1)
        }
    &&& forall|k: int|
        0 <= k < c.implementations@.len() ==> {
            let im = #[trigger] c.implementations@[k];
            &&& marked_impl_at(ls, im.line_number - 1)
            &&& im.target@ == impl_target(ls[im.line_number - 1])
            &&& exists|e: int|
                #[trigger] impl_end(ls, im.line_number - 1, e) && impl_functions_exact(
                    ls,
                    im.line_number - 1,
                    e,
                    im.functions@,
                ) && im.raw_definition@ == joined(ls, im.line_number - 1, e + 1)
        }
}

/// Scanning from line `i`, some annotated block that the scan reaches never
/// balances: a type declaration that never closes, or an implementation
/// block that never closes or holds a function that does not balance.
/// Type declarations are skipped whole; every other line is visited.
pub open spec fn scan_fails(ls: Seq<Seq<char>>, i: int) -> bool
    decreases ls.len() - i,
{
    if i < 0 || i >= ls.len() {
        false
    } else if marked_type_at(ls, i) {
        if exists|e: int| struct_end(ls, i, e) {
            let e = choose|e: int| struct_end(ls, i, e);
            scan_fails(ls, e + 1)
        } else {
            true
        }
    } else if marked_impl_at(ls, i) {
        if impl_ok(ls, i) {
            scan_fails(ls, i + 1)
        } else {
            true
        }
    } else {
        scan_fails(ls, i + 1)
    }
}

/// Header lines of the type declarations the scan from line `i` parses.
pub open spec fn scan_types(ls: Seq<Seq<char>>, i: int) -> Seq<int>
    decreases ls.len() - i,
{
    if i < 0 || i >= ls.len() {
        Seq::empty()
    } else if marked_type_at(ls, i) {
        if exists|e: int| struct_end(ls, i, e) {
            let e = choose|e: int| struct_end(ls, i, e);
            seq![i] + scan_types(ls, e + 1)
        } else {
            Seq::empty()
        }
    } else {
        scan_types(ls, i + 1)
    }
}

/// Header lines of the implementation blocks the scan from line `i` parses.
pub open spec fn scan_impls(ls: Seq<Seq<char>>, i: int) -> Seq<int>
    decreases ls.len() - i,
{
    if i < 0 || i >= ls.len() {
        Seq::empty()
    } else if marked_type_at(ls, i) {
        if exists|e: int| struct_end(ls, i, e) {
            let e = choose|e: int| struct_end(ls, i, e);
            scan_impls(ls, e + 1)
        } else {
            Seq::empty()
        }
    } else if marked_impl_at(ls, i) {
        seq![i] + scan_impls(ls, i + 1)
    } else {
        scan_impls(ls, i + 1)
    }
}

pub open spec fn type_lines(ts: Seq<SorobanStruct>) -> Seq<int> {
    ts.map_values(|t: SorobanStruct| t.line_number - 1)
}

pub open spec fn impl_lines(is: Seq<SorobanImpl>) -> Seq<int> {
    is.map_values(|im: SorobanImpl| im.line_number - 1)
}

/// The source holds an annotated block that never balances.
pub open spec fn unbalanced_block(ls: Seq<Seq<char>>) -> bool {
    scan_fails(ls, 0)
}

/// Lines `a..b` joined by newlines.
fn join_lines(ls: &Vec<Vec<char>>, a: usize, b: usize) -> (r: Vec<char>)
    requires
        a < b <= ls@.len(),
    ensures
        r@ == joined(views_of(ls@), a as int, b as int),
{
    let ghost lv = views_of(ls@);
    let mut r = ls[a].clone();
    assert(lv[a as int] == ls@[a as int]@);
    let mut i: usize = a + 1;
    while i < b
        invariant
            a < i <= b <= ls@.len(),
            lv == views_of(ls@),
            r@ == joined(lv, a as int, i as int),
        decreases b - i,
    {
        let ghost old_r = r@;
        r.push('\n');
        let mut k: usize = 0;
        let line = &ls[i];
        assert(lv[i as int] == line@);
        while k < line.len()
            invariant
                k <= line@.len(),
                r@ == old_r + seq!['\n'] + line@.subrange(0, k as int),
            decreases line.len() - k,
        {
            r.push(line[k]);
            assert(r@ =~= old_r + seq!['\n'] + line@.subrange(0, k + 1));
            k += 1;
        }
        assert(line@.subrange(0, line@.len() as int) =~= line@);
        i += 1;
    }
    r
}

/// Depth and whether a block was opened, after reading one line's braces.
fn brace_update(line: &Vec<char>, depth: usize, opened: bool) -> (r: (usize, bool))
    ensures
        r.0 == line_depth(line@, depth as nat),
        r.1 == (opened || has_open_brace(line@)),
{
    let mut d = depth;
    let mut o = opened;
    let mut k: usize = 0;
    while k < line.len()
        invariant
            k <= line@.len(),
            d == line_depth(line@.subrange(0, k as int), depth as nat),
            o == (opened || exists|m: int| 0 <= m < k && line@[m] == '{'),
        decreases line.len() - k,
    {
        assert(line@.subrange(0, k + 1).drop_last() =~= line@.subrange(0, k as int));
        if line[k] == '{' {
            if d < usize::MAX {
                d = d + 1;
            }
            o = true;
        } else if line[k] == '}' {
            if d > 0 {
                d = d - 1;
            }
        }
        k += 1;
    }
    assert(line@.subrange(0, line@.len() as int) =~= line@);
    (d, o)
}

fn unterminated(what: &str) -> (r: SorobanParseError)
    ensures
        r is InvalidStructure,
{
    SorobanParseError::invalid_structure(what)
}

/// Parses the type declaration whose header is line `h`; lines are numbered
/// from `first_line`. Returns the declaration and its last line.
fn parse_struct_at(ls: &Vec<Vec<char>>, h: usize, first_line: usize) -> (r: SorobanResult<
    (SorobanStruct, usize),
>)
    requires
        h < ls@.len(),
        first_line + ls@.len() <= usize::MAX,
    ensures
        match r {
            Ok((s, end)) => {
                &&& s.name@ == struct_name(views_of(ls@)[h as int])
                &&& s.line_number == first_line + h
                &&& h <= end < ls@.len()
                &&& fields_within(views_of(ls@), h as int, end as int, first_line as int, s.fields@)
                &&& struct_fields_exact(views_of(ls@), h as int, end as int, first_line as int, s.fields@)
                &&& s.raw_definition@ == joined(views_of(ls@), h as int, end + 1)
            },
            Err(e) => e is InvalidStructure && forall|j: int|
                h <= j < ls@.len() ==> !#[trigger] struct_ends_at(views_of(ls@), h as int, j),
        },
{
    let ghost lv = views_of(ls@);
    let name = struct_name_exec(&ls[h]);
    assert(lv[h as int] == ls@[h as int]@);
    let mut fields: Vec<SorobanField> = Vec::new();
    let mut depth: usize = 0;
    let mut opened = false;
    let mut j: usize = h;
    let ghost mut srcs: Seq<int> = Seq::empty();
    while j < ls.len()
        invariant
            h <= j <= ls@.len(),
            first_line + ls@.len() <= usize::MAX,
            lv == views_of(ls@),
            name@ == struct_name(lv[h as int]),
            depth == depth_before(lv, h as int, j as int),
            opened == opened_before(lv, h as int, j as int),
            fields@.map_values(|f: SorobanField| field_view(f)) == fields_upto(
                lv,
                h as int,
                j as int,
                first_line as int,
            ),
            forall|j2: int| h <= j2 < j ==> !#[trigger] struct_ends_at(lv, h as int, j2),
            srcs.len() == fields@.len(),
            forall|k: int|
                0 <= k < fields@.len() ==> h < #[trigger] srcs[k] < j && parsed_field(
                    lv,
                    srcs[k],
                    first_line as int,
                    fields@[k],
                ),
        decreases ls.len() - j,
    {
        let line = &ls[j];
        assert(lv[j as int] == line@);
        let ghost before = fields@;
        if j > h && opened && depth == 1 {
            match field_from_line(line, first_line + j) {
                Some(f) => {
                    fields.push(f);
                    assert(fields@.map_values(|f: SorobanField| field_view(f)) =~= before.map_values(
                        |f: SorobanField| field_view(f),
                    ).push(field_view(f)));
                    proof {
                        srcs = srcs.push(j as int);
                    }
                },
                None => {},
            }
        }
        assert(fields@.map_values(|f: SorobanField| field_view(f)) == fields_upto(
            lv,
            h as int,
            j + 1,
            first_line as int,
        ));
        let (d, o) = brace_update(line, depth, opened);
        depth = d;
        opened = o;
        assert(depth == depth_before(lv, h as int, j + 1));
        assert(opened == opened_before(lv, h as int, j + 1));
        let t = trim_chars(line);
        let unit = !opened && t.len() > 0 && t[t.len() - 1] == ';';
        if (opened && depth == 0) || unit {
            let raw = join_lines(ls, h, j + 1);
            let s = SorobanStruct {
                name: string_of(&name),
                fields,
                line_number: first_line + h,
                raw_definition: string_of(&raw),
            };
            assert(s.fields@ == fields@);
            assert(struct_ends_at(lv, h as int, j as int));
            proof {
                assert forall|k: int| 0 <= k < s.fields@.len() implies h < #[trigger] s.fields@[k].line_number
                    - first_line <= j && parsed_field(
                    lv,
                    s.fields@[k].line_number - first_line,
                    first_line as int,
                    s.fields@[k],
                ) by {
                    assert(h < srcs[k] <= j);
                }
            }
            return Ok((s, j));
        }
        j += 1;
    }
    Err(unterminated("unterminated type declaration"))
}

/// The parameters declared by parameter-list entries.
fn params_from_pieces(pieces: &Vec<Vec<char>>) -> (r: Vec<SorobanParam>)
    ensures
        param_views(r@) == params_of(views_of(pieces@)),
{
    let ghost pv = views_of(pieces@);
    let mut out: Vec<SorobanParam> = Vec::new();
    let mut i: usize = 0;
    while i < pieces.len()
        invariant
            i <= pieces@.len(),
            pv == views_of(pieces@),
            param_views(out@) == params_of(pv.subrange(0, i as int)),
        decreases pieces.len() - i,
    {
        let ghost old_out = out@;
        assert(pv.subrange(0, i + 1).drop_last() =~= pv.subrange(0, i as int));
        assert(pv.subrange(0, i + 1).last() == pieces@[i as int]@);
        match param_from_piece(&pieces[i]) {
            Some(prm) => {
                out.push(prm);
                assert(param_views(out@) =~= param_views(old_out).push((prm.name@, prm.type_text@)));
            },
            None => {},
        }
        i += 1;
    }
    assert(pv.subrange(0, pieces@.len() as int) =~= pv);
    out
}

fn is_ctor_exec(name: &Vec<char>, ret: &Option<Vec<char>>) -> (r: bool)
    ensures
        r == is_ctor(
            name@,
            match ret {
                Some(v) => Some(v@),
                None => None,
            },
        ),
{
    let conventional = equals_str(name, "new") || equals_str(name, "init") || equals_str(
        name,
        "initialize",
    );
    match ret {
        Some(v) => conventional || contains_str(v, "Self"),
        None => conventional,
    }
}

/// The index at which the brace block opened at `b` closes.
fn find_block_end(t: &Vec<char>, b: usize) -> (r: Option<usize>)
    requires
        b < t@.len(),
    ensures
        match r {
            Some(e) => block_close(t@, b as int, e as int),
            None => forall|k: int| !#[trigger] closes_at(t@, b as int, k),
        },
{
    let mut depth: usize = 0;
    let mut k: usize = b;
    assert(t@.subrange(b as int, b as int) =~= Seq::<char>::empty());
    while k < t.len()
        invariant
            b <= k <= t@.len(),
            depth == line_depth(t@.subrange(b as int, k as int), 0),
            forall|k2: int| b <= k2 < k ==> !#[trigger] closes_at(t@, b as int, k2),
        decreases t.len() - k,
    {
        assert(t@.subrange(b as int, k + 1).drop_last() =~= t@.subrange(b as int, k as int));
        if t[k] == '{' {
            if depth < usize::MAX {
                depth = depth + 1;
            }
        } else if t[k] == '}' {
            if depth > 0 {
                depth = depth - 1;
            }
            if depth == 0 {
                return Some(k);
            }
        }
        k += 1;
    }
    None
}

/// Parses the function whose signature starts on line `start`; the
/// signature may span several lines. Returns the function and its last line.
fn parse_function_at(ls: &Vec<Vec<char>>, start: usize) -> (r: SorobanResult<
    Option<(SorobanFunction, usize)>,
>)
    requires
        start < ls@.len() < usize::MAX,
    ensures
        match r {
            Ok(Some((f, end))) => parsed_function(views_of(ls@), start as int, f) && start <= end
                < ls@.len() && end == fn_last_line(views_of(ls@), f),
            Ok(None) => fn_name(views_of(ls@)[start as int]).len() == 0,
            Err(e) => e is InvalidStructure && fn_name(views_of(ls@)[start as int]).len() > 0
                && !fn_balanced(views_of(ls@), start as int),
        },
{
    let ghost lv = views_of(ls@);
    assert(lv[start as int] == ls@[start as int]@);
    let name = fn_name_exec(&ls[start]);
    if name.len() == 0 {
        return Ok(None);
    }
    let t0 = trim_chars(&ls[start]);
    let visibility = if starts_with_str(&t0, "pub ") {
        FunctionVisibility::Public
    } else {
        FunctionVisibility::Private
    };
    let text = join_lines(ls, start, ls.len());
    let (p, q) = match find_group(&text) {
        Some(pq) => pq,
        None => {
            assert(!fn_balanced(lv, start as int)) by {
                assert forall|p: int, q: int, b: int, e: int| !fn_shape(text@, p, q, b, e) by {}
            }
            return Err(unterminated("unbalanced parameter list"));
        },
    };
    proof {
        lemma_between_parens(text@, p as int, q as int);
    }
    let inner = slice(&text, p + 1, q);
    let pieces = split_top_level_exec(&inner, ',');
    let params = params_from_pieces(&pieces);
    let tn = text.len();
    let mut b: usize = q + 1;
    while b < tn && text[b] != '{' && text[b] != ';'
        invariant
            q < b <= tn == text@.len(),
            forall|j: int| q < j < b ==> text@[j] != '{' && text@[j] != ';',
        decreases tn - b,
    {
        b += 1;
    }
    if b >= tn {
        assert(!fn_balanced(lv, start as int)) by {
            assert forall|p2: int, q2: int, b2: int, e2: int| !fn_shape(text@, p2, q2, b2, e2) by {
                if fn_shape(text@, p2, q2, b2, e2) {
                    if p2 < p {
                        assert(text@[p2] != '(');
                    }
                    if p < p2 {
                        assert(text@[p as int] != '(');
                    }
                    if q2 < q {
                        assert(depth_from(text@, p as int, q2 + 1) > 0);
                    }
                    if q < q2 {
                        assert(depth_from(text@, p as int, q + 1) > 0);
                    }
                    assert(text@[b2] == '{' || text@[b2] == ';');
                }
            }
        }
        return Err(unterminated("function without a body"));
    }
    assert(sig_end(text@, q as int, b as int));
    let seg = slice(&text, q + 1, b);
    let seg = trim_chars(&seg);
    let ret: Option<Vec<char>> = if starts_with_str(&seg, "->") {
        proof {
            reveal_strlit("->");
        }
        let sn = seg.len();
        let r = slice(&seg, 2, sn);
        Some(trim_chars(&r))
    } else {
        None
    };
    let e = if text[b] == ';' {
        b
    } else {
        match find_block_end(&text, b) {
            Some(e) => e,
            None => {
                assert(!fn_balanced(lv, start as int)) by {
                    assert forall|p2: int, q2: int, b2: int, e2: int|
                        !fn_shape(text@, p2, q2, b2, e2) by {
                        if fn_shape(text@, p2, q2, b2, e2) {
                            if p2 < p {
                                assert(text@[p2] != '(');
                            }
                            if p < p2 {
                                assert(text@[p as int] != '(');
                            }
                            if q2 < q {
                                assert(depth_from(text@, p as int, q2 + 1) > 0);
                            }
                            if q < q2 {
                                assert(depth_from(text@, p as int, q + 1) > 0);
                            }
                            if b2 < b {
                                assert(text@[b2] != '{' && text@[b2] != ';');
                            }
                            if b < b2 {
                                assert(text@[b as int] != '{' && text@[b as int] != ';');
                            }
                            assert(!closes_at(text@, b as int, e2));
                        }
                    }
                }
                return Err(unterminated("unterminated function body"));
            },
        }
    };
    assert(body_end(text@, b as int, e as int));
    assert(fn_shape(text@, p as int, q as int, b as int, e as int));
    let raw = slice(&text, 0, e + 1);
    let mut nl: usize = 0;
    let mut k: usize = 0;
    assert(text@[e as int] == '}' || text@[e as int] == ';');
    while k < e
        invariant
            k <= e < text@.len(),
            nl <= k,
            nl == nl_count(text@.subrange(0, k as int)),
        decreases e - k,
    {
        assert(text@.subrange(0, k + 1).drop_last() =~= text@.subrange(0, k as int));
        if text[k] == '\n' {
            nl += 1;
        }
        k += 1;
    }
    assert(raw@.drop_last() =~= text@.subrange(0, e as int));
    assert(nl_count(raw@) == nl);
    let end = if nl < ls.len() - start {
        start + nl
    } else {
        ls.len() - 1
    };
    let is_constructor = is_ctor_exec(&name, &ret);
    let return_type = match ret {
        Some(v) => Some(string_of(&v)),
        None => None,
    };
    let f = SorobanFunction {
        name: string_of(&name),
        params,
        return_type,
        visibility,
        is_constructor,
        line_number: start + 1,
        raw_definition: string_of(&raw),
    };
    assert(opt_view(f.return_type) == ret_between(text@, q as int, b as int));
    assert(f.raw_definition@ == text@.subrange(0, e + 1));
    assert(fn_shape(text@, p as int, q as int, b as int, e as int) && opt_view(f.return_type)
        == ret_between(text@, q as int, b as int) && f.raw_definition@ == text@.subrange(0, e + 1));
    Ok(Some((f, end)))
}

/// The block that starts on line `h` closes on line `j`.
pub open spec fn impl_ends_at(ls: Seq<Seq<char>>, h: int, j: int) -> bool {
    opened_before(ls, h, j + 1) && depth_before(ls, h, j + 1) == 0
}

/// Line `e` is the first line on which the block starting at `h` closes.
pub open spec fn impl_end(ls: Seq<Seq<char>>, h: int, e: int) -> bool {
    h <= e < ls.len() && impl_ends_at(ls, h, e) && forall|j: int|
        h <= j < e ==> !#[trigger] impl_ends_at(ls, h, j)
}

/// Line `j` of the block starting at `h` holds a function header at brace depth 1.
pub open spec fn fn_line(ls: Seq<Seq<char>>, h: int, j: int) -> bool {
    j > h && opened_before(ls, h, j) && depth_before(ls, h, j) == 1 && fn_name(ls[j]).len() > 0
}

/// The function header lines among lines `h..j` of the block starting at `h`.
pub open spec fn fn_lines_upto(ls: Seq<Seq<char>>, h: int, j: int) -> Seq<int>
    decreases j - h,
{
    if j <= h || j > ls.len() {
        Seq::empty()
    } else if fn_line(ls, h, j - 1) {
        fn_lines_upto(ls, h, j - 1).push(j - 1)
    } else {
        fn_lines_upto(ls, h, j - 1)
    }
}

/// The block starting at `h` closes, and every function in it up to its
/// closing line is balanced.
pub open spec fn impl_ok(ls: Seq<Seq<char>>, h: int) -> bool {
    exists|e: int|
        #[trigger] impl_end(ls, h, e) && forall|j: int|
            h < j <= e && #[trigger] fn_line(ls, h, j) ==> fn_balanced(ls, j)
}

/// `fs` are exactly the functions declared on the header lines of the block
/// starting at `h` and ending at `e`, in order.
pub open spec fn impl_functions_exact(
    ls: Seq<Seq<char>>,
    h: int,
    e: int,
    fs: Seq<SorobanFunction>,
) -> bool {
    let lines = fn_lines_upto(ls, h, e + 1);
    fs.len() == lines.len() && forall|k: int|
        0 <= k < fs.len() ==> parsed_function(ls, lines[k], #[trigger] fs[k])
}

/// Parses the implementation block whose header is line `h`: brace depth is
/// tracked over every line, and functions are taken at depth 1. Returns the
/// block and its last line; fails exactly when the block never closes or a
/// function in it does not balance.
#[verifier::rlimit(100)]
#[verifier::spinoff_prover]
fn parse_impl_at(ls: &Vec<Vec<char>>, h: usize) -> (r: SorobanResult<(SorobanImpl, usize)>)
    requires
        h < ls@.len() < usize::MAX,
    ensures
        match r {
            Ok((im, end)) => {
                &&& im.target@ == impl_target(views_of(ls@)[h as int])
                &&& im.line_number == h + 1
                &&& impl_end(views_of(ls@), h as int, end as int)
                &&& impl_ok(views_of(ls@), h as int)
                &&& impl_functions_exact(views_of(ls@), h as int, end as int, im.functions@)
                &&& im.raw_definition@ == joined(views_of(ls@), h as int, end + 1)
            },
            Err(e) => e is InvalidStructure && !impl_ok(views_of(ls@), h as int),
        },
{
    let ghost lv = views_of(ls@);
    assert(lv[h as int] == ls@[h as int]@);
    let target = impl_target_exec(&ls[h]);
    let mut functions: Vec<SorobanFunction> = Vec::new();
    let mut depth: usize = 0;
    let mut opened = false;
    let mut j: usize = h;
    while j < ls.len()
        invariant
            h <= j <= ls@.len() < usize::MAX,
            lv == views_of(ls@),
            target@ == impl_target(lv[h as int]),
            depth == depth_before(lv, h as int, j as int),
            opened == opened_before(lv, h as int, j as int),
            functions@.len() == fn_lines_upto(lv, h as int, j as int).len(),
            forall|k: int|
                0 <= k < functions@.len() ==> parsed_function(
                    lv,
                    fn_lines_upto(lv, h as int, j as int)[k],
                    #[trigger] functions@[k],
                ),
            forall|j2: int| h <= j2 < j ==> !#[trigger] impl_ends_at(lv, h as int, j2),
            forall|j2: int| h < j2 < j && #[trigger] fn_line(lv, h as int, j2) ==> fn_balanced(lv, j2),
        decreases ls.len() - j,
    {
        assert(lv[j as int] == ls@[j as int]@);
        let ghost before = functions@;
        let ghost lines = fn_lines_upto(lv, h as int, j as int);
        let fname = fn_name_exec(&ls[j]);
        if j > h && opened && depth == 1 && fname.len() > 0 {
            assert(fn_line(lv, h as int, j as int));
            match parse_function_at(ls, j) {
                Ok(Some((f, _fend))) => {
                    functions.push(f);
                    proof {
                        let nl = fn_lines_upto(lv, h as int, j + 1);
                        assert(nl == lines.push(j as int));
                        assert forall|k: int| 0 <= k < functions@.len() implies parsed_function(
                            lv,
                            nl[k],
                            #[trigger] functions@[k],
                        ) by {
                            if k < before.len() {
                                assert(functions@[k] == before[k]);
                            }
                        }
                        let text = joined(lv, j as int, lv.len() as int);
                        let (p, q, b, e) = choose|p: int, q: int, b: int, e: int|
                            #[trigger] fn_shape(text, p, q, b, e) && opt_view(f.return_type)
                                == ret_between(text, q, b) && f.raw_definition@ == text.subrange(
                                0,
                                e + 1,
                            );
                        assert(fn_shape(text, p, q, b, e));
                        assert(fn_balanced(lv, j as int));
                    }
                },
                Ok(None) => {
                    assert(false);
                },
                Err(e) => {
                    proof {
                        assert forall|e2: int| #[trigger] impl_end(lv, h as int, e2) implies !(forall|j2: int|
                            h < j2 <= e2 && #[trigger] fn_line(lv, h as int, j2) ==> fn_balanced(lv, j2)) by {
                            if e2 < j {
                                assert(!impl_ends_at(lv, h as int, e2));
                            }
                            assert(fn_line(lv, h as int, j as int) && !fn_balanced(lv, j as int));
                        }
                    }
                    return Err(e);
                },
            }
        } else {
            assert(!fn_line(lv, h as int, j as int));
            assert(fn_lines_upto(lv, h as int, j + 1) == lines);
        }
        let (d, o) = brace_update(&ls[j], depth, opened);
        depth = d;
        opened = o;
        assert(depth == depth_before(lv, h as int, j + 1));
        assert(opened == opened_before(lv, h as int, j + 1));
        if opened && depth == 0 {
            assert(impl_end(lv, h as int, j as int));
            let raw = join_lines(ls, h, j + 1);
            let im = SorobanImpl {
                target: string_of(&target),
                functions,
                line_number: h + 1,
                raw_definition: string_of(&raw),
            };
            assert(im.functions@ == functions@);
            assert(impl_ok(lv, h as int));
            return Ok((im, j));
        }
        j += 1;
    }
    proof {
        assert forall|e2: int| !#[trigger] impl_end(lv, h as int, e2) by {}
    }
    Err(unterminated("unterminated implementation block"))
}

/// Registering the declaration parsed at line `i`, which ends at `end`,
/// keeps both completeness facts up to `end + 1`.
proof fn lemma_type_pushed(
    lv: Seq<Seq<char>>,
    old: Seq<SorobanStruct>,
    st: SorobanStruct,
    is: Seq<SorobanImpl>,
    i: int,
    end: int,
)
    requires
        st.line_number == i + 1,
        i <= end,
        struct_end(lv, i, end),
        types_complete(lv, old, i),
        impls_complete(lv, old, is, i),
    ensures
        types_complete(lv, old.push(st), end + 1),
        impls_complete(lv, old.push(st), is, end + 1),
{
    let ts = old.push(st);
    let n = ts.len() - 1;
    assert(ts[n] == st);
    assert forall|h: int| 0 <= h < end + 1 && #[trigger] marked_type_at(lv, h) implies exists|k: int|
        0 <= k < ts.len() && #[trigger] covers(lv, ts[k], h) by {
        if h < i {
            let k = choose|k: int| 0 <= k < old.len() && #[trigger] covers(lv, old[k], h);
            assert(ts[k] == old[k]);
            assert(covers(lv, ts[k], h));
        } else {
            assert(covers(lv, ts[n], h));
        }
    }
    assert forall|h: int| 0 <= h < end + 1 && #[trigger] marked_impl_at(lv, h) implies (exists|k: int|
        0 <= k < is.len() && (#[trigger] is[k]).line_number == h + 1) || (exists|k: int|
        0 <= k < ts.len() && #[trigger] covers(lv, ts[k], h)) by {
        if h < i {
            if exists|k: int| 0 <= k < old.len() && #[trigger] covers(lv, old[k], h) {
                let k = choose|k: int| 0 <= k < old.len() && #[trigger] covers(lv, old[k], h);
                assert(ts[k] == old[k]);
                assert(covers(lv, ts[k], h));
            }
        } else {
            assert(covers(lv, ts[n], h));
        }
    }
}

/// Registering the block parsed at line `i`, which is no type
/// declaration, keeps both completeness facts up to `i + 1`.
proof fn lemma_impl_pushed(
    lv: Seq<Seq<char>>,
    ts: Seq<SorobanStruct>,
    old: Seq<SorobanImpl>,
    im: SorobanImpl,
    i: int,
)
    requires
        im.line_number == i + 1,
        !marked_type_at(lv, i),
        types_complete(lv, ts, i),
        impls_complete(lv, ts, old, i),
    ensures
        types_complete(lv, ts, i + 1),
        impls_complete(lv, ts, old.push(im), i + 1),
{
    let is = old.push(im);
    let n = is.len() - 1;
    assert(is[n] == im);
    assert forall|h: int| 0 <= h < i + 1 && #[trigger] marked_impl_at(lv, h) implies (exists|k: int|
        0 <= k < is.len() && (#[trigger] is[k]).line_number == h + 1) || (exists|k: int|
        0 <= k < ts.len() && #[trigger] covers(lv, ts[k], h)) by {
        if h < i {
            if exists|k: int| 0 <= k < old.len() && (#[trigger] old[k]).line_number == h + 1 {
                let k = choose|k: int| 0 <= k < old.len() && (#[trigger] old[k]).line_number == h + 1;
                assert(is[k] == old[k]);
            }
        } else {
            assert(is[n].line_number == h + 1);
        }
    }
    assert forall|h: int| 0 <= h < i + 1 && #[trigger] marked_type_at(lv, h) implies exists|k: int|
        0 <= k < ts.len() && #[trigger] covers(lv, ts[k], h) by {
        assert(h != i);
    }
}

/// The structural parser.
pub struct SorobanParser;

impl SorobanParser {
    /// Parses a whole contract. Fails with `MissingMacro` exactly when no
    /// annotated type declaration exists (the contract would have no name),
    /// and otherwise only with `InvalidStructure`, when an annotated block
    /// never closes. On success the first annotated type names the contract,
    /// every annotated type and implementation block is parsed (or lies
    /// inside a parsed declaration), and each declaration's fields are
    /// exactly its field lines at brace depth 1.
    #[verifier::rlimit(50)]
    #[verifier::spinoff_prover]
    pub fn parse_contract(source: &str, file_path: &str) -> (r: SorobanResult<SorobanContract>)
        requires
            source@.len() + 2 < usize::MAX,
        ensures
            (r is Err && r->Err_0 is MissingMacro) <==> !has_marked_type(lines_of(source@)),
            r is Err ==> (r->Err_0 is MissingMacro || r->Err_0 is InvalidStructure),
            r is Ok ==> contract_shape(lines_of(source@), r->Ok_0, source@, file_path@),
            (r is Err && r->Err_0 is InvalidStructure) <==> (has_marked_type(lines_of(source@))
                && unbalanced_block(lines_of(source@))),
            r is Ok <==> (has_marked_type(lines_of(source@)) && !unbalanced_block(
                lines_of(source@),
            )),
            r is Err && r->Err_0 is MissingMacro ==> r->Err_0->MissingMacro_0@
                == "could not determine contract name: no #[contracttype] or #[contract] type declaration"@,
    {
        let chars = chars_of(source);
        let ls = split_lines(&chars);
        let ghost lv = views_of(ls@);
        let first = match find_first_marked_type(&ls) {
            Some(h) => h,
            None => {
                return Err(
                    SorobanParseError::missing_macro(
                        "could not determine contract name: no #[contracttype] or #[contract] type declaration",
                    ),
                );
            },
        };
        assert(lv[first as int] == ls@[first as int]@);
        let name = struct_name_exec(&ls[first]);
        let mut types: Vec<SorobanStruct> = Vec::new();
        let mut impls: Vec<SorobanImpl> = Vec::new();
        let mut i: usize = 0;
        while i < ls.len()
            invariant
                i <= ls@.len() < usize::MAX,
                lv == views_of(ls@),
                lv == lines_of(source@),
                first_marked_type(lv, first as int),
                name@ == struct_name(lv[first as int]),
                i <= first ==> types@.len() == 0,
                types_complete(lv, types@, i as int),
                impls_complete(lv, types@, impls@, i as int),
                i > first ==> types@.len() >= 1 && types@[0].line_number == first + 1,
                forall|k: int| 0 <= k < types@.len() ==> (#[trigger] types@[k]).line_number <= i,
                forall|a: int, b: int|
                    0 <= a < b < types@.len() ==> (#[trigger] types@[a]).line_number
                        < (#[trigger] types@[b]).line_number,
                forall|k: int|
                    0 <= k < types@.len() ==> {
                        let t = #[trigger] types@[k];
                        &&& marked_type_at(lv, t.line_number - 1)
                        &&& t.name@ == struct_name(lv[t.line_number - 1])
                        &&& fields_within(lv, t.line_number - 1, lv.len() - 1, 1, t.fields@)
                        &&& exists|e: int| #[trigger] struct_fields_exact(lv, t.line_number - 1, e, 1, t.fields@)
                            && t.raw_definition@ == joined(lv, t.line_number - 1, e + 1)
                    },
                forall|k: int|
                    0 <= k < impls@.len() ==> {
                        let im = #[trigger] impls@[k];
                        &&& marked_impl_at(lv, im.line_number - 1)
                        &&& im.target@ == impl_target(lv[im.line_number - 1])
                        &&& exists|e: int|
                            #[trigger] impl_end(lv, im.line_number - 1, e) && impl_functions_exact(
                                lv,
                                im.line_number - 1,
                                e,
                                im.functions@,
                            ) && im.raw_definition@ == joined(lv, im.line_number - 1, e + 1)
                    },
                scan_fails(lv, i as int) == scan_fails(lv, 0),
                type_lines(types@) + scan_types(lv, i as int) == scan_types(lv, 0),
                impl_lines(impls@) + scan_impls(lv, i as int) == scan_impls(lv, 0),
            decreases ls.len() - i,
        {
            assert(lv[i as int] == ls@[i as int]@);
            let sn = struct_name_exec(&ls[i]);
            if sn.len() > 0 && marker_above(&ls, i, false) {
                assert(marked_type_at(lv, i as int));
                match parse_struct_at(&ls, i, 1) {
                    Ok((st, end)) => {
                        assert(struct_fields_exact(lv, i as int, end as int, 1, st.fields@)
                            && st.raw_definition@ == joined(lv, i as int, end + 1));
                        let ghost old = types@;
                        types.push(st);
                        proof {
                            lemma_type_pushed(lv, old, st, impls@, i as int, end as int);
                            let e = choose|e: int| struct_end(lv, i as int, e);
                            if e < end {
                                assert(!struct_ends_at(lv, i as int, e));
                            }
                            if end < e {
                                assert(!struct_ends_at(lv, i as int, end as int));
                            }
                            assert(scan_fails(lv, i as int) == scan_fails(lv, end + 1));
                            assert(scan_types(lv, i as int) == seq![i as int] + scan_types(lv, end + 1));
                            assert(scan_impls(lv, i as int) == scan_impls(lv, end + 1));
                            assert(type_lines(types@) =~= type_lines(old).push(i as int));
                            assert(type_lines(types@) + scan_types(lv, end + 1) =~= type_lines(old)
                                + scan_types(lv, i as int));
                        }
                        i = end + 1;
                        continue ;
                    },
                    Err(e) => {
                        assert(!(exists|e2: int| struct_end(lv, i as int, e2)));
                        assert(scan_fails(lv, i as int));
                        return Err(e);
                    },
                }
            }
            let it = impl_target_exec(&ls[i]);
            if it.len() > 0 && marker_above(&ls, i, true) {
                match parse_impl_at(&ls, i) {
                    Ok((im, end)) => {
                        assert(impl_end(lv, i as int, end as int) && impl_functions_exact(
                            lv,
                            i as int,
                            end as int,
                            im.functions@,
                        ) && im.raw_definition@ == joined(lv, i as int, end + 1));
                        assert(scan_fails(lv, i as int) == scan_fails(lv, i + 1));
                        let ghost old = impls@;
                        impls.push(im);
                        proof {
                            assert(scan_types(lv, i as int) == scan_types(lv, i + 1));
                            assert(scan_impls(lv, i as int) == seq![i as int] + scan_impls(lv, i + 1));
                            assert(impl_lines(impls@) =~= impl_lines(old).push(i as int));
                            assert(impl_lines(impls@) + scan_impls(lv, i + 1) =~= impl_lines(old)
                                + scan_impls(lv, i as int));
                            lemma_impl_pushed(lv, types@, old, im, i as int);
                        }
                        // The block's own lines are scanned as well, so no block can
                        // hide an annotated type declaration.
                        i += 1;
                        continue ;
                    },
                    Err(e) => {
                        assert(scan_fails(lv, i as int));
                        return Err(e);
                    },
                }
            }
            assert(scan_fails(lv, i as int) == scan_fails(lv, i + 1));
            assert(scan_types(lv, i as int) == scan_types(lv, i + 1));
            assert(scan_impls(lv, i as int) == scan_impls(lv, i + 1));
            i += 1;
        }
        assert(!scan_fails(lv, i as int));
        assert(type_lines(types@) =~= type_lines(types@) + scan_types(lv, i as int));
        assert(impl_lines(impls@) =~= impl_lines(impls@) + scan_impls(lv, i as int));
        let src = chars_of(source);
        let label = chars_of(file_path);
        let c = SorobanContract {
            name: string_of(&name),
            contract_types: types,
            implementations: impls,
            source: string_of(&src),
            file_path: string_of(&label),
        };
        assert(c.contract_types@ == types@);
        assert(types@.len() >= 1);
        assert(first_marked_type(lv, c.contract_types@[0].line_number - 1));
        assert(c.implementations@ == impls@);
        proof {
            assert forall|h: int| first_marked_type(lv, h) implies c.name@ == struct_name(lv[h]) by {
                if h < first {
                    assert(!marked_type_at(lv, h));
                }
                if first < h {
                    assert(!marked_type_at(lv, first as int));
                }
            }
        }
        Ok(c)
    }

    /// Parses the type declaration that starts at the first line of `lines`
    /// that is not blank, a comment or an attribute; `line_number` is the
    /// number of `lines[0]`. `None` when that line is no `struct` header.
    pub fn parse_single_struct(&self, lines: &[&str], line_number: usize) -> (r: SorobanResult<
        Option<SorobanStruct>,
    >)
        requires
            line_number + lines@.len() <= usize::MAX,
        ensures
            match r {
                Ok(Some(s)) => {
                    let h = s.line_number - line_number;
                    &&& first_significant(str_views(lines@), h)
                    &&& s.name@ == struct_name(str_views(lines@)[h])
                    &&& s.name@.len() > 0
                    &&& fields_within(
                        str_views(lines@),
                        h,
                        lines@.len() - 1,
                        line_number as int,
                        s.fields@,
                    )
                    &&& exists|e: int|
                        #[trigger] struct_fields_exact(str_views(lines@), h, e, line_number as int, s.fields@)
                },
                Ok(None) => forall|h: int|
                    first_significant(str_views(lines@), h) ==> struct_name(
                        str_views(lines@)[h],
                    ).len() == 0,
                Err(e) => e is InvalidStructure && exists|h: int|
                    #[trigger] first_significant(str_views(lines@), h) && struct_name(
                        str_views(lines@)[h],
                    ).len() > 0 && forall|j: int|
                        h <= j < lines@.len() ==> !#[trigger] struct_ends_at(
                            str_views(lines@),
                            h,
                            j,
                        ),
            },
    {
        let ls = lines_to_vecs(lines);
        let ghost lv = views_of(ls@);
        assert(lv.len() == str_views(lines@).len());
        let mut h: usize = 0;
        while h < ls.len() && is_skippable_exec(&ls[h])
            invariant
                h <= ls@.len(),
                lv == views_of(ls@),
                forall|j: int| 0 <= j < h ==> is_skippable(lv[j]),
            decreases ls.len() - h,
        {
            assert(lv[h as int] == ls@[h as int]@);
            h += 1;
        }
        if h >= ls.len() {
            return Ok(None);
        }
        assert(lv[h as int] == ls@[h as int]@);
        assert(first_significant(lv, h as int));
        let sn = struct_name_exec(&ls[h]);
        if sn.len() == 0 {
            return Ok(None);
        }
        match parse_struct_at(&ls, h, line_number) {
            Ok((st, end)) => {
                assert(struct_fields_exact(lv, h as int, end as int, line_number as int, st.fields@));
                Ok(Some(st))
            },
            Err(e) => {
                assert(first_significant(lv, h as int));
                Err(e)
            },
        }
    }

    /// Parses the function whose signature starts at `lines[start]`; `None`
    /// when that line is no `fn` header or lies past the end.
    pub fn parse_function(&self, lines: &[&str], start: usize) -> (r: SorobanResult<
        Option<SorobanFunction>,
    >)
        requires
            lines@.len() < usize::MAX,
        ensures
            match r {
                Ok(Some(f)) => parsed_function(str_views(lines@), start as int, f),
                Ok(None) => start >= lines@.len() || fn_name(str_views(lines@)[start as int]).len()
                    == 0,
                Err(e) => e is InvalidStructure && start < lines@.len() && fn_name(
                    str_views(lines@)[start as int],
                ).len() > 0 && !fn_balanced(str_views(lines@), start as int),
            },
    {
        let ls = lines_to_vecs(lines);
        assert(views_of(ls@).len() == str_views(lines@).len());
        if start >= ls.len() {
            return Ok(None);
        }
        match parse_function_at(&ls, start) {
            Ok(Some((f, _end))) => Ok(Some(f)),
            Ok(None) => Ok(None),
            Err(e) => Err(e),
        }
    }

    /// Parses one field line: a leading `pub ` makes it public, the text
    /// before the first colon is its name and the rest, without a trailing
    /// comma, its raw type. Lines of another shape give `None`.
    pub fn parse_field(&self, line: &str, line_number: usize) -> (r: SorobanResult<
        Option<SorobanField>,
    >)
        ensures
            match r {
                Ok(Some(f)) => field_of(line@) == Some((f.name@, f.type_text@, f.visibility))
                    && f.line_number == line_number,
                Ok(None) => field_of(line@) is None,
                Err(_) => false,
            },
    {
        let l = chars_of(line);
        Ok(field_from_line(&l, line_number))
    }

    /// The text between the first `(` and the bracket that balances it,
    /// counting all bracket kinds; `None` when there is no `(` or the group
    /// never closes.
    pub fn extract_between_parentheses(&self, text: &str) -> (r: Option<String>)
        ensures
            opt_view(r) == between_parens(text@),
    {
        let t = chars_of(text);
        match find_group(&t) {
            Some((p, q)) => {
                proof {
                    lemma_between_parens(t@, p as int, q as int);
                }
                let inner = slice(&t, p + 1, q);
                Some(string_of(&inner))
            },
            None => {
                assert(!(exists|p: int, q: int| first_open(t@, p) && group_close(t@, p, q)));
                None
            },
        }
    }

    /// Splits `text` at each `delimiter` that stands outside every bracket
    /// group; the pieces are trimmed and empty ones dropped.
    pub fn split_preserving_parentheses(&self, text: &str, delimiter: char) -> (r: Vec<String>)
        ensures
            string_views(r@) == split_top_level(text@, delimiter),
    {
        let t = chars_of(text);
        let pieces = split_top_level_exec(&t, delimiter);
        let mut out: Vec<String> = Vec::new();
        let mut i: usize = 0;
        while i < pieces.len()
            invariant
                i <= pieces@.len(),
                string_views(out@) == views_of(pieces@).subrange(0, i as int),
            decreases pieces.len() - i,
        {
            let ghost old = out@;
            let piece = string_of(&pieces[i]);
            out.push(piece);
            assert(string_views(out@) =~= string_views(old).push(piece@));
            assert(views_of(pieces@)[i as int] == pieces@[i as int]@);
            assert(string_views(out@) =~= views_of(pieces@).subrange(0, i + 1));
            i += 1;
        }
        assert(views_of(pieces@).subrange(0, pieces@.len() as int) =~= views_of(pieces@));
        out
    }
}

} // verus!
