//! The rule catalog. Each rule is a self-contained textual check over a
//! parsed contract; its output is fixed by a spec function of the contract.
use vstd::prelude::*;
use crate::model::{
    RuleViolation, SorobanContract, SorobanField, SorobanFunction, SorobanImpl, SorobanParam,
    SorobanStruct, ViolationSeverity, ViolationView, views,
};
use crate::text::{
    first_match, chars_of, concat3, contains, contains_str, equals_str, find_from, is_ident_char,
    matches_at, matches_at_exec, starts_with, starts_with_str, string_of, word_at,
};

verus! {

// ---------------------------------------------------------------------------
// Flattening the contract
// ---------------------------------------------------------------------------

/// All fields of all types, in source order.
pub open spec fn all_fields(types: Seq<SorobanStruct>) -> Seq<SorobanField>
    decreases types.len(),
{
    if types.len() == 0 {
        Seq::empty()
    } else {
        all_fields(types.drop_last()) + types.last().fields@
    }
}

/// All functions of all implementation blocks, in source order.
pub open spec fn all_functions(impls: Seq<SorobanImpl>) -> Seq<SorobanFunction>
    decreases impls.len(),
{
    if impls.len() == 0 {
        Seq::empty()
    } else {
        all_functions(impls.drop_last()) + impls.last().functions@
    }
}

/// All parameters of the given functions, each with its function.
pub open spec fn all_params(fs: Seq<SorobanFunction>) -> Seq<(SorobanParam, SorobanFunction)>
    decreases fs.len(),
{
    if fs.len() == 0 {
        Seq::empty()
    } else {
        all_params(fs.drop_last()) + fs.last().params@.map_values(
            |p: SorobanParam| (p, fs.last()),
        )
    }
}

pub open spec fn field_at(c: SorobanContract, r: (usize, usize)) -> SorobanField {
    c.contract_types@[r.0 as int].fields@[r.1 as int]
}

pub open spec fn function_at(c: SorobanContract, r: (usize, usize)) -> SorobanFunction {
    c.implementations@[r.0 as int].functions@[r.1 as int]
}

pub open spec fn valid_field_ref(c: SorobanContract, r: (usize, usize)) -> bool {
    r.0 < c.contract_types@.len() && r.1 < c.contract_types@[r.0 as int].fields@.len()
}

pub open spec fn valid_function_ref(c: SorobanContract, r: (usize, usize)) -> bool {
    r.0 < c.implementations@.len() && r.1 < c.implementations@[r.0 as int].functions@.len()
}

/// Positions of all fields, in the order of `all_fields`.
fn field_refs(c: &SorobanContract) -> (r: Vec<(usize, usize)>)
    ensures
        forall|m: int| 0 <= m < r@.len() ==> valid_field_ref(*c, #[trigger] r@[m]),
        r@.map_values(|x: (usize, usize)| field_at(*c, x)) == all_fields(c.contract_types@),
{
    let ghost ts = c.contract_types@;
    let mut out: Vec<(usize, usize)> = Vec::new();
    let mut k: usize = 0;
    while k < c.contract_types.len()
        invariant
            k <= ts.len(),
            ts == c.contract_types@,
            forall|m: int| 0 <= m < out@.len() ==> valid_field_ref(*c, #[trigger] out@[m]),
            out@.map_values(|x: (usize, usize)| field_at(*c, x)) == all_fields(
                ts.subrange(0, k as int),
            ),
        decreases ts.len() - k,
    {
        let fs = &c.contract_types[k].fields;
        let ghost before = out@.map_values(|x: (usize, usize)| field_at(*c, x));
        let mut j: usize = 0;
        while j < fs.len()
            invariant
                k < ts.len(),
                ts == c.contract_types@,
                fs@ == ts[k as int].fields@,
                j <= fs@.len(),
                forall|m: int| 0 <= m < out@.len() ==> valid_field_ref(*c, #[trigger] out@[m]),
                out@.map_values(|x: (usize, usize)| field_at(*c, x)) == before + fs@.subrange(
                    0,
                    j as int,
                ),
            decreases fs.len() - j,
        {
            let ghost old = out@;
            out.push((k, j));
            assert(field_at(*c, (k, j)) == fs@[j as int]);
            assert(out@.map_values(|x: (usize, usize)| field_at(*c, x)) =~= old.map_values(
                |x: (usize, usize)| field_at(*c, x),
            ).push(fs@[j as int]));
            assert(out@.map_values(|x: (usize, usize)| field_at(*c, x)) =~= before + fs@.subrange(
                0,
                j + 1,
            ));
            j += 1;
        }
        assert(ts.subrange(0, k + 1).drop_last() =~= ts.subrange(0, k as int));
        assert(fs@.subrange(0, fs@.len() as int) =~= fs@);
        k += 1;
    }
    assert(ts.subrange(0, ts.len() as int) =~= ts);
    out
}

/// Positions of all functions, in the order of `all_functions`.
fn function_refs(c: &SorobanContract) -> (r: Vec<(usize, usize)>)
    ensures
        forall|m: int| 0 <= m < r@.len() ==> valid_function_ref(*c, #[trigger] r@[m]),
        r@.map_values(|x: (usize, usize)| function_at(*c, x)) == all_functions(
            c.implementations@,
        ),
{
    let ghost ts = c.implementations@;
    let mut out: Vec<(usize, usize)> = Vec::new();
    let mut k: usize = 0;
    while k < c.implementations.len()
        invariant
            k <= ts.len(),
            ts == c.implementations@,
            forall|m: int| 0 <= m < out@.len() ==> valid_function_ref(*c, #[trigger] out@[m]),
            out@.map_values(|x: (usize, usize)| function_at(*c, x)) == all_functions(
                ts.subrange(0, k as int),
            ),
        decreases ts.len() - k,
    {
        let fs = &c.implementations[k].functions;
        let ghost before = out@.map_values(|x: (usize, usize)| function_at(*c, x));
        let mut j: usize = 0;
        while j < fs.len()
            invariant
                k < ts.len(),
                ts == c.implementations@,
                fs@ == ts[k as int].functions@,
                j <= fs@.len(),
                forall|m: int| 0 <= m < out@.len() ==> valid_function_ref(*c, #[trigger] out@[m]),
                out@.map_values(|x: (usize, usize)| function_at(*c, x)) == before + fs@.subrange(
                    0,
                    j as int,
                ),
            decreases fs.len() - j,
        {
            let ghost old = out@;
            out.push((k, j));
            assert(function_at(*c, (k, j)) == fs@[j as int]);
            assert(out@.map_values(|x: (usize, usize)| function_at(*c, x)) =~= old.map_values(
                |x: (usize, usize)| function_at(*c, x),
            ).push(fs@[j as int]));
            assert(out@.map_values(|x: (usize, usize)| function_at(*c, x)) =~= before
                + fs@.subrange(0, j + 1));
            j += 1;
        }
        assert(ts.subrange(0, k + 1).drop_last() =~= ts.subrange(0, k as int));
        assert(fs@.subrange(0, fs@.len() as int) =~= fs@);
        k += 1;
    }
    assert(ts.subrange(0, ts.len() as int) =~= ts);
    out
}

// ---------------------------------------------------------------------------
// Building violations
// ---------------------------------------------------------------------------

pub open spec fn vview(
    rule: Seq<char>,
    description: Seq<char>,
    severity: ViolationSeverity,
    line: usize,
    variable: Seq<char>,
    suggestion: Seq<char>,
) -> ViolationView {
    ViolationView {
        rule_name: rule,
        description,
        severity,
        line_number: line,
        column_number: 1,
        variable_name: variable,
        suggestion,
    }
}

fn make_violation(
    rule: &str,
    description: Vec<char>,
    severity: ViolationSeverity,
    line: usize,
    variable: &Vec<char>,
    suggestion: &str,
) -> (r: RuleViolation)
    ensures
        r@ == vview(rule@, description@, severity, line, variable@, suggestion@),
{
    let rv = chars_of(rule);
    let sv = chars_of(suggestion);
    RuleViolation {
        rule_name: string_of(&rv),
        description: string_of(&description),
        severity,
        line_number: line,
        column_number: 1,
        variable_name: string_of(variable),
        suggestion: string_of(&sv),
    }
}

// ---------------------------------------------------------------------------
// Field usage
// ---------------------------------------------------------------------------

/// Only spaces or tabs stand between the start of the line and index `i`.
pub open spec fn blank_before(t: Seq<char>, i: int) -> bool
    decreases i,
{
    if i <= 0 || i > t.len() {
        i <= 0
    } else if t[i - 1] == '\n' {
        true
    } else if t[i - 1] == ' ' || t[i - 1] == '\t' {
        blank_before(t, i - 1)
    } else {
        false
    }
}

/// `self.<name>`, not continued by an identifier character, starts at `i`.
pub open spec fn self_use_at(t: Seq<char>, i: int, name: Seq<char>) -> bool {
    word_at(t, i, "self."@ + name)
}

/// `name` stands alone at the start of a line, followed by a comma or the
/// line end: a shorthand initializer key.
pub open spec fn shorthand_at(t: Seq<char>, i: int, name: Seq<char>) -> bool {
    &&& matches_at(t, i, name)
    &&& blank_before(t, i)
    &&& (i + name.len() == t.len() || t[i + name.len()] == ',' || t[i + name.len()] == '\n'
        || t[i + name.len()] == '\r')
}

/// The text probably accesses the field `name`.
pub open spec fn uses_field(t: Seq<char>, name: Seq<char>) -> bool {
    exists|i: int| self_use_at(t, i, name) || shorthand_at(t, i, name)
}

/// Some function's text probably accesses the field `name`.
pub open spec fn used_by(fns: Seq<SorobanFunction>, name: Seq<char>) -> bool {
    exists|j: int| 0 <= j < fns.len() && uses_field(#[trigger] fns[j].raw_definition@, name)
}

fn blank_before_exec(t: &Vec<char>, i: usize) -> (r: bool)
    requires
        i <= t@.len(),
    ensures
        r == blank_before(t@, i as int),
{
    let mut k: usize = i;
    while k > 0
        invariant
            k <= i <= t@.len(),
            blank_before(t@, i as int) == blank_before(t@, k as int),
        decreases k,
    {
        let c = t[k - 1];
        if c == '\n' {
            return true;
        }
        if c != ' ' && c != '\t' {
            return false;
        }
        k -= 1;
    }
    true
}

fn word_at_exec(t: &Vec<char>, i: usize, w: &Vec<char>) -> (r: bool)
    ensures
        r == word_at(t@, i as int, w@),
{
    if !matches_at_exec(t, i, w) {
        return false;
    }
    let tn = t.len();
    let e = i + w.len();
    e == tn || !is_ident_char(t[e])
}

fn use_at_exec(t: &Vec<char>, i: usize, pat: &Vec<char>, name: &Vec<char>) -> (r: bool)
    requires
        pat@ == "self."@ + name@,
        i <= t@.len(),
    ensures
        r == (self_use_at(t@, i as int, name@) || shorthand_at(t@, i as int, name@)),
{
    if word_at_exec(t, i, pat) {
        return true;
    }
    if matches_at_exec(t, i, name) && blank_before_exec(t, i) {
        let tn = t.len();
        let e = i + name.len();
        e == tn || t[e] == ',' || t[e] == '\n' || t[e] == '\r'
    } else {
        false
    }
}

fn uses_field_exec(t: &Vec<char>, name: &Vec<char>) -> (r: bool)
    ensures
        r == uses_field(t@, name@),
{
    let pat = concat3("self.", name, "");
    assert(pat@ == "self."@ + name@) by {
        reveal_strlit("");
        assert("self."@ + name@ + ""@ =~= "self."@ + name@);
    }
    let mut i: usize = 0;
    while i < t.len()
        invariant
            i <= t@.len(),
            pat@ == "self."@ + name@,
            forall|j: int|
                0 <= j < i ==> !(self_use_at(t@, j, name@) || shorthand_at(t@, j, name@)),
        decreases t.len() - i,
    {
        if use_at_exec(t, i, &pat, name) {
            return true;
        }
        i += 1;
    }
    if use_at_exec(t, i, &pat, name) {
        return true;
    }
    assert forall|j: int| !(self_use_at(t@, j, name@) || shorthand_at(t@, j, name@)) by {
        if j > t@.len() {
            assert(!matches_at(t@, j, name@));
            assert(!matches_at(t@, j, "self."@ + name@));
        }
    }
    false
}

// ---------------------------------------------------------------------------
// Unused fields
// ---------------------------------------------------------------------------

pub open spec fn unused_view(f: SorobanField, rule: Seq<char>, severity: ViolationSeverity) -> ViolationView {
    vview(
        rule,
        "State variable '"@ + f.name@ + "' is declared but never used"@,
        severity,
        f.line_number,
        f.name@,
        "Remove the unused field; every stored field costs ledger rent"@,
    )
}

/// One violation per field that no function probably accesses, in field order.
pub open spec fn unused_out(
    fs: Seq<SorobanField>,
    fns: Seq<SorobanFunction>,
    rule: Seq<char>,
    severity: ViolationSeverity,
) -> Seq<ViolationView>
    decreases fs.len(),
{
    if fs.len() == 0 {
        Seq::empty()
    } else if !used_by(fns, fs.last().name@) {
        unused_out(fs.drop_last(), fns, rule, severity).push(unused_view(fs.last(), rule, severity))
    } else {
        unused_out(fs.drop_last(), fns, rule, severity)
    }
}

/// Whether some function of the contract probably accesses `name`.
fn field_used(c: &SorobanContract, frefs: &Vec<(usize, usize)>, name: &Vec<char>) -> (r: bool)
    requires
        forall|m: int| 0 <= m < frefs@.len() ==> valid_function_ref(*c, #[trigger] frefs@[m]),
    ensures
        r == used_by(frefs@.map_values(|x: (usize, usize)| function_at(*c, x)), name@),
{
    let ghost fns = frefs@.map_values(|x: (usize, usize)| function_at(*c, x));
    let mut m: usize = 0;
    while m < frefs.len()
        invariant
            m <= frefs@.len(),
            fns == frefs@.map_values(|x: (usize, usize)| function_at(*c, x)),
            forall|m2: int| 0 <= m2 < frefs@.len() ==> valid_function_ref(*c, #[trigger] frefs@[m2]),
            forall|j: int| 0 <= j < m ==> !uses_field(#[trigger] fns[j].raw_definition@, name@),
        decreases frefs.len() - m,
    {
        let (k, j) = frefs[m];
        assert(valid_function_ref(*c, frefs@[m as int]));
        let raw = chars_of(c.implementations[k].functions[j].raw_definition.as_str());
        assert(fns[m as int] == function_at(*c, frefs@[m as int]));
        if uses_field_exec(&raw, name) {
            return true;
        }
        m += 1;
    }
    false
}

/// The violations the unused-field check reports for `c` under `rule`.
pub fn unused_fields(c: &SorobanContract, rule: &str, severity: ViolationSeverity) -> (r: Vec<
    RuleViolation,
>)
    ensures
        views(r@) == unused_out(
            all_fields(c.contract_types@),
            all_functions(c.implementations@),
            rule@,
            severity,
        ),
{
    let refs = field_refs(c);
    let frefs = function_refs(c);
    let ghost fs = refs@.map_values(|x: (usize, usize)| field_at(*c, x));
    let ghost fns = frefs@.map_values(|x: (usize, usize)| function_at(*c, x));
    let mut out: Vec<RuleViolation> = Vec::new();
    let mut m: usize = 0;
    while m < refs.len()
        invariant
            m <= refs@.len(),
            fs == refs@.map_values(|x: (usize, usize)| field_at(*c, x)),
            fns == frefs@.map_values(|x: (usize, usize)| function_at(*c, x)),
            forall|m2: int| 0 <= m2 < refs@.len() ==> valid_field_ref(*c, #[trigger] refs@[m2]),
            forall|m2: int| 0 <= m2 < frefs@.len() ==> valid_function_ref(*c, #[trigger] frefs@[m2]),
            views(out@) == unused_out(fs.subrange(0, m as int), fns, rule@, severity),
        decreases refs.len() - m,
    {
        let (k, j) = refs[m];
        assert(valid_field_ref(*c, refs@[m as int]));
        let f = &c.contract_types[k].fields[j];
        assert(fs[m as int] == *f);
        assert(fs.subrange(0, m + 1).drop_last() =~= fs.subrange(0, m as int));
        assert(fs.subrange(0, m + 1).last() == *f);
        let name = chars_of(f.name.as_str());
        if !field_used(c, &frefs, &name) {
            let desc = concat3("State variable '", &name, "' is declared but never used");
            let v = make_violation(
                rule,
                desc,
                severity,
                f.line_number,
                &name,
                "Remove the unused field; every stored field costs ledger rent",
            );
            let ghost old = out@;
            out.push(v);
            assert(views(out@) =~= views(old).push(v@));
        }
        m += 1;
    }
    assert(fs.subrange(0, refs@.len() as int) =~= fs);
    out
}

// ---------------------------------------------------------------------------
// Type, parameter and function checks
// ---------------------------------------------------------------------------

/// A check on a declared type or parameter.
#[derive(Debug, Clone, Copy, PartialEq, Eq)]
pub enum DeclCheck {
    /// A 128-bit integer where a narrower one usually serves.
    WideInteger,
    /// An owned growable string where a small symbol usually serves.
    OwnedString,
    /// A collection parameter iterated without a length cap.
    UnboundedLoop,
}

/// A check on a whole function text.
#[derive(Debug, Clone, Copy, PartialEq, Eq)]
pub enum BodyCheck {
    /// Heap-allocating string construction.
    Allocation,
    /// The same storage lookup written out more than once.
    RepeatedStorage,
}

pub open spec fn type_flagged(check: DeclCheck, ty: Seq<char>) -> bool {
    match check {
        DeclCheck::WideInteger => ty == "u128"@ || ty == "i128"@,
        DeclCheck::OwnedString => ty == "String"@,
        DeclCheck::UnboundedLoop => false,
    }
}

pub open spec fn decl_description(check: DeclCheck, name: Seq<char>) -> Seq<char> {
    match check {
        DeclCheck::WideInteger => "'"@ + name + "' uses a 128-bit integer type"@,
        DeclCheck::OwnedString => "'"@ + name + "' is an owned String"@,
        DeclCheck::UnboundedLoop => "'"@ + name + "' is iterated without a length cap"@,
    }
}

pub open spec fn decl_suggestion(check: DeclCheck) -> Seq<char> {
    match check {
        DeclCheck::WideInteger => "Use u64 or u32 when the value range allows"@,
        DeclCheck::OwnedString => "Use Symbol for short identifiers; String allocates"@,
        DeclCheck::UnboundedLoop => "Check the length before the loop and reject large inputs"@,
    }
}

pub open spec fn decl_view(
    check: DeclCheck,
    name: Seq<char>,
    line: usize,
    rule: Seq<char>,
    severity: ViolationSeverity,
) -> ViolationView {
    vview(rule, decl_description(check, name), severity, line, name, decl_suggestion(check))
}

/// One violation per field whose type the check flags, in field order.
pub open spec fn typed_fields_out(
    fs: Seq<SorobanField>,
    check: DeclCheck,
    rule: Seq<char>,
    severity: ViolationSeverity,
) -> Seq<ViolationView>
    decreases fs.len(),
{
    if fs.len() == 0 {
        Seq::empty()
    } else if type_flagged(check, fs.last().type_text@) {
        typed_fields_out(fs.drop_last(), check, rule, severity).push(
            decl_view(check, fs.last().name@, fs.last().line_number, rule, severity),
        )
    } else {
        typed_fields_out(fs.drop_last(), check, rule, severity)
    }
}

/// The parameter is flagged by the check, within its function.
pub open spec fn param_flagged(check: DeclCheck, p: SorobanParam, f: SorobanFunction) -> bool {
    match check {
        DeclCheck::UnboundedLoop => (starts_with(p.type_text@, "Vec<"@) || starts_with(
            p.type_text@,
            "Map<"@,
        )) && exists|j: int|
            #[trigger] first_match(f.raw_definition@, "in "@ + p.name@, j) && forall|i: int|
                0 <= i < j ==> !matches_at(f.raw_definition@, i, p.name@ + ".len()"@),
        _ => type_flagged(check, p.type_text@),
    }
}

/// One violation per flagged parameter, at its function's line.
pub open spec fn params_out(
    ps: Seq<(SorobanParam, SorobanFunction)>,
    check: DeclCheck,
    rule: Seq<char>,
    severity: ViolationSeverity,
) -> Seq<ViolationView>
    decreases ps.len(),
{
    if ps.len() == 0 {
        Seq::empty()
    } else if param_flagged(check, ps.last().0, ps.last().1) {
        params_out(ps.drop_last(), check, rule, severity).push(
            decl_view(check, ps.last().0.name@, ps.last().1.line_number, rule, severity),
        )
    } else {
        params_out(ps.drop_last(), check, rule, severity)
    }
}

/// Two distinct occurrences of `p` in `t`.
pub open spec fn occurs_twice(t: Seq<char>, p: Seq<char>) -> bool {
    exists|i: int, j: int| i < j && matches_at(t, i, p) && matches_at(t, j, p)
}

pub open spec fn body_flagged(check: BodyCheck, t: Seq<char>) -> bool {
    match check {
        BodyCheck::Allocation => contains(t, ".to_string()"@) || contains(t, "format!("@)
            || contains(t, "String::from("@),
        BodyCheck::RepeatedStorage => (occurs_twice(t, "env.storage().instance()"@)
            || occurs_twice(t, "env.storage().persistent()"@) || occurs_twice(
            t,
            "env.storage().temporary()"@,
        )) && !contains(t, "= env.storage()"@),
    }
}

pub open spec fn body_description(check: BodyCheck, name: Seq<char>) -> Seq<char> {
    match check {
        BodyCheck::Allocation => "'"@ + name + "' builds heap-allocated strings"@,
        BodyCheck::RepeatedStorage => "'"@ + name + "' repeats the same storage lookup"@,
    }
}

pub open spec fn body_suggestion(check: BodyCheck) -> Seq<char> {
    match check {
        BodyCheck::Allocation => "Use Symbol or fixed-size values instead of building strings"@,
        BodyCheck::RepeatedStorage => "Bind the storage handle to a local once and reuse it"@,
    }
}

/// One violation per flagged function, in function order.
pub open spec fn bodies_out(
    fns: Seq<SorobanFunction>,
    check: BodyCheck,
    rule: Seq<char>,
    severity: ViolationSeverity,
) -> Seq<ViolationView>
    decreases fns.len(),
{
    if fns.len() == 0 {
        Seq::empty()
    } else if body_flagged(check, fns.last().raw_definition@) {
        bodies_out(fns.drop_last(), check, rule, severity).push(
            vview(
                rule,
                body_description(check, fns.last().name@),
                severity,
                fns.last().line_number,
                fns.last().name@,
                body_suggestion(check),
            ),
        )
    } else {
        bodies_out(fns.drop_last(), check, rule, severity)
    }
}

fn type_flagged_exec(check: DeclCheck, ty: &Vec<char>) -> (r: bool)
    ensures
        r == type_flagged(check, ty@),
{
    match check {
        DeclCheck::WideInteger => equals_str(ty, "u128") || equals_str(ty, "i128"),
        DeclCheck::OwnedString => equals_str(ty, "String"),
        DeclCheck::UnboundedLoop => false,
    }
}

fn decl_violation(
    check: DeclCheck,
    name: &Vec<char>,
    line: usize,
    rule: &str,
    severity: ViolationSeverity,
) -> (r: RuleViolation)
    ensures
        r@ == decl_view(check, name@, line, rule@, severity),
{
    match check {
        DeclCheck::WideInteger => {
            let d = concat3("'", name, "' uses a 128-bit integer type");
            make_violation(rule, d, severity, line, name, "Use u64 or u32 when the value range allows")
        },
        DeclCheck::OwnedString => {
            let d = concat3("'", name, "' is an owned String");
            make_violation(
                rule,
                d,
                severity,
                line,
                name,
                "Use Symbol for short identifiers; String allocates",
            )
        },
        DeclCheck::UnboundedLoop => {
            let d = concat3("'", name, "' is iterated without a length cap");
            make_violation(
                rule,
                d,
                severity,
                line,
                name,
                "Check the length before the loop and reject large inputs",
            )
        },
    }
}

/// The violations a type check reports over the contract's fields.
pub fn typed_fields(
    c: &SorobanContract,
    check: DeclCheck,
    rule: &str,
    severity: ViolationSeverity,
) -> (r: Vec<RuleViolation>)
    ensures
        views(r@) == typed_fields_out(all_fields(c.contract_types@), check, rule@, severity),
{
    let refs = field_refs(c);
    let ghost fs = refs@.map_values(|x: (usize, usize)| field_at(*c, x));
    let mut out: Vec<RuleViolation> = Vec::new();
    let mut m: usize = 0;
    while m < refs.len()
        invariant
            m <= refs@.len(),
            fs == refs@.map_values(|x: (usize, usize)| field_at(*c, x)),
            forall|m2: int| 0 <= m2 < refs@.len() ==> valid_field_ref(*c, #[trigger] refs@[m2]),
            views(out@) == typed_fields_out(fs.subrange(0, m as int), check, rule@, severity),
        decreases refs.len() - m,
    {
        let (k, j) = refs[m];
        assert(valid_field_ref(*c, refs@[m as int]));
        let f = &c.contract_types[k].fields[j];
        assert(fs[m as int] == *f);
        assert(fs.subrange(0, m + 1).drop_last() =~= fs.subrange(0, m as int));
        let ty = chars_of(f.type_text.as_str());
        if type_flagged_exec(check, &ty) {
            let name = chars_of(f.name.as_str());
            let v = decl_violation(check, &name, f.line_number, rule, severity);
            let ghost old = out@;
            out.push(v);
            assert(views(out@) =~= views(old).push(v@));
        }
        m += 1;
    }
    assert(fs.subrange(0, refs@.len() as int) =~= fs);
    out
}

fn param_flagged_exec(check: DeclCheck, p: &SorobanParam, f: &SorobanFunction) -> (r: bool)
    ensures
        r == param_flagged(check, *p, *f),
{
    let ty = chars_of(p.type_text.as_str());
    match check {
        DeclCheck::UnboundedLoop => {
            let collection = starts_with_str(&ty, "Vec<") || starts_with_str(&ty, "Map<");
            if !collection {
                return false;
            }
            let name = chars_of(p.name.as_str());
            let raw = chars_of(f.raw_definition.as_str());
            proof {
                reveal_strlit("");
            }
            let iter_pat = concat3("in ", &name, "");
            assert(iter_pat@ =~= "in "@ + name@);
            let len_pat = concat3("", &name, ".len()");
            assert(len_pat@ =~= name@ + ".len()"@);
            match find_from(&raw, &iter_pat, 0) {
                None => {
                    assert(forall|j: int| !first_match(raw@, iter_pat@, j));
                    false
                },
                Some(j) => {
                    assert(first_match(raw@, iter_pat@, j as int));
                    assert(forall|j2: int| #[trigger] first_match(raw@, iter_pat@, j2) ==> j2 == j);
                    match find_from(&raw, &len_pat, 0) {
                        None => true,
                        Some(i) => {
                            assert(matches_at(raw@, i as int, len_pat@));
                            i >= j
                        },
                    }
                },
            }
        },
        _ => type_flagged_exec(check, &ty),
    }
}

/// The violations a declaration check reports over all parameters.
pub fn param_violations(
    c: &SorobanContract,
    check: DeclCheck,
    rule: &str,
    severity: ViolationSeverity,
) -> (r: Vec<RuleViolation>)
    ensures
        views(r@) == params_out(all_params(all_functions(c.implementations@)), check, rule@, severity),
{
    let frefs = function_refs(c);
    let ghost fns = frefs@.map_values(|x: (usize, usize)| function_at(*c, x));
    let mut out: Vec<RuleViolation> = Vec::new();
    let mut m: usize = 0;
    while m < frefs.len()
        invariant
            m <= frefs@.len(),
            fns == frefs@.map_values(|x: (usize, usize)| function_at(*c, x)),
            forall|m2: int| 0 <= m2 < frefs@.len() ==> valid_function_ref(*c, #[trigger] frefs@[m2]),
            views(out@) == params_out(all_params(fns.subrange(0, m as int)), check, rule@, severity),
        decreases frefs.len() - m,
    {
        let (k, j) = frefs[m];
        assert(valid_function_ref(*c, frefs@[m as int]));
        let f = &c.implementations[k].functions[j];
        assert(fns[m as int] == *f);
        let ghost base = all_params(fns.subrange(0, m as int));
        let ghost ps = f.params@.map_values(|p: SorobanParam| (p, *f));
        let mut p: usize = 0;
        while p < f.params.len()
            invariant
                p <= f.params@.len(),
                ps == f.params@.map_values(|q: SorobanParam| (q, *f)),
                views(out@) == params_out(base + ps.subrange(0, p as int), check, rule@, severity),
            decreases f.params.len() - p,
        {
            let prm = &f.params[p];
            assert((base + ps.subrange(0, p + 1)).drop_last() =~= base + ps.subrange(0, p as int));
            assert((base + ps.subrange(0, p + 1)).last() == (*prm, *f));
            if param_flagged_exec(check, prm, f) {
                let name = chars_of(prm.name.as_str());
                let v = decl_violation(check, &name, f.line_number, rule, severity);
                let ghost old = out@;
                out.push(v);
                assert(views(out@) =~= views(old).push(v@));
            }
            p += 1;
        }
        assert(fns.subrange(0, m + 1).drop_last() =~= fns.subrange(0, m as int));
        assert(fns.subrange(0, m + 1).last() == *f);
        assert(ps.subrange(0, ps.len() as int) =~= ps);
        assert(all_params(fns.subrange(0, m + 1)) == base + ps);
        m += 1;
    }
    assert(fns.subrange(0, frefs@.len() as int) =~= fns);
    out
}

fn occurs_twice_exec(t: &Vec<char>, p: &Vec<char>) -> (r: bool)
    ensures
        r == occurs_twice(t@, p@),
{
    match find_from(t, p, 0) {
        None => false,
        Some(i) => {
            if i >= t.len() {
                assert forall|a: int, b: int| a < b && matches_at(t@, a, p@) implies !matches_at(
                    t@,
                    b,
                    p@,
                ) by {
                    assert(a >= i);
                }
                return false;
            }
            match find_from(t, p, i + 1) {
                Some(j) => {
                    assert(matches_at(t@, i as int, p@) && matches_at(t@, j as int, p@));
                    true
                },
                None => {
                    assert forall|a: int, b: int|
                        a < b && matches_at(t@, a, p@) implies !matches_at(t@, b, p@) by {
                        assert(a >= i);
                        assert(b >= i + 1);
                    }
                    false
                },
            }
        },
    }
}

fn body_flagged_exec(check: BodyCheck, t: &Vec<char>) -> (r: bool)
    ensures
        r == body_flagged(check, t@),
{
    match check {
        BodyCheck::Allocation => contains_str(t, ".to_string()") || contains_str(t, "format!(")
            || contains_str(t, "String::from("),
        BodyCheck::RepeatedStorage => {
            let a = chars_of("env.storage().instance()");
            let b = chars_of("env.storage().persistent()");
            let c = chars_of("env.storage().temporary()");
            (occurs_twice_exec(t, &a) || occurs_twice_exec(t, &b) || occurs_twice_exec(t, &c))
                && !contains_str(t, "= env.storage()")
        },
    }
}

/// The violations a body check reports over all functions.
pub fn body_violations(
    c: &SorobanContract,
    check: BodyCheck,
    rule: &str,
    severity: ViolationSeverity,
) -> (r: Vec<RuleViolation>)
    ensures
        views(r@) == bodies_out(all_functions(c.implementations@), check, rule@, severity),
{
    let frefs = function_refs(c);
    let ghost fns = frefs@.map_values(|x: (usize, usize)| function_at(*c, x));
    let mut out: Vec<RuleViolation> = Vec::new();
    let mut m: usize = 0;
    while m < frefs.len()
        invariant
            m <= frefs@.len(),
            fns == frefs@.map_values(|x: (usize, usize)| function_at(*c, x)),
            forall|m2: int| 0 <= m2 < frefs@.len() ==> valid_function_ref(*c, #[trigger] frefs@[m2]),
            views(out@) == bodies_out(fns.subrange(0, m as int), check, rule@, severity),
        decreases frefs.len() - m,
    {
        let (k, j) = frefs[m];
        assert(valid_function_ref(*c, frefs@[m as int]));
        let f = &c.implementations[k].functions[j];
        assert(fns[m as int] == *f);
        assert(fns.subrange(0, m + 1).drop_last() =~= fns.subrange(0, m as int));
        let raw = chars_of(f.raw_definition.as_str());
        if body_flagged_exec(check, &raw) {
            let name = chars_of(f.name.as_str());
            let d = match check {
                BodyCheck::Allocation => concat3("'", &name, "' builds heap-allocated strings"),
                BodyCheck::RepeatedStorage => concat3(
                    "'",
                    &name,
                    "' repeats the same storage lookup",
                ),
            };
            let v = match check {
                BodyCheck::Allocation => make_violation(
                    rule,
                    d,
                    severity,
                    f.line_number,
                    &name,
                    "Use Symbol or fixed-size values instead of building strings",
                ),
                BodyCheck::RepeatedStorage => make_violation(
                    rule,
                    d,
                    severity,
                    f.line_number,
                    &name,
                    "Bind the storage handle to a local once and reuse it",
                ),
            };
            let ghost old = out@;
            out.push(v);
            assert(views(out@) =~= views(old).push(v@));
        }
        m += 1;
    }
    assert(fns.subrange(0, frefs@.len() as int) =~= fns);
    out
}

} // verus!
