//! Properties that relate several calls or hold of every input.
use vstd::prelude::*;
use crate::brackets::{between_parens, depth_at, depth_from, first_open, group_close, raw_segments};
use crate::engine::{engine_out, rule_enabled, rule_out, SorobanRule};
use crate::model::{RuleViolation, SorobanContract, SorobanField, SorobanFunction, ViolationSeverity, ViolationView, views};
use crate::rules::{unused_out, unused_view, used_by};

verus! {

/// A text whose every delimiter stands inside a bracket group is not cut at
/// all: splitting never happens inside a nested group.
pub proof fn lemma_nested_delimiters_not_split(t: Seq<char>, d: char)
    requires
        forall|i: int| 0 <= i < t.len() && t[i] == d ==> depth_at(t, i) > 0,
    ensures
        raw_segments(t, d, t.len() as int) == seq![t],
{
    lemma_prefix_not_split(t, d, t.len() as int);
    assert(t.subrange(0, t.len() as int) =~= t);
}

proof fn lemma_prefix_not_split(t: Seq<char>, d: char, n: int)
    requires
        0 <= n <= t.len(),
        forall|i: int| 0 <= i < t.len() && t[i] == d ==> depth_at(t, i) > 0,
    ensures
        raw_segments(t, d, n) == seq![t.subrange(0, n)],
    decreases n,
{
    if n == 0 {
        assert(t.subrange(0, 0) =~= Seq::<char>::empty());
    } else {
        lemma_prefix_not_split(t, d, n - 1);
        let prev = raw_segments(t, d, n - 1);
        assert(prev.last().push(t[n - 1]) =~= t.subrange(0, n));
        assert(prev.update(prev.len() - 1, prev.last().push(t[n - 1])) =~= seq![
            t.subrange(0, n),
        ]);
    }
}

/// A group opened by the first `(` that never closes yields no extraction.
pub proof fn lemma_unclosed_group_has_no_extraction(t: Seq<char>, p: int)
    requires
        first_open(t, p),
        forall|q: int| p < q < t.len() ==> #[trigger] depth_from(t, p, q + 1) > 0,
    ensures
        between_parens(t) is None,
{
    assert forall|p_alt: int, q: int| !(first_open(t, p_alt) && group_close(t, p_alt, q)) by {
        if first_open(t, p_alt) && group_close(t, p_alt, q) {
            if p_alt < p {
                assert(t[p_alt] != '(');
            }
            if p < p_alt {
                assert(t[p] != '(');
            }
            assert(depth_from(t, p, q + 1) > 0);
        }
    }
}

/// Every report names a field that no function accesses.
pub open spec fn reports_only_unused(
    out: Seq<ViolationView>,
    fs: Seq<SorobanField>,
    fns: Seq<SorobanFunction>,
    rule: Seq<char>,
    severity: ViolationSeverity,
) -> bool {
    forall|k: int|
        0 <= k < out.len() ==> exists|i: int|
            0 <= i < fs.len() && !used_by(fns, fs[i].name@) && #[trigger] out[k] == unused_view(
                fs[i],
                rule,
                severity,
            )
}

/// Every field that no function accesses is reported.
pub open spec fn reports_all_unused(
    out: Seq<ViolationView>,
    fs: Seq<SorobanField>,
    fns: Seq<SorobanFunction>,
    rule: Seq<char>,
    severity: ViolationSeverity,
) -> bool {
    forall|i: int|
        0 <= i < fs.len() && !used_by(fns, #[trigger] fs[i].name@) ==> exists|k: int|
            0 <= k < out.len() && out[k] == unused_view(fs[i], rule, severity)
}

/// The unused-field check reports exactly the fields that no function
/// accesses: each report names such a field, and each such field is reported.
pub proof fn lemma_unused_reports_exactly_unused(
    fs: Seq<SorobanField>,
    fns: Seq<SorobanFunction>,
    rule: Seq<char>,
    severity: ViolationSeverity,
)
    ensures
        reports_only_unused(unused_out(fs, fns, rule, severity), fs, fns, rule, severity),
        reports_all_unused(unused_out(fs, fns, rule, severity), fs, fns, rule, severity),
    decreases fs.len(),
{
    if fs.len() > 0 {
        let prev = fs.drop_last();
        lemma_unused_reports_exactly_unused(prev, fns, rule, severity);
        lemma_only_step(fs, fns, rule, severity);
        lemma_all_step(fs, fns, rule, severity);
    }
}

#[verifier::rlimit(40)]
proof fn lemma_only_step(
    fs: Seq<SorobanField>,
    fns: Seq<SorobanFunction>,
    rule: Seq<char>,
    severity: ViolationSeverity,
)
    requires
        fs.len() > 0,
        reports_only_unused(
            unused_out(fs.drop_last(), fns, rule, severity),
            fs.drop_last(),
            fns,
            rule,
            severity,
        ),
    ensures
        reports_only_unused(unused_out(fs, fns, rule, severity), fs, fns, rule, severity),
{
    let prev = fs.drop_last();
    let out = unused_out(fs, fns, rule, severity);
    let pout = unused_out(prev, fns, rule, severity);
    assert forall|k: int| 0 <= k < out.len() implies exists|i: int|
        0 <= i < fs.len() && !used_by(fns, fs[i].name@) && #[trigger] out[k] == unused_view(
            fs[i],
            rule,
            severity,
        ) by {
        if k < pout.len() {
            assert(out[k] == pout[k]);
            let i = choose|i: int|
                0 <= i < prev.len() && !used_by(fns, prev[i].name@) && #[trigger] pout[k]
                    == unused_view(prev[i], rule, severity);
            assert(fs[i] == prev[i]);
        } else {
            let i = fs.len() - 1;
            assert(fs[i] == fs.last());
            assert(!used_by(fns, fs[i].name@) && out[k] == unused_view(fs[i], rule, severity));
        }
    }
}

#[verifier::rlimit(40)]
proof fn lemma_all_step(
    fs: Seq<SorobanField>,
    fns: Seq<SorobanFunction>,
    rule: Seq<char>,
    severity: ViolationSeverity,
)
    requires
        fs.len() > 0,
        reports_all_unused(
            unused_out(fs.drop_last(), fns, rule, severity),
            fs.drop_last(),
            fns,
            rule,
            severity,
        ),
    ensures
        reports_all_unused(unused_out(fs, fns, rule, severity), fs, fns, rule, severity),
{
    let prev = fs.drop_last();
    let out = unused_out(fs, fns, rule, severity);
    let pout = unused_out(prev, fns, rule, severity);
    assert forall|i: int| 0 <= i < fs.len() && !used_by(fns, #[trigger] fs[i].name@) implies exists|k: int|
        0 <= k < out.len() && out[k] == unused_view(fs[i], rule, severity) by {
        if i < fs.len() - 1 {
            assert(fs[i] == prev[i]);
            assert(!used_by(fns, prev[i].name@));
            let k = choose|k: int|
                0 <= k < pout.len() && pout[k] == unused_view(prev[i], rule, severity);
            assert(out[k] == pout[k]);
        } else {
            assert(fs[i] == fs.last());
            assert(out[out.len() - 1] == unused_view(fs[i], rule, severity));
        }
    }
}

/// Registering one more rule appends exactly its output, when enabled, to
/// what the engine reported before: output follows registration order.
pub proof fn lemma_engine_registration_order(rules: Seq<SorobanRule>, r: SorobanRule, c: SorobanContract)
    ensures
        engine_out(rules.push(r), c) == engine_out(rules, c) + (if rule_enabled(r) {
            rule_out(r, c)
        } else {
            Seq::empty()
        }),
{
    assert(rules.push(r).drop_last() =~= rules);
    if !rule_enabled(r) {
        assert(engine_out(rules, c) + Seq::<ViolationView>::empty() =~= engine_out(rules, c));
    }
}

/// The rule stage is a function of its inputs: two runs of the same rules
/// over the same parsed contract report the same violations in the same
/// order. (Parsing itself is not covered here.)
pub proof fn lemma_analysis_repeatable(
    rules: Seq<SorobanRule>,
    c: SorobanContract,
    first: Seq<RuleViolation>,
    second: Seq<RuleViolation>,
)
    requires
        views(first) == engine_out(rules, c),
        views(second) == engine_out(rules, c),
    ensures
        views(first) == views(second),
{
}

} // verus!
