//! The rule catalog's members and the engine that runs them in
//! registration order.
use vstd::prelude::*;
use crate::model::{RuleViolation, SorobanContract, SorobanResult, ViolationSeverity, ViolationView, views};
use crate::parser::{contract_shape, has_marked_type, lines_of, unbalanced_block, SorobanParser};
use crate::rules::{
    all_fields, all_functions, all_params, bodies_out, body_violations, param_violations,
    params_out, typed_fields, typed_fields_out, unused_fields, unused_out, BodyCheck, DeclCheck,
};

verus! {

/// Reports fields that no function probably reads or writes.
#[derive(Debug, Clone, Copy, PartialEq, Eq)]
pub struct UnusedStateVariablesRule {
    pub severity: ViolationSeverity,
    pub enabled: bool,
}

/// Reports 128-bit integer fields and parameters.
#[derive(Debug, Clone, Copy, PartialEq, Eq)]
pub struct InefficientIntegersRule {
    pub severity: ViolationSeverity,
    pub enabled: bool,
}

/// Reports owned `String` fields and functions that build strings.
#[derive(Debug, Clone, Copy, PartialEq, Eq)]
pub struct ExpensiveStringsRule {
    pub severity: ViolationSeverity,
    pub enabled: bool,
}

/// Reports functions that write out the same storage lookup more than once.
#[derive(Debug, Clone, Copy, PartialEq, Eq)]
pub struct RepeatedStorageAccessRule {
    pub severity: ViolationSeverity,
    pub enabled: bool,
}

/// Reports collection parameters iterated without a length cap.
#[derive(Debug, Clone, Copy, PartialEq, Eq)]
pub struct UnboundedLoopRule {
    pub severity: ViolationSeverity,
    pub enabled: bool,
}

/// A member of the rule catalog.
#[derive(Debug, Clone, Copy, PartialEq, Eq)]
pub enum SorobanRule {
    UnusedStateVariables(UnusedStateVariablesRule),
    InefficientIntegers(InefficientIntegersRule),
    ExpensiveStrings(ExpensiveStringsRule),
    RepeatedStorageAccess(RepeatedStorageAccessRule),
    UnboundedLoop(UnboundedLoopRule),
}

pub open spec fn unused_rule_out(c: SorobanContract, severity: ViolationSeverity) -> Seq<ViolationView> {
    unused_out(
        all_fields(c.contract_types@),
        all_functions(c.implementations@),
        "soroban-unused-state-variables"@,
        severity,
    )
}

pub open spec fn integers_rule_out(c: SorobanContract, severity: ViolationSeverity) -> Seq<ViolationView> {
    typed_fields_out(
        all_fields(c.contract_types@),
        DeclCheck::WideInteger,
        "soroban-inefficient-integers"@,
        severity,
    ) + params_out(
        all_params(all_functions(c.implementations@)),
        DeclCheck::WideInteger,
        "soroban-inefficient-integers"@,
        severity,
    )
}

pub open spec fn strings_rule_out(c: SorobanContract, severity: ViolationSeverity) -> Seq<ViolationView> {
    typed_fields_out(
        all_fields(c.contract_types@),
        DeclCheck::OwnedString,
        "soroban-expensive-strings"@,
        severity,
    ) + bodies_out(
        all_functions(c.implementations@),
        BodyCheck::Allocation,
        "soroban-expensive-strings"@,
        severity,
    )
}

pub open spec fn storage_rule_out(c: SorobanContract, severity: ViolationSeverity) -> Seq<ViolationView> {
    bodies_out(
        all_functions(c.implementations@),
        BodyCheck::RepeatedStorage,
        "soroban-repeated-storage-access"@,
        severity,
    )
}

pub open spec fn loop_rule_out(c: SorobanContract, severity: ViolationSeverity) -> Seq<ViolationView> {
    params_out(
        all_params(all_functions(c.implementations@)),
        DeclCheck::UnboundedLoop,
        "soroban-unbounded-loop"@,
        severity,
    )
}

/// What a rule reports on a contract.
pub open spec fn rule_out(r: SorobanRule, c: SorobanContract) -> Seq<ViolationView> {
    match r {
        SorobanRule::UnusedStateVariables(x) => unused_rule_out(c, x.severity),
        SorobanRule::InefficientIntegers(x) => integers_rule_out(c, x.severity),
        SorobanRule::ExpensiveStrings(x) => strings_rule_out(c, x.severity),
        SorobanRule::RepeatedStorageAccess(x) => storage_rule_out(c, x.severity),
        SorobanRule::UnboundedLoop(x) => loop_rule_out(c, x.severity),
    }
}

pub open spec fn rule_enabled(r: SorobanRule) -> bool {
    match r {
        SorobanRule::UnusedStateVariables(x) => x.enabled,
        SorobanRule::InefficientIntegers(x) => x.enabled,
        SorobanRule::ExpensiveStrings(x) => x.enabled,
        SorobanRule::RepeatedStorageAccess(x) => x.enabled,
        SorobanRule::UnboundedLoop(x) => x.enabled,
    }
}

/// The enabled rules' outputs, concatenated in registration order.
pub open spec fn engine_out(rules: Seq<SorobanRule>, c: SorobanContract) -> Seq<ViolationView>
    decreases rules.len(),
{
    if rules.len() == 0 {
        Seq::empty()
    } else if rule_enabled(rules.last()) {
        engine_out(rules.drop_last(), c) + rule_out(rules.last(), c)
    } else {
        engine_out(rules.drop_last(), c)
    }
}

/// `a` followed by `b`.
fn append_all(a: &mut Vec<RuleViolation>, b: Vec<RuleViolation>)
    ensures
        views(final(a)@) == views(old(a)@) + views(b@),
{
    let ghost start = a@;
    let mut b = b;
    let ghost bv = b@;
    a.append(&mut b);
    assert(views(a@) =~= views(start) + views(bv));
}

impl UnusedStateVariablesRule {
    pub fn id(&self) -> (r: &'static str)
        ensures
            r@ == "soroban-unused-state-variables"@,
    {
        "soroban-unused-state-variables"
    }

    pub fn name(&self) -> (r: &'static str)
        ensures
            r@ == "Unused State Variables"@,
    {
        "Unused State Variables"
    }

    pub fn severity(&self) -> (r: ViolationSeverity)
        ensures
            r == self.severity,
    {
        self.severity
    }

    pub fn is_enabled(&self) -> (r: bool)
        ensures
            r == self.enabled,
    {
        self.enabled
    }

    /// One violation per field that no function probably accesses.
    pub fn apply(&self, c: &SorobanContract) -> (r: Vec<RuleViolation>)
        ensures
            views(r@) == unused_rule_out(*c, self.severity),
    {
        unused_fields(c, "soroban-unused-state-variables", self.severity)
    }
}

impl Default for UnusedStateVariablesRule {
    fn default() -> (r: Self)
        ensures
            r.severity == ViolationSeverity::Warning && r.enabled,
    {
        UnusedStateVariablesRule { severity: ViolationSeverity::Warning, enabled: true }
    }
}

impl InefficientIntegersRule {
    pub fn id(&self) -> (r: &'static str)
        ensures
            r@ == "soroban-inefficient-integers"@,
    {
        "soroban-inefficient-integers"
    }

    pub fn name(&self) -> (r: &'static str)
        ensures
            r@ == "Inefficient Integer Types"@,
    {
        "Inefficient Integer Types"
    }

    pub fn severity(&self) -> (r: ViolationSeverity)
        ensures
            r == self.severity,
    {
        self.severity
    }

    pub fn is_enabled(&self) -> (r: bool)
        ensures
            r == self.enabled,
    {
        self.enabled
    }

    /// One violation per 128-bit integer field, then per such parameter.
    pub fn apply(&self, c: &SorobanContract) -> (r: Vec<RuleViolation>)
        ensures
            views(r@) == integers_rule_out(*c, self.severity),
    {
        let mut out = typed_fields(
            c,
            DeclCheck::WideInteger,
            "soroban-inefficient-integers",
            self.severity,
        );
        let more = param_violations(
            c,
            DeclCheck::WideInteger,
            "soroban-inefficient-integers",
            self.severity,
        );
        append_all(&mut out, more);
        out
    }
}

impl Default for InefficientIntegersRule {
    fn default() -> (r: Self)
        ensures
            r.severity == ViolationSeverity::Warning && r.enabled,
    {
        InefficientIntegersRule { severity: ViolationSeverity::Warning, enabled: true }
    }
}

impl ExpensiveStringsRule {
    pub fn id(&self) -> (r: &'static str)
        ensures
            r@ == "soroban-expensive-strings"@,
    {
        "soroban-expensive-strings"
    }

    pub fn name(&self) -> (r: &'static str)
        ensures
            r@ == "Expensive String Operations"@,
    {
        "Expensive String Operations"
    }

    pub fn severity(&self) -> (r: ViolationSeverity)
        ensures
            r == self.severity,
    {
        self.severity
    }

    pub fn is_enabled(&self) -> (r: bool)
        ensures
            r == self.enabled,
    {
        self.enabled
    }

    /// One violation per `String` field, then per function that builds strings.
    pub fn apply(&self, c: &SorobanContract) -> (r: Vec<RuleViolation>)
        ensures
            views(r@) == strings_rule_out(*c, self.severity),
    {
        let mut out = typed_fields(
            c,
            DeclCheck::OwnedString,
            "soroban-expensive-strings",
            self.severity,
        );
        let more = body_violations(
            c,
            BodyCheck::Allocation,
            "soroban-expensive-strings",
            self.severity,
        );
        append_all(&mut out, more);
        out
    }
}

impl Default for ExpensiveStringsRule {
    fn default() -> (r: Self)
        ensures
            r.severity == ViolationSeverity::Info && r.enabled,
    {
        ExpensiveStringsRule { severity: ViolationSeverity::Info, enabled: true }
    }
}

impl RepeatedStorageAccessRule {
    pub fn id(&self) -> (r: &'static str)
        ensures
            r@ == "soroban-repeated-storage-access"@,
    {
        "soroban-repeated-storage-access"
    }

    pub fn name(&self) -> (r: &'static str)
        ensures
            r@ == "Repeated Storage Access"@,
    {
        "Repeated Storage Access"
    }

    pub fn severity(&self) -> (r: ViolationSeverity)
        ensures
            r == self.severity,
    {
        self.severity
    }

    pub fn is_enabled(&self) -> (r: bool)
        ensures
            r == self.enabled,
    {
        self.enabled
    }

    /// One violation per function that repeats an uncached storage lookup.
    pub fn apply(&self, c: &SorobanContract) -> (r: Vec<RuleViolation>)
        ensures
            views(r@) == storage_rule_out(*c, self.severity),
    {
        body_violations(
            c,
            BodyCheck::RepeatedStorage,
            "soroban-repeated-storage-access",
            self.severity,
        )
    }
}

impl Default for RepeatedStorageAccessRule {
    fn default() -> (r: Self)
        ensures
            r.severity == ViolationSeverity::Info && r.enabled,
    {
        RepeatedStorageAccessRule { severity: ViolationSeverity::Info, enabled: true }
    }
}

impl UnboundedLoopRule {
    pub fn id(&self) -> (r: &'static str)
        ensures
            r@ == "soroban-unbounded-loop"@,
    {
        "soroban-unbounded-loop"
    }

    pub fn name(&self) -> (r: &'static str)
        ensures
            r@ == "Unbounded Loops"@,
    {
        "Unbounded Loops"
    }

    pub fn severity(&self) -> (r: ViolationSeverity)
        ensures
            r == self.severity,
    {
        self.severity
    }

    pub fn is_enabled(&self) -> (r: bool)
        ensures
            r == self.enabled,
    {
        self.enabled
    }

    /// One violation per collection parameter iterated without a length check.
    pub fn apply(&self, c: &SorobanContract) -> (r: Vec<RuleViolation>)
        ensures
            views(r@) == loop_rule_out(*c, self.severity),
    {
        param_violations(c, DeclCheck::UnboundedLoop, "soroban-unbounded-loop", self.severity)
    }
}

impl Default for UnboundedLoopRule {
    fn default() -> (r: Self)
        ensures
            r.severity == ViolationSeverity::Warning && r.enabled,
    {
        UnboundedLoopRule { severity: ViolationSeverity::Warning, enabled: true }
    }
}

impl SorobanRule {
    pub fn is_enabled(&self) -> (r: bool)
        ensures
            r == rule_enabled(*self),
    {
        match self {
            SorobanRule::UnusedStateVariables(x) => x.enabled,
            SorobanRule::InefficientIntegers(x) => x.enabled,
            SorobanRule::ExpensiveStrings(x) => x.enabled,
            SorobanRule::RepeatedStorageAccess(x) => x.enabled,
            SorobanRule::UnboundedLoop(x) => x.enabled,
        }
    }

    pub fn apply(&self, c: &SorobanContract) -> (r: Vec<RuleViolation>)
        ensures
            views(r@) == rule_out(*self, *c),
    {
        match self {
            SorobanRule::UnusedStateVariables(x) => x.apply(c),
            SorobanRule::InefficientIntegers(x) => x.apply(c),
            SorobanRule::ExpensiveStrings(x) => x.apply(c),
            SorobanRule::RepeatedStorageAccess(x) => x.apply(c),
            SorobanRule::UnboundedLoop(x) => x.apply(c),
        }
    }
}

/// Runs an ordered list of rules over parsed contracts.
pub struct SorobanRuleEngine {
    pub rules: Vec<SorobanRule>,
}

impl SorobanRuleEngine {
    /// An engine with no rules.
    pub fn new() -> (r: Self)
        ensures
            r.rules@.len() == 0,
    {
        SorobanRuleEngine { rules: Vec::new() }
    }

    /// The catalog in its standard order: unused fields, wide integers,
    /// strings, repeated storage access, unbounded loops; default severities.
    pub fn with_default_rules() -> (r: Self)
        ensures
            r.rules@ == seq![
                SorobanRule::UnusedStateVariables(
                    UnusedStateVariablesRule { severity: ViolationSeverity::Warning, enabled: true },
                ),
                SorobanRule::InefficientIntegers(
                    InefficientIntegersRule { severity: ViolationSeverity::Warning, enabled: true },
                ),
                SorobanRule::ExpensiveStrings(
                    ExpensiveStringsRule { severity: ViolationSeverity::Info, enabled: true },
                ),
                SorobanRule::RepeatedStorageAccess(
                    RepeatedStorageAccessRule { severity: ViolationSeverity::Info, enabled: true },
                ),
                SorobanRule::UnboundedLoop(
                    UnboundedLoopRule { severity: ViolationSeverity::Warning, enabled: true },
                ),
            ],
    {
        let mut rules: Vec<SorobanRule> = Vec::new();
        rules.push(
            SorobanRule::UnusedStateVariables(
                UnusedStateVariablesRule { severity: ViolationSeverity::Warning, enabled: true },
            ),
        );
        rules.push(
            SorobanRule::InefficientIntegers(
                InefficientIntegersRule { severity: ViolationSeverity::Warning, enabled: true },
            ),
        );
        rules.push(
            SorobanRule::ExpensiveStrings(
                ExpensiveStringsRule { severity: ViolationSeverity::Info, enabled: true },
            ),
        );
        rules.push(
            SorobanRule::RepeatedStorageAccess(
                RepeatedStorageAccessRule { severity: ViolationSeverity::Info, enabled: true },
            ),
        );
        rules.push(
            SorobanRule::UnboundedLoop(
                UnboundedLoopRule { severity: ViolationSeverity::Warning, enabled: true },
            ),
        );
        SorobanRuleEngine { rules }
    }

    /// The engine with `rule` registered after the existing rules.
    pub fn add_rule(self, rule: SorobanRule) -> (r: Self)
        ensures
            r.rules@ == self.rules@.push(rule),
    {
        let mut rules = self.rules;
        rules.push(rule);
        SorobanRuleEngine { rules }
    }

    /// Runs every enabled rule in registration order and concatenates
    /// their outputs.
    pub fn analyze_contract(&self, c: &SorobanContract) -> (r: Vec<RuleViolation>)
        ensures
            views(r@) == engine_out(self.rules@, *c),
    {
        let mut out: Vec<RuleViolation> = Vec::new();
        let mut i: usize = 0;
        while i < self.rules.len()
            invariant
                i <= self.rules@.len(),
                views(out@) == engine_out(self.rules@.subrange(0, i as int), *c),
            decreases self.rules.len() - i,
        {
            let rule = &self.rules[i];
            assert(self.rules@.subrange(0, i + 1).drop_last() =~= self.rules@.subrange(0, i as int));
            if rule.is_enabled() {
                let found = rule.apply(c);
                append_all(&mut out, found);
            }
            i += 1;
        }
        assert(self.rules@.subrange(0, self.rules@.len() as int) =~= self.rules@);
        out
    }

    /// Parses `source` (labelled `file_path`) and runs the rules over it;
    /// a parse failure is returned unchanged.
    pub fn analyze(&self, source: &str, file_path: &str) -> (r: SorobanResult<Vec<RuleViolation>>)
        requires
            source@.len() + 2 < usize::MAX,
        ensures
            (r is Err && r->Err_0 is MissingMacro) <==> !has_marked_type(lines_of(source@)),
            r is Err ==> (r->Err_0 is MissingMacro || r->Err_0 is InvalidStructure),
            (r is Err && r->Err_0 is InvalidStructure) <==> (has_marked_type(lines_of(source@))
                && unbalanced_block(lines_of(source@))),
            r is Ok <==> (has_marked_type(lines_of(source@)) && !unbalanced_block(
                lines_of(source@),
            )),
            r is Err && r->Err_0 is MissingMacro ==> r->Err_0->MissingMacro_0@
                == "could not determine contract name: no #[contracttype] or #[contract] type declaration"@,
            r is Ok ==> exists|c: SorobanContract|
                contract_shape(lines_of(source@), c, source@, file_path@) && views(r->Ok_0@)
                    == #[trigger] engine_out(self.rules@, c),
    {
        match SorobanParser::parse_contract(source, file_path) {
            Ok(c) => {
                let v = self.analyze_contract(&c);
                assert(contract_shape(lines_of(source@), c, source@, file_path@));
                Ok(v)
            },
            Err(e) => Err(e),
        }
    }
}

/// Direct analysis of a parsed contract, without a rule list.
pub struct SorobanAnalyzer;

pub open spec fn analyzer_out(c: SorobanContract) -> Seq<ViolationView> {
    unused_out(
        all_fields(c.contract_types@),
        all_functions(c.implementations@),
        "unused-state-variable"@,
        ViolationSeverity::Warning,
    ) + typed_fields_out(
        all_fields(c.contract_types@),
        DeclCheck::WideInteger,
        "inefficient-integer-type"@,
        ViolationSeverity::Info,
    )
}

impl SorobanAnalyzer {
    /// Unused fields (as warnings), then 128-bit integer fields (as notes).
    pub fn analyze_contract(c: &SorobanContract) -> (r: Vec<RuleViolation>)
        ensures
            views(r@) == analyzer_out(*c),
    {
        let mut out = unused_fields(c, "unused-state-variable", ViolationSeverity::Warning);
        let more = typed_fields(
            c,
            DeclCheck::WideInteger,
            "inefficient-integer-type",
            ViolationSeverity::Info,
        );
        append_all(&mut out, more);
        out
    }
}

} // verus!
