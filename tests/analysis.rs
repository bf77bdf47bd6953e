use gasguard::{
    FieldVisibility, InefficientIntegersRule, Language, RuleViolation, SorobanAnalyzer,
    SorobanContract, SorobanField, SorobanParser, SorobanRule, SorobanRuleEngine, SorobanStruct,
    UnboundedLoopRule, UnusedStateVariablesRule, ViolationSeverity, SorobanParseError,
};

fn field(name: &str, ty: &str, line: usize) -> SorobanField {
    SorobanField {
        name: name.to_string(),
        type_text: ty.to_string(),
        visibility: FieldVisibility::Public,
        line_number: line,
    }
}

fn names(v: &[RuleViolation], rule: &str) -> Vec<String> {
    v.iter().filter(|x| x.rule_name == rule).map(|x| x.variable_name.clone()).collect()
}

#[test]
fn test_soroban_analyzer_basic_checks() {
    let contract = SorobanContract {
        name: "TestContract".to_string(),
        contract_types: vec![SorobanStruct {
            name: "TestContract".to_string(),
            fields: vec![field("admin", "Address", 3), field("unused_var", "String", 4)],
            line_number: 2,
            raw_definition: "".to_string(),
        }],
        implementations: vec![],
        source: r#"
use soroban_sdk::{contract, contractimpl, contracttype, Address};

#[contracttype]
pub struct TestContract {
    pub admin: Address,
    pub unused_var: String,
}
"#
        .to_string(),
        file_path: "test.rs".to_string(),
    };

    let violations = SorobanAnalyzer::analyze_contract(&contract);

    let unused_found = violations
        .iter()
        .any(|v| v.rule_name == "unused-state-variable" && v.variable_name == "unused_var");
    assert!(unused_found);
}

#[test]
fn test_soroban_rule_engine_unused_variables_rule() {
    let rule = UnusedStateVariablesRule::default();
    assert_eq!(rule.id(), "soroban-unused-state-variables");
    assert_eq!(rule.name(), "Unused State Variables");
    assert_eq!(rule.severity(), ViolationSeverity::Warning);
    assert!(rule.is_enabled());

    let contract = SorobanContract {
        name: "Test".to_string(),
        contract_types: vec![SorobanStruct {
            name: "Test".to_string(),
            fields: vec![field("never_used", "u64", 1)],
            line_number: 1,
            raw_definition: "".to_string(),
        }],
        implementations: vec![],
        source: "struct Test { never_used: u64 }".to_string(),
        file_path: "test.rs".to_string(),
    };

    let violations = rule.apply(&contract);
    assert!(!violations.is_empty());
    assert_eq!(violations[0].rule_name, "soroban-unused-state-variables");
}

#[test]
fn test_soroban_analyzer_unused_variables() {
    let contract_code = r#"
use soroban_sdk::{contract, contractimpl, contracttype, Address};

#[contracttype]
pub struct TestContract {
    pub admin: Address,
    pub unused_counter: u64,
    pub active_flag: bool,
}

#[contractimpl]
impl TestContract {
    pub fn new(admin: Address) -> Self {
        Self {
            admin,
            unused_counter: 0,
            active_flag: true,
        }
    }
    
    pub fn is_active(&self) -> bool {
        self.active_flag
    }
}
"#;

    let contract = SorobanParser::parse_contract(contract_code, "test.rs").unwrap();
    let violations = SorobanAnalyzer::analyze_contract(&contract);

    let unused_found = violations
        .iter()
        .any(|v| v.rule_name == "unused-state-variable" && v.variable_name == "unused_counter");
    assert!(unused_found);
}

#[test]
fn test_soroban_rule_engine_integration() {
    let contract_code = r#"
use soroban_sdk::{contract, contractimpl, contracttype, Address, Env};

#[contracttype]
pub struct BadContract {
    admin: Address,
    counter: u128,
    unused_data: String,
}

#[contractimpl]
impl BadContract {
    pub fn new(admin: Address) -> Self {
        Self {
            admin,
            counter: 0,
            unused_data: "never_used".to_string(),
        }
    }
    
    pub fn increment(&mut self) {
        self.counter += 1;
        let expensive_vec = Vec::new();
        expensive_vec.push(1);
    }
}
"#;

    let engine = SorobanRuleEngine::with_default_rules();
    let violations = engine.analyze(contract_code, "bad_contract.rs").unwrap();

    assert!(!violations.is_empty());
    assert!(violations.len() >= 4);

    let rule_names: Vec<String> = violations.iter().map(|v| v.rule_name.clone()).collect();
    assert!(rule_names.contains(&"soroban-unused-state-variables".to_string()));
    assert!(rule_names.contains(&"soroban-inefficient-integers".to_string()));
    assert!(rule_names.contains(&"soroban-expensive-strings".to_string()));
}

#[test]
fn test_soroban_scanner_direct_analysis() {
    let contract_code = r#"
use soroban_sdk::{contract, contractimpl, contracttype, Address, Symbol};

#[contracttype]
pub struct EfficientContract {
    pub owner: Address,
    pub balance: u64,
}

#[contractimpl]
impl EfficientContract {
    pub fn new(owner: Address, initial_balance: u64) -> Result<Self, Error> {
        if initial_balance == 0 {
            return Err(Error::InvalidAmount);
        }
        
        Ok(Self {
            owner,
            balance: initial_balance,
        })
    }
    
    pub fn deposit(&mut self, amount: u64) -> Result<(), Error> {
        if amount == 0 {
            return Err(Error::InvalidAmount);
        }
        self.balance += amount;
        Ok(())
    }
    
    pub fn withdraw(&mut self, amount: u64) -> Result<(), Error> {
        if amount == 0 {
            return Err(Error::InvalidAmount);
        }
        if self.balance < amount {
            return Err(Error::InsufficientBalance);
        }
        self.balance -= amount;
        Ok(())
    }
}
"#;

    let engine = SorobanRuleEngine::with_default_rules();
    let violations = engine.analyze(contract_code, "efficient_contract.rs").unwrap();

    let critical_violations: Vec<_> = violations
        .iter()
        .filter(|v| matches!(v.severity, ViolationSeverity::Error | ViolationSeverity::Warning))
        .collect();

    assert!(critical_violations.len() <= 2);
}

#[test]
fn test_language_detection_heuristics() {
    let soroban_code = r#"
use soroban_sdk::{contract, contractimpl, contracttype};
#[contracttype]
pub struct Test {}
#[contractimpl]
impl Test {}
"#;

    let detected = Language::from_content(soroban_code);
    assert_eq!(detected, Some(Language::Soroban));

    let vyper_code = r#"
# @version ^0.3.0
interface Token:
    def transfer(_to: address, _value: uint256): nonpayable
"#;

    let detected = Language::from_content(vyper_code);
    assert_eq!(detected, Some(Language::Vyper));

    let rust_code = r#"
fn main() {
    println!("Hello, world!");
}
"#;

    let detected = Language::from_content(rust_code);
    assert_eq!(detected, Some(Language::Rust));
}

#[test]
fn language_from_extension_ignores_case() {
    assert_eq!(Language::from_extension("rs"), Some(Language::Rust));
    assert_eq!(Language::from_extension("RS"), Some(Language::Rust));
    assert_eq!(Language::from_extension("Vy"), Some(Language::Vyper));
    assert_eq!(Language::from_extension("sol"), None);
    assert_eq!(Language::from_lowercase_extension("VY"), None);
    assert_eq!(Language::from_content("plain text"), None);
}

const THREE_FIELDS: &str = "#[contracttype]\npub struct Store {\n    pub used: u64,\n    pub unused: u64,\n    pub also_used: u64,\n}\n\n#[contractimpl]\nimpl Store {\n    pub fn used(&self) -> u64 {\n        self.used\n    }\n    pub fn set_also_used(&mut self, v: u64) {\n        self.also_used = v;\n    }\n}\n";

#[test]
fn unused_rule_names_only_the_unused_field() {
    let engine = SorobanRuleEngine::new().add_rule(SorobanRule::UnusedStateVariables(
        UnusedStateVariablesRule::default(),
    ));
    let v = engine.analyze(THREE_FIELDS, "store.rs").unwrap();
    assert_eq!(v.len(), 1);
    assert_eq!(v[0].variable_name, "unused");
    assert_eq!(v[0].rule_name, "soroban-unused-state-variables");
    assert_eq!(v[0].severity, ViolationSeverity::Warning);
    assert_eq!(v[0].line_number, 4);
    assert_eq!(v[0].column_number, 1);
    assert_eq!(v[0].description, "State variable 'unused' is declared but never used");
}

#[test]
fn five_fields_three_unused() {
    let src = "#[contracttype]\npub struct Five {\n    a: u64,\n    b: u64,\n    c: u64,\n    d: u64,\n    e: u64,\n}\n#[contractimpl]\nimpl Five {\n    pub fn get_a(&self) -> u64 {\n        self.a\n    }\n    pub fn set_e(&mut self, v: u64) {\n        self.e = v;\n    }\n}\n";
    let engine = SorobanRuleEngine::new().add_rule(SorobanRule::UnusedStateVariables(
        UnusedStateVariablesRule::default(),
    ));
    let v = engine.analyze(src, "five.rs").unwrap();
    assert_eq!(v.len(), 3);
    let mut got = names(&v, "soroban-unused-state-variables");
    got.sort();
    assert_eq!(got, vec!["b", "c", "d"]);
}

#[test]
fn two_fields_both_used_gives_nothing() {
    let src = "#[contracttype]\npub struct Two {\n    x: u64,\n    y: u64,\n}\n#[contractimpl]\nimpl Two {\n    pub fn x(&self) -> u64 {\n        self.x\n    }\n    pub fn set_y(&mut self, v: u64) {\n        self.y = v;\n    }\n}\n";
    let engine = SorobanRuleEngine::new().add_rule(SorobanRule::UnusedStateVariables(
        UnusedStateVariablesRule::default(),
    ));
    assert!(engine.analyze(src, "two.rs").unwrap().is_empty());
}

#[test]
fn analysis_is_repeatable() {
    let engine = SorobanRuleEngine::with_default_rules();
    let a = engine.analyze(THREE_FIELDS, "store.rs").unwrap();
    let b = engine.analyze(THREE_FIELDS, "store.rs").unwrap();
    assert_eq!(a, b);
}

#[test]
fn analyze_propagates_parse_errors() {
    let engine = SorobanRuleEngine::with_default_rules();
    let r = engine.analyze("struct Plain {}\n", "plain.rs");
    assert!(matches!(r, Err(SorobanParseError::MissingMacro(_))));
}

#[test]
fn engine_output_follows_registration_order() {
    let src = "#[contracttype]\npub struct W {\n    big: u128,\n}\n#[contractimpl]\nimpl W {\n    pub fn run(&self, items: Vec<u64>) {\n        for i in items.iter() {\n            let _ = i;\n        }\n    }\n}\n";
    let engine = SorobanRuleEngine::new()
        .add_rule(SorobanRule::InefficientIntegers(InefficientIntegersRule::default()))
        .add_rule(SorobanRule::UnboundedLoop(UnboundedLoopRule::default()))
        .add_rule(SorobanRule::UnusedStateVariables(UnusedStateVariablesRule::default()));
    let v = engine.analyze(src, "w.rs").unwrap();
    let rules: Vec<&str> = v.iter().map(|x| x.rule_name.as_str()).collect();
    assert_eq!(
        rules,
        vec!["soroban-inefficient-integers", "soroban-unbounded-loop", "soroban-unused-state-variables"]
    );
    assert_eq!(v[1].variable_name, "items");
    assert_eq!(v[1].line_number, 7);
}

#[test]
fn disabled_rule_reports_nothing() {
    let mut rule = UnusedStateVariablesRule::default();
    rule.enabled = false;
    let engine = SorobanRuleEngine::new().add_rule(SorobanRule::UnusedStateVariables(rule));
    assert!(engine.analyze(THREE_FIELDS, "store.rs").unwrap().is_empty());
}

#[test]
fn severity_override_is_kept() {
    let rule = UnusedStateVariablesRule { severity: ViolationSeverity::Error, enabled: true };
    let engine = SorobanRuleEngine::new().add_rule(SorobanRule::UnusedStateVariables(rule));
    let v = engine.analyze(THREE_FIELDS, "store.rs").unwrap();
    assert_eq!(v[0].severity, ViolationSeverity::Error);
}

#[test]
fn loop_with_length_check_is_not_flagged() {
    let src = "#[contracttype]\npub struct L {\n    n: u64,\n}\n#[contractimpl]\nimpl L {\n    pub fn run(&self, items: Vec<u64>) {\n        if items.len() > 10 { panic!() }\n        for i in items.iter() {\n            self.n;\n        }\n    }\n}\n";
    let engine = SorobanRuleEngine::new().add_rule(SorobanRule::UnboundedLoop(UnboundedLoopRule::default()));
    assert!(engine.analyze(src, "l.rs").unwrap().is_empty());
}

#[test]
fn repeated_storage_lookup_is_flagged() {
    let src = "#[contracttype]\npub struct S {\n    n: u64,\n}\n#[contractimpl]\nimpl S {\n    pub fn twice(env: Env) {\n        env.storage().instance().get(&1);\n        env.storage().instance().get(&2);\n    }\n    pub fn cached(env: Env) {\n        let st = env.storage().instance();\n        st.get(&1);\n        st.get(&2);\n    }\n}\n";
    let engine = SorobanRuleEngine::with_default_rules();
    let v = engine.analyze(src, "s.rs").unwrap();
    let flagged = names(&v, "soroban-repeated-storage-access");
    assert_eq!(flagged, vec!["twice"]);
}

#[test]
fn string_building_and_string_fields_are_flagged() {
    let src = "#[contracttype]\npub struct T {\n    label: String,\n}\n#[contractimpl]\nimpl T {\n    pub fn greet(&self) -> String {\n        format!(\"hi {}\", self.label)\n    }\n}\n";
    let engine = SorobanRuleEngine::with_default_rules();
    let v = engine.analyze(src, "t.rs").unwrap();
    assert_eq!(names(&v, "soroban-expensive-strings"), vec!["label", "greet"]);
}

#[test]
fn degenerate_contract_yields_no_violations() {
    let src = "#[contract]\npub struct Empty;\n";
    let c = SorobanParser::parse_contract(src, "e.rs").unwrap();
    assert_eq!(c.name, "Empty");
    assert!(c.contract_types[0].fields.is_empty());
    let engine = SorobanRuleEngine::with_default_rules();
    assert!(engine.analyze_contract(&c).is_empty());
}

fn unused_only() -> SorobanRuleEngine {
    SorobanRuleEngine::new().add_rule(SorobanRule::UnusedStateVariables(UnusedStateVariablesRule::default()))
}

#[test]
fn constructor_initializer_alone_is_not_a_use() {
    let contract_code = r#"
use soroban_sdk::{contract, contractimpl, contracttype, Address, Env};

#[contracttype]
pub struct TestContract {
    pub used_var: u64,
    pub unused_var: String,
    pub another_used: bool,
}

#[contractimpl]
impl TestContract {
    pub fn new() -> Self {
        Self {
            used_var: 42,
            another_used: true,
            unused_var: "never_used".to_string(),
        }
    }
    
    pub fn get_used_var(&self) -> u64 {
        self.used_var
    }
    
    pub fn set_another_used(&mut self, value: bool) {
        self.another_used = value;
    }
}
"#;
    let v = unused_only().analyze(contract_code, "test_contract.rs").unwrap();
    assert_eq!(v.len(), 1);
    assert_eq!(v[0].variable_name, "unused_var");
    assert_eq!(v[0].rule_name, "soroban-unused-state-variables");
}

#[test]
fn shorthand_initializer_counts_as_use() {
    let contract_code = r#"
use soroban_sdk::{contract, contractimpl, contracttype, Address, Env};

#[contracttype]
pub struct OptimizedContract {
    pub counter: u64,
    pub owner: Address,
}

#[contractimpl]
impl OptimizedContract {
    pub fn new(owner: Address) -> Self {
        Self {
            counter: 0,
            owner,
        }
    }
    
    pub fn increment(&mut self) {
        self.counter += 1;
    }
    
    pub fn get_owner(&self) -> &Address {
        &self.owner
    }
}
"#;
    let v = SorobanRuleEngine::with_default_rules().analyze(contract_code, "optimized_contract.rs").unwrap();
    assert_eq!(v.len(), 0);
}

#[test]
fn wasteful_contract_three_unused_fields() {
    let contract_code = r#"
use soroban_sdk::{contract, contractimpl, contracttype, Address, Env};

#[contracttype]
pub struct WastefulContract {
    pub used_var: u64,
    pub unused1: String,
    pub unused2: bool,
    pub unused3: Address,
    pub also_used: u32,
}

#[contractimpl]
impl WastefulContract {
    pub fn new() -> Self {
        Self {
            used_var: 42,
            also_used: 100,
            unused1: "unused".to_string(),
            unused2: false,
            unused3: Address::generate(&Env::default()),
        }
    }
    
    pub fn get_used_var(&self) -> u64 {
        self.used_var
    }
    
    pub fn get_also_used(&self) -> u32 {
        self.also_used
    }
}
"#;
    let v = unused_only().analyze(contract_code, "wasteful_contract.rs").unwrap();
    assert_eq!(v.len(), 3);
    let got: Vec<String> = v.iter().map(|x| x.variable_name.clone()).collect();
    assert_eq!(got, vec!["unused1", "unused2", "unused3"]);
    assert_eq!(v[0].line_number, 7);
}

#[test]
fn self_access_must_end_the_name() {
    let src = "#[contracttype]\npub struct P {\n    count: u64,\n}\n#[contractimpl]\nimpl P {\n    pub fn f(&self) -> u64 {\n        self.counter\n    }\n}\n";
    let v = unused_only().analyze(src, "p.rs").unwrap();
    assert_eq!(v.len(), 1);
    assert_eq!(v[0].variable_name, "count");
}

#[test]
fn length_check_after_the_loop_does_not_count() {
    let src = "#[contracttype]\npub struct L {\n    n: u64,\n}\n#[contractimpl]\nimpl L {\n    pub fn run(&self, items: Vec<u64>) {\n        for i in items.iter() {\n            self.n;\n        }\n        let _ = items.len();\n    }\n}\n";
    let engine = SorobanRuleEngine::new().add_rule(SorobanRule::UnboundedLoop(UnboundedLoopRule::default()));
    let v = engine.analyze(src, "l.rs").unwrap();
    assert_eq!(names(&v, "soroban-unbounded-loop"), vec!["items"]);
}

#[test]
fn different_storage_lookups_are_not_repeats() {
    let src = "#[contracttype]\npub struct S {\n    n: u64,\n}\n#[contractimpl]\nimpl S {\n    pub fn mixed(env: Env) {\n        env.storage().instance().get(&1);\n        env.storage().persistent().get(&2);\n    }\n}\n";
    let v = SorobanRuleEngine::with_default_rules().analyze(src, "s.rs").unwrap();
    assert!(names(&v, "soroban-repeated-storage-access").is_empty());
}

#[test]
fn explicit_style_tag_wins_over_content() {
    assert_eq!(Language::resolve(Some(Language::Vyper), "fn main() {}"), Some(Language::Vyper));
    assert_eq!(Language::resolve(None, "fn main() {}"), Some(Language::Rust));
    assert_eq!(Language::resolve(None, "nothing"), None);
}
