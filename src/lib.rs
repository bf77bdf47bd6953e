//! Static analysis of Soroban smart-contract source text for gas and storage
//! inefficiencies: a tolerant structural parser, a catalog of textual rules,
//! and an engine that runs them in order.
pub mod text;
pub mod model;
pub mod brackets;
pub mod parser;
pub mod rules;
pub mod engine;
pub mod language;
pub mod laws;

pub use engine::{
    ExpensiveStringsRule, InefficientIntegersRule, RepeatedStorageAccessRule, SorobanAnalyzer,
    SorobanRule, SorobanRuleEngine, UnboundedLoopRule, UnusedStateVariablesRule,
};
pub use language::Language;
pub use model::{
    FieldVisibility, FunctionVisibility, RuleViolation, SorobanContract, SorobanField,
    SorobanFunction, SorobanImpl, SorobanParam, SorobanParseError, SorobanResult, SorobanStruct,
    ViolationSeverity,
};
pub use parser::SorobanParser;
