//! The contract model recovered by the parser, and the violation records the
//! rules produce.
use vstd::prelude::*;
use crate::text::{chars_of, concat3, string_of};

verus! {

/// A contract recovered from source text.
#[derive(Debug, Clone, PartialEq)]
pub struct SorobanContract {
    /// Name of the first annotated type declaration.
    pub name: String,
    /// Type declarations marked `#[contracttype]` or `#[contract]`, in source order.
    pub contract_types: Vec<SorobanStruct>,
    /// Implementation blocks marked `#[contractimpl]`, in source order.
    pub implementations: Vec<SorobanImpl>,
    /// The raw source text.
    pub source: String,
    /// Label of the source (usually its path).
    pub file_path: String,
}

/// An annotated type declaration.
#[derive(Debug, Clone, PartialEq)]
pub struct SorobanStruct {
    pub name: String,
    /// Fields in declaration order.
    pub fields: Vec<SorobanField>,
    /// 1-based line of the declaration header.
    pub line_number: usize,
    /// The declaration's lines joined by newlines.
    pub raw_definition: String,
}

/// A field of a type declaration; its type is kept as raw text.
#[derive(Debug, Clone, PartialEq)]
pub struct SorobanField {
    pub name: String,
    pub type_text: String,
    pub visibility: FieldVisibility,
    pub line_number: usize,
}

#[derive(Debug, Clone, Copy, PartialEq, Eq)]
pub enum FieldVisibility {
    Public,
    Private,
}

/// An annotated implementation block.
#[derive(Debug, Clone, PartialEq)]
pub struct SorobanImpl {
    /// The type the block implements.
    pub target: String,
    pub functions: Vec<SorobanFunction>,
    /// 1-based line of the `impl` header.
    pub line_number: usize,
    pub raw_definition: String,
}

/// A function of an implementation block.
#[derive(Debug, Clone, PartialEq)]
pub struct SorobanFunction {
    pub name: String,
    /// Parameters other than the receiver, in order.
    pub params: Vec<SorobanParam>,
    /// Raw return-type text, when the signature has an arrow.
    pub return_type: Option<String>,
    pub visibility: FunctionVisibility,
    pub is_constructor: bool,
    /// 1-based line of the signature's first line.
    pub line_number: usize,
    /// Signature and body, lines joined by newlines.
    pub raw_definition: String,
}

#[derive(Debug, Clone, PartialEq)]
pub struct SorobanParam {
    pub name: String,
    pub type_text: String,
}

#[derive(Debug, Clone, Copy, PartialEq, Eq)]
pub enum FunctionVisibility {
    Public,
    Private,
}

/// Why a parse failed.
#[derive(Debug, Clone, PartialEq)]
pub enum SorobanParseError {
    ParseError(String),
    /// No annotated type declaration, so the contract has no name.
    MissingMacro(String),
    /// A block was opened and never closed.
    InvalidStructure(String),
    /// Reading the source failed (raised by callers that read files).
    IoError(String),
}

pub type SorobanResult<T> = Result<T, SorobanParseError>;

impl SorobanParseError {
    pub fn parse_error(msg: &str) -> (r: Self)
        ensures
            r matches SorobanParseError::ParseError(m) && m@ == msg@,
    {
        let v = chars_of(msg);
        SorobanParseError::ParseError(string_of(&v))
    }

    pub fn missing_macro(msg: &str) -> (r: Self)
        ensures
            r matches SorobanParseError::MissingMacro(m) && m@ == msg@,
    {
        let v = chars_of(msg);
        SorobanParseError::MissingMacro(string_of(&v))
    }

    pub fn invalid_structure(msg: &str) -> (r: Self)
        ensures
            r matches SorobanParseError::InvalidStructure(m) && m@ == msg@,
    {
        let v = chars_of(msg);
        SorobanParseError::InvalidStructure(string_of(&v))
    }

    pub fn io_error(msg: &str) -> (r: Self)
        ensures
            r matches SorobanParseError::IoError(m) && m@ == msg@,
    {
        let v = chars_of(msg);
        SorobanParseError::IoError(string_of(&v))
    }

    /// The human-readable message: a prefix naming the kind of failure,
    /// then the detail.
    pub fn message(&self) -> (r: String)
        ensures
            r@ == error_message(*self),
    {
        let (prefix, detail) = match self {
            SorobanParseError::ParseError(m) => ("Failed to parse Soroban contract: ", m),
            SorobanParseError::MissingMacro(m) => ("Missing required Soroban macro: ", m),
            SorobanParseError::InvalidStructure(m) => ("Invalid contract structure: ", m),
            SorobanParseError::IoError(m) => ("IO error: ", m),
        };
        let d = chars_of(detail.as_str());
        proof {
            reveal_strlit("");
        }
        let all = concat3(prefix, &d, "");
        assert(all@ =~= prefix@ + detail@);
        string_of(&all)
    }
}

pub open spec fn error_message(e: SorobanParseError) -> Seq<char> {
    match e {
        SorobanParseError::ParseError(m) => "Failed to parse Soroban contract: "@ + m@,
        SorobanParseError::MissingMacro(m) => "Missing required Soroban macro: "@ + m@,
        SorobanParseError::InvalidStructure(m) => "Invalid contract structure: "@ + m@,
        SorobanParseError::IoError(m) => "IO error: "@ + m@,
    }
}

#[derive(Debug, Clone, Copy, PartialEq, Eq)]
pub enum ViolationSeverity {
    Error,
    Warning,
    Info,
}

/// A located finding of one rule.
#[derive(Debug, Clone, PartialEq)]
pub struct RuleViolation {
    pub rule_name: String,
    pub description: String,
    pub severity: ViolationSeverity,
    pub line_number: usize,
    pub column_number: usize,
    pub variable_name: String,
    pub suggestion: String,
}

/// The content of a violation, as plain values.
pub struct ViolationView {
    pub rule_name: Seq<char>,
    pub description: Seq<char>,
    pub severity: ViolationSeverity,
    pub line_number: usize,
    pub column_number: usize,
    pub variable_name: Seq<char>,
    pub suggestion: Seq<char>,
}

impl View for RuleViolation {
    type V = ViolationView;

    open spec fn view(&self) -> ViolationView {
        ViolationView {
            rule_name: self.rule_name@,
            description: self.description@,
            severity: self.severity,
            line_number: self.line_number,
            column_number: self.column_number,
            variable_name: self.variable_name@,
            suggestion: self.suggestion@,
        }
    }
}

/// The views of a sequence of violations.
pub open spec fn views(v: Seq<RuleViolation>) -> Seq<ViolationView> {
    v.map_values(|x: RuleViolation| x@)
}

} // verus!
