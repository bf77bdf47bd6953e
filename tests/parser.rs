use gasguard::{FieldVisibility, FunctionVisibility, SorobanParseError, SorobanParser};

#[test]
fn test_soroban_struct_parsing() {
    let source = r#"
#[contracttype]
pub struct Token {
    pub admin: Address,
    pub total_supply: u64,
}
"#;

    let lines: Vec<&str> = source.lines().collect();
    let parser = SorobanParser;

    if let Ok(Some(struct_def)) = parser.parse_single_struct(&lines[1..], 2) {
        assert_eq!(struct_def.name, "Token");
        assert_eq!(struct_def.fields.len(), 2);
        assert_eq!(struct_def.fields[0].name, "admin");
        assert_eq!(struct_def.fields[0].type_text, "Address");
        assert_eq!(struct_def.fields[1].name, "total_supply");
        assert_eq!(struct_def.fields[1].type_text, "u64");
    } else {
        panic!("Failed to parse struct");
    }
}

#[test]
fn test_soroban_function_parsing() {
    let source = r#"
    pub fn transfer(from: Address, to: Address, amount: u64) -> Result<(), Error> {
        // Implementation here
    }
"#;

    let lines: Vec<&str> = source.lines().collect();
    let parser = SorobanParser;

    if let Ok(Some(function)) = parser.parse_function(&lines, 1) {
        assert_eq!(function.name, "transfer");
        assert_eq!(function.params.len(), 3);
        assert_eq!(function.params[0].name, "from");
        assert_eq!(function.params[0].type_text, "Address");
        assert_eq!(function.return_type, Some("Result<(), Error>".to_string()));
    } else {
        panic!("Failed to parse function");
    }
}

#[test]
fn test_field_visibility_detection() {
    let parser = SorobanParser;

    let pub_field = parser.parse_field("pub admin: Address", 1).unwrap().unwrap();
    assert_eq!(pub_field.visibility, FieldVisibility::Public);
    assert_eq!(pub_field.name, "admin");
    assert_eq!(pub_field.type_text, "Address");

    let priv_field = parser.parse_field("counter: u64", 1).unwrap().unwrap();
    assert_eq!(priv_field.visibility, FieldVisibility::Private);
    assert_eq!(priv_field.name, "counter");
    assert_eq!(priv_field.type_text, "u64");
}

#[test]
fn test_extract_between_parentheses() {
    let parser = SorobanParser;

    let result = parser.extract_between_parentheses("fn test(param1: u64, param2: String)");
    assert_eq!(result, Some("param1: u64, param2: String".to_string()));

    let result = parser.extract_between_parentheses("no parens here");
    assert_eq!(result, None);
}

#[test]
fn test_split_preserving_parentheses() {
    let parser = SorobanParser;

    let result = parser.split_preserving_parentheses("param1: u64, param2: (u32, String)", ',');
    assert_eq!(result.len(), 2);
    assert_eq!(result[0], "param1: u64");
    assert_eq!(result[1], "param2: (u32, String)");
}

#[test]
fn test_soroban_parse_error_handling() {
    let invalid_source = r#"
struct Test {
    field: u64,
}
"#;

    let result = SorobanParser::parse_contract(invalid_source, "invalid.rs");
    assert!(result.is_err());

    match result.unwrap_err() {
        SorobanParseError::MissingMacro(msg) => {
            assert!(msg.contains("contract name"));
        }
        _ => panic!("Expected MissingMacro error"),
    }
}

#[test]
fn test_soroban_parser_basic_contract() {
    let contract_code = r#"
use soroban_sdk::{contract, contractimpl, contracttype, Address, Env, Symbol};

#[contracttype]
pub struct TokenContract {
    pub admin: Address,
    pub total_supply: u64,
    pub balances: Map<Address, u64>,
}

#[contractimpl]
impl TokenContract {
    pub fn new(admin: Address, initial_supply: u64) -> Self {
        let mut balances = Map::new();
        balances.set(admin, initial_supply);
        
        Self {
            admin,
            total_supply: initial_supply,
            balances,
        }
    }
    
    pub fn transfer(env: Env, from: Address, to: Address, amount: u64) {
        let from_balance = env.storage().instance().get(&from).unwrap_or(0);
        let to_balance = env.storage().instance().get(&to).unwrap_or(0);
        
        env.storage().instance().set(&from, &(from_balance - amount));
        env.storage().instance().set(&to, &(to_balance + amount));
    }
}
"#;

    let contract = SorobanParser::parse_contract(contract_code, "token_contract.rs").unwrap();

    assert_eq!(contract.name, "TokenContract");
    assert_eq!(contract.contract_types.len(), 1);
    assert_eq!(contract.implementations.len(), 1);

    let contract_type = &contract.contract_types[0];
    assert_eq!(contract_type.name, "TokenContract");
    assert_eq!(contract_type.fields.len(), 3);

    let implementation = &contract.implementations[0];
    assert_eq!(implementation.functions.len(), 2);
    assert_eq!(implementation.functions[0].name, "new");
    assert_eq!(implementation.functions[1].name, "transfer");
}

#[test]
fn missing_declaration_without_any_marker() {
    let r = SorobanParser::parse_contract("fn helper() {}\n", "x.rs");
    assert!(matches!(r, Err(SorobanParseError::MissingMacro(_))));
    let r = SorobanParser::parse_contract("", "empty.rs");
    assert!(matches!(r, Err(SorobanParseError::MissingMacro(_))));
    // A marked impl block alone still leaves the contract without a name.
    let r = SorobanParser::parse_contract("#[contractimpl]\nimpl X {\n}\n", "x.rs");
    assert!(matches!(r, Err(SorobanParseError::MissingMacro(_))));
}

#[test]
fn unterminated_declaration_is_invalid_structure() {
    let src = "#[contracttype]\npub struct Open {\n    a: u64,\n";
    let r = SorobanParser::parse_contract(src, "open.rs");
    assert!(matches!(r, Err(SorobanParseError::InvalidStructure(_))));
}

#[test]
fn unterminated_function_body_is_invalid_structure() {
    let src = "#[contracttype]\npub struct A {\n    x: u64,\n}\n#[contractimpl]\nimpl A {\n    pub fn f(&self) {\n        self.x\n";
    let r = SorobanParser::parse_contract(src, "open.rs");
    assert!(matches!(r, Err(SorobanParseError::InvalidStructure(_))));
}

#[test]
fn multi_line_signature_with_nested_types() {
    let src = "#[contracttype]\npub struct Pool {\n    owner: Address,\n}\n\n#[contractimpl]\nimpl Pool {\n    pub fn swap(\n        env: Env,\n        pairs: Vec<(Address, u64)>,\n        limits: Map<Symbol, (u32, u32)>,\n    ) -> Result<(u64, u64), Error> {\n        Ok((0, 0))\n    }\n}\n";
    let c = SorobanParser::parse_contract(src, "pool.rs").unwrap();
    let f = &c.implementations[0].functions[0];
    assert_eq!(f.name, "swap");
    assert_eq!(f.params.len(), 3);
    assert_eq!(f.params[0].name, "env");
    assert_eq!(f.params[1].name, "pairs");
    assert_eq!(f.params[1].type_text, "Vec<(Address, u64)>");
    assert_eq!(f.params[2].name, "limits");
    assert_eq!(f.params[2].type_text, "Map<Symbol, (u32, u32)>");
    assert_eq!(f.return_type, Some("Result<(u64, u64), Error>".to_string()));
    assert_eq!(f.line_number, 8);
}

#[test]
fn field_lines_with_and_without_visibility() {
    let parser = SorobanParser;
    let f = parser.parse_field("    pub balances: Map<Address, u64>,", 7).unwrap().unwrap();
    assert_eq!(f.visibility, FieldVisibility::Public);
    assert_eq!(f.name, "balances");
    assert_eq!(f.type_text, "Map<Address, u64>");
    assert_eq!(f.line_number, 7);
    let g = parser.parse_field("  owner : Address ,", 3).unwrap().unwrap();
    assert_eq!(g.visibility, FieldVisibility::Private);
    assert_eq!(g.name, "owner");
    assert_eq!(g.type_text, "Address");
    assert!(parser.parse_field("// owner: Address", 1).unwrap().is_none());
    assert!(parser.parse_field("", 1).unwrap().is_none());
    assert!(parser.parse_field("no colon here", 1).unwrap().is_none());
}

#[test]
fn constructor_flag_only_on_constructor() {
    let src = "#[contracttype]\npub struct Counter {\n    count: u64,\n}\n#[contractimpl]\nimpl Counter {\n    pub fn new() -> Self {\n        Self { count: 0 }\n    }\n    pub fn get(&self) -> u64 {\n        self.count\n    }\n}\n";
    let c = SorobanParser::parse_contract(src, "counter.rs").unwrap();
    let fs = &c.implementations[0].functions;
    assert_eq!(fs.len(), 2);
    assert!(fs[0].is_constructor);
    assert!(!fs[1].is_constructor);
    assert_eq!(fs[0].visibility, FunctionVisibility::Public);
    assert_eq!(fs[0].params.len(), 0);
    assert_eq!(fs[1].params.len(), 0);
}

#[test]
fn extraction_none_for_unbalanced_brackets() {
    let parser = SorobanParser;
    assert_eq!(parser.extract_between_parentheses("fn f(a: Vec<u8>"), None);
    assert_eq!(parser.extract_between_parentheses("f(a, (b, c)"), None);
    assert_eq!(
        parser.extract_between_parentheses("f(a: (u8, u8), b) -> u8"),
        Some("a: (u8, u8), b".to_string())
    );
    assert_eq!(parser.extract_between_parentheses("f()"), Some(String::new()));
}

#[test]
fn split_keeps_nested_groups_whole() {
    let parser = SorobanParser;
    let r = parser.split_preserving_parentheses("a: Map<K, V>, b: [u8; 4], c: (u8, (u16, u32))", ',');
    assert_eq!(r, vec!["a: Map<K, V>", "b: [u8; 4]", "c: (u8, (u16, u32))"]);
    let r = parser.split_preserving_parentheses("(x, y)", ',');
    assert_eq!(r, vec!["(x, y)"]);
    let r = parser.split_preserving_parentheses("", ',');
    assert!(r.is_empty());
    let r = parser.split_preserving_parentheses("a,, b,", ',');
    assert_eq!(r, vec!["a", "b"]);
}

#[test]
fn struct_and_impl_line_numbers_and_targets() {
    let src = "use soroban_sdk::contracttype;\n\n#[contracttype]\n#[derive(Clone)]\npub struct Vault {\n    pub owner: Address,\n}\n\n#[contractimpl]\nimpl VaultTrait for Vault {\n    fn owner(&self) -> Address {\n        self.owner.clone()\n    }\n}\n";
    let c = SorobanParser::parse_contract(src, "vault.rs").unwrap();
    assert_eq!(c.name, "Vault");
    assert_eq!(c.file_path, "vault.rs");
    assert_eq!(c.source, src);
    assert_eq!(c.contract_types[0].line_number, 5);
    assert_eq!(c.contract_types[0].fields[0].line_number, 6);
    assert_eq!(c.implementations[0].target, "Vault");
    assert_eq!(c.implementations[0].line_number, 10);
    assert_eq!(c.implementations[0].functions[0].visibility, FunctionVisibility::Private);
}

#[test]
fn error_constructors_and_messages() {
    let e = SorobanParseError::missing_macro("contract name unknown");
    assert_eq!(e, SorobanParseError::MissingMacro("contract name unknown".to_string()));
    assert_eq!(e.message(), "Missing required Soroban macro: contract name unknown");
    let e = SorobanParseError::invalid_structure("open brace");
    assert_eq!(e.message(), "Invalid contract structure: open brace");
    let e = SorobanParseError::parse_error("bad");
    assert_eq!(e.message(), "Failed to parse Soroban contract: bad");
    let e = SorobanParseError::io_error("denied");
    assert_eq!(e, SorobanParseError::IoError("denied".to_string()));
    assert_eq!(e.message(), "IO error: denied");
}

#[test]
fn marked_block_inside_impl_does_not_hide_first_type() {
    let src = "#[contractimpl]\nimpl A {\n#[contracttype]\npub struct Inner {\n    v: u64,\n}\n}\n";
    let c = SorobanParser::parse_contract(src, "a.rs").unwrap();
    assert_eq!(c.name, "Inner");
    assert_eq!(c.contract_types.len(), 1);
    assert_eq!(c.contract_types[0].line_number, 4);
    assert_eq!(c.implementations.len(), 1);
}

#[test]
fn unbalanced_parameter_list_fails_structurally() {
    let src = "use soroban_sdk::{contractimpl, contracttype};\n#[contracttype]\npub struct T {\n    pub a: u64,\n}\n#[contractimpl]\nimpl T {\n    pub fn f(a: Vec<(u32, u64)>\n";
    let r = SorobanParser::parse_contract(src, "t.rs");
    assert!(matches!(r, Err(SorobanParseError::InvalidStructure(_))));
    let lines: Vec<&str> = src.lines().collect();
    let parser = SorobanParser;
    assert!(matches!(parser.parse_function(&lines, 7), Err(SorobanParseError::InvalidStructure(_))));
}

#[test]
fn missing_declaration_message_names_the_contract_name() {
    match SorobanParser::parse_contract("\nstruct Test {\n    field: u64,\n}\n", "invalid.rs") {
        Err(SorobanParseError::MissingMacro(msg)) => assert_eq!(
            msg,
            "could not determine contract name: no #[contracttype] or #[contract] type declaration"
        ),
        _ => panic!("expected a missing declaration"),
    }
}

#[test]
fn unterminated_single_struct_is_an_error() {
    let lines = vec!["#[contracttype]", "pub struct Open {", "    a: u64,"];
    let parser = SorobanParser;
    assert!(matches!(parser.parse_single_struct(&lines, 1), Err(SorobanParseError::InvalidStructure(_))));
    let lines = vec!["// note", "fn helper() {}"];
    assert!(matches!(parser.parse_single_struct(&lines, 1), Ok(None)));
}

#[test]
fn function_text_ends_at_its_closing_brace() {
    let src = "#[contracttype]\npub struct T {\n    a: u64,\n}\n#[contractimpl]\nimpl T {\n    pub fn get(&self) -> u64 {\n        self.a\n    }\n    pub fn other(&self) {}\n}\n";
    let c = SorobanParser::parse_contract(src, "t.rs").unwrap();
    let fs = &c.implementations[0].functions;
    assert_eq!(fs.len(), 2);
    assert_eq!(fs[0].raw_definition, "    pub fn get(&self) -> u64 {\n        self.a\n    }");
    assert_eq!(fs[1].raw_definition, "    pub fn other(&self) {}");
}
