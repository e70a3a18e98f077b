use txn_pipeline::errors::PipelineError;
use txn_pipeline::ids::{
    AccountAddress, ByteCodeOrScriptFunction, FunctionId, Identifier, ModuleId,
};

#[test]
fn test_script_data() {
    let script_function: ByteCodeOrScriptFunction = "0x1::M::func1".parse().unwrap();
    assert!(matches!(
        script_function,
        ByteCodeOrScriptFunction::ScriptFunction { .. }
    ));
    if let ByteCodeOrScriptFunction::ScriptFunction(FunctionId { module, function }) =
        script_function
    {
        assert_eq!(*module.address(), "0x1".parse::<AccountAddress>().unwrap());
        assert_eq!(module.name().as_str(), "M");
        assert_eq!(function.as_str(), "func1");
    }

    let bytecode: ByteCodeOrScriptFunction = "0x123432ab34".parse().unwrap();
    assert!(matches!(bytecode, ByteCodeOrScriptFunction::ByteCode(_)));
}

#[test]
fn address_parse_accepts_short_and_full_forms() {
    let a = AccountAddress::parse("0x1").unwrap();
    let mut expected = vec![0u8; 16];
    expected[15] = 1;
    assert_eq!(a.as_bytes(), &expected);

    let full = AccountAddress::parse("0x00000000000000000000000000000001").unwrap();
    assert_eq!(full, a);

    let bare = AccountAddress::parse("00000000000000000000000000000001").unwrap();
    assert_eq!(bare, a);
}

#[test]
fn address_parse_rejects_malformed_literals() {
    assert!(AccountAddress::parse("0x").is_err());
    assert!(AccountAddress::parse("1").is_err());
    assert!(AccountAddress::parse("0xzz").is_err());
    // 33 hex digits: one past the address width
    assert!(AccountAddress::parse("0x123456789012345678901234567890123").is_err());
}

#[test]
fn address_display_is_short_lowercase() {
    let a = AccountAddress::parse("0x1").unwrap();
    assert_eq!(a.to_literal_string(), "0x1");
    let b = AccountAddress::parse("0xAB00").unwrap();
    assert_eq!(b.to_literal_string(), "0xab00");
    let zero = AccountAddress::parse("0x0").unwrap();
    assert_eq!(zero.to_literal_string(), "0x0");
}

#[test]
fn function_reference_parse_display_idempotence() {
    let text = "0x1::Account::create_account";
    let parsed = FunctionId::parse(text).unwrap();
    assert_eq!(parsed.to_literal_string(), text);
}

#[test]
fn function_reference_splits_on_last_separator() {
    let f = FunctionId::parse("0x1::M::func1").unwrap();
    assert_eq!(f.module.address().to_literal_string(), "0x1");
    assert_eq!(f.module.name().as_str(), "M");
    assert_eq!(f.function.as_str(), "func1");
}

#[test]
fn function_reference_rejects_malformed_input() {
    assert_eq!(FunctionId::parse("no_separator"), Err(PipelineError::DecodeError));
    assert_eq!(FunctionId::parse("0x1::M"), Err(PipelineError::DecodeError));
    assert_eq!(FunctionId::parse("0x1::M::"), Err(PipelineError::DecodeError));
    assert_eq!(FunctionId::parse("::M::f"), Err(PipelineError::DecodeError));
    assert_eq!(FunctionId::parse("0x1::M::9bad"), Err(PipelineError::DecodeError));
}

#[test]
fn module_reference_round_trips() {
    let m = ModuleId::parse("0x1::Account").unwrap();
    assert_eq!(m.to_literal_string(), "0x1::Account");
    assert!(ModuleId::parse("0x1::A::B").is_err());
    assert!(ModuleId::parse("0x1").is_err());
}

#[test]
fn discriminator_sorts_hex_from_references() {
    // a hex body never contains `::`, a reference always does
    let b = ByteCodeOrScriptFunction::parse("0x1234ab").unwrap();
    assert_eq!(b, ByteCodeOrScriptFunction::ByteCode(vec![0x12, 0x34, 0xab]));
    let f = ByteCodeOrScriptFunction::parse("0x1::M::f").unwrap();
    assert!(matches!(f, ByteCodeOrScriptFunction::ScriptFunction(_)));
}

#[test]
fn bytecode_or_function_round_trips_both_ways() {
    let b = ByteCodeOrScriptFunction::ByteCode(vec![0x12, 0x34, 0xab, 0x34]);
    let rendered = b.to_literal_string();
    assert_eq!(rendered, "0x1234ab34");
    assert_eq!(ByteCodeOrScriptFunction::parse(&rendered).unwrap(), b);

    let f = ByteCodeOrScriptFunction::ScriptFunction(FunctionId::parse("0x1::M::f").unwrap());
    let rendered = f.to_literal_string();
    assert_eq!(rendered, "0x1::M::f");
    assert_eq!(ByteCodeOrScriptFunction::parse(&rendered).unwrap(), f);
}

#[test]
fn identifier_grammar_is_enforced() {
    assert!(Identifier::new("create_account".to_string()).is_ok());
    assert!(Identifier::new("_x".to_string()).is_ok());
    assert!(Identifier::new("A9".to_string()).is_ok());
    assert!(Identifier::new("".to_string()).is_err());
    assert!(Identifier::new("_".to_string()).is_err());
    assert!(Identifier::new("9abc".to_string()).is_err());
    assert!(Identifier::new("with-dash".to_string()).is_err());
    assert!(Identifier::new("with space".to_string()).is_err());
}
