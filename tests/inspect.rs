use module_inspector::format::format_signature_token;
use module_inspector::inspect::{inspect_function, inspect_module};
use module_inspector::model::{
    FunctionDefinition, FunctionHandle, InspectionError, Instruction, Module, ModuleHandle,
    ModuleTables, Resource, SignatureToken, StructDefinition, StructHandle, Visibility,
};
use module_inspector::resolve::{resolve_function, resolve_struct};
use module_inspector::text::{address_to_hex, decimal};

fn ids(names: &[&str]) -> Vec<String> {
    names.iter().map(|s| s.to_string()).collect()
}

/// One module `m` at 0xABC with resources `R` and `S`, and a second module
/// `coin` at 0x1 with resource `Coin`. Function handles: 0 `main` in `m`,
/// 1 `transfer` in `m`, 2 `burn` in `coin`, 3 `native_fn` in `m`.
/// Signatures: 0 empty, 1 (U64, Address), 2 (Bool).
fn tables() -> ModuleTables {
    ModuleTables {
        module_handles: vec![
            ModuleHandle { address: 0, name: 0 },
            ModuleHandle { address: 1, name: 5 },
        ],
        struct_handles: vec![
            StructHandle { module: 0, name: 1 },
            StructHandle { module: 0, name: 6 },
            StructHandle { module: 1, name: 7 },
        ],
        function_handles: vec![
            FunctionHandle { module: 0, name: 2, parameters: 0, return_: 0 },
            FunctionHandle { module: 0, name: 3, parameters: 0, return_: 0 },
            FunctionHandle { module: 1, name: 8, parameters: 0, return_: 0 },
            FunctionHandle { module: 0, name: 4, parameters: 1, return_: 2 },
        ],
        struct_defs: vec![
            StructDefinition { struct_handle: 0 },
            StructDefinition { struct_handle: 1 },
            StructDefinition { struct_handle: 2 },
        ],
        signatures: vec![
            vec![],
            vec![SignatureToken::U64, SignatureToken::Address],
            vec![SignatureToken::Bool],
        ],
        identifiers: ids(&["m", "R", "main", "transfer", "native_fn", "coin", "S", "Coin", "burn"]),
        address_identifiers: vec![vec![0x0a, 0xbc], vec![0, 0, 0, 1]],
    }
}

fn def(function: u16, visibility: Visibility, is_entry: bool, code: Option<Vec<Instruction>>) -> FunctionDefinition {
    FunctionDefinition { function, visibility, is_entry, code }
}

fn resource(addr: &str, module: &str, name: &str) -> Resource {
    Resource {
        module_addr: addr.to_string(),
        module_name: module.to_string(),
        resource_name: name.to_string(),
    }
}

fn module(defs: Vec<FunctionDefinition>) -> Module {
    Module { tables: tables(), function_defs: defs }
}

#[test]
fn entry_function_reads_once_and_calls() {
    let m = module(vec![]);
    let f = def(
        0,
        Visibility::Public,
        true,
        Some(vec![
            Instruction::ImmBorrowGlobal(0),
            Instruction::Other,
            Instruction::ImmBorrowGlobal(0),
            Instruction::Call(1),
        ]),
    );
    let s = inspect_function(&m, &f).unwrap();
    assert_eq!(s.name, "main");
    assert_eq!(s.visibility, "Public");
    assert!(s.is_entry);
    assert_eq!(s.read_resources, vec![resource("0xabc", "m", "R")]);
    assert!(s.write_resources.is_empty());
    assert_eq!(s.called_functions, vec!["0xabc::transfer".to_string()]);
}

#[test]
fn native_function_signature_only() {
    let m = module(vec![]);
    let f = def(3, Visibility::Private, false, None);
    let s = inspect_function(&m, &f).unwrap();
    assert_eq!(s.name, "native_fn");
    assert_eq!(s.visibility, "Private");
    assert!(!s.is_entry);
    assert_eq!(s.params, vec!["U64".to_string(), "Address".to_string()]);
    assert_eq!(s.ret, vec!["Bool".to_string()]);
    assert!(s.generic_type_params.is_empty());
    assert!(s.read_resources.is_empty());
    assert!(s.write_resources.is_empty());
    assert!(s.called_functions.is_empty());
}

#[test]
fn accesses_sorted_without_repeats() {
    let m = module(vec![]);
    let f = def(
        0,
        Visibility::Friend,
        false,
        Some(vec![
            Instruction::MutBorrowGlobal(1),
            Instruction::Call(2),
            Instruction::MutBorrowGlobal(2),
            Instruction::ImmBorrowGlobal(1),
            Instruction::MutBorrowGlobal(0),
            Instruction::Call(1),
            Instruction::MutBorrowGlobal(1),
            Instruction::Call(2),
            Instruction::ImmBorrowGlobal(0),
            Instruction::ImmBorrowGlobal(1),
        ]),
    );
    let s = inspect_function(&m, &f).unwrap();
    assert_eq!(s.visibility, "Friend");
    assert_eq!(s.read_resources, vec![resource("0xabc", "m", "R"), resource("0xabc", "m", "S")]);
    assert_eq!(
        s.write_resources,
        vec![resource("0x1", "coin", "Coin"), resource("0xabc", "m", "R"), resource("0xabc", "m", "S")]
    );
    assert_eq!(
        s.called_functions,
        vec!["0x1::burn".to_string(), "0xabc::transfer".to_string()]
    );
}

#[test]
fn invalid_struct_definition_fails() {
    let m = module(vec![]);
    let f = def(0, Visibility::Public, false, Some(vec![Instruction::ImmBorrowGlobal(9)]));
    assert_eq!(inspect_function(&m, &f), Err(InspectionError::InvalidHandle));
}

#[test]
fn invalid_call_target_fails() {
    let m = module(vec![]);
    let f = def(0, Visibility::Public, false, Some(vec![Instruction::Call(40)]));
    assert_eq!(inspect_function(&m, &f), Err(InspectionError::InvalidHandle));
}

#[test]
fn invalid_function_handle_fails() {
    let m = module(vec![]);
    let f = def(17, Visibility::Public, false, None);
    assert_eq!(inspect_function(&m, &f), Err(InspectionError::InvalidHandle));
}

#[test]
fn invalid_signature_fails() {
    let mut t = tables();
    t.function_handles.push(FunctionHandle { module: 0, name: 2, parameters: 7, return_: 0 });
    let m = Module { tables: t, function_defs: vec![] };
    let f = def(4, Visibility::Public, false, None);
    assert_eq!(inspect_function(&m, &f), Err(InspectionError::InvalidHandle));
}

#[test]
fn invalid_struct_handle_fails() {
    let mut t = tables();
    t.struct_defs.push(StructDefinition { struct_handle: 30 });
    assert_eq!(resolve_struct(&t, 3), Err(InspectionError::InvalidHandle));
}

#[test]
fn invalid_module_handle_fails() {
    let mut t = tables();
    t.function_handles.push(FunctionHandle { module: 8, name: 3, parameters: 0, return_: 0 });
    assert_eq!(resolve_function(&t, 4), Err(InspectionError::InvalidHandle));
}

#[test]
fn resolve_names() {
    let t = tables();
    assert_eq!(resolve_struct(&t, 2), Ok(resource("0x1", "coin", "Coin")));
    assert_eq!(resolve_function(&t, 2), Ok("0x1::burn".to_string()));
}

#[test]
fn format_nested_vector() {
    let t = SignatureToken::Vector(Box::new(SignatureToken::Vector(Box::new(SignatureToken::U8))));
    assert_eq!(format_signature_token(&t), "Vector(Vector(U8))");
    assert_eq!(format_signature_token(&t), format_signature_token(&t));
}

#[test]
fn format_every_tag() {
    let cases: Vec<(SignatureToken, &str)> = vec![
        (SignatureToken::Bool, "Bool"),
        (SignatureToken::U8, "U8"),
        (SignatureToken::U64, "U64"),
        (SignatureToken::U128, "U128"),
        (SignatureToken::Address, "Address"),
        (SignatureToken::Signer, "Signer"),
        (SignatureToken::Struct(3), "Struct(3)"),
        (SignatureToken::TypeParameter(12), "TypeParameter(12)"),
        (SignatureToken::Reference(Box::new(SignatureToken::Signer)), "Reference(Signer)"),
        (
            SignatureToken::MutableReference(Box::new(SignatureToken::Struct(0))),
            "MutableReference(Struct(0))",
        ),
        (SignatureToken::StructInstantiation(5, vec![]), "StructInstantiation(5, [])"),
        (
            SignatureToken::StructInstantiation(
                250,
                vec![
                    SignatureToken::U64,
                    SignatureToken::Vector(Box::new(SignatureToken::TypeParameter(0))),
                    SignatureToken::StructInstantiation(1, vec![SignatureToken::Bool]),
                ],
            ),
            "StructInstantiation(250, [U64, Vector(TypeParameter(0)), StructInstantiation(1, [Bool])])",
        ),
    ];
    for (t, want) in cases {
        assert_eq!(format_signature_token(&t), want);
    }
}

#[test]
fn decimal_text() {
    assert_eq!(decimal(0), "0");
    assert_eq!(decimal(7), "7");
    assert_eq!(decimal(10), "10");
    assert_eq!(decimal(65535), "65535");
}

#[test]
fn address_text() {
    assert_eq!(address_to_hex(&vec![0x0a, 0xbc]), "abc");
    assert_eq!(address_to_hex(&vec![0; 16]), "0");
    assert_eq!(address_to_hex(&vec![]), "0");
    let mut long = vec![0u8; 14];
    long.extend_from_slice(&[0xAB, 0xCD]);
    assert_eq!(address_to_hex(&long), "abcd");
    assert_eq!(address_to_hex(&vec![0xF0, 0x00, 0x01]), "f00001");
}

#[test]
fn module_keeps_declaration_order() {
    let good_a = def(3, Visibility::Private, false, None);
    let bad = def(0, Visibility::Public, true, Some(vec![Instruction::Call(99)]));
    let good_b = def(0, Visibility::Public, true, Some(vec![Instruction::Call(1)]));
    let out = inspect_module(&module(vec![good_b.clone(), bad.clone(), good_a.clone()]));
    let names: Vec<&str> = out.iter().map(|f| f.name.as_str()).collect();
    assert_eq!(names, vec!["main", "native_fn"]);
}

#[test]
fn dropping_malformed_function_changes_nothing() {
    let a = def(3, Visibility::Private, false, None);
    let bad = def(0, Visibility::Public, true, Some(vec![Instruction::MutBorrowGlobal(77)]));
    let b = def(0, Visibility::Public, true, Some(vec![Instruction::ImmBorrowGlobal(2), Instruction::Call(2)]));
    let with_bad = inspect_module(&module(vec![a.clone(), bad, b.clone()]));
    let without = inspect_module(&module(vec![a, b]));
    assert_eq!(with_bad.len(), 2);
    assert_eq!(with_bad, without);
}

#[test]
fn empty_module_has_no_summaries() {
    assert!(inspect_module(&module(vec![])).is_empty());
}
