use transpiler::extract::extract;
use transpiler::ipr::{parse_type, ProgramAccount, TranspileError, TypeTag};
use transpiler::model::{
    ClassDecl, ClassMember, DefaultExportKind, ImportDecl, InputModule, InterfaceDecl, ModuleItem,
    NamedExportKind, PrimType, TypedName,
};
use transpiler::populate::build_program;
use transpiler::transpiler::transpile;

fn field(name: &str, ty_name: &str) -> TypedName {
    TypedName { name: name.to_string(), ty_name: ty_name.to_string() }
}

fn interface(name: &str, fields: Vec<TypedName>) -> ModuleItem {
    ModuleItem::Export(NamedExportKind::Interface(InterfaceDecl {
        name: name.to_string(),
        fields,
    }))
}

fn method(name: &str, params: Vec<TypedName>) -> ClassMember {
    ClassMember::Method { name: name.to_string(), params }
}

fn default_class(name: &str, members: Vec<ClassMember>) -> ModuleItem {
    ModuleItem::ExportDefault(DefaultExportKind::Class(ClassDecl {
        name: name.to_string(),
        members,
    }))
}

fn counter_module() -> InputModule {
    InputModule {
        body: vec![
            interface("Counter", vec![field("count", "u64")]),
            default_class(
                "CounterProgram",
                vec![
                    ClassMember::Property(field("counter", "Counter")),
                    method("increment", vec![field("by", "u64")]),
                ],
            ),
        ],
    }
}

#[test]
fn round_trip_shape() {
    let module = InputModule {
        body: vec![
            ModuleItem::Import(ImportDecl {
                src: "framework".to_string(),
                names: vec!["Account".to_string()],
            }),
            interface("Alpha", vec![field("x", "u64")]),
            interface("Beta", vec![field("y", "boolean")]),
            default_class(
                "Prog",
                vec![
                    ClassMember::Property(field("state", "Alpha")),
                    method("first", vec![field("a", "u64")]),
                    method("second", vec![field("b", "boolean")]),
                ],
            ),
        ],
    };
    let ex = extract(module).unwrap();
    assert_eq!(ex.custom_types.len(), 2);
    assert_eq!(ex.accounts.len(), 2);
    assert_eq!(ex.imports.len(), 1);
    assert_eq!(ex.imports[0].src, "framework");
    assert_eq!(ex.imports[0].names, vec!["Account".to_string()]);
    let p = build_program(ex).unwrap();
    assert_eq!(p.custom_types.len(), 2);
    assert_eq!(p.accounts.len(), 3);
    assert_eq!(p.instructions.len(), 2);
    assert_eq!(p.name, "Prog");
    assert!(p.custom_types.iter().any(|a| a.name == "Alpha"));
    assert!(p.custom_types.iter().any(|a| a.name == "Beta"));
    assert!(p.accounts.iter().any(|a| a.name == "Prog"));
}

#[test]
fn missing_program_class_rejected() {
    let module = InputModule { body: vec![interface("Counter", vec![field("count", "u64")])] };
    let r = transpile(module);
    assert_eq!(r, Err(TranspileError::MissingProgramClass));
}

#[test]
fn non_class_default_export_rejected() {
    let module = InputModule {
        body: vec![
            interface("Counter", vec![field("count", "u64")]),
            ModuleItem::ExportDefault(DefaultExportKind::Function),
        ],
    };
    assert_eq!(transpile(module), Err(TranspileError::InvalidDefaultExport));
    let module2 = InputModule {
        body: vec![ModuleItem::ExportDefault(DefaultExportKind::Other)],
    };
    assert_eq!(transpile(module2), Err(TranspileError::InvalidDefaultExport));
}

#[test]
fn non_interface_named_export_rejected() {
    let module = InputModule {
        body: vec![
            ModuleItem::Export(NamedExportKind::TypeAlias),
            default_class("Prog", vec![]),
        ],
    };
    assert_eq!(transpile(module), Err(TranspileError::InvalidNamedExport));
    let module2 = InputModule { body: vec![ModuleItem::Export(NamedExportKind::Enum)] };
    assert_eq!(transpile(module2), Err(TranspileError::InvalidNamedExport));
}

#[test]
fn unrecognized_item_rejected() {
    let module = InputModule { body: vec![ModuleItem::Unrecognized] };
    assert_eq!(transpile(module), Err(TranspileError::InvalidSyntax));
}

#[test]
fn unresolved_type_rejected() {
    let module = InputModule {
        body: vec![
            interface("Counter", vec![field("count", "u64")]),
            default_class("Prog", vec![method("go", vec![field("m", "Missing")])]),
        ],
    };
    assert_eq!(transpile(module), Err(TranspileError::UnresolvedType("Missing".to_string())));
}

#[test]
fn unresolved_property_type_rejected() {
    let module = InputModule {
        body: vec![default_class(
            "Prog",
            vec![ClassMember::Property(field("state", "Nowhere"))],
        )],
    };
    assert_eq!(transpile(module), Err(TranspileError::UnresolvedType("Nowhere".to_string())));
}

#[test]
fn unsupported_member_rejected() {
    let module = InputModule {
        body: vec![default_class("Prog", vec![ClassMember::Unsupported])],
    };
    assert_eq!(transpile(module), Err(TranspileError::InvalidClassMember));
}

#[test]
fn emission_deterministic() {
    let first = transpile(counter_module()).unwrap();
    let second = transpile(counter_module()).unwrap();
    assert_eq!(first, second);
}

#[test]
fn concrete_counter_scenario() {
    let ex = extract(counter_module()).unwrap();
    assert_eq!(ex.custom_types.len(), 1);
    assert_eq!(ex.accounts.len(), 1);
    assert_eq!(ex.custom_types[0].name, "Counter");
    assert_eq!(ex.custom_types[0].fields.len(), 1);
    assert_eq!(ex.custom_types[0].fields[0].name, "count");
    assert_eq!(ex.custom_types[0].fields[0].ty, TypeTag::Prim(PrimType::U64));
    assert_eq!(ex.accounts[0].name, "Counter");

    let p = build_program(extract(counter_module()).unwrap()).unwrap();
    assert_eq!(p.instructions.len(), 1);
    assert_eq!(p.instructions[0].name, "increment");
    assert_eq!(p.instructions[0].params.len(), 1);
    assert_eq!(p.instructions[0].params[0].name, "by");
    assert_eq!(p.instructions[0].params[0].ty, TypeTag::Prim(PrimType::U64));
    assert_eq!(p.instructions[0].bindings.len(), 1);
    assert_eq!(p.instructions[0].bindings[0].name, "counter");
    assert_eq!(p.instructions[0].bindings[0].account, "Counter");

    let out = transpile(counter_module()).unwrap();
    assert!(out.contains("struct Counter"));
    assert!(out.contains("count: u64"));
    assert!(out.contains("fn increment"));
    assert!(out.contains("by: u64"));
    assert!(out.contains("counter: &mut Counter"));
}

#[test]
fn formatter_reformats_emitted_stream() {
    let ex = extract(counter_module()).unwrap();
    let p = build_program(ex).unwrap();
    let raw = transpiler::emit::emit(&p);
    let formatted = transpile(counter_module()).unwrap();
    assert_ne!(raw, formatted);
    assert!(!raw.contains('\n'));
    assert!(formatted.contains('\n'));
}

#[test]
fn malformed_names_fail_formatting() {
    let module = InputModule {
        body: vec![
            interface("not a name", vec![field("count", "u64")]),
            default_class("Prog", vec![]),
        ],
    };
    match transpile(module) {
        Err(TranspileError::FormatFailure(_)) => {},
        other => panic!("expected a formatting failure, got {:?}", other),
    }
}

#[test]
fn duplicate_interface_first_in_source_wins() {
    // Stack traversal pops the last item first, so the declaration standing
    // earlier in the source is registered last and overwrites.
    let module = InputModule {
        body: vec![
            interface("A", vec![field("x", "u64")]),
            interface("A", vec![field("y", "boolean")]),
        ],
    };
    let ex = extract(module).unwrap();
    assert_eq!(ex.custom_types.len(), 1);
    assert_eq!(ex.custom_types[0].fields[0].name, "x");
    assert_eq!(ex.accounts.len(), 1);
    assert_eq!(ex.accounts[0].fields[0].name, "x");
}

#[test]
fn duplicate_default_class_first_in_source_wins() {
    let module = InputModule {
        body: vec![default_class("First", vec![]), default_class("Second", vec![])],
    };
    let ex = extract(module).unwrap();
    assert_eq!(ex.program_class.as_ref().unwrap().name, "First");
}

#[test]
fn imports_collected_in_pop_order() {
    let module = InputModule {
        body: vec![
            ModuleItem::Import(ImportDecl {
                src: "one".to_string(),
                names: vec!["a".to_string(), "b".to_string()],
            }),
            ModuleItem::Import(ImportDecl { src: "two".to_string(), names: vec![] }),
        ],
    };
    let ex = extract(module).unwrap();
    assert_eq!(ex.imports.len(), 2);
    assert_eq!(ex.imports[0].src, "two");
    assert_eq!(ex.imports[1].src, "one");
    assert_eq!(ex.imports[1].names, vec!["a".to_string(), "b".to_string()]);
}

#[test]
fn primitive_names_parse() {
    assert_eq!(parse_type(&"u8".to_string()), TypeTag::Prim(PrimType::U8));
    assert_eq!(parse_type(&"u16".to_string()), TypeTag::Prim(PrimType::U16));
    assert_eq!(parse_type(&"u32".to_string()), TypeTag::Prim(PrimType::U32));
    assert_eq!(parse_type(&"u64".to_string()), TypeTag::Prim(PrimType::U64));
    assert_eq!(parse_type(&"i8".to_string()), TypeTag::Prim(PrimType::I8));
    assert_eq!(parse_type(&"i16".to_string()), TypeTag::Prim(PrimType::I16));
    assert_eq!(parse_type(&"i32".to_string()), TypeTag::Prim(PrimType::I32));
    assert_eq!(parse_type(&"i64".to_string()), TypeTag::Prim(PrimType::I64));
    assert_eq!(parse_type(&"boolean".to_string()), TypeTag::Prim(PrimType::Bool));
    assert_eq!(parse_type(&"string".to_string()), TypeTag::Prim(PrimType::Str));
    assert_eq!(
        parse_type(&"Counter".to_string()),
        TypeTag::Custom("Counter".to_string())
    );
}

#[test]
fn custom_type_as_instruction_parameter() {
    let module = InputModule {
        body: vec![
            interface("Payload", vec![field("v", "u32")]),
            default_class("Prog", vec![method("take", vec![field("p", "Payload")])]),
        ],
    };
    let p = build_program(extract(module).unwrap()).unwrap();
    assert_eq!(p.instructions[0].params.len(), 1);
    assert_eq!(
        p.instructions[0].params[0].ty,
        TypeTag::Custom("Payload".to_string())
    );
    // The program class declares no state, so nothing is bound.
    assert_eq!(p.instructions[0].bindings.len(), 0);
}

#[test]
fn account_from_interface_classifies_fields() {
    let i = InterfaceDecl {
        name: "Mixed".to_string(),
        fields: vec![field("a", "u8"), field("b", "Other")],
    };
    let a = ProgramAccount::from_interface(&i);
    assert_eq!(a.name, "Mixed");
    assert_eq!(a.fields.len(), 2);
    assert_eq!(a.fields[0].ty, TypeTag::Prim(PrimType::U8));
    assert_eq!(a.fields[1].ty, TypeTag::Custom("Other".to_string()));
}

#[test]
fn empty_module_missing_program_class() {
    let module = InputModule { body: vec![] };
    assert_eq!(transpile(module), Err(TranspileError::MissingProgramClass));
}

#[test]
fn first_violation_in_pop_order_reported() {
    // The stack traversal pops the last item first, so of two violations the
    // one standing later in the source is reported.
    let module = InputModule {
        body: vec![
            ModuleItem::Unrecognized,
            ModuleItem::ExportDefault(DefaultExportKind::Function),
        ],
    };
    assert_eq!(transpile(module), Err(TranspileError::InvalidDefaultExport));
    let module2 = InputModule {
        body: vec![
            ModuleItem::ExportDefault(DefaultExportKind::Function),
            ModuleItem::Unrecognized,
        ],
    };
    assert_eq!(transpile(module2), Err(TranspileError::InvalidSyntax));
}

#[test]
fn anonymous_class_fails_formatting() {
    // A class without a name emits a module without a name, which the
    // formatter rejects.
    let module = InputModule { body: vec![default_class("", vec![])] };
    match transpile(module) {
        Err(TranspileError::FormatFailure(_)) => {},
        other => panic!("expected a formatting failure, got {:?}", other),
    }
}
