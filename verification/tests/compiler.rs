//! End-to-end checks of the compiler core: the type checker's verdicts, the
//! generator's exact bytes, and the container writer's layout.

use aura_compiler::ast::{
    ConstDecl, Expr, Function, FunctionAttribute, IfStmt, IntSuffix, Item, LetStmt, Literal,
    Param, Program, Stmt, Struct, StructField, Type,
};
use aura_compiler::binary::{container_bytes, AuraBinary, AuraBinaryHeader, HEADER_SIZE};
use aura_compiler::codegen::{generate, SymbolKind};
use aura_compiler::typecheck::typecheck;
use aura_compiler::ast::type_eq;

fn int_lit(v: i64) -> Expr {
    Expr::Literal(Literal::Int(v, IntSuffix::Unsuffixed))
}

fn entry_main(return_type: Type, body: Vec<Stmt>) -> Program {
    Program {
        items: vec![Item::Function(Function {
            name: "main".to_string(),
            params: vec![],
            return_type: Box::new(return_type),
            body,
            attrs: vec![FunctionAttribute::Entry(None)],
        })],
    }
}

fn le64(v: u64) -> Vec<u8> {
    v.to_le_bytes().to_vec()
}

#[test]
fn empty_main_returns_zero() {
    let program = entry_main(Type::I32, vec![Stmt::Return(Some(int_lit(0)))]);
    let obj = generate(&program).unwrap();
    assert_eq!(obj.text, vec![0x48, 0x31, 0xC0, 0xC3]);
    assert_eq!(obj.entry_point, 0);
    assert_eq!(obj.data.len(), 0);
    assert_eq!(obj.symbols.len(), 1);
    assert_eq!(obj.symbols[0].name, "main");
    assert_eq!(obj.symbols[0].offset, 0);
    assert_eq!(obj.symbols[0].size, 4);
    assert_eq!(obj.symbols[0].kind, SymbolKind::Function);
}

#[test]
fn write_syscall_emits_linux_sequence() {
    let program = entry_main(
        Type::Void,
        vec![
            Stmt::Expr(Expr::Syscall(
                "write".to_string(),
                vec![Expr::Literal(Literal::String(b"hi\n".to_vec()))],
            )),
            Stmt::Return(None),
        ],
    );
    let obj = generate(&program).unwrap();
    assert_eq!(obj.data, vec![0x68, 0x69, 0x0A]);
    let mut expected = vec![0x48, 0xBF];
    expected.extend(le64(1)); // mov rdi, 1
    expected.extend(vec![0x48, 0xBE]);
    expected.extend(le64(0x0100_0000)); // mov rsi, data address
    expected.extend(vec![0x48, 0xBA]);
    expected.extend(le64(3)); // mov rdx, 3
    expected.extend(vec![0x48, 0xB8]);
    expected.extend(le64(1)); // mov rax, 1
    expected.extend(vec![0x0F, 0x05]); // syscall
    expected.extend(vec![0x48, 0x31, 0xC0, 0xC3]); // xor rax, rax; ret
    assert_eq!(obj.text, expected);
}

#[test]
fn top_level_const_lands_in_data() {
    let program = Program {
        items: vec![Item::Const(ConstDecl {
            name: "N".to_string(),
            ty: Some(Box::new(Type::I32)),
            value: Box::new(int_lit(42)),
        })],
    };
    let obj = generate(&program).unwrap();
    assert_eq!(obj.data[..8], [0x2A, 0, 0, 0, 0, 0, 0, 0]);
    assert_eq!(obj.symbols.len(), 1);
    assert_eq!(obj.symbols[0].name, "N");
    assert_eq!(obj.symbols[0].kind, SymbolKind::Data);
    assert_eq!(obj.symbols[0].offset, 0);
    assert_eq!(obj.symbols[0].size, 8);
}

#[test]
fn bit_precise_let_checks_the_width() {
    let fitting = entry_main(
        Type::Void,
        vec![Stmt::Let(LetStmt {
            name: "x".to_string(),
            ty: Some(Box::new(Type::BitInt(5, false))),
            value: Box::new(int_lit(17)),
            is_const: false,
        })],
    );
    let obj = generate(&fitting).unwrap();
    assert_eq!(obj.data[..8], [17, 0, 0, 0, 0, 0, 0, 0]);

    let overflowing = entry_main(
        Type::Void,
        vec![Stmt::Let(LetStmt {
            name: "x".to_string(),
            ty: Some(Box::new(Type::BitInt(5, false))),
            value: Box::new(int_lit(32)),
            is_const: false,
        })],
    );
    let err = generate(&overflowing).unwrap_err();
    assert!(err.message.contains("does not fit in type"));
    assert_eq!(err.message, "Integer literal 32 does not fit in type");
}

#[test]
fn non_bool_if_condition_is_rejected() {
    let program = entry_main(
        Type::Void,
        vec![Stmt::If(IfStmt {
            condition: Box::new(int_lit(1)),
            then_branch: vec![Stmt::Return(None)],
            else_branch: None,
        })],
    );
    let err = typecheck(&program).unwrap_err();
    assert_eq!(err.message, "If condition must be bool");
    assert_eq!(err.location, "if condition");
}

#[test]
fn dump_shows_magic_version_and_text_bytes() {
    let program = entry_main(Type::I32, vec![Stmt::Return(Some(int_lit(0)))]);
    let obj = generate(&program).unwrap();
    let bytes = container_bytes(&obj);
    let dump = AuraBinary::render(&bytes);
    assert!(dump.contains("Magic: AURA"));
    assert!(dump.contains("Version: 1"));
    assert!(dump.contains("Text Offset: 80, Size: 4"));
    assert!(dump.contains("48 31 c0 c3"));
    // An empty data section is not dumped.
    assert!(!dump.contains("=== Data Section"));
}

#[test]
fn header_round_trips_through_bytes() {
    let header = AuraBinaryHeader {
        magic: [0x41, 0x55, 0x52, 0x41],
        version: 1,
        flags: 7,
        reserved: 513,
        entry_point: 0xDEAD_BEEF,
        stack_size: 4096,
        text_offset: 80,
        text_size: 1234,
        data_offset: 1328,
        data_size: 99,
        bss_size: 16,
        reloc_count: 2,
        symbol_count: 3,
    };
    let bytes = header.to_bytes();
    assert_eq!(bytes.len(), HEADER_SIZE);
    let parsed = AuraBinaryHeader::from_bytes(&bytes);
    assert_eq!(parsed.magic, header.magic);
    assert_eq!(parsed.version, header.version);
    assert_eq!(parsed.flags, header.flags);
    assert_eq!(parsed.reserved, header.reserved);
    assert_eq!(parsed.entry_point, header.entry_point);
    assert_eq!(parsed.stack_size, header.stack_size);
    assert_eq!(parsed.text_offset, header.text_offset);
    assert_eq!(parsed.text_size, header.text_size);
    assert_eq!(parsed.data_offset, header.data_offset);
    assert_eq!(parsed.data_size, header.data_size);
    assert_eq!(parsed.bss_size, header.bss_size);
    assert_eq!(parsed.reloc_count, header.reloc_count);
    assert_eq!(parsed.symbol_count, header.symbol_count);
}

#[test]
fn container_layout_places_sections_on_sixteen_byte_boundaries() {
    let program = entry_main(Type::I32, vec![Stmt::Return(Some(int_lit(0)))]);
    let obj = generate(&program).unwrap();
    let bytes = container_bytes(&obj);
    let header = AuraBinaryHeader::from_bytes(&bytes);
    assert_eq!(header.text_offset, 80);
    assert_eq!(header.text_size, 4);
    assert_eq!(header.data_offset, 96); // 80 + the text padded to 16
    assert_eq!(header.data_size, 0);
    assert_eq!(header.reloc_count, 0);
    assert_eq!(header.symbol_count, 1);
    // data_offset + padded data size is where the records begin: the one
    // symbol record for `main` (name length, name, NUL, offset, size, kind).
    let records = &bytes[96..];
    let mut expected = le64(4);
    expected.extend(b"main".to_vec());
    expected.push(0);
    expected.extend(le64(0)); // offset
    expected.extend(le64(4)); // size
    expected.push(0); // kind tag: function
    assert_eq!(records, &expected[..]);
}

#[test]
fn compiling_twice_is_byte_identical() {
    let program = entry_main(
        Type::Void,
        vec![
            Stmt::Expr(Expr::Syscall(
                "write".to_string(),
                vec![Expr::Literal(Literal::String(b"hi\n".to_vec()))],
            )),
            Stmt::Return(Some(int_lit(7))),
        ],
    );
    let first = container_bytes(&generate(&program).unwrap());
    let second = container_bytes(&generate(&program).unwrap());
    assert_eq!(first, second);
}

#[test]
fn accepted_program_typechecks() {
    let program = entry_main(
        Type::I32,
        vec![
            Stmt::Let(LetStmt {
                name: "x".to_string(),
                ty: Some(Box::new(Type::I32)),
                value: Box::new(int_lit(1)),
                is_const: false,
            }),
            Stmt::Return(Some(Expr::Identifier("x".to_string()))),
        ],
    );
    assert!(typecheck(&program).is_ok());
}

#[test]
fn undefined_variable_is_reported() {
    let program = entry_main(Type::I32, vec![Stmt::Return(Some(Expr::Identifier(
        "ghostly".to_string(),
    )))]);
    let err = typecheck(&program).unwrap_err();
    assert_eq!(err.message, "Undefined variable: ghostly");
    assert_eq!(err.location, "ghostly");
}

#[test]
fn declared_type_must_match_exactly() {
    let program = entry_main(
        Type::Void,
        vec![Stmt::Let(LetStmt {
            name: "x".to_string(),
            ty: Some(Box::new(Type::I64)),
            value: Box::new(int_lit(1)), // infers i32: no implicit conversion
            is_const: false,
        })],
    );
    let err = typecheck(&program).unwrap_err();
    assert_eq!(err.message, "Type mismatch in let");
    assert_eq!(err.location, "let x");
}

#[test]
fn call_arity_and_argument_types_are_checked() {
    let func_type = Type::Func(vec![Type::I32], Box::new(Type::Void));
    let callee = |args: Vec<Expr>| {
        Expr::Call(
            Box::new(Expr::Cast(Box::new(int_lit(0)), func_type.clone())),
            args,
        )
    };
    let too_many = entry_main(Type::Void, vec![Stmt::Expr(callee(vec![int_lit(1), int_lit(2)]))]);
    let err = typecheck(&too_many).unwrap_err();
    assert_eq!(err.message, "Wrong number of arguments: expected 1, got 2");

    let wrong_type = entry_main(
        Type::Void,
        vec![Stmt::Expr(callee(vec![Expr::Literal(Literal::Bool(true))]))],
    );
    let err = typecheck(&wrong_type).unwrap_err();
    assert_eq!(err.message, "Argument 0 type mismatch");
    assert_eq!(err.location, "argument 0");
}

#[test]
fn assignment_respects_binding_kind() {
    // A parameter carries the flag that marks a binding assignable.
    let to_param = Program {
        items: vec![Item::Function(Function {
            name: "f".to_string(),
            params: vec![Param { name: "p".to_string(), ty: Box::new(Type::I32) }],
            return_type: Box::new(Type::Void),
            body: vec![Stmt::Expr(Expr::Assign(
                Box::new(Expr::Identifier("p".to_string())),
                Box::new(int_lit(3)),
            ))],
            attrs: vec![],
        })],
    };
    assert!(typecheck(&to_param).is_ok());

    // A `let` binding does not.
    let to_let = entry_main(
        Type::Void,
        vec![
            Stmt::Let(LetStmt {
                name: "x".to_string(),
                ty: None,
                value: Box::new(int_lit(1)),
                is_const: false,
            }),
            Stmt::Expr(Expr::Assign(
                Box::new(Expr::Identifier("x".to_string())),
                Box::new(int_lit(2)),
            )),
        ],
    );
    let err = typecheck(&to_let).unwrap_err();
    assert_eq!(
        err.message,
        "Cannot assign to var binding 'x' (immutable value)"
    );
}

#[test]
fn struct_fields_resolve_independent_of_declaration_order() {
    let program = Program {
        items: vec![
            Item::Function(Function {
                name: "main".to_string(),
                params: vec![],
                return_type: Box::new(Type::Void),
                body: vec![Stmt::Let(LetStmt {
                    name: "w".to_string(),
                    ty: Some(Box::new(Type::I64)),
                    value: Box::new(Expr::Field(
                        Box::new(Expr::Cast(
                            Box::new(int_lit(0)),
                            Type::Named("Pair".to_string()),
                        )),
                        "second".to_string(),
                    )),
                    is_const: false,
                })],
                attrs: vec![FunctionAttribute::Entry(None)],
            }),
            // Declared after its use: the registration pass still sees it.
            Item::Struct(Struct {
                name: "Pair".to_string(),
                fields: vec![
                    StructField { name: "first".to_string(), ty: Box::new(Type::I32) },
                    StructField { name: "second".to_string(), ty: Box::new(Type::I64) },
                ],
            }),
        ],
    };
    assert!(typecheck(&program).is_ok());

    let unknown_field = Program {
        items: vec![
                Item::Function(Function {
                    name: "main".to_string(),
                    params: vec![],
                    return_type: Box::new(Type::Void),
                    body: vec![Stmt::Expr(Expr::Field(
                        Box::new(Expr::Cast(
                            Box::new(int_lit(0)),
                            Type::Named("Pair".to_string()),
                        )),
                        "third".to_string(),
                    ))],
                    attrs: vec![],
                }),
                Item::Struct(Struct {
                    name: "Pair".to_string(),
                    fields: vec![StructField {
                        name: "first".to_string(),
                        ty: Box::new(Type::I32),
                    }],
                }),
            ],
    };
    let err = typecheck(&unknown_field).unwrap_err();
    assert_eq!(err.message, "Struct Pair has no field third");
    assert_eq!(err.location, ".third");
}

#[test]
fn unknown_syscall_is_rejected_by_the_generator() {
    let program = entry_main(
        Type::Void,
        vec![Stmt::Expr(Expr::Syscall("read".to_string(), vec![]))],
    );
    let err = generate(&program).unwrap_err();
    assert_eq!(err.message, "Unknown syscall method: read");
}

#[test]
fn write_syscall_takes_an_explicit_file_descriptor() {
    let program = entry_main(
        Type::Void,
        vec![Stmt::Expr(Expr::Syscall(
            "write".to_string(),
            vec![
                Expr::Literal(Literal::Int(2, IntSuffix::Unsuffixed)),
                Expr::Literal(Literal::String(b"e".to_vec())),
            ],
        ))],
    );
    let obj = generate(&program).unwrap();
    // mov rdi, 2 leads the sequence.
    assert_eq!(obj.text[..10], {
        let mut v = vec![0x48, 0xBF];
        v.extend(le64(2));
        v
    }[..]);
    assert_eq!(obj.data, vec![b'e']);
}

#[test]
fn missing_entry_point_function_fails() {
    let program = Program {
        items: vec![Item::Function(Function {
            name: "main".to_string(),
            params: vec![],
            return_type: Box::new(Type::Void),
            body: vec![Stmt::Return(None)],
            attrs: vec![FunctionAttribute::Entry(Some("start".to_string()))],
        })],
    };
    let err = generate(&program).unwrap_err();
    assert_eq!(err.message, "Entry point function 'start' does not exist");
}

#[test]
fn casts_lower_to_the_conversion_table() {
    let cast_to = |t: Type| {
        entry_main(
            Type::Void,
            vec![Stmt::Expr(Expr::Cast(
                Box::new(Expr::Literal(Literal::Int(5, IntSuffix::I32))),
                t,
            ))],
        )
    };
    // mov eax, 5 then movzx eax, al.
    let obj = generate(&cast_to(Type::U8)).unwrap();
    assert_eq!(obj.text, vec![0xB8, 5, 0, 0, 0, 0x0F, 0xB6, 0xC0]);
    // movsx eax, ax.
    let obj = generate(&cast_to(Type::I16)).unwrap();
    assert_eq!(obj.text, vec![0xB8, 5, 0, 0, 0, 0x0F, 0xBF, 0xC0]);
    // A bit-precise target masks: and rax, 0x7 (low 32 bits of the mask).
    let obj = generate(&cast_to(Type::BitInt(3, false))).unwrap();
    assert_eq!(obj.text, vec![0xB8, 5, 0, 0, 0, 0x48, 0x25, 7, 0, 0, 0]);
    // A four-byte target needs no conversion.
    let obj = generate(&cast_to(Type::U32)).unwrap();
    assert_eq!(obj.text, vec![0xB8, 5, 0, 0, 0]);
}

#[test]
fn literal_widths_pick_their_immediates() {
    let with_suffix = |v: i64, s: IntSuffix| {
        entry_main(Type::Void, vec![Stmt::Expr(Expr::Literal(Literal::Int(v, s)))])
    };
    let obj = generate(&with_suffix(0x2A, IntSuffix::U8)).unwrap();
    assert_eq!(obj.text, vec![0xB0, 0x2A]); // mov al, imm8
    let obj = generate(&with_suffix(0x1234, IntSuffix::I16)).unwrap();
    assert_eq!(obj.text, vec![0x66, 0xB8, 0x34, 0x12]); // mov ax, imm16
    let obj = generate(&with_suffix(-1, IntSuffix::I64)).unwrap();
    let mut expected = vec![0x48, 0xB8];
    expected.extend(le64(u64::MAX)); // mov rax, imm64 of the masked value
    assert_eq!(obj.text, expected);
    let err = generate(&with_suffix(256, IntSuffix::U8)).unwrap_err();
    assert_eq!(err.message, "Integer literal 256 does not fit in type");
    let err = generate(&with_suffix(-129, IntSuffix::I8)).unwrap_err();
    assert_eq!(err.message, "Integer literal -129 does not fit in type");
}

#[test]
fn type_descriptor_sizes_and_alignments() {
    assert_eq!(Type::Bool.size(), 1);
    assert_eq!(Type::I64.size(), 8);
    assert_eq!(Type::F32.size(), 4);
    assert_eq!(Type::BitInt(5, false).size(), 1);
    assert_eq!(Type::BitInt(33, true).size(), 8);
    assert_eq!(Type::BitInt(100, false).size(), 16);
    assert_eq!(Type::BitInt(200, false).size(), 25); // raw byte ceiling
    assert_eq!(Type::Array(3, Box::new(Type::I32)).size(), 12);
    assert_eq!(Type::Array(3, Box::new(Type::I32)).align(), 4);
    assert_eq!(Type::BitInt(100, false).align(), 16);
    assert_eq!(Type::Ptr(Box::new(Type::Void)).size(), 8);
    assert!(Type::Usize.is_integer());
    assert!(!Type::F64.is_integer());
    assert!(Type::F32.is_float());
    assert!(Type::MutPtr(Box::new(Type::U8)).is_pointer());
    assert!(!Type::Named("P".to_string()).is_pointer());
}

#[test]
fn type_equality_is_structural_and_exact() {
    assert!(type_eq(&Type::I32, &Type::I32));
    assert!(!type_eq(&Type::I32, &Type::I64));
    assert!(type_eq(
        &Type::Named("P".to_string()),
        &Type::Named("P".to_string())
    ));
    assert!(!type_eq(
        &Type::Named("P".to_string()),
        &Type::Named("Q".to_string())
    ));
    assert!(type_eq(
        &Type::Func(vec![Type::I32], Box::new(Type::Void)),
        &Type::Func(vec![Type::I32], Box::new(Type::Void))
    ));
    assert!(!type_eq(
        &Type::Func(vec![Type::I32], Box::new(Type::Void)),
        &Type::Func(vec![Type::I64], Box::new(Type::Void))
    ));
    assert!(type_eq(
        &Type::Array(4, Box::new(Type::U8)),
        &Type::Array(4, Box::new(Type::U8))
    ));
    assert!(!type_eq(
        &Type::Array(4, Box::new(Type::U8)),
        &Type::Array(5, Box::new(Type::U8))
    ));
}

#[test]
fn locals_load_through_register_ten() {
    let program = entry_main(
        Type::Void,
        vec![
            Stmt::Let(LetStmt {
                name: "a".to_string(),
                ty: None,
                value: Box::new(int_lit(9)),
                is_const: false,
            }),
            Stmt::Let(LetStmt {
                name: "b".to_string(),
                ty: None,
                value: Box::new(Expr::Identifier("a".to_string())),
                is_const: false,
            }),
        ],
    );
    let obj = generate(&program).unwrap();
    // The first let stores its literal directly: data slot 0 holds 9.
    assert_eq!(obj.data[..8], [9, 0, 0, 0, 0, 0, 0, 0]);
    // The second reserves a fresh zero slot.
    assert_eq!(obj.data[8..16], [0; 8]);
    // Text: load a's address into r10, read, then address of b, write.
    let mut expected = vec![0x49, 0xBA];
    expected.extend(le64(0x0100_0000));
    expected.extend(vec![0x49, 0x8B, 0xC2]); // mov rax, [r10]
    expected.extend(vec![0x49, 0xBA]);
    expected.extend(le64(0x0100_0008));
    expected.extend(vec![0x49, 0x89, 0x02]); // mov [r10], rax
    assert_eq!(obj.text, expected);
}
