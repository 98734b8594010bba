//! Finer-grained checks: operator typing rules, the allocator intrinsics,
//! record serialization, and the scope behavior of block expressions.

use aura_compiler::ast::{
    BinaryOp, Expr, Function, FunctionAttribute, IntSuffix, Item, LetStmt, Literal, Program,
    Stmt, Type, UnaryOp, VarDecl, WhileStmt,
};
use aura_compiler::codegen::{generate, Relocation, RelocationKind, Symbol, SymbolKind};
use aura_compiler::typecheck::typecheck;

fn int_lit(v: i64) -> Expr {
    Expr::Literal(Literal::Int(v, IntSuffix::Unsuffixed))
}

fn main_with(body: Vec<Stmt>) -> Program {
    Program {
        items: vec![Item::Function(Function {
            name: "main".to_string(),
            params: vec![],
            return_type: Box::new(Type::Void),
            body,
            attrs: vec![FunctionAttribute::Entry(None)],
        })],
    }
}

#[test]
fn arithmetic_takes_matching_kinds() {
    let ok = main_with(vec![Stmt::Expr(Expr::Binary(
        BinaryOp::Add,
        Box::new(int_lit(1)),
        Box::new(int_lit(2)),
    ))]);
    assert!(typecheck(&ok).is_ok());

    let mixed = main_with(vec![Stmt::Expr(Expr::Binary(
        BinaryOp::Add,
        Box::new(int_lit(1)),
        Box::new(Expr::Literal(Literal::Bool(true))),
    ))]);
    let err = typecheck(&mixed).unwrap_err();
    assert_eq!(err.message, "Invalid operand types for arithmetic");
    assert_eq!(err.location, "Add");
}

#[test]
fn logical_operators_take_bools() {
    let bad = main_with(vec![Stmt::Expr(Expr::Binary(
        BinaryOp::LogicalAnd,
        Box::new(int_lit(1)),
        Box::new(int_lit(1)),
    ))]);
    let err = typecheck(&bad).unwrap_err();
    assert_eq!(err.message, "Invalid operand types for logical");
    assert_eq!(err.location, "LogicalAnd");
}

#[test]
fn comparisons_yield_bool() {
    let program = main_with(vec![Stmt::While(WhileStmt {
        condition: Box::new(Expr::Binary(
            BinaryOp::Lt,
            Box::new(int_lit(1)),
            Box::new(int_lit(2)),
        )),
        body: vec![Stmt::Break],
    })]);
    assert!(typecheck(&program).is_ok());

    let bad = main_with(vec![Stmt::While(WhileStmt {
        condition: Box::new(int_lit(1)),
        body: vec![],
    })]);
    let err = typecheck(&bad).unwrap_err();
    assert_eq!(err.message, "While condition must be bool");
}

#[test]
fn unary_rules_reject_wrong_operands() {
    let not_on_int = main_with(vec![Stmt::Expr(Expr::Unary(
        UnaryOp::Not,
        Box::new(int_lit(1)),
    ))]);
    assert_eq!(
        typecheck(&not_on_int).unwrap_err().message,
        "Cannot logical NOT type"
    );

    let deref_non_pointer = main_with(vec![Stmt::Expr(Expr::Unary(
        UnaryOp::Deref,
        Box::new(int_lit(1)),
    ))]);
    assert_eq!(
        typecheck(&deref_non_pointer).unwrap_err().message,
        "Cannot dereference non-pointer type"
    );

    let neg_bool = main_with(vec![Stmt::Expr(Expr::Unary(
        UnaryOp::Neg,
        Box::new(Expr::Literal(Literal::Bool(false))),
    ))]);
    assert_eq!(typecheck(&neg_bool).unwrap_err().message, "Cannot negate type");
}

#[test]
fn assignment_target_must_be_a_place() {
    let bad = main_with(vec![Stmt::Expr(Expr::Assign(
        Box::new(int_lit(1)),
        Box::new(int_lit(2)),
    ))]);
    let err = typecheck(&bad).unwrap_err();
    assert_eq!(err.message, "Invalid assignment target");
}

#[test]
fn unknown_struct_type_is_reported() {
    let program = main_with(vec![Stmt::Expr(Expr::Field(
        Box::new(Expr::Cast(
            Box::new(int_lit(0)),
            Type::Named("Nope".to_string()),
        )),
        "x".to_string(),
    ))]);
    let err = typecheck(&program).unwrap_err();
    assert_eq!(err.message, "Unknown struct type Nope");
    assert_eq!(err.location, ".x");
}

#[test]
fn block_expressions_leave_their_bindings_in_scope() {
    let program = main_with(vec![
        Stmt::Expr(Expr::Block(
            vec![Stmt::Let(LetStmt {
                name: "inner".to_string(),
                ty: None,
                value: Box::new(int_lit(1)),
                is_const: false,
            })],
            None,
        )),
        Stmt::Return(Some(Expr::Identifier("inner".to_string()))),
    ]);
    assert!(typecheck(&program).is_ok());
}

#[test]
fn alloc_and_free_call_the_intrinsic_registers() {
    let alloc = main_with(vec![Stmt::Expr(Expr::Alloc(
        Box::new(Type::I32),
        Box::new(int_lit(5)),
    ))]);
    let obj = generate(&alloc).unwrap();
    let mut expected = vec![0x48, 0xBF];
    expected.extend(5u64.to_le_bytes()); // mov rdi, count
    expected.extend(vec![0x41, 0xFF, 0xD6]); // call r14
    assert_eq!(obj.text, expected);

    let free = main_with(vec![Stmt::Expr(Expr::Free(
        Box::new(int_lit(1)),
        Box::new(int_lit(2)),
    ))]);
    let obj = generate(&free).unwrap();
    let mut expected = vec![0x48, 0x89, 0xC7]; // mov rdi, rax
    expected.extend(vec![0x48, 0xBE]);
    expected.extend(2u64.to_le_bytes()); // mov rsi, size
    expected.extend(vec![0x41, 0xFF, 0xD7]); // call r15
    assert_eq!(obj.text, expected);
}

#[test]
fn var_items_reserve_uninitialized_bytes() {
    let program = Program {
        items: vec![
            Item::Var(VarDecl {
                name: "slot".to_string(),
                ty: None,
                value: Box::new(int_lit(0)),
            }),
            Item::Var(VarDecl {
                name: "other".to_string(),
                ty: None,
                value: Box::new(int_lit(0)),
            }),
        ],
    };
    let obj = generate(&program).unwrap();
    assert_eq!(obj.bss_size, 16);
    assert_eq!(obj.data.len(), 0);
    assert_eq!(obj.symbols.len(), 0);
}

#[test]
fn relocation_records_serialize_length_prefixed() {
    let reloc = Relocation {
        offset: 7,
        symbol: "ext".to_string(),
        kind: RelocationKind::Relative32,
    };
    let mut expected = 7u64.to_le_bytes().to_vec();
    expected.extend(3u64.to_le_bytes());
    expected.extend(b"ext".to_vec());
    expected.push(0);
    expected.push(1); // kind tag
    assert_eq!(reloc.as_bytes(), expected);

    let symbol = Symbol {
        name: "N".to_string(),
        offset: 32,
        size: 8,
        kind: SymbolKind::Data,
    };
    let mut expected = 1u64.to_le_bytes().to_vec();
    expected.extend(b"N".to_vec());
    expected.push(0);
    expected.extend(32u64.to_le_bytes());
    expected.extend(8u64.to_le_bytes());
    expected.push(1); // kind tag
    assert_eq!(symbol.as_bytes(), expected);
}

#[test]
fn named_entry_attribute_selects_the_function() {
    let program = Program {
        items: vec![
            Item::Function(Function {
                name: "setup".to_string(),
                params: vec![],
                return_type: Box::new(Type::Void),
                body: vec![Stmt::Return(None)],
                attrs: vec![],
            }),
            Item::Function(Function {
                name: "start".to_string(),
                params: vec![],
                return_type: Box::new(Type::Void),
                body: vec![Stmt::Return(None)],
                attrs: vec![],
            }),
            Item::Function(Function {
                name: "chooser".to_string(),
                params: vec![],
                return_type: Box::new(Type::Void),
                body: vec![Stmt::Return(None)],
                attrs: vec![FunctionAttribute::Entry(Some("start".to_string()))],
            }),
        ],
    };
    let obj = generate(&program).unwrap();
    // Each body is xor rax, rax; ret: four bytes. `start` is second.
    assert_eq!(obj.entry_point, 4);
}

#[test]
fn unsigned_wide_widths_reject_negative_literals() {
    let with_suffix = |v: i64, s: IntSuffix| {
        main_with(vec![Stmt::Expr(Expr::Literal(Literal::Int(v, s)))])
    };
    let err = generate(&with_suffix(-1, IntSuffix::U64)).unwrap_err();
    assert_eq!(err.message, "Integer literal -1 does not fit in type");
    let err = generate(&with_suffix(-2, IntSuffix::Usize)).unwrap_err();
    assert_eq!(err.message, "Integer literal -2 does not fit in type");
    // isize is signed: a negative literal is representable.
    let obj = generate(&with_suffix(-1, IntSuffix::Isize)).unwrap();
    let mut expected = vec![0x48, 0xB8];
    expected.extend(u64::MAX.to_le_bytes());
    assert_eq!(obj.text, expected);
    // The same rule reaches a let with a declared wide unsigned width.
    let wide_let = main_with(vec![Stmt::Let(LetStmt {
        name: "x".to_string(),
        ty: Some(Box::new(Type::BitInt(70, false))),
        value: Box::new(int_lit(-3)),
        is_const: false,
    })]);
    let err = generate(&wide_let).unwrap_err();
    assert_eq!(err.message, "Integer literal -3 does not fit in type");
    let ok_let = main_with(vec![Stmt::Let(LetStmt {
        name: "x".to_string(),
        ty: Some(Box::new(Type::BitInt(70, false))),
        value: Box::new(int_lit(3)),
        is_const: false,
    })]);
    assert!(generate(&ok_let).is_ok());
}

#[test]
fn function_size_patch_skips_a_data_symbol_of_the_same_name() {
    let program = Program {
        items: vec![
            Item::Const(aura_compiler::ast::ConstDecl {
                name: "dual".to_string(),
                ty: None,
                value: Box::new(int_lit(1)),
            }),
            Item::Function(Function {
                name: "dual".to_string(),
                params: vec![],
                return_type: Box::new(Type::Void),
                body: vec![Stmt::Return(None)],
                attrs: vec![],
            }),
        ],
    };
    let obj = generate(&program).unwrap();
    assert_eq!(obj.symbols.len(), 2);
    assert_eq!(obj.symbols[0].kind, SymbolKind::Data);
    assert_eq!(obj.symbols[0].size, 8); // untouched by the patch
    assert_eq!(obj.symbols[1].kind, SymbolKind::Function);
    assert_eq!(obj.symbols[1].size, 4); // xor rax, rax; ret
}
