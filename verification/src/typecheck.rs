//! The type checker: decides a unique result type for every expression and
//! validates every statement, or reports the first violation as a
//! [`TypeError`] with a location label.
//!
//! The checker is specified by the spec functions `tc_expr`, `tc_stmt`,
//! `tc_stmts`, `tc_item` and `tc_program`, which walk the tree over a
//! mathematical context [`Ctx`]; the executable [`typecheck`] entry point is
//! proved to return exactly what `tc_program` says. Aggregate declarations
//! are registered in a first pass, so they are visible independent of the
//! order of items; bindings live in one flat list that functions extend with
//! their parameters and locals and cut back when they are done, which gives
//! the same lookup order as a stack of scopes.

use vstd::prelude::*;

use crate::ast::{
    ConstDecl, ConstStmt, Enum, Expr, FloatSuffix, ForStmt, Function, IfExpr, IfStmt, IntSuffix,
    Item, LetStmt, Literal, Param, Program, Stmt, Struct, StructField, Type, TypeV, Union,
    VarDecl, WhileStmt, fields_view, lemma_fields_view, lemma_types_view, type_eq, type_view,
    types_view,
    FieldV, StructV, BinaryOp, UnaryOp,
};

verus! {

/// A structured diagnostic: what went wrong and a short location label.
#[derive(Debug)]
pub struct TypeError {
    pub message: String,
    pub location: String,
}

/// The mathematical value of a diagnostic.
#[verifier::ext_equal]
pub struct TcErr {
    pub message: Seq<char>,
    pub location: Seq<char>,
}

impl View for TypeError {
    type V = TcErr;

    open spec fn view(&self) -> TcErr {
        TcErr { message: self.message@, location: self.location@ }
    }
}

/// The mathematical state of the checker: the flat list of bindings
/// (name, type, constness), youngest last, and the three declaration tables.
#[verifier::ext_equal]
pub struct Ctx {
    pub binds: Seq<(Seq<char>, TypeV, bool)>,
    pub structs: Seq<(Seq<char>, StructV)>,
    pub unions: Seq<Seq<char>>,
    pub enums: Seq<Seq<char>>,
}

/// The youngest binding of `name`, if any.
pub open spec fn lookup_bind(binds: Seq<(Seq<char>, TypeV, bool)>, name: Seq<char>) -> Option<
    (TypeV, bool),
>
    decreases binds.len(),
{
    if binds.len() == 0 {
        None
    } else if binds.last().0 == name {
        Some((binds.last().1, binds.last().2))
    } else {
        lookup_bind(binds.drop_last(), name)
    }
}

/// The youngest registration of a struct named `name`, if any.
pub open spec fn lookup_struct_decl(structs: Seq<(Seq<char>, StructV)>, name: Seq<char>) -> Option<
    StructV,
>
    decreases structs.len(),
{
    if structs.len() == 0 {
        None
    } else if structs.last().0 == name {
        Some(structs.last().1)
    } else {
        lookup_struct_decl(structs.drop_last(), name)
    }
}

/// The type of the first field named `name`, if any.
pub open spec fn lookup_field_decl(fields: Seq<FieldV>, name: Seq<char>) -> Option<TypeV>
    decreases fields.len(),
{
    if fields.len() == 0 {
        None
    } else if fields[0].name == name {
        Some(fields[0].ty)
    } else {
        lookup_field_decl(fields.drop_first(), name)
    }
}

/// The type a literal carries: the suffix decides, with `i32` and `f64` as
/// the defaults, strings as byte pointers and chars as bytes.
pub open spec fn literal_type(l: Literal) -> TypeV {
    match l {
        Literal::Int(_, suffix) => match suffix {
            IntSuffix::I8 => TypeV::I8,
            IntSuffix::I16 => TypeV::I16,
            IntSuffix::I32 => TypeV::I32,
            IntSuffix::I64 => TypeV::I64,
            IntSuffix::U8 => TypeV::U8,
            IntSuffix::U16 => TypeV::U16,
            IntSuffix::U32 => TypeV::U32,
            IntSuffix::U64 => TypeV::U64,
            IntSuffix::Usize => TypeV::Usize,
            IntSuffix::Isize => TypeV::Isize,
            IntSuffix::Unsuffixed => TypeV::I32,
        },
        Literal::Float(_, suffix) => match suffix {
            FloatSuffix::F32 => TypeV::F32,
            FloatSuffix::F64 => TypeV::F64,
            FloatSuffix::Unsuffixed => TypeV::F64,
        },
        Literal::Bool(_) => TypeV::Bool,
        Literal::String(_) => TypeV::MutPtr(Box::new(TypeV::U8)),
        Literal::Char(_) => TypeV::U8,
    }
}

/// The decimal digits of `n`, as characters.
pub open spec fn dec_digit(d: nat) -> Seq<char> {
    if d == 0 {
        "0"@
    } else if d == 1 {
        "1"@
    } else if d == 2 {
        "2"@
    } else if d == 3 {
        "3"@
    } else if d == 4 {
        "4"@
    } else if d == 5 {
        "5"@
    } else if d == 6 {
        "6"@
    } else if d == 7 {
        "7"@
    } else if d == 8 {
        "8"@
    } else {
        "9"@
    }
}

pub open spec fn dec_chars(n: nat) -> Seq<char>
    decreases n,
{
    if n < 10 {
        dec_digit(n)
    } else {
        dec_chars(n / 10) + dec_digit(n % 10)
    }
}

pub open spec fn undefined_variable(name: Seq<char>, location: Seq<char>) -> TcErr {
    TcErr { message: "Undefined variable: "@ + name, location: location }
}

/// The name of a binary operator, for location labels.
pub open spec fn binop_label(op: BinaryOp) -> Seq<char> {
    match op {
        BinaryOp::Add => "Add"@,
        BinaryOp::Sub => "Sub"@,
        BinaryOp::Mul => "Mul"@,
        BinaryOp::Div => "Div"@,
        BinaryOp::Mod => "Mod"@,
        BinaryOp::LShift => "LShift"@,
        BinaryOp::RShift => "RShift"@,
        BinaryOp::BitAnd => "BitAnd"@,
        BinaryOp::BitOr => "BitOr"@,
        BinaryOp::BitXor => "BitXor"@,
        BinaryOp::Eq => "Eq"@,
        BinaryOp::Neq => "Neq"@,
        BinaryOp::Lt => "Lt"@,
        BinaryOp::Gt => "Gt"@,
        BinaryOp::LtEq => "LtEq"@,
        BinaryOp::GtEq => "GtEq"@,
        BinaryOp::LogicalAnd => "LogicalAnd"@,
        BinaryOp::LogicalOr => "LogicalOr"@,
    }
}

/// The typing rule for a unary operator applied to an operand of type `t`.
pub open spec fn unary_rule(op: UnaryOp, t: TypeV) -> Result<TypeV, TcErr> {
    match op {
        UnaryOp::Neg => if t.is_integer() || t.is_float() {
            Ok(t)
        } else {
            Err(TcErr { message: "Cannot negate type"@, location: "neg"@ })
        },
        UnaryOp::Not => if t == TypeV::Bool {
            Ok(TypeV::Bool)
        } else {
            Err(TcErr { message: "Cannot logical NOT type"@, location: "not"@ })
        },
        UnaryOp::BitNot => if t.is_integer() {
            Ok(t)
        } else {
            Err(TcErr { message: "Cannot bitwise NOT type"@, location: "bitnot"@ })
        },
        UnaryOp::Deref => match t {
            TypeV::Ptr(inner) => Ok(*inner),
            TypeV::MutPtr(inner) => Ok(*inner),
            TypeV::ConstPtr(inner) => Ok(*inner),
            _ => Err(
                TcErr { message: "Cannot dereference non-pointer type"@, location: "deref"@ },
            ),
        },
        UnaryOp::AddrOf => Ok(TypeV::MutPtr(Box::new(t))),
    }
}

/// The typing rule for a binary operator on operands of types `l` and `r`:
/// arithmetic takes two integers or two floats and returns the left type,
/// shifts and bitwise operators take integers, comparisons take operands of
/// one kind and return `bool`, and the short-circuit connectives take bools.
pub open spec fn binary_rule(op: BinaryOp, l: TypeV, r: TypeV) -> Result<TypeV, TcErr> {
    match op {
        BinaryOp::Add | BinaryOp::Sub | BinaryOp::Mul | BinaryOp::Div | BinaryOp::Mod => {
            if l.is_integer() && r.is_integer() {
                Ok(l)
            } else if l.is_float() && r.is_float() {
                Ok(l)
            } else {
                Err(
                    TcErr {
                        message: "Invalid operand types for arithmetic"@,
                        location: binop_label(op),
                    },
                )
            }
        },
        BinaryOp::LShift | BinaryOp::RShift => {
            if l.is_integer() && r.is_integer() {
                Ok(l)
            } else {
                Err(
                    TcErr {
                        message: "Invalid operand types for shift"@,
                        location: binop_label(op),
                    },
                )
            }
        },
        BinaryOp::BitAnd | BinaryOp::BitOr | BinaryOp::BitXor => {
            if l.is_integer() && r.is_integer() {
                Ok(l)
            } else {
                Err(
                    TcErr {
                        message: "Invalid operand types for bitwise"@,
                        location: binop_label(op),
                    },
                )
            }
        },
        BinaryOp::Eq | BinaryOp::Neq | BinaryOp::Lt | BinaryOp::Gt | BinaryOp::LtEq
        | BinaryOp::GtEq => {
            if l.is_integer() && r.is_integer() {
                Ok(TypeV::Bool)
            } else if l.is_float() && r.is_float() {
                Ok(TypeV::Bool)
            } else {
                Err(
                    TcErr {
                        message: "Invalid operand types for comparison"@,
                        location: binop_label(op),
                    },
                )
            }
        },
        BinaryOp::LogicalAnd | BinaryOp::LogicalOr => {
            if l == TypeV::Bool && r == TypeV::Bool {
                Ok(TypeV::Bool)
            } else {
                Err(
                    TcErr {
                        message: "Invalid operand types for logical"@,
                        location: binop_label(op),
                    },
                )
            }
        },
    }
}

/// The rule for the struct-field part of `Field` and `PtrField` access.
pub open spec fn field_rule(
    structs: Seq<(Seq<char>, StructV)>,
    base: TypeV,
    field: Seq<char>,
    arrow: Seq<char>,
) -> Result<TypeV, TcErr> {
    match base {
        TypeV::Named(sname) => match lookup_struct_decl(structs, sname) {
            Some(sv) => match lookup_field_decl(sv.fields, field) {
                Some(ft) => Ok(ft),
                None => Err(
                    TcErr {
                        message: "Struct "@ + sname + " has no field "@ + field,
                        location: arrow + field,
                    },
                ),
            },
            None => Err(
                TcErr { message: "Unknown struct type "@ + sname, location: arrow + field },
            ),
        },
        _ => Err(
            TcErr {
                message: "Cannot access field on non-struct type"@,
                location: arrow + field,
            },
        ),
    }
}

/// The result type of an expression together with the context after it,
/// since a block expression's bindings stay visible in the enclosing scope.
pub open spec fn tc_expr(ctx: Ctx, e: Expr) -> Result<(TypeV, Ctx), TcErr>
    decreases e,
{
    match e {
        Expr::Literal(l) => Ok((literal_type(l), ctx)),
        Expr::Identifier(name) => match lookup_bind(ctx.binds, name@) {
            Some((t, _)) => Ok((t, ctx)),
            None => Err(undefined_variable(name@, name@)),
        },
        Expr::Unary(op, e1) => match tc_expr(ctx, *e1) {
            Ok((t, c1)) => match unary_rule(op, t) {
                Ok(t2) => Ok((t2, c1)),
                Err(er) => Err(er),
            },
            Err(er) => Err(er),
        },
        Expr::Binary(op, l, r) => match tc_expr(ctx, *l) {
            Ok((lt, c1)) => match tc_expr(c1, *r) {
                Ok((rt, c2)) => match binary_rule(op, lt, rt) {
                    Ok(t2) => Ok((t2, c2)),
                    Err(er) => Err(er),
                },
                Err(er) => Err(er),
            },
            Err(er) => Err(er),
        },
        Expr::Call(f, args) => match tc_expr(ctx, *f) {
            Ok((ft, c1)) => match ft {
                TypeV::Func(params, ret) => if params.len() != args@.len() {
                    Err(
                        TcErr {
                            message: "Wrong number of arguments: expected "@ + dec_chars(
                                params.len(),
                            ) + ", got "@ + dec_chars(args@.len()),
                            location: "function call"@,
                        },
                    )
                } else {
                    match tc_args(c1, args@, params, 0) {
                        Ok(c2) => Ok((*ret, c2)),
                        Err(er) => Err(er),
                    }
                },
                _ => Err(
                    TcErr {
                        message: "Cannot call non-function type"@,
                        location: "function call"@,
                    },
                ),
            },
            Err(er) => Err(er),
        },
        Expr::Syscall(_name, args) => match tc_exprs(ctx, args@) {
            Ok(c1) => Ok((TypeV::Isize, c1)),
            Err(er) => Err(er),
        },
        Expr::Index(arr, idx) => match tc_expr(ctx, *arr) {
            Ok((at, c1)) => match tc_expr(c1, *idx) {
                Ok((it, c2)) => match at {
                    TypeV::Array(_, elem) => if it.is_integer() {
                        Ok((*elem, c2))
                    } else {
                        Err(
                            TcErr {
                                message: "Array index must be integer"@,
                                location: "array index"@,
                            },
                        )
                    },
                    TypeV::Ptr(inner) | TypeV::MutPtr(inner) | TypeV::ConstPtr(inner) => {
                        if it.is_integer() {
                            Ok((*inner, c2))
                        } else {
                            Err(
                                TcErr {
                                    message: "Pointer index must be integer"@,
                                    location: "pointer index"@,
                                },
                            )
                        }
                    },
                    _ => Err(
                        TcErr {
                            message: "Cannot index non-array/non-pointer type"@,
                            location: "array index"@,
                        },
                    ),
                },
                Err(er) => Err(er),
            },
            Err(er) => Err(er),
        },
        Expr::Field(e1, field) => match tc_expr(ctx, *e1) {
            Ok((bt, c1)) => match field_rule(c1.structs, bt, field@, "."@) {
                Ok(ft) => Ok((ft, c1)),
                Err(er) => Err(er),
            },
            Err(er) => Err(er),
        },
        Expr::PtrField(e1, field) => match tc_expr(ctx, *e1) {
            Ok((pt, c1)) => match pt {
                TypeV::Ptr(inner) | TypeV::MutPtr(inner) | TypeV::ConstPtr(inner) => match *inner {
                    TypeV::Named(sname) => match field_rule(
                        c1.structs,
                        TypeV::Named(sname),
                        field@,
                        "->"@,
                    ) {
                        Ok(ft) => Ok((ft, c1)),
                        Err(er) => Err(er),
                    },
                    _ => Err(
                        TcErr {
                            message: "Cannot access field through non-struct pointer"@,
                            location: "->"@ + field@,
                        },
                    ),
                },
                _ => Err(
                    TcErr {
                        message: "Cannot use -> on non-pointer type"@,
                        location: "->"@ + field@,
                    },
                ),
            },
            Err(er) => Err(er),
        },
        Expr::Cast(e1, t) => match tc_expr(ctx, *e1) {
            Ok((_, c1)) => Ok((t@, c1)),
            Err(er) => Err(er),
        },
        Expr::Sizeof(_) => Ok((TypeV::Usize, ctx)),
        Expr::Alignof(_) => Ok((TypeV::Usize, ctx)),
        Expr::Offsetof(_, _) => Ok((TypeV::Usize, ctx)),
        Expr::Assign(l, r) => match tc_expr(ctx, *l) {
            Ok((lt, c1)) => match tc_expr(c1, *r) {
                Ok((rt, c2)) => tc_assign_target(c2, *l, lt, rt),
                Err(er) => Err(er),
            },
            Err(er) => Err(er),
        },
        Expr::AddrOf(e1) => match tc_expr(ctx, *e1) {
            Ok((t, c1)) => Ok((TypeV::MutPtr(Box::new(t)), c1)),
            Err(er) => Err(er),
        },
        Expr::Deref(e1) => match tc_expr(ctx, *e1) {
            Ok((t, c1)) => match t {
                TypeV::Ptr(inner) => Ok((*inner, c1)),
                TypeV::MutPtr(inner) => Ok((*inner, c1)),
                TypeV::ConstPtr(inner) => Ok((*inner, c1)),
                _ => Err(
                    TcErr {
                        message: "Cannot dereference non-pointer type"@,
                        location: "deref"@,
                    },
                ),
            },
            Err(er) => Err(er),
        },
        Expr::Block(stmts, result) => match tc_stmts(ctx, stmts@) {
            Ok(c1) => match result {
                Some(r) => tc_expr(c1, *r),
                None => Ok((TypeV::Void, c1)),
            },
            Err(er) => Err(er),
        },
        Expr::If(if_expr) => tc_if_expr(ctx, *if_expr),
        Expr::Alloc(t, size) => match tc_expr(ctx, *size) {
            Ok((_, c1)) => Ok((TypeV::MutPtr(Box::new(t@)), c1)),
            Err(er) => Err(er),
        },
        Expr::Free(ptr, size) => match tc_expr(ctx, *ptr) {
            Ok((_, c1)) => match tc_expr(c1, *size) {
                Ok((_, c2)) => Ok((TypeV::Void, c2)),
                Err(er) => Err(er),
            },
            Err(er) => Err(er),
        },
    }
}

/// The assignment rule, applied after both sides have been checked: the
/// target must be an identifier, a field or pointer-field access, an index,
/// or a dereference, and the sides must have exactly equal types. An
/// identifier target must carry the constness flag that marks it assignable
/// (parameters and `const` bindings carry it; `let` bindings do not).
pub open spec fn tc_assign_target(ctx: Ctx, l: Expr, lt: TypeV, rt: TypeV) -> Result<
    (TypeV, Ctx),
    TcErr,
> {
    match l {
        Expr::Identifier(name) => match lookup_bind(ctx.binds, name@) {
            Some((_, assignable)) => if assignable {
                if lt == rt {
                    Ok((TypeV::Void, ctx))
                } else {
                    Err(
                        TcErr {
                            message: "Type mismatch in assignment"@,
                            location: "assignment"@,
                        },
                    )
                }
            } else {
                Err(
                    TcErr {
                        message: "Cannot assign to var binding '"@ + name@
                            + "' (immutable value)"@,
                        location: "assignment"@,
                    },
                )
            },
            None => Err(undefined_variable(name@, "assignment"@)),
        },
        Expr::Field(_, _) | Expr::PtrField(_, _) | Expr::Index(_, _) | Expr::Deref(_) => {
            if lt == rt {
                Ok((TypeV::Void, ctx))
            } else {
                Err(
                    TcErr { message: "Type mismatch in assignment"@, location: "assignment"@ },
                )
            }
        },
        _ => Err(
            TcErr { message: "Invalid assignment target"@, location: "assignment"@ },
        ),
    }
}

/// The rule for a conditional expression: a `bool` condition and two
/// branches of exactly equal type.
pub open spec fn tc_if_expr(ctx: Ctx, if_expr: IfExpr) -> Result<(TypeV, Ctx), TcErr>
    decreases if_expr,
{
    match tc_expr(ctx, *if_expr.condition) {
        Ok((ct, c1)) => if ct != TypeV::Bool {
            Err(
                TcErr { message: "If condition must be bool"@, location: "if expression"@ },
            )
        } else {
            match tc_expr(c1, *if_expr.then_expr) {
                Ok((tt, c2)) => match tc_expr(c2, *if_expr.else_expr) {
                    Ok((et, c3)) => if tt == et {
                        Ok((tt, c3))
                    } else {
                        Err(
                            TcErr {
                                message: "If expression branches have different types"@,
                                location: "if expression"@,
                            },
                        )
                    },
                    Err(er) => Err(er),
                },
                Err(er) => Err(er),
            }
        },
        Err(er) => Err(er),
    }
}

/// Checks call arguments in order against the parameter types; `idx` labels
/// diagnostics with the position of the first mismatch.
pub open spec fn tc_args(ctx: Ctx, args: Seq<Expr>, params: Seq<TypeV>, idx: nat) -> Result<
    Ctx,
    TcErr,
>
    decreases args,
{
    if args.len() == 0 {
        Ok(ctx)
    } else {
        match tc_expr(ctx, args[0]) {
            Ok((at, c1)) => if at == params[0] {
                tc_args(c1, args.drop_first(), params.drop_first(), idx + 1)
            } else {
                Err(
                    TcErr {
                        message: "Argument "@ + dec_chars(idx) + " type mismatch"@,
                        location: "argument "@ + dec_chars(idx),
                    },
                )
            },
            Err(er) => Err(er),
        }
    }
}

/// Checks a list of expressions in order, keeping only the context.
pub open spec fn tc_exprs(ctx: Ctx, es: Seq<Expr>) -> Result<Ctx, TcErr>
    decreases es,
{
    if es.len() == 0 {
        Ok(ctx)
    } else {
        match tc_expr(ctx, es[0]) {
            Ok((_, c1)) => tc_exprs(c1, es.drop_first()),
            Err(er) => Err(er),
        }
    }
}

/// The rule shared by `let` and local `const`: infer the initializer's type,
/// demand exact equality with the declared type if one is present, and bind.
pub open spec fn tc_binding_stmt(
    ctx: Ctx,
    name: Seq<char>,
    declared: Option<TypeV>,
    inferred: TypeV,
    is_const: bool,
    mismatch: TcErr,
) -> Result<Ctx, TcErr> {
    match declared {
        Some(t) => if t != inferred {
            Err(mismatch)
        } else {
            Ok(Ctx { binds: ctx.binds.push((name, inferred, is_const)), ..ctx })
        },
        None => Ok(Ctx { binds: ctx.binds.push((name, inferred, is_const)), ..ctx }),
    }
}

pub open spec fn declared_view(ty: Option<Box<Type>>) -> Option<TypeV> {
    match ty {
        Some(t) => Some(t@),
        None => None,
    }
}

pub open spec fn tc_stmt(ctx: Ctx, s: Stmt) -> Result<Ctx, TcErr>
    decreases s,
{
    match s {
        Stmt::Let(l) => match tc_expr(ctx, *l.value) {
            Ok((vt, c1)) => tc_binding_stmt(
                c1,
                l.name@,
                declared_view(l.ty),
                vt,
                false,
                TcErr { message: "Type mismatch in let"@, location: "let "@ + l.name@ },
            ),
            Err(er) => Err(er),
        },
        Stmt::Const(c) => match tc_expr(ctx, *c.value) {
            Ok((vt, c1)) => tc_binding_stmt(
                c1,
                c.name@,
                declared_view(c.ty),
                vt,
                true,
                TcErr { message: "Type mismatch in const"@, location: "const "@ + c.name@ },
            ),
            Err(er) => Err(er),
        },
        Stmt::Expr(e) => match tc_expr(ctx, e) {
            Ok((_, c1)) => Ok(c1),
            Err(er) => Err(er),
        },
        Stmt::Return(r) => match r {
            Some(e) => match tc_expr(ctx, e) {
                Ok((_, c1)) => Ok(c1),
                Err(er) => Err(er),
            },
            None => Ok(ctx),
        },
        Stmt::Break => Ok(ctx),
        Stmt::Continue => Ok(ctx),
        Stmt::Block(stmts) => tc_stmts(ctx, stmts@),
        Stmt::If(if_stmt) => match tc_expr(ctx, *if_stmt.condition) {
            Ok((ct, c1)) => if ct != TypeV::Bool {
                Err(
                    TcErr { message: "If condition must be bool"@, location: "if condition"@ },
                )
            } else {
                match tc_stmts(c1, if_stmt.then_branch@) {
                    Ok(c2) => match if_stmt.else_branch {
                        Some(else_branch) => tc_stmts(c2, else_branch@),
                        None => Ok(c2),
                    },
                    Err(er) => Err(er),
                }
            },
            Err(er) => Err(er),
        },
        Stmt::While(w) => match tc_expr(ctx, *w.condition) {
            Ok((ct, c1)) => if ct != TypeV::Bool {
                Err(
                    TcErr {
                        message: "While condition must be bool"@,
                        location: "while condition"@,
                    },
                )
            } else {
                tc_stmts(c1, w.body@)
            },
            Err(er) => Err(er),
        },
        Stmt::For(f) => match tc_stmt(ctx, *f.init) {
            Ok(c1) => match tc_expr(c1, *f.condition) {
                Ok((ct, c2)) => if ct != TypeV::Bool {
                    Err(
                        TcErr {
                            message: "For condition must be bool"@,
                            location: "for condition"@,
                        },
                    )
                } else {
                    match tc_stmt(c2, *f.update) {
                        Ok(c3) => tc_stmts(c3, f.body@),
                        Err(er) => Err(er),
                    }
                },
                Err(er) => Err(er),
            },
            Err(er) => Err(er),
        },
        Stmt::Asm(_) => Ok(ctx),
        Stmt::Defer(d) => tc_stmt(ctx, *d),
    }
}

pub open spec fn tc_stmts(ctx: Ctx, ss: Seq<Stmt>) -> Result<Ctx, TcErr>
    decreases ss,
{
    if ss.len() == 0 {
        Ok(ctx)
    } else {
        match tc_stmt(ctx, ss[0]) {
            Ok(c1) => tc_stmts(c1, ss.drop_first()),
            Err(er) => Err(er),
        }
    }
}

/// The bindings a function's parameters contribute, in order; parameters
/// carry the flag that marks a binding assignable.
pub open spec fn params_binds(params: Seq<Param>) -> Seq<(Seq<char>, TypeV, bool)>
    decreases params,
{
    if params.len() == 0 {
        Seq::empty()
    } else {
        params_binds(params.drop_last()).push((params.last().name@, params.last().ty@, true))
    }
}

/// The declared-type rule shared by top-level `const` and `var` items: they
/// are checked but contribute no binding (symbols live in the generator).
pub open spec fn tc_top_decl(
    ctx: Ctx,
    declared: Option<TypeV>,
    inferred: TypeV,
    c1: Ctx,
    mismatch: TcErr,
) -> Result<Ctx, TcErr> {
    match declared {
        Some(t) => if t != inferred {
            Err(mismatch)
        } else {
            Ok(c1)
        },
        None => Ok(c1),
    }
}

pub open spec fn tc_item(ctx: Ctx, item: Item) -> Result<Ctx, TcErr>
    decreases item,
{
    match item {
        Item::Function(f) => {
            let c1 = Ctx { binds: ctx.binds + params_binds(f.params@), ..ctx };
            match tc_stmts(c1, f.body@) {
                Ok(c2) => Ok(Ctx { binds: c2.binds.take(ctx.binds.len() as int), ..c2 }),
                Err(er) => Err(er),
            }
        },
        Item::Struct(_) | Item::Union(_) | Item::Enum(_) => Ok(ctx),
        Item::Const(c) => match tc_expr(ctx, *c.value) {
            Ok((vt, c1)) => tc_top_decl(
                ctx,
                declared_view(c.ty),
                vt,
                c1,
                TcErr { message: "Type mismatch in const"@, location: "const "@ + c.name@ },
            ),
            Err(er) => Err(er),
        },
        Item::Var(v) => match tc_expr(ctx, *v.value) {
            Ok((vt, c1)) => tc_top_decl(
                ctx,
                declared_view(v.ty),
                vt,
                c1,
                TcErr { message: "Type mismatch in var"@, location: "var "@ + v.name@ },
            ),
            Err(er) => Err(er),
        },
    }
}

pub open spec fn tc_items(ctx: Ctx, items: Seq<Item>) -> Result<Ctx, TcErr>
    decreases items,
{
    if items.len() == 0 {
        Ok(ctx)
    } else {
        match tc_item(ctx, items[0]) {
            Ok(c1) => tc_items(c1, items.drop_first()),
            Err(er) => Err(er),
        }
    }
}

/// The registration pass: records every aggregate declaration by name, so
/// that the checking pass sees them independent of declaration order.
pub open spec fn register_item(ctx: Ctx, item: Item) -> Ctx {
    match item {
        Item::Struct(s) => Ctx { structs: ctx.structs.push((s.name@, s@)), ..ctx },
        Item::Union(u) => Ctx { unions: ctx.unions.push(u.name@), ..ctx },
        Item::Enum(e) => Ctx { enums: ctx.enums.push(e.name@), ..ctx },
        _ => ctx,
    }
}

pub open spec fn register_items(ctx: Ctx, items: Seq<Item>) -> Ctx
    decreases items,
{
    if items.len() == 0 {
        ctx
    } else {
        register_item(register_items(ctx, items.drop_last()), items.last())
    }
}

pub open spec fn initial_ctx() -> Ctx {
    Ctx {
        binds: Seq::empty(),
        structs: Seq::empty(),
        unions: Seq::empty(),
        enums: Seq::empty(),
    }
}

/// What the checker decides for a whole program.
pub open spec fn tc_program(p: Program) -> Result<Ctx, TcErr> {
    tc_items(register_items(initial_ctx(), p.items@), p.items@)
}


/// `c2` carries every binding of `c1`, in place, and the same tables:
/// checking only ever appends bindings.
pub open spec fn ctx_extends(c1: Ctx, c2: Ctx) -> bool {
    &&& c2.binds.len() >= c1.binds.len()
    &&& c2.binds.take(c1.binds.len() as int) == c1.binds
    &&& c2.structs == c1.structs
    &&& c2.unions == c1.unions
    &&& c2.enums == c1.enums
}

pub proof fn lemma_ctx_extends_refl(c: Ctx)
    ensures
        ctx_extends(c, c),
{
    assert(c.binds.take(c.binds.len() as int) =~= c.binds);
}

pub proof fn lemma_ctx_extends_push(c: Ctx, b: (Seq<char>, TypeV, bool))
    ensures
        ctx_extends(c, Ctx { binds: c.binds.push(b), ..c }),
{
    assert(c.binds.push(b).take(c.binds.len() as int) =~= c.binds);
}

pub proof fn lemma_ctx_extends_trans(a: Ctx, b: Ctx, c: Ctx)
    requires
        ctx_extends(a, b),
        ctx_extends(b, c),
    ensures
        ctx_extends(a, c),
{
    assert forall|i: int| 0 <= i < a.binds.len() implies c.binds[i] == a.binds[i] by {
        assert(b.binds[i] == b.binds.take(a.binds.len() as int)[i]);
        assert(c.binds[i] == c.binds.take(b.binds.len() as int)[i]);
    }
    assert(c.binds.take(a.binds.len() as int) =~= a.binds);
}

pub proof fn lemma_tc_expr_extends(ctx: Ctx, e: Expr)
    ensures
        tc_expr(ctx, e) matches Ok(p) ==> ctx_extends(ctx, p.1),
    decreases e, 1int,
{
    lemma_ctx_extends_refl(ctx);
    match e {
        Expr::Unary(_, _) => lemma_extends_unary(ctx, e),
        Expr::Binary(_, _, _) => lemma_extends_binary(ctx, e),
        Expr::Call(_, _) => lemma_extends_call(ctx, e),
        Expr::Syscall(_, _) => lemma_extends_syscall(ctx, e),
        Expr::Index(_, _) => lemma_extends_index(ctx, e),
        Expr::Field(_, _) => lemma_extends_field(ctx, e),
        Expr::PtrField(_, _) => lemma_extends_ptr_field(ctx, e),
        Expr::Cast(_, _) => lemma_extends_cast(ctx, e),
        Expr::Assign(_, _) => lemma_extends_assign(ctx, e),
        Expr::AddrOf(_) => lemma_extends_addr_of(ctx, e),
        Expr::Deref(_) => lemma_extends_deref(ctx, e),
        Expr::Block(_, _) => lemma_extends_block(ctx, e),
        Expr::If(_) => lemma_extends_if(ctx, e),
        Expr::Alloc(_, _) => lemma_extends_alloc(ctx, e),
        Expr::Free(_, _) => lemma_extends_free(ctx, e),
        _ => {},
    }
}

proof fn lemma_extends_unary(ctx: Ctx, e: Expr)
    requires
        e is Unary,
    ensures
        tc_expr(ctx, e) matches Ok(p) ==> ctx_extends(ctx, p.1),
    decreases e, 0int,
{
    if let Expr::Unary(_op, e1) = e {
        lemma_tc_expr_extends(ctx, *e1);
    }
}

proof fn lemma_extends_binary(ctx: Ctx, e: Expr)
    requires
        e is Binary,
    ensures
        tc_expr(ctx, e) matches Ok(p) ==> ctx_extends(ctx, p.1),
    decreases e, 0int,
{
    if let Expr::Binary(_op, l, r) = e {
        lemma_tc_expr_extends(ctx, *l);
        if let Ok((_, c1)) = tc_expr(ctx, *l) {
            lemma_tc_expr_extends(c1, *r);
            if let Ok((_, c2)) = tc_expr(c1, *r) {
                lemma_ctx_extends_trans(ctx, c1, c2);
            }
        }
    }
}

proof fn lemma_extends_call(ctx: Ctx, e: Expr)
    requires
        e is Call,
    ensures
        tc_expr(ctx, e) matches Ok(p) ==> ctx_extends(ctx, p.1),
    decreases e, 0int,
{
    if let Expr::Call(f, args) = e {
        lemma_tc_expr_extends(ctx, *f);
        if let Ok((ft, c1)) = tc_expr(ctx, *f) {
            if let TypeV::Func(params, _) = ft {
                if params.len() == args@.len() {
                    lemma_tc_args_extends(c1, args@, params, 0);
                    if let Ok(c2) = tc_args(c1, args@, params, 0) {
                        lemma_ctx_extends_trans(ctx, c1, c2);
                    }
                }
            }
        }
    }
}

proof fn lemma_extends_syscall(ctx: Ctx, e: Expr)
    requires
        e is Syscall,
    ensures
        tc_expr(ctx, e) matches Ok(p) ==> ctx_extends(ctx, p.1),
    decreases e, 0int,
{
    if let Expr::Syscall(_name, args) = e {
        lemma_tc_exprs_extends(ctx, args@);
    }
}

proof fn lemma_extends_index(ctx: Ctx, e: Expr)
    requires
        e is Index,
    ensures
        tc_expr(ctx, e) matches Ok(p) ==> ctx_extends(ctx, p.1),
    decreases e, 0int,
{
    if let Expr::Index(arr, idx) = e {
        lemma_tc_expr_extends(ctx, *arr);
        if let Ok((_, c1)) = tc_expr(ctx, *arr) {
            lemma_tc_expr_extends(c1, *idx);
            if let Ok((_, c2)) = tc_expr(c1, *idx) {
                lemma_ctx_extends_trans(ctx, c1, c2);
            }
        }
    }
}

proof fn lemma_extends_field(ctx: Ctx, e: Expr)
    requires
        e is Field,
    ensures
        tc_expr(ctx, e) matches Ok(p) ==> ctx_extends(ctx, p.1),
    decreases e, 0int,
{
    if let Expr::Field(e1, _field) = e {
        lemma_tc_expr_extends(ctx, *e1);
    }
}

proof fn lemma_extends_ptr_field(ctx: Ctx, e: Expr)
    requires
        e is PtrField,
    ensures
        tc_expr(ctx, e) matches Ok(p) ==> ctx_extends(ctx, p.1),
    decreases e, 0int,
{
    if let Expr::PtrField(e1, _field) = e {
        lemma_tc_expr_extends(ctx, *e1);
    }
}

proof fn lemma_extends_cast(ctx: Ctx, e: Expr)
    requires
        e is Cast,
    ensures
        tc_expr(ctx, e) matches Ok(p) ==> ctx_extends(ctx, p.1),
    decreases e, 0int,
{
    if let Expr::Cast(e1, _t) = e {
        lemma_tc_expr_extends(ctx, *e1);
    }
}

proof fn lemma_extends_assign(ctx: Ctx, e: Expr)
    requires
        e is Assign,
    ensures
        tc_expr(ctx, e) matches Ok(p) ==> ctx_extends(ctx, p.1),
    decreases e, 0int,
{
    if let Expr::Assign(l, r) = e {
        lemma_tc_expr_extends(ctx, *l);
        if let Ok((_, c1)) = tc_expr(ctx, *l) {
            lemma_tc_expr_extends(c1, *r);
            if let Ok((_, c2)) = tc_expr(c1, *r) {
                lemma_ctx_extends_trans(ctx, c1, c2);
            }
        }
    }
}

proof fn lemma_extends_addr_of(ctx: Ctx, e: Expr)
    requires
        e is AddrOf,
    ensures
        tc_expr(ctx, e) matches Ok(p) ==> ctx_extends(ctx, p.1),
    decreases e, 0int,
{
    if let Expr::AddrOf(e1) = e {
        lemma_tc_expr_extends(ctx, *e1);
    }
}

proof fn lemma_extends_deref(ctx: Ctx, e: Expr)
    requires
        e is Deref,
    ensures
        tc_expr(ctx, e) matches Ok(p) ==> ctx_extends(ctx, p.1),
    decreases e, 0int,
{
    if let Expr::Deref(e1) = e {
        lemma_tc_expr_extends(ctx, *e1);
    }
}

proof fn lemma_extends_block(ctx: Ctx, e: Expr)
    requires
        e is Block,
    ensures
        tc_expr(ctx, e) matches Ok(p) ==> ctx_extends(ctx, p.1),
    decreases e, 0int,
{
    if let Expr::Block(stmts, result) = e {
        lemma_tc_stmts_extends(ctx, stmts@);
        if let Ok(c1) = tc_stmts(ctx, stmts@) {
            if let Some(r) = result {
                lemma_tc_expr_extends(c1, *r);
                if let Ok((_, c2)) = tc_expr(c1, *r) {
                    lemma_ctx_extends_trans(ctx, c1, c2);
                }
            } else {
                lemma_ctx_extends_refl(ctx);
            }
        }
    }
}

#[verifier::rlimit(60)]
#[verifier::spinoff_prover]
proof fn lemma_extends_if(ctx: Ctx, e: Expr)
    requires
        e is If,
    ensures
        tc_expr(ctx, e) matches Ok(p) ==> ctx_extends(ctx, p.1),
    decreases e, 0int,
{
    if let Expr::If(if_expr) = e {
        assert(tc_expr(ctx, e) == tc_if_expr(ctx, *if_expr));
        let cond = *if_expr.condition;
        lemma_tc_expr_extends(ctx, cond);
        assert(tc_expr(ctx, cond) matches Ok(p) ==> ctx_extends(ctx, p.1));
        if let Ok((_, c1)) = tc_expr(ctx, cond) {
            lemma_tc_expr_extends(c1, *if_expr.then_expr);
            if let Ok((_, c2)) = tc_expr(c1, *if_expr.then_expr) {
                lemma_ctx_extends_trans(ctx, c1, c2);
                lemma_tc_expr_extends(c2, *if_expr.else_expr);
                if let Ok((_, c3)) = tc_expr(c2, *if_expr.else_expr) {
                    lemma_ctx_extends_trans(ctx, c2, c3);
                }
            }
        }
    }
}

proof fn lemma_extends_alloc(ctx: Ctx, e: Expr)
    requires
        e is Alloc,
    ensures
        tc_expr(ctx, e) matches Ok(p) ==> ctx_extends(ctx, p.1),
    decreases e, 0int,
{
    if let Expr::Alloc(_t, size) = e {
        lemma_tc_expr_extends(ctx, *size);
    }
}

proof fn lemma_extends_free(ctx: Ctx, e: Expr)
    requires
        e is Free,
    ensures
        tc_expr(ctx, e) matches Ok(p) ==> ctx_extends(ctx, p.1),
    decreases e, 0int,
{
    if let Expr::Free(ptr, size) = e {
        lemma_tc_expr_extends(ctx, *ptr);
        if let Ok((_, c1)) = tc_expr(ctx, *ptr) {
            lemma_tc_expr_extends(c1, *size);
            if let Ok((_, c2)) = tc_expr(c1, *size) {
                lemma_ctx_extends_trans(ctx, c1, c2);
            }
        }
    }
}

pub proof fn lemma_tc_args_extends(ctx: Ctx, args: Seq<Expr>, params: Seq<TypeV>, idx: nat)
    ensures
        tc_args(ctx, args, params, idx) matches Ok(c) ==> ctx_extends(ctx, c),
    decreases args,
{
    lemma_ctx_extends_refl(ctx);
    if args.len() > 0 {
        lemma_tc_expr_extends(ctx, args[0]);
        if let Ok((at, c1)) = tc_expr(ctx, args[0]) {
            lemma_tc_args_extends(c1, args.drop_first(), params.drop_first(), idx + 1);
            if at == params[0] {
                if let Ok(c2) = tc_args(c1, args.drop_first(), params.drop_first(), idx + 1) {
                    lemma_ctx_extends_trans(ctx, c1, c2);
                }
            }
        }
    }
}

pub proof fn lemma_tc_exprs_extends(ctx: Ctx, es: Seq<Expr>)
    ensures
        tc_exprs(ctx, es) matches Ok(c) ==> ctx_extends(ctx, c),
    decreases es,
{
    lemma_ctx_extends_refl(ctx);
    if es.len() > 0 {
        lemma_tc_expr_extends(ctx, es[0]);
        if let Ok((_, c1)) = tc_expr(ctx, es[0]) {
            lemma_tc_exprs_extends(c1, es.drop_first());
            if let Ok(c2) = tc_exprs(c1, es.drop_first()) {
                lemma_ctx_extends_trans(ctx, c1, c2);
            }
        }
    }
}

pub proof fn lemma_tc_stmt_extends(ctx: Ctx, s: Stmt)
    ensures
        tc_stmt(ctx, s) matches Ok(c) ==> ctx_extends(ctx, c),
    decreases s,
{
    lemma_ctx_extends_refl(ctx);
    match s {
        Stmt::Let(l) => {
            lemma_tc_expr_extends(ctx, *l.value);
            if let Ok((vt, c1)) = tc_expr(ctx, *l.value) {
                lemma_ctx_extends_push(c1, (l.name@, vt, false));
                lemma_ctx_extends_trans(ctx, c1, Ctx { binds: c1.binds.push((l.name@, vt, false)), ..c1 });
            }
        },
        Stmt::Const(c) => {
            lemma_tc_expr_extends(ctx, *c.value);
            if let Ok((vt, c1)) = tc_expr(ctx, *c.value) {
                lemma_ctx_extends_push(c1, (c.name@, vt, true));
                lemma_ctx_extends_trans(ctx, c1, Ctx { binds: c1.binds.push((c.name@, vt, true)), ..c1 });
            }
        },
        Stmt::Expr(e) => {
            lemma_tc_expr_extends(ctx, e);
        },
        Stmt::Return(r) => {
            if let Some(e) = r {
                lemma_tc_expr_extends(ctx, e);
            }
        },
        Stmt::Block(stmts) => {
            lemma_tc_stmts_extends(ctx, stmts@);
        },
        Stmt::If(if_stmt) => {
            lemma_tc_expr_extends(ctx, *if_stmt.condition);
            if let Ok((ct, c1)) = tc_expr(ctx, *if_stmt.condition) {
                if ct == TypeV::Bool {
                    lemma_tc_stmts_extends(c1, if_stmt.then_branch@);
                    if let Ok(c2) = tc_stmts(c1, if_stmt.then_branch@) {
                        lemma_ctx_extends_trans(ctx, c1, c2);
                        if let Some(else_branch) = if_stmt.else_branch {
                            lemma_tc_stmts_extends(c2, else_branch@);
                            if let Ok(c3) = tc_stmts(c2, else_branch@) {
                                lemma_ctx_extends_trans(ctx, c2, c3);
                            }
                        }
                    }
                }
            }
        },
        Stmt::While(w) => {
            lemma_tc_expr_extends(ctx, *w.condition);
            if let Ok((ct, c1)) = tc_expr(ctx, *w.condition) {
                if ct == TypeV::Bool {
                    lemma_tc_stmts_extends(c1, w.body@);
                    if let Ok(c2) = tc_stmts(c1, w.body@) {
                        lemma_ctx_extends_trans(ctx, c1, c2);
                    }
                }
            }
        },
        Stmt::For(f) => {
            lemma_tc_stmt_extends(ctx, *f.init);
            if let Ok(c1) = tc_stmt(ctx, *f.init) {
                lemma_tc_expr_extends(c1, *f.condition);
                if let Ok((ct, c2)) = tc_expr(c1, *f.condition) {
                    lemma_ctx_extends_trans(ctx, c1, c2);
                    if ct == TypeV::Bool {
                        lemma_tc_stmt_extends(c2, *f.update);
                        if let Ok(c3) = tc_stmt(c2, *f.update) {
                            lemma_ctx_extends_trans(ctx, c2, c3);
                            lemma_tc_stmts_extends(c3, f.body@);
                            if let Ok(c4) = tc_stmts(c3, f.body@) {
                                lemma_ctx_extends_trans(ctx, c3, c4);
                            }
                        }
                    }
                }
            }
        },
        Stmt::Defer(d) => {
            lemma_tc_stmt_extends(ctx, *d);
        },
        _ => {},
    }
}

pub proof fn lemma_tc_stmts_extends(ctx: Ctx, ss: Seq<Stmt>)
    ensures
        tc_stmts(ctx, ss) matches Ok(c) ==> ctx_extends(ctx, c),
    decreases ss,
{
    lemma_ctx_extends_refl(ctx);
    if ss.len() > 0 {
        lemma_tc_stmt_extends(ctx, ss[0]);
        if let Ok(c1) = tc_stmt(ctx, ss[0]) {
            lemma_tc_stmts_extends(c1, ss.drop_first());
            if let Ok(c2) = tc_stmts(c1, ss.drop_first()) {
                lemma_ctx_extends_trans(ctx, c1, c2);
            }
        }
    }
}


// ---------------------------------------------------------------------------
// The executable checker.
// ---------------------------------------------------------------------------

/// Builds `a` followed by `b`.
fn concat2(a: &str, b: &str) -> (r: String)
    ensures
        r@ == a@ + b@,
{
    let mut s = String::from_str(a);
    s.append(b);
    s
}

/// Builds `a`, `b`, `c` in order.
fn concat3(a: &str, b: &str, c: &str) -> (r: String)
    ensures
        r@ == a@ + b@ + c@,
{
    let mut s = String::from_str(a);
    s.append(b);
    s.append(c);
    s
}

fn dec_digit_string(d: u64) -> (s: String)
    requires
        d < 10,
    ensures
        s@ == dec_digit(d as nat),
{
    if d == 0 {
        String::from_str("0")
    } else if d == 1 {
        String::from_str("1")
    } else if d == 2 {
        String::from_str("2")
    } else if d == 3 {
        String::from_str("3")
    } else if d == 4 {
        String::from_str("4")
    } else if d == 5 {
        String::from_str("5")
    } else if d == 6 {
        String::from_str("6")
    } else if d == 7 {
        String::from_str("7")
    } else if d == 8 {
        String::from_str("8")
    } else {
        String::from_str("9")
    }
}

/// Renders `n` in decimal.
pub fn dec_string(n: u64) -> (s: String)
    ensures
        s@ == dec_chars(n as nat),
    decreases n,
{
    if n < 10 {
        dec_digit_string(n)
    } else {
        let mut s = dec_string(n / 10);
        let d = dec_digit_string(n % 10);
        s.append(d.as_str());
        s
    }
}

fn binop_label_string(op: &BinaryOp) -> (s: String)
    ensures
        s@ == binop_label(*op),
{
    match op {
        BinaryOp::Add => String::from_str("Add"),
        BinaryOp::Sub => String::from_str("Sub"),
        BinaryOp::Mul => String::from_str("Mul"),
        BinaryOp::Div => String::from_str("Div"),
        BinaryOp::Mod => String::from_str("Mod"),
        BinaryOp::LShift => String::from_str("LShift"),
        BinaryOp::RShift => String::from_str("RShift"),
        BinaryOp::BitAnd => String::from_str("BitAnd"),
        BinaryOp::BitOr => String::from_str("BitOr"),
        BinaryOp::BitXor => String::from_str("BitXor"),
        BinaryOp::Eq => String::from_str("Eq"),
        BinaryOp::Neq => String::from_str("Neq"),
        BinaryOp::Lt => String::from_str("Lt"),
        BinaryOp::Gt => String::from_str("Gt"),
        BinaryOp::LtEq => String::from_str("LtEq"),
        BinaryOp::GtEq => String::from_str("GtEq"),
        BinaryOp::LogicalAnd => String::from_str("LogicalAnd"),
        BinaryOp::LogicalOr => String::from_str("LogicalOr"),
    }
}

pub open spec fn binds_view(s: Seq<(String, Type, bool)>) -> Seq<(Seq<char>, TypeV, bool)>
    decreases s,
{
    if s.len() == 0 {
        Seq::empty()
    } else {
        binds_view(s.drop_last()).push((s.last().0@, s.last().1@, s.last().2))
    }
}

pub proof fn lemma_binds_view(s: Seq<(String, Type, bool)>)
    ensures
        binds_view(s).len() == s.len(),
        forall|i: int|
            0 <= i < s.len() ==> #[trigger] binds_view(s)[i] == (s[i].0@, s[i].1@, s[i].2),
    decreases s,
{
    if s.len() > 0 {
        lemma_binds_view(s.drop_last());
    }
}

pub proof fn lemma_binds_view_push(s: Seq<(String, Type, bool)>, x: (String, Type, bool))
    ensures
        binds_view(s.push(x)) == binds_view(s).push((x.0@, x.1@, x.2)),
{
    assert(s.push(x).drop_last() =~= s);
    assert(s.push(x).last() == x);
}

pub proof fn lemma_binds_view_take(s: Seq<(String, Type, bool)>, m: int)
    requires
        0 <= m <= s.len(),
    ensures
        binds_view(s.take(m)) == binds_view(s).take(m),
{
    lemma_binds_view(s);
    lemma_binds_view(s.take(m));
    assert(binds_view(s.take(m)) =~= binds_view(s).take(m));
}

pub open spec fn structs_view(s: Seq<(String, Struct)>) -> Seq<(Seq<char>, StructV)>
    decreases s,
{
    if s.len() == 0 {
        Seq::empty()
    } else {
        structs_view(s.drop_last()).push((s.last().0@, s.last().1@))
    }
}

pub proof fn lemma_structs_view(s: Seq<(String, Struct)>)
    ensures
        structs_view(s).len() == s.len(),
        forall|i: int|
            0 <= i < s.len() ==> #[trigger] structs_view(s)[i] == (s[i].0@, s[i].1@),
    decreases s,
{
    if s.len() > 0 {
        lemma_structs_view(s.drop_last());
    }
}

pub proof fn lemma_structs_view_push(s: Seq<(String, Struct)>, x: (String, Struct))
    ensures
        structs_view(s.push(x)) == structs_view(s).push((x.0@, x.1@)),
{
    assert(s.push(x).drop_last() =~= s);
    assert(s.push(x).last() == x);
}

pub open spec fn unions_view(s: Seq<(String, Union)>) -> Seq<Seq<char>>
    decreases s,
{
    if s.len() == 0 {
        Seq::empty()
    } else {
        unions_view(s.drop_last()).push(s.last().0@)
    }
}

pub proof fn lemma_unions_view_push(s: Seq<(String, Union)>, x: (String, Union))
    ensures
        unions_view(s.push(x)) == unions_view(s).push(x.0@),
{
    assert(s.push(x).drop_last() =~= s);
    assert(s.push(x).last() == x);
}

pub open spec fn enums_view(s: Seq<(String, Enum)>) -> Seq<Seq<char>>
    decreases s,
{
    if s.len() == 0 {
        Seq::empty()
    } else {
        enums_view(s.drop_last()).push(s.last().0@)
    }
}

pub proof fn lemma_enums_view_push(s: Seq<(String, Enum)>, x: (String, Enum))
    ensures
        enums_view(s.push(x)) == enums_view(s).push(x.0@),
{
    assert(s.push(x).drop_last() =~= s);
    assert(s.push(x).last() == x);
}

pub proof fn lemma_params_binds_push(s: Seq<Param>, x: Param)
    ensures
        params_binds(s.push(x)) == params_binds(s).push((x.name@, x.ty@, true)),
{
    assert(s.push(x).drop_last() =~= s);
    assert(s.push(x).last() == x);
}

/// The owned state of one checking run: the flat binding list, youngest
/// last, and the three declaration tables, keyed by name with the youngest
/// registration winning.
struct TypeContext {
    bindings: Vec<(String, Type, bool)>,
    structs: Vec<(String, Struct)>,
    unions: Vec<(String, Union)>,
    enums: Vec<(String, Enum)>,
}

impl View for TypeContext {
    type V = Ctx;

    closed spec fn view(&self) -> Ctx {
        Ctx {
            binds: binds_view(self.bindings@),
            structs: structs_view(self.structs@),
            unions: unions_view(self.unions@),
            enums: enums_view(self.enums@),
        }
    }
}

impl TypeContext {
    fn new() -> (r: Self)
        ensures
            r@ == initial_ctx(),
    {
        let r = TypeContext {
            bindings: Vec::new(),
            structs: Vec::new(),
            unions: Vec::new(),
            enums: Vec::new(),
        };
        proof {
            assert(r@ =~= initial_ctx());
        }
        r
    }

    fn add_variable(&mut self, name: String, ty: Type, is_const: bool)
        ensures
            final(self)@ == (Ctx {
                binds: old(self)@.binds.push((name@, ty@, is_const)),
                ..old(self)@
            }),
    {
        let ghost prefix = self.bindings@;
        let ghost entry = (name@, ty@, is_const);
        self.bindings.push((name, ty, is_const));
        proof {
            lemma_binds_view_push(prefix, self.bindings@.last());
            assert(self.bindings@ =~= prefix.push(self.bindings@.last()));
            assert(self@ =~= Ctx { binds: old(self)@.binds.push(entry), ..old(self)@ });
        }
    }

    /// Walks the bindings youngest-first; the first hit wins, which is the
    /// lookup order of a stack of scopes.
    fn lookup_variable(&self, name: &String) -> (r: Option<(&Type, bool)>)
        ensures
            match r {
                Some(b) => lookup_bind(self@.binds, name@) == Some((b.0@, b.1)),
                None => lookup_bind(self@.binds, name@) is None,
            },
    {
        proof {
            lemma_binds_view(self.bindings@);
        }
        let ghost bv = binds_view(self.bindings@);
        let mut i: usize = self.bindings.len();
        proof {
            assert(bv.take(i as int) =~= bv);
        }
        while i > 0
            invariant
                i <= self.bindings.len(),
                bv == binds_view(self.bindings@),
                bv.len() == self.bindings@.len(),
                forall|j: int|
                    0 <= j < self.bindings@.len() ==> #[trigger] bv[j] == (
                        self.bindings@[j].0@,
                        self.bindings@[j].1@,
                        self.bindings@[j].2,
                    ),
                lookup_bind(bv, name@) == lookup_bind(bv.take(i as int), name@),
            decreases i,
        {
            i = i - 1;
            proof {
                assert(bv.take(i + 1).last() == bv[i as int]);
                assert(bv.take(i + 1).drop_last() =~= bv.take(i as int));
            }
            if self.bindings[i].0.eq(name) {
                return Some((&self.bindings[i].1, self.bindings[i].2));
            }
        }
        proof {
            assert(bv.take(0) =~= Seq::<(Seq<char>, TypeV, bool)>::empty());
        }
        None
    }

    /// The youngest struct registration under `name`.
    fn lookup_struct(&self, name: &String) -> (r: Option<&Struct>)
        ensures
            match r {
                Some(s) => lookup_struct_decl(self@.structs, name@) == Some(s@),
                None => lookup_struct_decl(self@.structs, name@) is None,
            },
    {
        proof {
            lemma_structs_view(self.structs@);
        }
        let ghost sv = structs_view(self.structs@);
        let mut i: usize = self.structs.len();
        proof {
            assert(sv.take(i as int) =~= sv);
        }
        while i > 0
            invariant
                i <= self.structs.len(),
                sv == structs_view(self.structs@),
                sv.len() == self.structs@.len(),
                forall|j: int|
                    0 <= j < self.structs@.len() ==> #[trigger] sv[j] == (
                        self.structs@[j].0@,
                        self.structs@[j].1@,
                    ),
                lookup_struct_decl(sv, name@) == lookup_struct_decl(sv.take(i as int), name@),
            decreases i,
        {
            i = i - 1;
            proof {
                assert(sv.take(i + 1).last() == sv[i as int]);
                assert(sv.take(i + 1).drop_last() =~= sv.take(i as int));
            }
            if self.structs[i].0.eq(name) {
                return Some(&self.structs[i].1);
            }
        }
        proof {
            assert(sv.take(0) =~= Seq::<(Seq<char>, StructV)>::empty());
        }
        None
    }

    /// Registers an aggregate declaration under its name.
    fn register_item(&mut self, item: &Item)
        ensures
            final(self)@ == register_item(old(self)@, *item),
    {
        match item {
            Item::Struct(s) => {
                let ghost prefix = self.structs@;
                self.structs.push((s.name.clone(), s.clone()));
                proof {
                    lemma_structs_view_push(prefix, self.structs@.last());
                    assert(self.structs@ =~= prefix.push(self.structs@.last()));
                    assert(self@ =~= register_item(old(self)@, *item));
                }
            },
            Item::Union(u) => {
                let ghost prefix = self.unions@;
                self.unions.push((u.name.clone(), u.clone()));
                proof {
                    lemma_unions_view_push(prefix, self.unions@.last());
                    assert(self.unions@ =~= prefix.push(self.unions@.last()));
                    assert(self@ =~= register_item(old(self)@, *item));
                }
            },
            Item::Enum(e) => {
                let ghost prefix = self.enums@;
                self.enums.push((e.name.clone(), e.clone()));
                proof {
                    lemma_enums_view_push(prefix, self.enums@.last());
                    assert(self.enums@ =~= prefix.push(self.enums@.last()));
                    assert(self@ =~= register_item(old(self)@, *item));
                }
            },
            _ => {
                proof {
                    assert(self@ =~= register_item(old(self)@, *item));
                }
            },
        }
    }
}


/// The type an integer suffix selects.
fn int_suffix_type(suffix: &IntSuffix) -> (t: Type)
    ensures
        t@ == literal_type(Literal::Int(0, *suffix)),
{
    match suffix {
        IntSuffix::I8 => Type::I8,
        IntSuffix::I16 => Type::I16,
        IntSuffix::I32 => Type::I32,
        IntSuffix::I64 => Type::I64,
        IntSuffix::U8 => Type::U8,
        IntSuffix::U16 => Type::U16,
        IntSuffix::U32 => Type::U32,
        IntSuffix::U64 => Type::U64,
        IntSuffix::Usize => Type::Usize,
        IntSuffix::Isize => Type::Isize,
        IntSuffix::Unsuffixed => Type::I32,
    }
}

/// The type a literal carries.
fn literal_type_exec(l: &Literal) -> (t: Type)
    ensures
        t@ == literal_type(*l),
{
    match l {
        Literal::Int(_, suffix) => int_suffix_type(suffix),
        Literal::Float(_, suffix) => match suffix {
            FloatSuffix::F32 => Type::F32,
            FloatSuffix::F64 => Type::F64,
            FloatSuffix::Unsuffixed => Type::F64,
        },
        Literal::Bool(_) => Type::Bool,
        Literal::String(_) => {
            let t = Type::MutPtr(Box::new(Type::U8));
            proof {
                assert(type_view(Type::U8) == TypeV::U8);
            }
            t
        },
        Literal::Char(_) => Type::U8,
    }
}

/// Applies the unary-operator rule to the checked operand type.
#[verifier::spinoff_prover]
fn apply_unary(op: &UnaryOp, t: Type) -> (r: Result<Type, TypeError>)
    ensures
        (match r {
            Ok(t2) => unary_rule(*op, t@) matches Ok(v) && v == t2@,
            Err(er) => unary_rule(*op, t@) matches Err(se) && se == er@,
        }),
{
    match op {
        UnaryOp::Neg => {
            if t.is_integer() || t.is_float() {
                Ok(t)
            } else {
                Err(
                    TypeError {
                        message: String::from_str("Cannot negate type"),
                        location: String::from_str("neg"),
                    },
                )
            }
        },
        UnaryOp::Not => {
            match t {
                Type::Bool => Ok(Type::Bool),
                _ => Err(
                    TypeError {
                        message: String::from_str("Cannot logical NOT type"),
                        location: String::from_str("not"),
                    },
                ),
            }
        },
        UnaryOp::BitNot => {
            if t.is_integer() {
                Ok(t)
            } else {
                Err(
                    TypeError {
                        message: String::from_str("Cannot bitwise NOT type"),
                        location: String::from_str("bitnot"),
                    },
                )
            }
        },
        UnaryOp::Deref => {
            match t {
                Type::Ptr(inner) => Ok(*inner),
                Type::MutPtr(inner) => Ok(*inner),
                Type::ConstPtr(inner) => Ok(*inner),
                _ => Err(
                    TypeError {
                        message: String::from_str("Cannot dereference non-pointer type"),
                        location: String::from_str("deref"),
                    },
                ),
            }
        },
        UnaryOp::AddrOf => Ok(Type::MutPtr(Box::new(t))),
    }
}

/// Applies the binary-operator rule to the checked operand types.
#[verifier::spinoff_prover]
fn apply_binary(op: &BinaryOp, l: Type, r2: Type) -> (r: Result<Type, TypeError>)
    ensures
        (match r {
            Ok(t2) => binary_rule(*op, l@, r2@) matches Ok(v) && v == t2@,
            Err(er) => binary_rule(*op, l@, r2@) matches Err(se) && se == er@,
        }),
{
    match op {
        BinaryOp::Add | BinaryOp::Sub | BinaryOp::Mul | BinaryOp::Div | BinaryOp::Mod => {
            if l.is_integer() && r2.is_integer() {
                Ok(l)
            } else if l.is_float() && r2.is_float() {
                Ok(l)
            } else {
                Err(
                    TypeError {
                        message: String::from_str("Invalid operand types for arithmetic"),
                        location: binop_label_string(op),
                    },
                )
            }
        },
        BinaryOp::LShift | BinaryOp::RShift => {
            if l.is_integer() && r2.is_integer() {
                Ok(l)
            } else {
                Err(
                    TypeError {
                        message: String::from_str("Invalid operand types for shift"),
                        location: binop_label_string(op),
                    },
                )
            }
        },
        BinaryOp::BitAnd | BinaryOp::BitOr | BinaryOp::BitXor => {
            if l.is_integer() && r2.is_integer() {
                Ok(l)
            } else {
                Err(
                    TypeError {
                        message: String::from_str("Invalid operand types for bitwise"),
                        location: binop_label_string(op),
                    },
                )
            }
        },
        BinaryOp::Eq | BinaryOp::Neq | BinaryOp::Lt | BinaryOp::Gt | BinaryOp::LtEq
        | BinaryOp::GtEq => {
            if l.is_integer() && r2.is_integer() {
                Ok(Type::Bool)
            } else if l.is_float() && r2.is_float() {
                Ok(Type::Bool)
            } else {
                Err(
                    TypeError {
                        message: String::from_str("Invalid operand types for comparison"),
                        location: binop_label_string(op),
                    },
                )
            }
        },
        BinaryOp::LogicalAnd | BinaryOp::LogicalOr => {
            let l_bool = match l {
                Type::Bool => true,
                _ => false,
            };
            let r_bool = match r2 {
                Type::Bool => true,
                _ => false,
            };
            if l_bool && r_bool {
                Ok(Type::Bool)
            } else {
                Err(
                    TypeError {
                        message: String::from_str("Invalid operand types for logical"),
                        location: binop_label_string(op),
                    },
                )
            }
        },
    }
}

impl TypeContext {
    /// The struct-field part of `Field` and `PtrField` access: finds the
    /// named struct, then the first field under that name.
    #[verifier::spinoff_prover]
    fn struct_field_type(&self, sname: &String, field: &String, arrow: &str) -> (r: Result<
        Type,
        TypeError,
    >)
        ensures
            (match r {
                Ok(t) => field_rule(self@.structs, TypeV::Named(sname@), field@, arrow@)
                    matches Ok(ft) && ft == t@,
                Err(er) => field_rule(self@.structs, TypeV::Named(sname@), field@, arrow@)
                    matches Err(se) && se == er@,
            }),
    {
        match self.lookup_struct(sname) {
            Some(s) => {
                proof {
                    lemma_fields_view(s.fields@);
                }
                let ghost fv = fields_view(s.fields@);
                let mut i: usize = 0;
                proof {
                    assert(fv.skip(0) =~= fv);
                }
                while i < s.fields.len()
                    invariant
                        i <= s.fields.len(),
                        lookup_struct_decl(self@.structs, sname@) == Some(s@),
                        arrow@ == arrow@,
                        fv == fields_view(s.fields@),
                        fv.len() == s.fields@.len(),
                        forall|j: int|
                            0 <= j < s.fields@.len() ==> #[trigger] fv[j] == s.fields@[j]@,
                        lookup_field_decl(fv, field@) == lookup_field_decl(
                            fv.skip(i as int),
                            field@,
                        ),
                    decreases s.fields.len() - i,
                {
                    proof {
                        assert(fv.skip(i as int)[0] == fv[i as int]);
                        assert(fv.skip(i as int).drop_first() =~= fv.skip(i + 1));
                    }
                    if s.fields[i].name.eq(field) {
                        return Ok((&*s.fields[i].ty).clone());
                    }
                    i = i + 1;
                }
                proof {
                    assert(fv.skip(i as int) =~= Seq::<FieldV>::empty());
                }
                let mut m = concat3("Struct ", sname.as_str(), " has no field ");
                m.append(field.as_str());
                Err(TypeError { message: m, location: concat2(arrow, field.as_str()) })
            },
            None => Err(
                TypeError {
                    message: concat2("Unknown struct type ", sname.as_str()),
                    location: concat2(arrow, field.as_str()),
                },
            ),
        }
    }

    #[verifier::spinoff_prover]
    fn typecheck_expr(&mut self, e: &Expr) -> (r: Result<Type, TypeError>)
        ensures
            (match r {
                Ok(t) => tc_expr(old(self)@, *e) matches Ok(p) && p.0 == t@ && p.1
                    == final(self)@,
                Err(er) => tc_expr(old(self)@, *e) matches Err(se) && se == er@,
            }),
        decreases e, 1int,
    {
        match e {
            Expr::Literal(l) => Ok(literal_type_exec(l)),
            Expr::Identifier(name) => match self.lookup_variable(name) {
                Some(b) => Ok(b.0.clone()),
                None => Err(
                    TypeError {
                        message: concat2("Undefined variable: ", name.as_str()),
                        location: name.clone(),
                    },
                ),
            },
            Expr::Unary(_, _) => self.typecheck_unary_expr(e),
            Expr::Binary(_, _, _) => self.typecheck_binary_expr(e),
            Expr::Call(_, _) => self.typecheck_call_expr(e),
            Expr::Syscall(_, _) => self.typecheck_syscall_expr(e),
            Expr::Index(_, _) => self.typecheck_index_expr(e),
            Expr::Field(_, _) => self.typecheck_field_expr(e),
            Expr::PtrField(_, _) => self.typecheck_ptr_field_expr(e),
            Expr::Cast(_, _) => self.typecheck_cast_expr(e),
            Expr::Sizeof(_) => Ok(Type::Usize),
            Expr::Alignof(_) => Ok(Type::Usize),
            Expr::Offsetof(_, _) => Ok(Type::Usize),
            Expr::Assign(_, _) => self.typecheck_assign_expr(e),
            Expr::AddrOf(_) => self.typecheck_addr_of_expr(e),
            Expr::Deref(_) => self.typecheck_deref_expr(e),
            Expr::Block(_, _) => self.typecheck_block_expr(e),
            Expr::If(_) => self.typecheck_if_expr(e),
            Expr::Alloc(_, _) => self.typecheck_alloc_expr(e),
            Expr::Free(_, _) => self.typecheck_free_expr(e),
        }
    }

    #[verifier::spinoff_prover]
    fn typecheck_unary_expr(&mut self, e: &Expr) -> (r: Result<Type, TypeError>)
        requires
            *e is Unary,
        ensures
            (match r {
                Ok(t) => tc_expr(old(self)@, *e) matches Ok(p) && p.0 == t@ && p.1
                    == final(self)@,
                Err(er) => tc_expr(old(self)@, *e) matches Err(se) && se == er@,
            }),
        decreases e, 0int,
    {
        if let Expr::Unary(op, e1) = e {
            let t = match self.typecheck_expr(e1) {
                Ok(t) => t,
                Err(er) => {
                    return Err(er);
                },
            };
            apply_unary(op, t)
        } else {
            proof {
                assert(false);
            }
            Err(TypeError { message: String::new(), location: String::new() })
        }
    }

    #[verifier::spinoff_prover]
    fn typecheck_binary_expr(&mut self, e: &Expr) -> (r: Result<Type, TypeError>)
        requires
            *e is Binary,
        ensures
            (match r {
                Ok(t) => tc_expr(old(self)@, *e) matches Ok(p) && p.0 == t@ && p.1
                    == final(self)@,
                Err(er) => tc_expr(old(self)@, *e) matches Err(se) && se == er@,
            }),
        decreases e, 0int,
    {
        if let Expr::Binary(op, l, r2) = e {
            let lt = match self.typecheck_expr(l) {
                Ok(t) => t,
                Err(er) => {
                    return Err(er);
                },
            };
            let rt = match self.typecheck_expr(r2) {
                Ok(t) => t,
                Err(er) => {
                    return Err(er);
                },
            };
            apply_binary(op, lt, rt)
        } else {
            proof {
                assert(false);
            }
            Err(TypeError { message: String::new(), location: String::new() })
        }
    }

    #[verifier::spinoff_prover]
    fn typecheck_call_expr(&mut self, e: &Expr) -> (r: Result<Type, TypeError>)
        requires
            *e is Call,
        ensures
            (match r {
                Ok(t) => tc_expr(old(self)@, *e) matches Ok(p) && p.0 == t@ && p.1
                    == final(self)@,
                Err(er) => tc_expr(old(self)@, *e) matches Err(se) && se == er@,
            }),
        decreases e, 0int,
    {
        if let Expr::Call(f, args) = e {
            let func_type = match self.typecheck_expr(f) {
                Ok(t) => t,
                Err(er) => {
                    return Err(er);
                },
            };
            match func_type {
                Type::Func(params, ret) => {
                    proof {
                        lemma_types_view(params@);
                    }
                    if params.len() != args.len() {
                        let mut m = String::from_str("Wrong number of arguments: expected ");
                        let pd = dec_string(params.len() as u64);
                        m.append(pd.as_str());
                        m.append(", got ");
                        let ad = dec_string(args.len() as u64);
                        m.append(ad.as_str());
                        return Err(
                            TypeError { message: m, location: String::from_str("function call") },
                        );
                    }
                    match self.typecheck_args(args, &params) {
                        Ok(_) => Ok(*ret),
                        Err(er) => Err(er),
                    }
                },
                _ => Err(
                    TypeError {
                        message: String::from_str("Cannot call non-function type"),
                        location: String::from_str("function call"),
                    },
                ),
            }
        } else {
            proof {
                assert(false);
            }
            Err(TypeError { message: String::new(), location: String::new() })
        }
    }

    #[verifier::spinoff_prover]
    fn typecheck_syscall_expr(&mut self, e: &Expr) -> (r: Result<Type, TypeError>)
        requires
            *e is Syscall,
        ensures
            (match r {
                Ok(t) => tc_expr(old(self)@, *e) matches Ok(p) && p.0 == t@ && p.1
                    == final(self)@,
                Err(er) => tc_expr(old(self)@, *e) matches Err(se) && se == er@,
            }),
        decreases e, 0int,
    {
        if let Expr::Syscall(_name, args) = e {
            match self.typecheck_expr_list(args) {
                Ok(_) => Ok(Type::Isize),
                Err(er) => Err(er),
            }
        } else {
            proof {
                assert(false);
            }
            Err(TypeError { message: String::new(), location: String::new() })
        }
    }

    #[verifier::spinoff_prover]
    fn typecheck_index_expr(&mut self, e: &Expr) -> (r: Result<Type, TypeError>)
        requires
            *e is Index,
        ensures
            (match r {
                Ok(t) => tc_expr(old(self)@, *e) matches Ok(p) && p.0 == t@ && p.1
                    == final(self)@,
                Err(er) => tc_expr(old(self)@, *e) matches Err(se) && se == er@,
            }),
        decreases e, 0int,
    {
        if let Expr::Index(arr, idx) = e {
            let arr_type = match self.typecheck_expr(arr) {
                Ok(t) => t,
                Err(er) => {
                    return Err(er);
                },
            };
            let idx_type = match self.typecheck_expr(idx) {
                Ok(t) => t,
                Err(er) => {
                    return Err(er);
                },
            };
            match arr_type {
                Type::Array(_, elem) => {
                    if idx_type.is_integer() {
                        Ok(*elem)
                    } else {
                        Err(
                            TypeError {
                                message: String::from_str("Array index must be integer"),
                                location: String::from_str("array index"),
                            },
                        )
                    }
                },
                Type::Ptr(inner) | Type::MutPtr(inner) | Type::ConstPtr(inner) => {
                    if idx_type.is_integer() {
                        Ok(*inner)
                    } else {
                        Err(
                            TypeError {
                                message: String::from_str("Pointer index must be integer"),
                                location: String::from_str("pointer index"),
                            },
                        )
                    }
                },
                _ => Err(
                    TypeError {
                        message: String::from_str("Cannot index non-array/non-pointer type"),
                        location: String::from_str("array index"),
                    },
                ),
            }
        } else {
            proof {
                assert(false);
            }
            Err(TypeError { message: String::new(), location: String::new() })
        }
    }

    #[verifier::spinoff_prover]
    fn typecheck_field_expr(&mut self, e: &Expr) -> (r: Result<Type, TypeError>)
        requires
            *e is Field,
        ensures
            (match r {
                Ok(t) => tc_expr(old(self)@, *e) matches Ok(p) && p.0 == t@ && p.1
                    == final(self)@,
                Err(er) => tc_expr(old(self)@, *e) matches Err(se) && se == er@,
            }),
        decreases e, 0int,
    {
        if let Expr::Field(e1, field) = e {
            let base = match self.typecheck_expr(e1) {
                Ok(t) => t,
                Err(er) => {
                    return Err(er);
                },
            };
            match base {
                Type::Named(sname) => self.struct_field_type(&sname, field, "."),
                _ => Err(
                    TypeError {
                        message: String::from_str("Cannot access field on non-struct type"),
                        location: concat2(".", field.as_str()),
                    },
                ),
            }
        } else {
            proof {
                assert(false);
            }
            Err(TypeError { message: String::new(), location: String::new() })
        }
    }

    #[verifier::spinoff_prover]
    fn typecheck_ptr_field_expr(&mut self, e: &Expr) -> (r: Result<Type, TypeError>)
        requires
            *e is PtrField,
        ensures
            (match r {
                Ok(t) => tc_expr(old(self)@, *e) matches Ok(p) && p.0 == t@ && p.1
                    == final(self)@,
                Err(er) => tc_expr(old(self)@, *e) matches Err(se) && se == er@,
            }),
        decreases e, 0int,
    {
        if let Expr::PtrField(e1, field) = e {
            let pt = match self.typecheck_expr(e1) {
                Ok(t) => t,
                Err(er) => {
                    return Err(er);
                },
            };
            proof {
                reveal_with_fuel(type_view, 2);
            }
            match pt {
                Type::Ptr(inner) | Type::MutPtr(inner) | Type::ConstPtr(inner) => {
                    match *inner {
                        Type::Named(sname) => self.struct_field_type(&sname, field, "->"),
                        _ => Err(
                            TypeError {
                                message: String::from_str(
                                    "Cannot access field through non-struct pointer",
                                ),
                                location: concat2("->", field.as_str()),
                            },
                        ),
                    }
                },
                _ => Err(
                    TypeError {
                        message: String::from_str("Cannot use -> on non-pointer type"),
                        location: concat2("->", field.as_str()),
                    },
                ),
            }
        } else {
            proof {
                assert(false);
            }
            Err(TypeError { message: String::new(), location: String::new() })
        }
    }

    #[verifier::spinoff_prover]
    fn typecheck_cast_expr(&mut self, e: &Expr) -> (r: Result<Type, TypeError>)
        requires
            *e is Cast,
        ensures
            (match r {
                Ok(t) => tc_expr(old(self)@, *e) matches Ok(p) && p.0 == t@ && p.1
                    == final(self)@,
                Err(er) => tc_expr(old(self)@, *e) matches Err(se) && se == er@,
            }),
        decreases e, 0int,
    {
        if let Expr::Cast(e1, t) = e {
            match self.typecheck_expr(e1) {
                Ok(_) => Ok(t.clone()),
                Err(er) => Err(er),
            }
        } else {
            proof {
                assert(false);
            }
            Err(TypeError { message: String::new(), location: String::new() })
        }
    }

    #[verifier::spinoff_prover]
    fn typecheck_assign_expr(&mut self, e: &Expr) -> (r: Result<Type, TypeError>)
        requires
            *e is Assign,
        ensures
            (match r {
                Ok(t) => tc_expr(old(self)@, *e) matches Ok(p) && p.0 == t@ && p.1
                    == final(self)@,
                Err(er) => tc_expr(old(self)@, *e) matches Err(se) && se == er@,
            }),
        decreases e, 0int,
    {
        if let Expr::Assign(l, r2) = e {
            let left_type = match self.typecheck_expr(l) {
                Ok(t) => t,
                Err(er) => {
                    return Err(er);
                },
            };
            let right_type = match self.typecheck_expr(r2) {
                Ok(t) => t,
                Err(er) => {
                    return Err(er);
                },
            };
            match &**l {
                Expr::Identifier(name) => match self.lookup_variable(name) {
                    Some(b) => {
                        if b.1 {
                            if type_eq(&left_type, &right_type) {
                                Ok(Type::Void)
                            } else {
                                Err(
                                    TypeError {
                                        message: String::from_str("Type mismatch in assignment"),
                                        location: String::from_str("assignment"),
                                    },
                                )
                            }
                        } else {
                            let mut m = String::from_str("Cannot assign to var binding '");
                            m.append(name.as_str());
                            m.append("' (immutable value)");
                            Err(
                                TypeError {
                                    message: m,
                                    location: String::from_str("assignment"),
                                },
                            )
                        }
                    },
                    None => Err(
                        TypeError {
                            message: concat2("Undefined variable: ", name.as_str()),
                            location: String::from_str("assignment"),
                        },
                    ),
                },
                Expr::Field(_, _) | Expr::PtrField(_, _) | Expr::Index(_, _) | Expr::Deref(_) => {
                    if type_eq(&left_type, &right_type) {
                        Ok(Type::Void)
                    } else {
                        Err(
                            TypeError {
                                message: String::from_str("Type mismatch in assignment"),
                                location: String::from_str("assignment"),
                            },
                        )
                    }
                },
                _ => Err(
                    TypeError {
                        message: String::from_str("Invalid assignment target"),
                        location: String::from_str("assignment"),
                    },
                ),
            }
        } else {
            proof {
                assert(false);
            }
            Err(TypeError { message: String::new(), location: String::new() })
        }
    }

    #[verifier::spinoff_prover]
    fn typecheck_addr_of_expr(&mut self, e: &Expr) -> (r: Result<Type, TypeError>)
        requires
            *e is AddrOf,
        ensures
            (match r {
                Ok(t) => tc_expr(old(self)@, *e) matches Ok(p) && p.0 == t@ && p.1
                    == final(self)@,
                Err(er) => tc_expr(old(self)@, *e) matches Err(se) && se == er@,
            }),
        decreases e, 0int,
    {
        if let Expr::AddrOf(e1) = e {
            match self.typecheck_expr(e1) {
                Ok(t) => Ok(Type::MutPtr(Box::new(t))),
                Err(er) => Err(er),
            }
        } else {
            proof {
                assert(false);
            }
            Err(TypeError { message: String::new(), location: String::new() })
        }
    }

    #[verifier::spinoff_prover]
    fn typecheck_deref_expr(&mut self, e: &Expr) -> (r: Result<Type, TypeError>)
        requires
            *e is Deref,
        ensures
            (match r {
                Ok(t) => tc_expr(old(self)@, *e) matches Ok(p) && p.0 == t@ && p.1
                    == final(self)@,
                Err(er) => tc_expr(old(self)@, *e) matches Err(se) && se == er@,
            }),
        decreases e, 0int,
    {
        if let Expr::Deref(e1) = e {
            let t = match self.typecheck_expr(e1) {
                Ok(t) => t,
                Err(er) => {
                    return Err(er);
                },
            };
            match t {
                Type::Ptr(inner) => Ok(*inner),
                Type::MutPtr(inner) => Ok(*inner),
                Type::ConstPtr(inner) => Ok(*inner),
                _ => Err(
                    TypeError {
                        message: String::from_str("Cannot dereference non-pointer type"),
                        location: String::from_str("deref"),
                    },
                ),
            }
        } else {
            proof {
                assert(false);
            }
            Err(TypeError { message: String::new(), location: String::new() })
        }
    }

    #[verifier::spinoff_prover]
    fn typecheck_block_expr(&mut self, e: &Expr) -> (r: Result<Type, TypeError>)
        requires
            *e is Block,
        ensures
            (match r {
                Ok(t) => tc_expr(old(self)@, *e) matches Ok(p) && p.0 == t@ && p.1
                    == final(self)@,
                Err(er) => tc_expr(old(self)@, *e) matches Err(se) && se == er@,
            }),
        decreases e, 0int,
    {
        if let Expr::Block(stmts, result) = e {
            match self.typecheck_stmt_list(stmts) {
                Ok(_) => {},
                Err(er) => {
                    return Err(er);
                },
            }
            match result {
                Some(r2) => self.typecheck_expr(r2),
                None => Ok(Type::Void),
            }
        } else {
            proof {
                assert(false);
            }
            Err(TypeError { message: String::new(), location: String::new() })
        }
    }

    #[verifier::spinoff_prover]
    fn typecheck_if_expr(&mut self, e: &Expr) -> (r: Result<Type, TypeError>)
        requires
            *e is If,
        ensures
            (match r {
                Ok(t) => tc_expr(old(self)@, *e) matches Ok(p) && p.0 == t@ && p.1
                    == final(self)@,
                Err(er) => tc_expr(old(self)@, *e) matches Err(se) && se == er@,
            }),
        decreases e, 0int,
    {
        if let Expr::If(if_expr) = e {
            proof {
                assert(tc_expr(old(self)@, *e) == tc_if_expr(old(self)@, *(*if_expr)));
            }
            let ct = match self.typecheck_expr(&if_expr.condition) {
                Ok(t) => t,
                Err(er) => {
                    return Err(er);
                },
            };
            match ct {
                Type::Bool => {},
                _ => {
                    return Err(
                        TypeError {
                            message: String::from_str("If condition must be bool"),
                            location: String::from_str("if expression"),
                        },
                    );
                },
            }
            let tt = match self.typecheck_expr(&if_expr.then_expr) {
                Ok(t) => t,
                Err(er) => {
                    return Err(er);
                },
            };
            let et = match self.typecheck_expr(&if_expr.else_expr) {
                Ok(t) => t,
                Err(er) => {
                    return Err(er);
                },
            };
            if type_eq(&tt, &et) {
                Ok(tt)
            } else {
                Err(
                    TypeError {
                        message: String::from_str("If expression branches have different types"),
                        location: String::from_str("if expression"),
                    },
                )
            }
        } else {
            proof {
                assert(false);
            }
            Err(TypeError { message: String::new(), location: String::new() })
        }
    }

    #[verifier::spinoff_prover]
    fn typecheck_alloc_expr(&mut self, e: &Expr) -> (r: Result<Type, TypeError>)
        requires
            *e is Alloc,
        ensures
            (match r {
                Ok(t) => tc_expr(old(self)@, *e) matches Ok(p) && p.0 == t@ && p.1
                    == final(self)@,
                Err(er) => tc_expr(old(self)@, *e) matches Err(se) && se == er@,
            }),
        decreases e, 0int,
    {
        if let Expr::Alloc(t, size) = e {
            match self.typecheck_expr(size) {
                Ok(_) => Ok(Type::MutPtr(Box::new((&**t).clone()))),
                Err(er) => Err(er),
            }
        } else {
            proof {
                assert(false);
            }
            Err(TypeError { message: String::new(), location: String::new() })
        }
    }

    #[verifier::spinoff_prover]
    fn typecheck_free_expr(&mut self, e: &Expr) -> (r: Result<Type, TypeError>)
        requires
            *e is Free,
        ensures
            (match r {
                Ok(t) => tc_expr(old(self)@, *e) matches Ok(p) && p.0 == t@ && p.1
                    == final(self)@,
                Err(er) => tc_expr(old(self)@, *e) matches Err(se) && se == er@,
            }),
        decreases e, 0int,
    {
        if let Expr::Free(ptr, size) = e {
            match self.typecheck_expr(ptr) {
                Ok(_) => {},
                Err(er) => {
                    return Err(er);
                },
            }
            match self.typecheck_expr(size) {
                Ok(_) => Ok(Type::Void),
                Err(er) => Err(er),
            }
        } else {
            proof {
                assert(false);
            }
            Err(TypeError { message: String::new(), location: String::new() })
        }
    }

    #[verifier::spinoff_prover]
    fn typecheck_args(&mut self, args: &Vec<Expr>, params: &Vec<Type>) -> (r: Result<
        (),
        TypeError,
    >)
        requires
            params@.len() == args@.len(),
        ensures
            (match r {
                Ok(_) => tc_args(old(self)@, args@, types_view(params@), 0) matches Ok(c) && c
                    == final(self)@,
                Err(er) => tc_args(old(self)@, args@, types_view(params@), 0) matches Err(se)
                    && se == er@,
            }),
        decreases args, 0int,
    {
        proof {
            lemma_types_view(params@);
        }
        let ghost pv = types_view(params@);
        let ghost c0 = self@;
        let mut i: usize = 0;
        proof {
            assert(args@.skip(0) =~= args@);
            assert(pv.skip(0) =~= pv);
        }
        while i < args.len()
            invariant
                i <= args.len(),
                c0 == old(self)@,
                args@.len() == params@.len(),
                pv == types_view(params@),
                pv.len() == params@.len(),
                forall|j: int| 0 <= j < params@.len() ==> #[trigger] pv[j] == params@[j]@,
                tc_args(c0, args@, pv, 0) == tc_args(
                    self@,
                    args@.skip(i as int),
                    pv.skip(i as int),
                    i as nat,
                ),
            decreases args.len() - i,
        {
            proof {
                assert(args@.skip(i as int)[0] == args@[i as int]);
                assert(pv.skip(i as int)[0] == pv[i as int]);
                assert(args@.skip(i as int).drop_first() =~= args@.skip(i + 1));
                assert(pv.skip(i as int).drop_first() =~= pv.skip(i + 1));
            }
            let at = match self.typecheck_expr(&args[i]) {
                Ok(t) => t,
                Err(er) => {
                    return Err(er);
                },
            };
            if !type_eq(&at, &params[i]) {
                let d = dec_string(i as u64);
                let mut m = String::from_str("Argument ");
                m.append(d.as_str());
                m.append(" type mismatch");
                let mut loc = String::from_str("argument ");
                loc.append(d.as_str());
                return Err(TypeError { message: m, location: loc });
            }
            i = i + 1;
        }
        proof {
            assert(args@.skip(args@.len() as int) =~= Seq::<Expr>::empty());
        }
        Ok(())
    }

    #[verifier::spinoff_prover]
    fn typecheck_expr_list(&mut self, es: &Vec<Expr>) -> (r: Result<(), TypeError>)
        ensures
            (match r {
                Ok(_) => tc_exprs(old(self)@, es@) matches Ok(c) && c == final(self)@,
                Err(er) => tc_exprs(old(self)@, es@) matches Err(se) && se == er@,
            }),
        decreases es, 0int,
    {
        let ghost c0 = self@;
        let mut i: usize = 0;
        proof {
            assert(es@.skip(0) =~= es@);
        }
        while i < es.len()
            invariant
                i <= es.len(),
                c0 == old(self)@,
                tc_exprs(c0, es@) == tc_exprs(self@, es@.skip(i as int)),
            decreases es.len() - i,
        {
            proof {
                assert(es@.skip(i as int)[0] == es@[i as int]);
                assert(es@.skip(i as int).drop_first() =~= es@.skip(i + 1));
            }
            match self.typecheck_expr(&es[i]) {
                Ok(_) => {},
                Err(er) => {
                    return Err(er);
                },
            }
            i = i + 1;
        }
        proof {
            assert(es@.skip(es@.len() as int) =~= Seq::<Expr>::empty());
        }
        Ok(())
    }

    #[verifier::spinoff_prover]
    fn typecheck_stmt_list(&mut self, ss: &Vec<Stmt>) -> (r: Result<(), TypeError>)
        ensures
            (match r {
                Ok(_) => tc_stmts(old(self)@, ss@) matches Ok(c) && c == final(self)@,
                Err(er) => tc_stmts(old(self)@, ss@) matches Err(se) && se == er@,
            }),
        decreases ss, 0int,
    {
        let ghost c0 = self@;
        let mut i: usize = 0;
        proof {
            assert(ss@.skip(0) =~= ss@);
        }
        while i < ss.len()
            invariant
                i <= ss.len(),
                c0 == old(self)@,
                tc_stmts(c0, ss@) == tc_stmts(self@, ss@.skip(i as int)),
            decreases ss.len() - i,
        {
            proof {
                assert(ss@.skip(i as int)[0] == ss@[i as int]);
                assert(ss@.skip(i as int).drop_first() =~= ss@.skip(i + 1));
            }
            match self.typecheck_stmt(&ss[i]) {
                Ok(_) => {},
                Err(er) => {
                    return Err(er);
                },
            }
            i = i + 1;
        }
        proof {
            assert(ss@.skip(ss@.len() as int) =~= Seq::<Stmt>::empty());
        }
        Ok(())
    }

    #[verifier::spinoff_prover]
    fn typecheck_stmt(&mut self, s: &Stmt) -> (r: Result<(), TypeError>)
        ensures
            (match r {
                Ok(_) => tc_stmt(old(self)@, *s) matches Ok(c) && c == final(self)@,
                Err(er) => tc_stmt(old(self)@, *s) matches Err(se) && se == er@,
            }),
        decreases s, 1int,
    {
        match s {
            Stmt::Let(l) => {
                let vt = match self.typecheck_expr(&l.value) {
                    Ok(t) => t,
                    Err(er) => {
                        return Err(er);
                    },
                };
                if let Some(t) = &l.ty {
                    if !type_eq(&**t, &vt) {
                        return Err(
                            TypeError {
                                message: String::from_str("Type mismatch in let"),
                                location: concat2("let ", l.name.as_str()),
                            },
                        );
                    }
                }
                self.add_variable(l.name.clone(), vt, false);
                Ok(())
            },
            Stmt::Const(c) => {
                let vt = match self.typecheck_expr(&c.value) {
                    Ok(t) => t,
                    Err(er) => {
                        return Err(er);
                    },
                };
                if let Some(t) = &c.ty {
                    if !type_eq(&**t, &vt) {
                        return Err(
                            TypeError {
                                message: String::from_str("Type mismatch in const"),
                                location: concat2("const ", c.name.as_str()),
                            },
                        );
                    }
                }
                self.add_variable(c.name.clone(), vt, true);
                Ok(())
            },
            Stmt::Expr(e) => {
                match self.typecheck_expr(e) {
                    Ok(_) => Ok(()),
                    Err(er) => Err(er),
                }
            },
            Stmt::Return(r2) => {
                match r2 {
                    Some(e) => match self.typecheck_expr(e) {
                        Ok(_) => Ok(()),
                        Err(er) => Err(er),
                    },
                    None => Ok(()),
                }
            },
            Stmt::Break => Ok(()),
            Stmt::Continue => Ok(()),
            Stmt::Block(stmts) => self.typecheck_stmt_list(stmts),
            Stmt::If(if_stmt) => {
                let ct = match self.typecheck_expr(&if_stmt.condition) {
                    Ok(t) => t,
                    Err(er) => {
                        return Err(er);
                    },
                };
                match ct {
                    Type::Bool => {},
                    _ => {
                        return Err(
                            TypeError {
                                message: String::from_str("If condition must be bool"),
                                location: String::from_str("if condition"),
                            },
                        );
                    },
                }
                match self.typecheck_stmt_list(&if_stmt.then_branch) {
                    Ok(_) => {},
                    Err(er) => {
                        return Err(er);
                    },
                }
                match &if_stmt.else_branch {
                    Some(else_branch) => self.typecheck_stmt_list(else_branch),
                    None => Ok(()),
                }
            },
            Stmt::While(w) => {
                let ct = match self.typecheck_expr(&w.condition) {
                    Ok(t) => t,
                    Err(er) => {
                        return Err(er);
                    },
                };
                match ct {
                    Type::Bool => {},
                    _ => {
                        return Err(
                            TypeError {
                                message: String::from_str("While condition must be bool"),
                                location: String::from_str("while condition"),
                            },
                        );
                    },
                }
                self.typecheck_stmt_list(&w.body)
            },
            Stmt::For(f) => {
                match self.typecheck_stmt(&f.init) {
                    Ok(_) => {},
                    Err(er) => {
                        return Err(er);
                    },
                }
                let ct = match self.typecheck_expr(&f.condition) {
                    Ok(t) => t,
                    Err(er) => {
                        return Err(er);
                    },
                };
                match ct {
                    Type::Bool => {},
                    _ => {
                        return Err(
                            TypeError {
                                message: String::from_str("For condition must be bool"),
                                location: String::from_str("for condition"),
                            },
                        );
                    },
                }
                match self.typecheck_stmt(&f.update) {
                    Ok(_) => {},
                    Err(er) => {
                        return Err(er);
                    },
                }
                self.typecheck_stmt_list(&f.body)
            },
            Stmt::Asm(_) => Ok(()),
            Stmt::Defer(d) => self.typecheck_stmt(&**d),
        }
    }

    #[verifier::spinoff_prover]
    fn typecheck_item(&mut self, item: &Item) -> (r: Result<(), TypeError>)
        ensures
            (match r {
                Ok(_) => tc_item(old(self)@, *item) matches Ok(c) && c == final(self)@,
                Err(er) => tc_item(old(self)@, *item) matches Err(se) && se == er@,
            }),
    {
        match item {
            Item::Function(f) => {
                let ghost c0 = self@;
                proof {
                    lemma_binds_view(self.bindings@);
                }
                let mark = self.bindings.len();
                let mut i: usize = 0;
                proof {
                    assert(f.params@.take(0) =~= Seq::<Param>::empty());
                    assert(c0.binds + params_binds(f.params@.take(0)) =~= c0.binds);
                    assert(self@ =~= (Ctx {
                        binds: c0.binds + params_binds(f.params@.take(0)),
                        ..c0
                    }));
                }
                while i < f.params.len()
                    invariant
                        i <= f.params.len(),
                        c0 == old(self)@,
                        mark == c0.binds.len(),
                        self@ == (Ctx {
                            binds: c0.binds + params_binds(f.params@.take(i as int)),
                            ..c0
                        }),
                    decreases f.params.len() - i,
                {
                    let ghost before = self@;
                    let p = &f.params[i];
                    self.add_variable(p.name.clone(), (*p.ty).clone(), true);
                    proof {
                        lemma_params_binds_push(f.params@.take(i as int), f.params@[i as int]);
                        assert(f.params@.take(i + 1) =~= f.params@.take(i as int).push(
                            f.params@[i as int],
                        ));
                        assert(before.binds.push((p.name@, p.ty@, true)) =~= c0.binds
                            + params_binds(f.params@.take(i + 1)));
                    }
                    i = i + 1;
                }
                proof {
                    assert(f.params@.take(f.params@.len() as int) =~= f.params@);
                }
                let ghost c1 = self@;
                match self.typecheck_stmt_list(&f.body) {
                    Ok(_) => {},
                    Err(er) => {
                        return Err(er);
                    },
                }
                proof {
                    lemma_tc_stmts_extends(c1, f.body@);
                    lemma_binds_view(self.bindings@);
                }
                let ghost before_cut = self.bindings@;
                self.bindings.truncate(mark);
                proof {
                    lemma_binds_view_take(before_cut, mark as int);
                }
                Ok(())
            },
            Item::Struct(_) => Ok(()),
            Item::Union(_) => Ok(()),
            Item::Enum(_) => Ok(()),
            Item::Const(c) => {
                let vt = match self.typecheck_expr(&c.value) {
                    Ok(t) => t,
                    Err(er) => {
                        return Err(er);
                    },
                };
                if let Some(t) = &c.ty {
                    if !type_eq(&**t, &vt) {
                        return Err(
                            TypeError {
                                message: String::from_str("Type mismatch in const"),
                                location: concat2("const ", c.name.as_str()),
                            },
                        );
                    }
                }
                Ok(())
            },
            Item::Var(v) => {
                let vt = match self.typecheck_expr(&v.value) {
                    Ok(t) => t,
                    Err(er) => {
                        return Err(er);
                    },
                };
                if let Some(t) = &v.ty {
                    if !type_eq(&**t, &vt) {
                        return Err(
                            TypeError {
                                message: String::from_str("Type mismatch in var"),
                                location: concat2("var ", v.name.as_str()),
                            },
                        );
                    }
                }
                Ok(())
            },
        }
    }
}

/// Checks a whole program: registers every aggregate declaration, then
/// checks the items in order, and reports the first violation.
#[verifier::rlimit(100)]
#[verifier::spinoff_prover]
pub fn typecheck(program: &Program) -> (r: Result<(), TypeError>)
    ensures
        (r is Ok) == (tc_program(*program) is Ok),
        (match r {
            Ok(_) => true,
            Err(er) => tc_program(*program) matches Err(se) && se == er@,
        }),
{
    let mut ctx = TypeContext::new();
    let ghost c0 = initial_ctx();
    let mut i: usize = 0;
    proof {
        assert(program.items@.take(0) =~= Seq::<Item>::empty());
    }
    while i < program.items.len()
        invariant
            i <= program.items.len(),
            c0 == initial_ctx(),
            ctx@ == register_items(c0, program.items@.take(i as int)),
        decreases program.items.len() - i,
    {
        ctx.register_item(&program.items[i]);
        proof {
            assert(program.items@.take(i + 1).drop_last() =~= program.items@.take(i as int));
            assert(program.items@.take(i + 1).last() == program.items@[i as int]);
        }
        i = i + 1;
    }
    proof {
        assert(program.items@.take(program.items@.len() as int) =~= program.items@);
    }
    let ghost creg = ctx@;
    let mut j: usize = 0;
    proof {
        assert(program.items@.skip(0) =~= program.items@);
    }
    while j < program.items.len()
        invariant
            j <= program.items.len(),
            creg == register_items(initial_ctx(), program.items@),
            tc_items(creg, program.items@) == tc_items(ctx@, program.items@.skip(j as int)),
        decreases program.items.len() - j,
    {
        proof {
            assert(program.items@.skip(j as int)[0] == program.items@[j as int]);
            assert(program.items@.skip(j as int).drop_first() =~= program.items@.skip(j + 1));
        }
        match ctx.typecheck_item(&program.items[j]) {
            Ok(_) => {},
            Err(er) => {
                return Err(er);
            },
        }
        j = j + 1;
    }
    proof {
        assert(program.items@.skip(program.items@.len() as int) =~= Seq::<Item>::empty());
    }
    Ok(())
}


// ---------------------------------------------------------------------------
// Accepted programs never carry the internal `Error` sentinel.
// ---------------------------------------------------------------------------

/// No occurrence of the `Error` sentinel anywhere in the type.
pub open spec fn type_error_free(t: TypeV) -> bool
    decreases t,
{
    match t {
        TypeV::Error => false,
        TypeV::Ptr(inner) => type_error_free(*inner),
        TypeV::MutPtr(inner) => type_error_free(*inner),
        TypeV::ConstPtr(inner) => type_error_free(*inner),
        TypeV::Array(_, inner) => type_error_free(*inner),
        TypeV::Func(ps, ret) => types_error_free(ps) && type_error_free(*ret),
        _ => true,
    }
}

pub open spec fn types_error_free(s: Seq<TypeV>) -> bool
    decreases s,
{
    if s.len() == 0 {
        true
    } else {
        type_error_free(s[0]) && types_error_free(s.drop_first())
    }
}

/// Every binding's type and every registered field's type is `Error`-free.
pub open spec fn ctx_error_free(ctx: Ctx) -> bool {
    &&& forall|i: int| 0 <= i < ctx.binds.len() ==> type_error_free(
        (#[trigger] ctx.binds[i]).1,
    )
    &&& forall|i: int, j: int|
        0 <= i < ctx.structs.len() && 0 <= j < ctx.structs[i].1.fields.len()
            ==> type_error_free((#[trigger] ctx.structs[i].1.fields[j]).ty)
}

/// The type annotations embedded in an expression are `Error`-free: the
/// cast targets and the allocation element types, recursively.
pub open spec fn expr_error_free(e: Expr) -> bool
    decreases e,
{
    match e {
        Expr::Literal(_) => true,
        Expr::Identifier(_) => true,
        Expr::Unary(_, e1) => expr_error_free(*e1),
        Expr::Binary(_, l, r) => expr_error_free(*l) && expr_error_free(*r),
        Expr::Call(f, args) => expr_error_free(*f) && exprs_error_free(args@),
        Expr::Syscall(_, args) => exprs_error_free(args@),
        Expr::Index(arr, idx) => expr_error_free(*arr) && expr_error_free(*idx),
        Expr::Field(e1, _) => expr_error_free(*e1),
        Expr::PtrField(e1, _) => expr_error_free(*e1),
        Expr::Cast(e1, t) => expr_error_free(*e1) && type_error_free(t@),
        Expr::Sizeof(_) => true,
        Expr::Alignof(_) => true,
        Expr::Offsetof(_, _) => true,
        Expr::Assign(l, r) => expr_error_free(*l) && expr_error_free(*r),
        Expr::AddrOf(e1) => expr_error_free(*e1),
        Expr::Deref(e1) => expr_error_free(*e1),
        Expr::Block(stmts, result) => stmts_error_free(stmts@) && (match result {
            Some(r) => expr_error_free(*r),
            None => true,
        }),
        Expr::If(if_expr) => expr_error_free(*if_expr.condition) && expr_error_free(
            *if_expr.then_expr,
        ) && expr_error_free(*if_expr.else_expr),
        Expr::Alloc(t, size) => type_error_free(t@) && expr_error_free(*size),
        Expr::Free(ptr, size) => expr_error_free(*ptr) && expr_error_free(*size),
    }
}

pub open spec fn exprs_error_free(es: Seq<Expr>) -> bool
    decreases es,
{
    if es.len() == 0 {
        true
    } else {
        expr_error_free(es[0]) && exprs_error_free(es.drop_first())
    }
}

pub open spec fn stmt_error_free(s: Stmt) -> bool
    decreases s,
{
    match s {
        Stmt::Let(l) => expr_error_free(*l.value),
        Stmt::Const(c) => expr_error_free(*c.value),
        Stmt::Expr(e) => expr_error_free(e),
        Stmt::Return(r) => match r {
            Some(e) => expr_error_free(e),
            None => true,
        },
        Stmt::Break => true,
        Stmt::Continue => true,
        Stmt::Block(stmts) => stmts_error_free(stmts@),
        Stmt::If(if_stmt) => expr_error_free(*if_stmt.condition) && stmts_error_free(
            if_stmt.then_branch@,
        ) && (match if_stmt.else_branch {
            Some(else_branch) => stmts_error_free(else_branch@),
            None => true,
        }),
        Stmt::While(w) => expr_error_free(*w.condition) && stmts_error_free(w.body@),
        Stmt::For(f) => stmt_error_free(*f.init) && expr_error_free(*f.condition)
            && stmt_error_free(*f.update) && stmts_error_free(f.body@),
        Stmt::Asm(_) => true,
        Stmt::Defer(d) => stmt_error_free(*d),
    }
}

pub open spec fn stmts_error_free(ss: Seq<Stmt>) -> bool
    decreases ss,
{
    if ss.len() == 0 {
        true
    } else {
        stmt_error_free(ss[0]) && stmts_error_free(ss.drop_first())
    }
}

pub open spec fn item_error_free(item: Item) -> bool {
    match item {
        Item::Function(f) => (forall|i: int|
            0 <= i < f.params@.len() ==> type_error_free((#[trigger] f.params@[i]).ty@))
            && stmts_error_free(f.body@),
        Item::Struct(s) => forall|j: int|
            0 <= j < s.fields@.len() ==> type_error_free((#[trigger] s.fields@[j])@.ty),
        Item::Union(_) => true,
        Item::Enum(_) => true,
        Item::Const(c) => expr_error_free(*c.value),
        Item::Var(v) => expr_error_free(*v.value),
    }
}

pub open spec fn items_error_free(items: Seq<Item>) -> bool
    decreases items,
{
    if items.len() == 0 {
        true
    } else {
        item_error_free(items[0]) && items_error_free(items.drop_first())
    }
}

/// The program's embedded type annotations are all `Error`-free.
pub open spec fn program_error_free(p: Program) -> bool {
    items_error_free(p.items@)
}

proof fn lemma_literal_type_error_free(l: Literal)
    ensures
        type_error_free(literal_type(l)),
{
    assert(type_error_free(TypeV::U8));
}

proof fn lemma_lookup_bind_error_free(binds: Seq<(Seq<char>, TypeV, bool)>, name: Seq<char>)
    requires
        forall|i: int| 0 <= i < binds.len() ==> type_error_free((#[trigger] binds[i]).1),
    ensures
        lookup_bind(binds, name) matches Some(b) ==> type_error_free(b.0),
    decreases binds.len(),
{
    if binds.len() > 0 && binds.last().0 != name {
        lemma_lookup_bind_error_free(binds.drop_last(), name);
    }
}

proof fn lemma_lookup_struct_error_free(
    structs: Seq<(Seq<char>, StructV)>,
    name: Seq<char>,
)
    requires
        forall|i: int, j: int|
            0 <= i < structs.len() && 0 <= j < structs[i].1.fields.len() ==> type_error_free(
                (#[trigger] structs[i].1.fields[j]).ty,
            ),
    ensures
        lookup_struct_decl(structs, name) matches Some(sv) ==> forall|j: int|
            0 <= j < sv.fields.len() ==> type_error_free((#[trigger] sv.fields[j]).ty),
    decreases structs.len(),
{
    if structs.len() > 0 && structs.last().0 != name {
        lemma_lookup_struct_error_free(structs.drop_last(), name);
    }
}

proof fn lemma_lookup_field_error_free(fields: Seq<FieldV>, name: Seq<char>)
    requires
        forall|j: int| 0 <= j < fields.len() ==> type_error_free((#[trigger] fields[j]).ty),
    ensures
        lookup_field_decl(fields, name) matches Some(ft) ==> type_error_free(ft),
    decreases fields.len(),
{
    if fields.len() > 0 && fields[0].name != name {
        lemma_lookup_field_error_free(fields.drop_first(), name);
    }
}

proof fn lemma_field_rule_error_free(
    structs: Seq<(Seq<char>, StructV)>,
    base: TypeV,
    field: Seq<char>,
    arrow: Seq<char>,
)
    requires
        forall|i: int, j: int|
            0 <= i < structs.len() && 0 <= j < structs[i].1.fields.len() ==> type_error_free(
                (#[trigger] structs[i].1.fields[j]).ty,
            ),
    ensures
        field_rule(structs, base, field, arrow) matches Ok(ft) ==> type_error_free(ft),
{
    if let TypeV::Named(sname) = base {
        lemma_lookup_struct_error_free(structs, sname);
        if let Some(sv) = lookup_struct_decl(structs, sname) {
            lemma_lookup_field_error_free(sv.fields, field);
        }
    }
}

/// Every expression the checker accepts under a clean context has an
/// `Error`-free inferred type, and the context stays clean: the `Error`
/// sentinel never escapes into a verdict.
pub proof fn lemma_tc_expr_error_free(ctx: Ctx, e: Expr)
    requires
        ctx_error_free(ctx),
        expr_error_free(e),
    ensures
        tc_expr(ctx, e) matches Ok(p) ==> type_error_free(p.0) && ctx_error_free(p.1),
    decreases e, 1int,
{
    match e {
        Expr::Literal(l) => {
            lemma_literal_type_error_free(l);
        },
        Expr::Identifier(name) => {
            lemma_lookup_bind_error_free(ctx.binds, name@);
        },
        Expr::Unary(_, _) => lemma_ef_unary(ctx, e),
        Expr::Binary(_, _, _) => lemma_ef_binary(ctx, e),
        Expr::Call(_, _) => lemma_ef_call(ctx, e),
        Expr::Syscall(_, _) => lemma_ef_syscall(ctx, e),
        Expr::Index(_, _) => lemma_ef_index(ctx, e),
        Expr::Field(_, _) => lemma_ef_field(ctx, e),
        Expr::PtrField(_, _) => lemma_ef_ptr_field(ctx, e),
        Expr::Cast(_, _) => lemma_ef_cast(ctx, e),
        Expr::Assign(_, _) => lemma_ef_assign(ctx, e),
        Expr::AddrOf(_) => lemma_ef_addr_of(ctx, e),
        Expr::Deref(_) => lemma_ef_deref(ctx, e),
        Expr::Block(_, _) => lemma_ef_block(ctx, e),
        Expr::If(_) => lemma_ef_if(ctx, e),
        Expr::Alloc(_, _) => lemma_ef_alloc(ctx, e),
        Expr::Free(_, _) => lemma_ef_free(ctx, e),
        _ => {},
    }
}

proof fn lemma_ef_unary(ctx: Ctx, e: Expr)
    requires
        ctx_error_free(ctx),
        expr_error_free(e),
        e is Unary,
    ensures
        tc_expr(ctx, e) matches Ok(p) ==> type_error_free(p.0) && ctx_error_free(p.1),
    decreases e, 0int,
{
    if let Expr::Unary(_op, e1) = e {
        lemma_tc_expr_error_free(ctx, *e1);
    }
}

proof fn lemma_ef_binary(ctx: Ctx, e: Expr)
    requires
        ctx_error_free(ctx),
        expr_error_free(e),
        e is Binary,
    ensures
        tc_expr(ctx, e) matches Ok(p) ==> type_error_free(p.0) && ctx_error_free(p.1),
    decreases e, 0int,
{
    if let Expr::Binary(_op, l, r) = e {
        lemma_tc_expr_error_free(ctx, *l);
        if let Ok((_, c1)) = tc_expr(ctx, *l) {
            lemma_tc_expr_error_free(c1, *r);
        }
    }
}

proof fn lemma_ef_call(ctx: Ctx, e: Expr)
    requires
        ctx_error_free(ctx),
        expr_error_free(e),
        e is Call,
    ensures
        tc_expr(ctx, e) matches Ok(p) ==> type_error_free(p.0) && ctx_error_free(p.1),
    decreases e, 0int,
{
    if let Expr::Call(f, args) = e {
        lemma_tc_expr_error_free(ctx, *f);
        if let Ok((ft, c1)) = tc_expr(ctx, *f) {
            if let TypeV::Func(params, _) = ft {
                if params.len() == args@.len() {
                    lemma_ef_args(c1, args@, params, 0);
                }
            }
        }
    }
}

proof fn lemma_ef_args(ctx: Ctx, args: Seq<Expr>, params: Seq<TypeV>, idx: nat)
    requires
        ctx_error_free(ctx),
        exprs_error_free(args),
    ensures
        tc_args(ctx, args, params, idx) matches Ok(c) ==> ctx_error_free(c),
    decreases args,
{
    if args.len() > 0 {
        lemma_tc_expr_error_free(ctx, args[0]);
        if let Ok((at, c1)) = tc_expr(ctx, args[0]) {
            if at == params[0] {
                lemma_ef_args(c1, args.drop_first(), params.drop_first(), idx + 1);
            }
        }
    }
}

proof fn lemma_ef_exprs(ctx: Ctx, es: Seq<Expr>)
    requires
        ctx_error_free(ctx),
        exprs_error_free(es),
    ensures
        tc_exprs(ctx, es) matches Ok(c) ==> ctx_error_free(c),
    decreases es,
{
    if es.len() > 0 {
        lemma_tc_expr_error_free(ctx, es[0]);
        if let Ok((_, c1)) = tc_expr(ctx, es[0]) {
            lemma_ef_exprs(c1, es.drop_first());
        }
    }
}

proof fn lemma_ef_syscall(ctx: Ctx, e: Expr)
    requires
        ctx_error_free(ctx),
        expr_error_free(e),
        e is Syscall,
    ensures
        tc_expr(ctx, e) matches Ok(p) ==> type_error_free(p.0) && ctx_error_free(p.1),
    decreases e, 0int,
{
    if let Expr::Syscall(_name, args) = e {
        lemma_ef_exprs(ctx, args@);
    }
}

proof fn lemma_ef_index(ctx: Ctx, e: Expr)
    requires
        ctx_error_free(ctx),
        expr_error_free(e),
        e is Index,
    ensures
        tc_expr(ctx, e) matches Ok(p) ==> type_error_free(p.0) && ctx_error_free(p.1),
    decreases e, 0int,
{
    if let Expr::Index(arr, idx) = e {
        lemma_tc_expr_error_free(ctx, *arr);
        if let Ok((_, c1)) = tc_expr(ctx, *arr) {
            lemma_tc_expr_error_free(c1, *idx);
        }
    }
}

proof fn lemma_ef_field(ctx: Ctx, e: Expr)
    requires
        ctx_error_free(ctx),
        expr_error_free(e),
        e is Field,
    ensures
        tc_expr(ctx, e) matches Ok(p) ==> type_error_free(p.0) && ctx_error_free(p.1),
    decreases e, 0int,
{
    if let Expr::Field(e1, field) = e {
        lemma_tc_expr_error_free(ctx, *e1);
        if let Ok((bt, c1)) = tc_expr(ctx, *e1) {
            lemma_field_rule_error_free(c1.structs, bt, field@, "."@);
        }
    }
}

proof fn lemma_ef_ptr_field(ctx: Ctx, e: Expr)
    requires
        ctx_error_free(ctx),
        expr_error_free(e),
        e is PtrField,
    ensures
        tc_expr(ctx, e) matches Ok(p) ==> type_error_free(p.0) && ctx_error_free(p.1),
    decreases e, 0int,
{
    if let Expr::PtrField(e1, field) = e {
        lemma_tc_expr_error_free(ctx, *e1);
        if let Ok((pt, c1)) = tc_expr(ctx, *e1) {
            match pt {
                TypeV::Ptr(inner) | TypeV::MutPtr(inner) | TypeV::ConstPtr(inner) => {
                    if let TypeV::Named(sname) = *inner {
                        lemma_field_rule_error_free(
                            c1.structs,
                            TypeV::Named(sname),
                            field@,
                            "->"@,
                        );
                    }
                },
                _ => {},
            }
        }
    }
}

proof fn lemma_ef_cast(ctx: Ctx, e: Expr)
    requires
        ctx_error_free(ctx),
        expr_error_free(e),
        e is Cast,
    ensures
        tc_expr(ctx, e) matches Ok(p) ==> type_error_free(p.0) && ctx_error_free(p.1),
    decreases e, 0int,
{
    if let Expr::Cast(e1, _t) = e {
        lemma_tc_expr_error_free(ctx, *e1);
    }
}

proof fn lemma_ef_assign(ctx: Ctx, e: Expr)
    requires
        ctx_error_free(ctx),
        expr_error_free(e),
        e is Assign,
    ensures
        tc_expr(ctx, e) matches Ok(p) ==> type_error_free(p.0) && ctx_error_free(p.1),
    decreases e, 0int,
{
    if let Expr::Assign(l, r) = e {
        lemma_tc_expr_error_free(ctx, *l);
        if let Ok((_, c1)) = tc_expr(ctx, *l) {
            lemma_tc_expr_error_free(c1, *r);
        }
    }
}

proof fn lemma_ef_addr_of(ctx: Ctx, e: Expr)
    requires
        ctx_error_free(ctx),
        expr_error_free(e),
        e is AddrOf,
    ensures
        tc_expr(ctx, e) matches Ok(p) ==> type_error_free(p.0) && ctx_error_free(p.1),
    decreases e, 0int,
{
    if let Expr::AddrOf(e1) = e {
        lemma_tc_expr_error_free(ctx, *e1);
    }
}

proof fn lemma_ef_deref(ctx: Ctx, e: Expr)
    requires
        ctx_error_free(ctx),
        expr_error_free(e),
        e is Deref,
    ensures
        tc_expr(ctx, e) matches Ok(p) ==> type_error_free(p.0) && ctx_error_free(p.1),
    decreases e, 0int,
{
    if let Expr::Deref(e1) = e {
        lemma_tc_expr_error_free(ctx, *e1);
    }
}

proof fn lemma_ef_block(ctx: Ctx, e: Expr)
    requires
        ctx_error_free(ctx),
        expr_error_free(e),
        e is Block,
    ensures
        tc_expr(ctx, e) matches Ok(p) ==> type_error_free(p.0) && ctx_error_free(p.1),
    decreases e, 0int,
{
    if let Expr::Block(stmts, result) = e {
        lemma_ef_stmts(ctx, stmts@);
        if let Ok(c1) = tc_stmts(ctx, stmts@) {
            if let Some(r) = result {
                lemma_tc_expr_error_free(c1, *r);
            }
        }
    }
}

proof fn lemma_ef_if(ctx: Ctx, e: Expr)
    requires
        ctx_error_free(ctx),
        expr_error_free(e),
        e is If,
    ensures
        tc_expr(ctx, e) matches Ok(p) ==> type_error_free(p.0) && ctx_error_free(p.1),
    decreases e, 0int,
{
    if let Expr::If(if_expr) = e {
        assert(tc_expr(ctx, e) == tc_if_expr(ctx, *if_expr));
        lemma_tc_expr_error_free(ctx, *if_expr.condition);
        if let Ok((_, c1)) = tc_expr(ctx, *if_expr.condition) {
            lemma_tc_expr_error_free(c1, *if_expr.then_expr);
            if let Ok((_, c2)) = tc_expr(c1, *if_expr.then_expr) {
                lemma_tc_expr_error_free(c2, *if_expr.else_expr);
            }
        }
    }
}

proof fn lemma_ef_alloc(ctx: Ctx, e: Expr)
    requires
        ctx_error_free(ctx),
        expr_error_free(e),
        e is Alloc,
    ensures
        tc_expr(ctx, e) matches Ok(p) ==> type_error_free(p.0) && ctx_error_free(p.1),
    decreases e, 0int,
{
    if let Expr::Alloc(_t, size) = e {
        lemma_tc_expr_error_free(ctx, *size);
    }
}

proof fn lemma_ef_free(ctx: Ctx, e: Expr)
    requires
        ctx_error_free(ctx),
        expr_error_free(e),
        e is Free,
    ensures
        tc_expr(ctx, e) matches Ok(p) ==> type_error_free(p.0) && ctx_error_free(p.1),
    decreases e, 0int,
{
    if let Expr::Free(ptr, size) = e {
        lemma_tc_expr_error_free(ctx, *ptr);
        if let Ok((_, c1)) = tc_expr(ctx, *ptr) {
            lemma_tc_expr_error_free(c1, *size);
        }
    }
}

/// Every statement the checker accepts under a clean context leaves the
/// context clean: new bindings carry `Error`-free inferred types.
pub proof fn lemma_tc_stmt_error_free(ctx: Ctx, s: Stmt)
    requires
        ctx_error_free(ctx),
        stmt_error_free(s),
    ensures
        tc_stmt(ctx, s) matches Ok(c) ==> ctx_error_free(c),
    decreases s,
{
    match s {
        Stmt::Let(l) => {
            lemma_tc_expr_error_free(ctx, *l.value);
            if let Ok((vt, c1)) = tc_expr(ctx, *l.value) {
                assert forall|i: int| 0 <= i < c1.binds.push((l.name@, vt, false)).len()
                    implies type_error_free(
                    (#[trigger] c1.binds.push((l.name@, vt, false))[i]).1,
                ) by {
                    if i < c1.binds.len() {
                        assert(c1.binds.push((l.name@, vt, false))[i] == c1.binds[i]);
                    }
                }
            }
        },
        Stmt::Const(c) => {
            lemma_tc_expr_error_free(ctx, *c.value);
            if let Ok((vt, c1)) = tc_expr(ctx, *c.value) {
                assert forall|i: int| 0 <= i < c1.binds.push((c.name@, vt, true)).len()
                    implies type_error_free(
                    (#[trigger] c1.binds.push((c.name@, vt, true))[i]).1,
                ) by {
                    if i < c1.binds.len() {
                        assert(c1.binds.push((c.name@, vt, true))[i] == c1.binds[i]);
                    }
                }
            }
        },
        Stmt::Expr(e) => {
            lemma_tc_expr_error_free(ctx, e);
        },
        Stmt::Return(r) => {
            if let Some(e) = r {
                lemma_tc_expr_error_free(ctx, e);
            }
        },
        Stmt::Block(stmts) => {
            lemma_ef_stmts(ctx, stmts@);
        },
        Stmt::If(if_stmt) => {
            lemma_tc_expr_error_free(ctx, *if_stmt.condition);
            if let Ok((ct, c1)) = tc_expr(ctx, *if_stmt.condition) {
                if ct == TypeV::Bool {
                    lemma_ef_stmts(c1, if_stmt.then_branch@);
                    if let Ok(c2) = tc_stmts(c1, if_stmt.then_branch@) {
                        if let Some(else_branch) = if_stmt.else_branch {
                            lemma_ef_stmts(c2, else_branch@);
                        }
                    }
                }
            }
        },
        Stmt::While(w) => {
            lemma_tc_expr_error_free(ctx, *w.condition);
            if let Ok((ct, c1)) = tc_expr(ctx, *w.condition) {
                if ct == TypeV::Bool {
                    lemma_ef_stmts(c1, w.body@);
                }
            }
        },
        Stmt::For(f) => {
            lemma_tc_stmt_error_free(ctx, *f.init);
            if let Ok(c1) = tc_stmt(ctx, *f.init) {
                lemma_tc_expr_error_free(c1, *f.condition);
                if let Ok((ct, c2)) = tc_expr(c1, *f.condition) {
                    if ct == TypeV::Bool {
                        lemma_tc_stmt_error_free(c2, *f.update);
                        if let Ok(c3) = tc_stmt(c2, *f.update) {
                            lemma_ef_stmts(c3, f.body@);
                        }
                    }
                }
            }
        },
        Stmt::Defer(d) => {
            lemma_tc_stmt_error_free(ctx, *d);
        },
        _ => {},
    }
}

proof fn lemma_ef_stmts(ctx: Ctx, ss: Seq<Stmt>)
    requires
        ctx_error_free(ctx),
        stmts_error_free(ss),
    ensures
        tc_stmts(ctx, ss) matches Ok(c) ==> ctx_error_free(c),
    decreases ss,
{
    if ss.len() > 0 {
        lemma_tc_stmt_error_free(ctx, ss[0]);
        if let Ok(c1) = tc_stmt(ctx, ss[0]) {
            lemma_ef_stmts(c1, ss.drop_first());
        }
    }
}

proof fn lemma_params_binds_index(params: Seq<Param>)
    ensures
        params_binds(params).len() == params.len(),
        forall|i: int|
            0 <= i < params.len() ==> #[trigger] params_binds(params)[i] == (
                params[i].name@,
                params[i].ty@,
                true,
            ),
    decreases params,
{
    if params.len() > 0 {
        lemma_params_binds_index(params.drop_last());
    }
}

proof fn lemma_ef_item(ctx: Ctx, item: Item)
    requires
        ctx_error_free(ctx),
        item_error_free(item),
    ensures
        tc_item(ctx, item) matches Ok(c) ==> ctx_error_free(c),
{
    match item {
        Item::Function(f) => {
            let c1 = Ctx { binds: ctx.binds + params_binds(f.params@), ..ctx };
            lemma_params_binds_index(f.params@);
            assert forall|i: int| 0 <= i < c1.binds.len() implies type_error_free(
                (#[trigger] c1.binds[i]).1,
            ) by {
                if i < ctx.binds.len() {
                    assert(c1.binds[i] == ctx.binds[i]);
                } else {
                    assert(c1.binds[i] == params_binds(f.params@)[i - ctx.binds.len()]);
                }
            }
            lemma_ef_stmts(c1, f.body@);
            lemma_tc_stmts_extends(c1, f.body@);
            if let Ok(c2) = tc_stmts(c1, f.body@) {
                let cut = c2.binds.take(ctx.binds.len() as int);
                assert forall|i: int| 0 <= i < cut.len() implies type_error_free(
                    (#[trigger] cut[i]).1,
                ) by {
                    if 0 <= i < c2.binds.len() {
                        assert(cut[i] == c2.binds[i]);
                    }
                }
            }
        },
        Item::Const(c) => {
            lemma_tc_expr_error_free(ctx, *c.value);
        },
        Item::Var(v) => {
            lemma_tc_expr_error_free(ctx, *v.value);
        },
        _ => {},
    }
}

proof fn lemma_ef_items(ctx: Ctx, items: Seq<Item>)
    requires
        ctx_error_free(ctx),
        items_error_free(items),
    ensures
        tc_items(ctx, items) matches Ok(c) ==> ctx_error_free(c),
    decreases items,
{
    if items.len() > 0 {
        lemma_ef_item(ctx, items[0]);
        if let Ok(c1) = tc_item(ctx, items[0]) {
            lemma_ef_items(c1, items.drop_first());
        }
    }
}

proof fn lemma_register_item_error_free(ctx: Ctx, item: Item)
    requires
        ctx_error_free(ctx),
        item_error_free(item),
    ensures
        ctx_error_free(register_item(ctx, item)),
{
    if let Item::Struct(s) = item {
        lemma_fields_view(s.fields@);
        let pushed = ctx.structs.push((s.name@, s@));
        assert forall|i: int, j: int|
            0 <= i < pushed.len() && 0 <= j < pushed[i].1.fields.len() implies type_error_free(
            (#[trigger] pushed[i].1.fields[j]).ty,
        ) by {
            if i < ctx.structs.len() {
                assert(pushed[i] == ctx.structs[i]);
            } else {
                assert(pushed[i] == (s.name@, s@));
                assert(s@.fields[j] == s.fields@[j]@);
            }
        }
    }
}

proof fn lemma_register_items_error_free(ctx: Ctx, items: Seq<Item>)
    requires
        ctx_error_free(ctx),
        items_error_free(items),
    ensures
        ctx_error_free(register_items(ctx, items)),
    decreases items,
{
    if items.len() > 0 {
        lemma_items_error_free_last(items);
        lemma_register_items_error_free(ctx, items.drop_last());
        lemma_register_item_error_free(register_items(ctx, items.drop_last()), items.last());
    }
}

proof fn lemma_items_error_free_last(items: Seq<Item>)
    requires
        items_error_free(items),
        items.len() > 0,
    ensures
        items_error_free(items.drop_last()),
        item_error_free(items.last()),
    decreases items,
{
    if items.len() > 1 {
        lemma_items_error_free_last(items.drop_first());
        assert(items.drop_first().drop_last() =~= items.drop_last().drop_first());
        assert(items.drop_last()[0] == items[0]);
    } else {
        assert(items.drop_last() =~= Seq::<Item>::empty());
        assert(items.last() == items[0]);
    }
}

/// A program the checker accepts leaves a context whose every binding and
/// every registered field type is free of the internal `Error` sentinel,
/// provided the program's own annotations are: the checker never invents an
/// `Error` type, and every accepted identifier reference resolved.
pub proof fn lemma_accepted_program_error_free(p: Program)
    requires
        program_error_free(p),
    ensures
        tc_program(p) matches Ok(c) ==> ctx_error_free(c),
{
    let c0 = initial_ctx();
    assert(ctx_error_free(c0));
    lemma_register_items_error_free(c0, p.items@);
    lemma_ef_items(register_items(c0, p.items@), p.items@);
}

/// An accepted identifier reference resolved: the checker returns a verdict
/// for a name only when a binding for it is in scope.
pub proof fn lemma_identifier_resolves(ctx: Ctx, e: Expr)
    requires
        e is Identifier,
    ensures
        tc_expr(ctx, e) is Ok ==> (e matches Expr::Identifier(name) && lookup_bind(
            ctx.binds,
            name@,
        ) is Some),
{
}

} // verus!
