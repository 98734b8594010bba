//! The abstract syntax tree of the source language, together with the size,
//! alignment and classification queries on type descriptors.
//!
//! The tree is pure data produced by a parser and read by the type checker
//! and the code generator. A float literal carries its value as the IEEE-754
//! bit pattern of the written constant: neither the type checker nor the code
//! generator reads the numeric value, only the suffix.

use vstd::prelude::*;

verus! {

#[derive(Debug)]
pub struct Program {
    pub items: Vec<Item>,
}

#[derive(Debug)]
pub enum Item {
    Function(Function),
    Struct(Struct),
    Union(Union),
    Enum(Enum),
    Const(ConstDecl),
    Var(VarDecl),
}

#[derive(Debug)]
pub struct Function {
    pub name: String,
    pub params: Vec<Param>,
    pub return_type: Box<Type>,
    pub body: Vec<Stmt>,
    pub attrs: Vec<FunctionAttribute>,
}

#[derive(Debug)]
pub struct Param {
    pub name: String,
    pub ty: Box<Type>,
}

#[derive(Debug)]
pub enum FunctionAttribute {
    Noreturn,
    CCall,
    StdCall,
    Inline,
    Entry(Option<String>),
}

#[derive(Debug)]
pub struct Struct {
    pub name: String,
    pub fields: Vec<StructField>,
}

#[derive(Debug)]
pub struct StructField {
    pub name: String,
    pub ty: Box<Type>,
}

#[derive(Debug, Clone)]
pub struct Union {
    pub name: String,
    pub variants: Vec<UnionVariant>,
}

#[derive(Debug, Clone)]
pub struct UnionVariant {
    pub name: String,
    pub ty: Box<Type>,
}

#[derive(Debug, Clone)]
pub struct Enum {
    pub name: String,
    pub variants: Vec<EnumVariant>,
}

#[derive(Debug, Clone)]
pub struct EnumVariant {
    pub name: String,
    pub value: Option<i64>,
}

#[derive(Debug)]
pub struct ConstDecl {
    pub name: String,
    pub ty: Option<Box<Type>>,
    pub value: Box<Expr>,
}

#[derive(Debug)]
pub struct VarDecl {
    pub name: String,
    pub ty: Option<Box<Type>>,
    pub value: Box<Expr>,
}

#[derive(Debug)]
pub enum Stmt {
    Let(LetStmt),
    Const(ConstStmt),
    Expr(Expr),
    Return(Option<Expr>),
    Break,
    Continue,
    Block(Vec<Stmt>),
    If(IfStmt),
    While(WhileStmt),
    For(ForStmt),
    Asm(AsmStmt),
    Defer(Box<Stmt>),
}

#[derive(Debug)]
pub struct LetStmt {
    pub name: String,
    pub ty: Option<Box<Type>>,
    pub value: Box<Expr>,
    pub is_const: bool,
}

#[derive(Debug)]
pub struct ConstStmt {
    pub name: String,
    pub ty: Option<Box<Type>>,
    pub value: Box<Expr>,
}

#[derive(Debug)]
pub struct IfStmt {
    pub condition: Box<Expr>,
    pub then_branch: Vec<Stmt>,
    pub else_branch: Option<Vec<Stmt>>,
}

#[derive(Debug)]
pub struct WhileStmt {
    pub condition: Box<Expr>,
    pub body: Vec<Stmt>,
}

#[derive(Debug)]
pub struct ForStmt {
    pub init: Box<Stmt>,
    pub condition: Box<Expr>,
    pub update: Box<Stmt>,
    pub body: Vec<Stmt>,
}

#[derive(Debug)]
pub struct AsmStmt {
    pub template: String,
    pub inputs: Vec<AsmOperand>,
    pub outputs: Vec<AsmOperand>,
    pub clobbers: Vec<String>,
}

#[derive(Debug)]
pub struct AsmOperand {
    pub constraint: String,
    pub expr: Box<Expr>,
}

#[derive(Debug)]
pub enum Expr {
    Literal(Literal),
    Identifier(String),
    Unary(UnaryOp, Box<Expr>),
    Binary(BinaryOp, Box<Expr>, Box<Expr>),
    Call(Box<Expr>, Vec<Expr>),
    Syscall(String, Vec<Expr>),
    Index(Box<Expr>, Box<Expr>),
    Field(Box<Expr>, String),
    PtrField(Box<Expr>, String),
    Cast(Box<Expr>, Type),
    Sizeof(Type),
    Alignof(Type),
    Offsetof(Type, String),
    Assign(Box<Expr>, Box<Expr>),
    AddrOf(Box<Expr>),
    Deref(Box<Expr>),
    Block(Vec<Stmt>, Option<Box<Expr>>),
    If(Box<IfExpr>),
    Alloc(Box<Type>, Box<Expr>),
    Free(Box<Expr>, Box<Expr>),
}

#[derive(Debug)]
pub struct IfExpr {
    pub condition: Box<Expr>,
    pub then_expr: Box<Expr>,
    pub else_expr: Box<Expr>,
}

#[derive(Debug, Clone, Copy)]
pub enum UnaryOp {
    Neg,
    Not,
    BitNot,
    Deref,
    AddrOf,
}

#[derive(Debug, Clone, Copy)]
pub enum BinaryOp {
    Add,
    Sub,
    Mul,
    Div,
    Mod,
    LShift,
    RShift,
    BitAnd,
    BitOr,
    BitXor,
    Eq,
    Neq,
    Lt,
    Gt,
    LtEq,
    GtEq,
    LogicalAnd,
    LogicalOr,
}

#[derive(Debug)]
pub enum Literal {
    Int(i64, IntSuffix),
    /// The float's value, carried as its IEEE-754 double bit pattern.
    Float(u64, FloatSuffix),
    Bool(bool),
    String(Vec<u8>),
    Char(u8),
}

#[derive(Debug, Clone, Copy, PartialEq, Eq, Structural)]
pub enum IntSuffix {
    I8,
    I16,
    I32,
    I64,
    U8,
    U16,
    U32,
    U64,
    Usize,
    Isize,
    Unsuffixed,
}

#[derive(Debug, Clone, Copy, PartialEq, Eq, Structural)]
pub enum FloatSuffix {
    F32,
    F64,
    Unsuffixed,
}

/// A type descriptor. `Named` refers to a user-declared aggregate by name;
/// `Error` is an internal recovery sentinel that never appears in the result
/// type of an expression the checker accepts.
#[derive(Debug)]
pub enum Type {
    Void,
    Bool,
    I8,
    I16,
    I32,
    I64,
    U8,
    U16,
    U32,
    U64,
    F32,
    F64,
    Usize,
    Isize,
    BitInt(u8, bool),
    Ptr(Box<Type>),
    MutPtr(Box<Type>),
    ConstPtr(Box<Type>),
    Array(usize, Box<Type>),
    Func(Vec<Type>, Box<Type>),
    Named(String),
    Error,
}

impl Type {
    /// The stored size of a value of this type, in bytes.
    pub open spec fn size_spec(&self) -> nat
        decreases self,
    {
        match self {
            Type::Void => 0,
            Type::Bool => 1,
            Type::I8 | Type::U8 => 1,
            Type::I16 | Type::U16 => 2,
            Type::I32 | Type::U32 | Type::F32 => 4,
            Type::I64 | Type::U64 | Type::F64 | Type::Usize | Type::Isize => 8,
            Type::BitInt(bits, _) => if *bits <= 8 {
                1
            } else if *bits <= 16 {
                2
            } else if *bits <= 32 {
                4
            } else if *bits <= 64 {
                8
            } else if *bits <= 128 {
                16
            } else {
                ((*bits + 7) / 8) as nat
            },
            Type::Ptr(_) | Type::MutPtr(_) | Type::ConstPtr(_) => 8,
            Type::Array(n, t) => (*n * t.size_spec()) as nat,
            Type::Func(_, _) => 8,
            Type::Named(_) => 0,
            Type::Error => 0,
        }
    }

    /// Whether every array size product inside this type fits the machine
    /// word, so that `size` can be computed without overflow.
    pub open spec fn size_computable(&self) -> bool
        decreases self,
    {
        match self {
            Type::Array(n, t) => t.size_computable() && *n * t.size_spec() <= usize::MAX,
            _ => true,
        }
    }

    /// The alignment of a value of this type, in bytes.
    pub open spec fn align_spec(&self) -> nat
        decreases self,
    {
        match self {
            Type::Void => 1,
            Type::Bool => 1,
            Type::I8 | Type::U8 => 1,
            Type::I16 | Type::U16 => 2,
            Type::I32 | Type::U32 | Type::F32 => 4,
            Type::I64 | Type::U64 | Type::F64 | Type::Usize | Type::Isize => 8,
            Type::BitInt(bits, _) => if *bits <= 8 {
                1
            } else if *bits <= 16 {
                2
            } else if *bits <= 32 {
                4
            } else if *bits <= 64 {
                8
            } else {
                16
            },
            Type::Ptr(_) | Type::MutPtr(_) | Type::ConstPtr(_) => 8,
            Type::Array(_, t) => t.align_spec(),
            Type::Func(_, _) => 1,
            Type::Named(_) => 1,
            Type::Error => 1,
        }
    }

    pub fn size(&self) -> (r: usize)
        requires
            self.size_computable(),
        ensures
            r == self.size_spec(),
        decreases self,
    {
        match self {
            Type::Void => 0,
            Type::Bool => 1,
            Type::I8 | Type::U8 => 1,
            Type::I16 | Type::U16 => 2,
            Type::I32 | Type::U32 | Type::F32 => 4,
            Type::I64 | Type::U64 | Type::F64 | Type::Usize | Type::Isize => 8,
            Type::BitInt(bits, _) => {
                if *bits <= 8 {
                    1
                } else if *bits <= 16 {
                    2
                } else if *bits <= 32 {
                    4
                } else if *bits <= 64 {
                    8
                } else if *bits <= 128 {
                    16
                } else {
                    (*bits as usize + 7) / 8
                }
            },
            Type::Ptr(_) | Type::MutPtr(_) | Type::ConstPtr(_) => 8,
            Type::Array(n, t) => *n * t.size(),
            Type::Func(_, _) => 8,
            Type::Named(_) => 0,
            Type::Error => 0,
        }
    }

    pub fn align(&self) -> (r: usize)
        ensures
            r == self.align_spec(),
        decreases self,
    {
        match self {
            Type::Void => 1,
            Type::Bool => 1,
            Type::I8 | Type::U8 => 1,
            Type::I16 | Type::U16 => 2,
            Type::I32 | Type::U32 | Type::F32 => 4,
            Type::I64 | Type::U64 | Type::F64 | Type::Usize | Type::Isize => 8,
            Type::BitInt(bits, _) => {
                if *bits <= 8 {
                    1
                } else if *bits <= 16 {
                    2
                } else if *bits <= 32 {
                    4
                } else if *bits <= 64 {
                    8
                } else {
                    16
                }
            },
            Type::Ptr(_) | Type::MutPtr(_) | Type::ConstPtr(_) => 8,
            Type::Array(_, t) => t.align(),
            Type::Func(_, _) => 1,
            Type::Named(_) => 1,
            Type::Error => 1,
        }
    }

    pub fn is_integer(&self) -> (r: bool)
        ensures
            r == self@.is_integer(),
    {
        match self {
            Type::I8
            | Type::I16
            | Type::I32
            | Type::I64
            | Type::U8
            | Type::U16
            | Type::U32
            | Type::U64
            | Type::Usize
            | Type::Isize
            | Type::BitInt(_, _) => true,
            _ => false,
        }
    }

    pub fn is_float(&self) -> (r: bool)
        ensures
            r == self@.is_float(),
    {
        match self {
            Type::F32 | Type::F64 => true,
            _ => false,
        }
    }

    pub fn is_pointer(&self) -> (r: bool)
        ensures
            r == self@.is_pointer(),
    {
        match self {
            Type::Ptr(_) | Type::MutPtr(_) | Type::ConstPtr(_) => true,
            _ => false,
        }
    }
}


/// The mathematical value of a type descriptor: the same tree with every
/// name taken as its character sequence. Two descriptors denote the same
/// source type exactly when their views are equal; that is the equality the
/// type checker decides, with no implicit conversion of any kind.
#[verifier::ext_equal]
pub enum TypeV {
    Void,
    Bool,
    I8,
    I16,
    I32,
    I64,
    U8,
    U16,
    U32,
    U64,
    F32,
    F64,
    Usize,
    Isize,
    BitInt(u8, bool),
    Ptr(Box<TypeV>),
    MutPtr(Box<TypeV>),
    ConstPtr(Box<TypeV>),
    Array(usize, Box<TypeV>),
    Func(Seq<TypeV>, Box<TypeV>),
    Named(Seq<char>),
    Error,
}

impl TypeV {
    pub open spec fn is_integer(&self) -> bool {
        match self {
            TypeV::I8
            | TypeV::I16
            | TypeV::I32
            | TypeV::I64
            | TypeV::U8
            | TypeV::U16
            | TypeV::U32
            | TypeV::U64
            | TypeV::Usize
            | TypeV::Isize
            | TypeV::BitInt(_, _) => true,
            _ => false,
        }
    }

    pub open spec fn is_float(&self) -> bool {
        match self {
            TypeV::F32 | TypeV::F64 => true,
            _ => false,
        }
    }

    pub open spec fn is_pointer(&self) -> bool {
        match self {
            TypeV::Ptr(_) | TypeV::MutPtr(_) | TypeV::ConstPtr(_) => true,
            _ => false,
        }
    }
}

pub open spec fn type_view(t: Type) -> TypeV
    decreases t,
{
    match t {
        Type::Void => TypeV::Void,
        Type::Bool => TypeV::Bool,
        Type::I8 => TypeV::I8,
        Type::I16 => TypeV::I16,
        Type::I32 => TypeV::I32,
        Type::I64 => TypeV::I64,
        Type::U8 => TypeV::U8,
        Type::U16 => TypeV::U16,
        Type::U32 => TypeV::U32,
        Type::U64 => TypeV::U64,
        Type::F32 => TypeV::F32,
        Type::F64 => TypeV::F64,
        Type::Usize => TypeV::Usize,
        Type::Isize => TypeV::Isize,
        Type::BitInt(bits, signed) => TypeV::BitInt(bits, signed),
        Type::Ptr(t) => TypeV::Ptr(Box::new(type_view(*t))),
        Type::MutPtr(t) => TypeV::MutPtr(Box::new(type_view(*t))),
        Type::ConstPtr(t) => TypeV::ConstPtr(Box::new(type_view(*t))),
        Type::Array(n, t) => TypeV::Array(n, Box::new(type_view(*t))),
        Type::Func(ps, r) => TypeV::Func(types_view(ps@), Box::new(type_view(*r))),
        Type::Named(s) => TypeV::Named(s@),
        Type::Error => TypeV::Error,
    }
}

pub open spec fn types_view(s: Seq<Type>) -> Seq<TypeV>
    decreases s,
{
    if s.len() == 0 {
        Seq::empty()
    } else {
        types_view(s.drop_last()).push(type_view(s.last()))
    }
}

impl View for Type {
    type V = TypeV;

    open spec fn view(&self) -> TypeV {
        type_view(*self)
    }
}

pub proof fn lemma_types_view(s: Seq<Type>)
    ensures
        types_view(s).len() == s.len(),
        forall|i: int| 0 <= i < s.len() ==> #[trigger] types_view(s)[i] == type_view(s[i]),
    decreases s,
{
    if s.len() > 0 {
        lemma_types_view(s.drop_last());
    }
}

pub proof fn lemma_types_view_push(s: Seq<Type>, x: Type)
    ensures
        types_view(s.push(x)) == types_view(s).push(type_view(x)),
{
    assert(s.push(x).drop_last() =~= s);
    assert(s.push(x).last() == x);
}

/// The mathematical value of a struct field declaration.
#[verifier::ext_equal]
pub struct FieldV {
    pub name: Seq<char>,
    pub ty: TypeV,
}

/// The mathematical value of a struct declaration.
#[verifier::ext_equal]
pub struct StructV {
    pub name: Seq<char>,
    pub fields: Seq<FieldV>,
}

impl View for StructField {
    type V = FieldV;

    open spec fn view(&self) -> FieldV {
        FieldV { name: self.name@, ty: type_view(*self.ty) }
    }
}

pub open spec fn fields_view(s: Seq<StructField>) -> Seq<FieldV>
    decreases s,
{
    if s.len() == 0 {
        Seq::empty()
    } else {
        fields_view(s.drop_last()).push(s.last()@)
    }
}

impl View for Struct {
    type V = StructV;

    open spec fn view(&self) -> StructV {
        StructV { name: self.name@, fields: fields_view(self.fields@) }
    }
}

pub proof fn lemma_fields_view(s: Seq<StructField>)
    ensures
        fields_view(s).len() == s.len(),
        forall|i: int| 0 <= i < s.len() ==> #[trigger] fields_view(s)[i] == s[i]@,
    decreases s,
{
    if s.len() > 0 {
        lemma_fields_view(s.drop_last());
    }
}

pub proof fn lemma_fields_view_push(s: Seq<StructField>, x: StructField)
    ensures
        fields_view(s.push(x)) == fields_view(s).push(x@),
{
    assert(s.push(x).drop_last() =~= s);
    assert(s.push(x).last() == x);
}

/// Decides whether two type descriptors denote the same source type.
#[verifier::rlimit(100)]
pub fn type_eq(a: &Type, b: &Type) -> (r: bool)
    ensures
        r == (a@ == b@),
    decreases a,
{
    match a {
        Type::Void => match b {
            Type::Void => true,
            _ => false,
        },
        Type::Bool => match b {
            Type::Bool => true,
            _ => false,
        },
        Type::I8 => match b {
            Type::I8 => true,
            _ => false,
        },
        Type::I16 => match b {
            Type::I16 => true,
            _ => false,
        },
        Type::I32 => match b {
            Type::I32 => true,
            _ => false,
        },
        Type::I64 => match b {
            Type::I64 => true,
            _ => false,
        },
        Type::U8 => match b {
            Type::U8 => true,
            _ => false,
        },
        Type::U16 => match b {
            Type::U16 => true,
            _ => false,
        },
        Type::U32 => match b {
            Type::U32 => true,
            _ => false,
        },
        Type::U64 => match b {
            Type::U64 => true,
            _ => false,
        },
        Type::F32 => match b {
            Type::F32 => true,
            _ => false,
        },
        Type::F64 => match b {
            Type::F64 => true,
            _ => false,
        },
        Type::Usize => match b {
            Type::Usize => true,
            _ => false,
        },
        Type::Isize => match b {
            Type::Isize => true,
            _ => false,
        },
        Type::BitInt(b1, s1) => match b {
            Type::BitInt(b2, s2) => *b1 == *b2 && *s1 == *s2,
            _ => false,
        },
        Type::Ptr(p) => match b {
            Type::Ptr(q) => type_eq(&**p, &**q),
            _ => false,
        },
        Type::MutPtr(p) => match b {
            Type::MutPtr(q) => type_eq(&**p, &**q),
            _ => false,
        },
        Type::ConstPtr(p) => match b {
            Type::ConstPtr(q) => type_eq(&**p, &**q),
            _ => false,
        },
        Type::Array(n, p) => match b {
            Type::Array(m, q) => *n == *m && type_eq(&**p, &**q),
            _ => false,
        },
        Type::Func(ps, p) => match b {
            Type::Func(qs, q) => {
                let seqs = type_seq_eq(ps, qs);
                seqs && type_eq(&**p, &**q)
            },
            _ => false,
        },
        Type::Named(x) => match b {
            Type::Named(y) => x.eq(y),
            _ => false,
        },
        Type::Error => match b {
            Type::Error => true,
            _ => false,
        },
    }
}

/// Decides pairwise `type_eq` over two vectors of type descriptors.
pub fn type_seq_eq(a: &Vec<Type>, b: &Vec<Type>) -> (r: bool)
    ensures
        r == (types_view(a@) == types_view(b@)),
    decreases a,
{
    proof {
        lemma_types_view(a@);
        lemma_types_view(b@);
    }
    if a.len() != b.len() {
        return false;
    }
    let mut i: usize = 0;
    while i < a.len()
        invariant
            i <= a.len(),
            a@.len() == b@.len(),
            types_view(a@).len() == a@.len(),
            types_view(b@).len() == b@.len(),
            forall|j: int| 0 <= j < i ==> #[trigger] types_view(a@)[j] == types_view(b@)[j],
            forall|j: int| 0 <= j < a@.len() ==> #[trigger] types_view(a@)[j] == type_view(a@[j]),
            forall|j: int| 0 <= j < b@.len() ==> #[trigger] types_view(b@)[j] == type_view(b@[j]),
        decreases a.len() - i,
    {
        if !type_eq(&a[i], &b[i]) {
            proof {
                assert(types_view(a@)[i as int] != types_view(b@)[i as int]);
            }
            return false;
        }
        i = i + 1;
    }
    proof {
        assert(types_view(a@) =~= types_view(b@));
    }
    true
}

impl Clone for Type {
    fn clone(&self) -> (r: Self)
        ensures
            r@ == self@,
        decreases self,
    {
        match self {
            Type::Void => Type::Void,
            Type::Bool => Type::Bool,
            Type::I8 => Type::I8,
            Type::I16 => Type::I16,
            Type::I32 => Type::I32,
            Type::I64 => Type::I64,
            Type::U8 => Type::U8,
            Type::U16 => Type::U16,
            Type::U32 => Type::U32,
            Type::U64 => Type::U64,
            Type::F32 => Type::F32,
            Type::F64 => Type::F64,
            Type::Usize => Type::Usize,
            Type::Isize => Type::Isize,
            Type::BitInt(bits, signed) => Type::BitInt(*bits, *signed),
            Type::Ptr(t) => Type::Ptr(Box::new((&**t).clone())),
            Type::MutPtr(t) => Type::MutPtr(Box::new((&**t).clone())),
            Type::ConstPtr(t) => Type::ConstPtr(Box::new((&**t).clone())),
            Type::Array(n, t) => Type::Array(*n, Box::new((&**t).clone())),
            Type::Func(ps, r) => Type::Func(clone_type_vec(ps), Box::new((&**r).clone())),
            Type::Named(s) => Type::Named(s.clone()),
            Type::Error => Type::Error,
        }
    }
}

/// Clones a vector of type descriptors elementwise, keeping its view.
fn clone_type_vec(v: &Vec<Type>) -> (r: Vec<Type>)
    ensures
        types_view(r@) == types_view(v@),
    decreases v,
{
    let mut r: Vec<Type> = Vec::new();
    let mut i: usize = 0;
    while i < v.len()
        invariant
            i <= v.len(),
            r@.len() == i,
            types_view(r@) == types_view(v@.take(i as int)),
        decreases v.len() - i,
    {
        let ghost prefix = r@;
        r.push(v[i].clone());
        proof {
            lemma_types_view_push(prefix, r@.last());
            lemma_types_view_push(v@.take(i as int), v@[i as int]);
            assert(v@.take(i + 1) =~= v@.take(i as int).push(v@[i as int]));
            assert(r@ =~= prefix.push(r@.last()));
        }
        i = i + 1;
    }
    proof {
        assert(v@.take(v@.len() as int) =~= v@);
    }
    r
}

impl Clone for StructField {
    fn clone(&self) -> (r: Self)
        ensures
            r@ == self@,
    {
        StructField { name: self.name.clone(), ty: Box::new((&*self.ty).clone()) }
    }
}

impl Clone for Struct {
    fn clone(&self) -> (r: Self)
        ensures
            r@ == self@,
    {
        let mut fields: Vec<StructField> = Vec::new();
        let mut i: usize = 0;
        while i < self.fields.len()
            invariant
                i <= self.fields.len(),
                fields@.len() == i,
                fields_view(fields@) == fields_view(self.fields@.take(i as int)),
            decreases self.fields.len() - i,
        {
            let ghost prefix = fields@;
            fields.push(self.fields[i].clone());
            proof {
                lemma_fields_view_push(prefix, fields@.last());
                lemma_fields_view_push(self.fields@.take(i as int), self.fields@[i as int]);
                assert(self.fields@.take(i + 1) =~= self.fields@.take(i as int).push(
                    self.fields@[i as int],
                ));
                assert(fields@ =~= prefix.push(fields@.last()));
            }
            i = i + 1;
        }
        proof {
            assert(self.fields@.take(self.fields@.len() as int) =~= self.fields@);
        }
        Struct { name: self.name.clone(), fields }
    }
}


} // verus!
