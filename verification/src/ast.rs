use vstd::prelude::*;

use crate::token::{Delim, Lit, Tok};

verus! {

/// Whether an attribute is written `#[...]` or `#![...]`.
#[derive(Debug, Clone, Copy, PartialEq, Eq, Structural)]
pub enum AttrStyle {
    Outer,
    Inner,
}

/// An attribute: its style and the tokens between its brackets.
#[derive(Debug, PartialEq, Eq)]
pub struct Attribute {
    pub style: AttrStyle,
    pub tts: Vec<Tok>,
}

/// An identifier that is not a keyword.
#[derive(Debug, Clone, Copy, PartialEq, Eq, Structural)]
pub struct Ident {
    pub sym: u64,
}

/// A lifetime such as `'a`.
#[derive(Debug, Clone, Copy, PartialEq, Eq, Structural)]
pub struct Lifetime {
    pub sym: u64,
}

/// A name in a path or a binding: an identifier or one of the keywords
/// that may stand where an identifier does.
#[derive(Debug, Clone, Copy, PartialEq, Eq, Structural)]
pub enum Name {
    Ident(Ident),
    /// `self`
    SelfValue,
    /// `Self`
    SelfType,
    /// `super`
    Super,
    /// `crate`
    Crate,
}

/// A path such as `std::mem::replace`, with an optional leading `::`.
#[derive(Debug, PartialEq, Eq)]
pub struct Path {
    pub leading_colon: bool,
    pub segments: Vec<Name>,
}

/// A type.
#[derive(Debug, PartialEq, Eq)]
pub enum Type {
    /// A path type such as `std::string::String`.
    Path(Path),
    /// `_`
    Infer,
    /// `!`
    Never,
    /// `&T` or `&mut T`.
    Reference(TypeReference),
    /// `(A, B)`; the flag records a trailing comma.
    Tuple(Vec<Type>, bool),
    /// `[T]`
    Slice(Box<Type>),
    /// `(T)`
    Paren(Box<Type>),
}

#[derive(Debug, PartialEq, Eq)]
pub struct TypeReference {
    pub lifetime: Option<Lifetime>,
    pub mutability: bool,
    pub elem: Box<Type>,
}

/// A macro invocation: its path, the delimiter of its body and the tokens
/// inside that delimiter.
#[derive(Debug, PartialEq, Eq)]
pub struct Macro {
    pub path: Path,
    pub delimiter: Delim,
    pub tts: Vec<Tok>,
}

/// A binary operator, compound assignments included.
#[derive(Debug, Clone, Copy, PartialEq, Eq, Structural)]
pub enum BinOp {
    Add,
    Sub,
    Mul,
    Div,
    Rem,
    And,
    Or,
    BitXor,
    BitAnd,
    BitOr,
    Shl,
    Shr,
    Eq,
    Lt,
    Le,
    Ne,
    Ge,
    Gt,
    AddEq,
    SubEq,
    MulEq,
    DivEq,
    RemEq,
    BitXorEq,
    BitAndEq,
    BitOrEq,
    ShlEq,
    ShrEq,
}

/// A unary operator: `*`, `!` or `-`.
#[derive(Debug, Clone, Copy, PartialEq, Eq, Structural)]
pub enum UnOp {
    Deref,
    Not,
    Neg,
}

/// The limits of a range: `..` or `..=`.
#[derive(Debug, Clone, Copy, PartialEq, Eq, Structural)]
pub enum RangeLimits {
    HalfOpen,
    Closed,
}

/// The index of an unnamed tuple struct field.
#[derive(Debug, Clone, Copy, PartialEq, Eq, Structural)]
pub struct Index {
    pub index: u32,
}

/// A struct or tuple struct field accessed in a struct literal or field
/// expression.
#[derive(Debug, Clone, Copy, PartialEq, Eq, Structural)]
pub enum Member {
    /// A named field like `self.x`.
    Named(Ident),
    /// An unnamed field like `self.0`.
    Unnamed(Index),
}

impl Index {
    /// The index `index` of an unnamed field; `index` must be below `u32::MAX`.
    pub fn from(index: usize) -> (r: Index)
        requires
            index < u32::MAX,
        ensures
            r.index == index,
    {
        Index { index: index as u32 }
    }
}

impl Member {
    /// Whether this is a named field like `self.x`.
    pub fn is_named(&self) -> (r: bool)
        ensures
            r == (*self is Named),
    {
        match *self {
            Member::Named(_) => true,
            Member::Unnamed(_) => false,
        }
    }

    /// Whether this is an unnamed field like `self.0`.
    pub fn is_unnamed(&self) -> (r: bool)
        ensures
            r == (*self is Unnamed),
    {
        match *self {
            Member::Named(_) => false,
            Member::Unnamed(_) => true,
        }
    }
}

/// A lifetime labeling a `for`, `while`, or `loop`.
#[derive(Debug, Clone, Copy, PartialEq, Eq, Structural)]
pub struct Label {
    pub name: Lifetime,
}

/// A Rust expression.
#[derive(Debug, PartialEq, Eq)]
pub enum Expr {
    Box(ExprBox),
    InPlace(ExprInPlace),
    Array(ExprArray),
    Call(ExprCall),
    MethodCall(ExprMethodCall),
    Tuple(ExprTuple),
    Binary(ExprBinary),
    Unary(ExprUnary),
    Lit(ExprLit),
    Cast(ExprCast),
    Type(ExprType),
    If(ExprIf),
    IfLet(ExprIfLet),
    While(ExprWhile),
    WhileLet(ExprWhileLet),
    ForLoop(ExprForLoop),
    Loop(ExprLoop),
    Match(ExprMatch),
    Closure(ExprClosure),
    Unsafe(ExprUnsafe),
    Block(ExprBlock),
    Assign(ExprAssign),
    AssignOp(ExprAssignOp),
    Field(ExprField),
    Index(ExprIndex),
    Range(ExprRange),
    Path(ExprPath),
    Reference(ExprReference),
    Break(ExprBreak),
    Continue(ExprContinue),
    Return(ExprReturn),
    Macro(ExprMacro),
    Struct(ExprStruct),
    Repeat(ExprRepeat),
    Paren(ExprParen),
    Group(ExprGroup),
    Try(ExprTry),
    Async(ExprAsync),
    TryBlock(ExprTryBlock),
    Yield(ExprYield),
    Verbatim(ExprVerbatim),
}

/// A box expression: `box f`.
#[derive(Debug, PartialEq, Eq)]
pub struct ExprBox {
    pub attrs: Vec<Attribute>,
    pub expr: Box<Expr>,
}

/// A placement expression: `place <- value`.
#[derive(Debug, PartialEq, Eq)]
pub struct ExprInPlace {
    pub attrs: Vec<Attribute>,
    pub place: Box<Expr>,
    pub value: Box<Expr>,
}

/// A slice literal expression: `[a, b, c, d]`; the flag records a trailing
/// comma.
#[derive(Debug, PartialEq, Eq)]
pub struct ExprArray {
    pub attrs: Vec<Attribute>,
    pub elems: Vec<Expr>,
    pub trailing: bool,
}

/// A function call expression: `invoke(a, b)`.
#[derive(Debug, PartialEq, Eq)]
pub struct ExprCall {
    pub attrs: Vec<Attribute>,
    pub func: Box<Expr>,
    pub args: Vec<Expr>,
    pub trailing: bool,
}

/// A method call expression: `x.foo::<T>(a, b)`.
#[derive(Debug, PartialEq, Eq)]
pub struct ExprMethodCall {
    pub attrs: Vec<Attribute>,
    pub receiver: Box<Expr>,
    pub method: Ident,
    pub turbofish: Option<MethodTurbofish>,
    pub args: Vec<Expr>,
    pub trailing: bool,
}

/// The `::<>` explicit type parameters passed to a method call.
#[derive(Debug, PartialEq, Eq)]
pub struct MethodTurbofish {
    pub args: Vec<GenericMethodArgument>,
    pub trailing: bool,
}

/// An individual generic argument to a method, like `T`.
#[derive(Debug, PartialEq, Eq)]
pub enum GenericMethodArgument {
    Type(Type),
    Const(Expr),
}

/// A tuple expression: `(a, b, c, d)`.
#[derive(Debug, PartialEq, Eq)]
pub struct ExprTuple {
    pub attrs: Vec<Attribute>,
    pub elems: Vec<Expr>,
    pub trailing: bool,
}

/// A binary operation: `a + b`, `a * b`.
#[derive(Debug, PartialEq, Eq)]
pub struct ExprBinary {
    pub attrs: Vec<Attribute>,
    pub left: Box<Expr>,
    pub op: BinOp,
    pub right: Box<Expr>,
}

/// A unary operation: `!x`, `*x`.
#[derive(Debug, PartialEq, Eq)]
pub struct ExprUnary {
    pub attrs: Vec<Attribute>,
    pub op: UnOp,
    pub expr: Box<Expr>,
}

/// A literal in place of an expression: `1`, `"foo"`.
#[derive(Debug, PartialEq, Eq)]
pub struct ExprLit {
    pub attrs: Vec<Attribute>,
    pub lit: Lit,
}

/// A cast expression: `foo as f64`.
#[derive(Debug, PartialEq, Eq)]
pub struct ExprCast {
    pub attrs: Vec<Attribute>,
    pub expr: Box<Expr>,
    pub ty: Box<Type>,
}

/// A type ascription expression: `foo: f64`.
#[derive(Debug, PartialEq, Eq)]
pub struct ExprType {
    pub attrs: Vec<Attribute>,
    pub expr: Box<Expr>,
    pub ty: Box<Type>,
}

/// An `if` expression with an optional `else` block.
#[derive(Debug, PartialEq, Eq)]
pub struct ExprIf {
    pub attrs: Vec<Attribute>,
    pub cond: Box<Expr>,
    pub then_branch: Block,
    pub else_branch: Option<Box<Expr>>,
}

/// An `if let` expression with an optional `else` block.
#[derive(Debug, PartialEq, Eq)]
pub struct ExprIfLet {
    pub attrs: Vec<Attribute>,
    pub pats: Vec<Pat>,
    pub expr: Box<Expr>,
    pub then_branch: Block,
    pub else_branch: Option<Box<Expr>>,
}

/// A while loop: `while expr { ... }`.
#[derive(Debug, PartialEq, Eq)]
pub struct ExprWhile {
    pub attrs: Vec<Attribute>,
    pub label: Option<Label>,
    pub cond: Box<Expr>,
    pub body: Block,
}

/// A while-let loop: `while let pat = expr { ... }`.
#[derive(Debug, PartialEq, Eq)]
pub struct ExprWhileLet {
    pub attrs: Vec<Attribute>,
    pub label: Option<Label>,
    pub pats: Vec<Pat>,
    pub expr: Box<Expr>,
    pub body: Block,
}

/// A for loop: `for pat in expr { ... }`.
#[derive(Debug, PartialEq, Eq)]
pub struct ExprForLoop {
    pub attrs: Vec<Attribute>,
    pub label: Option<Label>,
    pub pat: Box<Pat>,
    pub expr: Box<Expr>,
    pub body: Block,
}

/// Conditionless loop: `loop { ... }`.
#[derive(Debug, PartialEq, Eq)]
pub struct ExprLoop {
    pub attrs: Vec<Attribute>,
    pub label: Option<Label>,
    pub body: Block,
}

/// A `match` expression.
#[derive(Debug, PartialEq, Eq)]
pub struct ExprMatch {
    pub attrs: Vec<Attribute>,
    pub expr: Box<Expr>,
    pub arms: Vec<Arm>,
}

/// A closure expression: `|a, b| a + b`.
#[derive(Debug, PartialEq, Eq)]
pub struct ExprClosure {
    pub attrs: Vec<Attribute>,
    pub asyncness: bool,
    pub movability: bool,
    pub capture: bool,
    pub inputs: Vec<FnArg>,
    pub trailing: bool,
    pub output: ReturnType,
    pub body: Box<Expr>,
}

/// An argument of a closure.
#[derive(Debug, PartialEq, Eq)]
pub enum FnArg {
    /// `pat: Type`
    Captured(Pat, Type),
    /// `pat`
    Inferred(Pat),
}

/// The return type of a closure.
#[derive(Debug, PartialEq, Eq)]
pub enum ReturnType {
    Default,
    Type(Box<Type>),
}

/// An unsafe block: `unsafe { ... }`.
#[derive(Debug, PartialEq, Eq)]
pub struct ExprUnsafe {
    pub attrs: Vec<Attribute>,
    pub block: Block,
}

/// A blocked scope: `{ ... }`.
#[derive(Debug, PartialEq, Eq)]
pub struct ExprBlock {
    pub attrs: Vec<Attribute>,
    pub label: Option<Label>,
    pub block: Block,
}

/// An assignment expression: `a = compute()`.
#[derive(Debug, PartialEq, Eq)]
pub struct ExprAssign {
    pub attrs: Vec<Attribute>,
    pub left: Box<Expr>,
    pub right: Box<Expr>,
}

/// A compound assignment expression: `counter += 1`.
#[derive(Debug, PartialEq, Eq)]
pub struct ExprAssignOp {
    pub attrs: Vec<Attribute>,
    pub left: Box<Expr>,
    pub op: BinOp,
    pub right: Box<Expr>,
}

/// Access of a named struct field (`obj.k`) or unnamed tuple struct field
/// (`obj.0`).
#[derive(Debug, PartialEq, Eq)]
pub struct ExprField {
    pub attrs: Vec<Attribute>,
    pub base: Box<Expr>,
    pub member: Member,
}

/// A square bracketed indexing expression: `vector[2]`.
#[derive(Debug, PartialEq, Eq)]
pub struct ExprIndex {
    pub attrs: Vec<Attribute>,
    pub expr: Box<Expr>,
    pub index: Box<Expr>,
}

/// A range expression: `1..2`, `1..`, `..2`, `1..=2`, `..=2`.
#[derive(Debug, PartialEq, Eq)]
pub struct ExprRange {
    pub attrs: Vec<Attribute>,
    pub from: Option<Box<Expr>>,
    pub limits: RangeLimits,
    pub to: Option<Box<Expr>>,
}

/// A path like `std::mem::replace`.
#[derive(Debug, PartialEq, Eq)]
pub struct ExprPath {
    pub attrs: Vec<Attribute>,
    pub path: Path,
}

/// A referencing operation: `&a` or `&mut a`.
#[derive(Debug, PartialEq, Eq)]
pub struct ExprReference {
    pub attrs: Vec<Attribute>,
    pub mutability: bool,
    pub expr: Box<Expr>,
}

/// A `break`, with an optional label to break and an optional expression.
#[derive(Debug, PartialEq, Eq)]
pub struct ExprBreak {
    pub attrs: Vec<Attribute>,
    pub label: Option<Lifetime>,
    pub expr: Option<Box<Expr>>,
}

/// A `continue`, with an optional label.
#[derive(Debug, PartialEq, Eq)]
pub struct ExprContinue {
    pub attrs: Vec<Attribute>,
    pub label: Option<Lifetime>,
}

/// A `return`, with an optional value to be returned.
#[derive(Debug, PartialEq, Eq)]
pub struct ExprReturn {
    pub attrs: Vec<Attribute>,
    pub expr: Option<Box<Expr>>,
}

/// A macro invocation expression: `format!("{}", q)`.
#[derive(Debug, PartialEq, Eq)]
pub struct ExprMacro {
    pub attrs: Vec<Attribute>,
    pub mac: Macro,
}

/// A struct literal expression: `Point { x: 1, y: 1 }`, with the remaining
/// fields as in `S { a: 1, ..rest }`.
#[derive(Debug, PartialEq, Eq)]
pub struct ExprStruct {
    pub attrs: Vec<Attribute>,
    pub path: Path,
    pub fields: Vec<FieldValue>,
    pub trailing: bool,
    pub dot2: bool,
    pub rest: Option<Box<Expr>>,
}

/// A field-value pair in a struct literal.
#[derive(Debug, PartialEq, Eq)]
pub struct FieldValue {
    pub attrs: Vec<Attribute>,
    pub member: Member,
    /// The colon in `Struct { x: x }`; absent in the shorthand `Struct { x }`.
    pub colon: bool,
    pub expr: Expr,
}

/// An array literal constructed from one repeated element: `[0u8; N]`.
#[derive(Debug, PartialEq, Eq)]
pub struct ExprRepeat {
    pub attrs: Vec<Attribute>,
    pub expr: Box<Expr>,
    pub len: Box<Expr>,
}

/// A parenthesized expression: `(a + b)`.
#[derive(Debug, PartialEq, Eq)]
pub struct ExprParen {
    pub attrs: Vec<Attribute>,
    pub expr: Box<Expr>,
}

/// An expression contained within invisible delimiters.
#[derive(Debug, PartialEq, Eq)]
pub struct ExprGroup {
    pub attrs: Vec<Attribute>,
    pub expr: Box<Expr>,
}

/// A try-expression: `expr?`.
#[derive(Debug, PartialEq, Eq)]
pub struct ExprTry {
    pub attrs: Vec<Attribute>,
    pub expr: Box<Expr>,
}

/// An async block: `async { ... }`.
#[derive(Debug, PartialEq, Eq)]
pub struct ExprAsync {
    pub attrs: Vec<Attribute>,
    pub capture: bool,
    pub block: Block,
}

/// A try block: `try { ... }`.
#[derive(Debug, PartialEq, Eq)]
pub struct ExprTryBlock {
    pub attrs: Vec<Attribute>,
    pub block: Block,
}

/// A yield expression: `yield expr`.
#[derive(Debug, PartialEq, Eq)]
pub struct ExprYield {
    pub attrs: Vec<Attribute>,
    pub expr: Option<Box<Expr>>,
}

/// Tokens in expression position not interpreted by the parser.
#[derive(Debug, PartialEq, Eq)]
pub struct ExprVerbatim {
    pub tts: Vec<Tok>,
}

/// A braced block containing statements.
#[derive(Debug, PartialEq, Eq)]
pub struct Block {
    pub stmts: Vec<Stmt>,
}

/// A statement, usually ending in a semicolon.
#[derive(Debug, PartialEq, Eq)]
pub enum Stmt {
    /// A local (let) binding.
    Local(Local),
    /// An item definition.
    Item(Item),
    /// Expr without trailing semicolon.
    Expr(Expr),
    /// Expression with trailing semicolon.
    Semi(Expr),
}

/// The items that a statement can hold: macro invocations in statement
/// position.
#[derive(Debug, PartialEq, Eq)]
pub enum Item {
    Macro(ItemMacro),
}

/// A macro invocation in item position, as in `name! { ... }` or
/// `macro_rules! name { ... }`.
#[derive(Debug, PartialEq, Eq)]
pub struct ItemMacro {
    pub attrs: Vec<Attribute>,
    pub ident: Option<Ident>,
    pub mac: Macro,
    pub semi: bool,
}

/// A local `let` binding: `let x: u64 = s.parse()?;`.
#[derive(Debug, PartialEq, Eq)]
pub struct Local {
    pub attrs: Vec<Attribute>,
    pub pats: Vec<Pat>,
    pub ty: Option<Box<Type>>,
    pub init: Option<Box<Expr>>,
}

/// A pattern.
#[derive(Debug, PartialEq, Eq)]
pub enum Pat {
    /// `_`
    Wild,
    /// `ref mut binding @ SUBPATTERN`
    Ident(PatIdent),
    /// `Variant { x, y, .. }`
    Struct(PatStruct),
    /// `Variant(x, y, .., z)`
    TupleStruct(PatTupleStruct),
    /// `Color::Red`
    Path(PatPath),
    /// `(a, b)`
    Tuple(PatTuple),
    /// `box v`
    Box(PatBox),
    /// `&mut (first, second)`
    Ref(PatRef),
    /// `0`, `-1`
    Lit(PatLit),
    /// `1..=2`
    Range(PatRange),
    /// `[a, b, i.., y, z]`
    Slice(PatSlice),
    /// A macro in pattern position.
    Macro(Macro),
    /// Tokens in pattern position not interpreted by the parser.
    Verbatim(Vec<Tok>),
}

#[derive(Debug, PartialEq, Eq)]
pub struct PatIdent {
    pub by_ref: bool,
    pub mutability: bool,
    pub ident: Name,
    pub subpat: Option<Box<Pat>>,
}

#[derive(Debug, PartialEq, Eq)]
pub struct PatStruct {
    pub path: Path,
    pub fields: Vec<FieldPat>,
    pub trailing: bool,
    pub dot2: bool,
}

#[derive(Debug, PartialEq, Eq)]
pub struct PatTupleStruct {
    pub path: Path,
    pub pat: PatTuple,
}

#[derive(Debug, PartialEq, Eq)]
pub struct PatPath {
    pub path: Path,
}

/// A tuple pattern `(front.., .., back..)`.
#[derive(Debug, PartialEq, Eq)]
pub struct PatTuple {
    pub front: Vec<Pat>,
    pub front_trailing: bool,
    pub dot2: bool,
    pub comma: bool,
    pub back: Vec<Pat>,
    pub back_trailing: bool,
}

#[derive(Debug, PartialEq, Eq)]
pub struct PatBox {
    pub pat: Box<Pat>,
}

#[derive(Debug, PartialEq, Eq)]
pub struct PatRef {
    pub mutability: bool,
    pub pat: Box<Pat>,
}

/// A literal pattern, held as an expression since negative numbers are
/// unary expressions.
#[derive(Debug, PartialEq, Eq)]
pub struct PatLit {
    pub expr: Box<Expr>,
}

#[derive(Debug, PartialEq, Eq)]
pub struct PatRange {
    pub lo: Box<Expr>,
    pub limits: RangeLimits,
    pub hi: Box<Expr>,
}

/// A slice pattern `[front.., middle.., back..]`.
#[derive(Debug, PartialEq, Eq)]
pub struct PatSlice {
    pub front: Vec<Pat>,
    pub front_trailing: bool,
    pub middle: Option<Box<Pat>>,
    pub dot2: bool,
    pub comma: bool,
    pub back: Vec<Pat>,
    pub back_trailing: bool,
}

/// A single field in a struct pattern.
#[derive(Debug, PartialEq, Eq)]
pub struct FieldPat {
    pub member: Member,
    pub colon: bool,
    pub pat: Box<Pat>,
}

/// One arm of a `match` expression.
#[derive(Debug, PartialEq, Eq)]
pub struct Arm {
    pub attrs: Vec<Attribute>,
    pub leading_vert: bool,
    pub pats: Vec<Pat>,
    pub guard: Option<Box<Expr>>,
    pub body: Box<Expr>,
    pub comma: bool,
}

/// Whether a match arm whose body is `expr` must be followed by a comma
/// when another arm follows: all bodies but blocks and block-like
/// expressions (`unsafe`, `if`, `if let`, `match`, `while`, `while let`,
/// `loop`, `for`, `async` and `try` blocks) need one.
pub fn arm_expr_requires_comma(expr: &Expr) -> (r: bool)
    ensures
        r == crate::print::requires_comma(*expr),
{
    match *expr {
        Expr::Unsafe(..) | Expr::Block(..) | Expr::If(..) | Expr::IfLet(..) | Expr::Match(..)
        | Expr::While(..) | Expr::WhileLet(..) | Expr::Loop(..) | Expr::ForLoop(..)
        | Expr::Async(..) | Expr::TryBlock(..) => false,
        _ => true,
    }
}

/// When an expression stands before a block, as the condition of an `if`,
/// a struct literal is not allowed there: `if x == S {}` compares `x` with
/// `S`.
#[derive(Debug, Clone, Copy, PartialEq, Eq, Structural)]
pub struct AllowStruct(pub bool);

/// Whether a block may start an expression at this position.
#[derive(Debug, Clone, Copy, PartialEq, Eq, Structural)]
pub struct AllowBlock(pub bool);

/// How tightly an operator binds, from loosest to tightest.
#[derive(Debug, Clone, Copy, PartialEq, Eq, Structural)]
pub enum Precedence {
    Any,
    Assign,
    Placement,
    Range,
    Or,
    And,
    Compare,
    BitOr,
    BitXor,
    BitAnd,
    Shift,
    Arithmetic,
    Term,
    Cast,
}

/// The position of a precedence level in the order above, `Any` being 0.
pub open spec fn prec_rank(p: Precedence) -> int {
    match p {
        Precedence::Any => 0,
        Precedence::Assign => 1,
        Precedence::Placement => 2,
        Precedence::Range => 3,
        Precedence::Or => 4,
        Precedence::And => 5,
        Precedence::Compare => 6,
        Precedence::BitOr => 7,
        Precedence::BitXor => 8,
        Precedence::BitAnd => 9,
        Precedence::Shift => 10,
        Precedence::Arithmetic => 11,
        Precedence::Term => 12,
        Precedence::Cast => 13,
    }
}

/// The precedence level of a binary operator.
pub open spec fn binop_prec(op: BinOp) -> Precedence {
    match op {
        BinOp::Add | BinOp::Sub => Precedence::Arithmetic,
        BinOp::Mul | BinOp::Div | BinOp::Rem => Precedence::Term,
        BinOp::And => Precedence::And,
        BinOp::Or => Precedence::Or,
        BinOp::BitXor => Precedence::BitXor,
        BinOp::BitAnd => Precedence::BitAnd,
        BinOp::BitOr => Precedence::BitOr,
        BinOp::Shl | BinOp::Shr => Precedence::Shift,
        BinOp::Eq | BinOp::Lt | BinOp::Le | BinOp::Ne | BinOp::Ge | BinOp::Gt => Precedence::Compare,
        BinOp::AddEq | BinOp::SubEq | BinOp::MulEq | BinOp::DivEq | BinOp::RemEq
        | BinOp::BitXorEq | BinOp::BitAndEq | BinOp::BitOrEq | BinOp::ShlEq
        | BinOp::ShrEq => Precedence::Assign,
    }
}

impl Precedence {
    /// The precedence of a binary operator: compound assignments bind as
    /// loosely as `=`.
    pub fn of(op: &BinOp) -> (r: Precedence)
        ensures
            r == binop_prec(*op),
    {
        match *op {
            BinOp::Add | BinOp::Sub => Precedence::Arithmetic,
            BinOp::Mul | BinOp::Div | BinOp::Rem => Precedence::Term,
            BinOp::And => Precedence::And,
            BinOp::Or => Precedence::Or,
            BinOp::BitXor => Precedence::BitXor,
            BinOp::BitAnd => Precedence::BitAnd,
            BinOp::BitOr => Precedence::BitOr,
            BinOp::Shl | BinOp::Shr => Precedence::Shift,
            BinOp::Eq | BinOp::Lt | BinOp::Le | BinOp::Ne | BinOp::Ge
            | BinOp::Gt => Precedence::Compare,
            BinOp::AddEq | BinOp::SubEq | BinOp::MulEq | BinOp::DivEq | BinOp::RemEq
            | BinOp::BitXorEq | BinOp::BitAndEq | BinOp::BitOrEq | BinOp::ShlEq
            | BinOp::ShrEq => Precedence::Assign,
        }
    }

    /// The rank of this level in the order from `Any` (0) to `Cast` (13).
    pub fn rank(self) -> (r: u8)
        ensures
            r == prec_rank(self),
    {
        match self {
            Precedence::Any => 0,
            Precedence::Assign => 1,
            Precedence::Placement => 2,
            Precedence::Range => 3,
            Precedence::Or => 4,
            Precedence::And => 5,
            Precedence::Compare => 6,
            Precedence::BitOr => 7,
            Precedence::BitXor => 8,
            Precedence::BitAnd => 9,
            Precedence::Shift => 10,
            Precedence::Arithmetic => 11,
            Precedence::Term => 12,
            Precedence::Cast => 13,
        }
    }
}

} // verus!
