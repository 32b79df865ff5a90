use vstd::prelude::*;

use crate::ast::{
    Arm, AttrStyle, Attribute, BinOp, Expr, FieldPat, FieldValue, FnArg, GenericMethodArgument,
    Ident, Item, Label, Lifetime, Local, Macro, Member, Name, Pat, PatTuple, Path, RangeLimits,
    ReturnType, Stmt, Type, UnOp,
};
use crate::token::{Delim, Keyword, Lit, Punct, Tok};

verus! {

// ---------------------------------------------------------------------
// What each piece of syntax prints as, stated as token sequences.
// ---------------------------------------------------------------------

pub open spec fn p1(p: Punct) -> Seq<Tok> {
    seq![Tok::Punct(p)]
}

pub open spec fn k1(k: Keyword) -> Seq<Tok> {
    seq![Tok::Kw(k)]
}

/// `s` when `b` holds, nothing otherwise.
pub open spec fn maybe(b: bool, s: Seq<Tok>) -> Seq<Tok> {
    if b {
        s
    } else {
        Seq::empty()
    }
}

/// `inner` between the opening and closing tokens of `d`.
pub open spec fn delimited(d: Delim, inner: Seq<Tok>) -> Seq<Tok> {
    seq![Tok::Open(d)] + inner + seq![Tok::Close(d)]
}

pub open spec fn tokens_attr(a: Attribute) -> Seq<Tok> {
    p1(Punct::Pound) + maybe(a.style == AttrStyle::Inner, p1(Punct::Bang)) + delimited(
        Delim::Bracket,
        a.tts@,
    )
}

/// The attributes of `s` whose style is `st`, printed in order.
pub open spec fn tokens_attrs_of_style(s: Seq<Attribute>, st: AttrStyle) -> Seq<Tok>
    decreases s.len(),
{
    if s.len() == 0 {
        Seq::empty()
    } else {
        tokens_attrs_of_style(s.drop_last(), st) + maybe(s.last().style == st, tokens_attr(s.last()))
    }
}

/// All attributes of `s`, printed in order.
pub open spec fn tokens_attrs(s: Seq<Attribute>) -> Seq<Tok>
    decreases s.len(),
{
    if s.len() == 0 {
        Seq::empty()
    } else {
        tokens_attrs(s.drop_last()) + tokens_attr(s.last())
    }
}

pub open spec fn tokens_outer(s: Seq<Attribute>) -> Seq<Tok> {
    tokens_attrs_of_style(s, AttrStyle::Outer)
}

pub open spec fn tokens_inner(s: Seq<Attribute>) -> Seq<Tok> {
    tokens_attrs_of_style(s, AttrStyle::Inner)
}

pub open spec fn tokens_ident(i: Ident) -> Seq<Tok> {
    seq![Tok::Ident(i.sym)]
}

pub open spec fn tokens_lifetime(l: Lifetime) -> Seq<Tok> {
    seq![Tok::Lifetime(l.sym)]
}

pub open spec fn tokens_name(n: Name) -> Seq<Tok> {
    match n {
        Name::Ident(i) => tokens_ident(i),
        Name::SelfValue => k1(Keyword::SelfValue),
        Name::SelfType => k1(Keyword::SelfType),
        Name::Super => k1(Keyword::Super),
        Name::Crate => k1(Keyword::Crate),
    }
}

pub open spec fn tokens_segments(s: Seq<Name>) -> Seq<Tok>
    decreases s.len(),
{
    if s.len() == 0 {
        Seq::empty()
    } else if s.len() == 1 {
        tokens_name(s[0])
    } else {
        tokens_segments(s.drop_last()) + p1(Punct::Colon2) + tokens_name(s.last())
    }
}

pub open spec fn tokens_path(p: Path) -> Seq<Tok> {
    maybe(p.leading_colon, p1(Punct::Colon2)) + tokens_segments(p.segments@)
}

pub open spec fn tokens_label(l: Option<crate::ast::Label>) -> Seq<Tok> {
    match l {
        Some(l) => tokens_lifetime(l.name) + p1(Punct::Colon),
        None => Seq::empty(),
    }
}

pub open spec fn tokens_opt_lifetime(l: Option<Lifetime>) -> Seq<Tok> {
    match l {
        Some(l) => tokens_lifetime(l),
        None => Seq::empty(),
    }
}

pub open spec fn tokens_macro(m: Macro) -> Seq<Tok> {
    tokens_path(m.path) + p1(Punct::Bang) + delimited(m.delimiter, m.tts@)
}

pub open spec fn tokens_binop(op: BinOp) -> Seq<Tok> {
    p1(
        match op {
            BinOp::Add => Punct::Add,
            BinOp::Sub => Punct::Sub,
            BinOp::Mul => Punct::Star,
            BinOp::Div => Punct::Div,
            BinOp::Rem => Punct::Rem,
            BinOp::And => Punct::AndAnd,
            BinOp::Or => Punct::OrOr,
            BinOp::BitXor => Punct::Caret,
            BinOp::BitAnd => Punct::And,
            BinOp::BitOr => Punct::Or,
            BinOp::Shl => Punct::Shl,
            BinOp::Shr => Punct::Shr,
            BinOp::Eq => Punct::EqEq,
            BinOp::Lt => Punct::Lt,
            BinOp::Le => Punct::Le,
            BinOp::Ne => Punct::Ne,
            BinOp::Ge => Punct::Ge,
            BinOp::Gt => Punct::Gt,
            BinOp::AddEq => Punct::AddEq,
            BinOp::SubEq => Punct::SubEq,
            BinOp::MulEq => Punct::MulEq,
            BinOp::DivEq => Punct::DivEq,
            BinOp::RemEq => Punct::RemEq,
            BinOp::BitXorEq => Punct::CaretEq,
            BinOp::BitAndEq => Punct::AndEq,
            BinOp::BitOrEq => Punct::OrEq,
            BinOp::ShlEq => Punct::ShlEq,
            BinOp::ShrEq => Punct::ShrEq,
        },
    )
}

pub open spec fn tokens_unop(op: UnOp) -> Seq<Tok> {
    match op {
        UnOp::Deref => p1(Punct::Star),
        UnOp::Not => p1(Punct::Bang),
        UnOp::Neg => p1(Punct::Sub),
    }
}

pub open spec fn tokens_member(m: Member) -> Seq<Tok> {
    match m {
        Member::Named(i) => tokens_ident(i),
        Member::Unnamed(i) => seq![Tok::Lit(Lit::Int(i.index as u64))],
    }
}

pub open spec fn tokens_type(t: Type) -> Seq<Tok>
    decreases t,
{
    match t {
        Type::Path(p) => tokens_path(p),
        Type::Infer => k1(Keyword::Underscore),
        Type::Never => p1(Punct::Bang),
        Type::Reference(r) => p1(Punct::And) + tokens_opt_lifetime(r.lifetime) + maybe(
            r.mutability,
            k1(Keyword::Mut),
        ) + tokens_type(*r.elem),
        Type::Tuple(elems, trailing) => delimited(
            Delim::Paren,
            tokens_types(elems@) + maybe(trailing && elems@.len() > 0, p1(Punct::Comma)),
        ),
        Type::Slice(elem) => delimited(Delim::Bracket, tokens_type(*elem)),
        Type::Paren(elem) => delimited(Delim::Paren, tokens_type(*elem)),
    }
}

/// Types separated by commas.
pub open spec fn tokens_types(s: Seq<Type>) -> Seq<Tok>
    decreases s,
{
    if s.len() == 0 {
        Seq::empty()
    } else if s.len() == 1 {
        tokens_type(s[0])
    } else {
        tokens_types(s.subrange(0, s.len() - 1)) + p1(Punct::Comma) + tokens_type(
            s[s.len() - 1],
        )
    }
}

pub open spec fn tokens_range_limits(l: RangeLimits) -> Seq<Tok> {
    match l {
        RangeLimits::HalfOpen => p1(Punct::Dot2),
        RangeLimits::Closed => p1(Punct::DotDotEq),
    }
}

/// Whether a match arm with this body needs a comma after it.
pub open spec fn requires_comma(e: Expr) -> bool {
    match e {
        Expr::Unsafe(_) | Expr::Block(_) | Expr::If(_) | Expr::IfLet(_) | Expr::Match(_)
        | Expr::While(_) | Expr::WhileLet(_) | Expr::Loop(_) | Expr::ForLoop(_)
        | Expr::Async(_) | Expr::TryBlock(_) => false,
        _ => true,
    }
}

/// The inputs of a closure between bars; without inputs the bars are the
/// single token `||`.
pub open spec fn tokens_closure_inputs(args: Seq<Seq<Tok>>, trailing: bool) -> Seq<Tok> {
    if args.len() == 0 {
        p1(Punct::OrOr)
    } else {
        p1(Punct::Or) + comma_list(args, trailing) + p1(Punct::Or)
    }
}

pub open spec fn tokens_return_type(r: ReturnType) -> Seq<Tok> {
    match r {
        ReturnType::Default => Seq::empty(),
        ReturnType::Type(t) => p1(Punct::RArrow) + tokens_type(*t),
    }
}

/// Comma-separated elements, with a comma after the last one when
/// `trailing` holds.
pub open spec fn comma_list(elems: Seq<Seq<Tok>>, trailing: bool) -> Seq<Tok> {
    interleave(elems, Punct::Comma) + maybe(trailing && elems.len() > 0, p1(Punct::Comma))
}

/// The elements of `s`, with the punctuation `p` between each two of them.
pub open spec fn interleave(s: Seq<Seq<Tok>>, p: Punct) -> Seq<Tok>
    decreases s.len(),
{
    if s.len() == 0 {
        Seq::empty()
    } else if s.len() == 1 {
        s[0]
    } else {
        interleave(s.drop_last(), p) + p1(p) + s.last()
    }
}

pub open spec fn tokens_expr(e: Expr) -> Seq<Tok>
    decreases e, 1int,
{
    if e is Verbatim {
        tokens_expr_body(e)
    } else {
        tokens_outer(e.attrs()) + tokens_expr_body(e)
    }
}

/// An expression prints as its outer attributes followed by what this
/// function gives.
pub open spec fn tokens_expr_body(e: Expr) -> Seq<Tok>
    decreases e, 0int,
{
    match e {
        Expr::Box(x) => k1(Keyword::Box) + tokens_expr(*x.expr),
        Expr::InPlace(x) => tokens_expr(*x.place) + p1(Punct::LArrow)
            + tokens_expr(*x.value),
        Expr::Array(x) => delimited(
            Delim::Bracket,
            tokens_inner(x.attrs@) + comma_list(tokens_expr_seq(x.elems@), x.trailing),
        ),
        Expr::Call(x) => tokens_expr(*x.func) + delimited(
            Delim::Paren,
            comma_list(tokens_expr_seq(x.args@), x.trailing),
        ),
        Expr::MethodCall(x) => tokens_expr(*x.receiver) + p1(Punct::Dot)
            + tokens_ident(x.method) + match x.turbofish {
            Some(t) => p1(Punct::Colon2) + p1(Punct::Lt) + comma_list(
                tokens_generic_seq(t.args@),
                t.trailing,
            ) + p1(Punct::Gt),
            None => Seq::empty(),
        } + delimited(Delim::Paren, comma_list(tokens_expr_seq(x.args@), x.trailing)),
        Expr::Tuple(x) => delimited(
            Delim::Paren,
            tokens_inner(x.attrs@) + comma_list(tokens_expr_seq(x.elems@), x.trailing) + maybe(
                x.elems@.len() == 1 && !x.trailing,
                p1(Punct::Comma),
            ),
        ),
        Expr::Binary(x) => tokens_expr(*x.left) + tokens_binop(x.op)
            + tokens_expr(*x.right),
        Expr::Unary(x) => tokens_unop(x.op) + tokens_expr(*x.expr),
        Expr::Lit(x) => seq![Tok::Lit(x.lit)],
        Expr::Cast(x) => tokens_expr(*x.expr) + k1(Keyword::As)
            + tokens_type(*x.ty),
        Expr::Type(x) => tokens_expr(*x.expr) + p1(Punct::Colon)
            + tokens_type(*x.ty),
        Expr::If(x) => k1(Keyword::If) + tokens_cond(*x.cond)
            + delimited(Delim::Brace, tokens_stmts(x.then_branch.stmts@)) + tokens_else(
            x.else_branch,
        ),
        Expr::IfLet(x) => k1(Keyword::If) + k1(Keyword::Let)
            + tokens_pats_or(x.pats@) + p1(Punct::Eq) + tokens_cond(*x.expr) + delimited(
            Delim::Brace,
            tokens_stmts(x.then_branch.stmts@),
        ) + tokens_else(x.else_branch),
        Expr::While(x) => tokens_label(x.label) + k1(Keyword::While)
            + tokens_cond(*x.cond) + delimited(
            Delim::Brace,
            tokens_inner(x.attrs@) + tokens_stmts(x.body.stmts@),
        ),
        Expr::WhileLet(x) => tokens_label(x.label) + k1(Keyword::While)
            + k1(Keyword::Let) + tokens_pats_or(x.pats@) + p1(Punct::Eq) + tokens_cond(*x.expr)
            + delimited(Delim::Brace, tokens_inner(x.attrs@) + tokens_stmts(x.body.stmts@)),
        Expr::ForLoop(x) => tokens_label(x.label) + k1(Keyword::For)
            + tokens_pat(*x.pat) + k1(Keyword::In) + tokens_cond(*x.expr) + delimited(
            Delim::Brace,
            tokens_inner(x.attrs@) + tokens_stmts(x.body.stmts@),
        ),
        Expr::Loop(x) => tokens_label(x.label) + k1(Keyword::Loop)
            + delimited(Delim::Brace, tokens_inner(x.attrs@) + tokens_stmts(x.body.stmts@)),
        Expr::Match(x) => k1(Keyword::Match) + tokens_cond(*x.expr)
            + delimited(Delim::Brace, tokens_inner(x.attrs@) + tokens_arms(x.arms@)),
        Expr::Closure(x) => maybe(x.asyncness, k1(Keyword::Async))
            + maybe(x.movability, k1(Keyword::Static)) + maybe(x.capture, k1(Keyword::Move))
            + tokens_closure_inputs(tokens_closure_arg_seq(x.inputs@), x.trailing)
            + tokens_return_type(x.output) + tokens_expr(*x.body),
        Expr::Unsafe(x) => k1(Keyword::Unsafe) + delimited(
            Delim::Brace,
            tokens_inner(x.attrs@) + tokens_stmts(x.block.stmts@),
        ),
        Expr::Block(x) => tokens_label(x.label) + delimited(
            Delim::Brace,
            tokens_inner(x.attrs@) + tokens_stmts(x.block.stmts@),
        ),
        Expr::Assign(x) => tokens_expr(*x.left) + p1(Punct::Eq)
            + tokens_expr(*x.right),
        Expr::AssignOp(x) => tokens_expr(*x.left) + tokens_binop(x.op)
            + tokens_expr(*x.right),
        Expr::Field(x) => tokens_expr(*x.base) + p1(Punct::Dot)
            + tokens_member(x.member),
        Expr::Index(x) => tokens_expr(*x.expr) + delimited(
            Delim::Bracket,
            tokens_expr(*x.index),
        ),
        Expr::Range(x) => (match x.from {
            Some(f) => tokens_expr(*f),
            None => Seq::empty(),
        }) + tokens_range_limits(x.limits) + match x.to {
            Some(t) => tokens_expr(*t),
            None => Seq::empty(),
        },
        Expr::Path(x) => tokens_path(x.path),
        Expr::Reference(x) => p1(Punct::And) + maybe(
            x.mutability,
            k1(Keyword::Mut),
        ) + tokens_expr(*x.expr),
        Expr::Break(x) => k1(Keyword::Break) + tokens_opt_lifetime(
            x.label,
        ) + match x.expr {
            Some(v) => tokens_expr(*v),
            None => Seq::empty(),
        },
        Expr::Continue(x) => k1(Keyword::Continue)
            + tokens_opt_lifetime(x.label),
        Expr::Return(x) => k1(Keyword::Return) + match x.expr {
            Some(v) => tokens_expr(*v),
            None => Seq::empty(),
        },
        Expr::Macro(x) => tokens_macro(x.mac),
        Expr::Struct(x) => tokens_path(x.path) + delimited(
            Delim::Brace,
            tokens_inner(x.attrs@) + comma_list(tokens_field_value_seq(x.fields@), x.trailing)
                + match x.rest {
                Some(r) => p1(Punct::Dot2) + tokens_expr(*r),
                None => Seq::empty(),
            },
        ),
        Expr::Repeat(x) => delimited(
            Delim::Bracket,
            tokens_inner(x.attrs@) + tokens_expr(*x.expr) + p1(Punct::Semi) + tokens_expr(
                *x.len,
            ),
        ),
        Expr::Paren(x) => delimited(
            Delim::Paren,
            tokens_inner(x.attrs@) + tokens_expr(*x.expr),
        ),
        Expr::Group(x) => delimited(Delim::NoDelim, tokens_expr(*x.expr)),
        Expr::Try(x) => tokens_expr(*x.expr) + p1(Punct::Question),
        Expr::Async(x) => k1(Keyword::Async) + maybe(
            x.capture,
            k1(Keyword::Move),
        ) + delimited(Delim::Brace, tokens_stmts(x.block.stmts@)),
        Expr::TryBlock(x) => k1(Keyword::Try) + delimited(
            Delim::Brace,
            tokens_stmts(x.block.stmts@),
        ),
        Expr::Yield(x) => k1(Keyword::Yield) + match x.expr {
            Some(v) => tokens_expr(*v),
            None => Seq::empty(),
        },
        Expr::Verbatim(x) => x.tts@,
    }
}

/// An expression in the condition position of `if`, `while`, `for` or
/// `match`: a bare struct literal is wrapped in parentheses.
pub open spec fn tokens_cond(e: Expr) -> Seq<Tok>
    decreases e, 2int,
{
    if e is Struct {
        delimited(Delim::Paren, tokens_expr(e))
    } else {
        tokens_expr(e)
    }
}

/// The `else` part of an `if`: anything but `if`, `if let` or a block is
/// wrapped in braces.
pub open spec fn tokens_else(e: Option<Box<Expr>>) -> Seq<Tok>
    decreases e, 2int,
{
    match e {
        None => Seq::empty(),
        Some(x) => k1(Keyword::Else) + if (*x) is If || (*x) is IfLet || (*x) is Block {
            tokens_expr(*x)
        } else {
            delimited(Delim::Brace, tokens_expr(*x))
        },
    }
}

pub open spec fn tokens_expr_seq(s: Seq<Expr>) -> Seq<Seq<Tok>>
    decreases s, 0int,
{
    if s.len() == 0 {
        Seq::empty()
    } else {
        tokens_expr_seq(s.subrange(0, s.len() - 1)).push(tokens_expr(s[s.len() - 1]))
    }
}

pub open spec fn tokens_generic_seq(s: Seq<GenericMethodArgument>) -> Seq<Seq<Tok>>
    decreases s, 0int,
{
    if s.len() == 0 {
        Seq::empty()
    } else {
        tokens_generic_seq(s.subrange(0, s.len() - 1)).push(match s[s.len() - 1] {
            GenericMethodArgument::Type(t) => tokens_type(t),
            GenericMethodArgument::Const(c) => tokens_expr(c),
        })
    }
}

pub open spec fn tokens_field_value_seq(s: Seq<FieldValue>) -> Seq<Seq<Tok>>
    decreases s, 0int,
{
    if s.len() == 0 {
        Seq::empty()
    } else {
        tokens_field_value_seq(s.subrange(0, s.len() - 1)).push(tokens_outer(s[s.len() - 1].attrs@) + tokens_member(s[s.len() - 1].member) + maybe(
            s[s.len() - 1].colon,
            p1(Punct::Colon) + tokens_expr(s[s.len() - 1].expr),
        ))
    }
}

pub open spec fn tokens_closure_arg_seq(s: Seq<FnArg>) -> Seq<Seq<Tok>>
    decreases s, 0int,
{
    if s.len() == 0 {
        Seq::empty()
    } else {
        tokens_closure_arg_seq(s.subrange(0, s.len() - 1)).push(match s[s.len() - 1] {
            FnArg::Captured(p, Type::Infer) => tokens_pat(p),
            FnArg::Captured(p, t) => tokens_pat(p) + p1(Punct::Colon) + tokens_type(t),
            FnArg::Inferred(p) => tokens_pat(p),
        })
    }
}

pub open spec fn tokens_stmts(s: Seq<Stmt>) -> Seq<Tok>
    decreases s, 0int,
{
    if s.len() == 0 {
        Seq::empty()
    } else {
        tokens_stmts(s.subrange(0, s.len() - 1)) + tokens_stmt(s[s.len() - 1])
    }
}

pub open spec fn tokens_stmt(s: Stmt) -> Seq<Tok>
    decreases s, 0int,
{
    match s {
        Stmt::Local(l) => tokens_outer(l.attrs@) + k1(Keyword::Let) + tokens_pats_or(l.pats@)
            + match l.ty {
            Some(t) => p1(Punct::Colon) + tokens_type(*t),
            None => Seq::empty(),
        } + match l.init {
            Some(v) => p1(Punct::Eq) + tokens_expr(*v),
            None => Seq::empty(),
        } + p1(Punct::Semi),
        Stmt::Item(Item::Macro(m)) => tokens_outer(m.attrs@) + tokens_path(m.mac.path) + p1(
            Punct::Bang,
        ) + match m.ident {
            Some(i) => tokens_ident(i),
            None => Seq::empty(),
        } + delimited(m.mac.delimiter, m.mac.tts@) + maybe(m.semi, p1(Punct::Semi)),
        Stmt::Expr(e) => tokens_expr(e),
        Stmt::Semi(e) => tokens_expr(e) + p1(Punct::Semi),
    }
}

/// One arm, and the comma that printing adds after an arm that is not the
/// last when its body needs one and it has none.
pub open spec fn tokens_arm(a: Arm) -> Seq<Tok>
    decreases a, 0int,
{
    tokens_attrs(a.attrs@) + maybe(a.leading_vert, p1(Punct::Or)) + tokens_pats_or(a.pats@)
        + match a.guard {
        Some(g) => k1(Keyword::If) + tokens_expr(*g),
        None => Seq::empty(),
    } + p1(Punct::FatArrow) + tokens_expr(*a.body) + maybe(a.comma, p1(Punct::Comma))
}

pub open spec fn tokens_arms_sep(s: Seq<Arm>) -> Seq<Tok>
    decreases s, 0int,
{
    if s.len() == 0 {
        Seq::empty()
    } else {
        tokens_arms_sep(s.subrange(0, s.len() - 1)) + tokens_arm(s[s.len() - 1]) + maybe(
            requires_comma(*s[s.len() - 1].body) && !s[s.len() - 1].comma,
            p1(Punct::Comma),
        )
    }
}

pub open spec fn tokens_arms(s: Seq<Arm>) -> Seq<Tok>
    decreases s, 0int,
{
    if s.len() == 0 {
        Seq::empty()
    } else {
        tokens_arms_sep(s.subrange(0, s.len() - 1)) + tokens_arm(s[s.len() - 1])
    }
}

/// Patterns separated by `|`.
pub open spec fn tokens_pats_or(s: Seq<Pat>) -> Seq<Tok>
    decreases s, 1int,
{
    interleave(tokens_pat_seq(s), Punct::Or)
}

pub open spec fn tokens_pat_seq(s: Seq<Pat>) -> Seq<Seq<Tok>>
    decreases s, 0int,
{
    if s.len() == 0 {
        Seq::empty()
    } else {
        tokens_pat_seq(s.subrange(0, s.len() - 1)).push(tokens_pat(s[s.len() - 1]))
    }
}

pub open spec fn tokens_pat_tuple(t: PatTuple) -> Seq<Tok>
    decreases t, 0int,
{
    delimited(
        Delim::Paren,
        comma_list(tokens_pat_seq(t.front@), t.front_trailing) + maybe(
            t.dot2,
            maybe(t.front@.len() > 0 && !t.front_trailing, p1(Punct::Comma)) + p1(Punct::Dot2)
                + maybe(t.comma, p1(Punct::Comma)) + maybe(
                !t.comma && t.back@.len() > 0,
                p1(Punct::Comma),
            ),
        ) + comma_list(tokens_pat_seq(t.back@), t.back_trailing),
    )
}

pub open spec fn tokens_field_pat_seq(s: Seq<FieldPat>) -> Seq<Seq<Tok>>
    decreases s, 0int,
{
    if s.len() == 0 {
        Seq::empty()
    } else {
        tokens_field_pat_seq(s.subrange(0, s.len() - 1)).push(maybe(s[s.len() - 1].colon, tokens_member(s[s.len() - 1].member) + p1(Punct::Colon))
            + tokens_pat(*s[s.len() - 1].pat))
    }
}

pub open spec fn tokens_pat(p: Pat) -> Seq<Tok>
    decreases p, 0int,
{
    match p {
        Pat::Wild => k1(Keyword::Underscore),
        Pat::Ident(x) => maybe(x.by_ref, k1(Keyword::Ref)) + maybe(x.mutability, k1(Keyword::Mut))
            + tokens_name(x.ident) + match x.subpat {
            Some(s) => p1(Punct::At) + tokens_pat(*s),
            None => Seq::empty(),
        },
        Pat::Struct(x) => tokens_path(x.path) + delimited(
            Delim::Brace,
            comma_list(tokens_field_pat_seq(x.fields@), x.trailing) + maybe(
                x.fields@.len() > 0 && !x.trailing && x.dot2,
                p1(Punct::Comma),
            ) + maybe(x.dot2, p1(Punct::Dot2)),
        ),
        Pat::TupleStruct(x) => tokens_path(x.path) + tokens_pat_tuple(x.pat),
        Pat::Path(x) => tokens_path(x.path),
        Pat::Tuple(x) => tokens_pat_tuple(x),
        Pat::Box(x) => k1(Keyword::Box) + tokens_pat(*x.pat),
        Pat::Ref(x) => p1(Punct::And) + maybe(x.mutability, k1(Keyword::Mut)) + tokens_pat(*x.pat),
        Pat::Lit(x) => tokens_expr(*x.expr),
        Pat::Range(x) => tokens_expr(*x.lo) + match x.limits {
            RangeLimits::HalfOpen => p1(Punct::Dot2),
            RangeLimits::Closed => p1(Punct::Dot3),
        } + tokens_expr(*x.hi),
        Pat::Slice(x) => delimited(
            Delim::Bracket,
            comma_list(tokens_pat_seq(x.front@), x.front_trailing) + maybe(
                x.front@.len() > 0 && !x.front_trailing && (x.middle.is_some() || x.dot2),
                p1(Punct::Comma),
            ) + match x.middle {
                Some(m) => tokens_pat(*m) + p1(Punct::Dot2),
                None => maybe(x.dot2, p1(Punct::Dot2)),
            } + if x.back@.len() > 0 {
                p1(Punct::Comma) + comma_list(tokens_pat_seq(x.back@), x.back_trailing)
            } else {
                maybe(x.comma, p1(Punct::Comma))
            },
        ),
        Pat::Macro(m) => tokens_macro(m),
        Pat::Verbatim(tts) => tts@,
    }
}

} // verus!

verus! {

// ---------------------------------------------------------------------
// Facts about the printing functions that the parser's proofs use.
// ---------------------------------------------------------------------

pub proof fn lemma_interleave_push(s: Seq<Seq<Tok>>, x: Seq<Tok>, p: Punct)
    ensures
        interleave(s.push(x), p) == if s.len() == 0 {
            x
        } else {
            interleave(s, p) + p1(p) + x
        },
{
    assert(s.push(x).drop_last() =~= s);
}

pub proof fn lemma_expr_seq_len(s: Seq<Expr>)
    ensures
        tokens_expr_seq(s).len() == s.len(),
    decreases s.len(),
{
    if s.len() > 0 {
        lemma_expr_seq_len(s.subrange(0, s.len() - 1));
    }
}

pub proof fn lemma_expr_seq_push(s: Seq<Expr>, e: Expr)
    ensures
        tokens_expr_seq(s.push(e)) == tokens_expr_seq(s).push(tokens_expr(e)),
{
    assert(s.push(e).subrange(0, s.len() as int) =~= s);
}

pub proof fn lemma_pat_seq_len(s: Seq<Pat>)
    ensures
        tokens_pat_seq(s).len() == s.len(),
    decreases s.len(),
{
    if s.len() > 0 {
        lemma_pat_seq_len(s.subrange(0, s.len() - 1));
    }
}

pub proof fn lemma_pat_seq_push(s: Seq<Pat>, p: Pat)
    ensures
        tokens_pat_seq(s.push(p)) == tokens_pat_seq(s).push(tokens_pat(p)),
{
    assert(s.push(p).subrange(0, s.len() as int) =~= s);
}

pub proof fn lemma_types_push(s: Seq<Type>, t: Type)
    ensures
        tokens_types(s.push(t)) == if s.len() == 0 {
            tokens_type(t)
        } else {
            tokens_types(s) + p1(Punct::Comma) + tokens_type(t)
        },
{
    assert(s.push(t).subrange(0, s.len() as int) =~= s);
}

pub proof fn lemma_attrs_of_style_push(s: Seq<Attribute>, a: Attribute, st: AttrStyle)
    ensures
        tokens_attrs_of_style(s.push(a), st) == tokens_attrs_of_style(s, st) + maybe(
            a.style == st,
            tokens_attr(a),
        ),
{
    assert(s.push(a).drop_last() =~= s);
}

pub proof fn lemma_attrs_of_style_cat(a: Seq<Attribute>, b: Seq<Attribute>, st: AttrStyle)
    ensures
        tokens_attrs_of_style(a + b, st) == tokens_attrs_of_style(a, st)
            + tokens_attrs_of_style(b, st),
    decreases b.len(),
{
    if b.len() == 0 {
        assert(a + b =~= a);
        assert(tokens_attrs_of_style(a, st) + Seq::empty() =~= tokens_attrs_of_style(a, st));
    } else {
        lemma_attrs_of_style_cat(a, b.drop_last(), st);
        assert((a + b).drop_last() =~= a + b.drop_last());
        assert((a + b).last() == b.last());
        assert(tokens_attrs_of_style(a + b, st) =~= tokens_attrs_of_style(a, st)
            + tokens_attrs_of_style(b, st));
    }
}

/// Every attribute of `s` has style `st`.
pub open spec fn all_of_style(s: Seq<Attribute>, st: AttrStyle) -> bool {
    forall|k: int| 0 <= k < s.len() ==> #[trigger] s[k].style == st
}

pub proof fn lemma_attrs_other_style(s: Seq<Attribute>, st: AttrStyle, other: AttrStyle)
    requires
        all_of_style(s, st),
        st != other,
    ensures
        tokens_attrs_of_style(s, other) == Seq::<Tok>::empty(),
    decreases s.len(),
{
    if s.len() > 0 {
        lemma_attrs_other_style(s.drop_last(), st, other);
        assert(s.last().style == st);
    }
}

pub proof fn lemma_generic_seq_len(s: Seq<GenericMethodArgument>)
    ensures
        tokens_generic_seq(s).len() == s.len(),
    decreases s.len(),
{
    if s.len() > 0 {
        lemma_generic_seq_len(s.subrange(0, s.len() - 1));
    }
}

pub proof fn lemma_generic_seq_push(s: Seq<GenericMethodArgument>, a: GenericMethodArgument)
    ensures
        tokens_generic_seq(s.push(a)) == tokens_generic_seq(s).push(
            match a {
                GenericMethodArgument::Type(t) => tokens_type(t),
                GenericMethodArgument::Const(c) => tokens_expr(c),
            },
        ),
{
    assert(s.push(a).subrange(0, s.len() as int) =~= s);
}

pub proof fn lemma_field_value_seq_len(s: Seq<FieldValue>)
    ensures
        tokens_field_value_seq(s).len() == s.len(),
    decreases s.len(),
{
    if s.len() > 0 {
        lemma_field_value_seq_len(s.subrange(0, s.len() - 1));
    }
}

pub proof fn lemma_field_value_seq_push(s: Seq<FieldValue>, f: FieldValue)
    ensures
        tokens_field_value_seq(s.push(f)) == tokens_field_value_seq(s).push(
            tokens_outer(f.attrs@) + tokens_member(f.member) + maybe(
                f.colon,
                p1(Punct::Colon) + tokens_expr(f.expr),
            ),
        ),
{
    assert(s.push(f).subrange(0, s.len() as int) =~= s);
}

/// A comma-separated list of one element without a trailing comma prints
/// as that element.
pub proof fn lemma_comma_list_one(x: Seq<Tok>)
    ensures
        comma_list(seq![x], false) == x,
{
    assert(x + Seq::<Tok>::empty() =~= x);
}

pub proof fn lemma_field_pat_seq_len(s: Seq<FieldPat>)
    ensures
        tokens_field_pat_seq(s).len() == s.len(),
    decreases s.len(),
{
    if s.len() > 0 {
        lemma_field_pat_seq_len(s.subrange(0, s.len() - 1));
    }
}

pub proof fn lemma_field_pat_seq_push(s: Seq<FieldPat>, f: FieldPat)
    ensures
        tokens_field_pat_seq(s.push(f)) == tokens_field_pat_seq(s).push(
            maybe(f.colon, tokens_member(f.member) + p1(Punct::Colon)) + tokens_pat(*f.pat),
        ),
{
    assert(s.push(f).subrange(0, s.len() as int) =~= s);
}

pub proof fn lemma_stmts_push(s: Seq<Stmt>, x: Stmt)
    ensures
        tokens_stmts(s.push(x)) == tokens_stmts(s) + tokens_stmt(x),
{
    assert(s.push(x).subrange(0, s.len() as int) =~= s);
}

pub proof fn lemma_closure_arg_seq_len(s: Seq<FnArg>)
    ensures
        tokens_closure_arg_seq(s).len() == s.len(),
    decreases s.len(),
{
    if s.len() > 0 {
        lemma_closure_arg_seq_len(s.subrange(0, s.len() - 1));
    }
}

pub proof fn lemma_closure_arg_seq_push(s: Seq<FnArg>, a: FnArg)
    ensures
        tokens_closure_arg_seq(s.push(a)) == tokens_closure_arg_seq(s).push(
            match a {
                FnArg::Captured(p, Type::Infer) => tokens_pat(p),
                FnArg::Captured(p, t) => tokens_pat(p) + p1(Punct::Colon) + tokens_type(t),
                FnArg::Inferred(p) => tokens_pat(p),
            },
        ),
{
    assert(s.push(a).subrange(0, s.len() as int) =~= s);
}

/// Adding an arm after `s`: the arms so far print with the separator that
/// the last of them gets when another follows.
pub proof fn lemma_arms_push(s: Seq<Arm>, a: Arm)
    ensures
        tokens_arms(s.push(a)) == tokens_arms_sep(s) + tokens_arm(a),
        s.len() > 0 ==> tokens_arms_sep(s) == tokens_arms(s) + maybe(
            requires_comma(*s[s.len() - 1].body) && !s[s.len() - 1].comma,
            p1(Punct::Comma),
        ),
        s.len() == 0 ==> tokens_arms_sep(s) == Seq::<Tok>::empty() && tokens_arms(s) == Seq::<
            Tok,
        >::empty(),
{
    assert(s.push(a).subrange(0, s.len() as int) =~= s);
}

/// Attributes that are all outer print, all of them, as the outer ones.
pub proof fn lemma_attrs_all_outer(s: Seq<Attribute>)
    requires
        all_of_style(s, AttrStyle::Outer),
    ensures
        tokens_attrs(s) == tokens_outer(s),
    decreases s.len(),
{
    if s.len() > 0 {
        lemma_attrs_all_outer(s.drop_last());
    }
}

} // verus!
