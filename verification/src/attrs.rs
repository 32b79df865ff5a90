use vstd::prelude::*;

use crate::print::{tokens_attrs_of_style, tokens_expr, tokens_expr_body, tokens_inner, tokens_outer};

use crate::ast::{AttrStyle, Attribute, Expr, ExprBox, ExprInPlace, ExprArray, ExprCall, ExprMethodCall, ExprTuple, ExprBinary, ExprUnary, ExprLit, ExprCast, ExprType, ExprIf, ExprIfLet, ExprWhile, ExprWhileLet, ExprForLoop, ExprLoop, ExprMatch, ExprClosure, ExprUnsafe, ExprBlock, ExprAssign, ExprAssignOp, ExprField, ExprIndex, ExprRange, ExprPath, ExprReference, ExprBreak, ExprContinue, ExprReturn, ExprMacro, ExprStruct, ExprRepeat, ExprParen, ExprGroup, ExprTry, ExprAsync, ExprTryBlock, ExprYield};

verus! {

/// Puts `new` in `attrs` and returns what `attrs` held.
fn swap_attrs(attrs: &mut Vec<Attribute>, new: Vec<Attribute>) -> (r: Vec<Attribute>)
    ensures
        r == *old(attrs),
        *final(attrs) == new,
{
    let mut r = new;
    std::mem::swap(attrs, &mut r);
    r
}

impl Expr {
    /// The attributes of an expression; an `ExprVerbatim` has none.
    pub open spec fn attrs(self) -> Seq<Attribute> {
        match self {
            Expr::Box(x) => x.attrs@,
            Expr::InPlace(x) => x.attrs@,
            Expr::Array(x) => x.attrs@,
            Expr::Call(x) => x.attrs@,
            Expr::MethodCall(x) => x.attrs@,
            Expr::Tuple(x) => x.attrs@,
            Expr::Binary(x) => x.attrs@,
            Expr::Unary(x) => x.attrs@,
            Expr::Lit(x) => x.attrs@,
            Expr::Cast(x) => x.attrs@,
            Expr::Type(x) => x.attrs@,
            Expr::If(x) => x.attrs@,
            Expr::IfLet(x) => x.attrs@,
            Expr::While(x) => x.attrs@,
            Expr::WhileLet(x) => x.attrs@,
            Expr::ForLoop(x) => x.attrs@,
            Expr::Loop(x) => x.attrs@,
            Expr::Match(x) => x.attrs@,
            Expr::Closure(x) => x.attrs@,
            Expr::Unsafe(x) => x.attrs@,
            Expr::Block(x) => x.attrs@,
            Expr::Assign(x) => x.attrs@,
            Expr::AssignOp(x) => x.attrs@,
            Expr::Field(x) => x.attrs@,
            Expr::Index(x) => x.attrs@,
            Expr::Range(x) => x.attrs@,
            Expr::Path(x) => x.attrs@,
            Expr::Reference(x) => x.attrs@,
            Expr::Break(x) => x.attrs@,
            Expr::Continue(x) => x.attrs@,
            Expr::Return(x) => x.attrs@,
            Expr::Macro(x) => x.attrs@,
            Expr::Struct(x) => x.attrs@,
            Expr::Repeat(x) => x.attrs@,
            Expr::Paren(x) => x.attrs@,
            Expr::Group(x) => x.attrs@,
            Expr::Try(x) => x.attrs@,
            Expr::Async(x) => x.attrs@,
            Expr::TryBlock(x) => x.attrs@,
            Expr::Yield(x) => x.attrs@,
            Expr::Verbatim(_) => Seq::empty(),
        }
    }

    /// The expression with its attributes replaced by `new`; an
    /// `ExprVerbatim`, which has no attributes, stays as it is.
    pub open spec fn with_attrs(self, new: Vec<Attribute>) -> Expr {
        match self {
            Expr::Box(x) => Expr::Box(ExprBox { attrs: new, ..x }),
            Expr::InPlace(x) => Expr::InPlace(ExprInPlace { attrs: new, ..x }),
            Expr::Array(x) => Expr::Array(ExprArray { attrs: new, ..x }),
            Expr::Call(x) => Expr::Call(ExprCall { attrs: new, ..x }),
            Expr::MethodCall(x) => Expr::MethodCall(ExprMethodCall { attrs: new, ..x }),
            Expr::Tuple(x) => Expr::Tuple(ExprTuple { attrs: new, ..x }),
            Expr::Binary(x) => Expr::Binary(ExprBinary { attrs: new, ..x }),
            Expr::Unary(x) => Expr::Unary(ExprUnary { attrs: new, ..x }),
            Expr::Lit(x) => Expr::Lit(ExprLit { attrs: new, ..x }),
            Expr::Cast(x) => Expr::Cast(ExprCast { attrs: new, ..x }),
            Expr::Type(x) => Expr::Type(ExprType { attrs: new, ..x }),
            Expr::If(x) => Expr::If(ExprIf { attrs: new, ..x }),
            Expr::IfLet(x) => Expr::IfLet(ExprIfLet { attrs: new, ..x }),
            Expr::While(x) => Expr::While(ExprWhile { attrs: new, ..x }),
            Expr::WhileLet(x) => Expr::WhileLet(ExprWhileLet { attrs: new, ..x }),
            Expr::ForLoop(x) => Expr::ForLoop(ExprForLoop { attrs: new, ..x }),
            Expr::Loop(x) => Expr::Loop(ExprLoop { attrs: new, ..x }),
            Expr::Match(x) => Expr::Match(ExprMatch { attrs: new, ..x }),
            Expr::Closure(x) => Expr::Closure(ExprClosure { attrs: new, ..x }),
            Expr::Unsafe(x) => Expr::Unsafe(ExprUnsafe { attrs: new, ..x }),
            Expr::Block(x) => Expr::Block(ExprBlock { attrs: new, ..x }),
            Expr::Assign(x) => Expr::Assign(ExprAssign { attrs: new, ..x }),
            Expr::AssignOp(x) => Expr::AssignOp(ExprAssignOp { attrs: new, ..x }),
            Expr::Field(x) => Expr::Field(ExprField { attrs: new, ..x }),
            Expr::Index(x) => Expr::Index(ExprIndex { attrs: new, ..x }),
            Expr::Range(x) => Expr::Range(ExprRange { attrs: new, ..x }),
            Expr::Path(x) => Expr::Path(ExprPath { attrs: new, ..x }),
            Expr::Reference(x) => Expr::Reference(ExprReference { attrs: new, ..x }),
            Expr::Break(x) => Expr::Break(ExprBreak { attrs: new, ..x }),
            Expr::Continue(x) => Expr::Continue(ExprContinue { attrs: new, ..x }),
            Expr::Return(x) => Expr::Return(ExprReturn { attrs: new, ..x }),
            Expr::Macro(x) => Expr::Macro(ExprMacro { attrs: new, ..x }),
            Expr::Struct(x) => Expr::Struct(ExprStruct { attrs: new, ..x }),
            Expr::Repeat(x) => Expr::Repeat(ExprRepeat { attrs: new, ..x }),
            Expr::Paren(x) => Expr::Paren(ExprParen { attrs: new, ..x }),
            Expr::Group(x) => Expr::Group(ExprGroup { attrs: new, ..x }),
            Expr::Try(x) => Expr::Try(ExprTry { attrs: new, ..x }),
            Expr::Async(x) => Expr::Async(ExprAsync { attrs: new, ..x }),
            Expr::TryBlock(x) => Expr::TryBlock(ExprTryBlock { attrs: new, ..x }),
            Expr::Yield(x) => Expr::Yield(ExprYield { attrs: new, ..x }),
            Expr::Verbatim(x) => Expr::Verbatim(x),
        }
    }

    /// Puts `new` in place of the expression's attributes and returns the
    /// attributes it had. An `ExprVerbatim` has no attributes: it is left as
    /// it is and the result is empty.
    pub fn replace_attrs(&mut self, new: Vec<Attribute>) -> (old_attrs: Vec<Attribute>)
        ensures
            old_attrs@ == old(self).attrs(),
            *final(self) == old(self).with_attrs(new),
    {
        match self {
            Expr::Box(x) => swap_attrs(&mut x.attrs, new),
            Expr::InPlace(x) => swap_attrs(&mut x.attrs, new),
            Expr::Array(x) => swap_attrs(&mut x.attrs, new),
            Expr::Call(x) => swap_attrs(&mut x.attrs, new),
            Expr::MethodCall(x) => swap_attrs(&mut x.attrs, new),
            Expr::Tuple(x) => swap_attrs(&mut x.attrs, new),
            Expr::Binary(x) => swap_attrs(&mut x.attrs, new),
            Expr::Unary(x) => swap_attrs(&mut x.attrs, new),
            Expr::Lit(x) => swap_attrs(&mut x.attrs, new),
            Expr::Cast(x) => swap_attrs(&mut x.attrs, new),
            Expr::Type(x) => swap_attrs(&mut x.attrs, new),
            Expr::If(x) => swap_attrs(&mut x.attrs, new),
            Expr::IfLet(x) => swap_attrs(&mut x.attrs, new),
            Expr::While(x) => swap_attrs(&mut x.attrs, new),
            Expr::WhileLet(x) => swap_attrs(&mut x.attrs, new),
            Expr::ForLoop(x) => swap_attrs(&mut x.attrs, new),
            Expr::Loop(x) => swap_attrs(&mut x.attrs, new),
            Expr::Match(x) => swap_attrs(&mut x.attrs, new),
            Expr::Closure(x) => swap_attrs(&mut x.attrs, new),
            Expr::Unsafe(x) => swap_attrs(&mut x.attrs, new),
            Expr::Block(x) => swap_attrs(&mut x.attrs, new),
            Expr::Assign(x) => swap_attrs(&mut x.attrs, new),
            Expr::AssignOp(x) => swap_attrs(&mut x.attrs, new),
            Expr::Field(x) => swap_attrs(&mut x.attrs, new),
            Expr::Index(x) => swap_attrs(&mut x.attrs, new),
            Expr::Range(x) => swap_attrs(&mut x.attrs, new),
            Expr::Path(x) => swap_attrs(&mut x.attrs, new),
            Expr::Reference(x) => swap_attrs(&mut x.attrs, new),
            Expr::Break(x) => swap_attrs(&mut x.attrs, new),
            Expr::Continue(x) => swap_attrs(&mut x.attrs, new),
            Expr::Return(x) => swap_attrs(&mut x.attrs, new),
            Expr::Macro(x) => swap_attrs(&mut x.attrs, new),
            Expr::Struct(x) => swap_attrs(&mut x.attrs, new),
            Expr::Repeat(x) => swap_attrs(&mut x.attrs, new),
            Expr::Paren(x) => swap_attrs(&mut x.attrs, new),
            Expr::Group(x) => swap_attrs(&mut x.attrs, new),
            Expr::Try(x) => swap_attrs(&mut x.attrs, new),
            Expr::Async(x) => swap_attrs(&mut x.attrs, new),
            Expr::TryBlock(x) => swap_attrs(&mut x.attrs, new),
            Expr::Yield(x) => swap_attrs(&mut x.attrs, new),
            Expr::Verbatim(_) => Vec::new(),
        }
    }
}

/// The attributes of `s` whose style is `st`, in order.
pub open spec fn of_style(s: Seq<Attribute>, st: AttrStyle) -> Seq<Attribute>
    decreases s.len(),
{
    if s.len() == 0 {
        Seq::empty()
    } else if s.last().style == st {
        of_style(s.drop_last(), st).push(s.last())
    } else {
        of_style(s.drop_last(), st)
    }
}

/// Splits `attrs` by style: the outer attributes are returned and the
/// inner ones are left in `attrs`, each in their original order.
pub fn take_outer(attrs: &mut Vec<Attribute>) -> (outer: Vec<Attribute>)
    ensures
        outer@ == of_style(old(attrs)@, AttrStyle::Outer),
        final(attrs)@ == of_style(old(attrs)@, AttrStyle::Inner),
{
    let mut rest = swap_attrs(attrs, Vec::new());
    let ghost all = rest@;
    let mut outer: Vec<Attribute> = Vec::new();
    let mut inner: Vec<Attribute> = Vec::new();
    let ghost mut k: int = 0;
    while rest.len() > 0
        invariant
            0 <= k <= all.len(),
            rest@ == all.subrange(k, all.len() as int),
            outer@ == of_style(all.take(k), AttrStyle::Outer),
            inner@ == of_style(all.take(k), AttrStyle::Inner),
        decreases rest.len(),
    {
        let attr = rest.remove(0);
        proof {
            assert(all.take(k + 1).drop_last() =~= all.take(k));
            assert(all.take(k + 1).last() == all[k]);
            k = k + 1;
        }
        match attr.style {
            AttrStyle::Outer => outer.push(attr),
            AttrStyle::Inner => inner.push(attr),
        }
        assert(rest@ =~= all.subrange(k, all.len() as int));
    }
    assert(all.take(k) =~= all);
    *attrs = inner;
    outer
}

/// An expression prints as its outer attributes followed by the rest; the
/// rest depends on the attributes only through its inner ones.
pub proof fn lemma_split_outer(e: Expr, x: Vec<Attribute>)
    requires
        !(e is Verbatim),
        tokens_outer(x@) == Seq::<crate::token::Tok>::empty(),
        tokens_inner(x@) == tokens_inner(e.attrs()),
    ensures
        tokens_expr(e) == tokens_outer(e.attrs()) + tokens_expr(e.with_attrs(x)),
{
    lemma_body_attrs(e, x);
    assert(Seq::<crate::token::Tok>::empty() + tokens_expr_body(e) =~= tokens_expr_body(e));
}

/// What an expression prints after its outer attributes depends on its
/// attributes only through the inner ones.
pub proof fn lemma_body_attrs(e: Expr, b: Vec<Attribute>)
    requires
        tokens_inner(b@) == tokens_inner(e.attrs()),
    ensures
        tokens_expr_body(e.with_attrs(b)) == tokens_expr_body(e),
{
    match e {
        Expr::Box(_) => lemma_body_attrs_box(e, b),
        Expr::InPlace(_) => lemma_body_attrs_inplace(e, b),
        Expr::Array(_) => lemma_body_attrs_array(e, b),
        Expr::Call(_) => lemma_body_attrs_call(e, b),
        Expr::MethodCall(_) => lemma_body_attrs_methodcall(e, b),
        Expr::Tuple(_) => lemma_body_attrs_tuple(e, b),
        Expr::Binary(_) => lemma_body_attrs_binary(e, b),
        Expr::Unary(_) => lemma_body_attrs_unary(e, b),
        Expr::Lit(_) => lemma_body_attrs_lit(e, b),
        Expr::Cast(_) => lemma_body_attrs_cast(e, b),
        Expr::Type(_) => lemma_body_attrs_type(e, b),
        Expr::If(_) => lemma_body_attrs_if(e, b),
        Expr::IfLet(_) => lemma_body_attrs_iflet(e, b),
        Expr::While(_) => lemma_body_attrs_while(e, b),
        Expr::WhileLet(_) => lemma_body_attrs_whilelet(e, b),
        Expr::ForLoop(_) => lemma_body_attrs_forloop(e, b),
        Expr::Loop(_) => lemma_body_attrs_loop(e, b),
        Expr::Match(_) => lemma_body_attrs_match(e, b),
        Expr::Closure(_) => lemma_body_attrs_closure(e, b),
        Expr::Unsafe(_) => lemma_body_attrs_unsafe(e, b),
        Expr::Block(_) => lemma_body_attrs_block(e, b),
        Expr::Assign(_) => lemma_body_attrs_assign(e, b),
        Expr::AssignOp(_) => lemma_body_attrs_assignop(e, b),
        Expr::Field(_) => lemma_body_attrs_field(e, b),
        Expr::Index(_) => lemma_body_attrs_index(e, b),
        Expr::Range(_) => lemma_body_attrs_range(e, b),
        Expr::Path(_) => lemma_body_attrs_path(e, b),
        Expr::Reference(_) => lemma_body_attrs_reference(e, b),
        Expr::Break(_) => lemma_body_attrs_break(e, b),
        Expr::Continue(_) => lemma_body_attrs_continue(e, b),
        Expr::Return(_) => lemma_body_attrs_return(e, b),
        Expr::Macro(_) => lemma_body_attrs_macro(e, b),
        Expr::Struct(_) => lemma_body_attrs_struct(e, b),
        Expr::Repeat(_) => lemma_body_attrs_repeat(e, b),
        Expr::Paren(_) => lemma_body_attrs_paren(e, b),
        Expr::Group(_) => lemma_body_attrs_group(e, b),
        Expr::Try(_) => lemma_body_attrs_try(e, b),
        Expr::Async(_) => lemma_body_attrs_async(e, b),
        Expr::TryBlock(_) => lemma_body_attrs_tryblock(e, b),
        Expr::Yield(_) => lemma_body_attrs_yield(e, b),
        Expr::Verbatim(_) => {},
    }
}

proof fn lemma_body_attrs_box(e: Expr, b: Vec<Attribute>)
    requires
        e is Box,
        tokens_inner(b@) == tokens_inner(e.attrs()),
    ensures
        tokens_expr_body(e.with_attrs(b)) == tokens_expr_body(e),
{
}

proof fn lemma_body_attrs_inplace(e: Expr, b: Vec<Attribute>)
    requires
        e is InPlace,
        tokens_inner(b@) == tokens_inner(e.attrs()),
    ensures
        tokens_expr_body(e.with_attrs(b)) == tokens_expr_body(e),
{
}

proof fn lemma_body_attrs_array(e: Expr, b: Vec<Attribute>)
    requires
        e is Array,
        tokens_inner(b@) == tokens_inner(e.attrs()),
    ensures
        tokens_expr_body(e.with_attrs(b)) == tokens_expr_body(e),
{
}

proof fn lemma_body_attrs_call(e: Expr, b: Vec<Attribute>)
    requires
        e is Call,
        tokens_inner(b@) == tokens_inner(e.attrs()),
    ensures
        tokens_expr_body(e.with_attrs(b)) == tokens_expr_body(e),
{
}

proof fn lemma_body_attrs_methodcall(e: Expr, b: Vec<Attribute>)
    requires
        e is MethodCall,
        tokens_inner(b@) == tokens_inner(e.attrs()),
    ensures
        tokens_expr_body(e.with_attrs(b)) == tokens_expr_body(e),
{
}

proof fn lemma_body_attrs_tuple(e: Expr, b: Vec<Attribute>)
    requires
        e is Tuple,
        tokens_inner(b@) == tokens_inner(e.attrs()),
    ensures
        tokens_expr_body(e.with_attrs(b)) == tokens_expr_body(e),
{
}

proof fn lemma_body_attrs_binary(e: Expr, b: Vec<Attribute>)
    requires
        e is Binary,
        tokens_inner(b@) == tokens_inner(e.attrs()),
    ensures
        tokens_expr_body(e.with_attrs(b)) == tokens_expr_body(e),
{
}

proof fn lemma_body_attrs_unary(e: Expr, b: Vec<Attribute>)
    requires
        e is Unary,
        tokens_inner(b@) == tokens_inner(e.attrs()),
    ensures
        tokens_expr_body(e.with_attrs(b)) == tokens_expr_body(e),
{
}

proof fn lemma_body_attrs_lit(e: Expr, b: Vec<Attribute>)
    requires
        e is Lit,
        tokens_inner(b@) == tokens_inner(e.attrs()),
    ensures
        tokens_expr_body(e.with_attrs(b)) == tokens_expr_body(e),
{
}

proof fn lemma_body_attrs_cast(e: Expr, b: Vec<Attribute>)
    requires
        e is Cast,
        tokens_inner(b@) == tokens_inner(e.attrs()),
    ensures
        tokens_expr_body(e.with_attrs(b)) == tokens_expr_body(e),
{
}

proof fn lemma_body_attrs_type(e: Expr, b: Vec<Attribute>)
    requires
        e is Type,
        tokens_inner(b@) == tokens_inner(e.attrs()),
    ensures
        tokens_expr_body(e.with_attrs(b)) == tokens_expr_body(e),
{
}

proof fn lemma_body_attrs_if(e: Expr, b: Vec<Attribute>)
    requires
        e is If,
        tokens_inner(b@) == tokens_inner(e.attrs()),
    ensures
        tokens_expr_body(e.with_attrs(b)) == tokens_expr_body(e),
{
}

proof fn lemma_body_attrs_iflet(e: Expr, b: Vec<Attribute>)
    requires
        e is IfLet,
        tokens_inner(b@) == tokens_inner(e.attrs()),
    ensures
        tokens_expr_body(e.with_attrs(b)) == tokens_expr_body(e),
{
}

proof fn lemma_body_attrs_while(e: Expr, b: Vec<Attribute>)
    requires
        e is While,
        tokens_inner(b@) == tokens_inner(e.attrs()),
    ensures
        tokens_expr_body(e.with_attrs(b)) == tokens_expr_body(e),
{
}

proof fn lemma_body_attrs_whilelet(e: Expr, b: Vec<Attribute>)
    requires
        e is WhileLet,
        tokens_inner(b@) == tokens_inner(e.attrs()),
    ensures
        tokens_expr_body(e.with_attrs(b)) == tokens_expr_body(e),
{
}

proof fn lemma_body_attrs_forloop(e: Expr, b: Vec<Attribute>)
    requires
        e is ForLoop,
        tokens_inner(b@) == tokens_inner(e.attrs()),
    ensures
        tokens_expr_body(e.with_attrs(b)) == tokens_expr_body(e),
{
}

proof fn lemma_body_attrs_loop(e: Expr, b: Vec<Attribute>)
    requires
        e is Loop,
        tokens_inner(b@) == tokens_inner(e.attrs()),
    ensures
        tokens_expr_body(e.with_attrs(b)) == tokens_expr_body(e),
{
}

proof fn lemma_body_attrs_match(e: Expr, b: Vec<Attribute>)
    requires
        e is Match,
        tokens_inner(b@) == tokens_inner(e.attrs()),
    ensures
        tokens_expr_body(e.with_attrs(b)) == tokens_expr_body(e),
{
}

proof fn lemma_body_attrs_closure(e: Expr, b: Vec<Attribute>)
    requires
        e is Closure,
        tokens_inner(b@) == tokens_inner(e.attrs()),
    ensures
        tokens_expr_body(e.with_attrs(b)) == tokens_expr_body(e),
{
}

proof fn lemma_body_attrs_unsafe(e: Expr, b: Vec<Attribute>)
    requires
        e is Unsafe,
        tokens_inner(b@) == tokens_inner(e.attrs()),
    ensures
        tokens_expr_body(e.with_attrs(b)) == tokens_expr_body(e),
{
}

proof fn lemma_body_attrs_block(e: Expr, b: Vec<Attribute>)
    requires
        e is Block,
        tokens_inner(b@) == tokens_inner(e.attrs()),
    ensures
        tokens_expr_body(e.with_attrs(b)) == tokens_expr_body(e),
{
}

proof fn lemma_body_attrs_assign(e: Expr, b: Vec<Attribute>)
    requires
        e is Assign,
        tokens_inner(b@) == tokens_inner(e.attrs()),
    ensures
        tokens_expr_body(e.with_attrs(b)) == tokens_expr_body(e),
{
}

proof fn lemma_body_attrs_assignop(e: Expr, b: Vec<Attribute>)
    requires
        e is AssignOp,
        tokens_inner(b@) == tokens_inner(e.attrs()),
    ensures
        tokens_expr_body(e.with_attrs(b)) == tokens_expr_body(e),
{
}

proof fn lemma_body_attrs_field(e: Expr, b: Vec<Attribute>)
    requires
        e is Field,
        tokens_inner(b@) == tokens_inner(e.attrs()),
    ensures
        tokens_expr_body(e.with_attrs(b)) == tokens_expr_body(e),
{
}

proof fn lemma_body_attrs_index(e: Expr, b: Vec<Attribute>)
    requires
        e is Index,
        tokens_inner(b@) == tokens_inner(e.attrs()),
    ensures
        tokens_expr_body(e.with_attrs(b)) == tokens_expr_body(e),
{
}

proof fn lemma_body_attrs_range(e: Expr, b: Vec<Attribute>)
    requires
        e is Range,
        tokens_inner(b@) == tokens_inner(e.attrs()),
    ensures
        tokens_expr_body(e.with_attrs(b)) == tokens_expr_body(e),
{
}

proof fn lemma_body_attrs_path(e: Expr, b: Vec<Attribute>)
    requires
        e is Path,
        tokens_inner(b@) == tokens_inner(e.attrs()),
    ensures
        tokens_expr_body(e.with_attrs(b)) == tokens_expr_body(e),
{
}

proof fn lemma_body_attrs_reference(e: Expr, b: Vec<Attribute>)
    requires
        e is Reference,
        tokens_inner(b@) == tokens_inner(e.attrs()),
    ensures
        tokens_expr_body(e.with_attrs(b)) == tokens_expr_body(e),
{
}

proof fn lemma_body_attrs_break(e: Expr, b: Vec<Attribute>)
    requires
        e is Break,
        tokens_inner(b@) == tokens_inner(e.attrs()),
    ensures
        tokens_expr_body(e.with_attrs(b)) == tokens_expr_body(e),
{
}

proof fn lemma_body_attrs_continue(e: Expr, b: Vec<Attribute>)
    requires
        e is Continue,
        tokens_inner(b@) == tokens_inner(e.attrs()),
    ensures
        tokens_expr_body(e.with_attrs(b)) == tokens_expr_body(e),
{
}

proof fn lemma_body_attrs_return(e: Expr, b: Vec<Attribute>)
    requires
        e is Return,
        tokens_inner(b@) == tokens_inner(e.attrs()),
    ensures
        tokens_expr_body(e.with_attrs(b)) == tokens_expr_body(e),
{
}

proof fn lemma_body_attrs_macro(e: Expr, b: Vec<Attribute>)
    requires
        e is Macro,
        tokens_inner(b@) == tokens_inner(e.attrs()),
    ensures
        tokens_expr_body(e.with_attrs(b)) == tokens_expr_body(e),
{
}

proof fn lemma_body_attrs_struct(e: Expr, b: Vec<Attribute>)
    requires
        e is Struct,
        tokens_inner(b@) == tokens_inner(e.attrs()),
    ensures
        tokens_expr_body(e.with_attrs(b)) == tokens_expr_body(e),
{
}

proof fn lemma_body_attrs_repeat(e: Expr, b: Vec<Attribute>)
    requires
        e is Repeat,
        tokens_inner(b@) == tokens_inner(e.attrs()),
    ensures
        tokens_expr_body(e.with_attrs(b)) == tokens_expr_body(e),
{
}

proof fn lemma_body_attrs_paren(e: Expr, b: Vec<Attribute>)
    requires
        e is Paren,
        tokens_inner(b@) == tokens_inner(e.attrs()),
    ensures
        tokens_expr_body(e.with_attrs(b)) == tokens_expr_body(e),
{
}

proof fn lemma_body_attrs_group(e: Expr, b: Vec<Attribute>)
    requires
        e is Group,
        tokens_inner(b@) == tokens_inner(e.attrs()),
    ensures
        tokens_expr_body(e.with_attrs(b)) == tokens_expr_body(e),
{
}

proof fn lemma_body_attrs_try(e: Expr, b: Vec<Attribute>)
    requires
        e is Try,
        tokens_inner(b@) == tokens_inner(e.attrs()),
    ensures
        tokens_expr_body(e.with_attrs(b)) == tokens_expr_body(e),
{
}

proof fn lemma_body_attrs_async(e: Expr, b: Vec<Attribute>)
    requires
        e is Async,
        tokens_inner(b@) == tokens_inner(e.attrs()),
    ensures
        tokens_expr_body(e.with_attrs(b)) == tokens_expr_body(e),
{
}

proof fn lemma_body_attrs_tryblock(e: Expr, b: Vec<Attribute>)
    requires
        e is TryBlock,
        tokens_inner(b@) == tokens_inner(e.attrs()),
    ensures
        tokens_expr_body(e.with_attrs(b)) == tokens_expr_body(e),
{
}

proof fn lemma_body_attrs_yield(e: Expr, b: Vec<Attribute>)
    requires
        e is Yield,
        tokens_inner(b@) == tokens_inner(e.attrs()),
    ensures
        tokens_expr_body(e.with_attrs(b)) == tokens_expr_body(e),
{
}


/// Printing depends on the attributes only through the tokens of the outer
/// ones and those of the inner ones.
pub proof fn lemma_same_attr_tokens(e: Expr, b: Vec<Attribute>)
    requires
        tokens_outer(b@) == tokens_outer(e.attrs()),
        tokens_inner(b@) == tokens_inner(e.attrs()),
    ensures
        tokens_expr(e.with_attrs(b)) == tokens_expr(e),
{
    lemma_body_attrs(e, b);
}

pub proof fn lemma_with_attrs_twice(e: Expr, a: Vec<Attribute>, b: Vec<Attribute>)
    ensures
        e.with_attrs(a).with_attrs(b) == e.with_attrs(b),
        !(e is Verbatim) ==> !(e.with_attrs(a) is Verbatim) && e.with_attrs(a).attrs() == a@,
{
}

pub proof fn lemma_of_style_tokens(s: Seq<Attribute>, st: AttrStyle, other: AttrStyle)
    requires
        st != other,
    ensures
        tokens_attrs_of_style(of_style(s, st), st) == tokens_attrs_of_style(s, st),
        tokens_attrs_of_style(of_style(s, st), other) == Seq::<crate::token::Tok>::empty(),
    decreases s.len(),
{
    if s.len() > 0 {
        lemma_of_style_tokens(s.drop_last(), st, other);
        let r = of_style(s.drop_last(), st);
        if s.last().style == st {
            assert(r.push(s.last()).drop_last() =~= r);
        }
    }
}

} // verus!
