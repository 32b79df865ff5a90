use vstd::prelude::*;

use crate::ast::{
    AttrStyle, Attribute, BinOp, Expr, ExprBox, ExprInPlace, ExprArray, ExprCall, ExprMethodCall, ExprTuple, ExprBinary, ExprUnary, ExprLit, ExprCast, ExprType, ExprIf, ExprIfLet, ExprWhile, ExprWhileLet, ExprForLoop, ExprLoop, ExprMatch, ExprClosure, ExprUnsafe, ExprBlock, ExprAssign, ExprAssignOp, ExprField, ExprIndex, ExprRange, ExprPath, ExprReference, ExprBreak, ExprContinue, ExprReturn, ExprMacro, ExprStruct, ExprRepeat, ExprParen, ExprGroup, ExprTry, ExprAsync, ExprTryBlock, ExprYield, FieldPat, FieldValue, FnArg, GenericMethodArgument,
    Ident, Label, Lifetime, Macro, Member, Name, Pat, Path, RangeLimits, ReturnType, Type,
    TypeReference, UnOp, Stmt, Item, Arm, PatTuple, PatStruct, PatSlice, arm_expr_requires_comma,
};
use crate::print::{
    comma_list, interleave, lemma_closure_arg_seq_len, lemma_closure_arg_seq_push,
    lemma_expr_seq_len, lemma_expr_seq_push, lemma_field_pat_seq_len, lemma_field_pat_seq_push,
    lemma_field_value_seq_len, lemma_field_value_seq_push, lemma_generic_seq_len,
    lemma_generic_seq_push, lemma_interleave_push, lemma_pat_seq_len, lemma_pat_seq_push,
    tokens_closure_arg_seq, tokens_expr, tokens_expr_body, tokens_expr_seq,
    tokens_field_pat_seq, tokens_field_value_seq, tokens_generic_seq, tokens_pat,
    tokens_pat_seq, tokens_pats_or, tokens_cond, tokens_else, tokens_stmts, tokens_stmt,
    tokens_arm, tokens_arms, tokens_arms_sep, tokens_pat_tuple, lemma_stmts_push,
    tokens_closure_inputs,
    delimited, k1, lemma_attrs_of_style_push, lemma_types_push, maybe, p1, tokens_attr,
    tokens_attrs, tokens_attrs_of_style, tokens_binop, tokens_ident, tokens_inner, tokens_label,
    tokens_lifetime, tokens_macro, tokens_member, tokens_name, tokens_opt_lifetime,
    tokens_outer, tokens_path, tokens_range_limits, tokens_return_type, tokens_segments,
    tokens_type, tokens_types, tokens_unop,
};
use crate::token::{Delim, Keyword, Lit, Punct, Tok};

verus! {

pub fn push_tok(out: &mut Vec<Tok>, t: Tok)
    ensures
        final(out)@ == old(out)@ + seq![t],
{
    out.push(t);
    assert(out@ =~= old(out)@ + seq![t]);
}

pub fn push_punct(out: &mut Vec<Tok>, p: Punct)
    ensures
        final(out)@ == old(out)@ + p1(p),
{
    push_tok(out, Tok::Punct(p));
}

pub fn push_kw(out: &mut Vec<Tok>, k: Keyword)
    ensures
        final(out)@ == old(out)@ + k1(k),
{
    push_tok(out, Tok::Kw(k));
}

/// Appends the tokens `v`.
pub fn push_all(out: &mut Vec<Tok>, v: &Vec<Tok>)
    ensures
        final(out)@ == old(out)@ + v@,
{
    let ghost start = out@;
    let mut i: usize = 0;
    while i < v.len()
        invariant
            i <= v.len(),
            out@ == start + v@.take(i as int),
        decreases v.len() - i,
    {
        out.push(v[i]);
        i = i + 1;
        assert(out@ =~= start + v@.take(i as int));
    }
    assert(v@.take(i as int) =~= v@);
}

/// Appends `inner` between the opening and closing tokens of `d`; `inner`
/// is what `f` appends.
pub fn open_delim(out: &mut Vec<Tok>, d: Delim)
    ensures
        final(out)@ == old(out)@ + seq![Tok::Open(d)],
{
    push_tok(out, Tok::Open(d));
}

pub fn close_delim(out: &mut Vec<Tok>, d: Delim)
    ensures
        final(out)@ == old(out)@ + seq![Tok::Close(d)],
{
    push_tok(out, Tok::Close(d));
}

/// Prints an attribute: `#[..]` or `#![..]`.
#[verifier::spinoff_prover]
pub fn print_attr(a: &Attribute, out: &mut Vec<Tok>)
    ensures
        final(out)@ == old(out)@ + tokens_attr(*a),
{
    let ghost start = out@;
    push_punct(out, Punct::Pound);
    if a.style == AttrStyle::Inner {
        push_punct(out, Punct::Bang);
    }
    open_delim(out, Delim::Bracket);
    push_all(out, &a.tts);
    close_delim(out, Delim::Bracket);
    assert(out@ =~= start + tokens_attr(*a));
}

/// Prints the attributes of `attrs` whose style is `st`, in order.
#[verifier::spinoff_prover]
pub fn print_attrs_of_style(attrs: &Vec<Attribute>, st: AttrStyle, out: &mut Vec<Tok>)
    ensures
        final(out)@ == old(out)@ + tokens_attrs_of_style(attrs@, st),
{
    let ghost start = out@;
    let mut i: usize = 0;
    proof {
        assert(attrs@.take(0) =~= Seq::<Attribute>::empty());
        assert(out@ =~= start + tokens_attrs_of_style(attrs@.take(0), st));
    }
    while i < attrs.len()
        invariant
            i <= attrs.len(),
            out@ == start + tokens_attrs_of_style(attrs@.take(i as int), st),
        decreases attrs.len() - i,
    {
        proof {
            assert(attrs@.take(i + 1) =~= attrs@.take(i as int).push(attrs@[i as int]));
            lemma_attrs_of_style_push(attrs@.take(i as int), attrs@[i as int], st);
        }
        if attrs[i].style == st {
            print_attr(&attrs[i], out);
        }
        i = i + 1;
        assert(out@ =~= start + tokens_attrs_of_style(attrs@.take(i as int), st));
    }
    assert(attrs@.take(i as int) =~= attrs@);
}

/// Prints the outer attributes of `attrs`.
#[verifier::spinoff_prover]
pub fn print_outer(attrs: &Vec<Attribute>, out: &mut Vec<Tok>)
    ensures
        final(out)@ == old(out)@ + tokens_outer(attrs@),
{
    print_attrs_of_style(attrs, AttrStyle::Outer, out);
}

/// Prints the inner attributes of `attrs`.
#[verifier::spinoff_prover]
pub fn print_inner(attrs: &Vec<Attribute>, out: &mut Vec<Tok>)
    ensures
        final(out)@ == old(out)@ + tokens_inner(attrs@),
{
    print_attrs_of_style(attrs, AttrStyle::Inner, out);
}

/// Prints all attributes of `attrs`, in order.
#[verifier::spinoff_prover]
pub fn print_attrs(attrs: &Vec<Attribute>, out: &mut Vec<Tok>)
    ensures
        final(out)@ == old(out)@ + tokens_attrs(attrs@),
{
    let ghost start = out@;
    let mut i: usize = 0;
    proof {
        assert(attrs@.take(0) =~= Seq::<Attribute>::empty());
        assert(out@ =~= start + tokens_attrs(attrs@.take(0)));
    }
    while i < attrs.len()
        invariant
            i <= attrs.len(),
            out@ == start + tokens_attrs(attrs@.take(i as int)),
        decreases attrs.len() - i,
    {
        proof {
            assert(attrs@.take(i + 1).drop_last() =~= attrs@.take(i as int));
        }
        print_attr(&attrs[i], out);
        i = i + 1;
        assert(out@ =~= start + tokens_attrs(attrs@.take(i as int)));
    }
    assert(attrs@.take(i as int) =~= attrs@);
}

#[verifier::spinoff_prover]
pub fn print_name(n: Name, out: &mut Vec<Tok>)
    ensures
        final(out)@ == old(out)@ + tokens_name(n),
{
    match n {
        Name::Ident(i) => push_tok(out, Tok::Ident(i.sym)),
        Name::SelfValue => push_kw(out, Keyword::SelfValue),
        Name::SelfType => push_kw(out, Keyword::SelfType),
        Name::Super => push_kw(out, Keyword::Super),
        Name::Crate => push_kw(out, Keyword::Crate),
    }
}

/// Prints a path: its leading `::`, then its segments separated by `::`.
#[verifier::spinoff_prover]
pub fn print_path(p: &Path, out: &mut Vec<Tok>)
    ensures
        final(out)@ == old(out)@ + tokens_path(*p),
{
    let ghost start = out@;
    if p.leading_colon {
        push_punct(out, Punct::Colon2);
    }
    let ghost lead = out@;
    assert(lead == start + maybe(p.leading_colon, p1(Punct::Colon2)));
    let mut i: usize = 0;
    proof {
        assert(p.segments@.take(0) =~= Seq::<Name>::empty());
        assert(out@ =~= lead + tokens_segments(p.segments@.take(0)));
    }
    while i < p.segments.len()
        invariant
            i <= p.segments.len(),
            out@ == lead + tokens_segments(p.segments@.take(i as int)),
        decreases p.segments.len() - i,
    {
        proof {
            assert(p.segments@.take(i + 1).drop_last() =~= p.segments@.take(i as int));
        }
        if i > 0 {
            push_punct(out, Punct::Colon2);
        }
        print_name(p.segments[i], out);
        i = i + 1;
        assert(out@ =~= lead + tokens_segments(p.segments@.take(i as int)));
    }
    assert(p.segments@.take(i as int) =~= p.segments@);
    assert(out@ =~= start + tokens_path(*p));
}

/// Prints a type.
#[verifier::loop_isolation(false)]
#[verifier::spinoff_prover]
pub fn print_type(t: &Type, out: &mut Vec<Tok>)
    ensures
        final(out)@ == old(out)@ + tokens_type(*t),
    decreases t,
{
    let ghost start = out@;
    match t {
        Type::Path(p) => print_path(p, out),
        Type::Infer => push_kw(out, Keyword::Underscore),
        Type::Never => push_punct(out, Punct::Bang),
        Type::Reference(r) => {
            push_punct(out, Punct::And);
            if let Some(l) = r.lifetime {
                push_tok(out, Tok::Lifetime(l.sym));
            }
            if r.mutability {
                push_kw(out, Keyword::Mut);
            }
            print_type(&r.elem, out);
            assert(out@ =~= start + tokens_type(*t));
        },
        Type::Tuple(elems, trailing) => {
            open_delim(out, Delim::Paren);
            let ghost inner_start = out@;
            let mut i: usize = 0;
            proof {
                assert(elems@.subrange(0, 0) =~= Seq::<Type>::empty());
                assert(out@ =~= inner_start + tokens_types(elems@.subrange(0, 0)));
            }
            while i < elems.len()
                invariant
                    i <= elems.len(),
                    out@ == inner_start + tokens_types(elems@.subrange(0, i as int)),
                decreases elems.len() - i,
            {
                proof {
                    assert(elems@.subrange(0, i + 1) =~= elems@.subrange(0, i as int).push(elems@[i as int]));
                    lemma_types_push(elems@.subrange(0, i as int), elems@[i as int]);
                    assert(decreases_to!(*elems => (*elems)[i as int]));
                }
                if i > 0 {
                    push_punct(out, Punct::Comma);
                }
                print_type(&elems[i], out);
                i = i + 1;
                assert(out@ =~= inner_start + tokens_types(elems@.subrange(0, i as int)));
            }
            assert(elems@.subrange(0, i as int) =~= elems@);
            if *trailing && elems.len() > 0 {
                push_punct(out, Punct::Comma);
            }
            close_delim(out, Delim::Paren);
            assert(out@ =~= start + tokens_type(*t));
        },
        Type::Slice(elem) => {
            open_delim(out, Delim::Bracket);
            print_type(elem, out);
            close_delim(out, Delim::Bracket);
            assert(out@ =~= start + tokens_type(*t));
        },
        Type::Paren(elem) => {
            open_delim(out, Delim::Paren);
            print_type(elem, out);
            close_delim(out, Delim::Paren);
            assert(out@ =~= start + tokens_type(*t));
        },
    }
}

/// Prints a macro invocation: path, `!`, and the delimited tokens.
#[verifier::spinoff_prover]
pub fn print_macro(m: &Macro, out: &mut Vec<Tok>)
    ensures
        final(out)@ == old(out)@ + tokens_macro(*m),
{
    let ghost start = out@;
    print_path(&m.path, out);
    push_punct(out, Punct::Bang);
    open_delim(out, m.delimiter);
    push_all(out, &m.tts);
    close_delim(out, m.delimiter);
    assert(out@ =~= start + tokens_macro(*m));
}

/// Prints a field name: an identifier or an integer.
#[verifier::spinoff_prover]
pub fn print_member(m: Member, out: &mut Vec<Tok>)
    ensures
        final(out)@ == old(out)@ + tokens_member(m),
{
    match m {
        Member::Named(i) => push_tok(out, Tok::Ident(i.sym)),
        Member::Unnamed(i) => push_tok(out, Tok::Lit(Lit::Int(i.index as u64))),
    }
}

#[verifier::spinoff_prover]
pub fn print_binop(op: BinOp, out: &mut Vec<Tok>)
    ensures
        final(out)@ == old(out)@ + tokens_binop(op),
{
    let p = match op {
        BinOp::Add => Punct::Add,
        BinOp::Sub => Punct::Sub,
        BinOp::Mul => Punct::Star,
        BinOp::Div => Punct::Div,
        BinOp::Rem => Punct::Rem,
        BinOp::And => Punct::AndAnd,
        BinOp::Or => Punct::OrOr,
        BinOp::BitXor => Punct::Caret,
        BinOp::BitAnd => Punct::And,
        BinOp::BitOr => Punct::Or,
        BinOp::Shl => Punct::Shl,
        BinOp::Shr => Punct::Shr,
        BinOp::Eq => Punct::EqEq,
        BinOp::Lt => Punct::Lt,
        BinOp::Le => Punct::Le,
        BinOp::Ne => Punct::Ne,
        BinOp::Ge => Punct::Ge,
        BinOp::Gt => Punct::Gt,
        BinOp::AddEq => Punct::AddEq,
        BinOp::SubEq => Punct::SubEq,
        BinOp::MulEq => Punct::MulEq,
        BinOp::DivEq => Punct::DivEq,
        BinOp::RemEq => Punct::RemEq,
        BinOp::BitXorEq => Punct::CaretEq,
        BinOp::BitAndEq => Punct::AndEq,
        BinOp::BitOrEq => Punct::OrEq,
        BinOp::ShlEq => Punct::ShlEq,
        BinOp::ShrEq => Punct::ShrEq,
    };
    push_punct(out, p);
}

#[verifier::spinoff_prover]
pub fn print_unop(op: UnOp, out: &mut Vec<Tok>)
    ensures
        final(out)@ == old(out)@ + tokens_unop(op),
{
    match op {
        UnOp::Deref => push_punct(out, Punct::Star),
        UnOp::Not => push_punct(out, Punct::Bang),
        UnOp::Neg => push_punct(out, Punct::Sub),
    }
}

#[verifier::spinoff_prover]
pub fn print_range_limits(l: RangeLimits, out: &mut Vec<Tok>)
    ensures
        final(out)@ == old(out)@ + tokens_range_limits(l),
{
    match l {
        RangeLimits::HalfOpen => push_punct(out, Punct::Dot2),
        RangeLimits::Closed => push_punct(out, Punct::DotDotEq),
    }
}

#[verifier::spinoff_prover]
pub fn print_opt_lifetime(l: Option<Lifetime>, out: &mut Vec<Tok>)
    ensures
        final(out)@ == old(out)@ + tokens_opt_lifetime(l),
{
    if let Some(l) = l {
        push_tok(out, Tok::Lifetime(l.sym));
    } else {
        assert(out@ =~= old(out)@ + tokens_opt_lifetime(l));
    }
}

#[verifier::spinoff_prover]
pub fn print_label(l: Option<Label>, out: &mut Vec<Tok>)
    ensures
        final(out)@ == old(out)@ + tokens_label(l),
{
    let ghost start = out@;
    if let Some(l) = l {
        push_tok(out, Tok::Lifetime(l.name.sym));
        push_punct(out, Punct::Colon);
    }
    assert(out@ =~= start + tokens_label(l));
}

#[verifier::spinoff_prover]
pub fn print_return_type(r: &ReturnType, out: &mut Vec<Tok>)
    ensures
        final(out)@ == old(out)@ + tokens_return_type(*r),
{
    let ghost start = out@;
    match r {
        ReturnType::Default => {},
        ReturnType::Type(t) => {
            push_punct(out, Punct::RArrow);
            print_type(t, out);
        },
    }
    assert(out@ =~= start + tokens_return_type(*r));
}


/// Prints an expression: its outer attributes, then the rest.
#[verifier::spinoff_prover]
pub fn print_expr(e: &Expr, out: &mut Vec<Tok>)
    ensures
        final(out)@ == old(out)@ + tokens_expr(*e),
    decreases e, 1int,
{
    let ghost start = out@;
    match e {
        Expr::Verbatim(x) => push_all(out, &x.tts),
        _ => {
            print_expr_outer(e, out);
            print_expr_body(e, out);
            assert(out@ =~= start + tokens_expr(*e));
        },
    }
}

/// Prints expressions separated by commas, with a comma after the last when `trailing` holds.
#[verifier::loop_isolation(false)]
#[verifier::spinoff_prover]
pub fn print_expr_list(v: &Vec<Expr>, trailing: bool, out: &mut Vec<Tok>)
    ensures
        final(out)@ == old(out)@ + comma_list(tokens_expr_seq(v@), trailing),
    decreases v, 0int,
{
    let ghost start = out@;
    let mut i: usize = 0;
    proof {
        assert(v@.subrange(0, 0) =~= Seq::<Expr>::empty());
        assert(out@ =~= start + interleave(tokens_expr_seq(v@.subrange(0, 0)), Punct::Comma));
    }
    while i < v.len()
        invariant
            i <= v.len(),
            out@ == start + interleave(tokens_expr_seq(v@.subrange(0, i as int)), Punct::Comma),
        decreases v.len() - i,
    {
        proof {
            assert(v@.subrange(0, i + 1) =~= v@.subrange(0, i as int).push(v@[i as int]));
            lemma_expr_seq_push(v@.subrange(0, i as int), v@[i as int]);
            lemma_expr_seq_len(v@.subrange(0, i as int));
            lemma_interleave_push(tokens_expr_seq(v@.subrange(0, i as int)), tokens_expr(v@[i as int]), Punct::Comma);
            assert(decreases_to!(*v => (*v)[i as int]));
        }
        let ghost before = out@;
        if i > 0 {
            push_punct(out, Punct::Comma);
        }
        print_expr(&v[i], out);
        i = i + 1;
        assert(out@ =~= start + interleave(tokens_expr_seq(v@.subrange(0, i as int)), Punct::Comma));
    }
    assert(v@.subrange(0, i as int) =~= v@);
    if trailing && v.len() > 0 {
        push_punct(out, Punct::Comma);
    }
    assert(out@ =~= start + comma_list(tokens_expr_seq(v@), trailing));
}

/// Prints the generic arguments of a method call, separated by commas.
#[verifier::loop_isolation(false)]
#[verifier::spinoff_prover]
#[verifier::rlimit(100)]
pub fn print_generic_args(v: &Vec<GenericMethodArgument>, trailing: bool, out: &mut Vec<Tok>)
    ensures
        final(out)@ == old(out)@ + comma_list(tokens_generic_seq(v@), trailing),
    decreases v, 0int,
{
    let ghost start = out@;
    let mut i: usize = 0;
    proof {
        assert(v@.subrange(0, 0) =~= Seq::<GenericMethodArgument>::empty());
        assert(out@ =~= start + interleave(tokens_generic_seq(v@.subrange(0, 0)), Punct::Comma));
    }
    while i < v.len()
        invariant
            i <= v.len(),
            out@ == start + interleave(tokens_generic_seq(v@.subrange(0, i as int)), Punct::Comma),
        decreases v.len() - i,
    {
        proof {
            assert(v@.subrange(0, i + 1) =~= v@.subrange(0, i as int).push(v@[i as int]));
            lemma_generic_seq_push(v@.subrange(0, i as int), v@[i as int]);
            lemma_generic_seq_len(v@.subrange(0, i as int));
            lemma_interleave_push(tokens_generic_seq(v@.subrange(0, i as int)), match v@[i as int] {
                GenericMethodArgument::Type(t) => tokens_type(t),
                GenericMethodArgument::Const(c) => tokens_expr(c),
            }, Punct::Comma);
            assert(decreases_to!(*v => (*v)[i as int]));
        }
        let ghost before = out@;
        if i > 0 {
            push_punct(out, Punct::Comma);
        }
        match &v[i] {
            GenericMethodArgument::Type(t) => print_type(t, out),
            GenericMethodArgument::Const(c) => print_expr(c, out),
        }
        i = i + 1;
        assert(out@ =~= start + interleave(tokens_generic_seq(v@.subrange(0, i as int)), Punct::Comma));
    }
    assert(v@.subrange(0, i as int) =~= v@);
    if trailing && v.len() > 0 {
        push_punct(out, Punct::Comma);
    }
    assert(out@ =~= start + comma_list(tokens_generic_seq(v@), trailing));
}

/// Prints the fields of a struct literal; a shorthand field prints its name alone.
#[verifier::loop_isolation(false)]
#[verifier::spinoff_prover]
#[verifier::rlimit(100)]
pub fn print_field_values(v: &Vec<FieldValue>, trailing: bool, out: &mut Vec<Tok>)
    ensures
        final(out)@ == old(out)@ + comma_list(tokens_field_value_seq(v@), trailing),
    decreases v, 0int,
{
    let ghost start = out@;
    let mut i: usize = 0;
    proof {
        assert(v@.subrange(0, 0) =~= Seq::<FieldValue>::empty());
        assert(out@ =~= start + interleave(tokens_field_value_seq(v@.subrange(0, 0)), Punct::Comma));
    }
    while i < v.len()
        invariant
            i <= v.len(),
            out@ == start + interleave(tokens_field_value_seq(v@.subrange(0, i as int)), Punct::Comma),
        decreases v.len() - i,
    {
        proof {
            assert(v@.subrange(0, i + 1) =~= v@.subrange(0, i as int).push(v@[i as int]));
            lemma_field_value_seq_push(v@.subrange(0, i as int), v@[i as int]);
            lemma_field_value_seq_len(v@.subrange(0, i as int));
            lemma_interleave_push(tokens_field_value_seq(v@.subrange(0, i as int)), tokens_outer(v@[i as int].attrs@) + tokens_member(v@[i as int].member) + maybe(
                v@[i as int].colon,
                p1(Punct::Colon) + tokens_expr(v@[i as int].expr),
            ), Punct::Comma);
            assert(decreases_to!(*v => (*v)[i as int]));
        }
        let ghost before = out@;
        if i > 0 {
            push_punct(out, Punct::Comma);
        }
        print_outer(&v[i].attrs, out);
        print_member(v[i].member, out);
        if v[i].colon {
            push_punct(out, Punct::Colon);
            print_expr(&v[i].expr, out);
        }
        i = i + 1;
        assert(out@ =~= start + interleave(tokens_field_value_seq(v@.subrange(0, i as int)), Punct::Comma));
    }
    assert(v@.subrange(0, i as int) =~= v@);
    if trailing && v.len() > 0 {
        push_punct(out, Punct::Comma);
    }
    assert(out@ =~= start + comma_list(tokens_field_value_seq(v@), trailing));
}

/// Prints the inputs of a closure; an input typed `_` prints without its type.
#[verifier::loop_isolation(false)]
#[verifier::spinoff_prover]
#[verifier::rlimit(100)]
pub fn print_closure_args(v: &Vec<FnArg>, trailing: bool, out: &mut Vec<Tok>)
    ensures
        final(out)@ == old(out)@ + comma_list(tokens_closure_arg_seq(v@), trailing),
    decreases v, 0int,
{
    let ghost start = out@;
    let mut i: usize = 0;
    proof {
        assert(v@.subrange(0, 0) =~= Seq::<FnArg>::empty());
        assert(out@ =~= start + interleave(tokens_closure_arg_seq(v@.subrange(0, 0)), Punct::Comma));
    }
    while i < v.len()
        invariant
            i <= v.len(),
            out@ == start + interleave(tokens_closure_arg_seq(v@.subrange(0, i as int)), Punct::Comma),
        decreases v.len() - i,
    {
        proof {
            assert(v@.subrange(0, i + 1) =~= v@.subrange(0, i as int).push(v@[i as int]));
            lemma_closure_arg_seq_push(v@.subrange(0, i as int), v@[i as int]);
            lemma_closure_arg_seq_len(v@.subrange(0, i as int));
            lemma_interleave_push(tokens_closure_arg_seq(v@.subrange(0, i as int)), match v@[i as int] {
                FnArg::Captured(p, Type::Infer) => tokens_pat(p),
                FnArg::Captured(p, t) => tokens_pat(p) + p1(Punct::Colon) + tokens_type(t),
                FnArg::Inferred(p) => tokens_pat(p),
            }, Punct::Comma);
            assert(decreases_to!(*v => (*v)[i as int]));
        }
        let ghost before = out@;
        if i > 0 {
            push_punct(out, Punct::Comma);
        }
        match &v[i] {
            FnArg::Captured(p, t) => {
                print_pat(p, out);
                if !matches!(t, Type::Infer) {
                    push_punct(out, Punct::Colon);
                    print_type(t, out);
                }
            },
            FnArg::Inferred(p) => print_pat(p, out),
        }
        i = i + 1;
        assert(out@ =~= start + interleave(tokens_closure_arg_seq(v@.subrange(0, i as int)), Punct::Comma));
    }
    assert(v@.subrange(0, i as int) =~= v@);
    if trailing && v.len() > 0 {
        push_punct(out, Punct::Comma);
    }
    assert(out@ =~= start + comma_list(tokens_closure_arg_seq(v@), trailing));
}

/// Prints patterns separated by commas.
#[verifier::loop_isolation(false)]
#[verifier::spinoff_prover]
pub fn print_pat_list(v: &Vec<Pat>, trailing: bool, out: &mut Vec<Tok>)
    ensures
        final(out)@ == old(out)@ + comma_list(tokens_pat_seq(v@), trailing),
    decreases v, 0int,
{
    let ghost start = out@;
    let mut i: usize = 0;
    proof {
        assert(v@.subrange(0, 0) =~= Seq::<Pat>::empty());
        assert(out@ =~= start + interleave(tokens_pat_seq(v@.subrange(0, 0)), Punct::Comma));
    }
    while i < v.len()
        invariant
            i <= v.len(),
            out@ == start + interleave(tokens_pat_seq(v@.subrange(0, i as int)), Punct::Comma),
        decreases v.len() - i,
    {
        proof {
            assert(v@.subrange(0, i + 1) =~= v@.subrange(0, i as int).push(v@[i as int]));
            lemma_pat_seq_push(v@.subrange(0, i as int), v@[i as int]);
            lemma_pat_seq_len(v@.subrange(0, i as int));
            lemma_interleave_push(tokens_pat_seq(v@.subrange(0, i as int)), tokens_pat(v@[i as int]), Punct::Comma);
            assert(decreases_to!(*v => (*v)[i as int]));
        }
        let ghost before = out@;
        if i > 0 {
            push_punct(out, Punct::Comma);
        }
        print_pat(&v[i], out);
        i = i + 1;
        assert(out@ =~= start + interleave(tokens_pat_seq(v@.subrange(0, i as int)), Punct::Comma));
    }
    assert(v@.subrange(0, i as int) =~= v@);
    if trailing && v.len() > 0 {
        push_punct(out, Punct::Comma);
    }
    assert(out@ =~= start + comma_list(tokens_pat_seq(v@), trailing));
}

/// Prints patterns separated by `|`.
#[verifier::loop_isolation(false)]
#[verifier::spinoff_prover]
pub fn print_pats_or(v: &Vec<Pat>, out: &mut Vec<Tok>)
    ensures
        final(out)@ == old(out)@ + tokens_pats_or(v@),
    decreases v, 0int,
{
    let ghost start = out@;
    let mut i: usize = 0;
    proof {
        assert(v@.subrange(0, 0) =~= Seq::<Pat>::empty());
        assert(out@ =~= start + interleave(tokens_pat_seq(v@.subrange(0, 0)), Punct::Or));
    }
    while i < v.len()
        invariant
            i <= v.len(),
            out@ == start + interleave(tokens_pat_seq(v@.subrange(0, i as int)), Punct::Or),
        decreases v.len() - i,
    {
        proof {
            assert(v@.subrange(0, i + 1) =~= v@.subrange(0, i as int).push(v@[i as int]));
            lemma_pat_seq_push(v@.subrange(0, i as int), v@[i as int]);
            lemma_pat_seq_len(v@.subrange(0, i as int));
            lemma_interleave_push(tokens_pat_seq(v@.subrange(0, i as int)), tokens_pat(v@[i as int]), Punct::Or);
            assert(decreases_to!(*v => (*v)[i as int]));
        }
        let ghost before = out@;
        if i > 0 {
            push_punct(out, Punct::Or);
        }
        print_pat(&v[i], out);
        i = i + 1;
        assert(out@ =~= start + interleave(tokens_pat_seq(v@.subrange(0, i as int)), Punct::Or));
    }
    assert(v@.subrange(0, i as int) =~= v@);
    assert(out@ =~= start + interleave(tokens_pat_seq(v@), Punct::Or));
}

/// Prints the fields of a struct pattern.
#[verifier::loop_isolation(false)]
#[verifier::spinoff_prover]
#[verifier::rlimit(100)]
pub fn print_field_pats(v: &Vec<FieldPat>, trailing: bool, out: &mut Vec<Tok>)
    ensures
        final(out)@ == old(out)@ + comma_list(tokens_field_pat_seq(v@), trailing),
    decreases v, 0int,
{
    let ghost start = out@;
    let mut i: usize = 0;
    proof {
        assert(v@.subrange(0, 0) =~= Seq::<FieldPat>::empty());
        assert(out@ =~= start + interleave(tokens_field_pat_seq(v@.subrange(0, 0)), Punct::Comma));
    }
    while i < v.len()
        invariant
            i <= v.len(),
            out@ == start + interleave(tokens_field_pat_seq(v@.subrange(0, i as int)), Punct::Comma),
        decreases v.len() - i,
    {
        proof {
            assert(v@.subrange(0, i + 1) =~= v@.subrange(0, i as int).push(v@[i as int]));
            lemma_field_pat_seq_push(v@.subrange(0, i as int), v@[i as int]);
            lemma_field_pat_seq_len(v@.subrange(0, i as int));
            lemma_interleave_push(tokens_field_pat_seq(v@.subrange(0, i as int)), maybe(v@[i as int].colon, tokens_member(v@[i as int].member) + p1(Punct::Colon))
                + tokens_pat(*v@[i as int].pat), Punct::Comma);
            assert(decreases_to!(*v => (*v)[i as int]));
        }
        let ghost before = out@;
        if i > 0 {
            push_punct(out, Punct::Comma);
        }
        if v[i].colon {
            print_member(v[i].member, out);
            push_punct(out, Punct::Colon);
        }
        print_pat(&v[i].pat, out);
        i = i + 1;
        assert(out@ =~= start + interleave(tokens_field_pat_seq(v@.subrange(0, i as int)), Punct::Comma));
    }
    assert(v@.subrange(0, i as int) =~= v@);
    if trailing && v.len() > 0 {
        push_punct(out, Punct::Comma);
    }
    assert(out@ =~= start + comma_list(tokens_field_pat_seq(v@), trailing));
}


/// Prints the outer attributes of an expression.
#[verifier::spinoff_prover]
fn print_expr_outer(e: &Expr, out: &mut Vec<Tok>)
    requires
        !(*e is Verbatim),
    ensures
        final(out)@ == old(out)@ + tokens_outer(e.attrs()),
{
    match e {
        Expr::Box(x) => print_outer(&x.attrs, out),
        Expr::InPlace(x) => print_outer(&x.attrs, out),
        Expr::Array(x) => print_outer(&x.attrs, out),
        Expr::Call(x) => print_outer(&x.attrs, out),
        Expr::MethodCall(x) => print_outer(&x.attrs, out),
        Expr::Tuple(x) => print_outer(&x.attrs, out),
        Expr::Binary(x) => print_outer(&x.attrs, out),
        Expr::Unary(x) => print_outer(&x.attrs, out),
        Expr::Lit(x) => print_outer(&x.attrs, out),
        Expr::Cast(x) => print_outer(&x.attrs, out),
        Expr::Type(x) => print_outer(&x.attrs, out),
        Expr::If(x) => print_outer(&x.attrs, out),
        Expr::IfLet(x) => print_outer(&x.attrs, out),
        Expr::While(x) => print_outer(&x.attrs, out),
        Expr::WhileLet(x) => print_outer(&x.attrs, out),
        Expr::ForLoop(x) => print_outer(&x.attrs, out),
        Expr::Loop(x) => print_outer(&x.attrs, out),
        Expr::Match(x) => print_outer(&x.attrs, out),
        Expr::Closure(x) => print_outer(&x.attrs, out),
        Expr::Unsafe(x) => print_outer(&x.attrs, out),
        Expr::Block(x) => print_outer(&x.attrs, out),
        Expr::Assign(x) => print_outer(&x.attrs, out),
        Expr::AssignOp(x) => print_outer(&x.attrs, out),
        Expr::Field(x) => print_outer(&x.attrs, out),
        Expr::Index(x) => print_outer(&x.attrs, out),
        Expr::Range(x) => print_outer(&x.attrs, out),
        Expr::Path(x) => print_outer(&x.attrs, out),
        Expr::Reference(x) => print_outer(&x.attrs, out),
        Expr::Break(x) => print_outer(&x.attrs, out),
        Expr::Continue(x) => print_outer(&x.attrs, out),
        Expr::Return(x) => print_outer(&x.attrs, out),
        Expr::Macro(x) => print_outer(&x.attrs, out),
        Expr::Struct(x) => print_outer(&x.attrs, out),
        Expr::Repeat(x) => print_outer(&x.attrs, out),
        Expr::Paren(x) => print_outer(&x.attrs, out),
        Expr::Group(x) => print_outer(&x.attrs, out),
        Expr::Try(x) => print_outer(&x.attrs, out),
        Expr::Async(x) => print_outer(&x.attrs, out),
        Expr::TryBlock(x) => print_outer(&x.attrs, out),
        Expr::Yield(x) => print_outer(&x.attrs, out),
        Expr::Verbatim(_) => {},
    }
}

/// Prints an expression after its outer attributes.
#[verifier::spinoff_prover]
pub fn print_expr_body(e: &Expr, out: &mut Vec<Tok>)
    ensures
        final(out)@ == old(out)@ + tokens_expr_body(*e),
    decreases e, 0int,
{
    match e {
        Expr::Box(x) => print_expr_box(x, out),
        Expr::InPlace(x) => print_expr_in_place(x, out),
        Expr::Array(x) => print_expr_array(x, out),
        Expr::Call(x) => print_expr_call(x, out),
        Expr::MethodCall(x) => print_expr_method_call(x, out),
        Expr::Tuple(x) => print_expr_tuple(x, out),
        Expr::Binary(x) => print_expr_binary(x, out),
        Expr::Unary(x) => print_expr_unary(x, out),
        Expr::Lit(x) => print_expr_lit(x, out),
        Expr::Cast(x) => print_expr_cast(x, out),
        Expr::Type(x) => print_expr_type(x, out),
        Expr::If(x) => print_expr_if(x, out),
        Expr::IfLet(x) => print_expr_if_let(x, out),
        Expr::While(x) => print_expr_while(x, out),
        Expr::WhileLet(x) => print_expr_while_let(x, out),
        Expr::ForLoop(x) => print_expr_for_loop(x, out),
        Expr::Loop(x) => print_expr_loop(x, out),
        Expr::Match(x) => print_expr_match(x, out),
        Expr::Closure(x) => print_expr_closure(x, out),
        Expr::Unsafe(x) => print_expr_unsafe(x, out),
        Expr::Block(x) => print_expr_block(x, out),
        Expr::Assign(x) => print_expr_assign(x, out),
        Expr::AssignOp(x) => print_expr_assign_op(x, out),
        Expr::Field(x) => print_expr_field(x, out),
        Expr::Index(x) => print_expr_index(x, out),
        Expr::Range(x) => print_expr_range(x, out),
        Expr::Path(x) => print_expr_path(x, out),
        Expr::Reference(x) => print_expr_reference(x, out),
        Expr::Break(x) => print_expr_break(x, out),
        Expr::Continue(x) => print_expr_continue(x, out),
        Expr::Return(x) => print_expr_return(x, out),
        Expr::Macro(x) => print_expr_macro(x, out),
        Expr::Struct(x) => print_expr_struct(x, out),
        Expr::Repeat(x) => print_expr_repeat(x, out),
        Expr::Paren(x) => print_expr_paren(x, out),
        Expr::Group(x) => print_expr_group(x, out),
        Expr::Try(x) => print_expr_try(x, out),
        Expr::Async(x) => print_expr_async(x, out),
        Expr::TryBlock(x) => print_expr_try_block(x, out),
        Expr::Yield(x) => print_expr_yield(x, out),
        Expr::Verbatim(x) => push_all(out, &x.tts),
    }
}

#[verifier::spinoff_prover]
fn print_expr_box(x: &ExprBox, out: &mut Vec<Tok>)
    ensures
        final(out)@ == old(out)@ + tokens_expr_body(Expr::Box(*x)),
    decreases x, 0int,
{
    let ghost start = out@;
    push_kw(out, Keyword::Box);
    print_expr(&x.expr, out);
    assert(out@ =~= start + tokens_expr_body(Expr::Box(*x)));
}

#[verifier::spinoff_prover]
fn print_expr_in_place(x: &ExprInPlace, out: &mut Vec<Tok>)
    ensures
        final(out)@ == old(out)@ + tokens_expr_body(Expr::InPlace(*x)),
    decreases x, 0int,
{
    let ghost start = out@;
    print_expr(&x.place, out);
    push_punct(out, Punct::LArrow);
    print_expr(&x.value, out);
    assert(out@ =~= start + tokens_expr_body(Expr::InPlace(*x)));
}

#[verifier::spinoff_prover]
fn print_expr_array(x: &ExprArray, out: &mut Vec<Tok>)
    ensures
        final(out)@ == old(out)@ + tokens_expr_body(Expr::Array(*x)),
    decreases x, 0int,
{
    let ghost start = out@;
    open_delim(out, Delim::Bracket);
    print_inner(&x.attrs, out);
    print_expr_list(&x.elems, x.trailing, out);
    close_delim(out, Delim::Bracket);
    assert(out@ =~= start + tokens_expr_body(Expr::Array(*x)));
}

#[verifier::spinoff_prover]
fn print_expr_call(x: &ExprCall, out: &mut Vec<Tok>)
    ensures
        final(out)@ == old(out)@ + tokens_expr_body(Expr::Call(*x)),
    decreases x, 0int,
{
    let ghost start = out@;
    print_expr(&x.func, out);
    open_delim(out, Delim::Paren);
    print_expr_list(&x.args, x.trailing, out);
    close_delim(out, Delim::Paren);
    assert(out@ =~= start + tokens_expr_body(Expr::Call(*x)));
}

#[verifier::spinoff_prover]
#[verifier::rlimit(100)]
fn print_expr_method_call(x: &ExprMethodCall, out: &mut Vec<Tok>)
    ensures
        final(out)@ == old(out)@ + tokens_expr_body(Expr::MethodCall(*x)),
    decreases x, 0int,
{
    let ghost start = out@;
    print_expr(&x.receiver, out);
    push_punct(out, Punct::Dot);
    push_tok(out, Tok::Ident(x.method.sym));
    if let Some(t) = &x.turbofish {
        push_punct(out, Punct::Colon2);
        push_punct(out, Punct::Lt);
        print_generic_args(&t.args, t.trailing, out);
        push_punct(out, Punct::Gt);
    }
    open_delim(out, Delim::Paren);
    print_expr_list(&x.args, x.trailing, out);
    close_delim(out, Delim::Paren);
    assert(out@ =~= start + tokens_expr_body(Expr::MethodCall(*x)));
}

#[verifier::spinoff_prover]
fn print_expr_tuple(x: &ExprTuple, out: &mut Vec<Tok>)
    ensures
        final(out)@ == old(out)@ + tokens_expr_body(Expr::Tuple(*x)),
    decreases x, 0int,
{
    let ghost start = out@;
    open_delim(out, Delim::Paren);
    print_inner(&x.attrs, out);
    print_expr_list(&x.elems, x.trailing, out);
    if x.elems.len() == 1 && !x.trailing {
        push_punct(out, Punct::Comma);
    }
    close_delim(out, Delim::Paren);
    assert(out@ =~= start + tokens_expr_body(Expr::Tuple(*x)));
}

#[verifier::spinoff_prover]
fn print_expr_binary(x: &ExprBinary, out: &mut Vec<Tok>)
    ensures
        final(out)@ == old(out)@ + tokens_expr_body(Expr::Binary(*x)),
    decreases x, 0int,
{
    let ghost start = out@;
    print_expr(&x.left, out);
    print_binop(x.op, out);
    print_expr(&x.right, out);
    assert(out@ =~= start + tokens_expr_body(Expr::Binary(*x)));
}

#[verifier::spinoff_prover]
fn print_expr_unary(x: &ExprUnary, out: &mut Vec<Tok>)
    ensures
        final(out)@ == old(out)@ + tokens_expr_body(Expr::Unary(*x)),
    decreases x, 0int,
{
    let ghost start = out@;
    print_unop(x.op, out);
    print_expr(&x.expr, out);
    assert(out@ =~= start + tokens_expr_body(Expr::Unary(*x)));
}

#[verifier::spinoff_prover]
fn print_expr_lit(x: &ExprLit, out: &mut Vec<Tok>)
    ensures
        final(out)@ == old(out)@ + tokens_expr_body(Expr::Lit(*x)),
    decreases x, 0int,
{
    let ghost start = out@;
    push_tok(out, Tok::Lit(x.lit));
    assert(out@ =~= start + tokens_expr_body(Expr::Lit(*x)));
}

#[verifier::spinoff_prover]
fn print_expr_cast(x: &ExprCast, out: &mut Vec<Tok>)
    ensures
        final(out)@ == old(out)@ + tokens_expr_body(Expr::Cast(*x)),
    decreases x, 0int,
{
    let ghost start = out@;
    print_expr(&x.expr, out);
    push_kw(out, Keyword::As);
    print_type(&x.ty, out);
    assert(out@ =~= start + tokens_expr_body(Expr::Cast(*x)));
}

#[verifier::spinoff_prover]
fn print_expr_type(x: &ExprType, out: &mut Vec<Tok>)
    ensures
        final(out)@ == old(out)@ + tokens_expr_body(Expr::Type(*x)),
    decreases x, 0int,
{
    let ghost start = out@;
    print_expr(&x.expr, out);
    push_punct(out, Punct::Colon);
    print_type(&x.ty, out);
    assert(out@ =~= start + tokens_expr_body(Expr::Type(*x)));
}

#[verifier::spinoff_prover]
fn print_expr_if(x: &ExprIf, out: &mut Vec<Tok>)
    ensures
        final(out)@ == old(out)@ + tokens_expr_body(Expr::If(*x)),
    decreases x, 0int,
{
    let ghost start = out@;
    push_kw(out, Keyword::If);
    print_cond(&x.cond, out);
    open_delim(out, Delim::Brace);
    print_stmts(&x.then_branch.stmts, out);
    close_delim(out, Delim::Brace);
    print_else(&x.else_branch, out);
    assert(out@ =~= start + tokens_expr_body(Expr::If(*x)));
}

#[verifier::spinoff_prover]
#[verifier::rlimit(100)]
fn print_expr_if_let(x: &ExprIfLet, out: &mut Vec<Tok>)
    ensures
        final(out)@ == old(out)@ + tokens_expr_body(Expr::IfLet(*x)),
    decreases x, 0int,
{
    let ghost start = out@;
    push_kw(out, Keyword::If);
    push_kw(out, Keyword::Let);
    print_pats_or(&x.pats, out);
    push_punct(out, Punct::Eq);
    print_cond(&x.expr, out);
    open_delim(out, Delim::Brace);
    print_stmts(&x.then_branch.stmts, out);
    close_delim(out, Delim::Brace);
    print_else(&x.else_branch, out);
    assert(out@ =~= start + tokens_expr_body(Expr::IfLet(*x)));
}

#[verifier::spinoff_prover]
fn print_expr_while(x: &ExprWhile, out: &mut Vec<Tok>)
    ensures
        final(out)@ == old(out)@ + tokens_expr_body(Expr::While(*x)),
    decreases x, 0int,
{
    let ghost start = out@;
    print_label(x.label, out);
    push_kw(out, Keyword::While);
    print_cond(&x.cond, out);
    open_delim(out, Delim::Brace);
    print_inner(&x.attrs, out);
    print_stmts(&x.body.stmts, out);
    close_delim(out, Delim::Brace);
    assert(out@ =~= start + tokens_expr_body(Expr::While(*x)));
}

#[verifier::spinoff_prover]
#[verifier::rlimit(100)]
fn print_expr_while_let(x: &ExprWhileLet, out: &mut Vec<Tok>)
    ensures
        final(out)@ == old(out)@ + tokens_expr_body(Expr::WhileLet(*x)),
    decreases x, 0int,
{
    let ghost start = out@;
    print_label(x.label, out);
    push_kw(out, Keyword::While);
    push_kw(out, Keyword::Let);
    print_pats_or(&x.pats, out);
    push_punct(out, Punct::Eq);
    print_cond(&x.expr, out);
    open_delim(out, Delim::Brace);
    print_inner(&x.attrs, out);
    print_stmts(&x.body.stmts, out);
    close_delim(out, Delim::Brace);
    assert(out@ =~= start + tokens_expr_body(Expr::WhileLet(*x)));
}

#[verifier::spinoff_prover]
#[verifier::rlimit(100)]
fn print_expr_for_loop(x: &ExprForLoop, out: &mut Vec<Tok>)
    ensures
        final(out)@ == old(out)@ + tokens_expr_body(Expr::ForLoop(*x)),
    decreases x, 0int,
{
    let ghost start = out@;
    print_label(x.label, out);
    push_kw(out, Keyword::For);
    print_pat(&x.pat, out);
    push_kw(out, Keyword::In);
    print_cond(&x.expr, out);
    open_delim(out, Delim::Brace);
    print_inner(&x.attrs, out);
    print_stmts(&x.body.stmts, out);
    close_delim(out, Delim::Brace);
    assert(out@ =~= start + tokens_expr_body(Expr::ForLoop(*x)));
}

#[verifier::spinoff_prover]
fn print_expr_loop(x: &ExprLoop, out: &mut Vec<Tok>)
    ensures
        final(out)@ == old(out)@ + tokens_expr_body(Expr::Loop(*x)),
    decreases x, 0int,
{
    let ghost start = out@;
    print_label(x.label, out);
    push_kw(out, Keyword::Loop);
    open_delim(out, Delim::Brace);
    print_inner(&x.attrs, out);
    print_stmts(&x.body.stmts, out);
    close_delim(out, Delim::Brace);
    assert(out@ =~= start + tokens_expr_body(Expr::Loop(*x)));
}

#[verifier::spinoff_prover]
fn print_expr_match(x: &ExprMatch, out: &mut Vec<Tok>)
    ensures
        final(out)@ == old(out)@ + tokens_expr_body(Expr::Match(*x)),
    decreases x, 0int,
{
    let ghost start = out@;
    push_kw(out, Keyword::Match);
    print_cond(&x.expr, out);
    open_delim(out, Delim::Brace);
    print_inner(&x.attrs, out);
    print_arms(&x.arms, out);
    close_delim(out, Delim::Brace);
    assert(out@ =~= start + tokens_expr_body(Expr::Match(*x)));
}

#[verifier::spinoff_prover]
#[verifier::rlimit(100)]
fn print_expr_closure(x: &ExprClosure, out: &mut Vec<Tok>)
    ensures
        final(out)@ == old(out)@ + tokens_expr_body(Expr::Closure(*x)),
    decreases x, 0int,
{
    let ghost start = out@;
    if x.asyncness {
        push_kw(out, Keyword::Async);
    }
    let ghost s1 = out@;
    assert(s1 =~= start + maybe(x.asyncness, k1(Keyword::Async)));
    if x.movability {
        push_kw(out, Keyword::Static);
    }
    let ghost s2 = out@;
    assert(s2 =~= s1 + maybe(x.movability, k1(Keyword::Static)));
    if x.capture {
        push_kw(out, Keyword::Move);
    }
    let ghost s3 = out@;
    assert(s3 =~= s2 + maybe(x.capture, k1(Keyword::Move)));
    proof {
        lemma_closure_arg_seq_len(x.inputs@);
    }
    if x.inputs.len() == 0 {
        push_punct(out, Punct::OrOr);
    } else {
        push_punct(out, Punct::Or);
        print_closure_args(&x.inputs, x.trailing, out);
        push_punct(out, Punct::Or);
    }
    let ghost s4 = out@;
    assert(s4 =~= s3 + tokens_closure_inputs(tokens_closure_arg_seq(x.inputs@), x.trailing));
    print_return_type(&x.output, out);
    print_expr(&x.body, out);
    assert(out@ =~= start + tokens_expr_body(Expr::Closure(*x)));
}

#[verifier::spinoff_prover]
fn print_expr_unsafe(x: &ExprUnsafe, out: &mut Vec<Tok>)
    ensures
        final(out)@ == old(out)@ + tokens_expr_body(Expr::Unsafe(*x)),
    decreases x, 0int,
{
    let ghost start = out@;
    push_kw(out, Keyword::Unsafe);
    open_delim(out, Delim::Brace);
    print_inner(&x.attrs, out);
    print_stmts(&x.block.stmts, out);
    close_delim(out, Delim::Brace);
    assert(out@ =~= start + tokens_expr_body(Expr::Unsafe(*x)));
}

#[verifier::spinoff_prover]
fn print_expr_block(x: &ExprBlock, out: &mut Vec<Tok>)
    ensures
        final(out)@ == old(out)@ + tokens_expr_body(Expr::Block(*x)),
    decreases x, 0int,
{
    let ghost start = out@;
    print_label(x.label, out);
    open_delim(out, Delim::Brace);
    print_inner(&x.attrs, out);
    print_stmts(&x.block.stmts, out);
    close_delim(out, Delim::Brace);
    assert(out@ =~= start + tokens_expr_body(Expr::Block(*x)));
}

#[verifier::spinoff_prover]
fn print_expr_assign(x: &ExprAssign, out: &mut Vec<Tok>)
    ensures
        final(out)@ == old(out)@ + tokens_expr_body(Expr::Assign(*x)),
    decreases x, 0int,
{
    let ghost start = out@;
    print_expr(&x.left, out);
    push_punct(out, Punct::Eq);
    print_expr(&x.right, out);
    assert(out@ =~= start + tokens_expr_body(Expr::Assign(*x)));
}

#[verifier::spinoff_prover]
fn print_expr_assign_op(x: &ExprAssignOp, out: &mut Vec<Tok>)
    ensures
        final(out)@ == old(out)@ + tokens_expr_body(Expr::AssignOp(*x)),
    decreases x, 0int,
{
    let ghost start = out@;
    print_expr(&x.left, out);
    print_binop(x.op, out);
    print_expr(&x.right, out);
    assert(out@ =~= start + tokens_expr_body(Expr::AssignOp(*x)));
}

#[verifier::spinoff_prover]
fn print_expr_field(x: &ExprField, out: &mut Vec<Tok>)
    ensures
        final(out)@ == old(out)@ + tokens_expr_body(Expr::Field(*x)),
    decreases x, 0int,
{
    let ghost start = out@;
    print_expr(&x.base, out);
    push_punct(out, Punct::Dot);
    print_member(x.member, out);
    assert(out@ =~= start + tokens_expr_body(Expr::Field(*x)));
}

#[verifier::spinoff_prover]
fn print_expr_index(x: &ExprIndex, out: &mut Vec<Tok>)
    ensures
        final(out)@ == old(out)@ + tokens_expr_body(Expr::Index(*x)),
    decreases x, 0int,
{
    let ghost start = out@;
    print_expr(&x.expr, out);
    open_delim(out, Delim::Bracket);
    print_expr(&x.index, out);
    close_delim(out, Delim::Bracket);
    assert(out@ =~= start + tokens_expr_body(Expr::Index(*x)));
}

#[verifier::spinoff_prover]
fn print_expr_range(x: &ExprRange, out: &mut Vec<Tok>)
    ensures
        final(out)@ == old(out)@ + tokens_expr_body(Expr::Range(*x)),
    decreases x, 0int,
{
    let ghost start = out@;
    if let Some(f) = &x.from {
        print_expr(f, out);
    }
    print_range_limits(x.limits, out);
    if let Some(t) = &x.to {
        print_expr(t, out);
    }
    assert(out@ =~= start + tokens_expr_body(Expr::Range(*x)));
}

#[verifier::spinoff_prover]
fn print_expr_path(x: &ExprPath, out: &mut Vec<Tok>)
    ensures
        final(out)@ == old(out)@ + tokens_expr_body(Expr::Path(*x)),
    decreases x, 0int,
{
    let ghost start = out@;
    print_path(&x.path, out);
    assert(out@ =~= start + tokens_expr_body(Expr::Path(*x)));
}

#[verifier::spinoff_prover]
fn print_expr_reference(x: &ExprReference, out: &mut Vec<Tok>)
    ensures
        final(out)@ == old(out)@ + tokens_expr_body(Expr::Reference(*x)),
    decreases x, 0int,
{
    let ghost start = out@;
    push_punct(out, Punct::And);
    if x.mutability {
        push_kw(out, Keyword::Mut);
    }
    print_expr(&x.expr, out);
    assert(out@ =~= start + tokens_expr_body(Expr::Reference(*x)));
}

#[verifier::spinoff_prover]
fn print_expr_break(x: &ExprBreak, out: &mut Vec<Tok>)
    ensures
        final(out)@ == old(out)@ + tokens_expr_body(Expr::Break(*x)),
    decreases x, 0int,
{
    let ghost start = out@;
    push_kw(out, Keyword::Break);
    print_opt_lifetime(x.label, out);
    if let Some(v) = &x.expr {
        print_expr(v, out);
    }
    assert(out@ =~= start + tokens_expr_body(Expr::Break(*x)));
}

#[verifier::spinoff_prover]
fn print_expr_continue(x: &ExprContinue, out: &mut Vec<Tok>)
    ensures
        final(out)@ == old(out)@ + tokens_expr_body(Expr::Continue(*x)),
    decreases x, 0int,
{
    let ghost start = out@;
    push_kw(out, Keyword::Continue);
    print_opt_lifetime(x.label, out);
    assert(out@ =~= start + tokens_expr_body(Expr::Continue(*x)));
}

#[verifier::spinoff_prover]
fn print_expr_return(x: &ExprReturn, out: &mut Vec<Tok>)
    ensures
        final(out)@ == old(out)@ + tokens_expr_body(Expr::Return(*x)),
    decreases x, 0int,
{
    let ghost start = out@;
    push_kw(out, Keyword::Return);
    if let Some(v) = &x.expr {
        print_expr(v, out);
    }
    assert(out@ =~= start + tokens_expr_body(Expr::Return(*x)));
}

#[verifier::spinoff_prover]
fn print_expr_macro(x: &ExprMacro, out: &mut Vec<Tok>)
    ensures
        final(out)@ == old(out)@ + tokens_expr_body(Expr::Macro(*x)),
    decreases x, 0int,
{
    let ghost start = out@;
    print_macro(&x.mac, out);
    assert(out@ =~= start + tokens_expr_body(Expr::Macro(*x)));
}

#[verifier::spinoff_prover]
#[verifier::rlimit(100)]
fn print_expr_struct(x: &ExprStruct, out: &mut Vec<Tok>)
    ensures
        final(out)@ == old(out)@ + tokens_expr_body(Expr::Struct(*x)),
    decreases x, 0int,
{
    let ghost start = out@;
    print_path(&x.path, out);
    open_delim(out, Delim::Brace);
    print_inner(&x.attrs, out);
    print_field_values(&x.fields, x.trailing, out);
    if let Some(r) = &x.rest {
        push_punct(out, Punct::Dot2);
        print_expr(r, out);
    }
    close_delim(out, Delim::Brace);
    assert(out@ =~= start + tokens_expr_body(Expr::Struct(*x)));
}

#[verifier::spinoff_prover]
fn print_expr_repeat(x: &ExprRepeat, out: &mut Vec<Tok>)
    ensures
        final(out)@ == old(out)@ + tokens_expr_body(Expr::Repeat(*x)),
    decreases x, 0int,
{
    let ghost start = out@;
    open_delim(out, Delim::Bracket);
    print_inner(&x.attrs, out);
    print_expr(&x.expr, out);
    push_punct(out, Punct::Semi);
    print_expr(&x.len, out);
    close_delim(out, Delim::Bracket);
    assert(out@ =~= start + tokens_expr_body(Expr::Repeat(*x)));
}

#[verifier::spinoff_prover]
fn print_expr_paren(x: &ExprParen, out: &mut Vec<Tok>)
    ensures
        final(out)@ == old(out)@ + tokens_expr_body(Expr::Paren(*x)),
    decreases x, 0int,
{
    let ghost start = out@;
    open_delim(out, Delim::Paren);
    print_inner(&x.attrs, out);
    print_expr(&x.expr, out);
    close_delim(out, Delim::Paren);
    assert(out@ =~= start + tokens_expr_body(Expr::Paren(*x)));
}

#[verifier::spinoff_prover]
fn print_expr_group(x: &ExprGroup, out: &mut Vec<Tok>)
    ensures
        final(out)@ == old(out)@ + tokens_expr_body(Expr::Group(*x)),
    decreases x, 0int,
{
    let ghost start = out@;
    open_delim(out, Delim::NoDelim);
    print_expr(&x.expr, out);
    close_delim(out, Delim::NoDelim);
    assert(out@ =~= start + tokens_expr_body(Expr::Group(*x)));
}

#[verifier::spinoff_prover]
fn print_expr_try(x: &ExprTry, out: &mut Vec<Tok>)
    ensures
        final(out)@ == old(out)@ + tokens_expr_body(Expr::Try(*x)),
    decreases x, 0int,
{
    let ghost start = out@;
    print_expr(&x.expr, out);
    push_punct(out, Punct::Question);
    assert(out@ =~= start + tokens_expr_body(Expr::Try(*x)));
}

#[verifier::spinoff_prover]
fn print_expr_async(x: &ExprAsync, out: &mut Vec<Tok>)
    ensures
        final(out)@ == old(out)@ + tokens_expr_body(Expr::Async(*x)),
    decreases x, 0int,
{
    let ghost start = out@;
    push_kw(out, Keyword::Async);
    if x.capture {
        push_kw(out, Keyword::Move);
    }
    open_delim(out, Delim::Brace);
    print_stmts(&x.block.stmts, out);
    close_delim(out, Delim::Brace);
    assert(out@ =~= start + tokens_expr_body(Expr::Async(*x)));
}

#[verifier::spinoff_prover]
fn print_expr_try_block(x: &ExprTryBlock, out: &mut Vec<Tok>)
    ensures
        final(out)@ == old(out)@ + tokens_expr_body(Expr::TryBlock(*x)),
    decreases x, 0int,
{
    let ghost start = out@;
    push_kw(out, Keyword::Try);
    open_delim(out, Delim::Brace);
    print_stmts(&x.block.stmts, out);
    close_delim(out, Delim::Brace);
    assert(out@ =~= start + tokens_expr_body(Expr::TryBlock(*x)));
}

#[verifier::spinoff_prover]
fn print_expr_yield(x: &ExprYield, out: &mut Vec<Tok>)
    ensures
        final(out)@ == old(out)@ + tokens_expr_body(Expr::Yield(*x)),
    decreases x, 0int,
{
    let ghost start = out@;
    push_kw(out, Keyword::Yield);
    if let Some(v) = &x.expr {
        print_expr(v, out);
    }
    assert(out@ =~= start + tokens_expr_body(Expr::Yield(*x)));
}


/// Prints the condition of an `if`, `while`, `for` or `match`: a struct
/// literal there is wrapped in parentheses.
#[verifier::spinoff_prover]
fn print_cond(e: &Expr, out: &mut Vec<Tok>)
    ensures
        final(out)@ == old(out)@ + tokens_cond(*e),
    decreases e, 2int,
{
    let ghost start = out@;
    if matches!(e, Expr::Struct(_)) {
        open_delim(out, Delim::Paren);
        print_expr(e, out);
        close_delim(out, Delim::Paren);
    } else {
        print_expr(e, out);
    }
    assert(out@ =~= start + tokens_cond(*e));
}

/// Prints the `else` part of an `if`: anything but an `if` or a block is
/// wrapped in braces.
#[verifier::spinoff_prover]
fn print_else(e: &Option<Box<Expr>>, out: &mut Vec<Tok>)
    ensures
        final(out)@ == old(out)@ + tokens_else(*e),
    decreases e, 2int,
{
    let ghost start = out@;
    if let Some(x) = e {
        push_kw(out, Keyword::Else);
        if matches!(**x, Expr::If(_)) || matches!(**x, Expr::IfLet(_)) || matches!(**x, Expr::Block(_)) {
            print_expr(x, out);
        } else {
            open_delim(out, Delim::Brace);
            print_expr(x, out);
            close_delim(out, Delim::Brace);
        }
    }
    assert(out@ =~= start + tokens_else(*e));
}

/// Prints statements one after the other.
#[verifier::loop_isolation(false)]
#[verifier::spinoff_prover]
pub fn print_stmts(v: &Vec<Stmt>, out: &mut Vec<Tok>)
    ensures
        final(out)@ == old(out)@ + tokens_stmts(v@),
    decreases v, 0int,
{
    let ghost start = out@;
    let mut i: usize = 0;
    proof {
        assert(v@.subrange(0, 0) =~= Seq::<Stmt>::empty());
        assert(out@ =~= start + tokens_stmts(v@.subrange(0, 0)));
    }
    while i < v.len()
        invariant
            i <= v.len(),
            out@ == start + tokens_stmts(v@.subrange(0, i as int)),
        decreases v.len() - i,
    {
        proof {
            assert(v@.subrange(0, i + 1) =~= v@.subrange(0, i as int).push(v@[i as int]));
            lemma_stmts_push(v@.subrange(0, i as int), v@[i as int]);
            assert(decreases_to!(*v => (*v)[i as int]));
        }
        print_stmt(&v[i], out);
        i = i + 1;
        assert(out@ =~= start + tokens_stmts(v@.subrange(0, i as int)));
    }
    assert(v@.subrange(0, i as int) =~= v@);
}

/// Prints a statement.
#[verifier::spinoff_prover]
#[verifier::rlimit(100)]
pub fn print_stmt(st: &Stmt, out: &mut Vec<Tok>)
    ensures
        final(out)@ == old(out)@ + tokens_stmt(*st),
    decreases st, 0int,
{
    let ghost start = out@;
    match st {
        Stmt::Local(l) => {
            print_outer(&l.attrs, out);
            push_kw(out, Keyword::Let);
            print_pats_or(&l.pats, out);
            if let Some(t) = &l.ty {
                push_punct(out, Punct::Colon);
                print_type(t, out);
            }
            if let Some(v) = &l.init {
                push_punct(out, Punct::Eq);
                print_expr(v, out);
            }
            push_punct(out, Punct::Semi);
        },
        Stmt::Item(Item::Macro(m)) => {
            print_outer(&m.attrs, out);
            print_path(&m.mac.path, out);
            push_punct(out, Punct::Bang);
            if let Some(id) = m.ident {
                push_tok(out, Tok::Ident(id.sym));
            }
            open_delim(out, m.mac.delimiter);
            push_all(out, &m.mac.tts);
            close_delim(out, m.mac.delimiter);
            if m.semi {
                push_punct(out, Punct::Semi);
            }
        },
        Stmt::Expr(e) => print_expr(e, out),
        Stmt::Semi(e) => {
            print_expr(e, out);
            push_punct(out, Punct::Semi);
        },
    }
    assert(out@ =~= start + tokens_stmt(*st));
}

/// Prints one arm of a `match`.
#[verifier::spinoff_prover]
#[verifier::rlimit(100)]
pub fn print_arm(a: &Arm, out: &mut Vec<Tok>)
    ensures
        final(out)@ == old(out)@ + tokens_arm(*a),
    decreases a, 0int,
{
    let ghost start = out@;
    print_attrs(&a.attrs, out);
    if a.leading_vert {
        push_punct(out, Punct::Or);
    }
    let ghost s1 = out@;
    assert(s1 =~= start + tokens_attrs(a.attrs@) + maybe(a.leading_vert, p1(Punct::Or)));
    print_pats_or(&a.pats, out);
    let ghost s2 = out@;
    if let Some(g) = &a.guard {
        push_kw(out, Keyword::If);
        print_expr(g, out);
    }
    let ghost s3 = out@;
    assert(s3 =~= s2 + match a.guard {
        Some(g) => k1(Keyword::If) + tokens_expr(*g),
        None => Seq::<Tok>::empty(),
    });
    push_punct(out, Punct::FatArrow);
    print_expr(&a.body, out);
    let ghost s4 = out@;
    if a.comma {
        push_punct(out, Punct::Comma);
    }
    assert(out@ =~= s4 + maybe(a.comma, p1(Punct::Comma)));
    assert(out@ =~= start + tokens_arm(*a));
}

/// Prints the arms of a `match`; an arm that is not the last gets a comma
/// when its body needs one and it has none.
#[verifier::loop_isolation(false)]
#[verifier::spinoff_prover]
#[verifier::rlimit(100)]
pub fn print_arms(v: &Vec<Arm>, out: &mut Vec<Tok>)
    ensures
        final(out)@ == old(out)@ + tokens_arms(v@),
    decreases v, 0int,
{
    let ghost start = out@;
    let n = v.len();
    if n == 0 {
        assert(out@ =~= start + tokens_arms(v@));
        return;
    }
    let mut i: usize = 0;
    proof {
        assert(v@.subrange(0, 0) =~= Seq::<Arm>::empty());
        assert(out@ =~= start + tokens_arms_sep(v@.subrange(0, 0)));
    }
    while i + 1 < n
        invariant
            n == v.len(),
            i < n,
            out@ == start + tokens_arms_sep(v@.subrange(0, i as int)),
        decreases n - i,
    {
        proof {
            assert(v@.subrange(0, i + 1).subrange(0, i as int) =~= v@.subrange(0, i as int));
            assert(decreases_to!(*v => (*v)[i as int]));
        }
        print_arm(&v[i], out);
        if arm_expr_requires_comma(&v[i].body) && !v[i].comma {
            push_punct(out, Punct::Comma);
        }
        i = i + 1;
        assert(out@ =~= start + tokens_arms_sep(v@.subrange(0, i as int)));
    }
    proof {
        assert(v@.subrange(0, n - 1) =~= v@.subrange(0, i as int));
        assert(decreases_to!(*v => (*v)[i as int]));
    }
    print_arm(&v[i], out);
    assert(out@ =~= start + tokens_arms(v@));
}

/// Prints the `..` of a tuple pattern with the commas it needs around it.
#[verifier::spinoff_prover]
fn print_tuple_dots(dot2: bool, comma_before: bool, comma: bool, back: bool, out: &mut Vec<Tok>)
    ensures
        final(out)@ == old(out)@ + maybe(
            dot2,
            maybe(comma_before, p1(Punct::Comma)) + p1(Punct::Dot2) + maybe(comma, p1(Punct::Comma))
                + maybe(!comma && back, p1(Punct::Comma)),
        ),
{
    let ghost start = out@;
    if dot2 {
        if comma_before {
            push_punct(out, Punct::Comma);
        }
        let ghost a1 = out@;
        assert(a1 =~= start + maybe(comma_before, p1(Punct::Comma)));
        push_punct(out, Punct::Dot2);
        let ghost a2 = out@;
        if comma {
            push_punct(out, Punct::Comma);
        }
        let ghost a3 = out@;
        assert(a3 =~= a2 + maybe(comma, p1(Punct::Comma)));
        if !comma && back {
            push_punct(out, Punct::Comma);
        }
        assert(out@ =~= a3 + maybe(!comma && back, p1(Punct::Comma)));
    }
    assert(out@ =~= start + maybe(
        dot2,
        maybe(comma_before, p1(Punct::Comma)) + p1(Punct::Dot2) + maybe(comma, p1(Punct::Comma))
            + maybe(!comma && back, p1(Punct::Comma)),
    ));
}

/// Prints a tuple pattern, adding the commas around `..` that it needs.
#[verifier::spinoff_prover]
#[verifier::rlimit(100)]
fn print_pat_tuple(t: &PatTuple, out: &mut Vec<Tok>)
    ensures
        final(out)@ == old(out)@ + tokens_pat_tuple(*t),
    decreases t, 0int,
{
    let ghost start = out@;
    open_delim(out, Delim::Paren);
    print_pat_list(&t.front, t.front_trailing, out);
    print_tuple_dots(t.dot2, t.front.len() > 0 && !t.front_trailing, t.comma, t.back.len() > 0, out);
    print_pat_list(&t.back, t.back_trailing, out);
    close_delim(out, Delim::Paren);
    assert(out@ =~= start + tokens_pat_tuple(*t));
}

/// Prints a struct pattern, with a comma before `..` when the fields need
/// one.
#[verifier::spinoff_prover]
#[verifier::rlimit(100)]
fn print_pat_struct(x: &PatStruct, out: &mut Vec<Tok>)
    ensures
        final(out)@ == old(out)@ + tokens_pat(Pat::Struct(*x)),
    decreases x, 0int,
{
    let ghost start = out@;
    print_path(&x.path, out);
    open_delim(out, Delim::Brace);
    let ghost s1 = out@;
    print_field_pats(&x.fields, x.trailing, out);
    if x.fields.len() > 0 && !x.trailing && x.dot2 {
        push_punct(out, Punct::Comma);
    }
    if x.dot2 {
        push_punct(out, Punct::Dot2);
    }
    close_delim(out, Delim::Brace);
    assert(out@ =~= start + tokens_pat(Pat::Struct(*x)));
}

/// Prints a slice pattern, adding the commas and `..` that it needs.
#[verifier::spinoff_prover]
#[verifier::rlimit(100)]
fn print_pat_slice(x: &PatSlice, out: &mut Vec<Tok>)
    ensures
        final(out)@ == old(out)@ + tokens_pat(Pat::Slice(*x)),
    decreases x, 0int,
{
    let ghost start = out@;
    open_delim(out, Delim::Bracket);
    print_pat_list(&x.front, x.front_trailing, out);
    if x.front.len() > 0 && !x.front_trailing && (x.middle.is_some() || x.dot2) {
        push_punct(out, Punct::Comma);
    }
    let ghost s1 = out@;
    if let Some(m) = &x.middle {
        print_pat(m, out);
        push_punct(out, Punct::Dot2);
    } else if x.dot2 {
        push_punct(out, Punct::Dot2);
    }
    let ghost s2 = out@;
    assert(s2 =~= s1 + match x.middle {
        Some(m) => tokens_pat(*m) + p1(Punct::Dot2),
        None => maybe(x.dot2, p1(Punct::Dot2)),
    });
    if x.back.len() > 0 {
        push_punct(out, Punct::Comma);
        print_pat_list(&x.back, x.back_trailing, out);
    } else if x.comma {
        push_punct(out, Punct::Comma);
    }
    let ghost s3 = out@;
    assert(s3 =~= s2 + if x.back@.len() > 0 {
        p1(Punct::Comma) + comma_list(tokens_pat_seq(x.back@), x.back_trailing)
    } else {
        maybe(x.comma, p1(Punct::Comma))
    });
    close_delim(out, Delim::Bracket);
    assert(out@ =~= start + tokens_pat(Pat::Slice(*x)));
}

/// Prints a pattern; a closed range prints its limits as `...`.
#[verifier::spinoff_prover]
#[verifier::rlimit(100)]
pub fn print_pat(p: &Pat, out: &mut Vec<Tok>)
    ensures
        final(out)@ == old(out)@ + tokens_pat(*p),
    decreases p, 0int,
{
    let ghost start = out@;
    match p {
        Pat::Wild => push_kw(out, Keyword::Underscore),
        Pat::Ident(x) => {
            if x.by_ref {
                push_kw(out, Keyword::Ref);
            }
            if x.mutability {
                push_kw(out, Keyword::Mut);
            }
            print_name(x.ident, out);
            if let Some(sub) = &x.subpat {
                push_punct(out, Punct::At);
                print_pat(sub, out);
            }
            assert(out@ =~= start + tokens_pat(*p));
        },
        Pat::Struct(x) => print_pat_struct(x, out),
        Pat::TupleStruct(x) => {
            print_path(&x.path, out);
            print_pat_tuple(&x.pat, out);
            assert(out@ =~= start + tokens_pat(*p));
        },
        Pat::Path(x) => print_path(&x.path, out),
        Pat::Tuple(x) => print_pat_tuple(x, out),
        Pat::Box(x) => {
            push_kw(out, Keyword::Box);
            print_pat(&x.pat, out);
            assert(out@ =~= start + tokens_pat(*p));
        },
        Pat::Ref(x) => {
            push_punct(out, Punct::And);
            if x.mutability {
                push_kw(out, Keyword::Mut);
            }
            print_pat(&x.pat, out);
            assert(out@ =~= start + tokens_pat(*p));
        },
        Pat::Lit(x) => print_expr(&x.expr, out),
        Pat::Range(x) => {
            print_expr(&x.lo, out);
            match x.limits {
                RangeLimits::HalfOpen => push_punct(out, Punct::Dot2),
                RangeLimits::Closed => push_punct(out, Punct::Dot3),
            }
            print_expr(&x.hi, out);
            assert(out@ =~= start + tokens_pat(*p));
        },
        Pat::Slice(x) => print_pat_slice(x, out),
        Pat::Macro(m) => print_macro(m, out),
        Pat::Verbatim(tts) => push_all(out, tts),
    }
}

} // verus!
