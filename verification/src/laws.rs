use vstd::prelude::*;

use crate::ast::{AttrStyle, Attribute, BinOp, Expr, Member, Name, Pat, Precedence, RangeLimits, binop_prec, prec_rank};
use crate::parse_pat::{lone_pat_of, range_pat_end, range_read, simple_pats_end, simple_pat_at, slice_read};
use crate::parse_util::at_group_end;
use crate::attrs::{lemma_of_style_tokens, lemma_same_attr_tokens, lemma_with_attrs_twice, of_style};
use crate::parse_expr::{expr_rank, parsed_expr, spine_ok};
use crate::parse_util::has_lossy;
use crate::print::{requires_comma, comma_list, interleave, lemma_pat_seq_len, maybe, p1, tokens_attrs_of_style, tokens_expr, tokens_inner, tokens_outer, tokens_pat, tokens_pat_seq};
use crate::token::{canon, canon_seq, Delim, Keyword, Punct, Tok};

verus! {

/// Printing what was read gives back the tokens it was read from, up to
/// the spelling of inclusive range limits. Where the input holds an inner
/// attribute, an attribute where a pattern may start, an empty statement,
/// an inferred closure input type, a field index that does not fit in 32
/// bits, or another form that printing does not give back as it stands
/// (see `lossy_at`), nothing is claimed.
pub proof fn law_print_after_parse(s: Seq<Tok>, e: Expr)
    requires
        parsed_expr(s, 0, s.len() as int, e),
        !has_lossy(s, 0, s.len() as int),
    ensures
        canon_seq(tokens_expr(e)) == canon_seq(s),
{
    assert(s.subrange(0, s.len() as int) =~= s);
}

/// In an expression that was read, each operand of a binary operator binds
/// at least as tightly as the operator; operators of one level group to
/// the left, except compound assignments, which group to the right.
pub proof fn law_binary_grouping(s: Seq<Tok>, pos: int, end: int, e: Expr)
    requires
        parsed_expr(s, pos, end, e),
        e is Binary,
    ensures
        ({
            let x = e->Binary_0;
            let p = prec_rank(binop_prec(x.op));
            &&& expr_rank(*x.left) >= p
            &&& (p != 1 ==> expr_rank(*x.right) > p)
            &&& (p == 1 ==> expr_rank(*x.left) > 1)
        }),
{
}

/// Putting back the attributes that `replace_attrs` returned restores the
/// attributes and the printed form of the expression.
pub proof fn law_replace_attrs_restores(e: Expr, new: Vec<Attribute>, back: Vec<Attribute>)
    requires
        back@ == e.attrs(),
    ensures
        e.with_attrs(new).with_attrs(back).attrs() == e.attrs(),
        tokens_expr(e.with_attrs(new).with_attrs(back)) == tokens_expr(e),
{
    lemma_with_attrs_twice(e, new, back);
    if !(e is Verbatim) {
        lemma_with_attrs_twice(e, back, back);
        lemma_same_attr_tokens(e, back);
    }
}

/// Replacing the attributes twice is the same as replacing them once with
/// the second vector.
pub proof fn law_replace_attrs_twice(e: Expr, a: Vec<Attribute>, b: Vec<Attribute>)
    ensures
        e.with_attrs(a).with_attrs(b) == e.with_attrs(b),
{
    lemma_with_attrs_twice(e, a, b);
}

/// Splitting attributes by style keeps what each style prints as: the outer
/// part prints as the outer attributes of the whole, and the inner part as
/// its inner attributes.
pub proof fn law_take_outer_prints(attrs: Seq<Attribute>)
    ensures
        tokens_outer(of_style(attrs, AttrStyle::Outer)) == tokens_outer(attrs),
        tokens_inner(of_style(attrs, AttrStyle::Inner)) == tokens_inner(attrs),
        tokens_inner(of_style(attrs, AttrStyle::Outer)) == Seq::<Tok>::empty(),
        tokens_outer(of_style(attrs, AttrStyle::Inner)) == Seq::<Tok>::empty(),
{
    lemma_of_style_tokens(attrs, AttrStyle::Outer, AttrStyle::Inner);
    lemma_of_style_tokens(attrs, AttrStyle::Inner, AttrStyle::Outer);
}

/// Compound assignments bind as loosely as `=`, and every other binary
/// operator binds tighter than a range.
pub proof fn law_binop_levels(op: BinOp)
    ensures
        binop_prec(op) == Precedence::Assign <==> (op == BinOp::AddEq || op == BinOp::SubEq || op
            == BinOp::MulEq || op == BinOp::DivEq || op == BinOp::RemEq || op == BinOp::BitXorEq
            || op == BinOp::BitAndEq || op == BinOp::BitOrEq || op == BinOp::ShlEq || op
            == BinOp::ShrEq),
        binop_prec(op) != Precedence::Assign ==> prec_rank(binop_prec(op)) > prec_rank(
            Precedence::Range,
        ),
{
}

/// Two range patterns with literal bounds that carry no attributes have
/// the same bounds and the same limits.
pub open spec fn same_lit_range(p: Pat, q: Pat) -> bool {
    &&& p matches Pat::Range(x)
    &&& q matches Pat::Range(y)
    &&& x.limits == y.limits
    &&& (*x.lo matches Expr::Lit(a) && a.attrs@.len() == 0 && (*y.lo matches Expr::Lit(c) && c.attrs@.len() == 0
        && c.lit == a.lit))
    &&& (*x.hi matches Expr::Lit(b) && b.attrs@.len() == 0 && (*y.hi matches Expr::Lit(d) && d.attrs@.len() == 0
        && d.lit == b.lit))
}

/// Reading a printed range pattern gives it back, where its bounds are
/// literals without attributes: the printed tokens are a range pattern of
/// three tokens, so `parse_pat` reads one there, and whatever it reads has
/// the printed pattern's bounds and limits.
pub proof fn law_range_pat_read_after_print(p: Pat, q: Pat)
    requires
        p matches Pat::Range(x) && (*x.lo matches Expr::Lit(a) && a.attrs@.len() == 0) && (*x.hi matches Expr::Lit(
            b,
        ) && b.attrs@.len() == 0),
    ensures
        range_pat_end(tokens_pat(p), 0) == Some(3int),
        range_read(tokens_pat(p), 0, 3, q) ==> same_lit_range(p, q),
{
    if let Pat::Range(x) = p {
        if let Expr::Lit(a) = *x.lo {
            if let Expr::Lit(b) = *x.hi {
                let lim = match x.limits {
                    RangeLimits::HalfOpen => Tok::Punct(Punct::Dot2),
                    RangeLimits::Closed => Tok::Punct(Punct::Dot3),
                };
                assert(tokens_attrs_of_style(a.attrs@, AttrStyle::Outer) =~= Seq::<Tok>::empty());
                assert(tokens_attrs_of_style(b.attrs@, AttrStyle::Outer) =~= Seq::<Tok>::empty());
                assert(tokens_expr(*x.lo) =~= seq![Tok::Lit(a.lit)]);
                assert(tokens_expr(*x.hi) =~= seq![Tok::Lit(b.lit)]);
                assert(tokens_pat(p) =~= seq![Tok::Lit(a.lit), lim, Tok::Lit(b.lit)]);
            }
        }
    }
}

/// A binding by value of a name, with no `ref`, `mut` or subpattern.
pub open spec fn lone_binding(p: Pat) -> bool {
    p matches Pat::Ident(i) && !i.by_ref && !i.mutability && i.subpat is None && i.ident is Ident
}

/// The bindings `v`, printed and separated by commas, are one name token
/// each, at the even positions, with a comma between each two.
proof fn lemma_interleave_bindings(v: Seq<Pat>)
    requires
        forall|k: int| 0 <= k < v.len() ==> lone_binding(#[trigger] v[k]),
    ensures
        ({
            let w = interleave(tokens_pat_seq(v), Punct::Comma);
            &&& w.len() == if v.len() == 0 { 0 } else { 2 * v.len() - 1 }
            &&& forall|k: int| 0 <= k < v.len() ==> (w[2 * k] is Ident && lone_pat_of(#[trigger] w[2 * k]) == v[k])
            &&& forall|k: int| 0 <= k < v.len() - 1 ==> #[trigger] w[2 * k + 1] == Tok::Punct(Punct::Comma)
        }),
    decreases v.len(),
{
    lemma_pat_seq_len(v);
    if v.len() > 0 {
        let u = v.subrange(0, v.len() - 1);
        assert forall|k: int| 0 <= k < u.len() implies lone_binding(#[trigger] u[k]) by {
            assert(u[k] == v[k]);
        }
        lemma_interleave_bindings(u);
        lemma_pat_seq_len(u);
        let last = v[v.len() - 1];
        assert(lone_binding(last));
        if let Pat::Ident(i) = last {
            if let Name::Ident(id) = i.ident {
                assert(tokens_pat(last) =~= seq![Tok::Ident(id.sym)]);
            }
        }
        let s = tokens_pat_seq(v);
        assert(s == tokens_pat_seq(u).push(tokens_pat(last)));
        assert(s.drop_last() =~= tokens_pat_seq(u));
        let w = interleave(s, Punct::Comma);
        let wu = interleave(tokens_pat_seq(u), Punct::Comma);
        if u.len() == 0 {
            assert(w == s[0]);
        } else {
            assert(w == wu + p1(Punct::Comma) + tokens_pat(last));
        }
        assert forall|k: int| 0 <= k < v.len() implies (w[2 * k] is Ident && lone_pat_of(#[trigger] w[2 * k]) == v[k]) by {
            if k < u.len() {
                assert(w[2 * k] == wu[2 * k]);
                assert(u[k] == v[k]);
            }
        }
        assert forall|k: int| 0 <= k < v.len() - 1 implies #[trigger] w[2 * k + 1] == Tok::Punct(Punct::Comma) by {
            if k < u.len() - 1 {
                assert(w[2 * k + 1] == wu[2 * k + 1]);
            }
        }
    }
}

/// Single-token patterns at every other position from `1 + 2 * k` up to
/// the closing bracket at `2 * n` are read to that bracket.
proof fn lemma_walk_bindings(t: Seq<Tok>, n: int, k: int)
    requires
        0 <= k < n,
        t.len() == 2 * n + 1,
        t[2 * n] == Tok::Close(Delim::Bracket),
        forall|q: int| 0 <= q < n ==> (#[trigger] t[1 + 2 * q]) is Ident,
        forall|q: int| 0 <= q < n - 1 ==> #[trigger] t[2 + 2 * q] == Tok::Punct(Punct::Comma),
    ensures
        simple_pats_end(t, 1 + 2 * k) == Some(2 * n),
    decreases n - k,
{
    assert(t[1 + 2 * k] is Ident);
    if k < n - 1 {
        assert(t[2 + 2 * k] == Tok::Punct(Punct::Comma));
        assert(simple_pat_at(t, 1 + 2 * k));
        lemma_walk_bindings(t, n, k + 1);
        assert(1 + 2 * (k + 1) == 1 + 2 * k + 2);
    } else {
        assert(at_group_end(t, 2 * n));
        assert(simple_pat_at(t, 1 + 2 * k));
    }
}

/// Reading a printed slice pattern gives it back, where it is a list of
/// bindings by value with no rest and no trailing comma: the printed
/// tokens are single-token patterns separated by commas between brackets,
/// so `parse_pat` reads a slice there, and whatever it reads has the
/// printed pattern's bindings, in order, and its other parts.
pub proof fn law_slice_pat_read_after_print(p: Pat, q: Pat)
    requires
        p matches Pat::Slice(x) && x.middle is None && !x.dot2 && !x.comma && x.back@.len() == 0 && !x.front_trailing
            && !x.back_trailing && forall|k: int| 0 <= k < x.front@.len() ==> lone_binding(#[trigger] x.front@[k]),
    ensures
        ({
            let t = tokens_pat(p);
            &&& t.len() >= 2
            &&& t[0] == Tok::Open(Delim::Bracket)
            &&& t[t.len() - 1] == Tok::Close(Delim::Bracket)
            &&& simple_pats_end(t, 1) == Some(t.len() - 1)
        }),
        slice_read(tokens_pat(p), 0, tokens_pat(p).len() as int, q) ==> (p matches Pat::Slice(x) && q matches Pat::Slice(
            y,
        ) && y.front@ == x.front@ && y.front_trailing == x.front_trailing && y.middle == x.middle && y.dot2 == x.dot2
            && y.comma == x.comma && y.back@ == x.back@ && y.back_trailing == x.back_trailing),
{
    if let Pat::Slice(x) = p {
        let v = x.front@;
        let n = v.len() as int;
        lemma_interleave_bindings(v);
        lemma_pat_seq_len(v);
        let w = interleave(tokens_pat_seq(v), Punct::Comma);
        assert(comma_list(tokens_pat_seq(v), false) =~= w);
        assert(comma_list(tokens_pat_seq(x.back@), x.back_trailing) =~= Seq::<Tok>::empty());
        let t = tokens_pat(p);
        assert(t =~= seq![Tok::Open(Delim::Bracket)] + w + seq![Tok::Close(Delim::Bracket)]);
        if n == 0 {
            assert(at_group_end(t, 1));
        } else {
            assert forall|q: int| 0 <= q < n implies (#[trigger] t[1 + 2 * q]) is Ident by {
                assert(t[1 + 2 * q] == w[2 * q]);
            }
            assert forall|q: int| 0 <= q < n - 1 implies #[trigger] t[2 + 2 * q] == Tok::Punct(Punct::Comma) by {
                assert(t[2 + 2 * q] == w[2 * q + 1]);
            }
            lemma_walk_bindings(t, n, 0);
        }
        if slice_read(t, 0, t.len() as int, q) {
            if let Pat::Slice(y) = q {
                assert(y.front@.len() == n);
                assert forall|k: int| 0 <= k < n implies #[trigger] y.front@[k] == v[k] by {
                    assert(y.front@[k] == lone_pat_of(t[1 + 2 * k]));
                    assert(t[1 + 2 * k] == w[2 * k]);
                }
                assert(y.front@ =~= v);
                if n > 0 {
                    assert(t[t.len() - 2] == w[2 * n - 2]);
                }
                assert(y.back@ =~= x.back@);
            }
        }
    }
}

/// The precedence levels, from loosest to tightest, are `Any`, `Assign`,
/// `Placement`, `Range`, `Or`, `And`, `Compare`, `BitOr`, `BitXor`,
/// `BitAnd`, `Shift`, `Arithmetic`, `Term` and `Cast`: each binds strictly
/// tighter than the one before it, and they are numbered from 0 to 13 in
/// that order.
pub proof fn law_precedence_order()
    ensures
        prec_rank(Precedence::Any) == 0,
        prec_rank(Precedence::Cast) == 13,
        prec_rank(Precedence::Any) < prec_rank(Precedence::Assign),
        prec_rank(Precedence::Assign) < prec_rank(Precedence::Placement),
        prec_rank(Precedence::Placement) < prec_rank(Precedence::Range),
        prec_rank(Precedence::Range) < prec_rank(Precedence::Or),
        prec_rank(Precedence::Or) < prec_rank(Precedence::And),
        prec_rank(Precedence::And) < prec_rank(Precedence::Compare),
        prec_rank(Precedence::Compare) < prec_rank(Precedence::BitOr),
        prec_rank(Precedence::BitOr) < prec_rank(Precedence::BitXor),
        prec_rank(Precedence::BitXor) < prec_rank(Precedence::BitAnd),
        prec_rank(Precedence::BitAnd) < prec_rank(Precedence::Shift),
        prec_rank(Precedence::Shift) < prec_rank(Precedence::Arithmetic),
        prec_rank(Precedence::Arithmetic) < prec_rank(Precedence::Term),
        prec_rank(Precedence::Term) < prec_rank(Precedence::Cast),
{
}

/// The binary operators bind as in Rust, from tightest to loosest: `*` `/`
/// `%`; `+` `-`; `<<` `>>`; `&`; `^`; `|`; the comparisons; `&&`; `||`;
/// and last the compound assignments, as loosely as `=`. Operators in one
/// group bind equally. Each operator sits at the level named after it, all
/// of them bind looser than a cast and tighter than a range, except the
/// compound assignments.
pub proof fn law_operator_levels()
    ensures
        ({
            let r = |op: BinOp| prec_rank(binop_prec(op));
            &&& r(BinOp::Mul) == r(BinOp::Div) && r(BinOp::Div) == r(BinOp::Rem)
            &&& r(BinOp::Add) == r(BinOp::Sub)
            &&& r(BinOp::Shl) == r(BinOp::Shr)
            &&& r(BinOp::Eq) == r(BinOp::Ne) && r(BinOp::Eq) == r(BinOp::Lt) && r(BinOp::Eq) == r(BinOp::Le)
                && r(BinOp::Eq) == r(BinOp::Gt) && r(BinOp::Eq) == r(BinOp::Ge)
            &&& prec_rank(Precedence::Cast) > r(BinOp::Mul)
            &&& r(BinOp::Mul) > r(BinOp::Add)
            &&& r(BinOp::Add) > r(BinOp::Shl)
            &&& r(BinOp::Shl) > r(BinOp::BitAnd)
            &&& r(BinOp::BitAnd) > r(BinOp::BitXor)
            &&& r(BinOp::BitXor) > r(BinOp::BitOr)
            &&& r(BinOp::BitOr) > r(BinOp::Eq)
            &&& r(BinOp::Eq) > r(BinOp::And)
            &&& r(BinOp::And) > r(BinOp::Or)
            &&& r(BinOp::Or) > prec_rank(Precedence::Range)
            &&& r(BinOp::AddEq) == prec_rank(Precedence::Assign)
        }),
        binop_prec(BinOp::Mul) == Precedence::Term,
        binop_prec(BinOp::Add) == Precedence::Arithmetic,
        binop_prec(BinOp::Shl) == Precedence::Shift,
        binop_prec(BinOp::BitAnd) == Precedence::BitAnd,
        binop_prec(BinOp::BitXor) == Precedence::BitXor,
        binop_prec(BinOp::BitOr) == Precedence::BitOr,
        binop_prec(BinOp::Eq) == Precedence::Compare,
        binop_prec(BinOp::And) == Precedence::And,
        binop_prec(BinOp::Or) == Precedence::Or,
{
}

/// A comparison operator.
pub open spec fn is_comparison(op: BinOp) -> bool {
    op == BinOp::Eq || op == BinOp::Ne || op == BinOp::Lt || op == BinOp::Le || op == BinOp::Gt || op
        == BinOp::Ge
}

/// An arithmetic, shift or bitwise operator.
pub open spec fn is_value_op(op: BinOp) -> bool {
    op == BinOp::Add || op == BinOp::Sub || op == BinOp::Mul || op == BinOp::Div || op == BinOp::Rem || op
        == BinOp::Shl || op == BinOp::Shr || op == BinOp::BitAnd || op == BinOp::BitXor || op == BinOp::BitOr
}

/// In an expression that was read, the operands of an operator are never
/// built from a looser one: an operand of a comparison or of an
/// arithmetic, shift or bitwise operator is not a `&&` or `||` node; an
/// operand of an arithmetic, shift or bitwise operator is not a
/// comparison; and an operand of `&&` is not a `||` node. So
/// `a == b && c == d` is read as `(a == b) && (c == d)` and `x & 1 == 0` as
/// `(x & 1) == 0`.
pub proof fn law_operands_bind_tighter(s: Seq<Tok>, pos: int, end: int, e: Expr)
    requires
        parsed_expr(s, pos, end, e),
        e is Binary,
    ensures
        ({
            let x = e->Binary_0;
            let looser = |o: Expr| o is Binary && (o->Binary_0.op == BinOp::And || o->Binary_0.op == BinOp::Or);
            let cmp = |o: Expr| o is Binary && is_comparison(o->Binary_0.op);
            &&& (is_comparison(x.op) || is_value_op(x.op)) ==> !looser(*x.left) && !looser(*x.right)
            &&& is_value_op(x.op) ==> !cmp(*x.left) && !cmp(*x.right)
            &&& x.op == BinOp::And ==> !(*x.left is Binary && x.left->Binary_0.op == BinOp::Or) && !(*x.right is Binary
                && x.right->Binary_0.op == BinOp::Or)
        }),
{
    law_binary_grouping(s, pos, end, e);
}

/// A match arm whose body is a block-like expression (a block, `unsafe`,
/// `if`, `if let`, `match`, `while`, `while let`, `loop`, `for`, `async`
/// or `try` block) needs no comma before the next arm; any other body
/// needs one.
pub proof fn law_arm_comma(e: Expr)
    ensures
        !requires_comma(e) <==> (e is Block || e is Unsafe || e is If || e is IfLet || e is Match || e is While
            || e is WhileLet || e is Loop || e is ForLoop || e is Async || e is TryBlock),
{
}

} // verus!
