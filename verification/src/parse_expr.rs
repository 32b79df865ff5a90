use vstd::prelude::*;

use crate::ast::{
    AllowBlock, AllowStruct, AttrStyle, Attribute, BinOp, Expr, ExprArray, ExprAssign,
    ExprBinary, ExprBox, ExprBreak, ExprCall, ExprCast, ExprContinue, ExprField, ExprGroup,
    ExprInPlace, ExprIndex, ExprLit, ExprMacro, ExprMethodCall, ExprParen, ExprPath, ExprRange,
    ExprReference, ExprRepeat, ExprReturn, ExprStruct, ExprTry, ExprTuple, ExprType, ExprUnary,
    ExprYield, FieldValue, GenericMethodArgument, Ident, Index, Macro, Member, MethodTurbofish,
    Name, Path, Precedence, RangeLimits, binop_prec, prec_rank,
};
use crate::attrs::{lemma_of_style_tokens, lemma_split_outer, of_style, take_outer};
use crate::parse_util::{
    at_group_end, at_outer_attr, covers, has_lossy, lemma_lossy_widen, lemma_lossy_in, lossy_at, dots_at, err, expect, find_close, copy_range, is_group_end,
    lemma_covers_cat, lemma_covers_delim, lemma_covers_empty, lemma_covers_exact,
    lemma_covers_tok, lemma_covers_and_and, parse_binop, parse_lifetime, parse_member, parse_outer,
    parse_inner, parse_path, parse_range_limits, parse_type, parse_unop, peek_prec,
    peek_precedence, starts_path, starts_path_at, is_dots, path_end, group_end, type_end, binop_of, member_of_tok, unop_of,
    ErrorKind,
    ParseError,
};
use crate::print::{
    all_of_style, comma_list, delimited, interleave, k1, lemma_attrs_of_style_cat,
    lemma_attrs_other_style, lemma_comma_list_one, lemma_expr_seq_len, lemma_expr_seq_push,
    lemma_field_value_seq_len, lemma_field_value_seq_push, lemma_generic_seq_len,
    lemma_generic_seq_push, lemma_interleave_push, maybe, p1, tokens_binop, tokens_expr,
    tokens_expr_body, tokens_expr_seq, tokens_field_value_seq, tokens_generic_seq, tokens_inner,
    tokens_macro, tokens_member, tokens_opt_lifetime, tokens_outer, tokens_path,
    tokens_range_limits, tokens_type, tokens_unop,
};
use crate::token::{peek_is, Delim, Keyword, Lit, Punct, Tok};
use crate::parse_stmt::{
    atom_async, atom_block, atom_closure, atom_for, atom_if, atom_iflet, atom_loop, atom_match,
    atom_try_block, atom_unsafe, atom_while, atom_whilelet, simple_block_end,
};

verus! {

/// A postfix form starts at `i`: a call `(`, a field or method `.`, an
/// index `[` or `?`.
pub open spec fn trailer_at(s: Seq<Tok>, i: int) -> bool {
    0 <= i < s.len() && (s[i] == Tok::Open(Delim::Paren) || s[i] == Tok::Punct(Punct::Dot) || s[i]
        == Tok::Open(Delim::Bracket) || s[i] == Tok::Punct(Punct::Question))
}

/// A block of simple statements stands at `pos` and no postfix form follows
/// it: where it ends.
pub open spec fn block_operand_end(s: Seq<Tok>, pos: int) -> Option<int> {
    if 0 <= pos < s.len() && s[pos] == Tok::Open(Delim::Brace) && simple_block_end(s, pos) is Some && !trailer_at(
        s,
        simple_block_end(s, pos).unwrap(),
    ) {
        simple_block_end(s, pos)
    } else {
        None
    }
}

/// A literal stands alone at `pos`: no postfix form and no operator
/// follows it.
pub open spec fn lone_lit_at(s: Seq<Tok>, pos: int) -> bool {
    0 <= pos < s.len() && s[pos] is Lit && !trailer_at(s, pos + 1) && !continues(
        s,
        pos + 1,
        Precedence::Any,
    )
}

/// Following the left operand of operator nodes without attributes from
/// `e` reaches `lhs`: the operand that reading started from is kept as it
/// was, at the bottom of the left edge.
pub open spec fn left_spine_to(e: Expr, lhs: Expr) -> bool
    decreases e,
{
    e == lhs || match e {
        Expr::Binary(x) => x.attrs@.len() == 0 && left_spine_to(*x.left, lhs),
        Expr::Assign(x) => x.attrs@.len() == 0 && left_spine_to(*x.left, lhs),
        Expr::InPlace(x) => x.attrs@.len() == 0 && left_spine_to(*x.place, lhs),
        Expr::Range(x) => match x.from {
            Some(f) => x.attrs@.len() == 0 && left_spine_to(*f, lhs),
            None => false,
        },
        Expr::Cast(x) => x.attrs@.len() == 0 && left_spine_to(*x.expr, lhs),
        Expr::Type(x) => x.attrs@.len() == 0 && left_spine_to(*x.expr, lhs),
        _ => false,
    }
}

/// A one-token operand read as it stands: a literal, or a name read as a
/// path of one segment, with no attributes.
pub open spec fn plain_operand(e: Expr) -> bool {
    ||| (e matches Expr::Lit(l) && l.attrs@.len() == 0)
    ||| (e matches Expr::Path(p) && p.attrs@.len() == 0 && !p.path.leading_colon && p.path.segments@.len() == 1)
}

/// Binary operators, `=`, ranges and casts over plain operands, with no
/// attributes on any node.
pub open spec fn plain_tree(e: Expr) -> bool
    decreases e,
{
    plain_operand(e) || match e {
        Expr::Binary(x) => x.attrs@.len() == 0 && plain_tree(*x.left) && plain_tree(*x.right),
        Expr::Assign(x) => x.attrs@.len() == 0 && plain_tree(*x.left) && plain_tree(*x.right),
        Expr::Range(x) => x.attrs@.len() == 0 && match x.from {
            Some(f) => plain_tree(*f) && match x.to {
                Some(t) => plain_tree(*t),
                None => true,
            },
            None => false,
        },
        Expr::Cast(x) => x.attrs@.len() == 0 && plain_tree(*x.expr),
        _ => false,
    }
}

/// Like `plain_tree`, where the operand at the bottom of the left edge is
/// `lhs`, whatever it is.
pub open spec fn plain_over(e: Expr, lhs: Expr) -> bool
    decreases e,
{
    e == lhs || match e {
        Expr::Binary(x) => x.attrs@.len() == 0 && plain_over(*x.left, lhs) && plain_tree(*x.right),
        Expr::Assign(x) => x.attrs@.len() == 0 && plain_over(*x.left, lhs) && plain_tree(*x.right),
        Expr::Range(x) => x.attrs@.len() == 0 && match x.from {
            Some(f) => plain_over(*f, lhs) && match x.to {
                Some(t) => plain_tree(*t),
                None => true,
            },
            None => false,
        },
        Expr::Cast(x) => x.attrs@.len() == 0 && plain_over(*x.expr, lhs),
        _ => false,
    }
}

/// Operators over a plain tree make a plain tree.
pub proof fn lemma_plain_over(e: Expr, lhs: Expr)
    requires
        plain_over(e, lhs),
        plain_tree(lhs),
    ensures
        plain_tree(e),
    decreases e,
{
    if e != lhs {
        match e {
            Expr::Binary(x) => lemma_plain_over(*x.left, lhs),
            Expr::Assign(x) => lemma_plain_over(*x.left, lhs),
            Expr::Range(x) => {
                if let Some(f) = x.from {
                    lemma_plain_over(*f, lhs);
                }
            },
            Expr::Cast(x) => lemma_plain_over(*x.expr, lhs),
            _ => {},
        }
    }
}

/// An expression whose outermost node is an operator: a binary operator,
/// an assignment, a placement, a range with a start, or a cast or type
/// ascription.
pub open spec fn operator_expr(e: Expr) -> bool {
    e is Binary || e is Assign || e is InPlace || (e is Range && e->Range_0.from is Some) || e is Cast
        || e is Type
}

/// One postfix form of the simple kinds starts at `i`, and where it ends:
/// `?`, an empty call `()`, a field `.name` or `.0`, a method call without
/// arguments `.name()`, or an index by a single literal `[1]`.
pub open spec fn simple_trailer_end(s: Seq<Tok>, i: int) -> Option<int> {
    if !(0 <= i < s.len()) {
        None
    } else if s[i] == Tok::Punct(Punct::Question) {
        Some(i + 1)
    } else if s[i] == Tok::Open(Delim::Paren) && i + 1 < s.len() && s[i + 1] == Tok::Close(Delim::Paren) {
        Some(i + 2)
    } else if s[i] == Tok::Punct(Punct::Dot) && i + 1 < s.len() && s[i + 1] is Ident && !(i + 2 < s.len() && (s[i + 2]
        == Tok::Punct(Punct::Colon2) || s[i + 2] == Tok::Open(Delim::Paren))) {
        Some(i + 2)
    } else if s[i] == Tok::Punct(Punct::Dot) && i + 1 < s.len() && s[i + 1] is Lit && s[i + 1]->Lit_0 is Int {
        Some(i + 2)
    } else if s[i] == Tok::Punct(Punct::Dot) && i + 3 < s.len() && s[i + 1] is Ident && s[i + 2] == Tok::Open(
        Delim::Paren,
    ) && s[i + 3] == Tok::Close(Delim::Paren) {
        Some(i + 4)
    } else if s[i] == Tok::Open(Delim::Bracket) && lone_lit_at(s, i + 1) && i + 2 < s.len() && s[i + 2] == Tok::Close(
        Delim::Bracket,
    ) {
        Some(i + 3)
    } else {
        None
    }
}

/// `e2` is `e` with the postfix forms read from `s[pos..end]` applied, one
/// node for each, left to right; `ks` holds where each form starts. Each
/// node has no attributes, and its kind is the one its first token calls
/// for: a named member followed by `(` or `::` is a method call, any other
/// member is a field.
pub open spec fn trailed_at(s: Seq<Tok>, pos: int, end: int, ks: Seq<int>, e: Expr, e2: Expr) -> bool
    decreases ks.len(),
{
    if ks.len() == 0 {
        end == pos && e2 == e
    } else {
        let k = ks.last();
        let rest = ks.drop_last();
        &&& pos <= k < end <= s.len()
        &&& match e2 {
            Expr::Call(c) => c.attrs@.len() == 0 && s[k] == Tok::Open(Delim::Paren) && k < end - 1 && s[end - 1]
                == Tok::Close(Delim::Paren) && trailed_at(s, pos, k, rest, e, *c.func),
            Expr::MethodCall(m) => m.attrs@.len() == 0 && k + 2 < end && s[k] == Tok::Punct(Punct::Dot) && s[k + 1]
                == Tok::Ident(m.method.sym) && (m.turbofish is None <==> s[k + 2] == Tok::Open(Delim::Paren)) && (
            m.turbofish is Some ==> s[k + 2] == Tok::Punct(Punct::Colon2)) && s[end - 1] == Tok::Close(Delim::Paren)
                && trailed_at(s, pos, k, rest, e, *m.receiver),
            Expr::Field(f) => f.attrs@.len() == 0 && end == k + 2 && s[k] == Tok::Punct(Punct::Dot) && member_of_tok(
                s[k + 1],
            ) == Some(f.member) && (f.member is Named ==> !(end < s.len() && (s[end] == Tok::Punct(Punct::Colon2)
                || s[end] == Tok::Open(Delim::Paren)))) && trailed_at(s, pos, k, rest, e, *f.base),
            Expr::Index(x) => x.attrs@.len() == 0 && s[k] == Tok::Open(Delim::Bracket) && k < end - 1 && s[end - 1]
                == Tok::Close(Delim::Bracket) && trailed_at(s, pos, k, rest, e, *x.expr),
            Expr::Try(t) => t.attrs@.len() == 0 && end == k + 1 && s[k] == Tok::Punct(Punct::Question) && trailed_at(
                s,
                pos,
                k,
                rest,
                e,
                *t.expr,
            ),
            _ => false,
        }
    }
}

/// `e2` is `e` with the postfix forms read from `s[pos..end]` applied, as
/// `trailed_at` says, for some list of their starts.
#[verifier::opaque]
pub open spec fn trailed(s: Seq<Tok>, pos: int, end: int, e: Expr, e2: Expr) -> bool {
    exists|ks: Seq<int>| #[trigger] trailed_at(s, pos, end, ks, e, e2)
}

/// From `i` on stand postfix forms of the simple kinds, one after the other,
/// and then no other postfix form.
pub open spec fn trailers_ok(s: Seq<Tok>, i: int) -> bool
    decreases s.len() - i,
{
    if !trailer_at(s, i) {
        true
    } else {
        match simple_trailer_end(s, i) {
            Some(e) => if i < e <= s.len() {
                trailers_ok(s, e)
            } else {
                false
            },
            None => false,
        }
    }
}

/// Where those postfix forms end.
pub open spec fn trailers_end(s: Seq<Tok>, i: int) -> int
    decreases s.len() - i,
{
    if !trailer_at(s, i) {
        i
    } else {
        match simple_trailer_end(s, i) {
            Some(e) => if i < e <= s.len() {
                trailers_end(s, e)
            } else {
                i
            },
            None => i,
        }
    }
}

/// Where the fields of a struct literal that start at `i` end, at the
/// closing `}`, for the simple forms: `name`, `name: e` with `e` as in
/// `chain_ok`, separated by commas, and a last `..e`.
pub open spec fn simple_fields_end(s: Seq<Tok>, i: int) -> Option<int>
    decreases s.len() - i,
{
    if !(0 <= i < s.len()) {
        None
    } else if s[i] == Tok::Close(Delim::Brace) {
        Some(i)
    } else if s[i] is Ident && i + 1 < s.len() && s[i + 1] == Tok::Punct(Punct::Colon) {
        if simple_operand(s, i + 2, true) && chain_ok(s, i + 3, true) {
            let c = chain_stop(s, i + 3, Precedence::Any);
            if i < c < s.len() && s[c] == Tok::Punct(Punct::Comma) {
                simple_fields_end(s, c + 1)
            } else if i < c < s.len() && s[c] == Tok::Close(Delim::Brace) {
                Some(c)
            } else {
                None
            }
        } else {
            None
        }
    } else if s[i] is Ident && i + 1 < s.len() && s[i + 1] == Tok::Punct(Punct::Comma) {
        simple_fields_end(s, i + 2)
    } else if s[i] is Ident && i + 1 < s.len() && s[i + 1] == Tok::Close(Delim::Brace) {
        Some(i + 1)
    } else if s[i] == Tok::Punct(Punct::Dot2) && simple_operand(s, i + 1, true) && chain_ok(s, i + 2, true) {
        let m = chain_stop(s, i + 2, Precedence::Any);
        if 0 <= m < s.len() && s[m] == Tok::Close(Delim::Brace) {
            Some(m)
        } else {
            None
        }
    } else {
        None
    }
}

/// A method name with a turbofish stands at `pos` (`.m::`) that is not
/// followed by a well-formed `<..>` and `(`.
pub open spec fn bad_turbofish_at(s: Seq<Tok>, pos: int) -> bool {
    &&& 0 <= pos && pos + 2 < s.len()
    &&& s[pos] == Tok::Punct(Punct::Dot)
    &&& s[pos + 1] is Ident
    &&& s[pos + 2] == Tok::Punct(Punct::Colon2)
    &&& !(pos + 3 < s.len() && s[pos + 3] == Tok::Punct(Punct::Lt) && types_until_gt(s, pos + 4) is Some
        && types_until_gt(s, pos + 4).unwrap() < s.len() && s[types_until_gt(s, pos + 4).unwrap()] == Tok::Open(
        Delim::Paren,
    ))
}

/// A single-token operand stands at `i`: a literal, or an identifier that
/// no `::`, `!` or (where struct literals are allowed) `{` follows; and no
/// postfix form follows it.
pub open spec fn simple_operand(s: Seq<Tok>, i: int, allow_struct: bool) -> bool {
    &&& 0 <= i < s.len()
    &&& (s[i] is Lit || (s[i] is Ident && !(i + 1 < s.len() && (s[i + 1] == Tok::Punct(Punct::Colon2)
        || s[i + 1] == Tok::Punct(Punct::Bang) || (allow_struct && s[i + 1] == Tok::Open(Delim::Brace))))))
    &&& !trailer_at(s, i + 1)
}

/// A one-token atom stands at `i`: a literal, or a name that no `::`, `!`
/// or (where struct literals are allowed) `{` follows.
pub open spec fn atom_operand(s: Seq<Tok>, i: int, allow_struct: bool) -> bool {
    &&& 0 <= i < s.len()
    &&& (s[i] is Lit || (s[i] is Ident && !(i + 1 < s.len() && (s[i + 1] == Tok::Punct(Punct::Colon2)
        || s[i + 1] == Tok::Punct(Punct::Bang) || (allow_struct && s[i + 1] == Tok::Open(Delim::Brace))))))
}

/// A binary operator or `=` stands at `i`.
pub open spec fn chain_op(s: Seq<Tok>, i: int) -> bool {
    0 <= i < s.len() && (binop_of(s[i]) is Some || s[i] == Tok::Punct(Punct::Eq))
}

/// `as` and a one-name type stand at `i`.
pub open spec fn cast_step(s: Seq<Tok>, i: int) -> bool {
    0 <= i && i + 1 < s.len() && s[i] == Tok::Kw(Keyword::As) && s[i + 1] is Ident && !(i + 2 < s.len()
        && s[i + 2] == Tok::Punct(Punct::Colon2))
}

/// From `i` on the tokens are a chain of binary operators, `=`, ranges and
/// casts to one-name types, each operator followed by a single-token
/// operand (a range may have none), and no other operator follows the
/// chain.
pub open spec fn chain_ok(s: Seq<Tok>, i: int, allow_struct: bool) -> bool
    decreases s.len() - i,
{
    if chain_op(s, i) {
        simple_operand(s, i + 1, allow_struct) && chain_ok(s, i + 2, allow_struct)
    } else if cast_step(s, i) {
        chain_ok(s, i + 2, allow_struct)
    } else if 0 <= i < s.len() && is_dots(s[i]) && no_operand(s, i + 1, !allow_struct) {
        chain_ok(s, i + 1, allow_struct)
    } else if 0 <= i < s.len() && is_dots(s[i]) {
        simple_operand(s, i + 1, allow_struct) && chain_ok(s, i + 2, allow_struct)
    } else {
        !continues(s, i, Precedence::Any)
    }
}

/// Where reading such a chain with precedence at least `base` stops: at
/// the first operator whose level is below `base`, or after the chain.
pub open spec fn chain_stop(s: Seq<Tok>, i: int, base: Precedence) -> int
    decreases s.len() - i,
{
    if (chain_op(s, i) || cast_step(s, i)) && continues(s, i, base) && i + 2 <= s.len() {
        chain_stop(s, i + 2, base)
    } else if 0 <= i < s.len() && is_dots(s[i]) && continues(s, i, base) && no_operand(s, i + 1, true) {
        chain_stop(s, i + 1, base)
    } else if 0 <= i < s.len() && is_dots(s[i]) && continues(s, i, base) && i + 2 <= s.len() {
        chain_stop(s, i + 2, base)
    } else {
        i
    }
}

/// The rest of a chain is a chain.
pub proof fn lemma_chain_stop_ok(s: Seq<Tok>, i: int, st: bool, base: Precedence)
    requires
        chain_ok(s, i, st),
    ensures
        chain_ok(s, chain_stop(s, i, base), st),
        i <= chain_stop(s, i, base),
    decreases s.len() - i,
{
    if (chain_op(s, i) || cast_step(s, i)) && continues(s, i, base) && i + 2 <= s.len() {
        lemma_chain_stop_ok(s, i + 2, st, base);
    } else if 0 <= i < s.len() && is_dots(s[i]) && continues(s, i, base) && no_operand(s, i + 1, true) {
        lemma_chain_stop_ok(s, i + 1, st, base);
    } else if 0 <= i < s.len() && is_dots(s[i]) && continues(s, i, base) && i + 2 <= s.len() {
        lemma_chain_stop_ok(s, i + 2, st, base);
    }
}

/// Stopping at a higher level first and then at a lower one stops where
/// the lower level alone stops.
pub proof fn lemma_chain_stop_twice(s: Seq<Tok>, i: int, high: Precedence, base: Precedence)
    requires
        prec_rank(high) >= prec_rank(base),
    ensures
        chain_stop(s, chain_stop(s, i, high), base) == chain_stop(s, i, base),
    decreases s.len() - i,
{
    if (chain_op(s, i) || cast_step(s, i)) && continues(s, i, high) && i + 2 <= s.len() {
        lemma_chain_stop_twice(s, i + 2, high, base);
    } else if 0 <= i < s.len() && is_dots(s[i]) && continues(s, i, high) && no_operand(s, i + 1, true) {
        lemma_chain_stop_twice(s, i + 1, high, base);
    } else if 0 <= i < s.len() && is_dots(s[i]) && continues(s, i, high) && i + 2 <= s.len() {
        lemma_chain_stop_twice(s, i + 2, high, base);
    }
}

/// How tightly the outermost operator of an expression binds: the rank of
/// its precedence level, 14 for prefix operators and 15 for everything
/// that stands whole (literals, paths, groups, calls, prefix ranges...).
pub open spec fn expr_rank(e: Expr) -> int {
    match e {
        Expr::Binary(x) => prec_rank(binop_prec(x.op)),
        Expr::Assign(_) | Expr::AssignOp(_) => 1,
        Expr::InPlace(_) => 2,
        Expr::Range(x) => if x.from is Some {
            3
        } else {
            15
        },
        Expr::Cast(_) | Expr::Type(_) => 13,
        Expr::Unary(_) | Expr::Reference(_) | Expr::Box(_) => 14,
        _ => 15,
    }
}

/// The operators along the outer structure of an expression respect their
/// precedence: each operand binds at least as tightly as its operator;
/// operators of one level group to the left, except assignments, which
/// group to the right; prefix operators and postfix forms (calls, method
/// calls, fields, indexing, `?`) bind tighter than any binary operator.
pub open spec fn spine_ok(e: Expr) -> bool
    decreases e,
{
    match e {
        Expr::Binary(x) => {
            let p = prec_rank(binop_prec(x.op));
            &&& (expr_rank(*x.left) > p || (expr_rank(*x.left) == p && p != 1))
            &&& (expr_rank(*x.right) > p || (p == 1 && expr_rank(*x.right) == 1))
            &&& spine_ok(*x.left)
            &&& spine_ok(*x.right)
        },
        Expr::Assign(x) => expr_rank(*x.left) > 1 && spine_ok(*x.left) && spine_ok(*x.right),
        Expr::InPlace(x) => expr_rank(*x.place) >= 2 && expr_rank(*x.value) > 2 && spine_ok(
            *x.place,
        ) && spine_ok(*x.value),
        Expr::Range(x) => match x.from {
            Some(f) => expr_rank(*f) >= 3 && spine_ok(*f) && match x.to {
                Some(t) => expr_rank(*t) > 3 && spine_ok(*t),
                None => true,
            },
            None => match x.to {
                Some(t) => spine_ok(*t),
                None => true,
            },
        },
        Expr::Cast(x) => expr_rank(*x.expr) >= 13 && spine_ok(*x.expr),
        Expr::Type(x) => expr_rank(*x.expr) >= 13 && spine_ok(*x.expr),
        Expr::Unary(x) => expr_rank(*x.expr) >= 14 && spine_ok(*x.expr),
        Expr::Reference(x) => expr_rank(*x.expr) >= 14 && spine_ok(*x.expr),
        Expr::Box(x) => expr_rank(*x.expr) >= 14 && spine_ok(*x.expr),
        Expr::Call(x) => expr_rank(*x.func) == 15 && spine_ok(*x.func),
        Expr::MethodCall(x) => expr_rank(*x.receiver) == 15 && spine_ok(*x.receiver),
        Expr::Field(x) => expr_rank(*x.base) == 15 && spine_ok(*x.base),
        Expr::Index(x) => expr_rank(*x.expr) == 15 && spine_ok(*x.expr),
        Expr::Try(x) => expr_rank(*x.expr) == 15 && spine_ok(*x.expr),
        _ => true,
    }
}

/// Whether an expression parsed with precedence at least `base` goes on at
/// `pos`: an operator follows there whose level is not below `base`.
pub open spec fn continues(s: Seq<Tok>, pos: int, base: Precedence) -> bool {
    prec_rank(peek_prec(s, pos)) != 0 && prec_rank(peek_prec(s, pos)) >= prec_rank(base)
}

/// `e` is what `s[pos..end]` parses to as a whole expression: it prints as
/// those tokens and its operators respect their precedence.
pub open spec fn parsed_expr(s: Seq<Tok>, pos: int, end: int, e: Expr) -> bool {
    &&& 0 <= pos < end <= s.len()
    &&& covers(s, pos, end, tokens_expr(e))
    &&& !(e is Verbatim)
    &&& spine_ok(e)
    &&& (tokens_inner(e.attrs()) == Seq::<Tok>::empty() || has_lossy(s, pos, end))
    &&& (at_outer_attr(s, pos) || tokens_outer(e.attrs()) == Seq::<Tok>::empty())
}

/// As `parsed_expr`, for an expression that stands whole.
pub open spec fn parsed_atom(s: Seq<Tok>, pos: int, end: int, e: Expr) -> bool {
    &&& parsed_expr(s, pos, end, e)
    &&& expr_rank(e) == 15
}

pub proof fn lemma_no_attrs(e: Expr)
    requires
        e.attrs() == Seq::<Attribute>::empty(),
        !(e is Verbatim),
    ensures
        tokens_expr(e) == tokens_expr_body(e),
{
    assert(Seq::<Tok>::empty() + tokens_expr_body(e) =~= tokens_expr_body(e));
}

pub proof fn lemma_peek_prec_bound(s: Seq<Tok>, pos: int)
    ensures
        0 <= prec_rank(peek_prec(s, pos)) <= 13,
{
}

/// Reads an expression: `ambiguous_expr` with struct literals and blocks
/// allowed.
pub(crate) fn expr_full(toks: &Vec<Tok>, pos: usize) -> (r: Result<(Expr, usize), ParseError>)
    requires
        pos <= toks.len(),
    ensures
        r matches Ok((e, end)) ==> parsed_expr(toks@, pos as int, end as int, e) && !continues(toks@, end as int, Precedence::Any),
        pos < toks@.len() && !expr_start(toks@[pos as int]) ==> r == Err::<(Expr, usize), ParseError>(
            ParseError { pos, kind: ErrorKind::Unexpected },
        ),
        lone_lit_at(toks@, pos as int) ==> (r matches Ok((e, end)) && end == pos + 1 && e is Lit
            && e->Lit_0.lit == toks@[pos as int]->Lit_0),
        simple_operand(toks@, pos as int, true) && chain_ok(toks@, pos + 1, true) ==> (r matches Ok((e, end)) && end
            == chain_stop(toks@, pos + 1, Precedence::Any) && (e is Lit || e is Path || operator_expr(e)) && plain_tree(e)),
    decreases toks@.len() - pos, 20int,
{
    ambiguous_expr(toks, pos, AllowStruct(true), AllowBlock(true))
}

/// Reads an expression in which a struct literal may not appear at the top,
/// as before the block of an `if`.
pub(crate) fn expr_no_struct(toks: &Vec<Tok>, pos: usize) -> (r: Result<(Expr, usize), ParseError>)
    requires
        pos <= toks.len(),
    ensures
        r matches Ok((e, end)) ==> parsed_expr(toks@, pos as int, end as int, e) && !continues(toks@, end as int, Precedence::Any) && !(e is Struct),
        lone_lit_at(toks@, pos as int) ==> (r matches Ok((e, end)) && end == pos + 1 && e is Lit
            && e->Lit_0.lit == toks@[pos as int]->Lit_0),
        simple_operand(toks@, pos as int, false) && chain_ok(toks@, pos + 1, false) ==> (r matches Ok((e, end)) && end
            == chain_stop(toks@, pos + 1, Precedence::Any) && plain_tree(e)),
    decreases toks@.len() - pos, 20int,
{
    ambiguous_expr(toks, pos, AllowStruct(false), AllowBlock(true))
}

/// Reads an expression: a prefix or postfix form followed by all the
/// binary operators, assignments, ranges and casts that continue it.
pub(crate) fn ambiguous_expr(toks: &Vec<Tok>, pos: usize, allow_struct: AllowStruct, allow_block: AllowBlock) -> (r: Result<(Expr, usize), ParseError>)
    requires
        pos <= toks.len(),
    ensures
        r matches Ok((e, end)) ==> parsed_expr(toks@, pos as int, end as int, e) && !continues(toks@, end as int, Precedence::Any) && (!allow_struct.0 ==> !(e is Struct)),
        pos < toks@.len() && !expr_start(toks@[pos as int]) ==> r == Err::<(Expr, usize), ParseError>(
            ParseError { pos, kind: ErrorKind::Unexpected },
        ),
        lone_lit_at(toks@, pos as int) ==> (r matches Ok((e, end)) && end == pos + 1 && e is Lit
            && e->Lit_0.lit == toks@[pos as int]->Lit_0),
        simple_operand(toks@, pos as int, allow_struct.0) && chain_ok(toks@, pos + 1, allow_struct.0) ==> (r matches Ok((
            e,
            end,
        )) && end == chain_stop(toks@, pos + 1, Precedence::Any) && (e is Lit || e is Path || operator_expr(e))
            && plain_tree(e)),
        allow_block.0 && block_operand_end(toks@, pos as int) is Some && !continues(
            toks@,
            block_operand_end(toks@, pos as int).unwrap(),
            Precedence::Any,
        ) ==> (r matches Ok((e, end)) && Some(end as int) == block_operand_end(toks@, pos as int)),
    decreases toks@.len() - pos, 19int,
{
    let (lhs, i) = unary_expr(toks, pos, allow_struct, allow_block)?;
    proof {
        lemma_peek_prec_bound(toks@, i as int);
    }
    let (e, end) = parse_expr(toks, i, lhs, allow_struct, allow_block, Precedence::Any, Ghost(pos as int))?;
    proof {
        if simple_operand(toks@, pos as int, allow_struct.0) && chain_ok(toks@, pos + 1, allow_struct.0) {
            lemma_plain_over(e, lhs);
        }
    }
    Ok((e, end))
}

/// Continues the expression `lhs`, which prints as `toks[start..pos]`, with
/// the operators at `pos` whose level is at least `base`, by precedence
/// climbing.
#[verifier::rlimit(60)]
#[verifier::spinoff_prover]
pub(crate) fn parse_expr(
    toks: &Vec<Tok>,
    pos: usize,
    lhs: Expr,
    allow_struct: AllowStruct,
    allow_block: AllowBlock,
    base: Precedence,
    Ghost(start): Ghost<int>,
) -> (r: Result<(Expr, usize), ParseError>)
    requires
        pos <= toks.len(),
        0 <= start < pos,
        parsed_expr(toks@, start, pos as int, lhs),
        prec_rank(peek_prec(toks@, pos as int)) <= expr_rank(lhs),
        expr_rank(lhs) == 1 ==> peek_prec(toks@, pos as int) == Precedence::Any,
        !allow_struct.0 ==> !(lhs is Struct),
    ensures
        r matches Ok((e, end)) ==> {
            &&& (!allow_struct.0 ==> !(e is Struct))
            &&& pos <= end <= toks.len()
            &&& parsed_expr(toks@, start, end as int, e)
            &&& !continues(toks@, end as int, base)
            &&& prec_rank(peek_prec(toks@, end as int)) <= expr_rank(e)
            &&& (expr_rank(e) == 1 ==> peek_prec(toks@, end as int) == Precedence::Any)
            &&& ((end == pos && e == lhs) || (end > pos && expr_rank(e) >= prec_rank(base) && operator_expr(e)))
        },
        !continues(toks@, pos as int, base) ==> r == Ok::<(Expr, usize), ParseError>((lhs, pos)),
        chain_ok(toks@, pos as int, allow_struct.0) ==> (r matches Ok((e, end)) && end == chain_stop(
            toks@,
            pos as int,
            base,
        )),
        r matches Ok((e, end)) ==> left_spine_to(e, lhs),
        chain_ok(toks@, pos as int, allow_struct.0) ==> (r matches Ok((e, end)) && plain_over(e, lhs)),
    decreases toks@.len() - pos, 18int,
{
    let ghost lhs0 = lhs;
    let mut lhs = lhs;
    let mut i = pos;
    loop
        invariant
            pos <= i <= toks.len(),
            0 <= start < pos,
            parsed_expr(toks@, start, i as int, lhs),
            prec_rank(peek_prec(toks@, i as int)) <= expr_rank(lhs),
            expr_rank(lhs) == 1 ==> peek_prec(toks@, i as int) == Precedence::Any,
            (i == pos && lhs == lhs0) || (i > pos && expr_rank(lhs) >= prec_rank(base) && operator_expr(lhs)),
            !allow_struct.0 ==> !(lhs is Struct),
            !continues(toks@, pos as int, base) ==> i == pos && lhs == lhs0,
            left_spine_to(lhs, lhs0),
            chain_ok(toks@, pos as int, allow_struct.0) ==> plain_over(lhs, lhs0),
            chain_ok(toks@, pos as int, allow_struct.0) ==> chain_ok(toks@, i as int, allow_struct.0) && chain_stop(
                toks@,
                pos as int,
                base,
            ) == chain_stop(toks@, i as int, base),
        ensures
            !allow_struct.0 ==> !(lhs is Struct),
            pos <= i <= toks.len(),
            parsed_expr(toks@, start, i as int, lhs),
            prec_rank(peek_prec(toks@, i as int)) <= expr_rank(lhs),
            expr_rank(lhs) == 1 ==> peek_prec(toks@, i as int) == Precedence::Any,
            (i == pos && lhs == lhs0) || (i > pos && expr_rank(lhs) >= prec_rank(base) && operator_expr(lhs)),
            !continues(toks@, i as int, base),
            !continues(toks@, pos as int, base) ==> i == pos && lhs == lhs0,
            chain_ok(toks@, pos as int, allow_struct.0) ==> i == chain_stop(toks@, pos as int, base),
            left_spine_to(lhs, lhs0),
            chain_ok(toks@, pos as int, allow_struct.0) ==> plain_over(lhs, lhs0),
        decreases toks@.len() - i,
    {
        let ghost lhs_toks = tokens_expr(lhs);
        let binop = match parse_binop(toks, i) {
            Some(op) => if Precedence::of(&op).rank() >= base.rank() {
                Some(op)
            } else {
                None
            },
            None => None,
        };
        if let Some(op) = binop {
            let precedence = Precedence::of(&op);
            let j = i + 1;
            let (mut rhs, mut k) = unary_expr(toks, j, allow_struct, allow_block)?;
            loop
                invariant
                    pos <= i,
                    j == i + 1,
                    continues(toks@, pos as int, base),
                    prec_rank(peek_prec(toks@, i as int)) >= prec_rank(base),
                    chain_ok(toks@, pos as int, allow_struct.0) ==> chain_ok(toks@, i as int, allow_struct.0) && chain_stop(
                        toks@,
                        pos as int,
                        base,
                    ) == chain_stop(toks@, i as int, base),
                    chain_ok(toks@, pos as int, allow_struct.0) ==> chain_ok(toks@, k as int, allow_struct.0) && chain_stop(
                        toks@,
                        k as int,
                        base,
                    ) == chain_stop(toks@, i as int, base),
                    j < k <= toks.len(),
                    parsed_expr(toks@, j as int, k as int, rhs),
                    chain_ok(toks@, pos as int, allow_struct.0) ==> plain_tree(rhs),
                    !allow_struct.0 ==> !(rhs is Struct),
                    precedence == binop_prec(op),
                    peek_prec(toks@, i as int) == precedence,
                    expr_rank(rhs) > prec_rank(precedence) || (precedence == Precedence::Assign && expr_rank(rhs) == 1),
                    prec_rank(peek_prec(toks@, k as int)) <= expr_rank(rhs),
                    expr_rank(rhs) == 1 ==> peek_prec(toks@, k as int) == Precedence::Any,
                ensures
                    j < k <= toks.len(),
                    chain_ok(toks@, pos as int, allow_struct.0) ==> chain_ok(toks@, i as int, allow_struct.0) && chain_stop(
                        toks@,
                        pos as int,
                        base,
                    ) == chain_stop(toks@, i as int, base),
                    chain_ok(toks@, pos as int, allow_struct.0) ==> chain_ok(toks@, k as int, allow_struct.0) && chain_stop(
                        toks@,
                        k as int,
                        base,
                    ) == chain_stop(toks@, i as int, base),
                    parsed_expr(toks@, j as int, k as int, rhs),
                    chain_ok(toks@, pos as int, allow_struct.0) ==> plain_tree(rhs),
                    !allow_struct.0 ==> !(rhs is Struct),
                    expr_rank(rhs) > prec_rank(precedence) || (precedence == Precedence::Assign && expr_rank(rhs) == 1),
                    prec_rank(peek_prec(toks@, k as int)) <= prec_rank(precedence),
                    precedence == Precedence::Assign ==> peek_prec(toks@, k as int) == Precedence::Any,
                decreases toks@.len() - k,
            {
                let next = peek_precedence(toks, k);
                if next.rank() > precedence.rank() || next.rank() == precedence.rank() && precedence == Precedence::Assign {
                    let (r2, k2) = parse_expr(toks, k, rhs, allow_struct, allow_block, next, Ghost(j as int))?;
                    proof {
                        if chain_ok(toks@, k as int, allow_struct.0) && prec_rank(next) >= prec_rank(base) {
                            lemma_chain_stop_ok(toks@, k as int, allow_struct.0, next);
                            lemma_chain_stop_twice(toks@, k as int, next, base);
                        }
                    }
                    proof {
                        lemma_peek_prec_bound(toks@, k as int);
                    }
                    proof {
                        if chain_ok(toks@, pos as int, allow_struct.0) {
                            lemma_plain_over(r2, rhs);
                        }
                    }
                    rhs = r2;
                    k = k2;
                } else {
                    break;
                }
            }
            proof {
                lemma_covers_cat(toks@, start, i as int, j as int, lhs_toks, tokens_binop(op));
                lemma_covers_cat(toks@, start, j as int, k as int, lhs_toks + tokens_binop(op), tokens_expr(rhs));
            }
            lhs = Expr::Binary(ExprBinary { attrs: Vec::new(), left: Box::new(lhs), op, right: Box::new(rhs) });
            proof {
                lemma_no_attrs(lhs);
            }
            i = k;
        } else if base.rank() <= 1 && i < toks.len() && toks[i] == Tok::Punct(Punct::Eq) {
            let j = i + 1;
            let (mut rhs, mut k) = unary_expr(toks, j, allow_struct, allow_block)?;
            loop
                invariant
                    pos <= i,
                    j == i + 1,
                    continues(toks@, pos as int, base),
                    prec_rank(peek_prec(toks@, i as int)) >= prec_rank(base),
                    chain_ok(toks@, pos as int, allow_struct.0) ==> chain_ok(toks@, i as int, allow_struct.0) && chain_stop(
                        toks@,
                        pos as int,
                        base,
                    ) == chain_stop(toks@, i as int, base),
                    chain_ok(toks@, pos as int, allow_struct.0) ==> chain_ok(toks@, k as int, allow_struct.0) && chain_stop(
                        toks@,
                        k as int,
                        base,
                    ) == chain_stop(toks@, i as int, base),
                    j < k <= toks.len(),
                    parsed_expr(toks@, j as int, k as int, rhs),
                    chain_ok(toks@, pos as int, allow_struct.0) ==> plain_tree(rhs),
                    !allow_struct.0 ==> !(rhs is Struct),
                    expr_rank(rhs) >= 1,
                    peek_prec(toks@, i as int) == Precedence::Assign,
                    prec_rank(peek_prec(toks@, k as int)) <= expr_rank(rhs),
                    expr_rank(rhs) == 1 ==> peek_prec(toks@, k as int) == Precedence::Any,
                ensures
                    j < k <= toks.len(),
                    chain_ok(toks@, pos as int, allow_struct.0) ==> chain_ok(toks@, i as int, allow_struct.0) && chain_stop(
                        toks@,
                        pos as int,
                        base,
                    ) == chain_stop(toks@, i as int, base),
                    chain_ok(toks@, pos as int, allow_struct.0) ==> chain_ok(toks@, k as int, allow_struct.0) && chain_stop(
                        toks@,
                        k as int,
                        base,
                    ) == chain_stop(toks@, i as int, base),
                    parsed_expr(toks@, j as int, k as int, rhs),
                    chain_ok(toks@, pos as int, allow_struct.0) ==> plain_tree(rhs),
                    !allow_struct.0 ==> !(rhs is Struct),
                    expr_rank(rhs) >= 1,
                    peek_prec(toks@, k as int) == Precedence::Any,
                decreases toks@.len() - k,
            {
                let next = peek_precedence(toks, k);
                if next.rank() >= 1 {
                    let (r2, k2) = parse_expr(toks, k, rhs, allow_struct, allow_block, next, Ghost(j as int))?;
                    proof {
                        if chain_ok(toks@, k as int, allow_struct.0) && prec_rank(next) >= prec_rank(base) {
                            lemma_chain_stop_ok(toks@, k as int, allow_struct.0, next);
                            lemma_chain_stop_twice(toks@, k as int, next, base);
                        }
                    }
                    proof {
                        if chain_ok(toks@, pos as int, allow_struct.0) {
                            lemma_plain_over(r2, rhs);
                        }
                    }
                    rhs = r2;
                    k = k2;
                } else {
                    break;
                }
            }
            proof {
                lemma_covers_tok(toks@, i as int, Tok::Punct(Punct::Eq));
                lemma_covers_cat(toks@, start, i as int, j as int, lhs_toks, p1(Punct::Eq));
                lemma_covers_cat(toks@, start, j as int, k as int, lhs_toks + p1(Punct::Eq), tokens_expr(rhs));
            }
            lhs = Expr::Assign(ExprAssign { attrs: Vec::new(), left: Box::new(lhs), right: Box::new(rhs) });
            proof {
                lemma_no_attrs(lhs);
            }
            i = k;
        } else if base.rank() <= 2 && i < toks.len() && toks[i] == Tok::Punct(Punct::LArrow) {
            let j = i + 1;
            let (mut rhs, mut k) = unary_expr(toks, j, allow_struct, allow_block)?;
            loop
                invariant
                    pos <= i,
                    j == i + 1,
                    continues(toks@, pos as int, base),
                    prec_rank(peek_prec(toks@, i as int)) >= prec_rank(base),
                    chain_ok(toks@, pos as int, allow_struct.0) ==> chain_ok(toks@, i as int, allow_struct.0) && chain_stop(
                        toks@,
                        pos as int,
                        base,
                    ) == chain_stop(toks@, i as int, base),
                    chain_ok(toks@, pos as int, allow_struct.0) ==> chain_ok(toks@, k as int, allow_struct.0) && chain_stop(
                        toks@,
                        k as int,
                        base,
                    ) == chain_stop(toks@, i as int, base),
                    j < k <= toks.len(),
                    parsed_expr(toks@, j as int, k as int, rhs),
                    chain_ok(toks@, pos as int, allow_struct.0) ==> plain_tree(rhs),
                    !allow_struct.0 ==> !(rhs is Struct),
                    expr_rank(rhs) > 2,
                    peek_prec(toks@, i as int) == Precedence::Placement,
                    prec_rank(peek_prec(toks@, k as int)) <= expr_rank(rhs),
                ensures
                    j < k <= toks.len(),
                    chain_ok(toks@, pos as int, allow_struct.0) ==> chain_ok(toks@, i as int, allow_struct.0) && chain_stop(
                        toks@,
                        pos as int,
                        base,
                    ) == chain_stop(toks@, i as int, base),
                    chain_ok(toks@, pos as int, allow_struct.0) ==> chain_ok(toks@, k as int, allow_struct.0) && chain_stop(
                        toks@,
                        k as int,
                        base,
                    ) == chain_stop(toks@, i as int, base),
                    parsed_expr(toks@, j as int, k as int, rhs),
                    chain_ok(toks@, pos as int, allow_struct.0) ==> plain_tree(rhs),
                    !allow_struct.0 ==> !(rhs is Struct),
                    expr_rank(rhs) > 2,
                    prec_rank(peek_prec(toks@, k as int)) <= 2,
                decreases toks@.len() - k,
            {
                let next = peek_precedence(toks, k);
                if next.rank() > 2 {
                    let (r2, k2) = parse_expr(toks, k, rhs, allow_struct, allow_block, next, Ghost(j as int))?;
                    proof {
                        if chain_ok(toks@, k as int, allow_struct.0) && prec_rank(next) >= prec_rank(base) {
                            lemma_chain_stop_ok(toks@, k as int, allow_struct.0, next);
                            lemma_chain_stop_twice(toks@, k as int, next, base);
                        }
                    }
                    proof {
                        if chain_ok(toks@, pos as int, allow_struct.0) {
                            lemma_plain_over(r2, rhs);
                        }
                    }
                    rhs = r2;
                    k = k2;
                } else {
                    break;
                }
            }
            proof {
                lemma_covers_tok(toks@, i as int, Tok::Punct(Punct::LArrow));
                lemma_covers_cat(toks@, start, i as int, j as int, lhs_toks, p1(Punct::LArrow));
                lemma_covers_cat(toks@, start, j as int, k as int, lhs_toks + p1(Punct::LArrow), tokens_expr(rhs));
            }
            lhs = Expr::InPlace(ExprInPlace { attrs: Vec::new(), place: Box::new(lhs), value: Box::new(rhs) });
            proof {
                lemma_no_attrs(lhs);
            }
            i = k;
        } else if base.rank() <= 3 && dots_at(toks, i) {
            let (limits, j) = parse_range_limits(toks, i)?;
            let ghost head = lhs_toks + tokens_range_limits(limits);
            proof {
                lemma_covers_cat(toks@, start, i as int, j as int, lhs_toks, tokens_range_limits(limits));
            }
            let to_none = is_group_end(toks, j) || toks[j] == Tok::Punct(Punct::Comma)
                || toks[j] == Tok::Punct(Punct::Semi)
                || !allow_struct.0 && toks[j] == Tok::Open(Delim::Brace);
            if to_none {
                lhs = Expr::Range(ExprRange { attrs: Vec::new(), from: Some(Box::new(lhs)), limits, to: None });
                proof {
                    lemma_no_attrs(lhs);
                    assert(head + Seq::empty() =~= head);
                }
                i = j;
            } else {
                let (mut rhs, mut k) = unary_expr(toks, j, allow_struct, AllowBlock(allow_struct.0))?;
                loop
                    invariant
                        pos <= i,
                        j == i + 1,
                        continues(toks@, pos as int, base),
                        prec_rank(peek_prec(toks@, i as int)) >= prec_rank(base),
                        chain_ok(toks@, pos as int, allow_struct.0) ==> chain_ok(toks@, i as int, allow_struct.0) && chain_stop(
                            toks@,
                            pos as int,
                            base,
                        ) == chain_stop(toks@, i as int, base),
                        chain_ok(toks@, pos as int, allow_struct.0) ==> chain_ok(toks@, k as int, allow_struct.0) && chain_stop(
                            toks@,
                            k as int,
                            base,
                        ) == chain_stop(toks@, i as int, base),
                        j < k <= toks.len(),
                        parsed_expr(toks@, j as int, k as int, rhs),
                        chain_ok(toks@, pos as int, allow_struct.0) ==> plain_tree(rhs),
                        !allow_struct.0 ==> !(rhs is Struct),
                    !allow_struct.0 ==> !(rhs is Struct),
                        expr_rank(rhs) > 3,
                        peek_prec(toks@, i as int) == Precedence::Range,
                        prec_rank(peek_prec(toks@, k as int)) <= expr_rank(rhs),
                    ensures
                        j < k <= toks.len(),
                        chain_ok(toks@, pos as int, allow_struct.0) ==> chain_ok(toks@, i as int, allow_struct.0) && chain_stop(
                            toks@,
                            pos as int,
                            base,
                        ) == chain_stop(toks@, i as int, base),
                        chain_ok(toks@, pos as int, allow_struct.0) ==> chain_ok(toks@, k as int, allow_struct.0) && chain_stop(
                            toks@,
                            k as int,
                            base,
                        ) == chain_stop(toks@, i as int, base),
                        parsed_expr(toks@, j as int, k as int, rhs),
                        chain_ok(toks@, pos as int, allow_struct.0) ==> plain_tree(rhs),
                        !allow_struct.0 ==> !(rhs is Struct),
                    !allow_struct.0 ==> !(rhs is Struct),
                        expr_rank(rhs) > 3,
                        prec_rank(peek_prec(toks@, k as int)) <= 3,
                    decreases toks@.len() - k,
                {
                    let next = peek_precedence(toks, k);
                    if next.rank() > 3 {
                        let (r2, k2) = parse_expr(toks, k, rhs, allow_struct, AllowBlock(allow_struct.0), next, Ghost(j as int))?;
                        proof {
                            if chain_ok(toks@, k as int, allow_struct.0) && prec_rank(next) >= prec_rank(base) {
                                lemma_chain_stop_ok(toks@, k as int, allow_struct.0, next);
                                lemma_chain_stop_twice(toks@, k as int, next, base);
                            }
                        }
                        proof {
                            if chain_ok(toks@, pos as int, allow_struct.0) {
                                lemma_plain_over(r2, rhs);
                            }
                        }
                        rhs = r2;
                        k = k2;
                    } else {
                        break;
                    }
                }
                proof {
                    lemma_covers_cat(toks@, start, j as int, k as int, head, tokens_expr(rhs));
                }
                lhs = Expr::Range(ExprRange { attrs: Vec::new(), from: Some(Box::new(lhs)), limits, to: Some(Box::new(rhs)) });
                proof {
                    lemma_no_attrs(lhs);
                }
                i = k;
            }
        } else if i < toks.len() && (toks[i] == Tok::Kw(Keyword::As) || toks[i] == Tok::Punct(Punct::Colon)) {
            let is_cast = toks[i] == Tok::Kw(Keyword::As);
            let (ty, k) = parse_type(toks, i + 1)?;
            proof {
                lemma_covers_tok(toks@, i as int, toks@[i as int]);
                lemma_covers_cat(toks@, start, i as int, i + 1, lhs_toks, seq![toks@[i as int]]);
                lemma_covers_cat(toks@, start, i + 1, k as int, lhs_toks + seq![toks@[i as int]], tokens_type(ty));
            }
            if is_cast {
                lhs = Expr::Cast(ExprCast { attrs: Vec::new(), expr: Box::new(lhs), ty: Box::new(ty) });
            } else {
                lhs = Expr::Type(ExprType { attrs: Vec::new(), expr: Box::new(lhs), ty: Box::new(ty) });
            }
            proof {
                lemma_no_attrs(lhs);
                lemma_peek_prec_bound(toks@, k as int);
            }
            i = k;
        } else {
            break;
        }
    }
    Ok((lhs, i))
}


/// Attributes read as outer ones followed by inner ones print as those two
/// parts.
pub proof fn lemma_join_attrs(o: Seq<Attribute>, n: Seq<Attribute>)
    requires
        all_of_style(o, AttrStyle::Outer),
        all_of_style(n, AttrStyle::Inner),
    ensures
        tokens_outer(o + n) == tokens_outer(o),
        tokens_inner(o + n) == tokens_inner(n),
{
    lemma_attrs_of_style_cat(o, n, AttrStyle::Outer);
    lemma_attrs_of_style_cat(o, n, AttrStyle::Inner);
    lemma_attrs_other_style(o, AttrStyle::Outer, AttrStyle::Inner);
    lemma_attrs_other_style(n, AttrStyle::Inner, AttrStyle::Outer);
    assert(tokens_outer(o) + Seq::<Tok>::empty() =~= tokens_outer(o));
    assert(Seq::<Tok>::empty() + tokens_inner(n) =~= tokens_inner(n));
}

/// The outer attributes followed by the inner ones.
pub(crate) fn join_attrs(outer: Vec<Attribute>, inner: Vec<Attribute>) -> (r: Vec<Attribute>)
    ensures
        r@ == outer@ + inner@,
{
    let mut r = outer;
    let mut rest = inner;
    r.append(&mut rest);
    r
}

/// Replacing the attributes of an expression changes neither its shape nor
/// its rank.
pub proof fn lemma_spine_with_attrs(e: Expr, a: Vec<Attribute>)
    ensures
        spine_ok(e.with_attrs(a)) == spine_ok(e),
        expr_rank(e.with_attrs(a)) == expr_rank(e),
        (e.with_attrs(a) is Verbatim) == (e is Verbatim),
        (e.with_attrs(a) is Struct) == (e is Struct),
{
}

/// An expression whose outer attributes print as `s[pos..i]` and whose
/// remaining tokens print as `s[i..end]` prints as `s[pos..end]`.
pub proof fn lemma_expr_parts(s: Seq<Tok>, pos: int, i: int, end: int, e: Expr)
    requires
        !(e is Verbatim),
        covers(s, pos, i, tokens_outer(e.attrs())),
        covers(s, i, end, tokens_expr_body(e)),
    ensures
        covers(s, pos, end, tokens_expr(e)),
{
    lemma_covers_cat(s, pos, i, end, tokens_outer(e.attrs()), tokens_expr_body(e));
}

/// Finishes an atom whose attributes are the outer ones `o`, read from
/// `s[pos..i]`, followed by the inner ones `n`, read somewhere in
/// `s[b..c]`, and whose remaining tokens print as `s[i..end]`.
pub proof fn lemma_atom_done(s: Seq<Tok>, pos: int, i: int, end: int, e: Expr, o: Seq<Attribute>, n: Seq<Attribute>, b: int, c: int)
    requires
        outer_read(s, pos, i, o),
        e.attrs() == o + n,
        all_of_style(n, AttrStyle::Inner),
        n.len() > 0 ==> has_lossy(s, b, c),
        i <= b,
        c <= end,
        i < end <= s.len(),
        covers(s, i, end, tokens_expr_body(e)),
        !(e is Verbatim),
        spine_ok(e),
        expr_rank(e) == 15,
    ensures
        atom_parts(s, pos, i, end, e),
{
    lemma_join_attrs(o, n);
    lemma_expr_parts(s, pos, i, end, e);
    if n.len() > 0 {
        lemma_lossy_widen(s, pos, b, c, end);
    }
}

/// The outer attributes of an atom have been read: they print as
/// `s[pos..i]`, and a token follows them.
pub open spec fn outer_read(s: Seq<Tok>, pos: int, i: int, attrs: Seq<Attribute>) -> bool {
    &&& 0 <= pos <= i < s.len()
    &&& covers(s, pos, i, tokens_outer(attrs))
    &&& all_of_style(attrs, AttrStyle::Outer)
    &&& tokens_inner(attrs) == Seq::<Tok>::empty()
    &&& (at_outer_attr(s, pos) || attrs.len() == 0)
}

/// An atom read from `s[pos..end]`: its outer attributes print as
/// `s[pos..i]` and the rest of it as `s[i..end]`.
pub open spec fn atom_parts(s: Seq<Tok>, pos: int, i: int, end: int, e: Expr) -> bool {
    &&& parsed_atom(s, pos, end, e)
    &&& pos <= i <= end
    &&& covers(s, pos, i, tokens_outer(e.attrs()))
    &&& covers(s, i, end, tokens_expr_body(e))
}

/// Reads expressions separated by commas up to the end of the current
/// group; a comma may follow the last one.
pub(crate) fn parse_expr_list(toks: &Vec<Tok>, pos: usize) -> (r: Result<(Vec<Expr>, bool, usize), ParseError>)
    requires
        pos <= toks.len(),
    ensures
        r matches Ok((v, trailing, end)) ==> {
            &&& pos <= end <= toks.len()
            &&& at_group_end(toks@, end as int)
            &&& covers(toks@, pos as int, end as int, comma_list(tokens_expr_seq(v@), trailing))
        },
        at_group_end(toks@, pos as int) ==> (r matches Ok((v, trailing, end)) && v@.len() == 0 && !trailing && end == pos),
        lone_lit_at(toks@, pos as int) && at_group_end(toks@, pos + 1) ==> (r matches Ok((v, trailing, end)) && v@.len() == 1
            && v@[0] is Lit && !trailing && end == pos + 1),
    decreases toks@.len() - pos, 21int,
{
    let mut i = pos;
    let mut elems: Vec<Expr> = Vec::new();
    let mut trailing = false;
    proof {
        lemma_covers_empty(toks@, pos as int);
    }
    loop
        invariant_except_break
            pos <= i <= toks.len(),
            !trailing,
            covers(
                toks@,
                pos as int,
                i as int,
                if elems@.len() == 0 {
                    Seq::empty()
                } else {
                    interleave(tokens_expr_seq(elems@), Punct::Comma) + p1(Punct::Comma)
                },
            ),
            at_group_end(toks@, pos as int) ==> i == pos && elems@.len() == 0,
            lone_lit_at(toks@, pos as int) && at_group_end(toks@, pos + 1) ==> (i == pos && elems@.len() == 0),
        ensures
            pos <= i <= toks.len(),
            at_group_end(toks@, i as int),
            at_group_end(toks@, pos as int) ==> i == pos && elems@.len() == 0 && !trailing,
            lone_lit_at(toks@, pos as int) && at_group_end(toks@, pos + 1) ==> (i == pos + 1 && elems@.len() == 1
                && elems@[0] is Lit && !trailing),
            covers(toks@, pos as int, i as int, comma_list(tokens_expr_seq(elems@), trailing)),
        decreases toks@.len() - i,
    {
        if is_group_end(toks, i) {
            trailing = elems.len() > 0;
            proof {
                lemma_expr_seq_len(elems@);
                if elems@.len() == 0 {
                    assert(comma_list(tokens_expr_seq(elems@), trailing) =~= Seq::<Tok>::empty());
                }
            }
            break;
        }
        let ghost old_elems = elems@;
        let ghost before = if old_elems.len() == 0 {
            Seq::<Tok>::empty()
        } else {
            interleave(tokens_expr_seq(old_elems), Punct::Comma) + p1(Punct::Comma)
        };
        let (e, j) = expr_full(toks, i)?;
        proof {
            lemma_expr_seq_push(old_elems, e);
            lemma_expr_seq_len(old_elems);
            lemma_interleave_push(tokens_expr_seq(old_elems), tokens_expr(e), Punct::Comma);
            lemma_covers_cat(toks@, pos as int, i as int, j as int, before, tokens_expr(e));
            if old_elems.len() == 0 {
                assert(before + tokens_expr(e) =~= tokens_expr(e));
            }
        }
        elems.push(e);
        i = j;
        assert(covers(toks@, pos as int, i as int, interleave(tokens_expr_seq(elems@), Punct::Comma)));
        if is_group_end(toks, i) {
            proof {
                assert(comma_list(tokens_expr_seq(elems@), trailing) =~= interleave(
                    tokens_expr_seq(elems@),
                    Punct::Comma,
                ));
            }
            break;
        }
        let n = expect(toks, i, Tok::Punct(Punct::Comma))?;
        proof {
            lemma_covers_tok(toks@, i as int, Tok::Punct(Punct::Comma));
            lemma_covers_cat(
                toks@,
                pos as int,
                i as int,
                n as int,
                interleave(tokens_expr_seq(elems@), Punct::Comma),
                p1(Punct::Comma),
            );
        }
        i = n;
    }
    Ok((elems, trailing, i))
}

/// Reads a prefix form: `&`, `&mut`, `box`, `*`, `!` or `-` before an
/// operand that is itself read here, or else a postfix form.
#[verifier::spinoff_prover]
pub(crate) fn unary_expr(toks: &Vec<Tok>, pos: usize, allow_struct: AllowStruct, allow_block: AllowBlock) -> (r: Result<(Expr, usize), ParseError>)
    requires
        pos <= toks.len(),
    ensures
        r matches Ok((e, end)) ==> parsed_expr(toks@, pos as int, end as int, e) && expr_rank(e) >= 14 && (!allow_struct.0 ==> !(e is Struct)),
        pos < toks@.len() && !expr_start(toks@[pos as int]) ==> r == Err::<(Expr, usize), ParseError>(
            ParseError { pos, kind: ErrorKind::Unexpected },
        ),
        pos < toks@.len() && toks@[pos as int] is Lit && !trailer_at(toks@, pos + 1) ==> (r matches Ok((e, end))
            && end == pos + 1 && e is Lit && e->Lit_0.lit == toks@[pos as int]->Lit_0),
        simple_operand(toks@, pos as int, allow_struct.0) ==> (r matches Ok((e, end)) && end == pos + 1
            && plain_operand(e)),
        allow_block.0 && block_operand_end(toks@, pos as int) is Some ==> (r matches Ok((e, end)) && Some(end as int)
            == block_operand_end(toks@, pos as int)),
        atom_operand(toks@, pos as int, allow_struct.0) && trailers_ok(toks@, pos + 1) ==> (r matches Ok((e, end))
            && end == trailers_end(toks@, pos + 1)),
        pos < toks@.len() && unop_of(toks@[pos as int]) is Some && atom_operand(toks@, pos + 1, allow_struct.0)
            && trailers_ok(toks@, pos + 2) ==> (r matches Ok((e, end)) && e is Unary && e->Unary_0.op == unop_of(
            toks@[pos as int],
        ).unwrap() && end == trailers_end(toks@, pos + 2)),
    decreases toks@.len() - pos, 17int,
{
    let (attrs, i) = parse_outer(toks, pos)?;
    if i < toks.len() && (toks[i] == Tok::Punct(Punct::And) || toks[i] == Tok::Punct(Punct::AndAnd) || toks[i]
        == Tok::Kw(Keyword::Box) || parse_unop(toks, i).is_some()) {
        if toks[i] == Tok::Punct(Punct::And) {
            let mut j = i + 1;
            let mutability = j < toks.len() && toks[j] == Tok::Kw(Keyword::Mut);
            proof {
                lemma_covers_tok(toks@, i as int, Tok::Punct(Punct::And));
            }
            if mutability {
                proof {
                    lemma_covers_tok(toks@, j as int, Tok::Kw(Keyword::Mut));
                    lemma_covers_cat(toks@, i as int, j as int, j + 1, p1(Punct::And), k1(Keyword::Mut));
                }
                j = j + 1;
            } else {
                proof {
                    lemma_covers_empty(toks@, j as int);
                    lemma_covers_cat(toks@, i as int, j as int, j as int, p1(Punct::And), Seq::empty());
                }
            }
            let ghost head = p1(Punct::And) + maybe(mutability, k1(Keyword::Mut));
            assert(covers(toks@, i as int, j as int, head));
            let (x, end) = unary_expr(toks, j, allow_struct, AllowBlock(true))?;
            proof {
                lemma_covers_cat(toks@, i as int, j as int, end as int, head, tokens_expr(x));
            }
            let e = Expr::Reference(ExprReference { attrs, mutability, expr: Box::new(x) });
            proof {
                lemma_expr_parts(toks@, pos as int, i as int, end as int, e);
            }
            Ok((e, end))
        } else if toks[i] == Tok::Punct(Punct::AndAnd) {
            let mut j = i + 1;
            let mutability = j < toks.len() && toks[j] == Tok::Kw(Keyword::Mut);
            proof {
                lemma_covers_and_and(toks@, i as int);
                lemma_covers_empty(toks@, j as int);
            }
            if mutability {
                proof {
                    lemma_covers_tok(toks@, j as int, Tok::Kw(Keyword::Mut));
                }
                j = j + 1;
            }
            let ghost two = seq![Tok::Punct(Punct::And), Tok::Punct(Punct::And)];
            let ghost head = two + maybe(mutability, k1(Keyword::Mut));
            proof {
                lemma_covers_cat(toks@, i as int, i + 1, j as int, two, maybe(mutability, k1(Keyword::Mut)));
            }
            let (x, end) = unary_expr(toks, j, allow_struct, AllowBlock(true))?;
            proof {
                lemma_covers_cat(toks@, i as int, j as int, end as int, head, tokens_expr(x));
            }
            let inner = Expr::Reference(ExprReference { attrs: Vec::new(), mutability, expr: Box::new(x) });
            let e = Expr::Reference(ExprReference { attrs, mutability: false, expr: Box::new(inner) });
            proof {
                assert(tokens_expr(inner) =~= p1(Punct::And) + maybe(mutability, k1(Keyword::Mut)) + tokens_expr(x));
                assert(tokens_expr_body(e) =~= head + tokens_expr(x));
                assert(spine_ok(inner));
                assert(spine_ok(e));
                assert(expr_rank(e) == 14);
                lemma_expr_parts(toks@, pos as int, i as int, end as int, e);
            }
            Ok((e, end))
        } else if toks[i] == Tok::Kw(Keyword::Box) {
            let (x, end) = unary_expr(toks, i + 1, allow_struct, AllowBlock(true))?;
            proof {
                lemma_covers_tok(toks@, i as int, Tok::Kw(Keyword::Box));
                lemma_covers_cat(toks@, i as int, i + 1, end as int, k1(Keyword::Box), tokens_expr(x));
            }
            let e = Expr::Box(ExprBox { attrs, expr: Box::new(x) });
            proof {
                lemma_expr_parts(toks@, pos as int, i as int, end as int, e);
            }
            Ok((e, end))
        } else {
            let op = parse_unop(toks, i).unwrap();
            let (x, end) = unary_expr(toks, i + 1, allow_struct, AllowBlock(true))?;
            proof {
                lemma_covers_cat(toks@, i as int, i + 1, end as int, tokens_unop(op), tokens_expr(x));
            }
            let e = Expr::Unary(ExprUnary { attrs, op, expr: Box::new(x) });
            proof {
                lemma_expr_parts(toks@, pos as int, i as int, end as int, e);
            }
            Ok((e, end))
        }
    } else {
        trailer_expr(toks, pos, allow_struct, allow_block)
    }
}

/// Taking the outer attributes off an atom leaves an atom that prints as
/// the tokens after them.
pub proof fn lemma_take_outer(s: Seq<Tok>, pos: int, i: int, a_end: int, e0: Expr, inner_v: Vec<Attribute>)
    requires
        atom_parts(s, pos, i, a_end, e0),
        inner_v@ == of_style(e0.attrs(), AttrStyle::Inner),
    ensures
        covers(s, i, a_end, tokens_expr(e0.with_attrs(inner_v))),
        spine_ok(e0.with_attrs(inner_v)),
        expr_rank(e0.with_attrs(inner_v)) == 15,
        !(e0.with_attrs(inner_v) is Verbatim),
        tokens_outer(e0.with_attrs(inner_v).attrs()) == Seq::<Tok>::empty(),
        tokens_inner(of_style(e0.attrs(), AttrStyle::Outer)) == Seq::<Tok>::empty(),
        tokens_outer(of_style(e0.attrs(), AttrStyle::Outer)) == tokens_outer(e0.attrs()),
{
    let all = e0.attrs();
    crate::attrs::lemma_with_attrs_twice(e0, inner_v, inner_v);
    lemma_of_style_tokens(all, AttrStyle::Inner, AttrStyle::Outer);
    lemma_of_style_tokens(all, AttrStyle::Outer, AttrStyle::Inner);
    crate::attrs::lemma_body_attrs(e0, inner_v);
    assert(tokens_expr(e0.with_attrs(inner_v)) =~= tokens_expr_body(e0));
    lemma_spine_with_attrs(e0, inner_v);
}

/// Putting the outer attributes back in front of what the postfix forms
/// made of an atom.
pub proof fn lemma_put_outer(s: Seq<Tok>, pos: int, mid: int, end: int, e: Expr, o: Seq<Attribute>, v: Vec<Attribute>)
    requires
        covers(s, pos, mid, tokens_outer(o)),
        covers(s, mid, end, tokens_expr(e)),
        tokens_outer(e.attrs()) == Seq::<Tok>::empty(),
        tokens_inner(o) == Seq::<Tok>::empty(),
        v@ == o + e.attrs(),
        !(e is Verbatim),
    ensures
        covers(s, pos, end, tokens_expr(e.with_attrs(v))),
        tokens_inner(e.with_attrs(v).attrs()) == tokens_inner(e.attrs()),
        tokens_outer(e.with_attrs(v).attrs()) == tokens_outer(o),
        spine_ok(e.with_attrs(v)) == spine_ok(e),
        expr_rank(e.with_attrs(v)) == expr_rank(e),
        !(e.with_attrs(v) is Verbatim),
{
    crate::attrs::lemma_with_attrs_twice(e, v, v);
    lemma_attrs_of_style_cat(o, e.attrs(), AttrStyle::Outer);
    lemma_attrs_of_style_cat(o, e.attrs(), AttrStyle::Inner);
    assert(tokens_outer(v@) =~= tokens_outer(o));
    assert(tokens_inner(v@) =~= tokens_inner(e.attrs()));
    crate::attrs::lemma_body_attrs(e, v);
    lemma_spine_with_attrs(e, v);
    assert(tokens_expr(e) =~= tokens_expr_body(e));
    lemma_covers_cat(s, pos, mid, end, tokens_outer(o), tokens_expr(e));
}

/// Reads an atom and the calls, method calls, fields, indexing and `?`
/// that follow it. The atom's outer attributes end up on the whole.
pub(crate) fn trailer_expr(toks: &Vec<Tok>, pos: usize, allow_struct: AllowStruct, allow_block: AllowBlock) -> (r: Result<(Expr, usize), ParseError>)
    requires
        pos <= toks.len(),
    ensures
        r matches Ok((e, end)) ==> parsed_atom(toks@, pos as int, end as int, e) && (!allow_struct.0 ==> !(e is Struct)),
        pos < toks@.len() && !expr_start(toks@[pos as int]) ==> r == Err::<(Expr, usize), ParseError>(
            ParseError { pos, kind: ErrorKind::Unexpected },
        ),
        pos < toks@.len() && toks@[pos as int] is Lit && !trailer_at(toks@, pos + 1) ==> (r matches Ok((e, end))
            && end == pos + 1 && e is Lit && e->Lit_0.lit == toks@[pos as int]->Lit_0),
        simple_operand(toks@, pos as int, allow_struct.0) ==> (r matches Ok((e, end)) && end == pos + 1
            && plain_operand(e)),
        allow_block.0 && block_operand_end(toks@, pos as int) is Some ==> (r matches Ok((e, end)) && Some(end as int)
            == block_operand_end(toks@, pos as int)),
        atom_operand(toks@, pos as int, allow_struct.0) && trailers_ok(toks@, pos + 1) ==> (r matches Ok((e, end))
            && end == trailers_end(toks@, pos + 1)),
    decreases toks@.len() - pos, 16int,
{
    let (e, i, a_end) = atom_expr(toks, pos, allow_struct, allow_block)?;
    with_trailers(toks, pos, i, e, a_end)
}

/// Applies the postfix forms that follow the atom `e`, read from
/// `toks[pos..a_end]` with its outer attributes in `toks[pos..i]`; those
/// attributes end up on the whole.
#[verifier::rlimit(100)]
#[verifier::spinoff_prover]
pub(crate) fn with_trailers(toks: &Vec<Tok>, pos: usize, i: usize, e: Expr, a_end: usize) -> (r: Result<(Expr, usize), ParseError>)
    requires
        atom_parts(toks@, pos as int, i as int, a_end as int, e),
    ensures
        r matches Ok((e2, end)) ==> parsed_atom(toks@, pos as int, end as int, e2) && (e2 is Struct ==> e is Struct),
        !trailer_at(toks@, a_end as int) ==> (r matches Ok((e2, end)) && end == a_end && (e is Lit
            ==> e2 is Lit && e2->Lit_0.lit == e->Lit_0.lit) && (e is Path ==> e2 is Path && e2->Path_0.path == e->Path_0.path)),
        trailers_ok(toks@, a_end as int) ==> (r matches Ok((e2, end)) && end == trailers_end(toks@, a_end as int)),
        r matches Ok((e2, end)) ==> (end > a_end ==> e2.attrs() == of_style(e.attrs(), AttrStyle::Outer)) && (end
            == a_end ==> e2.attrs() == of_style(e.attrs(), AttrStyle::Outer) + of_style(e.attrs(), AttrStyle::Inner)),
    decreases toks@.len() - pos, 15int,
{
    let mut e = e;
    let ghost e0 = e;
    let empty: Vec<Attribute> = Vec::new();
    let ghost empty_g = empty;
    let mut attrs = e.replace_attrs(empty);
    let outer_attrs = take_outer(&mut attrs);
    let ghost inner_v = attrs;
    e.replace_attrs(attrs);
    let ghost mid = i as int;
    proof {
        crate::attrs::lemma_with_attrs_twice(e0, empty_g, inner_v);
        lemma_take_outer(toks@, pos as int, i as int, a_end as int, e0, inner_v);
    }
    let (mut e2, end) = trailer_helper(toks, a_end, e, Ghost(mid))?;
    let ghost e2g = e2;
    let empty2: Vec<Attribute> = Vec::new();
    let ghost empty2_g = empty2;
    let mut rest = e2.replace_attrs(empty2);
    let mut joined = outer_attrs;
    joined.append(&mut rest);
    let ghost final_v = joined;
    e2.replace_attrs(joined);
    proof {
        crate::attrs::lemma_with_attrs_twice(e2g, empty2_g, final_v);
        crate::attrs::lemma_with_attrs_twice(e0, inner_v, inner_v);
        lemma_put_outer(toks@, pos as int, mid, end as int, e2g, of_style(e0.attrs(), AttrStyle::Outer), final_v);
        if tokens_inner(e2g.attrs()) != Seq::<Tok>::empty() {
            assert(e2g.attrs() == inner_v@);
            lemma_of_style_tokens(e0.attrs(), AttrStyle::Inner, AttrStyle::Outer);
            lemma_lossy_widen(toks@, pos as int, pos as int, a_end as int, end as int);
        }
        lemma_spine_with_attrs(e0, inner_v);
        lemma_spine_with_attrs(e2g, final_v);

        assert(e2.attrs() == final_v@);
        assert(final_v@ == of_style(e0.attrs(), AttrStyle::Outer) + e2g.attrs());
        if end > a_end {
            assert(e2g.attrs() =~= Seq::<Attribute>::empty());
            assert(final_v@ =~= of_style(e0.attrs(), AttrStyle::Outer));
        } else {
            assert(e2g.attrs() == of_style(e0.attrs(), AttrStyle::Inner));
        }
    }
    Ok((e2, end))
}

/// Where the types separated by commas that start at `i` end together with
/// the closing `>`; a comma may follow the last type.
pub open spec fn types_until_gt(s: Seq<Tok>, i: int) -> Option<int>
    decreases s.len() - i,
{
    if i < 0 || i >= s.len() {
        None
    } else if s[i] == Tok::Punct(Punct::Gt) {
        Some(i + 1)
    } else {
        match type_end(s, i) {
            Some(e) => if i < e < s.len() {
                if s[e] == Tok::Punct(Punct::Gt) {
                    Some(e + 1)
                } else if s[e] == Tok::Punct(Punct::Comma) {
                    types_until_gt(s, e + 1)
                } else {
                    None
                }
            } else {
                None
            },
            None => None,
        }
    }
}

/// Reads the turbofish of a method call, `::<A, B>`, starting at its `::`.
fn parse_turbofish(toks: &Vec<Tok>, pos: usize) -> (r: Result<(MethodTurbofish, usize), ParseError>)
    requires
        pos <= toks.len(),
    ensures
        r matches Ok((t, end)) ==> pos < end <= toks.len() && covers(
            toks@,
            pos as int,
            end as int,
            p1(Punct::Colon2) + p1(Punct::Lt) + comma_list(tokens_generic_seq(t.args@), t.trailing)
                + p1(Punct::Gt),
        ),
        r is Ok <==> (pos + 1 < toks@.len() && toks@[pos as int] == Tok::Punct(Punct::Colon2) && toks@[pos + 1]
            == Tok::Punct(Punct::Lt) && types_until_gt(toks@, pos + 2) is Some),
        r matches Ok((t, end)) ==> types_until_gt(toks@, pos + 2) == Some(end as int),
{
    let lt = expect(toks, pos, Tok::Punct(Punct::Colon2))?;
    let start = expect(toks, lt, Tok::Punct(Punct::Lt))?;
    proof {
        lemma_covers_tok(toks@, pos as int, Tok::Punct(Punct::Colon2));
        lemma_covers_tok(toks@, lt as int, Tok::Punct(Punct::Lt));
        lemma_covers_cat(toks@, pos as int, lt as int, start as int, p1(Punct::Colon2), p1(Punct::Lt));
        lemma_covers_empty(toks@, start as int);
    }
    let mut i = start;
    let mut args: Vec<GenericMethodArgument> = Vec::new();
    let mut trailing = false;
    loop
        invariant_except_break
            start <= i <= toks.len(),
            !trailing,
            types_until_gt(toks@, start as int) == types_until_gt(toks@, i as int),
            start == pos + 2,
            pos + 1 < toks@.len() && toks@[pos as int] == Tok::Punct(Punct::Colon2) && toks@[pos + 1]
                == Tok::Punct(Punct::Lt),
            covers(
                toks@,
                start as int,
                i as int,
                if args@.len() == 0 {
                    Seq::empty()
                } else {
                    interleave(tokens_generic_seq(args@), Punct::Comma) + p1(Punct::Comma)
                },
            ),
        ensures
            start <= i <= toks.len(),
            covers(toks@, start as int, i as int, comma_list(tokens_generic_seq(args@), trailing)),
            i < toks@.len() && toks@[i as int] == Tok::Punct(Punct::Gt),
            types_until_gt(toks@, start as int) == Some(i + 1),
        decreases toks@.len() - i,
    {
        if i < toks.len() && toks[i] == Tok::Punct(Punct::Gt) {
            trailing = args.len() > 0;
            proof {
                lemma_generic_seq_len(args@);
                if args@.len() == 0 {
                    assert(comma_list(tokens_generic_seq(args@), trailing) =~= Seq::<Tok>::empty());
                }
            }
            break;
        }
        let ghost old_args = args@;
        let ghost before = if old_args.len() == 0 {
            Seq::<Tok>::empty()
        } else {
            interleave(tokens_generic_seq(old_args), Punct::Comma) + p1(Punct::Comma)
        };
        let (ty, j) = parse_type(toks, i)?;
        let a = GenericMethodArgument::Type(ty);
        proof {
            lemma_generic_seq_push(old_args, a);
            lemma_generic_seq_len(old_args);
            lemma_interleave_push(tokens_generic_seq(old_args), tokens_type(ty), Punct::Comma);
            lemma_covers_cat(toks@, start as int, i as int, j as int, before, tokens_type(ty));
            if old_args.len() == 0 {
                assert(before + tokens_type(ty) =~= tokens_type(ty));
            }
        }
        args.push(a);
        i = j;
        assert(covers(toks@, start as int, i as int, interleave(tokens_generic_seq(args@), Punct::Comma)));
        if i < toks.len() && toks[i] == Tok::Punct(Punct::Gt) {
            proof {
                assert(comma_list(tokens_generic_seq(args@), trailing) =~= interleave(
                    tokens_generic_seq(args@),
                    Punct::Comma,
                ));
            }
            break;
        }
        let n = expect(toks, i, Tok::Punct(Punct::Comma))?;
        proof {
            lemma_covers_tok(toks@, i as int, Tok::Punct(Punct::Comma));
            lemma_covers_cat(
                toks@,
                start as int,
                i as int,
                n as int,
                interleave(tokens_generic_seq(args@), Punct::Comma),
                p1(Punct::Comma),
            );
        }
        i = n;
    }
    let end = expect(toks, i, Tok::Punct(Punct::Gt))?;
    let t = MethodTurbofish { args, trailing };
    proof {
        lemma_covers_tok(toks@, i as int, Tok::Punct(Punct::Gt));
        lemma_covers_cat(toks@, pos as int, start as int, i as int, p1(Punct::Colon2) + p1(Punct::Lt), comma_list(tokens_generic_seq(t.args@), t.trailing));
        lemma_covers_cat(toks@, pos as int, i as int, end as int, p1(Punct::Colon2) + p1(Punct::Lt) + comma_list(tokens_generic_seq(t.args@), t.trailing), p1(Punct::Gt));
    }
    Ok((t, end))
}

/// Applies the postfix forms that follow `e`: calls `(..)`, method calls
/// `.m(..)` and `.m::<..>(..)`, fields `.f` and `.0`, indexing `[..]` and
/// `?`, as long as one follows.
#[verifier::rlimit(60)]
#[verifier::spinoff_prover]
pub(crate) fn trailer_helper(toks: &Vec<Tok>, pos: usize, e: Expr, Ghost(start): Ghost<int>) -> (r: Result<(Expr, usize), ParseError>)
    requires
        0 <= start <= pos <= toks.len(),
        covers(toks@, start, pos as int, tokens_expr(e)),
        !(e is Verbatim),
        spine_ok(e),
        expr_rank(e) == 15,
    ensures
        r matches Ok((e2, end)) ==> {
            &&& pos <= end <= toks.len()
            &&& covers(toks@, start, end as int, tokens_expr(e2))
            &&& !(e2 is Verbatim)
            &&& spine_ok(e2)
            &&& expr_rank(e2) == 15
            &&& ((end == pos && e2 == e) || e2.attrs() == Seq::<Attribute>::empty())
            &&& (end == pos ==> e2 == e)
            &&& (e2 is Struct ==> e2 == e)
        },
        r matches Ok((e2, end)) ==> trailed(toks@, pos as int, end as int, e, e2),
        !trailer_at(toks@, pos as int) ==> r == Ok::<(Expr, usize), ParseError>((e, pos)),
        pos < toks@.len() && toks@[pos as int] == Tok::Punct(Punct::Question) && !trailer_at(toks@, pos + 1)
            ==> (r matches Ok((e2, end)) && end == pos + 1 && e2 is Try && *e2->Try_0.expr == e),
        trailers_ok(toks@, pos as int) ==> (r matches Ok((e2, end)) && end == trailers_end(toks@, pos as int)),
        bad_turbofish_at(toks@, pos as int) ==> r is Err,
    decreases toks@.len() - pos, 15int,
{
    let ghost e0 = e;
    let ghost mut ks: Seq<int> = Seq::empty();
    let mut e = e;
    let mut i = pos;
    loop
        invariant
            pos <= i <= toks.len(),
            0 <= start <= pos,
            covers(toks@, start, i as int, tokens_expr(e)),
            !(e is Verbatim),
            spine_ok(e),
            expr_rank(e) == 15,
            (i == pos && e == e0) || e.attrs() == Seq::<Attribute>::empty(),
            i == pos ==> e == e0,
            e is Struct ==> e == e0,
            trailed_at(toks@, pos as int, i as int, ks, e0, e),
            bad_turbofish_at(toks@, pos as int) ==> i == pos,
            !trailer_at(toks@, pos as int) ==> i == pos && e == e0,
            pos < toks@.len() && toks@[pos as int] == Tok::Punct(Punct::Question) && !trailer_at(toks@, pos + 1)
                ==> (i == pos && e == e0) || (i == pos + 1 && e is Try && *e->Try_0.expr == e0),
            trailers_ok(toks@, pos as int) ==> trailers_ok(toks@, i as int) && trailers_end(toks@, pos as int)
                == trailers_end(toks@, i as int),
        ensures
            trailers_ok(toks@, pos as int) ==> i == trailers_end(toks@, pos as int),
            !bad_turbofish_at(toks@, pos as int),
            pos < toks@.len() && toks@[pos as int] == Tok::Punct(Punct::Question) && !trailer_at(toks@, pos + 1)
                ==> i == pos + 1 && e is Try && *e->Try_0.expr == e0,
        decreases toks@.len() - i,
    {
        let ghost et = tokens_expr(e);
        let ghost i0 = i as int;
        let ghost eo = e;
        if i < toks.len() && toks[i] == Tok::Open(Delim::Paren) {
            let (args, trailing, j) = parse_expr_list(toks, i + 1)?;
            let end = expect(toks, j, Tok::Close(Delim::Paren))?;
            proof {
                lemma_covers_delim(toks@, i as int, j as int, Delim::Paren, comma_list(tokens_expr_seq(args@), trailing));
                lemma_covers_cat(toks@, start, i as int, end as int, et, delimited(Delim::Paren, comma_list(tokens_expr_seq(args@), trailing)));
            }
            e = Expr::Call(ExprCall { attrs: Vec::new(), func: Box::new(e), args, trailing });
            proof {
                lemma_no_attrs(e);
                assert(trailed_at(toks@, pos as int, end as int, ks.push(i0), e0, e)) by {
                    assert(ks.push(i0).drop_last() =~= ks);
                }
                ks = ks.push(i0);
            }
            i = end;
        } else if i < toks.len() && toks[i] == Tok::Punct(Punct::Dot) {
            let (member, j) = parse_member(toks, i + 1)?;
            proof {
                lemma_covers_tok(toks@, i as int, Tok::Punct(Punct::Dot));
                lemma_covers_cat(toks@, start, i as int, i + 1, et, p1(Punct::Dot));
                if covers(toks@, i + 1, j as int, tokens_member(member)) {
                    lemma_covers_cat(toks@, start, i + 1, j as int, et + p1(Punct::Dot), tokens_member(member));
                } else {
                    assert(lossy_at(toks@, i as int));
                    lemma_lossy_in(toks@, i as int, start, j as int, et + p1(Punct::Dot) + tokens_member(member));
                }
            }
            let named = member.is_named();
            if named && j < toks.len() && (toks[j] == Tok::Punct(Punct::Colon2) || toks[j] == Tok::Open(Delim::Paren)) {
                let method = match member {
                    Member::Named(id) => id,
                    Member::Unnamed(_) => {
                        proof {
                            assert(false);
                        }
                        Ident { sym: 0 }
                    },
                };
                let ghost head = et + p1(Punct::Dot) + tokens_member(member);
                let (turbofish, k) = if toks[j] == Tok::Punct(Punct::Colon2) {
                    let (t, k) = parse_turbofish(toks, j)?;
                    (Some(t), k)
                } else {
                    proof {
                        lemma_covers_empty(toks@, j as int);
                    }
                    (None, j)
                };
                let ghost tf = tokens_turbofish(turbofish);
                assert(covers(toks@, j as int, k as int, tf));
                let open = expect(toks, k, Tok::Open(Delim::Paren))?;
                let (args, trailing, m) = parse_expr_list(toks, open)?;
                let end = expect(toks, m, Tok::Close(Delim::Paren))?;
                proof {
                    lemma_covers_cat(toks@, start, j as int, k as int, head, tf);
                    lemma_covers_delim(toks@, k as int, m as int, Delim::Paren, comma_list(tokens_expr_seq(args@), trailing));
                    lemma_covers_cat(toks@, start, k as int, end as int, head + tf, delimited(Delim::Paren, comma_list(tokens_expr_seq(args@), trailing)));
                }
                e = Expr::MethodCall(ExprMethodCall { attrs: Vec::new(), receiver: Box::new(e), method, turbofish, args, trailing });
                proof {
                    lemma_no_attrs(e);
                    assert(trailed_at(toks@, pos as int, end as int, ks.push(i0), e0, e)) by {
                        assert(ks.push(i0).drop_last() =~= ks);
                    }
                    ks = ks.push(i0);
                    assert(tokens_expr_body(e) =~= head + tf + delimited(Delim::Paren, comma_list(tokens_expr_seq(args@), trailing)));
                }
                i = end;
            } else {
                e = Expr::Field(ExprField { attrs: Vec::new(), base: Box::new(e), member });
                proof {
                    lemma_no_attrs(e);
                    assert(trailed_at(toks@, pos as int, j as int, ks.push(i0), e0, e)) by {
                        assert(ks.push(i0).drop_last() =~= ks);
                    }
                    ks = ks.push(i0);
                }
                i = j;
            }
        } else if i < toks.len() && toks[i] == Tok::Open(Delim::Bracket) {
            let (index, j) = expr_full(toks, i + 1)?;
            let end = expect(toks, j, Tok::Close(Delim::Bracket))?;
            proof {
                lemma_covers_delim(toks@, i as int, j as int, Delim::Bracket, tokens_expr(index));
                lemma_covers_cat(toks@, start, i as int, end as int, et, delimited(Delim::Bracket, tokens_expr(index)));
            }
            e = Expr::Index(ExprIndex { attrs: Vec::new(), expr: Box::new(e), index: Box::new(index) });
            proof {
                lemma_no_attrs(e);
                assert(trailed_at(toks@, pos as int, end as int, ks.push(i0), e0, e)) by {
                    assert(ks.push(i0).drop_last() =~= ks);
                }
                ks = ks.push(i0);
            }
            i = end;
        } else if i < toks.len() && toks[i] == Tok::Punct(Punct::Question) {
            proof {
                lemma_covers_tok(toks@, i as int, Tok::Punct(Punct::Question));
                lemma_covers_cat(toks@, start, i as int, i + 1, et, p1(Punct::Question));
            }
            e = Expr::Try(ExprTry { attrs: Vec::new(), expr: Box::new(e) });
            proof {
                lemma_no_attrs(e);
                assert(trailed_at(toks@, pos as int, (i + 1) as int, ks.push(i0), e0, e)) by {
                    assert(ks.push(i0).drop_last() =~= ks);
                }
                ks = ks.push(i0);
            }
            i = i + 1;
        } else {
            break;
        }
    }
    proof {
        assert(trailed_at(toks@, pos as int, i as int, ks, e0, e));
        reveal(trailed);
    }
    Ok((e, i))
}


/// What the turbofish of a method call prints as.
pub open spec fn tokens_turbofish(t: Option<MethodTurbofish>) -> Seq<Tok> {
    match t {
        Some(t) => p1(Punct::Colon2) + p1(Punct::Lt) + comma_list(tokens_generic_seq(t.args@), t.trailing)
            + p1(Punct::Gt),
        None => Seq::empty(),
    }
}

/// What the `..rest` part of a struct literal prints as.
pub open spec fn tokens_rest(r: Option<Box<Expr>>) -> Seq<Tok> {
    match r {
        Some(x) => p1(Punct::Dot2) + tokens_expr(*x),
        None => Seq::empty(),
    }
}

/// Whether a `break`, `return` or prefix range has no operand here: the
/// group ends, or a `,` or `;` follows, or (where struct literals are not
/// allowed) a `{`.
pub open spec fn no_operand(s: Seq<Tok>, pos: int, stop_at_brace: bool) -> bool {
    at_group_end(s, pos) || s[pos] == Tok::Punct(Punct::Comma) || s[pos] == Tok::Punct(Punct::Semi)
        || (stop_at_brace && s[pos] == Tok::Open(Delim::Brace))
}

fn no_operand_at(toks: &Vec<Tok>, pos: usize, stop_at_brace: bool) -> (r: bool)
    ensures
        r == no_operand(toks@, pos as int, stop_at_brace),
{
    is_group_end(toks, pos) || toks[pos] == Tok::Punct(Punct::Comma) || toks[pos] == Tok::Punct(
        Punct::Semi,
    ) || (stop_at_brace && toks[pos] == Tok::Open(Delim::Brace))
}

/// A token that can start an expression that stands whole: a literal, an
/// opening delimiter, a lifetime (of a label), the start of a path, a
/// keyword that starts a control-flow form or a closure, closure bars, or
/// the dots of a range.
pub open spec fn atom_start(t: Tok) -> bool {
    match t {
        Tok::Lit(_) | Tok::Open(_) | Tok::Lifetime(_) | Tok::Ident(_) => true,
        Tok::Kw(k) => match k {
            Keyword::Break | Keyword::Continue | Keyword::Return | Keyword::Yield | Keyword::If
            | Keyword::While | Keyword::For | Keyword::Loop | Keyword::Match | Keyword::Unsafe
            | Keyword::Try | Keyword::Async | Keyword::Move | Keyword::Static | Keyword::SelfValue
            | Keyword::SelfType | Keyword::Super | Keyword::Crate => true,
            _ => false,
        },
        Tok::Punct(p) => match p {
            Punct::Or | Punct::OrOr | Punct::Dot2 | Punct::Dot3 | Punct::DotDotEq | Punct::Colon2 => true,
            _ => false,
        },
        _ => false,
    }
}

/// A token that can start an expression: one that starts an expression
/// that stands whole, `#` of an attribute, `&`, `&&`, `box`, `*`, `!` or
/// `-`.
pub open spec fn expr_start(t: Tok) -> bool {
    atom_start(t) || t == Tok::Punct(Punct::Pound) || t == Tok::Punct(Punct::And) || t == Tok::Punct(Punct::AndAnd) || t == Tok::Kw(
        Keyword::Box,
    ) || t == Tok::Punct(Punct::Star) || t == Tok::Punct(Punct::Bang) || t == Tok::Punct(Punct::Sub)
}

/// Reads an expression that stands whole: a literal, a group, a
/// parenthesized expression or tuple, an array, a path, macro invocation or
/// struct literal, `break`, `continue`, `return`, `yield` or a range
/// without a start.
#[verifier::rlimit(40)]
#[verifier::spinoff_prover]
pub(crate) fn atom_expr(toks: &Vec<Tok>, pos: usize, allow_struct: AllowStruct, allow_block: AllowBlock) -> (r: Result<(Expr, usize, usize), ParseError>)
    requires
        pos <= toks.len(),
    ensures
        r matches Ok((e, i, end)) ==> atom_parts(toks@, pos as int, i as int, end as int, e) && (!allow_struct.0 ==> !(e is Struct)),
        pos < toks@.len() && !expr_start(toks@[pos as int]) ==> r == Err::<(Expr, usize, usize), ParseError>(
            ParseError { pos, kind: ErrorKind::Unexpected },
        ),
        pos < toks@.len() && toks@[pos as int] is Lit ==> (r matches Ok((e, i, end)) && i == pos && end
            == pos + 1 && e is Lit && e->Lit_0.lit == toks@[pos as int]->Lit_0),
        atom_operand(toks@, pos as int, allow_struct.0) ==> (r matches Ok((e, i, end)) && i == pos && end == pos + 1
            && plain_operand(e)),
        allow_block.0 && pos < toks@.len() && toks@[pos as int] == Tok::Open(Delim::Brace) && simple_block_end(toks@, pos as int)
            is Some ==> (r matches Ok((e, i, end)) && i == pos && e is Block && Some(end as int) == simple_block_end(
            toks@,
            pos as int,
        )),
    decreases toks@.len() - pos, 14int,
{
    let (attrs, i) = parse_outer(toks, pos)?;
    if i >= toks.len() {
        return err(i, ErrorKind::Unexpected);
    }
    let (e, end) = match toks[i] {
        Tok::Open(Delim::NoDelim) => atom_group(toks, pos, i, attrs)?,
        Tok::Lit(lit) => {
            let e = Expr::Lit(ExprLit { attrs, lit });
            proof {
                lemma_covers_tok(toks@, i as int, Tok::Lit(lit));
                lemma_expr_parts(toks@, pos as int, i as int, i + 1, e);
            }
            (e, i + 1)
        },
        Tok::Open(Delim::Paren) => atom_paren(toks, pos, i, attrs)?,
        Tok::Open(Delim::Bracket) => atom_bracket(toks, pos, i, attrs)?,
        Tok::Kw(Keyword::Break) => atom_break(toks, pos, i, attrs, allow_struct)?,
        Tok::Kw(Keyword::Continue) => atom_continue(toks, pos, i, attrs)?,
        Tok::Kw(Keyword::Return) => atom_return(toks, pos, i, attrs, allow_struct)?,
        Tok::Kw(Keyword::Yield) => atom_yield(toks, pos, i, attrs)?,
        Tok::Kw(Keyword::If) => {
            if attrs.len() > 0 {
                return err(i, ErrorKind::Unexpected);
            }
            if peek_is(toks, i + 1, Tok::Kw(Keyword::Let)) {
                atom_iflet(toks, pos, i, attrs)?
            } else {
                atom_if(toks, pos, i, attrs)?
            }
        },
        Tok::Kw(Keyword::While) => {
            if peek_is(toks, i + 1, Tok::Kw(Keyword::Let)) {
                atom_whilelet(toks, pos, i, attrs)?
            } else {
                atom_while(toks, pos, i, attrs)?
            }
        },
        Tok::Kw(Keyword::For) => atom_for(toks, pos, i, attrs)?,
        Tok::Kw(Keyword::Loop) => atom_loop(toks, pos, i, attrs)?,
        Tok::Kw(Keyword::Match) => atom_match(toks, pos, i, attrs)?,
        Tok::Kw(Keyword::Unsafe) => atom_unsafe(toks, pos, i, attrs)?,
        Tok::Kw(Keyword::Try) => {
            if attrs.len() > 0 || !peek_is(toks, i + 1, Tok::Open(Delim::Brace)) {
                return err(i, ErrorKind::Unexpected);
            }
            atom_try_block(toks, pos, i, attrs)?
        },
        Tok::Kw(Keyword::Async) => {
            if peek_is(toks, i + 1, Tok::Open(Delim::Brace)) || (peek_is(toks, i + 1, Tok::Kw(Keyword::Move))
                && i + 2 < toks.len() && toks[i + 2] == Tok::Open(Delim::Brace)) {
                atom_async(toks, pos, i, attrs)?
            } else {
                atom_closure(toks, pos, i, attrs, allow_struct)?
            }
        },
        Tok::Punct(Punct::Or) | Tok::Punct(Punct::OrOr) | Tok::Kw(Keyword::Move) | Tok::Kw(Keyword::Static) => atom_closure(toks, pos, i, attrs, allow_struct)?,
        Tok::Open(Delim::Brace) => {
            if !allow_block.0 {
                return err(i, ErrorKind::Unexpected);
            }
            atom_block(toks, pos, i, attrs)?
        },
        Tok::Lifetime(_) => {
            if !(toks.len() - i > 2) {
                return err(i, ErrorKind::Unexpected);
            }
            match toks[i + 2] {
                Tok::Kw(Keyword::While) => {
                    if peek_is(toks, i + 3, Tok::Kw(Keyword::Let)) {
                        atom_whilelet(toks, pos, i, attrs)?
                    } else {
                        atom_while(toks, pos, i, attrs)?
                    }
                },
                Tok::Kw(Keyword::For) => atom_for(toks, pos, i, attrs)?,
                Tok::Kw(Keyword::Loop) => atom_loop(toks, pos, i, attrs)?,
                Tok::Open(Delim::Brace) => {
                    if !allow_block.0 {
                        return err(i, ErrorKind::Unexpected);
                    }
                    atom_block(toks, pos, i, attrs)?
                },
                _ => {
                    return err(i, ErrorKind::Unexpected);
                },
            }
        },
        Tok::Punct(Punct::Dot2) | Tok::Punct(Punct::Dot3) | Tok::Punct(Punct::DotDotEq) => atom_range(toks, pos, i, attrs, allow_struct)?,
        _ => {
            if starts_path_at(toks, i) {
                atom_path(toks, pos, i, attrs, allow_struct)?
            } else {
                return err(i, ErrorKind::Unexpected);
            }
        },
    };
    Ok((e, i, end))
}

/// An expression in invisible delimiters.
fn atom_group(toks: &Vec<Tok>, pos: usize, i: usize, attrs: Vec<Attribute>) -> (r: Result<(Expr, usize), ParseError>)
    requires
        outer_read(toks@, pos as int, i as int, attrs@),
        i < toks.len(),
        toks@[i as int] == Tok::Open(Delim::NoDelim),
    ensures
        r matches Ok((e, end)) ==> atom_parts(toks@, pos as int, i as int, end as int, e) && !(e is Struct),
        attrs@.len() > 0 ==> r == Err::<(Expr, usize), ParseError>(ParseError { pos: i, kind: ErrorKind::Unexpected }),
        attrs@.len() == 0 && lone_lit_at(toks@, i + 1) && i + 2 < toks@.len() && toks@[i + 2] == Tok::Close(
            Delim::NoDelim,
        ) ==> (r matches Ok((e, end)) && e is Group && *e->Group_0.expr is Lit && end == i + 3),
    decreases toks@.len() - i, 10int,
{
    if attrs.len() > 0 {
        return err(i, ErrorKind::Unexpected);
    }
    let (x, j) = expr_full(toks, i + 1)?;
    let end = expect(toks, j, Tok::Close(Delim::NoDelim))?;
    let e = Expr::Group(ExprGroup { attrs: Vec::new(), expr: Box::new(x) });
    proof {
        assert(attrs@ =~= Seq::<Attribute>::empty());
        assert(e.attrs() =~= attrs@);
        lemma_covers_delim(toks@, i as int, j as int, Delim::NoDelim, tokens_expr(x));
        lemma_expr_parts(toks@, pos as int, i as int, end as int, e);
    }
    Ok((e, end))
}

/// A parenthesized expression `(e)`, or a tuple `()`, `(a,)`, `(a, b)`.
fn atom_paren(toks: &Vec<Tok>, pos: usize, i: usize, attrs: Vec<Attribute>) -> (r: Result<(Expr, usize), ParseError>)
    requires
        outer_read(toks@, pos as int, i as int, attrs@),
        i < toks.len(),
        toks@[i as int] == Tok::Open(Delim::Paren),
    ensures
        r matches Ok((e, end)) ==> atom_parts(toks@, pos as int, i as int, end as int, e) && !(e is Struct),
        i + 1 < toks@.len() && toks@[i + 1] == Tok::Close(Delim::Paren) ==> (r matches Ok((e, end)) && e is Tuple
            && e->Tuple_0.elems@.len() == 0 && end == i + 2),
        lone_lit_at(toks@, i + 1) && i + 2 < toks@.len() && toks@[i + 2] == Tok::Close(Delim::Paren) ==> (r matches Ok((
            e,
            end,
        )) && e is Paren && *e->Paren_0.expr is Lit && end == i + 3),
    decreases toks@.len() - i, 10int,
{
    let (inner, j) = parse_inner(toks, i + 1)?;
    let (elems, trailing, k) = parse_expr_list(toks, j)?;
    let end = expect(toks, k, Tok::Close(Delim::Paren))?;
    let ghost o = attrs@;
    let ghost n = inner@;
    let ghost list = comma_list(tokens_expr_seq(elems@), trailing);
    let all = join_attrs(attrs, inner);
    proof {
        lemma_join_attrs(o, n);
        lemma_covers_cat(toks@, i + 1, j as int, k as int, tokens_inner(n), list);
        lemma_covers_delim(toks@, i as int, k as int, Delim::Paren, tokens_inner(n) + list);
    }
    if elems.len() == 1 && !trailing {
        let ghost es = elems@;
        let mut elems = elems;
        let x = elems.pop().unwrap();
        proof {
            assert(es =~= Seq::<Expr>::empty().push(x));
            lemma_expr_seq_push(Seq::<Expr>::empty(), x);
            assert(tokens_expr_seq(es) =~= seq![tokens_expr(x)]);
            lemma_comma_list_one(tokens_expr(x));
        }
        let e = Expr::Paren(ExprParen { attrs: all, expr: Box::new(x) });
        proof {
            lemma_expr_parts(toks@, pos as int, i as int, end as int, e);
        }
        Ok((e, end))
    } else {
        let e = Expr::Tuple(ExprTuple { attrs: all, elems, trailing });
        proof {
            assert(tokens_inner(n) + list + maybe(false, p1(Punct::Comma)) =~= tokens_inner(n) + list);
            lemma_expr_parts(toks@, pos as int, i as int, end as int, e);
        }
        Ok((e, end))
    }
}

/// An array `[a, b, c]`, or an array of one repeated element `[x; n]`.
#[verifier::rlimit(40)]
#[verifier::spinoff_prover]
fn atom_bracket(toks: &Vec<Tok>, pos: usize, i: usize, attrs: Vec<Attribute>) -> (r: Result<(Expr, usize), ParseError>)
    requires
        outer_read(toks@, pos as int, i as int, attrs@),
        i < toks.len(),
        toks@[i as int] == Tok::Open(Delim::Bracket),
    ensures
        r matches Ok((e, end)) ==> atom_parts(toks@, pos as int, i as int, end as int, e) && !(e is Struct),
        i + 1 < toks@.len() && toks@[i + 1] == Tok::Close(Delim::Bracket) ==> (r matches Ok((e, end)) && e is Array
            && e->Array_0.elems@.len() == 0 && end == i + 2),
    decreases toks@.len() - i, 10int,
{
    let (inner, j) = parse_inner(toks, i + 1)?;
    let ghost o = attrs@;
    let ghost n = inner@;
    proof {
        lemma_join_attrs(o, n);
    }
    let list = parse_expr_list(toks, j);
    if let Ok((elems, trailing, k)) = list {
        if k < toks.len() && toks[k] == Tok::Close(Delim::Bracket) {
            let ghost lt = comma_list(tokens_expr_seq(elems@), trailing);
            let all = join_attrs(attrs, inner);
            let e = Expr::Array(ExprArray { attrs: all, elems, trailing });
            proof {
                lemma_covers_cat(toks@, i + 1, j as int, k as int, tokens_inner(n), lt);
                lemma_covers_delim(toks@, i as int, k as int, Delim::Bracket, tokens_inner(n) + lt);
                lemma_expr_parts(toks@, pos as int, i as int, k + 1, e);
            }
            return Ok((e, k + 1));
        }
    }
    let (x, k) = expr_full(toks, j)?;
    let semi = expect(toks, k, Tok::Punct(Punct::Semi))?;
    let (len, m) = expr_full(toks, semi)?;
    let end = expect(toks, m, Tok::Close(Delim::Bracket))?;
    let all = join_attrs(attrs, inner);
    let e = Expr::Repeat(ExprRepeat { attrs: all, expr: Box::new(x), len: Box::new(len) });
    proof {
        lemma_covers_tok(toks@, k as int, Tok::Punct(Punct::Semi));
        lemma_covers_cat(toks@, i + 1, j as int, k as int, tokens_inner(n), tokens_expr(x));
        lemma_covers_cat(toks@, i + 1, k as int, semi as int, tokens_inner(n) + tokens_expr(x), p1(Punct::Semi));
        lemma_covers_cat(toks@, i + 1, semi as int, m as int, tokens_inner(n) + tokens_expr(x) + p1(Punct::Semi), tokens_expr(len));
        lemma_covers_delim(toks@, i as int, m as int, Delim::Bracket, tokens_inner(n) + tokens_expr(x) + p1(Punct::Semi) + tokens_expr(len));
        lemma_expr_parts(toks@, pos as int, i as int, end as int, e);
    }
    Ok((e, end))
}

/// The position after the lifetime at `i`, or `i` where there is none.
pub open spec fn lifetime_end(s: Seq<Tok>, i: int) -> int {
    if 0 <= i < s.len() && s[i] is Lifetime {
        i + 1
    } else {
        i
    }
}

/// Reads a label that may follow `break` or `continue`.
pub(crate) fn opt_lifetime(toks: &Vec<Tok>, pos: usize) -> (r: (Option<crate::ast::Lifetime>, usize))
    requires
        pos <= toks.len(),
    ensures
        r.1 <= toks.len(),
        covers(toks@, pos as int, r.1 as int, tokens_opt_lifetime(r.0)),
        r.0 is Some <==> (pos < toks@.len() && toks@[pos as int] is Lifetime),
        r.1 == lifetime_end(toks@, pos as int),
{
    match parse_lifetime(toks, pos) {
        Ok((l, j)) => (Some(l), j),
        Err(_) => {
            proof {
                lemma_covers_empty(toks@, pos as int);
            }
            (None, pos)
        },
    }
}

/// `break`, with an optional label and an optional value.
fn atom_break(toks: &Vec<Tok>, pos: usize, i: usize, attrs: Vec<Attribute>, allow_struct: AllowStruct) -> (r: Result<(Expr, usize), ParseError>)
    requires
        outer_read(toks@, pos as int, i as int, attrs@),
        i < toks.len(),
        toks@[i as int] == Tok::Kw(Keyword::Break),
    ensures
        r matches Ok((e, end)) ==> atom_parts(toks@, pos as int, i as int, end as int, e) && !(e is Struct),
        ({
            let j = lifetime_end(toks@, i + 1);
            &&& no_operand(toks@, j, !allow_struct.0) ==> (r matches Ok((e, end)) && e is Break
                && e->Break_0.expr is None && end == j)
            &&& lone_lit_at(toks@, j) ==> (r matches Ok((e, end)) && e is Break && e->Break_0.expr is Some
                && end == j + 1)
        }),
    decreases toks@.len() - i, 10int,
{
    let (label, j) = opt_lifetime(toks, i + 1);
    proof {
        lemma_covers_tok(toks@, i as int, Tok::Kw(Keyword::Break));
        lemma_covers_cat(toks@, i as int, i + 1, j as int, k1(Keyword::Break), tokens_opt_lifetime(label));
    }
    let ghost head = k1(Keyword::Break) + tokens_opt_lifetime(label);
    if no_operand_at(toks, j, !allow_struct.0) {
        let e = Expr::Break(ExprBreak { attrs, label, expr: None });
        proof {
            assert(head + Seq::<Tok>::empty() =~= head);
            lemma_expr_parts(toks@, pos as int, i as int, j as int, e);
        }
        Ok((e, j))
    } else {
        let (x, end) = ambiguous_expr(toks, j, allow_struct, AllowBlock(allow_struct.0))?;
        let e = Expr::Break(ExprBreak { attrs, label, expr: Some(Box::new(x)) });
        proof {
            lemma_covers_cat(toks@, i as int, j as int, end as int, head, tokens_expr(x));
            lemma_expr_parts(toks@, pos as int, i as int, end as int, e);
        }
        Ok((e, end))
    }
}

/// `continue`, with an optional label.
fn atom_continue(toks: &Vec<Tok>, pos: usize, i: usize, attrs: Vec<Attribute>) -> (r: Result<(Expr, usize), ParseError>)
    requires
        outer_read(toks@, pos as int, i as int, attrs@),
        i < toks.len(),
        toks@[i as int] == Tok::Kw(Keyword::Continue),
    ensures
        r matches Ok((e, end)) ==> atom_parts(toks@, pos as int, i as int, end as int, e) && !(e is Struct),
        r matches Ok((e, end)) && e is Continue && end == lifetime_end(toks@, i + 1),
    decreases toks@.len() - i, 10int,
{
    let (label, j) = opt_lifetime(toks, i + 1);
    let e = Expr::Continue(ExprContinue { attrs, label });
    proof {
        lemma_covers_tok(toks@, i as int, Tok::Kw(Keyword::Continue));
        lemma_covers_cat(toks@, i as int, i + 1, j as int, k1(Keyword::Continue), tokens_opt_lifetime(label));
        lemma_expr_parts(toks@, pos as int, i as int, j as int, e);
    }
    Ok((e, j))
}

/// `return`, with an optional value.
fn atom_return(toks: &Vec<Tok>, pos: usize, i: usize, attrs: Vec<Attribute>, allow_struct: AllowStruct) -> (r: Result<(Expr, usize), ParseError>)
    requires
        outer_read(toks@, pos as int, i as int, attrs@),
        i < toks.len(),
        toks@[i as int] == Tok::Kw(Keyword::Return),
    ensures
        r matches Ok((e, end)) ==> atom_parts(toks@, pos as int, i as int, end as int, e) && !(e is Struct),
        no_operand(toks@, i + 1, false) ==> (r matches Ok((e, end)) && e is Return
            && e->Return_0.expr is None && end == i + 1),
        lone_lit_at(toks@, i + 1) ==> (r matches Ok((e, end)) && e is Return && e->Return_0.expr is Some
            && end == i + 2),
        block_operand_end(toks@, i + 1) is Some && !continues(
            toks@,
            block_operand_end(toks@, i + 1).unwrap(),
            Precedence::Any,
        ) ==> (r matches Ok((e, end)) && e is Return && e->Return_0.expr is Some && Some(
            end as int,
        ) == block_operand_end(toks@, i + 1)),
    decreases toks@.len() - i, 10int,
{
    let j = i + 1;
    proof {
        lemma_covers_tok(toks@, i as int, Tok::Kw(Keyword::Return));
    }
    if no_operand_at(toks, j, false) {
        let e = Expr::Return(ExprReturn { attrs, expr: None });
        proof {
            assert(k1(Keyword::Return) + Seq::<Tok>::empty() =~= k1(Keyword::Return));
            lemma_expr_parts(toks@, pos as int, i as int, j as int, e);
        }
        Ok((e, j))
    } else {
        let (x, end) = ambiguous_expr(toks, j, allow_struct, AllowBlock(true))?;
        let e = Expr::Return(ExprReturn { attrs, expr: Some(Box::new(x)) });
        proof {
            lemma_covers_cat(toks@, i as int, j as int, end as int, k1(Keyword::Return), tokens_expr(x));
            lemma_expr_parts(toks@, pos as int, i as int, end as int, e);
        }
        Ok((e, end))
    }
}

/// `yield`, with an optional value; it takes no attributes.
fn atom_yield(toks: &Vec<Tok>, pos: usize, i: usize, attrs: Vec<Attribute>) -> (r: Result<(Expr, usize), ParseError>)
    requires
        outer_read(toks@, pos as int, i as int, attrs@),
        i < toks.len(),
        toks@[i as int] == Tok::Kw(Keyword::Yield),
    ensures
        r matches Ok((e, end)) ==> atom_parts(toks@, pos as int, i as int, end as int, e) && !(e is Struct),
        attrs@.len() > 0 ==> r == Err::<(Expr, usize), ParseError>(ParseError { pos: i, kind: ErrorKind::Unexpected }),
        attrs@.len() == 0 && no_operand(toks@, i + 1, false) ==> (r matches Ok((e, end)) && e is Yield
            && e->Yield_0.expr is None && end == i + 1),
        attrs@.len() == 0 && lone_lit_at(toks@, i + 1) ==> (r matches Ok((e, end)) && e is Yield
            && e->Yield_0.expr is Some && end == i + 2),
    decreases toks@.len() - i, 10int,
{
    if attrs.len() > 0 {
        return err(i, ErrorKind::Unexpected);
    }
    let j = i + 1;
    proof {
        lemma_covers_tok(toks@, i as int, Tok::Kw(Keyword::Yield));
        assert(attrs@ =~= Seq::<Attribute>::empty());
    }
    if no_operand_at(toks, j, false) {
        let e = Expr::Yield(ExprYield { attrs: Vec::new(), expr: None });
        proof {
            assert(e.attrs() =~= attrs@);
            assert(k1(Keyword::Yield) + Seq::<Tok>::empty() =~= k1(Keyword::Yield));
            lemma_expr_parts(toks@, pos as int, i as int, j as int, e);
        }
        Ok((e, j))
    } else {
        let (x, end) = expr_full(toks, j)?;
        let e = Expr::Yield(ExprYield { attrs: Vec::new(), expr: Some(Box::new(x)) });
        proof {
            assert(e.attrs() =~= attrs@);
            lemma_covers_cat(toks@, i as int, j as int, end as int, k1(Keyword::Yield), tokens_expr(x));
            lemma_expr_parts(toks@, pos as int, i as int, end as int, e);
        }
        Ok((e, end))
    }
}

/// A range without a start: `..`, `..b`, `..=b`; it takes no attributes.
fn atom_range(toks: &Vec<Tok>, pos: usize, i: usize, attrs: Vec<Attribute>, allow_struct: AllowStruct) -> (r: Result<(Expr, usize), ParseError>)
    requires
        outer_read(toks@, pos as int, i as int, attrs@),
        i < toks.len(),
    ensures
        r matches Ok((e, end)) ==> atom_parts(toks@, pos as int, i as int, end as int, e) && !(e is Struct),
        attrs@.len() > 0 ==> r == Err::<(Expr, usize), ParseError>(ParseError { pos: i, kind: ErrorKind::Unexpected }),
        !is_dots(toks@[i as int]) ==> r is Err,
        attrs@.len() == 0 && is_dots(toks@[i as int]) && no_operand(toks@, i + 1, !allow_struct.0) ==> (r matches Ok((e, end))
            && e is Range && e->Range_0.from is None && e->Range_0.to is None && end == i + 1),
        attrs@.len() == 0 && is_dots(toks@[i as int]) && lone_lit_at(toks@, i + 1) ==> (r matches Ok((e, end))
            && e is Range && e->Range_0.from is None && e->Range_0.to is Some && end == i + 2
            && *e->Range_0.to.unwrap() is Lit && (*e->Range_0.to.unwrap())->Lit_0.lit == toks@[i + 1]->Lit_0
            && (e->Range_0.limits == RangeLimits::HalfOpen <==> toks@[i as int] == Tok::Punct(Punct::Dot2))),
    decreases toks@.len() - i, 10int,
{
    if attrs.len() > 0 {
        return err(i, ErrorKind::Unexpected);
    }
    let (limits, j) = parse_range_limits(toks, i)?;
    proof {
        assert(attrs@ =~= Seq::<Attribute>::empty());
    }
    if no_operand_at(toks, j, !allow_struct.0) {
        let e = Expr::Range(ExprRange { attrs: Vec::new(), from: None, limits, to: None });
        proof {
            assert(e.attrs() =~= attrs@);
            assert(Seq::<Tok>::empty() + tokens_range_limits(limits) + Seq::<Tok>::empty() =~= tokens_range_limits(limits));
            lemma_expr_parts(toks@, pos as int, i as int, j as int, e);
        }
        Ok((e, j))
    } else {
        let (x, end) = ambiguous_expr(toks, j, allow_struct, AllowBlock(allow_struct.0))?;
        let e = Expr::Range(ExprRange { attrs: Vec::new(), from: None, limits, to: Some(Box::new(x)) });
        proof {
            assert(e.attrs() =~= attrs@);
            lemma_covers_cat(toks@, i as int, j as int, end as int, tokens_range_limits(limits), tokens_expr(x));
            assert(Seq::<Tok>::empty() + tokens_range_limits(limits) + tokens_expr(x) =~= tokens_range_limits(limits) + tokens_expr(x));
            lemma_expr_parts(toks@, pos as int, i as int, end as int, e);
        }
        Ok((e, end))
    }
}

/// A path, a macro invocation `path!(..)`, or, where allowed, a struct
/// literal `Path { .. }`; when the struct literal does not read, the path
/// alone is taken.
#[verifier::rlimit(40)]
fn atom_path(toks: &Vec<Tok>, pos: usize, i: usize, attrs: Vec<Attribute>, allow_struct: AllowStruct) -> (r: Result<(Expr, usize), ParseError>)
    requires
        outer_read(toks@, pos as int, i as int, attrs@),
        i < toks.len(),
    ensures
        r matches Ok((e, end)) ==> atom_parts(toks@, pos as int, i as int, end as int, e) && (!allow_struct.0 ==> !(e is Struct)),
        r matches Ok((e, end)) ==> (e matches Expr::Struct(x) ==> forall|k: int| 0 <= k < x.fields@.len() ==> shorthand_ok(
            #[trigger] x.fields@[k],
        )),
        path_end(toks@, i as int) is None ==> r is Err,
        attrs@.len() == 0 && toks@[i as int] is Ident && !(i + 1 < toks@.len() && (toks@[i + 1] == Tok::Punct(
            Punct::Colon2,
        ) || toks@[i + 1] == Tok::Punct(Punct::Bang) || (allow_struct.0 && toks@[i + 1] == Tok::Open(Delim::Brace))))
            ==> (r matches Ok((e, end)) && plain_operand(e) && end == i + 1),
        ({
            let j = path_end(toks@, i as int).unwrap();
            &&& path_end(toks@, i as int) is Some && !(j < toks@.len() && toks@[j] == Tok::Punct(Punct::Bang))
                ==> (r matches Ok((e, end)) && (e is Path || e is Struct))
            &&& path_end(toks@, i as int) is Some && !(j < toks@.len() && toks@[j] == Tok::Punct(Punct::Bang))
                && !(allow_struct.0 && j < toks@.len() && toks@[j] == Tok::Open(Delim::Brace)) ==> (r matches Ok((
                e,
                end,
            )) && e is Path && end == j)
            &&& path_end(toks@, i as int) is Some && allow_struct.0 && j + 1 < toks@.len() && toks@[j] == Tok::Open(
                Delim::Brace,
            ) && toks@[j + 1] == Tok::Close(Delim::Brace) ==> (r matches Ok((e, end)) && e is Struct
                && e->Struct_0.fields@.len() == 0 && e->Struct_0.rest is None && end == j + 2)
            &&& path_end(toks@, i as int) is Some && j + 2 < toks@.len() && toks@[j] == Tok::Open(Delim::Brace) && (
            toks@[j + 1] matches Tok::Lit(Lit::Int(_))) && toks@[j + 2] != Tok::Punct(Punct::Colon) ==> (r matches Ok((
                e,
                end,
            )) && e is Path && end == j)
            &&& path_end(toks@, i as int) is Some && j < toks@.len() && toks@[j] == Tok::Punct(Punct::Bang) ==> ((r is Ok
                <==> group_end(toks@, j + 1) is Some) && (r matches Ok((e, end)) ==> e is Macro && Some(end as int)
                == group_end(toks@, j + 1)))
        }),
        ({
            let j = path_end(toks@, i as int).unwrap();
            path_end(toks@, i as int) is Some && allow_struct.0 && j < toks@.len() && toks@[j] == Tok::Open(Delim::Brace)
                && simple_fields_end(toks@, j + 1) is Some ==> (r matches Ok((e, end)) && e is Struct && Some(end - 1)
                == simple_fields_end(toks@, j + 1))
        }),
    decreases toks@.len() - i, 10int,
{
    let (path, j) = parse_path(toks, i)?;
    if j < toks.len() && toks[j] == Tok::Punct(Punct::Bang) {
        let (delimiter, tts, end) = crate::parse_util::parse_macro_tail(toks, j)?;
        let mac = Macro { path, delimiter, tts };
        let e = Expr::Macro(ExprMacro { attrs, mac });
        proof {
            lemma_covers_cat(toks@, i as int, j as int, end as int, tokens_path(mac.path), p1(Punct::Bang) + delimited(delimiter, mac.tts@));
            assert(tokens_macro(mac) =~= tokens_path(mac.path) + (p1(Punct::Bang) + delimited(delimiter, mac.tts@)));
            lemma_expr_parts(toks@, pos as int, i as int, end as int, e);
        }
        return Ok((e, end));
    }
    if allow_struct.0 && j < toks.len() && toks[j] == Tok::Open(Delim::Brace) {
        let ghost path_toks = tokens_path(path);
        match struct_body(toks, j) {
            Ok((inner, fields, trailing, rest, end)) => {
                let ghost n = inner@;
                let ghost body = tokens_inner(n) + comma_list(tokens_field_value_seq(fields@), trailing) + tokens_rest(rest);
                let ghost o = attrs@;
                let all = join_attrs(attrs, inner);
                let dot2 = rest.is_some();
                let e = Expr::Struct(ExprStruct { attrs: all, path, fields, trailing, dot2, rest });
                proof {
                    lemma_join_attrs(o, n);
                    lemma_covers_cat(toks@, i as int, j as int, end as int, path_toks, delimited(Delim::Brace, body));
                    assert(tokens_expr_body(e) =~= path_toks + delimited(Delim::Brace, body));
                    lemma_atom_done(toks@, pos as int, i as int, end as int, e, o, n, j as int, end as int);
                }
                return Ok((e, end));
            },
            Err(_) => {},
        }
    }
    let e = Expr::Path(ExprPath { attrs, path });
    proof {
        lemma_expr_parts(toks@, pos as int, i as int, j as int, e);
    }
    Ok((e, j))
}

/// A field written without `: value` is the field's name read as a path
/// of one segment, with no attributes.
pub open spec fn shorthand_ok(f: FieldValue) -> bool {
    !f.colon ==> (f.member matches Member::Named(id) && f.expr matches Expr::Path(p) && p.attrs@.len() == 0
        && !p.path.leading_colon && p.path.segments@ == seq![Name::Ident(id)])
}

/// The braced part of a struct literal, starting at its `{`: inner
/// attributes, the fields, and an optional `..rest`.
#[verifier::rlimit(60)]
#[verifier::spinoff_prover]
fn struct_body(toks: &Vec<Tok>, pos: usize) -> (r: Result<(Vec<Attribute>, Vec<FieldValue>, bool, Option<Box<Expr>>, usize), ParseError>)
    requires
        pos < toks.len(),
        toks@[pos as int] == Tok::Open(Delim::Brace),
    ensures
        r matches Ok((inner, fields, trailing, rest, end)) ==> {
            &&& pos < end <= toks.len()
            &&& all_of_style(inner@, AttrStyle::Inner)
            &&& (inner@.len() > 0 ==> has_lossy(toks@, pos as int, end as int))
            &&& covers(
                toks@,
                pos as int,
                end as int,
                delimited(
                    Delim::Brace,
                    tokens_inner(inner@) + comma_list(tokens_field_value_seq(fields@), trailing)
                        + tokens_rest(rest),
                ),
            )
        },
        pos + 1 < toks@.len() && toks@[pos + 1] == Tok::Close(Delim::Brace) ==> (r matches Ok((inner, fields, trailing, rest, end))
            && inner@.len() == 0 && fields@.len() == 0 && !trailing && rest is None && end == pos + 2),
        r matches Ok((inner, fields, trailing, rest, end)) ==> forall|k: int| 0 <= k < fields@.len() ==> shorthand_ok(
            #[trigger] fields@[k],
        ),
        simple_fields_end(toks@, pos + 1) is Some ==> (r matches Ok((inner, fields, trailing, rest, end)) && inner@.len()
            == 0 && Some(end - 1) == simple_fields_end(toks@, pos + 1)),
        pos + 2 < toks@.len() && (toks@[pos + 1] matches Tok::Lit(Lit::Int(_))) && toks@[pos + 2] != Tok::Punct(Punct::Colon)
            ==> r == Err::<(Vec<Attribute>, Vec<FieldValue>, bool, Option<Box<Expr>>, usize), ParseError>(
            ParseError { pos: (pos + 2) as usize, kind: ErrorKind::Unexpected },
        ),
    decreases toks@.len() - pos, 10int,
{
    let (inner, k0) = parse_inner(toks, pos + 1)?;
    let mut k = k0;
    let mut fields: Vec<FieldValue> = Vec::new();
    let mut trailing = false;
    proof {
        lemma_covers_empty(toks@, k0 as int);
    }
    loop
        invariant_except_break
            pos < k0 <= k <= toks.len(),
            !trailing,
            k0 < toks@.len() && toks@[k0 as int] == Tok::Close(Delim::Brace) ==> k == k0 && fields@.len() == 0,
            pos + 1 < toks@.len() && toks@[pos + 1] == Tok::Close(Delim::Brace) ==> k0 == pos + 1,
            forall|q: int| 0 <= q < fields@.len() ==> shorthand_ok(#[trigger] fields@[q]),
            pos + 2 < toks@.len() && (toks@[pos + 1] matches Tok::Lit(Lit::Int(_))) && toks@[pos + 2] != Tok::Punct(
                Punct::Colon,
            ) ==> k == pos + 1,
            simple_fields_end(toks@, pos + 1) is Some ==> k0 == pos + 1 && simple_fields_end(toks@, k as int)
                == simple_fields_end(toks@, pos + 1),
            covers(
                toks@,
                k0 as int,
                k as int,
                if fields@.len() == 0 {
                    Seq::empty()
                } else {
                    interleave(tokens_field_value_seq(fields@), Punct::Comma) + p1(Punct::Comma)
                },
            ),
        ensures
            pos < k0 <= k <= toks.len(),
            forall|q: int| 0 <= q < fields@.len() ==> shorthand_ok(#[trigger] fields@[q]),
            !(pos + 2 < toks@.len() && (toks@[pos + 1] matches Tok::Lit(Lit::Int(_))) && toks@[pos + 2] != Tok::Punct(
                Punct::Colon,
            )),
            covers(toks@, k0 as int, k as int, comma_list(tokens_field_value_seq(fields@), trailing)),
            k0 < toks@.len() && toks@[k0 as int] == Tok::Close(Delim::Brace) ==> k == k0 && fields@.len() == 0
                && !trailing,
            simple_fields_end(toks@, pos + 1) is Some ==> k0 == pos + 1 && ((k < toks@.len() && toks@[k as int] == Tok::Close(
                Delim::Brace,
            ) && Some(k as int) == simple_fields_end(toks@, pos + 1)) || (k < toks@.len() && toks@[k as int]
                == Tok::Punct(Punct::Dot2) && (fields@.len() == 0 || trailing) && simple_fields_end(toks@, k as int)
                == simple_fields_end(toks@, pos + 1))),
        decreases toks@.len() - k,
    {
        let ghost before = if fields@.len() == 0 {
            Seq::<Tok>::empty()
        } else {
            interleave(tokens_field_value_seq(fields@), Punct::Comma) + p1(Punct::Comma)
        };
        let ghost kf = k as int;
        let (fattrs, a) = parse_outer(toks, k)?;
        let (member, b) = match parse_member(toks, a) {
            Ok(mb) => mb,
            Err(_) => {
                if fattrs.len() == 0 {
                    trailing = fields.len() > 0;
                    proof {
                        lemma_field_value_seq_len(fields@);
                        if fields@.len() == 0 {
                            assert(comma_list(tokens_field_value_seq(fields@), trailing) =~= Seq::<Tok>::empty());
                        }
                    }
                    break;
                } else {
                    return err(a, ErrorKind::ExpectedStructField);
                }
            },
        };
        let ghost ft_head = tokens_outer(fattrs@) + tokens_member(member);
        proof {
            if covers(toks@, a as int, b as int, tokens_member(member)) {
                lemma_covers_cat(toks@, k as int, a as int, b as int, tokens_outer(fattrs@), tokens_member(member));
            }
        }
        let (colon, expr, c) = match member {
            Member::Named(id) => {
                if b < toks.len() && toks[b] == Tok::Punct(Punct::Colon) {
                    let (x, c) = field_colon_expr(toks, b)?;
                    (true, x, c)
                } else {
                    let mut segments: Vec<Name> = Vec::new();
                    segments.push(Name::Ident(id));
                    let x = Expr::Path(ExprPath { attrs: Vec::new(), path: Path { leading_colon: false, segments } });
                    proof {
                        lemma_covers_empty(toks@, b as int);
                    }
                    (false, x, b)
                }
            },
            Member::Unnamed(_) => {
                let (x, c) = field_colon_expr(toks, b)?;
                (true, x, c)
            },
        };
        let f = FieldValue { attrs: fattrs, member, colon, expr };
        let ghost ft = tokens_outer(f.attrs@) + tokens_member(f.member) + maybe(f.colon, p1(Punct::Colon) + tokens_expr(f.expr));
        proof {
            if covers(toks@, a as int, b as int, tokens_member(member)) {
                lemma_covers_cat(toks@, k as int, b as int, c as int, ft_head, maybe(colon, p1(Punct::Colon) + tokens_expr(expr)));
            } else {
                assert(lossy_at(toks@, a as int));
                lemma_lossy_in(toks@, a as int, k as int, c as int, ft);
            }
            assert(covers(toks@, k as int, c as int, ft));
            lemma_field_value_seq_push(fields@, f);
            lemma_field_value_seq_len(fields@);
            lemma_interleave_push(tokens_field_value_seq(fields@), ft, Punct::Comma);
            lemma_covers_cat(toks@, k0 as int, k as int, c as int, before, ft);
            if fields@.len() == 0 {
                assert(before + ft =~= ft);
            }
        }
        fields.push(f);
        k = c;
        assert(covers(toks@, k0 as int, k as int, interleave(tokens_field_value_seq(fields@), Punct::Comma)));
        if !(k < toks.len() && toks[k] == Tok::Punct(Punct::Comma)) {
            proof {
                assert(comma_list(tokens_field_value_seq(fields@), trailing) =~= interleave(
                    tokens_field_value_seq(fields@),
                    Punct::Comma,
                ));
            }
            break;
        }
        proof {
            lemma_covers_tok(toks@, k as int, Tok::Punct(Punct::Comma));
            lemma_covers_cat(toks@, k0 as int, k as int, k + 1, interleave(tokens_field_value_seq(fields@), Punct::Comma), p1(Punct::Comma));
        }
        proof {
            if simple_fields_end(toks@, pos + 1) is Some {
                if chain_ok(toks@, kf + 3, true) {
                    lemma_chain_stop_ok(toks@, kf + 3, true, Precedence::Any);
                }
                assert(simple_fields_end(toks@, kf) == simple_fields_end(toks@, k + 1));
            }
        }
        k = k + 1;
    }
    let ghost list = comma_list(tokens_field_value_seq(fields@), trailing);
    let (rest, m) = if (fields.len() == 0 || trailing) && k < toks.len() && toks[k] == Tok::Punct(Punct::Dot2) {
        let (x, m) = expr_full(toks, k + 1)?;
        proof {
            lemma_covers_tok(toks@, k as int, Tok::Punct(Punct::Dot2));
            lemma_covers_cat(toks@, k as int, k + 1, m as int, p1(Punct::Dot2), tokens_expr(x));
        }
        (Some(Box::new(x)), m)
    } else {
        proof {
            lemma_covers_empty(toks@, k as int);
        }
        (None, k)
    };
    let ghost rt = tokens_rest(rest);
    let end = expect(toks, m, Tok::Close(Delim::Brace))?;
    proof {
        assert(covers(toks@, k as int, m as int, rt));
        lemma_covers_cat(toks@, pos + 1, k0 as int, k as int, tokens_inner(inner@), list);
        lemma_covers_cat(toks@, pos + 1, k as int, m as int, tokens_inner(inner@) + list, rt);
        lemma_covers_delim(toks@, pos as int, m as int, Delim::Brace, tokens_inner(inner@) + list + rt);
        if inner@.len() > 0 {
            lemma_lossy_widen(toks@, pos as int, pos + 1, k0 as int, end as int);
        }
    }
    Ok((inner, fields, trailing, rest, end))
}

/// The `: value` part of a struct literal field, starting at the `:`.
fn field_colon_expr(toks: &Vec<Tok>, pos: usize) -> (r: Result<(Expr, usize), ParseError>)
    requires
        pos <= toks.len(),
    ensures
        r matches Ok((x, end)) ==> pos < end <= toks.len() && covers(toks@, pos as int, end as int, p1(Punct::Colon) + tokens_expr(x)),
        !(pos < toks@.len() && toks@[pos as int] == Tok::Punct(Punct::Colon)) ==> r == Err::<(Expr, usize), ParseError>(
            ParseError { pos, kind: ErrorKind::Unexpected },
        ),
        pos < toks@.len() && toks@[pos as int] == Tok::Punct(Punct::Colon) && lone_lit_at(toks@, pos + 1) ==> (r matches Ok((
            x,
            end,
        )) && x is Lit && end == pos + 2),
        pos < toks@.len() && toks@[pos as int] == Tok::Punct(Punct::Colon) && simple_operand(toks@, pos + 1, true)
            && chain_ok(toks@, pos + 2, true) ==> (r matches Ok((x, end)) && end == chain_stop(toks@, pos + 2, Precedence::Any)),
    decreases toks@.len() - pos, 10int,
{
    let j = expect(toks, pos, Tok::Punct(Punct::Colon))?;
    let (x, end) = expr_full(toks, j)?;
    proof {
        lemma_covers_tok(toks@, pos as int, Tok::Punct(Punct::Colon));
        lemma_covers_cat(toks@, pos as int, j as int, end as int, p1(Punct::Colon), tokens_expr(x));
    }
    Ok((x, end))
}


impl Expr {
    /// Reads an expression starting at `pos` and returns it with the
    /// position after it. The expression prints as the tokens it was read
    /// from (see `covers`), its operators respect their precedence, and no
    /// binary operator, assignment, range or cast follows it.
    pub fn parse(toks: &Vec<Tok>, pos: usize) -> (r: Result<(Expr, usize), ParseError>)
        requires
            pos <= toks.len(),
        ensures
            r matches Ok((e, end)) ==> {
                &&& parsed_expr(toks@, pos as int, end as int, e)
                &&& !continues(toks@, end as int, Precedence::Any)
            },
            pos == toks.len() ==> r is Err,
            pos < toks@.len() && !expr_start(toks@[pos as int]) ==> r == Err::<(Expr, usize), ParseError>(
                ParseError { pos, kind: ErrorKind::Unexpected },
            ),
            simple_operand(toks@, pos as int, true) && chain_ok(toks@, pos + 1, true) ==> (r matches Ok((e, end)) && end
                == chain_stop(toks@, pos + 1, Precedence::Any) && plain_tree(e)),
    {
        expr_full(toks, pos)
    }

    /// Reads the whole of `toks` as one expression; tokens left after it
    /// are an error at the first of them.
    pub fn parse_all(toks: &Vec<Tok>) -> (r: Result<Expr, ParseError>)
        ensures
            r matches Ok(e) ==> parsed_expr(toks@, 0, toks@.len() as int, e),
            toks@.len() == 0 ==> r is Err,
            toks@.len() > 0 && !expr_start(toks@[0]) ==> r == Err::<Expr, ParseError>(
                ParseError { pos: 0, kind: ErrorKind::Unexpected },
            ),
            simple_operand(toks@, 0, true) && chain_ok(toks@, 1, true) && chain_stop(toks@, 1, Precedence::Any)
                == toks@.len() ==> (r matches Ok(e) && plain_tree(e)),
            simple_operand(toks@, 0, true) && chain_ok(toks@, 1, true) && chain_stop(toks@, 1, Precedence::Any)
                < toks@.len() ==> r == Err::<Expr, ParseError>(
                ParseError { pos: chain_stop(toks@, 1, Precedence::Any) as usize, kind: ErrorKind::Unexpected },
            ),
    {
        let (e, end) = Expr::parse(toks, 0)?;
        if end < toks.len() {
            return Err(ParseError { pos: end, kind: ErrorKind::Unexpected });
        }
        Ok(e)
    }

    /// Appends the tokens of this expression to `out`.
    pub fn to_tokens(&self, out: &mut Vec<Tok>)
        ensures
            final(out)@ == old(out)@ + tokens_expr(*self),
    {
        crate::to_tokens::print_expr(self, out);
    }
}

} // verus!
