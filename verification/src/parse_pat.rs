use vstd::prelude::*;

use crate::ast::{
    Expr, ExprLit, ExprPath, ExprUnary, FieldPat, Ident, Macro, Member, Name, Pat, PatBox,
    PatIdent, PatLit, PatPath, PatRange, PatRef, PatSlice, PatStruct, PatTuple, PatTupleStruct,
    RangeLimits, UnOp,
};
use crate::parse_util::{
    lemma_covers_and_and, name_of_tok, at_group_end, attr_at, covers, err, expect, has_lossy, int_tok, lemma_pat_attr_lossy, lemma_lossy_in, pat_lead, is_group_end, lemma_covers_cat,
    lemma_covers_delim, lemma_covers_empty, lemma_covers_tok, lemma_lossy_widen, lossy_at,
    mode_field_at, binding_kw, name_at, parse_macro_tail, parse_member, parse_outer, parse_path,
    parse_range_limits, starts_path, starts_path_at, is_dots, path_end, group_end, outer_end,
    member_of_tok, ErrorKind, ParseError,
};
use crate::print::{
    comma_list, delimited, interleave, k1, lemma_field_pat_seq_len, lemma_field_pat_seq_push,
    lemma_interleave_push, lemma_pat_seq_len, lemma_pat_seq_push, maybe, p1, tokens_expr,
    tokens_field_pat_seq, tokens_macro, tokens_member, tokens_name, tokens_pat, tokens_pat_seq,
    tokens_pat_tuple, tokens_path, tokens_pats_or,
};
use crate::token::{Delim, Keyword, Lit, Punct, Tok};

verus! {

/// A token that can start a pattern: `_`, `box`, `-`, a literal, the start
/// of a path, `ref`, `mut`, `#` of an attribute, `(`, `&`, `&&` or `[`.
pub open spec fn pat_start(t: Tok) -> bool {
    ||| t == Tok::Kw(Keyword::Underscore)
    ||| t == Tok::Kw(Keyword::Box)
    ||| t == Tok::Punct(Punct::Sub)
    ||| t is Lit
    ||| starts_path(t)
    ||| t == Tok::Kw(Keyword::Ref)
    ||| t == Tok::Kw(Keyword::Mut)
    ||| t == Tok::Punct(Punct::Pound)
    ||| t == Tok::Open(Delim::Paren)
    ||| t == Tok::Punct(Punct::And)
    ||| t == Tok::Punct(Punct::AndAnd)
    ||| t == Tok::Open(Delim::Bracket)
}

/// Where the operand of a literal or range pattern that starts at `pos`
/// ends: an optional `-`, then a literal or a path.
pub open spec fn lit_expr_end(s: Seq<Tok>, pos: int) -> Option<int> {
    let i = if 0 <= pos < s.len() && s[pos] == Tok::Punct(Punct::Sub) {
        pos + 1
    } else {
        pos
    };
    if 0 <= i < s.len() && s[i] is Lit {
        Some(i + 1)
    } else if 0 <= i < s.len() && starts_path(s[i]) {
        path_end(s, i)
    } else {
        None
    }
}

/// Where the range pattern that starts at `pos` ends: an operand, `..`,
/// `...` or `..=`, and an operand.
pub open spec fn range_pat_end(s: Seq<Tok>, pos: int) -> Option<int> {
    match lit_expr_end(s, pos) {
        Some(i) => if 0 <= i < s.len() && is_dots(s[i]) {
            lit_expr_end(s, i + 1)
        } else {
            None
        },
        None => None,
    }
}

/// A literal, or `-` and a literal, starts at `pos`.
pub open spec fn lit_pat_at(s: Seq<Tok>, pos: int) -> bool {
    0 <= pos < s.len() && (s[pos] is Lit || (s[pos] == Tok::Punct(Punct::Sub) && pos + 1 < s.len() && s[pos
        + 1] is Lit))
}

/// The position after the optional `ref` and `mut` of a binding that
/// starts at `pos`.
pub open spec fn binding_name_pos(s: Seq<Tok>, pos: int) -> int {
    let i = if 0 <= pos < s.len() && s[pos] == Tok::Kw(Keyword::Ref) {
        pos + 1
    } else {
        pos
    };
    if 0 <= i < s.len() && s[i] == Tok::Kw(Keyword::Mut) {
        i + 1
    } else {
        i
    }
}

/// The position after the optional `box`, `ref` and `mut` of a field
/// pattern that starts at `pos`.
pub open spec fn field_member_pos(s: Seq<Tok>, pos: int) -> int {
    let i = if 0 <= pos < s.len() && s[pos] == Tok::Kw(Keyword::Box) {
        pos + 1
    } else {
        pos
    };
    binding_name_pos(s, i)
}

/// A single-token pattern stands at `i`: `_`, or a binding name that no
/// `(`, `{`, `!`, `::`, `@`, `<` or range operator follows.
pub open spec fn simple_pat_at(s: Seq<Tok>, i: int) -> bool {
    0 <= i < s.len() && (s[i] == Tok::Kw(Keyword::Underscore) || (s[i] is Ident && !(i + 1 < s.len() && (s[i + 1]
        == Tok::Open(Delim::Paren) || s[i + 1] == Tok::Open(Delim::Brace) || s[i + 1] == Tok::Punct(Punct::Bang)
        || s[i + 1] == Tok::Punct(Punct::Colon2) || s[i + 1] == Tok::Punct(Punct::At) || s[i + 1] == Tok::Punct(
        Punct::Lt) || is_dots(s[i + 1])))))
}

/// Where single-token patterns separated by commas that start at `i` end,
/// at the end of their group; a comma may follow the last one.
pub open spec fn simple_pats_end(s: Seq<Tok>, i: int) -> Option<int>
    decreases s.len() - i,
{
    if i < 0 || i > s.len() {
        None
    } else if at_group_end(s, i) {
        Some(i)
    } else if simple_pat_at(s, i) {
        if at_group_end(s, i + 1) {
            Some(i + 1)
        } else if s[i + 1] == Tok::Punct(Punct::Comma) {
            simple_pats_end(s, i + 2)
        } else {
            None
        }
    } else {
        None
    }
}

/// The pattern a single token reads as: `_` is the wildcard, a name is a
/// binding by value, without `ref`, `mut` or a subpattern.
pub open spec fn lone_pat_of(t: Tok) -> Pat {
    match t {
        Tok::Ident(sym) => Pat::Ident(PatIdent { by_ref: false, mutability: false, ident: Name::Ident(Ident { sym }), subpat: None }),
        _ => Pat::Wild,
    }
}

/// The patterns `v` are the single-token patterns at `i`, `i + 2`, ...
pub open spec fn lone_pats_from(s: Seq<Tok>, i: int, v: Seq<Pat>) -> bool {
    forall|q: int| 0 <= q < v.len() ==> #[trigger] v[q] == lone_pat_of(s[i + 2 * q])
}

/// `e` is the literal token `t` read as an expression, with no attributes.
pub open spec fn lit_operand(e: Expr, t: Tok) -> bool {
    e matches Expr::Lit(x) && x.attrs@.len() == 0 && t == Tok::Lit(x.lit)
}

/// `p` is the range pattern read from `s[pos..end]`: where its bounds are
/// single literals they are those literals, and its limits are half open
/// exactly where the operator is `..`.
pub open spec fn range_read(s: Seq<Tok>, pos: int, end: int, p: Pat) -> bool {
    let m = lit_expr_end(s, pos).unwrap();
    &&& p matches Pat::Range(x)
    &&& range_pat_end(s, pos) == Some(end)
    &&& (s[pos] is Lit ==> lit_operand(*x.lo, s[pos]))
    &&& (x.limits == RangeLimits::HalfOpen <==> s[m] == Tok::Punct(Punct::Dot2))
    &&& (s[m + 1] is Lit ==> lit_operand(*x.hi, s[m + 1]))
}

/// `p` is the slice pattern read from `s[pos..end]`, where single-token
/// patterns separated by commas stand between its brackets: those
/// patterns, in order, with a trailing comma exactly where one was read,
/// and nothing else.
pub open spec fn slice_read(s: Seq<Tok>, pos: int, end: int, p: Pat) -> bool {
    &&& p matches Pat::Slice(x)
    &&& x.middle is None
    &&& !x.dot2
    &&& !x.comma
    &&& x.back@.len() == 0
    &&& !x.back_trailing
    &&& x.front@.len() == (end - 1 - pos) / 2
    &&& lone_pats_from(s, pos + 1, x.front@)
    &&& (x.front_trailing <==> (x.front@.len() > 0 && s[end - 2] == Tok::Punct(Punct::Comma)))
}

/// A binding name stands at `i` that no `(`, `{`, `!`, `::`, `@` or `<`
/// follows and that does not start a range pattern.
pub open spec fn binding_at(s: Seq<Tok>, i: int) -> bool {
    &&& 0 <= i < s.len()
    &&& s[i] is Ident
    &&& !(i + 1 < s.len() && (s[i + 1] == Tok::Open(Delim::Paren) || s[i + 1] == Tok::Open(Delim::Brace) || s[i + 1]
        == Tok::Punct(Punct::Bang) || s[i + 1] == Tok::Punct(Punct::Colon2) || s[i + 1] == Tok::Punct(Punct::At)
        || s[i + 1] == Tok::Punct(Punct::Lt)))
    &&& range_pat_end(s, i) is None
}

/// Where single-token patterns, each followed by a comma, that start at
/// `i` reach a `..`: the position of the `..`.
pub open spec fn pats_before_dots(s: Seq<Tok>, i: int) -> Option<int>
    decreases s.len() - i,
{
    if 0 <= i < s.len() && s[i] == Tok::Punct(Punct::Dot2) {
        Some(i)
    } else if 0 <= i && i + 1 < s.len() && simple_pat_at(s, i) && s[i + 1] == Tok::Punct(Punct::Comma) {
        pats_before_dots(s, i + 2)
    } else {
        None
    }
}

/// Like `pats_before_dots`, where the `..` may also follow a binding name
/// directly, as the middle `rest..` of a slice pattern.
pub open spec fn slice_dots_at(s: Seq<Tok>, i: int) -> Option<int>
    decreases s.len() - i,
{
    if 0 <= i < s.len() && s[i] == Tok::Punct(Punct::Dot2) {
        Some(i)
    } else if binding_at(s, i) && i + 1 < s.len() && s[i + 1] == Tok::Punct(Punct::Dot2) {
        Some(i + 1)
    } else if 0 <= i && i + 1 < s.len() && simple_pat_at(s, i) && s[i + 1] == Tok::Punct(Punct::Comma) {
        slice_dots_at(s, i + 2)
    } else {
        None
    }
}

/// Where the patterns after the `..` at `d` end: after the `..` itself, or
/// after a comma and single-token patterns separated by commas.
pub open spec fn after_dots_end(s: Seq<Tok>, d: int) -> Option<int> {
    if d + 1 < s.len() && s[d + 1] == Tok::Punct(Punct::Comma) {
        simple_pats_end(s, d + 2)
    } else {
        Some(d + 1)
    }
}

/// Where single-token patterns separated by `|` that start at `i` end.
pub open spec fn or_pats_end(s: Seq<Tok>, i: int) -> Option<int>
    decreases s.len() - i,
{
    if simple_pat_at(s, i) {
        if i + 1 < s.len() && s[i + 1] == Tok::Punct(Punct::Or) {
            or_pats_end(s, i + 2)
        } else {
            Some(i + 1)
        }
    } else {
        None
    }
}

/// `p` is what `s[pos..end]` reads as a pattern. A pattern that starts
/// with an attribute is a path pattern that does not keep the attribute:
/// for it nothing more is claimed.
pub open spec fn parsed_pat(s: Seq<Tok>, pos: int, end: int, p: Pat) -> bool {
    &&& 0 <= pos < end <= s.len()
    &&& (covers(s, pos, end, tokens_pat(p)) || (attr_at(s, pos) && pos + 2 < end))
}

/// A pattern read right after a token of `pat_lead` prints as what it was
/// read from.
pub proof fn lemma_parsed_pat_covers(s: Seq<Tok>, pos: int, end: int, p: Pat)
    requires
        parsed_pat(s, pos, end, p),
        pos >= 1,
        pat_lead(s[pos - 1]),
    ensures
        covers(s, pos, end, tokens_pat(p)),
{
    if !covers(s, pos, end, tokens_pat(p)) {
        lemma_pat_attr_lossy(s, pos, pos, end);
    }
}

/// Reads a pattern. The forms are tried in this order: `_`, `box p`, a
/// range `a..=b`, a tuple struct `P(..)`, a struct `P { .. }`, a macro
/// `m!(..)`, a literal, a binding `ref mut x @ p`, a path, a tuple, a
/// reference `&p` and a slice `[..]`.
pub fn parse_pat(toks: &Vec<Tok>, pos: usize) -> (r: Result<(Pat, usize), ParseError>)
    requires
        pos <= toks.len(),
    ensures
        r matches Ok((p, end)) ==> parsed_pat(toks@, pos as int, end as int, p),
        pos < toks@.len() && !pat_start(toks@[pos as int]) ==> r == Err::<(Pat, usize), ParseError>(
            ParseError { pos, kind: ErrorKind::Unexpected },
        ),
        pos < toks@.len() && toks@[pos as int] == Tok::Kw(Keyword::Underscore) ==> r == Ok::<(Pat, usize), ParseError>(
            (Pat::Wild, (pos + 1) as usize),
        ),
        simple_pat_at(toks@, pos as int) ==> (r matches Ok((p, end)) && end == pos + 1 && p == lone_pat_of(toks@[pos as int])),
        ({
            let e = simple_pats_end(toks@, pos + 1).unwrap();
            pos < toks@.len() && toks@[pos as int] == Tok::Open(Delim::Bracket) && simple_pats_end(toks@, pos + 1) is Some
                && e < toks@.len() && toks@[e] == Tok::Close(Delim::Bracket) ==> (r matches Ok((p, end)) && end == e + 1
                && slice_read(toks@, pos as int, end as int, p))
        }),
        lit_pat_at(toks@, pos as int) && range_pat_end(toks@, pos as int) is None ==> (r matches Ok((p, end)) && p is Lit
            && end == (if toks@[pos as int] is Lit { pos + 1 } else { pos + 2 })),
        binding_at(toks@, pos as int) ==> (r matches Ok((p, end)) && p == lone_pat_of(toks@[pos as int]) && end == pos + 1),
        range_pat_end(toks@, pos as int) is Some ==> (r matches Ok((p, end)) && p is Range && range_pat_end(
            toks@,
            pos as int,
        ) == Some(end as int) && range_read(toks@, pos as int, end as int, p)),
        ({
            let j = path_end(toks@, pos as int).unwrap();
            pos + 1 < toks@.len() && toks@[pos as int] is Ident && toks@[pos + 1] == Tok::Punct(Punct::Colon2)
                && path_end(toks@, pos as int) is Some && !(j < toks@.len() && (toks@[j] == Tok::Open(Delim::Paren)
                || toks@[j] == Tok::Open(Delim::Brace) || toks@[j] == Tok::Punct(Punct::Bang) || is_dots(toks@[j])))
                ==> (r matches Ok((p, end)) && p is Path && end == j)
        }),
    decreases toks@.len() - pos, 5int,
{
    if pos >= toks.len() {
        return err(pos, ErrorKind::Unexpected);
    }
    if toks[pos] == Tok::Kw(Keyword::Underscore) {
        proof {
            lemma_covers_tok(toks@, pos as int, Tok::Kw(Keyword::Underscore));
        }
        return Ok((Pat::Wild, pos + 1));
    }
    if toks[pos] == Tok::Kw(Keyword::Box) {
        let (p, end) = parse_pat(toks, pos + 1)?;
        proof {
            lemma_parsed_pat_covers(toks@, pos + 1, end as int, p);
            lemma_covers_tok(toks@, pos as int, Tok::Kw(Keyword::Box));
            lemma_covers_cat(toks@, pos as int, pos + 1, end as int, k1(Keyword::Box), tokens_pat(p));
        }
        return Ok((Pat::Box(PatBox { pat: Box::new(p) }), end));
    }
    if let Ok((p, end)) = pat_range(toks, pos) {
        return Ok((p, end));
    }
    if starts_path_at(toks, pos) {
        if let Ok((p, end)) = pat_tuple_struct(toks, pos) {
            return Ok((p, end));
        }
        if let Ok((p, end)) = pat_struct(toks, pos) {
            return Ok((p, end));
        }
        if let Ok((p, end)) = pat_macro(toks, pos) {
            return Ok((p, end));
        }
    }
    if let Ok((p, end)) = pat_lit(toks, pos) {
        return Ok((p, end));
    }
    if let Ok((p, end)) = pat_ident(toks, pos) {
        return Ok((p, end));
    }
    if let Ok((p, end)) = pat_path(toks, pos) {
        return Ok((p, end));
    }
    if toks[pos] == Tok::Open(Delim::Paren) {
        let (t, end) = pat_tuple(toks, pos)?;
        return Ok((Pat::Tuple(t), end));
    }
    if toks[pos] == Tok::Punct(Punct::And) || toks[pos] == Tok::Punct(Punct::AndAnd) {
        return pat_ref(toks, pos);
    }
    if toks[pos] == Tok::Open(Delim::Bracket) {
        return pat_slice(toks, pos);
    }
    err(pos, ErrorKind::Unexpected)
}

/// The operand of a literal or range pattern: a literal or a path, with an
/// optional `-` in front.
fn pat_lit_expr(toks: &Vec<Tok>, pos: usize) -> (r: Result<(Expr, usize), ParseError>)
    requires
        pos <= toks.len(),
    ensures
        r matches Ok((e, end)) ==> pos < end <= toks.len() && covers(toks@, pos as int, end as int, tokens_expr(e)),
        r is Ok ==> pos < toks@.len() && pat_start(toks@[pos as int]),
        r is Ok <==> lit_expr_end(toks@, pos as int) is Some,
        r matches Ok((e, end)) ==> lit_expr_end(toks@, pos as int) == Some(end as int),
        r matches Ok((e, end)) ==> (toks@[pos as int] is Lit ==> lit_operand(e, toks@[pos as int])),
{
    let neg = pos < toks.len() && toks[pos] == Tok::Punct(Punct::Sub);
    let i = if neg {
        pos + 1
    } else {
        pos
    };
    if i >= toks.len() {
        return err(i, ErrorKind::Unexpected);
    }
    let (e, end) = if let Tok::Lit(lit) = toks[i] {
        let e = Expr::Lit(ExprLit { attrs: Vec::new(), lit });
        proof {
            lemma_covers_tok(toks@, i as int, Tok::Lit(lit));
            assert(tokens_expr(e) =~= seq![Tok::Lit(lit)]);
        }
        (e, i + 1)
    } else if starts_path_at(toks, i) {
        let (path, end) = parse_path(toks, i)?;
        let e = Expr::Path(ExprPath { attrs: Vec::new(), path });
        proof {
            assert(tokens_expr(e) =~= tokens_path(path));
        }
        (e, end)
    } else {
        return err(i, ErrorKind::Unexpected);
    };
    if neg {
        let e2 = Expr::Unary(ExprUnary { attrs: Vec::new(), op: UnOp::Neg, expr: Box::new(e) });
        proof {
            lemma_covers_tok(toks@, pos as int, Tok::Punct(Punct::Sub));
            lemma_covers_cat(toks@, pos as int, i as int, end as int, p1(Punct::Sub), tokens_expr(e));
            assert(tokens_expr(e2) =~= p1(Punct::Sub) + tokens_expr(e));
        }
        Ok((e2, end))
    } else {
        Ok((e, end))
    }
}

/// A range pattern `lo..hi`, `lo..=hi` or `lo...hi`.
fn pat_range(toks: &Vec<Tok>, pos: usize) -> (r: Result<(Pat, usize), ParseError>)
    requires
        pos <= toks.len(),
    ensures
        r matches Ok((p, end)) ==> parsed_pat(toks@, pos as int, end as int, p),
        r is Ok ==> pos < toks@.len() && pat_start(toks@[pos as int]),
        r is Ok <==> range_pat_end(toks@, pos as int) is Some,
        r matches Ok((p, end)) ==> range_pat_end(toks@, pos as int) == Some(end as int) && p is Range,
        r matches Ok((p, end)) ==> range_read(toks@, pos as int, end as int, p),
{
    let (lo, i) = pat_lit_expr(toks, pos)?;
    let (limits, j) = parse_range_limits(toks, i)?;
    let (hi, end) = pat_lit_expr(toks, j)?;
    let ghost lt = match limits {
        RangeLimits::HalfOpen => p1(Punct::Dot2),
        RangeLimits::Closed => p1(Punct::Dot3),
    };
    proof {
        if limits == RangeLimits::HalfOpen {
            lemma_covers_tok(toks@, i as int, Tok::Punct(Punct::Dot2));
        } else {
            lemma_covers_tok(toks@, i as int, Tok::Punct(Punct::Dot3));
        }
        lemma_covers_cat(toks@, pos as int, i as int, j as int, tokens_expr(lo), lt);
        lemma_covers_cat(toks@, pos as int, j as int, end as int, tokens_expr(lo) + lt, tokens_expr(hi));
    }
    Ok((Pat::Range(PatRange { lo: Box::new(lo), limits, hi: Box::new(hi) }), end))
}

/// A literal pattern: a literal, or `-` and a literal.
fn pat_lit(toks: &Vec<Tok>, pos: usize) -> (r: Result<(Pat, usize), ParseError>)
    requires
        pos <= toks.len(),
    ensures
        r matches Ok((p, end)) ==> parsed_pat(toks@, pos as int, end as int, p),
        r is Ok ==> pos < toks@.len() && pat_start(toks@[pos as int]),
        r is Ok <==> lit_pat_at(toks@, pos as int),
        !lit_pat_at(toks@, pos as int) ==> r == Err::<(Pat, usize), ParseError>(
            ParseError { pos, kind: ErrorKind::ExpectedLiteralPattern },
        ),
        r matches Ok((p, end)) ==> p is Lit && end == (if toks@[pos as int] is Lit { pos + 1 } else { pos + 2 }),
{
    let is_lit = pos < toks.len() && (matches!(toks[pos], Tok::Lit(_)) || toks[pos] == Tok::Punct(
        Punct::Sub,
    ) && pos + 1 < toks.len() && matches!(toks[pos + 1], Tok::Lit(_)));
    if !is_lit {
        return err(pos, ErrorKind::ExpectedLiteralPattern);
    }
    let (e, end) = pat_lit_expr(toks, pos)?;
    Ok((Pat::Lit(PatLit { expr: Box::new(e) }), end))
}

/// A binding: `ref`, `mut`, a name (an identifier or `self`) and an optional
/// `@ pattern`.
fn pat_ident(toks: &Vec<Tok>, pos: usize) -> (r: Result<(Pat, usize), ParseError>)
    requires
        pos <= toks.len(),
    ensures
        r matches Ok((p, end)) ==> parsed_pat(toks@, pos as int, end as int, p),
        r is Ok ==> pos < toks@.len() && pat_start(toks@[pos as int]),
        ({
            let i = binding_name_pos(toks@, pos as int);
            let named = i < toks@.len() && (toks@[i] is Ident || toks@[i] == Tok::Kw(Keyword::SelfValue));
            &&& !named ==> r == Err::<(Pat, usize), ParseError>(
                ParseError { pos: i as usize, kind: ErrorKind::ExpectedIdentOrSelf },
            )
            &&& named && i + 1 < toks@.len() && (toks@[i + 1] == Tok::Punct(Punct::Lt) || toks@[i + 1]
                == Tok::Punct(Punct::Colon2)) ==> r is Err
            &&& named && !(i + 1 < toks@.len() && (toks@[i + 1] == Tok::Punct(Punct::Lt) || toks@[i + 1]
                == Tok::Punct(Punct::Colon2) || toks@[i + 1] == Tok::Punct(Punct::At))) ==> (r matches Ok((p, end))
                && p is Ident && p->Ident_0.subpat is None && end == i + 1 && p->Ident_0.ident == name_of_tok(toks@[i]).unwrap()
                && p->Ident_0.by_ref == (toks@[pos as int] == Tok::Kw(Keyword::Ref)) && p->Ident_0.mutability == (i > pos
                && toks@[i - 1] == Tok::Kw(Keyword::Mut)))
            &&& named && i + 2 < toks@.len() && toks@[i + 1] == Tok::Punct(Punct::At) && toks@[i + 2] == Tok::Kw(
                Keyword::Underscore,
            ) ==> (r matches Ok((p, end)) && p is Ident && p->Ident_0.subpat is Some && end == i + 3)
        }),
    decreases toks@.len() - pos, 4int,
{
    let mut i = pos;
    let by_ref = i < toks.len() && toks[i] == Tok::Kw(Keyword::Ref);
    proof {
        lemma_covers_empty(toks@, pos as int);
    }
    if by_ref {
        proof {
            lemma_covers_tok(toks@, i as int, Tok::Kw(Keyword::Ref));
        }
        i = i + 1;
    }
    let ghost h1 = maybe(by_ref, k1(Keyword::Ref));
    assert(covers(toks@, pos as int, i as int, h1));
    let m0 = i;
    let mutability = i < toks.len() && toks[i] == Tok::Kw(Keyword::Mut);
    proof {
        lemma_covers_empty(toks@, i as int);
    }
    if mutability {
        proof {
            lemma_covers_tok(toks@, i as int, Tok::Kw(Keyword::Mut));
        }
        i = i + 1;
    }
    let ghost h2 = maybe(mutability, k1(Keyword::Mut));
    proof {
        lemma_covers_cat(toks@, pos as int, m0 as int, i as int, h1, h2);
    }
    if !(i < toks.len() && (matches!(toks[i], Tok::Ident(_)) || toks[i] == Tok::Kw(Keyword::SelfValue))) {
        return err(i, ErrorKind::ExpectedIdentOrSelf);
    }
    let ident = match name_at(toks, i) {
        Some(n) => n,
        None => {
            return err(i, ErrorKind::ExpectedIdentOrSelf);
        },
    };
    let j = i + 1;
    if j < toks.len() && (toks[j] == Tok::Punct(Punct::Lt) || toks[j] == Tok::Punct(Punct::Colon2)) {
        return err(j, ErrorKind::Unexpected);
    }
    proof {
        lemma_covers_cat(toks@, pos as int, i as int, j as int, h1 + h2, tokens_name(ident));
    }
    let ghost head = h1 + h2 + tokens_name(ident);
    if j < toks.len() && toks[j] == Tok::Punct(Punct::At) {
        let (sub, end) = parse_pat(toks, j + 1)?;
        proof {
            lemma_parsed_pat_covers(toks@, j + 1, end as int, sub);
            lemma_covers_tok(toks@, j as int, Tok::Punct(Punct::At));
            lemma_covers_cat(toks@, j as int, j + 1, end as int, p1(Punct::At), tokens_pat(sub));
            lemma_covers_cat(toks@, pos as int, j as int, end as int, head, p1(Punct::At) + tokens_pat(sub));
        }
        let p = Pat::Ident(PatIdent { by_ref, mutability, ident, subpat: Some(Box::new(sub)) });
        proof {
            assert(tokens_pat(p) =~= head + (p1(Punct::At) + tokens_pat(sub)));
        }
        Ok((p, end))
    } else {
        let p = Pat::Ident(PatIdent { by_ref, mutability, ident, subpat: None });
        proof {
            assert(tokens_pat(p) =~= head + Seq::<Tok>::empty());
        }
        Ok((p, j))
    }
}

/// A path pattern. Outer attributes before it are read and not kept.
fn pat_path(toks: &Vec<Tok>, pos: usize) -> (r: Result<(Pat, usize), ParseError>)
    requires
        pos <= toks.len(),
    ensures
        r matches Ok((p, end)) ==> parsed_pat(toks@, pos as int, end as int, p),
        r is Ok ==> pos < toks@.len() && pat_start(toks@[pos as int]),
        r is Ok <==> (outer_end(toks@, pos as int) is Some && path_end(
            toks@,
            outer_end(toks@, pos as int).unwrap(),
        ) is Some),
        r matches Ok((p, end)) ==> p is Path && Some(end as int) == path_end(
            toks@,
            outer_end(toks@, pos as int).unwrap(),
        ),
{
    let (attrs, i) = parse_outer(toks, pos)?;
    let (path, end) = parse_path(toks, i)?;
    proof {
        if attrs@.len() == 0 {
            lemma_covers_cat(toks@, pos as int, i as int, end as int, Seq::empty(), tokens_path(path));
            assert(Seq::<Tok>::empty() + tokens_path(path) =~= tokens_path(path));
        }
    }
    Ok((Pat::Path(PatPath { path }), end))
}

/// A macro in pattern position.
fn pat_macro(toks: &Vec<Tok>, pos: usize) -> (r: Result<(Pat, usize), ParseError>)
    requires
        pos <= toks.len(),
    ensures
        r matches Ok((p, end)) ==> parsed_pat(toks@, pos as int, end as int, p),
        r is Ok ==> pos < toks@.len() && pat_start(toks@[pos as int]),
        r is Ok <==> ({
            let j = path_end(toks@, pos as int).unwrap();
            path_end(toks@, pos as int) is Some && j < toks@.len() && toks@[j] == Tok::Punct(Punct::Bang)
                && group_end(toks@, j + 1) is Some
        }),
        r matches Ok((p, end)) ==> p is Macro && Some(end as int) == group_end(
            toks@,
            path_end(toks@, pos as int).unwrap() + 1,
        ),
{
    let (path, j) = parse_path(toks, pos)?;
    let (delimiter, tts, end) = parse_macro_tail(toks, j)?;
    let m = Macro { path, delimiter, tts };
    proof {
        lemma_covers_cat(toks@, pos as int, j as int, end as int, tokens_path(m.path), p1(Punct::Bang) + delimited(delimiter, m.tts@));
        assert(tokens_macro(m) =~= tokens_path(m.path) + (p1(Punct::Bang) + delimited(delimiter, m.tts@)));
    }
    Ok((Pat::Macro(m), end))
}

/// A reference pattern `&p` or `&mut p`.
fn pat_ref(toks: &Vec<Tok>, pos: usize) -> (r: Result<(Pat, usize), ParseError>)
    requires
        pos < toks.len(),
        toks@[pos as int] == Tok::Punct(Punct::And) || toks@[pos as int] == Tok::Punct(Punct::AndAnd),
    ensures
        r matches Ok((p, end)) ==> parsed_pat(toks@, pos as int, end as int, p),
        toks@[pos as int] == Tok::Punct(Punct::AndAnd) ==> ({
            let i = if pos + 1 < toks@.len() && toks@[pos + 1] == Tok::Kw(Keyword::Mut) {
                pos + 2
            } else {
                pos + 1
            };
            simple_pat_at(toks@, i) ==> (r matches Ok((p, end)) && p is Ref && !p->Ref_0.mutability
                && *p->Ref_0.pat is Ref && p->Ref_0.pat->Ref_0.mutability == (i == pos + 2) && end == i + 1)
        }),
        toks@[pos as int] == Tok::Punct(Punct::And) ==> ({
            let i = if pos + 1 < toks@.len() && toks@[pos + 1] == Tok::Kw(Keyword::Mut) {
                pos + 2
            } else {
                pos + 1
            };
            &&& i < toks@.len() && toks@[i] == Tok::Kw(Keyword::Underscore) ==> (r matches Ok((p, end)) && p is Ref
                && *p->Ref_0.pat == Pat::Wild && p->Ref_0.mutability == (i == pos + 2) && end == i + 1)
            &&& simple_pat_at(toks@, i) ==> (r matches Ok((p, end)) && p is Ref && p->Ref_0.mutability == (i == pos + 2)
                && end == i + 1)
        }),
    decreases toks@.len() - pos, 4int,
{
    let double = toks[pos] == Tok::Punct(Punct::AndAnd);
    let ghost amp = if double {
        seq![Tok::Punct(Punct::And), Tok::Punct(Punct::And)]
    } else {
        p1(Punct::And)
    };
    let mut i = pos + 1;
    let mutability = i < toks.len() && toks[i] == Tok::Kw(Keyword::Mut);
    proof {
        if double {
            lemma_covers_and_and(toks@, pos as int);
        } else {
            lemma_covers_tok(toks@, pos as int, Tok::Punct(Punct::And));
        }
        lemma_covers_empty(toks@, i as int);
    }
    if mutability {
        proof {
            lemma_covers_tok(toks@, i as int, Tok::Kw(Keyword::Mut));
        }
        i = i + 1;
    }
    let ghost head = amp + maybe(mutability, k1(Keyword::Mut));
    proof {
        lemma_covers_cat(toks@, pos as int, pos + 1, i as int, amp, maybe(mutability, k1(Keyword::Mut)));
    }
    let (p, end) = parse_pat(toks, i)?;
    proof {
        lemma_parsed_pat_covers(toks@, i as int, end as int, p);
        lemma_covers_cat(toks@, pos as int, i as int, end as int, head, tokens_pat(p));
    }
    if double {
        let inner = Pat::Ref(PatRef { mutability, pat: Box::new(p) });
        proof {
            assert(tokens_pat(inner) == p1(Punct::And) + maybe(mutability, k1(Keyword::Mut)) + tokens_pat(p));
            assert(maybe(false, k1(Keyword::Mut)) =~= Seq::<Tok>::empty());
            assert(tokens_pat(Pat::Ref(PatRef { mutability: false, pat: Box::new(inner) })) == p1(Punct::And)
                + maybe(false, k1(Keyword::Mut)) + tokens_pat(inner));
            assert(amp =~= p1(Punct::And) + p1(Punct::And));
            assert(tokens_pat(Pat::Ref(PatRef { mutability: false, pat: Box::new(inner) })) =~= head + tokens_pat(p));
        }
        Ok((Pat::Ref(PatRef { mutability: false, pat: Box::new(inner) }), end))
    } else {
        Ok((Pat::Ref(PatRef { mutability, pat: Box::new(p) }), end))
    }
}

/// Reads patterns separated by commas up to the end of the current group; a
/// comma may follow the last one.
fn parse_pat_list(toks: &Vec<Tok>, pos: usize) -> (r: Result<(Vec<Pat>, bool, usize), ParseError>)
    requires
        1 <= pos <= toks.len(),
        pat_lead(toks@[pos - 1]),
    ensures
        r matches Ok((v, trailing, end)) ==> {
            &&& pos <= end <= toks.len()
            &&& at_group_end(toks@, end as int)
            &&& covers(toks@, pos as int, end as int, comma_list(tokens_pat_seq(v@), trailing))
        },
        at_group_end(toks@, pos as int) ==> (r matches Ok((v, trailing, end)) && v@.len() == 0 && !trailing
            && end == pos),
        simple_pats_end(toks@, pos as int) is Some ==> (r matches Ok((v, trailing, end)) && Some(end as int)
            == simple_pats_end(toks@, pos as int) && lone_pats_from(toks@, pos as int, v@)),
    decreases toks@.len() - pos, 6int,
{
    let mut i = pos;
    let mut elems: Vec<Pat> = Vec::new();
    let mut trailing = false;
    proof {
        lemma_covers_empty(toks@, pos as int);
    }
    loop
        invariant_except_break
            1 <= pos <= i <= toks.len(),
            pat_lead(toks@[i - 1]),
            !trailing,
            at_group_end(toks@, pos as int) ==> i == pos && elems@.len() == 0,
            simple_pats_end(toks@, pos as int) is Some ==> simple_pats_end(toks@, i as int) == simple_pats_end(toks@, pos as int),
            simple_pats_end(toks@, pos as int) is Some ==> i == pos + 2 * elems@.len() && lone_pats_from(toks@, pos as int, elems@),
            covers(
                toks@,
                pos as int,
                i as int,
                if elems@.len() == 0 {
                    Seq::empty()
                } else {
                    interleave(tokens_pat_seq(elems@), Punct::Comma) + p1(Punct::Comma)
                },
            ),
        ensures
            pos <= i <= toks.len(),
            at_group_end(toks@, i as int),
            covers(toks@, pos as int, i as int, comma_list(tokens_pat_seq(elems@), trailing)),
            at_group_end(toks@, pos as int) ==> i == pos && elems@.len() == 0 && !trailing,
            simple_pats_end(toks@, pos as int) is Some ==> Some(i as int) == simple_pats_end(toks@, pos as int)
                && lone_pats_from(toks@, pos as int, elems@),
        decreases toks@.len() - i,
    {
        if is_group_end(toks, i) {
            trailing = elems.len() > 0;
            proof {
                lemma_pat_seq_len(elems@);
                if elems@.len() == 0 {
                    assert(comma_list(tokens_pat_seq(elems@), trailing) =~= Seq::<Tok>::empty());
                }
            }
            break;
        }
        let ghost old_elems = elems@;
        let ghost before = if old_elems.len() == 0 {
            Seq::<Tok>::empty()
        } else {
            interleave(tokens_pat_seq(old_elems), Punct::Comma) + p1(Punct::Comma)
        };
        let (p, j) = parse_pat(toks, i)?;
        proof {
            lemma_pat_seq_push(old_elems, p);
            lemma_pat_seq_len(old_elems);
            lemma_interleave_push(tokens_pat_seq(old_elems), tokens_pat(p), Punct::Comma);
            lemma_parsed_pat_covers(toks@, i as int, j as int, p);
            lemma_covers_cat(toks@, pos as int, i as int, j as int, before, tokens_pat(p));
            if old_elems.len() == 0 {
                assert(before + tokens_pat(p) =~= tokens_pat(p));
            }
        }
        elems.push(p);
        i = j;
        assert(covers(toks@, pos as int, i as int, interleave(tokens_pat_seq(elems@), Punct::Comma)));
        if is_group_end(toks, i) {
            proof {
                assert(comma_list(tokens_pat_seq(elems@), trailing) =~= interleave(
                    tokens_pat_seq(elems@),
                    Punct::Comma,
                ));
            }
            break;
        }
        let n = expect(toks, i, Tok::Punct(Punct::Comma))?;
        proof {
            lemma_covers_tok(toks@, i as int, Tok::Punct(Punct::Comma));
            lemma_covers_cat(
                toks@,
                pos as int,
                i as int,
                n as int,
                interleave(tokens_pat_seq(elems@), Punct::Comma),
                p1(Punct::Comma),
            );
        }
        i = n;
    }
    Ok((elems, trailing, i))
}


/// A tuple struct pattern `P(..)`.
fn pat_tuple_struct(toks: &Vec<Tok>, pos: usize) -> (r: Result<(Pat, usize), ParseError>)
    requires
        pos <= toks.len(),
    ensures
        r matches Ok((p, end)) ==> parsed_pat(toks@, pos as int, end as int, p),
        r is Ok ==> pos < toks@.len() && pat_start(toks@[pos as int]),
        !({
            let j = path_end(toks@, pos as int).unwrap();
            path_end(toks@, pos as int) is Some && j < toks@.len() && toks@[j] == Tok::Open(Delim::Paren)
        }) ==> r is Err,
        ({
            let j = path_end(toks@, pos as int).unwrap();
            path_end(toks@, pos as int) is Some && j + 1 < toks@.len() && toks@[j] == Tok::Open(Delim::Paren)
                && toks@[j + 1] == Tok::Close(Delim::Paren) ==> (r matches Ok((p, end)) && p is TupleStruct
                && end == j + 2)
        }),
        ({
            let j = path_end(toks@, pos as int).unwrap();
            let e = simple_pats_end(toks@, j + 1).unwrap();
            path_end(toks@, pos as int) is Some && j < toks@.len() && toks@[j] == Tok::Open(Delim::Paren)
                && simple_pats_end(toks@, j + 1) is Some && e < toks@.len() && toks@[e] == Tok::Close(Delim::Paren)
                ==> (r matches Ok((p, end)) && p is TupleStruct && end == e + 1)
        }),
    decreases toks@.len() - pos, 4int,
{
    let (path, j) = parse_path(toks, pos)?;
    if !(j < toks.len() && toks[j] == Tok::Open(Delim::Paren)) {
        return err(j, ErrorKind::Unexpected);
    }
    let (t, end) = pat_tuple(toks, j)?;
    proof {
        lemma_covers_cat(toks@, pos as int, j as int, end as int, tokens_path(path), tokens_pat_tuple(t));
    }
    Ok((Pat::TupleStruct(PatTupleStruct { path, pat: t }), end))
}

/// A tuple pattern `(a, b)`, `(a, .., z)`, starting at its `(`.
fn pat_tuple(toks: &Vec<Tok>, pos: usize) -> (r: Result<(PatTuple, usize), ParseError>)
    requires
        pos < toks.len(),
        toks@[pos as int] == Tok::Open(Delim::Paren),
    ensures
        r matches Ok((t, end)) ==> pos < end <= toks.len() && covers(toks@, pos as int, end as int, tokens_pat_tuple(t)),
        pos + 1 < toks@.len() && toks@[pos + 1] == Tok::Close(Delim::Paren) ==> (r matches Ok((t, end))
            && t.front@.len() == 0 && !t.dot2 && t.back@.len() == 0 && end == pos + 2),
        ({
            let e = simple_pats_end(toks@, pos + 1).unwrap();
            simple_pats_end(toks@, pos + 1) is Some && e < toks@.len() && toks@[e] == Tok::Close(Delim::Paren) ==> (r matches Ok((
                t,
                end,
            )) && !t.dot2 && t.back@.len() == 0 && end == e + 1 && lone_pats_from(toks@, pos + 1, t.front@))
        }),
        ({
            let d = pats_before_dots(toks@, pos + 1).unwrap();
            let e = after_dots_end(toks@, d).unwrap();
            pats_before_dots(toks@, pos + 1) is Some && after_dots_end(toks@, d) is Some && e < toks@.len()
                && toks@[e] == Tok::Close(Delim::Paren) ==> (r matches Ok((t, end)) && t.dot2 && end == e + 1
                && lone_pats_from(toks@, pos + 1, t.front@) && lone_pats_from(toks@, d + 2, t.back@)
                && t.front@.len() == (d - pos - 1) / 2)
        }),
    decreases toks@.len() - pos, 3int,
{
    let start = pos + 1;
    let mut i = start;
    let mut front: Vec<Pat> = Vec::new();
    let mut front_trailing = false;
    let mut dot2 = false;
    let mut comma = false;
    proof {
        lemma_covers_empty(toks@, start as int);
        assert(comma_list(tokens_pat_seq(front@), front_trailing) =~= Seq::<Tok>::empty());
    }
    loop
        invariant_except_break
            start == pos + 1,
            start <= i <= toks.len(),
            pat_lead(toks@[i - 1]),
            !dot2,
            !comma,
            start < toks@.len() && toks@[start as int] == Tok::Close(Delim::Paren) ==> i == start && front@.len() == 0,
            simple_pats_end(toks@, start as int) is Some ==> simple_pats_end(toks@, i as int) == simple_pats_end(toks@, start as int),
            pats_before_dots(toks@, start as int) is Some ==> pats_before_dots(toks@, i as int) == pats_before_dots(toks@, start as int),
            simple_pats_end(toks@, start as int) is Some || pats_before_dots(toks@, start as int) is Some ==> i == start + 2
                * front@.len() && lone_pats_from(toks@, start as int, front@),
            front@.len() == 0 || front_trailing,
            front_trailing ==> front@.len() > 0,
            covers(toks@, start as int, i as int, comma_list(tokens_pat_seq(front@), front_trailing)),
        ensures
            start == pos + 1,
            start <= i <= toks.len(),
            !dot2 ==> !comma,
            simple_pats_end(toks@, start as int) is Some || pats_before_dots(toks@, start as int) is Some
                ==> lone_pats_from(toks@, start as int, front@),
            pats_before_dots(toks@, start as int) is Some ==> pats_before_dots(toks@, start as int).unwrap() == start + 2
                * front@.len(),
            ({
                let d = pats_before_dots(toks@, start as int).unwrap();
                pats_before_dots(toks@, start as int) is Some ==> dot2 && comma == (d + 1 < toks@.len() && toks@[d + 1]
                    == Tok::Punct(Punct::Comma)) && i == (if comma { d + 2 } else { d + 1 })
            }),
            comma ==> i >= 1 && toks@[i - 1] == Tok::Punct(Punct::Comma),
            start < toks@.len() && toks@[start as int] == Tok::Close(Delim::Paren) ==> i == start && !dot2
                && front@.len() == 0,
            simple_pats_end(toks@, start as int) is Some ==> !dot2 && !comma && Some(i as int) == simple_pats_end(
                toks@,
                start as int,
            ),
            dot2 ==> (front@.len() == 0 || front_trailing),
            front_trailing ==> front@.len() > 0,
            covers(
                toks@,
                start as int,
                i as int,
                comma_list(tokens_pat_seq(front@), front_trailing) + maybe(
                    dot2,
                    p1(Punct::Dot2) + maybe(comma, p1(Punct::Comma)),
                ),
            ),
        decreases toks@.len() - i,
    {
        let ghost ft = comma_list(tokens_pat_seq(front@), front_trailing);
        if is_group_end(toks, i) {
            proof {
                assert(ft + maybe(dot2, p1(Punct::Dot2) + maybe(comma, p1(Punct::Comma))) =~= ft);
            }
            break;
        }
        if toks[i] == Tok::Punct(Punct::Dot2) {
            dot2 = true;
            proof {
                lemma_covers_tok(toks@, i as int, Tok::Punct(Punct::Dot2));
            }
            let d = i;
            i = i + 1;
            proof {
                lemma_covers_empty(toks@, i as int);
            }
            if i < toks.len() && toks[i] == Tok::Punct(Punct::Comma) {
                comma = true;
                proof {
                    lemma_covers_tok(toks@, i as int, Tok::Punct(Punct::Comma));
                }
                i = i + 1;
            }
            proof {
                lemma_covers_cat(toks@, d as int, d + 1, i as int, p1(Punct::Dot2), maybe(comma, p1(Punct::Comma)));
                lemma_covers_cat(toks@, start as int, d as int, i as int, ft, p1(Punct::Dot2) + maybe(comma, p1(Punct::Comma)));
            }
            break;
        }
        let ghost old_front = front@;
        let ghost before = if old_front.len() == 0 {
            Seq::<Tok>::empty()
        } else {
            interleave(tokens_pat_seq(old_front), Punct::Comma) + p1(Punct::Comma)
        };
        proof {
            assert(ft =~= before);
        }
        let (p, j) = parse_pat(toks, i)?;
        proof {
            lemma_pat_seq_push(old_front, p);
            lemma_pat_seq_len(old_front);
            lemma_interleave_push(tokens_pat_seq(old_front), tokens_pat(p), Punct::Comma);
            lemma_parsed_pat_covers(toks@, i as int, j as int, p);
            lemma_covers_cat(toks@, start as int, i as int, j as int, before, tokens_pat(p));
            if old_front.len() == 0 {
                assert(before + tokens_pat(p) =~= tokens_pat(p));
            }
        }
        front.push(p);
        front_trailing = false;
        i = j;
        assert(covers(toks@, start as int, i as int, interleave(tokens_pat_seq(front@), Punct::Comma)));
        proof {
            assert(comma_list(tokens_pat_seq(front@), front_trailing) =~= interleave(tokens_pat_seq(front@), Punct::Comma));
        }
        if is_group_end(toks, i) {
            proof {
                let f2 = comma_list(tokens_pat_seq(front@), front_trailing);
                assert(f2 + maybe(dot2, p1(Punct::Dot2) + maybe(comma, p1(Punct::Comma))) =~= f2);
            }
            break;
        }
        let n = expect(toks, i, Tok::Punct(Punct::Comma))?;
        proof {
            lemma_covers_tok(toks@, i as int, Tok::Punct(Punct::Comma));
            lemma_covers_cat(toks@, start as int, i as int, n as int, interleave(tokens_pat_seq(front@), Punct::Comma), p1(Punct::Comma));
        }
        front_trailing = true;
        i = n;
        proof {
            lemma_pat_seq_len(front@);
            assert(comma_list(tokens_pat_seq(front@), front_trailing) =~= interleave(tokens_pat_seq(front@), Punct::Comma) + p1(Punct::Comma));
        }
    }
    let ghost head = comma_list(tokens_pat_seq(front@), front_trailing) + maybe(dot2, p1(Punct::Dot2) + maybe(comma, p1(Punct::Comma)));
    let (back, back_trailing, k) = if comma {
        parse_pat_list(toks, i)?
    } else {
        proof {
            lemma_covers_empty(toks@, i as int);
            assert(comma_list(tokens_pat_seq(Seq::<Pat>::empty()), false) =~= Seq::<Tok>::empty());
        }
        (Vec::new(), false, i)
    };
    let end = expect(toks, k, Tok::Close(Delim::Paren))?;
    let t = PatTuple { front, front_trailing, dot2, comma, back, back_trailing };
    proof {
        lemma_pat_seq_len(back@);
        lemma_covers_cat(toks@, start as int, i as int, k as int, head, comma_list(tokens_pat_seq(back@), back_trailing));
        let mid = maybe(
            t.dot2,
            maybe(t.front@.len() > 0 && !t.front_trailing, p1(Punct::Comma)) + p1(Punct::Dot2)
                + maybe(t.comma, p1(Punct::Comma)) + maybe(!t.comma && t.back@.len() > 0, p1(Punct::Comma)),
        );
        assert(mid =~= maybe(dot2, p1(Punct::Dot2) + maybe(comma, p1(Punct::Comma))));
        lemma_covers_delim(toks@, pos as int, k as int, Delim::Paren, head + comma_list(tokens_pat_seq(back@), back_trailing));
        assert(tokens_pat_tuple(t) =~= delimited(Delim::Paren, head + comma_list(tokens_pat_seq(back@), back_trailing)));
    }
    Ok((t, end))
}

/// The tokens of the middle of a slice pattern, `p..`.
pub open spec fn tokens_opt_pat(m: Option<Box<Pat>>) -> Seq<Tok> {
    match m {
        Some(m) => tokens_pat(*m),
        None => Seq::empty(),
    }
}

/// `n` patterns of one token each, separated by commas, with a trailing
/// comma where `trailing`, between the brackets at `pos` and `end - 1`.
proof fn lemma_half_count(n: int, pos: int, end: int, trailing: bool)
    requires
        n >= 0,
        n == 0 ==> end - 1 == pos + 1,
        n > 0 && trailing ==> end - 1 == pos + 1 + 2 * n,
        n > 0 && !trailing ==> end - 1 == pos + 2 * n,
    ensures
        (end - 1 - pos) / 2 == n,
{
}

/// A slice pattern `[a, b, rest.., z]`, starting at its `[`.
#[verifier::rlimit(40)]
#[verifier::spinoff_prover]
fn pat_slice(toks: &Vec<Tok>, pos: usize) -> (r: Result<(Pat, usize), ParseError>)
    requires
        pos < toks.len(),
        toks@[pos as int] == Tok::Open(Delim::Bracket),
    ensures
        r matches Ok((p, end)) ==> parsed_pat(toks@, pos as int, end as int, p),
        pos + 1 < toks@.len() && toks@[pos + 1] == Tok::Close(Delim::Bracket) ==> (r matches Ok((p, end))
            && p is Slice && p->Slice_0.front@.len() == 0 && p->Slice_0.middle is None && !p->Slice_0.dot2
            && p->Slice_0.back@.len() == 0 && end == pos + 2),
        ({
            let e = simple_pats_end(toks@, pos + 1).unwrap();
            simple_pats_end(toks@, pos + 1) is Some && e < toks@.len() && toks@[e] == Tok::Close(Delim::Bracket) ==> (r matches Ok((
                p,
                end,
            )) && p is Slice && p->Slice_0.middle is None && !p->Slice_0.dot2 && p->Slice_0.back@.len() == 0 && end == e + 1
                && lone_pats_from(toks@, pos + 1, p->Slice_0.front@) && slice_read(toks@, pos as int, end as int, p))
        }),
        ({
            let d = slice_dots_at(toks@, pos + 1).unwrap();
            let e = after_dots_end(toks@, d).unwrap();
            slice_dots_at(toks@, pos + 1) is Some && after_dots_end(toks@, d) is Some && e < toks@.len()
                && toks@[e] == Tok::Close(Delim::Bracket) ==> (r matches Ok((p, end)) && p is Slice && p->Slice_0.dot2
                && (p->Slice_0.middle is Some <==> toks@[d - 1] is Ident) && end == e + 1 && lone_pats_from(
                toks@,
                pos + 1,
                p->Slice_0.front@,
            ) && lone_pats_from(toks@, d + 2, p->Slice_0.back@) && (p->Slice_0.middle matches Some(m) ==> *m
                == lone_pat_of(toks@[d - 1])))
        }),
    decreases toks@.len() - pos, 4int,
{
    let start = pos + 1;
    let mut i = start;
    let mut front: Vec<Pat> = Vec::new();
    let mut front_trailing = false;
    let mut middle: Option<Box<Pat>> = None;
    proof {
        lemma_covers_empty(toks@, start as int);
        assert(comma_list(tokens_pat_seq(front@), front_trailing) =~= Seq::<Tok>::empty());
    }
    loop
        invariant_except_break
            start == pos + 1,
            start <= i <= toks.len(),
            pat_lead(toks@[i - 1]),
            middle is None,
            start < toks@.len() && toks@[start as int] == Tok::Close(Delim::Bracket) ==> i == start && front@.len() == 0,
            simple_pats_end(toks@, start as int) is Some ==> simple_pats_end(toks@, i as int) == simple_pats_end(toks@, start as int),
            slice_dots_at(toks@, start as int) is Some ==> slice_dots_at(toks@, i as int) == slice_dots_at(toks@, start as int),
            simple_pats_end(toks@, start as int) is Some || slice_dots_at(toks@, start as int) is Some ==> i == start + 2
                * front@.len() && lone_pats_from(toks@, start as int, front@),
            front@.len() == 0 || front_trailing,
            front_trailing ==> front@.len() > 0,
            covers(toks@, start as int, i as int, comma_list(tokens_pat_seq(front@), front_trailing)),
            front_trailing ==> toks@[i - 1] == Tok::Punct(Punct::Comma),
        ensures
            simple_pats_end(toks@, start as int) is Some && front_trailing ==> toks@[i - 1] == Tok::Punct(Punct::Comma),
            simple_pats_end(toks@, start as int) is Some && front@.len() > 0 && !front_trailing ==> toks@[i - 1]
                != Tok::Punct(Punct::Comma),
            start == pos + 1,
            start <= i <= toks.len(),
            front_trailing ==> front@.len() > 0,
            simple_pats_end(toks@, start as int) is Some || slice_dots_at(toks@, start as int) is Some
                ==> lone_pats_from(toks@, start as int, front@),
            simple_pats_end(toks@, start as int) is Some ==> at_group_end(toks@, i as int),
            simple_pats_end(toks@, start as int) is Some ==> (front@.len() == 0 ==> i == start) && (front@.len() > 0
                && front_trailing ==> i == start + 2 * front@.len()) && (front@.len() > 0 && !front_trailing ==> i == start
                + 2 * front@.len() - 1),
            ({
                let d = slice_dots_at(toks@, start as int).unwrap();
                slice_dots_at(toks@, start as int) is Some ==> i == d && i < toks@.len() && toks@[i as int] == Tok::Punct(
                    Punct::Dot2,
                ) && (middle is Some <==> toks@[d - 1] is Ident) && (middle matches Some(m) ==> *m == lone_pat_of(toks@[d - 1]))
            }),
            middle is Some ==> (front@.len() == 0 || front_trailing) && i < toks.len() && toks@[i as int] == Tok::Punct(Punct::Dot2),
            (front@.len() > 0 && !front_trailing) ==> at_group_end(toks@, i as int) && middle is None,
            start < toks@.len() && toks@[start as int] == Tok::Close(Delim::Bracket) ==> i == start && front@.len() == 0
                && middle is None,
            simple_pats_end(toks@, start as int) is Some ==> middle is None && Some(i as int) == simple_pats_end(
                toks@,
                start as int,
            ),
            covers(toks@, start as int, i as int, comma_list(tokens_pat_seq(front@), front_trailing) + tokens_opt_pat(middle)),
        decreases toks@.len() - i,
    {
        let ghost ft = comma_list(tokens_pat_seq(front@), front_trailing);
        if is_group_end(toks, i) || toks[i] == Tok::Punct(Punct::Dot2) {
            proof {
                assert(ft + tokens_opt_pat(middle) =~= ft);
            }
            break;
        }
        let (p, j) = parse_pat(toks, i)?;
        proof {
            lemma_parsed_pat_covers(toks@, i as int, j as int, p);
        }
        if j < toks.len() && toks[j] == Tok::Punct(Punct::Dot2) {
            proof {
                lemma_covers_cat(toks@, start as int, i as int, j as int, ft, tokens_pat(p));
            }
            middle = Some(Box::new(p));
            i = j;
            break;
        }
        let ghost old_front = front@;
        let ghost before = if old_front.len() == 0 {
            Seq::<Tok>::empty()
        } else {
            interleave(tokens_pat_seq(old_front), Punct::Comma) + p1(Punct::Comma)
        };
        proof {
            assert(ft =~= before);
            lemma_pat_seq_push(old_front, p);
            lemma_pat_seq_len(old_front);
            lemma_interleave_push(tokens_pat_seq(old_front), tokens_pat(p), Punct::Comma);
            lemma_parsed_pat_covers(toks@, i as int, j as int, p);
            lemma_covers_cat(toks@, start as int, i as int, j as int, before, tokens_pat(p));
            if old_front.len() == 0 {
                assert(before + tokens_pat(p) =~= tokens_pat(p));
            }
        }
        front.push(p);
        front_trailing = false;
        i = j;
        proof {
            assert(comma_list(tokens_pat_seq(front@), front_trailing) =~= interleave(tokens_pat_seq(front@), Punct::Comma));
        }
        if is_group_end(toks, i) {
            proof {
                let f2 = comma_list(tokens_pat_seq(front@), front_trailing);
                assert(f2 + tokens_opt_pat(middle) =~= f2);
            }
            break;
        }
        let n = expect(toks, i, Tok::Punct(Punct::Comma))?;
        proof {
            lemma_covers_tok(toks@, i as int, Tok::Punct(Punct::Comma));
            lemma_covers_cat(toks@, start as int, i as int, n as int, interleave(tokens_pat_seq(front@), Punct::Comma), p1(Punct::Comma));
        }
        front_trailing = true;
        i = n;
        proof {
            lemma_pat_seq_len(front@);
            assert(comma_list(tokens_pat_seq(front@), front_trailing) =~= interleave(tokens_pat_seq(front@), Punct::Comma) + p1(Punct::Comma));
        }
    }
    let ghost head = comma_list(tokens_pat_seq(front@), front_trailing) + tokens_opt_pat(middle);
    let dot2 = i < toks.len() && toks[i] == Tok::Punct(Punct::Dot2);
    let d = i;
    proof {
        lemma_covers_empty(toks@, i as int);
    }
    if dot2 {
        proof {
            lemma_covers_tok(toks@, i as int, Tok::Punct(Punct::Dot2));
        }
        i = i + 1;
    }
    proof {
        lemma_covers_cat(toks@, start as int, d as int, i as int, head, maybe(dot2, p1(Punct::Dot2)));
    }
    let ghost head2 = head + maybe(dot2, p1(Punct::Dot2));
    let mut comma = false;
    let mut back: Vec<Pat> = Vec::new();
    let mut back_trailing = false;
    let c = i;
    proof {
        lemma_covers_empty(toks@, i as int);
    }
    if dot2 && i < toks.len() && toks[i] == Tok::Punct(Punct::Comma) {
        comma = true;
        proof {
            lemma_covers_tok(toks@, i as int, Tok::Punct(Punct::Comma));
        }
        let (b, bt, k) = parse_pat_list(toks, i + 1)?;
        proof {
            lemma_covers_cat(toks@, i as int, i + 1, k as int, p1(Punct::Comma), comma_list(tokens_pat_seq(b@), bt));
        }
        back = b;
        back_trailing = bt;
        i = k;
    }
    let ghost tail = maybe(comma, p1(Punct::Comma) + comma_list(tokens_pat_seq(back@), back_trailing));
    proof {
        if !comma {
            assert(tail =~= Seq::<Tok>::empty());
        }
        lemma_covers_cat(toks@, start as int, c as int, i as int, head2, tail);
    }
    let end = expect(toks, i, Tok::Close(Delim::Bracket))?;
    let ghost nf = front@.len() as int;
    let ghost iend = i as int;
    let p = Pat::Slice(PatSlice { front, front_trailing, middle, dot2, comma, back, back_trailing });
    let ghost gp = p;
    proof {
        lemma_covers_delim(toks@, pos as int, i as int, Delim::Bracket, head2 + tail);
        lemma_pat_seq_len(back@);
        if let Pat::Slice(x) = gp {
            let mid_toks = match x.middle {
                Some(m) => tokens_pat(*m) + p1(Punct::Dot2),
                None => maybe(x.dot2, p1(Punct::Dot2)),
            };
            assert(tokens_opt_pat(x.middle) + maybe(dot2, p1(Punct::Dot2)) =~= mid_toks);
            let back_toks = if x.back@.len() > 0 {
                p1(Punct::Comma) + comma_list(tokens_pat_seq(x.back@), x.back_trailing)
            } else {
                maybe(x.comma, p1(Punct::Comma))
            };
            if x.back@.len() == 0 {
                assert(comma_list(tokens_pat_seq(x.back@), x.back_trailing) =~= Seq::<Tok>::empty());
            }
            assert(back_toks =~= tail);
            assert(maybe(
                x.front@.len() > 0 && !x.front_trailing && (x.middle.is_some() || x.dot2),
                p1(Punct::Comma),
            ) =~= Seq::<Tok>::empty());
            assert(tokens_pat(p) =~= delimited(Delim::Bracket, head2 + tail));
        }
    }
    proof {
        if simple_pats_end(toks@, pos + 1) is Some {
            lemma_half_count(nf, pos as int, end as int, front_trailing);
        }
    }
    Ok((p, end))
}

/// A struct pattern `P { a, b: x, .. }`.
fn pat_struct(toks: &Vec<Tok>, pos: usize) -> (r: Result<(Pat, usize), ParseError>)
    requires
        pos <= toks.len(),
    ensures
        r matches Ok((p, end)) ==> parsed_pat(toks@, pos as int, end as int, p),
        r is Ok ==> pos < toks@.len() && pat_start(toks@[pos as int]),
        !({
            let j = path_end(toks@, pos as int).unwrap();
            path_end(toks@, pos as int) is Some && j < toks@.len() && toks@[j] == Tok::Open(Delim::Brace)
        }) ==> r is Err,
        ({
            let j = path_end(toks@, pos as int).unwrap();
            path_end(toks@, pos as int) is Some && j + 1 < toks@.len() && toks@[j] == Tok::Open(Delim::Brace)
                && toks@[j + 1] == Tok::Close(Delim::Brace) ==> (r matches Ok((p, end)) && p is Struct
                && p->Struct_0.fields@.len() == 0 && !p->Struct_0.dot2 && end == j + 2)
        }),
    decreases toks@.len() - pos, 4int,
{
    let (path, j) = parse_path(toks, pos)?;
    let open = expect(toks, j, Tok::Open(Delim::Brace))?;
    let mut i = open;
    let mut fields: Vec<FieldPat> = Vec::new();
    let mut trailing = false;
    proof {
        lemma_covers_empty(toks@, open as int);
        assert(comma_list(tokens_field_pat_seq(fields@), trailing) =~= Seq::<Tok>::empty());
    }
    loop
        invariant_except_break
            pos <= j,
            open == j + 1,
            path_end(toks@, pos as int) == Some(j as int),
            j < toks.len(),
            toks@[j as int] == Tok::Open(Delim::Brace),
            open <= i <= toks.len(),
            fields@.len() == 0 || trailing,
            trailing ==> fields@.len() > 0,
            i == open || toks@[i - 1] == Tok::Punct(Punct::Comma),
            covers(toks@, open as int, i as int, comma_list(tokens_field_pat_seq(fields@), trailing)),
            open < toks@.len() && toks@[open as int] == Tok::Close(Delim::Brace) ==> i == open && fields@.len() == 0,
        ensures
            open <= i <= toks.len(),
            open < toks@.len() && toks@[open as int] == Tok::Close(Delim::Brace) ==> i == open && fields@.len() == 0
                && !trailing,
            trailing ==> fields@.len() > 0,
            covers(toks@, open as int, i as int, comma_list(tokens_field_pat_seq(fields@), trailing)),
        decreases toks@.len() - i,
    {
        if is_group_end(toks, i) || toks[i] == Tok::Punct(Punct::Dot2) {
            break;
        }
        let ghost old_fields = fields@;
        let ghost before = if old_fields.len() == 0 {
            Seq::<Tok>::empty()
        } else {
            interleave(tokens_field_pat_seq(old_fields), Punct::Comma) + p1(Punct::Comma)
        };
        proof {
            assert(comma_list(tokens_field_pat_seq(fields@), trailing) =~= before);
        }
        let (f, k) = field_pat(toks, i)?;
        let ghost fpt = maybe(f.colon, tokens_member(f.member) + p1(Punct::Colon)) + tokens_pat(*f.pat);
        proof {
            lemma_field_pat_seq_push(old_fields, f);
            lemma_field_pat_seq_len(old_fields);
            lemma_interleave_push(tokens_field_pat_seq(old_fields), fpt, Punct::Comma);
            lemma_covers_cat(toks@, open as int, i as int, k as int, before, fpt);
            if old_fields.len() == 0 {
                assert(before + fpt =~= fpt);
            }
        }
        fields.push(f);
        trailing = false;
        i = k;
        proof {
            assert(comma_list(tokens_field_pat_seq(fields@), trailing) =~= interleave(tokens_field_pat_seq(fields@), Punct::Comma));
        }
        if !(i < toks.len() && toks[i] == Tok::Punct(Punct::Comma)) {
            break;
        }
        proof {
            lemma_covers_tok(toks@, i as int, Tok::Punct(Punct::Comma));
            lemma_covers_cat(toks@, open as int, i as int, i + 1, interleave(tokens_field_pat_seq(fields@), Punct::Comma), p1(Punct::Comma));
        }
        trailing = true;
        i = i + 1;
        proof {
            lemma_field_pat_seq_len(fields@);
            assert(comma_list(tokens_field_pat_seq(fields@), trailing) =~= interleave(tokens_field_pat_seq(fields@), Punct::Comma) + p1(Punct::Comma));
        }
    }
    let ghost list = comma_list(tokens_field_pat_seq(fields@), trailing);
    let dot2 = (fields.len() == 0 || trailing) && i < toks.len() && toks[i] == Tok::Punct(Punct::Dot2);
    let d = i;
    proof {
        lemma_covers_empty(toks@, i as int);
    }
    if dot2 {
        proof {
            lemma_covers_tok(toks@, i as int, Tok::Punct(Punct::Dot2));
        }
        i = i + 1;
    }
    proof {
        lemma_covers_cat(toks@, open as int, d as int, i as int, list, maybe(dot2, p1(Punct::Dot2)));
    }
    let end = expect(toks, i, Tok::Close(Delim::Brace))?;
    let p = Pat::Struct(PatStruct { path, fields, trailing, dot2 });
    let ghost gp = p;
    proof {
        lemma_covers_delim(toks@, j as int, i as int, Delim::Brace, list + maybe(dot2, p1(Punct::Dot2)));
        lemma_covers_cat(toks@, pos as int, j as int, end as int, tokens_path(path), delimited(Delim::Brace, list + maybe(dot2, p1(Punct::Dot2))));
        if let Pat::Struct(x) = gp {
            lemma_field_pat_seq_len(x.fields@);
            assert(maybe(x.fields@.len() > 0 && !x.trailing && x.dot2, p1(Punct::Comma)) =~= Seq::<Tok>::empty());
            assert(list + maybe(x.fields@.len() > 0 && !x.trailing && x.dot2, p1(Punct::Comma)) + maybe(dot2, p1(Punct::Dot2)) =~= list + maybe(dot2, p1(Punct::Dot2)));
        }
    }
    Ok((p, end))
}

/// One field of a struct pattern: `name: pat`, `0: pat`, or the shorthand
/// `box ref mut name`. Binding keywords before a tuple index are read and
/// not kept.
fn field_pat(toks: &Vec<Tok>, pos: usize) -> (r: Result<(FieldPat, usize), ParseError>)
    requires
        1 <= pos < toks.len(),
        toks@[pos - 1] == Tok::Open(Delim::Brace) || toks@[pos - 1] == Tok::Punct(Punct::Comma),
    ensures
        r matches Ok((f, end)) ==> pos < end <= toks.len() && covers(
            toks@,
            pos as int,
            end as int,
            maybe(f.colon, tokens_member(f.member) + p1(Punct::Colon)) + tokens_pat(*f.pat),
        ),
        ({
            let i = field_member_pos(toks@, pos as int);
            let modes = i != pos;
            &&& !(i < toks@.len() && member_of_tok(toks@[i]) is Some) ==> r is Err
            &&& i < toks@.len() && toks@[i] is Ident && !(!modes && i + 1 < toks@.len() && toks@[i + 1]
                == Tok::Punct(Punct::Colon)) ==> (r matches Ok((f, end)) && !f.colon && end == i + 1)
            &&& !modes && toks@[pos as int] is Ident && pos + 2 < toks@.len() && toks@[pos + 1] == Tok::Punct(
                Punct::Colon,
            ) && toks@[pos + 2] == Tok::Kw(Keyword::Underscore) ==> (r matches Ok((f, end)) && f.colon
                && *f.pat == Pat::Wild && end == pos + 3)
        }),
        r matches Ok((f, end)) ==> (!f.colon ==> {
            let i = field_member_pos(toks@, pos as int);
            let boxed = toks@[pos as int] == Tok::Kw(Keyword::Box);
            let i1 = if boxed { pos + 1 } else { pos as int };
            let inner = Pat::Ident(
                PatIdent {
                    by_ref: i1 < toks@.len() && toks@[i1] == Tok::Kw(Keyword::Ref),
                    mutability: i > pos && toks@[i - 1] == Tok::Kw(Keyword::Mut),
                    ident: name_of_tok(toks@[i]).unwrap(),
                    subpat: None,
                },
            );
            &&& i < toks@.len()
            &&& f.member is Named
            &&& Some(f.member) == member_of_tok(toks@[i])
            &&& *f.pat == (if boxed { Pat::Box(PatBox { pat: Box::new(inner) }) } else { inner })
        }),
    decreases toks@.len() - pos, 4int,
{
    let mut i = pos;
    let boxed = i < toks.len() && toks[i] == Tok::Kw(Keyword::Box);
    if boxed {
        i = i + 1;
    }
    let i1 = i;
    let by_ref = i < toks.len() && toks[i] == Tok::Kw(Keyword::Ref);
    if by_ref {
        i = i + 1;
    }
    let i2 = i;
    let mutability = i < toks.len() && toks[i] == Tok::Kw(Keyword::Mut);
    if mutability {
        i = i + 1;
    }
    let (member, j) = parse_member(toks, i)?;
    let modes = boxed || by_ref || mutability;
    if (!modes && j < toks.len() && toks[j] == Tok::Punct(Punct::Colon)) || !member.is_named() {
        let k = expect(toks, j, Tok::Punct(Punct::Colon))?;
        let (p, end) = parse_pat(toks, k)?;
        let f = FieldPat { member, colon: true, pat: Box::new(p) };
        proof {
            if modes {
                assert(int_tok(toks@[i as int]));
                assert(mode_field_at(toks@, pos as int));
                assert(has_lossy(toks@, pos as int, end as int)) by {
                    assert(lossy_at(toks@, pos as int));
                }
            } else {
                assert(i == pos);
                lemma_parsed_pat_covers(toks@, k as int, end as int, p);
                if covers(toks@, pos as int, j as int, tokens_member(member)) {
                    lemma_covers_tok(toks@, j as int, Tok::Punct(Punct::Colon));
                    lemma_covers_cat(toks@, pos as int, j as int, k as int, tokens_member(member), p1(Punct::Colon));
                    lemma_covers_cat(toks@, pos as int, k as int, end as int, tokens_member(member) + p1(Punct::Colon), tokens_pat(p));
                } else {
                    assert(lossy_at(toks@, pos as int));
                    lemma_lossy_in(toks@, pos as int, pos as int, end as int, tokens_member(member) + p1(Punct::Colon) + tokens_pat(p));
                }
            }
        }
        return Ok((f, end));
    }
    let id = match member {
        Member::Named(id) => id,
        Member::Unnamed(_) => {
            proof {
                assert(false);
            }
            Ident { sym: 0 }
        },
    };
    let ident = Name::Ident(id);
    let inner = Pat::Ident(PatIdent { by_ref, mutability, ident, subpat: None });
    proof {
        lemma_covers_empty(toks@, pos as int);
        if boxed {
            lemma_covers_tok(toks@, pos as int, Tok::Kw(Keyword::Box));
        }
        lemma_covers_empty(toks@, i1 as int);
        if by_ref {
            lemma_covers_tok(toks@, i1 as int, Tok::Kw(Keyword::Ref));
        }
        lemma_covers_empty(toks@, i2 as int);
        if mutability {
            lemma_covers_tok(toks@, i2 as int, Tok::Kw(Keyword::Mut));
        }
        lemma_covers_cat(toks@, i1 as int, i2 as int, i as int, maybe(by_ref, k1(Keyword::Ref)), maybe(mutability, k1(Keyword::Mut)));
        lemma_covers_cat(toks@, i1 as int, i as int, j as int, maybe(by_ref, k1(Keyword::Ref)) + maybe(mutability, k1(Keyword::Mut)), tokens_member(member));
        assert(tokens_pat(inner) =~= maybe(by_ref, k1(Keyword::Ref)) + maybe(mutability, k1(Keyword::Mut)) + tokens_member(member) + Seq::<Tok>::empty());
        lemma_covers_cat(toks@, pos as int, i1 as int, j as int, maybe(boxed, k1(Keyword::Box)), tokens_pat(inner));
    }
    let pat = if boxed {
        Pat::Box(PatBox { pat: Box::new(inner) })
    } else {
        inner
    };
    let f = FieldPat { member, colon: false, pat: Box::new(pat) };
    proof {
        assert(maybe(f.colon, tokens_member(f.member) + p1(Punct::Colon)) + tokens_pat(*f.pat) =~= maybe(boxed, k1(Keyword::Box)) + tokens_pat(inner));
    }
    Ok((f, j))
}


/// Patterns read right after a token of `pat_lead`, or that do not start
/// with an attribute, print as what they were read from.
pub proof fn lemma_pats_or_covers(s: Seq<Tok>, pos: int, end: int, v: Seq<Pat>)
    requires
        0 <= pos <= end <= s.len(),
        covers(s, pos, end, tokens_pats_or(v)) || (attr_at(s, pos) && pos + 2 < end),
        (pos >= 1 && pat_lead(s[pos - 1])) || !attr_at(s, pos),
    ensures
        covers(s, pos, end, tokens_pats_or(v)),
{
    if !covers(s, pos, end, tokens_pats_or(v)) {
        lemma_pat_attr_lossy(s, pos, pos, end);
    }
}

/// Reads one or more patterns separated by `|`.
pub fn parse_pats_or(toks: &Vec<Tok>, pos: usize) -> (r: Result<(Vec<Pat>, usize), ParseError>)
    requires
        pos <= toks.len(),
    ensures
        r matches Ok((v, end)) ==> pos < end <= toks.len() && v@.len() >= 1 && (covers(
            toks@,
            pos as int,
            end as int,
            tokens_pats_or(v@),
        ) || (attr_at(toks@, pos as int) && pos + 2 < end)),
        pos < toks@.len() && !pat_start(toks@[pos as int]) ==> r == Err::<(Vec<Pat>, usize), ParseError>(
            ParseError { pos, kind: ErrorKind::Unexpected },
        ),
        pos < toks@.len() && toks@[pos as int] == Tok::Kw(Keyword::Underscore) && !(pos + 1 < toks@.len() && toks@[pos
            + 1] == Tok::Punct(Punct::Or)) ==> (r matches Ok((v, end)) && v@ == seq![Pat::Wild] && end == pos + 1),
        or_pats_end(toks@, pos as int) is Some ==> (r matches Ok((v, end)) && Some(end as int) == or_pats_end(
            toks@,
            pos as int,
        )),
{
    let (p, j) = parse_pat(toks, pos)?;
    let mut pats: Vec<Pat> = Vec::new();
    proof {
        lemma_pat_seq_push(Seq::<Pat>::empty(), p);
        lemma_interleave_push(Seq::<Seq<Tok>>::empty(), tokens_pat(p), Punct::Or);
        assert(Seq::<Pat>::empty().push(p) =~= seq![p]);
    }
    pats.push(p);
    assert(pats@ =~= seq![p]);
    let mut i = j;
    while i < toks.len() && toks[i] == Tok::Punct(Punct::Or)
        invariant
            pos < i <= toks.len(),
            pat_start(toks@[pos as int]),
            or_pats_end(toks@, pos as int) is Some ==> or_pats_end(toks@, i - 1) == or_pats_end(toks@, pos as int)
                && simple_pat_at(toks@, i - 1),
            toks@[pos as int] == Tok::Kw(Keyword::Underscore) && !(pos + 1 < toks@.len() && toks@[pos + 1] == Tok::Punct(
                Punct::Or,
            )) ==> (i == pos + 1 && pats@ == seq![Pat::Wild]),
            pats@.len() >= 1,
            covers(toks@, pos as int, i as int, tokens_pats_or(pats@)) || (attr_at(toks@, pos as int) && pos + 2 < i),
        decreases toks@.len() - i,
    {
        proof {
            if or_pats_end(toks@, pos as int) is Some {
                assert(or_pats_end(toks@, i + 1) == or_pats_end(toks@, i - 1));
                assert(simple_pat_at(toks@, i + 1));
            }
        }
        let (q, k) = parse_pat(toks, i + 1)?;
        proof {
            lemma_pat_seq_push(pats@, q);
            lemma_pat_seq_len(pats@);
            lemma_interleave_push(tokens_pat_seq(pats@), tokens_pat(q), Punct::Or);
            lemma_parsed_pat_covers(toks@, i + 1, k as int, q);
            if covers(toks@, pos as int, i as int, tokens_pats_or(pats@)) {
                lemma_covers_tok(toks@, i as int, Tok::Punct(Punct::Or));
                lemma_covers_cat(toks@, pos as int, i as int, i + 1, tokens_pats_or(pats@), p1(Punct::Or));
                lemma_covers_cat(toks@, pos as int, i + 1, k as int, tokens_pats_or(pats@) + p1(Punct::Or), tokens_pat(q));
            }
        }
        pats.push(q);
        i = k;
    }
    Ok((pats, i))
}

} // verus!
