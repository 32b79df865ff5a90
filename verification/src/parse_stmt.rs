use vstd::prelude::*;

use crate::ast::{
    AllowBlock, AllowStruct, Arm, AttrStyle, Attribute, Block, Expr, ExprAsync, ExprBlock,
    ExprClosure, ExprForLoop, ExprIf, ExprIfLet, ExprLoop, ExprMatch, ExprTryBlock, ExprUnsafe,
    ExprWhile, ExprWhileLet, FnArg, Ident, Item, ItemMacro, Label, Lifetime, Local, Macro,
    Pat, Precedence, ReturnType, Stmt, Type, arm_expr_requires_comma,
};
use crate::attrs::lemma_with_attrs_twice;
use crate::parse_expr::{
    ambiguous_expr, atom_parts, expr_start, lone_lit_at, simple_operand, chain_ok, chain_stop, operator_expr, expr_full, expr_no_struct, join_attrs, lemma_atom_done,
    lemma_join_attrs, lemma_put_outer, outer_read, parse_expr, parsed_atom, parsed_expr, plain_tree,
    with_trailers,
};
use crate::parse_pat::{
    lemma_parsed_pat_covers, lemma_pats_or_covers, parse_pat, parse_pats_or, pat_start, or_pats_end,
    simple_pat_at, simple_pats_end,
};
use crate::parse_util::{
    at_group_end, at_outer_attr, bars_at, covers, err, expect, has_lossy, is_group_end,
    lemma_covers_cat, lemma_covers_delim, lemma_covers_empty, lemma_lossy_in,
    lemma_covers_tok, lemma_lossy_widen, lossy_at, parse_delimited,
    outer_end, parse_inner, parse_outer, parse_path, parse_type, pat_lead, path_end, type_end, ErrorKind,
    ParseError, group_end,
};
use crate::print::{
    all_of_style, comma_list, delimited, interleave, k1, lemma_arms_push,
    lemma_attrs_all_outer, lemma_closure_arg_seq_len, lemma_closure_arg_seq_push,
    lemma_interleave_push, lemma_stmts_push, maybe, p1, requires_comma, tokens_arm,
    tokens_arms, tokens_attrs, tokens_closure_arg_seq, tokens_closure_inputs, tokens_cond,
    tokens_else, tokens_expr, tokens_expr_body, tokens_ident, tokens_inner, tokens_label,
    tokens_outer, tokens_pat, tokens_pats_or, tokens_path, tokens_return_type, tokens_stmt,
    tokens_stmts, tokens_type,
};
use crate::token::{peek_is, Delim, Keyword, Punct, Tok};

verus! {

/// The first position at or after `i` that does not hold a `;`.
pub open spec fn semis_end(s: Seq<Tok>, i: int) -> int
    decreases s.len() - i,
{
    if 0 <= i < s.len() && s[i] == Tok::Punct(Punct::Semi) {
        semis_end(s, i + 1)
    } else {
        i
    }
}

/// An expression statement made of a chain (see `chain_ok`) starts at `i`:
/// a single-token operand followed by binary operators, `=` and casts,
/// each with a single-token operand.
pub open spec fn chain_stmt_at(s: Seq<Tok>, i: int) -> bool {
    simple_operand(s, i, true) && chain_ok(s, i + 1, true)
}

/// Where such a chain ends.
pub open spec fn chain_stmt_end(s: Seq<Tok>, i: int) -> int {
    chain_stop(s, i + 1, Precedence::Any)
}

/// Where a block-like expression with an empty body that starts at `i`
/// ends: `{}`, `loop {}`, `unsafe {}` or `match x {}` with a single-token
/// scrutinee (the braces may hold empty statements).
pub open spec fn early_empty_end(s: Seq<Tok>, i: int) -> Option<int> {
    if empty_block_at(s, i) {
        Some(semis_end(s, i + 1) + 1)
    } else if 0 <= i < s.len() && s[i] == Tok::Kw(Keyword::Loop) && empty_block_at(s, i + 1) {
        Some(semis_end(s, i + 2) + 1)
    } else if 0 <= i < s.len() && s[i] == Tok::Kw(Keyword::Unsafe) && empty_block_at(s, i + 1) {
        Some(semis_end(s, i + 2) + 1)
    } else if 0 <= i && i + 3 < s.len() && s[i] == Tok::Kw(Keyword::Match) && simple_operand(s, i + 1, false) && s[i
        + 2] == Tok::Open(Delim::Brace) && s[i + 3] == Tok::Close(Delim::Brace) {
        Some(i + 4)
    } else {
        None
    }
}

/// Where closure inputs that start at `i`, after the first bar, end
/// together with the closing bar: single-token patterns without types,
/// separated by commas, a comma allowed after the last.
pub open spec fn closure_pats_end(s: Seq<Tok>, i: int) -> Option<int>
    decreases s.len() - i,
{
    if 0 <= i < s.len() && s[i] == Tok::Punct(Punct::Or) {
        Some(i + 1)
    } else if simple_pat_at(s, i) && i + 1 < s.len() {
        if s[i + 1] == Tok::Punct(Punct::Or) {
            Some(i + 2)
        } else if s[i + 1] == Tok::Punct(Punct::Comma) {
            closure_pats_end(s, i + 2)
        } else {
            None
        }
    } else {
        None
    }
}

/// Where the inputs of a closure that start at `j` end: `||`, or `|`
/// and inputs as in `closure_pats_end`.
pub open spec fn closure_inputs_end(s: Seq<Tok>, j: int) -> Option<int> {
    if 0 <= j < s.len() && s[j] == Tok::Punct(Punct::OrOr) {
        Some(j + 1)
    } else if 0 <= j < s.len() && s[j] == Tok::Punct(Punct::Or) {
        closure_pats_end(s, j + 1)
    } else {
        None
    }
}

/// Where the `let` statement that starts at `i` ends, for the simple
/// forms: `let` patterns as in `or_pats_end`, then `;`, or `=`, an
/// expression as in `chain_stmt_at` and `;`.
pub open spec fn let_stmt_end(s: Seq<Tok>, i: int) -> Option<int> {
    if 0 <= i < s.len() && s[i] == Tok::Kw(Keyword::Let) && or_pats_end(s, i + 1) is Some {
        let k = or_pats_end(s, i + 1).unwrap();
        let stop = chain_stmt_end(s, k + 1);
        if k < s.len() && s[k] == Tok::Punct(Punct::Semi) {
            Some(k + 1)
        } else if k < s.len() && s[k] == Tok::Punct(Punct::Eq) && chain_stmt_at(s, k + 1) && stop < s.len() && s[stop]
            == Tok::Punct(Punct::Semi) {
            Some(stop + 1)
        } else {
            None
        }
    } else {
        None
    }
}

/// Where the statements that start at `i` end, before the closing
/// delimiter, for the simple forms: empty statements, `let` statements as
/// in `let_stmt_end`, expression statements as in `chain_stmt_at` ended by
/// `;`, and a last such expression without `;`.
pub open spec fn simple_stmts_end(s: Seq<Tok>, i: int) -> Option<int>
    decreases s.len() - i,
{
    let i0 = semis_end(s, i);
    if i0 < i || i0 > s.len() {
        None
    } else if i0 < s.len() && s[i0] is Close {
        Some(i0)
    } else if chain_stmt_at(s, i0) {
        let st = chain_stmt_end(s, i0);
        if i0 < st < s.len() && s[st] == Tok::Punct(Punct::Semi) {
            simple_stmts_end(s, st + 1)
        } else if i0 < st < s.len() && s[st] is Close {
            Some(st)
        } else {
            None
        }
    } else if let_stmt_end(s, i0) is Some && let_stmt_end(s, i0).unwrap() > i0 {
        simple_stmts_end(s, let_stmt_end(s, i0).unwrap())
    } else {
        None
    }
}

proof fn lemma_semis_end_idem(s: Seq<Tok>, i: int)
    requires
        0 <= i <= s.len(),
    ensures
        semis_end(s, semis_end(s, i)) == semis_end(s, i),
    decreases s.len() - i,
{
    if i < s.len() && s[i] == Tok::Punct(Punct::Semi) {
        lemma_semis_end_idem(s, i + 1);
    }
}

/// Skipping the empty statements first changes nothing.
proof fn lemma_stmts_skip(s: Seq<Tok>, j: int)
    requires
        0 <= j <= s.len(),
    ensures
        simple_stmts_end(s, j) == simple_stmts_end(s, semis_end(s, j)),
{
    lemma_semis_end_bound(s, j);
    lemma_semis_end_idem(s, j);
}

/// Where the block that starts at `pos` ends when it holds statements of
/// the simple forms of `simple_stmts_end`.
pub open spec fn simple_block_end(s: Seq<Tok>, pos: int) -> Option<int> {
    if 0 <= pos < s.len() && s[pos] == Tok::Open(Delim::Brace) && simple_stmts_end(s, pos + 1) is Some {
        let e = simple_stmts_end(s, pos + 1).unwrap();
        if 0 <= e < s.len() && s[e] == Tok::Close(Delim::Brace) {
            Some(e + 1)
        } else {
            None
        }
    } else {
        None
    }
}

/// Skips the `;` tokens that stand alone here: empty statements.
fn skip_semis(toks: &Vec<Tok>, pos: usize) -> (r: usize)
    requires
        pos <= toks.len(),
    ensures
        pos <= r <= toks.len(),
        r == semis_end(toks@, pos as int),
{
    let mut i = pos;
    while i < toks.len() && toks[i] == Tok::Punct(Punct::Semi)
        invariant
            pos <= i <= toks.len(),
            semis_end(toks@, pos as int) == semis_end(toks@, i as int),
        decreases toks@.len() - i,
    {
        i = i + 1;
    }
    i
}

/// The empty statements after a `;` or a `{` leave what was printed so far
/// standing: where there are any, the range claims nothing.
proof fn lemma_skip_after(s: Seq<Tok>, a: int, j: int, x: Seq<Tok>)
    requires
        covers(s, a, j, x),
        a <= j - 1,
        s[j - 1] == Tok::Punct(Punct::Semi) || s[j - 1] == Tok::Open(Delim::Brace),
    ensures
        j <= semis_end(s, j) <= s.len(),
        covers(s, a, semis_end(s, j), x),
    decreases s.len() - j,
{
    if j < s.len() && s[j] == Tok::Punct(Punct::Semi) {
        assert(lossy_at(s, j - 1));
        lemma_semis_end_bound(s, j);
        lemma_lossy_in(s, j - 1, a, semis_end(s, j), x);
    }
}

proof fn lemma_semis_end_bound(s: Seq<Tok>, j: int)
    requires
        0 <= j <= s.len(),
    ensures
        j <= semis_end(s, j) <= s.len(),
        j < s.len() && s[j] == Tok::Punct(Punct::Semi) ==> j < semis_end(s, j),
    decreases s.len() - j,
{
    if j < s.len() && s[j] == Tok::Punct(Punct::Semi) {
        lemma_semis_end_bound(s, j + 1);
    }
}

/// Where the label `'a:` that may start at `i` ends: `i` itself where no
/// lifetime is there; no end where a lifetime is not followed by `:`.
pub open spec fn label_end(s: Seq<Tok>, i: int) -> Option<int> {
    if 0 <= i < s.len() && s[i] is Lifetime {
        if i + 1 < s.len() && s[i + 1] == Tok::Punct(Punct::Colon) {
            Some(i + 2)
        } else {
            None
        }
    } else {
        Some(i)
    }
}

/// Reads a label `'a:` if one is here.
fn opt_label(toks: &Vec<Tok>, pos: usize) -> (r: Result<(Option<Label>, usize), ParseError>)
    requires
        pos <= toks.len(),
    ensures
        r matches Ok((l, end)) ==> pos <= end <= toks.len() && covers(toks@, pos as int, end as int, tokens_label(l)),
        !(pos < toks@.len() && toks@[pos as int] is Lifetime) ==> r == Ok::<(Option<Label>, usize), ParseError>((None, pos)),
        pos < toks@.len() && toks@[pos as int] is Lifetime ==> (r is Ok <==> (pos + 1 < toks@.len()
            && toks@[pos + 1] == Tok::Punct(Punct::Colon))),
        r matches Ok((Some(l), end)) ==> end == pos + 2 && toks@[pos as int] == Tok::Lifetime(l.name.sym),
        r is Ok <==> label_end(toks@, pos as int) is Some,
        r matches Ok((l, end)) ==> label_end(toks@, pos as int) == Some(end as int),
{
    if pos < toks.len() {
        if let Tok::Lifetime(sym) = toks[pos] {
            let end = expect(toks, pos + 1, Tok::Punct(Punct::Colon))?;
            proof {
                lemma_covers_tok(toks@, pos as int, Tok::Lifetime(sym));
                lemma_covers_tok(toks@, pos + 1, Tok::Punct(Punct::Colon));
                lemma_covers_cat(toks@, pos as int, pos + 1, end as int, seq![Tok::Lifetime(sym)], p1(Punct::Colon));
            }
            return Ok((Some(Label { name: Lifetime { sym } }), end));
        }
    }
    proof {
        lemma_covers_empty(toks@, pos as int);
    }
    Ok((None, pos))
}

/// A block whose braces hold nothing but empty statements `;` starts at
/// `pos`.
pub open spec fn empty_block_at(s: Seq<Tok>, pos: int) -> bool {
    &&& 0 <= pos < s.len()
    &&& s[pos] == Tok::Open(Delim::Brace)
    &&& semis_end(s, pos + 1) < s.len()
    &&& s[semis_end(s, pos + 1)] == Tok::Close(Delim::Brace)
}

/// Reads a block `{ ... }` without inner attributes.
pub fn parse_block(toks: &Vec<Tok>, pos: usize) -> (r: Result<(Block, usize), ParseError>)
    requires
        pos <= toks.len(),
    ensures
        r matches Ok((b, end)) ==> pos < end <= toks.len() && covers(
            toks@,
            pos as int,
            end as int,
            delimited(Delim::Brace, tokens_stmts(b.stmts@)),
        ),
        !(pos < toks@.len() && toks@[pos as int] == Tok::Open(Delim::Brace)) ==> r == Err::<
            (Block, usize),
            ParseError,
        >(ParseError { pos, kind: ErrorKind::Unexpected }),
        empty_block_at(toks@, pos as int) ==> (r matches Ok((b, end)) && b.stmts@.len() == 0 && end
            == semis_end(toks@, pos + 1) + 1),
        simple_block_end(toks@, pos as int) is Some ==> (r matches Ok((b, end)) && Some(end as int) == simple_block_end(
            toks@,
            pos as int,
        )),
    decreases toks@.len() - pos, 12int,
{
    let open = expect(toks, pos, Tok::Open(Delim::Brace))?;
    let (stmts, i) = Block::parse_within(toks, open)?;
    let end = expect(toks, i, Tok::Close(Delim::Brace))?;
    proof {
        if covers(toks@, open as int, i as int, tokens_stmts(stmts@)) {
            lemma_covers_delim(toks@, pos as int, i as int, Delim::Brace, tokens_stmts(stmts@));
        } else {
            lemma_semis_end_bound(toks@, open as int);
            assert(lossy_at(toks@, pos as int));
            lemma_lossy_in(toks@, pos as int, pos as int, end as int, delimited(Delim::Brace, tokens_stmts(stmts@)));
        }
    }
    Ok((Block { stmts }, end))
}

/// Reads a braced body with inner attributes: `{ #![..] stmts }`.
fn braced_body(toks: &Vec<Tok>, pos: usize) -> (r: Result<(Vec<Attribute>, Vec<Stmt>, usize), ParseError>)
    requires
        pos <= toks.len(),
    ensures
        r matches Ok((inner, stmts, end)) ==> {
            &&& pos < end <= toks.len()
            &&& all_of_style(inner@, AttrStyle::Inner)
            &&& (inner@.len() > 0 ==> has_lossy(toks@, pos as int, end as int))
            &&& covers(
                toks@,
                pos as int,
                end as int,
                delimited(Delim::Brace, tokens_inner(inner@) + tokens_stmts(stmts@)),
            )
        },
        !(pos < toks@.len() && toks@[pos as int] == Tok::Open(Delim::Brace)) ==> r is Err,
        empty_block_at(toks@, pos as int) ==> (r matches Ok((inner, stmts, end)) && inner@.len() == 0
            && stmts@.len() == 0 && end == semis_end(toks@, pos + 1) + 1),
        simple_block_end(toks@, pos as int) is Some ==> (r matches Ok((inner, stmts, end)) && inner@.len() == 0
            && Some(end as int) == simple_block_end(toks@, pos as int)),
    decreases toks@.len() - pos, 9int,
{
    let open = expect(toks, pos, Tok::Open(Delim::Brace))?;
    let (inner, j) = parse_inner(toks, open)?;
    let (stmts, k) = Block::parse_within(toks, j)?;
    let end = expect(toks, k, Tok::Close(Delim::Brace))?;
    proof {
        if inner@.len() > 0 {
            lemma_lossy_widen(toks@, pos as int, open as int, j as int, end as int);
        } else if covers(toks@, j as int, k as int, tokens_stmts(stmts@)) {
            lemma_covers_cat(toks@, open as int, j as int, k as int, tokens_inner(inner@), tokens_stmts(stmts@));
            lemma_covers_delim(toks@, pos as int, k as int, Delim::Brace, tokens_inner(inner@) + tokens_stmts(stmts@));
        } else {
            lemma_semis_end_bound(toks@, open as int);
            assert(lossy_at(toks@, pos as int));
        }
    }
    Ok((inner, stmts, end))
}

/// The last expression of a block takes the outer attributes read before
/// it in place of its own attributes.
proof fn lemma_last_expr(s: Seq<Tok>, i: int, a: int, b: int, e: Expr, v: Vec<Attribute>)
    requires
        covers(s, i, a, tokens_outer(v@)),
        tokens_inner(v@) == Seq::<Tok>::empty(),
        parsed_expr(s, a, b, e),
        !at_outer_attr(s, a),
    ensures
        covers(s, i, b, tokens_expr(e.with_attrs(v))),
{
    if has_lossy(s, a, b) {
        lemma_lossy_widen(s, i, a, b, b);
    } else {
        lemma_with_attrs_twice(e, v, v);
        crate::attrs::lemma_body_attrs(e, v);
        assert(tokens_expr(e) =~= tokens_expr_body(e));
        lemma_covers_cat(s, i, a, b, tokens_outer(v@), tokens_expr_body(e));
    }
}

impl Block {
    /// Reads the statements of a block up to the end of its group: empty
    /// statements are skipped, statements are read as long as one reads,
    /// and a last expression without `;` may follow. The last expression
    /// takes the outer attributes before it in place of its own.
    #[verifier::rlimit(60)]
    #[verifier::spinoff_prover]
    pub fn parse_within(toks: &Vec<Tok>, pos: usize) -> (r: Result<(Vec<Stmt>, usize), ParseError>)
        requires
            pos <= toks.len(),
        ensures
            r matches Ok((stmts, end)) ==> pos <= end <= toks.len() && covers(
                toks@,
                semis_end(toks@, pos as int),
                end as int,
                tokens_stmts(stmts@),
            ),
            r matches Ok((stmts, end)) ==> semis_end(toks@, pos as int) <= end,
            r is Ok,
            simple_stmts_end(toks@, pos as int) is Some ==> (r matches Ok((stmts, end)) && Some(end as int)
                == simple_stmts_end(toks@, pos as int)),
            semis_end(toks@, pos as int) < toks@.len() && toks@[semis_end(toks@, pos as int)] is Close
                ==> (r matches Ok((stmts, end)) && stmts@.len() == 0 && end == semis_end(toks@, pos as int)),
            ({
                let i0 = semis_end(toks@, pos as int);
                let stop = chain_stmt_end(toks@, i0);
                &&& chain_stmt_at(toks@, i0) && stop < toks@.len() && toks@[stop] == Tok::Punct(Punct::Semi) ==> (r matches Ok((
                    stmts,
                    end,
                )) && stmts@.len() >= 1 && stmts@[0] is Semi)
                &&& chain_stmt_at(toks@, i0) && at_group_end(toks@, stop) ==> (r matches Ok((stmts, end)) && stmts@.len() == 1
                    && stmts@[0] is Expr && end == stop)
            }),
        decreases toks@.len() - pos, 30int,
    {
        let mut i = skip_semis(toks, pos);
        let mut stmts: Vec<Stmt> = Vec::new();
        proof {
            lemma_stmts_skip(toks@, pos as int);
            lemma_semis_end_idem(toks@, pos as int);
            assert(tokens_stmts(stmts@) =~= Seq::<Tok>::empty());
            lemma_covers_empty(toks@, i as int);
        }
        loop
            invariant
                pos <= i <= toks.len(),
                semis_end(toks@, pos as int) <= i,
                covers(toks@, semis_end(toks@, pos as int), i as int, tokens_stmts(stmts@)),
                semis_end(toks@, pos as int) < toks@.len() && toks@[semis_end(toks@, pos as int)] is Close
                    ==> stmts@.len() == 0 && i == semis_end(toks@, pos as int),
                stmts@.len() == 0 ==> i == semis_end(toks@, pos as int),
                simple_stmts_end(toks@, pos as int) is Some ==> i == semis_end(toks@, i as int) && simple_stmts_end(
                    toks@,
                    i as int,
                ) == simple_stmts_end(toks@, pos as int),
                stmts@.len() > 0 && chain_stmt_at(toks@, semis_end(toks@, pos as int)) && chain_stmt_end(
                    toks@,
                    semis_end(toks@, pos as int),
                ) < toks@.len() && toks@[chain_stmt_end(toks@, semis_end(toks@, pos as int))] == Tok::Punct(Punct::Semi)
                    ==> stmts@[0] is Semi,
                chain_stmt_at(toks@, semis_end(toks@, pos as int)) && at_group_end(
                    toks@,
                    chain_stmt_end(toks@, semis_end(toks@, pos as int)),
                ) ==> stmts@.len() == 0,
            ensures
                pos <= i <= toks.len(),
                semis_end(toks@, pos as int) <= i,
                covers(toks@, semis_end(toks@, pos as int), i as int, tokens_stmts(stmts@)),
                semis_end(toks@, pos as int) < toks@.len() && toks@[semis_end(toks@, pos as int)] is Close
                    ==> stmts@.len() == 0 && i == semis_end(toks@, pos as int),
                stmts@.len() == 0 ==> i == semis_end(toks@, pos as int),
                simple_stmts_end(toks@, pos as int) is Some ==> i == semis_end(toks@, i as int) && simple_stmts_end(
                    toks@,
                    i as int,
                ) == simple_stmts_end(toks@, pos as int),
                stmts@.len() > 0 && chain_stmt_at(toks@, semis_end(toks@, pos as int)) && chain_stmt_end(
                    toks@,
                    semis_end(toks@, pos as int),
                ) < toks@.len() && toks@[chain_stmt_end(toks@, semis_end(toks@, pos as int))] == Tok::Punct(Punct::Semi)
                    ==> stmts@[0] is Semi,
                chain_stmt_at(toks@, semis_end(toks@, pos as int)) && chain_stmt_end(toks@, semis_end(toks@, pos as int))
                    < toks@.len() && toks@[chain_stmt_end(toks@, semis_end(toks@, pos as int))] == Tok::Punct(Punct::Semi)
                    ==> stmts@.len() >= 1,
                chain_stmt_at(toks@, semis_end(toks@, pos as int)) && at_group_end(
                    toks@,
                    chain_stmt_end(toks@, semis_end(toks@, pos as int)),
                ) ==> stmts@.len() == 0,
                simple_stmts_end(toks@, pos as int) is Some ==> (i < toks@.len() && toks@[i as int] is Close) || (
                chain_stmt_at(toks@, i as int) && i < chain_stmt_end(toks@, i as int) < toks@.len() && toks@[chain_stmt_end(
                    toks@,
                    i as int,
                )] is Close),
            decreases toks@.len() - i,
        {
            match parse_stmt(toks, i) {
                Ok((st, j)) => {
                    proof {
                        lemma_stmts_push(stmts@, st);
                        if covers(toks@, semis_end(toks@, pos as int), i as int, tokens_stmts(stmts@)) {
                            lemma_covers_cat(toks@, semis_end(toks@, pos as int), i as int, j as int, tokens_stmts(stmts@), tokens_stmt(st));
                        }
                    }
                    stmts.push(st);
                    let k = skip_semis(toks, j);
                    proof {
                        lemma_stmts_skip(toks@, j as int);
                        lemma_semis_end_idem(toks@, j as int);
                        if covers(toks@, semis_end(toks@, pos as int), j as int, tokens_stmts(stmts@)) && j < toks@.len()
                            && toks@[j as int] == Tok::Punct(Punct::Semi) {
                            lemma_skip_after(toks@, semis_end(toks@, pos as int), j as int, tokens_stmts(stmts@));
                        }
                    }
                    i = k;
                },
                Err(_) => {
                    break;
                },
            }
        }
        if let Ok((attrs, a)) = parse_outer(toks, i) {
            if let Ok((e, b)) = expr_full(toks, a) {
                let mut e = e;
                let ghost eg = e;
                let ghost av = attrs;
                e.replace_attrs(attrs);
                let st = Stmt::Expr(e);
                proof {
                    lemma_last_expr(toks@, i as int, a as int, b as int, eg, av);
                    lemma_stmts_push(stmts@, st);
                    if covers(toks@, semis_end(toks@, pos as int), i as int, tokens_stmts(stmts@)) {
                        lemma_covers_cat(toks@, semis_end(toks@, pos as int), i as int, b as int, tokens_stmts(stmts@), tokens_stmt(st));
                    }
                }
                stmts.push(st);
                i = b;
            }
        }
        Ok((stmts, i))
    }
}

/// A macro statement starts at `i`: a path, `!`, and then a brace or an
/// identifier.
pub open spec fn stmt_mac_at(s: Seq<Tok>, i: int) -> bool {
    &&& path_end(s, i) is Some
    &&& path_end(s, i).unwrap() + 1 < s.len()
    &&& s[path_end(s, i).unwrap()] == Tok::Punct(Punct::Bang)
    &&& (s[path_end(s, i).unwrap() + 1] == Tok::Open(Delim::Brace) || s[path_end(s, i).unwrap()
        + 1] is Ident)
}

/// An item definition starts at `i`: a keyword that only starts items
/// (`pub`, `use`, `const`, `fn`, `mod`, `type`, `struct`, `enum`, `trait`,
/// `impl`, `macro`), `crate` or `extern` not followed by `::`, `static`
/// followed by `mut` or an identifier, `unsafe` not followed by a brace, or
/// `async` followed by `extern` or `fn`.
pub open spec fn item_at(s: Seq<Tok>, i: int) -> bool {
    0 <= i < s.len() && match s[i] {
        Tok::Kw(k) => match k {
            Keyword::Pub | Keyword::Use | Keyword::Const | Keyword::Fn | Keyword::Mod
            | Keyword::Type | Keyword::Struct | Keyword::Enum | Keyword::Trait | Keyword::Impl
            | Keyword::Macro => true,
            Keyword::Crate | Keyword::Extern => !(i + 1 < s.len() && s[i + 1] == Tok::Punct(
                Punct::Colon2,
            )),
            Keyword::Static => i + 1 < s.len() && (s[i + 1] == Tok::Kw(Keyword::Mut) || s[i
                + 1] is Ident),
            Keyword::Unsafe => !(i + 1 < s.len() && s[i + 1] == Tok::Open(Delim::Brace)),
            Keyword::Async => i + 1 < s.len() && (s[i + 1] == Tok::Kw(Keyword::Extern) || s[i
                + 1] == Tok::Kw(Keyword::Fn)),
            _ => false,
        },
        _ => false,
    }
}

/// Whether a macro statement starts here: a path, `!`, and then a brace or
/// an identifier. Invocations in parentheses or brackets are read as
/// expression statements.
fn at_stmt_mac(toks: &Vec<Tok>, pos: usize) -> (r: bool)
    requires
        pos <= toks.len(),
    ensures
        r == stmt_mac_at(toks@, pos as int),
{
    match parse_path(toks, pos) {
        Ok((_, j)) => j < toks.len() && j + 1 < toks.len() && toks[j] == Tok::Punct(Punct::Bang) && (toks[j + 1]
            == Tok::Open(Delim::Brace) || matches!(toks[j + 1], Tok::Ident(_))),
        Err(_) => false,
    }
}

/// Whether an item definition starts here.
fn at_item(toks: &Vec<Tok>, pos: usize) -> (r: bool)
    ensures
        r == item_at(toks@, pos as int),
{
    if pos >= toks.len() {
        return false;
    }
    let next_ident = pos + 1 < toks.len() && matches!(toks[pos + 1], Tok::Ident(_));
    match toks[pos] {
        Tok::Kw(Keyword::Pub) | Tok::Kw(Keyword::Use) | Tok::Kw(Keyword::Const) | Tok::Kw(
            Keyword::Fn,
        ) | Tok::Kw(Keyword::Mod) | Tok::Kw(Keyword::Type) | Tok::Kw(Keyword::Struct) | Tok::Kw(
            Keyword::Enum,
        ) | Tok::Kw(Keyword::Trait) | Tok::Kw(Keyword::Impl) | Tok::Kw(Keyword::Macro) => true,
        Tok::Kw(Keyword::Crate) | Tok::Kw(Keyword::Extern) => !peek_is(toks, pos + 1, Tok::Punct(Punct::Colon2)),
        Tok::Kw(Keyword::Static) => peek_is(toks, pos + 1, Tok::Kw(Keyword::Mut)) || next_ident,
        Tok::Kw(Keyword::Unsafe) => !peek_is(toks, pos + 1, Tok::Open(Delim::Brace)),
        Tok::Kw(Keyword::Async) => peek_is(toks, pos + 1, Tok::Kw(Keyword::Extern)) || peek_is(toks, pos + 1, Tok::Kw(Keyword::Fn)),
        _ => false,
    }
}

/// Reads a statement: a macro statement, a `let`, or an expression
/// statement. Item definitions are not read here.
pub fn parse_stmt(toks: &Vec<Tok>, pos: usize) -> (r: Result<(Stmt, usize), ParseError>)
    requires
        pos <= toks.len(),
    ensures
        r matches Ok((st, end)) ==> (end < toks@.len() && toks@[end as int] == Tok::Punct(Punct::Semi) ==> toks@[end - 1]
            == Tok::Punct(Punct::Semi)),
        r matches Ok((st, end)) ==> pos < end <= toks.len() && covers(toks@, pos as int, end as int, tokens_stmt(st)),
        outer_end(toks@, pos as int) is None ==> r is Err,
        ({
            let i = outer_end(toks@, pos as int).unwrap();
            outer_end(toks@, pos as int) is Some && !stmt_mac_at(toks@, i) && !(i < toks@.len()
                && toks@[i] == Tok::Kw(Keyword::Let)) && item_at(toks@, i) ==> r == Err::<
                (Stmt, usize),
                ParseError,
            >(ParseError { pos: i as usize, kind: ErrorKind::UnsupportedItem })
        }),
        ({
            let i = outer_end(toks@, pos as int).unwrap();
            outer_end(toks@, pos as int) is Some && !stmt_mac_at(toks@, i) && !(i < toks@.len()
                && toks@[i] == Tok::Kw(Keyword::Let)) && !item_at(toks@, i) && i < toks@.len()
                && !expr_start(toks@[i]) ==> r == Err::<(Stmt, usize), ParseError>(
                ParseError { pos: i as usize, kind: ErrorKind::Unexpected },
            )
        }),
        chain_stmt_at(toks@, pos as int) && chain_stmt_end(toks@, pos as int) < toks@.len() && toks@[chain_stmt_end(
            toks@,
            pos as int,
        )] == Tok::Punct(Punct::Semi) ==> (r matches Ok((st, end)) && st is Semi && end == chain_stmt_end(toks@, pos as int)
            + 1 && plain_tree(st->Semi_0)),
        chain_stmt_at(toks@, pos as int) && !(chain_stmt_end(toks@, pos as int) < toks@.len() && toks@[chain_stmt_end(
            toks@,
            pos as int,
        )] == Tok::Punct(Punct::Semi)) ==> r == Err::<(Stmt, usize), ParseError>(
            ParseError { pos: chain_stmt_end(toks@, pos as int) as usize, kind: ErrorKind::ExpectedSemicolon },
        ),
        let_stmt_end(toks@, pos as int) is Some ==> (r matches Ok((st, end)) && Some(end as int) == let_stmt_end(
            toks@,
            pos as int,
        )),
    decreases toks@.len() - pos, 29int,
{
    let (attrs, i) = parse_outer(toks, pos)?;
    if at_stmt_mac(toks, i) {
        stmt_mac(toks, pos, i, attrs)
    } else if i < toks.len() && toks[i] == Tok::Kw(Keyword::Let) {
        stmt_local(toks, pos, i, attrs)
    } else if at_item(toks, i) {
        Err(ParseError { pos: i, kind: ErrorKind::UnsupportedItem })
    } else {
        stmt_expr(toks, pos, i, attrs)
    }
}

/// Where the macro statement that starts at `i` ends: a path, `!`, an
/// optional identifier, a delimited group and an optional `;`.
pub open spec fn mac_stmt_end(s: Seq<Tok>, i: int) -> Option<int> {
    match path_end(s, i) {
        Some(j) => if 0 <= j < s.len() && s[j] == Tok::Punct(Punct::Bang) {
            let k = if j + 1 < s.len() && s[j + 1] is Ident {
                j + 2
            } else {
                j + 1
            };
            match group_end(s, k) {
                Some(m) => if 0 <= m < s.len() && s[m] == Tok::Punct(Punct::Semi) {
                    Some(m + 1)
                } else {
                    Some(m)
                },
                None => None,
            }
        } else {
            None
        },
        None => None,
    }
}

/// A macro invocation in statement position, `name! ident? { .. } ;?`.
fn stmt_mac(toks: &Vec<Tok>, pos: usize, i: usize, attrs: Vec<Attribute>) -> (r: Result<(Stmt, usize), ParseError>)
    requires
        pos <= i <= toks.len(),
        covers(toks@, pos as int, i as int, tokens_outer(attrs@)),
    ensures
        r matches Ok((st, end)) ==> (end < toks@.len() && toks@[end as int] == Tok::Punct(Punct::Semi) ==> toks@[end - 1]
            == Tok::Punct(Punct::Semi)),
        r matches Ok((st, end)) ==> pos < end <= toks.len() && covers(toks@, pos as int, end as int, tokens_stmt(st)),
        r is Ok <==> mac_stmt_end(toks@, i as int) is Some,
        r matches Ok((st, end)) ==> mac_stmt_end(toks@, i as int) == Some(end as int) && st is Item,
{
    let (path, j) = parse_path(toks, i)?;
    let k = expect(toks, j, Tok::Punct(Punct::Bang))?;
    let (ident, k2) = if k < toks.len() && matches!(toks[k], Tok::Ident(_)) {
        let sym = match toks[k] {
            Tok::Ident(sym) => sym,
            _ => 0,
        };
        proof {
            lemma_covers_tok(toks@, k as int, Tok::Ident(sym));
        }
        (Some(Ident { sym }), k + 1)
    } else {
        proof {
            lemma_covers_empty(toks@, k as int);
        }
        (None, k)
    };
    let ghost it = match ident {
        Some(id) => tokens_ident(id),
        None => Seq::<Tok>::empty(),
    };
    assert(covers(toks@, k as int, k2 as int, it));
    let (delimiter, tts, m) = parse_delimited(toks, k2)?;
    let semi = m < toks.len() && toks[m] == Tok::Punct(Punct::Semi);
    let end = if semi {
        m + 1
    } else {
        m
    };
    proof {
        lemma_covers_empty(toks@, m as int);
        if semi {
            lemma_covers_tok(toks@, m as int, Tok::Punct(Punct::Semi));
        }
        lemma_covers_tok(toks@, j as int, Tok::Punct(Punct::Bang));
        lemma_covers_cat(toks@, pos as int, i as int, j as int, tokens_outer(attrs@), tokens_path(path));
        let h1 = tokens_outer(attrs@) + tokens_path(path);
        lemma_covers_cat(toks@, pos as int, j as int, k as int, h1, p1(Punct::Bang));
        lemma_covers_cat(toks@, pos as int, k as int, k2 as int, h1 + p1(Punct::Bang), it);
        lemma_covers_cat(toks@, pos as int, k2 as int, m as int, h1 + p1(Punct::Bang) + it, delimited(delimiter, tts@));
        lemma_covers_cat(toks@, pos as int, m as int, end as int, h1 + p1(Punct::Bang) + it + delimited(delimiter, tts@), maybe(semi, p1(Punct::Semi)));
    }
    let st = Stmt::Item(Item::Macro(ItemMacro { attrs, ident, mac: Macro { path, delimiter, tts }, semi }));
    Ok((st, end))
}

/// A `let` statement: `let pats (: T)? (= init)? ;`.
fn stmt_local(toks: &Vec<Tok>, pos: usize, i: usize, attrs: Vec<Attribute>) -> (r: Result<(Stmt, usize), ParseError>)
    requires
        pos <= i < toks.len(),
        toks@[i as int] == Tok::Kw(Keyword::Let),
        covers(toks@, pos as int, i as int, tokens_outer(attrs@)),
    ensures
        r matches Ok((st, end)) ==> (end < toks@.len() && toks@[end as int] == Tok::Punct(Punct::Semi) ==> toks@[end - 1]
            == Tok::Punct(Punct::Semi)),
        r matches Ok((st, end)) ==> pos < end <= toks.len() && covers(toks@, pos as int, end as int, tokens_stmt(st)),
        i + 2 < toks@.len() && toks@[i + 1] == Tok::Kw(Keyword::Underscore) && toks@[i + 2] == Tok::Punct(Punct::Semi)
            ==> (r matches Ok((st, end)) && st is Local && st->Local_0.init is None && end == i + 3),
        i + 4 < toks@.len() && toks@[i + 1] == Tok::Kw(Keyword::Underscore) && toks@[i + 2] == Tok::Punct(Punct::Eq)
            && lone_lit_at(toks@, i + 3) && toks@[i + 4] == Tok::Punct(Punct::Semi) ==> (r matches Ok((st, end))
            && st is Local && st->Local_0.init is Some && end == i + 5),
        ({
            let k = or_pats_end(toks@, i + 1).unwrap();
            let stop = chain_stmt_end(toks@, k + 1);
            &&& or_pats_end(toks@, i + 1) is Some && k < toks@.len() && toks@[k] == Tok::Punct(Punct::Semi) ==> (r matches Ok((
                st,
                end,
            )) && st is Local && st->Local_0.init is None && end == k + 1)
            &&& or_pats_end(toks@, i + 1) is Some && k < toks@.len() && toks@[k] == Tok::Punct(Punct::Eq) && chain_stmt_at(
                toks@,
                k + 1,
            ) && stop < toks@.len() && toks@[stop] == Tok::Punct(Punct::Semi) ==> (r matches Ok((st, end)) && st is Local
                && st->Local_0.init is Some && end == stop + 1)
        }),
        let_stmt_end(toks@, i as int) is Some ==> (r matches Ok((st, end)) && Some(end as int) == let_stmt_end(
            toks@,
            i as int,
        )),
    decreases toks@.len() - pos, 28int,
{
    let (pats, k) = parse_pats_or(toks, i + 1)?;
    proof {
        lemma_pats_or_covers(toks@, i + 1, k as int, pats@);
    }
    let (ty, k2) = if k < toks.len() && toks[k] == Tok::Punct(Punct::Colon) {
        let (t, e) = parse_type(toks, k + 1)?;
        proof {
            lemma_covers_tok(toks@, k as int, Tok::Punct(Punct::Colon));
            lemma_covers_cat(toks@, k as int, k + 1, e as int, p1(Punct::Colon), tokens_type(t));
        }
        (Some(Box::new(t)), e)
    } else {
        proof {
            lemma_covers_empty(toks@, k as int);
        }
        (None, k)
    };
    let ghost tt = tokens_local_ty(ty);
    assert(covers(toks@, k as int, k2 as int, tt));
    let (init, k3) = if k2 < toks.len() && toks[k2] == Tok::Punct(Punct::Eq) {
        let (x, e) = expr_full(toks, k2 + 1)?;
        proof {
            lemma_covers_tok(toks@, k2 as int, Tok::Punct(Punct::Eq));
            lemma_covers_cat(toks@, k2 as int, k2 + 1, e as int, p1(Punct::Eq), tokens_expr(x));
        }
        (Some(Box::new(x)), e)
    } else {
        proof {
            lemma_covers_empty(toks@, k2 as int);
        }
        (None, k2)
    };
    let ghost it = tokens_local_init(init);
    assert(covers(toks@, k2 as int, k3 as int, it));
    let end = expect(toks, k3, Tok::Punct(Punct::Semi))?;
    proof {
        lemma_covers_tok(toks@, i as int, Tok::Kw(Keyword::Let));
        lemma_covers_tok(toks@, k3 as int, Tok::Punct(Punct::Semi));
        lemma_covers_cat(toks@, pos as int, i as int, i + 1, tokens_outer(attrs@), k1(Keyword::Let));
        let h = tokens_outer(attrs@) + k1(Keyword::Let);
        lemma_covers_cat(toks@, pos as int, i + 1, k as int, h, tokens_pats_or(pats@));
        lemma_covers_cat(toks@, pos as int, k as int, k2 as int, h + tokens_pats_or(pats@), tt);
        lemma_covers_cat(toks@, pos as int, k2 as int, k3 as int, h + tokens_pats_or(pats@) + tt, it);
        lemma_covers_cat(toks@, pos as int, k3 as int, end as int, h + tokens_pats_or(pats@) + tt + it, p1(Punct::Semi));
    }
    let st = Stmt::Local(Local { attrs, pats, ty, init });
    Ok((st, end))
}

/// What the type of a `let` prints as.
pub open spec fn tokens_local_ty(t: Option<Box<Type>>) -> Seq<Tok> {
    match t {
        Some(t) => p1(Punct::Colon) + tokens_type(*t),
        None => Seq::empty(),
    }
}

/// What the initializer of a `let` prints as.
pub open spec fn tokens_local_init(v: Option<Box<Expr>>) -> Seq<Tok> {
    match v {
        Some(v) => p1(Punct::Eq) + tokens_expr(*v),
        None => Seq::empty(),
    }
}

/// An expression that may stand as a statement without `;`: `if`,
/// `if let`, `while`, `while let`, `for`, `loop`, `match`, `try`, `yield`,
/// `unsafe` or a block.
pub open spec fn block_like_stmt(e: Expr) -> bool {
    e is IfLet || e is If || e is WhileLet || e is While || e is ForLoop || e is Loop || e is Match
        || e is TryBlock || e is Yield || e is Unsafe || e is Block
}

/// Whether an expression may stand as a statement without `;`.
fn is_block_like_stmt(e: &Expr) -> (r: bool)
    ensures
        r == block_like_stmt(*e),
{
    match e {
        Expr::IfLet(_) | Expr::If(_) | Expr::WhileLet(_) | Expr::While(_) | Expr::ForLoop(_)
        | Expr::Loop(_) | Expr::Match(_) | Expr::TryBlock(_) | Expr::Yield(_) | Expr::Unsafe(_)
        | Expr::Block(_) => true,
        _ => false,
    }
}

/// An expression statement: an expression followed by `;`, or a
/// block-like expression without it.
#[verifier::rlimit(40)]
#[verifier::spinoff_prover]
fn stmt_expr(toks: &Vec<Tok>, pos: usize, i: usize, attrs: Vec<Attribute>) -> (r: Result<(Stmt, usize), ParseError>)
    requires
        pos <= i <= toks.len(),
        covers(toks@, pos as int, i as int, tokens_outer(attrs@)),
        tokens_inner(attrs@) == Seq::<Tok>::empty(),
        !at_outer_attr(toks@, i as int),
    ensures
        r matches Ok((st, end)) ==> (end < toks@.len() && toks@[end as int] == Tok::Punct(Punct::Semi) ==> toks@[end - 1]
            == Tok::Punct(Punct::Semi)),
        r matches Ok((st, end)) ==> pos < end <= toks.len() && covers(toks@, pos as int, end as int, tokens_stmt(st)),
        i < toks@.len() && !expr_start(toks@[i as int]) ==> r == Err::<(Stmt, usize), ParseError>(
            ParseError { pos: i, kind: ErrorKind::Unexpected },
        ),
        chain_stmt_at(toks@, i as int) && chain_stmt_end(toks@, i as int) < toks@.len() && toks@[chain_stmt_end(
            toks@,
            i as int,
        )] == Tok::Punct(Punct::Semi) ==> (r matches Ok((st, end)) && st is Semi && end == chain_stmt_end(toks@, i as int)
            + 1 && (i == pos ==> plain_tree(st->Semi_0))),
        chain_stmt_at(toks@, i as int) && !(chain_stmt_end(toks@, i as int) < toks@.len() && toks@[chain_stmt_end(
            toks@,
            i as int,
        )] == Tok::Punct(Punct::Semi)) ==> r == Err::<(Stmt, usize), ParseError>(
            ParseError { pos: chain_stmt_end(toks@, i as int) as usize, kind: ErrorKind::ExpectedSemicolon },
        ),
    decreases toks@.len() - pos, 28int,
{
    let (e, j) = expr_early(toks, i)?;
    let mut e = e;
    let ghost eg = e;
    let empty: Vec<Attribute> = Vec::new();
    let ghost empty_g = empty;
    let mut rest = e.replace_attrs(empty);
    let mut all = attrs;
    let ghost o = all@;
    all.append(&mut rest);
    let ghost all_v = all;
    e.replace_attrs(all);
    proof {
        lemma_with_attrs_twice(eg, empty_g, all_v);
        lemma_put_outer(toks@, pos as int, i as int, j as int, eg, o, all_v);
    }
    if j < toks.len() && toks[j] == Tok::Punct(Punct::Semi) {
        proof {
            lemma_covers_tok(toks@, j as int, Tok::Punct(Punct::Semi));
            lemma_covers_cat(toks@, pos as int, j as int, j + 1, tokens_expr(e), p1(Punct::Semi));
        }
        Ok((Stmt::Semi(e), j + 1))
    } else if is_block_like_stmt(&e) {
        Ok((Stmt::Expr(e), j))
    } else {
        err(j, ErrorKind::ExpectedSemicolon)
    }
}

/// Reads an expression where a block-like expression (`if`, `while`,
/// `for`, `loop`, `match`, `try`, `unsafe` or a block) may end it: such an
/// expression is taken whole unless `.` or `?` follows it.
pub fn expr_early(toks: &Vec<Tok>, pos: usize) -> (r: Result<(Expr, usize), ParseError>)
    requires
        pos <= toks.len(),
    ensures
        r matches Ok((e, end)) ==> parsed_expr(toks@, pos as int, end as int, e),
        pos < toks@.len() && !expr_start(toks@[pos as int]) ==> r == Err::<(Expr, usize), ParseError>(
            ParseError { pos, kind: ErrorKind::Unexpected },
        ),
        chain_stmt_at(toks@, pos as int) ==> (r matches Ok((e, end)) && end == chain_stmt_end(toks@, pos as int)
            && !block_like_stmt(e) && (e is Lit || e is Path || operator_expr(e)) && plain_tree(e)),
        ({
            let b = early_empty_end(toks@, pos as int).unwrap();
            early_empty_end(toks@, pos as int) is Some && !(b < toks@.len() && (toks@[b] == Tok::Punct(Punct::Dot)
                || toks@[b] == Tok::Punct(Punct::Question))) ==> (r matches Ok((e, end)) && end == b
                && block_like_stmt(e) && (e is Block || e is Loop || e is Unsafe || e is Match))
        }),
    decreases toks@.len() - pos, 27int,
{
    let (attrs, i) = parse_outer(toks, pos)?;
    if i < toks.len() && at_early_block(toks, i) {
        let (e, end) = block_like_at(toks, pos, i, attrs)?;
        if end < toks.len() && (toks[end] == Tok::Punct(Punct::Dot) || toks[end] == Tok::Punct(Punct::Question)) {
            let (e2, end2) = with_trailers(toks, pos, i, e, end)?;
            proof {
                crate::parse_expr::lemma_peek_prec_bound(toks@, end2 as int);
            }
            return parse_expr(toks, end2, e2, AllowStruct(true), AllowBlock(true), Precedence::Any, Ghost(pos as int));
        }
        return Ok((e, end));
    }
    ambiguous_expr(toks, pos, AllowStruct(true), AllowBlock(true))
}

/// Whether a block-like expression that `expr_early` takes starts here.
fn at_early_block(toks: &Vec<Tok>, i: usize) -> (r: bool)
    requires
        i < toks.len(),
    ensures
        r <==> toks@[i as int] == Tok::Kw(Keyword::If) || toks@[i as int] == Tok::Kw(Keyword::While)
            || toks@[i as int] == Tok::Kw(Keyword::For) || toks@[i as int] == Tok::Kw(Keyword::Loop)
            || toks@[i as int] == Tok::Kw(Keyword::Match) || (toks@[i as int] == Tok::Kw(Keyword::Try)
            && i + 1 < toks@.len() && toks@[i + 1] == Tok::Open(Delim::Brace))
            || toks@[i as int] == Tok::Kw(Keyword::Unsafe) || toks@[i as int] == Tok::Open(Delim::Brace),
{
    match toks[i] {
        Tok::Kw(Keyword::If) | Tok::Kw(Keyword::While) | Tok::Kw(Keyword::For) | Tok::Kw(
            Keyword::Loop,
        ) | Tok::Kw(Keyword::Match) | Tok::Kw(Keyword::Unsafe) | Tok::Open(Delim::Brace) => true,
        Tok::Kw(Keyword::Try) => i + 1 < toks.len() && toks[i + 1] == Tok::Open(Delim::Brace),
        _ => false,
    }
}

/// Reads the block-like expression that starts at `i`, with the outer
/// attributes `attrs` read before it.
fn block_like_at(toks: &Vec<Tok>, pos: usize, i: usize, attrs: Vec<Attribute>) -> (r: Result<(Expr, usize), ParseError>)
    requires
        outer_read(toks@, pos as int, i as int, attrs@),
        i < toks.len(),
    ensures
        r matches Ok((e, end)) ==> atom_parts(toks@, pos as int, i as int, end as int, e) && !(e is Struct),
        empty_block_at(toks@, i as int) ==> (r matches Ok((e, end)) && e is Block && end == semis_end(toks@, i + 1) + 1),
        toks@[i as int] == Tok::Kw(Keyword::Loop) && empty_block_at(toks@, i + 1) ==> (r matches Ok((e, end)) && e is Loop
            && end == semis_end(toks@, i + 2) + 1),
        toks@[i as int] == Tok::Kw(Keyword::Unsafe) && empty_block_at(toks@, i + 1) ==> (r matches Ok((e, end)) && e is Unsafe
            && end == semis_end(toks@, i + 2) + 1),
        toks@[i as int] == Tok::Kw(Keyword::Match) && simple_operand(toks@, i + 1, false) && i + 3 < toks@.len() && toks@[i
            + 2] == Tok::Open(Delim::Brace) && toks@[i + 3] == Tok::Close(Delim::Brace) ==> (r matches Ok((e, end)) && e is Match
            && end == i + 4),
    decreases toks@.len() - i, 26int,
{
    let next_let = i + 1 < toks.len() && toks[i + 1] == Tok::Kw(Keyword::Let);
    match toks[i] {
        Tok::Kw(Keyword::If) => if next_let {
            atom_iflet(toks, pos, i, attrs)
        } else {
            atom_if(toks, pos, i, attrs)
        },
        Tok::Kw(Keyword::While) => if next_let {
            atom_whilelet(toks, pos, i, attrs)
        } else {
            atom_while(toks, pos, i, attrs)
        },
        Tok::Kw(Keyword::For) => atom_for(toks, pos, i, attrs),
        Tok::Kw(Keyword::Loop) => atom_loop(toks, pos, i, attrs),
        Tok::Kw(Keyword::Match) => atom_match(toks, pos, i, attrs),
        Tok::Kw(Keyword::Try) => atom_try_block(toks, pos, i, attrs),
        Tok::Kw(Keyword::Unsafe) => atom_unsafe(toks, pos, i, attrs),
        _ => atom_block(toks, pos, i, attrs),
    }
}


/// An `else` stands at `pos`.
pub open spec fn at_else(s: Seq<Tok>, pos: int) -> bool {
    0 <= pos < s.len() && s[pos] == Tok::Kw(Keyword::Else)
}

/// The `else` part of an `if`, if one is here.
fn opt_else(toks: &Vec<Tok>, pos: usize) -> (r: Result<(Option<Box<Expr>>, usize), ParseError>)
    requires
        pos <= toks.len(),
    ensures
        r matches Ok((x, end)) ==> pos <= end <= toks.len() && covers(toks@, pos as int, end as int, tokens_else(x)),
        !at_else(toks@, pos as int) ==> r == Ok::<
            (Option<Box<Expr>>, usize),
            ParseError,
        >((None, pos)),
        r matches Ok((Some(x), end)) ==> pos < toks@.len() && toks@[pos as int] == Tok::Kw(Keyword::Else),
        at_else(toks@, pos as int) && empty_block_at(toks@, pos + 1) ==> (r matches Ok((x, end)) && x is Some
            && end == semis_end(toks@, pos + 2) + 1),
    decreases toks@.len() - pos, 12int,
{
    if pos < toks.len() && toks[pos] == Tok::Kw(Keyword::Else) {
        let (x, end) = else_block(toks, pos)?;
        Ok((Some(Box::new(x)), end))
    } else {
        proof {
            lemma_covers_empty(toks@, pos as int);
        }
        Ok((None, pos))
    }
}

/// `else` followed by an `if`, an `if let` or a block.
fn else_block(toks: &Vec<Tok>, pos: usize) -> (r: Result<(Expr, usize), ParseError>)
    requires
        pos < toks.len(),
        toks@[pos as int] == Tok::Kw(Keyword::Else),
    ensures
        r matches Ok((x, end)) ==> pos < end <= toks.len() && (x is If || x is IfLet || x is Block)
            && covers(toks@, pos as int, end as int, k1(Keyword::Else) + tokens_expr(x)),
        !(pos + 1 < toks@.len() && (toks@[pos + 1] == Tok::Kw(Keyword::If) || toks@[pos + 1] == Tok::Open(Delim::Brace)))
            ==> r == Err::<(Expr, usize), ParseError>(ParseError { pos: (pos + 1) as usize, kind: ErrorKind::Unexpected }),
        empty_block_at(toks@, pos + 1) ==> (r matches Ok((x, end)) && x is Block && end == semis_end(toks@, pos + 2) + 1),
        r matches Ok((x, end)) ==> (toks@[pos + 1] == Tok::Kw(Keyword::If) && pos + 2 < toks@.len() && toks@[pos + 2]
            == Tok::Kw(Keyword::Let) ==> x is IfLet) && (toks@[pos + 1] == Tok::Kw(Keyword::If) && !(pos + 2 < toks@.len()
            && toks@[pos + 2] == Tok::Kw(Keyword::Let)) ==> x is If) && (toks@[pos + 1] == Tok::Open(Delim::Brace) ==> x is Block),
    decreases toks@.len() - pos, 11int,
{
    let i = pos + 1;
    proof {
        lemma_covers_tok(toks@, pos as int, Tok::Kw(Keyword::Else));
        lemma_covers_empty(toks@, i as int);
        assert(tokens_outer(Seq::<Attribute>::empty()) =~= Seq::<Tok>::empty());
        assert(tokens_inner(Seq::<Attribute>::empty()) =~= Seq::<Tok>::empty());
    }
    if i < toks.len() && toks[i] == Tok::Kw(Keyword::If) {
        let (x, end) = if i + 1 < toks.len() && toks[i + 1] == Tok::Kw(Keyword::Let) {
            atom_iflet(toks, i, i, Vec::new())?
        } else {
            atom_if(toks, i, i, Vec::new())?
        };
        proof {
            lemma_covers_cat(toks@, pos as int, i as int, end as int, k1(Keyword::Else), tokens_expr(x));
        }
        Ok((x, end))
    } else if i < toks.len() && toks[i] == Tok::Open(Delim::Brace) {
        let (block, end) = parse_block(toks, i)?;
        let x = Expr::Block(ExprBlock { attrs: Vec::new(), label: None, block });
        proof {
            assert(tokens_expr(x) =~= delimited(Delim::Brace, tokens_stmts(block.stmts@)));
            lemma_covers_cat(toks@, pos as int, i as int, end as int, k1(Keyword::Else), tokens_expr(x));
        }
        Ok((x, end))
    } else {
        err(i, ErrorKind::Unexpected)
    }
}

/// `if cond { .. } else ..`; the outer attributes are those read before it.
pub(crate) fn atom_if(toks: &Vec<Tok>, pos: usize, i: usize, attrs: Vec<Attribute>) -> (r: Result<(Expr, usize), ParseError>)
    requires
        outer_read(toks@, pos as int, i as int, attrs@),
        i < toks.len(),
        toks@[i as int] == Tok::Kw(Keyword::If),
    ensures
        r matches Ok((e, end)) ==> atom_parts(toks@, pos as int, i as int, end as int, e) && e is If,
        lone_lit_at(toks@, i + 1) && empty_block_at(toks@, i + 2) && !at_else(toks@, semis_end(toks@, i + 3) + 1)
            ==> (r matches Ok((e, end)) && e is If && e->If_0.else_branch is None && end == semis_end(toks@, i + 3) + 1),
    decreases toks@.len() - i, 10int,
{
    let (cond, j) = expr_no_struct(toks, i + 1)?;
    let (then_branch, k) = parse_block(toks, j)?;
    let (else_branch, end) = opt_else(toks, k)?;
    let ghost o = attrs@;
    let ghost bt = delimited(Delim::Brace, tokens_stmts(then_branch.stmts@));
    let ghost et = tokens_else(else_branch);
    let e = Expr::If(ExprIf { attrs, cond: Box::new(cond), then_branch, else_branch });
    proof {
        lemma_covers_tok(toks@, i as int, Tok::Kw(Keyword::If));
        lemma_covers_cat(toks@, i as int, i + 1, j as int, k1(Keyword::If), tokens_expr(cond));
        lemma_covers_cat(toks@, i as int, j as int, k as int, k1(Keyword::If) + tokens_expr(cond), bt);
        lemma_covers_cat(toks@, i as int, k as int, end as int, k1(Keyword::If) + tokens_expr(cond) + bt, et);
        assert(tokens_expr_body(e) =~= k1(Keyword::If) + tokens_expr(cond) + bt + et);
        assert(e.attrs() =~= o + Seq::<Attribute>::empty());
        lemma_atom_done(toks@, pos as int, i as int, end as int, e, o, Seq::empty(), i as int, i as int);
    }
    Ok((e, end))
}

/// `if let pats = expr { .. } else ..`.
pub(crate) fn atom_iflet(toks: &Vec<Tok>, pos: usize, i: usize, attrs: Vec<Attribute>) -> (r: Result<(Expr, usize), ParseError>)
    requires
        outer_read(toks@, pos as int, i as int, attrs@),
        i + 1 < toks.len(),
        toks@[i as int] == Tok::Kw(Keyword::If),
        toks@[i + 1] == Tok::Kw(Keyword::Let),
    ensures
        r matches Ok((e, end)) ==> atom_parts(toks@, pos as int, i as int, end as int, e) && e is IfLet,
        i + 4 < toks@.len() && toks@[i + 2] == Tok::Kw(Keyword::Underscore) && toks@[i + 3] == Tok::Punct(Punct::Eq)
            && lone_lit_at(toks@, i + 4) && empty_block_at(toks@, i + 5) && !at_else(toks@, semis_end(toks@, i + 6) + 1)
            ==> (r matches Ok((e, end)) && e is IfLet && e->IfLet_0.else_branch is None && end == semis_end(toks@, i + 6) + 1),
    decreases toks@.len() - i, 10int,
{
    let (pats, j) = parse_pats_or(toks, i + 2)?;
    proof {
        lemma_pats_or_covers(toks@, i + 2, j as int, pats@);
    }
    let j2 = expect(toks, j, Tok::Punct(Punct::Eq))?;
    let (x, k) = expr_no_struct(toks, j2)?;
    let (then_branch, m) = parse_block(toks, k)?;
    let (else_branch, end) = opt_else(toks, m)?;
    let ghost o = attrs@;
    let ghost pt = tokens_pats_or(pats@);
    let ghost bt = delimited(Delim::Brace, tokens_stmts(then_branch.stmts@));
    let ghost et = tokens_else(else_branch);
    let ghost h = k1(Keyword::If) + k1(Keyword::Let);
    let e = Expr::IfLet(ExprIfLet { attrs, pats, expr: Box::new(x), then_branch, else_branch });
    proof {
        lemma_covers_tok(toks@, i as int, Tok::Kw(Keyword::If));
        lemma_covers_tok(toks@, i + 1, Tok::Kw(Keyword::Let));
        lemma_covers_tok(toks@, j as int, Tok::Punct(Punct::Eq));
        lemma_covers_cat(toks@, i as int, i + 1, i + 2, k1(Keyword::If), k1(Keyword::Let));
        lemma_covers_cat(toks@, i as int, i + 2, j as int, h, pt);
        lemma_covers_cat(toks@, i as int, j as int, j2 as int, h + pt, p1(Punct::Eq));
        lemma_covers_cat(toks@, i as int, j2 as int, k as int, h + pt + p1(Punct::Eq), tokens_expr(x));
        lemma_covers_cat(toks@, i as int, k as int, m as int, h + pt + p1(Punct::Eq) + tokens_expr(x), bt);
        lemma_covers_cat(toks@, i as int, m as int, end as int, h + pt + p1(Punct::Eq) + tokens_expr(x) + bt, et);
        assert(tokens_expr_body(e) =~= h + pt + p1(Punct::Eq) + tokens_expr(x) + bt + et);
        assert(e.attrs() =~= o + Seq::<Attribute>::empty());
        lemma_atom_done(toks@, pos as int, i as int, end as int, e, o, Seq::empty(), i as int, i as int);
    }
    Ok((e, end))
}


/// `'label: while cond { .. }`.
pub(crate) fn atom_while(toks: &Vec<Tok>, pos: usize, i: usize, attrs: Vec<Attribute>) -> (r: Result<(Expr, usize), ParseError>)
    requires
        outer_read(toks@, pos as int, i as int, attrs@),
        i < toks.len(),
    ensures
        r matches Ok((e, end)) ==> atom_parts(toks@, pos as int, i as int, end as int, e) && !(e is Struct),
        ({
            let j = label_end(toks@, i as int).unwrap();
            label_end(toks@, i as int) is Some && j < toks@.len() && toks@[j] == Tok::Kw(Keyword::While) && lone_lit_at(
                toks@,
                j + 1,
            ) && empty_block_at(toks@, j + 2) ==> (r matches Ok((e, end)) && e is While && end == semis_end(toks@, j + 3) + 1)
        }),
    decreases toks@.len() - i, 10int,
{
    let (label, j) = opt_label(toks, i)?;
    let j2 = expect(toks, j, Tok::Kw(Keyword::While))?;
    let (cond, k) = expr_no_struct(toks, j2)?;
    let (inner, stmts, end) = braced_body(toks, k)?;
    let ghost o = attrs@;
    let ghost n = inner@;
    let ghost h = tokens_label(label) + k1(Keyword::While);
    let ghost bt = delimited(Delim::Brace, tokens_inner(n) + tokens_stmts(stmts@));
    let all = join_attrs(attrs, inner);
    let e = Expr::While(ExprWhile { attrs: all, label, cond: Box::new(cond), body: Block { stmts } });
    proof {
        lemma_join_attrs(o, n);
        lemma_covers_tok(toks@, j as int, Tok::Kw(Keyword::While));
        lemma_covers_cat(toks@, i as int, j as int, j2 as int, tokens_label(label), k1(Keyword::While));
        lemma_covers_cat(toks@, i as int, j2 as int, k as int, h, tokens_expr(cond));
        lemma_covers_cat(toks@, i as int, k as int, end as int, h + tokens_expr(cond), bt);
        assert(tokens_expr_body(e) =~= h + tokens_expr(cond) + bt);
        lemma_atom_done(toks@, pos as int, i as int, end as int, e, o, n, k as int, end as int);
    }
    Ok((e, end))
}

/// `'label: while let pats = expr { .. }`.
pub(crate) fn atom_whilelet(toks: &Vec<Tok>, pos: usize, i: usize, attrs: Vec<Attribute>) -> (r: Result<(Expr, usize), ParseError>)
    requires
        outer_read(toks@, pos as int, i as int, attrs@),
        i < toks.len(),
    ensures
        r matches Ok((e, end)) ==> atom_parts(toks@, pos as int, i as int, end as int, e) && !(e is Struct),
        ({
            let j = label_end(toks@, i as int).unwrap();
            label_end(toks@, i as int) is Some && j + 3 < toks@.len() && toks@[j] == Tok::Kw(Keyword::While) && toks@[j + 1]
                == Tok::Kw(Keyword::Let) && toks@[j + 2] == Tok::Kw(Keyword::Underscore) && toks@[j + 3] == Tok::Punct(
                Punct::Eq,
            ) && lone_lit_at(toks@, j + 4) && empty_block_at(toks@, j + 5) ==> (r matches Ok((e, end)) && e is WhileLet
                && end == semis_end(toks@, j + 6) + 1)
        }),
        ({
            let j = label_end(toks@, i as int).unwrap();
            let k = or_pats_end(toks@, j + 2).unwrap();
            let c = chain_stop(toks@, k + 2, Precedence::Any);
            label_end(toks@, i as int) is Some && j + 1 < toks@.len() && toks@[j] == Tok::Kw(Keyword::While) && toks@[j + 1]
                == Tok::Kw(Keyword::Let) && or_pats_end(toks@, j + 2) is Some && k < toks@.len() && toks@[k] == Tok::Punct(
                Punct::Eq,
            ) && simple_operand(toks@, k + 1, false) && chain_ok(toks@, k + 2, false) && empty_block_at(toks@, c) ==> (r matches Ok((
                e,
                end,
            )) && e is WhileLet && end == semis_end(toks@, c + 1) + 1)
        }),
    decreases toks@.len() - i, 10int,
{
    let (label, j) = opt_label(toks, i)?;
    let j2 = expect(toks, j, Tok::Kw(Keyword::While))?;
    let j3 = expect(toks, j2, Tok::Kw(Keyword::Let))?;
    let (pats, k) = parse_pats_or(toks, j3)?;
    proof {
        lemma_pats_or_covers(toks@, j3 as int, k as int, pats@);
    }
    let k2 = expect(toks, k, Tok::Punct(Punct::Eq))?;
    let (x, m) = expr_no_struct(toks, k2)?;
    let (inner, stmts, end) = braced_body(toks, m)?;
    let ghost o = attrs@;
    let ghost n = inner@;
    let ghost h = tokens_label(label) + k1(Keyword::While) + k1(Keyword::Let);
    let ghost pt = tokens_pats_or(pats@);
    let ghost bt = delimited(Delim::Brace, tokens_inner(n) + tokens_stmts(stmts@));
    let all = join_attrs(attrs, inner);
    let e = Expr::WhileLet(ExprWhileLet { attrs: all, label, pats, expr: Box::new(x), body: Block { stmts } });
    proof {
        lemma_join_attrs(o, n);
        lemma_covers_tok(toks@, j as int, Tok::Kw(Keyword::While));
        lemma_covers_tok(toks@, j2 as int, Tok::Kw(Keyword::Let));
        lemma_covers_tok(toks@, k as int, Tok::Punct(Punct::Eq));
        lemma_covers_cat(toks@, i as int, j as int, j2 as int, tokens_label(label), k1(Keyword::While));
        lemma_covers_cat(toks@, i as int, j2 as int, j3 as int, tokens_label(label) + k1(Keyword::While), k1(Keyword::Let));
        lemma_covers_cat(toks@, i as int, j3 as int, k as int, h, pt);
        lemma_covers_cat(toks@, i as int, k as int, k2 as int, h + pt, p1(Punct::Eq));
        lemma_covers_cat(toks@, i as int, k2 as int, m as int, h + pt + p1(Punct::Eq), tokens_expr(x));
        lemma_covers_cat(toks@, i as int, m as int, end as int, h + pt + p1(Punct::Eq) + tokens_expr(x), bt);
        assert(tokens_expr_body(e) =~= h + pt + p1(Punct::Eq) + tokens_expr(x) + bt);
        lemma_atom_done(toks@, pos as int, i as int, end as int, e, o, n, m as int, end as int);
    }
    Ok((e, end))
}

/// `'label: for pat in expr { .. }`.
pub(crate) fn atom_for(toks: &Vec<Tok>, pos: usize, i: usize, attrs: Vec<Attribute>) -> (r: Result<(Expr, usize), ParseError>)
    requires
        outer_read(toks@, pos as int, i as int, attrs@),
        i < toks.len(),
    ensures
        r matches Ok((e, end)) ==> atom_parts(toks@, pos as int, i as int, end as int, e) && !(e is Struct),
        ({
            let j = label_end(toks@, i as int).unwrap();
            label_end(toks@, i as int) is Some && j + 2 < toks@.len() && toks@[j] == Tok::Kw(Keyword::For) && toks@[j + 1]
                == Tok::Kw(Keyword::Underscore) && toks@[j + 2] == Tok::Kw(Keyword::In) && lone_lit_at(toks@, j + 3)
                && empty_block_at(toks@, j + 4) ==> (r matches Ok((e, end)) && e is ForLoop && end == semis_end(toks@, j + 5) + 1)
        }),
    decreases toks@.len() - i, 10int,
{
    let (label, j) = opt_label(toks, i)?;
    let j2 = expect(toks, j, Tok::Kw(Keyword::For))?;
    let (pat, k) = parse_pat(toks, j2)?;
    proof {
        lemma_parsed_pat_covers(toks@, j2 as int, k as int, pat);
    }
    let k2 = expect(toks, k, Tok::Kw(Keyword::In))?;
    let (x, m) = expr_no_struct(toks, k2)?;
    let (inner, stmts, end) = braced_body(toks, m)?;
    let ghost o = attrs@;
    let ghost n = inner@;
    let ghost h = tokens_label(label) + k1(Keyword::For);
    let ghost bt = delimited(Delim::Brace, tokens_inner(n) + tokens_stmts(stmts@));
    let all = join_attrs(attrs, inner);
    let e = Expr::ForLoop(ExprForLoop { attrs: all, label, pat: Box::new(pat), expr: Box::new(x), body: Block { stmts } });
    proof {
        lemma_join_attrs(o, n);
        lemma_covers_tok(toks@, j as int, Tok::Kw(Keyword::For));
        lemma_covers_tok(toks@, k as int, Tok::Kw(Keyword::In));
        lemma_covers_cat(toks@, i as int, j as int, j2 as int, tokens_label(label), k1(Keyword::For));
        lemma_covers_cat(toks@, i as int, j2 as int, k as int, h, tokens_pat(pat));
        lemma_covers_cat(toks@, i as int, k as int, k2 as int, h + tokens_pat(pat), k1(Keyword::In));
        lemma_covers_cat(toks@, i as int, k2 as int, m as int, h + tokens_pat(pat) + k1(Keyword::In), tokens_expr(x));
        lemma_covers_cat(toks@, i as int, m as int, end as int, h + tokens_pat(pat) + k1(Keyword::In) + tokens_expr(x), bt);
        assert(tokens_expr_body(e) =~= h + tokens_pat(pat) + k1(Keyword::In) + tokens_expr(x) + bt);
        lemma_atom_done(toks@, pos as int, i as int, end as int, e, o, n, m as int, end as int);
    }
    Ok((e, end))
}

/// `'label: loop { .. }`.
pub(crate) fn atom_loop(toks: &Vec<Tok>, pos: usize, i: usize, attrs: Vec<Attribute>) -> (r: Result<(Expr, usize), ParseError>)
    requires
        outer_read(toks@, pos as int, i as int, attrs@),
        i < toks.len(),
    ensures
        r matches Ok((e, end)) ==> atom_parts(toks@, pos as int, i as int, end as int, e) && !(e is Struct),
        label_end(toks@, i as int) is None ==> r is Err,
        ({
            let j = label_end(toks@, i as int).unwrap();
            label_end(toks@, i as int) is Some && j < toks@.len() && toks@[j] == Tok::Kw(Keyword::Loop)
                && empty_block_at(toks@, j + 1) ==> (r matches Ok((e, end)) && e is Loop
                && e->Loop_0.body.stmts@.len() == 0 && end == semis_end(toks@, j + 2) + 1)
        }),
    decreases toks@.len() - i, 10int,
{
    let (label, j) = opt_label(toks, i)?;
    let j2 = expect(toks, j, Tok::Kw(Keyword::Loop))?;
    let (inner, stmts, end) = braced_body(toks, j2)?;
    let ghost o = attrs@;
    let ghost n = inner@;
    let ghost h = tokens_label(label) + k1(Keyword::Loop);
    let ghost bt = delimited(Delim::Brace, tokens_inner(n) + tokens_stmts(stmts@));
    let all = join_attrs(attrs, inner);
    let e = Expr::Loop(ExprLoop { attrs: all, label, body: Block { stmts } });
    proof {
        lemma_join_attrs(o, n);
        lemma_covers_tok(toks@, j as int, Tok::Kw(Keyword::Loop));
        lemma_covers_cat(toks@, i as int, j as int, j2 as int, tokens_label(label), k1(Keyword::Loop));
        lemma_covers_cat(toks@, i as int, j2 as int, end as int, h, bt);
        assert(tokens_expr_body(e) =~= h + bt);
        lemma_atom_done(toks@, pos as int, i as int, end as int, e, o, n, j2 as int, end as int);
    }
    Ok((e, end))
}

/// `'label: { .. }`.
pub(crate) fn atom_block(toks: &Vec<Tok>, pos: usize, i: usize, attrs: Vec<Attribute>) -> (r: Result<(Expr, usize), ParseError>)
    requires
        outer_read(toks@, pos as int, i as int, attrs@),
        i < toks.len(),
    ensures
        r matches Ok((e, end)) ==> atom_parts(toks@, pos as int, i as int, end as int, e) && !(e is Struct),
        label_end(toks@, i as int) is None ==> r is Err,
        ({
            let j = label_end(toks@, i as int).unwrap();
            label_end(toks@, i as int) is Some && empty_block_at(toks@, j) ==> (r matches Ok((e, end))
                && e is Block && e->Block_0.block.stmts@.len() == 0 && end == semis_end(toks@, j + 1) + 1)
        }),
        ({
            let j = label_end(toks@, i as int).unwrap();
            label_end(toks@, i as int) is Some && simple_block_end(toks@, j) is Some ==> (r matches Ok((e, end)) && e is Block
                && Some(end as int) == simple_block_end(toks@, j))
        }),
    decreases toks@.len() - i, 10int,
{
    let (label, j) = opt_label(toks, i)?;
    let (inner, stmts, end) = braced_body(toks, j)?;
    let ghost o = attrs@;
    let ghost n = inner@;
    let ghost bt = delimited(Delim::Brace, tokens_inner(n) + tokens_stmts(stmts@));
    let all = join_attrs(attrs, inner);
    let e = Expr::Block(ExprBlock { attrs: all, label, block: Block { stmts } });
    proof {
        lemma_join_attrs(o, n);
        lemma_covers_cat(toks@, i as int, j as int, end as int, tokens_label(label), bt);
        assert(tokens_expr_body(e) =~= tokens_label(label) + bt);
        lemma_atom_done(toks@, pos as int, i as int, end as int, e, o, n, j as int, end as int);
    }
    Ok((e, end))
}

/// `unsafe { .. }`.
pub(crate) fn atom_unsafe(toks: &Vec<Tok>, pos: usize, i: usize, attrs: Vec<Attribute>) -> (r: Result<(Expr, usize), ParseError>)
    requires
        outer_read(toks@, pos as int, i as int, attrs@),
        i < toks.len(),
    ensures
        r matches Ok((e, end)) ==> atom_parts(toks@, pos as int, i as int, end as int, e) && !(e is Struct),
        toks@[i as int] != Tok::Kw(Keyword::Unsafe) ==> r is Err,
        toks@[i as int] == Tok::Kw(Keyword::Unsafe) && empty_block_at(toks@, i + 1) ==> (r matches Ok((e, end))
            && e is Unsafe && e->Unsafe_0.block.stmts@.len() == 0 && end == semis_end(toks@, i + 2) + 1),
    decreases toks@.len() - i, 10int,
{
    let j = expect(toks, i, Tok::Kw(Keyword::Unsafe))?;
    let (inner, stmts, end) = braced_body(toks, j)?;
    let ghost o = attrs@;
    let ghost n = inner@;
    let ghost bt = delimited(Delim::Brace, tokens_inner(n) + tokens_stmts(stmts@));
    let all = join_attrs(attrs, inner);
    let e = Expr::Unsafe(ExprUnsafe { attrs: all, block: Block { stmts } });
    proof {
        lemma_join_attrs(o, n);
        lemma_covers_tok(toks@, i as int, Tok::Kw(Keyword::Unsafe));
        lemma_covers_cat(toks@, i as int, j as int, end as int, k1(Keyword::Unsafe), bt);
        assert(tokens_expr_body(e) =~= k1(Keyword::Unsafe) + bt);
        lemma_atom_done(toks@, pos as int, i as int, end as int, e, o, n, j as int, end as int);
    }
    Ok((e, end))
}

/// `try { .. }`; its block takes no inner attributes.
pub(crate) fn atom_try_block(toks: &Vec<Tok>, pos: usize, i: usize, attrs: Vec<Attribute>) -> (r: Result<(Expr, usize), ParseError>)
    requires
        outer_read(toks@, pos as int, i as int, attrs@),
        i < toks.len(),
    ensures
        r matches Ok((e, end)) ==> atom_parts(toks@, pos as int, i as int, end as int, e) && !(e is Struct),
        toks@[i as int] != Tok::Kw(Keyword::Try) ==> r is Err,
        toks@[i as int] == Tok::Kw(Keyword::Try) && empty_block_at(toks@, i + 1) ==> (r matches Ok((e, end))
            && e is TryBlock && e->TryBlock_0.block.stmts@.len() == 0 && end == semis_end(toks@, i + 2) + 1),
    decreases toks@.len() - i, 10int,
{
    let j = expect(toks, i, Tok::Kw(Keyword::Try))?;
    let (block, end) = parse_block(toks, j)?;
    let ghost o = attrs@;
    let ghost bt = delimited(Delim::Brace, tokens_stmts(block.stmts@));
    let e = Expr::TryBlock(ExprTryBlock { attrs, block });
    proof {
        lemma_covers_tok(toks@, i as int, Tok::Kw(Keyword::Try));
        lemma_covers_cat(toks@, i as int, j as int, end as int, k1(Keyword::Try), bt);
        assert(tokens_expr_body(e) =~= k1(Keyword::Try) + bt);
        assert(e.attrs() =~= o + Seq::<Attribute>::empty());
        lemma_atom_done(toks@, pos as int, i as int, end as int, e, o, Seq::empty(), i as int, i as int);
    }
    Ok((e, end))
}

/// `async move? { .. }`; its block takes no inner attributes.
pub(crate) fn atom_async(toks: &Vec<Tok>, pos: usize, i: usize, attrs: Vec<Attribute>) -> (r: Result<(Expr, usize), ParseError>)
    requires
        outer_read(toks@, pos as int, i as int, attrs@),
        i < toks.len(),
    ensures
        r matches Ok((e, end)) ==> atom_parts(toks@, pos as int, i as int, end as int, e) && !(e is Struct),
        toks@[i as int] != Tok::Kw(Keyword::Async) ==> r is Err,
        ({
            let j = if i + 1 < toks@.len() && toks@[i + 1] == Tok::Kw(Keyword::Move) {
                i + 2
            } else {
                i + 1
            };
            toks@[i as int] == Tok::Kw(Keyword::Async) && empty_block_at(toks@, j) ==> (r matches Ok((e, end))
                && e is Async && e->Async_0.block.stmts@.len() == 0 && e->Async_0.capture == (j == i + 2)
                && end == semis_end(toks@, j + 1) + 1)
        }),
    decreases toks@.len() - i, 10int,
{
    let mut j = expect(toks, i, Tok::Kw(Keyword::Async))?;
    let capture = j < toks.len() && toks[j] == Tok::Kw(Keyword::Move);
    let j0 = j;
    proof {
        lemma_covers_tok(toks@, i as int, Tok::Kw(Keyword::Async));
        lemma_covers_empty(toks@, j as int);
    }
    if capture {
        proof {
            lemma_covers_tok(toks@, j as int, Tok::Kw(Keyword::Move));
        }
        j = j + 1;
    }
    let (block, end) = parse_block(toks, j)?;
    let ghost o = attrs@;
    let ghost h = k1(Keyword::Async) + maybe(capture, k1(Keyword::Move));
    let ghost bt = delimited(Delim::Brace, tokens_stmts(block.stmts@));
    let e = Expr::Async(ExprAsync { attrs, capture, block });
    proof {
        lemma_covers_cat(toks@, i as int, j0 as int, j as int, k1(Keyword::Async), maybe(capture, k1(Keyword::Move)));
        lemma_covers_cat(toks@, i as int, j as int, end as int, h, bt);
        assert(tokens_expr_body(e) =~= h + bt);
        assert(e.attrs() =~= o + Seq::<Attribute>::empty());
        lemma_atom_done(toks@, pos as int, i as int, end as int, e, o, Seq::empty(), i as int, i as int);
    }
    Ok((e, end))
}


/// What the guard of a match arm prints as.
pub open spec fn tokens_guard(g: Option<Box<Expr>>) -> Seq<Tok> {
    match g {
        Some(g) => k1(Keyword::If) + tokens_expr(*g),
        None => Seq::empty(),
    }
}

/// Reads one arm of a `match`: attributes, an optional leading `|`, the
/// patterns, an optional `if` guard, `=>` and the body. A body that is not
/// block-like must be followed by `,` unless it is the last arm.
#[verifier::spinoff_prover]
pub fn parse_arm(toks: &Vec<Tok>, pos: usize) -> (r: Result<(Arm, usize), ParseError>)
    requires
        pos <= toks.len(),
    ensures
        r matches Ok((a, end)) ==> {
            &&& pos < end <= toks.len()
            &&& covers(toks@, pos as int, end as int, tokens_arm(a))
            &&& (requires_comma(*a.body) && !a.comma ==> at_group_end(toks@, end as int))
        },
        outer_end(toks@, pos as int) is None ==> r is Err,
        ({
            let i = outer_end(toks@, pos as int).unwrap();
            outer_end(toks@, pos as int) is Some && i < toks@.len() && toks@[i] != Tok::Punct(
                Punct::Or,
            ) && !pat_start(toks@[i]) ==> r == Err::<(Arm, usize), ParseError>(
                ParseError { pos: i as usize, kind: ErrorKind::Unexpected },
            )
        }),
        ({
            let k = or_pats_end(toks@, pos as int).unwrap();
            let stop = chain_stmt_end(toks@, k + 1);
            let head = or_pats_end(toks@, pos as int) is Some && k < toks@.len() && toks@[k] == Tok::Punct(
                Punct::FatArrow,
            );
            &&& head && chain_stmt_at(toks@, k + 1) && stop < toks@.len() && toks@[stop] == Tok::Punct(Punct::Comma)
                ==> (r matches Ok((a, end)) && a.comma && a.guard is None && end == stop + 1)
            &&& head && chain_stmt_at(toks@, k + 1) && at_group_end(toks@, stop) ==> (r matches Ok((a, end)) && !a.comma
                && a.guard is None && end == stop)
            &&& head && chain_stmt_at(toks@, k + 1) && !at_group_end(toks@, stop) && toks@[stop] != Tok::Punct(Punct::Comma)
                ==> r == Err::<(Arm, usize), ParseError>(ParseError { pos: stop as usize, kind: ErrorKind::Unexpected })
        }),
        ({
            let k = or_pats_end(toks@, pos as int).unwrap();
            let b = early_empty_end(toks@, k + 1).unwrap();
            or_pats_end(toks@, pos as int) is Some && k < toks@.len() && toks@[k] == Tok::Punct(Punct::FatArrow)
                && early_empty_end(toks@, k + 1) is Some && !(b < toks@.len() && (toks@[b] == Tok::Punct(Punct::Dot)
                || toks@[b] == Tok::Punct(Punct::Question))) ==> (r matches Ok((a, end)) && end == (if b < toks@.len()
                && toks@[b] == Tok::Punct(Punct::Comma) {
                b + 1
            } else {
                b
            }))
        }),
    decreases toks@.len() - pos, 12int,
{
    let (attrs, i) = parse_outer(toks, pos)?;
    let leading_vert = i < toks.len() && toks[i] == Tok::Punct(Punct::Or);
    proof {
        lemma_covers_empty(toks@, i as int);
        if leading_vert {
            lemma_covers_tok(toks@, i as int, Tok::Punct(Punct::Or));
        }
    }
    let j = if leading_vert {
        i + 1
    } else {
        i
    };
    let (pats, k) = parse_pats_or(toks, j)?;
    proof {
        lemma_pats_or_covers(toks@, j as int, k as int, pats@);
    }
    let (guard, m) = if k < toks.len() && toks[k] == Tok::Kw(Keyword::If) {
        let (g, m) = expr_full(toks, k + 1)?;
        proof {
            lemma_covers_tok(toks@, k as int, Tok::Kw(Keyword::If));
            lemma_covers_cat(toks@, k as int, k + 1, m as int, k1(Keyword::If), tokens_expr(g));
        }
        (Some(Box::new(g)), m)
    } else {
        proof {
            lemma_covers_empty(toks@, k as int);
        }
        (None, k)
    };
    let ghost gt = tokens_guard(guard);
    assert(covers(toks@, k as int, m as int, gt));
    let m2 = expect(toks, m, Tok::Punct(Punct::FatArrow))?;
    let (body, b) = expr_early(toks, m2)?;
    let needs = arm_expr_requires_comma(&body);
    let (comma, end) = if needs && !is_group_end(toks, b) {
        let e = expect(toks, b, Tok::Punct(Punct::Comma))?;
        (true, e)
    } else if b < toks.len() && toks[b] == Tok::Punct(Punct::Comma) {
        (true, b + 1)
    } else {
        (false, b)
    };
    proof {
        lemma_covers_empty(toks@, b as int);
        if comma {
            lemma_covers_tok(toks@, b as int, Tok::Punct(Punct::Comma));
        }
        lemma_attrs_all_outer(attrs@);
        let h1 = tokens_attrs(attrs@) + maybe(leading_vert, p1(Punct::Or));
        lemma_covers_cat(toks@, pos as int, i as int, j as int, tokens_attrs(attrs@), maybe(leading_vert, p1(Punct::Or)));
        lemma_covers_cat(toks@, pos as int, j as int, k as int, h1, tokens_pats_or(pats@));
        lemma_covers_cat(toks@, pos as int, k as int, m as int, h1 + tokens_pats_or(pats@), gt);
        lemma_covers_tok(toks@, m as int, Tok::Punct(Punct::FatArrow));
        lemma_covers_cat(toks@, pos as int, m as int, m2 as int, h1 + tokens_pats_or(pats@) + gt, p1(Punct::FatArrow));
        lemma_covers_cat(toks@, pos as int, m2 as int, b as int, h1 + tokens_pats_or(pats@) + gt + p1(Punct::FatArrow), tokens_expr(body));
        lemma_covers_cat(toks@, pos as int, b as int, end as int, h1 + tokens_pats_or(pats@) + gt + p1(Punct::FatArrow) + tokens_expr(body), maybe(comma, p1(Punct::Comma)));
    }
    let a = Arm { attrs, leading_vert, pats, guard, body: Box::new(body), comma };
    Ok((a, end))
}

/// `match expr { #![..] arms }`.
pub(crate) fn atom_match(toks: &Vec<Tok>, pos: usize, i: usize, attrs: Vec<Attribute>) -> (r: Result<(Expr, usize), ParseError>)
    requires
        outer_read(toks@, pos as int, i as int, attrs@),
        i < toks.len(),
    ensures
        r matches Ok((e, end)) ==> atom_parts(toks@, pos as int, i as int, end as int, e) && !(e is Struct),
        toks@[i as int] == Tok::Kw(Keyword::Match) && simple_operand(toks@, i + 1, false) && i + 3 < toks@.len() && toks@[i + 2]
            == Tok::Open(Delim::Brace) && toks@[i + 3] == Tok::Close(Delim::Brace) ==> (r matches Ok((e, end)) && e is Match
            && e->Match_0.arms@.len() == 0 && end == i + 4 && plain_tree(*e->Match_0.expr)),
    decreases toks@.len() - i, 10int,
{
    let j = expect(toks, i, Tok::Kw(Keyword::Match))?;
    let (x, k) = expr_no_struct(toks, j)?;
    let open = expect(toks, k, Tok::Open(Delim::Brace))?;
    let (inner, start) = parse_inner(toks, open)?;
    let mut arms: Vec<Arm> = Vec::new();
    let mut q = start;
    proof {
        lemma_covers_empty(toks@, start as int);
        assert(tokens_arms(arms@) =~= Seq::<Tok>::empty());
    }
    loop
        invariant
            i < start <= q <= toks.len(),
            covers(toks@, start as int, q as int, tokens_arms(arms@)),
            start < toks@.len() && toks@[start as int] is Close ==> q == start && arms@.len() == 0,
            toks@[i as int] == Tok::Kw(Keyword::Match) && simple_operand(toks@, i + 1, false) && i + 3 < toks@.len() && toks@[i + 2]
                == Tok::Open(Delim::Brace) && toks@[i + 3] == Tok::Close(Delim::Brace) ==> start == i + 3,
            arms@.len() > 0 ==> (requires_comma(*arms@[arms@.len() - 1].body) && !arms@[arms@.len() - 1].comma ==> at_group_end(toks@, q as int)),
        decreases toks@.len() - q,
    {
        if is_group_end(toks, q) {
            break;
        }
        let (a, e) = parse_arm(toks, q)?;
        proof {
            lemma_arms_push(arms@, a);
            if arms@.len() > 0 {
                assert(tokens_arms(arms@) + maybe(
                    requires_comma(*arms@[arms@.len() - 1].body) && !arms@[arms@.len() - 1].comma,
                    p1(Punct::Comma),
                ) =~= tokens_arms(arms@));
            }
            lemma_covers_cat(toks@, start as int, q as int, e as int, crate::print::tokens_arms_sep(arms@), tokens_arm(a));
        }
        arms.push(a);
        q = e;
    }
    let close = expect(toks, q, Tok::Close(Delim::Brace))?;
    let ghost o = attrs@;
    let ghost n = inner@;
    let ghost bt = delimited(Delim::Brace, tokens_inner(n) + tokens_arms(arms@));
    let all = join_attrs(attrs, inner);
    let e = Expr::Match(ExprMatch { attrs: all, expr: Box::new(x), arms });
    proof {
        lemma_join_attrs(o, n);
        lemma_covers_cat(toks@, open as int, start as int, q as int, tokens_inner(n), tokens_arms(e->Match_0.arms@));
        lemma_covers_delim(toks@, k as int, q as int, Delim::Brace, tokens_inner(n) + tokens_arms(e->Match_0.arms@));
        lemma_covers_tok(toks@, i as int, Tok::Kw(Keyword::Match));
        lemma_covers_cat(toks@, i as int, j as int, k as int, k1(Keyword::Match), tokens_expr(x));
        lemma_covers_cat(toks@, i as int, k as int, close as int, k1(Keyword::Match) + tokens_expr(x), bt);
        assert(tokens_expr_body(e) =~= k1(Keyword::Match) + tokens_expr(x) + bt);
        if n.len() > 0 {
            lemma_lossy_widen(toks@, k as int, open as int, start as int, close as int);
        }
        lemma_atom_done(toks@, pos as int, i as int, close as int, e, o, n, k as int, close as int);
    }
    Ok((e, close))
}

/// What a closure input prints as: `pat: _` prints as `pat`.
pub open spec fn tokens_fn_arg(a: FnArg) -> Seq<Tok> {
    match a {
        FnArg::Captured(p, Type::Infer) => tokens_pat(p),
        FnArg::Captured(p, t) => tokens_pat(p) + p1(Punct::Colon) + tokens_type(t),
        FnArg::Inferred(p) => tokens_pat(p),
    }
}

/// One input of a closure: a pattern with an optional `: Type`.
fn fn_arg(toks: &Vec<Tok>, pos: usize) -> (r: Result<(FnArg, usize), ParseError>)
    requires
        1 <= pos <= toks.len(),
        pat_lead(toks@[pos - 1]),
    ensures
        r matches Ok((a, end)) ==> pos < end <= toks.len() && (covers(toks@, pos as int, end as int, tokens_fn_arg(a))
            || (end >= pos + 2 && toks@[end - 2] == Tok::Punct(Punct::Colon) && toks@[end - 1] == Tok::Kw(
            Keyword::Underscore,
        ))),
        pos < toks@.len() && toks@[pos as int] == Tok::Kw(Keyword::Underscore) && !(pos + 1 < toks@.len() && toks@[pos + 1]
            == Tok::Punct(Punct::Colon)) ==> r == Ok::<(FnArg, usize), ParseError>((FnArg::Inferred(Pat::Wild), (pos + 1) as usize)),
        simple_pat_at(toks@, pos as int) && !(pos + 1 < toks@.len() && toks@[pos + 1] == Tok::Punct(Punct::Colon)) ==> (r matches Ok((
            a,
            end,
        )) && a is Inferred && end == pos + 1),
    decreases toks@.len() - pos, 12int,
{
    let (pat, j) = parse_pat(toks, pos)?;
    proof {
        lemma_parsed_pat_covers(toks@, pos as int, j as int, pat);
    }
    if j < toks.len() && toks[j] == Tok::Punct(Punct::Colon) {
        let (ty, k) = parse_type(toks, j + 1)?;
        if matches!(ty, Type::Infer) {
            proof {
                assert(k == j + 2);
            }
            Ok((FnArg::Captured(pat, ty), k))
        } else {
            proof {
                lemma_covers_tok(toks@, j as int, Tok::Punct(Punct::Colon));
                lemma_covers_cat(toks@, pos as int, j as int, j + 1, tokens_pat(pat), p1(Punct::Colon));
                lemma_covers_cat(toks@, pos as int, j + 1, k as int, tokens_pat(pat) + p1(Punct::Colon), tokens_type(ty));
            }
            Ok((FnArg::Captured(pat, ty), k))
        }
    } else {
        Ok((FnArg::Inferred(pat), j))
    }
}

/// The inputs of a closure, starting at its first bar: `|a, b: T|`, or
/// `||` for none.
fn closure_inputs(toks: &Vec<Tok>, j: usize) -> (r: Result<(Vec<FnArg>, bool, usize), ParseError>)
    requires
        j <= toks.len(),
    ensures
        r matches Ok((inputs, trailing, k)) ==> j < k <= toks.len() && covers(
            toks@,
            j as int,
            k as int,
            tokens_closure_inputs(tokens_closure_arg_seq(inputs@), trailing),
        ),
        !(j < toks@.len() && (toks@[j as int] == Tok::Punct(Punct::OrOr) || toks@[j as int] == Tok::Punct(Punct::Or)))
            ==> r is Err,
        j < toks@.len() && toks@[j as int] == Tok::Punct(Punct::OrOr) ==> (r matches Ok((inputs, trailing, k))
            && inputs@.len() == 0 && !trailing && k == j + 1),
        j + 2 < toks@.len() && toks@[j as int] == Tok::Punct(Punct::Or) && toks@[j + 1] == Tok::Kw(Keyword::Underscore)
            && toks@[j + 2] == Tok::Punct(Punct::Or) ==> (r matches Ok((inputs, trailing, k)) && inputs@.len() == 1
            && !trailing && k == j + 3),
        closure_inputs_end(toks@, j as int) is Some ==> (r matches Ok((inputs, trailing, k)) && Some(k as int)
            == closure_inputs_end(toks@, j as int)),
    decreases toks@.len() - j, 9int,
{
    let mut inputs: Vec<FnArg> = Vec::new();
    let mut trailing = false;
    let k;
    if j < toks.len() && toks[j] == Tok::Punct(Punct::OrOr) {
        k = j + 1;
        proof {
            lemma_covers_tok(toks@, j as int, Tok::Punct(Punct::OrOr));
            assert(tokens_closure_inputs(tokens_closure_arg_seq(inputs@), trailing) =~= p1(Punct::OrOr));
        }
    } else {
        let open = expect(toks, j, Tok::Punct(Punct::Or))?;
        let mut q = open;
        proof {
            lemma_covers_empty(toks@, open as int);
        }
        loop
            invariant_except_break
                open <= q <= toks.len(),
                open == j + 1,
                toks@[j as int] == Tok::Punct(Punct::Or),
                closure_inputs_end(toks@, j as int) is Some ==> closure_pats_end(toks@, q as int) == closure_inputs_end(
                    toks@,
                    j as int,
                ),
                1 <= q && pat_lead(toks@[q - 1]),
                !trailing,
                open + 1 < toks@.len() && toks@[open as int] == Tok::Kw(Keyword::Underscore) && toks@[open + 1] == Tok::Punct(
                    Punct::Or,
                ) ==> (q == open && inputs@.len() == 0),
                covers(
                    toks@,
                    open as int,
                    q as int,
                    if inputs@.len() == 0 {
                        Seq::empty()
                    } else {
                        interleave(tokens_closure_arg_seq(inputs@), Punct::Comma) + p1(Punct::Comma)
                    },
                ),
                inputs@.len() == 0 ==> q == open,
            ensures
                open <= q < toks.len(),
                open + 1 < toks@.len() && toks@[open as int] == Tok::Kw(Keyword::Underscore) && toks@[open + 1] == Tok::Punct(
                    Punct::Or,
                ) ==> (q == open + 1 && inputs@.len() == 1 && !trailing),
                closure_inputs_end(toks@, j as int) is Some ==> closure_inputs_end(toks@, j as int) == Some(q + 1),
                toks@[q as int] == Tok::Punct(Punct::Or),
                covers(toks@, open as int, q as int, comma_list(tokens_closure_arg_seq(inputs@), trailing)),
                inputs@.len() == 0 ==> q == open,
            decreases toks@.len() - q,
        {
            if q < toks.len() && toks[q] == Tok::Punct(Punct::Or) {
                trailing = inputs.len() > 0;
                proof {
                    lemma_closure_arg_seq_len(inputs@);
                    if inputs@.len() == 0 {
                        assert(comma_list(tokens_closure_arg_seq(inputs@), trailing) =~= Seq::<Tok>::empty());
                    }
                }
                break;
            }
            let ghost old_inputs = inputs@;
            let ghost before = if old_inputs.len() == 0 {
                Seq::<Tok>::empty()
            } else {
                interleave(tokens_closure_arg_seq(old_inputs), Punct::Comma) + p1(Punct::Comma)
            };
            let (a, q2) = fn_arg(toks, q)?;
            proof {
                lemma_closure_arg_seq_push(old_inputs, a);
                lemma_closure_arg_seq_len(old_inputs);
                assert(tokens_fn_arg(a) == (match a {
                    FnArg::Captured(p, Type::Infer) => tokens_pat(p),
                    FnArg::Captured(p, t) => tokens_pat(p) + p1(Punct::Colon) + tokens_type(t),
                    FnArg::Inferred(p) => tokens_pat(p),
                }));
                lemma_interleave_push(tokens_closure_arg_seq(old_inputs), tokens_fn_arg(a), Punct::Comma);
                if q2 < toks@.len() && (toks@[q2 as int] == Tok::Punct(Punct::Or) || toks@[q2 as int] == Tok::Punct(
                    Punct::Comma,
                )) && !covers(toks@, q as int, q2 as int, tokens_fn_arg(a)) {
                    assert(lossy_at(toks@, q2 - 2));
                    lemma_lossy_in(toks@, q2 - 2, q as int, q2 as int, tokens_fn_arg(a));
                }
                if covers(toks@, q as int, q2 as int, tokens_fn_arg(a)) {
                    lemma_covers_cat(toks@, open as int, q as int, q2 as int, before, tokens_fn_arg(a));
                }
                if old_inputs.len() == 0 {
                    assert(before + tokens_fn_arg(a) =~= tokens_fn_arg(a));
                }
            }
            inputs.push(a);
            q = q2;
            assert(q < toks@.len() && (toks@[q as int] == Tok::Punct(Punct::Or) || toks@[q as int] == Tok::Punct(
                Punct::Comma,
            )) ==> covers(toks@, open as int, q as int, interleave(tokens_closure_arg_seq(inputs@), Punct::Comma)));
            if q < toks.len() && toks[q] == Tok::Punct(Punct::Or) {
                proof {
                    assert(comma_list(tokens_closure_arg_seq(inputs@), trailing) =~= interleave(
                        tokens_closure_arg_seq(inputs@),
                        Punct::Comma,
                    ));
                }
                break;
            }
            let n = expect(toks, q, Tok::Punct(Punct::Comma))?;
            proof {
                lemma_covers_tok(toks@, q as int, Tok::Punct(Punct::Comma));
                lemma_covers_cat(toks@, open as int, q as int, n as int, interleave(tokens_closure_arg_seq(inputs@), Punct::Comma), p1(Punct::Comma));
            }
            q = n;
        }
        k = q + 1;
        proof {
            lemma_closure_arg_seq_len(inputs@);
            if inputs@.len() == 0 {
                assert(bars_at(toks@, j as int));
                assert(lossy_at(toks@, j as int));
                assert(has_lossy(toks@, j as int, k as int));
            } else {
                lemma_covers_tok(toks@, j as int, Tok::Punct(Punct::Or));
                lemma_covers_tok(toks@, q as int, Tok::Punct(Punct::Or));
                lemma_covers_cat(toks@, j as int, open as int, q as int, p1(Punct::Or), comma_list(tokens_closure_arg_seq(inputs@), trailing));
                lemma_covers_cat(toks@, j as int, q as int, k as int, p1(Punct::Or) + comma_list(tokens_closure_arg_seq(inputs@), trailing), p1(Punct::Or));
            }
        }
    }
    Ok((inputs, trailing, k))
}

/// The return type and body of a closure, starting after its inputs.
fn closure_body(toks: &Vec<Tok>, k: usize, allow_struct: AllowStruct) -> (r: Result<(ReturnType, Expr, usize), ParseError>)
    requires
        k <= toks.len(),
    ensures
        r matches Ok((output, body, end)) ==> k < end <= toks.len() && covers(
            toks@,
            k as int,
            end as int,
            tokens_return_type(output) + tokens_expr(body),
        ),
        !(k < toks@.len() && toks@[k as int] == Tok::Punct(Punct::RArrow)) && lone_lit_at(toks@, k as int) ==> (r matches Ok((
            output,
            body,
            end,
        )) && output is Default && body is Lit && end == k + 1),
        k < toks@.len() && toks@[k as int] == Tok::Punct(Punct::RArrow) ==> ({
            let n = type_end(toks@, k + 1).unwrap();
            &&& type_end(toks@, k + 1) is None ==> r is Err
            &&& type_end(toks@, k + 1) is Some && !(n < toks@.len() && toks@[n] == Tok::Open(Delim::Brace)) ==> r == Err::<
                (ReturnType, Expr, usize),
                ParseError,
            >(ParseError { pos: n as usize, kind: ErrorKind::Unexpected })
            &&& type_end(toks@, k + 1) is Some && empty_block_at(toks@, n) ==> (r matches Ok((output, body, end))
                && output is Type && body is Block && end == semis_end(toks@, n + 1) + 1)
            &&& type_end(toks@, k + 1) is Some && simple_block_end(toks@, n) is Some ==> (r matches Ok((output, body, end))
                && output is Type && body is Block && Some(end as int) == simple_block_end(toks@, n))
        }),
        r matches Ok((output, body, end)) ==> (output is Type <==> (k < toks@.len() && toks@[k as int] == Tok::Punct(
            Punct::RArrow,
        ))) && (output is Type ==> body is Block),
        !(k < toks@.len() && toks@[k as int] == Tok::Punct(Punct::RArrow)) && simple_operand(toks@, k as int, allow_struct.0)
            && chain_ok(toks@, k + 1, allow_struct.0) ==> (r matches Ok((output, body, end)) && output is Default && end
            == chain_stop(toks@, k + 1, Precedence::Any)),
    decreases toks@.len() - k, 21int,
{
    let (output, body, end) = if k < toks.len() && toks[k] == Tok::Punct(Punct::RArrow) {
        let (ty, n) = parse_type(toks, k + 1)?;
        let (block, b) = parse_block(toks, n)?;
        let body = Expr::Block(ExprBlock { attrs: Vec::new(), label: None, block });
        proof {
            lemma_covers_tok(toks@, k as int, Tok::Punct(Punct::RArrow));
            lemma_covers_cat(toks@, k as int, k + 1, n as int, p1(Punct::RArrow), tokens_type(ty));
            assert(tokens_expr(body) =~= delimited(Delim::Brace, tokens_stmts(block.stmts@)));
            lemma_covers_cat(toks@, k as int, n as int, b as int, p1(Punct::RArrow) + tokens_type(ty), tokens_expr(body));
        }
        (ReturnType::Type(Box::new(ty)), body, b)
    } else {
        let (body, b) = ambiguous_expr(toks, k, allow_struct, AllowBlock(true))?;
        proof {
            lemma_covers_empty(toks@, k as int);
            lemma_covers_cat(toks@, k as int, k as int, b as int, Seq::empty(), tokens_expr(body));
            assert(Seq::<Tok>::empty() + tokens_expr(body) =~= tokens_expr(body));
        }
        (ReturnType::Default, body, b)
    };
    Ok((output, body, end))
}

/// A closure: `async`, `static` or `move` markers, the inputs between bars
/// (or `||` for none), and a body; with a `-> Type` the body is a block.
pub(crate) fn atom_closure(toks: &Vec<Tok>, pos: usize, i: usize, attrs: Vec<Attribute>, allow_struct: AllowStruct) -> (r: Result<(Expr, usize), ParseError>)
    requires
        outer_read(toks@, pos as int, i as int, attrs@),
        i < toks.len(),
    ensures
        r matches Ok((e, end)) ==> atom_parts(toks@, pos as int, i as int, end as int, e) && !(e is Struct),
        toks@[i as int] == Tok::Punct(Punct::OrOr) && lone_lit_at(toks@, i + 1) ==> (r matches Ok((e, end)) && e is Closure
            && e->Closure_0.inputs@.len() == 0 && end == i + 2),
        ({
            let q = closure_inputs_end(toks@, i as int).unwrap();
            closure_inputs_end(toks@, i as int) is Some && simple_operand(toks@, q, allow_struct.0) && chain_ok(
                toks@,
                q + 1,
                allow_struct.0,
            ) ==> (r matches Ok((e, end)) && e is Closure && end == chain_stop(toks@, q + 1, Precedence::Any))
        }),
        r matches Ok((e, end)) ==> (e matches Expr::Closure(c) ==> (c.output is Type ==> *c.body is Block)),
        ({
            let q = closure_inputs_end(toks@, i as int).unwrap();
            let n = type_end(toks@, q + 1).unwrap();
            &&& closure_inputs_end(toks@, i as int) is Some && q < toks@.len() && toks@[q] == Tok::Punct(Punct::RArrow)
                && type_end(toks@, q + 1) is Some && simple_block_end(toks@, n) is Some ==> (r matches Ok((e, end))
                && e is Closure && e->Closure_0.output is Type && *e->Closure_0.body is Block && Some(end as int)
                == simple_block_end(toks@, n))
            &&& closure_inputs_end(toks@, i as int) is Some && q < toks@.len() && toks@[q] == Tok::Punct(Punct::RArrow)
                && type_end(toks@, q + 1) is Some && !(n < toks@.len() && toks@[n] == Tok::Open(Delim::Brace)) ==> r is Err
        }),
    decreases toks@.len() - i, 10int,
{
    let mut j = i;
    proof {
        lemma_covers_empty(toks@, i as int);
    }
    let asyncness = toks[j] == Tok::Kw(Keyword::Async);
    if asyncness {
        proof {
            lemma_covers_tok(toks@, j as int, Tok::Kw(Keyword::Async));
        }
        j = j + 1;
    }
    let j1 = j;
    proof {
        lemma_covers_empty(toks@, j as int);
    }
    let movability = !asyncness && j < toks.len() && toks[j] == Tok::Kw(Keyword::Static);
    if movability {
        proof {
            lemma_covers_tok(toks@, j as int, Tok::Kw(Keyword::Static));
        }
        j = j + 1;
    }
    let j2 = j;
    proof {
        lemma_covers_empty(toks@, j as int);
    }
    let capture = j < toks.len() && toks[j] == Tok::Kw(Keyword::Move);
    if capture {
        proof {
            lemma_covers_tok(toks@, j as int, Tok::Kw(Keyword::Move));
        }
        j = j + 1;
    }
    let ghost head = maybe(asyncness, k1(Keyword::Async)) + maybe(movability, k1(Keyword::Static)) + maybe(capture, k1(Keyword::Move));
    proof {
        lemma_covers_cat(toks@, i as int, j1 as int, j2 as int, maybe(asyncness, k1(Keyword::Async)), maybe(movability, k1(Keyword::Static)));
        lemma_covers_cat(toks@, i as int, j2 as int, j as int, maybe(asyncness, k1(Keyword::Async)) + maybe(movability, k1(Keyword::Static)), maybe(capture, k1(Keyword::Move)));
    }
    let (inputs, trailing, k) = closure_inputs(toks, j)?;
    let ghost it = tokens_closure_inputs(tokens_closure_arg_seq(inputs@), trailing);
    assert(covers(toks@, j as int, k as int, it));
    let (output, body, end) = closure_body(toks, k, allow_struct)?;
    let ghost rt = tokens_return_type(output) + tokens_expr(body);
    assert(covers(toks@, k as int, end as int, rt));
    let ghost o = attrs@;
    let e = Expr::Closure(ExprClosure { attrs, asyncness, movability, capture, inputs, trailing, output, body: Box::new(body) });
    proof {
        lemma_covers_cat(toks@, i as int, j as int, k as int, head, it);
        lemma_covers_cat(toks@, i as int, k as int, end as int, head + it, rt);
        assert(tokens_expr_body(e) =~= head + it + rt);
        assert(e.attrs() =~= o + Seq::<Attribute>::empty());
        lemma_atom_done(toks@, pos as int, i as int, end as int, e, o, Seq::empty(), i as int, i as int);
    }
    Ok((e, end))
}

} // verus!
