use vstd::prelude::*;

use crate::ast::{
    AttrStyle, Attribute, BinOp, Ident, Index, Lifetime, Member, Name, Path, Precedence,
    RangeLimits, Type, TypeReference, UnOp, binop_prec,
};
use crate::print::{
    all_of_style, delimited, k1, lemma_attrs_of_style_push, lemma_attrs_other_style,
    lemma_types_push, p1, tokens_attr, tokens_attrs_of_style, tokens_binop,
    tokens_inner, tokens_lifetime, tokens_name, tokens_opt_lifetime, tokens_outer, tokens_path,
    tokens_member, tokens_range_limits, tokens_segments, tokens_type, tokens_types, tokens_unop, maybe,
};
use crate::token::{canon, canon_seq, lemma_canon_seq_add, lemma_canon_seq_one, Delim, Keyword, Lit, Punct, Tok};

verus! {

/// Why the parser stopped.
#[derive(Debug, Clone, Copy, PartialEq, Eq, Structural)]
pub enum ErrorKind {
    /// The token here does not fit the grammar.
    Unexpected,
    /// A statement expression that is not block-like must end in `;`.
    ExpectedSemicolon,
    /// Attributes in a struct literal must be followed by a field.
    ExpectedStructField,
    /// A binding pattern must start with an identifier or `self`.
    ExpectedIdentOrSelf,
    /// A field must be an identifier or an integer.
    ExpectedIdentOrInteger,
    /// A tuple field index must be an integer without suffix.
    ExpectedUnsuffixedInteger,
    /// A literal pattern must start with a literal.
    ExpectedLiteralPattern,
    /// Item definitions other than macro invocations are not read here.
    UnsupportedItem,
}

/// A parse error: its kind and the position of the token where it arose.
#[derive(Debug, Clone, Copy, PartialEq, Eq, Structural)]
pub struct ParseError {
    pub pos: usize,
    pub kind: ErrorKind,
}

/// The error of kind `kind` at `pos`.
pub fn err<T>(pos: usize, kind: ErrorKind) -> (r: Result<T, ParseError>)
    ensures
        r == Err::<T, ParseError>(ParseError { pos, kind }),
{
    Err(ParseError { pos, kind })
}

/// An attribute, `#[...]` or `#![...]`, starts at `k`.
pub open spec fn attr_at(s: Seq<Tok>, k: int) -> bool {
    &&& 0 <= k && k + 1 < s.len()
    &&& s[k] == Tok::Punct(Punct::Pound)
    &&& (s[k + 1] == Tok::Punct(Punct::Bang) || s[k + 1] == Tok::Open(Delim::Bracket))
}

/// `box`, `ref` or `mut` before a binding.
pub open spec fn binding_kw(t: Tok) -> bool {
    t == Tok::Kw(Keyword::Box) || t == Tok::Kw(Keyword::Ref) || t == Tok::Kw(Keyword::Mut)
}

/// An integer literal without suffix.
pub open spec fn int_tok(t: Tok) -> bool {
    t is Lit && t->Lit_0 is Int
}

/// A field of a struct pattern starts at `k` with binding keywords before a
/// tuple index, as in `S { ref 0: x }`: the index and its pattern are read
/// and the keywords are not kept.
pub open spec fn mode_field_at(s: Seq<Tok>, k: int) -> bool {
    &&& 1 <= k && k + 1 < s.len()
    &&& (s[k - 1] == Tok::Open(Delim::Brace) || s[k - 1] == Tok::Punct(Punct::Comma))
    &&& binding_kw(s[k])
    &&& (int_tok(s[k + 1]) || (k + 2 < s.len() && binding_kw(s[k + 1]) && (int_tok(s[k + 2]) || (k
        + 3 < s.len() && binding_kw(s[k + 2]) && int_tok(s[k + 3])))))
}

/// Two bars `| |` with nothing between them start at `k`: a closure
/// without inputs, which prints its bars as the one token `||`.
pub open spec fn bars_at(s: Seq<Tok>, k: int) -> bool {
    0 <= k && k + 1 < s.len() && s[k] == Tok::Punct(Punct::Or) && s[k + 1] == Tok::Punct(Punct::Or)
}

/// A token after which a pattern may start: `let`, `for`, `box`, `mut`,
/// `&`, `&&`, `@`, `|`, `:`, `,`, `(` or `[`.
pub open spec fn pat_lead(t: Tok) -> bool {
    ||| t == Tok::Kw(Keyword::Let)
    ||| t == Tok::Kw(Keyword::For)
    ||| t == Tok::Kw(Keyword::Box)
    ||| t == Tok::Kw(Keyword::Mut)
    ||| t == Tok::Punct(Punct::And)
    ||| t == Tok::Punct(Punct::AndAnd)
    ||| t == Tok::Punct(Punct::At)
    ||| t == Tok::Punct(Punct::Or)
    ||| t == Tok::Punct(Punct::Colon)
    ||| t == Tok::Punct(Punct::Comma)
    ||| t == Tok::Open(Delim::Paren)
    ||| t == Tok::Open(Delim::Bracket)
}

/// An inner attribute `#![...]` starts at `k`.
pub open spec fn inner_attr_at(s: Seq<Tok>, k: int) -> bool {
    attr_at(s, k) && s[k + 1] == Tok::Punct(Punct::Bang)
}

/// An attribute starts at `k` where a pattern may start: a path pattern
/// reads the outer attributes before it and does not keep them.
pub open spec fn pat_attr_at(s: Seq<Tok>, k: int) -> bool {
    attr_at(s, k) && k >= 1 && pat_lead(s[k - 1])
}

/// An empty statement follows `k`: a `;` right after `{` or after another
/// `;`. Printing leaves such statements out.
pub open spec fn empty_semi_at(s: Seq<Tok>, k: int) -> bool {
    0 <= k && k + 1 < s.len() && (s[k] == Tok::Open(Delim::Brace) || s[k] == Tok::Punct(Punct::Semi))
        && s[k + 1] == Tok::Punct(Punct::Semi)
}

/// An inferred type `: _` starts at `k` and is followed by `,` or `|`, as
/// on a closure input. Printing leaves it out.
pub open spec fn infer_arg_at(s: Seq<Tok>, k: int) -> bool {
    0 <= k && k + 2 < s.len() && s[k] == Tok::Punct(Punct::Colon) && s[k + 1] == Tok::Kw(
        Keyword::Underscore,
    ) && (s[k + 2] == Tok::Punct(Punct::Comma) || s[k + 2] == Tok::Punct(Punct::Or))
}

/// An integer literal without suffix whose value does not fit in 32 bits:
/// as a field index it is cut to its low 32 bits.
pub open spec fn big_int(t: Tok) -> bool {
    t is Lit && t->Lit_0 is Int && t->Lit_0->Int_0 > 0xffff_ffffu64
}

/// Such an integer stands at a field name: after `.`, or before `:`.
pub open spec fn big_index_at(s: Seq<Tok>, k: int) -> bool {
    0 <= k && k + 1 < s.len() && ((s[k] == Tok::Punct(Punct::Dot) && big_int(s[k + 1])) || (big_int(s[k])
        && s[k + 1] == Tok::Punct(Punct::Colon)))
}

/// Something starts at `k` that printing does not give back as it stands:
/// an inner attribute, an attribute where a pattern may start, a field
/// pattern as in `mode_field_at`, the bars of `bars_at`, an empty
/// statement, an inferred closure input type, or a field index that does
/// not fit in 32 bits.
pub open spec fn lossy_at(s: Seq<Tok>, k: int) -> bool {
    ||| inner_attr_at(s, k)
    ||| pat_attr_at(s, k)
    ||| mode_field_at(s, k)
    ||| bars_at(s, k)
    ||| empty_semi_at(s, k)
    ||| infer_arg_at(s, k)
    ||| big_index_at(s, k)
}

/// Something that printing does not give back starts in `s[a..b]`.
pub open spec fn has_lossy(s: Seq<Tok>, a: int, b: int) -> bool {
    exists|k: int| a <= k && k + 1 < b && #[trigger] lossy_at(s, k)
}

/// `printed` is what the tokens `s[a..b]` print as: the same tokens, up to
/// the spelling of inclusive range limits and up to `&&` standing for two
/// `&` (so `a && b` and `a & &b` compare equal here; the readers say which
/// one they built where it matters, see `plain_over`). Where the tokens hold something
/// that printing may not give back as it stands (see `lossy_at`), nothing
/// is claimed: the last expression of a block loses its inner attributes,
/// a path pattern its outer ones, and empty statements are left out.
pub open spec fn covers(s: Seq<Tok>, a: int, b: int, printed: Seq<Tok>) -> bool {
    &&& 0 <= a <= b <= s.len()
    &&& (canon_seq(printed) == canon_seq(s.subrange(a, b)) || has_lossy(s, a, b))
}

/// An attribute that starts a pattern right after a token of `pat_lead`
/// is found by `has_lossy` in any range that holds its first two tokens.
pub proof fn lemma_pat_attr_lossy(s: Seq<Tok>, k: int, a: int, b: int)
    requires
        attr_at(s, k),
        k >= 1,
        pat_lead(s[k - 1]),
        a <= k,
        k + 1 < b,
    ensures
        has_lossy(s, a, b),
{
    assert(lossy_at(s, k));
}

/// What `has_lossy` finds in `s[b..c]` it finds in any wider range `s[a..d]`.
pub proof fn lemma_lossy_widen(s: Seq<Tok>, a: int, b: int, c: int, d: int)
    requires
        has_lossy(s, b, c),
        a <= b,
        c <= d,
    ensures
        has_lossy(s, a, d),
{
    let k = choose|k: int| b <= k && k + 1 < c && #[trigger] lossy_at(s, k);
    assert(a <= k && k + 1 < d && lossy_at(s, k));
}

pub proof fn lemma_covers_cat(s: Seq<Tok>, a: int, b: int, c: int, x: Seq<Tok>, y: Seq<Tok>)
    requires
        covers(s, a, b, x),
        covers(s, b, c, y),
    ensures
        covers(s, a, c, x + y),
{
    if has_lossy(s, a, b) {
        lemma_lossy_widen(s, a, a, b, c);
    } else if has_lossy(s, b, c) {
        lemma_lossy_widen(s, a, b, c, c);
    } else {
        lemma_canon_seq_add(x, y);
        assert(s.subrange(a, c) =~= s.subrange(a, b) + s.subrange(b, c));
        lemma_canon_seq_add(s.subrange(a, b), s.subrange(b, c));
    }
}

pub proof fn lemma_covers_tok(s: Seq<Tok>, a: int, t: Tok)
    requires
        0 <= a < s.len(),
        canon(s[a]) == canon(t),
    ensures
        covers(s, a, a + 1, seq![t]),
{
    lemma_canon_seq_one(t);
    assert(s.subrange(a, a + 1) =~= seq![s[a]]);
    lemma_canon_seq_one(s[a]);
}

/// A `&&` read as two references prints as two `&`.
pub proof fn lemma_covers_and_and(s: Seq<Tok>, a: int)
    requires
        0 <= a < s.len(),
        s[a] == Tok::Punct(Punct::AndAnd),
    ensures
        covers(s, a, a + 1, seq![Tok::Punct(Punct::And), Tok::Punct(Punct::And)]),
{
    let x = seq![Tok::Punct(Punct::And), Tok::Punct(Punct::And)];
    assert(x =~= seq![Tok::Punct(Punct::And)] + seq![Tok::Punct(Punct::And)]);
    lemma_canon_seq_add(seq![Tok::Punct(Punct::And)], seq![Tok::Punct(Punct::And)]);
    lemma_canon_seq_one(Tok::Punct(Punct::And));
    assert(s.subrange(a, a + 1) =~= seq![s[a]]);
    lemma_canon_seq_one(s[a]);
    assert(canon_seq(x) =~= canon(s[a]));
}

pub proof fn lemma_covers_empty(s: Seq<Tok>, a: int)
    requires
        0 <= a <= s.len(),
    ensures
        covers(s, a, a, Seq::empty()),
{
    assert(canon_seq(Seq::<Tok>::empty()) =~= Seq::<Tok>::empty());
    assert(s.subrange(a, a) =~= Seq::<Tok>::empty());
}

pub proof fn lemma_covers_exact(s: Seq<Tok>, a: int, b: int)
    requires
        0 <= a <= b <= s.len(),
    ensures
        covers(s, a, b, s.subrange(a, b)),
{
}

/// A lossy form that starts at `k` makes any range that holds its first
/// two tokens claim nothing.
pub proof fn lemma_lossy_in(s: Seq<Tok>, k: int, a: int, b: int, x: Seq<Tok>)
    requires
        lossy_at(s, k),
        0 <= a <= k,
        k + 1 < b <= s.len(),
    ensures
        has_lossy(s, a, b),
        covers(s, a, b, x),
{
}

/// Consumes the token `t` at `pos`.
pub fn expect(toks: &Vec<Tok>, pos: usize, t: Tok) -> (r: Result<usize, ParseError>)
    ensures
        r matches Ok(n) ==> n == pos + 1 && pos < toks@.len() && toks@[pos as int] == t,
        r is Err <==> !(pos < toks@.len() && toks@[pos as int] == t),
        r is Err ==> r == Err::<usize, ParseError>(ParseError { pos, kind: ErrorKind::Unexpected }),
{
    if pos < toks.len() && toks[pos] == t {
        Ok(pos + 1)
    } else {
        err(pos, ErrorKind::Unexpected)
    }
}

/// Whether there is no token left in the current group: the end of the
/// input or a closing delimiter.
pub open spec fn at_group_end(s: Seq<Tok>, pos: int) -> bool {
    pos >= s.len() || s[pos] is Close
}

pub fn is_group_end(toks: &Vec<Tok>, pos: usize) -> (r: bool)
    ensures
        r == at_group_end(toks@, pos as int),
{
    pos >= toks.len() || matches!(toks[pos], Tok::Close(_))
}

/// The first closing delimiter at or after `i` that is not matched by an
/// opening one after `i`, when `depth` groups are open at `i`.
pub open spec fn close_from(s: Seq<Tok>, i: int, depth: nat) -> Option<int>
    decreases s.len() - i,
{
    if i < 0 || i >= s.len() {
        None
    } else {
        match s[i] {
            Tok::Open(_) => close_from(s, i + 1, depth + 1),
            Tok::Close(_) => if depth == 0 {
                Some(i)
            } else {
                close_from(s, i + 1, (depth - 1) as nat)
            },
            _ => close_from(s, i + 1, depth),
        }
    }
}

/// The group that starts just before `pos` with the opening delimiter `d`
/// is closed at `k`: the first unmatched closing delimiter from `pos` on
/// is there, and it is a `d`.
pub open spec fn closes_at(s: Seq<Tok>, pos: int, d: Delim, k: int) -> bool {
    close_from(s, pos, 0) == Some(k) && s[k] == Tok::Close(d)
}

/// Given the position just after an opening delimiter `d`, finds its
/// closing delimiter; groups in between are skipped whole.
pub fn find_close(toks: &Vec<Tok>, pos: usize, d: Delim) -> (r: Result<usize, ParseError>)
    requires
        pos <= toks@.len(),
    ensures
        r matches Ok(end) ==> pos <= end < toks.len() && toks@[end as int] == Tok::Close(d),
        r matches Ok(end) ==> closes_at(toks@, pos as int, d, end as int),
        r is Ok <==> exists|k: int| closes_at(toks@, pos as int, d, k),
{
    let mut i = pos;
    let mut depth: usize = 0;
    while i < toks.len()
        invariant
            pos <= i <= toks@.len(),
            depth <= i - pos,
            close_from(toks@, pos as int, 0) == close_from(toks@, i as int, depth as nat),
        decreases toks@.len() - i,
    {
        match toks[i] {
            Tok::Open(_) => {
                depth = depth + 1;
            },
            Tok::Close(c) => {
                if depth == 0 {
                    if c == d {
                        assert(closes_at(toks@, pos as int, d, i as int));
                        return Ok(i);
                    } else {
                        return err(i, ErrorKind::Unexpected);
                    }
                }
                depth = depth - 1;
            },
            _ => {},
        }
        i = i + 1;
    }
    err(i, ErrorKind::Unexpected)
}

/// A copy of the tokens `toks[a..b]`.
pub fn copy_range(toks: &Vec<Tok>, a: usize, b: usize) -> (r: Vec<Tok>)
    requires
        a <= b <= toks@.len(),
    ensures
        r@ == toks@.subrange(a as int, b as int),
{
    let mut r: Vec<Tok> = Vec::new();
    let mut i = a;
    while i < b
        invariant
            a <= i <= b <= toks@.len(),
            r@ == toks@.subrange(a as int, i as int),
        decreases b - i,
    {
        r.push(toks[i]);
        i = i + 1;
        assert(r@ =~= toks@.subrange(a as int, i as int));
    }
    r
}

/// Reads a lifetime.
pub fn parse_lifetime(toks: &Vec<Tok>, pos: usize) -> (r: Result<(Lifetime, usize), ParseError>)
    requires
        pos <= toks@.len(),
    ensures
        r matches Ok((l, end)) ==> end == pos + 1 && covers(toks@, pos as int, end as int, tokens_lifetime(l)),
        r is Ok <==> (pos < toks@.len() && toks@[pos as int] is Lifetime),
{
    if pos < toks.len() {
        if let Tok::Lifetime(sym) = toks[pos] {
            proof {
                lemma_covers_tok(toks@, pos as int, Tok::Lifetime(sym));
            }
            return Ok((Lifetime { sym }, pos + 1));
        }
    }
    err(pos, ErrorKind::Unexpected)
}

/// The name that a token stands for in a path: an identifier, `self`,
/// `Self`, `super` or `crate`.
pub open spec fn name_of_tok(t: Tok) -> Option<Name> {
    match t {
        Tok::Ident(sym) => Some(Name::Ident(Ident { sym })),
        Tok::Kw(Keyword::SelfValue) => Some(Name::SelfValue),
        Tok::Kw(Keyword::SelfType) => Some(Name::SelfType),
        Tok::Kw(Keyword::Super) => Some(Name::Super),
        Tok::Kw(Keyword::Crate) => Some(Name::Crate),
        _ => None,
    }
}

pub fn name_at(toks: &Vec<Tok>, pos: usize) -> (r: Option<Name>)
    ensures
        r == (if pos < toks@.len() { name_of_tok(toks@[pos as int]) } else { None }),
        r matches Some(n) ==> covers(toks@, pos as int, pos + 1, tokens_name(n)),
{
    if pos >= toks.len() {
        return None;
    }
    let r = match toks[pos] {
        Tok::Ident(sym) => Some(Name::Ident(Ident { sym })),
        Tok::Kw(Keyword::SelfValue) => Some(Name::SelfValue),
        Tok::Kw(Keyword::SelfType) => Some(Name::SelfType),
        Tok::Kw(Keyword::Super) => Some(Name::Super),
        Tok::Kw(Keyword::Crate) => Some(Name::Crate),
        _ => None,
    };
    proof {
        if let Some(n) = r {
            lemma_covers_tok(toks@, pos as int, toks@[pos as int]);
        }
    }
    r
}

/// Where names separated by `::` that start at `i` end, if a name starts
/// there; a `::` that no name follows makes them fail.
pub open spec fn names_end(s: Seq<Tok>, i: int) -> Option<int>
    decreases s.len() - i,
{
    if 0 <= i < s.len() && name_of_tok(s[i]) is Some {
        if i + 1 < s.len() && s[i + 1] == Tok::Punct(Punct::Colon2) {
            names_end(s, i + 2)
        } else {
            Some(i + 1)
        }
    } else {
        None
    }
}

/// Where the path that starts at `pos` ends, if one starts there: an
/// optional `::`, then names separated by `::`.
pub open spec fn path_end(s: Seq<Tok>, pos: int) -> Option<int> {
    if 0 <= pos < s.len() && s[pos] == Tok::Punct(Punct::Colon2) {
        names_end(s, pos + 1)
    } else {
        names_end(s, pos)
    }
}

/// Reads a path without generic arguments: an optional leading `::`, then
/// names separated by `::`. The path must have a segment and must not end
/// in `::`.
pub fn parse_path(toks: &Vec<Tok>, pos: usize) -> (r: Result<(Path, usize), ParseError>)
    requires
        pos <= toks@.len(),
    ensures
        r matches Ok((p, end)) ==> pos < end && covers(toks@, pos as int, end as int, tokens_path(p)),
        r matches Ok((p, end)) ==> path_end(toks@, pos as int) == Some(end as int),
        r is Ok <==> path_end(toks@, pos as int) is Some,
        pos < toks@.len() && name_of_tok(toks@[pos as int]) is Some && !(pos + 1 < toks@.len() && toks@[pos + 1]
            == Tok::Punct(Punct::Colon2)) ==> (r matches Ok((p, end)) && !p.leading_colon && p.segments@ == seq![
            name_of_tok(toks@[pos as int]).unwrap(),
        ] && end == pos + 1),
{
    let mut i = pos;
    let leading_colon = i < toks.len() && toks[i] == Tok::Punct(Punct::Colon2);
    let ghost lead = crate::print::maybe(leading_colon, p1(Punct::Colon2));
    proof {
        lemma_covers_empty(toks@, pos as int);
        if leading_colon {
            lemma_covers_tok(toks@, pos as int, Tok::Punct(Punct::Colon2));
        }
    }
    if leading_colon {
        i = i + 1;
    }
    let start = i;
    let mut segments: Vec<Name> = Vec::new();
    proof {
        lemma_covers_empty(toks@, start as int);
    }
    loop
        invariant
            pos <= start <= i <= toks@.len(),
            path_end(toks@, pos as int) == names_end(toks@, i as int),
            lead == crate::print::maybe(leading_colon, p1(Punct::Colon2)),
            pos < toks@.len() && name_of_tok(toks@[pos as int]) is Some ==> !leading_colon && start == pos,
            pos < toks@.len() && name_of_tok(toks@[pos as int]) is Some && !(pos + 1 < toks@.len() && toks@[pos + 1]
                == Tok::Punct(Punct::Colon2)) ==> i == pos && segments@.len() == 0,
            covers(toks@, pos as int, start as int, lead),
            covers(
                toks@,
                start as int,
                i as int,
                if segments@.len() == 0 {
                    Seq::empty()
                } else {
                    tokens_segments(segments@) + p1(Punct::Colon2)
                },
            ),
        decreases toks@.len() - i,
    {
        if i >= toks.len() {
            return err(i, ErrorKind::Unexpected);
        }
        let n = match name_at(toks, i) {
            Some(n) => n,
            None => {
                return err(i, ErrorKind::Unexpected);
            },
        };
        let ghost old_segs = segments@;
        segments.push(n);
        proof {
            assert(segments@.drop_last() =~= old_segs);
            if old_segs.len() == 0 {
                assert(Seq::<Tok>::empty() + tokens_name(n) =~= tokens_name(n));
                assert(tokens_segments(segments@) == tokens_name(n));
            } else {
                assert(tokens_segments(segments@) == tokens_segments(old_segs) + p1(Punct::Colon2) + tokens_name(n));
            }
            lemma_covers_cat(
                toks@,
                start as int,
                i as int,
                i + 1,
                if old_segs.len() == 0 {
                    Seq::empty()
                } else {
                    tokens_segments(old_segs) + p1(Punct::Colon2)
                },
                tokens_name(n),
            );
            assert(covers(toks@, start as int, i + 1, tokens_segments(segments@)));
        }
        i = i + 1;
        if !(i < toks.len() && toks[i] == Tok::Punct(Punct::Colon2)) {
            proof {
                lemma_covers_cat(toks@, pos as int, start as int, i as int, lead, tokens_segments(segments@));
            }
            return Ok((Path { leading_colon, segments }, i));
        }
        proof {
            lemma_covers_tok(toks@, i as int, Tok::Punct(Punct::Colon2));
            lemma_covers_cat(toks@, start as int, i as int, i + 1, tokens_segments(segments@), p1(Punct::Colon2));
        }
        i = i + 1;
    }
}

/// The field that a token names after a `.` or in a struct literal: an
/// identifier, or an integer literal without suffix whose value, cut to 32
/// bits, is the index.
pub open spec fn member_of_tok(t: Tok) -> Option<Member> {
    match t {
        Tok::Ident(sym) => Some(Member::Named(Ident { sym })),
        Tok::Lit(Lit::Int(v)) => Some(Member::Unnamed(Index { index: v as u32 })),
        _ => None,
    }
}

/// Reads a field name: an identifier or an integer without suffix.
pub fn parse_member(toks: &Vec<Tok>, pos: usize) -> (r: Result<(Member, usize), ParseError>)
    ensures
        pos < toks@.len() && member_of_tok(toks@[pos as int]) is Some ==> r == Ok::<
            (Member, usize),
            ParseError,
        >((member_of_tok(toks@[pos as int]).unwrap(), (pos + 1) as usize)),
        !(pos < toks@.len() && member_of_tok(toks@[pos as int]) is Some) ==> r is Err,
        (pos < toks@.len() && toks@[pos as int] is Lit && toks@[pos as int]->Lit_0 is IntSuffixed) ==> r
            == Err::<(Member, usize), ParseError>(
            ParseError { pos, kind: ErrorKind::ExpectedUnsuffixedInteger },
        ),
        r matches Ok((m, end)) ==> covers(toks@, pos as int, end as int, tokens_member(m)) || big_int(
            toks@[pos as int],
        ),
{
    if pos < toks.len() {
        match toks[pos] {
            Tok::Ident(sym) => {
                proof {
                    lemma_covers_tok(toks@, pos as int, Tok::Ident(sym));
                }
                return Ok((Member::Named(Ident { sym }), pos + 1));
            },
            Tok::Lit(Lit::Int(v)) => {
                let index = v as u32;
                proof {
                    if v <= 0xffff_ffffu64 {
                        lemma_covers_tok(toks@, pos as int, Tok::Lit(Lit::Int(index as u64)));
                    }
                }
                return Ok((Member::Unnamed(Index { index }), pos + 1));
            },
            Tok::Lit(Lit::IntSuffixed(_, _)) => {
                return Err(ParseError { pos, kind: ErrorKind::ExpectedUnsuffixedInteger });
            },
            _ => {},
        }
    }
    Err(ParseError { pos, kind: ErrorKind::ExpectedIdentOrInteger })
}

/// Where the group in parentheses, brackets or braces that starts at `pos`
/// ends, if one starts there and is closed by its own delimiter.
pub open spec fn group_end(s: Seq<Tok>, pos: int) -> Option<int> {
    if 0 <= pos < s.len() && s[pos] is Open && s[pos]->Open_0 != Delim::NoDelim && close_from(
        s,
        pos + 1,
        0,
    ) is Some && s[close_from(s, pos + 1, 0).unwrap()] == Tok::Close(s[pos]->Open_0) {
        Some(close_from(s, pos + 1, 0).unwrap() + 1)
    } else {
        None
    }
}

/// Reads a group in parentheses, brackets or braces, kept as tokens.
pub fn parse_delimited(toks: &Vec<Tok>, pos: usize) -> (r: Result<(Delim, Vec<Tok>, usize), ParseError>)
    requires
        pos <= toks@.len(),
    ensures
        r is Ok <==> group_end(toks@, pos as int) is Some,
        r matches Ok((d, tts, end)) ==> group_end(toks@, pos as int) == Some(end as int) && toks@[pos as int]
            == Tok::Open(d) && tts@ == toks@.subrange(pos + 1, end - 1),
        r matches Ok((d, tts, end)) ==> pos < end <= toks@.len() && d != Delim::NoDelim && covers(
            toks@,
            pos as int,
            end as int,
            delimited(d, tts@),
        ),
{
    if pos >= toks.len() {
        return err(pos, ErrorKind::Unexpected);
    }
    let d = match toks[pos] {
        Tok::Open(Delim::Paren) => Delim::Paren,
        Tok::Open(Delim::Bracket) => Delim::Bracket,
        Tok::Open(Delim::Brace) => Delim::Brace,
        _ => {
            return err(pos, ErrorKind::Unexpected);
        },
    };
    let close = match find_close(toks, pos + 1, d) {
        Ok(c) => c,
        Err(e) => {
            proof {
                if group_end(toks@, pos as int) is Some {
                    let k = close_from(toks@, pos + 1, 0).unwrap();
                    assert(closes_at(toks@, pos + 1, d, k));
                }
            }
            return Err(e);
        },
    };
    let tts = copy_range(toks, pos + 1, close);
    proof {
        lemma_covers_exact(toks@, pos + 1, close as int);
        lemma_covers_delim(toks@, pos as int, close as int, d, tts@);
    }
    Ok((d, tts, close + 1))
}

/// Reads the part of a macro invocation after its path, starting at the
/// `!`: a group in parentheses, brackets or braces, kept as tokens.
pub fn parse_macro_tail(toks: &Vec<Tok>, pos: usize) -> (r: Result<(Delim, Vec<Tok>, usize), ParseError>)
    requires
        pos <= toks@.len(),
    ensures
        r is Ok <==> (pos < toks@.len() && toks@[pos as int] == Tok::Punct(Punct::Bang) && group_end(
            toks@,
            pos + 1,
        ) is Some),
        r matches Ok((d, tts, end)) ==> group_end(toks@, pos + 1) == Some(end as int) && toks@[pos + 1]
            == Tok::Open(d) && tts@ == toks@.subrange(pos + 2, end - 1),
        r matches Ok((d, tts, end)) ==> pos < end <= toks@.len() && d != Delim::NoDelim && covers(
            toks@,
            pos as int,
            end as int,
            p1(Punct::Bang) + delimited(d, tts@),
        ),
{
    let open = expect(toks, pos, Tok::Punct(Punct::Bang))?;
    let (d, tts, end) = parse_delimited(toks, open)?;
    proof {
        lemma_covers_tok(toks@, pos as int, Tok::Punct(Punct::Bang));
        lemma_covers_cat(toks@, pos as int, open as int, end as int, p1(Punct::Bang), delimited(d, tts@));
    }
    Ok((d, tts, end))
}

/// Whether a path can start at this token.
pub open spec fn starts_path(t: Tok) -> bool {
    t == Tok::Punct(Punct::Colon2) || name_of_tok(t) is Some
}

/// Where the type that starts at `pos` ends, if one starts there: `_`,
/// `!`, `&` with an optional lifetime and an optional `mut` before a type,
/// `[` type `]`, types in parentheses, or a path.
pub open spec fn type_end(s: Seq<Tok>, pos: int) -> Option<int>
    decreases s.len() - pos, 0int,
{
    if pos < 0 || pos >= s.len() {
        None
    } else {
        let t = s[pos];
        if t == Tok::Kw(Keyword::Underscore) || t == Tok::Punct(Punct::Bang) {
            Some(pos + 1)
        } else if t == Tok::Punct(Punct::And) {
            let j = if pos + 1 < s.len() && s[pos + 1] is Lifetime {
                pos + 2
            } else {
                pos + 1
            };
            let k = if j < s.len() && s[j] == Tok::Kw(Keyword::Mut) {
                j + 1
            } else {
                j
            };
            type_end(s, k)
        } else if t == Tok::Open(Delim::Bracket) {
            match type_end(s, pos + 1) {
                Some(i) => if pos < i < s.len() && s[i] == Tok::Close(Delim::Bracket) {
                    Some(i + 1)
                } else {
                    None
                },
                None => None,
            }
        } else if t == Tok::Open(Delim::Paren) {
            types_in_paren_end(s, pos + 1)
        } else if starts_path(t) {
            path_end(s, pos)
        } else {
            None
        }
    }
}

/// Where the types separated by commas that start at `i`, inside
/// parentheses, end together with the closing `)`; a comma may follow the
/// last type.
pub open spec fn types_in_paren_end(s: Seq<Tok>, i: int) -> Option<int>
    decreases s.len() - i, 1int,
{
    if i < 0 || i > s.len() {
        None
    } else if at_group_end(s, i) {
        if i < s.len() && s[i] == Tok::Close(Delim::Paren) {
            Some(i + 1)
        } else {
            None
        }
    } else {
        match type_end(s, i) {
            Some(e) => if i < e <= s.len() {
                if at_group_end(s, e) {
                    if e < s.len() && s[e] == Tok::Close(Delim::Paren) {
                        Some(e + 1)
                    } else {
                        None
                    }
                } else if s[e] == Tok::Punct(Punct::Comma) {
                    types_in_paren_end(s, e + 1)
                } else {
                    None
                }
            } else {
                None
            },
            None => None,
        }
    }
}

/// Reads a type: `_`, `!`, a reference, a parenthesized type, a tuple, a
/// slice or a path without generic arguments.
pub fn parse_type(toks: &Vec<Tok>, pos: usize) -> (r: Result<(Type, usize), ParseError>)
    requires
        pos <= toks@.len(),
    ensures
        r is Ok <==> type_end(toks@, pos as int) is Some,
        r matches Ok((t, end)) ==> type_end(toks@, pos as int) == Some(end as int),
        r matches Ok((t, end)) ==> pos < end && covers(toks@, pos as int, end as int, tokens_type(t)),
        r matches Ok((t, end)) ==> (t is Infer ==> end == pos + 1 && toks@[pos as int] == Tok::Kw(Keyword::Underscore)),
    decreases toks@.len() - pos, 1int,
{
    if pos >= toks.len() {
        return err(pos, ErrorKind::Unexpected);
    }
    let t = toks[pos];
    if t == Tok::Kw(Keyword::Underscore) {
        proof {
            lemma_covers_tok(toks@, pos as int, t);
        }
        return Ok((Type::Infer, pos + 1));
    }
    if t == Tok::Punct(Punct::Bang) {
        proof {
            lemma_covers_tok(toks@, pos as int, t);
        }
        return Ok((Type::Never, pos + 1));
    }
    if t == Tok::Punct(Punct::And) {
        proof {
            lemma_covers_tok(toks@, pos as int, t);
        }
        let mut i = pos + 1;
        let lifetime = match parse_lifetime(toks, i) {
            Ok((l, e)) => {
                proof {
                    lemma_covers_cat(toks@, pos as int, i as int, e as int, p1(Punct::And), tokens_lifetime(l));
                }
                i = e;
                Some(l)
            },
            Err(_) => {
                proof {
                    lemma_covers_empty(toks@, i as int);
                    lemma_covers_cat(toks@, pos as int, i as int, i as int, p1(Punct::And), Seq::empty());
                }
                None
            },
        };
        let ghost acc = p1(Punct::And) + tokens_opt_lifetime(lifetime);
        assert(covers(toks@, pos as int, i as int, acc));
        let mutability = i < toks.len() && toks[i] == Tok::Kw(Keyword::Mut);
        if mutability {
            proof {
                lemma_covers_tok(toks@, i as int, Tok::Kw(Keyword::Mut));
                lemma_covers_cat(toks@, pos as int, i as int, i + 1, acc, k1(Keyword::Mut));
            }
            i = i + 1;
        } else {
            proof {
                lemma_covers_empty(toks@, i as int);
                lemma_covers_cat(toks@, pos as int, i as int, i as int, acc, Seq::empty());
            }
        }
        let ghost acc2 = acc + maybe(mutability, k1(Keyword::Mut));
        assert(covers(toks@, pos as int, i as int, acc2));
        let (elem, end) = parse_type(toks, i)?;
        proof {
            lemma_covers_cat(toks@, pos as int, i as int, end as int, acc2, tokens_type(elem));
        }
        return Ok((Type::Reference(TypeReference { lifetime, mutability, elem: Box::new(elem) }), end));
    }
    if t == Tok::Open(Delim::Bracket) {
        let (elem, i) = parse_type(toks, pos + 1)?;
        let end = expect(toks, i, Tok::Close(Delim::Bracket))?;
        proof {
            lemma_covers_tok(toks@, pos as int, t);
            lemma_covers_tok(toks@, i as int, Tok::Close(Delim::Bracket));
            lemma_covers_cat(toks@, pos as int, pos + 1, i as int, seq![t], tokens_type(elem));
            lemma_covers_cat(toks@, pos as int, i as int, end as int, seq![t] + tokens_type(elem), seq![Tok::Close(Delim::Bracket)]);
        }
        return Ok((Type::Slice(Box::new(elem)), end));
    }
    if t == Tok::Open(Delim::Paren) {
        return parse_type_paren(toks, pos);
    }
    if starts_path_at(toks, pos) {
        let (p, end) = parse_path(toks, pos)?;
        return Ok((Type::Path(p), end));
    }
    err(pos, ErrorKind::Unexpected)
}

pub fn starts_path_at(toks: &Vec<Tok>, pos: usize) -> (r: bool)
    ensures
        r == (pos < toks@.len() && starts_path(toks@[pos as int])),
{
    pos < toks.len() && (toks[pos] == Tok::Punct(Punct::Colon2) || name_at(toks, pos).is_some())
}

/// Reads `( ... )` in type position: `()` and `(A, ...)` are tuples, `(A)`
/// is a parenthesized type.
fn parse_type_paren(toks: &Vec<Tok>, pos: usize) -> (r: Result<(Type, usize), ParseError>)
    requires
        pos < toks.len(),
        toks@[pos as int] == Tok::Open(Delim::Paren),
    ensures
        r is Ok <==> type_end(toks@, pos as int) is Some,
        r matches Ok((t, end)) ==> type_end(toks@, pos as int) == Some(end as int),
        r matches Ok((t, end)) ==> pos < end && covers(toks@, pos as int, end as int, tokens_type(t)),
        r matches Ok((t, end)) ==> !(t is Infer),
    decreases toks@.len() - pos, 0int,
{
    let start = pos + 1;
    let mut i = start;
    let mut elems: Vec<Type> = Vec::new();
    proof {
        lemma_covers_tok(toks@, pos as int, Tok::Open(Delim::Paren));
        lemma_covers_empty(toks@, i as int);
    }
    let mut trailing = false;
    assert(type_end(toks@, pos as int) == types_in_paren_end(toks@, start as int));
    loop
        invariant_except_break
            pos < start <= i <= toks.len(),
            start == pos + 1,
            !trailing,
            types_in_paren_end(toks@, start as int) == types_in_paren_end(toks@, i as int),
            type_end(toks@, pos as int) == types_in_paren_end(toks@, start as int),
            covers(
                toks@,
                start as int,
                i as int,
                if elems@.len() == 0 {
                    Seq::empty()
                } else {
                    tokens_types(elems@) + p1(Punct::Comma)
                },
            ),
        ensures
            pos < start <= i <= toks.len(),
            start == pos + 1,
            at_group_end(toks@, i as int),
            types_in_paren_end(toks@, start as int) == types_in_paren_end(toks@, i as int),
            covers(
                toks@,
                start as int,
                i as int,
                tokens_types(elems@) + maybe(trailing && elems@.len() > 0, p1(Punct::Comma)),
            ),
        decreases toks@.len() - i,
    {
        if is_group_end(toks, i) {
            trailing = elems.len() > 0;
            proof {
                if elems@.len() == 0 {
                    assert(tokens_types(elems@) + maybe(trailing && elems@.len() > 0, p1(Punct::Comma)) =~= Seq::<Tok>::empty());
                }
            }
            break;
        }
        let ghost old_elems = elems@;
        let (t, e) = parse_type(toks, i)?;
        proof {
            lemma_types_push(old_elems, t);
            lemma_covers_cat(
                toks@,
                start as int,
                i as int,
                e as int,
                if old_elems.len() == 0 {
                    Seq::empty()
                } else {
                    tokens_types(old_elems) + p1(Punct::Comma)
                },
                tokens_type(t),
            );
            if old_elems.len() == 0 {
                assert(Seq::<Tok>::empty() + tokens_type(t) =~= tokens_type(t));
            }
        }
        elems.push(t);
        i = e;
        assert(covers(toks@, start as int, i as int, tokens_types(elems@)));
        if is_group_end(toks, i) {
            proof {
                assert(tokens_types(elems@) + maybe(trailing && elems@.len() > 0, p1(Punct::Comma)) =~= tokens_types(elems@));
            }
            break;
        }
        let n = expect(toks, i, Tok::Punct(Punct::Comma))?;
        proof {
            lemma_covers_tok(toks@, i as int, Tok::Punct(Punct::Comma));
            lemma_covers_cat(toks@, start as int, i as int, n as int, tokens_types(elems@), p1(Punct::Comma));
        }
        i = n;
    }
    let ghost inner = tokens_types(elems@) + maybe(trailing && elems@.len() > 0, p1(Punct::Comma));
    let end = expect(toks, i, Tok::Close(Delim::Paren))?;
    proof {
        lemma_covers_tok(toks@, i as int, Tok::Close(Delim::Paren));
        lemma_covers_cat(toks@, pos as int, start as int, i as int, seq![Tok::Open(Delim::Paren)], inner);
        lemma_covers_cat(toks@, pos as int, i as int, end as int, seq![Tok::Open(Delim::Paren)] + inner, seq![Tok::Close(Delim::Paren)]);
    }
    if elems.len() == 1 && !trailing {
        let ghost es = elems@;
        let elem = elems.pop().unwrap();
        proof {
            assert(tokens_types(es) == tokens_type(elem));
            assert(inner =~= tokens_types(es));
        }
        Ok((Type::Paren(Box::new(elem)), end))
    } else {
        Ok((Type::Tuple(elems, trailing), end))
    }
}

/// Where the attribute of style `style` that starts at `pos` ends, if one
/// starts there: `#`, a `!` for an inner one, then `[`, a path, whatever
/// tokens, and the `]` that closes the bracket.
pub open spec fn attr_end(s: Seq<Tok>, pos: int, style: AttrStyle) -> Option<int> {
    let b = if style == AttrStyle::Inner {
        pos + 2
    } else {
        pos + 1
    };
    if 0 <= pos && b < s.len() && s[pos] == Tok::Punct(Punct::Pound) && (style == AttrStyle::Inner
        ==> s[pos + 1] == Tok::Punct(Punct::Bang)) && s[b] == Tok::Open(Delim::Bracket) && path_end(
        s,
        b + 1,
    ) is Some && close_from(s, b + 1, 0) is Some && s[close_from(s, b + 1, 0).unwrap()]
        == Tok::Close(Delim::Bracket) {
        Some(close_from(s, b + 1, 0).unwrap() + 1)
    } else {
        None
    }
}

/// Where the outer attributes that start at `i` end: they are read as
/// long as a `#` follows, and each `#` must start one.
pub open spec fn outer_end(s: Seq<Tok>, i: int) -> Option<int>
    decreases s.len() - i,
{
    if 0 <= i < s.len() && s[i] == Tok::Punct(Punct::Pound) {
        match attr_end(s, i, AttrStyle::Outer) {
            Some(e) => if i < e <= s.len() {
                outer_end(s, e)
            } else {
                None
            },
            None => None,
        }
    } else {
        Some(i)
    }
}

/// Where the inner attributes that start at `i` end: they are read as
/// long as `#` and `!` follow, and each such pair must start one.
pub open spec fn inner_end(s: Seq<Tok>, i: int) -> Option<int>
    decreases s.len() - i,
{
    if 0 <= i && i + 1 < s.len() && s[i] == Tok::Punct(Punct::Pound) && s[i + 1] == Tok::Punct(
        Punct::Bang,
    ) {
        match attr_end(s, i, AttrStyle::Inner) {
            Some(e) => if i < e <= s.len() {
                inner_end(s, e)
            } else {
                None
            },
            None => None,
        }
    } else {
        Some(i)
    }
}

/// Reads one attribute of style `style` starting at its `#`: `#[...]` or
/// `#![...]`. The bracket must start with a path.
fn parse_attribute(toks: &Vec<Tok>, pos: usize, style: AttrStyle) -> (r: Result<(Attribute, usize), ParseError>)
    requires
        pos <= toks@.len(),
    ensures
        r matches Ok((a, end)) ==> pos + 2 < end && a.style == style && covers(toks@, pos as int, end as int, tokens_attr(a)) && attr_at(toks@, pos as int),
        r matches Ok((a, end)) ==> attr_end(toks@, pos as int, style) == Some(end as int),
        r is Ok <==> attr_end(toks@, pos as int, style) is Some,
{
    let mut i = expect(toks, pos, Tok::Punct(Punct::Pound))?;
    proof {
        lemma_covers_tok(toks@, pos as int, Tok::Punct(Punct::Pound));
    }
    let inner = style == AttrStyle::Inner;
    if inner {
        let n = expect(toks, i, Tok::Punct(Punct::Bang))?;
        proof {
            lemma_covers_tok(toks@, i as int, Tok::Punct(Punct::Bang));
            lemma_covers_cat(toks@, pos as int, i as int, n as int, p1(Punct::Pound), p1(Punct::Bang));
        }
        i = n;
    } else {
        proof {
            lemma_covers_empty(toks@, i as int);
            lemma_covers_cat(toks@, pos as int, i as int, i as int, p1(Punct::Pound), Seq::empty());
        }
    }
    let ghost head = p1(Punct::Pound) + maybe(inner, p1(Punct::Bang));
    assert(covers(toks@, pos as int, i as int, head));
    let body = expect(toks, i, Tok::Open(Delim::Bracket))?;
    let _ = parse_path(toks, body)?;
    let close = match find_close(toks, body, Delim::Bracket) {
        Ok(c) => c,
        Err(e) => {
            proof {
                if attr_end(toks@, pos as int, style) is Some {
                    let k = close_from(toks@, body as int, 0).unwrap();
                    assert(closes_at(toks@, body as int, Delim::Bracket, k));
                }
            }
            return Err(e);
        },
    };
    let tts = copy_range(toks, body, close);
    let a = Attribute { style, tts };
    proof {
        lemma_covers_tok(toks@, i as int, Tok::Open(Delim::Bracket));
        lemma_covers_exact(toks@, body as int, close as int);
        lemma_covers_tok(toks@, close as int, Tok::Close(Delim::Bracket));
        lemma_covers_cat(toks@, i as int, body as int, close as int, seq![Tok::Open(Delim::Bracket)], a.tts@);
        lemma_covers_cat(toks@, i as int, close as int, close + 1, seq![Tok::Open(Delim::Bracket)] + a.tts@, seq![Tok::Close(Delim::Bracket)]);
        lemma_covers_cat(toks@, pos as int, i as int, close + 1, head, delimited(Delim::Bracket, a.tts@));
        assert(a.style == AttrStyle::Inner <==> inner);
    }
    Ok((a, close + 1))
}

/// Whether an outer attribute starts here: a `#`.
pub open spec fn at_outer_attr(s: Seq<Tok>, pos: int) -> bool {
    0 <= pos < s.len() && s[pos] == Tok::Punct(Punct::Pound)
}

/// Whether an inner attribute starts here: `#` and `!`.
pub open spec fn at_inner_attr(s: Seq<Tok>, pos: int) -> bool {
    0 <= pos && pos + 1 < s.len() && s[pos] == Tok::Punct(Punct::Pound) && s[pos + 1] == Tok::Punct(Punct::Bang)
}

/// Reads the outer attributes `#[...]` that start here; it reads as long as
/// a `#` follows, and fails on a `#` that does not start one.
pub fn parse_outer(toks: &Vec<Tok>, pos: usize) -> (r: Result<(Vec<Attribute>, usize), ParseError>)
    requires
        pos <= toks@.len(),
    ensures
        r matches Ok((attrs, end)) ==> {
            &&& covers(toks@, pos as int, end as int, tokens_outer(attrs@))
            &&& all_of_style(attrs@, AttrStyle::Outer)
            &&& tokens_inner(attrs@) == Seq::<Tok>::empty()
            &&& !at_outer_attr(toks@, end as int)
            &&& (attrs@.len() == 0 <==> end == pos)
            &&& (attrs@.len() > 0 ==> attr_at(toks@, pos as int) && pos + 2 < end)
            &&& (!at_outer_attr(toks@, pos as int) ==> end == pos)
            &&& pos <= end
            &&& outer_end(toks@, pos as int) == Some(end as int)
        },
        r is Ok <==> outer_end(toks@, pos as int) is Some,
{
    let mut attrs: Vec<Attribute> = Vec::new();
    let mut i = pos;
    proof {
        lemma_covers_empty(toks@, pos as int);
    }
    while i < toks.len() && toks[i] == Tok::Punct(Punct::Pound)
        invariant
            pos <= i <= toks@.len(),
            covers(toks@, pos as int, i as int, tokens_outer(attrs@)),
            all_of_style(attrs@, AttrStyle::Outer),
            attrs@.len() == 0 <==> i == pos,
            attrs@.len() > 0 ==> attr_at(toks@, pos as int) && pos + 2 < i,
            i > pos ==> at_outer_attr(toks@, pos as int),
            outer_end(toks@, pos as int) == outer_end(toks@, i as int),
        decreases toks@.len() - i,
    {
        let (a, e) = parse_attribute(toks, i, AttrStyle::Outer)?;
        proof {
            lemma_attrs_of_style_push(attrs@, a, AttrStyle::Outer);
            lemma_covers_cat(toks@, pos as int, i as int, e as int, tokens_outer(attrs@), tokens_attr(a));
        }
        attrs.push(a);
        i = e;
    }
    proof {
        lemma_attrs_other_style(attrs@, AttrStyle::Outer, AttrStyle::Inner);
    }
    Ok((attrs, i))
}

/// Reads the inner attributes `#![...]` that start here.
pub fn parse_inner(toks: &Vec<Tok>, pos: usize) -> (r: Result<(Vec<Attribute>, usize), ParseError>)
    requires
        pos <= toks@.len(),
    ensures
        r matches Ok((attrs, end)) ==> {
            &&& covers(toks@, pos as int, end as int, tokens_inner(attrs@))
            &&& all_of_style(attrs@, AttrStyle::Inner)
            &&& tokens_outer(attrs@) == Seq::<Tok>::empty()
            &&& !at_inner_attr(toks@, end as int)
            &&& (attrs@.len() > 0 ==> has_lossy(toks@, pos as int, end as int))
            &&& pos <= end
            &&& inner_end(toks@, pos as int) == Some(end as int)
            &&& (attrs@.len() == 0 <==> end == pos)
        },
        r is Ok <==> inner_end(toks@, pos as int) is Some,
{
    let mut attrs: Vec<Attribute> = Vec::new();
    let mut i = pos;
    proof {
        lemma_covers_empty(toks@, pos as int);
    }
    while i < toks.len() && i + 1 < toks.len() && toks[i] == Tok::Punct(Punct::Pound) && toks[i + 1] == Tok::Punct(Punct::Bang)
        invariant
            pos <= i <= toks@.len(),
            covers(toks@, pos as int, i as int, tokens_inner(attrs@)),
            all_of_style(attrs@, AttrStyle::Inner),
            attrs@.len() > 0 ==> has_lossy(toks@, pos as int, i as int),
            inner_end(toks@, pos as int) == inner_end(toks@, i as int),
            attrs@.len() == 0 <==> i == pos,
        decreases toks@.len() - i,
    {
        assert(has_lossy(toks@, i as int, i + 2)) by {
            assert(lossy_at(toks@, i as int));
        }
        let (a, e) = parse_attribute(toks, i, AttrStyle::Inner)?;
        proof {
            lemma_lossy_widen(toks@, pos as int, i as int, i + 2, e as int);
            lemma_attrs_of_style_push(attrs@, a, AttrStyle::Inner);
            lemma_covers_cat(toks@, pos as int, i as int, e as int, tokens_inner(attrs@), tokens_attr(a));
        }
        attrs.push(a);
        i = e;
    }
    proof {
        lemma_attrs_other_style(attrs@, AttrStyle::Inner, AttrStyle::Outer);
    }
    Ok((attrs, i))
}

/// The binary operator that a token stands for, if any.
pub open spec fn binop_of(t: Tok) -> Option<BinOp> {
    match t {
        Tok::Punct(p) => match p {
            Punct::Add => Some(BinOp::Add),
            Punct::Sub => Some(BinOp::Sub),
            Punct::Star => Some(BinOp::Mul),
            Punct::Div => Some(BinOp::Div),
            Punct::Rem => Some(BinOp::Rem),
            Punct::AndAnd => Some(BinOp::And),
            Punct::OrOr => Some(BinOp::Or),
            Punct::Caret => Some(BinOp::BitXor),
            Punct::And => Some(BinOp::BitAnd),
            Punct::Or => Some(BinOp::BitOr),
            Punct::Shl => Some(BinOp::Shl),
            Punct::Shr => Some(BinOp::Shr),
            Punct::EqEq => Some(BinOp::Eq),
            Punct::Lt => Some(BinOp::Lt),
            Punct::Le => Some(BinOp::Le),
            Punct::Ne => Some(BinOp::Ne),
            Punct::Ge => Some(BinOp::Ge),
            Punct::Gt => Some(BinOp::Gt),
            Punct::AddEq => Some(BinOp::AddEq),
            Punct::SubEq => Some(BinOp::SubEq),
            Punct::MulEq => Some(BinOp::MulEq),
            Punct::DivEq => Some(BinOp::DivEq),
            Punct::RemEq => Some(BinOp::RemEq),
            Punct::CaretEq => Some(BinOp::BitXorEq),
            Punct::AndEq => Some(BinOp::BitAndEq),
            Punct::OrEq => Some(BinOp::BitOrEq),
            Punct::ShlEq => Some(BinOp::ShlEq),
            Punct::ShrEq => Some(BinOp::ShrEq),
            _ => None,
        },
        _ => None,
    }
}

/// The binary operator at `pos`, if one is there.
pub open spec fn binop_at(s: Seq<Tok>, pos: int) -> Option<BinOp> {
    if 0 <= pos < s.len() {
        binop_of(s[pos])
    } else {
        None
    }
}

/// Reads the binary operator at `pos`, if one is there.
pub fn parse_binop(toks: &Vec<Tok>, pos: usize) -> (r: Option<BinOp>)
    ensures
        r == binop_at(toks@, pos as int),
        r matches Some(op) ==> covers(toks@, pos as int, pos + 1, tokens_binop(op)),
{
    if pos >= toks.len() {
        return None;
    }
    let r = match toks[pos] {
        Tok::Punct(p) => match p {
            Punct::Add => Some(BinOp::Add),
            Punct::Sub => Some(BinOp::Sub),
            Punct::Star => Some(BinOp::Mul),
            Punct::Div => Some(BinOp::Div),
            Punct::Rem => Some(BinOp::Rem),
            Punct::AndAnd => Some(BinOp::And),
            Punct::OrOr => Some(BinOp::Or),
            Punct::Caret => Some(BinOp::BitXor),
            Punct::And => Some(BinOp::BitAnd),
            Punct::Or => Some(BinOp::BitOr),
            Punct::Shl => Some(BinOp::Shl),
            Punct::Shr => Some(BinOp::Shr),
            Punct::EqEq => Some(BinOp::Eq),
            Punct::Lt => Some(BinOp::Lt),
            Punct::Le => Some(BinOp::Le),
            Punct::Ne => Some(BinOp::Ne),
            Punct::Ge => Some(BinOp::Ge),
            Punct::Gt => Some(BinOp::Gt),
            Punct::AddEq => Some(BinOp::AddEq),
            Punct::SubEq => Some(BinOp::SubEq),
            Punct::MulEq => Some(BinOp::MulEq),
            Punct::DivEq => Some(BinOp::DivEq),
            Punct::RemEq => Some(BinOp::RemEq),
            Punct::CaretEq => Some(BinOp::BitXorEq),
            Punct::AndEq => Some(BinOp::BitAndEq),
            Punct::OrEq => Some(BinOp::BitOrEq),
            Punct::ShlEq => Some(BinOp::ShlEq),
            Punct::ShrEq => Some(BinOp::ShrEq),
            _ => None,
        },
        _ => None,
    };
    proof {
        if let Some(op) = r {
            lemma_covers_tok(toks@, pos as int, toks@[pos as int]);
        }
    }
    r
}

/// The unary operator that a token stands for, if any.
pub open spec fn unop_of(t: Tok) -> Option<UnOp> {
    match t {
        Tok::Punct(Punct::Star) => Some(UnOp::Deref),
        Tok::Punct(Punct::Bang) => Some(UnOp::Not),
        Tok::Punct(Punct::Sub) => Some(UnOp::Neg),
        _ => None,
    }
}

/// Reads the unary operator at `pos`, if one is there.
pub fn parse_unop(toks: &Vec<Tok>, pos: usize) -> (r: Option<UnOp>)
    ensures
        r == (if pos < toks@.len() { unop_of(toks@[pos as int]) } else { None }),
        r matches Some(op) ==> covers(toks@, pos as int, pos + 1, tokens_unop(op)),
{
    if pos >= toks.len() {
        return None;
    }
    let r = match toks[pos] {
        Tok::Punct(Punct::Star) => Some(UnOp::Deref),
        Tok::Punct(Punct::Bang) => Some(UnOp::Not),
        Tok::Punct(Punct::Sub) => Some(UnOp::Neg),
        _ => None,
    };
    proof {
        if let Some(op) = r {
            lemma_covers_tok(toks@, pos as int, toks@[pos as int]);
        }
    }
    r
}

/// Whether the token is `..`, `...` or `..=`.
pub open spec fn is_dots(t: Tok) -> bool {
    t == Tok::Punct(Punct::Dot2) || t == Tok::Punct(Punct::Dot3) || t == Tok::Punct(Punct::DotDotEq)
}

pub fn dots_at(toks: &Vec<Tok>, pos: usize) -> (r: bool)
    ensures
        r == (pos < toks@.len() && is_dots(toks@[pos as int])),
{
    pos < toks.len() && (toks[pos] == Tok::Punct(Punct::Dot2) || toks[pos] == Tok::Punct(Punct::Dot3)
        || toks[pos] == Tok::Punct(Punct::DotDotEq))
}

/// Reads range limits: `..` is half open, `..=` and `...` are closed.
pub fn parse_range_limits(toks: &Vec<Tok>, pos: usize) -> (r: Result<(RangeLimits, usize), ParseError>)
    ensures
        r is Ok <==> (pos < toks@.len() && is_dots(toks@[pos as int])),
        r matches Ok((l, end)) ==> end == pos + 1 && covers(toks@, pos as int, end as int, tokens_range_limits(l))
            && (l == RangeLimits::HalfOpen <==> toks@[pos as int] == Tok::Punct(Punct::Dot2)),
{
    if pos < toks.len() {
        let t = toks[pos];
        if t == Tok::Punct(Punct::DotDotEq) || t == Tok::Punct(Punct::Dot3) {
            proof {
                lemma_covers_tok(toks@, pos as int, Tok::Punct(Punct::DotDotEq));
            }
            return Ok((RangeLimits::Closed, pos + 1));
        }
        if t == Tok::Punct(Punct::Dot2) {
            proof {
                lemma_covers_tok(toks@, pos as int, Tok::Punct(Punct::Dot2));
            }
            return Ok((RangeLimits::HalfOpen, pos + 1));
        }
    }
    err(pos, ErrorKind::Unexpected)
}

/// The precedence of the operator that would continue an expression at
/// `pos`: a binary operator, `=` (assignment), `<-` (placement), a range,
/// `as` or `:` (cast and type ascription); `Any` when none is there.
pub open spec fn peek_prec(s: Seq<Tok>, pos: int) -> Precedence {
    match binop_at(s, pos) {
        Some(op) => binop_prec(op),
        None => if !(0 <= pos < s.len()) {
            Precedence::Any
        } else if s[pos] == Tok::Punct(Punct::Eq) {
            Precedence::Assign
        } else if s[pos] == Tok::Punct(Punct::LArrow) {
            Precedence::Placement
        } else if is_dots(s[pos]) {
            Precedence::Range
        } else if s[pos] == Tok::Kw(Keyword::As) || s[pos] == Tok::Punct(Punct::Colon) {
            Precedence::Cast
        } else {
            Precedence::Any
        },
    }
}

/// The precedence of the operator that would continue an expression here.
pub fn peek_precedence(toks: &Vec<Tok>, pos: usize) -> (r: Precedence)
    ensures
        r == peek_prec(toks@, pos as int),
{
    if let Some(op) = parse_binop(toks, pos) {
        Precedence::of(&op)
    } else if pos >= toks.len() {
        Precedence::Any
    } else if toks[pos] == Tok::Punct(Punct::Eq) {
        Precedence::Assign
    } else if toks[pos] == Tok::Punct(Punct::LArrow) {
        Precedence::Placement
    } else if dots_at(toks, pos) {
        Precedence::Range
    } else if toks[pos] == Tok::Kw(Keyword::As) || toks[pos] == Tok::Punct(Punct::Colon) {
        Precedence::Cast
    } else {
        Precedence::Any
    }
}

} // verus!

verus! {

pub proof fn lemma_covers_delim(s: Seq<Tok>, a: int, b: int, d: Delim, inner: Seq<Tok>)
    requires
        0 <= a,
        b < s.len(),
        s[a] == Tok::Open(d),
        s[b] == Tok::Close(d),
        covers(s, a + 1, b, inner),
    ensures
        covers(s, a, b + 1, delimited(d, inner)),
{
    lemma_covers_tok(s, a, Tok::Open(d));
    lemma_covers_tok(s, b, Tok::Close(d));
    lemma_covers_cat(s, a, a + 1, b, seq![Tok::Open(d)], inner);
    lemma_covers_cat(s, a, b, b + 1, seq![Tok::Open(d)] + inner, seq![Tok::Close(d)]);
}

} // verus!
