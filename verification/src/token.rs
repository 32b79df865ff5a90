use vstd::prelude::*;

verus! {

/// The kind of delimiter around a token group.
#[derive(Debug, Clone, Copy, PartialEq, Eq, Structural)]
pub enum Delim {
    /// `( ... )`
    Paren,
    /// `[ ... ]`
    Bracket,
    /// `{ ... }`
    Brace,
    /// An invisible delimiter.
    NoDelim,
}

/// A punctuation token, as the lexer delivers it: one whole operator.
#[derive(Debug, Clone, Copy, PartialEq, Eq, Structural)]
pub enum Punct {
    Add,
    Sub,
    Star,
    Div,
    Rem,
    Caret,
    Bang,
    And,
    Or,
    AndAnd,
    OrOr,
    Shl,
    Shr,
    AddEq,
    SubEq,
    MulEq,
    DivEq,
    RemEq,
    CaretEq,
    AndEq,
    OrEq,
    ShlEq,
    ShrEq,
    Eq,
    EqEq,
    Ne,
    Gt,
    Lt,
    Ge,
    Le,
    At,
    Dot,
    Dot2,
    Dot3,
    DotDotEq,
    Comma,
    Semi,
    Colon,
    Colon2,
    RArrow,
    FatArrow,
    LArrow,
    Pound,
    Dollar,
    Question,
    Tilde,
}

/// A reserved word.
#[derive(Debug, Clone, Copy, PartialEq, Eq, Structural)]
pub enum Keyword {
    As,
    Async,
    Box,
    Break,
    Const,
    Continue,
    Crate,
    Dyn,
    Else,
    Enum,
    Extern,
    Fn,
    For,
    If,
    Impl,
    In,
    Let,
    Loop,
    Macro,
    Match,
    Mod,
    Move,
    Mut,
    Pub,
    Ref,
    Return,
    SelfValue,
    SelfType,
    Static,
    Struct,
    Super,
    Trait,
    Try,
    Type,
    Underscore,
    Unsafe,
    Use,
    Where,
    While,
    Yield,
}

/// A literal token. Texts that the syntax tree never looks into are held
/// by a symbol number.
#[derive(Debug, Clone, Copy, PartialEq, Eq, Structural)]
pub enum Lit {
    /// An integer literal without suffix, with its value.
    Int(u64),
    /// An integer literal with a suffix: the value and the suffix's symbol.
    IntSuffixed(u64, u64),
    Float(u64),
    Str(u64),
    ByteStr(u64),
    Byte(u64),
    Char(u64),
    Bool(bool),
}

/// One token of the input. Groups appear as an opening token, their
/// content, and a closing token.
#[derive(Debug, Clone, Copy, PartialEq, Eq, Structural)]
pub enum Tok {
    /// An identifier that is not a keyword, by symbol number.
    Ident(u64),
    /// A lifetime such as `'a`, by symbol number.
    Lifetime(u64),
    Lit(Lit),
    Kw(Keyword),
    Punct(Punct),
    Open(Delim),
    Close(Delim),
}

/// The canonical form of a token: `...` and `..=` both stand for the
/// inclusive range limits and are written `..=`; `&&` always stands for
/// two `&`, since it is read as two references where an operand starts.
pub open spec fn canon(t: Tok) -> Seq<Tok> {
    match t {
        Tok::Punct(Punct::Dot3) => seq![Tok::Punct(Punct::DotDotEq)],
        Tok::Punct(Punct::AndAnd) => seq![Tok::Punct(Punct::And), Tok::Punct(Punct::And)],
        _ => seq![t],
    }
}

/// The canonical form of a token sequence: the canonical forms of its
/// tokens, one after the other.
pub open spec fn canon_seq(s: Seq<Tok>) -> Seq<Tok>
    decreases s.len(),
{
    if s.len() == 0 {
        Seq::empty()
    } else {
        canon_seq(s.drop_last()) + canon(s.last())
    }
}

pub proof fn lemma_canon_seq_add(a: Seq<Tok>, b: Seq<Tok>)
    ensures
        canon_seq(a + b) == canon_seq(a) + canon_seq(b),
    decreases b.len(),
{
    if b.len() == 0 {
        assert(a + b =~= a);
        assert(canon_seq(a) + canon_seq(b) =~= canon_seq(a));
    } else {
        assert((a + b).drop_last() =~= a + b.drop_last());
        assert((a + b).last() == b.last());
        lemma_canon_seq_add(a, b.drop_last());
        assert(canon_seq(a + b) =~= canon_seq(a) + canon_seq(b));
    }
}

pub proof fn lemma_canon_seq_one(t: Tok)
    ensures
        canon_seq(seq![t]) == canon(t),
{
    let one = seq![t];
    assert(one.len() == 1);
    assert(one.last() == t);
    assert(one.drop_last() =~= Seq::<Tok>::empty());
    assert(canon_seq(one.drop_last()) == Seq::<Tok>::empty());
    assert(Seq::<Tok>::empty() + canon(t) =~= canon(t));
}

/// The token at `pos`, if there is one.
pub open spec fn tok_at(s: Seq<Tok>, pos: int) -> Option<Tok> {
    if 0 <= pos < s.len() {
        Some(s[pos])
    } else {
        None
    }
}

/// Whether the token at `pos` is exactly `t`.
pub fn peek_is(toks: &Vec<Tok>, pos: usize, t: Tok) -> (r: bool)
    ensures
        r == (tok_at(toks@, pos as int) == Some(t)),
{
    pos < toks.len() && toks[pos] == t
}

} // verus!
