use synexpr::ast::{
    arm_expr_requires_comma, AttrStyle, Attribute, BinOp, Expr, Index, Member, Pat,
    Precedence, Stmt, UnOp,
};
use synexpr::attrs::take_outer;
use synexpr::parse_pat::parse_pat;
use synexpr::to_tokens::print_pat;
use synexpr::parse_stmt::parse_stmt;
use synexpr::parse_util::{
    find_close, parse_delimited, parse_outer, parse_path, parse_type, ErrorKind, ParseError,
};
use synexpr::token::{Delim, Keyword, Lit, Punct, Tok};
use synexpr::ast::Block;

/// Names get symbol numbers in order of first use.
struct Symbols {
    names: Vec<String>,
}

impl Symbols {
    fn new() -> Symbols {
        Symbols { names: Vec::new() }
    }

    fn sym(&mut self, name: &str) -> u64 {
        if let Some(i) = self.names.iter().position(|n| n == name) {
            return i as u64;
        }
        self.names.push(name.to_string());
        (self.names.len() - 1) as u64
    }
}

fn keyword(word: &str) -> Option<Keyword> {
    Some(match word {
        "as" => Keyword::As,
        "async" => Keyword::Async,
        "box" => Keyword::Box,
        "break" => Keyword::Break,
        "const" => Keyword::Const,
        "continue" => Keyword::Continue,
        "crate" => Keyword::Crate,
        "dyn" => Keyword::Dyn,
        "else" => Keyword::Else,
        "enum" => Keyword::Enum,
        "extern" => Keyword::Extern,
        "fn" => Keyword::Fn,
        "for" => Keyword::For,
        "if" => Keyword::If,
        "impl" => Keyword::Impl,
        "in" => Keyword::In,
        "let" => Keyword::Let,
        "loop" => Keyword::Loop,
        "macro" => Keyword::Macro,
        "match" => Keyword::Match,
        "mod" => Keyword::Mod,
        "move" => Keyword::Move,
        "mut" => Keyword::Mut,
        "pub" => Keyword::Pub,
        "ref" => Keyword::Ref,
        "return" => Keyword::Return,
        "self" => Keyword::SelfValue,
        "Self" => Keyword::SelfType,
        "static" => Keyword::Static,
        "struct" => Keyword::Struct,
        "super" => Keyword::Super,
        "trait" => Keyword::Trait,
        "try" => Keyword::Try,
        "type" => Keyword::Type,
        "_" => Keyword::Underscore,
        "unsafe" => Keyword::Unsafe,
        "use" => Keyword::Use,
        "where" => Keyword::Where,
        "while" => Keyword::While,
        "yield" => Keyword::Yield,
        _ => return None,
    })
}

const PUNCTS: &[(&str, Punct)] = &[
    ("...", Punct::Dot3),
    ("..=", Punct::DotDotEq),
    ("<<=", Punct::ShlEq),
    (">>=", Punct::ShrEq),
    ("::", Punct::Colon2),
    ("->", Punct::RArrow),
    ("=>", Punct::FatArrow),
    ("<-", Punct::LArrow),
    ("..", Punct::Dot2),
    ("&&", Punct::AndAnd),
    ("||", Punct::OrOr),
    ("<<", Punct::Shl),
    (">>", Punct::Shr),
    ("+=", Punct::AddEq),
    ("-=", Punct::SubEq),
    ("*=", Punct::MulEq),
    ("/=", Punct::DivEq),
    ("%=", Punct::RemEq),
    ("^=", Punct::CaretEq),
    ("&=", Punct::AndEq),
    ("|=", Punct::OrEq),
    ("==", Punct::EqEq),
    ("!=", Punct::Ne),
    (">=", Punct::Ge),
    ("<=", Punct::Le),
    ("+", Punct::Add),
    ("-", Punct::Sub),
    ("*", Punct::Star),
    ("/", Punct::Div),
    ("%", Punct::Rem),
    ("^", Punct::Caret),
    ("!", Punct::Bang),
    ("&", Punct::And),
    ("|", Punct::Or),
    ("=", Punct::Eq),
    (">", Punct::Gt),
    ("<", Punct::Lt),
    ("@", Punct::At),
    (".", Punct::Dot),
    (",", Punct::Comma),
    (";", Punct::Semi),
    (":", Punct::Colon),
    ("#", Punct::Pound),
    ("$", Punct::Dollar),
    ("?", Punct::Question),
    ("~", Punct::Tilde),
];

/// Splits source text into tokens; a space ends a token.
fn lex(src: &str, syms: &mut Symbols) -> Vec<Tok> {
    let chars: Vec<char> = src.chars().collect();
    let mut toks = Vec::new();
    let mut i = 0;
    while i < chars.len() {
        let c = chars[i];
        if c.is_whitespace() {
            i += 1;
        } else if c == '(' || c == '[' || c == '{' {
            toks.push(Tok::Open(match c {
                '(' => Delim::Paren,
                '[' => Delim::Bracket,
                _ => Delim::Brace,
            }));
            i += 1;
        } else if c == ')' || c == ']' || c == '}' {
            toks.push(Tok::Close(match c {
                ')' => Delim::Paren,
                ']' => Delim::Bracket,
                _ => Delim::Brace,
            }));
            i += 1;
        } else if c == '\'' {
            let start = i + 1;
            i += 1;
            while i < chars.len() && (chars[i].is_alphanumeric() || chars[i] == '_') {
                i += 1;
            }
            let name: String = chars[start..i].iter().collect();
            toks.push(Tok::Lifetime(syms.sym(&name)));
        } else if c == '"' {
            let start = i + 1;
            i += 1;
            while chars[i] != '"' {
                i += 1;
            }
            let text: String = chars[start..i].iter().collect();
            i += 1;
            toks.push(Tok::Lit(Lit::Str(syms.sym(&text))));
        } else if c.is_ascii_digit() {
            let start = i;
            while i < chars.len() && chars[i].is_ascii_digit() {
                i += 1;
            }
            let value: u64 = chars[start..i].iter().collect::<String>().parse().unwrap();
            if i < chars.len() && (chars[i] == 'u' || chars[i] == 'i') {
                let s = i;
                while i < chars.len() && chars[i].is_alphanumeric() {
                    i += 1;
                }
                let suffix: String = chars[s..i].iter().collect();
                toks.push(Tok::Lit(Lit::IntSuffixed(value, syms.sym(&suffix))));
            } else {
                toks.push(Tok::Lit(Lit::Int(value)));
            }
        } else if c.is_alphabetic() || c == '_' {
            let start = i;
            while i < chars.len() && (chars[i].is_alphanumeric() || chars[i] == '_') {
                i += 1;
            }
            let word: String = chars[start..i].iter().collect();
            if word == "true" || word == "false" {
                toks.push(Tok::Lit(Lit::Bool(word == "true")));
            } else if let Some(k) = keyword(&word) {
                toks.push(Tok::Kw(k));
            } else {
                toks.push(Tok::Ident(syms.sym(&word)));
            }
        } else {
            let rest: String = chars[i..].iter().collect();
            let (text, p) = PUNCTS
                .iter()
                .find(|(text, _)| rest.starts_with(text))
                .expect("unknown punctuation");
            toks.push(Tok::Punct(*p));
            i += text.chars().count();
        }
    }
    toks
}

fn toks(src: &str) -> Vec<Tok> {
    lex(src, &mut Symbols::new())
}

fn parse(src: &str) -> Result<Expr, ParseError> {
    Expr::parse_all(&toks(src))
}

fn print(e: &Expr) -> Vec<Tok> {
    let mut out = Vec::new();
    e.to_tokens(&mut out);
    out
}

/// Parses `src` and prints the result.
fn reprint(src: &str) -> Vec<Tok> {
    print(&parse(src).expect("parses"))
}

fn binary(e: &Expr) -> (&Expr, BinOp, &Expr) {
    match e {
        Expr::Binary(b) => (&b.left, b.op, &b.right),
        other => panic!("not a binary expression: {:?}", other),
    }
}

fn is_path(e: &Expr) -> bool {
    matches!(e, Expr::Path(_))
}

#[test]
fn multiplication_binds_tighter_than_addition() {
    let e = parse("a + b * c").unwrap();
    let (l, op, r) = binary(&e);
    assert_eq!(op, BinOp::Add);
    assert!(is_path(l));
    let (rl, rop, rr) = binary(r);
    assert_eq!(rop, BinOp::Mul);
    assert!(is_path(rl) && is_path(rr));
}

#[test]
fn subtraction_groups_to_the_left() {
    let e = parse("a - b - c").unwrap();
    let (l, op, r) = binary(&e);
    assert_eq!(op, BinOp::Sub);
    assert!(is_path(r));
    let (_, lop, _) = binary(l);
    assert_eq!(lop, BinOp::Sub);
}

#[test]
fn assignment_groups_to_the_right() {
    let e = parse("a = b = c").unwrap();
    match e {
        Expr::Assign(x) => {
            assert!(is_path(&x.left));
            assert!(matches!(*x.right, Expr::Assign(_)));
        }
        other => panic!("{:?}", other),
    }
}

#[test]
fn compound_assignment_is_a_binary_expression() {
    let e = parse("a += b").unwrap();
    let (_, op, _) = binary(&e);
    assert_eq!(op, BinOp::AddEq);
    assert_eq!(Precedence::of(&op), Precedence::Assign);
}

#[test]
fn unary_binds_tighter_than_cast_and_binary() {
    let e = parse("-a as u8 * b").unwrap();
    let (l, op, _) = binary(&e);
    assert_eq!(op, BinOp::Mul);
    match l {
        Expr::Cast(c) => match &*c.expr {
            Expr::Unary(u) => assert_eq!(u.op, UnOp::Neg),
            other => panic!("{:?}", other),
        },
        other => panic!("{:?}", other),
    }
}

#[test]
fn range_binds_looser_than_or() {
    let e = parse("a || b .. c").unwrap();
    match e {
        Expr::Range(r) => {
            assert!(matches!(r.from.as_deref(), Some(Expr::Binary(_))));
            assert!(matches!(r.to.as_deref(), Some(Expr::Path(_))));
        }
        other => panic!("{:?}", other),
    }
}

#[test]
fn postfix_forms_chain() {
    let e = parse("x.foo::<T>(1, 2)[0].bar?").unwrap();
    match e {
        Expr::Try(t) => match *t.expr {
            Expr::Field(f) => {
                assert!(f.member.is_named());
                assert!(matches!(*f.base, Expr::Index(_)));
            }
            other => panic!("{:?}", other),
        },
        other => panic!("{:?}", other),
    }
}

#[test]
fn struct_literal_not_read_before_a_block() {
    let e = parse("if x == S {}").unwrap();
    match e {
        Expr::If(i) => {
            let (_, op, r) = binary(&i.cond);
            assert_eq!(op, BinOp::Eq);
            assert!(is_path(r));
            assert_eq!(i.then_branch.stmts.len(), 0);
        }
        other => panic!("{:?}", other),
    }
}

#[test]
fn struct_literal_read_elsewhere() {
    let e = parse("S { a, b: 1, ..c }").unwrap();
    match e {
        Expr::Struct(s) => {
            assert_eq!(s.fields.len(), 2);
            assert!(!s.fields[0].colon);
            assert!(s.fields[1].colon);
            assert!(s.rest.is_some());
        }
        other => panic!("{:?}", other),
    }
}

#[test]
fn printing_gives_back_the_tokens() {
    for src in [
        "a + b * c",
        "f(x, y,)",
        "x.foo::<T, U>(1).0",
        "[1, 2, 3]",
        "[0; n]",
        "(a,)",
        "(a)",
        "()",
        "& mut x",
        "box x",
        "! - * x",
        "a as u8 as i32",
        "x: T",
        "a <- b",
        "..",
        "a ..= b",
        "return",
        "return x",
        "break 'a x",
        "continue 'a",
        "yield x",
        "m!(a b c)",
        "S { x: 1, ..y }",
        "if a { b } else if c { d } else { e }",
        "if let Some(x) | None = y { }",
        "while x { }",
        "'l: while let Some(x) = y { }",
        "for (a, .., b) in v { }",
        "loop { #![attr] x; }",
        "match x { Some(a) | None => { } _ if y => 1, }",
        "unsafe { x }",
        "async move { x }",
        "try { x }",
        "|a, (b, c), d: u8| a + b",
        "|| 0",
        "move |x| -> u8 { x }",
        "#[attr] x.y()",
        "{ #[a] let x = 1; #[b] f(); #[c] x }",
        "x = #[a] y + #[b] - z",
        "{ let a: u8 = 1; let [x, y .., z] = v; m! { } ; a }",
        "match p { S { a, ref mut b, c: 1 ... 9, .. } => 1, T(0, -1, ..) => 2 }",
    ] {
        assert_eq!(reprint(src), toks(src), "{}", src);
    }
}

#[test]
fn printing_spells_closed_ranges_in_patterns_with_three_dots() {
    assert_eq!(reprint("match x { 1 ..= 2 => y }"), toks("match x { 1 ... 2 => y }"));
}

#[test]
fn printing_leaves_out_empty_statements() {
    assert_eq!(reprint("{ ; a; ; b }"), toks("{ a; b }"));
}

#[test]
fn printing_drops_attributes_before_a_path_pattern() {
    assert_eq!(reprint("{ let #[X] X = y; }"), toks("{ let X = y; }"));
}

#[test]
fn printing_drops_inner_attributes_of_a_trailing_expression() {
    assert_eq!(reprint("{ (#![x] x) }"), toks("{ (x) }"));
}

#[test]
fn printing_leaves_out_inferred_closure_input_types() {
    assert_eq!(reprint("|x: _, y: u8| x"), toks("|x, y: u8| x"));
}

#[test]
fn printing_adds_commas_between_arms() {
    let mut e = parse("match x { a => 1, b => 2 }").unwrap();
    if let Expr::Match(m) = &mut e {
        m.arms[0].comma = false;
    }
    assert_eq!(print(&e), toks("match x { a => 1, b => 2 }"));
}

#[test]
fn printing_wraps_a_struct_condition_in_parentheses() {
    let mut e = parse("if (S { }) { }").unwrap();
    if let Expr::If(i) = &mut e {
        let inner = match &*i.cond {
            Expr::Paren(p) => parse_inner_expr(&p.expr),
            other => panic!("{:?}", other),
        };
        i.cond = Box::new(inner);
    }
    assert_eq!(print(&e), toks("if (S { }) { }"));
}

fn parse_inner_expr(e: &Expr) -> Expr {
    Expr::parse_all(&print(e)).unwrap()
}

#[test]
fn tuple_index_is_an_unnamed_member() {
    let e = parse("t.0").unwrap();
    match e {
        Expr::Field(f) => {
            assert!(f.member.is_unnamed());
            assert_eq!(f.member, Member::Unnamed(Index::from(0)));
        }
        other => panic!("{:?}", other),
    }
}

#[test]
fn suffixed_tuple_index_is_an_error() {
    let t = toks("t.0u8");
    assert_eq!(
        Expr::parse_all(&t),
        Err(ParseError { pos: 2, kind: ErrorKind::ExpectedUnsuffixedInteger })
    );
}

#[test]
fn field_needs_identifier_or_integer() {
    assert_eq!(
        parse("t.+"),
        Err(ParseError { pos: 2, kind: ErrorKind::ExpectedIdentOrInteger })
    );
}

#[test]
fn missing_operand_is_an_error() {
    assert!(parse("a +").is_err());
    assert!(parse("").is_err());
}

#[test]
fn leftover_tokens_are_an_error_at_the_first() {
    assert_eq!(parse("a b"), Err(ParseError { pos: 1, kind: ErrorKind::Unexpected }));
}

#[test]
fn statement_needs_semicolon() {
    let t = toks("a + b }");
    assert_eq!(
        parse_stmt(&t, 0),
        Err(ParseError { pos: 3, kind: ErrorKind::ExpectedSemicolon })
    );
}

#[test]
fn block_like_statement_needs_no_semicolon() {
    let t = toks("if a { } b");
    let (s, end) = parse_stmt(&t, 0).unwrap();
    assert!(matches!(s, Stmt::Expr(Expr::If(_))));
    assert_eq!(end, 4);
}

#[test]
fn items_are_not_read_as_statements() {
    let t = toks("fn f() { }");
    assert_eq!(
        parse_stmt(&t, 0),
        Err(ParseError { pos: 0, kind: ErrorKind::UnsupportedItem })
    );
}

#[test]
fn block_statements_and_last_expression() {
    let t = toks("let x = 1; x + 1");
    let (stmts, end) = Block::parse_within(&t, 0).unwrap();
    assert_eq!(end, t.len());
    assert_eq!(stmts.len(), 2);
    assert!(matches!(stmts[0], Stmt::Local(_)));
    assert!(matches!(stmts[1], Stmt::Expr(Expr::Binary(_))));
}

#[test]
fn block_stops_before_what_it_cannot_read() {
    let t = toks("a; b c");
    let (stmts, end) = Block::parse_within(&t, 0).unwrap();
    assert_eq!(stmts.len(), 2);
    assert_eq!(end, 3);
}

fn attr(style: AttrStyle, sym: u64) -> Attribute {
    Attribute { style, tts: vec![Tok::Ident(sym)] }
}

#[test]
fn replace_attrs_returns_the_old_ones() {
    let mut syms = Symbols::new();
    let mut e = Expr::parse_all(&lex("#[a] x", &mut syms)).unwrap();
    let old = e.replace_attrs(Vec::new());
    assert_eq!(old.len(), 1);
    assert_eq!(print(&e), lex("x", &mut syms));
    let back = e.replace_attrs(old);
    assert_eq!(back.len(), 0);
    assert_eq!(print(&e), toks("#[a] x"));
}

#[test]
fn replace_attrs_on_a_binary_expression() {
    let mut e = parse("a + b").unwrap();
    let old = e.replace_attrs(vec![attr(AttrStyle::Outer, 7)]);
    assert!(old.is_empty());
    assert_eq!(
        print(&e)[..4].to_vec(),
        vec![
            Tok::Punct(Punct::Pound),
            Tok::Open(Delim::Bracket),
            Tok::Ident(7),
            Tok::Close(Delim::Bracket)
        ]
    );
}

#[test]
fn take_outer_splits_by_style() {
    let mut attrs = vec![
        attr(AttrStyle::Inner, 1),
        attr(AttrStyle::Outer, 2),
        attr(AttrStyle::Inner, 3),
        attr(AttrStyle::Outer, 4),
    ];
    let outer = take_outer(&mut attrs);
    assert_eq!(outer, vec![attr(AttrStyle::Outer, 2), attr(AttrStyle::Outer, 4)]);
    assert_eq!(attrs, vec![attr(AttrStyle::Inner, 1), attr(AttrStyle::Inner, 3)]);
}

#[test]
fn arm_bodies_that_need_a_comma() {
    assert!(!arm_expr_requires_comma(&parse("{ x }").unwrap()));
    assert!(!arm_expr_requires_comma(&parse("if a { }").unwrap()));
    assert!(!arm_expr_requires_comma(&parse("match a { }").unwrap()));
    assert!(arm_expr_requires_comma(&parse("f(x)").unwrap()));
    assert!(arm_expr_requires_comma(&parse("1").unwrap()));
}

#[test]
fn precedence_levels() {
    assert_eq!(Precedence::of(&BinOp::Mul), Precedence::Term);
    assert_eq!(Precedence::of(&BinOp::Add), Precedence::Arithmetic);
    assert_eq!(Precedence::of(&BinOp::Shl), Precedence::Shift);
    assert_eq!(Precedence::of(&BinOp::Lt), Precedence::Compare);
    assert_eq!(Precedence::of(&BinOp::And), Precedence::And);
    assert_eq!(Precedence::of(&BinOp::Or), Precedence::Or);
    assert_eq!(Precedence::of(&BinOp::ShrEq), Precedence::Assign);
    assert!(Precedence::Term.rank() > Precedence::Arithmetic.rank());
    assert!(Precedence::Range.rank() > Precedence::Assign.rank());
}

#[test]
fn member_kinds() {
    let named = Member::Named(synexpr::ast::Ident { sym: 3 });
    let unnamed = Member::Unnamed(Index::from(2));
    assert!(named.is_named() && !named.is_unnamed());
    assert!(unnamed.is_unnamed() && !unnamed.is_named());
    assert_eq!(Index::from(5).index, 5);
}

#[test]
fn patterns() {
    let t = toks("(a, ref mut b @ Some(_), [x, rest .., y], &c, box d, 1 ..= 2, -3, S { e, .. })");
    let (p, end) = parse_pat(&t, 0).unwrap();
    assert_eq!(end, t.len());
    match p {
        Pat::Tuple(tu) => {
            assert_eq!(tu.front.len(), 8);
            assert!(matches!(tu.front[1], Pat::Ident(_)));
            assert!(matches!(tu.front[2], Pat::Slice(_)));
            assert!(matches!(tu.front[3], Pat::Ref(_)));
            assert!(matches!(tu.front[4], Pat::Box(_)));
            assert!(matches!(tu.front[5], Pat::Range(_)));
            assert!(matches!(tu.front[6], Pat::Lit(_)));
            assert!(matches!(tu.front[7], Pat::Struct(_)));
        }
        other => panic!("{:?}", other),
    }
}

#[test]
fn rest_patterns_in_tuples_and_slices() {
    let t = toks("(a, .., b)");
    match parse_pat(&t, 0).unwrap() {
        (Pat::Tuple(tu), end) => {
            assert_eq!(end, t.len());
            assert!(tu.dot2);
            assert_eq!(tu.front.len(), 1);
            assert_eq!(tu.back.len(), 1);
        }
        other => panic!("{:?}", other),
    }
    let t = toks("[a, b, i.., y, z]");
    match parse_pat(&t, 0).unwrap() {
        (Pat::Slice(sl), end) => {
            assert_eq!(end, t.len());
            assert!(sl.dot2);
            assert_eq!(sl.front.len(), 2);
            assert!(matches!(sl.middle.as_deref(), Some(Pat::Ident(_))));
            assert_eq!(sl.back.len(), 2);
        }
        other => panic!("{:?}", other),
    }
    let t = toks("A::B");
    assert!(matches!(parse_pat(&t, 0).unwrap(), (Pat::Path(_), 3)));
    let t = toks("-1");
    assert!(matches!(parse_pat(&t, 0).unwrap(), (Pat::Lit(_), 2)));
}

#[test]
fn return_takes_a_following_block_even_in_a_condition() {
    match parse("if return { x } {}").unwrap() {
        Expr::If(i) => match &*i.cond {
            Expr::Return(r) => assert!(matches!(r.expr.as_deref(), Some(Expr::Block(_)))),
            other => panic!("{:?}", other),
        },
        other => panic!("{:?}", other),
    }
}

#[test]
fn an_unnamed_field_needs_a_value() {
    assert!(parse("S { 0 }").is_err());
    assert!(matches!(parse("S { 0: x }").unwrap(), Expr::Struct(_)));
}

#[test]
fn postfix_forms_build_the_node_their_token_calls_for() {
    match parse("x.m(1)").unwrap() {
        Expr::MethodCall(m) => {
            assert!(matches!(*m.receiver, Expr::Path(_)));
            assert_eq!(m.args.len(), 1);
        }
        other => panic!("{:?}", other),
    }
    match parse("x.0()").unwrap() {
        Expr::Call(c) => assert!(matches!(*c.func, Expr::Field(_))),
        other => panic!("{:?}", other),
    }
    match parse("-x?").unwrap() {
        Expr::Unary(u) => assert!(matches!(*u.expr, Expr::Try(_))),
        other => panic!("{:?}", other),
    }
}

#[test]
fn logical_and_and_compound_assignment_are_binary_nodes() {
    let e = parse("a && b").unwrap();
    let (l, op, r) = binary(&e);
    assert_eq!(op, BinOp::And);
    assert!(matches!(l, Expr::Path(_)) && matches!(r, Expr::Path(_)));
    let e = parse("a += b += c").unwrap();
    let (_, op, r) = binary(&e);
    assert_eq!(op, BinOp::AddEq);
    assert!(matches!(r, Expr::Binary(_)));
}

#[test]
fn a_shorthand_field_is_its_name_as_a_path() {
    match parse("S { x }").unwrap() {
        Expr::Struct(st) => {
            assert!(!st.fields[0].colon);
            match &st.fields[0].expr {
                Expr::Path(p) => {
                    assert!(p.attrs.is_empty());
                    assert_eq!(p.path.segments.len(), 1);
                }
                other => panic!("{:?}", other),
            }
        }
        other => panic!("{:?}", other),
    }
}

#[test]
fn lone_names_in_patterns_are_bindings() {
    let t = toks("[a, b]");
    match parse_pat(&t, 0).unwrap() {
        (Pat::Slice(sl), _) => {
            for p in sl.front.iter() {
                match p {
                    Pat::Ident(i) => assert!(!i.by_ref && !i.mutability && i.subpat.is_none()),
                    other => panic!("{:?}", other),
                }
            }
        }
        other => panic!("{:?}", other),
    }
}

#[test]
fn a_block_with_tokens_left_over_is_an_error() {
    assert!(parse("{ a b }").is_err());
    assert!(parse("{ ; a; ; }").is_ok());
}

#[test]
fn reading_a_printed_range_pattern_gives_it_back() {
    for src in ["1 ..= 2", "1 .. 2", "1 ... 2"] {
        let t = toks(src);
        let (p, end) = parse_pat(&t, 0).unwrap();
        assert_eq!(end, 3);
        let mut out = Vec::new();
        print_pat(&p, &mut out);
        let (q, end2) = parse_pat(&out, 0).unwrap();
        assert_eq!(end2, out.len());
        assert_eq!(q, p);
    }
}

#[test]
fn reading_a_printed_slice_pattern_gives_it_back() {
    for src in ["[]", "[a]", "[a, b, c]"] {
        let t = toks(src);
        let (p, _) = parse_pat(&t, 0).unwrap();
        let mut out = Vec::new();
        print_pat(&p, &mut out);
        assert_eq!(out, t);
        let (q, end) = parse_pat(&out, 0).unwrap();
        assert_eq!(end, out.len());
        assert_eq!(q, p);
    }
}

#[test]
fn closure_without_inputs() {
    let e = parse("|| x").unwrap();
    match &e {
        Expr::Closure(c) => assert!(c.inputs.is_empty()),
        other => panic!("{:?}", other),
    }
    assert_eq!(print(&e), toks("|| x"));
}

#[test]
fn labeled_loops_and_blocks() {
    assert!(matches!(parse("'a: loop { break 'a; }").unwrap(), Expr::Loop(_)));
    assert!(matches!(parse("'a: { x }").unwrap(), Expr::Block(_)));
    assert!(matches!(parse("'a: for x in y { }").unwrap(), Expr::ForLoop(_)));
}

#[test]
fn macro_invocations() {
    assert!(matches!(parse("vec![1, 2]").unwrap(), Expr::Macro(_)));
    let t = toks("macro_rules! m { () => {} }");
    let (s, end) = parse_stmt(&t, 0).unwrap();
    assert!(matches!(s, Stmt::Item(_)));
    assert_eq!(end, t.len());
}

#[test]
fn tuple_index_keeps_low_bits() {
    let t = vec![Tok::Ident(0), Tok::Punct(Punct::Dot), Tok::Lit(Lit::Int((1u64 << 32) + 5))];
    match Expr::parse_all(&t).unwrap() {
        Expr::Field(f) => assert_eq!(f.member, Member::Unnamed(Index { index: 5 })),
        other => panic!("{:?}", other),
    }
}

#[test]
fn types_read_references_slices_and_tuples() {
    let t = toks("&'a mut [(u8, T,)] x");
    assert_eq!(parse_type(&t, 0).map(|(_, end)| end), Ok(t.len() - 1));
    assert!(parse_type(&toks("(u8, "), 0).is_err());
    assert!(parse_type(&toks("& mut"), 0).is_err());
    assert!(parse_type(&toks("+"), 0).is_err());
}

#[test]
fn paths_need_a_name_after_each_separator() {
    assert_eq!(parse_path(&toks("::a::b c"), 0).map(|(_, end)| end), Ok(4));
    assert!(parse_path(&toks("a::"), 0).is_err());
    assert!(parse_path(&toks("::"), 0).is_err());
}

#[test]
fn closing_delimiters_skip_inner_groups() {
    assert_eq!(find_close(&toks("( a ( b ) ) c"), 1, Delim::Paren), Ok(5));
    assert_eq!(
        find_close(&toks("( a ]"), 1, Delim::Paren),
        Err(ParseError { pos: 2, kind: ErrorKind::Unexpected })
    );
    assert!(find_close(&toks("( a"), 1, Delim::Paren).is_err());
}

#[test]
fn groups_are_kept_as_their_tokens() {
    let t = toks("[ a ( b ) ] c");
    let (d, inner, end) = parse_delimited(&t, 0).unwrap();
    assert_eq!(d, Delim::Bracket);
    assert_eq!(inner, t[1..5].to_vec());
    assert_eq!(end, 6);
    assert!(parse_delimited(&toks("[ a )"), 0).is_err());
}

#[test]
fn every_hash_must_start_an_outer_attribute() {
    assert_eq!(parse_outer(&toks("#[a] #[b::c d] x"), 0).map(|(a, end)| (a.len(), end)), Ok((2, 11)));
    assert!(parse_outer(&toks("#[a] # x"), 0).is_err());
    assert!(parse_outer(&toks("#[] x"), 0).is_err());
}

#[test]
fn an_expression_cannot_start_with_a_closing_token() {
    assert_eq!(parse(") x"), Err(ParseError { pos: 0, kind: ErrorKind::Unexpected }));
    assert_eq!(parse("=> x"), Err(ParseError { pos: 0, kind: ErrorKind::Unexpected }));
    assert_eq!(
        Expr::parse(&toks("a ; ; b"), 2),
        Err(ParseError { pos: 2, kind: ErrorKind::Unexpected })
    );
}

#[test]
fn a_pattern_cannot_start_with_an_operator() {
    assert_eq!(
        parse_pat(&toks("+ x"), 0).map(|(_, end)| end),
        Err(ParseError { pos: 0, kind: ErrorKind::Unexpected })
    );
    assert_eq!(parse_pat(&toks("ref mut x @ Some(_)"), 0).map(|(_, end)| end), Ok(8));
}

#[test]
fn statements_stop_where_none_starts() {
    let (stmts, end) = Block::parse_within(&toks("; ; + )"), 0).unwrap();
    assert!(stmts.is_empty());
    assert_eq!(end, 2);
    let (stmts, end) = Block::parse_within(&toks("; }"), 0).unwrap();
    assert!(stmts.is_empty());
    assert_eq!(end, 1);
}

#[test]
fn a_double_ampersand_before_an_operand_is_two_references() {
    let e = parse("&& mut x").unwrap();
    match &e {
        Expr::Reference(outer) => {
            assert!(!outer.mutability);
            match &*outer.expr {
                Expr::Reference(inner) => {
                    assert!(inner.mutability);
                    assert!(is_path(&inner.expr));
                }
                other => panic!("{:?}", other),
            }
        }
        other => panic!("{:?}", other),
    }
    assert_eq!(print(&e), toks("& & mut x"));
    let (p, end) = parse_pat(&toks("&&x"), 0).unwrap();
    assert_eq!(end, 2);
    assert!(matches!(p, Pat::Ref(_)));
}

#[test]
fn operators_group_by_precedence_on_chains() {
    let e = parse("1 - 2 * 3 - 4").unwrap();
    let (l, op, r) = binary(&e);
    assert_eq!(op, BinOp::Sub);
    assert!(matches!(r, Expr::Lit(_)));
    let (_, op2, r2) = binary(l);
    assert_eq!(op2, BinOp::Sub);
    assert!(matches!(binary(r2).1, BinOp::Mul));
    let e = parse("a = b = c").unwrap();
    match e {
        Expr::Assign(x) => assert!(matches!(*x.right, Expr::Assign(_))),
        other => panic!("{:?}", other),
    }
}

#[test]
fn a_block_like_statement_is_not_continued_by_an_operator() {
    let t = toks("match x {} - 1");
    let (e, end) = synexpr::parse_stmt::expr_early(&t, 0).unwrap();
    assert!(matches!(e, Expr::Match(_)));
    assert_eq!(end, 4);
}

#[test]
fn a_field_index_too_wide_is_cut_to_32_bits() {
    let e = parse("x.4294967298").unwrap();
    match e {
        Expr::Field(f) => assert_eq!(f.member, Member::Unnamed(Index { index: 2 })),
        other => panic!("{:?}", other),
    }
}
