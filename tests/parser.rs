use minic_parser::ast::{Node, NodeKind};
use minic_parser::parser::{ErrorKind, Function, ParseError, Parser};
use minic_parser::token::{Token, TokenKind};

const KEYWORDS: [&str; 5] = ["return", "if", "else", "for", "while"];

/// Splits `src` on spaces into tokens and closes the stream.
fn tokens(src: &str) -> Vec<Token> {
    let mut out = Vec::new();
    for word in src.split_whitespace() {
        let kind = if let Ok(v) = word.parse::<i32>() {
            TokenKind::Num(v)
        } else if word.chars().all(|c| c.is_ascii_alphanumeric() || c == '_')
            && !KEYWORDS.contains(&word)
        {
            TokenKind::Ident
        } else {
            TokenKind::Reserved
        };
        out.push(Token::new(kind, word));
    }
    out.push(Token::new(TokenKind::Eof, ""));
    out
}

fn parse(src: &str) -> Result<Function, ParseError> {
    let mut p = Parser::new(src, tokens(src));
    p.parse()
}

fn body(src: &str) -> Vec<Node> {
    match parse(src).unwrap().node.kind {
        NodeKind::Block(items) => items,
        other => panic!("not a block: {:?}", other),
    }
}

fn only_stmt(src: &str) -> Node {
    let mut items = body(src);
    assert_eq!(items.len(), 1);
    items.pop().unwrap()
}

fn lhs(n: &Node) -> &Node {
    n.lhs.as_deref().unwrap()
}

fn rhs(n: &Node) -> &Node {
    n.rhs.as_deref().unwrap()
}

fn is_num(n: &Node, v: i32) -> bool {
    matches!(n.kind, NodeKind::Num(x) if x == v) && n.lhs.is_none() && n.rhs.is_none()
}

fn is_var(n: &Node, name: &str) -> bool {
    matches!(&n.kind, NodeKind::Var(x) if x == name) && n.lhs.is_none() && n.rhs.is_none()
}

fn is_empty_block(n: &Node) -> bool {
    matches!(&n.kind, NodeKind::Block(v) if v.is_empty())
}

fn expr_of(stmt: &Node) -> &Node {
    assert!(matches!(stmt.kind, NodeKind::ExprStmt));
    lhs(stmt)
}

#[test]
fn product_binds_tighter_than_sum() {
    let s = only_stmt("{ 1 + 2 * 3 ; }");
    let e = expr_of(&s);
    assert!(matches!(e.kind, NodeKind::Add));
    assert!(is_num(lhs(e), 1));
    let m = rhs(e);
    assert!(matches!(m.kind, NodeKind::Mul));
    assert!(is_num(lhs(m), 2));
    assert!(is_num(rhs(m), 3));
}

#[test]
fn subtraction_folds_to_the_left() {
    let s = only_stmt("{ 7 - 2 - 1 ; }");
    let e = expr_of(&s);
    assert!(matches!(e.kind, NodeKind::Sub));
    assert!(is_num(rhs(e), 1));
    let inner = lhs(e);
    assert!(matches!(inner.kind, NodeKind::Sub));
    assert!(is_num(lhs(inner), 7));
    assert!(is_num(rhs(inner), 2));
}

#[test]
fn parentheses_override_precedence() {
    let s = only_stmt("{ ( 1 + 2 ) * 3 ; }");
    let e = expr_of(&s);
    assert!(matches!(e.kind, NodeKind::Mul));
    assert!(matches!(lhs(e).kind, NodeKind::Add));
    assert!(is_num(rhs(e), 3));
}

#[test]
fn greater_is_swapped_less() {
    let a = only_stmt("{ a > 1 ; }");
    let b = only_stmt("{ 1 < a ; }");
    assert_eq!(a, b);
    let e = expr_of(&a);
    assert!(matches!(e.kind, NodeKind::Lt));
    assert!(is_num(lhs(e), 1));
    assert!(is_var(rhs(e), "a"));
}

#[test]
fn greater_equal_is_swapped_less_equal() {
    let a = only_stmt("{ x >= 4 ; }");
    let b = only_stmt("{ 4 <= x ; }");
    assert_eq!(a, b);
    assert!(matches!(expr_of(&a).kind, NodeKind::Le));
}

#[test]
fn equality_and_inequality() {
    let s = only_stmt("{ 1 == 2 != 3 ; }");
    let e = expr_of(&s);
    assert!(matches!(e.kind, NodeKind::Ne));
    assert!(matches!(lhs(e).kind, NodeKind::Eq));
    assert!(is_num(rhs(e), 3));
}

#[test]
fn assignment_groups_to_the_right() {
    let s = only_stmt("{ a = b = 3 ; }");
    let e = expr_of(&s);
    assert!(matches!(e.kind, NodeKind::Assign));
    assert!(is_var(lhs(e), "a"));
    let inner = rhs(e);
    assert!(matches!(inner.kind, NodeKind::Assign));
    assert!(is_var(lhs(inner), "b"));
    assert!(is_num(rhs(inner), 3));
}

#[test]
fn unary_minus_is_subtraction_from_zero() {
    let s = only_stmt("{ - 5 ; }");
    let e = expr_of(&s);
    assert!(matches!(e.kind, NodeKind::Sub));
    assert!(is_num(lhs(e), 0));
    assert!(is_num(rhs(e), 5));
}

#[test]
fn unary_plus_adds_no_node() {
    let s = only_stmt("{ + + 5 ; }");
    assert!(is_num(expr_of(&s), 5));
}

#[test]
fn locals_are_collected_once_each() {
    let f = parse("{ a = 1 ; a = a + 1 ; b = 2 ; }").unwrap();
    let mut names = f.locals.clone();
    names.sort();
    assert_eq!(names, vec!["a".to_string(), "b".to_string()]);
}

#[test]
fn no_variables_no_locals() {
    let f = parse("{ return 1 ; }").unwrap();
    assert!(f.locals.is_empty());
}

#[test]
fn empty_statement_is_empty_block() {
    let s = only_stmt("{ ; }");
    assert!(is_empty_block(&s));
}

#[test]
fn empty_body_is_empty_block() {
    let f = parse("{ }").unwrap();
    assert!(is_empty_block(&f.node));
    let s = only_stmt("{ { } }");
    assert!(is_empty_block(&s));
}

#[test]
fn statements_keep_their_order() {
    let items = body("{ 1 ; 2 ; 3 ; }");
    assert_eq!(items.len(), 3);
    for (i, s) in items.iter().enumerate() {
        assert!(is_num(expr_of(s), i as i32 + 1));
    }
}

#[test]
fn return_statement() {
    let s = only_stmt("{ return a * 2 ; }");
    assert!(matches!(s.kind, NodeKind::Return));
    assert!(matches!(lhs(&s).kind, NodeKind::Mul));
}

#[test]
fn if_with_and_without_else() {
    let s = only_stmt("{ if ( a ) return 1 ; else return 2 ; }");
    match &s.kind {
        NodeKind::If { cond, then, els } => {
            assert!(is_var(cond, "a"));
            assert!(matches!(then.kind, NodeKind::Return));
            assert!(matches!(els.as_deref().unwrap().kind, NodeKind::Return));
        }
        other => panic!("not an if: {:?}", other),
    }
    let s = only_stmt("{ if ( a ) b = 1 ; }");
    assert!(matches!(&s.kind, NodeKind::If { els: None, .. }));
}

#[test]
fn full_for_header() {
    let s = only_stmt("{ for ( i = 0 ; i < 10 ; i = i + 1 ) a = a + i ; }");
    match &s.kind {
        NodeKind::For { init, cond, inc, then } => {
            assert!(matches!(init.as_deref().unwrap().kind, NodeKind::ExprStmt));
            assert!(matches!(cond.as_deref().unwrap().kind, NodeKind::Lt));
            assert!(matches!(inc.as_deref().unwrap().kind, NodeKind::Assign));
            assert!(matches!(then.kind, NodeKind::ExprStmt));
        }
        other => panic!("not a for: {:?}", other),
    }
}

#[test]
fn empty_for_header() {
    let s = only_stmt("{ for ( ; ; ) return 0 ; }");
    match &s.kind {
        NodeKind::For { init, cond, inc, then } => {
            assert!(is_empty_block(init.as_deref().unwrap()));
            assert!(cond.is_none());
            assert!(inc.is_none());
            assert!(matches!(then.kind, NodeKind::Return));
        }
        other => panic!("not a for: {:?}", other),
    }
}

#[test]
fn while_and_for_share_the_loop_shape() {
    let w = only_stmt("{ while ( a < 3 ) a = a + 1 ; }");
    let f = only_stmt("{ for ( ; a < 3 ; ) a = a + 1 ; }");
    match (&w.kind, &f.kind) {
        (
            NodeKind::For { init: wi, cond: wc, inc: wn, then: wt },
            NodeKind::For { init: fi, cond: fc, inc: fn_, then: ft },
        ) => {
            assert!(wi.is_none());
            assert!(is_empty_block(fi.as_deref().unwrap()));
            assert_eq!(wc, fc);
            assert!(wn.is_none() && fn_.is_none());
            assert_eq!(wt, ft);
        }
        _ => panic!("not loops"),
    }
}

#[test]
fn missing_operand_is_a_number_error() {
    let e = parse("{ 1 + ; }").unwrap_err();
    assert_eq!(e, ParseError { kind: ErrorKind::ExpectedNumber, pos: 3 });
}

#[test]
fn missing_terminator_is_a_token_error() {
    let e = parse("{ a = 1 }").unwrap_err();
    assert_eq!(e, ParseError { kind: ErrorKind::ExpectedToken(";".to_string()), pos: 4 });
}

#[test]
fn missing_opening_brace() {
    let e = parse("a ;").unwrap_err();
    assert_eq!(e, ParseError { kind: ErrorKind::ExpectedToken("{".to_string()), pos: 0 });
}

#[test]
fn unclosed_block_stops_at_end_of_input() {
    let e = parse("{ a ;").unwrap_err();
    assert_eq!(e, ParseError { kind: ErrorKind::ExpectedNumber, pos: 3 });
}

#[test]
fn unclosed_parenthesis() {
    let e = parse("{ ( 1 ; }").unwrap_err();
    assert_eq!(e, ParseError { kind: ErrorKind::ExpectedToken(")".to_string()), pos: 3 });
}

#[test]
fn primitives_move_the_cursor() {
    let src = "{ 42 x }";
    let mut p = Parser::new(src, tokens(src));
    assert!(!p.consume("}"));
    assert!(p.consume("{"));
    assert_eq!(p.expect("{"), Err(ParseError { kind: ErrorKind::ExpectedToken("{".to_string()), pos: 1 }));
    assert_eq!(p.expect_number(), Ok(42));
    assert_eq!(p.expect_number(), Err(ParseError { kind: ErrorKind::ExpectedNumber, pos: 2 }));
    assert!(!p.at_eof());
    assert_eq!(p.error_at(ErrorKind::ExpectedNumber).pos, 2);
    let mut q = Parser::new("", tokens(""));
    assert!(q.at_eof());
    assert!(!q.consume(""));
}

#[test]
fn parser_keeps_the_source_text() {
    let src = "{ a ; }";
    let p = Parser::new(src, tokens(src));
    assert_eq!(p.source(), src);
}
