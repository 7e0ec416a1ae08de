//! The recursive-descent parser. Each grammar procedure returns the tree of
//! the rule it is named after, as `crate::grammar` defines it, or the first
//! mismatch; no procedure panics.
use vstd::prelude::*;
use crate::ast::{node_wf, nodes_wf, Ast, Node, NodeKind};
use crate::grammar;
use crate::grammar::{idents, is_op, Mismatch, Outcome};
use crate::token::{Token, TokenKind};

verus! {

/// What the parser expected where it stopped.
#[derive(Debug, Clone, PartialEq, Eq)]
pub enum ErrorKind {
    /// The reserved token with this text.
    ExpectedToken(String),
    /// An integer literal.
    ExpectedNumber,
}

/// The first grammar violation: what was expected, at which token index.
#[derive(Debug, Clone, PartialEq, Eq)]
pub struct ParseError {
    pub kind: ErrorKind,
    pub pos: usize,
}

impl View for ParseError {
    type V = Mismatch;

    open spec fn view(&self) -> Mismatch {
        (
            self.pos as int,
            match self.kind {
                ErrorKind::ExpectedToken(s) => Some(s@),
                ErrorKind::ExpectedNumber => None,
            },
        )
    }
}

/// A parsed function body with the names of the variables it refers to.
#[derive(Debug)]
pub struct Function {
    pub node: Node,
    pub locals: Vec<String>,
}

/// The names held by a list of strings.
pub open spec fn name_set(v: Seq<String>) -> Set<Seq<char>> {
    Set::new(|s: Seq<char>| exists|k: int| 0 <= k < v.len() && v[k]@ == s)
}

/// No name occurs twice in the list.
pub open spec fn distinct_names(v: Seq<String>) -> bool {
    forall|a: int, b: int| 0 <= a < b < v.len() ==> v[a]@ != v[b]@
}

/// The identifiers among the first `c + 1` tokens are those among the first
/// `c`, and the token at `c` if it is one.
proof fn lemma_idents_step(ts: Seq<Token>, c: int)
    requires
        0 <= c < ts.len(),
    ensures
        idents(ts, 0, c + 1) == (if ts[c].kind == TokenKind::Ident {
            idents(ts, 0, c).insert(ts[c].raw_str@)
        } else {
            idents(ts, 0, c)
        }),
{
    if ts[c].kind == TokenKind::Ident {
        assert(idents(ts, 0, c + 1) =~= idents(ts, 0, c).insert(ts[c].raw_str@));
    } else {
        assert(idents(ts, 0, c + 1) =~= idents(ts, 0, c));
    }
}

/// Parser state: the tokens, the index of the next unread one, and the
/// names of the variables read so far.
pub struct Parser {
    source: String,
    tokens: Vec<Token>,
    cursor: usize,
    locals: Vec<String>,
}

impl Parser {
    /// The tokens that this parser reads.
    pub closed spec fn tokens_view(&self) -> Seq<Token> {
        self.tokens@
    }

    /// The index of the next unread token.
    pub closed spec fn cursor_view(&self) -> int {
        self.cursor as int
    }

    /// The names of the variables read so far.
    pub closed spec fn locals_view(&self) -> Set<Seq<char>> {
        name_set(self.locals@)
    }

    /// The source text that diagnostics quote.
    pub closed spec fn source_view(&self) -> Seq<char> {
        self.source@
    }

    /// The stream ends with the end-of-input token, the cursor stands on a
    /// token, and the names read so far are exactly the identifiers before it.
    pub closed spec fn wf(&self) -> bool {
        &&& self.tokens@.len() > 0
        &&& self.tokens@.last().kind == TokenKind::Eof
        &&& self.cursor < self.tokens@.len()
        &&& distinct_names(self.locals@)
        &&& name_set(self.locals@) == idents(self.tokens@, 0, self.cursor as int)
    }

    /// `next` is this state after a grammar procedure that gave `r`, where
    /// the grammar gives `s` from this state's cursor.
    pub open spec fn follows(self, next: Parser, r: Result<Node, ParseError>, s: Outcome) -> bool {
        &&& next.wf()
        &&& next.tokens_view() == self.tokens_view()
        &&& next.source_view() == self.source_view()
        &&& match r {
            Ok(n) => {
                &&& s is Ok
                &&& node_wf(n)
                &&& n@ == s->Ok_0.0
                &&& next.cursor_view() == s->Ok_0.1
                &&& self.cursor_view() < next.cursor_view()
            },
            Err(e) => s is Err && e@ == s->Err_0,
        }
    }

    pub fn new(source: &str, tokens: Vec<Token>) -> (r: Parser)
        requires
            tokens@.len() > 0,
            tokens@.last().kind == TokenKind::Eof,
        ensures
            r.wf(),
            r.tokens_view() == tokens@,
            r.source_view() == source@,
            r.cursor_view() == 0,
            r.locals_view() == Set::<Seq<char>>::empty(),
    {
        let r = Parser { source: source.to_owned(), tokens, cursor: 0, locals: Vec::new() };
        assert(name_set(r.locals@) =~= idents(r.tokens@, 0, 0));
        assert(name_set(r.locals@) =~= Set::<Seq<char>>::empty());
        r
    }

    /// Moves past the next token if it is the reserved token `op`.
    pub fn consume(&mut self, op: &str) -> (r: bool)
        requires
            old(self).wf(),
        ensures
            final(self).wf(),
            final(self).tokens_view() == old(self).tokens_view(),
            final(self).source_view() == old(self).source_view(),
            final(self).locals_view() == old(self).locals_view(),
            r == is_op(old(self).tokens_view(), old(self).cursor_view(), op@),
            final(self).cursor_view() == old(self).cursor_view() + if r { 1int } else { 0int },
    {
        let token = &self.tokens[self.cursor];
        if token.kind != TokenKind::Reserved || !(token.raw_str == op.to_owned()) {
            return false;
        }
        proof {
            lemma_idents_step(self.tokens@, self.cursor as int);
            if self.cursor + 1 == self.tokens.len() {
                assert(self.tokens@.last() == self.tokens@[self.cursor as int]);
            }
        }
        self.cursor = self.cursor + 1;
        true
    }

    /// Moves past the reserved token `op`, which must come next.
    pub fn expect(&mut self, op: &str) -> (r: Result<(), ParseError>)
        requires
            old(self).wf(),
        ensures
            final(self).wf(),
            final(self).tokens_view() == old(self).tokens_view(),
            final(self).source_view() == old(self).source_view(),
            r is Ok == is_op(old(self).tokens_view(), old(self).cursor_view(), op@),
            r is Ok ==> final(self).cursor_view() == old(self).cursor_view() + 1,
            r matches Err(e) ==> e@ == (old(self).cursor_view(), Some(op@)),
    {
        if self.consume(op) {
            Ok(())
        } else {
            Err(self.error_at(ErrorKind::ExpectedToken(op.to_owned())))
        }
    }

    /// Moves past the integer literal that must come next, and gives its value.
    pub fn expect_number(&mut self) -> (r: Result<i32, ParseError>)
        requires
            old(self).wf(),
        ensures
            final(self).wf(),
            final(self).tokens_view() == old(self).tokens_view(),
            final(self).source_view() == old(self).source_view(),
            match r {
                Ok(v) => {
                    &&& old(self).tokens_view()[old(self).cursor_view()].kind == TokenKind::Num(v)
                    &&& final(self).cursor_view() == old(self).cursor_view() + 1
                },
                Err(e) => {
                    &&& !(old(self).tokens_view()[old(self).cursor_view()].kind is Num)
                    &&& e@ == (old(self).cursor_view(), None::<Seq<char>>)
                },
            },
    {
        let token = &self.tokens[self.cursor];
        match token.kind {
            TokenKind::Num(value) => {
                proof {
                    lemma_idents_step(self.tokens@, self.cursor as int);
                    if self.cursor + 1 == self.tokens.len() {
                        assert(self.tokens@.last() == self.tokens@[self.cursor as int]);
                    }
                }
                self.cursor = self.cursor + 1;
                Ok(value)
            },
            _ => Err(self.error_at(ErrorKind::ExpectedNumber)),
        }
    }

    /// The next token is the end of input.
    pub fn at_eof(&self) -> (r: bool)
        requires
            self.wf(),
        ensures
            r == (self.tokens_view()[self.cursor_view()].kind == TokenKind::Eof),
    {
        self.tokens[self.cursor].kind == TokenKind::Eof
    }

    /// The source text that diagnostics quote.
    pub fn source(&self) -> (r: &str)
        ensures
            r@ == self.source_view(),
    {
        self.source.as_str()
    }

    /// The error of kind `kind` at the next token.
    pub fn error_at(&self, kind: ErrorKind) -> (e: ParseError)
        ensures
            e.pos as int == self.cursor_view(),
            e.kind == kind,
    {
        ParseError { kind, pos: self.cursor }
    }

    /// Parses a whole function body: `{`, statements, `}`. The locals are
    /// the names of the identifiers read on the way.
    pub fn parse(&mut self) -> (r: Result<Function, ParseError>)
        requires
            old(self).wf(),
            old(self).cursor_view() == 0,
        ensures
            final(self).wf(),
            match r {
                Ok(f) => {
                    let s = grammar::program(old(self).tokens_view());
                    &&& s is Ok
                    &&& node_wf(f.node)
                    &&& f.node@ == s->Ok_0.0
                    &&& name_set(f.locals@) == idents(old(self).tokens_view(), 0, s->Ok_0.1)
                    &&& distinct_names(f.locals@)
                },
                Err(e) => grammar::program(old(self).tokens_view()) == Err::<(Ast, int), Mismatch>(e@),
            },
    {
        match self.expect("{") {
            Ok(()) => {},
            Err(e) => return Err(e),
        }
        let node = match self.compound_stmt() {
            Ok(n) => n,
            Err(e) => return Err(e),
        };
        let mut locals: Vec<String> = Vec::new();
        let mut i: usize = 0;
        while i < self.locals.len()
            invariant
                self.wf(),
                i <= self.locals.len(),
                locals@.len() == i,
                distinct_names(self.locals@),
                forall|k: int| 0 <= k < i ==> locals@[k]@ == self.locals@[k]@,
            decreases self.locals.len() - i,
        {
            locals.push(self.locals[i].clone());
            i = i + 1;
        }
        assert(name_set(locals@) =~= name_set(self.locals@)) by {
            assert forall|s: Seq<char>| name_set(locals@).contains(s) implies name_set(self.locals@).contains(s) by {
                let k = choose|k: int| 0 <= k < locals@.len() && locals@[k]@ == s;
                assert(self.locals@[k]@ == s);
            }
            assert forall|s: Seq<char>| name_set(self.locals@).contains(s) implies name_set(locals@).contains(s) by {
                let k = choose|k: int| 0 <= k < self.locals@.len() && self.locals@[k]@ == s;
                assert(locals@[k]@ == s);
            }
        }
        Ok(Function { node, locals })
    }

    /// One statement.
    fn stmt(&mut self) -> (r: Result<Node, ParseError>)
        requires
            old(self).wf(),
        ensures
            old(self).follows(*final(self), r, grammar::stmt(old(self).tokens_view(), old(self).cursor_view())),
        decreases old(self).tokens@.len() - old(self).cursor, 14int,
    {
        let ghost ts = self.tokens@;
        let ghost c0 = self.cursor as int;
        if self.consume("return") {
            let n = match self.expr() {
                Ok(n) => n,
                Err(e) => return Err(e),
            };
            match self.expect(";") {
                Ok(()) => {},
                Err(e) => return Err(e),
            }
            return Ok(Node { kind: NodeKind::Return, lhs: Some(Box::new(n)), rhs: None });
        }
        if self.consume("if") {
            match self.expect("(") {
                Ok(()) => {},
                Err(e) => return Err(e),
            }
            let cond = match self.expr() {
                Ok(n) => n,
                Err(e) => return Err(e),
            };
            match self.expect(")") {
                Ok(()) => {},
                Err(e) => return Err(e),
            }
            let then = match self.stmt() {
                Ok(n) => n,
                Err(e) => return Err(e),
            };
            let mut els: Option<Box<Node>> = None;
            if self.consume("else") {
                match self.stmt() {
                    Ok(n) => {
                        els = Some(Box::new(n));
                    },
                    Err(e) => return Err(e),
                }
            }
            return Ok(
                Node {
                    kind: NodeKind::If { cond: Box::new(cond), then: Box::new(then), els },
                    lhs: None,
                    rhs: None,
                },
            );
        }
        if self.consume("for") {
            match self.expect("(") {
                Ok(()) => {},
                Err(e) => return Err(e),
            }
            assert(grammar::stmt(ts, c0) == grammar::for_stmt(ts, c0, c0 + 2));
            let init = match self.expr_stmt() {
                Ok(n) => n,
                Err(e) => return Err(e),
            };
            let mut cond: Option<Box<Node>> = None;
            if !self.consume(";") {
                match self.expr() {
                    Ok(n) => {
                        cond = Some(Box::new(n));
                    },
                    Err(e) => return Err(e),
                }
                match self.expect(";") {
                    Ok(()) => {},
                    Err(e) => return Err(e),
                }
            }
            let mut inc: Option<Box<Node>> = None;
            if !self.consume(")") {
                match self.expr() {
                    Ok(n) => {
                        inc = Some(Box::new(n));
                    },
                    Err(e) => return Err(e),
                }
                match self.expect(")") {
                    Ok(()) => {},
                    Err(e) => return Err(e),
                }
            }
            let then = match self.stmt() {
                Ok(n) => n,
                Err(e) => return Err(e),
            };
            return Ok(
                Node {
                    kind: NodeKind::For { init: Some(Box::new(init)), cond, inc, then: Box::new(then) },
                    lhs: None,
                    rhs: None,
                },
            );
        }
        if self.consume("while") {
            match self.expect("(") {
                Ok(()) => {},
                Err(e) => return Err(e),
            }
            let cond = match self.expr() {
                Ok(n) => n,
                Err(e) => return Err(e),
            };
            match self.expect(")") {
                Ok(()) => {},
                Err(e) => return Err(e),
            }
            let then = match self.stmt() {
                Ok(n) => n,
                Err(e) => return Err(e),
            };
            return Ok(
                Node {
                    kind: NodeKind::For { init: None, cond: Some(Box::new(cond)), inc: None, then: Box::new(then) },
                    lhs: None,
                    rhs: None,
                },
            );
        }
        if self.consume("{") {
            return self.compound_stmt();
        }
        self.expr_stmt()
    }

    /// The statements of a block whose `{` has been read, up to and
    /// including its `}`.
    fn compound_stmt(&mut self) -> (r: Result<Node, ParseError>)
        requires
            old(self).wf(),
        ensures
            old(self).follows(
                *final(self),
                r,
                grammar::block_of(
                    grammar::block_items(old(self).tokens_view(), old(self).cursor_view(), Seq::empty()),
                ),
            ),
        decreases old(self).tokens@.len() - old(self).cursor, 15int,
    {
        let ghost ts = self.tokens@;
        let ghost c0 = self.cursor as int;
        let ghost src = self.source@;
        let mut nodes: Vec<Node> = Vec::new();
        assert(crate::ast::views_of(nodes@) =~= Seq::<Ast>::empty());
        loop
            invariant
                self.wf(),
                nodes_wf(nodes@),
                self.tokens@ == ts,
                self.source@ == src,
                c0 <= self.cursor,
                c0 == old(self).cursor,
                ts == old(self).tokens@,
                src == old(self).source@,
                grammar::block_items(ts, c0, Seq::empty()) == grammar::block_items(
                    ts,
                    self.cursor as int,
                    crate::ast::views_of(nodes@),
                ),
            decreases self.tokens@.len() - self.cursor,
        {
            if self.consume("}") {
                return Ok(Node { kind: NodeKind::Block(nodes), lhs: None, rhs: None });
            }
            let ghost before = nodes@;
            match self.stmt() {
                Ok(n) => {
                    nodes.push(n);
                    assert(nodes@.drop_last() =~= before);
                },
                Err(e) => return Err(e),
            }
        }
    }

    /// An expression followed by `;`, or `;` alone (an empty block).
    fn expr_stmt(&mut self) -> (r: Result<Node, ParseError>)
        requires
            old(self).wf(),
        ensures
            old(self).follows(*final(self), r, grammar::expr_stmt(old(self).tokens_view(), old(self).cursor_view())),
        decreases old(self).tokens@.len() - old(self).cursor, 13int,
    {
        if self.consume(";") {
            let empty: Vec<Node> = Vec::new();
            assert(crate::ast::views_of(empty@) =~= Seq::<Ast>::empty());
            assert(nodes_wf(empty@));
            return Ok(Node { kind: NodeKind::Block(empty), lhs: None, rhs: None });
        }
        let n = match self.expr() {
            Ok(n) => n,
            Err(e) => return Err(e),
        };
        match self.expect(";") {
            Ok(()) => {},
            Err(e) => return Err(e),
        }
        Ok(Node { kind: NodeKind::ExprStmt, lhs: Some(Box::new(n)), rhs: None })
    }

    /// An expression.
    fn expr(&mut self) -> (r: Result<Node, ParseError>)
        requires
            old(self).wf(),
        ensures
            old(self).follows(*final(self), r, grammar::assign(old(self).tokens_view(), old(self).cursor_view())),
        decreases old(self).tokens@.len() - old(self).cursor, 12int,
    {
        self.assign()
    }

    /// Equalities joined by `=`, grouped to the right.
    fn assign(&mut self) -> (r: Result<Node, ParseError>)
        requires
            old(self).wf(),
        ensures
            old(self).follows(*final(self), r, grammar::assign(old(self).tokens_view(), old(self).cursor_view())),
        decreases old(self).tokens@.len() - old(self).cursor, 11int,
    {
        let mut node = match self.equality() {
            Ok(n) => n,
            Err(e) => return Err(e),
        };
        if self.consume("=") {
            match self.assign() {
                Ok(r) => {
                    node = Node { kind: NodeKind::Assign, lhs: Some(Box::new(node)), rhs: Some(Box::new(r)) };
                },
                Err(e) => return Err(e),
            }
        }
        Ok(node)
    }

    /// Comparisons for equality, folded to the left.
    fn equality(&mut self) -> (r: Result<Node, ParseError>)
        requires
            old(self).wf(),
        ensures
            old(self).follows(*final(self), r, grammar::equality(old(self).tokens_view(), old(self).cursor_view())),
        decreases old(self).tokens@.len() - old(self).cursor, 10int,
    {
        let ghost ts = self.tokens@;
        let ghost c0 = self.cursor as int;
        let ghost src = self.source@;
        let mut node = match self.relational() {
            Ok(n) => n,
            Err(e) => return Err(e),
        };
        loop
            invariant
                self.wf(),
                self.tokens@ == ts,
                self.source@ == src,
                c0 < self.cursor,
                node_wf(node),
                c0 == old(self).cursor,
                ts == old(self).tokens@,
                src == old(self).source@,
                grammar::equality(ts, c0) == grammar::equality_rest(ts, self.cursor as int, node@),
            decreases self.tokens@.len() - self.cursor,
        {
            if self.consume("==") {
                let rhs = match self.relational() {
                    Ok(n) => n,
                    Err(e) => return Err(e),
                };
                node = Node { kind: NodeKind::Eq, lhs: Some(Box::new(node)), rhs: Some(Box::new(rhs)) };
            } else if self.consume("!=") {
                let rhs = match self.relational() {
                    Ok(n) => n,
                    Err(e) => return Err(e),
                };
                node = Node { kind: NodeKind::Ne, lhs: Some(Box::new(node)), rhs: Some(Box::new(rhs)) };
            } else {
                return Ok(node);
            }
        }
    }

    /// Orderings, folded to the left; `a > b` is kept as `b < a`, `a >= b` as `b <= a`.
    fn relational(&mut self) -> (r: Result<Node, ParseError>)
        requires
            old(self).wf(),
        ensures
            old(self).follows(*final(self), r, grammar::relational(old(self).tokens_view(), old(self).cursor_view())),
        decreases old(self).tokens@.len() - old(self).cursor, 8int,
    {
        let ghost ts = self.tokens@;
        let ghost c0 = self.cursor as int;
        let ghost src = self.source@;
        let mut node = match self.add() {
            Ok(n) => n,
            Err(e) => return Err(e),
        };
        loop
            invariant
                self.wf(),
                self.tokens@ == ts,
                self.source@ == src,
                c0 < self.cursor,
                node_wf(node),
                c0 == old(self).cursor,
                ts == old(self).tokens@,
                src == old(self).source@,
                grammar::relational(ts, c0) == grammar::relational_rest(ts, self.cursor as int, node@),
            decreases self.tokens@.len() - self.cursor,
        {
            if self.consume("<") {
                let rhs = match self.add() {
                    Ok(n) => n,
                    Err(e) => return Err(e),
                };
                node = Node { kind: NodeKind::Lt, lhs: Some(Box::new(node)), rhs: Some(Box::new(rhs)) };
            } else if self.consume("<=") {
                let rhs = match self.add() {
                    Ok(n) => n,
                    Err(e) => return Err(e),
                };
                node = Node { kind: NodeKind::Le, lhs: Some(Box::new(node)), rhs: Some(Box::new(rhs)) };
            } else if self.consume(">") {
                let rhs = match self.add() {
                    Ok(n) => n,
                    Err(e) => return Err(e),
                };
                node = Node { kind: NodeKind::Lt, lhs: Some(Box::new(rhs)), rhs: Some(Box::new(node)) };
            } else if self.consume(">=") {
                let rhs = match self.add() {
                    Ok(n) => n,
                    Err(e) => return Err(e),
                };
                node = Node { kind: NodeKind::Le, lhs: Some(Box::new(rhs)), rhs: Some(Box::new(node)) };
            } else {
                return Ok(node);
            }
        }
    }

    /// Sums and differences, folded to the left.
    fn add(&mut self) -> (r: Result<Node, ParseError>)
        requires
            old(self).wf(),
        ensures
            old(self).follows(*final(self), r, grammar::additive(old(self).tokens_view(), old(self).cursor_view())),
        decreases old(self).tokens@.len() - old(self).cursor, 6int,
    {
        let ghost ts = self.tokens@;
        let ghost c0 = self.cursor as int;
        let ghost src = self.source@;
        let mut node = match self.mul() {
            Ok(n) => n,
            Err(e) => return Err(e),
        };
        loop
            invariant
                self.wf(),
                self.tokens@ == ts,
                self.source@ == src,
                c0 < self.cursor,
                node_wf(node),
                c0 == old(self).cursor,
                ts == old(self).tokens@,
                src == old(self).source@,
                grammar::additive(ts, c0) == grammar::additive_rest(ts, self.cursor as int, node@),
            decreases self.tokens@.len() - self.cursor,
        {
            if self.consume("+") {
                let rhs = match self.mul() {
                    Ok(n) => n,
                    Err(e) => return Err(e),
                };
                node = Node { kind: NodeKind::Add, lhs: Some(Box::new(node)), rhs: Some(Box::new(rhs)) };
            } else if self.consume("-") {
                let rhs = match self.mul() {
                    Ok(n) => n,
                    Err(e) => return Err(e),
                };
                node = Node { kind: NodeKind::Sub, lhs: Some(Box::new(node)), rhs: Some(Box::new(rhs)) };
            } else {
                return Ok(node);
            }
        }
    }

    /// Products and quotients, folded to the left.
    fn mul(&mut self) -> (r: Result<Node, ParseError>)
        requires
            old(self).wf(),
        ensures
            old(self).follows(*final(self), r, grammar::multiplicative(old(self).tokens_view(), old(self).cursor_view())),
        decreases old(self).tokens@.len() - old(self).cursor, 4int,
    {
        let ghost ts = self.tokens@;
        let ghost c0 = self.cursor as int;
        let ghost src = self.source@;
        let mut node = match self.unary() {
            Ok(n) => n,
            Err(e) => return Err(e),
        };
        loop
            invariant
                self.wf(),
                self.tokens@ == ts,
                self.source@ == src,
                c0 < self.cursor,
                node_wf(node),
                c0 == old(self).cursor,
                ts == old(self).tokens@,
                src == old(self).source@,
                grammar::multiplicative(ts, c0) == grammar::multiplicative_rest(ts, self.cursor as int, node@),
            decreases self.tokens@.len() - self.cursor,
        {
            if self.consume("*") {
                let rhs = match self.unary() {
                    Ok(n) => n,
                    Err(e) => return Err(e),
                };
                node = Node { kind: NodeKind::Mul, lhs: Some(Box::new(node)), rhs: Some(Box::new(rhs)) };
            } else if self.consume("/") {
                let rhs = match self.unary() {
                    Ok(n) => n,
                    Err(e) => return Err(e),
                };
                node = Node { kind: NodeKind::Div, lhs: Some(Box::new(node)), rhs: Some(Box::new(rhs)) };
            } else {
                return Ok(node);
            }
        }
    }

    /// Prefix `+` (no node) and prefix `-` (subtraction from zero).
    fn unary(&mut self) -> (r: Result<Node, ParseError>)
        requires
            old(self).wf(),
        ensures
            old(self).follows(*final(self), r, grammar::unary(old(self).tokens_view(), old(self).cursor_view())),
        decreases old(self).tokens@.len() - old(self).cursor, 2int,
    {
        if self.consume("+") {
            return self.unary();
        }
        if self.consume("-") {
            let operand = match self.unary() {
                Ok(n) => n,
                Err(e) => return Err(e),
            };
            let zero = Node { kind: NodeKind::Num(0), lhs: None, rhs: None };
            assert(zero@ == Ast::Num(0));
            assert(node_wf(zero));
            return Ok(Node { kind: NodeKind::Sub, lhs: Some(Box::new(zero)), rhs: Some(Box::new(operand)) });
        }
        self.primary()
    }

    /// A parenthesised expression, a variable or an integer literal.
    fn primary(&mut self) -> (r: Result<Node, ParseError>)
        requires
            old(self).wf(),
        ensures
            old(self).follows(*final(self), r, grammar::primary(old(self).tokens_view(), old(self).cursor_view())),
        decreases old(self).tokens@.len() - old(self).cursor, 1int,
    {
        if self.consume("(") {
            let node = match self.expr() {
                Ok(n) => n,
                Err(e) => return Err(e),
            };
            match self.expect(")") {
                Ok(()) => {},
                Err(e) => return Err(e),
            }
            return Ok(node);
        }
        if self.tokens[self.cursor].kind == TokenKind::Ident {
            let name = self.tokens[self.cursor].raw_str.clone();
            self.insert_local(&name);
            proof {
                lemma_idents_step(self.tokens@, self.cursor as int);
                if self.cursor + 1 == self.tokens.len() {
                    assert(self.tokens@.last() == self.tokens@[self.cursor as int]);
                }
            }
            self.cursor = self.cursor + 1;
            return Ok(Node { kind: NodeKind::Var(name), lhs: None, rhs: None });
        }
        match self.expect_number() {
            Ok(v) => Ok(Node { kind: NodeKind::Num(v), lhs: None, rhs: None }),
            Err(e) => Err(e),
        }
    }

    /// Adds `name` to the locals unless it is there already.
    fn insert_local(&mut self, name: &String)
        requires
            distinct_names(old(self).locals@),
        ensures
            distinct_names(final(self).locals@),
            name_set(final(self).locals@) == name_set(old(self).locals@).insert(name@),
            final(self).tokens@ == old(self).tokens@,
            final(self).source@ == old(self).source@,
            final(self).cursor == old(self).cursor,
    {
        let mut i: usize = 0;
        while i < self.locals.len()
            invariant
                i <= self.locals.len(),
                distinct_names(self.locals@),
                forall|k: int| 0 <= k < i ==> self.locals@[k]@ != name@,
            decreases self.locals.len() - i,
        {
            if self.locals[i] == *name {
                assert(name_set(self.locals@) =~= name_set(self.locals@).insert(name@));
                return;
            }
            i = i + 1;
        }
        let ghost before = self.locals@;
        self.locals.push(name.clone());
        assert(name_set(self.locals@) =~= name_set(before).insert(name@)) by {
            assert forall|s: Seq<char>| name_set(self.locals@).contains(s) implies name_set(before).insert(name@).contains(s) by {
                let k = choose|k: int| 0 <= k < self.locals@.len() && self.locals@[k]@ == s;
                if k < before.len() {
                    assert(self.locals@[k] == before[k]);
                }
            }
            assert forall|s: Seq<char>| name_set(before).insert(name@).contains(s) implies name_set(self.locals@).contains(s) by {
                if s == name@ {
                    assert(self.locals@[before.len() as int]@ == s);
                } else {
                    let k = choose|k: int| 0 <= k < before.len() && before[k]@ == s;
                    assert(self.locals@[k] == before[k]);
                }
            }
        }
    }
}

} // verus!
