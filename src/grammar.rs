//! The grammar as spec functions over a token sequence.
//!
//! Each function takes the index of the first token it may read and gives
//! either the tree it recognises with the index just past it, or the
//! position of the first token that does not fit with what was expected
//! there (`Some(op)`: the reserved token `op`; `None`: a number).
use vstd::prelude::*;
use crate::ast::Ast;
use crate::token::{Token, TokenKind};

verus! {

/// Where the first mismatch is and what was expected there.
pub type Mismatch = (int, Option<Seq<char>>);

/// The result of one grammar rule started at some index.
pub type Outcome = Result<(Ast, int), Mismatch>;

/// The token at `i` is the reserved token `op`.
pub open spec fn is_op(ts: Seq<Token>, i: int, op: Seq<char>) -> bool {
    0 <= i < ts.len() && ts[i].kind == TokenKind::Reserved && ts[i].raw_str@ == op
}

/// The names of the identifiers among the tokens at `a .. b`.
pub open spec fn idents(ts: Seq<Token>, a: int, b: int) -> Set<Seq<char>> {
    Set::new(|s: Seq<char>| exists|k: int| a <= k < b && ts[k].kind == TokenKind::Ident && ts[k].raw_str@ == s)
}

/// `r`, followed by the reserved token `op`.
pub open spec fn closed_by(ts: Seq<Token>, r: Outcome, op: Seq<char>) -> Outcome {
    match r {
        Ok((n, j)) => if is_op(ts, j, op) {
            Ok((n, j + 1))
        } else {
            Err((j, Some(op)))
        },
        Err(e) => Err(e),
    }
}

/// Parenthesised expression, identifier or integer literal.
pub open spec fn primary(ts: Seq<Token>, i: int) -> Outcome
    decreases ts.len() - i, 1int,
{
    if is_op(ts, i, "("@) {
        closed_by(ts, assign(ts, i + 1), ")"@)
    } else if 0 <= i < ts.len() && ts[i].kind == TokenKind::Ident {
        Ok((Ast::Var(ts[i].raw_str@), i + 1))
    } else if 0 <= i < ts.len() && ts[i].kind is Num {
        Ok((Ast::Num(ts[i].kind->Num_0), i + 1))
    } else {
        Err((i, None))
    }
}

/// Prefix `+` (no node) and prefix `-` (subtraction from zero).
pub open spec fn unary(ts: Seq<Token>, i: int) -> Outcome
    decreases ts.len() - i, 2int,
{
    if is_op(ts, i, "+"@) {
        unary(ts, i + 1)
    } else if is_op(ts, i, "-"@) {
        match unary(ts, i + 1) {
            Ok((n, j)) => Ok((Ast::Sub(Box::new(Ast::Num(0)), Box::new(n)), j)),
            Err(e) => Err(e),
        }
    } else {
        primary(ts, i)
    }
}

/// The `*` / `/` operations that follow `lhs`, folded to the left.
pub open spec fn multiplicative_rest(ts: Seq<Token>, i: int, lhs: Ast) -> Outcome
    decreases ts.len() - i, 3int,
{
    if is_op(ts, i, "*"@) || is_op(ts, i, "/"@) {
        match unary(ts, i + 1) {
            Ok((r, j)) => {
                let n = if is_op(ts, i, "*"@) {
                    Ast::Mul(Box::new(lhs), Box::new(r))
                } else {
                    Ast::Div(Box::new(lhs), Box::new(r))
                };
                if i < j < ts.len() {
                    multiplicative_rest(ts, j, n)
                } else {
                    Ok((n, j))
                }
            },
            Err(e) => Err(e),
        }
    } else {
        Ok((lhs, i))
    }
}

/// Products and quotients of unary expressions.
pub open spec fn multiplicative(ts: Seq<Token>, i: int) -> Outcome
    decreases ts.len() - i, 4int,
{
    match unary(ts, i) {
        Ok((n, j)) => if i < j < ts.len() {
            multiplicative_rest(ts, j, n)
        } else {
            Ok((n, j))
        },
        Err(e) => Err(e),
    }
}

/// The `+` / `-` operations that follow `lhs`, folded to the left.
pub open spec fn additive_rest(ts: Seq<Token>, i: int, lhs: Ast) -> Outcome
    decreases ts.len() - i, 5int,
{
    if is_op(ts, i, "+"@) || is_op(ts, i, "-"@) {
        match multiplicative(ts, i + 1) {
            Ok((r, j)) => {
                let n = if is_op(ts, i, "+"@) {
                    Ast::Add(Box::new(lhs), Box::new(r))
                } else {
                    Ast::Sub(Box::new(lhs), Box::new(r))
                };
                if i < j < ts.len() {
                    additive_rest(ts, j, n)
                } else {
                    Ok((n, j))
                }
            },
            Err(e) => Err(e),
        }
    } else {
        Ok((lhs, i))
    }
}

/// Sums and differences of products.
pub open spec fn additive(ts: Seq<Token>, i: int) -> Outcome
    decreases ts.len() - i, 6int,
{
    match multiplicative(ts, i) {
        Ok((n, j)) => if i < j < ts.len() {
            additive_rest(ts, j, n)
        } else {
            Ok((n, j))
        },
        Err(e) => Err(e),
    }
}

/// The comparisons that follow `lhs`, folded to the left; `a > b` is kept
/// as `b < a` and `a >= b` as `b <= a`.
pub open spec fn relational_rest(ts: Seq<Token>, i: int, lhs: Ast) -> Outcome
    decreases ts.len() - i, 7int,
{
    if is_op(ts, i, "<"@) || is_op(ts, i, "<="@) || is_op(ts, i, ">"@) || is_op(ts, i, ">="@) {
        match additive(ts, i + 1) {
            Ok((r, j)) => {
                let n = if is_op(ts, i, "<"@) {
                    Ast::Lt(Box::new(lhs), Box::new(r))
                } else if is_op(ts, i, "<="@) {
                    Ast::Le(Box::new(lhs), Box::new(r))
                } else if is_op(ts, i, ">"@) {
                    Ast::Lt(Box::new(r), Box::new(lhs))
                } else {
                    Ast::Le(Box::new(r), Box::new(lhs))
                };
                if i < j < ts.len() {
                    relational_rest(ts, j, n)
                } else {
                    Ok((n, j))
                }
            },
            Err(e) => Err(e),
        }
    } else {
        Ok((lhs, i))
    }
}

/// Orderings of sums.
pub open spec fn relational(ts: Seq<Token>, i: int) -> Outcome
    decreases ts.len() - i, 8int,
{
    match additive(ts, i) {
        Ok((n, j)) => if i < j < ts.len() {
            relational_rest(ts, j, n)
        } else {
            Ok((n, j))
        },
        Err(e) => Err(e),
    }
}

/// The `==` / `!=` operations that follow `lhs`, folded to the left.
pub open spec fn equality_rest(ts: Seq<Token>, i: int, lhs: Ast) -> Outcome
    decreases ts.len() - i, 9int,
{
    if is_op(ts, i, "=="@) || is_op(ts, i, "!="@) {
        match relational(ts, i + 1) {
            Ok((r, j)) => {
                let n = if is_op(ts, i, "=="@) {
                    Ast::Eq(Box::new(lhs), Box::new(r))
                } else {
                    Ast::Ne(Box::new(lhs), Box::new(r))
                };
                if i < j < ts.len() {
                    equality_rest(ts, j, n)
                } else {
                    Ok((n, j))
                }
            },
            Err(e) => Err(e),
        }
    } else {
        Ok((lhs, i))
    }
}

/// Equality tests of orderings.
pub open spec fn equality(ts: Seq<Token>, i: int) -> Outcome
    decreases ts.len() - i, 10int,
{
    match relational(ts, i) {
        Ok((n, j)) => if i < j < ts.len() {
            equality_rest(ts, j, n)
        } else {
            Ok((n, j))
        },
        Err(e) => Err(e),
    }
}

/// An expression: equalities joined by `=`, grouped to the right.
pub open spec fn assign(ts: Seq<Token>, i: int) -> Outcome
    decreases ts.len() - i, 11int,
{
    match equality(ts, i) {
        Ok((n, j)) => if i < j < ts.len() && is_op(ts, j, "="@) {
            match assign(ts, j + 1) {
                Ok((r, k)) => Ok((Ast::Assign(Box::new(n), Box::new(r)), k)),
                Err(e) => Err(e),
            }
        } else {
            Ok((n, j))
        },
        Err(e) => Err(e),
    }
}

/// An expression followed by `;`, or `;` alone (an empty block).
pub open spec fn expr_stmt(ts: Seq<Token>, i: int) -> Outcome
    decreases ts.len() - i, 12int,
{
    if is_op(ts, i, ";"@) {
        Ok((Ast::Block(Seq::empty()), i + 1))
    } else {
        match closed_by(ts, assign(ts, i), ";"@) {
            Ok((n, j)) => Ok((Ast::ExprStmt(Box::new(n)), j)),
            Err(e) => Err(e),
        }
    }
}

/// A clause of a `for` header: `term` alone (absent), or an expression
/// followed by `term`.
pub open spec fn for_clause(ts: Seq<Token>, i: int, term: Seq<char>) -> Result<
    (Option<Box<Ast>>, int),
    Mismatch,
>
    decreases ts.len() - i, 12int,
{
    if is_op(ts, i, term) {
        Ok((None, i + 1))
    } else {
        match closed_by(ts, assign(ts, i), term) {
            Ok((n, j)) => Ok((Some(Box::new(n)), j)),
            Err(e) => Err(e),
        }
    }
}

/// The rest of a `for` statement, from the token after `(`; `i0` is where
/// the statement began.
pub open spec fn for_stmt(ts: Seq<Token>, i0: int, i: int) -> Outcome
    decreases ts.len() - i0, 13int,
{
    if i0 < i {
        match expr_stmt(ts, i) {
            Ok((init, j)) => if i < j < ts.len() {
                match for_clause(ts, j, ";"@) {
                    Ok((cond, k)) => if j < k < ts.len() {
                        match for_clause(ts, k, ")"@) {
                            Ok((inc, m)) => if k < m < ts.len() {
                                match stmt(ts, m) {
                                    Ok((body, p)) => Ok(
                                        (
                                            Ast::For(Some(Box::new(init)), cond, inc, Box::new(body)),
                                            p,
                                        ),
                                    ),
                                    Err(e) => Err(e),
                                }
                            } else {
                                Err((m, None))
                            },
                            Err(e) => Err(e),
                        }
                    } else {
                        Err((k, None))
                    },
                    Err(e) => Err(e),
                }
            } else {
                Err((j, None))
            },
            Err(e) => Err(e),
        }
    } else {
        Err((i, None))
    }
}

/// One statement.
pub open spec fn stmt(ts: Seq<Token>, i: int) -> Outcome
    decreases ts.len() - i, 14int,
{
    if is_op(ts, i, "return"@) {
        match closed_by(ts, assign(ts, i + 1), ";"@) {
            Ok((n, j)) => Ok((Ast::Return(Box::new(n)), j)),
            Err(e) => Err(e),
        }
    } else if is_op(ts, i, "if"@) {
        if !is_op(ts, i + 1, "("@) {
            Err((i + 1, Some("("@)))
        } else {
            match closed_by(ts, assign(ts, i + 2), ")"@) {
                Ok((cond, j)) => if i < j < ts.len() {
                    match stmt(ts, j) {
                        Ok((then, k)) => if i < k < ts.len() && is_op(ts, k, "else"@) {
                            match stmt(ts, k + 1) {
                                Ok((els, m)) => Ok(
                                    (Ast::If(Box::new(cond), Box::new(then), Some(Box::new(els))), m),
                                ),
                                Err(e) => Err(e),
                            }
                        } else {
                            Ok((Ast::If(Box::new(cond), Box::new(then), None), k))
                        },
                        Err(e) => Err(e),
                    }
                } else {
                    Err((j, None))
                },
                Err(e) => Err(e),
            }
        }
    } else if is_op(ts, i, "for"@) {
        if !is_op(ts, i + 1, "("@) {
            Err((i + 1, Some("("@)))
        } else {
            for_stmt(ts, i, i + 2)
        }
    } else if is_op(ts, i, "while"@) {
        if !is_op(ts, i + 1, "("@) {
            Err((i + 1, Some("("@)))
        } else {
            match closed_by(ts, assign(ts, i + 2), ")"@) {
                Ok((cond, j)) => if i < j < ts.len() {
                    match stmt(ts, j) {
                        Ok((body, k)) => Ok(
                            (Ast::For(None, Some(Box::new(cond)), None, Box::new(body)), k),
                        ),
                        Err(e) => Err(e),
                    }
                } else {
                    Err((j, None))
                },
                Err(e) => Err(e),
            }
        }
    } else if is_op(ts, i, "{"@) {
        block_of(block_items(ts, i + 1, Seq::empty()))
    } else {
        expr_stmt(ts, i)
    }
}

/// Statements up to and including the closing `}`, appended to `acc`.
pub open spec fn block_items(ts: Seq<Token>, i: int, acc: Seq<Ast>) -> Result<(Seq<Ast>, int), Mismatch>
    decreases ts.len() - i, 15int,
{
    if is_op(ts, i, "}"@) {
        Ok((acc, i + 1))
    } else {
        match stmt(ts, i) {
            Ok((s, j)) => if i < j < ts.len() {
                block_items(ts, j, acc.push(s))
            } else {
                Err((j, None))
            },
            Err(e) => Err(e),
        }
    }
}

/// The block made of the statements that `r` holds.
pub open spec fn block_of(r: Result<(Seq<Ast>, int), Mismatch>) -> Outcome {
    match r {
        Ok((items, j)) => Ok((Ast::Block(items), j)),
        Err(e) => Err(e),
    }
}

/// A whole function body: `{`, statements, `}`.
pub open spec fn program(ts: Seq<Token>) -> Outcome {
    if is_op(ts, 0, "{"@) {
        block_of(block_items(ts, 1, Seq::empty()))
    } else {
        Err((0, Some("{"@)))
    }
}

} // verus!
