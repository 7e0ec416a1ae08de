//! The grammar reads only the tokens it consumes and the one after them:
//! the same tokens at another offset give the same tree. The token after
//! an expression may differ, as long as it is `)` or `;` in both.
use vstd::prelude::*;
use crate::ast::Ast;
use crate::grammar::{
    additive, additive_rest, assign, block_items, closed_by, equality, equality_rest, expr_stmt,
    for_clause, for_stmt, is_op, multiplicative, multiplicative_rest, primary, relational,
    relational_rest, stmt, unary, Mismatch, Outcome,
};
use crate::token::Token;

verus! {

/// The token at `k` ends an expression without joining it: `)` or `;`.
pub open spec fn stopper(ts: Seq<Token>, k: int) -> bool {
    is_op(ts, k, ")"@) || is_op(ts, k, ";"@)
}

/// `ts1` from `i` up to `r` is `ts2` from `i + d`, and the tokens at `r` and
/// `r + d` are equal or both stoppers.
pub open spec fn agree(ts1: Seq<Token>, ts2: Seq<Token>, d: int, i: int, r: int) -> bool {
    &&& 0 <= i <= r < ts1.len()
    &&& 0 <= i + d
    &&& r + d < ts2.len()
    &&& forall|k: int| i <= k < r ==> #[trigger] ts1[k] == ts2[k + d]
    &&& ts1[r] == ts2[r + d] || (stopper(ts1, r) && stopper(ts2, r + d))
}

/// What `r1`, a rule's result on `ts1` from `i`, says of the same rule on
/// `ts2` from `i + d`, whose result is `r2`.
pub open spec fn framed(ts1: Seq<Token>, ts2: Seq<Token>, d: int, i: int, r1: Outcome, r2: Outcome, strict: bool) -> bool {
    match r1 {
        Ok((x, r)) => {
            &&& (if strict { i < r } else { i <= r })
            &&& agree(ts1, ts2, d, i, r) ==> r2 == Ok::<(Ast, int), Mismatch>((x, r + d))
        },
        Err(_) => true,
    }
}

proof fn lemma_stoppers_differ()
    ensures
        ")"@ != "*"@, ")"@ != "/"@, ")"@ != "+"@, ")"@ != "-"@, ")"@ != "<"@, ")"@ != "<="@,
        ")"@ != ">"@, ")"@ != ">="@, ")"@ != "=="@, ")"@ != "!="@, ")"@ != "="@, ")"@ != "else"@,
        ";"@ != "*"@, ";"@ != "/"@, ";"@ != "+"@, ";"@ != "-"@, ";"@ != "<"@, ";"@ != "<="@,
        ";"@ != ">"@, ";"@ != ">="@, ";"@ != "=="@, ";"@ != "!="@, ";"@ != "="@, ";"@ != "else"@,
{
    reveal_strlit("!=");
    reveal_strlit(")");
    reveal_strlit("*");
    reveal_strlit("+");
    reveal_strlit("-");
    reveal_strlit("/");
    reveal_strlit(";");
    reveal_strlit("<");
    reveal_strlit("<=");
    reveal_strlit("=");
    reveal_strlit("==");
    reveal_strlit(">");
    reveal_strlit(">=");
    reveal_strlit("else");
    assert(")"@[0] != "*"@[0]);
    assert(")"@[0] != "/"@[0]);
    assert(")"@[0] != "+"@[0]);
    assert(")"@[0] != "-"@[0]);
    assert(")"@[0] != "<"@[0]);
    assert(")"@.len() != "<="@.len());
    assert(")"@[0] != ">"@[0]);
    assert(")"@.len() != ">="@.len());
    assert(")"@.len() != "=="@.len());
    assert(")"@.len() != "!="@.len());
    assert(")"@[0] != "="@[0]);
    assert(")"@.len() != "else"@.len());
    assert(";"@[0] != "*"@[0]);
    assert(";"@[0] != "/"@[0]);
    assert(";"@[0] != "+"@[0]);
    assert(";"@[0] != "-"@[0]);
    assert(";"@[0] != "<"@[0]);
    assert(";"@.len() != "<="@.len());
    assert(";"@[0] != ">"@[0]);
    assert(";"@.len() != ">="@.len());
    assert(";"@.len() != "=="@.len());
    assert(";"@.len() != "!="@.len());
    assert(";"@[0] != "="@[0]);
    assert(";"@.len() != "else"@.len());
}

proof fn frame_primary(ts1: Seq<Token>, ts2: Seq<Token>, d: int, i: int)
    requires
        0 <= i <= ts1.len(),
    ensures
        framed(ts1, ts2, d, i, primary(ts1, i), primary(ts2, i + d), true),
    decreases ts1.len() - i, 1int,
{
    if is_op(ts1, i, "("@) {
        frame_assign(ts1, ts2, d, i + 1);
    }
}

proof fn frame_unary(ts1: Seq<Token>, ts2: Seq<Token>, d: int, i: int)
    requires
        0 <= i <= ts1.len(),
    ensures
        framed(ts1, ts2, d, i, unary(ts1, i), unary(ts2, i + d), true),
    decreases ts1.len() - i, 2int,
{
    if is_op(ts1, i, "+"@) || is_op(ts1, i, "-"@) {
        frame_unary(ts1, ts2, d, i + 1);
    } else {
        frame_primary(ts1, ts2, d, i);
    }
}

proof fn frame_multiplicative_rest(ts1: Seq<Token>, ts2: Seq<Token>, d: int, i: int, lhs: Ast)
    requires
        0 <= i <= ts1.len(),
    ensures
        framed(ts1, ts2, d, i, multiplicative_rest(ts1, i, lhs), multiplicative_rest(ts2, i + d, lhs), false),
    decreases ts1.len() - i, 3int,
{
    lemma_stoppers_differ();
    if is_op(ts1, i, "*"@) || is_op(ts1, i, "/"@) {
        frame_unary(ts1, ts2, d, i + 1);
        if let Ok((r, j)) = unary(ts1, i + 1) {
            let n = if is_op(ts1, i, "*"@) {
                    Ast::Mul(Box::new(lhs), Box::new(r))
                } else {
                    Ast::Div(Box::new(lhs), Box::new(r))
                };
            if i < j < ts1.len() {
                frame_multiplicative_rest(ts1, ts2, d, j, n);
            }
        }
    }
}

proof fn frame_multiplicative(ts1: Seq<Token>, ts2: Seq<Token>, d: int, i: int)
    requires
        0 <= i <= ts1.len(),
    ensures
        framed(ts1, ts2, d, i, multiplicative(ts1, i), multiplicative(ts2, i + d), true),
    decreases ts1.len() - i, 4int,
{
    frame_unary(ts1, ts2, d, i);
    if let Ok((n, j)) = unary(ts1, i) {
        if i < j < ts1.len() {
            frame_multiplicative_rest(ts1, ts2, d, j, n);
        }
    }
}

proof fn frame_additive_rest(ts1: Seq<Token>, ts2: Seq<Token>, d: int, i: int, lhs: Ast)
    requires
        0 <= i <= ts1.len(),
    ensures
        framed(ts1, ts2, d, i, additive_rest(ts1, i, lhs), additive_rest(ts2, i + d, lhs), false),
    decreases ts1.len() - i, 5int,
{
    lemma_stoppers_differ();
    if is_op(ts1, i, "+"@) || is_op(ts1, i, "-"@) {
        frame_multiplicative(ts1, ts2, d, i + 1);
        if let Ok((r, j)) = multiplicative(ts1, i + 1) {
            let n = if is_op(ts1, i, "+"@) {
                    Ast::Add(Box::new(lhs), Box::new(r))
                } else {
                    Ast::Sub(Box::new(lhs), Box::new(r))
                };
            if i < j < ts1.len() {
                frame_additive_rest(ts1, ts2, d, j, n);
            }
        }
    }
}

proof fn frame_additive(ts1: Seq<Token>, ts2: Seq<Token>, d: int, i: int)
    requires
        0 <= i <= ts1.len(),
    ensures
        framed(ts1, ts2, d, i, additive(ts1, i), additive(ts2, i + d), true),
    decreases ts1.len() - i, 6int,
{
    frame_multiplicative(ts1, ts2, d, i);
    if let Ok((n, j)) = multiplicative(ts1, i) {
        if i < j < ts1.len() {
            frame_additive_rest(ts1, ts2, d, j, n);
        }
    }
}

proof fn frame_relational_rest(ts1: Seq<Token>, ts2: Seq<Token>, d: int, i: int, lhs: Ast)
    requires
        0 <= i <= ts1.len(),
    ensures
        framed(ts1, ts2, d, i, relational_rest(ts1, i, lhs), relational_rest(ts2, i + d, lhs), false),
    decreases ts1.len() - i, 7int,
{
    lemma_stoppers_differ();
    if is_op(ts1, i, "<"@) || is_op(ts1, i, "<="@) || is_op(ts1, i, ">"@) || is_op(ts1, i, ">="@) {
        frame_additive(ts1, ts2, d, i + 1);
        if let Ok((r, j)) = additive(ts1, i + 1) {
            let n = if is_op(ts1, i, "<"@) {
                    Ast::Lt(Box::new(lhs), Box::new(r))
                } else if is_op(ts1, i, "<="@) {
                    Ast::Le(Box::new(lhs), Box::new(r))
                } else if is_op(ts1, i, ">"@) {
                    Ast::Lt(Box::new(r), Box::new(lhs))
                } else {
                    Ast::Le(Box::new(r), Box::new(lhs))
                };
            if i < j < ts1.len() {
                frame_relational_rest(ts1, ts2, d, j, n);
            }
        }
    }
}

proof fn frame_relational(ts1: Seq<Token>, ts2: Seq<Token>, d: int, i: int)
    requires
        0 <= i <= ts1.len(),
    ensures
        framed(ts1, ts2, d, i, relational(ts1, i), relational(ts2, i + d), true),
    decreases ts1.len() - i, 8int,
{
    frame_additive(ts1, ts2, d, i);
    if let Ok((n, j)) = additive(ts1, i) {
        if i < j < ts1.len() {
            frame_relational_rest(ts1, ts2, d, j, n);
        }
    }
}

proof fn frame_equality_rest(ts1: Seq<Token>, ts2: Seq<Token>, d: int, i: int, lhs: Ast)
    requires
        0 <= i <= ts1.len(),
    ensures
        framed(ts1, ts2, d, i, equality_rest(ts1, i, lhs), equality_rest(ts2, i + d, lhs), false),
    decreases ts1.len() - i, 9int,
{
    lemma_stoppers_differ();
    if is_op(ts1, i, "=="@) || is_op(ts1, i, "!="@) {
        frame_relational(ts1, ts2, d, i + 1);
        if let Ok((r, j)) = relational(ts1, i + 1) {
            let n = if is_op(ts1, i, "=="@) {
                    Ast::Eq(Box::new(lhs), Box::new(r))
                } else {
                    Ast::Ne(Box::new(lhs), Box::new(r))
                };
            if i < j < ts1.len() {
                frame_equality_rest(ts1, ts2, d, j, n);
            }
        }
    }
}

proof fn frame_equality(ts1: Seq<Token>, ts2: Seq<Token>, d: int, i: int)
    requires
        0 <= i <= ts1.len(),
    ensures
        framed(ts1, ts2, d, i, equality(ts1, i), equality(ts2, i + d), true),
    decreases ts1.len() - i, 10int,
{
    frame_relational(ts1, ts2, d, i);
    if let Ok((n, j)) = relational(ts1, i) {
        if i < j < ts1.len() {
            frame_equality_rest(ts1, ts2, d, j, n);
        }
    }
}

/// An expression read from `ts1` at `i` is read alike from `ts2` at `i + d`.
#[verifier::rlimit(50)]
pub proof fn frame_assign(ts1: Seq<Token>, ts2: Seq<Token>, d: int, i: int)
    requires
        0 <= i <= ts1.len(),
    ensures
        framed(ts1, ts2, d, i, assign(ts1, i), assign(ts2, i + d), true),
    decreases ts1.len() - i, 11int,
{
    frame_equality(ts1, ts2, d, i);
    if let Ok((n, j)) = equality(ts1, i) {
        if i < j < ts1.len() && is_op(ts1, j, "="@) {
            frame_assign(ts1, ts2, d, j + 1);
            if let Ok((v, k)) = assign(ts1, j + 1) {
                if agree(ts1, ts2, d, i, k) {
                    assert(ts1[j] == ts2[j + d]);
                    assert(agree(ts1, ts2, d, i, j));
                    assert(agree(ts1, ts2, d, j + 1, k));
                    assert(is_op(ts2, j + d, "="@));
                }
            }
        } else if agree(ts1, ts2, d, i, j) {
            lemma_stoppers_differ();
            assert(equality(ts2, i + d) == Ok::<(Ast, int), Mismatch>((n, j + d)));
            assert(!is_op(ts2, j + d, "="@));
        }
    }
}

proof fn frame_expr_stmt(ts1: Seq<Token>, ts2: Seq<Token>, d: int, i: int)
    requires
        0 <= i <= ts1.len(),
    ensures
        framed(ts1, ts2, d, i, expr_stmt(ts1, i), expr_stmt(ts2, i + d), true),
    decreases ts1.len() - i, 12int,
{
    if !is_op(ts1, i, ";"@) {
        frame_assign(ts1, ts2, d, i);
    }
}

proof fn frame_for_clause(ts1: Seq<Token>, ts2: Seq<Token>, d: int, i: int, term: Seq<char>)
    requires
        0 <= i <= ts1.len(),
    ensures
        for_clause(ts1, i, term) matches Ok((c, r)) ==> {
            &&& i < r
            &&& agree(ts1, ts2, d, i, r) ==> for_clause(ts2, i + d, term) == Ok::<(Option<Box<Ast>>, int), Mismatch>((c, r + d))
        },
    decreases ts1.len() - i, 12int,
{
    if !is_op(ts1, i, term) {
        frame_assign(ts1, ts2, d, i);
    }
}

proof fn frame_for_stmt(ts1: Seq<Token>, ts2: Seq<Token>, d: int, i0: int, i: int)
    requires
        0 <= i0 <= ts1.len(),
        0 <= i <= ts1.len(),
    ensures
        framed(ts1, ts2, d, i, for_stmt(ts1, i0, i), for_stmt(ts2, i0 + d, i + d), true),
    decreases ts1.len() - i0, 13int,
{
    if i0 < i {
        frame_expr_stmt(ts1, ts2, d, i);
        if let Ok((init, j)) = expr_stmt(ts1, i) {
            if i < j < ts1.len() {
                frame_for_clause(ts1, ts2, d, j, ";"@);
                if let Ok((cond, k)) = for_clause(ts1, j, ";"@) {
                    if j < k < ts1.len() {
                        frame_for_clause(ts1, ts2, d, k, ")"@);
                        if let Ok((inc, m)) = for_clause(ts1, k, ")"@) {
                            if k < m < ts1.len() {
                                frame_stmt(ts1, ts2, d, m);
                            }
                        }
                    }
                }
            }
        }
    }
}

/// A statement read from `ts1` at `i` is read alike from `ts2` at `i + d`.
pub proof fn frame_stmt(ts1: Seq<Token>, ts2: Seq<Token>, d: int, i: int)
    requires
        0 <= i <= ts1.len(),
    ensures
        framed(ts1, ts2, d, i, stmt(ts1, i), stmt(ts2, i + d), true),
    decreases ts1.len() - i, 14int,
{
    lemma_stoppers_differ();
    if is_op(ts1, i, "return"@) {
        frame_assign(ts1, ts2, d, i + 1);
    } else if is_op(ts1, i, "if"@) {
        if is_op(ts1, i + 1, "("@) {
            frame_assign(ts1, ts2, d, i + 2);
            if let Ok((c, j)) = closed_by(ts1, assign(ts1, i + 2), ")"@) {
                if i < j < ts1.len() {
                    frame_stmt(ts1, ts2, d, j);
                    if let Ok((t, k)) = stmt(ts1, j) {
                        if i < k < ts1.len() && is_op(ts1, k, "else"@) {
                            frame_stmt(ts1, ts2, d, k + 1);
                        }
                    }
                }
            }
        }
    } else if is_op(ts1, i, "for"@) {
        if is_op(ts1, i + 1, "("@) {
            frame_for_stmt(ts1, ts2, d, i, i + 2);
        }
    } else if is_op(ts1, i, "while"@) {
        if is_op(ts1, i + 1, "("@) {
            frame_assign(ts1, ts2, d, i + 2);
            if let Ok((c, j)) = closed_by(ts1, assign(ts1, i + 2), ")"@) {
                if i < j < ts1.len() {
                    frame_stmt(ts1, ts2, d, j);
                }
            }
        }
    } else if is_op(ts1, i, "{"@) {
        frame_block_items(ts1, ts2, d, i + 1, Seq::empty());
    } else {
        frame_expr_stmt(ts1, ts2, d, i);
    }
}

proof fn frame_block_items(ts1: Seq<Token>, ts2: Seq<Token>, d: int, i: int, acc: Seq<Ast>)
    requires
        0 <= i <= ts1.len(),
    ensures
        block_items(ts1, i, acc) matches Ok((items, r)) ==> {
            &&& i < r
            &&& agree(ts1, ts2, d, i, r) ==> block_items(ts2, i + d, acc) == Ok::<(Seq<Ast>, int), Mismatch>((items, r + d))
        },
    decreases ts1.len() - i, 15int,
{
    if !is_op(ts1, i, "}"@) {
        frame_stmt(ts1, ts2, d, i);
        if let Ok((st, j)) = stmt(ts1, i) {
            if i < j < ts1.len() {
                frame_block_items(ts1, ts2, d, j, acc.push(st));
            }
        }
    }
}

} // verus!
