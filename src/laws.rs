//! Facts about the grammar that relate several of its rules.
use vstd::prelude::*;
use crate::ast::Ast;
use crate::frame::{agree, frame_assign, frame_stmt};
use crate::grammar::{
    closed_by, for_clause, for_stmt, stmt, additive, additive_rest, assign, equality, equality_rest, expr_stmt, is_op, multiplicative,
    multiplicative_rest, primary, relational, relational_rest, unary, Mismatch,
};
use crate::token::{Token, TokenKind};

verus! {

/// A token that is an operand by itself: an identifier or a literal.
pub open spec fn is_atom(t: Token) -> bool {
    t.kind == TokenKind::Ident || t.kind is Num
}

/// The leaf that an operand token parses to.
pub open spec fn atom_of(t: Token) -> Ast {
    if t.kind == TokenKind::Ident {
        Ast::Var(t.raw_str@)
    } else {
        Ast::Num(t.kind->Num_0)
    }
}

proof fn lemma_operators_differ()
    ensures
        ";"@ != "*"@, ";"@ != "/"@, ";"@ != "+"@, ";"@ != "-"@,
        ";"@ != "<"@, ";"@ != "<="@, ";"@ != ">"@, ";"@ != ">="@,
        ";"@ != "=="@, ";"@ != "!="@, ";"@ != "="@,
        "+"@ != "*"@, "+"@ != "/"@, "*"@ != "+"@, "*"@ != "-"@,
        "*"@ != "("@, "+"@ != "-"@, "+"@ != "("@,
        ">"@ != "*"@, ">"@ != "/"@, ">"@ != "+"@, ">"@ != "-"@,
        ">"@ != "<"@, ">"@ != "<="@,
        "<"@ != "*"@, "<"@ != "/"@, "<"@ != "+"@, "<"@ != "-"@,
        ">="@ != "*"@, ">="@ != "/"@, ">="@ != "+"@, ">="@ != "-"@,
        ">="@ != "<"@, ">="@ != "<="@, ">="@ != ">"@,
        "<="@ != "*"@, "<="@ != "/"@, "<="@ != "+"@, "<="@ != "-"@, "<="@ != "<"@,
        ";"@ != "("@, "-"@ != "*"@, "-"@ != "/"@,
        "while"@ != "return"@, "while"@ != "if"@, "while"@ != "for"@,
        "for"@ != "return"@, "for"@ != "if"@,
{
    reveal_strlit("!=");
    reveal_strlit("(");
    reveal_strlit("*");
    reveal_strlit("+");
    reveal_strlit("-");
    reveal_strlit("/");
    reveal_strlit(";");
    reveal_strlit("<");
    reveal_strlit("<=");
    reveal_strlit("=");
    reveal_strlit("==");
    reveal_strlit(">");
    reveal_strlit(">=");
    reveal_strlit("for");
    reveal_strlit("if");
    reveal_strlit("return");
    reveal_strlit("while");
    assert(";"@[0] != "*"@[0]);
    assert(";"@[0] != "/"@[0]);
    assert(";"@[0] != "+"@[0]);
    assert(";"@[0] != "-"@[0]);
    assert(";"@[0] != "<"@[0]);
    assert(";"@.len() != "<="@.len());
    assert(";"@[0] != ">"@[0]);
    assert(";"@.len() != ">="@.len());
    assert(";"@.len() != "=="@.len());
    assert(";"@.len() != "!="@.len());
    assert(";"@[0] != "="@[0]);
    assert("+"@[0] != "*"@[0]);
    assert("+"@[0] != "/"@[0]);
    assert("*"@[0] != "+"@[0]);
    assert("*"@[0] != "-"@[0]);
    assert("*"@[0] != "("@[0]);
    assert("+"@[0] != "-"@[0]);
    assert("+"@[0] != "("@[0]);
    assert(">"@[0] != "*"@[0]);
    assert(">"@[0] != "/"@[0]);
    assert(">"@[0] != "+"@[0]);
    assert(">"@[0] != "-"@[0]);
    assert(">"@[0] != "<"@[0]);
    assert(">"@.len() != "<="@.len());
    assert("<"@[0] != "*"@[0]);
    assert("<"@[0] != "/"@[0]);
    assert("<"@[0] != "+"@[0]);
    assert("<"@[0] != "-"@[0]);
    assert(">="@.len() != "*"@.len());
    assert(">="@.len() != "/"@.len());
    assert(">="@.len() != "+"@.len());
    assert(">="@.len() != "-"@.len());
    assert(">="@.len() != "<"@.len());
    assert(">="@[0] != "<="@[0]);
    assert(">="@.len() != ">"@.len());
    assert("<="@.len() != "*"@.len());
    assert("<="@.len() != "/"@.len());
    assert("<="@.len() != "+"@.len());
    assert("<="@.len() != "-"@.len());
    assert("<="@.len() != "<"@.len());
    assert(";"@[0] != "("@[0]);
    assert("-"@[0] != "*"@[0]);
    assert("-"@[0] != "/"@[0]);
    assert("while"@.len() != "return"@.len());
    assert("while"@.len() != "if"@.len());
    assert("while"@.len() != "for"@.len());
    assert("for"@.len() != "return"@.len());
    assert("for"@.len() != "if"@.len());
}

/// An operand token is a whole unary expression.
proof fn lemma_atom_unary(ts: Seq<Token>, i: int)
    requires
        0 <= i < ts.len(),
        is_atom(ts[i]),
    ensures
        unary(ts, i) == Ok::<(Ast, int), Mismatch>((atom_of(ts[i]), i + 1)),
{
    assert(primary(ts, i) == Ok::<(Ast, int), Mismatch>((atom_of(ts[i]), i + 1)));
}

/// Before `;` every left-folding level ends with what it has.
proof fn lemma_rest_at_semicolon(ts: Seq<Token>, i: int, lhs: Ast)
    requires
        is_op(ts, i, ";"@),
    ensures
        multiplicative_rest(ts, i, lhs) == Ok::<(Ast, int), Mismatch>((lhs, i)),
        additive_rest(ts, i, lhs) == Ok::<(Ast, int), Mismatch>((lhs, i)),
        relational_rest(ts, i, lhs) == Ok::<(Ast, int), Mismatch>((lhs, i)),
        equality_rest(ts, i, lhs) == Ok::<(Ast, int), Mismatch>((lhs, i)),
        !is_op(ts, i, "="@),
{
    lemma_operators_differ();
}

/// A comparison `e` that ends at the `;` at `j` makes the statement `e ;`.
proof fn lemma_statement_of_relational(ts: Seq<Token>, i: int, j: int, e: Ast)
    requires
        0 <= i < j,
        is_op(ts, j, ";"@),
        !is_op(ts, i, ";"@),
        relational(ts, i) == Ok::<(Ast, int), Mismatch>((e, j)),
    ensures
        expr_stmt(ts, i) == Ok::<(Ast, int), Mismatch>((Ast::ExprStmt(Box::new(e)), j + 1)),
{
    lemma_rest_at_semicolon(ts, j, e);
    assert(equality(ts, i) == Ok::<(Ast, int), Mismatch>((e, j)));
    assert(assign(ts, i) == Ok::<(Ast, int), Mismatch>((e, j)));
}

/// Products bind tighter than sums: `x + y * z ;` is the statement
/// `x + (y * z)`, and `x * y + z ;` the statement `(x * y) + z`.
pub proof fn lemma_product_binds_tighter(ts: Seq<Token>, i: int)
    requires
        0 <= i,
        i + 5 < ts.len(),
        is_atom(ts[i]),
        is_atom(ts[i + 2]),
        is_atom(ts[i + 4]),
        is_op(ts, i + 5, ";"@),
        (is_op(ts, i + 1, "+"@) && is_op(ts, i + 3, "*"@)) || (is_op(ts, i + 1, "*"@) && is_op(
            ts,
            i + 3,
            "+"@,
        )),
    ensures
        is_op(ts, i + 1, "+"@) ==> expr_stmt(ts, i) == Ok::<(Ast, int), Mismatch>(
            (
                Ast::ExprStmt(
                    Box::new(
                        Ast::Add(
                            Box::new(atom_of(ts[i])),
                            Box::new(Ast::Mul(Box::new(atom_of(ts[i + 2])), Box::new(atom_of(ts[i + 4])))),
                        ),
                    ),
                ),
                i + 6,
            ),
        ),
        is_op(ts, i + 1, "*"@) ==> expr_stmt(ts, i) == Ok::<(Ast, int), Mismatch>(
            (
                Ast::ExprStmt(
                    Box::new(
                        Ast::Add(
                            Box::new(Ast::Mul(Box::new(atom_of(ts[i])), Box::new(atom_of(ts[i + 2])))),
                            Box::new(atom_of(ts[i + 4])),
                        ),
                    ),
                ),
                i + 6,
            ),
        ),
{
    lemma_operators_differ();
    let x = atom_of(ts[i]);
    let y = atom_of(ts[i + 2]);
    let z = atom_of(ts[i + 4]);
    lemma_atom_unary(ts, i);
    lemma_atom_unary(ts, i + 2);
    lemma_atom_unary(ts, i + 4);
    if is_op(ts, i + 1, "+"@) {
        let m = Ast::Mul(Box::new(y), Box::new(z));
        let a = Ast::Add(Box::new(x), Box::new(m));
        assert(multiplicative_rest(ts, i + 1, x) == Ok::<(Ast, int), Mismatch>((x, i + 1)));
        assert(multiplicative(ts, i) == Ok::<(Ast, int), Mismatch>((x, i + 1)));
        lemma_rest_at_semicolon(ts, i + 5, m);
        assert(multiplicative_rest(ts, i + 3, y) == Ok::<(Ast, int), Mismatch>((m, i + 5)));
        assert(multiplicative(ts, i + 2) == Ok::<(Ast, int), Mismatch>((m, i + 5)));
        lemma_rest_at_semicolon(ts, i + 5, a);
        assert(additive_rest(ts, i + 1, x) == Ok::<(Ast, int), Mismatch>((a, i + 5)));
        assert(additive(ts, i) == Ok::<(Ast, int), Mismatch>((a, i + 5)));
        assert(relational(ts, i) == Ok::<(Ast, int), Mismatch>((a, i + 5)));
        lemma_statement_of_relational(ts, i, i + 5, a);
    } else {
        let m = Ast::Mul(Box::new(x), Box::new(y));
        let a = Ast::Add(Box::new(m), Box::new(z));
        assert(multiplicative_rest(ts, i + 5, z) == Ok::<(Ast, int), Mismatch>((z, i + 5)));
        assert(multiplicative(ts, i + 4) == Ok::<(Ast, int), Mismatch>((z, i + 5)));
        assert(multiplicative_rest(ts, i + 3, m) == Ok::<(Ast, int), Mismatch>((m, i + 3)));
        assert(multiplicative_rest(ts, i + 1, x) == Ok::<(Ast, int), Mismatch>((m, i + 3)));
        assert(multiplicative(ts, i) == Ok::<(Ast, int), Mismatch>((m, i + 3)));
        lemma_rest_at_semicolon(ts, i + 5, a);
        assert(additive_rest(ts, i + 3, m) == Ok::<(Ast, int), Mismatch>((a, i + 5)));
        assert(additive(ts, i) == Ok::<(Ast, int), Mismatch>((a, i + 5)));
        assert(relational(ts, i) == Ok::<(Ast, int), Mismatch>((a, i + 5)));
        lemma_statement_of_relational(ts, i, i + 5, a);
    }
}

/// The operand token at `i` is a whole additive expression when the token
/// after it is a comparison or `;`.
proof fn lemma_atom_additive(ts: Seq<Token>, i: int)
    requires
        0 <= i,
        i + 1 < ts.len(),
        is_atom(ts[i]),
        is_op(ts, i + 1, ";"@) || is_op(ts, i + 1, "<"@) || is_op(ts, i + 1, "<="@) || is_op(ts, i + 1, ">"@)
            || is_op(ts, i + 1, ">="@),
    ensures
        additive(ts, i) == Ok::<(Ast, int), Mismatch>((atom_of(ts[i]), i + 1)),
{
    lemma_operators_differ();
    lemma_atom_unary(ts, i);
    let x = atom_of(ts[i]);
    assert(multiplicative_rest(ts, i + 1, x) == Ok::<(Ast, int), Mismatch>((x, i + 1)));
    assert(multiplicative(ts, i) == Ok::<(Ast, int), Mismatch>((x, i + 1)));
    assert(additive_rest(ts, i + 1, x) == Ok::<(Ast, int), Mismatch>((x, i + 1)));
}

/// `p > q ;` and `q < p ;` are the same statement, and so are `p >= q ;` and
/// `q <= p ;`, for operand tokens `p` and `q`.
pub proof fn lemma_greater_is_swapped_less(ts1: Seq<Token>, ts2: Seq<Token>, i: int)
    requires
        0 <= i,
        i + 3 < ts1.len(),
        i + 3 < ts2.len(),
        is_atom(ts1[i]),
        is_atom(ts1[i + 2]),
        ts2[i] == ts1[i + 2],
        ts2[i + 2] == ts1[i],
        is_op(ts1, i + 3, ";"@),
        is_op(ts2, i + 3, ";"@),
        (is_op(ts1, i + 1, ">"@) && is_op(ts2, i + 1, "<"@)) || (is_op(ts1, i + 1, ">="@) && is_op(
            ts2,
            i + 1,
            "<="@,
        )),
    ensures
        expr_stmt(ts1, i) == expr_stmt(ts2, i),
        is_op(ts1, i + 1, ">"@) ==> expr_stmt(ts1, i) == Ok::<(Ast, int), Mismatch>(
            (
                Ast::ExprStmt(Box::new(Ast::Lt(Box::new(atom_of(ts1[i + 2])), Box::new(atom_of(ts1[i]))))),
                i + 4,
            ),
        ),
        is_op(ts1, i + 1, ">="@) ==> expr_stmt(ts1, i) == Ok::<(Ast, int), Mismatch>(
            (
                Ast::ExprStmt(Box::new(Ast::Le(Box::new(atom_of(ts1[i + 2])), Box::new(atom_of(ts1[i]))))),
                i + 4,
            ),
        ),
{
    lemma_operators_differ();
    let p = atom_of(ts1[i]);
    let q = atom_of(ts1[i + 2]);
    lemma_atom_additive(ts1, i);
    lemma_atom_additive(ts1, i + 2);
    lemma_atom_additive(ts2, i);
    lemma_atom_additive(ts2, i + 2);
    let n = if is_op(ts1, i + 1, ">"@) {
        Ast::Lt(Box::new(q), Box::new(p))
    } else {
        Ast::Le(Box::new(q), Box::new(p))
    };
    lemma_rest_at_semicolon(ts1, i + 3, n);
    lemma_rest_at_semicolon(ts2, i + 3, n);
    assert(relational_rest(ts1, i + 1, p) == Ok::<(Ast, int), Mismatch>((n, i + 3)));
    assert(relational(ts1, i) == Ok::<(Ast, int), Mismatch>((n, i + 3)));
    assert(relational_rest(ts2, i + 1, q) == Ok::<(Ast, int), Mismatch>((n, i + 3)));
    assert(relational(ts2, i) == Ok::<(Ast, int), Mismatch>((n, i + 3)));
    lemma_statement_of_relational(ts1, i, i + 3, n);
    lemma_statement_of_relational(ts2, i, i + 3, n);
}

/// A `+` or `-` with no right operand before `;` stops the parse at the `;`,
/// where a number was expected: no tree comes out.
pub proof fn lemma_missing_operand(ts: Seq<Token>, i: int)
    requires
        0 <= i,
        i + 2 < ts.len(),
        is_atom(ts[i]),
        is_op(ts, i + 1, "+"@) || is_op(ts, i + 1, "-"@),
        is_op(ts, i + 2, ";"@),
    ensures
        expr_stmt(ts, i) == Err::<(Ast, int), Mismatch>((i + 2, None)),
{
    lemma_operators_differ();
    lemma_atom_unary(ts, i);
    let x = atom_of(ts[i]);
    let e = Err::<(Ast, int), Mismatch>((i + 2, None));
    assert(multiplicative_rest(ts, i + 1, x) == Ok::<(Ast, int), Mismatch>((x, i + 1)));
    assert(multiplicative(ts, i) == Ok::<(Ast, int), Mismatch>((x, i + 1)));
    assert(primary(ts, i + 2) == e);
    assert(unary(ts, i + 2) == e);
    assert(multiplicative(ts, i + 2) == e);
    assert(additive_rest(ts, i + 1, x) == e);
    assert(additive(ts, i) == e);
    assert(relational(ts, i) == e);
    assert(equality(ts, i) == e);
    assert(assign(ts, i) == e);
}

/// Nothing that starts with `;` is an expression.
proof fn lemma_no_expression_at_semicolon(ts: Seq<Token>, i: int)
    requires
        is_op(ts, i, ";"@),
    ensures
        assign(ts, i) is Err,
{
    lemma_operators_differ();
    assert(primary(ts, i) is Err);
    assert(unary(ts, i) is Err);
    assert(multiplicative(ts, i) is Err);
    assert(additive(ts, i) is Err);
    assert(relational(ts, i) is Err);
    assert(equality(ts, i) is Err);
}

/// `while ( c ) b` and `for ( ; c ; ) b`, for an expression `c` and a
/// statement `b`, both give a loop with that condition, that body and no
/// increment. The `while` loop has no initialiser; the `for` loop has the
/// empty block that its empty first clause stands for.
///
/// `ts1` holds the `while` form and `ts2` the `for` form from index 0: `c`
/// is the `nc` tokens from index 2 of `ts1` and 3 of `ts2`, and `b` the `nb`
/// tokens from index `3 + nc` of `ts1` and `5 + nc` of `ts2`, followed by
/// the same token in both.
pub proof fn lemma_while_is_for(ts1: Seq<Token>, ts2: Seq<Token>, nc: int, nb: int)
    requires
        0 <= nc,
        0 <= nb,
        3 + nc + nb < ts1.len(),
        5 + nc + nb < ts2.len(),
        is_op(ts1, 0, "while"@),
        is_op(ts1, 1, "("@),
        is_op(ts1, 2 + nc, ")"@),
        is_op(ts2, 0, "for"@),
        is_op(ts2, 1, "("@),
        is_op(ts2, 2, ";"@),
        is_op(ts2, 3 + nc, ";"@),
        is_op(ts2, 4 + nc, ")"@),
        forall|k: int| 2 <= k < 2 + nc ==> #[trigger] ts1[k] == ts2[k + 1],
        forall|k: int| 3 + nc <= k <= 3 + nc + nb ==> #[trigger] ts1[k] == ts2[k + 2],
        assign(ts1, 2) is Ok,
        assign(ts1, 2)->Ok_0.1 == 2 + nc,
        stmt(ts1, 3 + nc) is Ok,
        stmt(ts1, 3 + nc)->Ok_0.1 == 3 + nc + nb,
    ensures
        ({
            let cond = assign(ts1, 2)->Ok_0.0;
            let body = stmt(ts1, 3 + nc)->Ok_0.0;
            &&& stmt(ts1, 0) == Ok::<(Ast, int), Mismatch>(
                (Ast::For(None, Some(Box::new(cond)), None, Box::new(body)), 3 + nc + nb),
            )
            &&& stmt(ts2, 0) == Ok::<(Ast, int), Mismatch>(
                (
                    Ast::For(
                        Some(Box::new(Ast::Block(Seq::empty()))),
                        Some(Box::new(cond)),
                        None,
                        Box::new(body),
                    ),
                    5 + nc + nb,
                ),
            )
        }),
{
    lemma_operators_differ();
    let cond = assign(ts1, 2)->Ok_0.0;
    let body = stmt(ts1, 3 + nc)->Ok_0.0;
    frame_assign(ts1, ts2, 1, 2);
    assert(agree(ts1, ts2, 1, 2, 2 + nc));
    assert(assign(ts2, 3) == Ok::<(Ast, int), Mismatch>((cond, 3 + nc)));
    frame_stmt(ts1, ts2, 2, 3 + nc);
    assert(ts2[5 + nc + nb] == ts1[3 + nc + nb]);
    assert(agree(ts1, ts2, 2, 3 + nc, 3 + nc + nb));
    assert(stmt(ts2, 5 + nc) == Ok::<(Ast, int), Mismatch>((body, 5 + nc + nb)));

    assert(closed_by(ts1, assign(ts1, 2), ")"@) == Ok::<(Ast, int), Mismatch>((cond, 3 + nc)));

    if is_op(ts1, 2, ";"@) {
        lemma_no_expression_at_semicolon(ts1, 2);
    }
    assert(ts2[3] == ts1[2]);
    assert(!is_op(ts2, 3, ";"@));
    assert(expr_stmt(ts2, 2) == Ok::<(Ast, int), Mismatch>((Ast::Block(Seq::empty()), 3)));
    assert(for_clause(ts2, 3, ";"@) == Ok::<(Option<Box<Ast>>, int), Mismatch>((Some(Box::new(cond)), 4 + nc)));
    assert(for_clause(ts2, 4 + nc, ")"@) == Ok::<(Option<Box<Ast>>, int), Mismatch>((None, 5 + nc)));
    assert(for_stmt(ts2, 0, 2) == Ok::<(Ast, int), Mismatch>(
        (
            Ast::For(Some(Box::new(Ast::Block(Seq::empty()))), Some(Box::new(cond)), None, Box::new(body)),
            5 + nc + nb,
        ),
    ));
}

} // verus!
