//! Syntactic analysis: a deterministic recursive-descent grammar over the
//! token sequence, with Ada's fixed expression precedence.
//!
//! The ghost model is one spec function per production, each mapping the
//! token sequence and a start offset to the recognized node (or node list)
//! and the offset just past it, or `None` on a syntax error. Precedence,
//! from loosest to tightest: logical (`and`, `or`, `xor`), relational
//! (non-associative: a second relational operator at the same level is
//! rejected), additive (`+`, `-`, `&`, and unary sign), multiplicative
//! (`*`, `/`, `mod`, `rem`), `not`/`abs`, and exponentiation (`**`).
//!
//! The `i < j` guards before each recursive continuation only make the
//! recursion well-founded; parsing always advances, so the guard-false
//! branches cannot arise, and the executable parser proves as much.

use vstd::prelude::*;
use crate::ast::{Node, SpecNode, BinOp, UnOp, LitKind, ParamMode, models, lemma_models_push};
use crate::token::{Token, TokenKind, SpecToken, toks_model, lemma_toks_model_index};

verus! {

/// Whether the token at `i` exists and has kind `k`.
pub open spec fn spec_at(t: Seq<SpecToken>, i: nat, k: TokenKind) -> bool {
    i < t.len() && t[i as int].kind == k
}

// ---------------------------------------------------------------------------
// Expressions
// ---------------------------------------------------------------------------

/// primary ::= literal | name | name ( expression {, expression} ) |
///             ( expression )
pub open spec fn spec_p_primary(t: Seq<SpecToken>, i: nat) -> Option<(SpecNode, nat)>
    decreases t.len() - i, 0nat,
{
    if i >= t.len() {
        None
    } else {
        let k = t[i as int].kind;
        if k == TokenKind::IntLit {
            Some((SpecNode::Lit { kind: LitKind::Int, value: t[i as int].text }, (i + 1) as nat))
        } else if k == TokenKind::RealLit {
            Some((SpecNode::Lit { kind: LitKind::Real, value: t[i as int].text }, (i + 1) as nat))
        } else if k == TokenKind::StrLit {
            Some((SpecNode::Lit { kind: LitKind::Str, value: t[i as int].text }, (i + 1) as nat))
        } else if k == TokenKind::ChrLit {
            Some((SpecNode::Lit { kind: LitKind::Chr, value: t[i as int].text }, (i + 1) as nat))
        } else if k == TokenKind::Ident {
            if spec_at(t, i + 1, TokenKind::LParen) {
                match spec_p_args(t, i + 2) {
                    Some((args, j)) => Some(
                        (SpecNode::Call { name: t[i as int].text, args }, j),
                    ),
                    None => None,
                }
            } else {
                Some((SpecNode::Ident { name: t[i as int].text }, (i + 1) as nat))
            }
        } else if k == TokenKind::LParen {
            match spec_p_expr(t, i + 1) {
                Some((e, j)) => if spec_at(t, j, TokenKind::RParen) {
                    Some((e, (j + 1) as nat))
                } else {
                    None
                },
                None => None,
            }
        } else {
            None
        }
    }
}

/// The argument list of a call, from the first argument to just past the
/// closing parenthesis; accumulates into `acc`.
pub open spec fn spec_p_args_rest(t: Seq<SpecToken>, i: nat, acc: Seq<SpecNode>) -> Option<
    (Seq<SpecNode>, nat),
>
    decreases t.len() - i, 11nat,
{
    match spec_p_expr(t, i) {
        Some((e, j)) => if i < j && j <= t.len() {
            if spec_at(t, j, TokenKind::Comma) {
                spec_p_args_rest(t, j + 1, acc.push(e))
            } else if spec_at(t, j, TokenKind::RParen) {
                Some((acc.push(e), (j + 1) as nat))
            } else {
                None
            }
        } else {
            None
        },
        None => None,
    }
}

/// The argument list of a call, starting at the first argument.
#[verifier::opaque]
pub open spec fn spec_p_args(t: Seq<SpecToken>, i: nat) -> Option<(Seq<SpecNode>, nat)>
    decreases t.len() - i, 12nat,
{
    spec_p_args_rest(t, i, Seq::empty())
}

/// factor ::= primary [** primary] | not primary | abs primary
pub open spec fn spec_p_factor(t: Seq<SpecToken>, i: nat) -> Option<(SpecNode, nat)>
    decreases t.len() - i, 1nat,
{
    if spec_at(t, i, TokenKind::KwNot) {
        match spec_p_primary(t, i + 1) {
            Some((e, j)) => Some((SpecNode::Unary { op: UnOp::Not, operand: Box::new(e) }, j)),
            None => None,
        }
    } else if spec_at(t, i, TokenKind::KwAbs) {
        match spec_p_primary(t, i + 1) {
            Some((e, j)) => Some((SpecNode::Unary { op: UnOp::Abs, operand: Box::new(e) }, j)),
            None => None,
        }
    } else {
        match spec_p_primary(t, i) {
            Some((e, j)) => if i < j && j <= t.len() && spec_at(t, j, TokenKind::StarStar) {
                match spec_p_primary(t, j + 1) {
                    Some((e2, j2)) => Some(
                        (
                            SpecNode::Binary {
                                op: BinOp::Pow,
                                left: Box::new(e),
                                right: Box::new(e2),
                            },
                            j2,
                        ),
                    ),
                    None => None,
                }
            } else {
                Some((e, j))
            },
            None => None,
        }
    }
}

/// The multiplying operator at `i`, if any.
pub open spec fn spec_mul_op(t: Seq<SpecToken>, i: nat) -> Option<BinOp> {
    if spec_at(t, i, TokenKind::Star) {
        Some(BinOp::Mul)
    } else if spec_at(t, i, TokenKind::Slash) {
        Some(BinOp::Div)
    } else if spec_at(t, i, TokenKind::KwMod) {
        Some(BinOp::Mod)
    } else if spec_at(t, i, TokenKind::KwRem) {
        Some(BinOp::Rem)
    } else {
        None
    }
}

/// term ::= factor {multiplying_operator factor}, left-associative.
pub open spec fn spec_p_term_rest(t: Seq<SpecToken>, i: nat, acc: SpecNode) -> Option<
    (SpecNode, nat),
>
    decreases t.len() - i, 2nat,
{
    match spec_mul_op(t, i) {
        Some(op) => match spec_p_factor(t, i + 1) {
            Some((e, j)) => if i < j && j <= t.len() {
                spec_p_term_rest(
                    t,
                    j,
                    SpecNode::Binary { op, left: Box::new(acc), right: Box::new(e) },
                )
            } else {
                None
            },
            None => None,
        },
        None => Some((acc, i)),
    }
}

pub open spec fn spec_p_term(t: Seq<SpecToken>, i: nat) -> Option<(SpecNode, nat)>
    decreases t.len() - i, 3nat,
{
    match spec_p_factor(t, i) {
        Some((e, j)) => if i < j && j <= t.len() {
            spec_p_term_rest(t, j, e)
        } else {
            None
        },
        None => None,
    }
}

/// The binary adding operator at `i`, if any.
pub open spec fn spec_add_op(t: Seq<SpecToken>, i: nat) -> Option<BinOp> {
    if spec_at(t, i, TokenKind::PlusOp) {
        Some(BinOp::Add)
    } else if spec_at(t, i, TokenKind::MinusOp) {
        Some(BinOp::Sub)
    } else if spec_at(t, i, TokenKind::Amp) {
        Some(BinOp::Concat)
    } else {
        None
    }
}

/// simple_expression ::= [unary + or -] term {binary_adding_operator term},
/// left-associative; the unary sign applies to the whole first term.
pub open spec fn spec_p_simple_rest(t: Seq<SpecToken>, i: nat, acc: SpecNode) -> Option<
    (SpecNode, nat),
>
    decreases t.len() - i, 4nat,
{
    match spec_add_op(t, i) {
        Some(op) => match spec_p_term(t, i + 1) {
            Some((e, j)) => if i < j && j <= t.len() {
                spec_p_simple_rest(
                    t,
                    j,
                    SpecNode::Binary { op, left: Box::new(acc), right: Box::new(e) },
                )
            } else {
                None
            },
            None => None,
        },
        None => Some((acc, i)),
    }
}

#[verifier::opaque]
pub open spec fn spec_p_simple(t: Seq<SpecToken>, i: nat) -> Option<(SpecNode, nat)>
    decreases t.len() - i, 5nat,
{
    if spec_at(t, i, TokenKind::PlusOp) || spec_at(t, i, TokenKind::MinusOp) {
        let op = if t[i as int].kind == TokenKind::PlusOp {
            UnOp::Plus
        } else {
            UnOp::Neg
        };
        match spec_p_term(t, i + 1) {
            Some((e, j)) => if i < j && j <= t.len() {
                spec_p_simple_rest(t, j, SpecNode::Unary { op, operand: Box::new(e) })
            } else {
                None
            },
            None => None,
        }
    } else {
        match spec_p_term(t, i) {
            Some((e, j)) => if i < j && j <= t.len() {
                spec_p_simple_rest(t, j, e)
            } else {
                None
            },
            None => None,
        }
    }
}

/// The relational operator at `i`, if any.
pub open spec fn spec_rel_op(t: Seq<SpecToken>, i: nat) -> Option<BinOp> {
    if spec_at(t, i, TokenKind::EqOp) {
        Some(BinOp::Eq)
    } else if spec_at(t, i, TokenKind::NeOp) {
        Some(BinOp::Ne)
    } else if spec_at(t, i, TokenKind::LtOp) {
        Some(BinOp::Lt)
    } else if spec_at(t, i, TokenKind::LeOp) {
        Some(BinOp::Le)
    } else if spec_at(t, i, TokenKind::GtOp) {
        Some(BinOp::Gt)
    } else if spec_at(t, i, TokenKind::GeOp) {
        Some(BinOp::Ge)
    } else {
        None
    }
}

/// relation ::= simple_expression [relational_operator simple_expression].
/// Non-associative: a further relational operator after the right operand
/// is a syntax error rather than a silently chosen association.
pub open spec fn spec_p_relation(t: Seq<SpecToken>, i: nat) -> Option<(SpecNode, nat)>
    decreases t.len() - i, 6nat,
{
    match spec_p_simple(t, i) {
        Some((e, j)) => if i < j && j <= t.len() {
            match spec_rel_op(t, j) {
                Some(op) => match spec_p_simple(t, j + 1) {
                    Some((e2, j2)) => if spec_rel_op(t, j2) is Some {
                        None
                    } else {
                        Some(
                            (
                                SpecNode::Binary { op, left: Box::new(e), right: Box::new(e2) },
                                j2,
                            ),
                        )
                    },
                    None => None,
                },
                None => Some((e, j)),
            }
        } else {
            None
        },
        None => None,
    }
}

/// The logical operator at `i`, if any.
pub open spec fn spec_log_op(t: Seq<SpecToken>, i: nat) -> Option<BinOp> {
    if spec_at(t, i, TokenKind::KwAnd) {
        Some(BinOp::And)
    } else if spec_at(t, i, TokenKind::KwOr) {
        Some(BinOp::Or)
    } else if spec_at(t, i, TokenKind::KwXor) {
        Some(BinOp::Xor)
    } else {
        None
    }
}

/// expression ::= relation {logical_operator relation}, left-associative.
pub open spec fn spec_p_expr_rest(t: Seq<SpecToken>, i: nat, acc: SpecNode) -> Option<
    (SpecNode, nat),
>
    decreases t.len() - i, 9nat,
{
    match spec_log_op(t, i) {
        Some(op) => match spec_p_relation(t, i + 1) {
            Some((e, j)) => if i < j && j <= t.len() {
                spec_p_expr_rest(
                    t,
                    j,
                    SpecNode::Binary { op, left: Box::new(acc), right: Box::new(e) },
                )
            } else {
                None
            },
            None => None,
        },
        None => Some((acc, i)),
    }
}

#[verifier::opaque]
pub open spec fn spec_p_expr(t: Seq<SpecToken>, i: nat) -> Option<(SpecNode, nat)>
    decreases t.len() - i, 10nat,
{
    match spec_p_relation(t, i) {
        Some((e, j)) => if i < j && j <= t.len() {
            spec_p_expr_rest(t, j, e)
        } else {
            None
        },
        None => None,
    }
}

// ---------------------------------------------------------------------------
// Statements
// ---------------------------------------------------------------------------

/// Whether the token at `i` can start a statement.
pub open spec fn starts_stmt(t: Seq<SpecToken>, i: nat) -> bool {
    i < t.len() && (t[i as int].kind == TokenKind::Ident || t[i as int].kind == TokenKind::KwNull
        || t[i as int].kind == TokenKind::KwReturn || t[i as int].kind == TokenKind::KwIf
        || t[i as int].kind == TokenKind::KwWhile || t[i as int].kind == TokenKind::KwLoop
        || t[i as int].kind == TokenKind::KwFor || t[i as int].kind == TokenKind::KwDeclare
        || t[i as int].kind == TokenKind::KwBegin)
}

/// The tail of an if statement after its condition and first branch:
/// an `elsif` chain (a nested if statement in the else branch), an `else`
/// branch, or `end if ;`. `i0` is the offset of the opening `if` and `j2`
/// the offset where the tail starts.
pub open spec fn spec_p_if_tail(
    t: Seq<SpecToken>,
    i0: nat,
    j2: nat,
    c: SpecNode,
    tb: Seq<SpecNode>,
) -> Option<(SpecNode, nat)>
    decreases t.len() - i0, 12nat,
{
    if !(i0 < j2 && j2 <= t.len()) {
        None
    } else if spec_at(t, j2, TokenKind::KwElsif) {
        match spec_p_if_rest(t, j2) {
            Some((n, j3)) => Some(
                (
                    SpecNode::IfStmt {
                        cond: Box::new(c),
                        then_branch: tb,
                        else_branch: seq![n],
                    },
                    j3,
                ),
            ),
            None => None,
        }
    } else if spec_at(t, j2, TokenKind::KwElse) {
        match spec_p_stmts(t, j2 + 1) {
            Some((eb, j3)) => if spec_at(t, j3, TokenKind::KwEnd) && spec_at(
                t,
                j3 + 1,
                TokenKind::KwIf,
            ) && spec_at(t, j3 + 2, TokenKind::Semi) {
                Some(
                    (
                        SpecNode::IfStmt { cond: Box::new(c), then_branch: tb, else_branch: eb },
                        (j3 + 3) as nat,
                    ),
                )
            } else {
                None
            },
            None => None,
        }
    } else if spec_at(t, j2, TokenKind::KwEnd) && spec_at(t, j2 + 1, TokenKind::KwIf) && spec_at(
        t,
        j2 + 2,
        TokenKind::Semi,
    ) {
        Some(
            (
                SpecNode::IfStmt {
                    cond: Box::new(c),
                    then_branch: tb,
                    else_branch: Seq::empty(),
                },
                (j2 + 3) as nat,
            ),
        )
    } else {
        None
    }
}

/// An if statement from its `if` (or, recursively, `elsif`) keyword: the
/// condition, `then`, the branch, and the tail above.
#[verifier::opaque]
pub open spec fn spec_p_if_rest(t: Seq<SpecToken>, i: nat) -> Option<(SpecNode, nat)>
    decreases t.len() - i, 13nat,
{
    match spec_p_expr(t, i + 1) {
        Some((c, j)) => if i + 1 < j && j <= t.len() && spec_at(t, j, TokenKind::KwThen) {
            match spec_p_stmts(t, j + 1) {
                Some((tb, j2)) => if j + 1 <= j2 && j2 <= t.len() {
                    spec_p_if_tail(t, i, j2, c, tb)
                } else {
                    None
                },
                None => None,
            }
        } else {
            None
        },
        None => None,
    }
}

pub open spec fn spec_p_stmt_return(t: Seq<SpecToken>, i: nat) -> Option<(SpecNode, nat)>
    decreases t.len() - i, 13nat,
{

            if spec_at(t, i + 1, TokenKind::Semi) {
                Some((SpecNode::ReturnStmt { value: None }, (i + 2) as nat))
            } else {
                match spec_p_expr(t, i + 1) {
                    Some((e, j)) => if spec_at(t, j, TokenKind::Semi) {
                        Some(
                            (SpecNode::ReturnStmt { value: Some(Box::new(e)) }, (j + 1) as nat),
                        )
                    } else {
                        None
                    },
                    None => None,
                }
            }
}

pub open spec fn spec_p_stmt_ident(t: Seq<SpecToken>, i: nat) -> Option<(SpecNode, nat)>
    decreases t.len() - i, 13nat,
{

            if spec_at(t, i + 1, TokenKind::Assign) {
                match spec_p_expr(t, i + 2) {
                    Some((e, j)) => if spec_at(t, j, TokenKind::Semi) {
                        Some(
                            (
                                SpecNode::Assign {
                                    name: t[i as int].text,
                                    value: Box::new(e),
                                },
                                (j + 1) as nat,
                            ),
                        )
                    } else {
                        None
                    },
                    None => None,
                }
            } else if spec_at(t, i + 1, TokenKind::LParen) {
                match spec_p_args(t, i + 2) {
                    Some((args, j)) => if spec_at(t, j, TokenKind::Semi) {
                        Some(
                            (SpecNode::Call { name: t[i as int].text, args }, (j + 1) as nat),
                        )
                    } else {
                        None
                    },
                    None => None,
                }
            } else if spec_at(t, i + 1, TokenKind::Semi) {
                Some(
                    (
                        SpecNode::Call { name: t[i as int].text, args: Seq::empty() },
                        (i + 2) as nat,
                    ),
                )
            } else {
                None
            }
}

pub open spec fn spec_p_stmt_while(t: Seq<SpecToken>, i: nat) -> Option<(SpecNode, nat)>
    decreases t.len() - i, 13nat,
{

            match spec_p_expr(t, i + 1) {
                Some((c, j)) => if i + 1 < j && j <= t.len() && spec_at(t, j, TokenKind::KwLoop) {
                    match spec_p_stmts(t, j + 1) {
                        Some((b, j2)) => if spec_at(t, j2, TokenKind::KwEnd) && spec_at(
                            t,
                            j2 + 1,
                            TokenKind::KwLoop,
                        ) && spec_at(t, j2 + 2, TokenKind::Semi) {
                            Some(
                                (
                                    SpecNode::WhileLoop { cond: Box::new(c), body: b },
                                    (j2 + 3) as nat,
                                ),
                            )
                        } else {
                            None
                        },
                        None => None,
                    }
                } else {
                    None
                },
                None => None,
            }
}

pub open spec fn spec_p_stmt_loop(t: Seq<SpecToken>, i: nat) -> Option<(SpecNode, nat)>
    decreases t.len() - i, 13nat,
{
    if i >= t.len() {
        None
    } else {

            match spec_p_stmts(t, i + 1) {
                Some((b, j)) => if spec_at(t, j, TokenKind::KwEnd) && spec_at(
                    t,
                    j + 1,
                    TokenKind::KwLoop,
                ) && spec_at(t, j + 2, TokenKind::Semi) {
                    Some((SpecNode::PlainLoop { body: b }, (j + 3) as nat))
                } else {
                    None
                },
                None => None,
            }
    }
}

pub open spec fn spec_p_stmt_for(t: Seq<SpecToken>, i: nat) -> Option<(SpecNode, nat)>
    decreases t.len() - i, 13nat,
{

            if spec_at(t, i + 1, TokenKind::Ident) && spec_at(t, i + 2, TokenKind::KwIn) {
                let rev = spec_at(t, i + 3, TokenKind::KwReverse);
                let k0: nat = if rev {
                    (i + 4) as nat
                } else {
                    (i + 3) as nat
                };
                match spec_p_simple(t, k0) {
                    Some((lo, j)) => if k0 < j && j <= t.len() && spec_at(
                        t,
                        j,
                        TokenKind::DotDot,
                    ) {
                        match spec_p_simple(t, j + 1) {
                            Some((hi, j2)) => if j + 1 < j2 && j2 <= t.len() && spec_at(
                                t,
                                j2,
                                TokenKind::KwLoop,
                            ) {
                                match spec_p_stmts(t, j2 + 1) {
                                    Some((b, j3)) => if spec_at(t, j3, TokenKind::KwEnd)
                                        && spec_at(t, j3 + 1, TokenKind::KwLoop) && spec_at(
                                        t,
                                        j3 + 2,
                                        TokenKind::Semi,
                                    ) {
                                        Some(
                                            (
                                                SpecNode::ForLoop {
                                                    var: t[i as int + 1].text,
                                                    reverse: rev,
                                                    lo: Box::new(lo),
                                                    hi: Box::new(hi),
                                                    body: b,
                                                },
                                                (j3 + 3) as nat,
                                            ),
                                        )
                                    } else {
                                        None
                                    },
                                    None => None,
                                }
                            } else {
                                None
                            },
                            None => None,
                        }
                    } else {
                        None
                    },
                    None => None,
                }
            } else {
                None
            }
}

pub open spec fn spec_p_stmt_declare(t: Seq<SpecToken>, i: nat) -> Option<(SpecNode, nat)>
    decreases t.len() - i, 13nat,
{
    if i >= t.len() {
        None
    } else {

            match spec_p_decls(t, i + 1) {
                Some((ds, j)) => if i + 1 <= j && j <= t.len() && spec_at(
                    t,
                    j,
                    TokenKind::KwBegin,
                ) {
                    match spec_p_stmts(t, j + 1) {
                        Some((b, j2)) => if spec_at(t, j2, TokenKind::KwEnd) && spec_at(
                            t,
                            j2 + 1,
                            TokenKind::Semi,
                        ) {
                            Some(
                                (SpecNode::Block { decls: ds, body: b }, (j2 + 2) as nat),
                            )
                        } else {
                            None
                        },
                        None => None,
                    }
                } else {
                    None
                },
                None => None,
            }
    }
}

pub open spec fn spec_p_stmt_begin(t: Seq<SpecToken>, i: nat) -> Option<(SpecNode, nat)>
    decreases t.len() - i, 13nat,
{
    if i >= t.len() {
        None
    } else {

            match spec_p_stmts(t, i + 1) {
                Some((b, j)) => if spec_at(t, j, TokenKind::KwEnd) && spec_at(
                    t,
                    j + 1,
                    TokenKind::Semi,
                ) {
                    Some(
                        (SpecNode::Block { decls: Seq::empty(), body: b }, (j + 2) as nat),
                    )
                } else {
                    None
                },
                None => None,
            }
    }
}

/// statement ::= null ; | return [expression] ; | assignment | call |
///               if | while | loop | for | declare block | begin block
pub open spec fn spec_p_stmt(t: Seq<SpecToken>, i: nat) -> Option<(SpecNode, nat)>
    decreases t.len() - i, 14nat,
{
    if i >= t.len() {
        None
    } else {
        let k = t[i as int].kind;
        if k == TokenKind::KwNull {
            if spec_at(t, i + 1, TokenKind::Semi) {
                Some((SpecNode::NullStmt, (i + 2) as nat))
            } else {
                None
            }
        } else if k == TokenKind::KwReturn {
            spec_p_stmt_return(t, i)
        } else if k == TokenKind::Ident {
            spec_p_stmt_ident(t, i)
        } else if k == TokenKind::KwIf {
            spec_p_if_rest(t, i)
        } else if k == TokenKind::KwWhile {
            spec_p_stmt_while(t, i)
        } else if k == TokenKind::KwLoop {
            spec_p_stmt_loop(t, i)
        } else if k == TokenKind::KwFor {
            spec_p_stmt_for(t, i)
        } else if k == TokenKind::KwDeclare {
            spec_p_stmt_declare(t, i)
        } else if k == TokenKind::KwBegin {
            spec_p_stmt_begin(t, i)
        } else {
            None
        }
    }
}

/// A statement list: statements as long as one can start, accumulated in
/// source order.
pub open spec fn spec_p_stmts_acc(t: Seq<SpecToken>, i: nat, acc: Seq<SpecNode>) -> Option<
    (Seq<SpecNode>, nat),
>
    decreases t.len() - i, 15nat,
{
    if !starts_stmt(t, i) {
        Some((acc, i))
    } else {
        match spec_p_stmt(t, i) {
            Some((n, j)) => if i < j && j <= t.len() {
                spec_p_stmts_acc(t, j, acc.push(n))
            } else {
                None
            },
            None => None,
        }
    }
}

#[verifier::opaque]
pub open spec fn spec_p_stmts(t: Seq<SpecToken>, i: nat) -> Option<(Seq<SpecNode>, nat)>
    decreases t.len() - i, 16nat,
{
    spec_p_stmts_acc(t, i, Seq::empty())
}

// ---------------------------------------------------------------------------
// Declarations
// ---------------------------------------------------------------------------

/// parameter_specification ::= identifier : [in [out] | out] type_mark
pub open spec fn spec_p_param(t: Seq<SpecToken>, i: nat) -> Option<(SpecNode, nat)> {
    if spec_at(t, i, TokenKind::Ident) && spec_at(t, i + 1, TokenKind::Colon) {
        let md: (ParamMode, nat) = if spec_at(t, i + 2, TokenKind::KwIn) {
            if spec_at(t, i + 3, TokenKind::KwOut) {
                (ParamMode::InOut, (i + 4) as nat)
            } else {
                (ParamMode::In, (i + 3) as nat)
            }
        } else if spec_at(t, i + 2, TokenKind::KwOut) {
            (ParamMode::Out, (i + 3) as nat)
        } else {
            (ParamMode::In, (i + 2) as nat)
        };
        if spec_at(t, md.1, TokenKind::Ident) {
            Some(
                (
                    SpecNode::Param {
                        name: t[i as int].text,
                        mode: md.0,
                        ty: t[md.1 as int].text,
                    },
                    (md.1 + 1) as nat,
                ),
            )
        } else {
            None
        }
    } else {
        None
    }
}

/// The parameters after the opening parenthesis, separated by `;`, to just
/// past the closing parenthesis.
pub open spec fn spec_p_params_rest(t: Seq<SpecToken>, i: nat, acc: Seq<SpecNode>) -> Option<
    (Seq<SpecNode>, nat),
>
    decreases t.len() - i, 0nat,
{
    match spec_p_param(t, i) {
        Some((p, j)) => if i < j && j <= t.len() {
            if spec_at(t, j, TokenKind::Semi) {
                spec_p_params_rest(t, j + 1, acc.push(p))
            } else if spec_at(t, j, TokenKind::RParen) {
                Some((acc.push(p), (j + 1) as nat))
            } else {
                None
            }
        } else {
            None
        },
        None => None,
    }
}

/// A parenthesized formal part: ( parameter {; parameter} ).
#[verifier::opaque]
pub open spec fn spec_p_params(t: Seq<SpecToken>, i: nat) -> Option<(Seq<SpecNode>, nat)>
    decreases t.len() - i, 1nat,
{
    if spec_at(t, i, TokenKind::LParen) {
        spec_p_params_rest(t, i + 1, Seq::empty())
    } else {
        None
    }
}

/// The offset just past `end [identifier] ;`, with `i` at `end`, or `None`.
pub open spec fn spec_p_end_name(t: Seq<SpecToken>, i: nat) -> Option<nat> {
    if spec_at(t, i, TokenKind::KwEnd) {
        if spec_at(t, i + 1, TokenKind::Ident) && spec_at(t, i + 2, TokenKind::Semi) {
            Some((i + 3) as nat)
        } else if spec_at(t, i + 1, TokenKind::Semi) {
            Some((i + 2) as nat)
        } else {
            None
        }
    } else {
        None
    }
}

pub open spec fn spec_p_decl_object(t: Seq<SpecToken>, i: nat) -> Option<(SpecNode, nat)>
    decreases t.len() - i, 13nat,
{

            if spec_at(t, i + 1, TokenKind::Colon) {
                let ct: (bool, nat) = if spec_at(t, i + 2, TokenKind::KwConstant) {
                    (true, (i + 3) as nat)
                } else {
                    (false, (i + 2) as nat)
                };
                if spec_at(t, ct.1, TokenKind::Ident) {
                    if spec_at(t, ct.1 + 1, TokenKind::Assign) {
                        match spec_p_expr(t, ct.1 + 2) {
                            Some((e, j)) => if spec_at(t, j, TokenKind::Semi) {
                                Some(
                                    (
                                        SpecNode::ObjectDecl {
                                            name: t[i as int].text,
                                            ty: t[ct.1 as int].text,
                                            constant: ct.0,
                                            init: Some(Box::new(e)),
                                        },
                                        (j + 1) as nat,
                                    ),
                                )
                            } else {
                                None
                            },
                            None => None,
                        }
                    } else if spec_at(t, ct.1 + 1, TokenKind::Semi) {
                        Some(
                            (
                                SpecNode::ObjectDecl {
                                    name: t[i as int].text,
                                    ty: t[ct.1 as int].text,
                                    constant: ct.0,
                                    init: None,
                                },
                                (ct.1 + 2) as nat,
                            ),
                        )
                    } else {
                        None
                    }
                } else {
                    None
                }
            } else {
                None
            }
}

pub open spec fn spec_p_decl_type(t: Seq<SpecToken>, i: nat) -> Option<(SpecNode, nat)>
    decreases t.len() - i, 13nat,
{

            if spec_at(t, i + 1, TokenKind::Ident) && spec_at(t, i + 2, TokenKind::KwIs)
                && spec_at(t, i + 3, TokenKind::KwRange) {
                match spec_p_simple(t, i + 4) {
                    Some((lo, j)) => if i + 4 < j && j <= t.len() && spec_at(
                        t,
                        j,
                        TokenKind::DotDot,
                    ) {
                        match spec_p_simple(t, j + 1) {
                            Some((hi, j2)) => if spec_at(t, j2, TokenKind::Semi) {
                                Some(
                                    (
                                        SpecNode::TypeDecl {
                                            name: t[i as int + 1].text,
                                            lo: Box::new(lo),
                                            hi: Box::new(hi),
                                        },
                                        (j2 + 1) as nat,
                                    ),
                                )
                            } else {
                                None
                            },
                            None => None,
                        }
                    } else {
                        None
                    },
                    None => None,
                }
            } else {
                None
            }
}

pub open spec fn spec_p_decl_subprog(t: Seq<SpecToken>, i: nat) -> Option<(SpecNode, nat)>
    decreases t.len() - i, 13nat,
{

            if spec_at(t, i + 1, TokenKind::Ident) {
                let pr: Option<(Seq<SpecNode>, nat)> = if spec_at(t, i + 2, TokenKind::LParen) {
                    spec_p_params(t, i + 2)
                } else {
                    Some((Seq::empty(), (i + 2) as nat))
                };
                match pr {
                    Some((ps, k0)) => if i + 1 < k0 && k0 <= t.len() {
                        let rt: Option<(Option<Seq<char>>, nat)> = if t[i as int].kind == TokenKind::KwFunction {
                            if spec_at(t, k0, TokenKind::KwReturn) && spec_at(
                                t,
                                k0 + 1,
                                TokenKind::Ident,
                            ) {
                                Some((Some(t[k0 as int + 1].text), (k0 + 2) as nat))
                            } else {
                                None
                            }
                        } else {
                            Some((None, k0))
                        };
                        match rt {
                            Some((ret, k1)) => if k0 <= k1 && k1 <= t.len() && spec_at(
                                t,
                                k1,
                                TokenKind::KwIs,
                            ) {
                                match spec_p_decls(t, k1 + 1) {
                                    Some((ds, j1)) => if k1 + 1 <= j1 && j1 <= t.len()
                                        && spec_at(t, j1, TokenKind::KwBegin) {
                                        match spec_p_stmts(t, j1 + 1) {
                                            Some((b, j2)) => match spec_p_end_name(t, j2) {
                                                Some(j3) => Some(
                                                    (
                                                        SpecNode::Subprogram {
                                                            name: t[i as int + 1].text,
                                                            params: ps,
                                                            return_type: ret,
                                                            decls: ds,
                                                            body: b,
                                                        },
                                                        j3,
                                                    ),
                                                ),
                                                None => None,
                                            },
                                            None => None,
                                        }
                                    } else {
                                        None
                                    },
                                    None => None,
                                }
                            } else {
                                None
                            },
                            None => None,
                        }
                    } else {
                        None
                    },
                    None => None,
                }
            } else {
                None
            }
}

pub open spec fn spec_p_decl_package(t: Seq<SpecToken>, i: nat) -> Option<(SpecNode, nat)>
    decreases t.len() - i, 13nat,
{

            if spec_at(t, i + 1, TokenKind::Ident) && spec_at(t, i + 2, TokenKind::KwIs) {
                match spec_p_decls(t, i + 3) {
                    Some((ds, j)) => if i + 3 <= j && j <= t.len() {
                        match spec_p_end_name(t, j) {
                            Some(j2) => Some(
                                (
                                    SpecNode::Package { name: t[i as int + 1].text, decls: ds },
                                    j2,
                                ),
                            ),
                            None => None,
                        }
                    } else {
                        None
                    },
                    None => None,
                }
            } else {
                None
            }
}

/// declaration ::= object | type | subprogram body | package
pub open spec fn spec_p_decl(t: Seq<SpecToken>, i: nat) -> Option<(SpecNode, nat)>
    decreases t.len() - i, 17nat,
{
    if i >= t.len() {
        None
    } else {
        let k = t[i as int].kind;
        if k == TokenKind::Ident {
            spec_p_decl_object(t, i)
        } else if k == TokenKind::KwType {
            spec_p_decl_type(t, i)
        } else if k == TokenKind::KwProcedure || k == TokenKind::KwFunction {
            spec_p_decl_subprog(t, i)
        } else if k == TokenKind::KwPackage {
            spec_p_decl_package(t, i)
        } else {
            None
        }
    }
}

/// Whether the token at `i` can start a declaration.
pub open spec fn starts_decl(t: Seq<SpecToken>, i: nat) -> bool {
    i < t.len() && (t[i as int].kind == TokenKind::Ident || t[i as int].kind == TokenKind::KwType
        || t[i as int].kind == TokenKind::KwProcedure || t[i as int].kind
        == TokenKind::KwFunction || t[i as int].kind == TokenKind::KwPackage)
}

/// A declaration list: declarations as long as one can start, accumulated
/// in source order.
pub open spec fn spec_p_decls_acc(t: Seq<SpecToken>, i: nat, acc: Seq<SpecNode>) -> Option<
    (Seq<SpecNode>, nat),
>
    decreases t.len() - i, 18nat,
{
    if !starts_decl(t, i) {
        Some((acc, i))
    } else {
        match spec_p_decl(t, i) {
            Some((n, j)) => if i < j && j <= t.len() {
                spec_p_decls_acc(t, j, acc.push(n))
            } else {
                None
            },
            None => None,
        }
    }
}

#[verifier::opaque]
pub open spec fn spec_p_decls(t: Seq<SpecToken>, i: nat) -> Option<(Seq<SpecNode>, nat)>
    decreases t.len() - i, 19nat,
{
    spec_p_decls_acc(t, i, Seq::empty())
}

// ---------------------------------------------------------------------------
// The three grammar roots, over a token sequence
// ---------------------------------------------------------------------------

/// The program root: exactly one compilation unit — a subprogram body or a
/// package — covering the whole token sequence, wrapped in a Program node.
pub open spec fn spec_p_program(t: Seq<SpecToken>) -> Option<SpecNode> {
    match spec_p_decl(t, 0) {
        Some((n, j)) => if j == t.len() && (n is Subprogram || n is Package) {
            Some(SpecNode::Program { unit: Box::new(n) })
        } else {
            None
        },
        None => None,
    }
}

/// The declaration-list root: a possibly empty declaration list covering
/// the whole token sequence.
pub open spec fn spec_p_decl_list(t: Seq<SpecToken>) -> Option<Seq<SpecNode>> {
    match spec_p_decls(t, 0) {
        Some((ds, j)) => if j == t.len() {
            Some(ds)
        } else {
            None
        },
        None => None,
    }
}

/// The statement-list root: a possibly empty statement list covering the
/// whole token sequence.
pub open spec fn spec_p_stmt_list(t: Seq<SpecToken>) -> Option<Seq<SpecNode>> {
    match spec_p_stmts(t, 0) {
        Some((ss, j)) => if j == t.len() {
            Some(ss)
        } else {
            None
        },
        None => None,
    }
}

// ---------------------------------------------------------------------------
// Executable parser
// ---------------------------------------------------------------------------

/// Whether the token at `base + off` exists and has kind `k`.
fn peek_at(toks: &Vec<Token>, base: usize, off: usize, k: TokenKind) -> (r: bool)
    requires
        base <= toks.len(),
        off <= 4,
    ensures
        r == spec_at(toks_model(toks@), base as nat + off as nat, k),
{
    proof {
        lemma_toks_model_index(toks@);
    }
    if toks.len() - base > off {
        proof {
            assert(toks_model(toks@)[(base + off) as int] == toks@[(base + off) as int]@);
        }
        toks[base + off].kind == k
    } else {
        false
    }
}

/// The lexeme text of the token at `i`.
fn tok_text(toks: &Vec<Token>, i: usize) -> (s: String)
    requires
        i < toks.len(),
    ensures
        s@ == toks_model(toks@)[i as int].text,
{
    proof {
        lemma_toks_model_index(toks@);
        assert(toks_model(toks@)[i as int] == toks@[i as int]@);
    }
    toks[i].text.clone()
}

#[verifier::rlimit(100)]
#[verifier::spinoff_prover]
pub(crate) fn p_primary(toks: &Vec<Token>, i: usize) -> (r: Result<(Node, usize), usize>)
    requires
        i <= toks.len(),
    ensures
        match r {
            Ok((n, j)) => spec_p_primary(toks_model(toks@), i as nat) == Some((n@, j as nat)) && i
                < j <= toks.len(),
            Err(_) => spec_p_primary(toks_model(toks@), i as nat) is None,
        },
    decreases toks.len() - i, 0nat,
{
    proof {
        lemma_toks_model_index(toks@);
        reveal_with_fuel(spec_p_args, 1);
        reveal_with_fuel(spec_p_expr, 1);
    }
    if i >= toks.len() {
        Err(i)
    } else {
        proof {
            assert(toks_model(toks@)[i as int] == toks@[i as int]@);
        }
        let k = toks[i].kind;
        if k == TokenKind::IntLit {
            Ok((Node::Lit { kind: LitKind::Int, value: tok_text(toks, i) }, i + 1))
        } else if k == TokenKind::RealLit {
            Ok((Node::Lit { kind: LitKind::Real, value: tok_text(toks, i) }, i + 1))
        } else if k == TokenKind::StrLit {
            Ok((Node::Lit { kind: LitKind::Str, value: tok_text(toks, i) }, i + 1))
        } else if k == TokenKind::ChrLit {
            Ok((Node::Lit { kind: LitKind::Chr, value: tok_text(toks, i) }, i + 1))
        } else if k == TokenKind::Ident {
            if peek_at(toks, i, 1, TokenKind::LParen) {
                match p_args(toks, i + 2) {
                    Ok((args, j)) => Ok((Node::Call { name: tok_text(toks, i), args }, j)),
                    Err(p) => Err(p),
                }
            } else {
                Ok((Node::Ident { name: tok_text(toks, i) }, i + 1))
            }
        } else if k == TokenKind::LParen {
            match p_expr(toks, i + 1) {
                Ok((e, j)) => if peek_at(toks, j, 0, TokenKind::RParen) {
                    Ok((e, j + 1))
                } else {
                    Err(j)
                },
                Err(p) => Err(p),
            }
        } else {
            Err(i)
        }
    }
}

pub(crate) fn p_args_rest(toks: &Vec<Token>, i: usize, acc: Vec<Node>) -> (r: Result<
    (Vec<Node>, usize),
    usize,
>)
    requires
        i <= toks.len(),
    ensures
        match r {
            Ok((ns, j)) => spec_p_args_rest(toks_model(toks@), i as nat, models(acc@)) == Some(
                (models(ns@), j as nat),
            ) && i < j <= toks.len(),
            Err(_) => spec_p_args_rest(toks_model(toks@), i as nat, models(acc@)) is None,
        },
    decreases toks.len() - i, 11nat,
{
    proof {
        lemma_toks_model_index(toks@);
        reveal_with_fuel(spec_p_expr, 1);
    }
    match p_expr(toks, i) {
        Ok((e, j)) => {
            if peek_at(toks, j, 0, TokenKind::Comma) {
                let mut a = acc;
                proof {
                    lemma_models_push(a@, e);
                }
                a.push(e);
                p_args_rest(toks, j + 1, a)
            } else if peek_at(toks, j, 0, TokenKind::RParen) {
                let mut a = acc;
                proof {
                    lemma_models_push(a@, e);
                }
                a.push(e);
                Ok((a, j + 1))
            } else {
                Err(j)
            }
        },
        Err(p) => Err(p),
    }
}

pub(crate) fn p_args(toks: &Vec<Token>, i: usize) -> (r: Result<(Vec<Node>, usize), usize>)
    requires
        i <= toks.len(),
    ensures
        match r {
            Ok((ns, j)) => spec_p_args(toks_model(toks@), i as nat) == Some(
                (models(ns@), j as nat),
            ) && i < j <= toks.len(),
            Err(_) => spec_p_args(toks_model(toks@), i as nat) is None,
        },
    decreases toks.len() - i, 12nat,
{
    proof {
        reveal_with_fuel(spec_p_args, 1);
    }
    proof {
        lemma_toks_model_index(toks@);
    }
    let acc: Vec<Node> = Vec::new();
    proof {
        assert(models(acc@) =~= Seq::<SpecNode>::empty());
    }
    p_args_rest(toks, i, acc)
}

#[verifier::rlimit(100)]
#[verifier::spinoff_prover]
pub(crate) fn p_factor(toks: &Vec<Token>, i: usize) -> (r: Result<(Node, usize), usize>)
    requires
        i <= toks.len(),
    ensures
        match r {
            Ok((n, j)) => spec_p_factor(toks_model(toks@), i as nat) == Some((n@, j as nat)) && i
                < j <= toks.len(),
            Err(_) => spec_p_factor(toks_model(toks@), i as nat) is None,
        },
    decreases toks.len() - i, 1nat,
{
    proof {
        lemma_toks_model_index(toks@);
    }
    if peek_at(toks, i, 0, TokenKind::KwNot) {
        match p_primary(toks, i + 1) {
            Ok((e, j)) => Ok((Node::Unary { op: UnOp::Not, operand: Box::new(e) }, j)),
            Err(p) => Err(p),
        }
    } else if peek_at(toks, i, 0, TokenKind::KwAbs) {
        match p_primary(toks, i + 1) {
            Ok((e, j)) => Ok((Node::Unary { op: UnOp::Abs, operand: Box::new(e) }, j)),
            Err(p) => Err(p),
        }
    } else {
        match p_primary(toks, i) {
            Ok((e, j)) => if peek_at(toks, j, 0, TokenKind::StarStar) {
                match p_primary(toks, j + 1) {
                    Ok((e2, j2)) => Ok(
                        (
                            Node::Binary { op: BinOp::Pow, left: Box::new(e), right: Box::new(e2) },
                            j2,
                        ),
                    ),
                    Err(p) => Err(p),
                }
            } else {
                Ok((e, j))
            },
            Err(p) => Err(p),
        }
    }
}

/// The multiplying operator at `i`, if any.
fn mul_op(toks: &Vec<Token>, i: usize) -> (r: Option<BinOp>)
    requires
        i <= toks.len(),
    ensures
        r == spec_mul_op(toks_model(toks@), i as nat),
{
    proof {
        lemma_toks_model_index(toks@);
    }
    if peek_at(toks, i, 0, TokenKind::Star) {
        Some(BinOp::Mul)
    } else if peek_at(toks, i, 0, TokenKind::Slash) {
        Some(BinOp::Div)
    } else if peek_at(toks, i, 0, TokenKind::KwMod) {
        Some(BinOp::Mod)
    } else if peek_at(toks, i, 0, TokenKind::KwRem) {
        Some(BinOp::Rem)
    } else {
        None
    }
}

pub(crate) fn p_term_rest(toks: &Vec<Token>, i: usize, acc: Node) -> (r: Result<
    (Node, usize),
    usize,
>)
    requires
        i <= toks.len(),
    ensures
        match r {
            Ok((n, j)) => spec_p_term_rest(toks_model(toks@), i as nat, acc@) == Some(
                (n@, j as nat),
            ) && i <= j <= toks.len(),
            Err(_) => spec_p_term_rest(toks_model(toks@), i as nat, acc@) is None,
        },
    decreases toks.len() - i, 2nat,
{
    proof {
        lemma_toks_model_index(toks@);
    }
    match mul_op(toks, i) {
        Some(op) => match p_factor(toks, i + 1) {
            Ok((e, j)) => p_term_rest(
                toks,
                j,
                Node::Binary { op, left: Box::new(acc), right: Box::new(e) },
            ),
            Err(p) => Err(p),
        },
        None => Ok((acc, i)),
    }
}

pub(crate) fn p_term(toks: &Vec<Token>, i: usize) -> (r: Result<(Node, usize), usize>)
    requires
        i <= toks.len(),
    ensures
        match r {
            Ok((n, j)) => spec_p_term(toks_model(toks@), i as nat) == Some((n@, j as nat)) && i < j
                <= toks.len(),
            Err(_) => spec_p_term(toks_model(toks@), i as nat) is None,
        },
    decreases toks.len() - i, 3nat,
{
    proof {
        lemma_toks_model_index(toks@);
    }
    match p_factor(toks, i) {
        Ok((e, j)) => p_term_rest(toks, j, e),
        Err(p) => Err(p),
    }
}

/// The binary adding operator at `i`, if any.
fn add_op(toks: &Vec<Token>, i: usize) -> (r: Option<BinOp>)
    requires
        i <= toks.len(),
    ensures
        r == spec_add_op(toks_model(toks@), i as nat),
{
    proof {
        lemma_toks_model_index(toks@);
    }
    if peek_at(toks, i, 0, TokenKind::PlusOp) {
        Some(BinOp::Add)
    } else if peek_at(toks, i, 0, TokenKind::MinusOp) {
        Some(BinOp::Sub)
    } else if peek_at(toks, i, 0, TokenKind::Amp) {
        Some(BinOp::Concat)
    } else {
        None
    }
}

pub(crate) fn p_simple_rest(toks: &Vec<Token>, i: usize, acc: Node) -> (r: Result<
    (Node, usize),
    usize,
>)
    requires
        i <= toks.len(),
    ensures
        match r {
            Ok((n, j)) => spec_p_simple_rest(toks_model(toks@), i as nat, acc@) == Some(
                (n@, j as nat),
            ) && i <= j <= toks.len(),
            Err(_) => spec_p_simple_rest(toks_model(toks@), i as nat, acc@) is None,
        },
    decreases toks.len() - i, 4nat,
{
    proof {
        lemma_toks_model_index(toks@);
    }
    match add_op(toks, i) {
        Some(op) => match p_term(toks, i + 1) {
            Ok((e, j)) => p_simple_rest(
                toks,
                j,
                Node::Binary { op, left: Box::new(acc), right: Box::new(e) },
            ),
            Err(p) => Err(p),
        },
        None => Ok((acc, i)),
    }
}

pub(crate) fn p_simple(toks: &Vec<Token>, i: usize) -> (r: Result<(Node, usize), usize>)
    requires
        i <= toks.len(),
    ensures
        match r {
            Ok((n, j)) => spec_p_simple(toks_model(toks@), i as nat) == Some((n@, j as nat)) && i
                < j <= toks.len(),
            Err(_) => spec_p_simple(toks_model(toks@), i as nat) is None,
        },
    decreases toks.len() - i, 5nat,
{
    proof {
        reveal_with_fuel(spec_p_simple, 1);
    }
    proof {
        lemma_toks_model_index(toks@);
    }
    if peek_at(toks, i, 0, TokenKind::PlusOp) || peek_at(toks, i, 0, TokenKind::MinusOp) {
        proof {
            assert(toks_model(toks@)[i as int] == toks@[i as int]@);
        }
        let op = if toks[i].kind == TokenKind::PlusOp {
            UnOp::Plus
        } else {
            UnOp::Neg
        };
        match p_term(toks, i + 1) {
            Ok((e, j)) => p_simple_rest(toks, j, Node::Unary { op, operand: Box::new(e) }),
            Err(p) => Err(p),
        }
    } else {
        match p_term(toks, i) {
            Ok((e, j)) => p_simple_rest(toks, j, e),
            Err(p) => Err(p),
        }
    }
}

/// The relational operator at `i`, if any.
fn rel_op(toks: &Vec<Token>, i: usize) -> (r: Option<BinOp>)
    requires
        i <= toks.len(),
    ensures
        r == spec_rel_op(toks_model(toks@), i as nat),
{
    proof {
        lemma_toks_model_index(toks@);
    }
    if peek_at(toks, i, 0, TokenKind::EqOp) {
        Some(BinOp::Eq)
    } else if peek_at(toks, i, 0, TokenKind::NeOp) {
        Some(BinOp::Ne)
    } else if peek_at(toks, i, 0, TokenKind::LtOp) {
        Some(BinOp::Lt)
    } else if peek_at(toks, i, 0, TokenKind::LeOp) {
        Some(BinOp::Le)
    } else if peek_at(toks, i, 0, TokenKind::GtOp) {
        Some(BinOp::Gt)
    } else if peek_at(toks, i, 0, TokenKind::GeOp) {
        Some(BinOp::Ge)
    } else {
        None
    }
}

#[verifier::rlimit(100)]
#[verifier::spinoff_prover]
pub(crate) fn p_relation(toks: &Vec<Token>, i: usize) -> (r: Result<(Node, usize), usize>)
    requires
        i <= toks.len(),
    ensures
        match r {
            Ok((n, j)) => spec_p_relation(toks_model(toks@), i as nat) == Some((n@, j as nat))
                && i < j <= toks.len(),
            Err(_) => spec_p_relation(toks_model(toks@), i as nat) is None,
        },
    decreases toks.len() - i, 6nat,
{
    proof {
        lemma_toks_model_index(toks@);
    }
    match p_simple(toks, i) {
        Ok((e, j)) => match rel_op(toks, j) {
            Some(op) => match p_simple(toks, j + 1) {
                Ok((e2, j2)) => if rel_op(toks, j2).is_some() {
                    Err(j2)
                } else {
                    Ok((Node::Binary { op, left: Box::new(e), right: Box::new(e2) }, j2))
                },
                Err(p) => Err(p),
            },
            None => Ok((e, j)),
        },
        Err(p) => Err(p),
    }
}

/// The logical operator at `i`, if any.
fn log_op(toks: &Vec<Token>, i: usize) -> (r: Option<BinOp>)
    requires
        i <= toks.len(),
    ensures
        r == spec_log_op(toks_model(toks@), i as nat),
{
    proof {
        lemma_toks_model_index(toks@);
    }
    if peek_at(toks, i, 0, TokenKind::KwAnd) {
        Some(BinOp::And)
    } else if peek_at(toks, i, 0, TokenKind::KwOr) {
        Some(BinOp::Or)
    } else if peek_at(toks, i, 0, TokenKind::KwXor) {
        Some(BinOp::Xor)
    } else {
        None
    }
}

pub(crate) fn p_expr_rest(toks: &Vec<Token>, i: usize, acc: Node) -> (r: Result<
    (Node, usize),
    usize,
>)
    requires
        i <= toks.len(),
    ensures
        match r {
            Ok((n, j)) => spec_p_expr_rest(toks_model(toks@), i as nat, acc@) == Some(
                (n@, j as nat),
            ) && i <= j <= toks.len(),
            Err(_) => spec_p_expr_rest(toks_model(toks@), i as nat, acc@) is None,
        },
    decreases toks.len() - i, 9nat,
{
    proof {
        lemma_toks_model_index(toks@);
    }
    match log_op(toks, i) {
        Some(op) => match p_relation(toks, i + 1) {
            Ok((e, j)) => p_expr_rest(
                toks,
                j,
                Node::Binary { op, left: Box::new(acc), right: Box::new(e) },
            ),
            Err(p) => Err(p),
        },
        None => Ok((acc, i)),
    }
}

pub(crate) fn p_expr(toks: &Vec<Token>, i: usize) -> (r: Result<(Node, usize), usize>)
    requires
        i <= toks.len(),
    ensures
        match r {
            Ok((n, j)) => spec_p_expr(toks_model(toks@), i as nat) == Some((n@, j as nat)) && i < j
                <= toks.len(),
            Err(_) => spec_p_expr(toks_model(toks@), i as nat) is None,
        },
    decreases toks.len() - i, 10nat,
{
    proof {
        reveal_with_fuel(spec_p_expr, 1);
    }
    proof {
        lemma_toks_model_index(toks@);
    }
    match p_relation(toks, i) {
        Ok((e, j)) => p_expr_rest(toks, j, e),
        Err(p) => Err(p),
    }
}

/// Whether the token at `i` can start a statement.
fn starts_stmt_x(toks: &Vec<Token>, i: usize) -> (r: bool)
    requires
        i <= toks.len(),
    ensures
        r == starts_stmt(toks_model(toks@), i as nat),
{
    proof {
        lemma_toks_model_index(toks@);
    }
    peek_at(toks, i, 0, TokenKind::Ident) || peek_at(toks, i, 0, TokenKind::KwNull) || peek_at(
        toks,
        i,
        0,
        TokenKind::KwReturn,
    ) || peek_at(toks, i, 0, TokenKind::KwIf) || peek_at(toks, i, 0, TokenKind::KwWhile)
        || peek_at(toks, i, 0, TokenKind::KwLoop) || peek_at(toks, i, 0, TokenKind::KwFor)
        || peek_at(toks, i, 0, TokenKind::KwDeclare) || peek_at(toks, i, 0, TokenKind::KwBegin)
}

#[verifier::rlimit(100)]
#[verifier::spinoff_prover]
fn p_if_tail(toks: &Vec<Token>, i0: usize, j2: usize, c: Node, tb: Vec<Node>) -> (r: Result<
    (Node, usize),
    usize,
>)
    requires
        i0 < j2 <= toks.len(),
    ensures
        match r {
            Ok((n, j)) => spec_p_if_tail(toks_model(toks@), i0 as nat, j2 as nat, c@, models(tb@))
                == Some((n@, j as nat)) && i0 < j <= toks.len(),
            Err(_) => spec_p_if_tail(
                toks_model(toks@),
                i0 as nat,
                j2 as nat,
                c@,
                models(tb@),
            ) is None,
        },
    decreases toks.len() - i0, 12nat,
{
    proof {
        lemma_toks_model_index(toks@);
    }
    if peek_at(toks, j2, 0, TokenKind::KwElsif) {
        match p_if_rest(toks, j2) {
            Ok((n, j3)) => {
                let mut eb: Vec<Node> = Vec::new();
                proof {
                    lemma_models_push(eb@, n);
                    assert(models(Seq::<Node>::empty()) =~= Seq::<SpecNode>::empty());
                }
                eb.push(n);
                proof {
                    assert(models(eb@) =~= seq![eb@[0].model()]);
                }
                Ok((Node::IfStmt { cond: Box::new(c), then_branch: tb, else_branch: eb }, j3))
            },
            Err(p) => Err(p),
        }
    } else if peek_at(toks, j2, 0, TokenKind::KwElse) {
        match p_stmts(toks, j2 + 1) {
            Ok((eb, j3)) => {
                if peek_at(toks, j3, 0, TokenKind::KwEnd) && peek_at(toks, j3, 1, TokenKind::KwIf)
                    && peek_at(toks, j3, 2, TokenKind::Semi) {
                    Ok(
                        (
                            Node::IfStmt { cond: Box::new(c), then_branch: tb, else_branch: eb },
                            j3 + 3,
                        ),
                    )
                } else {
                    Err(j3)
                }
            },
            Err(p) => Err(p),
        }
    } else if peek_at(toks, j2, 0, TokenKind::KwEnd) && peek_at(toks, j2, 1, TokenKind::KwIf)
        && peek_at(toks, j2, 2, TokenKind::Semi) {
        let eb: Vec<Node> = Vec::new();
        proof {
            assert(models(eb@) =~= Seq::<SpecNode>::empty());
        }
        Ok((Node::IfStmt { cond: Box::new(c), then_branch: tb, else_branch: eb }, j2 + 3))
    } else {
        Err(j2)
    }
}

#[verifier::rlimit(100)]
#[verifier::spinoff_prover]
pub(crate) fn p_if_rest(toks: &Vec<Token>, i: usize) -> (r: Result<(Node, usize), usize>)
    requires
        i < toks.len(),
    ensures
        match r {
            Ok((n, j)) => spec_p_if_rest(toks_model(toks@), i as nat) == Some((n@, j as nat)) && i
                < j <= toks.len(),
            Err(_) => spec_p_if_rest(toks_model(toks@), i as nat) is None,
        },
    decreases toks.len() - i, 13nat,
{
    proof {
        reveal_with_fuel(spec_p_if_rest, 1);
    }
    proof {
        lemma_toks_model_index(toks@);
    }
    match p_expr(toks, i + 1) {
        Ok((c, j)) => {
            if peek_at(toks, j, 0, TokenKind::KwThen) {
                match p_stmts(toks, j + 1) {
                    Ok((tb, j2)) => p_if_tail(toks, i, j2, c, tb),
                    Err(p) => Err(p),
                }
            } else {
                Err(j)
            }
        },
        Err(p) => Err(p),
    }
}

#[verifier::rlimit(100)]
#[verifier::spinoff_prover]
fn p_stmt_return(toks: &Vec<Token>, i: usize) -> (r: Result<(Node, usize), usize>)
    requires
        i < toks.len(),
        toks_model(toks@)[i as int].kind == TokenKind::KwReturn,
    ensures
        match r {
            Ok((n, j)) => spec_p_stmt_return(toks_model(toks@), i as nat) == Some((n@, j as nat)) && i < j
                <= toks.len(),
            Err(_) => spec_p_stmt_return(toks_model(toks@), i as nat) is None,
        },
    decreases toks.len() - i, 13nat,
{
    proof {
        lemma_toks_model_index(toks@);
    }
    if peek_at(toks, i, 1, TokenKind::Semi) {
        Ok((Node::ReturnStmt { value: None }, i + 2))
    } else {
        match p_expr(toks, i + 1) {
            Ok((e, j)) => if peek_at(toks, j, 0, TokenKind::Semi) {
                Ok((Node::ReturnStmt { value: Some(Box::new(e)) }, j + 1))
            } else {
                Err(j)
            },
            Err(p) => Err(p),
        }
    }
}

#[verifier::rlimit(100)]
#[verifier::spinoff_prover]
fn p_stmt_ident(toks: &Vec<Token>, i: usize) -> (r: Result<(Node, usize), usize>)
    requires
        i < toks.len(),
        toks_model(toks@)[i as int].kind == TokenKind::Ident,
    ensures
        match r {
            Ok((n, j)) => spec_p_stmt_ident(toks_model(toks@), i as nat) == Some((n@, j as nat)) && i < j
                <= toks.len(),
            Err(_) => spec_p_stmt_ident(toks_model(toks@), i as nat) is None,
        },
    decreases toks.len() - i, 13nat,
{
    proof {
        lemma_toks_model_index(toks@);
    }
    if peek_at(toks, i, 1, TokenKind::Assign) {
        match p_expr(toks, i + 2) {
            Ok((e, j)) => if peek_at(toks, j, 0, TokenKind::Semi) {
                Ok((Node::Assign { name: tok_text(toks, i), value: Box::new(e) }, j + 1))
            } else {
                Err(j)
            },
            Err(p) => Err(p),
        }
    } else if peek_at(toks, i, 1, TokenKind::LParen) {
        match p_args(toks, i + 2) {
            Ok((args, j)) => if peek_at(toks, j, 0, TokenKind::Semi) {
                Ok((Node::Call { name: tok_text(toks, i), args }, j + 1))
            } else {
                Err(j)
            },
            Err(p) => Err(p),
        }
    } else if peek_at(toks, i, 1, TokenKind::Semi) {
        let args: Vec<Node> = Vec::new();
        proof {
            assert(models(args@) =~= Seq::<SpecNode>::empty());
        }
        Ok((Node::Call { name: tok_text(toks, i), args }, i + 2))
    } else {
        Err(i + 1)
    }
}

#[verifier::rlimit(100)]
#[verifier::spinoff_prover]
fn p_stmt_while(toks: &Vec<Token>, i: usize) -> (r: Result<(Node, usize), usize>)
    requires
        i < toks.len(),
        toks_model(toks@)[i as int].kind == TokenKind::KwWhile,
    ensures
        match r {
            Ok((n, j)) => spec_p_stmt_while(toks_model(toks@), i as nat) == Some((n@, j as nat)) && i < j
                <= toks.len(),
            Err(_) => spec_p_stmt_while(toks_model(toks@), i as nat) is None,
        },
    decreases toks.len() - i, 13nat,
{
    proof {
        lemma_toks_model_index(toks@);
    }
    match p_expr(toks, i + 1) {
        Ok((c, j)) => {
            if peek_at(toks, j, 0, TokenKind::KwLoop) {
                match p_stmts(toks, j + 1) {
                    Ok((b, j2)) => {
                        if peek_at(toks, j2, 0, TokenKind::KwEnd) && peek_at(
                            toks,
                            j2,
                            1,
                            TokenKind::KwLoop,
                        ) && peek_at(toks, j2, 2, TokenKind::Semi) {
                            Ok((Node::WhileLoop { cond: Box::new(c), body: b }, j2 + 3))
                        } else {
                            Err(j2)
                        }
                    },
                    Err(p) => Err(p),
                }
            } else {
                Err(j)
            }
        },
        Err(p) => Err(p),
    }
}

#[verifier::rlimit(100)]
#[verifier::spinoff_prover]
fn p_stmt_loop(toks: &Vec<Token>, i: usize) -> (r: Result<(Node, usize), usize>)
    requires
        i < toks.len(),
        toks_model(toks@)[i as int].kind == TokenKind::KwLoop,
    ensures
        match r {
            Ok((n, j)) => spec_p_stmt_loop(toks_model(toks@), i as nat) == Some((n@, j as nat)) && i < j
                <= toks.len(),
            Err(_) => spec_p_stmt_loop(toks_model(toks@), i as nat) is None,
        },
    decreases toks.len() - i, 13nat,
{
    proof {
        lemma_toks_model_index(toks@);
    }
    match p_stmts(toks, i + 1) {
        Ok((b, j)) => {
            if peek_at(toks, j, 0, TokenKind::KwEnd) && peek_at(toks, j, 1, TokenKind::KwLoop)
                && peek_at(toks, j, 2, TokenKind::Semi) {
                Ok((Node::PlainLoop { body: b }, j + 3))
            } else {
                Err(j)
            }
        },
        Err(p) => Err(p),
    }
}

#[verifier::rlimit(100)]
#[verifier::spinoff_prover]
fn p_stmt_for(toks: &Vec<Token>, i: usize) -> (r: Result<(Node, usize), usize>)
    requires
        i < toks.len(),
        toks_model(toks@)[i as int].kind == TokenKind::KwFor,
    ensures
        match r {
            Ok((n, j)) => spec_p_stmt_for(toks_model(toks@), i as nat) == Some((n@, j as nat)) && i < j
                <= toks.len(),
            Err(_) => spec_p_stmt_for(toks_model(toks@), i as nat) is None,
        },
    decreases toks.len() - i, 13nat,
{
    proof {
        lemma_toks_model_index(toks@);
    }
    if peek_at(toks, i, 1, TokenKind::Ident) && peek_at(toks, i, 2, TokenKind::KwIn) {
        let rev = peek_at(toks, i, 3, TokenKind::KwReverse);
        let k0: usize = if rev {
            i + 4
        } else {
            i + 3
        };
        match p_simple(toks, k0) {
            Ok((lo, j)) => {
                if peek_at(toks, j, 0, TokenKind::DotDot) {
                    match p_simple(toks, j + 1) {
                        Ok((hi, j2)) => {
                            if peek_at(toks, j2, 0, TokenKind::KwLoop) {
                                match p_stmts(toks, j2 + 1) {
                                    Ok((b, j3)) => {
                                        if peek_at(toks, j3, 0, TokenKind::KwEnd) && peek_at(
                                            toks,
                                            j3,
                                            1,
                                            TokenKind::KwLoop,
                                        ) && peek_at(toks, j3, 2, TokenKind::Semi) {
                                            Ok(
                                                (
                                                    Node::ForLoop {
                                                        var: tok_text(toks, i + 1),
                                                        reverse: rev,
                                                        lo: Box::new(lo),
                                                        hi: Box::new(hi),
                                                        body: b,
                                                    },
                                                    j3 + 3,
                                                ),
                                            )
                                        } else {
                                            Err(j3)
                                        }
                                    },
                                    Err(p) => Err(p),
                                }
                            } else {
                                Err(j2)
                            }
                        },
                        Err(p) => Err(p),
                    }
                } else {
                    Err(j)
                }
            },
            Err(p) => Err(p),
        }
    } else {
        Err(i + 1)
    }
}

#[verifier::rlimit(100)]
#[verifier::spinoff_prover]
fn p_stmt_declare(toks: &Vec<Token>, i: usize) -> (r: Result<(Node, usize), usize>)
    requires
        i < toks.len(),
        toks_model(toks@)[i as int].kind == TokenKind::KwDeclare,
    ensures
        match r {
            Ok((n, j)) => spec_p_stmt_declare(toks_model(toks@), i as nat) == Some((n@, j as nat)) && i < j
                <= toks.len(),
            Err(_) => spec_p_stmt_declare(toks_model(toks@), i as nat) is None,
        },
    decreases toks.len() - i, 13nat,
{
    proof {
        lemma_toks_model_index(toks@);
    }
    match p_decls(toks, i + 1) {
        Ok((ds, j)) => {
            if peek_at(toks, j, 0, TokenKind::KwBegin) {
                match p_stmts(toks, j + 1) {
                    Ok((b, j2)) => {
                        if peek_at(toks, j2, 0, TokenKind::KwEnd) && peek_at(
                            toks,
                            j2,
                            1,
                            TokenKind::Semi,
                        ) {
                            Ok((Node::Block { decls: ds, body: b }, j2 + 2))
                        } else {
                            Err(j2)
                        }
                    },
                    Err(p) => Err(p),
                }
            } else {
                Err(j)
            }
        },
        Err(p) => Err(p),
    }
}

#[verifier::rlimit(100)]
#[verifier::spinoff_prover]
fn p_stmt_begin(toks: &Vec<Token>, i: usize) -> (r: Result<(Node, usize), usize>)
    requires
        i < toks.len(),
        toks_model(toks@)[i as int].kind == TokenKind::KwBegin,
    ensures
        match r {
            Ok((n, j)) => spec_p_stmt_begin(toks_model(toks@), i as nat) == Some((n@, j as nat)) && i < j
                <= toks.len(),
            Err(_) => spec_p_stmt_begin(toks_model(toks@), i as nat) is None,
        },
    decreases toks.len() - i, 13nat,
{
    proof {
        lemma_toks_model_index(toks@);
    }
    match p_stmts(toks, i + 1) {
        Ok((b, j)) => {
            if peek_at(toks, j, 0, TokenKind::KwEnd) && peek_at(toks, j, 1, TokenKind::Semi) {
                let ds: Vec<Node> = Vec::new();
                proof {
                    assert(models(ds@) =~= Seq::<SpecNode>::empty());
                }
                Ok((Node::Block { decls: ds, body: b }, j + 2))
            } else {
                Err(j)
            }
        },
        Err(p) => Err(p),
    }
}

#[verifier::rlimit(100)]
#[verifier::spinoff_prover]
pub(crate) fn p_stmt(toks: &Vec<Token>, i: usize) -> (r: Result<(Node, usize), usize>)
    requires
        i <= toks.len(),
    ensures
        match r {
            Ok((n, j)) => spec_p_stmt(toks_model(toks@), i as nat) == Some((n@, j as nat)) && i < j
                <= toks.len(),
            Err(_) => spec_p_stmt(toks_model(toks@), i as nat) is None,
        },
    decreases toks.len() - i, 14nat,
{
    proof {
        lemma_toks_model_index(toks@);
    }
    if i >= toks.len() {
        Err(i)
    } else {
        proof {
            assert(toks_model(toks@)[i as int] == toks@[i as int]@);
        }
        let k = toks[i].kind;
        if k == TokenKind::KwNull {
            if peek_at(toks, i, 1, TokenKind::Semi) {
                Ok((Node::NullStmt, i + 2))
            } else {
                Err(i + 1)
            }
        } else if k == TokenKind::KwReturn {
            p_stmt_return(toks, i)
        } else if k == TokenKind::Ident {
            p_stmt_ident(toks, i)
        } else if k == TokenKind::KwIf {
            p_if_rest(toks, i)
        } else if k == TokenKind::KwWhile {
            p_stmt_while(toks, i)
        } else if k == TokenKind::KwLoop {
            p_stmt_loop(toks, i)
        } else if k == TokenKind::KwFor {
            p_stmt_for(toks, i)
        } else if k == TokenKind::KwDeclare {
            p_stmt_declare(toks, i)
        } else if k == TokenKind::KwBegin {
            p_stmt_begin(toks, i)
        } else {
            Err(i)
        }
    }
}

pub(crate) fn p_stmts_acc(toks: &Vec<Token>, i: usize, acc: Vec<Node>) -> (r: Result<
    (Vec<Node>, usize),
    usize,
>)
    requires
        i <= toks.len(),
    ensures
        match r {
            Ok((ns, j)) => spec_p_stmts_acc(toks_model(toks@), i as nat, models(acc@)) == Some(
                (models(ns@), j as nat),
            ) && i <= j <= toks.len(),
            Err(_) => spec_p_stmts_acc(toks_model(toks@), i as nat, models(acc@)) is None,
        },
    decreases toks.len() - i, 15nat,
{
    proof {
        lemma_toks_model_index(toks@);
    }
    if !starts_stmt_x(toks, i) {
        Ok((acc, i))
    } else {
        match p_stmt(toks, i) {
            Ok((n, j)) => {
                let mut a = acc;
                proof {
                    lemma_models_push(a@, n);
                }
                a.push(n);
                p_stmts_acc(toks, j, a)
            },
            Err(p) => Err(p),
        }
    }
}

pub(crate) fn p_stmts(toks: &Vec<Token>, i: usize) -> (r: Result<(Vec<Node>, usize), usize>)
    requires
        i <= toks.len(),
    ensures
        match r {
            Ok((ns, j)) => spec_p_stmts(toks_model(toks@), i as nat) == Some(
                (models(ns@), j as nat),
            ) && i <= j <= toks.len(),
            Err(_) => spec_p_stmts(toks_model(toks@), i as nat) is None,
        },
    decreases toks.len() - i, 16nat,
{
    proof {
        reveal_with_fuel(spec_p_stmts, 1);
    }
    proof {
        lemma_toks_model_index(toks@);
    }
    let acc: Vec<Node> = Vec::new();
    proof {
        assert(models(acc@) =~= Seq::<SpecNode>::empty());
    }
    p_stmts_acc(toks, i, acc)
}

#[verifier::rlimit(80)]
pub(crate) fn p_param(toks: &Vec<Token>, i: usize) -> (r: Result<(Node, usize), usize>)
    requires
        i <= toks.len(),
    ensures
        match r {
            Ok((n, j)) => spec_p_param(toks_model(toks@), i as nat) == Some((n@, j as nat)) && i
                < j <= toks.len(),
            Err(_) => spec_p_param(toks_model(toks@), i as nat) is None,
        },
{
    proof {
        lemma_toks_model_index(toks@);
    }
    if peek_at(toks, i, 0, TokenKind::Ident) && peek_at(toks, i, 1, TokenKind::Colon) {
        let md: (ParamMode, usize) = if peek_at(toks, i, 2, TokenKind::KwIn) {
            if peek_at(toks, i, 3, TokenKind::KwOut) {
                (ParamMode::InOut, i + 4)
            } else {
                (ParamMode::In, i + 3)
            }
        } else if peek_at(toks, i, 2, TokenKind::KwOut) {
            (ParamMode::Out, i + 3)
        } else {
            (ParamMode::In, i + 2)
        };
        if peek_at(toks, md.1, 0, TokenKind::Ident) {
            Ok(
                (
                    Node::Param {
                        name: tok_text(toks, i),
                        mode: md.0,
                        ty: tok_text(toks, md.1),
                    },
                    md.1 + 1,
                ),
            )
        } else {
            Err(md.1)
        }
    } else {
        Err(i)
    }
}

pub(crate) fn p_params_rest(toks: &Vec<Token>, i: usize, acc: Vec<Node>) -> (r: Result<
    (Vec<Node>, usize),
    usize,
>)
    requires
        i <= toks.len(),
    ensures
        match r {
            Ok((ns, j)) => spec_p_params_rest(toks_model(toks@), i as nat, models(acc@)) == Some(
                (models(ns@), j as nat),
            ) && i < j <= toks.len(),
            Err(_) => spec_p_params_rest(toks_model(toks@), i as nat, models(acc@)) is None,
        },
    decreases toks.len() - i, 0nat,
{
    proof {
        lemma_toks_model_index(toks@);
    }
    match p_param(toks, i) {
        Ok((p, j)) => {
            if peek_at(toks, j, 0, TokenKind::Semi) {
                let mut a = acc;
                proof {
                    lemma_models_push(a@, p);
                }
                a.push(p);
                p_params_rest(toks, j + 1, a)
            } else if peek_at(toks, j, 0, TokenKind::RParen) {
                let mut a = acc;
                proof {
                    lemma_models_push(a@, p);
                }
                a.push(p);
                Ok((a, j + 1))
            } else {
                Err(j)
            }
        },
        Err(p) => Err(p),
    }
}

pub(crate) fn p_params(toks: &Vec<Token>, i: usize) -> (r: Result<(Vec<Node>, usize), usize>)
    requires
        i <= toks.len(),
    ensures
        match r {
            Ok((ns, j)) => spec_p_params(toks_model(toks@), i as nat) == Some(
                (models(ns@), j as nat),
            ) && i < j <= toks.len(),
            Err(_) => spec_p_params(toks_model(toks@), i as nat) is None,
        },
    decreases toks.len() - i, 1nat,
{
    proof {
        reveal_with_fuel(spec_p_params, 1);
    }
    proof {
        lemma_toks_model_index(toks@);
    }
    if peek_at(toks, i, 0, TokenKind::LParen) {
        let acc: Vec<Node> = Vec::new();
        proof {
            assert(models(acc@) =~= Seq::<SpecNode>::empty());
        }
        p_params_rest(toks, i + 1, acc)
    } else {
        Err(i)
    }
}

/// The offset just past `end [identifier] ;`, with `i` at `end`.
fn p_end_name(toks: &Vec<Token>, i: usize) -> (r: Result<usize, usize>)
    requires
        i <= toks.len(),
    ensures
        match r {
            Ok(j) => spec_p_end_name(toks_model(toks@), i as nat) == Some(j as nat) && i < j
                <= toks.len(),
            Err(_) => spec_p_end_name(toks_model(toks@), i as nat) is None,
        },
{
    proof {
        lemma_toks_model_index(toks@);
    }
    if peek_at(toks, i, 0, TokenKind::KwEnd) {
        if peek_at(toks, i, 1, TokenKind::Ident) && peek_at(toks, i, 2, TokenKind::Semi) {
            Ok(i + 3)
        } else if peek_at(toks, i, 1, TokenKind::Semi) {
            Ok(i + 2)
        } else {
            Err(i + 1)
        }
    } else {
        Err(i)
    }
}

#[verifier::rlimit(100)]
#[verifier::spinoff_prover]
fn p_decl_object(toks: &Vec<Token>, i: usize) -> (r: Result<(Node, usize), usize>)
    requires
        i < toks.len(),
        toks_model(toks@)[i as int].kind == TokenKind::Ident,
    ensures
        match r {
            Ok((n, j)) => spec_p_decl_object(toks_model(toks@), i as nat) == Some((n@, j as nat)) && i < j
                <= toks.len(),
            Err(_) => spec_p_decl_object(toks_model(toks@), i as nat) is None,
        },
    decreases toks.len() - i, 13nat,
{
    proof {
        lemma_toks_model_index(toks@);
    }
    if peek_at(toks, i, 1, TokenKind::Colon) {
        let ct: (bool, usize) = if peek_at(toks, i, 2, TokenKind::KwConstant) {
            (true, i + 3)
        } else {
            (false, i + 2)
        };
        if peek_at(toks, ct.1, 0, TokenKind::Ident) {
            if peek_at(toks, ct.1, 1, TokenKind::Assign) {
                match p_expr(toks, ct.1 + 2) {
                    Ok((e, j)) => if peek_at(toks, j, 0, TokenKind::Semi) {
                        Ok(
                            (
                                Node::ObjectDecl {
                                    name: tok_text(toks, i),
                                    ty: tok_text(toks, ct.1),
                                    constant: ct.0,
                                    init: Some(Box::new(e)),
                                },
                                j + 1,
                            ),
                        )
                    } else {
                        Err(j)
                    },
                    Err(p) => Err(p),
                }
            } else if peek_at(toks, ct.1, 1, TokenKind::Semi) {
                Ok(
                    (
                        Node::ObjectDecl {
                            name: tok_text(toks, i),
                            ty: tok_text(toks, ct.1),
                            constant: ct.0,
                            init: None,
                        },
                        ct.1 + 2,
                    ),
                )
            } else {
                Err(ct.1 + 1)
            }
        } else {
            Err(ct.1)
        }
    } else {
        Err(i + 1)
    }
}

#[verifier::rlimit(100)]
#[verifier::spinoff_prover]
fn p_decl_type(toks: &Vec<Token>, i: usize) -> (r: Result<(Node, usize), usize>)
    requires
        i < toks.len(),
        toks_model(toks@)[i as int].kind == TokenKind::KwType,
    ensures
        match r {
            Ok((n, j)) => spec_p_decl_type(toks_model(toks@), i as nat) == Some((n@, j as nat)) && i < j
                <= toks.len(),
            Err(_) => spec_p_decl_type(toks_model(toks@), i as nat) is None,
        },
    decreases toks.len() - i, 13nat,
{
    proof {
        lemma_toks_model_index(toks@);
    }
    if peek_at(toks, i, 1, TokenKind::Ident) && peek_at(toks, i, 2, TokenKind::KwIs) && peek_at(
        toks,
        i,
        3,
        TokenKind::KwRange,
    ) {
        match p_simple(toks, i + 4) {
            Ok((lo, j)) => {
                if peek_at(toks, j, 0, TokenKind::DotDot) {
                    match p_simple(toks, j + 1) {
                        Ok((hi, j2)) => if peek_at(toks, j2, 0, TokenKind::Semi) {
                            Ok(
                                (
                                    Node::TypeDecl {
                                        name: tok_text(toks, i + 1),
                                        lo: Box::new(lo),
                                        hi: Box::new(hi),
                                    },
                                    j2 + 1,
                                ),
                            )
                        } else {
                            Err(j2)
                        },
                        Err(p) => Err(p),
                    }
                } else {
                    Err(j)
                }
            },
            Err(p) => Err(p),
        }
    } else {
        Err(i + 1)
    }
}

#[verifier::rlimit(100)]
#[verifier::spinoff_prover]
fn p_decl_subprog(toks: &Vec<Token>, i: usize) -> (r: Result<(Node, usize), usize>)
    requires
        i < toks.len(),
        toks_model(toks@)[i as int].kind == TokenKind::KwProcedure || toks_model(
            toks@,
        )[i as int].kind == TokenKind::KwFunction,
    ensures
        match r {
            Ok((n, j)) => spec_p_decl_subprog(toks_model(toks@), i as nat) == Some((n@, j as nat)) && i < j
                <= toks.len(),
            Err(_) => spec_p_decl_subprog(toks_model(toks@), i as nat) is None,
        },
    decreases toks.len() - i, 13nat,
{
    proof {
        lemma_toks_model_index(toks@);
        assert(toks_model(toks@)[i as int] == toks@[i as int]@);
    }
    let k = toks[i].kind;
    if peek_at(toks, i, 1, TokenKind::Ident) {
        let pr: Result<(Vec<Node>, usize), usize> = if peek_at(toks, i, 2, TokenKind::LParen) {
            p_params(toks, i + 2)
        } else {
            let ps: Vec<Node> = Vec::new();
            proof {
                assert(models(ps@) =~= Seq::<SpecNode>::empty());
            }
            Ok((ps, i + 2))
        };
        match pr {
            Ok((ps, k0)) => {
                let rt: Result<(Option<String>, usize), usize> = if k == TokenKind::KwFunction {
                    if peek_at(toks, k0, 0, TokenKind::KwReturn) && peek_at(
                        toks,
                        k0,
                        1,
                        TokenKind::Ident,
                    ) {
                        Ok((Some(tok_text(toks, k0 + 1)), k0 + 2))
                    } else {
                        Err(k0)
                    }
                } else {
                    Ok((None, k0))
                };
                match rt {
                    Ok((ret, k1)) => {
                        if peek_at(toks, k1, 0, TokenKind::KwIs) {
                            match p_decls(toks, k1 + 1) {
                                Ok((ds, j1)) => {
                                    if peek_at(toks, j1, 0, TokenKind::KwBegin) {
                                        match p_stmts(toks, j1 + 1) {
                                            Ok((b, j2)) => match p_end_name(toks, j2) {
                                                Ok(j3) => Ok(
                                                    (
                                                        Node::Subprogram {
                                                            name: tok_text(toks, i + 1),
                                                            params: ps,
                                                            return_type: ret,
                                                            decls: ds,
                                                            body: b,
                                                        },
                                                        j3,
                                                    ),
                                                ),
                                                Err(p) => Err(p),
                                            },
                                            Err(p) => Err(p),
                                        }
                                    } else {
                                        Err(j1)
                                    }
                                },
                                Err(p) => Err(p),
                            }
                        } else {
                            Err(k1)
                        }
                    },
                    Err(p) => Err(p),
                }
            },
            Err(p) => Err(p),
        }
    } else {
        Err(i + 1)
    }
}

#[verifier::rlimit(100)]
#[verifier::spinoff_prover]
fn p_decl_package(toks: &Vec<Token>, i: usize) -> (r: Result<(Node, usize), usize>)
    requires
        i < toks.len(),
        toks_model(toks@)[i as int].kind == TokenKind::KwPackage,
    ensures
        match r {
            Ok((n, j)) => spec_p_decl_package(toks_model(toks@), i as nat) == Some((n@, j as nat)) && i < j
                <= toks.len(),
            Err(_) => spec_p_decl_package(toks_model(toks@), i as nat) is None,
        },
    decreases toks.len() - i, 13nat,
{
    proof {
        lemma_toks_model_index(toks@);
    }
    if peek_at(toks, i, 1, TokenKind::Ident) && peek_at(toks, i, 2, TokenKind::KwIs) {
        match p_decls(toks, i + 3) {
            Ok((ds, j)) => match p_end_name(toks, j) {
                Ok(j2) => Ok((Node::Package { name: tok_text(toks, i + 1), decls: ds }, j2)),
                Err(p) => Err(p),
            },
            Err(p) => Err(p),
        }
    } else {
        Err(i + 1)
    }
}

#[verifier::rlimit(100)]
#[verifier::spinoff_prover]
pub(crate) fn p_decl(toks: &Vec<Token>, i: usize) -> (r: Result<(Node, usize), usize>)
    requires
        i <= toks.len(),
    ensures
        match r {
            Ok((n, j)) => spec_p_decl(toks_model(toks@), i as nat) == Some((n@, j as nat)) && i < j
                <= toks.len(),
            Err(_) => spec_p_decl(toks_model(toks@), i as nat) is None,
        },
    decreases toks.len() - i, 17nat,
{
    proof {
        lemma_toks_model_index(toks@);
    }
    if i >= toks.len() {
        Err(i)
    } else {
        proof {
            assert(toks_model(toks@)[i as int] == toks@[i as int]@);
        }
        let k = toks[i].kind;
        if k == TokenKind::Ident {
            p_decl_object(toks, i)
        } else if k == TokenKind::KwType {
            p_decl_type(toks, i)
        } else if k == TokenKind::KwProcedure || k == TokenKind::KwFunction {
            p_decl_subprog(toks, i)
        } else if k == TokenKind::KwPackage {
            p_decl_package(toks, i)
        } else {
            Err(i)
        }
    }
}

/// Whether the token at `i` can start a declaration.
fn starts_decl_x(toks: &Vec<Token>, i: usize) -> (r: bool)
    requires
        i <= toks.len(),
    ensures
        r == starts_decl(toks_model(toks@), i as nat),
{
    proof {
        lemma_toks_model_index(toks@);
    }
    peek_at(toks, i, 0, TokenKind::Ident) || peek_at(toks, i, 0, TokenKind::KwType) || peek_at(
        toks,
        i,
        0,
        TokenKind::KwProcedure,
    ) || peek_at(toks, i, 0, TokenKind::KwFunction) || peek_at(toks, i, 0, TokenKind::KwPackage)
}

pub(crate) fn p_decls_acc(toks: &Vec<Token>, i: usize, acc: Vec<Node>) -> (r: Result<
    (Vec<Node>, usize),
    usize,
>)
    requires
        i <= toks.len(),
    ensures
        match r {
            Ok((ns, j)) => spec_p_decls_acc(toks_model(toks@), i as nat, models(acc@)) == Some(
                (models(ns@), j as nat),
            ) && i <= j <= toks.len(),
            Err(_) => spec_p_decls_acc(toks_model(toks@), i as nat, models(acc@)) is None,
        },
    decreases toks.len() - i, 18nat,
{
    proof {
        lemma_toks_model_index(toks@);
    }
    if !starts_decl_x(toks, i) {
        Ok((acc, i))
    } else {
        match p_decl(toks, i) {
            Ok((n, j)) => {
                let mut a = acc;
                proof {
                    lemma_models_push(a@, n);
                }
                a.push(n);
                p_decls_acc(toks, j, a)
            },
            Err(p) => Err(p),
        }
    }
}

pub(crate) fn p_decls(toks: &Vec<Token>, i: usize) -> (r: Result<(Vec<Node>, usize), usize>)
    requires
        i <= toks.len(),
    ensures
        match r {
            Ok((ns, j)) => spec_p_decls(toks_model(toks@), i as nat) == Some(
                (models(ns@), j as nat),
            ) && i <= j <= toks.len(),
            Err(_) => spec_p_decls(toks_model(toks@), i as nat) is None,
        },
    decreases toks.len() - i, 19nat,
{
    proof {
        reveal_with_fuel(spec_p_decls, 1);
    }
    proof {
        lemma_toks_model_index(toks@);
    }
    let acc: Vec<Node> = Vec::new();
    proof {
        assert(models(acc@) =~= Seq::<SpecNode>::empty());
    }
    p_decls_acc(toks, i, acc)
}

// ---------------------------------------------------------------------------
// Executable grammar roots
// ---------------------------------------------------------------------------

/// The program root over a token sequence: one compilation unit covering
/// all tokens, wrapped in a Program node.
#[verifier::rlimit(100)]
#[verifier::spinoff_prover]
pub fn p_program_root(toks: &Vec<Token>) -> (r: Result<Node, usize>)
    ensures
        match r {
            Ok(n) => spec_p_program(toks_model(toks@)) == Some(n@),
            Err(_) => spec_p_program(toks_model(toks@)) is None,
        },
{
    proof {
        lemma_toks_model_index(toks@);
    }
    match p_decl(toks, 0) {
        Ok((n, j)) => {
            let is_unit = matches!(n, Node::Subprogram { .. }) || matches!(
                n,
                Node::Package { .. },
            );
            if j == toks.len() && is_unit {
                Ok(Node::Program { unit: Box::new(n) })
            } else {
                Err(j)
            }
        },
        Err(p) => Err(p),
    }
}

/// The declaration-list root over a token sequence.
pub fn p_decl_list_root(toks: &Vec<Token>) -> (r: Result<Vec<Node>, usize>)
    ensures
        match r {
            Ok(ns) => spec_p_decl_list(toks_model(toks@)) == Some(models(ns@)),
            Err(_) => spec_p_decl_list(toks_model(toks@)) is None,
        },
{
    proof {
        lemma_toks_model_index(toks@);
    }
    match p_decls(toks, 0) {
        Ok((ns, j)) => if j == toks.len() {
            Ok(ns)
        } else {
            Err(j)
        },
        Err(p) => Err(p),
    }
}

/// The statement-list root over a token sequence.
pub fn p_stmt_list_root(toks: &Vec<Token>) -> (r: Result<Vec<Node>, usize>)
    ensures
        match r {
            Ok(ns) => spec_p_stmt_list(toks_model(toks@)) == Some(models(ns@)),
            Err(_) => spec_p_stmt_list(toks_model(toks@)) is None,
        },
{
    proof {
        lemma_toks_model_index(toks@);
    }
    match p_stmts(toks, 0) {
        Ok((ns, j)) => if j == toks.len() {
            Ok(ns)
        } else {
            Err(j)
        },
        Err(p) => Err(p),
    }
}

} // verus!
