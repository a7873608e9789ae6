//! A front-end parser that turns Ada source text into a generic syntax tree.
//!
//! The crate exposes three parsing roots — a full program, a standalone list
//! of declarations, and a standalone list of statements. Each root has a
//! result-returning form whose failures carry a structured diagnostic, and a
//! driver under the classic name (`parse`, `parse_ada_declarations`,
//! `parse_ada_statements`) that converts any failure into a safe default:
//! the `Unit` sentinel for the program root, an empty list for the others.
//!
//! Every operation returns exactly the mathematical model of its input: the
//! lexing model `spec_lex` composed with the grammar model of the chosen
//! root. Parsing is pure; no state outlives a call.

use vstd::prelude::*;

pub mod ast;
pub mod token;
pub mod lexer;
pub mod parser;

use crate::ast::{Node, SpecNode, models};
use crate::lexer::{lex, spec_lex, spec_lex_from, spec_scan, SpecLex, SpecScan, is_space};
use crate::parser::{
    spec_p_program, spec_p_decl_list, spec_p_stmt_list, spec_p_decl, spec_p_decls,
    spec_p_decls_acc, spec_p_stmts, spec_p_stmts_acc, spec_p_stmt, starts_decl, starts_stmt,
    p_program_root, p_decl_list_root, p_stmt_list_root,
};
use crate::token::{Token, SpecToken};

verus! {

/// A structured parse failure: either a character that matches no lexical
/// rule, or a token sequence that does not match the grammar. `pos` is a
/// character offset into the input that locates the failure.
#[derive(Clone, Copy, PartialEq, Eq, Structural, Debug)]
pub enum ParseError {
    Lex { pos: usize },
    Syntax { pos: usize },
}

/// The model of the program root on raw input: lex, then recognize one
/// compilation unit covering all tokens.
pub open spec fn spec_parse_program(s: Seq<char>) -> Option<SpecNode> {
    match spec_lex(s) {
        SpecLex::Toks { ts } => spec_p_program(ts),
        SpecLex::Fail { pos } => None,
    }
}

/// The model of the declaration-list root on raw input.
pub open spec fn spec_parse_declarations(s: Seq<char>) -> Option<Seq<SpecNode>> {
    match spec_lex(s) {
        SpecLex::Toks { ts } => spec_p_decl_list(ts),
        SpecLex::Fail { pos } => None,
    }
}

/// The model of the statement-list root on raw input.
pub open spec fn spec_parse_statements(s: Seq<char>) -> Option<Seq<SpecNode>> {
    match spec_lex(s) {
        SpecLex::Toks { ts } => spec_p_stmt_list(ts),
        SpecLex::Fail { pos } => None,
    }
}

/// A character offset locating the token at `idx`, for diagnostics: the
/// token's own offset, or the last token's when the input ended too soon.
fn err_pos(toks: &Vec<Token>, idx: usize) -> usize {
    if idx < toks.len() {
        toks[idx].pos
    } else if toks.len() > 0 {
        toks[toks.len() - 1].pos
    } else {
        0
    }
}

/// Parses a full Ada program: returns the Program node, or the structured
/// failure. A lexical failure is reported if and only if lexing fails, with
/// the offset of the offending character.
pub fn parse_program(source: &str) -> (r: Result<Node, ParseError>)
    ensures
        match r {
            Ok(n) => spec_parse_program(source@) == Some(n@),
            Err(e) => spec_parse_program(source@) is None && match e {
                ParseError::Lex { pos } => spec_lex(source@) == (SpecLex::Fail {
                    pos: pos as nat,
                }),
                ParseError::Syntax { pos } => spec_lex(source@) is Toks,
            },
        },
{
    match lex(source) {
        Ok(toks) => match p_program_root(&toks) {
            Ok(n) => Ok(n),
            Err(idx) => Err(ParseError::Syntax { pos: err_pos(&toks, idx) }),
        },
        Err(p) => Err(ParseError::Lex { pos: p }),
    }
}

/// Parses a standalone list of Ada declarations: returns the nodes in source
/// order, or the structured failure. Empty or whitespace-only input is not a
/// failure and yields the empty list.
pub fn parse_declarations(source: &str) -> (r: Result<Vec<Node>, ParseError>)
    ensures
        match r {
            Ok(ns) => spec_parse_declarations(source@) == Some(models(ns@)),
            Err(e) => spec_parse_declarations(source@) is None && match e {
                ParseError::Lex { pos } => spec_lex(source@) == (SpecLex::Fail {
                    pos: pos as nat,
                }),
                ParseError::Syntax { pos } => spec_lex(source@) is Toks,
            },
        },
{
    match lex(source) {
        Ok(toks) => match p_decl_list_root(&toks) {
            Ok(ns) => Ok(ns),
            Err(idx) => Err(ParseError::Syntax { pos: err_pos(&toks, idx) }),
        },
        Err(p) => Err(ParseError::Lex { pos: p }),
    }
}

/// Parses a standalone list of Ada statements: returns the nodes in source
/// order, or the structured failure. Empty or whitespace-only input is not a
/// failure and yields the empty list.
pub fn parse_statements(source: &str) -> (r: Result<Vec<Node>, ParseError>)
    ensures
        match r {
            Ok(ns) => spec_parse_statements(source@) == Some(models(ns@)),
            Err(e) => spec_parse_statements(source@) is None && match e {
                ParseError::Lex { pos } => spec_lex(source@) == (SpecLex::Fail {
                    pos: pos as nat,
                }),
                ParseError::Syntax { pos } => spec_lex(source@) is Toks,
            },
        },
{
    match lex(source) {
        Ok(toks) => match p_stmt_list_root(&toks) {
            Ok(ns) => Ok(ns),
            Err(idx) => Err(ParseError::Syntax { pos: err_pos(&toks, idx) }),
        },
        Err(p) => Err(ParseError::Lex { pos: p }),
    }
}

/// The classic program driver: the Program node on success; on any failure
/// the `Unit` sentinel together with the diagnostic, never a panic.
pub fn parse(source: &str) -> (r: (Node, Option<ParseError>))
    ensures
        match spec_parse_program(source@) {
            Some(n) => r.0@ == n && r.1 is None,
            None => r.0@ == SpecNode::Unit && r.1 is Some,
        },
{
    match parse_program(source) {
        Ok(n) => (n, None),
        Err(e) => (Node::Unit, Some(e)),
    }
}

/// The classic declaration-list driver: the nodes in source order on
/// success; on any failure an empty list together with the diagnostic.
pub fn parse_ada_declarations(source: &str) -> (r: (Vec<Node>, Option<ParseError>))
    ensures
        match spec_parse_declarations(source@) {
            Some(ds) => models(r.0@) == ds && r.1 is None,
            None => r.0@.len() == 0 && r.1 is Some,
        },
{
    match parse_declarations(source) {
        Ok(ns) => (ns, None),
        Err(e) => (Vec::new(), Some(e)),
    }
}

/// The classic statement-list driver: the nodes in source order on success;
/// on any failure an empty list together with the diagnostic.
pub fn parse_ada_statements(source: &str) -> (r: (Vec<Node>, Option<ParseError>))
    ensures
        match spec_parse_statements(source@) {
            Some(ss) => models(r.0@) == ss && r.1 is None,
            None => r.0@.len() == 0 && r.1 is Some,
        },
{
    match parse_statements(source) {
        Ok(ns) => (ns, None),
        Err(e) => (Vec::new(), Some(e)),
    }
}

// ---------------------------------------------------------------------------
// Laws
// ---------------------------------------------------------------------------

/// A successful parse of the program root always yields a Program node —
/// never `Unit`, never a list — so the `Unit` sentinel marks failures
/// unambiguously.
pub proof fn lemma_program_root_is_program(s: Seq<char>)
    ensures
        spec_parse_program(s) matches Some(n) ==> n is Program && !(n is Unit),
{
}

/// Determinism: the outcome of each operation is a function of the input
/// sequence alone — two runs on equal inputs give structurally equal trees.
/// (Each driver's contract already pins its result to this model.)
pub proof fn lemma_parse_deterministic(s1: Seq<char>, s2: Seq<char>)
    requires
        s1 == s2,
    ensures
        spec_parse_program(s1) == spec_parse_program(s2),
        spec_parse_declarations(s1) == spec_parse_declarations(s2),
        spec_parse_statements(s1) == spec_parse_statements(s2),
{
}

/// Lexing input that holds only whitespace yields no tokens.
pub proof fn lemma_all_space_lex(s: Seq<char>, i: nat)
    requires
        i <= s.len(),
        forall|k: int| 0 <= k < s.len() ==> is_space(#[trigger] s[k]),
    ensures
        spec_lex_from(s, i) == (SpecLex::Toks { ts: Seq::<SpecToken>::empty() }),
    decreases s.len() - i,
{
    if i < s.len() {
        lemma_all_space_lex(s, i + 1);
    }
}

/// Empty or whitespace-only input is not an error for the list roots: both
/// return the empty sequence and no diagnostic.
pub proof fn lemma_trivial_input_empty(s: Seq<char>)
    requires
        forall|k: int| 0 <= k < s.len() ==> is_space(#[trigger] s[k]),
    ensures
        spec_parse_declarations(s) == Some(Seq::<SpecNode>::empty()),
        spec_parse_statements(s) == Some(Seq::<SpecNode>::empty()),
{
    lemma_all_space_lex(s, 0);
    reveal_with_fuel(spec_p_decls, 1);
    reveal_with_fuel(spec_p_stmts, 1);
}

/// For the program root the same trivial input is a syntax error: a program
/// requires at least a minimal unit, so the driver returns `Unit` and a
/// diagnostic.
pub proof fn lemma_trivial_input_program_fails(s: Seq<char>)
    requires
        forall|k: int| 0 <= k < s.len() ==> is_space(#[trigger] s[k]),
    ensures
        spec_parse_program(s) is None,
{
    lemma_all_space_lex(s, 0);
}

/// Running the declaration list with a non-empty accumulator only prepends
/// the accumulator to what a fresh run recognizes.
pub proof fn lemma_decls_acc_prefix(t: Seq<SpecToken>, i: nat, acc: Seq<SpecNode>)
    ensures
        match spec_p_decls_acc(t, i, Seq::empty()) {
            Some(dj) => spec_p_decls_acc(t, i, acc) == Some((acc + dj.0, dj.1)),
            None => spec_p_decls_acc(t, i, acc) is None,
        },
    decreases t.len() - i,
{
    if !starts_decl(t, i) {
        assert(acc + Seq::<SpecNode>::empty() =~= acc);
    } else {
        match spec_p_decl(t, i) {
            Some((n, j)) => {
                if i < j && j <= t.len() {
                    lemma_decls_acc_prefix(t, j, acc.push(n));
                    lemma_decls_acc_prefix(t, j, Seq::empty().push(n));
                    match spec_p_decls_acc(t, j, Seq::empty()) {
                        Some(dj) => {
                            assert(acc.push(n) + dj.0 =~= acc + (Seq::empty().push(n) + dj.0));
                        },
                        None => {},
                    }
                }
            },
            None => {},
        }
    }
}

/// Order preservation for declarations: the recognized list is the first
/// construct followed by the list of the rest, one node per construct, in
/// source order.
pub proof fn lemma_decls_order(t: Seq<SpecToken>, i: nat)
    requires
        starts_decl(t, i),
    ensures
        match spec_p_decl(t, i) {
            Some(nj) => (i < nj.1 <= t.len()) ==> match spec_p_decls(t, nj.1) {
                Some(dk) => spec_p_decls(t, i) == Some((seq![nj.0] + dk.0, dk.1)),
                None => spec_p_decls(t, i) is None,
            },
            None => spec_p_decls(t, i) is None,
        },
{
    reveal_with_fuel(spec_p_decls, 1);
    match spec_p_decl(t, i) {
        Some((n, j)) => {
            if i < j && j <= t.len() {
                lemma_decls_acc_prefix(t, j, Seq::empty().push(n));
                match spec_p_decls_acc(t, j, Seq::empty()) {
                    Some(dj) => {
                        assert(Seq::empty().push(n) + dj.0 =~= seq![n] + dj.0);
                    },
                    None => {},
                }
            }
        },
        None => {},
    }
}

/// Running the statement list with a non-empty accumulator only prepends
/// the accumulator to what a fresh run recognizes.
pub proof fn lemma_stmts_acc_prefix(t: Seq<SpecToken>, i: nat, acc: Seq<SpecNode>)
    ensures
        match spec_p_stmts_acc(t, i, Seq::empty()) {
            Some(dj) => spec_p_stmts_acc(t, i, acc) == Some((acc + dj.0, dj.1)),
            None => spec_p_stmts_acc(t, i, acc) is None,
        },
    decreases t.len() - i,
{
    if !starts_stmt(t, i) {
        assert(acc + Seq::<SpecNode>::empty() =~= acc);
    } else {
        match spec_p_stmt(t, i) {
            Some((n, j)) => {
                if i < j && j <= t.len() {
                    lemma_stmts_acc_prefix(t, j, acc.push(n));
                    lemma_stmts_acc_prefix(t, j, Seq::empty().push(n));
                    match spec_p_stmts_acc(t, j, Seq::empty()) {
                        Some(dj) => {
                            assert(acc.push(n) + dj.0 =~= acc + (Seq::empty().push(n) + dj.0));
                        },
                        None => {},
                    }
                }
            },
            None => {},
        }
    }
}

/// Order preservation for statements: the recognized list is the first
/// construct followed by the list of the rest, one node per construct, in
/// source order.
pub proof fn lemma_stmts_order(t: Seq<SpecToken>, i: nat)
    requires
        starts_stmt(t, i),
    ensures
        match spec_p_stmt(t, i) {
            Some(nj) => (i < nj.1 <= t.len()) ==> match spec_p_stmts(t, nj.1) {
                Some(dk) => spec_p_stmts(t, i) == Some((seq![nj.0] + dk.0, dk.1)),
                None => spec_p_stmts(t, i) is None,
            },
            None => spec_p_stmts(t, i) is None,
        },
{
    reveal_with_fuel(spec_p_stmts, 1);
    match spec_p_stmt(t, i) {
        Some((n, j)) => {
            if i < j && j <= t.len() {
                lemma_stmts_acc_prefix(t, j, Seq::empty().push(n));
                match spec_p_stmts_acc(t, j, Seq::empty()) {
                    Some(dj) => {
                        assert(Seq::empty().push(n) + dj.0 =~= seq![n] + dj.0);
                    },
                    None => {},
                }
            }
        },
        None => {},
    }
}

} // verus!
