//! Tokens of the Ada lexical grammar.
//!
//! A `Token` is immutable: a kind, the lexeme text exactly as written, and
//! the character offset at which it starts. `SpecToken` is its ghost mirror,
//! and `toks_model` lifts a token list to its model, element by element.

use vstd::prelude::*;

verus! {

/// The kind of a token: an identifier, a literal, a reserved keyword, or an
/// operator or delimiter.
#[derive(Clone, Copy, PartialEq, Eq, Structural, Debug)]
pub enum TokenKind {
    Ident,
    IntLit,
    RealLit,
    StrLit,
    ChrLit,
    KwAbs,
    KwAnd,
    KwBegin,
    KwConstant,
    KwDeclare,
    KwElse,
    KwElsif,
    KwEnd,
    KwFor,
    KwFunction,
    KwIf,
    KwIn,
    KwIs,
    KwLoop,
    KwMod,
    KwNot,
    KwNull,
    KwOr,
    KwOut,
    KwPackage,
    KwProcedure,
    KwRange,
    KwRem,
    KwReturn,
    KwReverse,
    KwThen,
    KwType,
    KwWhile,
    KwXor,
    LParen,
    RParen,
    Semi,
    Comma,
    Colon,
    Dot,
    DotDot,
    Assign,
    EqOp,
    NeOp,
    LtOp,
    LeOp,
    GtOp,
    GeOp,
    Amp,
    PlusOp,
    MinusOp,
    Star,
    Slash,
    StarStar,
}

/// One token of the input, produced in source order and consumed exactly
/// once. `pos` is the character offset of the first character of the lexeme.
#[derive(PartialEq, Eq, Debug)]
pub struct Token {
    pub kind: TokenKind,
    pub text: String,
    pub pos: usize,
}

/// The ghost mirror of `Token`.
pub struct SpecToken {
    pub kind: TokenKind,
    pub text: Seq<char>,
    pub pos: nat,
}

impl View for Token {
    type V = SpecToken;

    open spec fn view(&self) -> SpecToken {
        SpecToken { kind: self.kind, text: self.text@, pos: self.pos as nat }
    }
}

/// The model of a token list, element by element in order.
pub open spec fn toks_model(ts: Seq<Token>) -> Seq<SpecToken>
    decreases ts,
{
    if ts.len() == 0 {
        Seq::empty()
    } else {
        seq![ts[0]@] + toks_model(ts.drop_first())
    }
}

/// `toks_model` maps a token list pointwise.
pub proof fn lemma_toks_model_index(ts: Seq<Token>)
    ensures
        toks_model(ts).len() == ts.len(),
        forall|i: int| 0 <= i < ts.len() ==> toks_model(ts)[i] == #[trigger] ts[i]@,
    decreases ts,
{
    if ts.len() > 0 {
        lemma_toks_model_index(ts.drop_first());
        assert forall|i: int| 0 <= i < ts.len() implies toks_model(ts)[i] == #[trigger] ts[i]@ by {
            if i > 0 {
                assert(ts.drop_first()[i - 1] == ts[i]);
            }
        }
    }
}

/// Appending one token appends its model.
pub proof fn lemma_toks_model_push(ts: Seq<Token>, t: Token)
    ensures
        toks_model(ts.push(t)) == toks_model(ts).push(t@),
{
    lemma_toks_model_index(ts);
    lemma_toks_model_index(ts.push(t));
    assert forall|i: int| 0 <= i < ts.len() + 1 implies toks_model(ts.push(t))[i] == toks_model(
        ts,
    ).push(t@)[i] by {
        assert(toks_model(ts.push(t))[i] == ts.push(t)[i]@);
        if i < ts.len() {
            assert(ts.push(t)[i] == ts[i]);
            assert(toks_model(ts)[i] == ts[i]@);
        } else {
            assert(ts.push(t)[i] == t);
        }
    }
    assert(toks_model(ts.push(t)) =~= toks_model(ts).push(t@));
}

} // verus!
