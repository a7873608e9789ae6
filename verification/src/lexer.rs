//! Lexical analysis of Ada source text.
//!
//! The ghost model is `spec_lex`: a function from the character sequence to
//! either the full token sequence or the offset of the first character that
//! matches no lexical rule. The executable lexer `lex` is proved to return
//! exactly that model. The lexer recognizes identifiers (case-insensitive
//! against the reserved words), numeric literals (decimal and based, with
//! exponents), string literals with doubled quotes, character literals,
//! comments (`--` to end of line, discarded), and the operator and delimiter
//! set of the grammar.

use vstd::prelude::*;
use crate::token::{Token, TokenKind, SpecToken, toks_model, lemma_toks_model_push};

verus! {

// ---------------------------------------------------------------------------
// Character classes
// ---------------------------------------------------------------------------

pub open spec fn is_space(c: char) -> bool {
    c == ' ' || c == '\t' || c == '\r' || c == '\n'
}

pub open spec fn is_digit(c: char) -> bool {
    48 <= c as u32 && c as u32 <= 57
}

pub open spec fn is_letter(c: char) -> bool {
    (65 <= c as u32 && c as u32 <= 90) || (97 <= c as u32 && c as u32 <= 122)
}

pub open spec fn is_ident_char(c: char) -> bool {
    is_letter(c) || is_digit(c) || c == '_'
}

/// An extended digit of a based literal: a digit or a letter `a` .. `f`.
pub open spec fn is_ext_digit(c: char) -> bool {
    is_digit(c) || (97 <= c as u32 && c as u32 <= 102) || (65 <= c as u32 && c as u32 <= 70)
}

/// The scalar value of `c` with an upper-case letter folded to lower case.
pub open spec fn char_lc(c: char) -> u32 {
    if 65 <= c as u32 && c as u32 <= 90 {
        (c as u32 + 32) as u32
    } else {
        c as u32
    }
}

/// Case-insensitive equality of two character sequences, Ada's rule for
/// matching identifiers against reserved words.
pub open spec fn matches_kw(a: Seq<char>, b: Seq<char>) -> bool {
    a.len() == b.len() && (forall|j: int| 0 <= j < a.len() ==> char_lc(a[j]) == char_lc(b[j]))
}

fn is_space_x(c: char) -> (r: bool)
    ensures
        r == is_space(c),
{
    c == ' ' || c == '\t' || c == '\r' || c == '\n'
}

fn is_digit_x(c: char) -> (r: bool)
    ensures
        r == is_digit(c),
{
    let u = c as u32;
    48 <= u && u <= 57
}

fn is_letter_x(c: char) -> (r: bool)
    ensures
        r == is_letter(c),
{
    let u = c as u32;
    (65 <= u && u <= 90) || (97 <= u && u <= 122)
}

fn is_ident_char_x(c: char) -> (r: bool)
    ensures
        r == is_ident_char(c),
{
    is_letter_x(c) || is_digit_x(c) || c == '_'
}

fn is_ext_digit_x(c: char) -> (r: bool)
    ensures
        r == is_ext_digit(c),
{
    let u = c as u32;
    is_digit_x(c) || (97 <= u && u <= 102) || (65 <= u && u <= 70)
}

// ---------------------------------------------------------------------------
// Scanners: the end of a maximal run, from a given offset
// ---------------------------------------------------------------------------

/// The end of a run of identifier characters starting at `i`.
pub open spec fn spec_ident_end(s: Seq<char>, i: nat) -> nat
    decreases s.len() - i,
{
    if i < s.len() && is_ident_char(s[i as int]) {
        spec_ident_end(s, i + 1)
    } else {
        i
    }
}

/// The end of a run of digits and underscores starting at `i`.
pub open spec fn spec_numeral_end(s: Seq<char>, i: nat) -> nat
    decreases s.len() - i,
{
    if i < s.len() && (is_digit(s[i as int]) || s[i as int] == '_') {
        spec_numeral_end(s, i + 1)
    } else {
        i
    }
}

/// The end of a run of extended digits and underscores starting at `i`.
pub open spec fn spec_ext_end(s: Seq<char>, i: nat) -> nat
    decreases s.len() - i,
{
    if i < s.len() && (is_ext_digit(s[i as int]) || s[i as int] == '_') {
        spec_ext_end(s, i + 1)
    } else {
        i
    }
}

/// The offset of the next line feed at or after `i`, or the end of input.
pub open spec fn spec_line_end(s: Seq<char>, i: nat) -> nat
    decreases s.len() - i,
{
    if i < s.len() && s[i as int] != '\n' {
        spec_line_end(s, i + 1)
    } else {
        i
    }
}

/// The offset just past the closing quote of a string literal whose opening
/// quote stands just before `i`, with `""` read as a doubled quote, or `None`
/// if the literal is unterminated.
pub open spec fn spec_str_end(s: Seq<char>, i: nat) -> Option<nat>
    decreases s.len() - i,
{
    if i >= s.len() {
        None
    } else if s[i as int] == '"' {
        if i + 1 < s.len() && s[i as int + 1] == '"' {
            spec_str_end(s, i + 2)
        } else {
            Some((i + 1) as nat)
        }
    } else {
        spec_str_end(s, i + 1)
    }
}

/// The end of an optional exponent part starting at `i` (`i` itself when no
/// exponent is present).
pub open spec fn spec_expo_end(s: Seq<char>, i: nat) -> nat {
    if i < s.len() && (s[i as int] == 'e' || s[i as int] == 'E') {
        if i + 1 < s.len() && is_digit(s[i as int + 1]) {
            spec_numeral_end(s, i + 2)
        } else if i + 2 < s.len() && (s[i as int + 1] == '+' || s[i as int + 1] == '-') && is_digit(s[i as int + 2]) {
            spec_numeral_end(s, i + 3)
        } else {
            i
        }
    } else {
        i
    }
}

/// The scan of one numeric literal starting at `i` (where `s[i]` is a
/// digit): its end and whether it is a real literal, or `None` when a based
/// literal is left unterminated.
pub open spec fn spec_num_scan(s: Seq<char>, i: nat) -> Option<(nat, bool)> {
    let a = spec_numeral_end(s, i);
    if a < s.len() && s[a as int] == '#' {
        let b = spec_ext_end(s, a + 1);
        if b < s.len() && s[b as int] == '#' {
            Some((spec_expo_end(s, b + 1), false))
        } else if b < s.len() && s[b as int] == '.' {
            let c = spec_ext_end(s, b + 1);
            if b + 1 < c && c < s.len() && s[c as int] == '#' {
                Some((spec_expo_end(s, c + 1), true))
            } else {
                None
            }
        } else {
            None
        }
    } else if a < s.len() && s[a as int] == '.' && a + 1 < s.len() && is_digit(s[a as int + 1]) {
        Some((spec_expo_end(s, spec_numeral_end(s, a + 1)), true))
    } else {
        Some((spec_expo_end(s, a), false))
    }
}

// ---------------------------------------------------------------------------
// Reserved words
// ---------------------------------------------------------------------------

/// The kind of a scanned word: the keyword it matches case-insensitively, or
/// an identifier.
pub open spec fn spec_word_kind(w: Seq<char>) -> TokenKind {
    if matches_kw(w, "abs"@) {
        TokenKind::KwAbs
    } else if matches_kw(w, "and"@) {
        TokenKind::KwAnd
    } else if matches_kw(w, "begin"@) {
        TokenKind::KwBegin
    } else if matches_kw(w, "constant"@) {
        TokenKind::KwConstant
    } else if matches_kw(w, "declare"@) {
        TokenKind::KwDeclare
    } else if matches_kw(w, "else"@) {
        TokenKind::KwElse
    } else if matches_kw(w, "elsif"@) {
        TokenKind::KwElsif
    } else if matches_kw(w, "end"@) {
        TokenKind::KwEnd
    } else if matches_kw(w, "for"@) {
        TokenKind::KwFor
    } else if matches_kw(w, "function"@) {
        TokenKind::KwFunction
    } else if matches_kw(w, "if"@) {
        TokenKind::KwIf
    } else if matches_kw(w, "in"@) {
        TokenKind::KwIn
    } else if matches_kw(w, "is"@) {
        TokenKind::KwIs
    } else if matches_kw(w, "loop"@) {
        TokenKind::KwLoop
    } else if matches_kw(w, "mod"@) {
        TokenKind::KwMod
    } else if matches_kw(w, "not"@) {
        TokenKind::KwNot
    } else if matches_kw(w, "null"@) {
        TokenKind::KwNull
    } else if matches_kw(w, "or"@) {
        TokenKind::KwOr
    } else if matches_kw(w, "out"@) {
        TokenKind::KwOut
    } else if matches_kw(w, "package"@) {
        TokenKind::KwPackage
    } else if matches_kw(w, "procedure"@) {
        TokenKind::KwProcedure
    } else if matches_kw(w, "range"@) {
        TokenKind::KwRange
    } else if matches_kw(w, "rem"@) {
        TokenKind::KwRem
    } else if matches_kw(w, "return"@) {
        TokenKind::KwReturn
    } else if matches_kw(w, "reverse"@) {
        TokenKind::KwReverse
    } else if matches_kw(w, "then"@) {
        TokenKind::KwThen
    } else if matches_kw(w, "type"@) {
        TokenKind::KwType
    } else if matches_kw(w, "while"@) {
        TokenKind::KwWhile
    } else if matches_kw(w, "xor"@) {
        TokenKind::KwXor
    } else {
        TokenKind::Ident
    }
}

fn char_lc_x(c: char) -> (r: u32)
    ensures
        r == char_lc(c),
{
    let u = c as u32;
    if 65 <= u && u <= 90 {
        u + 32
    } else {
        u
    }
}

/// Case-insensitive equality of two strings, character by character.
fn eq_lower(a: &str, b: &str) -> (r: bool)
    ensures
        r == matches_kw(a@, b@),
{
    let na = a.unicode_len();
    let nb = b.unicode_len();
    if na != nb {
        return false;
    }
    let mut j: usize = 0;
    while j < na
        invariant
            j <= na,
            na == a@.len(),
            nb == b@.len(),
            na == nb,
            forall|k: int| 0 <= k < j ==> char_lc(a@[k]) == char_lc(b@[k]),
        decreases na - j,
    {
        if char_lc_x(a.get_char(j)) != char_lc_x(b.get_char(j)) {
            return false;
        }
        j += 1;
    }
    true
}

fn word_kind(w: &str) -> (r: TokenKind)
    ensures
        r == spec_word_kind(w@),
{
    if eq_lower(w, "abs") {
        TokenKind::KwAbs
    } else if eq_lower(w, "and") {
        TokenKind::KwAnd
    } else if eq_lower(w, "begin") {
        TokenKind::KwBegin
    } else if eq_lower(w, "constant") {
        TokenKind::KwConstant
    } else if eq_lower(w, "declare") {
        TokenKind::KwDeclare
    } else if eq_lower(w, "else") {
        TokenKind::KwElse
    } else if eq_lower(w, "elsif") {
        TokenKind::KwElsif
    } else if eq_lower(w, "end") {
        TokenKind::KwEnd
    } else if eq_lower(w, "for") {
        TokenKind::KwFor
    } else if eq_lower(w, "function") {
        TokenKind::KwFunction
    } else if eq_lower(w, "if") {
        TokenKind::KwIf
    } else if eq_lower(w, "in") {
        TokenKind::KwIn
    } else if eq_lower(w, "is") {
        TokenKind::KwIs
    } else if eq_lower(w, "loop") {
        TokenKind::KwLoop
    } else if eq_lower(w, "mod") {
        TokenKind::KwMod
    } else if eq_lower(w, "not") {
        TokenKind::KwNot
    } else if eq_lower(w, "null") {
        TokenKind::KwNull
    } else if eq_lower(w, "or") {
        TokenKind::KwOr
    } else if eq_lower(w, "out") {
        TokenKind::KwOut
    } else if eq_lower(w, "package") {
        TokenKind::KwPackage
    } else if eq_lower(w, "procedure") {
        TokenKind::KwProcedure
    } else if eq_lower(w, "range") {
        TokenKind::KwRange
    } else if eq_lower(w, "rem") {
        TokenKind::KwRem
    } else if eq_lower(w, "return") {
        TokenKind::KwReturn
    } else if eq_lower(w, "reverse") {
        TokenKind::KwReverse
    } else if eq_lower(w, "then") {
        TokenKind::KwThen
    } else if eq_lower(w, "type") {
        TokenKind::KwType
    } else if eq_lower(w, "while") {
        TokenKind::KwWhile
    } else if eq_lower(w, "xor") {
        TokenKind::KwXor
    } else {
        TokenKind::Ident
    }
}

// ---------------------------------------------------------------------------
// One scanning step
// ---------------------------------------------------------------------------

/// The ghost outcome of one scanning step at offset `i`: the end of input, a
/// stretch to skip (whitespace or a comment), one token, or an offending
/// character.
pub enum SpecScan {
    Done,
    Skip { next: nat },
    Tok { t: SpecToken, next: nat },
    Bad { pos: nat },
}

/// One scanning step of the model at offset `i`.
pub open spec fn spec_scan(s: Seq<char>, i: nat) -> SpecScan {
    if i >= s.len() {
        SpecScan::Done
    } else {
        let c = s[i as int];
        if is_space(c) {
            SpecScan::Skip { next: i + 1 }
        } else if c == '-' && i + 1 < s.len() && s[i as int + 1] == '-' {
            SpecScan::Skip { next: spec_line_end(s, i + 2) }
        } else if is_letter(c) {
            let e = spec_ident_end(s, i);
            SpecScan::Tok {
                t: SpecToken {
                    kind: spec_word_kind(s.subrange(i as int, e as int)),
                    text: s.subrange(i as int, e as int),
                    pos: i,
                },
                next: e,
            }
        } else if is_digit(c) {
            match spec_num_scan(s, i) {
                Some((e, is_real)) => SpecScan::Tok {
                    t: SpecToken {
                        kind: if is_real {
                            TokenKind::RealLit
                        } else {
                            TokenKind::IntLit
                        },
                        text: s.subrange(i as int, e as int),
                        pos: i,
                    },
                    next: e,
                },
                None => SpecScan::Bad { pos: i },
            }
        } else if c == '"' {
            match spec_str_end(s, i + 1) {
                Some(e) => SpecScan::Tok {
                    t: SpecToken {
                        kind: TokenKind::StrLit,
                        text: s.subrange(i as int, e as int),
                        pos: i,
                    },
                    next: e,
                },
                None => SpecScan::Bad { pos: i },
            }
        } else if c == '\'' {
            if i + 2 < s.len() && s[i as int + 2] == '\'' {
                SpecScan::Tok {
                    t: SpecToken {
                        kind: TokenKind::ChrLit,
                        text: s.subrange(i as int, i as int + 3),
                        pos: i,
                    },
                    next: i + 3,
                }
            } else {
                SpecScan::Bad { pos: i }
            }
        } else if c == ':' && i + 1 < s.len() && s[i as int + 1] == '=' {
            spec_op(TokenKind::Assign, s, i, 2)
        } else if c == '/' && i + 1 < s.len() && s[i as int + 1] == '=' {
            spec_op(TokenKind::NeOp, s, i, 2)
        } else if c == '<' && i + 1 < s.len() && s[i as int + 1] == '=' {
            spec_op(TokenKind::LeOp, s, i, 2)
        } else if c == '>' && i + 1 < s.len() && s[i as int + 1] == '=' {
            spec_op(TokenKind::GeOp, s, i, 2)
        } else if c == '*' && i + 1 < s.len() && s[i as int + 1] == '*' {
            spec_op(TokenKind::StarStar, s, i, 2)
        } else if c == '.' && i + 1 < s.len() && s[i as int + 1] == '.' {
            spec_op(TokenKind::DotDot, s, i, 2)
        } else if c == '(' {
            spec_op(TokenKind::LParen, s, i, 1)
        } else if c == ')' {
            spec_op(TokenKind::RParen, s, i, 1)
        } else if c == ';' {
            spec_op(TokenKind::Semi, s, i, 1)
        } else if c == ',' {
            spec_op(TokenKind::Comma, s, i, 1)
        } else if c == ':' {
            spec_op(TokenKind::Colon, s, i, 1)
        } else if c == '.' {
            spec_op(TokenKind::Dot, s, i, 1)
        } else if c == '=' {
            spec_op(TokenKind::EqOp, s, i, 1)
        } else if c == '<' {
            spec_op(TokenKind::LtOp, s, i, 1)
        } else if c == '>' {
            spec_op(TokenKind::GtOp, s, i, 1)
        } else if c == '&' {
            spec_op(TokenKind::Amp, s, i, 1)
        } else if c == '+' {
            spec_op(TokenKind::PlusOp, s, i, 1)
        } else if c == '-' {
            spec_op(TokenKind::MinusOp, s, i, 1)
        } else if c == '*' {
            spec_op(TokenKind::Star, s, i, 1)
        } else if c == '/' {
            spec_op(TokenKind::Slash, s, i, 1)
        } else {
            SpecScan::Bad { pos: i }
        }
    }
}

/// An operator or delimiter token of `n` characters at offset `i`.
pub open spec fn spec_op(kind: TokenKind, s: Seq<char>, i: nat, n: nat) -> SpecScan {
    SpecScan::Tok {
        t: SpecToken { kind, text: s.subrange(i as int, i as int + n as int), pos: i },
        next: i + n,
    }
}

// ---------------------------------------------------------------------------
// The whole lexing model
// ---------------------------------------------------------------------------

/// The outcome of lexing: the token sequence, or the offset of the first
/// character that matches no lexical rule.
pub enum SpecLex {
    Toks { ts: Seq<SpecToken> },
    Fail { pos: nat },
}

/// The lexing model from offset `i` on. Scanning steps that do not advance
/// cannot arise (`lemma_spec_scan_bounds`); the guards only make the
/// recursion well-founded.
pub open spec fn spec_lex_from(s: Seq<char>, i: nat) -> SpecLex
    decreases s.len() - i,
{
    match spec_scan(s, i) {
        SpecScan::Done => SpecLex::Toks { ts: Seq::empty() },
        SpecScan::Skip { next } => if i < next && next <= s.len() {
            spec_lex_from(s, next)
        } else {
            SpecLex::Toks { ts: Seq::empty() }
        },
        SpecScan::Tok { t, next } => if i < next && next <= s.len() {
            match spec_lex_from(s, next) {
                SpecLex::Toks { ts } => SpecLex::Toks { ts: seq![t] + ts },
                SpecLex::Fail { pos } => SpecLex::Fail { pos },
            }
        } else {
            SpecLex::Toks { ts: Seq::empty() }
        },
        SpecScan::Bad { pos } => SpecLex::Fail { pos },
    }
}

/// The lexing model of a whole input.
pub open spec fn spec_lex(s: Seq<char>) -> SpecLex {
    spec_lex_from(s, 0)
}

// ---------------------------------------------------------------------------
// Executable scanners
// ---------------------------------------------------------------------------

fn ident_end_x(v: &Vec<char>, i: usize) -> (r: usize)
    requires
        i <= v.len(),
    ensures
        r as nat == spec_ident_end(v@, i as nat),
        i <= r <= v.len(),
    decreases v.len() - i,
{
    if i < v.len() && is_ident_char_x(v[i]) {
        ident_end_x(v, i + 1)
    } else {
        i
    }
}

fn numeral_end_x(v: &Vec<char>, i: usize) -> (r: usize)
    requires
        i <= v.len(),
    ensures
        r as nat == spec_numeral_end(v@, i as nat),
        i <= r <= v.len(),
    decreases v.len() - i,
{
    if i < v.len() && (is_digit_x(v[i]) || v[i] == '_') {
        numeral_end_x(v, i + 1)
    } else {
        i
    }
}

fn ext_end_x(v: &Vec<char>, i: usize) -> (r: usize)
    requires
        i <= v.len(),
    ensures
        r as nat == spec_ext_end(v@, i as nat),
        i <= r <= v.len(),
    decreases v.len() - i,
{
    if i < v.len() && (is_ext_digit_x(v[i]) || v[i] == '_') {
        ext_end_x(v, i + 1)
    } else {
        i
    }
}

fn line_end_x(v: &Vec<char>, i: usize) -> (r: usize)
    requires
        i <= v.len(),
    ensures
        r as nat == spec_line_end(v@, i as nat),
        i <= r <= v.len(),
    decreases v.len() - i,
{
    if i < v.len() && v[i] != '\n' {
        line_end_x(v, i + 1)
    } else {
        i
    }
}

fn str_end_x(v: &Vec<char>, i: usize) -> (r: Option<usize>)
    requires
        i <= v.len(),
    ensures
        match r {
            Some(e) => spec_str_end(v@, i as nat) == Some(e as nat) && i < e <= v.len(),
            None => spec_str_end(v@, i as nat) is None,
        },
    decreases v.len() - i,
{
    if i >= v.len() {
        None
    } else if v[i] == '"' {
        if i + 1 < v.len() && v[i + 1] == '"' {
            str_end_x(v, i + 2)
        } else {
            Some(i + 1)
        }
    } else {
        str_end_x(v, i + 1)
    }
}

fn expo_end_x(v: &Vec<char>, i: usize) -> (r: usize)
    requires
        i <= v.len(),
    ensures
        r as nat == spec_expo_end(v@, i as nat),
        i <= r <= v.len(),
{
    if i < v.len() && (v[i] == 'e' || v[i] == 'E') {
        if i + 1 < v.len() && is_digit_x(v[i + 1]) {
            numeral_end_x(v, i + 2)
        } else if v.len() - i > 2 && (v[i + 1] == '+' || v[i + 1] == '-') && is_digit_x(v[i + 2]) {
            numeral_end_x(v, i + 3)
        } else {
            i
        }
    } else {
        i
    }
}

fn num_scan_x(v: &Vec<char>, i: usize) -> (r: Option<(usize, bool)>)
    requires
        i < v.len(),
        is_digit(v@[i as int]),
    ensures
        match r {
            Some((e, is_real)) => spec_num_scan(v@, i as nat) == Some((e as nat, is_real)) && i < e
                <= v.len(),
            None => spec_num_scan(v@, i as nat) is None,
        },
{
    proof {
        assert(spec_numeral_end(v@, i as nat) == spec_numeral_end(v@, (i + 1) as nat));
    }
    let a = numeral_end_x(v, i + 1);
    if a < v.len() && v[a] == '#' {
        let b = ext_end_x(v, a + 1);
        if b < v.len() && v[b] == '#' {
            Some((expo_end_x(v, b + 1), false))
        } else if b < v.len() && v[b] == '.' {
            let c = ext_end_x(v, b + 1);
            if b + 1 < c && c < v.len() && v[c] == '#' {
                Some((expo_end_x(v, c + 1), true))
            } else {
                None
            }
        } else {
            None
        }
    } else if a < v.len() && v[a] == '.' && a + 1 < v.len() && is_digit_x(v[a + 1]) {
        Some((expo_end_x(v, numeral_end_x(v, a + 1)), true))
    } else {
        Some((expo_end_x(v, a), false))
    }
}

// ---------------------------------------------------------------------------
// Executable lexer
// ---------------------------------------------------------------------------

/// The outcome of one executable scanning step, mirroring `SpecScan`.
enum ScanStep {
    Done,
    Skip { next: usize },
    Tok { t: Token, next: usize },
    Bad { pos: usize },
}

/// One scanning step at offset `i`.
fn scan_token(src: &str, v: &Vec<char>, i: usize) -> (r: ScanStep)
    requires
        v@ == src@,
        i <= v.len(),
    ensures
        match r {
            ScanStep::Done => spec_scan(v@, i as nat) is Done,
            ScanStep::Skip { next } => spec_scan(v@, i as nat) == (SpecScan::Skip {
                next: next as nat,
            }) && i < next <= v.len(),
            ScanStep::Tok { t, next } => spec_scan(v@, i as nat) == (SpecScan::Tok {
                t: t@,
                next: next as nat,
            }) && i < next <= v.len(),
            ScanStep::Bad { pos } => spec_scan(v@, i as nat) == (SpecScan::Bad {
                pos: pos as nat,
            }),
        },
{
    if i >= v.len() {
        ScanStep::Done
    } else {
        let c = v[i];
        if is_space_x(c) {
            ScanStep::Skip { next: i + 1 }
        } else if c == '-' && i + 1 < v.len() && v[i + 1] == '-' {
            ScanStep::Skip { next: line_end_x(v, i + 2) }
        } else if is_letter_x(c) {
            proof {
                assert(spec_ident_end(v@, i as nat) == spec_ident_end(v@, (i + 1) as nat));
            }
            let e = ident_end_x(v, i + 1);
            let w = src.substring_char(i, e);
            let k = word_kind(w);
            ScanStep::Tok { t: Token { kind: k, text: w.to_owned(), pos: i }, next: e }
        } else if is_digit_x(c) {
            match num_scan_x(v, i) {
                Some((e, is_real)) => {
                    let kind = if is_real {
                        TokenKind::RealLit
                    } else {
                        TokenKind::IntLit
                    };
                    let w = src.substring_char(i, e);
                    ScanStep::Tok { t: Token { kind, text: w.to_owned(), pos: i }, next: e }
                },
                None => ScanStep::Bad { pos: i },
            }
        } else if c == '"' {
            match str_end_x(v, i + 1) {
                Some(e) => {
                    let w = src.substring_char(i, e);
                    ScanStep::Tok {
                        t: Token { kind: TokenKind::StrLit, text: w.to_owned(), pos: i },
                        next: e,
                    }
                },
                None => ScanStep::Bad { pos: i },
            }
        } else if c == '\'' {
            if v.len() - i > 2 && v[i + 2] == '\'' {
                let w = src.substring_char(i, i + 3);
                ScanStep::Tok {
                    t: Token { kind: TokenKind::ChrLit, text: w.to_owned(), pos: i },
                    next: i + 3,
                }
            } else {
                ScanStep::Bad { pos: i }
            }
        } else if c == ':' && i + 1 < v.len() && v[i + 1] == '=' {
            op_token(TokenKind::Assign, src, v, i, 2)
        } else if c == '/' && i + 1 < v.len() && v[i + 1] == '=' {
            op_token(TokenKind::NeOp, src, v, i, 2)
        } else if c == '<' && i + 1 < v.len() && v[i + 1] == '=' {
            op_token(TokenKind::LeOp, src, v, i, 2)
        } else if c == '>' && i + 1 < v.len() && v[i + 1] == '=' {
            op_token(TokenKind::GeOp, src, v, i, 2)
        } else if c == '*' && i + 1 < v.len() && v[i + 1] == '*' {
            op_token(TokenKind::StarStar, src, v, i, 2)
        } else if c == '.' && i + 1 < v.len() && v[i + 1] == '.' {
            op_token(TokenKind::DotDot, src, v, i, 2)
        } else if c == '(' {
            op_token(TokenKind::LParen, src, v, i, 1)
        } else if c == ')' {
            op_token(TokenKind::RParen, src, v, i, 1)
        } else if c == ';' {
            op_token(TokenKind::Semi, src, v, i, 1)
        } else if c == ',' {
            op_token(TokenKind::Comma, src, v, i, 1)
        } else if c == ':' {
            op_token(TokenKind::Colon, src, v, i, 1)
        } else if c == '.' {
            op_token(TokenKind::Dot, src, v, i, 1)
        } else if c == '=' {
            op_token(TokenKind::EqOp, src, v, i, 1)
        } else if c == '<' {
            op_token(TokenKind::LtOp, src, v, i, 1)
        } else if c == '>' {
            op_token(TokenKind::GtOp, src, v, i, 1)
        } else if c == '&' {
            op_token(TokenKind::Amp, src, v, i, 1)
        } else if c == '+' {
            op_token(TokenKind::PlusOp, src, v, i, 1)
        } else if c == '-' {
            op_token(TokenKind::MinusOp, src, v, i, 1)
        } else if c == '*' {
            op_token(TokenKind::Star, src, v, i, 1)
        } else if c == '/' {
            op_token(TokenKind::Slash, src, v, i, 1)
        } else {
            ScanStep::Bad { pos: i }
        }
    }
}

/// Builds an operator or delimiter token of `n` characters at offset `i`.
fn op_token(kind: TokenKind, src: &str, v: &Vec<char>, i: usize, n: usize) -> (r: ScanStep)
    requires
        v@ == src@,
        i + n <= v.len(),
        1 <= n,
    ensures
        (match r {
            ScanStep::Tok { t, next } => t@ == (SpecToken {
                kind,
                text: v@.subrange(i as int, i as int + n as int),
                pos: i as nat,
            }) && next == i + n,
            _ => false,
        }),
{
    let w = src.substring_char(i, i + n);
    ScanStep::Tok { t: Token { kind, text: w.to_owned(), pos: i }, next: i + n }
}

/// Converts the input to its character sequence.
fn chars_of(s: &str) -> (v: Vec<char>)
    ensures
        v@ == s@,
{
    let n = s.unicode_len();
    let mut v: Vec<char> = Vec::new();
    let mut i: usize = 0;
    while i < n
        invariant
            i <= n,
            n == s@.len(),
            v@ == s@.subrange(0, i as int),
        decreases n - i,
    {
        let c = s.get_char(i);
        v.push(c);
        proof {
            assert(v@ =~= s@.subrange(0, (i + 1) as int));
        }
        i += 1;
    }
    proof {
        assert(v@ =~= s@);
    }
    v
}

/// Glues a finished prefix onto a lexing outcome for the rest.
pub open spec fn lex_combine(ts: Seq<SpecToken>, rest: SpecLex) -> SpecLex {
    match rest {
        SpecLex::Toks { ts: ts2 } => SpecLex::Toks { ts: ts + ts2 },
        SpecLex::Fail { pos } => SpecLex::Fail { pos },
    }
}

/// The lexer: the full token sequence of the input, or the offset of the
/// first character that matches no lexical rule. Returns exactly the model
/// `spec_lex` of the input.
pub fn lex(src: &str) -> (r: Result<Vec<Token>, usize>)
    ensures
        match r {
            Ok(ts) => spec_lex(src@) == (SpecLex::Toks { ts: toks_model(ts@) }),
            Err(p) => spec_lex(src@) == (SpecLex::Fail { pos: p as nat }),
        },
{
    let v = chars_of(src);
    let mut out: Vec<Token> = Vec::new();
    let mut i: usize = 0;
    loop
        invariant
            v@ == src@,
            i <= v.len(),
            spec_lex(src@) == lex_combine(toks_model(out@), spec_lex_from(src@, i as nat)),
        decreases v.len() - i,
    {
        match scan_token(src, &v, i) {
            ScanStep::Done => {
                proof {
                    assert(spec_lex_from(src@, i as nat) == (SpecLex::Toks { ts: Seq::empty() }));
                    assert(toks_model(out@) + Seq::<SpecToken>::empty() =~= toks_model(out@));
                }
                return Ok(out);
            },
            ScanStep::Skip { next } => {
                proof {
                    assert(spec_lex_from(src@, i as nat) == spec_lex_from(src@, next as nat));
                }
                i = next;
            },
            ScanStep::Tok { t, next } => {
                proof {
                    lemma_toks_model_push(out@, t);
                    assert(spec_lex_from(src@, i as nat) == lex_combine(
                        seq![t@],
                        spec_lex_from(src@, next as nat),
                    ));
                    lemma_lex_combine_assoc(toks_model(out@), t@, spec_lex_from(src@, next as nat));
                }
                out.push(t);
                i = next;
            },
            ScanStep::Bad { pos } => {
                proof {
                    assert(spec_lex_from(src@, i as nat) == (SpecLex::Fail { pos: pos as nat }));
                }
                return Err(pos);
            },
        }
    }
}

/// Gluing one token at the joint is the same seen from either side.
proof fn lemma_lex_combine_assoc(ts: Seq<SpecToken>, t: SpecToken, rest: SpecLex)
    ensures
        lex_combine(ts.push(t), rest) == lex_combine(ts, lex_combine(seq![t], rest)),
{
    match rest {
        SpecLex::Toks { ts: ts2 } => {
            assert(ts.push(t) + ts2 =~= ts + (seq![t] + ts2));
        },
        SpecLex::Fail { pos } => {
        },
    }
}

} // verus!
