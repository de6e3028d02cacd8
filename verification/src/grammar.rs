//! The mathematical model of parsing: a precedence-climbing recursive
//! descent over a whitespace-free token sequence, mirrored exactly by the
//! executable parser.
//!
//! Grammar, two precedence tiers, both left-associative:
//! ```text
//! expression := high_prec ( ("+" | "-") high_prec )*
//! high_prec  := atom ( ("*" | "/" | "%") atom )*
//! atom       := INTEGER | FLOAT | IDENTIFIER | "(" expression ")"
//! ```
//! `%` is recognized by the grammar but has no tree node, and the block
//! form `{` is reserved: both are reported as unsupported, never built.

use vstd::prelude::*;
use crate::expression::ExprM;
use crate::lex_model::in_range;
use crate::numeral::{dec_val, fits_i32};
use crate::statement::StmtM;
use crate::token::TokM;
use crate::token_t::TokenT;

verus! {

/// The kind of a parse failure, without its diagnostic payload.
pub enum PEKind {
    /// The token stream ended where a token was required.
    Eof,
    /// A token of an unexpected kind.
    Kind,
    /// A token of the right kind with an unexpected text.
    Value,
    /// A construct the grammar reserves but the tree cannot represent.
    Unsupported,
    /// An internal invariant violation: numeric text the tokenizer
    /// guaranteed parseable failed to parse.
    Internal,
}

/// The outcome of one parsing function: a parsed value and the index just
/// past what it consumed, or a failure kind and the index where the cursor
/// stopped.
pub enum PRes<T> {
    Parsed(T, int),
    Fail(PEKind, int),
}

/// Whether a token's text is the single character `c`.
pub open spec fn is_ch(t: Seq<char>, c: char) -> bool {
    t.len() == 1 && t[0] == c
}

/// Operator precedence: `+ -` bind at 1, `* / %` at 2, anything else at 0.
pub open spec fn sp_prec(op: Seq<char>) -> int {
    if op.len() == 1 {
        if op[0] == '+' || op[0] == '-' {
            1
        } else if op[0] == '*' || op[0] == '/' || op[0] == '%' {
            2
        } else {
            0
        }
    } else {
        0
    }
}

/// Tokens remaining from index `i`, clamped at zero; the termination
/// measure of the parsing functions.
pub open spec fn rem(n: int, i: int) -> int {
    if i < n {
        n - i
    } else {
        0
    }
}

/// Parses one atom: a literal, a variable, or a parenthesized expression.
pub open spec fn sp_atom(toks: Seq<TokM>, i: int) -> PRes<ExprM>
    decreases rem(toks.len() as int, i), 0int,
{
    if i >= toks.len() {
        PRes::Fail(PEKind::Eof, i)
    } else {
        let t = toks[i];
        if t.kind == TokenT::INTEGER {
            if fits_i32(t.text) {
                PRes::Parsed(ExprM::Int(dec_val(t.text)), i + 1)
            } else {
                PRes::Fail(PEKind::Internal, i + 1)
            }
        } else if t.kind == TokenT::FLOAT {
            PRes::Parsed(ExprM::Float(t.text), i + 1)
        } else if t.kind == TokenT::IDENTIFIER {
            PRes::Parsed(ExprM::Var(t.text), i + 1)
        } else if t.kind == TokenT::BRACKET {
            if is_ch(t.text, '(') {
                match sp_expr(toks, i + 1) {
                    PRes::Parsed(e, j) => {
                        if j < toks.len() && toks[j].kind == TokenT::BRACKET && is_ch(
                            toks[j].text,
                            ')',
                        ) {
                            PRes::Parsed(e, j + 1)
                        } else if j >= toks.len() {
                            PRes::Fail(PEKind::Eof, j)
                        } else if toks[j].kind != TokenT::BRACKET {
                            PRes::Fail(PEKind::Kind, j)
                        } else {
                            PRes::Fail(PEKind::Value, j)
                        }
                    },
                    PRes::Fail(k, j) => PRes::Fail(k, j),
                }
            } else if is_ch(t.text, '{') {
                PRes::Fail(PEKind::Unsupported, i + 1)
            } else {
                PRes::Fail(PEKind::Value, i + 1)
            }
        } else {
            PRes::Fail(PEKind::Kind, i)
        }
    }
}

/// Continues a high-precedence chain left-associatively: while the next
/// token is a precedence-2 operator, fold the following atom into `acc`.
pub open spec fn sp_high_more(toks: Seq<TokM>, i: int, acc: ExprM) -> PRes<ExprM>
    decreases rem(toks.len() as int, i), 1int,
{
    if i < toks.len() && toks[i].kind == TokenT::OPERATOR && sp_prec(toks[i].text) == 2 {
        let op = toks[i].text;
        if op[0] == '%' {
            PRes::Fail(PEKind::Unsupported, i + 1)
        } else {
            match sp_atom(toks, i + 1) {
                PRes::Parsed(e2, k) => {
                    let acc2 = if op[0] == '*' {
                        ExprM::Mul(Box::new(acc), Box::new(e2))
                    } else {
                        ExprM::Div(Box::new(acc), Box::new(e2))
                    };
                    sp_high_more(toks, in_range(k, i + 1, toks.len() as int), acc2)
                },
                PRes::Fail(k, j) => PRes::Fail(k, j),
            }
        }
    } else {
        PRes::Parsed(acc, i)
    }
}

/// Parses a high-precedence expression: an atom followed by any number of
/// `* / %` continuations.
pub open spec fn sp_high(toks: Seq<TokM>, i: int) -> PRes<ExprM>
    decreases rem(toks.len() as int, i), 2int,
{
    match sp_atom(toks, i) {
        PRes::Parsed(e, j) => sp_high_more(toks, in_range(j, i, toks.len() as int), e),
        PRes::Fail(k, j) => PRes::Fail(k, j),
    }
}

/// Continues a full expression left-associatively: while the next token is
/// a precedence-1 operator, fold the following high-precedence expression
/// into `acc`.
pub open spec fn sp_expr_more(toks: Seq<TokM>, i: int, acc: ExprM) -> PRes<ExprM>
    decreases rem(toks.len() as int, i), 3int,
{
    if i < toks.len() && toks[i].kind == TokenT::OPERATOR && sp_prec(toks[i].text) == 1 {
        let op = toks[i].text;
        match sp_high(toks, i + 1) {
            PRes::Parsed(e2, k) => {
                let acc2 = if op[0] == '+' {
                    ExprM::Add(Box::new(acc), Box::new(e2))
                } else {
                    ExprM::Sub(Box::new(acc), Box::new(e2))
                };
                sp_expr_more(toks, in_range(k, i + 1, toks.len() as int), acc2)
            },
            PRes::Fail(k, j) => PRes::Fail(k, j),
        }
    } else {
        PRes::Parsed(acc, i)
    }
}

/// Parses a full expression: a high-precedence expression followed by any
/// number of `+ -` continuations.
pub open spec fn sp_expr(toks: Seq<TokM>, i: int) -> PRes<ExprM>
    decreases rem(toks.len() as int, i), 4int,
{
    match sp_high(toks, i) {
        PRes::Parsed(e, j) => sp_expr_more(toks, in_range(j, i, toks.len() as int), e),
        PRes::Fail(k, j) => PRes::Fail(k, j),
    }
}

/// Parses the remainder of a `var` assignment, starting just after the
/// `var` keyword: an identifier, the `=` operator, then a full expression.
pub open spec fn sp_var_assign(toks: Seq<TokM>, i: int) -> PRes<StmtM> {
    if i >= toks.len() {
        PRes::Fail(PEKind::Eof, i)
    } else if toks[i].kind != TokenT::IDENTIFIER {
        PRes::Fail(PEKind::Kind, i)
    } else if i + 1 >= toks.len() {
        PRes::Fail(PEKind::Eof, i + 1)
    } else if toks[i + 1].kind != TokenT::OPERATOR {
        PRes::Fail(PEKind::Kind, i + 1)
    } else if !is_ch(toks[i + 1].text, '=') {
        PRes::Fail(PEKind::Value, i + 1)
    } else {
        match sp_expr(toks, i + 2) {
            PRes::Parsed(e, j) => PRes::Parsed(
                StmtM::Assign { variable: ExprM::Var(toks[i].text), value: e, mutable: false },
                j,
            ),
            PRes::Fail(k, j) => PRes::Fail(k, j),
        }
    }
}

/// Parses one statement: a `var` assignment when the next token is the
/// `var` keyword, otherwise a bare expression statement.
pub open spec fn sp_stmt(toks: Seq<TokM>, i: int) -> PRes<StmtM> {
    if i < toks.len() && toks[i].kind == TokenT::VAR {
        sp_var_assign(toks, i + 1)
    } else {
        match sp_expr(toks, i) {
            PRes::Parsed(e, j) => PRes::Parsed(StmtM::Expr(e), j),
            PRes::Fail(k, j) => PRes::Fail(k, j),
        }
    }
}

/// The result of parsing a whole program: the statements parsed, in source
/// order, and the failures recorded along the way.
pub struct ProgM {
    pub stmts: Seq<StmtM>,
    pub errors: Seq<PEKind>,
}

/// Parses statements until the tokens are exhausted. A failing statement
/// is recorded and parsing continues from where the cursor stopped,
/// skipping one token when no progress was made; after a failure the
/// stream is not resynchronized, so later statements are best-effort only.
pub open spec fn sp_program(toks: Seq<TokM>, i: int) -> ProgM
    decreases rem(toks.len() as int, i),
{
    if i >= toks.len() {
        ProgM { stmts: seq![], errors: seq![] }
    } else {
        match sp_stmt(toks, i) {
            PRes::Parsed(s, j) => {
                let rest = sp_program(toks, in_range(j, i + 1, toks.len() as int));
                ProgM { stmts: seq![s] + rest.stmts, errors: rest.errors }
            },
            PRes::Fail(k, j) => {
                let rest = sp_program(
                    toks,
                    in_range(if j <= i { i + 1 } else { j }, i + 1, toks.len() as int),
                );
                ProgM { stmts: rest.stmts, errors: seq![k] + rest.errors }
            },
        }
    }
}

/// Whether a token survives whitespace stripping.
pub open spec fn non_ws() -> spec_fn(TokM) -> bool {
    |t: TokM| t.kind != TokenT::WHITESPACE
}

/// The token sequence with whitespace tokens removed.
pub open spec fn strip_ws(toks: Seq<TokM>) -> Seq<TokM> {
    toks.filter(non_ws())
}

/// Filtering out whitespace distributes over appending one token.
pub proof fn lemma_strip_ws_push(toks: Seq<TokM>, t: TokM)
    ensures
        t.kind != TokenT::WHITESPACE ==> strip_ws(toks.push(t)) == strip_ws(toks).push(t),
        t.kind == TokenT::WHITESPACE ==> strip_ws(toks.push(t)) == strip_ws(toks),
{
    reveal(Seq::filter);
    assert(toks.push(t).drop_last() =~= toks);
    assert(toks.push(t).last() == t);
}

// ------------------------------------------------------------------
// Progress: parsing never moves the cursor backwards, never past the end,
// and always consumes at least one token on success.
// ------------------------------------------------------------------
pub open spec fn parsed_in<T>(r: PRes<T>, i: int, n: int) -> bool {
    match r {
        PRes::Parsed(_, j) => i < j <= n,
        PRes::Fail(_, j) => i <= j <= n,
    }
}

pub proof fn lemma_atom_progress(toks: Seq<TokM>, i: int)
    requires
        0 <= i <= toks.len(),
    ensures
        parsed_in(sp_atom(toks, i), i, toks.len() as int),
    decreases rem(toks.len() as int, i), 0int,
{
    let n = toks.len() as int;
    if i < n {
        let t = toks[i];
        if t.kind == TokenT::BRACKET && is_ch(t.text, '(') {
            lemma_expr_progress(toks, i + 1);
        }
    }
}

pub proof fn lemma_high_more_progress(toks: Seq<TokM>, i: int, acc: ExprM)
    requires
        0 <= i <= toks.len(),
    ensures
        match sp_high_more(toks, i, acc) {
            PRes::Parsed(_, j) => i <= j <= toks.len(),
            PRes::Fail(_, j) => i <= j <= toks.len(),
        },
    decreases rem(toks.len() as int, i), 1int,
{
    let n = toks.len() as int;
    if i < n && toks[i].kind == TokenT::OPERATOR && sp_prec(toks[i].text) == 2 {
        if toks[i].text[0] != '%' {
            lemma_atom_progress(toks, i + 1);
            match sp_atom(toks, i + 1) {
                PRes::Parsed(e2, k) => {
                    assert(in_range(k, i + 1, n) == k);
                    let acc2 = if toks[i].text[0] == '*' {
                        ExprM::Mul(Box::new(acc), Box::new(e2))
                    } else {
                        ExprM::Div(Box::new(acc), Box::new(e2))
                    };
                    lemma_high_more_progress(toks, k, acc2);
                },
                PRes::Fail(..) => {},
            }
        }
    }
}

pub proof fn lemma_high_progress(toks: Seq<TokM>, i: int)
    requires
        0 <= i <= toks.len(),
    ensures
        parsed_in(sp_high(toks, i), i, toks.len() as int),
    decreases rem(toks.len() as int, i), 2int,
{
    let n = toks.len() as int;
    lemma_atom_progress(toks, i);
    match sp_atom(toks, i) {
        PRes::Parsed(e, j) => {
            assert(in_range(j, i, n) == j);
            lemma_high_more_progress(toks, j, e);
        },
        PRes::Fail(..) => {},
    }
}

pub proof fn lemma_expr_more_progress(toks: Seq<TokM>, i: int, acc: ExprM)
    requires
        0 <= i <= toks.len(),
    ensures
        match sp_expr_more(toks, i, acc) {
            PRes::Parsed(_, j) => i <= j <= toks.len(),
            PRes::Fail(_, j) => i <= j <= toks.len(),
        },
    decreases rem(toks.len() as int, i), 3int,
{
    let n = toks.len() as int;
    if i < n && toks[i].kind == TokenT::OPERATOR && sp_prec(toks[i].text) == 1 {
        lemma_high_progress(toks, i + 1);
        match sp_high(toks, i + 1) {
            PRes::Parsed(e2, k) => {
                assert(in_range(k, i + 1, n) == k);
                let acc2 = if toks[i].text[0] == '+' {
                    ExprM::Add(Box::new(acc), Box::new(e2))
                } else {
                    ExprM::Sub(Box::new(acc), Box::new(e2))
                };
                lemma_expr_more_progress(toks, k, acc2);
            },
            PRes::Fail(..) => {},
        }
    }
}

pub proof fn lemma_expr_progress(toks: Seq<TokM>, i: int)
    requires
        0 <= i <= toks.len(),
    ensures
        parsed_in(sp_expr(toks, i), i, toks.len() as int),
    decreases rem(toks.len() as int, i), 4int,
{
    let n = toks.len() as int;
    lemma_high_progress(toks, i);
    match sp_high(toks, i) {
        PRes::Parsed(e, j) => {
            assert(in_range(j, i, n) == j);
            lemma_expr_more_progress(toks, j, e);
        },
        PRes::Fail(..) => {},
    }
}

pub proof fn lemma_var_assign_progress(toks: Seq<TokM>, i: int)
    requires
        0 <= i <= toks.len(),
    ensures
        match sp_var_assign(toks, i) {
            PRes::Parsed(_, j) => i < j <= toks.len(),
            PRes::Fail(_, j) => i <= j <= toks.len(),
        },
{
    let n = toks.len() as int;
    if i < n && toks[i].kind == TokenT::IDENTIFIER && i + 1 < n && toks[i + 1].kind
        == TokenT::OPERATOR && is_ch(toks[i + 1].text, '=') {
        lemma_expr_progress(toks, i + 2);
    }
}

pub proof fn lemma_stmt_progress(toks: Seq<TokM>, i: int)
    requires
        0 <= i <= toks.len(),
    ensures
        match sp_stmt(toks, i) {
            PRes::Parsed(_, j) => i < j <= toks.len(),
            PRes::Fail(_, j) => i <= j <= toks.len(),
        },
{
    if i < toks.len() && toks[i].kind == TokenT::VAR {
        lemma_var_assign_progress(toks, i + 1);
    } else {
        lemma_expr_progress(toks, i);
    }
}

} // verus!
