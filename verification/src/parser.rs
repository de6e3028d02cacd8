//! The parser: a mutable cursor over a whitespace-free token sequence, a
//! precedence-climbing expression parser, and the statement parser, each
//! verified against the model in `grammar`.

use vstd::prelude::*;
use crate::expression::binary_expression::{add_opr::AddOpr, div_opr::DivOpr, mul_opr::MulOpr, sub_opr::SubOpr};
use crate::expression::value_expression::ValueExpression;
use crate::expression::variable_expression::VariableExpression;
use crate::expression::{ExprM, Expression};
use crate::grammar::{
    is_ch, lemma_atom_progress, lemma_high_progress, lemma_stmt_progress, sp_atom, sp_expr,
    sp_expr_more, sp_high, sp_high_more, sp_prec, sp_program, sp_stmt, sp_var_assign, strip_ws,
    lemma_strip_ws_push, PEKind, PRes,
};
use crate::lex_model::in_range;
use crate::numeral::dec_to_i32;
use crate::statement::assign_stmt::AssignStmt;
use crate::statement::{stmts_m, Statement, StmtM};
use crate::token::{toks_m, TokM, Token};
use crate::token_t::TokenT;

verus! {

/// A parse failure, with its diagnostic payload: the offending token where
/// one exists, and the caret-annotated token context described in
/// `caret_ctx`.
#[derive(Debug)]
pub enum ParseError {
    /// The token stream ended where a token was required.
    UnexpectedEof,
    /// A token whose kind is not among the expected ones.
    UnexpectedKind { expected: Vec<TokenT>, found: Token, context: Vec<String> },
    /// A token of the right kind whose text is not among the allowed ones.
    UnexpectedValue { expected: Vec<String>, found: Token, context: Vec<String> },
    /// A construct the grammar reserves but cannot represent: the block
    /// form `{`, or the `%` operator, which has no tree node.
    Unsupported { found: Token },
    /// An internal invariant violation: numeric token text that fails to
    /// parse as a number.
    InternalNumeric { found: Token },
}

/// The kind of a parse failure, as the model speaks of it.
pub open spec fn pe_kind(e: ParseError) -> PEKind {
    match e {
        ParseError::UnexpectedEof => PEKind::Eof,
        ParseError::UnexpectedKind { .. } => PEKind::Kind,
        ParseError::UnexpectedValue { .. } => PEKind::Value,
        ParseError::Unsupported { .. } => PEKind::Unsupported,
        ParseError::InternalNumeric { .. } => PEKind::Internal,
    }
}

/// Operator precedence: `+ -` bind at 1, `* / %` at 2, anything else
/// (notably `=`) at 0.
pub fn get_precedence(opr: &str) -> (r: i32)
    ensures
        r as int == sp_prec(opr@),
{
    let n = opr.unicode_len();
    if n == 1 {
        let c = opr.get_char(0);
        if c == '+' || c == '-' {
            1
        } else if c == '*' || c == '/' || c == '%' {
            2
        } else {
            0
        }
    } else {
        0
    }
}

/// Whether the string is exactly the one character `c`.
fn is_str_ch(s: &String, c: char) -> (r: bool)
    ensures
        r == is_ch(s@, c),
{
    let st = s.as_str();
    st.unicode_len() == 1 && st.get_char(0) == c
}

/// A field-by-field copy of a token; the copy equals the original.
fn copy_token(t: &Token) -> (r: Token)
    ensures
        r == *t,
{
    Token {
        token_t: t.token_t,
        value: t.value.clone(),
        codepos: crate::codepos::Codepos {
            line: t.codepos.line,
            col: t.codepos.col,
            file: match &t.codepos.file {
                Some(f) => Some(f.clone()),
                None => None,
            },
        },
    }
}

/// Whether `k` occurs in the vector.
fn kind_in(v: &Vec<TokenT>, k: TokenT) -> (r: bool)
    ensures
        r == v@.contains(k),
{
    let n = v.len();
    let mut i: usize = 0;
    while i < n
        invariant
            i <= n == v@.len(),
            forall|j: int| 0 <= j < i ==> v@[j] != k,
        decreases n - i,
    {
        if v[i] == k {
            return true;
        }
        i = i + 1;
    }
    false
}

/// Whether some string in the vector has the same text as `s`.
fn val_in(v: &Vec<String>, s: &String) -> (r: bool)
    ensures
        r == v.deep_view().contains(s@),
{
    let n = v.len();
    let mut i: usize = 0;
    while i < n
        invariant
            i <= n == v@.len(),
            forall|j: int| 0 <= j < i ==> #[trigger] v@[j]@ != s@,
        decreases n - i,
    {
        if v[i] == *s {
            proof {
                assert(v.deep_view()[i as int] == v@[i as int]@);
            }
            return true;
        }
        i = i + 1;
    }
    proof {
        assert forall|k: int| 0 <= k < v.deep_view().len() implies #[trigger] v.deep_view()[k]
            != s@ by {
            assert(v.deep_view()[k] == v@[k]@);
        }
    }
    false
}

/// The token texts in order, with a caret prefixed to the one at `k`: the
/// context printed with a parse failure.
pub open spec fn caret_ctx(toks: Seq<TokM>, k: int) -> Seq<Seq<char>> {
    Seq::new(toks.len(), |i: int| if i == k { seq!['^'] + toks[i].text } else { toks[i].text })
}

/// Which failure `next` reports when the token at `i` does not satisfy the
/// expectation.
pub open spec fn next_fail_kind(toks: Seq<TokM>, i: int, kinds: Seq<TokenT>) -> PEKind {
    if i >= toks.len() {
        PEKind::Eof
    } else if !kinds.contains(toks[i].kind) {
        PEKind::Kind
    } else {
        PEKind::Value
    }
}

/// Whether the token satisfies the kind filter and the optional text
/// filter.
pub open spec fn tok_admissible(t: TokM, kinds: Seq<TokenT>, vals: Option<Seq<Seq<char>>>) -> bool {
    kinds.contains(t.kind) && match vals {
        Some(vs) => vs.contains(t.text),
        None => true,
    }
}

/// The view of the optional text filter.
pub open spec fn vals_view(v: Option<Vec<String>>) -> Option<Seq<Seq<char>>> {
    match v {
        Some(x) => Some(x.deep_view()),
        None => None,
    }
}

/// The parser: an owned token buffer, a read position, the statements
/// parsed so far, and the failures recorded so far.
pub struct Parser {
    token_stream: Vec<Token>,
    current_token: usize,
    stream_size: usize,
    ast: Vec<Statement>,
    errors: Vec<ParseError>,
}

impl Parser {
    /// The models of the buffered tokens.
    pub closed spec fn toks(&self) -> Seq<TokM> {
        toks_m(self.token_stream@)
    }

    /// The read position.
    pub closed spec fn cur(&self) -> int {
        self.current_token as int
    }

    /// The models of the statements parsed so far.
    pub closed spec fn ast_m(&self) -> Seq<StmtM> {
        stmts_m(self.ast@)
    }

    /// The kinds of the failures recorded so far.
    pub closed spec fn errs_m(&self) -> Seq<PEKind> {
        self.errors@.map_values(|e: ParseError| pe_kind(e))
    }

    /// Well-formedness: the cached size is the buffer's length.
    pub closed spec fn wf(&self) -> bool {
        self.stream_size == self.token_stream@.len()
    }

    /// The token buffer, the parsed statements and the recorded failures
    /// are all as they were.
    pub open spec fn same_tables(&self, other: &Parser) -> bool {
        self.toks() == other.toks() && self.ast_m() == other.ast_m() && self.errs_m()
            == other.errs_m()
    }

    pub fn new(input_tokens: Vec<Token>) -> (r: Parser)
        ensures
            r.wf(),
            r.toks() == toks_m(input_tokens@),
            r.cur() == 0,
            r.ast_m() == Seq::<StmtM>::empty(),
            r.errs_m() == Seq::<PEKind>::empty(),
    {
        let p = Parser {
            stream_size: input_tokens.len(),
            token_stream: input_tokens,
            current_token: 0,
            ast: Vec::new(),
            errors: Vec::new(),
        };
        proof {
            assert(p.ast_m() =~= Seq::<StmtM>::empty());
            assert(p.errs_m() =~= Seq::<PEKind>::empty());
        }
        p
    }

    /// The buffered tokens.
    pub fn token_stream(&self) -> (r: &Vec<Token>)
        ensures
            toks_m(r@) == self.toks(),
    {
        &self.token_stream
    }

    /// The failures recorded by `parse`.
    pub fn errors(&self) -> (r: &Vec<ParseError>)
        ensures
            r@.map_values(|e: ParseError| pe_kind(e)) == self.errs_m(),
    {
        &self.errors
    }

    /// Removes every whitespace token from the buffer, keeping the order
    /// of the rest. Done once, before parsing begins.
    pub fn clear_whitespaces(&mut self)
        requires
            old(self).wf(),
        ensures
            final(self).wf(),
            final(self).toks() == strip_ws(old(self).toks()),
            final(self).cur() == old(self).cur(),
            final(self).ast_m() == old(self).ast_m(),
            final(self).errs_m() == old(self).errs_m(),
    {
        let mut new_tokens: Vec<Token> = Vec::new();
        let n = self.token_stream.len();
        let mut i: usize = 0;
        while i < n
            invariant
                n == self.token_stream@.len(),
                i <= n,
                toks_m(new_tokens@) == strip_ws(toks_m(self.token_stream@.subrange(0, i as int))),
            decreases n - i,
        {
            let ghost pre = toks_m(self.token_stream@.subrange(0, i as int));
            proof {
                assert(toks_m(self.token_stream@.subrange(0, i + 1)) =~= pre.push(
                    self.token_stream@[i as int]@,
                ));
                lemma_strip_ws_push(pre, self.token_stream@[i as int]@);
            }
            let t = &self.token_stream[i];
            if !matches!(t.token_t, TokenT::WHITESPACE) {
                let c = copy_token(t);
                new_tokens.push(c);
                proof {
                    assert(toks_m(new_tokens@) =~= strip_ws(pre).push(
                        self.token_stream@[i as int]@,
                    ));
                }
            }
            i = i + 1;
        }
        proof {
            assert(self.token_stream@.subrange(0, n as int) =~= self.token_stream@);
        }
        self.stream_size = new_tokens.len();
        self.token_stream = new_tokens;
    }

    /// The caret-annotated context for the token at `token_index`: every
    /// token's text in order, a `^` prefixed to the offending one.
    fn get_token_stream(&self, token_index: usize) -> (r: Vec<String>)
        requires
            self.wf(),
        ensures
            r.deep_view() == caret_ctx(self.toks(), token_index as int),
    {
        let mut out: Vec<String> = Vec::new();
        let n = self.token_stream.len();
        let mut i: usize = 0;
        while i < n
            invariant
                self.wf(),
                n == self.token_stream@.len(),
                i <= n,
                out@.len() == i,
                forall|j: int|
                    0 <= j < i ==> #[trigger] out@[j]@ == caret_ctx(
                        self.toks(),
                        token_index as int,
                    )[j],
            decreases n - i,
        {
            if i == token_index {
                let mut marked = String::from_str("^");
                marked.append(self.token_stream[i].value.as_str());
                proof {
                    reveal_strlit("^");
                    assert(marked@ =~= seq!['^'] + self.toks()[i as int].text);
                }
                out.push(marked);
            } else {
                out.push(self.token_stream[i].value.clone());
            }
            proof {
                assert(out@[i as int]@ == caret_ctx(self.toks(), token_index as int)[i as int]);
            }
            i = i + 1;
        }
        proof {
            assert forall|k: int| 0 <= k < out.deep_view().len() implies #[trigger] out.deep_view()[k]
                == caret_ctx(self.toks(), token_index as int)[k] by {
                assert(out.deep_view()[k] == out@[k]@);
            }
            assert(out.deep_view() =~= caret_ctx(self.toks(), token_index as int));
        }
        out
    }

    /// Takes the next token when it satisfies the kind filter and the
    /// optional text filter, advancing the cursor; otherwise reports why
    /// not, leaving the cursor in place.
    pub fn next(&mut self, expected_token: Vec<TokenT>, token_has_value: Option<Vec<String>>) -> (r:
        Result<Token, ParseError>)
        requires
            old(self).wf(),
        ensures
            final(self).wf(),
            final(self).same_tables(old(self)),
            r is Ok <==> (old(self).cur() < old(self).toks().len() && tok_admissible(
                old(self).toks()[old(self).cur()],
                expected_token@,
                vals_view(token_has_value),
            )),
            r matches Ok(t) ==> t@ == old(self).toks()[old(self).cur()] && final(self).cur()
                == old(self).cur() + 1,
            r is Err ==> final(self).cur() == old(self).cur(),
            r matches Err(e) ==> pe_kind(e) == next_fail_kind(
                old(self).toks(),
                old(self).cur(),
                expected_token@,
            ),
            r matches Err(e) ==> ((e matches ParseError::UnexpectedKind { found, .. } ==> found@
                == old(self).toks()[old(self).cur()]) && (e matches ParseError::UnexpectedValue {
                found,
                ..
            } ==> found@ == old(self).toks()[old(self).cur()])),
    {
        if self.current_token < self.stream_size {
            let token_ref = &self.token_stream[self.current_token];
            if kind_in(&expected_token, token_ref.token_t) {
                match token_has_value {
                    Some(values) => {
                        if val_in(&values, &token_ref.value) {
                            let token = copy_token(token_ref);
                            self.current_token = self.current_token + 1;
                            Ok(token)
                        } else {
                            let found = copy_token(token_ref);
                            let context = self.get_token_stream(self.current_token);
                            Err(ParseError::UnexpectedValue { expected: values, found, context })
                        }
                    },
                    None => {
                        let token = copy_token(token_ref);
                        self.current_token = self.current_token + 1;
                        Ok(token)
                    },
                }
            } else {
                let found = copy_token(token_ref);
                let context = self.get_token_stream(self.current_token);
                Err(ParseError::UnexpectedKind { expected: expected_token, found, context })
            }
        } else {
            Err(ParseError::UnexpectedEof)
        }
    }

    /// Whether the next token satisfies the kind filter and the optional
    /// text filter; never fails, and never moves the cursor.
    pub fn peek(&self, expected_token: Vec<TokenT>, token_has_value: Option<Vec<String>>) -> (r:
        Result<bool, ParseError>)
        requires
            self.wf(),
        ensures
            r matches Ok(b) && b == (self.cur() < self.toks().len() && tok_admissible(
                self.toks()[self.cur()],
                expected_token@,
                vals_view(token_has_value),
            )),
    {
        if self.current_token < self.stream_size {
            let token_ref = &self.token_stream[self.current_token];
            if kind_in(&expected_token, token_ref.token_t) {
                match token_has_value {
                    Some(values) => {
                        if val_in(&values, &token_ref.value) {
                            Ok(true)
                        } else {
                            Ok(false)
                        }
                    },
                    None => Ok(true),
                }
            } else {
                Ok(false)
            }
        } else {
            Ok(false)
        }
    }
}


/// What an expression-parsing function returns, held against the model's
/// outcome: the same tree on success, the same failure kind on failure,
/// and the same cursor position either way.
pub open spec fn expr_outcome(r: Result<Expression, ParseError>, sp: PRes<ExprM>, cur2: int) -> bool {
    match sp {
        PRes::Parsed(em, j) => r matches Ok(e) && e@ == em && cur2 == j,
        PRes::Fail(k, j) => r matches Err(pe) && pe_kind(pe) == k && cur2 == j,
    }
}

/// What a statement-parsing function returns, held against the model's
/// outcome.
pub open spec fn stmt_outcome(r: Result<Statement, ParseError>, sp: PRes<StmtM>, cur2: int) -> bool {
    match sp {
        PRes::Parsed(sm, j) => r matches Ok(s) && s@ == sm && cur2 == j,
        PRes::Fail(k, j) => r matches Err(pe) && pe_kind(pe) == k && cur2 == j,
    }
}

impl Parser {
    /// Turns an integer or float token into its literal node. A numeric
    /// text that does not parse — which the tokenizer never emits — is an
    /// internal fault, reported as a typed error, never a panic.
    fn parse_value(&mut self, token: Token) -> (r: Result<Expression, ParseError>)
        requires
            old(self).wf(),
            token@.kind == TokenT::INTEGER || token@.kind == TokenT::FLOAT,
        ensures
            *final(self) == *old(self),
            token@.kind == TokenT::INTEGER ==> (if crate::numeral::fits_i32(token@.text) {
                r matches Ok(e) && e@ == ExprM::Int(crate::numeral::dec_val(token@.text))
            } else {
                r matches Err(pe) && pe_kind(pe) == PEKind::Internal
            }),
            token@.kind == TokenT::FLOAT ==> (r matches Ok(e) && e@ == ExprM::Float(token@.text)),
    {
        if token.token_t == TokenT::INTEGER {
            match dec_to_i32(token.value.as_str()) {
                Some(val) => Ok(ValueExpression::int_value(val)),
                None => Err(ParseError::InternalNumeric { found: token }),
            }
        } else {
            Ok(ValueExpression::float_value(token.value))
        }
    }

    /// Parses one atom: an integer or float literal, a variable, or a
    /// parenthesized expression. A `{` is reserved and unsupported; any
    /// other bracket cannot open an atom.
    pub fn next_expression(&mut self) -> (r: Result<Expression, ParseError>)
        requires
            old(self).wf(),
        ensures
            final(self).wf(),
            final(self).same_tables(old(self)),
            expr_outcome(r, sp_atom(old(self).toks(), old(self).cur()), final(self).cur()),
        decreases crate::grammar::rem(old(self).toks().len() as int, old(self).cur()), 0int,
    {
        let ghost t0 = old(self).toks();
        let ghost c0 = old(self).cur();
        let token = match self.next(
            vec![TokenT::INTEGER, TokenT::FLOAT, TokenT::BRACKET, TokenT::IDENTIFIER],
            None,
        ) {
            Ok(t) => t,
            Err(e) => {
                return Err(e);
            },
        };
        if token.token_t == TokenT::INTEGER || token.token_t == TokenT::FLOAT {
            self.parse_value(token)
        } else if token.token_t == TokenT::BRACKET {
            if is_str_ch(&token.value, '(') {
                let expr = match self.parse_expression() {
                    Ok(e) => e,
                    Err(e) => {
                        return Err(e);
                    },
                };
                let close = vec![String::from_str(")")];
                let ghost vv = close.deep_view();
                proof {
                    reveal_strlit(")");
                    assert(vv[0] == ")"@);
                    let j = self.cur();
                    if j < t0.len() {
                        if is_ch(t0[j].text, ')') {
                            assert(t0[j].text =~= ")"@);
                            assert(vv.contains(t0[j].text));
                        }
                        if vv.contains(t0[j].text) {
                            assert(t0[j].text == vv[0]);
                            assert(is_ch(t0[j].text, ')'));
                        }
                    }
                }
                match self.next(vec![TokenT::BRACKET], Some(close)) {
                    Ok(_) => Ok(expr),
                    Err(e) => {
                        return Err(e);
                    },
                }
            } else if is_str_ch(&token.value, '{') {
                Err(ParseError::Unsupported { found: token })
            } else {
                let context = self.get_token_stream(self.current_token - 1);
                Err(
                    ParseError::UnexpectedValue {
                        expected: vec![String::from_str("(")],
                        found: token,
                        context,
                    },
                )
            }
        } else {
            Ok(VariableExpression::expression(token.value))
        }
    }

    /// Parses a high-precedence expression: an atom, then any number of
    /// `* /` continuations, folded left-associatively. A consumed operator
    /// of another precedence is handed back by one-step backtrack.
    pub fn parse_high_precedence_expr(&mut self) -> (r: Result<Expression, ParseError>)
        requires
            old(self).wf(),
        ensures
            final(self).wf(),
            final(self).same_tables(old(self)),
            expr_outcome(r, sp_high(old(self).toks(), old(self).cur()), final(self).cur()),
        decreases crate::grammar::rem(old(self).toks().len() as int, old(self).cur()), 1int,
    {
        let ghost t0 = old(self).toks();
        let ghost c0 = old(self).cur();
        let ghost n = t0.len() as int;
        let mut expr = match self.next_expression() {
            Ok(e) => e,
            Err(e) => {
                return Err(e);
            },
        };
        proof {
            lemma_atom_progress(t0, c0);
            assert(in_range(self.cur(), c0, n) == self.cur());
        }
        while self.current_token < self.stream_size
            invariant
                self.wf(),
                t0 == old(self).toks(),
                c0 == old(self).cur(),
                self.toks() == t0,
                self.ast_m() == old(self).ast_m(),
                self.errs_m() == old(self).errs_m(),
                n == t0.len(),
                c0 < self.cur() <= n,
                sp_high_more(t0, self.cur(), expr@) == sp_high(t0, c0),
            ensures
                self.wf(),
                t0 == old(self).toks(),
                c0 == old(self).cur(),
                self.toks() == t0,
                self.ast_m() == old(self).ast_m(),
                self.errs_m() == old(self).errs_m(),
                c0 < self.cur() <= n,
                sp_high(t0, c0) == PRes::Parsed(expr@, self.cur()),
            decreases n - self.cur(),
        {
            let ghost i_op = self.cur();
            let has_op = self.peek(vec![TokenT::OPERATOR], None).unwrap();
            if !has_op {
                break ;
            }
            let operator = self.next(vec![TokenT::OPERATOR], None).unwrap();
            let operator_value = operator.value.clone();
            let prec = get_precedence(operator_value.as_str());
            if prec != 2 {
                self.current_token = self.current_token - 1;
                break ;
            }
            if is_str_ch(&operator_value, '%') {
                return Err(ParseError::Unsupported { found: operator });
            }
            let next_expr = match self.next_expression() {
                Ok(e) => e,
                Err(e) => {
                    return Err(e);
                },
            };
            let ghost k = self.cur();
            proof {
                lemma_atom_progress(t0, i_op + 1);
                assert(in_range(k, i_op + 1, n) == k);
            }
            if is_str_ch(&operator_value, '*') {
                expr = MulOpr::expression(expr, next_expr);
            } else {
                expr = DivOpr::expression(expr, next_expr);
            }
        }
        Ok(expr)
    }

    /// Parses a full expression: a high-precedence expression, then any
    /// number of `+ -` continuations, folded left-associatively. A
    /// consumed operator of another precedence is handed back by one-step
    /// backtrack.
    pub fn parse_expression(&mut self) -> (r: Result<Expression, ParseError>)
        requires
            old(self).wf(),
        ensures
            final(self).wf(),
            final(self).same_tables(old(self)),
            expr_outcome(r, sp_expr(old(self).toks(), old(self).cur()), final(self).cur()),
        decreases crate::grammar::rem(old(self).toks().len() as int, old(self).cur()), 2int,
    {
        let ghost t0 = old(self).toks();
        let ghost c0 = old(self).cur();
        let ghost n = t0.len() as int;
        let mut expr = match self.parse_high_precedence_expr() {
            Ok(e) => e,
            Err(e) => {
                return Err(e);
            },
        };
        proof {
            lemma_high_progress(t0, c0);
            assert(in_range(self.cur(), c0, n) == self.cur());
        }
        while self.current_token < self.stream_size
            invariant
                self.wf(),
                t0 == old(self).toks(),
                c0 == old(self).cur(),
                self.toks() == t0,
                self.ast_m() == old(self).ast_m(),
                self.errs_m() == old(self).errs_m(),
                n == t0.len(),
                c0 < self.cur() <= n,
                sp_expr_more(t0, self.cur(), expr@) == sp_expr(t0, c0),
            ensures
                self.wf(),
                t0 == old(self).toks(),
                c0 == old(self).cur(),
                self.toks() == t0,
                self.ast_m() == old(self).ast_m(),
                self.errs_m() == old(self).errs_m(),
                c0 < self.cur() <= n,
                sp_expr(t0, c0) == PRes::Parsed(expr@, self.cur()),
            decreases n - self.cur(),
        {
            let ghost i_op = self.cur();
            let has_op = self.peek(vec![TokenT::OPERATOR], None).unwrap();
            if !has_op {
                break ;
            }
            let operator = self.next(vec![TokenT::OPERATOR], None).unwrap();
            let operator_value = operator.value.clone();
            let prec = get_precedence(operator_value.as_str());
            if prec != 1 {
                self.current_token = self.current_token - 1;
                break ;
            }
            let next_expr = match self.parse_high_precedence_expr() {
                Ok(e) => e,
                Err(e) => {
                    return Err(e);
                },
            };
            let ghost k = self.cur();
            proof {
                lemma_high_progress(t0, i_op + 1);
                assert(in_range(k, i_op + 1, n) == k);
            }
            if is_str_ch(&operator_value, '+') {
                expr = AddOpr::expression(expr, next_expr);
            } else {
                expr = SubOpr::expression(expr, next_expr);
            }
        }
        Ok(expr)
    }

    /// Parses the remainder of a `var` assignment, the keyword already
    /// consumed: an identifier, the `=` operator, then the value
    /// expression. The binding is never mutable: the grammar has no syntax
    /// for it.
    pub fn parse_variable_assignment(&mut self) -> (r: Result<Statement, ParseError>)
        requires
            old(self).wf(),
        ensures
            final(self).wf(),
            final(self).same_tables(old(self)),
            stmt_outcome(r, sp_var_assign(old(self).toks(), old(self).cur()), final(self).cur()),
    {
        let ghost t0 = old(self).toks();
        let ghost c0 = old(self).cur();
        let variable_token = match self.next(vec![TokenT::IDENTIFIER], None) {
            Ok(t) => t,
            Err(e) => {
                return Err(e);
            },
        };
        let variable = VariableExpression::expression(variable_token.value);
        let equals = vec![String::from_str("=")];
        let ghost vv = equals.deep_view();
        proof {
            reveal_strlit("=");
            assert(vv[0] == "="@);
            if c0 + 1 < t0.len() {
                if is_ch(t0[c0 + 1].text, '=') {
                    assert(t0[c0 + 1].text =~= "="@);
                    assert(vv.contains(t0[c0 + 1].text));
                }
                if vv.contains(t0[c0 + 1].text) {
                    assert(t0[c0 + 1].text == vv[0]);
                    assert(is_ch(t0[c0 + 1].text, '='));
                }
            }
        }
        match self.next(vec![TokenT::OPERATOR], Some(equals)) {
            Ok(_) => (),
            Err(e) => {
                return Err(e);
            },
        };
        let expression = match self.parse_expression() {
            Ok(e) => e,
            Err(e) => {
                return Err(e);
            },
        };
        Ok(AssignStmt::statement(variable, expression, false))
    }

    /// Parses one statement: a `var` assignment when the next token is the
    /// `var` keyword, a bare expression statement otherwise.
    pub fn parse_statement(&mut self) -> (r: Result<Statement, ParseError>)
        requires
            old(self).wf(),
        ensures
            final(self).wf(),
            final(self).same_tables(old(self)),
            stmt_outcome(r, sp_stmt(old(self).toks(), old(self).cur()), final(self).cur()),
    {
        let is_var = self.peek(vec![TokenT::VAR], None).unwrap();
        if is_var {
            let _ = self.next(vec![TokenT::VAR], None).unwrap();
            self.parse_variable_assignment()
        } else {
            match self.parse_expression() {
                Ok(e) => Ok(Statement::Expression(e)),
                Err(e) => Err(e),
            }
        }
    }
}


impl Parser {
    /// Strips whitespace, then parses statements until the tokens are
    /// exhausted, collecting each parsed statement and recording each
    /// failure (see `errors`). After a failure the stream is not
    /// resynchronized: parsing continues from where the cursor stopped,
    /// skipping one token when no progress was made, so later statements
    /// are best-effort only. Returns a copy of all statements parsed.
    pub fn parse(&mut self) -> (r: Vec<Statement>)
        requires
            old(self).wf(),
        ensures
            final(self).wf(),
            final(self).toks() == strip_ws(old(self).toks()),
            final(self).ast_m() == old(self).ast_m() + sp_program(
                strip_ws(old(self).toks()),
                old(self).cur(),
            ).stmts,
            final(self).errs_m() == old(self).errs_m() + sp_program(
                strip_ws(old(self).toks()),
                old(self).cur(),
            ).errors,
            stmts_m(r@) == final(self).ast_m(),
    {
        self.clear_whitespaces();
        let ghost ct = self.toks();
        let ghost c0 = self.cur();
        let ghost a0 = self.ast_m();
        let ghost e0 = self.errs_m();
        while self.current_token < self.stream_size
            invariant
                self.wf(),
                ct == strip_ws(old(self).toks()),
                c0 == old(self).cur(),
                a0 == old(self).ast_m(),
                e0 == old(self).errs_m(),
                self.toks() == ct,
                a0 + sp_program(ct, c0).stmts == self.ast_m() + sp_program(ct, self.cur()).stmts,
                e0 + sp_program(ct, c0).errors == self.errs_m() + sp_program(ct, self.cur()).errors,
            decreases self.stream_size - self.current_token,
        {
            let ghost i0 = self.cur();
            let ghost n = ct.len() as int;
            proof {
                lemma_stmt_progress(ct, i0);
            }
            let before = self.current_token;
            match self.parse_statement() {
                Ok(s) => {
                    proof {
                        let j = self.cur();
                        assert(in_range(j, i0 + 1, n) == j);
                        let rest = sp_program(ct, j);
                        assert(sp_program(ct, i0).stmts =~= seq![s@] + rest.stmts);
                        assert(sp_program(ct, i0).errors =~= rest.errors);
                        assert(stmts_m(self.ast@.push(s)) =~= self.ast_m().push(s@));
                        assert(self.ast_m() + (seq![s@] + rest.stmts) =~= self.ast_m().push(s@)
                            + rest.stmts);
                    }
                    self.ast.push(s);
                },
                Err(e) => {
                    proof {
                        let j = self.cur();
                        let j2 = if j <= i0 {
                            i0 + 1
                        } else {
                            j as int
                        };
                        assert(in_range(j2, i0 + 1, n) == j2);
                        let rest = sp_program(ct, j2);
                        assert(sp_program(ct, i0).errors =~= seq![pe_kind(e)] + rest.errors);
                        assert(sp_program(ct, i0).stmts =~= rest.stmts);
                        assert(self.errors@.push(e).map_values(|x: ParseError| pe_kind(x))
                            =~= self.errs_m().push(pe_kind(e)));
                        assert(self.errs_m() + (seq![pe_kind(e)] + rest.errors) =~= self.errs_m().push(
                            pe_kind(e),
                        ) + rest.errors);
                    }
                    self.errors.push(e);
                    if self.current_token == before {
                        self.current_token = before + 1;
                    }
                },
            }
        }
        proof {
            assert(sp_program(ct, self.cur()).stmts =~= Seq::<StmtM>::empty());
            assert(sp_program(ct, self.cur()).errors =~= Seq::<PEKind>::empty());
            assert(self.ast_m() + Seq::<StmtM>::empty() =~= self.ast_m());
            assert(self.errs_m() + Seq::<PEKind>::empty() =~= self.errs_m());
        }
        let mut out: Vec<Statement> = Vec::new();
        let total = self.ast.len();
        let mut k: usize = 0;
        while k < total
            invariant
                total == self.ast@.len(),
                k <= total,
                out@.len() == k,
                forall|j: int| 0 <= j < k ==> out@[j] == self.ast@[j],
            decreases total - k,
        {
            let copy = self.ast[k].duplicate();
            out.push(copy);
            k = k + 1;
        }
        proof {
            assert(out@ =~= self.ast@);
        }
        out
    }
}


impl Parser {
    /// The JSON form of the statements parsed so far: a pure function of
    /// the tree, so serializing twice gives identical output.
    pub fn serialize_ast(&self) -> (r: String)
        ensures
            r@ == crate::serialize::json_stmts(self.ast_m()),
    {
        crate::serialize::serialize_statements(&self.ast)
    }
}

} // verus!
