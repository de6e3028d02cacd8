//! The tokenizer: consumes source text left to right, greedily matching one
//! token at each position from a fixed, ordered set of matchers, and
//! attaching the start position to every token. Verified against the model
//! in `lex_model`.

use vstd::prelude::*;
use crate::codepos::Codepos;
use crate::lex_model::{
    adv_pos, canon_of, canon_parts, float_len, digits_len, ident_kind, ident_len, in_range,
    is_bracket_c, is_ident_c, is_ident_start_c, is_op_c, is_space_c, lemma_adv_pos_bounds,
    lemma_adv_pos_snoc, lemma_digits_len_le, lemma_digits_run, lemma_ident_len_le,
    lemma_ident_run, lemma_strip_lead, lemma_strip_trail, lemma_ws_len_le, lemma_ws_run,
    fail_col_of, fail_line_of, lex_one, lexr_prepend, spec_lex_at, tok_m, ws_len, LexR,
};
use crate::numeral::is_digit_c;
use crate::text::{char_to_string, push_char, push_chars, str_to_chars};
use crate::token::{toks_m, TokM, Token};
use crate::token_t::TokenT;

verus! {

/// A lexical error: the position of the first character that no matcher
/// accepts, with a human-readable message. Tokenization stops there; it
/// does not resynchronize.
#[derive(Debug, Clone)]
pub struct LexError {
    pub message: String,
    pub position: Codepos,
}

/// The tokenizer. It tracks the current line and column across calls, so a
/// fresh `Lexer` should be used for each fresh source text.
pub struct Lexer {
    line: usize,
    col: usize,
}

fn is_space(c: char) -> (r: bool)
    ensures
        r == is_space_c(c),
{
    c == ' ' || c == '\t' || c == '\n' || c == '\r'
}

fn is_digit(c: char) -> (r: bool)
    ensures
        r == is_digit_c(c),
{
    '0' <= c && c <= '9'
}

fn is_op(c: char) -> (r: bool)
    ensures
        r == is_op_c(c),
{
    c == '+' || c == '-' || c == '*' || c == '/' || c == '%' || c == '='
}

fn is_bracket(c: char) -> (r: bool)
    ensures
        r == is_bracket_c(c),
{
    c == '(' || c == ')' || c == '[' || c == ']' || c == '{' || c == '}'
}

fn is_ident_start(c: char) -> (r: bool)
    ensures
        r == is_ident_start_c(c),
{
    ('a' <= c && c <= 'z') || ('A' <= c && c <= 'Z') || c == '_'
}

fn is_ident_char(c: char) -> (r: bool)
    ensures
        r == is_ident_c(c),
{
    is_ident_start(c) || is_digit(c)
}

/// End of the maximal whitespace run starting at `i`.
fn scan_ws(chars: &Vec<char>, i: usize) -> (k: usize)
    requires
        i <= chars@.len(),
    ensures
        i <= k <= chars@.len(),
        k - i == ws_len(chars@, i as int),
{
    let n = chars.len();
    let mut k = i;
    while k < n && is_space(chars[k])
        invariant
            i <= k <= n == chars@.len(),
            forall|j: int| i <= j < k ==> is_space_c(#[trigger] chars@[j]),
        decreases n - k,
    {
        k = k + 1;
    }
    proof {
        lemma_ws_run(chars@, i as int, k as int);
    }
    k
}

/// End of the maximal digit run starting at `i`.
fn scan_digits(chars: &Vec<char>, i: usize) -> (k: usize)
    requires
        i <= chars@.len(),
    ensures
        i <= k <= chars@.len(),
        k - i == digits_len(chars@, i as int),
{
    let n = chars.len();
    let mut k = i;
    while k < n && is_digit(chars[k])
        invariant
            i <= k <= n == chars@.len(),
            forall|j: int| i <= j < k ==> is_digit_c(#[trigger] chars@[j]),
        decreases n - k,
    {
        k = k + 1;
    }
    proof {
        lemma_digits_run(chars@, i as int, k as int);
    }
    k
}

/// End of the maximal identifier-character run starting at `i`.
fn scan_ident(chars: &Vec<char>, i: usize) -> (k: usize)
    requires
        i <= chars@.len(),
    ensures
        i <= k <= chars@.len(),
        k - i == ident_len(chars@, i as int),
{
    let n = chars.len();
    let mut k = i;
    while k < n && is_ident_char(chars[k])
        invariant
            i <= k <= n == chars@.len(),
            forall|j: int| i <= j < k ==> is_ident_c(#[trigger] chars@[j]),
        decreases n - k,
    {
        k = k + 1;
    }
    proof {
        lemma_ident_run(chars@, i as int, k as int);
    }
    k
}

/// The substring `chars[start..end]` as a `String`.
fn chars_to_string(chars: &Vec<char>, start: usize, end: usize) -> (r: String)
    requires
        start <= end <= chars@.len(),
    ensures
        r@ == chars@.subrange(start as int, end as int),
{
    let mut out = String::new();
    push_chars(&mut out, chars, start, end);
    proof {
        assert(Seq::<char>::empty() + chars@.subrange(start as int, end as int) =~= chars@.subrange(
            start as int,
            end as int,
        ));
    }
    out
}

impl Lexer {
    pub closed spec fn line_m(&self) -> nat {
        self.line as nat
    }

    pub closed spec fn col_m(&self) -> nat {
        self.col as nat
    }

    /// A fresh tokenizer positioned at line 1, column 1.
    pub fn new() -> (r: Lexer)
        ensures
            r.line_m() == 1,
            r.col_m() == 1,
    {
        Lexer { line: 1, col: 1 }
    }

    /// Advances the tracked position over `chars[start..end]`.
    fn update_codepos(&mut self, chars: &Vec<char>, start: usize, end: usize)
        requires
            start <= end <= chars@.len(),
            old(self).line_m() + (end - start) <= usize::MAX,
            old(self).col_m() + (end - start) <= usize::MAX,
        ensures
            (final(self).line_m(), final(self).col_m()) == adv_pos(
                old(self).line_m(),
                old(self).col_m(),
                chars@.subrange(start as int, end as int),
            ),
    {
        let mut k = start;
        while k < end
            invariant
                start <= k <= end <= chars@.len(),
                old(self).line_m() + (end - start) <= usize::MAX,
                old(self).col_m() + (end - start) <= usize::MAX,
                self.line_m() <= old(self).line_m() + (k - start),
                self.col_m() <= old(self).col_m() + (k - start),
                (self.line_m(), self.col_m()) == adv_pos(
                    old(self).line_m(),
                    old(self).col_m(),
                    chars@.subrange(start as int, k as int),
                ),
            decreases end - k,
        {
            proof {
                lemma_adv_pos_snoc(
                    old(self).line_m(),
                    old(self).col_m(),
                    chars@.subrange(start as int, k as int),
                    chars@[k as int],
                );
                assert(chars@.subrange(start as int, k as int).push(chars@[k as int])
                    =~= chars@.subrange(start as int, k + 1));
            }
            let c = chars[k];
            if c == '\n' {
                self.line = self.line + 1;
                self.col = 1;
            } else {
                self.col = self.col + 1;
            }
            k = k + 1;
        }
    }

    /// Matches a run of whitespace. The emitted token carries no text.
    fn lex_whitespace(&mut self, chars: &Vec<char>, i: usize) -> (r: Option<(usize, Token)>)
        requires
            i < chars@.len(),
            old(self).line_m() + (chars@.len() - i) <= usize::MAX,
            old(self).col_m() + (chars@.len() - i) <= usize::MAX,
        ensures
            match r {
                Some((j, t)) => {
                    &&& i < j <= chars@.len()
                    &&& j - i == ws_len(chars@, i as int)
                    &&& t@ == tok_m(TokenT::WHITESPACE, seq![], old(self).line_m(), old(self).col_m())
                    &&& (final(self).line_m(), final(self).col_m()) == adv_pos(
                        old(self).line_m(),
                        old(self).col_m(),
                        chars@.subrange(i as int, j as int),
                    )
                },
                None => ws_len(chars@, i as int) == 0 && *final(self) == *old(self),
            },
    {
        let k = scan_ws(chars, i);
        if k == i {
            return None;
        }
        let codepos = Codepos::new(self.line, self.col, None);
        self.update_codepos(chars, i, k);
        let t = Token::new(TokenT::WHITESPACE, String::new(), codepos);
        proof {
            assert(t@ =~= tok_m(TokenT::WHITESPACE, seq![], old(self).line_m(), old(self).col_m()));
        }
        Some((k, t))
    }

    /// Matches a run of decimal digits.
    fn lex_integer(&mut self, chars: &Vec<char>, i: usize) -> (r: Option<(usize, Token)>)
        requires
            i < chars@.len(),
            old(self).line_m() + (chars@.len() - i) <= usize::MAX,
            old(self).col_m() + (chars@.len() - i) <= usize::MAX,
        ensures
            match r {
                Some((j, t)) => {
                    &&& i < j <= chars@.len()
                    &&& j - i == digits_len(chars@, i as int)
                    &&& t@ == tok_m(
                        TokenT::INTEGER,
                        chars@.subrange(i as int, j as int),
                        old(self).line_m(),
                        old(self).col_m(),
                    )
                    &&& (final(self).line_m(), final(self).col_m()) == adv_pos(
                        old(self).line_m(),
                        old(self).col_m(),
                        chars@.subrange(i as int, j as int),
                    )
                },
                None => digits_len(chars@, i as int) == 0 && *final(self) == *old(self),
            },
    {
        let k = scan_digits(chars, i);
        if k == i {
            return None;
        }
        let value = chars_to_string(chars, i, k);
        let codepos = Codepos::new(self.line, self.col, None);
        self.update_codepos(chars, i, k);
        let t = Token::new(TokenT::INTEGER, value, codepos);
        proof {
            assert(t@ =~= tok_m(
                TokenT::INTEGER,
                chars@.subrange(i as int, k as int),
                old(self).line_m(),
                old(self).col_m(),
            ));
        }
        Some((k, t))
    }

    /// Canonicalizes the text of a float literal matched as
    /// `chars[start..dot] '.' chars[dot+1..end]`.
    fn parse_and_format_float(chars: &Vec<char>, start: usize, dot: usize, end: usize) -> (r:
        String)
        requires
            start <= dot < end <= chars@.len(),
            dot + 1 <= end,
        ensures
            r@ == canon_parts(
                chars@.subrange(start as int, dot as int),
                chars@.subrange(dot + 1, end as int),
            ),
    {
        let ghost ip = chars@.subrange(start as int, dot as int);
        let ghost fp = chars@.subrange(dot + 1, end as int);
        let mut a = start;
        while a < dot && chars[a] == '0'
            invariant
                start <= a <= dot,
                dot < chars@.len(),
                forall|j: int| start <= j < a ==> #[trigger] chars@[j] == '0',
            decreases dot - a,
        {
            a = a + 1;
        }
        let mut b = end;
        while b > dot + 1 && chars[b - 1] == '0'
            invariant
                dot + 1 <= b <= end <= chars@.len(),
                forall|j: int| b <= j < end ==> #[trigger] chars@[j] == '0',
            decreases b,
        {
            b = b - 1;
        }
        proof {
            assert(forall|j: int| 0 <= j < a - start ==> #[trigger] ip[j] == '0');
            assert(a - start == ip.len() || ip[a - start] != '0');
            lemma_strip_lead(ip, a - start);
            assert(ip.subrange(a - start, ip.len() as int) =~= chars@.subrange(
                a as int,
                dot as int,
            ));
            assert(forall|j: int| b - dot - 1 <= j < fp.len() ==> #[trigger] fp[j] == '0');
            lemma_strip_trail(fp, b - dot - 1);
            assert(fp.subrange(0, b - dot - 1) =~= chars@.subrange(dot + 1, b as int));
        }
        let mut out = String::new();
        if a == dot {
            push_char(&mut out, '0');
        } else {
            push_chars(&mut out, chars, a, dot);
        }
        if b > dot + 1 {
            push_char(&mut out, '.');
            push_chars(&mut out, chars, dot + 1, b);
        }
        proof {
            assert(out@ =~= canon_parts(ip, fp));
        }
        out
    }

    /// Matches a float literal: digits, a dot, then at least one digit. The
    /// token text is the canonical form, not the source substring.
    fn lex_float(&mut self, chars: &Vec<char>, i: usize) -> (r: Option<(usize, Token)>)
        requires
            i < chars@.len(),
            old(self).line_m() + (chars@.len() - i) <= usize::MAX,
            old(self).col_m() + (chars@.len() - i) <= usize::MAX,
        ensures
            match r {
                Some((j, t)) => {
                    &&& i < j <= chars@.len()
                    &&& j - i == float_len(chars@, i as int)
                    &&& t@ == tok_m(
                        TokenT::FLOAT,
                        canon_of(chars@, i as int),
                        old(self).line_m(),
                        old(self).col_m(),
                    )
                    &&& (final(self).line_m(), final(self).col_m()) == adv_pos(
                        old(self).line_m(),
                        old(self).col_m(),
                        chars@.subrange(i as int, j as int),
                    )
                },
                None => float_len(chars@, i as int) == 0 && *final(self) == *old(self),
            },
    {
        let n = chars.len();
        let dot = scan_digits(chars, i);
        if !(dot < n && chars[dot] == '.') {
            return None;
        }
        let end = scan_digits(chars, dot + 1);
        if end == dot + 1 {
            return None;
        }
        let value = Lexer::parse_and_format_float(chars, i, dot, end);
        let codepos = Codepos::new(self.line, self.col, None);
        self.update_codepos(chars, i, end);
        let t = Token::new(TokenT::FLOAT, value, codepos);
        proof {
            assert(t@ =~= tok_m(
                TokenT::FLOAT,
                canon_of(chars@, i as int),
                old(self).line_m(),
                old(self).col_m(),
            ));
        }
        Some((end, t))
    }

    /// Matches one operator symbol from `+ - * / % =`.
    fn lex_operator(&mut self, chars: &Vec<char>, i: usize) -> (r: Option<(usize, Token)>)
        requires
            i < chars@.len(),
            old(self).line_m() + (chars@.len() - i) <= usize::MAX,
            old(self).col_m() + (chars@.len() - i) <= usize::MAX,
        ensures
            match r {
                Some((j, t)) => {
                    &&& is_op_c(chars@[i as int])
                    &&& j == i + 1
                    &&& t@ == tok_m(
                        TokenT::OPERATOR,
                        seq![chars@[i as int]],
                        old(self).line_m(),
                        old(self).col_m(),
                    )
                    &&& (final(self).line_m(), final(self).col_m()) == adv_pos(
                        old(self).line_m(),
                        old(self).col_m(),
                        chars@.subrange(i as int, i + 1),
                    )
                },
                None => !is_op_c(chars@[i as int]) && *final(self) == *old(self),
            },
    {
        let _n = chars.len();
        let c = chars[i];
        if !is_op(c) {
            return None;
        }
        let codepos = Codepos::new(self.line, self.col, None);
        self.update_codepos(chars, i, i + 1);
        let t = Token::new(TokenT::OPERATOR, char_to_string(c), codepos);
        proof {
            assert(t@ =~= tok_m(
                TokenT::OPERATOR,
                seq![chars@[i as int]],
                old(self).line_m(),
                old(self).col_m(),
            ));
        }
        Some((i + 1, t))
    }

    /// Matches one bracket symbol from `( ) [ ] { }`.
    fn lex_bracket(&mut self, chars: &Vec<char>, i: usize) -> (r: Option<(usize, Token)>)
        requires
            i < chars@.len(),
            old(self).line_m() + (chars@.len() - i) <= usize::MAX,
            old(self).col_m() + (chars@.len() - i) <= usize::MAX,
        ensures
            match r {
                Some((j, t)) => {
                    &&& is_bracket_c(chars@[i as int])
                    &&& j == i + 1
                    &&& t@ == tok_m(
                        TokenT::BRACKET,
                        seq![chars@[i as int]],
                        old(self).line_m(),
                        old(self).col_m(),
                    )
                    &&& (final(self).line_m(), final(self).col_m()) == adv_pos(
                        old(self).line_m(),
                        old(self).col_m(),
                        chars@.subrange(i as int, i + 1),
                    )
                },
                None => !is_bracket_c(chars@[i as int]) && *final(self) == *old(self),
            },
    {
        let _n = chars.len();
        let c = chars[i];
        if !is_bracket(c) {
            return None;
        }
        let codepos = Codepos::new(self.line, self.col, None);
        self.update_codepos(chars, i, i + 1);
        let t = Token::new(TokenT::BRACKET, char_to_string(c), codepos);
        proof {
            assert(t@ =~= tok_m(
                TokenT::BRACKET,
                seq![chars@[i as int]],
                old(self).line_m(),
                old(self).col_m(),
            ));
        }
        Some((i + 1, t))
    }

    /// Matches a word: identifier characters not starting with a digit. The
    /// exact word `var` is the declaration keyword; any other word is an
    /// identifier.
    fn lex_identifier(&mut self, chars: &Vec<char>, i: usize) -> (r: Option<(usize, Token)>)
        requires
            i < chars@.len(),
            old(self).line_m() + (chars@.len() - i) <= usize::MAX,
            old(self).col_m() + (chars@.len() - i) <= usize::MAX,
        ensures
            match r {
                Some((j, t)) => {
                    &&& i < j <= chars@.len()
                    &&& j - i == ident_len(chars@, i as int)
                    &&& is_ident_start_c(chars@[i as int])
                    &&& t@ == tok_m(
                        ident_kind(chars@.subrange(i as int, j as int)),
                        chars@.subrange(i as int, j as int),
                        old(self).line_m(),
                        old(self).col_m(),
                    )
                    &&& (final(self).line_m(), final(self).col_m()) == adv_pos(
                        old(self).line_m(),
                        old(self).col_m(),
                        chars@.subrange(i as int, j as int),
                    )
                },
                None => (!is_ident_start_c(chars@[i as int]) || ident_len(chars@, i as int) == 0)
                    && *final(self) == *old(self),
            },
    {
        if !is_ident_start(chars[i]) {
            return None;
        }
        let k = scan_ident(chars, i);
        if k == i {
            return None;
        }
        let value = chars_to_string(chars, i, k);
        let kind = if k - i == 3 && chars[i] == 'v' && chars[i + 1] == 'a' && chars[i + 2] == 'r' {
            TokenT::VAR
        } else {
            TokenT::IDENTIFIER
        };
        let codepos = Codepos::new(self.line, self.col, None);
        self.update_codepos(chars, i, k);
        let t = Token::new(kind, value, codepos);
        proof {
            let text = chars@.subrange(i as int, k as int);
            assert(text.len() == 3 ==> (text[0] == chars@[i as int] && text[1] == chars@[i + 1]
                && text[2] == chars@[i + 2]));
            assert(t@ =~= tok_m(ident_kind(text), text, old(self).line_m(), old(self).col_m()));
        }
        Some((k, t))
    }

    /// Tokenizes the whole input. Returns the token sequence predicted by
    /// the model `spec_lex_at`, or the position of the first unrecognized
    /// character.
    #[verifier::rlimit(100)]
    pub fn lex(&mut self, input: &str) -> (r: Result<Vec<Token>, LexError>)
        requires
            old(self).line_m() >= 1,
            old(self).col_m() >= 1,
            old(self).line_m() + input@.len() <= usize::MAX,
            old(self).col_m() + input@.len() <= usize::MAX,
        ensures
            match r {
                Ok(toks) => spec_lex_at(input@, 0, old(self).line_m(), old(self).col_m())
                    == LexR::Toks(toks_m(toks@)),
                Err(e) => ({
                    let out = spec_lex_at(input@, 0, old(self).line_m(), old(self).col_m());
                    &&& out is Fail
                    &&& e.position.line == fail_line_of(out)
                    &&& e.position.col == fail_col_of(out)
                    &&& e.position.file is None
                }),
            },
    {
        let ghost s = input@;
        let ghost l0 = old(self).line_m();
        let ghost c0 = old(self).col_m();
        let chars = str_to_chars(input);
        let n = chars.len();
        let mut tokens: Vec<Token> = Vec::new();
        let mut i: usize = 0;
        while i < n
            invariant
                s == input@,
                l0 == old(self).line_m(),
                c0 == old(self).col_m(),
                n == s.len(),
                chars@ == s,
                i <= n,
                self.line_m() >= 1,
                self.col_m() >= 1,
                self.line_m() + (s.len() - i) <= usize::MAX,
                self.col_m() + (s.len() - i) <= usize::MAX,
                lexr_prepend(toks_m(tokens@), spec_lex_at(s, i as int, self.line_m(), self.col_m()))
                    == spec_lex_at(s, 0, l0, c0),
            decreases n - i,
        {
            let ghost i0 = i as int;
            let ghost line0 = self.line_m();
            let ghost col0 = self.col_m();
            let ghost done0 = toks_m(tokens@);
            let step = if let Some(st) = self.lex_whitespace(&chars, i) {
                Some(st)
            } else if let Some(st) = self.lex_float(&chars, i) {
                Some(st)
            } else if let Some(st) = self.lex_integer(&chars, i) {
                Some(st)
            } else if let Some(st) = self.lex_operator(&chars, i) {
                Some(st)
            } else if let Some(st) = self.lex_bracket(&chars, i) {
                Some(st)
            } else if let Some(st) = self.lex_identifier(&chars, i) {
                Some(st)
            } else {
                None
            };
            match step {
                Some((j, t)) => {
                    proof {
                        lemma_ws_len_le(s, i0);
                        lemma_digits_len_le(s, i0);
                        lemma_ident_len_le(s, i0);
                        lemma_adv_pos_bounds(line0, col0, s.subrange(i0, j as int));
                        assert(s.subrange(i0, j as int).len() == j - i0);
                        assert(lex_one(s, i0, line0, col0) == Some((j - i0, t@)));
                        assert(in_range(i0 + (j - i0), i0 + 1, s.len() as int) == j as int);
                        let rest = spec_lex_at(s, j as int, self.line_m(), self.col_m());
                        assert(spec_lex_at(s, i0, line0, col0) == lexr_prepend(seq![t@], rest));
                        match rest {
                            LexR::Toks(ts) => {
                                assert(done0 + (seq![t@] + ts) =~= (done0 + seq![t@]) + ts);
                            },
                            LexR::Fail { .. } => {},
                        }
                        assert(toks_m(tokens@.push(t)) =~= done0 + seq![t@]);
                    }
                    tokens.push(t);
                    i = j;
                },
                None => {
                    proof {
                        lemma_ws_len_le(s, i0);
                        lemma_digits_len_le(s, i0);
                        lemma_ident_len_le(s, i0);
                        lemma_ws_len_le(s, i0 + 1);
                        lemma_digits_len_le(s, i0 + 1);
                        lemma_ident_len_le(s, i0 + 1);
                        assert(lex_one(s, i0, line0, col0) is None);
                        assert(spec_lex_at(s, i0, line0, col0) == LexR::Fail {
                            at: i0,
                            line: line0,
                            col: col0,
                        });
                        assert(spec_lex_at(s, 0, l0, c0) == LexR::Fail {
                            at: i0,
                            line: line0,
                            col: col0,
                        });
                    }
                    let mut message = String::from_str("unexpected character at line ");
                    crate::numeral::push_dec_usize(&mut message, self.line);
                    message.append(", column ");
                    crate::numeral::push_dec_usize(&mut message, self.col);
                    let position = Codepos::new(self.line, self.col, None);
                    return Err(LexError { message, position });
                },
            }
        }
        proof {
            let e = spec_lex_at(s, i as int, self.line_m(), self.col_m());
            assert(e == LexR::Toks(Seq::<TokM>::empty()));
            assert(toks_m(tokens@) + Seq::<TokM>::empty() =~= toks_m(tokens@));
        }
        Ok(tokens)
    }
}

} // verus!
