//! The mathematical model of tokenization: character classes, greedy
//! matchers over a character sequence, position tracking, float
//! canonicalization, and the full tokenizer as a recursive specification.

use vstd::prelude::*;
use crate::numeral::is_digit_c;
use crate::token::TokM;
use crate::token_t::TokenT;

verus! {

pub open spec fn is_space_c(c: char) -> bool {
    c == ' ' || c == '\t' || c == '\n' || c == '\r'
}

pub open spec fn is_op_c(c: char) -> bool {
    c == '+' || c == '-' || c == '*' || c == '/' || c == '%' || c == '='
}

pub open spec fn is_bracket_c(c: char) -> bool {
    c == '(' || c == ')' || c == '[' || c == ']' || c == '{' || c == '}'
}

pub open spec fn is_ident_start_c(c: char) -> bool {
    ('a' <= c && c <= 'z') || ('A' <= c && c <= 'Z') || c == '_'
}

pub open spec fn is_ident_c(c: char) -> bool {
    is_ident_start_c(c) || is_digit_c(c)
}

/// Length of the maximal run of whitespace starting at `i`.
pub open spec fn ws_len(s: Seq<char>, i: int) -> int
    decreases s.len() - i,
{
    if 0 <= i < s.len() && is_space_c(s[i]) {
        1 + ws_len(s, i + 1)
    } else {
        0
    }
}

/// Length of the maximal run of decimal digits starting at `i`.
pub open spec fn digits_len(s: Seq<char>, i: int) -> int
    decreases s.len() - i,
{
    if 0 <= i < s.len() && is_digit_c(s[i]) {
        1 + digits_len(s, i + 1)
    } else {
        0
    }
}

/// Length of the maximal run of identifier characters starting at `i`.
pub open spec fn ident_len(s: Seq<char>, i: int) -> int
    decreases s.len() - i,
{
    if 0 <= i < s.len() && is_ident_c(s[i]) {
        1 + ident_len(s, i + 1)
    } else {
        0
    }
}

/// Length of a float literal (digits, a dot, then at least one digit)
/// starting at `i`, or 0 when none matches.
pub open spec fn float_len(s: Seq<char>, i: int) -> int {
    let d = digits_len(s, i);
    if i + d < s.len() && s[i + d] == '.' && digits_len(s, i + d + 1) > 0 {
        d + 1 + digits_len(s, i + d + 1)
    } else {
        0
    }
}

pub open spec fn strip_lead_zeros(s: Seq<char>) -> Seq<char>
    decreases s.len(),
{
    if s.len() > 0 && s[0] == '0' {
        strip_lead_zeros(s.drop_first())
    } else {
        s
    }
}

pub open spec fn strip_trail_zeros(s: Seq<char>) -> Seq<char>
    decreases s.len(),
{
    if s.len() > 0 && s.last() == '0' {
        strip_trail_zeros(s.drop_last())
    } else {
        s
    }
}

/// The canonical text of a float literal with integer part `ip` and
/// fractional part `fp`: leading zeros of the integer part and trailing
/// zeros of the fractional part are removed, an empty integer part becomes
/// `0`, and an empty fractional part drops the dot entirely.
pub open spec fn canon_parts(ip: Seq<char>, fp: Seq<char>) -> Seq<char> {
    let ip1 = strip_lead_zeros(ip);
    let ip2 = if ip1.len() == 0 {
        seq!['0']
    } else {
        ip1
    };
    let fp1 = strip_trail_zeros(fp);
    if fp1.len() == 0 {
        ip2
    } else {
        ip2 + seq!['.'] + fp1
    }
}

/// The canonical text of the float literal matched at `i`.
pub open spec fn canon_of(s: Seq<char>, i: int) -> Seq<char> {
    let d = digits_len(s, i);
    let fl = digits_len(s, i + d + 1);
    canon_parts(s.subrange(i, i + d), s.subrange(i + d + 1, i + d + 1 + fl))
}

/// Advances a 1-based line/column position over the given characters: a
/// newline starts the next line at column 1, any other character moves one
/// column right.
pub open spec fn adv_pos(line: nat, col: nat, cs: Seq<char>) -> (nat, nat)
    decreases cs.len(),
{
    if cs.len() == 0 {
        (line, col)
    } else if cs[0] == '\n' {
        adv_pos(line + 1, 1, cs.drop_first())
    } else {
        adv_pos(line, (col + 1) as nat, cs.drop_first())
    }
}

pub open spec fn tok_m(kind: TokenT, text: Seq<char>, line: nat, col: nat) -> TokM {
    TokM { kind, text, line, col, file: None }
}

pub open spec fn ident_kind(text: Seq<char>) -> TokenT {
    if text.len() == 3 && text[0] == 'v' && text[1] == 'a' && text[2] == 'r' {
        TokenT::VAR
    } else {
        TokenT::IDENTIFIER
    }
}

/// The single token matched at position `i`, together with the number of
/// characters it consumes, by the fixed priority order: whitespace, float,
/// integer, operator, bracket, identifier/keyword. `None` when no matcher
/// accepts the character at `i`.
pub open spec fn lex_one(s: Seq<char>, i: int, line: nat, col: nat) -> Option<(int, TokM)> {
    let w = ws_len(s, i);
    let f = float_len(s, i);
    let d = digits_len(s, i);
    let il = ident_len(s, i);
    if w > 0 {
        Some((w, tok_m(TokenT::WHITESPACE, seq![], line, col)))
    } else if f > 0 {
        Some((f, tok_m(TokenT::FLOAT, canon_of(s, i), line, col)))
    } else if d > 0 {
        Some((d, tok_m(TokenT::INTEGER, s.subrange(i, i + d), line, col)))
    } else if is_op_c(s[i]) {
        Some((1, tok_m(TokenT::OPERATOR, seq![s[i]], line, col)))
    } else if is_bracket_c(s[i]) {
        Some((1, tok_m(TokenT::BRACKET, seq![s[i]], line, col)))
    } else if il > 0 {
        Some((il, tok_m(ident_kind(s.subrange(i, i + il)), s.subrange(i, i + il), line, col)))
    } else {
        None
    }
}

/// The outcome of tokenization: the token models, or the index and position
/// of the first character no matcher accepts.
pub enum LexR {
    Toks(Seq<TokM>),
    Fail { at: int, line: nat, col: nat },
}

pub open spec fn in_range(v: int, lo: int, hi: int) -> int {
    if v < lo {
        lo
    } else if v > hi {
        hi
    } else {
        v
    }
}

/// Tokenizes `s` from index `i` at position `(line, col)`: repeatedly take
/// the first matching token, or fail at the first unrecognized character.
pub open spec fn spec_lex_at(s: Seq<char>, i: int, line: nat, col: nat) -> LexR
    decreases s.len() - i,
{
    if i >= s.len() {
        LexR::Toks(seq![])
    } else {
        match lex_one(s, i, line, col) {
            Some((n, t)) => {
                let j = in_range(i + n, i + 1, s.len() as int);
                let p = adv_pos(line, col, s.subrange(i, j));
                match spec_lex_at(s, j, p.0, p.1) {
                    LexR::Toks(rest) => LexR::Toks(seq![t] + rest),
                    fail => fail,
                }
            },
            None => LexR::Fail { at: i, line, col },
        }
    }
}

pub open spec fn fail_line_of(r: LexR) -> nat {
    match r {
        LexR::Fail { line, .. } => line,
        _ => 0,
    }
}

pub open spec fn fail_col_of(r: LexR) -> nat {
    match r {
        LexR::Fail { col, .. } => col,
        _ => 0,
    }
}

pub open spec fn lexr_prepend(pre: Seq<TokM>, r: LexR) -> LexR {
    match r {
        LexR::Toks(ts) => LexR::Toks(pre + ts),
        fail => fail,
    }
}

// ------------------------------------------------------------------
// Lemmas about the matchers.
// ------------------------------------------------------------------
pub proof fn lemma_ws_len_le(s: Seq<char>, i: int)
    requires
        0 <= i <= s.len(),
    ensures
        0 <= ws_len(s, i) <= s.len() - i,
    decreases s.len() - i,
{
    if i < s.len() && is_space_c(s[i]) {
        lemma_ws_len_le(s, i + 1);
    }
}

pub proof fn lemma_digits_len_le(s: Seq<char>, i: int)
    requires
        0 <= i <= s.len(),
    ensures
        0 <= digits_len(s, i) <= s.len() - i,
    decreases s.len() - i,
{
    if i < s.len() && is_digit_c(s[i]) {
        lemma_digits_len_le(s, i + 1);
    }
}

pub proof fn lemma_ident_len_le(s: Seq<char>, i: int)
    requires
        0 <= i <= s.len(),
    ensures
        0 <= ident_len(s, i) <= s.len() - i,
    decreases s.len() - i,
{
    if i < s.len() && is_ident_c(s[i]) {
        lemma_ident_len_le(s, i + 1);
    }
}

/// A run of whitespace up to a boundary determines `ws_len` exactly.
pub proof fn lemma_ws_run(s: Seq<char>, i: int, k: int)
    requires
        0 <= i <= k <= s.len(),
        forall|j: int| i <= j < k ==> is_space_c(#[trigger] s[j]),
        k == s.len() || !is_space_c(s[k]),
    ensures
        ws_len(s, i) == k - i,
    decreases k - i,
{
    if i < k {
        lemma_ws_run(s, i + 1, k);
    }
}

/// A run of digits up to a boundary determines `digits_len` exactly.
pub proof fn lemma_digits_run(s: Seq<char>, i: int, k: int)
    requires
        0 <= i <= k <= s.len(),
        forall|j: int| i <= j < k ==> is_digit_c(#[trigger] s[j]),
        k == s.len() || !is_digit_c(s[k]),
    ensures
        digits_len(s, i) == k - i,
    decreases k - i,
{
    if i < k {
        lemma_digits_run(s, i + 1, k);
    }
}

/// A run of identifier characters up to a boundary determines `ident_len`
/// exactly.
pub proof fn lemma_ident_run(s: Seq<char>, i: int, k: int)
    requires
        0 <= i <= k <= s.len(),
        forall|j: int| i <= j < k ==> is_ident_c(#[trigger] s[j]),
        k == s.len() || !is_ident_c(s[k]),
    ensures
        ident_len(s, i) == k - i,
    decreases k - i,
{
    if i < k {
        lemma_ident_run(s, i + 1, k);
    }
}

/// Stripping leading zeros keeps exactly the suffix after the last leading
/// zero.
pub proof fn lemma_strip_lead(s: Seq<char>, k: int)
    requires
        0 <= k <= s.len(),
        forall|j: int| 0 <= j < k ==> #[trigger] s[j] == '0',
        k == s.len() || s[k] != '0',
    ensures
        strip_lead_zeros(s) == s.subrange(k, s.len() as int),
    decreases k,
{
    if k == 0 {
        if s.len() == 0 {
            assert(strip_lead_zeros(s) =~= s.subrange(0, s.len() as int));
        } else {
            assert(s =~= s.subrange(0, s.len() as int));
        }
    } else {
        let t = s.drop_first();
        assert(forall|j: int| 0 <= j < k - 1 ==> #[trigger] t[j] == '0');
        lemma_strip_lead(t, k - 1);
        assert(t.subrange(k - 1, t.len() as int) =~= s.subrange(k, s.len() as int));
    }
}

/// Stripping trailing zeros keeps exactly the prefix before the first
/// trailing zero.
pub proof fn lemma_strip_trail(s: Seq<char>, k: int)
    requires
        0 <= k <= s.len(),
        forall|j: int| k <= j < s.len() ==> #[trigger] s[j] == '0',
        k == 0 || s[k - 1] != '0',
    ensures
        strip_trail_zeros(s) == s.subrange(0, k),
    decreases s.len() - k,
{
    if k == s.len() {
        if s.len() == 0 {
            assert(strip_trail_zeros(s) =~= s.subrange(0, k));
        } else {
            assert(s =~= s.subrange(0, k));
        }
    } else {
        let t = s.drop_last();
        assert(forall|j: int| k <= j < t.len() ==> #[trigger] t[j] == '0');
        lemma_strip_trail(t, k);
        assert(t.subrange(0, k) =~= s.subrange(0, k));
    }
}

/// Position advancement, one character at a time from the right.
pub proof fn lemma_adv_pos_snoc(line: nat, col: nat, cs: Seq<char>, x: char)
    ensures
        adv_pos(line, col, cs.push(x)) == (if x == '\n' {
            ((adv_pos(line, col, cs).0 + 1) as nat, 1nat)
        } else {
            (adv_pos(line, col, cs).0, (adv_pos(line, col, cs).1 + 1) as nat)
        }),
    decreases cs.len(),
{
    if cs.len() == 0 {
        assert(cs.push(x)[0] == x);
        assert(cs.push(x).drop_first() =~= Seq::<char>::empty());
        assert(adv_pos(line, col, Seq::<char>::empty()) == (line, col));
        if x == '\n' {
            assert(adv_pos(line, col, cs.push(x)) == adv_pos(
                (line + 1) as nat,
                1nat,
                cs.push(x).drop_first(),
            ));
        } else {
            assert(adv_pos(line, col, cs.push(x)) == adv_pos(
                line,
                (col + 1) as nat,
                cs.push(x).drop_first(),
            ));
        }
    } else {
        assert(cs.push(x)[0] == cs[0]);
        assert(cs.push(x).drop_first() =~= cs.drop_first().push(x));
        if cs[0] == '\n' {
            lemma_adv_pos_snoc((line + 1) as nat, 1nat, cs.drop_first(), x);
        } else {
            lemma_adv_pos_snoc(line, (col + 1) as nat, cs.drop_first(), x);
        }
    }
}

/// Bounds on position advancement: the line never decreases and grows by at
/// most the number of characters; a 1-based column stays 1-based and grows
/// by at most the number of characters.
pub proof fn lemma_adv_pos_bounds(line: nat, col: nat, cs: Seq<char>)
    requires
        line >= 1,
        col >= 1,
    ensures
        line <= adv_pos(line, col, cs).0 <= line + cs.len(),
        1 <= adv_pos(line, col, cs).1 <= col + cs.len(),
    decreases cs.len(),
{
    if cs.len() > 0 {
        if cs[0] == '\n' {
            lemma_adv_pos_bounds((line + 1) as nat, 1nat, cs.drop_first());
        } else {
            lemma_adv_pos_bounds(line, (col + 1) as nat, cs.drop_first());
        }
    }
}

} // verus!
