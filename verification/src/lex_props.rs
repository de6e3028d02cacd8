//! A law of the tokenizer: on input made only of whitespace, digits,
//! operators and brackets, tokenization always succeeds, and after
//! whitespace is stripped the number of tokens equals the number of
//! lexical units of the input — each operator or bracket character one
//! unit, each maximal digit run one unit.
//!
//! The dot is deliberately not in this class: an input such as a lone dot
//! is rejected by every matcher, so tokenization fails on it.

use vstd::prelude::*;
use crate::grammar::{non_ws, strip_ws};
use crate::lex_model::{
    adv_pos, digits_len, float_len, in_range, is_bracket_c, is_op_c, is_space_c,
    lemma_digits_len_le, lemma_ident_len_le, lemma_ws_len_le, lex_one, spec_lex_at, ws_len, LexR,
};
use crate::numeral::is_digit_c;
use crate::token::TokM;
use crate::token_t::TokenT;

verus! {

/// The characters the law speaks of.
pub open spec fn plain_char(c: char) -> bool {
    is_space_c(c) || is_digit_c(c) || is_op_c(c) || is_bracket_c(c)
}

/// The number of lexical units from index `i` on: every operator or
/// bracket character counts one, a digit counts one exactly when it starts
/// a digit run, whitespace counts nothing. `after_digit` says whether the
/// character before `i` was a digit.
pub open spec fn unit_count(s: Seq<char>, i: int, after_digit: bool) -> int
    decreases s.len() - i,
{
    if i < 0 || i >= s.len() {
        0
    } else if is_space_c(s[i]) {
        unit_count(s, i + 1, false)
    } else if is_op_c(s[i]) || is_bracket_c(s[i]) {
        1 + unit_count(s, i + 1, false)
    } else if is_digit_c(s[i]) {
        (if after_digit {
            0int
        } else {
            1int
        }) + unit_count(s, i + 1, true)
    } else {
        0
    }
}

/// When the character at `i` is not a digit, whether a digit came just
/// before makes no difference to the count.
proof fn lemma_unit_count_boundary(s: Seq<char>, i: int)
    requires
        i >= s.len() || i < 0 || !is_digit_c(s[i]),
    ensures
        unit_count(s, i, true) == unit_count(s, i, false),
{
}

/// A whitespace run contributes nothing to the count.
proof fn lemma_unit_count_ws_run(s: Seq<char>, i: int, k: int)
    requires
        0 <= i <= k <= s.len(),
        forall|j: int| i <= j < k ==> is_space_c(#[trigger] s[j]),
    ensures
        unit_count(s, i, false) == unit_count(s, k, false),
    decreases k - i,
{
    if i < k {
        lemma_unit_count_ws_run(s, i + 1, k);
    }
}

/// The tail of a digit run contributes nothing to the count.
proof fn lemma_unit_count_digit_tail(s: Seq<char>, i: int, k: int)
    requires
        0 <= i <= k <= s.len(),
        forall|j: int| i <= j < k ==> is_digit_c(#[trigger] s[j]),
    ensures
        unit_count(s, i, true) == unit_count(s, k, true),
    decreases k - i,
{
    if i < k {
        lemma_unit_count_digit_tail(s, i + 1, k);
    }
}

/// Every character of a whitespace run is whitespace.
proof fn lemma_ws_len_chars(s: Seq<char>, i: int)
    requires
        0 <= i,
    ensures
        forall|m: int| i <= m < i + ws_len(s, i) ==> is_space_c(#[trigger] s[m]),
    decreases s.len() - i,
{
    if 0 <= i < s.len() && is_space_c(s[i]) {
        lemma_ws_len_chars(s, i + 1);
    }
}

/// The character just past a digit run is not a digit.
proof fn lemma_digits_len_max(s: Seq<char>, i: int)
    requires
        0 <= i,
    ensures
        i + digits_len(s, i) >= s.len() || !is_digit_c(s[i + digits_len(s, i)]),
    decreases s.len() - i,
{
    if 0 <= i < s.len() && is_digit_c(s[i]) {
        lemma_digits_len_max(s, i + 1);
    }
}

/// Every character of a digit run is a digit.
proof fn lemma_digits_len_chars(s: Seq<char>, i: int)
    requires
        0 <= i,
    ensures
        forall|m: int| i <= m < i + digits_len(s, i) ==> is_digit_c(#[trigger] s[m]),
    decreases s.len() - i,
{
    if 0 <= i < s.len() && is_digit_c(s[i]) {
        lemma_digits_len_chars(s, i + 1);
    }
}

/// Stripping whitespace from a one-token sequence.
proof fn lemma_strip_ws_one(t: TokM, rest: Seq<TokM>)
    ensures
        t.kind != TokenT::WHITESPACE ==> strip_ws(seq![t] + rest) == seq![t] + strip_ws(rest),
        t.kind == TokenT::WHITESPACE ==> strip_ws(seq![t] + rest) == strip_ws(rest),
{
    broadcast use vstd::seq_lib::group_seq_properties;

    Seq::filter_distributes_over_add(seq![t], rest, non_ws());
    reveal(Seq::filter);
    assert(seq![t].drop_last() =~= Seq::<TokM>::empty());
    assert(Seq::<TokM>::empty().filter(non_ws()) =~= Seq::<TokM>::empty());
    if t.kind != TokenT::WHITESPACE {
        assert(seq![t].filter(non_ws()) =~= seq![t]);
    } else {
        assert(seq![t].filter(non_ws()) =~= Seq::<TokM>::empty());
    }
}

/// On input made only of whitespace, digits, operators and brackets,
/// tokenization from any position and any start position succeeds, and the
/// tokens that survive whitespace stripping are exactly as many as the
/// lexical units of the remaining input.
pub proof fn lemma_plain_input_lexes(s: Seq<char>, i: int, line: nat, col: nat)
    requires
        0 <= i <= s.len(),
        forall|j: int| 0 <= j < s.len() ==> plain_char(#[trigger] s[j]),
    ensures
        spec_lex_at(s, i, line, col) matches LexR::Toks(ts) && strip_ws(ts).len() == unit_count(
            s,
            i,
            false,
        ),
    decreases s.len() - i,
{
    reveal(Seq::filter);
    if i >= s.len() {
        assert(Seq::<TokM>::empty().filter(non_ws()) =~= Seq::<TokM>::empty());
        assert(spec_lex_at(s, i, line, col) == LexR::Toks(Seq::<TokM>::empty()));
    } else {
        lemma_ws_len_le(s, i);
        lemma_digits_len_le(s, i);
        lemma_ident_len_le(s, i);
        lemma_ws_len_le(s, i + 1);
        lemma_digits_len_le(s, i + 1);
        lemma_ident_len_le(s, i + 1);
        let w = ws_len(s, i);
        let d = digits_len(s, i);
        let c = s[i];
        if is_space_c(c) {
            assert(w >= 1);
            let j = in_range(i + w, i + 1, s.len() as int);
            assert(j == i + w);
            let p = adv_pos(line, col, s.subrange(i, j));
            lemma_plain_input_lexes(s, j, p.0, p.1);
            let t = lex_one(s, i, line, col)->Some_0.1;
            let rest = spec_lex_at(s, j, p.0, p.1)->Toks_0;
            lemma_strip_ws_one(t, rest);
            lemma_ws_len_chars(s, i);
            lemma_unit_count_ws_run(s, i, i + w);
        } else if is_digit_c(c) {
            assert(w == 0);
            assert(d >= 1);
            lemma_digits_len_max(s, i);
            assert(i + d == s.len() || !is_digit_c(s[i + d]));
            assert(i + d == s.len() || s[i + d] != '.');
            assert(float_len(s, i) == 0);
            let j = in_range(i + d, i + 1, s.len() as int);
            assert(j == i + d);
            let p = adv_pos(line, col, s.subrange(i, j));
            lemma_plain_input_lexes(s, j, p.0, p.1);
            let t = lex_one(s, i, line, col)->Some_0.1;
            let rest = spec_lex_at(s, j, p.0, p.1)->Toks_0;
            lemma_strip_ws_one(t, rest);
            lemma_digits_len_chars(s, i);
            lemma_unit_count_digit_tail(s, i + 1, i + d);
            lemma_unit_count_boundary(s, i + d);
        } else {
            assert(is_op_c(c) || is_bracket_c(c));
            assert(w == 0);
            assert(d == 0);
            assert(float_len(s, i) == 0);
            let j = in_range(i + 1, i + 1, s.len() as int);
            assert(j == i + 1);
            let p = adv_pos(line, col, s.subrange(i, j));
            lemma_plain_input_lexes(s, j, p.0, p.1);
            let t = lex_one(s, i, line, col)->Some_0.1;
            let rest = spec_lex_at(s, j, p.0, p.1)->Toks_0;
            lemma_strip_ws_one(t, rest);
        }
    }
}

} // verus!
