//! Decimal numerals: the value of a digit string, a bounded parse into
//! `i32`, and the rendering of an integer back into decimal text.

use vstd::prelude::*;
use crate::text::push_char;

verus! {

pub open spec fn is_digit_c(c: char) -> bool {
    '0' <= c && c <= '9'
}

pub open spec fn all_digits(s: Seq<char>) -> bool {
    forall|k: int| 0 <= k < s.len() ==> is_digit_c(#[trigger] s[k])
}

/// The numeric value of a digit character.
pub open spec fn digit_val(c: char) -> int {
    c as int - '0' as int
}

/// The value of a string of decimal digits (most significant first).
pub open spec fn dec_val(s: Seq<char>) -> int
    decreases s.len(),
{
    if s.len() == 0 {
        0
    } else {
        dec_val(s.drop_last()) * 10 + digit_val(s.last())
    }
}

pub proof fn lemma_dec_val_nonneg(s: Seq<char>)
    requires
        all_digits(s),
    ensures
        dec_val(s) >= 0,
    decreases s.len(),
{
    if s.len() > 0 {
        lemma_dec_val_nonneg(s.drop_last());
    }
}

/// A prefix of a digit string never has a larger value than the whole.
pub proof fn lemma_dec_val_prefix_le(s: Seq<char>, k: int)
    requires
        all_digits(s),
        0 <= k <= s.len(),
    ensures
        dec_val(s.subrange(0, k)) <= dec_val(s),
    decreases s.len() - k,
{
    if k < s.len() {
        let p = s.subrange(0, k);
        let q = s.subrange(0, k + 1);
        assert(q.drop_last() =~= p);
        lemma_dec_val_nonneg(p);
        assert(dec_val(q) == dec_val(p) * 10 + digit_val(q.last()));
        assert(dec_val(p) * 10 >= dec_val(p));
        lemma_dec_val_prefix_le(s, k + 1);
    } else {
        assert(s.subrange(0, k) =~= s);
    }
}

/// Whether a digit string parses into an `i32`: nonempty, all digits, and
/// within range.
pub open spec fn fits_i32(s: Seq<char>) -> bool {
    s.len() > 0 && all_digits(s) && dec_val(s) <= i32::MAX
}

/// Parses a string of decimal digits. Returns `Some` exactly when the text
/// is a nonempty digit string whose value fits in an `i32`.
pub fn dec_to_i32(s: &str) -> (r: Option<i32>)
    ensures
        match r {
            Some(v) => fits_i32(s@) && v as int == dec_val(s@),
            None => !fits_i32(s@),
        },
{
    let n: usize = s.unicode_len();
    if n == 0 {
        return None;
    }
    let mut acc: u64 = 0;
    let mut i: usize = 0;
    while i < n
        invariant
            n == s@.len(),
            i <= n,
            forall|k: int| 0 <= k < i ==> is_digit_c(#[trigger] s@[k]),
            acc as int == dec_val(s@.subrange(0, i as int)),
            acc <= 0x7fff_ffff,
        decreases n - i,
    {
        let c = s.get_char(i);
        if !('0' <= c && c <= '9') {
            return None;
        }
        let d: u64 = (c as u32 as u64) - ('0' as u32 as u64);
        let next: u64 = acc * 10 + d;
        proof {
            assert(s@.subrange(0, i + 1).drop_last() =~= s@.subrange(0, i as int));
            assert(dec_val(s@.subrange(0, i + 1)) == acc as int * 10 + digit_val(c));
        }
        if next > 0x7fff_ffff {
            proof {
                if all_digits(s@) {
                    lemma_dec_val_prefix_le(s@, i + 1);
                }
            }
            return None;
        }
        acc = next;
        i = i + 1;
    }
    proof {
        assert(s@.subrange(0, n as int) =~= s@);
    }
    Some(acc as i32)
}

/// The character for a digit value.
pub open spec fn digit_char(d: int) -> char {
    if d == 0 {
        '0'
    } else if d == 1 {
        '1'
    } else if d == 2 {
        '2'
    } else if d == 3 {
        '3'
    } else if d == 4 {
        '4'
    } else if d == 5 {
        '5'
    } else if d == 6 {
        '6'
    } else if d == 7 {
        '7'
    } else if d == 8 {
        '8'
    } else {
        '9'
    }
}

/// The decimal rendering of a nonnegative integer, no leading zeros.
pub open spec fn dec_str_nat(n: int) -> Seq<char>
    decreases n,
{
    if n < 10 {
        seq![digit_char(n)]
    } else {
        dec_str_nat(n / 10).push(digit_char(n % 10))
    }
}

/// The decimal rendering of an integer, with a leading minus sign when
/// negative.
pub open spec fn dec_str_int(n: int) -> Seq<char> {
    if n < 0 {
        seq!['-'] + dec_str_nat(-n)
    } else {
        dec_str_nat(n)
    }
}

fn digit_to_char(d: u64) -> (c: char)
    requires
        d < 10,
    ensures
        c == digit_char(d as int),
{
    if d == 0 {
        '0'
    } else if d == 1 {
        '1'
    } else if d == 2 {
        '2'
    } else if d == 3 {
        '3'
    } else if d == 4 {
        '4'
    } else if d == 5 {
        '5'
    } else if d == 6 {
        '6'
    } else if d == 7 {
        '7'
    } else if d == 8 {
        '8'
    } else {
        '9'
    }
}

/// Appends the decimal rendering of `n` to `dst`.
fn push_dec_u64(dst: &mut String, n: u64)
    ensures
        final(dst)@ == old(dst)@ + dec_str_nat(n as int),
    decreases n,
{
    if n < 10 {
        push_char(dst, digit_to_char(n));
    } else {
        push_dec_u64(dst, n / 10);
        push_char(dst, digit_to_char(n % 10));
        proof {
            assert(old(dst)@ + dec_str_nat(n as int / 10) + seq![digit_char(n as int % 10)] =~= old(
                dst,
            )@ + dec_str_nat(n as int));
        }
    }
}

/// Appends the decimal rendering of a `usize` to `dst`.
pub fn push_dec_usize(dst: &mut String, n: usize)
    ensures
        final(dst)@ == old(dst)@ + dec_str_nat(n as int),
{
    push_dec_u64(dst, n as u64);
}

/// The decimal rendering of an `i32`.
pub fn i32_to_string(v: i32) -> (r: String)
    ensures
        r@ == dec_str_int(v as int),
{
    let mut out = String::new();
    if v < 0 {
        push_char(&mut out, '-');
        let m: u64 = (-(v as i64)) as u64;
        push_dec_u64(&mut out, m);
        proof {
            assert(Seq::<char>::empty() + seq!['-'] + dec_str_nat(m as int) =~= dec_str_int(
                v as int,
            ));
        }
    } else {
        let m: u64 = v as u64;
        push_dec_u64(&mut out, m);
        proof {
            assert(Seq::<char>::empty() + dec_str_nat(m as int) =~= dec_str_int(v as int));
        }
    }
    out
}

} // verus!
