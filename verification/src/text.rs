//! Small text utilities shared by the tokenizer, the parser and the
//! serializer: character classes, converting between strings and character
//! vectors, and building strings character by character.

use vstd::prelude::*;

verus! {

/// Relies on `char`'s `ToString` (via `Display`): the resulting string holds
/// exactly the one character.
#[verifier::external_body]
pub fn char_to_string(c: char) -> (r: String)
    ensures
        r@ == seq![c],
{
    c.to_string()
}

/// The characters of a string slice, as a vector.
pub fn str_to_chars(s: &str) -> (r: Vec<char>)
    ensures
        r@ == s@,
{
    let n: usize = s.unicode_len();
    let mut v: Vec<char> = Vec::new();
    let mut i: usize = 0;
    while i < n
        invariant
            n == s@.len(),
            i <= n,
            v@ == s@.subrange(0, i as int),
        decreases n - i,
    {
        v.push(s.get_char(i));
        i = i + 1;
        proof {
            assert(v@ =~= s@.subrange(0, i as int));
        }
    }
    proof {
        assert(v@ =~= s@);
    }
    v
}

/// Appends one character to a string.
pub fn push_char(dst: &mut String, c: char)
    ensures
        final(dst)@ == old(dst)@ + seq![c],
{
    let s = char_to_string(c);
    dst.append(s.as_str());
}

/// Appends `src[start..end]` to a string.
pub fn push_chars(dst: &mut String, src: &Vec<char>, start: usize, end: usize)
    requires
        start <= end <= src@.len(),
    ensures
        final(dst)@ == old(dst)@ + src@.subrange(start as int, end as int),
{
    let mut i: usize = start;
    while i < end
        invariant
            start <= i <= end <= src@.len(),
            dst@ == old(dst)@ + src@.subrange(start as int, i as int),
        decreases end - i,
    {
        let c = src[i];
        push_char(dst, c);
        i = i + 1;
        proof {
            assert(old(dst)@ + src@.subrange(start as int, i - 1) + seq![src@[i - 1]] =~= old(
                dst,
            )@ + src@.subrange(start as int, i as int));
        }
    }
    proof {
        assert(dst@ =~= old(dst)@ + src@.subrange(start as int, end as int));
    }
}

} // verus!
