//! Decimal rendering of integers, the building block of the human-readable forms of amounts.

use vstd::prelude::*;
use vstd::string::*;

verus! {

/// The ASCII character of a decimal digit `0..=9`.
pub open spec fn digit_char(d: int) -> char {
    (d + 48) as char
}

/// The decimal digits of a natural number, most significant first, without leading zeros.
pub open spec fn nat_text(n: nat) -> Seq<char>
    decreases n,
{
    if n < 10 {
        seq![digit_char(n as int)]
    } else {
        nat_text(n / 10).push(digit_char((n % 10) as int))
    }
}

/// A run of `n` zero digits.
pub open spec fn zeros(n: nat) -> Seq<char> {
    Seq::new(n, |_i: int| '0')
}

/// Decimal text of `n` left-padded with zeros to at least `width` characters.
pub open spec fn zero_padded(n: nat, width: nat) -> Seq<char> {
    if nat_text(n).len() < width {
        zeros((width - nat_text(n).len()) as nat) + nat_text(n)
    } else {
        nat_text(n)
    }
}

/// Appends one character to a string (`String::push`).
#[verifier::external_body]
pub(crate) fn push_char(text: &mut String, c: char)
    ensures
        final(text)@ == old(text)@.push(c),
{
    text.push(c);
}

/// The digit character of `d`.
pub fn digit(d: u64) -> (c: char)
    requires
        d < 10,
    ensures
        c == digit_char(d as int),
{
    let b: u8 = 48u8 + (d as u8);
    b as char
}

/// Appends the decimal digits of `n`.
pub fn push_nat_text(text: &mut String, n: u64)
    ensures
        final(text)@ == old(text)@ + nat_text(n as nat),
    decreases n,
{
    if n >= 10 {
        push_nat_text(text, n / 10);
    }
    push_char(text, digit(n % 10));
    proof {
        if n >= 10 {
            assert(nat_text(n as nat) == nat_text((n / 10) as nat).push(digit_char((n % 10) as int)));
        }
    }
}

/// Appends the decimal digits of `n`, left-padded with zeros to at least `width` characters.
pub fn push_zero_padded(text: &mut String, n: u64, width: u32)
    ensures
        final(text)@ == old(text)@ + zero_padded(n as nat, width as nat),
{
    let mut digits = String::new();
    push_nat_text(&mut digits, n);
    assert(digits@ == nat_text(n as nat));
    let len = digits.as_str().unicode_len();
    let ghost start = text@;
    if len < width as usize {
        let pad = width as usize - len;
        let mut i: usize = 0;
        while i < pad
            invariant
                i <= pad,
                text@ == start + zeros(i as nat),
            decreases pad - i,
        {
            push_char(text, '0');
            assert(zeros((i + 1) as nat) == zeros(i as nat).push('0'));
            i = i + 1;
        }
    }
    text.append(digits.as_str());
    assert(text@ == start + zero_padded(n as nat, width as nat)) by {
        if nat_text(n as nat).len() < width {
            assert(start + zeros((width - nat_text(n as nat).len()) as nat) + nat_text(n as nat)
                =~= start + zero_padded(n as nat, width as nat));
        }
    }
}

/// Padding only adds leading zeros, up to the width: the padded text is at least `width` long
/// and at least as long as the digits, ends with the digits, and every character before them is
/// `0`.
pub proof fn lemma_zero_padding_adds_leading_zeros(n: nat, width: nat)
    ensures
        ({
            let p = zero_padded(n, width);
            let t = nat_text(n);
            &&& p.len() == if t.len() < width {
                width
            } else {
                t.len()
            }
            &&& p.subrange(p.len() - t.len(), p.len() as int) == t
            &&& forall|i: int| 0 <= i < p.len() - t.len() ==> p[i] == '0'
        }),
{
    let p = zero_padded(n, width);
    let t = nat_text(n);
    assert(p.subrange(p.len() - t.len(), p.len() as int) =~= t);
}

} // verus!

