//! Verified decimal rendering of the integer magnitudes that appear in the
//! line protocol: field values and timestamp literals.

use vstd::prelude::*;

use crate::text::push_char;

verus! {

/// The decimal digit character for `d` (`d < 10`).
pub open spec fn dec_digit(d: nat) -> char {
    if d == 0 {
        '0'
    } else if d == 1 {
        '1'
    } else if d == 2 {
        '2'
    } else if d == 3 {
        '3'
    } else if d == 4 {
        '4'
    } else if d == 5 {
        '5'
    } else if d == 6 {
        '6'
    } else if d == 7 {
        '7'
    } else if d == 8 {
        '8'
    } else {
        '9'
    }
}

/// The decimal representation of `n`: most significant digit first, no sign,
/// no leading zeroes (a single `'0'` for zero).
pub open spec fn dec_rep(n: nat) -> Seq<char>
    decreases n,
{
    if n < 10 {
        seq![dec_digit(n)]
    } else {
        dec_rep(n / 10).push(dec_digit(n % 10))
    }
}

/// The decimal representation of a signed value: a leading `'-'` for
/// negatives, then the digits of the magnitude.
pub open spec fn dec_rep_signed(i: int) -> Seq<char> {
    if i < 0 {
        seq!['-'] + dec_rep((-i) as nat)
    } else {
        dec_rep(i as nat)
    }
}

fn digit_char(d: u128) -> (c: char)
    requires
        d < 10,
    ensures
        c == dec_digit(d as nat),
{
    if d == 0 {
        '0'
    } else if d == 1 {
        '1'
    } else if d == 2 {
        '2'
    } else if d == 3 {
        '3'
    } else if d == 4 {
        '4'
    } else if d == 5 {
        '5'
    } else if d == 6 {
        '6'
    } else if d == 7 {
        '7'
    } else if d == 8 {
        '8'
    } else {
        '9'
    }
}

/// Every character of a decimal representation is a digit, never a
/// space.
pub proof fn lemma_dec_rep_no_space(n: nat)
    ensures
        forall|i: int| 0 <= i < dec_rep(n).len() ==> #[trigger] dec_rep(n)[i] != ' ',
    decreases n,
{
    if n < 10 {
        assert(dec_rep(n) == seq![dec_digit(n)]);
    } else {
        lemma_dec_rep_no_space(n / 10);
        assert(dec_rep(n) == dec_rep(n / 10).push(dec_digit(n % 10)));
        assert(forall|i: int|
            0 <= i < dec_rep(n).len() - 1 ==> #[trigger] dec_rep(n)[i] == dec_rep(n / 10)[i]);
    }
}

/// Renders `n` in decimal.
pub fn format_u128(n: u128) -> (r: String)
    ensures
        r@ == dec_rep(n as nat),
{
    let mut digits: Vec<char> = Vec::new();
    let mut m = n;
    while m >= 10
        invariant
            dec_rep(n as nat) =~= dec_rep(m as nat) + digits@.reverse(),
        decreases m,
    {
        let ghost old_digits = digits@;
        let d = m % 10;
        digits.push(digit_char(d));
        proof {
            assert(digits@.reverse() =~= seq![dec_digit(d as nat)] + old_digits.reverse());
            assert(dec_rep(m as nat) == dec_rep((m / 10) as nat).push(dec_digit((m % 10) as nat)));
            assert(dec_rep((m / 10) as nat).push(dec_digit(d as nat)) =~= dec_rep((m / 10) as nat)
                + seq![dec_digit(d as nat)]);
            assert(dec_rep(n as nat) =~= dec_rep((m / 10) as nat) + digits@.reverse());
        }
        m = m / 10;
    }
    digits.push(digit_char(m));
    proof {
        assert(digits@.reverse() =~= seq![dec_digit(m as nat)] + digits@.drop_last().reverse());
        assert(dec_rep(n as nat) =~= digits@.reverse());
    }
    let mut out = String::new();
    let mut j = digits.len();
    while j > 0
        invariant
            j <= digits.len(),
            out@ =~= digits@.reverse().take(digits.len() - j),
        decreases j,
    {
        j = j - 1;
        push_char(&mut out, digits[j]);
        proof {
            assert(digits@.reverse()[digits.len() - 1 - j] == digits@[j as int]);
            assert(out@ =~= digits@.reverse().take(digits.len() - j));
        }
    }
    proof {
        assert(out@ =~= digits@.reverse());
    }
    out
}

/// Renders `n` in decimal.
pub fn format_u64(n: u64) -> (r: String)
    ensures
        r@ == dec_rep(n as nat),
{
    format_u128(n as u128)
}

/// Renders `i` in decimal, with a leading `'-'` when negative.
pub fn format_i64(i: i64) -> (r: String)
    ensures
        r@ == dec_rep_signed(i as int),
{
    if i >= 0 {
        format_u128(i as u128)
    } else {
        let mag: u128 = (-(i as i128)) as u128;
        proof {
            assert(mag as int == -(i as int));
        }
        let mut out = String::new();
        push_char(&mut out, '-');
        let ds = format_u128(mag);
        out.append(ds.as_str());
        proof {
            assert(out@ =~= seq!['-'] + dec_rep(mag as nat));
        }
        out
    }
}

} // verus!
