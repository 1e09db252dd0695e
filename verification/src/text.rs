//! Decimal spelling of numbers, used to name positional fields.

use vstd::prelude::*;

verus! {

/// Relies on String::push, which appends exactly the given character to the
/// end of the string.
pub assume_specification[ std::string::String::push ](s: &mut String, ch: char)
    ensures
        final(s)@ == old(s)@.push(ch),
;

/// The character for one decimal digit.
pub open spec fn dec_digit(d: int) -> char {
    if d == 0 {
        '0'
    } else if d == 1 {
        '1'
    } else if d == 2 {
        '2'
    } else if d == 3 {
        '3'
    } else if d == 4 {
        '4'
    } else if d == 5 {
        '5'
    } else if d == 6 {
        '6'
    } else if d == 7 {
        '7'
    } else if d == 8 {
        '8'
    } else {
        '9'
    }
}

/// The decimal spelling of `n`, most significant digit first.
pub open spec fn dec_str(n: nat) -> Seq<char>
    decreases n,
{
    if n < 10 {
        seq![dec_digit(n as int)]
    } else {
        dec_str((n / 10) as nat).push(dec_digit((n % 10) as int))
    }
}

fn digit_char(d: usize) -> (r: char)
    requires
        d < 10,
    ensures
        r == dec_digit(d as int),
{
    if d == 0 {
        '0'
    } else if d == 1 {
        '1'
    } else if d == 2 {
        '2'
    } else if d == 3 {
        '3'
    } else if d == 4 {
        '4'
    } else if d == 5 {
        '5'
    } else if d == 6 {
        '6'
    } else if d == 7 {
        '7'
    } else if d == 8 {
        '8'
    } else {
        '9'
    }
}

/// Appends the decimal spelling of `n` to `s`.
pub fn push_decimal(s: &mut String, n: usize)
    ensures
        final(s)@ == old(s)@ + dec_str(n as nat),
{
    let mut digits: Vec<char> = Vec::new();
    let mut m = n;
    loop
        invariant_except_break
            (digits@.len() == 0 && m == n) || (m != 0 && dec_str(n as nat) =~= dec_str(m as nat)
                + digits@.reverse()),
        ensures
            dec_str(n as nat) =~= digits@.reverse(),
        decreases m,
    {
        let d = m % 10;
        let m2 = m / 10;
        proof {
            let ds = digits@;
            let dd = dec_digit(d as int);
            assert(Seq::<char>::empty().reverse() =~= Seq::<char>::empty());
            assert(dec_str(n as nat) =~= dec_str(m as nat) + ds.reverse());
            assert(ds.push(dd).reverse() =~= seq![dd] + ds.reverse());
            if m < 10 {
                assert(dec_str(m as nat) == seq![dec_digit(m as int)]);
                assert(dec_str(n as nat) =~= ds.push(dd).reverse());
            } else {
                assert(dec_str(m as nat) == dec_str((m / 10) as nat).push(
                    dec_digit((m % 10) as int),
                ));
                assert(dec_str((m / 10) as nat).push(dd) =~= dec_str((m / 10) as nat) + seq![dd]);
                assert(dec_str(n as nat) =~= dec_str(m2 as nat) + ds.push(dd).reverse());
            }
        }
        digits.push(digit_char(d));
        m = m2;
        if m == 0 {
            break ;
        }
    }
    let k = digits.len();
    let mut i: usize = 0;
    while i < k
        invariant
            i <= k,
            k == digits@.len(),
            dec_str(n as nat) =~= digits@.reverse(),
            s@ == old(s)@ + digits@.reverse().take(i as int),
        decreases k - i,
    {
        proof {
            assert(digits@.reverse()[i as int] == digits@[k - 1 - i]);
            assert(digits@.reverse().take(i as int).push(digits@.reverse()[i as int])
                =~= digits@.reverse().take(i + 1));
        }
        s.push(digits[k - 1 - i]);
        i = i + 1;
    }
    proof {
        assert(digits@.reverse().take(k as int) =~= digits@.reverse());
    }
}

/// The decimal spelling of `n` as a fresh string.
pub fn usize_to_string(n: usize) -> (r: String)
    ensures
        r@ == dec_str(n as nat),
{
    let mut s = String::new();
    push_decimal(&mut s, n);
    proof {
        assert(Seq::<char>::empty() + dec_str(n as nat) =~= dec_str(n as nat));
    }
    s
}

} // verus!
