//! Decimal text for non-negative integers, with the zero-padded form the
//! extremal name lists use, proved against a digit-by-digit specification.
use vstd::prelude::*;
use vstd::string::StringExecFns;

verus! {

/// The digit character for `d` in `0 ..= 9`.
pub open spec fn digit_char(d: int) -> char {
    if d == 0 {
        '0'
    } else if d == 1 {
        '1'
    } else if d == 2 {
        '2'
    } else if d == 3 {
        '3'
    } else if d == 4 {
        '4'
    } else if d == 5 {
        '5'
    } else if d == 6 {
        '6'
    } else if d == 7 {
        '7'
    } else if d == 8 {
        '8'
    } else {
        '9'
    }
}

/// Digits of `n` without a leading zero; empty for zero.
pub open spec fn dec_digits(n: int) -> Seq<char>
    decreases n,
{
    if n <= 0 {
        Seq::empty()
    } else {
        dec_digits(n / 10).push(digit_char(n % 10))
    }
}

/// Decimal text of a non-negative `n`; zero is `"0"`.
pub open spec fn spec_dec(n: int) -> Seq<char> {
    if n == 0 {
        seq!['0']
    } else {
        dec_digits(n)
    }
}

/// Decimal text of `n`, left-padded with zeros to at least four digits.
pub open spec fn spec_pad4(n: int) -> Seq<char> {
    let d = spec_dec(n);
    if d.len() >= 4 {
        d
    } else {
        Seq::new((4 - d.len()) as nat, |i: int| '0') + d
    }
}

/// How many digits a number in each four-digit band has.
pub proof fn lemma_dec_len(n: int)
    requires
        0 <= n,
    ensures
        0 <= n < 10 ==> spec_dec(n).len() == 1,
        10 <= n < 100 ==> spec_dec(n).len() == 2,
        100 <= n < 1000 ==> spec_dec(n).len() == 3,
        1000 <= n ==> spec_dec(n).len() >= 4,
{
    if n == 0 {
    } else if n < 10 {
        assert(dec_digits(n) == dec_digits(n / 10).push(digit_char(n % 10)));
        assert(dec_digits(n / 10) == Seq::<char>::empty());
    } else if n < 100 {
        assert(dec_digits(n) == dec_digits(n / 10).push(digit_char(n % 10)));
        assert(dec_digits(n / 10) == dec_digits(n / 100).push(digit_char(n / 10 % 10)));
        assert(dec_digits(n / 100) == Seq::<char>::empty());
    } else if n < 1000 {
        assert(dec_digits(n) == dec_digits(n / 10).push(digit_char(n % 10)));
        assert(dec_digits(n / 10) == dec_digits(n / 100).push(digit_char(n / 10 % 10)));
        assert(dec_digits(n / 100) == dec_digits(n / 1000).push(digit_char(n / 100 % 10)));
        assert(dec_digits(n / 1000) == Seq::<char>::empty());
    } else {
        lemma_dec_len_lower(n);
    }
}

proof fn lemma_dec_len_lower(n: int)
    requires
        1000 <= n,
    ensures
        dec_digits(n).len() >= 4,
    decreases n,
{
    if n < 10000 {
        assert(dec_digits(n).len() == dec_digits(n / 10).len() + 1);
        assert(dec_digits(n / 10).len() == dec_digits(n / 100).len() + 1);
        assert(dec_digits(n / 100).len() == dec_digits(n / 1000).len() + 1);
        assert(dec_digits(n / 1000).len() == dec_digits(n / 10000).len() + 1);
    } else {
        lemma_dec_len_lower(n / 10);
    }
}

/// The one-character string for digit `d`.
fn digit_str(d: u64) -> (s: &'static str)
    requires
        d < 10,
    ensures
        s@ =~= seq![digit_char(d as int)],
{
    let s: &'static str = if d == 0 {
        "0"
    } else if d == 1 {
        "1"
    } else if d == 2 {
        "2"
    } else if d == 3 {
        "3"
    } else if d == 4 {
        "4"
    } else if d == 5 {
        "5"
    } else if d == 6 {
        "6"
    } else if d == 7 {
        "7"
    } else if d == 8 {
        "8"
    } else {
        "9"
    };
    proof {
        reveal_strlit("0");
        reveal_strlit("1");
        reveal_strlit("2");
        reveal_strlit("3");
        reveal_strlit("4");
        reveal_strlit("5");
        reveal_strlit("6");
        reveal_strlit("7");
        reveal_strlit("8");
        reveal_strlit("9");
    }
    s
}

/// Appends the digits of a positive `n` (nothing for zero).
fn append_digits(s: &mut String, n: u64)
    ensures
        final(s)@ == old(s)@ + dec_digits(n as int),
    decreases n,
{
    if n == 0 {
        proof {
            assert(old(s)@ + dec_digits(0) =~= old(s)@);
        }
        return ;
    }
    append_digits(s, n / 10);
    s.append(digit_str(n % 10));
    proof {
        assert(old(s)@ + dec_digits((n / 10) as int) + seq![digit_char((n % 10) as int)] =~= old(
            s,
        )@ + dec_digits(n as int));
    }
}

/// Appends the decimal text of `n`.
pub fn append_dec(s: &mut String, n: u64)
    ensures
        final(s)@ == old(s)@ + spec_dec(n as int),
{
    if n == 0 {
        s.append(digit_str(0));
        proof {
            assert(old(s)@ + seq![digit_char(0)] =~= old(s)@ + spec_dec(0));
        }
    } else {
        append_digits(s, n);
    }
}

/// Appends the decimal text of `n`, zero-padded to at least four digits.
pub fn append_pad4(s: &mut String, n: u64)
    ensures
        final(s)@ == old(s)@ + spec_pad4(n as int),
{
    proof {
        lemma_dec_len(n as int);
        reveal_strlit("000");
        reveal_strlit("00");
        reveal_strlit("0");
    }
    if n < 10 {
        s.append("000");
    } else if n < 100 {
        s.append("00");
    } else if n < 1000 {
        s.append("0");
    }
    append_dec(s, n);
    proof {
        let d = spec_dec(n as int);
        if d.len() < 4 {
            assert("000"@ =~= Seq::new(3nat, |i: int| '0'));
            assert("00"@ =~= Seq::new(2nat, |i: int| '0'));
            assert("0"@ =~= Seq::new(1nat, |i: int| '0'));
            assert(s@ =~= old(s)@ + spec_pad4(n as int));
        }
    }
}

} // verus!
