use vstd::prelude::*;

verus! {

/// The character of the decimal digit `d`.
pub open spec fn digit_char(d: int) -> char {
    (48 + d) as char
}

/// The decimal digits of `n`, most significant first, without leading zeros.
pub open spec fn decimal_digits(n: nat) -> Seq<char>
    decreases n,
{
    if n < 10 {
        seq![digit_char(n as int)]
    } else {
        decimal_digits(n / 10).push(digit_char(n as int % 10))
    }
}

/// How `n` is written in decimal: a minus sign for a negative number, then
/// its digits.
pub open spec fn decimal(n: int) -> Seq<char> {
    if n < 0 {
        seq!['-'] + decimal_digits((-n) as nat)
    } else {
        decimal_digits(n as nat)
    }
}

/// The one-character string of the decimal digit `d`.
fn digit_str(d: u32) -> (s: &'static str)
    requires
        d < 10,
    ensures
        s@ == seq![digit_char(d as int)],
{
    proof {
        reveal_strlit("0");
        reveal_strlit("1");
        reveal_strlit("2");
        reveal_strlit("3");
        reveal_strlit("4");
        reveal_strlit("5");
        reveal_strlit("6");
        reveal_strlit("7");
        reveal_strlit("8");
        reveal_strlit("9");
    }
    match d {
        0 => "0",
        1 => "1",
        2 => "2",
        3 => "3",
        4 => "4",
        5 => "5",
        6 => "6",
        7 => "7",
        8 => "8",
        _ => "9",
    }
}

/// Appends the decimal digits of `n` to `s`.
fn push_digits(s: &mut String, n: u32)
    ensures
        final(s)@ == old(s)@ + decimal_digits(n as nat),
    decreases n,
{
    if n >= 10 {
        push_digits(s, n / 10);
    }
    s.append(digit_str(n % 10));
    assert(s@ =~= old(s)@ + decimal_digits(n as nat));
}

/// Appends `n`, written in decimal, to `s`.
pub fn push_decimal(s: &mut String, n: i32)
    ensures
        final(s)@ == old(s)@ + decimal(n as int),
{
    if n < 0 {
        proof {
            reveal_strlit("-");
        }
        s.append("-");
        let magnitude: u32 = if n == i32::MIN {
            0x8000_0000u32
        } else {
            (-n) as u32
        };
        push_digits(s, magnitude);
        assert(s@ =~= old(s)@ + decimal(n as int));
    } else {
        push_digits(s, n as u32);
    }
}


/// The number that a row of decimal digit characters stands for.
pub open spec fn digits_value(s: Seq<char>) -> int
    decreases s.len(),
{
    if s.len() == 0 {
        0
    } else {
        digits_value(s.drop_last()) * 10 + (s.last() as int - 48)
    }
}

/// The decimal digits of `n` are characters `'0'` to `'9'` that read back
/// as `n`, with no leading zero.
pub proof fn lemma_decimal_digits_read_back(n: nat)
    ensures
        digits_value(decimal_digits(n)) == n,
        decimal_digits(n).len() > 0,
        decimal_digits(n).len() == 1 <==> n < 10,
        forall|i: int|
            0 <= i < decimal_digits(n).len() ==> '0' <= #[trigger] decimal_digits(n)[i] <= '9',
        decimal_digits(n).len() > 1 ==> decimal_digits(n)[0] != '0',
    decreases n,
{
    let s = decimal_digits(n);
    if n < 10 {
        assert(s.drop_last() =~= Seq::<char>::empty());
        assert(digit_char(n as int) as int == 48 + n);
        assert(digits_value(s) == digits_value(s.drop_last()) * 10 + (s.last() as int - 48));
        assert(digits_value(Seq::<char>::empty()) == 0);
    } else {
        assert(digit_char(n as int % 10) as int == 48 + n % 10);
        lemma_decimal_digits_read_back(n / 10);
        assert(s.drop_last() =~= decimal_digits(n / 10));
        assert(s.last() == digit_char(n as int % 10));
        assert(digits_value(s) == digits_value(decimal_digits(n / 10)) * 10 + (s.last() as int - 48));
        assert(n == (n / 10) * 10 + n % 10);
        let m = (n / 10) as nat;
        if m < 10 {
            assert(m > 0);
            assert(decimal_digits(m)[0] == digit_char(m as int));
            assert(digit_char(m as int) as int == 48 + m);
        }
        assert(s[0] == decimal_digits(m)[0]);
    }
}

} // verus!
