//! Whole numbers written in decimal.
use vstd::prelude::*;
use vstd::string::*;
use vstd::utf8::*;

verus! {

/// The character of the decimal digit `d`.
pub open spec fn digit_char(d: int) -> char {
    (48 + d) as char
}

/// `n` in decimal, without leading zeros.
pub open spec fn decimal(n: nat) -> Seq<char>
    decreases n,
{
    if n < 10 {
        seq![digit_char(n as int)]
    } else {
        decimal(n / 10).push(digit_char((n % 10) as int))
    }
}

/// `n` in decimal, with a minus sign in front when it is negative.
pub open spec fn signed_decimal(n: int) -> Seq<char> {
    if n < 0 {
        seq!['-'] + decimal((-n) as nat)
    } else {
        decimal(n as nat)
    }
}

/// The quotient of `a` by `d`, rounded towards zero.
pub open spec fn quotient(a: int, d: int) -> int {
    if a < 0 {
        -((-a) / d)
    } else {
        a / d
    }
}

/// The number that a sequence of decimal digits stands for.
pub open spec fn digits_value(s: Seq<char>) -> int
    decreases s.len(),
{
    if s.len() == 0 {
        0
    } else {
        10 * digits_value(s.drop_last()) + (s.last() as int - 48)
    }
}

/// Whether `c` is a decimal digit.
pub open spec fn is_digit(c: char) -> bool {
    48 <= c as int <= 57
}

/// A decimal is made of digits alone and reads back as the number it was written for.
pub proof fn decimal_reads_back(n: nat)
    ensures
        decimal(n).len() > 0,
        forall|i: int| 0 <= i < decimal(n).len() ==> is_digit(#[trigger] decimal(n)[i]),
        digits_value(decimal(n)) == n,
    decreases n,
{
    if n < 10 {
        let s = decimal(n);
        assert(s.drop_last() =~= Seq::<char>::empty());
        assert(digits_value(s.drop_last()) == 0);
    } else {
        decimal_reads_back(n / 10);
        assert(decimal(n).drop_last() =~= decimal(n / 10));
    }
}

/// Two numbers written alike are the same number.
pub proof fn signed_decimal_is_injective(a: int, b: int)
    requires
        signed_decimal(a) == signed_decimal(b),
    ensures
        a == b,
{
    decimal_reads_back(if a < 0 { (-a) as nat } else { a as nat });
    decimal_reads_back(if b < 0 { (-b) as nat } else { b as nat });
    if a < 0 {
        assert(signed_decimal(a)[0] == '-');
        assert(signed_decimal(a).drop_first() =~= decimal((-a) as nat));
    }
    if b < 0 {
        assert(signed_decimal(b)[0] == '-');
        assert(signed_decimal(b).drop_first() =~= decimal((-b) as nat));
    }
    if a < 0 && b >= 0 {
        assert(is_digit(decimal(b as nat)[0]));
    }
    if a >= 0 && b < 0 {
        assert(is_digit(decimal(a as nat)[0]));
    }
}

/// Ten to the power `k`.
spec fn ten_to(k: nat) -> nat
    decreases k,
{
    if k == 0 {
        1
    } else {
        10 * ten_to((k - 1) as nat)
    }
}

proof fn lemma_decimal_len(n: nat, k: nat)
    requires
        k > 0,
        n < ten_to(k),
    ensures
        decimal(n).len() <= k,
    decreases k,
{
    if n >= 10 {
        if k == 1 {
            assert(ten_to(1) == 10) by {
                reveal_with_fuel(ten_to, 2);
            }
        }
        lemma_decimal_len(n / 10, (k - 1) as nat);
    }
}

/// A number of 64 bits has at most twenty digits, one below a thousand at most three.
pub proof fn decimal_is_short(n: nat)
    ensures
        n <= u64::MAX ==> decimal(n).len() <= 20,
        n < 1000 ==> decimal(n).len() <= 3,
{
    reveal_with_fuel(ten_to, 21);
    if n < 1000 {
        lemma_decimal_len(n, 3);
    } else if n <= u64::MAX {
        lemma_decimal_len(n, 20);
    }
}

/// Decimals are ASCII.
pub proof fn decimal_is_ascii(n: int)
    ensures
        is_ascii_chars(signed_decimal(n)),
        n >= 0 ==> is_ascii_chars(decimal(n as nat)),
{
    let m: nat = if n < 0 { (-n) as nat } else { n as nat };
    decimal_reads_back(m);
    assert forall|i: int| 0 <= i < signed_decimal(n).len() implies 0 <= #[trigger] signed_decimal(n)[i] < 128 by {
        if n < 0 && i > 0 {
            assert(signed_decimal(n)[i] == decimal(m)[i - 1]);
        } else if n >= 0 {
            assert(is_digit(decimal(m)[i]));
        }
    }
}

fn digit_text(d: u64) -> (s: &'static str)
    requires
        d < 10,
    ensures
        s@ == seq![digit_char(d as int)],
{
    proof {
        reveal_strlit("0");
        reveal_strlit("1");
        reveal_strlit("2");
        reveal_strlit("3");
        reveal_strlit("4");
        reveal_strlit("5");
        reveal_strlit("6");
        reveal_strlit("7");
        reveal_strlit("8");
        reveal_strlit("9");
    }
    match d {
        0 => "0",
        1 => "1",
        2 => "2",
        3 => "3",
        4 => "4",
        5 => "5",
        6 => "6",
        7 => "7",
        8 => "8",
        _ => "9",
    }
}

/// Writes `v` in decimal.
pub fn format_unsigned(v: u64) -> (s: String)
    ensures
        s@ == decimal(v as nat),
    decreases v,
{
    if v < 10 {
        digit_text(v).to_owned()
    } else {
        let mut s: String = format_unsigned(v / 10);
        s.append(digit_text(v % 10));
        assert(s@ =~= decimal(v as nat));
        s
    }
}

/// Writes `v` in decimal, with a minus sign in front when it is negative.
pub fn format_signed(v: i64) -> (s: String)
    ensures
        s@ == signed_decimal(v as int),
{
    if v < 0 {
        let magnitude: u64 = if v == i64::MIN { 9223372036854775808 } else { (-v) as u64 };
        let mut s: String = "-".to_owned();
        proof {
            reveal_strlit("-");
        }
        s.append(format_unsigned(magnitude).as_str());
        assert(s@ =~= signed_decimal(v as int));
        s
    } else {
        format_unsigned(v as u64)
    }
}

/// A number below ten is written with one digit, and a greater one does not begin with a zero.
pub proof fn decimal_has_no_leading_zero(n: nat)
    ensures
        n < 10 <==> decimal(n).len() == 1,
        n >= 10 ==> decimal(n)[0] != '0',
        n > 0 ==> decimal(n)[0] != '0',
    decreases n,
{
    if n >= 10 {
        decimal_has_no_leading_zero(n / 10);
        decimal_reads_back(n / 10);
        assert(decimal(n)[0] == decimal(n / 10)[0]);
    }
}

/// A signed number is written as its size, behind a minus sign exactly where it is negative.
pub proof fn signed_decimal_reads_back(n: int)
    ensures
        n < 0 <==> signed_decimal(n)[0] == '-',
        n < 0 ==> digits_value(signed_decimal(n).skip(1)) == -n,
        n >= 0 ==> digits_value(signed_decimal(n)) == n,
        forall|k: int|
            1 <= k < signed_decimal(n).len() ==> is_digit(#[trigger] signed_decimal(n)[k]),
{
    let m: nat = if n < 0 {
        (-n) as nat
    } else {
        n as nat
    };
    decimal_reads_back(m);
    if n < 0 {
        assert(signed_decimal(n).skip(1) =~= decimal(m));
        assert forall|k: int| 1 <= k < signed_decimal(n).len() implies is_digit(
            #[trigger] signed_decimal(n)[k],
        ) by {
            assert(signed_decimal(n)[k] == decimal(m)[k - 1]);
        }
    } else {
        assert(is_digit(decimal(m)[0]));
    }
}

/// A quotient is rounded towards zero: what is left over is smaller than the divisor and lies on
/// the same side of zero as the number divided.
pub proof fn quotient_rounds_towards_zero(a: int, d: int, q: int)
    requires
        d > 0,
    ensures
        a >= 0 ==> (quotient(a, d) == q <==> 0 <= a - d * q < d),
        a <= 0 ==> (quotient(a, d) == q <==> -d < a - d * q <= 0),
{
    let size: int = if a < 0 {
        -a
    } else {
        a
    };
    let side: int = if a < 0 {
        -q
    } else {
        q
    };
    assert(size / d == side <==> 0 <= size - d * side < d) by (nonlinear_arith)
        requires
            d > 0,
            size >= 0,
    ;
    assert(d * (-q) == -(d * q)) by (nonlinear_arith);
    if a == 0 {
        assert(-d < a - d * q <= 0 <==> q == 0) by (nonlinear_arith)
            requires
                a == 0,
                d > 0,
        ;
        assert(0int / d == 0) by (nonlinear_arith)
            requires
                d > 0,
        ;
    }
}

} // verus!
