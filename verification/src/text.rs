//! Numbers as text: whole numbers, and ratios rounded to a fixed number of
//! decimal places.
use crate::decimal::{all_digits, digit_value, digits_value, is_digit, pow10};
use crate::quantity::BYTES_PER_GIBIBYTE;
use vstd::prelude::*;
use vstd::string::StringExecFns;

verus! {

/// The text that writes the digit `d`.
pub open spec fn digit_text(d: nat) -> Seq<char> {
    if d == 0 {
        "0"@
    } else if d == 1 {
        "1"@
    } else if d == 2 {
        "2"@
    } else if d == 3 {
        "3"@
    } else if d == 4 {
        "4"@
    } else if d == 5 {
        "5"@
    } else if d == 6 {
        "6"@
    } else if d == 7 {
        "7"@
    } else if d == 8 {
        "8"@
    } else {
        "9"@
    }
}

/// The decimal digits of `n`, most significant first, `0` for zero.
pub open spec fn nat_text(n: nat) -> Seq<char>
    decreases n,
{
    if n < 10 {
        digit_text(n)
    } else {
        nat_text(n / 10) + digit_text(n % 10)
    }
}

/// A digit is written as one character, the one that reads as that digit.
pub proof fn lemma_digit_text(d: nat)
    requires
        d <= 9,
    ensures
        digit_text(d).len() == 1,
        is_digit(digit_text(d)[0]),
        digit_value(digit_text(d)[0]) == d,
{
    reveal_strlit("0");
    reveal_strlit("1");
    reveal_strlit("2");
    reveal_strlit("3");
    reveal_strlit("4");
    reveal_strlit("5");
    reveal_strlit("6");
    reveal_strlit("7");
    reveal_strlit("8");
    reveal_strlit("9");
}

/// What is written reads back: the text of a whole number is made of
/// digits, and they write that number.
pub proof fn lemma_nat_text_reads_back(n: nat)
    ensures
        nat_text(n).len() >= 1,
        all_digits(nat_text(n)),
        digits_value(nat_text(n)) == n,
    decreases n,
{
    let last = digit_text(n % 10);
    lemma_digit_text(n % 10);
    if n < 10 {
        assert(nat_text(n).drop_last() =~= Seq::<char>::empty());
        assert(digits_value(nat_text(n).drop_last()) == 0);
    } else {
        let front = nat_text(n / 10);
        lemma_nat_text_reads_back(n / 10);
        let text = nat_text(n);
        assert(text =~= front.push(last[0]));
        assert(text.drop_last() =~= front);
        assert forall|i: int| 0 <= i < text.len() implies is_digit(#[trigger] text[i]) by {
            if i < front.len() {
                assert(text[i] == front[i]);
            }
        }
    }
}

/// Writes the digit `d` at the end of `out`.
fn push_digit(out: &mut String, d: u8)
    requires
        d <= 9,
    ensures
        final(out)@ == old(out)@ + digit_text(d as nat),
{
    let text = if d == 0 {
        "0"
    } else if d == 1 {
        "1"
    } else if d == 2 {
        "2"
    } else if d == 3 {
        "3"
    } else if d == 4 {
        "4"
    } else if d == 5 {
        "5"
    } else if d == 6 {
        "6"
    } else if d == 7 {
        "7"
    } else if d == 8 {
        "8"
    } else {
        "9"
    };
    out.append(text);
}

/// Writes `n` in decimal at the end of `out`.
pub fn push_nat(out: &mut String, n: u128)
    ensures
        final(out)@ == old(out)@ + nat_text(n as nat),
    decreases n,
{
    if n >= 10 {
        push_nat(out, n / 10);
    }
    push_digit(out, (n % 10) as u8);
}

/// How far `v` is from zero.
pub open spec fn magnitude(v: int) -> nat {
    if v < 0 {
        (-v) as nat
    } else {
        v as nat
    }
}

/// `num / den` in units of `10^-places`, rounded to the nearest whole number
/// of them, and to the even one of two that are equally near.
pub open spec fn rounded(num: nat, den: nat, places: nat) -> nat {
    let scaled = num * pow10(places);
    let q = scaled / den;
    let r = scaled % den;
    if 2 * r > den || (2 * r == den && q % 2 == 1) {
        q + 1
    } else {
        q
    }
}

/// The last `width` decimal digits of `n`, with leading zeros where `n` has
/// fewer.
pub open spec fn padded_text(n: nat, width: nat) -> Seq<char>
    decreases width,
{
    if width == 0 {
        Seq::empty()
    } else {
        padded_text(n / 10, (width - 1) as nat) + digit_text(n % 10)
    }
}

/// `num / den` written with `places` digits behind the point, rounded as
/// `rounded` says.  A value below zero has a minus sign, also where it rounds
/// to zero.
pub open spec fn fixed_text(num: int, den: nat, places: nat) -> Seq<char> {
    let m = rounded(magnitude(num), den, places);
    let whole = nat_text(m / pow10(places));
    let signed = if num < 0 {
        "-"@ + whole
    } else {
        whole
    };
    if places == 0 {
        signed
    } else {
        signed + "."@ + padded_text(m % pow10(places), places)
    }
}

/// The largest numerator that `push_fixed` takes, in either direction.
pub const MAX_NUMERATOR: i128 = 0x1_0000_0000_0000_0000_0000;

/// Writes the last `width` digits of `n`, with leading zeros, at the end
/// of `out`.
fn push_padded(out: &mut String, n: u128, width: u8)
    ensures
        final(out)@ == old(out)@ + padded_text(n as nat, width as nat),
    decreases width,
{
    if width > 0 {
        push_padded(out, n / 10, width - 1);
        push_digit(out, (n % 10) as u8);
    }
}

/// Ten to the power `places`.
fn power_of_ten(places: u8) -> (p: u128)
    requires
        places <= 3,
    ensures
        p == pow10(places as nat),
        1 <= p <= 1000,
{
    proof {
        reveal_with_fuel(pow10, 4);
    }
    if places == 0 {
        1
    } else if places == 1 {
        10
    } else if places == 2 {
        100
    } else {
        1000
    }
}

/// Writes `num / den` with `places` digits behind the point at the end of
/// `out`.
pub fn push_fixed(out: &mut String, num: i128, den: i64, places: u8)
    requires
        -MAX_NUMERATOR <= num <= MAX_NUMERATOR,
        den > 0,
        places <= 3,
    ensures
        final(out)@ == old(out)@ + fixed_text(num as int, den as nat, places as nat),
{
    let mag: u128 = if num < 0 {
        (-num) as u128
    } else {
        num as u128
    };
    let p = power_of_ten(places);
    proof {
        assert(mag * p <= MAX_NUMERATOR * 1000) by (nonlinear_arith)
            requires
                0 <= mag <= MAX_NUMERATOR,
                0 <= p <= 1000,
        ;
    }
    let scaled: u128 = mag * p;
    let d: u128 = den as u128;
    let q: u128 = scaled / d;
    let r: u128 = scaled % d;
    let m: u128 = if 2 * r > d || (2 * r == d && q % 2 == 1) {
        q + 1
    } else {
        q
    };
    if num < 0 {
        out.append("-");
    }
    push_nat(out, m / p);
    if places > 0 {
        out.append(".");
        push_padded(out, m % p, places);
    }
    proof {
        assert(final(out)@ =~= old(out)@ + fixed_text(num as int, den as nat, places as nat));
    }
}

/// An amount of compute in cores, written with `places` decimals.
pub open spec fn cores_text(millicores: int, places: nat) -> Seq<char> {
    fixed_text(millicores, 1000, places)
}

/// An amount of memory in gibibytes, written with `places` decimals.
pub open spec fn gigabytes_text(bytes: int, places: nat) -> Seq<char> {
    fixed_text(bytes, BYTES_PER_GIBIBYTE as nat, places)
}

/// `part` as a percentage of `whole`, written with one decimal.  Of a whole
/// that is zero every part is taken as zero percent.
pub open spec fn percent_text(part: int, whole: int) -> Seq<char> {
    if whole > 0 {
        fixed_text(part * 100, whole as nat, 1)
    } else {
        fixed_text(0, 1, 1)
    }
}

/// A whole number with its sign.
pub open spec fn int_text(v: int) -> Seq<char> {
    if v < 0 {
        "-"@ + nat_text((-v) as nat)
    } else {
        nat_text(v as nat)
    }
}

/// Writes an amount of compute in cores at the end of `out`.
pub fn push_cores(out: &mut String, millicores: i128, places: u8)
    requires
        -MAX_NUMERATOR <= millicores <= MAX_NUMERATOR,
        places <= 3,
    ensures
        final(out)@ == old(out)@ + cores_text(millicores as int, places as nat),
{
    push_fixed(out, millicores, 1000, places);
}

/// Writes an amount of memory in gibibytes at the end of `out`.
pub fn push_gigabytes(out: &mut String, bytes: i128, places: u8)
    requires
        -MAX_NUMERATOR <= bytes <= MAX_NUMERATOR,
        places <= 3,
    ensures
        final(out)@ == old(out)@ + gigabytes_text(bytes as int, places as nat),
{
    push_fixed(out, bytes, BYTES_PER_GIBIBYTE, places);
}

/// Writes `part` as a percentage of `whole` at the end of `out`.
pub fn push_percent(out: &mut String, part: i128, whole: i64)
    requires
        -MAX_NUMERATOR <= part * 100 <= MAX_NUMERATOR,
    ensures
        final(out)@ == old(out)@ + percent_text(part as int, whole as int),
{
    if whole > 0 {
        push_fixed(out, part * 100, whole, 1);
    } else {
        push_fixed(out, 0, 1, 1);
    }
}

/// Writes a whole number with its sign at the end of `out`.
pub fn push_int(out: &mut String, v: i128)
    ensures
        final(out)@ == old(out)@ + int_text(v as int),
{
    if v < 0 {
        out.append("-");
        let m: u128 = if v == i128::MIN {
            0x8000_0000_0000_0000_0000_0000_0000_0000
        } else {
            (-v) as u128
        };
        push_nat(out, m);
        proof {
            assert(final(out)@ =~= old(out)@ + int_text(v as int));
        }
    } else {
        push_nat(out, v as u128);
    }
}

} // verus!
