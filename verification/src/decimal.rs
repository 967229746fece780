//! Decimal numerals: their grammar, their exact value, and the scaling of that
//! value to a whole number of sub-units.
use vstd::arithmetic::div_mod::{
    lemma_basic_div, lemma_div_denominator, lemma_div_multiples_vanish,
    lemma_div_multiples_vanish_quotient, lemma_hoist_over_denominator, lemma_small_div_converse,
};
use vstd::prelude::*;

verus! {

/// The largest amount that is represented: amounts above it are held as this.
pub const MAX_AMOUNT: i64 = 0x7fff_ffff_ffff_ffff;

/// The largest unit by which a numeral is scaled.
pub const MAX_UNIT: u64 = 0x100_0000_0000;

/// The bound at which a stated exponent is held while it is read.  It is
/// beyond the length of any text, so an exponent at the bound decides the
/// amount by itself.
const EXPONENT_CAP: u128 = 0x1_0000_0000_0000_0000_0000_0000;

/// Whether `c` is one of the ten decimal digits.
pub open spec fn is_digit(c: char) -> bool {
    '0' <= c <= '9'
}

/// The number that the digit `c` stands for.
pub open spec fn digit_value(c: char) -> nat {
    (c as nat - '0' as nat) as nat
}

/// Whether every character of `s` is a decimal digit.
pub open spec fn all_digits(s: Seq<char>) -> bool {
    forall|i: int| 0 <= i < s.len() ==> is_digit(#[trigger] s[i])
}

/// The number written by the digits `s`, most significant first.
pub open spec fn digits_value(s: Seq<char>) -> nat
    decreases s.len(),
{
    if s.len() == 0 {
        0
    } else {
        10 * digits_value(s.drop_last()) + digit_value(s.last())
    }
}

/// Ten to the power `n`.
pub open spec fn pow10(n: nat) -> nat
    decreases n,
{
    if n == 0 {
        1
    } else {
        10 * pow10((n - 1) as nat)
    }
}

/// A decimal numeral's exact value: `mantissa * 10^exponent`, negated when
/// `negative`.
pub struct Decimal {
    pub negative: bool,
    pub mantissa: nat,
    pub exponent: int,
}

/// `mantissa * unit * 10^exponent`, rounded down to a whole number.
pub open spec fn scaled(mantissa: nat, exponent: int, unit: nat) -> nat {
    if exponent >= 0 {
        mantissa * unit * pow10(exponent as nat)
    } else {
        (mantissa * unit) / pow10((-exponent) as nat)
    }
}

/// `v` held to the range of amounts: nothing below zero, nothing above
/// `MAX_AMOUNT`.
pub open spec fn saturate(v: int) -> int {
    if v < 0 {
        0
    } else if v > MAX_AMOUNT {
        MAX_AMOUNT as int
    } else {
        v
    }
}

impl Decimal {
    /// The value times `unit`, rounded toward zero to a whole number.
    pub open spec fn times(self, unit: nat) -> int {
        if self.negative {
            -(scaled(self.mantissa, self.exponent, unit) as int)
        } else {
            scaled(self.mantissa, self.exponent, unit) as int
        }
    }
}

/// Whether `c` is a sign.
pub open spec fn is_sign(c: char) -> bool {
    c == '+' || c == '-'
}

/// Whether `c` introduces an exponent.
pub open spec fn is_exponent_mark(c: char) -> bool {
    c == 'e' || c == 'E'
}

/// The end of the run of digits of `s` that starts at `from`: the first index
/// at or after `from` that holds no digit, or the length of `s`.
pub open spec fn digits_end(s: Seq<char>, from: int) -> int
    decreases s.len() - from,
{
    if 0 <= from < s.len() && is_digit(s[from]) {
        digits_end(s, from + 1)
    } else {
        from
    }
}

/// Where the digits of `s` begin: after a leading sign, if there is one.
pub open spec fn after_sign(s: Seq<char>, at: int) -> int {
    if 0 <= at < s.len() && is_sign(s[at]) {
        at + 1
    } else {
        at
    }
}

/// Whether a minus sign stands at `at`.
pub open spec fn minus_at(s: Seq<char>, at: int) -> bool {
    0 <= at < s.len() && s[at] == '-'
}

/// The layout of a numeral: where each of its parts begins and ends.
///
/// A numeral is an optional sign, digits with at most one point among them
/// (at least one digit in all), and an optional exponent: `e` or `E`, an
/// optional sign, and at least one digit.
pub struct Layout {
    pub int_start: int,
    pub int_end: int,
    pub frac_start: int,
    pub frac_end: int,
    pub exp_start: int,
    pub exp_end: int,
}

/// The layout that `s` has when read from the left as a numeral.  Whether `s`
/// is one is decided by `well_formed`.
pub open spec fn layout_of(s: Seq<char>) -> Layout {
    let int_start = after_sign(s, 0);
    let int_end = digits_end(s, int_start);
    let frac_start = if int_end < s.len() && s[int_end] == '.' {
        int_end + 1
    } else {
        int_end
    };
    let frac_end = digits_end(s, frac_start);
    let exp_start = if frac_end < s.len() && is_exponent_mark(s[frac_end]) {
        after_sign(s, frac_end + 1)
    } else {
        frac_end
    };
    let exp_end = digits_end(s, exp_start);
    Layout { int_start, int_end, frac_start, frac_end, exp_start, exp_end }
}

/// Whether `s`, laid out as `l`, is a numeral: it has a digit before its
/// exponent, an exponent that is announced has a digit, and nothing follows.
pub open spec fn well_formed(s: Seq<char>, l: Layout) -> bool {
    &&& (l.int_end - l.int_start) + (l.frac_end - l.frac_start) >= 1
    &&& l.exp_start > l.frac_end ==> l.exp_end > l.exp_start
    &&& l.exp_end == s.len()
}

/// The digits of the numeral before its exponent, the point left out.
pub open spec fn mantissa_digits(s: Seq<char>, l: Layout) -> Seq<char> {
    s.subrange(l.int_start, l.int_end) + s.subrange(l.frac_start, l.frac_end)
}

/// The exponent that the numeral states, zero if it states none.
pub open spec fn stated_exponent(s: Seq<char>, l: Layout) -> int {
    let e = digits_value(s.subrange(l.exp_start, l.exp_end)) as int;
    if minus_at(s, l.frac_end + 1) {
        -e
    } else {
        e
    }
}

/// The value of `s` read as a decimal numeral, or `None` if it is not one.
pub open spec fn parse_decimal(s: Seq<char>) -> Option<Decimal> {
    let l = layout_of(s);
    if well_formed(s, l) {
        Some(
            Decimal {
                negative: minus_at(s, 0),
                mantissa: digits_value(mantissa_digits(s, l)),
                exponent: stated_exponent(s, l) - (l.frac_end - l.frac_start),
            },
        )
    } else {
        None
    }
}

/// Whether `c` is the letter `lower`, as a small or as a capital letter.
pub open spec fn is_letter(c: char, lower: char) -> bool {
    c == lower || c as int + 32 == lower as int
}

/// Whether `s` from `from` on spells `word`, in small or capital letters.
pub open spec fn spells(s: Seq<char>, from: int, word: Seq<char>) -> bool {
    &&& s.len() - from == word.len()
    &&& forall|i: int| 0 <= i < word.len() ==> is_letter(#[trigger] s[from + i], word[i])
}

/// Whether `s` is the name of an amount without end: `inf` or `infinity`,
/// behind a sign or without one.
pub open spec fn is_infinite(s: Seq<char>) -> bool {
    let from = after_sign(s, 0);
    spells(s, from, seq!['i', 'n', 'f']) || spells(
        s,
        from,
        seq!['i', 'n', 'f', 'i', 'n', 'i', 't', 'y'],
    )
}

/// The amount that the text `s` denotes in sub-units of which `unit` make
/// one.  A numeral denotes its value times `unit`, rounded toward zero and
/// held to the range of amounts; so an amount below zero is held as zero, and
/// an amount without end as `MAX_AMOUNT`.  Any other text denotes nothing,
/// which is zero.
pub open spec fn amount_of(s: Seq<char>, unit: nat) -> int {
    if is_infinite(s) {
        if minus_at(s, 0) {
            0
        } else {
            MAX_AMOUNT as int
        }
    } else {
        match parse_decimal(s) {
            Some(d) => saturate(d.times(unit)),
            None => 0,
        }
    }
}

/// The smaller of two numbers.
pub open spec fn least(a: int, b: int) -> int {
    if a <= b {
        a
    } else {
        b
    }
}

/// A power of ten is at least one.
proof fn lemma_pow10_positive(n: nat)
    ensures
        pow10(n) >= 1,
    decreases n,
{
    if n > 0 {
        lemma_pow10_positive((n - 1) as nat);
    }
}

/// Powers of ten multiply as their exponents add.
proof fn lemma_pow10_adds(a: nat, b: nat)
    ensures
        pow10(a + b) == pow10(a) * pow10(b),
    decreases b,
{
    if b == 0 {
        assert(pow10(a) * 1 == pow10(a));
    } else {
        lemma_pow10_adds(a, (b - 1) as nat);
        assert(pow10(a + b) == 10 * pow10((a + b - 1) as nat));
        assert(10 * (pow10(a) * pow10((b - 1) as nat)) == pow10(a) * (10 * pow10((b - 1) as nat)))
            by (nonlinear_arith);
    }
}

/// A larger exponent gives no smaller power of ten.
proof fn lemma_pow10_increases(a: nat, b: nat)
    requires
        a <= b,
    ensures
        pow10(a) <= pow10(b),
    decreases b,
{
    if a < b {
        lemma_pow10_increases(a, (b - 1) as nat);
    }
}

/// One more digit at the end: ten times the number, and the digit.
proof fn lemma_digits_value_push(s: Seq<char>, c: char)
    ensures
        digits_value(s.push(c)) == 10 * digits_value(s) + digit_value(c),
{
    assert(s.push(c).drop_last() =~= s);
}

/// Digits behind digits: the first number shifted by the length of the
/// second, and the second.
proof fn lemma_digits_value_concat(a: Seq<char>, b: Seq<char>)
    ensures
        digits_value(a + b) == digits_value(a) * pow10(b.len()) + digits_value(b),
    decreases b.len(),
{
    if b.len() == 0 {
        assert(a + b =~= a);
        assert(digits_value(a) * 1 == digits_value(a));
    } else {
        let front = b.drop_last();
        assert((a + b).drop_last() =~= a + front);
        assert((a + b).last() == b.last());
        lemma_digits_value_concat(a, front);
        let x = digits_value(a) as int;
        let p = pow10(front.len()) as int;
        let y = digits_value(front) as int;
        assert(10 * (x * p + y) == x * (10 * p) + 10 * y) by (nonlinear_arith);
    }
}

/// As many digits as `s` has write a number below ten to that power.
proof fn lemma_digits_value_below(s: Seq<char>)
    requires
        all_digits(s),
    ensures
        digits_value(s) < pow10(s.len()),
    decreases s.len(),
{
    if s.len() > 0 {
        assert(all_digits(s.drop_last()));
        lemma_digits_value_below(s.drop_last());
        assert(is_digit(s.last()));
    }
}

/// Counted in single units, a value is the whole number of times that
/// `unit` goes into it counted in sub-units of which `unit` make one.
pub proof fn lemma_scaled_by_unit(mantissa: nat, exponent: int, unit: nat)
    requires
        unit >= 1,
    ensures
        scaled(mantissa, exponent, 1) == scaled(mantissa, exponent, unit) / unit,
{
    let m = mantissa as int;
    let u = unit as int;
    if exponent >= 0 {
        let p = pow10(exponent as nat) as int;
        assert(m * u * p == u * (m * p)) by (nonlinear_arith);
        assert(m * 1 * p == m * p) by (nonlinear_arith);
        lemma_div_multiples_vanish(m * p, u);
    } else {
        let p = pow10((-exponent) as nat) as int;
        lemma_pow10_positive((-exponent) as nat);
        assert(0 <= m * u) by (nonlinear_arith)
            requires
                0 <= m,
                0 <= u,
        ;
        lemma_div_denominator(m * u, p, u);
        lemma_div_multiples_vanish_quotient(u, m, p);
        assert(u * m == m * u) by (nonlinear_arith);
        assert(u * p == p * u) by (nonlinear_arith);
        assert(m * 1 == m);
    }
}

/// The whole number of units in the fraction `0.s`.
spec fn fraction_units(s: Seq<char>, unit: nat) -> nat {
    (digits_value(s) * unit) / pow10(s.len())
}

/// One step of reading a fraction from its last digit to its first: the
/// whole number of units in `0.s` is got from that in `0.s'`, where `s'` is `s`
/// without its first digit.
proof fn lemma_fraction_step(s: Seq<char>, unit: nat)
    requires
        s.len() > 0,
        all_digits(s),
    ensures
        fraction_units(s, unit) == (digit_value(s[0]) * unit + fraction_units(
            s.drop_first(),
            unit,
        )) / 10,
        fraction_units(s.drop_first(), unit) < unit || unit == 0,
{
    let rest = s.drop_first();
    let head = seq![s[0]];
    assert(s =~= head + rest);
    lemma_digits_value_concat(head, rest);
    assert(head.drop_last() =~= Seq::<char>::empty());
    assert(digits_value(head.drop_last()) == 0);
    assert(digits_value(head) == digit_value(s[0]));
    let b = pow10(rest.len()) as int;
    lemma_pow10_positive(rest.len());
    let d = digit_value(s[0]) as int;
    let v = digits_value(rest) as int;
    let u = unit as int;
    let x = (digits_value(s) * unit) as int;
    assert(x == v * u + (d * u) * b) by (nonlinear_arith)
        requires
            x == (d * b + v) * u,
    ;
    lemma_hoist_over_denominator(v * u, d * u, b as nat);
    assert(x / b == d * u + (v * u) / b);
    assert(0 <= x) by (nonlinear_arith)
        requires
            x == (d * b + v) * u,
            0 <= d,
            0 <= b,
            0 <= v,
            0 <= u,
    ;
    lemma_div_denominator(x, b, 10);
    assert(pow10(s.len()) == b * 10);
    assert(all_digits(rest));
    lemma_digits_value_below(rest);
    if unit > 0 {
        assert(v * u < u * b) by (nonlinear_arith)
            requires
                0 <= v < b,
                0 < u,
        ;
        assert((v * u) / b < u) by (nonlinear_arith)
            requires
                0 <= v * u < u * b,
                0 < b,
        ;
    }
}

/// The digit of a character, as a machine number.
fn digit_of(c: char) -> (d: u8)
    requires
        is_digit(c),
    ensures
        d == digit_value(c),
        d <= 9,
{
    (c as u32 - '0' as u32) as u8
}

/// Whether `c` is a decimal digit.
fn is_digit_char(c: char) -> (b: bool)
    ensures
        b == is_digit(c),
{
    '0' <= c && c <= '9'
}

/// The whole number of units in the numeral written by the first `end`
/// digits, held to `MAX_AMOUNT`.
fn whole_part(digits: &Vec<char>, end: usize, unit: u64) -> (acc: u128)
    requires
        end <= digits.len(),
        all_digits(digits@),
        1 <= unit <= MAX_UNIT,
    ensures
        acc == least(MAX_AMOUNT as int, (digits_value(digits@.take(end as int)) * unit) as int),
{
    let mut acc: u128 = 0;
    let mut i: usize = 0;
    proof {
        assert(digits@.take(0) =~= Seq::<char>::empty());
        assert(digits_value(digits@.take(0)) == 0);
    }
    while i < end
        invariant
            i <= end <= digits.len(),
            all_digits(digits@),
            1 <= unit <= MAX_UNIT,
            acc == least(MAX_AMOUNT as int, (digits_value(digits@.take(i as int)) * unit) as int),
        decreases end - i,
    {
        let d = digit_of(digits[i]);
        proof {
            let before = digits@.take(i as int);
            assert(digits@.take(i + 1) =~= before.push(digits@[i as int]));
            lemma_digits_value_push(before, digits@[i as int]);
            let x = digits_value(before) as int;
            let u = unit as int;
            assert((10 * x + d) * u == 10 * (x * u) + d * u) by (nonlinear_arith);
            assert(0 <= x * u) by (nonlinear_arith)
                requires
                    0 <= x,
                    0 <= u,
            ;
            assert(d * u <= 9 * MAX_UNIT) by (nonlinear_arith)
                requires
                    0 <= d <= 9,
                    0 <= u <= MAX_UNIT,
            ;
        }
        let next: u128 = acc * 10 + (d as u128) * (unit as u128);
        acc = if next > MAX_AMOUNT as u128 {
            MAX_AMOUNT as u128
        } else {
            next
        };
        i += 1;
    }
    acc
}

/// The whole number of units in the fraction written by the digits from
/// `start` on, read as standing directly behind the point.
fn fraction_part(digits: &Vec<char>, start: usize, unit: u64) -> (r: u64)
    requires
        start <= digits.len(),
        all_digits(digits@),
        1 <= unit <= MAX_UNIT,
    ensures
        r == fraction_units(digits@.skip(start as int), unit as nat),
        r < unit,
{
    let mut r: u64 = 0;
    let mut i: usize = digits.len();
    proof {
        let none = digits@.skip(i as int);
        assert(none =~= Seq::<char>::empty());
        assert(digits_value(none) == 0);
        assert(pow10(none.len()) == 1);
    }
    while i > start
        invariant
            start <= i <= digits.len(),
            all_digits(digits@),
            1 <= unit <= MAX_UNIT,
            r == fraction_units(digits@.skip(i as int), unit as nat),
            r < unit,
        decreases i,
    {
        i -= 1;
        let d = digit_of(digits[i]);
        proof {
            let s = digits@.skip(i as int);
            assert(s.drop_first() =~= digits@.skip(i + 1));
            assert(all_digits(s));
            lemma_fraction_step(s, unit as nat);
            assert(d * unit <= 9 * unit) by (nonlinear_arith)
                requires
                    0 <= d <= 9,
                    0 <= unit,
            ;
        }
        r = ((d as u64) * unit + r) / 10;
    }
    r
}

/// Ten to the twentieth is beyond every amount and every unit.
proof fn lemma_pow10_twenty()
    ensures
        pow10(20) == 100_000_000_000_000_000_000,
{
    reveal_with_fuel(pow10, 21);
}

/// `acc * 10^exact`, held to `MAX_AMOUNT`.  `count` stands for `exact`: it is
/// `exact` itself, or at least twenty, from where on the result is the same.
fn raise(acc: u128, count: u128, Ghost(exact): Ghost<nat>) -> (r: u128)
    requires
        acc <= MAX_AMOUNT,
        count <= exact,
        count == exact || count >= 20,
    ensures
        r == least(MAX_AMOUNT as int, (acc * pow10(exact)) as int),
{
    let mut r: u128 = acc;
    let mut j: u128 = 0;
    proof {
        assert(pow10(0) == 1);
        assert(acc * 1 == acc);
    }
    while j < count && r != 0 && r < MAX_AMOUNT as u128
        invariant
            j <= count,
            r == least(MAX_AMOUNT as int, (acc * pow10(j as nat)) as int),
        decreases count - j,
    {
        proof {
            let p = pow10(j as nat) as int;
            assert(acc * (10 * p) == (acc * p) * 10) by (nonlinear_arith);
        }
        let next: u128 = r * 10;
        r = if next > MAX_AMOUNT as u128 {
            MAX_AMOUNT as u128
        } else {
            next
        };
        j += 1;
    }
    proof {
        let a = acc as int;
        let pj = pow10(j as nat) as int;
        let pe = pow10(exact) as int;
        lemma_pow10_increases(j as nat, exact);
        lemma_pow10_positive(j as nat);
        if r == 0 {
            assert(a == 0) by (nonlinear_arith)
                requires
                    a * pj == 0,
                    pj >= 1,
                    a >= 0,
            ;
            assert(a * pe == 0) by (nonlinear_arith)
                requires
                    a == 0,
            ;
        } else if r == MAX_AMOUNT {
            assert(a * pe >= a * pj) by (nonlinear_arith)
                requires
                    pe >= pj,
                    a >= 0,
            ;
        } else if j < exact {
            lemma_pow10_twenty();
            lemma_pow10_increases(20, j as nat);
            assert(a != 0) by (nonlinear_arith)
                requires
                    a * pj != 0,
            ;
            assert(a * pj >= pj) by (nonlinear_arith)
                requires
                    a >= 1,
                    pj >= 0,
            ;
        }
    }
    r
}

/// `r0 / 10^exact`.  `count` stands for `exact` as in `raise`.
fn lower(r0: u64, count: u128, Ghost(exact): Ghost<nat>) -> (r: u64)
    requires
        r0 <= MAX_UNIT,
        count <= exact,
        count == exact || count >= 20,
    ensures
        r == r0 as nat / pow10(exact),
{
    let mut r: u64 = r0;
    let mut j: u128 = 0;
    proof {
        assert(pow10(0) == 1);
    }
    while j < count && r != 0
        invariant
            j <= count,
            r == r0 as nat / pow10(j as nat),
        decreases count - j,
    {
        proof {
            lemma_pow10_positive(j as nat);
            lemma_div_denominator(r0 as int, pow10(j as nat) as int, 10);
            assert(pow10(j as nat) * 10 == pow10((j + 1) as nat));
        }
        r = r / 10;
        j += 1;
    }
    proof {
        lemma_pow10_increases(j as nat, exact);
        lemma_pow10_positive(j as nat);
        if r == 0 {
            lemma_small_div_converse(r0 as int, pow10(j as nat) as int);
            lemma_basic_div(r0 as int, pow10(exact) as int);
        } else if j < exact {
            lemma_pow10_twenty();
            lemma_pow10_increases(20, j as nat);
            lemma_basic_div(r0 as int, pow10(j as nat) as int);
        }
    }
    r
}

/// `magnitude`, negated when `negative`.
pub open spec fn signed(negative: bool, magnitude: nat) -> int {
    if negative {
        -(magnitude as int)
    } else {
        magnitude as int
    }
}

/// The amount that a numeral without sign denotes: `digits` are its digits
/// before the exponent, of which the last `frac_len` stand behind the point,
/// and its stated exponent is `stated`, negated when `exp_negative`.  The
/// exponent comes as `exp_magnitude`, held to `EXPONENT_CAP`.
fn scale_digits(
    digits: &Vec<char>,
    frac_len: usize,
    exp_negative: bool,
    exp_magnitude: u128,
    unit: u64,
    Ghost(stated): Ghost<nat>,
) -> (r: i64)
    requires
        all_digits(digits@),
        frac_len <= digits.len(),
        1 <= unit <= MAX_UNIT,
        exp_magnitude == least(EXPONENT_CAP as int, stated as int),
    ensures
        r == least(
            MAX_AMOUNT as int,
            scaled(digits_value(digits@), signed(exp_negative, stated) - frac_len, unit as nat) as int,
        ),
{
    let len = digits.len();
    let ghost m = digits_value(digits@) as int;
    let ghost u = unit as int;
    proof {
        assert(0 <= m * u) by (nonlinear_arith)
            requires
                0 <= m,
                0 <= u,
        ;
    }
    if !exp_negative && exp_magnitude >= frac_len as u128 {
        let whole = whole_part(digits, len, unit);
        let ghost exact = (stated - frac_len) as nat;
        let r = raise(whole, exp_magnitude - frac_len as u128, Ghost(exact));
        proof {
            assert(digits@.take(len as int) =~= digits@);
            let p = pow10(exact) as int;
            lemma_pow10_positive(exact);
            assert((m * u) * p >= m * u) by (nonlinear_arith)
                requires
                    p >= 1,
                    m * u >= 0,
            ;
            assert(MAX_AMOUNT * p >= MAX_AMOUNT) by (nonlinear_arith)
                requires
                    p >= 1,
            ;
        }
        r as i64
    } else {
        let right: u128 = if exp_negative {
            frac_len as u128 + exp_magnitude
        } else {
            frac_len as u128 - exp_magnitude
        };
        let ghost exact_right: nat = if exp_negative {
            (frac_len + stated) as nat
        } else {
            (frac_len - stated) as nat
        };
        proof {
            lemma_pow10_positive(exact_right);
        }
        if right <= len as u128 {
            let k = len - right as usize;
            let whole = whole_part(digits, k, unit);
            let frac = fraction_part(digits, k, unit);
            let sum = whole + frac as u128;
            proof {
                let before = digits@.take(k as int);
                let behind = digits@.skip(k as int);
                assert(digits@ =~= before + behind);
                lemma_digits_value_concat(before, behind);
                let iv = digits_value(before) as int;
                let fv = digits_value(behind) as int;
                let p = pow10(exact_right) as int;
                assert(m * u == fv * u + (iv * u) * p) by (nonlinear_arith)
                    requires
                        m == iv * p + fv,
                ;
                lemma_hoist_over_denominator(fv * u, iv * u, p as nat);
                assert((m * u) / p == iv * u + frac);
                if exact_right == 0 {
                    assert(p == 1);
                    assert((m * u) * p == m * u) by (nonlinear_arith)
                        requires
                            p == 1,
                    ;
                }
            }
            if sum > MAX_AMOUNT as u128 {
                MAX_AMOUNT
            } else {
                sum as i64
            }
        } else {
            let r0 = fraction_part(digits, 0, unit);
            let ghost extra = (exact_right - len) as nat;
            let r = lower(r0, right - len as u128, Ghost(extra));
            proof {
                assert(digits@.skip(0) =~= digits@);
                lemma_pow10_adds(len as nat, extra);
                lemma_pow10_positive(len as nat);
                lemma_pow10_positive(extra);
                lemma_div_denominator(m * u, pow10(len as nat) as int, pow10(extra) as int);
            }
            r as i64
        }
    }
}

/// Reads the run of digits of `s` that starts at `from`, adds them to
/// `out`, and returns where the run ends.
fn scan_digits(s: &Vec<char>, from: usize, out: &mut Vec<char>) -> (end: usize)
    requires
        from <= s.len(),
    ensures
        end == digits_end(s@, from as int),
        from <= end <= s.len(),
        end == s.len() || !is_digit(s@[end as int]),
        all_digits(s@.subrange(from as int, end as int)),
        final(out)@ == old(out)@ + s@.subrange(from as int, end as int),
{
    let mut i: usize = from;
    while i < s.len() && is_digit_char(s[i])
        invariant
            from <= i <= s.len(),
            digits_end(s@, from as int) == digits_end(s@, i as int),
            all_digits(s@.subrange(from as int, i as int)),
            out@ == old(out)@ + s@.subrange(from as int, i as int),
        decreases s.len() - i,
    {
        out.push(s[i]);
        proof {
            let run = s@.subrange(from as int, i as int);
            let longer = s@.subrange(from as int, i + 1);
            assert(longer =~= run.push(s@[i as int]));
            assert forall|j: int| 0 <= j < longer.len() implies is_digit(#[trigger] longer[j]) by {
                if j < run.len() {
                    assert(longer[j] == run[j]);
                }
            }
            assert(out@ =~= old(out)@ + longer);
        }
        i += 1;
    }
    i
}

/// Reads the run of digits of `s` that starts at `from` as a number held to
/// `EXPONENT_CAP`, and returns where the run ends and that number.
fn scan_exponent(s: &Vec<char>, from: usize) -> (r: (usize, u128))
    requires
        from <= s.len(),
    ensures
        r.0 == digits_end(s@, from as int),
        from <= r.0 <= s.len(),
        r.1 == least(
            EXPONENT_CAP as int,
            digits_value(s@.subrange(from as int, r.0 as int)) as int,
        ),
{
    let mut i: usize = from;
    let mut value: u128 = 0;
    proof {
        assert(digits_value(s@.subrange(from as int, i as int)) == 0);
    }
    while i < s.len() && is_digit_char(s[i])
        invariant
            from <= i <= s.len(),
            digits_end(s@, from as int) == digits_end(s@, i as int),
            value == least(
                EXPONENT_CAP as int,
                digits_value(s@.subrange(from as int, i as int)) as int,
            ),
        decreases s.len() - i,
    {
        let d = digit_of(s[i]);
        proof {
            let run = s@.subrange(from as int, i as int);
            assert(s@.subrange(from as int, i + 1) =~= run.push(s@[i as int]));
            lemma_digits_value_push(run, s@[i as int]);
        }
        let next: u128 = value * 10 + d as u128;
        value = if next > EXPONENT_CAP {
            EXPONENT_CAP
        } else {
            next
        };
        i += 1;
    }
    (i, value)
}

/// Whether `c` is a sign.
fn is_sign_char(c: char) -> (b: bool)
    ensures
        b == is_sign(c),
{
    c == '+' || c == '-'
}

/// Whether `c` is the letter `lower`, small or capital.
fn is_letter_char(c: char, lower: char) -> (b: bool)
    requires
        'a' <= lower <= 'z',
    ensures
        b == is_letter(c, lower),
{
    c == lower || (c as u32) + 32 == lower as u32
}

/// Whether `s` from `from` on spells `inf` or `infinity`.
fn spells_infinity(s: &Vec<char>, from: usize) -> (b: bool)
    requires
        from <= s.len(),
    ensures
        b == (spells(s@, from as int, seq!['i', 'n', 'f']) || spells(
            s@,
            from as int,
            seq!['i', 'n', 'f', 'i', 'n', 'i', 't', 'y'],
        )),
{
    let left = s.len() - from;
    if left == 3 {
        let b = is_letter_char(s[from], 'i') && is_letter_char(s[from + 1], 'n') && is_letter_char(
            s[from + 2],
            'f',
        );
        proof {
            let word = seq!['i', 'n', 'f'];
            if !b {
                assert(!is_letter(s@[from + 0], word[0]) || !is_letter(s@[from + 1], word[1])
                    || !is_letter(s@[from + 2], word[2]));
            }
        }
        b
    } else if left == 8 {
        let b = is_letter_char(s[from], 'i') && is_letter_char(s[from + 1], 'n') && is_letter_char(
            s[from + 2],
            'f',
        ) && is_letter_char(s[from + 3], 'i') && is_letter_char(s[from + 4], 'n')
            && is_letter_char(s[from + 5], 'i') && is_letter_char(s[from + 6], 't')
            && is_letter_char(s[from + 7], 'y');
        proof {
            let word = seq!['i', 'n', 'f', 'i', 'n', 'i', 't', 'y'];
            if !b {
                assert(!is_letter(s@[from + 0], word[0]) || !is_letter(s@[from + 1], word[1])
                    || !is_letter(s@[from + 2], word[2]) || !is_letter(s@[from + 3], word[3])
                    || !is_letter(s@[from + 4], word[4]) || !is_letter(s@[from + 5], word[5])
                    || !is_letter(s@[from + 6], word[6]) || !is_letter(s@[from + 7], word[7]));
            }
        }
        b
    } else {
        false
    }
}

/// The amount that the text `numeral` denotes in sub-units of which `unit`
/// make one.
pub fn amount(numeral: &Vec<char>, unit: u64) -> (r: i64)
    requires
        1 <= unit <= MAX_UNIT,
    ensures
        r == amount_of(numeral@, unit as nat),
{
    let n = numeral.len();
    let negative = n > 0 && numeral[0] == '-';
    let int_start: usize = if n > 0 && is_sign_char(numeral[0]) {
        1
    } else {
        0
    };
    if spells_infinity(numeral, int_start) {
        return if negative {
            0
        } else {
            MAX_AMOUNT
        };
    }
    let mut digits: Vec<char> = Vec::new();
    let int_end = scan_digits(numeral, int_start, &mut digits);
    let frac_start: usize = if int_end < n && numeral[int_end] == '.' {
        int_end + 1
    } else {
        int_end
    };
    let frac_end = scan_digits(numeral, frac_start, &mut digits);
    let marked = frac_end < n && (numeral[frac_end] == 'e' || numeral[frac_end] == 'E');
    let exp_negative = marked && frac_end + 1 < n && numeral[frac_end + 1] == '-';
    let exp_start: usize = if marked {
        if frac_end + 1 < n && is_sign_char(numeral[frac_end + 1]) {
            frac_end + 2
        } else {
            frac_end + 1
        }
    } else {
        frac_end
    };
    let (exp_end, exp_magnitude) = scan_exponent(numeral, exp_start);
    let ghost l = layout_of(numeral@);
    assert(l == Layout {
        int_start: int_start as int,
        int_end: int_end as int,
        frac_start: frac_start as int,
        frac_end: frac_end as int,
        exp_start: exp_start as int,
        exp_end: exp_end as int,
    });
    assert(digits@ =~= mantissa_digits(numeral@, l));
    if digits.len() == 0 || (exp_start > frac_end && exp_end == exp_start) || exp_end != n {
        return 0;
    }
    if negative {
        return 0;
    }
    let ghost stated = digits_value(numeral@.subrange(exp_start as int, exp_end as int));
    proof {
        assert(all_digits(digits@));
        assert(well_formed(numeral@, l));
        assert(exp_negative == minus_at(numeral@, l.frac_end + 1));
        assert(stated_exponent(numeral@, l) == signed(exp_negative, stated));
    }
    scale_digits(&digits, frac_end - frac_start, exp_negative, exp_magnitude, unit, Ghost(stated))
}

} // verus!
