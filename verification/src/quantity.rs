//! Resource quantities: from their textual encodings to whole sub-units.
//!
//! Compute is counted in millicores and memory in bytes, so that every
//! encoding with a whole number before its suffix is read without loss.  An
//! encoding that cannot be read counts as zero: one bad field never stops the
//! reading of an inventory.
use crate::decimal::{
    all_digits, amount, amount_of, digits_end, digits_value, is_digit, is_infinite, is_letter,
    layout_of, lemma_scaled_by_unit, mantissa_digits, parse_decimal, pow10, saturate, Decimal,
    MAX_AMOUNT,
};
use crate::text::{lemma_nat_text_reads_back, nat_text};
use vstd::prelude::*;

verus! {

/// Millicores in one core.
pub const MILLICORES_PER_CORE: u64 = 1000;

/// Bytes in one mebibyte.
pub const BYTES_PER_MEBIBYTE: i64 = 0x10_0000;

/// Bytes in one gibibyte.
pub const BYTES_PER_GIBIBYTE: i64 = 0x4000_0000;

/// The millicores that a compute encoding denotes.  With the suffix `m` the
/// number before it counts millicores; without it the number counts cores.
pub open spec fn millicores_of(raw: Seq<char>) -> int {
    if raw.len() > 0 && raw.last() == 'm' {
        amount_of(raw.drop_last(), 1)
    } else {
        amount_of(raw, MILLICORES_PER_CORE as nat)
    }
}

/// The bytes in one unit of the binary suffix that starts with `c`
/// (`Ki`, `Mi`, `Gi`, `Ti`), or zero if there is none.
pub open spec fn binary_unit(c: char) -> nat {
    if c == 'K' {
        0x400
    } else if c == 'M' {
        0x10_0000
    } else if c == 'G' {
        0x4000_0000
    } else if c == 'T' {
        0x100_0000_0000
    } else {
        0
    }
}

/// The bytes in one unit of the decimal suffix `c` (`K`, `M`, `G`, `T`), or
/// zero if there is none.
pub open spec fn decimal_unit(c: char) -> nat {
    if c == 'K' {
        1_000
    } else if c == 'M' {
        1_000_000
    } else if c == 'G' {
        1_000_000_000
    } else if c == 'T' {
        1_000_000_000_000
    } else {
        0
    }
}

/// Whether `raw` ends in one of the binary suffixes.
pub open spec fn has_binary_suffix(raw: Seq<char>) -> bool {
    raw.len() >= 2 && raw[raw.len() - 1] == 'i' && binary_unit(raw[raw.len() - 2]) > 0
}

/// Whether `raw` ends in one of the decimal suffixes.
pub open spec fn has_decimal_suffix(raw: Seq<char>) -> bool {
    raw.len() >= 1 && decimal_unit(raw[raw.len() - 1]) > 0
}

/// The bytes that a memory encoding denotes: the number before the suffix
/// times the bytes in one unit of that suffix.  Without a suffix the number
/// counts bytes.
pub open spec fn bytes_of(raw: Seq<char>) -> int {
    if has_binary_suffix(raw) {
        amount_of(raw.take(raw.len() - 2), binary_unit(raw[raw.len() - 2]))
    } else if has_decimal_suffix(raw) {
        amount_of(raw.take(raw.len() - 1), decimal_unit(raw[raw.len() - 1]))
    } else {
        amount_of(raw, 1)
    }
}

/// The whole mebibytes in `bytes`, rounded toward zero.
pub open spec fn mebibytes_in(bytes: int) -> int {
    if bytes >= 0 {
        bytes / (BYTES_PER_MEBIBYTE as int)
    } else {
        -((-bytes) / (BYTES_PER_MEBIBYTE as int))
    }
}

/// The whole number that the digits `n` write.
pub open spec fn whole(n: Seq<char>) -> int {
    digits_value(n) as int
}

/// A run of digits ends where the text ends.
pub proof fn lemma_digits_run_to_the_end(s: Seq<char>, from: int)
    requires
        all_digits(s),
        0 <= from <= s.len(),
    ensures
        digits_end(s, from) == s.len(),
    decreases s.len() - from,
{
    if from < s.len() {
        lemma_digits_run_to_the_end(s, from + 1);
    }
}

/// Digits alone are a numeral: the whole number that they write.
pub proof fn lemma_digits_are_a_numeral(s: Seq<char>)
    requires
        all_digits(s),
        s.len() > 0,
    ensures
        parse_decimal(s) == Some(
            (Decimal { negative: false, mantissa: digits_value(s), exponent: 0 }),
        ),
        forall|unit: nat| #[trigger] amount_of(s, unit) == saturate(whole(s) * unit),
{
    let l = layout_of(s);
    assert(is_digit(s[0]));
    assert(!is_infinite(s)) by {
        assert(!is_letter(s[0int + 0], 'i'));
    }
    lemma_digits_run_to_the_end(s, 0);
    lemma_digits_run_to_the_end(s, s.len() as int);
    assert(l.int_start == 0);
    assert(l.int_end == s.len());
    assert(l.frac_end == s.len());
    assert(l.exp_end == s.len());
    assert(mantissa_digits(s, l) =~= s);
    assert(s.subrange(l.exp_start, l.exp_end) =~= Seq::<char>::empty());
    assert(pow10(0) == 1);
    assert forall|unit: nat| #[trigger] amount_of(s, unit) == saturate(whole(s) * unit) by {
        assert(digits_value(s) * unit * 1 == whole(s) * unit) by (nonlinear_arith);
    }
}

/// Text without a character denotes nothing, whatever it is read as.
pub proof fn lemma_empty_is_zero()
    ensures
        millicores_of(Seq::empty()) == 0,
        bytes_of(Seq::empty()) == 0,
{
    let s = Seq::<char>::empty();
    assert(parse_decimal(s) is None);
    assert(!is_infinite(s));
}

/// A whole number `n` before the suffix `m` denotes `n` millicores, the
/// thousandth part of `n` cores; without the suffix it denotes `n` cores,
/// which are a thousand times `n` millicores.
pub proof fn lemma_whole_compute(n: Seq<char>)
    requires
        all_digits(n),
        n.len() > 0,
    ensures
        millicores_of(n + "m"@) == saturate(whole(n)),
        millicores_of(n) == saturate(whole(n) * 1000),
{
    reveal_strlit("m");
    let with = n + "m"@;
    assert(with.last() == 'm');
    assert(with.drop_last() =~= n);
    assert(is_digit(n.last()));
    lemma_digits_are_a_numeral(n);
    assert(amount_of(n, 1) == saturate(whole(n) * 1));
    assert(amount_of(n, 1000) == saturate(whole(n) * 1000));
}

/// Before a suffix a text denotes as many units of the suffix as it denotes
/// bytes without: 1024 bytes and its powers for the binary suffixes, 1000
/// bytes and its powers for the decimal ones.
pub proof fn lemma_memory_suffixes(n: Seq<char>)
    ensures
        bytes_of(n + "Ki"@) == amount_of(n, 1024),
        bytes_of(n + "Mi"@) == amount_of(n, 1024 * 1024),
        bytes_of(n + "Gi"@) == amount_of(n, 1024 * 1024 * 1024),
        bytes_of(n + "Ti"@) == amount_of(n, 1024 * 1024 * 1024 * 1024),
        bytes_of(n + "K"@) == amount_of(n, 1000),
        bytes_of(n + "M"@) == amount_of(n, 1000 * 1000),
        bytes_of(n + "G"@) == amount_of(n, 1000 * 1000 * 1000),
        bytes_of(n + "T"@) == amount_of(n, 1000 * 1000 * 1000 * 1000),
        !has_binary_suffix(n) && !has_decimal_suffix(n) ==> bytes_of(n) == amount_of(n, 1),
{
    reveal_strlit("Ki");
    reveal_strlit("Mi");
    reveal_strlit("Gi");
    reveal_strlit("Ti");
    reveal_strlit("K");
    reveal_strlit("M");
    reveal_strlit("G");
    reveal_strlit("T");
    assert((n + "Ki"@).take((n + "Ki"@).len() - 2) =~= n);
    assert((n + "Mi"@).take((n + "Mi"@).len() - 2) =~= n);
    assert((n + "Gi"@).take((n + "Gi"@).len() - 2) =~= n);
    assert((n + "Ti"@).take((n + "Ti"@).len() - 2) =~= n);
    assert((n + "K"@).take((n + "K"@).len() - 1) =~= n);
    assert((n + "M"@).take((n + "M"@).len() - 1) =~= n);
    assert((n + "G"@).take((n + "G"@).len() - 1) =~= n);
    assert((n + "T"@).take((n + "T"@).len() - 1) =~= n);
}

/// A whole number `n` before a binary suffix denotes `n` times 1024 bytes,
/// or that times 1024 again for each step from `Ki` to `Mi`, `Gi` and `Ti`.
pub proof fn lemma_whole_binary_memory(n: Seq<char>)
    requires
        all_digits(n),
        n.len() > 0,
    ensures
        bytes_of(n + "Ki"@) == saturate(whole(n) * 1024),
        bytes_of(n + "Mi"@) == saturate(whole(n) * (1024 * 1024)),
        bytes_of(n + "Gi"@) == saturate(whole(n) * (1024 * 1024 * 1024)),
        bytes_of(n + "Ti"@) == saturate(whole(n) * (1024 * 1024 * 1024 * 1024int)),
{
    reveal_strlit("Ki");
    reveal_strlit("Mi");
    reveal_strlit("Gi");
    reveal_strlit("Ti");
    lemma_digits_are_a_numeral(n);
    assert((n + "Ki"@).take((n + "Ki"@).len() - 2) =~= n);
    assert((n + "Mi"@).take((n + "Mi"@).len() - 2) =~= n);
    assert((n + "Gi"@).take((n + "Gi"@).len() - 2) =~= n);
    assert((n + "Ti"@).take((n + "Ti"@).len() - 2) =~= n);
    assert(amount_of(n, 0x400) == saturate(whole(n) * 0x400));
    assert(amount_of(n, 0x10_0000) == saturate(whole(n) * 0x10_0000));
    assert(amount_of(n, 0x4000_0000) == saturate(whole(n) * 0x4000_0000));
    assert(amount_of(n, 0x100_0000_0000) == saturate(whole(n) * 0x100_0000_0000));
}

/// A whole number `n` before a decimal suffix denotes `n` times 1000 bytes,
/// or that times 1000 again for each step from `K` to `M`, `G` and `T`; before
/// no suffix it denotes `n` bytes.
pub proof fn lemma_whole_decimal_memory(n: Seq<char>)
    requires
        all_digits(n),
        n.len() > 0,
    ensures
        bytes_of(n + "K"@) == saturate(whole(n) * 1000),
        bytes_of(n + "M"@) == saturate(whole(n) * (1000 * 1000)),
        bytes_of(n + "G"@) == saturate(whole(n) * (1000 * 1000 * 1000)),
        bytes_of(n + "T"@) == saturate(whole(n) * (1000 * 1000 * 1000 * 1000int)),
        bytes_of(n) == saturate(whole(n)),
{
    reveal_strlit("K");
    reveal_strlit("M");
    reveal_strlit("G");
    reveal_strlit("T");
    lemma_digits_are_a_numeral(n);
    assert(is_digit(n.last()));
    assert(is_digit(n[n.len() - 1]));
    assert((n + "K"@).take((n + "K"@).len() - 1) =~= n);
    assert((n + "M"@).take((n + "M"@).len() - 1) =~= n);
    assert((n + "G"@).take((n + "G"@).len() - 1) =~= n);
    assert((n + "T"@).take((n + "T"@).len() - 1) =~= n);
    assert(is_digit((n + "K"@)[(n + "K"@).len() - 2]));
    assert(is_digit((n + "M"@)[(n + "M"@).len() - 2]));
    assert(is_digit((n + "G"@)[(n + "G"@).len() - 2]));
    assert(is_digit((n + "T"@)[(n + "T"@).len() - 2]));
    assert(amount_of(n, 1) == saturate(whole(n) * 1));
    assert(amount_of(n, 1_000) == saturate(whole(n) * 1_000));
    assert(amount_of(n, 1_000_000) == saturate(whole(n) * 1_000_000));
    assert(amount_of(n, 1_000_000_000) == saturate(whole(n) * 1_000_000_000));
    assert(amount_of(n, 1_000_000_000_000) == saturate(whole(n) * 1_000_000_000_000));
}

/// With the suffix `m` a text denotes the thousandth part of what it
/// denotes without: as many millicores as it otherwise denotes cores, rounded
/// down to whole millicores.  This holds of every text whose amount is within
/// the range of amounts.
pub proof fn lemma_millicores_are_thousandths(n: Seq<char>)
    requires
        amount_of(n, 1000) < MAX_AMOUNT,
    ensures
        millicores_of(n + "m"@) == amount_of(n, 1000) / 1000,
        n.len() == 0 || n.last() != 'm' ==> millicores_of(n + "m"@) == millicores_of(n) / 1000,
{
    reveal_strlit("m");
    let with = n + "m"@;
    assert(with.last() == 'm');
    assert(with.drop_last() =~= n);
    if !is_infinite(n) {
        match parse_decimal(n) {
            Some(d) => {
                lemma_scaled_by_unit(d.mantissa, d.exponent, 1000);
            },
            None => {},
        }
    }
}

/// A whole number of millicores or of bytes, written and read again, is
/// the same number, held to the range of amounts.
pub proof fn lemma_written_amounts_read_back(n: nat)
    ensures
        millicores_of(nat_text(n) + "m"@) == saturate(n as int),
        bytes_of(nat_text(n)) == saturate(n as int),
{
    lemma_nat_text_reads_back(n);
    lemma_whole_compute(nat_text(n));
    lemma_whole_decimal_memory(nat_text(n));
}

/// The characters of `s`, one by one.
pub fn chars_of(s: &str) -> (v: Vec<char>)
    ensures
        v@ == s@,
{
    let mut v: Vec<char> = Vec::new();
    for c in it: s.chars()
        invariant
            v@ == it.seq().take(it.index() as int),
            it.seq() == s@,
    {
        v.push(c);
    }
    v
}

/// The bytes in one unit of the binary suffix that starts with `c`.
fn binary_unit_of(c: char) -> (u: u64)
    ensures
        u == binary_unit(c),
{
    if c == 'K' {
        0x400
    } else if c == 'M' {
        0x10_0000
    } else if c == 'G' {
        0x4000_0000
    } else if c == 'T' {
        0x100_0000_0000
    } else {
        0
    }
}

/// The bytes in one unit of the decimal suffix `c`.
fn decimal_unit_of(c: char) -> (u: u64)
    ensures
        u == decimal_unit(c),
{
    if c == 'K' {
        1_000
    } else if c == 'M' {
        1_000_000
    } else if c == 'G' {
        1_000_000_000
    } else if c == 'T' {
        1_000_000_000_000
    } else {
        0
    }
}

/// Reads a compute encoding as millicores.
pub fn quantity_to_millicores(raw: &str) -> (r: i64)
    ensures
        r == millicores_of(raw@),
        0 <= r <= MAX_AMOUNT,
{
    let mut chars = chars_of(raw);
    let n = chars.len();
    if n > 0 && chars[n - 1] == 'm' {
        chars.pop();
        amount(&chars, 1)
    } else {
        amount(&chars, MILLICORES_PER_CORE)
    }
}

/// Reads a memory encoding as bytes.
pub fn quantity_to_bytes(raw: &str) -> (r: i64)
    ensures
        r == bytes_of(raw@),
        0 <= r <= MAX_AMOUNT,
{
    let mut chars = chars_of(raw);
    let n = chars.len();
    if n >= 2 && chars[n - 1] == 'i' && binary_unit_of(chars[n - 2]) > 0 {
        let unit = binary_unit_of(chars[n - 2]);
        chars.truncate(n - 2);
        amount(&chars, unit)
    } else if n >= 1 && decimal_unit_of(chars[n - 1]) > 0 {
        let unit = decimal_unit_of(chars[n - 1]);
        chars.truncate(n - 1);
        amount(&chars, unit)
    } else {
        amount(&chars, 1)
    }
}

/// The whole mebibytes in an amount of bytes, rounded toward zero.
pub fn to_mebibytes(bytes: i64) -> (r: i64)
    ensures
        r == mebibytes_in(bytes as int),
        bytes >= 0 ==> 0 <= r <= bytes,
{
    if bytes >= 0 {
        bytes / BYTES_PER_MEBIBYTE
    } else if bytes == i64::MIN {
        -0x800_0000_0000
    } else {
        -((-bytes) / BYTES_PER_MEBIBYTE)
    }
}

/// Reads a memory encoding as whole mebibytes.
pub fn quantity_to_mb(raw: &str) -> (r: i64)
    ensures
        r == mebibytes_in(bytes_of(raw@)),
        0 <= r <= MAX_AMOUNT,
{
    to_mebibytes(quantity_to_bytes(raw))
}

} // verus!
