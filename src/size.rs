//! Binary-scaled human-readable byte counts.

use vstd::prelude::*;

verus! {

/// The character of one decimal digit.
pub open spec fn digit_char(d: nat) -> char {
    if d == 0 { '0' }
    else if d == 1 { '1' }
    else if d == 2 { '2' }
    else if d == 3 { '3' }
    else if d == 4 { '4' }
    else if d == 5 { '5' }
    else if d == 6 { '6' }
    else if d == 7 { '7' }
    else if d == 8 { '8' }
    else { '9' }
}

/// Decimal rendering of a natural number, without leading zeros.
pub open spec fn decimal(n: nat) -> Seq<char>
    decreases n,
{
    if n < 10 {
        seq![digit_char(n)]
    } else {
        decimal(n / 10) + seq![digit_char(n % 10)]
    }
}

/// Divides by 1024 while the value is at least 1024 and a larger unit is
/// left; returns the scaled value and the number of divisions made.
pub open spec fn scaled(n: nat, k: nat) -> (nat, nat)
    decreases 8 - k,
{
    if k >= 8 || n < 1024 {
        (n, k)
    } else {
        scaled(n / 1024, k + 1)
    }
}

/// Unit prefix after `k` divisions by 1024.
pub open spec fn unit_name(k: nat) -> Seq<char> {
    if k == 0 { ""@ }
    else if k == 1 { "Ki"@ }
    else if k == 2 { "Mi"@ }
    else if k == 3 { "Gi"@ }
    else if k == 4 { "Ti"@ }
    else if k == 5 { "Pi"@ }
    else if k == 6 { "Ei"@ }
    else if k == 7 { "Zi"@ }
    else { "Yi"@ }
}

/// Index of the unit in which `b` bytes are shown.
pub open spec fn size_unit(b: nat) -> nat {
    scaled(b, 0).1
}

/// Text shown for `b` bytes: the truncated scaled value, the unit prefix, `B`.
pub open spec fn size_text(b: nat) -> Seq<char> {
    decimal(scaled(b, 0).0) + unit_name(scaled(b, 0).1) + "B"@
}

fn digit_str(d: u64) -> (r: &'static str)
    requires
        d < 10,
    ensures
        r@ == seq![digit_char(d as nat)],
{
    proof {
        reveal_strlit("0");
        reveal_strlit("1");
        reveal_strlit("2");
        reveal_strlit("3");
        reveal_strlit("4");
        reveal_strlit("5");
        reveal_strlit("6");
        reveal_strlit("7");
        reveal_strlit("8");
        reveal_strlit("9");
    }
    if d == 0 { "0" }
    else if d == 1 { "1" }
    else if d == 2 { "2" }
    else if d == 3 { "3" }
    else if d == 4 { "4" }
    else if d == 5 { "5" }
    else if d == 6 { "6" }
    else if d == 7 { "7" }
    else if d == 8 { "8" }
    else { "9" }
}

/// Decimal text of an unsigned integer.
pub fn decimal_string(n: u64) -> (r: String)
    ensures
        r@ == decimal(n as nat),
    decreases n,
{
    if n < 10 {
        String::from_str(digit_str(n))
    } else {
        let mut s = decimal_string(n / 10);
        s.append(digit_str(n % 10));
        s
    }
}

fn unit_str(k: usize) -> (r: &'static str)
    ensures
        r@ == unit_name(k as nat),
{
    if k == 0 { "" }
    else if k == 1 { "Ki" }
    else if k == 2 { "Mi" }
    else if k == 3 { "Gi" }
    else if k == 4 { "Ti" }
    else if k == 5 { "Pi" }
    else if k == 6 { "Ei" }
    else if k == 7 { "Zi" }
    else { "Yi" }
}

/// Formats a byte count in binary units (`1536` gives `1KiB`).
pub fn sizeof_fmt(num: u64) -> (r: String)
    ensures
        r@ == size_text(num as nat),
{
    let mut v: u64 = num;
    let mut k: usize = 0;
    while k < 8 && v >= 1024
        invariant
            k <= 8,
            scaled(v as nat, k as nat) == scaled(num as nat, 0),
        decreases 8 - k,
    {
        v = v / 1024;
        k = k + 1;
    }
    let mut s = decimal_string(v);
    s.append(unit_str(k));
    s.append("B");
    s
}

proof fn lemma_scaled_unit_monotone(a: nat, b: nat, k: nat)
    requires
        a <= b,
    ensures
        scaled(a, k).1 <= scaled(b, k).1,
        k <= scaled(a, k).1,
    decreases 8 - k,
{
    if k >= 8 || a < 1024 {
        if !(k >= 8 || b < 1024) {
            lemma_scaled_unit_monotone(b / 1024, b / 1024, k + 1);
        }
    } else {
        assert(a / 1024 <= b / 1024) by (nonlinear_arith)
            requires a <= b;
        lemma_scaled_unit_monotone(a / 1024, b / 1024, k + 1);
    }
}

/// A larger byte count is never shown in a smaller unit, and zero bytes
/// read `0B`.
pub proof fn lemma_size_unit_monotone(a: nat, b: nat)
    requires
        a <= b,
    ensures
        size_unit(a) <= size_unit(b),
        size_text(0) == "0B"@,
{
    lemma_scaled_unit_monotone(a, b, 0);
    reveal_strlit("");
    reveal_strlit("B");
    reveal_strlit("0B");
    assert(size_text(0) =~= "0B"@);
}

} // verus!
