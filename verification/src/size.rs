//! Byte counts for human readers.

use vstd::prelude::*;

use crate::parse::{all_digits, decimal_digits, digits_value, zeros_in_front};
use crate::text::{
    decimal, decimal_text, ends, filled, fill_left, filled_is_right_aligned,
};

verus! {

/// `a / b` rounded to the nearest integer, halves to the even neighbour.
pub open spec fn rounded_quotient(a: nat, b: nat) -> nat {
    let q = a / b;
    let r = a % b;
    if 2 * r > b || (2 * r == b && q % 2 == 1) {
        q + 1
    } else {
        q
    }
}

/// The distance between neighbouring double-precision values at `n`.
pub open spec fn spacing(n: nat) -> nat
    decreases n,
{
    if n < 0x20_0000_0000_0000 {
        1
    } else {
        2 * spacing(n / 2)
    }
}

/// `n` rounded to the nearest double-precision value.
pub open spec fn nearest_double(n: nat) -> nat {
    rounded_quotient(n, spacing(n)) * spacing(n)
}

/// The power of 1024 that the unit of index `i` stands for.
pub open spec fn unit_scale(i: nat) -> nat
    decreases i,
{
    if i == 0 {
        1
    } else {
        1024 * unit_scale((i - 1) as nat)
    }
}

/// The largest unit, up to PiB, that fits into `v` at least once.
pub open spec fn unit_index(v: nat) -> nat {
    if v < unit_scale(1) {
        0
    } else if v < unit_scale(2) {
        1
    } else if v < unit_scale(3) {
        2
    } else if v < unit_scale(4) {
        3
    } else if v < unit_scale(5) {
        4
    } else {
        5
    }
}

pub open spec fn unit_name(i: nat) -> Seq<char> {
    if i == 0 {
        "B"@
    } else if i == 1 {
        "KiB"@
    } else if i == 2 {
        "MiB"@
    } else if i == 3 {
        "GiB"@
    } else if i == 4 {
        "TiB"@
    } else {
        "PiB"@
    }
}

/// `h` hundredths with two decimals.
pub open spec fn hundredths(h: nat) -> Seq<char> {
    decimal(h / 100) + "."@ + filled(decimal(h % 100), 2, '0')
}

/// A byte count in the largest unit it fills: bytes exactly, larger units as
/// the nearest double with two decimals.
pub open spec fn human_size(n: nat) -> Seq<char> {
    if n < 1024 {
        decimal(n) + " B"@
    } else {
        let v = nearest_double(n);
        let i = unit_index(v);
        hundredths(rounded_quotient(v * 100, unit_scale(i))) + " "@ + unit_name(i)
    }
}

proof fn spacing_range(n: nat)
    requires
        n < 0x1_0000_0000_0000_0000,
    ensures
        n < 0x20_0000_0000_0000 ==> spacing(n) == 1,
        0x20_0000_0000_0000 <= n < 0x40_0000_0000_0000 ==> spacing(n) == 2,
        0x40_0000_0000_0000 <= n < 0x80_0000_0000_0000 ==> spacing(n) == 4,
        0x80_0000_0000_0000 <= n < 0x100_0000_0000_0000 ==> spacing(n) == 8,
        0x100_0000_0000_0000 <= n < 0x200_0000_0000_0000 ==> spacing(n) == 16,
        0x200_0000_0000_0000 <= n < 0x400_0000_0000_0000 ==> spacing(n) == 32,
        0x400_0000_0000_0000 <= n < 0x800_0000_0000_0000 ==> spacing(n) == 64,
        0x800_0000_0000_0000 <= n < 0x1000_0000_0000_0000 ==> spacing(n) == 128,
        0x1000_0000_0000_0000 <= n < 0x2000_0000_0000_0000 ==> spacing(n) == 256,
        0x2000_0000_0000_0000 <= n < 0x4000_0000_0000_0000 ==> spacing(n) == 512,
        0x4000_0000_0000_0000 <= n < 0x8000_0000_0000_0000 ==> spacing(n) == 1024,
        0x8000_0000_0000_0000 <= n ==> spacing(n) == 2048,
{
    reveal_with_fuel(spacing, 12);
}

fn spacing_of(n: u64) -> (r: u64)
    ensures
        r == spacing(n as nat),
        1 <= r <= 2048,
{
    let mut m: u64 = n;
    let mut s: u64 = 1;
    proof {
        spacing_range(n as nat);
    }
    while m >= 0x20_0000_0000_0000
        invariant
            spacing(n as nat) == s * spacing(m as nat),
            spacing(n as nat) <= 2048,
            1 <= s <= 2048,
            spacing(m as nat) >= 1,
        decreases m,
    {
        proof {
            let rest = spacing((m / 2) as nat);
            spacing_range(m as nat);
            spacing_range((m / 2) as nat);
            assert(s * (2 * rest) == (2 * s) * rest) by (nonlinear_arith);
            assert(2 * s <= (2 * s) * rest) by (nonlinear_arith)
                requires
                    rest >= 1,
                    s >= 1,
            ;
        }
        s = 2 * s;
        m = m / 2;
    }
    assert(spacing(m as nat) == 1);
    assert(s * spacing(m as nat) == s) by (nonlinear_arith)
        requires
            spacing(m as nat) == 1,
    ;
    s
}

fn rounded_division(a: u128, b: u128) -> (r: u128)
    requires
        0 < b < 0x1_0000_0000_0000_0000,
        a < 0x1_0000_0000_0000_0000_0000_0000,
    ensures
        r == rounded_quotient(a as nat, b as nat),
        r <= a / b + 1,
{
    let q: u128 = a / b;
    let m: u128 = a % b;
    assert(q <= a) by (nonlinear_arith)
        requires
            q == a / b,
            b > 0,
    ;
    if 2 * m > b || (2 * m == b && q % 2 == 1) {
        q + 1
    } else {
        q
    }
}

fn unit_label(i: u64) -> (r: &'static str)
    ensures
        r@ == unit_name(i as nat),
{
    if i == 0 {
        "B"
    } else if i == 1 {
        "KiB"
    } else if i == 2 {
        "MiB"
    } else if i == 3 {
        "GiB"
    } else if i == 4 {
        "TiB"
    } else {
        "PiB"
    }
}

/// A byte count for human readers.
pub fn humanize_bytes(n: u64) -> (r: String)
    ensures
        r@ == human_size(n as nat),
{
    if n < 1024 {
        let mut out = decimal_text(n);
        out.append(" B");
        return out;
    }
    let step: u64 = spacing_of(n);
    let steps: u128 = rounded_division(n as u128, step as u128);
    proof {
        let a = n as nat;
        let b = step as nat;
        assert(a / b <= a) by (nonlinear_arith)
            requires
                b >= 1,
        ;
        assert((a / b) * b <= a) by (nonlinear_arith)
            requires
                b >= 1,
        ;
        assert(steps * step <= (a / b) * b + b) by (nonlinear_arith)
            requires
                steps <= a / b + 1,
                step == b,
        ;
    }
    let v: u128 = steps * (step as u128);
    reveal_with_fuel(unit_scale, 6);
    let mut scale: u128 = 1;
    let mut index: u64 = 0;
    while v / scale >= 1024 && index < 5
        invariant
            index <= 5,
            index == 0 ==> scale == 1,
            index == 1 ==> scale == 1024,
            index == 2 ==> scale == 1048576,
            index == 3 ==> scale == 1073741824,
            index == 4 ==> scale == 1099511627776,
            index == 5 ==> scale == 1125899906842624,
            v >= scale || index == 0,
        decreases 5 - index,
    {
        scale = 1024 * scale;
        index = index + 1;
    }
    assert(index == unit_index(v as nat));
    assert(scale == unit_scale(index as nat));
    let h: u128 = rounded_division(v * 100, scale);
    assert(v * 100 / (scale as int) <= v * 100) by (nonlinear_arith)
        requires
            scale >= 1,
    ;
    assert(h < 0x1_0000_0000_0000_0000) by {
        if index < 5 {
            assert(v < 1024 * scale);
            assert(v * 100 / (scale as int) < 102400) by (nonlinear_arith)
                requires
                    v < 1024 * scale,
                    scale >= 1,
            ;
        } else {
            assert(v * 100 / 1125899906842624 < 0x1_0000_0000_0000);
        }
    }
    let whole = decimal_text((h / 100) as u64);
    let rest = decimal_text((h % 100) as u64);
    let mut out = whole;
    out.append(".");
    let tail = fill_left(rest.as_str(), 2, '0');
    out.append(tail.as_str());
    out.append(" ");
    out.append(unit_label(index));
    out
}

/// A count below 2^53 is a double exactly.
pub proof fn small_counts_are_exact(n: nat)
    requires
        n < 0x20_0000_0000_0000,
    ensures
        nearest_double(n) == n,
{
    assert(n / 1 == n && n % 1 == 0);
    assert(spacing(n) == 1);
    assert(rounded_quotient(n, 1) * 1 == n);
}

/// A rounded quotient is the nearest integer there is. Where two are equally
/// near, it is the even one.
pub proof fn rounded_quotient_is_nearest(a: nat, b: nat)
    requires
        b > 0,
    ensures
        ({
            let q = rounded_quotient(a, b);
            &&& 2 * (q * b) <= 2 * a + b
            &&& 2 * a <= 2 * (q * b) + b
            &&& 2 * (q * b) == 2 * a + b || 2 * a == 2 * (q * b) + b ==> q % 2 == 0
        }),
{
    let q = a / b;
    let r = a % b;
    assert(a == q * b + r && r < b) by (nonlinear_arith)
        requires
            b > 0,
            q == a / b,
            r == a % b,
    ;
    assert((q + 1) * b == q * b + b) by (nonlinear_arith);
}

/// The double that stands for a count is the count itself below 2^53, and from
/// there on differs from it by no more than one part in 2^53.
pub proof fn nearest_double_is_near(n: nat)
    requires
        n < 0x1_0000_0000_0000_0000,
    ensures
        n < 0x20_0000_0000_0000 ==> nearest_double(n) == n,
        nearest_double(n) >= n ==> (nearest_double(n) - n) * 0x20_0000_0000_0000 <= n,
        nearest_double(n) < n ==> (n - nearest_double(n)) * 0x20_0000_0000_0000 <= n,
        nearest_double(n) <= 0x1_0000_0000_0000_0000,
{
    spacing_range(n);
    let b = spacing(n);
    if n < 0x20_0000_0000_0000 {
        small_counts_are_exact(n);
    } else {
        rounded_quotient_is_nearest(n, b);
        let v = nearest_double(n);
        assert(n >= b * 0x10_0000_0000_0000);
        assert(2 * v <= 2 * n + b);
        assert(2 * n <= 2 * v + b);
        double_at_most(n);
    }
}

proof fn double_at_most(n: nat)
    requires
        0x20_0000_0000_0000 <= n < 0x1_0000_0000_0000_0000,
    ensures
        nearest_double(n) <= 0x1_0000_0000_0000_0000,
{
    spacing_range(n);
    let b = spacing(n);
    let q = rounded_quotient(n, b);
    rounded_quotient_is_nearest(n, b);
    if q * b > 0x1_0000_0000_0000_0000 {
        if b == 2048 {
            assert(q > 0x20_0000_0000_0000);
            assert(q * 2048 >= (0x20_0000_0000_0000 + 1) * 2048) by (nonlinear_arith)
                requires
                    q >= 0x20_0000_0000_0000 + 1,
            ;
        }
        assert(false);
    }
}

/// The units are powers of 1024, and the one that is chosen is the largest that
/// fits into the count, with PiB as the last.
pub proof fn unit_fits(v: nat)
    ensures
        ({
            let i = unit_index(v);
            let scale = unit_scale(i);
            &&& i <= 5
            &&& i > 0 ==> scale <= v
            &&& i < 5 ==> v < 1024 * scale
            &&& i == 0 ==> scale == 1 && unit_name(i) == "B"@
            &&& i == 1 ==> scale == 0x400 && unit_name(i) == "KiB"@
            &&& i == 2 ==> scale == 0x10_0000 && unit_name(i) == "MiB"@
            &&& i == 3 ==> scale == 0x4000_0000 && unit_name(i) == "GiB"@
            &&& i == 4 ==> scale == 0x100_0000_0000 && unit_name(i) == "TiB"@
            &&& i == 5 ==> scale == 0x4_0000_0000_0000 && unit_name(i) == "PiB"@
        }),
{
    reveal_with_fuel(unit_scale, 6);
}

/// Hundredths are shown as their whole part, a point, and two digits.
pub proof fn hundredths_stand_for(h: nat)
    ensures
        ({
            let t = hundredths(h);
            let n = t.len() as int;
            &&& n >= 4
            &&& t[n - 3] == '.'
            &&& all_digits(t.take(n - 3), 10)
            &&& all_digits(t.skip(n - 2), 10)
            &&& 100 * digits_value(t.take(n - 3), 10) + digits_value(t.skip(n - 2), 10) == h
        }),
{
    reveal_strlit(".");
    let t = hundredths(h);
    let whole = decimal(h / 100);
    let rest = filled(decimal(h % 100), 2, '0');
    decimal_digits(h / 100);
    decimal_digits(h % 100);
    zeros_in_front(decimal(h % 100), 2, 10);
    reveal_with_fuel(decimal, 3);
    filled_is_right_aligned(decimal(h % 100), 2, '0');
    assert(rest.len() == 2);
    assert(t.take(t.len() - 3) =~= whole);
    assert(t.skip(t.len() - 2) =~= rest);
}

/// A count of 1024 bytes or more is shown in the largest unit that it fills,
/// with the nearest hundredth of that unit; a smaller one is shown exactly.
pub proof fn human_size_is_nearest(n: nat) -> (r: (nat, nat))
    requires
        n < 0x1_0000_0000_0000_0000,
    ensures
        n < 1024 ==> human_size(n) == decimal(n) + " B"@,
        n >= 1024 ==> {
            let (h, unit) = r;
            let v = nearest_double(n);
            &&& human_size(n) == hundredths(h) + " "@ + unit_name(unit)
            &&& 1 <= unit <= 5
            &&& unit_scale(unit) <= v
            &&& unit < 5 ==> v < 1024 * unit_scale(unit)
            &&& 2 * (h * unit_scale(unit)) <= 200 * v + unit_scale(unit)
            &&& 200 * v <= 2 * (h * unit_scale(unit)) + unit_scale(unit)
        },
{
    if n < 1024 {
        (0, 0)
    } else {
        let v = nearest_double(n);
        let i = unit_index(v);
        let scale = unit_scale(i);
        let h = rounded_quotient(v * 100, scale);
        nearest_double_is_near(n);
        unit_fits(v);
        rounded_quotient_is_nearest(v * 100, scale);
        (h, i)
    }
}

/// Which unit is shown can be told from the count: KiB from 2^10 on, MiB from
/// 2^20, GiB from 2^30, TiB from 2^40, and PiB from 2^50.
pub proof fn unit_is_told_by_size(n: nat)
    requires
        n < 0x1_0000_0000_0000_0000,
    ensures
        n < 0x400 ==> ends(human_size(n), " B"@),
        0x400 <= n < 0x10_0000 ==> ends(human_size(n), " KiB"@),
        0x10_0000 <= n < 0x4000_0000 ==> ends(human_size(n), " MiB"@),
        0x4000_0000 <= n < 0x100_0000_0000 ==> ends(human_size(n), " GiB"@),
        0x100_0000_0000 <= n < 0x4_0000_0000_0000 ==> ends(human_size(n), " TiB"@),
        0x4_0000_0000_0000 <= n ==> ends(human_size(n), " PiB"@),
{
    let s = human_size(n);
    if n < 0x400 {
        assert(s.skip(s.len() - " B"@.len()) =~= " B"@);
    } else {
        let v = nearest_double(n);
        nearest_double_is_near(n);
        unit_fits(v);
        reveal_strlit(" ");
        reveal_strlit("KiB");
        reveal_strlit("MiB");
        reveal_strlit("GiB");
        reveal_strlit("TiB");
        reveal_strlit("PiB");
        reveal_strlit(" KiB");
        reveal_strlit(" MiB");
        reveal_strlit(" GiB");
        reveal_strlit(" TiB");
        reveal_strlit(" PiB");
        let unit = unit_name(unit_index(v));
        let tail = " "@ + unit;
        assert(s.skip(s.len() - 4) =~= tail);
        assert(" "@ + "KiB"@ =~= " KiB"@);
        assert(" "@ + "MiB"@ =~= " MiB"@);
        assert(" "@ + "GiB"@ =~= " GiB"@);
        assert(" "@ + "TiB"@ =~= " TiB"@);
        assert(" "@ + "PiB"@ =~= " PiB"@);
    }
}

} // verus!
