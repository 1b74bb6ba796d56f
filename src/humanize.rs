use vstd::prelude::*;

use crate::text::{decimal, padded_decimal, push_decimal, push_padded, push_text, text};

verus! {

/// `a / b` rounded to the nearest integer, ties to the even one.
pub open spec fn round_half_even(a: nat, b: nat) -> nat
    recommends
        b > 0,
{
    let q = a / b;
    let r = a % b;
    if 2 * r > b {
        q + 1
    } else if 2 * r < b {
        q
    } else if q % 2 == 0 {
        q
    } else {
        q + 1
    }
}

/// `n / unit` with two decimals, rounded.
pub open spec fn two_decimals(n: nat, unit: nat) -> Seq<char>
    recommends
        unit > 0,
{
    let h = round_half_even(n * 100, unit);
    decimal(h / 100) + seq!['.'] + padded_decimal(h % 100, 2)
}

/// A byte count for people: bytes, then KB, MB and GB (of 1024) with two decimals.
pub open spec fn size_text(n: nat) -> Seq<char> {
    if n < 1024 {
        decimal(n) + "B"@
    } else if n < 1048576 {
        two_decimals(n, 1024) + "KB"@
    } else if n < 1073741824 {
        two_decimals(n, 1048576) + "MB"@
    } else {
        two_decimals(n, 1073741824) + "GB"@
    }
}

/// The fraction `f` of `w` digits without its trailing zeros.
pub open spec fn trimmed_fraction(f: nat, w: nat) -> Seq<char>
    decreases w,
{
    if w > 0 && f % 10 == 0 {
        trimmed_fraction(f / 10, (w - 1) as nat)
    } else {
        padded_decimal(f, w)
    }
}

/// `n / 10^k` written out exactly, without trailing zeros or a bare point.
pub open spec fn exact_quotient(n: nat, k: nat) -> Seq<char> {
    let p = pow10(k);
    if n % p == 0 {
        decimal(n / p)
    } else {
        decimal(n / p) + seq!['.'] + trimmed_fraction(n % p, k)
    }
}

/// Ten to the power `k`.
pub open spec fn pow10(k: nat) -> nat
    decreases k,
{
    if k == 0 {
        1
    } else {
        10 * pow10((k - 1) as nat)
    }
}

/// An instruction count for people: as is below a thousand, then in K, M
/// and B (thousands, millions, billions), exactly.
pub open spec fn instructions_text(n: nat) -> Seq<char> {
    if n < 1000 {
        decimal(n)
    } else if n < 1000000 {
        exact_quotient(n, 3) + "K"@
    } else if n < 1000000000 {
        exact_quotient(n, 6) + "M"@
    } else {
        exact_quotient(n, 9) + "B"@
    }
}

/// Appends `n / unit` with two decimals (see `two_decimals`).
fn push_two_decimals(s: &mut String, n: u64, unit: u64)
    requires
        unit > 0,
    ensures
        final(s)@ == old(s)@ + two_decimals(n as nat, unit as nat),
{
    let a: u128 = n as u128 * 100;
    let b: u128 = unit as u128;
    let q = a / b;
    let r = a % b;
    let h: u128 = if 2 * r > b {
        q + 1
    } else if 2 * r < b {
        q
    } else if q % 2 == 0 {
        q
    } else {
        q + 1
    };
    assert(h == round_half_even(n as nat * 100, unit as nat));
    push_decimal(s, h / 100);
    crate::text::push_char(s, '.');
    push_padded(s, h % 100, 2);
    assert(final(s)@ =~= old(s)@ + two_decimals(n as nat, unit as nat));
}

/// The text of a byte count (see `size_text`).
pub fn size_text_of(n: u64) -> (r: String)
    ensures
        r@ == size_text(n as nat),
{
    let mut r = String::new();
    if n < 1024 {
        push_decimal(&mut r, n as u128);
        push_text(&mut r, "B");
    } else if n < 1048576 {
        push_two_decimals(&mut r, n, 1024);
        push_text(&mut r, "KB");
    } else if n < 1073741824 {
        push_two_decimals(&mut r, n, 1048576);
        push_text(&mut r, "MB");
    } else {
        push_two_decimals(&mut r, n, 1073741824);
        push_text(&mut r, "GB");
    }
    assert(r@ =~= size_text(n as nat));
    r
}

/// Appends the trimmed fraction (see `trimmed_fraction`).
fn push_trimmed_fraction(s: &mut String, f: u64, w: u32)
    ensures
        final(s)@ == old(s)@ + trimmed_fraction(f as nat, w as nat),
    decreases w,
{
    if w > 0 && f % 10 == 0 {
        push_trimmed_fraction(s, f / 10, w - 1);
    } else {
        push_padded(s, f as u128, w);
    }
}

/// The text of an instruction count (see `instructions_text`).
pub fn instructions_text_of(n: u64) -> (r: String)
    ensures
        r@ == instructions_text(n as nat),
{
    let mut r = String::new();
    if n < 1000 {
        push_decimal(&mut r, n as u128);
    } else {
        let (k, p, suffix): (u32, u64, &str) = if n < 1000000 {
            (3, 1000, "K")
        } else if n < 1000000000 {
            (6, 1000000, "M")
        } else {
            (9, 1000000000, "B")
        };
        assert(p == pow10(k as nat)) by {
            reveal_with_fuel(pow10, 10);
        }
        push_decimal(&mut r, (n / p) as u128);
        if n % p != 0 {
            crate::text::push_char(&mut r, '.');
            push_trimmed_fraction(&mut r, n % p, k);
        }
        push_text(&mut r, suffix);
    }
    assert(r@ =~= instructions_text(n as nat));
    r
}

} // verus!
