//! Human-readable byte sizes, with the rounding that std's float formatting
//! applies to `{:.1}`.
use vstd::prelude::*;
use crate::text::{decimal, digit_char, push_char, push_decimal};

verus! {

/// `n / d` rounded to the nearest integer, ties to the even neighbour.
pub open spec fn div_round_half_even(n: nat, d: nat) -> nat
    recommends
        d > 0,
{
    let q = n / d;
    let r = n % d;
    if 2 * r > d {
        q + 1
    } else if 2 * r < d {
        q
    } else if q % 2 == 1 {
        q + 1
    } else {
        q
    }
}

/// `2^n`.
pub open spec fn two_pow(n: nat) -> nat
    decreases n,
{
    if n == 0 {
        1
    } else {
        2 * two_pow((n - 1) as nat)
    }
}

/// Smallest number of halvings that brings `q` below `2^53`.
pub open spec fn f64_shift(q: nat) -> nat
    decreases q,
{
    if q < 0x20_0000_0000_0000 {
        0
    } else {
        1 + f64_shift(q / 2)
    }
}

/// The value an unsigned integer takes as an IEEE double (`b as f64`):
/// exact below `2^53`, otherwise rounded to a multiple of the spacing of
/// doubles at that size, ties to even.
pub open spec fn f64_value(b: nat) -> nat {
    let p = two_pow(f64_shift(b));
    div_round_half_even(b, p) * p
}

/// `x / unit` written with one decimal, as `{:.1}` prints the exact quotient:
/// rounded to the nearest tenth, ties to even.
pub open spec fn one_decimal(x: nat, unit: nat) -> Seq<char> {
    let t = div_round_half_even(x * 10, unit);
    decimal(t / 10).push('.').push(digit_char(t % 10))
}

pub open spec fn kib() -> nat {
    1024
}

pub open spec fn mib() -> nat {
    1024 * 1024
}

pub open spec fn gib() -> nat {
    1024 * 1024 * 1024
}

/// The text `bytes_to_human` gives for a byte count.
pub open spec fn human_bytes(b: nat) -> Seq<char> {
    if b >= gib() {
        one_decimal(f64_value(b), gib()) + seq![' ', 'G', 'B']
    } else if b >= mib() {
        one_decimal(b, mib()) + seq![' ', 'M', 'B']
    } else if b >= kib() {
        one_decimal(b, kib()) + seq![' ', 'K', 'B']
    } else {
        decimal(b) + seq![' ', 'B']
    }
}

fn round_half_even(n: u128, d: u128) -> (q: u128)
    requires
        d > 0,
        n < 0x1_0000_0000_0000_0000_0000_0000,
    ensures
        q == div_round_half_even(n as nat, d as nat),
        q <= n / d + 1,
{
    let q = n / d;
    let r = n % d;
    if r > d - r {
        q + 1
    } else if r < d - r {
        q
    } else if q % 2 == 1 {
        q + 1
    } else {
        q
    }
}

/// `b as f64`, as an exact integer.
fn f64_rounded(b: u64) -> (f: u128)
    ensures
        f == f64_value(b as nat),
        f <= 0x2_0000_0000_0000_0000,
{
    let mut q: u128 = b as u128;
    let mut p: u128 = 1;
    let ghost mut s: nat = 0;
    proof {
        assert(two_pow(0) == 1);
    }
    while q >= 0x20_0000_0000_0000
        invariant
            p == two_pow(s),
            p >= 1,
            q == b as nat / p as nat,
            p <= b as nat || p == 1,
            f64_shift(b as nat) == s + f64_shift(q as nat),
        decreases q,
    {
        proof {
            vstd::arithmetic::div_mod::lemma_div_denominator(b as int, p as int, 2);
            assert(q as nat * p as nat <= b as nat) by (nonlinear_arith)
                requires
                    q as nat == b as nat / p as nat,
                    p >= 1,
            ;
            assert(p * 2 <= b) by (nonlinear_arith)
                requires
                    q as nat * p as nat <= b as nat,
                    q >= 2,
            ;
        }
        q = q / 2;
        p = p * 2;
        proof {
            s = s + 1;
        }
    }
    let r = b as u128 % p;
    proof {
        assert(b as nat == q as nat * p as nat + r as nat) by (nonlinear_arith)
            requires
                q as nat == b as nat / p as nat,
                r as nat == b as nat % p as nat,
                p >= 1,
        ;
        assert(q as nat * p as nat + p as nat <= 0x20_0000_0000_0000 * p as nat) by (nonlinear_arith)
            requires
                q < 0x20_0000_0000_0000,
        ;
        assert(0x20_0000_0000_0000 * p as nat <= 0x1_0000_0000_0000_0000 * 0x20_0000_0000_0000
            ) by (nonlinear_arith)
            requires
                p <= b + 1,
                b < 0x1_0000_0000_0000_0000,
        ;
    }
    let m = round_half_even(b as u128, p);
    proof {
        assert(m * p <= q * p + p) by (nonlinear_arith)
            requires
                m <= q + 1,
        ;
    }
    let f = m * p;
    proof {
        if p == 1 {
            assert(f == m);
            assert(m as nat <= b as nat + 1);
        } else {
            assert(f as nat <= 2 * b as nat) by (nonlinear_arith)
                requires
                    f == m * p,
                    m <= q + 1,
                    q as nat * p as nat <= b as nat,
                    p <= b,
            ;
        }
    }
    f
}

/// Appends `x / unit` with one decimal.
fn push_one_decimal(s: &mut String, x: u128, unit: u128)
    requires
        unit > 0,
        x <= 0x2_0000_0000_0000_0000,
        unit >= 1024,
    ensures
        final(s)@ == old(s)@ + one_decimal(x as nat, unit as nat),
{
    let t = round_half_even(x * 10, unit);
    proof {
        assert(t as nat <= (x as nat * 10) / (unit as nat) + 1);
        assert((x as nat * 10) / (unit as nat) <= (x as nat * 10) / 1024) by (nonlinear_arith)
            requires
                unit >= 1024,
        ;
        assert((x as nat * 10) / 1024 <= 0x1000_0000_0000_0000) by (nonlinear_arith)
            requires
                x <= 0x2_0000_0000_0000_0000,
        ;
    }
    push_decimal(s, (t / 10) as u64);
    push_char(s, '.');
    proof {
        assert(t % 10 < 10);
    }
    let d = (t % 10) as u64;
    let c = if d == 0 {
        '0'
    } else if d == 1 {
        '1'
    } else if d == 2 {
        '2'
    } else if d == 3 {
        '3'
    } else if d == 4 {
        '4'
    } else if d == 5 {
        '5'
    } else if d == 6 {
        '6'
    } else if d == 7 {
        '7'
    } else if d == 8 {
        '8'
    } else {
        '9'
    };
    push_char(s, c);
    proof {
        assert(old(s)@ + decimal((t / 10) as nat) + seq!['.'] + seq![c] =~= old(s)@ + one_decimal(
            x as nat,
            unit as nat,
        ));
    }
}

/// A byte count in B, KB, MB or GB (powers of 1024), with one decimal above
/// bytes: `0 B`, `1.5 KB`, `1024.0 KB` for 1048575.
pub fn bytes_to_human(bytes: u64) -> (res: String)
    ensures
        res@ == human_bytes(bytes as nat),
{
    let mut s = String::new();
    if bytes >= 1024 * 1024 * 1024 {
        let f = f64_rounded(bytes);
        push_one_decimal(&mut s, f, 1024 * 1024 * 1024);
        push_char(&mut s, ' ');
        push_char(&mut s, 'G');
        push_char(&mut s, 'B');
    } else if bytes >= 1024 * 1024 {
        push_one_decimal(&mut s, bytes as u128, 1024 * 1024);
        push_char(&mut s, ' ');
        push_char(&mut s, 'M');
        push_char(&mut s, 'B');
    } else if bytes >= 1024 {
        push_one_decimal(&mut s, bytes as u128, 1024);
        push_char(&mut s, ' ');
        push_char(&mut s, 'K');
        push_char(&mut s, 'B');
    } else {
        push_decimal(&mut s, bytes);
        push_char(&mut s, ' ');
        push_char(&mut s, 'B');
    }
    proof {
        assert(s@ =~= human_bytes(bytes as nat));
    }
    s
}

} // verus!
