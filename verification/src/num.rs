//! Exact numeric helpers: decimal rendering of integers and fixed-point
//! fractions, and integer square roots, all verified.

use vstd::prelude::*;

verus! {

broadcast use vstd::std_specs::vec::group_vec_axioms;

/// The decimal digit character for `d`.
pub open spec fn digit_char(d: int) -> char {
    if d == 0 {
        '0'
    } else if d == 1 {
        '1'
    } else if d == 2 {
        '2'
    } else if d == 3 {
        '3'
    } else if d == 4 {
        '4'
    } else if d == 5 {
        '5'
    } else if d == 6 {
        '6'
    } else if d == 7 {
        '7'
    } else if d == 8 {
        '8'
    } else {
        '9'
    }
}

/// The decimal representation of a natural number, without leading zeros
/// (`0` is rendered as `"0"`).
pub open spec fn dec_rep(n: nat) -> Seq<char>
    decreases n,
{
    if n < 10 {
        seq![digit_char(n as int)]
    } else {
        dec_rep(n / 10).push(digit_char((n % 10) as int))
    }
}

/// The decimal representation of an integer: a minus sign before the digits
/// when negative.
pub open spec fn int_rep(n: int) -> Seq<char> {
    if n >= 0 {
        dec_rep(n as nat)
    } else {
        seq!['-'] + dec_rep((-n) as nat)
    }
}

fn digit_char_exec(d: u8) -> (c: char)
    requires
        d < 10,
    ensures
        c == digit_char(d as int),
{
    if d == 0 {
        '0'
    } else if d == 1 {
        '1'
    } else if d == 2 {
        '2'
    } else if d == 3 {
        '3'
    } else if d == 4 {
        '4'
    } else if d == 5 {
        '5'
    } else if d == 6 {
        '6'
    } else if d == 7 {
        '7'
    } else if d == 8 {
        '8'
    } else {
        '9'
    }
}

/// Appends the decimal digits of `n` to `out`.
pub fn push_dec_u64(out: &mut Vec<char>, n: u64)
    ensures
        final(out)@ == old(out)@ + dec_rep(n as nat),
    decreases n,
{
    if n >= 10 {
        push_dec_u64(out, n / 10);
    }
    let d = (n % 10) as u8;
    let c = digit_char_exec(d);
    out.push(c);
    proof {
        if n < 10 {
            assert(out@ =~= old(out)@ + dec_rep(n as nat));
        } else {
            assert(out@ =~= old(out)@ + dec_rep(n as nat));
        }
    }
}

/// Appends the decimal representation of `n` to `out`, minus sign included.
pub fn push_dec_i64(out: &mut Vec<char>, n: i64)
    ensures
        final(out)@ == old(out)@ + int_rep(n as int),
{
    if n < 0 {
        out.push('-');
        let m: u64 = (-(n as i128)) as u64;
        push_dec_u64(out, m);
        proof {
            assert(out@ =~= old(out)@ + int_rep(n as int));
        }
    } else {
        push_dec_u64(out, n as u64);
    }
}

/// The decimal representation of `n` as a `String`.
pub fn u64_to_string(n: u64) -> (s: String)
    ensures
        s@ == dec_rep(n as nat),
{
    let mut v: Vec<char> = Vec::new();
    push_dec_u64(&mut v, n);
    crate::text::string_from_chars(&v)
}

/// The decimal representation of `n` as a `String`.
pub fn i64_to_string(n: i64) -> (s: String)
    ensures
        s@ == int_rep(n as int),
{
    let mut v: Vec<char> = Vec::new();
    push_dec_i64(&mut v, n);
    crate::text::string_from_chars(&v)
}

/// The last six decimal digits of `f + 1_000_000`; because the sum has
/// exactly seven digits, this is `f` zero-padded to width six.
pub open spec fn pad6(f: nat) -> Seq<char>
    recommends
        f < 1000000,
{
    dec_rep((f + 1000000) as nat).skip(1)
}

/// The decimal text of the fixed-point fraction `m / 10^6`, rendered with
/// six digits after the point.
pub open spec fn micros_rep(m: int) -> Seq<char> {
    if m >= 0 {
        dec_rep((m / 1000000) as nat) + seq!['.'] + pad6((m % 1000000) as nat)
    } else {
        seq!['-'] + dec_rep(((-m) / 1000000) as nat) + seq!['.'] + pad6(
            ((-m) % 1000000) as nat,
        )
    }
}

fn push_pad6(out: &mut Vec<char>, f: u64)
    requires
        f < 1000000,
    ensures
        final(out)@ == old(out)@ + pad6(f as nat),
{
    let mut tmp: Vec<char> = Vec::new();
    push_dec_u64(&mut tmp, f + 1000000);
    let mut i: usize = 1;
    proof {
        lemma_dec_rep_len_7(f as nat);
    }
    while i < tmp.len()
        invariant
            1 <= i <= tmp.len(),
            tmp@ == dec_rep((f + 1000000) as nat),
            out@ == old(out)@ + tmp@.subrange(1, i as int),
        decreases tmp.len() - i,
    {
        let c = tmp[i];
        out.push(c);
        i = i + 1;
        proof {
            assert(out@ =~= old(out)@ + tmp@.subrange(1, i as int));
        }
    }
    proof {
        assert(tmp@.subrange(1, tmp@.len() as int) =~= pad6(f as nat));
    }
}

/// A seven-digit number has a seven-character representation.
proof fn lemma_dec_rep_len_7(f: nat)
    requires
        f < 1000000,
    ensures
        dec_rep((f + 1000000) as nat).len() == 7,
{
    let n = (f + 1000000) as nat;
    assert(dec_rep(n).len() == 7) by {
        reveal_with_fuel(dec_rep, 8);
    }
}

/// The text of `m / 10^6` with six digits after the decimal point.
pub fn micros_to_string(m: i64) -> (s: String)
    ensures
        s@ == micros_rep(m as int),
{
    let mut v: Vec<char> = Vec::new();
    if m < 0 {
        v.push('-');
        let a: u64 = (-(m as i128)) as u64;
        push_dec_u64(&mut v, a / 1000000);
        v.push('.');
        push_pad6(&mut v, a % 1000000);
        proof {
            assert(v@ =~= micros_rep(m as int));
        }
    } else {
        let a = m as u64;
        push_dec_u64(&mut v, a / 1000000);
        v.push('.');
        push_pad6(&mut v, a % 1000000);
        proof {
            assert(v@ =~= micros_rep(m as int));
        }
    }
    crate::text::string_from_chars(&v)
}

/// The integer square root: the greatest `r` with `r * r <= x`.
pub fn isqrt_u128(x: u128) -> (r: u128)
    ensures
        r * r <= x,
        (r + 1) * (r + 1) > x,
{
    let mut lo: u128 = 0;
    let mut hi: u128 = if x < 0xFFFF_FFFF_FFFF_FFFF {
        x + 1
    } else {
        0x1_0000_0000_0000_0000
    };
    proof {
        assert(hi * hi > x) by (nonlinear_arith)
            requires
                (x < 0xFFFF_FFFF_FFFF_FFFF && hi == x + 1) || (x
                    >= 0xFFFF_FFFF_FFFF_FFFF && hi == 0x1_0000_0000_0000_0000),
                x < 0x1_0000_0000_0000_0000_0000_0000_0000_0000,
        ;
    }
    while hi - lo > 1
        invariant
            lo < hi,
            lo * lo <= x,
            hi * hi > x,
            hi <= 0x1_0000_0000_0000_0000 || hi <= x + 1,
        decreases hi - lo,
    {
        let mid = lo + (hi - lo) / 2;
        if mid <= 0xFFFF_FFFF_FFFF_FFFF {
            proof {
                assert(mid * mid <= 0xFFFF_FFFF_FFFF_FFFF * 0xFFFF_FFFF_FFFF_FFFF)
                    by (nonlinear_arith)
                    requires
                        mid <= 0xFFFF_FFFF_FFFF_FFFFu128,
                ;
            }
            if mid * mid <= x {
                lo = mid;
            } else {
                hi = mid;
            }
        } else {
            proof {
                assert(mid * mid > x) by (nonlinear_arith)
                    requires
                        mid > 0xFFFF_FFFF_FFFF_FFFFu128,
                        x < 0x1_0000_0000_0000_0000_0000_0000_0000_0000,
                ;
            }
            hi = mid;
        }
    }
    lo
}

/// The least `r` with `r * r >= x`.
pub fn ceil_sqrt_u128(x: u128) -> (r: u128)
    ensures
        r * r >= x,
        r >= 1 ==> (r - 1) * (r - 1) < x,
        r == 0 ==> x == 0,
{
    let s = isqrt_u128(x);
    proof {
        assert(s < 0x1_0000_0000_0000_0000) by (nonlinear_arith)
            requires
                s * s <= x,
                x < 0x1_0000_0000_0000_0000_0000_0000_0000_0000,
        ;
    }
    if s * s == x {
        proof {
            if s >= 1 {
                assert((s - 1) * (s - 1) < s * s) by (nonlinear_arith)
                    requires
                        s >= 1,
                ;
            }
            if s == 0 {
                assert(s * s == 0);
            }
        }
        s
    } else {
        s + 1
    }
}

} // verus!
