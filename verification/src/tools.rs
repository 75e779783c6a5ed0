//! The document-store tools: typed requests, their validation, and the
//! translation onto store operations.
//!
//! Embedding components arrive as JSON numbers; the library stores them in
//! fixed point, in millionths of a unit, saturated to one unit in magnitude
//! (stored vectors are expected to be unit-normalized). A component that is
//! not a number counts as zero; a number's text is read up to the first
//! character that no decimal with an optional `e`/`E` exponent contains.

use vstd::prelude::*;
use crate::json::{Json, JsonV};
use crate::store::{ChromaClient, StoreV};

verus! {

broadcast use vstd::std_specs::vec::group_vec_axioms, vstd::seq::group_seq_axioms;

/// A tool-level failure: a human-readable message naming the offending
/// field.
#[derive(Debug)]
pub struct ToolError {
    pub message: String,
}

impl ToolError {
    /// The model: the message text.
    pub open spec fn v(self) -> Seq<char> {
        self.message@
    }
}

/// Builds a tool error from a fixed message.
pub fn tool_error(message: &str) -> (r: ToolError)
    ensures
        r.v() == message@,
{
    ToolError { message: message.to_owned() }
}

/// The value, in millionths saturated to one unit, of decimal text: an
/// optional minus sign, integer digits, an optional point and fraction
/// digits, an optional `e`/`E` exponent with its own sign; reading stops
/// at the first other character. Any number of one unit or more
/// saturates.
pub open spec fn dec_micros(s: Seq<char>) -> i64 {
    if s.len() > 0 && s[0] == '-' {
        (-pos_micros(s.skip(1)) as int) as i64
    } else {
        pos_micros(s)
    }
}

/// See [`dec_micros`]: the unsigned case. The exponent moves the decimal
/// point through the digits: a nonzero digit left of the moved point
/// saturates, and otherwise the six digits right of it are the micros
/// (further ones are dropped).
pub open spec fn pos_micros(s: Seq<char>) -> i64 {
    let d = num_digits(s);
    let pp = digits_end(s, 0) + exp_of(s);
    if nonzero_before(d, pp) {
        1000000i64
    } else if pp >= d.len() {
        0i64
    } else if pp >= 0 {
        frac_micros6(d.skip(pp))
    } else {
        (frac_val(d, 0, 6 + pp) as i64)
    }
}

/// All digits of the number's mantissa: the integer run, then the
/// fraction run.
pub open spec fn num_digits(s: Seq<char>) -> Seq<char> {
    digit_prefix(s) + frac_digits(s)
}

/// Whether a digit before position `n` is nonzero.
pub open spec fn nonzero_before(d: Seq<char>, n: int) -> bool {
    exists|i: int| 0 <= i < n && i < d.len() && digit_val(#[trigger] d[i]) > 0
}

/// The position right after the mantissa: past the integer run and, when
/// a point follows it, past the point and the fraction run.
pub open spec fn after_digits(s: Seq<char>) -> int {
    let p = digits_end(s, 0);
    if p < s.len() && s[p] == '.' {
        p + 1 + frac_digits(s).len()
    } else {
        p
    }
}

/// The exponent marked by `e` or `E` right after the mantissa, its sign
/// included; a missing mark, as well as an empty digit run, counts as
/// zero.
pub open spec fn exp_of(s: Seq<char>) -> int {
    let q = after_digits(s);
    if 0 <= q < s.len() && (s[q] == 'e' || s[q] == 'E') {
        let t = s.skip(q + 1);
        if t.len() > 0 && t[0] == '-' {
            -exp_run(t.skip(1))
        } else if t.len() > 0 && t[0] == '+' {
            exp_run(t.skip(1))
        } else {
            exp_run(t)
        }
    } else {
        0
    }
}

/// The value of the leading digit run of exponent text.
pub open spec fn exp_run(t: Seq<char>) -> int {
    exp_val(t, digits_end(t, 0))
}

/// The value of the first `n` digits of `d`, read left to right.
pub open spec fn exp_val(d: Seq<char>, n: int) -> int
    decreases n,
{
    if n <= 0 {
        0
    } else {
        10 * exp_val(d, n - 1) + digit_val(d[n - 1])
    }
}

/// Whether `c` is a decimal digit.
pub open spec fn is_digit(c: char) -> bool {
    '0' <= c && c <= '9'
}

/// The digit value of `c`.
pub open spec fn digit_val(c: char) -> int {
    c as int - '0' as int
}

/// The fraction digits of `s`: what follows the point after the integer
/// digits, cut down to digits only.
pub open spec fn frac_digits(s: Seq<char>) -> Seq<char> {
    let p = digits_end(s, 0);
    if p < s.len() && s[p] == '.' {
        digit_prefix(s.skip(p + 1))
    } else {
        Seq::empty()
    }
}

/// The position where the leading digit run of `s` ends, starting at `i`.
pub open spec fn digits_end(s: Seq<char>, i: int) -> int
    decreases s.len() - i,
{
    if i < 0 || i >= s.len() || !is_digit(s[i]) {
        i
    } else {
        digits_end(s, i + 1)
    }
}

/// The maximal digit prefix of `s`.
pub open spec fn digit_prefix(s: Seq<char>) -> Seq<char> {
    s.take(digits_end(s, 0))
}

/// The value in millionths of up to six fraction digits (later digits are
/// dropped).
pub open spec fn frac_micros6(d: Seq<char>) -> i64 {
    (frac_val(d, 0, 6) as i64)
}

/// The value of the first `left` digits of `d` from `i`, scaled to the
/// remaining places.
pub open spec fn frac_val(d: Seq<char>, i: int, left: int) -> int
    decreases left,
{
    if left <= 0 || i < 0 || i >= d.len() {
        0
    } else {
        digit_val(d[i]) * pow10(left - 1) + frac_val(d, i + 1, left - 1)
    }
}

/// Ten to the `k`.
pub open spec fn pow10(k: int) -> int
    decreases k,
{
    if k <= 0 {
        1
    } else {
        10 * pow10(k - 1)
    }
}

/// The micros value of a JSON number: integers saturate beyond one unit;
/// decimal text is read by [`dec_micros`]; anything else counts as zero.
pub open spec fn micros_of_num(v: JsonV) -> i64 {
    match v {
        JsonV::Int(n) => if n >= 1 {
            1000000i64
        } else if n <= -1 {
            -1000000i64
        } else {
            0i64
        },
        JsonV::Dec(s) => dec_micros(s),
        _ => 0i64,
    }
}

/// Collects the mantissa digits (the integer run, then the fraction run
/// behind a point) from position `start`, and reports the integer run's
/// length and the position where the mantissa ends.
fn read_mantissa(cs: &Vec<char>, start: usize) -> (r: (Vec<char>, usize, usize))
    requires
        start <= cs@.len(),
    ensures
        ({
            let body = cs@.skip(start as int);
            &&& r.0@ == num_digits(body)
            &&& r.1 as int == digits_end(body, 0)
            &&& r.1 <= r.0@.len()
            &&& start <= r.2 <= cs@.len()
            &&& r.2 - start == after_digits(body)
            &&& forall|w: int| 0 <= w < r.0@.len() ==> is_digit(#[trigger] r.0@[w])
        }),
{
    let ghost body = cs@.skip(start as int);
    let n = cs.len();
    let mut dv: Vec<char> = Vec::new();
    let mut i: usize = start;
    while i < n && cs[i] >= '0' && cs[i] <= '9'
        invariant
            start <= i <= n,
            n == cs@.len(),
            body == cs@.skip(start as int),
            dv@.len() == i - start,
            forall|k: int|
                0 <= k < i - start ==> #[trigger] dv@[k] == body[k] && is_digit(body[k]),
        decreases n - i,
    {
        proof {
            assert(body[i - start] == cs@[i as int]);
        }
        dv.push(cs[i]);
        i = i + 1;
    }
    let ilen = dv.len();
    proof {
        if i < n {
            assert(body[i - start] == cs@[i as int]);
        }
        assert forall|k: int| 0 <= k < i - start implies is_digit(#[trigger] body[k]) by {
            assert(dv@[k] == body[k]);
        }
        lemma_frac_prefix(body, i - start);
        assert(digits_end(body, 0) == i - start);
        assert(dv@ =~= digit_prefix(body));
    }
    let mut q: usize = i;
    if i < n && cs[i] == '.' {
        let ghost t = body.skip(i - start + 1);
        let mut j: usize = i + 1;
        while j < n && cs[j] >= '0' && cs[j] <= '9'
            invariant
                i + 1 <= j <= n,
                start <= i < n,
                n == cs@.len(),
                body == cs@.skip(start as int),
                ilen == i - start,
                ilen == digits_end(body, 0),
                i - start < body.len() && body[i - start] == '.',
                t == body.skip(i - start + 1),
                dv@.len() == ilen + (j - i - 1),
                forall|k: int|
                    0 <= k < ilen ==> #[trigger] dv@[k] == body[k] && is_digit(body[k]),
                forall|k: int|
                    0 <= k < j - i - 1 ==> #[trigger] dv@[ilen + k] == t[k] && is_digit(t[k]),
            decreases n - j,
        {
            proof {
                assert(t[j - i - 1] == cs@[j as int]);
            }
            dv.push(cs[j]);
            j = j + 1;
        }
        q = j;
        proof {
            if j < n {
                assert(t[j - i - 1] == cs@[j as int]);
            }
            assert forall|k: int| 0 <= k < j - i - 1 implies is_digit(#[trigger] t[k]) by {
                assert(dv@[ilen + k] == t[k]);
            }
            lemma_frac_prefix(t, j - i - 1);
            assert(digits_end(t, 0) == j - i - 1);
            assert(frac_digits(body) == digit_prefix(t));
            assert(frac_digits(body).len() == j - i - 1);
            assert forall|k: int| 0 <= k < dv@.len() implies #[trigger] dv@[k] == num_digits(
                body,
            )[k] by {
                if k < ilen {
                    assert(dv@[k] == body[k]);
                    assert(num_digits(body)[k] == digit_prefix(body)[k]);
                    assert(digit_prefix(body)[k] == body[k]);
                } else {
                    assert(dv@[ilen + (k - ilen)] == t[k - ilen]);
                    assert(num_digits(body)[k] == digit_prefix(t)[k - ilen]);
                    assert(digit_prefix(t)[k - ilen] == t[k - ilen]);
                }
            }
            assert(dv@ =~= num_digits(body));
            assert(after_digits(body) == q - start);
            assert forall|w: int| 0 <= w < dv@.len() implies is_digit(#[trigger] dv@[w]) by {
                if w < ilen {
                    assert(dv@[w] == body[w]);
                } else {
                    assert(dv@[ilen + (w - ilen)] == t[w - ilen]);
                }
            }
        }
    } else {
        proof {
            if i < n {
                assert(body[i - start] != '.');
            }
            assert(frac_digits(body) =~= Seq::<char>::empty());
            assert(dv@ =~= num_digits(body));
            assert(after_digits(body) == q - start);
            assert forall|w: int| 0 <= w < dv@.len() implies is_digit(#[trigger] dv@[w]) by {
                assert(dv@[w] == body[w]);
            }
        }
    }
    (dv, ilen, q)
}

/// Reads the optional `e`/`E` exponent standing at `q`: its sign and its
/// magnitude, the latter read with saturation far beyond any position the
/// mantissa digits could reach.
fn read_exponent(cs: &Vec<char>, start: usize, q: usize) -> (r: (bool, i128))
    requires
        start <= q <= cs@.len(),
        q - start == after_digits(cs@.skip(start as int)),
    ensures
        0 <= r.1 <= 500_000_000_000_000_000_000i128,
        !r.0 ==> exp_of(cs@.skip(start as int)) == r.1 || (exp_of(cs@.skip(start as int)) >= r.1
            && r.1 > 40_000_000_000_000_000_000i128),
        r.0 ==> exp_of(cs@.skip(start as int)) == -r.1 || (exp_of(cs@.skip(start as int)) <= -r.1
            && r.1 > 40_000_000_000_000_000_000i128),
{
    let ghost body = cs@.skip(start as int);
    let ghost dexp = exp_of(body);
    let n = cs.len();
    let mut eneg: bool = false;
    let mut acc: i128 = 0;
    if q < n && (cs[q] == 'e' || cs[q] == 'E') {
        proof {
            assert(body[q - start] == cs@[q as int]);
        }
        let mut r: usize = q + 1;
        if r < n && (cs[r] == '-' || cs[r] == '+') {
            proof {
                assert(body[q - start + 1] == cs@[r as int]);
            }
            if cs[r] == '-' {
                eneg = true;
            }
            r = r + 1;
        }
        let ghost td = body.skip(r - start);
        let ghost r0 = r as int;
        proof {
            let te = body.skip(q - start + 1);
            if q - start + 2 <= body.len() {
                assert forall|x: int|
                    0 <= x < body.skip(q - start + 2).len() implies #[trigger] body.skip(
                    q - start + 2,
                )[x] == te.skip(1)[x] by {
                    assert(body.skip(q - start + 2)[x] == body[x + q - start + 2]);
                    assert(te.skip(1)[x] == te[x + 1]);
                }
                assert(te.skip(1) =~= body.skip(q - start + 2));
            }
            assert(dexp == if eneg {
                -exp_run(td)
            } else {
                exp_run(td)
            });
        }
        while r < n && cs[r] >= '0' && cs[r] <= '9' && acc <= 40_000_000_000_000_000_000i128
            invariant
                r0 <= r <= n,
                n == cs@.len(),
                start <= r0,
                body == cs@.skip(start as int),
                td == body.skip(r0 - start),
                forall|k: int| 0 <= k < r - r0 ==> is_digit(#[trigger] td[k]),
                acc == exp_val(td, r - r0),
                0 <= acc <= 400_000_000_000_000_000_009i128,
            decreases n - r,
        {
            proof {
                assert(td[r - r0] == cs@[r as int]);
            }
            let dgt = (cs[r] as u32) - ('0' as u32);
            acc = acc * 10 + (dgt as i128);
            r = r + 1;
        }
        proof {
            if r < n {
                assert(td[r - r0] == cs@[r as int]);
            }
            lemma_frac_prefix(td, r - r0);
            if acc <= 40_000_000_000_000_000_000i128 {
                assert(digits_end(td, 0) == r - r0);
                assert(exp_run(td) == acc);
            } else {
                lemma_digits_end_bounds(td, 0);
                assert forall|k: int| 0 <= k < digits_end(td, 0) implies is_digit(
                    #[trigger] td[k],
                ) by {
                    lemma_digits_all(td, 0, k);
                }
                lemma_exp_val_mono(td, r - r0, digits_end(td, 0));
                assert(exp_run(td) >= acc);
            }
        }
    } else {
        proof {
            if q < n {
                assert(body[q - start] == cs@[q as int]);
            }
            assert(dexp == 0);
        }
    }
    (eneg, acc)
}

/// Whether one of the first `m` digits is nonzero.
fn any_nonzero(dv: &Vec<char>, m: usize) -> (r: bool)
    requires
        m <= dv@.len(),
        forall|w: int| 0 <= w < dv@.len() ==> is_digit(#[trigger] dv@[w]),
    ensures
        r <==> exists|w: int| 0 <= w < m && digit_val(#[trigger] dv@[w]) > 0,
{
    let mut sat = false;
    let mut k: usize = 0;
    while k < m
        invariant
            k <= m <= dv@.len(),
            forall|w: int| 0 <= w < dv@.len() ==> is_digit(#[trigger] dv@[w]),
            sat <==> exists|w: int| 0 <= w < k && digit_val(#[trigger] dv@[w]) > 0,
        decreases m - k,
    {
        if dv[k] != '0' {
            proof {
                assert(digit_val(dv@[k as int]) > 0);
            }
            sat = true;
        }
        k = k + 1;
    }
    sat
}

/// The value of the digit run from `b`, read into `left0` fraction
/// places.
fn frac_read(dv: &Vec<char>, b: usize, left0: u32) -> (r: i64)
    requires
        b <= dv@.len(),
        left0 <= 6,
        forall|w: int| 0 <= w < dv@.len() ==> is_digit(#[trigger] dv@[w]),
    ensures
        r == frac_val(dv@.skip(b as int), 0, left0 as int),
        0 <= r <= 999999,
{
    let ghost fd = dv@.skip(b as int);
    let ghost lf = left0 as int;
    proof {
        lemma_pow10_bounds(left0 as int);
        assert(1 <= pow10(left0 as int) <= 1000000);
    }
    let dlen = dv.len();
    let mut acc2: i64 = 0;
    let mut left: u32 = left0;
    let mut w: usize = b;
    while w < dlen && left > 0
        invariant
            b <= w <= dlen,
            dlen == dv@.len(),
            fd == dv@.skip(b as int),
            left <= left0 <= 6,
            left0 as int == lf,
            b + fd.len() == dlen,
            forall|x: int| 0 <= x < dv@.len() ==> is_digit(#[trigger] dv@[x]),
            0 <= acc2 <= pow10(6) - pow10(left as int),
            acc2 == frac_val(fd, 0, lf) - frac_val(fd, w - b, left as int),
        decreases dlen - w,
    {
        let dgt = (dv[w] as u32) - ('0' as u32);
        let pw = pow10_exec(left - 1);
        proof {
            lemma_pow10_bounds(left as int);
            lemma_frac_val_step(fd, w - b, left as int);
            assert(fd[w - b] == dv@[w as int]);
            assert(digit_val(fd[w - b]) == dgt as int);
            assert(1 <= pw <= 100000);
            assert(0 <= (dgt as int) * (pw as int) <= 9 * (pw as int)) by (nonlinear_arith)
                requires
                    0 <= dgt as int <= 9,
                    1 <= pw as int,
            ;
        }
        acc2 = acc2 + (dgt as i64) * pw;
        left = left - 1;
        w = w + 1;
    }
    proof {
        lemma_frac_val_end(fd, w - b, left as int);
        assert(acc2 == frac_val(fd, 0, lf));
    }
    acc2
}

/// Reads a JSON number as micros.
#[verifier::rlimit(60)]
pub fn micros_of_json(j: &Json) -> (r: i64)
    ensures
        r == micros_of_num(j.v()),
        -1000000 <= r <= 1000000,
{
    match j {
        Json::Int(n) => if *n >= 1 {
            1000000
        } else if *n <= -1 {
            -1000000
        } else {
            0
        },
        Json::Dec(s) => {
            let cs = crate::text::chars_vec(s.as_str());
            let n = cs.len();
            let (neg, start): (bool, usize) = if n > 0 && cs[0] == '-' {
                (true, 1)
            } else {
                (false, 0)
            };
            let ghost body = cs@.skip(start as int);
            proof {
                assert(cs@.skip(0) =~= cs@);
                assert(body == if neg {
                    s@.skip(1)
                } else {
                    s@
                });
            }
            let (dv, ilen, q) = read_mantissa(&cs, start);
            let (eneg, acc) = read_exponent(&cs, start, q);
            let dlen = dv.len();
            let ghost d_all = dv@;
            let ghost dexp = exp_of(body);
            let cexp: i128 = if eneg {
                -acc
            } else {
                acc
            };
            let cpp: i128 = (ilen as i128) + cexp;
            let ghost pp = digits_end(body, 0) + dexp;
            proof {
                assert(cpp == pp || (pp >= cpp && cpp > dlen as int + 6) || (pp <= cpp && cpp
                    < -6));
            }
            // A nonzero digit left of the moved point saturates; otherwise
            // the six digits right of it are the micros.
            let nsat: usize = if cpp <= 0 {
                0
            } else if cpp >= dlen as i128 {
                dlen
            } else {
                proof {
                    assert(0 <= cpp < dlen as int);
                }
                cpp as usize
            };
            let sat = any_nonzero(&dv, nsat);
            proof {
                assert(sat <==> nonzero_before(d_all, pp));
            }
            let mag: i64 = if sat {
                1000000
            } else if cpp >= dlen as i128 {
                proof {
                    assert(pp >= d_all.len());
                }
                0
            } else if cpp <= -6 {
                proof {
                    assert(pp <= -6);
                    assert(frac_val(d_all, 0, 6 + pp) == 0);
                }
                0
            } else {
                proof {
                    assert(cpp == pp);
                }
                if cpp >= 0 {
                    proof {
                        assert(0 <= cpp < dlen as int);
                    }
                    let r2 = frac_read(&dv, cpp as usize, 6);
                    proof {
                        assert(r2 == frac_micros6(d_all.skip(pp)));
                    }
                    r2
                } else {
                    proof {
                        assert(-6 < cpp < 0);
                    }
                    let r2 = frac_read(&dv, 0, (6 + cpp) as u32);
                    proof {
                        assert(d_all.skip(0) =~= d_all);
                        assert(r2 == frac_val(d_all, 0, 6 + pp));
                    }
                    r2
                }
            };
            proof {
                assert(mag == pos_micros(body));
                assert(0 <= mag <= 1000000);
            }
            if neg {
                -mag
            } else {
                mag
            }
        },
        _ => 0,
    }
}

/// Ten to the `k`, executable.
fn pow10_exec(k: u32) -> (r: i64)
    requires
        k <= 6,
    ensures
        r == pow10(k as int),
{
    proof {
        lemma_pow10_bounds(k as int);
    }
    if k == 0 {
        1
    } else if k == 1 {
        10
    } else if k == 2 {
        100
    } else if k == 3 {
        1000
    } else if k == 4 {
        10000
    } else if k == 5 {
        100000
    } else {
        1000000
    }
}

/// Small powers of ten, written out.
proof fn lemma_pow10_bounds(k: int)
    requires
        0 <= k <= 6,
    ensures
        pow10(0) == 1 && pow10(1) == 10 && pow10(2) == 100 && pow10(3) == 1000 && pow10(4)
            == 10000 && pow10(5) == 100000 && pow10(6) == 1000000,
{
    assert(pow10(0) == 1);
    assert(pow10(1) == 10);
    assert(pow10(2) == 100);
    assert(pow10(3) == 1000);
    assert(pow10(4) == 10000);
    assert(pow10(5) == 100000);
    assert(pow10(6) == 1000000);
}

/// Exponent digit runs have nonnegative values.
proof fn lemma_exp_val_nonneg(d: Seq<char>, n: int)
    requires
        forall|k: int| 0 <= k < n ==> is_digit(#[trigger] d[k]),
    ensures
        exp_val(d, n) >= 0,
    decreases n,
{
    if n > 0 {
        lemma_exp_val_nonneg(d, n - 1);
    }
}

/// Reading more exponent digits never shrinks the value.
proof fn lemma_exp_val_mono(d: Seq<char>, m: int, n: int)
    requires
        0 <= m <= n,
        forall|k: int| 0 <= k < n ==> is_digit(#[trigger] d[k]),
    ensures
        exp_val(d, m) <= exp_val(d, n),
    decreases n,
{
    if n > m {
        lemma_exp_val_mono(d, m, n - 1);
        lemma_exp_val_nonneg(d, n - 1);
    }
}

/// While scanning digits, the maximal digit prefix extends.
proof fn lemma_frac_prefix(s: Seq<char>, i: int)
    requires
        0 <= i <= s.len(),
        forall|k: int| 0 <= k < i ==> is_digit(#[trigger] s[k]),
    ensures
        digits_end(s, 0) >= i,
        i < s.len() && is_digit(s[i]) ==> digits_end(s, 0) >= i + 1 && digit_prefix(s).len() > i
            && digit_prefix(s)[i] == s[i],
        i < s.len() && !is_digit(s[i]) ==> digits_end(s, 0) == i,
        i == s.len() ==> digits_end(s, 0) == i,
{
    lemma_digits_end_from(s, 0, i);
}

/// The digit run from `j` reaches at least to `i`, and ends where the
/// digits end.
proof fn lemma_digits_end_from(s: Seq<char>, j: int, i: int)
    requires
        0 <= j <= i <= s.len(),
        forall|k: int| 0 <= k < i ==> is_digit(#[trigger] s[k]),
    ensures
        i < s.len() && is_digit(s[i]) ==> digits_end(s, j) >= i + 1,
        i < s.len() && !is_digit(s[i]) ==> digits_end(s, j) == i,
        i == s.len() ==> digits_end(s, j) == i,
        digits_end(s, j) >= i,
        digits_end(s, j) <= s.len(),
    decreases s.len() - j,
{
    if j < i {
        lemma_digits_end_from(s, j + 1, i);
    } else {
        lemma_digits_end_bounds(s, j);
        if j < s.len() && is_digit(s[j]) {
            lemma_digits_end_bounds(s, j + 1);
        }
    }
}

/// Digit runs end within the text.
proof fn lemma_digits_end_bounds(s: Seq<char>, i: int)
    requires
        0 <= i <= s.len(),
    ensures
        i <= digits_end(s, i) <= s.len(),
    decreases s.len() - i,
{
    if i < s.len() && is_digit(s[i]) {
        lemma_digits_end_bounds(s, i + 1);
    }
}

/// One digit of the fraction moves from "left to read" to the
/// accumulator.
proof fn lemma_frac_val_step(d: Seq<char>, i: int, left: int)
    requires
        0 <= i < d.len(),
        1 <= left,
    ensures
        frac_val(d, i, left) == digit_val(d[i]) * pow10(left - 1) + frac_val(d, i + 1, left - 1),
{
}

/// When the scan stops, nothing is left to read.
proof fn lemma_frac_val_end(d: Seq<char>, i: int, left: int)
    requires
        left <= 0 || i >= d.len() || i < 0,
    ensures
        frac_val(d, i, left) == 0,
{
}

/// Positions before the end of a digit run hold digits.
proof fn lemma_digits_all(s: Seq<char>, i: int, k: int)
    requires
        0 <= i <= k,
        k < digits_end(s, i),
        k < s.len(),
    ensures
        is_digit(s[k]),
    decreases s.len() - i,
{
    if i < s.len() && is_digit(s[i]) {
        if k > i {
            lemma_digits_all(s, i + 1, k);
        }
    }
}

/// Arguments of the list-collections tool; the pagination is advisory and
/// not applied.
#[derive(Debug)]
pub struct ListCollectionsRequest {
    pub limit: Option<usize>,
    pub offset: Option<usize>,
}

/// Arguments of the create-collection tool; the index-tuning knobs are
/// accepted for wire parity and not used.
#[derive(Debug)]
pub struct CreateCollectionRequest {
    pub collection_name: String,
    pub embedding_function_name: Option<String>,
    pub metadata: Option<Json>,
    pub space: Option<String>,
    pub ef_construction: Option<i32>,
    pub ef_search: Option<i32>,
    pub max_neighbors: Option<i32>,
    pub num_threads: Option<i32>,
    pub batch_size: Option<i32>,
    pub sync_threshold: Option<i32>,
}

/// Arguments of the peek tool.
#[derive(Debug)]
pub struct PeekCollectionRequest {
    pub collection_name: String,
    pub limit: usize,
}

/// Arguments of the collection-info tool.
#[derive(Debug)]
pub struct GetCollectionInfoRequest {
    pub collection_name: String,
}

/// Arguments of the collection-count tool.
#[derive(Debug)]
pub struct GetCollectionCountRequest {
    pub collection_name: String,
}

/// Arguments of the modify-collection tool; the index-tuning knobs are
/// accepted for wire parity, counted in the confirmation and not
/// otherwise used (the resize factor, a fractional number on the wire, is
/// carried as the JSON value it arrived as).
#[derive(Debug)]
pub struct ModifyCollectionRequest {
    pub collection_name: String,
    pub new_name: Option<String>,
    pub new_metadata: Option<Json>,
    pub ef_search: Option<i32>,
    pub num_threads: Option<i32>,
    pub batch_size: Option<i32>,
    pub sync_threshold: Option<i32>,
    pub resize_factor: Option<Json>,
}

/// Arguments of the delete-collection tool.
#[derive(Debug)]
pub struct DeleteCollectionRequest {
    pub collection_name: String,
}

/// Arguments of the add-documents tool.
#[derive(Debug)]
pub struct AddDocumentsRequest {
    pub collection_name: String,
    pub documents: Vec<String>,
    pub metadatas: Option<Vec<Json>>,
    pub ids: Option<Vec<String>>,
}

/// Arguments of the query tool.
#[derive(Debug)]
pub struct QueryDocumentsRequest {
    pub collection_name: String,
    pub query_texts: Vec<String>,
    pub n_results: Option<usize>,
    pub where_filter: Option<Json>,
    pub where_document: Option<Json>,
    pub included: Option<Vec<String>>,
}

/// Arguments of the get-documents tool.
#[derive(Debug)]
pub struct GetDocumentsRequest {
    pub collection_name: String,
    pub ids: Option<Vec<String>>,
    pub where_filter: Option<Json>,
    pub where_document: Option<Json>,
    pub included: Option<Vec<String>>,
    pub limit: Option<usize>,
    pub offset: Option<usize>,
}

/// Arguments of the update-documents tool.
#[derive(Debug)]
pub struct UpdateDocumentsRequest {
    pub collection_name: String,
    pub ids: Vec<String>,
    pub embeddings: Option<Vec<Vec<i64>>>,
    pub metadatas: Option<Vec<Json>>,
    pub documents: Option<Vec<String>>,
}

/// Arguments of the delete-documents tool.
#[derive(Debug)]
pub struct DeleteDocumentsRequest {
    pub collection_name: String,
    pub ids: Vec<String>,
}

/// The store with the named collection guaranteed to exist (created empty
/// when absent), as every tool ensures before it works.
pub open spec fn ensure_v(s: StoreV, name: Seq<char>) -> StoreV {
    if crate::store::has_coll(s.collections, name) {
        s
    } else {
        StoreV { collections: s.collections.push(crate::store::empty_coll(name, None)), ..s }
    }
}

/// The store after creating (or wholesale replacing) a collection.
pub open spec fn create_effect(s: StoreV, name: Seq<char>, meta: Option<JsonV>) -> StoreV {
    StoreV {
        collections: crate::store::put_coll(s.collections, crate::store::empty_coll(name, meta)),
        ..s
    }
}

/// The store after deleting a collection.
pub open spec fn drop_effect(s: StoreV, name: Seq<char>) -> StoreV {
    StoreV { collections: crate::store::drop_coll(s.collections, name), ..s }
}

/// The store after an `add` on an existing collection.
pub open spec fn add_effect(
    s: StoreV,
    name: Seq<char>,
    contents: Seq<Seq<char>>,
    embs: Option<Seq<Seq<i64>>>,
    metas: Option<Seq<JsonV>>,
    ids: Seq<Seq<char>>,
) -> StoreV {
    StoreV {
        collections: s.collections.update(
            crate::store::coll_idx(s.collections, name),
            (crate::store::CollM {
                documents: crate::store::add_fold(
                    crate::store::coll_at(s.collections, name).documents,
                    contents,
                    embs,
                    metas,
                    ids,
                    s.tick,
                    contents.len() as int,
                ),
                ..crate::store::coll_at(s.collections, name)
            }),
        ),
        tick: crate::store::next_tick(s.tick),
        ..s
    }
}

/// The store after an `update` on an existing collection.
pub open spec fn upd_effect(
    s: StoreV,
    name: Seq<char>,
    ids: Seq<Seq<char>>,
    metas: Option<Seq<JsonV>>,
    contents: Option<Seq<Seq<char>>>,
    embs: Option<Seq<Seq<i64>>>,
) -> StoreV {
    StoreV {
        collections: s.collections.update(
            crate::store::coll_idx(s.collections, name),
            (crate::store::CollM {
                documents: crate::store::upd_fold(
                    crate::store::coll_at(s.collections, name).documents,
                    ids,
                    metas,
                    contents,
                    embs,
                    s.tick,
                    ids.len() as int,
                ),
                ..crate::store::coll_at(s.collections, name)
            }),
        ),
        tick: crate::store::next_tick(s.tick),
        ..s
    }
}

/// The store after a `delete` of documents on an existing collection.
pub open spec fn del_effect(s: StoreV, name: Seq<char>, ids: Seq<Seq<char>>) -> StoreV {
    StoreV {
        collections: s.collections.update(
            crate::store::coll_idx(s.collections, name),
            (crate::store::CollM {
                documents: crate::store::del_fold(
                    crate::store::coll_at(s.collections, name).documents,
                    ids,
                    ids.len() as int,
                ),
                ..crate::store::coll_at(s.collections, name)
            }),
        ),
        ..s
    }
}

/// The store after a metadata `modify` on an existing collection.
pub open spec fn modify_effect(s: StoreV, name: Seq<char>, meta: Option<JsonV>) -> StoreV {
    if meta is Some {
        StoreV {
            collections: s.collections.update(
                crate::store::coll_idx(s.collections, name),
                (crate::store::CollM {
                    metadata: meta,
                    ..crate::store::coll_at(s.collections, name)
                }),
            ),
            ..s
        }
    } else {
        s
    }
}

/// The ids an `add` uses: the caller's, or `"0"`, `"1"`, ... when none were
/// given.
pub open spec fn add_ids(ids: Option<Vec<String>>, n: int) -> Seq<Seq<char>> {
    match ids {
        Some(v) => v.deep_view(),
        None => Seq::new(n as nat, |i: int| crate::num::dec_rep(i as nat)),
    }
}

/// Appends `t` to `s`.
pub(crate) fn cat(s: String, t: &str) -> (r: String)
    ensures
        r@ == s@ + t@,
{
    vstd::string::StringExecFns::concat(s, t)
}

/// Lists the names of all collections.
pub fn chroma_list_collections(store: &ChromaClient, request: ListCollectionsRequest) -> (r:
    Result<Vec<String>, ToolError>)
    ensures
        r is Ok,
        r->Ok_0@.len() == store@.collections.len(),
        forall|i: int|
            0 <= i < r->Ok_0@.len() ==> r->Ok_0@[i]@ == (#[trigger] store@.collections[i]).name,
{
    Ok(store.list_collections(request.limit, request.offset))
}

/// Creates (or wholesale replaces) a collection.
pub fn chroma_create_collection(store: &mut ChromaClient, request: CreateCollectionRequest) -> (
    r: Result<String, ToolError>)
    requires
        old(store).wf(),
    ensures
        final(store).wf(),
        r is Ok,
        r->Ok_0@ == "Created collection: "@ + request.collection_name@,
        final(store)@ == create_effect(
            old(store)@,
            request.collection_name@,
            crate::store::opt_v(request.metadata),
        ),
{
    let msg = store.create_collection(request.collection_name.as_str(), request.metadata);
    Ok(msg)
}

/// Deletes a collection; absence is no error.
pub fn chroma_delete_collection(store: &mut ChromaClient, request: DeleteCollectionRequest) -> (
    r: Result<String, ToolError>)
    requires
        old(store).wf(),
    ensures
        final(store).wf(),
        r is Ok,
        r->Ok_0@ == "Successfully deleted collection "@ + request.collection_name@,
        final(store)@ == drop_effect(old(store)@, request.collection_name@),
{
    store.delete_collection(request.collection_name.as_str());
    let msg = cat(
        String::from_str("Successfully deleted collection "),
        request.collection_name.as_str(),
    );
    Ok(msg)
}

/// A sample of the collection's documents (ensuring the collection).
pub fn chroma_peek_collection(store: &mut ChromaClient, request: PeekCollectionRequest) -> (r:
    Result<Json, ToolError>)
    requires
        old(store).wf(),
    ensures
        final(store).wf(),
        r is Ok,
        final(store)@ == ensure_v(old(store)@, request.collection_name@),
        r->Ok_0.v() == crate::store::get_result_v(
            crate::store::docs_of(final(store)@.collections, request.collection_name@),
            crate::store::get_limit(
                crate::store::docs_of(
                    final(store)@.collections,
                    request.collection_name@,
                ).len() as int,
                Some(request.limit),
            ),
        ),
{
    let coll = store.get_collection(request.collection_name.as_str());
    Ok(coll.peek(store, request.limit))
}

/// Name, count and a three-document sample of a collection (ensuring it).
pub fn chroma_get_collection_info(store: &mut ChromaClient, request: GetCollectionInfoRequest)
    -> (r: Result<Json, ToolError>)
    requires
        old(store).wf(),
    ensures
        final(store).wf(),
        r is Ok,
        final(store)@ == ensure_v(old(store)@, request.collection_name@),
        r->Ok_0.v() == info_v(final(store)@, request.collection_name@),
{
    let coll = store.get_collection(request.collection_name.as_str());
    let count = coll.count(store);
    let sample = coll.peek(store, 3);
    let count64 = count as u64;
    let count_j: i64 = if count64 > 0x7FFF_FFFF_FFFF_FFFFu64 {
        0x7FFF_FFFF_FFFF_FFFFi64
    } else {
        count64 as i64
    };
    let ghost sample_v = sample.v();
    let name_j = Json::Str(crate::json::clone_string(&request.collection_name));
    let ghost name_v = name_j.v();
    let count_json = Json::Int(count_j);
    let ghost count_v = count_json.v();
    let mut fields: Vec<(String, Json)> = Vec::with_capacity(3);
    fields.push((String::from_str("name"), name_j));
    fields.push((String::from_str("count"), count_json));
    fields.push((String::from_str("sample_documents"), sample));
    let r = Json::Obj(fields);
    proof {
        let want = info_v(store@, request.collection_name@);
        assert(r.v()->Obj_0.len() == 3);
        assert(r.v()->Obj_0[0] == ("name"@, name_v));
        assert(name_v == JsonV::Str(request.collection_name@));
        assert(r.v()->Obj_0[1] == ("count"@, count_v));
        assert(count_v == JsonV::Int(count_j as int));
        assert(count_j as int == want->Obj_0[1].1->Int_0);
        assert(r.v()->Obj_0[2] == ("sample_documents"@, sample_v));
        assert(r.v()->Obj_0 =~~= want->Obj_0);
        assert(r.v() =~~= want);
    }
    Ok(r)
}

/// The collection-info result: name, count (saturated to `i64`), and a
/// three-document sample.
pub open spec fn info_v(s: StoreV, name: Seq<char>) -> JsonV {
    let docs = crate::store::docs_of(s.collections, name);
    JsonV::Obj(
        seq![
            ("name"@, JsonV::Str(name)),
            (
                "count"@,
                JsonV::Int(
                    if docs.len() > 0x7FFF_FFFF_FFFF_FFFF {
                        0x7FFF_FFFF_FFFF_FFFFint
                    } else {
                        docs.len() as int
                    },
                ),
            ),
            (
                "sample_documents"@,
                crate::store::get_result_v(
                    docs,
                    crate::store::get_limit(docs.len() as int, Some(3)),
                ),
            ),
        ],
    )
}

/// The number of documents in a collection (ensuring it).
pub fn chroma_get_collection_count(store: &mut ChromaClient, request: GetCollectionCountRequest)
    -> (r: Result<usize, ToolError>)
    requires
        old(store).wf(),
    ensures
        final(store).wf(),
        r is Ok,
        final(store)@ == ensure_v(old(store)@, request.collection_name@),
        r->Ok_0 == crate::store::docs_of(
            final(store)@.collections,
            request.collection_name@,
        ).len(),
{
    let coll = store.get_collection(request.collection_name.as_str());
    Ok(coll.count(store))
}

/// The aspects named in a modify confirmation.
pub open spec fn aspects_text(has_name: bool, has_meta: bool, has_hnsw: bool) -> Seq<char> {
    if has_name && has_meta && has_hnsw {
        "name and metadata and hnsw"@
    } else if has_name && has_meta {
        "name and metadata"@
    } else if has_name && has_hnsw {
        "name and hnsw"@
    } else if has_meta && has_hnsw {
        "metadata and hnsw"@
    } else if has_name {
        "name"@
    } else if has_meta {
        "metadata"@
    } else if has_hnsw {
        "hnsw"@
    } else {
        ""@
    }
}

/// Replaces collection metadata (ensuring the collection); a new name is
/// accepted but the collection keeps its key.
pub fn chroma_modify_collection(store: &mut ChromaClient, request: ModifyCollectionRequest) -> (
    r: Result<String, ToolError>)
    requires
        old(store).wf(),
    ensures
        final(store).wf(),
        r is Ok,
        final(store)@ == modify_effect(
            ensure_v(old(store)@, request.collection_name@),
            request.collection_name@,
            crate::store::opt_v(request.new_metadata),
        ),
        r->Ok_0@ == "Successfully modified collection "@ + request.collection_name@
            + ": updated "@ + aspects_text(
            request.new_name is Some,
            request.new_metadata is Some,
            request.ef_search is Some || request.num_threads is Some || request.batch_size
                is Some || request.sync_threshold is Some || request.resize_factor is Some,
        ),
{
    let has_name = request.new_name.is_some();
    let has_meta = request.new_metadata.is_some();
    let has_hnsw = request.ef_search.is_some() || request.num_threads.is_some()
        || request.batch_size.is_some() || request.sync_threshold.is_some()
        || request.resize_factor.is_some();
    let coll = store.get_collection(request.collection_name.as_str());
    coll.modify(store, request.new_name, request.new_metadata);
    let aspects: &str = if has_name && has_meta && has_hnsw {
        "name and metadata and hnsw"
    } else if has_name && has_meta {
        "name and metadata"
    } else if has_name && has_hnsw {
        "name and hnsw"
    } else if has_meta && has_hnsw {
        "metadata and hnsw"
    } else if has_name {
        "name"
    } else if has_meta {
        "metadata"
    } else if has_hnsw {
        "hnsw"
    } else {
        ""
    };
    let msg = cat(
        cat(
            cat(
                String::from_str("Successfully modified collection "),
                request.collection_name.as_str(),
            ),
            ": updated ",
        ),
        aspects,
    );
    Ok(msg)
}

/// Adds documents to a collection (ensuring it); ids default to the
/// decimal positions. The embeddings are always synthesized from the
/// contents here; explicitly stored vectors enter through the update tool.
pub fn chroma_add_documents(store: &mut ChromaClient, request: AddDocumentsRequest) -> (r:
    Result<String, ToolError>)
    requires
        old(store).wf(),
    ensures
        final(store).wf(),
        r is Err <==> request.documents@.len() == 0,
        r is Err ==> r->Err_0.v() == "The 'documents' list cannot be empty."@ && final(store)@
            == old(store)@,
        r is Ok ==> final(store)@ == add_effect(
            ensure_v(old(store)@, request.collection_name@),
            request.collection_name@,
            request.documents.deep_view(),
            None,
            crate::store::metas_v(request.metadatas),
            add_ids(request.ids, request.documents@.len() as int),
        ),
        r is Ok ==> r->Ok_0@ == "Successfully added "@ + crate::num::dec_rep(
            request.documents@.len() as nat,
        ) + " documents to collection "@ + request.collection_name@,
{
    if request.documents.len() == 0 {
        return Err(tool_error("The 'documents' list cannot be empty."));
    }
    let n = request.documents.len();
    let ids: Vec<String> = match request.ids {
        Some(v) => v,
        None => {
            let mut out: Vec<String> = Vec::with_capacity(n);
            let mut i: usize = 0;
            while i < n
                invariant
                    i <= n,
                    out@.len() == i,
                    forall|j: int|
                        0 <= j < i ==> out@[j]@ == crate::num::dec_rep(j as nat),
                decreases n - i,
            {
                let d = crate::num::u64_to_string(i as u64);
                out.push(d);
                i = i + 1;
            }
            out
        },
    };
    proof {
        assert(ids.deep_view() =~~= add_ids(request.ids, request.documents@.len() as int));
    }
    let coll = store.get_collection(request.collection_name.as_str());
    coll.add(store, request.documents, None, request.metadatas, ids);
    let digits = crate::num::u64_to_string(n as u64);
    let msg = cat(
        cat(
            cat(String::from_str("Successfully added "), digits.as_str()),
            " documents to collection ",
        ),
        request.collection_name.as_str(),
    );
    Ok(msg)
}

/// Ranks documents by similarity to the first query text (ensuring the
/// collection); the result count defaults to five.
pub fn chroma_query_documents(store: &mut ChromaClient, request: QueryDocumentsRequest) -> (r:
    Result<Json, ToolError>)
    requires
        old(store).wf(),
    ensures
        final(store).wf(),
        r is Err <==> request.query_texts@.len() == 0,
        r is Err ==> r->Err_0.v() == "The 'query_texts' list cannot be empty."@ && final(store)@
            == old(store)@,
        r is Ok ==> final(store)@ == ensure_v(old(store)@, request.collection_name@),
        r is Ok ==> r->Ok_0.v() == crate::store::query_v(
            final(store)@.collections,
            request.collection_name@,
            request.query_texts.deep_view(),
            match request.n_results {
                Some(n) => n as int,
                None => 5,
            },
        ),
{
    if request.query_texts.len() == 0 {
        return Err(tool_error("The 'query_texts' list cannot be empty."));
    }
    let n_results = match request.n_results {
        Some(n) => n,
        None => 5,
    };
    let coll = store.get_collection(request.collection_name.as_str());
    let r = coll.query(
        store,
        request.query_texts,
        n_results,
        request.where_filter,
        request.where_document,
        match request.included {
            Some(v) => v,
            None => Vec::new(),
        },
    );
    Ok(r)
}

/// The documents of a collection in iteration order (ensuring the
/// collection); filters are accepted but not applied.
pub fn chroma_get_documents(store: &mut ChromaClient, request: GetDocumentsRequest) -> (r:
    Result<Json, ToolError>)
    requires
        old(store).wf(),
    ensures
        final(store).wf(),
        r is Ok,
        final(store)@ == ensure_v(old(store)@, request.collection_name@),
        r->Ok_0.v() == crate::store::get_result_v(
            crate::store::docs_of(final(store)@.collections, request.collection_name@),
            crate::store::get_limit(
                crate::store::docs_of(
                    final(store)@.collections,
                    request.collection_name@,
                ).len() as int,
                request.limit,
            ),
        ),
{
    let coll = store.get_collection(request.collection_name.as_str());
    let r = coll.get(
        store,
        request.ids,
        request.where_filter,
        request.where_document,
        match request.included {
            Some(v) => v,
            None => Vec::new(),
        },
        request.limit,
        request.offset,
    );
    Ok(r)
}

/// Whether an update request's supplied payloads all match the id count.
pub open spec fn update_lengths_ok(request: UpdateDocumentsRequest) -> bool {
    &&& (request.embeddings matches Some(e) ==> e@.len() == request.ids@.len())
    &&& (request.metadatas matches Some(m) ==> m@.len() == request.ids@.len())
    &&& (request.documents matches Some(d) ==> d@.len() == request.ids@.len())
}

/// The update error message, if the request is invalid: empty ids, no
/// payload at all, or a payload whose length differs from the ids' (checked
/// in the order embeddings, metadatas, documents).
pub open spec fn update_error(request: UpdateDocumentsRequest) -> Option<Seq<char>> {
    if request.ids@.len() == 0 {
        Some("The 'ids' list cannot be empty."@)
    } else if request.embeddings is None && request.metadatas is None && request.documents
        is None {
        Some(
            "At least one of 'embeddings', 'metadatas', or 'documents' must be provided for update."@,
        )
    } else if request.embeddings matches Some(e) && e@.len() != request.ids@.len() {
        Some("Length of 'embeddings' list must match length of 'ids' list."@)
    } else if request.metadatas matches Some(m) && m@.len() != request.ids@.len() {
        Some("Length of 'metadatas' list must match length of 'ids' list."@)
    } else if request.documents matches Some(d) && d@.len() != request.ids@.len() {
        Some("Length of 'documents' list must match length of 'ids' list."@)
    } else {
        None
    }
}

/// Updates listed documents (ensuring the collection): at least one payload
/// must be supplied and all payloads must match the id count.
pub fn chroma_update_documents(store: &mut ChromaClient, request: UpdateDocumentsRequest) -> (r:
    Result<String, ToolError>)
    requires
        old(store).wf(),
    ensures
        final(store).wf(),
        r is Err <==> update_error(request) is Some,
        r is Err ==> Some(r->Err_0.v()) == update_error(request) && final(store)@ == old(
            store,
        )@,
        r is Ok ==> final(store)@ == upd_effect(
            ensure_v(old(store)@, request.collection_name@),
            request.collection_name@,
            request.ids.deep_view(),
            crate::store::metas_v(request.metadatas),
            crate::store::opt_deep(request.documents),
            crate::store::embs_v(request.embeddings),
        ),
        r is Ok ==> r->Ok_0@ == "Successfully updated "@ + crate::num::dec_rep(
            request.ids@.len() as nat,
        ) + " documents in collection '"@ + request.collection_name@ + "'"@,
{
    if request.ids.len() == 0 {
        return Err(tool_error("The 'ids' list cannot be empty."));
    }
    if request.embeddings.is_none() && request.metadatas.is_none()
        && request.documents.is_none() {
        return Err(
            tool_error(
                "At least one of 'embeddings', 'metadatas', or 'documents' must be provided for update.",
            ),
        );
    }
    match &request.embeddings {
        Some(e) => if e.len() != request.ids.len() {
            return Err(
                tool_error("Length of 'embeddings' list must match length of 'ids' list."),
            );
        },
        None => {},
    }
    match &request.metadatas {
        Some(m) => if m.len() != request.ids.len() {
            return Err(
                tool_error("Length of 'metadatas' list must match length of 'ids' list."),
            );
        },
        None => {},
    }
    match &request.documents {
        Some(d) => if d.len() != request.ids.len() {
            return Err(
                tool_error("Length of 'documents' list must match length of 'ids' list."),
            );
        },
        None => {},
    }
    let n = request.ids.len();
    let coll = store.get_collection(request.collection_name.as_str());
    coll.update(store, request.ids, request.embeddings, request.metadatas, request.documents);
    let digits = crate::num::u64_to_string(n as u64);
    let msg = cat(
        cat(
            cat(
                cat(String::from_str("Successfully updated "), digits.as_str()),
                " documents in collection '",
            ),
            request.collection_name.as_str(),
        ),
        "'",
    );
    Ok(msg)
}

/// Deletes listed documents (ensuring the collection); the id list must not
/// be empty, absent ids are no error.
pub fn chroma_delete_documents(store: &mut ChromaClient, request: DeleteDocumentsRequest) -> (r:
    Result<String, ToolError>)
    requires
        old(store).wf(),
    ensures
        final(store).wf(),
        r is Err <==> request.ids@.len() == 0,
        r is Err ==> r->Err_0.v() == "The 'ids' list cannot be empty."@ && final(store)@ == old(
            store,
        )@,
        r is Ok ==> final(store)@ == del_effect(
            ensure_v(old(store)@, request.collection_name@),
            request.collection_name@,
            request.ids.deep_view(),
        ),
        r is Ok ==> r->Ok_0@ == "Successfully deleted "@ + crate::num::dec_rep(
            request.ids@.len() as nat,
        ) + " documents from collection '"@ + request.collection_name@ + "'"@,
{
    if request.ids.len() == 0 {
        return Err(tool_error("The 'ids' list cannot be empty."));
    }
    let n = request.ids.len();
    let coll = store.get_collection(request.collection_name.as_str());
    coll.delete(store, request.ids);
    let digits = crate::num::u64_to_string(n as u64);
    let msg = cat(
        cat(
            cat(
                cat(String::from_str("Successfully deleted "), digits.as_str()),
                " documents from collection '",
            ),
            request.collection_name.as_str(),
        ),
        "'",
    );
    Ok(msg)
}

/// One recorded step of a sequential line of thought.
#[derive(Debug)]
pub struct ThoughtData {
    pub session_id: String,
    pub thought: String,
    pub thought_number: usize,
    pub total_thoughts: usize,
    pub next_thought_needed: bool,
    pub is_revision: Option<bool>,
    pub revises_thought: Option<usize>,
    pub branch_from_thought: Option<usize>,
    pub branch_id: Option<String>,
    pub needs_more_thoughts: Option<bool>,
}

/// The acknowledgement of a recorded thought.
#[derive(Debug)]
pub struct ThoughtResponse {
    pub session_id: String,
    pub thought_number: usize,
    pub total_thoughts: usize,
    pub next_thought_needed: bool,
    pub error: Option<String>,
    pub status: Option<String>,
}

/// The reason a thought is invalid, if any: empty session, empty text, or a
/// zero counter.
pub open spec fn thought_error(input: ThoughtData) -> Option<Seq<char>> {
    if input.session_id@.len() == 0 {
        Some("Invalid sessionId: must be provided"@)
    } else if input.thought@.len() == 0 {
        Some("Invalid thought: must be a string"@)
    } else if input.thought_number == 0 {
        Some("Invalid thoughtNumber: must be a number greater than 0"@)
    } else if input.total_thoughts == 0 {
        Some("Invalid totalThoughts: must be a number greater than 0"@)
    } else {
        None
    }
}

/// Checks a thought for the conditions of [`thought_error`].
pub fn validate_thought_data(input_data: &ThoughtData) -> (r: Result<(), ToolError>)
    ensures
        r is Ok <==> thought_error(*input_data) is None,
        r is Err ==> Some(r->Err_0.v()) == thought_error(*input_data),
{
    if input_data.session_id.as_str().is_empty() {
        return Err(tool_error("Invalid sessionId: must be provided"));
    }
    if input_data.thought.as_str().is_empty() {
        return Err(tool_error("Invalid thought: must be a string"));
    }
    if input_data.thought_number == 0 {
        return Err(tool_error("Invalid thoughtNumber: must be a number greater than 0"));
    }
    if input_data.total_thoughts == 0 {
        return Err(tool_error("Invalid totalThoughts: must be a number greater than 0"));
    }
    Ok(())
}

/// Records a thought: a valid one is acknowledged with the total raised to
/// the step number when the step ran past it; an invalid one is
/// acknowledged as failed, with its reason.
pub fn process_thought(input_data: ThoughtData) -> (r: ThoughtResponse)
    ensures
        r.session_id@ == input_data.session_id@,
        r.thought_number == input_data.thought_number,
        r.next_thought_needed == input_data.next_thought_needed,
        thought_error(input_data) is None ==> r.total_thoughts == if input_data.thought_number
            > input_data.total_thoughts {
            input_data.thought_number
        } else {
            input_data.total_thoughts
        } && r.error is None && r.status is None,
        thought_error(input_data) is Some ==> r.total_thoughts == input_data.total_thoughts && (
        r.error matches Some(e) && Some(e@) == thought_error(input_data)) && (
        r.status matches Some(st) && st@ == "failed"@),
{
    match validate_thought_data(&input_data) {
        Ok(_) => {
            let total_thoughts = if input_data.thought_number > input_data.total_thoughts {
                input_data.thought_number
            } else {
                input_data.total_thoughts
            };
            ThoughtResponse {
                session_id: input_data.session_id,
                thought_number: input_data.thought_number,
                total_thoughts,
                next_thought_needed: input_data.next_thought_needed,
                error: None,
                status: None,
            }
        },
        Err(e) => ThoughtResponse {
            session_id: input_data.session_id,
            thought_number: input_data.thought_number,
            total_thoughts: input_data.total_thoughts,
            next_thought_needed: input_data.next_thought_needed,
            error: Some(e.message),
            status: Some(String::from_str("failed")),
        },
    }
}

} // verus!
