//! Exact decimal rendering of a double-precision value from its IEEE-754
//! bit pattern, in pure integer arithmetic.
//!
//! Every finite double is `m * 2^e` for a mantissa `m < 2^53` and an
//! exponent `e >= -1074`, so its exact decimal form has integer digits
//! `m * 2^e` (for `e >= 0`) or the digits of `m * 5^-e` split `-e` places
//! from the right (for `e < 0`). The fraction is printed with its trailing
//! zeros removed, and dropped entirely when empty.

use vstd::arithmetic::div_mod::{
    lemma_fundamental_div_mod, lemma_fundamental_div_mod_converse,
};
use vstd::prelude::*;
use vstd::string::StringExecFns;

use crate::text::{hex_digit, hex_digit_str};

verus! {

/// `b` to the power `e`.
pub open spec fn pow_int(b: int, e: nat) -> int
    decreases e,
{
    if e == 0 {
        1
    } else {
        b * pow_int(b, (e - 1) as nat)
    }
}

/// A positive base to any power is positive.
proof fn lemma_pow_int_pos(b: int, e: nat)
    requires
        b > 0,
    ensures
        pow_int(b, e) > 0,
    decreases e,
{
    if e > 0 {
        lemma_pow_int_pos(b, (e - 1) as nat);
        let p = pow_int(b, (e - 1) as nat);
        assert(b * p > 0) by (nonlinear_arith)
            requires
                b > 0,
                p > 0,
        ;
    }
}

/// The value of a little-endian digit sequence.
pub open spec fn digits_val(s: Seq<u8>) -> int
    decreases s.len(),
{
    if s.len() == 0 {
        0
    } else {
        s[0] + 10 * digits_val(s.drop_first())
    }
}

/// Every element is a decimal digit.
pub open spec fn all_digits(s: Seq<u8>) -> bool {
    forall|i: int| 0 <= i < s.len() ==> s[i] < 10
}

/// No leading zero: the most significant digit, when there is one, is not
/// zero.
pub open spec fn canonical_digits(s: Seq<u8>) -> bool {
    s.len() == 0 || s.last() != 0
}

/// The little-endian decimal digits of a natural number; empty for zero.
pub open spec fn nat_digits(n: nat) -> Seq<u8>
    decreases n,
{
    if n == 0 {
        seq![]
    } else {
        seq![(n % 10) as u8] + nat_digits(n / 10)
    }
}

/// The run of zero digits at the little end of a sequence.
pub open spec fn low_zero_run(s: Seq<u8>) -> int
    decreases s.len(),
{
    if s.len() == 0 {
        0
    } else if s[0] == 0 {
        1 + low_zero_run(s.drop_first())
    } else {
        0
    }
}

/// How many of the `k` fraction digits are trailing zeros to drop.
pub open spec fn trim_count(s: Seq<u8>, k: int) -> int {
    if low_zero_run(s) < k {
        low_zero_run(s)
    } else {
        k
    }
}

/// The display characters of a little-endian digit sequence: most
/// significant digit first.
pub open spec fn digits_chars(s: Seq<u8>) -> Seq<char>
    decreases s.len(),
{
    if s.len() == 0 {
        seq![]
    } else {
        digits_chars(s.drop_first()) + seq![hex_digit(s[0])]
    }
}

/// The character of the `j`-th fraction digit (counting from the decimal
/// point) when the low `k` digits of `d` stand after the point.
pub open spec fn frac_digit_at(d: Seq<u8>, k: int, j: int) -> char {
    hex_digit(
        if k - 1 - j < d.len() {
            d[k - 1 - j]
        } else {
            0
        },
    )
}

/// The full decimal rendering of a non-zero value whose canonical digits
/// are `d`, of which the low `k` stand after the decimal point.
pub open spec fn decimal_chars(neg: bool, d: Seq<u8>, k: int) -> Seq<char> {
    let t = trim_count(d, k);
    let kk = k - t;
    let sign_part: Seq<char> = if neg {
        seq!['-']
    } else {
        seq![]
    };
    let int_part: Seq<char> = if d.len() <= k {
        seq!['0']
    } else {
        digits_chars(d.skip(k))
    };
    let frac_part: Seq<char> = if kk == 0 {
        seq![]
    } else {
        seq!['.'] + Seq::new(kk as nat, |j: int| frac_digit_at(d, k, j))
    };
    sign_part + int_part + frac_part
}

/// The exact decimal text of the double whose IEEE-754 bit pattern is
/// `bits`: infinities and NaN by name, zeros as `0` or `-0`, every other
/// value as its exact decimal expansion with the fraction's trailing zeros
/// removed.
pub open spec fn double_text(bits: u64) -> Seq<char> {
    let neg = bits >> 63 == 1;
    let exp = (bits >> 52) & 0x7ff;
    let frac = bits & 0xf_ffff_ffff_ffff;
    if exp == 0x7ff {
        if frac == 0 {
            if neg {
                "-inf"@
            } else {
                "inf"@
            }
        } else {
            "NaN"@
        }
    } else {
        let m = if exp == 0 {
            frac
        } else {
            (frac + 0x10_0000_0000_0000) as u64
        };
        if m == 0 {
            if neg {
                "-0"@
            } else {
                "0"@
            }
        } else {
            let k: int = if exp == 0 {
                1074
            } else if exp < 1075 {
                1075 - exp
            } else {
                0
            };
            let n: int = if exp >= 1075 {
                m * pow_int(2, (exp - 1075) as nat)
            } else {
                m * pow_int(5, k as nat)
            };
            decimal_chars(neg, nat_digits(n as nat), k)
        }
    }
}

/// Appending a digit at the big end adds its value at the next power of
/// ten.
proof fn lemma_digits_val_snoc(s: Seq<u8>, d: u8)
    ensures
        digits_val(s.push(d)) == digits_val(s) + pow_int(10, s.len()) * d,
    decreases s.len(),
{
    if s.len() == 0 {
        assert(s.push(d) =~= seq![d]);
        assert(seq![d].drop_first() =~= Seq::<u8>::empty());
        assert(digits_val(Seq::<u8>::empty()) == 0);
        assert(digits_val(seq![d]) == d);
        assert(pow_int(10, 0) == 1);
        let p0 = pow_int(10, 0);
        assert(p0 * d == d) by (nonlinear_arith)
            requires
                p0 == 1,
        ;
    } else {
        assert(s.push(d).drop_first() =~= s.drop_first().push(d));
        lemma_digits_val_snoc(s.drop_first(), d);
        let a = digits_val(s.drop_first());
        let p = pow_int(10, s.drop_first().len());
        assert(digits_val(s.push(d)) == s[0] + 10 * (a + p * d));
        assert(pow_int(10, s.len()) == 10 * p);
        assert(10 * (a + p * d) == 10 * a + (10 * p) * d) by (nonlinear_arith);
    }
}

/// Digit sequences name non-negative values.
proof fn lemma_digits_val_nonneg(s: Seq<u8>)
    ensures
        digits_val(s) >= 0,
    decreases s.len(),
{
    if s.len() > 0 {
        lemma_digits_val_nonneg(s.drop_first());
    }
}

/// A canonical, non-empty digit sequence names a positive value.
proof fn lemma_digits_val_pos(s: Seq<u8>)
    requires
        canonical_digits(s),
        s.len() > 0,
    ensures
        digits_val(s) > 0,
    decreases s.len(),
{
    assert(digits_val(s) == s[0] + 10 * digits_val(s.drop_first()));
    if s.len() == 1 {
        assert(s[0] == s.last());
        assert(s.drop_first() =~= Seq::<u8>::empty());
        assert(digits_val(Seq::<u8>::empty()) == 0);
    } else {
        assert(s.drop_first().last() == s.last());
        lemma_digits_val_pos(s.drop_first());
    }
}

/// `nat_digits` produces the canonical digit sequence of its argument.
proof fn lemma_nat_digits_correct(n: nat)
    ensures
        all_digits(nat_digits(n)),
        canonical_digits(nat_digits(n)),
        digits_val(nat_digits(n)) == n,
    decreases n,
{
    if n != 0 {
        lemma_nat_digits_correct(n / 10);
        lemma_fundamental_div_mod(n as int, 10);
        let s = nat_digits(n);
        assert(s.drop_first() =~= nat_digits(n / 10));
        assert(digits_val(s) == n % 10 + 10 * digits_val(nat_digits(n / 10)));
        if n / 10 == 0 {
            assert(s.last() == (n % 10) as u8);
        } else {
            lemma_digits_val_pos(nat_digits(n / 10));
            assert(nat_digits(n / 10).len() > 0);
            assert(s.last() == nat_digits(n / 10).last());
        }
    }
}

/// Two canonical digit sequences with one value are the same sequence.
proof fn lemma_digits_unique(s: Seq<u8>, t: Seq<u8>)
    requires
        all_digits(s),
        all_digits(t),
        canonical_digits(s),
        canonical_digits(t),
        digits_val(s) == digits_val(t),
    ensures
        s =~= t,
    decreases s.len(),
{
    if s.len() == 0 {
        if t.len() > 0 {
            lemma_digits_val_pos(t);
        }
    } else if t.len() == 0 {
        lemma_digits_val_pos(s);
    } else {
        lemma_digits_val_nonneg(s.drop_first());
        lemma_digits_val_nonneg(t.drop_first());
        lemma_fundamental_div_mod_converse(
            digits_val(s),
            10,
            digits_val(s.drop_first()),
            s[0] as int,
        );
        lemma_fundamental_div_mod_converse(
            digits_val(t),
            10,
            digits_val(t.drop_first()),
            t[0] as int,
        );
        assert(s[0] == t[0]);
        assert(digits_val(s.drop_first()) == digits_val(t.drop_first()));
        if s.len() == 1 {
            assert(s.drop_first() =~= Seq::<u8>::empty());
            assert(digits_val(Seq::<u8>::empty()) == 0);
            if t.len() > 1 {
                assert(t.drop_first().last() == t.last());
                lemma_digits_val_pos(t.drop_first());
            }
            assert(t.len() == 1);
            assert(s =~= t);
        } else {
            assert(s.drop_first().last() == s.last());
            if t.len() == 1 {
                assert(t.drop_first() =~= Seq::<u8>::empty());
                assert(digits_val(Seq::<u8>::empty()) == 0);
                lemma_digits_val_pos(s.drop_first());
            } else {
                assert(t.drop_first().last() == t.last());
                lemma_digits_unique(s.drop_first(), t.drop_first());
                assert(s.len() == t.len());
                assert forall|i: int| 0 <= i < s.len() implies s[i] == t[i] by {
                    if i > 0 {
                        assert(s.drop_first()[i - 1] == t.drop_first()[i - 1]);
                    }
                }
                assert(s =~= t);
            }
        }
    }
}

/// The low zero run is never negative.
proof fn lemma_low_zero_run_nonneg(s: Seq<u8>)
    ensures
        low_zero_run(s) >= 0,
    decreases s.len(),
{
    if s.len() > 0 && s[0] == 0 {
        lemma_low_zero_run_nonneg(s.drop_first());
    }
}

/// A prefix of zeros pins the low zero run from below; a non-zero digit
/// right after pins it exactly.
proof fn lemma_low_zero_run_at(s: Seq<u8>, j: int)
    requires
        0 <= j <= s.len(),
        forall|i: int| 0 <= i < j ==> s[i] == 0,
    ensures
        low_zero_run(s) >= j,
        j < s.len() && s[j] != 0 ==> low_zero_run(s) == j,
    decreases j,
{
    lemma_low_zero_run_nonneg(s);
    if j > 0 {
        assert(s[0] == 0);
        assert(forall|i: int| 0 <= i < j - 1 ==> s.drop_first()[i] == s[i + 1] && s.drop_first()[i]
            == 0);
        lemma_low_zero_run_at(s.drop_first(), j - 1);
        assert(low_zero_run(s) == 1 + low_zero_run(s.drop_first()));
        if j < s.len() && s[j] != 0 {
            assert(s.drop_first()[j - 1] != 0);
        }
    } else if j < s.len() && s[j] != 0 {
        assert(s[0] != 0);
        assert(low_zero_run(s) == 0);
    }
}

/// The little-endian decimal digits of a 64-bit value.
fn digits_of_u64(n: u64) -> (r: Vec<u8>)
    ensures
        r@ == nat_digits(n as nat),
{
    let mut v: Vec<u8> = Vec::new();
    let mut x: u64 = n;
    while x > 0
        invariant
            nat_digits(n as nat) =~= v@ + nat_digits(x as nat),
        decreases x,
    {
        proof {
            lemma_fundamental_div_mod(x as int, 10);
        }
        v.push((x % 10) as u8);
        x = x / 10;
        assert(nat_digits(n as nat) =~= v@ + nat_digits(x as nat));
    }
    proof {
        assert(nat_digits(n as nat) =~= v@);
    }
    v
}

/// Multiply a digit sequence by a small factor, schoolbook style.
fn mul_digits(v: &Vec<u8>, c: u8) -> (r: Vec<u8>)
    requires
        2 <= c <= 5,
        all_digits(v@),
    ensures
        all_digits(r@),
        digits_val(r@) == c * digits_val(v@),
{
    let mut out: Vec<u8> = Vec::new();
    let mut carry: u8 = 0;
    let mut i: usize = 0;
    while i < v.len()
        invariant
            2 <= c <= 5,
            all_digits(v@),
            i <= v@.len(),
            out@.len() == i,
            carry <= 5,
            all_digits(out@),
            digits_val(out@) + pow_int(10, i as nat) * carry == c * digits_val(v@.take(i as int)),
        decreases v@.len() - i,
    {
        assert(v@[i as int] < 10);
        assert(c * v@[i as int] <= 45) by (nonlinear_arith)
            requires
                c <= 5,
                v@[i as int] < 10,
        ;
        let prod: u8 = c * v[i] + carry;
        let digit: u8 = prod % 10;
        let carry2: u8 = prod / 10;
        proof {
            lemma_fundamental_div_mod(prod as int, 10);
            lemma_digits_val_snoc(out@, digit);
            lemma_digits_val_snoc(v@.take(i as int), v@[i as int]);
            assert(v@.take(i as int).push(v@[i as int]) =~= v@.take(i + 1));
            let ao = digits_val(out@);
            let an = digits_val(out@.push(digit));
            let bo = digits_val(v@.take(i as int));
            let bn = digits_val(v@.take(i + 1));
            let p = pow_int(10, i as nat);
            let p1 = pow_int(10, (i + 1) as nat);
            let vd = v@[i as int];
            assert(p1 == 10 * p);
            assert(an + p1 * carry2 == c * bn) by (nonlinear_arith)
                requires
                    an == ao + p * digit,
                    bn == bo + p * vd,
                    ao + p * carry == c * bo,
                    prod == c * vd + carry,
                    prod == 10 * carry2 + digit,
                    p1 == 10 * p,
            ;
        }
        out.push(digit);
        carry = carry2;
        i = i + 1;
    }
    proof {
        assert(v@.take(v@.len() as int) =~= v@);
    }
    if carry > 0 {
        proof {
            lemma_digits_val_snoc(out@, carry);
        }
        out.push(carry);
    }
    out
}

/// Render the canonical digits `v` (the low `k` of them fraction digits)
/// with sign, decimal point, and trailing fraction zeros removed.
fn render_digits(neg: bool, v: &Vec<u8>, k: usize) -> (r: String)
    requires
        all_digits(v@),
        canonical_digits(v@),
        v@.len() > 0,
    ensures
        r@ == decimal_chars(neg, v@, k as int),
{
    proof {
        reveal_strlit("-");
        reveal_strlit(".");
        reveal_strlit("0");
    }
    let mut out: String = String::new();
    if neg {
        out.append("-");
    }
    let ghost sign_part: Seq<char> = if neg {
        seq!['-']
    } else {
        seq![]
    };
    assert(out@ =~= sign_part);
    if v.len() <= k {
        out.append("0");
        assert(out@ =~= sign_part + seq!['0']);
    } else {
        let mut i: usize = v.len();
        while i > k
            invariant
                k <= i <= v@.len(),
                all_digits(v@),
                out@ =~= sign_part + digits_chars(v@.skip(i as int)),
            decreases i,
        {
            i = i - 1;
            out.append(hex_digit_str(v[i]));
            proof {
                assert(v@.skip(i as int).drop_first() =~= v@.skip(i + 1));
                assert(digits_chars(v@.skip(i as int)) =~= digits_chars(v@.skip(i + 1)) + seq![
                    hex_digit(v@[i as int]),
                ]);
                assert(out@ =~= sign_part + digits_chars(v@.skip(i as int)));
            }
        }
    }
    let ghost int_part: Seq<char> = if v@.len() <= k {
        seq!['0']
    } else {
        digits_chars(v@.skip(k as int))
    };
    assert(out@ =~= sign_part + int_part);
    let mut t: usize = 0;
    while t < k && t < v.len() && v[t] == 0
        invariant
            0 <= t <= k,
            t <= v@.len(),
            forall|i: int| 0 <= i < t ==> v@[i] == 0,
        decreases k - t,
    {
        t = t + 1;
    }
    proof {
        lemma_low_zero_run_at(v@, t as int);
        if t < k {
            if t < v@.len() {
                assert(v@[t as int] != 0);
                assert(low_zero_run(v@) == t);
            } else {
                assert(v@.last() == 0);
                assert(false);
            }
        }
        assert(trim_count(v@, k as int) == t) by {
            if t < k {
                assert(low_zero_run(v@) == t);
            } else {
                assert(low_zero_run(v@) >= k);
            }
        }
    }
    let kk: usize = k - t;
    if kk > 0 {
        out.append(".");
        let ghost full_frac: Seq<char> = Seq::new(
            kk as nat,
            |j: int| frac_digit_at(v@, k as int, j),
        );
        let mut j: usize = 0;
        assert(out@ =~= sign_part + int_part + seq!['.'] + full_frac.take(0));
        while j < kk
            invariant
                0 <= j <= kk,
                kk == k - t,
                t <= k,
                all_digits(v@),
                full_frac == Seq::new(kk as nat, |jj: int| frac_digit_at(v@, k as int, jj)),
                full_frac.len() == kk,
                out@ =~= sign_part + int_part + seq!['.'] + full_frac.take(j as int),
            decreases kk - j,
        {
            let idx: usize = k - 1 - j;
            let d: u8 = if idx < v.len() {
                v[idx]
            } else {
                0
            };
            assert(d < 10);
            out.append(hex_digit_str(d));
            proof {
                assert(full_frac[j as int] == frac_digit_at(v@, k as int, j as int));
                assert(hex_digit(d) == frac_digit_at(v@, k as int, j as int));
                assert(full_frac.take(j + 1) =~= full_frac.take(j as int).push(
                    full_frac[j as int],
                ));
                assert(out@ =~= sign_part + int_part + seq!['.'] + full_frac.take(j + 1));
            }
            j = j + 1;
        }
        proof {
            assert(full_frac.take(kk as int) =~= full_frac);
            assert(out@ =~= decimal_chars(neg, v@, k as int));
        }
    } else {
        proof {
            assert(out@ =~= decimal_chars(neg, v@, k as int));
        }
    }
    out
}

/// Render the double with bit pattern `bits` as exact decimal text.
pub(crate) fn double_string(bits: u64) -> (r: String)
    ensures
        r@ == double_text(bits),
{
    let neg: bool = bits >> 63 == 1;
    let exp: u64 = (bits >> 52) & 0x7ff;
    let frac: u64 = bits & 0xf_ffff_ffff_ffff;
    if exp == 0x7ff {
        if frac == 0 {
            if neg {
                return "-inf".to_owned();
            }
            return "inf".to_owned();
        }
        return "NaN".to_owned();
    }
    assert(frac <= 0xf_ffff_ffff_ffff) by {
        assert(bits & 0xf_ffff_ffff_ffff <= 0xf_ffff_ffff_ffff) by (bit_vector);
    }
    assert(exp <= 0x7ff) by {
        assert((bits >> 52) & 0x7ff <= 0x7ff) by (bit_vector);
    }
    let m: u64 = if exp == 0 {
        frac
    } else {
        frac + 0x10_0000_0000_0000
    };
    if m == 0 {
        if neg {
            return "-0".to_owned();
        }
        return "0".to_owned();
    }
    let mut v: Vec<u8> = digits_of_u64(m);
    proof {
        lemma_nat_digits_correct(m as nat);
    }
    let k: usize;
    let ghost n_val: int = if exp >= 1075 {
        m * pow_int(2, (exp - 1075) as nat)
    } else {
        m * pow_int(5, (if exp == 0 { 1074int } else { 1075 - exp }) as nat)
    };
    if exp >= 1075 {
        let e: u64 = exp - 1075;
        let mut i: u64 = 0;
        proof {
            let p0 = pow_int(2, 0nat);
            assert(p0 == 1);
            assert(m * p0 == m) by (nonlinear_arith)
                requires
                    p0 == 1,
            ;
        }
        while i < e
            invariant
                i <= e,
                all_digits(v@),
                digits_val(v@) == m * pow_int(2, i as nat),
            decreases e - i,
        {
            let w = mul_digits(&v, 2);
            proof {
                let p = pow_int(2, i as nat);
                let p1 = pow_int(2, (i + 1) as nat);
                assert(p1 == 2 * p);
                assert(2 * (m * p) == m * p1) by (nonlinear_arith)
                    requires
                        p1 == 2 * p,
                ;
            }
            v = w;
            i = i + 1;
        }
        k = 0;
    } else {
        let e: u64 = if exp == 0 {
            1074
        } else {
            1075 - exp
        };
        let mut i: u64 = 0;
        proof {
            let p0 = pow_int(5, 0nat);
            assert(p0 == 1);
            assert(m * p0 == m) by (nonlinear_arith)
                requires
                    p0 == 1,
            ;
        }
        while i < e
            invariant
                i <= e,
                all_digits(v@),
                digits_val(v@) == m * pow_int(5, i as nat),
            decreases e - i,
        {
            let w = mul_digits(&v, 5);
            proof {
                let p = pow_int(5, i as nat);
                let p1 = pow_int(5, (i + 1) as nat);
                assert(p1 == 5 * p);
                assert(5 * (m * p) == m * p1) by (nonlinear_arith)
                    requires
                        p1 == 5 * p,
                ;
            }
            v = w;
            i = i + 1;
        }
        k = e as usize;
    }
    assert(digits_val(v@) == n_val);
    proof {
        let p: int = if exp >= 1075 {
            pow_int(2, (exp - 1075) as nat)
        } else {
            pow_int(5, (if exp == 0 { 1074int } else { 1075 - exp }) as nat)
        };
        if exp >= 1075 {
            lemma_pow_int_pos(2, (exp - 1075) as nat);
        } else {
            lemma_pow_int_pos(5, (if exp == 0 { 1074int } else { 1075 - exp }) as nat);
        }
        assert(n_val == m * p);
        assert(n_val > 0) by (nonlinear_arith)
            requires
                n_val == m * p,
                m >= 1,
                p >= 1,
        ;
    }
    while v.len() > 0 && v[v.len() - 1] == 0
        invariant
            all_digits(v@),
            digits_val(v@) == n_val,
        decreases v@.len(),
    {
        proof {
            lemma_digits_val_snoc(v@.drop_last(), v@.last());
            assert(v@.drop_last().push(v@.last()) =~= v@);
        }
        v.pop();
    }
    proof {
        if v@.len() == 0 {
            assert(digits_val(v@) == 0);
            assert(false);
        }
        lemma_nat_digits_correct(n_val as nat);
        lemma_digits_unique(v@, nat_digits(n_val as nat));
    }
    render_digits(neg, &v, k)
}

} // verus!
