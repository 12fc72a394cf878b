//! Rounding rationals the way a double-precision number rounds: to 53
//! significant bits, halves to even.
use vstd::arithmetic::div_mod;
use vstd::prelude::*;

use crate::number;
use crate::text;
use crate::text::digit;

verus! {

/// The integer nearest to `n / d`; of two equally near ones, the even one.
pub open spec fn half_even(n: nat, d: nat) -> nat {
    let q = n / d;
    let r = n % d;
    if 2 * r < d {
        q
    } else if 2 * r > d {
        q + 1
    } else {
        q + q % 2
    }
}

/// The first of `u`, `2u`, `4u`, ... in which `n / d` is below 2^53.
pub open spec fn unit_from(n: nat, d: nat, u: nat) -> nat
    decreases
            if u <= n {
                n + 1 - u
            } else {
                0
            },
{
    if d == 0 || u == 0 || n < 0x20_0000_0000_0000 * d * u {
        u
    } else {
        proof {
            assert(0x20_0000_0000_0000 * d * u >= u) by (nonlinear_arith)
                requires
                    d > 0,
                    u > 0,
            ;
        }
        unit_from(n, d, 2 * u)
    }
}

/// `n / d` with 53 significant bits, and with no bits below the units.
pub open spec fn nearest(n: nat, d: nat) -> nat {
    let u = unit_from(n, d, 1);
    u * half_even(n, d * u)
}

pub open spec fn pow10(n: nat) -> nat
    decreases n,
{
    if n == 0 {
        1
    } else {
        10 * pow10((n - 1) as nat)
    }
}

pub proof fn lemma_pow10_positive(n: nat)
    ensures
        pow10(n) >= 1,
    decreases n,
{
    if n > 0 {
        lemma_pow10_positive((n - 1) as nat);
    }
}

pub proof fn lemma_pow10_adds(a: nat, b: nat)
    ensures
        pow10(a + b) == pow10(a) * pow10(b),
    decreases a,
{
    if a > 0 {
        lemma_pow10_adds((a - 1) as nat, b);
        let x = pow10((a - 1) as nat);
        let y = pow10(b);
        assert(pow10(a + b) == 10 * (x * y));
        assert(pow10(a) * y == 10 * (x * y)) by (nonlinear_arith)
            requires
                pow10(a) == 10 * x,
        ;
    } else {
        assert(pow10(a) * pow10(b) == pow10(b)) by (nonlinear_arith)
            requires
                pow10(a) == 1,
        ;
    }
}

/// The first digit counts for the highest power of ten.
pub proof fn lemma_digits_front(s: Seq<char>)
    requires
        s.len() > 0,
        number::all_digits(s),
    ensures
        number::digits_value(s) == (s[0] as int - '0' as int) * pow10((s.len() - 1) as nat)
            + number::digits_value(
            s.skip(1),
        ),
    decreases s.len(),
{
    assert(text::is_digit(s[0]));
    if s.len() == 1 {
        assert(s.skip(1) =~= Seq::<char>::empty());
        assert(s.drop_last() =~= Seq::<char>::empty());
        let d = s[0] as int - '0' as int;
        assert(d * pow10(0) == d) by (nonlinear_arith)
            requires
                pow10(0) == 1,
        ;
    } else {
        lemma_digits_front(s.drop_last());
        assert(s.skip(1).drop_last() =~= s.drop_last().skip(1));
        let d = s[0] as int - '0' as int;
        let p = pow10((s.len() - 2) as nat);
        let top = pow10((s.len() - 1) as nat);
        assert(10 * (d * p) == d * top) by (nonlinear_arith)
            requires
                top == 10 * p,
        ;
    }
}

/// A text of `n` digits of which the first `m` are zeros is below 10^(n - m).
pub proof fn lemma_digits_bound(s: Seq<char>, m: nat)
    requires
        number::all_digits(s),
        m <= s.len(),
        forall|i: int| 0 <= i < m ==> s[i] == '0',
    ensures
        number::digits_value(s) < pow10((s.len() - m) as nat),
    decreases s.len(),
{
    if s.len() > 0 {
        let t = s.drop_last();
        if m == s.len() {
            lemma_digits_bound(t, (m - 1) as nat);
            assert(s.last() == '0');
        } else {
            lemma_digits_bound(t, m);
            assert(text::is_digit(s.last()));
        }
    }
}

/// A digit other than zero with `k` digits behind it makes at least 10^k.
pub proof fn lemma_digits_least(s: Seq<char>, z: nat)
    requires
        number::all_digits(s),
        z < s.len(),
        s[z as int] != '0',
    ensures
        number::digits_value(s) >= pow10((s.len() - z - 1) as nat),
    decreases s.len(),
{
    assert(text::is_digit(s[z as int]));
    if z < s.len() - 1 {
        lemma_digits_least(s.drop_last(), z);
        assert(text::is_digit(s.last()));
    }
}

pub proof fn lemma_digits_zero(s: Seq<char>)
    requires
        number::all_digits(s),
    ensures
        number::digits_value(s) == 0 <==> (forall|i: int| 0 <= i < s.len() ==> s[i] == '0'),
    decreases s.len(),
{
    if s.len() > 0 {
        lemma_digits_zero(s.drop_last());
        assert(text::is_digit(s.last()));
        if number::digits_value(s) == 0 {
            assert forall|i: int| 0 <= i < s.len() implies s[i] == '0' by {
                if i < s.len() - 1 {
                    assert(s.drop_last()[i] == s[i]);
                }
            }
        }
        if forall|i: int| 0 <= i < s.len() ==> s[i] == '0' {
            assert forall|i: int| 0 <= i < s.drop_last().len() implies s.drop_last()[i] == '0' by {
                assert(s[i] == '0');
            }
        }
    }
}

/// Are all the digits zeros?
pub fn is_zero(f: &Vec<char>) -> (r: bool)
    requires
        number::all_digits(f@),
    ensures
        r == (number::digits_value(f@) == 0),
{
    let mut i: usize = 0;
    while i < f.len()
        invariant
            i <= f.len(),
            number::all_digits(f@),
            forall|j: int| 0 <= j < i ==> f@[j] == '0',
        decreases f.len() - i,
    {
        if f[i] != '0' {
            proof {
                lemma_digits_zero(f@);
                assert(f@[i as int] != '0');
            }
            return false;
        }
        i += 1;
    }
    proof {
        lemma_digits_zero(f@);
    }
    true
}

/// Doubles a decimal fraction given by its digits. The result is the carry into
/// the units, 0 or 1.
pub fn double(f: &mut Vec<char>) -> (carry: u128)
    requires
        number::all_digits(old(f)@),
    ensures
        carry <= 1,
        final(f)@.len() == old(f)@.len(),
        number::all_digits(final(f)@),
        2 * number::digits_value(old(f)@) == carry * pow10(old(f)@.len())
            + number::digits_value(final(f)@),
{
    let n = f.len();
    let ghost start = f@;
    let mut i: usize = n;
    let mut carry: u32 = 0;
    assert(start.skip(n as int) =~= Seq::<char>::empty());
    assert(2 * number::digits_value(start.skip(n as int)) == carry * pow10(0) + number::digits_value(
        f@.skip(n as int),
    ));
    while i > 0
        invariant
            i <= n,
            f@.len() == n,
            start.len() == n,
            carry <= 1,
            number::all_digits(start),
            forall|j: int| 0 <= j < i ==> f@[j] == start[j],
            forall|j: int| i <= j < n ==> text::is_digit(#[trigger] f@[j]),
            2 * number::digits_value(start.skip(i as int)) == carry * pow10((n - i) as nat)
                + number::digits_value(
                f@.skip(i as int),
            ),
        decreases i,
    {
        let ghost before = f@;
        let ghost old_carry = carry;
        i -= 1;
        assert(f@[i as int] == start[i as int]);
        assert(text::is_digit(start[i as int]));
        let d: u32 = f[i] as u32 - '0' as u32;
        let t: u32 = 2 * d + carry;
        let c = digit((t % 10) as u64);
        f.set(i, c);
        carry = t / 10;
        proof {
            let a = start.skip(i as int);
            let b = f@.skip(i as int);
            let p = pow10((n - i - 1) as nat);
            assert(a.skip(1) =~= start.skip(i + 1));
            assert(b.skip(1) =~= before.skip(i + 1));
            assert forall|j: int| 0 <= j < b.len() implies text::is_digit(#[trigger] b[j]) by {
                if j > 0 {
                    assert(before[i + j] == f@[i + j]);
                }
            }
            lemma_digits_front(a);
            lemma_digits_front(b);
            assert(pow10((n - i) as nat) == 10 * p);
            assert(a[0] == start[i as int]);
            assert(b[0] == c);
            let x = number::digits_value(a.skip(1));
            let y = number::digits_value(b.skip(1));
            assert(2 * x == old_carry * p + y);
            let low = (t % 10) as int;
            assert(b[0] as int - '0' as int == low);
            assert(2 * d + old_carry == 10 * carry + low);
            assert(2 * (d * p + x) == carry * (10 * p) + (low * p + y)) by (nonlinear_arith)
                requires
                    2 * x == old_carry * p + y,
                    2 * d + old_carry == 10 * carry + low,
            ;
        }
    }
    assert(start.skip(0) =~= start);
    assert(f@.skip(0) =~= f@);
    carry as u128
}

proof fn lemma_below_unit(b: nat, v: nat, t: nat, u: nat)
    requires
        v < t,
        u > 0,
    ensures
        (b * t + v < 0x20_0000_0000_0000 * t * u) == (b < 0x20_0000_0000_0000 * u),
{
    let k = 0x20_0000_0000_0000 * u;
    assert(0x20_0000_0000_0000 * t * u == k * t) by (nonlinear_arith)
        requires
            k == 0x20_0000_0000_0000 * u,
    ;
    if b < k {
        assert(b * t + v < k * t) by (nonlinear_arith)
            requires
                b + 1 <= k,
                v < t,
        ;
    } else {
        assert(b * t + v >= k * t) by (nonlinear_arith)
            requires
                b >= k,
                v >= 0,
                t >= 0,
        ;
    }
}

/// `b` and the decimal fraction `f` behind it, rounded to 53 significant bits.
pub fn round_53(b: u128, f: &Vec<char>) -> (r: u128)
    requires
        b < 0x40_0000_0000_0000_0000_0000_0000_0000,
        number::all_digits(f@),
    ensures
        r as nat == nearest(
            b as nat * pow10(f@.len()) + number::digits_value(f@),
            pow10(f@.len()),
        ),
        r < 0x80_0000_0000_0000_0000_0000_0000_0000,
{
    let ghost t = pow10(f@.len());
    let ghost v = number::digits_value(f@);
    let ghost n = b as nat * t + v;
    proof {
        lemma_pow10_positive(f@.len());
        lemma_digits_bound(f@, 0);
    }
    let mut u: u128 = 1;
    while b >= 0x20_0000_0000_0000 * u
        invariant
            b < 0x40_0000_0000_0000_0000_0000_0000_0000,
            1 <= u <= 0x4_0000_0000_0000_0000,
            u == 1 || u % 2 == 0,
            u > 1 ==> b >= 0x10_0000_0000_0000 * u,
            v < t,
            n == b as nat * t + v,
            unit_from(n, t, u as nat) == unit_from(n, t, 1),
        decreases 0x8_0000_0000_0000_0000 - u,
    {
        proof {
            lemma_below_unit(b as nat, v, t, u as nat);
        }
        u = 2 * u;
    }
    proof {
        lemma_below_unit(b as nat, v, t, u as nat);
    }
    assert(unit_from(n, t, 1) == u as nat);
    let q: u128 = b / u;
    let r: u128 = b % u;
    proof {
        let (q, r, u) = (q as int, r as int, u as int);
        assert(b == q * u + r) by {
            vstd::arithmetic::div_mod::lemma_fundamental_div_mod(b as int, u);
            assert(u * q == q * u) by (nonlinear_arith);
        }
        assert(n == q * (t * u) + (r * t + v) && 0 <= r * t + v < t * u) by (nonlinear_arith)
            requires
                n == b * t + v,
                b == q * u + r,
                0 <= r < u,
                0 <= v < t,
        ;
        div_mod::lemma_fundamental_div_mod_converse(n as int, (t * u) as int, q, r * t + v);
    }
    let up: u128 = if u == 1 {
        let mut g: Vec<char> = f.clone();
        assert(g@ =~= f@);
        let carry = double(&mut g);
        proof {
            lemma_digits_bound(g@, 0);
            assert(r == 0);
            assert(carry == 1 ==> carry * t == t);
        }
        if carry == 0 {
            0
        } else if is_zero(&g) {
            q % 2
        } else {
            1
        }
    } else {
        let below = r < u / 2;
        let half = r == u / 2;
        let empty = is_zero(f);
        proof {
            let h = (u / 2) as int;
            assert(u == 2 * h);
            let (r, v, t) = (r as int, v as int, t as int);
            if r < h {
                assert(2 * (r * t + v) < t * (2 * h)) by (nonlinear_arith)
                    requires
                        r + 1 <= h,
                        0 <= v < t,
                ;
            } else if r == h {
                assert(2 * (r * t + v) == t * (2 * h) + 2 * v) by (nonlinear_arith)
                    requires
                        r == h,
                ;
            } else {
                assert(2 * (r * t + v) > t * (2 * h)) by (nonlinear_arith)
                    requires
                        r >= h + 1,
                        0 <= v < t,
                ;
            }
        }
        if below {
            0
        } else if half && empty {
            q % 2
        } else {
            1
        }
    };
    assert(q + up == half_even(n, (t * u) as nat));
    assert(u * (q + up) <= b + u) by {
        vstd::arithmetic::div_mod::lemma_fundamental_div_mod(b as int, u as int);
        assert(u * (q + up) <= u * q + u) by (nonlinear_arith)
            requires
                up <= 1,
                u >= 0,
        ;
    }
    u * (q + up)
}

} // verus!
