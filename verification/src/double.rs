//! Double-precision numbers, carried as their bit patterns. The library compares
//! them and writes them with a fixed number of decimals; it does no arithmetic
//! on them.
use vstd::arithmetic::div_mod;
use vstd::arithmetic::power2;
use vstd::prelude::*;

use crate::number;
use crate::rounding;
use crate::text;
use crate::text::{chars_of, dec, digit, string_of};

verus! {

/// A double-precision number by its IEEE 754 bit pattern.
#[derive(Clone, Copy, Debug, PartialEq, Eq, Structural)]
pub struct Double {
    pub bits: u64,
}

impl Double {
    pub open spec fn negative(self) -> bool {
        self.bits >= 0x8000_0000_0000_0000
    }

    pub open spec fn exponent_bits(self) -> nat {
        (self.bits as nat / 0x10_0000_0000_0000) % 2048
    }

    pub open spec fn fraction_bits(self) -> nat {
        self.bits as nat % 0x10_0000_0000_0000
    }

    pub open spec fn is_nan(self) -> bool {
        self.exponent_bits() == 2047 && self.fraction_bits() != 0
    }

    pub open spec fn is_infinite(self) -> bool {
        self.exponent_bits() == 2047 && self.fraction_bits() == 0
    }

    /// The magnitude is `significand() * 2^power()`.
    pub open spec fn significand(self) -> nat {
        if self.exponent_bits() == 0 {
            self.fraction_bits()
        } else {
            self.fraction_bits() + 0x10_0000_0000_0000
        }
    }

    pub open spec fn power(self) -> int {
        if self.exponent_bits() == 0 {
            -1074
        } else {
            self.exponent_bits() - 1075
        }
    }

    /// Numbers are ordered as these integers are.
    pub open spec fn key(self) -> int {
        if self.negative() {
            0x8000_0000_0000_0000 - self.bits
        } else {
            self.bits as int
        }
    }

    /// `self < other`; false where one of them is not a number.
    pub open spec fn less(self, other: Double) -> bool {
        !self.is_nan() && !other.is_nan() && self.key() < other.key()
    }

    /// `self <= other`; false where one of them is not a number.
    pub open spec fn at_most(self, other: Double) -> bool {
        !self.is_nan() && !other.is_nan() && self.key() <= other.key()
    }

    fn nan(&self) -> (r: bool)
        ensures
            r == self.is_nan(),
    {
        (self.bits / 0x10_0000_0000_0000) % 2048 == 2047 && self.bits % 0x10_0000_0000_0000 != 0
    }

    fn order_key(&self) -> (r: i128)
        ensures
            r == self.key(),
    {
        if self.bits >= 0x8000_0000_0000_0000 {
            0x8000_0000_0000_0000i128 - self.bits as i128
        } else {
            self.bits as i128
        }
    }

    pub fn lt(&self, other: &Double) -> (r: bool)
        ensures
            r == self.less(*other),
    {
        !self.nan() && !other.nan() && self.order_key() < other.order_key()
    }

    pub fn le(&self, other: &Double) -> (r: bool)
        ensures
            r == self.at_most(*other),
    {
        !self.nan() && !other.nan() && self.order_key() <= other.order_key()
    }
}

// ------------------------------------------------------------------- as text

/// `n` in decimal with exactly `places` digits, the lowest ones.
pub open spec fn padded(n: nat, places: nat) -> Seq<char>
    decreases places,
{
    if places == 0 {
        Seq::empty()
    } else {
        padded(n / 10, (places - 1) as nat).push(text::digit_char(n % 10))
    }
}

/// `q` units of the last decimal place, written with a decimal point.
pub open spec fn point_text(q: nat, places: nat) -> Seq<char> {
    if places == 0 {
        text::decimal(q)
    } else {
        text::decimal(q / rounding::pow10(places)) + "."@ + padded(
            q % rounding::pow10(places),
            places,
        )
    }
}

/// The number of units of the last decimal place, rounded, halves to even.
pub open spec fn units(x: Double, places: nat) -> nat {
    let n = x.significand() * rounding::pow10(places);
    if x.power() >= 0 {
        n * power2::pow2(x.power() as nat)
    } else {
        rounding::half_even(n, power2::pow2((-x.power()) as nat))
    }
}

/// The number with `places` digits behind the decimal point.
pub open spec fn fixed_text(x: Double, places: nat) -> Seq<char> {
    if x.is_nan() {
        "NaN"@
    } else {
        let magnitude = if x.is_infinite() {
            "inf"@
        } else {
            point_text(units(x, places), places)
        };
        if x.negative() {
            "-"@ + magnitude
        } else {
            magnitude
        }
    }
}

/// Digits without a leading zero are the decimal text of their value.
proof fn lemma_decimal_unique(s: Seq<char>)
    requires
        s.len() > 0,
        number::all_digits(s),
        s.len() > 1 ==> s[0] != '0',
    ensures
        s == text::decimal(number::digits_value(s)),
    decreases s.len(),
{
    assert(text::is_digit(s.last()));
    let n = number::digits_value(s);
    let front = s.drop_last();
    let d = (s.last() as int - '0' as int) as nat;
    assert(text::digit_char(d) == s.last());
    if s.len() == 1 {
        assert(front =~= Seq::<char>::empty());
        assert(number::digits_value(front) == 0);
        assert(s =~= text::decimal(n));
    } else {
        lemma_decimal_unique(front);
        assert(text::is_digit(s[0]));
        rounding::lemma_digits_least(front, 0);
        rounding::lemma_pow10_positive((front.len() - 1) as nat);
        assert(n / 10 == number::digits_value(front) && n % 10 == d);
        assert(s =~= text::decimal(n));
    }
}

/// The decimal text of `n * 2^k`.
fn shifted(n: u64, k: u64) -> (r: String)
    requires
        n > 0,
        k < 2000,
    ensures
        r@ == text::decimal(n as nat * power2::pow2(k as nat)),
{
    let first = dec(n);
    let mut ds = chars_of(first.as_str());
    proof {
        number::lemma_decimal_reads_back(n as nat);
        power2::lemma2_to64();
        lemma_leading(n as nat);
    }
    let ghost mut v: nat = n as nat;
    let mut i: u64 = 0;
    assert(n as nat * power2::pow2(0) == n as nat);
    while i < k
        invariant
            i <= k,
            ds@.len() > 0,
            number::all_digits(ds@),
            ds@[0] != '0',
            v == number::digits_value(ds@),
            v == n as nat * power2::pow2(i as nat),
        decreases k - i,
    {
        let ghost before = ds@;
        let carry = rounding::double(&mut ds);
        let ghost low = ds@;
        if carry == 1 {
            ds.insert(0, '1');
            proof {
                assert(ds@ =~= seq!['1'] + low);
                assert(number::all_digits(ds@));
                rounding::lemma_digits_front(ds@);
                assert(ds@.skip(1) =~= low);
            }
        } else {
            proof {
                // Without a carry the leading digit has doubled, so it is not zero.
                rounding::lemma_digits_least(before, 0);
                if ds@[0] == '0' {
                    rounding::lemma_digits_bound(ds@, 1);
                }
            }
        }
        proof {
            power2::lemma_pow2_unfold((i + 1) as nat);
            let p = power2::pow2(i as nat);
            assert(2 * (n * p) == n * (2 * p)) by (nonlinear_arith);
            v = 2 * v;
        }
        i += 1;
    }
    proof {
        lemma_decimal_unique(ds@);
    }
    string_of(&ds)
}

/// The decimal text of a positive number does not start with a zero.
proof fn lemma_leading(n: nat)
    requires
        n > 0,
    ensures
        text::decimal(n).len() > 0,
        text::decimal(n)[0] != '0',
    decreases n,
{
    if n >= 10 {
        lemma_leading(n / 10);
    }
}

fn half_even_of(n: u128, d: u128) -> (r: u128)
    requires
        0 < d <= 0x1_0000_0000_0000_0000,
        n < 0x1_0000_0000_0000_0000,
    ensures
        r as nat == rounding::half_even(n as nat, d as nat),
        r <= n + 1,
{
    let q: u128 = n / d;
    let r: u128 = n % d;
    assert(q <= n) by (nonlinear_arith)
        requires
            q == n / d,
            d > 0,
            n >= 0,
    ;
    if 2 * r < d {
        q
    } else if 2 * r > d {
        q + 1
    } else {
        q + q % 2
    }
}

fn pow10_of(places: u64) -> (r: u64)
    requires
        places <= 2,
    ensures
        r as nat == rounding::pow10(places as nat),
        1 <= r <= 100,
{
    proof {
        reveal_with_fuel(rounding::pow10, 3);
    }
    if places == 0 {
        1
    } else if places == 1 {
        10
    } else {
        100
    }
}

/// `n` with exactly `places` digits.
fn pad_digits(n: u64, places: u64) -> (r: String)
    ensures
        r@ == padded(n as nat, places as nat),
    decreases places,
{
    if places == 0 {
        let r = String::new();
        assert(r@ =~= Seq::empty());
        r
    } else {
        let mut r = pad_digits(n / 10, places - 1);
        r.push(digit(n % 10));
        r
    }
}

impl Double {
    /// The magnitude of a number that is neither infinite nor "not a number".
    fn magnitude_text(&self, places: u64) -> (r: String)
        requires
            places <= 2,
        ensures
            r@ == point_text(units(*self, places as nat), places as nat),
    {
        let e: u64 = (self.bits / 0x10_0000_0000_0000) % 2048;
        let f: u64 = self.bits % 0x10_0000_0000_0000;
        let m: u64 = if e == 0 {
            f
        } else {
            f + 0x10_0000_0000_0000
        };
        let scale = pow10_of(places);
        let ghost t = scale as nat;
        if e >= 1075 {
            let k: u64 = e - 1075;
            let whole = shifted(m, k);
            let ghost w = m as nat * power2::pow2(k as nat);
            proof {
                let p = power2::pow2(k as nat);
                assert((m * t) * p == w * t) by (nonlinear_arith)
                    requires
                        w == m * p,
                ;
                assert(units(*self, places as nat) == w * t);
                if places == 0 {
                    assert(w * t == w) by (nonlinear_arith)
                        requires
                            t == 1,
                    ;
                }
                div_mod::lemma_fundamental_div_mod_converse(
                    (w * t) as int,
                    t as int,
                    w as int,
                    0,
                );
            }
            if places == 0 {
                whole
            } else {
                whole.concat(".").concat(pad_digits(0, places).as_str())
            }
        } else {
            let k: u64 = if e == 0 {
                1074
            } else {
                1075 - e
            };
            assert(m * scale <= 0x20_0000_0000_0000 * 100) by (nonlinear_arith)
                requires
                    m <= 0x20_0000_0000_0000,
                    scale <= 100,
            ;
            let n: u128 = m as u128 * scale as u128;
            let q: u128 = if k > 64 {
                proof {
                    power2::lemma2_to64();
                    power2::lemma_pow2_strictly_increases(64, k as nat);
                    let d = power2::pow2(k as nat);
                    div_mod::lemma_fundamental_div_mod_converse(n as int, d as int, 0, n as int);
                }
                0
            } else {
                let mut d: u128 = 1;
                let mut i: u64 = 0;
                proof {
                    power2::lemma2_to64();
                }
                while i < k
                    invariant
                        i <= k <= 64,
                        d as nat == power2::pow2(i as nat),
                        d <= 0x1_0000_0000_0000_0000,
                    decreases k - i,
                {
                    proof {
                        power2::lemma_pow2_unfold((i + 1) as nat);
                        power2::lemma2_to64();
                        if i < 63 {
                            power2::lemma_pow2_strictly_increases((i + 1) as nat, 64);
                        }
                    }
                    d = 2 * d;
                    i += 1;
                }
                proof {
                    power2::lemma_pow2_pos(k as nat);
                }
                half_even_of(n, d)
            };
            assert(q as nat == units(*self, places as nat));
            let u: u64 = q as u64;
            if places == 0 {
                dec(u)
            } else {
                dec(u / scale).concat(".").concat(pad_digits(u % scale, places).as_str())
            }
        }
    }

    /// The number with `places` digits behind the decimal point.
    pub fn fixed(&self, places: u64) -> (r: String)
        requires
            places <= 2,
        ensures
            r@ == fixed_text(*self, places as nat),
    {
        if self.nan() {
            return "NaN".to_owned();
        }
        let magnitude = if (self.bits / 0x10_0000_0000_0000) % 2048 == 2047 {
            "inf".to_owned()
        } else {
            self.magnitude_text(places)
        };
        if self.bits >= 0x8000_0000_0000_0000 {
            "-".to_owned().concat(magnitude.as_str())
        } else {
            magnitude
        }
    }
}

} // verus!
