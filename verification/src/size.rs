//! Memory and disk sizes as people write them: "512mb", "2gb", "256".
use vstd::arithmetic::power2;
use vstd::prelude::*;

use crate::number;
use crate::rounding;
use crate::rounding::{double, round_53};
use crate::text;
use crate::text::{
    chars_of, dec, same, text_after, text_before, to_ascii_lower, trimmed, without_suffix,
};

verus! {

// ------------------------------------------------------ decimal number texts

/// What an unsigned decimal number text stands for: not a number, infinity, or
/// digits with a decimal point behind the first `point` of them.
pub enum Figure {
    Nan,
    Infinite,
    Number { digits: Seq<char>, point: int },
}

/// Digits, at least one, with an optional sign.
pub open spec fn exponent_value(s: Seq<char>) -> Option<int> {
    let signed = s.len() > 0 && (s[0] == '+' || s[0] == '-');
    let t = if signed {
        s.skip(1)
    } else {
        s
    };
    if t.len() == 0 || !number::all_digits(t) {
        None
    } else if signed && s[0] == '-' {
        Some(-number::digits_value(t))
    } else {
        Some(number::digits_value(t) as int)
    }
}

/// Digits with at most one point among them, at least one digit, and then
/// perhaps an `e` and an exponent.
pub open spec fn number_text(s: Seq<char>) -> Option<Figure> {
    let mantissa = text::before(s, "e"@);
    let exponent = match text::after(s, "e"@) {
        Some(x) => exponent_value(x),
        None => Some(0int),
    };
    let whole = text::before(mantissa, "."@);
    let digits = match text::after(mantissa, "."@) {
        Some(f) => whole + f,
        None => whole,
    };
    if digits.len() == 0 || !number::all_digits(digits) {
        None
    } else {
        match exponent {
            Some(e) => Some(Figure::Number { digits, point: whole.len() + e }),
            None => None,
        }
    }
}

pub open spec fn unsigned_figure(s: Seq<char>) -> Option<Figure> {
    if s == "nan"@ {
        Some(Figure::Nan)
    } else if s == "inf"@ || s == "infinity"@ {
        Some(Figure::Infinite)
    } else {
        number_text(s)
    }
}

/// A number text in small letters: is it negative, and what is its magnitude?
pub open spec fn figure(s: Seq<char>) -> Option<(bool, Figure)> {
    let signed = s.len() > 0 && (s[0] == '+' || s[0] == '-');
    let t = if signed {
        s.skip(1)
    } else {
        s
    };
    match unsigned_figure(t) {
        Some(f) => Some((signed && s[0] == '-', f)),
        None => None,
    }
}

// ----------------------------------------------------------- from text to size

/// `n` zeros.
pub open spec fn zeros(n: nat) -> Seq<char> {
    Seq::new(n, |i: int| '0')
}

/// The digits before the decimal point, as a number.
pub open spec fn whole_part(digits: Seq<char>, point: int) -> nat {
    if point >= digits.len() {
        number::digits_value(digits) * rounding::pow10((point - digits.len()) as nat)
    } else if point >= 0 {
        number::digits_value(digits.take(point))
    } else {
        0
    }
}

/// The digits behind the decimal point.
pub open spec fn fraction_part(digits: Seq<char>, point: int) -> Seq<char> {
    if point >= digits.len() {
        Seq::empty()
    } else if point >= 0 {
        digits.skip(point)
    } else {
        zeros((-point) as nat) + digits
    }
}

/// A decimal number times `mult`, taken to double precision and then to the
/// nearest integer, halves upwards. What does not fit gives the greatest size.
pub open spec fn rounded(digits: Seq<char>, point: int, mult: nat) -> nat {
    let whole = whole_part(digits, point);
    let fraction = fraction_part(digits, point);
    let scale = rounding::pow10(fraction.len());
    if whole * mult >= 0x1_0000_0000_0000_0000 {
        u64::MAX as nat
    } else {
        let n = (whole * scale + number::digits_value(fraction)) * (mult * 0x40_0000_0000_0000);
        let r = (rounding::nearest(n, scale) + 0x20_0000_0000_0000) / 0x40_0000_0000_0000;
        if r > u64::MAX {
            u64::MAX as nat
        } else {
            r
        }
    }
}

pub open spec fn figure_size(f: (bool, Figure), mult: nat) -> nat {
    match f.1 {
        Figure::Nan => 0,
        Figure::Infinite => if f.0 {
            0
        } else {
            u64::MAX as nat
        },
        Figure::Number { digits, point } => if f.0 {
            0
        } else {
            rounded(digits, point, mult)
        },
    }
}

/// The number text of a size, without the unit, and the megabytes in the unit.
pub open spec fn size_parts(s: Seq<char>) -> (Seq<char>, nat) {
    let t = text::ascii_lower(text::trim(s));
    match text::strip_suffix(t, "gb"@) {
        Some(n) => (text::trim(n), 1024),
        None => match text::strip_suffix(t, "mb"@) {
            Some(n) => (text::trim(n), 1),
            None => (text::trim(t), 1),
        },
    }
}

/// The megabytes that a size text stands for, if it is one.
pub open spec fn size_value(s: Seq<char>) -> Option<nat> {
    let (n, mult) = size_parts(s);
    match figure(n) {
        Some(f) => Some(figure_size(f, mult)),
        None => None,
    }
}

/// A size in megabytes as text: in whole gigabytes where it is a number of them.
pub open spec fn size_text(mb: nat) -> Seq<char> {
    if mb >= 1024 && mb % 1024 == 0 {
        text::decimal(mb / 1024) + "gb"@
    } else {
        text::decimal(mb) + "mb"@
    }
}

// ------------------------------------------------------------------- reading

/// `p` stands for the position `q`: it is `q`, or both are far out on one side.
spec fn stands_for(p: i128, q: int) -> bool {
    ||| p == q
    ||| p > 0x1_0000_0000_0000_0000_0000_0000 && q > 0x1_0000_0000_0000_0000_0000_0000
    ||| p < -0x1_0000_0000_0000_0000_0000_0000 && q < -0x1_0000_0000_0000_0000_0000_0000
}

/// The value of a run of digits, held down to what fits.
fn clamped_value(cs: &Vec<char>, from: usize) -> (r: Option<i128>)
    requires
        from <= cs@.len(),
    ensures
        ({
            let t = cs@.skip(from as int);
            &&& r is Some == (t.len() > 0 && number::all_digits(t))
            &&& r is Some ==> 0 <= r->0 <= 0x100_0000_0000_0000_0000_0000_0000 && {
                ||| r->0 == number::digits_value(t)
                ||| r->0 > 0x10_0000_0000_0000_0000_0000_0000 && number::digits_value(t)
                    > 0x10_0000_0000_0000_0000_0000_0000
            }
        }),
{
    let ghost t = cs@.skip(from as int);
    if from == cs.len() {
        return None;
    }
    let mut i: usize = from;
    let mut v: i128 = 0;
    assert(t.take(0) =~= Seq::<char>::empty());
    while i < cs.len()
        invariant
            from <= i <= cs.len(),
            t == cs@.skip(from as int),
            forall|j: int| 0 <= j < i - from ==> text::is_digit(#[trigger] t[j]),
            0 <= v <= 0x100_0000_0000_0000_0000_0000_0000,
            v == number::digits_value(t.take(i - from)) || (v > 0x10_0000_0000_0000_0000_0000_0000
                && number::digits_value(t.take(i - from)) > 0x10_0000_0000_0000_0000_0000_0000),
        decreases cs.len() - i,
    {
        let c = cs[i];
        assert(t[i - from] == c);
        if !(c >= '0' && c <= '9') {
            assert(!text::is_digit(t[i - from]));
            return None;
        }
        assert(t.take(i - from + 1).drop_last() =~= t.take(i - from));
        let d: i128 = (c as u32 - '0' as u32) as i128;
        if v <= 0x10_0000_0000_0000_0000_0000_0000 {
            v = v * 10 + d;
        }
        i += 1;
    }
    assert(t.take(i - from) =~= t);
    Some(v)
}

fn exponent(s: &str) -> (r: Option<i128>)
    ensures
        r is Some == exponent_value(s@) is Some,
        r is Some ==> {
            let e = exponent_value(s@)->0;
            ||| r->0 == e && -0x100_0000_0000_0000_0000_0000_0000 <= e
                <= 0x100_0000_0000_0000_0000_0000_0000
            ||| 0x10_0000_0000_0000_0000_0000_0000 < r->0
                <= 0x100_0000_0000_0000_0000_0000_0000 && e > 0x10_0000_0000_0000_0000_0000_0000
            ||| -0x10_0000_0000_0000_0000_0000_0000 > r->0
                >= -0x100_0000_0000_0000_0000_0000_0000 && e < -0x10_0000_0000_0000_0000_0000_0000
        },
{
    let cs = chars_of(s);
    if cs.len() > 0 && cs[0] == '-' {
        match clamped_value(&cs, 1) {
            Some(v) => Some(-v),
            None => None,
        }
    } else if cs.len() > 0 && cs[0] == '+' {
        clamped_value(&cs, 1)
    } else {
        assert(cs@.skip(0) =~= cs@);
        clamped_value(&cs, 0)
    }
}

fn every_digit(cs: &Vec<char>) -> (r: bool)
    ensures
        r == number::all_digits(cs@),
{
    let mut i: usize = 0;
    while i < cs.len()
        invariant
            i <= cs.len(),
            forall|j: int| 0 <= j < i ==> text::is_digit(#[trigger] cs@[j]),
        decreases cs.len() - i,
    {
        if !('0' <= cs[i] && cs[i] <= '9') {
            assert(!text::is_digit(cs@[i as int]));
            return false;
        }
        i += 1;
    }
    true
}

/// Digits, and how many of them stand before the decimal point.
struct Decimal {
    digits: Vec<char>,
    point: i128,
}

/// The digits of a number text and the place of its decimal point.
fn number_parts(s: &str) -> (r: Option<Decimal>)
    ensures
        r is Some == number_text(s@) is Some,
        r is Some ==> {
            &&& number_text(s@)->0 is Number
            &&& r->0.digits@ == number_text(s@)->0->digits
            &&& stands_for(r->0.point, number_text(s@)->0->point)
            &&& number::all_digits(r->0.digits@)
        },
{
    let mantissa = text_before(s, "e");
    let shift: i128 = match text_after(s, "e") {
        Some(x) => match exponent(x.as_str()) {
            Some(e) => e,
            None => {
                return None;
            },
        },
        None => 0,
    };
    let whole = text_before(mantissa.as_str(), ".");
    let digits = match text_after(mantissa.as_str(), ".") {
        Some(f) => whole.as_str().to_owned().concat(f.as_str()),
        None => whole.as_str().to_owned(),
    };
    let n = whole.as_str().unicode_len();
    let ds = chars_of(digits.as_str());
    if ds.len() == 0 || !every_digit(&ds) {
        return None;
    }
    Some(Decimal { digits: ds, point: n as i128 + shift })
}

// ------------------------------------------------------------------ rounding

/// A number at least 10^20 is too large for a size.
proof fn lemma_rounded_large(digits: Seq<char>, point: int, z: nat, mult: nat)
    requires
        number::all_digits(digits),
        z < digits.len(),
        digits[z as int] != '0',
        point - z > 20,
        mult >= 1,
    ensures
        rounded(digits, point, mult) == u64::MAX,
{
    let whole = whole_part(digits, point);
    assert(rounding::pow10(20) == 100_000_000_000_000_000_000) by {
        reveal_with_fuel(rounding::pow10, 21);
    }
    rounding::lemma_pow10_adds(20, (point - z - 21) as nat);
    rounding::lemma_pow10_positive((point - z - 21) as nat);
    assert(rounding::pow10((point - z - 1) as nat) >= rounding::pow10(20)) by (nonlinear_arith)
        requires
            rounding::pow10((point - z - 1) as nat) == rounding::pow10(20) * rounding::pow10((point - z - 21) as nat),
            rounding::pow10((point - z - 21) as nat) >= 1,
    ;
    if point >= digits.len() {
        let pad = (point - digits.len()) as nat;
        let k = (digits.len() - z - 1) as nat;
        rounding::lemma_digits_least(digits, z);
        rounding::lemma_pow10_adds(k, pad);
        rounding::lemma_pow10_positive(pad);
        assert(number::digits_value(digits) * rounding::pow10(pad) >= rounding::pow10(k) * rounding::pow10(pad)) by (nonlinear_arith)
            requires
                number::digits_value(digits) >= rounding::pow10(k),
        ;
        assert(k + pad == point - z - 1);
    } else {
        assert(number::all_digits(digits.take(point)));
        rounding::lemma_digits_least(digits.take(point), z);
    }
    assert(whole * mult >= whole) by (nonlinear_arith)
        requires
            mult >= 1,
    ;
}

/// A number below 10^-5 rounds to zero.
proof fn lemma_rounded_small(digits: Seq<char>, point: int, z: nat, mult: nat)
    requires
        number::all_digits(digits),
        z < digits.len(),
        forall|i: int| 0 <= i < z ==> digits[i] == '0',
        point - z < -4,
        mult <= 1024,
    ensures
        rounded(digits, point, mult) == 0,
{
    let whole = whole_part(digits, point);
    let f = fraction_part(digits, point);
    let t = rounding::pow10(f.len());
    if point >= 0 {
        assert(number::all_digits(digits.take(point)));
        rounding::lemma_digits_bound(digits.take(point), point as nat);
    }
    assert(whole == 0);
    assert(number::all_digits(f)) by {
        assert forall|i: int| 0 <= i < f.len() implies text::is_digit(#[trigger] f[i]) by {
            if point >= 0 {
                assert(f[i] == digits[point + i]);
            } else if i >= -point {
                assert(f[i] == digits[i + point]);
            }
        }
    }
    rounding::lemma_pow10_positive(f.len());
    let m = (z - point) as nat;
    assert forall|i: int| 0 <= i < m implies f[i] == '0' by {
        if point >= 0 {
            assert(f[i] == digits[point + i]);
        } else if i >= -point {
            assert(f[i] == digits[i + point]);
        }
    }
    rounding::lemma_digits_bound(f, m);
    let k = (f.len() - m) as nat;
    rounding::lemma_pow10_adds(k, m);
    rounding::lemma_pow10_adds(5, (m - 5) as nat);
    rounding::lemma_pow10_positive((m - 5) as nat);
    assert(rounding::pow10(5) == 100_000) by {
        reveal_with_fuel(rounding::pow10, 6);
    }
    assert(rounding::pow10(m) >= 100_000) by (nonlinear_arith)
        requires
            rounding::pow10(m) == 100_000 * rounding::pow10((m - 5) as nat),
            rounding::pow10((m - 5) as nat) >= 1,
    ;
    assert(t >= 100_000 * rounding::pow10(k)) by (nonlinear_arith)
        requires
            t == rounding::pow10(k) * rounding::pow10(m),
            rounding::pow10(m) >= 100_000,
    ;
    let v = number::digits_value(f);
    assert(100_000 * v < t);
    let n = (whole * t + v) * (mult * 0x40_0000_0000_0000);
    assert(n == v * (mult * 0x40_0000_0000_0000)) by (nonlinear_arith)
        requires
            n == (whole * t + v) * (mult * 0x40_0000_0000_0000),
            whole == 0,
    ;
    assert(n < 0x10_0000_0000_0000 * t) by (nonlinear_arith)
        requires
            n == v * (mult * 0x40_0000_0000_0000),
            mult <= 1024,
            100_000 * v < t,
            v >= 0,
    ;
    assert(whole * mult == 0) by (nonlinear_arith)
        requires
            whole == 0,
    ;
    assert(rounding::unit_from(n, t, 1) == 1);
    let h = rounding::half_even(n, t);
    assert(n / t < 0x10_0000_0000_0000) by (nonlinear_arith)
        requires
            n < 0x10_0000_0000_0000 * t,
            t >= 1,
    ;
    assert(h <= 0x10_0000_0000_0000);
    assert(rounding::nearest(n, t) == 1 * rounding::half_even(n, t * 1));
    assert(t * 1 == t && 1 * h == h);
}

/// Zeros make the size zero.
proof fn lemma_rounded_zero(digits: Seq<char>, point: int, mult: nat)
    requires
        number::all_digits(digits),
        forall|i: int| 0 <= i < digits.len() ==> digits[i] == '0',
    ensures
        rounded(digits, point, mult) == 0,
{
    let whole = whole_part(digits, point);
    let f = fraction_part(digits, point);
    let t = rounding::pow10(f.len());
    rounding::lemma_pow10_positive(f.len());
    rounding::lemma_digits_bound(digits, digits.len());
    if point >= digits.len() {
        assert(number::digits_value(digits) * rounding::pow10((point - digits.len()) as nat) == 0)
            by (nonlinear_arith)
            requires
                number::digits_value(digits) == 0,
        ;
    } else if point >= 0 {
        assert(number::all_digits(digits.take(point)));
        rounding::lemma_digits_bound(digits.take(point), point as nat);
    }
    assert forall|i: int| 0 <= i < f.len() implies f[i] == '0' by {
        if point >= 0 {
            assert(f[i] == digits[point + i]);
        } else if i >= -point {
            assert(f[i] == digits[i + point]);
        }
    }
    assert(number::all_digits(f));
    rounding::lemma_digits_bound(f, f.len());
    let n = (whole * t + number::digits_value(f)) * (mult * 0x40_0000_0000_0000);
    assert(n == 0 && whole * mult == 0) by (nonlinear_arith)
        requires
            n == (whole * t + number::digits_value(f)) * (mult * 0x40_0000_0000_0000),
            whole == 0,
            number::digits_value(f) == 0,
    ;
    assert(rounding::unit_from(n, t, 1) == 1);
    assert(rounding::half_even(n, t) == 0) by (nonlinear_arith)
        requires
            n == 0,
            t >= 1,
            rounding::half_even(n, t) == (if 2 * (n % t) < t {
                n / t
            } else if 2 * (n % t) > t {
                n / t + 1
            } else {
                n / t + (n / t) % 2
            }),
    ;
    assert(rounding::nearest(n, t) == 1 * rounding::half_even(n, t * 1));
    assert(t * 1 == t);
}

proof fn lemma_scale_bound(whole: nat, scale: nat, k: nat, steps: nat)
    requires
        k < steps,
        steps == 54 || steps == 64,
        whole < 0x1_0000_0000_0000_0000,
        steps == 64 ==> whole < 0x40_0000_0000_0000,
        scale == power2::pow2(k),
    ensures
        (whole + 1) * scale <= 0x40_0000_0000_0000_0000_0000_0000_0000,
{
    power2::lemma2_to64();
    power2::lemma2_to64_rest();
    if k < steps - 1 {
        power2::lemma_pow2_strictly_increases(k, (steps - 1) as nat);
    }
    assert((whole + 1) * scale <= 0x40_0000_0000_0000_0000_0000_0000_0000) by (nonlinear_arith)
        requires
            (scale <= 0x20_0000_0000_0000 && whole < 0x1_0000_0000_0000_0000) || (scale
                <= 0x8000_0000_0000_0000 && whole < 0x40_0000_0000_0000),
    ;
}

/// The digits before the decimal point, as a number below 10^21.
fn whole_of(ds: &Vec<char>, point: i128, z: usize) -> (r: u128)
    requires
        number::all_digits(ds@),
        z < ds@.len(),
        forall|i: int| 0 <= i < z ==> ds@[i] == '0',
        -4 <= point - z <= 20,
    ensures
        r as nat == whole_part(ds@, point as int),
        r < 1_000_000_000_000_000_000_000,
{
    let mut r: u128 = 0;
    let mut i: usize = 0;
    let ghost s = ds@;
    assert(s.take(0) =~= Seq::<char>::empty());
    assert(rounding::pow10(20) == 100_000_000_000_000_000_000) by {
        reveal_with_fuel(rounding::pow10, 21);
    }
    while i < ds.len() && (i as i128) < point
        invariant
            i <= ds.len(),
            i == 0 || i <= point,
            s == ds@,
            number::all_digits(s),
            z < s.len(),
            forall|j: int| 0 <= j < z ==> s[j] == '0',
            point - z <= 20,
            r as nat == number::digits_value(s.take(i as int)),
            rounding::pow10(20) == 100_000_000_000_000_000_000,
        decreases ds.len() - i,
    {
        assert(text::is_digit(s[i as int]));
        let d: u128 = (ds[i] as u32 - '0' as u32) as u128;
        proof {
            let p = s.take(i as int);
            assert(number::all_digits(p));
            let m: nat = if i <= z {
                i as nat
            } else {
                z as nat
            };
            rounding::lemma_digits_bound(p, m);
            let k = (i - m) as nat;
            rounding::lemma_pow10_adds(k, (20 - k) as nat);
            rounding::lemma_pow10_positive((20 - k) as nat);
            assert(rounding::pow10(k) <= rounding::pow10(20)) by (nonlinear_arith)
                requires
                    rounding::pow10(20) == rounding::pow10(k) * rounding::pow10((20 - k) as nat),
                    rounding::pow10((20 - k) as nat) >= 1,
            ;
            assert(s.take(i + 1).drop_last() =~= p);
        }
        r = r * 10 + d;
        i += 1;
    }
    proof {
        let p = s.take(i as int);
        assert(number::all_digits(p));
        let m: nat = if i <= z {
            i as nat
        } else {
            z as nat
        };
        rounding::lemma_digits_bound(p, m);
        rounding::lemma_pow10_positive(0);
        if i > 0 {
            let k = (i - m) as nat;
            rounding::lemma_pow10_adds(k, (20 - k) as nat);
            rounding::lemma_pow10_positive((20 - k) as nat);
            assert(rounding::pow10(k) <= rounding::pow10(20)) by (nonlinear_arith)
                requires
                    rounding::pow10(20) == rounding::pow10(k) * rounding::pow10((20 - k) as nat),
                    rounding::pow10((20 - k) as nat) >= 1,
            ;
        }
    }
    if point > ds.len() as i128 {
        let ghost base = r as nat;
        let mut k: u128 = 0;
        let pad: u128 = (point - ds.len() as i128) as u128;
        assert(s.take(i as int) =~= s);
        let ghost lead = (s.len() - z) as nat;
        proof {
            rounding::lemma_digits_bound(s, z as nat);
        }
        assert(base * rounding::pow10(0) == base) by (nonlinear_arith)
            requires
                rounding::pow10(0) == 1,
        ;
        while k < pad
            invariant
                k <= pad,
                pad <= 20,
                lead + pad <= 20,
                base < rounding::pow10(lead),
                r as nat == base * rounding::pow10(k as nat),
                rounding::pow10(20) == 100_000_000_000_000_000_000,
            decreases pad - k,
        {
            proof {
                rounding::lemma_pow10_adds(lead, k as nat);
                rounding::lemma_pow10_adds(lead + k as nat, (20 - lead - k) as nat);
                rounding::lemma_pow10_positive((20 - lead - k) as nat);
                rounding::lemma_pow10_positive(k as nat);
                assert(base * rounding::pow10(k as nat) < rounding::pow10(20)) by (nonlinear_arith)
                    requires
                        base < rounding::pow10(lead),
                        rounding::pow10(lead + k as nat) == rounding::pow10(lead) * rounding::pow10(k as nat),
                        rounding::pow10(20) == rounding::pow10(lead + k as nat) * rounding::pow10((20 - lead - k) as nat),
                        rounding::pow10((20 - lead - k) as nat) >= 1,
                        rounding::pow10(k as nat) >= 1,
                ;
                assert(10 * (base * rounding::pow10(k as nat)) == base * rounding::pow10((k + 1) as nat))
                    by (nonlinear_arith)
                    requires
                        rounding::pow10((k + 1) as nat) == 10 * rounding::pow10(k as nat),
                ;
            }
            r = r * 10;
            k += 1;
        }
        proof {
            rounding::lemma_pow10_adds(lead, pad as nat);
            rounding::lemma_pow10_adds(lead + pad as nat, (20 - lead - pad) as nat);
            rounding::lemma_pow10_positive((20 - lead - pad) as nat);
            rounding::lemma_pow10_positive(pad as nat);
            assert(base * rounding::pow10(pad as nat) < rounding::pow10(20)) by (nonlinear_arith)
                requires
                    base < rounding::pow10(lead),
                    rounding::pow10(lead + pad as nat) == rounding::pow10(lead) * rounding::pow10(pad as nat),
                    rounding::pow10(20) == rounding::pow10(lead + pad as nat) * rounding::pow10((20 - lead - pad) as nat),
                    rounding::pow10((20 - lead - pad) as nat) >= 1,
                    rounding::pow10(pad as nat) >= 1,
            ;
        }
        r
    } else {
        proof {
            if point == s.len() {
                assert(s.take(i as int) =~= s);
                assert(number::digits_value(s) * rounding::pow10(0) == number::digits_value(s)) by (nonlinear_arith)
                    requires
                        rounding::pow10(0) == 1,
                ;
            }
        }
        r
    }
}

/// The digits behind the decimal point.
fn fraction_of(ds: &Vec<char>, point: i128) -> (r: Vec<char>)
    requires
        number::all_digits(ds@),
        -1000 <= point,
    ensures
        r@ == fraction_part(ds@, point as int),
        number::all_digits(r@),
{
    let mut f: Vec<char> = Vec::new();
    let mut k: i128 = point;
    while k < 0
        invariant
            point <= k,
            k <= 0 || k == point,
            point >= 0 ==> f@.len() == 0,
            point < 0 ==> k <= 0 && f@ =~= zeros((k - point) as nat),
        decreases -k,
    {
        f.push('0');
        k += 1;
    }
    let start: i128 = if point < 0 {
        0
    } else {
        point
    };
    let ghost lead = f@;
    if start < ds.len() as i128 {
        let mut i: usize = start as usize;
        assert(ds@.subrange(start as int, start as int) =~= Seq::empty());
        while i < ds.len()
            invariant
                start <= i <= ds.len(),
                0 <= start,
                f@ =~= lead + ds@.subrange(start as int, i as int),
            decreases ds.len() - i,
        {
            f.push(ds[i]);
            i += 1;
        }
    }
    assert(f@ =~= fraction_part(ds@, point as int));
    assert forall|i: int| 0 <= i < f@.len() implies text::is_digit(#[trigger] f@[i]) by {
        if point >= 0 {
            assert(f@[i] == ds@[point + i]);
        } else if i >= -point {
            assert(f@[i] == ds@[i + point]);
        }
    }
    f
}

/// A decimal number times `mult`, rounded.
fn rounded_size(d: &Decimal, mult: u64, Ghost(point): Ghost<int>) -> (r: u64)
    requires
        number::all_digits(d.digits@),
        stands_for(d.point, point),
        mult == 1 || mult == 1024,
    ensures
        r as nat == rounded(d.digits@, point, mult as nat),
{
    let ds = &d.digits;
    let ghost s = ds@;
    let mut z: usize = 0;
    while z < ds.len() && ds[z] == '0'
        invariant
            z <= ds.len(),
            s == ds@,
            forall|i: int| 0 <= i < z ==> s[i] == '0',
        decreases ds.len() - z,
    {
        z += 1;
    }
    if z == ds.len() {
        proof {
            lemma_rounded_zero(s, point, mult as nat);
        }
        return 0;
    }
    if d.point > z as i128 + 20 {
        proof {
            lemma_rounded_large(s, point, z as nat, mult as nat);
        }
        return u64::MAX;
    }
    if d.point < z as i128 - 4 {
        proof {
            lemma_rounded_small(s, point, z as nat, mult as nat);
        }
        return 0;
    }
    assert(d.point == point);
    let whole = whole_of(ds, d.point, z);
    assert(whole * mult <= 1_000_000_000_000_000_000_000 * 1024) by (nonlinear_arith)
        requires
            whole < 1_000_000_000_000_000_000_000,
            mult <= 1024,
    ;
    if whole * mult as u128 >= 0x1_0000_0000_0000_0000 {
        return u64::MAX;
    }
    let mut f = fraction_of(ds, d.point);
    let ghost t = rounding::pow10(f@.len());
    let ghost first = whole as nat * t + number::digits_value(f@);
    let steps: u64 = if mult == 1 {
        54
    } else {
        64
    };
    let mut b: u128 = whole;
    let mut k: u64 = 0;
    let ghost mut scale: nat = 1;
    proof {
        power2::lemma2_to64();
    }
    while k < steps
        invariant
            k <= steps,
            steps == 54 || steps == 64,
            number::all_digits(f@),
            t == rounding::pow10(f@.len()),
            whole < 0x1_0000_0000_0000_0000,
            steps == 64 ==> whole < 0x40_0000_0000_0000,
            scale == power2::pow2(k as nat),
            b as nat * t + number::digits_value(f@) == first * scale,
            b < (whole + 1) * scale,
        decreases steps - k,
    {
        let ghost b0 = b as int;
        let ghost v0 = number::digits_value(f@) as int;
        proof {
            power2::lemma_pow2_unfold((k + 1) as nat);
            lemma_scale_bound(whole as nat, scale, k as nat, steps as nat);
        }
        let carry = double(&mut f);
        b = 2 * b + carry;
        proof {
            let v1 = number::digits_value(f@) as int;
            let c = carry as int;
            assert((2 * b0 + c) * t + v1 == first * (2 * scale)) by (nonlinear_arith)
                requires
                    2 * v0 == c * t + v1,
                    b0 * t + v0 == first * scale,
            ;
            assert(2 * b0 + c < (whole + 1) * (2 * scale)) by (nonlinear_arith)
                requires
                    b0 + 1 <= (whole + 1) * scale,
                    c <= 1,
            ;
            scale = 2 * scale;
        }
        k += 1;
    }
    assert(power2::pow2(54) == 0x40_0000_0000_0000
        && power2::pow2(64) == 0x1_0000_0000_0000_0000) by {
        power2::lemma2_to64_rest();
        power2::lemma2_to64();
    }
    assert(scale == mult * 0x40_0000_0000_0000);
    assert(b < 0x40_0000_0000_0000_0000_0000_0000_0000) by (nonlinear_arith)
        requires
            b < (whole + 1) * scale,
            (scale == 0x40_0000_0000_0000 && whole < 0x1_0000_0000_0000_0000) || (scale
                == 0x1_0000_0000_0000_0000 && whole < 0x40_0000_0000_0000),
    ;
    let near = round_53(b, &f);
    let r: u128 = (near + 0x20_0000_0000_0000) / 0x40_0000_0000_0000;
    if r > u64::MAX as u128 {
        u64::MAX
    } else {
        r as u64
    }
}

// ------------------------------------------------------------- sizes as text

/// The size that a signed number text in small letters stands for.
fn figure_of(s: &str, mult: u64) -> (r: Option<u64>)
    requires
        mult == 1 || mult == 1024,
    ensures
        r is Some == figure(s@) is Some,
        r is Some ==> r->0 as nat == figure_size(figure(s@)->0, mult as nat),
{
    let cs = chars_of(s);
    let signed = cs.len() > 0 && (cs[0] == '+' || cs[0] == '-');
    let negative = signed && cs[0] == '-';
    let t = if signed {
        let n = s.unicode_len();
        assert(s@.subrange(1, n as int) =~= s@.skip(1));
        s.substring_char(1, n).to_owned()
    } else {
        s.to_owned()
    };
    if same(t.as_str(), "nan") {
        return Some(0);
    }
    if same(t.as_str(), "inf") || same(t.as_str(), "infinity") {
        return Some(
            if negative {
                0
            } else {
                u64::MAX
            },
        );
    }
    match number_parts(t.as_str()) {
        Some(d) => {
            if negative {
                Some(0)
            } else {
                let ghost point = number_text(t@)->0->point;
                Some(rounded_size(&d, mult, Ghost(point)))
            }
        },
        None => None,
    }
}

/// Parse "512mb", "2gb", "256" (MB) into MB.
pub fn parse_size_mb(s: &str) -> (r: Result<u64, String>)
    ensures
        r is Ok <==> size_value(s@) is Some,
        r matches Ok(mb) ==> mb as nat == size_value(s@)->0,
        r matches Err(e) ==> e@ == "cannot parse size '"@ + s@ + "'"@,
{
    let t = to_ascii_lower(trimmed(s).as_str());
    let parsed = match without_suffix(t.as_str(), "gb") {
        Some(n) => figure_of(trimmed(n.as_str()).as_str(), 1024),
        None => match without_suffix(t.as_str(), "mb") {
            Some(n) => figure_of(trimmed(n.as_str()).as_str(), 1),
            None => figure_of(trimmed(t.as_str()).as_str(), 1),
        },
    };
    match parsed {
        Some(mb) => Ok(mb),
        None => Err("cannot parse size '".to_owned().concat(s).concat("'")),
    }
}

/// A size in MB as "512mb" or, where it is whole gigabytes, "2gb".
pub fn format_size_mb(mb: u64) -> (r: String)
    ensures
        r@ == size_text(mb as nat),
{
    if mb >= 1024 && mb % 1024 == 0 {
        dec(mb / 1024).concat("gb")
    } else {
        dec(mb).concat("mb")
    }
}

// ----------------------------------------------------------------------- laws

/// Does the number of megabytes survive being taken to double precision?
pub open spec fn exact_in_53_bits(mb: nat) -> bool {
    rounding::nearest(mb * 0x40_0000_0000_0000, 1) == mb * 0x40_0000_0000_0000
}

/// A run of digits followed by a unit, as `format_size_mb` writes it.
proof fn lemma_digits_with_unit(k: nat, unit: Seq<char>)
    requires
        unit.len() == 2,
        unit[0] == 'g' || unit[0] == 'm',
        unit[1] == 'b',
    ensures
        ({
            let t = text::decimal(k) + unit;
            &&& text::ascii_lower(text::trim(t)) == t
            &&& text::strip_suffix(t, unit) == Some(text::decimal(k))
            &&& text::trim(text::decimal(k)) == text::decimal(k)
            &&& unit[0] == 'm' ==> text::strip_suffix(t, "gb"@) is None
            &&& figure(text::decimal(k)) == Some(
                (false, Figure::Number { digits: text::decimal(k), point: text::decimal(k).len() as int }),
            )
        }),
{
    let d = text::decimal(k);
    let t = d + unit;
    number::lemma_decimal_reads_back(k);
    assert(forall|i: int| 0 <= i < d.len() ==> text::is_digit(#[trigger] d[i]));
    assert(t[0] == d[0]);
    assert(t.last() == unit[1]);
    text::lemma_trim_unchanged(t);
    text::lemma_trim_unchanged(d);
    assert forall|i: int| 0 <= i < t.len() implies !text::is_upper(#[trigger] t[i]) by {
        if i < d.len() {
            assert(t[i] == d[i]);
        } else {
            assert(t[i] == unit[i - d.len()]);
        }
    }
    text::lemma_lower_unchanged(t);
    assert(t.skip(t.len() - 2) =~= unit);
    assert(t.take(t.len() - 2) =~= d);
    reveal_strlit("gb");
    if unit[0] == 'm' {
        assert(unit[0] != "gb"@[0]);
    }
    reveal_strlit("nan");
    reveal_strlit("inf");
    reveal_strlit("infinity");
    assert(text::is_digit(d[0]));
    assert(d != "nan"@ && d != "inf"@ && d != "infinity"@) by {
        assert("nan"@[0] == 'n' && "inf"@[0] == 'i' && "infinity"@[0] == 'i');
    }
    reveal_strlit("e");
    reveal_strlit(".");
    text::lemma_absent(d, "e"@);
    text::lemma_absent(d, "."@);
}

/// Reading back what `format_size_mb` wrote gives the same size, for every size up to
/// 2^53 MB and every other that double precision holds exactly: as it was written, in
/// capitals, and with white space around it.
pub proof fn size_reads_back(mb: u64, written: Seq<char>, before: Seq<char>, after: Seq<char>)
    requires
        mb <= 0x20_0000_0000_0000 || exact_in_53_bits(mb as nat),
        text::ascii_lower(written) == size_text(mb as nat),
        forall|i: int| 0 <= i < before.len() ==> text::is_space(#[trigger] before[i]),
        forall|i: int| 0 <= i < after.len() ==> text::is_space(#[trigger] after[i]),
    ensures
        size_value(size_text(mb as nat)) == Some(mb as nat),
        size_value(before + written + after) == Some(mb as nat),
{
    if mb <= 0x20_0000_0000_0000 {
        small_sizes_are_exact(mb as nat);
    }
    lemma_reads_back(mb);
    let t = size_text(mb as nat);
    lemma_size_text(mb as nat);
    assert(written.len() == t.len());
    assert(text::lower_char(written[0]) == t[0]);
    assert(text::lower_char(written.last()) == t.last());
    text::lemma_trim_around(before, written, after);
    text::lemma_trim_unchanged(t);
}

/// A size's text is in small letters, with no white space at its ends.
proof fn lemma_size_text(mb: nat)
    ensures
        size_text(mb).len() > 0,
        !text::is_space(size_text(mb)[0]),
        !text::is_space(size_text(mb).last()),
        text::ascii_lower(size_text(mb)) == size_text(mb),
{
    reveal_strlit("gb");
    reveal_strlit("mb");
    let (k, unit) = if mb >= 1024 && mb % 1024 == 0 {
        (mb / 1024, "gb"@)
    } else {
        (mb, "mb"@)
    };
    lemma_digits_with_unit(k, unit);
    number::lemma_decimal_reads_back(k);
    let d = text::decimal(k);
    let t = d + unit;
    assert(t[0] == d[0] && text::is_digit(d[0]));
    assert(t.last() == unit[1]);
    text::lemma_trim_unchanged(t);
}

proof fn lemma_reads_back(mb: u64)
    requires
        exact_in_53_bits(mb as nat),
    ensures
        size_value(size_text(mb as nat)) == Some(mb as nat),
{
    let (k, mult, unit) = if mb >= 1024 && mb % 1024 == 0 {
        ((mb / 1024) as nat, 1024nat, "gb"@)
    } else {
        (mb as nat, 1nat, "mb"@)
    };
    reveal_strlit("gb");
    reveal_strlit("mb");
    lemma_digits_with_unit(k, unit);
    number::lemma_decimal_reads_back(k);
    let d = text::decimal(k);
    let point = d.len() as int;
    let whole = whole_part(d, point);
    assert(rounding::pow10(0) == 1);
    assert(whole == k * 1);
    assert(k * mult == mb);
    assert(fraction_part(d, point).len() == 0);
    let n = (whole * 1 + number::digits_value(Seq::<char>::empty())) * (mult * 0x40_0000_0000_0000);
    assert(n == mb * 0x40_0000_0000_0000) by (nonlinear_arith)
        requires
            n == (whole * 1 + 0) * (mult * 0x40_0000_0000_0000),
            whole == k,
            k * mult == mb,
    ;
    assert(fraction_part(d, point) =~= Seq::<char>::empty());
    assert(rounded(d, point, mult) == mb);
}

proof fn lemma_unit_divides(mb: nat, j: nat)
    requires
        mb <= 0x20_0000_0000_0000,
        j <= 55,
        j == 55 ==> mb == 0x20_0000_0000_0000,
    ensures
        ({
            let n = mb * 0x40_0000_0000_0000;
            let u = rounding::unit_from(n, 1, power2::pow2(j));
            u > 0 && n % u == 0
        }),
    decreases 55 - j,
{
    let n = mb * 0x40_0000_0000_0000;
    let u = power2::pow2(j);
    power2::lemma_pow2_pos(j);
    power2::lemma2_to64_rest();
    if j == 55 {
        assert(u == 0x80_0000_0000_0000);
        assert(n == 0x10_0000_0000_0000 * u);
        vstd::arithmetic::div_mod::lemma_mod_multiples_basic(0x10_0000_0000_0000, u as int);
    } else {
        power2::lemma_pow2_adds(j, (54 - j) as nat);
        if j == 54 && mb < 0x20_0000_0000_0000 {
            assert(u == 0x40_0000_0000_0000);
            assert(n < 0x20_0000_0000_0000 * 1 * u) by (nonlinear_arith)
                requires
                    n == mb * 0x40_0000_0000_0000,
                    mb < 0x20_0000_0000_0000,
                    u == 0x40_0000_0000_0000,
            ;
        }
        if n < 0x20_0000_0000_0000 * 1 * u {
            let w = power2::pow2((54 - j) as nat);
            assert(n == (mb * w) * u) by (nonlinear_arith)
                requires
                    n == mb * 0x40_0000_0000_0000,
                    u * w == 0x40_0000_0000_0000,
            ;
            vstd::arithmetic::div_mod::lemma_mod_multiples_basic((mb * w) as int, u as int);
        } else {
            power2::lemma_pow2_unfold((j + 1) as nat);
            lemma_unit_divides(mb, j + 1);
        }
    }
}

/// Every size up to 2^53 MB is held exactly.
pub proof fn small_sizes_are_exact(mb: nat)
    requires
        mb <= 0x20_0000_0000_0000,
    ensures
        exact_in_53_bits(mb),
{
    let n = mb * 0x40_0000_0000_0000;
    power2::lemma2_to64();
    lemma_unit_divides(mb, 0);
    let u = rounding::unit_from(n, 1, 1);
    vstd::arithmetic::div_mod::lemma_fundamental_div_mod(n as int, u as int);
    assert(1 * u == u);
    assert(rounding::half_even(n, 1 * u) == n / u);
}

} // verus!
