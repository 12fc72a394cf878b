//! Reading integers from decimal text.
use vstd::prelude::*;

use crate::text;
use crate::text::chars_of;

verus! {

/// The number that a run of decimal digits stands for.
pub open spec fn digits_value(s: Seq<char>) -> nat
    decreases s.len(),
{
    if s.len() == 0 {
        0
    } else {
        (10 * digits_value(s.drop_last()) + (s.last() as int - '0' as int)) as nat
    }
}

pub open spec fn all_digits(s: Seq<char>) -> bool {
    forall|i: int| 0 <= i < s.len() ==> text::is_digit(#[trigger] s[i])
}

/// Reading further digits never makes a number smaller.
pub proof fn lemma_digits_grow(s: Seq<char>, n: int)
    requires
        0 <= n <= s.len(),
        all_digits(s),
    ensures
        digits_value(s.take(n)) <= digits_value(s),
    decreases s.len() - n,
{
    if n < s.len() {
        lemma_digits_grow(s, n + 1);
        assert(s.take(n + 1).drop_last() =~= s.take(n));
        assert(text::is_digit(s[n]));
    } else {
        assert(s.take(n) =~= s);
    }
}

/// An unsigned number no greater than `max`: digits, at least one, with at most
/// one `+` before them.
pub open spec fn unsigned(s: Seq<char>, max: nat) -> Option<nat> {
    let t = if s.len() > 0 && s[0] == '+' {
        s.skip(1)
    } else {
        s
    };
    if t.len() == 0 || !all_digits(t) || digits_value(t) > max {
        None
    } else {
        Some(digits_value(t))
    }
}

/// A signed 64-bit number: `unsigned`, or a `-` before digits.
pub open spec fn signed(s: Seq<char>) -> Option<int> {
    if s.len() > 0 && s[0] == '-' {
        let t = s.skip(1);
        if t.len() == 0 || !all_digits(t) || digits_value(t) > 0x8000_0000_0000_0000 {
            None
        } else {
            Some(-digits_value(t))
        }
    } else {
        match unsigned(s, i64::MAX as nat) {
            Some(v) => Some(v as int),
            None => None,
        }
    }
}

/// The value of the digits from `from` on, if they are digits, at least one, and
/// the value is at most `max`.
fn digits_from(cs: &Vec<char>, from: usize, max: u64) -> (r: Option<u64>)
    requires
        from <= cs@.len(),
    ensures
        ({
            let t = cs@.skip(from as int);
            match r {
                Some(v) => t.len() > 0 && all_digits(t) && v as nat == digits_value(t) && v <= max,
                None => t.len() == 0 || !all_digits(t) || digits_value(t) > max,
            }
        }),
{
    let ghost t = cs@.skip(from as int);
    if from == cs.len() {
        return None;
    }
    let mut i: usize = from;
    let mut v: u64 = 0;
    let mut over: bool = false;
    assert(t.take(0) =~= Seq::<char>::empty());
    while i < cs.len()
        invariant
            from <= i <= cs.len(),
            t == cs@.skip(from as int),
            forall|j: int| 0 <= j < i - from ==> text::is_digit(#[trigger] t[j]),
            !over ==> v as nat == digits_value(t.take(i - from)) && v <= max,
            over ==> digits_value(t.take(i - from)) > max,
        decreases cs.len() - i,
    {
        let c = cs[i];
        assert(t[i - from] == c);
        if !(c >= '0' && c <= '9') {
            assert(!text::is_digit(t[i - from]));
            return None;
        }
        let d: u64 = (c as u32 - '0' as u32) as u64;
        assert(t.take(i - from + 1).drop_last() =~= t.take(i - from));
        if !over {
            let w: u128 = v as u128 * 10 + d as u128;
            if w > max as u128 {
                over = true;
            } else {
                v = w as u64;
            }
        }
        i += 1;
    }
    assert(t.take(i - from) =~= t);
    if over {
        None
    } else {
        Some(v)
    }
}

/// A number from 0 to `max`, if the text is one.
pub fn parse_unsigned(s: &str, max: u64) -> (r: Option<u64>)
    ensures
        r is Some == unsigned(s@, max as nat) is Some,
        r is Some ==> r->0 as nat == unsigned(s@, max as nat)->0 && r->0 <= max,
{
    let cs = chars_of(s);
    if cs.len() > 0 && cs[0] == '+' {
        digits_from(&cs, 1, max)
    } else {
        assert(cs@.skip(0) =~= cs@);
        digits_from(&cs, 0, max)
    }
}

pub fn parse_u64(s: &str) -> (r: Option<u64>)
    ensures
        r is Some == unsigned(s@, u64::MAX as nat) is Some,
        r is Some ==> r->0 as nat == unsigned(s@, u64::MAX as nat)->0,
{
    parse_unsigned(s, u64::MAX)
}

pub fn parse_i64(s: &str) -> (r: Option<i64>)
    ensures
        r is Some == signed(s@) is Some,
        r is Some ==> r->0 as int == signed(s@)->0,
{
    let cs = chars_of(s);
    if cs.len() > 0 && cs[0] == '-' {
        match digits_from(&cs, 1, 0x8000_0000_0000_0000) {
            Some(v) => {
                if v == 0x8000_0000_0000_0000 {
                    Some(i64::MIN)
                } else {
                    Some(-(v as i64))
                }
            },
            None => None,
        }
    } else {
        match parse_unsigned(s, i64::MAX as u64) {
            Some(v) => Some(v as i64),
            None => None,
        }
    }
}

/// The decimal text of a number is digits, at least one, and stands for the number.
pub proof fn lemma_decimal_reads_back(n: nat)
    ensures
        text::decimal(n).len() >= 1,
        all_digits(text::decimal(n)),
        digits_value(text::decimal(n)) == n,
    decreases n,
{
    let d = text::decimal(n);
    if n < 10 {
        assert(d.drop_last() =~= Seq::<char>::empty());
        assert(d.last() == text::digit_char(n));
        assert(digits_value(d.drop_last()) == 0);
    } else {
        lemma_decimal_reads_back(n / 10);
        assert(d.drop_last() =~= text::decimal(n / 10));
        assert(d.last() == text::digit_char(n % 10));
        assert forall|i: int| 0 <= i < d.len() implies text::is_digit(#[trigger] d[i]) by {
            if i < d.len() - 1 {
                assert(d[i] == text::decimal(n / 10)[i]);
            }
        }
    }
}

/// What `dec` writes, `parse_u64` reads.
pub proof fn decimal_is_unsigned(n: nat, max: nat)
    requires
        n <= max,
    ensures
        unsigned(text::decimal(n), max) == Some(n),
{
    lemma_decimal_reads_back(n);
    let d = text::decimal(n);
    assert(text::is_digit(d[0]));
}

/// Signed numbers are read back from their decimal text.
pub proof fn signed_numbers_are_read_back(n: int)
    requires
        i64::MIN <= n <= i64::MAX,
    ensures
        signed(text::decimal_int(n)) == Some(n),
{
    let t = text::decimal_int(n);
    if n < 0 {
        let d = text::decimal((-n) as nat);
        lemma_decimal_reads_back((-n) as nat);
        assert(t[0] == '-');
        assert(t.skip(1) =~= d);
    } else {
        lemma_decimal_reads_back(n as nat);
        decimal_is_unsigned(n as nat, i64::MAX as nat);
        assert(text::is_digit(t[0]));
    }
}

} // verus!
