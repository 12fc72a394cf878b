//! Bytes as hexadecimal text.
use vstd::prelude::*;

use crate::text::chars_of;

verus! {

/// The small hexadecimal digit of a number below 16.
pub open spec fn hex_digit(d: nat) -> char {
    if d < 10 {
        (48 + d) as char
    } else {
        (87 + d) as char
    }
}

/// Two digits per byte.
pub open spec fn hex_text(bytes: Seq<u8>) -> Seq<char>
    decreases bytes.len(),
{
    if bytes.len() == 0 {
        Seq::empty()
    } else {
        hex_text(bytes.drop_last()).push(hex_digit((bytes.last() / 16) as nat)).push(
            hex_digit((bytes.last() % 16) as nat),
        )
    }
}

fn digit_of(d: u8) -> (r: char)
    requires
        d < 16,
    ensures
        r == hex_digit(d as nat),
{
    if d < 10 {
        (48u8 + d) as char
    } else {
        (87u8 + d) as char
    }
}

pub fn hex(bytes: &Vec<u8>) -> (r: String)
    ensures
        r@ == hex_text(bytes@),
{
    let mut out = String::new();
    let mut i: usize = 0;
    assert(bytes@.take(0) =~= Seq::empty());
    assert(out@ =~= Seq::empty());
    while i < bytes.len()
        invariant
            i <= bytes.len(),
            out@ == hex_text(bytes@.take(i as int)),
        decreases bytes.len() - i,
    {
        assert(bytes@.take(i + 1).drop_last() =~= bytes@.take(i as int));
        out.push(digit_of(bytes[i] / 16));
        out.push(digit_of(bytes[i] % 16));
        i += 1;
    }
    assert(bytes@.take(i as int) =~= bytes@);
    out
}

/// A fresh API token from 32 random bytes.
pub fn generate_token(random: &Vec<u8>) -> (r: String)
    ensures
        r@ == hex_text(random@),
{
    hex(random)
}

// --------------------------------------------------------------------- reading

/// The value of a hexadecimal digit.
pub open spec fn hex_value(c: char) -> Option<nat> {
    if '0' <= c && c <= '9' {
        Some((c as int - '0' as int) as nat)
    } else if 'a' <= c && c <= 'f' {
        Some((c as int - 'a' as int + 10) as nat)
    } else if 'A' <= c && c <= 'F' {
        Some((c as int - 'A' as int + 10) as nat)
    } else {
        None
    }
}

/// The byte that two characters stand for: two digits, or a plus sign and one.
pub open spec fn pair_value(a: char, b: char) -> Option<nat> {
    match hex_value(b) {
        None => None,
        Some(low) => if a == '+' {
            Some(low)
        } else {
            match hex_value(a) {
                Some(high) => Some((16 * high + low) as nat),
                None => None,
            }
        },
    }
}

/// The bytes that a character takes in UTF-8.
pub open spec fn width(c: char) -> nat {
    if (c as int) < 0x80 {
        1
    } else if (c as int) < 0x800 {
        2
    } else if (c as int) < 0x1_0000 {
        3
    } else {
        4
    }
}

/// The bytes that a text takes in UTF-8.
pub open spec fn byte_len(s: Seq<char>) -> nat
    decreases s.len(),
{
    if s.len() == 0 {
        0
    } else {
        byte_len(s.drop_last()) + width(s.last())
    }
}

/// The bytes of the digit pairs from `from` on. A character of two bytes is no
/// pair of digits.
pub open spec fn bytes_from(s: Seq<char>, from: int) -> Option<Seq<u8>>
    decreases s.len() - from,
{
    if from < 0 || from >= s.len() {
        Some(Seq::empty())
    } else if from + 1 >= s.len() || width(s[from]) != 1 {
        None
    } else {
        match pair_value(s[from], s[from + 1]) {
            None => None,
            Some(v) => match bytes_from(s, from + 2) {
                Some(rest) => Some(seq![v as u8] + rest),
                None => None,
            },
        }
    }
}

/// The bytes that a text stands for: an even number of bytes, digit by digit.
pub open spec fn unhex_value(s: Seq<char>) -> Option<Seq<u8>> {
    if byte_len(s) % 2 != 0 {
        None
    } else {
        bytes_from(s, 0)
    }
}

/// Reading pairs of bytes from `from` on, is a longer character cut in two before
/// anything else ends the reading?
pub open spec fn cut_from(s: Seq<char>, from: int) -> bool
    decreases s.len() - from,
{
    if from < 0 || from >= s.len() {
        false
    } else if width(s[from]) == 2 {
        false
    } else if width(s[from]) > 2 {
        true
    } else if from + 1 >= s.len() {
        false
    } else if width(s[from + 1]) > 1 {
        true
    } else {
        pair_value(s[from], s[from + 1]) is Some && cut_from(s, from + 2)
    }
}

/// Texts of an even number of bytes can be read in pairs unless that would cut a
/// character in two.
pub open spec fn readable(s: Seq<char>) -> bool {
    byte_len(s) % 2 != 0 || !cut_from(s, 0)
}

fn value_of(c: char) -> (r: Option<u8>)
    ensures
        r is Some == hex_value(c) is Some,
        r matches Some(v) ==> v as nat == hex_value(c)->0 && v < 16,
{
    if '0' <= c && c <= '9' {
        Some((c as u32 - '0' as u32) as u8)
    } else if 'a' <= c && c <= 'f' {
        Some((c as u32 - 'a' as u32 + 10) as u8)
    } else if 'A' <= c && c <= 'F' {
        Some((c as u32 - 'A' as u32 + 10) as u8)
    } else {
        None
    }
}

fn pair_of(a: char, b: char) -> (r: Option<u8>)
    ensures
        r is Some == pair_value(a, b) is Some,
        r matches Some(v) ==> v as nat == pair_value(a, b)->0,
{
    match value_of(b) {
        None => None,
        Some(low) => if a == '+' {
            Some(low)
        } else {
            match value_of(a) {
                Some(high) => Some(high * 16 + low),
                None => None,
            }
        },
    }
}

fn is_even(cs: &Vec<char>) -> (r: bool)
    ensures
        r == (byte_len(cs@) % 2 == 0),
{
    let mut even: bool = true;
    let mut i: usize = 0;
    assert(cs@.take(0) =~= Seq::empty());
    while i < cs.len()
        invariant
            i <= cs.len(),
            even == (byte_len(cs@.take(i as int)) % 2 == 0),
        decreases cs.len() - i,
    {
        assert(cs@.take(i + 1).drop_last() =~= cs@.take(i as int));
        let c = cs[i];
        // Characters of one or three bytes change the parity.
        if c < '\u{80}' || (c >= '\u{800}' && c < '\u{10000}') {
            even = !even;
        }
        i += 1;
    }
    assert(cs@.take(i as int) =~= cs@);
    even
}

/// What `bytes_from` gives for the whole, from what the pairs so far gave.
proof fn lemma_prefix(s: Seq<char>, from: int, v: u8)
    requires
        0 <= from,
        from + 1 < s.len(),
        width(s[from]) == 1,
        pair_value(s[from], s[from + 1]) is Some,
        v as nat == pair_value(s[from], s[from + 1])->0,
    ensures
        bytes_from(s, from) == match bytes_from(s, from + 2) {
            Some(rest) => Some(seq![v] + rest),
            None => None::<Seq<u8>>,
        },
{
}

/// Can a text be read in pairs?
pub fn is_readable(s: &str) -> (r: bool)
    ensures
        r == readable(s@),
{
    let cs = chars_of(s);
    if !is_even(&cs) {
        return true;
    }
    let mut i: usize = 0;
    while i < cs.len()
        invariant
            i <= cs.len(),
            cs@ == s@,
            byte_len(s@) % 2 == 0,
            cut_from(s@, i as int) == cut_from(s@, 0),
        decreases cs.len() - i,
    {
        if cs[i] >= '\u{80}' {
            return cs[i] < '\u{800}';
        }
        if cs.len() - i < 2 {
            return true;
        }
        if cs[i + 1] >= '\u{80}' {
            return false;
        }
        if pair_of(cs[i], cs[i + 1]).is_none() {
            return true;
        }
        i += 2;
    }
    true
}

pub fn unhex(s: &str) -> (r: Option<Vec<u8>>)
    requires
        readable(s@),
    ensures
        r is Some == unhex_value(s@) is Some,
        r matches Some(b) ==> b@ == unhex_value(s@)->0,
{
    let cs = chars_of(s);
    if !is_even(&cs) {
        return None;
    }
    let mut out: Vec<u8> = Vec::new();
    let mut i: usize = 0;
    assert(bytes_from(s@, 0) is Some ==> out@ + bytes_from(s@, 0)->0 =~= bytes_from(s@, 0)->0);
    while i < cs.len()
        invariant
            i <= cs.len(),
            cs@ == s@,
            byte_len(s@) % 2 == 0,
            bytes_from(s@, i as int) is Some == bytes_from(s@, 0) is Some,
            bytes_from(s@, 0) is Some ==> out@ + bytes_from(s@, i as int)->0 == bytes_from(s@, 0)->0,
        decreases cs.len() - i,
    {
        if cs.len() - i < 2 || cs[i] >= '\u{80}' {
            return None;
        }
        match pair_of(cs[i], cs[i + 1]) {
            Some(v) => {
                let ghost before = out@;
                proof {
                    lemma_prefix(s@, i as int, v);
                }
                out.push(v);
                proof {
                    if bytes_from(s@, 0) is Some {
                        let rest = bytes_from(s@, i + 2)->0;
                        assert(before + (seq![v] + rest) =~= out@ + rest);
                    }
                }
            },
            None => {
                return None;
            },
        }
        i += 2;
    }
    assert(bytes_from(s@, i as int) == Some(Seq::<u8>::empty()));
    assert(out@ + Seq::<u8>::empty() =~= out@);
    Some(out)
}

// ------------------------------------------------------------------------ laws

proof fn lemma_hex_at(b: Seq<u8>, i: int)
    requires
        0 <= i < b.len(),
    ensures
        hex_text(b).len() == 2 * b.len(),
        hex_text(b)[2 * i] == hex_digit((b[i] / 16) as nat),
        hex_text(b)[2 * i + 1] == hex_digit((b[i] % 16) as nat),
    decreases b.len(),
{
    let front = b.drop_last();
    if front.len() == 0 {
        assert(hex_text(front) =~= Seq::empty());
    } else {
        if i < front.len() {
            lemma_hex_at(front, i);
        } else {
            lemma_hex_at(front, 0);
        }
    }
}

proof fn lemma_hex_len(b: Seq<u8>)
    ensures
        hex_text(b).len() == 2 * b.len(),
        byte_len(hex_text(b)) == 2 * b.len(),
    decreases b.len(),
{
    if b.len() > 0 {
        let front = b.drop_last();
        lemma_hex_len(front);
        let t = hex_text(front);
        let high = hex_digit((b.last() / 16) as nat);
        let low = hex_digit((b.last() % 16) as nat);
        assert(hex_text(b) == t.push(high).push(low));
        assert(t.push(high).push(low).drop_last() =~= t.push(high));
        assert(t.push(high).drop_last() =~= t);
        reveal_with_fuel(byte_len, 3);
    }
}

proof fn lemma_read_back(b: Seq<u8>, i: int)
    requires
        0 <= i <= b.len(),
    ensures
        bytes_from(hex_text(b), 2 * i) == Some(b.skip(i)),
        !cut_from(hex_text(b), 2 * i),
    decreases b.len() - i,
{
    lemma_hex_len(b);
    if i == b.len() {
        assert(b.skip(i) =~= Seq::<u8>::empty());
    } else {
        lemma_hex_at(b, i);
        lemma_read_back(b, i + 1);
        let s = hex_text(b);
        let v = b[i];
        let (h, l) = ((v / 16) as nat, (v % 16) as nat);
        assert(hex_value(hex_digit(h)) == Some(h));
        assert(hex_value(hex_digit(l)) == Some(l));
        assert(16 * h + l == v);
        assert(2 * (i + 1) == 2 * i + 2);
        assert(seq![v] + b.skip(i + 1) =~= b.skip(i));
        assert(((16 * h + l) as nat) as u8 == v);
    }
}

/// Bytes written as hexadecimal text are read back unchanged.
pub proof fn hex_reads_back(b: Seq<u8>)
    ensures
        readable(hex_text(b)),
        unhex_value(hex_text(b)) == Some(b),
{
    lemma_hex_len(b);
    lemma_read_back(b, 0);
    assert(b.skip(0) =~= b);
}

/// Hexadecimal digits are no white space.
pub proof fn lemma_hex_plain(b: Seq<u8>)
    ensures
        hex_text(b).len() == 2 * b.len(),
        forall|i: int|
            0 <= i < hex_text(b).len() ==> !crate::text::is_space(#[trigger] hex_text(b)[i]),
    decreases b.len(),
{
    lemma_hex_len(b);
    if b.len() > 0 {
        let front = hex_text(b.drop_last());
        lemma_hex_plain(b.drop_last());
        assert forall|i: int| 0 <= i < hex_text(b).len() implies !crate::text::is_space(
            #[trigger] hex_text(b)[i],
        ) by {
            if i < front.len() {
                assert(hex_text(b)[i] == front[i]);
            }
        }
    }
}

} // verus!
