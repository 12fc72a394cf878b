//! Text as sequences of characters: trimming, splitting, searching, ordering
//! and decimal numbers. Every executable function here is tied to a spec
//! function over `Seq<char>`, and the rest of the library speaks in those.

use vstd::prelude::*;

verus! {

/// `String::push` appends the given character to the end of the string.
pub assume_specification[ String::push ](s: &mut String, c: char)
    ensures
        final(s)@ == old(s)@.push(c),
;

// ---------------------------------------------------------------- characters

/// The characters of a string, in order.
pub fn chars_of(s: &str) -> (r: Vec<char>)
    ensures
        r@ == s@,
{
    let mut out: Vec<char> = Vec::new();
    for c in it: s.chars()
        invariant
            it.seq() == s@,
            out@ == s@.take(it.index() as int),
    {
        out.push(c);
        assert(s@.take(it.index() as int).push(c) =~= s@.take(it.index() as int + 1));
    }
    assert(s@.take(s@.len() as int) =~= s@);
    out
}

/// The string made of the given characters.
pub fn string_of(chars: &Vec<char>) -> (r: String)
    ensures
        r@ == chars@,
{
    let mut out = String::new();
    let mut i: usize = 0;
    while i < chars.len()
        invariant
            i <= chars.len(),
            out@ == chars@.take(i as int),
        decreases chars.len() - i,
    {
        out.push(chars[i]);
        assert(chars@.take(i as int).push(chars@[i as int]) =~= chars@.take(i as int + 1));
        i += 1;
    }
    assert(chars@.take(chars@.len() as int) =~= chars@);
    out
}

/// Do two strings hold the same characters?
pub fn same(a: &str, b: &str) -> (r: bool)
    ensures
        r == (a@ == b@),
{
    a.to_owned() == b.to_owned()
}

pub open spec fn is_digit(c: char) -> bool {
    '0' <= c && c <= '9'
}

pub open spec fn is_lower(c: char) -> bool {
    'a' <= c && c <= 'z'
}

pub open spec fn is_upper(c: char) -> bool {
    'A' <= c && c <= 'Z'
}

/// The characters with the Unicode property White_Space.
pub open spec fn is_space(c: char) -> bool {
    ||| '\u{9}' <= c && c <= '\u{d}'
    ||| c == '\u{20}'
    ||| c == '\u{85}'
    ||| c == '\u{a0}'
    ||| c == '\u{1680}'
    ||| '\u{2000}' <= c && c <= '\u{200a}'
    ||| c == '\u{2028}'
    ||| c == '\u{2029}'
    ||| c == '\u{202f}'
    ||| c == '\u{205f}'
    ||| c == '\u{3000}'
}

pub fn space(c: char) -> (r: bool)
    ensures
        r == is_space(c),
{
    ('\u{9}' <= c && c <= '\u{d}') || c == '\u{20}' || c == '\u{85}' || c == '\u{a0}'
        || c == '\u{1680}' || ('\u{2000}' <= c && c <= '\u{200a}') || c == '\u{2028}'
        || c == '\u{2029}' || c == '\u{202f}' || c == '\u{205f}' || c == '\u{3000}'
}

/// One character with the ASCII capitals mapped to small letters.
pub open spec fn lower_char(c: char) -> char {
    if is_upper(c) {
        (c as u32 + 32) as char
    } else {
        c
    }
}

/// A text with the ASCII capitals mapped to small letters.
pub open spec fn ascii_lower(s: Seq<char>) -> Seq<char> {
    s.map_values(|c: char| lower_char(c))
}

fn lower(c: char) -> (r: char)
    ensures
        r == lower_char(c),
{
    if 'A' <= c && c <= 'Z' {
        ((c as u8) + 32u8) as char
    } else {
        c
    }
}

pub fn to_ascii_lower(s: &str) -> (r: String)
    ensures
        r@ == ascii_lower(s@),
{
    let cs = chars_of(s);
    let mut out: Vec<char> = Vec::new();
    let mut i: usize = 0;
    while i < cs.len()
        invariant
            i <= cs.len(),
            cs@ == s@,
            out@ == ascii_lower(s@).take(i as int),
        decreases cs.len() - i,
    {
        out.push(lower(cs[i]));
        assert(ascii_lower(s@).take(i as int).push(lower_char(cs@[i as int])) =~= ascii_lower(
            s@,
        ).take(i as int + 1));
        i += 1;
    }
    assert(ascii_lower(s@).take(s@.len() as int) =~= ascii_lower(s@));
    string_of(&out)
}

// ------------------------------------------------------------------ decimals

/// The character of a decimal digit.
pub open spec fn digit_char(d: nat) -> char {
    (48 + d) as char
}

/// A natural number in decimal, without leading zeros.
pub open spec fn decimal(n: nat) -> Seq<char>
    decreases n,
{
    if n < 10 {
        seq![digit_char(n)]
    } else {
        decimal(n / 10).push(digit_char(n % 10))
    }
}

/// An integer in decimal, with a leading minus sign when it is negative.
pub open spec fn decimal_int(n: int) -> Seq<char> {
    if n < 0 {
        seq!['-'] + decimal((-n) as nat)
    } else {
        decimal(n as nat)
    }
}

pub fn digit(d: u64) -> (r: char)
    requires
        d < 10,
    ensures
        r == digit_char(d as nat),
{
    ((d as u8) + 48u8) as char
}

/// A number in decimal.
pub fn dec(n: u64) -> (r: String)
    ensures
        r@ == decimal(n as nat),
    decreases n,
{
    if n < 10 {
        let mut out = String::new();
        out.push(digit(n));
        assert(out@ =~= seq![digit_char(n as nat)]);
        out
    } else {
        let mut out = dec(n / 10);
        out.push(digit(n % 10));
        out
    }
}

/// A signed number in decimal.
pub fn dec_int(n: i64) -> (r: String)
    ensures
        r@ == decimal_int(n as int),
{
    if n < 0 {
        let mut out = String::new();
        out.push('-');
        assert(out@ =~= seq!['-']);
        let magnitude: u64 = if n == i64::MIN {
            0x8000_0000_0000_0000u64
        } else {
            (-n) as u64
        };
        out.append(dec(magnitude).as_str());
        out
    } else {
        dec(n as u64)
    }
}

// ---------------------------------------------------------- prefixes, suffixes

pub open spec fn starts_with(s: Seq<char>, p: Seq<char>) -> bool {
    s.len() >= p.len() && s.take(p.len() as int) == p
}

pub open spec fn ends_with(s: Seq<char>, p: Seq<char>) -> bool {
    s.len() >= p.len() && s.skip(s.len() - p.len()) == p
}

/// What follows the prefix `p`, if the text starts with it.
pub open spec fn strip_prefix(s: Seq<char>, p: Seq<char>) -> Option<Seq<char>> {
    if starts_with(s, p) {
        Some(s.skip(p.len() as int))
    } else {
        None
    }
}

/// What precedes the suffix `p`, if the text ends with it.
pub open spec fn strip_suffix(s: Seq<char>, p: Seq<char>) -> Option<Seq<char>> {
    if ends_with(s, p) {
        Some(s.take(s.len() - p.len()))
    } else {
        None
    }
}

/// Does `p` stand in `s` at position `at`?
pub open spec fn stands_at(s: Seq<char>, p: Seq<char>, at: int) -> bool {
    0 <= at && at + p.len() <= s.len() && s.subrange(at, at + p.len()) == p
}

fn matches_at(s: &Vec<char>, p: &Vec<char>, at: usize) -> (r: bool)
    ensures
        r == stands_at(s@, p@, at as int),
{
    if at > s.len() || s.len() - at < p.len() {
        return false;
    }
    let mut i: usize = 0;
    while i < p.len()
        invariant
            i <= p.len(),
            at + p.len() <= s.len(),
            forall|j: int| 0 <= j < i ==> s@[at + j] == p@[j],
        decreases p.len() - i,
    {
        if s[at + i] != p[i] {
            assert(s@.subrange(at as int, at + p@.len())[i as int] != p@[i as int]);
            return false;
        }
        i += 1;
    }
    assert(s@.subrange(at as int, at + p@.len()) =~= p@);
    true
}

pub fn has_prefix(s: &str, p: &str) -> (r: bool)
    ensures
        r == starts_with(s@, p@),
{
    let (sc, pc) = (chars_of(s), chars_of(p));
    let r = matches_at(&sc, &pc, 0);
    assert(s@.len() >= p@.len() ==> s@.subrange(0, p@.len() as int) =~= s@.take(p@.len() as int));
    r
}

pub fn has_suffix(s: &str, p: &str) -> (r: bool)
    ensures
        r == ends_with(s@, p@),
{
    let (sc, pc) = (chars_of(s), chars_of(p));
    if sc.len() < pc.len() {
        return false;
    }
    let r = matches_at(&sc, &pc, sc.len() - pc.len());
    assert(s@.subrange(s@.len() - p@.len(), s@.len() as int) =~= s@.skip(s@.len() - p@.len()));
    r
}

pub fn without_prefix(s: &str, p: &str) -> (r: Option<String>)
    ensures
        r is Some == strip_prefix(s@, p@) is Some,
        r is Some ==> r->0@ == strip_prefix(s@, p@)->0,
{
    if has_prefix(s, p) {
        let n = s.unicode_len();
        let k = p.unicode_len();
        let rest = s.substring_char(k, n).to_owned();
        assert(s@.subrange(k as int, n as int) =~= s@.skip(k as int));
        Some(rest)
    } else {
        None
    }
}

pub fn without_suffix(s: &str, p: &str) -> (r: Option<String>)
    ensures
        r is Some == strip_suffix(s@, p@) is Some,
        r is Some ==> r->0@ == strip_suffix(s@, p@)->0,
{
    if has_suffix(s, p) {
        let n = s.unicode_len();
        let k = p.unicode_len();
        let rest = s.substring_char(0, n - k).to_owned();
        assert(s@.subrange(0, n - k) =~= s@.take(n - k));
        Some(rest)
    } else {
        None
    }
}

/// The text without its trailing repetitions of `p`.
pub open spec fn drop_trailing(s: Seq<char>, p: Seq<char>) -> Seq<char>
    decreases s.len(),
{
    if p.len() > 0 && ends_with(s, p) {
        drop_trailing(s.take(s.len() - p.len()), p)
    } else {
        s
    }
}

/// The text without its leading repetitions of `p`.
pub open spec fn drop_leading(s: Seq<char>, p: Seq<char>) -> Seq<char>
    decreases s.len(),
{
    if p.len() > 0 && starts_with(s, p) {
        drop_leading(s.skip(p.len() as int), p)
    } else {
        s
    }
}

pub fn trim_trailing(s: &str, p: &str) -> (r: String)
    ensures
        r@ == drop_trailing(s@, p@),
{
    let mut cur = s.to_owned();
    if p.is_empty() {
        return cur;
    }
    loop
        invariant
            p@.len() > 0,
            drop_trailing(cur@, p@) == drop_trailing(s@, p@),
        decreases cur@.len(),
    {
        match without_suffix(cur.as_str(), p) {
            Some(rest) => {
                cur = rest;
            },
            None => {
                return cur;
            },
        }
    }
}

pub fn trim_leading(s: &str, p: &str) -> (r: String)
    ensures
        r@ == drop_leading(s@, p@),
{
    let mut cur = s.to_owned();
    if p.is_empty() {
        return cur;
    }
    loop
        invariant
            p@.len() > 0,
            drop_leading(cur@, p@) == drop_leading(s@, p@),
        decreases cur@.len(),
    {
        match without_prefix(cur.as_str(), p) {
            Some(rest) => {
                cur = rest;
            },
            None => {
                return cur;
            },
        }
    }
}

/// The text without leading white space.
pub open spec fn trim_start(s: Seq<char>) -> Seq<char>
    decreases s.len(),
{
    if s.len() > 0 && is_space(s[0]) {
        trim_start(s.skip(1))
    } else {
        s
    }
}

/// The text without trailing white space.
pub open spec fn trim_end(s: Seq<char>) -> Seq<char>
    decreases s.len(),
{
    if s.len() > 0 && is_space(s.last()) {
        trim_end(s.drop_last())
    } else {
        s
    }
}

/// The text without white space at either end.
pub open spec fn trim(s: Seq<char>) -> Seq<char> {
    trim_end(trim_start(s))
}

/// A piece of a string, by character positions.
pub fn slice(s: &str, from: usize, to: usize) -> (r: String)
    requires
        from <= to <= s@.len(),
    ensures
        r@ == s@.subrange(from as int, to as int),
{
    s.substring_char(from, to).to_owned()
}

pub fn trimmed_end(s: &str) -> (r: String)
    ensures
        r@ == trim_end(s@),
{
    let cs = chars_of(s);
    let mut n: usize = cs.len();
    assert(s@.take(n as int) =~= s@);
    while n > 0 && space(cs[n - 1])
        invariant
            n <= cs.len(),
            cs@ == s@,
            trim_end(s@.take(n as int)) == trim_end(s@),
        decreases n,
    {
        assert(s@.take(n as int).drop_last() =~= s@.take(n - 1));
        n -= 1;
    }
    assert(s@.subrange(0, n as int) =~= s@.take(n as int));
    assert(n > 0 ==> s@.take(n as int).last() == cs@[n - 1]);
    slice(s, 0, n)
}

pub fn trimmed_start(s: &str) -> (r: String)
    ensures
        r@ == trim_start(s@),
{
    let cs = chars_of(s);
    let mut i: usize = 0;
    assert(s@.skip(0) =~= s@);
    while i < cs.len() && space(cs[i])
        invariant
            i <= cs.len(),
            cs@ == s@,
            trim_start(s@.skip(i as int)) == trim_start(s@),
        decreases cs.len() - i,
    {
        assert(s@.skip(i as int).skip(1) =~= s@.skip(i + 1));
        i += 1;
    }
    assert(s@.subrange(i as int, s@.len() as int) =~= s@.skip(i as int));
    slice(s, i, cs.len())
}

pub fn trimmed(s: &str) -> (r: String)
    ensures
        r@ == trim(s@),
{
    trimmed_end(trimmed_start(s).as_str())
}

// ------------------------------------------------------------------ searching

/// The first position at or after `from` where `p` stands in `s`.
pub open spec fn first_at(s: Seq<char>, p: Seq<char>, from: int) -> Option<int>
    decreases s.len() + 1 - from,
{
    if from < 0 || from + p.len() > s.len() {
        None
    } else if stands_at(s, p, from) {
        Some(from)
    } else {
        first_at(s, p, from + 1)
    }
}

pub open spec fn contains(s: Seq<char>, p: Seq<char>) -> bool {
    first_at(s, p, 0) is Some
}

/// What `first_at` gives is where `p` stands, and `p` stands nowhere before it.
pub proof fn lemma_first_at(s: Seq<char>, p: Seq<char>, from: int)
    requires
        0 <= from,
    ensures
        first_at(s, p, from) is Some ==> {
            &&& from <= first_at(s, p, from)->0
            &&& stands_at(s, p, first_at(s, p, from)->0)
            &&& forall|k: int|
                from <= k < first_at(s, p, from)->0 ==> !#[trigger] stands_at(s, p, k)
        },
        first_at(s, p, from) is None ==> forall|k: int|
            from <= k ==> !#[trigger] stands_at(s, p, k),
    decreases s.len() + 1 - from,
{
    if from + p.len() > s.len() {
    } else if stands_at(s, p, from) {
    } else {
        lemma_first_at(s, p, from + 1);
    }
}

pub fn find(s: &str, p: &str) -> (r: Option<usize>)
    ensures
        r is Some == first_at(s@, p@, 0) is Some,
        r is Some ==> r->0 as int == first_at(s@, p@, 0)->0,
        r is Some ==> r->0 + p@.len() <= s@.len(),
{
    let (sc, pc) = (chars_of(s), chars_of(p));
    let mut i: usize = 0;
    while i <= sc.len() && sc.len() - i >= pc.len()
        invariant
            i <= sc.len() + 1,
            sc@ == s@,
            pc@ == p@,
            first_at(s@, p@, i as int) == first_at(s@, p@, 0),
        decreases sc.len() + 1 - i,
    {
        if matches_at(&sc, &pc, i) {
            return Some(i);
        }
        if i == sc.len() {
            assert(first_at(s@, p@, i + 1) is None);
            return None;
        }
        i += 1;
    }
    None
}

pub fn has(s: &str, p: &str) -> (r: bool)
    ensures
        r == contains(s@, p@),
{
    find(s, p).is_some()
}

/// What precedes the first `p`, or the whole text when there is none.
pub open spec fn before(s: Seq<char>, p: Seq<char>) -> Seq<char> {
    match first_at(s, p, 0) {
        Some(i) => s.take(i),
        None => s,
    }
}

/// What follows the first `p`, if there is one.
pub open spec fn after(s: Seq<char>, p: Seq<char>) -> Option<Seq<char>> {
    match first_at(s, p, 0) {
        Some(i) => Some(s.skip(i + p.len())),
        None => None,
    }
}

pub fn text_before(s: &str, p: &str) -> (r: String)
    ensures
        r@ == before(s@, p@),
{
    match find(s, p) {
        Some(i) => {
            assert(s@.subrange(0, i as int) =~= s@.take(i as int));
            slice(s, 0, i)
        },
        None => s.to_owned(),
    }
}

pub fn text_after(s: &str, p: &str) -> (r: Option<String>)
    ensures
        r is Some == after(s@, p@) is Some,
        r is Some ==> r->0@ == after(s@, p@)->0,
{
    match find(s, p) {
        Some(i) => {
            let n = s.unicode_len();
            let k = i + p.unicode_len();
            assert(s@.subrange(k as int, n as int) =~= s@.skip(k as int));
            Some(slice(s, k, n))
        },
        None => None,
    }
}

/// A text without white space at its ends is its own trimming.
pub proof fn lemma_trim_unchanged(s: Seq<char>)
    requires
        s.len() > 0 ==> !is_space(s[0]) && !is_space(s.last()),
    ensures
        trim(s) == s,
{
}

/// White space around a text is trimmed off.
pub proof fn lemma_trim_around(before: Seq<char>, s: Seq<char>, after: Seq<char>)
    requires
        s.len() > 0,
        !is_space(s[0]),
        !is_space(s.last()),
        forall|i: int| 0 <= i < before.len() ==> is_space(#[trigger] before[i]),
        forall|i: int| 0 <= i < after.len() ==> is_space(#[trigger] after[i]),
    ensures
        trim(before + s + after) == s,
    decreases before.len() + after.len(),
{
    let t = before + s + after;
    if before.len() > 0 {
        assert(t[0] == before[0]);
        assert(t.skip(1) =~= before.skip(1) + s + after);
        lemma_trim_around(before.skip(1), s, after);
    } else if after.len() > 0 {
        assert(t[0] == s[0]);
        assert(t.last() == after.last());
        assert(t.drop_last() =~= before + s + after.drop_last());
        assert(t.drop_last()[0] == s[0]);
        lemma_trim_around(before, s, after.drop_last());
    } else {
        assert(t =~= s);
    }
}

/// A text without capitals is its own lower case.
pub proof fn lemma_lower_unchanged(s: Seq<char>)
    requires
        forall|i: int| 0 <= i < s.len() ==> !is_upper(#[trigger] s[i]),
    ensures
        ascii_lower(s) == s,
{
    assert(ascii_lower(s) =~= s);
}

/// A character that does not occur is not found.
pub proof fn lemma_absent(s: Seq<char>, p: Seq<char>)
    requires
        p.len() == 1,
        forall|i: int| 0 <= i < s.len() ==> #[trigger] s[i] != p[0],
    ensures
        first_at(s, p, 0) is None,
        before(s, p) == s,
        after(s, p) is None,
{
    lemma_first_at(s, p, 0);
    if first_at(s, p, 0) is Some {
        let i = first_at(s, p, 0)->0;
        assert(s.subrange(i, i + 1)[0] == s[i]);
    }
}

/// The lowercase of a text.
pub uninterp spec fn lower_text(s: Seq<char>) -> Seq<char>;

/// `str::to_lowercase`: the lowercase of a text by the rules of Unicode, which is
/// named.
#[verifier::external_body]
pub(crate) fn to_lower(s: &str) -> (r: String)
    ensures
        r@ == lower_text(s@),
{
    s.to_lowercase()
}

/// A text is what stands before the first occurrence of another, that other, and what follows;
/// before it there is no occurrence.
pub proof fn pieces_make_the_whole(s: Seq<char>, p: Seq<char>)
    requires
        p.len() > 0,
    ensures
        after(s, p) is Some <==> contains(s, p),
        after(s, p) matches Some(rest) ==> before(s, p) + p + rest == s && !contains(
            before(s, p),
            p,
        ),
        after(s, p) is None ==> before(s, p) == s,
{
    lemma_first_at(s, p, 0);
    if contains(s, p) {
        let i = first_at(s, p, 0)->0;
        let head = before(s, p);
        let rest = after(s, p)->0;
        assert(s.subrange(i, i + p.len()) =~= p);
        assert(head + p + rest =~= s) by {
            assert forall|k: int| i <= k < i + p.len() implies s[k] == p[k - i] by {
                assert(s.subrange(i, i + p.len())[k - i] == s[k]);
            }
        }
        lemma_first_at(head, p, 0);
        if contains(head, p) {
            let k = first_at(head, p, 0)->0;
            assert(s.subrange(k, k + p.len()) =~= head.subrange(k, k + p.len()));
            assert(stands_at(s, p, k));
        }
    }
}

/// A text is found wherever it stands.
pub proof fn texts_are_found_where_they_stand(a: Seq<char>, p: Seq<char>, b: Seq<char>)
    ensures
        contains(a + p + b, p),
        starts_with(p + b, p),
        ends_with(a + p, p),
        strip_prefix(p + b, p) == Some(b),
        strip_suffix(a + p, p) == Some(a),
{
    let s = a + p + b;
    assert(s.subrange(a.len() as int, (a.len() + p.len()) as int) =~= p);
    assert(stands_at(s, p, a.len() as int));
    lemma_first_at(s, p, 0);
    assert((p + b).take(p.len() as int) =~= p);
    assert((p + b).skip(p.len() as int) =~= b);
    assert((a + p).skip(a.len() as int) =~= p);
    assert((a + p).take(a.len() as int) =~= a);
}

/// What repeats at the end of a text is dropped, all of it and nothing else.
pub proof fn repetitions_are_dropped(s: Seq<char>, p: Seq<char>)
    requires
        p.len() > 0,
    ensures
        !ends_with(drop_trailing(s, p), p),
        drop_trailing(s + p, p) == drop_trailing(s, p),
        !ends_with(s, p) ==> drop_trailing(s, p) == s,
        !starts_with(drop_leading(s, p), p),
        drop_leading(p + s, p) == drop_leading(s, p),
        !starts_with(s, p) ==> drop_leading(s, p) == s,
    decreases s.len(),
{
    if ends_with(s, p) {
        repetitions_are_dropped(s.take(s.len() - p.len()), p);
    }
    if starts_with(s, p) {
        repetitions_are_dropped(s.skip(p.len() as int), p);
    }
    assert((s + p).skip((s + p).len() - p.len()) =~= p);
    assert((s + p).take((s + p).len() - p.len()) =~= s);
    assert((p + s).take(p.len() as int) =~= p);
    assert((p + s).skip(p.len() as int) =~= s);
}

/// A trimmed text neither begins nor ends with white space, and only white space was taken
/// off.
pub proof fn only_white_space_is_trimmed(s: Seq<char>)
    ensures
        trim(s).len() > 0 ==> !is_space(trim(s)[0]) && !is_space(trim(s).last()),
        exists|i: int, j: int|
            0 <= i <= j <= s.len() && #[trigger] s.subrange(i, j) == trim(s) && forall|k: int|
                0 <= k < s.len() && !(i <= k < j) ==> is_space(#[trigger] s[k]),
{
    let n = lemma_trim_start(s);
    let t = trim_start(s);
    let m = lemma_trim_end(t);
    let r = trim_end(t);
    assert(s.subrange(n, n + m) =~= r);
    if r.len() > 0 {
        assert(r[0] == t[0]);
    }
    assert forall|k: int| 0 <= k < s.len() && !(n <= k < n + m) implies is_space(
        #[trigger] s[k],
    ) by {
        if k >= n {
            assert(t[k - n] == s[k]);
        }
    }
    assert(s.subrange(n, n + m) == trim(s));
}

proof fn lemma_trim_start(s: Seq<char>) -> (n: int)
    ensures
        0 <= n <= s.len(),
        trim_start(s) == s.skip(n),
        forall|k: int| 0 <= k < n ==> is_space(#[trigger] s[k]),
        trim_start(s).len() > 0 ==> !is_space(trim_start(s)[0]),
    decreases s.len(),
{
    if s.len() > 0 && is_space(s[0]) {
        let m = lemma_trim_start(s.skip(1));
        assert(s.skip(1).skip(m) =~= s.skip(m + 1));
        assert forall|k: int| 0 <= k < m + 1 implies is_space(#[trigger] s[k]) by {
            if k > 0 {
                assert(s.skip(1)[k - 1] == s[k]);
            }
        }
        m + 1
    } else {
        assert(s.skip(0) =~= s);
        0
    }
}

proof fn lemma_trim_end(s: Seq<char>) -> (n: int)
    ensures
        0 <= n <= s.len(),
        trim_end(s) == s.take(n),
        forall|k: int| n <= k < s.len() ==> is_space(#[trigger] s[k]),
        trim_end(s).len() > 0 ==> !is_space(trim_end(s).last()),
    decreases s.len(),
{
    if s.len() > 0 && is_space(s.last()) {
        let m = lemma_trim_end(s.drop_last());
        assert(s.drop_last().take(m) =~= s.take(m));
        assert forall|k: int| m <= k < s.len() implies is_space(#[trigger] s[k]) by {
            if k < s.len() - 1 {
                assert(s.drop_last()[k] == s[k]);
            }
        }
        m
    } else {
        assert(s.take(s.len() as int) =~= s);
        s.len() as int
    }
}

/// Small letters stand for the capitals of the alphabet, and every other character stays.
pub proof fn capitals_become_small(s: Seq<char>, i: int)
    requires
        0 <= i < s.len(),
    ensures
        ascii_lower(s).len() == s.len(),
        'A' <= s[i] <= 'Z' ==> ascii_lower(s)[i] as int == s[i] as int + 32,
        !('A' <= s[i] <= 'Z') ==> ascii_lower(s)[i] == s[i],
        ascii_lower(ascii_lower(s)) == ascii_lower(s),
{
    assert(ascii_lower(ascii_lower(s)) =~= ascii_lower(s));
}

} // verus!
