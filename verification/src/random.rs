//! Random names and tokens.
use vstd::prelude::*;

use crate::text;
use crate::text::chars_of;

verus! {

/// `rand::Rng::gen_range` of the thread's generator over `0..n`: some number below
/// `n`. Which one is chance.
#[verifier::external_body]
pub(crate) fn random_below(n: usize) -> (r: usize)
    requires
        n > 0,
    ensures
        r < n,
{
    rand::Rng::gen_range(&mut rand::thread_rng(), 0..n)
}

/// The characters of an alphabet at the given positions.
pub open spec fn spelled(alphabet: Seq<char>, picks: Seq<usize>) -> Seq<char> {
    Seq::new(picks.len(), |i: int| alphabet[picks[i] as int])
}

/// The text that the picks spell.
pub fn spell(alphabet: &str, picks: &Vec<usize>) -> (r: String)
    requires
        forall|i: int| 0 <= i < picks@.len() ==> (#[trigger] picks@[i]) < alphabet@.len(),
    ensures
        r@ == spelled(alphabet@, picks@),
{
    let cs = chars_of(alphabet);
    let mut out = String::new();
    let mut i: usize = 0;
    while i < picks.len()
        invariant
            i <= picks.len(),
            cs@ == alphabet@,
            forall|j: int| 0 <= j < picks@.len() ==> (#[trigger] picks@[j]) < alphabet@.len(),
            out@.len() == i,
            forall|j: int| 0 <= j < i ==> out@[j] == spelled(alphabet@, picks@)[j],
        decreases picks.len() - i,
    {
        out.push(cs[picks[i]]);
        i += 1;
    }
    assert(out@ =~= spelled(alphabet@, picks@));
    out
}

/// Is the text of `n` characters of the alphabet?
pub open spec fn is_spelled(s: Seq<char>, alphabet: Seq<char>, n: nat) -> bool {
    s.len() == n && forall|i: int| 0 <= i < s.len() ==> alphabet.contains(#[trigger] s[i])
}

/// `n` random characters of the alphabet.
pub fn random_text(alphabet: &str, n: usize) -> (r: String)
    requires
        alphabet@.len() > 0,
    ensures
        is_spelled(r@, alphabet@, n as nat),
{
    let size = alphabet.unicode_len();
    let mut picks: Vec<usize> = Vec::new();
    let mut i: usize = 0;
    while i < n
        invariant
            i <= n,
            size == alphabet@.len(),
            size > 0,
            picks@.len() == i,
            forall|j: int| 0 <= j < picks@.len() ==> (#[trigger] picks@[j]) < alphabet@.len(),
        decreases n - i,
    {
        picks.push(random_below(size));
        i += 1;
    }
    let r = spell(alphabet, &picks);
    assert forall|i: int| 0 <= i < r@.len() implies alphabet@.contains(#[trigger] r@[i]) by {
        assert(r@[i] == alphabet@[picks@[i] as int]);
    }
    r
}

/// A random API token: 64 hexadecimal digits.
pub fn random_token() -> (r: String)
    ensures
        is_spelled(r@, "0123456789abcdef"@, 64),
{
    proof {
        reveal_strlit("0123456789abcdef");
    }
    random_text("0123456789abcdef", 64)
}

/// A fresh notification topic: `hades-` and twelve small letters and digits.
pub fn random_topic() -> (r: String)
    ensures
        text::starts_with(r@, "hades-"@),
        is_spelled(
            r@.skip("hades-"@.len() as int),
            "abcdefghijklmnopqrstuvwxyz0123456789"@,
            12,
        ),
{
    proof {
        reveal_strlit("abcdefghijklmnopqrstuvwxyz0123456789");
    }
    let suffix = random_text("abcdefghijklmnopqrstuvwxyz0123456789", 12);
    let r = "hades-".to_owned().concat(suffix.as_str());
    assert(r@.take("hades-"@.len() as int) =~= "hades-"@);
    assert(r@.skip("hades-"@.len() as int) =~= suffix@);
    r
}

} // verus!
