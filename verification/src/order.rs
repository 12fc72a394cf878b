//! The order of texts, and stable sorting by a rank and a name.
use vstd::prelude::*;

use crate::split;
use crate::text::chars_of;

verus! {

/// Is `a` before `b`, letter by letter?
pub open spec fn text_less(a: Seq<char>, b: Seq<char>) -> bool
    decreases a.len(),
{
    if b.len() == 0 {
        false
    } else if a.len() == 0 {
        true
    } else if a[0] == b[0] {
        text_less(a.skip(1), b.skip(1))
    } else {
        a[0] < b[0]
    }
}

pub proof fn lemma_text_less_irreflexive(a: Seq<char>)
    ensures
        !text_less(a, a),
    decreases a.len(),
{
    if a.len() > 0 {
        lemma_text_less_irreflexive(a.skip(1));
    }
}

pub proof fn lemma_text_less_transitive(a: Seq<char>, b: Seq<char>, c: Seq<char>)
    requires
        text_less(a, b),
        text_less(b, c),
    ensures
        text_less(a, c),
    decreases a.len(),
{
    if a.len() > 0 && a[0] == b[0] && b[0] == c[0] {
        lemma_text_less_transitive(a.skip(1), b.skip(1), c.skip(1));
    }
}

pub proof fn lemma_text_less_total(a: Seq<char>, b: Seq<char>)
    ensures
        text_less(a, b) || text_less(b, a) || a == b,
    decreases a.len(),
{
    if a.len() > 0 && b.len() > 0 && a[0] == b[0] {
        lemma_text_less_total(a.skip(1), b.skip(1));
        if a.skip(1) == b.skip(1) {
            assert forall|i: int| 0 <= i < a.len() implies a.len() == b.len() && a[i] == b[i] by {
                assert(a.skip(1).len() == b.skip(1).len());
                if i > 0 {
                    assert(a.skip(1)[i - 1] == b.skip(1)[i - 1]);
                }
            }
            assert(a.skip(1).len() == b.skip(1).len());
            assert(a =~= b);
        }
    } else if a.len() == 0 && b.len() == 0 {
        assert(a =~= b);
    }
}

pub fn is_before(a: &str, b: &str) -> (r: bool)
    ensures
        r == text_less(a@, b@),
{
    let (ac, bc) = (chars_of(a), chars_of(b));
    let mut i: usize = 0;
    assert(a@.skip(0) =~= a@);
    assert(b@.skip(0) =~= b@);
    while i < ac.len() && i < bc.len() && ac[i] == bc[i]
        invariant
            i <= ac.len(),
            i <= bc.len(),
            ac@ == a@,
            bc@ == b@,
            text_less(a@.skip(i as int), b@.skip(i as int)) == text_less(a@, b@),
        decreases ac.len() - i,
    {
        assert(a@.skip(i as int).skip(1) =~= a@.skip(i + 1));
        assert(b@.skip(i as int).skip(1) =~= b@.skip(i + 1));
        i += 1;
    }
    if i == bc.len() {
        false
    } else if i == ac.len() {
        true
    } else {
        ac[i] < bc[i]
    }
}

// -------------------------------------------------------------------- sorting

/// What entries are sorted by: first a rank, then a name.
pub struct SortKey {
    pub rank: u64,
    pub name: String,
}

impl View for SortKey {
    type V = (nat, Seq<char>);

    open spec fn view(&self) -> (nat, Seq<char>) {
        (self.rank as nat, self.name@)
    }
}

pub open spec fn key_views(keys: Seq<SortKey>) -> Seq<(nat, Seq<char>)> {
    Seq::new(keys.len(), |i: int| keys[i]@)
}

pub open spec fn key_less(a: (nat, Seq<char>), b: (nat, Seq<char>)) -> bool {
    a.0 < b.0 || (a.0 == b.0 && text_less(a.1, b.1))
}

/// The order with entry `k` put behind every entry that is not greater.
pub open spec fn place(order: Seq<int>, keys: Seq<(nat, Seq<char>)>, k: int) -> Seq<int>
    decreases order.len(),
{
    if order.len() > 0 && key_less(keys[k], keys[order.last()]) {
        place(order.drop_last(), keys, k).push(order.last())
    } else {
        order.push(k)
    }
}

/// The positions `0..n` of `keys`, sorted; equal keys keep their order.
pub open spec fn ranked_upto(keys: Seq<(nat, Seq<char>)>, n: nat) -> Seq<int>
    decreases n,
{
    if n == 0 {
        Seq::empty()
    } else {
        place(ranked_upto(keys, (n - 1) as nat), keys, n - 1)
    }
}

/// The positions of `keys`, sorted; equal keys keep their order.
pub open spec fn ranked(keys: Seq<(nat, Seq<char>)>) -> Seq<int> {
    ranked_upto(keys, keys.len())
}

/// `order` lists each of the positions `0..n` once, by key and then by position.
pub open spec fn is_ranking(order: Seq<int>, keys: Seq<(nat, Seq<char>)>, n: nat) -> bool {
    &&& order.len() == n
    &&& forall|i: int| 0 <= i < n ==> 0 <= #[trigger] order[i] < n
    &&& forall|k: int| 0 <= k < n ==> order.contains(k)
    &&& forall|i: int, j: int|
        0 <= i < j < n ==> {
            ||| key_less(keys[#[trigger] order[i]], keys[#[trigger] order[j]])
            ||| keys[order[i]] == keys[order[j]] && order[i] < order[j]
        }
}

proof fn lemma_key_less(
    a: (nat, Seq<char>),
    b: (nat, Seq<char>),
    c: (nat, Seq<char>),
)
    ensures
        key_less(a, b) && key_less(b, c) ==> key_less(a, c),
        key_less(a, b) || key_less(b, a) || a == b,
        !key_less(a, a),
{
    if key_less(a, b) && key_less(b, c) && a.0 == b.0 && b.0 == c.0 {
        lemma_text_less_transitive(a.1, b.1, c.1);
    }
    lemma_text_less_total(a.1, b.1);
    lemma_text_less_irreflexive(a.1);
}

/// `place` puts `k` at one position and moves nothing else.
proof fn lemma_place(order: Seq<int>, keys: Seq<(nat, Seq<char>)>, k: int) -> (p: int)
    ensures
        0 <= p <= order.len(),
        place(order, keys, k) == order.insert(p, k),
        p > 0 ==> !key_less(keys[k], keys[order[p - 1]]),
        forall|i: int| p <= i < order.len() ==> key_less(keys[k], keys[#[trigger] order[i]]),
    decreases order.len(),
{
    if order.len() > 0 && key_less(keys[k], keys[order.last()]) {
        let p = lemma_place(order.drop_last(), keys, k);
        assert(order.drop_last().insert(p, k).push(order.last()) =~= order.insert(p, k));
        assert forall|i: int| p <= i < order.len() implies key_less(
            keys[k],
            keys[#[trigger] order[i]],
        ) by {
            if i < order.len() - 1 {
                assert(order.drop_last()[i] == order[i]);
            }
        }
        p
    } else {
        assert(order.push(k) =~= order.insert(order.len() as int, k));
        order.len() as int
    }
}

/// The sorted positions are a ranking: each position once, by key, then by position.
pub proof fn lemma_ranked_upto(keys: Seq<(nat, Seq<char>)>, n: nat)
    requires
        n <= keys.len(),
    ensures
        is_ranking(ranked_upto(keys, n), keys, n),
    decreases n,
{
    if n > 0 {
        let m = (n - 1) as nat;
        lemma_ranked_upto(keys, m);
        let o = ranked_upto(keys, m);
        let p = lemma_place(o, keys, m as int);
        let r = o.insert(p, m as int);
        assert forall|k: int| 0 <= k < n implies r.contains(k) by {
            if k == m {
                assert(r[p] == k);
            } else {
                assert(o.contains(k));
                let i = choose|i: int| 0 <= i < o.len() && o[i] == k;
                if i < p {
                    assert(r[i] == k);
                } else {
                    assert(r[i + 1] == k);
                }
            }
        }
        assert forall|i: int, j: int| 0 <= i < j < n implies {
            ||| key_less(keys[#[trigger] r[i]], keys[#[trigger] r[j]])
            ||| keys[r[i]] == keys[r[j]] && r[i] < r[j]
        } by {
            if j < p {
                assert(r[i] == o[i] && r[j] == o[j]);
            } else if i == p {
                assert(r[j] == o[j - 1]);
            } else if j == p {
                // Everything before p is at most what stands at p - 1.
                let last = keys[o[p - 1]];
                assert(r[i] == o[i]);
                lemma_key_less(keys[m as int], last, last);
                if i < p - 1 {
                    assert(key_less(keys[o[i]], last) || keys[o[i]] == last);
                    lemma_key_less(keys[o[i]], last, keys[m as int]);
                }
            } else if i > p {
                assert(r[i] == o[i - 1] && r[j] == o[j - 1]);
            } else {
                assert(r[i] == o[i] && r[j] == o[j - 1]);
            }
        }
        assert forall|i: int| 0 <= i < n implies 0 <= #[trigger] r[i] < n by {
            if i < p {
                assert(r[i] == o[i]);
            } else if i > p {
                assert(r[i] == o[i - 1]);
            }
        }
    }
}

pub open spec fn positions(order: Seq<usize>) -> Seq<int> {
    Seq::new(order.len(), |i: int| order[i] as int)
}

fn key_is_less(a: &SortKey, b: &SortKey) -> (r: bool)
    ensures
        r == key_less(a@, b@),
{
    a.rank < b.rank || (a.rank == b.rank && is_before(a.name.as_str(), b.name.as_str()))
}

/// The positions of the keys in sorted order; equal keys keep their order.
pub fn rank(keys: &Vec<SortKey>) -> (r: Vec<usize>)
    ensures
        positions(r@) == ranked(key_views(keys@)),
        is_ranking(positions(r@), key_views(keys@), keys@.len()),
{
    let ghost kv = key_views(keys@);
    let mut order: Vec<usize> = Vec::new();
    let mut k: usize = 0;
    assert(positions(order@) =~= Seq::empty());
    while k < keys.len()
        invariant
            k <= keys.len(),
            kv == key_views(keys@),
            positions(order@) == ranked_upto(kv, k as nat),
            is_ranking(positions(order@), kv, k as nat),
        decreases keys.len() - k,
    {
        let ghost o = positions(order@);
        let mut p: usize = order.len();
        assert forall|i: int| 0 <= i < order.len() implies (#[trigger] order@[i]) < k by {
            assert(o[i] == order@[i]);
        }
        while p > 0 && key_is_less(&keys[k], &keys[order[p - 1]])
            invariant
                p <= order.len(),
                k < keys.len(),
                kv == key_views(keys@),
                o == positions(order@),
                forall|i: int| 0 <= i < order.len() ==> (#[trigger] order@[i]) < k,
                forall|i: int|
                    p <= i < order.len() ==> key_less(kv[k as int], kv[#[trigger] o[i]]),
            decreases p,
        {
            assert(o[p - 1] == order@[p - 1]);
            p -= 1;
        }
        proof {
            let q = lemma_place(o, kv, k as int);
            if p > 0 {
                assert(o[p - 1] == order@[p - 1]);
            }
            if q < p {
                assert(key_less(kv[k as int], kv[o[p - 1]]));
            }
            if p < q {
                assert(key_less(kv[k as int], kv[o[q - 1]]));
            }
            assert(p == q);
        }
        order.insert(p, k);
        assert(positions(order@) =~= o.insert(p as int, k as int));
        k += 1;
        proof {
            lemma_ranked_upto(kv, k as nat);
        }
    }
    order
}

/// The texts in ascending order.
pub open spec fn sorted(texts: Seq<Seq<char>>) -> Seq<Seq<char>> {
    let keys = Seq::new(texts.len(), |i: int| (0nat, texts[i]));
    Seq::new(texts.len(), |i: int| texts[ranked(keys)[i]])
}

pub fn sort_texts(texts: &Vec<String>) -> (r: Vec<String>)
    ensures
        split::views(r@) == sorted(split::views(texts@)),
{
    let ghost tv = split::views(texts@);
    let mut keys: Vec<SortKey> = Vec::new();
    let mut i: usize = 0;
    while i < texts.len()
        invariant
            i <= texts.len(),
            keys@.len() == i,
            forall|j: int|
                0 <= j < i ==> (#[trigger] keys@[j]).rank == 0 && keys@[j].name@ == texts@[j]@,
        decreases texts.len() - i,
    {
        keys.push(SortKey { rank: 0, name: texts[i].clone() });
        i += 1;
    }
    let ghost kv = Seq::new(tv.len(), |i: int| (0nat, tv[i]));
    assert(key_views(keys@) =~= kv);
    let places = rank(&keys);
    let mut out: Vec<String> = Vec::new();
    let mut k: usize = 0;
    while k < places.len()
        invariant
            k <= places.len(),
            out@.len() == k,
            tv == split::views(texts@),
            positions(places@) == ranked(kv),
            is_ranking(positions(places@), kv, texts@.len()),
            forall|j: int| 0 <= j < k ==> (#[trigger] out@[j])@ == tv[ranked(kv)[j]],
        decreases places.len() - k,
    {
        let p = places[k];
        assert(positions(places@)[k as int] == p);
        out.push(texts[p].clone());
        k += 1;
    }
    assert(split::views(out@) =~= sorted(tv));
    out
}

/// Texts are ordered by the first letter in which they differ; a text comes before its
/// continuations.
pub proof fn the_first_difference_decides(a: Seq<char>, b: Seq<char>, k: int)
    requires
        0 <= k <= a.len(),
        k < b.len(),
        forall|i: int| 0 <= i < k ==> a[i] == b[i],
        k == a.len() || a[k] < b[k],
    ensures
        text_less(a, b),
        !text_less(b, a),
    decreases k,
{
    if k > 0 {
        assert(a[0] == b[0]);
        the_first_difference_decides(a.skip(1), b.skip(1), k - 1);
    }
}

/// Sorting keeps every text, and puts none behind a greater one.
pub proof fn sorting_keeps_all_texts(texts: Seq<Seq<char>>, i: int, j: int)
    requires
        0 <= i < j < texts.len(),
    ensures
        sorted(texts).len() == texts.len(),
        sorted(texts).contains(texts[i]),
        sorted(texts).contains(texts[j]),
        texts.contains(sorted(texts)[i]),
        !text_less(sorted(texts)[j], sorted(texts)[i]),
{
    let keys = Seq::new(texts.len(), |n: int| (0nat, texts[n]));
    lemma_ranked_upto(keys, keys.len());
    let r = ranked(keys);
    assert(r.contains(i) && r.contains(j));
    let p = choose|p: int| 0 <= p < r.len() && r[p] == i;
    let q = choose|q: int| 0 <= q < r.len() && r[q] == j;
    assert(sorted(texts)[p] == texts[i]);
    assert(sorted(texts)[q] == texts[j]);
    assert(texts[r[i]] == sorted(texts)[i]);
    let (x, y) = (sorted(texts)[i], sorted(texts)[j]);
    assert(keys[r[i]].1 == x && keys[r[j]].1 == y);
    if text_less(y, x) {
        if text_less(x, y) {
            lemma_text_less_transitive(x, y, x);
        }
        lemma_text_less_irreflexive(x);
    }
}

} // verus!
