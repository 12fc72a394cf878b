//! Maps from text to text, kept in the order of their keys.
use vstd::prelude::*;

use crate::names;
use crate::names::NameMap;
use crate::order;
use crate::split;
use crate::text::same;

verus! {

/// Keys and values, with no key twice and the keys in ascending order.
#[derive(Debug)]
pub struct TextMap {
    inner: NameMap<String>,
}

/// The texts that a map's strings hold.
spec fn texts(m: Map<Seq<char>, String>) -> Map<Seq<char>, Seq<char>> {
    m.map_values(|v: String| v@)
}

impl View for TextMap {
    type V = Map<Seq<char>, Seq<char>>;

    closed spec fn view(&self) -> Map<Seq<char>, Seq<char>> {
        texts(self.inner@)
    }
}

impl TextMap {
    pub fn new() -> (r: TextMap)
        ensures
            r@ == Map::<Seq<char>, Seq<char>>::empty(),
    {
        let r = TextMap { inner: NameMap::new() };
        assert(r@ =~= Map::<Seq<char>, Seq<char>>::empty());
        r
    }

    pub fn is_empty(&self) -> (r: bool)
        ensures
            r == (self@ == Map::<Seq<char>, Seq<char>>::empty()),
    {
        let r = self.inner.is_empty();
        proof {
            if r {
                assert(self@ =~= Map::<Seq<char>, Seq<char>>::empty());
            } else if self@ == Map::<Seq<char>, Seq<char>>::empty() {
                assert(self.inner@ =~= Map::<Seq<char>, String>::empty()) by {
                    assert forall|k: Seq<char>| !self.inner@.dom().contains(k) by {
                        assert(self@.dom().contains(k) == self.inner@.dom().contains(k));
                    }
                }
            }
        }
        r
    }

    pub fn get(&self, key: &str) -> (r: Option<&String>)
        ensures
            r is Some == self@.dom().contains(key@),
            r matches Some(v) ==> v@ == self@[key@],
    {
        self.inner.get(key)
    }

    /// Sets the value of a key, whether the key was there or not.
    pub fn insert(&mut self, key: String, value: String)
        ensures
            final(self)@ == old(self)@.insert(key@, value@),
    {
        let ghost before = self.inner@;
        let ghost (k, v) = (key@, value);
        self.inner.insert(key, value);
        assert(texts(before.insert(k, v)) =~= texts(before).insert(k, v@));
    }

    /// Takes a key and its value out.
    pub fn remove(&mut self, key: &str)
        ensures
            final(self)@ == old(self)@.remove(key@),
    {
        let ghost before = self.inner@;
        let _taken = self.inner.remove(key);
        assert(texts(before.remove(key@)) =~= texts(before).remove(key@));
    }

    pub fn len(&self) -> (r: usize)
        ensures
            r == self.key_list().len(),
            names::lists(self.key_list(), self@.dom()),
            self.key_list() == names::listing(self@.dom()),
    {
        let n = self.inner.len();
        assert(self@.dom() =~= self.inner@.dom());
        n
    }

    /// The keys in ascending order.
    pub closed spec fn key_list(&self) -> Seq<Seq<char>> {
        self.inner.key_list()
    }

    /// The keys in ascending order.
    pub fn keys(&self) -> (r: Vec<String>)
        ensures
            split::views(r@) == self.key_list(),
            names::ascending(split::views(r@)),
            forall|k: Seq<char>| #[trigger]
                split::views(r@).contains(k) == self@.dom().contains(k),
    {
        self.inner.keys()
    }

    /// The key at a position of the key list.
    pub fn key_at(&self, i: usize) -> (r: &String)
        requires
            i < self.key_list().len(),
        ensures
            r@ == self.key_list()[i as int],
            self@.dom().contains(r@),
    {
        self.inner.key_at(i)
    }

    /// The value of the key at a position of the key list.
    pub fn value_at(&self, i: usize) -> (r: &String)
        requires
            i < self.key_list().len(),
        ensures
            r@ == self@[self.key_list()[i as int]],
    {
        let _key = self.inner.key_at(i);
        self.inner.value_at(i)
    }
}

/// The map without the keys that have the value `v`.
pub open spec fn without_value(m: Map<Seq<char>, Seq<char>>, v: Seq<char>) -> Map<
    Seq<char>,
    Seq<char>,
> {
    m.restrict(Set::new(|k: Seq<char>| m[k] != v))
}

impl TextMap {
    /// Takes out every key that has the given value.
    pub fn drop_value(&mut self, value: &str)
        ensures
            final(self)@ == without_value(old(self)@, value@),
    {
        let keys = self.keys();
        let ghost m0 = self@;
        let mut i: usize = 0;
        while i < keys.len()
            invariant
                i <= keys.len(),
                forall|k: Seq<char>| split::views(keys@).contains(k) == m0.dom().contains(k),
                forall|k: Seq<char>| #[trigger]
                    self@.dom().contains(k) ==> m0.dom().contains(k) && self@[k] == m0[k],
                forall|k: Seq<char>|
                    m0.dom().contains(k) && m0[k] != value@ ==> #[trigger] self@.dom().contains(k),
                forall|j: int|
                    0 <= j < i && m0[#[trigger] split::views(keys@)[j]] == value@
                        ==> !self@.dom().contains(split::views(keys@)[j]),
            decreases keys.len() - i,
        {
            let ghost before = self@;
            assert(split::views(keys@)[i as int] == keys@[i as int]@);
            let drop = match self.get(keys[i].as_str()) {
                Some(v) => same(v.as_str(), value),
                None => false,
            };
            if drop {
                self.remove(keys[i].as_str());
            }
            i += 1;
        }
        proof {
            assert forall|k: Seq<char>| self@.dom().contains(k) implies m0[k] != value@ by {
                assert(m0.dom().contains(k));
                assert(split::views(keys@).contains(k));
                let j = choose|j: int|
                    0 <= j < split::views(keys@).len() && split::views(keys@)[j] == k;
                assert(split::views(keys@)[j] == k);
            }
            assert(self@ =~= without_value(m0, value@));
        }
    }

    /// The keys that have the given value, in ascending order.
    pub fn keys_with(&self, value: &str) -> (r: Vec<String>)
        ensures
            names::ascending(split::views(r@)),
            forall|k: Seq<char>| #[trigger]
                split::views(r@).contains(k) == (self@.dom().contains(k) && self@[k] == value@),
    {
        let keys = self.keys();
        let mut out: Vec<String> = Vec::new();
        let ghost mut at = Seq::<int>::empty();
        let mut i: usize = 0;
        while i < keys.len()
            invariant
                i <= keys.len(),
                at.len() == out@.len(),
                forall|j: int|
                    0 <= j < at.len() ==> 0 <= #[trigger] at[j] < i && out@[j]@ == keys@[at[j]]@,
                forall|j: int, k: int| 0 <= j < k < at.len() ==> #[trigger] at[j] < #[trigger] at[k],
                names::ascending(split::views(keys@)),
                forall|k: Seq<char>| split::views(keys@).contains(k) == self@.dom().contains(k),
                forall|j: int|
                    0 <= j < out@.len() ==> self@.dom().contains((#[trigger] out@[j])@)
                        && self@[out@[j]@] == value@,
                forall|j: int|
                    0 <= j < i && self@[#[trigger] split::views(keys@)[j]] == value@
                        ==> split::views(out@).contains(split::views(keys@)[j]),
            decreases keys.len() - i,
        {
            assert(split::views(keys@)[i as int] == keys@[i as int]@);
            assert(split::views(keys@).contains(keys@[i as int]@));
            let ghost before = out@;
            let has = match self.get(keys[i].as_str()) {
                Some(v) => same(v.as_str(), value),
                None => false,
            };
            if has {
                out.push(keys[i].clone());
                proof {
                    at = at.push(i as int);
                    split::lemma_views_push(before, out@.last());
                    assert(split::views(out@) =~= split::views(before).push(keys@[i as int]@));
                    assert(split::views(out@)[before.len() as int] == keys@[i as int]@);
                    assert forall|k: Seq<char>| split::views(before).contains(k) implies split::views(
                        out@,
                    ).contains(k) by {
                        let j = choose|j: int|
                            0 <= j < split::views(before).len() && split::views(before)[j] == k;
                        assert(split::views(out@)[j] == k);
                    }
                }
            }
            i += 1;
        }
        proof {
            let (ov, kv) = (split::views(out@), split::views(keys@));
            assert forall|j: int, k: int| 0 <= j < k < ov.len() implies order::text_less(
                #[trigger] ov[j],
                #[trigger] ov[k],
            ) by {
                assert(at[j] < at[k]);
                assert(ov[j] == kv[at[j]] && ov[k] == kv[at[k]]);
            }
            assert forall|k: Seq<char>|
                split::views(out@).contains(k) == (self@.dom().contains(k) && self@[k] == value@) by {
                if split::views(out@).contains(k) {
                    let j = choose|j: int|
                        0 <= j < split::views(out@).len() && split::views(out@)[j] == k;
                    assert(out@[j]@ == k);
                }
                if self@.dom().contains(k) && self@[k] == value@ {
                    assert(split::views(keys@).contains(k));
                    let j = choose|j: int|
                        0 <= j < split::views(keys@).len() && split::views(keys@)[j] == k;
                    assert(split::views(keys@)[j] == k);
                }
            }
        }
        out
    }
}

impl Clone for TextMap {
    fn clone(&self) -> (r: Self)
        ensures
            r@ == self@,
    {
        let keys = self.inner.keys();
        let mut out = TextMap::new();
        let mut i: usize = 0;
        while i < keys.len()
            invariant
                i <= keys.len(),
                split::views(keys@) == self.inner.key_list(),
                forall|k: Seq<char>|
                    split::views(keys@).contains(k) == self.inner@.dom().contains(k),
                forall|k: Seq<char>| #[trigger]
                    out@.dom().contains(k) ==> self@.dom().contains(k) && out@[k] == self@[k],
                forall|j: int|
                    0 <= j < i ==> out@.dom().contains(#[trigger] split::views(keys@)[j]),
            decreases keys.len() - i,
        {
            assert(split::views(keys@)[i as int] == keys@[i as int]@);
            assert(split::views(keys@).contains(keys@[i as int]@));
            match self.get(keys[i].as_str()) {
                Some(v) => {
                    out.insert(keys[i].clone(), v.clone());
                },
                None => {},
            }
            i += 1;
        }
        proof {
            assert forall|k: Seq<char>| self@.dom().contains(k) implies out@.dom().contains(k) by {
                assert(self.inner@.dom().contains(k));
                assert(split::views(keys@).contains(k));
                let j = choose|j: int|
                    0 <= j < split::views(keys@).len() && split::views(keys@)[j] == k;
                assert(out@.dom().contains(split::views(keys@)[j]));
            }
            assert(out@ =~= self@);
        }
        out
    }
}

/// The texts of a list of pairs.
pub open spec fn pair_views(v: Seq<(String, String)>) -> Seq<(Seq<char>, Seq<char>)> {
    Seq::new(v.len(), |i: int| (v[i].0@, v[i].1@))
}

/// The keys of a list of pairs.
pub open spec fn pair_keys(p: Seq<(Seq<char>, Seq<char>)>) -> Seq<Seq<char>> {
    Seq::new(p.len(), |i: int| p[i].0)
}

/// The map that a list of pairs stands for; of two with one key, the later counts.
pub open spec fn map_of(p: Seq<(Seq<char>, Seq<char>)>) -> Map<Seq<char>, Seq<char>>
    decreases p.len(),
{
    if p.len() == 0 {
        Map::empty()
    } else {
        map_of(p.drop_last()).insert(p.last().0, p.last().1)
    }
}

impl TextMap {
    /// Keys and values in the order of the keys.
    pub open spec fn pair_list(&self) -> Seq<(Seq<char>, Seq<char>)> {
        Seq::new(self.key_list().len(), |i: int| (self.key_list()[i], self@[self.key_list()[i]]))
    }

    /// Keys and values in the order of the keys.
    pub fn pairs(&self) -> (r: Vec<(String, String)>)
        ensures
            pair_views(r@) == self.pair_list(),
            names::ascending(pair_keys(pair_views(r@))),
            map_of(pair_views(r@)) == self@,
    {
        let keys = self.keys();
        let mut out: Vec<(String, String)> = Vec::new();
        let n = self.len();
        let mut i: usize = 0;
        while i < n
            invariant
                i <= n,
                n == self.key_list().len(),
                out@.len() == i,
                forall|j: int|
                    0 <= j < i ==> (#[trigger] out@[j]).0@ == self.key_list()[j] && out@[j].1@
                        == self@[self.key_list()[j]],
            decreases n - i,
        {
            let key = self.key_at(i).clone();
            let value = self.value_at(i).clone();
            out.push((key, value));
            i += 1;
        }
        proof {
            let p = pair_views(out@);
            assert(p =~= self.pair_list());
            assert(pair_keys(p) =~= self.key_list());
            assert(names::ascending(split::views(keys@)));
            lemma_map_of(p, self@);
            assert forall|k: Seq<char>| self@.dom().contains(k) implies map_of(p).dom().contains(k) by {
                assert(split::views(keys@).contains(k));
                let j = choose|j: int|
                    0 <= j < split::views(keys@).len() && split::views(keys@)[j] == k;
                assert(p[j].0 == k);
            }
            assert forall|k: Seq<char>| map_of(p).dom().contains(k) implies self@.dom().contains(k) by {
                let j = choose|j: int| 0 <= j < p.len() && (#[trigger] p[j]).0 == k;
                assert(split::views(keys@)[j] == k);
                assert(split::views(keys@).contains(k));
            }
            assert(map_of(p) =~= self@);
        }
        out
    }

    /// The map that a list of pairs stands for.
    pub fn from_pairs(pairs: &Vec<(String, String)>) -> (r: TextMap)
        ensures
            r@ == map_of(pair_views(pairs@)),
    {
        let mut out = TextMap::new();
        let ghost p = pair_views(pairs@);
        let mut i: usize = 0;
        assert(p.take(0) =~= Seq::empty());
        while i < pairs.len()
            invariant
                i <= pairs.len(),
                p == pair_views(pairs@),
                out@ == map_of(p.take(i as int)),
            decreases pairs.len() - i,
        {
            assert(p.take(i + 1).drop_last() =~= p.take(i as int));
            assert(p.take(i + 1).last() == (pairs@[i as int].0@, pairs@[i as int].1@));
            out.insert(pairs[i].0.clone(), pairs[i].1.clone());
            i += 1;
        }
        assert(p.take(i as int) =~= p);
        out
    }
}

/// A list whose values are those of a map holds nothing that the map does not hold.
proof fn lemma_map_of(p: Seq<(Seq<char>, Seq<char>)>, m: Map<Seq<char>, Seq<char>>)
    requires
        forall|i: int| 0 <= i < p.len() ==> (#[trigger] p[i]).1 == m[p[i].0],
    ensures
        forall|k: Seq<char>| #[trigger]
            map_of(p).dom().contains(k) ==> map_of(p)[k] == m[k] && exists|i: int|
                0 <= i < p.len() && (#[trigger] p[i]).0 == k,
        forall|i: int| 0 <= i < p.len() ==> map_of(p).dom().contains((#[trigger] p[i]).0),
    decreases p.len(),
{
    if p.len() > 0 {
        let front = p.drop_last();
        assert forall|i: int| 0 <= i < front.len() implies (#[trigger] front[i]).1 == m[front[i].0] by {
            assert(front[i] == p[i]);
        }
        lemma_map_of(front, m);
        assert forall|k: Seq<char>| #[trigger] map_of(p).dom().contains(k) implies map_of(p)[k]
            == m[k] && exists|i: int| 0 <= i < p.len() && (#[trigger] p[i]).0 == k by {
            if k == p.last().0 {
                assert(p[p.len() - 1].0 == k);
            } else {
                assert(map_of(front).dom().contains(k));
                let i = choose|i: int| 0 <= i < front.len() && (#[trigger] front[i]).0 == k;
                assert(p[i].0 == k);
            }
        }
        assert forall|i: int| 0 <= i < p.len() implies map_of(p).dom().contains(
            (#[trigger] p[i]).0,
        ) by {
            if i < front.len() {
                assert(front[i] == p[i]);
            }
        }
    }
}

/// Taking a value out takes out every key that had it, and no other; the other keys keep what
/// they had.
pub proof fn just_the_keys_of_a_value_go(
    m: Map<Seq<char>, Seq<char>>,
    v: Seq<char>,
    k: Seq<char>,
)
    ensures
        without_value(m, v).dom().contains(k) <==> m.dom().contains(k) && m[k] != v,
        without_value(m, v).dom().contains(k) ==> without_value(m, v)[k] == m[k],
{
}

/// Of the pairs with one key, the last one counts.
pub proof fn the_last_pair_counts(p: Seq<(Seq<char>, Seq<char>)>, i: int)
    requires
        0 <= i < p.len(),
        forall|j: int| i < j < p.len() ==> (#[trigger] p[j]).0 != p[i].0,
    ensures
        map_of(p).dom().contains(p[i].0),
        map_of(p)[p[i].0] == p[i].1,
    decreases p.len(),
{
    if i < p.len() - 1 {
        let q = p.drop_last();
        assert forall|j: int| i < j < q.len() implies (#[trigger] q[j]).0 != q[i].0 by {
            assert(q[j] == p[j]);
        }
        the_last_pair_counts(q, i);
        assert(p.last() == p[p.len() - 1]);
    }
}

/// Every key of the map comes from a pair.
pub proof fn keys_come_from_pairs(p: Seq<(Seq<char>, Seq<char>)>, k: Seq<char>)
    requires
        map_of(p).dom().contains(k),
    ensures
        exists|i: int| 0 <= i < p.len() && (#[trigger] p[i]).0 == k,
    decreases p.len(),
{
    if p.last().0 == k {
        assert(p[p.len() - 1].0 == k);
    } else {
        let q = p.drop_last();
        keys_come_from_pairs(q, k);
        let i = choose|i: int| 0 <= i < q.len() && (#[trigger] q[i]).0 == k;
        assert(p[i] == q[i]);
    }
}

} // verus!
