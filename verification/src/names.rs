//! Maps from names to values of any kind, kept in the order of the names.
use vstd::prelude::*;

use crate::order;
use crate::order::is_before;
use crate::split;
use crate::text::same;

verus! {

/// One name and what it stands for.
#[derive(Debug)]
pub struct NamePair<V> {
    pub key: String,
    pub value: V,
}

/// A map from names, with no name twice and the names in ascending order.
#[derive(Debug)]
pub struct NameMap<V> {
    entries: Vec<NamePair<V>>,
}

/// Are the keys ascending, with none twice?
pub open spec fn ascending(keys: Seq<Seq<char>>) -> bool {
    forall|i: int, j: int|
        0 <= i < j < keys.len() ==> order::text_less(#[trigger] keys[i], #[trigger] keys[j])
}

/// Does a list hold these names in ascending order, each once?
pub open spec fn lists(keys: Seq<Seq<char>>, dom: Set<Seq<char>>) -> bool {
    &&& ascending(keys)
    &&& forall|k: Seq<char>| #[trigger] keys.contains(k) == dom.contains(k)
}

/// These names in ascending order.
pub open spec fn listing(dom: Set<Seq<char>>) -> Seq<Seq<char>> {
    choose|keys: Seq<Seq<char>>| lists(keys, dom)
}

/// There is one way to list some names in ascending order.
pub proof fn lemma_lists_once(a: Seq<Seq<char>>, b: Seq<Seq<char>>, dom: Set<Seq<char>>)
    requires
        lists(a, dom),
        lists(b, dom),
    ensures
        a == b,
    decreases a.len(),
{
    if a.len() == 0 {
        if b.len() > 0 {
            assert(b.contains(b[0]));
            assert(a.contains(b[0]));
        }
        assert(a =~= b);
    } else if b.len() == 0 {
        assert(a.contains(a[0]));
        assert(b.contains(a[0]));
    } else {
        let x = a.last();
        let y = b.last();
        assert(a.contains(x) && b.contains(y));
        assert(b.contains(x) && a.contains(y));
        let i = choose|i: int| 0 <= i < b.len() && b[i] == x;
        let j = choose|j: int| 0 <= j < a.len() && a[j] == y;
        if x != y {
            assert(order::text_less(b[i], b[b.len() - 1]));
            assert(order::text_less(a[j], a[a.len() - 1]));
            order::lemma_text_less_transitive(x, y, x);
            order::lemma_text_less_irreflexive(x);
        }
        lemma_lists_front(a, dom);
        lemma_lists_front(b, dom);
        lemma_lists_once(a.drop_last(), b.drop_last(), dom.remove(x));
        assert(a =~= a.drop_last().push(x));
        assert(b =~= b.drop_last().push(y));
    }
}

/// All names but the last are listed by the list without its last.
pub proof fn lemma_lists_front(a: Seq<Seq<char>>, dom: Set<Seq<char>>)
    requires
        lists(a, dom),
        a.len() > 0,
    ensures
        lists(a.drop_last(), dom.remove(a.last())),
{
    let front = a.drop_last();
    assert forall|k: Seq<char>| #[trigger] front.contains(k) == dom.remove(a.last()).contains(k) by {
        if front.contains(k) {
            let i = choose|i: int| 0 <= i < front.len() && front[i] == k;
            assert(a[i] == k);
            assert(order::text_less(a[i], a[a.len() - 1]));
            order::lemma_text_less_irreflexive(k);
            assert(a.contains(k));
        }
        if dom.contains(k) && k != a.last() {
            assert(a.contains(k));
            let i = choose|i: int| 0 <= i < a.len() && a[i] == k;
            assert(front[i] == k);
        }
    }
    assert forall|i: int, j: int| 0 <= i < j < front.len() implies order::text_less(
        #[trigger] front[i],
        #[trigger] front[j],
    ) by {
        assert(front[i] == a[i] && front[j] == a[j]);
    }
}

/// A list of some names in ascending order is their listing.
pub proof fn lemma_listing(keys: Seq<Seq<char>>, dom: Set<Seq<char>>)
    requires
        lists(keys, dom),
    ensures
        keys == listing(dom),
{
    lemma_lists_once(keys, listing(dom), dom);
}

/// An ascending list with one more name in its place.
spec fn with_name(keys: Seq<Seq<char>>, a: Seq<char>) -> Seq<Seq<char>>
    decreases keys.len(),
{
    if keys.len() == 0 || order::text_less(keys.last(), a) {
        keys.push(a)
    } else {
        with_name(keys.drop_last(), a).push(keys.last())
    }
}

proof fn lemma_with_name(keys: Seq<Seq<char>>, a: Seq<char>, dom: Set<Seq<char>>)
    requires
        lists(keys, dom),
        !dom.contains(a),
    ensures
        lists(with_name(keys, a), dom.insert(a)),
    decreases keys.len(),
{
    let all = with_name(keys, a);
    if keys.len() == 0 || order::text_less(keys.last(), a) {
        assert forall|i: int, j: int| 0 <= i < j < all.len() implies order::text_less(
            #[trigger] all[i],
            #[trigger] all[j],
        ) by {
            assert(all[i] == keys[i]);
            if j < keys.len() {
                assert(all[j] == keys[j]);
            } else if i < keys.len() - 1 {
                assert(order::text_less(keys[i], keys[keys.len() - 1]));
                order::lemma_text_less_transitive(keys[i], keys.last(), a);
            }
        }
        assert forall|k: Seq<char>| #[trigger] all.contains(k) == dom.insert(a).contains(k) by {
            assert(all[all.len() - 1] == a);
            if keys.contains(k) {
                let i = choose|i: int| 0 <= i < keys.len() && keys[i] == k;
                assert(all[i] == k);
            }
            if all.contains(k) && k != a {
                let i = choose|i: int| 0 <= i < all.len() && all[i] == k;
                assert(keys[i] == k);
            }
        }
    } else {
        let front = keys.drop_last();
        let last = keys.last();
        assert(keys.contains(last));
        order::lemma_text_less_total(a, last);
        lemma_lists_front(keys, dom);
        lemma_with_name(front, a, dom.remove(last));
        let rest = with_name(front, a);
        assert forall|k: Seq<char>| #[trigger] all.contains(k) == dom.insert(a).contains(k) by {
            assert(all[all.len() - 1] == last);
            assert(rest.contains(k) == dom.remove(last).insert(a).contains(k));
            if rest.contains(k) {
                let i = choose|i: int| 0 <= i < rest.len() && rest[i] == k;
                assert(all[i] == k);
            }
            if all.contains(k) && k != last {
                let i = choose|i: int| 0 <= i < all.len() && all[i] == k;
                assert(rest[i] == k);
            }
        }
        assert forall|i: int, j: int| 0 <= i < j < all.len() implies order::text_less(
            #[trigger] all[i],
            #[trigger] all[j],
        ) by {
            assert(all[i] == rest[i]);
            if j < rest.len() {
                assert(all[j] == rest[j]);
            } else {
                assert(rest.contains(rest[i]));
                if rest[i] != a {
                    assert(front.contains(rest[i]));
                    let p = choose|p: int| 0 <= p < front.len() && front[p] == rest[i];
                    assert(keys[p] == rest[i]);
                    assert(order::text_less(keys[p], keys[keys.len() - 1]));
                }
            }
        }
    }
}

/// Finitely many names can be listed.
pub proof fn lemma_listing_exists(dom: Set<Seq<char>>)
    requires
        dom.finite(),
    ensures
        lists(listing(dom), dom),
    decreases dom.len(),
{
    if dom.len() == 0 {
        let keys = Seq::<Seq<char>>::empty();
        assert(dom =~= Set::empty());
        assert(lists(keys, dom));
    } else {
        let a = dom.choose();
        lemma_listing_exists(dom.remove(a));
        lemma_with_name(listing(dom.remove(a)), a, dom.remove(a));
        assert(dom.remove(a).insert(a) =~= dom);
        assert(lists(with_name(listing(dom.remove(a)), a), dom));
    }
}

spec fn pair_keys<V>(e: Seq<NamePair<V>>) -> Seq<Seq<char>> {
    Seq::new(e.len(), |i: int| e[i].key@)
}

spec fn place<V>(e: Seq<NamePair<V>>, k: Seq<char>) -> int {
    choose|i: int| 0 <= i < e.len() && #[trigger] e[i].key@ == k
}

spec fn pair_map<V>(e: Seq<NamePair<V>>) -> Map<Seq<char>, V> {
    Map::new(
        |k: Seq<char>| exists|i: int| 0 <= i < e.len() && #[trigger] e[i].key@ == k,
        |k: Seq<char>| e[place(e, k)].value,
    )
}

impl<V> View for NameMap<V> {
    type V = Map<Seq<char>, V>;

    closed spec fn view(&self) -> Map<Seq<char>, V> {
        pair_map(self.entries@)
    }
}

proof fn lemma_distinct<V>(e: Seq<NamePair<V>>, i: int, j: int)
    requires
        ascending(pair_keys(e)),
        0 <= i < e.len(),
        0 <= j < e.len(),
        e[i].key@ == e[j].key@,
    ensures
        i == j,
{
    let keys = pair_keys(e);
    assert(keys[i] == e[i].key@ && keys[j] == e[j].key@);
    order::lemma_text_less_irreflexive(keys[i]);
}

/// The value at a position is what the map holds for the key there.
proof fn lemma_at<V>(e: Seq<NamePair<V>>, i: int)
    requires
        ascending(pair_keys(e)),
        0 <= i < e.len(),
    ensures
        pair_map(e).dom().contains(e[i].key@),
        pair_map(e)[e[i].key@] == e[i].value,
{
    lemma_distinct(e, i, place(e, e[i].key@));
}

/// The keys are listed exactly as far as the map holds them.
proof fn lemma_key_list<V>(e: Seq<NamePair<V>>)
    requires
        ascending(pair_keys(e)),
    ensures
        forall|k: Seq<char>| pair_keys(e).contains(k) == #[trigger] pair_map(e).dom().contains(k),
{
    assert forall|k: Seq<char>|
        pair_keys(e).contains(k) == #[trigger] pair_map(e).dom().contains(k) by {
        if pair_keys(e).contains(k) {
            let i = choose|i: int| 0 <= i < e.len() && pair_keys(e)[i] == k;
            lemma_at(e, i);
        }
        if pair_map(e).dom().contains(k) {
            let i = choose|i: int| 0 <= i < e.len() && #[trigger] e[i].key@ == k;
            assert(pair_keys(e)[i] == k);
        }
    }
}

impl<V> NameMap<V> {
    #[verifier::type_invariant]
    spec fn sorted(self) -> bool {
        ascending(pair_keys(self.entries@))
    }

    pub fn new() -> (r: NameMap<V>)
        ensures
            r@ == Map::<Seq<char>, V>::empty(),
    {
        let r = NameMap { entries: Vec::new() };
        assert(r@ =~= Map::<Seq<char>, V>::empty());
        r
    }

    pub fn is_empty(&self) -> (r: bool)
        ensures
            r == (self@ == Map::<Seq<char>, V>::empty()),
    {
        proof {
            use_type_invariant(self);
            if self.entries@.len() > 0 {
                lemma_at(self.entries@, 0);
            } else {
                assert(self@ =~= Map::<Seq<char>, V>::empty());
            }
        }
        self.entries.len() == 0
    }

    /// The number of keys below `key`.
    fn place_of(&self, key: &str) -> (r: usize)
        ensures
            r <= self.entries@.len(),
            forall|i: int|
                0 <= i < r ==> order::text_less((#[trigger] self.entries@[i]).key@, key@),
            r < self.entries@.len() ==> !order::text_less(self.entries@[r as int].key@, key@),
    {
        let mut i: usize = 0;
        while i < self.entries.len() && is_before(self.entries[i].key.as_str(), key)
            invariant
                i <= self.entries@.len(),
                forall|j: int|
                    0 <= j < i ==> order::text_less((#[trigger] self.entries@[j]).key@, key@),
            decreases self.entries@.len() - i,
        {
            i += 1;
        }
        i
    }

    /// Where the key stands, if it is there.
    fn position(&self, key: &str) -> (r: Option<usize>)
        ensures
            r matches Some(i) ==> i < self.entries@.len() && self.entries@[i as int].key@ == key@,
            r is None ==> forall|i: int|
                0 <= i < self.entries@.len() ==> (#[trigger] self.entries@[i]).key@ != key@,
    {
        let mut i: usize = 0;
        while i < self.entries.len()
            invariant
                i <= self.entries@.len(),
                forall|j: int| 0 <= j < i ==> (#[trigger] self.entries@[j]).key@ != key@,
            decreases self.entries@.len() - i,
        {
            if same(self.entries[i].key.as_str(), key) {
                return Some(i);
            }
            i += 1;
        }
        None
    }

    pub fn get(&self, key: &str) -> (r: Option<&V>)
        ensures
            r is Some == self@.dom().contains(key@),
            r matches Some(v) ==> *v == self@[key@],
    {
        proof {
            use_type_invariant(self);
        }
        match self.position(key) {
            Some(i) => {
                proof {
                    lemma_at(self.entries@, i as int);
                }
                Some(&self.entries[i].value)
            },
            None => None,
        }
    }

    /// Sets the value of a key, whether the key was there or not.
    pub fn insert(&mut self, key: String, value: V)
        ensures
            final(self)@ == old(self)@.insert(key@, value),
    {
        proof {
            use_type_invariant(&*self);
        }
        let ghost e0 = self.entries@;
        let place = self.place_of(key.as_str());
        let found = place < self.entries.len() && same(self.entries[place].key.as_str(), key.as_str());
        let mut entries: Vec<NamePair<V>> = Vec::new();
        std::mem::swap(&mut entries, &mut self.entries);
        let ghost k = key@;
        let ghost v = value;
        if found {
            let pair = NamePair { key, value };
            entries.set(place, pair);
            proof {
                assert(pair_keys(entries@) =~= pair_keys(e0));
            }
        } else {
            let pair = NamePair { key, value };
            proof {
                let e1 = e0.insert(place as int, pair);
                let k0 = pair_keys(e0);
                let k1 = pair_keys(e1);
                assert(k1 =~= k0.insert(place as int, k));
                if place < e0.len() {
                    assert(k0[place as int] == e0[place as int].key@);
                    order::lemma_text_less_total(k, k0[place as int]);
                }
                assert forall|i: int, j: int| 0 <= i < j < k1.len() implies order::text_less(
                    #[trigger] k1[i],
                    #[trigger] k1[j],
                ) by {
                    if j < place {
                        assert(k1[i] == k0[i] && k1[j] == k0[j]);
                    } else if j == place {
                        assert(k1[i] == k0[i] && k0[i] == e0[i].key@);
                    } else if i < place {
                        assert(k1[i] == k0[i] && k1[j] == k0[j - 1]);
                    } else if i == place {
                        assert(k1[j] == k0[j - 1]);
                        if j - 1 > place {
                            assert(order::text_less(k0[place as int], k0[j - 1]));
                            order::lemma_text_less_transitive(k, k0[place as int], k0[j - 1]);
                        }
                    } else {
                        assert(k1[i] == k0[i - 1] && k1[j] == k0[j - 1]);
                    }
                }
            }
            entries.insert(place, pair);
        }
        proof {
            let e1 = entries@;
            let m1 = pair_map(e1);
            let m0 = pair_map(e0).insert(k, v);
            assert(e1[place as int].key@ == k && e1[place as int].value == v);
            assert forall|x: Seq<char>| m1.dom().contains(x) == m0.dom().contains(x) by {
                if m1.dom().contains(x) {
                    let i = choose|i: int| 0 <= i < e1.len() && #[trigger] e1[i].key@ == x;
                    if i != place {
                        let j = if found || i < place {
                            i
                        } else {
                            i - 1
                        };
                        assert(e0[j].key@ == x);
                    }
                }
                if m0.dom().contains(x) && x != k {
                    let i = choose|i: int| 0 <= i < e0.len() && #[trigger] e0[i].key@ == x;
                    let j = if found || i < place {
                        i
                    } else {
                        i + 1
                    };
                    assert(e1[j].key@ == x);
                }
                if x == k {
                    assert(e1[place as int].key@ == x);
                }
            }
            assert forall|x: Seq<char>| m1.dom().contains(x) implies m1[x] == m0[x] by {
                let i = choose|i: int| 0 <= i < e1.len() && #[trigger] e1[i].key@ == x;
                lemma_at(e1, i);
                if x == k {
                    lemma_distinct(e1, i, place as int);
                } else {
                    let j = if found || i < place {
                        i
                    } else {
                        i - 1
                    };
                    assert(e0[j].key@ == x && e0[j].value == e1[i].value);
                    lemma_at(e0, j);
                }
            }
            assert(m1 =~= m0);
        }
        self.entries = entries;
    }

    /// Takes a key and its value out.
    pub fn remove(&mut self, key: &str) -> (r: Option<V>)
        ensures
            final(self)@ == old(self)@.remove(key@),
            r is Some == old(self)@.dom().contains(key@),
            r matches Some(v) ==> v == old(self)@[key@],
    {
        proof {
            use_type_invariant(&*self);
        }
        let ghost e0 = self.entries@;
        match self.position(key) {
            Some(p) => {
                let mut entries: Vec<NamePair<V>> = Vec::new();
                std::mem::swap(&mut entries, &mut self.entries);
                proof {
                    lemma_at(e0, p as int);
                }
                let taken = entries.remove(p);
                proof {
                    let e1 = entries@;
                    assert(e1 =~= e0.remove(p as int));
                    let k0 = pair_keys(e0);
                    let k1 = pair_keys(e1);
                    assert(k1 =~= k0.remove(p as int));
                    assert forall|i: int, j: int| 0 <= i < j < k1.len() implies order::text_less(
                        #[trigger] k1[i],
                        #[trigger] k1[j],
                    ) by {
                        let a = if i < p {
                            i
                        } else {
                            i + 1
                        };
                        let b = if j < p {
                            j
                        } else {
                            j + 1
                        };
                        assert(k1[i] == k0[a] && k1[j] == k0[b]);
                    }
                    let m1 = pair_map(e1);
                    let m0 = pair_map(e0).remove(key@);
                    assert forall|x: Seq<char>| m1.dom().contains(x) == m0.dom().contains(x) by {
                        if m1.dom().contains(x) {
                            let i = choose|i: int| 0 <= i < e1.len() && #[trigger] e1[i].key@ == x;
                            let a = if i < p {
                                i
                            } else {
                                i + 1
                            };
                            assert(e0[a].key@ == x);
                            if x == key@ {
                                lemma_distinct(e0, a, p as int);
                            }
                        }
                        if m0.dom().contains(x) {
                            let i = choose|i: int| 0 <= i < e0.len() && #[trigger] e0[i].key@ == x;
                            let a = if i < p {
                                i
                            } else {
                                i - 1
                            };
                            assert(e1[a].key@ == x);
                        }
                    }
                    assert forall|x: Seq<char>| m1.dom().contains(x) implies m1[x] == m0[x] by {
                        let i = choose|i: int| 0 <= i < e1.len() && #[trigger] e1[i].key@ == x;
                        let a = if i < p {
                            i
                        } else {
                            i + 1
                        };
                        lemma_at(e1, i);
                        lemma_at(e0, a);
                    }
                    assert(m1 =~= m0);
                }
                self.entries = entries;
                Some(taken.value)
            },
            None => {
                assert(self@ =~= self@.remove(key@));
                None
            },
        }
    }

    pub fn len(&self) -> (r: usize)
        ensures
            r == self.key_list().len(),
            lists(self.key_list(), self@.dom()),
            self.key_list() == listing(self@.dom()),
    {
        proof {
            use_type_invariant(self);
            lemma_key_list(self.entries@);
            lemma_listing(pair_keys(self.entries@), self@.dom());
        }
        self.entries.len()
    }

    /// The keys in ascending order.
    pub closed spec fn key_list(&self) -> Seq<Seq<char>> {
        pair_keys(self.entries@)
    }

    /// The keys in ascending order.
    pub fn keys(&self) -> (r: Vec<String>)
        ensures
            split::views(r@) == self.key_list(),
            ascending(split::views(r@)),
            forall|k: Seq<char>| #[trigger]
                split::views(r@).contains(k) == self@.dom().contains(k),
    {
        let mut out: Vec<String> = Vec::new();
        let mut i: usize = 0;
        while i < self.entries.len()
            invariant
                i <= self.entries@.len(),
                out@.len() == i,
                forall|j: int| 0 <= j < i ==> (#[trigger] out@[j])@ == self.entries@[j].key@,
            decreases self.entries@.len() - i,
        {
            out.push(self.entries[i].key.clone());
            i += 1;
        }
        assert(split::views(out@) =~= self.key_list());
        proof {
            use_type_invariant(self);
            lemma_key_list(self.entries@);
        }
        out
    }

    /// The key at a position of the key list.
    pub fn key_at(&self, i: usize) -> (r: &String)
        requires
            i < self.key_list().len(),
        ensures
            r@ == self.key_list()[i as int],
            self@.dom().contains(r@),
    {
        proof {
            use_type_invariant(self);
            lemma_at(self.entries@, i as int);
        }
        &self.entries[i].key
    }

    /// The value of the key at a position of the key list.
    pub fn value_at(&self, i: usize) -> (r: &V)
        requires
            i < self.key_list().len(),
        ensures
            *r == self@[self.key_list()[i as int]],
    {
        proof {
            use_type_invariant(self);
            lemma_at(self.entries@, i as int);
        }
        &self.entries[i].value
    }
}

} // verus!
