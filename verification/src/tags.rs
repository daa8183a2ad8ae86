//! Ordered string-to-string tag maps.
//!
//! Tags identify a metric series (static tags), annotate a metric value
//! (dynamic tags) or carry an event payload. Entries are kept sorted by
//! key so that iteration order, and everything derived from it, depends
//! only on the set of key/value pairs and not on the order of insertion.
use vstd::prelude::*;
use crate::text::{seq_lt, compare_strs, str_eq, Order, lemma_seq_lt_irreflexive, lemma_seq_lt_total,
    lemma_seq_lt_transitive};

verus! {

/// A sequence of key/value pairs whose keys are strictly increasing.
pub open spec fn sorted_entries(s: Seq<(Seq<char>, Seq<char>)>) -> bool {
    forall|i: int, j: int| 0 <= i < j < s.len() ==> seq_lt(#[trigger] s[i].0, #[trigger] s[j].0)
}

/// Whether some pair of `s` has key `k`.
pub open spec fn has_key(s: Seq<(Seq<char>, Seq<char>)>, k: Seq<char>) -> bool {
    exists|i: int| 0 <= i < s.len() && #[trigger] s[i].0 == k
}

/// The position of a pair with key `k` in `s`.
pub open spec fn key_index(s: Seq<(Seq<char>, Seq<char>)>, k: Seq<char>) -> int {
    choose|i: int| 0 <= i < s.len() && #[trigger] s[i].0 == k
}

/// The map that a sequence of pairs with distinct keys denotes.
pub open spec fn entries_to_map(s: Seq<(Seq<char>, Seq<char>)>) -> Map<Seq<char>, Seq<char>> {
    Map::new(|k: Seq<char>| has_key(s, k), |k: Seq<char>| s[key_index(s, k)].1)
}

/// In sorted entries, a key occurs at one position only.
pub proof fn lemma_sorted_unique(s: Seq<(Seq<char>, Seq<char>)>, i: int, j: int)
    requires
        sorted_entries(s),
        0 <= i < s.len(),
        0 <= j < s.len(),
        s[i].0 == s[j].0,
    ensures
        i == j,
{
    if i < j {
        assert(seq_lt(s[i].0, s[j].0));
        lemma_seq_lt_irreflexive(s[i].0);
    } else if j < i {
        assert(seq_lt(s[j].0, s[i].0));
        lemma_seq_lt_irreflexive(s[i].0);
    }
}

/// The value the map of sorted entries gives a key stored at position `i`.
pub proof fn lemma_map_at(s: Seq<(Seq<char>, Seq<char>)>, i: int)
    requires
        sorted_entries(s),
        0 <= i < s.len(),
    ensures
        entries_to_map(s).contains_key(s[i].0),
        entries_to_map(s)[s[i].0] == s[i].1,
{
    assert(has_key(s, s[i].0));
    let j = key_index(s, s[i].0);
    lemma_sorted_unique(s, i, j);
}

/// Two sorted sequences of pairs that denote the same map are equal.
pub proof fn lemma_sorted_entries_determined(
    s: Seq<(Seq<char>, Seq<char>)>,
    t: Seq<(Seq<char>, Seq<char>)>,
)
    requires
        sorted_entries(s),
        sorted_entries(t),
        entries_to_map(s) == entries_to_map(t),
    ensures
        s == t,
    decreases s.len() + t.len(),
{
    let ms = entries_to_map(s);
    if s.len() == 0 || t.len() == 0 {
        if s.len() > 0 {
            lemma_map_at(s, 0);
            assert(!has_key(t, s[0].0));
        }
        if t.len() > 0 {
            lemma_map_at(t, 0);
            assert(!has_key(s, t[0].0));
        }
        assert(s =~= t);
    } else {
        lemma_map_at(s, 0);
        lemma_map_at(t, 0);
        let a = s[0].0;
        let b = t[0].0;
        // the least keys agree
        assert(has_key(t, a));
        let ja = key_index(t, a);
        assert(has_key(s, b));
        let jb = key_index(s, b);
        if a != b {
            lemma_seq_lt_total(a, b);
            if seq_lt(a, b) {
                // a is a key of t, so b = t[0] precedes or equals it
                if ja > 0 {
                    assert(seq_lt(t[0].0, t[ja].0));
                    lemma_seq_lt_total(a, b);
                }
            } else {
                if jb > 0 {
                    assert(seq_lt(s[0].0, s[jb].0));
                    lemma_seq_lt_total(a, b);
                }
            }
        }
        assert(a == b);
        assert(s[0] == t[0]);
        let s1 = s.drop_first();
        let t1 = t.drop_first();
        assert(sorted_entries(s1)) by {
            assert forall|i: int, j: int| 0 <= i < j < s1.len() implies seq_lt(
                #[trigger] s1[i].0,
                #[trigger] s1[j].0,
            ) by {
                assert(s1[i] == s[i + 1] && s1[j] == s[j + 1]);
            }
        }
        assert(sorted_entries(t1)) by {
            assert forall|i: int, j: int| 0 <= i < j < t1.len() implies seq_lt(
                #[trigger] t1[i].0,
                #[trigger] t1[j].0,
            ) by {
                assert(t1[i] == t[i + 1] && t1[j] == t[j + 1]);
            }
        }
        assert(entries_to_map(s1) =~= entries_to_map(t1)) by {
            assert forall|k: Seq<char>| has_key(s1, k) == has_key(t1, k) by {
                if has_key(s1, k) {
                    let i = choose|i: int| 0 <= i < s1.len() && #[trigger] s1[i].0 == k;
                    assert(s[i + 1].0 == k);
                    lemma_map_at(s, i + 1);
                    assert(has_key(t, k));
                    let j = key_index(t, k);
                    if j == 0 {
                        lemma_sorted_unique(s, 0, i + 1);
                    }
                    assert(t1[j - 1].0 == k);
                }
                if has_key(t1, k) {
                    let i = choose|i: int| 0 <= i < t1.len() && #[trigger] t1[i].0 == k;
                    assert(t[i + 1].0 == k);
                    lemma_map_at(t, i + 1);
                    assert(has_key(s, k));
                    let j = key_index(s, k);
                    if j == 0 {
                        lemma_sorted_unique(t, 0, i + 1);
                    }
                    assert(s1[j - 1].0 == k);
                }
            }
            assert forall|k: Seq<char>| #[trigger] has_key(s1, k) implies entries_to_map(s1)[k]
                == entries_to_map(t1)[k] by {
                let i = key_index(s1, k);
                let j = key_index(t1, k);
                lemma_map_at(s, i + 1);
                lemma_map_at(t, j + 1);
                assert(s[i + 1] == s1[i]);
                assert(t[j + 1] == t1[j]);
            }
        }
        lemma_sorted_entries_determined(s1, t1);
        assert(s =~= seq![s[0]] + s1);
        assert(t =~= seq![t[0]] + t1);
    }
}

/// A sorted sequence denotes `m` when each of its pairs is in `m` and
/// each key of `m` is one of its keys.
pub proof fn lemma_map_eq(t: Seq<(Seq<char>, Seq<char>)>, m: Map<Seq<char>, Seq<char>>)
    requires
        sorted_entries(t),
        forall|i: int|
            0 <= i < t.len() ==> m.contains_key(#[trigger] t[i].0) && m[t[i].0] == t[i].1,
        forall|k: Seq<char>| #[trigger] m.contains_key(k) ==> has_key(t, k),
    ensures
        entries_to_map(t) == m,
{
    assert forall|k: Seq<char>| #[trigger] entries_to_map(t).contains_key(k) implies m.contains_key(
        k,
    ) && entries_to_map(t)[k] == m[k] by {
        let i = key_index(t, k);
        assert(t[i].0 == k);
    }
    assert(entries_to_map(t) =~= m);
}

/// Any prefix of sorted entries is sorted.
pub proof fn lemma_take_sorted(s: Seq<(Seq<char>, Seq<char>)>, n: int)
    requires
        sorted_entries(s),
        0 <= n <= s.len(),
    ensures
        sorted_entries(s.take(n)),
{
    assert forall|i: int, j: int| 0 <= i < j < s.take(n).len() implies seq_lt(
        #[trigger] s.take(n)[i].0,
        #[trigger] s.take(n)[j].0,
    ) by {
        assert(s.take(n)[i] == s[i] && s.take(n)[j] == s[j]);
    }
}

/// Extending a sorted prefix by the next pair adds that pair to the map.
pub proof fn lemma_take_next(s: Seq<(Seq<char>, Seq<char>)>, n: int)
    requires
        sorted_entries(s),
        0 <= n < s.len(),
    ensures
        entries_to_map(s.take(n + 1)) == entries_to_map(s.take(n)).insert(s[n].0, s[n].1),
        !entries_to_map(s.take(n)).contains_key(s[n].0),
{
    let u = s.take(n);
    let t = s.take(n + 1);
    lemma_take_sorted(s, n);
    lemma_take_sorted(s, n + 1);
    if has_key(u, s[n].0) {
        let j = key_index(u, s[n].0);
        assert(u[j] == s[j]);
        lemma_sorted_unique(s, j, n);
    }
    let m = entries_to_map(u).insert(s[n].0, s[n].1);
    assert forall|i: int| 0 <= i < t.len() implies m.contains_key(#[trigger] t[i].0) && m[t[i].0]
        == t[i].1 by {
        if i < n {
            assert(t[i] == u[i]);
            lemma_map_at(u, i);
            if t[i].0 == s[n].0 {
                lemma_sorted_unique(s, i, n);
            }
        }
    }
    assert forall|k: Seq<char>| #[trigger] m.contains_key(k) implies has_key(t, k) by {
        if k == s[n].0 {
            assert(t[n].0 == k);
        } else {
            let j = key_index(u, k);
            assert(t[j] == u[j]);
        }
    }
    lemma_map_eq(t, m);
}

/// Inserting a new key at its ordered position keeps the entries sorted
/// and adds the pair to the map.
pub proof fn lemma_insert_keeps_sorted(
    s: Seq<(Seq<char>, Seq<char>)>,
    i: int,
    k: Seq<char>,
    v: Seq<char>,
)
    requires
        sorted_entries(s),
        0 <= i <= s.len(),
        forall|j: int| 0 <= j < i ==> seq_lt(#[trigger] s[j].0, k),
        i < s.len() ==> seq_lt(k, s[i].0),
    ensures
        sorted_entries(s.insert(i, (k, v))),
        entries_to_map(s.insert(i, (k, v))) == entries_to_map(s).insert(k, v),
{
    let t = s.insert(i, (k, v));
    assert forall|a: int, b: int| 0 <= a < b < t.len() implies seq_lt(
        #[trigger] t[a].0,
        #[trigger] t[b].0,
    ) by {
        if b < i {
            assert(t[a] == s[a] && t[b] == s[b]);
        } else if b == i {
            assert(t[a] == s[a]);
        } else if a < i {
            assert(t[a] == s[a] && t[b] == s[b - 1]);
            lemma_seq_lt_transitive(s[a].0, k, s[i].0);
            if b - 1 > i {
                lemma_seq_lt_transitive(s[a].0, s[i].0, s[b - 1].0);
            }
        } else if a == i {
            assert(t[b] == s[b - 1]);
            if b - 1 > i {
                lemma_seq_lt_transitive(k, s[i].0, s[b - 1].0);
            }
        } else {
            assert(t[a] == s[a - 1] && t[b] == s[b - 1]);
        }
    }
    let m = entries_to_map(s).insert(k, v);
    assert forall|a: int| 0 <= a < t.len() implies m.contains_key(#[trigger] t[a].0) && m[t[a].0]
        == t[a].1 by {
        if a < i {
            assert(t[a] == s[a]);
            lemma_map_at(s, a);
            if s[a].0 == k {
                lemma_seq_lt_irreflexive(k);
            }
        } else if a > i {
            assert(t[a] == s[a - 1]);
            lemma_map_at(s, a - 1);
            if s[a - 1].0 == k {
                if a - 1 > i {
                    lemma_seq_lt_transitive(k, s[i].0, k);
                }
                lemma_seq_lt_irreflexive(k);
            }
        }
    }
    assert forall|x: Seq<char>| #[trigger] m.contains_key(x) implies has_key(t, x) by {
        if x == k {
            assert(t[i].0 == x);
        } else {
            let j = key_index(s, x);
            if j < i {
                assert(t[j] == s[j]);
            } else {
                assert(t[j + 1] == s[j]);
            }
        }
    }
    lemma_map_eq(t, m);
}

/// Replacing the value at position `i` keeps the entries sorted and
/// updates the map at that key.
pub proof fn lemma_replace_keeps_sorted(s: Seq<(Seq<char>, Seq<char>)>, i: int, v: Seq<char>)
    requires
        sorted_entries(s),
        0 <= i < s.len(),
    ensures
        sorted_entries(s.update(i, (s[i].0, v))),
        entries_to_map(s.update(i, (s[i].0, v))) == entries_to_map(s).insert(s[i].0, v),
{
    let t = s.update(i, (s[i].0, v));
    assert forall|a: int, b: int| 0 <= a < b < t.len() implies seq_lt(
        #[trigger] t[a].0,
        #[trigger] t[b].0,
    ) by {
        assert(t[a].0 == s[a].0 && t[b].0 == s[b].0);
    }
    let m = entries_to_map(s).insert(s[i].0, v);
    assert forall|a: int| 0 <= a < t.len() implies m.contains_key(#[trigger] t[a].0) && m[t[a].0]
        == t[a].1 by {
        if a != i {
            lemma_map_at(s, a);
            if s[a].0 == s[i].0 {
                lemma_sorted_unique(s, a, i);
            }
        }
    }
    assert forall|x: Seq<char>| #[trigger] m.contains_key(x) implies has_key(t, x) by {
        if x == s[i].0 {
            assert(t[i].0 == x);
        } else {
            let j = key_index(s, x);
            assert(t[j] == s[j]);
        }
    }
    lemma_map_eq(t, m);
}

/// Reading a tag after setting it gives the value set, and leaves every
/// other tag as it was (as `TagMap::insert` and `TagMap::get` state over
/// the map's view).
pub proof fn lemma_tag_read_back(
    m: Map<Seq<char>, Seq<char>>,
    k: Seq<char>,
    v: Seq<char>,
    other: Seq<char>,
)
    ensures
        m.insert(k, v).contains_key(k),
        m.insert(k, v)[k] == v,
        other != k ==> m.insert(k, v).contains_key(other) == m.contains_key(other),
        other != k && m.contains_key(other) ==> m.insert(k, v)[other] == m[other],
{
}

/// An ordered map from tag names to tag values.
#[derive(Debug)]
pub struct TagMap {
    entries: Vec<(String, String)>,
}

impl View for TagMap {
    type V = Map<Seq<char>, Seq<char>>;

    open spec fn view(&self) -> Map<Seq<char>, Seq<char>> {
        entries_to_map(self.entries())
    }
}

impl TagMap {
    /// The pairs of the map in increasing key order.
    pub closed spec fn entries(self) -> Seq<(Seq<char>, Seq<char>)> {
        self.entries@.map_values(|e: (String, String)| (e.0@, e.1@))
    }

    #[verifier::type_invariant]
    spec fn keys_increase(self) -> bool {
        sorted_entries(self.entries())
    }

    /// An empty map.
    pub fn new() -> (m: TagMap)
        ensures
            m.entries() == Seq::<(Seq<char>, Seq<char>)>::empty(),
            m@ == Map::<Seq<char>, Seq<char>>::empty(),
            sorted_entries(m.entries()),
    {
        let m = TagMap { entries: Vec::new() };
        proof {
            assert(m.entries() =~= Seq::<(Seq<char>, Seq<char>)>::empty());
            assert(m@ =~= Map::<Seq<char>, Seq<char>>::empty());
        }
        m
    }

    /// The number of pairs.
    pub fn len(&self) -> (n: usize)
        ensures
            n == self.entries().len(),
    {
        self.entries.len()
    }

    /// Whether the map has no pairs.
    pub fn is_empty(&self) -> (b: bool)
        ensures
            b == (self.entries().len() == 0),
            b == (self@ == Map::<Seq<char>, Seq<char>>::empty()),
    {
        proof {
            if self.entries().len() > 0 {
                use_type_invariant(self);
                lemma_map_at(self.entries(), 0);
                assert(self@.contains_key(self.entries()[0].0));
            } else {
                assert(self@ =~= Map::<Seq<char>, Seq<char>>::empty());
            }
        }
        self.entries.len() == 0
    }

    /// The key of the pair at position `i`.
    pub fn key_at(&self, i: usize) -> (k: &String)
        requires
            i < self.entries().len(),
        ensures
            k@ == self.entries()[i as int].0,
    {
        &self.entries[i].0
    }

    /// The value of the pair at position `i`.
    pub fn value_at(&self, i: usize) -> (v: &String)
        requires
            i < self.entries().len(),
        ensures
            v@ == self.entries()[i as int].1,
    {
        &self.entries[i].1
    }

    /// Position of the first key not below `key`, and whether it equals `key`.
    fn search(&self, key: &str) -> (r: (usize, bool))
        ensures
            r.0 <= self.entries().len(),
            forall|j: int| 0 <= j < r.0 ==> seq_lt(#[trigger] self.entries()[j].0, key@),
            r.1 ==> r.0 < self.entries().len() && self.entries()[r.0 as int].0 == key@,
            !r.1 ==> (r.0 < self.entries().len() ==> seq_lt(
                key@,
                self.entries()[r.0 as int].0,
            )),
    {
        let n = self.entries.len();
        let mut i: usize = 0;
        while i < n
            invariant
                n == self.entries().len(),
                i <= n,
                forall|j: int| 0 <= j < i ==> seq_lt(#[trigger] self.entries()[j].0, key@),
            decreases n - i,
        {
            match compare_strs(self.entries[i].0.as_str(), key) {
                Order::Less => {},
                Order::Equal => {
                    return (i, true);
                },
                Order::Greater => {
                    return (i, false);
                },
            }
            i = i + 1;
        }
        (i, false)
    }

    /// The value stored under `key`, if any.
    pub fn get(&self, key: &str) -> (r: Option<&String>)
        ensures
            r is Some <==> self@.contains_key(key@),
            r matches Some(v) ==> v@ == self@[key@],
    {
        proof {
            use_type_invariant(self);
        }
        let (i, found) = self.search(key);
        if found {
            proof {
                lemma_map_at(self.entries(), i as int);
            }
            Some(&self.entries[i].1)
        } else {
            proof {
                if has_key(self.entries(), key@) {
                    let j = key_index(self.entries(), key@);
                    if j < i {
                        assert(seq_lt(self.entries()[j].0, key@));
                        lemma_seq_lt_irreflexive(key@);
                    } else if j == i {
                        lemma_seq_lt_irreflexive(key@);
                    } else {
                        assert(seq_lt(self.entries()[i as int].0, self.entries()[j].0));
                        lemma_seq_lt_total(key@, self.entries()[i as int].0);
                        lemma_seq_lt_transitive(key@, self.entries()[i as int].0, key@);
                        lemma_seq_lt_irreflexive(key@);
                    }
                }
            }
            None
        }
    }

    /// Whether `key` is present.
    pub fn contains_key(&self, key: &str) -> (b: bool)
        ensures
            b == self@.contains_key(key@),
    {
        self.get(key).is_some()
    }

    /// Set `key` to `value`, returning the value it replaced.
    pub fn insert(&mut self, key: String, value: String) -> (r: Option<String>)
        ensures
            final(self)@ == old(self)@.insert(key@, value@),
            sorted_entries(final(self).entries()),
            r is Some <==> old(self)@.contains_key(key@),
            r matches Some(v) ==> v@ == old(self)@[key@],
    {
        proof {
            use_type_invariant(&*self);
        }
        let ghost s = self.entries();
        let (i, found) = self.search(key.as_str());
        if found {
            let prev = self.entries[i].1.clone();
            proof {
                lemma_map_at(s, i as int);
            }
            let ghost t = s.update(i as int, (key@, value@));
            let mut v: Vec<(String, String)> = Vec::new();
            std::mem::swap(&mut v, &mut self.entries);
            v.set(i, (key, value));
            proof {
                assert(v@.map_values(|e: (String, String)| (e.0@, e.1@)) =~= t);
                lemma_replace_keeps_sorted(s, i as int, value@);
            }
            self.entries = v;
            Some(prev)
        } else {
            proof {
                if has_key(s, key@) {
                    let j = key_index(s, key@);
                    if j < i {
                        lemma_seq_lt_irreflexive(key@);
                    } else {
                        if j > i {
                            assert(seq_lt(s[i as int].0, s[j].0));
                            lemma_seq_lt_transitive(key@, s[i as int].0, key@);
                        }
                        lemma_seq_lt_irreflexive(key@);
                    }
                }
            }
            let ghost t = s.insert(i as int, (key@, value@));
            let mut v: Vec<(String, String)> = Vec::new();
            std::mem::swap(&mut v, &mut self.entries);
            v.insert(i, (key, value));
            proof {
                assert(v@.map_values(|e: (String, String)| (e.0@, e.1@)) =~= t);
                lemma_insert_keeps_sorted(s, i as int, key@, value@);
            }
            self.entries = v;
            None
        }
    }

    /// Insert every pair of `other`, later values replacing earlier ones.
    pub fn extend(&mut self, other: TagMap)
        ensures
            final(self)@ == old(self)@.union_prefer_right(other@),
            sorted_entries(final(self).entries()),
    {
        proof {
            use_type_invariant(&other);
        }
        let ghost start = self@;
        let ghost oe = other.entries();
        let TagMap { entries } = other;
        assert(entries@.map_values(|e: (String, String)| (e.0@, e.1@)) == oe);
        proof {
            assert(oe.take(0) =~= Seq::<(Seq<char>, Seq<char>)>::empty());
            assert(entries_to_map(oe.take(0)) =~= Map::<Seq<char>, Seq<char>>::empty());
            assert(start.union_prefer_right(entries_to_map(oe.take(0))) =~= start);
        }
        for p in it: entries
            invariant
                it.seq() == entries@,
                oe == entries@.map_values(|e: (String, String)| (e.0@, e.1@)),
                sorted_entries(oe),
                self@ == start.union_prefer_right(entries_to_map(oe.take(it.index() as int))),
        {
            let ghost n = it.index() as int;
            proof {
                assert(oe[n] == (p.0@, p.1@));
                lemma_take_next(oe, n);
            }
            let (k, v) = p;
            self.insert(k, v);
            proof {
                assert(self@ =~= start.union_prefer_right(entries_to_map(oe.take(n + 1))));
            }
        }
        proof {
            assert(oe.take(oe.len() as int) =~= oe);
            use_type_invariant(&*self);
        }
    }

    /// A copy of the map with the same pairs.
    pub fn copied(&self) -> (m: TagMap)
        ensures
            m.entries() == self.entries(),
            m@ == self@,
            sorted_entries(m.entries()),
    {
        proof {
            use_type_invariant(self);
        }
        let mut v: Vec<(String, String)> = Vec::new();
        let n = self.entries.len();
        for i in 0..n
            invariant
                n == self.entries().len(),
                v@.len() == i,
                v@.map_values(|e: (String, String)| (e.0@, e.1@)) == self.entries().take(i as int),
        {
            let k = self.entries[i].0.clone();
            let x = self.entries[i].1.clone();
            let ghost old_v = v@;
            v.push((k, x));
            proof {
                let mv = v@.map_values(|e: (String, String)| (e.0@, e.1@));
                let mo = old_v.map_values(|e: (String, String)| (e.0@, e.1@));
                assert forall|j: int| 0 <= j < i + 1 implies mv[j] == self.entries().take(
                    i + 1,
                )[j] by {
                    if j < i {
                        assert(v@[j] == old_v[j]);
                        assert(mv[j] == (v@[j].0@, v@[j].1@));
                        assert(mo[j] == (old_v[j].0@, old_v[j].1@));
                        assert(mv[j] == mo[j]);
                    } else {
                        assert(self.entries()[j] == (self.entries@[j].0@, self.entries@[j].1@));
                    }
                }
                assert(mv =~= self.entries().take(i + 1));
            }
        }
        proof {
            assert(self.entries().take(n as int) =~= self.entries());
        }
        TagMap { entries: v }
    }

    /// A copy of the map without the pair under `key`.
    pub fn without(&self, key: &str) -> (m: TagMap)
        ensures
            m@ == self@.remove(key@),
            sorted_entries(m.entries()),
    {
        proof {
            use_type_invariant(self);
        }
        let ghost se = self.entries();
        let mut m = TagMap::new();
        let n = self.entries.len();
        proof {
            assert(se.take(0) =~= Seq::<(Seq<char>, Seq<char>)>::empty());
            assert(entries_to_map(se.take(0)) =~= Map::<Seq<char>, Seq<char>>::empty());
            assert(m@ =~= entries_to_map(se.take(0)).remove(key@));
        }
        for i in 0..n
            invariant
                n == se.len(),
                se == self.entries(),
                sorted_entries(se),
                m@ == entries_to_map(se.take(i as int)).remove(key@),
        {
            proof {
                lemma_take_next(se, i as int);
            }
            let k = self.key_at(i);
            let v = self.value_at(i);
            if !str_eq(k.as_str(), key) {
                m.insert(k.clone(), v.clone());
            }
            proof {
                assert(m@ =~= entries_to_map(se.take(i + 1)).remove(key@));
            }
        }
        proof {
            assert(se.take(n as int) =~= se);
            use_type_invariant(&m);
        }
        m
    }
}

} // verus!
