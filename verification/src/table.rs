use vstd::prelude::*;

verus! {

/// A key of a [`Table`]: its mathematical value, and an executable test of
/// whether two keys have the same value.
pub trait TableKey: Sized {
    type KeyView;

    spec fn key_view(&self) -> Self::KeyView;

    fn same_key(&self, other: &Self) -> (same: bool)
        ensures
            same == (self.key_view() == other.key_view()),
    ;
}

impl TableKey for String {
    type KeyView = Seq<char>;

    open spec fn key_view(&self) -> Seq<char> {
        self@
    }

    fn same_key(&self, other: &Self) -> (same: bool) {
        *self == *other
    }
}

/// The key of per-market data: an exchange and a symbol traded on it.
#[derive(Debug, Clone, PartialEq, Eq, Hash)]
pub struct MarketKey {
    pub exchange: String,
    pub symbol: String,
}

impl TableKey for MarketKey {
    type KeyView = (Seq<char>, Seq<char>);

    open spec fn key_view(&self) -> (Seq<char>, Seq<char>) {
        (self.exchange@, self.symbol@)
    }

    fn same_key(&self, other: &Self) -> (same: bool) {
        self.exchange == other.exchange && self.symbol == other.symbol
    }
}

/// No two entries have the same key.
pub open spec fn keys_distinct<K: TableKey, V>(s: Seq<(K, V)>) -> bool {
    forall|i: int, j: int|
        0 <= i < s.len() && 0 <= j < s.len() && i != j ==> #[trigger] s[i].0.key_view()
            != #[trigger] s[j].0.key_view()
}

/// The map that a sequence of entries stands for; a later entry wins.
pub open spec fn entries_map<K: TableKey, V>(s: Seq<(K, V)>) -> Map<K::KeyView, V>
    decreases s.len(),
{
    if s.len() == 0 {
        Map::empty()
    } else {
        entries_map(s.drop_last()).insert(s.last().0.key_view(), s.last().1)
    }
}

/// A key is in the map exactly when some entry has it.
pub proof fn lemma_entries_map_domain<K: TableKey, V>(s: Seq<(K, V)>, k: K::KeyView)
    ensures
        entries_map(s).contains_key(k) <==> exists|i: int|
            0 <= i < s.len() && #[trigger] s[i].0.key_view() == k,
    decreases s.len(),
{
    if s.len() > 0 {
        lemma_entries_map_domain(s.drop_last(), k);
        if entries_map(s).contains_key(k) && s.last().0.key_view() != k {
            let i = choose|i: int| 0 <= i < s.drop_last().len() && #[trigger] s.drop_last()[i].0.key_view() == k;
            assert(s[i].0.key_view() == k);
        }
        if exists|i: int| 0 <= i < s.len() && #[trigger] s[i].0.key_view() == k {
            let i = choose|i: int| 0 <= i < s.len() && #[trigger] s[i].0.key_view() == k;
            if i < s.len() - 1 {
                assert(s.drop_last()[i].0.key_view() == k);
            }
        }
    }
}

/// With distinct keys, each entry's value is what the map holds for its key.
pub proof fn lemma_entries_map_index<K: TableKey, V>(s: Seq<(K, V)>, i: int)
    requires
        keys_distinct(s),
        0 <= i < s.len(),
    ensures
        entries_map(s).contains_key(s[i].0.key_view()),
        entries_map(s)[s[i].0.key_view()] == s[i].1,
    decreases s.len(),
{
    if i < s.len() - 1 {
        let t = s.drop_last();
        assert(t[i] == s[i]);
        assert(keys_distinct(t)) by {
            assert forall|a: int, b: int|
                0 <= a < t.len() && 0 <= b < t.len() && a != b implies #[trigger] t[a].0.key_view()
                != #[trigger] t[b].0.key_view() by {
                assert(t[a] == s[a] && t[b] == s[b]);
            }
        }
        lemma_entries_map_index(t, i);
        assert(s[i].0.key_view() != s[s.len() - 1].0.key_view());
    }
}

/// Replacing the value of an entry replaces the value of its key in the map.
pub proof fn lemma_entries_map_update<K: TableKey, V>(s: Seq<(K, V)>, i: int, e: (K, V))
    requires
        keys_distinct(s),
        0 <= i < s.len(),
        e.0.key_view() == s[i].0.key_view(),
    ensures
        keys_distinct(s.update(i, e)),
        entries_map(s.update(i, e)) == entries_map(s).insert(e.0.key_view(), e.1),
    decreases s.len(),
{
    let u = s.update(i, e);
    assert(keys_distinct(u)) by {
        assert forall|a: int, b: int|
            0 <= a < u.len() && 0 <= b < u.len() && a != b implies #[trigger] u[a].0.key_view()
            != #[trigger] u[b].0.key_view() by {
            assert(u[a].0.key_view() == s[a].0.key_view());
            assert(u[b].0.key_view() == s[b].0.key_view());
        }
    }
    if i == s.len() - 1 {
        assert(u.drop_last() == s.drop_last());
    } else {
        let t = s.drop_last();
        assert(keys_distinct(t)) by {
            assert forall|a: int, b: int|
                0 <= a < t.len() && 0 <= b < t.len() && a != b implies #[trigger] t[a].0.key_view()
                != #[trigger] t[b].0.key_view() by {
                assert(t[a] == s[a] && t[b] == s[b]);
            }
        }
        assert(t[i] == s[i]);
        lemma_entries_map_update(t, i, e);
        assert(u.drop_last() == t.update(i, e));
        assert(u.last() == s.last());
        assert(s.last().0.key_view() != e.0.key_view());
        assert(entries_map(u) =~= entries_map(s).insert(e.0.key_view(), e.1));
    }
}

/// A map held as a list of entries with distinct keys. The components key
/// their maps by exchange and symbol names; vstd specifies std's `HashMap`
/// only for keys that obey its key model (integers, `bool` and boxes of
/// them), which strings do not, so those maps are held here and their keys
/// compared by their views.
pub struct Table<K, V> {
    entries: Vec<(K, V)>,
}

impl<K: TableKey, V> View for Table<K, V> {
    type V = Map<K::KeyView, V>;

    closed spec fn view(&self) -> Map<K::KeyView, V> {
        entries_map(self.entries@)
    }
}

impl<K: TableKey, V> Table<K, V> {
    /// The entries, in the order their keys first arrived.
    pub closed spec fn spec_entries(&self) -> Seq<(K, V)> {
        self.entries@
    }

    /// No key occurs twice among the entries.
    pub closed spec fn wf(&self) -> bool {
        keys_distinct(self.entries@)
    }

    /// The entries are the map: each holds its key's value, and every key
    /// of the map has an entry.
    pub proof fn lemma_entries_are_view(&self)
        requires
            self.wf(),
        ensures
            keys_distinct(self.spec_entries()),
            self@ == entries_map(self.spec_entries()),
            forall|i: int|
                0 <= i < self.spec_entries().len() ==> self@.contains_key(
                    #[trigger] self.spec_entries()[i].0.key_view(),
                ) && self@[self.spec_entries()[i].0.key_view()] == self.spec_entries()[i].1,
            forall|k: K::KeyView|
                #[trigger] self@.contains_key(k) ==> exists|i: int|
                    0 <= i < self.spec_entries().len() && #[trigger] self.spec_entries()[i].0.key_view()
                        == k,
    {
        assert forall|i: int| 0 <= i < self.spec_entries().len() implies self@.contains_key(
            #[trigger] self.spec_entries()[i].0.key_view(),
        ) && self@[self.spec_entries()[i].0.key_view()] == self.spec_entries()[i].1 by {
            lemma_entries_map_index(self.entries@, i);
        }
        assert forall|k: K::KeyView| #[trigger] self@.contains_key(k) implies exists|i: int|
            0 <= i < self.spec_entries().len() && #[trigger] self.spec_entries()[i].0.key_view()
                == k by {
            lemma_entries_map_domain(self.entries@, k);
            let i = choose|i: int| 0 <= i < self.entries@.len() && #[trigger] self.entries@[i].0.key_view() == k;
            assert(self.spec_entries()[i].0.key_view() == k);
        }
    }

    pub fn new() -> (table: Self)
        ensures
            table.wf(),
            table@ == Map::<K::KeyView, V>::empty(),
            table.spec_entries().len() == 0,
    {
        Table { entries: Vec::new() }
    }

    pub fn len(&self) -> (n: usize)
        requires
            self.wf(),
        ensures
            n == self.spec_entries().len(),
            n == self@.len(),
    {
        proof {
            self.lemma_len();
        }
        self.entries.len()
    }

    /// The number of entries is the number of keys.
    proof fn lemma_len(&self)
        requires
            self.wf(),
        ensures
            self.entries@.len() == self@.len(),
            self@.dom().finite(),
        decreases self.entries@.len(),
    {
        lemma_len_of(self.entries@);
    }

    pub fn entries(&self) -> (entries: &Vec<(K, V)>)
        ensures
            entries@ == self.spec_entries(),
    {
        &self.entries
    }

    /// The position of the entry with the given key, if any.
    fn position(&self, key: &K) -> (found: Option<usize>)
        ensures
            match found {
                Some(i) => i < self.entries@.len() && self.entries@[i as int].0.key_view()
                    == key.key_view(),
                None => forall|i: int|
                    0 <= i < self.entries@.len() ==> #[trigger] self.entries@[i].0.key_view()
                        != key.key_view(),
            },
    {
        let mut i: usize = 0;
        while i < self.entries.len()
            invariant
                i <= self.entries@.len(),
                forall|j: int| 0 <= j < i ==> #[trigger] self.entries@[j].0.key_view() != key.key_view(),
            decreases self.entries@.len() - i,
        {
            if self.entries[i].0.same_key(key) {
                return Some(i);
            }
            i = i + 1;
        }
        None
    }

    pub fn contains_key(&self, key: &K) -> (found: bool)
        requires
            self.wf(),
        ensures
            found == self@.contains_key(key.key_view()),
    {
        proof {
            lemma_entries_map_domain(self.entries@, key.key_view());
        }
        match self.position(key) {
            Some(i) => {
                assert(self.entries@[i as int].0.key_view() == key.key_view());
                true
            },
            None => false,
        }
    }

    pub fn get(&self, key: &K) -> (value: Option<&V>)
        requires
            self.wf(),
        ensures
            match value {
                Some(v) => self@.contains_key(key.key_view()) && *v == self@[key.key_view()],
                None => !self@.contains_key(key.key_view()),
            },
    {
        proof {
            lemma_entries_map_domain(self.entries@, key.key_view());
        }
        match self.position(key) {
            Some(i) => {
                proof {
                    lemma_entries_map_index(self.entries@, i as int);
                }
                Some(&self.entries[i].1)
            },
            None => None,
        }
    }

    /// Sets the value of `key`; an existing entry keeps its position.
    pub fn insert(&mut self, key: K, value: V)
        requires
            old(self).wf(),
        ensures
            final(self).wf(),
            final(self)@ == old(self)@.insert(key.key_view(), value),
            forall|k: K::KeyView| #[trigger]
                old(self)@.contains_key(k) ==> final(self)@.contains_key(k),
    {
        match self.position(&key) {
            Some(i) => {
                proof {
                    lemma_entries_map_update(self.entries@, i as int, (key, value));
                }
                self.entries.set(i, (key, value));
            },
            None => {
                let ghost old_entries = self.entries@;
                let ghost new_key = key.key_view();
                self.entries.push((key, value));
                proof {
                    assert(self.entries@.drop_last() == old_entries);
                    assert(keys_distinct(self.entries@)) by {
                        assert forall|a: int, b: int|
                            0 <= a < self.entries@.len() && 0 <= b < self.entries@.len() && a != b
                            implies #[trigger] self.entries@[a].0.key_view()
                            != #[trigger] self.entries@[b].0.key_view() by {
                            if a < old_entries.len() && b < old_entries.len() {
                                assert(self.entries@[a] == old_entries[a]);
                                assert(self.entries@[b] == old_entries[b]);
                            } else if a < old_entries.len() {
                                assert(self.entries@[a] == old_entries[a]);
                                assert(old_entries[a].0.key_view() != new_key);
                            } else {
                                assert(self.entries@[b] == old_entries[b]);
                                assert(old_entries[b].0.key_view() != new_key);
                            }
                        }
                    }
                }
            },
        }
    }
}

/// With distinct keys, a map of entries has as many keys as there are entries.
proof fn lemma_len_of<K: TableKey, V>(s: Seq<(K, V)>)
    requires
        keys_distinct(s),
    ensures
        s.len() == entries_map(s).len(),
        entries_map(s).dom().finite(),
    decreases s.len(),
{
    if s.len() > 0 {
        let t = s.drop_last();
        assert(keys_distinct(t)) by {
            assert forall|a: int, b: int|
                0 <= a < t.len() && 0 <= b < t.len() && a != b implies #[trigger] t[a].0.key_view()
                != #[trigger] t[b].0.key_view() by {
                assert(t[a] == s[a] && t[b] == s[b]);
            }
        }
        lemma_len_of(t);
        lemma_entries_map_domain(t, s.last().0.key_view());
        if entries_map(t).contains_key(s.last().0.key_view()) {
            let i = choose|i: int| 0 <= i < t.len() && #[trigger] t[i].0.key_view() == s.last().0.key_view();
            assert(s[i] == t[i]);
        }
    }
}

} // verus!
