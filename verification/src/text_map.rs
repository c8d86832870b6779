//! A map from texts, which it keeps in order.
use crate::text::same_text;
use vstd::prelude::*;
use vstd::string::*;

verus! {

/// Whether `a` comes before `b`: by the first character in which they differ, or because it is
/// the beginning of `b`.
pub open spec fn precedes(a: Seq<char>, b: Seq<char>) -> bool
    decreases a.len(),
{
    if b.len() == 0 {
        false
    } else if a.len() == 0 {
        true
    } else if a[0] != b[0] {
        a[0] < b[0]
    } else {
        precedes(a.skip(1), b.skip(1))
    }
}

/// Of two different texts exactly one comes before the other.
pub proof fn lemma_precedes_one_way(a: Seq<char>, b: Seq<char>)
    ensures
        a == b ==> !precedes(a, b),
        a != b ==> precedes(a, b) == !precedes(b, a),
    decreases a.len(),
{
    if a.len() > 0 && b.len() > 0 && a[0] == b[0] {
        lemma_precedes_one_way(a.skip(1), b.skip(1));
        if a.skip(1) == b.skip(1) {
            assert(a =~= seq![a[0]] + a.skip(1));
            assert(b =~= seq![b[0]] + b.skip(1));
        }
    } else if a.len() == 0 && b.len() == 0 {
        assert(a =~= b);
    }
}

/// What comes before something comes before all that follows it.
pub proof fn lemma_precedes_transitive(a: Seq<char>, b: Seq<char>, c: Seq<char>)
    requires
        precedes(a, b),
        precedes(b, c),
    ensures
        precedes(a, c),
    decreases a.len(),
{
    if a.len() > 0 && a[0] == b[0] && b[0] == c[0] {
        lemma_precedes_transitive(a.skip(1), b.skip(1), c.skip(1));
    }
}

/// Whether `a` comes before `b`.
pub fn text_precedes(a: &str, b: &str) -> (r: bool)
    ensures
        r == precedes(a@, b@),
{
    let left = crate::text::chars_of(a);
    let right = crate::text::chars_of(b);
    let mut i: usize = 0;
    assert(a@.skip(0) =~= a@);
    assert(b@.skip(0) =~= b@);
    while i < left.len() && i < right.len() && left[i] == right[i]
        invariant
            left@ == a@,
            right@ == b@,
            i <= left.len(),
            i <= right.len(),
            precedes(a@, b@) == precedes(a@.skip(i as int), b@.skip(i as int)),
        decreases left.len() - i,
    {
        assert(a@.skip(i as int).skip(1) =~= a@.skip(i + 1));
        assert(b@.skip(i as int).skip(1) =~= b@.skip(i + 1));
        i += 1;
    }
    if i >= right.len() {
        false
    } else if i >= left.len() {
        true
    } else {
        left[i] < right[i]
    }
}

/// Whether the texts are in order, without one that occurs twice.
pub open spec fn ascending(keys: Seq<Seq<char>>) -> bool {
    forall|i: int, j: int| 0 <= i < j < keys.len() ==> precedes(#[trigger] keys[i], #[trigger] keys[j])
}

/// A map from texts, which it keeps in order.
#[derive(Debug, PartialEq, Eq)]
pub struct TextMap<V> {
    entries: Vec<(String, V)>,
}

spec fn keys_of<V>(entries: Seq<(String, V)>) -> Seq<Seq<char>> {
    entries.map_values(|entry: (String, V)| entry.0@)
}

spec fn map_of<V>(entries: Seq<(String, V)>) -> Map<Seq<char>, V> {
    Map::new(
        |key: Seq<char>| keys_of(entries).contains(key),
        |key: Seq<char>| entries[keys_of(entries).index_of(key)].1,
    )
}

proof fn lemma_position_of<V>(entries: Seq<(String, V)>, i: int)
    requires
        ascending(keys_of(entries)),
        0 <= i < entries.len(),
    ensures
        keys_of(entries).contains(entries[i].0@),
        keys_of(entries).index_of(entries[i].0@) == i,
        map_of(entries).contains_key(entries[i].0@),
        map_of(entries)[entries[i].0@] == entries[i].1,
{
    let keys = keys_of(entries);
    let key = entries[i].0@;
    assert(keys[i] == key);
    assert(keys.contains(key));
    let j = keys.index_of(key);
    assert(0 <= j < keys.len() && keys[j] == key);
    lemma_precedes_one_way(key, key);
    if j < i {
        assert(precedes(keys[j], keys[i]));
    } else if i < j {
        assert(precedes(keys[i], keys[j]));
    }
}

impl<V> View for TextMap<V> {
    type V = Map<Seq<char>, V>;

    closed spec fn view(&self) -> Map<Seq<char>, V> {
        map_of(self.entries@)
    }
}

impl<V> TextMap<V> {
    #[verifier::type_invariant]
    spec fn well_formed(self) -> bool {
        ascending(keys_of(self.entries@))
    }

    /// The keys of the map, in order.
    pub closed spec fn keys(self) -> Seq<Seq<char>> {
        keys_of(self.entries@)
    }

    /// An empty map.
    pub fn new() -> (r: TextMap<V>)
        ensures
            r@ == Map::<Seq<char>, V>::empty(),
            r.keys() == Seq::<Seq<char>>::empty(),
    {
        let r = TextMap { entries: Vec::new() };
        assert(r.keys() =~= Seq::empty());
        assert(r@ =~= Map::empty());
        r
    }

    /// The number of keys.
    pub fn len(&self) -> (r: usize)
        ensures
            r == self.keys().len(),
            ascending(self.keys()),
            forall|key: Seq<char>|
                #![trigger self@.contains_key(key)]
                self@.contains_key(key) <==> self.keys().contains(key),
    {
        proof {
            use_type_invariant(self);
        }
        self.entries.len()
    }

    /// The entry at the given position.
    pub fn at(&self, i: usize) -> (r: (&str, &V))
        requires
            i < self.keys().len(),
        ensures
            ascending(self.keys()),
            r.0@ == self.keys()[i as int],
            self@.contains_key(r.0@),
            *r.1 == self@[r.0@],
    {
        proof {
            use_type_invariant(self);
            lemma_position_of(self.entries@, i as int);
        }
        let entry = &self.entries[i];
        (entry.0.as_str(), &entry.1)
    }

    /// The position of the key, or the one at which it would have to stand.
    fn position(&self, key: &str) -> (r: (usize, bool))
        ensures
            ascending(self.keys()),
            r.0 <= self.keys().len(),
            forall|i: int| 0 <= i < r.0 ==> precedes(#[trigger] self.keys()[i], key@),
            r.1 ==> r.0 < self.keys().len() && self.keys()[r.0 as int] == key@,
            !r.1 ==> forall|i: int|
                r.0 <= i < self.keys().len() ==> precedes(key@, #[trigger] self.keys()[i]),
            r.1 == self@.contains_key(key@),
            r.1 ==> self@[key@] == self.entries@[r.0 as int].1,
    {
        proof {
            use_type_invariant(self);
        }
        let mut i: usize = 0;
        while i < self.entries.len() && text_precedes(self.entries[i].0.as_str(), key)
            invariant
                i <= self.entries.len(),
                ascending(self.keys()),
                self.keys().len() == self.entries.len(),
                forall|j: int| 0 <= j < i ==> precedes(#[trigger] self.keys()[j], key@),
            decreases self.entries.len() - i,
        {
            assert(self.keys()[i as int] == self.entries@[i as int].0@);
            i += 1;
        }
        let ghost keys = self.keys();
        proof {
            lemma_precedes_one_way(key@, key@);
            if i < keys.len() && keys[i as int] != key@ {
                lemma_precedes_one_way(keys[i as int], key@);
                assert forall|j: int| i <= j < keys.len() implies precedes(
                    key@,
                    #[trigger] keys[j],
                ) by {
                    if i < j {
                        assert(precedes(keys[i as int], keys[j]));
                        lemma_precedes_transitive(key@, keys[i as int], keys[j]);
                    }
                }
            }
        }
        if i < self.entries.len() && same_text(self.entries[i].0.as_str(), key) {
            proof {
                lemma_position_of(self.entries@, i as int);
            }
            (i, true)
        } else {
            proof {
                if self@.contains_key(key@) {
                    let j = keys.index_of(key@);
                    assert(keys[j] == key@);
                    assert(false);
                }
            }
            (i, false)
        }
    }

    /// The value of the key, if the map has one.
    pub fn get(&self, key: &str) -> (r: Option<&V>)
        ensures
            r is Some <==> self@.contains_key(key@),
            r matches Some(value) ==> *value == self@[key@],
    {
        let (i, found) = self.position(key);
        if found {
            Some(&self.entries[i].1)
        } else {
            None
        }
    }

    /// Whether the map has the key.
    pub fn contains_key(&self, key: &str) -> (r: bool)
        ensures
            r == self@.contains_key(key@),
    {
        self.position(key).1
    }

    /// Gives the key the value, and tells whether the map did not have the key before.
    pub fn insert(&mut self, key: String, value: V) -> (r: bool)
        ensures
            final(self)@ == old(self)@.insert(key@, value),
            r == !old(self)@.contains_key(key@),
    {
        let (i, found) = self.position(key.as_str());
        let mut entries: Vec<(String, V)> = Vec::new();
        std::mem::swap(&mut entries, &mut self.entries);
        let ghost before = entries@;
        let ghost keys = keys_of(before);
        if found {
            entries.set(i, (key, value));
            assert(keys_of(entries@) =~= keys);
        } else {
            entries.insert(i, (key, value));
            assert(keys_of(entries@) =~= keys.insert(i as int, key@));
            assert(ascending(keys_of(entries@))) by {
                let now = keys_of(entries@);
                assert forall|a: int, b: int| 0 <= a < b < now.len() implies precedes(
                    #[trigger] now[a],
                    #[trigger] now[b],
                ) by {
                    let old_a = if a <= i {
                        a
                    } else {
                        a - 1
                    };
                    let old_b = if b <= i {
                        b
                    } else {
                        b - 1
                    };
                    if a == i {
                        assert(now[b] == keys[b - 1]);
                    } else if b == i {
                        assert(now[a] == keys[a]);
                    } else {
                        assert(now[a] == keys[old_a] && now[b] == keys[old_b]);
                    }
                }
            }
        }
        proof {
            let now = entries@;
            let goal = map_of(before).insert(key@, value);
            assert forall|k: Seq<char>|
                #![trigger map_of(now).dom().contains(k)]
                #![trigger goal.dom().contains(k)]
                map_of(now).dom().contains(k) == goal.dom().contains(k) && (
                map_of(now).dom().contains(k) ==> map_of(now)[k] == goal[k]) by {
                lemma_position_of(now, i as int);
                if keys_of(now).contains(k) && k != key@ {
                    let j = keys_of(now).index_of(k);
                    assert(keys_of(now)[j] == k);
                    lemma_position_of(now, j);
                    let old_j = if found || j < i {
                        j
                    } else {
                        j - 1
                    };
                    assert(before[old_j] == now[j]);
                    lemma_position_of(before, old_j);
                }
                if keys.contains(k) && k != key@ {
                    let j = keys.index_of(k);
                    assert(keys[j] == k);
                    let new_j = if found || j < i {
                        j
                    } else {
                        j + 1
                    };
                    assert(before[j] == now[new_j]);
                    lemma_position_of(now, new_j);
                }
            }
            assert(map_of(now) =~= goal);
        }
        self.entries = entries;
        !found
    }
}

} // verus!
