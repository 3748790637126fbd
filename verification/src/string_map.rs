//! A map from text to text that is walked in the order of its keys.

use vstd::prelude::*;

use crate::text::{chars_of, same};

verus! {

broadcast use vstd::string::group_string_axioms;

/// Whether `a` comes before `b` in the order of code points, a proper prefix
/// coming first.
pub open spec fn precedes(a: Seq<char>, b: Seq<char>) -> bool
    decreases a.len(),
{
    if b.len() == 0 {
        false
    } else if a.len() == 0 {
        true
    } else if a[0] == b[0] {
        precedes(a.drop_first(), b.drop_first())
    } else {
        a[0] < b[0]
    }
}

/// The order is strict: no text comes before itself, and of two different texts
/// exactly one comes first.
pub proof fn lemma_precedes_strict(a: Seq<char>, b: Seq<char>)
    ensures
        a == b ==> !precedes(a, b),
        a != b ==> precedes(a, b) != precedes(b, a),
    decreases a.len(),
{
    if a.len() > 0 && b.len() > 0 && a[0] == b[0] {
        lemma_precedes_strict(a.drop_first(), b.drop_first());
        assert(a =~= seq![a[0]] + a.drop_first());
        assert(b =~= seq![b[0]] + b.drop_first());
    } else if a.len() == 0 && b.len() == 0 {
        assert(a =~= b);
    }
}

/// The order is transitive.
pub proof fn lemma_precedes_transitive(a: Seq<char>, b: Seq<char>, c: Seq<char>)
    requires
        precedes(a, b),
        precedes(b, c),
    ensures
        precedes(a, c),
    decreases a.len(),
{
    if a.len() > 0 && a[0] == b[0] && b[0] == c[0] {
        lemma_precedes_transitive(a.drop_first(), b.drop_first(), c.drop_first());
    }
}

/// Whether `a` comes before `b` in the order of code points.
pub fn comes_before(a: &str, b: &str) -> (r: bool)
    ensures
        r == precedes(a@, b@),
{
    let left = chars_of(a);
    let right = chars_of(b);
    let mut i: usize = 0;
    assert(a@.skip(0) == a@);
    assert(b@.skip(0) == b@);
    while i < left.len() && i < right.len()
        invariant
            i <= left.len(),
            i <= right.len(),
            left@ == a@,
            right@ == b@,
            precedes(a@.skip(i as int), b@.skip(i as int)) == precedes(a@, b@),
        decreases left.len() - i,
    {
        assert(a@.skip(i as int).drop_first() == a@.skip(i + 1));
        assert(b@.skip(i as int).drop_first() == b@.skip(i + 1));
        if left[i] != right[i] {
            return left[i] < right[i];
        }
        i += 1;
    }
    i < right.len()
}

/// Whether the keys of the entries ascend, so that none occurs twice.
pub open spec fn ascending(entries: Seq<(Seq<char>, Seq<char>)>) -> bool {
    forall|i: int, j: int|
        0 <= i < j < entries.len() ==> precedes((#[trigger] entries[i]).0, (#[trigger] entries[j]).0)
}

/// Whether some entry has that key.
pub open spec fn has_key(entries: Seq<(Seq<char>, Seq<char>)>, key: Seq<char>) -> bool {
    exists|i: int| 0 <= i < entries.len() && (#[trigger] entries[i]).0 == key
}

/// The map that a list of entries stands for.
pub open spec fn map_of(entries: Seq<(Seq<char>, Seq<char>)>) -> Map<Seq<char>, Seq<char>> {
    Map::new(
        |key: Seq<char>| has_key(entries, key),
        |key: Seq<char>|
            entries[choose|i: int| 0 <= i < entries.len() && (#[trigger] entries[i]).0 == key].1,
    )
}

/// In an ascending list an entry's key is mapped to the entry's value.
proof fn lemma_map_of_entry(entries: Seq<(Seq<char>, Seq<char>)>, i: int)
    requires
        ascending(entries),
        0 <= i < entries.len(),
    ensures
        map_of(entries).dom().contains(entries[i].0),
        map_of(entries)[entries[i].0] == entries[i].1,
{
    let key = entries[i].0;
    assert(has_key(entries, key));
    let j = choose|j: int| 0 <= j < entries.len() && (#[trigger] entries[j]).0 == key;
    lemma_precedes_strict(key, key);
    assert(i == j);
}

/// A map from text to text. Its entries stand in the order of their keys, in which
/// they are also walked.
#[derive(Debug)]
pub struct StringMap {
    entries: Vec<(String, String)>,
}

impl View for StringMap {
    type V = Map<Seq<char>, Seq<char>>;

    open spec fn view(&self) -> Map<Seq<char>, Seq<char>> {
        map_of(self.ordered())
    }
}

impl StringMap {
    /// The entries, in the order of their keys.
    pub closed spec fn ordered(&self) -> Seq<(Seq<char>, Seq<char>)> {
        self.entries@.map_values(|e: (String, String)| (e.0@, e.1@))
    }

    #[verifier::type_invariant]
    spec fn keys_ascend(&self) -> bool {
        ascending(self.ordered())
    }

    /// The empty map.
    pub fn new() -> (r: Self)
        ensures
            r.ordered() == Seq::<(Seq<char>, Seq<char>)>::empty(),
            r@ == Map::<Seq<char>, Seq<char>>::empty(),
    {
        let r = StringMap { entries: Vec::new() };
        assert(r.ordered() =~= Seq::empty());
        assert(r@ =~= Map::empty());
        r
    }

    /// The number of entries.
    pub fn len(&self) -> (r: usize)
        ensures
            r == self.ordered().len(),
            ascending(self.ordered()),
    {
        proof {
            use_type_invariant(self);
        }
        self.entries.len()
    }

    /// The key and the value of the entry at `i` in the order of the keys.
    pub fn entry(&self, i: usize) -> (r: (&String, &String))
        requires
            i < self.ordered().len(),
        ensures
            (r.0@, r.1@) == self.ordered()[i as int],
            ascending(self.ordered()),
    {
        proof {
            use_type_invariant(self);
        }
        (&self.entries[i].0, &self.entries[i].1)
    }

    /// The value that the map gives a key.
    pub fn get(&self, key: &str) -> (r: Option<&String>)
        ensures
            match r {
                Some(value) => self@.dom().contains(key@) && self@[key@] == value@,
                None => !self@.dom().contains(key@),
            },
    {
        proof {
            use_type_invariant(self);
        }
        let mut i: usize = 0;
        while i < self.entries.len()
            invariant
                i <= self.entries.len(),
                ascending(self.ordered()),
                forall|j: int| 0 <= j < i ==> (#[trigger] self.ordered()[j]).0 != key@,
            decreases self.entries.len() - i,
        {
            assert(self.ordered()[i as int].0 == self.entries@[i as int].0@);
            if same(self.entries[i].0.as_str(), key) {
                proof {
                    lemma_map_of_entry(self.ordered(), i as int);
                }
                return Some(&self.entries[i].1);
            }
            i += 1;
        }
        None
    }

    /// Maps `key` to `value`, in place of what it was mapped to before.
    pub fn insert(&mut self, key: String, value: String)
        ensures
            final(self)@ == old(self)@.insert(key@, value@),
            ascending(final(self).ordered()),
    {
        proof {
            use_type_invariant(&*self);
        }
        let ghost before = self.ordered();
        let mut entries: Vec<(String, String)> = Vec::new();
        std::mem::swap(&mut entries, &mut self.entries);
        let mut i: usize = 0;
        while i < entries.len() && comes_before(entries[i].0.as_str(), key.as_str())
            invariant
                i <= entries.len(),
                before == entries@.map_values(|e: (String, String)| (e.0@, e.1@)),
                forall|j: int| 0 <= j < i ==> precedes((#[trigger] before[j]).0, key@),
            decreases entries.len() - i,
        {
            assert(before[i as int].0 == entries@[i as int].0@);
            i += 1;
        }
        let ghost k = key@;
        let ghost v = value@;
        if i < entries.len() && same(entries[i].0.as_str(), key.as_str()) {
            entries[i] = (key, value);
            proof {
                let after = entries@.map_values(|e: (String, String)| (e.0@, e.1@));
                assert(after =~= before.update(i as int, (k, v)));
                lemma_replace(before, i as int, v);
            }
        } else {
            entries.insert(i, (key, value));
            proof {
                let after = entries@.map_values(|e: (String, String)| (e.0@, e.1@));
                assert(after =~= before.insert(i as int, (k, v)));
                if i < before.len() {
                    lemma_precedes_strict(before[i as int].0, k);
                }
                lemma_place(before, i as int, k, v);
            }
        }
        self.entries = entries;
    }
}

impl Clone for StringMap {
    fn clone(&self) -> (r: Self)
        ensures
            r.ordered() == self.ordered(),
            ascending(r.ordered()),
    {
        proof {
            use_type_invariant(self);
        }
        let mut entries: Vec<(String, String)> = Vec::new();
        let mut i: usize = 0;
        while i < self.entries.len()
            invariant
                i <= self.entries.len(),
                entries.len() == i,
                forall|j: int|
                    0 <= j < i ==> (#[trigger] entries@[j]).0@ == self.entries@[j].0@
                        && entries@[j].1@ == self.entries@[j].1@,
            decreases self.entries.len() - i,
        {
            entries.push((self.entries[i].0.clone(), self.entries[i].1.clone()));
            i += 1;
        }
        proof {
            assert(entries@.map_values(|e: (String, String)| (e.0@, e.1@)) =~= self.ordered());
        }
        StringMap { entries }
    }
}

proof fn lemma_replace(before: Seq<(Seq<char>, Seq<char>)>, i: int, value: Seq<char>)
    requires
        ascending(before),
        0 <= i < before.len(),
    ensures
        ascending(before.update(i, (before[i].0, value))),
        map_of(before.update(i, (before[i].0, value))) == map_of(before).insert(
            before[i].0,
            value,
        ),
{
    let key = before[i].0;
    let after = before.update(i, (key, value));
    assert(ascending(after));
    assert forall|k: Seq<char>| has_key(after, k) == has_key(before, k) by {
        if has_key(after, k) {
            let j = choose|j: int| 0 <= j < after.len() && (#[trigger] after[j]).0 == k;
            assert(before[j].0 == k);
        }
        if has_key(before, k) {
            let j = choose|j: int| 0 <= j < before.len() && (#[trigger] before[j]).0 == k;
            assert(after[j].0 == k);
        }
    }
    lemma_map_of_entry(before, i);
    assert forall|k: Seq<char>| has_key(after, k) implies #[trigger] map_of(after)[k] == map_of(
        before,
    ).insert(key, value)[k] by {
        let j = choose|j: int| 0 <= j < after.len() && (#[trigger] after[j]).0 == k;
        lemma_map_of_entry(after, j);
        lemma_map_of_entry(before, j);
        lemma_map_of_entry(after, i);
    }
    assert(map_of(after) =~= map_of(before).insert(key, value));
}

proof fn lemma_place(
    before: Seq<(Seq<char>, Seq<char>)>,
    i: int,
    key: Seq<char>,
    value: Seq<char>,
)
    requires
        ascending(before),
        0 <= i <= before.len(),
        forall|j: int| 0 <= j < i ==> precedes((#[trigger] before[j]).0, key),
        i < before.len() ==> precedes(key, before[i].0),
    ensures
        ascending(before.insert(i, (key, value))),
        map_of(before.insert(i, (key, value))) == map_of(before).insert(key, value),
{
    let after = before.insert(i, (key, value));
    assert forall|j: int| i <= j < before.len() implies precedes(key, (#[trigger] before[j]).0) by {
        if i < j {
            lemma_precedes_transitive(key, before[i].0, before[j].0);
        }
    }
    assert forall|a: int, b: int| 0 <= a < b < after.len() implies precedes(
        (#[trigger] after[a]).0,
        (#[trigger] after[b]).0,
    ) by {
        let olda = if a < i { a } else { a - 1 };
        let oldb = if b < i { b } else { b - 1 };
        if a != i {
            assert(after[a] == before[olda]);
        }
        if b != i {
            assert(after[b] == before[oldb]);
        }
    }
    assert(after[i].0 == key);
    assert forall|k: Seq<char>| has_key(after, k) == (has_key(before, k) || k == key) by {
        if has_key(after, k) {
            let j = choose|j: int| 0 <= j < after.len() && (#[trigger] after[j]).0 == k;
            if j < i {
                assert(before[j].0 == k);
            } else if j > i {
                assert(before[j - 1].0 == k);
            }
        }
        if has_key(before, k) {
            let j = choose|j: int| 0 <= j < before.len() && (#[trigger] before[j]).0 == k;
            if j < i {
                assert(after[j].0 == k);
            } else {
                assert(after[j + 1].0 == k);
            }
        }
    }
    assert forall|k: Seq<char>| has_key(after, k) implies #[trigger] map_of(after)[k] == map_of(
        before,
    ).insert(key, value)[k] by {
        let j = choose|j: int| 0 <= j < after.len() && (#[trigger] after[j]).0 == k;
        lemma_map_of_entry(after, j);
        if j < i {
            lemma_map_of_entry(before, j);
            lemma_precedes_strict(k, key);
        } else if j > i {
            lemma_map_of_entry(before, j - 1);
            lemma_precedes_strict(k, key);
        }
    }
    assert(map_of(after) =~= map_of(before).insert(key, value));
}

/// Whether `a` comes before `b` in the order of code points: where they first differ it has
/// the smaller one, or it ends there.
pub open spec fn ordered_before(a: Seq<char>, b: Seq<char>) -> bool {
    exists|k: int|
        {
            &&& 0 <= k < b.len()
            &&& k <= a.len()
            &&& a.take(k) == #[trigger] b.take(k)
            &&& k == a.len() || a[k] < b[k]
        }
}

/// One text comes before another exactly where it is ordered before it.
pub proof fn law_precedes(a: Seq<char>, b: Seq<char>)
    ensures
        precedes(a, b) <==> ordered_before(a, b),
    decreases a.len(),
{
    if b.len() > 0 && a.len() > 0 && a[0] == b[0] {
        let x = a.drop_first();
        let y = b.drop_first();
        law_precedes(x, y);
        if ordered_before(x, y) {
            let k = choose|k: int|
                {
                    &&& 0 <= k < y.len()
                    &&& k <= x.len()
                    &&& x.take(k) == #[trigger] y.take(k)
                    &&& k == x.len() || x[k] < y[k]
                };
            assert forall|i: int| 0 <= i < k + 1 implies a[i] == b[i] by {
                if i > 0 {
                    assert(x.take(k)[i - 1] == y.take(k)[i - 1]);
                }
            }
            assert(a.take(k + 1) == b.take(k + 1));
        }
        if ordered_before(a, b) {
            let k = choose|k: int|
                {
                    &&& 0 <= k < b.len()
                    &&& k <= a.len()
                    &&& a.take(k) == #[trigger] b.take(k)
                    &&& k == a.len() || a[k] < b[k]
                };
            assert forall|i: int| 0 <= i < k - 1 implies x[i] == y[i] by {
                assert(a.take(k)[i + 1] == b.take(k)[i + 1]);
            }
            assert(k > 0);
            assert(x.take(k - 1) == y.take(k - 1));
        }
    } else if b.len() > 0 && a.len() > 0 {
        assert(a.take(0) == b.take(0));
        if ordered_before(a, b) {
            let k = choose|k: int|
                {
                    &&& 0 <= k < b.len()
                    &&& k <= a.len()
                    &&& a.take(k) == #[trigger] b.take(k)
                    &&& k == a.len() || a[k] < b[k]
                };
            if k > 0 {
                assert(a.take(k)[0] == b.take(k)[0]);
            }
        }
    } else if b.len() > 0 {
        assert(a.take(0) == b.take(0));
    }
}

/// The entries of a map come in the order of their keys, each key once, and what the map
/// gives a key is the value of the entry with that key.
pub proof fn law_entries(
    map: StringMap,
    i: usize,
    j: usize,
    a: (&String, &String),
    b: (&String, &String),
)
    requires
        i < j,
        call_ensures(StringMap::entry, (&map, i), a),
        call_ensures(StringMap::entry, (&map, j), b),
        j < map.ordered().len(),
    ensures
        ordered_before(a.0@, b.0@),
        map@.dom().contains(a.0@) && map@[a.0@] == a.1@,
        map@.dom().contains(b.0@) && map@[b.0@] == b.1@,
{
    assert(precedes(map.ordered()[i as int].0, map.ordered()[j as int].0));
    law_precedes(a.0@, b.0@);
    lemma_map_of_entry(map.ordered(), i as int);
    lemma_map_of_entry(map.ordered(), j as int);
}

/// What a map gives a key is the value of an entry with that key, and it gives none where
/// no entry has that key.
pub proof fn law_get(map: StringMap, key: &str, r: Option<&String>)
    requires
        call_ensures(StringMap::get, (&map, key), r),
        ascending(map.ordered()),
    ensures
        r matches Some(value) ==> exists|i: int|
            0 <= i < map.ordered().len() && #[trigger] map.ordered()[i] == (key@, value@),
        r is None ==> forall|i: int|
            0 <= i < map.ordered().len() ==> (#[trigger] map.ordered()[i]).0 != key@,
{
    let entries = map.ordered();
    match r {
        Some(value) => {
            let i = choose|i: int| 0 <= i < entries.len() && (#[trigger] entries[i]).0 == key@;
            lemma_map_of_entry(entries, i);
            assert(entries[i] == (key@, value@));
        },
        None => {
            assert forall|i: int| 0 <= i < entries.len() implies (#[trigger] entries[i]).0
                != key@ by {
                lemma_map_of_entry(entries, i);
            }
        },
    }
}

}
