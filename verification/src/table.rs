//! An insertion-ordered association table keyed by identifier text.
//!
//! Every registry of the engine (fixtures, animations, auxiliaries, GPU
//! resources, ...) is a table of this kind. Keys are unique; entries keep the
//! order in which their keys first arrived, so every walk over a table is
//! deterministic.

use vstd::prelude::*;

verus! {

/// Insertion-ordered table from identifier text to `V` without repeated keys.
#[derive(Debug)]
pub struct Table<V> {
    keys: Vec<String>,
    values: Vec<V>,
}

impl<V> Table<V> {
    /// The keys in table order.
    pub closed spec fn keys(&self) -> Seq<Seq<char>> {
        self.keys@.map_values(|k: String| k@)
    }

    /// The values in table order; `values()[i]` belongs to `keys()[i]`.
    pub closed spec fn values(&self) -> Seq<V> {
        self.values@
    }

    /// Keys and values line up and no key occurs twice.
    pub open spec fn wf(&self) -> bool {
        &&& self.keys().len() == self.values().len()
        &&& self.keys().no_duplicates()
    }

    /// Whether `key` is present.
    pub open spec fn contains(&self, key: Seq<char>) -> bool {
        self.keys().contains(key)
    }

    /// The position of `key` (meaningful when `contains(key)`).
    pub open spec fn index_of(&self, key: Seq<char>) -> int {
        self.keys().index_of(key)
    }

    /// The value stored under `key` (meaningful when `contains(key)`).
    pub open spec fn value_of(&self, key: Seq<char>) -> V {
        self.values()[self.index_of(key)]
    }

    /// The keys after storing something under `key`: a new key goes last.
    pub open spec fn keys_with(&self, key: Seq<char>) -> Seq<Seq<char>> {
        if self.contains(key) {
            self.keys()
        } else {
            self.keys().push(key)
        }
    }

    /// The keys after removing `key`.
    pub open spec fn keys_without(&self, key: Seq<char>) -> Seq<Seq<char>> {
        if self.contains(key) {
            self.keys().remove(self.index_of(key))
        } else {
            self.keys()
        }
    }

    /// `after` is this table with something stored under `key`: a new key
    /// went last, a present key kept its place, and every other entry is as
    /// it was.
    pub open spec fn stored(&self, after: &Table<V>, key: Seq<char>) -> bool {
        &&& after.wf()
        &&& after.keys() == self.keys_with(key)
        &&& after.contains(key)
        &&& forall|k: Seq<char>| k != key ==> (#[trigger] after.contains(k) <==> self.contains(k))
        &&& forall|k: Seq<char>|
            k != key && self.contains(k) ==> #[trigger] after.value_of(k) == self.value_of(k)
    }

    /// `after` is this table without `key`: every other entry is as it was,
    /// in the same order.
    pub open spec fn dropped(&self, after: &Table<V>, key: Seq<char>) -> bool {
        &&& after.wf()
        &&& after.keys() == self.keys_without(key)
        &&& !after.contains(key)
        &&& forall|k: Seq<char>| k != key ==> (#[trigger] after.contains(k) <==> self.contains(k))
        &&& forall|k: Seq<char>|
            k != key && self.contains(k) ==> #[trigger] after.value_of(k) == self.value_of(k)
    }

    /// The test "`other` has no entry for this key".
    pub open spec fn missing_in<W>(other: Table<W>) -> spec_fn(Seq<char>) -> bool {
        |k: Seq<char>| !other.contains(k)
    }

    /// The keys for which `other` has no entry, in table order.
    pub open spec fn keys_missing_from<W>(&self, other: &Table<W>) -> Seq<Seq<char>> {
        self.keys().filter(Self::missing_in(*other))
    }

    /// In a well-formed table a key at position `i` is found again at `i`.
    pub proof fn lemma_index_of(&self, i: int)
        requires
            self.wf(),
            0 <= i < self.keys().len(),
        ensures
            self.contains(self.keys()[i]),
            self.index_of(self.keys()[i]) == i,
            self.value_of(self.keys()[i]) == self.values()[i],
    {
        let k = self.keys()[i];
        assert(self.keys().contains(k));
        let j = self.keys().index_of(k);
        assert(0 <= j < self.keys().len() && self.keys()[j] == k);
    }

    /// A present key has a position inside the table.
    pub proof fn lemma_contains(&self, key: Seq<char>)
        requires
            self.contains(key),
        ensures
            0 <= self.index_of(key) < self.keys().len(),
            self.keys()[self.index_of(key)] == key,
    {
        let j = choose|j: int| 0 <= j < self.keys().len() && self.keys()[j] == key;
        assert(0 <= j < self.keys().len() && self.keys()[j] == key);
    }

    /// An empty table.
    pub fn new() -> (t: Self)
        ensures
            t.wf(),
            t.keys() == Seq::<Seq<char>>::empty(),
            t.values() == Seq::<V>::empty(),
    {
        let t = Table { keys: Vec::new(), values: Vec::new() };
        assert(t.keys() =~= Seq::<Seq<char>>::empty());
        t
    }

    /// Number of entries.
    pub fn len(&self) -> (n: usize)
        requires
            self.wf(),
        ensures
            n == self.keys().len(),
            n == self.values().len(),
    {
        self.keys.len()
    }

    /// Whether the table has no entry.
    pub fn is_empty(&self) -> (e: bool)
        requires
            self.wf(),
        ensures
            e == (self.keys().len() == 0),
    {
        self.keys.len() == 0
    }

    /// The position of `key`, if present.
    pub fn position(&self, key: &String) -> (pos: Option<usize>)
        requires
            self.wf(),
        ensures
            pos is Some <==> self.contains(key@),
            pos is Some ==> pos->0 == self.index_of(key@) && pos->0 < self.keys().len(),
    {
        let n = self.keys.len();
        let mut i: usize = 0;
        while i < n
            invariant
                self.wf(),
                n == self.keys@.len(),
                i <= n,
                forall|j: int| 0 <= j < i ==> self.keys()[j] != key@,
            decreases n - i,
        {
            if self.keys[i] == *key {
                assert(self.keys()[i as int] == key@);
                proof {
                    self.lemma_index_of(i as int);
                }
                return Some(i);
            }
            i += 1;
        }
        None
    }

    /// Whether `key` is present.
    pub fn contains_key(&self, key: &String) -> (found: bool)
        requires
            self.wf(),
        ensures
            found == self.contains(key@),
    {
        self.position(key).is_some()
    }

    /// The value stored under `key`, if any.
    pub fn get(&self, key: &String) -> (value: Option<&V>)
        requires
            self.wf(),
        ensures
            value is Some <==> self.contains(key@),
            value is Some ==> *value->0 == self.value_of(key@),
    {
        match self.position(key) {
            Some(i) => Some(&self.values[i]),
            None => None,
        }
    }

    /// The key at position `i`.
    pub fn key_at(&self, i: usize) -> (key: &String)
        requires
            self.wf(),
            i < self.keys().len(),
        ensures
            key@ == self.keys()[i as int],
    {
        &self.keys[i]
    }

    /// The value at position `i`.
    pub fn value_at(&self, i: usize) -> (value: &V)
        requires
            self.wf(),
            i < self.keys().len(),
        ensures
            *value == self.values()[i as int],
    {
        &self.values[i]
    }

    /// The keys for which `other` has no entry, in table order.
    pub fn missing_from<W>(&self, other: &Table<W>) -> (missing: Vec<String>)
        requires
            self.wf(),
            other.wf(),
        ensures
            text_views(missing@) == self.keys_missing_from(other),
    {
        let mut missing: Vec<String> = Vec::new();
        let n = self.keys.len();
        let mut i: usize = 0;
        assert(self.keys().subrange(0, 0) =~= Seq::<Seq<char>>::empty());
        proof {
            lemma_filter_empty(Self::missing_in(*other));
        }
        assert(text_views(missing@) =~= Seq::<Seq<char>>::empty());
        while i < n
            invariant
                self.wf(),
                other.wf(),
                n == self.keys().len(),
                i <= n,
                text_views(missing@) == self.keys().subrange(0, i as int).filter(
                    Self::missing_in(*other),
                ),
            decreases n - i,
        {
            let ghost before = text_views(missing@);
            proof {
                let front = self.keys().subrange(0, i as int);
                assert(self.keys().subrange(0, i + 1) =~= front.push(self.keys()[i as int]));
                front.lemma_filter_push(self.keys()[i as int], Self::missing_in(*other));
            }
            if !other.contains_key(&self.keys[i]) {
                missing.push(self.keys[i].clone());
                assert(text_views(missing@) =~= before.push(self.keys()[i as int]));
            }
            i += 1;
        }
        assert(self.keys().subrange(0, n as int) =~= self.keys());
        missing
    }

    /// Removes every key of `keys`.
    pub fn remove_all(&mut self, keys: &Vec<String>)
        requires
            old(self).wf(),
        ensures
            final(self).wf(),
            forall|k: Seq<char>| #[trigger]
                final(self).contains(k) <==> old(self).contains(k) && !text_views(keys@).contains(
                    k,
                ),
            forall|k: Seq<char>|
                final(self).contains(k) ==> #[trigger] final(self).value_of(k) == old(self).value_of(k),
    {
        let n = keys.len();
        let mut i: usize = 0;
        while i < n
            invariant
                self.wf(),
                n == keys@.len(),
                i <= n,
                forall|k: Seq<char>| #[trigger]
                    self.contains(k) <==> old(self).contains(k) && !text_views(keys@).subrange(
                        0,
                        i as int,
                    ).contains(k),
                forall|k: Seq<char>|
                    self.contains(k) ==> #[trigger] self.value_of(k) == old(self).value_of(k),
            decreases n - i,
        {
            let ghost before = *self;
            let ghost done = text_views(keys@).subrange(0, i as int);
            let ghost next = text_views(keys@).subrange(0, i + 1);
            let _gone = self.remove(&keys[i]);
            proof {
                let gone = keys@[i as int]@;
                assert(next =~= done.push(gone));
                assert forall|k: Seq<char>| #[trigger]
                    self.contains(k) <==> old(self).contains(k) && !next.contains(k) by {
                    if k == gone {
                        assert(next[i as int] == gone);
                    } else {
                        assert(self.contains(k) <==> before.contains(k));
                        if next.contains(k) {
                            let j = choose|j: int| 0 <= j < next.len() && next[j] == k;
                            assert(done[j] == k);
                        }
                        if done.contains(k) {
                            let j = choose|j: int| 0 <= j < done.len() && done[j] == k;
                            assert(next[j] == k);
                        }
                    }
                }
            }
            i += 1;
        }
        assert(text_views(keys@).subrange(0, n as int) =~= text_views(keys@));
    }

    /// Stores `value` under `key`. A present key keeps its position and gets
    /// the new value; a new key is appended at the end.
    pub fn insert(&mut self, key: String, value: V)
        requires
            old(self).wf(),
        ensures
            final(self).wf(),
            old(self).contains(key@) ==> final(self).keys() == old(self).keys()
                && final(self).values() == old(self).values().update(
                old(self).index_of(key@),
                value,
            ),
            !old(self).contains(key@) ==> final(self).keys() == old(self).keys().push(key@)
                && final(self).values() == old(self).values().push(value),
            final(self).keys() == old(self).keys_with(key@),
            final(self).contains(key@),
            final(self).value_of(key@) == value,
            old(self).stored(final(self), key@),
            forall|k: Seq<char>|
                k != key@ ==> (#[trigger] final(self).contains(k) <==> old(self).contains(k)),
            forall|k: Seq<char>|
                k != key@ && old(self).contains(k) ==> #[trigger] final(self).value_of(k) == old(self).value_of(k),
    {
        let ghost before = *self;
        self.insert_at(key, value);
        proof {
            let after = *self;
            if before.contains(key@) {
                before.lemma_contains(key@);
                after.lemma_index_of(before.index_of(key@));
            } else {
                after.lemma_index_of(before.keys().len() as int);
            }
            assert forall|k: Seq<char>| k != key@ implies (#[trigger] after.contains(k)
                <==> before.contains(k)) by {
                if before.contains(k) {
                    before.lemma_contains(k);
                    assert(after.keys()[before.index_of(k)] == k);
                }
                if after.contains(k) {
                    after.lemma_contains(k);
                    assert(before.keys()[after.index_of(k)] == k);
                }
            }
            assert forall|k: Seq<char>| k != key@ && before.contains(k) implies #[trigger] after.value_of(
                k,
            ) == before.value_of(k) by {
                before.lemma_contains(k);
                after.lemma_index_of(before.index_of(k));
            }
        }
    }

    fn insert_at(&mut self, key: String, value: V)
        requires
            old(self).wf(),
        ensures
            final(self).wf(),
            old(self).contains(key@) ==> final(self).keys() == old(self).keys()
                && final(self).values() == old(self).values().update(
                old(self).index_of(key@),
                value,
            ),
            !old(self).contains(key@) ==> final(self).keys() == old(self).keys().push(key@)
                && final(self).values() == old(self).values().push(value),
    {
        match self.position(&key) {
            Some(i) => {
                self.values.set(i, value);
            },
            None => {
                let ghost before = self.keys();
                self.keys.push(key);
                self.values.push(value);
                assert(self.keys() =~= before.push(key@));
                assert(self.keys().no_duplicates()) by {
                    assert forall|a: int, b: int|
                        0 <= a < self.keys().len() && 0 <= b < self.keys().len() && a
                            != b implies self.keys()[a] != self.keys()[b] by {
                        if a < before.len() {
                            assert(before.contains(before[a]));
                        }
                        if b < before.len() {
                            assert(before.contains(before[b]));
                        }
                    }
                }
            },
        }
    }

    /// Removes `key` and hands back its value; later entries move up by one.
    pub fn remove(&mut self, key: &String) -> (removed: Option<V>)
        requires
            old(self).wf(),
        ensures
            final(self).wf(),
            removed is Some <==> old(self).contains(key@),
            old(self).contains(key@) ==> removed == Some(old(self).value_of(key@))
                && final(self).keys() == old(self).keys().remove(old(self).index_of(key@))
                && final(self).values() == old(self).values().remove(old(self).index_of(key@)),
            !old(self).contains(key@) ==> final(self).keys() == old(self).keys()
                && final(self).values() == old(self).values(),
            !final(self).contains(key@),
            final(self).keys() == old(self).keys_without(key@),
            old(self).dropped(final(self), key@),
            forall|k: Seq<char>|
                k != key@ ==> (#[trigger] final(self).contains(k) <==> old(self).contains(k)),
            forall|k: Seq<char>|
                k != key@ && old(self).contains(k) ==> #[trigger] final(self).value_of(k) == old(self).value_of(k),
    {
        let ghost before = *self;
        let removed = self.remove_at(key);
        proof {
            let after = *self;
            if before.contains(key@) {
                let at = before.index_of(key@);
                before.lemma_contains(key@);
                lemma_remove_keeps_distinct(before.keys(), at);
                assert forall|k: Seq<char>| k != key@ && before.contains(k) implies #[trigger] after.value_of(
                    k,
                ) == before.value_of(k) by {
                    before.lemma_contains(k);
                    let i = before.index_of(k);
                    let j = if i < at {
                        i
                    } else {
                        i - 1
                    };
                    assert(after.keys()[j] == k);
                    after.lemma_index_of(j);
                }
            }
        }
        removed
    }

    fn remove_at(&mut self, key: &String) -> (removed: Option<V>)
        requires
            old(self).wf(),
        ensures
            final(self).wf(),
            removed is Some <==> old(self).contains(key@),
            old(self).contains(key@) ==> removed == Some(old(self).value_of(key@))
                && final(self).keys() == old(self).keys().remove(old(self).index_of(key@))
                && final(self).values() == old(self).values().remove(old(self).index_of(key@)),
            !old(self).contains(key@) ==> final(self).keys() == old(self).keys()
                && final(self).values() == old(self).values(),
            !final(self).contains(key@),
    {
        match self.position(key) {
            Some(i) => {
                let ghost before = self.keys();
                let _gone = self.keys.remove(i);
                let value = self.values.remove(i);
                assert(self.keys() =~= before.remove(i as int));
                proof {
                    lemma_remove_keeps_distinct(before, i as int);
                }
                Some(value)
            },
            None => None,
        }
    }
}

impl<V: Copy> Table<V> {
    /// A copy of the table.
    pub fn copy(&self) -> (twin: Self)
        requires
            self.wf(),
        ensures
            twin.wf(),
            twin.keys() == self.keys(),
            twin.values() == self.values(),
    {
        let mut keys: Vec<String> = Vec::new();
        let mut values: Vec<V> = Vec::new();
        let n = self.keys.len();
        let mut i: usize = 0;
        while i < n
            invariant
                self.wf(),
                n == self.keys@.len(),
                i <= n,
                keys@.len() == i,
                values@ == self.values@.subrange(0, i as int),
                forall|j: int| 0 <= j < i ==> (#[trigger] keys@[j])@ == self.keys@[j]@,
            decreases n - i,
        {
            keys.push(self.keys[i].clone());
            values.push(self.values[i]);
            assert(values@ =~= self.values@.subrange(0, i + 1));
            i += 1;
        }
        assert(self.values@.subrange(0, n as int) =~= self.values@);
        let twin = Table { keys, values };
        assert(twin.keys() =~= self.keys());
        twin
    }
}

/// The characters of each text of a list.
pub open spec fn text_views(texts: Seq<String>) -> Seq<Seq<char>> {
    texts.map_values(|t: String| t@)
}

/// What the first `i + 1` items hold is what the first `i` hold, and item
/// `i`.
pub proof fn lemma_prefix_contains<A>(s: Seq<A>, i: int, x: A)
    requires
        0 <= i < s.len(),
    ensures
        s.subrange(0, i + 1).contains(x) <==> s.subrange(0, i).contains(x) || x == s[i],
{
    let shorter = s.subrange(0, i);
    let longer = s.subrange(0, i + 1);
    if longer.contains(x) {
        let j = choose|j: int| 0 <= j < longer.len() && longer[j] == x;
        if j < i {
            assert(shorter[j] == x);
        }
    }
    if shorter.contains(x) {
        let j = choose|j: int| 0 <= j < shorter.len() && shorter[j] == x;
        assert(longer[j] == x);
    }
    if x == s[i] {
        assert(longer[i] == x);
    }
}

/// Nothing passes a test on an empty sequence.
pub proof fn lemma_filter_empty<A>(pred: spec_fn(A) -> bool)
    ensures
        Seq::<A>::empty().filter(pred) == Seq::<A>::empty(),
{
    reveal(Seq::filter);
}

/// What passes a test on a sequence is what the sequence holds and the test
/// accepts.
pub proof fn lemma_filter_membership<A>(s: Seq<A>, pred: spec_fn(A) -> bool, x: A)
    ensures
        s.filter(pred).contains(x) <==> s.contains(x) && pred(x),
{
    if s.filter(pred).contains(x) {
        s.lemma_filter_contains_rev(pred, x);
        let j = choose|j: int| 0 <= j < s.filter(pred).len() && s.filter(pred)[j] == x;
        s.lemma_filter_pred(pred, j);
    }
    if s.contains(x) && pred(x) {
        let j = choose|j: int| 0 <= j < s.len() && s[j] == x;
        s.lemma_filter_contains(pred, j);
    }
}

/// Filtering keeps a duplicate-free sequence duplicate-free.
pub proof fn lemma_filter_distinct<A>(s: Seq<A>, pred: spec_fn(A) -> bool)
    requires
        s.no_duplicates(),
    ensures
        s.filter(pred).no_duplicates(),
    decreases s.len(),
{
    reveal(Seq::filter);
    if s.len() > 0 {
        let front = s.drop_last();
        lemma_filter_distinct(front, pred);
        if pred(s.last()) {
            let f = front.filter(pred);
            if f.contains(s.last()) {
                front.lemma_filter_contains_rev(pred, s.last());
                let j = choose|j: int| 0 <= j < front.len() && front[j] == s.last();
                assert(s[j] == s[s.len() - 1]);
            }
            assert forall|a: int, b: int|
                0 <= a < f.push(s.last()).len() && 0 <= b < f.push(s.last()).len() && a
                    != b implies f.push(s.last())[a] != f.push(s.last())[b] by {
                if a < f.len() {
                    assert(f.contains(f[a]));
                }
                if b < f.len() {
                    assert(f.contains(f[b]));
                }
            }
        }
    }
}

/// Storing a new key and removing it again leaves the keys as they were.
pub proof fn lemma_insert_then_remove<V>(table: Table<V>, key: Seq<char>)
    requires
        table.wf(),
        !table.contains(key),
    ensures
        table.keys_with(key).remove(table.keys_with(key).index_of(key)) == table.keys(),
{
    let with = table.keys().push(key);
    assert(with[table.keys().len() as int] == key);
    let at = with.index_of(key);
    assert(0 <= at < with.len() && with[at] == key);
    if at < table.keys().len() {
        assert(table.keys()[at] == key);
        assert(table.keys().contains(key));
    }
    assert(with.remove(at) =~= table.keys());
}

/// Removing one position of a duplicate-free sequence leaves it duplicate-free
/// and without the removed item.
pub proof fn lemma_remove_keeps_distinct<A>(s: Seq<A>, i: int)
    requires
        s.no_duplicates(),
        0 <= i < s.len(),
    ensures
        s.remove(i).no_duplicates(),
        !s.remove(i).contains(s[i]),
        forall|x: A| x != s[i] ==> (s.remove(i).contains(x) <==> s.contains(x)),
{
    let r = s.remove(i);
    assert forall|a: int, b: int| 0 <= a < r.len() && 0 <= b < r.len() && a != b implies r[a]
        != r[b] by {
        let a0 = if a < i { a } else { a + 1 };
        let b0 = if b < i { b } else { b + 1 };
        assert(r[a] == s[a0] && r[b] == s[b0]);
    }
    if r.contains(s[i]) {
        let j = choose|j: int| 0 <= j < r.len() && r[j] == s[i];
        let j0 = if j < i { j } else { j + 1 };
        assert(s[j0] == s[i]);
    }
    assert forall|x: A| x != s[i] implies (r.contains(x) <==> s.contains(x)) by {
        if r.contains(x) {
            let j = choose|j: int| 0 <= j < r.len() && r[j] == x;
            let j0 = if j < i { j } else { j + 1 };
            assert(s[j0] == x);
        }
        if s.contains(x) {
            let j = choose|j: int| 0 <= j < s.len() && s[j] == x;
            let j1 = if j < i { j } else { j - 1 };
            assert(r[j1] == x);
        }
    }
}

} // verus!
