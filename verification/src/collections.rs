//! Small collections for routing tables and chunk sets: a set that keeps
//! insertion order and removes by moving its last item into the hole, and a
//! map from keys to values.
use vstd::prelude::*;

verus! {

/// Keys that can be compared for equality in executable code.
pub trait KeyEq: Copy {
    fn key_eq(&self, other: &Self) -> (r: bool)
        ensures
            r == (*self == *other),
    ;
}

impl KeyEq for u32 {
    fn key_eq(&self, other: &Self) -> (r: bool) {
        *self == *other
    }
}

impl KeyEq for u64 {
    fn key_eq(&self, other: &Self) -> (r: bool) {
        *self == *other
    }
}

impl KeyEq for u128 {
    fn key_eq(&self, other: &Self) -> (r: bool) {
        *self == *other
    }
}

impl<const N: usize> KeyEq for [u8; N] {
    fn key_eq(&self, other: &Self) -> (r: bool) {
        let mut i: usize = 0;
        while i < N
            invariant
                0 <= i <= N,
                self@.len() == N,
                other@.len() == N,
                forall|j: int| 0 <= j < i ==> self@[j] == other@[j],
            decreases N - i,
        {
            if self[i] != other[i] {
                proof {
                    if *self == *other {
                        assert(self@[i as int] == other@[i as int]);
                    }
                }
                return false;
            }
            i = i + 1;
        }
        assert(self@ =~= other@);
        proof {
            vstd::array::axiom_array_ext_equal(*self, *other);
        }
        true
    }
}

/// The sequence after inserting `x` into the ordered set `s`: unchanged when
/// `x` is already there, else `x` at the end.
pub open spec fn seq_insert<K>(s: Seq<K>, x: K) -> Seq<K> {
    if s.contains(x) {
        s
    } else {
        s.push(x)
    }
}

/// The sequence after removing `x` from the ordered set `s`: the last item
/// takes the place of `x`.  Unchanged when `x` is absent.
pub open spec fn seq_swap_remove<K>(s: Seq<K>, x: K) -> Seq<K> {
    if s.contains(x) {
        let i = s.index_of(x);
        s.update(i, s.last()).drop_last()
    } else {
        s
    }
}

/// An ordered set: no item twice, items in the order they came in, except
/// that a removal moves the last item into the hole.
#[derive(Debug, Clone)]
pub struct FastIterableSet<K> {
    items: Vec<K>,
}

impl<K> View for FastIterableSet<K> {
    type V = Seq<K>;

    closed spec fn view(&self) -> Seq<K> {
        self.items@
    }
}

impl<K: KeyEq> FastIterableSet<K> {
    /// No item twice.
    pub open spec fn wf(&self) -> bool {
        self@.no_duplicates()
    }

    /// An empty set.
    pub fn new() -> (r: Self)
        ensures
            r.wf(),
            r@ == Seq::<K>::empty(),
    {
        FastIterableSet { items: Vec::new() }
    }

    /// The number of items.
    pub fn len(&self) -> (r: usize)
        ensures
            r == self@.len(),
    {
        self.items.len()
    }

    /// Whether the set is empty.
    pub fn is_empty(&self) -> (r: bool)
        ensures
            r == (self@.len() == 0),
    {
        self.items.len() == 0
    }

    /// The item at position `i`.
    pub fn get(&self, i: usize) -> (r: K)
        requires
            i < self@.len(),
        ensures
            r == self@[i as int],
    {
        self.items[i]
    }

    /// The items, in order, in a vector of their own.
    pub fn to_vec(&self) -> (r: Vec<K>)
        ensures
            r@ == self@,
    {
        let n = self.items.len();
        let mut r: Vec<K> = Vec::new();
        let mut i: usize = 0;
        while i < n
            invariant
                n == self@.len(),
                0 <= i <= n,
                r@ == self@.take(i as int),
            decreases n - i,
        {
            r.push(self.items[i]);
            assert(self@.take(i + 1) =~= self@.take(i as int).push(self@[i as int]));
            i = i + 1;
        }
        assert(self@.take(n as int) =~= self@);
        r
    }

    /// The position of `x`, if it is in the set.
    fn position(&self, x: &K) -> (r: Option<usize>)
        ensures
            match r {
                Some(i) => i < self@.len() && self@[i as int] == *x,
                None => !self@.contains(*x),
            },
    {
        let n = self.items.len();
        let mut i: usize = 0;
        while i < n
            invariant
                n == self@.len(),
                0 <= i <= n,
                forall|j: int| 0 <= j < i ==> self@[j] != *x,
            decreases n - i,
        {
            if self.items[i].key_eq(x) {
                return Some(i);
            }
            i = i + 1;
        }
        None
    }

    /// Whether `x` is in the set.
    pub fn contains(&self, x: &K) -> (r: bool)
        ensures
            r == self@.contains(*x),
    {
        match self.position(x) {
            Some(_) => true,
            None => false,
        }
    }

    /// Inserts `x` at the end unless it is already there; true when it was not.
    pub fn insert(&mut self, x: K) -> (r: bool)
        requires
            old(self).wf(),
        ensures
            final(self).wf(),
            final(self)@ == seq_insert(old(self)@, x),
            r == !old(self)@.contains(x),
    {
        match self.position(&x) {
            Some(_) => false,
            None => {
                self.items.push(x);
                true
            },
        }
    }

    /// Removes `x`, moving the last item into its place; true when it was there.
    pub fn swap_remove(&mut self, x: &K) -> (r: bool)
        requires
            old(self).wf(),
        ensures
            final(self).wf(),
            final(self)@ == seq_swap_remove(old(self)@, *x),
            r == old(self)@.contains(*x),
    {
        match self.position(x) {
            Some(i) => {
                let ghost s = self@;
                proof {
                    s.index_of_first_ensures(*x);
                    assert(s.index_of(*x) == i) by {
                        if s.index_of(*x) != i {
                            assert(s[s.index_of(*x)] == *x);
                        }
                    }
                }
                self.items.swap_remove(i);
                proof {
                    assert(self@ =~= s.update(i as int, s.last()).drop_last());
                    lemma_swap_remove_no_duplicates(s, i as int);
                }
                true
            },
            None => false,
        }
    }
}

/// Removing by moving the last item keeps a sequence free of duplicates, and
/// removes exactly the item at `i`.
pub proof fn lemma_swap_remove_no_duplicates<K>(s: Seq<K>, i: int)
    requires
        s.no_duplicates(),
        0 <= i < s.len(),
    ensures
        s.update(i, s.last()).drop_last().no_duplicates(),
        forall|y: K|
            s.update(i, s.last()).drop_last().contains(y) <==> (s.contains(y) && y != s[i]),
{
    let r = s.update(i, s.last()).drop_last();
    assert forall|a: int, b: int| 0 <= a < r.len() && 0 <= b < r.len() && a != b implies r[a]
        != r[b] by {
        let ia = if a == i { s.len() - 1 } else { a };
        let ib = if b == i { s.len() - 1 } else { b };
        assert(r[a] == s[ia] && r[b] == s[ib]);
    }
    assert forall|y: K| r.contains(y) <==> (s.contains(y) && y != s[i]) by {
        if r.contains(y) {
            let a = choose|a: int| 0 <= a < r.len() && r[a] == y;
            let ia = if a == i { s.len() - 1 } else { a };
            assert(s[ia] == y);
        }
        if s.contains(y) && y != s[i] {
            let a = choose|a: int| 0 <= a < s.len() && s[a] == y;
            if a == s.len() - 1 {
                assert(r[i] == y);
            } else {
                assert(r[a] == y);
            }
        }
    }
}

/// Seen as a set, an insertion adds the item.
pub proof fn lemma_insert_to_set<K>(s: Seq<K>, x: K)
    ensures
        seq_insert(s, x).to_set() == s.to_set().insert(x),
{
    if !s.contains(x) {
        s.lemma_push_to_set_commute(x);
    } else {
        assert(s.to_set() =~= s.to_set().insert(x));
    }
}

/// Seen as a set, a removal from a sequence without duplicates removes the
/// item.
pub proof fn lemma_swap_remove_to_set<K>(s: Seq<K>, x: K)
    requires
        s.no_duplicates(),
    ensures
        seq_swap_remove(s, x).to_set() == s.to_set().remove(x),
{
    if s.contains(x) {
        s.index_of_first_ensures(x);
        let i = s.index_of(x);
        assert(s[i] == x) by {
            assert(s[s.index_of(x)] == x);
        }
        lemma_swap_remove_no_duplicates(s, i);
        assert(seq_swap_remove(s, x).to_set() =~= s.to_set().remove(x));
    } else {
        assert(s.to_set() =~= s.to_set().remove(x));
    }
}

/// A map from keys to values.
#[derive(Debug, Clone)]
pub struct FastMap<K, V> {
    entries: Vec<(K, V)>,
}

impl<K, V> View for FastMap<K, V> {
    type V = Map<K, V>;

    closed spec fn view(&self) -> Map<K, V> {
        Map::new(
            |k: K| exists|i: int| 0 <= i < self.entries@.len() && self.entries@[i].0 == k,
            |k: K|
                self.entries@[choose|i: int|
                    0 <= i < self.entries@.len() && self.entries@[i].0 == k].1,
        )
    }
}

impl<K: KeyEq, V> FastMap<K, V> {
    /// No key twice.
    pub closed spec fn wf(&self) -> bool {
        forall|i: int, j: int|
            0 <= i < self.entries@.len() && 0 <= j < self.entries@.len() && i != j
                ==> self.entries@[i].0 != self.entries@[j].0
    }

    /// An empty map.
    pub fn new() -> (r: Self)
        ensures
            r.wf(),
            r@ == Map::<K, V>::empty(),
    {
        let r = FastMap { entries: Vec::new() };
        assert(r@ =~= Map::<K, V>::empty());
        r
    }

    /// The position of the entry of `k`, if any.
    fn position(&self, k: &K) -> (r: Option<usize>)
        requires
            self.wf(),
        ensures
            match r {
                Some(i) => i < self.entries@.len() && self.entries@[i as int].0 == *k
                    && self@.contains_key(*k) && self@[*k] == self.entries@[i as int].1,
                None => !self@.contains_key(*k),
            },
    {
        let n = self.entries.len();
        let mut i: usize = 0;
        while i < n
            invariant
                self.wf(),
                n == self.entries@.len(),
                0 <= i <= n,
                forall|j: int| 0 <= j < i ==> self.entries@[j].0 != *k,
            decreases n - i,
        {
            if self.entries[i].0.key_eq(k) {
                proof {
                    assert(self.entries@[i as int].0 == *k);
                    let c = choose|j: int| 0 <= j < self.entries@.len() && self.entries@[j].0 == *k;
                    assert(c == i);
                }
                return Some(i);
            }
            i = i + 1;
        }
        None
    }

    /// Some entry of the map, if it has any.
    pub fn first_entry(&self) -> (r: Option<(K, V)>)
        where V: Copy,
        requires
            self.wf(),
        ensures
            match r {
                Some((k, v)) => self@.contains_key(k) && self@[k] == v,
                None => self@.dom() == Set::<K>::empty(),
            },
    {
        if self.entries.len() == 0 {
            assert(self@.dom() =~= Set::<K>::empty());
            None
        } else {
            let (k, v) = self.entries[0];
            proof {
                let c = choose|i: int| 0 <= i < self.entries@.len() && self.entries@[i].0 == k;
                assert(self.entries@[0].0 == k);
                assert(c == 0);
            }
            Some((k, v))
        }
    }

    /// Whether `k` has a value.
    pub fn contains_key(&self, k: &K) -> (r: bool)
        requires
            self.wf(),
        ensures
            r == self@.contains_key(*k),
    {
        match self.position(k) {
            Some(_) => true,
            None => false,
        }
    }

    /// The value of `k`, if any.
    pub fn get(&self, k: &K) -> (r: Option<&V>)
        requires
            self.wf(),
        ensures
            match r {
                Some(v) => self@.contains_key(*k) && *v == self@[*k],
                None => !self@.contains_key(*k),
            },
    {
        match self.position(k) {
            Some(i) => Some(&self.entries[i].1),
            None => None,
        }
    }

    /// Removes the entry of `k` and hands out its value, if any.
    pub fn remove(&mut self, k: &K) -> (r: Option<V>)
        requires
            old(self).wf(),
        ensures
            final(self).wf(),
            final(self)@ == old(self)@.remove(*k),
            match r {
                Some(v) => old(self)@.contains_key(*k) && v == old(self)@[*k],
                None => !old(self)@.contains_key(*k),
            },
    {
        match self.position(k) {
            Some(i) => {
                let ghost e = self.entries@;
                let ghost m = self@;
                let (_, v) = self.entries.swap_remove(i);
                proof {
                    assert(self.entries@ =~= e.update(i as int, e.last()).drop_last());
                    let r = self.entries@;
                    assert forall|a: int, b: int|
                        0 <= a < r.len() && 0 <= b < r.len() && a != b implies r[a].0 != r[b].0 by {
                        let ia = if a == i { e.len() - 1 } else { a };
                        let ib = if b == i { e.len() - 1 } else { b };
                        assert(r[a] == e[ia] && r[b] == e[ib]);
                    }
                    assert forall|key: K| #[trigger] self@.contains_key(key) <==> m.remove(*k).contains_key(key) by {
                        if self@.contains_key(key) {
                            let a = choose|a: int| 0 <= a < r.len() && r[a].0 == key;
                            let ia = if a == i { e.len() - 1 } else { a };
                            assert(e[ia].0 == key);
                            assert(ia != i);
                        }
                        if m.remove(*k).contains_key(key) {
                            let a = choose|a: int| 0 <= a < e.len() && e[a].0 == key;
                            assert(a != i);
                            if a == e.len() - 1 {
                                assert(r[i as int].0 == key);
                            } else {
                                assert(r[a].0 == key);
                            }
                        }
                    }
                    assert forall|key: K| #[trigger] self@.contains_key(key) implies self@[key] == m.remove(*k)[key] by {
                        let a = choose|a: int| 0 <= a < r.len() && r[a].0 == key;
                        let ia = if a == i { e.len() - 1 } else { a };
                        assert(e[ia].0 == key);
                        let b = choose|b: int| 0 <= b < e.len() && e[b].0 == key;
                        assert(b == ia);
                    }
                    assert(self@ =~= m.remove(*k));
                }
                Some(v)
            },
            None => {
                assert(self@ =~= old(self)@.remove(*k));
                None
            },
        }
    }

    /// Sets the value of `k`, handing out the value it replaces, if any.
    pub fn insert(&mut self, k: K, v: V) -> (r: Option<V>)
        requires
            old(self).wf(),
        ensures
            final(self).wf(),
            final(self)@ == old(self)@.insert(k, v),
            match r {
                Some(w) => old(self)@.contains_key(k) && w == old(self)@[k],
                None => !old(self)@.contains_key(k),
            },
    {
        let old_value = self.remove(&k);
        let ghost m = self@;
        let ghost e = self.entries@;
        self.entries.push((k, v));
        proof {
            let r = self.entries@;
            assert(r == e.push((k, v)));
            assert forall|a: int, b: int|
                0 <= a < r.len() && 0 <= b < r.len() && a != b implies r[a].0 != r[b].0 by {
                if a == e.len() {
                    assert(!m.contains_key(k));
                    if r[b].0 == k {
                        assert(m.contains_key(k));
                    }
                } else if b == e.len() {
                    if r[a].0 == k {
                        assert(m.contains_key(k));
                    }
                }
            }
            assert forall|key: K| #[trigger] self@.contains_key(key) <==> m.insert(k, v).contains_key(key) by {
                if self@.contains_key(key) && key != k {
                    let a = choose|a: int| 0 <= a < r.len() && r[a].0 == key;
                    assert(a < e.len());
                    assert(e[a].0 == key);
                }
                if m.contains_key(key) {
                    let a = choose|a: int| 0 <= a < e.len() && e[a].0 == key;
                    assert(r[a].0 == key);
                }
                if key == k {
                    assert(r[e.len() as int].0 == key);
                }
            }
            assert forall|key: K| #[trigger] self@.contains_key(key) implies self@[key] == m.insert(k, v)[key] by {
                let a = choose|a: int| 0 <= a < r.len() && r[a].0 == key;
                if key == k {
                    assert(r[e.len() as int].0 == key);
                    assert(a == e.len());
                } else {
                    assert(a < e.len());
                    let b = choose|b: int| 0 <= b < e.len() && e[b].0 == key;
                    assert(r[b].0 == key);
                    assert(a == b);
                }
            }
            assert(self@ =~= m.insert(k, v));
        }
        old_value
    }
}

} // verus!
