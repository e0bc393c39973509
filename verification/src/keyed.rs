//! Collections keyed by text, kept in the order of their keys.

use vstd::prelude::*;

use crate::text;

verus! {

// ---- the model ---------------------------------------------------------------------------------

/// Whether the keys of `m` ascend, which also means that no key occurs twice.
pub open spec fn ascending<T>(m: Seq<(Seq<char>, T)>) -> bool {
    forall|i: int, j: int| 0 <= i < j < m.len() ==> text::before((#[trigger] m[i]).0, (#[trigger] m[j]).0)
}

/// The value that `m` holds under `key`.
pub open spec fn lookup<T>(m: Seq<(Seq<char>, T)>, key: Seq<char>) -> Option<T>
    decreases m.len(),
{
    if m.len() == 0 {
        None
    } else if m[0].0 == key {
        Some(m[0].1)
    } else {
        lookup(m.drop_first(), key)
    }
}

/// Whether `m` holds `key`.
pub open spec fn has<T>(m: Seq<(Seq<char>, T)>, key: Seq<char>) -> bool {
    lookup(m, key) is Some
}

/// `m` with `value` under `key`, at the key's place in the order.
pub open spec fn put<T>(m: Seq<(Seq<char>, T)>, key: Seq<char>, value: T) -> Seq<(Seq<char>, T)>
    decreases m.len(),
{
    if m.len() == 0 || text::before(key, m[0].0) {
        seq![(key, value)] + m
    } else if m[0].0 == key {
        m.update(0, (key, value))
    } else {
        seq![m[0]] + put(m.drop_first(), key, value)
    }
}

/// What is found under a key after [`put`]: the new value under its own key, the old one elsewhere.
pub proof fn lookup_put<T>(m: Seq<(Seq<char>, T)>, key: Seq<char>, value: T, k: Seq<char>)
    ensures
        lookup(put(m, key, value), k) == if k == key {
            Some(value)
        } else {
            lookup(m, k)
        },
    decreases m.len(),
{
    let n = put(m, key, value);
    if m.len() == 0 || text::before(key, m[0].0) {
        assert(n.drop_first() =~= m);
    } else if m[0].0 == key {
        assert(n.drop_first() =~= m.drop_first());
    } else {
        assert(n.drop_first() =~= put(m.drop_first(), key, value));
        lookup_put(m.drop_first(), key, value, k);
    }
}

/// A key is found where an entry holds it.
pub proof fn lookup_at<T>(m: Seq<(Seq<char>, T)>, i: int)
    requires
        ascending(m),
        0 <= i < m.len(),
    ensures
        lookup(m, m[i].0) == Some(m[i].1),
    decreases m.len(),
{
    if i > 0 {
        text::before_irreflexive(m[0].0);
        assert(text::before(m[0].0, m[i].0));
        let rest = m.drop_first();
        assert forall|a: int, b: int| 0 <= a < b < rest.len() implies text::before(
            (#[trigger] rest[a]).0,
            (#[trigger] rest[b]).0,
        ) by {
            assert(text::before(m[a + 1].0, m[b + 1].0));
        }
        lookup_at(rest, i - 1);
        assert(rest[i - 1] == m[i]);
    }
}

/// What is found was put there.
pub proof fn lookup_some<T>(m: Seq<(Seq<char>, T)>, key: Seq<char>) -> (i: int)
    requires
        has(m, key),
    ensures
        0 <= i < m.len(),
        m[i].0 == key,
        lookup(m, key) == Some(m[i].1),
    decreases m.len(),
{
    if m[0].0 == key {
        0
    } else {
        let i = lookup_some(m.drop_first(), key);
        assert(m.drop_first()[i] == m[i + 1]);
        i + 1
    }
}

/// Every key of [`put`]'s result is the new key or an old one.
proof fn put_keys<T>(m: Seq<(Seq<char>, T)>, key: Seq<char>, value: T)
    ensures
        forall|i: int| 0 <= i < put(m, key, value).len() ==> (#[trigger] put(m, key, value)[i]).0
            == key || exists|j: int| 0 <= j < m.len() && (#[trigger] m[j]).0 == put(m, key, value)[i].0,
    decreases m.len(),
{
    let n = put(m, key, value);
    assert forall|i: int| 0 <= i < n.len() implies (#[trigger] n[i]).0 == key || exists|j: int|
        0 <= j < m.len() && (#[trigger] m[j]).0 == n[i].0 by {
        if m.len() == 0 || text::before(key, m[0].0) {
            if i > 0 {
                assert(m[i - 1] == n[i]);
            }
        } else if m[0].0 == key {
            if i > 0 {
                assert(m[i] == n[i]);
            }
        } else {
            let rest = m.drop_first();
            put_keys(rest, key, value);
            if i == 0 {
                assert(m[0] == n[0]);
            } else {
                let r = put(rest, key, value);
                assert(r[i - 1] == n[i]);
                if r[i - 1].0 != key {
                    let j = choose|j: int| 0 <= j < rest.len() && (#[trigger] rest[j]).0 == r[i - 1].0;
                    assert(m[j + 1] == rest[j]);
                }
            }
        }
    }
}

/// [`put`] keeps the order of the keys.
pub proof fn put_ascending<T>(m: Seq<(Seq<char>, T)>, key: Seq<char>, value: T)
    requires
        ascending(m),
    ensures
        ascending(put(m, key, value)),
    decreases m.len(),
{
    let n = put(m, key, value);
    if m.len() == 0 {
    } else if text::before(key, m[0].0) {
        assert forall|i: int, j: int| 0 <= i < j < n.len() implies text::before(
            (#[trigger] n[i]).0,
            (#[trigger] n[j]).0,
        ) by {
            if i == 0 {
                if j > 1 {
                    assert(text::before(m[0].0, m[j - 1].0));
                    text::before_transitive(key, m[0].0, m[j - 1].0);
                }
                assert(n[j] == m[j - 1]);
            } else {
                assert(n[i] == m[i - 1] && n[j] == m[j - 1]);
            }
        }
    } else if m[0].0 == key {
        assert forall|i: int, j: int| 0 <= i < j < n.len() implies text::before(
            (#[trigger] n[i]).0,
            (#[trigger] n[j]).0,
        ) by {
            assert(n[i].0 == m[i].0 && n[j].0 == m[j].0);
        }
    } else {
        let rest = m.drop_first();
        let r = put(rest, key, value);
        assert forall|a: int, b: int| 0 <= a < b < rest.len() implies text::before(
            (#[trigger] rest[a]).0,
            (#[trigger] rest[b]).0,
        ) by {
            assert(text::before(m[a + 1].0, m[b + 1].0));
        }
        put_ascending(rest, key, value);
        put_keys(rest, key, value);
        text::before_total(key, m[0].0);
        assert forall|i: int, j: int| 0 <= i < j < n.len() implies text::before(
            (#[trigger] n[i]).0,
            (#[trigger] n[j]).0,
        ) by {
            assert(n[j] == r[j - 1]);
            if i > 0 {
                assert(n[i] == r[i - 1]);
            } else {
                if r[j - 1].0 != key {
                    let k = choose|k: int| 0 <= k < rest.len() && (#[trigger] rest[k]).0 == r[j - 1].0;
                    assert(text::before(m[0].0, m[k + 1].0));
                    assert(m[k + 1] == rest[k]);
                }
            }
        }
    }
}

/// Two collections in key order that hold the same under every key are the same.
pub proof fn same_lookup_same<T>(a: Seq<(Seq<char>, T)>, b: Seq<(Seq<char>, T)>)
    requires
        ascending(a),
        ascending(b),
        forall|k: Seq<char>| #[trigger] lookup(a, k) == lookup(b, k),
    ensures
        a == b,
    decreases a.len(),
{
    if a.len() == 0 {
        if b.len() > 0 {
            lookup_at(b, 0);
            assert(lookup(a, b[0].0) is None);
        }
        assert(a =~= b);
    } else if b.len() == 0 {
        lookup_at(a, 0);
        assert(lookup(b, a[0].0) is None);
    } else {
        lookup_at(a, 0);
        lookup_at(b, 0);
        assert(has(b, a[0].0));
        assert(has(a, b[0].0));
        let i = lookup_some(b, a[0].0);
        let j = lookup_some(a, b[0].0);
        if a[0].0 != b[0].0 {
            assert(text::before(b[0].0, b[i].0));
            assert(text::before(a[0].0, a[j].0));
            text::before_total(a[0].0, b[0].0);
        }
        let x = a.drop_first();
        let y = b.drop_first();
        assert forall|s: int, t: int| 0 <= s < t < x.len() implies text::before(
            (#[trigger] x[s]).0,
            (#[trigger] x[t]).0,
        ) by {
            assert(text::before(a[s + 1].0, a[t + 1].0));
        }
        assert forall|s: int, t: int| 0 <= s < t < y.len() implies text::before(
            (#[trigger] y[s]).0,
            (#[trigger] y[t]).0,
        ) by {
            assert(text::before(b[s + 1].0, b[t + 1].0));
        }
        assert forall|k: Seq<char>| #[trigger] lookup(x, k) == lookup(y, k) by {
            assert(lookup(a, k) == lookup(b, k));
            if k == a[0].0 {
                if has(x, k) {
                    let p = lookup_some(x, k);
                    assert(text::before(a[0].0, a[p + 1].0));
                    text::before_irreflexive(k);
                }
                if has(y, k) {
                    let p = lookup_some(y, k);
                    assert(text::before(b[0].0, b[p + 1].0));
                    text::before_irreflexive(k);
                }
            }
        }
        same_lookup_same(x, y);
        assert(a =~= seq![a[0]] + x);
        assert(b =~= seq![b[0]] + y);
    }
}

/// The entries of `m` whose keys satisfy `keep`.
pub open spec fn kept<T>(m: Seq<(Seq<char>, T)>, keep: spec_fn(Seq<char>) -> bool) -> Seq<
    (Seq<char>, T),
>
    decreases m.len(),
{
    if m.len() == 0 {
        Seq::empty()
    } else if keep(m[0].0) {
        seq![m[0]] + kept(m.drop_first(), keep)
    } else {
        kept(m.drop_first(), keep)
    }
}

/// Every key but one.
pub open spec fn other_than(key: Seq<char>) -> spec_fn(Seq<char>) -> bool {
    |k: Seq<char>| k != key
}

/// Each of these keys.
pub open spec fn one_of(keys: Seq<Seq<char>>) -> spec_fn(Seq<char>) -> bool {
    |k: Seq<char>| keys.contains(k)
}

/// `m` without the entry under `key`.
pub open spec fn without<T>(m: Seq<(Seq<char>, T)>, key: Seq<char>) -> Seq<(Seq<char>, T)> {
    kept(m, other_than(key))
}

/// The entries of `m` under these keys.
pub open spec fn within<T>(m: Seq<(Seq<char>, T)>, keys: Seq<Seq<char>>) -> Seq<(Seq<char>, T)> {
    kept(m, one_of(keys))
}

/// What is found under a key that is kept is what was there; nothing is found under another.
pub proof fn lookup_kept<T>(m: Seq<(Seq<char>, T)>, keep: spec_fn(Seq<char>) -> bool, k: Seq<char>)
    ensures
        lookup(kept(m, keep), k) == if keep(k) {
            lookup(m, k)
        } else {
            None
        },
    decreases m.len(),
{
    if m.len() > 0 {
        let rest = m.drop_first();
        lookup_kept(rest, keep, k);
        if keep(m[0].0) {
            assert(kept(m, keep).drop_first() =~= kept(rest, keep));
        }
    }
}

/// What is found once a key is dropped: nothing under it, the same elsewhere.
pub proof fn lookup_without<T>(m: Seq<(Seq<char>, T)>, key: Seq<char>, k: Seq<char>)
    ensures
        lookup(without(m, key), k) == if k == key {
            None
        } else {
            lookup(m, k)
        },
{
    lookup_kept(m, other_than(key), k);
}

// ---- the map -----------------------------------------------------------------------------------

/// A map from text to `V` whose entries stand in the order of their keys.
pub struct TextMap<V> {
    entries: Vec<(String, V)>,
}

impl<V: View> View for TextMap<V> {
    type V = Seq<(Seq<char>, V::V)>;

    closed spec fn view(&self) -> Seq<(Seq<char>, V::V)> {
        Seq::new(self.entries@.len(), |i: int| (self.entries@[i].0@, self.entries@[i].1@))
    }
}

impl<V> TextMap<V> {
    #[verifier::type_invariant]
    spec fn in_order(self) -> bool {
        forall|i: int, j: int|
            0 <= i < j < self.entries@.len() ==> text::before(
                (#[trigger] self.entries@[i]).0@,
                (#[trigger] self.entries@[j]).0@,
            )
    }
}

impl<V: View> TextMap<V> {
    /// The empty map.
    pub fn new() -> (r: TextMap<V>)
        ensures
            r@ == Seq::<(Seq<char>, V::V)>::empty(),
    {
        let r = TextMap { entries: Vec::new() };
        assert(r@ =~= Seq::<(Seq<char>, V::V)>::empty());
        r
    }

    /// The number of entries; their keys ascend.
    pub fn len(&self) -> (r: usize)
        ensures
            r == self@.len(),
            ascending(self@),
    {
        proof {
            use_type_invariant(self);
        }
        self.entries.len()
    }

    /// The key at place `i` in the order.
    pub fn key_at(&self, i: usize) -> (r: &String)
        requires
            i < self@.len(),
        ensures
            r@ == self@[i as int].0,
    {
        &self.entries[i].0
    }

    /// The value at place `i` in the order.
    pub fn value_at(&self, i: usize) -> (r: &V)
        requires
            i < self@.len(),
        ensures
            r@ == self@[i as int].1,
    {
        &self.entries[i].1
    }

    /// The value under `key`.
    pub fn get(&self, key: &str) -> (r: Option<&V>)
        ensures
            match r {
                Some(v) => lookup(self@, key@) == Some(v@),
                None => lookup(self@, key@) is None,
            },
    {
        let mut i: usize = 0;
        assert(self@.skip(0) =~= self@);
        while i < self.entries.len()
            invariant
                i <= self.entries.len(),
                self@.len() == self.entries.len(),
                lookup(self@, key@) == lookup(self@.skip(i as int), key@),
            decreases self.entries.len() - i,
        {
            assert(self@.skip(i as int)[0] == self@[i as int]);
            if text::same(&self.entries[i].0, key) {
                return Some(&self.entries[i].1);
            }
            assert(self@.skip(i as int).drop_first() =~= self@.skip(i + 1));
            i = i + 1;
        }
        None
    }

    /// Whether there is an entry under `key`.
    pub fn contains_key(&self, key: &str) -> (r: bool)
        ensures
            r == has(self@, key@),
    {
        self.get(key).is_some()
    }

    /// Put `value` under `key`, in place of what was there.
    pub fn insert(&mut self, key: String, value: V)
        ensures
            final(self)@ == put(old(self)@, key@, value@),
    {
        proof {
            use_type_invariant(&*self);
        }
        let ghost before_all = self@;
        let mut entries: Vec<(String, V)> = Vec::new();
        std::mem::swap(&mut entries, &mut self.entries);
        let ghost m = Seq::new(entries@.len(), |i: int| (entries@[i].0@, entries@[i].1@));
        assert(m =~= before_all);
        let mut i: usize = 0;
        assert(m.skip(0) =~= m);
        assert(m.take(0) + put(m.skip(0), key@, value@) =~= put(m, key@, value@));
        while i < entries.len() && text::is_before(&entries[i].0, &key)
            invariant
                i <= entries.len(),
                m.len() == entries.len(),
                forall|k: int|
                    0 <= k < m.len() ==> (#[trigger] m[k]) == (entries@[k].0@, entries@[k].1@),
                forall|k: int| 0 <= k < i ==> text::before((#[trigger] m[k]).0, key@),
                put(m, key@, value@) == m.take(i as int) + put(m.skip(i as int), key@, value@),
            decreases entries.len() - i,
        {
            proof {
                let s = m.skip(i as int);
                assert(s[0] == m[i as int]);
                text::before_total(s[0].0, key@);
                text::before_irreflexive(key@);
                assert(s.drop_first() =~= m.skip(i + 1));
                assert(m.take(i as int) + (seq![s[0]] + put(s.drop_first(), key@, value@))
                    =~= m.take(i + 1) + put(m.skip(i + 1), key@, value@));
            }
            i = i + 1;
        }
        let ghost s = m.skip(i as int);
        proof {
            put_ascending(m, key@, value@);
            if i < entries.len() {
                assert(s[0] == m[i as int]);
                text::before_total(s[0].0, key@);
            }
        }
        let ghost target = put(m, key@, value@);
        if i < entries.len() && text::same(&entries[i].0, &key) {
            proof {
                text::before_irreflexive(key@);
                assert(target =~= m.update(i as int, (key@, value@)));
            }
            let ghost prior = entries@;
            entries.set(i, (key, value));
            assert(forall|k: int|
                0 <= k < target.len() ==> (#[trigger] target[k]) == (entries@[k].0@, entries@[k].1@));
        } else {
            proof {
                if i < entries.len() {
                    assert(text::before(key@, s[0].0));
                } else {
                    assert(s.len() == 0);
                }
                assert(target =~= m.insert(i as int, (key@, value@)));
            }
            entries.insert(i, (key, value));
            assert(forall|k: int|
                0 <= k < target.len() ==> (#[trigger] target[k]) == (entries@[k].0@, entries@[k].1@));
        }
        proof {
            assert forall|a: int, b: int| 0 <= a < b < entries@.len() implies text::before(
                (#[trigger] entries@[a]).0@,
                (#[trigger] entries@[b]).0@,
            ) by {
                assert(text::before(target[a].0, target[b].0));
            }
        }
        self.entries = entries;
        assert(self@ =~= target);
    }

    /// Drop the entry under `key`.
    pub fn remove(&mut self, key: &str)
        ensures
            final(self)@ == without(old(self)@, key@),
    {
        let ghost keep = other_than(key@);
        let mut entries = self.taken();
        let ghost m = Seq::new(entries@.len(), |i: int| (entries@[i].0@, entries@[i].1@));
        let mut i: usize = 0;
        let ghost mut j: int = 0;
        assert(m.skip(0) =~= m);
        while i < entries.len()
            invariant
                0 <= j <= m.len(),
                i <= entries.len(),
                entries.len() - i == m.len() - j,
                ordered(entries@),
                keep == other_than(key@),
                forall|k: int| i <= k < entries@.len() ==> ((#[trigger] entries@[k]).0@, entries@[k].1@)
                    == m[k - i + j],
                kept(m, keep) == viewed(entries@).take(i as int) + kept(m.skip(j), keep),
            decreases entries.len() - i,
        {
            let ghost prior = entries@;
            proof {
                assert(m.skip(j)[0] == m[j]);
                assert(m.skip(j).drop_first() =~= m.skip(j + 1));
                assert((entries@[i as int].0@, entries@[i as int].1@) == m[j]);
            }
            if text::same(&entries[i].0, key) {
                entries.remove(i);
                proof {
                    removal_keeps_order(prior, i as int);
                    assert(viewed(entries@).take(i as int) =~= viewed(prior).take(i as int));
                }
            } else {
                proof {
                    assert(viewed(prior).take(i as int) + (seq![m[j]] + kept(m.skip(j + 1), keep))
                        =~= viewed(prior).take(i + 1) + kept(m.skip(j + 1), keep));
                }
                i = i + 1;
            }
            proof {
                j = j + 1;
            }
        }
        proof {
            assert(m.skip(j) =~= Seq::empty());
            assert(viewed(entries@).take(i as int) + kept(m.skip(j), keep) =~= viewed(entries@));
        }
        self.entries = entries;
        assert(self@ =~= viewed(self.entries@));
    }

    /// Keep the entries under these keys only.
    pub fn retain(&mut self, keys: &TextSet)
        ensures
            final(self)@ == within(old(self)@, keys@),
    {
        let ghost keep = one_of(keys@);
        let mut entries = self.taken();
        let ghost m = Seq::new(entries@.len(), |i: int| (entries@[i].0@, entries@[i].1@));
        let mut i: usize = 0;
        let ghost mut j: int = 0;
        assert(m.skip(0) =~= m);
        while i < entries.len()
            invariant
                0 <= j <= m.len(),
                i <= entries.len(),
                entries.len() - i == m.len() - j,
                ordered(entries@),
                keep == one_of(keys@),
                forall|k: int| i <= k < entries@.len() ==> ((#[trigger] entries@[k]).0@, entries@[k].1@)
                    == m[k - i + j],
                kept(m, keep) == viewed(entries@).take(i as int) + kept(m.skip(j), keep),
            decreases entries.len() - i,
        {
            let ghost prior = entries@;
            proof {
                assert(m.skip(j)[0] == m[j]);
                assert(m.skip(j).drop_first() =~= m.skip(j + 1));
                assert((entries@[i as int].0@, entries@[i as int].1@) == m[j]);
            }
            if keys.contains(&entries[i].0) {
                proof {
                    assert(viewed(prior).take(i as int) + (seq![m[j]] + kept(m.skip(j + 1), keep))
                        =~= viewed(prior).take(i + 1) + kept(m.skip(j + 1), keep));
                }
                i = i + 1;
            } else {
                entries.remove(i);
                proof {
                    removal_keeps_order(prior, i as int);
                    assert(viewed(entries@).take(i as int) =~= viewed(prior).take(i as int));
                }
            }
            proof {
                j = j + 1;
            }
        }
        proof {
            assert(m.skip(j) =~= Seq::empty());
            assert(viewed(entries@).take(i as int) + kept(m.skip(j), keep) =~= viewed(entries@));
        }
        self.entries = entries;
        assert(self@ =~= viewed(self.entries@));
    }

    /// Take the entries out.
    fn taken(&mut self) -> (r: Vec<(String, V)>)
        ensures
            viewed(r@) == old(self)@,
            ordered(r@),
    {
        proof {
            use_type_invariant(&*self);
        }
        let mut entries: Vec<(String, V)> = Vec::new();
        std::mem::swap(&mut entries, &mut self.entries);
        assert(viewed(entries@) =~= old(self)@);
        entries
    }
}

/// What a row of entries holds.
spec fn viewed<V: View>(entries: Seq<(String, V)>) -> Seq<(Seq<char>, V::V)> {
    Seq::new(entries.len(), |i: int| (entries[i].0@, entries[i].1@))
}

/// Whether the keys of a row of entries ascend.
spec fn ordered<V>(entries: Seq<(String, V)>) -> bool {
    forall|i: int, j: int|
        0 <= i < j < entries.len() ==> text::before(
            (#[trigger] entries[i]).0@,
            (#[trigger] entries[j]).0@,
        )
}

proof fn removal_keeps_order<V>(entries: Seq<(String, V)>, at: int)
    requires
        ordered(entries),
        0 <= at < entries.len(),
    ensures
        ordered(entries.remove(at)),
{
    let n = entries.remove(at);
    assert forall|i: int, j: int| 0 <= i < j < n.len() implies text::before(
        (#[trigger] n[i]).0@,
        (#[trigger] n[j]).0@,
    ) by {
        let a = if i < at {
            i
        } else {
            i + 1
        };
        let b = if j < at {
            j
        } else {
            j + 1
        };
        assert(n[i] == entries[a] && n[j] == entries[b]);
    }
}

// ---- the set -----------------------------------------------------------------------------------

/// The keys of `m`.
pub open spec fn keys<T>(m: Seq<(Seq<char>, T)>) -> Seq<Seq<char>> {
    m.map_values(|e: (Seq<char>, T)| e.0)
}

/// A key is among the keys exactly when something is found under it.
pub proof fn has_is_contains<T>(m: Seq<(Seq<char>, T)>, key: Seq<char>)
    ensures
        has(m, key) == keys(m).contains(key),
    decreases m.len(),
{
    if m.len() > 0 {
        let rest = m.drop_first();
        has_is_contains(rest, key);
        assert(keys(m)[0] == m[0].0);
        if has(m, key) {
            let i = lookup_some(m, key);
            assert(keys(m)[i] == key);
        }
        if keys(m).contains(key) && m[0].0 != key {
            let i = choose|i: int| 0 <= i < keys(m).len() && keys(m)[i] == key;
            assert(keys(rest)[i - 1] == key);
        }
    }
}

/// `s` with `key` at its place in the order, where it is not there yet.
pub open spec fn added(s: Seq<Seq<char>>, key: Seq<char>) -> Seq<Seq<char>>
    decreases s.len(),
{
    if s.len() == 0 || text::before(key, s[0]) {
        seq![key] + s
    } else if s[0] == key {
        s
    } else {
        seq![s[0]] + added(s.drop_first(), key)
    }
}

/// The members once one is added: it, and those that were there.
pub proof fn added_contains(s: Seq<Seq<char>>, key: Seq<char>, k: Seq<char>)
    ensures
        added(s, key).contains(k) == (k == key || s.contains(k)),
    decreases s.len(),
{
    let n = added(s, key);
    if s.len() == 0 || text::before(key, s[0]) {
        assert(n[0] == key);
        if s.contains(k) {
            let i = choose|i: int| 0 <= i < s.len() && s[i] == k;
            assert(n[i + 1] == k);
        }
        if n.contains(k) && k != key {
            let i = choose|i: int| 0 <= i < n.len() && n[i] == k;
            assert(s[i - 1] == k);
        }
    } else if s[0] == key {
    } else {
        let rest = s.drop_first();
        let r = added(rest, key);
        added_contains(rest, key, k);
        assert(n[0] == s[0]);
        if s.contains(k) && k != s[0] {
            let i = choose|i: int| 0 <= i < s.len() && s[i] == k;
            assert(rest[i - 1] == k);
        }
        if r.contains(k) {
            let i = choose|i: int| 0 <= i < r.len() && r[i] == k;
            assert(n[i + 1] == k);
        }
        if n.contains(k) && k != s[0] {
            let i = choose|i: int| 0 <= i < n.len() && n[i] == k;
            assert(r[i - 1] == k);
        }
        if rest.contains(k) {
            let i = choose|i: int| 0 <= i < rest.len() && rest[i] == k;
            assert(s[i + 1] == k);
        }
    }
}

/// Adding a member makes a set at most one larger, and never smaller.
pub proof fn added_grows(s: Seq<Seq<char>>, key: Seq<char>)
    ensures
        s.len() <= added(s, key).len() <= s.len() + 1,
    decreases s.len(),
{
    if s.len() > 0 && !text::before(key, s[0]) && s[0] != key {
        added_grows(s.drop_first(), key);
    }
}

/// Adding a member twice is adding it once.
pub proof fn added_twice(s: Seq<Seq<char>>, key: Seq<char>)
    ensures
        added(added(s, key), key) == added(s, key),
    decreases s.len(),
{
    let n = added(s, key);
    text::before_irreflexive(key);
    if s.len() > 0 && !text::before(key, s[0]) && s[0] != key {
        added_twice(s.drop_first(), key);
        assert(n[0] == s[0]);
        assert(n.drop_first() =~= added(s.drop_first(), key));
    } else if s.len() > 0 && s[0] == key {
    } else {
        assert(n[0] == key);
    }
}

proof fn keys_put(m: Seq<(Seq<char>, ())>, key: Seq<char>)
    ensures
        keys(put(m, key, ())) == added(keys(m), key),
    decreases m.len(),
{
    let n = put(m, key, ());
    if m.len() > 0 {
        assert(keys(m)[0] == m[0].0);
    }
    if m.len() == 0 || text::before(key, m[0].0) {
        assert(keys(n) =~= seq![key] + keys(m));
    } else if m[0].0 == key {
        assert(keys(n) =~= keys(m));
    } else {
        keys_put(m.drop_first(), key);
        assert(keys(m.drop_first()) =~= keys(m).drop_first());
        assert(keys(n) =~= seq![m[0].0] + keys(put(m.drop_first(), key, ())));
    }
}

/// The texts of `s` in their order, each once.
pub open spec fn collected(s: Seq<Seq<char>>) -> Seq<Seq<char>>
    decreases s.len(),
{
    if s.len() == 0 {
        Seq::empty()
    } else {
        added(collected(s.drop_last()), s.last())
    }
}

/// Collecting keeps what a row holds.
pub proof fn collected_contains(s: Seq<Seq<char>>, k: Seq<char>)
    ensures
        collected(s).contains(k) == s.contains(k),
    decreases s.len(),
{
    if s.len() > 0 {
        let rest = s.drop_last();
        collected_contains(rest, k);
        added_contains(collected(rest), s.last(), k);
        assert(s =~= rest.push(s.last()));
        text::push_contains(rest, s.last(), k);
    }
}

/// A set of texts in their order.
pub struct TextSet {
    members: TextMap<()>,
}

impl View for TextSet {
    type V = Seq<Seq<char>>;

    closed spec fn view(&self) -> Seq<Seq<char>> {
        keys(self.members@)
    }
}

impl TextSet {
    /// The empty set.
    pub fn new() -> (r: TextSet)
        ensures
            r@ == Seq::<Seq<char>>::empty(),
    {
        let r = TextSet { members: TextMap::new() };
        assert(r@ =~= Seq::<Seq<char>>::empty());
        r
    }

    /// The same set again.
    pub fn duplicate(&self) -> (r: TextSet)
        ensures
            r@ == self@,
    {
        proof {
            use_type_invariant(&self.members);
        }
        let ghost m = self.members.entries@;
        let mut entries: Vec<(String, ())> = Vec::new();
        let mut i: usize = 0;
        while i < self.members.entries.len()
            invariant
                i <= m.len(),
                m == self.members.entries@,
                entries.len() == i,
                forall|k: int| 0 <= k < i ==> (#[trigger] entries@[k]).0@ == m[k].0@,
            decreases m.len() - i,
        {
            entries.push((self.members.entries[i].0.clone(), ()));
            i = i + 1;
        }
        proof {
            assert forall|a: int, b: int| 0 <= a < b < entries@.len() implies text::before(
                (#[trigger] entries@[a]).0@,
                (#[trigger] entries@[b]).0@,
            ) by {
                assert(text::before(m[a].0@, m[b].0@));
            }
        }
        let r = TextSet { members: TextMap { entries } };
        assert(r@ =~= self@);
        r
    }

    /// The number of members.
    pub fn len(&self) -> (r: usize)
        ensures
            r == self@.len(),
    {
        self.members.len()
    }

    /// The member at place `i` in the order.
    pub fn at(&self, i: usize) -> (r: &String)
        requires
            i < self@.len(),
        ensures
            r@ == self@[i as int],
    {
        self.members.key_at(i)
    }

    /// The members in their order.
    pub fn to_texts(&self) -> (r: Vec<String>)
        ensures
            text::texts(r@) == self@,
    {
        let mut out: Vec<String> = Vec::new();
        let mut i: usize = 0;
        while i < self.len()
            invariant
                i <= self@.len(),
                text::texts(out@) == self@.take(i as int),
            decreases self@.len() - i,
        {
            let ghost prior = out@;
            out.push(self.at(i).clone());
            assert(text::texts(out@) =~= text::texts(prior).push(self@[i as int]));
            assert(self@.take(i + 1) =~= self@.take(i as int).push(self@[i as int]));
            i = i + 1;
        }
        assert(self@.take(self@.len() as int) =~= self@);
        out
    }

    /// Whether `key` is a member.
    pub fn contains(&self, key: &str) -> (r: bool)
        ensures
            r == self@.contains(key@),
    {
        proof {
            has_is_contains(self.members@, key@);
        }
        self.members.contains_key(key)
    }

    /// Add a member.
    pub fn insert(&mut self, key: String)
        ensures
            final(self)@ == added(old(self)@, key@),
    {
        proof {
            keys_put(self.members@, key@);
        }
        self.members.insert(key, ());
    }
}

} // verus!
