//! A map from text to values that is walked in the order of its keys.
use vstd::prelude::*;
use vstd::string::*;

verus! {

/// `a` comes before `b` in the order of their characters' code points.
pub open spec fn text_before(a: Seq<char>, b: Seq<char>) -> bool
    decreases a.len(),
{
    if b.len() == 0 {
        false
    } else if a.len() == 0 {
        true
    } else if a[0] != b[0] {
        a[0] < b[0]
    } else {
        text_before(a.drop_first(), b.drop_first())
    }
}

pub proof fn lemma_text_before_irreflexive(a: Seq<char>)
    ensures
        !text_before(a, a),
    decreases a.len(),
{
    if a.len() > 0 {
        lemma_text_before_irreflexive(a.drop_first());
    }
}

pub proof fn lemma_text_before_transitive(a: Seq<char>, b: Seq<char>, c: Seq<char>)
    requires
        text_before(a, b),
        text_before(b, c),
    ensures
        text_before(a, c),
    decreases a.len(),
{
    if a.len() > 0 && b.len() > 0 && c.len() > 0 && a[0] == b[0] && b[0] == c[0] {
        lemma_text_before_transitive(a.drop_first(), b.drop_first(), c.drop_first());
    }
}

pub proof fn lemma_text_before_total(a: Seq<char>, b: Seq<char>)
    ensures
        a == b || text_before(a, b) || text_before(b, a),
    decreases a.len(),
{
    if a.len() > 0 && b.len() > 0 {
        if a[0] == b[0] {
            lemma_text_before_total(a.drop_first(), b.drop_first());
            if a.drop_first() == b.drop_first() {
                assert(a =~= seq![a[0]] + a.drop_first());
                assert(b =~= seq![b[0]] + b.drop_first());
            }
        }
    } else if a.len() == 0 && b.len() == 0 {
        assert(a =~= b);
    }
}

/// Tells whether `a` comes before `b`.
pub fn is_before(a: &str, b: &str) -> (r: bool)
    ensures
        r == text_before(a@, b@),
{
    let n = a.unicode_len();
    let m = b.unicode_len();
    let mut i: usize = 0;
    proof {
        assert(a@.skip(0) =~= a@);
        assert(b@.skip(0) =~= b@);
    }
    while i < n && i < m
        invariant
            n == a@.len(),
            m == b@.len(),
            i <= n,
            i <= m,
            text_before(a@, b@) == text_before(a@.skip(i as int), b@.skip(i as int)),
        decreases n - i,
    {
        let x = a.get_char(i);
        let y = b.get_char(i);
        proof {
            assert(a@.skip(i as int).drop_first() =~= a@.skip(i + 1));
            assert(b@.skip(i as int).drop_first() =~= b@.skip(i + 1));
        }
        if x != y {
            return x < y;
        }
        i = i + 1;
    }
    i < m
}

/// The keys stand in ascending order, each of them once.
pub open spec fn ascending(keys: Seq<Seq<char>>) -> bool {
    forall|i: int, j: int|
        0 <= i < j < keys.len() ==> text_before(#[trigger] keys[i], #[trigger] keys[j])
}

/// The keys of the entries.
pub open spec fn keys_of<V>(entries: Seq<(Seq<char>, V)>) -> Seq<Seq<char>> {
    Seq::new(entries.len(), |i: int| entries[i].0)
}

/// The entries with `value` under `key`, in place of what stood there before.
pub open spec fn inserted<V>(entries: Seq<(Seq<char>, V)>, key: Seq<char>, value: V) -> Seq<
    (Seq<char>, V),
>
    decreases entries.len(),
{
    if entries.len() == 0 {
        seq![(key, value)]
    } else if text_before(entries[0].0, key) {
        seq![entries[0]] + inserted(entries.drop_first(), key, value)
    } else if entries[0].0 == key {
        seq![(key, value)] + entries.drop_first()
    } else {
        seq![(key, value)] + entries
    }
}

/// The value under `key`.
pub open spec fn value_at<V>(entries: Seq<(Seq<char>, V)>, key: Seq<char>) -> Option<V>
    decreases entries.len(),
{
    if entries.len() == 0 {
        None
    } else if entries[0].0 == key {
        Some(entries[0].1)
    } else {
        value_at(entries.drop_first(), key)
    }
}

/// Where an entry comes to stand: behind the `p` entries whose keys come before it.
proof fn lemma_inserted_at<V>(
    entries: Seq<(Seq<char>, V)>,
    key: Seq<char>,
    value: V,
    p: int,
    found: bool,
)
    requires
        0 <= p <= entries.len(),
        forall|k: int| 0 <= k < p ==> text_before((#[trigger] entries[k]).0, key),
        found ==> p < entries.len() && entries[p].0 == key,
        !found && p < entries.len() ==> text_before(key, entries[p].0),
    ensures
        inserted(entries, key, value) == entries.take(p) + seq![(key, value)] + entries.skip(
            if found {
                p + 1
            } else {
                p
            },
        ),
    decreases p,
{
    let rest = entries.skip(
        if found {
            p + 1
        } else {
            p
        },
    );
    let wanted = entries.take(p) + seq![(key, value)] + rest;
    if p == 0 {
        if entries.len() > 0 {
            lemma_text_before_irreflexive(key);
            if text_before(entries[0].0, key) {
                if found {
                } else {
                    lemma_text_before_transitive(key, entries[0].0, key);
                }
            }
            assert(found ==> rest =~= entries.drop_first());
            assert(!found ==> rest =~= entries);
        }
        assert(inserted(entries, key, value) =~= wanted);
    } else {
        let tail = entries.drop_first();
        assert forall|k: int| 0 <= k < p - 1 implies text_before((#[trigger] tail[k]).0, key) by {
            assert(text_before(entries[k + 1].0, key));
        }
        lemma_inserted_at(tail, key, value, p - 1, found);
        assert(text_before(entries[0].0, key));
        let tail_rest = tail.skip(
            if found {
                p
            } else {
                p - 1
            },
        );
        assert(tail_rest =~= rest);
        assert(seq![entries[0]] + (tail.take(p - 1) + seq![(key, value)] + tail_rest) =~= wanted);
    }
}

/// A value that was put under a key is found there, every other key keeps its value, and the keys
/// stay in ascending order.
pub proof fn law_what_is_put_is_found<V>(
    entries: Seq<(Seq<char>, V)>,
    key: Seq<char>,
    value: V,
    other: Seq<char>,
)
    requires
        ascending(keys_of(entries)),
    ensures
        value_at(inserted(entries, key, value), other) == (if other == key {
            Some(value)
        } else {
            value_at(entries, other)
        }),
        ascending(keys_of(inserted(entries, key, value))),
    decreases entries.len(),
{
    let after = inserted(entries, key, value);
    lemma_text_before_irreflexive(key);
    reveal_with_fuel(value_at, 2);
    if entries.len() == 0 {
        assert(after.drop_first() =~= Seq::empty());
    } else {
        let head = entries[0];
        let tail = entries.drop_first();
        assert forall|i: int, j: int| 0 <= i < j < keys_of(tail).len() implies text_before(
            #[trigger] keys_of(tail)[i],
            #[trigger] keys_of(tail)[j],
        ) by {
            assert(text_before(keys_of(entries)[i + 1], keys_of(entries)[j + 1]));
        }
        assert forall|j: int| 0 <= j < tail.len() implies text_before(
            head.0,
            (#[trigger] tail[j]).0,
        ) by {
            assert(text_before(keys_of(entries)[0], keys_of(entries)[j + 1]));
        }
        law_what_is_put_is_found(tail, key, value, other);
        if text_before(head.0, key) {
            let rest = inserted(tail, key, value);
            assert(after.drop_first() =~= rest);
            lemma_inserted_keys(tail, key, value);
            assert forall|i: int, j: int| 0 <= i < j < keys_of(after).len() implies text_before(
                #[trigger] keys_of(after)[i],
                #[trigger] keys_of(after)[j],
            ) by {
                assert(keys_of(after)[j] == keys_of(rest)[j - 1]);
                if i > 0 {
                    assert(keys_of(after)[i] == keys_of(rest)[i - 1]);
                } else {
                    assert(rest[j - 1].0 == key || exists|m: int|
                        0 <= m < tail.len() && (#[trigger] tail[m]).0 == rest[j - 1].0);
                }
            }
        } else {
            lemma_text_before_total(head.0, key);
            if head.0 == key {
                assert(after.drop_first() =~= tail);
                assert forall|i: int, j: int|
                    0 <= i < j < keys_of(after).len() implies text_before(
                    #[trigger] keys_of(after)[i],
                    #[trigger] keys_of(after)[j],
                ) by {
                    assert(text_before(keys_of(entries)[i], keys_of(entries)[j]));
                }
            } else {
                assert(after.drop_first() =~= entries);
                assert forall|i: int, j: int|
                    0 <= i < j < keys_of(after).len() implies text_before(
                    #[trigger] keys_of(after)[i],
                    #[trigger] keys_of(after)[j],
                ) by {
                    if i > 0 {
                        assert(text_before(keys_of(entries)[i - 1], keys_of(entries)[j - 1]));
                    } else if j > 1 {
                        assert(text_before(keys_of(entries)[0], keys_of(entries)[j - 1]));
                        lemma_text_before_transitive(key, head.0, entries[j - 1].0);
                    }
                }
            }
        }
    }
}

/// The keys after an insertion are those before it and the new one.
proof fn lemma_inserted_keys<V>(entries: Seq<(Seq<char>, V)>, key: Seq<char>, value: V)
    ensures
        forall|j: int|
            0 <= j < inserted(entries, key, value).len() ==> (#[trigger] inserted(
                entries,
                key,
                value,
            )[j]).0 == key || exists|m: int|
                0 <= m < entries.len() && (#[trigger] entries[m]).0 == inserted(
                    entries,
                    key,
                    value,
                )[j].0,
    decreases entries.len(),
{
    let after = inserted(entries, key, value);
    if entries.len() > 0 {
        let tail = entries.drop_first();
        lemma_inserted_keys(tail, key, value);
        assert forall|j: int| 0 <= j < after.len() implies (#[trigger] after[j]).0 == key
            || exists|m: int| 0 <= m < entries.len() && (#[trigger] entries[m]).0 == after[j].0 by {
            if text_before(entries[0].0, key) {
                let rest = inserted(tail, key, value);
                if j == 0 {
                    assert(entries[0].0 == after[j].0);
                } else {
                    assert(after[j] == rest[j - 1]);
                    if rest[j - 1].0 != key {
                        let m = choose|m: int|
                            0 <= m < tail.len() && (#[trigger] tail[m]).0 == rest[j - 1].0;
                        assert(entries[m + 1].0 == after[j].0);
                    }
                }
            } else if entries[0].0 == key {
                if j > 0 {
                    assert(after[j] == entries[j]);
                }
            } else {
                if j > 0 {
                    assert(after[j] == entries[j - 1]);
                }
            }
        }
    }
}

/// Values by text key, walked in ascending order of the keys.
#[derive(Debug, PartialEq, Eq)]
pub struct TextMap<V> {
    entries: Vec<(String, V)>,
}

impl<V> TextMap<V> {
    /// The entries in the order in which they are walked.
    pub closed spec fn entries(self) -> Seq<(String, V)> {
        self.entries@
    }

    /// The keys in the order in which they are walked.
    pub open spec fn keys(self) -> Seq<Seq<char>> {
        Seq::new(self.entries().len(), |i: int| self.entries()[i].0@)
    }

    #[verifier::type_invariant]
    spec fn keys_ascend(self) -> bool {
        ascending(self.keys())
    }

    /// A map without entries.
    pub fn new() -> (r: Self)
        ensures
            r.entries() == Seq::<(String, V)>::empty(),
    {
        TextMap { entries: Vec::new() }
    }

    /// How many entries there are.
    pub fn len(&self) -> (n: usize)
        ensures
            n == self.entries().len(),
            ascending(self.keys()),
    {
        proof {
            use_type_invariant(self);
        }
        self.entries.len()
    }

    /// The entry at place `i` of the walk.
    pub fn entry(&self, i: usize) -> (r: &(String, V))
        requires
            i < self.entries().len(),
        ensures
            *r == self.entries()[i as int],
    {
        &self.entries[i]
    }

    /// The place of `key`, or where it would have to be put.
    fn place(&self, key: &str) -> (r: (bool, usize))
        ensures
            r.1 <= self.entries().len(),
            r.0 ==> r.1 < self.entries().len() && self.keys()[r.1 as int] == key@,
            !r.0 ==> !self.keys().contains(key@),
            forall|k: int| 0 <= k < r.1 ==> text_before(#[trigger] self.keys()[k], key@),
            forall|k: int|
                r.1 < k < self.entries().len() ==> text_before(key@, #[trigger] self.keys()[k]),
            !r.0 && r.1 < self.entries().len() ==> text_before(key@, self.keys()[r.1 as int]),
    {
        proof {
            use_type_invariant(self);
        }
        let mut i: usize = 0;
        while i < self.entries.len() && is_before(self.entries[i].0.as_str(), key)
            invariant
                i <= self.entries.len(),
                forall|k: int| 0 <= k < i ==> text_before(#[trigger] self.keys()[k], key@),
            decreases self.entries.len() - i,
        {
            assert(self.keys()[i as int] == self.entries@[i as int].0@);
            i = i + 1;
        }
        if i == self.entries.len() {
            proof {
                if self.keys().contains(key@) {
                    let k = choose|k: int|
                        0 <= k < self.keys().len() && self.keys()[k] == key@;
                    assert(text_before(self.keys()[k], key@));
                    lemma_text_before_irreflexive(key@);
                }
            }
            return (false, i);
        }
        let found = !is_before(key, self.entries[i].0.as_str());
        proof {
            let here = self.keys()[i as int];
            assert(here == self.entries@[i as int].0@);
            lemma_text_before_total(here, key@);
            assert forall|k: int| i < k < self.entries().len() implies text_before(
                key@,
                #[trigger] self.keys()[k],
            ) by {
                assert(text_before(here, self.keys()[k]));
                if !found {
                    lemma_text_before_transitive(key@, here, self.keys()[k]);
                }
            }
            if !found && self.keys().contains(key@) {
                let k = choose|k: int| 0 <= k < self.keys().len() && self.keys()[k] == key@;
                lemma_text_before_irreflexive(key@);
                assert(k != i);
            }
        }
        (found, i)
    }

}

impl<V: DeepView> DeepView for TextMap<V> {
    type V = Seq<(Seq<char>, V::V)>;

    open spec fn deep_view(&self) -> Seq<(Seq<char>, V::V)> {
        Seq::new(
            self.entries().len(),
            |i: int| (self.entries()[i].0@, self.entries()[i].1.deep_view()),
        )
    }
}

impl<V: DeepView> TextMap<V> {
    /// Puts `value` under `key`, in place of what stood there before.
    pub fn insert(&mut self, key: String, value: V)
        ensures
            final(self).deep_view() == inserted(old(self).deep_view(), key@, value.deep_view()),
    {
        let (found, i) = self.place(key.as_str());
        proof {
            use_type_invariant(&*self);
        }
        let ghost before = self.entries();
        let ghost old_keys = self.keys();
        let ghost model = self.deep_view();
        let ghost pair = (key, value);
        let mut entries: Vec<(String, V)> = Vec::new();
        std::mem::swap(&mut self.entries, &mut entries);
        if found {
            entries.set(i, (key, value));
        } else {
            entries.insert(i, (key, value));
        }
        let ghost after = entries@;
        proof {
            let shift: int = if found {
                0
            } else {
                1
            };
            let keys = Seq::new(after.len(), |k: int| after[k].0@);
            assert(old_keys.len() == before.len());
            assert forall|k: int| 0 <= k < before.len() implies #[trigger] old_keys[k]
                == before[k].0@ by {}
            assert(after.len() == before.len() + shift);
            assert(after[i as int] == pair);
            assert forall|k: int| 0 <= k < i implies after[k] == before[k] by {}
            assert forall|k: int| i < k < after.len() implies after[k] == before[k - shift] by {}
            assert forall|a: int, b: int| 0 <= a < b < keys.len() implies text_before(
                #[trigger] keys[a],
                #[trigger] keys[b],
            ) by {
                if a < i && b < i {
                    assert(text_before(old_keys[a], old_keys[b]));
                } else if a < i && b == i {
                    assert(text_before(old_keys[a], pair.0@));
                } else if a < i {
                    assert(text_before(old_keys[a], old_keys[b - shift]));
                } else if a == i {
                    assert(text_before(pair.0@, old_keys[b - shift]));
                } else {
                    assert(text_before(old_keys[a - shift], old_keys[b - shift]));
                }
            }
        }
        self.entries = entries;
        proof {
            assert forall|k: int| 0 <= k < i implies text_before(
                (#[trigger] model[k]).0,
                key@,
            ) by {
                assert(text_before(old_keys[k], key@));
            }
            lemma_inserted_at(model, key@, value.deep_view(), i as int, found);
            assert(self.deep_view() =~= inserted(model, key@, value.deep_view()));
        }
    }

    /// The value under `key`.
    pub fn get(&self, key: &String) -> (r: Option<&V>)
        ensures
            match (r, value_at(self.deep_view(), key@)) {
                (Some(value), Some(model)) => value.deep_view() == model,
                (None, None) => true,
                _ => false,
            },
    {
        let ghost all = self.deep_view();
        let mut i: usize = 0;
        proof {
            assert(all.skip(0) =~= all);
        }
        while i < self.entries.len()
            invariant
                i <= self.entries.len(),
                all == self.deep_view(),
                value_at(all, key@) == value_at(all.skip(i as int), key@),
            decreases self.entries.len() - i,
        {
            proof {
                assert(all.skip(i as int)[0] == all[i as int]);
                assert(all.skip(i as int).drop_first() =~= all.skip(i + 1));
            }
            if self.entries[i].0 == *key {
                return Some(&self.entries[i].1);
            }
            i = i + 1;
        }
        None
    }
}

impl Clone for TextMap<String> {
    fn clone(&self) -> (r: Self)
        ensures
            r.deep_view() == self.deep_view(),
    {
        proof {
            use_type_invariant(self);
        }
        let mut entries: Vec<(String, String)> = Vec::new();
        let mut i: usize = 0;
        while i < self.entries.len()
            invariant
                i <= self.entries.len(),
                entries@ == self.entries@.take(i as int),
            decreases self.entries.len() - i,
        {
            entries.push((self.entries[i].0.clone(), self.entries[i].1.clone()));
            proof {
                assert(entries@ =~= self.entries@.take(i + 1));
            }
            i = i + 1;
        }
        proof {
            assert(entries@ =~= self.entries@);
            assert(self.keys() =~= Seq::new(entries@.len(), |k: int| entries@[k].0@));
        }
        TextMap { entries }
    }
}

} // verus!
