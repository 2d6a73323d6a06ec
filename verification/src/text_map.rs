//! A map from texts to values.

use vstd::prelude::*;

use crate::text;
use crate::text::Text;

verus! {

/// A map from texts to values, each key at most once.
pub struct TextMap<V> {
    entries: Vec<(String, V)>,
}

/// The keys of some entries.
spec fn keys<V>(entries: Seq<(String, V)>) -> Seq<Text> {
    entries.map_values(|e: (String, V)| e.0@)
}

spec fn map_of<V: View>(entries: Seq<(String, V)>) -> Map<Text, V::V> {
    Map::new(
        |k: Text| keys(entries).contains(k),
        |k: Text| entries[keys(entries).index_of(k)].1@,
    )
}

/// The entries of a map whose values meet `p`.
pub open spec fn kept<W>(m: Map<Text, W>, p: spec_fn(W) -> bool) -> Map<Text, W> {
    m.restrict(Set::new(|k: Text| m.contains_key(k) && p(m[k])))
}

proof fn lemma_entry<V: View>(entries: Seq<(String, V)>, i: int)
    requires
        keys(entries).no_duplicates(),
        0 <= i < entries.len(),
    ensures
        map_of(entries).contains_key(entries[i].0@),
        map_of(entries)[entries[i].0@] == entries[i].1@,
{
    let k = entries[i].0@;
    assert(keys(entries)[i] == k);
    assert(keys(entries).contains(k));
    let j = keys(entries).index_of(k);
    assert(keys(entries)[j] == k);
    assert(j == i);
}

impl<V: View> View for TextMap<V> {
    type V = Map<Text, V::V>;

    closed spec fn view(&self) -> Map<Text, V::V> {
        map_of(self.entries@)
    }
}

impl<V> TextMap<V> {
    #[verifier::type_invariant]
    spec fn keys_differ(&self) -> bool {
        keys(self.entries@).no_duplicates()
    }
}

impl<V: View> TextMap<V> {
    pub fn new() -> (r: Self)
        ensures
            r@ == Map::<Text, V::V>::empty(),
    {
        let entries: Vec<(String, V)> = Vec::new();
        assert(map_of(entries@) =~= Map::<Text, V::V>::empty());
        TextMap { entries }
    }

    /// The number of keys.
    pub fn len(&self) -> (n: usize)
        ensures
            self@.dom().finite(),
            n == self@.len(),
    {
        proof {
            use_type_invariant(self);
            let all = keys(self.entries@);
            assert(self@.dom() =~= all.to_set());
            all.unique_seq_to_set();
        }
        self.entries.len()
    }

    fn place(&self, key: &str) -> (r: Option<usize>)
        ensures
            match r {
                Some(i) => i < self.entries@.len() && self.entries@[i as int].0@ == key@,
                None => !keys(self.entries@).contains(key@),
            },
    {
        let mut i: usize = 0;
        while i < self.entries.len()
            invariant
                i <= self.entries@.len(),
                forall|j: int| 0 <= j < i ==> #[trigger] self.entries@[j].0@ != key@,
            decreases self.entries@.len() - i,
        {
            if text::same_text(self.entries[i].0.as_str(), key) {
                return Some(i);
            }
            i = i + 1;
        }
        assert(!keys(self.entries@).contains(key@)) by {
            if keys(self.entries@).contains(key@) {
                let j = keys(self.entries@).index_of(key@);
                assert(keys(self.entries@)[j] == key@);
                assert(self.entries@[j].0@ == key@);
            }
        }
        None
    }

    pub fn get(&self, key: &str) -> (r: Option<&V>)
        ensures
            match r {
                Some(v) => self@.contains_key(key@) && self@[key@] == v@,
                None => !self@.contains_key(key@),
            },
    {
        proof {
            use_type_invariant(self);
        }
        match self.place(key) {
            Some(i) => {
                proof {
                    lemma_entry(self.entries@, i as int);
                }
                Some(&self.entries[i].1)
            },
            None => None,
        }
    }

    pub fn remove(&mut self, key: &str)
        ensures
            final(self)@ == old(self)@.remove(key@),
    {
        proof {
            use_type_invariant(&*self);
        }
        match self.place(key) {
            Some(i) => {
                let ghost before = self.entries@;
                let mut entries: Vec<(String, V)> = Vec::new();
                std::mem::swap(&mut entries, &mut self.entries);
                let _ = entries.remove(i);
                proof {
                    lemma_removed(before, i as int);
                }
                self.entries = entries;
            },
            None => {
                assert(self@ =~= self@.remove(key@));
            },
        }
    }

    pub fn insert(&mut self, key: String, value: V)
        ensures
            final(self)@ == old(self)@.insert(key@, value@),
    {
        self.remove(key.as_str());
        proof {
            use_type_invariant(&*self);
        }
        let ghost before = self.entries@;
        let mut entries: Vec<(String, V)> = Vec::new();
        std::mem::swap(&mut entries, &mut self.entries);
        entries.push((key, value));
        proof {
            assert(!map_of(before).contains_key(key@));
            lemma_pushed(before, (key, value));
            assert(map_of(before).insert(key@, value@) =~= old(self)@.insert(key@, value@));
        }
        self.entries = entries;
    }

    /// Keeps the entries whose values meet `p`.
    pub(crate) fn retain<F: Fn(&V) -> bool>(&mut self, test: F, Ghost(p): Ghost<spec_fn(V::V) -> bool>)
        requires
            forall|v: V| #[trigger] test.requires((&v,)),
            forall|v: V, b: bool| #[trigger] test.ensures((&v,), b) ==> b == p(v@),
        ensures
            final(self)@ == kept(old(self)@, p),
    {
        proof {
            use_type_invariant(&*self);
        }
        let ghost all = self.entries@;
        let mut entries: Vec<(String, V)> = Vec::new();
        std::mem::swap(&mut entries, &mut self.entries);
        let mut i: usize = 0;
        while i < entries.len()
            invariant
                i <= entries@.len(),
                keys(entries@).no_duplicates(),
                forall|v: V| #[trigger] test.requires((&v,)),
                forall|v: V, b: bool| #[trigger] test.ensures((&v,), b) ==> b == p(v@),
                forall|j: int| 0 <= j < i ==> p(#[trigger] entries@[j].1@),
                kept(map_of(entries@), p) == kept(map_of(all), p),
            decreases entries@.len() - i,
        {
            if test(&entries[i].1) {
                i = i + 1;
            } else {
                let ghost before = entries@;
                let _ = entries.remove(i);
                proof {
                    lemma_removed(before, i as int);
                    lemma_entry(before, i as int);
                    assert(kept(map_of(entries@), p) =~= kept(map_of(before), p));
                    assert forall|j: int| 0 <= j < i implies p(#[trigger] entries@[j].1@) by {
                        assert(entries@[j] == before[j]);
                    }
                }
            }
        }
        proof {
            assert forall|k: Text| map_of(entries@).contains_key(k) implies p(
                #[trigger] map_of(entries@)[k],
            ) by {
                let j = keys(entries@).index_of(k);
                assert(keys(entries@)[j] == k);
                assert(p(entries@[j].1@));
            }
            assert(kept(map_of(entries@), p) =~= map_of(entries@));
        }
        self.entries = entries;
    }
}

proof fn lemma_removed<V: View>(entries: Seq<(String, V)>, i: int)
    requires
        keys(entries).no_duplicates(),
        0 <= i < entries.len(),
    ensures
        keys(entries.remove(i)).no_duplicates(),
        map_of(entries.remove(i)) == map_of(entries).remove(entries[i].0@),
{
    let rest = entries.remove(i);
    let gone = entries[i].0@;
    assert forall|a: int, b: int| 0 <= a < rest.len() && 0 <= b < rest.len() && a != b implies keys(
        rest,
    )[a] != keys(rest)[b] by {
        let x = if a < i { a } else { a + 1 };
        let y = if b < i { b } else { b + 1 };
        assert(keys(rest)[a] == keys(entries)[x]);
        assert(keys(rest)[b] == keys(entries)[y]);
    }
    assert forall|k: Text| map_of(rest).contains_key(k) == map_of(entries).remove(gone).contains_key(
        k,
    ) by {
        if map_of(rest).contains_key(k) {
            let a = keys(rest).index_of(k);
            assert(keys(rest)[a] == k);
            let x = if a < i { a } else { a + 1 };
            assert(keys(entries)[x] == k);
            assert(keys(entries)[i] == gone);
        }
        if map_of(entries).remove(gone).contains_key(k) {
            let x = keys(entries).index_of(k);
            assert(keys(entries)[x] == k);
            let a = if x < i { x } else { x - 1 };
            assert(keys(rest)[a] == k);
        }
    }
    assert forall|k: Text| #[trigger] map_of(rest).contains_key(k) implies map_of(rest)[k]
        == map_of(entries)[k] by {
        let a = keys(rest).index_of(k);
        assert(keys(rest)[a] == k);
        let x = if a < i { a } else { a + 1 };
        assert(rest[a] == entries[x]);
        lemma_entry(entries, x);
    }
    assert(map_of(rest) =~= map_of(entries).remove(gone));
}

proof fn lemma_pushed<V: View>(entries: Seq<(String, V)>, entry: (String, V))
    requires
        keys(entries).no_duplicates(),
        !map_of(entries).contains_key(entry.0@),
    ensures
        keys(entries.push(entry)).no_duplicates(),
        map_of(entries.push(entry)) == map_of(entries).insert(entry.0@, entry.1@),
{
    let more = entries.push(entry);
    assert(keys(more) =~= keys(entries).push(entry.0@));
    assert forall|a: int, b: int| 0 <= a < more.len() && 0 <= b < more.len() && a != b implies keys(
        more,
    )[a] != keys(more)[b] by {
        if a == entries.len() {
            assert(keys(entries)[b] == keys(more)[b]);
            assert(keys(entries).contains(keys(entries)[b]));
        } else if b == entries.len() {
            assert(keys(entries)[a] == keys(more)[a]);
            assert(keys(entries).contains(keys(entries)[a]));
        } else {
            assert(keys(entries)[a] == keys(more)[a] && keys(entries)[b] == keys(more)[b]);
        }
    }
    assert forall|k: Text| map_of(more).contains_key(k) == map_of(entries).insert(
        entry.0@,
        entry.1@,
    ).contains_key(k) by {
        if keys(more).contains(k) {
            let a = keys(more).index_of(k);
            assert(keys(more)[a] == k);
            if a < entries.len() {
                assert(keys(entries)[a] == k);
            }
        }
        if keys(entries).contains(k) {
            let a = keys(entries).index_of(k);
            assert(keys(more)[a] == k);
        }
        assert(keys(more)[entries.len() as int] == entry.0@);
    }
    assert forall|k: Text| #[trigger] map_of(more).contains_key(k) implies map_of(more)[k]
        == map_of(entries).insert(entry.0@, entry.1@)[k] by {
        let a = keys(more).index_of(k);
        assert(keys(more)[a] == k);
        if a < entries.len() {
            assert(more[a] == entries[a]);
            lemma_entry(entries, a);
        }
    }
    assert(map_of(more) =~= map_of(entries).insert(entry.0@, entry.1@));
}

} // verus!
