//! A map from texts.

use vstd::prelude::*;
use crate::text;

verus! {

/// An entry of a map.
#[derive(Debug)]
struct Entry<V> {
    key: String,
    value: V,
}

/// A map from texts.
#[derive(Debug)]
pub struct TextMap<V> {
    entries: Vec<Entry<V>>,
}

spec fn entry_at<V>(es: Seq<Entry<V>>, key: Seq<char>, i: int) -> bool {
    0 <= i < es.len() && es[i].key@ == key
}

spec fn by_key<V>(es: Seq<Entry<V>>) -> Map<Seq<char>, V> {
    Map::new(
        |key: Seq<char>| exists|i: int| entry_at(es, key, i),
        |key: Seq<char>| es[choose|i: int| entry_at(es, key, i)].value,
    )
}

spec fn distinct<V>(es: Seq<Entry<V>>) -> bool {
    forall|i: int, j: int|
        0 <= i < j < es.len() ==> (#[trigger] es[i]).key@ != (#[trigger] es[j]).key@
}

proof fn lemma_entry<V>(es: Seq<Entry<V>>, i: int)
    requires
        distinct(es),
        0 <= i < es.len(),
    ensures
        by_key(es).contains_key(es[i].key@),
        by_key(es)[es[i].key@] == es[i].value,
{
    assert(entry_at(es, es[i].key@, i));
    let k = choose|k: int| entry_at(es, es[i].key@, k);
    assert(entry_at(es, es[i].key@, k));
    if k < i {
        assert(es[k].key@ != es[i].key@);
    }
    if i < k {
        assert(es[i].key@ != es[k].key@);
    }
}

proof fn lemma_no_entry<V>(es: Seq<Entry<V>>, key: Seq<char>)
    requires
        forall|i: int| 0 <= i < es.len() ==> (#[trigger] es[i]).key@ != key,
    ensures
        !by_key(es).contains_key(key),
{
    if by_key(es).contains_key(key) {
        let i = choose|i: int| entry_at(es, key, i);
        assert(entry_at(es, key, i));
    }
}

proof fn lemma_replaced<V>(es: Seq<Entry<V>>, i: int, e: Entry<V>)
    requires
        distinct(es),
        0 <= i < es.len(),
        e.key@ == es[i].key@,
    ensures
        distinct(es.update(i, e)),
        by_key(es.update(i, e)) == by_key(es).insert(e.key@, e.value),
{
    let fs = es.update(i, e);
    assert forall|a: int, b: int| 0 <= a < b < fs.len() implies (#[trigger] fs[a]).key@ != (
    #[trigger] fs[b]).key@ by {
        assert(es[a].key@ != es[b].key@);
    }
    let want = by_key(es).insert(e.key@, e.value);
    assert forall|n: Seq<char>| by_key(fs).contains_key(n) <==> want.contains_key(n) by {
        if by_key(fs).contains_key(n) {
            let k = choose|k: int| entry_at(fs, n, k);
            assert(entry_at(fs, n, k));
            assert(entry_at(es, n, k));
        }
        if by_key(es).contains_key(n) {
            let k = choose|k: int| entry_at(es, n, k);
            assert(entry_at(es, n, k));
            assert(entry_at(fs, n, k));
        }
        assert(entry_at(fs, e.key@, i));
    }
    assert forall|n: Seq<char>| by_key(fs).contains_key(n) implies by_key(fs)[n] == want[n] by {
        let k = choose|k: int| entry_at(fs, n, k);
        assert(entry_at(fs, n, k));
        lemma_entry(fs, k);
        lemma_entry(es, k);
        if k < i {
            assert(es[k].key@ != es[i].key@);
        }
        if i < k {
            assert(es[i].key@ != es[k].key@);
        }
    }
    assert(by_key(fs) =~= want);
}

proof fn lemma_added<V>(es: Seq<Entry<V>>, e: Entry<V>)
    requires
        distinct(es),
        forall|i: int| 0 <= i < es.len() ==> (#[trigger] es[i]).key@ != e.key@,
    ensures
        distinct(es.push(e)),
        by_key(es.push(e)) == by_key(es).insert(e.key@, e.value),
{
    let fs = es.push(e);
    assert(distinct(fs));
    let want = by_key(es).insert(e.key@, e.value);
    assert forall|n: Seq<char>| by_key(fs).contains_key(n) <==> want.contains_key(n) by {
        if by_key(fs).contains_key(n) {
            let k = choose|k: int| entry_at(fs, n, k);
            assert(entry_at(fs, n, k));
            if k < es.len() {
                assert(entry_at(es, n, k));
            }
        }
        if by_key(es).contains_key(n) {
            let k = choose|k: int| entry_at(es, n, k);
            assert(entry_at(es, n, k));
            assert(entry_at(fs, n, k));
        }
        assert(entry_at(fs, e.key@, es.len() as int));
    }
    assert forall|n: Seq<char>| by_key(fs).contains_key(n) implies by_key(fs)[n] == want[n] by {
        let k = choose|k: int| entry_at(fs, n, k);
        assert(entry_at(fs, n, k));
        lemma_entry(fs, k);
        if k < es.len() {
            lemma_entry(es, k);
        }
    }
    assert(by_key(fs) =~= want);
}

proof fn lemma_removed<V>(es: Seq<Entry<V>>, i: int)
    requires
        distinct(es),
        0 <= i < es.len(),
    ensures
        distinct(es.remove(i)),
        by_key(es.remove(i)) == by_key(es).remove(es[i].key@),
{
    let fs = es.remove(i);
    assert forall|a: int, b: int| 0 <= a < b < fs.len() implies (#[trigger] fs[a]).key@ != (
    #[trigger] fs[b]).key@ by {
        let a2 = if a < i {
            a
        } else {
            a + 1
        };
        let b2 = if b < i {
            b
        } else {
            b + 1
        };
        assert(es[a2].key@ != es[b2].key@);
    }
    let want = by_key(es).remove(es[i].key@);
    assert forall|n: Seq<char>| by_key(fs).contains_key(n) <==> want.contains_key(n) by {
        if by_key(fs).contains_key(n) {
            let k = choose|k: int| entry_at(fs, n, k);
            assert(entry_at(fs, n, k));
            if k < i {
                assert(entry_at(es, n, k));
                assert(es[k].key@ != es[i].key@);
            } else {
                assert(entry_at(es, n, k + 1));
                assert(es[i].key@ != es[k + 1].key@);
            }
        }
        if by_key(es).contains_key(n) && n != es[i].key@ {
            let k = choose|k: int| entry_at(es, n, k);
            assert(entry_at(es, n, k));
            if k < i {
                assert(entry_at(fs, n, k));
            } else {
                assert(entry_at(fs, n, k - 1));
            }
        }
    }
    assert forall|n: Seq<char>| by_key(fs).contains_key(n) implies by_key(fs)[n] == want[n] by {
        let k = choose|k: int| entry_at(fs, n, k);
        assert(entry_at(fs, n, k));
        lemma_entry(fs, k);
        if k < i {
            lemma_entry(es, k);
        } else {
            lemma_entry(es, k + 1);
        }
    }
    assert(by_key(fs) =~= want);
}

impl<V> View for TextMap<V> {
    type V = Map<Seq<char>, V>;

    closed spec fn view(&self) -> Map<Seq<char>, V> {
        by_key(self.entries@)
    }
}

impl<V> TextMap<V> {
    /// No key occurs twice.
    pub closed spec fn wf(self) -> bool {
        distinct(self.entries@)
    }

    /// How many keys there are.
    pub closed spec fn size(self) -> nat {
        self.entries@.len()
    }

    /// The key at an index.
    pub closed spec fn key(self, i: int) -> Seq<char> {
        self.entries@[i].key@
    }

    /// Each key stands at an index, and at each index stands a key.
    pub proof fn keys_are_listed(self)
        requires
            self.wf(),
        ensures
            forall|i: int| 0 <= i < self.size() ==> self@.contains_key(#[trigger] self.key(i)),
            forall|k: Seq<char>| #[trigger]
                self@.contains_key(k) ==> exists|i: int|
                    0 <= i < self.size() && #[trigger] self.key(i) == k,
            forall|i: int, j: int|
                0 <= i < j < self.size() ==> #[trigger] self.key(i) != #[trigger] self.key(j),
    {
        let es = self.entries@;
        assert forall|i: int| 0 <= i < self.size() implies self@.contains_key(
            #[trigger] self.key(i),
        ) by {
            lemma_entry(es, i);
        }
        assert forall|k: Seq<char>| #[trigger] self@.contains_key(k) implies exists|i: int|
            0 <= i < self.size() && #[trigger] self.key(i) == k by {
            let i = choose|i: int| entry_at(es, k, i);
            assert(entry_at(es, k, i));
            assert(self.key(i) == k);
        }
    }

    /// An empty map.
    pub fn new() -> (r: TextMap<V>)
        ensures
            r.wf(),
            r@ == Map::<Seq<char>, V>::empty(),
            r.size() == 0,
    {
        let r = TextMap { entries: Vec::new() };
        assert forall|n: Seq<char>| !r@.contains_key(n) by {
            lemma_no_entry(r.entries@, n);
        }
        assert(r@ =~= Map::<Seq<char>, V>::empty());
        r
    }

    /// How many keys there are.
    pub fn len(&self) -> (r: usize)
        ensures
            r == self.size(),
    {
        self.entries.len()
    }

    /// The key and the value at an index.
    pub fn at(&self, i: usize) -> (r: (&str, &V))
        requires
            self.wf(),
            i < self.size(),
        ensures
            r.0@ == self.key(i as int),
            self@.contains_key(r.0@),
            *r.1 == self@[r.0@],
    {
        proof {
            lemma_entry(self.entries@, i as int);
        }
        (self.entries[i].key.as_str(), &self.entries[i].value)
    }

    fn find(&self, key: &str) -> (r: Option<usize>)
        requires
            self.wf(),
        ensures
            match r {
                Some(i) => i < self.entries@.len() && self.entries@[i as int].key@ == key@
                    && self@.contains_key(key@) && self@[key@] == self.entries@[i as int].value,
                None => !self@.contains_key(key@) && forall|i: int|
                    0 <= i < self.entries@.len() ==> (#[trigger] self.entries@[i]).key@ != key@,
            },
    {
        let mut i: usize = 0;
        while i < self.entries.len()
            invariant
                i <= self.entries@.len(),
                self.wf(),
                forall|j: int| 0 <= j < i ==> (#[trigger] self.entries@[j]).key@ != key@,
            decreases self.entries@.len() - i,
        {
            if text::same(self.entries[i].key.as_str(), key) {
                proof {
                    lemma_entry(self.entries@, i as int);
                }
                return Some(i);
            }
            i = i + 1;
        }
        proof {
            lemma_no_entry(self.entries@, key@);
        }
        None
    }

    /// The value of a key.
    pub fn get(&self, key: &str) -> (r: Option<&V>)
        requires
            self.wf(),
        ensures
            match r {
                Some(v) => self@.contains_key(key@) && *v == self@[key@],
                None => !self@.contains_key(key@),
            },
    {
        match self.find(key) {
            Some(i) => Some(&self.entries[i].value),
            None => None,
        }
    }

    /// Gives a key a value.
    pub fn set(&mut self, key: &str, value: V)
        requires
            old(self).wf(),
        ensures
            final(self).wf(),
            final(self)@ == old(self)@.insert(key@, value),
    {
        let ghost es = self.entries@;
        let entry = Entry { key: key.to_owned(), value };
        match self.find(key) {
            Some(i) => {
                proof {
                    lemma_replaced(es, i as int, entry);
                }
                self.entries.set(i, entry);
            },
            None => {
                proof {
                    lemma_added(es, entry);
                }
                self.entries.push(entry);
            },
        }
    }

    /// Takes a key out.
    pub fn take(&mut self, key: &str) -> (r: Option<V>)
        requires
            old(self).wf(),
        ensures
            final(self).wf(),
            final(self)@ == old(self)@.remove(key@),
            match r {
                Some(v) => old(self)@.contains_key(key@) && v == old(self)@[key@]
                    && final(self).size() == old(self).size() - 1,
                None => !old(self)@.contains_key(key@) && final(self).size() == old(self).size(),
            },
    {
        match self.find(key) {
            Some(i) => {
                proof {
                    lemma_removed(self.entries@, i as int);
                }
                let entry = self.entries.remove(i);
                Some(entry.value)
            },
            None => {
                assert(self@.remove(key@) =~= self@);
                None
            },
        }
    }
}

} // verus!
