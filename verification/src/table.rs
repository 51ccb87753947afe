//! A small table from text to values.
use vstd::prelude::*;
use crate::text;

verus! {

/// A table from text to values; no key twice.
pub struct Table<V> {
    entries: Vec<(String, V)>,
}

/// The value of the first entry for a key.
pub open spec fn first<V>(e: Seq<(String, V)>, key: Seq<char>) -> Option<V>
    decreases e.len(),
{
    if e.len() == 0 {
        None
    } else if e[0].0@ == key {
        Some(e[0].1)
    } else {
        first(e.drop_first(), key)
    }
}

spec fn no_twice<V>(e: Seq<(String, V)>) -> bool {
    forall|i: int, j: int| 0 <= i < j < e.len() ==> (#[trigger] e[i]).0@ != (#[trigger] e[j]).0@
}

proof fn lemma_first_at<V>(e: Seq<(String, V)>, key: Seq<char>, i: int)
    requires
        0 <= i < e.len(),
        e[i].0@ == key,
        forall|k: int| 0 <= k < i ==> (#[trigger] e[k]).0@ != key,
    ensures
        first(e, key) == Some(e[i].1),
    decreases e.len(),
{
    if i > 0 {
        assert(e[0].0@ != key);
        let t = e.drop_first();
        assert forall|k: int| 0 <= k < i - 1 implies (#[trigger] t[k]).0@ != key by {
            assert(t[k] == e[k + 1]);
        }
        lemma_first_at(t, key, i - 1);
    }
}

proof fn lemma_first_none<V>(e: Seq<(String, V)>, key: Seq<char>)
    requires
        forall|k: int| 0 <= k < e.len() ==> (#[trigger] e[k]).0@ != key,
    ensures
        first(e, key) is None,
    decreases e.len(),
{
    if e.len() > 0 {
        let t = e.drop_first();
        assert forall|k: int| 0 <= k < t.len() implies (#[trigger] t[k]).0@ != key by {
            assert(t[k] == e[k + 1]);
        }
        lemma_first_none(t, key);
    }
}

proof fn lemma_first_push<V>(e: Seq<(String, V)>, x: (String, V), key: Seq<char>)
    requires
        x.0@ != key,
    ensures
        first(e.push(x), key) == first(e, key),
    decreases e.len(),
{
    reveal_with_fuel(first, 2);
    if e.len() > 0 {
        assert(e.push(x).drop_first() == e.drop_first().push(x));
        lemma_first_push(e.drop_first(), x, key);
    } else {
        assert(e.push(x).drop_first().len() == 0);
    }
}

proof fn lemma_first_remove<V>(e: Seq<(String, V)>, i: int, key: Seq<char>)
    requires
        0 <= i < e.len(),
        e[i].0@ != key,
    ensures
        first(e.remove(i), key) == first(e, key),
    decreases e.len(),
{
    if i == 0 {
        assert(e.remove(0) == e.drop_first());
    } else {
        assert(e.remove(i)[0] == e[0]);
        assert(e.remove(i).drop_first() == e.drop_first().remove(i - 1));
        lemma_first_remove(e.drop_first(), i - 1, key);
    }
}

impl<V> Table<V> {
    /// The value for a key.
    pub closed spec fn at(self, key: Seq<char>) -> Option<V> {
        first(self.entries@, key)
    }

    /// Whether no key is there twice.
    pub closed spec fn wf(self) -> bool {
        no_twice(self.entries@)
    }

    /// An empty table.
    pub fn new() -> (r: Self)
        ensures
            r.wf(),
            forall|key: Seq<char>| #[trigger] r.at(key) is None,
    {
        Table { entries: Vec::new() }
    }

    /// Where the entry for a key is.
    fn find(&self, key: &str) -> (r: Option<usize>)
        ensures
            match r {
                Some(i) => i < self.entries@.len() && self.entries@[i as int].0@ == key@ && self.at(key@)
                    == Some(self.entries@[i as int].1) && forall|k: int|
                    0 <= k < i ==> (#[trigger] self.entries@[k]).0@ != key@,
                None => self.at(key@) is None && forall|k: int|
                    0 <= k < self.entries@.len() ==> (#[trigger] self.entries@[k]).0@ != key@,
            },
    {
        let mut i: usize = 0;
        while i < self.entries.len()
            invariant
                i <= self.entries@.len(),
                forall|k: int| 0 <= k < i ==> (#[trigger] self.entries@[k]).0@ != key@,
            decreases self.entries@.len() - i,
        {
            if text::same_text(self.entries[i].0.as_str(), key) {
                proof {
                    lemma_first_at(self.entries@, key@, i as int);
                }
                return Some(i);
            }
            i = i + 1;
        }
        proof {
            lemma_first_none(self.entries@, key@);
        }
        None
    }

    /// The value for a key.
    pub fn get(&self, key: &str) -> (r: Option<&V>)
        ensures
            match r {
                Some(v) => self.at(key@) == Some(*v),
                None => self.at(key@) is None,
            },
    {
        match self.find(key) {
            Some(i) => Some(&self.entries[i].1),
            None => None,
        }
    }

    /// Takes the entry for a key out, if there is one.
    pub fn remove(&mut self, key: &str)
        requires
            old(self).wf(),
        ensures
            final(self).wf(),
            final(self).at(key@) is None,
            forall|k: Seq<char>| k != key@ ==> #[trigger] final(self).at(k) == old(self).at(k),
    {
        match self.find(key) {
            Some(i) => {
                let ghost before = self.entries@;
                let _gone = self.entries.remove(i);
                proof {
                    let after = self.entries@;
                    assert(after == before.remove(i as int));
                    assert forall|a: int, b: int| 0 <= a < b < after.len() implies (
                    #[trigger] after[a]).0@ != (#[trigger] after[b]).0@ by {
                        let a0 = if a < i { a } else { a + 1 };
                        let b0 = if b < i { b } else { b + 1 };
                        assert(before[a0].0@ != before[b0].0@);
                    }
                    assert forall|k: int| 0 <= k < after.len() implies (#[trigger] after[k]).0@
                        != key@ by {
                        if k < i {
                            assert(before[k].0@ != before[i as int].0@);
                        } else {
                            assert(before[i as int].0@ != before[k + 1].0@);
                        }
                    }
                    lemma_first_none(after, key@);
                    assert forall|k: Seq<char>| k != key@ implies #[trigger] first(after, k) == first(
                        before,
                        k,
                    ) by {
                        lemma_first_remove(before, i as int, k);
                    }
                }
            },
            None => {},
        }
    }

    /// Maps a key to a value.
    pub fn insert(&mut self, key: &str, value: V)
        requires
            old(self).wf(),
        ensures
            final(self).wf(),
            final(self).at(key@) == Some(value),
            forall|k: Seq<char>| k != key@ ==> #[trigger] final(self).at(k) == old(self).at(k),
    {
        self.remove(key);
        let ghost before = self.entries@;
        let ghost mid = *self;
        let absent = self.find(key);
        self.entries.push((String::from_str(key), value));
        proof {
            let after = self.entries@;
            assert(absent is None);
            assert forall|a: int, b: int| 0 <= a < b < after.len() implies (#[trigger] after[a]).0@ != (
            #[trigger] after[b]).0@ by {
                if b < before.len() {
                    assert(before[a].0@ != before[b].0@);
                } else {
                    assert(before[a].0@ != key@);
                }
            }
            assert forall|k: int| 0 <= k < before.len() implies (#[trigger] after[k]).0@ != key@ by {
                assert(after[k] == before[k]);
            }
            lemma_first_at(after, key@, before.len() as int);
            assert forall|k: Seq<char>| k != key@ implies #[trigger] self.at(k) == old(self).at(k) by {
                lemma_first_push(before, after.last(), k);
                assert(mid.at(k) == old(self).at(k));
            }
        }
    }
}

} // verus!
