//! A map from byte strings to small values, scoped to one builder.

use vstd::prelude::*;

verus! {

/// Whether `a` and `b` hold the same bytes.
pub fn bytes_eq(a: &[u8], b: &[u8]) -> (r: bool)
    ensures
        r == (a@ == b@),
{
    if a.len() != b.len() {
        return false;
    }
    let mut i: usize = 0;
    while i < a.len()
        invariant
            i <= a@.len(),
            a@.len() == b@.len(),
            forall|k: int| 0 <= k < i ==> a@[k] == b@[k],
        decreases a@.len() - i,
    {
        if a[i] != b[i] {
            return false;
        }
        i = i + 1;
    }
    proof {
        assert(a@ =~= b@);
    }
    true
}

/// A copy of `bytes`.
pub fn bytes_to_vec(bytes: &[u8]) -> (r: Vec<u8>)
    ensures
        r@ == bytes@,
{
    let mut out: Vec<u8> = Vec::new();
    let mut i: usize = 0;
    while i < bytes.len()
        invariant
            i <= bytes@.len(),
            out@ == bytes@.take(i as int),
        decreases bytes@.len() - i,
    {
        out.push(bytes[i]);
        i = i + 1;
        proof {
            assert(out@ =~= bytes@.take(i as int));
        }
    }
    proof {
        assert(bytes@.take(bytes@.len() as int) =~= bytes@);
    }
    out
}

/// A map from byte strings to values of type `V`. No byte string is held
/// twice.
#[derive(Debug)]
pub struct ByteMap<V: Copy> {
    entries: Vec<(Vec<u8>, V)>,
}

/// The place of the entry for `key` among `entries`, if there is one.
spec fn place_of_key<V>(entries: Seq<(Vec<u8>, V)>, key: Seq<u8>) -> int {
    choose|i: int| 0 <= i < entries.len() && (#[trigger] entries[i]).0@ == key
}

impl<V: Copy> View for ByteMap<V> {
    type V = Map<Seq<u8>, V>;

    closed spec fn view(&self) -> Map<Seq<u8>, V> {
        Map::new(
            |key: Seq<u8>|
                exists|i: int| 0 <= i < self.entries@.len() && (#[trigger] self.entries@[i]).0@ == key,
            |key: Seq<u8>| self.entries@[place_of_key(self.entries@, key)].1,
        )
    }
}

impl<V: Copy> ByteMap<V> {
    /// No byte string is held twice.
    pub closed spec fn wf(&self) -> bool {
        forall|i: int, j: int|
            0 <= i < j < self.entries@.len() ==> (#[trigger] self.entries@[i]).0@ != (
            #[trigger] self.entries@[j]).0@
    }

    /// The entry at `i` is the one that the map holds for its key.
    proof fn lemma_entry(&self, i: int)
        requires
            self.wf(),
            0 <= i < self.entries@.len(),
        ensures
            self@.contains_key(self.entries@[i].0@),
            self@[self.entries@[i].0@] == self.entries@[i].1,
    {
        let key = self.entries@[i].0@;
        let c = place_of_key(self.entries@, key);
        if c < i {
            assert(self.entries@[c].0@ != self.entries@[i].0@);
        } else if i < c {
            assert(self.entries@[i].0@ != self.entries@[c].0@);
        }
    }

    /// An empty map.
    pub fn new() -> (r: Self)
        ensures
            r.wf(),
            r@ == Map::<Seq<u8>, V>::empty(),
    {
        let r = ByteMap { entries: Vec::new() };
        proof {
            assert(r@ =~= Map::<Seq<u8>, V>::empty());
        }
        r
    }

    /// The place of the entry for `key`, if there is one.
    fn find(&self, key: &[u8]) -> (r: Option<usize>)
        ensures
            match r {
                Some(i) => i < self.entries@.len() && self.entries@[i as int].0@ == key@,
                None => forall|i: int|
                    0 <= i < self.entries@.len() ==> (#[trigger] self.entries@[i]).0@ != key@,
            },
    {
        let mut i: usize = 0;
        while i < self.entries.len()
            invariant
                i <= self.entries@.len(),
                forall|k: int| 0 <= k < i ==> (#[trigger] self.entries@[k]).0@ != key@,
            decreases self.entries@.len() - i,
        {
            if bytes_eq(self.entries[i].0.as_slice(), key) {
                return Some(i);
            }
            i = i + 1;
        }
        None
    }

    /// The value held for `key`, if there is one.
    pub fn get(&self, key: &[u8]) -> (r: Option<V>)
        requires
            self.wf(),
        ensures
            r == if self@.contains_key(key@) {
                Some(self@[key@])
            } else {
                None
            },
    {
        match self.find(key) {
            Some(i) => {
                proof {
                    self.lemma_entry(i as int);
                }
                Some(self.entries[i].1)
            },
            None => None,
        }
    }

    /// Holds `value` for `key` from now on, in place of what was held for it.
    pub fn insert(&mut self, key: Vec<u8>, value: V)
        requires
            old(self).wf(),
        ensures
            final(self).wf(),
            final(self)@ == old(self)@.insert(key@, value),
    {
        match self.find(key.as_slice()) {
            Some(i) => {
                self.entries[i] = (key, value);
                proof {
                    assert forall|a: int, b: int| 0 <= a < b < self.entries@.len() implies (
                    #[trigger] self.entries@[a]).0@ != (#[trigger] self.entries@[b]).0@ by {
                        assert(old(self).entries@[a].0@ != old(self).entries@[b].0@);
                    }
                    self.lemma_after_insert(*old(self), key@, value, i as int);
                }
            },
            None => {
                self.entries.push((key, value));
                proof {
                    assert forall|a: int, b: int| 0 <= a < b < self.entries@.len() implies (
                    #[trigger] self.entries@[a]).0@ != (#[trigger] self.entries@[b]).0@ by {
                        if b < old(self).entries@.len() {
                            assert(old(self).entries@[a].0@ != old(self).entries@[b].0@);
                        } else {
                            assert(old(self).entries@[a].0@ != key@);
                        }
                    }
                    self.lemma_after_insert(*old(self), key@, value, self.entries@.len() - 1);
                }
            },
        }
    }

    /// A map whose entries are those of `before` but for the one at `i`,
    /// which holds `value` for `key`, is `before` with `value` put in for
    /// `key`.
    proof fn lemma_after_insert(&self, before: Self, key: Seq<u8>, value: V, i: int)
        requires
            self.wf(),
            before.wf(),
            0 <= i < self.entries@.len(),
            self.entries@[i].0@ == key,
            self.entries@[i].1 == value,
            self.entries@.len() == before.entries@.len() || (self.entries@.len()
                == before.entries@.len() + 1 && i == before.entries@.len()),
            forall|k: int|
                0 <= k < before.entries@.len() && k != i ==> self.entries@[k] == before.entries@[k],
            i < before.entries@.len() ==> before.entries@[i].0@ == key,
        ensures
            self@ == before@.insert(key, value),
    {
        let want = before@.insert(key, value);
        assert forall|k: Seq<u8>| self@.contains_key(k) == want.contains_key(k) by {
            if self@.contains_key(k) {
                let c = place_of_key(self.entries@, k);
                if c != i {
                    assert(before.entries@[c].0@ == k);
                }
            }
            if want.contains_key(k) && k != key {
                let c = place_of_key(before.entries@, k);
                assert(self.entries@[c].0@ == k);
            }
            if k == key {
                assert(self.entries@[i].0@ == k);
            }
        }
        assert forall|k: Seq<u8>| self@.contains_key(k) implies self@[k] == want[k] by {
            let c = place_of_key(self.entries@, k);
            self.lemma_entry(c);
            if c != i {
                assert(before.entries@[c].0@ == k);
                before.lemma_entry(c);
            }
        }
        assert(self@ =~= want);
    }

    /// Forgets every entry.
    pub fn clear(&mut self)
        ensures
            final(self).wf(),
            final(self)@ == Map::<Seq<u8>, V>::empty(),
    {
        self.entries = Vec::new();
        proof {
            assert(self@ =~= Map::<Seq<u8>, V>::empty());
        }
    }
}

} // verus!
