//! A dense map from small integer ids to values, backed by a vector of slots.

use vstd::prelude::*;

verus! {

pub struct VecMap<T> {
    pub slots: Vec<Option<T>>,
}

impl<T> VecMap<T> {
    pub open spec fn spec_get(&self, id: int) -> Option<T> {
        if 0 <= id < self.slots@.len() {
            self.slots@[id]
        } else {
            None
        }
    }

    pub fn new() -> (res: VecMap<T>)
        ensures
            res.slots@ == Seq::<Option<T>>::empty(),
    {
        VecMap { slots: Vec::new() }
    }

    /// Stores `value` under `id`, replacing whatever was there.
    pub fn insert(&mut self, id: usize, value: T)
        ensures
            final(self).slots@.len() == if id < old(self).slots@.len() {
                old(self).slots@.len() as int
            } else {
                id + 1
            },
            final(self).spec_get(id as int) == Some(value),
            forall|k: int| k != id ==> #[trigger] final(self).spec_get(k) == old(self).spec_get(k),
    {
        while self.slots.len() <= id
            invariant
                forall|k: int| #[trigger] self.spec_get(k) == old(self).spec_get(k),
                old(self).slots@.len() <= self.slots@.len(),
                self.slots@.len() <= if id < old(self).slots@.len() {
                    old(self).slots@.len() as int
                } else {
                    id + 1
                },
            decreases id + 1 - self.slots.len(),
        {
            let ghost prev = *self;
            assert(forall|k: int| #[trigger] prev.spec_get(k) == old(self).spec_get(k));
            self.slots.push(None);
            assert forall|k: int| #[trigger] self.spec_get(k) == prev.spec_get(k) by {
                if 0 <= k < prev.slots@.len() {
                    assert(self.slots@[k] == prev.slots@[k]);
                }
            }
        }
        let ghost prev = *self;
        assert(forall|k: int| #[trigger] prev.spec_get(k) == old(self).spec_get(k));
        self.slots.set(id, Some(value));
        assert forall|k: int| k != id implies #[trigger] self.spec_get(k) == prev.spec_get(k) by {
            if 0 <= k < prev.slots@.len() {
                assert(self.slots@[k] == prev.slots@[k]);
            }
        }
    }

    pub fn get(&self, id: usize) -> (res: Option<&T>)
        ensures
            res matches Some(v) ==> self.spec_get(id as int) == Some(*v),
            res is None ==> self.spec_get(id as int) is None,
    {
        if id < self.slots.len() {
            match &self.slots[id] {
                Some(v) => Some(v),
                None => None,
            }
        } else {
            None
        }
    }

    /// The number of occupied slots.
    pub open spec fn spec_count_from(s: Seq<Option<T>>) -> nat
        decreases s.len(),
    {
        if s.len() == 0 {
            0
        } else {
            Self::spec_count_from(s.drop_last()) + if s.last() is Some {
                1nat
            } else {
                0nat
            }
        }
    }

    pub fn count(&self) -> (n: usize)
        ensures
            n == Self::spec_count_from(self.slots@),
    {
        let mut n: usize = 0;
        let mut i: usize = 0;
        while i < self.slots.len()
            invariant
                i <= self.slots@.len(),
                n == Self::spec_count_from(self.slots@.take(i as int)),
                n <= i,
            decreases self.slots.len() - i,
        {
            assert(self.slots@.take(i + 1).drop_last() =~= self.slots@.take(i as int));
            if self.slots[i].is_some() {
                n = n + 1;
            }
            i = i + 1;
        }
        assert(self.slots@.take(i as int) =~= self.slots@);
        n
    }
}

} // verus!
