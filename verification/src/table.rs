use vstd::prelude::*;

verus! {

/// One binding of a [`Table`].
pub struct Slot {
    pub addr: usize,
    pub name: String,
    pub value: usize,
}

impl Slot {
    /// The key of the binding.
    pub open spec fn key(&self) -> (int, Seq<char>) {
        (self.addr as int, self.name@)
    }
}

/// Whether some key of the map is bound to `value`.
pub open spec fn binds_value(map: Map<(int, Seq<char>), int>, value: int) -> bool {
    exists|key: (int, Seq<char>)| map.contains_key(key) && #[trigger] map[key] == value
}

/// A map from keys, each an address and a name, to numbers, in which no
/// key occurs twice.
pub struct Table {
    slots: Vec<Slot>,
}

impl Table {
    /// No key occurs twice.
    pub closed spec fn wf(&self) -> bool {
        forall|i: int, j: int|
            0 <= i < self.slots.len() && 0 <= j < self.slots.len() && i != j ==> (
            #[trigger] self.slots[i]).key() != (#[trigger] self.slots[j]).key()
    }

    /// The position that holds `key`, if any does.
    pub closed spec fn position(&self, key: (int, Seq<char>)) -> int {
        choose|i: int| 0 <= i < self.slots.len() && (#[trigger] self.slots[i]).key() == key
    }

    /// The bindings as a map.
    pub closed spec fn view(&self) -> Map<(int, Seq<char>), int> {
        Map::new(
            |key: (int, Seq<char>)|
                exists|i: int| 0 <= i < self.slots.len() && (#[trigger] self.slots[i]).key() == key,
            |key: (int, Seq<char>)| self.slots[self.position(key)].value as int,
        )
    }

    /// What position `i` holds is bound in the map.
    proof fn lemma_slot(&self, i: int)
        requires
            self.wf(),
            0 <= i < self.slots.len(),
        ensures
            self@.contains_key(self.slots[i].key()),
            self@[self.slots[i].key()] == self.slots[i].value,
            self.position(self.slots[i].key()) == i,
    {
        let key = self.slots[i].key();
        let p = self.position(key);
        assert(0 <= p < self.slots.len() && self.slots[p].key() == key);
    }

    /// Every value of the map is a `usize`.
    pub proof fn lemma_values_bounded(&self)
        ensures
            forall|key: (int, Seq<char>)|
                self@.contains_key(key) ==> 0 <= #[trigger] self@[key] <= usize::MAX,
    {
    }

    /// The empty table.
    pub fn new() -> (r: Table)
        ensures
            r.wf(),
            r@ == Map::<(int, Seq<char>), int>::empty(),
    {
        let r = Table { slots: Vec::new() };
        assert(r@ =~= Map::<(int, Seq<char>), int>::empty());
        r
    }

    /// The number of bindings.
    pub fn len(&self) -> (r: usize)
        requires
            self.wf(),
        ensures
            (r == 0) == (self@ == Map::<(int, Seq<char>), int>::empty()),
    {
        proof {
            if self.slots.len() > 0 {
                self.lemma_slot(0);
            } else {
                assert(self@ =~= Map::<(int, Seq<char>), int>::empty());
            }
        }
        self.slots.len()
    }

    /// The position of `key` among the slots.
    fn find(&self, addr: usize, name: &String) -> (r: Option<usize>)
        requires
            self.wf(),
        ensures
            match r {
                Some(i) => i < self.slots.len() && self.slots[i as int].key() == (
                    addr as int,
                    name@,
                ),
                None => !self@.contains_key((addr as int, name@)),
            },
    {
        let mut i: usize = 0;
        while i < self.slots.len()
            invariant
                i <= self.slots.len(),
                forall|k: int| 0 <= k < i ==> (#[trigger] self.slots[k]).key() != (addr as int, name@),
            decreases self.slots.len() - i,
        {
            if self.slots[i].addr == addr && self.slots[i].name == *name {
                return Some(i);
            }
            i = i + 1;
        }
        None
    }

    /// The value bound to the key, if it is bound.
    pub fn get(&self, addr: usize, name: &String) -> (r: Option<usize>)
        requires
            self.wf(),
        ensures
            match r {
                Some(v) => self@.contains_key((addr as int, name@)) && self@[(addr as int, name@)]
                    == v,
                None => !self@.contains_key((addr as int, name@)),
            },
    {
        match self.find(addr, name) {
            Some(i) => {
                proof {
                    self.lemma_slot(i as int);
                }
                Some(self.slots[i].value)
            },
            None => None,
        }
    }

    /// Binds the key to `value` and returns what it was bound to before.
    pub fn insert(&mut self, addr: usize, name: String, value: usize) -> (r: Option<usize>)
        requires
            old(self).wf(),
        ensures
            final(self).wf(),
            final(self)@ == old(self)@.insert((addr as int, name@), value as int),
            match r {
                Some(v) => old(self)@.contains_key((addr as int, name@)) && old(self)@[(
                    addr as int,
                    name@,
                )] == v,
                None => !old(self)@.contains_key((addr as int, name@)),
            },
    {
        let ghost key = (addr as int, name@);
        let ghost before = *self;
        match self.find(addr, &name) {
            Some(i) => {
                proof {
                    before.lemma_slot(i as int);
                }
                let previous = self.slots[i].value;
                self.slots[i].value = value;
                proof {
                    assert forall|k: int| 0 <= k < self.slots.len() implies (
                    #[trigger] self.slots[k]).key() == before.slots[k].key() by {}
                    assert(self.wf());
                    assert forall|q: (int, Seq<char>)|
                        self@.contains_key(q) == before@.insert(key, value as int).contains_key(
                            q,
                        ) by {
                        if before@.contains_key(q) {
                            let p = before.position(q);
                            assert(self.slots[p].key() == q);
                        }
                    }
                    assert forall|q: (int, Seq<char>)| self@.contains_key(q) implies self@[q]
                        == before@.insert(key, value as int)[q] by {
                        let p = self.position(q);
                        assert(0 <= p < self.slots.len() && self.slots[p].key() == q);
                        self.lemma_slot(p);
                        assert(before.slots[p].key() == q);
                        before.lemma_slot(p);
                    }
                    assert(self@ =~= before@.insert(key, value as int));
                }
                Some(previous)
            },
            None => {
                self.slots.push(Slot { addr, name, value });
                proof {
                    let n = before.slots.len() as int;
                    assert forall|k: int| 0 <= k < n implies (#[trigger] self.slots[k])
                        == before.slots[k] by {}
                    assert(self.slots[n].key() == key);
                    assert forall|i: int, j: int|
                        0 <= i < self.slots.len() && 0 <= j < self.slots.len() && i != j implies (
                    #[trigger] self.slots[i]).key() != (#[trigger] self.slots[j]).key() by {
                        if i < n && j < n {
                            assert(before.slots[i].key() != before.slots[j].key());
                        } else if i < n {
                            assert(before.slots[i].key() != key);
                        } else {
                            assert(before.slots[j].key() != key);
                        }
                    }
                    assert forall|q: (int, Seq<char>)|
                        self@.contains_key(q) == before@.insert(key, value as int).contains_key(
                            q,
                        ) by {
                        if before@.contains_key(q) {
                            let p = before.position(q);
                            assert(self.slots[p].key() == q);
                        }
                        if q == key {
                            assert(self.slots[n].key() == q);
                        }
                    }
                    assert forall|q: (int, Seq<char>)| self@.contains_key(q) implies self@[q]
                        == before@.insert(key, value as int)[q] by {
                        let p = self.position(q);
                        assert(0 <= p < self.slots.len() && self.slots[p].key() == q);
                        self.lemma_slot(p);
                        if p < n {
                            assert(before.slots[p].key() == q);
                            before.lemma_slot(p);
                        }
                    }
                    assert(self@ =~= before@.insert(key, value as int));
                }
                None
            },
        }
    }

    /// Removes the binding of the key and returns what it was bound to.
    pub fn remove(&mut self, addr: usize, name: &String) -> (r: Option<usize>)
        requires
            old(self).wf(),
        ensures
            final(self).wf(),
            final(self)@ == old(self)@.remove((addr as int, name@)),
            match r {
                Some(v) => old(self)@.contains_key((addr as int, name@)) && old(self)@[(
                    addr as int,
                    name@,
                )] == v,
                None => !old(self)@.contains_key((addr as int, name@)),
            },
    {
        let ghost key = (addr as int, name@);
        let ghost before = *self;
        match self.find(addr, name) {
            Some(i) => {
                proof {
                    before.lemma_slot(i as int);
                }
                let gone = self.slots.remove(i);
                proof {
                    let n = self.slots.len() as int;
                    assert forall|k: int| 0 <= k < n implies (#[trigger] self.slots[k]) == (if k
                        < i {
                        before.slots[k]
                    } else {
                        before.slots[k + 1]
                    }) by {}
                    assert forall|a: int, b: int| 0 <= a < n && 0 <= b < n && a != b implies (
                    #[trigger] self.slots[a]).key() != (#[trigger] self.slots[b]).key() by {
                        let a0 = if a < i { a } else { a + 1 };
                        let b0 = if b < i { b } else { b + 1 };
                        assert(before.slots[a0].key() != before.slots[b0].key());
                    }
                    assert forall|q: (int, Seq<char>)|
                        self@.contains_key(q) == before@.remove(key).contains_key(q) by {
                        if self@.contains_key(q) {
                            let p = self.position(q);
                            assert(0 <= p < n && self.slots[p].key() == q);
                            let p0 = if p < i { p } else { p + 1 };
                            assert(before.slots[p0].key() == q);
                            assert(before.slots[p0].key() != before.slots[i as int].key());
                        }
                        if before@.remove(key).contains_key(q) {
                            let p0 = before.position(q);
                            assert(0 <= p0 < before.slots.len() && before.slots[p0].key() == q);
                            assert(p0 != i);
                            let p = if p0 < i { p0 } else { p0 - 1 };
                            assert(self.slots[p].key() == q);
                        }
                    }
                    assert forall|q: (int, Seq<char>)| self@.contains_key(q) implies self@[q]
                        == before@.remove(key)[q] by {
                        let p = self.position(q);
                        assert(0 <= p < n && self.slots[p].key() == q);
                        self.lemma_slot(p);
                        let p0 = if p < i { p } else { p + 1 };
                        assert(before.slots[p0].key() == q);
                        before.lemma_slot(p0);
                    }
                    assert(self@ =~= before@.remove(key));
                }
                Some(gone.value)
            },
            None => {
                assert(self@ =~= before@.remove(key));
                None
            },
        }
    }

    /// Empties the table and returns the values it held.
    pub fn take_values(&mut self) -> (r: Vec<usize>)
        requires
            old(self).wf(),
        ensures
            final(self).wf(),
            final(self)@ == Map::<(int, Seq<char>), int>::empty(),
            forall|v: usize| #[trigger] r@.contains(v) <==> binds_value(old(self)@, v as int),
    {
        let ghost before = *self;
        let mut out: Vec<usize> = Vec::new();
        let mut i: usize = 0;
        while i < self.slots.len()
            invariant
                *self == before,
                i <= self.slots.len(),
                out.len() == i,
                forall|k: int| 0 <= k < i ==> out[k] == (#[trigger] self.slots[k]).value,
            decreases self.slots.len() - i,
        {
            out.push(self.slots[i].value);
            i = i + 1;
        }
        self.slots = Vec::new();
        proof {
            assert(self@ =~= Map::<(int, Seq<char>), int>::empty());
            assert forall|v: usize| #[trigger] out@.contains(v) <==> binds_value(
                before@,
                v as int,
            ) by {
                if out@.contains(v) {
                    let k = choose|i: int| 0 <= i < out.len() && out[i] == v;
                    before.lemma_slot(k);
                }
                if binds_value(before@, v as int) {
                    let key = choose|key: (int, Seq<char>)|
                        before@.contains_key(key) && before@[key] == v;
                    let p = before.position(key);
                    assert(0 <= p < before.slots.len() && before.slots[p].key() == key);
                    assert(out[p] == before.slots[p].value);
                }
            }
        }
        out
    }
}

} // verus!
