use crate::entry::DirEntry;
use crate::model::{EntryView, VfsView};
use crate::ops::DirNodeOps;
use vstd::prelude::*;

verus! {

/// The entry with the number `id`.
pub open spec fn entry_at(id: usize) -> DirEntry {
    DirEntry { id }
}

impl<D: DirNodeOps> VfsView<D> {
    /// Whether the two states differ in nothing but caches, and each cache
    /// of `self` is a part of the cache of `other`.
    pub open spec fn caches_within(self, other: VfsView<D>) -> bool {
        &&& self.mounts == other.mounts
        &&& self.entries.len() == other.entries.len()
        &&& forall|i: int|
            0 <= i < self.entries.len() ==> {
                &&& (#[trigger] self.entries[i]).cache.submap_of(other.entries[i].cache)
                &&& self.entries[i] == (EntryView {
                    cache: self.entries[i].cache,
                    ..other.entries[i]
                })
            }
    }

    /// Whether `e` is `dir` or hangs below one of the entries `done`.
    pub open spec fn cleared(self, dir: DirEntry, done: Seq<usize>, e: DirEntry) -> bool {
        e == dir || exists|j: int| 0 <= j < done.len() && self.under(entry_at(#[trigger] done[j]), e)
    }

    /// The state after `dir` and everything below the entries `done` have
    /// dropped their caches.
    pub open spec fn forget_some(self, dir: DirEntry, done: Seq<usize>) -> VfsView<D> {
        VfsView {
            entries: Seq::new(
                self.entries.len(),
                |i: int|
                    if self.cleared(dir, done, DirEntry { id: i as usize }) {
                        EntryView { cache: Map::empty(), ..self.entries[i] }
                    } else {
                        self.entries[i]
                    },
            ),
            mounts: self.mounts,
        }
    }

    /// What hangs below an entry was entered after it.
    pub proof fn lemma_under_order(self, a: DirEntry, e: DirEntry)
        requires
            self.under(a, e),
        ensures
            a.id <= e.id,
        decreases e.id,
    {
        if e != a {
            self.lemma_under_order(a, self.entry(e).parent->0);
        }
    }

    /// Hanging below is transitive.
    pub proof fn lemma_under_trans(self, a: DirEntry, b: DirEntry, e: DirEntry)
        requires
            self.under(a, b),
            self.under(b, e),
        ensures
            self.under(a, e),
        decreases e.id,
    {
        if e != b {
            self.lemma_under_trans(a, b, self.entry(e).parent->0);
        }
    }

    /// Of two entries that an entry hangs below, one hangs below the other.
    pub proof fn lemma_under_linear(self, a: DirEntry, b: DirEntry, e: DirEntry)
        requires
            self.under(a, e),
            self.under(b, e),
        ensures
            self.under(a, b) || self.under(b, a),
        decreases e.id,
    {
        if e != a && e != b {
            self.lemma_under_linear(a, b, self.entry(e).parent->0);
        }
    }

    /// With smaller caches, less hangs below an entry.
    pub proof fn lemma_under_within(self, other: VfsView<D>, a: DirEntry, e: DirEntry)
        requires
            self.caches_within(other),
            self.under(a, e),
        ensures
            other.under(a, e),
        decreases e.id,
    {
        if e != a {
            let p = self.entry(e).parent->0;
            assert(self.entries[p.id as int].cache.submap_of(other.entries[p.id as int].cache));
            assert(self.entries[e.id as int].name == other.entries[e.id as int].name);
            assert(self.entries[e.id as int].parent == other.entries[e.id as int].parent);
            self.lemma_under_within(other, a, p);
            let name = self.entry(e).name;
            assert(self.entry(p).cache.dom().contains(name));
            assert(other.entry(p).cache.contains_key(name));
            assert(other.cached_at(p, e));
            assert(other.has_entry(e) && other.has_entry(p));
        }
    }

    /// What hangs below `a` still does so where no cache below `a` has
    /// changed.
    pub proof fn lemma_under_kept(self, other: VfsView<D>, a: DirEntry, e: DirEntry)
        requires
            self.caches_within(other),
            other.under(a, e),
            forall|p: DirEntry|
                other.under(a, p) && other.has_entry(p) ==> #[trigger] self.entry(p).cache
                    == other.entry(p).cache,
        ensures
            self.under(a, e),
        decreases e.id,
    {
        if e != a {
            let p = other.entry(e).parent->0;
            self.lemma_under_kept(other, a, p);
            assert(self.entry(p).cache == other.entry(p).cache);
            assert(self.entries[e.id as int].name == other.entries[e.id as int].name);
            assert(self.entries[e.id as int].parent == other.entries[e.id as int].parent);
        }
    }

    /// A cached child hangs below its directory.
    pub proof fn lemma_child_under(self, dir: DirEntry, name: Seq<char>)
        requires
            self.wf(),
            self.has_entry(dir),
            self.entry(dir).cache.contains_key(name),
        ensures
            self.under(dir, self.entry(dir).cache[name]),
            dir.id < self.entry(dir).cache[name].id,
            self.has_entry(self.entry(dir).cache[name]),
            self.entry(self.entry(dir).cache[name]).parent == Some(dir),
    {
        assert(self.entry_wf(dir.id as int));
        let c = self.entry(dir).cache[name];
        assert(dir == DirEntry { id: dir.id as int as usize });
        assert(self.entry_wf(c.id as int));
        assert(self.cached_at(dir, c));
        assert(self.under(dir, dir));
        assert(self.under(dir, c));
    }

    /// What hangs below a directory is the directory itself and what hangs
    /// below its cached children.
    pub proof fn lemma_under_children(self, dir: DirEntry, e: DirEntry)
        requires
            self.wf(),
            self.has_entry(dir),
            self.under(dir, e),
            e != dir,
        ensures
            exists|name: Seq<char>|
                self.entry(dir).cache.contains_key(name) && self.under(
                    #[trigger] self.entry(dir).cache[name],
                    e,
                ),
        decreases e.id,
    {
        let p = self.entry(e).parent->0;
        if p == dir {
            let name = self.entry(e).name;
            assert(self.entry(dir).cache.contains_key(name) && self.under(
                self.entry(dir).cache[name],
                e,
            ));
        } else {
            self.lemma_under_children(dir, p);
            let name = choose|name: Seq<char>|
                self.entry(dir).cache.contains_key(name) && self.under(
                    #[trigger] self.entry(dir).cache[name],
                    p,
                );
            assert(self.under(self.entry(dir).cache[name], e));
        }
    }

    /// An entry that caches nothing has nothing to drop.
    pub proof fn lemma_forget_leaf(self, e: DirEntry)
        requires
            self.wf(),
            self.has_entry(e),
            self.entry(e).cache == Map::<Seq<char>, DirEntry>::empty(),
        ensures
            self.forget(e) == self,
    {
        assert forall|i: int| 0 <= i < self.entries.len() implies #[trigger] self.forget(
            e,
        ).entries[i] == self.entries[i] by {
            let x = DirEntry { id: i as usize };
            if self.under(e, x) && x != e {
                self.lemma_under_children(e, x);
            }
            if x == e {
                assert(self.entries[i].cache =~= Map::<Seq<char>, DirEntry>::empty());
            }
        }
        assert(self.forget(e).entries =~= self.entries);
    }

    /// Once all cached children of a directory are done, what has dropped
    /// its cache is what [`Self::forget`] names.
    pub proof fn lemma_forget_all(self, dir: DirEntry, done: Seq<usize>)
        requires
            self.wf(),
            self.has_entry(dir),
            forall|id: usize| #[trigger]
                done.contains(id) <==> exists|name: Seq<char>|
                    self.entry(dir).cache.contains_key(name) && #[trigger] self.entry(dir).cache[name]
                        == entry_at(id),
        ensures
            self.forget_some(dir, done) == self.forget(dir),
    {
        assert forall|i: int| 0 <= i < self.entries.len() implies #[trigger] self.forget_some(
            dir,
            done,
        ).entries[i] == self.forget(dir).entries[i] by {
            let e = DirEntry { id: i as usize };
            if self.cleared(dir, done, e) && e != dir {
                let j = choose|j: int|
                    0 <= j < done.len() && self.under(entry_at(#[trigger] done[j]), e);
                assert(done.contains(done[j]));
                let name = choose|name: Seq<char>|
                    self.entry(dir).cache.contains_key(name) && #[trigger] self.entry(dir).cache[name]
                        == entry_at(done[j]);
                self.lemma_child_under(dir, name);
                self.lemma_under_trans(dir, entry_at(done[j]), e);
            }
            if self.under(dir, e) && e != dir {
                self.lemma_under_children(dir, e);
                let name = choose|name: Seq<char>|
                    self.entry(dir).cache.contains_key(name) && self.under(
                        #[trigger] self.entry(dir).cache[name],
                        e,
                    );
                let c = self.entry(dir).cache[name];
                assert(c == entry_at(c.id));
                assert(done.contains(c.id));
                let j = choose|j: int| 0 <= j < done.len() && done[j] == c.id;
                assert(self.under(entry_at(done[j]), e));
            }
        }
        assert(self.forget_some(dir, done).entries =~= self.forget(dir).entries);
    }

    /// Doing one more cached child of `dir`: on the state in which `dir`
    /// and what hangs below the children `done` have dropped their caches,
    /// dropping the caches below `child` gives the state for `done` with
    /// `child` added.
    pub proof fn lemma_forget_step(self, dir: DirEntry, done: Seq<usize>, child: DirEntry)
        requires
            self.wf(),
            self.has_entry(dir),
            self.has_entry(child),
            self.entry(child).parent == Some(dir),
            forall|j: int|
                0 <= j < done.len() ==> self.has_entry(entry_at(#[trigger] done[j])) && self.entry(
                    entry_at(done[j]),
                ).parent == Some(dir),
        ensures
            self.forget_some(dir, done).forget(child) == self.forget_some(dir, done.push(child.id)),
    {
        let cur = self.forget_some(dir, done);
        let next = done.push(child.id);
        assert(self.entry_wf(child.id as int));
        assert(cur.caches_within(self)) by {
            assert forall|i: int| 0 <= i < cur.entries.len() implies {
                &&& (#[trigger] cur.entries[i]).cache.submap_of(self.entries[i].cache)
                &&& cur.entries[i] == (EntryView { cache: cur.entries[i].cache, ..self.entries[i] })
            } by {}
        }
        assert forall|i: int| 0 <= i < self.entries.len() implies #[trigger] cur.forget(
            child,
        ).entries[i] == self.forget_some(dir, next).entries[i] by {
            let e = DirEntry { id: i as usize };
            if cur.under(child, e) {
                cur.lemma_under_within(self, child, e);
                assert(next[done.len() as int] == child.id);
                assert(self.under(entry_at(next[done.len() as int]), e));
                assert(self.cleared(dir, next, e));
            } else if self.cleared(dir, next, e) {
                if !self.cleared(dir, done, e) {
                    let j = choose|j: int|
                        0 <= j < next.len() && self.under(entry_at(#[trigger] next[j]), e);
                    if j < done.len() {
                        assert(next[j] == done[j]);
                        assert(false);
                    }
                    assert(self.under(child, e));
                    // Nothing below `child` has dropped its cache yet.
                    if exists|j: int| 0 <= j < done.len() && done[j] == child.id {
                        let j = choose|j: int| 0 <= j < done.len() && done[j] == child.id;
                        assert(self.under(entry_at(done[j]), e));
                        assert(false);
                    }
                    assert forall|p: DirEntry|
                        self.under(child, p) && self.has_entry(p) implies #[trigger] cur.entry(
                        p,
                    ).cache == self.entry(p).cache by {
                        self.lemma_under_order(child, p);
                        if self.cleared(dir, done, p) {
                            let j = choose|j: int|
                                0 <= j < done.len() && self.under(entry_at(#[trigger] done[j]), p);
                            let other = entry_at(done[j]);
                            self.lemma_under_linear(child, other, p);
                            assert(self.entry_wf(other.id as int));
                            if self.under(child, other) {
                                assert(self.under(child, dir));
                                self.lemma_under_order(child, dir);
                            } else {
                                assert(self.under(other, dir));
                                self.lemma_under_order(other, dir);
                            }
                        }
                        assert(p == DirEntry { id: p.id as int as usize });
                    }
                    cur.lemma_under_kept(self, child, e);
                    assert(false);
                }
            } else {
                assert(!self.cleared(dir, done, e)) by {
                    if self.cleared(dir, done, e) {
                        let j = choose|j: int|
                            0 <= j < done.len() && self.under(entry_at(#[trigger] done[j]), e);
                        assert(next[j] == done[j]);
                        assert(self.under(entry_at(next[j]), e));
                    }
                }
            }
        }
        assert(cur.forget(child).entries =~= self.forget_some(dir, next).entries);
    }
}

} // verus!
