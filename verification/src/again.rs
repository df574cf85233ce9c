use crate::entry::DirEntry;
use crate::model::{EntryView, VfsView};
use crate::mount::{Location, Mountpoint};
use crate::ops::DirNodeOps;
use crate::path::{dot, dotdot, path_file_name, path_steps, Step};
use crate::steps::Told;
use crate::walk::Answers;
use vstd::prelude::*;

verus! {

/// Whether the backend says, wherever it is asked in these answers, that
/// the directory is cacheable.
pub open spec fn all_cacheable<D: DirNodeOps>(answers: Answers<D>) -> bool {
    forall|j: int| (#[trigger] answers[j]).cacheable && answers[j].looked.cache_it
}

/// What resolving a path leaves behind: a second walk over the same path
/// finds every step in the caches.
impl<D: DirNodeOps> VfsView<D> {
    /// Whether `later` holds all that `self` holds: the same mounts, the
    /// same entries and perhaps more, each with all that it cached and
    /// perhaps more.
    pub open spec fn grown_to(self, later: VfsView<D>) -> bool {
        &&& self.mounts == later.mounts
        &&& self.entries.len() <= later.entries.len()
        &&& forall|i: int|
            0 <= i < self.entries.len() ==> {
                &&& self.entries[i].cache.submap_of((#[trigger] later.entries[i]).cache)
                &&& later.entries[i] == (EntryView {
                    cache: later.entries[i].cache,
                    ..self.entries[i]
                })
            }
    }

    /// Growing is transitive.
    pub proof fn lemma_grown_trans(self, mid: VfsView<D>, later: VfsView<D>)
        requires
            self.grown_to(mid),
            mid.grown_to(later),
        ensures
            self.grown_to(later),
    {
        assert forall|i: int| 0 <= i < self.entries.len() implies {
            &&& self.entries[i].cache.submap_of((#[trigger] later.entries[i]).cache)
            &&& later.entries[i] == (EntryView { cache: later.entries[i].cache, ..self.entries[i] })
        } by {
            let a = self.entries[i].cache;
            let b = mid.entries[i].cache;
            let c = later.entries[i].cache;
            assert(a.submap_of(b));
            assert(b.submap_of(c));
            vstd::map_lib::lemma_submap_of_trans(a, b, c);
            assert(later.entries[i] == (EntryView { cache: c, ..mid.entries[i] }));
            assert(mid.entries[i] == (EntryView { cache: b, ..self.entries[i] }));
        }
    }

    /// The topmost mount of a stack stays what it is where the namespace
    /// grows, and is a mount of the namespace.
    pub proof fn lemma_grown_effective(self, later: VfsView<D>, m: Mountpoint)
        requires
            self.wf(),
            self.grown_to(later),
            self.has_mount(m),
        ensures
            later.effective(m) == self.effective(m),
            self.has_mount(self.effective(m)),
            self.has_entry(self.mount(self.effective(m)).root),
        decreases self.entries.len() - self.mount(m).root.id,
    {
        assert(self.mount_wf(m.id as int));
        let root = self.mount(m).root;
        assert(self.entry_wf(root.id as int));
        assert(later.entries[root.id as int].mounted == self.entries[root.id as int].mounted);
        match self.entry(root).mounted {
            Some(top) => {
                assert(self.mount_wf(top.id as int));
                self.lemma_grown_effective(later, top);
            },
            None => {},
        }
    }

    /// Where a walk stands after it has reached a position stays what it
    /// is where the namespace grows, and is a position of the namespace.
    pub proof fn lemma_grown_cross(self, later: VfsView<D>, loc: Location)
        requires
            self.wf(),
            self.grown_to(later),
            self.has_location(loc),
        ensures
            later.cross_mounts(loc) == self.cross_mounts(loc),
            self.has_location(self.cross_mounts(loc)),
    {
        assert(self.entry_wf(loc.entry.id as int));
        assert(later.entries[loc.entry.id as int].mounted == self.entries[loc.entry.id as int].mounted);
        match self.entry(loc.entry).mounted {
            Some(m) => {
                self.lemma_grown_effective(later, m);
            },
            None => {},
        }
    }

    /// The position above a position stays what it is where the namespace
    /// grows, and is a position of the namespace.
    pub proof fn lemma_grown_parent(self, later: VfsView<D>, loc: Location)
        requires
            self.wf(),
            self.grown_to(later),
            self.has_location(loc),
        ensures
            later.location_parent(loc) == self.location_parent(loc),
            self.location_parent(loc) matches Some(above) ==> self.has_location(above),
        decreases loc.mountpoint.id,
    {
        assert(self.entry_wf(loc.entry.id as int));
        assert(later.entries[loc.entry.id as int].parent == self.entries[loc.entry.id as int].parent);
        assert(self.mount_wf(loc.mountpoint.id as int));
        if self.entry(loc.entry).parent is None {
            match self.mount(loc.mountpoint).location {
                Some(above) => {
                    self.lemma_grown_parent(later, above);
                },
                None => {},
            }
        }
    }

    /// A lookup from a position keeps the invariant and lets the namespace
    /// grow; what it finds is a position of the namespace.
    pub proof fn lemma_lookup_grows(self, loc: Location, name: Seq<char>, told: Told<D>)
        requires
            self.wf(),
            self.has_location(loc),
            self.location_lookup_step(loc, name, told).0.entries.len() <= usize::MAX,
        ensures
            ({
                let (post, r) = self.location_lookup_step(loc, name, told);
                &&& post.wf()
                &&& self.grown_to(post)
                &&& r matches Ok(found) ==> post.has_location(found)
            }),
    {
        let (post, r) = self.location_lookup_step(loc, name, told);
        assert(self.grown_to(self)) by {
            assert forall|i: int| 0 <= i < self.entries.len() implies {
                &&& self.entries[i].cache.submap_of((#[trigger] self.entries[i]).cache)
                &&& self.entries[i] == (EntryView { cache: self.entries[i].cache, ..self.entries[i] })
            } by {}
        }
        if name == dot() {
        } else if name == dotdot() {
            self.lemma_grown_parent(self, loc);
        } else if !self.entry(loc.entry).is_dir {
        } else {
            let dir = loc.entry;
            let (mid, looked) = self.lookup_step(dir, name, told);
            if told.cacheable && self.entry(dir).cache.contains_key(name) {
                self.lemma_child_under(dir, name);
            } else if told.looked.found is Ok {
                let node = told.looked.found->Ok_0;
                let entered = self.entered(dir, name, node);
                self.lemma_push_entry_wf(entered.entries.last());
                assert(entered.entries.last() == entered.entries[self.entries.len() as int]);
                assert(self.grown_to(entered)) by {
                    assert forall|i: int| 0 <= i < self.entries.len() implies {
                        &&& self.entries[i].cache.submap_of((#[trigger] entered.entries[i]).cache)
                        &&& entered.entries[i] == (EntryView {
                            cache: entered.entries[i].cache,
                            ..self.entries[i]
                        })
                    } by {}
                }
                if told.cacheable && told.looked.cache_it {
                    entered.lemma_cache_insert_wf(dir, name, self.next_entry());
                    assert(entered.grown_to(mid)) by {
                        assert forall|i: int| 0 <= i < entered.entries.len() implies {
                            &&& entered.entries[i].cache.submap_of((#[trigger] mid.entries[i]).cache)
                            &&& mid.entries[i] == (EntryView {
                                cache: mid.entries[i].cache,
                                ..entered.entries[i]
                            })
                        } by {
                            if i == dir.id {
                                assert(!entered.entries[i].cache.contains_key(name));
                            }
                        }
                    }
                    self.lemma_grown_trans(entered, mid);
                }
            }
            if looked is Ok {
                mid.lemma_grown_cross(
                    mid,
                    Location { mountpoint: loc.mountpoint, entry: looked->Ok_0 },
                );
            }
        }
    }

    /// A lookup that was answered once is answered from the cache the
    /// second time: where the backend said that the directory is cacheable,
    /// and says so again, the same lookup in a namespace that has grown
    /// since finds the same position and changes nothing.
    pub proof fn lemma_lookup_again(
        self,
        later: VfsView<D>,
        loc: Location,
        name: Seq<char>,
        told: Told<D>,
        again: Told<D>,
    )
        requires
            self.wf(),
            self.has_location(loc),
            self.location_lookup_step(loc, name, told).1 is Ok,
            self.location_lookup_step(loc, name, told).0.grown_to(later),
            later.entries.len() <= usize::MAX,
            told.cacheable,
            told.looked.cache_it,
            again.cacheable,
        ensures
            later.location_lookup_step(loc, name, again) == (
                later,
                self.location_lookup_step(loc, name, told).1,
            ),
    {
        let (post, r) = self.location_lookup_step(loc, name, told);
        self.lemma_lookup_grows(loc, name, told);
        self.lemma_grown_trans(post, later);
        assert(later.entries[loc.entry.id as int].is_dir == self.entries[loc.entry.id as int].is_dir);
        if name == dot() {
        } else if name == dotdot() {
            self.lemma_grown_parent(later, loc);
        } else {
            let dir = loc.entry;
            let (mid, looked) = self.lookup_step(dir, name, told);
            let found = looked->Ok_0;
            if self.entry(dir).cache.contains_key(name) {
                self.lemma_child_under(dir, name);
            }
            assert(mid.entries[dir.id as int].cache.contains_key(name));
            assert(mid.entries[dir.id as int].cache[name] == found);
            assert(mid.entries[dir.id as int].cache.submap_of(later.entries[dir.id as int].cache));
            assert(later.entry(dir).cache.contains_key(name));
            assert(later.entry(dir).cache[name] == found);
            mid.lemma_grown_cross(later, Location { mountpoint: loc.mountpoint, entry: found });
        }
    }

    /// A step of a walk takes no entry away.
    pub proof fn lemma_walk_len(
        self,
        root: Location,
        start: Location,
        steps: Seq<Step>,
        answers: Answers<D>,
        n: nat,
    )
        requires
            n > 0,
        ensures
            self.walk(root, start, steps, answers, (n - 1) as nat).0.entries.len() <= self.walk(
                root,
                start,
                steps,
                answers,
                n,
            ).0.entries.len(),
    {
        let (mid, r) = self.walk(root, start, steps, answers, (n - 1) as nat);
        if r is Ok {
            let (post, d) = mid.walk_one(root, r->Ok_0, steps[n - 1], answers[n - 1]);
            match steps[n - 1] {
                Step::Normal(name) => {
                    mid.lemma_lookup_len(r->Ok_0, name, answers[n - 1]);
                },
                _ => {},
            }
            assert(mid.entries.len() <= post.entries.len());
        }
    }

    /// A walk keeps the invariant and lets the namespace grow; where it
    /// stands is a position of the namespace.
    pub proof fn lemma_walk_grows(
        self,
        root: Location,
        start: Location,
        steps: Seq<Step>,
        answers: Answers<D>,
        n: nat,
    )
        requires
            self.wf(),
            self.has_location(root),
            self.has_location(start),
            self.walk(root, start, steps, answers, n).0.entries.len() <= usize::MAX,
        ensures
            ({
                let (post, r) = self.walk(root, start, steps, answers, n);
                &&& post.wf()
                &&& self.grown_to(post)
                &&& post.has_location(root)
                &&& r matches Ok(dir) ==> post.has_location(dir)
            }),
        decreases n,
    {
        if n == 0 {
            self.lemma_lookup_grows(start, dot(), answers[0]);
        } else {
            self.lemma_walk_len(root, start, steps, answers, n);
            self.lemma_walk_grows(root, start, steps, answers, (n - 1) as nat);
            let (mid, r) = self.walk(root, start, steps, answers, (n - 1) as nat);
            if r is Ok {
                let dir = r->Ok_0;
                match steps[n - 1] {
                    Step::Normal(name) => {
                        mid.lemma_lookup_grows(dir, name, answers[n - 1]);
                        self.lemma_grown_trans(mid, mid.walk_one(root, dir, steps[n - 1], answers[n - 1]).0);
                    },
                    Step::ParentDir => {
                        mid.lemma_lookup_grows(dir, dot(), answers[n - 1]);
                        mid.lemma_grown_parent(mid, dir);
                    },
                    _ => {},
                }
            }
        }
    }

    /// A walk that has arrived somewhere arrives there again from what it
    /// left behind: where the backend said of every directory that it is
    /// cacheable, and says so again, the same walk in a namespace that has
    /// grown since stands at the same position and changes nothing,
    /// whatever the backend would find.
    pub proof fn lemma_walk_again(
        self,
        later: VfsView<D>,
        root: Location,
        start: Location,
        steps: Seq<Step>,
        first: Answers<D>,
        second: Answers<D>,
        n: nat,
    )
        requires
            self.wf(),
            self.has_location(root),
            self.has_location(start),
            self.walk(root, start, steps, first, n).1 is Ok,
            self.walk(root, start, steps, first, n).0.grown_to(later),
            later.entries.len() <= usize::MAX,
            all_cacheable(first),
            all_cacheable(second),
        ensures
            later.walk(root, start, steps, second, n) == (
                later,
                self.walk(root, start, steps, first, n).1,
            ),
        decreases n,
    {
        if n > 0 {
            let (mid, r) = self.walk(root, start, steps, first, (n - 1) as nat);
            let dir = r->Ok_0;
            let (post, d) = mid.walk_one(root, dir, steps[n - 1], first[n - 1]);
            self.lemma_walk_len(root, start, steps, first, n);
            self.lemma_walk_grows(root, start, steps, first, (n - 1) as nat);
            self.lemma_walk_grows(root, start, steps, first, n);
            assert(mid.grown_to(post)) by {
                match steps[n - 1] {
                    Step::Normal(name) => {
                        mid.lemma_lookup_grows(dir, name, first[n - 1]);
                    },
                    _ => {
                        mid.lemma_lookup_grows(dir, dot(), first[n - 1]);
                    },
                }
            }
            mid.lemma_grown_trans(post, later);
            self.lemma_walk_again(later, root, start, steps, first, second, (n - 1) as nat);
            assert(first[n - 1].cacheable && first[n - 1].looked.cache_it);
            assert(second[n - 1].cacheable);
            match steps[n - 1] {
                Step::Normal(name) => {
                    mid.lemma_lookup_again(later, dir, name, first[n - 1], second[n - 1]);
                },
                Step::ParentDir => {
                    mid.lemma_grown_parent(later, dir);
                },
                _ => {},
            }
        }
    }

    /// Resolving a path a second time gives the same position: where a
    /// path has resolved to a position and the backend said of every
    /// directory on the way that it is cacheable, and says so again, the
    /// same path resolves in the state that the first call left to the same
    /// position and changes nothing, whatever the backend would find under
    /// the names.
    pub proof fn lemma_resolve_again(
        self,
        root: Location,
        cwd: Location,
        path: Seq<char>,
        first: Answers<D>,
        first_last: Told<D>,
        second: Answers<D>,
        second_last: Told<D>,
    )
        requires
            self.wf(),
            self.has_location(root),
            self.has_location(cwd),
            self.resolve_step(root, cwd, path, first, first_last).1 is Ok,
            self.resolve_step(root, cwd, path, first, first_last).0.entries.len() <= usize::MAX,
            all_cacheable(first),
            all_cacheable(second),
            first_last.cacheable,
            first_last.looked.cache_it,
            second_last.cacheable,
        ensures
            ({
                let (post, r) = self.resolve_step(root, cwd, path, first, first_last);
                &&& post.wf()
                &&& post.resolve_step(root, cwd, path, second, second_last) == (post, r)
            }),
    {
        let steps = path_steps(path);
        let lead = Self::lead_of(path);
        let (mid, walked) = self.walk(root, cwd, steps, first, lead);
        let (post, r) = self.resolve_step(root, cwd, path, first, first_last);
        self.lemma_walk_grows(root, cwd, steps, first, lead);
        let dir = walked->Ok_0;
        match path_file_name(path) {
            Some(name) => {
                mid.lemma_lookup_grows(dir, name, first_last);
                self.lemma_walk_again(post, root, cwd, steps, first, second, lead);
                assert(post.entries[dir.entry.id as int].is_dir == mid.entries[dir.entry.id as int].is_dir);
                mid.lemma_lookup_again(post, dir, name, first_last, second_last);
            },
            None => {
                self.lemma_walk_again(post, root, cwd, steps, first, second, lead);
            },
        }
    }

    /// After a path that is not empty has resolved to a position, the
    /// path with `/.` behind it resolves to the same position: two calls in
    /// a row, the second in the state that the first has left, with a
    /// backend that says of every directory on the way that it is cacheable.
    pub proof fn lemma_resolve_then_dot(
        self,
        root: Location,
        cwd: Location,
        path: Seq<char>,
        first: Answers<D>,
        first_last: Told<D>,
        second: Answers<D>,
        second_last: Told<D>,
    )
        requires
            path.len() > 0,
            self.wf(),
            self.has_location(root),
            self.has_location(cwd),
            self.resolve_step(root, cwd, path, first, first_last).1 is Ok,
            self.resolve_step(root, cwd, path, first, first_last).0.entries.len() <= usize::MAX,
            all_cacheable(first),
            all_cacheable(second),
            first_last.cacheable,
            first_last.looked.cache_it,
            second_last.cacheable,
        ensures
            ({
                let (post, r) = self.resolve_step(root, cwd, path, first, first_last);
                post.resolve_step(root, cwd, path + seq!['/', '.'], second, second_last) == (post, r)
            }),
    {
        let post = self.resolve_step(root, cwd, path, first, first_last).0;
        self.lemma_resolve_again(root, cwd, path, first, first_last, second, second_last);
        post.lemma_resolve_trailing_dot(root, cwd, path, second, second_last);
    }

    /// After a path that is not empty has resolved to a position, the
    /// path with `/..` behind it resolves to the position above, which is
    /// the root of the resolver where the position is that root or has
    /// nothing above it: two calls in a row, the second in the state that
    /// the first has left, with a backend that says of every directory on
    /// the way that it is cacheable.
    pub proof fn lemma_resolve_then_dotdot(
        self,
        root: Location,
        cwd: Location,
        path: Seq<char>,
        first: Answers<D>,
        first_last: Told<D>,
        second: Answers<D>,
        second_last: Told<D>,
    )
        requires
            path.len() > 0,
            self.wf(),
            self.has_location(root),
            self.has_location(cwd),
            self.entry(root.entry).is_dir,
            self.resolve_step(root, cwd, path, first, first_last).1 is Ok,
            self.resolve_step(root, cwd, path, first, first_last).0.entries.len() <= usize::MAX,
            all_cacheable(first),
            all_cacheable(second),
            first_last.cacheable,
            first_last.looked.cache_it,
            second_last.cacheable,
        ensures
            ({
                let (post, r) = self.resolve_step(root, cwd, path, first, first_last);
                let n = path_steps(path).len() as int;
                let again = Seq::new(
                    (n + 1) as nat,
                    |k: int|
                        if path_file_name(path) is Some && k == n - 1 {
                            second_last
                        } else {
                            second[k]
                        },
                );
                post.resolve_step(root, cwd, path + seq!['/', '.', '.'], again, second_last) == (
                    post,
                    Ok::<Location, crate::error::VfsError>(post.step_up(root, r->Ok_0)),
                )
            }),
    {
        let (post, r) = self.resolve_step(root, cwd, path, first, first_last);
        self.lemma_resolve_again(root, cwd, path, first, first_last, second, second_last);
        self.lemma_resolve_grows(root, cwd, path, first, first_last);
        let at = r->Ok_0;
        let up = post.step_up(root, at);
        assert(post.entry(up.entry).is_dir) by {
            assert(post.entries[root.entry.id as int].is_dir == self.entries[root.entry.id as int].is_dir);
            if at != root {
                post.lemma_grown_parent(post, at);
                if post.location_parent(at) is Some {
                    post.lemma_parent_is_dir(at);
                }
            }
        }
        post.lemma_resolve_trailing_dotdot(root, cwd, path, second, second_last);
    }

    /// Resolving a path keeps the invariant and lets the namespace grow;
    /// what it finds is a position of the namespace.
    pub proof fn lemma_resolve_grows(
        self,
        root: Location,
        cwd: Location,
        path: Seq<char>,
        answers: Answers<D>,
        last: Told<D>,
    )
        requires
            self.wf(),
            self.has_location(root),
            self.has_location(cwd),
            self.resolve_step(root, cwd, path, answers, last).0.entries.len() <= usize::MAX,
        ensures
            ({
                let (post, r) = self.resolve_step(root, cwd, path, answers, last);
                &&& post.wf()
                &&& self.grown_to(post)
                &&& r matches Ok(found) ==> post.has_location(found)
            }),
    {
        let steps = path_steps(path);
        let lead = Self::lead_of(path);
        let (mid, walked) = self.walk(root, cwd, steps, answers, lead);
        if walked is Ok {
            let dir = walked->Ok_0;
            match path_file_name(path) {
                Some(name) => {
                    if mid.entry(dir.entry).is_dir {
                        mid.lemma_lookup_len(dir, name, last);
                        self.lemma_walk_grows(root, cwd, steps, answers, lead);
                        mid.lemma_lookup_grows(dir, name, last);
                        self.lemma_grown_trans(mid, mid.location_lookup_step(dir, name, last).0);
                    } else {
                        self.lemma_walk_grows(root, cwd, steps, answers, lead);
                    }
                },
                None => {
                    self.lemma_walk_grows(root, cwd, steps, answers, lead);
                },
            }
        } else {
            self.lemma_walk_grows(root, cwd, steps, answers, lead);
        }
    }

    /// A lookup takes no entry away.
    pub proof fn lemma_lookup_len(self, loc: Location, name: Seq<char>, told: Told<D>)
        ensures
            self.entries.len() <= self.location_lookup_step(loc, name, told).0.entries.len(),
    {
        let dir = loc.entry;
        if told.looked.found is Ok {
            let entered = self.entered(dir, name, told.looked.found->Ok_0);
            assert(entered.entries.len() == self.entries.len() + 1);
            assert(entered.cache_insert(dir, name, self.next_entry()).entries.len()
                == entered.entries.len());
        }
        assert(self.entries.len() <= self.lookup_locked_step(dir, name, told.looked).0.entries.len());
        assert(self.entries.len() <= self.lookup_step(dir, name, told).0.entries.len());
    }

    /// The position above a position is a directory.
    pub proof fn lemma_parent_is_dir(self, loc: Location)
        requires
            self.wf(),
            self.has_location(loc),
            self.location_parent(loc) is Some,
        ensures
            self.entry(self.location_parent(loc)->0.entry).is_dir,
        decreases loc.mountpoint.id,
    {
        assert(self.entry_wf(loc.entry.id as int));
        assert(self.mount_wf(loc.mountpoint.id as int));
        if self.entry(loc.entry).parent is None {
            self.lemma_parent_is_dir(self.mount(loc.mountpoint).location->0);
        }
    }
}

} // verus!
