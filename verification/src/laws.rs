use crate::entry::DirEntry;
use crate::error::{VfsError, VfsResult};
use crate::model::VfsView;
use crate::mount::{Location, Mountpoint};
use crate::ops::{DirNodeOps, NewNode};
use crate::path::{
    dot, dotdot, lemma_segment_end, lemma_segment_reaches, path_file_name, path_steps,
    segment_end, segment_steps, steps_from, valid_entry_name, Step,
};
use crate::steps::{Looked, Told};
use crate::walk::Answers;
use vstd::prelude::*;

verus! {

impl<D: DirNodeOps> VfsView<D> {
    /// What a directory caches under a name is found again from the entry
    /// itself: the directory is its parent, and the name is its name.
    pub proof fn lemma_cache_coherent(self, dir: DirEntry, name: Seq<char>)
        requires
            self.wf(),
            self.has_entry(dir),
            self.entry(dir).cache.contains_key(name),
        ensures
            ({
                let d = self.entry(dir).cache[name];
                &&& self.has_entry(d)
                &&& self.entry(d).parent == Some(dir)
                &&& self.entry(d).name == name
                &&& self.entry(self.entry(d).parent->0).cache[self.entry(d).name] == d
            }),
    {
        assert(self.entry_wf(dir.id as int));
        assert(dir == DirEntry { id: dir.id as int as usize });
    }

    /// A mount that stands in the slot of a directory is placed on that
    /// directory: the slot of the entry of its place holds the mount.
    pub proof fn lemma_mount_in_slot(self, dir: DirEntry, m: Mountpoint)
        requires
            self.wf(),
            self.has_entry(dir),
            self.entry(dir).mounted == Some(m),
        ensures
            self.has_mount(m),
            self.mount(m).location matches Some(place) && place.entry == dir && self.entry(
                place.entry,
            ).mounted == Some(m),
    {
        assert(self.entry_wf(dir.id as int));
    }

    /// An entry is an ancestor of itself.
    pub proof fn lemma_ancestor_reflexive(self, a: DirEntry)
        ensures
            self.is_ancestor(a, a),
    {
    }

    /// An ancestor was entered no later than its descendant.
    pub proof fn lemma_ancestor_order(self, a: DirEntry, b: DirEntry)
        requires
            self.is_ancestor(a, b),
        ensures
            a.id <= b.id,
        decreases b.id,
    {
        if a != b {
            self.lemma_ancestor_order(a, self.entry(b).parent->0);
        }
    }

    /// Two entries that are ancestors of each other are one entry: there
    /// is no cycle.
    pub proof fn lemma_ancestor_antisymmetric(self, a: DirEntry, b: DirEntry)
        requires
            self.is_ancestor(a, b),
            self.is_ancestor(b, a),
        ensures
            a == b,
    {
        self.lemma_ancestor_order(a, b);
        self.lemma_ancestor_order(b, a);
    }

    /// An ancestor of an ancestor is an ancestor.
    pub proof fn lemma_ancestor_transitive(self, a: DirEntry, b: DirEntry, c: DirEntry)
        requires
            self.is_ancestor(a, b),
            self.is_ancestor(b, c),
        ensures
            self.is_ancestor(a, c),
        decreases c.id,
    {
        if b != c {
            self.lemma_ancestor_transitive(a, b, self.entry(c).parent->0);
        }
    }

    /// Different mounts have different device numbers, and no mount has a
    /// device number above the last one.
    pub proof fn lemma_device_unique(self, a: Mountpoint, b: Mountpoint)
        requires
            self.wf(),
            self.has_mount(a),
            self.has_mount(b),
            a != b,
        ensures
            self.mount(a).device != self.mount(b).device,
            self.mount(a).device <= self.last_device(),
    {
        assert(self.mount_wf(a.id as int));
        assert(self.mount_wf(b.id as int));
        assert(self.mount_wf(self.mounts.len() - 1));
    }

    /// A creation that fails leaves the namespace as it was.
    pub proof fn lemma_failed_create(self, dir: DirEntry, name: Seq<char>, made: VfsResult<
        NewNode<D>,
    >)
        requires
            self.create_step(dir, name, made).1 is Err,
        ensures
            self.create_step(dir, name, made).0 == self,
    {
    }

    /// A removal that fails leaves the namespace as it was, if the name
    /// was cached or the backend did not find it. (A name that the backend
    /// finds for the removal is entered before the removal can fail.)
    pub proof fn lemma_failed_unlink(
        self,
        dir: DirEntry,
        name: Seq<char>,
        is_dir: bool,
        looked: Looked<D>,
        done: VfsResult<()>,
    )
        requires
            self.unlink_step(dir, name, is_dir, looked, done).1 is Err,
            self.entry(dir).cache.contains_key(name) || looked.found is Err,
        ensures
            self.unlink_step(dir, name, is_dir, looked, done).0 == self,
    {
    }

    /// A removal that fails changes no cache where the directory does not
    /// say that it is cacheable, whatever the backend found.
    pub proof fn lemma_failed_unlink_uncached(
        self,
        dir: DirEntry,
        name: Seq<char>,
        is_dir: bool,
        looked: Looked<D>,
        done: VfsResult<()>,
    )
        requires
            self.unlink_step(dir, name, is_dir, looked, done).1 is Err,
            !looked.cache_it,
        ensures
            ({
                let post = self.unlink_step(dir, name, is_dir, looked, done).0;
                forall|i: int|
                    0 <= i < self.entries.len() ==> #[trigger] post.entries[i] == self.entries[i]
            }),
    {
    }

    /// Renaming a cached name of a directory to itself changes nothing
    /// but the cache: if the backend renames, the name leaves the cache as
    /// by [`Self::forget_entry`]; if the renaming fails, nothing changes.
    pub proof fn lemma_rename_to_itself(
        self,
        dir: DirEntry,
        name: Seq<char>,
        guard: bool,
        src_looked: Looked<D>,
        dst_looked: Looked<D>,
        dst_children: Result<bool, VfsError>,
        done: VfsResult<()>,
    )
        requires
            self.wf(),
            self.has_entry(dir),
            self.entry(dir).cache.contains_key(name),
        ensures
            ({
                let (post, r) = self.rename_step(
                    dir,
                    name,
                    dir,
                    name,
                    guard,
                    src_looked,
                    dst_looked,
                    dst_children,
                    done,
                );
                &&& post == if r is Ok {
                    self.forget_entry(dir, name)
                } else {
                    self
                }
                &&& post.mounts == self.mounts
                &&& post.entries.len() == self.entries.len()
            }),
    {
        let (post, r) = self.rename_step(
            dir,
            name,
            dir,
            name,
            guard,
            src_looked,
            dst_looked,
            dst_children,
            done,
        );
        if r is Ok {
            let once = self.forget_entry(dir, name);
            self.lemma_child_under(dir, name);
            let child = self.entry(dir).cache[name];
            let removed = self.cache_remove(dir, name);
            assert(!removed.entry(dir).cache.contains_key(name));
            if self.entry(child).is_dir {
                self.lemma_under_order(child, child);
                assert(!removed.under(child, dir)) by {
                    if removed.under(child, dir) {
                        removed.lemma_under_order(child, dir);
                    }
                }
                assert(once.entry(dir).cache == removed.entry(dir).cache);
            }
            assert(!once.entry(dir).cache.contains_key(name));
            assert(once.forget_entry(dir, name) == once);
        }
    }

    /// Where the backend says that a directory is cacheable, a lookup that
    /// has found an entry and cached it is followed by lookups that find the
    /// same entry, without a change of the namespace and whatever the
    /// backend would answer to the name.
    pub proof fn lemma_lookup_memoized(
        self,
        dir: DirEntry,
        name: Seq<char>,
        first: Told<D>,
        second: Told<D>,
    )
        requires
            self.has_entry(dir),
            first.cacheable,
            second.cacheable,
            first.looked.cache_it || self.entry(dir).cache.contains_key(name),
            self.lookup_step(dir, name, first).1 is Ok,
        ensures
            ({
                let (mid, found) = self.lookup_step(dir, name, first);
                mid.lookup_step(dir, name, second) == (mid, found)
            }),
    {
    }

    /// Moving a directory into itself or into a directory below it is
    /// refused with `EINVAL`: where the cached entry that `src_name` names
    /// is a directory and is the destination directory or an ancestor of
    /// it, the renaming fails and changes nothing, whatever the backend
    /// would answer.
    pub proof fn lemma_rename_into_descendant(
        self,
        src: Location,
        src_name: Seq<char>,
        dst: Location,
        dst_name: Seq<char>,
        src_looked: Looked<D>,
        dst_looked: Looked<D>,
        dst_children: Result<bool, VfsError>,
        done: VfsResult<()>,
    )
        requires
            self.rename_reaches(src, dst),
            valid_entry_name(src_name),
            valid_entry_name(dst_name),
            self.entry(src.entry).cache.contains_key(src_name),
            self.entry(self.entry(src.entry).cache[src_name]).is_dir,
            self.is_ancestor(self.entry(src.entry).cache[src_name], dst.entry),
        ensures
            self.location_rename_step(
                src,
                src_name,
                dst,
                dst_name,
                src_looked,
                dst_looked,
                dst_children,
                done,
            ) == (self, Err::<(), VfsError>(VfsError::EINVAL)),
    {
    }

    /// Nothing else is refused on account of where it is moved: where the
    /// cached entry that `src_name` names is not the destination directory
    /// nor an ancestor of it, the renaming between two directories of one
    /// mount goes as the renaming without the guard.
    pub proof fn lemma_rename_elsewhere(
        self,
        src: Location,
        src_name: Seq<char>,
        dst: Location,
        dst_name: Seq<char>,
        src_looked: Looked<D>,
        dst_looked: Looked<D>,
        dst_children: Result<bool, VfsError>,
        done: VfsResult<()>,
    )
        requires
            self.rename_reaches(src, dst),
            self.entry(src.entry).cache.contains_key(src_name),
            !self.is_ancestor(self.entry(src.entry).cache[src_name], dst.entry),
        ensures
            self.location_rename_step(
                src,
                src_name,
                dst,
                dst_name,
                src_looked,
                dst_looked,
                dst_children,
                done,
            ) == self.rename_step(
                src.entry,
                src_name,
                dst.entry,
                dst_name,
                false,
                src_looked,
                dst_looked,
                dst_children,
                done,
            ),
    {
    }

    /// What is no directory has nothing below it: an entry that is an
    /// ancestor of another entry is a directory.
    pub proof fn lemma_ancestor_is_dir(self, a: DirEntry, b: DirEntry)
        requires
            self.wf(),
            self.has_entry(b),
            self.is_ancestor(a, b),
            a != b,
        ensures
            self.is_dir(a),
        decreases b.id,
    {
        assert(self.entry_wf(b.id as int));
        let p = self.entry(b).parent->0;
        if p != a {
            self.lemma_ancestor_is_dir(a, p);
        }
    }
}

/// The steps of a path from a position on, when `/.` is put behind the
/// path: the same steps.
proof fn lemma_steps_trailing_dot(path: Seq<char>, from: int, first: bool)
    requires
        0 <= from <= path.len(),
        path.len() > 0,
    ensures
        steps_from(path + seq!['/', '.'], from, first) == steps_from(path, from, first),
    decreases path.len() - from,
{
    let longer = path + seq!['/', '.'];
    lemma_segment_end(path, from);
    lemma_segment_reaches(longer, from, segment_end(path, from));
    let end = segment_end(path, from);
    assert(longer.subrange(from, end) =~= path.subrange(from, end));
    if end < path.len() {
        lemma_steps_trailing_dot(path, end + 1, false);
    } else {
        let n = path.len() as int;
        lemma_segment_reaches(longer, n + 1, n + 2);
        assert(longer.subrange(n + 1, n + 2) =~= dot());
        assert(steps_from(longer, n + 1, false) =~= seq![]);
        assert(steps_from(longer, from, first) =~= segment_steps(path.subrange(from, end), first)
            + steps_from(longer, n + 1, false));
    }
}

/// The steps of a path from a position on, when `/..` is put behind the
/// path: the same steps, then the step to the parent.
proof fn lemma_steps_trailing_dotdot(path: Seq<char>, from: int, first: bool)
    requires
        0 <= from <= path.len(),
        path.len() > 0,
    ensures
        steps_from(path + seq!['/', '.', '.'], from, first) == steps_from(path, from, first).push(
            Step::ParentDir,
        ),
    decreases path.len() - from,
{
    let longer = path + seq!['/', '.', '.'];
    lemma_segment_end(path, from);
    lemma_segment_reaches(longer, from, segment_end(path, from));
    let end = segment_end(path, from);
    assert(longer.subrange(from, end) =~= path.subrange(from, end));
    let here = segment_steps(path.subrange(from, end), first);
    if end < path.len() {
        lemma_steps_trailing_dotdot(path, end + 1, false);
        assert(steps_from(longer, from, first) =~= (here + steps_from(path, end + 1, false)).push(
            Step::ParentDir,
        ));
    } else {
        let n = path.len() as int;
        lemma_segment_reaches(longer, n + 1, n + 3);
        assert(longer.subrange(n + 1, n + 3) =~= dotdot());
        assert(dotdot() != dot()) by {
            assert(dotdot().len() == 2);
            assert(dot().len() == 1);
        }
        assert(steps_from(longer, n + 1, false) =~= seq![Step::ParentDir]);
        assert(steps_from(longer, from, first) =~= here + steps_from(longer, n + 1, false));
        assert(here + seq![Step::ParentDir] =~= here.push(Step::ParentDir));
    }
}

/// Putting `/.` behind a path that is not empty changes neither its steps
/// nor its final name.
pub proof fn lemma_path_trailing_dot(path: Seq<char>)
    requires
        path.len() > 0,
    ensures
        path_steps(path + seq!['/', '.']) == path_steps(path),
        path_file_name(path + seq!['/', '.']) == path_file_name(path),
{
    lemma_steps_trailing_dot(path, 0, true);
}

/// Putting `/..` behind a path that is not empty adds the step to the
/// parent to its steps, and leaves it without a final name.
pub proof fn lemma_path_trailing_dotdot(path: Seq<char>)
    requires
        path.len() > 0,
    ensures
        path_steps(path + seq!['/', '.', '.']) == path_steps(path).push(Step::ParentDir),
        path_file_name(path + seq!['/', '.', '.']) is None,
{
    lemma_steps_trailing_dotdot(path, 0, true);
    let steps = path_steps(path);
    assert(seq![Step::RootDir] + steps_from(path, 0, true).push(Step::ParentDir) =~= (
    seq![Step::RootDir] + steps_from(path, 0, true)).push(Step::ParentDir));
    assert(steps.push(Step::ParentDir).last() == Step::ParentDir);
}

impl<D: DirNodeOps> VfsView<D> {
    /// A path that is not empty resolves as the same path with `/.` behind
    /// it: to the same position and the same state, for the same answers of
    /// the backend, which is asked the same.
    pub proof fn lemma_resolve_trailing_dot(
        self,
        root: Location,
        cwd: Location,
        path: Seq<char>,
        answers: Answers<D>,
        last: Told<D>,
    )
        requires
            path.len() > 0,
        ensures
            self.resolve_step(root, cwd, path + seq!['/', '.'], answers, last) == self.resolve_step(
                root,
                cwd,
                path,
                answers,
                last,
            ),
            self.resolve_told(root, cwd, path + seq!['/', '.'], answers, last) == self.resolve_told(
                root,
                cwd,
                path,
                answers,
                last,
            ),
    {
        lemma_path_trailing_dot(path);
    }

    /// Where a path that is not empty resolves to a position, the same
    /// path with `/..` behind it resolves to the position above, for the
    /// same answers of the backend; `..` does not lead out of the root of the
    /// resolver.
    pub proof fn lemma_resolve_trailing_dotdot(
        self,
        root: Location,
        cwd: Location,
        path: Seq<char>,
        answers: Answers<D>,
        last: Told<D>,
    )
        requires
            path.len() > 0,
            self.resolve_step(root, cwd, path, answers, last).1 is Ok,
            ({
                let (post, r) = self.resolve_step(root, cwd, path, answers, last);
                post.entry(post.step_up(root, r->Ok_0).entry).is_dir
            }),
        ensures
            ({
                let (post, r) = self.resolve_step(root, cwd, path, answers, last);
                let n = path_steps(path).len() as int;
                let again = Seq::new(
                    (n + 1) as nat,
                    |k: int|
                        if path_file_name(path) is Some && k == n - 1 {
                            last
                        } else {
                            answers[k]
                        },
                );
                self.resolve_step(root, cwd, path + seq!['/', '.', '.'], again, last) == (
                    post,
                    Ok::<Location, VfsError>(post.step_up(root, r->Ok_0)),
                )
            }),
    {
        lemma_path_trailing_dotdot(path);
        let steps = path_steps(path);
        let longer = steps.push(Step::ParentDir);
        let n = steps.len() as int;
        let tail = path_file_name(path);
        let again = Seq::new(
            (n + 1) as nat,
            |k: int|
                if tail is Some && k == n - 1 {
                    last
                } else {
                    answers[k]
                },
        );
        let lead = Self::lead_of(path);
        self.lemma_walk_answers(root, cwd, steps, answers, again, lead);
        self.lemma_walk_steps(root, cwd, steps, longer, again, lead);
        self.lemma_walk_steps(root, cwd, steps, longer, again, n as nat);
        assert(longer[n] == Step::ParentDir);
        assert(Self::lead_of(path + seq!['/', '.', '.']) == n + 1);
        if tail is Some {
            assert(steps.last() == Step::Normal(tail->0));
            assert(longer[n - 1] == steps[n - 1]);
            assert(again[n - 1] == last);
        }
    }

    /// A walk over the first steps of a path goes by those steps alone.
    pub proof fn lemma_walk_steps(
        self,
        root: Location,
        start: Location,
        a: Seq<Step>,
        b: Seq<Step>,
        answers: Answers<D>,
        n: nat,
    )
        requires
            forall|k: int| 0 <= k < n ==> a[k] == b[k],
        ensures
            self.walk(root, start, a, answers, n) == self.walk(root, start, b, answers, n),
        decreases n,
    {
        if n > 0 {
            self.lemma_walk_steps(root, start, a, b, answers, (n - 1) as nat);
        }
    }
}

} // verus!
